use uni_llm_api::cors::{decide, CorsAction, CorsLayer, CorsMiddleware};

fn pairs(list: &[(&str, &str)]) -> Vec<(String, String)> {
    list.iter().map(|(k, v)| (k.to_string(), v.to_string())).collect()
}

#[test]
fn layer_wraps_the_inner_service() {
    let wrapped: CorsMiddleware<u8> = CorsLayer.layer(7u8);
    assert_eq!(wrapped, CorsMiddleware { inner: 7u8 });
}

#[test]
fn preflight_request_is_answered_at_once() {
    let rules = CorsLayer.layer(());
    assert_eq!(
        rules.decide(true, Some("https://ui.example")),
        CorsAction::Preflight(pairs(&[
            ("access-control-allow-origin", "https://ui.example"),
            ("access-control-allow-methods", "GET,POST,PUT,PATCH,DELETE,HEAD,OPTIONS"),
            (
                "access-control-allow-headers",
                "Authorization,Content-Type,User-Agent,Accept,X-Requested-With,X-Stainless-Lang,X-Stainless-Package-Version,X-Stainless-Os,X-Stainless-Arch,X-Stainless-Retry-Count,X-Stainless-Runtime,X-Stainless-Runtime-Version,X-Stainless-Async,X-Stainless-Helper-Method,X-Stainless-Poll-Helper,X-Stainless-Custom-Poll-Interval"
            ),
            ("access-control-max-age", "43200"),
            ("vary", "Origin"),
            ("vary", "Access-Control-Request-Method"),
            ("vary", "Access-Control-Request-Headers"),
        ]))
    );
}

#[test]
fn other_requests_are_forwarded() {
    let rules = CorsLayer.layer(());
    assert_eq!(
        rules.decide(false, Some("https://ui.example")),
        CorsAction::Forward(pairs(&[
            ("access-control-allow-origin", "https://ui.example"),
            ("access-control-expose-headers", "Content-Length, X-Custom-Header"),
        ]))
    );
    assert_eq!(rules.decide(false, None), CorsAction::Forward(vec![]));
    assert_eq!(rules.decide(true, None), CorsAction::Forward(vec![]));
    assert_eq!(decide(true, None), CorsAction::Forward(vec![]));
    assert_eq!(decide(true, Some("o")), rules.decide(true, Some("o")));
    assert_eq!(decide(false, Some("o")), rules.decide(false, Some("o")));
}
