use uni_llm_api::config::{ApiKeyInfo, ApiKeyProvider, ModelInfo, SelectedApiKeyInfo, UniModelsInfo};
use uni_llm_api::config_decode::parse_config;
use uni_llm_api::dispatch::{ClientKind, Route};
use uni_llm_api::error::{check_status, AppError};
use uni_llm_api::json::{to_text, Json};
use uni_llm_api::table::Table;
use uni_llm_api::tags::{api_tags, api_version};

fn pool(keys: &[&str], provider: ApiKeyProvider, need_proxy: bool, cur_index: u32) -> ApiKeyInfo {
    ApiKeyInfo { api_key: keys.iter().map(|k| k.to_string()).collect(), provider, need_proxy, cur_index }
}

fn model(name: &str, api_key_id: &str) -> ModelInfo {
    ModelInfo { name: name.to_string(), api_key_id: api_key_id.to_string() }
}

fn registry() -> UniModelsInfo {
    let mut api_keys = Table::new();
    api_keys.insert("direct".to_string(), pool(&["k0", "k1", "k2"], ApiKeyProvider::DeepSeek, false, 0));
    api_keys.insert("proxied".to_string(), pool(&["g0"], ApiKeyProvider::Google, true, 0));
    api_keys.insert("empty".to_string(), pool(&[], ApiKeyProvider::Aliyun, false, 0));
    let mut models = Table::new();
    models.insert("chat".to_string(), model("deepseek-chat", "direct"));
    models.insert("gem".to_string(), model("gemini-2.0-flash", "proxied"));
    models.insert("orphan".to_string(), model("x", "nowhere"));
    UniModelsInfo { proxy_url: None, api_keys, models }
}

#[test]
fn rotation_hands_out_each_key_once_in_cyclic_order() {
    let mut info = pool(&["a", "b", "c"], ApiKeyProvider::Tencent, true, 0);
    let mut seen = Vec::new();
    for _ in 0..3 {
        let picked = info.selected();
        assert_eq!(picked.provider, ApiKeyProvider::Tencent);
        assert!(picked.need_proxy);
        seen.push(picked.api_key);
    }
    assert_eq!(seen, vec!["a", "b", "c"]);
    assert_eq!(info.cur_index, 3);
    assert_eq!(info.selected().api_key, "a");
    assert_eq!(info.api_key, vec!["a", "b", "c"]);
}

#[test]
fn rotation_starts_where_the_cursor_stands() {
    let mut info = pool(&["a", "b", "c"], ApiKeyProvider::Aliyun, false, 7);
    let seen: Vec<String> = (0..6).map(|_| info.selected().api_key).collect();
    assert_eq!(seen, vec!["b", "c", "a", "b", "c", "a"]);
    assert_eq!(info.cur_index, 13);
}

#[test]
fn rotation_stays_periodic_at_the_end_of_the_cursor_range() {
    // 4294967295 mod 7 is 3.
    let mut info = pool(&["0", "1", "2", "3", "4", "5", "6"], ApiKeyProvider::Aliyun, false, u32::MAX - 2);
    let seen: Vec<String> = (0..9).map(|_| info.selected().api_key).collect();
    assert_eq!(seen, vec!["1", "2", "3", "4", "5", "6", "0", "1", "2"]);
    let mut single = pool(&["only"], ApiKeyProvider::Aliyun, false, u32::MAX);
    assert_eq!(single.selected().api_key, "only");
    assert_eq!(single.cur_index, 0);
    assert_eq!(single.selected().api_key, "only");
}

#[test]
fn a_pool_can_be_rotated_if_it_holds_a_key() {
    assert!(pool(&["a"], ApiKeyProvider::Aliyun, false, 0).is_rotatable());
    assert!(!pool(&[], ApiKeyProvider::Aliyun, false, 0).is_rotatable());
    assert!(!ApiKeyInfo::default().is_rotatable());
}

#[test]
fn selected_key_is_a_plain_value() {
    let mut info = pool(&["a"], ApiKeyProvider::Custom("http://x/v1".to_string()), false, 0);
    assert_eq!(
        info.selected(),
        SelectedApiKeyInfo {
            api_key: "a".to_string(),
            provider: ApiKeyProvider::Custom("http://x/v1".to_string()),
            need_proxy: false,
        }
    );
}

#[test]
fn unknown_model_is_refused_and_nothing_rotates() {
    let mut reg = registry();
    assert!(reg.is_well_formed());
    let before = registry();
    assert_eq!(reg.resolve("missing", true), Err(AppError::UnknownModel));
    assert_eq!(reg, before);
    assert_eq!(reg.resolve("", true), Err(AppError::UnknownModel));
    assert_eq!(reg.resolve("Chat", true), Err(AppError::UnknownModel));
    assert_eq!(reg, before);
}

#[test]
fn unknown_pool_is_refused_and_nothing_rotates() {
    let mut reg = registry();
    let before = registry();
    assert_eq!(reg.resolve("orphan", true), Err(AppError::UnknownCredentialPool));
    assert_eq!(reg, before);
}

#[test]
fn resolve_rotates_the_pool_of_the_model() {
    let mut reg = registry();
    let keys: Vec<String> = (0..4).map(|_| reg.resolve("chat", false).expect("a route").api_key).collect();
    assert_eq!(keys, vec!["k0", "k1", "k2", "k0"]);
    assert_eq!(reg.api_keys.get("direct").expect("pool").cur_index, 4);
    assert_eq!(reg.api_keys.get("proxied").expect("pool").cur_index, 0);
    assert_eq!(reg.models, registry().models);
}

#[test]
fn resolve_gives_the_whole_route() {
    let mut reg = registry();
    assert_eq!(
        reg.resolve("chat", false),
        Ok(Route {
            model_id: "chat".to_string(),
            model_name: "deepseek-chat".to_string(),
            api_key: "k0".to_string(),
            provider: ApiKeyProvider::DeepSeek,
            client: ClientKind::Direct,
        })
    );
    assert_eq!(
        reg.resolve("gem", true),
        Ok(Route {
            model_id: "gem".to_string(),
            model_name: "gemini-2.0-flash".to_string(),
            api_key: "g0".to_string(),
            provider: ApiKeyProvider::Google,
            client: ClientKind::Proxied,
        })
    );
    assert_eq!(reg.resolve("chat", true).expect("a route").client, ClientKind::Direct);
}

#[test]
fn proxy_that_is_not_configured_is_refused_after_the_rotation() {
    let mut reg = registry();
    assert_eq!(reg.resolve("gem", false), Err(AppError::ProxyNotConfigured));
    assert_eq!(reg.api_keys.get("proxied").expect("pool").cur_index, 1);
    assert_eq!(reg.api_keys.get("direct").expect("pool").cur_index, 0);
}

#[test]
fn well_formedness_asks_for_a_key_in_every_pool_that_a_model_names() {
    let mut reg = registry();
    assert!(reg.is_well_formed());
    reg.models.insert("bad".to_string(), model("y", "empty"));
    assert!(!reg.is_well_formed());
    reg.api_keys.insert("empty".to_string(), pool(&["now"], ApiKeyProvider::Aliyun, false, 0));
    assert!(reg.is_well_formed());
    assert!(UniModelsInfo::default().is_well_formed());
}

#[test]
fn default_registry_holds_five_pools_and_eight_models() {
    let reg = UniModelsInfo::default();
    assert_eq!(reg.proxy_url, Some("http://127.0.0.1:11111".to_string()));
    assert_eq!(reg.api_keys.len(), 5);
    assert_eq!(reg.models.len(), 8);
    assert_eq!(reg.api_keys.names(), vec!["aliyun", "bytedance", "tencent", "siliconflow", "google"]);
    for (name, provider, need_proxy) in [
        ("aliyun", ApiKeyProvider::Aliyun, false),
        ("bytedance", ApiKeyProvider::Bytedance, false),
        ("tencent", ApiKeyProvider::Tencent, false),
        ("siliconflow", ApiKeyProvider::Siliconflow, false),
        ("google", ApiKeyProvider::Google, true),
    ] {
        assert_eq!(
            reg.api_keys.get(name),
            Some(&pool(&["[YOUR-API-KEY]"], provider, need_proxy, 0)),
            "pool {}",
            name
        );
    }
    for (id, name, pool_id) in [
        ("aliyun-r1", "deepseek-r1", "aliyun"),
        ("aliyun-qwen-max-latest", "qwen-max-latest", "aliyun"),
        ("bytedance-r1", "ep-20250207154718-64blv", "bytedance"),
        ("tencent-r1", "deepseek-r1", "tencent"),
        ("siliconflow-r1", "deepseek-ai/DeepSeek-R1", "siliconflow"),
        ("gemini-1.5-flash", "gemini-1.5-flash", "google"),
        ("gemini-2.0-flash", "gemini-2.0-flash", "google"),
        ("gemini-2.0-flash-thinking-exp", "gemini-2.0-flash-thinking-exp", "google"),
    ] {
        assert_eq!(reg.models.get(id), Some(&model(name, pool_id)), "model {}", id);
    }
    assert_eq!(ApiKeyProvider::default(), ApiKeyProvider::Aliyun);
    assert_eq!(ModelInfo::default(), model("", ""));
}

#[test]
fn latest_tags_double_the_models() {
    let mut reg = UniModelsInfo::default();
    reg.insert_latest_tag_for_openwebui();
    assert_eq!(reg.models.len(), 16);
    assert_eq!(reg.models.get("aliyun-r1:latest"), Some(&model("deepseek-r1", "aliyun")));
    assert_eq!(reg.models.get("aliyun-r1"), Some(&model("deepseek-r1", "aliyun")));
    assert_eq!(
        reg.models.get("aliyun-qwen-max-latest:latest"),
        Some(&model("qwen-max-latest", "aliyun"))
    );
    assert_eq!(reg.models.get("aliyun-r1:latest:latest"), None);
    assert_eq!(reg.api_keys, UniModelsInfo::default().api_keys);
    assert_eq!(reg.proxy_url, UniModelsInfo::default().proxy_url);
}

#[test]
fn a_tagged_id_that_was_taken_is_overwritten() {
    let mut models = Table::new();
    models.insert("a".to_string(), model("first", "p"));
    models.insert("a:latest".to_string(), model("second", "p"));
    let mut reg = UniModelsInfo { proxy_url: None, api_keys: Table::new(), models };
    reg.insert_latest_tag_for_openwebui();
    assert_eq!(reg.models.len(), 3);
    assert_eq!(reg.models.get("a"), Some(&model("first", "p")));
    assert_eq!(reg.models.get("a:latest"), Some(&model("first", "p")));
    assert_eq!(reg.models.get("a:latest:latest"), Some(&model("second", "p")));
    let mut empty = UniModelsInfo { proxy_url: None, api_keys: Table::new(), models: Table::new() };
    empty.insert_latest_tag_for_openwebui();
    assert_eq!(empty.models.len(), 0);
}

#[test]
fn table_binds_names_in_insertion_order() {
    let mut t: Table<ModelInfo> = Table::new();
    assert_eq!(t.len(), 0);
    assert_eq!(t.get("a"), None);
    assert_eq!(t.position("a"), None);
    t.insert("b".to_string(), model("1", "p"));
    t.insert("a".to_string(), model("2", "p"));
    t.insert("b".to_string(), model("3", "p"));
    assert_eq!(t.len(), 2);
    assert_eq!(t.names(), vec!["b", "a"]);
    assert_eq!(t.position("a"), Some(1));
    assert_eq!(t.get("b"), Some(&model("3", "p")));
    assert_eq!(t.get("c"), None);
}

#[test]
fn configuration_takes_one_key_or_many() {
    let text = r#"{
        "proxy_url": "http://127.0.0.1:7890",
        "api_keys": {
            "one": { "api_key": "solo", "provider": "DeepSeek" },
            "many": { "api_key": ["a", "b"], "provider": "Google", "need_proxy": true },
            "mine": { "api_key": ["c"], "provider": { "Custom": "http://localhost:8000/v1/chat" }, "need_proxy": false },
            "none": { "provider": "Siliconflow" }
        },
        "models": {
            "m1": { "name": "deepseek-chat", "api_key_id": "one" },
            "m2": { "name": "gemini", "api_key_id": "many", "note": "ignored" }
        }
    }"#;
    let reg = parse_config(text).expect("a configuration");
    assert_eq!(reg.proxy_url, Some("http://127.0.0.1:7890".to_string()));
    assert_eq!(reg.api_keys.names(), vec!["one", "many", "mine", "none"]);
    assert_eq!(reg.api_keys.get("one"), Some(&pool(&["solo"], ApiKeyProvider::DeepSeek, false, 0)));
    assert_eq!(reg.api_keys.get("many"), Some(&pool(&["a", "b"], ApiKeyProvider::Google, true, 0)));
    assert_eq!(
        reg.api_keys.get("mine"),
        Some(&pool(&["c"], ApiKeyProvider::Custom("http://localhost:8000/v1/chat".to_string()), false, 0))
    );
    assert_eq!(reg.api_keys.get("none"), Some(&pool(&[], ApiKeyProvider::Siliconflow, false, 0)));
    assert_eq!(reg.models.get("m1"), Some(&model("deepseek-chat", "one")));
    assert_eq!(reg.models.get("m2"), Some(&model("gemini", "many")));
    assert!(reg.is_well_formed());
    let single = parse_config(r#"{"api_keys":{"p":{"api_key":"k","provider":"Aliyun"}},"models":{}}"#)
        .expect("a configuration");
    let list = parse_config(r#"{"api_keys":{"p":{"api_key":["k"],"provider":"Aliyun"}},"models":{}}"#)
        .expect("a configuration");
    assert_eq!(single, list);
    assert_eq!(single.proxy_url, None);
}

#[test]
fn every_provider_name_is_read() {
    for (name, provider) in [
        ("Aliyun", ApiKeyProvider::Aliyun),
        ("Tencent", ApiKeyProvider::Tencent),
        ("Bytedance", ApiKeyProvider::Bytedance),
        ("DeepSeek", ApiKeyProvider::DeepSeek),
        ("Google", ApiKeyProvider::Google),
        ("Siliconflow", ApiKeyProvider::Siliconflow),
    ] {
        assert_eq!(ApiKeyProvider::from_json(&Json::Str(name.to_string())), Some(provider));
    }
    assert_eq!(ApiKeyProvider::from_json(&Json::Str("aliyun".to_string())), None);
    assert_eq!(ApiKeyProvider::from_json(&Json::Null), None);
}

#[test]
fn configurations_of_the_wrong_shape_are_refused() {
    for text in [
        "",
        "[]",
        "{}",
        r#"{"api_keys":{}}"#,
        r#"{"models":{}}"#,
        r#"{"api_keys":[],"models":{}}"#,
        r#"{"api_keys":{},"models":{},"proxy_url":7}"#,
        r#"{"api_keys":{"p":{"api_key":"k"}},"models":{}}"#,
        r#"{"api_keys":{"p":{"api_key":"k","provider":"OpenAI"}},"models":{}}"#,
        r#"{"api_keys":{"p":{"api_key":7,"provider":"Aliyun"}},"models":{}}"#,
        r#"{"api_keys":{"p":{"api_key":["k",7],"provider":"Aliyun"}},"models":{}}"#,
        r#"{"api_keys":{"p":{"api_key":"k","provider":{"Custom":7}}},"models":{}}"#,
        r#"{"api_keys":{"p":{"api_key":"k","provider":{"Custom":"u","x":1}}},"models":{}}"#,
        r#"{"api_keys":{"p":{"api_key":"k","provider":{"Other":"u"}}},"models":{}}"#,
        r#"{"api_keys":{"p":{"api_key":"k","provider":"Aliyun","need_proxy":"yes"}},"models":{}}"#,
        r#"{"api_keys":{},"models":{"m":{"name":"n"}}}"#,
        r#"{"api_keys":{},"models":{"m":{"name":"n","api_key_id":null}}}"#,
        r#"{"api_keys":{},"models":{"ok":{"name":"n","api_key_id":"p"},"m":7}}"#,
    ] {
        assert_eq!(parse_config(text), None, "text {}", text);
    }
    assert!(parse_config(r#"{"api_keys":{},"models":{},"proxy_url":null}"#).is_some());
}

#[test]
fn tags_list_every_model_once() {
    let reg = registry();
    assert_eq!(
        to_text(&api_tags(&reg)),
        r#"{"models":[{"name":"chat","model":"chat"},{"name":"gem","model":"gem"},{"name":"orphan","model":"orphan"}]}"#
    );
    let empty = UniModelsInfo { proxy_url: None, api_keys: Table::new(), models: Table::new() };
    assert_eq!(to_text(&api_tags(&empty)), r#"{"models":[]}"#);
    assert_eq!(to_text(&api_version()), r#"{"version":"0.5.1"}"#);
}

#[test]
fn upstream_status_outside_2xx_is_an_error_with_status_and_body() {
    assert_eq!(check_status(200, "ignored"), Ok(()));
    assert_eq!(check_status(204, ""), Ok(()));
    assert_eq!(check_status(299, ""), Ok(()));
    for status in [0u16, 100, 199, 300, 301, 400, 401, 429, 500, 503, 65535] {
        assert_eq!(
            check_status(status, "quota exceeded"),
            Err(AppError::Upstream { status, body: "quota exceeded".to_string() })
        );
    }
}

#[test]
fn failures_have_a_status_and_a_message() {
    let cases = [
        (AppError::InvalidRequest, "Something went wrong: Get ChatRequest"),
        (AppError::UnknownModel, "Something went wrong: Invalid model id"),
        (AppError::UnknownCredentialPool, "Something went wrong: Invalid api_key_id"),
        (
            AppError::ProxyNotConfigured,
            "Something went wrong: You've chosen to use a proxy but haven't set it up yet",
        ),
        (
            AppError::Upstream { status: 429, body: "slow down".to_string() },
            "Something went wrong: error:slow down",
        ),
        (AppError::MalformedPayload, "Something went wrong: Malformed upstream payload"),
        (AppError::EmptyChoices, "Something went wrong: Must have at least one choice"),
    ];
    for (error, message) in cases {
        assert_eq!(error.message(), message);
        assert_eq!(error.status_code(), 400);
        assert_eq!(error.clone(), error);
    }
}

#[test]
fn tags_list_an_id_once_even_where_the_entries_hold_it_twice() {
    let twice = Table {
        entries: vec![
            ("a".to_string(), model("first", "p")),
            ("b".to_string(), model("other", "p")),
            ("a".to_string(), model("second", "p")),
        ],
    };
    assert!(!twice.is_distinct());
    assert_eq!(twice.get("a"), Some(&model("first", "p")));
    let reg = UniModelsInfo { proxy_url: None, api_keys: Table::new(), models: twice };
    assert_eq!(
        to_text(&api_tags(&reg)),
        r#"{"models":[{"name":"a","model":"a"},{"name":"b","model":"b"}]}"#
    );
}

#[test]
fn tables_built_by_insert_hold_no_name_twice() {
    let mut t: Table<ModelInfo> = Table::new();
    assert!(t.is_distinct());
    for name in ["a", "b", "a", "c", "b", "a"] {
        t.insert(name.to_string(), model(name, "p"));
        assert!(t.is_distinct());
    }
    assert_eq!(t.names(), vec!["a", "b", "c"]);
    assert!(UniModelsInfo::default().models.is_distinct());
    assert!(UniModelsInfo::default().api_keys.is_distinct());
    let mut reg = UniModelsInfo::default();
    reg.insert_latest_tag_for_openwebui();
    assert!(reg.models.is_distinct());
}
