//! Cross-origin requests: what the gateway answers to a preflight request,
//! and which headers it adds to the answer of any other request that names
//! an origin.

use crate::view::pairs_view;
use vstd::prelude::*;

verus! {

/// Wraps a service in a [`CorsMiddleware`].
#[derive(Clone, Copy, Debug, PartialEq, Eq, Structural)]
pub struct CorsLayer;

/// A service behind the rules for cross-origin requests.
#[derive(Clone, Debug, PartialEq, Eq)]
pub struct CorsMiddleware<S> {
    pub inner: S,
}

/// What is to be done with a request.
#[derive(Debug, PartialEq, Eq)]
pub enum CorsAction {
    /// Answer at once with status 204 and these headers.
    Preflight(Vec<(String, String)>),
    /// Hand the request to the inner service and add these headers to its
    /// answer.
    Forward(Vec<(String, String)>),
}

/// The model of a [`CorsAction`].
pub enum CorsActionView {
    Preflight(Seq<(Seq<char>, Seq<char>)>),
    Forward(Seq<(Seq<char>, Seq<char>)>),
}

impl View for CorsAction {
    type V = CorsActionView;

    open spec fn view(&self) -> CorsActionView {
        match self {
            CorsAction::Preflight(h) => CorsActionView::Preflight(pairs_view(h@)),
            CorsAction::Forward(h) => CorsActionView::Forward(pairs_view(h@)),
        }
    }
}

/// The methods that a preflight answer allows.
pub open spec fn allowed_methods() -> Seq<char> {
    "GET,POST,PUT,PATCH,DELETE,HEAD,OPTIONS"@
}

/// The request headers that a preflight answer allows.
pub open spec fn allowed_headers() -> Seq<char> {
    "Authorization,Content-Type,User-Agent,Accept,X-Requested-With,X-Stainless-Lang,X-Stainless-Package-Version,X-Stainless-Os,X-Stainless-Arch,X-Stainless-Retry-Count,X-Stainless-Runtime,X-Stainless-Runtime-Version,X-Stainless-Async,X-Stainless-Helper-Method,X-Stainless-Poll-Helper,X-Stainless-Custom-Poll-Interval"@
}

/// The headers of the answer to a preflight request from `origin`.
pub open spec fn preflight_headers(origin: Seq<char>) -> Seq<(Seq<char>, Seq<char>)> {
    seq![
        ("access-control-allow-origin"@, origin),
        ("access-control-allow-methods"@, allowed_methods()),
        ("access-control-allow-headers"@, allowed_headers()),
        ("access-control-max-age"@, "43200"@),
        ("vary"@, "Origin"@),
        ("vary"@, "Access-Control-Request-Method"@),
        ("vary"@, "Access-Control-Request-Headers"@),
    ]
}

/// The headers added to the answer of a request from `origin`.
pub open spec fn exposed_headers(origin: Seq<char>) -> Seq<(Seq<char>, Seq<char>)> {
    seq![
        ("access-control-allow-origin"@, origin),
        ("access-control-expose-headers"@, "Content-Length, X-Custom-Header"@),
    ]
}

/// What is to be done with a request: a request with the method `OPTIONS`
/// that names an origin is a preflight request and is answered at once; any
/// other request is forwarded, and its answer gets the cross-origin headers
/// where the request names an origin.
pub open spec fn cors_action(is_options: bool, origin: Option<Seq<char>>) -> CorsActionView {
    match origin {
        Some(o) => if is_options {
            CorsActionView::Preflight(preflight_headers(o))
        } else {
            CorsActionView::Forward(exposed_headers(o))
        },
        None => CorsActionView::Forward(Seq::empty()),
    }
}

/// Adds a header at the end.
fn push_header(headers: &mut Vec<(String, String)>, name: &str, value: &str)
    ensures
        pairs_view(final(headers)@) == pairs_view(old(headers)@).push((name@, value@)),
{
    headers.push((name.to_owned(), value.to_owned()));
    assert(pairs_view(headers@) =~= pairs_view(old(headers)@).push((name@, value@)));
}

impl CorsLayer {
    /// Puts a service behind the rules for cross-origin requests.
    pub fn layer<S>(&self, inner: S) -> (r: CorsMiddleware<S>)
        ensures
            r.inner == inner,
    {
        CorsMiddleware { inner }
    }
}

/// Decides what is to be done with a request, as [`cors_action`] says.
pub fn decide(is_options: bool, origin: Option<&str>) -> (r: CorsAction)
    ensures
        r@ == cors_action(
            is_options,
            match origin {
                Some(o) => Some(o@),
                None => None,
            },
        ),
{
    let mut headers: Vec<(String, String)> = Vec::new();
    assert(pairs_view(headers@) =~= Seq::empty());
    match origin {
        Some(o) => {
            push_header(&mut headers, "access-control-allow-origin", o);
            if is_options {
                push_header(
                    &mut headers,
                    "access-control-allow-methods",
                    "GET,POST,PUT,PATCH,DELETE,HEAD,OPTIONS",
                );
                push_header(
                    &mut headers,
                    "access-control-allow-headers",
                    "Authorization,Content-Type,User-Agent,Accept,X-Requested-With,X-Stainless-Lang,X-Stainless-Package-Version,X-Stainless-Os,X-Stainless-Arch,X-Stainless-Retry-Count,X-Stainless-Runtime,X-Stainless-Runtime-Version,X-Stainless-Async,X-Stainless-Helper-Method,X-Stainless-Poll-Helper,X-Stainless-Custom-Poll-Interval",
                );
                push_header(&mut headers, "access-control-max-age", "43200");
                push_header(&mut headers, "vary", "Origin");
                push_header(&mut headers, "vary", "Access-Control-Request-Method");
                push_header(&mut headers, "vary", "Access-Control-Request-Headers");
                assert(pairs_view(headers@) =~= preflight_headers(o@));
                CorsAction::Preflight(headers)
            } else {
                push_header(
                    &mut headers,
                    "access-control-expose-headers",
                    "Content-Length, X-Custom-Header",
                );
                assert(pairs_view(headers@) =~= exposed_headers(o@));
                CorsAction::Forward(headers)
            }
        },
        None => CorsAction::Forward(headers),
    }
}

impl<S> CorsMiddleware<S> {
    /// Decides what is to be done with a request before it reaches the
    /// inner service, as [`cors_action`] says.
    pub fn decide(&self, is_options: bool, origin: Option<&str>) -> (r: CorsAction)
        ensures
            r@ == cors_action(
                is_options,
                match origin {
                    Some(o) => Some(o@),
                    None => None,
                },
            ),
    {
        decide(is_options, origin)
    }
}

} // verus!
