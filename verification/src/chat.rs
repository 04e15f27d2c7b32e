//! The chat endpoint, up to the point where the outbound request is sent.

use crate::config::UniModelsInfo;
use crate::dispatch::{RegistryView, Route, RouteView};
use crate::error::{AppError, AppErrorView};
use crate::provider::{chat_completion, outbound, OutboundRequest, OutboundView};
use crate::request::{parse_request, request_of_text};
use vstd::prelude::*;

verus! {

/// What is to be done for a chat request: the route, the outbound request,
/// and whether the answer is streamed.
#[derive(Debug, PartialEq, Eq)]
pub struct ChatPlan {
    pub route: Route,
    pub request: OutboundRequest,
    pub stream: bool,
}

/// The model of a [`ChatPlan`].
pub struct ChatPlanView {
    pub route: RouteView,
    pub request: OutboundView,
    pub stream: bool,
}

impl View for ChatPlan {
    type V = ChatPlanView;

    open spec fn view(&self) -> ChatPlanView {
        ChatPlanView { route: self.route@, request: self.request@, stream: self.stream }
    }
}

/// The plan for the body of a chat request: the failure where the body is
/// no chat request or where no route is found for its model; otherwise the
/// route and the outbound request that the adapter of the provider builds.
pub open spec fn plan_for(reg: RegistryView, proxy_configured: bool, body: Seq<char>) -> Result<
    ChatPlanView,
    AppErrorView,
> {
    match request_of_text(body) {
        Err(e) => Err(e),
        Ok(req) => match reg.route_for(req.model, proxy_configured) {
            Err(e) => Err(e),
            Ok(route) => Ok(
                ChatPlanView { route, request: outbound(route, req), stream: req.stream },
            ),
        },
    }
}

/// The registry after a chat request: where the body is a chat request, the
/// pool of its model has made one rotation; otherwise nothing has changed.
pub open spec fn registry_after(reg: RegistryView, body: Seq<char>) -> RegistryView {
    match request_of_text(body) {
        Err(_) => reg,
        Ok(req) => reg.after_request(req.model),
    }
}

/// The model of a plan or a failure.
pub open spec fn plan_result_view(r: Result<ChatPlan, AppError>) -> Result<
    ChatPlanView,
    AppErrorView,
> {
    match r {
        Ok(plan) => Ok(plan@),
        Err(e) => Err(e@),
    }
}

/// Handles the body of a chat request up to the outbound request: reads the
/// request, picks the route and rotates the pool, and builds the outbound
/// request, as [`plan_for`] and [`registry_after`] say.
pub fn api_chat(registry: &mut UniModelsInfo, proxy_configured: bool, body: &str) -> (r: Result<
    ChatPlan,
    AppError,
>)
    requires
        old(registry)@.well_formed(),
    ensures
        plan_result_view(r) == plan_for(old(registry)@, proxy_configured, body@),
        final(registry)@ == registry_after(old(registry)@, body@),
        final(registry)@.well_formed(),
        final(registry).proxy_url == old(registry).proxy_url,
{
    let payload = match parse_request(body) {
        Ok(payload) => payload,
        Err(e) => {
            return Err(e);
        },
    };
    let route = match registry.resolve(payload.model.as_str(), proxy_configured) {
        Ok(route) => route,
        Err(e) => {
            return Err(e);
        },
    };
    let request = chat_completion(&route, &payload);
    Ok(ChatPlan { route, request, stream: payload.stream })
}

} // verus!
