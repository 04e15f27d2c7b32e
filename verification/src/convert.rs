//! The converter for answers that are not streamed: one complete upstream
//! body in, one frame with `done` set out.

use crate::clock::timestamp_now;
use crate::error::{AppError, AppErrorView};
use crate::json::{json_parse, parse};
use crate::message::{frame_text, FrameView, OllamaChatResponse, RespMessage, RespMessageView};
use crate::text::join;
use crate::upstream::{
    decode_response, reasoning_of, usage_or_zero, ApiResponse, ApiResponseView, Delta, DeltaView,
    Usage,
};
use vstd::prelude::*;

verus! {

/// The content of a whole answer: where the upstream sent reasoning in the
/// side channel, the reasoning between `<think>` and `</think>`, each
/// followed by a line feed, and then the content; otherwise the content.
pub open spec fn whole_content(d: DeltaView) -> Seq<char> {
    match reasoning_of(d) {
        Some(r) => "<think>\n"@ + r + "</think>\n"@ + d.content,
        None => d.content,
    }
}

/// The frame of a whole answer: the last frame, with the message of the
/// first choice, the usage of the body or zero, and no elapsed time. A body
/// without a choice is refused.
pub open spec fn whole_answer(
    model: Seq<char>,
    resp: ApiResponseView,
    created_at: Seq<char>,
) -> Result<FrameView, AppErrorView> {
    if resp.choices.len() == 0 {
        Err(AppErrorView::EmptyChoices)
    } else {
        let d = resp.choices[0].delta;
        Ok(
            FrameView::last(
                model,
                Some(RespMessageView::plain(d.role, whole_content(d))),
                usage_or_zero(resp.usage),
                0,
                created_at,
            ),
        )
    }
}

/// The frame of the body of a whole answer, given as text: the text must be
/// a JSON document that reads as an answer.
pub open spec fn whole_answer_of_text(
    model: Seq<char>,
    body: Seq<char>,
    created_at: Seq<char>,
) -> Result<FrameView, AppErrorView> {
    match json_parse(body) {
        None => Err(AppErrorView::MalformedPayload),
        Some(doc) => match decode_response(doc) {
            None => Err(AppErrorView::MalformedPayload),
            Some(resp) => whole_answer(model, resp, created_at),
        },
    }
}

/// The model of a frame or a failure.
pub open spec fn frame_result_view(r: Result<OllamaChatResponse, AppError>) -> Result<
    FrameView,
    AppErrorView,
> {
    match r {
        Ok(f) => Ok(f@),
        Err(e) => Err(e@),
    }
}

/// The content of a whole answer, as [`whole_content`] says.
pub fn assemble_content(delta: &Delta) -> (r: String)
    ensures
        r@ == whole_content(delta@),
{
    match &delta.reasoning_content {
        Some(reasoning) => {
            if !reasoning.as_str().is_empty() {
                let opened = join("<think>\n", reasoning.as_str());
                let closed = join(opened.as_str(), "</think>\n");
                return join(closed.as_str(), delta.content.as_str());
            }
        },
        None => {},
    }
    delta.content.clone()
}

/// Converts a whole answer into its one frame, as [`whole_answer`] says.
pub fn convert_response(model_id: &str, resp: &ApiResponse, created_at: String) -> (r: Result<
    OllamaChatResponse,
    AppError,
>)
    ensures
        frame_result_view(r) == whole_answer(model_id@, resp@, created_at@),
{
    if resp.choices.len() == 0 {
        return Err(AppError::EmptyChoices);
    }
    let delta = &resp.choices[0].delta;
    let message = RespMessage::plain(delta.role, assemble_content(delta));
    let usage = match resp.usage {
        Some(u) => u,
        None => Usage::default(),
    };
    Ok(OllamaChatResponse::last(model_id, Some(message), &usage, 0, created_at))
}

/// Converts the body of a whole answer into the JSON text of its one frame,
/// stamped with the wall clock.
///
/// The body is refused exactly where [`whole_answer_of_text`] refuses it;
/// otherwise the result is the text of the frame that it gives for some
/// stamp.
pub fn process_non_streaming(model_id: &str, body: &str) -> (r: Result<String, AppError>)
    ensures
        match r {
            Ok(text) => exists|created_at: Seq<char>|
                (#[trigger] whole_answer_of_text(model_id@, body@, created_at)) matches Ok(f)
                    && text@ == frame_text(f),
            Err(e) => forall|created_at: Seq<char>|
                (#[trigger] whole_answer_of_text(model_id@, body@, created_at)) == Err::<
                    FrameView,
                    AppErrorView,
                >(e@),
        },
{
    let doc = match parse(body) {
        Some(doc) => doc,
        None => {
            return Err(AppError::MalformedPayload);
        },
    };
    let resp = match ApiResponse::from_json(&doc) {
        Some(resp) => resp,
        None => {
            return Err(AppError::MalformedPayload);
        },
    };
    let created_at = timestamp_now();
    let ghost stamp = created_at@;
    match convert_response(model_id, &resp, created_at) {
        Ok(frame) => {
            let text = frame.to_line();
            assert(whole_answer_of_text(model_id@, body@, stamp) matches Ok(f) && text@
                == frame_text(f));
            Ok(text)
        },
        Err(e) => Err(e),
    }
}

/// A whole answer that is accepted is one frame that is done, with the stop
/// reason, and with its three token counters taken from the usage of the
/// body, or zero where the body has none.
pub proof fn lemma_whole_answer_is_done(
    model: Seq<char>,
    resp: ApiResponseView,
    created_at: Seq<char>,
)
    requires
        resp.choices.len() > 0,
    ensures
        whole_answer(model, resp, created_at) is Ok,
        ({
            let f = whole_answer(model, resp, created_at)->Ok_0;
            let usage = usage_or_zero(resp.usage);
            &&& f.done
            &&& f.model == model
            &&& f.done_reason is Some
            &&& f.prompt_eval_count == Some(usage.prompt_tokens)
            &&& f.eval_count == Some(usage.completion_tokens)
            &&& f.total_duration == Some(usage.total_tokens)
            &&& f.message.role == resp.choices[0].delta.role
            &&& f.message.content == whole_content(resp.choices[0].delta)
        }),
{
}

} // verus!
