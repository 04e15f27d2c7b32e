//! What the grouped-content provider answers: candidates made of parts, and
//! the usage of the whole exchange.

use crate::clock::timestamp_now;
use crate::decode::{
    optional_text_member, read_optional_text, read_text, read_u64, text_member, u64_member,
};
use crate::error::{AppError, AppErrorView};
use crate::json::{items_view, json_parse, lemma_array_view, parse, Json, JsonView};
use crate::message::{frame_text, FrameView, OllamaChatResponse, RespMessage, RespMessageView, Role};
use crate::text::join;
use crate::upstream::Usage;
use crate::view::{opt_text, opt_view, texts_view};
use vstd::prelude::*;

verus! {

/// The token counters of an answer of the grouped-content provider.
#[derive(Clone, Copy, Debug, PartialEq, Eq, Structural)]
pub struct UsageMetadata {
    pub prompt_token_count: u64,
    pub total_token_count: u64,
}

/// One candidate of an answer: the texts of its parts, and why it ended, if
/// it did.
#[derive(Debug, PartialEq, Eq)]
pub struct Candidate {
    pub parts: Vec<String>,
    pub finish_reason: Option<String>,
}

/// The model of a [`Candidate`].
pub struct CandidateView {
    pub parts: Seq<Seq<char>>,
    pub finish_reason: Option<Seq<char>>,
}

impl View for Candidate {
    type V = CandidateView;

    open spec fn view(&self) -> CandidateView {
        CandidateView {
            parts: texts_view(self.parts@),
            finish_reason: opt_text(self.finish_reason),
        }
    }
}

/// An answer of the grouped-content provider, or one event of a streamed
/// answer.
#[derive(Debug, PartialEq, Eq)]
pub struct GeminiResponse {
    pub candidates: Vec<Candidate>,
    pub usage_metadata: UsageMetadata,
}

/// The model of a [`GeminiResponse`].
pub struct GeminiResponseView {
    pub candidates: Seq<CandidateView>,
    pub usage_metadata: UsageMetadata,
}

/// The models of a sequence of candidates.
pub open spec fn candidates_view(v: Seq<Candidate>) -> Seq<CandidateView> {
    Seq::new(v.len(), |i: int| v[i]@)
}

impl View for GeminiResponse {
    type V = GeminiResponseView;

    open spec fn view(&self) -> GeminiResponseView {
        GeminiResponseView {
            candidates: candidates_view(self.candidates@),
            usage_metadata: self.usage_metadata,
        }
    }
}

/// The texts of the parts of an array, where every part is an object with a
/// text.
pub open spec fn decode_parts(items: Seq<JsonView>) -> Option<Seq<Seq<char>>> {
    if forall|i: int| 0 <= i < items.len() ==> (#[trigger] text_member(items[i], "text"@)) is Some {
        Some(Seq::new(items.len(), |i: int| text_member(items[i], "text"@)->Some_0))
    } else {
        None
    }
}

/// What is read from the document of a candidate: the parts of its
/// `content`, and `finishReason` where it is there.
pub open spec fn decode_candidate(v: JsonView) -> Option<CandidateView> {
    match v.member("content"@) {
        Some(content) => match content.member("parts"@) {
            Some(JsonView::Array(items)) => match (
                decode_parts(items),
                optional_text_member(v, "finishReason"@),
            ) {
                (Some(parts), Some(finish_reason)) => Some(CandidateView { parts, finish_reason }),
                _ => None,
            },
            _ => None,
        },
        None => None,
    }
}

/// The candidates of an array, where every item can be read.
pub open spec fn decode_candidates(items: Seq<JsonView>) -> Option<Seq<CandidateView>> {
    if forall|i: int| 0 <= i < items.len() ==> (#[trigger] decode_candidate(items[i])) is Some {
        Some(Seq::new(items.len(), |i: int| decode_candidate(items[i])->Some_0))
    } else {
        None
    }
}

/// What is read from the document of a usage: the two counters, each a
/// non-negative integer.
pub open spec fn decode_usage_metadata(v: JsonView) -> Option<UsageMetadata> {
    match (u64_member(v, "promptTokenCount"@), u64_member(v, "totalTokenCount"@)) {
        (Some(prompt_token_count), Some(total_token_count)) => Some(
            UsageMetadata { prompt_token_count, total_token_count },
        ),
        _ => None,
    }
}

/// What is read from the document of an answer: the array `candidates` and
/// the object `usageMetadata`.
pub open spec fn decode_gemini(v: JsonView) -> Option<GeminiResponseView> {
    match (v.member("candidates"@), v.member("usageMetadata"@)) {
        (Some(JsonView::Array(items)), Some(usage)) => match (
            decode_candidates(items),
            decode_usage_metadata(usage),
        ) {
            (Some(candidates), Some(usage_metadata)) => Some(
                GeminiResponseView { candidates, usage_metadata },
            ),
            _ => None,
        },
        _ => None,
    }
}

impl Candidate {
    /// Reads a candidate as [`decode_candidate`] says.
    pub fn from_json(v: &Json) -> (r: Option<Candidate>)
        ensures
            opt_view(r) == decode_candidate(v@),
    {
        let content = match v.get("content") {
            Some(c) => c,
            None => {
                return None;
            },
        };
        let items = match content.get("parts") {
            Some(Json::Array(items)) => {
                proof {
                    lemma_array_view(*items);
                }
                items
            },
            _ => {
                return None;
            },
        };
        let ghost docs = items_view(items@);
        let mut parts: Vec<String> = Vec::new();
        let mut i: usize = 0;
        while i < items.len()
            invariant
                i <= items.len(),
                docs == items_view(items@),
                v@.member("content"@) == Some(content@),
                content@.member("parts"@) == Some(JsonView::Array(docs)),
                parts.len() == i,
                forall|k: int|
                    0 <= k < i ==> (#[trigger] text_member(docs[k], "text"@)) == Some(parts[k]@),
            decreases items.len() - i,
        {
            match read_text(&items[i], "text") {
                Some(t) => {
                    parts.push(t);
                },
                None => {
                    assert(text_member(docs[i as int], "text"@) is None);
                    return None;
                },
            }
            i += 1;
        }
        proof {
            assert(decode_parts(docs) is Some);
            assert(texts_view(parts@) =~= decode_parts(docs)->Some_0);
        }
        let finish_reason = match read_optional_text(v, "finishReason") {
            Some(f) => f,
            None => {
                return None;
            },
        };
        Some(Candidate { parts, finish_reason })
    }
}

impl UsageMetadata {
    /// Reads a usage as [`decode_usage_metadata`] says.
    pub fn from_json(v: &Json) -> (r: Option<UsageMetadata>)
        ensures
            r == decode_usage_metadata(v@),
    {
        let prompt_token_count = match read_u64(v, "promptTokenCount") {
            Some(n) => n,
            None => {
                return None;
            },
        };
        let total_token_count = match read_u64(v, "totalTokenCount") {
            Some(n) => n,
            None => {
                return None;
            },
        };
        Some(UsageMetadata { prompt_token_count, total_token_count })
    }

    /// The counters as the last frame reports them: the total in the place
    /// of the completion tokens, the prompt tokens, each reduced to 32 bits,
    /// and zero in the place of the total.
    pub open spec fn spec_reported(self) -> Usage {
        Usage {
            completion_tokens: (self.total_token_count % 0x1_0000_0000) as u32,
            prompt_tokens: (self.prompt_token_count % 0x1_0000_0000) as u32,
            total_tokens: 0,
        }
    }

    /// The counters as the last frame reports them.
    pub fn reported(&self) -> (r: Usage)
        ensures
            r == self.spec_reported(),
    {
        Usage {
            completion_tokens: (self.total_token_count % 0x1_0000_0000) as u32,
            prompt_tokens: (self.prompt_token_count % 0x1_0000_0000) as u32,
            total_tokens: 0,
        }
    }
}

impl GeminiResponse {
    /// Reads an answer as [`decode_gemini`] says.
    pub fn from_json(v: &Json) -> (r: Option<GeminiResponse>)
        ensures
            opt_view(r) == decode_gemini(v@),
    {
        let items = match v.get("candidates") {
            Some(Json::Array(items)) => {
                proof {
                    lemma_array_view(*items);
                }
                items
            },
            _ => {
                return None;
            },
        };
        let usage_metadata = match v.get("usageMetadata") {
            Some(u) => match UsageMetadata::from_json(u) {
                Some(usage) => usage,
                None => {
                    return None;
                },
            },
            None => {
                return None;
            },
        };
        let ghost docs = items_view(items@);
        let mut candidates: Vec<Candidate> = Vec::new();
        let mut i: usize = 0;
        while i < items.len()
            invariant
                i <= items.len(),
                docs == items_view(items@),
                v@.member("candidates"@) == Some(JsonView::Array(docs)),
                candidates.len() == i,
                forall|k: int|
                    0 <= k < i ==> (#[trigger] decode_candidate(docs[k])) == Some(candidates[k]@),
            decreases items.len() - i,
        {
            match Candidate::from_json(&items[i]) {
                Some(c) => {
                    candidates.push(c);
                },
                None => {
                    assert(decode_candidate(docs[i as int]) is None);
                    return None;
                },
            }
            i += 1;
        }
        proof {
            assert(decode_candidates(docs) is Some);
            assert(candidates_view(candidates@) =~= decode_candidates(docs)->Some_0);
        }
        Some(GeminiResponse { candidates, usage_metadata })
    }
}

/// The line of the last frame of a streamed answer, stamped with the wall
/// clock: done, with the counters of the usage and the elapsed milliseconds.
pub fn gen_last_ollama_message(model_id: &str, usage: UsageMetadata, done_dur: u32) -> (r: String)
    ensures
        exists|created_at: Seq<char>|
            r@ == frame_text(
                #[trigger] FrameView::last(
                    model_id@,
                    None,
                    usage.spec_reported(),
                    done_dur,
                    created_at,
                ),
            ),
{
    let reported = usage.reported();
    let frame = OllamaChatResponse::last(model_id, None, &reported, done_dur, timestamp_now());
    frame.to_line()
}

/// The texts of a sequence of parts, one after the other.
pub open spec fn concat(parts: Seq<Seq<char>>) -> Seq<char>
    decreases parts.len(),
{
    if parts.len() == 0 {
        Seq::empty()
    } else {
        concat(parts.drop_last()) + parts.last()
    }
}

/// The frame of a whole answer: the last frame, with the texts of all parts
/// of the first candidate in the name of the assistant, the counters of the
/// usage, and no elapsed time. A body without a candidate is refused.
pub open spec fn whole_answer(
    model: Seq<char>,
    resp: GeminiResponseView,
    created_at: Seq<char>,
) -> Result<FrameView, AppErrorView> {
    if resp.candidates.len() == 0 {
        Err(AppErrorView::EmptyChoices)
    } else {
        Ok(
            FrameView::last(
                model,
                Some(RespMessageView::plain(Role::Assistant, concat(resp.candidates[0].parts))),
                resp.usage_metadata.spec_reported(),
                0,
                created_at,
            ),
        )
    }
}

/// The frame of the body of a whole answer, given as text: the text must be
/// a JSON document that reads as an answer.
pub open spec fn whole_answer_of_text(
    model: Seq<char>,
    body: Seq<char>,
    created_at: Seq<char>,
) -> Result<FrameView, AppErrorView> {
    match json_parse(body) {
        None => Err(AppErrorView::MalformedPayload),
        Some(doc) => match decode_gemini(doc) {
            None => Err(AppErrorView::MalformedPayload),
            Some(resp) => whole_answer(model, resp, created_at),
        },
    }
}

/// The texts of the parts, one after the other.
pub fn concat_parts(parts: &Vec<String>) -> (r: String)
    ensures
        r@ == concat(texts_view(parts@)),
{
    let ghost all = texts_view(parts@);
    let mut out = String::new();
    let mut i: usize = 0;
    assert(all.take(0) =~= Seq::empty());
    while i < parts.len()
        invariant
            i <= parts.len(),
            all == texts_view(parts@),
            out@ == concat(all.take(i as int)),
        decreases parts.len() - i,
    {
        proof {
            assert(all.take(i + 1).drop_last() =~= all.take(i as int));
            assert(all.take(i + 1).last() == parts[i as int]@);
        }
        out = join(out.as_str(), parts[i].as_str());
        i += 1;
    }
    assert(all.take(i as int) =~= all);
    out
}

/// Converts a whole answer into its one frame, as [`whole_answer`] says.
pub fn convert_response(model_id: &str, resp: &GeminiResponse, created_at: String) -> (r: Result<
    OllamaChatResponse,
    AppError,
>)
    ensures
        crate::convert::frame_result_view(r) == whole_answer(model_id@, resp@, created_at@),
{
    if resp.candidates.len() == 0 {
        return Err(AppError::EmptyChoices);
    }
    let content = concat_parts(&resp.candidates[0].parts);
    let message = RespMessage::plain(Role::Assistant, content);
    let usage = resp.usage_metadata.reported();
    Ok(OllamaChatResponse::last(model_id, Some(message), &usage, 0, created_at))
}

/// Converts the body of a whole answer into the JSON text of its one frame,
/// stamped with the wall clock.
///
/// The body is refused exactly where [`whole_answer_of_text`] refuses it;
/// otherwise the result is the text of the frame that it gives for some
/// stamp.
pub fn process_non_streaming(model_id: &str, body: &str) -> (r: Result<String, AppError>)
    ensures
        match r {
            Ok(text) => exists|created_at: Seq<char>|
                (#[trigger] whole_answer_of_text(model_id@, body@, created_at)) matches Ok(f)
                    && text@ == frame_text(f),
            Err(e) => forall|created_at: Seq<char>|
                (#[trigger] whole_answer_of_text(model_id@, body@, created_at)) == Err::<
                    FrameView,
                    AppErrorView,
                >(e@),
        },
{
    let doc = match parse(body) {
        Some(doc) => doc,
        None => {
            return Err(AppError::MalformedPayload);
        },
    };
    let resp = match GeminiResponse::from_json(&doc) {
        Some(resp) => resp,
        None => {
            return Err(AppError::MalformedPayload);
        },
    };
    let created_at = timestamp_now();
    let ghost stamp = created_at@;
    match convert_response(model_id, &resp, created_at) {
        Ok(frame) => {
            let text = frame.to_line();
            assert(whole_answer_of_text(model_id@, body@, stamp) matches Ok(f) && text@
                == frame_text(f));
            Ok(text)
        },
        Err(e) => Err(e),
    }
}

/// A whole answer that is accepted is one frame that is done, with the stop
/// reason, with the prompt tokens and the total tokens of the body as its
/// counters, and with the assistant as the speaker.
pub proof fn lemma_whole_answer_is_done(
    model: Seq<char>,
    resp: GeminiResponseView,
    created_at: Seq<char>,
)
    requires
        resp.candidates.len() > 0,
    ensures
        whole_answer(model, resp, created_at) is Ok,
        ({
            let f = whole_answer(model, resp, created_at)->Ok_0;
            let usage = resp.usage_metadata.spec_reported();
            &&& f.done
            &&& f.model == model
            &&& f.done_reason is Some
            &&& f.prompt_eval_count == Some(usage.prompt_tokens)
            &&& f.eval_count == Some(usage.completion_tokens)
            &&& f.message.role == Role::Assistant
            &&& f.message.content == concat(resp.candidates[0].parts)
        }),
{
}

} // verus!
