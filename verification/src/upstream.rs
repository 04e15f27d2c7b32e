//! What an upstream of the flat-message kind answers, and how it is read
//! from a JSON document.
//!
//! Only the members that the gateway reads are looked at: the choices with
//! their `delta` (or `message`), and the usage. Every other member of the
//! answer is passed over.

use crate::decode::{
    optional_text_member, read_optional_text, read_text_or_empty, read_u32, text_member_or_empty,
    u32_member,
};
use crate::json::{items_view, lemma_array_view, Json, JsonView};
use crate::message::{default_chat_resp_role, role_of_name, Role};
use crate::view::{opt_text, opt_view};
use vstd::prelude::*;

verus! {

/// The token counters of an upstream answer.
#[derive(Clone, Copy, Debug, PartialEq, Eq, Structural)]
pub struct Usage {
    pub completion_tokens: u32,
    pub prompt_tokens: u32,
    pub total_tokens: u32,
}

impl Usage {
    /// The usage with every counter at zero.
    pub open spec fn zero() -> Usage {
        Usage { completion_tokens: 0, prompt_tokens: 0, total_tokens: 0 }
    }
}

impl Default for Usage {
    fn default() -> (r: Usage)
        ensures
            r == Usage::zero(),
    {
        Usage { completion_tokens: 0, prompt_tokens: 0, total_tokens: 0 }
    }
}

/// One increment of an answer, or the whole message of an answer that is not
/// streamed.
#[derive(Debug, PartialEq, Eq)]
pub struct Delta {
    pub content: String,
    pub reasoning_content: Option<String>,
    pub role: Role,
}

/// The model of a [`Delta`].
pub struct DeltaView {
    pub content: Seq<char>,
    pub reasoning_content: Option<Seq<char>>,
    pub role: Role,
}

impl View for Delta {
    type V = DeltaView;

    open spec fn view(&self) -> DeltaView {
        DeltaView {
            content: self.content@,
            reasoning_content: opt_text(self.reasoning_content),
            role: self.role,
        }
    }
}

/// One choice of an answer.
#[derive(Debug, PartialEq, Eq)]
pub struct Choice {
    pub delta: Delta,
}

/// The model of a [`Choice`].
pub struct ChoiceView {
    pub delta: DeltaView,
}

impl View for Choice {
    type V = ChoiceView;

    open spec fn view(&self) -> ChoiceView {
        ChoiceView { delta: self.delta@ }
    }
}

/// An upstream answer, or one event of a streamed answer.
#[derive(Debug, PartialEq, Eq)]
pub struct ApiResponse {
    pub choices: Vec<Choice>,
    pub usage: Option<Usage>,
}

/// The model of an [`ApiResponse`].
pub struct ApiResponseView {
    pub choices: Seq<ChoiceView>,
    pub usage: Option<Usage>,
}

/// The models of a sequence of choices.
pub open spec fn choices_view(choices: Seq<Choice>) -> Seq<ChoiceView> {
    Seq::new(choices.len(), |i: int| choices[i]@)
}

impl View for ApiResponse {
    type V = ApiResponseView;

    open spec fn view(&self) -> ApiResponseView {
        ApiResponseView { choices: choices_view(self.choices@), usage: self.usage }
    }
}

/// The reasoning of a delta, where it is there and not empty.
pub open spec fn reasoning_of(d: DeltaView) -> Option<Seq<char>> {
    match d.reasoning_content {
        Some(r) => if r.len() > 0 {
            Some(r)
        } else {
            None
        },
        None => None,
    }
}

/// The usage that the last frame reports: that of the last event, or zero.
pub open spec fn usage_or_zero(usage: Option<Usage>) -> Usage {
    match usage {
        Some(u) => u,
        None => Usage::zero(),
    }
}

/// The role that a member names: `Assistant` where the member is missing, the
/// role of the name where the member is one of the four names, and otherwise
/// refused.
pub open spec fn role_member(v: JsonView, key: Seq<char>) -> Option<Role> {
    match v.member(key) {
        None => Some(Role::Assistant),
        Some(JsonView::Str(name)) => role_of_name(name),
        Some(_) => None,
    }
}

/// What is read from the document of a delta: `content` (empty where it is
/// missing or `null`), `reasoning_content` (absent where it is missing or
/// `null`) and `role` (see [`role_member`]). A document that is no object is
/// refused.
pub open spec fn decode_delta(v: JsonView) -> Option<DeltaView> {
    if !(v is Object) {
        None
    } else {
        match (
            text_member_or_empty(v, "content"@),
            optional_text_member(v, "reasoning_content"@),
            role_member(v, "role"@),
        ) {
            (Some(content), Some(reasoning_content), Some(role)) => Some(
                DeltaView { content, reasoning_content, role },
            ),
            _ => None,
        }
    }
}

/// What is read from the document of a choice: the delta under `delta` or
/// under `message`. A choice with both or with neither is refused.
pub open spec fn decode_choice(v: JsonView) -> Option<ChoiceView> {
    let body = match (v.member("delta"@), v.member("message"@)) {
        (Some(d), None) => Some(d),
        (None, Some(m)) => Some(m),
        _ => None,
    };
    match body {
        Some(b) => match decode_delta(b) {
            Some(delta) => Some(ChoiceView { delta }),
            None => None,
        },
        None => None,
    }
}

/// What is read from the document of a usage: the three counters, each a
/// non-negative integer of 32 bits.
pub open spec fn decode_usage(v: JsonView) -> Option<Usage> {
    match (
        u32_member(v, "completion_tokens"@),
        u32_member(v, "prompt_tokens"@),
        u32_member(v, "total_tokens"@),
    ) {
        (Some(completion_tokens), Some(prompt_tokens), Some(total_tokens)) => Some(
            Usage { completion_tokens, prompt_tokens, total_tokens },
        ),
        _ => None,
    }
}

/// The usage of an answer: absent where the member is missing or `null`.
pub open spec fn decode_optional_usage(v: JsonView) -> Option<Option<Usage>> {
    match v.present("usage"@) {
        None => Some(None),
        Some(u) => match decode_usage(u) {
            Some(usage) => Some(Some(usage)),
            None => None,
        },
    }
}

/// The choices of an answer, where every one of them can be read.
pub open spec fn decode_choices(items: Seq<JsonView>) -> Option<Seq<ChoiceView>> {
    if forall|i: int| 0 <= i < items.len() ==> (#[trigger] decode_choice(items[i])) is Some {
        Some(Seq::new(items.len(), |i: int| decode_choice(items[i])->Some_0))
    } else {
        None
    }
}

/// What is read from the document of an answer: the array `choices`, each
/// item a choice, and the usage.
pub open spec fn decode_response(v: JsonView) -> Option<ApiResponseView> {
    match v.member("choices"@) {
        Some(JsonView::Array(items)) => match (decode_choices(items), decode_optional_usage(v)) {
            (Some(choices), Some(usage)) => Some(ApiResponseView { choices, usage }),
            _ => None,
        },
        _ => None,
    }
}

impl Delta {
    /// Reads a delta as [`decode_delta`] says.
    pub fn from_json(v: &Json) -> (r: Option<Delta>)
        ensures
            opt_view(r) == decode_delta(v@),
    {
        match v {
            Json::Object(_) => {},
            _ => {
                return None;
            },
        }
        let content = match read_text_or_empty(v, "content") {
            Some(c) => c,
            None => {
                return None;
            },
        };
        let reasoning_content = match read_optional_text(v, "reasoning_content") {
            Some(c) => c,
            None => {
                return None;
            },
        };
        let role = match v.get("role") {
            None => default_chat_resp_role(),
            Some(Json::Str(name)) => match Role::from_name(name.as_str()) {
                Some(role) => role,
                None => {
                    return None;
                },
            },
            Some(_) => {
                return None;
            },
        };
        Some(Delta { content, reasoning_content, role })
    }
}

impl Choice {
    /// Reads a choice as [`decode_choice`] says.
    pub fn from_json(v: &Json) -> (r: Option<Choice>)
        ensures
            opt_view(r) == decode_choice(v@),
    {
        let body = match (v.get("delta"), v.get("message")) {
            (Some(d), None) => d,
            (None, Some(m)) => m,
            _ => {
                return None;
            },
        };
        match Delta::from_json(body) {
            Some(delta) => Some(Choice { delta }),
            None => None,
        }
    }
}

impl Usage {
    /// Reads a usage as [`decode_usage`] says.
    pub fn from_json(v: &Json) -> (r: Option<Usage>)
        ensures
            r == decode_usage(v@),
    {
        let completion_tokens = match read_u32(v, "completion_tokens") {
            Some(n) => n,
            None => {
                return None;
            },
        };
        let prompt_tokens = match read_u32(v, "prompt_tokens") {
            Some(n) => n,
            None => {
                return None;
            },
        };
        let total_tokens = match read_u32(v, "total_tokens") {
            Some(n) => n,
            None => {
                return None;
            },
        };
        Some(Usage { completion_tokens, prompt_tokens, total_tokens })
    }
}

impl ApiResponse {
    /// Reads an answer as [`decode_response`] says.
    pub fn from_json(v: &Json) -> (r: Option<ApiResponse>)
        ensures
            opt_view(r) == decode_response(v@),
    {
        let items = match v.get("choices") {
            Some(Json::Array(items)) => {
                proof {
                    lemma_array_view(*items);
                }
                items
            },
            _ => {
                return None;
            },
        };
        let ghost docs = items_view(items@);
        let mut choices: Vec<Choice> = Vec::new();
        let mut i: usize = 0;
        while i < items.len()
            invariant
                i <= items.len(),
                docs == items_view(items@),
                v@.member("choices"@) == Some(JsonView::Array(docs)),
                choices.len() == i,
                forall|k: int|
                    0 <= k < i ==> (#[trigger] decode_choice(docs[k])) == Some(choices[k]@),
            decreases items.len() - i,
        {
            match Choice::from_json(&items[i]) {
                Some(c) => {
                    choices.push(c);
                },
                None => {
                    assert(decode_choice(docs[i as int]) is None);
                    return None;
                },
            }
            i += 1;
        }
        let usage = match v.get_present("usage") {
            None => None,
            Some(u) => match Usage::from_json(u) {
                Some(usage) => Some(usage),
                None => {
                    return None;
                },
            },
        };
        proof {
            assert(decode_choices(docs) is Some);
            assert(choices_view(choices@) =~= decode_choices(docs)->Some_0);
        }
        Some(ApiResponse { choices, usage })
    }
}

} // verus!
