//! The canonical chat request and how it is read from a JSON document.

use crate::decode::{
    bool_member_or, read_bool_or, read_text, read_text_or, text_member, text_member_or,
};
use crate::error::{AppError, AppErrorView};
use crate::json::{
    copy_members, items_view, json_parse, lemma_array_view, lemma_object_view, members_view,
    parse, Json, JsonView,
};
use crate::message::{role_of_name, Role};
use crate::tool::{
    decode_tool, decode_tool_call, tool_calls_view, tools_view, Tool, ToolCall, ToolCallView,
    ToolView,
};
use crate::view::{opt_texts, opt_view, texts_view};
use vstd::prelude::*;

verus! {

/// One message of a chat request.
#[derive(Debug, PartialEq, Eq)]
pub struct ReqMessage {
    pub role: Role,
    pub content: String,
    pub images: Option<Vec<String>>,
    pub tool_calls: Option<Vec<ToolCall>>,
}

/// The model of a [`ReqMessage`].
pub struct ReqMessageView {
    pub role: Role,
    pub content: Seq<char>,
    pub images: Option<Seq<Seq<char>>>,
    pub tool_calls: Option<Seq<ToolCallView>>,
}

/// The model of an optional sequence of tool calls.
pub open spec fn opt_tool_calls(v: Option<Vec<ToolCall>>) -> Option<Seq<ToolCallView>> {
    match v {
        Some(v) => Some(tool_calls_view(v@)),
        None => None,
    }
}

impl View for ReqMessage {
    type V = ReqMessageView;

    open spec fn view(&self) -> ReqMessageView {
        ReqMessageView {
            role: self.role,
            content: self.content@,
            images: opt_texts(self.images),
            tool_calls: opt_tool_calls(self.tool_calls),
        }
    }
}

/// A chat request in the canonical protocol.
#[derive(Debug, PartialEq, Eq)]
pub struct OllamaChatRequest {
    /// The id of the model to call.
    pub model: String,
    pub messages: Vec<ReqMessage>,
    pub tools: Vec<Tool>,
    /// The format that the client asks for. The gateway does not act on it.
    pub format: Option<Vec<(String, Json)>>,
    /// Tuning parameters for the provider, in the order in which they came.
    pub options: Option<Vec<(String, Json)>>,
    pub stream: bool,
    pub keep_alive: String,
}

/// The model of an [`OllamaChatRequest`].
pub struct ChatRequestView {
    pub model: Seq<char>,
    pub messages: Seq<ReqMessageView>,
    pub tools: Seq<ToolView>,
    pub format: Option<Seq<(Seq<char>, JsonView)>>,
    pub options: Option<Seq<(Seq<char>, JsonView)>>,
    pub stream: bool,
    pub keep_alive: Seq<char>,
}

/// The models of a sequence of messages.
pub open spec fn messages_view(v: Seq<ReqMessage>) -> Seq<ReqMessageView> {
    Seq::new(v.len(), |i: int| v[i]@)
}

/// The model of the optional members of an object.
pub open spec fn opt_members(v: Option<Vec<(String, Json)>>) -> Option<
    Seq<(Seq<char>, JsonView)>,
> {
    match v {
        Some(v) => Some(members_view(v@)),
        None => None,
    }
}

impl View for OllamaChatRequest {
    type V = ChatRequestView;

    open spec fn view(&self) -> ChatRequestView {
        ChatRequestView {
            model: self.model@,
            messages: messages_view(self.messages@),
            tools: tools_view(self.tools@),
            format: opt_members(self.format),
            options: opt_members(self.options),
            stream: self.stream,
            keep_alive: self.keep_alive@,
        }
    }
}

/// Whether a request is streamed where it does not say.
pub fn default_stream() -> (r: bool)
    ensures
        r,
{
    true
}

/// How long the model is kept loaded where the request does not say.
pub fn default_keep_alive() -> (r: String)
    ensures
        r@ == "5m"@,
{
    "5m".to_owned()
}

/// The texts of an array, where every item is a text.
pub open spec fn decode_texts(items: Seq<JsonView>) -> Option<Seq<Seq<char>>> {
    if forall|i: int| 0 <= i < items.len() ==> (#[trigger] items[i]) is Str {
        Some(Seq::new(items.len(), |i: int| items[i]->Str_0))
    } else {
        None
    }
}

/// The images of a message: absent where the member is missing or `null`,
/// and otherwise an array of texts.
pub open spec fn decode_images(v: JsonView) -> Option<Option<Seq<Seq<char>>>> {
    match v.present("images"@) {
        None => Some(None),
        Some(JsonView::Array(items)) => match decode_texts(items) {
            Some(texts) => Some(Some(texts)),
            None => None,
        },
        Some(_) => None,
    }
}

/// The role of a request message: the member must be one of the four names.
pub open spec fn decode_role(v: JsonView) -> Option<Role> {
    match v.member("role"@) {
        Some(JsonView::Str(name)) => role_of_name(name),
        _ => None,
    }
}

/// The tool calls of an array, where every item can be read.
pub open spec fn decode_tool_call_items(items: Seq<JsonView>) -> Option<Seq<ToolCallView>> {
    if forall|i: int| 0 <= i < items.len() ==> (#[trigger] decode_tool_call(items[i])) is Some {
        Some(Seq::new(items.len(), |i: int| decode_tool_call(items[i])->Some_0))
    } else {
        None
    }
}

/// The tool calls of a message: absent where the member is missing or
/// `null`, and otherwise an array of tool calls.
pub open spec fn decode_tool_calls(v: JsonView) -> Option<Option<Seq<ToolCallView>>> {
    match v.present("tool_calls"@) {
        None => Some(None),
        Some(JsonView::Array(items)) => match decode_tool_call_items(items) {
            Some(calls) => Some(Some(calls)),
            None => None,
        },
        Some(_) => None,
    }
}

/// What is read from the document of a message: `role`, one of the four
/// names; `content`, a text; `images`, an array of texts where it is there;
/// and `tool_calls`, an array of tool calls where it is there.
pub open spec fn decode_message(v: JsonView) -> Option<ReqMessageView> {
    match (decode_role(v), text_member(v, "content"@), decode_images(v), decode_tool_calls(v)) {
        (Some(role), Some(content), Some(images), Some(tool_calls)) => Some(
            ReqMessageView { role, content, images, tool_calls },
        ),
        _ => None,
    }
}

/// The messages of an array, where every item can be read.
pub open spec fn decode_messages(items: Seq<JsonView>) -> Option<Seq<ReqMessageView>> {
    if forall|i: int| 0 <= i < items.len() ==> (#[trigger] decode_message(items[i])) is Some {
        Some(Seq::new(items.len(), |i: int| decode_message(items[i])->Some_0))
    } else {
        None
    }
}

/// The tools of an array, where every item can be read.
pub open spec fn decode_tool_items(items: Seq<JsonView>) -> Option<Seq<ToolView>> {
    if forall|i: int| 0 <= i < items.len() ==> (#[trigger] decode_tool(items[i])) is Some {
        Some(Seq::new(items.len(), |i: int| decode_tool(items[i])->Some_0))
    } else {
        None
    }
}

/// The tools of a request: none where the member is missing, and otherwise
/// an array of tools.
pub open spec fn decode_tools(v: JsonView) -> Option<Seq<ToolView>> {
    match v.member("tools"@) {
        None => Some(Seq::empty()),
        Some(JsonView::Array(items)) => decode_tool_items(items),
        Some(_) => None,
    }
}

/// An optional object of a request: absent where the member is missing or
/// `null`, and otherwise the members of an object.
pub open spec fn decode_object(v: JsonView, key: Seq<char>) -> Option<
    Option<Seq<(Seq<char>, JsonView)>>,
> {
    match v.present(key) {
        None => Some(None),
        Some(JsonView::Object(members)) => Some(Some(members)),
        Some(_) => None,
    }
}

/// What is read from the document of a chat request: `model`, a text;
/// `messages`, an array of messages; `tools`; `format` and `options`, each
/// an object where it is there; `stream`, a boolean that stands for `true`
/// where it is missing; and `keep_alive`, a text that stands for `5m` where
/// it is missing.
pub open spec fn decode_request(v: JsonView) -> Option<ChatRequestView> {
    match v.member("messages"@) {
        Some(JsonView::Array(items)) => match (
            text_member(v, "model"@),
            decode_messages(items),
            decode_tools(v),
            decode_object(v, "format"@),
            decode_object(v, "options"@),
            bool_member_or(v, "stream"@, true),
            text_member_or(v, "keep_alive"@, "5m"@),
        ) {
            (
                Some(model),
                Some(messages),
                Some(tools),
                Some(format),
                Some(options),
                Some(stream),
                Some(keep_alive),
            ) => Some(
                ChatRequestView { model, messages, tools, format, options, stream, keep_alive },
            ),
            _ => None,
        },
        _ => None,
    }
}

/// The model of the optional members of an object that may have been
/// refused.
pub open spec fn opt_opt_members(v: Option<Option<Vec<(String, Json)>>>) -> Option<
    Option<Seq<(Seq<char>, JsonView)>>,
> {
    match v {
        Some(inner) => Some(opt_members(inner)),
        None => None,
    }
}

/// Reads an optional object as [`decode_object`] says.
fn read_object(v: &Json, key: &str) -> (r: Option<Option<Vec<(String, Json)>>>)
    ensures
        opt_opt_members(r) == decode_object(v@, key@),
{
    match v.get_present(key) {
        None => Some(None),
        Some(Json::Object(members)) => {
            proof {
                lemma_object_view(*members);
            }
            Some(Some(copy_members(members)))
        },
        Some(_) => None,
    }
}

/// The model of an optional sequence of texts that may have been refused.
pub open spec fn opt_opt_texts(v: Option<Option<Vec<String>>>) -> Option<Option<Seq<Seq<char>>>> {
    match v {
        Some(inner) => Some(opt_texts(inner)),
        None => None,
    }
}

/// Reads the images of a message as [`decode_images`] says.
fn read_images(v: &Json) -> (r: Option<Option<Vec<String>>>)
    ensures
        opt_opt_texts(r) == decode_images(v@),
{
    match v.get_present("images") {
        None => Some(None),
        Some(Json::Array(items)) => {
            proof {
                lemma_array_view(*items);
            }
            let ghost docs = items_view(items@);
            let mut out: Vec<String> = Vec::new();
            let mut i: usize = 0;
            while i < items.len()
                invariant
                    i <= items.len(),
                    docs == items_view(items@),
                    v@.present("images"@) == Some(JsonView::Array(docs)),
                    out.len() == i,
                    forall|k: int|
                        0 <= k < i ==> (#[trigger] docs[k]) is Str && docs[k]->Str_0 == out[k]@,
                decreases items.len() - i,
            {
                match &items[i] {
                    Json::Str(s) => {
                        out.push(s.clone());
                    },
                    _ => {
                        assert(!(docs[i as int] is Str));
                        return None;
                    },
                }
                i += 1;
            }
            proof {
                assert(decode_texts(docs) is Some);
                assert(texts_view(out@) =~= decode_texts(docs)->Some_0);
            }
            Some(Some(out))
        },
        Some(_) => None,
    }
}

/// The model of an optional sequence of tool calls that may have been
/// refused.
pub open spec fn opt_opt_tool_calls(v: Option<Option<Vec<ToolCall>>>) -> Option<
    Option<Seq<ToolCallView>>,
> {
    match v {
        Some(inner) => Some(opt_tool_calls(inner)),
        None => None,
    }
}

/// Reads the tool calls of a message as [`decode_tool_calls`] says.
fn read_tool_calls(v: &Json) -> (r: Option<Option<Vec<ToolCall>>>)
    ensures
        opt_opt_tool_calls(r) == decode_tool_calls(v@),
{
    match v.get_present("tool_calls") {
        None => Some(None),
        Some(Json::Array(items)) => {
            proof {
                lemma_array_view(*items);
            }
            let ghost docs = items_view(items@);
            let mut out: Vec<ToolCall> = Vec::new();
            let mut i: usize = 0;
            while i < items.len()
                invariant
                    i <= items.len(),
                    docs == items_view(items@),
                    v@.present("tool_calls"@) == Some(JsonView::Array(docs)),
                    out.len() == i,
                    forall|k: int|
                        0 <= k < i ==> (#[trigger] decode_tool_call(docs[k])) == Some(out[k]@),
                decreases items.len() - i,
            {
                match ToolCall::from_json(&items[i]) {
                    Some(call) => {
                        out.push(call);
                    },
                    None => {
                        assert(decode_tool_call(docs[i as int]) is None);
                        return None;
                    },
                }
                i += 1;
            }
            proof {
                assert(decode_tool_call_items(docs) is Some);
                assert(tool_calls_view(out@) =~= decode_tool_call_items(docs)->Some_0);
            }
            Some(Some(out))
        },
        Some(_) => None,
    }
}

/// The model of a sequence of tools that may have been refused.
pub open spec fn opt_tools(v: Option<Vec<Tool>>) -> Option<Seq<ToolView>> {
    match v {
        Some(v) => Some(tools_view(v@)),
        None => None,
    }
}

/// Reads the tools of a request as [`decode_tools`] says.
fn read_tools(v: &Json) -> (r: Option<Vec<Tool>>)
    ensures
        opt_tools(r) == decode_tools(v@),
{
    match v.get("tools") {
        None => {
            let out: Vec<Tool> = Vec::new();
            assert(tools_view(out@) =~= Seq::empty());
            Some(out)
        },
        Some(Json::Array(items)) => {
            proof {
                lemma_array_view(*items);
            }
            let ghost docs = items_view(items@);
            let mut out: Vec<Tool> = Vec::new();
            let mut i: usize = 0;
            while i < items.len()
                invariant
                    i <= items.len(),
                    docs == items_view(items@),
                    v@.member("tools"@) == Some(JsonView::Array(docs)),
                    out.len() == i,
                    forall|k: int|
                        0 <= k < i ==> (#[trigger] decode_tool(docs[k])) == Some(out[k]@),
                decreases items.len() - i,
            {
                match Tool::from_json(&items[i]) {
                    Some(tool) => {
                        out.push(tool);
                    },
                    None => {
                        assert(decode_tool(docs[i as int]) is None);
                        return None;
                    },
                }
                i += 1;
            }
            proof {
                assert(decode_tool_items(docs) is Some);
                assert(tools_view(out@) =~= decode_tool_items(docs)->Some_0);
            }
            Some(out)
        },
        Some(_) => None,
    }
}

impl ReqMessage {
    /// Reads a message as [`decode_message`] says.
    pub fn from_json(v: &Json) -> (r: Option<ReqMessage>)
        ensures
            opt_view(r) == decode_message(v@),
    {
        let role = match v.get("role") {
            Some(Json::Str(name)) => match Role::from_name(name.as_str()) {
                Some(role) => role,
                None => {
                    return None;
                },
            },
            _ => {
                return None;
            },
        };
        let content = match read_text(v, "content") {
            Some(c) => c,
            None => {
                return None;
            },
        };
        let images = match read_images(v) {
            Some(images) => images,
            None => {
                return None;
            },
        };
        let tool_calls = match read_tool_calls(v) {
            Some(calls) => calls,
            None => {
                return None;
            },
        };
        Some(ReqMessage { role, content, images, tool_calls })
    }
}

impl OllamaChatRequest {
    /// Reads a chat request as [`decode_request`] says.
    pub fn from_json(v: &Json) -> (r: Option<OllamaChatRequest>)
        ensures
            opt_view(r) == decode_request(v@),
    {
        let items = match v.get("messages") {
            Some(Json::Array(items)) => {
                proof {
                    lemma_array_view(*items);
                }
                items
            },
            _ => {
                return None;
            },
        };
        let model = match read_text(v, "model") {
            Some(m) => m,
            None => {
                return None;
            },
        };
        let ghost docs = items_view(items@);
        let mut messages: Vec<ReqMessage> = Vec::new();
        let mut i: usize = 0;
        while i < items.len()
            invariant
                i <= items.len(),
                docs == items_view(items@),
                v@.member("messages"@) == Some(JsonView::Array(docs)),
                messages.len() == i,
                forall|k: int|
                    0 <= k < i ==> (#[trigger] decode_message(docs[k])) == Some(messages[k]@),
            decreases items.len() - i,
        {
            match ReqMessage::from_json(&items[i]) {
                Some(m) => {
                    messages.push(m);
                },
                None => {
                    assert(decode_message(docs[i as int]) is None);
                    return None;
                },
            }
            i += 1;
        }
        proof {
            assert(decode_messages(docs) is Some);
            assert(messages_view(messages@) =~= decode_messages(docs)->Some_0);
        }
        let tools = match read_tools(v) {
            Some(tools) => tools,
            None => {
                return None;
            },
        };
        let format = match read_object(v, "format") {
            Some(f) => f,
            None => {
                return None;
            },
        };
        let options = match read_object(v, "options") {
            Some(o) => o,
            None => {
                return None;
            },
        };
        let stream = match read_bool_or(v, "stream", default_stream()) {
            Some(s) => s,
            None => {
                return None;
            },
        };
        let keep_alive = match read_text_or(v, "keep_alive", "5m") {
            Some(k) => k,
            None => {
                return None;
            },
        };
        Some(OllamaChatRequest { model, messages, tools, format, options, stream, keep_alive })
    }
}

/// The chat request that a body holds: the body must be a JSON document
/// that reads as a chat request.
pub open spec fn request_of_text(body: Seq<char>) -> Result<ChatRequestView, AppErrorView> {
    match json_parse(body) {
        Some(doc) => match decode_request(doc) {
            Some(req) => Ok(req),
            None => Err(AppErrorView::InvalidRequest),
        },
        None => Err(AppErrorView::InvalidRequest),
    }
}

/// The model of a chat request or a failure.
pub open spec fn request_result_view(r: Result<OllamaChatRequest, AppError>) -> Result<
    ChatRequestView,
    AppErrorView,
> {
    match r {
        Ok(req) => Ok(req@),
        Err(e) => Err(e@),
    }
}

/// Reads the body of a chat request, as [`request_of_text`] says.
pub fn parse_request(body: &str) -> (r: Result<OllamaChatRequest, AppError>)
    ensures
        request_result_view(r) == request_of_text(body@),
{
    let doc = match parse(body) {
        Some(doc) => doc,
        None => {
            return Err(AppError::InvalidRequest);
        },
    };
    match OllamaChatRequest::from_json(&doc) {
        Some(req) => Ok(req),
        None => Err(AppError::InvalidRequest),
    }
}

} // verus!
