//! Tool definitions and tool calls, as the canonical protocol carries them.
//!
//! The parameters of a tool and the arguments of a call are free-form JSON:
//! they are carried as documents.

use crate::decode::{optional_text_member, read_optional_text, read_text, text_member};
use crate::json::{
    copy_json, lemma_object_view, members_view, push_member, Json, JsonView,
};
use crate::view::{opt_text, opt_view};
use vstd::prelude::*;

verus! {

/// The function that a tool offers.
#[derive(Debug, PartialEq, Eq)]
pub struct ToolFunction {
    pub name: String,
    pub description: Option<String>,
    pub parameters: Json,
}

/// The model of a [`ToolFunction`].
pub struct ToolFunctionView {
    pub name: Seq<char>,
    pub description: Option<Seq<char>>,
    pub parameters: JsonView,
}

impl View for ToolFunction {
    type V = ToolFunctionView;

    open spec fn view(&self) -> ToolFunctionView {
        ToolFunctionView {
            name: self.name@,
            description: opt_text(self.description),
            parameters: self.parameters@,
        }
    }
}

/// A tool that the model may call.
#[derive(Debug, PartialEq, Eq)]
pub struct Tool {
    pub type_: String,
    pub function: ToolFunction,
}

/// The model of a [`Tool`].
pub struct ToolView {
    pub type_: Seq<char>,
    pub function: ToolFunctionView,
}

impl View for Tool {
    type V = ToolView;

    open spec fn view(&self) -> ToolView {
        ToolView { type_: self.type_@, function: self.function@ }
    }
}

/// The function that a call names, with its arguments.
#[derive(Debug, PartialEq, Eq)]
pub struct FunctionCall {
    pub name: String,
    pub arguments: Json,
}

/// The model of a [`FunctionCall`].
pub struct FunctionCallView {
    pub name: Seq<char>,
    pub arguments: JsonView,
}

impl View for FunctionCall {
    type V = FunctionCallView;

    open spec fn view(&self) -> FunctionCallView {
        FunctionCallView { name: self.name@, arguments: self.arguments@ }
    }
}

/// A call of a tool.
#[derive(Debug, PartialEq, Eq)]
pub struct ToolCall {
    pub id: String,
    pub type_: String,
    pub function: FunctionCall,
}

/// The model of a [`ToolCall`].
pub struct ToolCallView {
    pub id: Seq<char>,
    pub type_: Seq<char>,
    pub function: FunctionCallView,
}

impl View for ToolCall {
    type V = ToolCallView;

    open spec fn view(&self) -> ToolCallView {
        ToolCallView { id: self.id@, type_: self.type_@, function: self.function@ }
    }
}

/// The models of a sequence of tools.
pub open spec fn tools_view(v: Seq<Tool>) -> Seq<ToolView> {
    Seq::new(v.len(), |i: int| v[i]@)
}

/// The models of a sequence of tool calls.
pub open spec fn tool_calls_view(v: Seq<ToolCall>) -> Seq<ToolCallView> {
    Seq::new(v.len(), |i: int| v[i]@)
}

/// What is read from the document of the function of a tool: `name`, a
/// text; `description`, a text where it is there; and `parameters`, any
/// document, which must be there.
pub open spec fn decode_tool_function(v: JsonView) -> Option<ToolFunctionView> {
    match (text_member(v, "name"@), optional_text_member(v, "description"@), v.member(
        "parameters"@,
    )) {
        (Some(name), Some(description), Some(parameters)) => Some(
            ToolFunctionView { name, description, parameters },
        ),
        _ => None,
    }
}

/// What is read from the document of a tool: `type`, a text, and
/// `function`.
pub open spec fn decode_tool(v: JsonView) -> Option<ToolView> {
    match (text_member(v, "type"@), v.member("function"@)) {
        (Some(type_), Some(f)) => match decode_tool_function(f) {
            Some(function) => Some(ToolView { type_, function }),
            None => None,
        },
        _ => None,
    }
}

/// What is read from the document of the function of a call: `name`, a
/// text, and `arguments`, any document, which must be there.
pub open spec fn decode_function_call(v: JsonView) -> Option<FunctionCallView> {
    match (text_member(v, "name"@), v.member("arguments"@)) {
        (Some(name), Some(arguments)) => Some(FunctionCallView { name, arguments }),
        _ => None,
    }
}

/// What is read from the document of a tool call: `id` and `type`, both
/// texts, and `function`.
pub open spec fn decode_tool_call(v: JsonView) -> Option<ToolCallView> {
    match (text_member(v, "id"@), text_member(v, "type"@), v.member("function"@)) {
        (Some(id), Some(type_), Some(f)) => match decode_function_call(f) {
            Some(function) => Some(ToolCallView { id, type_, function }),
            None => None,
        },
        _ => None,
    }
}

/// The JSON object of the function of a tool: `name`, `description` where
/// there is one, and `parameters`.
pub open spec fn tool_function_json(f: ToolFunctionView) -> JsonView {
    let base = seq![("name"@, JsonView::Str(f.name))];
    let described = match f.description {
        Some(d) => base.push(("description"@, JsonView::Str(d))),
        None => base,
    };
    JsonView::Object(described.push(("parameters"@, f.parameters)))
}

/// The JSON object of a tool: `type` and `function`.
pub open spec fn tool_json(t: ToolView) -> JsonView {
    JsonView::Object(
        seq![("type"@, JsonView::Str(t.type_)), ("function"@, tool_function_json(t.function))],
    )
}

/// The JSON object of the function of a call: `name` and `arguments`.
pub open spec fn function_call_json(f: FunctionCallView) -> JsonView {
    JsonView::Object(seq![("name"@, JsonView::Str(f.name)), ("arguments"@, f.arguments)])
}

/// The JSON object of a tool call: `id`, `type` and `function`.
pub open spec fn tool_call_json(c: ToolCallView) -> JsonView {
    JsonView::Object(
        seq![
            ("id"@, JsonView::Str(c.id)),
            ("type"@, JsonView::Str(c.type_)),
            ("function"@, function_call_json(c.function)),
        ],
    )
}

impl ToolFunction {
    /// Reads the function of a tool as [`decode_tool_function`] says.
    pub fn from_json(v: &Json) -> (r: Option<ToolFunction>)
        ensures
            opt_view(r) == decode_tool_function(v@),
    {
        let name = match read_text(v, "name") {
            Some(n) => n,
            None => {
                return None;
            },
        };
        let description = match read_optional_text(v, "description") {
            Some(d) => d,
            None => {
                return None;
            },
        };
        let parameters = match v.get("parameters") {
            Some(p) => copy_json(p),
            None => {
                return None;
            },
        };
        Some(ToolFunction { name, description, parameters })
    }

    /// The JSON object of the function.
    pub fn to_json(&self) -> (r: Json)
        ensures
            r@ == tool_function_json(self@),
    {
        let mut members: Vec<(String, Json)> = Vec::new();
        assert(members_view(members@) =~= Seq::empty());
        push_member(&mut members, "name", Json::Str(self.name.clone()));
        match &self.description {
            Some(d) => push_member(&mut members, "description", Json::Str(d.clone())),
            None => {},
        }
        push_member(&mut members, "parameters", copy_json(&self.parameters));
        proof {
            lemma_object_view(members);
            assert(members_view(members@) =~= tool_function_json(self@)->Object_0);
        }
        Json::Object(members)
    }
}

impl Tool {
    /// Reads a tool as [`decode_tool`] says.
    pub fn from_json(v: &Json) -> (r: Option<Tool>)
        ensures
            opt_view(r) == decode_tool(v@),
    {
        let type_ = match read_text(v, "type") {
            Some(t) => t,
            None => {
                return None;
            },
        };
        match v.get("function") {
            Some(f) => match ToolFunction::from_json(f) {
                Some(function) => Some(Tool { type_, function }),
                None => None,
            },
            None => None,
        }
    }

    /// The JSON object of the tool.
    pub fn to_json(&self) -> (r: Json)
        ensures
            r@ == tool_json(self@),
    {
        let mut members: Vec<(String, Json)> = Vec::new();
        assert(members_view(members@) =~= Seq::empty());
        push_member(&mut members, "type", Json::Str(self.type_.clone()));
        push_member(&mut members, "function", self.function.to_json());
        proof {
            lemma_object_view(members);
            assert(members_view(members@) =~= tool_json(self@)->Object_0);
        }
        Json::Object(members)
    }
}

impl FunctionCall {
    /// Reads the function of a call as [`decode_function_call`] says.
    pub fn from_json(v: &Json) -> (r: Option<FunctionCall>)
        ensures
            opt_view(r) == decode_function_call(v@),
    {
        let name = match read_text(v, "name") {
            Some(n) => n,
            None => {
                return None;
            },
        };
        match v.get("arguments") {
            Some(a) => Some(FunctionCall { name, arguments: copy_json(a) }),
            None => None,
        }
    }

    /// The JSON object of the function of a call.
    pub fn to_json(&self) -> (r: Json)
        ensures
            r@ == function_call_json(self@),
    {
        let mut members: Vec<(String, Json)> = Vec::new();
        assert(members_view(members@) =~= Seq::empty());
        push_member(&mut members, "name", Json::Str(self.name.clone()));
        push_member(&mut members, "arguments", copy_json(&self.arguments));
        proof {
            lemma_object_view(members);
            assert(members_view(members@) =~= function_call_json(self@)->Object_0);
        }
        Json::Object(members)
    }
}

impl ToolCall {
    /// Reads a tool call as [`decode_tool_call`] says.
    pub fn from_json(v: &Json) -> (r: Option<ToolCall>)
        ensures
            opt_view(r) == decode_tool_call(v@),
    {
        let id = match read_text(v, "id") {
            Some(i) => i,
            None => {
                return None;
            },
        };
        let type_ = match read_text(v, "type") {
            Some(t) => t,
            None => {
                return None;
            },
        };
        match v.get("function") {
            Some(f) => match FunctionCall::from_json(f) {
                Some(function) => Some(ToolCall { id, type_, function }),
                None => None,
            },
            None => None,
        }
    }

    /// The JSON object of the tool call.
    pub fn to_json(&self) -> (r: Json)
        ensures
            r@ == tool_call_json(self@),
    {
        let mut members: Vec<(String, Json)> = Vec::new();
        assert(members_view(members@) =~= Seq::empty());
        push_member(&mut members, "id", Json::Str(self.id.clone()));
        push_member(&mut members, "type", Json::Str(self.type_.clone()));
        push_member(&mut members, "function", self.function.to_json());
        proof {
            lemma_object_view(members);
            assert(members_view(members@) =~= tool_call_json(self@)->Object_0);
        }
        Json::Object(members)
    }
}

} // verus!
