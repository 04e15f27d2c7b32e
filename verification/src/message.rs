//! The canonical response frame and how it is written as JSON.
//!
//! A frame is one self-contained JSON object: a content delta, a synthetic
//! think marker, or the final summary with `done` set. The usage and duration
//! counters are written only where they are present.

use crate::clock::timestamp_now;
use crate::json::{
    json_text, lemma_lookup_push, lemma_object_view, lookup, members_view, push_member, to_text,
    Json, JsonView, Number, NumberView,
};
use crate::text::str_eq;
use crate::upstream::Usage;
use crate::view::opt_text;
use vstd::prelude::*;

verus! {

/// Who speaks in a message.
#[derive(Clone, Copy, Debug, PartialEq, Eq, Structural)]
pub enum Role {
    System,
    User,
    Assistant,
    Tool,
}

impl Default for Role {
    fn default() -> (r: Role)
        ensures
            r == Role::User,
    {
        Role::User
    }
}

/// The wire name of a role.
pub open spec fn role_name(role: Role) -> Seq<char> {
    match role {
        Role::System => "system"@,
        Role::User => "user"@,
        Role::Assistant => "assistant"@,
        Role::Tool => "tool"@,
    }
}

/// The role that a wire name stands for, if it is one of the four names.
pub open spec fn role_of_name(name: Seq<char>) -> Option<Role> {
    if name == "system"@ {
        Some(Role::System)
    } else if name == "user"@ {
        Some(Role::User)
    } else if name == "assistant"@ {
        Some(Role::Assistant)
    } else if name == "tool"@ {
        Some(Role::Tool)
    } else {
        None
    }
}

impl Role {
    /// The wire name of the role.
    pub fn name(&self) -> (r: &'static str)
        ensures
            r@ == role_name(*self),
    {
        match self {
            Role::System => "system",
            Role::User => "user",
            Role::Assistant => "assistant",
            Role::Tool => "tool",
        }
    }

    /// Reads a wire name. Any text but the four names is refused.
    pub fn from_name(name: &str) -> (r: Option<Role>)
        ensures
            r == role_of_name(name@),
    {
        if str_eq(name, "system") {
            Some(Role::System)
        } else if str_eq(name, "user") {
            Some(Role::User)
        } else if str_eq(name, "assistant") {
            Some(Role::Assistant)
        } else if str_eq(name, "tool") {
            Some(Role::Tool)
        } else {
            None
        }
    }
}

/// The role of an upstream message that names none.
pub fn default_chat_resp_role() -> (r: Role)
    ensures
        r == Role::Assistant,
{
    Role::Assistant
}

/// Why a response ended.
#[derive(Clone, Copy, Debug, PartialEq, Eq, Structural)]
pub enum DoneReason {
    Stop,
}

/// The message of a response frame.
#[derive(Debug, PartialEq, Eq)]
pub struct RespMessage {
    pub role: Role,
    pub content: String,
    pub images: Option<String>,
}

/// The model of a [`RespMessage`].
pub struct RespMessageView {
    pub role: Role,
    pub content: Seq<char>,
    pub images: Option<Seq<char>>,
}

impl View for RespMessage {
    type V = RespMessageView;

    open spec fn view(&self) -> RespMessageView {
        RespMessageView { role: self.role, content: self.content@, images: opt_text(self.images) }
    }
}

impl Clone for RespMessage {
    fn clone(&self) -> (r: Self)
        ensures
            r@ == self@,
    {
        RespMessage {
            role: self.role,
            content: self.content.clone(),
            images: match &self.images {
                Some(s) => Some(s.clone()),
                None => None,
            },
        }
    }
}

impl Default for RespMessage {
    fn default() -> (r: RespMessage)
        ensures
            r@ == RespMessageView::empty(),
    {
        RespMessage { role: Role::User, content: String::new(), images: None }
    }
}

impl RespMessageView {
    /// The message of a frame that carries none: role `User`, no content.
    pub open spec fn empty() -> RespMessageView {
        RespMessageView { role: Role::User, content: Seq::empty(), images: None }
    }

    /// A message with a role and a content and no images.
    pub open spec fn plain(role: Role, content: Seq<char>) -> RespMessageView {
        RespMessageView { role, content, images: None }
    }
}

impl RespMessage {
    /// A message with a role and a content and no images.
    pub fn plain(role: Role, content: String) -> (r: RespMessage)
        ensures
            r@ == RespMessageView::plain(role, content@),
    {
        RespMessage { role, content, images: None }
    }
}

/// One frame of the canonical protocol.
#[derive(Debug, PartialEq, Eq)]
pub struct OllamaChatResponse {
    pub model: String,
    pub created_at: String,
    pub message: RespMessage,
    pub done: bool,
    pub done_reason: Option<DoneReason>,
    /// Holds the total token count of the upstream usage.
    pub total_duration: Option<u32>,
    pub load_duration: Option<u32>,
    /// Holds the prompt token count of the upstream usage.
    pub prompt_eval_count: Option<u32>,
    pub prompt_eval_duration: Option<u32>,
    /// Holds the completion token count of the upstream usage.
    pub eval_count: Option<u32>,
    /// The milliseconds that the response took.
    pub eval_duration: Option<u32>,
}

/// The model of an [`OllamaChatResponse`].
pub struct FrameView {
    pub model: Seq<char>,
    pub created_at: Seq<char>,
    pub message: RespMessageView,
    pub done: bool,
    pub done_reason: Option<DoneReason>,
    pub total_duration: Option<u32>,
    pub load_duration: Option<u32>,
    pub prompt_eval_count: Option<u32>,
    pub prompt_eval_duration: Option<u32>,
    pub eval_count: Option<u32>,
    pub eval_duration: Option<u32>,
}

impl View for OllamaChatResponse {
    type V = FrameView;

    open spec fn view(&self) -> FrameView {
        FrameView {
            model: self.model@,
            created_at: self.created_at@,
            message: self.message@,
            done: self.done,
            done_reason: self.done_reason,
            total_duration: self.total_duration,
            load_duration: self.load_duration,
            prompt_eval_count: self.prompt_eval_count,
            prompt_eval_duration: self.prompt_eval_duration,
            eval_count: self.eval_count,
            eval_duration: self.eval_duration,
        }
    }
}

impl FrameView {
    /// The frame that every frame starts from: stamped, with no model, the
    /// empty message, not done, and no counter.
    pub open spec fn blank(created_at: Seq<char>) -> FrameView {
        FrameView {
            model: Seq::empty(),
            created_at,
            message: RespMessageView::empty(),
            done: false,
            done_reason: None,
            total_duration: None,
            load_duration: None,
            prompt_eval_count: None,
            prompt_eval_duration: None,
            eval_count: None,
            eval_duration: None,
        }
    }

    /// The frame with the three token counters taken from a usage.
    pub open spec fn with_usage(self, usage: Usage) -> FrameView {
        FrameView {
            total_duration: Some(usage.total_tokens),
            prompt_eval_count: Some(usage.prompt_tokens),
            eval_count: Some(usage.completion_tokens),
            ..self
        }
    }

    /// The frame with the stop reason and every counter set to zero.
    pub open spec fn with_options_filled(self) -> FrameView {
        FrameView {
            done_reason: Some(DoneReason::Stop),
            total_duration: Some(0),
            load_duration: Some(0),
            prompt_eval_count: Some(0),
            prompt_eval_duration: Some(0),
            eval_count: Some(0),
            eval_duration: Some(0),
            ..self
        }
    }

    /// A frame that carries a message and is not the last.
    pub open spec fn delta(
        model: Seq<char>,
        message: RespMessageView,
        created_at: Seq<char>,
    ) -> FrameView {
        FrameView { model, message, ..FrameView::blank(created_at) }
    }

    /// The last frame: done, with the stop reason, the counters of the usage
    /// and the elapsed milliseconds; with the given message or the empty one.
    pub open spec fn last(
        model: Seq<char>,
        message: Option<RespMessageView>,
        usage: Usage,
        eval_dur: u32,
        created_at: Seq<char>,
    ) -> FrameView {
        let start = FrameView {
            model,
            message: match message {
                Some(m) => m,
                None => RespMessageView::empty(),
            },
            ..FrameView::blank(created_at)
        };
        FrameView {
            done: true,
            eval_duration: Some(eval_dur),
            ..start.with_options_filled().with_usage(usage)
        }
    }

    /// The think-start marker of a stream.
    pub open spec fn think_start(model: Seq<char>, created_at: Seq<char>) -> FrameView {
        FrameView::delta(model, RespMessageView::plain(Role::Assistant, "<think>"@), created_at)
    }

    /// The think-end marker of a stream.
    pub open spec fn think_end(model: Seq<char>, created_at: Seq<char>) -> FrameView {
        FrameView::delta(model, RespMessageView::plain(Role::Assistant, "</think>"@), created_at)
    }
}

/// The JSON object of a message: `role`, `content`, and `images` where there
/// are any.
pub open spec fn message_json(m: RespMessageView) -> JsonView {
    let base = seq![
        ("role"@, JsonView::Str(role_name(m.role))),
        ("content"@, JsonView::Str(m.content)),
    ];
    JsonView::Object(
        match m.images {
            Some(images) => base.push(("images"@, JsonView::Str(images))),
            None => base,
        },
    )
}

/// The members with a counter added at the end, where it is present.
pub open spec fn with_count(
    members: Seq<(Seq<char>, JsonView)>,
    key: Seq<char>,
    count: Option<u32>,
) -> Seq<(Seq<char>, JsonView)> {
    match count {
        Some(n) => members.push((key, JsonView::Number(NumberView::Unsigned(n as u64)))),
        None => members,
    }
}

/// The JSON object of a frame: `model`, `created_at`, `message` and `done`,
/// then each of `done_reason`, `total_duration`, `load_duration`,
/// `prompt_eval_count`, `prompt_eval_duration`, `eval_count` and
/// `eval_duration` that is present, in this order.
pub open spec fn frame_json(f: FrameView) -> JsonView {
    let base = seq![
        ("model"@, JsonView::Str(f.model)),
        ("created_at"@, JsonView::Str(f.created_at)),
        ("message"@, message_json(f.message)),
        ("done"@, JsonView::Bool(f.done)),
    ];
    let m0 = match f.done_reason {
        Some(_) => base.push(("done_reason"@, JsonView::Str("stop"@))),
        None => base,
    };
    let m1 = with_count(m0, "total_duration"@, f.total_duration);
    let m2 = with_count(m1, "load_duration"@, f.load_duration);
    let m3 = with_count(m2, "prompt_eval_count"@, f.prompt_eval_count);
    let m4 = with_count(m3, "prompt_eval_duration"@, f.prompt_eval_duration);
    let m5 = with_count(m4, "eval_count"@, f.eval_count);
    JsonView::Object(with_count(m5, "eval_duration"@, f.eval_duration))
}

/// The line that a frame makes on the wire, without the line feed.
pub open spec fn frame_text(f: FrameView) -> Seq<char> {
    json_text(frame_json(f))
}

/// Adds a counter at the end of the members of an object, where it is present.
fn push_count(members: &mut Vec<(String, Json)>, key: &str, count: Option<u32>)
    ensures
        members_view(final(members)@) == with_count(members_view(old(members)@), key@, count),
{
    match count {
        Some(n) => push_member(members, key, Json::Number(Number::Unsigned(n as u64))),
        None => {},
    }
}

impl RespMessage {
    /// The JSON object of the message.
    pub fn to_json(&self) -> (r: Json)
        ensures
            r@ == message_json(self@),
    {
        let mut members: Vec<(String, Json)> = Vec::new();
        assert(members_view(members@) =~= Seq::empty());
        push_member(&mut members, "role", Json::Str(self.role.name().to_owned()));
        push_member(&mut members, "content", Json::Str(self.content.clone()));
        match &self.images {
            Some(images) => push_member(&mut members, "images", Json::Str(images.clone())),
            None => {},
        }
        proof {
            lemma_object_view(members);
            assert(members_view(members@) =~= message_json(self@)->Object_0);
        }
        Json::Object(members)
    }
}

impl Default for OllamaChatResponse {
    /// The blank frame, stamped with the wall clock's local time.
    fn default() -> (r: OllamaChatResponse)
        ensures
            r@ == FrameView::blank(r.created_at@),
    {
        OllamaChatResponse::blank(timestamp_now())
    }
}

impl OllamaChatResponse {
    /// The blank frame with the given stamp.
    pub fn blank(created_at: String) -> (r: OllamaChatResponse)
        ensures
            r@ == FrameView::blank(created_at@),
    {
        OllamaChatResponse {
            model: String::new(),
            created_at,
            message: RespMessage::default(),
            done: false,
            done_reason: None,
            total_duration: None,
            load_duration: None,
            prompt_eval_count: None,
            prompt_eval_duration: None,
            eval_count: None,
            eval_duration: None,
        }
    }

    /// Sets the model and the message.
    pub fn add_modle_and_message(&mut self, model: &str, message: RespMessage)
        ensures
            final(self)@ == (FrameView { model: model@, message: message@, ..old(self)@ }),
    {
        self.model = model.to_owned();
        self.message = message;
    }

    /// Sets the three token counters from a usage.
    pub fn add_usage(&mut self, usage: &Usage)
        ensures
            final(self)@ == old(self)@.with_usage(*usage),
    {
        self.total_duration = Some(usage.total_tokens);
        self.prompt_eval_count = Some(usage.prompt_tokens);
        self.eval_count = Some(usage.completion_tokens);
    }

    /// Sets the stop reason and every counter to zero.
    pub fn fill_option(&mut self)
        ensures
            final(self)@ == old(self)@.with_options_filled(),
    {
        self.done_reason = Some(DoneReason::Stop);
        self.total_duration = Some(0);
        self.load_duration = Some(0);
        self.prompt_eval_count = Some(0);
        self.prompt_eval_duration = Some(0);
        self.eval_count = Some(0);
        self.eval_duration = Some(0);
    }

    /// A frame that carries a message and is not the last.
    pub fn delta(model_id: &str, message: RespMessage, created_at: String) -> (r:
        OllamaChatResponse)
        ensures
            r@ == FrameView::delta(model_id@, message@, created_at@),
    {
        let mut resp = OllamaChatResponse::blank(created_at);
        resp.add_modle_and_message(model_id, message);
        resp
    }

    /// The last frame of a response.
    pub fn last(
        model_id: &str,
        message: Option<RespMessage>,
        usage: &Usage,
        eval_dur: u32,
        created_at: String,
    ) -> (r: OllamaChatResponse)
        ensures
            r@ == FrameView::last(model_id@, opt_message(message), *usage, eval_dur, created_at@),
    {
        let mut resp = OllamaChatResponse::blank(created_at);
        match message {
            Some(msg) => {
                resp.add_modle_and_message(model_id, msg);
            },
            None => {
                resp.model = model_id.to_owned();
            },
        }
        resp.fill_option();
        resp.add_usage(usage);
        resp.done = true;
        resp.eval_duration = Some(eval_dur);
        resp
    }

    /// The JSON object of the frame.
    pub fn to_json(&self) -> (r: Json)
        ensures
            r@ == frame_json(self@),
    {
        let mut members: Vec<(String, Json)> = Vec::new();
        assert(members_view(members@) =~= Seq::empty());
        push_member(&mut members, "model", Json::Str(self.model.clone()));
        push_member(&mut members, "created_at", Json::Str(self.created_at.clone()));
        push_member(&mut members, "message", self.message.to_json());
        push_member(&mut members, "done", Json::Bool(self.done));
        let ghost base = seq![
            ("model"@, JsonView::Str(self@.model)),
            ("created_at"@, JsonView::Str(self@.created_at)),
            ("message"@, message_json(self@.message)),
            ("done"@, JsonView::Bool(self@.done)),
        ];
        assert(members_view(members@) =~= base);
        match self.done_reason {
            Some(_) => push_member(&mut members, "done_reason", Json::Str("stop".to_owned())),
            None => {},
        }
        push_count(&mut members, "total_duration", self.total_duration);
        push_count(&mut members, "load_duration", self.load_duration);
        push_count(&mut members, "prompt_eval_count", self.prompt_eval_count);
        push_count(&mut members, "prompt_eval_duration", self.prompt_eval_duration);
        push_count(&mut members, "eval_count", self.eval_count);
        push_count(&mut members, "eval_duration", self.eval_duration);
        proof {
            lemma_object_view(members);
        }
        Json::Object(members)
    }

    /// The line that the frame makes on the wire, without the line feed.
    pub fn to_line(&self) -> (r: String)
        ensures
            r@ == frame_text(self@),
    {
        to_text(&self.to_json())
    }
}

/// The model of an optional message.
pub open spec fn opt_message(m: Option<RespMessage>) -> Option<RespMessageView> {
    match m {
        Some(m) => Some(m@),
        None => None,
    }
}

/// The line of a frame that carries `msg`, stamped with the wall clock.
pub fn gen_ollama_message(model_id: &str, msg: RespMessage) -> (r: String)
    ensures
        exists|created_at: Seq<char>|
            r@ == frame_text(#[trigger] FrameView::delta(model_id@, msg@, created_at)),
{
    let resp = OllamaChatResponse::delta(model_id, msg, timestamp_now());
    resp.to_line()
}

/// The line of the think-start marker, stamped with the wall clock.
pub fn gen_ollama_think_start_message(model_id: &str) -> (r: String)
    ensures
        exists|created_at: Seq<char>|
            r@ == frame_text(#[trigger] FrameView::think_start(model_id@, created_at)),
{
    let msg = RespMessage::plain(Role::Assistant, "<think>".to_owned());
    let resp = OllamaChatResponse::delta(model_id, msg, timestamp_now());
    assert(resp@ == FrameView::think_start(model_id@, resp.created_at@));
    resp.to_line()
}

/// The line of the think-end marker, stamped with the wall clock.
pub fn gen_ollama_think_end_message(model_id: &str) -> (r: String)
    ensures
        exists|created_at: Seq<char>|
            r@ == frame_text(#[trigger] FrameView::think_end(model_id@, created_at)),
{
    let msg = RespMessage::plain(Role::Assistant, "</think>".to_owned());
    let resp = OllamaChatResponse::delta(model_id, msg, timestamp_now());
    assert(resp@ == FrameView::think_end(model_id@, resp.created_at@));
    resp.to_line()
}

/// The line of the last frame of a response, stamped with the wall clock.
pub fn gen_last_message(
    model_id: &str,
    message: Option<RespMessage>,
    usage: &Usage,
    eval_dur: u32,
) -> (r: String)
    ensures
        exists|created_at: Seq<char>|
            r@ == frame_text(
                #[trigger] FrameView::last(
                    model_id@,
                    opt_message(message),
                    *usage,
                    eval_dur,
                    created_at,
                ),
            ),
{
    let resp = OllamaChatResponse::last(model_id, message, usage, eval_dur, timestamp_now());
    resp.to_line()
}

/// The names of the members of a frame are all different.
proof fn lemma_member_names_differ()
    ensures
        "created_at"@ != "eval_count"@,
        "load_duration"@ != "eval_duration"@,
        "model"@.len() == 5,
        "created_at"@.len() == 10,
        "message"@.len() == 7,
        "done"@.len() == 4,
        "done_reason"@.len() == 11,
        "total_duration"@.len() == 14,
        "load_duration"@.len() == 13,
        "prompt_eval_count"@.len() == 17,
        "prompt_eval_duration"@.len() == 20,
        "eval_count"@.len() == 10,
        "eval_duration"@.len() == 13,
{
    reveal_strlit("model");
    reveal_strlit("created_at");
    reveal_strlit("message");
    reveal_strlit("done");
    reveal_strlit("done_reason");
    reveal_strlit("total_duration");
    reveal_strlit("load_duration");
    reveal_strlit("prompt_eval_count");
    reveal_strlit("prompt_eval_duration");
    reveal_strlit("eval_count");
    reveal_strlit("eval_duration");
    assert("created_at"@[0] != "eval_count"@[0]);
    assert("load_duration"@[0] != "eval_duration"@[0]);
}

/// A counter added at the end is found under its name where it is present
/// and no earlier member bears the name, and changes nothing for any other
/// name.
proof fn lemma_lookup_count(
    members: Seq<(Seq<char>, JsonView)>,
    key: Seq<char>,
    count: Option<u32>,
    name: Seq<char>,
)
    ensures
        lookup(with_count(members, key, count), name) is Some <==> (lookup(members, name) is Some
            || (name == key && count is Some)),
        lookup(members, name) is Some ==> lookup(with_count(members, key, count), name) == lookup(
            members,
            name,
        ),
{
    match count {
        Some(n) => {
            lemma_lookup_push(
                members,
                key,
                JsonView::Number(NumberView::Unsigned(n as u64)),
                name,
            );
        },
        None => {},
    }
}

/// The four members that every frame has.
pub open spec fn fixed_members(f: FrameView) -> Seq<(Seq<char>, JsonView)> {
    seq![
        ("model"@, JsonView::Str(f.model)),
        ("created_at"@, JsonView::Str(f.created_at)),
        ("message"@, message_json(f.message)),
        ("done"@, JsonView::Bool(f.done)),
    ]
}

/// A name is found in a frame where it is one of the four fixed members,
/// with the value of that member, or the name of an optional member that is
/// present.
proof fn lemma_frame_member(f: FrameView, name: Seq<char>)
    ensures
        frame_json(f).member(name) is Some <==> {
            ||| lookup(fixed_members(f), name) is Some
            ||| name == "done_reason"@ && f.done_reason is Some
            ||| name == "total_duration"@ && f.total_duration is Some
            ||| name == "load_duration"@ && f.load_duration is Some
            ||| name == "prompt_eval_count"@ && f.prompt_eval_count is Some
            ||| name == "prompt_eval_duration"@ && f.prompt_eval_duration is Some
            ||| name == "eval_count"@ && f.eval_count is Some
            ||| name == "eval_duration"@ && f.eval_duration is Some
        },
        lookup(fixed_members(f), name) is Some ==> frame_json(f).member(name) == lookup(
            fixed_members(f),
            name,
        ),
{
    let base = fixed_members(f);
    let m0 = match f.done_reason {
        Some(_) => base.push(("done_reason"@, JsonView::Str("stop"@))),
        None => base,
    };
    let m1 = with_count(m0, "total_duration"@, f.total_duration);
    let m2 = with_count(m1, "load_duration"@, f.load_duration);
    let m3 = with_count(m2, "prompt_eval_count"@, f.prompt_eval_count);
    let m4 = with_count(m3, "prompt_eval_duration"@, f.prompt_eval_duration);
    let m5 = with_count(m4, "eval_count"@, f.eval_count);
    let m6 = with_count(m5, "eval_duration"@, f.eval_duration);
    assert(frame_json(f) == JsonView::Object(m6));
    if f.done_reason is Some {
        lemma_lookup_push(base, "done_reason"@, JsonView::Str("stop"@), name);
    }
    lemma_lookup_count(m0, "total_duration"@, f.total_duration, name);
    lemma_lookup_count(m1, "load_duration"@, f.load_duration, name);
    lemma_lookup_count(m2, "prompt_eval_count"@, f.prompt_eval_count, name);
    lemma_lookup_count(m3, "prompt_eval_duration"@, f.prompt_eval_duration, name);
    lemma_lookup_count(m4, "eval_count"@, f.eval_count, name);
    lemma_lookup_count(m5, "eval_duration"@, f.eval_duration, name);
}

/// What is found among the four fixed members of a frame.
proof fn lemma_fixed_members(f: FrameView, name: Seq<char>)
    ensures
        lookup(fixed_members(f), name) == if name == "model"@ {
            Some(JsonView::Str(f.model))
        } else if name == "created_at"@ {
            Some(JsonView::Str(f.created_at))
        } else if name == "message"@ {
            Some(message_json(f.message))
        } else if name == "done"@ {
            Some(JsonView::Bool(f.done))
        } else {
            None
        },
{
    let base = fixed_members(f);
    let b1 = base.skip(1);
    let b2 = b1.skip(1);
    let b3 = b2.skip(1);
    let b4 = b3.skip(1);
    assert(b4 =~= Seq::empty());
    assert(lookup(b4, name) is None);
    assert(b3[0] == base[3]);
    assert(b2[0] == base[2]);
    assert(b1[0] == base[1]);
    assert(lookup(b3, name) == if name == "done"@ {
        Some(JsonView::Bool(f.done))
    } else {
        None
    });
    assert(lookup(b2, name) == if name == "message"@ {
        Some(message_json(f.message))
    } else {
        lookup(b3, name)
    });
    assert(lookup(b1, name) == if name == "created_at"@ {
        Some(JsonView::Str(f.created_at))
    } else {
        lookup(b2, name)
    });
}

/// A frame writes a counter exactly where it is present, and the stop
/// reason exactly where there is one: nothing that is absent is written.
/// The model, the stamp, the message and `done` are always written.
pub proof fn lemma_absent_members_are_left_out(f: FrameView)
    ensures
        frame_json(f).member("done_reason"@) is Some <==> f.done_reason is Some,
        frame_json(f).member("total_duration"@) is Some <==> f.total_duration is Some,
        frame_json(f).member("load_duration"@) is Some <==> f.load_duration is Some,
        frame_json(f).member("prompt_eval_count"@) is Some <==> f.prompt_eval_count is Some,
        frame_json(f).member("prompt_eval_duration"@) is Some <==> f.prompt_eval_duration is Some,
        frame_json(f).member("eval_count"@) is Some <==> f.eval_count is Some,
        frame_json(f).member("eval_duration"@) is Some <==> f.eval_duration is Some,
        frame_json(f).member("model"@) == Some(JsonView::Str(f.model)),
        frame_json(f).member("created_at"@) == Some(JsonView::Str(f.created_at)),
        frame_json(f).member("message"@) == Some(message_json(f.message)),
        frame_json(f).member("done"@) == Some(JsonView::Bool(f.done)),
{
    lemma_member_names_differ();
    lemma_frame_member(f, "done_reason"@);
    lemma_fixed_members(f, "done_reason"@);
    lemma_frame_member(f, "total_duration"@);
    lemma_fixed_members(f, "total_duration"@);
    lemma_frame_member(f, "load_duration"@);
    lemma_fixed_members(f, "load_duration"@);
    lemma_frame_member(f, "prompt_eval_count"@);
    lemma_fixed_members(f, "prompt_eval_count"@);
    lemma_frame_member(f, "prompt_eval_duration"@);
    lemma_fixed_members(f, "prompt_eval_duration"@);
    lemma_frame_member(f, "eval_count"@);
    lemma_fixed_members(f, "eval_count"@);
    lemma_frame_member(f, "eval_duration"@);
    lemma_fixed_members(f, "eval_duration"@);
    lemma_frame_member(f, "model"@);
    lemma_fixed_members(f, "model"@);
    lemma_frame_member(f, "created_at"@);
    lemma_fixed_members(f, "created_at"@);
    lemma_frame_member(f, "message"@);
    lemma_fixed_members(f, "message"@);
    lemma_frame_member(f, "done"@);
    lemma_fixed_members(f, "done"@);
}

} // verus!
