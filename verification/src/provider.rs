//! The request adapters: from a canonical chat request to the outbound
//! request that a provider expects.
//!
//! There are two shapes. Most providers take the flat-message shape, with a
//! bearer token. One provider takes the grouped-content shape, with the key
//! in the URL. In both, the options of the request are merged into the body
//! as top-level members and win over the fixed members of the same name.

use crate::config::{ApiKeyProvider, ApiKeyProviderView};
use crate::dispatch::{Route, RouteView};
use crate::json::{
    copy_json, items_view, json_text, lemma_array_view, lemma_object_view, lemma_put_lookup,
    lookup, members_view, push_member, put, put_member, to_text, Json, JsonView,
};
use crate::message::{role_name, Role};
use crate::request::{ChatRequestView, OllamaChatRequest, ReqMessage, ReqMessageView};
use crate::text::join;
use crate::tool::{tool_call_json, tool_json};
use crate::view::{pairs_view, texts_view};
use vstd::prelude::*;

verus! {

/// An outbound request: where it goes, its headers, and its JSON body.
#[derive(Debug, PartialEq, Eq)]
pub struct OutboundRequest {
    pub url: String,
    /// The headers, as pairs of a lower-case name and a value.
    pub headers: Vec<(String, String)>,
    pub body: Json,
}

/// The model of an [`OutboundRequest`].
pub struct OutboundView {
    pub url: Seq<char>,
    pub headers: Seq<(Seq<char>, Seq<char>)>,
    pub body: JsonView,
}

impl View for OutboundRequest {
    type V = OutboundView;

    open spec fn view(&self) -> OutboundView {
        OutboundView { url: self.url@, headers: pairs_view(self.headers@), body: self.body@ }
    }
}

impl OutboundRequest {
    /// The body as compact JSON text.
    pub fn body_text(&self) -> (r: String)
        ensures
            r@ == json_text(self@.body),
    {
        to_text(&self.body)
    }
}

/// The URL of the chat endpoint of a provider of the flat-message kind.
pub open spec fn flat_endpoint(provider: ApiKeyProviderView) -> Seq<char> {
    match provider {
        ApiKeyProviderView::Aliyun =>
            "https://dashscope.aliyuncs.com/compatible-mode/v1/chat/completions"@,
        ApiKeyProviderView::Tencent => "https://api.lkeap.cloud.tencent.com/v1/chat/completions"@,
        ApiKeyProviderView::Bytedance =>
            "https://ark.cn-beijing.volces.com/api/v3/chat/completions"@,
        ApiKeyProviderView::DeepSeek => "https://api.deepseek.com/chat/completions"@,
        ApiKeyProviderView::Siliconflow => "https://api.siliconflow.cn/v1/chat/completions"@,
        ApiKeyProviderView::Custom(url) => url,
        ApiKeyProviderView::Google => Seq::empty(),
    }
}

/// The URL of the grouped-content provider: one endpoint for a streamed
/// answer and one for a whole answer, with the key as a query parameter.
pub open spec fn grouped_endpoint(model_name: Seq<char>, api_key: Seq<char>, stream: bool) -> Seq<
    char,
> {
    "https://generativelanguage.googleapis.com/v1beta/models/"@ + model_name + (if stream {
        ":streamGenerateContent?alt=sse&key="@
    } else {
        ":generateContent?key="@
    }) + api_key
}

/// The header that asks for a streamed answer, where the request is streamed.
pub open spec fn with_accept(
    headers: Seq<(Seq<char>, Seq<char>)>,
    stream: bool,
) -> Seq<(Seq<char>, Seq<char>)> {
    if stream {
        headers.push(("accept"@, "text/event-stream"@))
    } else {
        headers
    }
}

/// The headers of a flat-message request: the bearer token, the content
/// type, and `accept` where the request is streamed.
pub open spec fn flat_headers(api_key: Seq<char>, stream: bool) -> Seq<(Seq<char>, Seq<char>)> {
    with_accept(
        seq![
            ("authorization"@, "Bearer "@ + api_key),
            ("content-type"@, "application/json"@),
        ],
        stream,
    )
}

/// The headers of a grouped-content request: the content type, and `accept`
/// where the request is streamed.
pub open spec fn grouped_headers(stream: bool) -> Seq<(Seq<char>, Seq<char>)> {
    with_accept(seq![("content-type"@, "application/json"@)], stream)
}

/// The JSON array of a sequence of texts.
pub open spec fn texts_json(texts: Seq<Seq<char>>) -> JsonView {
    JsonView::Array(Seq::new(texts.len(), |i: int| JsonView::Str(texts[i])))
}

/// The JSON object of a request message: `role`, `content`, and `images`
/// and `tool_calls` where they are there.
pub open spec fn req_message_json(m: ReqMessageView) -> JsonView {
    let base = seq![
        ("role"@, JsonView::Str(role_name(m.role))),
        ("content"@, JsonView::Str(m.content)),
    ];
    let with_images = match m.images {
        Some(images) => base.push(("images"@, texts_json(images))),
        None => base,
    };
    JsonView::Object(
        match m.tool_calls {
            Some(calls) => with_images.push(
                (
                    "tool_calls"@,
                    JsonView::Array(Seq::new(calls.len(), |i: int| tool_call_json(calls[i]))),
                ),
            ),
            None => with_images,
        },
    )
}

/// The members with each of the options bound in turn: an option takes the
/// place of a member of the same name and is added at the end otherwise.
pub open spec fn merged(
    members: Seq<(Seq<char>, JsonView)>,
    options: Seq<(Seq<char>, JsonView)>,
) -> Seq<(Seq<char>, JsonView)>
    decreases options.len(),
{
    if options.len() == 0 {
        members
    } else {
        put(merged(members, options.drop_last()), options.last().0, options.last().1)
    }
}

/// The body of a flat-message request: `model`, `messages`, `stream`, and
/// `tools` where there are any; then the options, merged in.
pub open spec fn flat_body(req: ChatRequestView, model_name: Seq<char>) -> JsonView {
    let base = seq![
        ("model"@, JsonView::Str(model_name)),
        (
            "messages"@,
            JsonView::Array(Seq::new(req.messages.len(), |i: int| req_message_json(req.messages[i]))),
        ),
        ("stream"@, JsonView::Bool(req.stream)),
    ];
    let with_tools = if req.tools.len() > 0 {
        base.push(
            ("tools"@, JsonView::Array(Seq::new(req.tools.len(), |i: int| tool_json(req.tools[i])))),
        )
    } else {
        base
    };
    JsonView::Object(
        match req.options {
            Some(options) => merged(with_tools, options),
            None => with_tools,
        },
    )
}

/// The flat-message request for a chat request.
pub open spec fn flat_request(
    url: Seq<char>,
    req: ChatRequestView,
    model_name: Seq<char>,
    api_key: Seq<char>,
) -> OutboundView {
    OutboundView {
        url,
        headers: flat_headers(api_key, req.stream),
        body: flat_body(req, model_name),
    }
}

/// The texts of the system messages, in order.
pub open spec fn system_parts(messages: Seq<ReqMessageView>) -> Seq<Seq<char>>
    decreases messages.len(),
{
    if messages.len() == 0 {
        Seq::empty()
    } else {
        let before = system_parts(messages.drop_last());
        if messages.last().role == Role::System {
            before.push(messages.last().content)
        } else {
            before
        }
    }
}

/// The role of a turn in the grouped-content shape: `model` for the
/// assistant and `user` for everyone else.
pub open spec fn grouped_role(role: Role) -> Seq<char> {
    if role == Role::Assistant {
        "model"@
    } else {
        "user"@
    }
}

/// The JSON object of a part: its text.
pub open spec fn part_json(text: Seq<char>) -> JsonView {
    JsonView::Object(seq![("text"@, JsonView::Str(text))])
}

/// The JSON object of a content: its role, or `null`, and its parts.
pub open spec fn content_json(role: Option<Seq<char>>, parts: Seq<Seq<char>>) -> JsonView {
    JsonView::Object(
        seq![
            (
                "role"@,
                match role {
                    Some(r) => JsonView::Str(r),
                    None => JsonView::Null,
                },
            ),
            ("parts"@, JsonView::Array(Seq::new(parts.len(), |i: int| part_json(parts[i])))),
        ],
    )
}

/// The turns of a conversation: every message that is no system message, in
/// order, as a content with one part.
pub open spec fn turns(messages: Seq<ReqMessageView>) -> Seq<JsonView>
    decreases messages.len(),
{
    if messages.len() == 0 {
        Seq::empty()
    } else {
        let before = turns(messages.drop_last());
        let m = messages.last();
        if m.role == Role::System {
            before
        } else {
            before.push(content_json(Some(grouped_role(m.role)), seq![m.content]))
        }
    }
}

/// The system instruction: one content that holds the texts of all system
/// messages as its parts, or `null` where there is no system message.
pub open spec fn system_instruction(messages: Seq<ReqMessageView>) -> JsonView {
    if system_parts(messages).len() == 0 {
        JsonView::Null
    } else {
        content_json(None, system_parts(messages))
    }
}

/// The fixed members of a grouped-content request: the turns, the system
/// instruction, and no generation settings.
pub open spec fn grouped_members(req: ChatRequestView) -> Seq<(Seq<char>, JsonView)> {
    seq![
        ("contents"@, JsonView::Array(turns(req.messages))),
        ("system_instruction"@, system_instruction(req.messages)),
        ("generation_config"@, JsonView::Null),
    ]
}

/// The body of a grouped-content request: the fixed members; then the
/// options, merged in.
pub open spec fn grouped_body(req: ChatRequestView) -> JsonView {
    JsonView::Object(
        match req.options {
            Some(options) => merged(grouped_members(req), options),
            None => grouped_members(req),
        },
    )
}

/// The grouped-content request for a chat request.
pub open spec fn grouped_request(
    req: ChatRequestView,
    model_name: Seq<char>,
    api_key: Seq<char>,
) -> OutboundView {
    OutboundView {
        url: grouped_endpoint(model_name, api_key, req.stream),
        headers: grouped_headers(req.stream),
        body: grouped_body(req),
    }
}

/// The outbound request for a chat request on a route: the grouped-content
/// request for Google, the flat-message request at the URL of the provider
/// for every other.
pub open spec fn outbound(route: RouteView, req: ChatRequestView) -> OutboundView {
    match route.provider {
        ApiKeyProviderView::Google => grouped_request(req, route.model_name, route.api_key),
        _ => flat_request(flat_endpoint(route.provider), req, route.model_name, route.api_key),
    }
}

/// Adds a header at the end.
fn push_header(headers: &mut Vec<(String, String)>, name: &str, value: String)
    ensures
        pairs_view(final(headers)@) == pairs_view(old(headers)@).push((name@, value@)),
{
    headers.push((name.to_owned(), value));
    assert(pairs_view(headers@) =~= pairs_view(old(headers)@).push((name@, value@)));
}

/// Adds `accept` where the request is streamed.
fn push_accept(headers: &mut Vec<(String, String)>, stream: bool)
    ensures
        pairs_view(final(headers)@) == with_accept(pairs_view(old(headers)@), stream),
{
    if stream {
        push_header(headers, "accept", "text/event-stream".to_owned());
    }
}

/// The JSON array of a sequence of texts.
fn texts_to_json(texts: &Vec<String>) -> (r: Json)
    ensures
        r@ == texts_json(texts_view(texts@)),
{
    let mut items: Vec<Json> = Vec::new();
    let mut i: usize = 0;
    while i < texts.len()
        invariant
            i <= texts.len(),
            items.len() == i,
            forall|k: int| 0 <= k < i ==> (#[trigger] items[k])@ == JsonView::Str(texts[k]@),
        decreases texts.len() - i,
    {
        items.push(Json::Str(texts[i].clone()));
        i += 1;
    }
    proof {
        lemma_array_view(items);
        assert(items_view(items@) =~= texts_json(texts_view(texts@))->Array_0);
    }
    Json::Array(items)
}

impl ReqMessage {
    /// The JSON object of the message.
    pub fn to_json(&self) -> (r: Json)
        ensures
            r@ == req_message_json(self@),
    {
        let mut members: Vec<(String, Json)> = Vec::new();
        assert(members_view(members@) =~= Seq::empty());
        push_member(&mut members, "role", Json::Str(self.role.name().to_owned()));
        push_member(&mut members, "content", Json::Str(self.content.clone()));
        match &self.images {
            Some(images) => push_member(&mut members, "images", texts_to_json(images)),
            None => {},
        }
        match &self.tool_calls {
            Some(calls) => {
                let mut items: Vec<Json> = Vec::new();
                let mut i: usize = 0;
                while i < calls.len()
                    invariant
                        i <= calls.len(),
                        items.len() == i,
                        forall|k: int|
                            0 <= k < i ==> (#[trigger] items[k])@ == tool_call_json(calls[k]@),
                    decreases calls.len() - i,
                {
                    items.push(calls[i].to_json());
                    i += 1;
                }
                proof {
                    lemma_array_view(items);
                    let views = crate::tool::tool_calls_view(calls@);
                    assert(items_view(items@) =~= Seq::new(
                        views.len(),
                        |i: int| tool_call_json(views[i]),
                    ));
                }
                push_member(&mut members, "tool_calls", Json::Array(items));
            },
            None => {},
        }
        proof {
            lemma_object_view(members);
            assert(members_view(members@) =~= req_message_json(self@)->Object_0);
        }
        Json::Object(members)
    }
}

/// Merges options into the members of a body, as [`merged`] says.
fn merge_options(members: &mut Vec<(String, Json)>, options: &Vec<(String, Json)>)
    ensures
        members_view(final(members)@) == merged(
            members_view(old(members)@),
            members_view(options@),
        ),
{
    let ghost all = members_view(options@);
    let mut i: usize = 0;
    assert(all.take(0) =~= Seq::empty());
    while i < options.len()
        invariant
            i <= options.len(),
            all == members_view(options@),
            members_view(members@) == merged(members_view(old(members)@), all.take(i as int)),
        decreases options.len() - i,
    {
        proof {
            assert(all.take(i + 1).drop_last() =~= all.take(i as int));
            assert(all.take(i + 1).last() == all[i as int]);
        }
        put_member(members, options[i].0.clone(), copy_json(&options[i].1));
        i += 1;
    }
    assert(all.take(i as int) =~= all);
}

/// Builds the flat-message request for a chat request, as [`flat_request`]
/// says.
pub fn build_flat_request(
    url: &str,
    chat_req: &OllamaChatRequest,
    model_name: &str,
    api_key: &str,
) -> (r: OutboundRequest)
    ensures
        r@ == flat_request(url@, chat_req@, model_name@, api_key@),
{
    let mut headers: Vec<(String, String)> = Vec::new();
    assert(pairs_view(headers@) =~= Seq::empty());
    push_header(&mut headers, "authorization", join("Bearer ", api_key));
    push_header(&mut headers, "content-type", "application/json".to_owned());
    push_accept(&mut headers, chat_req.stream);
    assert(pairs_view(headers@) =~= flat_headers(api_key@, chat_req.stream));

    let mut messages: Vec<Json> = Vec::new();
    let mut i: usize = 0;
    while i < chat_req.messages.len()
        invariant
            i <= chat_req.messages.len(),
            messages.len() == i,
            forall|k: int|
                0 <= k < i ==> (#[trigger] messages[k])@ == req_message_json(
                    chat_req.messages[k]@,
                ),
        decreases chat_req.messages.len() - i,
    {
        messages.push(chat_req.messages[i].to_json());
        i += 1;
    }
    let mut tools: Vec<Json> = Vec::new();
    let mut k: usize = 0;
    while k < chat_req.tools.len()
        invariant
            k <= chat_req.tools.len(),
            tools.len() == k,
            forall|j: int| 0 <= j < k ==> (#[trigger] tools[j])@ == tool_json(chat_req.tools[j]@),
        decreases chat_req.tools.len() - k,
    {
        tools.push(chat_req.tools[k].to_json());
        k += 1;
    }
    let has_tools = tools.len() > 0;
    let ghost view = chat_req@;
    proof {
        lemma_array_view(messages);
        lemma_array_view(tools);
        assert(items_view(messages@) =~= Seq::new(
            view.messages.len(),
            |i: int| req_message_json(view.messages[i]),
        ));
        assert(items_view(tools@) =~= Seq::new(
            view.tools.len(),
            |i: int| tool_json(view.tools[i]),
        ));
    }
    let mut members: Vec<(String, Json)> = Vec::new();
    assert(members_view(members@) =~= Seq::empty());
    push_member(&mut members, "model", Json::Str(model_name.to_owned()));
    push_member(&mut members, "messages", Json::Array(messages));
    push_member(&mut members, "stream", Json::Bool(chat_req.stream));
    if has_tools {
        push_member(&mut members, "tools", Json::Array(tools));
    }
    let ghost base = seq![
        ("model"@, JsonView::Str(model_name@)),
        (
            "messages"@,
            JsonView::Array(
                Seq::new(view.messages.len(), |i: int| req_message_json(view.messages[i])),
            ),
        ),
        ("stream"@, JsonView::Bool(view.stream)),
    ];
    let ghost with_tools = if view.tools.len() > 0 {
        base.push(
            (
                "tools"@,
                JsonView::Array(Seq::new(view.tools.len(), |i: int| tool_json(view.tools[i]))),
            ),
        )
    } else {
        base
    };
    assert(members_view(members@) =~= with_tools);
    match &chat_req.options {
        Some(options) => {
            merge_options(&mut members, options);
        },
        None => {},
    }
    proof {
        lemma_object_view(members);
        assert(members_view(members@) =~= flat_body(view, model_name@)->Object_0);
    }
    OutboundRequest { url: url.to_owned(), headers, body: Json::Object(members) }
}

/// The JSON object of a part.
fn part_to_json(text: &str) -> (r: Json)
    ensures
        r@ == part_json(text@),
{
    let mut members: Vec<(String, Json)> = Vec::new();
    assert(members_view(members@) =~= Seq::empty());
    push_member(&mut members, "text", Json::Str(text.to_owned()));
    proof {
        lemma_object_view(members);
        assert(members_view(members@) =~= part_json(text@)->Object_0);
    }
    Json::Object(members)
}

/// The JSON object of a content whose parts are given as documents.
fn content_to_json(role: Option<&str>, parts: Vec<Json>, Ghost(texts): Ghost<Seq<Seq<char>>>) -> (r:
    Json)
    requires
        parts.len() == texts.len(),
        forall|i: int| 0 <= i < parts.len() ==> (#[trigger] parts[i])@ == part_json(texts[i]),
    ensures
        r@ == content_json(
            match role {
                Some(name) => Some(name@),
                None => None,
            },
            texts,
        ),
{
    let ghost role_view = match role {
        Some(name) => Some(name@),
        None => None,
    };
    let role_doc = match role {
        Some(name) => Json::Str(name.to_owned()),
        None => Json::Null,
    };
    proof {
        lemma_array_view(parts);
        assert(items_view(parts@) =~= Seq::new(texts.len(), |i: int| part_json(texts[i])));
    }
    let mut members: Vec<(String, Json)> = Vec::new();
    assert(members_view(members@) =~= Seq::empty());
    push_member(&mut members, "role", role_doc);
    push_member(&mut members, "parts", Json::Array(parts));
    proof {
        lemma_object_view(members);
        assert(members_view(members@) =~= content_json(role_view, texts)->Object_0);
    }
    Json::Object(members)
}

/// Builds the grouped-content request for a chat request, as
/// [`grouped_request`] says.
pub fn build_grouped_request(chat_req: &OllamaChatRequest, model_name: &str, api_key: &str) -> (r:
    OutboundRequest)
    ensures
        r@ == grouped_request(chat_req@, model_name@, api_key@),
{
    let mut headers: Vec<(String, String)> = Vec::new();
    assert(pairs_view(headers@) =~= Seq::empty());
    push_header(&mut headers, "content-type", "application/json".to_owned());
    push_accept(&mut headers, chat_req.stream);

    let base = join("https://generativelanguage.googleapis.com/v1beta/models/", model_name);
    let action = if chat_req.stream {
        ":streamGenerateContent?alt=sse&key="
    } else {
        ":generateContent?key="
    };
    let url = join(join(base.as_str(), action).as_str(), api_key);

    let ghost all = chat_req@.messages;
    let mut contents: Vec<Json> = Vec::new();
    let mut system: Vec<Json> = Vec::new();
    let mut i: usize = 0;
    assert(all.take(0) =~= Seq::empty());
    while i < chat_req.messages.len()
        invariant
            i <= chat_req.messages.len(),
            all == chat_req@.messages,
            items_view(contents@) == turns(all.take(i as int)),
            system.len() == system_parts(all.take(i as int)).len(),
            forall|k: int|
                0 <= k < system.len() ==> (#[trigger] system[k])@ == part_json(
                    system_parts(all.take(i as int))[k],
                ),
        decreases chat_req.messages.len() - i,
    {
        let msg = &chat_req.messages[i];
        proof {
            assert(all.take(i + 1).drop_last() =~= all.take(i as int));
            assert(all.take(i + 1).last() == msg@);
        }
        match msg.role {
            Role::System => {
                system.push(part_to_json(msg.content.as_str()));
            },
            _ => {
                let name = match msg.role {
                    Role::Assistant => "model",
                    _ => "user",
                };
                let mut parts: Vec<Json> = Vec::new();
                parts.push(part_to_json(msg.content.as_str()));
                let ghost before = items_view(contents@);
                let ghost texts = seq![msg.content@];
                let content = content_to_json(Some(name), parts, Ghost(texts));
                contents.push(content);
                assert(items_view(contents@) =~= before.push(content@));
            },
        }
        i += 1;
    }
    assert(all.take(i as int) =~= all);
    let instruction = if system.len() == 0 {
        Json::Null
    } else {
        let ghost texts = system_parts(all);
        content_to_json(None, system, Ghost(texts))
    };
    proof {
        lemma_array_view(contents);
    }
    let mut members: Vec<(String, Json)> = Vec::new();
    assert(members_view(members@) =~= Seq::empty());
    push_member(&mut members, "contents", Json::Array(contents));
    push_member(&mut members, "system_instruction", instruction);
    push_member(&mut members, "generation_config", Json::Null);
    assert(members_view(members@) =~= grouped_members(chat_req@));
    match &chat_req.options {
        Some(options) => {
            merge_options(&mut members, options);
        },
        None => {},
    }
    proof {
        lemma_object_view(members);
    }
    OutboundRequest { url, headers, body: Json::Object(members) }
}

/// The URL of the chat endpoint of a provider of the flat-message kind.
pub fn flat_endpoint_of(provider: &ApiKeyProvider) -> (r: String)
    ensures
        r@ == flat_endpoint(provider@),
{
    match provider {
        ApiKeyProvider::Aliyun =>
            "https://dashscope.aliyuncs.com/compatible-mode/v1/chat/completions".to_owned(),
        ApiKeyProvider::Tencent =>
            "https://api.lkeap.cloud.tencent.com/v1/chat/completions".to_owned(),
        ApiKeyProvider::Bytedance =>
            "https://ark.cn-beijing.volces.com/api/v3/chat/completions".to_owned(),
        ApiKeyProvider::DeepSeek => "https://api.deepseek.com/chat/completions".to_owned(),
        ApiKeyProvider::Siliconflow => "https://api.siliconflow.cn/v1/chat/completions".to_owned(),
        ApiKeyProvider::Custom(url) => url.clone(),
        ApiKeyProvider::Google => String::new(),
    }
}

/// Builds the outbound request for a chat request on a route, as
/// [`outbound`] says.
pub fn chat_completion(route: &Route, chat_req: &OllamaChatRequest) -> (r: OutboundRequest)
    ensures
        r@ == outbound(route@, chat_req@),
{
    match &route.provider {
        ApiKeyProvider::Google => build_grouped_request(
            chat_req,
            route.model_name.as_str(),
            route.api_key.as_str(),
        ),
        other => {
            let url = flat_endpoint_of(other);
            build_flat_request(
                url.as_str(),
                chat_req,
                route.model_name.as_str(),
                route.api_key.as_str(),
            )
        },
    }
}

/// The value that the last option of a name binds it to, if there is one.
pub open spec fn last_binding(options: Seq<(Seq<char>, JsonView)>, name: Seq<char>) -> Option<
    JsonView,
>
    decreases options.len(),
{
    if options.len() == 0 {
        None
    } else if options.last().0 == name {
        Some(options.last().1)
    } else {
        last_binding(options.drop_last(), name)
    }
}

/// The last write wins: in a body with options merged in, a name that an
/// option bears has the value of the last such option, whatever the fixed
/// members say; every other name has the value of the fixed member.
pub proof fn lemma_last_write_wins(
    members: Seq<(Seq<char>, JsonView)>,
    options: Seq<(Seq<char>, JsonView)>,
    name: Seq<char>,
)
    ensures
        lookup(merged(members, options), name) == match last_binding(options, name) {
            Some(value) => Some(value),
            None => lookup(members, name),
        },
    decreases options.len(),
{
    if options.len() > 0 {
        lemma_last_write_wins(members, options.drop_last(), name);
        lemma_put_lookup(
            merged(members, options.drop_last()),
            options.last().0,
            options.last().1,
            name,
        );
    }
}

/// In the body of either shape an option wins: a name that an option bears
/// has in the body the value of the last such option, also where a fixed
/// member bears the name; every other name has the value of the fixed
/// member.
pub proof fn lemma_options_win(req: ChatRequestView, model_name: Seq<char>, name: Seq<char>)
    requires
        req.options is Some,
    ensures
        last_binding(req.options->Some_0, name) is Some ==> {
            &&& flat_body(req, model_name).member(name) == last_binding(req.options->Some_0, name)
            &&& grouped_body(req).member(name) == last_binding(req.options->Some_0, name)
        },
        last_binding(req.options->Some_0, name) is None ==> {
            &&& flat_body(req, model_name).member(name) == flat_body(
                ChatRequestView { options: None, ..req },
                model_name,
            ).member(name)
            &&& grouped_body(req).member(name) == lookup(grouped_members(req), name)
        },
{
    let options = req.options->Some_0;
    let bare = ChatRequestView { options: None, ..req };
    let fixed = flat_body(bare, model_name)->Object_0;
    assert(flat_body(req, model_name) == JsonView::Object(merged(fixed, options)));
    lemma_last_write_wins(fixed, options, name);
    lemma_last_write_wins(grouped_members(req), options, name);
}

} // verus!
