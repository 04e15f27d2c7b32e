use uni_llm_api::emission::{render_emission, Emission};
use uni_llm_api::error::AppError;
use uni_llm_api::json::{parse, Json, Number};
use uni_llm_api::message::{RespMessage, Role};
use uni_llm_api::stream::{step, ChatRespStatus, OllamaBytesState};
use uni_llm_api::upstream::{ApiResponse, Choice, Delta, Usage};

fn says(role: Role, content: &str) -> Emission {
    Emission::Message(RespMessage::plain(role, content.to_string()))
}

fn feed(state: &mut OllamaBytesState, text: &str) -> Vec<Emission> {
    state.advance(text.as_bytes())
}

fn delta(content: &str, reasoning: Option<&str>) -> Delta {
    Delta {
        content: content.to_string(),
        reasoning_content: reasoning.map(|r| r.to_string()),
        role: Role::Assistant,
    }
}

fn run(status: ChatRespStatus, d: &Delta) -> (ChatRespStatus, Vec<Emission>) {
    let mut out = Vec::new();
    let next = step(status, d, &mut out);
    (next, out)
}

fn lines_of(bytes: &[u8]) -> Vec<Json> {
    let text = String::from_utf8(bytes.to_vec()).expect("utf-8");
    assert!(text.is_empty() || text.ends_with('\n'));
    text.lines().map(|l| parse(l).expect("each line is a document")).collect()
}

fn content_of(doc: &Json) -> String {
    match doc.get("message").and_then(|m| m.get("content")) {
        Some(Json::Str(s)) => s.clone(),
        other => panic!("no content: {:?}", other),
    }
}

#[test]
fn plain_content_stream_ends_with_one_done_frame() {
    let mut state = OllamaBytesState::new("m".to_string());
    let mut all = Vec::new();
    all.extend(feed(&mut state, "data: {\"choices\":[{\"delta\":{\"content\":\"Hel\"}}]}\n\n"));
    assert_eq!(state.status(), ChatRespStatus::ThinkFinished);
    all.extend(feed(&mut state, "data: {\"choices\":[{\"delta\":{\"content\":\"lo\"}}]}\n\n"));
    all.extend(feed(&mut state, "data: [DONE]\n\n"));
    assert_eq!(
        all,
        vec![says(Role::Assistant, "lo"), Emission::Last(Usage { completion_tokens: 0, prompt_tokens: 0, total_tokens: 0 })]
    );
    assert!(state.is_finished());
    assert_eq!(state.failure(), None);
}

#[test]
fn first_plain_content_event_only_changes_the_state() {
    let (next, out) = run(ChatRespStatus::Init, &delta("Hel", None));
    assert_eq!(next, ChatRespStatus::ThinkFinished);
    assert_eq!(out, vec![]);
    let (next, out) = run(next, &delta("lo", None));
    assert_eq!(next, ChatRespStatus::ThinkFinished);
    assert_eq!(out, vec![says(Role::Assistant, "lo")]);
}

#[test]
fn side_channel_reasoning_is_bracketed() {
    let mut state = OllamaBytesState::new("m".to_string());
    let mut all = Vec::new();
    all.extend(feed(
        &mut state,
        "data: {\"choices\":[{\"delta\":{\"reasoning_content\":\"because\",\"content\":\"\"}}]}\n",
    ));
    assert_eq!(state.status(), ChatRespStatus::ReasoningThinking);
    all.extend(feed(&mut state, "data: {\"choices\":[{\"delta\":{\"content\":\"answer\"}}]}\n"));
    assert_eq!(state.status(), ChatRespStatus::ThinkFinished);
    assert_eq!(
        all,
        vec![
            says(Role::Assistant, "<think>"),
            says(Role::Assistant, "because"),
            says(Role::Assistant, "</think>"),
            says(Role::Assistant, "answer"),
        ]
    );
}

#[test]
fn inline_and_side_channel_reasoning_emit_the_same() {
    let mut inline = OllamaBytesState::new("m".to_string());
    let mut a = Vec::new();
    a.extend(feed(&mut inline, "data: {\"choices\":[{\"delta\":{\"content\":\"<think>because\"}}]}\n"));
    assert_eq!(inline.status(), ChatRespStatus::ContentThinking);
    a.extend(feed(&mut inline, "data: {\"choices\":[{\"delta\":{\"content\":\"</think>answer\"}}]}\n"));
    let mut side = OllamaBytesState::new("m".to_string());
    let mut b = Vec::new();
    b.extend(feed(&mut side, "data: {\"choices\":[{\"delta\":{\"reasoning_content\":\"because\"}}]}\n"));
    b.extend(feed(&mut side, "data: {\"choices\":[{\"delta\":{\"content\":\"answer\"}}]}\n"));
    assert_eq!(a, b);
    assert_eq!(
        a,
        vec![
            says(Role::Assistant, "<think>"),
            says(Role::Assistant, "because"),
            says(Role::Assistant, "</think>"),
            says(Role::Assistant, "answer"),
        ]
    );
    assert_eq!(inline.status(), side.status());
}

#[test]
fn every_row_of_the_state_table() {
    // Init
    assert_eq!(
        run(ChatRespStatus::Init, &delta("<think>", None)),
        (ChatRespStatus::ContentThinking, vec![says(Role::Assistant, "<think>")])
    );
    assert_eq!(
        run(ChatRespStatus::Init, &delta("a<think>b<think>", None)),
        (ChatRespStatus::ContentThinking, vec![says(Role::Assistant, "<think>"), says(Role::Assistant, "ab")])
    );
    assert_eq!(
        run(ChatRespStatus::Init, &delta("<think>x", Some("r"))),
        (ChatRespStatus::ContentThinking, vec![says(Role::Assistant, "<think>"), says(Role::Assistant, "x")])
    );
    assert_eq!(
        run(ChatRespStatus::Init, &delta("", Some("r"))),
        (ChatRespStatus::ReasoningThinking, vec![says(Role::Assistant, "<think>"), says(Role::Assistant, "r")])
    );
    assert_eq!(run(ChatRespStatus::Init, &delta("", Some(""))), (ChatRespStatus::Init, vec![]));
    assert_eq!(run(ChatRespStatus::Init, &delta("x", Some(""))), (ChatRespStatus::ThinkFinished, vec![]));
    assert_eq!(run(ChatRespStatus::Init, &delta("", None)), (ChatRespStatus::Init, vec![]));
    // ContentThinking
    assert_eq!(
        run(ChatRespStatus::ContentThinking, &delta("more", None)),
        (ChatRespStatus::ContentThinking, vec![says(Role::Assistant, "more")])
    );
    assert_eq!(
        run(ChatRespStatus::ContentThinking, &delta("", None)),
        (ChatRespStatus::ContentThinking, vec![says(Role::Assistant, "")])
    );
    assert_eq!(
        run(ChatRespStatus::ContentThinking, &delta("end</think>", None)),
        (ChatRespStatus::ThinkFinished, vec![says(Role::Assistant, "</think>"), says(Role::Assistant, "end")])
    );
    assert_eq!(
        run(ChatRespStatus::ContentThinking, &delta("</think>", None)),
        (ChatRespStatus::ThinkFinished, vec![says(Role::Assistant, "</think>")])
    );
    // ReasoningThinking
    assert_eq!(
        run(ChatRespStatus::ReasoningThinking, &delta("", Some("still"))),
        (ChatRespStatus::ReasoningThinking, vec![says(Role::Assistant, "still")])
    );
    assert_eq!(
        run(ChatRespStatus::ReasoningThinking, &delta("", Some(""))),
        (ChatRespStatus::ReasoningThinking, vec![says(Role::Assistant, "")])
    );
    assert_eq!(
        run(ChatRespStatus::ReasoningThinking, &delta("now", Some("late"))),
        (ChatRespStatus::ThinkFinished, vec![says(Role::Assistant, "</think>"), says(Role::Assistant, "now")])
    );
    assert_eq!(
        run(ChatRespStatus::ReasoningThinking, &delta("", None)),
        (ChatRespStatus::ThinkFinished, vec![says(Role::Assistant, "</think>")])
    );
    // ThinkFinished
    assert_eq!(
        run(ChatRespStatus::ThinkFinished, &delta("<think>raw", Some("r"))),
        (ChatRespStatus::ThinkFinished, vec![says(Role::Assistant, "<think>raw")])
    );
    assert_eq!(
        run(ChatRespStatus::ThinkFinished, &delta("", None)),
        (ChatRespStatus::ThinkFinished, vec![says(Role::Assistant, "")])
    );
    // ChatFinished
    assert_eq!(run(ChatRespStatus::ChatFinished, &delta("x", Some("y"))), (ChatRespStatus::ChatFinished, vec![]));
}

#[test]
fn step_adds_to_what_was_emitted_before() {
    let mut out = vec![says(Role::User, "kept")];
    let next = step(ChatRespStatus::ThinkFinished, &delta("x", None), &mut out);
    assert_eq!(next, ChatRespStatus::ThinkFinished);
    assert_eq!(out, vec![says(Role::User, "kept"), says(Role::Assistant, "x")]);
}

#[test]
fn content_frames_copy_the_role_of_the_delta() {
    let mut state = OllamaBytesState::new("m".to_string());
    feed(&mut state, "data: {\"choices\":[{\"delta\":{\"content\":\"a\"}}]}\n");
    let out = feed(&mut state, "data: {\"choices\":[{\"delta\":{\"role\":\"tool\",\"content\":\"b\"}}]}\n");
    assert_eq!(out, vec![says(Role::Tool, "b")]);
    let out = feed(&mut state, "data: {\"choices\":[{\"message\":{\"content\":\"c\"}}]}\n");
    assert_eq!(out, vec![says(Role::Assistant, "c")]);
}

#[test]
fn usage_of_the_last_event_is_reported() {
    let mut state = OllamaBytesState::new("m".to_string());
    let mut all = Vec::new();
    all.extend(feed(&mut state, "data: {\"choices\":[{\"delta\":{\"content\":\"a\"}}],\"usage\":{\"completion_tokens\":1,\"prompt_tokens\":2,\"total_tokens\":3}}\n"));
    all.extend(feed(&mut state, "data: {\"choices\":[{\"delta\":{\"content\":\"b\"}}],\"usage\":{\"completion_tokens\":10,\"prompt_tokens\":20,\"total_tokens\":30}}\n"));
    all.extend(feed(&mut state, "data: [DONE]\n"));
    assert_eq!(
        all,
        vec![says(Role::Assistant, "b"), Emission::Last(Usage { completion_tokens: 10, prompt_tokens: 20, total_tokens: 30 })]
    );
}

#[test]
fn usage_is_zero_where_the_last_event_has_none() {
    let mut state = OllamaBytesState::new("m".to_string());
    feed(&mut state, "data: {\"choices\":[{\"delta\":{\"content\":\"a\"}}],\"usage\":{\"completion_tokens\":1,\"prompt_tokens\":2,\"total_tokens\":3}}\n");
    feed(&mut state, "data: {\"choices\":[{\"delta\":{\"content\":\"b\"}}],\"usage\":null}\n");
    let out = feed(&mut state, "data: [DONE]\n");
    assert_eq!(out, vec![Emission::Last(Usage::default())]);
}

#[test]
fn lines_without_the_prefix_are_passed_over() {
    let mut state = OllamaBytesState::new("m".to_string());
    let out = feed(&mut state, ": keep-alive\n\nevent: message\nid: 7\ndata:{\"no\":\"space\"}\n data: x\nDATA: y\n");
    assert_eq!(out, vec![]);
    assert_eq!(state.status(), ChatRespStatus::Init);
    assert_eq!(state.failure(), None);
}

#[test]
fn done_marker_may_stand_between_white_space() {
    for payload in ["[DONE]", " [DONE] ", "[DONE]\r", "\t[DONE]\u{a0}", "\u{3000}[DONE]\u{2003}"] {
        let mut state = OllamaBytesState::new("m".to_string());
        let out = feed(&mut state, &format!("data: {}\n", payload));
        assert_eq!(out, vec![Emission::Last(Usage::default())], "payload {:?}", payload);
        assert!(state.is_finished());
    }
    for payload in ["[done]", "[DONE]x", "[ DONE]", "DONE"] {
        let mut state = OllamaBytesState::new("m".to_string());
        let out = feed(&mut state, &format!("data: {}\n", payload));
        assert_eq!(out, vec![], "payload {:?}", payload);
        assert_eq!(state.failure(), Some(AppError::MalformedPayload), "payload {:?}", payload);
    }
}

#[test]
fn nothing_follows_the_done_frame() {
    let mut state = OllamaBytesState::new("m".to_string());
    let out = feed(
        &mut state,
        "data: {\"choices\":[{\"delta\":{\"content\":\"a\"}}]}\ndata: [DONE]\ndata: {\"choices\":[{\"delta\":{\"content\":\"late\"}}]}\ndata: [DONE]\n",
    );
    assert_eq!(out, vec![Emission::Last(Usage::default())]);
    assert_eq!(feed(&mut state, "data: [DONE]\ndata: not json\n"), vec![]);
    assert_eq!(state.finish(), vec![]);
    assert!(state.is_finished());
    assert_eq!(state.failure(), None);
}

#[test]
fn chunk_boundaries_do_not_matter() {
    let stream = "data: {\"choices\":[{\"delta\":{\"reasoning_content\":\"th\u{e9}\"}}]}\n\ndata: {\"choices\":[{\"delta\":{\"reasoning_content\":\"ink\"}}]}\n\ndata: {\"choices\":[{\"delta\":{\"content\":\"an\"}}]}\n\ndata: {\"choices\":[{\"delta\":{\"content\":\"swer \u{4f60}\u{597d}\"}}],\"usage\":{\"completion_tokens\":4,\"prompt_tokens\":5,\"total_tokens\":9}}\n\ndata: [DONE]\n\n";
    let bytes = stream.as_bytes();
    let mut whole = OllamaBytesState::new("m".to_string());
    let expected = whole.advance(bytes);
    assert_eq!(
        expected,
        vec![
            says(Role::Assistant, "<think>"),
            says(Role::Assistant, "th\u{e9}"),
            says(Role::Assistant, "ink"),
            says(Role::Assistant, "</think>"),
            says(Role::Assistant, "an"),
            says(Role::Assistant, "swer \u{4f60}\u{597d}"),
            Emission::Last(Usage { completion_tokens: 4, prompt_tokens: 5, total_tokens: 9 }),
        ]
    );
    for size in [1usize, 2, 3, 5, 7, 11, 64] {
        let mut state = OllamaBytesState::new("m".to_string());
        let mut got = Vec::new();
        for chunk in bytes.chunks(size) {
            got.extend(state.advance(chunk));
        }
        assert_eq!(got, expected, "chunks of {} bytes", size);
        assert!(state.is_finished());
    }
}

#[test]
fn two_transcoders_emit_the_same_for_the_same_chunks() {
    let chunks: Vec<&[u8]> = vec![
        b"data: {\"choices\":[{\"delta\":{\"content\":\"<think>a\"}}]}\nda",
        b"ta: {\"choices\":[{\"delta\":{\"content\":\"b</think>c\"}}]}\n",
        b"data: [DONE]\n",
    ];
    let mut first = OllamaBytesState::new("m".to_string());
    let mut second = OllamaBytesState::new("m".to_string());
    let mut a = Vec::new();
    let mut b = Vec::new();
    for chunk in &chunks {
        a.push(first.advance(chunk));
    }
    for chunk in &chunks {
        b.push(second.advance(chunk));
    }
    assert_eq!(a, b);
    let render = |es: &Vec<Vec<Emission>>| -> Vec<String> {
        es.iter().flatten().map(|e| render_emission("m", e, "stamp".to_string(), 5)).collect()
    };
    assert_eq!(render(&a), render(&b));
    assert_eq!(a.iter().flatten().count(), 5);
}

#[test]
fn a_line_without_line_feed_waits_for_the_end_of_input() {
    let mut state = OllamaBytesState::new("m".to_string());
    assert_eq!(feed(&mut state, "data: {\"choices\":[{\"delta\":{\"content\":\"a\"}}]}\n"), vec![]);
    assert_eq!(feed(&mut state, "data: [DONE]"), vec![]);
    assert!(!state.is_finished());
    assert_eq!(state.finish(), vec![Emission::Last(Usage::default())]);
    assert!(state.is_finished());
    assert_eq!(state.failure(), None);
}

#[test]
fn end_of_input_without_marker_still_ends_with_the_done_frame() {
    let mut state = OllamaBytesState::new("m".to_string());
    feed(&mut state, "data: {\"choices\":[{\"delta\":{\"content\":\"a\"}}]}\n");
    assert_eq!(
        feed(&mut state, "data: {\"choices\":[{\"delta\":{\"content\":\"b\"}}],\"usage\":{\"completion_tokens\":1,\"prompt_tokens\":2,\"total_tokens\":3}}"),
        vec![]
    );
    assert_eq!(
        state.finish(),
        vec![
            says(Role::Assistant, "b"),
            Emission::Last(Usage { completion_tokens: 1, prompt_tokens: 2, total_tokens: 3 }),
        ]
    );
    assert!(state.is_finished());
    assert_eq!(state.failure(), None);
    assert_eq!(state.finish(), vec![]);
}

#[test]
fn a_stream_that_ends_at_once_gets_the_done_frame() {
    let mut state = OllamaBytesState::new("m".to_string());
    assert_eq!(state.finish(), vec![Emission::Last(Usage::default())]);
    assert!(state.is_finished());
    let mut state = OllamaBytesState::new("m".to_string());
    let out = state.finish_msg();
    assert_eq!(out.error, None);
    let docs = lines_of(&out.bytes);
    assert_eq!(docs.len(), 1);
    assert_eq!(docs[0].get("done"), Some(&Json::Bool(true)));
    assert_eq!(docs[0].get("eval_count"), Some(&Json::Number(Number::Unsigned(0))));
    let out = state.finish_msg();
    assert_eq!(out.bytes, Vec::<u8>::new());
    assert_eq!(out.error, None);
}

#[test]
fn every_stream_that_does_not_fail_has_exactly_one_done_frame_at_its_end() {
    let streams = [
        "",
        "\n\n",
        ": comment\n",
        "data: [DONE]\n",
        "data: [DONE]",
        "data: {\"choices\":[{\"delta\":{\"content\":\"a\"}}]}\n",
        "data: {\"choices\":[{\"delta\":{\"content\":\"a\"}}]}\ndata: {\"choices\":[{\"delta\":{\"content\":\"b\"}}]}",
        "data: {\"choices\":[{\"delta\":{\"reasoning_content\":\"r\"}}]}\n",
        "data: {\"choices\":[{\"delta\":{\"content\":\"<think>x\"}}]}\ndata: [DONE]\ndata: more\n",
    ];
    for stream in streams {
        for size in [1usize, 3, 1000] {
            let mut state = OllamaBytesState::new("m".to_string());
            let mut all = Vec::new();
            for chunk in stream.as_bytes().chunks(size) {
                all.extend(state.advance(chunk));
            }
            all.extend(state.finish());
            assert_eq!(state.failure(), None, "stream {:?}", stream);
            let last = all.iter().filter(|e| matches!(e, Emission::Last(_))).count();
            assert_eq!(last, 1, "stream {:?}", stream);
            assert!(matches!(all.last(), Some(Emission::Last(_))), "stream {:?}", stream);
        }
    }
}

#[test]
fn a_stream_that_fails_has_no_done_frame() {
    for stream in ["data: oops\n", "data: oops", "data: {\"choices\":[]}"] {
        let mut state = OllamaBytesState::new("m".to_string());
        let mut all = state.advance(stream.as_bytes());
        all.extend(state.finish());
        assert!(state.failure().is_some(), "stream {:?}", stream);
        assert_eq!(all, vec![], "stream {:?}", stream);
    }
}

#[test]
fn an_event_is_taken_as_the_state_table_says() {
    let mut state = OllamaBytesState::new("m".to_string());
    let mut out = Vec::new();
    let usage = Usage { completion_tokens: 1, prompt_tokens: 2, total_tokens: 3 };
    let event = |content: &str, usage: Option<Usage>| ApiResponse {
        choices: vec![Choice { delta: delta(content, None) }],
        usage,
    };
    state.on_event(&event("a", Some(usage)), &mut out);
    assert_eq!(state.status(), ChatRespStatus::ThinkFinished);
    assert_eq!(out, vec![]);
    state.on_event(&event("b", None), &mut out);
    assert_eq!(out, vec![says(Role::Assistant, "b")]);
    state.on_event(&event("c", Some(usage)), &mut out);
    assert_eq!(out, vec![says(Role::Assistant, "b"), says(Role::Assistant, "c")]);
    assert_eq!(state.finish(), vec![Emission::Last(usage)]);
    state.on_event(&event("late", None), &mut out);
    assert_eq!(out.len(), 2);
    let mut state = OllamaBytesState::new("m".to_string());
    let mut out = vec![says(Role::User, "kept")];
    state.on_event(&ApiResponse { choices: vec![], usage: Some(usage) }, &mut out);
    assert_eq!(out, vec![says(Role::User, "kept")]);
    assert_eq!(state.failure(), Some(AppError::EmptyChoices));
    assert!(state.is_finished());
}

#[test]
fn malformed_json_fails_the_stream() {
    let mut state = OllamaBytesState::new("m".to_string());
    let out = feed(
        &mut state,
        "data: {\"choices\":[{\"delta\":{\"content\":\"a\"}}]}\ndata: {\"choices\":[{\"delta\":{\"content\":\"b\"}}]}\ndata: {not json}\ndata: {\"choices\":[{\"delta\":{\"content\":\"c\"}}]}\n",
    );
    assert_eq!(out, vec![says(Role::Assistant, "b")]);
    assert!(state.is_finished());
    assert_eq!(state.failure(), Some(AppError::MalformedPayload));
    assert_eq!(feed(&mut state, "data: [DONE]\n"), vec![]);
}

#[test]
fn an_event_without_choices_fails_the_stream() {
    let mut state = OllamaBytesState::new("m".to_string());
    assert_eq!(feed(&mut state, "data: {\"choices\":[]}\n"), vec![]);
    assert_eq!(state.failure(), Some(AppError::EmptyChoices));
    assert!(state.is_finished());
}

#[test]
fn events_of_the_wrong_shape_fail_the_stream() {
    for payload in [
        "{}",
        "[]",
        "7",
        "{\"choices\":null}",
        "{\"choices\":{}}",
        "{\"choices\":[{}]}",
        "{\"choices\":[{\"delta\":null}]}",
        "{\"choices\":[{\"delta\":[]}]}",
        "{\"choices\":[{\"delta\":{},\"message\":{}}]}",
        "{\"choices\":[{\"delta\":{\"content\":7}}]}",
        "{\"choices\":[{\"delta\":{\"reasoning_content\":false}}]}",
        "{\"choices\":[{\"delta\":{\"role\":\"robot\"}}]}",
        "{\"choices\":[{\"delta\":{\"role\":null}}]}",
        "{\"choices\":[{\"delta\":{\"content\":\"ok\"}},{\"delta\":7}]}",
        "{\"choices\":[{\"delta\":{}}],\"usage\":{}}",
        "{\"choices\":[{\"delta\":{}}],\"usage\":{\"completion_tokens\":1,\"prompt_tokens\":2}}",
        "{\"choices\":[{\"delta\":{}}],\"usage\":{\"completion_tokens\":-1,\"prompt_tokens\":2,\"total_tokens\":3}}",
        "{\"choices\":[{\"delta\":{}}],\"usage\":{\"completion_tokens\":1.0,\"prompt_tokens\":2,\"total_tokens\":3}}",
        "{\"choices\":[{\"delta\":{}}],\"usage\":{\"completion_tokens\":4294967296,\"prompt_tokens\":2,\"total_tokens\":3}}",
    ] {
        let mut state = OllamaBytesState::new("m".to_string());
        assert_eq!(feed(&mut state, &format!("data: {}\n", payload)), vec![], "payload {}", payload);
        assert_eq!(state.failure(), Some(AppError::MalformedPayload), "payload {}", payload);
    }
}

#[test]
fn events_with_missing_or_null_members_are_read() {
    for payload in [
        "{\"choices\":[{\"delta\":{}}]}",
        "{\"choices\":[{\"delta\":{\"content\":null,\"reasoning_content\":null}}],\"usage\":null}",
        "{\"choices\":[{\"delta\":{\"content\":\"\"},\"index\":\"zero\",\"finish_reason\":7}],\"id\":1,\"created\":\"now\"}",
        "{\"choices\":[{\"delta\":{}}],\"usage\":{\"completion_tokens\":4294967295,\"prompt_tokens\":0,\"total_tokens\":1,\"extra\":{}}}",
    ] {
        let mut state = OllamaBytesState::new("m".to_string());
        assert_eq!(feed(&mut state, &format!("data: {}\n", payload)), vec![], "payload {}", payload);
        assert_eq!(state.failure(), None, "payload {}", payload);
        assert_eq!(state.status(), ChatRespStatus::Init, "payload {}", payload);
    }
}

#[test]
fn bytes_that_are_not_utf8_are_replaced() {
    let mut state = OllamaBytesState::new("m".to_string());
    feed(&mut state, "data: {\"choices\":[{\"delta\":{\"content\":\"a\"}}]}\n");
    let mut chunk = b"data: {\"choices\":[{\"delta\":{\"content\":\"x".to_vec();
    chunk.push(0xFF);
    chunk.extend_from_slice(b"y\"}}]}\n");
    let out = state.advance(&chunk);
    assert_eq!(out, vec![says(Role::Assistant, "x\u{fffd}y")]);
}

#[test]
fn process_msg_writes_one_line_for_each_frame() {
    let mut state = OllamaBytesState::new("qwen".to_string());
    let out = state.process_msg(
        b"data: {\"choices\":[{\"delta\":{\"reasoning_content\":\"why\"}}]}\n\ndata: {\"choices\":[{\"delta\":{\"content\":\"so\"}}],\"usage\":{\"completion_tokens\":2,\"prompt_tokens\":3,\"total_tokens\":5}}\n\n",
    );
    assert_eq!(out.error, None);
    let docs = lines_of(&out.bytes);
    assert_eq!(docs.len(), 4);
    let contents: Vec<String> = docs.iter().map(content_of).collect();
    assert_eq!(contents, vec!["<think>", "why", "</think>", "so"]);
    for doc in &docs {
        assert_eq!(doc.get("model"), Some(&Json::Str("qwen".to_string())));
        assert_eq!(doc.get("done"), Some(&Json::Bool(false)));
        assert_eq!(doc.get("eval_count"), None);
        assert_eq!(doc.get("done_reason"), None);
    }
    let out = state.process_msg(b"data: [DONE]\n\n");
    assert_eq!(out.error, None);
    let docs = lines_of(&out.bytes);
    assert_eq!(docs.len(), 1);
    assert_eq!(docs[0].get("done"), Some(&Json::Bool(true)));
    assert_eq!(docs[0].get("done_reason"), Some(&Json::Str("stop".to_string())));
    assert_eq!(docs[0].get("eval_count"), Some(&Json::Number(Number::Unsigned(2))));
    assert_eq!(docs[0].get("prompt_eval_count"), Some(&Json::Number(Number::Unsigned(3))));
    assert_eq!(docs[0].get("total_duration"), Some(&Json::Number(Number::Unsigned(5))));
    assert!(matches!(docs[0].get("eval_duration"), Some(Json::Number(Number::Unsigned(_)))));
    let out = state.process_msg(b"data: [DONE]\n\n");
    assert_eq!(out.bytes, Vec::<u8>::new());
    assert_eq!(out.error, None);
}

#[test]
fn process_msg_returns_the_lines_before_a_failure_and_the_failure_once() {
    let mut state = OllamaBytesState::new("m".to_string());
    state.process_msg(b"data: {\"choices\":[{\"delta\":{\"content\":\"a\"}}]}\n");
    let out = state.process_msg(b"data: {\"choices\":[{\"delta\":{\"content\":\"b\"}}]}\ndata: oops\n");
    assert_eq!(lines_of(&out.bytes).iter().map(content_of).collect::<Vec<_>>(), vec!["b"]);
    assert_eq!(out.error, Some(AppError::MalformedPayload));
    let out = state.process_msg(b"data: [DONE]\n");
    assert_eq!(out.bytes, Vec::<u8>::new());
    assert_eq!(out.error, None);
    assert_eq!(state.failure(), Some(AppError::MalformedPayload));
}

#[test]
fn rendering_is_exact_for_a_given_stamp() {
    let line = render_emission("m", &says(Role::Assistant, "x\"y"), "T".to_string(), 9);
    assert_eq!(
        line,
        r#"{"model":"m","created_at":"T","message":{"role":"assistant","content":"x\"y"},"done":false}"#
    );
    let last = Emission::Last(Usage { completion_tokens: 1, prompt_tokens: 2, total_tokens: 3 });
    assert_eq!(
        render_emission("m", &last, "T".to_string(), 9),
        r#"{"model":"m","created_at":"T","message":{"role":"user","content":""},"done":true,"done_reason":"stop","total_duration":3,"load_duration":0,"prompt_eval_count":2,"prompt_eval_duration":0,"eval_count":1,"eval_duration":9}"#
    );
}

#[test]
fn long_answers_are_bracketed_alike_inline_and_in_the_side_channel() {
    let thinking = ["first", "", "second </thin", "third"];
    let answer = ["", "The ", "answer", ""];
    let mut inline = Vec::new();
    let mut side = Vec::new();
    for (i, t) in thinking.iter().enumerate() {
        inline.push(delta(&if i == 0 { format!("<think>{}", t) } else { t.to_string() }, None));
        side.push(delta("", Some(t)));
    }
    for (i, a) in answer.iter().enumerate() {
        inline.push(delta(&if i == 0 { format!("</think>{}", a) } else { a.to_string() }, None));
        side.push(delta(a, None));
    }
    let run_all = |deltas: &Vec<Delta>| -> (ChatRespStatus, Vec<Emission>) {
        let mut status = ChatRespStatus::Init;
        let mut out = Vec::new();
        for d in deltas {
            status = step(status, d, &mut out);
        }
        (status, out)
    };
    let expected = vec![
        says(Role::Assistant, "<think>"),
        says(Role::Assistant, "first"),
        says(Role::Assistant, ""),
        says(Role::Assistant, "second </thin"),
        says(Role::Assistant, "third"),
        says(Role::Assistant, "</think>"),
        says(Role::Assistant, "The "),
        says(Role::Assistant, "answer"),
        says(Role::Assistant, ""),
    ];
    assert_eq!(run_all(&inline), (ChatRespStatus::ThinkFinished, expected));
    assert_eq!(run_all(&inline), run_all(&side));
}
