use uni_llm_api::convert::{assemble_content, convert_response, process_non_streaming};
use uni_llm_api::emission::Emission;
use uni_llm_api::error::AppError;
use uni_llm_api::gemini::{concat_parts, Candidate, GeminiResponse, UsageMetadata};
use uni_llm_api::gemini_stream::ChatRespStatus;
use uni_llm_api::json::{parse, Json, Number};
use uni_llm_api::message::{DoneReason, RespMessage, Role};
use uni_llm_api::upstream::{ApiResponse, Choice, Delta, Usage};

fn delta(content: &str, reasoning: Option<&str>, role: Role) -> Delta {
    Delta { content: content.to_string(), reasoning_content: reasoning.map(|r| r.to_string()), role }
}

fn says(content: &str) -> Emission {
    Emission::Message(RespMessage::plain(Role::Assistant, content.to_string()))
}

#[test]
fn whole_answer_is_one_done_frame_with_the_usage() {
    let resp = ApiResponse {
        choices: vec![
            Choice { delta: delta("hello", None, Role::Assistant) },
            Choice { delta: delta("second", None, Role::User) },
        ],
        usage: Some(Usage { completion_tokens: 3, prompt_tokens: 4, total_tokens: 7 }),
    };
    let frame = convert_response("m", &resp, "T".to_string()).expect("a frame");
    assert!(frame.done);
    assert_eq!(frame.done_reason, Some(DoneReason::Stop));
    assert_eq!(frame.model, "m");
    assert_eq!(frame.created_at, "T");
    assert_eq!(frame.message, RespMessage::plain(Role::Assistant, "hello".to_string()));
    assert_eq!(frame.total_duration, Some(7));
    assert_eq!(frame.prompt_eval_count, Some(4));
    assert_eq!(frame.eval_count, Some(3));
    assert_eq!(frame.load_duration, Some(0));
    assert_eq!(frame.prompt_eval_duration, Some(0));
    assert_eq!(frame.eval_duration, Some(0));
    assert_eq!(
        frame.to_line(),
        r#"{"model":"m","created_at":"T","message":{"role":"assistant","content":"hello"},"done":true,"done_reason":"stop","total_duration":7,"load_duration":0,"prompt_eval_count":4,"prompt_eval_duration":0,"eval_count":3,"eval_duration":0}"#
    );
}

#[test]
fn whole_answer_without_usage_reports_zero() {
    let resp = ApiResponse { choices: vec![Choice { delta: delta("x", None, Role::Tool) }], usage: None };
    let frame = convert_response("m", &resp, "T".to_string()).expect("a frame");
    assert!(frame.done);
    assert_eq!(frame.message.role, Role::Tool);
    assert_eq!(frame.total_duration, Some(0));
    assert_eq!(frame.prompt_eval_count, Some(0));
    assert_eq!(frame.eval_count, Some(0));
}

#[test]
fn whole_answer_without_choices_is_refused() {
    let resp = ApiResponse { choices: vec![], usage: None };
    assert_eq!(convert_response("m", &resp, "T".to_string()), Err(AppError::EmptyChoices));
    assert_eq!(process_non_streaming("m", r#"{"choices":[]}"#), Err(AppError::EmptyChoices));
}

#[test]
fn reasoning_is_wrapped_in_think_tags() {
    assert_eq!(
        assemble_content(&delta("42", Some("6 times 7"), Role::Assistant)),
        "<think>\n6 times 7</think>\n42"
    );
    assert_eq!(assemble_content(&delta("42", Some(""), Role::Assistant)), "42");
    assert_eq!(assemble_content(&delta("42", None, Role::Assistant)), "42");
    assert_eq!(assemble_content(&delta("", Some("r"), Role::Assistant)), "<think>\nr</think>\n");
    assert_eq!(assemble_content(&delta("", None, Role::Assistant)), "");
}

#[test]
fn body_of_a_whole_answer_becomes_the_text_of_one_frame() {
    let body = r#"{"id":"1","object":"chat.completion","choices":[{"index":0,"message":{"role":"assistant","content":"hi","reasoning_content":"hm"},"finish_reason":"stop"}],"usage":{"prompt_tokens":9,"completion_tokens":2,"total_tokens":11}}"#;
    let text = process_non_streaming("m", body).expect("a frame");
    let doc = parse(&text).expect("a document");
    assert_eq!(doc.get("done"), Some(&Json::Bool(true)));
    assert_eq!(doc.get("model"), Some(&Json::Str("m".to_string())));
    assert_eq!(
        doc.get("message").and_then(|m| m.get("content")),
        Some(&Json::Str("<think>\nhm</think>\nhi".to_string()))
    );
    assert_eq!(doc.get("prompt_eval_count"), Some(&Json::Number(Number::Unsigned(9))));
    assert_eq!(doc.get("eval_count"), Some(&Json::Number(Number::Unsigned(2))));
    assert_eq!(doc.get("total_duration"), Some(&Json::Number(Number::Unsigned(11))));
    assert_eq!(doc.get("eval_duration"), Some(&Json::Number(Number::Unsigned(0))));
    assert!(!text.contains('\n'));
}

#[test]
fn bodies_that_cannot_be_read_are_refused() {
    for body in ["", "<html>", "{}", r#"{"choices":7}"#, r#"{"choices":[{"delta":{"role":"x"}}]}"#] {
        assert_eq!(process_non_streaming("m", body), Err(AppError::MalformedPayload), "body {}", body);
    }
}

#[test]
fn grouped_answer_is_read_from_its_document() {
    let doc = parse(r#"{"candidates":[{"content":{"parts":[{"text":"a"},{"text":"b"}],"role":"model"},"finishReason":"STOP"},{"content":{"parts":[]}}],"usageMetadata":{"promptTokenCount":5,"candidatesTokenCount":3,"totalTokenCount":8},"modelVersion":"v"}"#).expect("a document");
    assert_eq!(
        GeminiResponse::from_json(&doc),
        Some(GeminiResponse {
            candidates: vec![
                Candidate { parts: vec!["a".to_string(), "b".to_string()], finish_reason: Some("STOP".to_string()) },
                Candidate { parts: vec![], finish_reason: None },
            ],
            usage_metadata: UsageMetadata { prompt_token_count: 5, total_token_count: 8 },
        })
    );
    for text in [
        "{}",
        r#"{"candidates":[]}"#,
        r#"{"usageMetadata":{"promptTokenCount":1,"totalTokenCount":2}}"#,
        r#"{"candidates":{},"usageMetadata":{"promptTokenCount":1,"totalTokenCount":2}}"#,
        r#"{"candidates":[{}],"usageMetadata":{"promptTokenCount":1,"totalTokenCount":2}}"#,
        r#"{"candidates":[{"content":{}}],"usageMetadata":{"promptTokenCount":1,"totalTokenCount":2}}"#,
        r#"{"candidates":[{"content":{"parts":[{}]}}],"usageMetadata":{"promptTokenCount":1,"totalTokenCount":2}}"#,
        r#"{"candidates":[{"content":{"parts":[{"text":7}]}}],"usageMetadata":{"promptTokenCount":1,"totalTokenCount":2}}"#,
        r#"{"candidates":[{"content":{"parts":[]},"finishReason":7}],"usageMetadata":{"promptTokenCount":1,"totalTokenCount":2}}"#,
        r#"{"candidates":[],"usageMetadata":{"promptTokenCount":1}}"#,
        r#"{"candidates":[],"usageMetadata":{"promptTokenCount":-1,"totalTokenCount":2}}"#,
        r#"{"candidates":[],"usageMetadata":null}"#,
    ] {
        assert_eq!(GeminiResponse::from_json(&parse(text).expect("a document")), None, "text {}", text);
    }
}

#[test]
fn grouped_usage_is_reported_in_32_bits() {
    let usage = UsageMetadata { prompt_token_count: 5, total_token_count: 8 };
    assert_eq!(usage.reported(), Usage { completion_tokens: 8, prompt_tokens: 5, total_tokens: 0 });
    let big = UsageMetadata { prompt_token_count: 4294967296 + 7, total_token_count: u64::MAX };
    assert_eq!(big.reported(), Usage { completion_tokens: u32::MAX, prompt_tokens: 7, total_tokens: 0 });
}

#[test]
fn grouped_whole_answer_joins_the_parts_of_the_first_candidate() {
    assert_eq!(concat_parts(&vec!["a".to_string(), "".to_string(), "bc".to_string()]), "abc");
    assert_eq!(concat_parts(&vec![]), "");
    let body = r#"{"candidates":[{"content":{"parts":[{"text":"Hel"},{"text":"lo"}],"role":"model"},"finishReason":"STOP"}],"usageMetadata":{"promptTokenCount":5,"totalTokenCount":8},"modelVersion":"v"}"#;
    let text = uni_llm_api::gemini::process_non_streaming("g", body).expect("a frame");
    let doc = parse(&text).expect("a document");
    assert_eq!(doc.get("done"), Some(&Json::Bool(true)));
    assert_eq!(doc.get("message").and_then(|m| m.get("role")), Some(&Json::Str("assistant".to_string())));
    assert_eq!(doc.get("message").and_then(|m| m.get("content")), Some(&Json::Str("Hello".to_string())));
    assert_eq!(doc.get("eval_count"), Some(&Json::Number(Number::Unsigned(8))));
    assert_eq!(doc.get("prompt_eval_count"), Some(&Json::Number(Number::Unsigned(5))));
    assert_eq!(doc.get("total_duration"), Some(&Json::Number(Number::Unsigned(0))));
    assert_eq!(doc.get("eval_duration"), Some(&Json::Number(Number::Unsigned(0))));
    assert_eq!(
        uni_llm_api::gemini::process_non_streaming("g", r#"{"candidates":[],"usageMetadata":{"promptTokenCount":5,"totalTokenCount":8}}"#),
        Err(AppError::EmptyChoices)
    );
    assert_eq!(uni_llm_api::gemini::process_non_streaming("g", "nope"), Err(AppError::MalformedPayload));
    let frame = uni_llm_api::gemini::convert_response(
        "g",
        &GeminiResponse {
            candidates: vec![Candidate { parts: vec![], finish_reason: None }],
            usage_metadata: UsageMetadata { prompt_token_count: 1, total_token_count: 2 },
        },
        "T".to_string(),
    )
    .expect("a frame");
    assert_eq!(
        frame.to_line(),
        r#"{"model":"g","created_at":"T","message":{"role":"assistant","content":""},"done":true,"done_reason":"stop","total_duration":0,"load_duration":0,"prompt_eval_count":1,"prompt_eval_duration":0,"eval_count":2,"eval_duration":0}"#
    );
}

fn event(text: &str, finish: Option<&str>) -> String {
    let finish = match finish {
        Some(f) => format!(",\"finishReason\":\"{}\"", f),
        None => String::new(),
    };
    format!(
        "data: {{\"candidates\":[{{\"content\":{{\"parts\":[{{\"text\":\"{}\"}}],\"role\":\"model\"}}{}}}],\"usageMetadata\":{{\"promptTokenCount\":4,\"totalTokenCount\":10}},\"modelVersion\":\"v\"}}\r\n\r\n",
        text, finish
    )
}

#[test]
fn grouped_stream_emits_one_message_for_each_event_and_ends_on_a_finish_reason() {
    let mut state = uni_llm_api::gemini_stream::OllamaBytesState::new("g".to_string());
    assert_eq!(state.status(), ChatRespStatus::Chatting);
    assert_eq!(state.advance(event("Hel", None).as_bytes()), vec![says("Hel")]);
    assert_eq!(state.status(), ChatRespStatus::Chatting);
    assert_eq!(
        state.advance(event("lo", Some("STOP")).as_bytes()),
        vec![says("lo"), Emission::Last(Usage { completion_tokens: 10, prompt_tokens: 4, total_tokens: 0 })]
    );
    assert_eq!(state.status(), ChatRespStatus::ChatFinished);
    assert!(state.is_finished());
    assert_eq!(state.advance(event("late", None).as_bytes()), vec![]);
    assert_eq!(state.finish(), vec![]);
    assert_eq!(state.failure(), None);
}

#[test]
fn grouped_stream_does_not_depend_on_chunk_boundaries() {
    let stream = format!("{}{}{}", event("a", None), event("b\u{e9}", None), event("c", Some("MAX_TOKENS")));
    let mut whole = uni_llm_api::gemini_stream::OllamaBytesState::new("g".to_string());
    let expected = whole.advance(stream.as_bytes());
    assert_eq!(expected.len(), 4);
    for size in [1usize, 4, 9, 100] {
        let mut state = uni_llm_api::gemini_stream::OllamaBytesState::new("g".to_string());
        let mut got = Vec::new();
        for chunk in stream.as_bytes().chunks(size) {
            got.extend(state.advance(chunk));
        }
        assert_eq!(got, expected, "chunks of {} bytes", size);
    }
}

#[test]
fn grouped_stream_fails_on_what_it_cannot_read() {
    let cases = [
        ("data: nope\n", AppError::MalformedPayload),
        ("data: [DONE]\n", AppError::MalformedPayload),
        ("data: {\"candidates\":[]}\n", AppError::MalformedPayload),
        ("data: {\"candidates\":[],\"usageMetadata\":{\"promptTokenCount\":1,\"totalTokenCount\":2}}\n", AppError::EmptyChoices),
        ("data: {\"candidates\":[{\"content\":{\"parts\":[]}}],\"usageMetadata\":{\"promptTokenCount\":1,\"totalTokenCount\":2}}\n", AppError::EmptyChoices),
    ];
    for (input, error) in cases {
        let mut state = uni_llm_api::gemini_stream::OllamaBytesState::new("g".to_string());
        let mut first = event("ok", None);
        first.push_str(input);
        let out = state.process_msg(first.as_bytes());
        assert_eq!(out.error, Some(error.clone()), "input {}", input);
        let text = String::from_utf8(out.bytes).expect("utf-8");
        assert_eq!(text.lines().count(), 1, "input {}", input);
        assert!(state.is_finished());
        assert_eq!(state.failure(), Some(error));
        let out = state.process_msg(event("late", None).as_bytes());
        assert_eq!(out.bytes, Vec::<u8>::new());
        assert_eq!(out.error, None);
    }
}

#[test]
fn grouped_stream_writes_lines_with_the_last_frame_at_the_end() {
    let mut state = uni_llm_api::gemini_stream::OllamaBytesState::new("g".to_string());
    let mut input = event("x", None);
    input.push_str(": comment\n");
    input.push_str(&event("y", Some("STOP")));
    let out = state.process_msg(input.as_bytes());
    assert_eq!(out.error, None);
    let text = String::from_utf8(out.bytes).expect("utf-8");
    let docs: Vec<Json> = text.lines().map(|l| parse(l).expect("a document")).collect();
    assert_eq!(docs.len(), 3);
    assert_eq!(docs[0].get("done"), Some(&Json::Bool(false)));
    assert_eq!(docs[1].get("done"), Some(&Json::Bool(false)));
    assert_eq!(docs[2].get("done"), Some(&Json::Bool(true)));
    assert_eq!(docs[2].get("eval_count"), Some(&Json::Number(Number::Unsigned(10))));
    assert_eq!(docs[2].get("prompt_eval_count"), Some(&Json::Number(Number::Unsigned(4))));
    match docs[2].get("eval_duration") {
        Some(Json::Number(Number::Unsigned(ms))) => assert!(*ms >= 1),
        other => panic!("no duration: {:?}", other),
    }
}

#[test]
fn grouped_last_line_reports_the_usage_and_the_duration() {
    let usage = UsageMetadata { prompt_token_count: 6, total_token_count: 15 };
    let doc = parse(&uni_llm_api::gemini::gen_last_ollama_message("g", usage, 41)).expect("a document");
    assert_eq!(doc.get("model"), Some(&Json::Str("g".to_string())));
    assert_eq!(doc.get("done"), Some(&Json::Bool(true)));
    assert_eq!(doc.get("done_reason"), Some(&Json::Str("stop".to_string())));
    assert_eq!(doc.get("eval_count"), Some(&Json::Number(Number::Unsigned(15))));
    assert_eq!(doc.get("prompt_eval_count"), Some(&Json::Number(Number::Unsigned(6))));
    assert_eq!(doc.get("total_duration"), Some(&Json::Number(Number::Unsigned(0))));
    assert_eq!(doc.get("eval_duration"), Some(&Json::Number(Number::Unsigned(41))));
    assert_eq!(doc.get("message").and_then(|m| m.get("content")), Some(&Json::Str(String::new())));
}

#[test]
fn grouped_stream_without_finish_reason_still_ends_with_the_done_frame() {
    let mut state = uni_llm_api::gemini_stream::OllamaBytesState::new("g".to_string());
    assert_eq!(state.advance(event("a", None).as_bytes()), vec![says("a")]);
    assert_eq!(
        state.finish(),
        vec![Emission::Last(Usage { completion_tokens: 10, prompt_tokens: 4, total_tokens: 0 })]
    );
    assert!(state.is_finished());
    assert_eq!(state.failure(), None);
    assert_eq!(state.finish(), vec![]);
    let mut empty = uni_llm_api::gemini_stream::OllamaBytesState::new("g".to_string());
    let out = empty.finish_msg();
    assert_eq!(out.error, None);
    let text = String::from_utf8(out.bytes).expect("utf-8");
    let docs: Vec<Json> = text.lines().map(|l| parse(l).expect("a document")).collect();
    assert_eq!(docs.len(), 1);
    assert_eq!(docs[0].get("done"), Some(&Json::Bool(true)));
    assert_eq!(docs[0].get("eval_count"), Some(&Json::Number(Number::Unsigned(0))));
    let mut failed = uni_llm_api::gemini_stream::OllamaBytesState::new("g".to_string());
    failed.advance(b"data: nope");
    assert_eq!(failed.finish(), vec![]);
    assert_eq!(failed.failure(), Some(AppError::MalformedPayload));
}

#[test]
fn grouped_event_is_taken_apart_from_its_line() {
    let mut state = uni_llm_api::gemini_stream::OllamaBytesState::new("g".to_string());
    let mut out = Vec::new();
    let resp = |text: &str, finish: Option<&str>| GeminiResponse {
        candidates: vec![Candidate {
            parts: vec![text.to_string(), "second".to_string()],
            finish_reason: finish.map(|f| f.to_string()),
        }],
        usage_metadata: UsageMetadata { prompt_token_count: 2, total_token_count: 5 },
    };
    state.on_event(&resp("a", None), &mut out);
    assert_eq!(out, vec![says("a")]);
    assert_eq!(state.status(), ChatRespStatus::Chatting);
    state.on_event(&resp("b", Some("STOP")), &mut out);
    assert_eq!(
        out,
        vec![says("a"), says("b"), Emission::Last(Usage { completion_tokens: 5, prompt_tokens: 2, total_tokens: 0 })]
    );
    assert!(state.is_finished());
    state.on_event(&resp("late", None), &mut out);
    assert_eq!(out.len(), 3);
    let mut state = uni_llm_api::gemini_stream::OllamaBytesState::new("g".to_string());
    let mut out = Vec::new();
    state.on_event(
        &GeminiResponse {
            candidates: vec![Candidate { parts: vec![], finish_reason: None }],
            usage_metadata: UsageMetadata { prompt_token_count: 2, total_token_count: 5 },
        },
        &mut out,
    );
    assert_eq!(out, vec![]);
    assert_eq!(state.failure(), Some(AppError::EmptyChoices));
}
