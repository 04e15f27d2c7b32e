use uni_llm_api::clock::reduce_millis;
use uni_llm_api::json::{parse, Json, Number};
use uni_llm_api::message::{
    default_chat_resp_role, gen_last_message, gen_ollama_message, gen_ollama_think_end_message,
    gen_ollama_think_start_message, DoneReason, OllamaChatResponse, RespMessage, Role,
};
use uni_llm_api::upstream::Usage;

const STAMP: &str = "2025-02-08T15:55:15.184570900+08:00";

fn text_of(doc: &Json, path: &[&str]) -> String {
    let mut at = doc;
    for key in path {
        at = at.get(key).unwrap_or_else(|| panic!("no member {}", key));
    }
    match at {
        Json::Str(s) => s.clone(),
        other => panic!("not a text: {:?}", other),
    }
}

#[test]
fn delta_frame_has_its_exact_wire_form() {
    let frame = OllamaChatResponse::delta(
        "qwen",
        RespMessage::plain(Role::Assistant, "The".to_string()),
        STAMP.to_string(),
    );
    assert_eq!(
        frame.to_line(),
        r#"{"model":"qwen","created_at":"2025-02-08T15:55:15.184570900+08:00","message":{"role":"assistant","content":"The"},"done":false}"#
    );
}

#[test]
fn last_frame_has_its_exact_wire_form() {
    let usage = Usage { completion_tokens: 5, prompt_tokens: 7, total_tokens: 12 };
    let frame = OllamaChatResponse::last("qwen", None, &usage, 321, STAMP.to_string());
    assert_eq!(
        frame.to_line(),
        r#"{"model":"qwen","created_at":"2025-02-08T15:55:15.184570900+08:00","message":{"role":"user","content":""},"done":true,"done_reason":"stop","total_duration":12,"load_duration":0,"prompt_eval_count":7,"prompt_eval_duration":0,"eval_count":5,"eval_duration":321}"#
    );
}

#[test]
fn last_frame_with_a_message_carries_it() {
    let usage = Usage { completion_tokens: 1, prompt_tokens: 2, total_tokens: 3 };
    let message = RespMessage::plain(Role::Assistant, "done".to_string());
    let frame = OllamaChatResponse::last("m", Some(message), &usage, 0, "t".to_string());
    assert_eq!(
        frame.to_line(),
        r#"{"model":"m","created_at":"t","message":{"role":"assistant","content":"done"},"done":true,"done_reason":"stop","total_duration":3,"load_duration":0,"prompt_eval_count":2,"prompt_eval_duration":0,"eval_count":1,"eval_duration":0}"#
    );
}

#[test]
fn absent_fields_are_left_out_and_images_are_written_when_present() {
    let message = RespMessage {
        role: Role::Tool,
        content: "c".to_string(),
        images: Some("img".to_string()),
    };
    let frame = OllamaChatResponse::delta("m", message, "t".to_string());
    let line = frame.to_line();
    assert_eq!(
        line,
        r#"{"model":"m","created_at":"t","message":{"role":"tool","content":"c","images":"img"},"done":false}"#
    );
    assert!(!line.contains("null"));
    assert!(!line.contains("done_reason"));
    assert!(!line.contains("eval_count"));
}

#[test]
fn blank_frame_is_empty_and_not_done() {
    let frame = OllamaChatResponse::blank("t".to_string());
    assert_eq!(frame.model, "");
    assert_eq!(frame.created_at, "t");
    assert_eq!(frame.message, RespMessage { role: Role::User, content: String::new(), images: None });
    assert!(!frame.done);
    assert_eq!(frame.done_reason, None);
    assert_eq!(frame.total_duration, None);
    assert_eq!(frame.load_duration, None);
    assert_eq!(frame.prompt_eval_count, None);
    assert_eq!(frame.prompt_eval_duration, None);
    assert_eq!(frame.eval_count, None);
    assert_eq!(frame.eval_duration, None);
}

#[test]
fn default_frame_is_blank_with_a_fresh_stamp() {
    let frame = OllamaChatResponse::default();
    assert!(frame.created_at.len() >= 20);
    assert_eq!(&frame.created_at[4..5], "-");
    assert_eq!(&frame.created_at[10..11], "T");
    assert_eq!(frame, OllamaChatResponse::blank(frame.created_at.clone()));
}

#[test]
fn setters_change_what_they_name() {
    let mut frame = OllamaChatResponse::blank("t".to_string());
    frame.add_modle_and_message("m", RespMessage::plain(Role::System, "s".to_string()));
    assert_eq!(frame.model, "m");
    assert_eq!(frame.message, RespMessage::plain(Role::System, "s".to_string()));
    frame.fill_option();
    assert_eq!(frame.done_reason, Some(DoneReason::Stop));
    assert_eq!(frame.total_duration, Some(0));
    assert_eq!(frame.load_duration, Some(0));
    assert_eq!(frame.prompt_eval_count, Some(0));
    assert_eq!(frame.prompt_eval_duration, Some(0));
    assert_eq!(frame.eval_count, Some(0));
    assert_eq!(frame.eval_duration, Some(0));
    frame.add_usage(&Usage { completion_tokens: 11, prompt_tokens: 22, total_tokens: 33 });
    assert_eq!(frame.total_duration, Some(33));
    assert_eq!(frame.prompt_eval_count, Some(22));
    assert_eq!(frame.eval_count, Some(11));
    assert_eq!(frame.load_duration, Some(0));
    assert!(!frame.done);
}

#[test]
fn generated_lines_are_whole_documents_with_a_stamp() {
    let line = gen_ollama_message("m", RespMessage::plain(Role::User, "hello".to_string()));
    let doc = parse(&line).expect("a document");
    assert_eq!(text_of(&doc, &["model"]), "m");
    assert_eq!(text_of(&doc, &["message", "role"]), "user");
    assert_eq!(text_of(&doc, &["message", "content"]), "hello");
    assert_eq!(doc.get("done"), Some(&Json::Bool(false)));
    assert!(!text_of(&doc, &["created_at"]).is_empty());
    assert_eq!(doc.get("eval_count"), None);
}

#[test]
fn think_markers_speak_as_the_assistant() {
    let start = parse(&gen_ollama_think_start_message("m")).expect("a document");
    assert_eq!(text_of(&start, &["message", "role"]), "assistant");
    assert_eq!(text_of(&start, &["message", "content"]), "<think>");
    assert_eq!(start.get("done_reason"), None);
    let end = parse(&gen_ollama_think_end_message("m")).expect("a document");
    assert_eq!(text_of(&end, &["message", "role"]), "assistant");
    assert_eq!(text_of(&end, &["message", "content"]), "</think>");
    assert_eq!(end.get("total_duration"), None);
}

#[test]
fn generated_last_line_is_done_with_the_usage() {
    let usage = Usage { completion_tokens: 4, prompt_tokens: 9, total_tokens: 13 };
    let doc = parse(&gen_last_message("m", None, &usage, 77)).expect("a document");
    assert_eq!(doc.get("done"), Some(&Json::Bool(true)));
    assert_eq!(text_of(&doc, &["done_reason"]), "stop");
    assert_eq!(doc.get("total_duration"), Some(&Json::Number(Number::Unsigned(13))));
    assert_eq!(doc.get("prompt_eval_count"), Some(&Json::Number(Number::Unsigned(9))));
    assert_eq!(doc.get("eval_count"), Some(&Json::Number(Number::Unsigned(4))));
    assert_eq!(doc.get("eval_duration"), Some(&Json::Number(Number::Unsigned(77))));
}

#[test]
fn roles_have_their_wire_names() {
    assert_eq!(Role::System.name(), "system");
    assert_eq!(Role::User.name(), "user");
    assert_eq!(Role::Assistant.name(), "assistant");
    assert_eq!(Role::Tool.name(), "tool");
    assert_eq!(Role::from_name("system"), Some(Role::System));
    assert_eq!(Role::from_name("user"), Some(Role::User));
    assert_eq!(Role::from_name("assistant"), Some(Role::Assistant));
    assert_eq!(Role::from_name("tool"), Some(Role::Tool));
    assert_eq!(Role::from_name("Assistant"), None);
    assert_eq!(Role::from_name(""), None);
    assert_eq!(Role::from_name("model"), None);
    assert_eq!(Role::default(), Role::User);
    assert_eq!(default_chat_resp_role(), Role::Assistant);
}

#[test]
fn milliseconds_are_reduced_to_32_bits() {
    assert_eq!(reduce_millis(0), 0);
    assert_eq!(reduce_millis(321), 321);
    assert_eq!(reduce_millis(4294967295), u32::MAX);
    assert_eq!(reduce_millis(4294967296), 0);
    assert_eq!(reduce_millis(4294967296 * 3 + 17), 17);
    assert_eq!(reduce_millis(u128::MAX), u32::MAX);
}
