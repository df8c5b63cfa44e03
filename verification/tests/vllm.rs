use polygone::error::PolygoneError;
use polygone::vllm::{vllm_chat_response, vllm_completion_response};

#[test]
fn chat_answer_is_read_from_the_first_choice() {
    let body = br#"{"choices":[{"message":{"role":"assistant","content":"hi there"},"finish_reason":"stop"},{"message":{"content":"second"}}],"usage":{"prompt_tokens":5,"completion_tokens":2,"total_tokens":7}}"#;
    let r = vllm_chat_response(body, "llama".to_string(), None).unwrap();
    assert_eq!(r.message.role, "assistant");
    assert_eq!(r.message.content, "hi there");
    assert!(r.message.tool_calls.is_none());
    assert!(r.message.tool_call_id.is_none());
    assert_eq!(r.model, "llama");
    assert_eq!(r.finish_reason.as_deref(), Some("stop"));
    let u = r.usage.unwrap();
    assert_eq!((u.prompt_tokens, u.completion_tokens, u.total_tokens), (5, 2, 7));
}

#[test]
fn chat_answer_defaults_missing_fields() {
    let r = vllm_chat_response(b"{}", "m".to_string(), None).unwrap();
    assert_eq!(r.message.content, "");
    assert!(r.finish_reason.is_none());
    let u = r.usage.unwrap();
    assert_eq!((u.prompt_tokens, u.completion_tokens, u.total_tokens), (0, 0, 0));
    // No first choice in an empty array.
    let r = vllm_chat_response(br#"{"choices":[]}"#, "m".to_string(), None).unwrap();
    assert_eq!(r.message.content, "");
    // Content that is not a string reads as empty.
    let r = vllm_chat_response(br#"{"choices":[{"message":{"content":42}}]}"#, "m".to_string(), None).unwrap();
    assert_eq!(r.message.content, "");
}

#[test]
fn chat_answer_that_is_not_json_is_an_error() {
    let r = vllm_chat_response(b"<html>bad gateway</html>", "m".to_string(), None);
    assert!(matches!(r, Err(PolygoneError::Response(_))));
}

#[test]
fn completion_answer_is_read_from_the_first_choice() {
    let body = br#"{"choices":[{"text":"abc","finish_reason":"length"}],"usage":{"prompt_tokens":3,"completion_tokens":4}}"#;
    let r = vllm_completion_response(body, "m".to_string(), 250).unwrap();
    assert_eq!(r.text, "abc");
    assert_eq!(r.model, "m");
    assert_eq!(r.tokens_generated, 4);
    assert!(r.ttft_ms.is_none());
    assert_eq!(r.total_time_ms, 250);
    assert_eq!(r.finish_reason.as_deref(), Some("length"));
    let u = r.usage.unwrap();
    assert_eq!((u.prompt_tokens, u.completion_tokens, u.total_tokens), (3, 4, 7));
}

#[test]
fn completion_choices_must_be_an_array() {
    let body = br#"{"choices":{"0":{"text":"x","finish_reason":"stop"}}}"#;
    let r = vllm_completion_response(body, "m".to_string(), 1).unwrap();
    assert_eq!(r.text, "");
    assert!(r.finish_reason.is_none());
    assert_eq!(r.tokens_generated, 0);
}

#[test]
fn completion_counts_are_cut_to_32_bits_and_summed_wrapping() {
    let body = br#"{"usage":{"prompt_tokens":4294967295,"completion_tokens":4294967298}}"#;
    let r = vllm_completion_response(body, "m".to_string(), 0).unwrap();
    assert_eq!(r.tokens_generated, 2);
    let u = r.usage.unwrap();
    assert_eq!((u.prompt_tokens, u.completion_tokens, u.total_tokens), (4294967295, 2, 1));
}

#[test]
fn completion_answer_that_is_not_json_is_an_error() {
    assert!(matches!(vllm_completion_response(b"", "m".to_string(), 0), Err(PolygoneError::Response(_))));
}

#[test]
fn a_request_must_name_its_model() {
    assert_eq!(polygone::vllm::model_required(Some("llama".to_string())), Ok("llama".to_string()));
    assert_eq!(
        polygone::vllm::model_required(None),
        Err(PolygoneError::MissingField("Model required".to_string()))
    );
}
