use polygone::error::PolygoneError;
use polygone::ollama::{ollama_chat_response, ollama_generate_response};

#[test]
fn ollama_generate_reads_counts_and_first_token_time() {
    let body = br#"{"model":"llama3","response":"Hello!","done":true,"done_reason":"stop","prompt_eval_count":12,"eval_count":5,"eval_duration":1234567890}"#;
    let r = ollama_generate_response(body, "llama3".to_string(), 2_000).unwrap();
    assert_eq!(r.text, "Hello!");
    assert_eq!(r.model, "llama3");
    assert_eq!(r.tokens_generated, 5);
    assert_eq!(r.ttft_ms, Some(1234));
    assert_eq!(r.total_time_ms, 2_000);
    assert_eq!(r.finish_reason.as_deref(), Some("stop"));
    let u = r.usage.unwrap();
    assert_eq!((u.prompt_tokens, u.completion_tokens, u.total_tokens), (12, 5, 17));
}

#[test]
fn ollama_generate_defaults_missing_fields() {
    let r = ollama_generate_response(b"{}", "m".to_string(), 0).unwrap();
    assert_eq!(r.text, "");
    assert_eq!(r.tokens_generated, 0);
    assert!(r.ttft_ms.is_none());
    assert!(r.finish_reason.is_none());
    assert!(matches!(ollama_generate_response(b"{", "m".to_string(), 0), Err(PolygoneError::Response(_))));
}

#[test]
fn ollama_chat_reads_the_message() {
    let body = br#"{"message":{"role":"assistant","content":"Hi"},"done_reason":"length","prompt_eval_count":3,"eval_count":4}"#;
    let r = ollama_chat_response(body, "m".to_string()).unwrap();
    assert_eq!(r.message.role, "assistant");
    assert_eq!(r.message.content, "Hi");
    assert!(r.message.tool_calls.is_none());
    assert_eq!(r.finish_reason.as_deref(), Some("length"));
    let u = r.usage.unwrap();
    assert_eq!((u.prompt_tokens, u.completion_tokens, u.total_tokens), (3, 4, 7));
    let r = ollama_chat_response(br#"{"message":"flat"}"#, "m".to_string()).unwrap();
    assert_eq!(r.message.content, "");
    assert!(ollama_chat_response(b"nope", "m".to_string()).is_err());
}
