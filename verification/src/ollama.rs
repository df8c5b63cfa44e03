//! Reading the answers of an Ollama server (`/api/generate` and
//! `/api/chat`). Sending the request and timing it belong to the program
//! around the library; what a body is made into is decided here.
//!
//! A field missing from the answer reads as its default: no text, no finish
//! reason, zero tokens. Only a body that is not JSON at all is an error.

use vstd::prelude::*;
use crate::error::PolygoneError;
use crate::petals::{ChatMessage, ChatResponse, Usage};
use crate::text::owned;
use crate::vllm::{
    count_or_zero, json_parses, json_pointer_str, json_pointer_u64, json_str_at, json_u64_at, opt_text, text_or_empty,
    wrapping_sum, InferenceReply,
};

verus! {

/// The prompt tokens the answer reports (`prompt_eval_count`).
pub open spec fn ollama_prompt_tokens(body: Seq<u8>) -> u32 {
    count_or_zero(json_pointer_u64(body, "/prompt_eval_count"@))
}

/// The generated tokens the answer reports (`eval_count`).
pub open spec fn ollama_eval_tokens(body: Seq<u8>) -> u32 {
    count_or_zero(json_pointer_u64(body, "/eval_count"@))
}

/// The usage an answer reports: its two counts and their sum.
pub open spec fn ollama_usage(body: Seq<u8>, u: Usage) -> bool {
    &&& u.prompt_tokens == ollama_prompt_tokens(body)
    &&& u.completion_tokens == ollama_eval_tokens(body)
    &&& u.total_tokens == wrapping_sum(ollama_prompt_tokens(body), ollama_eval_tokens(body))
}

fn not_json() -> (res: PolygoneError)
    ensures
        res is Response,
{
    PolygoneError::Response(owned("response is not JSON"))
}

fn count_at(body: &[u8], pointer: &str) -> (res: Option<u32>)
    ensures
        res is Some <==> json_parses(body@),
        res matches Some(n) ==> n == count_or_zero(json_pointer_u64(body@, pointer@)),
{
    match json_u64_at(body, pointer) {
        None => None,
        Some(Some(v)) => Some(v as u32),
        Some(None) => Some(0),
    }
}

fn ollama_usage_from(body: &[u8]) -> (res: Option<Usage>)
    ensures
        res is Some <==> json_parses(body@),
        res matches Some(u) ==> ollama_usage(body@, u),
{
    let prompt = match count_at(body, "/prompt_eval_count") {
        None => return None,
        Some(n) => n,
    };
    let tokens = match count_at(body, "/eval_count") {
        None => return None,
        Some(n) => n,
    };
    Some(Usage { prompt_tokens: prompt, completion_tokens: tokens, total_tokens: prompt.wrapping_add(tokens) })
}

/// Reads an `/api/chat` answer for `model`: the message content (empty
/// when missing) as the assistant's message, the `done_reason` and the
/// prompt and generated token counts (zero when missing) and their sum.
/// `Response` exactly when the body is not JSON.
pub fn ollama_chat_response(body: &[u8], model: String) -> (res: Result<ChatResponse, PolygoneError>)
    ensures
        res is Ok <==> json_parses(body@),
        res matches Err(e) ==> e is Response,
        res matches Ok(r) ==> {
            &&& r.message.role@ == "assistant"@
            &&& r.message.content@ == text_or_empty(json_pointer_str(body@, "/message/content"@))
            &&& r.message.tool_calls is None
            &&& r.message.tool_call_id is None
            &&& r.model == model
            &&& opt_text(r.finish_reason) == json_pointer_str(body@, "/done_reason"@)
            &&& r.usage matches Some(u) && ollama_usage(body@, u)
        },
{
    let content = match json_str_at(body, "/message/content") {
        None => return Err(not_json()),
        Some(Some(c)) => c,
        Some(None) => String::new(),
    };
    let finish_reason = match json_str_at(body, "/done_reason") {
        None => return Err(not_json()),
        Some(f) => f,
    };
    let usage = match ollama_usage_from(body) {
        None => return Err(not_json()),
        Some(u) => u,
    };
    let message = ChatMessage { role: owned("assistant"), content, tool_calls: None, tool_call_id: None };
    Ok(ChatResponse { message, model, finish_reason, usage: Some(usage) })
}

/// Reads an `/api/generate` answer for `model` that took `elapsed_ms`: the
/// `response` text (empty when missing), the generated tokens (zero when
/// missing), the time to the first token as the `eval_duration` in whole
/// milliseconds, the `done_reason` and the usage counts and their sum.
/// `Response` exactly when the body is not JSON.
pub fn ollama_generate_response(body: &[u8], model: String, elapsed_ms: u64) -> (res: Result<InferenceReply, PolygoneError>)
    ensures
        res is Ok <==> json_parses(body@),
        res matches Err(e) ==> e is Response,
        res matches Ok(r) ==> {
            &&& r.text@ == text_or_empty(json_pointer_str(body@, "/response"@))
            &&& r.model == model
            &&& r.tokens_generated == ollama_eval_tokens(body@)
            &&& r.ttft_ms == (match json_pointer_u64(body@, "/eval_duration"@) {
                Some(d) => Some((d / 1_000_000) as u64),
                None => None,
            })
            &&& r.total_time_ms == elapsed_ms
            &&& opt_text(r.finish_reason) == json_pointer_str(body@, "/done_reason"@)
            &&& r.usage matches Some(u) && ollama_usage(body@, u)
        },
{
    let text = match json_str_at(body, "/response") {
        None => return Err(not_json()),
        Some(Some(t)) => t,
        Some(None) => String::new(),
    };
    let ttft = match json_u64_at(body, "/eval_duration") {
        None => return Err(not_json()),
        Some(Some(d)) => Some(d / 1_000_000),
        Some(None) => None,
    };
    let finish_reason = match json_str_at(body, "/done_reason") {
        None => return Err(not_json()),
        Some(f) => f,
    };
    let usage = match ollama_usage_from(body) {
        None => return Err(not_json()),
        Some(u) => u,
    };
    Ok(InferenceReply {
        text,
        model,
        tokens_generated: usage.completion_tokens,
        ttft_ms: ttft,
        total_time_ms: elapsed_ms,
        finish_reason,
        usage: Some(usage),
    })
}

} // verus!
