//! Reading the answers of a vLLM server (its OpenAI-compatible
//! `/v1/completions` and `/v1/chat/completions` endpoints). Sending the
//! request and timing it belong to the program around the library; what a
//! body is made into is decided here.
//!
//! A field missing from the answer reads as its default: no text, no finish
//! reason, zero tokens. Only a body that is not JSON at all is an error.

use vstd::prelude::*;
use crate::error::PolygoneError;
use crate::petals::{ChatMessage, ChatResponse, ToolCall, Usage};
use crate::text::owned;

verus! {

/// Whether `serde_json::from_slice::<Value>` reads the bytes as a JSON
/// document.
pub uninterp spec fn json_parses(bytes: Seq<u8>) -> bool;

/// What `Value::pointer(pointer)` then `Value::as_str` gives on the document
/// the bytes hold: `None` when nothing is there or it is not a string.
pub uninterp spec fn json_pointer_str(bytes: Seq<u8>, pointer: Seq<char>) -> Option<Seq<char>>;

/// What `Value::pointer(pointer)` then `Value::as_u64` gives on the document
/// the bytes hold: `None` when nothing is there or it is not an integer
/// that fits in 64 unsigned bits.
pub uninterp spec fn json_pointer_u64(bytes: Seq<u8>, pointer: Seq<char>) -> Option<u64>;

/// Whether `Value::pointer(pointer)` finds an array in the document the
/// bytes hold.
pub uninterp spec fn json_pointer_is_array(bytes: Seq<u8>, pointer: Seq<char>) -> bool;

/// The view of an optional text.
pub open spec fn opt_text(t: Option<String>) -> Option<Seq<char>> {
    match t {
        Some(s) => Some(s@),
        None => None,
    }
}

/// `serde_json::from_slice::<Value>`, `Value::pointer` and `Value::as_str`.
/// Trusted: `None` exactly when the bytes are not JSON; otherwise the string
/// found at the pointer, if any, as a function of the bytes and the pointer.
#[verifier::external_body]
pub(crate) fn json_str_at(bytes: &[u8], pointer: &str) -> (res: Option<Option<String>>)
    ensures
        res is Some <==> json_parses(bytes@),
        res matches Some(t) ==> opt_text(t) == json_pointer_str(bytes@, pointer@),
{
    match serde_json::from_slice::<serde_json::Value>(bytes) {
        Ok(v) => Some(v.pointer(pointer).and_then(|x| x.as_str()).map(|s| s.to_string())),
        Err(_) => None,
    }
}

/// `serde_json::from_slice::<Value>`, `Value::pointer` and `Value::as_u64`.
/// Trusted: `None` exactly when the bytes are not JSON; otherwise the
/// integer found at the pointer, if any, as a function of the bytes and the
/// pointer.
#[verifier::external_body]
pub(crate) fn json_u64_at(bytes: &[u8], pointer: &str) -> (res: Option<Option<u64>>)
    ensures
        res is Some <==> json_parses(bytes@),
        res matches Some(n) ==> n == json_pointer_u64(bytes@, pointer@),
{
    match serde_json::from_slice::<serde_json::Value>(bytes) {
        Ok(v) => Some(v.pointer(pointer).and_then(|x| x.as_u64())),
        Err(_) => None,
    }
}

/// `serde_json::from_slice::<Value>`, `Value::pointer` and
/// `Value::is_array`. Trusted: `None` exactly when the bytes are not JSON;
/// otherwise whether an array is found at the pointer, as a function of the
/// bytes and the pointer.
#[verifier::external_body]
fn json_is_array_at(bytes: &[u8], pointer: &str) -> (res: Option<bool>)
    ensures
        res is Some <==> json_parses(bytes@),
        res matches Some(b) ==> b == json_pointer_is_array(bytes@, pointer@),
{
    match serde_json::from_slice::<serde_json::Value>(bytes) {
        Ok(v) => Some(v.pointer(pointer).map_or(false, |x| x.is_array())),
        Err(_) => None,
    }
}

/// A text, or the empty text when there is none.
pub open spec fn text_or_empty(t: Option<Seq<char>>) -> Seq<char> {
    match t {
        Some(s) => s,
        None => Seq::empty(),
    }
}

/// A token count as the answer gives it (cut to 32 bits), or zero.
pub open spec fn count_or_zero(n: Option<u64>) -> u32 {
    match n {
        Some(v) => v as u32,
        None => 0,
    }
}

/// The sum of two counts, wrapping past `u32::MAX`.
pub open spec fn wrapping_sum(a: u32, b: u32) -> u32 {
    if a + b > u32::MAX {
        (a + b - 4294967296) as u32
    } else {
        (a + b) as u32
    }
}

/// A string field of the first choice: only when `choices` is an array.
pub open spec fn first_choice_str(body: Seq<u8>, pointer: Seq<char>) -> Option<Seq<char>> {
    if json_pointer_is_array(body, "/choices"@) {
        json_pointer_str(body, pointer)
    } else {
        None
    }
}

/// The finish reason of the first choice.
pub open spec fn finish_reason_of(body: Seq<u8>) -> Option<Seq<char>> {
    first_choice_str(body, "/choices/0/finish_reason"@)
}

/// The prompt tokens the answer reports.
pub open spec fn prompt_tokens_of(body: Seq<u8>) -> u32 {
    count_or_zero(json_pointer_u64(body, "/usage/prompt_tokens"@))
}

/// The generated tokens the answer reports.
pub open spec fn completion_tokens_of(body: Seq<u8>) -> u32 {
    count_or_zero(json_pointer_u64(body, "/usage/completion_tokens"@))
}

/// The usage an answer reports: its two counts and their sum.
pub open spec fn usage_of(body: Seq<u8>, u: Usage) -> bool {
    &&& u.prompt_tokens == prompt_tokens_of(body)
    &&& u.completion_tokens == completion_tokens_of(body)
    &&& u.total_tokens == wrapping_sum(prompt_tokens_of(body), completion_tokens_of(body))
}

/// What a completion request gave, but for the throughput (a rate, which
/// the caller works out from the token count and the time).
#[derive(Debug, Clone)]
pub struct InferenceReply {
    pub text: String,
    pub model: String,
    pub tokens_generated: u32,
    /// Time to the first token, when the backend streams.
    pub ttft_ms: Option<u64>,
    pub total_time_ms: u64,
    pub finish_reason: Option<String>,
    pub usage: Option<Usage>,
}

/// The string at `pointer` in the first choice, `Some(None)` when there is
/// none there (or `choices` is no array), `None` when the body is not JSON.
fn first_choice_field(body: &[u8], pointer: &str) -> (res: Option<Option<String>>)
    ensures
        res is Some <==> json_parses(body@),
        res matches Some(t) ==> opt_text(t) == (if json_pointer_is_array(body@, "/choices"@) {
            json_pointer_str(body@, pointer@)
        } else {
            None
        }),
{
    match json_is_array_at(body, "/choices") {
        None => None,
        Some(false) => Some(None),
        Some(true) => json_str_at(body, pointer),
    }
}

/// The answer's usage, or `None` when the body is not JSON.
fn usage_from(body: &[u8]) -> (res: Option<Usage>)
    ensures
        res is Some <==> json_parses(body@),
        res matches Some(u) ==> usage_of(body@, u),
{
    let prompt = match json_u64_at(body, "/usage/prompt_tokens") {
        None => return None,
        Some(Some(v)) => v as u32,
        Some(None) => 0,
    };
    let completion = match json_u64_at(body, "/usage/completion_tokens") {
        None => return None,
        Some(Some(v)) => v as u32,
        Some(None) => 0,
    };
    Some(Usage { prompt_tokens: prompt, completion_tokens: completion, total_tokens: prompt.wrapping_add(completion) })
}

/// The model a request names: every request to an inference server has
/// to name one; `MissingField` ("Model required") otherwise.
pub fn model_required(model: Option<String>) -> (res: Result<String, PolygoneError>)
    ensures
        match model {
            Some(m) => res == Ok::<String, PolygoneError>(m),
            None => res matches Err(PolygoneError::MissingField(e)) && e@ == "Model required"@,
        },
{
    match model {
        Some(m) => Ok(m),
        None => Err(PolygoneError::MissingField(owned("Model required"))),
    }
}

/// Reads a `/v1/chat/completions` answer for `model`: the first choice's
/// message content (empty when missing) as the assistant's message, with
/// `tool_calls` (what the caller read of the message's tool calls), the
/// finish reason and the usage counts (zero when missing) and their sum.
/// `Response` exactly when the body is not JSON.
pub fn vllm_chat_response(body: &[u8], model: String, tool_calls: Option<Vec<ToolCall>>) -> (res: Result<ChatResponse, PolygoneError>)
    ensures
        res is Ok <==> json_parses(body@),
        res matches Err(e) ==> e is Response,
        res matches Ok(r) ==> {
            &&& r.message.role@ == "assistant"@
            &&& r.message.content@ == text_or_empty(first_choice_str(body@, "/choices/0/message/content"@))
            &&& r.message.tool_calls == tool_calls
            &&& r.message.tool_call_id is None
            &&& r.model == model
            &&& opt_text(r.finish_reason) == finish_reason_of(body@)
            &&& r.usage matches Some(u) && usage_of(body@, u)
        },
{
    let content = match first_choice_field(body, "/choices/0/message/content") {
        None => return Err(PolygoneError::Response(owned("response is not JSON"))),
        Some(Some(c)) => c,
        Some(None) => String::new(),
    };
    let finish_reason = match first_choice_field(body, "/choices/0/finish_reason") {
        None => return Err(PolygoneError::Response(owned("response is not JSON"))),
        Some(f) => f,
    };
    let usage = match usage_from(body) {
        None => return Err(PolygoneError::Response(owned("response is not JSON"))),
        Some(u) => u,
    };
    let message = ChatMessage { role: owned("assistant"), content, tool_calls, tool_call_id: None };
    Ok(ChatResponse { message, model, finish_reason, usage: Some(usage) })
}

/// Reads a `/v1/completions` answer for `model` that took `elapsed_ms`: the
/// first choice's text (empty when missing), the generated tokens the usage
/// reports (zero when missing), the finish reason and the usage counts and
/// their sum. `Response` exactly when the body is not JSON.
pub fn vllm_completion_response(body: &[u8], model: String, elapsed_ms: u64) -> (res: Result<InferenceReply, PolygoneError>)
    ensures
        res is Ok <==> json_parses(body@),
        res matches Err(e) ==> e is Response,
        res matches Ok(r) ==> {
            &&& r.text@ == text_or_empty(first_choice_str(body@, "/choices/0/text"@))
            &&& r.model == model
            &&& r.tokens_generated == completion_tokens_of(body@)
            &&& r.ttft_ms is None
            &&& r.total_time_ms == elapsed_ms
            &&& opt_text(r.finish_reason) == finish_reason_of(body@)
            &&& r.usage matches Some(u) && usage_of(body@, u)
        },
{
    let text = match first_choice_field(body, "/choices/0/text") {
        None => return Err(PolygoneError::Response(owned("response is not JSON"))),
        Some(Some(t)) => t,
        Some(None) => String::new(),
    };
    let finish_reason = match first_choice_field(body, "/choices/0/finish_reason") {
        None => return Err(PolygoneError::Response(owned("response is not JSON"))),
        Some(f) => f,
    };
    let usage = match usage_from(body) {
        None => return Err(PolygoneError::Response(owned("response is not JSON"))),
        Some(u) => u,
    };
    Ok(InferenceReply {
        text,
        model,
        tokens_generated: usage.completion_tokens,
        ttft_ms: None,
        total_time_ms: elapsed_ms,
        finish_reason,
        usage: Some(usage),
    })
}

} // verus!
