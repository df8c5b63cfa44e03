//! The local inference engine's plain types: backends, devices, chat and
//! completion answers, what a backend can do, and the word stream of the
//! test backend. Talking to the inference servers belongs to the program
//! around the library.

use vstd::prelude::*;
use crate::text::{owned, push_char, split_words, strings_view, words};

verus! {

/// An inference backend.
#[derive(Debug, Clone, Copy, PartialEq, Eq, Structural)]
pub enum BackendType {
    /// Ollama's HTTP API.
    Ollama,
    /// vLLM's OpenAI-compatible API.
    Vllm,
    /// Native llama.cpp / candle inference.
    LlamaCpp,
    /// The best one available.
    Auto,
}

/// A device to run inference on.
#[derive(Debug, Clone, Copy, PartialEq, Eq, Structural)]
pub enum DeviceType {
    Cpu,
    Cuda,
    Metal,
    Vulkan,
    Auto,
}

/// Where a model comes from.
#[derive(Debug, Clone, Copy, PartialEq, Eq, Structural)]
pub enum ModelSource {
    HuggingFace,
    Ollama,
    LocalGguf,
    Vllm,
}

/// Token counts of one request.
#[derive(Debug, Clone, Copy)]
pub struct Usage {
    pub prompt_tokens: u32,
    pub completion_tokens: u32,
    pub total_tokens: u32,
}

/// A function the model asks to call.
#[derive(Debug, Clone)]
pub struct FunctionCall {
    pub name: String,
    pub arguments: String,
}

/// A tool call of an assistant message.
#[derive(Debug, Clone)]
pub struct ToolCall {
    pub id: String,
    /// The call's kind (`type` on the wire).
    pub kind: String,
    pub function: FunctionCall,
}

/// One chat message.
#[derive(Debug, Clone)]
pub struct ChatMessage {
    /// system, user, assistant or tool.
    pub role: String,
    pub content: String,
    /// Tool calls of an assistant message.
    pub tool_calls: Option<Vec<ToolCall>>,
    /// The call a tool message answers.
    pub tool_call_id: Option<String>,
}

/// The function a request forces.
#[derive(Debug, Clone)]
pub struct FunctionChoice {
    pub name: String,
}

/// How the model may use tools.
#[derive(Debug, Clone)]
pub enum ToolChoice {
    Auto(String),
    Required(String),
    Function { kind: String, function: FunctionChoice },
}

/// The answer to a chat request.
#[derive(Debug, Clone)]
pub struct ChatResponse {
    pub message: ChatMessage,
    pub model: String,
    pub finish_reason: Option<String>,
    pub usage: Option<Usage>,
}

/// One choice of a completion answer.
#[derive(Debug, Clone)]
pub struct CompletionChoice {
    pub index: u32,
    pub text: String,
    pub finish_reason: Option<String>,
}

/// The answer to a completion request.
#[derive(Debug, Clone)]
pub struct CompletionResponse {
    pub id: String,
    pub object: String,
    pub created: u64,
    pub model: String,
    pub choices: Vec<CompletionChoice>,
    pub usage: Option<Usage>,
}

/// What a model can do.
#[derive(Debug, Clone, Copy)]
pub struct ModelCapabilities {
    pub chat: bool,
    pub completion: bool,
    pub tools: bool,
    pub vision: bool,
    pub streaming: bool,
    pub embeddings: bool,
    pub max_concurrent: Option<u32>,
}

impl Default for ModelCapabilities {
    /// Nothing supported, no limit given.
    fn default() -> (res: ModelCapabilities)
        ensures
            res == (ModelCapabilities {
                chat: false,
                completion: false,
                tools: false,
                vision: false,
                streaming: false,
                embeddings: false,
                max_concurrent: None,
            }),
    {
        ModelCapabilities {
            chat: false,
            completion: false,
            tools: false,
            vision: false,
            streaming: false,
            embeddings: false,
            max_concurrent: None,
        }
    }
}

/// What a backend can do.
#[derive(Debug, Clone, Copy)]
pub struct BackendCapabilities {
    pub chat: bool,
    pub completion: bool,
    pub tools: bool,
    pub vision: bool,
    pub streaming: bool,
    pub embeddings: bool,
    pub parallel_requests: bool,
    pub continuous_batching: bool,
    pub paged_attention: bool,
    pub speculative_decoding: bool,
}

/// A backend that can do nothing.
pub open spec fn no_capabilities() -> BackendCapabilities {
    BackendCapabilities {
        chat: false,
        completion: false,
        tools: false,
        vision: false,
        streaming: false,
        embeddings: false,
        parallel_requests: false,
        continuous_batching: false,
        paged_attention: false,
        speculative_decoding: false,
    }
}

impl Default for BackendCapabilities {
    /// Nothing supported.
    fn default() -> (res: BackendCapabilities)
        ensures
            res == no_capabilities(),
    {
        BackendCapabilities {
            chat: false,
            completion: false,
            tools: false,
            vision: false,
            streaming: false,
            embeddings: false,
            parallel_requests: false,
            continuous_batching: false,
            paged_attention: false,
            speculative_decoding: false,
        }
    }
}

/// A backend's description.
#[derive(Debug, Clone)]
pub struct BackendInfo {
    pub name: String,
    pub version: Option<String>,
    pub supported_devices: Vec<DeviceType>,
    pub capabilities: BackendCapabilities,
}

/// The native llama.cpp / candle backend (not available yet: it cannot be
/// constructed by the engine).
#[derive(Debug)]
pub struct LlamaCppBackend {}

/// What the native backend can do.
pub open spec fn llamacpp_capabilities() -> BackendCapabilities {
    BackendCapabilities {
        chat: true,
        completion: true,
        tools: false,
        vision: false,
        streaming: true,
        embeddings: true,
        parallel_requests: false,
        continuous_batching: false,
        paged_attention: false,
        speculative_decoding: false,
    }
}

impl LlamaCppBackend {
    /// Always the native backend.
    pub fn backend_type(&self) -> (res: BackendType)
        ensures
            res == BackendType::LlamaCpp,
    {
        BackendType::LlamaCpp
    }

    /// The native backend: no version, CPU, CUDA, Metal and automatic
    /// device choice, chat, completion, streaming and embeddings.
    pub fn info(&self) -> (res: BackendInfo)
        ensures
            res.name@ == "llama.cpp / candle"@,
            res.version is None,
            res.supported_devices@ == seq![DeviceType::Cpu, DeviceType::Cuda, DeviceType::Metal, DeviceType::Auto],
            res.capabilities == llamacpp_capabilities(),
    {
        let mut devices: Vec<DeviceType> = Vec::new();
        devices.push(DeviceType::Cpu);
        devices.push(DeviceType::Cuda);
        devices.push(DeviceType::Metal);
        devices.push(DeviceType::Auto);
        BackendInfo {
            name: owned("llama.cpp / candle"),
            version: None,
            supported_devices: devices,
            capabilities: BackendCapabilities {
                chat: true,
                completion: true,
                tools: false,
                vision: false,
                streaming: true,
                embeddings: true,
                parallel_requests: false,
                continuous_batching: false,
                paged_attention: false,
                speculative_decoding: false,
            },
        }
    }
}

/// The engine's settings.
#[derive(Debug, Clone)]
pub struct EngineConfig {
    pub default_model: Option<String>,
    pub max_concurrent_requests: usize,
    pub request_timeout_secs: u64,
    pub enable_benchmarks: bool,
    pub daemon_enabled: bool,
    pub preferred_device: DeviceType,
}

impl Default for EngineConfig {
    /// No default model, four concurrent requests, a 120 s timeout, no
    /// benchmarks, registration with the daemon, on the CPU.
    fn default() -> (res: EngineConfig)
        ensures
            res.default_model is None,
            res.max_concurrent_requests == 4,
            res.request_timeout_secs == 120,
            !res.enable_benchmarks,
            res.daemon_enabled,
            res.preferred_device == DeviceType::Cpu,
    {
        EngineConfig {
            default_model: None,
            max_concurrent_requests: 4,
            request_timeout_secs: 120,
            enable_benchmarks: false,
            daemon_enabled: true,
            preferred_device: DeviceType::Cpu,
        }
    }
}

/// The chunks the test backend streams: each word followed by a space.
pub open spec fn stream_chunks(response: Seq<char>) -> Seq<Seq<char>> {
    spaced(words(response))
}

/// Each word followed by a space.
pub open spec fn spaced(ws: Seq<Seq<char>>) -> Seq<Seq<char>> {
    ws.map_values(|w: Seq<char>| w.push(' '))
}

/// What one poll of a stream gives.
#[derive(Debug, Clone, PartialEq, Eq)]
pub enum StreamStep {
    /// The stream is over.
    Done,
    /// Nothing yet: the caller wakes the task and polls again.
    Pending,
    /// The next chunk.
    Item(String),
}

/// The test backend's stream: the words of the response, each given out
/// on the second poll after the previous one.
pub struct MockStream {
    chunks: Vec<String>,
    index: usize,
    delay_ms: u64,
    woken: bool,
}

impl MockStream {
    /// The chunks still to come, in order.
    pub closed spec fn remaining(&self) -> Seq<Seq<char>> {
        strings_view(self.chunks@).skip(self.index as int)
    }

    /// True when the next poll gives the next chunk (the previous poll
    /// asked to be woken).
    pub closed spec fn is_woken(&self) -> bool {
        self.woken
    }

    /// The stream's invariant.
    pub closed spec fn wf(&self) -> bool {
        self.index <= self.chunks@.len()
    }

    /// A stream of the words of `response`.
    pub fn new(response: &str, delay_ms: u64) -> (res: MockStream)
        ensures
            res.wf(),
            res.remaining() == stream_chunks(response@),
            !res.is_woken(),
    {
        let ws = split_words(response);
        let mut chunks: Vec<String> = Vec::new();
        let mut i: usize = 0;
        while i < ws.len()
            invariant
                0 <= i <= ws@.len(),
                strings_view(ws@) == words(response@),
                strings_view(chunks@) == spaced(strings_view(ws@).take(i as int)),
            decreases ws@.len() - i,
        {
            let ghost before = chunks@;
            let mut c = ws[i].clone();
            push_char(&mut c, ' ');
            chunks.push(c);
            proof {
                assert(strings_view(ws@).take(i + 1) =~= strings_view(ws@).take(i as int).push(ws@[i as int]@));
                assert(spaced(strings_view(ws@).take(i + 1)) =~= spaced(strings_view(ws@).take(i as int)).push(c@));
                assert(strings_view(chunks@) =~= spaced(strings_view(ws@).take(i as int)).push(c@));
            }
            i = i + 1;
        }
        proof {
            assert(strings_view(ws@).take(ws@.len() as int) =~= strings_view(ws@));
            assert(strings_view(chunks@).skip(0) =~= strings_view(chunks@));
        }
        MockStream { chunks, index: 0, delay_ms, woken: false }
    }

    /// One poll: `Done` once every chunk was given; otherwise `Pending`
    /// and then, on the next poll, the next chunk.
    pub fn step(&mut self) -> (res: StreamStep)
        requires
            old(self).wf(),
        ensures
            final(self).wf(),
            old(self).remaining().len() == 0 ==> res == StreamStep::Done && *final(self) == *old(self),
            old(self).remaining().len() > 0 && !old(self).is_woken() ==> res == StreamStep::Pending
                && final(self).is_woken() && final(self).remaining() == old(self).remaining(),
            old(self).remaining().len() > 0 && old(self).is_woken() ==> (res matches StreamStep::Item(c)
                && c@ == old(self).remaining()[0] && !final(self).is_woken()
                && final(self).remaining() == old(self).remaining().drop_first()),
    {
        if self.index >= self.chunks.len() {
            return StreamStep::Done;
        }
        if !self.woken {
            self.woken = true;
            return StreamStep::Pending;
        }
        self.woken = false;
        let chunk = self.chunks[self.index].clone();
        let ghost before = strings_view(self.chunks@).skip(self.index as int);
        self.index = self.index + 1;
        proof {
            assert(strings_view(self.chunks@).skip(self.index as int) =~= before.drop_first());
        }
        StreamStep::Item(chunk)
    }
}

} // verus!
