use polygone::compute_daemon::{clock_at, next_state, ollama_models, LendingState};
use polygone::ipc::{missing_service, IpcAction, Op, Request};
use polygone::petals::{
    BackendCapabilities, BackendType, DeviceType, EngineConfig, LlamaCppBackend, MockStream, ModelCapabilities, StreamStep,
};
use polygone::search::{DataSource, SearchQuery};

#[test]
fn test_device_detection() {
    let b = LlamaCppBackend {};
    let info = b.info();
    assert!(info.supported_devices.contains(&DeviceType::Cpu));
    assert_eq!(info.name, "llama.cpp / candle");
    assert_eq!(info.version, None);
    assert_eq!(b.backend_type(), BackendType::LlamaCpp);
}

#[test]
fn defaults_of_engine_and_capabilities() {
    let e = EngineConfig::default();
    assert_eq!(e.max_concurrent_requests, 4);
    assert_eq!(e.request_timeout_secs, 120);
    assert!(e.daemon_enabled && !e.enable_benchmarks);
    assert_eq!(e.preferred_device, DeviceType::Cpu);
    assert!(!BackendCapabilities::default().chat);
    assert_eq!(ModelCapabilities::default().max_concurrent, None);
}

#[test]
fn test_ollama_mock_stream() {
    let mut s = MockStream::new("streaming response test", 10);
    let mut got = Vec::new();
    loop {
        match s.step() {
            StreamStep::Done => break,
            StreamStep::Pending => {},
            StreamStep::Item(c) => got.push(c),
        }
    }
    assert_eq!(got, vec!["streaming ".to_string(), "response ".to_string(), "test ".to_string()]);
}

#[test]
fn stream_waits_once_between_chunks() {
    let mut s = MockStream::new("  a  b ", 0);
    assert_eq!(s.step(), StreamStep::Pending);
    assert_eq!(s.step(), StreamStep::Item("a ".to_string()));
    assert_eq!(s.step(), StreamStep::Pending);
    assert_eq!(s.step(), StreamStep::Item("b ".to_string()));
    assert_eq!(s.step(), StreamStep::Done);
    assert_eq!(s.step(), StreamStep::Done);
}

#[test]
fn ipc_actions() {
    let start = Request { id: "a".into(), op: Op::Start, service: Some("drive".into()) };
    assert_eq!(start.action(), IpcAction::Start("drive".into()));
    let stop = Request { id: "b".into(), op: Op::Stop, service: None };
    assert_eq!(stop.action(), IpcAction::MissingService);
    let status = Request { id: "c".into(), op: Op::Status, service: Some("x".into()) };
    assert_eq!(status.action(), IpcAction::Status);
    assert_eq!(missing_service(), "missing 'service'");
}

#[test]
fn op_names_round_trip() {
    for op in [Op::Status, Op::List, Op::Start, Op::Stop] {
        assert_eq!(Op::from_name(op.name()), Some(op));
    }
    assert_eq!(Op::from_name("restart"), None);
    assert_eq!(Op::from_name("Status"), None);
}

#[test]
fn search_defaults_and_labels() {
    let q = SearchQuery::default();
    assert!(q.terms.is_empty());
    assert_eq!(q.sources.len(), 5);
    assert_eq!(q.max_results, 20);
    assert_eq!(q.timeout_ms, 5000);
    assert_eq!(DataSource::ArXiv.label(), "\u{1F52C} arXiv");
    assert_eq!(DataSource::Custom("https://x.example".into()).label(), "https://x.example");
}

#[test]
fn lending_states() {
    assert_eq!(next_state(false, false, false, true, true), LendingState::PausedUserActive);
    assert_eq!(next_state(true, true, false, true, true), LendingState::PausedResourceLow);
    assert_eq!(next_state(true, false, true, false, false), LendingState::PausedResourceLow);
    assert_eq!(next_state(true, false, false, true, true), LendingState::StealthActive);
    assert_eq!(next_state(true, false, false, false, true), LendingState::OllamaActive);
    assert_eq!(next_state(true, false, false, false, false), LendingState::LendingActive);
    assert!(LendingState::OllamaActive.is_active());
    assert!(!LendingState::Stopped.is_active());
    assert_eq!(LendingState::LendingActive.label(), "\u{25CF} Lending");
}

#[test]
fn clock_of_day() {
    assert_eq!(clock_at(0), "00:00:00");
    assert_eq!(clock_at(3_661), "01:01:01");
    assert_eq!(clock_at(86_399 + 86_400), "23:59:59");
}

#[test]
fn ollama_listing() {
    let out = "NAME            ID     SIZE\nllama3:8b   abc   4.7 GB\n\n  NAME x\nqwen2:1.5b def 1 GB\n";
    assert_eq!(ollama_models(out), vec!["llama3:8b".to_string(), "qwen2:1.5b".to_string()]);
    assert!(ollama_models("").is_empty());
    assert!(ollama_models("NAME ID\n").is_empty());
}
