use polygone::brain::{estimate_tokens, Brain, Inference, ModelKind};

fn inf(id: &str, model: ModelKind, at: u64) -> Inference {
    Inference { id: id.into(), prompt: "hi".into(), max_tokens: 128, model, created_at_ms: at }
}

#[test]
fn notch_costs_poly() {
    let mut b = Brain::new();
    let id = b.submit(inf("i1", ModelKind::Notch, 0));
    let r = b.complete(&id, "hello".into()).unwrap();
    // The node pays for local inference.
    assert!(!r.earns);
    assert_eq!(b.inference_count(), 1);
}

#[test]
fn petals_earns_as_shard() {
    let mut b = Brain::new();
    b.set_serves_petals(true);
    let id = b.submit(inf("i1", ModelKind::Petals, 0));
    let r = b.complete(&id, "x".into()).unwrap();
    assert!(r.earns);
}

#[test]
fn ollama_local_costs() {
    let mut b = Brain::new();
    let id = b.submit(inf("i1", ModelKind::Ollama, 0));
    let r = b.complete(&id, "ok".into()).unwrap();
    assert!(!r.earns);
}

#[test]
fn recent_caps_at_100() {
    let mut b = Brain::new();
    for i in 0..150u32 {
        let id = b.submit(inf(&format!("i{i}"), ModelKind::Notch, 0));
        b.complete(&id, "x".into());
    }
    assert_eq!(b.recent(200).len(), 100);
    assert_eq!(b.inference_count(), 150);
    // The hundred newest results, most recent first.
    let recent = b.recent(200);
    assert_eq!(recent[0].inference_id, "i149");
    assert_eq!(recent[99].inference_id, "i50");
    let two = b.recent(2);
    assert_eq!(two[0].inference_id, "i149");
    assert_eq!(two[1].inference_id, "i148");
}

#[test]
fn tokens_are_a_quarter_of_bytes_rounded_up() {
    assert_eq!(estimate_tokens(""), 0);
    assert_eq!(estimate_tokens("x"), 1);
    assert_eq!(estimate_tokens("hello"), 2);
    assert_eq!(estimate_tokens("abcdefgh"), 2);
    // Bytes, not characters: four two-byte characters are two tokens.
    assert_eq!(estimate_tokens("\u{e9}\u{e9}\u{e9}\u{e9}"), 2);
}

#[test]
fn complete_records_outcome_and_duration() {
    let mut b = Brain::new();
    b.submit(inf("a", ModelKind::Petals, 1_000));
    assert!(b.complete_at("missing", "x".into(), 2_000).is_none());
    let r = b.complete_at("a", "twelve bytes".into(), 1_250).unwrap();
    assert_eq!(r.inference_id, "a");
    assert_eq!(r.tokens, 3);
    assert_eq!(r.duration_ms, 250);
    assert!(!r.earns);
    assert_eq!(b.token_count(), 3);
    // Completed once only.
    assert!(b.complete_at("a", "again".into(), 1_300).is_none());
    let last = b.recent(1);
    assert_eq!(last.len(), 1);
    assert_eq!(last[0].output, "twelve bytes");
}

#[test]
fn resubmitting_replaces_request() {
    let mut b = Brain::new();
    b.submit(inf("a", ModelKind::Notch, 1));
    b.submit(inf("a", ModelKind::Petals, 2));
    b.set_serves_petals(true);
    let r = b.complete_at("a", "x".into(), 10).unwrap();
    assert_eq!(r.model, ModelKind::Petals);
    assert_eq!(r.duration_ms, 8);
    assert!(r.earns);
    assert!(b.complete_at("a", "x".into(), 10).is_none());
}
