use polygone::relay::shard_for;
use polygone::relay::{shard_of_hash, LineEvent, LineReader, RelayAction, RelayConn, Scan, MAX_LINE, RATE_LIMIT_PER_SEC, SHARDS};

fn line(s: &str) -> LineEvent {
    LineEvent::Line { bytes: s.as_bytes().to_vec(), window_expired: false }
}

fn feed_all(r: &mut LineReader, bytes: &[u8]) -> Vec<Scan> {
    let mut out = Vec::new();
    for &b in bytes {
        match r.feed(b) {
            Scan::Pending => {},
            other => out.push(other),
        }
    }
    out
}

#[test]
fn hello_registers_identity() {
    let mut c = RelayConn::new();
    let (a, restart) = c.on_event(line("  HELLO alice  "));
    assert!(matches!(a, RelayAction::Register(ref id) if id == "alice"));
    assert!(!restart);
    assert_eq!(c.hello.as_deref(), Some("alice"));
}

#[test]
fn routes_fragments_to_registered_peer() {
    let mut c = RelayConn::new();
    c.on_event(line("HELLO alice"));
    let env = r#"{"kind":"fragment","from":"alice","to":"bob","data":"00"}"#;
    match c.on_event(line(env)).0 {
        RelayAction::Forward { to, frame } => {
            assert_eq!(to, "bob");
            let mut expect = env.as_bytes().to_vec();
            expect.push(b'\n');
            assert_eq!(frame, expect);
        },
        _ => panic!("expected a forward"),
    }
}

#[test]
fn ignores_non_fragment_envelopes() {
    let mut c = RelayConn::new();
    c.on_event(line("HELLO alice"));
    let env = r#"{"kind":"ping","from":"alice","to":"bob"}"#;
    assert!(matches!(c.on_event(line(env)).0, RelayAction::Ignore));
}

#[test]
fn drops_envelopes_with_mismatched_from() {
    let mut c = RelayConn::new();
    c.on_event(line("HELLO alice"));
    let env = r#"{"kind":"fragment","from":"mallory","to":"bob"}"#;
    assert!(matches!(c.on_event(line(env)).0, RelayAction::Ignore));
}

#[test]
fn oversized_lines_are_dropped_not_forwarded() {
    let mut r = LineReader::new();
    let mut big = vec![b'a'; MAX_LINE + 10];
    big.push(b'\n');
    big.extend_from_slice(b"ok\n");
    let got = feed_all(&mut r, &big);
    assert_eq!(got.len(), 2);
    assert!(matches!(got[0], Scan::Oversized));
    assert!(matches!(got[1], Scan::Line(ref l) if l == b"ok"));
    let mut c = RelayConn::new();
    c.on_event(line("HELLO alice"));
    assert!(matches!(c.on_event(LineEvent::Oversized).0, RelayAction::Ignore));
}

#[test]
fn line_reader_splits_and_finishes() {
    let mut r = LineReader::new();
    let got = feed_all(&mut r, b"one\ntwo\nthr");
    assert_eq!(got.len(), 2);
    assert!(matches!(r.finish(), Scan::Line(ref l) if l == b"thr"));
    assert!(matches!(r.finish(), Scan::Eof));
}

#[test]
fn eof_disconnects_registered_peer() {
    let mut c = RelayConn::new();
    assert!(matches!(c.on_event(LineEvent::Eof).0, RelayAction::Close));
    c.on_event(line("HELLO alice"));
    assert!(matches!(c.on_event(LineEvent::Eof).0, RelayAction::Disconnect(ref id) if id == "alice"));
}

#[test]
fn rate_limit_closes_flooding_peer() {
    let mut c = RelayConn::new();
    c.on_event(line("HELLO alice"));
    let env = r#"{"kind":"fragment","from":"alice","to":"bob"}"#;
    for _ in 0..RATE_LIMIT_PER_SEC {
        assert!(matches!(c.on_event(line(env)).0, RelayAction::Forward { .. }));
    }
    // Over the limit the connection is closed.
    assert!(matches!(c.on_event(line(env)).0, RelayAction::Close));
    // A new window gives a fresh allowance.
    let (a, restart) = c.on_event(LineEvent::Line { bytes: env.as_bytes().to_vec(), window_expired: true });
    assert!(matches!(a, RelayAction::Forward { .. }));
    assert!(restart);
}

#[test]
fn shards_stay_in_range() {
    for h in [0u64, 1, 15, 16, 17, u64::MAX] {
        assert!(shard_of_hash(h) < SHARDS);
    }
    assert_eq!(shard_of_hash(17), 1);
}

#[test]
fn shard_is_a_function_of_the_id() {
    for id in ["alice", "bob", "", "node-\u{e9}"] {
        let a = shard_for(id);
        assert!(a < SHARDS);
        assert_eq!(a, shard_for(&id.to_string()));
    }
}
