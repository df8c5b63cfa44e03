use polygone::mailbox::{MsgNode, Recipient};

fn r(b: u8) -> Recipient {
    Recipient([b; 32])
}

#[test]
fn send_and_receive() {
    let mut n = MsgNode::new(r(1));
    let id = n.send(r(2), r(1), b"hi".to_vec(), 60_000);
    assert!(id.starts_with("msg:"));
    assert_eq!(id.len(), 36);
    let got = n.receive().unwrap();
    assert_eq!(got.body, b"hi");
    assert_eq!(got.from, r(2));
    assert!(got.remaining_ms <= 60_000);
    assert_eq!(n.pending(), 0);
}

#[test]
fn wrong_recipient_unreadable() {
    let mut n = MsgNode::new(r(1));
    n.send(r(2), r(3), b"x".to_vec(), 60_000);
    assert!(n.receive().is_none());
}

#[test]
fn dht_key_deterministic() {
    let mut a = MsgNode::new(r(9));
    let mut b = MsgNode::new(r(8));
    let ia = a.send(r(1), r(2), b"x".to_vec(), 60_000);
    let ib = b.send(r(1), r(2), b"x".to_vec(), 60_000);
    assert_eq!(ia, ib);
    // "msg:" and 32 hex digits (16 bytes of the digest).
    assert_eq!(ia.len(), 4 + 32);
}

#[test]
fn sweep_removes_expired() {
    let mut n = MsgNode::new(r(1));
    // Created at the epoch, so long expired now.
    n.send_at(r(2), r(1), b"a".to_vec(), 60_000, 0);
    let removed = n.sweep();
    assert_eq!(removed, 1);
}

#[test]
fn message_id_depends_on_content() {
    let mut n = MsgNode::new(r(1));
    let a = n.send(r(2), r(1), b"a".to_vec(), 60_000);
    let b = n.send(r(2), r(1), b"b".to_vec(), 60_000);
    assert_ne!(a, b);
    assert_eq!(n.pending(), 2);
}

#[test]
fn receive_reports_remaining_life() {
    let mut n = MsgNode::new(r(1));
    n.send_at(r(2), r(1), b"late".to_vec(), 1_000, 5_000);
    let got = n.receive_at(5_400).unwrap();
    assert_eq!(got.remaining_ms, 600);
    assert_eq!(got.from, r(2));
    assert!(n.receive_at(5_400).is_none());
}

#[test]
fn expired_message_not_delivered() {
    let mut n = MsgNode::new(r(1));
    n.send_at(r(2), r(1), b"old".to_vec(), 1_000, 5_000);
    assert_eq!(n.pending_at(6_001), 0);
    assert!(n.receive_at(6_001).is_none());
    assert_eq!(n.sweep_at(6_001), 1);
}

#[test]
fn messages_delivered_oldest_first() {
    let mut n = MsgNode::new(r(1));
    n.send_at(r(2), r(1), b"one".to_vec(), 10_000, 100);
    n.send_at(r(3), r(1), b"two".to_vec(), 10_000, 200);
    assert_eq!(n.pending_at(300), 2);
    assert_eq!(n.receive_at(300).unwrap().body, b"one");
    assert_eq!(n.receive_at(300).unwrap().body, b"two");
}
