use polygone::drive::{stream_slice, DriveNode, Quota, Range, DEFAULT_QUOTA, LINK_TTL_MS};

fn node() -> DriveNode {
    DriveNode::new("/srv/polydrive".to_string())
}

/// Stores `data` the way the node's caller does: plan, build the record,
/// (write the bytes to its path,) then record.
fn put(n: &mut DriveNode, name: &str, data: Vec<u8>, mime: Option<String>, owner: &str) -> Option<String> {
    let id = n.plan_put(&data)?;
    let meta = n.put_meta(id.clone(), name.to_string(), &data, mime, owner.to_string());
    if !n.record_put(meta) {
        return None;
    }
    Some(id)
}

/// Reads a range the way the node's caller does: plan, then cut the bytes.
fn stream(n: &DriveNode, id: &str, r: Range, contents: &[u8]) -> Option<Vec<u8>> {
    let (_, offset, len) = n.stream_plan(id, r)?;
    stream_slice(contents, offset, len)
}

#[test]
fn put_meta_roundtrip() {
    let mut n = node();
    let id = put(&mut n, "a.txt", b"abc".to_vec(), Some("text/plain".into()), "o").expect("p");
    let m = n.meta(&id).expect("m");
    assert_eq!(m.size, 3);
}

#[test]
fn stream_range() {
    let mut n = node();
    let id = put(&mut n, "a", (0u8..=9).collect(), None, "o").expect("p");
    let (path, offset, len) = n.stream_plan(&id, Range { start: 3, end: 5 }).expect("s");
    assert_eq!(path, format!("/srv/polydrive/{}", id));
    assert_eq!((offset, len), (3, 3));
    // Past the end the range is cut at the last byte; from past the end nothing.
    assert_eq!(n.stream_plan(&id, Range { start: 8, end: 100 }).map(|p| p.2), Some(2));
    assert!(n.stream_plan(&id, Range { start: 10, end: 12 }).is_none());
    let data: Vec<u8> = (0u8..=9).collect();
    assert_eq!(stream(&n, &id, Range { start: 3, end: 5 }, &data), Some(vec![3, 4, 5]));
    assert_eq!(stream(&n, &id, Range { start: 8, end: 100 }, &data), Some(vec![8, 9]));
    // A file shorter on disk than its record reads as nothing.
    assert_eq!(stream(&n, &id, Range { start: 8, end: 100 }, &data[..9]), None);
}

#[test]
fn put_meta_records_name_size_owner_and_path() {
    let n = DriveNode::new("/srv/polydrive".to_string());
    let m = n.put_meta_at("file:ab".to_string(), "a.txt".to_string(), b"abc", Some("text/plain".into()), "o".to_string(), 42);
    assert_eq!(m.id, "file:ab");
    assert_eq!(m.name, "a.txt");
    assert_eq!(m.size, 3);
    assert_eq!(m.mime.as_deref(), Some("text/plain"));
    assert_eq!(m.owner, "o");
    assert_eq!(m.path, "/srv/polydrive/file:ab");
    assert_eq!(m.uploaded_at_ms, 42);
    // A root that ends in a slash gets no second one.
    let n = DriveNode::new("/srv/".to_string());
    assert_eq!(n.file_path("file:ab"), "/srv/file:ab");
    assert_eq!(stream_slice(b"hello", 1, 3), Some(b"ell".to_vec()));
    assert_eq!(stream_slice(b"hello", 4, 2), None);
}

#[test]
fn link_resolves_within_24h() {
    let mut n = node();
    let id = put(&mut n, "a", b"x".to_vec(), None, "o").expect("p");
    let t = n.link(&id).expect("l");
    assert_eq!(t.len(), 32);
    assert_eq!(n.resolve_link(&t), Some(id.as_str()));
    assert_eq!(n.resolve_link("nope"), None);
}

#[test]
fn link_expires_after_24h() {
    let mut n = node();
    let id = put(&mut n, "a", b"x".to_vec(), None, "o").expect("p");
    let t = n.link_at(&id, 1_000).expect("l");
    assert_eq!(n.resolve_link_at(&t, 1_000 + LINK_TTL_MS), Some(id.as_str()));
    assert!(n.resolve_link_at(&t, 1_001 + LINK_TTL_MS).is_none());
    assert_eq!(n.sweep_links_at(1_001 + LINK_TTL_MS), 1);
}

#[test]
fn delete_invalidates_link() {
    let mut n = node();
    let id = put(&mut n, "a", b"xx".to_vec(), None, "o").expect("p");
    let t = n.link(&id).expect("l");
    n.delete(&id).expect("d");
    assert!(n.resolve_link(&t).is_none());
}

#[test]
fn quota_blocks_oversize() {
    let mut n = node();
    n.set_quota(Quota { used: 0, cap: 5 });
    assert!(put(&mut n, "a", vec![0; 100], None, "o").is_none());
}

#[test]
fn quota_counts_and_releases() {
    let mut n = node();
    assert_eq!(n.quota().cap, DEFAULT_QUOTA);
    let id = put(&mut n, "a", vec![7; 40], None, "o").unwrap();
    assert_eq!(n.quota().used, 40);
    assert_eq!(n.len(), 1);
    assert_eq!(n.delete(&id), Some(40));
    assert_eq!(n.quota().used, 0);
    assert_eq!(n.len(), 0);
    assert!(n.delete(&id).is_none());
}

#[test]
fn ids_come_from_content() {
    let n = node();
    let a = n.plan_put(b"same").unwrap();
    let b = n.plan_put(b"same").unwrap();
    let c = n.plan_put(b"other").unwrap();
    assert_eq!(a, b);
    assert_ne!(a, c);
    assert!(a.starts_with("file:"));
    assert_eq!(a.len(), 5 + 32);
}

#[test]
fn links_to_unknown_files_are_refused() {
    let mut n = node();
    assert!(n.link("file:nope").is_none());
    assert!(n.meta("file:nope").is_none());
}

#[test]
fn quota_free_space() {
    let q = Quota { used: 3, cap: 5 };
    assert_eq!(q.free(), 2);
    assert!(q.can_fit(2));
    assert!(!q.can_fit(3));
    assert_eq!(Quota { used: 9, cap: 5 }.free(), 0);
    assert_eq!(Quota::default_10gib().cap, 10 * 1024 * 1024 * 1024);
}

#[test]
fn quota_used_is_the_sum_of_stored_sizes() {
    let mut n = node();
    n.set_quota(Quota { used: 0, cap: 100 });
    let a = put(&mut n, "a", vec![1; 30], None, "o").unwrap();
    let b = put(&mut n, "b", vec![2; 50], None, "o").unwrap();
    let t = n.link(&a).unwrap();
    n.sweep_links();
    assert_eq!(n.quota().used, 80);
    // 30 more would pass the cap: refused, nothing recorded.
    assert!(put(&mut n, "c", vec![3; 30], None, "o").is_none());
    assert_eq!((n.quota().used, n.len()), (80, 2));
    let meta = n.put_meta("file:x".to_string(), "x".to_string(), &[0; 30], None, "o".to_string());
    assert!(!n.record_put(meta));
    assert_eq!(n.delete(&a), Some(30));
    assert!(n.resolve_link(&t).is_none());
    assert_eq!(n.quota().used, 50);
    assert_eq!(n.meta(&b).unwrap().size, 50);
    // Putting stored bytes again counts them twice, as the node always has.
    assert_eq!(put(&mut n, "b", vec![2; 50], None, "o"), Some(b.clone()));
    assert_eq!((n.quota().used, n.len()), (100, 1));
}
