use polygone::search::{sort_best_first, DataSource, SearchNode, SearchQuery, SearchResult};

fn sample() -> SearchResult {
    // A score of 1.0, handed in as its rank.
    SearchResult {
        title: "Test Doc".into(),
        url: "poly://test/doc".into(),
        snippet: "Un document de test".into(),
        source: DataSource::Wiki,
        score_rank: 1,
        size_bytes: 1024,
    }
}

fn ranked(title: &str, rank: u32) -> SearchResult {
    SearchResult { title: title.into(), url: String::new(), snippet: String::new(), source: DataSource::ArXiv, score_rank: rank, size_bytes: 0 }
}

#[test]
fn index_and_search() {
    let mut n = SearchNode::new();
    n.index("test", sample());
    let q = SearchQuery { terms: vec!["test".into()], ..Default::default() };
    let r = n.search(&q);
    assert_eq!(r.len(), 1);
    assert_eq!(r[0].title, "Test Doc");
}

#[test]
fn empty_query_returns_nothing() {
    let n = SearchNode::new();
    assert!(n.is_empty());
}

#[test]
fn peer_list_grows() {
    let mut n = SearchNode::new();
    n.add_peer("polygone://peer1".into());
    n.add_peer("polygone://peer2".into());
    assert_eq!(n.stats().2, 2);
}

#[test]
fn no_duplicate_peers() {
    let mut n = SearchNode::new();
    n.add_peer("polygone://x".into());
    n.add_peer("polygone://x".into());
    assert_eq!(n.stats().2, 1);
}

#[test]
fn keys_and_terms_are_lower_cased() {
    let mut n = SearchNode::default();
    n.index("RUST", ranked("a", 3));
    n.index("rust", ranked("b", 5));
    let q = SearchQuery { terms: vec!["Rust".into(), "go".into()], ..Default::default() };
    let titles: Vec<String> = n.search(&q).into_iter().map(|r| r.title).collect();
    assert_eq!(titles, vec!["b", "a"]);
    assert_eq!(n.stats(), (1, 1, 0));
}

#[test]
fn best_first_keeps_ties_in_order_and_truncates() {
    let mut n = SearchNode::new();
    n.index("k", ranked("low", 1));
    n.index("k", ranked("tie1", 7));
    n.index("k", ranked("high", 9));
    n.index("k", ranked("tie2", 7));
    let q = SearchQuery { terms: vec!["k".into()], max_results: 3, ..Default::default() };
    let titles: Vec<String> = n.search(&q).into_iter().map(|r| r.title).collect();
    assert_eq!(titles, vec!["high", "tie1", "tie2"]);
    let all: Vec<String> = sort_best_first(vec![ranked("x", 0), ranked("y", 2), ranked("z", 0)]).into_iter().map(|r| r.title).collect();
    assert_eq!(all, vec!["y", "x", "z"]);
}

#[test]
fn repeated_terms_repeat_results() {
    let mut n = SearchNode::new();
    n.index("a", ranked("one", 4));
    let q = SearchQuery { terms: vec!["a".into(), "A".into()], ..Default::default() };
    assert_eq!(n.search(&q).len(), 2);
    assert_eq!(n.stats(), (2, 0, 0));
}
