//! The search engine: the sources it federates, its queries, and the local
//! index that answers them, best results first.

use vstd::prelude::*;
use crate::text::{str_eq, strings_view, to_lowercase, unicode_lowercase};

verus! {

/// A federated data source.
#[derive(Clone, Debug)]
pub enum DataSource {
    /// A library mirror.
    AnnasArchive,
    /// Scientific preprints.
    ArXiv,
    /// Biomedical literature.
    PubMed,
    /// A local wiki mirror.
    Wiki,
    /// Content shared by nodes of the mesh.
    PolyMesh,
    /// A custom engine, named by its URL.
    Custom(String),
}

/// The label of each source (a custom source is labelled by its URL).
pub open spec fn source_label(s: DataSource) -> Seq<char> {
    match s {
        DataSource::AnnasArchive => "\u{1F4DA} Anna's Archive"@,
        DataSource::ArXiv => "\u{1F52C} arXiv"@,
        DataSource::PubMed => "\u{1F3E5} PubMed"@,
        DataSource::Wiki => "\u{1F4D6} Wiki"@,
        DataSource::PolyMesh => "\u{2B21} PolyMesh"@,
        DataSource::Custom(u) => u@,
    }
}

impl DataSource {
    /// The source's label.
    pub fn label(&self) -> (res: &str)
        ensures
            res@ == source_label(*self),
    {
        match self {
            DataSource::AnnasArchive => "\u{1F4DA} Anna's Archive",
            DataSource::ArXiv => "\u{1F52C} arXiv",
            DataSource::PubMed => "\u{1F3E5} PubMed",
            DataSource::Wiki => "\u{1F4D6} Wiki",
            DataSource::PolyMesh => "\u{2B21} PolyMesh",
            DataSource::Custom(u) => u.as_str(),
        }
    }
}

/// A search query.
#[derive(Clone, Debug)]
pub struct SearchQuery {
    pub terms: Vec<String>,
    pub sources: Vec<DataSource>,
    pub max_results: usize,
    pub timeout_ms: u64,
}


impl Default for SearchQuery {
    /// No terms; every built-in source; twenty results; five seconds.
    fn default() -> (res: SearchQuery)
        ensures
            res.terms@.len() == 0,
            res.sources@.len() == 5,
            res.sources@[0] matches DataSource::AnnasArchive,
            res.sources@[1] matches DataSource::ArXiv,
            res.sources@[2] matches DataSource::PubMed,
            res.sources@[3] matches DataSource::Wiki,
            res.sources@[4] matches DataSource::PolyMesh,
            res.max_results == 20,
            res.timeout_ms == 5000,
    {
        let mut sources: Vec<DataSource> = Vec::new();
        sources.push(DataSource::AnnasArchive);
        sources.push(DataSource::ArXiv);
        sources.push(DataSource::PubMed);
        sources.push(DataSource::Wiki);
        sources.push(DataSource::PolyMesh);
        SearchQuery { terms: Vec::new(), sources, max_results: 20, timeout_ms: 5000 }
    }
}


/// A source as plain values: its kind and, for a custom one, its URL.
pub open spec fn source_view(s: DataSource) -> (nat, Seq<char>) {
    match s {
        DataSource::AnnasArchive => (0, Seq::empty()),
        DataSource::ArXiv => (1, Seq::empty()),
        DataSource::PubMed => (2, Seq::empty()),
        DataSource::Wiki => (3, Seq::empty()),
        DataSource::PolyMesh => (4, Seq::empty()),
        DataSource::Custom(u) => (5, u@),
    }
}

impl DataSource {
    /// A copy of the source.
    pub fn copy(&self) -> (res: DataSource)
        ensures
            source_view(res) == source_view(*self),
    {
        match self {
            DataSource::AnnasArchive => DataSource::AnnasArchive,
            DataSource::ArXiv => DataSource::ArXiv,
            DataSource::PubMed => DataSource::PubMed,
            DataSource::Wiki => DataSource::Wiki,
            DataSource::PolyMesh => DataSource::PolyMesh,
            DataSource::Custom(u) => DataSource::Custom(u.clone()),
        }
    }
}

/// One search result. Its relevance score is fractional; the program
/// around the library hands it in as `score_rank`, a number that orders
/// results as their scores do (equal scores, equal ranks).
#[derive(Debug)]
pub struct SearchResult {
    pub title: String,
    pub url: String,
    pub snippet: String,
    pub source: DataSource,
    /// Higher ranks come first.
    pub score_rank: u32,
    pub size_bytes: u64,
}

/// A result as plain values.
pub type ResultView = (Seq<char>, Seq<char>, Seq<char>, (nat, Seq<char>), u32, u64);

/// The plain values of a result.
pub open spec fn result_view(r: SearchResult) -> ResultView {
    (r.title@, r.url@, r.snippet@, source_view(r.source), r.score_rank, r.size_bytes)
}

/// The plain values of a list of results.
pub open spec fn result_views(s: Seq<SearchResult>) -> Seq<ResultView> {
    s.map_values(|r: SearchResult| result_view(r))
}

impl SearchResult {
    /// A copy of the result.
    pub fn copy(&self) -> (res: SearchResult)
        ensures
            result_view(res) == result_view(*self),
    {
        SearchResult {
            title: self.title.clone(),
            url: self.url.clone(),
            snippet: self.snippet.clone(),
            source: self.source.copy(),
            score_rank: self.score_rank,
            size_bytes: self.size_bytes,
        }
    }
}

/// Where a result of rank `r` goes in a list already best-first: before
/// the first result of a lower rank, so after every result ranked as high.
pub open spec fn first_below(t: Seq<ResultView>, r: u32) -> nat
    decreases t.len(),
{
    if t.len() == 0 {
        0
    } else if t[0].4 < r {
        0
    } else {
        1 + first_below(t.drop_first(), r)
    }
}

/// The results best first; results of equal rank keep their order.
pub open spec fn best_first(s: Seq<ResultView>) -> Seq<ResultView>
    decreases s.len(),
{
    if s.len() == 0 {
        Seq::empty()
    } else {
        let t = best_first(s.drop_last());
        t.insert(first_below(t, s.last().4) as int, s.last())
    }
}

/// Ranks never rise along the list.
pub open spec fn ranked(t: Seq<ResultView>) -> bool {
    forall|i: int, j: int| 0 <= i < j < t.len() ==> t[i].4 >= t[j].4
}

proof fn lemma_first_below_at(t: Seq<ResultView>, r: u32, j: int)
    requires
        0 <= j <= t.len(),
        forall|m: int| 0 <= m < j ==> t[m].4 >= r,
        j < t.len() ==> t[j].4 < r,
    ensures
        first_below(t, r) == j,
    decreases j,
{
    if j > 0 {
        assert forall|m: int| 0 <= m < j - 1 implies t.drop_first()[m].4 >= r by {
            assert(t.drop_first()[m] == t[m + 1]);
        }
        if j < t.len() {
            assert(t.drop_first()[j - 1] == t[j]);
        }
        lemma_first_below_at(t.drop_first(), r, j - 1);
    }
}

proof fn lemma_first_below_bounds(t: Seq<ResultView>, r: u32)
    ensures
        first_below(t, r) <= t.len(),
        forall|m: int| 0 <= m < first_below(t, r) ==> t[m].4 >= r,
        first_below(t, r) < t.len() ==> t[first_below(t, r) as int].4 < r,
    decreases t.len(),
{
    if t.len() > 0 && t[0].4 >= r {
        lemma_first_below_bounds(t.drop_first(), r);
        assert forall|m: int| 0 <= m < first_below(t, r) implies t[m].4 >= r by {
            if m > 0 {
                assert(t[m] == t.drop_first()[m - 1]);
            }
        }
        if first_below(t, r) < t.len() {
            assert(t[first_below(t, r) as int] == t.drop_first()[first_below(t.drop_first(), r) as int]);
        }
    }
}

/// The results come out best first, and they are the results that went in.
pub proof fn lemma_best_first_ranked(s: Seq<ResultView>)
    ensures
        ranked(best_first(s)),
        best_first(s).to_multiset() == s.to_multiset(),
    decreases s.len(),
{
    if s.len() > 0 {
        let t = best_first(s.drop_last());
        lemma_best_first_ranked(s.drop_last());
        let x = s.last();
        let p = first_below(t, x.4) as int;
        lemma_first_below_bounds(t, x.4);
        let u = t.insert(p, x);
        assert forall|i: int, j: int| 0 <= i < j < u.len() implies u[i].4 >= u[j].4 by {
            if j < p {
                assert(u[i] == t[i] && u[j] == t[j]);
            } else if j == p {
                assert(u[i] == t[i]);
            } else if i == p {
                assert(u[j] == t[j - 1]);
                if j - 1 > p {
                    assert(t[p].4 >= t[j - 1].4);
                }
            } else if i < p {
                assert(u[i] == t[i] && u[j] == t[j - 1]);
            } else {
                assert(u[i] == t[i - 1] && u[j] == t[j - 1]);
            }
        }
        vstd::seq_lib::to_multiset_insert(t, p, x);
        s.drop_last().to_multiset_ensures();
        assert(s.drop_last().push(x).to_multiset() =~= s.drop_last().to_multiset().insert(x));
        assert(s.drop_last().push(x) =~= s);
        assert(best_first(s) == u);
    } else {
        assert(s =~= Seq::<ResultView>::empty());
    }
}


fn append_copies(out: &mut Vec<SearchResult>, src: &Vec<SearchResult>)
    ensures
        result_views(final(out)@) == result_views(old(out)@) + result_views(src@),
{
    let mut k: usize = 0;
    while k < src.len()
        invariant
            0 <= k <= src@.len(),
            result_views(out@) == result_views(old(out)@) + result_views(src@.take(k as int)),
        decreases src@.len() - k,
    {
        let ghost before = out@;
        let c = src[k].copy();
        out.push(c);
        proof {
            assert(result_views(out@) =~= result_views(before).push(result_view(src@[k as int])));
            assert(result_views(src@.take(k as int + 1)) =~= result_views(src@.take(k as int)).push(result_view(src@[k as int])));
        }
        k = k + 1;
    }
    proof {
        assert(src@.take(k as int) =~= src@);
    }
}

/// Orders results best first; results of equal rank keep their order.
pub fn sort_best_first(v: Vec<SearchResult>) -> (res: Vec<SearchResult>)
    ensures
        result_views(res@) == best_first(result_views(v@)),
{
    let ghost orig = v@;
    let mut rest = v;
    let mut out: Vec<SearchResult> = Vec::new();
    let ghost mut k: int = 0;
    while rest.len() > 0
        invariant
            0 <= k <= orig.len(),
            rest@ == orig.skip(k),
            result_views(out@) == best_first(result_views(orig.take(k))),
        decreases rest@.len(),
    {
        let x = rest.remove(0);
        let r = x.score_rank;
        let mut j: usize = 0;
        while j < out.len() && out[j].score_rank >= r
            invariant
                0 <= j <= out@.len(),
                forall|m: int| 0 <= m < j ==> out@[m].score_rank >= r,
            decreases out@.len() - j,
        {
            j = j + 1;
        }
        proof {
            let t = result_views(out@);
            assert forall|m: int| 0 <= m < j implies t[m].4 >= r by {
                assert(t[m] == result_view(out@[m]));
            }
            if j < out@.len() {
                assert(t[j as int] == result_view(out@[j as int]));
            }
            lemma_first_below_at(t, r, j as int);
            assert(x == orig[k]);
            assert(result_views(orig.take(k + 1)).drop_last() =~= result_views(orig.take(k)));
            assert(result_views(orig.take(k + 1)).last() == result_view(orig[k]));
        }
        let ghost before = out@;
        out.insert(j, x);
        proof {
            assert(result_views(out@) =~= result_views(before).insert(j as int, result_view(x)));
            k = k + 1;
            assert(rest@ =~= orig.skip(k));
        }
    }
    proof {
        assert(orig.take(k) =~= orig);
    }
    out
}

/// An index entry as plain values: its key and its results.
pub type EntryView = (Seq<char>, Seq<ResultView>);

/// The plain values of the index.
pub open spec fn index_view(ix: Seq<(String, Vec<SearchResult>)>) -> Seq<EntryView> {
    ix.map_values(|e: (String, Vec<SearchResult>)| (e.0@, result_views(e.1@)))
}

/// Entry `i` has key `k`.
pub open spec fn key_at(v: Seq<EntryView>, k: Seq<char>, i: int) -> bool {
    0 <= i < v.len() && v[i].0 == k
}

/// Some entry has key `k`.
pub open spec fn has_key(v: Seq<EntryView>, k: Seq<char>) -> bool {
    exists|i: int| key_at(v, k, i)
}

/// No two entries share a key.
pub open spec fn keys_distinct(v: Seq<EntryView>) -> bool {
    forall|i: int, j: int| 0 <= i < j < v.len() ==> (#[trigger] v[i]).0 != (#[trigger] v[j]).0
}

/// The index after filing result `r` under key `k`: appended to the
/// entry of that key, or in a new last entry.
pub open spec fn indexed(v: Seq<EntryView>, k: Seq<char>, r: ResultView) -> Seq<EntryView> {
    if has_key(v, k) {
        let i = choose|i: int| key_at(v, k, i);
        v.update(i, (k, v[i].1.push(r)))
    } else {
        v.push((k, seq![r]))
    }
}

/// The results filed under key `k`.
pub open spec fn hits_for(v: Seq<EntryView>, k: Seq<char>) -> Seq<ResultView> {
    if has_key(v, k) {
        v[choose|i: int| key_at(v, k, i)].1
    } else {
        Seq::empty()
    }
}

/// The results of each term (in lower case), term after term.
pub open spec fn gathered(v: Seq<EntryView>, terms: Seq<Seq<char>>) -> Seq<ResultView>
    decreases terms.len(),
{
    if terms.len() == 0 {
        Seq::empty()
    } else {
        gathered(v, terms.drop_last()) + hits_for(v, unicode_lowercase(terms.last()))
    }
}

/// How many terms (in lower case) have an entry.
pub open spec fn found_count(v: Seq<EntryView>, terms: Seq<Seq<char>>) -> nat
    decreases terms.len(),
{
    if terms.len() == 0 {
        0
    } else {
        found_count(v, terms.drop_last()) + if has_key(v, unicode_lowercase(terms.last())) { 1nat } else { 0nat }
    }
}

proof fn lemma_found_count_bound(v: Seq<EntryView>, terms: Seq<Seq<char>>)
    ensures
        found_count(v, terms) <= terms.len(),
    decreases terms.len(),
{
    if terms.len() > 0 {
        lemma_found_count_bound(v, terms.drop_last());
    }
}

/// The best `n` results of a search, best first.
pub open spec fn answer(v: Seq<EntryView>, terms: Seq<Seq<char>>, n: nat) -> Seq<ResultView> {
    let b = best_first(gathered(v, terms));
    if n <= b.len() { b.take(n as int) } else { b }
}

/// A local search node: results filed by lower-case key, the peers that
/// also serve results, and how many searched terms had an entry.
#[derive(Debug)]
pub struct SearchNode {
    pub index: Vec<(String, Vec<SearchResult>)>,
    pub peers: Vec<String>,
    pub cache_hits: u64,
    pub cache_misses: u64,
}

impl Default for SearchNode {
    /// An empty node.
    fn default() -> (res: SearchNode)
        ensures
            res.wf(),
            res.index@.len() == 0,
            res.peers@.len() == 0,
            res.cache_hits == 0,
            res.cache_misses == 0,
    {
        SearchNode::new()
    }
}

impl SearchNode {
    /// Keys are distinct and peers are listed once each.
    pub open spec fn wf(&self) -> bool {
        &&& keys_distinct(index_view(self.index@))
        &&& forall|i: int, j: int| 0 <= i < j < self.peers@.len() ==> (#[trigger] self.peers@[i])@ != (#[trigger] self.peers@[j])@
    }

    /// An empty node.
    pub fn new() -> (res: SearchNode)
        ensures
            res.wf(),
            res.index@.len() == 0,
            res.peers@.len() == 0,
            res.cache_hits == 0,
            res.cache_misses == 0,
    {
        SearchNode { index: Vec::new(), peers: Vec::new(), cache_hits: 0, cache_misses: 0 }
    }

    fn find_key(&self, key: &str) -> (res: Option<usize>)
        ensures
            match res {
                Some(i) => key_at(index_view(self.index@), key@, i as int),
                None => !has_key(index_view(self.index@), key@),
            },
    {
        let mut i: usize = 0;
        while i < self.index.len()
            invariant
                0 <= i <= self.index@.len(),
                forall|k: int| 0 <= k < i ==> !key_at(index_view(self.index@), key@, k),
            decreases self.index@.len() - i,
        {
            if str_eq(self.index[i].0.as_str(), key) {
                return Some(i);
            }
            i = i + 1;
        }
        None
    }

    /// Files a result under `key`, in lower case.
    pub fn index(&mut self, key: &str, result: SearchResult)
        requires
            old(self).wf(),
        ensures
            final(self).wf(),
            index_view(final(self).index@) == indexed(index_view(old(self).index@), unicode_lowercase(key@), result_view(result)),
            final(self).peers@ == old(self).peers@,
            final(self).cache_hits == old(self).cache_hits,
            final(self).cache_misses == old(self).cache_misses,
    {
        let k = to_lowercase(key);
        let ghost v = index_view(self.index@);
        let ghost rv = result_view(result);
        match self.find_key(k.as_str()) {
            Some(i) => {
                let mut entry = self.index.remove(i);
                let ghost mid = self.index@;
                entry.1.push(result);
                self.index.insert(i, entry);
                proof {
                    let c = choose|j: int| key_at(v, k@, j);
                    assert(key_at(v, k@, c));
                    if c != i as int {
                        if c < i as int {
                            assert(v[c].0 != v[i as int].0);
                        } else {
                            assert(v[i as int].0 != v[c].0);
                        }
                    }
                    assert(result_views(entry.1@) =~= v[i as int].1.push(rv));
                    assert(index_view(self.index@) =~= v.update(i as int, (k@, v[i as int].1.push(rv))));
                    let w = index_view(self.index@);
                    assert forall|a: int, b: int| 0 <= a < b < w.len() implies (#[trigger] w[a]).0 != (#[trigger] w[b]).0 by {
                        assert(w[a].0 == v[a].0 && w[b].0 == v[b].0);
                    }
                }
            },
            None => {
                let mut list: Vec<SearchResult> = Vec::new();
                list.push(result);
                self.index.push((k, list));
                proof {
                    assert(result_views(list@) =~= seq![rv]);
                    assert(index_view(self.index@) =~= v.push((k@, seq![rv])));
                    let w = index_view(self.index@);
                    assert forall|a: int, b: int| 0 <= a < b < w.len() implies (#[trigger] w[a]).0 != (#[trigger] w[b]).0 by {
                        if b == v.len() {
                            if w[a].0 == k@ {
                                assert(key_at(v, k@, a));
                            }
                        } else {
                            assert(w[a].0 == v[a].0 && w[b].0 == v[b].0);
                        }
                    }
                }
            },
        }
    }

    fn knows_peer(&self, peer: &str) -> (res: bool)
        ensures
            res == exists|i: int| 0 <= i < self.peers@.len() && self.peers@[i]@ == peer@,
    {
        let mut i: usize = 0;
        while i < self.peers.len()
            invariant
                0 <= i <= self.peers@.len(),
                forall|k: int| 0 <= k < i ==> self.peers@[k]@ != peer@,
            decreases self.peers@.len() - i,
        {
            if str_eq(self.peers[i].as_str(), peer) {
                return true;
            }
            i = i + 1;
        }
        false
    }

    /// Adds a peer that also serves results, unless it is listed already.
    pub fn add_peer(&mut self, peer: String)
        requires
            old(self).wf(),
        ensures
            final(self).wf(),
            final(self).index@ == old(self).index@,
            final(self).cache_hits == old(self).cache_hits,
            final(self).cache_misses == old(self).cache_misses,
            (exists|i: int| 0 <= i < old(self).peers@.len() && old(self).peers@[i]@ == peer@) ==> final(self).peers@
                == old(self).peers@,
            !(exists|i: int| 0 <= i < old(self).peers@.len() && old(self).peers@[i]@ == peer@) ==> final(self).peers@
                == old(self).peers@.push(peer),
    {
        if !self.knows_peer(peer.as_str()) {
            let ghost p = peer@;
            self.peers.push(peer);
            proof {
                assert forall|i: int, j: int| 0 <= i < j < self.peers@.len() implies (#[trigger] self.peers@[i])@ != (
                #[trigger] self.peers@[j])@ by {
                    if j == self.peers@.len() - 1 {
                        assert(self.peers@[i] == old(self).peers@[i]);
                    } else {
                        assert(old(self).peers@[i]@ != old(self).peers@[j]@);
                    }
                }
            }
        }
    }

    /// Looks each term up (in lower case) in the local index, counting the
    /// terms found and not found, and returns what was found, best first,
    /// at most `max_results` of them. Peers are not asked yet.
    pub fn search(&mut self, query: &SearchQuery) -> (res: Vec<SearchResult>)
        requires
            old(self).wf(),
            old(self).cache_hits + query.terms@.len() <= u64::MAX,
            old(self).cache_misses + query.terms@.len() <= u64::MAX,
        ensures
            final(self).wf(),
            final(self).index@ == old(self).index@,
            final(self).peers@ == old(self).peers@,
            final(self).cache_hits == old(self).cache_hits + found_count(index_view(old(self).index@), strings_view(query.terms@)),
            final(self).cache_misses == old(self).cache_misses + query.terms@.len()
                - found_count(index_view(old(self).index@), strings_view(query.terms@)),
            result_views(res@) == answer(index_view(old(self).index@), strings_view(query.terms@), query.max_results as nat),
    {
        let ghost v = index_view(self.index@);
        let ghost ts = strings_view(query.terms@);
        let mut results: Vec<SearchResult> = Vec::new();
        let mut i: usize = 0;
        while i < query.terms.len()
            invariant
                0 <= i <= query.terms@.len(),
                ts == strings_view(query.terms@),
                v == index_view(self.index@),
                self.wf(),
                self.index@ == old(self).index@,
                self.peers@ == old(self).peers@,
                result_views(results@) == gathered(v, ts.take(i as int)),
                found_count(v, ts.take(i as int)) <= i,
                self.cache_hits == old(self).cache_hits + found_count(v, ts.take(i as int)),
                self.cache_misses == old(self).cache_misses + i - found_count(v, ts.take(i as int)),
                old(self).cache_hits + query.terms@.len() <= u64::MAX,
                old(self).cache_misses + query.terms@.len() <= u64::MAX,
            decreases query.terms@.len() - i,
        {
            let lower = to_lowercase(query.terms[i].as_str());
            proof {
                assert(ts.take(i as int + 1).drop_last() =~= ts.take(i as int));
                assert(ts.take(i as int + 1).last() == query.terms@[i as int]@);
            }
            match self.find_key(lower.as_str()) {
                Some(j) => {
                    proof {
                        let c = choose|m: int| key_at(v, lower@, m);
                        assert(key_at(v, lower@, c));
                        if c != j as int {
                            if c < j as int {
                                assert(v[c].0 != v[j as int].0);
                            } else {
                                assert(v[j as int].0 != v[c].0);
                            }
                        }
                        assert(v[j as int].1 == result_views(self.index@[j as int].1@));
                    }
                    append_copies(&mut results, &self.index[j].1);
                    self.cache_hits = self.cache_hits + 1;
                },
                None => {
                    assert(hits_for(v, lower@) =~= Seq::<ResultView>::empty());
                    assert(result_views(results@) =~= result_views(results@) + Seq::<ResultView>::empty());
                    self.cache_misses = self.cache_misses + 1;
                },
            }
            i = i + 1;
        }
        proof {
            assert(ts.take(i as int) =~= ts);
        }
        let mut sorted = sort_best_first(results);
        sorted.truncate(query.max_results);
        sorted
    }

    /// Terms found, terms not found, and peers known.
    pub fn stats(&self) -> (res: (u64, u64, usize))
        ensures
            res == (self.cache_hits, self.cache_misses, self.peers@.len() as usize),
    {
        (self.cache_hits, self.cache_misses, self.peers.len())
    }

    /// Whether nothing has been filed.
    pub fn is_empty(&self) -> (res: bool)
        ensures
            res == (self.index@.len() == 0),
    {
        self.index.len() == 0
    }
}

} // verus!
