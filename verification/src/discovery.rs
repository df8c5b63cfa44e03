//! The peers this node has discovered and the bootstrap nodes it was given.
//! Peer identifiers are held in their text form; the DHT and mDNS traffic
//! that finds them belongs to the network layer around the library.

use vstd::prelude::*;
use crate::text::str_eq;

verus! {

/// The texts of a list of peer identifiers.
pub open spec fn peer_texts(s: Seq<String>) -> Seq<Seq<char>> {
    s.map_values(|p: String| p@)
}

/// No identifier occurs twice.
pub open spec fn no_repeats(s: Seq<Seq<char>>) -> bool {
    forall|i: int, j: int| 0 <= i < j < s.len() ==> s[i] != s[j]
}

/// Known peers (each once, in the order found) and bootstrap nodes.
#[derive(Debug)]
pub struct DiscoveryService {
    pub peers: Vec<String>,
    pub bootstrap_nodes: Vec<String>,
}

impl Default for DiscoveryService {
    /// No peers and no bootstrap nodes.
    fn default() -> (res: DiscoveryService)
        ensures
            res.peers@.len() == 0,
            res.bootstrap_nodes@.len() == 0,
    {
        DiscoveryService { peers: Vec::new(), bootstrap_nodes: Vec::new() }
    }
}

impl DiscoveryService {
    /// Each peer is known once.
    pub open spec fn wf(&self) -> bool {
        no_repeats(peer_texts(self.peers@))
    }

    /// The set of known peers.
    pub open spec fn known(&self) -> Set<Seq<char>> {
        peer_texts(self.peers@).to_set()
    }

    /// No peers and no bootstrap nodes.
    pub fn new() -> (res: DiscoveryService)
        ensures
            res.wf(),
            res.peers@.len() == 0,
            res.bootstrap_nodes@.len() == 0,
    {
        DiscoveryService { peers: Vec::new(), bootstrap_nodes: Vec::new() }
    }

    /// Adds a bootstrap node (a node given twice counts twice).
    pub fn add_bootstrap(&mut self, peer_id: String)
        ensures
            final(self).peers@ == old(self).peers@,
            peer_texts(final(self).bootstrap_nodes@) == peer_texts(old(self).bootstrap_nodes@).push(peer_id@),
    {
        self.bootstrap_nodes.push(peer_id);
        proof {
            assert(peer_texts(self.bootstrap_nodes@) =~= peer_texts(old(self).bootstrap_nodes@).push(peer_id@));
        }
    }

    fn knows(&self, peer_id: &str) -> (res: bool)
        ensures
            res == peer_texts(self.peers@).contains(peer_id@),
    {
        let mut i: usize = 0;
        while i < self.peers.len()
            invariant
                0 <= i <= self.peers@.len(),
                forall|k: int| 0 <= k < i ==> self.peers@[k]@ != peer_id@,
            decreases self.peers@.len() - i,
        {
            if str_eq(self.peers[i].as_str(), peer_id) {
                assert(peer_texts(self.peers@)[i as int] == peer_id@);
                return true;
            }
            i = i + 1;
        }
        proof {
            if peer_texts(self.peers@).contains(peer_id@) {
                let k = choose|k: int| 0 <= k < peer_texts(self.peers@).len() && peer_texts(self.peers@)[k] == peer_id@;
                assert(self.peers@[k]@ == peer_id@);
            }
        }
        false
    }

    /// Records a discovered peer; one already known is not added again.
    pub fn record_peer(&mut self, peer_id: String)
        requires
            old(self).wf(),
        ensures
            final(self).wf(),
            final(self).bootstrap_nodes@ == old(self).bootstrap_nodes@,
            peer_texts(old(self).peers@).contains(peer_id@) ==> final(self).peers@ == old(self).peers@,
            !peer_texts(old(self).peers@).contains(peer_id@) ==> peer_texts(final(self).peers@) == peer_texts(
                old(self).peers@,
            ).push(peer_id@),
            final(self).known() == old(self).known().insert(peer_id@),
    {
        if !self.knows(peer_id.as_str()) {
            self.peers.push(peer_id);
            proof {
                let t = peer_texts(self.peers@);
                assert(t =~= peer_texts(old(self).peers@).push(peer_id@));
                assert forall|i: int, j: int| 0 <= i < j < t.len() implies t[i] != t[j] by {
                    if j == t.len() - 1 {
                        assert(peer_texts(old(self).peers@)[i] == t[i]);
                    }
                }
                peer_texts(old(self).peers@).lemma_push_to_set_commute(peer_id@);
            }
        } else {
            proof {
                assert(peer_texts(old(self).peers@).to_set().contains(peer_id@));
                assert(self.known() =~= old(self).known().insert(peer_id@));
            }
        }
    }

    /// Copies of the known peers.
    pub fn get_peers(&self) -> (res: Vec<String>)
        ensures
            peer_texts(res@) == peer_texts(self.peers@),
    {
        let mut out: Vec<String> = Vec::new();
        let mut i: usize = 0;
        while i < self.peers.len()
            invariant
                0 <= i <= self.peers@.len(),
                peer_texts(out@) == peer_texts(self.peers@.take(i as int)),
            decreases self.peers@.len() - i,
        {
            let p = self.peers[i].clone();
            let ghost before = out@;
            out.push(p);
            proof {
                assert(peer_texts(out@) =~= peer_texts(before).push(self.peers@[i as int]@));
                assert(peer_texts(self.peers@.take(i as int + 1)) =~= peer_texts(self.peers@.take(i as int)).push(
                    self.peers@[i as int]@,
                ));
            }
            i = i + 1;
        }
        proof {
            assert(self.peers@.take(i as int) =~= self.peers@);
        }
        out
    }

    /// How many peers are known.
    pub fn peer_count(&self) -> (res: usize)
        requires
            self.wf(),
        ensures
            res == self.peers@.len(),
            res == self.known().len(),
    {
        proof {
            let t = peer_texts(self.peers@);
            assert(t.no_duplicates()) by {
                assert forall|i: int, j: int| 0 <= i < t.len() && 0 <= j < t.len() && i != j implies t[i] != t[j] by {
                    if i < j {
                    } else {
                        assert(t[j] != t[i]);
                    }
                }
            }
            t.unique_seq_to_set();
        }
        self.peers.len()
    }

    /// Whether any peer is known.
    pub fn has_peers(&self) -> (res: bool)
        ensures
            res == (self.peers@.len() > 0),
    {
        self.peers.len() > 0
    }

    /// How many bootstrap nodes were given.
    pub fn bootstrap_count(&self) -> (res: usize)
        ensures
            res == self.bootstrap_nodes@.len(),
    {
        self.bootstrap_nodes.len()
    }

    /// Forgets every known peer (the bootstrap nodes stay).
    pub fn clear_peers(&mut self)
        ensures
            final(self).wf(),
            final(self).peers@.len() == 0,
            final(self).bootstrap_nodes@ == old(self).bootstrap_nodes@,
    {
        self.peers = Vec::new();
    }
}

} // verus!
