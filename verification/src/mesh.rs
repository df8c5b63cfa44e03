//! The local mesh: known peers and the dispatch of tasks to the least
//! loaded peer that can take them.
//!
//! Peers are keyed by id: announcing a known id replaces its record.
//! Peers not seen within the freshness window are dropped by a sweep.

use vstd::prelude::*;
use crate::clock::now_ms;
use crate::text::str_eq;

verus! {

/// A peer on the local mesh.
#[derive(Clone, Debug)]
pub struct Peer {
    /// Stable id.
    pub id: String,
    /// Human-readable node name.
    pub name: String,
    /// Transport address (host:port).
    pub address: String,
    /// Discovered at (ms since the epoch).
    pub discovered_at_ms: u64,
    /// Last seen (ms since the epoch).
    pub last_seen_ms: u64,
    /// Approximate round-trip time in ms.
    pub rtt_ms: u32,
    /// CPU load, 0..=100.
    pub cpu_load: u8,
    /// Free RAM in MiB.
    pub free_ram_mib: u32,
    /// Currently running tasks.
    pub running_tasks: u32,
    /// Total tasks completed.
    pub tasks_completed: u64,
}

/// The load-balancing score of a peer: lower is better. CPU load counts
/// ten per percent, less than 256 MiB of free RAM costs 500, and each
/// running task 50.
pub open spec fn score(p: Peer) -> int {
    p.cpu_load * 10 + (if p.free_ram_mib < 256 { 500int } else { 0int }) + p.running_tasks * 50
}

/// True when a peer last seen at `last_seen_ms` is still fresh at `now_ms`.
pub open spec fn fresh_at(last_seen_ms: u64, now_ms: u64, freshness_ms: u64) -> bool {
    (if now_ms >= last_seen_ms { now_ms - last_seen_ms } else { 0 }) < freshness_ms
}

impl Peer {
    /// True if the peer has been seen within the freshness window.
    pub fn is_fresh(&self, now_ms: u64, freshness_ms: u64) -> (res: bool)
        ensures
            res == fresh_at(self.last_seen_ms, now_ms, freshness_ms),
    {
        now_ms.saturating_sub(self.last_seen_ms) < freshness_ms
    }

    /// The load-balancing score.
    pub fn load_score(&self) -> (res: u32)
        requires
            score(*self) <= u32::MAX,
        ensures
            res == score(*self),
    {
        let cpu = (self.cpu_load as u32) * 10;
        let ram_penalty: u32 = if self.free_ram_mib < 256 { 500 } else { 0 };
        let task_penalty = self.running_tasks * 50;
        cpu + ram_penalty + task_penalty
    }

    /// A field-for-field copy.
    pub fn copy(&self) -> (res: Peer)
        ensures
            res == *self,
    {
        Peer {
            id: self.id.clone(),
            name: self.name.clone(),
            address: self.address.clone(),
            discovered_at_ms: self.discovered_at_ms,
            last_seen_ms: self.last_seen_ms,
            rtt_ms: self.rtt_ms,
            cpu_load: self.cpu_load,
            free_ram_mib: self.free_ram_mib,
            running_tasks: self.running_tasks,
            tasks_completed: self.tasks_completed,
        }
    }
}

/// A task to be dispatched on the mesh.
#[derive(Clone, Debug)]
pub struct MeshTask {
    pub id: String,
    pub kind: String,
    pub cpu_cost: u8,
    pub ram_mib: u32,
    pub created_at_ms: u64,
}

/// True when a peer has the CPU headroom and the free RAM for a task.
pub open spec fn can_take(p: Peer, t: MeshTask) -> bool {
    &&& p.cpu_load + t.cpu_cost <= 100
    &&& p.free_ram_mib >= t.ram_mib
}

/// `i` is the first of the peers that can take the task with the lowest score.
pub open spec fn is_best(peers: Seq<Peer>, t: MeshTask, i: int) -> bool {
    &&& 0 <= i < peers.len()
    &&& can_take(peers[i], t)
    &&& forall|j: int| 0 <= j < peers.len() && can_take(peers[j], t) ==> score(peers[i]) <= score(
        #[trigger] peers[j],
    )
    &&& forall|j: int| 0 <= j < i && can_take(peers[j], t) ==> score(peers[i]) < score(
        #[trigger] peers[j],
    )
}

/// There is at most one best peer: the choice does not depend on anything
/// but the list and the task.
pub proof fn lemma_best_unique(peers: Seq<Peer>, t: MeshTask, i: int, j: int)
    requires
        is_best(peers, t, i),
        is_best(peers, t, j),
    ensures
        i == j,
{
    if i < j {
        assert(score(peers[j]) < score(peers[i]));
    } else if j < i {
        assert(score(peers[i]) < score(peers[j]));
    }
}

/// Every peer that could take the task has a score that fits in a `u32`.
pub open spec fn scores_fit(peers: Seq<Peer>, t: MeshTask) -> bool {
    forall|j: int| 0 <= j < peers.len() && can_take(#[trigger] peers[j], t) ==> score(peers[j]) <= u32::MAX
}

impl MeshTask {
    /// The index of the best peer for the task, or `None` when no peer can take it.
    pub fn best_index(&self, peers: &[Peer]) -> (res: Option<usize>)
        requires
            scores_fit(peers@, *self),
        ensures
            res is None <==> forall|j: int| 0 <= j < peers@.len() ==> !can_take(#[trigger] peers@[j], *self),
            res matches Some(i) ==> is_best(peers@, *self, i as int),
    {
        let mut best: Option<usize> = None;
        let mut best_score: u32 = 0;
        let mut i: usize = 0;
        while i < peers.len()
            invariant
                0 <= i <= peers@.len(),
                scores_fit(peers@, *self),
                best is None <==> forall|j: int| 0 <= j < i ==> !can_take(#[trigger] peers@[j], *self),
                best matches Some(b) ==> {
                    &&& b < i
                    &&& can_take(peers@[b as int], *self)
                    &&& best_score == score(peers@[b as int])
                    &&& forall|j: int| 0 <= j < i && can_take(peers@[j], *self) ==> score(peers@[b as int]) <= score(
                        #[trigger] peers@[j],
                    )
                    &&& forall|j: int| 0 <= j < b && can_take(peers@[j], *self) ==> score(peers@[b as int]) < score(
                        #[trigger] peers@[j],
                    )
                },
            decreases peers@.len() - i,
        {
            let p = &peers[i];
            if (p.cpu_load as u16) + (self.cpu_cost as u16) <= 100 && p.free_ram_mib >= self.ram_mib {
                let sc = p.load_score();
                match best {
                    None => {
                        best = Some(i);
                        best_score = sc;
                    },
                    Some(_) => {
                        if sc < best_score {
                            best = Some(i);
                            best_score = sc;
                        }
                    },
                }
            }
            i = i + 1;
        }
        best
    }

    /// The best peer for the task, or `None`.
    pub fn best_peer<'a>(&self, peers: &'a [Peer]) -> (res: Option<&'a Peer>)
        requires
            scores_fit(peers@, *self),
        ensures
            res is None <==> forall|j: int| 0 <= j < peers@.len() ==> !can_take(#[trigger] peers@[j], *self),
            res matches Some(p) ==> exists|i: int| is_best(peers@, *self, i) && *p == peers@[i],
    {
        match self.best_index(peers) {
            Some(i) => Some(&peers[i]),
            None => None,
        }
    }
}

/// The index of the peer with the given id, or -1.
pub open spec fn peer_index(peers: Seq<Peer>, id: Seq<char>) -> int {
    if exists|i: int| 0 <= i < peers.len() && (#[trigger] peers[i]).id@ == id {
        choose|i: int| 0 <= i < peers.len() && (#[trigger] peers[i]).id@ == id
    } else {
        -1
    }
}

/// No two peers share an id.
pub open spec fn unique_peer_ids(peers: Seq<Peer>) -> bool {
    forall|i: int, j: int| 0 <= i < j < peers.len() ==> (#[trigger] peers[i]).id@ != (#[trigger] peers[j]).id@
}

/// No two tasks share an id.
pub open spec fn unique_task_ids(tasks: Seq<MeshTask>) -> bool {
    forall|i: int, j: int| 0 <= i < j < tasks.len() ==> (#[trigger] tasks[i]).id@ != (#[trigger] tasks[j]).id@
}

/// The record kept for an announced peer seen at `now`: first discovery
/// is stamped `now` too.
pub open spec fn announced(peer: Peer, known: bool, now: u64) -> Peer {
    Peer {
        last_seen_ms: now,
        discovered_at_ms: if known { peer.discovered_at_ms } else { now },
        ..peer
    }
}

/// The peer list after announcing `peer` at `now`: the record of a known
/// id is replaced in place, a new id is added at the end.
pub open spec fn announce_outcome(s: Seq<Peer>, peer: Peer, now: u64, after: Seq<Peer>) -> bool {
    let k = peer_index(s, peer.id@);
    if k >= 0 {
        after == s.update(k, announced(peer, true, now))
    } else {
        after == s.push(announced(peer, false, now))
    }
}

/// The index of the task with the given id, or -1.
pub open spec fn task_index(tasks: Seq<MeshTask>, id: Seq<char>) -> int {
    if exists|i: int| 0 <= i < tasks.len() && (#[trigger] tasks[i]).id@ == id {
        choose|i: int| 0 <= i < tasks.len() && (#[trigger] tasks[i]).id@ == id
    } else {
        -1
    }
}

/// The pending tasks after recording `t`: a task with the same id is
/// replaced in place, a new id is added at the end.
pub open spec fn task_inserted(tasks: Seq<MeshTask>, t: MeshTask) -> Seq<MeshTask> {
    let k = task_index(tasks, t.id@);
    if k >= 0 {
        tasks.update(k, t)
    } else {
        tasks.push(t)
    }
}

/// The ids of the pending tasks.
pub open spec fn pending_ids(tasks: Seq<MeshTask>) -> Set<Seq<char>> {
    tasks.map_values(|t: MeshTask| t.id@).to_set()
}

/// The pending-task count is the number of distinct ids pending: a
/// submission that is placed adds its id to them, a completion that finds
/// its id removes it, and nothing else changes them.
pub proof fn lemma_pending_tasks_are_distinct_ids(tasks: Seq<MeshTask>, t: MeshTask, id: Seq<char>)
    requires
        unique_task_ids(tasks),
    ensures
        tasks.len() == pending_ids(tasks).len(),
        pending_ids(task_inserted(tasks, t)) == pending_ids(tasks).insert(t.id@),
        task_index(tasks, id) >= 0 ==> pending_ids(tasks.remove(task_index(tasks, id))) == pending_ids(tasks).remove(id),
{
    let f = |x: MeshTask| x.id@;
    let m = tasks.map_values(f);
    assert(m.no_duplicates()) by {
        assert forall|i: int, j: int| 0 <= i < m.len() && 0 <= j < m.len() && i != j implies m[i] != m[j] by {
            if i < j {
                assert(tasks[i].id@ != tasks[j].id@);
            } else {
                assert(tasks[j].id@ != tasks[i].id@);
            }
        }
    }
    m.unique_seq_to_set();
    let k = task_index(tasks, t.id@);
    if k >= 0 {
        assert(tasks[k].id@ == t.id@);
        assert(tasks.update(k, t).map_values(f) =~= m);
        assert(m.contains(m[k]));
        assert(pending_ids(tasks).insert(t.id@) =~= pending_ids(tasks));
    } else {
        let m2 = tasks.push(t).map_values(f);
        assert(m2 =~= m.push(t.id@));
        assert forall|e: Seq<char>| m2.to_set().contains(e) <==> m.to_set().insert(t.id@).contains(e) by {
            if m.contains(e) {
                let j = choose|j: int| 0 <= j < m.len() && m[j] == e;
                assert(m2[j] == e);
            }
            if m2.contains(e) {
                let j = choose|j: int| 0 <= j < m2.len() && m2[j] == e;
                if j < m.len() {
                    assert(m[j] == e);
                }
            }
            assert(m2[m.len() as int] == t.id@);
        }
        assert(m2.to_set() =~= m.to_set().insert(t.id@));
    }
    let r = task_index(tasks, id);
    if r >= 0 {
        assert(tasks[r].id@ == id);
        let m3 = tasks.remove(r).map_values(f);
        assert(m3 =~= m.remove(r));
        assert forall|e: Seq<char>| m3.to_set().contains(e) <==> m.to_set().remove(id).contains(e) by {
            if m3.contains(e) {
                let j = choose|j: int| 0 <= j < m3.len() && m3[j] == e;
                let j0 = if j < r { j } else { j + 1 };
                assert(m[j0] == e);
                assert(j0 != r);
                assert(m[r] == id);
            }
            if m.contains(e) && e != id {
                let j = choose|j: int| 0 <= j < m.len() && m[j] == e;
                assert(j != r);
                if j < r {
                    assert(m3[j] == e);
                } else {
                    assert(m3[j - 1] == e);
                }
            }
        }
        assert(m3.to_set() =~= m.to_set().remove(id));
    }
}

/// The peers still fresh at `now`, in order.
pub open spec fn fresh_peers(s: Seq<Peer>, now: u64, freshness_ms: u64) -> Seq<Peer> {
    s.filter(|p: Peer| fresh_at(p.last_seen_ms, now, freshness_ms))
}

/// Non-decreasing scores.
pub open spec fn sorted_by_score(s: Seq<Peer>) -> bool {
    forall|i: int, j: int| 0 <= i <= j < s.len() ==> score(#[trigger] s[i]) <= score(#[trigger] s[j])
}

impl MeshTask {
    /// A field-for-field copy.
    pub fn copy(&self) -> (res: MeshTask)
        ensures
            res == *self,
    {
        MeshTask {
            id: self.id.clone(),
            kind: self.kind.clone(),
            cpu_cost: self.cpu_cost,
            ram_mib: self.ram_mib,
            created_at_ms: self.created_at_ms,
        }
    }
}

/// A local mesh node: its known peers and its pending tasks.
pub struct MeshNode {
    peers: Vec<Peer>,
    tasks: Vec<MeshTask>,
    freshness_ms: u64,
    placed: Ghost<Set<Seq<char>>>,
}

impl MeshNode {
    /// The known peers.
    pub closed spec fn peer_list(&self) -> Seq<Peer> {
        self.peers@
    }

    /// The pending tasks.
    pub closed spec fn task_list(&self) -> Seq<MeshTask> {
        self.tasks@
    }

    /// The freshness window in ms.
    pub closed spec fn freshness(&self) -> u64 {
        self.freshness_ms
    }

    /// The ids of the tasks placed by a submission that returned a peer and
    /// not completed since.
    pub closed spec fn placed_ids(&self) -> Set<Seq<char>> {
        self.placed@
    }

    /// Peers and tasks are keyed by id, and the pending tasks are exactly
    /// the placed ones.
    pub open spec fn wf(&self) -> bool {
        &&& unique_peer_ids(self.peer_list())
        &&& unique_task_ids(self.task_list())
        &&& self.placed_ids() == pending_ids(self.task_list())
    }

    /// A node with no peers, no tasks and a 30 s freshness window.
    pub fn new() -> (res: MeshNode)
        ensures
            res.wf(),
            res.peer_list().len() == 0,
            res.task_list().len() == 0,
            res.placed_ids().len() == 0,
            res.freshness() == 30_000,
    {
        let res = MeshNode { peers: Vec::new(), tasks: Vec::new(), freshness_ms: 30_000, placed: Ghost(Set::empty()) };
        assert(pending_ids(res.tasks@) =~= Set::<Seq<char>>::empty());
        res
    }

    fn find_peer(&self, id: &str) -> (res: Option<usize>)
        ensures
            res is None <==> forall|j: int| 0 <= j < self.peers@.len() ==> (#[trigger] self.peers@[j]).id@ != id@,
            res matches Some(i) ==> i < self.peers@.len() && self.peers@[i as int].id@ == id@,
    {
        let mut i: usize = 0;
        while i < self.peers.len()
            invariant
                0 <= i <= self.peers@.len(),
                forall|j: int| 0 <= j < i ==> (#[trigger] self.peers@[j]).id@ != id@,
            decreases self.peers@.len() - i,
        {
            if str_eq(self.peers[i].id.as_str(), id) {
                return Some(i);
            }
            i = i + 1;
        }
        None
    }

    /// Records a peer seen at `now`, replacing the record of a known id.
    pub fn announce_at(&mut self, peer: Peer, now: u64)
        requires
            old(self).wf(),
        ensures
            final(self).wf(),
            final(self).task_list() == old(self).task_list(),
            final(self).freshness() == old(self).freshness(),
            announce_outcome(old(self).peer_list(), peer, now, final(self).peer_list()),
    {
        let ghost s = self.peers@;
        let mut peer = peer;
        peer.last_seen_ms = now;
        match self.find_peer(peer.id.as_str()) {
            Some(i) => {
                proof {
                    let k = peer_index(s, peer.id@);
                    assert(s[i as int].id@ == peer.id@);
                    assert(k == i as int);
                }
                self.peers.set(i, peer);
            },
            None => {
                peer.discovered_at_ms = now;
                self.peers.push(peer);
            },
        }
    }

    /// The index of the task with the given id, if any.
    fn find_task(&self, id: &str) -> (res: Option<usize>)
        ensures
            res is None <==> forall|j: int| 0 <= j < self.tasks@.len() ==> (#[trigger] self.tasks@[j]).id@ != id@,
            res matches Some(i) ==> i < self.tasks@.len() && self.tasks@[i as int].id@ == id@,
    {
        let mut i: usize = 0;
        while i < self.tasks.len()
            invariant
                0 <= i <= self.tasks@.len(),
                forall|j: int| 0 <= j < i ==> (#[trigger] self.tasks@[j]).id@ != id@,
            decreases self.tasks@.len() - i,
        {
            if str_eq(self.tasks[i].id.as_str(), id) {
                return Some(i);
            }
            i = i + 1;
        }
        None
    }

    /// Dispatches a task to the best peer: that peer's running-task count
    /// goes up by one and the task is recorded as pending (replacing a
    /// pending task with the same id). `None`, with nothing changed, when
    /// no peer can take it.
    pub fn submit(&mut self, task: MeshTask) -> (res: Option<String>)
        requires
            old(self).wf(),
            scores_fit(old(self).peer_list(), task),
            forall|j: int|
                0 <= j < old(self).peer_list().len() && can_take(
                    #[trigger] old(self).peer_list()[j],
                    task,
                ) ==> old(self).peer_list()[j].running_tasks < u32::MAX,
        ensures
            final(self).wf(),
            final(self).freshness() == old(self).freshness(),
            res is None <==> forall|j: int|
                0 <= j < old(self).peer_list().len() ==> !can_take(
                    #[trigger] old(self).peer_list()[j],
                    task,
                ),
            res is None ==> final(self).peer_list() == old(self).peer_list() && final(self).task_list()
                == old(self).task_list(),
            res matches Some(id) ==> exists|i: int|
                #![trigger is_best(old(self).peer_list(), task, i)]
                {
                    &&& is_best(old(self).peer_list(), task, i)
                    &&& id@ == old(self).peer_list()[i].id@
                    &&& final(self).peer_list() == old(self).peer_list().update(
                        i,
                        Peer {
                            running_tasks: (old(self).peer_list()[i].running_tasks + 1) as u32,
                            ..old(self).peer_list()[i]
                        },
                    )
                    &&& final(self).task_list() == task_inserted(old(self).task_list(), task)
                },
            res is Some ==> final(self).placed_ids() == old(self).placed_ids().insert(task.id@),
            res is None ==> final(self).placed_ids() == old(self).placed_ids(),
    {
        let ghost s = self.peers@;
        let chosen = match task.best_index(self.peers.as_slice()) {
            Some(i) => i,
            None => return None,
        };
        let id = self.peers[chosen].id.clone();
        let mut p = self.peers[chosen].copy();
        p.running_tasks = p.running_tasks + 1;
        self.peers.set(chosen, p);
        proof {
            assert forall|a: int, b: int| 0 <= a < b < self.peers@.len() implies (
            #[trigger] self.peers@[a]).id@ != (#[trigger] self.peers@[b]).id@ by {
                assert(self.peers@[a].id@ == s[a].id@);
                assert(self.peers@[b].id@ == s[b].id@);
            }
        }
        let ghost ts = self.tasks@;
        let ghost tid = task.id@;
        proof {
            lemma_pending_tasks_are_distinct_ids(ts, task, tid);
        }
        match self.find_task(task.id.as_str()) {
            Some(k) => {
                proof {
                    assert(task_index(ts, task.id@) == k as int);
                }
                self.tasks.set(k, task);
                proof {
                    assert forall|a: int, b: int| 0 <= a < b < self.tasks@.len() implies (
                    #[trigger] self.tasks@[a]).id@ != (#[trigger] self.tasks@[b]).id@ by {
                        assert(self.tasks@[a].id@ == ts[a].id@);
                        assert(self.tasks@[b].id@ == ts[b].id@);
                    }
                }
            },
            None => {
                self.tasks.push(task);
            },
        }
        self.placed = Ghost(self.placed@.insert(tid));
        assert(is_best(s, task, chosen as int));
        Some(id)
    }

    /// Marks a pending task as completed; false when no task has that id.
    pub fn complete(&mut self, task_id: &str) -> (res: bool)
        requires
            old(self).wf(),
        ensures
            final(self).wf(),
            final(self).peer_list() == old(self).peer_list(),
            final(self).freshness() == old(self).freshness(),
            res == (task_index(old(self).task_list(), task_id@) >= 0),
            res ==> final(self).task_list() == old(self).task_list().remove(
                task_index(old(self).task_list(), task_id@),
            ),
            !res ==> final(self).task_list() == old(self).task_list(),
            res ==> final(self).placed_ids() == old(self).placed_ids().remove(task_id@),
            !res ==> final(self).placed_ids() == old(self).placed_ids(),
    {
        let ghost ts = self.tasks@;
        match self.find_task(task_id) {
            Some(k) => {
                proof {
                    assert(task_index(ts, task_id@) == k as int);
                    lemma_pending_tasks_are_distinct_ids(ts, ts[k as int], task_id@);
                }
                self.tasks.remove(k);
                proof {
                    assert forall|a: int, b: int| 0 <= a < b < self.tasks@.len() implies (
                    #[trigger] self.tasks@[a]).id@ != (#[trigger] self.tasks@[b]).id@ by {
                        let a0 = if a < k { a } else { a + 1 };
                        let b0 = if b < k { b } else { b + 1 };
                        assert(self.tasks@[a] == ts[a0]);
                        assert(self.tasks@[b] == ts[b0]);
                    }
                }
                self.placed = Ghost(self.placed@.remove(task_id@));
                true
            },
            None => false,
        }
    }

    /// Drops the peers that are not fresh at `now`; returns how many.
    pub fn sweep_at(&mut self, now: u64) -> (res: usize)
        requires
            old(self).wf(),
        ensures
            final(self).wf(),
            final(self).task_list() == old(self).task_list(),
            final(self).freshness() == old(self).freshness(),
            final(self).peer_list() == fresh_peers(old(self).peer_list(), now, old(self).freshness()),
            res == old(self).peer_list().len() - final(self).peer_list().len(),
    {
        let ghost s = self.peers@;
        let ghost pred = |p: Peer| fresh_at(p.last_seen_ms, now, self.freshness_ms);
        let n = self.peers.len();
        let mut kept: Vec<Peer> = Vec::new();
        let mut i: usize = 0;
        proof {
            reveal(Seq::filter);
            assert(s.take(0) =~= Seq::<Peer>::empty());
        }
        while i < n
            invariant
                0 <= i <= n,
                n == s.len(),
                self.peers@ == s,
                pred == (|p: Peer| fresh_at(p.last_seen_ms, now, self.freshness_ms)),
                kept@ == s.take(i as int).filter(pred),
                kept@.len() <= i,
                forall|a: int| 0 <= a < kept@.len() ==> exists|b: int| 0 <= b < i && #[trigger] kept@[a] == s[b],
                forall|a: int, b: int| 0 <= a < b < kept@.len() ==> exists|c: int, d: int| 0 <= c < d < i && (#[trigger] kept@[a]) == s[c] && (#[trigger] kept@[b]) == s[d],
            decreases n - i,
        {
            proof {
                reveal(Seq::filter);
                assert(s.take(i + 1).drop_last() =~= s.take(i as int));
                assert(s.take(i + 1).last() == s[i as int]);
                assert(s.take(i + 1).filter(pred) == if pred(s[i as int]) {
                    s.take(i as int).filter(pred).push(s[i as int])
                } else {
                    s.take(i as int).filter(pred)
                });
            }
            if self.peers[i].is_fresh(now, self.freshness_ms) {
                assert(pred(s[i as int]));
                let c = self.peers[i].copy();
                let ghost k0 = kept@;
                kept.push(c);
                proof {
                    assert forall|a: int, b: int| 0 <= a < b < kept@.len() implies exists|c: int, d: int| 0 <= c < d < i + 1 && (#[trigger] kept@[a]) == s[c] && (#[trigger] kept@[b]) == s[d] by {
                        if b < k0.len() {
                            assert(kept@[a] == k0[a]);
                            assert(kept@[b] == k0[b]);
                        } else {
                            assert(kept@[a] == k0[a]);
                            let c = choose|c: int| 0 <= c < i && #[trigger] k0[a] == s[c];
                            assert(kept@[b] == s[i as int]);
                            assert(0 <= c < i && kept@[a] == s[c] && kept@[b] == s[i as int]);
                        }
                    }
                    assert forall|a: int| 0 <= a < kept@.len() implies exists|b: int| 0 <= b < i + 1 && #[trigger] kept@[a] == s[b] by {
                        if a < k0.len() {
                            assert(kept@[a] == k0[a]);
                        } else {
                            assert(kept@[a] == s[i as int]);
                        }
                    }
                }
            } else {
                assert(!pred(s[i as int]));
            }
            i = i + 1;
        }
        proof {
            assert(s.take(n as int) =~= s);
            assert forall|a: int, b: int| 0 <= a < b < kept@.len() implies (#[trigger] kept@[a]).id@ != (#[trigger] kept@[b]).id@ by {
                let (c, d) = choose|c: int, d: int| 0 <= c < d < n && (#[trigger] kept@[a]) == s[c] && (#[trigger] kept@[b]) == s[d];
                assert(s[c].id@ != s[d].id@);
            }
        }
        let removed = n - kept.len();
        self.peers = kept;
        removed
    }

    /// Drops the peers not seen within the freshness window; returns how many.
    pub fn sweep(&mut self) -> (res: usize)
        requires
            old(self).wf(),
        ensures
            final(self).wf(),
            final(self).task_list() == old(self).task_list(),
            final(self).freshness() == old(self).freshness(),
            exists|now: u64| final(self).peer_list() == #[trigger] fresh_peers(
                old(self).peer_list(),
                now,
                old(self).freshness(),
            ),
            res == old(self).peer_list().len() - final(self).peer_list().len(),
    {
        let now = now_ms();
        self.sweep_at(now)
    }

    /// The known peers, best (lowest score) first.
    pub fn peers(&self) -> (res: Vec<Peer>)
        requires
            forall|j: int| 0 <= j < self.peer_list().len() ==> score(#[trigger] self.peer_list()[j]) <= u32::MAX,
        ensures
            res@.to_multiset() == self.peer_list().to_multiset(),
            sorted_by_score(res@),
    {
        let ghost s = self.peers@;
        let n = self.peers.len();
        let mut res: Vec<Peer> = Vec::new();
        let mut i: usize = 0;
        proof {
            assert(s.take(0) =~= Seq::<Peer>::empty());
            assert forall|j: int| 0 <= j < n implies score(#[trigger] s[j]) <= u32::MAX by {
                assert(s[j] == self.peer_list()[j]);
            }
        }
        while i < n
            invariant
                0 <= i <= n,
                n == s.len(),
                self.peers@ == s,
                forall|j: int| 0 <= j < n ==> score(#[trigger] s[j]) <= u32::MAX,
                res@.to_multiset() == s.take(i as int).to_multiset(),
                forall|j: int| 0 <= j < res@.len() ==> score(#[trigger] res@[j]) <= u32::MAX,
                sorted_by_score(res@),
            decreases n - i,
        {
            let p = self.peers[i].copy();
            let sc = p.load_score();
            let mut pos: usize = 0;
            while pos < res.len()
                invariant
                    0 <= pos <= res@.len(),
                    sc == score(p),
                    forall|j: int| 0 <= j < res@.len() ==> score(#[trigger] res@[j]) <= u32::MAX,
                    forall|j: int| 0 <= j < pos ==> score(#[trigger] res@[j]) <= sc,
                ensures
                    0 <= pos <= res@.len(),
                    forall|j: int| 0 <= j < pos ==> score(#[trigger] res@[j]) <= sc,
                    pos < res@.len() ==> score(res@[pos as int]) > sc,
                decreases res@.len() - pos,
            {
                if res[pos].load_score() > sc {
                    break;
                }
                pos = pos + 1;
            }
            let ghost r0 = res@;
            proof {
                vstd::seq_lib::to_multiset_insert(r0, pos as int, p);
                assert(s.take(i + 1) =~= s.take(i as int).push(s[i as int]));
                vstd::seq_lib::to_multiset_build(s.take(i as int), s[i as int]);
            }
            res.insert(pos, p);
            proof {
                assert forall|a: int, b: int| 0 <= a <= b < res@.len() implies score(#[trigger] res@[a]) <= score(#[trigger] res@[b]) by {
                    let a0 = if a < pos { a } else if a == pos { -1 } else { a - 1 };
                    let b0 = if b < pos { b } else if b == pos { -1 } else { b - 1 };
                    if a0 >= 0 && b0 >= 0 {
                        assert(res@[a] == r0[a0] && res@[b] == r0[b0]);
                    } else if a0 < 0 && b0 >= 0 {
                        assert(res@[b] == r0[b0]);
                        if b0 >= pos {
                            assert(score(r0[pos as int]) <= score(r0[b0]));
                        }
                    } else if a0 >= 0 && b0 < 0 {
                        assert(res@[a] == r0[a0]);
                    }
                }
                assert forall|j: int| 0 <= j < res@.len() implies score(#[trigger] res@[j]) <= u32::MAX by {
                    if j < pos {
                        assert(res@[j] == r0[j]);
                    } else if j > pos {
                        assert(res@[j] == r0[j - 1]);
                    }
                }
            }
            i = i + 1;
        }
        proof {
            assert(s.take(n as int) =~= s);
        }
        res
    }

    /// The number of pending tasks: the number of distinct ids placed by a
    /// submission that returned a peer and not completed since.
    pub fn pending_tasks(&self) -> (res: usize)
        requires
            self.wf(),
        ensures
            res == self.task_list().len(),
            res == self.placed_ids().len(),
    {
        proof {
            lemma_pending_tasks_are_distinct_ids(self.tasks@, vstd::pervasive::arbitrary(), Seq::empty());
        }
        self.tasks.len()
    }

    /// Records a peer seen now.
    pub fn announce(&mut self, peer: Peer)
        requires
            old(self).wf(),
        ensures
            final(self).wf(),
            final(self).task_list() == old(self).task_list(),
            final(self).freshness() == old(self).freshness(),
            exists|now: u64| #[trigger] announce_outcome(old(self).peer_list(), peer, now, final(self).peer_list()),
    {
        let now = now_ms();
        self.announce_at(peer, now);
        assert(announce_outcome(old(self).peer_list(), peer, now, self.peer_list()));
    }
}

} // verus!
