//! The anonymising proxy's bookkeeping: circuits through a guard and an
//! exit, their rotation, and the connection counters. Moving the bytes
//! belongs to the program that runs the proxy.

use vstd::prelude::*;
use crate::clock::now_ms;
use crate::numfmt::{decimal, push_decimal};
use crate::text::{owned, push_char, str_eq};

verus! {

/// An IP address, as the number of its bits (127.0.0.1 is 0x7f00_0001).
#[derive(Clone, Copy, Debug, PartialEq, Eq, Structural)]
pub enum IpAddress {
    V4(u32),
    V6(u128),
}

/// A socket address: an IP address and a port.
#[derive(Clone, Copy, Debug, PartialEq, Eq, Structural)]
pub struct HopAddr {
    pub ip: IpAddress,
    pub port: u16,
}

/// An anonymised circuit (guard, then exit).
#[derive(Clone, Debug)]
pub struct Circuit {
    pub id: String,
    pub hops: Vec<HopAddr>,
    pub built_at_ms: u64,
    /// How long the circuit lives, in milliseconds.
    pub ttl_ms: u64,
}

/// True when a circuit built at `built_at_ms` living `ttl_ms` is alive at
/// `now` (a clock that went backwards counts as no time).
pub open spec fn alive_at(built_at_ms: u64, ttl_ms: u64, now: u64) -> bool {
    (if now >= built_at_ms { now - built_at_ms } else { 0 }) < ttl_ms
}

impl Circuit {
    /// True when the circuit is alive at `now_ms`.
    pub fn is_alive(&self, now_ms: u64) -> (res: bool)
        ensures
            res == alive_at(self.built_at_ms, self.ttl_ms, now_ms),
    {
        now_ms.saturating_sub(self.built_at_ms) < self.ttl_ms
    }

    fn copy(&self) -> (res: Circuit)
        ensures
            circuit_view(res) == circuit_view(*self),
    {
        Circuit { id: self.id.clone(), hops: self.hops.clone(), built_at_ms: self.built_at_ms, ttl_ms: self.ttl_ms }
    }
}

/// The proxy's settings.
#[derive(Clone, Debug)]
pub struct ProxyConfig {
    pub bind: HopAddr,
    pub guards: Vec<HopAddr>,
    pub exits: Vec<HopAddr>,
    /// How long each circuit lives, in milliseconds.
    pub rotation_ms: u64,
}

impl Default for ProxyConfig {
    /// Listening on 127.0.0.1:9050, no guards, no exits, ten-minute
    /// circuits.
    fn default() -> (res: ProxyConfig)
        ensures
            res.bind == (HopAddr { ip: IpAddress::V4(0x7f00_0001u32), port: 9050u16 }),
            res.guards@.len() == 0,
            res.exits@.len() == 0,
            res.rotation_ms == 600_000,
    {
        ProxyConfig {
            bind: HopAddr { ip: IpAddress::V4(0x7f00_0001), port: 9050 },
            guards: Vec::new(),
            exits: Vec::new(),
            rotation_ms: 600_000,
        }
    }
}

/// The proxy's counters.
#[derive(Clone, Copy, Debug)]
pub struct ProxyStats {
    pub bytes_relayed: u64,
    pub active_conns: u32,
    pub total_conns: u64,
    pub refused: u64,
}

/// All counters at zero.
pub open spec fn zero_stats() -> ProxyStats {
    ProxyStats { bytes_relayed: 0, active_conns: 0, total_conns: 0, refused: 0 }
}

impl Default for ProxyStats {
    /// All counters at zero.
    fn default() -> (res: ProxyStats)
        ensures
            res == zero_stats(),
    {
        ProxyStats { bytes_relayed: 0, active_conns: 0, total_conns: 0, refused: 0 }
    }
}

/// A circuit as plain values.
pub open spec fn circuit_view(c: Circuit) -> CircuitView {
    (c.id@, c.hops@, c.built_at_ms, c.ttl_ms)
}

/// The id of the circuit through a guard and an exit: `circ:`, the
/// guard's port, `:`, the exit's port.
pub open spec fn circuit_id(guard_port: u16, exit_port: u16) -> Seq<char> {
    "circ:"@ + decimal(guard_port as nat) + ":"@ + decimal(exit_port as nat)
}

/// A circuit as plain values: id, hops, build time, lifetime.
pub type CircuitView = (Seq<char>, Seq<HopAddr>, u64, u64);

/// The index of the circuit with the given id, or -1.
pub open spec fn circuit_index(s: Seq<CircuitView>, id: Seq<char>) -> int {
    if exists|i: int| 0 <= i < s.len() && (#[trigger] s[i]).0 == id {
        choose|i: int| 0 <= i < s.len() && (#[trigger] s[i]).0 == id
    } else {
        -1
    }
}

/// True when a circuit is alive at `now`.
pub open spec fn view_alive(c: CircuitView, now: u64) -> bool {
    alive_at(c.2, c.3, now)
}

/// The index of the first circuit alive at `now`, or -1.
pub open spec fn first_alive(s: Seq<CircuitView>, now: u64) -> int
    decreases s.len(),
{
    if s.len() == 0 {
        -1
    } else {
        let p = first_alive(s.drop_last(), now);
        if p >= 0 {
            p
        } else if view_alive(s.last(), now) {
            s.len() - 1
        } else {
            -1
        }
    }
}

proof fn lemma_first_alive(s: Seq<CircuitView>, now: u64)
    ensures
        -1 <= first_alive(s, now) < s.len(),
        first_alive(s, now) >= 0 ==> view_alive(s[first_alive(s, now)], now),
        forall|j: int|
            0 <= j < s.len() && (first_alive(s, now) < 0 || j < first_alive(s, now)) ==> !view_alive(
                #[trigger] s[j],
                now,
            ),
    decreases s.len(),
{
    if s.len() > 0 {
        let t = s.drop_last();
        lemma_first_alive(t, now);
        assert forall|j: int|
            0 <= j < s.len() && (first_alive(s, now) < 0 || j < first_alive(s, now)) implies !view_alive(
                #[trigger] s[j],
                now,
            ) by {
            if j < s.len() - 1 {
                assert(s[j] == t[j]);
            }
        }
    }
}

/// The circuits still alive at `now`, in order.
pub open spec fn alive_circuits(s: Seq<CircuitView>, now: u64) -> Seq<CircuitView> {
    s.filter(|c: CircuitView| view_alive(c, now))
}

/// The anonymising proxy.
pub struct HideProxy {
    cfg: ProxyConfig,
    circuits: Vec<Circuit>,
    stats: ProxyStats,
}

/// What picking a circuit at `now` does: the first circuit alive at `now`
/// is reused and nothing changes; without one, a circuit is built at `now`
/// (through the first guard and the first exit), or the request is refused
/// and counted when there is no guard or no exit.
pub open spec fn picked_at(a: HideProxy, b: HideProxy, res: Option<String>, now: u64) -> bool {
    let k = first_alive(a.circuit_list(), now);
    if k >= 0 {
        &&& res matches Some(r) && r@ == a.circuit_list()[k].0
        &&& b == a
    } else {
        built_at(a, b, res, now)
    }
}

/// What building a circuit at `now` does: through the first guard and the
/// first exit, living as long as the rotation says, replacing a circuit of
/// the same id or added last; without a guard or an exit, the request is
/// refused and counted.
pub open spec fn built_at(a: HideProxy, b: HideProxy, res: Option<String>, now: u64) -> bool {
    let cfg = a.settings();
    if cfg.guards@.len() == 0 || cfg.exits@.len() == 0 {
        &&& res is None
        &&& b.counters() == (ProxyStats { refused: (a.counters().refused + 1) as u64, ..a.counters() })
        &&& b.circuit_list() == a.circuit_list()
    } else {
        let g = cfg.guards@[0];
        let e = cfg.exits@[0];
        let id = circuit_id(g.port, e.port);
        &&& res matches Some(r) && r@ == id
        &&& b.counters() == a.counters()
        &&& b.circuit_list() == ({
            let v = a.circuit_list();
            let k = circuit_index(v, id);
            let c = (id, seq![g, e], now, cfg.rotation_ms);
            if k >= 0 { v.update(k, c) } else { v.push(c) }
        })
    }
}

impl HideProxy {
    /// The circuits, in the order they were first built.
    pub closed spec fn circuit_list(&self) -> Seq<CircuitView> {
        self.circuits@.map_values(|c: Circuit| circuit_view(c))
    }

    /// The counters.
    pub closed spec fn counters(&self) -> ProxyStats {
        self.stats
    }

    /// The settings.
    pub closed spec fn settings(&self) -> ProxyConfig {
        self.cfg
    }

    /// The proxy's invariant: no two circuits share an id.
    pub closed spec fn wf(&self) -> bool {
        forall|a: int, b: int|
            0 <= a < b < self.circuits@.len() ==> (#[trigger] self.circuits@[a]).id@ != (
            #[trigger] self.circuits@[b]).id@
    }

    /// A proxy with the given settings, no circuits and zero counters.
    pub fn new(cfg: ProxyConfig) -> (res: HideProxy)
        ensures
            res.wf(),
            res.circuit_list().len() == 0,
            res.counters() == zero_stats(),
            res.settings() == cfg,
    {
        let p = HideProxy { cfg, circuits: Vec::new(), stats: ProxyStats::default() };
        assert(p.circuit_list() =~= Seq::empty());
        p
    }

    fn find(&self, id: &str) -> (res: Option<usize>)
        ensures
            res is None <==> forall|j: int| 0 <= j < self.circuits@.len() ==> (#[trigger] self.circuits@[j]).id@ != id@,
            res matches Some(i) ==> i < self.circuits@.len() && self.circuits@[i as int].id@ == id@,
    {
        let mut i: usize = 0;
        while i < self.circuits.len()
            invariant
                0 <= i <= self.circuits@.len(),
                forall|j: int| 0 <= j < i ==> (#[trigger] self.circuits@[j]).id@ != id@,
            decreases self.circuits@.len() - i,
        {
            if str_eq(self.circuits[i].id.as_str(), id) {
                return Some(i);
            }
            i = i + 1;
        }
        None
    }

    /// Builds a circuit through the first guard and the first exit at
    /// `now`, living as long as the rotation says, and returns its id
    /// (`circ:<guard port>:<exit port>`); a circuit with that id is
    /// replaced. Without a guard or an exit the request is refused and
    /// counted.
    pub fn build_circuit_at(&mut self, now: u64) -> (res: Option<String>)
        requires
            old(self).wf(),
            old(self).counters().refused < u64::MAX,
        ensures
            final(self).wf(),
            final(self).settings() == old(self).settings(),
            built_at(*old(self), *final(self), res, now),
    {
        if self.cfg.guards.len() == 0 || self.cfg.exits.len() == 0 {
            self.stats.refused = self.stats.refused + 1;
            return None;
        }
        let g = self.cfg.guards[0];
        let e = self.cfg.exits[0];
        let mut id = owned("circ:");
        push_decimal(&mut id, g.port as u64);
        push_char(&mut id, ':');
        push_decimal(&mut id, e.port as u64);
        proof {
            reveal_strlit(":");
            assert(id@ =~= circuit_id(g.port, e.port));
        }
        let mut hops: Vec<HopAddr> = Vec::new();
        hops.push(g);
        hops.push(e);
        let c = Circuit { id: id.clone(), hops, built_at_ms: now, ttl_ms: self.cfg.rotation_ms };
        let ghost s = self.circuits@;
        let ghost v = self.circuits@.map_values(|x: Circuit| circuit_view(x));
        proof {
            assert(circuit_view(c) == (id@, seq![g, e], now, self.cfg.rotation_ms));
        }
        match self.find(id.as_str()) {
            Some(i) => {
                proof {
                    assert(v[i as int].0 == id@);
                    assert(circuit_index(v, id@) >= 0);
                    let k = circuit_index(v, id@);
                    if k != i as int {
                        assert(s[k].id@ == v[k].0);
                        assert(s[k].id@ == s[i as int].id@);
                        if k < i { assert(s[k].id@ != s[i as int].id@); } else { assert(s[i as int].id@ != s[k].id@); }
                    }
                }
                self.circuits.set(i, c);
                proof {
                    assert(self.circuits@.map_values(|x: Circuit| circuit_view(x)) =~= v.update(i as int, circuit_view(c)));
                    assert forall|a: int, b: int| 0 <= a < b < self.circuits@.len() implies (
                    #[trigger] self.circuits@[a]).id@ != (#[trigger] self.circuits@[b]).id@ by {
                        assert(self.circuits@[a].id@ == s[a].id@);
                        assert(self.circuits@[b].id@ == s[b].id@);
                    }
                }
            },
            None => {
                proof {
                    assert forall|j: int| 0 <= j < v.len() implies (#[trigger] v[j]).0 != id@ by {
                        assert(v[j].0 == s[j].id@);
                    }
                    assert(circuit_index(v, id@) < 0);
                }
                self.circuits.push(c);
                proof {
                    assert(self.circuits@.map_values(|x: Circuit| circuit_view(x)) =~= v.push(circuit_view(c)));
                    assert forall|a: int, b: int| 0 <= a < b < self.circuits@.len() implies (
                    #[trigger] self.circuits@[a]).id@ != (#[trigger] self.circuits@[b]).id@ by {
                        assert(self.circuits@[a] == s[a]);
                        if b < s.len() {
                            assert(self.circuits@[b] == s[b]);
                        }
                    }
                }
            },
        }
        Some(id)
    }

    /// Builds a circuit now (see [`HideProxy::build_circuit_at`]).
    pub fn build_circuit(&mut self) -> (res: Option<String>)
        requires
            old(self).wf(),
            old(self).counters().refused < u64::MAX,
        ensures
            final(self).wf(),
            final(self).settings() == old(self).settings(),
            ({
                let cfg = old(self).settings();
                if cfg.guards@.len() == 0 || cfg.exits@.len() == 0 {
                    &&& res is None
                    &&& final(self).counters() == (ProxyStats { refused: (old(self).counters().refused + 1) as u64, ..old(self).counters() })
                    &&& final(self).circuit_list() == old(self).circuit_list()
                } else {
                    let id = circuit_id(cfg.guards@[0].port, cfg.exits@[0].port);
                    &&& res matches Some(r) && r@ == id
                    &&& final(self).counters() == old(self).counters()
                    &&& final(self).circuit_list().len() >= old(self).circuit_list().len()
                }
            }),
    {
        let now = now_ms();
        self.build_circuit_at(now)
    }

    /// The id of the first circuit alive at `now`, or else of a circuit
    /// built at `now`.
    pub fn pick_circuit_at(&mut self, now: u64) -> (res: Option<String>)
        requires
            old(self).wf(),
            old(self).counters().refused < u64::MAX,
        ensures
            final(self).wf(),
            final(self).settings() == old(self).settings(),
            picked_at(*old(self), *final(self), res, now),
    {
        let ghost s = self.circuits@;
        let ghost v = self.circuit_list();
        let mut i: usize = 0;
        while i < self.circuits.len()
            invariant
                0 <= i <= s.len(),
                s == self.circuits@,
                v == s.map_values(|x: Circuit| circuit_view(x)),
                self.wf(),
                forall|j: int| 0 <= j < i ==> !view_alive(#[trigger] v[j], now),
            decreases s.len() - i,
        {
            proof {
                assert(v[i as int] == circuit_view(s[i as int]));
            }
            if self.circuits[i].is_alive(now) {
                proof {
                    lemma_first_alive(v, now);
                    let p = first_alive(v, now);
                    if p >= 0 && p < i {
                        assert(!view_alive(v[p], now));
                    }
                    if p < 0 || i < p {
                        assert(!view_alive(v[i as int], now));
                    }
                }
                return Some(self.circuits[i].id.clone());
            }
            i = i + 1;
        }
        proof {
            lemma_first_alive(v, now);
            if first_alive(v, now) >= 0 {
                let p = first_alive(v, now);
                assert(!view_alive(v[p], now));
            }
        }
        self.build_circuit_at(now)
    }

    /// The id of an alive circuit, or else of a new one, as
    /// [`HideProxy::pick_circuit_at`] picks it at the time read from the clock.
    pub fn pick_circuit(&mut self) -> (res: Option<String>)
        requires
            old(self).wf(),
            old(self).counters().refused < u64::MAX,
        ensures
            final(self).wf(),
            final(self).settings() == old(self).settings(),
            exists|now: u64| picked_at(*old(self), *final(self), res, now),
    {
        let now = now_ms();
        self.pick_circuit_at(now)
    }

    /// Records a new connection; returns its number (the total so far).
    pub fn open_conn(&mut self) -> (res: u64)
        requires
            old(self).wf(),
            old(self).counters().total_conns < u64::MAX,
            old(self).counters().active_conns < u32::MAX,
        ensures
            final(self).wf(),
            final(self).counters() == (ProxyStats {
                total_conns: (old(self).counters().total_conns + 1) as u64,
                active_conns: (old(self).counters().active_conns + 1) as u32,
                ..old(self).counters()
            }),
            res == final(self).counters().total_conns,
            final(self).circuit_list() == old(self).circuit_list(),
            final(self).settings() == old(self).settings(),
    {
        self.stats.total_conns = self.stats.total_conns + 1;
        self.stats.active_conns = self.stats.active_conns + 1;
        self.stats.total_conns
    }

    /// Records `n` bytes relayed.
    pub fn record_traffic(&mut self, n: u64)
        requires
            old(self).wf(),
            old(self).counters().bytes_relayed + n <= u64::MAX,
        ensures
            final(self).wf(),
            final(self).counters() == (ProxyStats {
                bytes_relayed: (old(self).counters().bytes_relayed + n) as u64,
                ..old(self).counters()
            }),
            final(self).circuit_list() == old(self).circuit_list(),
            final(self).settings() == old(self).settings(),
    {
        self.stats.bytes_relayed = self.stats.bytes_relayed + n;
    }

    /// Records a closed connection (the active count does not go below 0).
    pub fn close_conn(&mut self)
        requires
            old(self).wf(),
        ensures
            final(self).wf(),
            final(self).counters() == (ProxyStats {
                active_conns: if old(self).counters().active_conns > 0 {
                    (old(self).counters().active_conns - 1) as u32
                } else {
                    0u32
                },
                ..old(self).counters()
            }),
            final(self).circuit_list() == old(self).circuit_list(),
            final(self).settings() == old(self).settings(),
    {
        self.stats.active_conns = self.stats.active_conns.saturating_sub(1);
    }

    /// Drops the circuits that are not alive at `now`; returns how many.
    pub fn sweep_at(&mut self, now: u64) -> (res: usize)
        requires
            old(self).wf(),
        ensures
            final(self).wf(),
            final(self).circuit_list() == alive_circuits(old(self).circuit_list(), now),
            res == old(self).circuit_list().len() - final(self).circuit_list().len(),
            final(self).counters() == old(self).counters(),
            final(self).settings() == old(self).settings(),
    {
        let ghost s = self.circuits@;
        let ghost v = self.circuit_list();
        let ghost pred = |c: CircuitView| view_alive(c, now);
        let n = self.circuits.len();
        let mut kept: Vec<Circuit> = Vec::new();
        let ghost mut idx: Seq<int> = Seq::empty();
        let mut i: usize = 0;
        proof {
            reveal(Seq::filter);
            assert(v.take(0) =~= Seq::<CircuitView>::empty());
            assert(v.take(0).filter(pred) =~= Seq::<CircuitView>::empty());
            assert(kept@.map_values(|c: Circuit| circuit_view(c)) =~= Seq::<CircuitView>::empty());
        }
        while i < n
            invariant
                0 <= i <= n,
                n == s.len(),
                self.circuits@ == s,
                v == s.map_values(|x: Circuit| circuit_view(x)),
                pred == (|c: CircuitView| view_alive(c, now)),
                kept@.map_values(|c: Circuit| circuit_view(c)) == v.take(i as int).filter(pred),
                kept@.len() <= i,
                idx.len() == kept@.len(),
                forall|a: int| 0 <= a < idx.len() ==> 0 <= #[trigger] idx[a] < i && kept@[a].id@ == s[idx[a]].id@,
                forall|a: int, b: int| 0 <= a < b < idx.len() ==> #[trigger] idx[a] < #[trigger] idx[b],
                forall|a: int, b: int|
                    0 <= a < b < s.len() ==> (#[trigger] s[a]).id@ != (#[trigger] s[b]).id@,
            decreases n - i,
        {
            let ghost k0 = kept@;
            proof {
                reveal(Seq::filter);
                assert(v.take(i + 1).drop_last() =~= v.take(i as int));
                assert(v.take(i + 1).last() == v[i as int]);
                assert(v[i as int] == circuit_view(s[i as int]));
                assert(v.take(i + 1).filter(pred) == if pred(v[i as int]) {
                    v.take(i as int).filter(pred).push(v[i as int])
                } else {
                    v.take(i as int).filter(pred)
                });
            }
            if self.circuits[i].is_alive(now) {
                assert(pred(v[i as int]));
                let c = self.circuits[i].copy();
                kept.push(c);
                proof {
                    idx = idx.push(i as int);
                    assert(kept@.map_values(|c: Circuit| circuit_view(c)) =~= k0.map_values(
                        |c: Circuit| circuit_view(c),
                    ).push(circuit_view(s[i as int])));
                    assert forall|a: int| 0 <= a < idx.len() implies 0 <= #[trigger] idx[a] < i + 1
                        && kept@[a].id@ == s[idx[a]].id@ by {
                        if a < k0.len() {
                            assert(kept@[a] == k0[a]);
                        }
                    }
                }
            } else {
                proof {
                    assert(!pred(v[i as int]));
                }
            }
            i = i + 1;
        }
        proof {
            assert(v.take(n as int) =~= v);
            assert forall|a: int, b: int| 0 <= a < b < kept@.len() implies (#[trigger] kept@[a]).id@ != (
            #[trigger] kept@[b]).id@ by {
                assert(idx[a] < idx[b]);
                assert(s[idx[a]].id@ != s[idx[b]].id@);
            }
        }
        let removed = n - kept.len();
        self.circuits = kept;
        removed
    }

    /// Drops the circuits that are no longer alive; returns how many.
    pub fn sweep(&mut self) -> (res: usize)
        requires
            old(self).wf(),
        ensures
            final(self).wf(),
            final(self).counters() == old(self).counters(),
            final(self).settings() == old(self).settings(),
            final(self).circuit_list().len() <= old(self).circuit_list().len(),
            res == old(self).circuit_list().len() - final(self).circuit_list().len(),
            exists|now: u64| final(self).circuit_list() == alive_circuits(old(self).circuit_list(), now),
    {
        let now = now_ms();
        self.sweep_at(now)
    }

    /// The counters.
    pub fn stats(&self) -> (res: ProxyStats)
        ensures
            res == self.counters(),
    {
        self.stats
    }

    /// The settings.
    pub fn config(&self) -> (res: &ProxyConfig)
        ensures
            *res == self.settings(),
    {
        &self.cfg
    }
}

} // verus!
