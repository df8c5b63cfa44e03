//! Local inference routing: requests in flight, the outcomes of the last
//! hundred, and the token counts. The token price of each outcome is
//! fractional and is kept by the program around the library, from the
//! token count and whether the node earned or spent.

use vstd::prelude::*;
use crate::clock::now_ms;
use crate::text::str_eq;
use vstd::string::StringSliceAdditionalSpecFns;

verus! {

/// The model an inference runs on.
#[derive(Clone, Copy, Debug, PartialEq, Eq, Structural)]
pub enum ModelKind {
    /// The local small model.
    Notch,
    /// Distributed inference over the mesh.
    Petals,
    /// A local Ollama server.
    Ollama,
}

/// An inference request.
#[derive(Clone, Debug)]
pub struct Inference {
    pub id: String,
    pub prompt: String,
    pub max_tokens: u32,
    pub model: ModelKind,
    pub created_at_ms: u64,
}

/// A finished inference.
#[derive(Clone, Debug)]
pub struct InferenceOutcome {
    pub inference_id: String,
    pub model: ModelKind,
    pub output: String,
    /// Estimated tokens of the output.
    pub tokens: u32,
    /// Milliseconds from the request to its completion.
    pub duration_ms: u64,
    /// True when the node earned by serving the mesh; false when it paid.
    pub earns: bool,
}

impl InferenceOutcome {
    /// A copy of the outcome.
    pub fn copy(&self) -> (res: InferenceOutcome)
        ensures
            outcome_view(res) == outcome_view(*self),
    {
        InferenceOutcome {
            inference_id: self.inference_id.clone(),
            model: self.model,
            output: self.output.clone(),
            tokens: self.tokens,
            duration_ms: self.duration_ms,
            earns: self.earns,
        }
    }
}

/// The tokens estimated for an output of `len` bytes: a quarter, rounded
/// up, of the byte count taken modulo 2^32 (it is held in 32 bits).
pub open spec fn token_estimate(len: nat) -> nat {
    let n = len % 0x1_0000_0000;
    if n % 4 == 0 { n / 4 } else { n / 4 + 1 }
}

/// The number of bytes of the UTF-8 encoding of `s`, as std `str::len`
/// reports it.
pub open spec fn utf8_len(s: Seq<char>) -> nat {
    (vstd::utf8::encode_utf8(s).len() as usize) as nat
}

/// The tokens estimated for `output`.
pub fn estimate_tokens(output: &str) -> (res: u32)
    ensures
        res == token_estimate(utf8_len(output@)),
{
    let n: u64 = output.len() as u64;
    assert(output.spec_bytes() == vstd::utf8::encode_utf8(output@));
    let low: u32 = #[verifier::truncate] (n as u32);
    assert(low == n % 0x1_0000_0000) by (bit_vector)
        requires
            low == #[verifier::truncate] (n as u32),
    ;
    if low % 4 == 0 {
        low / 4
    } else {
        low / 4 + 1
    }
}

/// The outcomes kept.
pub const RESULTS_CAP: usize = 100;

/// An inference as plain values.
pub open spec fn inference_view(i: Inference) -> (Seq<char>, Seq<char>, u32, ModelKind, u64) {
    (i.id@, i.prompt@, i.max_tokens, i.model, i.created_at_ms)
}

/// An outcome as plain values.
pub open spec fn outcome_view(o: InferenceOutcome) -> (Seq<char>, ModelKind, Seq<char>, u32, u64, bool) {
    (o.inference_id@, o.model, o.output@, o.tokens, o.duration_ms, o.earns)
}

/// The index of the request with the given id, or -1.
pub open spec fn inference_index(s: Seq<Inference>, id: Seq<char>) -> int {
    if exists|i: int| 0 <= i < s.len() && (#[trigger] s[i]).id@ == id {
        choose|i: int| 0 <= i < s.len() && (#[trigger] s[i]).id@ == id
    } else {
        -1
    }
}

/// No two requests in flight share an id.
pub open spec fn unique_inference_ids(s: Seq<Inference>) -> bool {
    forall|a: int, b: int| 0 <= a < b < s.len() ==> (#[trigger] s[a]).id@ != (#[trigger] s[b]).id@
}

/// The outcomes after one more, the oldest going once a hundred are held.
pub open spec fn outcomes_after(
    s: Seq<(Seq<char>, ModelKind, Seq<char>, u32, u64, bool)>,
    o: (Seq<char>, ModelKind, Seq<char>, u32, u64, bool),
) -> Seq<(Seq<char>, ModelKind, Seq<char>, u32, u64, bool)> {
    if s.len() >= 100 {
        s.drop_first().push(o)
    } else {
        s.push(o)
    }
}

/// The outcome of completing `inf` with `output` at `now`.
pub open spec fn outcome_of(
    inf: Inference,
    output: Seq<char>,
    output_bytes: nat,
    now: u64,
    serves_petals: bool,
) -> (Seq<char>, ModelKind, Seq<char>, u32, u64, bool) {
    (
        inf.id@,
        inf.model,
        output,
        token_estimate(output_bytes) as u32,
        (if now >= inf.created_at_ms { now - inf.created_at_ms } else { 0 }) as u64,
        inf.model == ModelKind::Petals && serves_petals,
    )
}

/// A node serving local inference.
pub struct Brain {
    inflight: Vec<Inference>,
    results: Vec<InferenceOutcome>,
    inferences: u64,
    tokens: u64,
    serves_petals: bool,
}

impl Brain {
    /// The requests in flight.
    pub closed spec fn inflight_list(&self) -> Seq<Inference> {
        self.inflight@
    }

    /// The outcomes kept, oldest first.
    pub closed spec fn outcome_list(&self) -> Seq<(Seq<char>, ModelKind, Seq<char>, u32, u64, bool)> {
        self.results@.map_values(|o: InferenceOutcome| outcome_view(o))
    }

    /// How many inferences completed.
    pub closed spec fn completed(&self) -> u64 {
        self.inferences
    }

    /// The tokens of all completed inferences.
    pub closed spec fn token_total(&self) -> u64 {
        self.tokens
    }

    /// True when the node serves mesh inference.
    pub closed spec fn serving(&self) -> bool {
        self.serves_petals
    }

    /// The brain's invariant: distinct ids in flight, at most a hundred
    /// outcomes.
    pub closed spec fn wf(&self) -> bool {
        &&& unique_inference_ids(self.inflight@)
        &&& self.results@.len() <= 100
    }

    /// An idle brain that does not serve the mesh.
    pub fn new() -> (res: Brain)
        ensures
            res.wf(),
            res.inflight_list().len() == 0,
            res.outcome_list().len() == 0,
            res.completed() == 0,
            res.token_total() == 0,
            !res.serving(),
    {
        let b = Brain { inflight: Vec::new(), results: Vec::new(), inferences: 0, tokens: 0, serves_petals: false };
        assert(b.outcome_list() =~= Seq::empty());
        b
    }

    /// Serve mesh inference (earning) or not.
    pub fn set_serves_petals(&mut self, yes: bool)
        requires
            old(self).wf(),
        ensures
            final(self).wf(),
            final(self).serving() == yes,
            final(self).inflight_list() == old(self).inflight_list(),
            final(self).outcome_list() == old(self).outcome_list(),
            final(self).completed() == old(self).completed(),
            final(self).token_total() == old(self).token_total(),
    {
        self.serves_petals = yes;
    }

    fn find(&self, id: &str) -> (res: Option<usize>)
        ensures
            res is None <==> forall|j: int| 0 <= j < self.inflight@.len() ==> (#[trigger] self.inflight@[j]).id@ != id@,
            res matches Some(i) ==> i < self.inflight@.len() && self.inflight@[i as int].id@ == id@,
    {
        let mut i: usize = 0;
        while i < self.inflight.len()
            invariant
                0 <= i <= self.inflight@.len(),
                forall|j: int| 0 <= j < i ==> (#[trigger] self.inflight@[j]).id@ != id@,
            decreases self.inflight@.len() - i,
        {
            if str_eq(self.inflight[i].id.as_str(), id) {
                return Some(i);
            }
            i = i + 1;
        }
        None
    }

    /// Records a request in flight (replacing one with the same id) and
    /// returns its id.
    pub fn submit(&mut self, inf: Inference) -> (res: String)
        requires
            old(self).wf(),
        ensures
            final(self).wf(),
            res@ == inf.id@,
            ({
                let k = inference_index(old(self).inflight_list(), inf.id@);
                final(self).inflight_list() == if k >= 0 {
                    old(self).inflight_list().update(k, inf)
                } else {
                    old(self).inflight_list().push(inf)
                }
            }),
            final(self).outcome_list() == old(self).outcome_list(),
            final(self).completed() == old(self).completed(),
            final(self).token_total() == old(self).token_total(),
            final(self).serving() == old(self).serving(),
    {
        let ghost s = self.inflight@;
        let id = inf.id.clone();
        match self.find(inf.id.as_str()) {
            Some(i) => {
                proof {
                    assert(inference_index(s, inf.id@) == i as int);
                }
                self.inflight.set(i, inf);
                proof {
                    assert forall|a: int, b: int| 0 <= a < b < self.inflight@.len() implies (
                    #[trigger] self.inflight@[a]).id@ != (#[trigger] self.inflight@[b]).id@ by {
                        assert(self.inflight@[a].id@ == s[a].id@);
                        assert(self.inflight@[b].id@ == s[b].id@);
                    }
                }
            },
            None => {
                self.inflight.push(inf);
                proof {
                    assert forall|a: int, b: int| 0 <= a < b < self.inflight@.len() implies (
                    #[trigger] self.inflight@[a]).id@ != (#[trigger] self.inflight@[b]).id@ by {
                        if b < s.len() {
                            assert(self.inflight@[a] == s[a]);
                            assert(self.inflight@[b] == s[b]);
                        } else {
                            assert(self.inflight@[a] == s[a]);
                        }
                    }
                }
            },
        }
        id
    }

    /// Completes the request `inference_id` with `output` at `now`: the
    /// request leaves the flight list, the counters grow, and the outcome
    /// is kept (the oldest going once a hundred are held) and returned.
    /// `None`, with nothing changed, for an unknown id.
    pub fn complete_at(&mut self, inference_id: &str, output: String, now: u64) -> (res: Option<InferenceOutcome>)
        requires
            old(self).wf(),
            old(self).completed() < u64::MAX,
            old(self).token_total() + 0x4000_0000 <= u64::MAX,
        ensures
            final(self).wf(),
            final(self).serving() == old(self).serving(),
            ({
                let k = inference_index(old(self).inflight_list(), inference_id@);
                if k < 0 {
                    &&& res is None
                    &&& final(self).inflight_list() == old(self).inflight_list()
                    &&& final(self).outcome_list() == old(self).outcome_list()
                    &&& final(self).completed() == old(self).completed()
                    &&& final(self).token_total() == old(self).token_total()
                } else {
                    let o = outcome_of(
                        old(self).inflight_list()[k],
                        output@,
                        utf8_len(output@),
                        now,
                        old(self).serving(),
                    );
                    &&& res matches Some(r) && outcome_view(r) == o
                    &&& final(self).inflight_list() == old(self).inflight_list().remove(k)
                    &&& final(self).outcome_list() == outcomes_after(old(self).outcome_list(), o)
                    &&& final(self).completed() == old(self).completed() + 1
                    &&& final(self).token_total() == old(self).token_total() + o.3
                }
            }),
    {
        let ghost s = self.inflight@;
        let k = match self.find(inference_id) {
            Some(k) => k,
            None => {
                proof {
                    assert(inference_index(s, inference_id@) < 0);
                }
                return None;
            },
        };
        proof {
            assert(inference_index(s, inference_id@) == k as int);
        }
        let inf = self.inflight.remove(k);
        proof {
            assert forall|a: int, b: int| 0 <= a < b < self.inflight@.len() implies (
            #[trigger] self.inflight@[a]).id@ != (#[trigger] self.inflight@[b]).id@ by {
                let a0 = if a < k { a } else { a + 1 };
                let b0 = if b < k { b } else { b + 1 };
                assert(self.inflight@[a] == s[a0]);
                assert(self.inflight@[b] == s[b0]);
            }
        }
        let duration_ms = now.saturating_sub(inf.created_at_ms);
        let tokens = estimate_tokens(output.as_str());
        proof {
            assert(tokens <= 0x4000_0000);
        }
        let earns = inf.model == ModelKind::Petals && self.serves_petals;
        self.inferences = self.inferences + 1;
        self.tokens = self.tokens + tokens as u64;
        let res = InferenceOutcome { inference_id: inf.id, model: inf.model, output, tokens, duration_ms, earns };
        let ghost o = outcome_view(res);
        let ghost l0 = self.results@.map_values(|x: InferenceOutcome| outcome_view(x));
        if self.results.len() >= RESULTS_CAP {
            let ghost r0 = self.results@;
            self.results.remove(0);
            proof {
                assert(self.results@.map_values(|x: InferenceOutcome| outcome_view(x)) =~= l0.drop_first());
            }
        }
        let ghost l1 = self.results@.map_values(|x: InferenceOutcome| outcome_view(x));
        self.results.push(res.copy());
        proof {
            assert(self.results@.map_values(|x: InferenceOutcome| outcome_view(x)) =~= l1.push(o));
        }
        Some(res)
    }

    /// Completes the request `inference_id` with `output` now.
    pub fn complete(&mut self, inference_id: &str, output: String) -> (res: Option<InferenceOutcome>)
        requires
            old(self).wf(),
            old(self).completed() < u64::MAX,
            old(self).token_total() + 0x4000_0000 <= u64::MAX,
        ensures
            final(self).wf(),
            final(self).serving() == old(self).serving(),
            ({
                let k = inference_index(old(self).inflight_list(), inference_id@);
                if k < 0 {
                    &&& res is None
                    &&& final(self).inflight_list() == old(self).inflight_list()
                    &&& final(self).outcome_list() == old(self).outcome_list()
                    &&& final(self).completed() == old(self).completed()
                } else {
                    exists|now: u64| {
                        let o = #[trigger] outcome_of(
                            old(self).inflight_list()[k],
                            output@,
                            utf8_len(output@),
                            now,
                            old(self).serving(),
                        );
                        &&& res matches Some(r) && outcome_view(r) == o
                        &&& final(self).inflight_list() == old(self).inflight_list().remove(k)
                        &&& final(self).outcome_list() == outcomes_after(old(self).outcome_list(), o)
                        &&& final(self).completed() == old(self).completed() + 1
                        &&& final(self).token_total() == old(self).token_total() + o.3
                    }
                }
            }),
    {
        let now = now_ms();
        let ghost out = output@;
        let ghost bytes = utf8_len(output@);
        let r = self.complete_at(inference_id, output, now);
        proof {
            let k = inference_index(old(self).inflight_list(), inference_id@);
            if k >= 0 {
                let o = outcome_of(old(self).inflight_list()[k], out, bytes, now, old(self).serving());
                assert(o == outcome_of(old(self).inflight_list()[k], out, bytes, now, old(self).serving()));
            }
        }
        r
    }

    /// The last `n` outcomes (all when fewer are kept), most recent first.
    pub fn recent(&self, n: usize) -> (res: Vec<InferenceOutcome>)
        ensures
            res@.map_values(|o: InferenceOutcome| outcome_view(o)) == self.outcome_list().skip(
                (if self.outcome_list().len() >= n { self.outcome_list().len() - n } else { 0 }) as int,
            ).reverse(),
    {
        let len = self.results.len();
        let start = len.saturating_sub(n);
        let ghost kept = self.outcome_list().skip(start as int);
        let mut res: Vec<InferenceOutcome> = Vec::new();
        let mut i = len;
        while i > start
            invariant
                start <= i <= len,
                len == self.results@.len(),
                kept == self.outcome_list().skip(start as int),
                self.outcome_list() == self.results@.map_values(|o: InferenceOutcome| outcome_view(o)),
                res@.len() == len - i,
                forall|j: int|
                    0 <= j < res@.len() ==> outcome_view(#[trigger] res@[j]) == outcome_view(
                        self.results@[len - 1 - j],
                    ),
            decreases i,
        {
            i = i - 1;
            let o = self.results[i].copy();
            res.push(o);
        }
        assert(res@.map_values(|o: InferenceOutcome| outcome_view(o)) =~= kept.reverse());
        res
    }

    /// How many inferences completed.
    pub fn inference_count(&self) -> (res: u64)
        ensures
            res == self.completed(),
    {
        self.inferences
    }

    /// The tokens of all completed inferences.
    pub fn token_count(&self) -> (res: u64)
        ensures
            res == self.token_total(),
    {
        self.tokens
    }
}

} // verus!
