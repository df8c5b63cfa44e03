//! The registry of models the inference engine can serve, keyed by name.
//! Sizes and resource estimates are fractional and stay with the program
//! around the library.

use vstd::prelude::*;
use crate::petals::{DeviceType, ModelCapabilities, ModelSource};
use crate::text::{chars_of, split_any, split_any_spec, strings_view, to_lowercase, to_uppercase, unicode_lowercase, unicode_uppercase};

verus! {

/// A model the engine knows. Its size on disk (a fractional number of GB)
/// and its backend metadata (free-form JSON) travel beside this value.
#[derive(Debug, Clone)]
pub struct ModelInfo {
    /// The name the model is registered and looked up under.
    pub name: String,
    pub display_name: Option<String>,
    pub source: ModelSource,
    /// Parameter count, as written by the backend (`7B`, `70B`).
    pub parameters: Option<String>,
    /// Quantization, as written by the backend (`Q4_K_M`, `FP16`).
    pub quantization: Option<String>,
    pub context_window: Option<u32>,
    pub supported_devices: Vec<DeviceType>,
    pub capabilities: ModelCapabilities,
}

/// An optional text as plain characters.
pub open spec fn opt_text(o: Option<String>) -> Option<Seq<char>> {
    match o {
        Some(s) => Some(s@),
        None => None,
    }
}

/// A model as plain values.
pub type ModelView = (Seq<char>, Option<Seq<char>>, ModelSource, Option<Seq<char>>, Option<Seq<char>>, Option<u32>, Seq<DeviceType>, ModelCapabilities);

/// The plain values of a model.
pub open spec fn model_view(m: ModelInfo) -> ModelView {
    (
        m.name@,
        opt_text(m.display_name),
        m.source,
        opt_text(m.parameters),
        opt_text(m.quantization),
        m.context_window,
        m.supported_devices@,
        m.capabilities,
    )
}

/// A model runs on `device` when it lists that device or `Auto`.
pub open spec fn runs_on(m: ModelInfo, device: DeviceType) -> bool {
    m.supported_devices@.contains(device) || m.supported_devices@.contains(DeviceType::Auto)
}

fn copy_text(o: &Option<String>) -> (res: Option<String>)
    ensures
        opt_text(res) == opt_text(*o),
{
    match o {
        Some(s) => Some(s.clone()),
        None => None,
    }
}

fn lists_device(v: &Vec<DeviceType>, d: DeviceType) -> (res: bool)
    ensures
        res == v@.contains(d),
{
    let mut i: usize = 0;
    while i < v.len()
        invariant
            0 <= i <= v@.len(),
            forall|k: int| 0 <= k < i ==> v@[k] != d,
        decreases v@.len() - i,
    {
        if v[i] == d {
            return true;
        }
        i = i + 1;
    }
    false
}

impl ModelInfo {
    /// A copy of the model.
    pub fn copy(&self) -> (res: ModelInfo)
        ensures
            model_view(res) == model_view(*self),
    {
        ModelInfo {
            name: self.name.clone(),
            display_name: copy_text(&self.display_name),
            source: self.source,
            parameters: copy_text(&self.parameters),
            quantization: copy_text(&self.quantization),
            context_window: self.context_window,
            supported_devices: self.supported_devices.clone(),
            capabilities: self.capabilities,
        }
    }

    /// Whether the model can run on `device`: it lists the device, or it
    /// lists `Auto`.
    pub fn supports_device(&self, device: DeviceType) -> (res: bool)
        ensures
            res == runs_on(*self, device),
    {
        lists_device(&self.supported_devices, device) || lists_device(&self.supported_devices, DeviceType::Auto)
    }
}

/// A name piece that reads as a quantization: `q` then a digit.
pub open spec fn looks_quantized(p: Seq<char>) -> bool {
    p.len() >= 2 && p[0] == 'q' && '0' <= p[1] <= '9'
}

/// The first piece that reads as a quantization.
pub open spec fn first_quantized(ps: Seq<Seq<char>>) -> Option<Seq<char>>
    decreases ps.len(),
{
    if ps.len() == 0 {
        None
    } else if looks_quantized(ps[0]) {
        Some(ps[0])
    } else {
        first_quantized(ps.drop_first())
    }
}

/// The characters a model name is cut at to find its quantization (an
/// underscore belongs to the quantization, as in `q4_k_m`).
pub open spec fn name_separators() -> Seq<char> {
    seq![':', '-', '.']
}

/// The quantization written in a model name (`llama3.1:7b-q4_k_m` gives
/// `Q4_K_M`): the first piece of the lower-cased name, cut at `:`, `-` and
/// `.`, that is `q` followed by a digit, in upper case.
pub open spec fn quantization_of(name: Seq<char>) -> Option<Seq<char>> {
    match first_quantized(split_any_spec(unicode_lowercase(name), name_separators())) {
        Some(p) => Some(unicode_uppercase(p)),
        None => None,
    }
}

/// The quantization written in a model name, if any.
pub fn extract_quantization(name: &str) -> (res: Option<String>)
    ensures
        match quantization_of(name@) {
            Some(q) => res matches Some(r) && r@ == q,
            None => res is None,
        },
{
    let lower = to_lowercase(name);
    let seps: [char; 3] = [':', '-', '.'];
    assert(seps@ =~= name_separators());
    let parts = split_any(lower.as_str(), &seps);
    let ghost ps = strings_view(parts@);
    let mut i: usize = 0;
    assert(ps.skip(0) =~= ps);
    while i < parts.len()
        invariant
            0 <= i <= parts@.len(),
            ps == strings_view(parts@),
            ps == split_any_spec(unicode_lowercase(name@), name_separators()),
            first_quantized(ps) == first_quantized(ps.skip(i as int)),
        decreases parts@.len() - i,
    {
        let cs = chars_of(parts[i].as_str());
        proof {
            assert(ps.skip(i as int)[0] == parts@[i as int]@);
            assert(ps.skip(i as int).drop_first() =~= ps.skip(i as int + 1));
        }
        if cs.len() >= 2 && cs[0] == 'q' && '0' <= cs[1] && cs[1] <= '9' {
            return Some(to_uppercase(parts[i].as_str()));
        }
        i = i + 1;
    }
    None
}

/// Model `i` of `s` is named `n`.
pub open spec fn named_at(s: Seq<ModelInfo>, n: Seq<char>, i: int) -> bool {
    0 <= i < s.len() && s[i].name@ == n
}

/// Some model of `s` is named `n`.
pub open spec fn has_name(s: Seq<ModelInfo>, n: Seq<char>) -> bool {
    exists|i: int| named_at(s, n, i)
}

/// No two models share a name.
pub open spec fn distinct_names(s: Seq<ModelInfo>) -> bool {
    forall|i: int, j: int| 0 <= i < j < s.len() ==> (#[trigger] s[i]).name@ != (#[trigger] s[j]).name@
}

/// The models after registering `m`: it takes the place of the model of
/// the same name, or comes last.
pub open spec fn with_model(s: Seq<ModelInfo>, m: ModelInfo) -> Seq<ModelInfo> {
    if has_name(s, m.name@) {
        s.update(choose|i: int| named_at(s, m.name@, i), m)
    } else {
        s.push(m)
    }
}

/// The models after registering each of `ms` in turn.
pub open spec fn with_models(s: Seq<ModelInfo>, ms: Seq<ModelInfo>) -> Seq<ModelInfo>
    decreases ms.len(),
{
    if ms.len() == 0 {
        s
    } else {
        with_model(with_models(s, ms.drop_last()), ms.last())
    }
}

/// The views of the models of `s` from `source`, in order.
pub open spec fn from_source(s: Seq<ModelInfo>, source: ModelSource) -> Seq<ModelView>
    decreases s.len(),
{
    if s.len() == 0 {
        Seq::empty()
    } else if s.last().source == source {
        from_source(s.drop_last(), source).push(model_view(s.last()))
    } else {
        from_source(s.drop_last(), source)
    }
}

/// The views of the models of `s` that run on `device`, in order.
pub open spec fn for_device_views(s: Seq<ModelInfo>, device: DeviceType) -> Seq<ModelView>
    decreases s.len(),
{
    if s.len() == 0 {
        Seq::empty()
    } else if runs_on(s.last(), device) {
        for_device_views(s.drop_last(), device).push(model_view(s.last()))
    } else {
        for_device_views(s.drop_last(), device)
    }
}

/// The views of all models of `s`, in order.
pub open spec fn all_views(s: Seq<ModelInfo>) -> Seq<ModelView> {
    s.map_values(|m: ModelInfo| model_view(m))
}

proof fn lemma_with_model_distinct(s: Seq<ModelInfo>, m: ModelInfo)
    requires
        distinct_names(s),
    ensures
        distinct_names(with_model(s, m)),
        has_name(with_model(s, m), m.name@),
        with_model(s, m).len() == if has_name(s, m.name@) { s.len() } else { s.len() + 1 },
{
    let t = with_model(s, m);
    if has_name(s, m.name@) {
        let k = choose|i: int| named_at(s, m.name@, i);
        assert(named_at(t, m.name@, k));
        assert forall|i: int, j: int| 0 <= i < j < t.len() implies (#[trigger] t[i]).name@ != (#[trigger] t[j]).name@ by {
            if i == k {
                assert(s[j].name@ != s[k].name@);
            } else if j == k {
                assert(s[i].name@ != s[k].name@);
            } else {
                assert(s[i].name@ != s[j].name@);
            }
        }
    } else {
        assert(named_at(t, m.name@, s.len() as int));
        assert forall|i: int, j: int| 0 <= i < j < t.len() implies (#[trigger] t[i]).name@ != (#[trigger] t[j]).name@ by {
            if j == s.len() {
                if s[i].name@ == m.name@ {
                    assert(named_at(s, m.name@, i));
                }
            } else {
                assert(s[i].name@ != s[j].name@);
            }
        }
    }
}

/// Registering a model makes it the one found under its name, and leaves
/// every other name found exactly as before.
pub proof fn lemma_add_then_lookup(s: Seq<ModelInfo>, m: ModelInfo, other: Seq<char>)
    requires
        distinct_names(s),
        other != m.name@,
    ensures
        exists|i: int| named_at(with_model(s, m), m.name@, i) && with_model(s, m)[i] == m,
        has_name(with_model(s, m), other) == has_name(s, other),
        forall|i: int| named_at(s, other, i) ==> named_at(with_model(s, m), other, i) && with_model(s, m)[i] == s[i],
{
    let t = with_model(s, m);
    if has_name(s, m.name@) {
        let k = choose|i: int| named_at(s, m.name@, i);
        assert(named_at(t, m.name@, k) && t[k] == m);
        if has_name(t, other) {
            let j = choose|i: int| named_at(t, other, i);
            assert(j != k);
            assert(named_at(s, other, j));
        }
        if has_name(s, other) {
            let j = choose|i: int| named_at(s, other, i);
            assert(named_at(t, other, j));
        }
    } else {
        assert(named_at(t, m.name@, s.len() as int) && t[s.len() as int] == m);
        if has_name(t, other) {
            let j = choose|i: int| named_at(t, other, i);
            assert(named_at(s, other, j));
        }
        if has_name(s, other) {
            let j = choose|i: int| named_at(s, other, i);
            assert(named_at(t, other, j));
        }
    }
}

/// The models the engine can serve, no two with the same name.
#[derive(Debug)]
pub struct ModelRegistry {
    pub models: Vec<ModelInfo>,
}

impl Default for ModelRegistry {
    /// An empty registry.
    fn default() -> (res: ModelRegistry)
        ensures
            res.models@.len() == 0,
    {
        ModelRegistry { models: Vec::new() }
    }
}

impl ModelRegistry {
    /// Names are unique.
    pub open spec fn wf(&self) -> bool {
        distinct_names(self.models@)
    }

    /// An empty registry.
    pub fn new() -> (res: ModelRegistry)
        ensures
            res.wf(),
            res.models@.len() == 0,
    {
        ModelRegistry { models: Vec::new() }
    }

    fn index_of(&self, name: &str) -> (res: Option<usize>)
        ensures
            match res {
                Some(i) => named_at(self.models@, name@, i as int),
                None => !has_name(self.models@, name@),
            },
    {
        let mut i: usize = 0;
        while i < self.models.len()
            invariant
                0 <= i <= self.models@.len(),
                forall|k: int| 0 <= k < i ==> !named_at(self.models@, name@, k),
            decreases self.models@.len() - i,
        {
            if crate::text::str_eq(self.models[i].name.as_str(), name) {
                return Some(i);
            }
            i = i + 1;
        }
        None
    }

    /// Registers a model; one already there under the same name is replaced.
    pub fn add(&mut self, model: ModelInfo)
        requires
            old(self).wf(),
        ensures
            final(self).wf(),
            final(self).models@ == with_model(old(self).models@, model),
    {
        proof {
            lemma_with_model_distinct(self.models@, model);
        }
        match self.index_of(model.name.as_str()) {
            Some(i) => {
                proof {
                    let k = choose|j: int| named_at(self.models@, model.name@, j);
                    assert(named_at(self.models@, model.name@, k));
                    if k != i as int {
                        if k < i as int {
                            assert(self.models@[k].name@ != self.models@[i as int].name@);
                        } else {
                            assert(self.models@[i as int].name@ != self.models@[k].name@);
                        }
                    }
                }
                self.models.set(i, model);
            },
            None => {
                self.models.push(model);
            },
        }
    }

    /// Replaces the whole registry by `models`, registered in order (a
    /// later model replaces an earlier one of the same name).
    pub fn update(&mut self, models: Vec<ModelInfo>)
        ensures
            final(self).wf(),
            final(self).models@ == with_models(Seq::empty(), models@),
    {
        self.models = Vec::new();
        let ghost orig = models@;
        let mut rest = models;
        let ghost mut k: int = 0;
        while rest.len() > 0
            invariant
                0 <= k <= orig.len(),
                rest@ == orig.skip(k),
                self.wf(),
                self.models@ == with_models(Seq::empty(), orig.take(k)),
            decreases rest@.len(),
        {
            let m = rest.remove(0);
            proof {
                assert(m == orig[k]);
                assert(orig.take(k + 1).drop_last() =~= orig.take(k));
                assert(orig.take(k + 1).last() == orig[k]);
            }
            self.add(m);
            proof {
                k = k + 1;
                assert(rest@ =~= orig.skip(k));
            }
        }
        proof {
            assert(orig.take(k) =~= orig);
        }
    }

    /// Removes and returns the model named `name`, if there is one.
    pub fn remove(&mut self, name: &str) -> (res: Option<ModelInfo>)
        requires
            old(self).wf(),
        ensures
            final(self).wf(),
            has_name(old(self).models@, name@) ==> exists|i: int| named_at(old(self).models@, name@, i)
                && res == Some(old(self).models@[i]) && final(self).models@ == old(self).models@.remove(i),
            !has_name(old(self).models@, name@) ==> res is None && final(self).models@ == old(self).models@,
    {
        match self.index_of(name) {
            Some(i) => {
                let ghost before = self.models@;
                let m = self.models.remove(i);
                proof {
                    assert(named_at(before, name@, i as int));
                    let after = self.models@;
                    assert forall|a: int, b: int| 0 <= a < b < after.len() implies (#[trigger] after[a]).name@ != (#[trigger] after[b]).name@ by {
                        let a0 = if a < i { a } else { a + 1 };
                        let b0 = if b < i { b } else { b + 1 };
                        assert(after[a] == before[a0]);
                        assert(after[b] == before[b0]);
                        assert(before[a0].name@ != before[b0].name@);
                    }
                }
                Some(m)
            },
            None => None,
        }
    }

    /// Whether a model named `name` is registered.
    pub fn has_model(&self, name: &str) -> (res: bool)
        ensures
            res == has_name(self.models@, name@),
    {
        self.index_of(name).is_some()
    }

    /// The model named `name`, if registered.
    pub fn get_model(&self, name: &str) -> (res: Option<&ModelInfo>)
        ensures
            has_name(self.models@, name@) ==> exists|i: int| named_at(self.models@, name@, i) && res == Some(&self.models@[i]),
            !has_name(self.models@, name@) ==> res is None,
    {
        match self.index_of(name) {
            Some(i) => Some(&self.models[i]),
            None => None,
        }
    }

    /// Copies of all registered models.
    pub fn list_models(&self) -> (res: Vec<ModelInfo>)
        ensures
            all_views(res@) == all_views(self.models@),
    {
        let mut out: Vec<ModelInfo> = Vec::new();
        let mut i: usize = 0;
        while i < self.models.len()
            invariant
                0 <= i <= self.models@.len(),
                all_views(out@) == all_views(self.models@.take(i as int)),
            decreases self.models@.len() - i,
        {
            let ghost before = out@;
            let c = self.models[i].copy();
            out.push(c);
            proof {
                assert(out@.drop_last() =~= before);
                assert(all_views(out@) =~= all_views(before).push(model_view(self.models@[i as int])));
                assert(self.models@.take(i as int + 1) =~= self.models@.take(i as int).push(self.models@[i as int]));
                assert(all_views(self.models@.take(i as int + 1)) =~= all_views(self.models@.take(i as int)).push(model_view(self.models@[i as int])));
            }
            i = i + 1;
        }
        proof {
            assert(self.models@.take(i as int) =~= self.models@);
        }
        out
    }

    /// Copies of the registered models from `source`.
    pub fn by_source(&self, source: ModelSource) -> (res: Vec<ModelInfo>)
        ensures
            all_views(res@) == from_source(self.models@, source),
    {
        let mut out: Vec<ModelInfo> = Vec::new();
        let mut i: usize = 0;
        while i < self.models.len()
            invariant
                0 <= i <= self.models@.len(),
                all_views(out@) == from_source(self.models@.take(i as int), source),
            decreases self.models@.len() - i,
        {
            let ghost before = out@;
            if self.models[i].source == source {
                let c = self.models[i].copy();
                out.push(c);
                proof {
                    assert(out@.drop_last() =~= before);
                    assert(all_views(out@) =~= all_views(before).push(model_view(self.models@[i as int])));
                }
            }
            proof {
                assert(self.models@.take(i as int + 1).drop_last() =~= self.models@.take(i as int));
            }
            i = i + 1;
        }
        proof {
            assert(self.models@.take(i as int) =~= self.models@);
        }
        out
    }

    /// Copies of the registered models that run on `device`.
    pub fn for_device(&self, device: DeviceType) -> (res: Vec<ModelInfo>)
        ensures
            all_views(res@) == for_device_views(self.models@, device),
    {
        let mut out: Vec<ModelInfo> = Vec::new();
        let mut i: usize = 0;
        while i < self.models.len()
            invariant
                0 <= i <= self.models@.len(),
                all_views(out@) == for_device_views(self.models@.take(i as int), device),
            decreases self.models@.len() - i,
        {
            let ghost before = out@;
            if self.models[i].supports_device(device) {
                let c = self.models[i].copy();
                out.push(c);
                proof {
                    assert(out@.drop_last() =~= before);
                    assert(all_views(out@) =~= all_views(before).push(model_view(self.models@[i as int])));
                }
            }
            proof {
                assert(self.models@.take(i as int + 1).drop_last() =~= self.models@.take(i as int));
            }
            i = i + 1;
        }
        proof {
            assert(self.models@.take(i as int) =~= self.models@);
        }
        out
    }
}

} // verus!
