//! Model registry: model profiles and their registration, keyed by
//! `"provider/model"`.

use vstd::prelude::*;

verus! {

/// Supported modalities.
#[derive(Debug, Clone, Copy, PartialEq, Eq, Hash, Structural)]
pub enum Modality {
    Text,
    Image,
    Audio,
    Video,
}

/// A registered model's profile: who serves it, its limits and features.
///
/// `details` carries the model's capability scores, cost profile and speed;
/// the registry keeps them with the profile but never reads them.
#[derive(Debug)]
pub struct ModelProfile<P> {
    /// Provider name (e.g. "openai", "anthropic", "local").
    pub provider: String,
    /// Model identifier (e.g. "gpt-4o").
    pub model: String,
    /// Context window size in tokens.
    pub context_window: usize,
    /// Supported modalities.
    pub modalities: Vec<Modality>,
    /// Whether the model supports streaming.
    pub supports_streaming: bool,
    /// Whether the model supports tool calling.
    pub supports_tools: bool,
    /// Capability scores, cost profile and speed.
    pub details: P,
}

/// The registry key of a provider and model: `"provider/model"`.
pub open spec fn model_key(provider: Seq<char>, model: Seq<char>) -> Seq<char> {
    provider + "/"@ + model
}

/// The registry key of a profile.
pub open spec fn key_of<P>(p: ModelProfile<P>) -> Seq<char> {
    model_key(p.provider@, p.model@)
}

/// Whether no two profiles of `s` share a key.
pub open spec fn distinct_keys<P>(s: Seq<ModelProfile<P>>) -> bool {
    forall|i: int, j: int| 0 <= i < j < s.len() ==> key_of(s[i]) != key_of(s[j])
}

/// The index of the profile with key `k`, if any.
pub open spec fn key_index<P>(s: Seq<ModelProfile<P>>, k: Seq<char>) -> Option<int> {
    if exists|i: int| 0 <= i < s.len() && key_of(s[i]) == k {
        Some(choose|i: int| 0 <= i < s.len() && key_of(s[i]) == k)
    } else {
        None
    }
}

/// The profile with key `k`, if any.
pub open spec fn lookup<P>(s: Seq<ModelProfile<P>>, k: Seq<char>) -> Option<ModelProfile<P>> {
    match key_index(s, k) {
        Some(i) => Some(s[i]),
        None => None,
    }
}

/// `s` with `p` registered: it replaces the profile with the same key, in
/// place, or is added last.
pub open spec fn with_profile<P>(s: Seq<ModelProfile<P>>, p: ModelProfile<P>) -> Seq<
    ModelProfile<P>,
> {
    match key_index(s, key_of(p)) {
        Some(i) => s.update(i, p),
        None => s.push(p),
    }
}

/// `s` without the profile of key `k`.
pub open spec fn without_key<P>(s: Seq<ModelProfile<P>>, k: Seq<char>) -> Seq<ModelProfile<P>> {
    match key_index(s, k) {
        Some(i) => s.remove(i),
        None => s,
    }
}

/// The profiles of `s` that satisfy `pred`, in order.
pub open spec fn select<P>(s: Seq<ModelProfile<P>>, pred: spec_fn(ModelProfile<P>) -> bool) -> Seq<
    ModelProfile<P>,
>
    decreases s.len(),
{
    if s.len() == 0 {
        Seq::empty()
    } else if pred(s.last()) {
        select(s.drop_last(), pred).push(s.last())
    } else {
        select(s.drop_last(), pred)
    }
}

/// The profiles a list of references points to.
pub open spec fn derefs<P>(s: Seq<&ModelProfile<P>>) -> Seq<ModelProfile<P>> {
    s.map_values(|p: &ModelProfile<P>| *p)
}

/// In a sequence of distinct keys, the profile at `i` is the one found
/// under its key.
pub proof fn lemma_key_index_unique<P>(s: Seq<ModelProfile<P>>, i: int)
    requires
        distinct_keys(s),
        0 <= i < s.len(),
    ensures
        key_index(s, key_of(s[i])) == Some(i),
        lookup(s, key_of(s[i])) == Some(s[i]),
{
    let k = key_of(s[i]);
    assert(exists|j: int| 0 <= j < s.len() && key_of(s[j]) == k);
    let j = choose|j: int| 0 <= j < s.len() && key_of(s[j]) == k;
    if j < i {
        assert(key_of(s[j]) != key_of(s[i]));
    } else if i < j {
        assert(key_of(s[i]) != key_of(s[j]));
    }
}

/// Registering a profile keeps the keys distinct, makes the profile the one
/// found under its key, leaves every other key as it was, and adds an entry
/// only when its key was new.
pub proof fn law_register_then_get<P>(s: Seq<ModelProfile<P>>, p: ModelProfile<P>, k: Seq<char>)
    requires
        distinct_keys(s),
    ensures
        distinct_keys(with_profile(s, p)),
        lookup(with_profile(s, p), key_of(p)) == Some(p),
        k != key_of(p) ==> lookup(with_profile(s, p), k) == lookup(s, k),
        with_profile(s, p).len() == s.len() + if lookup(s, key_of(p)) is Some {
            0int
        } else {
            1int
        },
{
    let t = with_profile(s, p);
    match key_index(s, key_of(p)) {
        Some(i) => {
            assert(0 <= i < s.len() && key_of(s[i]) == key_of(p));
            assert forall|a: int, b: int| 0 <= a < b < t.len() implies key_of(t[a]) != key_of(
                t[b],
            ) by {
                if a != i && b != i {
                    assert(t[a] == s[a] && t[b] == s[b]);
                }
            }
            lemma_key_index_unique(t, i);
            if k != key_of(p) {
                if exists|j: int| 0 <= j < s.len() && key_of(s[j]) == k {
                    let j = choose|j: int| 0 <= j < s.len() && key_of(s[j]) == k;
                    assert(j != i);
                    assert(t[j] == s[j]);
                    lemma_key_index_unique(s, j);
                    lemma_key_index_unique(t, j);
                } else {
                    assert forall|j: int| 0 <= j < t.len() implies key_of(t[j]) != k by {
                        if j != i {
                            assert(t[j] == s[j]);
                        }
                    }
                }
            }
        },
        None => {
            assert(forall|j: int| 0 <= j < s.len() ==> key_of(s[j]) != key_of(p));
            assert forall|a: int, b: int| 0 <= a < b < t.len() implies key_of(t[a]) != key_of(
                t[b],
            ) by {
                if b == s.len() {
                    assert(t[a] == s[a]);
                } else {
                    assert(t[a] == s[a] && t[b] == s[b]);
                }
            }
            lemma_key_index_unique(t, s.len() as int);
            if k != key_of(p) {
                if exists|j: int| 0 <= j < s.len() && key_of(s[j]) == k {
                    let j = choose|j: int| 0 <= j < s.len() && key_of(s[j]) == k;
                    assert(t[j] == s[j]);
                    lemma_key_index_unique(s, j);
                    lemma_key_index_unique(t, j);
                } else {
                    assert forall|j: int| 0 <= j < t.len() implies key_of(t[j]) != k by {
                        if j < s.len() {
                            assert(t[j] == s[j]);
                        }
                    }
                }
            }
        },
    }
}

/// Removing a key keeps the keys distinct, leaves no profile under it, and
/// leaves every other key as it was.
pub proof fn law_remove_then_get<P>(s: Seq<ModelProfile<P>>, k: Seq<char>, other: Seq<char>)
    requires
        distinct_keys(s),
    ensures
        distinct_keys(without_key(s, k)),
        lookup(without_key(s, k), k) is None,
        other != k ==> lookup(without_key(s, k), other) == lookup(s, other),
        without_key(s, k).len() == s.len() - if lookup(s, k) is Some {
            1int
        } else {
            0int
        },
{
    let t = without_key(s, k);
    match key_index(s, k) {
        Some(i) => {
            assert(0 <= i < s.len() && key_of(s[i]) == k);
            assert forall|a: int, b: int| 0 <= a < b < t.len() implies key_of(t[a]) != key_of(
                t[b],
            ) by {
                let a2 = if a < i { a } else { a + 1 };
                let b2 = if b < i { b } else { b + 1 };
                assert(t[a] == s[a2] && t[b] == s[b2]);
            }
            assert forall|j: int| 0 <= j < t.len() implies key_of(t[j]) != k by {
                let j2 = if j < i { j } else { j + 1 };
                assert(t[j] == s[j2]);
                if j2 < i {
                    assert(key_of(s[j2]) != key_of(s[i]));
                } else {
                    assert(key_of(s[i]) != key_of(s[j2]));
                }
            }
            if other != k {
                if exists|j: int| 0 <= j < s.len() && key_of(s[j]) == other {
                    let j = choose|j: int| 0 <= j < s.len() && key_of(s[j]) == other;
                    assert(j != i);
                    let j3 = if j < i { j } else { j - 1 };
                    assert(t[j3] == s[j]);
                    lemma_key_index_unique(s, j);
                    lemma_key_index_unique(t, j3);
                } else {
                    assert forall|j: int| 0 <= j < t.len() implies key_of(t[j]) != other by {
                        let j2 = if j < i { j } else { j + 1 };
                        assert(t[j] == s[j2]);
                    }
                }
            }
        },
        None => {},
    }
}

/// Builds the registry key `"provider/model"`.
pub fn make_key(provider: &str, model: &str) -> (r: String)
    ensures
        r@ == model_key(provider@, model@),
{
    String::from_str(provider).concat("/").concat(model)
}

impl<P> ModelProfile<P> {
    /// The profile's registry key, `"provider/model"`.
    pub fn key(&self) -> (r: String)
        ensures
            r@ == key_of(*self),
    {
        make_key(self.provider.as_str(), self.model.as_str())
    }
}

/// Registry of available models and their profiles.
#[derive(Debug)]
pub struct ModelRegistry<P> {
    models: Vec<ModelProfile<P>>,
}

impl<P> View for ModelRegistry<P> {
    type V = Seq<ModelProfile<P>>;

    /// The registered profiles, in registration order of their keys.
    closed spec fn view(&self) -> Seq<ModelProfile<P>> {
        self.models@
    }
}

impl<P> Default for ModelRegistry<P> {
    fn default() -> (r: ModelRegistry<P>)
        ensures
            r@ == Seq::<ModelProfile<P>>::empty(),
    {
        ModelRegistry::new()
    }
}

impl<P> ModelRegistry<P> {
    #[verifier::type_invariant]
    spec fn inv(&self) -> bool {
        distinct_keys(self.models@)
    }

    /// An empty registry.
    pub fn new() -> (r: ModelRegistry<P>)
        ensures
            r@ == Seq::<ModelProfile<P>>::empty(),
    {
        ModelRegistry { models: Vec::new() }
    }

    /// The index of the profile with key `key`.
    fn find(&self, key: &String) -> (r: Option<usize>)
        ensures
            r matches Some(i) ==> i < self@.len() && key_index(self@, key@) == Some(i as int)
                && key_of(self@[i as int]) == key@,
            r is None ==> key_index(self@, key@) is None,
            distinct_keys(self@),
    {
        proof {
            use_type_invariant(self);
        }
        let mut i: usize = 0;
        while i < self.models.len()
            invariant
                0 <= i <= self.models@.len(),
                distinct_keys(self@),
                forall|j: int| 0 <= j < i ==> key_of(self@[j]) != key@,
            decreases self.models@.len() - i,
        {
            let k = self.models[i].key();
            if k == *key {
                assert(key_index(self@, key@) == Some(i as int));
                return Some(i);
            }
            i = i + 1;
        }
        None
    }

    /// Registers a profile, replacing the one with the same key.
    pub fn register(&mut self, profile: ModelProfile<P>)
        ensures
            final(self)@ == with_profile(old(self)@, profile),
            distinct_keys(final(self)@),
    {
        let key = profile.key();
        let ghost before = self@;
        match self.find(&key) {
            Some(i) => {
                assert(key_of(before[i as int]) == key@);
                let ghost after = before.update(i as int, profile);
                assert forall|a: int, b: int| 0 <= a < b < after.len() implies key_of(after[a])
                    != key_of(after[b]) by {
                    if a != i && b != i {
                        assert(after[a] == before[a] && after[b] == before[b]);
                    }
                }
                let mut models: Vec<ModelProfile<P>> = Vec::new();
                std::mem::swap(&mut models, &mut self.models);
                models.set(i, profile);
                assert(models@ =~= after);
                self.models = models;
            },
            None => {
                assert(forall|j: int| 0 <= j < before.len() ==> key_of(before[j]) != key@);
                let ghost after = before.push(profile);
                assert forall|a: int, b: int| 0 <= a < b < after.len() implies key_of(after[a])
                    != key_of(after[b]) by {
                    if b == before.len() {
                        assert(after[a] == before[a]);
                    }
                }
                let mut models: Vec<ModelProfile<P>> = Vec::new();
                std::mem::swap(&mut models, &mut self.models);
                models.push(profile);
                assert(models@ =~= after);
                self.models = models;
            },
        }
        proof {
            use_type_invariant(&*self);
        }
    }

    /// Looks up a model by its `"provider/model"` key.
    pub fn get(&self, key: &str) -> (r: Option<&ModelProfile<P>>)
        ensures
            match r {
                Some(p) => lookup(self@, key@) == Some(*p),
                None => lookup(self@, key@) is None,
            },
    {
        let k = String::from_str(key);
        match self.find(&k) {
            Some(i) => Some(&self.models[i]),
            None => None,
        }
    }

    /// Looks up a model by provider and model name.
    pub fn get_by_name(&self, provider: &str, model: &str) -> (r: Option<&ModelProfile<P>>)
        ensures
            match r {
                Some(p) => lookup(self@, model_key(provider@, model@)) == Some(*p),
                None => lookup(self@, model_key(provider@, model@)) is None,
            },
    {
        let k = make_key(provider, model);
        self.get(k.as_str())
    }

    /// All registered profiles.
    pub fn all(&self) -> (r: Vec<&ModelProfile<P>>)
        ensures
            derefs(r@) == self@,
    {
        let mut out: Vec<&ModelProfile<P>> = Vec::new();
        let mut i: usize = 0;
        while i < self.models.len()
            invariant
                0 <= i <= self.models@.len(),
                derefs(out@) == self@.subrange(0, i as int),
            decreases self.models@.len() - i,
        {
            let ghost prev = out@;
            out.push(&self.models[i]);
            assert(derefs(out@) =~= derefs(prev).push(self@[i as int]));
            assert(derefs(out@) =~= self@.subrange(0, i + 1));
            i = i + 1;
        }
        assert(self@.subrange(0, self@.len() as int) =~= self@);
        out
    }

    /// The number of registered models.
    pub fn len(&self) -> (r: usize)
        ensures
            r == self@.len(),
    {
        self.models.len()
    }

    /// Whether no model is registered.
    pub fn is_empty(&self) -> (r: bool)
        ensures
            r == (self@.len() == 0),
    {
        self.models.len() == 0
    }

    /// Removes the model with key `key`, returning its profile.
    pub fn remove(&mut self, key: &str) -> (r: Option<ModelProfile<P>>)
        ensures
            final(self)@ == without_key(old(self)@, key@),
            r == lookup(old(self)@, key@),
            distinct_keys(final(self)@),
    {
        let k = String::from_str(key);
        let ghost before = self@;
        let r = match self.find(&k) {
            Some(i) => {
                let ghost after = before.remove(i as int);
                assert forall|a: int, b: int| 0 <= a < b < after.len() implies key_of(after[a])
                    != key_of(after[b]) by {
                    let a2 = if a < i { a } else { a + 1 };
                    let b2 = if b < i { b } else { b + 1 };
                    assert(after[a] == before[a2] && after[b] == before[b2]);
                }
                let mut models: Vec<ModelProfile<P>> = Vec::new();
                std::mem::swap(&mut models, &mut self.models);
                let p = models.remove(i);
                assert(models@ =~= after);
                self.models = models;
                Some(p)
            },
            None => None,
        };
        proof {
            use_type_invariant(&*self);
        }
        r
    }

    /// The profiles that meet criterion `c`, in order.
    fn select_by(&self, c: Criterion) -> (r: Vec<&ModelProfile<P>>)
        ensures
            derefs(r@) == select(self@, |p: ModelProfile<P>| meets(c, p)),
    {
        let ghost pred = |p: ModelProfile<P>| meets(c, p);
        let mut out: Vec<&ModelProfile<P>> = Vec::new();
        let mut i: usize = 0;
        while i < self.models.len()
            invariant
                0 <= i <= self.models@.len(),
                pred == (|p: ModelProfile<P>| meets(c, p)),
                derefs(out@) == select(self@.subrange(0, i as int), pred),
            decreases self.models@.len() - i,
        {
            assert(self@.subrange(0, i + 1).drop_last() =~= self@.subrange(0, i as int));
            let p = &self.models[i];
            let keep = match c {
                Criterion::HasModality(m) => has_modality(&p.modalities, m),
                Criterion::SupportsTools => p.supports_tools,
                Criterion::MinContext(n) => p.context_window >= n,
            };
            if keep {
                out.push(p);
                assert(derefs(out@) =~= select(self@.subrange(0, i as int), pred).push(*p));
            }
            i = i + 1;
        }
        assert(self@.subrange(0, self@.len() as int) =~= self@);
        out
    }

    /// The models that support `modality`.
    pub fn with_modality(&self, modality: &Modality) -> (r: Vec<&ModelProfile<P>>)
        ensures
            derefs(r@) == select(self@, |p: ModelProfile<P>| p.modalities@.contains(*modality)),
    {
        let r = self.select_by(Criterion::HasModality(*modality));
        assert((|p: ModelProfile<P>| meets(Criterion::HasModality(*modality), p)) =~= (|p: ModelProfile<P>| p.modalities@.contains(*modality)));
        r
    }

    /// The models that support tool calling.
    pub fn with_tools(&self) -> (r: Vec<&ModelProfile<P>>)
        ensures
            derefs(r@) == select(self@, |p: ModelProfile<P>| p.supports_tools),
    {
        let r = self.select_by(Criterion::SupportsTools);
        assert((|p: ModelProfile<P>| meets(Criterion::SupportsTools, p)) =~= (|p: ModelProfile<P>| p.supports_tools));
        r
    }

    /// The models whose context window holds at least `min_tokens` tokens.
    pub fn with_min_context(&self, min_tokens: usize) -> (r: Vec<&ModelProfile<P>>)
        ensures
            derefs(r@) == select(self@, |p: ModelProfile<P>| p.context_window >= min_tokens),
    {
        let r = self.select_by(Criterion::MinContext(min_tokens));
        assert((|p: ModelProfile<P>| meets(Criterion::MinContext(min_tokens), p)) =~= (|p: ModelProfile<P>| p.context_window >= min_tokens));
        r
    }
}

/// A filter on profiles.
#[derive(Clone, Copy)]
enum Criterion {
    HasModality(Modality),
    SupportsTools,
    MinContext(usize),
}

/// Whether profile `p` meets criterion `c`.
spec fn meets<P>(c: Criterion, p: ModelProfile<P>) -> bool {
    match c {
        Criterion::HasModality(m) => p.modalities@.contains(m),
        Criterion::SupportsTools => p.supports_tools,
        Criterion::MinContext(n) => p.context_window >= n,
    }
}

/// Whether `modalities` lists `m`.
fn has_modality(modalities: &Vec<Modality>, m: Modality) -> (r: bool)
    ensures
        r == modalities@.contains(m),
{
    let mut i: usize = 0;
    while i < modalities.len()
        invariant
            0 <= i <= modalities@.len(),
            forall|j: int| 0 <= j < i ==> modalities@[j] != m,
        decreases modalities@.len() - i,
    {
        if modalities[i] == m {
            return true;
        }
        i = i + 1;
    }
    false
}

} // verus!
