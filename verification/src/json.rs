//! A JSON document model used for tool arguments, tool results and the
//! request and response bodies exchanged with LLM providers.

use vstd::prelude::*;
use crate::text::{first_named, lemma_first_named};

verus! {

/// A JSON number: a non-negative integer, a negative integer, or any other
/// number, kept as its decimal text.
#[derive(Debug)]
pub enum JsonNumber {
    PosInt(u64),
    NegInt(i64),
    Float(String),
}

/// The mathematical value of a [`JsonNumber`].
pub enum NumberView {
    PosInt(u64),
    NegInt(i64),
    Float(Seq<char>),
}

impl View for JsonNumber {
    type V = NumberView;

    open spec fn view(&self) -> NumberView {
        match self {
            JsonNumber::PosInt(n) => NumberView::PosInt(*n),
            JsonNumber::NegInt(n) => NumberView::NegInt(*n),
            JsonNumber::Float(t) => NumberView::Float(t@),
        }
    }
}

impl Clone for JsonNumber {
    fn clone(&self) -> (r: JsonNumber)
        ensures
            r@ == self@,
    {
        match self {
            JsonNumber::PosInt(n) => JsonNumber::PosInt(*n),
            JsonNumber::NegInt(n) => JsonNumber::NegInt(*n),
            JsonNumber::Float(t) => JsonNumber::Float(t.clone()),
        }
    }
}

/// A JSON value.
#[derive(Debug)]
pub enum Json {
    Null,
    Bool(bool),
    Number(JsonNumber),
    Str(String),
    Array(Vec<Json>),
    Object(Vec<(String, Json)>),
}

/// The mathematical value of a [`Json`] document.
pub enum JsonView {
    Null,
    Bool(bool),
    Number(NumberView),
    Str(Seq<char>),
    Array(Seq<JsonView>),
    Object(Seq<(Seq<char>, JsonView)>),
}

pub open spec fn json_view(j: Json) -> JsonView
    decreases j,
{
    match j {
        Json::Null => JsonView::Null,
        Json::Bool(b) => JsonView::Bool(b),
        Json::Number(n) => JsonView::Number(n@),
        Json::Str(s) => JsonView::Str(s@),
        Json::Array(a) => JsonView::Array(
            Seq::new(
                a@.len(),
                |i: int|
                    if 0 <= i < a@.len() {
                        proof {
                            vstd::std_specs::vec::axiom_vec_index_decreases(a, i);
                        }
                        json_view(a@[i])
                    } else {
                        JsonView::Null
                    },
            ),
        ),
        Json::Object(o) => JsonView::Object(
            Seq::new(
                o@.len(),
                |i: int|
                    if 0 <= i < o@.len() {
                        proof {
                            vstd::std_specs::vec::axiom_vec_index_decreases(o, i);
                        }
                        (o@[i].0@, json_view(o@[i].1))
                    } else {
                        (Seq::empty(), JsonView::Null)
                    },
            ),
        ),
    }
}

impl View for Json {
    type V = JsonView;

    open spec fn view(&self) -> JsonView {
        json_view(*self)
    }
}

impl Clone for Json {
    /// A deep copy of the document.
    #[verifier::loop_isolation(false)]
    fn clone(&self) -> (r: Json)
        ensures
            r@ == self@,
        decreases self,
    {
        match self {
            Json::Null => Json::Null,
            Json::Bool(b) => Json::Bool(*b),
            Json::Number(n) => Json::Number(n.clone()),
            Json::Str(s) => Json::Str(s.clone()),
            Json::Array(a) => {
                let mut out: Vec<Json> = Vec::new();
                let mut i: usize = 0;
                while i < a.len()
                    invariant
                        0 <= i <= a@.len(),
                        out@.len() == i,
                        forall|k: int| 0 <= k < i ==> json_view(#[trigger] out@[k]) == json_view(a@[k]),
                    decreases a@.len() - i,
                {
                    proof {
                        vstd::std_specs::vec::axiom_vec_index_decreases(*a, i as int);
                    }
                    let c = a[i].clone();
                    out.push(c);
                    i = i + 1;
                }
                let r = Json::Array(out);
                assert(json_view(r)->Array_0 =~= json_view(*self)->Array_0);
                r
            },
            Json::Object(o) => {
                let mut out: Vec<(String, Json)> = Vec::new();
                let mut i: usize = 0;
                while i < o.len()
                    invariant
                        0 <= i <= o@.len(),
                        out@.len() == i,
                        forall|k: int| 0 <= k < i ==> (#[trigger] out@[k]).0@ == o@[k].0@ && json_view(out@[k].1) == json_view(o@[k].1),
                    decreases o@.len() - i,
                {
                    proof {
                        vstd::std_specs::vec::axiom_vec_index_decreases(*o, i as int);
                    }
                    let c = o[i].1.clone();
                    out.push((o[i].0.clone(), c));
                    i = i + 1;
                }
                let r = Json::Object(out);
                assert(json_view(r)->Object_0 =~= json_view(*self)->Object_0);
                r
            },
        }
    }
}

/// The views of a list of values.
pub open spec fn jviews(a: Seq<Json>) -> Seq<JsonView> {
    a.map_values(|x: Json| x@)
}

/// The views of a list of object entries.
pub open spec fn entry_views(o: Seq<(String, Json)>) -> Seq<(Seq<char>, JsonView)> {
    o.map_values(|p: (String, Json)| (p.0@, p.1@))
}

/// The keys of object entries, in order.
pub open spec fn keys_of(e: Seq<(Seq<char>, JsonView)>) -> Seq<Seq<char>> {
    e.map_values(|p: (Seq<char>, JsonView)| p.0)
}

/// The view of an array is the sequence of its elements' views.
pub proof fn lemma_array_view(a: Vec<Json>)
    ensures
        Json::Array(a)@ == JsonView::Array(jviews(a@)),
{
    assert(Json::Array(a)@->Array_0 =~= jviews(a@));
}

/// The view of an object is the sequence of its entries' views.
pub proof fn lemma_object_view(o: Vec<(String, Json)>)
    ensures
        Json::Object(o)@ == JsonView::Object(entry_views(o@)),
{
    assert(Json::Object(o)@->Object_0 =~= entry_views(o@));
}

/// The value under `key` in object entries `e`: that of the first entry
/// with this key.
pub open spec fn entry(e: Seq<(Seq<char>, JsonView)>, key: Seq<char>) -> Option<JsonView> {
    match first_named(keys_of(e), key) {
        Some(i) => Some(e[i].1),
        None => None,
    }
}

/// The value under `key` when `j` is an object; none for other values.
pub open spec fn field(j: JsonView, key: Seq<char>) -> Option<JsonView> {
    match j {
        JsonView::Object(e) => entry(e, key),
        _ => None,
    }
}

/// The value under `key` of an optional value.
pub open spec fn field_of(j: Option<JsonView>, key: Seq<char>) -> Option<JsonView> {
    match j {
        Some(v) => field(v, key),
        None => None,
    }
}

/// The element at `i` when `j` is an array long enough; none otherwise.
pub open spec fn element(j: Option<JsonView>, i: int) -> Option<JsonView> {
    match j {
        Some(JsonView::Array(a)) => if 0 <= i < a.len() {
            Some(a[i])
        } else {
            None
        },
        _ => None,
    }
}

/// The text of an optional string value.
pub open spec fn str_of(j: Option<JsonView>) -> Option<Seq<char>> {
    match j {
        Some(JsonView::Str(s)) => Some(s),
        _ => None,
    }
}

/// The value of an optional non-negative integer.
pub open spec fn u64_of(j: Option<JsonView>) -> Option<u64> {
    match j {
        Some(JsonView::Number(NumberView::PosInt(n))) => Some(n),
        _ => None,
    }
}

/// The elements of an optional array.
pub open spec fn array_of(j: Option<JsonView>) -> Option<Seq<JsonView>> {
    match j {
        Some(JsonView::Array(a)) => Some(a),
        _ => None,
    }
}

/// Object entries with `key` set to `v`: the first entry with this key
/// gets the new value in place, or the entry is added last.
pub open spec fn set_entry(e: Seq<(Seq<char>, JsonView)>, key: Seq<char>, v: JsonView) -> Seq<
    (Seq<char>, JsonView),
> {
    match first_named(keys_of(e), key) {
        Some(i) => e.update(i, (key, v)),
        None => e.push((key, v)),
    }
}

/// The entries of an object; none for any other value.
pub open spec fn entries_or_none(j: JsonView) -> Seq<(Seq<char>, JsonView)> {
    match j {
        JsonView::Object(e) => e,
        _ => Seq::empty(),
    }
}

/// Setting a key makes it hold the new value.
pub proof fn lemma_set_entry_same(e: Seq<(Seq<char>, JsonView)>, k: Seq<char>, v: JsonView)
    ensures
        entry(set_entry(e, k, v), k) == Some(v),
{
    let t = set_entry(e, k, v);
    let ke = keys_of(e);
    let kt = keys_of(t);
    lemma_first_named(ke, k);
    let pos: int = match first_named(ke, k) {
        Some(i) => i,
        None => e.len() as int,
    };
    assert(t.len() == if first_named(ke, k) is Some { e.len() } else { e.len() + 1 });
    assert(t[pos] == (k, v));
    assert(kt[pos] == k);
    assert(forall|j: int| 0 <= j < pos ==> t[j] == e[j]);
    assert(forall|j: int| 0 <= j < pos ==> kt[j] == ke[j]);
    lemma_first_named(kt, k);
    let j = first_named(kt, k).unwrap();
    if j < pos {
        assert(kt[j] == ke[j]);
    }
    assert(j == pos);
}

/// Setting a key leaves the other keys as they were.
pub proof fn lemma_set_entry_other(
    e: Seq<(Seq<char>, JsonView)>,
    k: Seq<char>,
    v: JsonView,
    other: Seq<char>,
)
    requires
        other != k,
    ensures
        entry(set_entry(e, k, v), other) == entry(e, other),
{
    let t = set_entry(e, k, v);
    let ke = keys_of(e);
    let kt = keys_of(t);
    lemma_first_named(ke, k);
    lemma_first_named(ke, other);
    lemma_first_named(kt, other);
    assert(forall|j: int| 0 <= j < e.len() && kt[j] != k ==> t[j] == e[j]);
    assert(forall|j: int| 0 <= j < e.len() ==> (kt[j] == other <==> ke[j] == other));
    assert(t.len() > e.len() ==> kt[e.len() as int] == k);
    match first_named(ke, other) {
        Some(j) => {
            assert(kt[j] == other);
            let j2 = first_named(kt, other).unwrap();
            if j2 < j {
                assert(ke[j2] != other);
            }
            assert(j2 == j);
            assert(t[j] == e[j]);
        },
        None => {
            if first_named(kt, other) is Some {
                let j2 = first_named(kt, other).unwrap();
                assert(j2 < e.len());
                assert(ke[j2] == other);
            }
        },
    }
}

/// The view of an optional reference to a value.
pub open spec fn opt_jview(r: Option<&Json>) -> Option<JsonView> {
    match r {
        Some(x) => Some(x@),
        None => None,
    }
}

/// A string value.
pub fn jstr(s: &str) -> (r: Json)
    ensures
        r@ == JsonView::Str(s@),
{
    Json::Str(String::from_str(s))
}

impl Json {
    /// The value under `key`, when `self` is an object that has it.
    pub fn get(&self, key: &str) -> (r: Option<&Json>)
        ensures
            opt_jview(r) == field(self@, key@),
    {
        match self {
            Json::Object(o) => {
                proof {
                    lemma_object_view(*o);
                }
                let ghost e = entry_views(o@);
                let ghost keys = keys_of(e);
                assert(self@ == JsonView::Object(e));
                let k = String::from_str(key);
                let mut i: usize = 0;
                while i < o.len()
                    invariant
                        0 <= i <= o@.len(),
                        self@ == JsonView::Object(e),
                        e == entry_views(o@),
                        keys == keys_of(e),
                        k@ == key@,
                        forall|j: int| 0 <= j < i ==> keys[j] != key@,
                    decreases o@.len() - i,
                {
                    assert(keys[i as int] == o@[i as int].0@);
                    assert(e[i as int] == (o@[i as int].0@, o@[i as int].1@));
                    if o[i].0 == k {
                        assert(first_named(keys, key@) == Some(i as int));
                        assert(self@ == JsonView::Object(e));
                        assert(entry(e, key@) == Some(o@[i as int].1@));
                        return Some(&o[i].1);
                    }
                    i = i + 1;
                }
                proof {
                    lemma_first_named(keys, key@);
                }
                assert(entry(e, key@) is None);
                None
            },
            _ => None,
        }
    }

    /// The element at `i`, when `self` is an array long enough.
    pub fn at(&self, i: usize) -> (r: Option<&Json>)
        ensures
            opt_jview(r) == element(Some(self@), i as int),
    {
        match self {
            Json::Array(a) => {
                proof {
                    lemma_array_view(*a);
                }
                if i < a.len() {
                    Some(&a[i])
                } else {
                    None
                }
            },
            _ => None,
        }
    }

    /// The text, when `self` is a string.
    pub fn as_str(&self) -> (r: Option<&str>)
        ensures
            match r {
                Some(t) => str_of(Some(self@)) == Some(t@),
                None => str_of(Some(self@)) is None,
            },
    {
        match self {
            Json::Str(s) => Some(s.as_str()),
            _ => None,
        }
    }

    /// The value, when `self` is a non-negative integer.
    pub fn as_u64(&self) -> (r: Option<u64>)
        ensures
            r == u64_of(Some(self@)),
    {
        match self {
            Json::Number(JsonNumber::PosInt(n)) => Some(*n),
            _ => None,
        }
    }

    /// The elements, when `self` is an array.
    pub fn as_array(&self) -> (r: Option<&Vec<Json>>)
        ensures
            match r {
                Some(a) => array_of(Some(self@)) == Some(jviews(a@)),
                None => array_of(Some(self@)) is None,
            },
    {
        match self {
            Json::Array(a) => {
                proof {
                    lemma_array_view(*a);
                }
                Some(a)
            },
            _ => None,
        }
    }

    /// Whether `self` is null.
    pub fn is_null(&self) -> (r: bool)
        ensures
            r == (self@ is Null),
    {
        match self {
            Json::Null => true,
            _ => false,
        }
    }

    /// Sets `key` to `value` in an object: an entry with this key gets the
    /// new value in place, or the entry is added last. Null becomes an
    /// object of that one entry.
    pub fn set(&mut self, key: &str, value: Json)
        requires
            old(self)@ is Object || old(self)@ is Null,
        ensures
            final(self)@ == JsonView::Object(set_entry(entries_or_none(old(self)@), key@, value@)),
    {
        let mut taken = Json::Null;
        std::mem::swap(&mut taken, self);
        match taken {
            Json::Object(o) => {
                proof {
                    lemma_object_view(o);
                }
                let ghost e = entry_views(o@);
                let ghost keys = keys_of(e);
                let ghost vv = value@;
                let k = String::from_str(key);
                let mut i: usize = 0;
                let mut found: bool = false;
                while i < o.len() && !found
                    invariant
                        0 <= i <= o@.len(),
                        e == entry_views(o@),
                        keys == keys_of(e),
                        k@ == key@,
                        forall|j: int| 0 <= j < i ==> keys[j] != key@,
                        found ==> i < o@.len() && keys[i as int] == key@,
                    decreases o@.len() - i + (if found { 0int } else { 1int }),
                {
                    assert(keys[i as int] == o@[i as int].0@);
                    if o[i].0 == k {
                        found = true;
                    } else {
                        i = i + 1;
                    }
                }
                let mut o2 = o;
                if found {
                    assert(first_named(keys, key@) == Some(i as int));
                    o2.set(i, (k, value));
                    assert(entry_views(o2@) =~= e.update(i as int, (key@, vv)));
                } else {
                    proof {
                        lemma_first_named(keys, key@);
                    }
                    o2.push((k, value));
                    assert(entry_views(o2@) =~= e.push((key@, vv)));
                }
                proof {
                    lemma_object_view(o2);
                }
                *self = Json::Object(o2);
            },
            _ => {
                let ghost vv = value@;
                let mut o: Vec<(String, Json)> = Vec::new();
                o.push((String::from_str(key), value));
                proof {
                    lemma_object_view(o);
                    lemma_first_named(keys_of(Seq::<(Seq<char>, JsonView)>::empty()), key@);
                    assert(set_entry(Seq::<(Seq<char>, JsonView)>::empty(), key@, vv) =~= seq![(key@, vv)]);
                    assert(entry_views(o@) =~= seq![(key@, vv)]);
                }
                *self = Json::Object(o);
            },
        }
    }
}

} // verus!
