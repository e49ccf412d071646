//! A JSON document model that the library reads and builds.
//!
//! Text is turned into a [`Json`] value (and back) at the edge of the
//! application; the library only inspects and assembles values.

use vstd::prelude::*;
use vstd::string::*;

use crate::text::chars_of;

verus! {

/// A JSON number, kept as the parser classified it.
#[derive(Debug, Clone, PartialEq, Eq)]
pub enum JsonNumber {
    /// A non-negative integer that fits in `u64`.
    PosInt(u64),
    /// A negative integer that fits in `i64`.
    NegInt(i64),
    /// Any other number, in its decimal text form.
    Float(String),
}

/// A JSON value. An object keeps its entries in order.
#[derive(Debug, PartialEq, Eq)]
pub enum Json {
    Null,
    Bool(bool),
    Number(JsonNumber),
    Str(String),
    Array(Vec<Json>),
    Object(Vec<(String, Json)>),
}

/// Abstract JSON value.
pub enum JsonView {
    Null,
    Bool(bool),
    PosInt(u64),
    NegInt(i64),
    Float(Seq<char>),
    Str(Seq<char>),
    Array(Seq<JsonView>),
    Object(Seq<(Seq<char>, JsonView)>),
}

/// The abstract value of a JSON document.
pub open spec fn jview(j: Json) -> JsonView
    decreases j,
{
    match j {
        Json::Null => JsonView::Null,
        Json::Bool(b) => JsonView::Bool(b),
        Json::Number(JsonNumber::PosInt(n)) => JsonView::PosInt(n),
        Json::Number(JsonNumber::NegInt(n)) => JsonView::NegInt(n),
        Json::Number(JsonNumber::Float(s)) => JsonView::Float(s@),
        Json::Str(s) => JsonView::Str(s@),
        Json::Array(v) => JsonView::Array(
            Seq::new(
                v@.len(),
                |i: int|
                    if 0 <= i < v@.len() {
                        jview(v@[i])
                    } else {
                        JsonView::Null
                    },
            ),
        ),
        Json::Object(es) => JsonView::Object(
            Seq::new(
                es@.len(),
                |i: int|
                    if 0 <= i < es@.len() {
                        (es@[i].0@, jview(es@[i].1))
                    } else {
                        (Seq::empty(), JsonView::Null)
                    },
            ),
        ),
    }
}

impl View for Json {
    type V = JsonView;

    open spec fn view(&self) -> JsonView {
        jview(*self)
    }
}


/// The views of a list of values.
pub open spec fn jviews(v: Seq<Json>) -> Seq<JsonView> {
    v.map_values(|x: Json| jview(x))
}

/// The views of a list of object entries.
pub open spec fn entry_views(es: Seq<(String, Json)>) -> Seq<(Seq<char>, JsonView)> {
    es.map_values(|e: (String, Json)| (e.0@, jview(e.1)))
}

/// The value of the first entry with the given key.
pub open spec fn entries_get(es: Seq<(Seq<char>, JsonView)>, key: Seq<char>) -> Option<JsonView>
    decreases es.len(),
{
    if es.len() == 0 {
        None
    } else if es[0].0 == key {
        Some(es[0].1)
    } else {
        entries_get(es.drop_first(), key)
    }
}

/// `value.get(key)`: the member of an object, `None` for a missing key or a
/// value that is not an object.
pub open spec fn view_get(v: JsonView, key: Seq<char>) -> Option<JsonView> {
    match v {
        JsonView::Object(es) => entries_get(es, key),
        _ => None,
    }
}

/// `value.as_str()`.
pub open spec fn view_as_str(v: JsonView) -> Option<Seq<char>> {
    match v {
        JsonView::Str(s) => Some(s),
        _ => None,
    }
}

/// `value.as_u64()`.
pub open spec fn view_as_u64(v: JsonView) -> Option<u64> {
    match v {
        JsonView::PosInt(n) => Some(n),
        _ => None,
    }
}

/// `value.as_bool()`.
pub open spec fn view_as_bool(v: JsonView) -> Option<bool> {
    match v {
        JsonView::Bool(b) => Some(b),
        _ => None,
    }
}

/// `get(key)` followed by `as_str()`.
pub open spec fn view_get_str(v: JsonView, key: Seq<char>) -> Option<Seq<char>> {
    match view_get(v, key) {
        Some(x) => view_as_str(x),
        None => None,
    }
}

/// `get(key)` followed by `as_u64()`.
pub open spec fn view_get_u64(v: JsonView, key: Seq<char>) -> Option<u64> {
    match view_get(v, key) {
        Some(x) => view_as_u64(x),
        None => None,
    }
}

/// Looking a key up in two lists of entries one after the other.
pub proof fn lemma_entries_get_concat(
    a: Seq<(Seq<char>, JsonView)>,
    b: Seq<(Seq<char>, JsonView)>,
    k: Seq<char>,
)
    ensures
        entries_get(a + b, k) == (match entries_get(a, k) {
            Some(v) => Some(v),
            None => entries_get(b, k),
        }),
    decreases a.len(),
{
    if a.len() == 0 {
        assert(a + b =~= b);
    } else {
        assert((a + b)[0] == a[0]);
        assert((a + b).drop_first() =~= a.drop_first() + b);
        lemma_entries_get_concat(a.drop_first(), b, k);
    }
}

/// Looking a key up in a single entry.
pub proof fn lemma_entries_get_single(k1: Seq<char>, v: JsonView, k: Seq<char>)
    ensures
        entries_get(seq![(k1, v)], k) == (if k1 == k {
            Some(v)
        } else {
            None
        }),
{
    reveal_with_fuel(entries_get, 2);
    assert(seq![(k1, v)].drop_first() =~= Seq::<(Seq<char>, JsonView)>::empty());
}

/// The view of an optional borrowed value.
pub open spec fn opt_jview(r: Option<&Json>) -> Option<JsonView> {
    match r {
        Some(x) => Some(jview(*x)),
        None => None,
    }
}

/// The view of an array value is the views of its elements.
pub proof fn lemma_array_view(v: Vec<Json>)
    ensures
        jview(Json::Array(v)) == JsonView::Array(jviews(v@)),
{
    let a = jview(Json::Array(v))->Array_0;
    assert(a.len() == v@.len());
    assert forall|i: int| 0 <= i < a.len() implies a[i] == jviews(v@)[i] by {}
    assert(a =~= jviews(v@));
}

/// The view of an object value is the views of its entries.
pub proof fn lemma_object_view(es: Vec<(String, Json)>)
    ensures
        jview(Json::Object(es)) == JsonView::Object(entry_views(es@)),
{
    let a = jview(Json::Object(es))->Object_0;
    assert(a.len() == es@.len());
    assert forall|i: int| 0 <= i < a.len() implies a[i] == entry_views(es@)[i] by {}
    assert(a =~= entry_views(es@));
}

/// Whether two character slices are equal.
pub fn chars_eq(a: &[char], b: &[char]) -> (r: bool)
    ensures
        r == (a@ == b@),
{
    if a.len() != b.len() {
        return false;
    }
    let mut i: usize = 0;
    while i < a.len()
        invariant
            a@.len() == b@.len(),
            i <= a@.len(),
            forall|k: int| 0 <= k < i ==> a@[k] == b@[k],
        decreases a@.len() - i,
    {
        if a[i] != b[i] {
            return false;
        }
        i = i + 1;
    }
    assert(a@ =~= b@);
    true
}

/// Whether a string equals a string slice.
pub fn str_eq(a: &str, b: &str) -> (r: bool)
    ensures
        r == (a@ == b@),
{
    let ca = chars_of(a);
    let cb = chars_of(b);
    chars_eq(ca.as_slice(), cb.as_slice())
}

impl Json {
    /// The member of an object under `key`.
    pub fn get<'a>(&'a self, key: &str) -> (r: Option<&'a Json>)
        ensures
            opt_jview(r) == view_get(self@, key@),
    {
        match self {
            Json::Object(es) => {
                proof {
                    lemma_object_view(*es);
                }
                let ghost ves = entry_views(es@);
                let mut i: usize = 0;
                assert(ves.skip(0) =~= ves);
                while i < es.len()
                    invariant
                        i <= es@.len(),
                        ves == entry_views(es@),
                        self@ == JsonView::Object(ves),
                        entries_get(ves, key@) == entries_get(ves.skip(i as int), key@),
                    decreases es@.len() - i,
                {
                    assert(ves.skip(i as int)[0] == ves[i as int]);
                    if str_eq(es[i].0.as_str(), key) {
                        return Some(&es[i].1);
                    }
                    assert(ves.skip(i as int).drop_first() =~= ves.skip(i + 1));
                    i = i + 1;
                }
                None
            },
            _ => None,
        }
    }

    /// The text of a string value.
    pub fn as_str(&self) -> (r: Option<&str>)
        ensures
            r is Some <==> view_as_str(self@) is Some,
            r matches Some(s) ==> view_as_str(self@) == Some(s@),
    {
        match self {
            Json::Str(s) => Some(s.as_str()),
            _ => None,
        }
    }

    /// The value of a non-negative integer number.
    pub fn as_u64(&self) -> (r: Option<u64>)
        ensures
            r == view_as_u64(self@),
    {
        match self {
            Json::Number(JsonNumber::PosInt(n)) => Some(*n),
            _ => None,
        }
    }

    /// The value of a boolean.
    pub fn as_bool(&self) -> (r: Option<bool>)
        ensures
            r == view_as_bool(self@),
    {
        match self {
            Json::Bool(b) => Some(*b),
            _ => None,
        }
    }

    /// Whether the value is an object.
    pub fn is_object(&self) -> (r: bool)
        ensures
            r == (self@ is Object),
    {
        match self {
            Json::Object(_) => true,
            _ => false,
        }
    }

    /// The elements of an array value.
    pub fn as_array<'a>(&'a self) -> (r: Option<&'a Vec<Json>>)
        ensures
            r is Some <==> self@ is Array,
            r matches Some(v) ==> self@ == JsonView::Array(jviews(v@)),
    {
        match self {
            Json::Array(v) => {
                proof {
                    lemma_array_view(*v);
                }
                Some(v)
            },
            _ => None,
        }
    }

    /// A deep copy of the value.
    pub fn duplicate(&self) -> (r: Json)
        ensures
            r@ == self@,
        decreases self,
    {
        match self {
            Json::Null => Json::Null,
            Json::Bool(b) => Json::Bool(*b),
            Json::Number(JsonNumber::PosInt(n)) => Json::Number(JsonNumber::PosInt(*n)),
            Json::Number(JsonNumber::NegInt(n)) => Json::Number(JsonNumber::NegInt(*n)),
            Json::Number(JsonNumber::Float(f)) => Json::Number(JsonNumber::Float(f.clone())),
            Json::Str(s) => Json::Str(s.clone()),
            Json::Array(v) => {
                proof {
                    lemma_array_view(*v);
                }
                let mut out: Vec<Json> = Vec::new();
                let mut i: usize = 0;
                while i < v.len()
                    invariant
                        i <= v@.len(),
                        *self == Json::Array(*v),
                        jviews(out@) =~= jviews(v@).take(i as int),
                    decreases v@.len() - i,
                {
                    assert(self->Array_0 == *v);
                    assert(decreases_to!(*self => self->Array_0));
                    assert(decreases_to!(*v => v@));
                    assert(decreases_to!(v@ => v@[i as int]));
                    assert(decreases_to!(*self => v@[i as int]));
                    let x = v[i].duplicate();
                    let ghost before = out@;
                    out.push(x);
                    assert(jviews(out@) =~= jviews(before).push(jview(v@[i as int])));
                    i = i + 1;
                    assert(jviews(out@) =~= jviews(v@).take(i as int));
                }
                assert(jviews(v@).take(v@.len() as int) =~= jviews(v@));
                Json::array(out)
            },
            Json::Object(es) => {
                proof {
                    lemma_object_view(*es);
                }
                let mut out: Vec<(String, Json)> = Vec::new();
                let mut i: usize = 0;
                while i < es.len()
                    invariant
                        i <= es@.len(),
                        *self == Json::Object(*es),
                        entry_views(out@) =~= entry_views(es@).take(i as int),
                    decreases es@.len() - i,
                {
                    assert(self->Object_0 == *es);
                    assert(decreases_to!(*self => self->Object_0));
                    assert(decreases_to!(*es => es@));
                    assert(decreases_to!(es@ => es@[i as int]));
                    assert(decreases_to!(es@[i as int] => es@[i as int].1));
                    assert(decreases_to!(*self => es@[i as int].1));
                    let x = es[i].1.duplicate();
                    let k = es[i].0.clone();
                    let ghost before = out@;
                    out.push((k, x));
                    assert(entry_views(out@) =~= entry_views(before).push(
                        (es@[i as int].0@, jview(es@[i as int].1)),
                    ));
                    i = i + 1;
                    assert(entry_views(out@) =~= entry_views(es@).take(i as int));
                }
                assert(entry_views(es@).take(es@.len() as int) =~= entry_views(es@));
                Json::object(out)
            },
        }
    }

    /// A string value.
    pub fn from_str(s: &str) -> (j: Json)
        ensures
            j@ == JsonView::Str(s@),
    {
        Json::Str(String::from_str(s))
    }

    /// An object value with the given entries, in order.
    pub fn object(es: Vec<(String, Json)>) -> (j: Json)
        ensures
            j@ == JsonView::Object(entry_views(es@)),
    {
        proof {
            lemma_object_view(es);
        }
        Json::Object(es)
    }

    /// An array value with the given elements, in order.
    pub fn array(v: Vec<Json>) -> (j: Json)
        ensures
            j@ == JsonView::Array(jviews(v@)),
    {
        proof {
            lemma_array_view(v);
        }
        Json::Array(v)
    }
}

} // verus!
