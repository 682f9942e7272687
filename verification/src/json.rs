use vstd::prelude::*;
use crate::json_props::group_json_lemmas;

verus! {

/// A JSON document as the editor reads and writes it.
///
/// Numbers keep the three shapes a JSON reader distinguishes: signed
/// integers, unsigned integers too large for `i64`, and floating-point
/// numbers, which this library never computes with and carries as their
/// IEEE-754 bit pattern. An object is a sequence of key/value entries;
/// a lookup finds the first entry with the key.
#[derive(Debug, PartialEq)]
pub enum Json {
    Null,
    Bool(bool),
    Int(i64),
    UInt(u64),
    Float(u64),
    Str(String),
    Array(Vec<Json>),
    Object(Vec<(String, Json)>),
}

/// The mathematical value of a [`Json`] document: strings are character
/// sequences and containers are sequences.
pub enum JsonV {
    Null,
    Bool(bool),
    Int(i64),
    UInt(u64),
    Float(u64),
    Str(Seq<char>),
    Array(Seq<JsonV>),
    Object(Seq<(Seq<char>, JsonV)>),
}

/// The bit pattern of the floating-point number `1.0`.
pub const FLOAT_ONE_BITS: u64 = 0x3ff0_0000_0000_0000u64;

impl Json {
    pub open spec fn deep(self) -> JsonV
        decreases self,
    {
        match self {
            Json::Null => JsonV::Null,
            Json::Bool(b) => JsonV::Bool(b),
            Json::Int(i) => JsonV::Int(i),
            Json::UInt(u) => JsonV::UInt(u),
            Json::Float(f) => JsonV::Float(f),
            Json::Str(s) => JsonV::Str(s@),
            Json::Array(items) => JsonV::Array(Json::deep_items(items@)),
            Json::Object(entries) => JsonV::Object(Json::deep_entries(entries@)),
        }
    }

    pub open spec fn deep_items(items: Seq<Json>) -> Seq<JsonV>
        decreases items,
    {
        if items.len() == 0 {
            Seq::empty()
        } else {
            Json::deep_items(items.drop_last()).push(items.last().deep())
        }
    }

    pub open spec fn deep_entries(entries: Seq<(String, Json)>) -> Seq<(Seq<char>, JsonV)>
        decreases entries,
    {
        if entries.len() == 0 {
            Seq::empty()
        } else {
            Json::deep_entries(entries.drop_last()).push(
                (entries.last().0@, entries.last().1.deep()),
            )
        }
    }
}

/// The value of an optional document.
pub open spec fn opt_deep(v: Option<Json>) -> Option<JsonV> {
    match v {
        Some(j) => Some(j.deep()),
        None => None,
    }
}

/// The value of an optional borrowed document.
pub open spec fn opt_deep_ref(v: Option<&Json>) -> Option<JsonV> {
    match v {
        Some(j) => Some(j.deep()),
        None => None,
    }
}

/// The mathematical value of a sequence of documents.
pub open spec fn deep_seq(items: Seq<Json>) -> Seq<JsonV> {
    Json::deep_items(items)
}



/// Entry `i` is the first entry of `entries` whose key is `key`.
pub open spec fn first_key_at(entries: Seq<(Seq<char>, JsonV)>, key: Seq<char>, i: int) -> bool {
    &&& 0 <= i < entries.len()
    &&& entries[i].0 == key
    &&& forall|j: int| 0 <= j < i ==> entries[j].0 != key
}

pub open spec fn has_key(entries: Seq<(Seq<char>, JsonV)>, key: Seq<char>) -> bool {
    exists|i: int| 0 <= i < entries.len() && entries[i].0 == key
}

pub open spec fn key_index(entries: Seq<(Seq<char>, JsonV)>, key: Seq<char>) -> int {
    choose|i: int| first_key_at(entries, key, i)
}

proof fn lemma_first_below(entries: Seq<(Seq<char>, JsonV)>, key: Seq<char>, n: int)
    requires
        0 <= n <= entries.len(),
        exists|i: int| 0 <= i < n && entries[i].0 == key,
    ensures
        exists|i: int| first_key_at(entries, key, i),
    decreases n,
{
    if exists|i: int| 0 <= i < n - 1 && entries[i].0 == key {
        lemma_first_below(entries, key, n - 1);
    } else {
        assert(first_key_at(entries, key, n - 1));
    }
}

pub proof fn lemma_key_index(entries: Seq<(Seq<char>, JsonV)>, key: Seq<char>)
    requires
        has_key(entries, key),
    ensures
        first_key_at(entries, key, key_index(entries, key)),
{
    lemma_first_below(entries, key, entries.len() as int);
}

pub proof fn lemma_first_key_unique(entries: Seq<(Seq<char>, JsonV)>, key: Seq<char>, i: int)
    requires
        first_key_at(entries, key, i),
    ensures
        key_index(entries, key) == i,
{
    lemma_key_index(entries, key);
    let k = key_index(entries, key);
    if k < i {
        assert(entries[k].0 == key);
    } else if k > i {
        assert(entries[i].0 == key);
    }
}

impl JsonV {
    /// The value stored under `key`, for an object that holds it.
    pub open spec fn field(self, key: Seq<char>) -> Option<JsonV> {
        match self {
            JsonV::Object(es) => if has_key(es, key) {
                Some(es[key_index(es, key)].1)
            } else {
                None
            },
            _ => None,
        }
    }

    /// The object with `key` set to `val`: the first entry with that key
    /// is replaced, or a new entry is appended.
    pub open spec fn with_field(self, key: Seq<char>, val: JsonV) -> JsonV {
        match self {
            JsonV::Object(es) => if has_key(es, key) {
                JsonV::Object(es.update(key_index(es, key), (key, val)))
            } else {
                JsonV::Object(es.push((key, val)))
            },
            _ => self,
        }
    }

    pub open spec fn as_i64(self) -> Option<i64> {
        match self {
            JsonV::Int(i) => Some(i),
            JsonV::UInt(u) => if u <= i64::MAX {
                Some(u as i64)
            } else {
                None
            },
            _ => None,
        }
    }

    pub open spec fn as_u64(self) -> Option<u64> {
        match self {
            JsonV::Int(i) => if i >= 0 {
                Some(i as u64)
            } else {
                None
            },
            JsonV::UInt(u) => Some(u),
            _ => None,
        }
    }

    pub open spec fn as_str(self) -> Option<Seq<char>> {
        match self {
            JsonV::Str(s) => Some(s),
            _ => None,
        }
    }

    pub open spec fn as_bool(self) -> Option<bool> {
        match self {
            JsonV::Bool(b) => Some(b),
            _ => None,
        }
    }

    pub open spec fn as_array(self) -> Option<Seq<JsonV>> {
        match self {
            JsonV::Array(items) => Some(items),
            _ => None,
        }
    }

    /// `field(key)` read as an integer.
    pub open spec fn i64_field(self, key: Seq<char>) -> Option<i64> {
        match self.field(key) {
            Some(v) => v.as_i64(),
            None => None,
        }
    }

    /// `field(key)` read as a string.
    pub open spec fn str_field(self, key: Seq<char>) -> Option<Seq<char>> {
        match self.field(key) {
            Some(v) => v.as_str(),
            None => None,
        }
    }

    /// `field(key)` read as an array.
    pub open spec fn array_field(self, key: Seq<char>) -> Option<Seq<JsonV>> {
        match self.field(key) {
            Some(v) => v.as_array(),
            None => None,
        }
    }

    /// `field(key)` read as a boolean.
    pub open spec fn bool_field(self, key: Seq<char>) -> Option<bool> {
        match self.field(key) {
            Some(v) => v.as_bool(),
            None => None,
        }
    }
}

/// The integer in `v`, or `default` when it holds none.
pub open spec fn i64_or(v: Option<i64>, default: i64) -> i64 {
    match v {
        Some(i) => i,
        None => default,
    }
}


impl Json {
    /// A copy of the document with the same value.
    pub fn copy(&self) -> (r: Json)
        ensures
            r.deep() == self.deep(),
        decreases self,
    {
        broadcast use group_json_lemmas;

        match self {
            Json::Null => Json::Null,
            Json::Bool(b) => Json::Bool(*b),
            Json::Int(i) => Json::Int(*i),
            Json::UInt(u) => Json::UInt(*u),
            Json::Float(f) => Json::Float(*f),
            Json::Str(s) => Json::Str(s.clone()),
            Json::Array(items) => {
                let mut out: Vec<Json> = Vec::new();
                let mut i: usize = 0;
                while i < items.len()
                    invariant
                        *self == Json::Array(*items),
                        i <= items.len(),
                        out@.len() == i,
                        forall|j: int| 0 <= j < i ==> (#[trigger] out@[j]).deep() == items@[j].deep(),
                    decreases items.len() - i,
                {
                    proof {
                        vstd::std_specs::vec::axiom_vec_index_decreases(*items, i as int);
                        assert(decreases_to!(*self => self->Array_0));
                        assert(decreases_to!(*items => items[i as int]));
                        assert(decreases_to!(*self => items@[i as int]));
                    }
                    let c = items[i].copy();
                    out.push(c);
                    i = i + 1;
                }
                assert(Json::deep_items(out@) =~= Json::deep_items(items@));
                Json::Array(out)
            },
            Json::Object(entries) => {
                let mut out: Vec<(String, Json)> = Vec::new();
                let mut i: usize = 0;
                while i < entries.len()
                    invariant
                        *self == Json::Object(*entries),
                        i <= entries.len(),
                        out@.len() == i,
                        forall|j: int|
                            0 <= j < i ==> (#[trigger] out@[j]).0@ == entries@[j].0@ && out@[j].1.deep()
                                == entries@[j].1.deep(),
                    decreases entries.len() - i,
                {
                    proof {
                        vstd::std_specs::vec::axiom_vec_index_decreases(*entries, i as int);
                        assert(decreases_to!(*self => self->Object_0));
                        assert(decreases_to!(*entries => entries[i as int]));
                        assert(decreases_to!(entries[i as int] => entries[i as int].1));
                        assert(decreases_to!(*self => entries@[i as int].1));
                    }
                    let k = entries[i].0.clone();
                    let v = entries[i].1.copy();
                    out.push((k, v));
                    i = i + 1;
                }
                assert(Json::deep_entries(out@) =~= Json::deep_entries(entries@));
                Json::Object(out)
            },
        }
    }

    /// The index of the first entry of an object whose key is `key`.
    pub fn key_position(entries: &Vec<(String, Json)>, key: &str) -> (r: Option<usize>)
        ensures
            match r {
                Some(i) => first_key_at(Json::deep_entries(entries@), key@, i as int),
                None => !has_key(Json::deep_entries(entries@), key@),
            },
    {
        broadcast use group_json_lemmas;

        let k = key.to_owned();
        let mut i: usize = 0;
        while i < entries.len()
            invariant
                i <= entries.len(),
                k@ == key@,
                forall|j: int| 0 <= j < i ==> (#[trigger] entries@[j]).0@ != key@,
            decreases entries.len() - i,
        {
            broadcast use group_json_lemmas;

            if entries[i].0 == k {
                return Some(i);
            }
            i = i + 1;
        }
        None
    }

    /// The value stored under `key`, for an object that holds it.
    pub fn get(&self, key: &str) -> (r: Option<&Json>)
        ensures
            match r {
                Some(v) => self.deep().field(key@) == Some(v.deep()),
                None => self.deep().field(key@) is None,
            },
    {
        broadcast use group_json_lemmas;

        match self {
            Json::Object(entries) => match Json::key_position(entries, key) {
                Some(i) => {
                    proof {
                        lemma_first_key_unique(Json::deep_entries(entries@), key@, i as int);
                    }
                    Some(&entries[i].1)
                },
                None => None,
            },
            _ => None,
        }
    }

    /// Sets `key` to `val` in an object: the first entry with that key is
    /// replaced, or a new entry is appended.
    pub fn set(&mut self, key: &str, val: Json)
        requires
            old(self).deep() is Object,
        ensures
            final(self).deep() == old(self).deep().with_field(key@, val.deep()),
    {
        broadcast use group_json_lemmas;

        let k = key.to_owned();
        if let Json::Object(entries) = self {
            let ghost old_entries = entries@;
            match Json::key_position(entries, key) {
                Some(i) => {
                    proof {
                        lemma_first_key_unique(Json::deep_entries(entries@), key@, i as int);
                    }
                    entries.set(i, (k, val));
                    assert(Json::deep_entries(entries@) =~= Json::deep_entries(old_entries).update(
                        i as int,
                        (key@, val.deep()),
                    ));
                },
                None => {
                    entries.push((k, val));
                    assert(Json::deep_entries(entries@) =~= Json::deep_entries(old_entries).push(
                        (key@, val.deep()),
                    ));
                },
            }
        }
    }

    pub fn as_i64(&self) -> (r: Option<i64>)
        ensures
            r == self.deep().as_i64(),
    {
        broadcast use group_json_lemmas;

        match self {
            Json::Int(i) => Some(*i),
            Json::UInt(u) => if *u <= 0x7fff_ffff_ffff_ffffu64 {
                Some(*u as i64)
            } else {
                None
            },
            _ => None,
        }
    }

    pub fn as_u64(&self) -> (r: Option<u64>)
        ensures
            r == self.deep().as_u64(),
    {
        broadcast use group_json_lemmas;

        match self {
            Json::Int(i) => if *i >= 0 {
                Some(*i as u64)
            } else {
                None
            },
            Json::UInt(u) => Some(*u),
            _ => None,
        }
    }

    pub fn as_str(&self) -> (r: Option<&String>)
        ensures
            match r {
                Some(s) => self.deep().as_str() == Some(s@),
                None => self.deep().as_str() is None,
            },
    {
        broadcast use group_json_lemmas;

        match self {
            Json::Str(s) => Some(s),
            _ => None,
        }
    }

    pub fn as_bool(&self) -> (r: Option<bool>)
        ensures
            r == self.deep().as_bool(),
    {
        broadcast use group_json_lemmas;

        match self {
            Json::Bool(b) => Some(*b),
            _ => None,
        }
    }

    pub fn as_array(&self) -> (r: Option<&Vec<Json>>)
        ensures
            match r {
                Some(v) => self.deep().as_array() == Some(deep_seq(v@)),
                None => self.deep().as_array() is None,
            },
    {
        broadcast use group_json_lemmas;

        match self {
            Json::Array(v) => Some(v),
            _ => None,
        }
    }

    /// A string document holding the text of `s`.
    pub fn text(s: &str) -> (r: Json)
        ensures
            r.deep() == JsonV::Str(s@),
    {
        broadcast use group_json_lemmas;

        Json::Str(s.to_owned())
    }

    /// An object with no entries.
    pub fn empty_object() -> (r: Json)
        ensures
            r.deep() == JsonV::Object(Seq::empty()),
    {
        broadcast use group_json_lemmas;

        let v: Vec<(String, Json)> = Vec::new();
        proof {
            assert(Json::deep_entries(v@) =~= Seq::empty());
        }
        Json::Object(v)
    }

    /// An array with no items.
    pub fn empty_array() -> (r: Json)
        ensures
            r.deep() == JsonV::Array(Seq::empty()),
    {
        broadcast use group_json_lemmas;

        let v: Vec<Json> = Vec::new();
        proof {
            assert(Json::deep_items(v@) =~= Seq::empty());
        }
        Json::Array(v)
    }

    /// Appends an item to an array.
    pub fn push_item(&mut self, item: Json)
        requires
            old(self).deep() is Array,
        ensures
            final(self).deep() == JsonV::Array(old(self).deep()->Array_0.push(item.deep())),
    {
        broadcast use group_json_lemmas;

        if let Json::Array(items) = self {
            let ghost old_items = items@;
            items.push(item);
            assert(Json::deep_items(items@) =~= Json::deep_items(old_items).push(item.deep()));
        }
    }
}

impl Json {
    /// Takes the array stored under `key` out of an object, leaving `null`
    /// in its place; an object without such an array is left as it was.
    pub fn take_array_field(&mut self, key: &str) -> (r: Option<Vec<Json>>)
        ensures
            match old(self).deep().field(key@) {
                Some(JsonV::Array(items)) => r is Some && deep_seq(r->0@) == items
                    && final(self).deep() == old(self).deep().with_field(key@, JsonV::Null),
                _ => r is None && final(self).deep() == old(self).deep(),
            },
    {
        broadcast use group_json_lemmas;

        if let Json::Object(entries) = self {
            match Json::key_position(entries, key) {
                Some(i) => {
                    proof {
                        lemma_first_key_unique(Json::deep_entries(entries@), key@, i as int);
                    }
                    if entries[i].1.as_array().is_some() {
                        let ghost old_entries = entries@;
                        let (k, v) = entries.remove(i);
                        entries.insert(i, (k, Json::Null));
                        assert(Json::deep_entries(entries@) =~= Json::deep_entries(old_entries).update(
                            i as int,
                            (key@, JsonV::Null),
                        ));
                        match v {
                            Json::Array(items) => {
                                return Some(items);
                            },
                            _ => {
                                return None;
                            },
                        }
                    }
                    None
                },
                None => None,
            }
        } else {
            None
        }
    }
}

/// Setting a field to the value it holds changes nothing.
pub proof fn lemma_with_field_same(v: JsonV, key: Seq<char>)
    requires
        v is Object,
        v.field(key) is Some,
    ensures
        v.with_field(key, v.field(key)->0) == v,
{
    let es = v->Object_0;
    lemma_key_index(es, key);
    let i = key_index(es, key);
    assert(es.update(i, (key, es[i].1)) =~= es);
}

/// Setting a field twice keeps only the second value.
pub proof fn lemma_with_field_twice(v: JsonV, key: Seq<char>, a: JsonV, b: JsonV)
    requires
        v is Object,
        v.field(key) is Some,
    ensures
        v.with_field(key, a).with_field(key, b) == v.with_field(key, b),
{
    let es = v->Object_0;
    lemma_key_index(es, key);
    let i = key_index(es, key);
    let es2 = es.update(i, (key, a));
    assert(first_key_at(es2, key, i));
    lemma_first_key_unique(es2, key, i);
    assert(has_key(es2, key));
    assert(es2.update(i, (key, b)) =~= es.update(i, (key, b)));
}

/// After setting a field, reading it gives the value set.
pub proof fn lemma_field_after_set(v: JsonV, key: Seq<char>, a: JsonV)
    requires
        v is Object,
    ensures
        v.with_field(key, a).field(key) == Some(a),
{
    let es = v->Object_0;
    if has_key(es, key) {
        lemma_key_index(es, key);
        let i = key_index(es, key);
        let es2 = es.update(i, (key, a));
        assert(first_key_at(es2, key, i));
        lemma_first_key_unique(es2, key, i);
        assert(has_key(es2, key));
    } else {
        let es2 = es.push((key, a));
        let i = es.len() as int;
        assert(first_key_at(es2, key, i));
        lemma_first_key_unique(es2, key, i);
        assert(has_key(es2, key));
    }
}

/// Setting one field leaves every other field as it was.
pub proof fn lemma_field_other(v: JsonV, key: Seq<char>, a: JsonV, other: Seq<char>)
    requires
        v is Object,
        key != other,
    ensures
        v.with_field(key, a).field(other) == v.field(other),
{
    let es = v->Object_0;
    let es2 = if has_key(es, key) {
        lemma_key_index(es, key);
        es.update(key_index(es, key), (key, a))
    } else {
        es.push((key, a))
    };
    assert(v.with_field(key, a) == JsonV::Object(es2));
    if has_key(es, other) {
        lemma_key_index(es, other);
        let j = key_index(es, other);
        assert(first_key_at(es2, other, j));
        lemma_first_key_unique(es2, other, j);
        assert(has_key(es2, other));
    } else {
        assert(!has_key(es2, other)) by {
            if has_key(es2, other) {
                let j = choose|j: int| 0 <= j < es2.len() && es2[j].0 == other;
                if j < es.len() {
                    assert(es[j].0 == other);
                }
            }
        }
    }
}

} // verus!
