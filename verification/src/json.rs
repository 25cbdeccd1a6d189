//! A JSON document model held as plain values, with its mathematical view.
use vstd::prelude::*;
use crate::text::str_eq;

verus! {

/// A JSON value. Numbers are kept as their decimal text; object members keep
/// the order in which they were written.
#[derive(Debug)]
pub enum Json {
    Null,
    Bool(bool),
    Number(String),
    Str(String),
    Array(Vec<Json>),
    Object(Vec<(String, Json)>),
}

/// The mathematical form of a JSON value.
pub enum JsonV {
    Null,
    Bool(bool),
    Number(Seq<char>),
    Str(Seq<char>),
    Array(Seq<JsonV>),
    Object(Seq<(Seq<char>, JsonV)>),
}

pub open spec fn json_view(j: Json) -> JsonV
    decreases j, 0nat,
{
    match j {
        Json::Null => JsonV::Null,
        Json::Bool(b) => JsonV::Bool(b),
        Json::Number(n) => JsonV::Number(n@),
        Json::Str(s) => JsonV::Str(s@),
        Json::Array(v) => {
            proof {
                assert(decreases_to!(v => v@)) by {
                    broadcast use vstd::std_specs::vec::axiom_vec_decreases_to_view;
                }
            }
            JsonV::Array(json_seq_view(v@))
        },
        Json::Object(v) => {
            proof {
                assert(decreases_to!(v => v@)) by {
                    broadcast use vstd::std_specs::vec::axiom_vec_decreases_to_view;
                }
            }
            JsonV::Object(json_entries_view(v@))
        },
    }
}

pub open spec fn json_seq_view(s: Seq<Json>) -> Seq<JsonV>
    decreases s, s.len(),
{
    if s.len() == 0 {
        Seq::empty()
    } else {
        proof {
            assert(decreases_to!(s => s[s.len() - 1]));
            assert(decreases_to!(s => s.subrange(0, s.len() - 1)));
        }
        json_seq_view(s.subrange(0, s.len() - 1)).push(json_view(s[s.len() - 1]))
    }
}

pub open spec fn json_entries_view(s: Seq<(String, Json)>) -> Seq<(Seq<char>, JsonV)>
    decreases s, s.len(),
{
    if s.len() == 0 {
        Seq::empty()
    } else {
        proof {
            assert(decreases_to!(s => s[s.len() - 1]));
            assert(decreases_to!(s => s.subrange(0, s.len() - 1)));
        }
        json_entries_view(s.subrange(0, s.len() - 1)).push(
            (s[s.len() - 1].0@, json_view(s[s.len() - 1].1)),
        )
    }
}

impl View for Json {
    type V = JsonV;

    open spec fn view(&self) -> JsonV {
        json_view(*self)
    }
}


pub proof fn lemma_seq_view(s: Seq<Json>)
    ensures
        json_seq_view(s).len() == s.len(),
        forall|i: int| 0 <= i < s.len() ==> #[trigger] json_seq_view(s)[i] == json_view(s[i]),
    decreases s.len(),
{
    if s.len() > 0 {
        lemma_seq_view(s.subrange(0, s.len() - 1));
    }
}

pub proof fn lemma_entries_view(s: Seq<(String, Json)>)
    ensures
        json_entries_view(s).len() == s.len(),
        forall|i: int|
            0 <= i < s.len() ==> #[trigger] json_entries_view(s)[i] == (s[i].0@, json_view(s[i].1)),
    decreases s.len(),
{
    if s.len() > 0 {
        lemma_entries_view(s.subrange(0, s.len() - 1));
    }
}

pub proof fn lemma_entries_view_push(s: Seq<(String, Json)>, x: (String, Json))
    ensures
        json_entries_view(s.push(x)) == json_entries_view(s).push((x.0@, json_view(x.1))),
{
    assert(s.push(x).subrange(0, s.len() as int) =~= s);
}

pub proof fn lemma_seq_view_push(s: Seq<Json>, x: Json)
    ensures
        json_seq_view(s.push(x)) == json_seq_view(s).push(json_view(x)),
{
    assert(s.push(x).subrange(0, s.len() as int) =~= s);
}

/// The member of an object's entries stored under `key` (the first one).
pub open spec fn entries_get(es: Seq<(Seq<char>, JsonV)>, key: Seq<char>) -> Option<JsonV>
    decreases es.len(),
{
    if es.len() == 0 {
        None
    } else if es[0].0 == key {
        Some(es[0].1)
    } else {
        entries_get(es.drop_first(), key)
    }
}

/// `value.get(key)`: the member `key` of an object, `None` for anything else.
pub open spec fn json_get(v: JsonV, key: Seq<char>) -> Option<JsonV> {
    match v {
        JsonV::Object(es) => entries_get(es, key),
        _ => None,
    }
}

/// `value[key]`: the member `key` of an object, `null` when there is none.
pub open spec fn json_index(v: JsonV, key: Seq<char>) -> JsonV {
    match json_get(v, key) {
        Some(x) => x,
        None => JsonV::Null,
    }
}

/// `value[i]`: the element `i` of an array, `null` when there is none.
pub open spec fn json_at(v: JsonV, i: int) -> JsonV {
    match v {
        JsonV::Array(a) => if 0 <= i < a.len() { a[i] } else { JsonV::Null },
        _ => JsonV::Null,
    }
}

/// The text of a JSON string.
pub open spec fn json_as_str(v: JsonV) -> Option<Seq<char>> {
    match v {
        JsonV::Str(s) => Some(s),
        _ => None,
    }
}

/// `value.get(key).and_then(as_str) == Some(text)`.
pub open spec fn has_str_member(v: JsonV, key: Seq<char>, text: Seq<char>) -> bool {
    json_get(v, key) == Some(JsonV::Str(text))
}

proof fn lemma_entries_get_skip(es: Seq<(Seq<char>, JsonV)>, key: Seq<char>, i: int)
    requires
        0 <= i <= es.len(),
        forall|j: int| 0 <= j < i ==> es[j].0 != key,
    ensures
        entries_get(es, key) == entries_get(es.skip(i), key),
    decreases i,
{
    if i > 0 {
        assert(es[0].0 != key);
        lemma_entries_get_skip(es.drop_first(), key, i - 1);
        assert(es.drop_first().skip(i - 1) =~= es.skip(i));
    } else {
        assert(es.skip(0) =~= es);
    }
}

/// `value.as_u64()`: the value of an integer number that fits in 64 bits.
pub open spec fn json_as_u64(v: JsonV) -> Option<nat> {
    match v {
        JsonV::Number(t) => crate::text::spec_parse_digits(t, u64::MAX as nat),
        _ => None,
    }
}

/// `value.as_array()` is `Some`.
pub open spec fn json_is_array(v: JsonV) -> bool {
    v is Array
}

impl Json {
    /// A copy of this value.
    #[verifier::loop_isolation(false)]
    pub fn deep_clone(&self) -> (r: Json)
        ensures
            r@ == self@,
        decreases self,
    {
        match self {
            Json::Null => Json::Null,
            Json::Bool(b) => Json::Bool(*b),
            Json::Number(n) => Json::Number(n.clone()),
            Json::Str(s) => Json::Str(s.clone()),
            Json::Array(v) => {
                let mut out: Vec<Json> = Vec::new();
                let mut i: usize = 0;
                while i < v.len()
                    invariant
                        i <= v.len(),
                        out@.len() == i,
                        forall|k: int| 0 <= k < i ==> #[trigger] out@[k]@ == v@[k]@,
                    decreases v.len() - i,
                {
                    proof {
                        assert(*self == Json::Array(*v));
                        assert(decreases_to!(*self => *v));
                        assert(decreases_to!(*v => v[i as int]));
                        assert(decreases_to!(*self => v[i as int]));
                    }
                    let c = v[i].deep_clone();
                    out.push(c);
                    i = i + 1;
                }
                proof {
                    lemma_seq_view(out@);
                    lemma_seq_view(v@);
                    assert forall|k: int| 0 <= k < v@.len() implies json_seq_view(out@)[k] == json_seq_view(v@)[k] by {
                        assert(out@[k]@ == v@[k]@);
                    }
                    assert(json_seq_view(out@) =~= json_seq_view(v@));
                }
                Json::Array(out)
            },
            Json::Object(v) => {
                let mut out: Vec<(String, Json)> = Vec::new();
                let mut i: usize = 0;
                while i < v.len()
                    invariant
                        i <= v.len(),
                        out@.len() == i,
                        forall|k: int|
                            0 <= k < i ==> (#[trigger] out@[k]).0@ == v@[k].0@ && out@[k].1@
                                == v@[k].1@,
                    decreases v.len() - i,
                {
                    proof {
                        assert(*self == Json::Object(*v));
                        assert(decreases_to!(*self => *v));
                        assert(decreases_to!(*v => v[i as int]));
                        assert(decreases_to!(v[i as int] => v[i as int].1));
                        assert(decreases_to!(*self => v[i as int].1));
                    }
                    let c = v[i].1.deep_clone();
                    let k = v[i].0.clone();
                    out.push((k, c));
                    i = i + 1;
                }
                proof {
                    lemma_entries_view(out@);
                    lemma_entries_view(v@);
                    assert forall|k: int| 0 <= k < v@.len() implies json_entries_view(out@)[k] == json_entries_view(v@)[k] by {
                        assert(out@[k].0@ == v@[k].0@ && out@[k].1@ == v@[k].1@);
                    }
                    assert(json_entries_view(out@) =~= json_entries_view(v@));
                }
                Json::Object(out)
            },
        }
    }

    /// `value.get(key)`.
    pub fn get(&self, key: &str) -> (r: Option<&Json>)
        ensures
            match r {
                Some(x) => json_get(self@, key@) == Some(x@),
                None => json_get(self@, key@) is None,
            },
    {
        match self {
            Json::Object(es) => {
                let mut i: usize = 0;
                proof {
                    lemma_entries_view(es@);
                }
                let ghost ev = json_entries_view(es@);
                assert(*self == Json::Object(*es));
                assert(self@ == JsonV::Object(ev));
                while i < es.len()
                    invariant
                        i <= es.len(),
                        ev == json_entries_view(es@),
                        self@ == JsonV::Object(ev),
                        ev.len() == es@.len(),
                        forall|k: int| 0 <= k < es@.len() ==> #[trigger] ev[k] == (es@[k].0@, json_view(es@[k].1)),
                        forall|j: int| 0 <= j < i ==> ev[j].0 != key@,
                    decreases es.len() - i,
                {
                    if str_eq(es[i].0.as_str(), key) {
                        proof {
                            lemma_entries_get_skip(ev, key@, i as int);
                            assert(ev[i as int] == (es@[i as int].0@, json_view(es@[i as int].1)));
                            assert(ev.skip(i as int)[0] == ev[i as int]);
                            assert(json_get(self@, key@) == entries_get(ev, key@));
                        }
                        return Some(&es[i].1);
                    }
                    i = i + 1;
                }
                proof {
                    lemma_entries_get_skip(ev, key@, i as int);
                }
                None
            },
            _ => None,
        }
    }

    /// `value.as_str()`.
    pub fn as_str(&self) -> (r: Option<&str>)
        ensures
            match r {
                Some(t) => json_as_str(self@) == Some(t@),
                None => json_as_str(self@) is None,
            },
    {
        match self {
            Json::Str(s) => Some(s.as_str()),
            _ => None,
        }
    }

    /// Whether `value.get(key).and_then(as_str) == Some(text)`.
    pub fn has_str_member(&self, key: &str, text: &str) -> (b: bool)
        ensures
            b == has_str_member(self@, key@, text@),
    {
        match self.get(key) {
            Some(v) => match v.as_str() {
                Some(t) => str_eq(t, text),
                None => false,
            },
            None => false,
        }
    }

    /// `value[key]`; `None` stands for `null`.
    pub fn index(&self, key: &str) -> (r: Option<&Json>)
        ensures
            match r {
                Some(x) => x@ == json_index(self@, key@),
                None => json_index(self@, key@) == JsonV::Null,
            },
    {
        self.get(key)
    }

    /// `value[i]`; `None` stands for `null`.
    pub fn at(&self, i: usize) -> (r: Option<&Json>)
        ensures
            match r {
                Some(x) => x@ == json_at(self@, i as int),
                None => json_at(self@, i as int) == JsonV::Null,
            },
    {
        match self {
            Json::Array(v) => {
                proof {
                    lemma_seq_view(v@);
                }
                if i < v.len() {
                    Some(&v[i])
                } else {
                    None
                }
            },
            _ => None,
        }
    }

    /// `value.as_u64()`.
    pub fn as_u64(&self) -> (r: Option<u64>)
        ensures
            match r {
                Some(n) => json_as_u64(self@) == Some(n as nat),
                None => json_as_u64(self@) is None,
            },
    {
        match self {
            Json::Number(t) => crate::text::parse_digits(t.as_str(), u64::MAX),
            _ => None,
        }
    }

    /// A JSON string holding a copy of `s`.
    pub fn string(s: &str) -> (r: Json)
        ensures
            r@ == JsonV::Str(s@),
    {
        Json::Str(crate::text::owned(s))
    }
}

/// Appends the member `key: value` to object entries.
pub fn push_entry(entries: &mut Vec<(String, Json)>, key: &str, value: Json)
    ensures
        json_entries_view(final(entries)@) == json_entries_view(old(entries)@).push((key@, value@)),
{
    let ghost before = entries@;
    let item = (crate::text::owned(key), value);
    entries.push(item);
    proof {
        lemma_entries_view_push(before, item);
    }
}

pub fn push_elem(elems: &mut Vec<Json>, value: Json)
    ensures
        json_seq_view(final(elems)@) == json_seq_view(old(elems)@).push(value@),
{
    let ghost before = elems@;
    elems.push(value);
    proof {
        lemma_seq_view_push(before, value);
    }
}

pub proof fn lemma_entries_empty()
    ensures
        json_entries_view(Seq::<(String, Json)>::empty()) == Seq::<(Seq<char>, JsonV)>::empty(),
        json_seq_view(Seq::<Json>::empty()) == Seq::<JsonV>::empty(),
{
}


/// The entries with `key` set to `v`: the first entry under `key` gets the new
/// value in place; without one, the member is appended.
pub open spec fn entries_set(es: Seq<(Seq<char>, JsonV)>, key: Seq<char>, v: JsonV) -> Seq<(Seq<char>, JsonV)>
    decreases es.len(),
{
    if es.len() == 0 {
        seq![(key, v)]
    } else if es[0].0 == key {
        es.update(0, (key, v))
    } else {
        seq![es[0]] + entries_set(es.drop_first(), key, v)
    }
}

proof fn lemma_entries_set_at(es: Seq<(Seq<char>, JsonV)>, key: Seq<char>, v: JsonV, p: int)
    requires
        0 <= p < es.len(),
        es[p].0 == key,
        forall|j: int| 0 <= j < p ==> es[j].0 != key,
    ensures
        entries_set(es, key, v) == es.update(p, (key, v)),
    decreases p,
{
    if p > 0 {
        lemma_entries_set_at(es.drop_first(), key, v, p - 1);
        assert(seq![es[0]] + es.drop_first().update(p - 1, (key, v)) =~= es.update(p, (key, v)));
    }
}

proof fn lemma_entries_set_absent(es: Seq<(Seq<char>, JsonV)>, key: Seq<char>, v: JsonV)
    requires
        forall|j: int| 0 <= j < es.len() ==> es[j].0 != key,
    ensures
        entries_set(es, key, v) == es.push((key, v)),
    decreases es.len(),
{
    if es.len() > 0 {
        lemma_entries_set_absent(es.drop_first(), key, v);
        assert(seq![es[0]] + es.drop_first().push((key, v)) =~= es.push((key, v)));
    }
}

/// Sets the member `key` of object entries to `value` (in place when present,
/// appended otherwise), as inserting into a JSON object map does.
pub fn set_entry(entries: &mut Vec<(String, Json)>, key: &str, value: Json)
    ensures
        json_entries_view(final(entries)@) == entries_set(json_entries_view(old(entries)@), key@, value@),
{
    proof {
        lemma_entries_view(entries@);
    }
    let ghost ev = json_entries_view(entries@);
    let mut i: usize = 0;
    while i < entries.len()
        invariant
            i <= entries.len(),
            entries@ == old(entries)@,
            ev == json_entries_view(entries@),
            ev.len() == entries@.len(),
            forall|k: int| 0 <= k < entries@.len() ==> #[trigger] ev[k] == (entries@[k].0@, json_view(entries@[k].1)),
            forall|j: int| 0 <= j < i ==> ev[j].0 != key@,
        decreases entries.len() - i,
    {
        if crate::text::str_eq(entries[i].0.as_str(), key) {
            proof {
                lemma_entries_set_at(ev, key@, value@, i as int);
            }
            let ghost before = entries@;
            let item = (crate::text::owned(key), value);
            entries.set(i, item);
            proof {
                lemma_entries_view(entries@);
                assert(json_entries_view(entries@) =~= ev.update(i as int, (key@, value@))) by {
                    assert forall|k: int| 0 <= k < entries@.len() implies
                        #[trigger] json_entries_view(entries@)[k] == ev.update(i as int, (key@, value@))[k] by {
                        if k != i {
                            assert(entries@[k] == before[k]);
                        }
                    }
                }
            }
            return;
        }
        i = i + 1;
    }
    proof {
        lemma_entries_set_absent(ev, key@, value@);
    }
    push_entry(entries, key, value);
}


/// Reading a member back after setting it gives the value set; other members
/// read as before.
pub proof fn lemma_entries_set_get(es: Seq<(Seq<char>, JsonV)>, key: Seq<char>, v: JsonV, other: Seq<char>)
    ensures
        entries_get(entries_set(es, key, v), key) == Some(v),
        other != key ==> entries_get(entries_set(es, key, v), other) == entries_get(es, other),
    decreases es.len(),
{
    if es.len() > 0 {
        if es[0].0 == key {
            let t = es.update(0, (key, v));
            assert(t[0] == (key, v));
            assert(t.drop_first() =~= es.drop_first());
            assert(entries_set(es, key, v) == t);
            if other != key {
                assert(entries_get(t, other) == entries_get(t.drop_first(), other));
                assert(entries_get(es, other) == entries_get(es.drop_first(), other));
            }
        } else {
            lemma_entries_set_get(es.drop_first(), key, v, other);
            let t = seq![es[0]] + entries_set(es.drop_first(), key, v);
            assert(t[0] == es[0]);
            assert(t.drop_first() =~= entries_set(es.drop_first(), key, v));
            assert(entries_set(es, key, v) == t);
        }
    } else {
        let t = seq![(key, v)];
        assert(t[0] == (key, v));
        assert(t.drop_first() =~= Seq::<(Seq<char>, JsonV)>::empty());
        assert(entries_set(es, key, v) == t);
        assert(entries_get(t.drop_first(), other) is None);
    }
}

} // verus!
