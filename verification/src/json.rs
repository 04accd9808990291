//! JSON documents as the library reads and builds them: request bodies it
//! sends to scheduling providers and the responses it interprets. Parsing and
//! printing JSON text is left to the caller; this module holds the tree.
use vstd::prelude::*;
use crate::text::{str_eq, to_owned_string};

verus! {

broadcast use vstd::string::group_string_axioms;

/// A JSON number: a non-negative integer that fits in 64 bits, a negative
/// integer that fits in 64 bits, or any other number, kept as its text.
#[derive(Clone, Debug)]
pub enum JsonNumber {
    Unsigned(u64),
    Negative(i64),
    Other(String),
}

/// A JSON value. Object members keep their document order; keys are unique.
#[derive(Debug)]
pub enum JsonValue {
    Null,
    Bool(bool),
    Number(JsonNumber),
    Str(String),
    Array(Vec<JsonValue>),
    Object(Vec<(String, JsonValue)>),
}

/// The value stored under `key` among `entries`, if any.
pub open spec fn entry_value(entries: Seq<(String, JsonValue)>, key: Seq<char>) -> Option<JsonValue>
    decreases entries.len(),
{
    if entries.len() == 0 {
        None
    } else if entries[0].0@ == key {
        Some(entries[0].1)
    } else {
        entry_value(entries.drop_first(), key)
    }
}

/// `j[key]`: the member `key` of an object, `Null` when there is none or `j`
/// is not an object.
pub open spec fn field(j: JsonValue, key: Seq<char>) -> JsonValue {
    match j {
        JsonValue::Object(entries) => match entry_value(entries@, key) {
            Some(v) => v,
            None => JsonValue::Null,
        },
        _ => JsonValue::Null,
    }
}

/// `j[i]`: element `i` of an array, `Null` when out of range or `j` is not an
/// array.
pub open spec fn element(j: JsonValue, i: int) -> JsonValue {
    match j {
        JsonValue::Array(items) => if 0 <= i < items@.len() {
            items@[i]
        } else {
            JsonValue::Null
        },
        _ => JsonValue::Null,
    }
}

/// `j.as_str()`.
pub open spec fn str_of(j: JsonValue) -> Option<Seq<char>> {
    match j {
        JsonValue::Str(s) => Some(s@),
        _ => None,
    }
}

/// `j.as_u64()`.
pub open spec fn u64_of(j: JsonValue) -> Option<u64> {
    match j {
        JsonValue::Number(JsonNumber::Unsigned(n)) => Some(n),
        _ => None,
    }
}

/// `j.as_i64()`.
pub open spec fn i64_of(j: JsonValue) -> Option<i64> {
    match j {
        JsonValue::Number(JsonNumber::Unsigned(n)) => if n <= i64::MAX {
            Some(n as i64)
        } else {
            None
        },
        JsonValue::Number(JsonNumber::Negative(n)) => Some(n),
        _ => None,
    }
}

/// `j.as_array()`.
pub open spec fn array_of(j: JsonValue) -> Option<Seq<JsonValue>> {
    match j {
        JsonValue::Array(items) => Some(items@),
        _ => None,
    }
}

/// The member keys of an object, in order; empty for other values.
pub open spec fn keys_of(j: JsonValue) -> Seq<Seq<char>> {
    match j {
        JsonValue::Object(entries) => entries@.map_values(|e: (String, JsonValue)| e.0@),
        _ => Seq::empty(),
    }
}

/// `j[key].as_str()`.
pub open spec fn str_at(j: JsonValue, key: Seq<char>) -> Option<Seq<char>> {
    str_of(field(j, key))
}

/// `j[key].as_u64()`.
pub open spec fn u64_at(j: JsonValue, key: Seq<char>) -> Option<u64> {
    u64_of(field(j, key))
}

pub open spec fn opt_ref_value(r: Option<&JsonValue>) -> JsonValue {
    match r {
        Some(v) => *v,
        None => JsonValue::Null,
    }
}

pub open spec fn opt_str_view(o: Option<&str>) -> Option<Seq<char>> {
    match o {
        Some(s) => Some(s@),
        None => None,
    }
}

pub open spec fn opt_string_view(o: Option<String>) -> Option<Seq<char>> {
    match o {
        Some(s) => Some(s@),
        None => None,
    }
}

/// The results of `f` on `items`, in order, leaving out the items it maps to
/// `None`.
pub open spec fn filter_map_json<V>(items: Seq<JsonValue>, f: spec_fn(JsonValue) -> Option<V>) -> Seq<V>
    decreases items.len(),
{
    if items.len() == 0 {
        Seq::empty()
    } else {
        let rest = filter_map_json(items.drop_last(), f);
        match f(items.last()) {
            Some(v) => rest.push(v),
            None => rest,
        }
    }
}

/// Extending `items` by one item extends the filtered results by `f` of it.
pub proof fn lemma_filter_map_step<V>(items: Seq<JsonValue>, f: spec_fn(JsonValue) -> Option<V>, i: int)
    requires
        0 <= i < items.len(),
    ensures
        filter_map_json(items.take(i + 1), f) == (match f(items[i]) {
            Some(v) => filter_map_json(items.take(i), f).push(v),
            None => filter_map_json(items.take(i), f),
        }),
{
    assert(items.take(i + 1).drop_last() =~= items.take(i));
}

proof fn lemma_entry_value_skip(entries: Seq<(String, JsonValue)>, key: Seq<char>, i: int)
    requires
        0 <= i < entries.len(),
    ensures
        entry_value(entries.skip(i), key) == (if entries[i].0@ == key {
            Some(entries[i].1)
        } else {
            entry_value(entries.skip(i + 1), key)
        }),
{
    assert(entries.skip(i).drop_first() =~= entries.skip(i + 1));
}

impl JsonValue {
    /// The member `key` of an object; `None` where `self[key]` is `Null`
    /// because there is no such member or `self` is not an object.
    pub fn get(&self, key: &str) -> (r: Option<&JsonValue>)
        ensures
            opt_ref_value(r) == field(*self, key@),
    {
        match self {
            JsonValue::Object(entries) => {
                let mut i: usize = 0;
                proof {
                    assert(entries@.skip(0) =~= entries@);
                }
                while i < entries.len()
                    invariant
                        0 <= i <= entries@.len(),
                        *self == JsonValue::Object(*entries),
                        entry_value(entries@, key@) == entry_value(entries@.skip(i as int), key@),
                    decreases entries@.len() - i,
                {
                    proof {
                        lemma_entry_value_skip(entries@, key@, i as int);
                    }
                    if str_eq(entries[i].0.as_str(), key) {
                        proof {
                            assert(entry_value(entries@, key@) == Some(entries@[i as int].1));
                        }
                        return Some(&entries[i].1);
                    }
                    i += 1;
                }
                proof {
                    assert(entries@.skip(i as int).len() == 0);
                }
                None
            },
            _ => None,
        }
    }

    /// Element `i` of an array.
    pub fn at(&self, i: usize) -> (r: Option<&JsonValue>)
        ensures
            opt_ref_value(r) == element(*self, i as int),
    {
        match self {
            JsonValue::Array(items) => {
                if i < items.len() {
                    Some(&items[i])
                } else {
                    None
                }
            },
            _ => None,
        }
    }

    /// The text of a string value.
    pub fn as_str(&self) -> (r: Option<&str>)
        ensures
            opt_str_view(r) == str_of(*self),
    {
        match self {
            JsonValue::Str(s) => Some(s.as_str()),
            _ => None,
        }
    }

    /// A non-negative integer value.
    pub fn as_u64(&self) -> (r: Option<u64>)
        ensures
            r == u64_of(*self),
    {
        match self {
            JsonValue::Number(JsonNumber::Unsigned(n)) => Some(*n),
            _ => None,
        }
    }

    /// An integer value that fits in `i64`.
    pub fn as_i64(&self) -> (r: Option<i64>)
        ensures
            r == i64_of(*self),
    {
        match self {
            JsonValue::Number(JsonNumber::Unsigned(n)) => {
                if *n <= 9223372036854775807u64 {
                    Some(*n as i64)
                } else {
                    None
                }
            },
            JsonValue::Number(JsonNumber::Negative(n)) => Some(*n),
            _ => None,
        }
    }

    /// The elements of an array value.
    pub fn as_array(&self) -> (r: Option<&Vec<JsonValue>>)
        ensures
            match r {
                Some(v) => array_of(*self) == Some(v@),
                None => array_of(*self) is None,
            },
    {
        match self {
            JsonValue::Array(items) => Some(items),
            _ => None,
        }
    }

    /// Whether this is `null`.
    pub fn is_null(&self) -> (r: bool)
        ensures
            r == (*self is Null),
    {
        match self {
            JsonValue::Null => true,
            _ => false,
        }
    }

    /// `self[key].as_str()`.
    pub fn str_field(&self, key: &str) -> (r: Option<&str>)
        ensures
            opt_str_view(r) == str_at(*self, key@),
    {
        match self.get(key) {
            Some(v) => v.as_str(),
            None => None,
        }
    }

    /// `self[key].as_u64()`.
    pub fn u64_field(&self, key: &str) -> (r: Option<u64>)
        ensures
            r == u64_at(*self, key@),
    {
        match self.get(key) {
            Some(v) => v.as_u64(),
            None => None,
        }
    }

    /// `self[key].as_array()`.
    pub fn array_field(&self, key: &str) -> (r: Option<&Vec<JsonValue>>)
        ensures
            match r {
                Some(v) => array_of(field(*self, key@)) == Some(v@),
                None => array_of(field(*self, key@)) is None,
            },
    {
        match self.get(key) {
            Some(v) => v.as_array(),
            None => None,
        }
    }
}

/// The keys of `entries`, in order.
pub open spec fn entry_keys(entries: Seq<(String, JsonValue)>) -> Seq<Seq<char>> {
    entries.map_values(|e: (String, JsonValue)| e.0@)
}

proof fn lemma_entry_value_push(es: Seq<(String, JsonValue)>, e: (String, JsonValue), key: Seq<char>)
    ensures
        entry_value(es.push(e), key) == (if entry_value(es, key) is Some {
            entry_value(es, key)
        } else if e.0@ == key {
            Some(e.1)
        } else {
            None
        }),
    decreases es.len(),
{
    if es.len() > 0 {
        assert(es.push(e).drop_first() =~= es.drop_first().push(e));
        assert(es.push(e)[0] == es[0]);
        lemma_entry_value_push(es.drop_first(), e, key);
        assert(entry_value(es.push(e), key) == (if es[0].0@ == key {
            Some(es[0].1)
        } else {
            entry_value(es.drop_first().push(e), key)
        }));
        assert(entry_value(es, key) == (if es[0].0@ == key {
            Some(es[0].1)
        } else {
            entry_value(es.drop_first(), key)
        }));
    } else {
        assert(es.push(e).drop_first() =~= Seq::<(String, JsonValue)>::empty());
        assert(es.push(e)[0] == e);
        assert(entry_value(Seq::<(String, JsonValue)>::empty(), key) is None);
        assert(entry_value(es, key) is None);
    }
}

/// Appends member `key: v` to an object under construction. A key already
/// present keeps its earlier value.
pub fn push_entry(entries: &mut Vec<(String, JsonValue)>, key: &str, v: JsonValue)
    ensures
        entry_keys(final(entries)@) == entry_keys(old(entries)@).push(key@),
        forall|q: Seq<char>|
            #[trigger] entry_value(old(entries)@, q) is Some ==> entry_value(final(entries)@, q) == entry_value(
                old(entries)@,
                q,
            ),
        entry_value(old(entries)@, key@) is None ==> entry_value(final(entries)@, key@) == Some(v),
        forall|q: Seq<char>|
            #[trigger] entry_value(final(entries)@, q) == (if entry_value(old(entries)@, q) is Some {
                entry_value(old(entries)@, q)
            } else if key@ == q {
                Some(v)
            } else {
                None
            }),
{
    let ghost before = entries@;
    let ghost gv = v;
    entries.push((to_owned_string(key), v));
    proof {
        assert(entries@ == before.push(entries@.last()));
        assert(entry_keys(entries@) =~= entry_keys(before).push(key@));
        assert forall|q: Seq<char>|
            #[trigger] entry_value(entries@, q) == (if entry_value(before, q) is Some {
                entry_value(before, q)
            } else if key@ == q {
                Some(gv)
            } else {
                None
            }) by {
            lemma_entry_value_push(before, entries@.last(), q);
        }
    }
}

/// A string value holding a copy of `s`.
pub fn json_str(s: &str) -> (r: JsonValue)
    ensures
        str_of(r) == Some(s@),
{
    JsonValue::Str(to_owned_string(s))
}

/// `s` as a string value, or `null`.
pub fn json_opt_str(s: Option<&str>) -> (r: JsonValue)
    ensures
        match s {
            Some(t) => str_of(r) == Some(t@),
            None => r is Null,
        },
{
    match s {
        Some(t) => json_str(t),
        None => JsonValue::Null,
    }
}


/// Where `key` first occurs among `entries`.
pub open spec fn is_first_key(entries: Seq<(String, JsonValue)>, key: Seq<char>, i: int) -> bool {
    0 <= i < entries.len() && entries[i].0@ == key && forall|j: int|
        0 <= j < i ==> #[trigger] entries[j].0@ != key
}

proof fn lemma_entry_value_absent(es: Seq<(String, JsonValue)>, key: Seq<char>)
    requires
        forall|j: int| 0 <= j < es.len() ==> #[trigger] es[j].0@ != key,
    ensures
        entry_value(es, key) is None,
    decreases es.len(),
{
    if es.len() > 0 {
        assert(es[0].0@ != key);
        lemma_entry_value_absent(es.drop_first(), key);
    }
}

proof fn lemma_entry_value_first(es: Seq<(String, JsonValue)>, key: Seq<char>, i: int)
    requires
        is_first_key(es, key, i),
    ensures
        entry_value(es, key) == Some(es[i].1),
    decreases i,
{
    if i > 0 {
        assert(es[0].0@ != key);
        assert(is_first_key(es.drop_first(), key, i - 1)) by {
            assert forall|j: int| 0 <= j < i - 1 implies #[trigger] es.drop_first()[j].0@ != key by {
                assert(es[j + 1].0@ != key);
            }
        }
        lemma_entry_value_first(es.drop_first(), key, i - 1);
    }
}

proof fn lemma_entry_value_update(es: Seq<(String, JsonValue)>, i: int, e: (String, JsonValue), q: Seq<char>)
    requires
        is_first_key(es, e.0@, i),
    ensures
        entry_value(es.update(i, e), q) == (if q == e.0@ {
            Some(e.1)
        } else {
            entry_value(es, q)
        }),
    decreases i,
{
    let u = es.update(i, e);
    if i == 0 {
        assert(u.drop_first() =~= es.drop_first());
    } else {
        assert(u.drop_first() =~= es.drop_first().update(i - 1, e));
        assert(u[0] == es[0]);
        assert(es[0].0@ != e.0@);
        assert(is_first_key(es.drop_first(), e.0@, i - 1)) by {
            assert forall|j: int| 0 <= j < i - 1 implies #[trigger] es.drop_first()[j].0@ != e.0@ by {
                assert(es[j + 1].0@ != e.0@);
            }
        }
        lemma_entry_value_update(es.drop_first(), i - 1, e, q);
    }
}

/// Sets member `key` to `v`, as `object[key] = v` does: the value of an
/// existing member is replaced, otherwise the member is added.
pub fn set_entry(entries: &mut Vec<(String, JsonValue)>, key: &str, v: JsonValue)
    ensures
        forall|q: Seq<char>|
            #[trigger] entry_value(final(entries)@, q) == (if q == key@ {
                Some(v)
            } else {
                entry_value(old(entries)@, q)
            }),
{
    let ghost before = entries@;
    let mut i: usize = 0;
    while i < entries.len()
        invariant
            0 <= i <= entries@.len(),
            entries@ == before,
            before == old(entries)@,
            forall|j: int| 0 <= j < i ==> #[trigger] entries@[j].0@ != key@,
        decreases entries@.len() - i,
    {
        if str_eq(entries[i].0.as_str(), key) {
            let ghost gv = v;
            let entry = (to_owned_string(key), v);
            let ghost e = entry;
            entries.set(i, entry);
            proof {
                assert(entries@ == before.update(i as int, e));
                assert(is_first_key(before, e.0@, i as int));
                assert forall|q: Seq<char>|
                    #[trigger] entry_value(entries@, q) == (if q == key@ {
                        Some(gv)
                    } else {
                        entry_value(before, q)
                    }) by {
                    lemma_entry_value_update(before, i as int, e, q);
                }
            }
            return;
        }
        i += 1;
    }
    proof {
        lemma_entry_value_absent(before, key@);
    }
    push_entry(entries, key, v);
}

/// Takes out the value of member `key`, leaving `null` in its place; `None`
/// when there is no such member.
pub fn take_entry(entries: &mut Vec<(String, JsonValue)>, key: &str) -> (r: Option<JsonValue>)
    ensures
        r == entry_value(old(entries)@, key@),
        forall|q: Seq<char>|
            q != key@ ==> #[trigger] entry_value(final(entries)@, q) == entry_value(old(entries)@, q),
{
    let ghost before = entries@;
    let mut i: usize = 0;
    while i < entries.len()
        invariant
            0 <= i <= entries@.len(),
            entries@ == before,
            before == old(entries)@,
            forall|j: int| 0 <= j < i ==> #[trigger] entries@[j].0@ != key@,
        decreases entries@.len() - i,
    {
        if str_eq(entries[i].0.as_str(), key) {
            let (k, old_value) = entries.remove(i);
            let entry = (k, JsonValue::Null);
            let ghost e = entry;
            entries.insert(i, entry);
            proof {
                assert(entries@ =~= before.update(i as int, e));
                assert(is_first_key(before, key@, i as int));
                lemma_entry_value_first(before, key@, i as int);
                assert forall|q: Seq<char>| q != key@ implies #[trigger] entry_value(entries@, q) == entry_value(
                    before,
                    q,
                ) by {
                    lemma_entry_value_update(before, i as int, e, q);
                }
            }
            return Some(old_value);
        }
        i += 1;
    }
    proof {
        lemma_entry_value_absent(before, key@);
    }
    None
}

} // verus!
