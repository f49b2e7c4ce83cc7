//! A dynamic JSON value and the failure-tolerant readers over it.
use vstd::prelude::*;

verus! {

/// A JSON value. Numbers keep their literal text; an object keeps its
/// entries in order, a later entry for a key standing over an earlier one.
#[derive(Debug)]
pub enum Json {
    Null,
    Bool(bool),
    Number(String),
    Str(String),
    Array(Vec<Json>),
    Object(Vec<(String, Json)>),
}

impl Json {
    /// Whether this value is null, a boolean, a number or a string.
    pub open spec fn is_scalar(self) -> bool {
        !(self is Array || self is Object)
    }

    /// Whether this value is null, a boolean, a number or a string.
    pub fn is_scalar_value(&self) -> (r: bool)
        ensures
            r == self.is_scalar(),
    {
        match self {
            Json::Array(_) | Json::Object(_) => false,
            _ => true,
        }
    }

    /// Whether this value is an object.
    pub fn is_object(&self) -> (r: bool)
        ensures
            r == self is Object,
    {
        match self {
            Json::Object(_) => true,
            _ => false,
        }
    }

    /// A copy of a scalar value.
    pub fn copy_scalar(&self) -> (r: Json)
        requires
            self.is_scalar(),
        ensures
            r == *self,
    {
        match self {
            Json::Null => Json::Null,
            Json::Bool(b) => Json::Bool(*b),
            Json::Number(t) => Json::Number(t.clone()),
            Json::Str(s) => Json::Str(s.clone()),
            _ => Json::Null,
        }
    }
}

/// What a list of keyed entries maps each key to: a later entry for a key
/// stands over an earlier one.
pub open spec fn entries_map<V>(entries: Seq<(String, V)>) -> Map<Seq<char>, V>
    decreases entries.len(),
{
    if entries.len() == 0 {
        Map::empty()
    } else {
        entries_map(entries.drop_last()).insert(entries.last().0@, entries.last().1)
    }
}

/// The value that `entries` holds for `key`.
pub open spec fn lookup(entries: Seq<(String, Json)>, key: Seq<char>) -> Option<Json> {
    if entries_map(entries).contains_key(key) {
        Some(entries_map(entries)[key])
    } else {
        None
    }
}

/// `i` is the last entry with key `key`.
pub open spec fn last_with_key<V>(entries: Seq<(String, V)>, i: int, key: Seq<char>) -> bool {
    &&& 0 <= i < entries.len()
    &&& entries[i].0@ == key
    &&& forall|j: int| i < j < entries.len() ==> entries[j].0@ != key
}

pub proof fn lemma_absent<V>(entries: Seq<(String, V)>, key: Seq<char>)
    requires
        forall|j: int| 0 <= j < entries.len() ==> entries[j].0@ != key,
    ensures
        !entries_map(entries).contains_key(key),
    decreases entries.len(),
{
    if entries.len() > 0 {
        lemma_absent(entries.drop_last(), key);
    }
}

pub proof fn lemma_last_with_key<V>(entries: Seq<(String, V)>, i: int, key: Seq<char>)
    requires
        last_with_key(entries, i, key),
    ensures
        entries_map(entries).contains_key(key),
        entries_map(entries)[key] == entries[i].1,
    decreases entries.len(),
{
    if i < entries.len() - 1 {
        lemma_last_with_key(entries.drop_last(), i, key);
    }
}

/// Replacing the value of the last entry with a key sets that key.
pub proof fn lemma_replace_last<V>(entries: Seq<(String, V)>, i: int, v: V)
    requires
        last_with_key(entries, i, entries[i].0@),
    ensures
        entries_map(entries.update(i, (entries[i].0, v))) == entries_map(entries).insert(entries[i].0@, v),
    decreases entries.len(),
{
    let updated = entries.update(i, (entries[i].0, v));
    if i == entries.len() - 1 {
        assert(updated.drop_last() =~= entries.drop_last());
    } else {
        lemma_replace_last(entries.drop_last(), i, v);
        assert(updated.drop_last() =~= entries.drop_last().update(i, (entries[i].0, v)));
        assert(entries_map(updated) =~= entries_map(entries).insert(entries[i].0@, v));
    }
}

/// Every entry holds a string.
pub open spec fn strings_only(entries: Seq<(String, Json)>) -> bool {
    forall|i: int| 0 <= i < entries.len() ==> (#[trigger] entries[i]).1 is Str
}

/// The index of the last entry of `entries` with key `key`.
pub fn find_index<V>(entries: &Vec<(String, V)>, key: &str) -> (r: Option<usize>)
    ensures
        match r {
            Some(i) => last_with_key(entries@, i as int, key@),
            None => forall|j: int| 0 <= j < entries@.len() ==> entries@[j].0@ != key@,
        },
{
    let k = String::from_str(key);
    let mut i: usize = entries.len();
    while i > 0
        invariant
            i <= entries.len(),
            k@ == key@,
            forall|j: int| i <= j < entries@.len() ==> entries@[j].0@ != key@,
        decreases i,
    {
        if entries[i - 1].0 == k {
            return Some(i - 1);
        }
        i = i - 1;
    }
    None
}

/// Finds the value that `entries` holds for `key`.
pub fn find_entry<'a>(entries: &'a Vec<(String, Json)>, key: &str) -> (r: Option<&'a Json>)
    ensures
        match r {
            Some(v) => lookup(entries@, key@) == Some(*v),
            None => lookup(entries@, key@) is None,
        },
{
    match find_index(entries, key) {
        Some(i) => {
            proof {
                lemma_last_with_key(entries@, i as int, key@);
            }
            Some(&entries[i].1)
        },
        None => {
            proof {
                lemma_absent(entries@, key@);
            }
            None
        },
    }
}

/// No key occurs twice.
pub open spec fn keys_unique<V>(entries: Seq<(String, V)>) -> bool {
    forall|i: int, j: int| 0 <= i < j < entries.len() ==> entries[i].0@ != entries[j].0@
}

/// Sets `key` to `value` in a list of keyed entries: the entry that holds the
/// key takes the new value, or a new entry is added at the end.
pub fn set_entry<V>(entries: &mut Vec<(String, V)>, key: String, value: V)
    ensures
        entries_map(final(entries)@) == entries_map(old(entries)@).insert(key@, value),
        forall|i: int|
            0 <= i < final(entries)@.len() ==> (#[trigger] final(entries)@[i]).1 == value || (i
                < old(entries)@.len() && final(entries)@[i].1 == old(entries)@[i].1),
        keys_unique(old(entries)@) ==> keys_unique(final(entries)@),
{
    match find_index(entries, key.as_str()) {
        Some(i) => {
            proof {
                lemma_replace_last(entries@, i as int, value);
            }
            let k = entries[i].0.clone();
            entries.set(i, (k, value));
        },
        None => {
            entries.push((key, value));
            assert(entries@.drop_last() =~= old(entries)@);
        },
    }
}

/// The field `name` of `j`, when `j` is an object that has it.
pub open spec fn field(j: Json, name: Seq<char>) -> Option<Json> {
    match j {
        Json::Object(entries) => lookup(entries@, name),
        _ => None,
    }
}

pub open spec fn string_field(j: Json, name: Seq<char>) -> Option<Seq<char>> {
    match field(j, name) {
        Some(Json::Str(s)) => Some(s@),
        _ => None,
    }
}

pub open spec fn bool_field(j: Json, name: Seq<char>) -> Option<bool> {
    match field(j, name) {
        Some(Json::Bool(b)) => Some(b),
        _ => None,
    }
}

pub open spec fn array_field(j: Json, name: Seq<char>) -> Option<Seq<Json>> {
    match field(j, name) {
        Some(Json::Array(items)) => Some(items@),
        _ => None,
    }
}

pub open spec fn object_field(j: Json, name: Seq<char>) -> Option<Seq<(String, Json)>> {
    match field(j, name) {
        Some(Json::Object(entries)) => Some(entries@),
        _ => None,
    }
}

/// The field `name` of `json` as a string, when `json` is an object with a
/// string under that key.
pub fn read_string_from_json_object(json: &Json, name: &str) -> (r: Option<String>)
    ensures
        match r {
            Some(s) => string_field(*json, name@) == Some(s@),
            None => string_field(*json, name@) is None,
        },
{
    if let Json::Object(entries) = json {
        if let Some(Json::Str(s)) = find_entry(entries, name) {
            return Some(s.clone());
        }
    }
    None
}

/// The field `name` of `json` as an object's entries.
pub fn read_object_from_json_object<'a>(json: &'a Json, name: &str) -> (r: Option<&'a Vec<(String, Json)>>)
    ensures
        match r {
            Some(e) => object_field(*json, name@) == Some(e@),
            None => object_field(*json, name@) is None,
        },
{
    if let Json::Object(entries) = json {
        if let Some(Json::Object(e)) = find_entry(entries, name) {
            return Some(e);
        }
    }
    None
}

/// The field `name` of `json` as a boolean.
pub fn read_bool_from_json_object(json: &Json, name: &str) -> (r: Option<bool>)
    ensures
        r == bool_field(*json, name@),
{
    if let Json::Object(entries) = json {
        if let Some(Json::Bool(b)) = find_entry(entries, name) {
            return Some(*b);
        }
    }
    None
}

/// The field `name` of `json` as an array's items.
pub fn read_array_from_json_object<'a>(json: &'a Json, name: &str) -> (r: Option<&'a Vec<Json>>)
    ensures
        match r {
            Some(a) => array_field(*json, name@) == Some(a@),
            None => array_field(*json, name@) is None,
        },
{
    if let Json::Object(entries) = json {
        if let Some(Json::Array(a)) = find_entry(entries, name) {
            return Some(a);
        }
    }
    None
}

} // verus!
