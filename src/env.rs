//! Environment mappings: merging them, and the keys that commands expose.
use vstd::prelude::*;

use crate::json::{entries_map, keys_unique, lemma_absent, set_entry, strings_only, Json};
use crate::text::{env_text, to_env_text};

verus! {

/// `base` with every scalar value of `overlay` set over it, in order;
/// arrays and objects in `overlay` are passed over.
pub open spec fn merged(base: Map<Seq<char>, Json>, overlay: Seq<(String, Json)>) -> Map<Seq<char>, Json>
    decreases overlay.len(),
{
    if overlay.len() == 0 {
        base
    } else {
        let m = merged(base, overlay.drop_last());
        if overlay.last().1.is_scalar() {
            m.insert(overlay.last().0@, overlay.last().1)
        } else {
            m
        }
    }
}

/// Whether `overlay` sets `k` when merged: it holds a scalar under `k`.
pub open spec fn overlay_sets(overlay: Seq<(String, Json)>, k: Seq<char>) -> bool {
    entries_map(overlay).contains_key(k) && entries_map(overlay)[k].is_scalar()
}

/// Merging with an overlay whose keys are distinct keeps every key of the
/// base and adds every scalar key of the overlay; a scalar of the overlay
/// stands over the base, and a key holding an array or an object in the
/// overlay keeps what the base has.
pub proof fn lemma_merged(base: Map<Seq<char>, Json>, overlay: Seq<(String, Json)>)
    requires
        keys_unique(overlay),
    ensures
        forall|k: Seq<char>|
            #[trigger] merged(base, overlay).contains_key(k) == (base.contains_key(k)
                || overlay_sets(overlay, k)),
        forall|k: Seq<char>|
            #[trigger] merged(base, overlay).contains_key(k) ==> merged(base, overlay)[k] == if overlay_sets(overlay, k) {
                entries_map(overlay)[k]
            } else {
                base[k]
            },
    decreases overlay.len(),
{
    if overlay.len() > 0 {
        let prev = overlay.drop_last();
        assert(keys_unique(prev));
        lemma_merged(base, prev);
        let n = overlay.len() - 1;
        let kl = overlay.last().0@;
        assert forall|j: int| 0 <= j < prev.len() implies prev[j].0@ != kl by {
            assert(overlay[j] == prev[j]);
        }
        lemma_absent(prev, kl);
        assert(entries_map(overlay) == entries_map(prev).insert(kl, overlay.last().1));
        assert forall|k: Seq<char>|
            #[trigger] merged(base, overlay).contains_key(k) == (base.contains_key(k)
                || overlay_sets(overlay, k)) by {
            assert(merged(base, prev).contains_key(k) == (base.contains_key(k) || overlay_sets(prev, k)));
            assert(!overlay_sets(prev, kl));
            if k != kl {
                assert(overlay_sets(overlay, k) == overlay_sets(prev, k));
            }
        }
        assert forall|k: Seq<char>|
            #[trigger] merged(base, overlay).contains_key(k) implies merged(base, overlay)[k]
                == if overlay_sets(overlay, k) {
                entries_map(overlay)[k]
            } else {
                base[k]
            } by {
            assert(merged(base, prev).contains_key(k) == (base.contains_key(k) || overlay_sets(prev, k)));
            assert(!overlay_sets(prev, kl));
            if k != kl {
                assert(overlay_sets(overlay, k) == overlay_sets(prev, k));
                assert(merged(base, prev).contains_key(k));
            } else if !overlay.last().1.is_scalar() {
                assert(merged(base, prev).contains_key(k));
            }
        }
    }
}

/// Merges `r` into `l`: when both are objects, every key of `r` whose value
/// is null, a boolean, a number or a string is set in `l`, and keys holding
/// arrays or objects are skipped. Otherwise `l` comes back unchanged.
pub fn merge_envs(l: Json, r: &Json) -> (res: Json)
    requires
        *r matches Json::Object(re) ==> keys_unique(re@),
    ensures
        match (l, *r) {
            (Json::Object(le), Json::Object(re)) => res is Object
                && entries_map(res->Object_0@) == merged(entries_map(le@), re@),
            _ => res == l,
        },
{
    match l {
        Json::Object(mut entries) => {
            if let Json::Object(kvs) = r {
                let ghost base = entries@;
                let mut i: usize = 0;
                while i < kvs.len()
                    invariant
                        i <= kvs.len(),
                        entries_map(entries@) == merged(entries_map(base), kvs@.subrange(0, i as int)),
                    decreases kvs.len() - i,
                {
                    assert(kvs@.subrange(0, i + 1).drop_last() =~= kvs@.subrange(0, i as int));
                    let (k, v) = &kvs[i];
                    if v.is_scalar_value() {
                        set_entry(&mut entries, k.clone(), v.copy_scalar());
                    }
                    i = i + 1;
                }
                assert(kvs@.subrange(0, kvs.len() as int) =~= kvs@);
                Json::Object(entries)
            } else {
                Json::Object(entries)
            }
        },
        other => other,
    }
}

/// What str::to_uppercase gives for a string.
pub uninterp spec fn upper_of(s: Seq<char>) -> Seq<char>;

/// Relies on str::to_uppercase.
#[verifier::external_body]
fn uppercase(s: &str) -> (r: String)
    ensures
        r@ == upper_of(s@),
{
    s.to_uppercase()
}

/// The key under which a command exposes the whole matched text.
pub open spec fn match_key() -> Seq<char> {
    "WXWORK_ROBOT_CMD"@
}

/// The key under which a command exposes the value called `name`.
pub open spec fn env_key(name: Seq<char>) -> Seq<char> {
    upper_of("WXWORK_ROBOT_CMD_"@ + name)
}

/// Writes the key under which a command exposes the value called `name`.
pub fn env_key_of(name: &str) -> (r: String)
    ensures
        r@ == env_key(name@),
{
    let mut key = String::from_str("WXWORK_ROBOT_CMD_");
    key.append(name);
    uppercase(key.as_str())
}

/// The text that a string value holds.
pub open spec fn str_value(v: Json) -> Seq<char> {
    match v {
        Json::Str(s) => s@,
        _ => Seq::empty(),
    }
}

/// The mapping that an object of strings stands for; none for any other
/// value.
pub open spec fn string_env(j: Json) -> Option<Map<Seq<char>, Seq<char>>> {
    match j {
        Json::Object(entries) => if strings_only(entries@) {
            Some(entries_map(entries@).map_values(|v: Json| str_value(v)))
        } else {
            None
        },
        _ => None,
    }
}

/// The environment that `env` entries declare: each key is prefixed and
/// upper-cased, and each value turned into text.
pub open spec fn static_env(entries: Seq<(String, Json)>) -> Map<Seq<char>, Seq<char>>
    decreases entries.len(),
{
    if entries.len() == 0 {
        Map::empty()
    } else {
        static_env(entries.drop_last()).insert(env_key(entries.last().0@), env_text(entries.last().1))
    }
}

/// Sets `key` to the string `value` in an object of strings.
pub fn set_string(entries: &mut Vec<(String, Json)>, key: String, value: String)
    requires
        strings_only(old(entries)@),
    ensures
        strings_only(final(entries)@),
        entries_map(final(entries)@).map_values(|v: Json| str_value(v)) == entries_map(
            old(entries)@,
        ).map_values(|v: Json| str_value(v)).insert(key@, value@),
{
    let ghost k = key@;
    let ghost t = value@;
    set_entry(entries, key, Json::Str(value));
    assert(strings_only(entries@));
    assert(entries_map(entries@).map_values(|v: Json| str_value(v)) =~= entries_map(
        old(entries)@,
    ).map_values(|v: Json| str_value(v)).insert(k, t));
}

/// Builds the object of strings that `env` entries declare.
pub fn build_static_env(entries: &Vec<(String, Json)>) -> (r: Json)
    ensures
        string_env(r) == Some(static_env(entries@)),
{
    let mut out: Vec<(String, Json)> = Vec::new();
    let mut i: usize = 0;
    assert(entries_map(out@).map_values(|v: Json| str_value(v)) =~= Map::empty());
    while i < entries.len()
        invariant
            i <= entries.len(),
            strings_only(out@),
            entries_map(out@).map_values(|v: Json| str_value(v)) == static_env(
                entries@.subrange(0, i as int),
            ),
        decreases entries.len() - i,
    {
        assert(entries@.subrange(0, i + 1).drop_last() =~= entries@.subrange(0, i as int));
        let key = env_key_of(entries[i].0.as_str());
        let value = to_env_text(&entries[i].1);
        set_string(&mut out, key, value);
        i = i + 1;
    }
    assert(entries@.subrange(0, entries.len() as int) =~= entries@);
    Json::Object(out)
}

/// Copies an object of strings.
pub fn copy_strings(entries: &Vec<(String, Json)>) -> (r: Vec<(String, Json)>)
    requires
        strings_only(entries@),
    ensures
        r@ == entries@,
{
    let mut out: Vec<(String, Json)> = Vec::new();
    let mut i: usize = 0;
    while i < entries.len()
        invariant
            i <= entries.len(),
            strings_only(entries@),
            out@ == entries@.subrange(0, i as int),
        decreases entries.len() - i,
    {
        assert(entries@[i as int].1 is Str);
        out.push((entries[i].0.clone(), entries[i].1.copy_scalar()));
        i = i + 1;
        assert(out@ =~= entries@.subrange(0, i as int));
    }
    assert(out@ =~= entries@);
    out
}

} // verus!
