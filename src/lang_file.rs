//! Upkeep of language tables: listing their keys, testing and setting
//! values at dotted keys, and marking the keys a translation lacks.
use vstd::prelude::*;
use vstd::string::StrSliceExecFns;
use vstd::string::StringExecFns;
use crate::lang::{
    child,
    first_named,
    get_child,
    key_views,
    lemma_first_named_stable,
    lemma_split_nonempty,
    split_dots,
    split_on,
    text_eq,
    LangEntry,
    LangValue,
};

verus! {

/// The dotted name of the key `key` inside the table named `prefix`.
pub open spec fn entry_path(prefix: Seq<char>, key: Seq<char>) -> Seq<char> {
    if prefix.len() == 0 {
        key
    } else {
        prefix + "."@ + key
    }
}

/// The dotted names of the leaves under the entries from `i` on, depth
/// first, in order.
pub open spec fn leaf_keys(entries: Seq<LangEntry>, prefix: Seq<char>, i: int) -> Seq<Seq<char>>
    decreases entries, entries.len() - i,
{
    if i < 0 || i >= entries.len() {
        Seq::empty()
    } else {
        let full = entry_path(prefix, entries[i].key@);
        let here = match entries[i].value {
            LangValue::Table(sub) => leaf_keys(sub@, full, 0),
            _ => seq![full],
        };
        here + leaf_keys(entries, prefix, i + 1)
    }
}

/// The dotted names of all leaves of `v` under `prefix`, depth first; a
/// value that is not a table has none.
pub open spec fn all_keys(v: LangValue, prefix: Seq<char>) -> Seq<Seq<char>> {
    match v {
        LangValue::Table(entries) => leaf_keys(entries@, prefix, 0),
        _ => Seq::empty(),
    }
}

pub open spec fn string_views(v: Seq<String>) -> Seq<Seq<char>> {
    v.map_values(|s: String| s@)
}

/// The dotted names of all leaves of `value` under `prefix`, depth first.
pub fn extract_all_keys(value: &LangValue, prefix: String) -> (r: Vec<String>)
    ensures
        string_views(r@) == all_keys(*value, prefix@),
    decreases value,
{
    let mut keys: Vec<String> = Vec::new();
    match value {
        LangValue::Table(entries) => {
            let mut i: usize = 0;
            assert(string_views(keys@) =~= Seq::<Seq<char>>::empty());
            while i < entries.len()
                invariant
                    *value == LangValue::Table(*entries),
                    0 <= i <= entries@.len(),
                    string_views(keys@) + leaf_keys(entries@, prefix@, i as int) == leaf_keys(
                        entries@,
                        prefix@,
                        0,
                    ),
                decreases entries.len() - i,
            {
                let key = &entries[i].key;
                let full_key = if prefix.as_str().unicode_len() == 0 {
                    key.clone()
                } else {
                    prefix.clone().concat(".").concat(key.as_str())
                };
                let ghost before = keys@;
                let ghost rest = leaf_keys(entries@, prefix@, i + 1);
                match &entries[i].value {
                    LangValue::Table(_) => {
                        proof {
                            assert(decreases_to!(*value => (*value)->Table_0));
                            assert(decreases_to!(*entries => entries[i as int]));
                            assert(decreases_to!(entries[i as int] => entries[i as int].value));
                        }
                        let mut sub = extract_all_keys(&entries[i].value, full_key);
                        keys.append(&mut sub);
                    },
                    _ => {
                        keys.push(full_key);
                    },
                }
                let ghost here = leaf_keys(entries@, prefix@, i as int).subrange(
                    0,
                    leaf_keys(entries@, prefix@, i as int).len() - rest.len(),
                );
                assert(string_views(keys@) =~= string_views(before) + here);
                assert(leaf_keys(entries@, prefix@, i as int) =~= here + rest);
                assert(string_views(keys@) + rest =~= string_views(before) + leaf_keys(
                    entries@,
                    prefix@,
                    i as int,
                ));
                i = i + 1;
            }
            assert(leaf_keys(entries@, prefix@, i as int) =~= Seq::<Seq<char>>::empty());
            assert(string_views(keys@) =~= string_views(keys@) + leaf_keys(
                entries@,
                prefix@,
                i as int,
            ));
        },
        _ => {
            assert(string_views(keys@) =~= Seq::<Seq<char>>::empty());
        },
    }
    keys
}

/// Whether following `keys` from `v` reaches a value.
pub open spec fn has_path(v: LangValue, keys: Seq<Seq<char>>) -> bool
    decreases keys.len(),
{
    if keys.len() == 0 {
        true
    } else {
        match child(v, keys[0]) {
            Some(c) => has_path(c, keys.drop_first()),
            None => false,
        }
    }
}

/// Whether the dotted `key` names a value of `value`.
pub fn key_exists(value: &LangValue, key: &str) -> (r: bool)
    ensures
        r == has_path(*value, split_on(key@, '.')),
{
    let parts = split_dots(key);
    let ghost kv = key_views(parts@);
    let mut current: &LangValue = value;
    let mut i: usize = 0;
    assert(kv.subrange(0, kv.len() as int) == kv);
    while i < parts.len()
        invariant
            kv == key_views(parts@),
            kv == split_on(key@, '.'),
            0 <= i <= parts@.len(),
            has_path(*value, kv) == has_path(*current, kv.subrange(i as int, kv.len() as int)),
        decreases parts.len() - i,
    {
        let ghost rest = kv.subrange(i as int, kv.len() as int);
        assert(rest.drop_first() == kv.subrange(i + 1, kv.len() as int));
        assert(rest[0] == parts@[i as int]@);
        match get_child(current, parts[i]) {
            Some(c) => {
                current = c;
            },
            None => {
                return false;
            },
        }
        i = i + 1;
    }
    true
}

/// `v` is a chain of one-entry tables named by `keys`, ending in `leaf`.
pub open spec fn chain(keys: Seq<Seq<char>>, leaf: LangValue, v: LangValue) -> bool
    decreases keys.len(),
{
    if keys.len() == 0 {
        v == leaf
    } else {
        match v {
            LangValue::Table(entries) => entries@.len() == 1 && entries@[0].key@ == keys[0]
                && chain(keys.drop_first(), leaf, entries@[0].value),
            _ => false,
        }
    }
}

/// `new` is `old` with `leaf` set at the path `keys`: each key names an
/// entry of the current table, made as an empty table where missing, and
/// the last is given `leaf`. Where the path runs into a value that is not a
/// table, nothing changes.
pub open spec fn set_at(old: LangValue, keys: Seq<Seq<char>>, leaf: LangValue, new: LangValue) -> bool
    decreases keys.len(),
{
    match old {
        LangValue::Table(oe) => {
            if keys.len() == 0 {
                new == old
            } else {
                match new {
                    LangValue::Table(ne) => match first_named(oe@, keys[0], oe@.len() as int) {
                        Some(i) => {
                            &&& ne@.len() == oe@.len()
                            &&& forall|j: int|
                                0 <= j < oe@.len() && j != i ==> #[trigger] ne@[j] == oe@[j]
                            &&& ne@[i].key == oe@[i].key
                            &&& if keys.len() == 1 {
                                ne@[i].value == leaf
                            } else {
                                set_at(oe@[i].value, keys.drop_first(), leaf, ne@[i].value)
                            }
                        },
                        None => {
                            &&& ne@.len() == oe@.len() + 1
                            &&& ne@.take(oe@.len() as int) == oe@
                            &&& ne@.last().key@ == keys[0]
                            &&& chain(keys.drop_first(), leaf, ne@.last().value)
                        },
                    },
                    _ => false,
                }
            }
        },
        _ => new == old,
    }
}

fn build_chain(parts: &Vec<&str>, from: usize, leaf: LangValue) -> (r: LangValue)
    requires
        from <= parts@.len(),
    ensures
        chain(key_views(parts@).subrange(from as int, parts@.len() as int), leaf, r),
    decreases parts.len() - from,
{
    let ghost rest = key_views(parts@).subrange(from as int, parts@.len() as int);
    if from == parts.len() {
        assert(rest.len() == 0);
        leaf
    } else {
        assert(rest.drop_first() == key_views(parts@).subrange(from + 1, parts@.len() as int));
        let inner = build_chain(parts, from + 1, leaf);
        let mut entries: Vec<LangEntry> = Vec::new();
        entries.push(LangEntry { key: parts[from].to_owned(), value: inner });
        LangValue::Table(entries)
    }
}

fn set_path(value: &mut LangValue, parts: &Vec<&str>, from: usize, leaf: LangValue)
    requires
        from < parts@.len(),
    ensures
        set_at(*old(value), key_views(parts@).subrange(from as int, parts@.len() as int), leaf, *final(value)),
    decreases parts.len() - from,
{
    let ghost keys = key_views(parts@).subrange(from as int, parts@.len() as int);
    assert(keys[0] == parts@[from as int]@);
    assert(keys.drop_first() == key_views(parts@).subrange(from + 1, parts@.len() as int));
    match value {
        LangValue::Table(entries) => {
            let ghost oe = entries@;
            let mut i: usize = 0;
            let mut found: Option<usize> = None;
            while i < entries.len()
                invariant_except_break
                    found is None,
                invariant
                    entries@ == oe,
                    from < parts@.len(),
                    keys[0] == parts@[from as int]@,
                    0 <= i <= oe.len(),
                    found is None ==> first_named(oe, keys[0], i as int) is None,
                ensures
                    found is None ==> first_named(oe, keys[0], oe.len() as int) is None,
                    found matches Some(j) ==> j < oe.len() && first_named(oe, keys[0], oe.len() as int) == Some(j as int),
                decreases entries.len() - i,
            {
                if text_eq(entries[i].key.as_str(), parts[from]) {
                    assert(first_named(oe, keys[0], i + 1) == Some(i as int));
                    proof {
                        lemma_first_named_stable(oe, keys[0], i + 1, oe.len() as int);
                    }
                    found = Some(i);
                    break;
                }
                i = i + 1;
            }
            match found {
                Some(i) => {
                    let mut entry = entries.remove(i);
                    if from + 1 == parts.len() {
                        entry.value = leaf;
                    } else {
                        set_path(&mut entry.value, parts, from + 1, leaf);
                    }
                    entries.insert(i, entry);
                    assert(entries@ =~= oe.update(i as int, entry));
                },
                None => {
                    let inner = build_chain(parts, from + 1, leaf);
                    entries.push(LangEntry { key: parts[from].to_owned(), value: inner });
                    assert(entries@.take(oe.len() as int) =~= oe);
                },
            }
        },
        _ => {},
    }
}

/// Sets `new_value` at the dotted `key`, making the missing tables on the
/// way; where the path runs into a value that is not a table, nothing
/// changes.
pub fn set_nested_key(value: &mut LangValue, key: &str, new_value: LangValue)
    ensures
        set_at(*old(value), split_on(key@, '.'), new_value, *final(value)),
{
    let parts = split_dots(key);
    proof {
        lemma_split_nonempty(key@, '.');
    }
    assert(key_views(parts@).subrange(0, parts@.len() as int) == key_views(parts@));
    set_path(value, &parts, 0, new_value);
}

/// The keys, in order, that name no value of `value`.
pub open spec fn lacking(value: LangValue, keys: Seq<Seq<char>>) -> Seq<Seq<char>> {
    keys.filter(|k: Seq<char>| !has_path(value, split_on(k, '.')))
}

/// The placeholder text set for a missing key.
pub open spec fn is_missing_marker(v: LangValue, key: Seq<char>) -> bool {
    v matches LangValue::Text(s) && s@ == "MISSING "@ + key
}

/// `new` is `old` with a marker set at each of `keys`, one after the other.
pub open spec fn marked_in_turn(old: LangValue, keys: Seq<Seq<char>>, new: LangValue) -> bool {
    exists|states: Seq<LangValue>, markers: Seq<LangValue>|
        #[trigger] marking_steps(old, keys, new, states, markers)
}

pub open spec fn marking_steps(
    old: LangValue,
    keys: Seq<Seq<char>>,
    new: LangValue,
    states: Seq<LangValue>,
    markers: Seq<LangValue>,
) -> bool {
    &&& states.len() == keys.len() + 1
    &&& markers.len() == keys.len()
    &&& states[0] == old
    &&& states.last() == new
    &&& forall|i: int|
        0 <= i < keys.len() ==> is_missing_marker(#[trigger] markers[i], keys[i]) && set_at(
            states[i],
            split_on(keys[i], '.'),
            markers[i],
            states[i + 1],
        )
}

/// Sets `MISSING <key>` at each of `reference_keys` that `value` lacks, and
/// returns those keys in order.
pub fn add_missing_keys(value: &mut LangValue, reference_keys: &Vec<String>) -> (added: Vec<
    String,
>)
    ensures
        string_views(added@) == lacking(*old(value), string_views(reference_keys@)),
        marked_in_turn(*old(value), string_views(added@), *final(value)),
{
    let ghost refs = string_views(reference_keys@);
    let mut missing: Vec<String> = Vec::new();
    let mut i: usize = 0;
    while i < reference_keys.len()
        invariant
            refs == string_views(reference_keys@),
            0 <= i <= refs.len(),
            string_views(missing@) == lacking(*value, refs.subrange(0, i as int)),
        decreases reference_keys.len() - i,
    {
        let ghost before = missing@;
        proof {
            reveal(Seq::filter);
        }
        assert(refs.subrange(0, i + 1).drop_last() == refs.subrange(0, i as int));
        assert(refs.subrange(0, i + 1).last() == refs[i as int]);
        if !key_exists(value, reference_keys[i].as_str()) {
            missing.push(reference_keys[i].clone());
            assert(string_views(missing@) =~= string_views(before).push(refs[i as int]));
        } else {
            assert(string_views(missing@) =~= string_views(before));
        }
        i = i + 1;
    }
    assert(refs.subrange(0, refs.len() as int) == refs);
    let ghost start = *value;
    let ghost keys = string_views(missing@);
    let ghost mut states: Seq<LangValue> = seq![*value];
    let ghost mut markers: Seq<LangValue> = Seq::empty();
    let mut j: usize = 0;
    while j < missing.len()
        invariant
            keys == string_views(missing@),
            0 <= j <= missing@.len(),
            states.len() == j + 1,
            markers.len() == j,
            states[0] == start,
            states.last() == *value,
            forall|k: int|
                0 <= k < j ==> is_missing_marker(#[trigger] markers[k], keys[k]) && set_at(
                    states[k],
                    split_on(keys[k], '.'),
                    markers[k],
                    states[k + 1],
                ),
        decreases missing.len() - j,
    {
        let marker = LangValue::Text(String::from_str("MISSING ").concat(missing[j].as_str()));
        let ghost m = marker;
        set_nested_key(value, missing[j].as_str(), marker);
        proof {
            markers = markers.push(m);
            states = states.push(*value);
        }
        j = j + 1;
    }
    assert(marking_steps(start, keys, *value, states, markers));
    missing
}

} // verus!
