//! The `NSKeyedArchiver` property-list walker.
//!
//! An archive stores an object table under `$objects` and a root pointer
//! under `$top.root`; values reference each other by UID. The walker follows
//! the UIDs and rebuilds the plain tree, promoting referenced values to the
//! places where their pointers live.
//!
//! Property-list values enter the library as [`PlistValue`] trees: plain
//! data that mirrors what the decoding logic reads from a parsed plist. Real
//! numbers are carried as their value truncated toward zero, which is all
//! the edit-record decoding consumes of them.
use vstd::prelude::*;

use crate::text::str_eq;
use vstd::string::{StrSliceExecFns, StringExecFns};

verus! {

broadcast use vstd::string::group_string_axioms;

/// A property-list value.
#[derive(Debug, PartialEq)]
pub enum PlistValue {
    /// A boolean.
    Boolean(bool),
    /// An integer that fits the signed 64-bit range.
    Integer(i64),
    /// An integer above the signed 64-bit range.
    UnsignedInteger(u64),
    /// A real number, truncated toward zero.
    Real(i64),
    /// A string.
    String(String),
    /// A run of raw bytes.
    Data(Vec<u8>),
    /// A UID reference into the `$objects` table.
    Uid(u64),
    /// An array of values.
    Array(Vec<PlistValue>),
    /// A dictionary; entries keep their insertion order and keys are unique.
    Dictionary(Vec<(String, PlistValue)>),
    /// A value kind the decoding logic never reads, such as a date.
    Other,
}

/// The failures of property-list decoding.
#[derive(Debug, PartialEq)]
pub enum PlistParseError {
    /// A required key is missing.
    MissingKey(String),
    /// A key holds a value of the wrong kind.
    InvalidType(String, String),
    /// An index points past the end of a collection.
    NoValueAtIndex(usize),
    /// An index holds a value of the wrong kind.
    InvalidTypeIndex(usize, String),
    /// `NS.keys` and `NS.objects` have different lengths.
    InvalidDictionarySize(usize, usize),
    /// A chain of UID references does not terminate.
    UnresolvedReference(usize),
}

/// No UID remains anywhere in the value.
pub open spec fn spec_no_uids(v: PlistValue) -> bool
    decreases v,
{
    match v {
        PlistValue::Uid(_) => false,
        PlistValue::Array(items) => forall|i: int|
            0 <= i < items@.len() ==> spec_no_uids(#[trigger] items@[i]),
        PlistValue::Dictionary(entries) => forall|i: int|
            0 <= i < entries@.len() ==> spec_no_uids(#[trigger] entries@[i].1),
        _ => true,
    }
}

/// No dictionary key anywhere in the value is `$class`.
pub open spec fn spec_no_class_keys(v: PlistValue) -> bool
    decreases v,
{
    match v {
        PlistValue::Array(items) => forall|i: int|
            0 <= i < items@.len() ==> spec_no_class_keys(#[trigger] items@[i]),
        PlistValue::Dictionary(entries) => forall|i: int|
            0 <= i < entries@.len() ==> (#[trigger] entries@[i]).0@ != "$class"@
                && spec_no_class_keys(entries@[i].1),
        _ => true,
    }
}

/// No string stored in the object table reads `$class`; real archives obey
/// this, and under it the walker's output carries no `$class` key.
pub open spec fn spec_no_class_strings(objects: Seq<PlistValue>) -> bool {
    forall|i: int|
        0 <= i < objects.len() ==> match #[trigger] objects[i] {
            PlistValue::String(s) => s@ != "$class"@,
            _ => true,
        }
}

/// The first value stored under `key`, if any.
pub open spec fn spec_dict_get(entries: Seq<(String, PlistValue)>, key: Seq<char>) -> Option<
    PlistValue,
>
    decreases entries.len(),
{
    if entries.len() == 0 {
        None
    } else if entries[0].0@ == key {
        Some(entries[0].1)
    } else {
        spec_dict_get(entries.drop_first(), key)
    }
}

/// Look a key up in a dictionary's entry list.
pub fn dict_get<'a>(entries: &'a Vec<(String, PlistValue)>, key: &str) -> (r: Option<
    &'a PlistValue,
>)
    ensures
        match r {
            Some(v) => spec_dict_get(entries@, key@) == Some(*v),
            None => spec_dict_get(entries@, key@) is None,
        },
{
    let mut i: usize = 0;
    proof {
        assert(entries@.skip(0) =~= entries@);
    }
    while i < entries.len()
        invariant
            i <= entries@.len(),
            spec_dict_get(entries@, key@) == spec_dict_get(entries@.skip(i as int), key@),
        decreases entries@.len() - i,
    {
        proof {
            assert(entries@.skip(i as int)[0] == entries@[i as int]);
            assert(entries@.skip(i as int).drop_first() =~= entries@.skip(i + 1));
        }
        if str_eq(entries[i].0.as_str(), key) {
            return Some(&entries[i].1);
        }
        i = i + 1;
    }
    None
}

/// Where lookup first finds a key, counted from the front; the length when
/// the key is absent.
pub open spec fn spec_dict_find(entries: Seq<(String, PlistValue)>, key: Seq<char>) -> int
    decreases entries.len(),
{
    if entries.len() == 0 {
        0
    } else if entries[0].0@ == key {
        0
    } else {
        1 + spec_dict_find(entries.drop_first(), key)
    }
}

/// The find position is the first match.
proof fn lemma_dict_find(entries: Seq<(String, PlistValue)>, key: Seq<char>)
    ensures
        0 <= spec_dict_find(entries, key) <= entries.len(),
        spec_dict_find(entries, key) < entries.len() ==> entries[spec_dict_find(
            entries,
            key,
        )].0@ == key,
        forall|j: int| 0 <= j < spec_dict_find(entries, key) ==> (#[trigger] entries[j]).0@ != key,
    decreases entries.len(),
{
    if entries.len() > 0 && entries[0].0@ != key {
        lemma_dict_find(entries.drop_first(), key);
        assert forall|j: int| 0 <= j < spec_dict_find(entries, key) implies (
        #[trigger] entries[j]).0@ != key by {
            if j > 0 {
                assert(entries.drop_first()[j - 1] == entries[j]);
            }
        }
    }
}

/// What inserting leaves behind: the first entry with the key is replaced
/// in place, or the pair is appended when the key is new.
pub open spec fn spec_dict_inserted(
    entries: Seq<(String, PlistValue)>,
    key: String,
    value: PlistValue,
) -> Seq<(String, PlistValue)> {
    let i = spec_dict_find(entries, key@);
    if i < entries.len() {
        entries.update(i, (entries[i].0, value))
    } else {
        entries.push((key, value))
    }
}

/// Insert a value, replacing the first entry with the same key in place, or
/// appending when the key is new — the order the archiver's dictionaries
/// keep.
fn dict_insert(entries: &mut Vec<(String, PlistValue)>, key: String, value: PlistValue)
    ensures
        final(entries)@ == spec_dict_inserted(old(entries)@, key, value),
        final(entries)@.len() >= old(entries)@.len(),
        final(entries)@.len() <= old(entries)@.len() + 1,
        forall|i: int|
            0 <= i < final(entries)@.len() ==> ((#[trigger] final(entries)@[i]).0@ == key@
                && final(entries)@[i].1 == value) || (i < old(entries)@.len()
                && final(entries)@[i] == old(entries)@[i]),
        spec_dict_get(final(entries)@, key@) == Some(value),
{
    let mut i: usize = 0;
    while i < entries.len()
        invariant
            i <= entries@.len(),
            entries@ == old(entries)@,
            forall|j: int| 0 <= j < i ==> (#[trigger] entries@[j]).0@ != key@,
        decreases entries@.len() - i,
    {
        if str_eq(entries[i].0.as_str(), key.as_str()) {
            proof {
                lemma_dict_find_at(old(entries)@, key@, i as int);
            }
            entries[i].1 = value;
            proof {
                lemma_dict_get_at(entries@, key@, i as int);
                assert(entries@ =~= spec_dict_inserted(old(entries)@, key, value));
            }
            return ;
        }
        i = i + 1;
    }
    proof {
        lemma_dict_find(entries@, key@);
        if spec_dict_find(entries@, key@) < entries@.len() {
            assert((entries@[spec_dict_find(entries@, key@)]).0@ == key@);
        }
    }
    entries.push((key, value));
    proof {
        lemma_dict_get_at(entries@, entries@.last().0@, entries@.len() - 1);
        assert(entries@ =~= spec_dict_inserted(old(entries)@, key, value));
    }
}

/// A key found first at `i` is where the find lands.
proof fn lemma_dict_find_at(entries: Seq<(String, PlistValue)>, key: Seq<char>, i: int)
    requires
        0 <= i < entries.len(),
        entries[i].0@ == key,
        forall|j: int| 0 <= j < i ==> (#[trigger] entries[j]).0@ != key,
    ensures
        spec_dict_find(entries, key) == i,
    decreases i,
{
    if i > 0 {
        assert forall|j: int| 0 <= j < i - 1 implies (#[trigger] entries.drop_first()[j]).0@
            != key by {
            assert(entries.drop_first()[j] == entries[j + 1]);
        }
        lemma_dict_find_at(entries.drop_first(), key, i - 1);
    }
}

/// A key found at the first position it occurs is what lookup returns.
proof fn lemma_dict_get_at(entries: Seq<(String, PlistValue)>, key: Seq<char>, i: int)
    requires
        0 <= i < entries.len(),
        entries[i].0@ == key,
        forall|j: int| 0 <= j < i ==> (#[trigger] entries[j]).0@ != key,
    ensures
        spec_dict_get(entries, key) == Some(entries[i].1),
    decreases i,
{
    if i > 0 {
        assert forall|j: int| 0 <= j < i - 1 implies (#[trigger] entries.drop_first()[j]).0@
            != key by {
            assert(entries.drop_first()[j] == entries[j + 1]);
        }
        lemma_dict_get_at(entries.drop_first(), key, i - 1);
    }
}

/// Copy a byte vector.
pub fn copy_bytes(v: &[u8]) -> (r: Vec<u8>)
    ensures
        r@ == v@,
{
    let mut out: Vec<u8> = Vec::new();
    let mut i: usize = 0;
    while i < v.len()
        invariant
            i <= v@.len(),
            out@ == v@.take(i as int),
        decreases v@.len() - i,
    {
        out.push(v[i]);
        i = i + 1;
        assert(out@ =~= v@.take(i as int));
    }
    assert(v@.take(v@.len() as int) =~= v@);
    out
}



/// A walked value at the specification level: strings as their characters.
#[verifier::ext_equal]
pub enum WalkedValue {
    Boolean(bool),
    Integer(i64),
    UnsignedInteger(u64),
    Real(i64),
    String(Seq<char>),
    Data(Seq<u8>),
    Uid(u64),
    Array(Seq<WalkedValue>),
    Dictionary(Seq<(Seq<char>, WalkedValue)>),
    Other,
}

/// The specification view of a plist value.
pub open spec fn walked_model(v: PlistValue) -> WalkedValue
    decreases v,
    via walked_model_decreases
{
    match v {
        PlistValue::Boolean(b) => WalkedValue::Boolean(b),
        PlistValue::Integer(x) => WalkedValue::Integer(x),
        PlistValue::UnsignedInteger(x) => WalkedValue::UnsignedInteger(x),
        PlistValue::Real(x) => WalkedValue::Real(x),
        PlistValue::String(text) => WalkedValue::String(text@),
        PlistValue::Data(d) => WalkedValue::Data(d@),
        PlistValue::Uid(u) => WalkedValue::Uid(u),
        PlistValue::Array(items) => WalkedValue::Array(
            Seq::new(
                items@.len(),
                |i: int|
                    if 0 <= i < items@.len() {
                        walked_model(items@[i])
                    } else {
                        WalkedValue::Other
                    },
            ),
        ),
        PlistValue::Dictionary(entries) => WalkedValue::Dictionary(
            Seq::new(
                entries@.len(),
                |i: int|
                    if 0 <= i < entries@.len() {
                        (entries@[i].0@, walked_model(entries@[i].1))
                    } else {
                        (Seq::empty(), WalkedValue::Other)
                    },
            ),
        ),
        PlistValue::Other => WalkedValue::Other,
    }
}

#[via_fn]
proof fn walked_model_decreases(v: PlistValue) {
    broadcast use vstd::std_specs::vec::group_vec_axioms;

    match v {
        PlistValue::Array(items) => {
            assert forall|i: int| 0 <= i < items@.len() implies decreases_to!(
                v => items@[i]
            ) by {
                assert(decreases_to!(v => v->Array_0));
                assert(decreases_to!(v->Array_0 => v->Array_0@));
                assert(decreases_to!(v->Array_0@ => v->Array_0@[i]));
            }
        },
        PlistValue::Dictionary(entries) => {
            assert forall|i: int| 0 <= i < entries@.len() implies decreases_to!(
                v => entries@[i].1
            ) by {
                assert(decreases_to!(v => v->Dictionary_0));
                assert(decreases_to!(v->Dictionary_0 => v->Dictionary_0@));
                assert(decreases_to!(v->Dictionary_0@ => v->Dictionary_0@[i]));
                assert(decreases_to!(v->Dictionary_0@[i] => v->Dictionary_0@[i].1));
            }
        },
        _ => {},
    }
}

/// The specification view of the walker's dictionary entries.
pub open spec fn wentries_model(entries: Seq<(String, PlistValue)>) -> Seq<(Seq<char>, WalkedValue)> {
    Seq::new(entries.len(), |i: int| (entries[i].0@, walked_model(entries[i].1)))
}

/// The walked views of a run of values.
pub open spec fn wvalues_model(items: Seq<PlistValue>) -> Seq<WalkedValue> {
    Seq::new(items.len(), |i: int| walked_model(items[i]))
}

/// A decode failure at the specification level.
pub enum PlistErrModel {
    MissingKey(Seq<char>),
    InvalidType(Seq<char>, Seq<char>),
    NoValueAtIndex(int),
    InvalidTypeIndex(int, Seq<char>),
    InvalidDictionarySize(int, int),
    UnresolvedReference(int),
}

/// The specification view of a decode failure.
pub open spec fn perr_model(e: PlistParseError) -> PlistErrModel {
    match e {
        PlistParseError::MissingKey(k) => PlistErrModel::MissingKey(k@),
        PlistParseError::InvalidType(k, w) => PlistErrModel::InvalidType(k@, w@),
        PlistParseError::NoValueAtIndex(i) => PlistErrModel::NoValueAtIndex(i as int),
        PlistParseError::InvalidTypeIndex(i, w) => PlistErrModel::InvalidTypeIndex(i as int, w@),
        PlistParseError::InvalidDictionarySize(k, v) => PlistErrModel::InvalidDictionarySize(
            k as int,
            v as int,
        ),
        PlistParseError::UnresolvedReference(i) => PlistErrModel::UnresolvedReference(i as int),
    }
}

/// The walked form of the entries after one insertion.
pub open spec fn w_dict_inserted(
    entries: Seq<(Seq<char>, WalkedValue)>,
    key: Seq<char>,
    value: WalkedValue,
) -> Seq<(Seq<char>, WalkedValue)>
    decreases entries.len(),
{
    if entries.len() == 0 {
        seq![(key, value)]
    } else if entries[0].0 == key {
        seq![(entries[0].0, value)] + entries.drop_first()
    } else {
        seq![entries[0]] + w_dict_inserted(entries.drop_first(), key, value)
    }
}

/// Inserting commutes with taking the walked view.
proof fn lemma_insert_model(entries: Seq<(String, PlistValue)>, key: String, value: PlistValue)
    ensures
        wentries_model(spec_dict_inserted(entries, key, value)) == w_dict_inserted(
            wentries_model(entries),
            key@,
            walked_model(value),
        ),
    decreases entries.len(),
{
    lemma_dict_find(entries, key@);
    if entries.len() == 0 {
        assert(wentries_model(spec_dict_inserted(entries, key, value)) =~= seq![
            (key@, walked_model(value)),
        ]);
    } else if entries[0].0@ == key@ {
        assert(spec_dict_inserted(entries, key, value) =~= entries.update(
            0,
            (entries[0].0, value),
        ));
        assert(wentries_model(spec_dict_inserted(entries, key, value)) =~= seq![
            (entries[0].0@, walked_model(value)),
        ] + wentries_model(entries).drop_first());
        assert(w_dict_inserted(wentries_model(entries), key@, walked_model(value)) =~= seq![
            (entries[0].0@, walked_model(value)),
        ] + wentries_model(entries).drop_first());
    } else {
        lemma_insert_model(entries.drop_first(), key, value);
        let i = spec_dict_find(entries, key@);
        assert(wentries_model(entries).drop_first() =~= wentries_model(entries.drop_first()));
        if i < entries.len() {
            assert(spec_dict_find(entries.drop_first(), key@) == i - 1);
            assert(spec_dict_inserted(entries.drop_first(), key, value) =~= entries.drop_first()
                .update(i - 1, (entries[i].0, value)));
            assert(spec_dict_inserted(entries, key, value) =~= seq![entries[0]]
                + spec_dict_inserted(entries.drop_first(), key, value));
        } else {
            assert(spec_dict_inserted(entries.drop_first(), key, value) =~= entries.drop_first()
                .push((key, value)));
            assert(spec_dict_inserted(entries, key, value) =~= seq![entries[0]]
                + spec_dict_inserted(entries.drop_first(), key, value));
        }
        assert(wentries_model(spec_dict_inserted(entries, key, value)) =~= seq![
            (entries[0].0@, walked_model(entries[0].1)),
        ] + wentries_model(spec_dict_inserted(entries.drop_first(), key, value)));
        assert(w_dict_inserted(wentries_model(entries), key@, walked_model(value)) =~= seq![
            (entries[0].0@, walked_model(entries[0].1)),
        ] + w_dict_inserted(wentries_model(entries.drop_first()), key@, walked_model(value)));
    }
}

/// The parent key under which a promoted value lands.
pub open spec fn parent_model(parent: Option<&str>) -> Option<Seq<char>> {
    match parent {
        Some(p) => Some(p@),
        None => None,
    }
}

/// The walker at the specification level, mirroring the resolution of one
/// value: each followed reference spends one unit of fuel.
#[verifier::opaque]
pub open spec fn s_walk(
    objects: Seq<PlistValue>,
    item: PlistValue,
    parent: Option<Seq<char>>,
    fuel: nat,
) -> Result<WalkedValue, PlistErrModel>
    decreases fuel, item, 2int, 0int,
{
    match item {
        PlistValue::Array(arr) => match s_walk_array(objects, item, arr@, 0, parent, fuel) {
            Ok(outs) => Ok(WalkedValue::Array(outs)),
            Err(e) => Err(e),
        },
        PlistValue::Dictionary(entries) => {
            if spec_dict_get(entries@, "NS.relative"@) is Some {
                match spec_dict_get(entries@, "NS.relative"@)->Some_0 {
                    PlistValue::Uid(u) => match parent {
                        Some(p) => {
                            if fuel == 0 {
                                Err(PlistErrModel::UnresolvedReference((u as usize) as int))
                            } else if u as usize >= objects.len() {
                                Err(PlistErrModel::NoValueAtIndex((u as usize) as int))
                            } else {
                                match s_walk(
                                    objects,
                                    objects[u as usize as int],
                                    Some(p),
                                    (fuel - 1) as nat,
                                ) {
                                    Ok(v) => Ok(
                                        WalkedValue::Dictionary(
                                            w_dict_inserted(Seq::empty(), p, v),
                                        ),
                                    ),
                                    Err(e) => Err(e),
                                }
                            }
                        },
                        None => Ok(WalkedValue::Dictionary(Seq::empty())),
                    },
                    _ => Ok(WalkedValue::Dictionary(Seq::empty())),
                }
            } else if spec_dict_get(entries@, "NS.keys"@) is Some && spec_dict_get(
                entries@,
                "NS.objects"@,
            ) is Some {
                match spec_dict_get(entries@, "NS.keys"@)->Some_0 {
                    PlistValue::Array(keys) => match spec_dict_get(
                        entries@,
                        "NS.objects"@,
                    )->Some_0 {
                        PlistValue::Array(vals) => {
                            if keys@.len() != vals@.len() {
                                Err(
                                    PlistErrModel::InvalidDictionarySize(
                                        keys@.len() as int,
                                        vals@.len() as int,
                                    ),
                                )
                            } else {
                                match s_walk_keyed(
                                    objects,
                                    item,
                                    keys@,
                                    vals@,
                                    0,
                                    Seq::empty(),
                                    fuel,
                                ) {
                                    Ok(outs) => Ok(WalkedValue::Dictionary(outs)),
                                    Err(e) => Err(e),
                                }
                            }
                        },
                        _ => Err(PlistErrModel::InvalidType("NS.objects"@, "array"@)),
                    },
                    _ => Err(PlistErrModel::InvalidType("NS.keys"@, "array"@)),
                }
            } else {
                match s_walk_plain(objects, item, entries@, 0, Seq::empty(), parent, fuel) {
                    Ok(outs) => Ok(WalkedValue::Dictionary(outs)),
                    Err(e) => Err(e),
                }
            }
        },
        PlistValue::Uid(u) => {
            if fuel == 0 {
                Err(PlistErrModel::UnresolvedReference((u as usize) as int))
            } else if u as usize >= objects.len() {
                Err(PlistErrModel::NoValueAtIndex((u as usize) as int))
            } else {
                s_walk(objects, objects[u as usize as int], None, (fuel - 1) as nat)
            }
        },
        _ => Ok(walked_model(item)),
    }
}

/// The walker's array case: each UID element resolves in order, anything
/// else is dropped.
#[verifier::opaque]
pub open spec fn s_walk_array(
    objects: Seq<PlistValue>,
    ditem: PlistValue,
    elems: Seq<PlistValue>,
    i: int,
    parent: Option<Seq<char>>,
    fuel: nat,
) -> Result<Seq<WalkedValue>, PlistErrModel>
    decreases fuel, ditem, 1int, elems.len() - i,
    when 0 <= i <= elems.len()
{
    if i >= elems.len() {
        Ok(Seq::empty())
    } else {
        match elems[i] {
            PlistValue::Uid(u) => {
                if fuel == 0 {
                    Err(PlistErrModel::UnresolvedReference((u as usize) as int))
                } else if u as usize >= objects.len() {
                    Err(PlistErrModel::NoValueAtIndex((u as usize) as int))
                } else {
                    match s_walk(objects, objects[u as usize as int], parent, (fuel - 1) as nat) {
                        Ok(v) => match s_walk_array(objects, ditem, elems, i + 1, parent, fuel) {
                            Ok(rest) => Ok(seq![v] + rest),
                            Err(e) => Err(e),
                        },
                        Err(e) => Err(e),
                    }
                }
            },
            _ => s_walk_array(objects, ditem, elems, i + 1, parent, fuel),
        }
    }
}

/// The walker's keyed-dictionary case: each key and value index must be a
/// UID, each key must resolve to a string, and each value resolves under
/// its key.
#[verifier::opaque]
pub open spec fn s_walk_keyed(
    objects: Seq<PlistValue>,
    ditem: PlistValue,
    keys: Seq<PlistValue>,
    vals: Seq<PlistValue>,
    i: int,
    acc: Seq<(Seq<char>, WalkedValue)>,
    fuel: nat,
) -> Result<Seq<(Seq<char>, WalkedValue)>, PlistErrModel>
    decreases fuel, ditem, 1int, keys.len() - i,
    when 0 <= i <= keys.len() && keys.len() == vals.len()
{
    if i >= keys.len() {
        Ok(acc)
    } else {
        match keys[i] {
            PlistValue::Uid(ku) => {
                if ku > usize::MAX {
                    Err(PlistErrModel::InvalidTypeIndex(i, "uid"@))
                } else {
                    match vals[i] {
                        PlistValue::Uid(vu) => {
                            if vu > usize::MAX {
                                Err(PlistErrModel::InvalidTypeIndex(i, "uid"@))
                            } else if ku as usize >= objects.len() {
                                Err(PlistErrModel::NoValueAtIndex((ku as usize) as int))
                            } else {
                                match objects[ku as usize as int] {
                                    PlistValue::String(key_text) => {
                                        if fuel == 0 {
                                            Err(
                                                PlistErrModel::UnresolvedReference(
                                                    (vu as usize) as int,
                                                ),
                                            )
                                        } else if vu as usize >= objects.len() {
                                            Err(
                                                PlistErrModel::NoValueAtIndex(
                                                    (vu as usize) as int,
                                                ),
                                            )
                                        } else {
                                            match s_walk(
                                                objects,
                                                objects[vu as usize as int],
                                                Some(key_text@),
                                                (fuel - 1) as nat,
                                            ) {
                                                Ok(v) => s_walk_keyed(
                                                    objects,
                                                    ditem,
                                                    keys,
                                                    vals,
                                                    i + 1,
                                                    w_dict_inserted(acc, key_text@, v),
                                                    fuel,
                                                ),
                                                Err(e) => Err(e),
                                            }
                                        }
                                    },
                                    _ => Err(
                                        PlistErrModel::InvalidTypeIndex(
                                            (ku as usize) as int,
                                            "string"@,
                                        ),
                                    ),
                                }
                            }
                        },
                        _ => Err(PlistErrModel::InvalidTypeIndex(i, "uid"@)),
                    }
                }
            },
            _ => Err(PlistErrModel::InvalidTypeIndex(i, "uid"@)),
        }
    }
}

/// The walker's plain-dictionary case: `$class` entries are skipped, UID
/// values resolve under their own key, and other values resolve under the
/// parent key when there is one.
#[verifier::opaque]
pub open spec fn s_walk_plain(
    objects: Seq<PlistValue>,
    ditem: PlistValue,
    entries: Seq<(String, PlistValue)>,
    i: int,
    acc: Seq<(Seq<char>, WalkedValue)>,
    parent: Option<Seq<char>>,
    fuel: nat,
) -> Result<Seq<(Seq<char>, WalkedValue)>, PlistErrModel>
    decreases fuel, ditem, 1int, entries.len() - i,
    when 0 <= i <= entries.len() && (forall|j: int|
        0 <= j < entries.len() ==> is_sub_value(ditem, (#[trigger] entries[j]).1))
{
    if i >= entries.len() {
        Ok(acc)
    } else {
        let key = entries[i].0;
        let val = entries[i].1;
        if key@ == "$class"@ {
            s_walk_plain(objects, ditem, entries, i + 1, acc, parent, fuel)
        } else {
            match val {
                PlistValue::Uid(u) => {
                    if fuel == 0 {
                        Err(PlistErrModel::UnresolvedReference((u as usize) as int))
                    } else if u as usize >= objects.len() {
                        Err(PlistErrModel::NoValueAtIndex((u as usize) as int))
                    } else {
                        match s_walk(
                            objects,
                            objects[u as usize as int],
                            Some(key@),
                            (fuel - 1) as nat,
                        ) {
                            Ok(v) => s_walk_plain(
                                objects,
                                ditem,
                                entries,
                                i + 1,
                                w_dict_inserted(acc, key@, v),
                                parent,
                                fuel,
                            ),
                            Err(e) => Err(e),
                        }
                    }
                },
                _ => match parent {
                    Some(p) => match s_walk(objects, val, Some(p), fuel) {
                        Ok(v) => s_walk_plain(
                            objects,
                            ditem,
                            entries,
                            i + 1,
                            w_dict_inserted(acc, p, v),
                            parent,
                            fuel,
                        ),
                        Err(e) => Err(e),
                    },
                    None => s_walk_plain(objects, ditem, entries, i + 1, acc, parent, fuel),
                },
            }
        }
    }
}

/// Is `sub` a structural part of `sup`? This grounds the termination of
/// the plain-dictionary walk, whose values descend from the dictionary.
pub open spec fn is_sub_value(sup: PlistValue, sub: PlistValue) -> bool {
    decreases_to!(sup => sub)
}

/// The archive walk at the specification level: the object table under
/// `$objects`, the root under `$top.root`, then the walk of the root with
/// one unit of fuel per table slot and one to spare.
pub open spec fn spec_walk_archive(plist: PlistValue) -> Result<WalkedValue, PlistErrModel> {
    match plist {
        PlistValue::Dictionary(body) => match spec_dict_get(body@, "$objects"@) {
            Option::None => Err(PlistErrModel::MissingKey("$objects"@)),
            Some(objv) => match objv {
                PlistValue::Array(objects) => match spec_dict_get(body@, "$top"@) {
                    Option::None => Err(PlistErrModel::MissingKey("$top"@)),
                    Some(topv) => match topv {
                        PlistValue::Dictionary(top) => match spec_dict_get(top@, "root"@) {
                            Option::None => Err(PlistErrModel::MissingKey("root"@)),
                            Some(rootv) => match rootv {
                                PlistValue::Uid(u) => {
                                    if u > usize::MAX {
                                        Err(PlistErrModel::InvalidType("root"@, "uid"@))
                                    } else if u as usize >= objects@.len() {
                                        Err(PlistErrModel::NoValueAtIndex((u as usize) as int))
                                    } else if objects@.len() >= usize::MAX {
                                        Err(
                                            PlistErrModel::UnresolvedReference(
                                                (u as usize) as int,
                                            ),
                                        )
                                    } else {
                                        s_walk(
                                            objects@,
                                            objects@[u as usize as int],
                                            Option::None,
                                            (objects@.len() + 1) as nat,
                                        )
                                    }
                                },
                                _ => Err(PlistErrModel::InvalidType("root"@, "uid"@)),
                            },
                        },
                        _ => Err(PlistErrModel::InvalidType("$top"@, "dictionary"@)),
                    },
                },
                _ => Err(PlistErrModel::InvalidType("$objects"@, "array"@)),
            },
        },
        _ => Err(PlistErrModel::InvalidType("body"@, "dictionary"@)),
    }
}

/// May the walker insert under this parent key? Under a well-formed object
/// table the parent key is never `$class`.
pub open spec fn spec_parent_ok(objects: Seq<PlistValue>, parent: Option<&str>) -> bool {
    match parent {
        Some(p) => spec_no_class_strings(objects) ==> p@ != "$class"@,
        None => true,
    }
}

/// The guarantee the walker gives of everything it returns: no UID survives,
/// and, when the object table stores no `$class` string, no `$class` key
/// either.
pub open spec fn spec_walked(objects: Seq<PlistValue>, v: PlistValue) -> bool {
    spec_no_uids(v) && (spec_no_class_strings(objects) ==> spec_no_class_keys(v))
}

/// Interpret the dictionary `$objects` value at `idx` as a string, as the
/// archiver requires of dictionary keys.
fn extract_string_idx<'o>(objects: &'o Vec<PlistValue>, idx: usize) -> (r: Result<
    &'o String,
    PlistParseError,
>)
    ensures
        match r {
            Ok(s) => idx < objects@.len() && objects@[idx as int] == PlistValue::String(*s),
            Err(PlistParseError::NoValueAtIndex(i)) => i == idx && idx >= objects@.len(),
            Err(PlistParseError::InvalidTypeIndex(i, w)) => w@ == "string"@ && i == idx && idx
                < objects@.len() && !(objects@[idx as int] is String),
            Err(_) => false,
        },
{
    if idx >= objects.len() {
        return Err(PlistParseError::NoValueAtIndex(idx));
    }
    match &objects[idx] {
        PlistValue::String(s) => Ok(s),
        _ => Err(PlistParseError::InvalidTypeIndex(idx, String::from_str("string"))),
    }
}

/// Interpret the value at `idx` as a UID.
fn extract_uid_idx(body: &Vec<PlistValue>, idx: usize) -> (r: Result<usize, PlistParseError>)
    ensures
        match r {
            Ok(u) => idx < body@.len() && body@[idx as int] == PlistValue::Uid(u as u64),
            Err(PlistParseError::NoValueAtIndex(i)) => i == idx && idx >= body@.len(),
            Err(PlistParseError::InvalidTypeIndex(i, w)) => w@ == "uid"@ && i == idx && idx
                < body@.len() && (!(body@[idx as int] is Uid) || body@[idx as int]->Uid_0
                > usize::MAX),
            Err(_) => false,
        },
{
    if idx >= body.len() {
        return Err(PlistParseError::NoValueAtIndex(idx));
    }
    match &body[idx] {
        PlistValue::Uid(u) => {
            let v = *u;
            if v > usize::MAX as u64 {
                return Err(PlistParseError::InvalidTypeIndex(idx, String::from_str("uid")));
            }
            Ok(v as usize)
        },
        _ => Err(PlistParseError::InvalidTypeIndex(idx, String::from_str("uid"))),
    }
}

/// Does `b` carry the same primitive content as `a`?
pub open spec fn spec_prim_matches(a: &PlistValue, b: PlistValue) -> bool {
    match b {
        PlistValue::Boolean(x) => *a == PlistValue::Boolean(x),
        PlistValue::Integer(x) => *a == PlistValue::Integer(x),
        PlistValue::UnsignedInteger(x) => *a == PlistValue::UnsignedInteger(x),
        PlistValue::Real(x) => *a == PlistValue::Real(x),
        PlistValue::String(x) => match a {
            PlistValue::String(y) => x == y,
            _ => false,
        },
        PlistValue::Data(x) => match a {
            PlistValue::Data(y) => x@ == y@,
            _ => false,
        },
        PlistValue::Other => *a is Other,
        _ => false,
    }
}

/// Copy a primitive value; the walker passes primitives through unchanged.
fn copy_primitive(item: &PlistValue) -> (r: PlistValue)
    requires
        !(item is Array),
        !(item is Dictionary),
        !(item is Uid),
    ensures
        spec_prim_matches(item, r),
        spec_no_uids(r),
        spec_no_class_keys(r),
{
    match item {
        PlistValue::Boolean(b) => PlistValue::Boolean(*b),
        PlistValue::Integer(i) => PlistValue::Integer(*i),
        PlistValue::UnsignedInteger(u) => PlistValue::UnsignedInteger(*u),
        PlistValue::Real(x) => PlistValue::Real(*x),
        PlistValue::String(s) => PlistValue::String(s.clone()),
        PlistValue::Data(d) => PlistValue::Data(copy_bytes(d.as_slice())),
        _ => PlistValue::Other,
    }
}

/// Recursively follow the UID pointers of one value, promoting referenced
/// values to the places where the pointers live.
///
/// `fuel` bounds the number of UID dereferences along one path; a chain
/// longer than the object table must revisit a slot and cannot terminate,
/// so the caller passes one more than the table's length.
#[verifier::rlimit(100)]
fn walk_value(
    objects: &Vec<PlistValue>,
    item: &PlistValue,
    parent: Option<&str>,
    fuel: usize,
) -> (r: Result<PlistValue, PlistParseError>)
    requires
        spec_parent_ok(objects@, parent),
    ensures
        r matches Ok(v) ==> spec_walked(objects@, v),
        match r {
            Ok(v) => s_walk(objects@, *item, parent_model(parent), fuel as nat) == Ok::<
                WalkedValue,
                PlistErrModel,
            >(walked_model(v)),
            Err(e) => s_walk(objects@, *item, parent_model(parent), fuel as nat) == Err::<
                WalkedValue,
                PlistErrModel,
            >(perr_model(e)),
        },
    decreases fuel, *item,
{
    proof {
        reveal(s_walk);
    }
    let ghost pm = parent_model(parent);
    let ghost f = fuel as nat;
    match item {
        PlistValue::Array(arr) => {
            let mut out: Vec<PlistValue> = Vec::new();
            let mut i: usize = 0;
            proof {
                reveal(s_walk_array);
                assert(wvalues_model(out@) =~= Seq::<WalkedValue>::empty());
                if s_walk_array(objects@, *item, arr@, 0, pm, f) is Ok {
                    let rest = s_walk_array(objects@, *item, arr@, 0, pm, f)->Ok_0;
                    assert(wvalues_model(out@) + rest =~= rest);
                }
            }
            while i < arr.len()
                invariant
                    spec_parent_ok(objects@, parent),
                    pm == parent_model(parent),
                    f == fuel as nat,
                    *item == PlistValue::Array(*arr),
                    i <= arr@.len(),
                    forall|j: int|
                        0 <= j < out@.len() ==> spec_walked(objects@, #[trigger] out@[j]),
                    match s_walk_array(objects@, *item, arr@, i as int, pm, f) {
                        Ok(rest) => s_walk_array(objects@, *item, arr@, 0, pm, f) == Ok::<
                            Seq<WalkedValue>,
                            PlistErrModel,
                        >(wvalues_model(out@) + rest),
                        Err(e) => s_walk_array(objects@, *item, arr@, 0, pm, f) == Err::<
                            Seq<WalkedValue>,
                            PlistErrModel,
                        >(e),
                    },
                decreases arr@.len() - i,
            {
                proof {
                    reveal(s_walk);
                    reveal(s_walk_array);
                }
                let ghost pre_out = out@;
                if let PlistValue::Uid(u) = &arr[i] {
                    if fuel == 0 {
                        return Err(PlistParseError::UnresolvedReference(*u as usize));
                    }
                    let idx = *u as usize;
                    if idx >= objects.len() {
                        return Err(PlistParseError::NoValueAtIndex(idx));
                    }
                    let resolved = match walk_value(objects, &objects[idx], parent, fuel - 1) {
                        Ok(v) => v,
                        Err(e) => {
                            return Err(e);
                        },
                    };
                    out.push(resolved);
                    proof {
                        assert(wvalues_model(out@) =~= wvalues_model(pre_out).push(
                            walked_model(out@.last()),
                        ));
                        if s_walk_array(objects@, *item, arr@, i + 1, pm, f) is Ok {
                            let rest = s_walk_array(objects@, *item, arr@, i + 1, pm, f)->Ok_0;
                            assert(wvalues_model(out@) + rest =~= wvalues_model(pre_out) + (seq![
                                walked_model(out@.last()),
                            ] + rest));
                        }
                    }
                }
                i = i + 1;
            }
            proof {
                reveal(s_walk_array);
                if s_walk_array(objects@, *item, arr@, arr@.len() as int, pm, f) is Ok {
                    let rest = s_walk_array(objects@, *item, arr@, arr@.len() as int, pm, f)->Ok_0;
                    assert(wvalues_model(out@) + rest =~= wvalues_model(out@));
                }
            }
            let result = PlistValue::Array(out);
            assert(spec_no_uids(result));
            assert(spec_no_class_strings(objects@) ==> spec_no_class_keys(result));
            proof {
                assert(walked_model(result) is Array);
                assert(walked_model(result)->Array_0.len() == out@.len());
                assert forall|k: int| 0 <= k < out@.len() implies walked_model(
                    result,
                )->Array_0[k] == wvalues_model(result->Array_0@)[k] by {
                }
                assert(walked_model(result)->Array_0 =~= wvalues_model(result->Array_0@));
                assert(walked_model(result) == WalkedValue::Array(
                    wvalues_model(result->Array_0@),
                ));
            }
            Ok(result)
        },
        PlistValue::Dictionary(entries) => {
            let mut out: Vec<(String, PlistValue)> = Vec::new();
            proof {
                assert(wentries_model(out@) =~= Seq::<(Seq<char>, WalkedValue)>::empty());
            }
            let relative = dict_get(entries, "NS.relative");
            let has_keys = dict_get(entries, "NS.keys").is_some();
            let has_objects = dict_get(entries, "NS.objects").is_some();
            if let Some(rel) = relative {
                // A dictionary that points at a single other value.
                if let PlistValue::Uid(u) = rel {
                    if let Some(p) = parent {
                        if fuel == 0 {
                            return Err(PlistParseError::UnresolvedReference(*u as usize));
                        }
                        let idx = *u as usize;
                        if idx >= objects.len() {
                            return Err(PlistParseError::NoValueAtIndex(idx));
                        }
                        let resolved = match walk_value(objects, &objects[idx], Some(p), fuel - 1) {
                            Ok(v) => v,
                            Err(e) => {
                                return Err(e);
                            },
                        };
                        let ghost pre_out = out@;
                        let pkey = String::from_str(p);
                        let ghost gkey = pkey;
                        let ghost gval = resolved;
                        dict_insert(&mut out, pkey, resolved);
                        proof {
                            lemma_insert_model(pre_out, gkey, gval);
                        }
                    }
                }
            } else if has_keys && has_objects {
                // The NSDictionary / NSMutableDictionary form.
                let keys = extract_array_key(entries, "NS.keys")?;
                let values = extract_array_key(entries, "NS.objects")?;
                if keys.len() != values.len() {
                    return Err(PlistParseError::InvalidDictionarySize(keys.len(), values.len()));
                }
                let mut i: usize = 0;
                proof {
                    reveal(s_walk_keyed);
                }
                while i < keys.len()
                    invariant
                        spec_parent_ok(objects@, parent),
                        pm == parent_model(parent),
                        f == fuel as nat,
                        *item == PlistValue::Dictionary(*entries),
                        spec_dict_get(entries@, "NS.relative"@) is None,
                        spec_dict_get(entries@, "NS.keys"@) == Some(PlistValue::Array(*keys)),
                        spec_dict_get(entries@, "NS.objects"@) == Some(PlistValue::Array(*values)),
                        i <= keys@.len(),
                        keys@.len() == values@.len(),
                        forall|j: int|
                            0 <= j < out@.len() ==> spec_walked(
                                objects@,
                                (#[trigger] out@[j]).1,
                            ) && (spec_no_class_strings(objects@) ==> out@[j].0@ != "$class"@),
                        match s_walk_keyed(
                            objects@,
                            *item,
                            keys@,
                            values@,
                            i as int,
                            wentries_model(out@),
                            f,
                        ) {
                            Ok(res) => s_walk_keyed(
                                objects@,
                                *item,
                                keys@,
                                values@,
                                0,
                                Seq::empty(),
                                f,
                            ) == Ok::<Seq<(Seq<char>, WalkedValue)>, PlistErrModel>(res),
                            Err(e) => s_walk_keyed(
                                objects@,
                                *item,
                                keys@,
                                values@,
                                0,
                                Seq::empty(),
                                f,
                            ) == Err::<Seq<(Seq<char>, WalkedValue)>, PlistErrModel>(e),
                        },
                    decreases keys@.len() - i,
                {
                    proof {
                        reveal(s_walk);
                        reveal(s_walk_keyed);
                    }
                    let key_index = extract_uid_idx(keys, i)?;
                    let value_index = extract_uid_idx(values, i)?;
                    let key = extract_string_idx(objects, key_index)?;
                    let key_owned = key.clone();
                    if fuel == 0 {
                        return Err(PlistParseError::UnresolvedReference(value_index));
                    }
                    if value_index >= objects.len() {
                        return Err(PlistParseError::NoValueAtIndex(value_index));
                    }
                    proof {
                        if spec_no_class_strings(objects@) {
                            assert(match objects@[key_index as int] {
                                PlistValue::String(s) => s@ != "$class"@,
                                _ => true,
                            });
                        }
                    }
                    let resolved = match walk_value(
                        objects,
                        &objects[value_index],
                        Some(key_owned.as_str()),
                        fuel - 1,
                    ) {
                        Ok(v) => v,
                        Err(e) => {
                            return Err(e);
                        },
                    };
                    let ghost pre_out = out@;
                    let ghost gkey = key_owned;
                    let ghost gval = resolved;
                    dict_insert(&mut out, key_owned, resolved);
                    proof {
                        lemma_insert_model(pre_out, gkey, gval);
                    }
                    i = i + 1;
                }
                proof {
                    reveal(s_walk_keyed);
                }
            } else {
                // A plain key/value dictionary.
                let mut i: usize = 0;
                proof {
                    reveal(s_walk_plain);
                    lemma_entries_sub(*item, *entries);
                }
                while i < entries.len()
                    invariant
                        *item == PlistValue::Dictionary(*entries),
                        spec_parent_ok(objects@, parent),
                        pm == parent_model(parent),
                        f == fuel as nat,
                        spec_dict_get(entries@, "NS.relative"@) is None,
                        !(spec_dict_get(entries@, "NS.keys"@) is Some && spec_dict_get(
                            entries@,
                            "NS.objects"@,
                        ) is Some),
                        i <= entries@.len(),
                        forall|j: int|
                            0 <= j < entries@.len() ==> is_sub_value(
                                *item,
                                (#[trigger] entries@[j]).1,
                            ),
                        forall|j: int|
                            0 <= j < out@.len() ==> spec_walked(
                                objects@,
                                (#[trigger] out@[j]).1,
                            ) && (spec_no_class_strings(objects@) ==> out@[j].0@ != "$class"@),
                        match s_walk_plain(
                            objects@,
                            *item,
                            entries@,
                            i as int,
                            wentries_model(out@),
                            pm,
                            f,
                        ) {
                            Ok(res) => s_walk_plain(
                                objects@,
                                *item,
                                entries@,
                                0,
                                Seq::empty(),
                                pm,
                                f,
                            ) == Ok::<Seq<(Seq<char>, WalkedValue)>, PlistErrModel>(res),
                            Err(e) => s_walk_plain(
                                objects@,
                                *item,
                                entries@,
                                0,
                                Seq::empty(),
                                pm,
                                f,
                            ) == Err::<Seq<(Seq<char>, WalkedValue)>, PlistErrModel>(e),
                        },
                    decreases entries@.len() - i,
                {
                    proof {
                        reveal(s_walk);
                        reveal(s_walk_plain);
                    }
                    let key = &entries[i].0;
                    let val = &entries[i].1;
                    if str_eq(key.as_str(), "$class") {
                        i = i + 1;
                        continue ;
                    }
                    if let PlistValue::Uid(u) = val {
                        if fuel == 0 {
                            return Err(PlistParseError::UnresolvedReference(*u as usize));
                        }
                        let idx = *u as usize;
                        if idx >= objects.len() {
                            return Err(PlistParseError::NoValueAtIndex(idx));
                        }
                        let resolved = match walk_value(
                            objects,
                            &objects[idx],
                            Some(key.as_str()),
                            fuel - 1,
                        ) {
                            Ok(v) => v,
                            Err(e) => {
                                return Err(e);
                            },
                        };
                        let ghost pre_out = out@;
                        let ckey = key.clone();
                        let ghost gkey = ckey;
                        let ghost gval = resolved;
                        dict_insert(&mut out, ckey, resolved);
                        proof {
                            lemma_insert_model(pre_out, gkey, gval);
                        }
                    } else if let Some(p) = parent {
                        proof {
                            broadcast use vstd::std_specs::vec::group_vec_axioms;

                            assert(decreases_to!(*item => item->Dictionary_0));
                            assert(decreases_to!(item->Dictionary_0 => item->Dictionary_0@));
                            assert(decreases_to!(item->Dictionary_0@ => item->Dictionary_0@[i as int]));
                            assert(decreases_to!(item->Dictionary_0@[i as int] => item->Dictionary_0@[i as int].1));
                            assert(item->Dictionary_0@[i as int].1 == *val);
                            assert(decreases_to!(*item => *val));
                        }
                        let resolved = match walk_value(objects, val, Some(p), fuel) {
                            Ok(v) => v,
                            Err(e) => {
                                return Err(e);
                            },
                        };
                        let ghost pre_out = out@;
                        let pkey = String::from_str(p);
                        let ghost gkey = pkey;
                        let ghost gval = resolved;
                        dict_insert(&mut out, pkey, resolved);
                        proof {
                            lemma_insert_model(pre_out, gkey, gval);
                        }
                    }
                    i = i + 1;
                }
                proof {
                    reveal(s_walk_plain);
                }
            }
            let result = PlistValue::Dictionary(out);
            assert(spec_no_uids(result));
            assert(spec_no_class_strings(objects@) ==> spec_no_class_keys(result));
            proof {
                assert(walked_model(result) is Dictionary);
                assert forall|k: int| 0 <= k < out@.len() implies walked_model(
                    result,
                )->Dictionary_0[k] == wentries_model(result->Dictionary_0@)[k] by {
                }
                assert(walked_model(result)->Dictionary_0 =~= wentries_model(
                    result->Dictionary_0@,
                ));
                assert(walked_model(result) == WalkedValue::Dictionary(
                    wentries_model(result->Dictionary_0@),
                ));
            }
            Ok(result)
        },
        PlistValue::Uid(u) => {
            if fuel == 0 {
                return Err(PlistParseError::UnresolvedReference(*u as usize));
            }
            let idx = *u as usize;
            if idx >= objects.len() {
                return Err(PlistParseError::NoValueAtIndex(idx));
            }
            walk_value(objects, &objects[idx], Option::None, fuel - 1)
        },
        _ => {
            let out = copy_primitive(item);
            proof {
                assert(walked_model(out) == walked_model(*item)) by {
                    match *item {
                        PlistValue::String(ref t) => {},
                        PlistValue::Data(ref d) => {
                            assert(out->Data_0@ == item->Data_0@);
                        },
                        _ => {},
                    }
                }
            }
            Ok(out)
        },
    }
}

/// Every value of a dictionary's entries is a structural part of it.
proof fn lemma_entries_sub(item: PlistValue, entries: Vec<(String, PlistValue)>)
    requires
        item == PlistValue::Dictionary(entries),
    ensures
        forall|j: int| 0 <= j < entries@.len() ==> is_sub_value(item, (#[trigger] entries@[j]).1),
{
    broadcast use vstd::std_specs::vec::group_vec_axioms;

    assert forall|j: int| 0 <= j < entries@.len() implies is_sub_value(
        item,
        (#[trigger] entries@[j]).1,
    ) by {
        assert(decreases_to!(item => item->Dictionary_0));
        assert(decreases_to!(item->Dictionary_0 => item->Dictionary_0@));
        assert(decreases_to!(item->Dictionary_0@ => item->Dictionary_0@[j]));
        assert(decreases_to!(item->Dictionary_0@[j] => item->Dictionary_0@[j].1));
        assert(item->Dictionary_0@[j].1 == entries@[j].1);
    }
}

/// Decode an `NSKeyedArchiver` property list: resolve the root object out
/// of the `$objects` table and walk it, replacing every UID reference with
/// the value it names. The result carries no UID and, when the object table
/// stores no `$class` string, no `$class` key.
pub fn parse_ns_keyed_archiver(plist: &PlistValue) -> (r: Result<PlistValue, PlistParseError>)
    ensures
        r matches Ok(v) ==> spec_no_uids(v),
        r matches Ok(v) ==> (match *plist {
            PlistValue::Dictionary(body) => match spec_dict_get(body@, "$objects"@) {
                Some(PlistValue::Array(objects)) => spec_no_class_strings(objects@)
                    ==> spec_no_class_keys(v),
                _ => true,
            },
            _ => true,
        }),
        match r {
            Ok(v) => spec_walk_archive(*plist) == Ok::<WalkedValue, PlistErrModel>(
                walked_model(v),
            ),
            Err(e) => spec_walk_archive(*plist) == Err::<WalkedValue, PlistErrModel>(
                perr_model(e),
            ),
        },
{
    let body = match plist_as_dictionary(plist) {
        Ok(d) => d,
        Err(e) => {
            return Err(e);
        },
    };
    let objects = match extract_array_key(body, "$objects") {
        Ok(a) => a,
        Err(e) => {
            return Err(e);
        },
    };
    let top = match extract_dictionary(body, "$top") {
        Ok(d) => d,
        Err(e) => {
            return Err(e);
        },
    };
    let rootv = match dict_get(top, "root") {
        Some(v) => v,
        Option::None => {
            return Err(PlistParseError::MissingKey(String::from_str("root")));
        },
    };
    let root_idx: usize = match rootv {
        PlistValue::Uid(u) => {
            if *u > usize::MAX as u64 {
                return Err(
                    PlistParseError::InvalidType(
                        String::from_str("root"),
                        String::from_str("uid"),
                    ),
                );
            }
            *u as usize
        },
        _ => {
            return Err(
                PlistParseError::InvalidType(String::from_str("root"), String::from_str("uid")),
            );
        },
    };
    if root_idx >= objects.len() {
        return Err(PlistParseError::NoValueAtIndex(root_idx));
    }
    if objects.len() >= usize::MAX {
        return Err(PlistParseError::UnresolvedReference(root_idx));
    }
    let fuel = objects.len() + 1;
    walk_value(objects, &objects[root_idx], Option::None, fuel)
}

/// Interpret a plist value as a dictionary.
pub fn plist_as_dictionary<'a>(plist: &'a PlistValue) -> (r: Result<
    &'a Vec<(String, PlistValue)>,
    PlistParseError,
>)
    ensures
        match r {
            Ok(d) => *plist == PlistValue::Dictionary(*d),
            Err(PlistParseError::InvalidType(k, w)) => k@ == "body"@ && w@ == "dictionary"@ && !(
            *plist is Dictionary),
            Err(_) => false,
        },
{
    match plist {
        PlistValue::Dictionary(d) => Ok(d),
        _ => Err(
            PlistParseError::InvalidType(String::from_str("body"), String::from_str("dictionary")),
        ),
    }
}

/// Extract the dictionary stored under `key`.
pub fn extract_dictionary<'a>(body: &'a Vec<(String, PlistValue)>, key: &str) -> (r: Result<
    &'a Vec<(String, PlistValue)>,
    PlistParseError,
>)
    ensures
        match r {
            Ok(d) => spec_dict_get(body@, key@) == Some(PlistValue::Dictionary(*d)),
            Err(PlistParseError::MissingKey(k)) => k@ == key@ && spec_dict_get(
                body@,
                key@,
            ) is None,
            Err(PlistParseError::InvalidType(k, w)) => w@ == "dictionary"@ && k@ == key@ && match spec_dict_get(
                body@,
                key@,
            ) {
                Some(v) => !(v is Dictionary),
                None => false,
            },
            Err(_) => false,
        },
{
    match dict_get(body, key) {
        Some(PlistValue::Dictionary(d)) => Ok(d),
        Some(_) => Err(
            PlistParseError::InvalidType(
                crate::text::string_from_chars(crate::text::chars_of(key).as_slice()),
                String::from_str("dictionary"),
            ),
        ),
        Option::None => Err(
            PlistParseError::MissingKey(
                crate::text::string_from_chars(crate::text::chars_of(key).as_slice()),
            ),
        ),
    }
}

/// Extract the array stored under `key`.
pub fn extract_array_key<'a>(body: &'a Vec<(String, PlistValue)>, key: &str) -> (r: Result<
    &'a Vec<PlistValue>,
    PlistParseError,
>)
    ensures
        match r {
            Ok(a) => spec_dict_get(body@, key@) == Some(PlistValue::Array(*a)),
            Err(PlistParseError::MissingKey(k)) => k@ == key@ && spec_dict_get(
                body@,
                key@,
            ) is None,
            Err(PlistParseError::InvalidType(k, w)) => w@ == "array"@ && k@ == key@ && match spec_dict_get(
                body@,
                key@,
            ) {
                Some(v) => !(v is Array),
                None => false,
            },
            Err(_) => false,
        },
{
    match dict_get(body, key) {
        Some(PlistValue::Array(a)) => Ok(a),
        Some(_) => Err(
            PlistParseError::InvalidType(
                crate::text::string_from_chars(crate::text::chars_of(key).as_slice()),
                String::from_str("array"),
            ),
        ),
        Option::None => Err(
            PlistParseError::MissingKey(
                crate::text::string_from_chars(crate::text::chars_of(key).as_slice()),
            ),
        ),
    }
}

/// Extract the UID stored under `key`.
fn extract_uid_key(body: &Vec<(String, PlistValue)>, key: &str) -> (r: Result<
    usize,
    PlistParseError,
>)
    ensures
        match r {
            Ok(u) => spec_dict_get(body@, key@) == Some(PlistValue::Uid(u as u64)),
            Err(PlistParseError::MissingKey(k)) => k@ == key@ && spec_dict_get(
                body@,
                key@,
            ) is None,
            Err(PlistParseError::InvalidType(k, w)) => w@ == "uid"@ && k@ == key@ && match spec_dict_get(
                body@,
                key@,
            ) {
                Some(v) => !(v is Uid) || v->Uid_0 > usize::MAX,
                None => false,
            },
            Err(_) => false,
        },
{
    match dict_get(body, key) {
        Some(PlistValue::Uid(u)) => {
            let v = *u;
            if v > usize::MAX as u64 {
                return Err(
                    PlistParseError::InvalidType(
                        crate::text::string_from_chars(crate::text::chars_of(key).as_slice()),
                        String::from_str("uid"),
                    ),
                );
            }
            Ok(v as usize)
        },
        Some(_) => Err(
            PlistParseError::InvalidType(
                crate::text::string_from_chars(crate::text::chars_of(key).as_slice()),
                String::from_str("uid"),
            ),
        ),
        Option::None => Err(
            PlistParseError::MissingKey(
                crate::text::string_from_chars(crate::text::chars_of(key).as_slice()),
            ),
        ),
    }
}

/// Extract the byte run stored under `key`.
pub fn extract_bytes_key<'a>(body: &'a Vec<(String, PlistValue)>, key: &str) -> (r: Result<
    &'a Vec<u8>,
    PlistParseError,
>)
    ensures
        match r {
            Ok(d) => spec_dict_get(body@, key@) == Some(PlistValue::Data(*d)),
            Err(PlistParseError::MissingKey(k)) => k@ == key@ && spec_dict_get(
                body@,
                key@,
            ) is None,
            Err(PlistParseError::InvalidType(k, w)) => w@ == "data"@ && k@ == key@ && match spec_dict_get(
                body@,
                key@,
            ) {
                Some(v) => !(v is Data),
                None => false,
            },
            Err(_) => false,
        },
{
    match dict_get(body, key) {
        Some(PlistValue::Data(d)) => Ok(d),
        Some(_) => Err(
            PlistParseError::InvalidType(
                crate::text::string_from_chars(crate::text::chars_of(key).as_slice()),
                String::from_str("data"),
            ),
        ),
        Option::None => Err(
            PlistParseError::MissingKey(
                crate::text::string_from_chars(crate::text::chars_of(key).as_slice()),
            ),
        ),
    }
}

/// Extract the integer stored under `key`: a plain integer, or the
/// truncated value of a real, the two numeric shapes the edit records
/// store their dates in.
pub fn extract_int_key(body: &Vec<(String, PlistValue)>, key: &str) -> (r: Result<
    i64,
    PlistParseError,
>)
    ensures
        match r {
            Ok(v) => spec_dict_get(body@, key@) == Some(PlistValue::Real(v)) || spec_dict_get(
                body@,
                key@,
            ) == Some(PlistValue::Integer(v)),
            Err(PlistParseError::MissingKey(k)) => k@ == key@ && spec_dict_get(
                body@,
                key@,
            ) is None,
            Err(PlistParseError::InvalidType(k, w)) => w@ == "int"@ && k@ == key@ && match spec_dict_get(
                body@,
                key@,
            ) {
                Some(v) => !(v is Real) && !(v is Integer),
                None => false,
            },
            Err(_) => false,
        },
{
    match dict_get(body, key) {
        Some(PlistValue::Real(v)) => Ok(*v),
        Some(PlistValue::Integer(v)) => Ok(*v),
        Some(_) => Err(
            PlistParseError::InvalidType(
                crate::text::string_from_chars(crate::text::chars_of(key).as_slice()),
                String::from_str("int"),
            ),
        ),
        Option::None => Err(
            PlistParseError::MissingKey(
                crate::text::string_from_chars(crate::text::chars_of(key).as_slice()),
            ),
        ),
    }
}

/// The string stored under `key`, when it is present and non-empty.
pub fn get_string_from_dict<'a>(payload: &'a PlistValue, key: &str) -> (r: Option<&'a String>)
    ensures
        match r {
            Some(s) => s@.len() > 0 && match *payload {
                PlistValue::Dictionary(d) => spec_dict_get(d@, key@) == Some(
                    PlistValue::String(*s),
                ),
                _ => false,
            },
            None => match *payload {
                PlistValue::Dictionary(d) => match spec_dict_get(d@, key@) {
                    Some(PlistValue::String(s)) => s@.len() == 0,
                    Some(_) => true,
                    Option::None => true,
                },
                _ => true,
            },
        },
{
    if let PlistValue::Dictionary(d) = payload {
        if let Some(PlistValue::String(s)) = dict_get(d, key) {
            if s.as_str().unicode_len() > 0 {
                return Some(s);
            }
        }
    }
    Option::None
}

/// The value stored under `key`.
pub fn get_value_from_dict<'a>(payload: &'a PlistValue, key: &str) -> (r: Option<&'a PlistValue>)
    ensures
        match r {
            Some(v) => match *payload {
                PlistValue::Dictionary(d) => spec_dict_get(d@, key@) == Some(*v),
                _ => false,
            },
            None => match *payload {
                PlistValue::Dictionary(d) => spec_dict_get(d@, key@) is None,
                _ => true,
            },
        },
{
    if let PlistValue::Dictionary(d) = payload {
        return dict_get(d, key);
    }
    Option::None
}

/// The boolean stored under `key`.
pub fn get_bool_from_dict(payload: &PlistValue, key: &str) -> (r: Option<bool>)
    ensures
        match r {
            Some(b) => match *payload {
                PlistValue::Dictionary(d) => spec_dict_get(d@, key@) == Some(
                    PlistValue::Boolean(b),
                ),
                _ => false,
            },
            None => match *payload {
                PlistValue::Dictionary(d) => match spec_dict_get(d@, key@) {
                    Some(v) => !(v is Boolean),
                    Option::None => true,
                },
                _ => true,
            },
        },
{
    if let PlistValue::Dictionary(d) = payload {
        if let Some(PlistValue::Boolean(b)) = dict_get(d, key) {
            return Some(*b);
        }
    }
    Option::None
}

/// The non-empty string stored under `key` of the dictionary stored under
/// the same `key`.
pub fn get_string_from_nested_dict<'a>(payload: &'a PlistValue, key: &str) -> (r: Option<
    &'a String,
>)
    ensures
        match r {
            Some(s) => s@.len() > 0,
            None => true,
        },
{
    if let PlistValue::Dictionary(d) = payload {
        if let Some(PlistValue::Dictionary(inner)) = dict_get(d, key) {
            if let Some(PlistValue::String(s)) = dict_get(inner, key) {
                if s.as_str().unicode_len() > 0 {
                    return Some(s);
                }
            }
        }
    }
    Option::None
}

} // verus!
