//! The log as records of a tree.
//!
//! An entry is kept under the eight bytes of its index, most significant
//! first, so that the tree's order of keys is the order of indexes: a scan
//! walks the log in order, and a prefix or a suffix of the log is one range of
//! keys.
use vstd::prelude::*;

use crate::consensus::Entry;
use crate::consensus::EntryView;
use crate::consensus::LogId;
use crate::store::error::ErrorSubject;
use crate::store::error::StorageError;
use crate::store::tree::is_last_key;
use crate::store::tree::is_scan;
use crate::store::tree::key_above;
use crate::store::tree::key_below;
use crate::store::tree::key_lt;
use crate::store::tree::limit_model;
use crate::store::tree::record_models;
use crate::store::tree::tree_database;
use crate::store::tree::tree_name;
use crate::store::tree::tree_range;
use crate::store::tree::tree_records;
use crate::store::tree::tree_remove;
use crate::store::tree::Limit;
use crate::wire::be_bytes;
use crate::wire::from_bytes;
use crate::wire::lemma_be_bytes_of_value;
use crate::wire::lemma_be_bytes_order;
use crate::wire::lemma_be_value_of_bytes;
use crate::wire::parse;
use crate::wire::to_bytes;
use crate::wire::Wire;

verus! {

/// What a tree holds: keys with their values.
pub type Records = Map<Seq<u8>, Seq<u8>>;

/// The key of the entry with the given index.
pub open spec fn index_key(index: u64) -> Seq<u8> {
    be_bytes(index)
}

/// Whether `index` lies between `lo` and `hi`.
pub open spec fn index_within(index: u64, lo: Limit<u64>, hi: Limit<u64>) -> bool {
    &&& match lo {
        Limit::Included(b) => b <= index,
        Limit::Excluded(b) => b < index,
        Limit::Unbounded => true,
    }
    &&& match hi {
        Limit::Included(b) => index <= b,
        Limit::Excluded(b) => index < b,
        Limit::Unbounded => true,
    }
}

/// The limit on keys that stands for a limit on indexes.
pub open spec fn key_limit(limit: Limit<u64>) -> Limit<Seq<u8>> {
    match limit {
        Limit::Included(index) => Limit::Included(index_key(index)),
        Limit::Excluded(index) => Limit::Excluded(index_key(index)),
        Limit::Unbounded => Limit::Unbounded,
    }
}

/// Whether a record is one that the log writes: the form of an entry under the
/// key of that entry's index.
pub open spec fn is_entry_record(key: Seq<u8>, value: Seq<u8>) -> bool {
    parse::<Entry>(value) matches Some(entry) && key == index_key(entry.log_id.index)
}

/// The entry that the log holds at `index`, if it holds a well-formed one.
pub open spec fn entry_at(records: Records, index: u64) -> Option<EntryView> {
    if records.contains_key(index_key(index)) && is_entry_record(
        index_key(index),
        records[index_key(index)],
    ) {
        parse::<Entry>(records[index_key(index)])
    } else {
        None
    }
}

/// Whether `entries` lists the log between `lo` and `hi`: every entry in it is
/// held by the log and lies in the range, the indexes ascend, and no index of
/// the range that the log holds is missing.
pub open spec fn is_listing(
    records: Records,
    lo: Limit<u64>,
    hi: Limit<u64>,
    entries: Seq<EntryView>,
) -> bool {
    &&& forall|i: int|
        0 <= i < entries.len() ==> {
            &&& index_within((#[trigger] entries[i]).log_id.index, lo, hi)
            &&& entry_at(records, entries[i].log_id.index) == Some(entries[i])
        }
    &&& forall|i: int, j: int|
        0 <= i < j < entries.len() ==> (#[trigger] entries[i]).log_id.index < (
        #[trigger] entries[j]).log_id.index
    &&& forall|index: u64|
        index_within(index, lo, hi) && #[trigger] records.contains_key(index_key(index))
            ==> exists|i: int|
            0 <= i < entries.len() && (#[trigger] entries[i]).log_id.index == index
}

/// Whether the log holds, between `lo` and `hi`, a record that it does not
/// write itself.
pub open spec fn has_malformed_record(records: Records, lo: Limit<u64>, hi: Limit<u64>) -> bool {
    exists|key: Seq<u8>|
        #[trigger] records.contains_key(key) && key_above(key, key_limit(lo)) && key_below(
            key,
            key_limit(hi),
        ) && !is_entry_record(key, records[key])
}

/// Whether the record under the log's greatest key is one that the log does
/// not write itself.
pub open spec fn has_malformed_last_record(records: Records) -> bool {
    exists|key: Seq<u8>| #[trigger] is_last_key(records, key) && !is_entry_record(key, records[key])
}

/// The records of a log after `entries` have been appended, first to last. An
/// entry takes the place of the one that the log held at its index.
pub open spec fn appended(records: Records, entries: Seq<EntryView>) -> Records
    decreases entries.len(),
{
    if entries.len() == 0 {
        records
    } else {
        appended(records, entries.drop_last()).insert(
            index_key(entries.last().log_id.index),
            Entry::form(entries.last()),
        )
    }
}

/// The records of a log without those from `index` on.
pub open spec fn without_suffix(records: Records, index: u64) -> Records {
    records.restrict(Set::new(|key: Seq<u8>| !key_above(key, Limit::Included(index_key(index)))))
}

/// The records of a log without those up to `index`, `index` included.
pub open spec fn without_prefix(records: Records, index: u64) -> Records {
    records.restrict(Set::new(|key: Seq<u8>| !key_below(key, Limit::Included(index_key(index)))))
}

/// Whether `last` is the id of the log's last entry: of the entry under the
/// greatest key, or none for a log without records.
pub open spec fn is_last_log_id(records: Records, last: Option<LogId>) -> bool {
    match last {
        Some(id) => {
            &&& is_last_key(records, index_key(id.index))
            &&& entry_at(records, id.index) matches Some(entry)
            &&& entry.log_id == id
        },
        None => forall|key: Seq<u8>| !records.contains_key(key),
    }
}

/// The records without those whose key lies between `lo` and `hi`.
pub open spec fn without_range(records: Records, lo: Limit<Seq<u8>>, hi: Limit<Seq<u8>>) -> Records {
    records.restrict(Set::new(|key: Seq<u8>| !(key_above(key, lo) && key_below(key, hi))))
}

/// The keys of the first `count` of `items`.
pub open spec fn leading_keys(items: Seq<(Seq<u8>, Seq<u8>)>, count: int) -> Set<Seq<u8>> {
    Set::new(|key: Seq<u8>| exists|j: int| 0 <= j < count && (#[trigger] items[j]).0 == key)
}

/// Removes from `tree` every record whose key lies between `lo` and `hi`: scans
/// the range, then removes key by key. Where the tree fails on the way, the
/// error comes back and nothing is known of which keys are gone.
pub(crate) fn remove_range(tree: &mut sled::Tree, lo: Limit<Vec<u8>>, hi: Limit<Vec<u8>>) -> (r: Result<
    (),
    sled::Error,
>)
    ensures
        tree_database(*final(tree)) == tree_database(*old(tree)),
        tree_name(*final(tree)) == tree_name(*old(tree)),
        r is Ok ==> tree_records(*final(tree)) == without_range(
            tree_records(*old(tree)),
            limit_model(lo),
            limit_model(hi),
        ),
{
    let ghost before = tree_records(*tree);
    let ghost lo_model = limit_model(lo);
    let ghost hi_model = limit_model(hi);
    let items = match tree_range(tree, lo, hi) {
        Ok(items) => items,
        Err(e) => {
            return Err(e);
        },
    };
    let ghost scanned = record_models(items@);
    let mut i: usize = 0;
    assert(before.remove_keys(leading_keys(scanned, 0)) =~= before);
    while i < items.len()
        invariant
            i <= items@.len(),
            scanned == record_models(items@),
            tree_database(*tree) == tree_database(*old(tree)),
            tree_name(*tree) == tree_name(*old(tree)),
            tree_records(*tree) == before.remove_keys(leading_keys(scanned, i as int)),
        decreases items@.len() - i,
    {
        match tree_remove(tree, &items[i].0) {
            Ok(_) => {},
            Err(e) => {
                return Err(e);
            },
        }
        proof {
            let key = scanned[i as int].0;
            assert(key == items@[i as int].0@);
            assert(leading_keys(scanned, i + 1) =~= leading_keys(scanned, i as int).insert(key));
            assert(before.remove_keys(leading_keys(scanned, i as int)).remove(key)
                =~= before.remove_keys(leading_keys(scanned, i + 1)));
        }
        i = i + 1;
    }
    proof {
        let gone = leading_keys(scanned, items@.len() as int);
        assert forall|key: Seq<u8>| #[trigger] before.contains_key(key) implies (gone.contains(key)
            <==> key_above(key, lo_model) && key_below(key, hi_model)) by {
            if gone.contains(key) {
                let j = choose|j: int| 0 <= j < items@.len() && (#[trigger] scanned[j]).0 == key;
                assert(key_above(scanned[j].0, lo_model));
            }
        }
        assert(before.remove_keys(gone) =~= without_range(before, lo_model, hi_model));
    }
    Ok(())
}

/// The key of the entry with the given index.
pub fn index_key_bytes(index: u64) -> (key: Vec<u8>)
    ensures
        key@ == index_key(index),
{
    to_bytes(&index)
}

/// The limit on keys that stands for a limit on indexes.
pub fn key_limit_bytes(limit: &Limit<u64>) -> (r: Limit<Vec<u8>>)
    ensures
        crate::store::tree::limit_model(r) == key_limit(*limit),
{
    match limit {
        Limit::Included(index) => Limit::Included(index_key_bytes(*index)),
        Limit::Excluded(index) => Limit::Excluded(index_key_bytes(*index)),
        Limit::Unbounded => Limit::Unbounded,
    }
}

/// Reads one record of the log. Fails where the record is not one that the log
/// writes.
pub fn decode_entry_record(key: &Vec<u8>, value: &Vec<u8>) -> (r: Option<Entry>)
    ensures
        match r {
            Some(entry) => is_entry_record(key@, value@) && parse::<Entry>(value@) == Some(
                entry@,
            ),
            None => !is_entry_record(key@, value@),
        },
{
    match from_bytes::<Entry>(value.as_slice()) {
        None => None,
        Some(entry) => {
            proof {
                lemma_be_value_of_bytes(entry.log_id.index);
            }
            if key.len() != 8 {
                return None;
            }
            assert(key@.skip(0) =~= key@);
            assert(key@.take(8) =~= key@);
            match u64::decode(key.as_slice(), 0) {
                None => None,
                Some((index, _)) => {
                    proof {
                        lemma_be_bytes_of_value(key@);
                    }
                    if index == entry.log_id.index {
                        Some(entry)
                    } else {
                        None
                    }
                },
            }
        },
    }
}

/// Reads the records that a scan of the log returned. Succeeds where each of
/// them is a record that the log writes, and then returns their entries in the
/// order of the scan.
pub fn decode_entry_records(items: &Vec<(Vec<u8>, Vec<u8>)>) -> (r: Result<
    Vec<Entry>,
    StorageError,
>)
    ensures
        match r {
            Ok(entries) => {
                &&& entries@.len() == items@.len()
                &&& forall|i: int|
                    0 <= i < items@.len() ==> {
                        &&& is_entry_record((#[trigger] items@[i]).0@, items@[i].1@)
                        &&& parse::<Entry>(items@[i].1@) == Some(entries@[i]@)
                    }
            },
            Err(e) => {
                &&& e == (StorageError::Malformed { subject: ErrorSubject::Logs })
                &&& exists|i: int|
                    0 <= i < items@.len() && !is_entry_record((#[trigger] items@[i]).0@, items@[i].1@)
            },
        },
{
    let mut entries: Vec<Entry> = Vec::new();
    let mut i: usize = 0;
    while i < items.len()
        invariant
            i <= items@.len(),
            entries@.len() == i,
            forall|j: int|
                0 <= j < i ==> {
                    &&& is_entry_record((#[trigger] items@[j]).0@, items@[j].1@)
                    &&& parse::<Entry>(items@[j].1@) == Some(entries@[j]@)
                },
        decreases items@.len() - i,
    {
        match decode_entry_record(&items[i].0, &items[i].1) {
            None => {
                return Err(StorageError::Malformed { subject: ErrorSubject::Logs });
            },
            Some(entry) => {
                entries.push(entry);
            },
        }
        i = i + 1;
    }
    Ok(entries)
}

/// A scan of the keys between two indexes, read as entries, lists the log
/// between those indexes.
pub proof fn lemma_scan_is_listing(
    records: Records,
    lo: Limit<u64>,
    hi: Limit<u64>,
    items: Seq<(Seq<u8>, Seq<u8>)>,
    entries: Seq<EntryView>,
)
    requires
        is_scan(records, key_limit(lo), key_limit(hi), items),
        entries.len() == items.len(),
        forall|i: int|
            0 <= i < items.len() ==> {
                &&& is_entry_record((#[trigger] items[i]).0, items[i].1)
                &&& parse::<Entry>(items[i].1) == Some(entries[i])
            },
    ensures
        is_listing(records, lo, hi, entries),
        !has_malformed_record(records, lo, hi),
{
    assert forall|key: Seq<u8>|
        #[trigger] records.contains_key(key) && key_above(key, key_limit(lo)) && key_below(
            key,
            key_limit(hi),
        ) implies is_entry_record(key, records[key]) by {
        let i = choose|i: int| 0 <= i < items.len() && (#[trigger] items[i]).0 == key;
        assert(records.contains_pair(items[i].0, items[i].1));
    }
    assert forall|i: int| 0 <= i < entries.len() implies {
        &&& index_within((#[trigger] entries[i]).log_id.index, lo, hi)
        &&& entry_at(records, entries[i].log_id.index) == Some(entries[i])
    } by {
        let index = entries[i].log_id.index;
        assert(items[i].0 == index_key(index));
        assert(records.contains_pair(items[i].0, items[i].1));
        lemma_key_limits(index, lo, hi);
    }
    assert forall|i: int, j: int| 0 <= i < j < entries.len() implies (
    #[trigger] entries[i]).log_id.index < (#[trigger] entries[j]).log_id.index by {
        assert(key_lt(items[i].0, items[j].0));
        lemma_be_bytes_order(entries[i].log_id.index, entries[j].log_id.index);
    }
    assert forall|index: u64|
        index_within(index, lo, hi) && #[trigger] records.contains_key(
            index_key(index),
        ) implies exists|i: int|
        0 <= i < entries.len() && (#[trigger] entries[i]).log_id.index == index by {
        lemma_key_limits(index, lo, hi);
        let i = choose|i: int| 0 <= i < items.len() && (#[trigger] items[i]).0 == index_key(index);
        lemma_be_bytes_order(entries[i].log_id.index, index);
        assert(entries[i].log_id.index == index);
    }
}

/// An index lies within limits exactly where its key lies within the limits'
/// keys.
pub proof fn lemma_key_limits(index: u64, lo: Limit<u64>, hi: Limit<u64>)
    ensures
        index_within(index, lo, hi) <==> key_above(index_key(index), key_limit(lo)) && key_below(
            index_key(index),
            key_limit(hi),
        ),
{
    match lo {
        Limit::Included(b) => lemma_be_bytes_order(b, index),
        Limit::Excluded(b) => lemma_be_bytes_order(b, index),
        Limit::Unbounded => {},
    }
    match hi {
        Limit::Included(b) => lemma_be_bytes_order(index, b),
        Limit::Excluded(b) => lemma_be_bytes_order(index, b),
        Limit::Unbounded => {},
    }
}

/// No key comes before itself, and of two keys at most one comes before the
/// other.
pub proof fn lemma_key_lt_is_strict(a: Seq<u8>, b: Seq<u8>)
    ensures
        !key_lt(a, a),
        !(key_lt(a, b) && key_lt(b, a)),
    decreases a.len(),
{
    if a.len() > 0 {
        lemma_key_lt_is_strict(a.skip(1), a.skip(1));
        if b.len() > 0 {
            lemma_key_lt_is_strict(a.skip(1), b.skip(1));
        }
    }
}

/// A tree has at most one greatest key.
pub proof fn lemma_last_key_is_unique(records: Records, a: Seq<u8>, b: Seq<u8>)
    requires
        is_last_key(records, a),
        is_last_key(records, b),
    ensures
        a == b,
{
    lemma_key_lt_is_strict(a, b);
}

} // verus!
