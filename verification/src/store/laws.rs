//! What holds of the log whatever is appended, deleted or purged.
//!
//! Each statement here speaks of the records that the store's operations leave
//! behind, as their contracts describe them, and of any listing that a read of
//! those records may return.
use vstd::prelude::*;

use crate::consensus::Entry;
use crate::consensus::EntryView;
use crate::consensus::LogId;
use crate::consensus::Vote;
use crate::store::file_store::last_log_id_of;
use crate::store::file_store::last_purged_key;
use crate::store::file_store::stored;
use crate::store::file_store::vote_key;
use crate::store::log::appended;
use crate::store::log::entry_at;
use crate::store::log::index_key;
use crate::store::log::is_last_log_id;
use crate::store::log::is_listing;
use crate::store::log::lemma_key_lt_is_strict;
use crate::store::log::without_prefix;
use crate::store::log::without_suffix;
use crate::store::log::Records;
use crate::store::state_machine::StateMachineView;
use crate::store::state_machine::StorageNodeStoreStateMachine;
use crate::store::tree::Limit;
use crate::wire::lemma_be_bytes_order;
use crate::wire::lemma_parse_form;
use crate::wire::parse;
use crate::wire::Wire;

verus! {

/// Whether the indexes of `entries` ascend.
pub open spec fn ascending(entries: Seq<EntryView>) -> bool {
    forall|i: int, j: int|
        0 <= i < j < entries.len() ==> (#[trigger] entries[i]).log_id.index < (
        #[trigger] entries[j]).log_id.index
}

/// Whether every entry of `entries` has a byte form.
pub open spec fn all_fit(entries: Seq<EntryView>) -> bool {
    forall|i: int| 0 <= i < entries.len() ==> Entry::fits(#[trigger] entries[i])
}

/// After an append, the log holds at each index the last entry appended with
/// that index, and what it held before at every other index.
pub proof fn lemma_appended_entry_at(records: Records, entries: Seq<EntryView>, index: u64)
    requires
        all_fit(entries),
    ensures
        (exists|i: int| 0 <= i < entries.len() && (#[trigger] entries[i]).log_id.index == index)
            ==> exists|i: int|
            0 <= i < entries.len() && (#[trigger] entries[i]).log_id.index == index && entry_at(
                appended(records, entries),
                index,
            ) == Some(entries[i]),
        (forall|i: int| 0 <= i < entries.len() ==> (#[trigger] entries[i]).log_id.index != index)
            ==> {
            &&& appended(records, entries).contains_key(index_key(index)) == records.contains_key(
                index_key(index),
            )
            &&& entry_at(appended(records, entries), index) == entry_at(records, index)
        },
    decreases entries.len(),
{
    if entries.len() > 0 {
        let front = entries.drop_last();
        let last = entries.last();
        assert(all_fit(front)) by {
            assert forall|i: int| 0 <= i < front.len() implies Entry::fits(#[trigger] front[i]) by {
                assert(front[i] == entries[i]);
            }
        }
        lemma_appended_entry_at(records, front, index);
        lemma_be_bytes_order(last.log_id.index, index);
        if last.log_id.index == index {
            assert(Entry::fits(entries[entries.len() - 1]));
            lemma_parse_form::<Entry>(last);
            assert(entries[entries.len() - 1].log_id.index == index);
        } else {
            if exists|i: int|
                0 <= i < entries.len() && (#[trigger] entries[i]).log_id.index == index {
                let i = choose|i: int|
                    0 <= i < entries.len() && (#[trigger] entries[i]).log_id.index == index;
                assert(front[i] == entries[i]);
                let j = choose|j: int|
                    0 <= j < front.len() && (#[trigger] front[j]).log_id.index == index
                        && entry_at(appended(records, front), index) == Some(front[j]);
                assert(entries[j] == front[j]);
            } else {
                assert forall|i: int| 0 <= i < front.len() implies (
                #[trigger] front[i]).log_id.index != index by {
                    assert(front[i] == entries[i]);
                }
            }
        }
    }
}

/// The indexes of `entries`, in their order.
pub open spec fn indexes(entries: Seq<EntryView>) -> Seq<u64> {
    Seq::new(entries.len(), |i: int| entries[i].log_id.index)
}

/// Whether the numbers of `s` ascend.
pub open spec fn rising(s: Seq<u64>) -> bool {
    forall|i: int, j: int| 0 <= i < j < s.len() ==> s[i] < s[j]
}

/// Two ascending sequences that hold the same numbers are one sequence.
proof fn lemma_rising_unique(a: Seq<u64>, b: Seq<u64>)
    requires
        rising(a),
        rising(b),
        forall|x: u64| a.contains(x) <==> b.contains(x),
    ensures
        a == b,
    decreases a.len(),
{
    if a.len() == 0 {
        if b.len() > 0 {
            assert(b.contains(b[0]));
            assert(a.contains(b[0]));
        }
        assert(a =~= b);
    } else if b.len() == 0 {
        assert(a.contains(a[0]));
        assert(b.contains(a[0]));
    } else {
        let top_a = a.last();
        let top_b = b.last();
        assert(a.contains(top_a));
        assert(b.contains(top_b));
        assert(b.contains(top_a));
        assert(a.contains(top_b));
        let ia = choose|i: int| 0 <= i < a.len() && a[i] == top_b;
        let ib = choose|i: int| 0 <= i < b.len() && b[i] == top_a;
        assert(top_a == top_b);
        let a_front = a.drop_last();
        let b_front = b.drop_last();
        assert forall|x: u64| a_front.contains(x) <==> b_front.contains(x) by {
            if a_front.contains(x) {
                let i = choose|i: int| 0 <= i < a_front.len() && a_front[i] == x;
                assert(a[i] == x);
                assert(a.contains(x));
                assert(b.contains(x));
                let j = choose|j: int| 0 <= j < b.len() && b[j] == x;
                assert(j < b.len() - 1);
                assert(b_front[j] == x);
            }
            if b_front.contains(x) {
                let j = choose|j: int| 0 <= j < b_front.len() && b_front[j] == x;
                assert(b[j] == x);
                assert(b.contains(x));
                assert(a.contains(x));
                let i = choose|i: int| 0 <= i < a.len() && a[i] == x;
                assert(i < a.len() - 1);
                assert(a_front[i] == x);
            }
        }
        assert(rising(a_front)) by {
            assert forall|i: int, j: int| 0 <= i < j < a_front.len() implies a_front[i]
                < a_front[j] by {
                assert(a_front[i] == a[i] && a_front[j] == a[j]);
            }
        }
        assert(rising(b_front)) by {
            assert forall|i: int, j: int| 0 <= i < j < b_front.len() implies b_front[i]
                < b_front[j] by {
                assert(b_front[i] == b[i] && b_front[j] == b[j]);
            }
        }
        lemma_rising_unique(a_front, b_front);
        assert(a =~= a_front.push(top_a));
        assert(b =~= b_front.push(top_b));
    }
}

/// Reading the whole of a log that was empty before `entries` were appended in
/// ascending order of index gives `entries` back: the same entries, in the
/// same order, none missing and none added.
pub proof fn lemma_read_after_append(entries: Seq<EntryView>, listing: Seq<EntryView>)
    requires
        all_fit(entries),
        ascending(entries),
        is_listing(
            appended(Map::empty(), entries),
            Limit::Unbounded,
            Limit::Unbounded,
            listing,
        ),
    ensures
        listing == entries,
{
    let records = appended(Map::<Seq<u8>, Seq<u8>>::empty(), entries);
    let a = indexes(entries);
    let b = indexes(listing);
    assert(rising(a)) by {
        assert forall|i: int, j: int| 0 <= i < j < a.len() implies a[i] < a[j] by {
            assert(entries[i].log_id.index < entries[j].log_id.index);
        }
    }
    assert(rising(b)) by {
        assert forall|i: int, j: int| 0 <= i < j < b.len() implies b[i] < b[j] by {
            assert(listing[i].log_id.index < listing[j].log_id.index);
        }
    }
    assert forall|x: u64| a.contains(x) <==> b.contains(x) by {
        lemma_appended_entry_at(Map::empty(), entries, x);
        if a.contains(x) {
            let i = choose|i: int| 0 <= i < a.len() && a[i] == x;
            assert(entries[i].log_id.index == x);
            assert(records.contains_key(index_key(x)));
            let j = choose|j: int|
                0 <= j < listing.len() && (#[trigger] listing[j]).log_id.index == x;
            assert(b[j] == x);
        }
        if b.contains(x) {
            let j = choose|j: int| 0 <= j < b.len() && b[j] == x;
            assert(listing[j].log_id.index == x);
            assert(entry_at(records, x) == Some(listing[j]));
            if forall|i: int|
                0 <= i < entries.len() ==> (#[trigger] entries[i]).log_id.index != x {
                assert(entry_at(records, x) == entry_at(Map::<Seq<u8>, Seq<u8>>::empty(), x));
            }
            let i = choose|i: int|
                0 <= i < entries.len() && (#[trigger] entries[i]).log_id.index == x;
            assert(a[i] == x);
        }
    }
    lemma_rising_unique(a, b);
    assert(entries.len() == listing.len());
    assert forall|i: int| 0 <= i < entries.len() implies entries[i] == listing[i] by {
        let x = entries[i].log_id.index;
        assert(a[i] == x && b[i] == x);
        lemma_appended_entry_at(Map::empty(), entries, x);
        let k = choose|k: int|
            0 <= k < entries.len() && (#[trigger] entries[k]).log_id.index == x && entry_at(
                records,
                x,
            ) == Some(entries[k]);
        if k < i {
            assert(entries[k].log_id.index < entries[i].log_id.index);
        }
        if i < k {
            assert(entries[i].log_id.index < entries[k].log_id.index);
        }
        assert(entry_at(records, listing[i].log_id.index) == Some(listing[i]));
    }
    assert(listing =~= entries);
}

/// Deleting the log from `index` on removes every entry with that index or a
/// greater one, and leaves every entry with a smaller index as it was.
pub proof fn lemma_delete_conflict_logs(records: Records, index: u64, other: u64)
    ensures
        other >= index ==> !without_suffix(records, index).contains_key(index_key(other)),
        other >= index ==> entry_at(without_suffix(records, index), other) is None,
        other < index ==> without_suffix(records, index).contains_key(index_key(other))
            == records.contains_key(index_key(other)),
        other < index ==> entry_at(without_suffix(records, index), other) == entry_at(
            records,
            other,
        ),
{
    lemma_be_bytes_order(index, other);
    lemma_be_bytes_order(other, index);
    lemma_key_lt_is_strict(index_key(index), index_key(other));
}

/// Purging the log up to `index` removes every entry with that index or a
/// smaller one, leaves every entry with a greater index as it was, and a read
/// of the log up to `index` returns nothing.
pub proof fn lemma_purge_logs(records: Records, index: u64, other: u64, listing: Seq<EntryView>)
    requires
        is_listing(
            without_prefix(records, index),
            Limit::Unbounded,
            Limit::Included(index),
            listing,
        ),
    ensures
        other <= index ==> !without_prefix(records, index).contains_key(index_key(other)),
        other > index ==> entry_at(without_prefix(records, index), other) == entry_at(
            records,
            other,
        ),
        listing.len() == 0,
{
    lemma_be_bytes_order(index, other);
    lemma_be_bytes_order(other, index);
    lemma_key_lt_is_strict(index_key(index), index_key(other));
    if listing.len() > 0 {
        let first = listing[0].log_id.index;
        lemma_be_bytes_order(first, index);
        lemma_be_bytes_order(index, first);
        assert(entry_at(without_prefix(records, index), first) == Some(listing[0]));
    }
}

/// Once the last purged id is kept, the store reports it: as the last id
/// purged and, where the log holds no entry, as the last log id too.
pub proof fn lemma_log_state_after_purge(meta: Records, log: Records, log_id: LogId)
    ensures
        stored::<LogId>(meta.insert(last_purged_key(), LogId::form(log_id)), last_purged_key())
            == Some(log_id),
        is_last_log_id(log, None) ==> last_log_id_of(
            None,
            stored::<LogId>(
                meta.insert(last_purged_key(), LogId::form(log_id)),
                last_purged_key(),
            ),
        ) == Some(log_id),
        stored::<Vote>(meta.insert(last_purged_key(), LogId::form(log_id)), vote_key()) == stored::<
            Vote,
        >(meta, vote_key()),
{
    lemma_parse_form::<LogId>(log_id);
    assert(vote_key().len() != last_purged_key().len());
}

/// A vote that was saved is the vote that is read, and saving it leaves the
/// last purged id alone.
pub proof fn lemma_vote_after_save(meta: Records, vote: Vote)
    ensures
        stored::<Vote>(meta.insert(vote_key(), Vote::form(vote)), vote_key()) == Some(vote),
        stored::<LogId>(meta.insert(vote_key(), Vote::form(vote)), last_purged_key()) == stored::<
            LogId,
        >(meta, last_purged_key()),
{
    lemma_parse_form::<Vote>(vote);
    assert(vote_key().len() != last_purged_key().len());
}

/// A snapshot carries the state machine across: the bytes that one store puts
/// into a snapshot are read by the store that installs it as the state machine
/// they were built from, with its last applied entry, its membership and the
/// ids of its objects.
pub proof fn lemma_snapshot_round_trip(state: StateMachineView)
    requires
        StorageNodeStoreStateMachine::fits(state),
    ensures
        parse::<StorageNodeStoreStateMachine>(StorageNodeStoreStateMachine::form(state)) == Some(
            state,
        ),
{
    lemma_parse_form::<StorageNodeStoreStateMachine>(state);
}

} // verus!
