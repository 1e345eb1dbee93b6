//! Snapshots: the whole state machine as bytes, with what identifies it.
use vstd::prelude::*;
use vstd::string::*;

use crate::consensus::EffectiveMembership;
use crate::consensus::EffectiveMembershipView;
use crate::consensus::LogId;
use crate::text::decimal;
use crate::text::lemma_decimal_is_injective;
use crate::text::lemma_decimal_value;
use crate::text::lemma_tail_after_dash;
use crate::text::push_decimal;
use crate::wire::Wire;

verus! {

/// What identifies a snapshot.
#[derive(Debug, PartialEq, Eq)]
pub struct SnapshotMeta {
    /// The last entry that the snapshot includes.
    pub last_log_id: Option<LogId>,
    /// The membership at that entry.
    pub last_membership: EffectiveMembership,
    /// A name that no other snapshot of the node that built it has.
    pub snapshot_id: String,
}

/// A `SnapshotMeta` as mathematics.
pub struct SnapshotMetaView {
    pub last_log_id: Option<LogId>,
    pub last_membership: EffectiveMembershipView,
    pub snapshot_id: Seq<char>,
}

impl View for SnapshotMeta {
    type V = SnapshotMetaView;

    open spec fn view(&self) -> SnapshotMetaView {
        SnapshotMetaView {
            last_log_id: self.last_log_id,
            last_membership: self.last_membership@,
            snapshot_id: self.snapshot_id@,
        }
    }
}

impl Clone for SnapshotMeta {
    fn clone(&self) -> (r: Self)
        ensures
            r@ == self@,
    {
        SnapshotMeta {
            last_log_id: self.last_log_id,
            last_membership: self.last_membership.clone(),
            snapshot_id: self.snapshot_id.clone(),
        }
    }
}

/// A snapshot: the state machine at one point of the log.
#[derive(Debug, PartialEq, Eq)]
pub struct StorageNodeStoreSnapshot {
    pub meta: SnapshotMeta,
    /// The state machine at the time of the snapshot, in its byte form.
    pub data: Vec<u8>,
}

/// A `StorageNodeStoreSnapshot` as mathematics.
pub struct SnapshotView {
    pub meta: SnapshotMetaView,
    pub data: Seq<u8>,
}

impl View for StorageNodeStoreSnapshot {
    type V = SnapshotView;

    open spec fn view(&self) -> SnapshotView {
        SnapshotView { meta: self.meta@, data: self.data@ }
    }
}

impl Clone for StorageNodeStoreSnapshot {
    fn clone(&self) -> (r: Self)
        ensures
            r@ == self@,
    {
        StorageNodeStoreSnapshot { meta: self.meta.clone(), data: self.data.duplicate() }
    }
}

/// The name of the snapshot that a node builds after the entry `last`, as its
/// `counter`-th: the leader's term and number, the index, and the counter, in
/// decimal, separated by `-`.
pub open spec fn snapshot_id(last: LogId, counter: u64) -> Seq<char> {
    decimal(last.term as nat) + seq!['-'] + decimal(last.node_id as nat) + seq!['-'] + decimal(
        last.index as nat,
    ) + seq!['-'] + decimal(counter as nat)
}

/// Builds the name of a snapshot.
pub fn snapshot_id_text(last: &LogId, counter: u64) -> (text: String)
    ensures
        text@ == snapshot_id(*last, counter),
{
    proof {
        reveal_strlit("-");
    }
    let mut text = String::new();
    push_decimal(&mut text, last.term);
    text.append("-");
    push_decimal(&mut text, last.node_id);
    text.append("-");
    push_decimal(&mut text, last.index);
    text.append("-");
    push_decimal(&mut text, counter);
    assert(text@ =~= snapshot_id(*last, counter));
    text
}

/// Snapshots that a store builds have names of their own: two names with
/// different counters differ, whatever entries they were built after.
pub proof fn lemma_snapshot_ids_differ(a: LogId, counter_a: u64, b: LogId, counter_b: u64)
    requires
        counter_a != counter_b,
    ensures
        snapshot_id(a, counter_a) != snapshot_id(b, counter_b),
{
    let head_a = decimal(a.term as nat) + seq!['-'] + decimal(a.node_id as nat) + seq!['-']
        + decimal(a.index as nat);
    let head_b = decimal(b.term as nat) + seq!['-'] + decimal(b.node_id as nat) + seq!['-']
        + decimal(b.index as nat);
    lemma_decimal_value(counter_a as nat);
    lemma_decimal_value(counter_b as nat);
    if snapshot_id(a, counter_a) == snapshot_id(b, counter_b) {
        lemma_tail_after_dash(
            head_a,
            decimal(counter_a as nat),
            head_b,
            decimal(counter_b as nat),
        );
        lemma_decimal_is_injective(counter_a as nat, counter_b as nat);
    }
}

} // verus!
