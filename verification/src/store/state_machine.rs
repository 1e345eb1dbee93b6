//! The state machine: what a node knows from the entries it has applied.
//!
//! Entries are applied in the order of the log. An entry whose index is not
//! beyond the last one applied has been applied before, and applying it once
//! more changes nothing: the consensus engine may hand an entry over twice
//! after a restart.
use vstd::prelude::*;

use crate::consensus::EffectiveMembership;
use crate::consensus::EffectiveMembershipView;
use crate::consensus::Entry;
use crate::consensus::EntryPayload;
use crate::consensus::EntryPayloadView;
use crate::consensus::EntryView;
use crate::consensus::LogId;
use crate::consensus::Membership;
use crate::store::StorageNodeRequest;
use crate::store::StorageNodeRequestView;
use crate::store::StorageNodeResponse;
use crate::wire::models;
use crate::wire::Wire;

verus! {

/// The replicated state of a node.
#[derive(Debug, PartialEq, Eq)]
pub struct StorageNodeStoreStateMachine {
    /// The last entry that was applied; none on a fresh node.
    pub last_applied_log: Option<LogId>,
    /// The membership that the last applied membership entry brought.
    pub last_membership: EffectiveMembership,
    /// The ids of the objects written so far, in the order of the log.
    pub data: Vec<String>,
}

/// A `StorageNodeStoreStateMachine` as mathematics.
pub struct StateMachineView {
    pub last_applied_log: Option<LogId>,
    pub last_membership: EffectiveMembershipView,
    pub data: Seq<Seq<char>>,
}

impl View for StorageNodeStoreStateMachine {
    type V = StateMachineView;

    open spec fn view(&self) -> StateMachineView {
        StateMachineView {
            last_applied_log: self.last_applied_log,
            last_membership: self.last_membership@,
            data: self.data.model(),
        }
    }
}

impl Clone for StorageNodeStoreStateMachine {
    fn clone(&self) -> (r: Self)
        ensures
            r@ == self@,
    {
        StorageNodeStoreStateMachine {
            last_applied_log: self.last_applied_log,
            last_membership: self.last_membership.clone(),
            data: self.data.duplicate(),
        }
    }
}

impl Default for StorageNodeStoreStateMachine {
    fn default() -> (r: Self)
        ensures
            r@ == StorageNodeStoreStateMachine::fresh(),
    {
        let r = StorageNodeStoreStateMachine {
            last_applied_log: None,
            last_membership: EffectiveMembership::new(None, Membership::new()),
            data: Vec::new(),
        };
        assert(r@.data =~= Seq::empty());
        assert(r@.last_membership.membership.configs =~= Seq::empty());
        assert(r@.last_membership.membership.nodes =~= Seq::empty());
        r
    }
}

/// What is left to do for an entry once the state machine has taken it in.
#[derive(Debug, PartialEq, Eq)]
pub enum ApplyAction {
    /// Nothing: hand the response to the consensus engine.
    Respond(StorageNodeResponse),
    /// Write the object `id` with the bytes `value` to the object tree, then
    /// pass the outcome to `StorageNodeResponse::after_store`.
    Store { id: String, value: Vec<u8> },
}

impl StorageNodeStoreStateMachine {
    /// The state of a node that has applied nothing.
    pub open spec fn fresh() -> StateMachineView {
        StateMachineView {
            last_applied_log: None,
            last_membership: EffectiveMembershipView {
                log_id: None,
                membership: crate::consensus::MembershipView {
                    configs: Seq::empty(),
                    nodes: Seq::empty(),
                },
            },
            data: Seq::empty(),
        }
    }

    /// Whether `entry` has been applied before: whether its index is not
    /// beyond that of the last entry applied.
    pub open spec fn is_replay(state: StateMachineView, entry: EntryView) -> bool {
        state.last_applied_log matches Some(last) && entry.log_id.index <= last.index
    }

    /// The state after `entry` has been applied to `state`.
    ///
    /// A replayed entry leaves the state as it is. Any other entry becomes the
    /// last one applied; a write adds its object id to the ids written, and a
    /// membership entry replaces the membership, stamped with the entry's id.
    pub open spec fn applied(state: StateMachineView, entry: EntryView) -> StateMachineView {
        if Self::is_replay(state, entry) {
            state
        } else {
            match entry.payload {
                EntryPayloadView::Blank => StateMachineView {
                    last_applied_log: Some(entry.log_id),
                    ..state
                },
                EntryPayloadView::Normal(StorageNodeRequestView::StoreData { id, value }) => {
                    StateMachineView {
                        last_applied_log: Some(entry.log_id),
                        data: state.data.push(id),
                        ..state
                    }
                },
                EntryPayloadView::Membership(membership) => StateMachineView {
                    last_applied_log: Some(entry.log_id),
                    last_membership: EffectiveMembershipView {
                        log_id: Some(entry.log_id),
                        membership,
                    },
                    ..state
                },
            }
        }
    }

    /// The state after `entries` have been applied to `state`, first to last.
    pub open spec fn applied_all(state: StateMachineView, entries: Seq<EntryView>) -> StateMachineView
        decreases entries.len(),
    {
        if entries.len() == 0 {
            state
        } else {
            Self::applied(Self::applied_all(state, entries.drop_last()), entries.last())
        }
    }

    /// The object that applying `entry` to `state` asks to be written, if any:
    /// its id and its bytes.
    pub open spec fn write_of(state: StateMachineView, entry: EntryView) -> Option<
        (Seq<char>, Seq<u8>),
    > {
        if Self::is_replay(state, entry) {
            None
        } else {
            match entry.payload {
                EntryPayloadView::Normal(StorageNodeRequestView::StoreData { id, value }) => Some(
                    (id, value),
                ),
                _ => None,
            }
        }
    }

    /// Whether `action` is what applying `entry` to `state` leaves to do: to
    /// store the object that the entry writes, or to respond with the empty
    /// response where it writes none.
    pub open spec fn is_action_for(
        action: ApplyAction,
        state: StateMachineView,
        entry: EntryView,
    ) -> bool {
        match Self::write_of(state, entry) {
            Some((id, value)) => action matches ApplyAction::Store { id: i, value: v } && i@ == id
                && v@ == value,
            None => action == ApplyAction::Respond(StorageNodeResponse { value: None }),
        }
    }

    /// A state machine that has applied nothing.
    pub fn new() -> (r: Self)
        ensures
            r@ == Self::fresh(),
    {
        Self::default()
    }

    /// Applies one entry and says what is left to do for it.
    ///
    /// The state changes as `applied` says. A write is not carried out here:
    /// the action names the object to write, and the write's outcome decides
    /// the response. Every other entry, a replayed one too, is answered with
    /// the empty response.
    pub fn apply_entry(&mut self, entry: &Entry) -> (action: ApplyAction)
        ensures
            final(self)@ == Self::applied(old(self)@, entry@),
            Self::is_action_for(action, old(self)@, entry@),
    {
        let replay = match self.last_applied_log {
            Some(last) => entry.log_id.index <= last.index,
            None => false,
        };
        if replay {
            return ApplyAction::Respond(StorageNodeResponse { value: None });
        }
        self.last_applied_log = Some(entry.log_id);
        match &entry.payload {
            EntryPayload::Blank => ApplyAction::Respond(StorageNodeResponse { value: None }),
            EntryPayload::Normal(StorageNodeRequest::StoreData { id, value }) => {
                let ghost before = self.data.model();
                self.data.push(id.duplicate());
                assert(self.data.model() =~= before.push(id@));
                ApplyAction::Store { id: id.duplicate(), value: value.duplicate() }
            },
            EntryPayload::Membership(membership) => {
                self.last_membership = EffectiveMembership::new(
                    Some(entry.log_id),
                    membership.clone(),
                );
                ApplyAction::Respond(StorageNodeResponse { value: None })
            },
        }
    }

    /// Applies `entries`, first to last, and says for each what is left to do
    /// for it.
    ///
    /// The actions come in the order of the entries. The caller carries them
    /// out in that order: it stores the objects, and collects the responses,
    /// where `StorageNodeResponse::after_store` gives one for a write.
    pub fn apply_to_state_machine(&mut self, entries: &Vec<Entry>) -> (actions: Vec<ApplyAction>)
        ensures
            final(self)@ == Self::applied_all(old(self)@, models::<Entry>(entries@)),
            actions@.len() == entries@.len(),
            forall|i: int|
                0 <= i < entries@.len() ==> Self::is_action_for(
                    #[trigger] actions@[i],
                    Self::applied_all(old(self)@, models::<Entry>(entries@).take(i)),
                    entries@[i]@,
                ),
    {
        let ghost all = models::<Entry>(entries@);
        let mut actions: Vec<ApplyAction> = Vec::new();
        let mut i: usize = 0;
        assert(all.take(0) =~= Seq::empty());
        while i < entries.len()
            invariant
                i <= entries@.len(),
                all == models::<Entry>(entries@),
                actions@.len() == i,
                self@ == Self::applied_all(old(self)@, all.take(i as int)),
                forall|j: int|
                    0 <= j < i ==> Self::is_action_for(
                        #[trigger] actions@[j],
                        Self::applied_all(old(self)@, all.take(j)),
                        entries@[j]@,
                    ),
            decreases entries@.len() - i,
        {
            let action = self.apply_entry(&entries[i]);
            actions.push(action);
            proof {
                assert(all.take(i + 1).drop_last() =~= all.take(i as int));
                assert(all.take(i + 1).last() == entries@[i as int]@);
            }
            i = i + 1;
        }
        assert(all.take(i as int) =~= all);
        actions
    }

    /// What the state machine has applied: the last entry and the membership.
    pub fn last_applied_state(&self) -> (r: (Option<LogId>, EffectiveMembership))
        ensures
            r.0 == self@.last_applied_log,
            r.1@ == self@.last_membership,
    {
        (self.last_applied_log, self.last_membership.clone())
    }
}

/// Applying an entry a second time changes nothing: the state after the
/// second time is the state after the first, and the second time asks for no
/// write.
pub proof fn lemma_apply_is_idempotent(state: StateMachineView, entry: EntryView)
    ensures
        StorageNodeStoreStateMachine::applied(
            StorageNodeStoreStateMachine::applied(state, entry),
            entry,
        ) == StorageNodeStoreStateMachine::applied(state, entry),
        StorageNodeStoreStateMachine::write_of(
            StorageNodeStoreStateMachine::applied(state, entry),
            entry,
        ) is None,
{
}

/// After entries have been applied, the last applied index is at or beyond the
/// index of each of them, and at or beyond what it was before.
pub proof fn lemma_applied_all_reaches(state: StateMachineView, entries: Seq<EntryView>)
    ensures
        state.last_applied_log matches Some(before) ==> {
            &&& StorageNodeStoreStateMachine::applied_all(state, entries).last_applied_log
                matches Some(after)
            &&& before.index <= after.index
        },
        forall|i: int|
            0 <= i < entries.len() ==> {
                &&& StorageNodeStoreStateMachine::applied_all(state, entries).last_applied_log
                    matches Some(after)
                &&& (#[trigger] entries[i]).log_id.index <= after.index
            },
    decreases entries.len(),
{
    if entries.len() > 0 {
        let front = entries.drop_last();
        lemma_applied_all_reaches(state, front);
        let middle = StorageNodeStoreStateMachine::applied_all(state, front);
        lemma_apply_is_monotonic(middle, entries.last());
        assert forall|i: int| 0 <= i < entries.len() implies {
            &&& StorageNodeStoreStateMachine::applied_all(state, entries).last_applied_log
                matches Some(after)
            &&& (#[trigger] entries[i]).log_id.index <= after.index
        } by {
            if i < entries.len() - 1 {
                assert(front[i] == entries[i]);
            }
        }
    }
}

/// Entries that are all at or behind the last applied index change nothing.
pub proof fn lemma_replayed_entries_change_nothing(state: StateMachineView, entries: Seq<EntryView>)
    requires
        forall|i: int|
            0 <= i < entries.len() ==> StorageNodeStoreStateMachine::is_replay(
                state,
                #[trigger] entries[i],
            ),
    ensures
        StorageNodeStoreStateMachine::applied_all(state, entries) == state,
    decreases entries.len(),
{
    if entries.len() > 0 {
        let front = entries.drop_last();
        assert forall|i: int| 0 <= i < front.len() implies StorageNodeStoreStateMachine::is_replay(
            state,
            #[trigger] front[i],
        ) by {
            assert(front[i] == entries[i]);
        }
        lemma_replayed_entries_change_nothing(state, front);
        assert(StorageNodeStoreStateMachine::is_replay(state, entries[entries.len() - 1]));
    }
}

/// Applying a run of entries a second time changes nothing: whatever the
/// consensus engine hands over again after a restart, the state machine stays
/// as the first time left it.
pub proof fn lemma_replay_is_idempotent(state: StateMachineView, entries: Seq<EntryView>)
    ensures
        StorageNodeStoreStateMachine::applied_all(
            StorageNodeStoreStateMachine::applied_all(state, entries),
            entries,
        ) == StorageNodeStoreStateMachine::applied_all(state, entries),
{
    lemma_applied_all_reaches(state, entries);
    lemma_replayed_entries_change_nothing(
        StorageNodeStoreStateMachine::applied_all(state, entries),
        entries,
    );
}

/// Applying entries never moves the last applied index backwards.
pub proof fn lemma_apply_is_monotonic(state: StateMachineView, entry: EntryView)
    ensures
        state.last_applied_log matches Some(before) ==> {
            &&& StorageNodeStoreStateMachine::applied(state, entry).last_applied_log matches Some(
                after,
            )
            &&& before.index <= after.index
        },
{
}

impl Wire for StorageNodeStoreStateMachine {
    type Model = StateMachineView;

    open spec fn model(&self) -> StateMachineView {
        self@
    }

    open spec fn fits(m: StateMachineView) -> bool {
        EffectiveMembership::fits(m.last_membership) && Vec::<String>::fits(m.data)
    }

    open spec fn form(m: StateMachineView) -> Seq<u8> {
        Option::<LogId>::form(m.last_applied_log) + EffectiveMembership::form(m.last_membership)
            + Vec::<String>::form(m.data)
    }

    open spec fn read(s: Seq<u8>) -> Option<(StateMachineView, Seq<u8>)> {
        match Option::<LogId>::read(s) {
            Some((last_applied_log, r1)) => match EffectiveMembership::read(r1) {
                Some((last_membership, r2)) => match Vec::<String>::read(r2) {
                    Some((data, r3)) => Some(
                        (StateMachineView { last_applied_log, last_membership, data }, r3),
                    ),
                    None => None,
                },
                None => None,
            },
            None => None,
        }
    }

    proof fn lemma_read_form(m: StateMachineView, rest: Seq<u8>) {
        let r2 = Vec::<String>::form(m.data) + rest;
        let r1 = EffectiveMembership::form(m.last_membership) + r2;
        assert(Self::form(m) + rest =~= Option::<LogId>::form(m.last_applied_log) + r1);
        Option::<LogId>::lemma_read_form(m.last_applied_log, r1);
        EffectiveMembership::lemma_read_form(m.last_membership, r2);
        Vec::<String>::lemma_read_form(m.data, rest);
    }

    fn duplicate(&self) -> (r: StorageNodeStoreStateMachine) {
        self.clone()
    }

    fn encode(&self, out: &mut Vec<u8>) {
        self.last_applied_log.encode(out);
        self.last_membership.encode(out);
        self.data.encode(out);
    }

    fn decode(bytes: &[u8], pos: usize) -> (r: Option<(StorageNodeStoreStateMachine, usize)>) {
        match Option::<LogId>::decode(bytes, pos) {
            None => None,
            Some((last_applied_log, at1)) => match EffectiveMembership::decode(bytes, at1) {
                None => None,
                Some((last_membership, at2)) => match Vec::<String>::decode(bytes, at2) {
                    None => None,
                    Some((data, at3)) => Some(
                        (
                            StorageNodeStoreStateMachine { last_applied_log, last_membership, data },
                            at3,
                        ),
                    ),
                },
            },
        }
    }
}

} // verus!
