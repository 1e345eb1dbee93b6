//! The store of a node: its log and its metadata on disk, its state machine
//! and its current snapshot in memory.
//!
//! The consensus engine drives every change through exclusive access to the
//! store, one caller at a time; readers see the store between two changes.
use vstd::prelude::*;
use vstd::string::*;

use crate::consensus::EffectiveMembership;
use crate::consensus::Entry;
use crate::consensus::LogId;
use crate::consensus::Vote;
use crate::store::error::ErrorSubject;
use crate::store::error::ErrorVerb;
use crate::store::error::StorageError;
use crate::store::log::appended;
use crate::store::log::decode_entry_record;
use crate::store::log::decode_entry_records;
use crate::store::log::has_malformed_last_record;
use crate::store::log::has_malformed_record;
use crate::store::log::index_key_bytes;
use crate::store::log::is_entry_record;
use crate::store::log::is_last_log_id;
use crate::store::log::is_listing;
use crate::store::log::key_limit_bytes;
use crate::store::log::lemma_last_key_is_unique;
use crate::store::log::lemma_scan_is_listing;
use crate::store::log::remove_range;
use crate::store::log::without_prefix;
use crate::store::log::without_suffix;
use crate::store::log::Records;
use crate::store::tree::is_last_key;
use crate::store::snapshot::snapshot_id;
use crate::store::snapshot::snapshot_id_text;
use crate::store::snapshot::SnapshotMeta;
use crate::store::snapshot::SnapshotView;
use crate::store::snapshot::StorageNodeStoreSnapshot;
use crate::store::state_machine::ApplyAction;
use crate::store::state_machine::StateMachineView;
use crate::store::state_machine::StorageNodeStoreStateMachine;
use crate::store::tree::open_database;
use crate::store::tree::open_tree;
use crate::store::tree::record_models;
use crate::store::tree::tree_database;
use crate::store::tree::tree_name;
use crate::store::tree::tree_flush;
use crate::store::tree::tree_get;
use crate::store::tree::tree_insert;
use crate::store::tree::tree_last;
use crate::store::tree::tree_range;
use crate::store::tree::tree_records;
use crate::store::tree::Limit;
use crate::wire::from_bytes;
use crate::wire::models;
use crate::wire::parse;
use crate::wire::to_bytes;
use crate::wire::Wire;

verus! {

/// Where the log begins and ends.
#[derive(Clone, Copy, Debug, PartialEq, Eq)]
pub struct LogState {
    /// The last entry that was purged; none where nothing was purged yet.
    pub last_purged_log_id: Option<LogId>,
    /// The last entry of the log; where the log holds no entry, the last one
    /// purged.
    pub last_log_id: Option<LogId>,
}

/// The key of the vote in the metadata: the bytes of `meta-vote`.
pub open spec fn vote_key() -> Seq<u8> {
    seq![109u8, 101u8, 116u8, 97u8, 45u8, 118u8, 111u8, 116u8, 101u8]
}

/// The key of the last purged log id in the metadata: the bytes of
/// `last-purged`.
pub open spec fn last_purged_key() -> Seq<u8> {
    seq![108u8, 97u8, 115u8, 116u8, 45u8, 112u8, 117u8, 114u8, 103u8, 101u8, 100u8]
}

/// What the metadata holds under `key`, read as a `T`; none where it holds
/// nothing there, or nothing of that form.
pub open spec fn stored<T: Wire>(records: Records, key: Seq<u8>) -> Option<T::Model> {
    if records.contains_key(key) {
        parse::<T>(records[key])
    } else {
        None
    }
}

/// Whether what the metadata holds under `key`, if anything, is the form of a
/// `T`.
pub open spec fn well_stored<T: Wire>(records: Records, key: Seq<u8>) -> bool {
    records.contains_key(key) ==> parse::<T>(records[key]) is Some
}

/// The last log id given the log's last entry and the last purged id: that of
/// the last entry, or the last purged id where the log holds no entry.
pub open spec fn last_log_id_of(last_entry: Option<LogId>, last_purged: Option<LogId>) -> Option<
    LogId,
> {
    match last_entry {
        Some(id) => Some(id),
        None => last_purged,
    }
}

/// Whether the log may be purged up to `log_id`: whether that is not behind
/// what was purged before.
pub open spec fn may_purge(last_purged: Option<LogId>, log_id: LogId) -> bool {
    last_purged matches Some(purged) ==> purged.index <= log_id.index
}

fn vote_key_bytes() -> (key: Vec<u8>)
    ensures
        key@ == vote_key(),
{
    let key = vec![109u8, 101u8, 116u8, 97u8, 45u8, 118u8, 111u8, 116u8, 101u8];
    assert(key@ =~= vote_key());
    key
}

fn last_purged_key_bytes() -> (key: Vec<u8>)
    ensures
        key@ == last_purged_key(),
{
    let key = vec![108u8, 97u8, 115u8, 116u8, 45u8, 112u8, 117u8, 114u8, 103u8, 101u8, 100u8];
    assert(key@ =~= last_purged_key());
    key
}

/// Reads what a lookup in the metadata found: nothing where nothing was found,
/// the value where the bytes are the form of one, an error where they are not.
pub fn decode_stored<T: Wire>(found: Option<Vec<u8>>, subject: ErrorSubject) -> (r: Result<
    Option<T>,
    StorageError,
>)
    ensures
        match found {
            None => r matches Ok(None),
            Some(bytes) => match parse::<T>(bytes@) {
                Some(m) => r matches Ok(Some(v)) && v.model() == m,
                None => r matches Err(e) && e == (StorageError::Malformed { subject }),
            },
        },
{
    match found {
        None => Ok(None),
        Some(bytes) => match from_bytes::<T>(bytes.as_slice()) {
            Some(v) => Ok(Some(v)),
            None => Err(StorageError::Malformed { subject }),
        },
    }
}

spec fn found_key_of(found: Option<(Vec<u8>, Vec<u8>)>) -> Option<Seq<u8>> {
    match found {
        Some(record) => Some(record.0@),
        None => None,
    }
}

/// Reads what a lookup of the log's last record found: the id of the entry in
/// it, nothing where the log is empty, an error where the record is not one
/// that the log writes.
pub fn decode_last_record(found: Option<(Vec<u8>, Vec<u8>)>) -> (r: Result<Option<LogId>, StorageError>)
    ensures
        match found {
            None => r matches Ok(None),
            Some(record) => if is_entry_record(record.0@, record.1@) {
                r matches Ok(Some(id)) && parse::<Entry>(record.1@) matches Some(entry)
                    && entry.log_id == id
            } else {
                r matches Err(e) && e == (StorageError::Malformed { subject: ErrorSubject::Logs })
            },
        },
{
    match found {
        None => Ok(None),
        Some(record) => match decode_entry_record(&record.0, &record.1) {
            Some(entry) => Ok(Some(entry.log_id)),
            None => Err(StorageError::Malformed { subject: ErrorSubject::Logs }),
        },
    }
}

/// The directory of the database of the store below `storage_location`.
pub open spec fn database_directory(storage_location: Seq<char>) -> Seq<char> {
    storage_location + "/database"@
}

/// The name of the tree that holds the log.
pub open spec fn log_tree_name() -> Seq<char> {
    "trylog"@
}

/// The name of the tree that holds the metadata.
pub open spec fn meta_tree_name() -> Seq<char> {
    "trymeta"@
}

/// The directory of the database below the storage root.
pub fn database_path(storage_location: &str) -> (path: String)
    ensures
        path@ == database_directory(storage_location@),
{
    let mut path = storage_location.to_owned();
    path.append("/database");
    path
}

/// The store of a node.
#[derive(Debug)]
pub struct StorageNodeFileStore {
    /// The log: entries under the keys of their indexes.
    log: sled::Tree,
    /// The metadata: the vote and the last purged log id.
    meta: sled::Tree,
    /// The state machine.
    state_machine: StorageNodeStoreStateMachine,
    /// How many snapshots this store has built.
    snapshot_idx: u64,
    /// The current snapshot: the last one built or installed.
    current_snapshot: Option<StorageNodeStoreSnapshot>,
}

impl StorageNodeFileStore {
    /// The records of the log.
    pub closed spec fn log_records(&self) -> Records {
        tree_records(self.log)
    }

    /// The records of the metadata.
    pub closed spec fn meta_records(&self) -> Records {
        tree_records(self.meta)
    }

    /// The vote that the store holds.
    pub open spec fn vote(&self) -> Option<Vote> {
        stored::<Vote>(self.meta_records(), vote_key())
    }

    /// The last purged log id that the store holds.
    pub open spec fn last_purged(&self) -> Option<LogId> {
        stored::<LogId>(self.meta_records(), last_purged_key())
    }

    /// The directory of the database that holds the log.
    pub closed spec fn database(&self) -> Seq<char> {
        tree_database(self.log)
    }

    /// Whether log and metadata are the two trees of one database that a
    /// store keeps them in: `trylog` and `trymeta`.
    pub closed spec fn is_laid_out(&self) -> bool {
        &&& tree_database(self.meta) == tree_database(self.log)
        &&& tree_name(self.log) == log_tree_name()
        &&& tree_name(self.meta) == meta_tree_name()
    }

    /// Whether `other` is kept where `self` is kept.
    pub open spec fn same_place(&self, other: &Self) -> bool {
        &&& self.database() == other.database()
        &&& self.is_laid_out() == other.is_laid_out()
    }

    /// The state machine.
    pub closed spec fn state(&self) -> StateMachineView {
        self.state_machine@
    }

    /// How many snapshots the store has built.
    pub closed spec fn snapshot_count(&self) -> u64 {
        self.snapshot_idx
    }

    /// The current snapshot.
    pub closed spec fn snapshot(&self) -> Option<SnapshotView> {
        match self.current_snapshot {
            Some(current) => Some(current@),
            None => None,
        }
    }

    /// Whether `other` has the state machine, the snapshot counter and the
    /// current snapshot of `self`.
    pub open spec fn same_memory(&self, other: &Self) -> bool {
        &&& self.state() == other.state()
        &&& self.snapshot_count() == other.snapshot_count()
        &&& self.snapshot() == other.snapshot()
    }

    /// Whether `other` holds on disk what `self` holds.
    pub open spec fn same_disk(&self, other: &Self) -> bool {
        &&& self.log_records() == other.log_records()
        &&& self.meta_records() == other.meta_records()
    }

    /// Opens the store below `storage_location`, creating it where there is
    /// none. Log and metadata are the trees `trylog` and `trymeta` of the
    /// database in the directory `database` below `storage_location`, with
    /// what the disk holds of them; the state machine is fresh, and there is
    /// no snapshot.
    pub fn open_create(storage_location: &str) -> (r: Result<StorageNodeFileStore, StorageError>)
        ensures
            match r {
                Ok(store) => {
                    &&& store.database() == database_directory(storage_location@)
                    &&& store.is_laid_out()
                    &&& store.state() == StorageNodeStoreStateMachine::fresh()
                    &&& store.snapshot_count() == 0
                    &&& store.snapshot() is None
                },
                Err(e) => e.is_backend(ErrorSubject::Store, ErrorVerb::Read),
            },
    {
        let path = database_path(storage_location);
        let db = match open_database(path.as_str()) {
            Ok(db) => db,
            Err(source) => {
                return Err(
                    StorageError::Backend {
                        subject: ErrorSubject::Store,
                        verb: ErrorVerb::Read,
                        source,
                    },
                );
            },
        };
        let log = match open_tree(&db, "trylog") {
            Ok(tree) => tree,
            Err(source) => {
                return Err(
                    StorageError::Backend {
                        subject: ErrorSubject::Store,
                        verb: ErrorVerb::Read,
                        source,
                    },
                );
            },
        };
        let meta = match open_tree(&db, "trymeta") {
            Ok(tree) => tree,
            Err(source) => {
                return Err(
                    StorageError::Backend {
                        subject: ErrorSubject::Store,
                        verb: ErrorVerb::Read,
                        source,
                    },
                );
            },
        };
        Ok(
            StorageNodeFileStore {
                log,
                meta,
                state_machine: StorageNodeStoreStateMachine::new(),
                snapshot_idx: 0,
                current_snapshot: None,
            },
        )
    }

    fn read_meta<T: Wire>(&self, key: &Vec<u8>, subject: ErrorSubject) -> (r: Result<
        Option<T>,
        StorageError,
    >)
        ensures
            match r {
                Ok(v) => well_stored::<T>(self.meta_records(), key@) && v.model() == stored::<T>(
                    self.meta_records(),
                    key@,
                ),
                Err(e) => e.is_backend(subject, ErrorVerb::Read) || (e.is_malformed(subject)
                    && !well_stored::<T>(self.meta_records(), key@)),
            },
    {
        match tree_get(&self.meta, key) {
            Ok(found) => decode_stored::<T>(found, subject),
            Err(source) => Err(StorageError::Backend { subject, verb: ErrorVerb::Read, source }),
        }
    }

    fn write_meta<T: Wire>(&mut self, key: &Vec<u8>, value: &T, subject: ErrorSubject) -> (r: Result<
        (),
        StorageError,
    >)
        ensures
            final(self).same_memory(old(self)),
            final(self).same_place(old(self)),
            final(self).log_records() == old(self).log_records(),
            match r {
                Ok(_) => T::fits(value.model()) && final(self).meta_records() == old(
                    self,
                ).meta_records().insert(key@, T::form(value.model())),
                Err(e) => e.is_backend(subject, ErrorVerb::Write),
            },
    {
        let bytes = to_bytes(value);
        match tree_insert(&mut self.meta, key, bytes) {
            Ok(_) => {},
            Err(source) => {
                return Err(StorageError::Backend { subject, verb: ErrorVerb::Write, source });
            },
        }
        match tree_flush(&self.meta) {
            Ok(_) => Ok(()),
            Err(source) => Err(StorageError::Backend { subject, verb: ErrorVerb::Write, source }),
        }
    }

    /// Keeps `vote` as the vote of this node, in place of the one kept before.
    pub fn save_vote(&mut self, vote: &Vote) -> (r: Result<(), StorageError>)
        ensures
            final(self).same_memory(old(self)),
            final(self).same_place(old(self)),
            final(self).log_records() == old(self).log_records(),
            match r {
                Ok(_) => final(self).meta_records() == old(self).meta_records().insert(
                    vote_key(),
                    Vote::form(*vote),
                ),
                Err(e) => e.is_backend(ErrorSubject::Vote, ErrorVerb::Write),
            },
    {
        let key = vote_key_bytes();
        self.write_meta::<Vote>(&key, vote, ErrorSubject::Vote)
    }

    /// The vote of this node; none where none was ever saved.
    pub fn read_vote(&self) -> (r: Result<Option<Vote>, StorageError>)
        ensures
            match r {
                Ok(vote) => vote == self.vote() && well_stored::<Vote>(
                    self.meta_records(),
                    vote_key(),
                ),
                Err(e) => e.is_backend(ErrorSubject::Vote, ErrorVerb::Read) || (e.is_malformed(
                    ErrorSubject::Vote,
                ) && !well_stored::<Vote>(self.meta_records(), vote_key())),
            },
    {
        let key = vote_key_bytes();
        self.read_meta::<Vote>(&key, ErrorSubject::Vote)
    }

    /// The last log id that was purged; none where nothing was purged yet.
    pub fn get_last_purged_log_id(&self) -> (r: Result<Option<LogId>, StorageError>)
        ensures
            match r {
                Ok(id) => id == self.last_purged() && well_stored::<LogId>(
                    self.meta_records(),
                    last_purged_key(),
                ),
                Err(e) => e.is_backend(ErrorSubject::LastPurged, ErrorVerb::Read) || (
                e.is_malformed(ErrorSubject::LastPurged) && !well_stored::<LogId>(
                    self.meta_records(),
                    last_purged_key(),
                )),
            },
    {
        let key = last_purged_key_bytes();
        self.read_meta::<LogId>(&key, ErrorSubject::LastPurged)
    }

    fn set_last_purged_log_id(&mut self, id: &LogId) -> (r: Result<(), StorageError>)
        ensures
            final(self).same_memory(old(self)),
            final(self).same_place(old(self)),
            final(self).log_records() == old(self).log_records(),
            match r {
                Ok(_) => final(self).meta_records() == old(self).meta_records().insert(
                    last_purged_key(),
                    LogId::form(*id),
                ),
                Err(e) => e.is_backend(ErrorSubject::LastPurged, ErrorVerb::Write),
            },
    {
        let key = last_purged_key_bytes();
        self.write_meta::<LogId>(&key, id, ErrorSubject::LastPurged)
    }

    /// Where the log begins and ends: the last id purged, and the id of the
    /// last entry, which is the last id purged where the log holds no entry.
    pub fn get_log_state(&self) -> (r: Result<LogState, StorageError>)
        ensures
            match r {
                Ok(state) => {
                    &&& state.last_purged_log_id == self.last_purged()
                    &&& well_stored::<LogId>(self.meta_records(), last_purged_key())
                    &&& !has_malformed_last_record(self.log_records())
                    &&& exists|last_entry: Option<LogId>|
                        #![auto]
                        is_last_log_id(self.log_records(), last_entry) && state.last_log_id
                            == last_log_id_of(last_entry, self.last_purged())
                },
                Err(e) => {
                    ||| e.is_backend(ErrorSubject::Logs, ErrorVerb::Read)
                    ||| e.is_backend(ErrorSubject::LastPurged, ErrorVerb::Read)
                    ||| e.is_malformed(ErrorSubject::Logs) && has_malformed_last_record(
                        self.log_records(),
                    )
                    ||| e.is_malformed(ErrorSubject::LastPurged) && !well_stored::<LogId>(
                        self.meta_records(),
                        last_purged_key(),
                    )
                },
            },
    {
        let found = match tree_last(&self.log) {
            Ok(found) => found,
            Err(source) => {
                return Err(
                    StorageError::Backend {
                        subject: ErrorSubject::Logs,
                        verb: ErrorVerb::Read,
                        source,
                    },
                );
            },
        };
        let ghost found_key = found_key_of(found);
        let last_entry = match decode_last_record(found) {
            Ok(last_entry) => last_entry,
            Err(e) => {
                assert(is_last_key(self.log_records(), found_key->0));
                return Err(e);
            },
        };
        proof {
            assert forall|key: Seq<u8>| #[trigger]
                is_last_key(self.log_records(), key) implies is_entry_record(
                key,
                self.log_records()[key],
            ) by {
                lemma_last_key_is_unique(self.log_records(), key, found_key->0);
            }
        }
        let last_purged = match self.get_last_purged_log_id() {
            Ok(last_purged) => last_purged,
            Err(e) => {
                return Err(e);
            },
        };
        let last_log_id = match last_entry {
            Some(id) => Some(id),
            None => last_purged,
        };
        assert(is_last_log_id(self.log_records(), last_entry));
        Ok(LogState { last_purged_log_id: last_purged, last_log_id })
    }

    /// The entries of the log between `lo` and `hi`, in the order of their
    /// indexes. Entries that were purged or deleted are not among them.
    pub fn try_get_log_entries(&self, lo: Limit<u64>, hi: Limit<u64>) -> (r: Result<
        Vec<Entry>,
        StorageError,
    >)
        ensures
            match r {
                Ok(entries) => {
                    &&& is_listing(self.log_records(), lo, hi, models::<Entry>(entries@))
                    &&& !has_malformed_record(self.log_records(), lo, hi)
                },
                Err(e) => e.is_backend(ErrorSubject::Logs, ErrorVerb::Read) || (e.is_malformed(
                    ErrorSubject::Logs,
                ) && has_malformed_record(self.log_records(), lo, hi)),
            },
    {
        let key_lo = key_limit_bytes(&lo);
        let key_hi = key_limit_bytes(&hi);
        let items = match tree_range(&self.log, key_lo, key_hi) {
            Ok(items) => items,
            Err(source) => {
                return Err(
                    StorageError::Backend {
                        subject: ErrorSubject::Logs,
                        verb: ErrorVerb::Read,
                        source,
                    },
                );
            },
        };
        match decode_entry_records(&items) {
            Ok(entries) => {
                proof {
                    lemma_scan_is_listing(
                        self.log_records(),
                        lo,
                        hi,
                        record_models(items@),
                        models::<Entry>(entries@),
                    );
                }
                Ok(entries)
            },
            Err(e) => {
                proof {
                    let scanned = record_models(items@);
                    let i = choose|i: int|
                        0 <= i < items@.len() && !is_entry_record(
                            (#[trigger] items@[i]).0@,
                            items@[i].1@,
                        );
                    assert(self.log_records().contains_pair(scanned[i].0, scanned[i].1));
                }
                Err(e)
            },
        }
    }

    /// Appends `entries` to the log, first to last. An entry takes the place
    /// of the one that the log held at its index. The entries are in the log
    /// when the call returns. Where the tree fails, the entries before the
    /// failing one are in the log, and nothing is known of that one.
    pub fn append_to_log(&mut self, entries: &Vec<Entry>) -> (r: Result<(), StorageError>)
        ensures
            final(self).same_memory(old(self)),
            final(self).same_place(old(self)),
            final(self).meta_records() == old(self).meta_records(),
            match r {
                Ok(_) => final(self).log_records() == appended(
                    old(self).log_records(),
                    models::<Entry>(entries@),
                ),
                Err(e) => e.is_backend(ErrorSubject::Logs, ErrorVerb::Write),
            },
    {
        let ghost all = models::<Entry>(entries@);
        let mut i: usize = 0;
        assert(all.take(0) =~= Seq::empty());
        while i < entries.len()
            invariant
                i <= entries@.len(),
                all == models::<Entry>(entries@),
                self.same_memory(old(self)),
                self.same_place(old(self)),
                self.meta_records() == old(self).meta_records(),
                self.log_records() == appended(old(self).log_records(), all.take(i as int)),
            decreases entries@.len() - i,
        {
            let entry = &entries[i];
            let key = index_key_bytes(entry.log_id.index);
            let value = to_bytes(entry);
            match tree_insert(&mut self.log, &key, value) {
                Ok(_) => {},
                Err(source) => {
                    return Err(
                        StorageError::Backend {
                            subject: ErrorSubject::Logs,
                            verb: ErrorVerb::Write,
                            source,
                        },
                    );
                },
            }
            proof {
                assert(all.take(i + 1).drop_last() =~= all.take(i as int));
                assert(all.take(i + 1).last() == entry@);
            }
            i = i + 1;
        }
        assert(all.take(i as int) =~= all);
        match tree_flush(&self.log) {
            Ok(_) => Ok(()),
            Err(source) => Err(
                StorageError::Backend {
                    subject: ErrorSubject::Logs,
                    verb: ErrorVerb::Write,
                    source,
                },
            ),
        }
    }

    /// Removes from the log every entry from `log_id` on: the tail that the
    /// consensus engine found to differ from the leader's log. Entries before
    /// `log_id` stay as they are.
    pub fn delete_conflict_logs_since(&mut self, log_id: LogId) -> (r: Result<(), StorageError>)
        ensures
            final(self).same_memory(old(self)),
            final(self).same_place(old(self)),
            final(self).meta_records() == old(self).meta_records(),
            match r {
                Ok(_) => final(self).log_records() == without_suffix(
                    old(self).log_records(),
                    log_id.index,
                ),
                Err(e) => e.is_backend(ErrorSubject::Logs, ErrorVerb::Delete),
            },
    {
        let lo = Limit::Included(index_key_bytes(log_id.index));
        match remove_range(&mut self.log, lo, Limit::Unbounded) {
            Ok(_) => {},
            Err(source) => {
                return Err(
                    StorageError::Backend {
                        subject: ErrorSubject::Logs,
                        verb: ErrorVerb::Delete,
                        source,
                    },
                );
            },
        }
        assert(self.log_records() =~= without_suffix(old(self).log_records(), log_id.index));
        match tree_flush(&self.log) {
            Ok(_) => Ok(()),
            Err(source) => Err(
                StorageError::Backend {
                    subject: ErrorSubject::Logs,
                    verb: ErrorVerb::Delete,
                    source,
                },
            ),
        }
    }

    /// Removes from the log every entry up to `log_id`, that one included, and
    /// keeps `log_id` as the last id purged.
    ///
    /// The id is kept first: where the removal fails, the mark is already
    /// there. Purging goes forward only, so `log_id` must not be behind what
    /// was purged before; `try_purge_logs_upto` tests that.
    pub fn purge_logs_upto(&mut self, log_id: LogId) -> (r: Result<(), StorageError>)
        requires
            may_purge(old(self).last_purged(), log_id),
        ensures
            final(self).same_memory(old(self)),
            final(self).same_place(old(self)),
            match r {
                Ok(_) => {
                    &&& final(self).meta_records() == old(self).meta_records().insert(
                        last_purged_key(),
                        LogId::form(log_id),
                    )
                    &&& final(self).log_records() == without_prefix(
                        old(self).log_records(),
                        log_id.index,
                    )
                },
                Err(e) => e.is_backend(ErrorSubject::LastPurged, ErrorVerb::Write) || e.is_backend(
                    ErrorSubject::Logs,
                    ErrorVerb::Delete,
                ),
            },
    {
        match self.set_last_purged_log_id(&log_id) {
            Ok(_) => {},
            Err(e) => {
                return Err(e);
            },
        }
        let hi = Limit::Included(index_key_bytes(log_id.index));
        match remove_range(&mut self.log, Limit::Unbounded, hi) {
            Ok(_) => {},
            Err(source) => {
                return Err(
                    StorageError::Backend {
                        subject: ErrorSubject::Logs,
                        verb: ErrorVerb::Delete,
                        source,
                    },
                );
            },
        }
        assert(self.log_records() =~= without_prefix(old(self).log_records(), log_id.index));
        match tree_flush(&self.log) {
            Ok(_) => Ok(()),
            Err(source) => Err(
                StorageError::Backend {
                    subject: ErrorSubject::Logs,
                    verb: ErrorVerb::Delete,
                    source,
                },
            ),
        }
    }

    /// Purges the log up to `log_id` where that is not behind what was purged
    /// before, and says whether it did. Where it is behind, the store stays as
    /// it is and the answer is `false`.
    pub fn try_purge_logs_upto(&mut self, log_id: LogId) -> (r: Result<bool, StorageError>)
        ensures
            final(self).same_memory(old(self)),
            final(self).same_place(old(self)),
            match r {
                Ok(purged) => {
                    &&& purged == may_purge(old(self).last_purged(), log_id)
                    &&& purged ==> final(self).meta_records() == old(self).meta_records().insert(
                        last_purged_key(),
                        LogId::form(log_id),
                    ) && final(self).log_records() == without_prefix(
                        old(self).log_records(),
                        log_id.index,
                    )
                    &&& !purged ==> final(self).same_disk(old(self))
                },
                Err(e) => {
                    ||| e.is_backend(ErrorSubject::LastPurged, ErrorVerb::Read)
                    ||| e.is_malformed(ErrorSubject::LastPurged) && !well_stored::<LogId>(
                        old(self).meta_records(),
                        last_purged_key(),
                    )
                    ||| e.is_backend(ErrorSubject::LastPurged, ErrorVerb::Write)
                    ||| e.is_backend(ErrorSubject::Logs, ErrorVerb::Delete)
                },
            },
    {
        let last_purged = match self.get_last_purged_log_id() {
            Ok(last_purged) => last_purged,
            Err(e) => {
                return Err(e);
            },
        };
        let allowed = match last_purged {
            Some(purged) => purged.index <= log_id.index,
            None => true,
        };
        if !allowed {
            return Ok(false);
        }
        match self.purge_logs_upto(log_id) {
            Ok(_) => Ok(true),
            Err(e) => Err(e),
        }
    }

    /// The state machine, to read.
    pub fn state_machine(&self) -> (r: &StorageNodeStoreStateMachine)
        ensures
            r@ == self.state(),
    {
        &self.state_machine
    }

    /// How many snapshots the store has built.
    pub fn snapshot_idx(&self) -> (r: u64)
        ensures
            r == self.snapshot_count(),
    {
        self.snapshot_idx
    }

    /// What the state machine has applied: the last entry and the membership.
    pub fn last_applied_state(&self) -> (r: (Option<LogId>, EffectiveMembership))
        ensures
            r.0 == self.state().last_applied_log,
            r.1@ == self.state().last_membership,
    {
        self.state_machine.last_applied_state()
    }

    /// Applies one entry to the state machine and says what is left to do for
    /// it: see `StorageNodeStoreStateMachine::apply_entry`.
    pub fn apply_entry(&mut self, entry: &Entry) -> (action: ApplyAction)
        ensures
            final(self).same_disk(old(self)),
            final(self).same_place(old(self)),
            final(self).snapshot_count() == old(self).snapshot_count(),
            final(self).snapshot() == old(self).snapshot(),
            final(self).state() == StorageNodeStoreStateMachine::applied(old(self).state(), entry@),
            StorageNodeStoreStateMachine::is_action_for(action, old(self).state(), entry@),
    {
        self.state_machine.apply_entry(entry)
    }

    /// Applies `entries` to the state machine, first to last, and says for
    /// each what is left to do for it: see
    /// `StorageNodeStoreStateMachine::apply_to_state_machine`.
    pub fn apply_to_state_machine(&mut self, entries: &Vec<Entry>) -> (actions: Vec<ApplyAction>)
        ensures
            final(self).same_disk(old(self)),
            final(self).same_place(old(self)),
            final(self).snapshot_count() == old(self).snapshot_count(),
            final(self).snapshot() == old(self).snapshot(),
            final(self).state() == StorageNodeStoreStateMachine::applied_all(
                old(self).state(),
                models::<Entry>(entries@),
            ),
            actions@.len() == entries@.len(),
            forall|i: int|
                0 <= i < entries@.len() ==> StorageNodeStoreStateMachine::is_action_for(
                    #[trigger] actions@[i],
                    StorageNodeStoreStateMachine::applied_all(
                        old(self).state(),
                        models::<Entry>(entries@).take(i),
                    ),
                    entries@[i]@,
                ),
    {
        self.state_machine.apply_to_state_machine(entries)
    }

    /// Builds a snapshot of the state machine and makes it the current one.
    ///
    /// The snapshot holds the state machine in its byte form. It is named
    /// after the last applied entry and the number of snapshots that this store
    /// has built, this one included, so no two snapshots of a store share a
    /// name. A state machine that has applied nothing has no snapshot.
    pub fn build_snapshot(&mut self) -> (snapshot: StorageNodeStoreSnapshot)
        requires
            old(self).state().last_applied_log is Some,
            old(self).snapshot_count() < u64::MAX,
        ensures
            final(self).same_disk(old(self)),
            final(self).same_place(old(self)),
            final(self).state() == old(self).state(),
            final(self).snapshot_count() == old(self).snapshot_count() + 1,
            final(self).snapshot() == Some(snapshot@),
            StorageNodeStoreStateMachine::fits(old(self).state()),
            snapshot@.data == StorageNodeStoreStateMachine::form(old(self).state()),
            snapshot@.meta.last_log_id == old(self).state().last_applied_log,
            snapshot@.meta.last_membership == old(self).state().last_membership,
            snapshot@.meta.snapshot_id == snapshot_id(
                old(self).state().last_applied_log->0,
                (old(self).snapshot_count() + 1) as u64,
            ),
    {
        let data = to_bytes(&self.state_machine);
        let last_applied_log = match self.state_machine.last_applied_log {
            Some(id) => id,
            None => vstd::pervasive::unreached(),
        };
        self.snapshot_idx = self.snapshot_idx + 1;
        let meta = SnapshotMeta {
            last_log_id: Some(last_applied_log),
            last_membership: self.state_machine.last_membership.clone(),
            snapshot_id: snapshot_id_text(&last_applied_log, self.snapshot_idx),
        };
        let snapshot = StorageNodeStoreSnapshot { meta, data };
        self.current_snapshot = Some(snapshot.clone());
        snapshot
    }

    /// An empty buffer to receive a snapshot into.
    pub fn begin_receiving_snapshot(&self) -> (buffer: Vec<u8>)
        ensures
            buffer@.len() == 0,
    {
        Vec::new()
    }

    /// Installs a snapshot that a peer sent: the state machine becomes the one
    /// in `data`, whatever this node had applied, and the snapshot becomes the
    /// current one. Where `data` is not the byte form of a state machine, the
    /// store stays as it is.
    pub fn install_snapshot(&mut self, meta: &SnapshotMeta, data: Vec<u8>) -> (r: Result<
        (),
        StorageError,
    >)
        ensures
            final(self).same_disk(old(self)),
            final(self).same_place(old(self)),
            final(self).snapshot_count() == old(self).snapshot_count(),
            match parse::<StorageNodeStoreStateMachine>(data@) {
                Some(state) => {
                    &&& r is Ok
                    &&& final(self).state() == state
                    &&& final(self).snapshot() == Some(SnapshotView { meta: meta@, data: data@ })
                },
                None => {
                    &&& r matches Err(e) && e == (StorageError::Malformed {
                        subject: ErrorSubject::Snapshot,
                    })
                    &&& final(self).same_memory(old(self))
                },
            },
    {
        match from_bytes::<StorageNodeStoreStateMachine>(data.as_slice()) {
            None => Err(StorageError::Malformed { subject: ErrorSubject::Snapshot }),
            Some(state) => {
                self.state_machine = state;
                self.current_snapshot = Some(
                    StorageNodeStoreSnapshot { meta: meta.clone(), data },
                );
                Ok(())
            },
        }
    }

    /// The current snapshot, if there is one. Nothing is built here.
    pub fn get_current_snapshot(&self) -> (r: Option<StorageNodeStoreSnapshot>)
        ensures
            match self.snapshot() {
                Some(current) => r matches Some(snapshot) && snapshot@ == current,
                None => r is None,
            },
    {
        match &self.current_snapshot {
            Some(current) => Some(current.clone()),
            None => None,
        }
    }
}

} // verus!
