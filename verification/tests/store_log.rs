use storage::consensus::Entry;
use storage::consensus::EntryPayload;
use storage::consensus::LogId;
use storage::consensus::Membership;
use storage::consensus::Vote;
use storage::store::log::decode_entry_records;
use storage::store::file_store::decode_stored;
use storage::store::ErrorSubject;
use storage::store::ErrorVerb;
use storage::store::Limit;
use storage::store::LogState;
use storage::store::StorageError;
use storage::store::StorageNodeFileStore;
use storage::store::StorageNodeRequest;
use storage::wire::to_bytes;

fn fresh_root(name: &str) -> String {
    let nanos = std::time::SystemTime::now()
        .duration_since(std::time::UNIX_EPOCH)
        .unwrap()
        .as_nanos();
    format!("/tmp/storage-tests/{}-{}", name, nanos)
}

fn fresh_store(name: &str) -> StorageNodeFileStore {
    StorageNodeFileStore::open_create(&fresh_root(name)).unwrap()
}

fn id(term: u64, index: u64) -> LogId {
    LogId { term, node_id: 0, index }
}

fn blank(term: u64, index: u64) -> Entry {
    Entry { log_id: id(term, index), payload: EntryPayload::Blank }
}

fn write(term: u64, index: u64, object: &str, bytes: &[u8]) -> Entry {
    Entry {
        log_id: id(term, index),
        payload: EntryPayload::Normal(StorageNodeRequest::StoreData {
            id: object.to_string(),
            value: bytes.to_vec(),
        }),
    }
}

fn whole_log(store: &StorageNodeFileStore) -> Vec<Entry> {
    store.try_get_log_entries(Limit::Unbounded, Limit::Unbounded).unwrap()
}

#[test]
fn test_mem_store() {
    let mut store = fresh_store("mem-store");

    // A new store: no vote, no log, nothing applied, no snapshot.
    assert_eq!(store.read_vote(), Ok(None));
    assert_eq!(
        store.get_log_state(),
        Ok(LogState { last_purged_log_id: None, last_log_id: None })
    );
    assert_eq!(whole_log(&store), Vec::<Entry>::new());
    let (last_applied, membership) = store.last_applied_state();
    assert_eq!(last_applied, None);
    assert_eq!(membership.log_id, None);
    assert_eq!(membership.membership, Membership { configs: vec![], nodes: vec![] });
    assert_eq!(store.get_current_snapshot(), None);

    // The vote is one slot.
    let first = Vote { term: 1, voted_for: Some(2), committed: false };
    let second = Vote { term: 3, voted_for: Some(1), committed: true };
    assert_eq!(store.save_vote(&first), Ok(()));
    assert_eq!(store.read_vote(), Ok(Some(first)));
    assert_eq!(store.save_vote(&second), Ok(()));
    assert_eq!(store.read_vote(), Ok(Some(second)));

    // The log: append, read ranges, delete a tail, purge a head.
    let entries: Vec<Entry> = (1..=10).map(|i| blank(1, i)).collect();
    assert_eq!(store.append_to_log(&entries), Ok(()));
    assert_eq!(whole_log(&store), entries);
    assert_eq!(
        store.get_log_state(),
        Ok(LogState { last_purged_log_id: None, last_log_id: Some(id(1, 10)) })
    );
    assert_eq!(
        store.try_get_log_entries(Limit::Included(3), Limit::Excluded(6)),
        Ok(vec![blank(1, 3), blank(1, 4), blank(1, 5)])
    );
    assert_eq!(
        store.try_get_log_entries(Limit::Excluded(8), Limit::Unbounded),
        Ok(vec![blank(1, 9), blank(1, 10)])
    );
    assert_eq!(store.try_get_log_entries(Limit::Included(11), Limit::Unbounded), Ok(vec![]));

    assert_eq!(store.delete_conflict_logs_since(id(1, 8)), Ok(()));
    assert_eq!(whole_log(&store), entries[..7].to_vec());
    assert_eq!(store.try_purge_logs_upto(id(1, 3)), Ok(true));
    assert_eq!(whole_log(&store), entries[3..7].to_vec());
    assert_eq!(
        store.get_log_state(),
        Ok(LogState { last_purged_log_id: Some(id(1, 3)), last_log_id: Some(id(1, 7)) })
    );

    // The vote is still there.
    assert_eq!(store.read_vote(), Ok(Some(second)));
}

#[test]
fn append_then_read_returns_what_was_appended() {
    let mut store = fresh_store("append-read");
    let first = vec![blank(1, 1), write(1, 2, "aa", b"one"), blank(1, 3)];
    let second = vec![write(2, 4, "bb", b"two"), blank(2, 5)];
    assert_eq!(store.append_to_log(&first), Ok(()));
    assert_eq!(store.append_to_log(&second), Ok(()));
    let mut all = first.clone();
    all.extend(second.clone());
    assert_eq!(whole_log(&store), all);
    let indexes: Vec<u64> = whole_log(&store).iter().map(|e| e.log_id.index).collect();
    assert_eq!(indexes, vec![1, 2, 3, 4, 5]);
}

#[test]
fn append_replaces_the_entry_at_an_index() {
    let mut store = fresh_store("append-replace");
    assert_eq!(store.append_to_log(&vec![blank(1, 1), blank(1, 2)]), Ok(()));
    assert_eq!(store.append_to_log(&vec![write(2, 2, "cc", b"new")]), Ok(()));
    assert_eq!(whole_log(&store), vec![blank(1, 1), write(2, 2, "cc", b"new")]);
}

#[test]
fn log_is_read_in_order_of_index_across_byte_boundaries() {
    let mut store = fresh_store("byte-order");
    let entries = vec![
        blank(1, 65536),
        blank(1, 256),
        blank(1, 1),
        blank(1, 255),
        blank(1, 4294967296),
        blank(1, 257),
    ];
    assert_eq!(store.append_to_log(&entries), Ok(()));
    let indexes: Vec<u64> = whole_log(&store).iter().map(|e| e.log_id.index).collect();
    assert_eq!(indexes, vec![1, 255, 256, 257, 65536, 4294967296]);
    assert_eq!(
        store.try_get_log_entries(Limit::Included(256), Limit::Included(65536)),
        Ok(vec![blank(1, 256), blank(1, 257), blank(1, 65536)])
    );
    assert_eq!(
        store.get_log_state(),
        Ok(LogState { last_purged_log_id: None, last_log_id: Some(id(1, 4294967296)) })
    );
}

#[test]
fn purge_reports_the_purged_id_and_empties_the_prefix() {
    let mut store = fresh_store("purge");
    let entries: Vec<Entry> = (1..=6).map(|i| blank(1, i)).collect();
    assert_eq!(store.append_to_log(&entries), Ok(()));
    assert_eq!(store.purge_logs_upto(id(1, 4)), Ok(()));
    assert_eq!(store.get_log_state().unwrap().last_purged_log_id, Some(id(1, 4)));
    assert_eq!(store.get_last_purged_log_id(), Ok(Some(id(1, 4))));
    assert_eq!(store.try_get_log_entries(Limit::Unbounded, Limit::Included(4)), Ok(vec![]));
    assert_eq!(whole_log(&store), vec![blank(1, 5), blank(1, 6)]);
}

#[test]
fn purge_of_the_whole_log_leaves_the_purged_id_as_last_log_id() {
    let mut store = fresh_store("purge-all");
    assert_eq!(store.append_to_log(&vec![blank(1, 1), blank(2, 2)]), Ok(()));
    assert_eq!(store.try_purge_logs_upto(id(2, 2)), Ok(true));
    assert_eq!(whole_log(&store), vec![]);
    assert_eq!(
        store.get_log_state(),
        Ok(LogState { last_purged_log_id: Some(id(2, 2)), last_log_id: Some(id(2, 2)) })
    );
}

#[test]
fn purge_does_not_go_backwards() {
    let mut store = fresh_store("purge-back");
    let entries: Vec<Entry> = (1..=6).map(|i| blank(1, i)).collect();
    assert_eq!(store.append_to_log(&entries), Ok(()));
    assert_eq!(store.try_purge_logs_upto(id(1, 4)), Ok(true));
    assert_eq!(store.try_purge_logs_upto(id(1, 2)), Ok(false));
    assert_eq!(store.get_last_purged_log_id(), Ok(Some(id(1, 4))));
    assert_eq!(whole_log(&store), vec![blank(1, 5), blank(1, 6)]);
    assert_eq!(store.try_purge_logs_upto(id(1, 4)), Ok(true));
    assert_eq!(store.try_purge_logs_upto(id(1, 5)), Ok(true));
    assert_eq!(whole_log(&store), vec![blank(1, 6)]);
}

#[test]
fn delete_removes_the_suffix_and_nothing_else() {
    let mut store = fresh_store("delete");
    let entries: Vec<Entry> = (1..=6).map(|i| write(1, i, "dd", &[i as u8])).collect();
    assert_eq!(store.append_to_log(&entries), Ok(()));
    assert_eq!(store.delete_conflict_logs_since(id(1, 4)), Ok(()));
    assert_eq!(whole_log(&store), entries[..3].to_vec());
    assert_eq!(store.try_get_log_entries(Limit::Included(4), Limit::Unbounded), Ok(vec![]));
    assert_eq!(store.delete_conflict_logs_since(id(1, 9)), Ok(()));
    assert_eq!(whole_log(&store), entries[..3].to_vec());
    assert_eq!(store.delete_conflict_logs_since(id(1, 0)), Ok(()));
    assert_eq!(whole_log(&store), vec![]);
}

#[test]
fn store_keeps_log_and_vote_across_a_restart() {
    let root = fresh_root("restart");
    let vote = Vote { term: 7, voted_for: None, committed: false };
    {
        let mut store = StorageNodeFileStore::open_create(&root).unwrap();
        assert_eq!(store.append_to_log(&vec![blank(1, 1), blank(1, 2), blank(1, 3)]), Ok(()));
        assert_eq!(store.save_vote(&vote), Ok(()));
        assert_eq!(store.try_purge_logs_upto(id(1, 1)), Ok(true));
    }
    let store = StorageNodeFileStore::open_create(&root).unwrap();
    assert_eq!(store.read_vote(), Ok(Some(vote)));
    assert_eq!(whole_log(&store), vec![blank(1, 2), blank(1, 3)]);
    assert_eq!(
        store.get_log_state(),
        Ok(LogState { last_purged_log_id: Some(id(1, 1)), last_log_id: Some(id(1, 3)) })
    );
}

#[test]
fn opening_a_store_where_none_can_be_fails() {
    let result = StorageNodeFileStore::open_create("/proc/no-such-place");
    match result {
        Err(StorageError::Backend { subject, verb, .. }) => {
            assert_eq!(subject, ErrorSubject::Store);
            assert_eq!(verb, ErrorVerb::Read);
        }
        other => panic!("expected a failure of the tree, got {:?}", other.map(|_| ())),
    }
}

#[test]
fn records_of_the_wrong_form_are_reported() {
    let good = blank(1, 5);
    let key = to_bytes(&5u64);
    let value = to_bytes(&good);
    assert_eq!(decode_entry_records(&vec![(key.clone(), value.clone())]), Ok(vec![blank(1, 5)]));
    // The value is cut short.
    assert_eq!(
        decode_entry_records(&vec![(key.clone(), value[..value.len() - 1].to_vec())]),
        Err(StorageError::Malformed { subject: ErrorSubject::Logs })
    );
    // The key is that of another index.
    assert_eq!(
        decode_entry_records(&vec![(to_bytes(&6u64), value.clone())]),
        Err(StorageError::Malformed { subject: ErrorSubject::Logs })
    );
    // The key is no index at all.
    assert_eq!(
        decode_entry_records(&vec![(vec![0u8, 5u8], value)]),
        Err(StorageError::Malformed { subject: ErrorSubject::Logs })
    );
    assert_eq!(
        decode_stored::<Vote>(Some(vec![1u8, 2u8, 3u8]), ErrorSubject::Vote),
        Err(StorageError::Malformed { subject: ErrorSubject::Vote })
    );
    assert_eq!(decode_stored::<Vote>(None, ErrorSubject::Vote), Ok(None));
}

#[test]
fn last_purged_id_of_the_wrong_form_is_reported() {
    assert_eq!(
        decode_stored::<LogId>(Some(vec![0u8; 23]), ErrorSubject::LastPurged),
        Err(StorageError::Malformed { subject: ErrorSubject::LastPurged })
    );
    assert_eq!(
        decode_stored::<LogId>(Some(to_bytes(&id(3, 4))), ErrorSubject::LastPurged),
        Ok(Some(id(3, 4)))
    );
}

#[test]
fn stores_below_different_locations_are_apart() {
    let first_root = fresh_root("apart-first");
    let second_root = fresh_root("apart-second");
    let vote = Vote { term: 2, voted_for: Some(1), committed: true };
    let mut first = StorageNodeFileStore::open_create(&first_root).unwrap();
    let second = StorageNodeFileStore::open_create(&second_root).unwrap();
    assert_eq!(first.save_vote(&vote), Ok(()));
    assert_eq!(first.append_to_log(&vec![blank(1, 1)]), Ok(()));
    assert_eq!(second.read_vote(), Ok(None));
    assert_eq!(whole_log(&second), vec![]);
    // The log and the vote do not share a tree.
    assert_eq!(whole_log(&first), vec![blank(1, 1)]);
    assert_eq!(first.read_vote(), Ok(Some(vote)));
    drop(first);
    let again = StorageNodeFileStore::open_create(&first_root).unwrap();
    assert_eq!(again.read_vote(), Ok(Some(vote)));
    assert_eq!(whole_log(&again), vec![blank(1, 1)]);
}
