use storage::consensus::ClusterNode;
use storage::consensus::EffectiveMembership;
use storage::consensus::Entry;
use storage::consensus::EntryPayload;
use storage::consensus::LogId;
use storage::consensus::Membership;
use storage::store::snapshot::snapshot_id_text;
use storage::store::ApplyAction;
use storage::store::ErrorSubject;
use storage::store::SnapshotMeta;
use storage::store::StorageError;
use storage::store::StorageNodeFileStore;
use storage::store::StorageNodeRequest;
use storage::store::StorageNodeResponse;
use storage::store::StorageNodeStoreSnapshot;
use storage::store::StorageNodeStoreStateMachine;
use storage::wire::from_bytes;
use storage::wire::to_bytes;
use storage::StorageNode;

fn fresh_store(name: &str) -> StorageNodeFileStore {
    let nanos = std::time::SystemTime::now()
        .duration_since(std::time::UNIX_EPOCH)
        .unwrap()
        .as_nanos();
    StorageNodeFileStore::open_create(&format!("/tmp/storage-tests/{}-{}", name, nanos)).unwrap()
}

fn id(term: u64, index: u64) -> LogId {
    LogId { term, node_id: 1, index }
}

fn write(index: u64, object: &str, bytes: &[u8]) -> Entry {
    Entry {
        log_id: id(1, index),
        payload: EntryPayload::Normal(StorageNodeRequest::StoreData {
            id: object.to_string(),
            value: bytes.to_vec(),
        }),
    }
}

fn members() -> Membership {
    Membership {
        configs: vec![vec![1, 2, 3], vec![2, 3, 4]],
        nodes: vec![
            ClusterNode {
                node_id: 1,
                node: StorageNode {
                    rpc_addr: "10.0.0.1:10001".to_string(),
                    api_addr: "10.0.0.1:10001".to_string(),
                },
            },
            ClusterNode {
                node_id: 5,
                node: StorageNode {
                    rpc_addr: "n\u{f6}de-5:10001".to_string(),
                    api_addr: "node-5:10002".to_string(),
                },
            },
        ],
    }
}

fn empty_response() -> StorageNodeResponse {
    StorageNodeResponse { value: None }
}

#[test]
fn blank_entry_only_moves_the_last_applied_id() {
    let mut sm = StorageNodeStoreStateMachine::new();
    let action = sm.apply_entry(&Entry { log_id: id(1, 1), payload: EntryPayload::Blank });
    assert_eq!(action, ApplyAction::Respond(empty_response()));
    assert_eq!(sm.last_applied_log, Some(id(1, 1)));
    assert_eq!(sm.data, Vec::<String>::new());
    assert_eq!(sm.last_membership, EffectiveMembership::new(None, Membership::new()));
}

#[test]
fn write_entry_asks_for_the_object_to_be_stored() {
    let mut sm = StorageNodeStoreStateMachine::new();
    let action = sm.apply_entry(&write(1, "abcd", b"bytes"));
    assert_eq!(
        action,
        ApplyAction::Store { id: "abcd".to_string(), value: b"bytes".to_vec() }
    );
    assert_eq!(sm.last_applied_log, Some(id(1, 1)));
    assert_eq!(sm.data, vec!["abcd".to_string()]);
}

#[test]
fn response_to_a_write_depends_on_the_outcome_of_the_store() {
    assert_eq!(StorageNodeResponse::after_store(true), Some(empty_response()));
    assert_eq!(StorageNodeResponse::after_store(false), None);
}

#[test]
fn failed_store_does_not_undo_the_entry() {
    let mut sm = StorageNodeStoreStateMachine::new();
    let _ = sm.apply_entry(&write(1, "abcd", b"bytes"));
    assert_eq!(StorageNodeResponse::after_store(false), None);
    assert_eq!(sm.last_applied_log, Some(id(1, 1)));
    assert_eq!(sm.data, vec!["abcd".to_string()]);
}

#[test]
fn membership_entry_replaces_the_membership() {
    let mut sm = StorageNodeStoreStateMachine::new();
    let entry = Entry { log_id: id(2, 7), payload: EntryPayload::Membership(members()) };
    assert_eq!(sm.apply_entry(&entry), ApplyAction::Respond(empty_response()));
    assert_eq!(sm.last_applied_log, Some(id(2, 7)));
    assert_eq!(
        sm.last_membership,
        EffectiveMembership { log_id: Some(id(2, 7)), membership: members() }
    );
    let (last, membership) = sm.last_applied_state();
    assert_eq!(last, Some(id(2, 7)));
    assert_eq!(membership, sm.last_membership);
}

#[test]
fn applying_an_entry_twice_is_applying_it_once() {
    let mut once = StorageNodeStoreStateMachine::new();
    let mut twice = StorageNodeStoreStateMachine::new();
    let entry = write(3, "abcd", b"bytes");
    let _ = once.apply_entry(&entry);
    let _ = twice.apply_entry(&entry);
    let replay = twice.apply_entry(&entry);
    assert_eq!(replay, ApplyAction::Respond(empty_response()));
    assert_eq!(once, twice);
    assert_eq!(twice.last_applied_log, Some(id(1, 3)));
    assert_eq!(twice.data, vec!["abcd".to_string()]);
}

#[test]
fn entries_behind_the_last_applied_one_change_nothing() {
    let mut sm = StorageNodeStoreStateMachine::new();
    let _ = sm.apply_entry(&write(5, "five", b"5"));
    let before = sm.clone();
    let action = sm.apply_entry(&write(4, "four", b"4"));
    assert_eq!(action, ApplyAction::Respond(empty_response()));
    assert_eq!(sm, before);
    let action = sm.apply_entry(&write(6, "six", b"6"));
    assert_eq!(action, ApplyAction::Store { id: "six".to_string(), value: b"6".to_vec() });
    assert_eq!(sm.data, vec!["five".to_string(), "six".to_string()]);
}

#[test]
fn snapshot_is_named_after_entry_and_counter() {
    assert_eq!(snapshot_id_text(&LogId { term: 1, node_id: 2, index: 3 }, 1), "1-2-3-1");
    assert_eq!(
        snapshot_id_text(&LogId { term: 0, node_id: 10, index: 18446744073709551615 }, 907),
        "0-10-18446744073709551615-907"
    );
}

#[test]
fn build_snapshot_stamps_and_caches() {
    let mut store = fresh_store("build-snapshot");
    let _ = store.apply_entry(&write(1, "abcd", b"bytes"));
    let _ = store.apply_entry(&Entry { log_id: id(1, 2), payload: EntryPayload::Membership(members()) });
    assert_eq!(store.get_current_snapshot(), None);
    assert_eq!(store.snapshot_idx(), 0);

    let first = store.build_snapshot();
    assert_eq!(first.meta.last_log_id, Some(id(1, 2)));
    assert_eq!(
        first.meta.last_membership,
        EffectiveMembership { log_id: Some(id(1, 2)), membership: members() }
    );
    assert_eq!(first.meta.snapshot_id, "1-1-2-1");
    assert_eq!(first.data, to_bytes(store.state_machine()));
    assert_eq!(store.get_current_snapshot(), Some(first.clone()));
    assert_eq!(store.snapshot_idx(), 1);

    let second = store.build_snapshot();
    assert_eq!(second.meta.snapshot_id, "1-1-2-2");
    assert_ne!(second.meta.snapshot_id, first.meta.snapshot_id);
    assert_eq!(store.get_current_snapshot(), Some(second));
}

#[test]
fn snapshot_round_trip_reproduces_the_state_machine() {
    let mut source = fresh_store("snapshot-source");
    let _ = source.apply_entry(&write(1, "abcd", b"bytes"));
    let _ = source.apply_entry(&Entry { log_id: id(1, 2), payload: EntryPayload::Membership(members()) });
    let _ = source.apply_entry(&write(3, "ef01", b""));
    let snapshot = source.build_snapshot();

    let mut target = fresh_store("snapshot-target");
    let buffer = target.begin_receiving_snapshot();
    assert_eq!(buffer, Vec::<u8>::new());
    assert_eq!(target.install_snapshot(&snapshot.meta, snapshot.data.clone()), Ok(()));
    assert_eq!(target.last_applied_state(), source.last_applied_state());
    assert_eq!(target.state_machine(), source.state_machine());
    assert_eq!(target.state_machine().data, vec!["abcd".to_string(), "ef01".to_string()]);
    assert_eq!(target.get_current_snapshot(), Some(snapshot));
}

#[test]
fn install_snapshot_may_move_the_state_machine_backwards() {
    let mut behind = StorageNodeStoreStateMachine::new();
    let _ = behind.apply_entry(&write(2, "old", b"o"));
    let meta = SnapshotMeta {
        last_log_id: Some(id(1, 2)),
        last_membership: EffectiveMembership::new(None, Membership::new()),
        snapshot_id: "1-1-2-9".to_string(),
    };
    let mut store = fresh_store("snapshot-backwards");
    let _ = store.apply_entry(&write(8, "new", b"n"));
    assert_eq!(store.install_snapshot(&meta, to_bytes(&behind)), Ok(()));
    assert_eq!(store.last_applied_state().0, Some(id(1, 2)));
    assert_eq!(store.state_machine().data, vec!["old".to_string()]);
    assert_eq!(
        store.get_current_snapshot(),
        Some(StorageNodeStoreSnapshot { meta, data: to_bytes(&behind) })
    );
}

#[test]
fn install_snapshot_refuses_bytes_that_are_no_state_machine() {
    let mut store = fresh_store("snapshot-garbage");
    let _ = store.apply_entry(&write(1, "abcd", b"bytes"));
    let before = store.state_machine().clone();
    let meta = SnapshotMeta {
        last_log_id: Some(id(1, 9)),
        last_membership: EffectiveMembership::new(None, Membership::new()),
        snapshot_id: "x".to_string(),
    };
    assert_eq!(
        store.install_snapshot(&meta, vec![9u8, 9u8, 9u8]),
        Err(StorageError::Malformed { subject: ErrorSubject::Snapshot })
    );
    let mut trailing = to_bytes(&before);
    trailing.push(0u8);
    assert_eq!(
        store.install_snapshot(&meta, trailing),
        Err(StorageError::Malformed { subject: ErrorSubject::Snapshot })
    );
    assert_eq!(store.state_machine(), &before);
    assert_eq!(store.get_current_snapshot(), None);
}

#[test]
fn state_machine_survives_its_byte_form() {
    let mut sm = StorageNodeStoreStateMachine::new();
    let _ = sm.apply_entry(&write(1, "\u{e9}t\u{e9}", b"\x00\xff"));
    let _ = sm.apply_entry(&Entry { log_id: id(4, 2), payload: EntryPayload::Membership(members()) });
    let bytes = to_bytes(&sm);
    assert_eq!(from_bytes::<StorageNodeStoreStateMachine>(&bytes), Some(sm));
}

#[test]
fn batch_is_applied_in_order_with_one_action_per_entry() {
    let mut sm = StorageNodeStoreStateMachine::new();
    let entries = vec![
        Entry { log_id: id(1, 1), payload: EntryPayload::Blank },
        write(2, "aa", b"first"),
        Entry { log_id: id(1, 3), payload: EntryPayload::Membership(members()) },
        write(4, "bb", b"second"),
        write(2, "aa", b"again"),
    ];
    let actions = sm.apply_to_state_machine(&entries);
    assert_eq!(
        actions,
        vec![
            ApplyAction::Respond(empty_response()),
            ApplyAction::Store { id: "aa".to_string(), value: b"first".to_vec() },
            ApplyAction::Respond(empty_response()),
            ApplyAction::Store { id: "bb".to_string(), value: b"second".to_vec() },
            ApplyAction::Respond(empty_response()),
        ]
    );
    assert_eq!(sm.last_applied_log, Some(id(1, 4)));
    assert_eq!(sm.data, vec!["aa".to_string(), "bb".to_string()]);
    assert_eq!(
        sm.last_membership,
        EffectiveMembership { log_id: Some(id(1, 3)), membership: members() }
    );

    // The same batch once more: no write, no change.
    let before = sm.clone();
    let replayed = sm.apply_to_state_machine(&entries);
    let all_respond: Vec<ApplyAction> =
        (0..5).map(|_| ApplyAction::Respond(empty_response())).collect();
    assert_eq!(replayed, all_respond);
    assert_eq!(sm, before);
}

#[test]
fn store_applies_batches_to_its_state_machine() {
    let mut store = fresh_store("apply-batch");
    let actions = store.apply_to_state_machine(&vec![write(1, "aa", b"x"), write(2, "bb", b"y")]);
    assert_eq!(actions.len(), 2);
    assert_eq!(store.last_applied_state().0, Some(id(1, 2)));
    assert_eq!(store.state_machine().data, vec!["aa".to_string(), "bb".to_string()]);
    assert_eq!(store.apply_to_state_machine(&vec![]), vec![]);
    assert_eq!(store.last_applied_state().0, Some(id(1, 2)));
}
