use storage::consensus::ClusterNode;
use storage::consensus::Entry;
use storage::consensus::EntryPayload;
use storage::consensus::LogId;
use storage::network::heartbeat;
use storage::network::heartbeat_url;
use storage::network::management::add_learner;
use storage::network::management::get_health;
use storage::network::management::init;
use storage::network::raft_network_impl::Exchange;
use storage::network::raft_network_impl::RpcError;
use storage::network::raft_network_impl::RpcKind;
use storage::network::raft_network_impl::StorageNodeNetwork;
use storage::network::slice::check_slice_id;
use storage::network::slice::get_slice;
use storage::network::slice::get_slice_reply;
use storage::network::slice::put_slice;
use storage::network::slice::put_slice_reply;
use storage::network::slice::GetSlicePlan;
use storage::network::slice::PutSlicePlan;
use storage::network::slice::WriteOutcome;
use storage::network::Heartbeat;
use storage::network::HttpReply;
use storage::network::ReplyBody;
use storage::store::fs_io::SliceLocation;
use storage::store::ApplyAction;
use storage::store::StorageNodeRequest;
use storage::store::StorageNodeResponse;
use storage::store::StorageNodeStoreStateMachine;
use storage::StorageNode;

const ID: &str = "0123456789abcdef0123456789abcdef0123456789ABCDEF0123456789abcdef";

fn not_acceptable() -> HttpReply {
    HttpReply {
        status: 406,
        content_type: None,
        location: None,
        body: ReplyBody::Text("ID should be 64 hexadecimal characters.".to_string()),
    }
}

fn node(addr: &str) -> StorageNode {
    StorageNode { rpc_addr: addr.to_string(), api_addr: addr.to_string() }
}

#[test]
fn object_id_is_64_hexadecimal_digits() {
    assert!(check_slice_id(ID));
    assert!(!check_slice_id(""));
    assert!(!check_slice_id(&ID[..63]));
    assert!(!check_slice_id(&format!("{}0", ID)));
    assert!(!check_slice_id(&ID.replace('f', "g")));
    assert!(!check_slice_id(&ID.replace('0', "/")));
    assert!(!check_slice_id(&ID.replace('0', ".")));
    assert!(!check_slice_id(&ID.replace('0', "\u{e9}")));
}

#[test]
fn single_node_write_then_read() {
    // The write is taken, carried by a log entry, applied, stored.
    let plan = put_slice(ID, b"object bytes".to_vec());
    let request = match plan {
        PutSlicePlan::Write(request) => request,
        PutSlicePlan::Reject(reply) => panic!("refused: {:?}", reply),
    };
    assert_eq!(
        request,
        StorageNodeRequest::StoreData { id: ID.to_string(), value: b"object bytes".to_vec() }
    );
    let mut sm = StorageNodeStoreStateMachine::new();
    let entry = Entry {
        log_id: LogId { term: 1, node_id: 0, index: 1 },
        payload: EntryPayload::Normal(request),
    };
    let action = sm.apply_entry(&entry);
    assert_eq!(
        action,
        ApplyAction::Store { id: ID.to_string(), value: b"object bytes".to_vec() }
    );
    assert_eq!(
        StorageNodeResponse::after_store(true),
        Some(StorageNodeResponse { value: None })
    );
    assert_eq!(
        put_slice_reply(ID, &WriteOutcome::Written),
        HttpReply { status: 200, content_type: None, location: None, body: ReplyBody::EngineResult }
    );

    // The read finds the file that the write went to.
    let plan = get_slice("/tmp/storage", 10, ID);
    assert_eq!(
        plan,
        GetSlicePlan::Read(SliceLocation {
            directory: "/tmp/storage/01/23/45/67/89/ab/cd/ef/01/23".to_string(),
            path: "/tmp/storage/01/23/45/67/89/ab/cd/ef/01/23/456789abcdef0123456789ABCDEF0123456789abcdef"
                .to_string(),
        })
    );
    assert_eq!(
        get_slice_reply(Ok(b"object bytes".to_vec())),
        HttpReply {
            status: 200,
            content_type: Some("application/octet-stream".to_string()),
            location: None,
            body: ReplyBody::Bytes(b"object bytes".to_vec()),
        }
    );
}

#[test]
fn read_of_an_object_that_is_not_there_is_not_found() {
    assert_eq!(
        get_slice_reply(Err("No such file or directory (os error 2)".to_string())),
        HttpReply {
            status: 404,
            content_type: None,
            location: None,
            body: ReplyBody::Text(
                "No such result.\nDetail: No such file or directory (os error 2)".to_string()
            ),
        }
    );
}

#[test]
fn write_to_a_follower_is_redirected_to_the_leader() {
    let outcome = WriteOutcome::ForwardToLeader { leader: Some(node("10.0.0.2:10001")) };
    assert_eq!(
        put_slice_reply(ID, &outcome),
        HttpReply {
            status: 307,
            content_type: None,
            location: Some(format!("http://10.0.0.2:10001/slice/{}", ID)),
            body: ReplyBody::EngineResult,
        }
    );
}

#[test]
fn write_without_a_known_leader_is_a_server_error() {
    let server_error =
        HttpReply { status: 500, content_type: None, location: None, body: ReplyBody::EngineResult };
    assert_eq!(
        put_slice_reply(ID, &WriteOutcome::ForwardToLeader { leader: None }),
        server_error
    );
    assert_eq!(put_slice_reply(ID, &WriteOutcome::Failed), server_error);
}

#[test]
fn malformed_id_is_refused_before_anything_is_written() {
    let short = &ID[..33];
    assert_eq!(short.len(), 33);
    assert_eq!(put_slice(short, b"bytes".to_vec()), PutSlicePlan::Reject(not_acceptable()));
    assert_eq!(get_slice("/tmp/storage", 10, short), GetSlicePlan::Reject(not_acceptable()));
    assert_eq!(put_slice("", Vec::new()), PutSlicePlan::Reject(not_acceptable()));
}

#[test]
fn every_kind_of_request_has_its_path() {
    let network = StorageNodeNetwork {};
    let connection = network.new_client(3, &node("10.0.0.3:10001"));
    assert_eq!(connection.target_id, 3);
    assert_eq!(connection.target, node("10.0.0.3:10001"));
    assert_eq!(connection.url(RpcKind::AppendEntries), "http://10.0.0.3:10001/raft-append");
    assert_eq!(connection.url(RpcKind::InstallSnapshot), "http://10.0.0.3:10001/raft-snapshot");
    assert_eq!(connection.url(RpcKind::Vote), "http://10.0.0.3:10001/raft-vote");
    assert_eq!(RpcKind::Vote.uri(), "raft-vote");
    let target = StorageNode { rpc_addr: "rpc:1".to_string(), api_addr: "api:2".to_string() };
    assert_eq!(network.url(&target, "raft-vote"), "http://api:2/raft-vote");
}

#[test]
fn outcomes_of_an_exchange_are_told_apart() {
    let network = StorageNodeNetwork {};
    assert_eq!(
        network.send_rpc::<u8, String>(4, Exchange::Unreachable("refused".to_string())),
        Err(RpcError::Network("refused".to_string()))
    );
    assert_eq!(
        network.send_rpc::<u8, String>(4, Exchange::Unreadable("eof".to_string())),
        Err(RpcError::RemoteDecode("eof".to_string()))
    );
    assert_eq!(network.send_rpc::<u8, String>(4, Exchange::Answered(Ok(7))), Ok(7));
    assert_eq!(
        network.send_rpc::<u8, String>(4, Exchange::Answered(Err("stale term".to_string()))),
        Err(RpcError::RemoteError { target: 4, error: "stale term".to_string() })
    );
    let connection = network.new_client(9, &node("peer:1"));
    assert_eq!(
        connection.send::<u8, String>(Exchange::Answered(Err("no".to_string()))),
        Err(RpcError::RemoteError { target: 9, error: "no".to_string() })
    );
}

#[test]
fn learner_and_first_node_are_reached_under_one_address() {
    assert_eq!(
        add_learner(2, "10.0.0.2:10001"),
        ClusterNode { node_id: 2, node: node("10.0.0.2:10001") }
    );
    assert_eq!(
        init(1, "10.0.0.1:10001"),
        vec![ClusterNode { node_id: 1, node: node("10.0.0.1:10001") }]
    );
}

#[test]
fn health_probe_is_answered() {
    assert_eq!(
        get_health(),
        HttpReply {
            status: 200,
            content_type: None,
            location: None,
            body: ReplyBody::Text("I'm healthy.".to_string()),
        }
    );
}

#[test]
fn heartbeat_tells_the_monitor_whether_the_node_serves() {
    assert_eq!(
        heartbeat(0, 12, "Follower".to_string(), "10.0.0.1:10001"),
        Heartbeat {
            status: "ready".to_string(),
            node_id: "12".to_string(),
            role: "Follower".to_string(),
            addr: "10.0.0.1:10001".to_string(),
            group: "-1".to_string(),
            nodemap_version: 1,
        }
    );
    assert_eq!(heartbeat(3, 0, "Leader".to_string(), "a").status, "serving");
    assert_eq!(heartbeat(3, 0, "Leader".to_string(), "a").node_id, "0");
    assert_eq!(heartbeat(1, u64::MAX, "Leader".to_string(), "a").node_id, "18446744073709551615");
    assert_eq!(heartbeat_url("monitor:9000"), "http://monitor:9000/heartbeat");
}

#[test]
fn node_is_shown_with_both_addresses() {
    let shown = StorageNode { rpc_addr: "rpc:1".to_string(), api_addr: "api:2".to_string() };
    assert_eq!(shown.to_display_string(), "ExampleNode { rpc_addr: rpc:1, api_addr: api:2 }");
    assert_eq!(StorageNode::default(), node(""));
}
