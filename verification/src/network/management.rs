//! Setting up a cluster and looking at it.
use vstd::prelude::*;
use vstd::string::*;

use crate::consensus::ClusterNode;
use crate::consensus::ClusterNodeView;
use crate::network::text_reply;
use crate::network::HttpReply;
use crate::network::ReplyBody;
use crate::network::STATUS_OK;
use crate::StorageNode;
use crate::StorageNodeId;
use crate::StorageNodeView;

verus! {

/// The node that is reached under `address`, for the traffic between nodes and
/// for clients alike.
pub open spec fn node_at(address: Seq<char>) -> StorageNodeView {
    StorageNodeView { rpc_addr: address, api_addr: address }
}

/// The node to add as a learner, given the address that the request names. A
/// learner receives the log and does not vote.
pub fn add_learner(node_id: StorageNodeId, address: &str) -> (learner: ClusterNode)
    ensures
        learner@ == (ClusterNodeView { node_id, node: node_at(address@) }),
{
    ClusterNode {
        node_id,
        node: StorageNode { rpc_addr: address.to_owned(), api_addr: address.to_owned() },
    }
}

/// The nodes of a cluster that is set up with this node alone.
pub fn init(node_id: StorageNodeId, node_addr: &str) -> (nodes: Vec<ClusterNode>)
    ensures
        nodes@.len() == 1,
        nodes@[0]@ == (ClusterNodeView { node_id, node: node_at(node_addr@) }),
{
    let mut nodes: Vec<ClusterNode> = Vec::new();
    nodes.push(add_learner(node_id, node_addr));
    nodes
}

/// The answer to a probe of whether the node is alive.
pub fn get_health() -> (reply: HttpReply)
    ensures
        reply@ == text_reply(STATUS_OK, "I'm healthy."@),
{
    HttpReply {
        status: STATUS_OK,
        content_type: None,
        location: None,
        body: ReplyBody::Text("I'm healthy.".to_owned()),
    }
}

} // verus!
