//! Reaching the peers of a node.
//!
//! The consensus engine sends three kinds of request to a peer. Each goes to a
//! path of its own on the peer's address, and each exchange ends in one of
//! four ways, which the engine must be able to tell apart: a failure of the
//! network may be tried again, an answer that cannot be read or a refusal by
//! the peer may not.
use vstd::prelude::*;
use vstd::string::*;

use crate::StorageNode;
use crate::StorageNodeId;
use crate::StorageNodeView;

verus! {

/// The requests that the consensus engine sends to a peer.
#[derive(Clone, Copy, Debug, PartialEq, Eq, Structural)]
pub enum RpcKind {
    AppendEntries,
    InstallSnapshot,
    Vote,
}

/// The path under which a peer takes a kind of request.
pub open spec fn rpc_path(kind: RpcKind) -> Seq<char> {
    match kind {
        RpcKind::AppendEntries => "raft-append"@,
        RpcKind::InstallSnapshot => "raft-snapshot"@,
        RpcKind::Vote => "raft-vote"@,
    }
}

/// The address that a request to `target` for `uri` is sent to.
pub open spec fn rpc_url(target: StorageNodeView, uri: Seq<char>) -> Seq<char> {
    "http://"@ + target.api_addr + "/"@ + uri
}

impl RpcKind {
    /// The path under which a peer takes this kind of request.
    pub fn uri(&self) -> (uri: &'static str)
        ensures
            uri@ == rpc_path(*self),
    {
        match self {
            RpcKind::AppendEntries => "raft-append",
            RpcKind::InstallSnapshot => "raft-snapshot",
            RpcKind::Vote => "raft-vote",
        }
    }
}

/// How an exchange with a peer went.
#[derive(Debug, PartialEq, Eq)]
pub enum Exchange<R, E> {
    /// The request did not reach the peer, or no answer came back.
    Unreachable(String),
    /// An answer came back that cannot be read.
    Unreadable(String),
    /// The peer answered: with a response, or with its reason to refuse.
    Answered(Result<R, E>),
}

/// Why a request to a peer has no response.
#[derive(Debug, PartialEq, Eq)]
pub enum RpcError<E> {
    /// The network failed. The request may be sent again.
    Network(String),
    /// The peer's answer cannot be read.
    RemoteDecode(String),
    /// The peer `target` understood the request and refused it.
    RemoteError { target: StorageNodeId, error: E },
}

/// The way from a node to its peers.
#[derive(Clone, Copy, Debug, PartialEq, Eq, Structural)]
pub struct StorageNodeNetwork {}

/// The way from a node to one peer.
#[derive(Debug, PartialEq, Eq)]
pub struct StorageNodeNetworkConnection {
    pub owner: StorageNodeNetwork,
    pub target_id: StorageNodeId,
    pub target: StorageNode,
}

impl StorageNodeNetwork {
    /// The address that a request to `target_node` for `uri` is sent to.
    pub fn url(&self, target_node: &StorageNode, uri: &str) -> (url: String)
        ensures
            url@ == rpc_url(target_node@, uri@),
    {
        let mut url = "http://".to_owned();
        url.append(target_node.api_addr.as_str());
        url.append("/");
        url.append(uri);
        url
    }

    /// What the consensus engine is told of an exchange with `target`: the
    /// peer's response, or why there is none.
    pub fn send_rpc<R, E>(&self, target: StorageNodeId, exchange: Exchange<R, E>) -> (r: Result<
        R,
        RpcError<E>,
    >)
        ensures
            r == match exchange {
                Exchange::Unreachable(detail) => Err::<R, RpcError<E>>(RpcError::Network(detail)),
                Exchange::Unreadable(detail) => Err(RpcError::RemoteDecode(detail)),
                Exchange::Answered(Ok(response)) => Ok(response),
                Exchange::Answered(Err(error)) => Err(RpcError::RemoteError { target, error }),
            },
    {
        match exchange {
            Exchange::Unreachable(detail) => Err(RpcError::Network(detail)),
            Exchange::Unreadable(detail) => Err(RpcError::RemoteDecode(detail)),
            Exchange::Answered(Ok(response)) => Ok(response),
            Exchange::Answered(Err(error)) => Err(RpcError::RemoteError { target, error }),
        }
    }

    /// A connection to the peer `target_id`, which is reached as `target_node`
    /// says. Every call makes a connection of its own.
    pub fn new_client(&self, target_id: StorageNodeId, target_node: &StorageNode) -> (connection:
        StorageNodeNetworkConnection)
        ensures
            connection.target_id == target_id,
            connection.target@ == target_node@,
    {
        StorageNodeNetworkConnection {
            owner: StorageNodeNetwork {  },
            target_id,
            target: target_node.clone(),
        }
    }
}

impl StorageNodeNetworkConnection {
    /// The address that a request of the given kind is sent to.
    pub fn url(&self, kind: RpcKind) -> (url: String)
        ensures
            url@ == rpc_url(self.target@, rpc_path(kind)),
    {
        self.owner.url(&self.target, kind.uri())
    }

    /// What the consensus engine is told of an exchange with the peer.
    pub fn send<R, E>(&self, exchange: Exchange<R, E>) -> (r: Result<R, RpcError<E>>)
        ensures
            r == match exchange {
                Exchange::Unreachable(detail) => Err::<R, RpcError<E>>(RpcError::Network(detail)),
                Exchange::Unreadable(detail) => Err(RpcError::RemoteDecode(detail)),
                Exchange::Answered(Ok(response)) => Ok(response),
                Exchange::Answered(Err(error)) => Err(
                    RpcError::RemoteError { target: self.target_id, error },
                ),
            },
    {
        self.owner.send_rpc(self.target_id, exchange)
    }
}

} // verus!
