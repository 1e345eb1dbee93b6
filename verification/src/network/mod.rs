//! The answers of a node: to clients over HTTP, to peers, and to the monitor.
//!
//! Nothing here listens or sends. Each function decides what is to be sent,
//! given what came in and what the store or the consensus engine said; the
//! server around the library does the sending.
pub mod management;
pub mod raft_network_impl;
pub mod slice;

use vstd::prelude::*;
use vstd::string::*;

use crate::text::decimal;
use crate::text::push_decimal;
use crate::StorageNodeId;

verus! {

/// Status of an answer that carries what was asked for.
pub const STATUS_OK: u16 = 200;

/// Status of an answer that sends the client to another node.
pub const STATUS_TEMPORARY_REDIRECT: u16 = 307;

/// Status of an answer to a request for an object that is not there.
pub const STATUS_NOT_FOUND: u16 = 404;

/// Status of an answer to a request whose object id is malformed.
pub const STATUS_NOT_ACCEPTABLE: u16 = 406;

/// Status of an answer to a request that the node could not carry out.
pub const STATUS_INTERNAL_SERVER_ERROR: u16 = 500;

/// What an answer carries.
#[derive(Debug, PartialEq, Eq)]
pub enum ReplyBody {
    /// A text.
    Text(String),
    /// The bytes of an object.
    Bytes(Vec<u8>),
    /// What the consensus engine answered, as JSON. The server writes it: the
    /// engine's answers do not pass through this library.
    EngineResult,
}

/// A `ReplyBody` as mathematics.
pub enum ReplyBodyView {
    Text(Seq<char>),
    Bytes(Seq<u8>),
    EngineResult,
}

impl View for ReplyBody {
    type V = ReplyBodyView;

    open spec fn view(&self) -> ReplyBodyView {
        match self {
            ReplyBody::Text(text) => ReplyBodyView::Text(text@),
            ReplyBody::Bytes(bytes) => ReplyBodyView::Bytes(bytes@),
            ReplyBody::EngineResult => ReplyBodyView::EngineResult,
        }
    }
}

/// An answer over HTTP.
#[derive(Debug, PartialEq, Eq)]
pub struct HttpReply {
    pub status: u16,
    /// The `Content-Type` header, where the answer sets one itself.
    pub content_type: Option<String>,
    /// The `Location` header of a redirect.
    pub location: Option<String>,
    pub body: ReplyBody,
}

/// An `HttpReply` as mathematics.
pub struct HttpReplyView {
    pub status: u16,
    pub content_type: Option<Seq<char>>,
    pub location: Option<Seq<char>>,
    pub body: ReplyBodyView,
}

impl View for HttpReply {
    type V = HttpReplyView;

    open spec fn view(&self) -> HttpReplyView {
        HttpReplyView {
            status: self.status,
            content_type: match self.content_type {
                Some(text) => Some(text@),
                None => None,
            },
            location: match self.location {
                Some(text) => Some(text@),
                None => None,
            },
            body: self.body@,
        }
    }
}

/// An answer that carries a text and no header of its own.
pub open spec fn text_reply(status: u16, text: Seq<char>) -> HttpReplyView {
    HttpReplyView { status, content_type: None, location: None, body: ReplyBodyView::Text(text) }
}

/// What a node reports of itself to the monitor.
#[derive(Debug, PartialEq, Eq)]
pub struct Heartbeat {
    /// `ready` before the node has seen a term, `serving` after.
    pub status: String,
    /// The number of the node, in decimal.
    pub node_id: String,
    /// The part that the node plays in the cluster, as the consensus engine
    /// names it.
    pub role: String,
    /// The address under which the node is reached.
    pub addr: String,
    /// The group of the node: always `-1`.
    pub group: String,
    /// The version of the node map: always 1.
    pub nodemap_version: u64,
}

/// Whether a node that is in the term `current_term` serves, as the monitor
/// is told: `ready` in term 0, `serving` in any later term.
pub open spec fn node_status(current_term: u64) -> Seq<char> {
    if current_term == 0 {
        "ready"@
    } else {
        "serving"@
    }
}

/// The report of a node to the monitor.
pub fn heartbeat(current_term: u64, node_id: StorageNodeId, role: String, node_addr: &str) -> (report:
    Heartbeat)
    ensures
        report.status@ == node_status(current_term),
        report.node_id@ == decimal(node_id as nat),
        report.role == role,
        report.addr@ == node_addr@,
        report.group@ == "-1"@,
        report.nodemap_version == 1,
{
    let status = if current_term == 0 {
        "ready".to_owned()
    } else {
        "serving".to_owned()
    };
    let mut id_text = String::new();
    push_decimal(&mut id_text, node_id);
    assert(id_text@ =~= decimal(node_id as nat));
    Heartbeat {
        status,
        node_id: id_text,
        role,
        addr: node_addr.to_owned(),
        group: "-1".to_owned(),
        nodemap_version: 1,
    }
}

/// Where the monitor takes heartbeats.
pub fn heartbeat_url(monitor_addr: &str) -> (url: String)
    ensures
        url@ == "http://"@ + monitor_addr@ + "/heartbeat"@,
{
    let mut url = "http://".to_owned();
    url.append(monitor_addr);
    url.append("/heartbeat");
    url
}

} // verus!
