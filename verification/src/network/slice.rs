//! Reading and writing objects over HTTP.
//!
//! A request is answered in two steps, with the work of the server between
//! them. First the object id is checked: a malformed id is refused at once,
//! before a file is touched or a log entry is made. Then the server reads the
//! file, or hands the write to the consensus engine, and the outcome decides
//! the answer.
use vstd::prelude::*;
use vstd::string::*;

use crate::network::text_reply;
use crate::network::HttpReply;
use crate::network::HttpReplyView;
use crate::network::ReplyBody;
use crate::network::ReplyBodyView;
use crate::network::STATUS_INTERNAL_SERVER_ERROR;
use crate::network::STATUS_NOT_ACCEPTABLE;
use crate::network::STATUS_NOT_FOUND;
use crate::network::STATUS_OK;
use crate::network::STATUS_TEMPORARY_REDIRECT;
use crate::store::fs_io::slice_location;
use crate::store::fs_io::slice_path;
use crate::store::fs_io::slice_directory;
use crate::store::fs_io::SliceLocation;
use crate::store::StorageNodeRequest;
use crate::store::StorageNodeRequestView;
use crate::StorageNode;
use crate::StorageNodeView;

verus! {

/// The number of characters of an object id.
pub const SLICE_ID_LENGTH: usize = 64;

/// Whether `c` is a hexadecimal digit.
pub open spec fn is_hex_digit(c: char) -> bool {
    ('0' <= c && c <= '9') || ('a' <= c && c <= 'f') || ('A' <= c && c <= 'F')
}

/// Whether `id` is an object id: 64 hexadecimal digits.
pub open spec fn is_slice_id(id: Seq<char>) -> bool {
    &&& id.len() == SLICE_ID_LENGTH
    &&& forall|i: int| 0 <= i < id.len() ==> is_hex_digit(#[trigger] id[i])
}

/// Tests whether `id` is an object id.
pub fn check_slice_id(id: &str) -> (ok: bool)
    ensures
        ok == is_slice_id(id@),
{
    let len = id.unicode_len();
    if len != SLICE_ID_LENGTH {
        return false;
    }
    let mut i: usize = 0;
    while i < len
        invariant
            len == id@.len(),
            i <= len,
            forall|j: int| 0 <= j < i ==> is_hex_digit(#[trigger] id@[j]),
        decreases len - i,
    {
        let c = id.get_char(i);
        let hex = ('0' <= c && c <= '9') || ('a' <= c && c <= 'f') || ('A' <= c && c <= 'F');
        if !hex {
            return false;
        }
        i = i + 1;
    }
    true
}

/// The answer to a request with a malformed object id.
pub open spec fn malformed_id_reply() -> HttpReplyView {
    text_reply(STATUS_NOT_ACCEPTABLE, "ID should be 64 hexadecimal characters."@)
}

fn reject_malformed_id() -> (reply: HttpReply)
    ensures
        reply@ == malformed_id_reply(),
{
    HttpReply {
        status: STATUS_NOT_ACCEPTABLE,
        content_type: None,
        location: None,
        body: ReplyBody::Text("ID should be 64 hexadecimal characters.".to_owned()),
    }
}

/// What is to be done for a request to read an object.
#[derive(Debug, PartialEq, Eq)]
pub enum GetSlicePlan {
    /// Answer at once.
    Reject(HttpReply),
    /// Read the object's file, then answer with `get_slice_reply`.
    Read(SliceLocation),
}

/// What is to be done for a request to write an object.
#[derive(Debug, PartialEq, Eq)]
pub enum PutSlicePlan {
    /// Answer at once.
    Reject(HttpReply),
    /// Hand the request to the consensus engine, then answer with
    /// `put_slice_reply`.
    Write(StorageNodeRequest),
}

/// How the consensus engine answered a write.
#[derive(Debug, PartialEq, Eq)]
pub enum WriteOutcome {
    /// The write is committed and applied.
    Written,
    /// This node is not the leader. `leader` is the leader, where one is
    /// known.
    ForwardToLeader { leader: Option<StorageNode> },
    /// The write failed for another reason.
    Failed,
}

/// Decides what to do for a request to read the object `id`: to refuse it
/// where the id is malformed, else to read the file that holds the object.
pub fn get_slice(storage_location: &str, storage_directory_depth: usize, id: &str) -> (plan:
    GetSlicePlan)
    ensures
        match plan {
            GetSlicePlan::Reject(reply) => !is_slice_id(id@) && reply@ == malformed_id_reply(),
            GetSlicePlan::Read(location) => {
                &&& is_slice_id(id@)
                &&& location.directory@ == slice_directory(
                    storage_location@,
                    id@,
                    storage_directory_depth as nat,
                )
                &&& location.path@ == slice_path(
                    storage_location@,
                    id@,
                    storage_directory_depth as nat,
                )
            },
        },
{
    if !check_slice_id(id) {
        return GetSlicePlan::Reject(reject_malformed_id());
    }
    GetSlicePlan::Read(slice_location(storage_location, id, storage_directory_depth))
}

/// The answer to a request to read an object, given what reading its file
/// gave: the bytes, or a description of the failure.
pub open spec fn get_slice_reply_of(read: Result<Seq<u8>, Seq<char>>) -> HttpReplyView {
    match read {
        Ok(bytes) => HttpReplyView {
            status: STATUS_OK,
            content_type: Some("application/octet-stream"@),
            location: None,
            body: ReplyBodyView::Bytes(bytes),
        },
        Err(detail) => text_reply(STATUS_NOT_FOUND, "No such result.\nDetail: "@ + detail),
    }
}

/// Answers a request to read an object once its file has been read: with the
/// bytes, as an octet stream, or with "not found" and the failure.
pub fn get_slice_reply(read: Result<Vec<u8>, String>) -> (reply: HttpReply)
    ensures
        reply@ == get_slice_reply_of(
            match read {
                Ok(bytes) => Ok(bytes@),
                Err(detail) => Err(detail@),
            },
        ),
{
    match read {
        Ok(bytes) => HttpReply {
            status: STATUS_OK,
            content_type: Some("application/octet-stream".to_owned()),
            location: None,
            body: ReplyBody::Bytes(bytes),
        },
        Err(detail) => {
            let mut text = "No such result.\nDetail: ".to_owned();
            text.append(detail.as_str());
            HttpReply {
                status: STATUS_NOT_FOUND,
                content_type: None,
                location: None,
                body: ReplyBody::Text(text),
            }
        },
    }
}

/// Decides what to do for a request to write `body` as the object `id`: to
/// refuse it where the id is malformed, else to put the write to the consensus
/// engine. A refused request leaves no trace in the log.
pub fn put_slice(id: &str, body: Vec<u8>) -> (plan: PutSlicePlan)
    ensures
        match plan {
            PutSlicePlan::Reject(reply) => !is_slice_id(id@) && reply@ == malformed_id_reply(),
            PutSlicePlan::Write(request) => is_slice_id(id@) && request@ == (
            StorageNodeRequestView::StoreData { id: id@, value: body@ }),
        },
{
    if !check_slice_id(id) {
        return PutSlicePlan::Reject(reject_malformed_id());
    }
    PutSlicePlan::Write(StorageNodeRequest::StoreData { id: id.to_owned(), value: body })
}

/// Where a client is sent for the object `id` when `leader` leads.
pub open spec fn leader_location(leader: StorageNodeView, id: Seq<char>) -> Seq<char> {
    "http://"@ + leader.api_addr + "/slice/"@ + id
}

/// A `WriteOutcome` as mathematics: whether the write was done, and the leader
/// to forward to, where one was named.
pub open spec fn put_slice_reply_of(id: Seq<char>, written: bool, leader: Option<StorageNodeView>)
    -> HttpReplyView {
    if written {
        HttpReplyView {
            status: STATUS_OK,
            content_type: None,
            location: None,
            body: ReplyBodyView::EngineResult,
        }
    } else {
        match leader {
            Some(node) => HttpReplyView {
                status: STATUS_TEMPORARY_REDIRECT,
                content_type: None,
                location: Some(leader_location(node, id)),
                body: ReplyBodyView::EngineResult,
            },
            None => HttpReplyView {
                status: STATUS_INTERNAL_SERVER_ERROR,
                content_type: None,
                location: None,
                body: ReplyBodyView::EngineResult,
            },
        }
    }
}

/// Answers a request to write the object `id` once the consensus engine has
/// answered. A write that was done is confirmed. A write that came to a node
/// that does not lead is sent on to the leader, to the same path; where no
/// leader is known, and where the write failed in any other way, the answer
/// is a server error. Every answer carries what the engine said.
pub fn put_slice_reply(id: &str, outcome: &WriteOutcome) -> (reply: HttpReply)
    ensures
        reply@ == put_slice_reply_of(
            id@,
            outcome is Written,
            match outcome {
                WriteOutcome::ForwardToLeader { leader: Some(node) } => Some(node@),
                _ => None,
            },
        ),
{
    match outcome {
        WriteOutcome::Written => HttpReply {
            status: STATUS_OK,
            content_type: None,
            location: None,
            body: ReplyBody::EngineResult,
        },
        WriteOutcome::ForwardToLeader { leader: Some(node) } => {
            let mut location = "http://".to_owned();
            location.append(node.api_addr.as_str());
            location.append("/slice/");
            location.append(id);
            HttpReply {
                status: STATUS_TEMPORARY_REDIRECT,
                content_type: None,
                location: Some(location),
                body: ReplyBody::EngineResult,
            }
        },
        _ => HttpReply {
            status: STATUS_INTERNAL_SERVER_ERROR,
            content_type: None,
            location: None,
            body: ReplyBody::EngineResult,
        },
    }
}

} // verus!
