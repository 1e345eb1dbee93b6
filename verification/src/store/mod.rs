//! The storage side of a node: object layout, log, metadata and state machine.
pub mod error;
pub mod file_store;
pub mod fs_io;
pub mod laws;
pub mod log;
pub mod snapshot;
pub mod state_machine;
pub mod tree;

pub use error::ErrorSubject;
pub use error::ErrorVerb;
pub use error::StorageError;
pub use file_store::LogState;
pub use file_store::StorageNodeFileStore;
pub use tree::Limit;

pub use snapshot::SnapshotMeta;
pub use snapshot::SnapshotMetaView;
pub use snapshot::SnapshotView;
pub use snapshot::StorageNodeStoreSnapshot;
pub use state_machine::ApplyAction;
pub use state_machine::StateMachineView;
pub use state_machine::StorageNodeStoreStateMachine;

use vstd::prelude::*;

use crate::wire::Wire;

verus! {

/// What a client asks the cluster to do. A request is carried by a log entry;
/// every node applies it when the entry is committed.
#[derive(Debug, PartialEq, Eq)]
pub enum StorageNodeRequest {
    /// Keep `value` as the object `id`.
    StoreData { id: String, value: Vec<u8> },
}

/// A `StorageNodeRequest` as mathematics.
pub enum StorageNodeRequestView {
    StoreData { id: Seq<char>, value: Seq<u8> },
}

impl View for StorageNodeRequest {
    type V = StorageNodeRequestView;

    open spec fn view(&self) -> StorageNodeRequestView {
        match self {
            StorageNodeRequest::StoreData { id, value } => StorageNodeRequestView::StoreData {
                id: id@,
                value: value@,
            },
        }
    }
}

impl Clone for StorageNodeRequest {
    fn clone(&self) -> (r: Self)
        ensures
            r@ == self@,
    {
        match self {
            StorageNodeRequest::StoreData { id, value } => StorageNodeRequest::StoreData {
                id: id.duplicate(),
                value: value.duplicate(),
            },
        }
    }
}

impl Wire for StorageNodeRequest {
    type Model = StorageNodeRequestView;

    open spec fn model(&self) -> StorageNodeRequestView {
        self@
    }

    open spec fn fits(m: StorageNodeRequestView) -> bool {
        match m {
            StorageNodeRequestView::StoreData { id, value } => String::fits(id) && Vec::<u8>::fits(
                value,
            ),
        }
    }

    open spec fn form(m: StorageNodeRequestView) -> Seq<u8> {
        match m {
            StorageNodeRequestView::StoreData { id, value } => String::form(id) + Vec::<u8>::form(
                value,
            ),
        }
    }

    open spec fn read(s: Seq<u8>) -> Option<(StorageNodeRequestView, Seq<u8>)> {
        match String::read(s) {
            Some((id, r1)) => match Vec::<u8>::read(r1) {
                Some((value, r2)) => Some((StorageNodeRequestView::StoreData { id, value }, r2)),
                None => None,
            },
            None => None,
        }
    }

    proof fn lemma_read_form(m: StorageNodeRequestView, rest: Seq<u8>) {
        match m {
            StorageNodeRequestView::StoreData { id, value } => {
                let r1 = Vec::<u8>::form(value) + rest;
                assert(Self::form(m) + rest =~= String::form(id) + r1);
                String::lemma_read_form(id, r1);
                Vec::<u8>::lemma_read_form(value, rest);
            },
        }
    }

    fn duplicate(&self) -> (r: StorageNodeRequest) {
        self.clone()
    }

    fn encode(&self, out: &mut Vec<u8>) {
        match self {
            StorageNodeRequest::StoreData { id, value } => {
                id.encode(out);
                value.encode(out);
            },
        }
    }

    fn decode(bytes: &[u8], pos: usize) -> (r: Option<(StorageNodeRequest, usize)>) {
        match String::decode(bytes, pos) {
            None => None,
            Some((id, at1)) => match Vec::<u8>::decode(bytes, at1) {
                None => None,
                Some((value, at2)) => Some((StorageNodeRequest::StoreData { id, value }, at2)),
            },
        }
    }
}

/// What applying an entry hands back to the client that sent it.
#[derive(Debug, PartialEq, Eq)]
pub struct StorageNodeResponse {
    pub value: Option<Vec<u8>>,
}

impl Clone for StorageNodeResponse {
    fn clone(&self) -> (r: Self)
        ensures
            r.value.model() == self.value.model(),
    {
        StorageNodeResponse { value: self.value.duplicate() }
    }
}

impl StorageNodeResponse {
    /// The response to a write, once the object tree has been asked to store
    /// the object: the empty response where it was stored, none where it was
    /// not. A failed write is not retried and does not undo the entry.
    pub fn after_store(stored: bool) -> (r: Option<StorageNodeResponse>)
        ensures
            r == if stored {
                Some(StorageNodeResponse { value: None })
            } else {
                None
            },
    {
        if stored {
            Some(StorageNodeResponse { value: None })
        } else {
            None
        }
    }
}

} // verus!
