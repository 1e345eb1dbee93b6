//! The configuration of a node: read once when the node starts, then handed to
//! whatever needs it.
use vstd::prelude::*;
use vstd::string::*;

use crate::StorageNodeId;

verus! {

/// The options of a node.
#[derive(Debug, PartialEq, Eq)]
pub struct Args {
    /// The address to listen on.
    pub listen_addr: String,
    /// The port to listen on.
    pub port: u16,
    /// The directory below which the node keeps its database and its objects.
    pub storage_location: String,
    /// The address of the monitor that heartbeats are reported to.
    pub monitor_addr: String,
    /// How many directory levels an object id is spread over.
    pub storage_directory_depth: usize,
    /// The number of this node.
    pub node_id: StorageNodeId,
    /// The address under which other nodes and clients reach this node.
    pub node_addr: String,
    /// The greatest size of a request's payload that is accepted, in bytes.
    pub payload_size: usize,
}

/// The port a node listens on unless told otherwise.
pub const DEFAULT_PORT: u16 = 10001;

/// The number of directory levels unless told otherwise.
pub const DEFAULT_STORAGE_DIRECTORY_DEPTH: usize = 10;

/// The greatest payload unless told otherwise: 64 KiB.
pub const DEFAULT_PAYLOAD_SIZE: usize = 65536;

/// How many characters of `s` are left once the `/` at its end are cut off.
pub open spec fn trimmed_len(s: Seq<char>) -> nat
    decreases s.len(),
{
    if s.len() > 0 && s.last() == '/' {
        trimmed_len(s.drop_last())
    } else {
        s.len()
    }
}

/// `s` without the `/` at its end.
pub open spec fn without_trailing_slashes(s: Seq<char>) -> Seq<char> {
    s.take(trimmed_len(s) as int)
}

proof fn lemma_trimmed_len(s: Seq<char>, end: int)
    requires
        0 <= end <= s.len(),
        forall|i: int| end <= i < s.len() ==> s[i] == '/',
    ensures
        trimmed_len(s) == trimmed_len(s.take(end)),
        trimmed_len(s) <= end,
    decreases s.len() - end,
{
    if end < s.len() {
        lemma_trimmed_len(s.drop_last(), end);
        assert(s.drop_last().take(end) =~= s.take(end));
    } else {
        assert(s.take(end) =~= s);
        lemma_trimmed_len_bound(s);
    }
}

proof fn lemma_trimmed_len_bound(s: Seq<char>)
    ensures
        trimmed_len(s) <= s.len(),
    decreases s.len(),
{
    if s.len() > 0 && s.last() == '/' {
        lemma_trimmed_len_bound(s.drop_last());
    }
}

/// Cuts the `/` off the end of a path.
pub fn trim_trailing_slashes(path: &str) -> (trimmed: String)
    ensures
        trimmed@ == without_trailing_slashes(path@),
{
    let len = path.unicode_len();
    let mut end: usize = len;
    while end > 0 && path.get_char(end - 1) == '/'
        invariant
            len == path@.len(),
            end <= len,
            forall|i: int| end <= i < len ==> path@[i] == '/',
        decreases end,
    {
        end = end - 1;
    }
    proof {
        lemma_trimmed_len(path@, end as int);
        let head = path@.take(end as int);
        if end > 0 {
            assert(head.last() == path@[end - 1]);
        }
        assert(trimmed_len(head) == end);
    }
    path.substring_char(0, end).to_owned()
}

impl Args {
    /// The options of a node for which only the two addresses without a
    /// default were given: it listens on every interface, keeps its data below
    /// `/tmp/storage`, and has the number 0.
    pub fn with_defaults(monitor_addr: String, node_addr: String) -> (args: Args)
        ensures
            args.listen_addr@ == "0.0.0.0"@,
            args.port == DEFAULT_PORT,
            args.storage_location@ == "/tmp/storage"@,
            args.monitor_addr == monitor_addr,
            args.storage_directory_depth == DEFAULT_STORAGE_DIRECTORY_DEPTH,
            args.node_id == 0,
            args.node_addr == node_addr,
            args.payload_size == DEFAULT_PAYLOAD_SIZE,
    {
        Args {
            listen_addr: "0.0.0.0".to_owned(),
            port: DEFAULT_PORT,
            storage_location: "/tmp/storage".to_owned(),
            monitor_addr,
            storage_directory_depth: DEFAULT_STORAGE_DIRECTORY_DEPTH,
            node_id: 0,
            node_addr,
            payload_size: DEFAULT_PAYLOAD_SIZE,
        }
    }

    /// The options as the node uses them: the storage location without the `/`
    /// at its end, everything else as given.
    pub fn normalized(self) -> (args: Args)
        ensures
            args.storage_location@ == without_trailing_slashes(self.storage_location@),
            args.listen_addr == self.listen_addr,
            args.port == self.port,
            args.monitor_addr == self.monitor_addr,
            args.storage_directory_depth == self.storage_directory_depth,
            args.node_id == self.node_id,
            args.node_addr == self.node_addr,
            args.payload_size == self.payload_size,
    {
        let storage_location = trim_trailing_slashes(self.storage_location.as_str());
        Args {
            listen_addr: self.listen_addr,
            port: self.port,
            storage_location,
            monitor_addr: self.monitor_addr,
            storage_directory_depth: self.storage_directory_depth,
            node_id: self.node_id,
            node_addr: self.node_addr,
            payload_size: self.payload_size,
        }
    }
}

} // verus!
