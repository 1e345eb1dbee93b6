//! The identity and the addresses of a node.
use vstd::prelude::*;
use vstd::string::*;

use crate::wire::Wire;

verus! {

/// Nodes are told apart by a number.
pub type StorageNodeId = u64;

/// The addresses under which a node is reached: one for the traffic between
/// nodes, one for clients.
#[derive(Debug, PartialEq, Eq)]
pub struct StorageNode {
    pub rpc_addr: String,
    pub api_addr: String,
}

/// A `StorageNode` as mathematics.
pub struct StorageNodeView {
    pub rpc_addr: Seq<char>,
    pub api_addr: Seq<char>,
}

impl View for StorageNode {
    type V = StorageNodeView;

    open spec fn view(&self) -> StorageNodeView {
        StorageNodeView { rpc_addr: self.rpc_addr@, api_addr: self.api_addr@ }
    }
}

impl Clone for StorageNode {
    fn clone(&self) -> (r: Self)
        ensures
            r@ == self@,
    {
        StorageNode { rpc_addr: self.rpc_addr.clone(), api_addr: self.api_addr.clone() }
    }
}

impl Default for StorageNode {
    fn default() -> (r: Self)
        ensures
            r@.rpc_addr.len() == 0,
            r@.api_addr.len() == 0,
    {
        StorageNode { rpc_addr: String::new(), api_addr: String::new() }
    }
}

impl StorageNode {
    /// What a node looks like in a log line or a message.
    pub open spec fn display(v: StorageNodeView) -> Seq<char> {
        "ExampleNode { rpc_addr: "@ + v.rpc_addr + ", api_addr: "@ + v.api_addr + " }"@
    }

    /// The node as text: both addresses, labelled.
    pub fn to_display_string(&self) -> (text: String)
        ensures
            text@ == Self::display(self@),
    {
        let mut text = String::from_str("ExampleNode { rpc_addr: ");
        text.append(self.rpc_addr.as_str());
        text.append(", api_addr: ");
        text.append(self.api_addr.as_str());
        text.append(" }");
        text
    }
}

impl Wire for StorageNode {
    type Model = StorageNodeView;

    open spec fn model(&self) -> StorageNodeView {
        self@
    }

    open spec fn fits(m: StorageNodeView) -> bool {
        String::fits(m.rpc_addr) && String::fits(m.api_addr)
    }

    open spec fn form(m: StorageNodeView) -> Seq<u8> {
        String::form(m.rpc_addr) + String::form(m.api_addr)
    }

    open spec fn read(s: Seq<u8>) -> Option<(StorageNodeView, Seq<u8>)> {
        match String::read(s) {
            Some((rpc_addr, r1)) => match String::read(r1) {
                Some((api_addr, r2)) => Some((StorageNodeView { rpc_addr, api_addr }, r2)),
                None => None,
            },
            None => None,
        }
    }

    proof fn lemma_read_form(m: StorageNodeView, rest: Seq<u8>) {
        let r1 = String::form(m.api_addr) + rest;
        assert(Self::form(m) + rest =~= String::form(m.rpc_addr) + r1);
        String::lemma_read_form(m.rpc_addr, r1);
        String::lemma_read_form(m.api_addr, rest);
    }

    fn duplicate(&self) -> (r: StorageNode) {
        self.clone()
    }

    fn encode(&self, out: &mut Vec<u8>) {
        self.rpc_addr.encode(out);
        self.api_addr.encode(out);
    }

    fn decode(bytes: &[u8], pos: usize) -> (r: Option<(StorageNode, usize)>) {
        match String::decode(bytes, pos) {
            None => None,
            Some((rpc_addr, at1)) => match String::decode(bytes, at1) {
                None => None,
                Some((api_addr, at2)) => Some((StorageNode { rpc_addr, api_addr }, at2)),
            },
        }
    }
}

} // verus!
