//! The values that a node exchanges with its consensus engine: log ids, votes,
//! cluster membership and log entries, as plain data with a byte form.
use vstd::prelude::*;

use crate::store::StorageNodeRequest;
use crate::store::StorageNodeRequestView;
use crate::wire::Wire;
use crate::StorageNode;
use crate::StorageNodeId;
use crate::StorageNodeView;

verus! {

/// The identity of a log entry: the leader that proposed it and its position
/// in the log.
#[derive(Clone, Copy, Debug, PartialEq, Eq, Structural)]
pub struct LogId {
    /// Term of the leader that proposed the entry.
    pub term: u64,
    /// The leader that proposed the entry.
    pub node_id: StorageNodeId,
    /// Position of the entry in the log.
    pub index: u64,
}

impl Wire for LogId {
    type Model = LogId;

    open spec fn model(&self) -> LogId {
        *self
    }

    open spec fn fits(m: LogId) -> bool {
        true
    }

    open spec fn form(m: LogId) -> Seq<u8> {
        u64::form(m.term) + u64::form(m.node_id) + u64::form(m.index)
    }

    open spec fn read(s: Seq<u8>) -> Option<(LogId, Seq<u8>)> {
        match u64::read(s) {
            Some((term, r1)) => match u64::read(r1) {
                Some((node_id, r2)) => match u64::read(r2) {
                    Some((index, r3)) => Some((LogId { term, node_id, index }, r3)),
                    None => None,
                },
                None => None,
            },
            None => None,
        }
    }

    proof fn lemma_read_form(m: LogId, rest: Seq<u8>) {
        let r2 = u64::form(m.index) + rest;
        let r1 = u64::form(m.node_id) + r2;
        assert(Self::form(m) + rest =~= u64::form(m.term) + r1);
        u64::lemma_read_form(m.term, r1);
        u64::lemma_read_form(m.node_id, r2);
        u64::lemma_read_form(m.index, rest);
    }

    fn duplicate(&self) -> (r: LogId) {
        *self
    }

    fn encode(&self, out: &mut Vec<u8>) {
        self.term.encode(out);
        self.node_id.encode(out);
        self.index.encode(out);
    }

    fn decode(bytes: &[u8], pos: usize) -> (r: Option<(LogId, usize)>) {
        match u64::decode(bytes, pos) {
            None => None,
            Some((term, at1)) => match u64::decode(bytes, at1) {
                None => None,
                Some((node_id, at2)) => match u64::decode(bytes, at2) {
                    None => None,
                    Some((index, at3)) => Some((LogId { term, node_id, index }, at3)),
                },
            },
        }
    }
}

/// The vote that a node has granted: the single slot that must survive a
/// restart.
#[derive(Clone, Copy, Debug, PartialEq, Eq)]
pub struct Vote {
    /// Term the vote was cast in.
    pub term: u64,
    /// The node that was voted for, if any.
    pub voted_for: Option<StorageNodeId>,
    /// Whether a quorum has granted the vote.
    pub committed: bool,
}

impl Wire for Vote {
    type Model = Vote;

    open spec fn model(&self) -> Vote {
        *self
    }

    open spec fn fits(m: Vote) -> bool {
        true
    }

    open spec fn form(m: Vote) -> Seq<u8> {
        u64::form(m.term) + Option::<u64>::form(m.voted_for) + bool::form(m.committed)
    }

    open spec fn read(s: Seq<u8>) -> Option<(Vote, Seq<u8>)> {
        match u64::read(s) {
            Some((term, r1)) => match Option::<u64>::read(r1) {
                Some((voted_for, r2)) => match bool::read(r2) {
                    Some((committed, r3)) => Some((Vote { term, voted_for, committed }, r3)),
                    None => None,
                },
                None => None,
            },
            None => None,
        }
    }

    proof fn lemma_read_form(m: Vote, rest: Seq<u8>) {
        let r2 = bool::form(m.committed) + rest;
        let r1 = Option::<u64>::form(m.voted_for) + r2;
        assert(Self::form(m) + rest =~= u64::form(m.term) + r1);
        u64::lemma_read_form(m.term, r1);
        Option::<u64>::lemma_read_form(m.voted_for, r2);
        bool::lemma_read_form(m.committed, rest);
    }

    fn duplicate(&self) -> (r: Vote) {
        *self
    }

    fn encode(&self, out: &mut Vec<u8>) {
        self.term.encode(out);
        self.voted_for.encode(out);
        self.committed.encode(out);
    }

    fn decode(bytes: &[u8], pos: usize) -> (r: Option<(Vote, usize)>) {
        match u64::decode(bytes, pos) {
            None => None,
            Some((term, at1)) => match Option::<u64>::decode(bytes, at1) {
                None => None,
                Some((voted_for, at2)) => match bool::decode(bytes, at2) {
                    None => None,
                    Some((committed, at3)) => Some((Vote { term, voted_for, committed }, at3)),
                },
            },
        }
    }
}

/// One node of the cluster: its number and its addresses.
#[derive(Debug, PartialEq, Eq)]
pub struct ClusterNode {
    pub node_id: StorageNodeId,
    pub node: StorageNode,
}

/// A `ClusterNode` as mathematics.
pub struct ClusterNodeView {
    pub node_id: StorageNodeId,
    pub node: StorageNodeView,
}

impl View for ClusterNode {
    type V = ClusterNodeView;

    open spec fn view(&self) -> ClusterNodeView {
        ClusterNodeView { node_id: self.node_id, node: self.node@ }
    }
}

impl Clone for ClusterNode {
    fn clone(&self) -> (r: Self)
        ensures
            r@ == self@,
    {
        ClusterNode { node_id: self.node_id, node: self.node.clone() }
    }
}

impl Wire for ClusterNode {
    type Model = ClusterNodeView;

    open spec fn model(&self) -> ClusterNodeView {
        self@
    }

    open spec fn fits(m: ClusterNodeView) -> bool {
        StorageNode::fits(m.node)
    }

    open spec fn form(m: ClusterNodeView) -> Seq<u8> {
        u64::form(m.node_id) + StorageNode::form(m.node)
    }

    open spec fn read(s: Seq<u8>) -> Option<(ClusterNodeView, Seq<u8>)> {
        match u64::read(s) {
            Some((node_id, r1)) => match StorageNode::read(r1) {
                Some((node, r2)) => Some((ClusterNodeView { node_id, node }, r2)),
                None => None,
            },
            None => None,
        }
    }

    proof fn lemma_read_form(m: ClusterNodeView, rest: Seq<u8>) {
        let r1 = StorageNode::form(m.node) + rest;
        assert(Self::form(m) + rest =~= u64::form(m.node_id) + r1);
        u64::lemma_read_form(m.node_id, r1);
        StorageNode::lemma_read_form(m.node, rest);
    }

    fn duplicate(&self) -> (r: ClusterNode) {
        self.clone()
    }

    fn encode(&self, out: &mut Vec<u8>) {
        self.node_id.encode(out);
        self.node.encode(out);
    }

    fn decode(bytes: &[u8], pos: usize) -> (r: Option<(ClusterNode, usize)>) {
        match u64::decode(bytes, pos) {
            None => None,
            Some((node_id, at1)) => match StorageNode::decode(bytes, at1) {
                None => None,
                Some((node, at2)) => Some((ClusterNode { node_id, node }, at2)),
            },
        }
    }
}

/// The membership of the cluster.
///
/// `configs` holds the sets of voting nodes: one set in normal operation, two
/// or more while the cluster moves from one set to the next. `nodes` holds
/// every known node; one that is in no set of `configs` is a learner. The
/// consensus engine decides what a membership means. A node keeps the latest
/// one and hands it back.
#[derive(Debug, PartialEq, Eq)]
pub struct Membership {
    pub configs: Vec<Vec<StorageNodeId>>,
    pub nodes: Vec<ClusterNode>,
}

/// A `Membership` as mathematics.
pub struct MembershipView {
    pub configs: Seq<Seq<StorageNodeId>>,
    pub nodes: Seq<ClusterNodeView>,
}

impl View for Membership {
    type V = MembershipView;

    open spec fn view(&self) -> MembershipView {
        MembershipView { configs: self.configs.model(), nodes: self.nodes.model() }
    }
}

impl Clone for Membership {
    fn clone(&self) -> (r: Self)
        ensures
            r@ == self@,
    {
        Membership { configs: self.configs.duplicate(), nodes: self.nodes.duplicate() }
    }
}

impl Membership {
    /// The membership of a cluster that has not been set up: no voters, no
    /// nodes.
    pub fn new() -> (r: Self)
        ensures
            r@.configs.len() == 0,
            r@.nodes.len() == 0,
    {
        Membership { configs: Vec::new(), nodes: Vec::new() }
    }
}

impl Wire for Membership {
    type Model = MembershipView;

    open spec fn model(&self) -> MembershipView {
        self@
    }

    open spec fn fits(m: MembershipView) -> bool {
        Vec::<Vec<u64>>::fits(m.configs) && Vec::<ClusterNode>::fits(m.nodes)
    }

    open spec fn form(m: MembershipView) -> Seq<u8> {
        Vec::<Vec<u64>>::form(m.configs) + Vec::<ClusterNode>::form(m.nodes)
    }

    open spec fn read(s: Seq<u8>) -> Option<(MembershipView, Seq<u8>)> {
        match Vec::<Vec<u64>>::read(s) {
            Some((configs, r1)) => match Vec::<ClusterNode>::read(r1) {
                Some((nodes, r2)) => Some((MembershipView { configs, nodes }, r2)),
                None => None,
            },
            None => None,
        }
    }

    proof fn lemma_read_form(m: MembershipView, rest: Seq<u8>) {
        let r1 = Vec::<ClusterNode>::form(m.nodes) + rest;
        assert(Self::form(m) + rest =~= Vec::<Vec<u64>>::form(m.configs) + r1);
        Vec::<Vec<u64>>::lemma_read_form(m.configs, r1);
        Vec::<ClusterNode>::lemma_read_form(m.nodes, rest);
    }

    fn duplicate(&self) -> (r: Membership) {
        self.clone()
    }

    fn encode(&self, out: &mut Vec<u8>) {
        self.configs.encode(out);
        self.nodes.encode(out);
    }

    fn decode(bytes: &[u8], pos: usize) -> (r: Option<(Membership, usize)>) {
        match Vec::<Vec<u64>>::decode(bytes, pos) {
            None => None,
            Some((configs, at1)) => match Vec::<ClusterNode>::decode(bytes, at1) {
                None => None,
                Some((nodes, at2)) => Some((Membership { configs, nodes }, at2)),
            },
        }
    }
}

/// A membership together with the id of the log entry that brought it.
#[derive(Debug, PartialEq, Eq)]
pub struct EffectiveMembership {
    /// The entry that carried the membership; none before any was applied.
    pub log_id: Option<LogId>,
    pub membership: Membership,
}

/// An `EffectiveMembership` as mathematics.
pub struct EffectiveMembershipView {
    pub log_id: Option<LogId>,
    pub membership: MembershipView,
}

impl View for EffectiveMembership {
    type V = EffectiveMembershipView;

    open spec fn view(&self) -> EffectiveMembershipView {
        EffectiveMembershipView { log_id: self.log_id, membership: self.membership@ }
    }
}

impl Clone for EffectiveMembership {
    fn clone(&self) -> (r: Self)
        ensures
            r@ == self@,
    {
        EffectiveMembership { log_id: self.log_id, membership: self.membership.clone() }
    }
}

impl EffectiveMembership {
    /// Stamps `membership` with the id of the entry that carried it.
    pub fn new(log_id: Option<LogId>, membership: Membership) -> (r: Self)
        ensures
            r@ == (EffectiveMembershipView { log_id, membership: membership@ }),
    {
        EffectiveMembership { log_id, membership }
    }
}

impl Wire for EffectiveMembership {
    type Model = EffectiveMembershipView;

    open spec fn model(&self) -> EffectiveMembershipView {
        self@
    }

    open spec fn fits(m: EffectiveMembershipView) -> bool {
        Membership::fits(m.membership)
    }

    open spec fn form(m: EffectiveMembershipView) -> Seq<u8> {
        Option::<LogId>::form(m.log_id) + Membership::form(m.membership)
    }

    open spec fn read(s: Seq<u8>) -> Option<(EffectiveMembershipView, Seq<u8>)> {
        match Option::<LogId>::read(s) {
            Some((log_id, r1)) => match Membership::read(r1) {
                Some((membership, r2)) => Some(
                    (EffectiveMembershipView { log_id, membership }, r2),
                ),
                None => None,
            },
            None => None,
        }
    }

    proof fn lemma_read_form(m: EffectiveMembershipView, rest: Seq<u8>) {
        let r1 = Membership::form(m.membership) + rest;
        assert(Self::form(m) + rest =~= Option::<LogId>::form(m.log_id) + r1);
        Option::<LogId>::lemma_read_form(m.log_id, r1);
        Membership::lemma_read_form(m.membership, rest);
    }

    fn duplicate(&self) -> (r: EffectiveMembership) {
        self.clone()
    }

    fn encode(&self, out: &mut Vec<u8>) {
        self.log_id.encode(out);
        self.membership.encode(out);
    }

    fn decode(bytes: &[u8], pos: usize) -> (r: Option<(EffectiveMembership, usize)>) {
        match Option::<LogId>::decode(bytes, pos) {
            None => None,
            Some((log_id, at1)) => match Membership::decode(bytes, at1) {
                None => None,
                Some((membership, at2)) => Some((EffectiveMembership { log_id, membership }, at2)),
            },
        }
    }
}

/// What a log entry carries.
#[derive(Debug, PartialEq, Eq)]
pub enum EntryPayload {
    /// Nothing: the entry only marks a position in the log.
    Blank,
    /// A request of a client.
    Normal(StorageNodeRequest),
    /// A change of the cluster's membership.
    Membership(Membership),
}

/// An `EntryPayload` as mathematics.
pub enum EntryPayloadView {
    Blank,
    Normal(StorageNodeRequestView),
    Membership(MembershipView),
}

impl View for EntryPayload {
    type V = EntryPayloadView;

    open spec fn view(&self) -> EntryPayloadView {
        match self {
            EntryPayload::Blank => EntryPayloadView::Blank,
            EntryPayload::Normal(request) => EntryPayloadView::Normal(request@),
            EntryPayload::Membership(membership) => EntryPayloadView::Membership(membership@),
        }
    }
}

impl Clone for EntryPayload {
    fn clone(&self) -> (r: Self)
        ensures
            r@ == self@,
    {
        match self {
            EntryPayload::Blank => EntryPayload::Blank,
            EntryPayload::Normal(request) => EntryPayload::Normal(request.clone()),
            EntryPayload::Membership(membership) => EntryPayload::Membership(membership.clone()),
        }
    }
}

impl Wire for EntryPayload {
    type Model = EntryPayloadView;

    open spec fn model(&self) -> EntryPayloadView {
        self@
    }

    open spec fn fits(m: EntryPayloadView) -> bool {
        match m {
            EntryPayloadView::Blank => true,
            EntryPayloadView::Normal(request) => StorageNodeRequest::fits(request),
            EntryPayloadView::Membership(membership) => Membership::fits(membership),
        }
    }

    open spec fn form(m: EntryPayloadView) -> Seq<u8> {
        match m {
            EntryPayloadView::Blank => seq![0u8],
            EntryPayloadView::Normal(request) => seq![1u8] + StorageNodeRequest::form(request),
            EntryPayloadView::Membership(membership) => seq![2u8] + Membership::form(membership),
        }
    }

    open spec fn read(s: Seq<u8>) -> Option<(EntryPayloadView, Seq<u8>)> {
        if s.len() < 1 {
            None
        } else if s[0] == 0 {
            Some((EntryPayloadView::Blank, s.skip(1)))
        } else if s[0] == 1 {
            match StorageNodeRequest::read(s.skip(1)) {
                Some((request, r)) => Some((EntryPayloadView::Normal(request), r)),
                None => None,
            }
        } else if s[0] == 2 {
            match Membership::read(s.skip(1)) {
                Some((membership, r)) => Some((EntryPayloadView::Membership(membership), r)),
                None => None,
            }
        } else {
            None
        }
    }

    proof fn lemma_read_form(m: EntryPayloadView, rest: Seq<u8>) {
        match m {
            EntryPayloadView::Blank => {
                assert((Self::form(m) + rest).skip(1) =~= rest);
            },
            EntryPayloadView::Normal(request) => {
                StorageNodeRequest::lemma_read_form(request, rest);
                assert((Self::form(m) + rest).skip(1) =~= StorageNodeRequest::form(request)
                    + rest);
            },
            EntryPayloadView::Membership(membership) => {
                Membership::lemma_read_form(membership, rest);
                assert((Self::form(m) + rest).skip(1) =~= Membership::form(membership) + rest);
            },
        }
    }

    fn duplicate(&self) -> (r: EntryPayload) {
        self.clone()
    }

    fn encode(&self, out: &mut Vec<u8>) {
        match self {
            EntryPayload::Blank => {
                out.push(0u8);
                assert(out@ =~= old(out)@ + Self::form(self@));
            },
            EntryPayload::Normal(request) => {
                out.push(1u8);
                request.encode(out);
                assert(out@ =~= old(out)@ + Self::form(self@));
            },
            EntryPayload::Membership(membership) => {
                out.push(2u8);
                membership.encode(out);
                assert(out@ =~= old(out)@ + Self::form(self@));
            },
        }
    }

    fn decode(bytes: &[u8], pos: usize) -> (r: Option<(EntryPayload, usize)>) {
        if bytes.len() - pos < 1 {
            return None;
        }
        let tag = bytes[pos];
        assert(bytes@.skip(pos as int).skip(1) =~= bytes@.skip(pos + 1));
        if tag == 0 {
            Some((EntryPayload::Blank, pos + 1))
        } else if tag == 1 {
            match StorageNodeRequest::decode(bytes, pos + 1) {
                Some((request, next)) => Some((EntryPayload::Normal(request), next)),
                None => None,
            }
        } else if tag == 2 {
            match Membership::decode(bytes, pos + 1) {
                Some((membership, next)) => Some((EntryPayload::Membership(membership), next)),
                None => None,
            }
        } else {
            None
        }
    }
}

/// One unit of the replicated log.
#[derive(Debug, PartialEq, Eq)]
pub struct Entry {
    pub log_id: LogId,
    pub payload: EntryPayload,
}

/// An `Entry` as mathematics.
pub struct EntryView {
    pub log_id: LogId,
    pub payload: EntryPayloadView,
}

impl View for Entry {
    type V = EntryView;

    open spec fn view(&self) -> EntryView {
        EntryView { log_id: self.log_id, payload: self.payload@ }
    }
}

impl Clone for Entry {
    fn clone(&self) -> (r: Self)
        ensures
            r@ == self@,
    {
        Entry { log_id: self.log_id, payload: self.payload.clone() }
    }
}

impl Wire for Entry {
    type Model = EntryView;

    open spec fn model(&self) -> EntryView {
        self@
    }

    open spec fn fits(m: EntryView) -> bool {
        EntryPayload::fits(m.payload)
    }

    open spec fn form(m: EntryView) -> Seq<u8> {
        LogId::form(m.log_id) + EntryPayload::form(m.payload)
    }

    open spec fn read(s: Seq<u8>) -> Option<(EntryView, Seq<u8>)> {
        match LogId::read(s) {
            Some((log_id, r1)) => match EntryPayload::read(r1) {
                Some((payload, r2)) => Some((EntryView { log_id, payload }, r2)),
                None => None,
            },
            None => None,
        }
    }

    proof fn lemma_read_form(m: EntryView, rest: Seq<u8>) {
        let r1 = EntryPayload::form(m.payload) + rest;
        assert(Self::form(m) + rest =~= LogId::form(m.log_id) + r1);
        LogId::lemma_read_form(m.log_id, r1);
        EntryPayload::lemma_read_form(m.payload, rest);
    }

    fn duplicate(&self) -> (r: Entry) {
        self.clone()
    }

    fn encode(&self, out: &mut Vec<u8>) {
        self.log_id.encode(out);
        self.payload.encode(out);
    }

    fn decode(bytes: &[u8], pos: usize) -> (r: Option<(Entry, usize)>) {
        match LogId::decode(bytes, pos) {
            None => None,
            Some((log_id, at1)) => match EntryPayload::decode(bytes, at1) {
                None => None,
                Some((payload, at2)) => Some((Entry { log_id, payload }, at2)),
            },
        }
    }
}

} // verus!
