use vstd::prelude::*;

use crate::communication::{InboundMessage, RaftMessage};
use crate::node::RaftNode;
use crate::reaction::{is_admissible, react};
use crate::types::{AppendEntriesResponse, NodeId, OutboundMessage, OutboundRpc, RequestVoteResponse};

pub mod wire;

use wire::{
    from_wire_append_entries, from_wire_request_vote, outbound_rpc_to_wire, WireMessage,
    WirePayload,
};

verus! {

/// A line-oriented channel that carries wire messages between nodes.
pub trait TransportStrategy {
    /// Starts listening on `addr`.
    fn start_listener(&mut self, addr: String) -> Result<(), String>;

    /// The next received message, if one is waiting.
    fn try_recv(&mut self) -> Option<WireMessage>;

    /// Hands `msg` over for delivery.
    fn send(&mut self, msg: WireMessage);
}

/// What a node does with one wire message: the wire messages to send, and
/// whether it has just become leader.
pub struct NetworkOutcome {
    pub outbound: Vec<WireMessage>,
    pub became_leader: bool,
}

/// `m` is the message that `w` carries.
pub open spec fn wire_carries(w: WireMessage, m: InboundMessage) -> bool {
    &&& m.from == w.from
    &&& match (w.payload, m.message) {
        (
            WirePayload::RequestVote { term, candidate_id, last_log_index, last_log_term },
            RaftMessage::RequestVote(r),
        ) => r.term == term && r.candidate_id == candidate_id && r.last_log_index == last_log_index
            && r.last_log_term == last_log_term,
        (
            WirePayload::RequestVoteResponse { term, vote_granted },
            RaftMessage::RequestVoteResponse(r),
        ) => r.term == term && r.vote_granted == vote_granted && r.from == w.from,
        (
            WirePayload::AppendEntries {
                term,
                leader_id,
                prev_log_index,
                prev_log_term,
                entries,
                leader_commit,
            },
            RaftMessage::AppendEntries(r),
        ) => r.term == term && r.leader_id == leader_id && r.prev_log_index == prev_log_index
            && r.prev_log_term == prev_log_term && wire::same_entries(entries@, r.entries@)
            && r.leader_commit == leader_commit,
        (
            WirePayload::AppendEntriesResponse { term, success, match_index },
            RaftMessage::AppendEntriesResponse(r),
        ) => r.term == term && r.success == success && r.from == w.from && r.match_index
            == match_index,
        _ => false,
    }
}

/// `w` is the wire form of `reply`, sent by `from`.
pub open spec fn reply_on_wire(w: WireMessage, from: NodeId, reply: (NodeId, RaftMessage)) -> bool {
    match reply.1 {
        RaftMessage::RequestVote(r) => wire::rpc_encodes(
            w,
            from,
            OutboundRpc::RequestVote { to: reply.0, rpc: r },
        ),
        RaftMessage::AppendEntries(r) => wire::rpc_encodes(
            w,
            from,
            OutboundRpc::AppendEntries { to: reply.0, rpc: r },
        ),
        RaftMessage::RequestVoteResponse(r) => w == WireMessage {
            from,
            to: reply.0,
            payload: WirePayload::RequestVoteResponse { term: r.term, vote_granted: r.vote_granted },
        },
        RaftMessage::AppendEntriesResponse(r) => w == WireMessage {
            from,
            to: reply.0,
            payload: WirePayload::AppendEntriesResponse {
                term: r.term,
                success: r.success,
                match_index: r.match_index,
            },
        },
        _ => false,
    }
}

/// The message that `msg` carries.
fn inbound_of(msg: WireMessage) -> (r: InboundMessage)
    ensures
        wire_carries(msg, r),
{
    let from = msg.from;
    let message = match msg.payload {
        WirePayload::RequestVote { term, candidate_id, last_log_index, last_log_term } => {
            RaftMessage::RequestVote(
                from_wire_request_vote(term, candidate_id, last_log_index, last_log_term),
            )
        },
        WirePayload::RequestVoteResponse { term, vote_granted } => {
            RaftMessage::RequestVoteResponse(RequestVoteResponse { term, vote_granted, from })
        },
        WirePayload::AppendEntries {
            term,
            leader_id,
            prev_log_index,
            prev_log_term,
            entries,
            leader_commit,
        } => RaftMessage::AppendEntries(
            from_wire_append_entries(
                term,
                leader_id,
                prev_log_index,
                prev_log_term,
                entries,
                leader_commit,
            ),
        ),
        WirePayload::AppendEntriesResponse { term, success, match_index } => {
            RaftMessage::AppendEntriesResponse(
                AppendEntriesResponse { term, success, from, match_index },
            )
        },
    };
    InboundMessage { from, message }
}

/// Lets `node` take the wire message `msg`. A message addressed to another
/// node, or one that would run an index out of range, is dropped; otherwise
/// the node reacts to it as `react` describes, and its answers come back in
/// wire form, in order.
pub fn process_network_message(node: &mut RaftNode, msg: WireMessage) -> (r: NetworkOutcome)
    requires
        old(node).wf(),
    ensures
        final(node).wf(),
        msg.to != old(node).id ==> *final(node) == *old(node) && r.outbound@.len() == 0
            && !r.became_leader,
        msg.to == old(node).id ==> exists|m: InboundMessage|
            {
                &&& wire_carries(msg, m)
                &&& !crate::reaction::admissible(old(node), &m) ==> *final(node) == *old(node)
                    && r.outbound@.len() == 0 && !r.became_leader
                &&& crate::reaction::admissible(old(node), &m) ==> exists|
                    replies: Seq<(NodeId, RaftMessage)>,
                |
                    {
                        &&& crate::reaction::reacts(
                            old(node),
                            final(node),
                            m,
                            replies,
                            r.became_leader,
                        )
                        &&& r.outbound@.len() == replies.len()
                        &&& forall|i: int|
                            0 <= i < replies.len() ==> reply_on_wire(
                                #[trigger] r.outbound@[i],
                                old(node).id,
                                replies[i],
                            )
                    }
            },
{
    if msg.to != node.id {
        return NetworkOutcome { outbound: Vec::new(), became_leader: false };
    }
    let ghost msg_copy = msg;
    let inbound = inbound_of(msg);
    if !is_admissible(node, &inbound) {
        return NetworkOutcome { outbound: Vec::new(), became_leader: false };
    }
    let self_id = node.id;
    let ghost m = inbound;
    let ghost pre = *node;
    let reaction = react(node, inbound);
    let ghost replies = reaction.replies@;
    proof {
        lemma_reacts_sendable(&pre, node, m, replies, reaction.became_leader);
    }
    let became_leader = reaction.became_leader;
    let mut rest = reaction.replies;
    let mut outbound: Vec<WireMessage> = Vec::new();
    while rest.len() > 0
        invariant
            outbound@.len() + rest@.len() == replies.len(),
            rest@ == replies.skip(outbound@.len() as int),
            forall|i: int| 0 <= i < replies.len() ==> sendable(#[trigger] replies[i]),
            forall|j: int|
                0 <= j < outbound@.len() ==> reply_on_wire(
                    #[trigger] outbound@[j],
                    self_id,
                    replies[j],
                ),
        decreases rest@.len(),
    {
        let ghost k = outbound@.len() as int;
        let (to, message) = rest.remove(0);
        proof {
            assert((to, message) == replies[k]);
            assert(sendable(replies[k]));
        }
        let w = match message {
            RaftMessage::RequestVote(rpc) => outbound_rpc_to_wire(
                self_id,
                OutboundRpc::RequestVote { to, rpc },
            ),
            RaftMessage::AppendEntries(rpc) => outbound_rpc_to_wire(
                self_id,
                OutboundRpc::AppendEntries { to, rpc },
            ),
            RaftMessage::RequestVoteResponse(r) => WireMessage {
                from: self_id,
                to,
                payload: WirePayload::RequestVoteResponse {
                    term: r.term,
                    vote_granted: r.vote_granted,
                },
            },
            RaftMessage::AppendEntriesResponse(r) => WireMessage {
                from: self_id,
                to,
                payload: WirePayload::AppendEntriesResponse {
                    term: r.term,
                    success: r.success,
                    match_index: r.match_index,
                },
            },
            RaftMessage::InstallSnapshot(_) => WireMessage {
                from: self_id,
                to,
                payload: WirePayload::RequestVoteResponse { term: 0, vote_granted: false },
            },
            RaftMessage::InstallSnapshotResponse(_) => WireMessage {
                from: self_id,
                to,
                payload: WirePayload::RequestVoteResponse { term: 0, vote_granted: false },
            },
        };
        outbound.push(w);
        proof {
            assert(rest@ =~= replies.skip(k + 1));
        }
    }
    proof {
        assert(exists|rs: Seq<(NodeId, RaftMessage)>|
            {
                &&& crate::reaction::reacts(&pre, node, m, rs, became_leader)
                &&& outbound@.len() == rs.len()
                &&& forall|i: int|
                    0 <= i < rs.len() ==> reply_on_wire(#[trigger] outbound@[i], self_id, rs[i])
            }) by {
            assert(crate::reaction::reacts(&pre, node, m, replies, became_leader));
        }
        assert(wire_carries(msg, m));
        assert(crate::reaction::admissible(&pre, &m));
    }
    let r = NetworkOutcome { outbound, became_leader };
    proof {
        assert(pre == *old(node));
        assert(crate::reaction::reacts(old(node), node, m, replies, r.became_leader));
        assert(r.outbound@.len() == replies.len());
        assert(forall|i: int|
            0 <= i < replies.len() ==> reply_on_wire(#[trigger] r.outbound@[i], self_id, replies[i]));
        assert(wire_carries(msg_copy, m));
    }
    r
}

/// A reply the line-oriented transport can carry.
pub open spec fn sendable(reply: (NodeId, RaftMessage)) -> bool {
    match reply.1 {
        RaftMessage::RequestVote(_) => true,
        RaftMessage::RequestVoteResponse(_) => true,
        RaftMessage::AppendEntries(_) => true,
        RaftMessage::AppendEntriesResponse(_) => true,
        _ => false,
    }
}

/// Reacting to one of the four messages the transport carries only ever
/// answers with such messages.
proof fn lemma_reacts_sendable(
    old: &RaftNode,
    new: &RaftNode,
    m: InboundMessage,
    replies: Seq<(NodeId, RaftMessage)>,
    became_leader: bool,
)
    requires
        crate::reaction::reacts(old, new, m, replies, became_leader),
        sendable((m.from, m.message)),
    ensures
        forall|i: int| 0 <= i < replies.len() ==> sendable(#[trigger] replies[i]),
{
    match m.message {
        RaftMessage::RequestVoteResponse(resp) => {
            if became_leader {
                let mid = choose|mid: RaftNode|
                    {
                        &&& RaftNode::vote_response_step(old, &mid, resp, became_leader)
                        &&& became_leader ==> exists|out: Seq<OutboundMessage>|
                            RaftNode::tick_step(&mid, new, out) && replies
                                == crate::reaction::as_replies(out)
                        &&& !became_leader ==> *new == mid && replies.len() == 0
                    };
                let out = choose|out: Seq<OutboundMessage>|
                    RaftNode::tick_step(&mid, new, out) && replies == crate::reaction::as_replies(
                        out,
                    );
                assert forall|i: int| 0 <= i < replies.len() implies sendable(
                    #[trigger] replies[i],
                ) by {
                    assert(replies[i] == crate::reaction::as_reply(out[i]));
                }
            }
        },
        RaftMessage::AppendEntriesResponse(resp) => {
            let out = choose|out: Seq<OutboundMessage>|
                RaftNode::append_response_step(old, new, resp, out) && replies
                    == crate::reaction::as_replies(out);
            assert forall|i: int| 0 <= i < replies.len() implies sendable(#[trigger] replies[i]) by {
                assert(replies[i] == crate::reaction::as_reply(out[i]));
            }
        },
        _ => {},
    }
}

} // verus!
