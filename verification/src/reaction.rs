//! How a node answers one incoming message: the decision part of a node's
//! event loop, apart from sending, applying and persisting.

use vstd::prelude::*;

use crate::communication::{InboundMessage, RaftMessage};
use crate::node::RaftNode;
use crate::types::{
    AppendEntriesResponse, InstallSnapshotResponse, NodeId, OutboundMessage,
    RequestVoteResponse, Role,
};

verus! {

/// What a node does with one message: the messages to send, and whether it
/// has just become leader.
pub struct Reaction {
    pub replies: Vec<(NodeId, RaftMessage)>,
    pub became_leader: bool,
}

/// `m` as a message to its destination.
pub open spec fn as_reply(m: OutboundMessage) -> (NodeId, RaftMessage) {
    match m {
        OutboundMessage::RequestVote { to, message } => (to, RaftMessage::RequestVote(message)),
        OutboundMessage::AppendEntries { to, message } => (to, RaftMessage::AppendEntries(message)),
    }
}

/// The requests `out` as messages to their destinations.
pub open spec fn as_replies(out: Seq<OutboundMessage>) -> Seq<(NodeId, RaftMessage)> {
    out.map_values(|m: OutboundMessage| as_reply(m))
}

/// `node` can take `msg` without any index or term running out of range.
pub open spec fn admissible(node: &RaftNode, msg: &InboundMessage) -> bool {
    match msg.message {
        RaftMessage::AppendEntries(req) => req.term >= node.current_term && node.accepts_append(req)
            ==> req.prev_log_index + req.entries@.len() < usize::MAX,
        RaftMessage::AppendEntriesResponse(resp) => resp.term == node.current_term && node.role
            == Role::Leader && resp.success ==> resp.match_index < usize::MAX,
        _ => true,
    }
}

/// `new`, `replies` and `became_leader` follow from `old` taking `msg`:
/// a vote request is answered; a vote that makes it leader is followed by the
/// first round of append requests; an append request is answered; an append
/// response may bring a retry; a snapshot offer is refused; a snapshot
/// answer is ignored.
pub open spec fn reacts(
    old: &RaftNode,
    new: &RaftNode,
    msg: InboundMessage,
    replies: Seq<(NodeId, RaftMessage)>,
    became_leader: bool,
) -> bool {
    match msg.message {
        RaftMessage::RequestVote(req) => {
            &&& !became_leader
            &&& exists|resp: RequestVoteResponse|
                {
                    &&& RaftNode::request_vote_step(old, new, req, resp)
                    &&& replies == seq![(msg.from, RaftMessage::RequestVoteResponse(resp))]
                }
        },
        RaftMessage::RequestVoteResponse(resp) => exists|mid: RaftNode|
            {
                &&& RaftNode::vote_response_step(old, &mid, resp, became_leader)
                &&& became_leader ==> exists|out: Seq<OutboundMessage>|
                    RaftNode::tick_step(&mid, new, out) && replies == as_replies(out)
                &&& !became_leader ==> *new == mid && replies.len() == 0
            },
        RaftMessage::AppendEntries(req) => {
            &&& !became_leader
            &&& exists|resp: AppendEntriesResponse|
                {
                    &&& RaftNode::append_entries_step(old, new, req, resp)
                    &&& replies == seq![(msg.from, RaftMessage::AppendEntriesResponse(resp))]
                }
        },
        RaftMessage::AppendEntriesResponse(resp) => {
            &&& !became_leader
            &&& exists|out: Seq<OutboundMessage>|
                RaftNode::append_response_step(old, new, resp, out) && replies == as_replies(out)
        },
        RaftMessage::InstallSnapshot(_) => {
            &&& !became_leader
            &&& *new == *old
            &&& replies == seq![
                (
                    msg.from,
                    RaftMessage::InstallSnapshotResponse(
                        InstallSnapshotResponse {
                            term: old.current_term,
                            from: old.id,
                            success: false,
                        },
                    ),
                ),
            ]
        },
        RaftMessage::InstallSnapshotResponse(_) => {
            &&& !became_leader
            &&& *new == *old
            &&& replies.len() == 0
        },
    }
}

/// `node` can take `msg`.
pub fn is_admissible(node: &RaftNode, msg: &InboundMessage) -> (r: bool)
    requires
        node.wf(),
    ensures
        r == admissible(node, msg),
{
    match &msg.message {
        RaftMessage::AppendEntries(req) => {
            if req.term >= node.current_term && node.accepts_request(req) {
                (req.prev_log_index as u128) + (req.entries.len() as u128) < usize::MAX as u128
            } else {
                true
            }
        },
        RaftMessage::AppendEntriesResponse(resp) => !(resp.term == node.current_term && node.role
            == Role::Leader && resp.success) || resp.match_index < usize::MAX,
        _ => true,
    }
}

fn to_replies(out: Vec<OutboundMessage>) -> (r: Vec<(NodeId, RaftMessage)>)
    ensures
        r@ == as_replies(out@),
{
    let ghost all = out@;
    let mut rest = out;
    let mut r: Vec<(NodeId, RaftMessage)> = Vec::new();
    while rest.len() > 0
        invariant
            r@.len() + rest@.len() == all.len(),
            rest@ == all.skip(r@.len() as int),
            r@ == as_replies(all.take(r@.len() as int)),
        decreases rest@.len(),
    {
        let m = rest.remove(0);
        let ghost k = r@.len() as int;
        let item = match m {
            OutboundMessage::RequestVote { to, message } => (to, RaftMessage::RequestVote(message)),
            OutboundMessage::AppendEntries { to, message } => (
                to,
                RaftMessage::AppendEntries(message),
            ),
        };
        proof {
            assert(m == all[k]);
            assert(all.take(k + 1) == all.take(k).push(all[k]));
        }
        r.push(item);
        proof {
            assert(rest@ =~= all.skip(k + 1));
            assert(r@ =~= as_replies(all.take(k + 1)));
        }
    }
    proof {
        assert(all.take(all.len() as int) == all);
    }
    r
}

/// Lets `node` take `msg`: the node's step for that message, and the
/// messages it answers with.
pub fn react(node: &mut RaftNode, msg: InboundMessage) -> (r: Reaction)
    requires
        old(node).wf(),
        admissible(old(node), &msg),
    ensures
        final(node).wf(),
        reacts(old(node), final(node), msg, r.replies@, r.became_leader),
{
    let from = msg.from;
    match msg.message {
        RaftMessage::RequestVote(req) => {
            let resp = node.handle_request_vote(req);
            let mut replies: Vec<(NodeId, RaftMessage)> = Vec::new();
            replies.push((from, RaftMessage::RequestVoteResponse(resp)));
            proof {
                assert(replies@ =~= seq![(from, RaftMessage::RequestVoteResponse(resp))]);
            }
            Reaction { replies, became_leader: false }
        },
        RaftMessage::RequestVoteResponse(resp) => {
            let elected = node.handle_request_vote_response(resp);
            let ghost mid = *node;
            if elected {
                let out = node.tick();
                let ghost out_v = out@;
                let replies = to_replies(out);
                proof {
                    assert(RaftNode::tick_step(&mid, node, out_v) && replies@ == as_replies(out_v));
                }
                Reaction { replies, became_leader: true }
            } else {
                Reaction { replies: Vec::new(), became_leader: false }
            }
        },
        RaftMessage::AppendEntries(req) => {
            let resp = node.handle_append_entries(req);
            let mut replies: Vec<(NodeId, RaftMessage)> = Vec::new();
            replies.push((from, RaftMessage::AppendEntriesResponse(resp)));
            proof {
                assert(replies@ =~= seq![(from, RaftMessage::AppendEntriesResponse(resp))]);
            }
            Reaction { replies, became_leader: false }
        },
        RaftMessage::AppendEntriesResponse(resp) => {
            let out = node.handle_append_entries_response(resp);
            let replies = to_replies(out);
            Reaction { replies, became_leader: false }
        },
        RaftMessage::InstallSnapshot(_req) => {
            let mut replies: Vec<(NodeId, RaftMessage)> = Vec::new();
            replies.push(
                (
                    from,
                    RaftMessage::InstallSnapshotResponse(
                        InstallSnapshotResponse {
                            term: node.current_term,
                            from: node.id,
                            success: false,
                        },
                    ),
                ),
            );
            proof {
                assert(replies@ =~= seq![
                    (
                        from,
                        RaftMessage::InstallSnapshotResponse(
                            InstallSnapshotResponse {
                                term: node.current_term,
                                from: node.id,
                                success: false,
                            },
                        ),
                    ),
                ]);
            }
            Reaction { replies, became_leader: false }
        },
        RaftMessage::InstallSnapshotResponse(_resp) => {
            Reaction { replies: Vec::new(), became_leader: false }
        },
    }
}

} // verus!
