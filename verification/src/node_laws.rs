use vstd::prelude::*;

use crate::node::RaftNode;
use crate::types::{
    AppendEntries, AppendEntriesResponse, LogEntry, NodeId, OutboundMessage, RequestVote,
    RequestVoteResponse,
};

verus! {

broadcast use vstd::seq_lib::group_seq_properties;

/// The nodes of the cluster as `node` knows them: itself and its peers.
pub open spec fn cluster_of(node: &RaftNode) -> Set<NodeId> {
    node.peers@.to_set().insert(node.id)
}

/// Any two quorums of a cluster share a member: two sets of cluster nodes
/// that each reach the quorum size cannot be disjoint. This is why one term
/// cannot elect two leaders, and why a committed entry survives elections.
pub proof fn law_quorums_intersect(node: &RaftNode, a: Set<NodeId>, b: Set<NodeId>)
    requires
        a.subset_of(cluster_of(node)),
        b.subset_of(cluster_of(node)),
        a.len() >= node.quorum(),
        b.len() >= node.quorum(),
    ensures
        exists|x: NodeId| a.contains(x) && b.contains(x),
{
    let c = cluster_of(node);
    vstd::seq_lib::seq_to_set_is_finite(node.peers@);
    node.peers@.lemma_cardinality_of_set();
    assert(c.finite());
    assert(c.len() <= node.peers@.len() + 1);
    vstd::set_lib::lemma_len_subset(a, c);
    vstd::set_lib::lemma_len_subset(b, c);
    assert((a + b).subset_of(c));
    vstd::set_lib::lemma_len_subset(a + b, c);
    vstd::set_lib::lemma_set_intersect_union_lens(a, b);
    assert(a.intersect(b).len() > 0);
    let x = a.intersect(b).choose();
    vstd::set_lib::lemma_set_empty_equivalency_len(a.intersect(b));
    assert(a.intersect(b).contains(x));
}

/// A node votes for at most one candidate per term: once it has voted for
/// `chosen` in the request's term, it refuses every other candidate there.
pub proof fn law_one_vote_per_term(node: &RaftNode, chosen: NodeId, req: RequestVote)
    requires
        node.voted_for == Some(chosen),
        req.term == node.current_term,
        req.candidate_id != chosen,
    ensures
        !node.grants_vote(req),
{
}

/// Handing out the unapplied entries drains them: a node whose applied index
/// has been advanced the way `take_unapplied_entries` advances it has nothing
/// left to apply until its commit index moves again.
pub proof fn law_unapplied_taken_once(before: &RaftNode, after: &RaftNode)
    requires
        after.log@ == before.log@,
        after.snapshot_last_included_index == before.snapshot_last_included_index,
        after.commit_index == before.commit_index,
        after.last_applied == before.applied_after_take(),
    ensures
        after.unapplied_entries().len() == 0,
{
}

/// An accepted append leaves the follower's log agreeing with the leader's
/// request: the entries before the request's position are untouched, and from
/// that position on the log holds an entry of the same term for each entry
/// sent. Entries already present with the right term are kept as they are.
pub proof fn law_merge_adopts_entries(log: Seq<LogEntry>, base: int, entries: Seq<LogEntry>)
    requires
        0 <= base <= log.len(),
    ensures
        crate::node::merge_entries(log, base, entries).take(base) == log.take(base),
        crate::node::merge_entries(log, base, entries).len() >= base + entries.len(),
        forall|j: int|
            0 <= j < entries.len() ==> (#[trigger] crate::node::merge_entries(log, base, entries)[base
                + j]).term == entries[j].term,
        forall|j: int|
            0 <= j < entries.len() && !(exists|k: int|
                0 <= k <= j && crate::node::conflicts_at(log, base, entries, k)) && base + j < log.len()
                ==> #[trigger] crate::node::merge_entries(log, base, entries)[base + j] == log[base + j],
{
    let m = crate::node::merge_entries(log, base, entries);
    if exists|j: int| crate::node::conflicts_at(log, base, entries, j) {
        let w = choose|j: int| crate::node::conflicts_at(log, base, entries, j);
        lemma_first_conflict_exists(log, base, entries, w);
        let j0 = choose|j: int| crate::node::is_first_conflict(log, base, entries, j);
        assert(crate::node::is_first_conflict(log, base, entries, j0));
        assert(m == log.take(base + j0) + entries.skip(j0));
        assert(m.take(base) =~= log.take(base));
        assert forall|j: int| 0 <= j < entries.len() implies (#[trigger] m[base + j]).term
            == entries[j].term by {
            if j >= j0 {
                assert(m[base + j] == entries[j]);
            } else {
                assert(!crate::node::conflicts_at(log, base, entries, j));
                assert(m[base + j] == log[base + j]);
            }
        }
        assert forall|j: int|
            0 <= j < entries.len() && !(exists|k: int|
                0 <= k <= j && crate::node::conflicts_at(log, base, entries, k)) && base + j < log.len()
            implies #[trigger] m[base + j] == log[base + j] by {
            if j >= j0 {
                assert(crate::node::conflicts_at(log, base, entries, j0));
            }
        }
    } else if base + entries.len() > log.len() {
        assert(m == log + entries.skip(log.len() - base));
        assert(m.take(base) =~= log.take(base));
        assert forall|j: int| 0 <= j < entries.len() implies (#[trigger] m[base + j]).term
            == entries[j].term by {
            if base + j >= log.len() {
                assert(m[base + j] == entries[j]);
            } else {
                assert(!crate::node::conflicts_at(log, base, entries, j));
            }
        }
    } else {
        assert(m == log);
        assert forall|j: int| 0 <= j < entries.len() implies (#[trigger] m[base + j]).term
            == entries[j].term by {
            assert(!crate::node::conflicts_at(log, base, entries, j));
        }
    }
}

/// When some entry conflicts, a first conflicting entry exists.
proof fn lemma_first_conflict_exists(log: Seq<LogEntry>, base: int, entries: Seq<LogEntry>, w: int)
    requires
        crate::node::conflicts_at(log, base, entries, w),
    ensures
        exists|j: int| crate::node::is_first_conflict(log, base, entries, j),
    decreases w,
{
    if exists|k: int| 0 <= k < w && crate::node::conflicts_at(log, base, entries, k) {
        let k = choose|k: int| 0 <= k < w && crate::node::conflicts_at(log, base, entries, k);
        lemma_first_conflict_exists(log, base, entries, k);
    } else {
        assert(crate::node::is_first_conflict(log, base, entries, w));
    }
}


/// `new` follows from `old` by one of the node's event handlers: a vote
/// request or response, an append request or response, a tick, or a proposal.
pub open spec fn handles_event(old: &RaftNode, new: &RaftNode) -> bool {
    ||| exists|req: RequestVote, resp: RequestVoteResponse|
        RaftNode::request_vote_step(old, new, req, resp)
    ||| exists|resp: RequestVoteResponse, elected: bool|
        RaftNode::vote_response_step(old, new, resp, elected)
    ||| exists|req: AppendEntries, resp: AppendEntriesResponse|
        RaftNode::append_entries_step(old, new, req, resp)
    ||| exists|resp: AppendEntriesResponse, out: Seq<OutboundMessage>|
        RaftNode::append_response_step(old, new, resp, out)
    ||| exists|out: Seq<OutboundMessage>| RaftNode::tick_step(old, new, out)
    ||| exists|command: Seq<char>, r: Option<Vec<OutboundMessage>>|
        RaftNode::propose_step(old, new, command, r)
}

/// Terms only move forward: no event handler lowers the current term.
pub proof fn law_term_never_decreases(old: &RaftNode, new: &RaftNode)
    requires
        handles_event(old, new),
    ensures
        new.current_term >= old.current_term,
{
}

/// A leader never rewrites its own log: while it stays leader, every event
/// keeps the entries it already had, in place.
pub proof fn law_leader_log_only_grows(old: &RaftNode, new: &RaftNode)
    requires
        handles_event(old, new),
        old.role == crate::types::Role::Leader,
        new.role == crate::types::Role::Leader,
        new.current_term == old.current_term,
    ensures
        new.snapshot_last_included_index == old.snapshot_last_included_index,
        old.log@.len() <= new.log@.len(),
        new.log@.take(old.log@.len() as int) == old.log@,
{
    if exists|command: Seq<char>, r: Option<Vec<OutboundMessage>>|
        RaftNode::propose_step(old, new, command, r) {
        assert(new.log@.drop_last() == old.log@);
        assert(new.log@.take(old.log@.len() as int) == new.log@.drop_last());
    } else {
        assert(new.log@ == old.log@);
        assert(new.log@.take(old.log@.len() as int) == new.log@);
    }
}

/// When a follower acknowledges a leader's append request, the leader's
/// commit index only moves forward and stays within the log; where it moves,
/// it lands on an entry of the current term that a quorum has replicated, and
/// no later entry of the current term has been replicated by a quorum.
pub proof fn law_commit_advances_on_quorum(
    old: &RaftNode,
    new: &RaftNode,
    resp: AppendEntriesResponse,
    out: Seq<OutboundMessage>,
)
    requires
        RaftNode::append_response_step(old, new, resp, out),
        old.role == crate::types::Role::Leader,
        resp.term == old.current_term,
        resp.success,
        old.commit_index <= old.last_index(),
    ensures
        out.len() == 0,
        old.commit_index <= new.commit_index <= new.last_index(),
        new.commit_index > old.commit_index ==> {
            &&& new.term_at_index(new.commit_index as int) == Some(new.current_term)
            &&& crate::node::replicated_count(new.leader_match_index@, new.commit_index as int)
                >= new.quorum()
            &&& forall|c: int|
                new.commit_index < c <= new.last_index() && #[trigger] new.term_at_index(c) == Some(
                    new.current_term,
                ) ==> crate::node::replicated_count(new.leader_match_index@, c) < new.quorum()
        },
{
    let m = new.leader_match_index@;
    assert forall|c: int| new.term_at_index(c) == old.term_at_index(c) by {}
    if exists|c: int| old.commit_candidate(m, c) {
        assert(old.commit_candidate(m, new.commit_index as int));
        assert forall|c: int|
            new.commit_index < c <= new.last_index() && #[trigger] new.term_at_index(c) == Some(
                new.current_term,
            ) implies crate::node::replicated_count(m, c) < new.quorum() by {
            if crate::node::replicated_count(m, c) >= new.quorum() {
                assert(old.commit_candidate(m, c));
            }
        }
    }
}

/// The append request `req` rewrites nothing at or below `node`'s commit
/// index: every entry of it whose term differs from the entry already at its
/// place lies past the commit index.
pub open spec fn spares_committed(node: &RaftNode, req: AppendEntries) -> bool {
    forall|j: int|
        #[trigger] crate::node::conflicts_at(
            node.log@,
            req.prev_log_index - node.snapshot_last_included_index,
            req.entries@,
            j,
        ) ==> req.prev_log_index + j >= node.commit_index
}

/// The commit index never moves back: no event handler lowers it, as long as
/// it lies within the log and append requests leave committed entries alone
/// (as a leader's requests do).
pub proof fn law_commit_never_decreases(old: &RaftNode, new: &RaftNode)
    requires
        old.commit_index <= old.last_index(),
        handles_event(old, new),
        forall|req: AppendEntries, resp: AppendEntriesResponse|
            RaftNode::append_entries_step(old, new, req, resp) ==> spares_committed(old, req),
    ensures
        new.commit_index >= old.commit_index,
{
    if exists|req: AppendEntries, resp: AppendEntriesResponse|
        RaftNode::append_entries_step(old, new, req, resp) {
        let (req, resp) = choose|req: AppendEntries, resp: AppendEntriesResponse|
            RaftNode::append_entries_step(old, new, req, resp);
        assert(spares_committed(old, req));
        if req.term >= old.current_term && old.accepts_append(req)
            && req.leader_commit > old.commit_index {
            let s = old.snapshot_last_included_index as int;
            let base = req.prev_log_index - s;
            let log = old.log@;
            let entries = req.entries@;
            law_merge_adopts_entries(log, base, entries);
            let merged = crate::node::merge_entries(log, base, entries);
            assert(new.log@ == merged);
            if exists|j: int| crate::node::conflicts_at(log, base, entries, j) {
                let j = choose|j: int| crate::node::conflicts_at(log, base, entries, j);
                assert(req.prev_log_index + j >= old.commit_index);
                assert(merged.len() >= base + entries.len());
                assert(new.last_index() >= old.commit_index);
            } else if base + entries.len() > log.len() {
                assert(merged.len() == log.len() + entries.skip(log.len() - base).len());
                assert(new.last_index() >= old.last_index());
            } else {
                assert(new.last_index() == old.last_index());
            }
        }
    }
}

/// Compaction changes where entries are kept, not what the log says: every
/// index from the new snapshot point on has the same term as before, and the
/// last index is unchanged.
pub proof fn law_compaction_keeps_terms(before: &RaftNode, after: &RaftNode)
    requires
        before.snapshot_last_included_index < before.commit_index <= before.last_index(),
        after.snapshot_last_included_index == before.commit_index,
        after.log@ == before.log@.skip(
            before.commit_index - before.snapshot_last_included_index,
        ),
        Some(after.snapshot_last_included_term) == before.term_at_index(
            before.commit_index as int,
        ),
    ensures
        after.last_index() == before.last_index(),
        forall|i: int|
            i >= after.snapshot_last_included_index ==> #[trigger] after.term_at_index(i)
                == before.term_at_index(i),
{
    assert forall|i: int| i >= after.snapshot_last_included_index implies #[trigger] after.term_at_index(i)
        == before.term_at_index(i) by {
        if i > after.snapshot_last_included_index && i <= after.last_index() {
            let d = before.commit_index - before.snapshot_last_included_index;
            assert(after.log@[i - after.snapshot_last_included_index - 1] == before.log@[i
                - before.snapshot_last_included_index - 1]);
        }
    }
}

/// Applying hands out the next committed entries, none skipped: from an
/// applied index at or past the snapshot point and below both the commit
/// index and the last index, the entries handed out are those at absolute
/// indexes `last_applied + 1 ..= min(commit_index, last index)`, in order,
/// and the applied index moves to that end.
pub proof fn law_apply_hands_out_next_committed(
    before: &RaftNode,
    after: &RaftNode,
    handed: Seq<LogEntry>,
)
    requires
        handed == before.unapplied_entries(),
        after.last_applied == before.applied_after_take(),
        before.snapshot_last_included_index <= before.last_applied,
        before.last_applied < before.commit_index,
        before.last_applied < before.last_index(),
    ensures
        ({
            let end = if (before.commit_index as int) < before.last_index() {
                before.commit_index as int
            } else {
                before.last_index()
            };
            &&& handed.len() == end - before.last_applied
            &&& forall|k: int|
                0 <= k < handed.len() ==> #[trigger] handed[k] == before.log@[before.last_applied + k
                    - before.snapshot_last_included_index]
            &&& after.last_applied == end
        }),
{
}

/// Two rounds of applying, with the commit index moving on in between, hand
/// out together exactly the log entries after the first applied index up to
/// the second round's end: no committed entry is skipped or handed out twice.
pub proof fn law_apply_rounds_skip_nothing(
    first: &RaftNode,
    mid: &RaftNode,
    second: &RaftNode,
    handed1: Seq<LogEntry>,
    handed2: Seq<LogEntry>,
)
    requires
        handed1 == first.unapplied_entries(),
        mid.last_applied == first.applied_after_take(),
        handed2 == mid.unapplied_entries(),
        mid.log@ == first.log@,
        mid.snapshot_last_included_index == first.snapshot_last_included_index,
        first.snapshot_last_included_index <= first.last_applied,
        first.last_applied <= first.commit_index <= mid.commit_index,
        first.last_applied <= first.last_index(),
    ensures
        ({
            let s = first.snapshot_last_included_index as int;
            let end = if (mid.commit_index as int) < first.last_index() {
                mid.commit_index as int
            } else {
                first.last_index()
            };
            handed1 + handed2 == first.log@.subrange(first.last_applied - s, end - s)
        }),
{
    let s = first.snapshot_last_included_index as int;
    let a = first.last_applied as int;
    let end1 = if (first.commit_index as int) < first.last_index() {
        first.commit_index as int
    } else {
        first.last_index()
    };
    let end2 = if (mid.commit_index as int) < first.last_index() {
        mid.commit_index as int
    } else {
        first.last_index()
    };
    assert(handed1 =~= first.log@.subrange(a - s, end1 - s));
    assert(mid.last_applied == end1);
    assert(handed2 =~= first.log@.subrange(end1 - s, end2 - s));
    assert(first.log@.subrange(a - s, end1 - s) + first.log@.subrange(end1 - s, end2 - s)
        =~= first.log@.subrange(a - s, end2 - s));
}

/// A vote is granted exactly when the request is not from an older term, the
/// voter has not voted for another candidate in that term, and the
/// candidate's log is at least as up to date as the voter's: a newer last
/// term, or the same last term and a last index no smaller. A candidate whose
/// last term equals the voter's but whose log is shorter is refused.
pub proof fn law_vote_needs_up_to_date_log(
    old: &RaftNode,
    new: &RaftNode,
    req: RequestVote,
    resp: RequestVoteResponse,
)
    requires
        RaftNode::request_vote_step(old, new, req, resp),
    ensures
        resp.vote_granted <==> {
            &&& req.term >= old.current_term
            &&& (req.term > old.current_term || old.voted_for is None || old.voted_for == Some(
                req.candidate_id,
            ))
            &&& (req.last_log_term > old.last_term() || (req.last_log_term == old.last_term()
                && req.last_log_index >= old.last_index()))
        },
        resp.vote_granted ==> new.voted_for == Some(req.candidate_id),
        (req.last_log_term == old.last_term() && req.last_log_index < old.last_index())
            ==> !resp.vote_granted,
{
}

/// An append request in the follower's term or later is accepted exactly
/// when its previous index lies between the snapshot point and the end of the
/// log and is 0 or holds an entry (or the snapshot point) of the request's
/// previous term, wherever in the log it lies; a refused request leaves the
/// log and the commit index as they were.
pub proof fn law_append_checks_previous_entry(
    old: &RaftNode,
    new: &RaftNode,
    req: AppendEntries,
    resp: AppendEntriesResponse,
)
    requires
        RaftNode::append_entries_step(old, new, req, resp),
        req.term >= old.current_term,
    ensures
        resp.success <==> {
            &&& old.snapshot_last_included_index <= req.prev_log_index <= old.last_index()
            &&& (req.prev_log_index == 0 || old.term_at_index(req.prev_log_index as int) == Some(
                req.prev_log_term,
            ))
        },
        !resp.success ==> new.log@ == old.log@ && new.commit_index == old.commit_index,
{
}

/// The quorum is the smallest number of nodes that is more than half of the
/// cluster (this node and its peers).
pub proof fn law_quorum_is_smallest_majority(node: &RaftNode)
    ensures
        2 * node.quorum() > node.peers@.len() + 1,
        2 * (node.quorum() - 1) <= node.peers@.len() + 1,
{
}

/// Every append request a leader sends with its heartbeats or a proposal is
/// for its current term, names it as leader, carries its commit index, and
/// holds the log from the request's previous index to the end, that previous
/// index lying between the snapshot point and the end of the log with the
/// term it names.
pub proof fn law_leader_requests_carry_commit(node: &RaftNode, msgs: Seq<OutboundMessage>)
    requires
        node.are_heartbeats(msgs),
    ensures
        forall|i: int|
            0 <= i < msgs.len() ==> match #[trigger] msgs[i] {
                OutboundMessage::AppendEntries { to, message } => {
                    &&& message.leader_commit == node.commit_index
                    &&& message.term == node.current_term
                    &&& message.leader_id == node.id
                    &&& node.snapshot_last_included_index <= message.prev_log_index
                        <= node.last_index()
                    &&& node.term_at_index(message.prev_log_index as int) == Some(
                        message.prev_log_term,
                    )
                    &&& message.entries@ == node.log@.skip(
                        message.prev_log_index - node.snapshot_last_included_index,
                    )
                },
                _ => false,
            },
{
    assert forall|i: int| 0 <= i < msgs.len() implies match #[trigger] msgs[i] {
        OutboundMessage::AppendEntries { to, message } => {
            &&& message.leader_commit == node.commit_index
            &&& message.term == node.current_term
            &&& message.leader_id == node.id
            &&& node.snapshot_last_included_index <= message.prev_log_index <= node.last_index()
            &&& node.term_at_index(message.prev_log_index as int) == Some(message.prev_log_term)
            &&& message.entries@ == node.log@.skip(
                message.prev_log_index - node.snapshot_last_included_index,
            )
        },
        _ => false,
    } by {
        match msgs[i] {
            OutboundMessage::AppendEntries { to, message } => {
                node.peers@.lemma_filter_pred(node.replicable(), i);
                lemma_request_for_peer(node, to, message);
            },
            _ => {},
        }
    }
}

/// A leader's retry after a refused append carries its commit index and the
/// log from the retried previous index to the end, as every request does.
pub proof fn law_leader_retry_carries_commit(
    old: &RaftNode,
    new: &RaftNode,
    resp: AppendEntriesResponse,
    out: Seq<OutboundMessage>,
)
    requires
        RaftNode::append_response_step(old, new, resp, out),
    ensures
        forall|i: int|
            0 <= i < out.len() ==> match #[trigger] out[i] {
                OutboundMessage::AppendEntries { to, message } => {
                    &&& to == resp.from
                    &&& message.leader_commit == new.commit_index
                    &&& message.term == new.current_term
                    &&& message.leader_id == new.id
                    &&& new.snapshot_last_included_index <= message.prev_log_index
                        <= new.last_index()
                    &&& new.term_at_index(message.prev_log_index as int) == Some(
                        message.prev_log_term,
                    )
                    &&& message.entries@ == new.log@.skip(
                        message.prev_log_index - new.snapshot_last_included_index,
                    )
                },
                _ => false,
            },
{
    if out.len() > 0 {
        match out[0] {
            OutboundMessage::AppendEntries { to, message } => {
                lemma_request_for_peer(new, to, message);
            },
            _ => {},
        }
    }
}

/// An append request built for a peer that can be sent one, in raw terms.
proof fn lemma_request_for_peer(node: &RaftNode, peer: NodeId, m: AppendEntries)
    requires
        node.can_replicate_to(peer),
        node.is_append_entries_for(peer, m),
    ensures
        m.leader_commit == node.commit_index,
        m.term == node.current_term,
        m.leader_id == node.id,
        node.snapshot_last_included_index <= m.prev_log_index <= node.last_index(),
        node.term_at_index(m.prev_log_index as int) == Some(m.prev_log_term),
        m.entries@ == node.log@.skip(m.prev_log_index - node.snapshot_last_included_index),
{
    let s = node.snapshot_last_included_index as int;
    let next = node.next_index_for(peer);
    if next > node.last_index() {
        assert(next - 1 == node.last_index());
        assert(node.log@.skip(m.prev_log_index - s) =~= Seq::<LogEntry>::empty());
    } else {
        assert(node.log@.subrange(next - s - 1, node.log@.len() as int) =~= node.log@.skip(
            m.prev_log_index - s,
        ));
    }
}

} // verus!
