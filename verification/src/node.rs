use std::collections::{HashMap, HashSet};

use rand::Rng;
use vstd::prelude::*;

use crate::types::{
    copy_entries, copy_entry, AppendEntries, AppendEntriesResponse, LogEntry, NodeId,
    OutboundMessage, RequestVote, RequestVoteResponse, Role, Term,
};

verus! {

broadcast use {vstd::std_specs::hash::group_hash_axioms, vstd::seq_lib::group_seq_properties};

/// Draws a number of ticks uniformly from `min_ticks..=max_ticks` with the
/// thread-local generator of `rand` (`rand::thread_rng().gen_range`).
/// The contract claims only that the value lies in that range, which
/// `gen_range` documents for a non-empty inclusive range; which value comes
/// back is left open.
#[verifier::external_body]
fn random_ticks_in(min_ticks: u64, max_ticks: u64) -> (r: u64)
    requires
        min_ticks <= max_ticks,
    ensures
        min_ticks <= r <= max_ticks,
{
    rand::thread_rng().gen_range(min_ticks..=max_ticks)
}

/// The state of one Raft participant: its persistent state (term, vote, log
/// with the snapshot point before it), its volatile state (commit and apply
/// positions, role, known leader), the leader's per-peer bookkeeping, and the
/// election and heartbeat timers counted in ticks.
#[derive(Debug)]
pub struct RaftNode {
    pub id: NodeId,
    pub peers: Vec<NodeId>,
    pub current_term: Term,
    pub voted_for: Option<NodeId>,
    pub log: Vec<LogEntry>,
    pub snapshot_last_included_index: usize,
    pub snapshot_last_included_term: Term,
    pub commit_index: usize,
    pub last_applied: usize,
    pub role: Role,
    pub leader_id: Option<NodeId>,
    pub leader_next_index: HashMap<NodeId, usize>,
    pub leader_match_index: HashMap<NodeId, usize>,
    pub votes_received: HashSet<NodeId>,
    pub election_elapsed: u64,
    pub election_timeout_min: u64,
    pub election_timeout_max: u64,
    pub current_election_timeout: u64,
    pub heartbeat_elapsed: u64,
    pub heartbeat_interval: u64,
}

/// Number of peers in `m` whose recorded match position is at least `index`.
pub open spec fn replicated_count(m: Map<NodeId, usize>, index: int) -> nat {
    m.dom().filter(at_least(m, index)).len()
}

/// The keys of `m` whose value is at least `index`, as a predicate.
pub open spec fn at_least(m: Map<NodeId, usize>, index: int) -> spec_fn(NodeId) -> bool {
    |k: NodeId| m[k] >= index
}

/// `value` clamped into `lo..=hi`.
pub open spec fn clamp_spec(value: int, lo: int, hi: int) -> int {
    if value < lo {
        lo
    } else if value > hi {
        hi
    } else {
        value
    }
}


/// Entry `j` of `entries`, placed at position `base + j` of `log`, meets an
/// entry of `log` with a different term.
pub open spec fn conflicts_at(log: Seq<LogEntry>, base: int, entries: Seq<LogEntry>, j: int) -> bool {
    &&& 0 <= j < entries.len()
    &&& base + j < log.len()
    &&& log[base + j].term != entries[j].term
}

/// The first position of `entries` that conflicts with `log`.
pub open spec fn is_first_conflict(log: Seq<LogEntry>, base: int, entries: Seq<LogEntry>, j: int) -> bool {
    &&& conflicts_at(log, base, entries, j)
    &&& forall|k: int| 0 <= k < j ==> !conflicts_at(log, base, entries, k)
}

/// `log` after writing `entries` from position `base` on: entries that agree
/// in term with what is there are kept as they are; at the first conflict the
/// rest of `log` is dropped and the remaining entries follow; entries past the
/// end of `log` are appended.
pub open spec fn merge_entries(log: Seq<LogEntry>, base: int, entries: Seq<LogEntry>) -> Seq<LogEntry> {
    if exists|j: int| conflicts_at(log, base, entries, j) {
        let j = choose|j: int| is_first_conflict(log, base, entries, j);
        log.take(base + j) + entries.skip(j)
    } else if base + entries.len() > log.len() {
        log + entries.skip(log.len() - base)
    } else {
        log
    }
}


/// A sequence without repeated elements keeps that property when filtered,
/// and its filtered length is the size of the filtered set of its elements.
proof fn lemma_filter_len_is_set_len(s: Seq<NodeId>, pred: spec_fn(NodeId) -> bool)
    requires
        s.no_duplicates(),
    ensures
        s.filter(pred).no_duplicates(),
        s.filter(pred).len() == s.to_set().filter(pred).len(),
    decreases s.len(),
{
    if s.len() == 0 {
        assert(s.to_set().filter(pred) =~= Set::<NodeId>::empty());
        assert(s.filter(pred) =~= Seq::<NodeId>::empty());
    } else {
        let init = s.drop_last();
        let x = s.last();
        assert(s == init.push(x));
        lemma_filter_len_is_set_len(init, pred);
        init.lemma_filter_push(x, pred);
        assert(!init.contains(x));
        assert(init.to_set().finite());
        assert(init.to_set().filter(pred).finite());
        if pred(x) {
            assert(!init.filter(pred).contains(x)) by {
                if init.filter(pred).contains(x) {
                    init.lemma_filter_contains_rev(pred, x);
                }
            }
            assert(s.to_set().filter(pred) =~= init.to_set().filter(pred).insert(x));
            assert(!init.to_set().filter(pred).contains(x));
        } else {
            assert(s.to_set().filter(pred) =~= init.to_set().filter(pred));
        }
    }
}

/// Counts the entries of `m` whose value is at least `index`.
fn count_replicated(m: &HashMap<NodeId, usize>, index: usize) -> (r: usize)
    ensures
        r == replicated_count(m@, index as int),
{
    let ghost pred = at_least(m@, index as int);
    let mut count: usize = 0;
    let n = m.len();
    let keys = m.keys();
    let ghost ks: Seq<NodeId> = vstd::std_specs::iter::IteratorSpec::remaining(&keys).unref();
    assert(ks.no_duplicates());
    assert(ks.to_set() == m@.dom());
    for k in it: keys
        invariant
            it.seq().unref() == ks,
            ks.no_duplicates(),
            ks.to_set() == m@.dom(),
            ks.len() == m@.dom().len(),
            ks.len() == n,
            count == ks.take(it.index()).filter(pred).len(),
            count <= it.index(),
            pred == at_least(m@, index as int),
    {
        let ghost idx = it.index();
        proof {
            assert(*k == ks[it.index()]);
            assert(ks.contains(*k));
            assert(ks.to_set().contains(*k));
            assert(m@.dom().contains(*k));
            assert(ks.take(it.index() + 1) == ks.take(it.index()).push(*k));
            ks.take(it.index()).lemma_filter_push(*k, pred);
        }
        let v = match m.get(k) {
            Some(v) => *v,
            None => 0,
        };
        proof {
            assert(v == m@[*k]);
            assert(pred(*k) == (v >= index));
        }
        if v >= index {
            count = count + 1;
        }
        proof {
            assert(count == ks.take(idx + 1).filter(pred).len());
        }
    }
    proof {
        assert(ks.take(ks.len() as int) == ks);
        lemma_filter_len_is_set_len(ks, pred);
        assert(m@.dom().filter(pred) =~= ks.to_set().filter(pred));
    }
    count
}

impl RaftNode {
    // ---------------------------------------------------------------
    // Model of the log
    // ---------------------------------------------------------------
    /// Index of the last entry, counting the entries folded into the snapshot.
    pub open spec fn last_index(&self) -> int {
        self.snapshot_last_included_index + self.log@.len()
    }

    /// Term of the entry at absolute `index`: the snapshot point itself, or an
    /// entry still held in `log`; `None` for any other index.
    pub open spec fn term_at_index(&self, index: int) -> Option<Term> {
        if index == self.snapshot_last_included_index {
            Some(self.snapshot_last_included_term)
        } else if self.snapshot_last_included_index < index <= self.last_index() {
            Some(self.log@[index - self.snapshot_last_included_index - 1].term)
        } else {
            None
        }
    }

    /// Term of the last entry (that of the snapshot point when `log` is empty).
    pub open spec fn last_term(&self) -> Term {
        match self.term_at_index(self.last_index()) {
            Some(t) => t,
            None => 0,
        }
    }

    /// Smallest number of nodes, this one included, that forms a majority.
    pub open spec fn quorum(&self) -> int {
        ((self.peers@.len() + 1) / 2 + 1) as int
    }

    /// What every operation keeps: the timeout bounds are ordered and positive,
    /// the current timeout lies between them, the timers have not run past
    /// their limits, and one more index past the log still fits in `usize`.
    pub open spec fn wf(&self) -> bool {
        &&& self.settings_ok()
        &&& self.election_elapsed < self.current_election_timeout
    }

    /// `wf` without the bound on the election timer: what holds at the moment
    /// the timer has reached the timeout.
    pub open spec fn settings_ok(&self) -> bool {
        &&& 0 < self.election_timeout_min <= self.current_election_timeout
            <= self.election_timeout_max
        &&& (self.heartbeat_elapsed == 0 || self.heartbeat_elapsed < self.heartbeat_interval)
        &&& self.last_index() < usize::MAX
    }

    /// `self` and `other` have the same identity, peers and timer settings.
    pub open spec fn same_config(&self, other: &RaftNode) -> bool {
        &&& self.id == other.id
        &&& self.peers@ == other.peers@
        &&& self.election_timeout_min == other.election_timeout_min
        &&& self.election_timeout_max == other.election_timeout_max
        &&& self.heartbeat_interval == other.heartbeat_interval
    }

    /// `self` and `other` hold the same log, snapshot point and positions.
    pub open spec fn same_log_state(&self, other: &RaftNode) -> bool {
        &&& self.log@ == other.log@
        &&& self.snapshot_last_included_index == other.snapshot_last_included_index
        &&& self.snapshot_last_included_term == other.snapshot_last_included_term
        &&& self.commit_index == other.commit_index
        &&& self.last_applied == other.last_applied
    }

    /// `self` and `other` agree on term, vote, role, leader, the leader's
    /// bookkeeping and the votes gathered.
    pub open spec fn same_election_state(&self, other: &RaftNode) -> bool {
        &&& self.current_term == other.current_term
        &&& self.voted_for == other.voted_for
        &&& self.role == other.role
        &&& self.leader_id == other.leader_id
        &&& self.leader_next_index@ == other.leader_next_index@
        &&& self.leader_match_index@ == other.leader_match_index@
        &&& self.votes_received@ == other.votes_received@
    }

    /// `self` and `other` have the same timers.
    pub open spec fn same_timers(&self, other: &RaftNode) -> bool {
        &&& self.election_elapsed == other.election_elapsed
        &&& self.current_election_timeout == other.current_election_timeout
        &&& self.heartbeat_elapsed == other.heartbeat_elapsed
    }

    /// The election timer was restarted with a freshly drawn timeout.
    pub open spec fn election_timer_restarted(&self) -> bool {
        &&& self.election_elapsed == 0
        &&& self.election_timeout_min <= self.current_election_timeout
            <= self.election_timeout_max
    }

    /// `new` is `old` after stepping down to follower in `term`, with `leader`
    /// as the known leader: vote, votes, and leader bookkeeping cleared, both
    /// timers restarted, log untouched.
    pub open spec fn stepped_down(old: &RaftNode, new: &RaftNode, term: Term, leader: Option<NodeId>) -> bool {
        &&& new.role == Role::Follower
        &&& new.current_term == term
        &&& new.voted_for is None
        &&& new.votes_received@ == Set::<NodeId>::empty()
        &&& new.leader_next_index@ == Map::<NodeId, usize>::empty()
        &&& new.leader_match_index@ == Map::<NodeId, usize>::empty()
        &&& new.election_timer_restarted()
        &&& new.heartbeat_elapsed == 0
        &&& new.leader_id == leader
        &&& new.same_log_state(old)
        &&& new.same_config(old)
    }


    /// `new_index` as the leader's next index for `peer` (1 when none is recorded).
    pub open spec fn next_index_for(&self, peer: NodeId) -> int {
        if self.leader_next_index@.contains_key(peer) {
            self.leader_next_index@[peer] as int
        } else {
            1
        }
    }

    /// The leader can send `peer` an append request: the entry just before
    /// the peer's next index is still known (it is not folded into the
    /// snapshot, and not past the end of the log).
    pub open spec fn can_replicate_to(&self, peer: NodeId) -> bool {
        let next = self.next_index_for(peer);
        &&& next > self.snapshot_last_included_index
        &&& self.term_at_index(next - 1) is Some
    }

    /// `m` is the append request this node sends `peer`: the entries from the
    /// peer's next index to the end of the log, after the entry before them.
    pub open spec fn is_append_entries_for(&self, peer: NodeId, m: AppendEntries) -> bool {
        let next = self.next_index_for(peer);
        &&& m.term == self.current_term
        &&& m.leader_id == self.id
        &&& m.prev_log_index == next - 1
        &&& self.term_at_index(next - 1) == Some(m.prev_log_term)
        &&& m.entries@ == (if next > self.last_index() {
            Seq::<LogEntry>::empty()
        } else {
            self.log@.subrange(next - self.snapshot_last_included_index - 1, self.log@.len() as int)
        })
        &&& m.leader_commit == self.commit_index
    }

    /// The peers, in order, that can be sent an append request.
    pub open spec fn heartbeat_targets(&self) -> Seq<NodeId> {
        self.peers@.filter(self.replicable())
    }

    /// `can_replicate_to` as a predicate on peers.
    pub open spec fn replicable(&self) -> spec_fn(NodeId) -> bool {
        |p: NodeId| self.can_replicate_to(p)
    }

    /// `msgs` holds, in the order of `peers`, one append request for each peer
    /// that can be sent one.
    pub open spec fn are_heartbeats(&self, msgs: Seq<OutboundMessage>) -> bool {
        &&& msgs.len() == self.heartbeat_targets().len()
        &&& forall|i: int|
            0 <= i < msgs.len() ==> match #[trigger] msgs[i] {
                OutboundMessage::AppendEntries { to, message } => to == self.heartbeat_targets()[i]
                    && self.is_append_entries_for(to, message),
                _ => false,
            }
    }

    /// The vote request this node, as candidate, sends to every peer.
    pub open spec fn vote_request(&self) -> RequestVote {
        RequestVote {
            term: self.current_term,
            candidate_id: self.id,
            last_log_index: self.last_index() as usize,
            last_log_term: self.last_term(),
        }
    }

    /// `msgs` holds the vote request for each peer, in the order of `peers`.
    pub open spec fn are_vote_requests(&self, msgs: Seq<OutboundMessage>) -> bool {
        &&& msgs.len() == self.peers@.len()
        &&& forall|i: int|
            0 <= i < msgs.len() ==> #[trigger] msgs[i] == (OutboundMessage::RequestVote {
                to: self.peers@[i],
                message: self.vote_request(),
            })
    }

    /// A candidate's log is at least as up to date as this node's: its last
    /// term is newer, or equal with a last index no smaller.
    pub open spec fn log_up_to_date(&self, last_log_index: int, last_log_term: Term) -> bool {
        last_log_term > self.last_term() || (last_log_term == self.last_term()
            && last_log_index >= self.last_index())
    }

    /// `new` is `old` after starting an election: candidate in the next term,
    /// voting for itself with its own vote counted, no known leader, election
    /// timer restarted; log, leader bookkeeping and heartbeat timer untouched.
    pub open spec fn started_election(old: &RaftNode, new: &RaftNode) -> bool {
        &&& new.role == Role::Candidate
        &&& new.current_term == old.current_term + 1
        &&& new.voted_for == Some(old.id)
        &&& new.leader_id is None
        &&& new.votes_received@ == set![old.id]
        &&& new.election_timer_restarted()
        &&& new.leader_next_index@ == old.leader_next_index@
        &&& new.leader_match_index@ == old.leader_match_index@
        &&& new.heartbeat_elapsed == old.heartbeat_elapsed
        &&& new.same_log_state(old)
        &&& new.same_config(old)
    }

    /// `new` is `old` after taking leadership: leader of its term, every peer's
    /// next index just past the log, every peer's match index at the snapshot
    /// point and its own at the end of the log, heartbeat timer restarted.
    pub open spec fn became_leader(old: &RaftNode, new: &RaftNode) -> bool {
        &&& new.role == Role::Leader
        &&& new.leader_id == Some(old.id)
        &&& new.heartbeat_elapsed == 0
        &&& new.leader_next_index@ == Map::new(
            |k: NodeId| old.peers@.contains(k),
            |k: NodeId| (old.last_index() + 1) as usize,
        )
        &&& new.leader_match_index@ == Map::new(
            |k: NodeId| k == old.id || old.peers@.contains(k),
            |k: NodeId|
                if old.peers@.contains(k) {
                    old.snapshot_last_included_index
                } else {
                    old.last_index() as usize
                },
        )
        &&& new.current_term == old.current_term
        &&& new.voted_for == old.voted_for
        &&& new.election_elapsed == old.election_elapsed
        &&& new.current_election_timeout == old.current_election_timeout
        &&& new.same_log_state(old)
        &&& new.same_config(old)
    }


    /// An append request is accepted: its previous index is neither inside the
    /// snapshot nor past the end of the log, and (unless it is 0) the entry
    /// there has the previous term the leader names.
    pub open spec fn accepts_append(&self, req: AppendEntries) -> bool {
        &&& req.prev_log_index >= self.snapshot_last_included_index
        &&& req.prev_log_index <= self.last_index()
        &&& (req.prev_log_index == 0 || self.term_at_index(req.prev_log_index as int) == Some(
            req.prev_log_term,
        ))
    }


    /// `index` can become the new commit index once `matches` records the
    /// peers' match positions: it lies past the commit index and within the
    /// log, its entry is from the current term, and a quorum has replicated it.
    pub open spec fn commit_candidate(&self, matches: Map<NodeId, usize>, index: int) -> bool {
        &&& self.commit_index < index <= self.last_index()
        &&& self.term_at_index(index) == Some(self.current_term)
        &&& replicated_count(matches, index) >= self.quorum()
    }

    /// `commit` is the commit index reached from this node's with the match
    /// positions `matches`: the largest candidate when there is one, else the
    /// commit index as it was.
    pub open spec fn advanced_commit(&self, matches: Map<NodeId, usize>, commit: int) -> bool {
        if exists|c: int| self.commit_candidate(matches, c) {
            &&& self.commit_candidate(matches, commit)
            &&& forall|c: int| self.commit_candidate(matches, c) ==> c <= commit
        } else {
            commit == self.commit_index
        }
    }


    /// The vote this node holds for the request's term before answering it:
    /// none when the request opens a newer term.
    pub open spec fn prior_vote(&self, req: RequestVote) -> Option<NodeId> {
        if req.term > self.current_term {
            None
        } else {
            self.voted_for
        }
    }

    /// This node grants `req` its vote: the request is not from an older term,
    /// the node has not voted for anyone else in that term, and the
    /// candidate's log is at least as up to date as its own.
    pub open spec fn grants_vote(&self, req: RequestVote) -> bool {
        &&& req.term >= self.current_term
        &&& (self.prior_vote(req) is None || self.prior_vote(req) == Some(req.candidate_id))
        &&& self.log_up_to_date(req.last_log_index as int, req.last_log_term)
    }

    /// First index that may still need applying: past the applied index and
    /// never inside the snapshot.
    pub open spec fn apply_from(&self) -> int {
        if self.last_applied < self.snapshot_last_included_index {
            self.snapshot_last_included_index as int
        } else {
            self.last_applied as int
        }
    }

    /// Last index that may be applied: the commit index, never past the log.
    pub open spec fn apply_to(&self) -> int {
        if (self.commit_index as int) < self.last_index() {
            self.commit_index as int
        } else {
            self.last_index()
        }
    }

    /// The committed entries not applied yet, in log order.
    pub open spec fn unapplied_entries(&self) -> Seq<LogEntry> {
        if self.apply_from() >= self.apply_to() {
            Seq::empty()
        } else {
            self.log@.subrange(
                self.apply_from() - self.snapshot_last_included_index,
                self.apply_to() - self.snapshot_last_included_index,
            )
        }
    }

    /// The applied index once the unapplied entries have been handed out.
    pub open spec fn applied_after_take(&self) -> int {
        if self.apply_from() >= self.apply_to() {
            self.apply_from()
        } else {
            self.apply_to()
        }
    }

    /// `new` and `resp` are the node and answer after `old` handles the vote request `req`.
    pub open spec fn request_vote_step(old: &RaftNode, new: &RaftNode, req: RequestVote, resp: RequestVoteResponse) -> bool {
        &&& (req.term < old.current_term ==> {
            &&& *new == *old
            &&& resp == RequestVoteResponse {
                term: old.current_term,
                vote_granted: false,
                from: old.id,
            }
        })
        &&& (req.term >= old.current_term ==> {
            let stepped = req.term > old.current_term;
            let prior_vote = old.prior_vote(req);
            let grant = old.grants_vote(req);
            &&& resp == RequestVoteResponse {
                term: req.term,
                vote_granted: grant,
                from: old.id,
            }
            &&& new.current_term == req.term
            &&& new.voted_for == (if grant {
                Some(req.candidate_id)
            } else {
                prior_vote
            })
            &&& stepped ==> {
                &&& new.role == Role::Follower
                &&& new.leader_id is None
                &&& new.votes_received@ == Set::<NodeId>::empty()
                &&& new.leader_next_index@ == Map::<NodeId, usize>::empty()
                &&& new.leader_match_index@ == Map::<NodeId, usize>::empty()
                &&& new.heartbeat_elapsed == 0
            }
            &&& !stepped ==> {
                &&& new.role == old.role
                &&& new.leader_id == old.leader_id
                &&& new.votes_received@ == old.votes_received@
                &&& new.leader_next_index@ == old.leader_next_index@
                &&& new.leader_match_index@ == old.leader_match_index@
                &&& new.heartbeat_elapsed == old.heartbeat_elapsed
            }
            &&& (grant || stepped) ==> new.election_timer_restarted()
            &&& !(grant || stepped) ==> {
                &&& new.election_elapsed == old.election_elapsed
                &&& new.current_election_timeout == old.current_election_timeout
            }
            &&& new.same_log_state(old)
            &&& new.same_config(old)
        })
    }

    /// `new` and `elected` follow from `old` counting the vote response `resp`.
    pub open spec fn vote_response_step(old: &RaftNode, new: &RaftNode, resp: RequestVoteResponse, elected: bool) -> bool {
        &&& (resp.term > old.current_term ==> !elected && Self::stepped_down(
            old,
            new,
            resp.term,
            None,
        ))
        &&& (resp.term <= old.current_term && (old.role != Role::Candidate || resp.term
            != old.current_term) ==> !elected && *new == *old)
        &&& (resp.term == old.current_term && old.role == Role::Candidate ==> {
            let votes = if resp.vote_granted {
                old.votes_received@.insert(resp.from)
            } else {
                old.votes_received@
            };
            &&& new.votes_received@ == votes
            &&& elected == (votes.len() >= old.quorum())
            &&& elected ==> Self::became_leader(old, new)
            &&& !elected ==> {
                &&& new.role == Role::Candidate
                &&& new.leader_id == old.leader_id
                &&& new.leader_next_index@ == old.leader_next_index@
                &&& new.leader_match_index@ == old.leader_match_index@
                &&& new.heartbeat_elapsed == old.heartbeat_elapsed
                &&& new.current_term == old.current_term
                &&& new.voted_for == old.voted_for
                &&& new.election_elapsed == old.election_elapsed
                &&& new.current_election_timeout == old.current_election_timeout
                &&& new.same_log_state(old)
                &&& new.same_config(old)
            }
        })
    }

    /// `new` and `resp` are the node and answer after `old` handles the append request `req`.
    pub open spec fn append_entries_step(old: &RaftNode, new: &RaftNode, req: AppendEntries, resp: AppendEntriesResponse) -> bool {
        &&& (req.term < old.current_term ==> {
            &&& *new == *old
            &&& resp == AppendEntriesResponse {
                term: old.current_term,
                success: false,
                from: old.id,
                match_index: old.last_index() as usize,
            }
        })
        &&& (req.term >= old.current_term ==> {
            let stepped = req.term > old.current_term || old.role != Role::Follower;
            let s = old.snapshot_last_included_index;
            let p = req.prev_log_index;
            &&& new.current_term == req.term
            &&& new.role == Role::Follower
            &&& new.leader_id == Some(req.leader_id)
            &&& new.election_elapsed == 0
            &&& stepped ==> {
                &&& new.voted_for is None
                &&& new.votes_received@ == Set::<NodeId>::empty()
                &&& new.leader_next_index@ == Map::<NodeId, usize>::empty()
                &&& new.leader_match_index@ == Map::<NodeId, usize>::empty()
                &&& new.heartbeat_elapsed == 0
                &&& new.election_timer_restarted()
            }
            &&& !stepped ==> {
                &&& new.voted_for == old.voted_for
                &&& new.votes_received@ == old.votes_received@
                &&& new.leader_next_index@ == old.leader_next_index@
                &&& new.leader_match_index@ == old.leader_match_index@
                &&& new.heartbeat_elapsed == old.heartbeat_elapsed
                &&& new.current_election_timeout == old.current_election_timeout
            }
            &&& new.same_config(old)
            &&& new.snapshot_last_included_index == s
            &&& new.snapshot_last_included_term == old.snapshot_last_included_term
            &&& new.last_applied == old.last_applied
            &&& resp.term == req.term
            &&& resp.from == old.id
            &&& resp.success == old.accepts_append(req)
            &&& !old.accepts_append(req) ==> {
                &&& new.log@ == old.log@
                &&& new.commit_index == old.commit_index
                &&& resp.match_index == (if p < s {
                    s as int
                } else if p > old.last_index() {
                    old.last_index()
                } else {
                    p - 1
                })
            }
            &&& old.accepts_append(req) ==> {
                &&& new.log@ == merge_entries(old.log@, p - s, req.entries@)
                &&& new.commit_index == (if req.leader_commit > old.commit_index {
                    clamp_spec(
                        if req.leader_commit < new.last_index() {
                            req.leader_commit as int
                        } else {
                            new.last_index()
                        },
                        s as int,
                        new.last_index(),
                    )
                } else {
                    old.commit_index as int
                })
                &&& resp.match_index == new.last_index()
            }
        })
    }

    /// `new` and the requests `out` follow from leader `old` handling the append response `resp`.
    pub open spec fn append_response_step(old: &RaftNode, new: &RaftNode, resp: AppendEntriesResponse, out: Seq<OutboundMessage>) -> bool {
        &&& (resp.term > old.current_term ==> out.len() == 0 && Self::stepped_down(
            old,
            new,
            resp.term,
            None,
        ))
        &&& (resp.term <= old.current_term && (old.role != Role::Leader || resp.term
            != old.current_term) ==> out.len() == 0 && *new == *old)
        &&& (resp.term == old.current_term && old.role == Role::Leader ==> {
            &&& new.log@ == old.log@
            &&& new.snapshot_last_included_index == old.snapshot_last_included_index
            &&& new.snapshot_last_included_term == old.snapshot_last_included_term
            &&& new.last_applied == old.last_applied
            &&& new.current_term == old.current_term
            &&& new.voted_for == old.voted_for
            &&& new.role == old.role
            &&& new.leader_id == old.leader_id
            &&& new.votes_received@ == old.votes_received@
            &&& new.same_timers(old)
            &&& new.same_config(old)
            &&& resp.success ==> {
                &&& new.leader_match_index@ == old.leader_match_index@.insert(
                    resp.from,
                    resp.match_index,
                )
                &&& new.leader_next_index@ == old.leader_next_index@.insert(
                    resp.from,
                    (resp.match_index + 1) as usize,
                )
                &&& old.advanced_commit(
                    new.leader_match_index@,
                    new.commit_index as int,
                )
                &&& out.len() == 0
            }
            &&& !resp.success ==> {
                let current_next = if old.leader_next_index@.contains_key(resp.from) {
                    old.leader_next_index@[resp.from] as int
                } else {
                    old.last_index() + 1
                };
                let new_next = if current_next <= 2 {
                    1
                } else {
                    current_next - 1
                };
                &&& new.leader_next_index@ == old.leader_next_index@.insert(
                    resp.from,
                    new_next as usize,
                )
                &&& new.leader_match_index@ == old.leader_match_index@
                &&& new.commit_index == old.commit_index
                &&& if new.can_replicate_to(resp.from) {
                    &&& out.len() == 1
                    &&& out[0] matches OutboundMessage::AppendEntries { to, message }
                    &&& to == resp.from
                    &&& new.is_append_entries_for(resp.from, message)
                } else {
                    out.len() == 0
                }
            }
        })
    }

    /// `new` and the messages `out` follow from `old` after one tick.
    pub open spec fn tick_step(old: &RaftNode, new: &RaftNode, out: Seq<OutboundMessage>) -> bool {
        &&& (old.role == Role::Leader ==> {
            &&& new.same_log_state(old)
            &&& new.same_election_state(old)
            &&& new.same_config(old)
            &&& new.election_elapsed == old.election_elapsed
            &&& new.current_election_timeout == old.current_election_timeout
            &&& if old.heartbeat_elapsed + 1 >= old.heartbeat_interval {
                new.heartbeat_elapsed == 0 && new.are_heartbeats(out)
            } else {
                new.heartbeat_elapsed == old.heartbeat_elapsed + 1 && out.len() == 0
            }
        })
        &&& (old.role != Role::Leader ==> if old.election_elapsed + 1
            >= old.current_election_timeout {
            Self::started_election(old, new) && new.are_vote_requests(out)
        } else {
            &&& new.election_elapsed == old.election_elapsed + 1
            &&& new.current_election_timeout == old.current_election_timeout
            &&& new.heartbeat_elapsed == old.heartbeat_elapsed
            &&& new.same_log_state(old)
            &&& new.same_election_state(old)
            &&& new.same_config(old)
            &&& out.len() == 0
        })
    }

    /// `new` and `r` follow from `old` being offered the command `command`.
    pub open spec fn propose_step(old: &RaftNode, new: &RaftNode, command: Seq<char>, r: Option<Vec<OutboundMessage>>) -> bool {
        &&& (old.role != Role::Leader ==> r is None && *new == *old)
        &&& (old.role == Role::Leader ==> {
            &&& r matches Some(msgs)
            &&& new.are_heartbeats(msgs@)
            &&& new.log@.len() == old.log@.len() + 1
            &&& new.log@.drop_last() == old.log@
            &&& new.log@.last().term == old.current_term
            &&& new.log@.last().command@ == command
            &&& new.leader_match_index@ == old.leader_match_index@.insert(
                old.id,
                new.last_index() as usize,
            )
            &&& new.commit_index == (if old.quorum() == 1 {
                new.last_index()
            } else {
                old.commit_index as int
            })
            &&& new.snapshot_last_included_index == old.snapshot_last_included_index
            &&& new.snapshot_last_included_term == old.snapshot_last_included_term
            &&& new.last_applied == old.last_applied
            &&& new.current_term == old.current_term
            &&& new.voted_for == old.voted_for
            &&& new.role == old.role
            &&& new.leader_id == old.leader_id
            &&& new.leader_next_index@ == old.leader_next_index@
            &&& new.votes_received@ == old.votes_received@
            &&& new.same_timers(old)
            &&& new.same_config(old)
        })
    }


    /// `new` is `old` restored from stored state: the given term, vote, log
    /// and snapshot point; a follower with no known leader, no votes, no
    /// leader bookkeeping and both timers at zero; the commit index clamped
    /// into the restored log, and everything up to the snapshot point applied.
    pub open spec fn restored(
        old: &RaftNode,
        new: &RaftNode,
        current_term: Term,
        voted_for: Option<NodeId>,
        log: Seq<LogEntry>,
        commit_index: usize,
        last_included_index: usize,
        last_included_term: Term,
    ) -> bool {
        &&& new.current_term == current_term
        &&& new.voted_for == voted_for
        &&& new.log@ == log
        &&& new.snapshot_last_included_index == last_included_index
        &&& new.snapshot_last_included_term == last_included_term
        &&& new.commit_index == clamp_spec(
            commit_index as int,
            last_included_index as int,
            last_included_index + log.len(),
        )
        &&& new.last_applied == last_included_index
        &&& new.role == Role::Follower
        &&& new.leader_id is None
        &&& new.votes_received@ == Set::<NodeId>::empty()
        &&& new.leader_next_index@ == Map::<NodeId, usize>::empty()
        &&& new.leader_match_index@ == Map::<NodeId, usize>::empty()
        &&& new.election_elapsed == 0
        &&& new.heartbeat_elapsed == 0
        &&& new.current_election_timeout == old.current_election_timeout
        &&& new.same_config(old)
    }

    // ---------------------------------------------------------------
    // Small helpers
    // ---------------------------------------------------------------
    fn sample_election_timeout(min_ticks: u64, max_ticks: u64) -> (r: u64)
        requires
            min_ticks <= max_ticks,
        ensures
            min_ticks <= r <= max_ticks,
    {
        if min_ticks == max_ticks {
            return min_ticks;
        }
        random_ticks_in(min_ticks, max_ticks)
    }

    fn last_log_index(&self) -> (r: usize)
        requires
            self.last_index() <= usize::MAX,
        ensures
            r == self.last_index(),
    {
        self.snapshot_last_included_index + self.log.len()
    }

    fn offset_for_index(&self, index: usize) -> (r: Option<usize>)
        ensures
            match r {
                Some(offset) => self.snapshot_last_included_index < index <= self.last_index()
                    && offset == index - self.snapshot_last_included_index - 1,
                None => !(self.snapshot_last_included_index < index <= self.last_index()),
            },
    {
        if index <= self.snapshot_last_included_index {
            return None;
        }
        let offset = index - self.snapshot_last_included_index - 1;
        if offset < self.log.len() {
            Some(offset)
        } else {
            None
        }
    }

    fn term_at(&self, index: usize) -> (r: Option<Term>)
        ensures
            r == self.term_at_index(index as int),
    {
        if index == self.snapshot_last_included_index {
            return Some(self.snapshot_last_included_term);
        }
        match self.offset_for_index(index) {
            Some(offset) => Some(self.log[offset].term),
            None => None,
        }
    }

    /// Whether `req` would be accepted (`accepts_append`).
    pub(crate) fn accepts_request(&self, req: &AppendEntries) -> (r: bool)
        requires
            self.wf(),
        ensures
            r == self.accepts_append(*req),
    {
        if req.prev_log_index < self.snapshot_last_included_index {
            return false;
        }
        if req.prev_log_index > self.last_log_index() {
            return false;
        }
        if req.prev_log_index == 0 {
            return true;
        }
        match self.term_at(req.prev_log_index) {
            Some(t) => t == req.prev_log_term,
            None => false,
        }
    }

    fn last_log_info(&self) -> (r: (usize, Term))
        requires
            self.last_index() <= usize::MAX,
        ensures
            r.0 == self.last_index(),
            r.1 == self.last_term(),
    {
        let index = self.last_log_index();
        let term = match self.term_at(index) {
            Some(t) => t,
            None => 0,
        };
        (index, term)
    }

    // ---------------------------------------------------------------
    // Construction and simple queries
    // ---------------------------------------------------------------
    /// A follower in term 0 with an empty log, no vote and an election timeout
    /// drawn from `election_timeout_min..=election_timeout_max`.
    pub fn new(
        id: NodeId,
        peers: Vec<NodeId>,
        election_timeout_min: u64,
        election_timeout_max: u64,
        heartbeat_interval: u64,
    ) -> (r: Self)
        requires
            election_timeout_min > 0,
            election_timeout_max >= election_timeout_min,
        ensures
            r.wf(),
            r.id == id,
            r.peers@ == peers@,
            r.current_term == 0,
            r.voted_for is None,
            r.log@.len() == 0,
            r.snapshot_last_included_index == 0,
            r.snapshot_last_included_term == 0,
            r.commit_index == 0,
            r.last_applied == 0,
            r.role == Role::Follower,
            r.leader_id is None,
            r.leader_next_index@ == Map::<NodeId, usize>::empty(),
            r.leader_match_index@ == Map::<NodeId, usize>::empty(),
            r.votes_received@ == Set::<NodeId>::empty(),
            r.election_elapsed == 0,
            r.election_timeout_min == election_timeout_min,
            r.election_timeout_max == election_timeout_max,
            election_timeout_min <= r.current_election_timeout <= election_timeout_max,
            r.heartbeat_elapsed == 0,
            r.heartbeat_interval == heartbeat_interval,
    {
        let current_election_timeout = Self::sample_election_timeout(
            election_timeout_min,
            election_timeout_max,
        );
        RaftNode {
            id,
            peers,
            current_term: 0,
            voted_for: None,
            log: Vec::new(),
            snapshot_last_included_index: 0,
            snapshot_last_included_term: 0,
            commit_index: 0,
            last_applied: 0,
            role: Role::Follower,
            leader_id: None,
            leader_next_index: HashMap::new(),
            leader_match_index: HashMap::new(),
            votes_received: HashSet::new(),
            election_elapsed: 0,
            election_timeout_min,
            election_timeout_max,
            current_election_timeout,
            heartbeat_elapsed: 0,
            heartbeat_interval,
        }
    }

    /// The quorum size: more than half of the cluster, this node included.
    pub fn majority(&self) -> (r: usize)
        ensures
            r == self.quorum(),
    {
        let n = self.peers.len();
        n / 2 + n % 2 + 1
    }

    /// Sets the commit index to `new_commit_index` clamped into the range from
    /// the snapshot point to the last index.
    pub fn commit_to(&mut self, new_commit_index: usize)
        requires
            old(self).last_index() <= usize::MAX,
        ensures
            final(self).commit_index == clamp_spec(
                new_commit_index as int,
                old(self).snapshot_last_included_index as int,
                old(self).last_index(),
            ),
            final(self).log@ == old(self).log@,
            final(self).snapshot_last_included_index == old(self).snapshot_last_included_index,
            final(self).snapshot_last_included_term == old(self).snapshot_last_included_term,
            final(self).last_applied == old(self).last_applied,
            final(self).same_election_state(old(self)),
            final(self).same_timers(old(self)),
            final(self).same_config(old(self)),
    {
        let min_commit = self.snapshot_last_included_index;
        let max_commit = self.last_log_index();
        self.commit_index = if new_commit_index < min_commit {
            min_commit
        } else if new_commit_index > max_commit {
            max_commit
        } else {
            new_commit_index
        };
    }

    // ---------------------------------------------------------------
    // Role changes
    // ---------------------------------------------------------------
    fn become_follower(&mut self, term: Term, leader: Option<NodeId>)
        requires
            old(self).wf(),
        ensures
            final(self).wf(),
            Self::stepped_down(old(self), final(self), term, leader),
    {
        self.role = Role::Follower;
        self.current_term = term;
        self.voted_for = None;
        self.votes_received.clear();
        self.leader_next_index.clear();
        self.leader_match_index.clear();
        self.election_elapsed = 0;
        self.current_election_timeout = Self::sample_election_timeout(
            self.election_timeout_min,
            self.election_timeout_max,
        );
        self.heartbeat_elapsed = 0;
        self.leader_id = leader;
    }

    fn become_leader(&mut self)
        requires
            old(self).wf(),
        ensures
            final(self).wf(),
            Self::became_leader(old(self), final(self)),
            final(self).votes_received@ == old(self).votes_received@,
    {
        let ghost pre = *self;
        self.role = Role::Leader;
        self.leader_id = Some(self.id);
        self.heartbeat_elapsed = 0;
        self.leader_next_index.clear();
        self.leader_match_index.clear();
        let last = self.last_log_index();
        self.leader_match_index.insert(self.id, last);
        let next = last + 1;
        let mut i: usize = 0;
        while i < self.peers.len()
            invariant
                0 <= i <= self.peers@.len(),
                self.wf(),
                self.peers@ == pre.peers@,
                self.id == pre.id,
                last == pre.last_index(),
                next == last + 1,
                self.snapshot_last_included_index == pre.snapshot_last_included_index,
                self.leader_next_index@ == Map::new(
                    |k: NodeId| pre.peers@.take(i as int).contains(k),
                    |k: NodeId| next,
                ),
                self.leader_match_index@ == Map::new(
                    |k: NodeId| k == pre.id || pre.peers@.take(i as int).contains(k),
                    |k: NodeId|
                        if pre.peers@.take(i as int).contains(k) {
                            pre.snapshot_last_included_index
                        } else {
                            last
                        },
                ),
                self.role == Role::Leader,
                self.leader_id == Some(pre.id),
                self.heartbeat_elapsed == 0,
                self.current_term == pre.current_term,
                self.voted_for == pre.voted_for,
                self.votes_received@ == pre.votes_received@,
                self.election_elapsed == pre.election_elapsed,
                self.current_election_timeout == pre.current_election_timeout,
                self.same_log_state(&pre),
                self.same_config(&pre),
            decreases self.peers@.len() - i,
        {
            let peer = self.peers[i];
            self.leader_next_index.insert(peer, next);
            self.leader_match_index.insert(peer, self.snapshot_last_included_index);
            proof {
                assert(pre.peers@.take(i + 1) == pre.peers@.take(i as int).push(peer));
                assert(self.leader_next_index@ =~= Map::new(
                    |k: NodeId| pre.peers@.take(i + 1).contains(k),
                    |k: NodeId| next,
                ));
                assert(self.leader_match_index@ =~= Map::new(
                    |k: NodeId| k == pre.id || pre.peers@.take(i + 1).contains(k),
                    |k: NodeId|
                        if pre.peers@.take(i + 1).contains(k) {
                            pre.snapshot_last_included_index
                        } else {
                            last
                        },
                ));
            }
            i = i + 1;
        }
        proof {
            assert(pre.peers@.take(pre.peers@.len() as int) == pre.peers@);
        }
    }

    // ---------------------------------------------------------------
    // Elections
    // ---------------------------------------------------------------
    /// Starts an election: becomes candidate in the next term, votes for
    /// itself, restarts the election timer and asks every peer for its vote.
    pub fn start_election(&mut self) -> (r: Vec<OutboundMessage>)
        requires
            old(self).settings_ok(),
            old(self).current_term < u64::MAX,
        ensures
            final(self).wf(),
            Self::started_election(old(self), final(self)),
            final(self).are_vote_requests(r@),
    {
        let ghost pre = *self;
        self.role = Role::Candidate;
        self.current_term = self.current_term + 1;
        self.voted_for = Some(self.id);
        self.leader_id = None;
        self.election_elapsed = 0;
        self.current_election_timeout = Self::sample_election_timeout(
            self.election_timeout_min,
            self.election_timeout_max,
        );
        self.votes_received.clear();
        self.votes_received.insert(self.id);
        proof {
            assert(self.votes_received@ =~= set![pre.id]);
        }
        let (last_log_index, last_log_term) = self.last_log_info();
        let mut out: Vec<OutboundMessage> = Vec::new();
        let mut i: usize = 0;
        while i < self.peers.len()
            invariant
                0 <= i <= self.peers@.len(),
                last_log_index == self.last_index(),
                last_log_term == self.last_term(),
                out@.len() == i,
                forall|j: int|
                    0 <= j < i ==> #[trigger] out@[j] == (OutboundMessage::RequestVote {
                        to: self.peers@[j],
                        message: self.vote_request(),
                    }),
            decreases self.peers@.len() - i,
        {
            let peer = self.peers[i];
            out.push(
                OutboundMessage::RequestVote {
                    to: peer,
                    message: RequestVote {
                        term: self.current_term,
                        candidate_id: self.id,
                        last_log_index,
                        last_log_term,
                    },
                },
            );
            i = i + 1;
        }
        out
    }

    /// Answers a vote request. A request from an older term is refused with
    /// nothing changed. A newer term makes this node a follower of that term
    /// first. The vote is granted when this node has not voted in the term,
    /// or voted for the same candidate, and the candidate's log is at least
    /// as up to date; granting restarts the election timer.
    pub fn handle_request_vote(&mut self, req: RequestVote) -> (resp: RequestVoteResponse)
        requires
            old(self).wf(),
        ensures
            final(self).wf(),
            Self::request_vote_step(old(self), final(self), req, resp),

    {
        if req.term < self.current_term {
            return RequestVoteResponse {
                term: self.current_term,
                vote_granted: false,
                from: self.id,
            };
        }
        if req.term > self.current_term {
            self.become_follower(req.term, None);
        }
        let (my_last_index, my_last_term) = self.last_log_info();
        let candidate_log_is_up_to_date = req.last_log_term > my_last_term || (req.last_log_term
            == my_last_term && req.last_log_index >= my_last_index);
        let can_vote = match self.voted_for {
            None => true,
            Some(v) => v == req.candidate_id,
        };
        let grant = can_vote && candidate_log_is_up_to_date;
        if grant {
            self.voted_for = Some(req.candidate_id);
            self.election_elapsed = 0;
            self.current_election_timeout = Self::sample_election_timeout(
                self.election_timeout_min,
                self.election_timeout_max,
            );
        }
        RequestVoteResponse { term: self.current_term, vote_granted: grant, from: self.id }
    }

    /// Counts a vote. A newer term in the response makes this node a follower
    /// of that term. Otherwise a candidate in the response's term adds the
    /// sender's granted vote and, once it holds a quorum of votes, becomes
    /// leader; the result says whether it just became leader.
    pub fn handle_request_vote_response(&mut self, resp: RequestVoteResponse) -> (elected: bool)
        requires
            old(self).wf(),
        ensures
            final(self).wf(),
            Self::vote_response_step(old(self), final(self), resp, elected),

    {
        if resp.term > self.current_term {
            self.become_follower(resp.term, None);
            return false;
        }
        if self.role != Role::Candidate || resp.term != self.current_term {
            return false;
        }
        if resp.vote_granted {
            self.votes_received.insert(resp.from);
        }
        if self.votes_received.len() >= self.majority() {
            self.become_leader();
            return true;
        }
        false
    }

    // ---------------------------------------------------------------
    // Replication requests
    // ---------------------------------------------------------------
    fn build_append_entries_for_peer(&self, peer: NodeId) -> (r: Option<AppendEntries>)
        requires
            self.wf(),
        ensures
            match r {
                Some(m) => self.can_replicate_to(peer) && self.is_append_entries_for(peer, m),
                None => !self.can_replicate_to(peer),
            },
    {
        let next_idx = match self.leader_next_index.get(&peer) {
            Some(v) => *v,
            None => 1,
        };
        if next_idx <= self.snapshot_last_included_index {
            return None;
        }
        let prev_log_index = next_idx - 1;
        let prev_log_term = match self.term_at(prev_log_index) {
            Some(t) => t,
            None => {
                return None;
            },
        };
        let entries = if next_idx == 0 || next_idx > self.last_log_index() {
            Vec::new()
        } else {
            match self.offset_for_index(next_idx) {
                Some(offset) => copy_entries(&self.log, offset, self.log.len()),
                None => {
                    return None;
                },
            }
        };
        Some(
            AppendEntries {
                term: self.current_term,
                leader_id: self.id,
                prev_log_index,
                prev_log_term,
                entries,
                leader_commit: self.commit_index,
            },
        )
    }

    fn build_heartbeat_messages(&self) -> (r: Vec<OutboundMessage>)
        requires
            self.wf(),
        ensures
            self.are_heartbeats(r@),
    {
        let mut out: Vec<OutboundMessage> = Vec::new();
        let mut i: usize = 0;
        while i < self.peers.len()
            invariant
                self.wf(),
                0 <= i <= self.peers@.len(),
                out@.len() == self.peers@.take(i as int).filter(self.replicable()).len(),
                forall|j: int|
                    0 <= j < out@.len() ==> match #[trigger] out@[j] {
                        OutboundMessage::AppendEntries { to, message } => to == self.peers@.take(
                            i as int,
                        ).filter(self.replicable())[j] && self.is_append_entries_for(to, message),
                        _ => false,
                    },
            decreases self.peers@.len() - i,
        {
            let peer = self.peers[i];
            proof {
                assert(self.peers@.take(i + 1) == self.peers@.take(i as int).push(peer));
                self.peers@.take(i as int).lemma_filter_push(peer, self.replicable());
            }
            match self.build_append_entries_for_peer(peer) {
                Some(message) => {
                    out.push(OutboundMessage::AppendEntries { to: peer, message });
                },
                None => {},
            }
            i = i + 1;
        }
        proof {
            assert(self.peers@.take(self.peers@.len() as int) == self.peers@);
        }
        out
    }

    /// Advances the clock by one tick. A leader counts towards its heartbeat
    /// interval and, when it is reached, restarts the count and sends every
    /// peer it can an append request. Any other node counts towards its
    /// election timeout and, when it is reached, starts an election.
    pub fn tick(&mut self) -> (r: Vec<OutboundMessage>)
        requires
            old(self).wf(),
            old(self).role != Role::Leader && old(self).election_elapsed + 1
                >= old(self).current_election_timeout ==> old(self).current_term < u64::MAX,
        ensures
            final(self).wf(),
            Self::tick_step(old(self), final(self), r@),

    {
        match self.role {
            Role::Leader => {
                self.heartbeat_elapsed = self.heartbeat_elapsed + 1;
                if self.heartbeat_elapsed >= self.heartbeat_interval {
                    self.heartbeat_elapsed = 0;
                    self.build_heartbeat_messages()
                } else {
                    Vec::new()
                }
            },
            Role::Follower | Role::Candidate => {
                self.election_elapsed = self.election_elapsed + 1;
                if self.election_elapsed >= self.current_election_timeout {
                    self.start_election()
                } else {
                    Vec::new()
                }
            },
        }
    }

    // ---------------------------------------------------------------
    // Log replication on the follower side
    // ---------------------------------------------------------------
    fn append_new_entries(&mut self, prev_log_index: usize, entries: &Vec<LogEntry>)
        requires
            old(self).snapshot_last_included_index <= prev_log_index <= old(self).last_index(),
            prev_log_index + entries@.len() < usize::MAX,
        ensures
            final(self).log@ == merge_entries(
                old(self).log@,
                prev_log_index - old(self).snapshot_last_included_index,
                entries@,
            ),
            final(self).last_index() <= old(self).last_index() || final(self).last_index()
                <= prev_log_index + entries@.len(),
            final(self).snapshot_last_included_index == old(self).snapshot_last_included_index,
            final(self).snapshot_last_included_term == old(self).snapshot_last_included_term,
            final(self).commit_index == old(self).commit_index,
            final(self).last_applied == old(self).last_applied,
            final(self).same_election_state(old(self)),
            final(self).same_timers(old(self)),
            final(self).same_config(old(self)),
    {
        let ghost pre = *self;
        let ghost log0 = self.log@;
        let ghost base: int = prev_log_index - self.snapshot_last_included_index;
        let ghost mut first: Option<int> = None;
        let mut k: usize = 0;
        while k < entries.len()
            invariant
                0 <= k <= entries@.len(),
                0 <= base <= log0.len(),
                base == prev_log_index - self.snapshot_last_included_index,
                prev_log_index + entries@.len() < usize::MAX,
                log0 == pre.log@,
                pre.last_index() == self.snapshot_last_included_index + log0.len(),
                self.snapshot_last_included_index == pre.snapshot_last_included_index,
                self.snapshot_last_included_term == pre.snapshot_last_included_term,
                self.commit_index == pre.commit_index,
                self.last_applied == pre.last_applied,
                self.same_election_state(&pre),
                self.same_timers(&pre),
                self.same_config(&pre),
                first is None ==> {
                    &&& forall|j: int| 0 <= j < k ==> !conflicts_at(log0, base, entries@, j)
                    &&& self.log@ == (if base + k > log0.len() {
                        log0 + entries@.subrange(log0.len() - base, k as int)
                    } else {
                        log0
                    })
                },
                first matches Some(j0) ==> {
                    &&& 0 <= j0 < k
                    &&& is_first_conflict(log0, base, entries@, j0)
                    &&& self.log@ == log0.take(base + j0) + entries@.subrange(j0, k as int)
                },
            decreases entries@.len() - k,
        {
            let insert_at = prev_log_index + 1 + k;
            let entry = copy_entry(&entries[k]);
            match self.offset_for_index(insert_at) {
                Some(offset) => {
                    proof {
                        assert(first is None);
                        assert(offset == base + k);
                        assert(self.log@ == log0);
                    }
                    if self.log[offset].term != entry.term {
                        self.log.truncate(offset);
                        self.log.push(entry);
                        proof {
                            first = Some(k as int);
                            assert(self.log@ =~= log0.take(base + k) + entries@.subrange(
                                k as int,
                                k + 1,
                            ));
                        }
                    }
                },
                None => {
                    self.log.push(entry);
                    proof {
                        if first is None {
                            assert(base + k >= log0.len());
                            if base + k == log0.len() {
                                assert(self.log@ =~= log0 + entries@.subrange(
                                    log0.len() - base,
                                    k + 1,
                                ));
                            } else {
                                assert(self.log@ =~= log0 + entries@.subrange(
                                    log0.len() - base,
                                    k + 1,
                                ));
                            }
                        } else {
                            let j0 = first->0;
                            assert(self.log@ =~= log0.take(base + j0) + entries@.subrange(
                                j0,
                                k + 1,
                            ));
                        }
                    }
                },
            }
            k = k + 1;
        }
        proof {
            if first is None {
                assert(!exists|j: int| conflicts_at(log0, base, entries@, j));
                if base + entries@.len() > log0.len() {
                    assert(entries@.subrange(log0.len() - base, entries@.len() as int)
                        =~= entries@.skip(log0.len() - base));
                }
            } else {
                let j0 = first->0;
                assert(conflicts_at(log0, base, entries@, j0));
                let c = choose|j: int| is_first_conflict(log0, base, entries@, j);
                assert(is_first_conflict(log0, base, entries@, c));
                assert(c == j0) by {
                    if c < j0 {
                        assert(!conflicts_at(log0, base, entries@, c));
                    } else if c > j0 {
                        assert(!conflicts_at(log0, base, entries@, j0));
                    }
                }
                assert(entries@.subrange(j0, entries@.len() as int) =~= entries@.skip(j0));
            }
        }
    }

    /// Answers an append request from a leader. A request from an older term
    /// is refused with nothing changed. Otherwise this node follows the
    /// request's term (stepping down first when the term is newer or it was
    /// not a follower), records the sender as leader and restarts its election
    /// timer. The request is refused, with a hint of where the logs may agree,
    /// when its previous index lies inside the snapshot, past the end of the
    /// log, or on an entry of another term. When accepted, the entries are
    /// merged into the log and the commit index follows the leader's, bounded
    /// by the new last index.
    pub fn handle_append_entries(&mut self, req: AppendEntries) -> (resp: AppendEntriesResponse)
        requires
            old(self).wf(),
            req.term >= old(self).current_term && old(self).accepts_append(req)
                ==> req.prev_log_index + req.entries@.len() < usize::MAX,
        ensures
            final(self).wf(),
            Self::append_entries_step(old(self), final(self), req, resp),

    {
        if req.term < self.current_term {
            return AppendEntriesResponse {
                term: self.current_term,
                success: false,
                from: self.id,
                match_index: self.last_log_index(),
            };
        }
        if req.term > self.current_term || self.role != Role::Follower {
            self.become_follower(req.term, Some(req.leader_id));
        }
        self.leader_id = Some(req.leader_id);
        self.election_elapsed = 0;

        if req.prev_log_index < self.snapshot_last_included_index {
            return AppendEntriesResponse {
                term: self.current_term,
                success: false,
                from: self.id,
                match_index: self.snapshot_last_included_index,
            };
        }
        if req.prev_log_index > self.last_log_index() {
            return AppendEntriesResponse {
                term: self.current_term,
                success: false,
                from: self.id,
                match_index: self.last_log_index(),
            };
        }
        if req.prev_log_index > 0 {
            let matches = match self.term_at(req.prev_log_index) {
                Some(t) => t == req.prev_log_term,
                None => false,
            };
            if !matches {
                return AppendEntriesResponse {
                    term: self.current_term,
                    success: false,
                    from: self.id,
                    match_index: req.prev_log_index - 1,
                };
            }
        }
        self.append_new_entries(req.prev_log_index, &req.entries);
        if req.leader_commit > self.commit_index {
            let last = self.last_log_index();
            let target = if req.leader_commit < last {
                req.leader_commit
            } else {
                last
            };
            self.commit_to(target);
        }
        AppendEntriesResponse {
            term: self.current_term,
            success: true,
            from: self.id,
            match_index: self.last_log_index(),
        }
    }


    /// Whether a commit index is reached depends only on the commit index,
    /// the log, the current term and the number of peers.
    proof fn lemma_advanced_commit_same(a: &RaftNode, b: &RaftNode, m: Map<NodeId, usize>, x: int)
        requires
            a.commit_index == b.commit_index,
            a.log@ == b.log@,
            a.snapshot_last_included_index == b.snapshot_last_included_index,
            a.snapshot_last_included_term == b.snapshot_last_included_term,
            a.current_term == b.current_term,
            a.peers@.len() == b.peers@.len(),
        ensures
            a.advanced_commit(m, x) == b.advanced_commit(m, x),
    {
        assert forall|c: int| a.commit_candidate(m, c) == b.commit_candidate(m, c) by {}
    }

    // ---------------------------------------------------------------
    // Log replication on the leader side
    // ---------------------------------------------------------------
    fn try_advance_commit_index(&mut self)
        requires
            old(self).wf(),
        ensures
            final(self).wf(),
            old(self).role == Role::Leader ==> old(self).advanced_commit(
                old(self).leader_match_index@,
                final(self).commit_index as int,
            ),
            old(self).role != Role::Leader ==> final(self).commit_index == old(self).commit_index,
            final(self).log@ == old(self).log@,
            final(self).snapshot_last_included_index == old(self).snapshot_last_included_index,
            final(self).snapshot_last_included_term == old(self).snapshot_last_included_term,
            final(self).last_applied == old(self).last_applied,
            final(self).same_election_state(old(self)),
            final(self).same_timers(old(self)),
            final(self).same_config(old(self)),
    {
        if self.role != Role::Leader {
            return;
        }
        let ghost pre = *self;
        let mut idx = self.last_log_index();
        while idx > self.commit_index
            invariant
                *self == pre,
                *old(self) == pre,
                pre.role == Role::Leader,
                pre.wf(),
                idx <= pre.last_index(),
                forall|c: int| idx < c <= pre.last_index() ==> !pre.commit_candidate(
                    pre.leader_match_index@,
                    c,
                ),
            decreases idx,
        {
            let at_term = match self.term_at(idx) {
                Some(t) => t == self.current_term,
                None => false,
            };
            if at_term {
                let replicated = count_replicated(&self.leader_match_index, idx);
                if replicated >= self.majority() {
                    self.commit_to(idx);
                    return;
                }
            }
            idx = idx - 1;
        }
        proof {
            assert forall|c: int| !pre.commit_candidate(pre.leader_match_index@, c) by {
                if pre.commit_candidate(pre.leader_match_index@, c) {
                    assert(idx < c);
                }
            }
        }
    }

    /// Handles a follower's answer to an append request. A newer term makes
    /// this node a follower of that term. A leader in the response's term
    /// records a success as the follower's match (and next) position and
    /// commits the newest entry of its term that a quorum holds; after a
    /// refusal it steps the follower's next index back by one (not below 1)
    /// and retries with a new request when it can build one.
    pub fn handle_append_entries_response(&mut self, resp: AppendEntriesResponse) -> (r: Vec<
        OutboundMessage,
    >)
        requires
            old(self).wf(),
            resp.term == old(self).current_term && old(self).role == Role::Leader && resp.success
                ==> resp.match_index < usize::MAX,
        ensures
            final(self).wf(),
            Self::append_response_step(old(self), final(self), resp, r@),

    {
        if resp.term > self.current_term {
            self.become_follower(resp.term, None);
            return Vec::new();
        }
        if self.role != Role::Leader || resp.term != self.current_term {
            return Vec::new();
        }
        if resp.success {
            let ghost pre = *self;
            self.leader_match_index.insert(resp.from, resp.match_index);
            self.leader_next_index.insert(resp.from, resp.match_index + 1);
            let ghost mid = *self;
            self.try_advance_commit_index();
            proof {
                Self::lemma_advanced_commit_same(
                    &mid,
                    &pre,
                    mid.leader_match_index@,
                    self.commit_index as int,
                );
            }
            return Vec::new();
        }
        let current_next = match self.leader_next_index.get(&resp.from) {
            Some(v) => *v,
            None => self.last_log_index() + 1,
        };
        let decremented = if current_next > 0 {
            current_next - 1
        } else {
            0
        };
        let new_next = if decremented > 1 {
            decremented
        } else {
            1
        };
        self.leader_next_index.insert(resp.from, new_next);
        match self.build_append_entries_for_peer(resp.from) {
            Some(message) => {
                let mut out: Vec<OutboundMessage> = Vec::new();
                out.push(OutboundMessage::AppendEntries { to: resp.from, message });
                out
            },
            None => Vec::new(),
        }
    }

    /// Offers a command to the log. Only a leader accepts: it appends the
    /// command as an entry of its current term, records its own match position
    /// at the new end of the log, commits it at once when it alone forms a
    /// quorum, and returns the append requests for its peers.
    pub fn propose_command(&mut self, command: &str) -> (r: Option<Vec<OutboundMessage>>)
        requires
            old(self).wf(),
            old(self).role == Role::Leader ==> old(self).last_index() + 1 < usize::MAX,
        ensures
            final(self).wf(),
            Self::propose_step(old(self), final(self), command@, r),

    {
        if self.role != Role::Leader {
            return None;
        }
        let ghost pre = *self;
        self.log.push(LogEntry { term: self.current_term, command: command.to_owned() });
        proof {
            assert(self.log@.drop_last() =~= pre.log@);
        }
        let last = self.last_log_index();
        self.leader_match_index.insert(self.id, last);
        if self.majority() == 1 {
            self.commit_to(last);
        }
        Some(self.build_heartbeat_messages())
    }

    // ---------------------------------------------------------------
    // Applying and compacting
    // ---------------------------------------------------------------
    /// Hands out, once, the committed entries not yet applied: those after the
    /// last applied index (never before the snapshot point) up to the commit
    /// index (never past the log), and marks them applied.
    pub fn take_unapplied_entries(&mut self) -> (r: Vec<LogEntry>)
        requires
            old(self).wf(),
        ensures
            final(self).wf(),
            r@ == old(self).unapplied_entries(),
            final(self).last_applied == old(self).applied_after_take(),
            final(self).log@ == old(self).log@,
            final(self).snapshot_last_included_index == old(self).snapshot_last_included_index,
            final(self).snapshot_last_included_term == old(self).snapshot_last_included_term,
            final(self).commit_index == old(self).commit_index,
            final(self).same_election_state(old(self)),
            final(self).same_timers(old(self)),
            final(self).same_config(old(self)),
    {
        if self.last_applied < self.snapshot_last_included_index {
            self.last_applied = self.snapshot_last_included_index;
        }
        let last = self.last_log_index();
        let end = if self.commit_index < last {
            self.commit_index
        } else {
            last
        };
        if self.last_applied >= end {
            return Vec::new();
        }
        let start_idx = self.last_applied + 1;
        let start_offset = match self.offset_for_index(start_idx) {
            Some(o) => o,
            None => {
                return Vec::new();
            },
        };
        let end_offset_inclusive = match self.offset_for_index(end) {
            Some(o) => o,
            None => {
                return Vec::new();
            },
        };
        let entries = copy_entries(&self.log, start_offset, end_offset_inclusive + 1);
        self.last_applied = end;
        entries
    }

    /// Folds the committed prefix of the log into the snapshot point. Nothing
    /// happens, and the result is false, when the commit index is not past the
    /// snapshot point or lies past the end of the log. Otherwise the entries up
    /// to the commit index leave the log, the snapshot point moves to the
    /// commit index and its term, and the applied index catches up with it.
    #[verifier::rlimit(30)]
    pub fn compact_committed(&mut self) -> (r: bool)
        requires
            old(self).wf(),
        ensures
            final(self).wf(),
            ({
                let t = old(self).commit_index as int;
                let s = old(self).snapshot_last_included_index as int;
                if t <= s || t > old(self).last_index() {
                    !r && *final(self) == *old(self)
                } else {
                    &&& r
                    &&& final(self).log@ == old(self).log@.skip(t - s)
                    &&& final(self).snapshot_last_included_index == t
                    &&& Some(final(self).snapshot_last_included_term) == old(self).term_at_index(t)
                    &&& final(self).last_applied == (if old(self).last_applied < t {
                        t
                    } else {
                        old(self).last_applied as int
                    })
                    &&& final(self).commit_index == old(self).commit_index
                    &&& final(self).last_index() == old(self).last_index()
                    &&& final(self).same_election_state(old(self))
                    &&& final(self).same_timers(old(self))
                    &&& final(self).same_config(old(self))
                }
            }),
    {
        let target_index = self.commit_index;
        if target_index <= self.snapshot_last_included_index {
            return false;
        }
        let target_term = match self.term_at(target_index) {
            Some(t) => t,
            None => {
                return false;
            },
        };
        let gap = target_index - self.snapshot_last_included_index;
        let remove_count = if gap < self.log.len() {
            gap
        } else {
            self.log.len()
        };
        let ghost pre = *self;
        proof {
            assert(remove_count == gap);
        }
        let rest = self.log.split_off(remove_count);
        self.log = rest;
        proof {
            assert(self.log@ == pre.log@.skip(gap as int));
        }
        self.snapshot_last_included_index = target_index;
        self.snapshot_last_included_term = target_term;
        if self.last_applied < target_index {
            self.last_applied = target_index;
        }
        true
    }

    /// Replaces the persistent state with what storage held: term, vote, log
    /// and snapshot point. The node restarts as a follower with no known
    /// leader, no votes, no leader bookkeeping and both timers at zero; the
    /// commit index is clamped into the restored log and everything up to the
    /// snapshot point counts as applied.
    pub fn restore_from_storage(
        &mut self,
        current_term: Term,
        voted_for: Option<NodeId>,
        log: Vec<LogEntry>,
        commit_index: usize,
        last_included_index: usize,
        last_included_term: Term,
    )
        requires
            old(self).wf(),
            last_included_index + log@.len() < usize::MAX,
        ensures
            final(self).wf(),
            Self::restored(
                old(self),
                final(self),
                current_term,
                voted_for,
                log@,
                commit_index,
                last_included_index,
                last_included_term,
            ),
    {
        self.current_term = current_term;
        self.voted_for = voted_for;
        self.log = log;
        self.snapshot_last_included_index = last_included_index;
        self.snapshot_last_included_term = last_included_term;
        self.role = Role::Follower;
        self.leader_id = None;
        self.votes_received.clear();
        self.leader_next_index.clear();
        self.leader_match_index.clear();
        self.election_elapsed = 0;
        self.heartbeat_elapsed = 0;
        let max_commit = self.last_log_index();
        self.commit_index = if commit_index < last_included_index {
            last_included_index
        } else if commit_index > max_commit {
            max_commit
        } else {
            commit_index
        };
        self.last_applied = last_included_index;
    }
}

} // verus!
