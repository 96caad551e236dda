//! The message shapes exchanged on the wire, and their conversion to and
//! from the protocol's messages.

use vstd::prelude::*;

use super::{InboundMessage, RaftMessage};
use crate::types::{
    AppendEntries, AppendEntriesResponse, InstallSnapshot, InstallSnapshotResponse, LogEntry,
    NodeId, RequestVote, RequestVoteResponse,
};

verus! {

#[derive(Debug, Clone, PartialEq, Eq)]
pub struct WireLogEntry {
    pub term: u64,
    pub command: String,
}

#[derive(Debug, Clone, PartialEq, Eq)]
pub enum WirePayload {
    RequestVote { term: u64, candidate_id: NodeId, last_log_index: usize, last_log_term: u64 },
    RequestVoteResponse { term: u64, vote_granted: bool },
    AppendEntries {
        term: u64,
        leader_id: NodeId,
        prev_log_index: usize,
        prev_log_term: u64,
        entries: Vec<WireLogEntry>,
        leader_commit: usize,
    },
    AppendEntriesResponse { term: u64, success: bool, match_index: usize },
    InstallSnapshot {
        term: u64,
        leader_id: NodeId,
        last_included_index: usize,
        last_included_term: u64,
        data: Vec<u8>,
    },
    InstallSnapshotResponse { term: u64, success: bool },
}

#[derive(Debug, Clone, PartialEq, Eq)]
pub struct WireMessage {
    pub from: NodeId,
    pub to: NodeId,
    pub payload: WirePayload,
}

/// `w` lists the same entries as `e`.
pub open spec fn same_entries(w: Seq<WireLogEntry>, e: Seq<LogEntry>) -> bool {
    &&& w.len() == e.len()
    &&& forall|i: int|
        0 <= i < w.len() ==> (#[trigger] w[i]).term == e[i].term && w[i].command == e[i].command
}

/// `w` carries `m` from `from` to `to`. Responses carry no sender of their
/// own: the envelope's sender stands for it.
pub open spec fn encodes(w: WireMessage, from: NodeId, to: NodeId, m: RaftMessage) -> bool {
    &&& w.from == from
    &&& w.to == to
    &&& match (m, w.payload) {
        (
            RaftMessage::RequestVote(r),
            WirePayload::RequestVote { term, candidate_id, last_log_index, last_log_term },
        ) => term == r.term && candidate_id == r.candidate_id && last_log_index == r.last_log_index
            && last_log_term == r.last_log_term,
        (
            RaftMessage::RequestVoteResponse(r),
            WirePayload::RequestVoteResponse { term, vote_granted },
        ) => term == r.term && vote_granted == r.vote_granted,
        (
            RaftMessage::AppendEntries(r),
            WirePayload::AppendEntries {
                term,
                leader_id,
                prev_log_index,
                prev_log_term,
                entries,
                leader_commit,
            },
        ) => term == r.term && leader_id == r.leader_id && prev_log_index == r.prev_log_index
            && prev_log_term == r.prev_log_term && same_entries(entries@, r.entries@)
            && leader_commit == r.leader_commit,
        (
            RaftMessage::AppendEntriesResponse(r),
            WirePayload::AppendEntriesResponse { term, success, match_index },
        ) => term == r.term && success == r.success && match_index == r.match_index,
        (
            RaftMessage::InstallSnapshot(r),
            WirePayload::InstallSnapshot {
                term,
                leader_id,
                last_included_index,
                last_included_term,
                data,
            },
        ) => term == r.term && leader_id == r.leader_id && last_included_index
            == r.last_included_index && last_included_term == r.last_included_term && data@
            == r.data@,
        (
            RaftMessage::InstallSnapshotResponse(r),
            WirePayload::InstallSnapshotResponse { term, success },
        ) => term == r.term && success == r.success,
        _ => false,
    }
}

/// `r` is what `w` carries, with the envelope's sender as the sender of a
/// response.
pub open spec fn decodes(w: WireMessage, r: InboundMessage) -> bool {
    &&& r.from == w.from
    &&& match (w.payload, r.message) {
        (
            WirePayload::RequestVote { term, candidate_id, last_log_index, last_log_term },
            RaftMessage::RequestVote(m),
        ) => m.term == term && m.candidate_id == candidate_id && m.last_log_index == last_log_index
            && m.last_log_term == last_log_term,
        (
            WirePayload::RequestVoteResponse { term, vote_granted },
            RaftMessage::RequestVoteResponse(m),
        ) => m.term == term && m.vote_granted == vote_granted && m.from == w.from,
        (
            WirePayload::AppendEntries {
                term,
                leader_id,
                prev_log_index,
                prev_log_term,
                entries,
                leader_commit,
            },
            RaftMessage::AppendEntries(m),
        ) => m.term == term && m.leader_id == leader_id && m.prev_log_index == prev_log_index
            && m.prev_log_term == prev_log_term && same_entries(entries@, m.entries@)
            && m.leader_commit == leader_commit,
        (
            WirePayload::AppendEntriesResponse { term, success, match_index },
            RaftMessage::AppendEntriesResponse(m),
        ) => m.term == term && m.success == success && m.from == w.from && m.match_index
            == match_index,
        (
            WirePayload::InstallSnapshot {
                term,
                leader_id,
                last_included_index,
                last_included_term,
                data,
            },
            RaftMessage::InstallSnapshot(m),
        ) => m.term == term && m.leader_id == leader_id && m.last_included_index
            == last_included_index && m.last_included_term == last_included_term && m.data@
            == data@,
        (
            WirePayload::InstallSnapshotResponse { term, success },
            RaftMessage::InstallSnapshotResponse(m),
        ) => m.term == term && m.from == w.from && m.success == success,
        _ => false,
    }
}

/// `a` is `b` with the sender of a response replaced by `from`.
pub open spec fn same_message_from(a: RaftMessage, b: RaftMessage, from: NodeId) -> bool {
    match (a, b) {
        (RaftMessage::RequestVote(x), RaftMessage::RequestVote(y)) => x == y,
        (RaftMessage::RequestVoteResponse(x), RaftMessage::RequestVoteResponse(y)) => x
            == RequestVoteResponse { from, ..y },
        (RaftMessage::AppendEntries(x), RaftMessage::AppendEntries(y)) => x.term == y.term
            && x.leader_id == y.leader_id && x.prev_log_index == y.prev_log_index
            && x.prev_log_term == y.prev_log_term && x.entries@ == y.entries@ && x.leader_commit
            == y.leader_commit,
        (RaftMessage::AppendEntriesResponse(x), RaftMessage::AppendEntriesResponse(y)) => x
            == AppendEntriesResponse { from, ..y },
        (RaftMessage::InstallSnapshot(x), RaftMessage::InstallSnapshot(y)) => x.term == y.term
            && x.leader_id == y.leader_id && x.last_included_index == y.last_included_index
            && x.last_included_term == y.last_included_term && x.data@ == y.data@,
        (RaftMessage::InstallSnapshotResponse(x), RaftMessage::InstallSnapshotResponse(y)) => x
            == InstallSnapshotResponse { from, ..y },
        _ => false,
    }
}

/// Sending a message over the wire and reading it back gives the message
/// again, with responses now naming the sender the envelope gave.
pub proof fn law_wire_round_trip(
    w: WireMessage,
    from: NodeId,
    to: NodeId,
    m: RaftMessage,
    r: InboundMessage,
)
    requires
        encodes(w, from, to, m),
        decodes(w, r),
    ensures
        r.from == from,
        same_message_from(r.message, m, from),
{
    match (m, r.message) {
        (RaftMessage::AppendEntries(x), RaftMessage::AppendEntries(y)) => {
            if let WirePayload::AppendEntries { entries, .. } = w.payload {
                assert(y.entries@ =~= x.entries@) by {
                    assert forall|i: int| 0 <= i < x.entries@.len() implies y.entries@[i]
                        == x.entries@[i] by {
                        assert(entries@[i].term == x.entries@[i].term);
                    }
                }
            }
        },
        _ => {},
    }
}

/// The wire entries for `entries`.
pub fn entries_to_wire(entries: &Vec<LogEntry>) -> (r: Vec<WireLogEntry>)
    ensures
        same_entries(r@, entries@),
{
    let mut r: Vec<WireLogEntry> = Vec::new();
    let mut i: usize = 0;
    while i < entries.len()
        invariant
            0 <= i <= entries@.len(),
            r@.len() == i,
            forall|j: int|
                0 <= j < i ==> (#[trigger] r@[j]).term == entries@[j].term && r@[j].command
                    == entries@[j].command,
        decreases entries@.len() - i,
    {
        r.push(WireLogEntry { term: entries[i].term, command: entries[i].command.clone() });
        i = i + 1;
    }
    r
}

/// The log entries for the wire entries `entries`.
pub fn entries_from_wire(entries: &Vec<WireLogEntry>) -> (r: Vec<LogEntry>)
    ensures
        same_entries(entries@, r@),
{
    let mut r: Vec<LogEntry> = Vec::new();
    let mut i: usize = 0;
    while i < entries.len()
        invariant
            0 <= i <= entries@.len(),
            r@.len() == i,
            forall|j: int|
                0 <= j < i ==> (#[trigger] r@[j]).term == entries@[j].term && r@[j].command
                    == entries@[j].command,
        decreases entries@.len() - i,
    {
        r.push(LogEntry { term: entries[i].term, command: entries[i].command.clone() });
        i = i + 1;
    }
    r
}

/// The wire form of `message` sent from `from` to `to`.
pub fn message_to_wire(from: NodeId, to: NodeId, message: RaftMessage) -> (r: WireMessage)
    ensures
        encodes(r, from, to, message),
{
    let payload = match message {
        RaftMessage::RequestVote(m) => WirePayload::RequestVote {
            term: m.term,
            candidate_id: m.candidate_id,
            last_log_index: m.last_log_index,
            last_log_term: m.last_log_term,
        },
        RaftMessage::RequestVoteResponse(m) => WirePayload::RequestVoteResponse {
            term: m.term,
            vote_granted: m.vote_granted,
        },
        RaftMessage::AppendEntries(m) => WirePayload::AppendEntries {
            term: m.term,
            leader_id: m.leader_id,
            prev_log_index: m.prev_log_index,
            prev_log_term: m.prev_log_term,
            entries: entries_to_wire(&m.entries),
            leader_commit: m.leader_commit,
        },
        RaftMessage::AppendEntriesResponse(m) => WirePayload::AppendEntriesResponse {
            term: m.term,
            success: m.success,
            match_index: m.match_index,
        },
        RaftMessage::InstallSnapshot(m) => WirePayload::InstallSnapshot {
            term: m.term,
            leader_id: m.leader_id,
            last_included_index: m.last_included_index,
            last_included_term: m.last_included_term,
            data: m.data,
        },
        RaftMessage::InstallSnapshotResponse(m) => WirePayload::InstallSnapshotResponse {
            term: m.term,
            success: m.success,
        },
    };
    WireMessage { from, to, payload }
}

/// The message that `msg` carries; a response's sender is the envelope's.
pub fn wire_to_message(msg: WireMessage) -> (r: InboundMessage)
    ensures
        decodes(msg, r),
{
    let from = msg.from;
    let message = match msg.payload {
        WirePayload::RequestVote { term, candidate_id, last_log_index, last_log_term } => {
            RaftMessage::RequestVote(
                RequestVote { term, candidate_id, last_log_index, last_log_term },
            )
        },
        WirePayload::RequestVoteResponse { term, vote_granted } => {
            RaftMessage::RequestVoteResponse(RequestVoteResponse { term, vote_granted, from })
        },
        WirePayload::AppendEntries {
            term,
            leader_id,
            prev_log_index,
            prev_log_term,
            entries,
            leader_commit,
        } => RaftMessage::AppendEntries(
            AppendEntries {
                term,
                leader_id,
                prev_log_index,
                prev_log_term,
                entries: entries_from_wire(&entries),
                leader_commit,
            },
        ),
        WirePayload::AppendEntriesResponse { term, success, match_index } => {
            RaftMessage::AppendEntriesResponse(
                AppendEntriesResponse { term, success, from, match_index },
            )
        },
        WirePayload::InstallSnapshot {
            term,
            leader_id,
            last_included_index,
            last_included_term,
            data,
        } => RaftMessage::InstallSnapshot(
            InstallSnapshot { term, leader_id, last_included_index, last_included_term, data },
        ),
        WirePayload::InstallSnapshotResponse { term, success } => {
            RaftMessage::InstallSnapshotResponse(InstallSnapshotResponse { term, from, success })
        },
    };
    InboundMessage { from, message }
}

/// The message taken in by node `local_id` from the wire: none when it is
/// addressed to another node, else what it carries.
pub fn accept_wire(local_id: NodeId, msg: WireMessage) -> (r: Option<InboundMessage>)
    ensures
        msg.to != local_id ==> r is None,
        msg.to == local_id ==> (r matches Some(m) && decodes(msg, m)),
{
    if msg.to != local_id {
        return None;
    }
    Some(wire_to_message(msg))
}

} // verus!
