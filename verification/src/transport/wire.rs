//! The wire messages of the line-oriented transport, and their conversion
//! to and from the protocol's requests.

use vstd::prelude::*;

use crate::types::{AppendEntries, LogEntry, NodeId, OutboundRpc, RequestVote};

verus! {

#[derive(Debug, Clone, PartialEq, Eq)]
pub struct WireLogEntry {
    pub term: u64,
    pub command: String,
}

#[derive(Debug, Clone, PartialEq, Eq)]
pub enum WirePayload {
    RequestVote { term: u64, candidate_id: NodeId, last_log_index: usize, last_log_term: u64 },
    RequestVoteResponse { term: u64, vote_granted: bool },
    AppendEntries {
        term: u64,
        leader_id: NodeId,
        prev_log_index: usize,
        prev_log_term: u64,
        entries: Vec<WireLogEntry>,
        leader_commit: usize,
    },
    AppendEntriesResponse { term: u64, success: bool, match_index: usize },
}

#[derive(Debug, Clone, PartialEq, Eq)]
pub struct WireMessage {
    pub from: NodeId,
    pub to: NodeId,
    pub payload: WirePayload,
}

/// `w` lists the same entries as `e`.
pub open spec fn same_entries(w: Seq<WireLogEntry>, e: Seq<LogEntry>) -> bool {
    &&& w.len() == e.len()
    &&& forall|i: int|
        0 <= i < w.len() ==> (#[trigger] w[i]).term == e[i].term && w[i].command == e[i].command
}

/// `w` carries the request `rpc` sent by `from`.
pub open spec fn rpc_encodes(w: WireMessage, from: NodeId, rpc: OutboundRpc) -> bool {
    &&& w.from == from
    &&& match (rpc, w.payload) {
        (
            OutboundRpc::RequestVote { to, rpc: r },
            WirePayload::RequestVote { term, candidate_id, last_log_index, last_log_term },
        ) => w.to == to && term == r.term && candidate_id == r.candidate_id && last_log_index
            == r.last_log_index && last_log_term == r.last_log_term,
        (
            OutboundRpc::AppendEntries { to, rpc: r },
            WirePayload::AppendEntries {
                term,
                leader_id,
                prev_log_index,
                prev_log_term,
                entries,
                leader_commit,
            },
        ) => w.to == to && term == r.term && leader_id == r.leader_id && prev_log_index
            == r.prev_log_index && prev_log_term == r.prev_log_term && same_entries(
            entries@,
            r.entries@,
        ) && leader_commit == r.leader_commit,
        _ => false,
    }
}

/// The wire entry for `entry`.
pub fn to_wire_log_entry(entry: LogEntry) -> (r: WireLogEntry)
    ensures
        r.term == entry.term,
        r.command == entry.command,
{
    WireLogEntry { term: entry.term, command: entry.command }
}

/// The log entry for the wire entry `entry`.
pub fn from_wire_log_entry(entry: WireLogEntry) -> (r: LogEntry)
    ensures
        r.term == entry.term,
        r.command == entry.command,
{
    LogEntry { term: entry.term, command: entry.command }
}

fn entries_to_wire(entries: &Vec<LogEntry>) -> (r: Vec<WireLogEntry>)
    ensures
        same_entries(r@, entries@),
{
    let mut r: Vec<WireLogEntry> = Vec::new();
    let mut i: usize = 0;
    while i < entries.len()
        invariant
            0 <= i <= entries@.len(),
            r@.len() == i,
            forall|j: int|
                0 <= j < i ==> (#[trigger] r@[j]).term == entries@[j].term && r@[j].command
                    == entries@[j].command,
        decreases entries@.len() - i,
    {
        r.push(to_wire_log_entry(crate::types::copy_entry(&entries[i])));
        i = i + 1;
    }
    r
}

fn entries_from_wire(entries: &Vec<WireLogEntry>) -> (r: Vec<LogEntry>)
    ensures
        same_entries(entries@, r@),
{
    let mut r: Vec<LogEntry> = Vec::new();
    let mut i: usize = 0;
    while i < entries.len()
        invariant
            0 <= i <= entries@.len(),
            r@.len() == i,
            forall|j: int|
                0 <= j < i ==> (#[trigger] r@[j]).term == entries@[j].term && r@[j].command
                    == entries@[j].command,
        decreases entries@.len() - i,
    {
        let e = WireLogEntry { term: entries[i].term, command: entries[i].command.clone() };
        r.push(from_wire_log_entry(e));
        i = i + 1;
    }
    r
}

/// The wire message that carries `rpc`, sent by `from`.
pub fn outbound_rpc_to_wire(from: NodeId, rpc: OutboundRpc) -> (r: WireMessage)
    ensures
        rpc_encodes(r, from, rpc),
{
    match rpc {
        OutboundRpc::RequestVote { to, rpc } => WireMessage {
            from,
            to,
            payload: WirePayload::RequestVote {
                term: rpc.term,
                candidate_id: rpc.candidate_id,
                last_log_index: rpc.last_log_index,
                last_log_term: rpc.last_log_term,
            },
        },
        OutboundRpc::AppendEntries { to, rpc } => WireMessage {
            from,
            to,
            payload: WirePayload::AppendEntries {
                term: rpc.term,
                leader_id: rpc.leader_id,
                prev_log_index: rpc.prev_log_index,
                prev_log_term: rpc.prev_log_term,
                entries: entries_to_wire(&rpc.entries),
                leader_commit: rpc.leader_commit,
            },
        },
    }
}

/// The vote request with the given fields.
pub fn from_wire_request_vote(
    term: u64,
    candidate_id: NodeId,
    last_log_index: usize,
    last_log_term: u64,
) -> (r: RequestVote)
    ensures
        r == (RequestVote { term, candidate_id, last_log_index, last_log_term }),
{
    RequestVote { term, candidate_id, last_log_index, last_log_term }
}

/// The append request with the given fields and the entries `entries`.
pub fn from_wire_append_entries(
    term: u64,
    leader_id: NodeId,
    prev_log_index: usize,
    prev_log_term: u64,
    entries: Vec<WireLogEntry>,
    leader_commit: usize,
) -> (r: AppendEntries)
    ensures
        r.term == term,
        r.leader_id == leader_id,
        r.prev_log_index == prev_log_index,
        r.prev_log_term == prev_log_term,
        same_entries(entries@, r.entries@),
        r.leader_commit == leader_commit,
{
    AppendEntries {
        term,
        leader_id,
        prev_log_index,
        prev_log_term,
        entries: entries_from_wire(&entries),
        leader_commit,
    }
}

} // verus!
