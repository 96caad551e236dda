use vstd::prelude::*;

verus! {

/// Identifier of a node in the cluster.
pub type NodeId = u64;

/// A Raft term number.
pub type Term = u64;

/// One replicated command together with the term in which a leader created it.
#[derive(Debug, Clone, PartialEq, Eq)]
pub struct LogEntry {
    pub term: Term,
    pub command: String,
}

/// The role a node currently plays in the protocol.
#[derive(Debug, Clone, Copy, PartialEq, Eq, Structural)]
pub enum Role {
    Follower,
    Candidate,
    Leader,
}

#[derive(Debug, Clone, PartialEq, Eq)]
pub struct RequestVote {
    pub term: Term,
    pub candidate_id: NodeId,
    pub last_log_index: usize,
    pub last_log_term: Term,
}

#[derive(Debug, Clone, PartialEq, Eq)]
pub struct RequestVoteResponse {
    pub term: Term,
    pub vote_granted: bool,
    pub from: NodeId,
}

#[derive(Debug, Clone, PartialEq, Eq)]
pub struct AppendEntries {
    pub term: Term,
    pub leader_id: NodeId,
    pub prev_log_index: usize,
    pub prev_log_term: Term,
    pub entries: Vec<LogEntry>,
    pub leader_commit: usize,
}

#[derive(Debug, Clone, PartialEq, Eq)]
pub struct AppendEntriesResponse {
    pub term: Term,
    pub success: bool,
    pub from: NodeId,
    pub match_index: usize,
}

#[derive(Debug, Clone, PartialEq, Eq)]
pub struct InstallSnapshot {
    pub term: Term,
    pub leader_id: NodeId,
    pub last_included_index: usize,
    pub last_included_term: Term,
    pub data: Vec<u8>,
}

#[derive(Debug, Clone, PartialEq, Eq)]
pub struct InstallSnapshotResponse {
    pub term: Term,
    pub from: NodeId,
    pub success: bool,
}

/// A request a node wants delivered to a peer.
#[derive(Debug, Clone, PartialEq, Eq)]
#[allow(inconsistent_fields)]
pub enum OutboundMessage {
    RequestVote { to: NodeId, message: RequestVote },
    AppendEntries { to: NodeId, message: AppendEntries },
}

/// A request addressed to a peer, in the shape the line-oriented transport uses.
#[derive(Debug, Clone, PartialEq, Eq)]
#[allow(inconsistent_fields)]
pub enum OutboundRpc {
    RequestVote { to: NodeId, rpc: RequestVote },
    AppendEntries { to: NodeId, rpc: AppendEntries },
}

/// A copy of `entry` that is equal to it.
pub fn copy_entry(entry: &LogEntry) -> (r: LogEntry)
    ensures
        r == *entry,
{
    LogEntry { term: entry.term, command: entry.command.clone() }
}

/// A copy of `entries[from..to]`.
pub fn copy_entries(entries: &Vec<LogEntry>, from: usize, to: usize) -> (r: Vec<LogEntry>)
    requires
        from <= to <= entries.len(),
    ensures
        r@ == entries@.subrange(from as int, to as int),
{
    let mut r: Vec<LogEntry> = Vec::new();
    let mut i: usize = from;
    while i < to
        invariant
            from <= i <= to <= entries.len(),
            r@ == entries@.subrange(from as int, i as int),
        decreases to - i,
    {
        r.push(copy_entry(&entries[i]));
        i = i + 1;
    }
    r
}

} // verus!
