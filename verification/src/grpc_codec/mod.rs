//! Conversion between the protocol's messages and the gRPC transport's
//! envelopes, whose integers are all 64-bit.

use vstd::prelude::*;

use crate::communication::{CommunicationError, InboundMessage, RaftMessage, SendOutcome};
use crate::text::{push_decimal, push_str};
use crate::types::{
    AppendEntries, AppendEntriesResponse, InstallSnapshot, InstallSnapshotResponse, LogEntry,
    NodeId, RequestVote, RequestVoteResponse,
};

pub mod proto;

use proto::{Payload, TransportAck, TransportEnvelope};

verus! {

/// `p` lists the same entries as `e`.
pub open spec fn same_proto_entries(p: Seq<proto::LogEntry>, e: Seq<LogEntry>) -> bool {
    &&& p.len() == e.len()
    &&& forall|i: int|
        0 <= i < p.len() ==> (#[trigger] p[i]).term == e[i].term && p[i].command == e[i].command
}

/// `env` carries `m` from `from` to `to`; responses carry no sender of their
/// own, the envelope's stands for it.
pub open spec fn envelope_encodes(env: TransportEnvelope, from: NodeId, to: NodeId, m: RaftMessage) -> bool {
    &&& env.from == from
    &&& env.to == to
    &&& match (m, env.payload) {
        (RaftMessage::RequestVote(r), Some(Payload::RequestVote(p))) => p.term == r.term
            && p.candidate_id == r.candidate_id && p.last_log_index == r.last_log_index
            && p.last_log_term == r.last_log_term,
        (RaftMessage::RequestVoteResponse(r), Some(Payload::RequestVoteResponse(p))) => p.term
            == r.term && p.vote_granted == r.vote_granted,
        (RaftMessage::AppendEntries(r), Some(Payload::AppendEntries(p))) => p.term == r.term
            && p.leader_id == r.leader_id && p.prev_log_index == r.prev_log_index
            && p.prev_log_term == r.prev_log_term && same_proto_entries(p.entries@, r.entries@)
            && p.leader_commit == r.leader_commit,
        (RaftMessage::AppendEntriesResponse(r), Some(Payload::AppendEntriesResponse(p))) => p.term
            == r.term && p.success == r.success && p.match_index == r.match_index,
        (RaftMessage::InstallSnapshot(r), Some(Payload::InstallSnapshot(p))) => p.term == r.term
            && p.leader_id == r.leader_id && p.last_included_index == r.last_included_index
            && p.last_included_term == r.last_included_term && p.data@ == r.data@,
        (RaftMessage::InstallSnapshotResponse(r), Some(Payload::InstallSnapshotResponse(p))) => p.term
            == r.term && p.success == r.success,
        _ => false,
    }
}

/// Every index field of `env` fits in a `usize`.
pub open spec fn indices_fit(env: TransportEnvelope) -> bool {
    match env.payload {
        Some(Payload::RequestVote(p)) => p.last_log_index <= usize::MAX,
        Some(Payload::AppendEntries(p)) => p.prev_log_index <= usize::MAX && p.leader_commit
            <= usize::MAX,
        Some(Payload::AppendEntriesResponse(p)) => p.match_index <= usize::MAX,
        Some(Payload::InstallSnapshot(p)) => p.last_included_index <= usize::MAX,
        _ => true,
    }
}

/// `r` is what `env` carries, with the envelope's sender as the sender of a
/// response.
pub open spec fn envelope_decodes(env: TransportEnvelope, r: InboundMessage) -> bool {
    &&& r.from == env.from
    &&& match (env.payload, r.message) {
        (Some(Payload::RequestVote(p)), RaftMessage::RequestVote(m)) => m.term == p.term
            && m.candidate_id == p.candidate_id && m.last_log_index == p.last_log_index
            && m.last_log_term == p.last_log_term,
        (Some(Payload::RequestVoteResponse(p)), RaftMessage::RequestVoteResponse(m)) => m.term
            == p.term && m.vote_granted == p.vote_granted && m.from == env.from,
        (Some(Payload::AppendEntries(p)), RaftMessage::AppendEntries(m)) => m.term == p.term
            && m.leader_id == p.leader_id && m.prev_log_index == p.prev_log_index
            && m.prev_log_term == p.prev_log_term && same_proto_entries(p.entries@, m.entries@)
            && m.leader_commit == p.leader_commit,
        (Some(Payload::AppendEntriesResponse(p)), RaftMessage::AppendEntriesResponse(m)) => m.term
            == p.term && m.success == p.success && m.from == env.from && m.match_index
            == p.match_index,
        (Some(Payload::InstallSnapshot(p)), RaftMessage::InstallSnapshot(m)) => m.term == p.term
            && m.leader_id == p.leader_id && m.last_included_index == p.last_included_index
            && m.last_included_term == p.last_included_term && m.data@ == p.data@,
        (Some(Payload::InstallSnapshotResponse(p)), RaftMessage::InstallSnapshotResponse(m)) => m.term
            == p.term && m.from == env.from && m.success == p.success,
        _ => false,
    }
}

/// `value` as a `u64`; every `usize` fits.
pub fn usize_to_u64(value: usize, field: &str) -> (r: Result<u64, CommunicationError>)
    ensures
        r == Ok::<u64, CommunicationError>(value as u64),
{
    Ok(value as u64)
}

/// `value` as a `usize`, or an error naming `field` when it does not fit.
pub fn u64_to_usize(value: u64, field: &str) -> (r: Result<usize, CommunicationError>)
    ensures
        value <= usize::MAX ==> r == Ok::<usize, CommunicationError>(value as usize),
        value > usize::MAX ==> (r matches Err(CommunicationError::Other(message)) && message@
            == field@ + " does not fit into usize"@),
{
    if value <= usize::MAX as u64 {
        Ok(value as usize)
    } else {
        let mut message = String::new();
        push_str(&mut message, field);
        push_str(&mut message, " does not fit into usize");
        proof {
            assert(message@ =~= field@ + " does not fit into usize"@);
        }
        Err(CommunicationError::Other(message))
    }
}

/// The name of the first index field of `env` that does not fit in a `usize`.
pub open spec fn overflowing_field(env: TransportEnvelope) -> Seq<char> {
    match env.payload {
        Some(Payload::RequestVote(p)) => "request_vote.last_log_index"@,
        Some(Payload::AppendEntries(p)) => if p.prev_log_index > usize::MAX {
            "append_entries.prev_log_index"@
        } else {
            "append_entries.leader_commit"@
        },
        Some(Payload::AppendEntriesResponse(p)) => "append_entries_response.match_index"@,
        _ => "install_snapshot.last_included_index"@,
    }
}

fn entries_to_proto(entries: &Vec<LogEntry>) -> (r: Vec<proto::LogEntry>)
    ensures
        same_proto_entries(r@, entries@),
{
    let mut r: Vec<proto::LogEntry> = Vec::new();
    let mut i: usize = 0;
    while i < entries.len()
        invariant
            0 <= i <= entries@.len(),
            r@.len() == i,
            forall|j: int|
                0 <= j < i ==> (#[trigger] r@[j]).term == entries@[j].term && r@[j].command
                    == entries@[j].command,
        decreases entries@.len() - i,
    {
        r.push(proto::LogEntry { term: entries[i].term, command: entries[i].command.clone() });
        i = i + 1;
    }
    r
}

fn entries_from_proto(entries: &Vec<proto::LogEntry>) -> (r: Vec<LogEntry>)
    ensures
        same_proto_entries(entries@, r@),
{
    let mut r: Vec<LogEntry> = Vec::new();
    let mut i: usize = 0;
    while i < entries.len()
        invariant
            0 <= i <= entries@.len(),
            r@.len() == i,
            forall|j: int|
                0 <= j < i ==> (#[trigger] r@[j]).term == entries@[j].term && r@[j].command
                    == entries@[j].command,
        decreases entries@.len() - i,
    {
        r.push(LogEntry { term: entries[i].term, command: entries[i].command.clone() });
        i = i + 1;
    }
    r
}

/// The envelope that carries `message` from `from` to `to`. Every index fits
/// in 64 bits, so this always succeeds.
pub fn encode_message(from: NodeId, to: NodeId, message: RaftMessage) -> (r: Result<
    TransportEnvelope,
    CommunicationError,
>)
    ensures
        r matches Ok(env) && envelope_encodes(env, from, to, message),
{
    let payload = match message {
        RaftMessage::RequestVote(message) => Payload::RequestVote(
            proto::RequestVote {
                term: message.term,
                candidate_id: message.candidate_id,
                last_log_index: usize_to_u64(
                    message.last_log_index,
                    "request_vote.last_log_index",
                )?,
                last_log_term: message.last_log_term,
            },
        ),
        RaftMessage::RequestVoteResponse(message) => Payload::RequestVoteResponse(
            proto::RequestVoteResponse { term: message.term, vote_granted: message.vote_granted },
        ),
        RaftMessage::AppendEntries(message) => Payload::AppendEntries(
            proto::AppendEntries {
                term: message.term,
                leader_id: message.leader_id,
                prev_log_index: usize_to_u64(
                    message.prev_log_index,
                    "append_entries.prev_log_index",
                )?,
                prev_log_term: message.prev_log_term,
                entries: entries_to_proto(&message.entries),
                leader_commit: usize_to_u64(
                    message.leader_commit,
                    "append_entries.leader_commit",
                )?,
            },
        ),
        RaftMessage::AppendEntriesResponse(message) => Payload::AppendEntriesResponse(
            proto::AppendEntriesResponse {
                term: message.term,
                success: message.success,
                match_index: usize_to_u64(
                    message.match_index,
                    "append_entries_response.match_index",
                )?,
            },
        ),
        RaftMessage::InstallSnapshot(message) => Payload::InstallSnapshot(
            proto::InstallSnapshot {
                term: message.term,
                leader_id: message.leader_id,
                last_included_index: usize_to_u64(
                    message.last_included_index,
                    "install_snapshot.last_included_index",
                )?,
                last_included_term: message.last_included_term,
                data: message.data,
            },
        ),
        RaftMessage::InstallSnapshotResponse(message) => Payload::InstallSnapshotResponse(
            proto::InstallSnapshotResponse { term: message.term, success: message.success },
        ),
    };
    Ok(TransportEnvelope { from, to, payload: Some(payload) })
}

/// The message that `envelope` carries, with the envelope's sender as the
/// sender of a response. It fails when the envelope has no payload, or when
/// an index does not fit in a `usize`.
pub fn decode_envelope(envelope: TransportEnvelope) -> (r: Result<InboundMessage, CommunicationError>)
    ensures
        envelope.payload is None ==> (r matches Err(CommunicationError::Other(message))
            && message@ == "missing gRPC payload"@),
        envelope.payload is Some && !indices_fit(envelope) ==> (r matches Err(
            CommunicationError::Other(message),
        ) && message@ == overflowing_field(envelope) + " does not fit into usize"@),
        envelope.payload is Some && indices_fit(envelope) ==> (r matches Ok(m)
            && envelope_decodes(envelope, m)),
{
    let from = envelope.from;
    let payload = match envelope.payload {
        Some(p) => p,
        None => {
            return Err(CommunicationError::Other("missing gRPC payload".to_owned()));
        },
    };
    let message = match payload {
        Payload::RequestVote(message) => RaftMessage::RequestVote(
            RequestVote {
                term: message.term,
                candidate_id: message.candidate_id,
                last_log_index: u64_to_usize(
                    message.last_log_index,
                    "request_vote.last_log_index",
                )?,
                last_log_term: message.last_log_term,
            },
        ),
        Payload::RequestVoteResponse(message) => RaftMessage::RequestVoteResponse(
            RequestVoteResponse { term: message.term, vote_granted: message.vote_granted, from },
        ),
        Payload::AppendEntries(message) => RaftMessage::AppendEntries(
            AppendEntries {
                term: message.term,
                leader_id: message.leader_id,
                prev_log_index: u64_to_usize(
                    message.prev_log_index,
                    "append_entries.prev_log_index",
                )?,
                prev_log_term: message.prev_log_term,
                entries: entries_from_proto(&message.entries),
                leader_commit: u64_to_usize(
                    message.leader_commit,
                    "append_entries.leader_commit",
                )?,
            },
        ),
        Payload::AppendEntriesResponse(message) => RaftMessage::AppendEntriesResponse(
            AppendEntriesResponse {
                term: message.term,
                success: message.success,
                from,
                match_index: u64_to_usize(
                    message.match_index,
                    "append_entries_response.match_index",
                )?,
            },
        ),
        Payload::InstallSnapshot(message) => RaftMessage::InstallSnapshot(
            InstallSnapshot {
                term: message.term,
                leader_id: message.leader_id,
                last_included_index: u64_to_usize(
                    message.last_included_index,
                    "install_snapshot.last_included_index",
                )?,
                last_included_term: message.last_included_term,
                data: message.data,
            },
        ),
        Payload::InstallSnapshotResponse(message) => RaftMessage::InstallSnapshotResponse(
            InstallSnapshotResponse { term: message.term, from, success: message.success },
        ),
    };
    Ok(InboundMessage { from, message })
}


/// The gRPC endpoint of a peer listening on `addr`.
pub fn peer_endpoint(addr: &str) -> (r: String)
    ensures
        r@ == "http://"@ + addr@,
{
    let mut out = String::new();
    push_str(&mut out, "http://");
    push_str(&mut out, addr);
    out
}

/// What became of a message from the receiver's acknowledgement: sent when
/// accepted; otherwise dropped with the receiver's error, or with a note that
/// `to` rejected it when the receiver gave none.
pub fn outcome_of_ack(to: NodeId, ack: TransportAck) -> (r: SendOutcome)
    ensures
        ack.accepted ==> r == SendOutcome::Sent,
        !ack.accepted && ack.error@.len() == 0 ==> (r matches SendOutcome::Dropped(reason)
            && reason@ == "peer "@ + crate::text::decimal(to as nat) + " rejected the message"@),
        !ack.accepted && ack.error@.len() > 0 ==> r == SendOutcome::Dropped(ack.error),
{
    if ack.accepted {
        return SendOutcome::Sent;
    }
    if ack.error.as_str().is_empty() {
        let mut reason = String::new();
        push_str(&mut reason, "peer ");
        push_decimal(&mut reason, to);
        push_str(&mut reason, " rejected the message");
        proof {
            assert(reason@ =~= "peer "@ + crate::text::decimal(to as nat) + " rejected the message"@);
        }
        SendOutcome::Dropped(reason)
    } else {
        SendOutcome::Dropped(ack.error)
    }
}

/// The acknowledgement a receiver sends: accepted when the envelope could be
/// queued, otherwise refused with the reason `queue_error` gives.
pub fn ack_for(queue_error: Option<String>) -> (r: TransportAck)
    ensures
        match queue_error {
            None => r.accepted && r.error@.len() == 0,
            Some(e) => !r.accepted && r.error@ == "queue inbound message: "@ + e@,
        },
{
    match queue_error {
        None => TransportAck { accepted: true, error: String::new() },
        Some(e) => {
            let mut error = String::new();
            push_str(&mut error, "queue inbound message: ");
            push_str(&mut error, e.as_str());
            TransportAck { accepted: false, error }
        },
    }
}

/// The envelope taken in by node `local_id`: none when it is addressed to
/// another node, else its decoded message (or why it could not be decoded).
pub fn accept_envelope(local_id: NodeId, envelope: TransportEnvelope) -> (r: Option<
    Result<InboundMessage, CommunicationError>,
>)
    ensures
        envelope.to != local_id ==> r is None,
        envelope.to == local_id ==> (r matches Some(res) && (envelope.payload is Some
            && indices_fit(envelope) ==> (res matches Ok(m) && envelope_decodes(envelope, m)))
            && (envelope.payload is None || !indices_fit(envelope) ==> res is Err)),
{
    if envelope.to != local_id {
        return None;
    }
    Some(decode_envelope(envelope))
}

/// Encoding a message into an envelope and decoding it gives the message
/// back, with responses now naming the envelope's sender; decoding never fails
/// on an envelope that encoding produced, since its indices came from `usize`s.
pub proof fn law_envelope_round_trip(
    env: TransportEnvelope,
    from: NodeId,
    to: NodeId,
    m: RaftMessage,
)
    requires
        envelope_encodes(env, from, to, m),
    ensures
        env.payload is Some,
        indices_fit(env),
        forall|r: InboundMessage|
            envelope_decodes(env, r) ==> r.from == from
                && crate::communication::wire::same_message_from(r.message, m, from),
{
    assert forall|r: InboundMessage| envelope_decodes(env, r) implies r.from == from
        && crate::communication::wire::same_message_from(r.message, m, from) by {
        match (m, r.message) {
            (RaftMessage::AppendEntries(x), RaftMessage::AppendEntries(y)) => {
                if let Some(Payload::AppendEntries(p)) = env.payload {
                    assert(y.entries@ =~= x.entries@) by {
                        assert forall|i: int| 0 <= i < x.entries@.len() implies y.entries@[i]
                            == x.entries@[i] by {
                            assert(p.entries@[i].term == x.entries@[i].term);
                        }
                    }
                }
            },
            _ => {},
        }
    }
}

} // verus!
