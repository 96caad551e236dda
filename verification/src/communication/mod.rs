use std::collections::HashMap;

use vstd::prelude::*;

use crate::text::{push_decimal, push_str};
use crate::types::{
    AppendEntries, AppendEntriesResponse, InstallSnapshot, InstallSnapshotResponse, NodeId,
    RequestVote, RequestVoteResponse,
};

pub mod grpc;
pub mod wire;

verus! {

broadcast use vstd::std_specs::hash::group_hash_axioms;

/// Any message one node sends another.
#[derive(Debug, Clone, PartialEq, Eq)]
pub enum RaftMessage {
    RequestVote(RequestVote),
    RequestVoteResponse(RequestVoteResponse),
    AppendEntries(AppendEntries),
    AppendEntriesResponse(AppendEntriesResponse),
    InstallSnapshot(InstallSnapshot),
    InstallSnapshotResponse(InstallSnapshotResponse),
}

/// A message received from a peer.
#[derive(Debug, Clone, PartialEq, Eq)]
pub struct InboundMessage {
    pub from: NodeId,
    pub message: RaftMessage,
}

/// What became of a message handed over for sending.
#[derive(Debug, Clone, PartialEq, Eq)]
pub enum SendOutcome {
    Sent,
    Dropped(String),
}

/// Why a communication channel could not deliver.
#[derive(Debug, Clone, PartialEq, Eq)]
pub enum CommunicationError {
    NotStarted,
    Disconnected,
    PeerNotConfigured(NodeId),
    Other(String),
}

/// The text that describes `e`.
pub open spec fn error_text(e: CommunicationError) -> Seq<char> {
    match e {
        CommunicationError::NotStarted => "communication is not started"@,
        CommunicationError::Disconnected => "communication channel disconnected"@,
        CommunicationError::PeerNotConfigured(peer) => "peer "@ + crate::text::decimal(peer as nat)
            + " is not configured"@,
        CommunicationError::Other(message) => message@,
    }
}

impl CommunicationError {
    /// The human-readable description of the error.
    pub fn message(&self) -> (r: String)
        ensures
            r@ == error_text(*self),
    {
        match self {
            CommunicationError::NotStarted => "communication is not started".to_owned(),
            CommunicationError::Disconnected => "communication channel disconnected".to_owned(),
            CommunicationError::PeerNotConfigured(peer) => {
                let mut out = String::new();
                push_str(&mut out, "peer ");
                push_decimal(&mut out, *peer);
                push_str(&mut out, " is not configured");
                proof {
                    assert(out@ =~= error_text(*self));
                }
                out
            },
            CommunicationError::Other(message) => message.clone(),
        }
    }
}

/// The URL a peer listening on `addr` takes messages at over HTTPS.
pub fn https_peer_url(addr: &str) -> (r: String)
    ensures
        r@ == "https://"@ + addr@ + "/raft"@,
{
    let mut out = String::new();
    push_str(&mut out, "https://");
    push_str(&mut out, addr);
    push_str(&mut out, "/raft");
    proof {
        assert(out@ =~= "https://"@ + addr@ + "/raft"@);
    }
    out
}

/// The address configured for peer `to`, or `PeerNotConfigured` when the
/// peer has none.
pub fn peer_address(peer_addrs: &HashMap<NodeId, String>, to: NodeId) -> (r: Result<
    &String,
    CommunicationError,
>)
    ensures
        peer_addrs@.contains_key(to) ==> (r matches Ok(addr) && *addr == peer_addrs@[to]),
        !peer_addrs@.contains_key(to) ==> r == Err::<&String, CommunicationError>(
            CommunicationError::PeerNotConfigured(to),
        ),
{
    match peer_addrs.get(&to) {
        Some(addr) => Ok(addr),
        None => Err(CommunicationError::PeerNotConfigured(to)),
    }
}

/// A channel between this node and its peers.
pub trait RaftCommunication {
    /// Starts listening on `address`.
    fn start(&mut self, address: String) -> Result<(), CommunicationError>;

    /// The next message received, if one is waiting.
    fn poll(&mut self) -> Result<Option<InboundMessage>, CommunicationError>;

    /// Hands `message` over for delivery to `to`.
    fn send(&mut self, to: NodeId, message: RaftMessage) -> SendOutcome;
}

} // verus!
