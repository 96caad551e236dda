use raftust_core::communication::grpc::GrpcCommunication;
use raftust_core::communication::wire::{accept_wire, message_to_wire, wire_to_message, WirePayload};
use raftust_core::communication::https_peer_url;
use raftust_core::grpc_codec::proto::{Payload, TransportAck, TransportEnvelope};
use raftust_core::grpc_codec::{
    accept_envelope, ack_for, decode_envelope, encode_message, outcome_of_ack, peer_endpoint,
    u64_to_usize, usize_to_u64,
};
use raftust_core::transport::process_network_message;
use raftust_core::transport::wire::{self as line, outbound_rpc_to_wire};
use raftust_core::{
    AppendEntries, CommunicationError, LogEntry, OutboundRpc, RaftCommunication, RaftMessage,
    RaftNode, RequestVote, RequestVoteResponse, SendOutcome,
};

fn sample_append() -> AppendEntries {
    AppendEntries {
        term: 2,
        leader_id: 1,
        prev_log_index: 3,
        prev_log_term: 1,
        entries: vec![
            LogEntry {
                term: 2,
                command: "set a 1".to_string(),
            },
            LogEntry {
                term: 2,
                command: "del a".to_string(),
            },
        ],
        leader_commit: 3,
    }
}

#[test]
fn wire_round_trip_keeps_requests() {
    let wire = message_to_wire(1, 2, RaftMessage::AppendEntries(sample_append()));
    assert_eq!(wire.from, 1);
    assert_eq!(wire.to, 2);
    let back = wire_to_message(wire);
    assert_eq!(back.from, 1);
    assert_eq!(back.message, RaftMessage::AppendEntries(sample_append()));
}

#[test]
fn wire_round_trip_names_the_envelope_sender() {
    let wire = message_to_wire(
        4,
        2,
        RaftMessage::RequestVoteResponse(RequestVoteResponse {
            term: 3,
            vote_granted: true,
            from: 77,
        }),
    );
    assert!(matches!(
        wire.payload,
        WirePayload::RequestVoteResponse {
            term: 3,
            vote_granted: true
        }
    ));
    let back = wire_to_message(wire);
    assert_eq!(
        back.message,
        RaftMessage::RequestVoteResponse(RequestVoteResponse {
            term: 3,
            vote_granted: true,
            from: 4,
        })
    );
}

#[test]
fn envelope_round_trip_keeps_entries() {
    let env = encode_message(1, 2, RaftMessage::AppendEntries(sample_append())).expect("encode");
    assert_eq!(env.from, 1);
    assert_eq!(env.to, 2);
    match &env.payload {
        Some(Payload::AppendEntries(p)) => {
            assert_eq!(p.prev_log_index, 3);
            assert_eq!(p.entries.len(), 2);
            assert_eq!(p.entries[1].command, "del a");
        }
        other => panic!("unexpected payload: {other:?}"),
    }
    let back = decode_envelope(env).expect("decode");
    assert_eq!(back.message, RaftMessage::AppendEntries(sample_append()));
}

#[test]
fn envelope_without_payload_is_an_error() {
    let err = decode_envelope(TransportEnvelope {
        from: 1,
        to: 2,
        payload: None,
    })
    .expect_err("no payload");
    assert_eq!(err, CommunicationError::Other("missing gRPC payload".to_string()));
}

#[test]
fn integer_conversions_keep_values() {
    assert_eq!(usize_to_u64(42, "x"), Ok(42));
    assert_eq!(u64_to_usize(42, "x"), Ok(42));
}

#[test]
fn acknowledgements_decide_the_outcome() {
    assert_eq!(
        outcome_of_ack(
            3,
            TransportAck {
                accepted: true,
                error: String::new()
            }
        ),
        SendOutcome::Sent
    );
    assert_eq!(
        outcome_of_ack(
            3,
            TransportAck {
                accepted: false,
                error: String::new()
            }
        ),
        SendOutcome::Dropped("peer 3 rejected the message".to_string())
    );
    assert_eq!(
        outcome_of_ack(
            3,
            TransportAck {
                accepted: false,
                error: "full".to_string()
            }
        ),
        SendOutcome::Dropped("full".to_string())
    );
    let refused = ack_for(Some("sending on a full channel".to_string()));
    assert!(!refused.accepted);
    assert_eq!(refused.error, "queue inbound message: sending on a full channel");
    assert!(ack_for(None).accepted);
}

#[test]
fn envelopes_for_other_nodes_are_skipped() {
    let env = encode_message(1, 2, RaftMessage::AppendEntries(sample_append())).expect("encode");
    assert!(accept_envelope(3, env.clone()).is_none());
    assert!(matches!(accept_envelope(2, env), Some(Ok(_))));
}

#[test]
fn peer_addresses_become_urls() {
    assert_eq!(peer_endpoint("127.0.0.1:5002"), "http://127.0.0.1:5002");
    assert_eq!(https_peer_url("127.0.0.1:5002"), "https://127.0.0.1:5002/raft");
}

#[test]
fn communication_errors_describe_themselves() {
    assert_eq!(
        CommunicationError::NotStarted.message(),
        "communication is not started"
    );
    assert_eq!(
        CommunicationError::Disconnected.message(),
        "communication channel disconnected"
    );
    assert_eq!(
        CommunicationError::PeerNotConfigured(12).message(),
        "peer 12 is not configured"
    );
    assert_eq!(CommunicationError::Other("boom".to_string()).message(), "boom");
}

#[test]
fn placeholder_channel_delivers_nothing() {
    let mut c = GrpcCommunication::new(7);
    assert_eq!(c.local_id(), 7);
    assert_eq!(c.poll(), Err(CommunicationError::NotStarted));
    assert_eq!(
        c.send(1, RaftMessage::AppendEntries(sample_append())),
        SendOutcome::Dropped("communication is not started".to_string())
    );
    assert!(c.start("127.0.0.1:1".to_string()).is_ok());
    assert_eq!(c.poll(), Ok(None));
    assert_eq!(
        c.send(1, RaftMessage::AppendEntries(sample_append())),
        SendOutcome::Dropped("gRPC communication scaffold is not implemented yet".to_string())
    );
}

#[test]
fn line_transport_encodes_requests() {
    let w = outbound_rpc_to_wire(
        1,
        OutboundRpc::RequestVote {
            to: 3,
            rpc: RequestVote {
                term: 2,
                candidate_id: 1,
                last_log_index: 0,
                last_log_term: 0,
            },
        },
    );
    assert_eq!(w.from, 1);
    assert_eq!(w.to, 3);
    assert!(matches!(
        w.payload,
        line::WirePayload::RequestVote { term: 2, candidate_id: 1, .. }
    ));
}

#[test]
fn network_messages_are_answered_in_wire_form() {
    let mut n = RaftNode::new(2, vec![1, 3], 3, 3, 1);
    let outcome = process_network_message(
        &mut n,
        line::WireMessage {
            from: 1,
            to: 2,
            payload: line::WirePayload::RequestVote {
                term: 1,
                candidate_id: 1,
                last_log_index: 0,
                last_log_term: 0,
            },
        },
    );
    assert!(!outcome.became_leader);
    assert_eq!(outcome.outbound.len(), 1);
    assert_eq!(outcome.outbound[0].to, 1);
    assert_eq!(outcome.outbound[0].from, 2);
    assert!(matches!(
        outcome.outbound[0].payload,
        line::WirePayload::RequestVoteResponse {
            term: 1,
            vote_granted: true
        }
    ));

    let ignored = process_network_message(
        &mut n,
        line::WireMessage {
            from: 1,
            to: 9,
            payload: line::WirePayload::RequestVoteResponse {
                term: 1,
                vote_granted: true,
            },
        },
    );
    assert!(ignored.outbound.is_empty());
}

#[test]
fn wire_messages_for_other_nodes_are_skipped() {
    let for_two = message_to_wire(1, 2, RaftMessage::AppendEntries(sample_append()));
    assert_eq!(accept_wire(3, for_two.clone()), None);
    let taken = accept_wire(2, for_two).unwrap();
    assert_eq!(taken.from, 1);
    assert_eq!(taken.message, RaftMessage::AppendEntries(sample_append()));
}

#[test]
fn peer_addresses_are_looked_up_or_refused() {
    let mut peers = std::collections::HashMap::new();
    peers.insert(2u64, "h:2".to_string());
    assert_eq!(
        raftust_core::communication::peer_address(&peers, 2),
        Ok(&"h:2".to_string())
    );
    assert_eq!(
        raftust_core::communication::peer_address(&peers, 9),
        Err(CommunicationError::PeerNotConfigured(9))
    );
}
