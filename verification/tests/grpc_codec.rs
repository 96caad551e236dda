use raftust_core::grpc_codec::{decode_envelope, encode_message};
use raftust_core::{AppendEntriesResponse, InstallSnapshotResponse, RaftMessage};

#[test]
fn request_response_round_trip_preserves_sender() {
    let envelope = encode_message(
        3,
        1,
        RaftMessage::AppendEntriesResponse(AppendEntriesResponse {
            term: 7,
            success: true,
            from: 99,
            match_index: 42,
        }),
    )
    .expect("encode message");

    let inbound = decode_envelope(envelope).expect("decode message");
    match inbound.message {
        RaftMessage::AppendEntriesResponse(response) => {
            assert_eq!(response.from, 3);
            assert_eq!(response.match_index, 42);
            assert!(response.success);
        }
        other => panic!("unexpected message: {other:?}"),
    }
}

#[test]
fn snapshot_response_round_trip_preserves_sender() {
    let envelope = encode_message(
        5,
        2,
        RaftMessage::InstallSnapshotResponse(InstallSnapshotResponse {
            term: 11,
            from: 21,
            success: false,
        }),
    )
    .expect("encode message");

    let inbound = decode_envelope(envelope).expect("decode message");
    match inbound.message {
        RaftMessage::InstallSnapshotResponse(response) => {
            assert_eq!(response.from, 5);
            assert!(!response.success);
        }
        other => panic!("unexpected message: {other:?}"),
    }
}
