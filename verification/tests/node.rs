use raftust_core::{
    AppendEntries, AppendEntriesResponse, LogEntry, NodeId, OutboundMessage, RaftNode,
    RequestVote, RequestVoteResponse, Role,
};

fn node(id: NodeId) -> RaftNode {
    let peers = vec![1, 2, 3]
        .into_iter()
        .filter(|peer| *peer != id)
        .collect::<Vec<_>>();
    RaftNode::new(id, peers, 3, 3, 1)
}

#[test]
fn start_election_votes_for_self_and_sends_requests() {
    let mut n = node(1);
    let messages = n.start_election();

    assert_eq!(n.role, Role::Candidate);
    assert_eq!(n.current_term, 1);
    assert_eq!(n.voted_for, Some(1));
    assert_eq!(messages.len(), 2);
}

#[test]
fn candidate_becomes_leader_after_majority_votes() {
    let mut n = node(1);
    n.start_election();

    let elected = n.handle_request_vote_response(RequestVoteResponse {
        term: 1,
        vote_granted: true,
        from: 2,
    });

    assert!(elected);
    assert_eq!(n.role, Role::Leader);
}

#[test]
fn request_vote_grants_if_log_is_up_to_date() {
    let mut n = node(2);
    let resp = n.handle_request_vote(RequestVote {
        term: 1,
        candidate_id: 1,
        last_log_index: 0,
        last_log_term: 0,
    });

    assert!(resp.vote_granted);
    assert_eq!(n.voted_for, Some(1));
    assert_eq!(n.current_term, 1);
}

#[test]
fn request_vote_rejects_stale_log() {
    let mut n = node(2);
    n.log.push(LogEntry {
        term: 2,
        command: "x".into(),
    });
    let resp = n.handle_request_vote(RequestVote {
        term: 2,
        candidate_id: 1,
        last_log_index: 0,
        last_log_term: 0,
    });

    assert!(!resp.vote_granted);
}

#[test]
fn append_entries_with_commit_advances_commit_index() {
    let mut follower = node(2);
    let resp = follower.handle_append_entries(AppendEntries {
        term: 1,
        leader_id: 1,
        prev_log_index: 0,
        prev_log_term: 0,
        entries: vec![LogEntry {
            term: 1,
            command: "set a 1".into(),
        }],
        leader_commit: 1,
    });

    assert!(resp.success);
    assert_eq!(follower.log.len(), 1);
    assert_eq!(follower.commit_index, 1);
}

#[test]
fn append_entries_rewrites_conflicting_suffix() {
    let mut follower = node(2);
    follower.log.push(LogEntry {
        term: 1,
        command: "old1".into(),
    });
    follower.log.push(LogEntry {
        term: 2,
        command: "old2".into(),
    });

    let resp = follower.handle_append_entries(AppendEntries {
        term: 3,
        leader_id: 1,
        prev_log_index: 1,
        prev_log_term: 1,
        entries: vec![LogEntry {
            term: 3,
            command: "new2".into(),
        }],
        leader_commit: 2,
    });

    assert!(resp.success);
    assert_eq!(follower.log.len(), 2);
    assert_eq!(follower.log[1].term, 3);
    assert_eq!(follower.log[1].command, "new2");
}

#[test]
fn leader_retries_with_lower_next_index_after_reject() {
    let mut leader = node(1);
    leader.start_election();
    leader.handle_request_vote_response(RequestVoteResponse {
        term: 1,
        vote_granted: true,
        from: 2,
    });
    leader.log.push(LogEntry {
        term: 1,
        command: "cmd1".into(),
    });
    leader.log.push(LogEntry {
        term: 1,
        command: "cmd2".into(),
    });
    leader.leader_next_index.insert(2, 3);

    let outbound = leader.handle_append_entries_response(AppendEntriesResponse {
        term: 1,
        success: false,
        from: 2,
        match_index: 0,
    });

    assert_eq!(leader.leader_next_index.get(&2), Some(&2));
    assert_eq!(outbound.len(), 1);
    match &outbound[0] {
        OutboundMessage::AppendEntries { to, message } => {
            assert_eq!(*to, 2);
            assert_eq!(message.prev_log_index, 1);
            assert_eq!(message.entries.len(), 1);
            assert_eq!(message.entries[0].command, "cmd2");
        }
        _ => panic!("expected append entries retry"),
    }
}

#[test]
fn leader_commits_after_majority_ack() {
    let mut leader = node(1);
    leader.start_election();
    leader.handle_request_vote_response(RequestVoteResponse {
        term: 1,
        vote_granted: true,
        from: 2,
    });

    leader.log.push(LogEntry {
        term: 1,
        command: "cmd1".into(),
    });
    leader.leader_match_index.insert(1, 1);
    leader.leader_match_index.insert(2, 0);
    leader.leader_match_index.insert(3, 0);
    leader.leader_next_index.insert(2, 2);
    leader.leader_next_index.insert(3, 2);

    let outbound = leader.handle_append_entries_response(AppendEntriesResponse {
        term: 1,
        success: true,
        from: 2,
        match_index: 1,
    });

    assert!(outbound.is_empty());
    assert_eq!(leader.commit_index, 1);
}

#[test]
fn commit_makes_entries_available_for_application() {
    let mut n = node(1);
    n.log.push(LogEntry {
        term: 1,
        command: "a".into(),
    });
    n.log.push(LogEntry {
        term: 1,
        command: "b".into(),
    });
    n.commit_to(2);

    let first = n.take_unapplied_entries();
    let second = n.take_unapplied_entries();

    assert_eq!(first.len(), 2);
    assert_eq!(first[0].command, "a");
    assert_eq!(first[1].command, "b");
    assert!(second.is_empty());
}

#[test]
fn leader_proposal_sends_entry_to_followers() {
    let mut leader = node(1);
    leader.start_election();
    assert!(leader.handle_request_vote_response(RequestVoteResponse {
        term: 1,
        vote_granted: true,
        from: 2,
    }));

    let outbound = leader
        .propose_command("set k v")
        .expect("leader should accept proposal");

    assert_eq!(leader.log.len(), 1);
    assert_eq!(leader.log[0].command, "set k v");
    assert_eq!(outbound.len(), 2);

    for msg in outbound {
        match msg {
            OutboundMessage::AppendEntries { to, message } => {
                assert!(to == 2 || to == 3);
                assert_eq!(message.entries.len(), 1);
                assert_eq!(message.entries[0].command, "set k v");
                assert_eq!(message.prev_log_index, 0);
            }
            _ => panic!("expected append entries"),
        }
    }
}

#[test]
fn compaction_removes_committed_prefix_and_tracks_snapshot_point() {
    let mut n = node(1);
    n.role = Role::Leader;
    n.current_term = 2;

    n.propose_command("set a 1");
    n.propose_command("set b 2");
    n.propose_command("set c 3");
    n.commit_to(2);

    assert!(n.compact_committed());
    assert_eq!(n.snapshot_last_included_index, 2);
    assert_eq!(n.snapshot_last_included_term, 2);
    assert_eq!(n.log.len(), 1);
    assert_eq!(n.commit_index, 2);

    let unapplied = n.take_unapplied_entries();
    assert!(unapplied.is_empty());
}

#[test]
fn restore_from_storage_preserves_snapshot_offsets() {
    let mut n = node(1);
    n.restore_from_storage(
        4,
        Some(2),
        vec![LogEntry {
            term: 4,
            command: "set k v".to_string(),
        }],
        6,
        5,
        3,
    );

    assert_eq!(n.current_term, 4);
    assert_eq!(n.voted_for, Some(2));
    assert_eq!(n.snapshot_last_included_index, 5);
    assert_eq!(n.snapshot_last_included_term, 3);
    assert_eq!(n.commit_index, 6);
    assert_eq!(n.last_applied, 5);
}
