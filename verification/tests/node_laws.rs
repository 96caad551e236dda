use raftust_core::{
    AppendEntries, LogEntry, NodeId, OutboundMessage, RaftNode, RequestVote, Role,
    StorageSnapshot,
};

fn entry(term: u64, command: &str) -> LogEntry {
    LogEntry {
        term,
        command: command.to_string(),
    }
}

fn node_with_peers(id: NodeId, peers: Vec<NodeId>) -> RaftNode {
    RaftNode::new(id, peers, 3, 3, 1)
}

#[test]
fn majority_is_more_than_half_of_the_cluster() {
    assert_eq!(node_with_peers(1, vec![]).majority(), 1);
    assert_eq!(node_with_peers(1, vec![2]).majority(), 2);
    assert_eq!(node_with_peers(1, vec![2, 3]).majority(), 2);
    assert_eq!(node_with_peers(1, vec![2, 3, 4]).majority(), 3);
    assert_eq!(node_with_peers(1, vec![2, 3, 4, 5]).majority(), 3);
}

#[test]
fn node_votes_once_per_term() {
    let mut n = node_with_peers(2, vec![1, 3]);
    let first = n.handle_request_vote(RequestVote {
        term: 1,
        candidate_id: 1,
        last_log_index: 0,
        last_log_term: 0,
    });
    let second = n.handle_request_vote(RequestVote {
        term: 1,
        candidate_id: 3,
        last_log_index: 5,
        last_log_term: 1,
    });
    let repeat = n.handle_request_vote(RequestVote {
        term: 1,
        candidate_id: 1,
        last_log_index: 0,
        last_log_term: 0,
    });
    assert!(first.vote_granted);
    assert!(!second.vote_granted);
    assert!(repeat.vote_granted);
    assert_eq!(n.voted_for, Some(1));
}

#[test]
fn newer_term_clears_the_vote() {
    let mut n = node_with_peers(2, vec![1, 3]);
    n.handle_request_vote(RequestVote {
        term: 1,
        candidate_id: 1,
        last_log_index: 0,
        last_log_term: 0,
    });
    let resp = n.handle_request_vote(RequestVote {
        term: 2,
        candidate_id: 3,
        last_log_index: 0,
        last_log_term: 0,
    });
    assert!(resp.vote_granted);
    assert_eq!(resp.term, 2);
    assert_eq!(n.voted_for, Some(3));
}

#[test]
fn stale_term_requests_are_refused_without_change() {
    let mut n = node_with_peers(2, vec![1, 3]);
    n.current_term = 5;
    let resp = n.handle_append_entries(AppendEntries {
        term: 4,
        leader_id: 1,
        prev_log_index: 0,
        prev_log_term: 0,
        entries: vec![entry(4, "x")],
        leader_commit: 1,
    });
    assert!(!resp.success);
    assert_eq!(resp.term, 5);
    assert_eq!(resp.match_index, 0);
    assert_eq!(n.current_term, 5);
    assert!(n.log.is_empty());
}

#[test]
fn append_keeps_matching_entries_and_appends_new_ones() {
    let mut n = node_with_peers(2, vec![1, 3]);
    n.log.push(entry(1, "a"));
    n.log.push(entry(1, "b"));
    let resp = n.handle_append_entries(AppendEntries {
        term: 1,
        leader_id: 1,
        prev_log_index: 0,
        prev_log_term: 0,
        entries: vec![entry(1, "a"), entry(1, "b"), entry(1, "c")],
        leader_commit: 0,
    });
    assert!(resp.success);
    assert_eq!(resp.match_index, 3);
    assert_eq!(n.log.len(), 3);
    assert_eq!(n.log[2].command, "c");
    assert_eq!(n.leader_id, Some(1));
}

#[test]
fn append_rejects_missing_previous_entry_with_hint() {
    let mut n = node_with_peers(2, vec![1, 3]);
    n.log.push(entry(1, "a"));
    let past_end = n.handle_append_entries(AppendEntries {
        term: 1,
        leader_id: 1,
        prev_log_index: 4,
        prev_log_term: 1,
        entries: vec![],
        leader_commit: 0,
    });
    assert!(!past_end.success);
    assert_eq!(past_end.match_index, 1);

    let wrong_term = n.handle_append_entries(AppendEntries {
        term: 1,
        leader_id: 1,
        prev_log_index: 1,
        prev_log_term: 7,
        entries: vec![],
        leader_commit: 0,
    });
    assert!(!wrong_term.success);
    assert_eq!(wrong_term.match_index, 0);
}

#[test]
fn leader_log_only_grows_with_proposals() {
    let mut n = node_with_peers(1, vec![]);
    n.role = Role::Leader;
    n.current_term = 3;
    n.propose_command("one").expect("leader accepts");
    let before = n.log.clone();
    n.propose_command("two").expect("leader accepts");
    assert_eq!(&n.log[..before.len()], &before[..]);
    assert_eq!(n.log[1].term, 3);
    assert_eq!(n.commit_index, 2);
}

#[test]
fn follower_refuses_proposals() {
    let mut n = node_with_peers(1, vec![2]);
    assert!(n.propose_command("x").is_none());
    assert!(n.log.is_empty());
}

#[test]
fn compaction_keeps_the_last_term_for_elections() {
    let mut n = node_with_peers(1, vec![2]);
    n.role = Role::Leader;
    n.current_term = 2;
    n.propose_command("a");
    n.propose_command("b");
    n.commit_to(2);
    assert!(n.compact_committed());
    assert_eq!(n.log.len(), 0);
    assert_eq!(n.snapshot_last_included_term, 2);

    let mut voter = node_with_peers(1, vec![2]);
    voter.restore_from_storage(2, None, vec![], 2, 2, 2);
    let resp = voter.handle_request_vote(RequestVote {
        term: 3,
        candidate_id: 2,
        last_log_index: 2,
        last_log_term: 2,
    });
    assert!(resp.vote_granted);
    let stale = voter.handle_request_vote(RequestVote {
        term: 4,
        candidate_id: 2,
        last_log_index: 9,
        last_log_term: 1,
    });
    assert!(!stale.vote_granted);
}

#[test]
fn compaction_refuses_when_nothing_new_is_committed() {
    let mut n = node_with_peers(1, vec![2]);
    n.log.push(entry(1, "a"));
    assert!(!n.compact_committed());
    assert_eq!(n.log.len(), 1);
}

#[test]
fn restore_from_a_saved_snapshot_gives_back_the_state() {
    let mut saved = node_with_peers(1, vec![2]);
    saved.role = Role::Leader;
    saved.current_term = 4;
    saved.voted_for = Some(1);
    saved.propose_command("a");
    saved.propose_command("b");
    saved.commit_to(1);
    let snapshot = StorageSnapshot::from_node(&saved, vec![9]);
    assert_eq!(snapshot.state_machine_snapshot, vec![9]);

    let mut restored = node_with_peers(1, vec![2]);
    restored.restore_from_storage(
        snapshot.current_term,
        snapshot.voted_for,
        snapshot.log.clone(),
        snapshot.commit_index,
        snapshot.last_included_index,
        snapshot.last_included_term,
    );
    assert_eq!(restored.current_term, saved.current_term);
    assert_eq!(restored.voted_for, saved.voted_for);
    assert_eq!(restored.log, saved.log);
    assert_eq!(restored.commit_index, saved.commit_index);
    assert_eq!(restored.role, Role::Follower);
}

#[test]
fn restore_clamps_commit_into_the_log() {
    let mut n = node_with_peers(1, vec![2]);
    n.restore_from_storage(1, None, vec![entry(1, "a")], 9, 0, 0);
    assert_eq!(n.commit_index, 1);
    n.restore_from_storage(1, None, vec![entry(1, "a")], 0, 3, 1);
    assert_eq!(n.commit_index, 3);
}

#[test]
fn election_timeouts_are_drawn_from_the_range() {
    let mut distinct = std::collections::BTreeSet::new();
    for _ in 0..64 {
        let mut n = RaftNode::new(1, vec![2, 3], 3, 10, 1);
        let mut ticks = 0;
        while n.role != Role::Candidate {
            n.tick();
            ticks += 1;
            assert!(ticks <= 10);
        }
        assert!(ticks >= 3);
        distinct.insert(ticks);
    }
    assert!(distinct.len() > 1);
}

#[test]
fn leader_sends_heartbeats_on_its_interval() {
    let mut n = RaftNode::new(1, vec![2, 3], 3, 3, 2);
    n.start_election();
    n.handle_request_vote_response(raftust_core::RequestVoteResponse {
        term: 1,
        vote_granted: true,
        from: 3,
    });
    assert_eq!(n.role, Role::Leader);
    assert!(n.tick().is_empty());
    let beats = n.tick();
    assert_eq!(beats.len(), 2);
    for msg in beats {
        match msg {
            OutboundMessage::AppendEntries { message, .. } => {
                assert_eq!(message.term, 1);
                assert!(message.entries.is_empty());
            }
            _ => panic!("expected heartbeat"),
        }
    }
}

#[test]
fn commit_index_never_moves_back() {
    let mut n = node_with_peers(2, vec![1, 3]);
    let resp = n.handle_append_entries(AppendEntries {
        term: 1,
        leader_id: 1,
        prev_log_index: 0,
        prev_log_term: 0,
        entries: vec![entry(1, "a"), entry(1, "b"), entry(1, "c")],
        leader_commit: 2,
    });
    assert!(resp.success);
    assert_eq!(n.commit_index, 2);

    // A late heartbeat naming an older commit point leaves it in place.
    let resp = n.handle_append_entries(AppendEntries {
        term: 1,
        leader_id: 1,
        prev_log_index: 3,
        prev_log_term: 1,
        entries: Vec::new(),
        leader_commit: 1,
    });
    assert!(resp.success);
    assert_eq!(n.commit_index, 2);

    // So does a retransmission of entries already held.
    let resp = n.handle_append_entries(AppendEntries {
        term: 1,
        leader_id: 1,
        prev_log_index: 1,
        prev_log_term: 1,
        entries: vec![entry(1, "b")],
        leader_commit: 3,
    });
    assert!(resp.success);
    assert_eq!(n.log.len(), 3);
    assert_eq!(n.commit_index, 3);
}
