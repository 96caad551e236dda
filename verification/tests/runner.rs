use std::cell::RefCell;
use std::collections::{HashMap, VecDeque};
use std::rc::Rc;

use raftust_core::config::Config;
use raftust_core::runner::{parse_command, status_text, Note};
use raftust_core::{
    AppendEntriesResponse, Command, CommunicationError, InMemoryStorage, InboundMessage,
    InstallSnapshot, InstallSnapshotResponse, KeyValueStateMachine, LogEntry, NodeId, RaftCommunication,
    RaftMessage, RequestVote, RequestVoteResponse, Role, Runner, SendOutcome, StorageSnapshot,
    StorageStrategy,
};

/// What the test and the channel share: the messages waiting to be
/// received and those sent so far.
#[derive(Default)]
struct Wire {
    inbox: VecDeque<InboundMessage>,
    sent: Vec<(NodeId, RaftMessage)>,
}

/// A channel driven by the test.
struct Scripted {
    wire: Rc<RefCell<Wire>>,
    refuse_start: bool,
    drop_reason: Option<String>,
}

impl Scripted {
    fn new(wire: &Rc<RefCell<Wire>>) -> Self {
        Scripted {
            wire: Rc::clone(wire),
            refuse_start: false,
            drop_reason: None,
        }
    }
}

impl RaftCommunication for Scripted {
    fn start(&mut self, _address: String) -> Result<(), CommunicationError> {
        if self.refuse_start {
            return Err(CommunicationError::Other("address in use".to_string()));
        }
        Ok(())
    }

    fn poll(&mut self) -> Result<Option<InboundMessage>, CommunicationError> {
        Ok(self.wire.borrow_mut().inbox.pop_front())
    }

    fn send(&mut self, to: NodeId, message: RaftMessage) -> SendOutcome {
        self.wire.borrow_mut().sent.push((to, message));
        match &self.drop_reason {
            Some(reason) => SendOutcome::Dropped(reason.clone()),
            None => SendOutcome::Sent,
        }
    }
}

fn config(id: NodeId, peers: &[NodeId], election: u64, heartbeat: u64) -> Config {
    let mut peer_addrs = HashMap::new();
    for p in peers {
        peer_addrs.insert(*p, format!("127.0.0.1:{}", 5000 + p));
    }
    Config {
        id,
        addr: format!("127.0.0.1:{}", 5000 + id),
        peer_addrs,
        election_timeout_ticks: election,
        heartbeat_interval_ticks: heartbeat,
        tick_ms: 100,
    }
}

type TestRunner = Runner<Scripted, InMemoryStorage, KeyValueStateMachine>;

fn runner(id: NodeId, peers: &[NodeId], election: u64, heartbeat: u64) -> (TestRunner, Rc<RefCell<Wire>>) {
    let wire = Rc::new(RefCell::new(Wire::default()));
    let r = Runner::new(
        config(id, peers, election, heartbeat),
        Scripted::new(&wire),
        InMemoryStorage::new(),
        KeyValueStateMachine::new(),
    );
    (r, wire)
}

fn push_inbound(wire: &Rc<RefCell<Wire>>, msg: InboundMessage) {
    wire.borrow_mut().inbox.push_back(msg);
}

fn last_sent(wire: &Rc<RefCell<Wire>>) -> Option<(NodeId, RaftMessage)> {
    wire.borrow().sent.last().cloned()
}

fn info_texts(notes: &[Note]) -> Vec<String> {
    notes
        .iter()
        .filter_map(|n| match n {
            Note::Info(t) => Some(t.clone()),
            Note::Warning(_) => None,
        })
        .collect()
}

#[test]
fn operator_lines_become_commands() {
    assert!(matches!(parse_command("quit"), Some(Command::Shutdown)));
    assert!(matches!(parse_command("EXIT"), Some(Command::Shutdown)));
    assert!(matches!(parse_command("Status"), Some(Command::Status)));
    assert!(matches!(parse_command("election"), Some(Command::ForceElection)));
    match parse_command("propose set k v") {
        Some(Command::Propose(value)) => assert_eq!(value, "set k v"),
        _ => panic!("expected a proposal"),
    }
    assert!(parse_command("propose").is_none());
    assert!(parse_command("PROPOSE x").is_none());
    assert!(parse_command("halt").is_none());
}

#[test]
fn runner_node_starts_as_configured() {
    let (r, _wire) = runner(1, &[2, 3], 7, 2);
    let node = r.node();
    assert_eq!(node.id, 1);
    assert_eq!(node.current_term, 0);
    assert_eq!(node.role, Role::Follower);
    let mut peers = node.peers.clone();
    peers.sort();
    assert_eq!(peers, vec![2, 3]);
    assert_eq!(node.election_timeout_min, 7);
    assert_eq!(node.election_timeout_max, 7);
    assert_eq!(node.current_election_timeout, 7);
    assert_eq!(node.heartbeat_interval, 2);
}

#[test]
fn status_reports_the_node_exactly() {
    let (mut r, _wire) = runner(1, &[2, 3], 5, 1);
    let (keep_running, notes) = r.process_command(Command::Status);
    assert!(keep_running);
    assert_eq!(
        notes,
        vec![Note::Info(
            "id=1 role=Follower term=0 leader=None log_len=0 commit_index=0 last_applied=0 sm={}"
                .to_string()
        )]
    );
}

#[test]
fn status_text_writes_leader_and_role() {
    let mut node = raftust_core::RaftNode::new(4, vec![5], 3, 3, 1);
    node.role = Role::Candidate;
    node.current_term = 12;
    node.leader_id = Some(5);
    assert_eq!(
        status_text(&node, "<state-machine>"),
        "id=4 role=Candidate term=12 leader=Some(5) log_len=0 commit_index=0 last_applied=0 sm=<state-machine>"
    );
}

#[test]
fn shutdown_stops_the_loop() {
    let (mut r, _wire) = runner(1, &[2], 5, 1);
    let (keep_running, notes) = r.process_command(Command::Shutdown);
    assert!(!keep_running);
    assert!(notes.is_empty());
}

#[test]
fn followers_refuse_proposals_with_a_note() {
    let (mut r, _wire) = runner(1, &[2, 3], 5, 1);
    let (keep_running, notes) = r.process_command(Command::Propose("set a 1".to_string()));
    assert!(keep_running);
    assert_eq!(
        notes,
        vec![Note::Info("node 1 is not leader; leader=None".to_string())]
    );
    assert_eq!(r.node().log.len(), 0);
}

#[test]
fn start_fails_when_the_channel_cannot_listen() {
    let wire = Rc::new(RefCell::new(Wire::default()));
    let mut channel = Scripted::new(&wire);
    channel.refuse_start = true;
    let mut r = Runner::new(
        config(1, &[2], 5, 1),
        channel,
        InMemoryStorage::new(),
        KeyValueStateMachine::new(),
    );
    assert_eq!(
        r.start(),
        Err(CommunicationError::Other("address in use".to_string()))
    );
    assert_eq!(r.node().current_term, 0);
}

#[test]
fn start_restores_the_saved_node_and_applies_its_commits() {
    let mut storage = InMemoryStorage::new();
    storage.save(StorageSnapshot {
        node_id: 1,
        current_term: 5,
        voted_for: Some(2),
        log: vec![
            LogEntry { term: 4, command: "set a 1".to_string() },
            LogEntry { term: 5, command: "set b 2".to_string() },
            LogEntry { term: 5, command: "set c 3".to_string() },
        ],
        commit_index: 2,
        last_included_index: 0,
        last_included_term: 0,
        state_machine_snapshot: Vec::new(),
    });
    let wire = Rc::new(RefCell::new(Wire::default()));
    let mut r = Runner::new(
        config(1, &[2, 3], 5, 1),
        Scripted::new(&wire),
        storage,
        KeyValueStateMachine::new(),
    );
    assert!(r.start().is_ok());
    let node = r.node();
    assert_eq!(node.current_term, 5);
    assert_eq!(node.voted_for, Some(2));
    assert_eq!(node.log.len(), 3);
    assert_eq!(node.commit_index, 2);
    assert_eq!(node.last_applied, 2);
    let (_, notes) = r.process_command(Command::Status);
    assert_eq!(
        info_texts(&notes),
        vec![
            "id=1 role=Follower term=5 leader=None log_len=3 commit_index=2 last_applied=2 sm={\"a\": \"1\", \"b\": \"2\"}"
                .to_string()
        ]
    );
}

#[test]
fn election_then_votes_then_replication_commits_and_applies() {
    let (mut r, wire) = runner(1, &[2, 3], 5, 1);
    assert!(r.start().is_ok());

    let (_, notes) = r.process_command(Command::ForceElection);
    assert_eq!(
        info_texts(&notes),
        vec!["node 1 started election for term 1".to_string()]
    );
    assert_eq!(r.node().role, Role::Candidate);

    // One vote besides its own makes a majority of three.
    let channel_votes = InboundMessage {
        from: 2,
        message: RaftMessage::RequestVoteResponse(RequestVoteResponse {
            term: 1,
            vote_granted: true,
            from: 2,
        }),
    };
    push_inbound(&wire, channel_votes);
    let notes = r.poll_communication().unwrap().unwrap();
    assert_eq!(
        info_texts(&notes),
        vec!["node 1 became leader for term 1".to_string()]
    );
    assert_eq!(r.node().role, Role::Leader);

    let (_, notes) = r.process_command(Command::Propose("set k v".to_string()));
    assert_eq!(
        info_texts(&notes),
        vec!["leader 1 accepted proposal: set k v".to_string()]
    );
    assert_eq!(r.node().log.len(), 1);
    assert_eq!(r.node().commit_index, 0);

    push_inbound(
        &wire,
        InboundMessage {
            from: 2,
            message: RaftMessage::AppendEntriesResponse(AppendEntriesResponse {
                term: 1,
                success: true,
                from: 2,
                match_index: 1,
            }),
        },
    );
    let notes = r.poll_communication().unwrap().unwrap();
    assert!(notes.is_empty());
    assert_eq!(r.node().commit_index, 1);
    assert_eq!(r.node().last_applied, 1);

    let (_, notes) = r.process_command(Command::Status);
    assert_eq!(
        info_texts(&notes),
        vec![
            "id=1 role=Leader term=1 leader=Some(1) log_len=1 commit_index=1 last_applied=1 sm={\"k\": \"v\"}"
                .to_string()
        ]
    );
}

#[test]
fn polling_an_empty_channel_changes_nothing() {
    let (mut r, _wire) = runner(1, &[2], 5, 1);
    assert_eq!(r.poll_communication(), Ok(None));
    assert_eq!(r.node().current_term, 0);
}

#[test]
fn vote_requests_are_answered_to_the_sender() {
    let (mut r, wire) = runner(1, &[2, 3], 5, 1);
    push_inbound(
        &wire,
        InboundMessage {
            from: 2,
            message: RaftMessage::RequestVote(RequestVote {
                term: 3,
                candidate_id: 2,
                last_log_index: 0,
                last_log_term: 0,
            }),
        },
    );
    let notes = r.poll_communication().unwrap().unwrap();
    assert!(notes.is_empty());
    assert_eq!(r.node().current_term, 3);
    assert_eq!(r.node().voted_for, Some(2));
    assert_eq!(
        last_sent(&wire),
        Some((
            2,
            RaftMessage::RequestVoteResponse(RequestVoteResponse {
                term: 3,
                vote_granted: true,
                from: 1,
            })
        ))
    );
}

#[test]
fn snapshot_offers_are_refused() {
    let (mut r, wire) = runner(1, &[2], 5, 1);
    push_inbound(
        &wire,
        InboundMessage {
            from: 2,
            message: RaftMessage::InstallSnapshot(InstallSnapshot {
                term: 4,
                leader_id: 2,
                last_included_index: 10,
                last_included_term: 4,
                data: vec![1, 2, 3],
            }),
        },
    );
    let notes = r.poll_communication().unwrap().unwrap();
    assert!(notes.is_empty());
    assert_eq!(r.node().current_term, 0);
    assert_eq!(
        last_sent(&wire),
        Some((
            2,
            RaftMessage::InstallSnapshotResponse(InstallSnapshotResponse {
                term: 0,
                from: 1,
                success: false,
            })
        ))
    );
}

#[test]
fn dropped_sends_become_warnings() {
    let wire = Rc::new(RefCell::new(Wire::default()));
    let mut channel = Scripted::new(&wire);
    channel.drop_reason = Some("peer unreachable".to_string());
    let mut r = Runner::new(
        config(1, &[2], 5, 1),
        channel,
        InMemoryStorage::new(),
        KeyValueStateMachine::new(),
    );
    let (_, notes) = r.process_command(Command::ForceElection);
    assert_eq!(
        notes,
        vec![
            Note::Info("node 1 started election for term 1".to_string()),
            Note::Warning("node 1 dropped outbound message to 2: peer unreachable".to_string()),
        ]
    );
}

#[test]
fn ticks_start_an_election_when_the_timeout_runs_out() {
    let (mut r, _wire) = runner(1, &[2, 3], 2, 1);
    assert!(r.on_tick().is_empty());
    assert_eq!(r.node().role, Role::Follower);
    assert!(r.on_tick().is_empty());
    assert_eq!(r.node().role, Role::Candidate);
    assert_eq!(r.node().current_term, 1);
}


#[test]
fn stray_append_answers_are_ignored_not_dropped() {
    let (mut r, wire) = runner(1, &[2, 3], 5, 1);
    push_inbound(
        &wire,
        InboundMessage {
            from: 2,
            message: RaftMessage::AppendEntriesResponse(AppendEntriesResponse {
                term: 0,
                success: true,
                from: 2,
                match_index: usize::MAX,
            }),
        },
    );
    let notes = r.poll_communication().unwrap().unwrap();
    assert!(notes.is_empty());
    assert_eq!(r.node().role, Role::Follower);
    assert_eq!(r.node().commit_index, 0);
}
