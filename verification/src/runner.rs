//! A node together with its channel, storage and state machine: what one
//! turn of the event loop does with a tick, a message or a command. The loop
//! itself, with its clock and its input, belongs to the program around it.
//!
//! The runner works with the settings of `Config` (one election timeout, so
//! the node's timeout range is that single value) and with state machines
//! that only apply commands and describe themselves: a snapshot offered by a
//! leader is therefore refused, and the state saved after each turn carries
//! no state-machine data. The log is compacted only where a caller asks the
//! node for it (`RaftNode::compact_committed`); a snapshot found in storage
//! at start is restored into the node.

use std::collections::HashMap;

use vstd::prelude::*;

use crate::communication::{CommunicationError, InboundMessage, RaftCommunication, RaftMessage, SendOutcome};
use crate::config::Config;
use crate::node::RaftNode;
use crate::reaction::{as_replies, as_reply, is_admissible, react};
use crate::state_machine::StateMachineStrategy;
use crate::storage::{SnapshotView, StorageSnapshot, StorageStrategy};
use crate::text::{chars_of, eq_ignore_case_at, has_prefix_at, push_decimal, push_str};
use crate::types::{LogEntry, NodeId, OutboundMessage, Role};

verus! {

broadcast use {vstd::std_specs::hash::group_hash_axioms, vstd::seq_lib::group_seq_properties};

/// An instruction from the operator.
#[derive(Debug)]
pub enum Command {
    Propose(String),
    ForceElection,
    Status,
    Shutdown,
}

/// Something worth telling the operator.
#[derive(Debug, Clone, PartialEq, Eq)]
pub enum Note {
    Info(String),
    Warning(String),
}

// -------------------------------------------------------------------
// Operator input
// -------------------------------------------------------------------
/// The command a line of operator input stands for: `quit` or `exit`,
/// `status`, `election` (keywords in any letter case), or `propose <value>`.
pub open spec fn command_kind(input: Seq<char>) -> int {
    if crate::text::eq_ignore_ascii_case(input, "quit"@) || crate::text::eq_ignore_ascii_case(
        input,
        "exit"@,
    ) {
        0
    } else if crate::text::eq_ignore_ascii_case(input, "status"@) {
        1
    } else if crate::text::eq_ignore_ascii_case(input, "election"@) {
        2
    } else if crate::text::starts_with(input, "propose "@) {
        3
    } else {
        4
    }
}

/// Reads a (trimmed) line of operator input.
pub fn parse_command(input: &str) -> (r: Option<Command>)
    ensures
        command_kind(input@) == 0 ==> r matches Some(Command::Shutdown),
        command_kind(input@) == 1 ==> r matches Some(Command::Status),
        command_kind(input@) == 2 ==> r matches Some(Command::ForceElection),
        command_kind(input@) == 3 ==> (r matches Some(Command::Propose(value)) && value@
            == input@.skip("propose "@.len() as int)),
        command_kind(input@) == 4 ==> r is None,
{
    let v = chars_of(input);
    proof {
        assert(v@.subrange(0, v@.len() as int) == v@);
        reveal_strlit("propose ");
    }
    if eq_ignore_case_at(&v, 0, v.len(), "quit") || eq_ignore_case_at(&v, 0, v.len(), "exit") {
        return Some(Command::Shutdown);
    }
    if eq_ignore_case_at(&v, 0, v.len(), "status") {
        return Some(Command::Status);
    }
    if eq_ignore_case_at(&v, 0, v.len(), "election") {
        return Some(Command::ForceElection);
    }
    if has_prefix_at(&v, 0, v.len(), "propose ") {
        let value = input.substring_char(8, v.len()).to_owned();
        proof {
            assert(value@ =~= input@.skip(8));
        }
        return Some(Command::Propose(value));
    }
    None
}

// -------------------------------------------------------------------
// Text for the operator
// -------------------------------------------------------------------
/// How `{:?}` writes a role.
pub open spec fn role_text(role: Role) -> Seq<char> {
    match role {
        Role::Follower => "Follower"@,
        Role::Candidate => "Candidate"@,
        Role::Leader => "Leader"@,
    }
}

/// How `{:?}` writes an optional node id.
pub open spec fn optional_id_text(id: Option<NodeId>) -> Seq<char> {
    match id {
        Some(v) => "Some("@ + crate::text::decimal(v as nat) + ")"@,
        None => "None"@,
    }
}

fn push_role(out: &mut String, role: Role)
    ensures
        final(out)@ == old(out)@ + role_text(role),
{
    match role {
        Role::Follower => push_str(out, "Follower"),
        Role::Candidate => push_str(out, "Candidate"),
        Role::Leader => push_str(out, "Leader"),
    }
}

fn push_optional_id(out: &mut String, id: Option<NodeId>)
    ensures
        final(out)@ == old(out)@ + optional_id_text(id),
{
    match id {
        Some(v) => {
            push_str(out, "Some(");
            push_decimal(out, v);
            push_str(out, ")");
            proof {
                assert(out@ =~= old(out)@ + optional_id_text(id));
            }
        },
        None => push_str(out, "None"),
    }
}

/// The status line for `node` with the state machine described as `sm`.
pub open spec fn status_text_spec(node: &RaftNode, sm: Seq<char>) -> Seq<char> {
    "id="@ + crate::text::decimal(node.id as nat) + " role="@ + role_text(node.role) + " term="@
        + crate::text::decimal(node.current_term as nat) + " leader="@ + optional_id_text(
        node.leader_id,
    ) + " log_len="@ + crate::text::decimal(node.log@.len()) + " commit_index="@
        + crate::text::decimal(node.commit_index as nat) + " last_applied="@ + crate::text::decimal(
        node.last_applied as nat,
    ) + " sm="@ + sm
}

/// The status line for `node` with the state machine described as `sm`.
pub fn status_text(node: &RaftNode, sm: &str) -> (r: String)
    ensures
        r@ == status_text_spec(node, sm@),
{
    let mut out = String::new();
    push_str(&mut out, "id=");
    push_decimal(&mut out, node.id);
    push_str(&mut out, " role=");
    push_role(&mut out, node.role);
    push_str(&mut out, " term=");
    push_decimal(&mut out, node.current_term);
    push_str(&mut out, " leader=");
    push_optional_id(&mut out, node.leader_id);
    push_str(&mut out, " log_len=");
    push_decimal(&mut out, node.log.len() as u64);
    push_str(&mut out, " commit_index=");
    push_decimal(&mut out, node.commit_index as u64);
    push_str(&mut out, " last_applied=");
    push_decimal(&mut out, node.last_applied as u64);
    push_str(&mut out, " sm=");
    push_str(&mut out, sm);
    proof {
        assert(out@ =~= status_text_spec(node, sm@));
    }
    out
}

/// What a node that is not the leader answers a proposal with.
pub open spec fn not_leader_text(node: &RaftNode) -> Seq<char> {
    "node "@ + crate::text::decimal(node.id as nat) + " is not leader; leader="@
        + optional_id_text(node.leader_id)
}

/// `prefix`, the decimal `a`, `middle`, the decimal `b`.
fn two_numbers(prefix: &str, a: u64, middle: &str, b: u64) -> (r: String)
    ensures
        r@ == prefix@ + crate::text::decimal(a as nat) + middle@ + crate::text::decimal(b as nat),
{
    let mut out = String::new();
    push_str(&mut out, prefix);
    push_decimal(&mut out, a);
    push_str(&mut out, middle);
    push_decimal(&mut out, b);
    proof {
        assert(out@ =~= prefix@ + crate::text::decimal(a as nat) + middle@ + crate::text::decimal(
            b as nat,
        ));
    }
    out
}

// -------------------------------------------------------------------
// The runner
// -------------------------------------------------------------------
/// The ids of `m`, each once, in the order the map is walked.
fn node_ids_of(m: &HashMap<NodeId, String>) -> (r: Vec<NodeId>)
    ensures
        r@.no_duplicates(),
        r@.to_set() == m@.dom(),
{
    let mut r: Vec<NodeId> = Vec::new();
    let keys = m.keys();
    let ghost ks: Seq<NodeId> = vstd::std_specs::iter::IteratorSpec::remaining(&keys).unref();
    assert(ks.no_duplicates());
    assert(ks.to_set() == m@.dom());
    for k in it: keys
        invariant
            it.seq().unref() == ks,
            ks.no_duplicates(),
            ks.to_set() == m@.dom(),
            r@ == ks.take(it.index()),
    {
        proof {
            assert(*k == ks[it.index()]);
            assert(ks.take(it.index() + 1) == ks.take(it.index()).push(*k));
        }
        r.push(*k);
    }
    proof {
        assert(ks.take(ks.len() as int) == ks);
    }
    r
}

/// `new` is `mid` after the committed entries have been handed to the state
/// machine: only the applied index moved.
pub open spec fn applied_committed(mid: &RaftNode, new: &RaftNode) -> bool {
    &&& new.last_applied == mid.applied_after_take()
    &&& new.log@ == mid.log@
    &&& new.snapshot_last_included_index == mid.snapshot_last_included_index
    &&& new.snapshot_last_included_term == mid.snapshot_last_included_term
    &&& new.commit_index == mid.commit_index
    &&& new.same_election_state(mid)
    &&& new.same_timers(mid)
    &&& new.same_config(mid)
}

/// `new` is `old` restored from the snapshot `s`, or `old` itself when the
/// snapshot's log would run the last index out of range.
pub open spec fn restored_from(old: &RaftNode, new: &RaftNode, s: SnapshotView) -> bool {
    if s.last_included_index + s.log.len() < usize::MAX {
        RaftNode::restored(
            old,
            new,
            s.current_term,
            s.voted_for,
            s.log,
            s.commit_index,
            s.last_included_index,
            s.last_included_term,
        )
    } else {
        *new == *old
    }
}

/// `r` reports that a message from `from` was dropped as out of range.
pub open spec fn dropped_note(
    r: Result<Option<Vec<Note>>, CommunicationError>,
    node: &RaftNode,
    from: NodeId,
) -> bool {
    &&& r matches Ok(Some(notes))
    &&& notes@.len() == 1
    &&& notes@[0] matches Note::Warning(t)
    &&& t@ == "node "@ + crate::text::decimal(node.id as nat)
        + " dropped an out-of-range message from "@ + crate::text::decimal(from as nat)
}

/// `r` first reports that `node` became leader of its term.
pub open spec fn leader_note(r: Result<Option<Vec<Note>>, CommunicationError>, node: &RaftNode) -> bool {
    &&& r matches Ok(Some(notes))
    &&& notes@.len() >= 1
    &&& notes@[0] matches Note::Info(t)
    &&& t@ == "node "@ + crate::text::decimal(node.id as nat) + " became leader for term "@
        + crate::text::decimal(node.current_term as nat)
}

/// `r` holds the notes of a reaction: the leader note first when the node
/// just became leader, then a warning for each reply the channel dropped
/// among the handovers `new` adds to `old`.
pub open spec fn reply_notes(
    r: Result<Option<Vec<Note>>, CommunicationError>,
    id: NodeId,
    became_leader: bool,
    old: Seq<Handover>,
    new: Seq<Handover>,
) -> bool {
    r matches Ok(Some(notes)) && notes_report(
        id,
        if became_leader {
            notes@.take(1)
        } else {
            Seq::empty()
        },
        notes@,
        old,
        new,
    )
}

/// `cmd` changes `node` and hands messages and a snapshot over: an election
/// whose term can still grow, or a proposal to a leader whose log can.
pub open spec fn command_runs(node: &RaftNode, cmd: &Command) -> bool {
    ||| cmd is ForceElection && node.current_term < u64::MAX
    ||| cmd is Propose && node.role == Role::Leader && node.last_index() + 1 < usize::MAX
}

/// The node's tick cannot run its term out of range.
pub open spec fn can_tick(node: &RaftNode) -> bool {
    node.role != Role::Leader && node.election_elapsed + 1 >= node.current_election_timeout
        ==> node.current_term < u64::MAX
}

/// A message handed to the channel, with the channel's answer.
pub type Handover = (NodeId, RaftMessage, SendOutcome);

/// The warning for a message to `to` that the channel dropped for `reason`.
pub open spec fn drop_warning(id: NodeId, to: NodeId, reason: Seq<char>) -> Seq<char> {
    "node "@ + crate::text::decimal(id as nat) + " dropped outbound message to "@
        + crate::text::decimal(to as nat) + ": "@ + reason
}

/// `n` is the warning for the handover `h` when the channel dropped it.
pub open spec fn is_drop_note(id: NodeId, n: Note, h: Handover) -> bool {
    h.2 matches SendOutcome::Dropped(reason) && n matches Note::Warning(t) && t@ == drop_warning(
        id,
        h.0,
        reason@,
    )
}

/// `added` holds, in order, one warning for each handover in `hs` that the
/// channel dropped, and nothing else.
pub open spec fn reports_drops(id: NodeId, added: Seq<Note>, hs: Seq<Handover>) -> bool
    decreases hs.len(),
{
    if hs.len() == 0 {
        added.len() == 0
    } else if hs.last().2 is Sent {
        reports_drops(id, added, hs.drop_last())
    } else {
        &&& added.len() > 0
        &&& is_drop_note(id, added.last(), hs.last())
        &&& reports_drops(id, added.drop_last(), hs.drop_last())
    }
}

/// `new` is `old` with the messages `msgs` handed over after it, in order.
pub open spec fn hands_over(old: Seq<Handover>, new: Seq<Handover>, msgs: Seq<(NodeId, RaftMessage)>) -> bool {
    &&& new.len() == old.len() + msgs.len()
    &&& new.take(old.len() as int) == old
    &&& forall|i: int|
        0 <= i < msgs.len() ==> (#[trigger] new[old.len() + i].0, new[old.len() + i].1) == msgs[i]
}

/// `new_notes` is `old_notes` followed by the warnings for what the channel
/// dropped among the handovers `new` adds to `old`.
pub open spec fn notes_report(
    id: NodeId,
    old_notes: Seq<Note>,
    new_notes: Seq<Note>,
    old: Seq<Handover>,
    new: Seq<Handover>,
) -> bool {
    &&& old_notes.is_prefix_of(new_notes)
    &&& reports_drops(id, new_notes.skip(old_notes.len() as int), new.skip(old.len() as int))
}

/// The snapshot a runner saves for `node`: its persistent state, with no
/// state machine data.
pub open spec fn saved_view(node: &RaftNode) -> SnapshotView {
    SnapshotView {
        node_id: node.id,
        current_term: node.current_term,
        voted_for: node.voted_for,
        log: node.log@,
        commit_index: node.commit_index,
        last_included_index: node.snapshot_last_included_index,
        last_included_term: node.snapshot_last_included_term,
        state_machine_snapshot: Seq::empty(),
    }
}

/// Handing over one more message: the handovers grow by it, and the notes by
/// its warning when it was dropped.
proof fn lemma_one_more_handover(
    id: NodeId,
    old_notes: Seq<Note>,
    notes: Seq<Note>,
    new_notes: Seq<Note>,
    old: Seq<Handover>,
    hs: Seq<Handover>,
    h: Handover,
    msgs: Seq<(NodeId, RaftMessage)>,
)
    requires
        hands_over(old, hs, msgs),
        notes_report(id, old_notes, notes, old, hs),
        h.2 is Sent ==> new_notes == notes,
        h.2 is Dropped ==> new_notes.len() == notes.len() + 1 && new_notes.drop_last() == notes
            && is_drop_note(id, new_notes.last(), h),
    ensures
        hands_over(old, hs.push(h), msgs.push((h.0, h.1))),
        notes_report(id, old_notes, new_notes, old, hs.push(h)),
{
    let hs2 = hs.push(h);
    let m2 = msgs.push((h.0, h.1));
    assert(hs2.take(old.len() as int) =~= old) by {
        assert(hs.take(old.len() as int) == old);
    }
    assert forall|i: int| 0 <= i < m2.len() implies (#[trigger] hs2[old.len() + i].0, hs2[old.len()
        + i].1) == m2[i] by {
        if i < msgs.len() {
            assert(hs2[old.len() + i] == hs[old.len() + i]);
        }
    }
    let tail = hs2.skip(old.len() as int);
    assert(tail.drop_last() =~= hs.skip(old.len() as int));
    assert(tail.last() == h);
    let added = new_notes.skip(old_notes.len() as int);
    if h.2 is Dropped {
        assert(old_notes.is_prefix_of(new_notes)) by {
            assert(new_notes.subrange(0, old_notes.len() as int) =~= notes.subrange(
                0,
                old_notes.len() as int,
            ));
        }
        assert(added.drop_last() =~= notes.skip(old_notes.len() as int));
        assert(added.last() == new_notes.last());
    }
}

/// What a runner has exchanged with the parts it drives, in order: the
/// messages handed to the channel with its answers, the snapshots handed to
/// the storage, what each poll of the channel gave, the commands handed to the
/// state machine, the addresses the channel was started on with its answers,
/// the snapshots asked of the storage with what it gave back, and the
/// descriptions the state machine gave of itself.
#[verifier::ext_equal]
pub struct Records {
    pub handed: Seq<Handover>,
    pub saved: Seq<SnapshotView>,
    pub polled: Seq<Result<Option<InboundMessage>, CommunicationError>>,
    pub applied: Seq<Seq<char>>,
    pub started: Seq<(Seq<char>, Result<(), CommunicationError>)>,
    pub loaded: Seq<(NodeId, Option<SnapshotView>)>,
    pub described: Seq<Seq<char>>,
}

/// Nothing exchanged yet.
pub open spec fn no_records() -> Records {
    Records {
        handed: Seq::empty(),
        saved: Seq::empty(),
        polled: Seq::empty(),
        applied: Seq::empty(),
        started: Seq::empty(),
        loaded: Seq::empty(),
        described: Seq::empty(),
    }
}

/// `a` and `b` agree on what was polled, started, loaded and described.
pub open spec fn same_inputs(a: Records, b: Records) -> bool {
    &&& a.polled == b.polled
    &&& a.started == b.started
    &&& a.loaded == b.loaded
    &&& a.described == b.described
}

/// The commands of `entries`, in order.
pub open spec fn commands_of(entries: Seq<LogEntry>) -> Seq<Seq<char>> {
    entries.map_values(|e: LogEntry| e.command@)
}

/// The snapshot `o` holds, as plain values.
pub open spec fn snapshot_view_of(o: Option<StorageSnapshot>) -> Option<SnapshotView> {
    match o {
        Some(s) => Some(s@),
        None => None,
    }
}

/// `new` is `old` after taking the snapshot `loaded` from storage: restored
/// from it when there is one, unchanged otherwise.
pub open spec fn restored_from_load(old: &RaftNode, new: &RaftNode, loaded: Option<SnapshotView>) -> bool {
    match loaded {
        Some(s) => restored_from(old, new, s),
        None => *new == *old,
    }
}

/// One node at work: its state, its settings, the channel to its peers, the
/// storage that keeps it across restarts and the application it drives.
pub struct Runner<TCommunication, TStorage, TStateMachine> where
    TCommunication: RaftCommunication,
    TStorage: StorageStrategy,
    TStateMachine: StateMachineStrategy,
 {
    config: Config,
    node: RaftNode,
    communication: TCommunication,
    storage: TStorage,
    state_machine: TStateMachine,
    records: Ghost<Records>,
}

impl<TCommunication, TStorage, TStateMachine> Runner<TCommunication, TStorage, TStateMachine> where
    TCommunication: RaftCommunication,
    TStorage: StorageStrategy,
    TStateMachine: StateMachineStrategy,
 {
    /// The node this runner drives.
    pub closed spec fn node_state(&self) -> RaftNode {
        self.node
    }

    pub closed spec fn wf(&self) -> bool {
        &&& self.node.wf()
        &&& self.config.id == self.node.id
    }

    /// The address the channel is started on.
    pub closed spec fn listen_address(&self) -> Seq<char> {
        self.config.addr@
    }

    /// Everything exchanged so far with the channel, storage and state machine.
    pub closed spec fn records(&self) -> Records {
        self.records@
    }

    /// Every message handed to the channel so far, with the channel's answer,
    /// in order.
    pub open spec fn handed(&self) -> Seq<Handover> {
        self.records().handed
    }

    /// Every snapshot handed to the storage so far, in order.
    pub open spec fn saved(&self) -> Seq<SnapshotView> {
        self.records().saved
    }

    /// Every command handed to the state machine so far, in order.
    pub open spec fn applied(&self) -> Seq<Seq<char>> {
        self.records().applied
    }

    /// A runner for the node that `config` describes, with the configured
    /// peers (in the order the peer map is walked) and a fixed election
    /// timeout of `config.election_timeout_ticks`.
    pub fn new(
        config: Config,
        communication: TCommunication,
        storage: TStorage,
        state_machine: TStateMachine,
    ) -> (r: Self)
        requires
            config.election_timeout_ticks > 0,
        ensures
            r.wf(),
            r.node_state().id == config.id,
            r.node_state().peers@.no_duplicates(),
            r.node_state().peers@.to_set() == config.peer_addrs@.dom(),
            r.node_state().current_term == 0,
            r.node_state().role == Role::Follower,
            r.node_state().log@.len() == 0,
            r.node_state().election_timeout_min == config.election_timeout_ticks,
            r.node_state().election_timeout_max == config.election_timeout_ticks,
            r.node_state().heartbeat_interval == config.heartbeat_interval_ticks,
            r.listen_address() == config.addr@,
            r.records() == no_records(),
    {
        let peers = node_ids_of(&config.peer_addrs);
        let node = RaftNode::new(
            config.id,
            peers,
            config.election_timeout_ticks,
            config.election_timeout_ticks,
            config.heartbeat_interval_ticks,
        );
        Runner {
            config,
            node,
            communication,
            storage,
            state_machine,
            records: Ghost(no_records()),
        }
    }

    /// The node this runner drives.
    pub fn node(&self) -> (r: &RaftNode)
        ensures
            *r == self.node_state(),
    {
        &self.node
    }

    /// Hands `message` to the channel; a drop comes back as a warning.
    fn send_or_log(&mut self, to: NodeId, message: RaftMessage) -> (r: Option<Note>)
        ensures
            final(self).node_state() == old(self).node_state(),
            final(self).saved() == old(self).saved(),
            final(self).handed().len() == old(self).handed().len() + 1,
            final(self).handed().drop_last() == old(self).handed(),
            final(self).handed().last().0 == to,
            final(self).handed().last().1 == message,
            final(self).handed().last().2 is Sent ==> r is None,
            final(self).handed().last().2 is Dropped ==> (r matches Some(n) && is_drop_note(
                old(self).node_state().id,
                n,
                final(self).handed().last(),
            )),
            final(self).applied() == old(self).applied(),
            same_inputs(final(self).records(), old(self).records()),
            final(self).wf() == old(self).wf(),
            final(self).listen_address() == old(self).listen_address(),
    {
        let ghost m = message;
        let outcome = self.communication.send(to, message);
        proof {
            self.records@ = Records { handed: self.records@.handed.push((to, m, outcome)), ..self.records@ };
        }
        match outcome {
            SendOutcome::Sent => None,
            SendOutcome::Dropped(reason) => {
                let mut text = two_numbers("node ", self.node.id, " dropped outbound message to ", to);
                push_str(&mut text, ": ");
                push_str(&mut text, reason.as_str());
                proof {
                    assert(text@ =~= drop_warning(self.node.id, to, reason@));
                }
                Some(Note::Warning(text))
            },
        }
    }

    /// Hands the messages `replies` to the channel in order, adding a
    /// warning to `notes` for each one dropped.
    fn send_all(&mut self, replies: Vec<(NodeId, RaftMessage)>, notes: &mut Vec<Note>)
        ensures
            final(self).node_state() == old(self).node_state(),
            final(self).saved() == old(self).saved(),
            final(self).applied() == old(self).applied(),
            same_inputs(final(self).records(), old(self).records()),
            final(self).wf() == old(self).wf(),
            final(self).listen_address() == old(self).listen_address(),
            hands_over(old(self).handed(), final(self).handed(), replies@),
            notes_report(
                old(self).node_state().id,
                old(notes)@,
                final(notes)@,
                old(self).handed(),
                final(self).handed(),
            ),
    {
        let ghost all = replies@;
        let ghost id = self.node.id;
        let mut rest = replies;
        proof {
            assert(old(self).handed().take(old(self).handed().len() as int) =~= old(self).handed());
            assert(old(notes)@.is_prefix_of(notes@)) by {
                assert(notes@.subrange(0, notes@.len() as int) =~= notes@);
            }
            assert(notes@.skip(notes@.len() as int) =~= Seq::<Note>::empty());
            assert(self.handed().skip(self.handed().len() as int) =~= Seq::<Handover>::empty());
            assert(all.take(0) =~= Seq::<(NodeId, RaftMessage)>::empty());
        }
        while rest.len() > 0
            invariant
                self.node_state() == old(self).node_state(),
                self.saved() == old(self).saved(),
                self.applied() == old(self).applied(),
                same_inputs(self.records(), old(self).records()),
                self.wf() == old(self).wf(),
                self.listen_address() == old(self).listen_address(),
                id == old(self).node_state().id,
                rest@.len() <= all.len(),
                rest@ == all.skip(all.len() - rest@.len()),
                hands_over(old(self).handed(), self.handed(), all.take(all.len() - rest@.len())),
                notes_report(id, old(notes)@, notes@, old(self).handed(), self.handed()),
            decreases rest@.len(),
        {
            let ghost k = all.len() - rest@.len();
            let ghost hs = self.handed();
            let ghost ns = notes@;
            let (to, message) = rest.remove(0);
            proof {
                assert(all[k] == (to, message));
                assert(all.take(k + 1) =~= all.take(k).push((to, message)));
                assert(rest@ =~= all.skip(k + 1));
            }
            match self.send_or_log(to, message) {
                Some(note) => notes.push(note),
                None => {},
            }
            proof {
                let h = self.handed().last();
                assert(self.handed() =~= hs.push(h));
                if h.2 is Dropped {
                    assert(notes@.drop_last() =~= ns);
                }
                lemma_one_more_handover(id, old(notes)@, ns, notes@, old(self).handed(), hs, h, all.take(k));
            }
        }
        proof {
            assert(all.take(all.len() as int) =~= all);
        }
    }

    /// Hands the requests `outbound` to the channel in order, adding a
    /// warning to `notes` for each one dropped.
    fn dispatch_outbound(&mut self, outbound: Vec<OutboundMessage>, notes: &mut Vec<Note>)
        ensures
            final(self).node_state() == old(self).node_state(),
            final(self).saved() == old(self).saved(),
            final(self).applied() == old(self).applied(),
            same_inputs(final(self).records(), old(self).records()),
            final(self).wf() == old(self).wf(),
            final(self).listen_address() == old(self).listen_address(),
            hands_over(old(self).handed(), final(self).handed(), as_replies(outbound@)),
            notes_report(
                old(self).node_state().id,
                old(notes)@,
                final(notes)@,
                old(self).handed(),
                final(self).handed(),
            ),
    {
        let ghost all = outbound@;
        let ghost id = self.node.id;
        let mut rest = outbound;
        proof {
            assert(old(self).handed().take(old(self).handed().len() as int) =~= old(self).handed());
            assert(old(notes)@.is_prefix_of(notes@)) by {
                assert(notes@.subrange(0, notes@.len() as int) =~= notes@);
            }
            assert(notes@.skip(notes@.len() as int) =~= Seq::<Note>::empty());
            assert(self.handed().skip(self.handed().len() as int) =~= Seq::<Handover>::empty());
            assert(as_replies(all.take(0)) =~= Seq::<(NodeId, RaftMessage)>::empty());
        }
        while rest.len() > 0
            invariant
                self.node_state() == old(self).node_state(),
                self.saved() == old(self).saved(),
                self.applied() == old(self).applied(),
                same_inputs(self.records(), old(self).records()),
                self.wf() == old(self).wf(),
                self.listen_address() == old(self).listen_address(),
                id == old(self).node_state().id,
                rest@.len() <= all.len(),
                rest@ == all.skip(all.len() - rest@.len()),
                hands_over(
                    old(self).handed(),
                    self.handed(),
                    as_replies(all.take(all.len() - rest@.len())),
                ),
                notes_report(id, old(notes)@, notes@, old(self).handed(), self.handed()),
            decreases rest@.len(),
        {
            let ghost k = all.len() - rest@.len();
            let ghost hs = self.handed();
            let ghost ns = notes@;
            let first = rest.remove(0);
            proof {
                assert(all[k] == first);
                assert(rest@ =~= all.skip(k + 1));
                assert(as_replies(all.take(k + 1)) =~= as_replies(all.take(k)).push(as_reply(first)));
            }
            let message = match first {
                OutboundMessage::RequestVote { to, message } => (to, RaftMessage::RequestVote(message)),
                OutboundMessage::AppendEntries { to, message } => (
                    to,
                    RaftMessage::AppendEntries(message),
                ),
            };
            proof {
                assert(message == as_reply(first));
            }
            match self.send_or_log(message.0, message.1) {
                Some(note) => notes.push(note),
                None => {},
            }
            proof {
                let h = self.handed().last();
                assert(self.handed() =~= hs.push(h));
                if h.2 is Dropped {
                    assert(notes@.drop_last() =~= ns);
                }
                lemma_one_more_handover(
                    id,
                    old(notes)@,
                    ns,
                    notes@,
                    old(self).handed(),
                    hs,
                    h,
                    as_replies(all.take(k)),
                );
            }
        }
        proof {
            assert(all.take(all.len() as int) =~= all);
        }
    }

    /// Hands the node's persistent state to the storage.
    fn persist(&mut self)
        ensures
            final(self).node_state() == old(self).node_state(),
            final(self).handed() == old(self).handed(),
            final(self).saved() == old(self).saved().push(saved_view(&old(self).node_state())),
            final(self).applied() == old(self).applied(),
            same_inputs(final(self).records(), old(self).records()),
            final(self).wf() == old(self).wf(),
            final(self).listen_address() == old(self).listen_address(),
    {
        let snapshot = StorageSnapshot::from_node(&self.node, Vec::new());
        proof {
            assert(snapshot@ =~= saved_view(&self.node));
            self.records@ = Records { saved: self.records@.saved.push(snapshot@), ..self.records@ };
        }
        self.storage.save(snapshot);
    }

    /// Hands one command to the state machine.
    fn apply_command(&mut self, command: &str)
        ensures
            final(self).node_state() == old(self).node_state(),
            final(self).records() == (Records {
                applied: old(self).applied().push(command@),
                ..old(self).records()
            }),
            final(self).wf() == old(self).wf(),
            final(self).listen_address() == old(self).listen_address(),
    {
        self.state_machine.apply(command);
        proof {
            self.records@ = Records { applied: self.records@.applied.push(command@), ..self.records@ };
        }
    }

    /// Hands the committed entries not applied yet to the state machine, in
    /// log order.
    fn apply_committed_entries(&mut self)
        requires
            old(self).wf(),
        ensures
            final(self).wf(),
            applied_committed(&old(self).node_state(), &final(self).node_state()),
            final(self).applied() == old(self).applied() + commands_of(
                old(self).node_state().unapplied_entries(),
            ),
            final(self).handed() == old(self).handed(),
            final(self).saved() == old(self).saved(),
            same_inputs(final(self).records(), old(self).records()),
            final(self).listen_address() == old(self).listen_address(),
    {
        let entries = self.node.take_unapplied_entries();
        let mut i: usize = 0;
        let ghost n = self.node;
        let ghost es = entries@;
        proof {
            assert(commands_of(es.take(0)) =~= Seq::<Seq<char>>::empty());
            assert(old(self).applied() + Seq::<Seq<char>>::empty() =~= old(self).applied());
        }
        while i < entries.len()
            invariant
                self.node == n,
                self.wf(),
                es == entries@,
                self.handed() == old(self).handed(),
                self.saved() == old(self).saved(),
                same_inputs(self.records(), old(self).records()),
                self.listen_address() == old(self).listen_address(),
                self.applied() == old(self).applied() + commands_of(es.take(i as int)),
                0 <= i <= entries@.len(),
            decreases entries@.len() - i,
        {
            self.apply_command(entries[i].command.as_str());
            proof {
                assert(commands_of(es.take(i + 1)) =~= commands_of(es.take(i as int)).push(
                    es[i as int].command@,
                ));
                assert(self.applied() =~= old(self).applied() + commands_of(es.take(i + 1)));
            }
            i = i + 1;
        }
        proof {
            assert(es.take(es.len() as int) =~= es);
        }
    }

    /// Restores the node from `snapshot`; a snapshot whose log would run the
    /// last index out of range is ignored.
    fn restore_from_snapshot(&mut self, snapshot: StorageSnapshot)
        requires
            old(self).wf(),
        ensures
            final(self).wf(),
            restored_from(&old(self).node_state(), &final(self).node_state(), snapshot@),
            final(self).records() == old(self).records(),
            final(self).listen_address() == old(self).listen_address(),
    {
        if snapshot.last_included_index < usize::MAX - snapshot.log.len() {
            self.node.restore_from_storage(
                snapshot.current_term,
                snapshot.voted_for,
                snapshot.log,
                snapshot.commit_index,
                snapshot.last_included_index,
                snapshot.last_included_term,
            );
        }
    }

    /// Starts the channel on the configured address.
    fn start_channel(&mut self) -> (r: Result<(), CommunicationError>)
        ensures
            final(self).node_state() == old(self).node_state(),
            final(self).records() == (Records {
                started: old(self).records().started.push((old(self).listen_address(), r)),
                ..old(self).records()
            }),
            final(self).wf() == old(self).wf(),
            final(self).listen_address() == old(self).listen_address(),
    {
        let address = self.config.addr.clone();
        let r = self.communication.start(address);
        proof {
            self.records@ = Records {
                started: self.records@.started.push((self.config.addr@, r)),
                ..self.records@
            };
        }
        r
    }

    /// Asks the storage for the snapshot kept for this node.
    fn load_snapshot(&mut self) -> (r: Option<StorageSnapshot>)
        ensures
            final(self).node_state() == old(self).node_state(),
            final(self).records() == (Records {
                loaded: old(self).records().loaded.push(
                    (old(self).node_state().id, snapshot_view_of(r)),
                ),
                ..old(self).records()
            }),
            final(self).wf() == old(self).wf(),
            final(self).listen_address() == old(self).listen_address(),
    {
        let r = self.storage.load(self.node.id);
        proof {
            self.records@ = Records {
                loaded: self.records@.loaded.push((self.node.id, snapshot_view_of(r))),
                ..self.records@
            };
        }
        r
    }

    /// Starts the channel on the configured address; then restores the node
    /// from the snapshot the storage keeps for it, if any, and hands what is
    /// committed to the state machine. When the channel cannot start, its
    /// error is returned and nothing else happens.
    pub fn start(&mut self) -> (r: Result<(), CommunicationError>)
        requires
            old(self).wf(),
        ensures
            final(self).wf(),
            final(self).records().started == old(self).records().started.push(
                (old(self).listen_address(), r),
            ),
            r is Err ==> {
                &&& final(self).node_state() == old(self).node_state()
                &&& final(self).records() == (Records {
                    started: final(self).records().started,
                    ..old(self).records()
                })
            },
            r is Ok ==> {
                &&& final(self).records().loaded.len() == old(self).records().loaded.len() + 1
                &&& final(self).records().loaded.drop_last() == old(self).records().loaded
                &&& final(self).records().loaded.last().0 == old(self).node_state().id
                &&& exists|mid: RaftNode|
                    {
                        &&& restored_from_load(
                            &old(self).node_state(),
                            &mid,
                            final(self).records().loaded.last().1,
                        )
                        &&& applied_committed(&mid, &final(self).node_state())
                        &&& final(self).applied() == old(self).applied() + commands_of(
                            mid.unapplied_entries(),
                        )
                    }
                &&& final(self).handed() == old(self).handed()
                &&& final(self).saved() == old(self).saved()
                &&& final(self).records().polled == old(self).records().polled
                &&& final(self).records().described == old(self).records().described
            },
    {
        let started = self.start_channel();
        let ghost after_start = self.records();
        if started.is_err() {
            return started;
        }
        let loaded = self.load_snapshot();
        let ghost l = snapshot_view_of(loaded);
        match loaded {
            Some(snapshot) => {
                self.restore_from_snapshot(snapshot);
            },
            None => {},
        }
        let ghost mid = self.node;
        proof {
            assert(restored_from_load(&old(self).node_state(), &mid, l));
        }
        self.apply_committed_entries();
        proof {
            assert(self.records().started == after_start.started);
        }
        started
    }

    /// One tick of the clock: the node ticks, what it sends is handed to the
    /// channel, and its state is saved. A tick that would start an election
    /// with the term already at its maximum is skipped.
    pub fn on_tick(&mut self) -> (notes: Vec<Note>)
        requires
            old(self).wf(),
        ensures
            final(self).wf(),
            can_tick(&old(self).node_state()) ==> exists|out: Seq<OutboundMessage>|
                {
                    &&& RaftNode::tick_step(&old(self).node_state(), &final(self).node_state(), out)
                    &&& hands_over(old(self).handed(), final(self).handed(), as_replies(out))
                },
            can_tick(&old(self).node_state()) ==> notes_report(
                old(self).node_state().id,
                Seq::empty(),
                notes@,
                old(self).handed(),
                final(self).handed(),
            ),
            can_tick(&old(self).node_state()) ==> final(self).saved() == old(self).saved().push(
                saved_view(&final(self).node_state()),
            ),
            final(self).applied() == old(self).applied(),
            same_inputs(final(self).records(), old(self).records()),
            !can_tick(&old(self).node_state()) ==> {
                &&& final(self).node_state() == old(self).node_state()
                &&& final(self).handed() == old(self).handed()
                &&& final(self).saved() == old(self).saved()
                &&& notes@.len() == 0
            },
    {
        let mut notes: Vec<Note> = Vec::new();
        let would_overflow = self.node.role != Role::Leader && self.node.election_elapsed
            >= self.node.current_election_timeout - 1 && self.node.current_term == u64::MAX;
        if would_overflow {
            return notes;
        }
        let outbound = self.node.tick();
        let ghost after = self.node;
        let ghost out = outbound@;
        proof {
            assert(notes@ =~= Seq::<Note>::empty());
        }
        self.dispatch_outbound(outbound, &mut notes);
        self.persist();
        proof {
            assert(RaftNode::tick_step(&old(self).node_state(), &self.node_state(), out));
        }
        notes
    }

    /// What the last poll of the channel gave.
    pub open spec fn last_poll(&self) -> Result<Option<InboundMessage>, CommunicationError> {
        self.records().polled.last()
    }

    /// Asks the channel for the next message.
    fn poll_channel(&mut self) -> (r: Result<Option<InboundMessage>, CommunicationError>)
        ensures
            final(self).node_state() == old(self).node_state(),
            final(self).records() == (Records {
                polled: old(self).records().polled.push(r),
                ..old(self).records()
            }),
            final(self).wf() == old(self).wf(),
            final(self).listen_address() == old(self).listen_address(),
    {
        let r = self.communication.poll();
        proof {
            self.records@ = Records { polled: self.records@.polled.push(r), ..self.records@ };
        }
        r
    }

    /// Takes one message from the channel, if one is waiting, and reacts to
    /// it: answers and follow-up requests go to the channel, committed
    /// entries are applied, and the state is saved (a snapshot offer is only
    /// refused, a snapshot answer ignored). A message that would run an index
    /// out of range is dropped with a warning. The result is `None` when no
    /// message was waiting.
    pub fn poll_communication(&mut self) -> (r: Result<Option<Vec<Note>>, CommunicationError>)
        requires
            old(self).wf(),
        ensures
            final(self).wf(),
            final(self).records().polled.len() == old(self).records().polled.len() + 1,
            final(self).records().polled.drop_last() == old(self).records().polled,
            final(self).records().started == old(self).records().started,
            final(self).records().loaded == old(self).records().loaded,
            final(self).records().described == old(self).records().described,
            final(self).last_poll() matches Err(e) ==> r == Err::<Option<Vec<Note>>, CommunicationError>(
                e,
            ),
            final(self).last_poll() matches Ok(None) ==> r matches Ok(None),
            !(final(self).last_poll() matches Ok(Some(_))) ==> {
                &&& final(self).node_state() == old(self).node_state()
                &&& final(self).handed() == old(self).handed()
                &&& final(self).saved() == old(self).saved()
                &&& final(self).applied() == old(self).applied()
            },
            final(self).last_poll() matches Ok(Some(m)) ==> {
                &&& r matches Ok(Some(_))
                &&& !crate::reaction::admissible(&old(self).node_state(), &m) ==> {
                    &&& final(self).node_state() == old(self).node_state()
                    &&& dropped_note(r, &old(self).node_state(), m.from)
                    &&& final(self).handed() == old(self).handed()
                    &&& final(self).saved() == old(self).saved()
                    &&& final(self).applied() == old(self).applied()
                }
                &&& crate::reaction::admissible(&old(self).node_state(), &m) ==> exists|
                    mid: RaftNode,
                    replies: Seq<(NodeId, RaftMessage)>,
                    became_leader: bool,
                |
                    {
                        &&& crate::reaction::reacts(
                            &old(self).node_state(),
                            &mid,
                            m,
                            replies,
                            became_leader,
                        )
                        &&& became_leader ==> leader_note(r, &mid)
                        &&& hands_over(old(self).handed(), final(self).handed(), replies)
                        &&& reply_notes(
                            r,
                            old(self).node_state().id,
                            became_leader,
                            old(self).handed(),
                            final(self).handed(),
                        )
                        &&& (m.message is InstallSnapshot || m.message is InstallSnapshotResponse)
                            ==> {
                            &&& final(self).node_state() == mid
                            &&& final(self).saved() == old(self).saved()
                            &&& final(self).applied() == old(self).applied()
                        }
                        &&& !(m.message is InstallSnapshot || m.message is InstallSnapshotResponse)
                            ==> {
                            &&& applied_committed(&mid, &final(self).node_state())
                            &&& final(self).applied() == old(self).applied() + commands_of(
                                mid.unapplied_entries(),
                            )
                            &&& final(self).saved() == old(self).saved().push(
                                saved_view(&final(self).node_state()),
                            )
                        }
                    }
            },
    {
        let polled = self.poll_channel();
        let msg = match polled {
            Err(e) => {
                return Err(e);
            },
            Ok(None) => {
                return Ok(None);
            },
            Ok(Some(msg)) => msg,
        };
        let mut notes: Vec<Note> = Vec::new();
        let ghost m = msg;
        if !is_admissible(&self.node, &msg) {
            let text = two_numbers("node ", self.node.id, " dropped an out-of-range message from ", msg.from);
            notes.push(Note::Warning(text));
            return Ok(Some(notes));
        }
        let settles = match &msg.message {
            RaftMessage::InstallSnapshot(_) => false,
            RaftMessage::InstallSnapshotResponse(_) => false,
            _ => true,
        };
        let reaction = react(&mut self.node, msg);
        let ghost mid = self.node;
        let ghost replies = reaction.replies@;
        if reaction.became_leader {
            let text = two_numbers("node ", self.node.id, " became leader for term ", self.node.current_term);
            notes.push(Note::Info(text));
        }
        let ghost first = notes@;
        proof {
            if reaction.became_leader {
                assert(notes@.take(1) =~= notes@);
            } else {
                assert(notes@ =~= Seq::<Note>::empty());
            }
        }
        let became_leader = reaction.became_leader;
        self.send_all(reaction.replies, &mut notes);
        let ghost handed_after_send = self.handed();
        if settles {
            self.apply_committed_entries();
            self.persist();
        }
        proof {
            assert(crate::reaction::reacts(&old(self).node_state(), &mid, m, replies, became_leader));
            assert(first.is_prefix_of(notes@));
            if became_leader {
                assert(notes@[0] == first[0]);
                assert(notes@.take(1) =~= first);
            }
            assert(self.handed() == handed_after_send);
        }
        Ok(Some(notes))
    }

    /// Asks the state machine to describe itself.
    fn describe_state_machine(&mut self) -> (r: String)
        ensures
            final(self).node_state() == old(self).node_state(),
            final(self).records() == (Records {
                described: old(self).records().described.push(r@),
                ..old(self).records()
            }),
            final(self).wf() == old(self).wf(),
            final(self).listen_address() == old(self).listen_address(),
    {
        let r = self.state_machine.describe();
        proof {
            self.records@ = Records { described: self.records@.described.push(r@), ..self.records@ };
        }
        r
    }

    /// Carries out an operator command; the result says whether to keep
    /// running. `Status` reports the node; `ForceElection` starts an
    /// election (skipped when the term is at its maximum); `Propose` offers
    /// the value to the log, which only a leader accepts.
    pub fn process_command(&mut self, cmd: Command) -> (r: (bool, Vec<Note>))
        requires
            old(self).wf(),
        ensures
            final(self).wf(),
            r.0 == !(cmd is Shutdown),
            cmd is Shutdown ==> r.1@.len() == 0,
            cmd is Status ==> {
                &&& final(self).records().described.len() == old(self).records().described.len() + 1
                &&& final(self).records() == (Records {
                    described: old(self).records().described.push(
                        final(self).records().described.last(),
                    ),
                    ..old(self).records()
                })
                &&& r.1@.len() == 1
                &&& r.1@[0] matches Note::Info(t)
                &&& t@ == status_text_spec(
                    &old(self).node_state(),
                    final(self).records().described.last(),
                )
            },
            (cmd is ForceElection && old(self).node_state().current_term < u64::MAX) ==> r.1@.len()
                >= 1 && (r.1@[0] matches Note::Info(t) && t@ == "node "@ + crate::text::decimal(
                old(self).node_state().id as nat,
            ) + " started election for term "@ + crate::text::decimal(
                (old(self).node_state().current_term + 1) as nat,
            )),
            cmd matches Command::Propose(value) ==> (old(self).node_state().role == Role::Leader
                && old(self).node_state().last_index() + 1 < usize::MAX ==> r.1@.len() >= 1 && (
            r.1@[0] matches Note::Info(t) && t@ == "leader "@ + crate::text::decimal(
                old(self).node_state().id as nat,
            ) + " accepted proposal: "@ + value@)),
            (cmd is Propose && old(self).node_state().role != Role::Leader) ==> r.1@.len() == 1
                && (r.1@[0] matches Note::Info(t) && t@ == not_leader_text(
                &old(self).node_state(),
            )),
            (cmd is Shutdown || cmd is Status) ==> final(self).node_state() == old(
                self,
            ).node_state(),
            cmd is ForceElection ==> if old(self).node_state().current_term < u64::MAX {
                exists|mid: RaftNode, out: Seq<OutboundMessage>|
                    {
                        &&& RaftNode::started_election(&old(self).node_state(), &mid)
                        &&& mid.are_vote_requests(out)
                        &&& hands_over(old(self).handed(), final(self).handed(), as_replies(out))
                        &&& applied_committed(&mid, &final(self).node_state())
                        &&& final(self).applied() == old(self).applied() + commands_of(
                            mid.unapplied_entries(),
                        )
                    }
            } else {
                final(self).node_state() == old(self).node_state()
            },
            cmd matches Command::Propose(value) ==> if old(self).node_state().role == Role::Leader
                && old(self).node_state().last_index() + 1 < usize::MAX {
                exists|mid: RaftNode, out: Option<Vec<OutboundMessage>>|
                    {
                        &&& RaftNode::propose_step(&old(self).node_state(), &mid, value@, out)
                        &&& out matches Some(msgs)
                        &&& hands_over(old(self).handed(), final(self).handed(), as_replies(msgs@))
                        &&& applied_committed(&mid, &final(self).node_state())
                        &&& final(self).applied() == old(self).applied() + commands_of(
                            mid.unapplied_entries(),
                        )
                    }
            } else {
                final(self).node_state() == old(self).node_state()
            },
            command_runs(&old(self).node_state(), &cmd) ==> {
                &&& final(self).saved() == old(self).saved().push(
                    saved_view(&final(self).node_state()),
                )
                &&& notes_report(
                    old(self).node_state().id,
                    r.1@.take(1),
                    r.1@,
                    old(self).handed(),
                    final(self).handed(),
                )
            },
            !command_runs(&old(self).node_state(), &cmd) ==> {
                &&& final(self).handed() == old(self).handed()
                &&& final(self).saved() == old(self).saved()
                &&& final(self).applied() == old(self).applied()
            },
            !(cmd is Status) ==> same_inputs(final(self).records(), old(self).records()),
    {
        let mut notes: Vec<Note> = Vec::new();
        match cmd {
            Command::Shutdown => {
                return (false, notes);
            },
            Command::Status => {
                let sm = self.describe_state_machine();
                notes.push(Note::Info(status_text(&self.node, sm.as_str())));
            },
            Command::ForceElection => {
                if self.node.current_term == u64::MAX {
                    notes.push(Note::Warning("the term cannot grow any further".to_owned()));
                    return (true, notes);
                }
                let outbound = self.node.start_election();
                let ghost mid = self.node;
                let ghost out = outbound@;
                let text = two_numbers("node ", self.node.id, " started election for term ", self.node.current_term);
                notes.push(Note::Info(text));
                let ghost first = notes@;
                self.dispatch_outbound(outbound, &mut notes);
                self.apply_committed_entries();
                self.persist();
                proof {
                    assert(RaftNode::started_election(&old(self).node_state(), &mid));
                    assert(mid.are_vote_requests(out));
                    assert(first.is_prefix_of(notes@));
                    assert(notes@[0] == first[0]);
                    assert(notes@.take(1) =~= first);
                }
            },
            Command::Propose(value) => {
                if self.node.role != Role::Leader {
                    let mut text = String::new();
                    push_str(&mut text, "node ");
                    push_decimal(&mut text, self.node.id);
                    push_str(&mut text, " is not leader; leader=");
                    push_optional_id(&mut text, self.node.leader_id);
                    proof {
                        assert(text@ =~= not_leader_text(&self.node));
                    }
                    notes.push(Note::Info(text));
                    return (true, notes);
                }
                if self.node.snapshot_last_included_index >= usize::MAX - 1 - self.node.log.len() {
                    notes.push(Note::Warning("the log cannot grow any further".to_owned()));
                    return (true, notes);
                }
                let proposed = self.node.propose_command(value.as_str());
                let ghost mid = self.node;
                let ghost out = proposed;
                let mut text = String::new();
                push_str(&mut text, "leader ");
                push_decimal(&mut text, self.node.id);
                push_str(&mut text, " accepted proposal: ");
                push_str(&mut text, value.as_str());
                proof {
                    assert(text@ =~= "leader "@ + crate::text::decimal(self.node.id as nat)
                        + " accepted proposal: "@ + value@);
                }
                notes.push(Note::Info(text));
                let ghost first = notes@;
                match proposed {
                    Some(outbound) => self.dispatch_outbound(outbound, &mut notes),
                    None => {},
                }
                self.apply_committed_entries();
                self.persist();
                proof {
                    assert(RaftNode::propose_step(&old(self).node_state(), &mid, value@, out));
                    assert(first.is_prefix_of(notes@));
                    assert(notes@[0] == first[0]);
                    assert(notes@.take(1) =~= first);
                }
            },
        }
        (true, notes)
    }
}

} // verus!
