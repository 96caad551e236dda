# raftust-core

A small Raft consensus engine whose logic is verified with Verus.

The consensus core is kept apart from the outside world: a node's state
machine (`RaftNode`) reacts to ticks, messages and proposals and says what to
send; channels, storage and the replicated application plug in through traits.

## Layout

- `src/` — the verified library.
  - `node.rs`: the Raft participant — elections, votes, log replication,
    commit, application, log compaction and restoration — with each event's
    effect stated as a step relation (`request_vote_step`, `tick_step`, ...).
  - `node_laws.rs`: properties that span events (quorum intersection, one
    vote per term, terms never decrease, a leader's log only grows, ...).
  - `reaction.rs`, `runner.rs`: one turn of a node's event loop, driving a
    channel, a storage and a state machine.
  - `communication/`, `transport/`, `grpc_codec/`: message shapes on the wire
    and their encoding, with round-trip laws.
  - `storage/`: snapshots of a node's persistent state; in-memory and
    file-name logic.
  - `counter.rs`, `key_value.rs`: two text-driven state machines.
  - `config.rs`, `text.rs`: command-line settings and the string handling
    they need.
- `app/` — the program around it: argument and standard-input handling, TCP
  and HTTPS channels, JSON files on disk, the timed event loop.
- `tests/` — tests run against the compiled library.

The gRPC channel is offered only in part: `grpc_codec/` holds its message
encoding, acknowledgements and peer endpoints, verified; the RPC transport
itself (generated `tonic` service code) is not part of this crate, and
`communication::grpc::GrpcCommunication` is a placeholder channel that
delivers nothing.
