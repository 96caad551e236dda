pub mod communication;
pub mod config;
pub mod counter;
pub mod grpc_codec;
pub mod key_value;
pub mod node;
pub mod node_laws;
pub mod reaction;
pub mod runner;
pub mod state_machine;
pub mod storage;
pub mod text;
pub mod transport;
pub mod types;

pub use communication::{
    CommunicationError, InboundMessage, RaftCommunication, RaftMessage, SendOutcome,
};
pub use counter::CounterStateMachine;
pub use key_value::KeyValueStateMachine;
pub use node::RaftNode;
pub use runner::{Command, Runner};
pub use state_machine::StateMachineStrategy;
pub use storage::file::FileStorage;
pub use storage::in_memory::InMemoryStorage;
pub use storage::noop::NoopStorage;
pub use storage::{StorageSnapshot, StorageStrategy};
pub use types::{
    AppendEntries, AppendEntriesResponse, InstallSnapshot, InstallSnapshotResponse, LogEntry,
    NodeId, OutboundMessage, OutboundRpc, RequestVote, RequestVoteResponse, Role, Term,
};
