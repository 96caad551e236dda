use vstd::prelude::*;

use super::{CommunicationError, InboundMessage, RaftCommunication, RaftMessage, SendOutcome};
use crate::types::NodeId;

verus! {

/// A placeholder channel that accepts a start and then neither delivers
/// nor receives anything.
pub struct GrpcCommunication {
    local_id: NodeId,
    started: bool,
}

impl GrpcCommunication {
    pub closed spec fn spec_local_id(&self) -> NodeId {
        self.local_id
    }

    pub closed spec fn is_started(&self) -> bool {
        self.started
    }

    /// A channel for node `local_id`, not started yet.
    pub fn new(local_id: NodeId) -> (r: Self)
        ensures
            r.spec_local_id() == local_id,
            !r.is_started(),
    {
        GrpcCommunication { local_id, started: false }
    }

    /// The node this channel belongs to.
    pub fn local_id(&self) -> (r: NodeId)
        ensures
            r == self.spec_local_id(),
    {
        self.local_id
    }
}

impl RaftCommunication for GrpcCommunication {
    /// Marks the channel started; always succeeds.
    fn start(&mut self, _address: String) -> (r: Result<(), CommunicationError>)
        ensures
            r is Ok,
            final(self).is_started(),
            final(self).spec_local_id() == old(self).spec_local_id(),
    {
        self.started = true;
        Ok(())
    }

    /// Fails with `NotStarted` before `start`, and has nothing to deliver after.
    fn poll(&mut self) -> (r: Result<Option<InboundMessage>, CommunicationError>)
        ensures
            !old(self).is_started() ==> r == Err::<Option<InboundMessage>, CommunicationError>(
                CommunicationError::NotStarted,
            ),
            old(self).is_started() ==> r == Ok::<Option<InboundMessage>, CommunicationError>(None),
            *final(self) == *old(self),
    {
        if !self.started {
            return Err(CommunicationError::NotStarted);
        }
        Ok(None)
    }

    /// Drops every message, saying why.
    fn send(&mut self, _to: NodeId, _message: RaftMessage) -> (r: SendOutcome)
        ensures
            match r {
                SendOutcome::Dropped(reason) => if old(self).is_started() {
                    reason@ == "gRPC communication scaffold is not implemented yet"@
                } else {
                    reason@ == "communication is not started"@
                },
                SendOutcome::Sent => false,
            },
            *final(self) == *old(self),
    {
        if !self.started {
            return SendOutcome::Dropped("communication is not started".to_owned());
        }
        SendOutcome::Dropped("gRPC communication scaffold is not implemented yet".to_owned())
    }
}

} // verus!
