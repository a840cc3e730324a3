//! Requests to the thread manager, and the replies to them.
//!
//! Deciding what to do with a thread takes facts that only the thread manager and the thread itself
//! can give. The decision procedures of this crate ask for them one at a time.
use crate::error::CodexErr;
use crate::thread::{AgentStatus, ThreadProfile};
use vstd::prelude::*;

verus! {

/// The next thing that a decision procedure needs done for the thread at hand.
#[derive(Clone, Copy, Debug, PartialEq, Eq)]
pub enum ThreadRequest {
    /// Acquire the thread's lifecycle gate and keep it until the next thread is taken up, or until
    /// the procedure ends.
    LockLifecycle,
    /// Make sure that the thread manager still exists.
    UpgradeManager,
    /// Find the loaded thread.
    LookUpThread,
    /// Say whether the agent registry knows the thread.
    ReadRegistry,
    /// Read the agent's status.
    ReadStatus,
    /// Say whether a turn is running.
    ReadActiveTurn,
    /// Say whether mailbox items are waiting.
    ReadMailbox,
    /// Write the rollout to durable storage.
    MaterializeRollout,
    /// Shut the thread down and wait for it.
    ShutDown,
    /// Drop the thread from the thread manager.
    RemoveThread,
}

/// What came of a request.
#[derive(Debug, PartialEq, Eq)]
pub enum ThreadReply {
    LifecycleLocked,
    ManagerUpgraded(Result<(), CodexErr>),
    ThreadLookedUp(Result<ThreadProfile, CodexErr>),
    Registered(bool),
    Status(AgentStatus),
    ActiveTurn(bool),
    PendingMailboxItems(bool),
    RolloutMaterialized,
    ShutDown(Result<(), CodexErr>),
    ThreadRemoved,
}

/// Everything that can be asked about one thread, held still.
pub struct ThreadFacts {
    pub manager: Result<(), CodexErr>,
    pub lookup: Result<ThreadProfile, CodexErr>,
    pub registered: bool,
    pub status: AgentStatus,
    pub active_turn: bool,
    pub pending_mailbox_items: bool,
    pub shutdown: Result<(), CodexErr>,
}

impl ThreadFacts {
    /// The reply that a thread with these facts gives to a request.
    pub open spec fn reply(self, request: ThreadRequest) -> ThreadReply {
        match request {
            ThreadRequest::LockLifecycle => ThreadReply::LifecycleLocked,
            ThreadRequest::UpgradeManager => ThreadReply::ManagerUpgraded(self.manager),
            ThreadRequest::LookUpThread => ThreadReply::ThreadLookedUp(self.lookup),
            ThreadRequest::ReadRegistry => ThreadReply::Registered(self.registered),
            ThreadRequest::ReadStatus => ThreadReply::Status(self.status),
            ThreadRequest::ReadActiveTurn => ThreadReply::ActiveTurn(self.active_turn),
            ThreadRequest::ReadMailbox => ThreadReply::PendingMailboxItems(
                self.pending_mailbox_items,
            ),
            ThreadRequest::MaterializeRollout => ThreadReply::RolloutMaterialized,
            ThreadRequest::ShutDown => ThreadReply::ShutDown(self.shutdown),
            ThreadRequest::RemoveThread => ThreadReply::ThreadRemoved,
        }
    }

    /// The thread is loaded and counts toward residency.
    pub open spec fn is_candidate(self) -> bool {
        self.lookup is Ok && self.lookup->Ok_0.is_candidate()
    }

    /// No turn is running and nothing is waiting to start one.
    pub open spec fn is_idle(self) -> bool {
        !self.active_turn && !self.pending_mailbox_items
    }
}

impl ThreadRequest {
    /// The reply is one to this request.
    pub open spec fn is_answered_by(self, reply: ThreadReply) -> bool {
        match self {
            ThreadRequest::LockLifecycle => reply is LifecycleLocked,
            ThreadRequest::UpgradeManager => reply is ManagerUpgraded,
            ThreadRequest::LookUpThread => reply is ThreadLookedUp,
            ThreadRequest::ReadRegistry => reply is Registered,
            ThreadRequest::ReadStatus => reply is Status,
            ThreadRequest::ReadActiveTurn => reply is ActiveTurn,
            ThreadRequest::ReadMailbox => reply is PendingMailboxItems,
            ThreadRequest::MaterializeRollout => reply is RolloutMaterialized,
            ThreadRequest::ShutDown => reply is ShutDown,
            ThreadRequest::RemoveThread => reply is ThreadRemoved,
        }
    }
}

/// A thread answers the request that it is asked, with what is the case.
pub proof fn law_threads_answer_what_they_are_asked(facts: ThreadFacts, request: ThreadRequest)
    ensures
        request.is_answered_by(facts.reply(request)),
        match facts.reply(request) {
            ThreadReply::LifecycleLocked => true,
            ThreadReply::ManagerUpgraded(upgraded) => upgraded == facts.manager,
            ThreadReply::ThreadLookedUp(lookup) => lookup == facts.lookup,
            ThreadReply::Registered(registered) => registered == facts.registered,
            ThreadReply::Status(status) => status == facts.status,
            ThreadReply::ActiveTurn(running) => running == facts.active_turn,
            ThreadReply::PendingMailboxItems(waiting) => waiting == facts.pending_mailbox_items,
            ThreadReply::RolloutMaterialized => true,
            ThreadReply::ShutDown(shutdown) => shutdown == facts.shutdown,
            ThreadReply::ThreadRemoved => true,
        },
{
}

} // verus!
