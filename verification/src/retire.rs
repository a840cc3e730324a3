//! Unloading one agent, if it is idle.
use crate::error::CodexErr;
use crate::exchange::{ThreadReply, ThreadRequest};
use vstd::prelude::*;

verus! {

/// How far the attempt to unload an agent has come.
#[derive(Clone, Copy, Debug, PartialEq, Eq)]
pub enum RetireStage {
    ReadingActiveTurn,
    ReadingMailbox,
    MaterializingRollout,
    ShuttingDown,
    RemovingThread,
}

/// What became of the attempt.
#[derive(Debug, PartialEq, Eq)]
pub enum RetireOutcome {
    /// The agent is not idle and was left alone.
    Busy,
    /// The agent did not shut down; it stays with the thread manager.
    Failed(CodexErr),
    /// The agent was shut down and dropped from the thread manager.
    Unloaded,
}

#[derive(Debug, PartialEq, Eq)]
pub enum RetireStep {
    Waiting(RetireStage),
    Finished(RetireOutcome),
}

impl RetireStage {
    pub open spec fn spec_request(self) -> ThreadRequest {
        match self {
            RetireStage::ReadingActiveTurn => ThreadRequest::ReadActiveTurn,
            RetireStage::ReadingMailbox => ThreadRequest::ReadMailbox,
            RetireStage::MaterializingRollout => ThreadRequest::MaterializeRollout,
            RetireStage::ShuttingDown => ThreadRequest::ShutDown,
            RetireStage::RemovingThread => ThreadRequest::RemoveThread,
        }
    }

    /// An agent without a running turn and without waiting mailbox items is unloaded: its rollout is
    /// written, it is shut down, and if that succeeds it is dropped from the thread manager. A reply
    /// to anything but the pending request changes nothing.
    pub open spec fn spec_step(self, reply: ThreadReply) -> RetireStep {
        match (self, reply) {
            (RetireStage::ReadingActiveTurn, ThreadReply::ActiveTurn(running)) => if running {
                RetireStep::Finished(RetireOutcome::Busy)
            } else {
                RetireStep::Waiting(RetireStage::ReadingMailbox)
            },
            (RetireStage::ReadingMailbox, ThreadReply::PendingMailboxItems(waiting)) => if waiting {
                RetireStep::Finished(RetireOutcome::Busy)
            } else {
                RetireStep::Waiting(RetireStage::MaterializingRollout)
            },
            (
                RetireStage::MaterializingRollout,
                ThreadReply::RolloutMaterialized,
            ) => RetireStep::Waiting(RetireStage::ShuttingDown),
            (RetireStage::ShuttingDown, ThreadReply::ShutDown(Ok(()))) => RetireStep::Waiting(
                RetireStage::RemovingThread,
            ),
            (RetireStage::ShuttingDown, ThreadReply::ShutDown(Err(err))) => RetireStep::Finished(
                RetireOutcome::Failed(err),
            ),
            (RetireStage::RemovingThread, ThreadReply::ThreadRemoved) => RetireStep::Finished(
                RetireOutcome::Unloaded,
            ),
            _ => RetireStep::Waiting(self),
        }
    }

    /// How many replies the attempt still waits for at most.
    pub open spec fn replies_left(self) -> nat {
        match self {
            RetireStage::ReadingActiveTurn => 5,
            RetireStage::ReadingMailbox => 4,
            RetireStage::MaterializingRollout => 3,
            RetireStage::ShuttingDown => 2,
            RetireStage::RemovingThread => 1,
        }
    }

    /// What the attempt waits for.
    pub fn request(self) -> (request: ThreadRequest)
        ensures
            request == self.spec_request(),
    {
        match self {
            RetireStage::ReadingActiveTurn => ThreadRequest::ReadActiveTurn,
            RetireStage::ReadingMailbox => ThreadRequest::ReadMailbox,
            RetireStage::MaterializingRollout => ThreadRequest::MaterializeRollout,
            RetireStage::ShuttingDown => ThreadRequest::ShutDown,
            RetireStage::RemovingThread => ThreadRequest::RemoveThread,
        }
    }

    /// Takes the attempt one reply further.
    pub fn step(self, reply: ThreadReply) -> (step: RetireStep)
        ensures
            step == self.spec_step(reply),
    {
        match (self, reply) {
            (RetireStage::ReadingActiveTurn, ThreadReply::ActiveTurn(running)) => {
                if running {
                    RetireStep::Finished(RetireOutcome::Busy)
                } else {
                    RetireStep::Waiting(RetireStage::ReadingMailbox)
                }
            },
            (RetireStage::ReadingMailbox, ThreadReply::PendingMailboxItems(waiting)) => {
                if waiting {
                    RetireStep::Finished(RetireOutcome::Busy)
                } else {
                    RetireStep::Waiting(RetireStage::MaterializingRollout)
                }
            },
            (RetireStage::MaterializingRollout, ThreadReply::RolloutMaterialized) => {
                RetireStep::Waiting(RetireStage::ShuttingDown)
            },
            (RetireStage::ShuttingDown, ThreadReply::ShutDown(Ok(()))) => {
                RetireStep::Waiting(RetireStage::RemovingThread)
            },
            (RetireStage::ShuttingDown, ThreadReply::ShutDown(Err(err))) => {
                RetireStep::Finished(RetireOutcome::Failed(err))
            },
            (RetireStage::RemovingThread, ThreadReply::ThreadRemoved) => {
                RetireStep::Finished(RetireOutcome::Unloaded)
            },
            _ => RetireStep::Waiting(self),
        }
    }
}

/// An attempt to unload asks whether a turn is running, then for waiting mailbox items, then for the
/// rollout to be written, then for the shutdown, and last for the thread to be dropped. It moves on
/// exactly when what it asked for was answered.
pub proof fn law_retiring_asks_in_order(stage: RetireStage, reply: ThreadReply)
    ensures
        match stage {
            RetireStage::ReadingActiveTurn => stage.spec_request() is ReadActiveTurn,
            RetireStage::ReadingMailbox => stage.spec_request() is ReadMailbox,
            RetireStage::MaterializingRollout => stage.spec_request() is MaterializeRollout,
            RetireStage::ShuttingDown => stage.spec_request() is ShutDown,
            RetireStage::RemovingThread => stage.spec_request() is RemoveThread,
        },
        stage.spec_request().is_answered_by(reply) <==> stage.spec_step(reply)
            != RetireStep::Waiting(stage),
        stage.spec_step(reply) matches RetireStep::Waiting(next) ==> next == stage || match next {
            RetireStage::ReadingActiveTurn => false,
            RetireStage::ReadingMailbox => stage is ReadingActiveTurn,
            RetireStage::MaterializingRollout => stage is ReadingMailbox,
            RetireStage::ShuttingDown => stage is MaterializingRollout,
            RetireStage::RemovingThread => stage is ShuttingDown,
        },
{
}

/// An attempt to unload ends in three ways, and for these reasons only: the agent was told to be busy,
/// by a running turn or by waiting mailbox items; the agent failed to shut down, with the reported
/// error; or it was dropped after it had shut down.
pub proof fn law_retiring_ends_for_a_reason(
    stage: RetireStage,
    reply: ThreadReply,
    err: CodexErr,
)
    ensures
        stage.spec_step(reply) == RetireStep::Finished(RetireOutcome::Busy) <==> {
            ||| stage is ReadingActiveTurn && reply == ThreadReply::ActiveTurn(true)
            ||| stage is ReadingMailbox && reply == ThreadReply::PendingMailboxItems(true)
        },
        stage.spec_step(reply) == RetireStep::Finished(RetireOutcome::Failed(err)) <==> stage
            is ShuttingDown && reply == ThreadReply::ShutDown(Err(err)),
        stage.spec_step(reply) == RetireStep::Finished(RetireOutcome::Unloaded) <==> stage
            is RemovingThread && reply is ThreadRemoved,
{
}

} // verus!
