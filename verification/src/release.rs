//! Releasing an agent on request.
//!
//! Releasing unloads an agent's session and keeps its durable identity: a later message can load the
//! agent again from its rollout.
use crate::error::{CodexErr, ReleaseRefusal};
use crate::exchange::{ThreadReply, ThreadRequest};
use crate::residency::V2Residency;
use crate::retire::{RetireOutcome, RetireStage, RetireStep};
use crate::state::ResidencyState;
use crate::thread::{is_releasable_with_status, is_resident_candidate, AgentStatus, ThreadId};
use vstd::prelude::*;

verus! {

#[derive(Debug, PartialEq, Eq)]
pub enum ReleaseProgress {
    LockingLifecycle,
    UpgradingManager,
    LookingUp,
    /// The look-up failed; whether that is an error depends on the agent registry.
    ReadingRegistry { lookup_error: CodexErr },
    ReadingStatus,
    /// The agent may go if it is idle.
    Retiring { previous_status: AgentStatus, stage: RetireStage },
    /// The status that the agent had before it was unloaded, or why it was not.
    Finished(Result<AgentStatus, CodexErr>),
}

/// A request to unload one agent.
#[derive(Debug, PartialEq, Eq)]
pub struct AgentRelease {
    pub thread_id: ThreadId,
    pub progress: ReleaseProgress,
}

impl ReleaseProgress {
    pub open spec fn refused(refusal: ReleaseRefusal) -> ReleaseProgress {
        ReleaseProgress::Finished(Err(CodexErr::UnsupportedOperation(refusal)))
    }
}

impl AgentRelease {
    pub open spec fn spec_begin(thread_id: ThreadId) -> AgentRelease {
        AgentRelease { thread_id, progress: ReleaseProgress::LockingLifecycle }
    }

    pub open spec fn spec_request(self) -> Option<ThreadRequest> {
        match self.progress {
            ReleaseProgress::LockingLifecycle => Some(ThreadRequest::LockLifecycle),
            ReleaseProgress::UpgradingManager => Some(ThreadRequest::UpgradeManager),
            ReleaseProgress::LookingUp => Some(ThreadRequest::LookUpThread),
            ReleaseProgress::ReadingRegistry { .. } => Some(ThreadRequest::ReadRegistry),
            ReleaseProgress::ReadingStatus => Some(ThreadRequest::ReadStatus),
            ReleaseProgress::Retiring { stage, .. } => Some(stage.spec_request()),
            ReleaseProgress::Finished(_) => None,
        }
    }

    /// Where a reply takes the release. An agent that is registered but not loaded counts as
    /// released. A loaded thread must be a spawned agent, at rest, without unfinished submissions
    /// and idle. A reply to anything but the pending request changes nothing.
    pub open spec fn spec_progress(self, state: ResidencyState, reply: ThreadReply) -> ReleaseProgress {
        match (self.progress, reply) {
            (
                ReleaseProgress::LockingLifecycle,
                ThreadReply::LifecycleLocked,
            ) => ReleaseProgress::UpgradingManager,
            (ReleaseProgress::UpgradingManager, ThreadReply::ManagerUpgraded(upgraded)) => {
                match upgraded {
                    Ok(()) => ReleaseProgress::LookingUp,
                    Err(err) => ReleaseProgress::Finished(Err(err)),
                }
            },
            (ReleaseProgress::LookingUp, ThreadReply::ThreadLookedUp(lookup)) => {
                match lookup {
                    Ok(thread) => if thread.is_candidate() {
                        ReleaseProgress::ReadingStatus
                    } else {
                        ReleaseProgress::refused(ReleaseRefusal::NotASpawnedAgent)
                    },
                    Err(lookup_error) => ReleaseProgress::ReadingRegistry { lookup_error },
                }
            },
            (
                ReleaseProgress::ReadingRegistry { lookup_error },
                ThreadReply::Registered(registered),
            ) => {
                if registered && lookup_error is ThreadNotFound {
                    ReleaseProgress::Finished(Ok(AgentStatus::NotFound))
                } else {
                    ReleaseProgress::Finished(Err(lookup_error))
                }
            },
            (ReleaseProgress::ReadingStatus, ThreadReply::Status(status)) => {
                if status.is_releasable() && !state.has_pending(self.thread_id) {
                    ReleaseProgress::Retiring {
                        previous_status: status,
                        stage: RetireStage::ReadingActiveTurn,
                    }
                } else {
                    ReleaseProgress::refused(ReleaseRefusal::NotAtRest)
                }
            },
            (ReleaseProgress::Retiring { previous_status, stage }, _) => {
                match stage.spec_step(reply) {
                    RetireStep::Waiting(next) => ReleaseProgress::Retiring {
                        previous_status,
                        stage: next,
                    },
                    RetireStep::Finished(RetireOutcome::Busy) => ReleaseProgress::refused(
                        ReleaseRefusal::NotAtRest,
                    ),
                    RetireStep::Finished(RetireOutcome::Failed(err)) => ReleaseProgress::Finished(
                        Err(err),
                    ),
                    RetireStep::Finished(RetireOutcome::Unloaded) => ReleaseProgress::Finished(
                        Ok(previous_status),
                    ),
                }
            },
            (progress, _) => progress,
        }
    }

    /// The release goes on, and the residency forgets the agent at the moment of success.
    pub open spec fn spec_step(self, state: ResidencyState, reply: ThreadReply) -> (
        AgentRelease,
        ResidencyState,
    ) {
        let progress = self.spec_progress(state, reply);
        let succeeds = !(self.progress is Finished) && progress is Finished
            && progress->Finished_0 is Ok;
        (
            AgentRelease { thread_id: self.thread_id, progress },
            if succeeds {
                state.removed(self.thread_id)
            } else {
                state
            },
        )
    }

    /// Asks for the release of an agent.
    pub fn begin(thread_id: ThreadId) -> (release: AgentRelease)
        ensures
            release == Self::spec_begin(thread_id),
    {
        AgentRelease { thread_id, progress: ReleaseProgress::LockingLifecycle }
    }

    /// What the release waits for, until it is finished.
    pub fn request(&self) -> (request: Option<ThreadRequest>)
        ensures
            request == self.spec_request(),
    {
        match &self.progress {
            ReleaseProgress::LockingLifecycle => Some(ThreadRequest::LockLifecycle),
            ReleaseProgress::UpgradingManager => Some(ThreadRequest::UpgradeManager),
            ReleaseProgress::LookingUp => Some(ThreadRequest::LookUpThread),
            ReleaseProgress::ReadingRegistry { .. } => Some(ThreadRequest::ReadRegistry),
            ReleaseProgress::ReadingStatus => Some(ThreadRequest::ReadStatus),
            ReleaseProgress::Retiring { stage, .. } => Some(stage.request()),
            ReleaseProgress::Finished(_) => None,
        }
    }

    /// Takes the release one reply further.
    pub fn step(self, residency: &mut V2Residency, reply: ThreadReply) -> (release: AgentRelease)
        requires
            old(residency)@.wf(),
        ensures
            (release, final(residency)@) == self.spec_step(old(residency)@, reply),
            final(residency)@.wf(),
    {
        let AgentRelease { thread_id, progress } = self;
        let progress = match (progress, reply) {
            (ReleaseProgress::LockingLifecycle, ThreadReply::LifecycleLocked) => {
                ReleaseProgress::UpgradingManager
            },
            (ReleaseProgress::UpgradingManager, ThreadReply::ManagerUpgraded(upgraded)) => {
                match upgraded {
                    Ok(()) => ReleaseProgress::LookingUp,
                    Err(err) => ReleaseProgress::Finished(Err(err)),
                }
            },
            (ReleaseProgress::LookingUp, ThreadReply::ThreadLookedUp(lookup)) => {
                match lookup {
                    Ok(thread) => {
                        if is_resident_candidate(&thread) {
                            ReleaseProgress::ReadingStatus
                        } else {
                            ReleaseProgress::Finished(
                                Err(
                                    CodexErr::UnsupportedOperation(
                                        ReleaseRefusal::NotASpawnedAgent,
                                    ),
                                ),
                            )
                        }
                    },
                    Err(lookup_error) => ReleaseProgress::ReadingRegistry { lookup_error },
                }
            },
            (
                ReleaseProgress::ReadingRegistry { lookup_error },
                ThreadReply::Registered(registered),
            ) => {
                if registered && matches!(lookup_error, CodexErr::ThreadNotFound(_)) {
                    residency.remove(thread_id);
                    ReleaseProgress::Finished(Ok(AgentStatus::NotFound))
                } else {
                    ReleaseProgress::Finished(Err(lookup_error))
                }
            },
            (ReleaseProgress::ReadingStatus, ThreadReply::Status(status)) => {
                if residency.has_pending_submission(thread_id) || !is_releasable_with_status(
                    &status,
                ) {
                    ReleaseProgress::Finished(
                        Err(CodexErr::UnsupportedOperation(ReleaseRefusal::NotAtRest)),
                    )
                } else {
                    ReleaseProgress::Retiring {
                        previous_status: status,
                        stage: RetireStage::ReadingActiveTurn,
                    }
                }
            },
            (ReleaseProgress::Retiring { previous_status, stage }, reply) => {
                match stage.step(reply) {
                    RetireStep::Waiting(next) => {
                        ReleaseProgress::Retiring { previous_status, stage: next }
                    },
                    RetireStep::Finished(RetireOutcome::Busy) => {
                        ReleaseProgress::Finished(
                            Err(CodexErr::UnsupportedOperation(ReleaseRefusal::NotAtRest)),
                        )
                    },
                    RetireStep::Finished(RetireOutcome::Failed(err)) => {
                        ReleaseProgress::Finished(Err(err))
                    },
                    RetireStep::Finished(RetireOutcome::Unloaded) => {
                        residency.remove(thread_id);
                        ReleaseProgress::Finished(Ok(previous_status))
                    },
                }
            },
            (progress, _) => progress,
        };
        AgentRelease { thread_id, progress }
    }
}

} // verus!
