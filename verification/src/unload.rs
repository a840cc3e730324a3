//! Making room: unloading the least recently used agent that can be spared.
use crate::exchange::{ThreadReply, ThreadRequest};
use crate::residency::V2Residency;
use crate::retire::{RetireOutcome, RetireStage, RetireStep};
use crate::state::ResidencyState;
use crate::thread::{is_resident_candidate, is_unloadable_with_status, ThreadId};
use vstd::prelude::*;

verus! {

/// How far the examination of one candidate has come.
#[derive(Clone, Copy, Debug, PartialEq, Eq)]
pub enum CandidateStage {
    LockingLifecycle,
    LookingUp,
    ReadingStatus,
    Retiring(RetireStage),
}

#[derive(Clone, Copy, Debug, PartialEq, Eq)]
pub enum ScanProgress {
    /// The candidate was taken out of the residents; the scan waits for a reply about it.
    Examining { candidate: ThreadId, stage: CandidateStage },
    /// Whether an agent was unloaded.
    Finished(bool),
}

/// A walk over the residents in search of one that can be unloaded.
///
/// Each candidate either goes back to the residents as the most recently used one, or turns out not
/// to belong there and is forgotten, or is unloaded, which ends the walk. A walk examines at most as
/// many candidates as there were residents when it began.
#[derive(Clone, Copy, Debug, PartialEq, Eq)]
pub struct UnloadScan {
    /// A resident that must stay.
    pub protected_thread_id: Option<ThreadId>,
    /// How many more candidates may be examined after the current one.
    pub candidates_left: usize,
    pub progress: ScanProgress,
}

impl CandidateStage {
    pub open spec fn spec_request(self) -> ThreadRequest {
        match self {
            CandidateStage::LockingLifecycle => ThreadRequest::LockLifecycle,
            CandidateStage::LookingUp => ThreadRequest::LookUpThread,
            CandidateStage::ReadingStatus => ThreadRequest::ReadStatus,
            CandidateStage::Retiring(stage) => stage.spec_request(),
        }
    }

    /// What the examination waits for.
    pub fn request(self) -> (request: ThreadRequest)
        ensures
            request == self.spec_request(),
    {
        match self {
            CandidateStage::LockingLifecycle => ThreadRequest::LockLifecycle,
            CandidateStage::LookingUp => ThreadRequest::LookUpThread,
            CandidateStage::ReadingStatus => ThreadRequest::ReadStatus,
            CandidateStage::Retiring(stage) => stage.request(),
        }
    }
}

/// What a reply means for the candidate under examination.
#[derive(Clone, Copy, Debug, PartialEq, Eq)]
pub enum Verdict {
    /// More has to be known.
    Continue(CandidateStage),
    /// No loaded agent of the residency: forget it.
    Stray,
    /// Cannot be spared now: back to the residents.
    Keep,
    /// It was unloaded.
    Unloaded,
}

impl CandidateStage {
    /// A candidate that is not loaded, or does not count toward residency, is a stray. One with an
    /// unfinished submission is kept, and so is one that has not come to rest, is not idle, or fails
    /// to shut down. A reply to anything but the pending request changes nothing.
    pub open spec fn spec_judge(self, has_pending: bool, reply: ThreadReply) -> Verdict {
        match (self, reply) {
            (CandidateStage::LockingLifecycle, ThreadReply::LifecycleLocked) => Verdict::Continue(
                CandidateStage::LookingUp,
            ),
            (CandidateStage::LookingUp, ThreadReply::ThreadLookedUp(lookup)) => {
                if lookup is Err || !lookup->Ok_0.is_candidate() {
                    Verdict::Stray
                } else if has_pending {
                    Verdict::Keep
                } else {
                    Verdict::Continue(CandidateStage::ReadingStatus)
                }
            },
            (CandidateStage::ReadingStatus, ThreadReply::Status(status)) => {
                if status.is_unloadable() {
                    Verdict::Continue(CandidateStage::Retiring(RetireStage::ReadingActiveTurn))
                } else {
                    Verdict::Keep
                }
            },
            (CandidateStage::Retiring(stage), _) => {
                match stage.spec_step(reply) {
                    RetireStep::Waiting(next) => Verdict::Continue(CandidateStage::Retiring(next)),
                    RetireStep::Finished(RetireOutcome::Unloaded) => Verdict::Unloaded,
                    RetireStep::Finished(_) => Verdict::Keep,
                }
            },
            _ => Verdict::Continue(self),
        }
    }

    /// Judges the candidate by one more reply.
    pub fn judge(self, has_pending: bool, reply: ThreadReply) -> (verdict: Verdict)
        ensures
            verdict == self.spec_judge(has_pending, reply),
    {
        match (self, reply) {
            (CandidateStage::LockingLifecycle, ThreadReply::LifecycleLocked) => {
                Verdict::Continue(CandidateStage::LookingUp)
            },
            (CandidateStage::LookingUp, ThreadReply::ThreadLookedUp(lookup)) => {
                match lookup {
                    Ok(thread) => {
                        if !is_resident_candidate(&thread) {
                            Verdict::Stray
                        } else if has_pending {
                            Verdict::Keep
                        } else {
                            Verdict::Continue(CandidateStage::ReadingStatus)
                        }
                    },
                    Err(_) => Verdict::Stray,
                }
            },
            (CandidateStage::ReadingStatus, ThreadReply::Status(status)) => {
                if is_unloadable_with_status(&status) {
                    Verdict::Continue(CandidateStage::Retiring(RetireStage::ReadingActiveTurn))
                } else {
                    Verdict::Keep
                }
            },
            (CandidateStage::Retiring(stage), reply) => {
                match stage.step(reply) {
                    RetireStep::Waiting(next) => Verdict::Continue(CandidateStage::Retiring(next)),
                    RetireStep::Finished(RetireOutcome::Unloaded) => Verdict::Unloaded,
                    RetireStep::Finished(_) => Verdict::Keep,
                }
            },
            _ => Verdict::Continue(self),
        }
    }
}

impl UnloadScan {
    /// The scan never takes up the protected resident.
    pub open spec fn wf(self) -> bool {
        match self.progress {
            ScanProgress::Examining { candidate, .. } => Some(candidate)
                != self.protected_thread_id,
            ScanProgress::Finished(_) => true,
        }
    }

    /// Takes up the next candidate, as long as one may be examined and there is one.
    pub open spec fn spec_advance(
        state: ResidencyState,
        protected_thread_id: Option<ThreadId>,
        candidates: usize,
    ) -> (UnloadScan, ResidencyState) {
        let candidate = state.lru_candidate(protected_thread_id);
        if candidates == 0 || candidate is None {
            (
                UnloadScan {
                    protected_thread_id,
                    candidates_left: 0,
                    progress: ScanProgress::Finished(false),
                },
                state,
            )
        } else {
            (
                UnloadScan {
                    protected_thread_id,
                    candidates_left: (candidates - 1) as usize,
                    progress: ScanProgress::Examining {
                        candidate: candidate->0,
                        stage: CandidateStage::LockingLifecycle,
                    },
                },
                state.lru_popped(protected_thread_id),
            )
        }
    }

    /// The scan takes up its first candidate, and may examine as many as there are residents.
    pub open spec fn spec_begin(
        state: ResidencyState,
        protected_thread_id: Option<ThreadId>,
    ) -> (UnloadScan, ResidencyState) {
        Self::spec_advance(state, protected_thread_id, state.residents.len() as usize)
    }

    /// The verdict on the candidate takes effect, and unless it was unloaded the scan goes on.
    pub open spec fn spec_step(self, state: ResidencyState, reply: ThreadReply) -> (
        UnloadScan,
        ResidencyState,
    ) {
        match self.progress {
            ScanProgress::Finished(_) => (self, state),
            ScanProgress::Examining { candidate, stage } => {
                match stage.spec_judge(state.has_pending(candidate), reply) {
                    Verdict::Continue(next) => (
                        UnloadScan {
                            progress: ScanProgress::Examining { candidate, stage: next },
                            ..self
                        },
                        state,
                    ),
                    Verdict::Stray => Self::spec_advance(
                        state.removed(candidate),
                        self.protected_thread_id,
                        self.candidates_left,
                    ),
                    Verdict::Keep => Self::spec_advance(
                        state.touched(candidate),
                        self.protected_thread_id,
                        self.candidates_left,
                    ),
                    Verdict::Unloaded => (
                        UnloadScan { progress: ScanProgress::Finished(true), ..self },
                        state.removed(candidate),
                    ),
                }
            },
        }
    }

    fn advance(
        residency: &mut V2Residency,
        protected_thread_id: Option<ThreadId>,
        candidates: usize,
    ) -> (scan: UnloadScan)
        requires
            old(residency)@.wf(),
        ensures
            (scan, final(residency)@) == Self::spec_advance(
                old(residency)@,
                protected_thread_id,
                candidates,
            ),
            scan.wf(),
            final(residency)@.wf(),
    {
        if candidates > 0 {
            if let Some(candidate) = residency.pop_lru_candidate(protected_thread_id) {
                return UnloadScan {
                    protected_thread_id,
                    candidates_left: candidates - 1,
                    progress: ScanProgress::Examining {
                        candidate,
                        stage: CandidateStage::LockingLifecycle,
                    },
                };
            }
        }
        UnloadScan {
            protected_thread_id,
            candidates_left: 0,
            progress: ScanProgress::Finished(false),
        }
    }

    /// Begins a walk over the residents.
    pub fn begin(residency: &mut V2Residency, protected_thread_id: Option<ThreadId>) -> (scan:
        UnloadScan)
        requires
            old(residency)@.wf(),
        ensures
            (scan, final(residency)@) == Self::spec_begin(old(residency)@, protected_thread_id),
            scan.wf(),
            final(residency)@.wf(),
    {
        let candidates_to_scan = residency.resident_count();
        Self::advance(residency, protected_thread_id, candidates_to_scan)
    }

    /// The candidate and what the scan waits for, until the scan is finished.
    pub fn request(&self) -> (request: Option<(ThreadId, ThreadRequest)>)
        ensures
            request == match self.progress {
                ScanProgress::Examining { candidate, stage } => Some(
                    (candidate, stage.spec_request()),
                ),
                ScanProgress::Finished(_) => None,
            },
    {
        match self.progress {
            ScanProgress::Examining { candidate, stage } => Some((candidate, stage.request())),
            ScanProgress::Finished(_) => None,
        }
    }

    /// Takes the scan one reply further.
    pub fn step(self, residency: &mut V2Residency, reply: ThreadReply) -> (scan: UnloadScan)
        requires
            old(residency)@.wf(),
            self.wf(),
        ensures
            (scan, final(residency)@) == self.spec_step(old(residency)@, reply),
            scan.wf(),
            final(residency)@.wf(),
    {
        match self.progress {
            ScanProgress::Finished(_) => self,
            ScanProgress::Examining { candidate, stage } => {
                let has_pending = residency.has_pending_submission(candidate);
                match stage.judge(has_pending, reply) {
                    Verdict::Continue(next) => {
                        UnloadScan {
                            progress: ScanProgress::Examining { candidate, stage: next },
                            ..self
                        }
                    },
                    Verdict::Stray => {
                        residency.remove(candidate);
                        Self::advance(residency, self.protected_thread_id, self.candidates_left)
                    },
                    Verdict::Keep => {
                        residency.touch(candidate);
                        Self::advance(residency, self.protected_thread_id, self.candidates_left)
                    },
                    Verdict::Unloaded => {
                        residency.remove(candidate);
                        UnloadScan { progress: ScanProgress::Finished(true), ..self }
                    },
                }
            },
        }
    }
}

} // verus!
