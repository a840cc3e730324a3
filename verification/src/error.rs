//! Errors of residency operations.
use crate::thread::ThreadId;
use vstd::prelude::*;

verus! {

/// Why a release was refused.
#[derive(Clone, Copy, Debug, PartialEq, Eq)]
pub enum ReleaseRefusal {
    /// The thread is not a spawned agent of the second runtime generation.
    NotASpawnedAgent,
    /// The agent still has work, or ended in a state that must stay loaded.
    NotAtRest,
}

#[derive(Clone, Debug, PartialEq, Eq)]
pub enum CodexErr {
    ThreadNotFound(ThreadId),
    AgentLimitReached { max_threads: usize },
    UnsupportedOperation(ReleaseRefusal),
    /// Any other failure reported by the thread manager or by a thread.
    Other(String),
}

impl ReleaseRefusal {
    pub open spec fn text(self) -> Seq<char> {
        match self {
            ReleaseRefusal::NotASpawnedAgent => "only spawned MultiAgentV2 agents can be released"@,
            ReleaseRefusal::NotAtRest => "agent must be completed or interrupted with no pending messages before it can be released"@,
        }
    }

    /// The explanation shown to whoever asked for the release.
    pub fn message(self) -> (text: &'static str)
        ensures
            text@ == self.text(),
            self is NotASpawnedAgent ==> text@
                == "only spawned MultiAgentV2 agents can be released"@,
            self is NotAtRest ==> text@
                == "agent must be completed or interrupted with no pending messages before it can be released"@,
    {
        match self {
            ReleaseRefusal::NotASpawnedAgent => "only spawned MultiAgentV2 agents can be released",
            ReleaseRefusal::NotAtRest => "agent must be completed or interrupted with no pending messages before it can be released",
        }
    }
}

} // verus!
