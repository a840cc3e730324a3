//! What the residency rules read of a thread.
use vstd::prelude::*;

verus! {

/// Identity of a thread: its UUID as an integer.
pub type ThreadId = u128;

/// Generation of the multi-agent runtime that a thread belongs to.
#[derive(Clone, Copy, Debug, PartialEq, Eq)]
pub enum MultiAgentVersion {
    V1,
    V2,
}

/// How an agent thread came to be.
#[derive(Clone, Debug, PartialEq, Eq)]
pub enum SubAgentSource {
    /// Another thread spawned it.
    ThreadSpawn {
        parent_thread_id: ThreadId,
        depth: i32,
        agent_path: Option<String>,
        agent_nickname: Option<String>,
        agent_role: Option<String>,
    },
    /// Some other mechanism, described by a label.
    Other(String),
}

/// Where a session was started from.
#[derive(Clone, Debug, PartialEq, Eq)]
pub enum SessionSource {
    Exec,
    SubAgent(SubAgentSource),
    /// Any other origin, described by a label.
    Other(String),
}

/// Last known status of an agent.
#[derive(Clone, Debug, PartialEq, Eq)]
pub enum AgentStatus {
    PendingInit,
    Running,
    Interrupted,
    /// The last turn ended, with the agent's final message if there was one.
    Completed(Option<String>),
    /// The last turn failed, with a description.
    Errored(String),
    Shutdown,
    NotFound,
}

/// The facts about a loaded thread that never change while it is loaded.
#[derive(Clone, Debug, PartialEq, Eq)]
pub struct ThreadProfile {
    pub multi_agent_version: Option<MultiAgentVersion>,
    pub session_source: SessionSource,
}

impl SessionSource {
    /// Only spawned agents take up residency.
    pub open spec fn is_spawned_agent(self) -> bool {
        self is SubAgent
    }
}

impl ThreadProfile {
    /// A thread counts toward residency if it is a spawned agent of the second runtime generation.
    pub open spec fn is_candidate(self) -> bool {
        &&& self.multi_agent_version == Some(MultiAgentVersion::V2)
        &&& self.session_source.is_spawned_agent()
    }
}

impl AgentStatus {
    /// Statuses in which a full residency may unload an agent to make room.
    pub open spec fn is_unloadable(self) -> bool {
        self is Completed || self is Errored || self is Interrupted
    }

    /// Statuses in which an agent may be released on request.
    pub open spec fn is_releasable(self) -> bool {
        self is Completed || self is Interrupted
    }
}

/// Whether sessions from this source can be residents.
pub fn is_v2_resident_session_source(session_source: &SessionSource) -> (yes: bool)
    ensures
        yes == session_source.is_spawned_agent(),
        yes == (session_source is SubAgent),
{
    matches!(session_source, SessionSource::SubAgent(_))
}

/// Whether the thread counts toward residency.
pub fn is_resident_candidate(thread: &ThreadProfile) -> (yes: bool)
    ensures
        yes == thread.is_candidate(),
        yes == (thread.multi_agent_version == Some(MultiAgentVersion::V2)
            && thread.session_source is SubAgent),
{
    matches!(thread.multi_agent_version, Some(MultiAgentVersion::V2))
        && is_v2_resident_session_source(&thread.session_source)
}

/// Whether an idle agent with this status may be unloaded to make room.
pub fn is_unloadable_with_status(status: &AgentStatus) -> (yes: bool)
    ensures
        yes == status.is_unloadable(),
        yes == (status is Completed || status is Errored || status is Interrupted),
{
    matches!(
        status,
        AgentStatus::Completed(_) | AgentStatus::Errored(_) | AgentStatus::Interrupted
    )
}

/// Whether an idle agent with this status may be released on request.
pub fn is_releasable_with_status(status: &AgentStatus) -> (yes: bool)
    ensures
        yes == status.is_releasable(),
        yes == (status is Completed || status is Interrupted),
{
    matches!(status, AgentStatus::Completed(_) | AgentStatus::Interrupted)
}

/// Whatever can be released on request can also be unloaded to make room, and the one status that
/// tells the two apart is a failed last turn.
pub proof fn law_releasable_is_unloadable_without_error(status: AgentStatus)
    ensures
        status.is_releasable() <==> status.is_unloadable() && !(status is Errored),
{
}

/// A thread counts toward residency if and only if it belongs to the second runtime generation and is
/// an agent, however the agent came to be: whether another thread spawned it, by whatever parent, at
/// whatever depth and under whatever name, or another mechanism did.
pub proof fn law_every_v2_agent_counts_toward_residency(profile: ThreadProfile)
    ensures
        match profile.session_source {
            SessionSource::SubAgent(_) => profile.is_candidate() <==> profile.multi_agent_version
                == Some(MultiAgentVersion::V2),
            SessionSource::Exec => !profile.is_candidate(),
            SessionSource::Other(_) => !profile.is_candidate(),
        },
        profile.is_candidate() ==> profile.multi_agent_version is Some
            && profile.multi_agent_version->0 is V2,
        profile.session_source.is_spawned_agent() <==> profile.session_source is SubAgent,
{
}

/// Whether a thread counts toward residency does not depend on which agent it is, only on its being
/// one.
pub proof fn law_agents_of_one_generation_count_alike(
    one: SubAgentSource,
    another: SubAgentSource,
    version: Option<MultiAgentVersion>,
)
    ensures
        (ThreadProfile {
            multi_agent_version: version,
            session_source: SessionSource::SubAgent(one),
        }).is_candidate() == (ThreadProfile {
            multi_agent_version: version,
            session_source: SessionSource::SubAgent(another),
        }).is_candidate(),
{
}

/// A completed or interrupted agent may be released and may be unloaded to make room, whatever its
/// last message was; one whose last turn failed may be unloaded to make room only; and one that is
/// still to begin, is running, has shut down or is not there may be neither.
pub proof fn law_statuses_at_rest(status: AgentStatus)
    ensures
        match status {
            AgentStatus::Completed(_) => status.is_releasable() && status.is_unloadable(),
            AgentStatus::Interrupted => status.is_releasable() && status.is_unloadable(),
            AgentStatus::Errored(_) => !status.is_releasable() && status.is_unloadable(),
            AgentStatus::PendingInit => !status.is_releasable() && !status.is_unloadable(),
            AgentStatus::Running => !status.is_releasable() && !status.is_unloadable(),
            AgentStatus::Shutdown => !status.is_releasable() && !status.is_unloadable(),
            AgentStatus::NotFound => !status.is_releasable() && !status.is_unloadable(),
        },
{
}

} // verus!
