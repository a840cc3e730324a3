//! Laws of releasing an agent.
use crate::error::{CodexErr, ReleaseRefusal};
use crate::exchange::{ThreadFacts, ThreadReply, ThreadRequest};
use crate::history::History;
use crate::release::{AgentRelease, ReleaseProgress};
use crate::retire::{RetireStage, RetireStep};
use crate::state::ResidencyState;
use crate::thread::{AgentStatus, MultiAgentVersion, ThreadId, ThreadProfile};
use vstd::prelude::*;

verus! {

impl AgentRelease {
    /// How many replies the release still waits for at most.
    pub open spec fn replies_left(self) -> nat {
        match self.progress {
            ReleaseProgress::LockingLifecycle => 9,
            ReleaseProgress::UpgradingManager => 8,
            ReleaseProgress::LookingUp => 7,
            ReleaseProgress::ReadingRegistry { .. } => 1,
            ReleaseProgress::ReadingStatus => 6,
            ReleaseProgress::Retiring { stage, .. } => stage.replies_left(),
            ReleaseProgress::Finished(_) => 0,
        }
    }

    /// The release carried through with a thread whose facts hold still, and with nobody else using
    /// the residency.
    pub open spec fn run(self, state: ResidencyState, facts: ThreadFacts) -> (
        Result<AgentStatus, CodexErr>,
        ResidencyState,
    )
        decreases self.replies_left(),
    {
        match self.progress {
            ReleaseProgress::Finished(result) => (result, state),
            _ => {
                let (next, after) = self.spec_step(state, facts.reply(self.spec_request()->0));
                next.run(after, facts)
            },
        }
    }

    /// What a release should come to.
    pub open spec fn expected(facts: ThreadFacts, has_pending: bool) -> Result<
        AgentStatus,
        CodexErr,
    > {
        if facts.manager is Err {
            Err(facts.manager->Err_0)
        } else if facts.lookup is Err {
            if facts.registered && facts.lookup->Err_0 is ThreadNotFound {
                Ok(AgentStatus::NotFound)
            } else {
                Err(facts.lookup->Err_0)
            }
        } else if !facts.is_candidate() {
            Err(CodexErr::UnsupportedOperation(ReleaseRefusal::NotASpawnedAgent))
        } else if has_pending || !facts.status.is_releasable() || !facts.is_idle() {
            Err(CodexErr::UnsupportedOperation(ReleaseRefusal::NotAtRest))
        } else if facts.shutdown is Err {
            Err(facts.shutdown->Err_0)
        } else {
            Ok(facts.status)
        }
    }

    /// The release after a history of replies.
    pub open spec fn after(thread_id: ThreadId, history: History) -> Self
        decreases history.len(),
    {
        if history.len() == 0 {
            Self::spec_begin(thread_id)
        } else {
            Self::after(thread_id, history.earlier()).spec_step(
                history.state(),
                history.reply(),
            ).0
        }
    }

    /// The thread was found to be a spawned agent.
    pub open spec fn agent_found(history: History) -> bool {
        exists|thread: ThreadProfile|
            thread.is_candidate() && #[trigger] history.received(
                ThreadReply::ThreadLookedUp(Ok(thread)),
            )
    }
}

/// With a thread whose facts hold still, a release comes to the expected result. The residency
/// forgets the agent if the release succeeds, and otherwise stays as it was.
pub proof fn law_release_comes_to_the_expected_result(
    state: ResidencyState,
    thread_id: ThreadId,
    facts: ThreadFacts,
)
    ensures
        AgentRelease::spec_begin(thread_id).run(state, facts) == {
            let expected = AgentRelease::expected(facts, state.has_pending(thread_id));
            (
                expected,
                if expected is Ok {
                    state.removed(thread_id)
                } else {
                    state
                },
            )
        },
{
    reveal_with_fuel(AgentRelease::run, 10);
}

/// Whatever the replies and whoever uses the residency in between, one step of a release either
/// leaves the residency as it is or forgets exactly the released agent, and the latter only as the
/// release succeeds.
pub proof fn law_release_touches_only_its_agent(
    release: AgentRelease,
    state: ResidencyState,
    reply: ThreadReply,
)
    ensures
        ({
            let (next, after) = release.spec_step(state, reply);
            &&& next.thread_id == release.thread_id
            &&& after == state || after == state.removed(release.thread_id)
            &&& after != state ==> next.progress is Finished && next.progress->Finished_0 is Ok
            &&& !(release.progress is Finished) && next.progress is Finished
                && next.progress->Finished_0 is Ok ==> !after.is_resident(release.thread_id)
                && !after.has_pending(release.thread_id)
        }),
{
    crate::residency_laws::law_remove(state, release.thread_id);
}

/// Whatever the replies and whoever uses the residency in between, an agent is shut down for a
/// release only with its gate acquired, and after it was found to be a spawned agent, at rest, with
/// no unfinished submission at that moment, and idle, and after its rollout was written, from which
/// it can be loaded again. The release reports the status that the agent had then, and only once it
/// has shut down and was dropped, unless the agent was registered but not loaded.
pub proof fn law_release_shuts_down_only_agents_at_rest(thread_id: ThreadId, history: History)
    ensures
        ({
            let release = AgentRelease::after(thread_id, history);
            &&& release.thread_id == thread_id
            &&& !(release.progress is LockingLifecycle) ==> history.received(
                ThreadReply::LifecycleLocked,
            )
            &&& release.progress is ReadingStatus ==> AgentRelease::agent_found(history)
            &&& release.progress matches ReleaseProgress::ReadingRegistry { lookup_error }
                ==> history.received(ThreadReply::ThreadLookedUp(Err(lookup_error)))
            &&& release.progress matches ReleaseProgress::Retiring { previous_status, stage } ==> {
                &&& AgentRelease::agent_found(history)
                &&& previous_status.is_releasable()
                &&& history.received_unprotected(ThreadReply::Status(previous_status), thread_id)
                &&& stage is ReadingMailbox ==> history.received(ThreadReply::ActiveTurn(false))
                &&& stage is MaterializingRollout || stage is ShuttingDown
                    || stage is RemovingThread ==> history.found_idle()
                &&& stage is ShuttingDown || stage is RemovingThread ==> history.received(
                    ThreadReply::RolloutMaterialized,
                )
                &&& stage is RemovingThread ==> history.received(ThreadReply::ShutDown(Ok(())))
            }
            &&& release.progress matches ReleaseProgress::Finished(Ok(status)) ==> {
                ||| {
                    &&& status is NotFound
                    &&& history.received(ThreadReply::Registered(true))
                    &&& exists|t: ThreadId| #[trigger]
                        history.received(
                            ThreadReply::ThreadLookedUp(Err(CodexErr::ThreadNotFound(t))),
                        )
                }
                ||| {
                    &&& AgentRelease::agent_found(history)
                    &&& status.is_releasable()
                    &&& history.received_unprotected(ThreadReply::Status(status), thread_id)
                    &&& history.found_idle()
                    &&& history.unloaded()
                }
            }
        }),
    decreases history.len(),
{
    if history.len() > 0 {
        let earlier = history.earlier();
        law_release_shuts_down_only_agents_at_rest(thread_id, earlier);
        history.lemma_received(thread_id);
        let before = AgentRelease::after(thread_id, earlier);
        if AgentRelease::agent_found(earlier) {
            let thread = choose|thread: ThreadProfile|
                thread.is_candidate() && #[trigger] earlier.received(
                    ThreadReply::ThreadLookedUp(Ok(thread)),
                );
            assert(history.received(ThreadReply::ThreadLookedUp(Ok(thread))));
        }
        if let ThreadReply::ThreadLookedUp(Ok(thread)) = history.reply() {
            assert(history.received(ThreadReply::ThreadLookedUp(Ok(thread))));
        }
        if let ThreadReply::ShutDown(Ok(unit)) = history.reply() {
            assert(unit == ());
        }
        if let ReleaseProgress::ReadingRegistry { lookup_error } = before.progress {
            assert(history.received(ThreadReply::ThreadLookedUp(Err(lookup_error))));
            if let CodexErr::ThreadNotFound(t) = lookup_error {
                assert(history.received(
                    ThreadReply::ThreadLookedUp(Err(CodexErr::ThreadNotFound(t))),
                ));
            }
        }
        if exists|t: ThreadId| #[trigger]
            earlier.received(ThreadReply::ThreadLookedUp(Err(CodexErr::ThreadNotFound(t)))) {
            let t = choose|t: ThreadId| #[trigger]
                earlier.received(ThreadReply::ThreadLookedUp(Err(CodexErr::ThreadNotFound(t))));
            assert(history.received(ThreadReply::ThreadLookedUp(Err(CodexErr::ThreadNotFound(t)))));
        }
    }
}

/// A release asks for the agent's gate, then for the thread manager, then looks the agent up, then reads
/// its status, and then tries to unload it; if the look-up fails it asks the registry instead. It moves
/// on exactly when what it asked for was answered, and a release that has ended changes nothing any more.
pub proof fn law_release_asks_in_order(
    release: AgentRelease,
    state: ResidencyState,
    reply: ThreadReply,
)
    ensures
        ({
            let next = release.spec_step(state, reply).0.progress;
            &&& match release.progress {
                ReleaseProgress::LockingLifecycle => release.spec_request() == Some(
                    ThreadRequest::LockLifecycle,
                ),
                ReleaseProgress::UpgradingManager => release.spec_request() == Some(
                    ThreadRequest::UpgradeManager,
                ),
                ReleaseProgress::LookingUp => release.spec_request() == Some(
                    ThreadRequest::LookUpThread,
                ),
                ReleaseProgress::ReadingRegistry { .. } => release.spec_request() == Some(
                    ThreadRequest::ReadRegistry,
                ),
                ReleaseProgress::ReadingStatus => release.spec_request() == Some(
                    ThreadRequest::ReadStatus,
                ),
                ReleaseProgress::Retiring { stage, .. } => release.spec_request() == Some(
                    stage.spec_request(),
                ),
                ReleaseProgress::Finished(_) => release.spec_request() is None,
            }
            &&& release.progress is Finished ==> release.spec_step(state, reply) == (release, state)
            &&& !(release.progress is Finished) ==> (release.spec_request()->0.is_answered_by(reply)
                <==> next != release.progress)
            &&& next == release.progress || match next {
                ReleaseProgress::LockingLifecycle => false,
                ReleaseProgress::UpgradingManager => release.progress is LockingLifecycle,
                ReleaseProgress::LookingUp => release.progress is UpgradingManager,
                ReleaseProgress::ReadingRegistry { lookup_error } => release.progress is LookingUp
                    && reply == ThreadReply::ThreadLookedUp(Err(lookup_error)),
                ReleaseProgress::ReadingStatus => release.progress is LookingUp,
                ReleaseProgress::Retiring { previous_status, stage } => {
                    ||| release.progress is ReadingStatus && stage is ReadingActiveTurn && reply
                        == ThreadReply::Status(previous_status)
                    ||| release.progress matches ReleaseProgress::Retiring {
                        previous_status: status,
                        stage: before,
                    } && status == previous_status && before.spec_step(reply)
                        == RetireStep::Waiting(stage)
                },
                ReleaseProgress::Finished(_) => true,
            }
        }),
{
    if let ReleaseProgress::Retiring { stage, .. } = release.progress {
        crate::retire::law_retiring_asks_in_order(stage, reply);
    }
}

/// A release succeeds in two ways only: the agent is known to the registry and was not found loaded, or
/// it was dropped after all that has to be found out; the latter reports the status found before. The
/// residency then forgets the agent, and at no other step does it change.
pub proof fn law_release_succeeds_for_a_reason(
    release: AgentRelease,
    state: ResidencyState,
    reply: ThreadReply,
    status: AgentStatus,
)
    requires
        !(release.progress is Finished),
    ensures
        ({
            let (next, after) = release.spec_step(state, reply);
            &&& next.progress == ReleaseProgress::Finished(Ok(status)) <==> {
                ||| {
                    &&& release.progress matches ReleaseProgress::ReadingRegistry { lookup_error }
                        && lookup_error is ThreadNotFound
                    &&& reply == ThreadReply::Registered(true)
                    &&& status is NotFound
                }
                ||| {
                    &&& release.progress == ReleaseProgress::Retiring {
                        previous_status: status,
                        stage: RetireStage::RemovingThread,
                    }
                    &&& reply is ThreadRemoved
                }
            }
            &&& next.progress == ReleaseProgress::Finished(Ok(status)) ==> after == state.removed(
                release.thread_id,
            )
            &&& !(next.progress is Finished) ==> after == state
            &&& next.progress matches ReleaseProgress::Finished(Err(_)) ==> after == state
        }),
{
}

/// A release fails for these reasons only: the thread manager is gone; the look-up failed, and not just
/// because a registered agent is not loaded; the thread is no agent of the second runtime generation;
/// the agent is neither completed nor interrupted, or has unfinished submissions when its status is
/// read, or a running turn, or waiting mailbox items; or it fails to shut down.
pub proof fn law_release_fails_for_a_reason(
    release: AgentRelease,
    state: ResidencyState,
    reply: ThreadReply,
    err: CodexErr,
)
    requires
        !(release.progress is Finished),
        state.wf(),
    ensures
        release.spec_step(state, reply).0.progress == ReleaseProgress::Finished(Err(err)) <==> {
            ||| {
                &&& release.progress is UpgradingManager
                &&& reply == ThreadReply::ManagerUpgraded(Err(err))
            }
            ||| {
                &&& release.progress == ReleaseProgress::ReadingRegistry { lookup_error: err }
                &&& reply matches ThreadReply::Registered(registered) && !(registered && err
                    is ThreadNotFound)
            }
            ||| {
                &&& release.progress is LookingUp
                &&& reply matches ThreadReply::ThreadLookedUp(Ok(profile)) && (
                profile.multi_agent_version != Some(MultiAgentVersion::V2) || !(
                profile.session_source is SubAgent))
                &&& err == CodexErr::UnsupportedOperation(ReleaseRefusal::NotASpawnedAgent)
            }
            ||| {
                &&& release.progress is ReadingStatus
                &&& reply matches ThreadReply::Status(status) && (!(status is Completed || status
                    is Interrupted) || state.pending_submissions.contains_key(release.thread_id))
                &&& err == CodexErr::UnsupportedOperation(ReleaseRefusal::NotAtRest)
            }
            ||| {
                &&& release.progress matches ReleaseProgress::Retiring { stage, .. } && {
                    ||| stage is ReadingActiveTurn && reply == ThreadReply::ActiveTurn(true)
                    ||| stage is ReadingMailbox && reply == ThreadReply::PendingMailboxItems(true)
                }
                &&& err == CodexErr::UnsupportedOperation(ReleaseRefusal::NotAtRest)
            }
            ||| {
                &&& release.progress matches ReleaseProgress::Retiring { stage, .. } && stage
                    is ShuttingDown
                &&& reply == ThreadReply::ShutDown(Err(err))
            }
        },
{
    crate::operation_laws::law_pending_means_that_a_submission_is_recorded(
        state,
        release.thread_id,
    );
}

/// What a release comes to if the facts about the thread hold still. Every agent of the second runtime
/// generation that is completed or interrupted, idle, and without unfinished submissions is released
/// with that status, if it shuts down, and the residency forgets it. Everyone else stays as they were,
/// and the first thing that stands in the way is reported.
pub proof fn law_release_of_an_agent_at_rest(
    state: ResidencyState,
    thread_id: ThreadId,
    facts: ThreadFacts,
)
    requires
        state.wf(),
    ensures
        ({
            let (result, after) = AgentRelease::spec_begin(thread_id).run(state, facts);
            let busy = state.pending_submissions.contains_key(thread_id) || facts.active_turn
                || facts.pending_mailbox_items || !(facts.status is Completed || facts.status
                is Interrupted);
            &&& match (facts.manager, facts.lookup) {
                (Err(err), _) => result == Err::<AgentStatus, CodexErr>(err),
                (Ok(_), Err(CodexErr::ThreadNotFound(id))) => result == if facts.registered {
                    Ok::<AgentStatus, CodexErr>(AgentStatus::NotFound)
                } else {
                    Err(CodexErr::ThreadNotFound(id))
                },
                (Ok(_), Err(err)) => result == Err::<AgentStatus, CodexErr>(err),
                (Ok(_), Ok(profile)) => {
                    &&& (profile.multi_agent_version != Some(MultiAgentVersion::V2) || !(
                    profile.session_source is SubAgent)) ==> result == Err::<AgentStatus, CodexErr>(
                        CodexErr::UnsupportedOperation(ReleaseRefusal::NotASpawnedAgent),
                    )
                    &&& profile.multi_agent_version == Some(MultiAgentVersion::V2)
                        && profile.session_source is SubAgent ==> result == if busy {
                        Err::<AgentStatus, CodexErr>(
                            CodexErr::UnsupportedOperation(ReleaseRefusal::NotAtRest),
                        )
                    } else {
                        match facts.shutdown {
                            Ok(_) => Ok::<AgentStatus, CodexErr>(facts.status),
                            Err(err) => Err(err),
                        }
                    }
                },
            }
            &&& result is Err ==> after == state
            &&& result is Ok ==> {
                &&& after.residents == state.residents.filter(|t: ThreadId| t != thread_id)
                &&& !after.pending_submissions.contains_key(thread_id)
                &&& forall|t: ThreadId|
                    t != thread_id ==> (#[trigger] after.pending_submissions.contains_key(t)
                        <==> state.pending_submissions.contains_key(t))
                &&& forall|t: ThreadId|
                    t != thread_id && state.pending_submissions.contains_key(t)
                        ==> #[trigger] after.pending_submissions[t] == state.pending_submissions[t]
                &&& after.pending_slots == state.pending_slots
                &&& after.lifecycle_gates == state.lifecycle_gates
            }
        }),
{
    law_release_comes_to_the_expected_result(state, thread_id, facts);
    crate::operation_laws::law_pending_means_that_a_submission_is_recorded(state, thread_id);
    crate::operation_laws::law_remove_keeps_the_order_of_the_others(state, thread_id);
}

} // verus!
