use std::collections::HashMap;
use tokio::sync::OwnedMutexGuard;
use v2_residency::error::{CodexErr, ReleaseRefusal};
use v2_residency::exchange::{ThreadReply, ThreadRequest};
use v2_residency::release::{AgentRelease, ReleaseProgress};
use v2_residency::reservation::{
    reserve_v2_residency_slot, residency_capacity, ReservationProgress, SlotReservation,
    V2ResidencySlot,
};
use v2_residency::residency::V2Residency;
use v2_residency::thread::{
    AgentStatus, MultiAgentVersion, SessionSource, SubAgentSource, ThreadId, ThreadProfile,
};
use v2_residency::unload::{CandidateStage, ScanProgress, UnloadScan, Verdict};

const ROOT: ThreadId = 1;
const WORKER: ThreadId = 2;

/// A thread as the thread manager of a test holds it.
#[derive(Clone)]
struct Thread {
    profile: ThreadProfile,
    status: AgentStatus,
    active_turn: bool,
    mailbox_items: bool,
    shutdown: Result<(), CodexErr>,
}

#[derive(Default)]
struct Manager {
    threads: HashMap<ThreadId, Thread>,
    rollouts: HashMap<ThreadId, AgentStatus>,
    registered: Vec<ThreadId>,
    dropped: bool,
    broken: bool,
    log: Vec<(ThreadId, ThreadRequest)>,
    guard: Option<OwnedMutexGuard<()>>,
}

fn agent(status: AgentStatus) -> Thread {
    Thread {
        profile: ThreadProfile {
            multi_agent_version: Some(MultiAgentVersion::V2),
            session_source: SessionSource::SubAgent(SubAgentSource::Other("worker".to_string())),
        },
        status,
        active_turn: false,
        mailbox_items: false,
        shutdown: Ok(()),
    }
}

fn done() -> AgentStatus {
    AgentStatus::Completed(Some("done".to_string()))
}

impl Manager {
    fn perform(
        &mut self,
        residency: &mut V2Residency,
        id: ThreadId,
        request: ThreadRequest,
    ) -> ThreadReply {
        self.log.push((id, request));
        match request {
            ThreadRequest::LockLifecycle => {
                self.guard = None;
                let gate = residency.lifecycle_gate(id);
                self.guard = Some(gate.try_lock_owned().expect("nobody else holds it"));
                ThreadReply::LifecycleLocked
            }
            ThreadRequest::UpgradeManager => ThreadReply::ManagerUpgraded(if self.dropped {
                Err(CodexErr::Other("thread manager dropped".to_string()))
            } else {
                Ok(())
            }),
            ThreadRequest::LookUpThread => ThreadReply::ThreadLookedUp(if self.broken {
                Err(CodexErr::Other("store unavailable".to_string()))
            } else {
                match self.threads.get(&id) {
                    Some(thread) => Ok(thread.profile.clone()),
                    None => Err(CodexErr::ThreadNotFound(id)),
                }
            }),
            ThreadRequest::ReadRegistry => ThreadReply::Registered(self.registered.contains(&id)),
            ThreadRequest::ReadStatus => ThreadReply::Status(self.threads[&id].status.clone()),
            ThreadRequest::ReadActiveTurn => ThreadReply::ActiveTurn(self.threads[&id].active_turn),
            ThreadRequest::ReadMailbox => {
                ThreadReply::PendingMailboxItems(self.threads[&id].mailbox_items)
            }
            ThreadRequest::MaterializeRollout => {
                self.rollouts.insert(id, self.threads[&id].status.clone());
                ThreadReply::RolloutMaterialized
            }
            ThreadRequest::ShutDown => ThreadReply::ShutDown(self.threads[&id].shutdown.clone()),
            ThreadRequest::RemoveThread => {
                self.threads.remove(&id);
                ThreadReply::ThreadRemoved
            }
        }
    }

    fn reserve(
        &mut self,
        residency: &mut V2Residency,
        max_threads: Option<usize>,
        protected: Option<ThreadId>,
    ) -> Result<V2ResidencySlot, CodexErr> {
        let mut reservation = reserve_v2_residency_slot(residency, max_threads, protected);
        while let Some((id, request)) = reservation.request() {
            let reply = self.perform(residency, id, request);
            reservation = reservation.step(residency, reply);
        }
        self.guard = None;
        match reservation.progress {
            ReservationProgress::Finished(result) => result,
            ReservationProgress::Unloading(_) => panic!("reservation stopped half way"),
        }
    }

    fn release(
        &mut self,
        residency: &mut V2Residency,
        id: ThreadId,
    ) -> Result<AgentStatus, CodexErr> {
        let mut release = AgentRelease::begin(id);
        while let Some(request) = release.request() {
            let reply = self.perform(residency, id, request);
            release = release.step(residency, reply);
        }
        self.guard = None;
        match release.progress {
            ReleaseProgress::Finished(result) => result,
            _ => panic!("release stopped half way"),
        }
    }

    fn scan(&mut self, residency: &mut V2Residency, protected: Option<ThreadId>) -> bool {
        let mut scan = UnloadScan::begin(residency, protected);
        while let Some((id, request)) = scan.request() {
            let reply = self.perform(residency, id, request);
            scan = scan.step(residency, reply);
        }
        self.guard = None;
        match scan.progress {
            ScanProgress::Finished(unloaded) => unloaded,
            ScanProgress::Examining { .. } => panic!("scan stopped half way"),
        }
    }
}

fn drain(residency: &mut V2Residency) -> Vec<ThreadId> {
    let mut order = Vec::new();
    while let Some(thread) = residency.pop_lru_candidate(None) {
        order.push(thread);
    }
    order
}

/// Residents in the given order, each with its thread.
fn loaded(agents: Vec<(ThreadId, Thread)>) -> (V2Residency, Manager) {
    let mut residency = V2Residency::default();
    let mut manager = Manager::default();
    for (id, thread) in agents {
        residency.touch(id);
        manager.threads.insert(id, thread);
        manager.registered.push(id);
    }
    (residency, manager)
}

#[test]
fn residency_slot_reservation_unloads_oldest_idle_v2_agent() {
    let mut residency = V2Residency::default();
    let mut manager = Manager::default();
    let mut root = agent(AgentStatus::Running);
    root.profile.session_source = SessionSource::Exec;
    manager.threads.insert(ROOT, root);
    let max_threads = Some(1);

    let first_slot =
        manager.reserve(&mut residency, max_threads, None).expect("first resident slot");
    let first: ThreadId = 10;
    manager.threads.insert(first, agent(AgentStatus::Running));
    first_slot.commit(&mut residency, first);
    manager.threads.get_mut(&first).unwrap().status = done();

    let second_slot = manager
        .reserve(&mut residency, max_threads, None)
        .expect("second resident slot should evict the first idle agent");
    assert!(!manager.threads.contains_key(&first), "expected evicted thread to be missing");
    let second: ThreadId = 11;
    manager.threads.insert(second, agent(AgentStatus::Running));
    second_slot.commit(&mut residency, second);

    assert!(manager.threads.contains_key(&ROOT));
    assert!(manager.threads.contains_key(&second));
    assert_eq!(drain(&mut residency), vec![second]);
}

#[test]
fn released_interrupted_v2_agent_reloads_with_its_last_status() {
    let mut residency = V2Residency::default();
    let mut manager = Manager::default();
    let slot = manager.reserve(&mut residency, None, None).expect("resident slot");
    manager.threads.insert(WORKER, agent(AgentStatus::Running));
    manager.registered.push(WORKER);
    slot.commit(&mut residency, WORKER);
    manager.threads.get_mut(&WORKER).unwrap().status = AgentStatus::Interrupted;

    let status = manager.release(&mut residency, WORKER).expect("release terminal worker");
    assert_eq!(status, AgentStatus::Interrupted);
    assert!(!manager.threads.contains_key(&WORKER));
    assert_eq!(residency.resident_count(), 0);

    let slot = manager.reserve(&mut residency, None, None).expect("reload released worker");
    let last = manager.rollouts[&WORKER].clone();
    manager.threads.insert(WORKER, agent(last));
    slot.commit(&mut residency, WORKER);
    assert_eq!(manager.threads[&WORKER].status, AgentStatus::Interrupted);
}

#[test]
fn followup_waits_for_release_and_reloads_the_agent() {
    let (mut residency, mut manager) = loaded(vec![(WORKER, agent(done()))]);
    let mut release = AgentRelease::begin(WORKER);
    while release.request() != Some(ThreadRequest::ShutDown) {
        let request = release.request().expect("release should enter thread shutdown");
        let reply = manager.perform(&mut residency, WORKER, request);
        release = release.step(&mut residency, reply);
    }

    let followup = residency.lifecycle_gate(WORKER);
    assert!(
        followup.clone().try_lock_owned().is_err(),
        "follow-up must wait for the in-progress release"
    );

    while let Some(request) = release.request() {
        let reply = manager.perform(&mut residency, WORKER, request);
        release = release.step(&mut residency, reply);
    }
    assert_eq!(release.progress, ReleaseProgress::Finished(Ok(done())));
    manager.guard = None;
    let guard = followup.try_lock_owned().expect("follow-up should be admitted");
    assert!(!manager.threads.contains_key(&WORKER));
    let slot = manager.reserve(&mut residency, Some(1), None).expect("slot for the reload");
    manager.threads.insert(WORKER, agent(manager.rollouts[&WORKER].clone()));
    slot.commit(&mut residency, WORKER);
    drop(guard);
    assert!(
        manager.threads.contains_key(&WORKER),
        "a follow-up admitted during release must run on a reloaded worker"
    );
}

#[test]
fn followup_task_is_woken_when_the_release_ends() {
    let mut residency = V2Residency::default();
    let releasing = residency.lifecycle_gate(WORKER).try_lock_owned().expect("release is first");
    let followup = residency.lifecycle_gate(WORKER);
    let runtime = tokio::runtime::Builder::new_current_thread().build().expect("runtime");
    runtime.block_on(async {
        let waiting = tokio::spawn(async move {
            let _guard = followup.lock_owned().await;
        });
        tokio::task::yield_now().await;
        assert!(!waiting.is_finished());
        drop(releasing);
        waiting.await.expect("follow-up task should finish");
    });
}

#[test]
fn capacity_is_the_limit_or_unbounded() {
    assert_eq!(residency_capacity(Some(0)), 0);
    assert_eq!(residency_capacity(Some(6)), 6);
    assert_eq!(residency_capacity(None), usize::MAX);
}

#[test]
fn reservation_without_capacity_reports_the_limit() {
    let mut residency = V2Residency::default();
    let mut manager = Manager::default();
    let result = manager.reserve(&mut residency, Some(0), None);
    assert_eq!(result, Err(CodexErr::AgentLimitReached { max_threads: 0 }));
}

#[test]
fn dropped_slot_is_given_back() {
    let mut residency = V2Residency::default();
    let mut manager = Manager::default();
    let slot = manager.reserve(&mut residency, Some(1), None).expect("slot");
    assert_eq!(
        manager.reserve(&mut residency, Some(1), None),
        Err(CodexErr::AgentLimitReached { max_threads: 1 })
    );
    slot.release(&mut residency);
    assert!(manager.reserve(&mut residency, Some(1), None).is_ok());
}

#[test]
fn busy_agents_are_not_unloaded() {
    let running = agent(AgentStatus::Running);
    let mut in_turn = agent(done());
    in_turn.active_turn = true;
    let mut mailed = agent(done());
    mailed.mailbox_items = true;
    let mut stuck = agent(done());
    stuck.shutdown = Err(CodexErr::Other("stuck".to_string()));
    let submitted = agent(done());
    let (mut residency, mut manager) =
        loaded(vec![(10, running), (11, in_turn), (12, mailed), (13, stuck), (14, submitted)]);
    residency.begin_submission(14, "unfinished");
    assert_eq!(
        manager.reserve(&mut residency, Some(5), None),
        Err(CodexErr::AgentLimitReached { max_threads: 5 })
    );
    assert_eq!(manager.threads.len(), 5);
    assert!(residency.has_pending_submission(14));
    assert_eq!(drain(&mut residency), vec![10, 11, 12, 13, 14]);
}

#[test]
fn scan_unloads_the_oldest_spare_resident_and_moves_the_older_ones_back() {
    let errored = agent(AgentStatus::Errored("boom".to_string()));
    let (mut residency, mut manager) = loaded(vec![
        (10, agent(AgentStatus::Running)),
        (11, agent(done())),
        (12, errored),
        (13, agent(done())),
    ]);
    assert!(manager.scan(&mut residency, Some(11)));
    assert!(!manager.threads.contains_key(&12));
    assert_eq!(manager.threads.len(), 3);
    assert_eq!(drain(&mut residency), vec![13, 10, 11]);
}

#[test]
fn scan_forgets_strays() {
    let mut older = agent(done());
    older.profile.multi_agent_version = Some(MultiAgentVersion::V1);
    let (mut residency, mut manager) =
        loaded(vec![(10, agent(done())), (11, older), (12, agent(AgentStatus::Running))]);
    manager.threads.remove(&10);
    residency.begin_submission(10, "lost");
    assert!(!manager.scan(&mut residency, None));
    assert!(!residency.has_pending_submission(10));
    assert!(manager.threads.contains_key(&11));
    assert_eq!(drain(&mut residency), vec![12]);
}

#[test]
fn scan_of_the_protected_alone_finds_nobody() {
    let (mut residency, mut manager) = loaded(vec![(10, agent(done()))]);
    assert!(!manager.scan(&mut residency, Some(10)));
    assert!(manager.log.is_empty());
    assert_eq!(drain(&mut residency), vec![10]);
}

#[test]
fn scan_with_a_protected_resident_looks_once_more() {
    let (mut residency, mut manager) =
        loaded(vec![(10, agent(AgentStatus::Running)), (11, agent(done()))]);
    assert!(!manager.scan(&mut residency, Some(11)));
    let locks: Vec<ThreadId> = manager
        .log
        .iter()
        .filter(|entry| entry.1 == ThreadRequest::LockLifecycle)
        .map(|entry| entry.0)
        .collect();
    assert_eq!(locks, vec![10, 10]);
    assert_eq!(drain(&mut residency), vec![11, 10]);
}

#[test]
fn overfull_residency_unloads_until_a_slot_is_free() {
    let (mut residency, mut manager) = loaded(vec![
        (10, agent(done())),
        (11, agent(AgentStatus::Running)),
        (12, agent(AgentStatus::Interrupted)),
    ]);
    assert!(manager.reserve(&mut residency, Some(2), None).is_ok());
    assert_eq!(manager.threads.len(), 1);
    assert_eq!(drain(&mut residency), vec![11]);
}

#[test]
fn overfull_residency_unloads_no_more_than_needed() {
    let (mut residency, mut manager) = loaded(vec![
        (10, agent(done())),
        (11, agent(AgentStatus::Running)),
        (12, agent(done())),
        (13, agent(done())),
        (14, agent(done())),
    ]);
    assert!(manager.reserve(&mut residency, Some(4), None).is_ok());
    let mut left = drain(&mut residency);
    left.sort();
    assert_eq!(left, vec![11, 13, 14]);
}

#[test]
fn overfull_residency_with_too_few_spare_agents_refuses() {
    let (mut residency, mut manager) = loaded(vec![
        (10, agent(AgentStatus::Running)),
        (11, agent(done())),
        (12, agent(AgentStatus::Running)),
    ]);
    assert!(matches!(
        manager.reserve(&mut residency, Some(2), None),
        Err(CodexErr::AgentLimitReached { max_threads: 2 })
    ));
    let mut left = drain(&mut residency);
    left.sort();
    assert_eq!(left, vec![10, 12]);
}

#[test]
fn overfull_residency_with_strays_unloads_until_a_slot_is_free() {
    let (mut residency, mut manager) = loaded(vec![
        (10, agent(done())),
        (11, agent(done())),
        (12, agent(AgentStatus::Running)),
        (13, agent(done())),
        (14, agent(done())),
        (15, agent(done())),
    ]);
    manager.threads.remove(&10);
    manager.threads.remove(&13);
    residency.begin_submission(12, "kept");
    residency.begin_submission(13, "lost");
    residency.begin_submission(15, "kept");
    assert!(manager.reserve(&mut residency, Some(4), None).is_ok());
    assert!(residency.has_pending_submission(12));
    assert!(!residency.has_pending_submission(13));
    assert!(residency.has_pending_submission(15));
    assert_eq!(drain(&mut residency), vec![15, 12]);
}

#[test]
fn protected_resident_stays_though_it_is_a_stray() {
    let (mut residency, mut manager) = loaded(vec![
        (10, agent(done())),
        (11, agent(done())),
        (12, agent(done())),
    ]);
    manager.threads.remove(&10);
    residency.begin_submission(10, "kept");
    assert!(manager.reserve(&mut residency, Some(2), Some(10)).is_ok());
    assert!(residency.has_pending_submission(10));
    assert_eq!(drain(&mut residency), vec![10]);
}

#[test]
fn strays_alone_free_no_slot() {
    let (mut residency, mut manager) =
        loaded(vec![(10, agent(done())), (11, agent(AgentStatus::Running))]);
    manager.threads.remove(&10);
    assert!(matches!(
        manager.reserve(&mut residency, Some(2), None),
        Err(CodexErr::AgentLimitReached { max_threads: 2 })
    ));
    assert_eq!(drain(&mut residency), vec![11]);
    assert!(manager.reserve(&mut residency, Some(2), None).is_ok());
}

#[test]
fn scan_follows_the_verdicts_on_each_candidate() {
    let (mut residency, mut manager) =
        loaded(vec![(10, agent(AgentStatus::Running)), (11, agent(done()))]);
    let mut scan = UnloadScan::begin(&mut residency, None);
    let mut verdict = Verdict::Continue(CandidateStage::LockingLifecycle);
    let mut verdicts = Vec::new();
    while let ScanProgress::Examining { candidate, stage } = scan.progress {
        assert_eq!(verdict, Verdict::Continue(stage));
        let pending = residency.has_pending_submission(candidate);
        verdict = stage.judge(
            pending,
            manager.perform(&mut residency, candidate, stage.request()),
        );
        if !matches!(verdict, Verdict::Continue(_)) {
            verdicts.push((candidate, verdict));
            verdict = Verdict::Continue(CandidateStage::LockingLifecycle);
        }
        let reply = manager.perform(&mut residency, candidate, stage.request());
        scan = scan.step(&mut residency, reply);
    }
    assert_eq!(scan.progress, ScanProgress::Finished(true));
    assert_eq!(verdicts, vec![(10, Verdict::Keep), (11, Verdict::Unloaded)]);
}

#[test]
fn requests_come_in_order() {
    let (mut residency, mut manager) = loaded(vec![(10, agent(done()))]);
    assert!(manager.scan(&mut residency, None));
    let requests: Vec<ThreadRequest> = manager.log.iter().map(|entry| entry.1).collect();
    assert_eq!(
        requests,
        vec![
            ThreadRequest::LockLifecycle,
            ThreadRequest::LookUpThread,
            ThreadRequest::ReadStatus,
            ThreadRequest::ReadActiveTurn,
            ThreadRequest::ReadMailbox,
            ThreadRequest::MaterializeRollout,
            ThreadRequest::ShutDown,
            ThreadRequest::RemoveThread,
        ]
    );
}

#[test]
fn stray_replies_are_ignored() {
    let (mut residency, _manager) = loaded(vec![(10, agent(done()))]);
    let scan = UnloadScan::begin(&mut residency, None);
    let scan = scan.step(&mut residency, ThreadReply::ThreadRemoved);
    assert_eq!(
        scan.progress,
        ScanProgress::Examining { candidate: 10, stage: CandidateStage::LockingLifecycle }
    );
    let release = AgentRelease::begin(10).step(&mut residency, ThreadReply::Status(done()));
    assert_eq!(release, AgentRelease::begin(10));
    let mut finished: SlotReservation = reserve_v2_residency_slot(&mut residency, None, None);
    finished = finished.step(&mut residency, ThreadReply::LifecycleLocked);
    assert!(matches!(finished.progress, ReservationProgress::Finished(Ok(_))));
}

#[test]
fn submission_begun_during_a_scan_protects_the_candidate() {
    let (mut residency, mut manager) = loaded(vec![(10, agent(done()))]);
    let scan = UnloadScan::begin(&mut residency, None);
    let scan = scan.step(&mut residency, ThreadReply::LifecycleLocked);
    residency.begin_submission(10, "just in time");
    let reply = manager.perform(&mut residency, 10, ThreadRequest::LookUpThread);
    let scan = scan.step(&mut residency, reply);
    assert_eq!(scan.progress, ScanProgress::Finished(false));
    assert_eq!(drain(&mut residency), vec![10]);
}

#[test]
fn release_of_a_registered_agent_that_is_not_loaded_succeeds() {
    let (mut residency, mut manager) = loaded(vec![(10, agent(done()))]);
    manager.threads.clear();
    residency.begin_submission(10, "lost");
    assert_eq!(manager.release(&mut residency, 10), Ok(AgentStatus::NotFound));
    assert_eq!(residency.resident_count(), 0);
    assert!(!residency.has_pending_submission(10));
}

#[test]
fn release_of_an_unknown_thread_fails() {
    let (mut residency, mut manager) = loaded(vec![]);
    assert_eq!(manager.release(&mut residency, 10), Err(CodexErr::ThreadNotFound(10)));
}

#[test]
fn release_passes_other_failures_on() {
    let (mut residency, mut manager) = loaded(vec![(10, agent(done()))]);
    manager.broken = true;
    assert_eq!(
        manager.release(&mut residency, 10),
        Err(CodexErr::Other("store unavailable".to_string()))
    );
    manager.dropped = true;
    assert_eq!(
        manager.release(&mut residency, 10),
        Err(CodexErr::Other("thread manager dropped".to_string()))
    );
    manager.dropped = false;
    manager.broken = false;
    manager.threads.get_mut(&10).unwrap().shutdown = Err(CodexErr::Other("stuck".to_string()));
    assert_eq!(
        manager.release(&mut residency, 10),
        Err(CodexErr::Other("stuck".to_string()))
    );
    assert!(manager.threads.contains_key(&10));
    assert_eq!(drain(&mut residency), vec![10]);
}

#[test]
fn release_is_refused_to_other_threads_and_to_agents_with_work() {
    let not_spawned: Result<AgentStatus, CodexErr> =
        Err(CodexErr::UnsupportedOperation(ReleaseRefusal::NotASpawnedAgent));
    let not_at_rest: Result<AgentStatus, CodexErr> =
        Err(CodexErr::UnsupportedOperation(ReleaseRefusal::NotAtRest));

    let mut root = agent(done());
    root.profile.session_source = SessionSource::Exec;
    let (mut residency, mut manager) = loaded(vec![(10, root)]);
    assert_eq!(manager.release(&mut residency, 10), not_spawned);

    let (mut residency, mut manager) = loaded(vec![(10, agent(AgentStatus::Running))]);
    assert_eq!(manager.release(&mut residency, 10), not_at_rest);

    let (mut residency, mut manager) =
        loaded(vec![(10, agent(AgentStatus::Errored("boom".to_string())))]);
    assert_eq!(manager.release(&mut residency, 10), not_at_rest);

    let (mut residency, mut manager) = loaded(vec![(10, agent(done()))]);
    residency.begin_submission(10, "unfinished");
    assert_eq!(manager.release(&mut residency, 10), not_at_rest);
    residency.finish_submission(10, "unfinished");
    manager.threads.get_mut(&10).unwrap().active_turn = true;
    assert_eq!(manager.release(&mut residency, 10), not_at_rest);
    manager.threads.get_mut(&10).unwrap().active_turn = false;
    manager.threads.get_mut(&10).unwrap().mailbox_items = true;
    assert_eq!(manager.release(&mut residency, 10), not_at_rest);
    manager.threads.get_mut(&10).unwrap().mailbox_items = false;
    assert_eq!(residency.resident_count(), 1);
    assert_eq!(manager.release(&mut residency, 10), Ok(done()));
    assert_eq!(residency.resident_count(), 0);
}

#[test]
fn refusals_are_explained() {
    assert_eq!(
        ReleaseRefusal::NotASpawnedAgent.message(),
        "only spawned MultiAgentV2 agents can be released"
    );
    assert_eq!(
        ReleaseRefusal::NotAtRest.message(),
        "agent must be completed or interrupted with no pending messages before it can be released"
    );
}
