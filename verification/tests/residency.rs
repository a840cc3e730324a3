use v2_residency::residency::{touch_resident, V2Residency};
use v2_residency::thread::{
    is_releasable_with_status, is_resident_candidate, is_unloadable_with_status,
    is_v2_resident_session_source, AgentStatus, MultiAgentVersion, SessionSource, SubAgentSource,
    ThreadId, ThreadProfile,
};
use std::collections::VecDeque;

const A: ThreadId = 0x0190_0000_0000_7000_8000_0000_0000_000a;
const B: ThreadId = 0x0190_0000_0000_7000_8000_0000_0000_000b;
const C: ThreadId = 0x0190_0000_0000_7000_8000_0000_0000_000c;

fn worker() -> ThreadProfile {
    ThreadProfile {
        multi_agent_version: Some(MultiAgentVersion::V2),
        session_source: SessionSource::SubAgent(SubAgentSource::Other("worker".to_string())),
    }
}

fn with_residents(threads: &[ThreadId]) -> V2Residency {
    let mut residency = V2Residency::default();
    for thread in threads {
        residency.touch(*thread);
    }
    residency
}

fn drain(residency: &mut V2Residency) -> Vec<ThreadId> {
    let mut order = Vec::new();
    while let Some(thread) = residency.pop_lru_candidate(None) {
        order.push(thread);
    }
    order
}

#[test]
fn only_matching_submission_clears_release_protection() {
    let mut residency = V2Residency::default();
    let thread_id: ThreadId = 7;
    residency.begin_submission(thread_id, "pending-submission");

    residency.finish_submission(thread_id, "unrelated-submission");
    assert!(residency.has_pending_submission(thread_id));

    residency.finish_submission(thread_id, "pending-submission");
    assert!(!residency.has_pending_submission(thread_id));
}

#[test]
fn submissions_of_one_thread_are_counted_once_each() {
    let mut residency = V2Residency::default();
    residency.begin_submission(A, "one");
    residency.begin_submission(A, "one");
    residency.begin_submission(A, "two");
    residency.finish_submission(A, "one");
    assert!(residency.has_pending_submission(A));
    residency.finish_submission(A, "two");
    assert!(!residency.has_pending_submission(A));
    residency.finish_submission(A, "two");
    assert!(!residency.has_pending_submission(A));
}

#[test]
fn submissions_protect_only_their_own_thread() {
    let mut residency = V2Residency::default();
    residency.begin_submission(A, "same-id");
    assert!(!residency.has_pending_submission(B));
    residency.finish_submission(B, "same-id");
    assert!(residency.has_pending_submission(A));
}

#[test]
fn fresh_residency_is_empty() {
    let mut residency = V2Residency::default();
    assert_eq!(residency.resident_count(), 0);
    assert_eq!(residency.pop_lru_candidate(None), None);
    assert!(!residency.has_pending_submission(A));
}

#[test]
fn slots_are_promised_up_to_the_capacity() {
    let mut residency = with_residents(&[A]);
    assert!(residency.try_reserve_pending_slot(3));
    assert!(residency.try_reserve_pending_slot(3));
    assert!(!residency.try_reserve_pending_slot(3));
    assert!(residency.try_reserve_pending_slot(usize::MAX));
    assert_eq!(residency.resident_count(), 1);
}

#[test]
fn zero_capacity_promises_nothing() {
    let mut residency = V2Residency::default();
    assert!(!residency.try_reserve_pending_slot(0));
}

#[test]
fn released_slot_can_be_promised_again() {
    let mut residency = V2Residency::default();
    assert!(residency.try_reserve_pending_slot(1));
    assert!(!residency.try_reserve_pending_slot(1));
    residency.release_pending_slot();
    assert!(residency.try_reserve_pending_slot(1));
}

#[test]
fn releasing_without_a_promise_changes_nothing() {
    let mut residency = V2Residency::default();
    residency.release_pending_slot();
    assert!(residency.try_reserve_pending_slot(1));
    assert!(!residency.try_reserve_pending_slot(1));
}

#[test]
fn committed_slot_is_taken_by_the_resident() {
    let mut residency = V2Residency::default();
    assert!(residency.try_reserve_pending_slot(1));
    residency.commit_slot(A);
    assert_eq!(residency.resident_count(), 1);
    assert!(!residency.try_reserve_pending_slot(1));
    assert!(residency.try_reserve_pending_slot(2));
}

#[test]
fn committing_a_resident_frees_the_promised_slot() {
    let mut residency = with_residents(&[A, B]);
    assert!(residency.try_reserve_pending_slot(3));
    residency.commit_slot(A);
    assert_eq!(residency.resident_count(), 2);
    assert!(residency.try_reserve_pending_slot(3));
    assert_eq!(drain(&mut residency), vec![B, A]);
}

#[test]
fn touch_moves_a_resident_to_the_end_once() {
    let mut residency = with_residents(&[A, B, C]);
    residency.touch(A);
    residency.touch(A);
    assert_eq!(residency.resident_count(), 3);
    assert_eq!(drain(&mut residency), vec![B, C, A]);
}

#[test]
fn touch_resident_drops_every_earlier_occurrence() {
    let mut queue: VecDeque<ThreadId> = VecDeque::from(vec![A, B, A, C]);
    touch_resident(&mut queue, A);
    assert_eq!(queue, VecDeque::from(vec![B, C, A]));
}

#[test]
fn remove_forgets_resident_and_submissions() {
    let mut residency = with_residents(&[A, B]);
    residency.begin_submission(A, "one");
    residency.begin_submission(B, "two");
    residency.remove(A);
    residency.remove(A);
    assert!(!residency.has_pending_submission(A));
    assert!(residency.has_pending_submission(B));
    assert_eq!(drain(&mut residency), vec![B]);
}

#[test]
fn protected_resident_is_passed_over() {
    let mut residency = with_residents(&[A, B, C]);
    assert_eq!(residency.pop_lru_candidate(Some(A)), Some(B));
    assert_eq!(drain(&mut residency), vec![C, A]);
}

#[test]
fn protection_of_a_later_resident_moves_nobody() {
    let mut residency = with_residents(&[A, B, C]);
    assert_eq!(residency.pop_lru_candidate(Some(C)), Some(A));
    assert_eq!(drain(&mut residency), vec![B, C]);
}

#[test]
fn lone_protected_resident_is_no_candidate() {
    let mut residency = with_residents(&[A]);
    assert_eq!(residency.pop_lru_candidate(Some(A)), None);
    assert_eq!(residency.resident_count(), 1);
    assert_eq!(residency.pop_lru_candidate(Some(B)), Some(A));
}

#[test]
fn only_loaded_agents_are_touched() {
    let mut residency = V2Residency::default();
    residency.touch_loaded_v2_residency(A, None);
    assert_eq!(residency.resident_count(), 0);
    let mut root = worker();
    root.session_source = SessionSource::Exec;
    residency.touch_loaded_v2_residency(A, Some(&root));
    assert_eq!(residency.resident_count(), 0);
    residency.touch_loaded_v2_residency(A, Some(&worker()));
    assert_eq!(drain(&mut residency), vec![A]);
}

#[test]
fn candidates_are_spawned_agents_of_the_second_generation() {
    assert!(is_resident_candidate(&worker()));
    let mut other = worker();
    other.multi_agent_version = Some(MultiAgentVersion::V1);
    assert!(!is_resident_candidate(&other));
    other.multi_agent_version = None;
    assert!(!is_resident_candidate(&other));
    let spawned = SessionSource::SubAgent(SubAgentSource::ThreadSpawn {
        parent_thread_id: A,
        depth: 1,
        agent_path: Some("/root/worker".to_string()),
        agent_nickname: None,
        agent_role: None,
    });
    assert!(is_v2_resident_session_source(&spawned));
    assert!(!is_v2_resident_session_source(&SessionSource::Exec));
    assert!(!is_v2_resident_session_source(&SessionSource::Other("cli".to_string())));
}

#[test]
fn failed_agents_can_be_unloaded_but_not_released() {
    let cases: Vec<(AgentStatus, bool, bool)> = vec![
        (AgentStatus::PendingInit, false, false),
        (AgentStatus::Running, false, false),
        (AgentStatus::Interrupted, true, true),
        (AgentStatus::Completed(Some("done".to_string())), true, true),
        (AgentStatus::Completed(None), true, true),
        (AgentStatus::Errored("boom".to_string()), true, false),
        (AgentStatus::Shutdown, false, false),
        (AgentStatus::NotFound, false, false),
    ];
    for (status, unloadable, releasable) in cases {
        assert_eq!(is_unloadable_with_status(&status), unloadable);
        assert_eq!(is_releasable_with_status(&status), releasable);
    }
}
