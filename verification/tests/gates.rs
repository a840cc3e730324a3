use std::sync::Arc;
use v2_residency::gates::LifecycleGates;
use v2_residency::residency::V2Residency;

#[test]
fn gate_in_use_is_shared() {
    let mut residency = V2Residency::default();
    let first = residency.lifecycle_gate(1);
    let second = residency.lifecycle_gate(1);
    assert!(Arc::ptr_eq(&first, &second));
}

#[test]
fn held_gate_excludes_a_second_holder() {
    let mut residency = V2Residency::default();
    let guard = residency.lifecycle_gate(1).try_lock_owned().expect("fresh gate is unlocked");
    assert!(residency.lifecycle_gate(1).try_lock_owned().is_err());
    assert!(residency.lifecycle_gate(2).try_lock_owned().is_ok());
    drop(guard);
    assert!(residency.lifecycle_gate(1).try_lock_owned().is_ok());
}

#[test]
fn gates_of_different_threads_differ() {
    let mut residency = V2Residency::default();
    let one = residency.lifecycle_gate(1);
    let two = residency.lifecycle_gate(2);
    assert!(!Arc::ptr_eq(&one, &two));
    assert!(Arc::ptr_eq(&one, &residency.lifecycle_gate(1)));
}

#[test]
fn unused_gates_are_forgotten() {
    let mut table = LifecycleGates::default();
    let kept = table.gate(1);
    drop(table.gate(2));
    assert_eq!(table.count_pointers().len(), 2);
    drop(table.gate(3));
    let mut threads: Vec<u128> = Vec::new();
    for (thread, _) in table.count_pointers() {
        threads.push(thread);
    }
    threads.sort();
    assert_eq!(threads, vec![1, 3]);
    drop(kept);
}

#[test]
fn pointers_are_counted() {
    let mut table = LifecycleGates::default();
    let gate = table.gate(1);
    let again = Arc::clone(&gate);
    assert_eq!(table.count_pointers(), vec![(1, 3)]);
    drop(again);
    drop(gate);
    assert_eq!(table.count_pointers(), vec![(1, 1)]);
}

#[test]
fn counts_decide_which_gate_is_yielded() {
    let mut table = LifecycleGates::default();
    let first = table.gate(1);
    let same = table.gate_given(1, &vec![(1, 2)]);
    assert!(Arc::ptr_eq(&first, &same));
    let fresh = table.gate_given(1, &vec![(1, 1)]);
    assert!(!Arc::ptr_eq(&first, &fresh));
    let kept = table.gate_given(1, &vec![(2, 1)]);
    assert!(Arc::ptr_eq(&fresh, &kept));
}

#[test]
fn waiting_requests_meet_whoever_is_served_first() {
    let mut residency = V2Residency::default();
    let waiting = residency.lifecycle_gate(1);
    let guard = residency.lifecycle_gate(1).try_lock_owned().expect("fresh gate is unlocked");
    let other = residency.lifecycle_gate(2).try_lock_owned().expect("another thread's gate");
    drop(residency.lifecycle_gate(3));
    assert!(Arc::clone(&waiting).try_lock_owned().is_err());
    drop(guard);
    let served = waiting.try_lock_owned().expect("given back");
    assert!(residency.lifecycle_gate(1).try_lock_owned().is_err());
    drop(other);
    assert!(residency.lifecycle_gate(1).try_lock_owned().is_err());
    assert!(residency.lifecycle_gate(2).try_lock_owned().is_ok());
    drop(served);
    assert!(residency.lifecycle_gate(1).try_lock_owned().is_ok());
}

#[test]
fn new_gate_is_none_of_the_forgotten_ones() {
    let mut table = LifecycleGates::default();
    let one = table.gate(1);
    let two = table.gate_given(2, &vec![(1, 1)]);
    assert!(!Arc::ptr_eq(&one, &two));
    assert_eq!(table.count_pointers(), vec![(2, 2)]);
}
