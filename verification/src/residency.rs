//! The residency of a session.
use crate::gates::{LifecycleGate, LifecycleGates};
use crate::state::ResidencyState;
use crate::thread::{is_resident_candidate, ThreadId, ThreadProfile};
use std::collections::{HashMap, VecDeque};
use vstd::hash_set::StringHashSet;
use vstd::prelude::*;

verus! {

/// Loaded agents, promised slots, unfinished submissions and lifecycle gates of one session.
pub struct V2Residency {
    residents: VecDeque<ThreadId>,
    pending_slots: usize,
    pending_submissions: HashMap<ThreadId, StringHashSet>,
    lifecycle_gates: LifecycleGates,
}

impl View for V2Residency {
    type V = ResidencyState;

    closed spec fn view(&self) -> ResidencyState {
        ResidencyState {
            residents: self.residents@,
            pending_slots: self.pending_slots as nat,
            pending_submissions: self.pending_submissions@.map_values(|ids: StringHashSet| ids@),
            lifecycle_gates: self.lifecycle_gates@,
        }
    }
}

impl Default for V2Residency {
    fn default() -> (residency: Self)
        ensures
            residency@ == ResidencyState::empty(),
            residency@.wf(),
    {
        let residency = V2Residency {
            residents: VecDeque::new(),
            pending_slots: 0,
            pending_submissions: HashMap::new(),
            lifecycle_gates: LifecycleGates::default(),
        };
        proof {
            assert(residency@ =~= ResidencyState::empty());
        }
        residency
    }
}

/// Takes every occurrence of a thread out of the queue, keeping the order of the others.
fn retain_others(residents: &mut VecDeque<ThreadId>, thread_id: ThreadId)
    ensures
        final(residents)@ == ResidencyState::without(old(residents)@, thread_id),
{
    let ghost before = residents@;
    let ghost other = ResidencyState::other_than(thread_id);
    let count = residents.len();
    let mut i: usize = 0;
    proof {
        assert(before.skip(0) + before.take(0).filter(other) =~= before) by {
            reveal(Seq::filter);
        }
    }
    while i < count
        invariant
            i <= count,
            count == before.len(),
            other == ResidencyState::other_than(thread_id),
            residents@ == before.skip(i as int) + before.take(i as int).filter(other),
            before == old(residents)@,
        decreases count - i,
    {
        proof {
            crate::seqs::lemma_filter_take(before, other, i as int);
        }
        if let Some(resident) = residents.pop_front() {
            proof {
                assert(resident == before[i as int]);
                assert(residents@ =~= before.skip(i + 1) + before.take(i as int).filter(other));
            }
            if resident != thread_id {
                residents.push_back(resident);
                proof {
                    assert(residents@ =~= before.skip(i + 1) + before.take(i + 1).filter(other));
                }
            }
        }
        i += 1;
    }
    proof {
        assert(before.take(count as int) =~= before);
        assert(residents@ =~= before.filter(other));
    }
}

/// Makes a thread the most recently used resident.
pub fn touch_resident(residents: &mut VecDeque<ThreadId>, thread_id: ThreadId)
    ensures
        final(residents)@ == ResidencyState::without(old(residents)@, thread_id).push(thread_id),
{
    retain_others(residents, thread_id);
    residents.push_back(thread_id);
}

impl V2Residency {
    /// Promises a slot if fewer than `capacity` are in use, and says whether it did.
    pub fn try_reserve_pending_slot(&mut self, capacity: usize) -> (reserved: bool)
        ensures
            reserved == (old(self)@.slots_in_use() < capacity),
            reserved == (old(self)@.residents.len() + old(self)@.pending_slots < capacity),
            final(self)@ == if reserved {
                old(self)@.reserved()
            } else {
                old(self)@
            },
            old(self)@.wf() ==> final(self)@.wf(),
    {
        if self.residents.len().saturating_add(self.pending_slots) >= capacity {
            return false;
        }
        self.pending_slots += 1;
        proof {
            assert(self@ =~= old(self)@.reserved());
        }
        true
    }

    /// Number of loaded agents.
    pub fn resident_count(&self) -> (count: usize)
        ensures
            count == self@.residents.len(),
    {
        self.residents.len()
    }

    /// Takes out the least recently used resident that is not the protected one, if there is any.
    pub fn pop_lru_candidate(&mut self, protected_thread_id: Option<ThreadId>) -> (candidate: Option<
        ThreadId,
    >)
        requires
            old(self)@.wf(),
        ensures
            candidate == old(self)@.lru_candidate(protected_thread_id),
            final(self)@ == old(self)@.lru_popped(protected_thread_id),
            final(self)@.wf(),
    {
        let ghost before = self@;
        let candidates_to_scan = self.residents.len();
        let mut scanned: usize = 0;
        while scanned < candidates_to_scan
            invariant
                candidates_to_scan == before.residents.len(),
                before == old(self)@,
                before.wf(),
                scanned <= 1,
                scanned <= candidates_to_scan,
                scanned == 0 ==> self@ == before,
                scanned == 1 ==> {
                    &&& Some(before.residents[0]) == protected_thread_id
                    &&& self@ == (ResidencyState {
                        residents: before.residents.skip(1).push(before.residents[0]),
                        ..before
                    })
                },
            decreases candidates_to_scan - scanned,
        {
            if let Some(candidate_thread_id) = self.residents.pop_front() {
                if Some(candidate_thread_id) == protected_thread_id {
                    proof {
                        assert(scanned == 1 ==> before.residents[1] != before.residents[0]);
                    }
                    self.residents.push_back(candidate_thread_id);
                    scanned += 1;
                    continue ;
                }
                proof {
                    assert(self@ =~= before.lru_popped(protected_thread_id));
                }
                return Some(candidate_thread_id);
            } else {
                return None;
            }
        }
        None
    }

    /// Makes a thread the most recently used resident.
    pub fn touch(&mut self, thread_id: ThreadId)
        ensures
            final(self)@ == old(self)@.touched(thread_id),
            old(self)@.wf() ==> final(self)@.wf(),
    {
        proof {
            self@.lemma_touched_keeps_wf(thread_id);
        }
        touch_resident(&mut self.residents, thread_id);
    }

    /// Makes a thread the most recently used resident if it was found and counts toward residency.
    pub fn touch_loaded_v2_residency(&mut self, thread_id: ThreadId, thread: Option<&ThreadProfile>)
        ensures
            final(self)@ == if thread is Some && thread->0.is_candidate() {
                old(self)@.touched(thread_id)
            } else {
                old(self)@
            },
            old(self)@.wf() ==> final(self)@.wf(),
    {
        if let Some(profile) = thread {
            if is_resident_candidate(profile) {
                self.touch(thread_id);
            }
        }
    }

    /// Forgets a thread and its submissions.
    pub fn remove(&mut self, thread_id: ThreadId)
        ensures
            final(self)@ == old(self)@.removed(thread_id),
            old(self)@.wf() ==> final(self)@.wf(),
    {
        proof {
            self@.lemma_removed_keeps_wf(thread_id);
        }
        retain_others(&mut self.residents, thread_id);
        self.pending_submissions.remove(&thread_id);
        proof {
            assert(self@ =~= old(self)@.removed(thread_id));
        }
    }

    /// Records that a submission was handed to a thread.
    pub fn begin_submission(&mut self, thread_id: ThreadId, submission_id: &str)
        ensures
            final(self)@ == old(self)@.submission_begun(thread_id, submission_id@),
            old(self)@.wf() ==> final(self)@.wf(),
    {
        let pending_ids = self.pending_submissions.entry(thread_id).or_insert(StringHashSet::new());
        pending_ids.insert(submission_id.to_string());
        proof {
            let ids = old(self)@.pending_ids(thread_id).insert(submission_id@);
            assert(ids.contains(submission_id@));
            assert(self.pending_submissions@[thread_id]@ == ids);
            assert(self@ =~= old(self)@.submission_begun(thread_id, submission_id@));
        }
    }

    /// Records that a submission of a thread ended.
    pub fn finish_submission(&mut self, thread_id: ThreadId, submission_id: &str)
        ensures
            final(self)@ == old(self)@.submission_finished(thread_id, submission_id@),
            old(self)@.wf() ==> final(self)@.wf(),
    {
        if let Some(mut pending_ids) = self.pending_submissions.remove(&thread_id) {
            pending_ids.remove(submission_id);
            if !pending_ids.is_empty() {
                self.pending_submissions.insert(thread_id, pending_ids);
            }
        }
    }

    /// Whether a thread has unfinished submissions.
    pub fn has_pending_submission(&self, thread_id: ThreadId) -> (pending: bool)
        requires
            self@.wf(),
        ensures
            pending == self@.has_pending(thread_id),
    {
        self.pending_submissions.contains_key(&thread_id)
    }

    /// Turns a promised slot into the slot of a thread, which becomes the most recently used
    /// resident.
    pub fn commit_slot(&mut self, thread_id: ThreadId)
        ensures
            final(self)@ == old(self)@.committed(thread_id),
            old(self)@.wf() ==> final(self)@.wf(),
    {
        proof {
            self@.released().lemma_touched_keeps_wf(thread_id);
        }
        self.pending_slots = self.pending_slots.saturating_sub(1);
        touch_resident(&mut self.residents, thread_id);
    }

    /// Gives a promised slot back.
    pub fn release_pending_slot(&mut self)
        ensures
            final(self)@ == old(self)@.released(),
            old(self)@.wf() ==> final(self)@.wf(),
    {
        self.pending_slots = self.pending_slots.saturating_sub(1);
        proof {
            assert(self@ =~= old(self)@.released());
        }
    }

    /// Yields the lifecycle gate of a thread, to be locked by the caller.
    pub fn lifecycle_gate(&mut self, thread_id: ThreadId) -> (gate: LifecycleGate)
        ensures
            LifecycleGates::requested_at_some_time(
                old(self)@.lifecycle_gates,
                thread_id,
                final(self)@.lifecycle_gates,
                gate,
            ),
            final(self)@.lifecycle_gates.contains_key(thread_id),
            final(self)@.lifecycle_gates[thread_id] == gate,
            final(self)@ == (ResidencyState {
                lifecycle_gates: final(self)@.lifecycle_gates,
                ..old(self)@
            }),
            old(self)@.wf() ==> final(self)@.wf(),
    {
        self.lifecycle_gates.gate(thread_id)
    }
}

} // verus!
