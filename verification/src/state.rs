//! The mathematical model of a residency, and what each operation does to it.
use crate::gates::{LifecycleGate, LifecycleGates};
use crate::thread::ThreadId;
use vstd::prelude::*;

verus! {

#[verifier::ext_equal]
pub struct ResidencyState {
    /// Loaded agents, least recently used first.
    pub residents: Seq<ThreadId>,
    /// Slots that are promised to agents still being loaded.
    pub pending_slots: nat,
    /// Submissions that were handed to an agent and not yet finished.
    pub pending_submissions: Map<ThreadId, Set<Seq<char>>>,
    /// The lifecycle gates that are known.
    pub lifecycle_gates: Map<ThreadId, LifecycleGate>,
}

impl ResidencyState {
    pub open spec fn empty() -> Self {
        ResidencyState {
            residents: Seq::empty(),
            pending_slots: 0,
            pending_submissions: Map::empty(),
            lifecycle_gates: Map::empty(),
        }
    }

    pub open spec fn other_than(thread_id: ThreadId) -> spec_fn(ThreadId) -> bool {
        |t: ThreadId| t != thread_id
    }

    /// The sequence with every occurrence of one thread left out.
    pub open spec fn without(threads: Seq<ThreadId>, thread_id: ThreadId) -> Seq<ThreadId> {
        threads.filter(Self::other_than(thread_id))
    }

    /// No agent is listed twice, an agent without unfinished submissions has no entry for them, and no
    /// two threads share a lifecycle gate.
    pub open spec fn wf(self) -> bool {
        &&& self.residents.no_duplicates()
        &&& forall|t: ThreadId| #[trigger]
            self.pending_submissions.contains_key(t) ==> !self.pending_submissions[t].is_empty()
        &&& LifecycleGates::all_different(self.lifecycle_gates)
    }

    /// Slots in use: one per loaded agent and one per agent being loaded.
    pub open spec fn slots_in_use(self) -> nat {
        self.residents.len() + self.pending_slots
    }

    pub open spec fn is_resident(self, thread_id: ThreadId) -> bool {
        self.residents.contains(thread_id)
    }

    /// The unfinished submissions of a thread.
    pub open spec fn pending_ids(self, thread_id: ThreadId) -> Set<Seq<char>> {
        if self.pending_submissions.contains_key(thread_id) {
            self.pending_submissions[thread_id]
        } else {
            Set::empty()
        }
    }

    pub open spec fn has_pending(self, thread_id: ThreadId) -> bool {
        !self.pending_ids(thread_id).is_empty()
    }

    /// The thread becomes the most recently used resident.
    pub open spec fn touched(self, thread_id: ThreadId) -> Self {
        ResidencyState {
            residents: Self::without(self.residents, thread_id).push(thread_id),
            ..self
        }
    }

    /// The thread is no resident any more and its submissions are forgotten.
    pub open spec fn removed(self, thread_id: ThreadId) -> Self {
        ResidencyState {
            residents: Self::without(self.residents, thread_id),
            pending_submissions: self.pending_submissions.remove(thread_id),
            ..self
        }
    }

    /// One more slot is promised.
    pub open spec fn reserved(self) -> Self {
        ResidencyState { pending_slots: self.pending_slots + 1, ..self }
    }

    /// One promised slot is given back.
    pub open spec fn released(self) -> Self {
        ResidencyState {
            pending_slots: if self.pending_slots == 0 {
                0
            } else {
                (self.pending_slots - 1) as nat
            },
            ..self
        }
    }

    /// A promised slot becomes the slot of a resident.
    pub open spec fn committed(self, thread_id: ThreadId) -> Self {
        self.released().touched(thread_id)
    }

    pub open spec fn with_pending_ids(self, thread_id: ThreadId, ids: Set<Seq<char>>) -> Self {
        ResidencyState {
            pending_submissions: if ids.is_empty() {
                self.pending_submissions.remove(thread_id)
            } else {
                self.pending_submissions.insert(thread_id, ids)
            },
            ..self
        }
    }

    /// A submission was handed to the thread.
    pub open spec fn submission_begun(self, thread_id: ThreadId, submission_id: Seq<char>) -> Self {
        self.with_pending_ids(thread_id, self.pending_ids(thread_id).insert(submission_id))
    }

    /// A submission of the thread ended.
    pub open spec fn submission_finished(
        self,
        thread_id: ThreadId,
        submission_id: Seq<char>,
    ) -> Self {
        self.with_pending_ids(thread_id, self.pending_ids(thread_id).remove(submission_id))
    }

    /// The least recently used resident other than the protected one.
    pub open spec fn lru_candidate(self, protected: Option<ThreadId>) -> Option<ThreadId> {
        if self.residents.len() > 0 && Some(self.residents[0]) != protected {
            Some(self.residents[0])
        } else if self.residents.len() > 1 {
            Some(self.residents[1])
        } else {
            None
        }
    }

    /// The candidate is taken out; a protected resident that was passed over moves to the end.
    pub open spec fn lru_popped(self, protected: Option<ThreadId>) -> Self {
        ResidencyState {
            residents: if self.residents.len() > 0 && Some(self.residents[0]) != protected {
                self.residents.skip(1)
            } else if self.residents.len() > 1 {
                self.residents.skip(2).push(self.residents[0])
            } else {
                self.residents
            },
            ..self
        }
    }

    /// What leaving out a thread leaves.
    pub proof fn lemma_without(threads: Seq<ThreadId>, thread_id: ThreadId)
        ensures
            forall|t: ThreadId| #[trigger]
                Self::without(threads, thread_id).contains(t) <==> threads.contains(t) && t
                    != thread_id,
            threads.no_duplicates() ==> Self::without(threads, thread_id).no_duplicates(),
            !threads.contains(thread_id) ==> Self::without(threads, thread_id) == threads,
    {
        let other = Self::other_than(thread_id);
        crate::seqs::lemma_filter_contains(threads, other);
        if threads.no_duplicates() {
            crate::seqs::lemma_filter_no_duplicates(threads, other);
        }
        if !threads.contains(thread_id) {
            crate::seqs::lemma_filter_all(threads, other);
        }
    }

    /// Touching a thread keeps the state well-formed.
    pub proof fn lemma_touched_keeps_wf(self, thread_id: ThreadId)
        ensures
            self.wf() ==> self.touched(thread_id).wf(),
    {
        Self::lemma_without(self.residents, thread_id);
    }

    /// Removing a thread keeps the state well-formed.
    pub proof fn lemma_removed_keeps_wf(self, thread_id: ThreadId)
        ensures
            self.wf() ==> self.removed(thread_id).wf(),
    {
        Self::lemma_without(self.residents, thread_id);
    }
}

} // verus!
