//! Laws of the residency: what its operations keep, undo and leave alone.
use crate::gates::{LifecycleGate, LifecycleGates};
use crate::state::ResidencyState;
use crate::thread::ThreadId;
use vstd::prelude::*;

verus! {

/// Every operation keeps the state well-formed; a request for a gate does so because it keeps the
/// gates of different threads different.
pub proof fn law_operations_keep_wf(
    s: ResidencyState,
    thread_id: ThreadId,
    submission_id: Seq<char>,
    protected: Option<ThreadId>,
)
    requires
        s.wf(),
    ensures
        ResidencyState::empty().wf(),
        s.reserved().wf(),
        s.released().wf(),
        s.committed(thread_id).wf(),
        s.touched(thread_id).wf(),
        s.removed(thread_id).wf(),
        s.submission_begun(thread_id, submission_id).wf(),
        s.submission_finished(thread_id, submission_id).wf(),
        s.lru_popped(protected).wf(),
        forall|gates: Map<ThreadId, LifecycleGate>| #[trigger]
            LifecycleGates::all_different(gates) ==> (ResidencyState {
                lifecycle_gates: gates,
                ..s
            }).wf(),
{
    s.lemma_touched_keeps_wf(thread_id);
    s.lemma_removed_keeps_wf(thread_id);
    assert(s.released().wf());
    s.released().lemma_touched_keeps_wf(thread_id);
}

/// Giving a slot back undoes promising it.
pub proof fn law_release_undoes_reservation(s: ResidencyState)
    ensures
        s.reserved().released() == s,
{
}

/// A slot that is promised while fewer than `capacity` are in use does not exceed the capacity.
pub proof fn law_promised_slot_fits(s: ResidencyState, capacity: nat)
    requires
        s.slots_in_use() < capacity,
    ensures
        s.reserved().slots_in_use() <= capacity,
{
}

/// Committing a promised slot never takes a further one: it keeps the number of slots in use if the
/// agent is new, and frees one if the agent was already resident.
pub proof fn law_commit_takes_no_further_slot(s: ResidencyState, thread_id: ThreadId)
    requires
        s.wf(),
        s.pending_slots > 0,
    ensures
        s.committed(thread_id).is_resident(thread_id),
        s.committed(thread_id).slots_in_use() == if s.is_resident(thread_id) {
            s.slots_in_use() - 1
        } else {
            s.slots_in_use() as int
        },
{
    lemma_without_len(s.residents, thread_id);
    ResidencyState::lemma_without(s.residents, thread_id);
    let r = s.committed(thread_id).residents;
    assert(r[r.len() - 1] == thread_id);
}

proof fn lemma_without_len(threads: Seq<ThreadId>, thread_id: ThreadId)
    requires
        threads.no_duplicates(),
    ensures
        ResidencyState::without(threads, thread_id).len() == if threads.contains(thread_id) {
            threads.len() - 1
        } else {
            threads.len() as int
        },
    decreases threads.len(),
{
    reveal(Seq::filter);
    ResidencyState::lemma_without(threads, thread_id);
    if threads.len() > 0 {
        let rest = threads.drop_last();
        if threads.last() == thread_id {
            assert(!rest.contains(thread_id)) by {
                if rest.contains(thread_id) {
                    let i = choose|i: int| 0 <= i < rest.len() && rest[i] == thread_id;
                    assert(threads[i] == threads[threads.len() - 1]);
                }
            }
            ResidencyState::lemma_without(rest, thread_id);
            assert(threads[threads.len() - 1] == thread_id);
        } else {
            lemma_without_len(rest, thread_id);
            assert(rest.contains(thread_id) == threads.contains(thread_id)) by {
                if rest.contains(thread_id) {
                    let i = choose|i: int| 0 <= i < rest.len() && rest[i] == thread_id;
                    assert(threads[i] == thread_id);
                }
                if threads.contains(thread_id) {
                    let i = choose|i: int| 0 <= i < threads.len() && threads[i] == thread_id;
                    assert(rest[i] == thread_id);
                }
            }
        }
    }
}

/// Touching a thread makes it the most recently used resident, keeps the order of the others, adds
/// nobody else, and is the same done twice as done once.
pub proof fn law_touch(s: ResidencyState, thread_id: ThreadId)
    ensures
        s.touched(thread_id).residents.last() == thread_id,
        s.touched(thread_id).residents.drop_last() == ResidencyState::without(
            s.residents,
            thread_id,
        ),
        forall|t: ThreadId| #[trigger]
            s.touched(thread_id).is_resident(t) <==> s.is_resident(t) || t == thread_id,
        s.touched(thread_id).touched(thread_id) == s.touched(thread_id),
{
    let others = ResidencyState::without(s.residents, thread_id);
    ResidencyState::lemma_without(s.residents, thread_id);
    ResidencyState::lemma_without(others, thread_id);
    let r = s.touched(thread_id).residents;
    assert(r.drop_last() =~= others);
    assert forall|t: ThreadId| #[trigger]
        s.touched(thread_id).is_resident(t) <==> s.is_resident(t) || t == thread_id by {
        if others.contains(t) {
            let i = choose|i: int| 0 <= i < others.len() && others[i] == t;
            assert(r[i] == t);
        }
        if t == thread_id {
            assert(r[r.len() - 1] == t);
        }
        if r.contains(t) {
            let i = choose|i: int| 0 <= i < r.len() && r[i] == t;
            if i < others.len() {
                assert(others[i] == t);
            }
        }
    }
    assert(ResidencyState::without(r, thread_id) =~= others) by {
        reveal(Seq::filter);
    }
}

/// A removed thread is no resident and has no unfinished submissions; no other thread is affected,
/// and removing it again changes nothing.
pub proof fn law_remove(s: ResidencyState, thread_id: ThreadId)
    ensures
        !s.removed(thread_id).is_resident(thread_id),
        !s.removed(thread_id).has_pending(thread_id),
        forall|t: ThreadId|
            t != thread_id ==> (#[trigger] s.removed(thread_id).is_resident(t) == s.is_resident(t)),
        forall|t: ThreadId|
            t != thread_id ==> #[trigger] s.removed(thread_id).pending_ids(t) == s.pending_ids(t),
        s.removed(thread_id).removed(thread_id) == s.removed(thread_id),
{
    ResidencyState::lemma_without(s.residents, thread_id);
    ResidencyState::lemma_without(ResidencyState::without(s.residents, thread_id), thread_id);
    assert(s.removed(thread_id).removed(thread_id) =~= s.removed(thread_id));
}

/// An unfinished submission protects its thread until exactly that submission is finished: finishing
/// another one, or one of another thread, does not lift the protection.
pub proof fn law_only_matching_submission_lifts_protection(
    s: ResidencyState,
    thread_id: ThreadId,
    submission_id: Seq<char>,
    other_thread: ThreadId,
    other_id: Seq<char>,
)
    requires
        s.pending_ids(thread_id).contains(submission_id),
        other_thread != thread_id || other_id != submission_id,
    ensures
        s.has_pending(thread_id),
        s.submission_finished(other_thread, other_id).has_pending(thread_id),
        s.submission_finished(other_thread, other_id).pending_ids(thread_id).contains(
            submission_id,
        ),
        !s.submission_finished(thread_id, submission_id).pending_ids(thread_id).contains(
            submission_id,
        ),
        s.submission_finished(thread_id, submission_id).has_pending(thread_id) <==> exists|id|
            id != submission_id && s.pending_ids(thread_id).contains(id),
{
    let left = s.pending_ids(thread_id).remove(submission_id);
    assert(left.is_empty() <==> !exists|id|
        id != submission_id && s.pending_ids(thread_id).contains(id)) by {
        if !left.is_empty() {
            let id = choose|id| left.contains(id);
            assert(id != submission_id && s.pending_ids(thread_id).contains(id));
        }
        if exists|id| id != submission_id && s.pending_ids(thread_id).contains(id) {
            let id = choose|id| id != submission_id && s.pending_ids(thread_id).contains(id);
            assert(left.contains(id));
        }
    }
    assert(s.pending_ids(thread_id).remove(other_id).contains(submission_id) || other_id
        == submission_id);
}

/// A submission that was begun is pending, and no other thread is affected.
pub proof fn law_begin_submission(s: ResidencyState, thread_id: ThreadId, submission_id: Seq<char>)
    ensures
        s.submission_begun(thread_id, submission_id).pending_ids(thread_id) == s.pending_ids(
            thread_id,
        ).insert(submission_id),
        s.submission_begun(thread_id, submission_id).has_pending(thread_id),
        forall|t: ThreadId|
            t != thread_id ==> #[trigger] s.submission_begun(
                thread_id,
                submission_id,
            ).pending_ids(t) == s.pending_ids(t),
{
    assert(s.pending_ids(thread_id).insert(submission_id).contains(submission_id));
}

/// Finishing a submission undoes beginning it.
pub proof fn law_finish_undoes_begin(
    s: ResidencyState,
    thread_id: ThreadId,
    submission_id: Seq<char>,
)
    requires
        s.wf(),
        !s.pending_ids(thread_id).contains(submission_id),
    ensures
        s.submission_begun(thread_id, submission_id).submission_finished(thread_id, submission_id)
            == s,
{
    let ids = s.pending_ids(thread_id);
    law_begin_submission(s, thread_id, submission_id);
    assert(ids.insert(submission_id).remove(submission_id) =~= ids);
    assert(s.submission_begun(thread_id, submission_id).submission_finished(
        thread_id,
        submission_id,
    ) =~= s);
}

/// The candidate for unloading is never the protected thread; everyone ahead of it in the order of
/// use is protected; and there is none only if nobody but the protected thread is resident.
pub proof fn law_lru_candidate_is_the_oldest(s: ResidencyState, protected: Option<ThreadId>)
    requires
        s.wf(),
    ensures
        match s.lru_candidate(protected) {
            Some(c) => exists|i: int|
                {
                    &&& 0 <= i < s.residents.len()
                    &&& #[trigger] s.residents[i] == c
                    &&& Some(c) != protected
                    &&& forall|j: int| 0 <= j < i ==> Some(#[trigger] s.residents[j]) == protected
                },
            None => forall|t: ThreadId| #[trigger] s.is_resident(t) ==> Some(t) == protected,
        },
{
    match s.lru_candidate(protected) {
        Some(c) => {
            if Some(s.residents[0]) != protected {
                assert(s.residents[0] == c);
            } else {
                assert(s.residents[1] == c);
            }
        },
        None => {},
    }
}

/// Taking out the candidate removes it and nobody else; touching it puts it back as the most
/// recently used resident, so that every other resident that is not protected goes before it.
pub proof fn law_pop_removes_only_the_candidate(s: ResidencyState, protected: Option<ThreadId>)
    requires
        s.wf(),
    ensures
        match s.lru_candidate(protected) {
            Some(c) => {
                &&& s.lru_popped(protected).residents.len() == s.residents.len() - 1
                &&& forall|t: ThreadId| #[trigger]
                    s.lru_popped(protected).is_resident(t) <==> s.is_resident(t) && t != c
                &&& s.lru_popped(protected).touched(c).residents.len() == s.residents.len()
                &&& forall|t: ThreadId| #[trigger]
                    s.lru_popped(protected).touched(c).is_resident(t) <==> s.is_resident(t)
                &&& s.lru_popped(protected).touched(c).residents.last() == c
            },
            None => s.lru_popped(protected) == s,
        },
{
    if s.lru_candidate(protected) is Some {
        let c = s.lru_candidate(protected)->0;
        let popped = s.lru_popped(protected);
        let r = s.residents;
        let q = popped.residents;
        let skipped: int = if Some(r[0]) != protected {
            0
        } else {
            1
        };
        assert(c == r[skipped]);
        assert forall|t: ThreadId| #[trigger] popped.is_resident(t) <==> s.is_resident(t) && t
            != c by {
            if q.contains(t) {
                let i = choose|i: int| 0 <= i < q.len() && q[i] == t;
                let j = if skipped == 0 {
                    i + 1
                } else if i == q.len() - 1 {
                    0
                } else {
                    i + 2
                };
                assert(r[j] == t);
            }
            if r.contains(t) && t != c {
                let j = choose|j: int| 0 <= j < r.len() && r[j] == t;
                let i = if skipped == 0 {
                    j - 1
                } else if j == 0 {
                    q.len() - 1
                } else {
                    j - 2
                };
                assert(q[i] == t);
            }
        }
        assert(!popped.is_resident(c));
        ResidencyState::lemma_without(q, c);
        law_touch(popped, c);
        assert forall|t: ThreadId| #[trigger] popped.touched(c).is_resident(t) <==> s.is_resident(
            t,
        ) by {
            assert(popped.is_resident(t) <==> s.is_resident(t) && t != c);
            if t == c {
                assert(r[skipped] == t);
            }
        }
    } else {
        assert(s.lru_popped(protected) =~= s);
    }
}

} // verus!
