//! Laws of the single operations: what each of them does to the residents and their order, to the
//! promised slots, to the unfinished submissions and to the gates.
use crate::state::ResidencyState;
use crate::thread::ThreadId;
use vstd::prelude::*;

verus! {

/// A sequence without one of its elements, told by the place where the element stood.
proof fn lemma_without_by_index(r: Seq<ThreadId>, thread_id: ThreadId)
    ensures
        ResidencyState::without(r, thread_id) == r.filter(|t: ThreadId| t != thread_id),
        !r.contains(thread_id) ==> ResidencyState::without(r, thread_id) == r,
        r.no_duplicates() ==> forall|k: int|
            0 <= k < r.len() && #[trigger] r[k] == thread_id ==> ResidencyState::without(
                r,
                thread_id,
            ) == r.remove(k),
{
    let other = ResidencyState::other_than(thread_id);
    crate::seqs::lemma_filter_agrees(r, other, |t: ThreadId| t != thread_id);
    ResidencyState::lemma_without(r, thread_id);
    if r.no_duplicates() {
        assert forall|k: int|
            0 <= k < r.len() && #[trigger] r[k] == thread_id implies ResidencyState::without(
            r,
            thread_id,
        ) == r.remove(k) by {
            let before = r.take(k);
            let behind = r.skip(k + 1);
            crate::seqs::lemma_filter_parts(r, other, k + 1);
            crate::seqs::lemma_filter_take(r, other, k);
            assert forall|i: int| 0 <= i < before.len() implies other(#[trigger] before[i]) by {
                assert(before[i] == r[i]);
            }
            assert forall|i: int| 0 <= i < behind.len() implies other(#[trigger] behind[i]) by {
                assert(behind[i] == r[i + k + 1]);
            }
            crate::seqs::lemma_filter_all(before, other);
            crate::seqs::lemma_filter_all(behind, other);
            assert(before + behind =~= r.remove(k));
        }
    }
}

/// A new residency has no residents, no promised slots, no unfinished submissions and no gates.
pub proof fn law_new_residency_is_empty()
    ensures
        ResidencyState::empty().residents.len() == 0,
        ResidencyState::empty().pending_slots == 0,
        forall|t: ThreadId|
            !(#[trigger] ResidencyState::empty().pending_submissions.contains_key(t)),
        forall|t: ThreadId| !(#[trigger] ResidencyState::empty().lifecycle_gates.contains_key(t)),
{
}

/// A slot is in use for each resident and for each promise, and nothing else takes one.
pub proof fn law_residents_and_promises_take_slots(s: ResidencyState)
    ensures
        s.slots_in_use() == s.residents.len() + s.pending_slots,
{
}

/// A thread has unfinished submissions if and only if some submission is recorded for it. In a
/// well-formed state every thread that has an entry has one.
pub proof fn law_pending_means_that_a_submission_is_recorded(s: ResidencyState, thread_id: ThreadId)
    ensures
        forall|id: Seq<char>| #[trigger]
            s.pending_ids(thread_id).contains(id) <==> s.pending_submissions.contains_key(thread_id)
                && s.pending_submissions[thread_id].contains(id),
        s.has_pending(thread_id) <==> exists|id: Seq<char>|
            s.pending_submissions.contains_key(thread_id)
                && #[trigger] s.pending_submissions[thread_id].contains(id),
        s.wf() ==> (s.has_pending(thread_id) <==> s.pending_submissions.contains_key(thread_id)),
{
    if s.has_pending(thread_id) {
        let id = choose|id: Seq<char>| s.pending_ids(thread_id).contains(id);
        assert(s.pending_submissions[thread_id].contains(id));
    }
}

/// Promising a slot adds one promise and changes nothing else. Giving one back takes one promise
/// away, if there is one, and changes nothing else.
pub proof fn law_promises_are_counted(s: ResidencyState)
    ensures
        s.reserved().pending_slots == s.pending_slots + 1,
        s.reserved().residents == s.residents,
        s.reserved().pending_submissions == s.pending_submissions,
        s.reserved().lifecycle_gates == s.lifecycle_gates,
        s.pending_slots > 0 ==> s.released().pending_slots == s.pending_slots - 1,
        s.pending_slots == 0 ==> s.released().pending_slots == 0,
        s.released().residents == s.residents,
        s.released().pending_submissions == s.pending_submissions,
        s.released().lifecycle_gates == s.lifecycle_gates,
{
}

/// Touching a thread puts it behind all others, whose order stays: a new resident is added at the end,
/// and one that stood at some place is moved from there to the end. Nobody's submissions are touched,
/// the thread's own included, nor the promised slots, nor the gates.
pub proof fn law_touch_moves_to_the_end(s: ResidencyState, thread_id: ThreadId)
    ensures
        s.touched(thread_id).residents == s.residents.filter(|t: ThreadId| t != thread_id).push(
            thread_id,
        ),
        !s.residents.contains(thread_id) ==> s.touched(thread_id).residents == s.residents.push(
            thread_id,
        ),
        s.residents.no_duplicates() ==> forall|k: int|
            0 <= k < s.residents.len() && #[trigger] s.residents[k] == thread_id ==> s.touched(
                thread_id,
            ).residents == s.residents.remove(k).push(thread_id),
        s.touched(thread_id).pending_slots == s.pending_slots,
        s.touched(thread_id).pending_submissions == s.pending_submissions,
        forall|t: ThreadId| #[trigger]
            s.touched(thread_id).pending_ids(t) == s.pending_ids(t),
        forall|t: ThreadId| #[trigger] s.touched(thread_id).has_pending(t) == s.has_pending(t),
        s.touched(thread_id).lifecycle_gates == s.lifecycle_gates,
{
    lemma_without_by_index(s.residents, thread_id);
}

/// Committing a slot to a thread puts the thread behind all other residents, whose order stays,
/// whether it was resident before or not, and takes one promise away, if there is one. Nobody's
/// submissions are touched, nor the gates.
pub proof fn law_commit_adds_at_the_end(s: ResidencyState, thread_id: ThreadId)
    ensures
        s.committed(thread_id).residents == s.residents.filter(|t: ThreadId| t != thread_id).push(
            thread_id,
        ),
        s.committed(thread_id).residents.last() == thread_id,
        !s.residents.contains(thread_id) ==> s.committed(thread_id).residents == s.residents.push(
            thread_id,
        ),
        s.residents.no_duplicates() ==> forall|k: int|
            0 <= k < s.residents.len() && #[trigger] s.residents[k] == thread_id ==> s.committed(
                thread_id,
            ).residents == s.residents.remove(k).push(thread_id),
        s.pending_slots > 0 ==> s.committed(thread_id).pending_slots == s.pending_slots - 1,
        s.pending_slots == 0 ==> s.committed(thread_id).pending_slots == 0,
        s.committed(thread_id).pending_submissions == s.pending_submissions,
        s.committed(thread_id).lifecycle_gates == s.lifecycle_gates,
{
    lemma_without_by_index(s.residents, thread_id);
}

/// Forgetting a thread takes it out from where it stood and keeps the order of the others. Its
/// submissions are forgotten and nobody else's, and neither the promised slots nor the gates change.
pub proof fn law_remove_keeps_the_order_of_the_others(s: ResidencyState, thread_id: ThreadId)
    ensures
        s.removed(thread_id).residents == s.residents.filter(|t: ThreadId| t != thread_id),
        !s.residents.contains(thread_id) ==> s.removed(thread_id).residents == s.residents,
        s.residents.no_duplicates() ==> forall|k: int|
            0 <= k < s.residents.len() && #[trigger] s.residents[k] == thread_id ==> s.removed(
                thread_id,
            ).residents == s.residents.remove(k),
        s.removed(thread_id).pending_slots == s.pending_slots,
        !s.removed(thread_id).pending_submissions.contains_key(thread_id),
        forall|t: ThreadId|
            t != thread_id ==> (#[trigger] s.removed(thread_id).pending_submissions.contains_key(t)
                <==> s.pending_submissions.contains_key(t)),
        forall|t: ThreadId|
            t != thread_id && s.pending_submissions.contains_key(t) ==> #[trigger] s.removed(
                thread_id,
            ).pending_submissions[t] == s.pending_submissions[t],
        s.removed(thread_id).lifecycle_gates == s.lifecycle_gates,
{
    lemma_without_by_index(s.residents, thread_id);
}

/// Beginning a submission records it for its thread, beside those that are recorded already, and
/// changes nothing else.
pub proof fn law_begin_records_one_submission(
    s: ResidencyState,
    thread_id: ThreadId,
    submission_id: Seq<char>,
)
    ensures
        ({
            let after = s.submission_begun(thread_id, submission_id);
            &&& after.pending_submissions.contains_key(thread_id)
            &&& forall|id: Seq<char>| #[trigger]
                after.pending_submissions[thread_id].contains(id) <==> id == submission_id || (
                s.pending_submissions.contains_key(thread_id)
                    && s.pending_submissions[thread_id].contains(id))
            &&& forall|t: ThreadId|
                t != thread_id ==> (#[trigger] after.pending_submissions.contains_key(t)
                    <==> s.pending_submissions.contains_key(t))
            &&& forall|t: ThreadId|
                t != thread_id && s.pending_submissions.contains_key(t)
                    ==> #[trigger] after.pending_submissions[t] == s.pending_submissions[t]
            &&& after.residents == s.residents
            &&& after.pending_slots == s.pending_slots
            &&& after.lifecycle_gates == s.lifecycle_gates
        }),
{
    assert(s.pending_ids(thread_id).insert(submission_id).contains(submission_id));
}

/// Finishing a submission strikes out that one submission of that thread; the thread keeps an entry
/// exactly if another submission is left. Nothing else changes.
pub proof fn law_finish_strikes_out_one_submission(
    s: ResidencyState,
    thread_id: ThreadId,
    submission_id: Seq<char>,
)
    ensures
        ({
            let after = s.submission_finished(thread_id, submission_id);
            &&& after.pending_submissions.contains_key(thread_id) <==> exists|id: Seq<char>|
                id != submission_id && s.pending_submissions.contains_key(thread_id)
                    && #[trigger] s.pending_submissions[thread_id].contains(id)
            &&& after.pending_submissions.contains_key(thread_id) ==> forall|id: Seq<char>|
                #[trigger] after.pending_submissions[thread_id].contains(id) <==> id
                    != submission_id && s.pending_submissions[thread_id].contains(id)
            &&& forall|t: ThreadId|
                t != thread_id ==> (#[trigger] after.pending_submissions.contains_key(t)
                    <==> s.pending_submissions.contains_key(t))
            &&& forall|t: ThreadId|
                t != thread_id && s.pending_submissions.contains_key(t)
                    ==> #[trigger] after.pending_submissions[t] == s.pending_submissions[t]
            &&& after.residents == s.residents
            &&& after.pending_slots == s.pending_slots
            &&& after.lifecycle_gates == s.lifecycle_gates
        }),
{
    let left = s.pending_ids(thread_id).remove(submission_id);
    if exists|id: Seq<char>|
        id != submission_id && s.pending_submissions.contains_key(thread_id)
            && #[trigger] s.pending_submissions[thread_id].contains(id) {
        let id = choose|id: Seq<char>|
            id != submission_id && s.pending_submissions.contains_key(thread_id)
                && #[trigger] s.pending_submissions[thread_id].contains(id);
        assert(left.contains(id));
    }
    if !left.is_empty() {
        let id = choose|id: Seq<char>| left.contains(id);
        assert(s.pending_submissions[thread_id].contains(id));
    }
}

/// The first resident that is not the protected one is taken out, and there is none only if no
/// resident but the protected one is left. The others keep their order, except that a protected
/// resident that stood in front moves to the end. Nothing but the residents changes.
pub proof fn law_pop_takes_the_first_unprotected(s: ResidencyState, protected: Option<ThreadId>)
    requires
        s.residents.no_duplicates(),
    ensures
        ({
            let r = s.residents;
            let c = s.lru_candidate(protected);
            let after = s.lru_popped(protected);
            &&& r.len() == 0 ==> c is None && after.residents == r
            &&& r.len() > 0 && Some(r[0]) != protected ==> c == Some(r[0]) && after.residents
                == r.remove(0)
            &&& r.len() > 1 && Some(r[0]) == protected ==> c == Some(r[1]) && after.residents
                == r.remove(1).remove(0).push(r[0])
            &&& r.len() == 1 && Some(r[0]) == protected ==> c is None && after.residents == r
            &&& after.pending_slots == s.pending_slots
            &&& after.pending_submissions == s.pending_submissions
            &&& after.lifecycle_gates == s.lifecycle_gates
        }),
{
    let r = s.residents;
    let after = s.lru_popped(protected);
    if r.len() > 0 && Some(r[0]) != protected {
        assert(after.residents =~= r.remove(0));
    } else if r.len() > 1 {
        assert(after.residents =~= r.remove(1).remove(0).push(r[0]));
    }
}

/// Whoever was touched or given a slot last is taken out last: as long as another unprotected resident
/// is left, the next candidate is not that thread, and it is the same one as would have come next
/// without it.
pub proof fn law_most_recently_used_goes_last(
    s: ResidencyState,
    thread_id: ThreadId,
    protected: Option<ThreadId>,
    other: ThreadId,
)
    requires
        s.wf(),
        s.residents.contains(other),
        other != thread_id,
        Some(other) != protected,
    ensures
        s.touched(thread_id).lru_candidate(protected) is Some,
        s.touched(thread_id).lru_candidate(protected) != Some(thread_id),
        s.touched(thread_id).lru_candidate(protected) == s.removed(thread_id).lru_candidate(
            protected,
        ),
        s.committed(thread_id).lru_candidate(protected) is Some,
        s.committed(thread_id).lru_candidate(protected) != Some(thread_id),
        s.committed(thread_id).lru_candidate(protected) == s.removed(thread_id).lru_candidate(
            protected,
        ),
{
    let rest = ResidencyState::without(s.residents, thread_id);
    ResidencyState::lemma_without(s.residents, thread_id);
    assert(rest.contains(other));
    let k = choose|k: int| 0 <= k < rest.len() && rest[k] == other;
    assert(rest[0] == rest.push(thread_id)[0]);
    assert(rest.contains(rest[0]));
    if rest.len() > 1 {
        assert(rest[1] == rest.push(thread_id)[1]);
        assert(rest.contains(rest[1]));
        assert(rest[0] != rest[1]);
    }
}

/// Forgetting a thread changes who is next to be taken out only if it was the next itself.
pub proof fn law_remove_keeps_the_next_candidate(
    s: ResidencyState,
    thread_id: ThreadId,
    protected: Option<ThreadId>,
)
    requires
        s.wf(),
        s.lru_candidate(protected) != Some(thread_id),
    ensures
        s.removed(thread_id).lru_candidate(protected) == s.lru_candidate(protected),
{
    let r = s.residents;
    let rest = ResidencyState::without(r, thread_id);
    lemma_without_by_index(r, thread_id);
    if r.contains(thread_id) {
        let k = choose|k: int| 0 <= k < r.len() && r[k] == thread_id;
        assert(rest == r.remove(k));
        if r.len() > 1 {
            assert(r[0] != r[1]);
        }
    }
}

} // verus!
