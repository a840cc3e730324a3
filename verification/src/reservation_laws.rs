//! Laws of reserving a slot.
use crate::error::CodexErr;
use crate::exchange::{ThreadFacts, ThreadReply};
use crate::history::History;
use crate::reservation::{ReservationProgress, SlotReservation, V2ResidencySlot};
use crate::state::ResidencyState;
use crate::thread::ThreadId;
use crate::unload::{ScanProgress, UnloadScan, Verdict};
use vstd::prelude::*;

verus! {

impl SlotReservation {
    /// How many threads the residency and the reservation hold between them.
    pub open spec fn threads_held(self, state: ResidencyState) -> nat {
        match self.progress {
            ReservationProgress::Unloading(scan) => state.residents.len() + if scan.progress
                is Examining {
                1nat
            } else {
                0nat
            },
            ReservationProgress::Finished(_) => 0,
        }
    }

    pub open spec fn candidates_to_come(self) -> nat {
        match self.progress {
            ReservationProgress::Unloading(scan) => scan.candidates_to_come(),
            ReservationProgress::Finished(_) => 0,
        }
    }

    pub open spec fn replies_left(self) -> nat {
        match self.progress {
            ReservationProgress::Unloading(scan) => scan.replies_left(),
            ReservationProgress::Finished(_) => 0,
        }
    }

    /// The reservation carried through with threads whose facts hold still, and with nobody else
    /// using the residency.
    pub open spec fn run(self, state: ResidencyState, facts: spec_fn(ThreadId) -> ThreadFacts) -> (
        Result<V2ResidencySlot, CodexErr>,
        ResidencyState,
    )
        decreases self.threads_held(state), self.candidates_to_come(), self.replies_left(),
    {
        match self.progress {
            ReservationProgress::Finished(result) => (result, state),
            ReservationProgress::Unloading(scan) => match scan.progress {
                ScanProgress::Finished(_) => (Self::limit_reached(self.capacity), state),
                ScanProgress::Examining { candidate, stage } => {
                    let reply = facts(candidate).reply(stage.spec_request());
                    let (next, after) = self.spec_step(state, reply);
                    proof {
                        law_each_reply_brings_the_end_closer(self, state, facts(candidate));
                    }
                    next.run(after, facts)
                },
            },
        }
    }
}

/// Leaving out a thread leaves no more than there was.
proof fn lemma_without_len(state: ResidencyState, thread_id: ThreadId)
    ensures
        state.touched(thread_id).residents.len() <= state.residents.len() + 1,
        state.removed(thread_id).residents.len() <= state.residents.len(),
{
    broadcast use vstd::seq_lib::group_filter_ensures;

}

/// Each reply brings a reservation closer to its end.
pub proof fn law_each_reply_brings_the_end_closer(
    reservation: SlotReservation,
    state: ResidencyState,
    facts: ThreadFacts,
)
    requires
        reservation.progress is Unloading,
        reservation.progress->Unloading_0.progress is Examining,
    ensures
        ({
            let scan = reservation.progress->Unloading_0;
            let reply = facts.reply(scan.progress->stage.spec_request());
            let (next, after) = reservation.spec_step(state, reply);
            decreases_to!(
                reservation.threads_held(state), reservation.candidates_to_come(),
                reservation.replies_left()
                => next.threads_held(after), next.candidates_to_come(), next.replies_left())
        }),
{
    let scan = reservation.progress->Unloading_0;
    let candidate = scan.progress->candidate;
    lemma_without_len(state, candidate);
}

/// A reservation that unloads carries its scan through, and then asks anew or gives up.
proof fn lemma_run_carries_the_scan_through(
    reservation: SlotReservation,
    state: ResidencyState,
    facts: spec_fn(ThreadId) -> ThreadFacts,
)
    requires
        reservation.progress is Unloading,
        reservation.progress->Unloading_0.progress is Examining,
    ensures
        reservation.run(state, facts) == {
            let (unloaded, after) = reservation.progress->Unloading_0.run(state, facts);
            if unloaded {
                let (again, begun) = SlotReservation::spec_begin(
                    after,
                    reservation.capacity,
                    reservation.protected_thread_id,
                );
                again.run(begun, facts)
            } else {
                (SlotReservation::limit_reached(reservation.capacity), after)
            }
        },
    decreases reservation.candidates_to_come(), reservation.replies_left(),
{
    reveal_with_fuel(UnloadScan::run, 2);
    reveal_with_fuel(SlotReservation::run, 2);
    let scan = reservation.progress->Unloading_0;
    let candidate = scan.progress->candidate;
    let reply = facts(candidate).reply(scan.progress->stage.spec_request());
    let (next_scan, after) = scan.spec_step(state, reply);
    let (next, _) = reservation.spec_step(state, reply);
    if next_scan.progress is Examining {
        lemma_run_carries_the_scan_through(next, after, facts);
    }
}

/// While a slot is free it is promised at once and nobody is unloaded.
pub proof fn law_free_slot_is_promised_at_once(
    state: ResidencyState,
    capacity: usize,
    protected: Option<ThreadId>,
)
    requires
        state.slots_in_use() < capacity,
    ensures
        ({
            let (reservation, after) = SlotReservation::spec_begin(state, capacity, protected);
            &&& reservation.progress == ReservationProgress::Finished(
                Ok(V2ResidencySlot::promise()),
            )
            &&& after == state.reserved()
            &&& after.residents == state.residents
        }),
{
}

/// With all slots in use, a reservation unloads the least recently used resident that can be spared
/// and is granted. Beside it, only strays lose their place, and the slots in use stay within the
/// capacity.
pub proof fn law_reservation_unloads_the_oldest_spare_resident(
    state: ResidencyState,
    capacity: usize,
    protected: Option<ThreadId>,
    facts: spec_fn(ThreadId) -> ThreadFacts,
    m: int,
)
    requires
        state.wf(),
        state.slots_in_use() == capacity,
        0 <= m < state.residents.len(),
        Some(state.residents[m]) != protected,
        UnloadScan::fate(state, facts, state.residents[m]) is Unloaded,
        forall|j: int|
            0 <= j < m ==> Some(#[trigger] state.residents[j]) == protected || !(UnloadScan::fate(
                state,
                facts,
                state.residents[j],
            ) is Unloaded),
    ensures
        ({
            let (reservation, begun) = SlotReservation::spec_begin(state, capacity, protected);
            let (result, after) = reservation.run(begun, facts);
            &&& result == Ok::<V2ResidencySlot, CodexErr>(V2ResidencySlot::promise())
            &&& after == (ResidencyState {
                residents: state.residents.skip(m + 1) + state.residents.take(m).filter(
                    UnloadScan::stays(state, protected, facts),
                ),
                pending_slots: state.pending_slots + 1,
                pending_submissions: UnloadScan::without_strays(
                    state.pending_submissions,
                    state,
                    protected,
                    facts,
                    state.residents.take(m),
                ),
                ..state
            })
            &&& after.slots_in_use() <= capacity
            &&& !after.is_resident(state.residents[m])
        }),
{
    broadcast use vstd::seq_lib::group_filter_ensures;

    let r = state.residents;
    let stays = UnloadScan::stays(state, protected, facts);
    let (reservation, begun) = SlotReservation::spec_begin(state, capacity, protected);
    let (scan, scan_begun) = UnloadScan::spec_begin(state, protected);
    crate::unload_laws::law_scan_unloads_the_oldest_spare_resident(state, protected, facts, m);
    assert(state.lru_candidate(protected) is Some) by {
        crate::residency_laws::law_lru_candidate_is_the_oldest(state, protected);
        assert(state.is_resident(r[m]));
    }
    lemma_run_carries_the_scan_through(reservation, begun, facts);
    let after = scan.run(scan_begun, facts).1;
    assert(after.residents.len() < r.len());
    let (again, granted) = SlotReservation::spec_begin(after, capacity, protected);
    assert(again.run(granted, facts) == (
        Ok::<V2ResidencySlot, CodexErr>(V2ResidencySlot::promise()),
        after.reserved(),
    ));
    assert(!after.residents.contains(r[m])) by {
        if after.residents.contains(r[m]) {
            let i = choose|i: int| 0 <= i < after.residents.len() && after.residents[i] == r[m];
            if i < r.skip(m + 1).len() {
                assert(r[i + m + 1] == r[m]);
            } else {
                let kept = r.take(m).filter(stays);
                assert(kept[i - r.skip(m + 1).len()] == r[m]);
                assert(kept.contains(r[m]));
                crate::seqs::lemma_filter_contains(r.take(m), stays);
                let j = choose|j: int| 0 <= j < m && r.take(m)[j] == r[m];
                assert(r[j] == r[m]);
            }
        }
    }
}

/// With all slots in use and nobody to spare, a reservation is refused with the limit, nobody is
/// unloaded, and no slot is promised. Only the strays lose their place and their submissions.
pub proof fn law_reservation_is_refused_if_nobody_can_be_spared(
    state: ResidencyState,
    capacity: usize,
    protected: Option<ThreadId>,
    facts: spec_fn(ThreadId) -> ThreadFacts,
)
    requires
        state.wf(),
        state.residents.len() <= usize::MAX,
        state.slots_in_use() >= capacity,
        forall|t: ThreadId| #[trigger]
            state.is_resident(t) ==> Some(t) == protected || !(UnloadScan::fate(state, facts, t)
                is Unloaded),
    ensures
        ({
            let (reservation, begun) = SlotReservation::spec_begin(state, capacity, protected);
            let (result, after) = reservation.run(begun, facts);
            &&& result == Err::<V2ResidencySlot, CodexErr>(
                CodexErr::AgentLimitReached { max_threads: capacity },
            )
            &&& after == (ResidencyState {
                residents: after.residents,
                pending_submissions: UnloadScan::without_strays(
                    state.pending_submissions,
                    state,
                    protected,
                    facts,
                    state.residents,
                ),
                ..state
            })
            &&& forall|t: ThreadId| #[trigger]
                after.is_resident(t) <==> state.is_resident(t) && !UnloadScan::is_stray(
                    state,
                    protected,
                    facts,
                    t,
                )
        }),
{
    let r = state.residents;
    let stays = UnloadScan::stays(state, protected, facts);
    let left = r.filter(stays);
    let (reservation, begun) = SlotReservation::spec_begin(state, capacity, protected);
    let (scan, scan_begun) = UnloadScan::spec_begin(state, protected);
    crate::unload_laws::law_scan_unloads_nobody_who_is_needed(state, protected, facts);
    if scan.progress is Examining {
        lemma_run_carries_the_scan_through(reservation, begun, facts);
    }
    let after = reservation.run(begun, facts).1;
    assert(after == scan.run(scan_begun, facts).1);
    crate::seqs::lemma_filter_contains(r, stays);
    crate::unload_laws::lemma_rotation_contains(after.residents, left);
    assert forall|t: ThreadId| #[trigger] after.is_resident(t) <==> state.is_resident(t)
        && !UnloadScan::is_stray(state, protected, facts, t) by {
        assert(left.contains(t) <==> r.contains(t) && stays(t));
        assert(state.is_resident(t) == r.contains(t));
    }
}

/// Whatever the replies and whoever uses the residency in between, a slot is granted only at a
/// moment when it fits the capacity, and then exactly one slot is promised; without a grant none is.
pub proof fn law_grant_fits_the_capacity(
    reservation: SlotReservation,
    state: ResidencyState,
    reply: ThreadReply,
)
    requires
        reservation.progress is Unloading,
    ensures
        ({
            let (next, after) = reservation.spec_step(state, reply);
            &&& next.capacity == reservation.capacity
            &&& next.protected_thread_id == reservation.protected_thread_id
            &&& match next.progress {
                ReservationProgress::Finished(Ok(_)) => {
                    &&& after.pending_slots == state.pending_slots + 1
                    &&& after.slots_in_use() <= reservation.capacity
                },
                ReservationProgress::Finished(Err(err)) => {
                    &&& err == CodexErr::AgentLimitReached { max_threads: reservation.capacity }
                    &&& after.pending_slots == state.pending_slots
                },
                ReservationProgress::Unloading(_) => after.pending_slots == state.pending_slots,
            }
        }),
{
}

/// Finds the least recently used resident that can be spared, looking from `i` on.
proof fn lemma_first_spare(
    state: ResidencyState,
    protected: Option<ThreadId>,
    facts: spec_fn(ThreadId) -> ThreadFacts,
    i: int,
) -> (m: int)
    requires
        0 <= i <= state.residents.len(),
        forall|j: int|
            0 <= j < i ==> Some(#[trigger] state.residents[j]) == protected || !(UnloadScan::fate(
                state,
                facts,
                state.residents[j],
            ) is Unloaded),
    ensures
        i <= m <= state.residents.len(),
        forall|j: int|
            0 <= j < m ==> Some(#[trigger] state.residents[j]) == protected || !(UnloadScan::fate(
                state,
                facts,
                state.residents[j],
            ) is Unloaded),
        m < state.residents.len() ==> Some(state.residents[m]) != protected && UnloadScan::fate(
            state,
            facts,
            state.residents[m],
        ) is Unloaded,
    decreases state.residents.len() - i,
{
    if i == state.residents.len() || (Some(state.residents[i]) != protected && UnloadScan::fate(
        state,
        facts,
        state.residents[i],
    ) is Unloaded) {
        i
    } else {
        lemma_first_spare(state, protected, facts, i + 1)
    }
}

/// However many slots are in use, a reservation that is carried through is granted only if the slot
/// then fits the capacity, and refused only if nobody is left who could be spared.
pub proof fn law_reservation_gives_up_only_if_nobody_is_left_to_spare(
    state: ResidencyState,
    capacity: usize,
    protected: Option<ThreadId>,
    facts: spec_fn(ThreadId) -> ThreadFacts,
)
    requires
        state.wf(),
        state.residents.len() <= usize::MAX,
    ensures
        ({
            let (reservation, begun) = SlotReservation::spec_begin(state, capacity, protected);
            let (result, after) = reservation.run(begun, facts);
            match result {
                Ok(_) => {
                    &&& after.slots_in_use() <= capacity
                    &&& after.pending_slots == state.pending_slots + 1
                },
                Err(err) => {
                    &&& err == CodexErr::AgentLimitReached { max_threads: capacity }
                    &&& after.pending_slots == state.pending_slots
                    &&& forall|t: ThreadId| #[trigger]
                        after.is_resident(t) ==> Some(t) == protected || !(UnloadScan::fate(
                            after,
                            facts,
                            t,
                        ) is Unloaded)
                },
            }
        }),
    decreases state.residents.len(),
{
    let r = state.residents;
    let (reservation, begun) = SlotReservation::spec_begin(state, capacity, protected);
    let (scan, scan_begun) = UnloadScan::spec_begin(state, protected);
    let m = lemma_first_spare(state, protected, facts, 0);
    if state.slots_in_use() < capacity {
    } else if m < r.len() {
        lemma_scan_deals_with_the_first(state, protected, facts, m);
        lemma_run_carries_the_scan_through(reservation, begun, facts);
        lemma_past_keeps_fates(state, protected, facts, m + 1);
        let after = UnloadScan::state_past(state, protected, facts, m + 1);
        law_reservation_gives_up_only_if_nobody_is_left_to_spare(
            after,
            capacity,
            protected,
            facts,
        );
    } else {
        assert forall|t: ThreadId| #[trigger] state.is_resident(t) implies Some(t) == protected || !(
        UnloadScan::fate(state, facts, t) is Unloaded) by {
            let i = choose|i: int| 0 <= i < r.len() && r[i] == t;
            assert(Some(r[i]) == protected || !(UnloadScan::fate(state, facts, r[i]) is Unloaded));
        }
        law_reservation_is_refused_if_nobody_can_be_spared(state, capacity, protected, facts);
        crate::unload_laws::law_scan_unloads_nobody_who_is_needed(state, protected, facts);
        if scan.progress is Examining {
            lemma_run_carries_the_scan_through(reservation, begun, facts);
        }
        let after = reservation.run(begun, facts).1;
        assert(after == scan.run(scan_begun, facts).1);
        assert forall|t: ThreadId| #[trigger] after.is_resident(t) implies Some(t) == protected || !(
        UnloadScan::fate(after, facts, t) is Unloaded) by {
            assert(state.is_resident(t));
            assert(after.pending_ids(t) == state.pending_ids(t));
        }
    }
}

/// What one unload changes if every resident is a loaded agent: the oldest spare resident leaves, and
/// the spare residents that remain are the others, in their old order.
proof fn lemma_one_unload(
    state: ResidencyState,
    protected: Option<ThreadId>,
    facts: spec_fn(ThreadId) -> ThreadFacts,
    m: int,
) -> (after: ResidencyState)
    requires
        state.wf(),
        state.residents.len() <= usize::MAX,
        forall|t: ThreadId| #[trigger] state.is_resident(t) ==> facts(t).is_candidate(),
        0 <= m < state.residents.len(),
        Some(state.residents[m]) != protected,
        UnloadScan::fate(state, facts, state.residents[m]) is Unloaded,
        forall|j: int|
            0 <= j < m ==> Some(#[trigger] state.residents[j]) == protected || !(UnloadScan::fate(
                state,
                facts,
                state.residents[j],
            ) is Unloaded),
    ensures
        ({
            let (scan, begun) = UnloadScan::spec_begin(state, protected);
            scan.run(begun, facts) == (true, after)
        }),
        after == (ResidencyState { residents: after.residents, ..state }),
        after.wf(),
        after.residents.len() == state.residents.len() - 1,
        forall|t: ThreadId| #[trigger]
            after.is_resident(t) <==> state.is_resident(t) && t != state.residents[m],
        UnloadScan::spare(after, protected, facts) == UnloadScan::spare(state, protected, facts),
        ({
            let spare = UnloadScan::spare(state, protected, facts);
            state.residents.filter(spare) == seq![state.residents[m]] + after.residents.filter(
                spare,
            )
        }),
{
    let r = state.residents;
    let stays = UnloadScan::stays(state, protected, facts);
    let spare = UnloadScan::spare(state, protected, facts);
    let before = r.take(m);
    let behind = r.skip(m + 1);
    let (scan, begun) = UnloadScan::spec_begin(state, protected);
    let after = scan.run(begun, facts).1;
    crate::unload_laws::law_scan_unloads_the_oldest_spare_resident(state, protected, facts, m);
    assert forall|i: int| 0 <= i < before.len() implies stays(#[trigger] before[i]) && !spare(
        before[i],
    ) by {
        assert(state.is_resident(r[i]));
    }
    crate::seqs::lemma_filter_all(before, stays);
    assert(after.residents == behind + before);
    assert(after.pending_submissions =~= state.pending_submissions);
    assert forall|t: ThreadId| #[trigger] after.is_resident(t) <==> state.is_resident(t) && t
        != r[m] by {
        let q = after.residents;
        if r.contains(t) && t != r[m] {
            let j = choose|j: int| 0 <= j < r.len() && r[j] == t;
            let i = if j > m {
                j - m - 1
            } else {
                j + behind.len()
            };
            assert(q[i] == t);
        }
    }
    let one = seq![r[m]];
    assert(r =~= before + (one + behind));
    Seq::filter_distributes_over_add(before, one + behind, spare);
    Seq::filter_distributes_over_add(one, behind, spare);
    Seq::filter_distributes_over_add(behind, before, spare);
    before.lemma_all_neg_filter_empty(spare);
    crate::seqs::lemma_filter_all(one, spare);
    after
}

/// With all slots in use, or more than there should be, and every resident a loaded agent, a
/// reservation needs as many spare residents as slots are missing. It is granted if and only if
/// there are that many, and then exactly the oldest that many leave. Otherwise it is refused, and
/// all spare residents have left. Either way nobody loses a submission.
pub proof fn law_reservation_unloads_as_many_as_needed(
    state: ResidencyState,
    capacity: usize,
    protected: Option<ThreadId>,
    facts: spec_fn(ThreadId) -> ThreadFacts,
)
    requires
        state.wf(),
        state.residents.len() <= usize::MAX,
        state.slots_in_use() >= capacity,
        forall|t: ThreadId| #[trigger] state.is_resident(t) ==> facts(t).is_candidate(),
    ensures
        ({
            let (reservation, begun) = SlotReservation::spec_begin(state, capacity, protected);
            let (result, after) = reservation.run(begun, facts);
            let spares = state.residents.filter(UnloadScan::spare(state, protected, facts));
            let needed = state.slots_in_use() + 1 - capacity;
            let leaving = if spares.len() >= needed {
                spares.take(needed)
            } else {
                spares
            };
            &&& result == if spares.len() >= needed {
                Ok::<V2ResidencySlot, CodexErr>(V2ResidencySlot::promise())
            } else {
                Err(CodexErr::AgentLimitReached { max_threads: capacity })
            }
            &&& spares.len() >= needed ==> after.slots_in_use() == capacity
            &&& after == (ResidencyState {
                residents: after.residents,
                pending_slots: if spares.len() >= needed {
                    state.pending_slots + 1
                } else {
                    state.pending_slots
                },
                ..state
            })
            &&& forall|t: ThreadId| #[trigger]
                after.is_resident(t) <==> state.is_resident(t) && !leaving.contains(t)
        }),
    decreases state.residents.len(),
{
    let r = state.residents;
    let spare = UnloadScan::spare(state, protected, facts);
    let spares = r.filter(spare);
    let needed = state.slots_in_use() + 1 - capacity;
    let leaving = if spares.len() >= needed {
        spares.take(needed)
    } else {
        spares
    };
    let (reservation, begun) = SlotReservation::spec_begin(state, capacity, protected);
    let (result, after) = reservation.run(begun, facts);
    let m = lemma_first_spare(state, protected, facts, 0);
    if m == r.len() {
        law_reservation_is_refused_if_nobody_can_be_spared(state, capacity, protected, facts);
        r.lemma_all_neg_filter_empty(spare);
        assert forall|t: ThreadId| #[trigger] r.contains(t) implies facts(t).is_candidate() by {
            assert(state.is_resident(t));
        }
        assert(after.pending_submissions =~= state.pending_submissions);
    } else {
        let next = lemma_one_unload(state, protected, facts, m);
        let spares_left = next.residents.filter(spare);
        assert(state.lru_candidate(protected) is Some) by {
            crate::residency_laws::law_lru_candidate_is_the_oldest(state, protected);
        }
        lemma_run_carries_the_scan_through(reservation, begun, facts);
        let (again, again_begun) = SlotReservation::spec_begin(next, capacity, protected);
        assert(spares[0] == r[m]);
        if needed == 1 {
            assert(again.run(again_begun, facts) == (
                Ok::<V2ResidencySlot, CodexErr>(V2ResidencySlot::promise()),
                next.reserved(),
            ));
            assert(leaving =~= seq![r[m]]);
            assert forall|t: ThreadId| #[trigger] after.is_resident(t) <==> state.is_resident(t)
                && !leaving.contains(t) by {
                assert(leaving.contains(t) <==> t == r[m]);
                assert(after.is_resident(t) == next.is_resident(t));
            }
        } else {
            law_reservation_unloads_as_many_as_needed(next, capacity, protected, facts);
            let leaving_later = if spares_left.len() >= needed - 1 {
                spares_left.take(needed - 1)
            } else {
                spares_left
            };
            assert(leaving =~= seq![r[m]] + leaving_later);
            assert forall|t: ThreadId| #[trigger] after.is_resident(t) <==> state.is_resident(t)
                && !leaving.contains(t) by {
                assert(leaving.contains(t) <==> t == r[m] || leaving_later.contains(t)) by {
                    assert(leaving[0] == r[m]);
                    if leaving_later.contains(t) {
                        let i = choose|i: int|
                            0 <= i < leaving_later.len() && leaving_later[i] == t;
                        assert(leaving[i + 1] == t);
                    }
                }
            }
        }
    }
}

impl SlotReservation {
    /// The resident at this position can be spared, and once it and the strays and spare residents
    /// before it have left, a slot is free.
    pub open spec fn frees_a_slot(
        state: ResidencyState,
        capacity: usize,
        protected: Option<ThreadId>,
        facts: spec_fn(ThreadId) -> ThreadFacts,
        p: int,
    ) -> bool {
        &&& 0 <= p < state.residents.len()
        &&& UnloadScan::spare(state, protected, facts)(state.residents[p])
        &&& UnloadScan::state_past(state, protected, facts, p + 1).slots_in_use() < capacity
    }
}

/// Dealing with some residents changes nothing of what should become of those that are left.
proof fn lemma_past_keeps_fates(
    state: ResidencyState,
    protected: Option<ThreadId>,
    facts: spec_fn(ThreadId) -> ThreadFacts,
    n: int,
)
    requires
        state.wf(),
        0 <= n <= state.residents.len(),
    ensures
        ({
            let past = UnloadScan::state_past(state, protected, facts, n);
            &&& past.wf()
            &&& forall|i: int|
                0 <= i < past.residents.len() ==> UnloadScan::fate(
                    past,
                    facts,
                    #[trigger] past.residents[i],
                ) == UnloadScan::fate(state, facts, past.residents[i])
            &&& forall|i: int|
                state.residents.len() - n <= i < past.residents.len() ==> UnloadScan::stays(
                    state,
                    protected,
                    facts,
                )(#[trigger] past.residents[i])
        }),
{
    let r = state.residents;
    let stays = UnloadScan::stays(state, protected, facts);
    let past = UnloadScan::state_past(state, protected, facts, n);
    let examined = r.take(n);
    let ahead = r.skip(n);
    let kept = examined.filter(stays);
    crate::seqs::lemma_filter_no_duplicates(examined, stays);
    crate::seqs::lemma_filter_contains(examined, stays);
    assert forall|j: int| 0 <= j < kept.len() implies stays(#[trigger] kept[j])
        && examined.contains(kept[j]) by {
        assert(kept.contains(kept[j]));
    }
    assert forall|i: int| 0 <= i < ahead.len() implies !examined.contains(#[trigger] ahead[i]) by {
        if examined.contains(ahead[i]) {
            let k = choose|k: int| 0 <= k < n && examined[k] == ahead[i];
            assert(r[k] == r[i + n]);
        }
    }
    assert forall|i: int| 0 <= i < past.residents.len() implies UnloadScan::fate(
        past,
        facts,
        #[trigger] past.residents[i],
    ) == UnloadScan::fate(state, facts, past.residents[i]) by {
        let t = past.residents[i];
        assert(!(examined.contains(t) && UnloadScan::is_stray(state, protected, facts, t))) by {
            if i < ahead.len() {
                assert(ahead[i] == t);
            } else {
                assert(kept[i - ahead.len()] == t);
            }
        }
        assert(past.pending_ids(t) == state.pending_ids(t));
    }
}

/// Dealing with some residents and then with some more is dealing with all of them.
proof fn lemma_past_twice(
    state: ResidencyState,
    protected: Option<ThreadId>,
    facts: spec_fn(ThreadId) -> ThreadFacts,
    n: int,
    more: int,
)
    requires
        state.wf(),
        0 <= n,
        0 <= more,
        n + more <= state.residents.len(),
    ensures
        UnloadScan::state_past(
            UnloadScan::state_past(state, protected, facts, n),
            protected,
            facts,
            more,
        ) == UnloadScan::state_past(state, protected, facts, n + more),
{
    let r = state.residents;
    let past = UnloadScan::state_past(state, protected, facts, n);
    let q = past.residents;
    let stays = UnloadScan::stays(state, protected, facts);
    let stays_past = UnloadScan::stays(past, protected, facts);
    let examined = r.take(n + more);
    lemma_past_keeps_fates(state, protected, facts, n);
    assert(q.take(more) =~= examined.skip(n));
    assert(examined.take(n) =~= r.take(n));
    assert forall|i: int| 0 <= i < more implies stays_past(#[trigger] q.take(more)[i]) == stays(
        q.take(more)[i],
    ) && UnloadScan::is_stray(past, protected, facts, q.take(more)[i]) == UnloadScan::is_stray(
        state,
        protected,
        facts,
        q.take(more)[i],
    ) by {
        assert(q.take(more)[i] == q[i]);
    }
    crate::seqs::lemma_filter_agrees(q.take(more), stays_past, stays);
    crate::seqs::lemma_filter_parts(examined, stays, n);
    assert(q.skip(more) =~= r.skip(n + more) + r.take(n).filter(stays));
    let twice = UnloadScan::state_past(past, protected, facts, more);
    let once = UnloadScan::state_past(state, protected, facts, n + more);
    assert(twice.residents =~= once.residents);
    assert forall|t: ThreadId| #[trigger] examined.contains(t) <==> r.take(n).contains(t) || q.take(
        more,
    ).contains(t) by {
        if examined.contains(t) {
            let i = choose|i: int| 0 <= i < examined.len() && examined[i] == t;
            if i < n {
                assert(r.take(n)[i] == t);
            } else {
                assert(q.take(more)[i - n] == t);
            }
        }
        if r.take(n).contains(t) {
            let i = choose|i: int| 0 <= i < n && r.take(n)[i] == t;
            assert(examined[i] == t);
        }
        if q.take(more).contains(t) {
            let i = choose|i: int| 0 <= i < more && q.take(more)[i] == t;
            assert(examined[i + n] == t);
        }
    }
    assert(twice.pending_submissions =~= once.pending_submissions);
}

/// A scan that unloads an agent deals with the residents up to that agent.
proof fn lemma_scan_deals_with_the_first(
    state: ResidencyState,
    protected: Option<ThreadId>,
    facts: spec_fn(ThreadId) -> ThreadFacts,
    m: int,
)
    requires
        state.wf(),
        state.residents.len() <= usize::MAX,
        0 <= m < state.residents.len(),
        UnloadScan::spare(state, protected, facts)(state.residents[m]),
        forall|j: int|
            0 <= j < m ==> !UnloadScan::spare(state, protected, facts)(
                #[trigger] state.residents[j],
            ),
    ensures
        ({
            let (scan, begun) = UnloadScan::spec_begin(state, protected);
            let past = UnloadScan::state_past(state, protected, facts, m + 1);
            &&& scan.progress is Examining
            &&& scan.run(begun, facts) == (true, past)
            &&& past.residents.len() < state.residents.len()
        }),
{
    broadcast use vstd::seq_lib::group_filter_ensures;

    let r = state.residents;
    let stays = UnloadScan::stays(state, protected, facts);
    let past = UnloadScan::state_past(state, protected, facts, m + 1);
    crate::unload_laws::law_scan_unloads_the_oldest_spare_resident(state, protected, facts, m);
    crate::seqs::lemma_filter_take(r, stays, m);
    assert(state.lru_candidate(protected) is Some) by {
        crate::residency_laws::law_lru_candidate_is_the_oldest(state, protected);
        assert(state.is_resident(r[m]));
    }
    let examined = r.take(m + 1);
    let before = r.take(m);
    assert forall|t: ThreadId| #[trigger] examined.contains(t) <==> before.contains(t) || t
        == r[m] by {
        if examined.contains(t) {
            let i = choose|i: int| 0 <= i < examined.len() && examined[i] == t;
            if i < m {
                assert(before[i] == t);
            }
        }
        if before.contains(t) {
            let i = choose|i: int| 0 <= i < before.len() && before[i] == t;
            assert(examined[i] == t);
        }
        assert(examined[m] == r[m]);
    }
    assert(past.pending_submissions =~= UnloadScan::without_strays(
        state.pending_submissions,
        state,
        protected,
        facts,
        r.take(m),
    ));
}

/// With all slots in use, or more than there should be, a reservation is granted if some spare
/// resident frees a slot. Let `p` be the position of the first one that does: then exactly the
/// strays and the spare residents up to `p` leave. The residents behind `p` move up, those before it
/// that stay follow in their old order, and only the strays among those up to `p` lose their
/// submissions.
pub proof fn law_reservation_unloads_until_a_slot_is_free(
    state: ResidencyState,
    capacity: usize,
    protected: Option<ThreadId>,
    facts: spec_fn(ThreadId) -> ThreadFacts,
    p: int,
)
    requires
        state.wf(),
        state.residents.len() <= usize::MAX,
        state.slots_in_use() >= capacity,
        SlotReservation::frees_a_slot(state, capacity, protected, facts, p),
        forall|q: int|
            0 <= q < p ==> !#[trigger] SlotReservation::frees_a_slot(
                state,
                capacity,
                protected,
                facts,
                q,
            ),
    ensures
        ({
            let (reservation, begun) = SlotReservation::spec_begin(state, capacity, protected);
            reservation.run(begun, facts) == (
                Ok::<V2ResidencySlot, CodexErr>(V2ResidencySlot::promise()),
                UnloadScan::state_past(state, protected, facts, p + 1).reserved(),
            )
        }),
    decreases state.residents.len(),
{
    let r = state.residents;
    let (reservation, begun) = SlotReservation::spec_begin(state, capacity, protected);
    let m = lemma_first_spare(state, protected, facts, 0);
    let next = UnloadScan::state_past(state, protected, facts, m + 1);
    lemma_scan_deals_with_the_first(state, protected, facts, m);
    lemma_run_carries_the_scan_through(reservation, begun, facts);
    if next.slots_in_use() < capacity {
        assert(SlotReservation::frees_a_slot(state, capacity, protected, facts, m));
    } else {
        let left = p - m - 1;
        lemma_past_keeps_fates(state, protected, facts, m + 1);
        lemma_past_twice(state, protected, facts, m + 1, left + 1);
        assert(next.residents[left] == r[p]);
        assert forall|q: int| 0 <= q < left implies !#[trigger] SlotReservation::frees_a_slot(
            next,
            capacity,
            protected,
            facts,
            q,
        ) by {
            lemma_past_twice(state, protected, facts, m + 1, q + 1);
            assert(next.residents[q] == r[q + m + 1]);
            assert(!SlotReservation::frees_a_slot(state, capacity, protected, facts, q + m + 1));
        }
        law_reservation_unloads_until_a_slot_is_free(next, capacity, protected, facts, left);
    }
}

/// With all slots in use, or more than there should be, a reservation is refused if no spare resident
/// frees a slot. Then all strays and all spare residents leave, the others stay, with some of them
/// moved to the end, and only the strays lose their submissions.
pub proof fn law_reservation_is_refused_if_no_slot_gets_free(
    state: ResidencyState,
    capacity: usize,
    protected: Option<ThreadId>,
    facts: spec_fn(ThreadId) -> ThreadFacts,
)
    requires
        state.wf(),
        state.residents.len() <= usize::MAX,
        state.slots_in_use() >= capacity,
        forall|q: int|
            0 <= q < state.residents.len() ==> !#[trigger] SlotReservation::frees_a_slot(
                state,
                capacity,
                protected,
                facts,
                q,
            ),
    ensures
        ({
            let (reservation, begun) = SlotReservation::spec_begin(state, capacity, protected);
            let (result, after) = reservation.run(begun, facts);
            &&& result == Err::<V2ResidencySlot, CodexErr>(
                CodexErr::AgentLimitReached { max_threads: capacity },
            )
            &&& after == (ResidencyState {
                residents: after.residents,
                pending_submissions: UnloadScan::without_strays(
                    state.pending_submissions,
                    state,
                    protected,
                    facts,
                    state.residents,
                ),
                ..state
            })
            &&& crate::unload_laws::is_rotation(
                after.residents,
                state.residents.filter(UnloadScan::stays(state, protected, facts)),
            )
        }),
    decreases state.residents.len(),
{
    let r = state.residents;
    let stays = UnloadScan::stays(state, protected, facts);
    let (reservation, begun) = SlotReservation::spec_begin(state, capacity, protected);
    let (result, after) = reservation.run(begun, facts);
    let m = lemma_first_spare(state, protected, facts, 0);
    if m == r.len() {
        assert forall|t: ThreadId| #[trigger] state.is_resident(t) implies Some(t) == protected || !(
        UnloadScan::fate(state, facts, t) is Unloaded) by {
            let i = choose|i: int| 0 <= i < r.len() && r[i] == t;
            assert(!UnloadScan::spare(state, protected, facts)(r[i]));
        }
        crate::unload_laws::law_scan_unloads_nobody_who_is_needed(state, protected, facts);
        if reservation.progress is Unloading {
            lemma_run_carries_the_scan_through(reservation, begun, facts);
        }
    } else {
        let n = m + 1;
        let next = UnloadScan::state_past(state, protected, facts, n);
        let q = next.residents;
        let stays_next = UnloadScan::stays(next, protected, facts);
        let kept = r.take(n).filter(stays);
        let ahead = r.skip(n);
        lemma_scan_deals_with_the_first(state, protected, facts, m);
        lemma_run_carries_the_scan_through(reservation, begun, facts);
        assert(!SlotReservation::frees_a_slot(state, capacity, protected, facts, m));
        lemma_past_keeps_fates(state, protected, facts, n);
        assert forall|i: int| 0 <= i < q.len() implies !#[trigger] SlotReservation::frees_a_slot(
            next,
            capacity,
            protected,
            facts,
            i,
        ) by {
            if i < ahead.len() {
                lemma_past_twice(state, protected, facts, n, i + 1);
                assert(q[i] == r[i + n]);
                assert(!SlotReservation::frees_a_slot(state, capacity, protected, facts, i + n));
            } else {
                assert(stays(q[i]));
            }
        }
        law_reservation_is_refused_if_no_slot_gets_free(next, capacity, protected, facts);
        assert forall|i: int| 0 <= i < q.len() implies stays_next(#[trigger] q[i]) == stays(q[i])
            && UnloadScan::is_stray(next, protected, facts, q[i]) == UnloadScan::is_stray(
            state,
            protected,
            facts,
            q[i],
        ) by {}
        crate::seqs::lemma_filter_agrees(q, stays_next, stays);
        crate::seqs::lemma_filter_parts(r, stays, n);
        crate::seqs::lemma_filter_parts(q, stays, ahead.len() as int);
        assert(q.take(ahead.len() as int) =~= ahead);
        assert(q.skip(ahead.len() as int) =~= kept);
        assert forall|i: int| 0 <= i < kept.len() implies stays(#[trigger] kept[i]) by {
            assert(kept[i] == q[i + ahead.len()]);
        }
        crate::seqs::lemma_filter_all(kept, stays);
        let left = r.filter(stays);
        assert(q.filter(stays) =~= crate::unload_laws::rotated(left, kept.len() as int));
        crate::unload_laws::lemma_rotate_twice(left, kept.len() as int, after.residents);
        assert(after.pending_submissions =~= UnloadScan::without_strays(
            state.pending_submissions,
            state,
            protected,
            facts,
            r,
        )) by {
            assert forall|t: ThreadId| #[trigger] r.contains(t) <==> r.take(n).contains(t)
                || ahead.contains(t) by {
                if r.contains(t) {
                    let i = choose|i: int| 0 <= i < r.len() && r[i] == t;
                    if i < n {
                        assert(r.take(n)[i] == t);
                    } else {
                        assert(ahead[i - n] == t);
                    }
                }
            }
            assert forall|t: ThreadId| ahead.contains(t) implies #[trigger] q.contains(t) by {
                let i = choose|i: int| 0 <= i < ahead.len() && ahead[i] == t;
                assert(q[i] == t);
            }
            assert forall|t: ThreadId| #[trigger] q.contains(t) implies r.contains(t) by {
                let i = choose|i: int| 0 <= i < q.len() && q[i] == t;
                if i < ahead.len() {
                    assert(ahead[i] == t);
                } else {
                    crate::seqs::lemma_filter_contains(r.take(n), stays);
                    assert(kept[i - ahead.len()] == t);
                    assert(kept.contains(t));
                }
            }
            assert forall|t: ThreadId| #[trigger] q.contains(t) implies UnloadScan::is_stray(
                next,
                protected,
                facts,
                t,
            ) == UnloadScan::is_stray(state, protected, facts, t) by {
                let i = choose|i: int| 0 <= i < q.len() && q[i] == t;
                assert(stays_next(q[i]) == stays(q[i]));
            }
        }
    }
}

/// Finds the first spare resident that frees a slot, looking from `i` on.
proof fn lemma_first_that_frees(
    state: ResidencyState,
    capacity: usize,
    protected: Option<ThreadId>,
    facts: spec_fn(ThreadId) -> ThreadFacts,
    i: int,
) -> (p: int)
    requires
        0 <= i <= state.residents.len(),
        forall|q: int|
            0 <= q < i ==> !#[trigger] SlotReservation::frees_a_slot(
                state,
                capacity,
                protected,
                facts,
                q,
            ),
    ensures
        i <= p <= state.residents.len(),
        forall|q: int|
            0 <= q < p ==> !#[trigger] SlotReservation::frees_a_slot(
                state,
                capacity,
                protected,
                facts,
                q,
            ),
        p < state.residents.len() ==> SlotReservation::frees_a_slot(
            state,
            capacity,
            protected,
            facts,
            p,
        ),
    decreases state.residents.len() - i,
{
    if i == state.residents.len() || SlotReservation::frees_a_slot(
        state,
        capacity,
        protected,
        facts,
        i,
    ) {
        i
    } else {
        lemma_first_that_frees(state, capacity, protected, facts, i + 1)
    }
}

/// Who is left once the first residents were dealt with.
proof fn lemma_past_residents(
    state: ResidencyState,
    protected: Option<ThreadId>,
    facts: spec_fn(ThreadId) -> ThreadFacts,
    n: int,
)
    requires
        state.wf(),
        0 <= n <= state.residents.len(),
    ensures
        ({
            let past = UnloadScan::state_past(state, protected, facts, n);
            &&& forall|t: ThreadId| #[trigger] past.is_resident(t) ==> state.is_resident(t)
            &&& forall|i: int|
                0 <= i < state.residents.len() ==> (past.is_resident(#[trigger] state.residents[i])
                    <==> n <= i || UnloadScan::stays(state, protected, facts)(state.residents[i]))
        }),
{
    let r = state.residents;
    let stays = UnloadScan::stays(state, protected, facts);
    let past = UnloadScan::state_past(state, protected, facts, n);
    let examined = r.take(n);
    let ahead = r.skip(n);
    let kept = examined.filter(stays);
    crate::seqs::lemma_filter_contains(examined, stays);
    assert forall|t: ThreadId| #[trigger] past.is_resident(t) <==> ahead.contains(t)
        || kept.contains(t) by {
        if ahead.contains(t) {
            let i = choose|i: int| 0 <= i < ahead.len() && ahead[i] == t;
            assert(past.residents[i] == t);
        }
        if kept.contains(t) {
            let i = choose|i: int| 0 <= i < kept.len() && kept[i] == t;
            assert(past.residents[i + ahead.len()] == t);
        }
    }
    assert forall|i: int| 0 <= i < r.len() implies (past.is_resident(#[trigger] r[i]) <==> n <= i
        || stays(r[i])) by {
        if n <= i {
            assert(ahead[i - n] == r[i]);
        } else {
            assert(examined[i] == r[i]);
        }
    }
}

/// However many slots are in use, and whoever is resident, a reservation that is carried through takes
/// nobody into the residency and leaves the protected resident where it was. Each resident that
/// leaves is a stray or can be spared, and no spare resident leaves before an older one. Nobody loses
/// a submission but the strays that leave, and they lose all.
pub proof fn law_reservation_unloads_only_strays_and_the_oldest_spare_residents(
    state: ResidencyState,
    capacity: usize,
    protected: Option<ThreadId>,
    facts: spec_fn(ThreadId) -> ThreadFacts,
)
    requires
        state.wf(),
        state.residents.len() <= usize::MAX,
    ensures
        ({
            let (reservation, begun) = SlotReservation::spec_begin(state, capacity, protected);
            let (result, after) = reservation.run(begun, facts);
            let spare = UnloadScan::spare(state, protected, facts);
            let r = state.residents;
            &&& forall|t: ThreadId| #[trigger] after.is_resident(t) ==> state.is_resident(t)
            &&& forall|t: ThreadId| #[trigger]
                state.is_resident(t) && Some(t) == protected ==> after.is_resident(t)
            &&& forall|t: ThreadId| #[trigger]
                state.is_resident(t) && !after.is_resident(t) ==> UnloadScan::is_stray(
                    state,
                    protected,
                    facts,
                    t,
                ) || spare(t)
            &&& forall|i: int, j: int|
                0 <= i < j < r.len() && spare(#[trigger] r[i]) && spare(#[trigger] r[j])
                    && !after.is_resident(r[j]) ==> !after.is_resident(r[i])
            &&& forall|t: ThreadId| #[trigger]
                after.pending_ids(t) == if state.is_resident(t) && !after.is_resident(t)
                    && UnloadScan::is_stray(state, protected, facts, t) {
                    Set::empty()
                } else {
                    state.pending_ids(t)
                }
            &&& after.lifecycle_gates == state.lifecycle_gates
        }),
{
    let r = state.residents;
    let stays = UnloadScan::stays(state, protected, facts);
    let spare = UnloadScan::spare(state, protected, facts);
    let (reservation, begun) = SlotReservation::spec_begin(state, capacity, protected);
    let (result, after) = reservation.run(begun, facts);
    let p = lemma_first_that_frees(state, capacity, protected, facts, 0);
    if state.slots_in_use() >= capacity {
        let n = if p < r.len() {
            p + 1
        } else {
            p
        };
        let past = UnloadScan::state_past(state, protected, facts, n);
        lemma_past_residents(state, protected, facts, n);
        if p < r.len() {
            law_reservation_unloads_until_a_slot_is_free(state, capacity, protected, facts, p);
        } else {
            law_reservation_is_refused_if_no_slot_gets_free(state, capacity, protected, facts);
            assert(r.take(n) =~= r);
            assert(past.residents =~= r.filter(stays));
            crate::unload_laws::lemma_rotation_contains(after.residents, past.residents);
        }
        assert forall|t: ThreadId| #[trigger] after.is_resident(t) == past.is_resident(t) by {}
        assert forall|t: ThreadId| #[trigger] state.is_resident(t) implies stays(t)
            || !after.is_resident(t) || !r.take(n).contains(t) by {
            let i = choose|i: int| 0 <= i < r.len() && r[i] == t;
            if r.take(n).contains(t) {
                let k = choose|k: int| 0 <= k < n && r.take(n)[k] == t;
                assert(r[k] == t);
            }
        }
        assert forall|t: ThreadId| #[trigger] state.is_resident(t) implies after.is_resident(t)
            || (r.take(n).contains(t) && !stays(t)) by {
            let i = choose|i: int| 0 <= i < r.len() && r[i] == t;
            if i < n {
                assert(r.take(n)[i] == t);
            }
        }
        assert forall|t: ThreadId| #[trigger] r.take(n).contains(t) implies state.is_resident(t) by {
            let k = choose|k: int| 0 <= k < n && r.take(n)[k] == t;
            assert(r[k] == t);
        }
    }
}

impl SlotReservation {
    /// The reservation after a history of replies.
    pub open spec fn after(self, history: History) -> Self
        decreases history.len(),
    {
        if history.len() == 0 {
            self
        } else {
            self.after(history.earlier()).spec_step(history.state(), history.reply()).0
        }
    }

    /// The reservation is granted, or has found out nothing yet.
    pub open spec fn is_at_its_start(self) -> bool {
        self.progress matches ReservationProgress::Unloading(scan) ==> scan.is_at_its_start()
    }
}

/// Whatever the replies and whoever uses the residency in between, a reservation is as far with its
/// candidate as the verdict on the replies that it received since it took the candidate up, and what
/// these told it justifies that.
pub proof fn law_reservation_shuts_down_only_agents_at_rest(
    begun: SlotReservation,
    history: History,
)
    requires
        begun.is_at_its_start(),
    ensures
        begun.after(history).progress matches ReservationProgress::Unloading(scan) ==> {
            scan.progress matches ScanProgress::Examining { candidate, stage } ==> exists|start: int|
                {
                    &&& #[trigger] UnloadScan::examined_since(history, start, candidate, stage)
                    &&& stage.is_justified(candidate, history.since(start))
                }
        },
    decreases history.len(),
{
    if history.len() > 0 {
        law_reservation_shuts_down_only_agents_at_rest(begun, history.earlier());
        if let ReservationProgress::Unloading(before) = begun.after(history.earlier()).progress {
            if let ScanProgress::Examining { candidate, stage } = before.progress {
                let start = choose|start: int| #[trigger]
                    UnloadScan::examined_since(history.earlier(), start, candidate, stage);
                history.lemma_since(start);
                if let Verdict::Continue(next) = stage.spec_judge(
                    history.state().has_pending(candidate),
                    history.reply(),
                ) {
                    assert(UnloadScan::examined_since(history, start, candidate, next));
                    crate::unload_laws::law_candidate_is_shut_down_only_at_rest(
                        candidate,
                        history.since(start),
                    );
                }
            }
        }
    }
    if let ReservationProgress::Unloading(scan) = begun.after(history).progress {
        if let ScanProgress::Examining { candidate, stage } = scan.progress {
            if stage is LockingLifecycle {
                assert(UnloadScan::examined_since(history, history.len() as int, candidate, stage));
            }
        }
    }
}

/// The limit on agent threads is the number of slots: a reservation that is asked for under a limit is
/// granted at once if fewer slots than that are in use. Carried through, it leaves at most that many in
/// use if it is granted, and otherwise reports that very limit. Without a limit, as many slots as can
/// be counted serve.
pub proof fn law_limit_is_the_number_of_slots(
    state: ResidencyState,
    limit: usize,
    protected: Option<ThreadId>,
    facts: spec_fn(ThreadId) -> ThreadFacts,
)
    requires
        state.wf(),
        state.residents.len() <= usize::MAX,
    ensures
        ({
            let (reservation, begun) = SlotReservation::spec_begin(
                state,
                crate::reservation::spec_capacity(Some(limit)),
                protected,
            );
            let (result, after) = reservation.run(begun, facts);
            &&& reservation.capacity == limit
            &&& state.residents.len() + state.pending_slots < limit ==> result is Ok
                && after.residents == state.residents
            &&& match result {
                Ok(_) => after.residents.len() + after.pending_slots <= limit,
                Err(err) => err == CodexErr::AgentLimitReached { max_threads: limit },
            }
        }),
        ({
            let (reservation, begun) = SlotReservation::spec_begin(
                state,
                crate::reservation::spec_capacity(None),
                protected,
            );
            &&& reservation.capacity == usize::MAX
            &&& state.residents.len() + state.pending_slots < usize::MAX
                ==> reservation.progress == ReservationProgress::Finished(
                Ok(V2ResidencySlot::promise()),
            ) && begun.residents == state.residents
        }),
{
    law_reservation_gives_up_only_if_nobody_is_left_to_spare(state, limit, protected, facts);
}

/// A request for a slot is answered by how many are in use at that moment. If residents and promises
/// together are fewer than the capacity, one more is promised and nothing else changes. If not, a scan
/// begins, or, if it ends at once, the limit is reported.
pub proof fn law_request_is_answered_by_the_slots_in_use(
    state: ResidencyState,
    capacity: usize,
    protected: Option<ThreadId>,
)
    ensures
        ({
            let (reservation, after) = SlotReservation::spec_begin(state, capacity, protected);
            let (scan, scanned) = UnloadScan::spec_begin(state, protected);
            &&& reservation.capacity == capacity
            &&& reservation.protected_thread_id == protected
            &&& state.residents.len() + state.pending_slots < capacity ==> {
                &&& reservation.progress == ReservationProgress::Finished(
                    Ok(V2ResidencySlot::promise()),
                )
                &&& after.pending_slots == state.pending_slots + 1
                &&& after.residents == state.residents
                &&& after.pending_submissions == state.pending_submissions
                &&& after.lifecycle_gates == state.lifecycle_gates
            }
            &&& state.residents.len() + state.pending_slots >= capacity ==> {
                &&& after == scanned
                &&& scan.progress is Examining ==> reservation.progress
                    == ReservationProgress::Unloading(scan)
                &&& scan.progress is Finished ==> reservation.progress
                    == ReservationProgress::Finished(
                    Err(CodexErr::AgentLimitReached { max_threads: capacity }),
                )
            }
        }),
{
}

/// A reservation follows its scan, and what it makes of the scan's end depends on nothing else: if the
/// scan unloaded an agent, the slot is asked for anew; if not, the limit is reported. A reservation
/// that has ended changes nothing any more.
pub proof fn law_reservation_follows_its_scan(
    reservation: SlotReservation,
    state: ResidencyState,
    reply: ThreadReply,
)
    ensures
        ({
            let (next, after) = reservation.spec_step(state, reply);
            match reservation.progress {
                ReservationProgress::Finished(_) => next == reservation && after == state,
                ReservationProgress::Unloading(scan) => {
                    let (scan_next, scanned) = scan.spec_step(state, reply);
                    match scan_next.progress {
                        ScanProgress::Examining { .. } => {
                            &&& next.progress == ReservationProgress::Unloading(scan_next)
                            &&& next.capacity == reservation.capacity
                            &&& next.protected_thread_id == reservation.protected_thread_id
                            &&& after == scanned
                        },
                        ScanProgress::Finished(unloaded) => if unloaded {
                            (next, after) == SlotReservation::spec_begin(
                                scanned,
                                reservation.capacity,
                                reservation.protected_thread_id,
                            )
                        } else {
                            &&& next.progress == ReservationProgress::Finished(
                                Err(
                                    CodexErr::AgentLimitReached {
                                        max_threads: reservation.capacity,
                                    },
                                ),
                            )
                            &&& after == scanned
                        },
                    }
                },
            }
        }),
{
}

} // verus!
