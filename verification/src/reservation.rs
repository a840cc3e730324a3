//! Reserving a slot for an agent that is about to be loaded.
use crate::error::CodexErr;
use crate::exchange::{ThreadReply, ThreadRequest};
use crate::residency::V2Residency;
use crate::state::ResidencyState;
use crate::thread::ThreadId;
use crate::unload::{ScanProgress, UnloadScan};
use vstd::prelude::*;

verus! {

/// A promised slot. It is used up either by committing it to a loaded agent or by releasing it.
#[derive(Debug, PartialEq, Eq)]
pub struct V2ResidencySlot {
    reserved: (),
}

impl V2ResidencySlot {
    /// The promise itself carries no data: the residency counts it.
    pub closed spec fn promise() -> V2ResidencySlot {
        V2ResidencySlot { reserved: () }
    }

    fn claim() -> (slot: V2ResidencySlot)
        ensures
            slot == Self::promise(),
    {
        V2ResidencySlot { reserved: () }
    }

    /// The agent was loaded: it takes the slot and becomes the most recently used resident.
    pub fn commit(self, residency: &mut V2Residency, thread_id: ThreadId)
        ensures
            final(residency)@ == old(residency)@.committed(thread_id),
            old(residency)@.wf() ==> final(residency)@.wf(),
    {
        residency.commit_slot(thread_id);
    }

    /// The agent was not loaded: the slot is given back.
    pub fn release(self, residency: &mut V2Residency)
        ensures
            final(residency)@ == old(residency)@.released(),
            old(residency)@.wf() ==> final(residency)@.wf(),
    {
        residency.release_pending_slot();
    }
}

/// The number of slots under an optional limit on agent threads.
pub open spec fn spec_capacity(max_threads: Option<usize>) -> usize {
    match max_threads {
        Some(limit) => limit,
        None => usize::MAX,
    }
}

/// The number of slots under an optional limit on agent threads: without a limit, as many as can be
/// counted.
pub fn residency_capacity(max_threads: Option<usize>) -> (capacity: usize)
    ensures
        max_threads matches Some(limit) ==> capacity == limit,
        max_threads is None ==> capacity == usize::MAX,
        capacity == spec_capacity(max_threads),
{
    match max_threads {
        Some(limit) => limit,
        None => usize::MAX,
    }
}

#[derive(Debug, PartialEq, Eq)]
pub enum ReservationProgress {
    /// All slots are in use; an agent is being unloaded to free one.
    Unloading(UnloadScan),
    Finished(Result<V2ResidencySlot, CodexErr>),
}

/// A request for a slot, which unloads agents until one is free.
#[derive(Debug, PartialEq, Eq)]
pub struct SlotReservation {
    pub capacity: usize,
    /// A resident that must stay.
    pub protected_thread_id: Option<ThreadId>,
    pub progress: ReservationProgress,
}

impl SlotReservation {
    pub open spec fn wf(self) -> bool {
        match self.progress {
            ReservationProgress::Unloading(scan) => scan.wf() && scan.protected_thread_id
                == self.protected_thread_id && scan.progress is Examining,
            ReservationProgress::Finished(_) => true,
        }
    }

    pub open spec fn limit_reached(capacity: usize) -> Result<V2ResidencySlot, CodexErr> {
        Err(CodexErr::AgentLimitReached { max_threads: capacity })
    }

    /// A free slot is promised. Without one, unloading begins; without anything to unload, the
    /// limit is reached.
    pub open spec fn spec_begin(
        state: ResidencyState,
        capacity: usize,
        protected_thread_id: Option<ThreadId>,
    ) -> (SlotReservation, ResidencyState) {
        if state.slots_in_use() < capacity {
            (
                SlotReservation {
                    capacity,
                    protected_thread_id,
                    progress: ReservationProgress::Finished(Ok(V2ResidencySlot::promise())),
                },
                state.reserved(),
            )
        } else {
            let (scan, after) = UnloadScan::spec_begin(state, protected_thread_id);
            (
                SlotReservation {
                    capacity,
                    protected_thread_id,
                    progress: if scan.progress is Finished {
                        ReservationProgress::Finished(Self::limit_reached(capacity))
                    } else {
                        ReservationProgress::Unloading(scan)
                    },
                },
                after,
            )
        }
    }

    /// The scan goes on. Once it has unloaded an agent, the request is made anew; once it has ended
    /// without, the limit is reached.
    pub open spec fn spec_step(self, state: ResidencyState, reply: ThreadReply) -> (
        SlotReservation,
        ResidencyState,
    ) {
        match self.progress {
            ReservationProgress::Finished(_) => (self, state),
            ReservationProgress::Unloading(scan) => {
                let (scan, after) = scan.spec_step(state, reply);
                match scan.progress {
                    ScanProgress::Examining { .. } => (
                        SlotReservation { progress: ReservationProgress::Unloading(scan), ..self },
                        after,
                    ),
                    ScanProgress::Finished(true) => Self::spec_begin(
                        after,
                        self.capacity,
                        self.protected_thread_id,
                    ),
                    ScanProgress::Finished(false) => (
                        SlotReservation {
                            progress: ReservationProgress::Finished(
                                Self::limit_reached(self.capacity),
                            ),
                            ..self
                        },
                        after,
                    ),
                }
            },
        }
    }

    /// Asks for a slot among `capacity`.
    pub fn begin(
        residency: &mut V2Residency,
        capacity: usize,
        protected_thread_id: Option<ThreadId>,
    ) -> (reservation: SlotReservation)
        requires
            old(residency)@.wf(),
        ensures
            (reservation, final(residency)@) == Self::spec_begin(
                old(residency)@,
                capacity,
                protected_thread_id,
            ),
            reservation.wf(),
            final(residency)@.wf(),
    {
        let progress = if residency.try_reserve_pending_slot(capacity) {
            ReservationProgress::Finished(Ok(V2ResidencySlot::claim()))
        } else {
            let scan = UnloadScan::begin(residency, protected_thread_id);
            match scan.progress {
                ScanProgress::Examining { .. } => ReservationProgress::Unloading(scan),
                ScanProgress::Finished(_) => ReservationProgress::Finished(
                    Err(CodexErr::AgentLimitReached { max_threads: capacity }),
                ),
            }
        };
        SlotReservation { capacity, protected_thread_id, progress }
    }

    /// The thread at hand and what the reservation waits for, until it is finished.
    pub fn request(&self) -> (request: Option<(ThreadId, ThreadRequest)>)
        ensures
            request == match self.progress {
                ReservationProgress::Unloading(scan) => match scan.progress {
                    ScanProgress::Examining { candidate, stage } => Some(
                        (candidate, stage.spec_request()),
                    ),
                    ScanProgress::Finished(_) => None,
                },
                ReservationProgress::Finished(_) => None,
            },
    {
        match &self.progress {
            ReservationProgress::Unloading(scan) => scan.request(),
            ReservationProgress::Finished(_) => None,
        }
    }

    /// Takes the reservation one reply further.
    pub fn step(self, residency: &mut V2Residency, reply: ThreadReply) -> (reservation:
        SlotReservation)
        requires
            old(residency)@.wf(),
            self.wf(),
        ensures
            (reservation, final(residency)@) == self.spec_step(old(residency)@, reply),
            reservation.wf(),
            final(residency)@.wf(),
    {
        let SlotReservation { capacity, protected_thread_id, progress } = self;
        match progress {
            ReservationProgress::Finished(result) => {
                SlotReservation {
                    capacity,
                    protected_thread_id,
                    progress: ReservationProgress::Finished(result),
                }
            },
            ReservationProgress::Unloading(scan) => {
                let scan = scan.step(residency, reply);
                match scan.progress {
                    ScanProgress::Examining { .. } => {
                        SlotReservation {
                            capacity,
                            protected_thread_id,
                            progress: ReservationProgress::Unloading(scan),
                        }
                    },
                    ScanProgress::Finished(true) => {
                        Self::begin(residency, capacity, protected_thread_id)
                    },
                    ScanProgress::Finished(false) => {
                        SlotReservation {
                            capacity,
                            protected_thread_id,
                            progress: ReservationProgress::Finished(
                                Err(CodexErr::AgentLimitReached { max_threads: capacity }),
                            ),
                        }
                    },
                }
            },
        }
    }
}

/// Asks for a slot under an optional limit on agent threads.
pub fn reserve_v2_residency_slot(
    residency: &mut V2Residency,
    max_threads: Option<usize>,
    protected_thread_id: Option<ThreadId>,
) -> (reservation: SlotReservation)
    requires
        old(residency)@.wf(),
    ensures
        (reservation, final(residency)@) == SlotReservation::spec_begin(
            old(residency)@,
            spec_capacity(max_threads),
            protected_thread_id,
        ),
        max_threads matches Some(limit) ==> reservation.capacity == limit,
        max_threads is None ==> reservation.capacity == usize::MAX,
        reservation.wf(),
        final(residency)@.wf(),
{
    let capacity = residency_capacity(max_threads);
    SlotReservation::begin(residency, capacity, protected_thread_id)
}

} // verus!
