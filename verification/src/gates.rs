//! The table of lifecycle gates.
//!
//! Loading, unloading and messaging a thread exclude each other: whoever does one of these first
//! acquires the thread's gate. The table hands out the same gate to everyone who asks for it while
//! anyone still uses it, and forgets gates that nobody uses.
use crate::thread::ThreadId;
use std::collections::HashMap;
use std::sync::Arc;
use vstd::prelude::*;

verus! {

/// Tokio's asynchronous mutex, as an opaque value.
#[verifier::external_type_specification]
#[verifier::external_body]
#[verifier::reject_recursive_types(T)]
pub struct ExAsyncMutex<T: ?Sized>(tokio::sync::Mutex<T>);

/// The lock of one thread, shared by everyone who waits for it or holds it.
pub type LifecycleGate = Arc<tokio::sync::Mutex<()>>;

/// Calls `tokio::sync::Mutex::new`, which makes a new mutex in the unlocked state.
///
/// The claim is that the new mutex is none of those that the given gates point to. Two values of the
/// type are equal here if they are one and the same mutex; whether it is locked changes over its
/// life and is no part of the value, so nothing is claimed of that.
#[allow(unused_variables)]
#[verifier::external_body]
fn new_mutex(gates: &HashMap<ThreadId, LifecycleGate>) -> (mutex: tokio::sync::Mutex<()>)
    ensures
        forall|t: ThreadId| gates@.contains_key(t) ==> *(#[trigger] gates@[t]) != mutex,
{
    tokio::sync::Mutex::new(())
}

/// Calls `std::sync::Arc::strong_count`, which counts the pointers to a lifecycle gate.
///
/// The count depends on what other tasks do, so the one claim is that it includes the pointer that
/// it was asked of.
#[verifier::external_body]
fn pointers_to(gate: &LifecycleGate) -> (count: usize)
    ensures
        count >= 1,
{
    Arc::strong_count(gate)
}

/// The gates that are known, by thread. The table itself points to each of them, so a gate with one
/// pointer is used by nobody.
pub struct LifecycleGates {
    gates: HashMap<ThreadId, LifecycleGate>,
}

impl View for LifecycleGates {
    type V = Map<ThreadId, LifecycleGate>;

    closed spec fn view(&self) -> Map<ThreadId, LifecycleGate> {
        self.gates@
    }
}

impl Default for LifecycleGates {
    fn default() -> (table: Self)
        ensures
            table@ == Map::<ThreadId, LifecycleGate>::empty(),
    {
        LifecycleGates { gates: HashMap::new() }
    }
}

impl LifecycleGates {
    /// The thread is listed as one whose gate has no pointer besides the table's own.
    pub open spec fn listed_unused(pointers: Seq<(ThreadId, usize)>, thread_id: ThreadId) -> bool {
        exists|i: int|
            0 <= i < pointers.len() && (#[trigger] pointers[i]).0 == thread_id && pointers[i].1 <= 1
    }

    /// The gates without those that are listed as unused.
    pub open spec fn used_gates(
        gates: Map<ThreadId, LifecycleGate>,
        pointers: Seq<(ThreadId, usize)>,
    ) -> Map<ThreadId, LifecycleGate> {
        Map::new(
            |t: ThreadId| gates.contains_key(t) && !Self::listed_unused(pointers, t),
            |t: ThreadId| gates[t],
        )
    }

    /// The number is what counting the pointers to this gate gave at some moment.
    pub closed spec fn counted(gate: LifecycleGate, count: usize) -> bool {
        call_ensures(pointers_to, (&gate,), count)
    }

    /// The list holds each gate of the table once, and nothing else, each with a number of pointers
    /// that was counted of that very gate.
    pub open spec fn counts_every_gate(
        gates: Map<ThreadId, LifecycleGate>,
        pointers: Seq<(ThreadId, usize)>,
    ) -> bool {
        &&& forall|t: ThreadId| #[trigger]
            gates.contains_key(t) <==> exists|i: int|
                0 <= i < pointers.len() && (#[trigger] pointers[i]).0 == t
        &&& forall|i: int, j: int|
            0 <= i < j < pointers.len() ==> (#[trigger] pointers[i]).0 != (#[trigger] pointers[j]).0
        &&& forall|i: int|
            0 <= i < pointers.len() ==> (#[trigger] pointers[i]).1 >= 1 && Self::counted(
                gates[pointers[i].0],
                pointers[i].1,
            )
    }

    /// What a request for a thread's gate does to the table, and which gate it yields, given how many
    /// pointers each gate has: a gate that the table keeps, or else a new one, which is none of those
    /// that the table had.
    pub open spec fn requested(
        before: Map<ThreadId, LifecycleGate>,
        thread_id: ThreadId,
        pointers: Seq<(ThreadId, usize)>,
        after: Map<ThreadId, LifecycleGate>,
        gate: LifecycleGate,
    ) -> bool {
        let used = Self::used_gates(before, pointers);
        if used.contains_key(thread_id) {
            gate == used[thread_id] && after == used
        } else {
            &&& after == used.insert(thread_id, gate)
            &&& forall|t: ThreadId| before.contains_key(t) ==> #[trigger] before[t] != gate
        }
    }

    /// No two threads have the same gate.
    pub open spec fn all_different(gates: Map<ThreadId, LifecycleGate>) -> bool {
        forall|t: ThreadId, u: ThreadId|
            gates.contains_key(t) && gates.contains_key(u) && t != u ==> #[trigger] gates[t]
                != #[trigger] gates[u]
    }

    /// What a request for a thread's gate does at a time when the numbers of pointers are not known.
    pub open spec fn requested_at_some_time(
        before: Map<ThreadId, LifecycleGate>,
        thread_id: ThreadId,
        after: Map<ThreadId, LifecycleGate>,
        gate: LifecycleGate,
    ) -> bool {
        exists|pointers: Seq<(ThreadId, usize)>|
            {
                &&& #[trigger] Self::counts_every_gate(before, pointers)
                &&& Self::requested(before, thread_id, pointers, after, gate)
            }
    }

    /// Reading one more entry of the list leaves out at most that entry's gate.
    proof fn lemma_used_gates_step(
        gates: Map<ThreadId, LifecycleGate>,
        pointers: Seq<(ThreadId, usize)>,
        i: int,
    )
        requires
            0 <= i < pointers.len(),
        ensures
            Self::used_gates(gates, pointers.take(i + 1)) == if pointers[i].1 <= 1 {
                Self::used_gates(gates, pointers.take(i)).remove(pointers[i].0)
            } else {
                Self::used_gates(gates, pointers.take(i))
            },
    {
        let shorter = pointers.take(i);
        let longer = pointers.take(i + 1);
        assert forall|t: ThreadId| #[trigger]
            Self::listed_unused(longer, t) == (Self::listed_unused(shorter, t) || (pointers[i].0
                == t && pointers[i].1 <= 1)) by {
            if Self::listed_unused(shorter, t) {
                let j = choose|j: int|
                    0 <= j < shorter.len() && (#[trigger] shorter[j]).0 == t && shorter[j].1 <= 1;
                assert(longer[j] == shorter[j]);
            }
            if Self::listed_unused(longer, t) {
                let j = choose|j: int|
                    0 <= j < longer.len() && (#[trigger] longer[j]).0 == t && longer[j].1 <= 1;
                if j < i {
                    assert(shorter[j] == longer[j]);
                }
            }
            assert(longer[i] == pointers[i]);
        }
        assert(Self::used_gates(gates, longer) =~= if pointers[i].1 <= 1 {
            Self::used_gates(gates, shorter).remove(pointers[i].0)
        } else {
            Self::used_gates(gates, shorter)
        });
    }

    /// What counting the pointers to a gate gives is a number counted of that gate, and nothing else is.
    proof fn law_counted_means_asked_of_this_gate(gate: LifecycleGate, count: usize)
        ensures
            Self::counted(gate, count) <==> call_ensures(pointers_to, (&gate,), count),
    {
    }

    /// Counts the pointers to each gate, the table's own included. How many there are besides depends on
    /// what other tasks hold at that moment, and is not said.
    pub fn count_pointers(&self) -> (pointers: Vec<(ThreadId, usize)>)
        ensures
            Self::counts_every_gate(self@, pointers@),
    {
        let mut pointers: Vec<(ThreadId, usize)> = Vec::new();
        let ghost keys = vstd::std_specs::iter::IteratorSpec::remaining(&self.gates.keys()).unref();
        for thread_id in iter: self.gates.keys()
            invariant
                pointers.len() == iter.index(),
                iter.seq().unref() == keys,
                keys.to_set() == self.gates@.dom(),
                forall|i: int|
                    0 <= i < pointers.len() ==> (#[trigger] pointers[i]).0 == keys[i]
                        && pointers[i].1 >= 1 && Self::counted(
                        self.gates@[pointers[i].0],
                        pointers[i].1,
                    ),
        {
            proof {
                assert(keys[iter.index()] == *thread_id);
                assert(keys.to_set().contains(*thread_id));
            }
            if let Some(gate) = self.gates.get(thread_id) {
                pointers.push((*thread_id, pointers_to(gate)));
            }
        }
        proof {
            assert(pointers.len() == keys.len());
            assert forall|t: ThreadId| #[trigger] self@.contains_key(t) implies exists|i: int|
                0 <= i < pointers.len() && (#[trigger] pointers[i]).0 == t by {
                assert(keys.to_set().contains(t));
                let i = choose|i: int| 0 <= i < keys.len() && keys[i] == t;
                assert(pointers[i].0 == t);
            }
            assert forall|i: int| 0 <= i < pointers.len() implies self@.contains_key(
                (#[trigger] pointers[i]).0,
            ) by {
                assert(keys.to_set().contains(keys[i]));
            }
        }
        pointers
    }

    /// Forgets the gates that the list shows to be unused, then yields the thread's gate, making a
    /// new one if the table has none left for it.
    pub fn gate_given(
        &mut self,
        thread_id: ThreadId,
        pointers: &Vec<(ThreadId, usize)>,
    ) -> (gate: LifecycleGate)
        ensures
            Self::requested(old(self)@, thread_id, pointers@, final(self)@, gate),
            final(self)@.contains_key(thread_id) && final(self)@[thread_id] == gate,
            Self::all_different(old(self)@) ==> Self::all_different(final(self)@),
    {
        let ghost before = self.gates@;
        // Made while all gates of the table still exist, so that it is none of them.
        let mutex = new_mutex(&self.gates);
        proof {
            assert(Self::used_gates(before, pointers@.take(0)) =~= before);
        }
        let mut i: usize = 0;
        while i < pointers.len()
            invariant
                i <= pointers.len(),
                self.gates@ == Self::used_gates(before, pointers@.take(i as int)),
                forall|t: ThreadId| before.contains_key(t) ==> *(#[trigger] before[t]) != mutex,
            decreases pointers.len() - i,
        {
            proof {
                Self::lemma_used_gates_step(before, pointers@, i as int);
            }
            if pointers[i].1 <= 1 {
                self.gates.remove(&pointers[i].0);
            }
            i += 1;
        }
        proof {
            assert(pointers@.take(pointers.len() as int) =~= pointers@);
        }
        if let Some(gate) = self.gates.get(&thread_id) {
            return gate.clone();
        }
        let gate = Arc::new(mutex);
        self.gates.insert(thread_id, gate.clone());
        gate
    }

    /// Counts the pointers to each gate, forgets the gates that are counted as having none besides the
    /// table's own, and yields the thread's gate: the one that the table kept, or else a new one.
    pub fn gate(&mut self, thread_id: ThreadId) -> (gate: LifecycleGate)
        ensures
            Self::requested_at_some_time(old(self)@, thread_id, final(self)@, gate),
            final(self)@.contains_key(thread_id) && final(self)@[thread_id] == gate,
            Self::all_different(old(self)@) ==> Self::all_different(final(self)@),
    {
        let pointers = self.count_pointers();
        self.gate_given(thread_id, &pointers)
    }
}

} // verus!
