//! Laws of the lifecycle gates.
use crate::gates::{LifecycleGate, LifecycleGates};
use crate::thread::ThreadId;
use vstd::prelude::*;

verus! {

/// A request for a gate.
pub struct GateRequest {
    /// Whose gate was asked for.
    pub thread_id: ThreadId,
    /// How many pointers were counted to each gate.
    pub pointers: Seq<(ThreadId, usize)>,
    /// What was yielded.
    pub gate: LifecycleGate,
}

impl GateRequest {
    /// The request leads from one state of the table to another.
    pub open spec fn leads(
        self,
        before: Map<ThreadId, LifecycleGate>,
        after: Map<ThreadId, LifecycleGate>,
    ) -> bool {
        &&& LifecycleGates::counts_every_gate(before, self.pointers)
        &&& LifecycleGates::requested(before, self.thread_id, self.pointers, after, self.gate)
    }

    /// The requests lead from each state of the table to the next one.
    pub open spec fn lead_through(
        requests: Seq<GateRequest>,
        tables: Seq<Map<ThreadId, LifecycleGate>>,
    ) -> bool {
        &&& tables.len() == requests.len() + 1
        &&& forall|i: int|
            0 <= i < requests.len() ==> (#[trigger] requests[i]).leads(tables[i], tables[i + 1])
    }

    /// At none of the requests after `from` and before `to` the thread's gate is counted as having no
    /// pointer besides the table's own.
    pub open spec fn stays_in_use(
        requests: Seq<GateRequest>,
        thread_id: ThreadId,
        from: int,
        to: int,
    ) -> bool {
        forall|i: int|
            from < i < to ==> !LifecycleGates::listed_unused(
                (#[trigger] requests[i]).pointers,
                thread_id,
            )
    }
}

/// As long as a thread's gate is not counted as having no pointer besides the table's own, whoever
/// asks for it gets that same gate, and the table keeps it no matter whose gate is asked for.
pub proof fn law_gate_is_shared_while_in_use(
    before: Map<ThreadId, LifecycleGate>,
    thread_id: ThreadId,
    asked_for: ThreadId,
    pointers: Seq<(ThreadId, usize)>,
    after: Map<ThreadId, LifecycleGate>,
    gate: LifecycleGate,
)
    requires
        before.contains_key(thread_id),
        !LifecycleGates::listed_unused(pointers, thread_id),
        LifecycleGates::requested(before, asked_for, pointers, after, gate),
    ensures
        after.contains_key(thread_id),
        after[thread_id] == before[thread_id],
        asked_for == thread_id ==> gate == before[thread_id],
{
}

/// Two requests for a thread's gate yield the same one, unless at the second request it is counted as
/// having no pointer besides the table's own.
pub proof fn law_second_request_meets_the_first(
    before: Map<ThreadId, LifecycleGate>,
    thread_id: ThreadId,
    first_pointers: Seq<(ThreadId, usize)>,
    between: Map<ThreadId, LifecycleGate>,
    first: LifecycleGate,
    second_pointers: Seq<(ThreadId, usize)>,
    after: Map<ThreadId, LifecycleGate>,
    second: LifecycleGate,
)
    requires
        LifecycleGates::requested(before, thread_id, first_pointers, between, first),
        !LifecycleGates::listed_unused(second_pointers, thread_id),
        LifecycleGates::requested(between, thread_id, second_pointers, after, second),
    ensures
        second == first,
{
    assert(between.contains_key(thread_id) && between[thread_id] == first);
    law_gate_is_shared_while_in_use(
        between,
        thread_id,
        thread_id,
        second_pointers,
        after,
        second,
    );
}

/// After a request the table holds whichever gate was yielded and otherwise only gates that it held
/// before, none of them listed as unused.
pub proof fn law_unused_gates_are_forgotten(
    before: Map<ThreadId, LifecycleGate>,
    asked_for: ThreadId,
    pointers: Seq<(ThreadId, usize)>,
    after: Map<ThreadId, LifecycleGate>,
    gate: LifecycleGate,
)
    requires
        LifecycleGates::requested(before, asked_for, pointers, after, gate),
    ensures
        after.contains_key(asked_for) && after[asked_for] == gate,
        forall|t: ThreadId|
            t != asked_for ==> (#[trigger] after.contains_key(t) <==> before.contains_key(t)
                && !LifecycleGates::listed_unused(pointers, t)),
        forall|t: ThreadId|
            t != asked_for && #[trigger] after.contains_key(t) ==> after[t] == before[t],
{
}

/// A request keeps the gates of different threads different, and what it yields is none of those that
/// the table holds for other threads or held for them before.
pub proof fn law_threads_never_share_a_gate(
    before: Map<ThreadId, LifecycleGate>,
    asked_for: ThreadId,
    pointers: Seq<(ThreadId, usize)>,
    after: Map<ThreadId, LifecycleGate>,
    gate: LifecycleGate,
)
    requires
        LifecycleGates::all_different(before),
        LifecycleGates::requested(before, asked_for, pointers, after, gate),
    ensures
        LifecycleGates::all_different(after),
        forall|t: ThreadId|
            t != asked_for && after.contains_key(t) ==> #[trigger] after[t] != gate,
        forall|t: ThreadId|
            t != asked_for && before.contains_key(t) ==> #[trigger] before[t] != gate,
{
}

/// The table keeps what a request yielded for as long as it stays in use.
proof fn lemma_gate_is_kept(
    requests: Seq<GateRequest>,
    tables: Seq<Map<ThreadId, LifecycleGate>>,
    from: int,
    to: int,
)
    requires
        GateRequest::lead_through(requests, tables),
        0 <= from < to < tables.len(),
        GateRequest::stays_in_use(requests, requests[from].thread_id, from, to),
    ensures
        tables[to].contains_key(requests[from].thread_id),
        tables[to][requests[from].thread_id] == requests[from].gate,
    decreases to - from,
{
    let last = requests[to - 1];
    assert(last.leads(tables[to - 1], tables[to]));
    if to > from + 1 {
        lemma_gate_is_kept(requests, tables, from, to - 1);
    }
}

/// No two threads share a gate in any state that requests lead to.
proof fn lemma_gates_stay_different(
    requests: Seq<GateRequest>,
    tables: Seq<Map<ThreadId, LifecycleGate>>,
    i: int,
)
    requires
        GateRequest::lead_through(requests, tables),
        LifecycleGates::all_different(tables[0]),
        0 <= i < tables.len(),
    ensures
        LifecycleGates::all_different(tables[i]),
    decreases i,
{
    if i > 0 {
        lemma_gates_stay_different(requests, tables, i - 1);
        let last = requests[i - 1];
        assert(last.leads(tables[i - 1], tables[i]));
        law_threads_never_share_a_gate(
            tables[i - 1],
            last.thread_id,
            last.pointers,
            tables[i],
            last.gate,
        );
    }
}

/// Whoever asks for a thread's gate gets the one that was yielded to an earlier request for it, no
/// matter how many requests for this and other gates came in between, as long as at none of them, nor
/// at the last, it is counted as having no pointer besides the table's own.
pub proof fn law_requests_for_one_thread_meet_while_in_use(
    requests: Seq<GateRequest>,
    tables: Seq<Map<ThreadId, LifecycleGate>>,
    first: int,
    later: int,
)
    requires
        GateRequest::lead_through(requests, tables),
        0 <= first < later < requests.len(),
        requests[first].thread_id == requests[later].thread_id,
        GateRequest::stays_in_use(requests, requests[first].thread_id, first, later + 1),
    ensures
        requests[later].gate == requests[first].gate,
{
    lemma_gate_is_kept(requests, tables, first, later);
    assert(requests[later].leads(tables[later], tables[later + 1]));
}

/// Requests for the gates of two different threads yield different gates, no matter how many
/// requests came in between, as long as at none of these the first one is counted as having no pointer
/// besides the table's own.
pub proof fn law_requests_for_different_threads_never_meet(
    requests: Seq<GateRequest>,
    tables: Seq<Map<ThreadId, LifecycleGate>>,
    first: int,
    later: int,
)
    requires
        GateRequest::lead_through(requests, tables),
        LifecycleGates::all_different(tables[0]),
        0 <= first < later < requests.len(),
        requests[first].thread_id != requests[later].thread_id,
        GateRequest::stays_in_use(requests, requests[first].thread_id, first, later),
    ensures
        requests[later].gate != requests[first].gate,
{
    lemma_gate_is_kept(requests, tables, first, later);
    lemma_gates_stay_different(requests, tables, later);
    assert(requests[later].leads(tables[later], tables[later + 1]));
}

/// A list that counts every gate of the table holds one entry for each gate, with a number of pointers
/// that was counted of that gate and is at least one, for the table's own, and holds nothing else.
pub proof fn law_every_gate_is_counted_once(
    gates: Map<ThreadId, LifecycleGate>,
    pointers: Seq<(ThreadId, usize)>,
)
    requires
        LifecycleGates::counts_every_gate(gates, pointers),
    ensures
        forall|t: ThreadId| #[trigger]
            gates.contains_key(t) ==> exists|i: int|
                0 <= i < pointers.len() && (#[trigger] pointers[i]).0 == t,
        forall|i: int|
            0 <= i < pointers.len() ==> gates.contains_key((#[trigger] pointers[i]).0)
                && pointers[i].1 >= 1 && LifecycleGates::counted(
                gates[pointers[i].0],
                pointers[i].1,
            ),
        forall|i: int, j: int|
            0 <= i < j < pointers.len() ==> (#[trigger] pointers[i]).0 != (#[trigger] pointers[j]).0,
{
}

/// A request at a time when the numbers of pointers are not known goes by numbers that are counted of
/// every gate then.
pub proof fn law_requests_go_by_counted_pointers(
    before: Map<ThreadId, LifecycleGate>,
    thread_id: ThreadId,
    after: Map<ThreadId, LifecycleGate>,
    gate: LifecycleGate,
) -> (pointers: Seq<(ThreadId, usize)>)
    requires
        LifecycleGates::requested_at_some_time(before, thread_id, after, gate),
    ensures
        LifecycleGates::counts_every_gate(before, pointers),
        LifecycleGates::requested(before, thread_id, pointers, after, gate),
{
    choose|pointers: Seq<(ThreadId, usize)>|
        {
            &&& #[trigger] LifecycleGates::counts_every_gate(before, pointers)
            &&& LifecycleGates::requested(before, thread_id, pointers, after, gate)
        }
}

/// A gate that is counted with two pointers or more, or not listed at all, is kept: whoever asks for it
/// gets it, and asking for another thread's gate leaves it in the table.
pub proof fn law_second_pointer_keeps_a_gate(
    before: Map<ThreadId, LifecycleGate>,
    thread_id: ThreadId,
    asked_for: ThreadId,
    pointers: Seq<(ThreadId, usize)>,
    after: Map<ThreadId, LifecycleGate>,
    gate: LifecycleGate,
)
    requires
        LifecycleGates::requested(before, asked_for, pointers, after, gate),
        before.contains_key(thread_id),
        forall|i: int|
            0 <= i < pointers.len() && (#[trigger] pointers[i]).0 == thread_id ==> pointers[i].1
                >= 2,
    ensures
        after.contains_key(thread_id),
        after[thread_id] == before[thread_id],
        asked_for == thread_id ==> gate == before[thread_id],
{
}

/// A gate that is counted with one pointer, the table's own, is forgotten: asking for another thread's
/// gate drops it from the table, and whoever asks for it gets a new one, which no thread had.
pub proof fn law_single_pointer_does_not_keep_a_gate(
    before: Map<ThreadId, LifecycleGate>,
    asked_for: ThreadId,
    pointers: Seq<(ThreadId, usize)>,
    after: Map<ThreadId, LifecycleGate>,
    gate: LifecycleGate,
    i: int,
)
    requires
        LifecycleGates::requested(before, asked_for, pointers, after, gate),
        0 <= i < pointers.len(),
        pointers[i].1 <= 1,
        before.contains_key(pointers[i].0),
    ensures
        asked_for != pointers[i].0 ==> !after.contains_key(pointers[i].0),
        asked_for == pointers[i].0 ==> forall|t: ThreadId|
            before.contains_key(t) ==> #[trigger] before[t] != gate,
{
    assert(LifecycleGates::listed_unused(pointers, pointers[i].0));
}

/// After a request the table holds the yielded gate for the thread that was asked for, and for other
/// threads nothing but what it held for them before. A thread that had no gate gets one that no thread
/// had; and if no two threads shared a gate before, none do after.
pub proof fn law_request_adds_one_gate_at_most(
    before: Map<ThreadId, LifecycleGate>,
    asked_for: ThreadId,
    pointers: Seq<(ThreadId, usize)>,
    after: Map<ThreadId, LifecycleGate>,
    gate: LifecycleGate,
)
    requires
        LifecycleGates::requested(before, asked_for, pointers, after, gate),
    ensures
        after.contains_key(asked_for),
        after[asked_for] == gate,
        forall|t: ThreadId|
            t != asked_for && #[trigger] after.contains_key(t) ==> before.contains_key(t)
                && after[t] == before[t],
        !before.contains_key(asked_for) ==> forall|t: ThreadId|
            before.contains_key(t) ==> #[trigger] before[t] != gate,
        (forall|t: ThreadId, u: ThreadId|
            before.contains_key(t) && before.contains_key(u) && t != u ==> #[trigger] before[t]
                != #[trigger] before[u]) ==> forall|t: ThreadId, u: ThreadId|
            after.contains_key(t) && after.contains_key(u) && t != u ==> #[trigger] after[t]
                != #[trigger] after[u],
{
    if forall|t: ThreadId, u: ThreadId|
        before.contains_key(t) && before.contains_key(u) && t != u ==> #[trigger] before[t]
            != #[trigger] before[u] {
        assert forall|t: ThreadId, u: ThreadId|
            after.contains_key(t) && after.contains_key(u) && t != u implies #[trigger] after[t]
            != #[trigger] after[u] by {
            if t != asked_for {
                assert(before.contains_key(t) && after[t] == before[t]);
            }
            if u != asked_for {
                assert(before.contains_key(u) && after[u] == before[u]);
            }
        }
    }
}

} // verus!
