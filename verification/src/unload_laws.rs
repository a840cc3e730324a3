//! Laws of making room.
use crate::exchange::{ThreadFacts, ThreadReply};
use crate::history::History;
use crate::retire::{RetireStage, RetireStep};
use crate::state::ResidencyState;
use crate::thread::{AgentStatus, MultiAgentVersion, ThreadId, ThreadProfile};
use crate::unload::{CandidateStage, ScanProgress, UnloadScan, Verdict};
use vstd::prelude::*;

verus! {

impl CandidateStage {
    /// How many replies the examination still waits for at most.
    pub open spec fn replies_left(self) -> nat {
        match self {
            CandidateStage::LockingLifecycle => 8,
            CandidateStage::LookingUp => 7,
            CandidateStage::ReadingStatus => 6,
            CandidateStage::Retiring(stage) => stage.replies_left(),
        }
    }

    /// The verdict on a candidate after a history of replies.
    pub open spec fn verdict_after(candidate: ThreadId, history: History) -> Verdict
        decreases history.len(),
    {
        if history.len() == 0 {
            Verdict::Continue(CandidateStage::LockingLifecycle)
        } else {
            match Self::verdict_after(candidate, history.earlier()) {
                Verdict::Continue(stage) => stage.spec_judge(
                    history.state().has_pending(candidate),
                    history.reply(),
                ),
                verdict => verdict,
            }
        }
    }

    /// The candidate was found to be a loaded agent, at a moment when it had no unfinished
    /// submissions.
    pub open spec fn agent_found(candidate: ThreadId, history: History) -> bool {
        exists|thread: ThreadProfile|
            thread.is_candidate() && #[trigger] history.received_unprotected(
                ThreadReply::ThreadLookedUp(Ok(thread)),
                candidate,
            )
    }

    /// The candidate was found at rest.
    pub open spec fn found_at_rest(history: History) -> bool {
        exists|status: AgentStatus|
            status.is_unloadable() && #[trigger] history.received(ThreadReply::Status(status))
    }

    /// What must have been found out before an examination gets this far.
    pub open spec fn is_justified(self, candidate: ThreadId, history: History) -> bool {
        &&& !(self is LockingLifecycle) ==> history.received(ThreadReply::LifecycleLocked)
        &&& self is ReadingStatus || self is Retiring ==> Self::agent_found(candidate, history)
        &&& self matches CandidateStage::Retiring(stage) ==> {
            &&& Self::found_at_rest(history)
            &&& stage is ReadingMailbox ==> history.received(ThreadReply::ActiveTurn(false))
            &&& stage is MaterializingRollout || stage is ShuttingDown
                || stage is RemovingThread ==> history.found_idle()
            &&& stage is ShuttingDown || stage is RemovingThread ==> history.received(
                ThreadReply::RolloutMaterialized,
            )
            &&& stage is RemovingThread ==> history.received(ThreadReply::ShutDown(Ok(())))
        }
    }
}

impl Verdict {
    /// What should become of a candidate: a thread that is not loaded or does not count toward
    /// residency is a stray; an agent is unloaded if it has no unfinished submission, is at rest and
    /// idle, and shuts down; any other agent is kept.
    pub open spec fn expected(facts: ThreadFacts, has_pending: bool) -> Verdict {
        if !facts.is_candidate() {
            Verdict::Stray
        } else if !has_pending && facts.status.is_unloadable() && facts.is_idle()
            && facts.shutdown is Ok {
            Verdict::Unloaded
        } else {
            Verdict::Keep
        }
    }
}

impl UnloadScan {
    /// How many candidates the scan still examines at most.
    pub open spec fn candidates_to_come(self) -> nat {
        match self.progress {
            ScanProgress::Examining { .. } => self.candidates_left as nat + 1,
            ScanProgress::Finished(_) => 0,
        }
    }

    pub open spec fn replies_left(self) -> nat {
        match self.progress {
            ScanProgress::Examining { stage, .. } => stage.replies_left(),
            ScanProgress::Finished(_) => 0,
        }
    }

    /// The scan carried through with threads whose facts hold still, and with nobody else using the
    /// residency.
    pub open spec fn run(self, state: ResidencyState, facts: spec_fn(ThreadId) -> ThreadFacts) -> (
        bool,
        ResidencyState,
    )
        decreases self.candidates_to_come(), self.replies_left(),
    {
        match self.progress {
            ScanProgress::Finished(unloaded) => (unloaded, state),
            ScanProgress::Examining { candidate, stage } => {
                let (next, after) = self.spec_step(
                    state,
                    facts(candidate).reply(stage.spec_request()),
                );
                next.run(after, facts)
            },
        }
    }

    /// The scan after a history of replies.
    pub open spec fn after(self, history: History) -> Self
        decreases history.len(),
    {
        if history.len() == 0 {
            self
        } else {
            self.after(history.earlier()).spec_step(history.state(), history.reply()).0
        }
    }

    /// Nothing was found out yet about the candidate, if there is one.
    pub open spec fn is_at_its_start(self) -> bool {
        match self.progress {
            ScanProgress::Examining { stage, .. } => stage is LockingLifecycle,
            ScanProgress::Finished(unloaded) => !unloaded,
        }
    }

    /// The replies received since the candidate was taken up, at the given moment, are what brought its
    /// examination to this stage.
    pub open spec fn examined_since(
        history: History,
        start: int,
        candidate: ThreadId,
        stage: CandidateStage,
    ) -> bool {
        &&& 0 <= start <= history.len()
        &&& CandidateStage::verdict_after(candidate, history.since(start)) == Verdict::Continue(
            stage,
        )
    }

    /// The replies received since the candidate was taken up, at the given moment, are what had it
    /// unloaded.
    pub open spec fn unloaded_since(history: History, start: int, candidate: ThreadId) -> bool {
        &&& 0 <= start <= history.len()
        &&& CandidateStage::verdict_after(candidate, history.since(start)) is Unloaded
    }

    /// The scan taken up with some number of candidates still allowed, and carried through.
    pub open spec fn walk(
        state: ResidencyState,
        protected: Option<ThreadId>,
        candidates: usize,
        facts: spec_fn(ThreadId) -> ThreadFacts,
    ) -> (bool, ResidencyState) {
        let (scan, after) = Self::spec_advance(state, protected, candidates);
        scan.run(after, facts)
    }

    /// What should become of a resident, going by the submissions that are unfinished in `state`.
    pub open spec fn fate(
        state: ResidencyState,
        facts: spec_fn(ThreadId) -> ThreadFacts,
        thread_id: ThreadId,
    ) -> Verdict {
        Verdict::expected(facts(thread_id), state.has_pending(thread_id))
    }

    /// The residents that a scan passes over or puts back.
    pub open spec fn stays(
        state: ResidencyState,
        protected: Option<ThreadId>,
        facts: spec_fn(ThreadId) -> ThreadFacts,
    ) -> spec_fn(ThreadId) -> bool {
        |t: ThreadId| Some(t) == protected || Self::fate(state, facts, t) is Keep
    }

    /// The residents that a scan may unload.
    pub open spec fn spare(
        state: ResidencyState,
        protected: Option<ThreadId>,
        facts: spec_fn(ThreadId) -> ThreadFacts,
    ) -> spec_fn(ThreadId) -> bool {
        |t: ThreadId| Some(t) != protected && Self::fate(state, facts, t) is Unloaded
    }

    /// The residents that a scan forgets without unloading them.
    pub open spec fn is_stray(
        state: ResidencyState,
        protected: Option<ThreadId>,
        facts: spec_fn(ThreadId) -> ThreadFacts,
        thread_id: ThreadId,
    ) -> bool {
        Some(thread_id) != protected && Self::fate(state, facts, thread_id) is Stray
    }

    /// The unfinished submissions without those of the strays among the examined residents.
    pub open spec fn without_strays(
        pending: Map<ThreadId, Set<Seq<char>>>,
        state: ResidencyState,
        protected: Option<ThreadId>,
        facts: spec_fn(ThreadId) -> ThreadFacts,
        examined: Seq<ThreadId>,
    ) -> Map<ThreadId, Set<Seq<char>>> {
        Map::new(
            |t: ThreadId|
                pending.contains_key(t) && !(examined.contains(t) && Self::is_stray(
                    state,
                    protected,
                    facts,
                    t,
                )),
            |t: ThreadId| pending[t],
        )
    }

    /// The state once the first residents, up to the given number, were dealt with: those that stay
    /// follow the others in their old order, and the strays' submissions are forgotten.
    pub open spec fn state_past(
        state: ResidencyState,
        protected: Option<ThreadId>,
        facts: spec_fn(ThreadId) -> ThreadFacts,
        n: int,
    ) -> ResidencyState {
        let examined = state.residents.take(n);
        ResidencyState {
            residents: state.residents.skip(n) + examined.filter(
                Self::stays(state, protected, facts),
            ),
            pending_submissions: Self::without_strays(
                state.pending_submissions,
                state,
                protected,
                facts,
                examined,
            ),
            ..state
        }
    }
}

/// Examining one candidate to the end.
proof fn lemma_examination(
    candidate: ThreadId,
    protected: Option<ThreadId>,
    candidates_left: usize,
    state: ResidencyState,
    facts: spec_fn(ThreadId) -> ThreadFacts,
)
    ensures
        (UnloadScan {
            protected_thread_id: protected,
            candidates_left,
            progress: ScanProgress::Examining { candidate, stage: CandidateStage::LockingLifecycle },
        }).run(state, facts) == match Verdict::expected(
            facts(candidate),
            state.has_pending(candidate),
        ) {
            Verdict::Stray => UnloadScan::walk(
                state.removed(candidate),
                protected,
                candidates_left,
                facts,
            ),
            Verdict::Unloaded => (true, state.removed(candidate)),
            _ => UnloadScan::walk(state.touched(candidate), protected, candidates_left, facts),
        },
{
    reveal_with_fuel(UnloadScan::run, 10);
}

/// Filtering a sequence is filtering its first element and its rest.
proof fn lemma_filter_first(s: Seq<ThreadId>, keep: spec_fn(ThreadId) -> bool)
    requires
        s.len() > 0,
    ensures
        s.filter(keep) == if keep(s[0]) {
            seq![s[0]] + s.skip(1).filter(keep)
        } else {
            s.skip(1).filter(keep)
        },
{
    reveal_with_fuel(Seq::filter, 2);
    let first = seq![s[0]];
    assert(s =~= first + s.skip(1));
    Seq::filter_distributes_over_add(first, s.skip(1), keep);
    assert(first.drop_last() =~= Seq::empty());
    if keep(s[0]) {
        assert(first.filter(keep) =~= first);
    } else {
        assert(first.filter(keep) =~= Seq::empty());
        assert(first.filter(keep) + s.skip(1).filter(keep) =~= s.skip(1).filter(keep));
    }
}

/// A scan that meets the protected resident first goes on as if it stood last.
proof fn lemma_protected_is_passed_over(
    state: ResidencyState,
    protected: Option<ThreadId>,
    candidates: usize,
    facts: spec_fn(ThreadId) -> ThreadFacts,
)
    requires
        state.wf(),
        state.residents.len() > 1,
        Some(state.residents[0]) == protected,
        candidates > 0,
    ensures
        UnloadScan::walk(state, protected, candidates, facts) == UnloadScan::walk(
            ResidencyState {
                residents: state.residents.skip(1).push(state.residents[0]),
                ..state
            },
            protected,
            candidates,
            facts,
        ),
{
    let r = state.residents;
    let rotated = ResidencyState { residents: r.skip(1).push(r[0]), ..state };
    assert(rotated.residents[0] == r[1] && r[1] != r[0]);
    assert(rotated.lru_popped(protected) =~= state.lru_popped(protected));
}

/// One candidate of a walk, the first resident not being protected.
proof fn lemma_first_candidate(
    state: ResidencyState,
    protected: Option<ThreadId>,
    candidates: usize,
    facts: spec_fn(ThreadId) -> ThreadFacts,
)
    requires
        state.wf(),
        state.residents.len() > 0,
        Some(state.residents[0]) != protected,
        candidates > 0,
    ensures
        UnloadScan::walk(state, protected, candidates, facts) == {
            let c = state.residents[0];
            let rest = state.residents.skip(1);
            let left = (candidates - 1) as usize;
            match UnloadScan::fate(state, facts, c) {
                Verdict::Stray => UnloadScan::walk(
                    ResidencyState {
                        residents: rest,
                        pending_submissions: state.pending_submissions.remove(c),
                        ..state
                    },
                    protected,
                    left,
                    facts,
                ),
                Verdict::Unloaded => (true, ResidencyState { residents: rest, ..state }),
                _ => UnloadScan::walk(
                    ResidencyState { residents: rest.push(c), ..state },
                    protected,
                    left,
                    facts,
                ),
            }
        },
{
    let c = state.residents[0];
    let rest = state.residents.skip(1);
    let left = (candidates - 1) as usize;
    let popped = state.lru_popped(protected);
    lemma_examination(c, protected, left, popped, facts);
    assert(!rest.contains(c));
    ResidencyState::lemma_without(rest, c);
    assert(popped.has_pending(c) == state.has_pending(c));
    assert(popped.touched(c) =~= ResidencyState { residents: rest.push(c), ..state });
    assert(popped.removed(c) =~= ResidencyState {
        residents: rest,
        pending_submissions: state.pending_submissions.remove(c),
        ..state
    });
    if UnloadScan::fate(state, facts, c) is Unloaded {
        assert(!state.pending_submissions.contains_key(c));
        assert(popped.removed(c) =~= ResidencyState { residents: rest, ..state });
    }
}

/// A walk in the middle: `ahead` was not examined yet, `behind` was examined and put back.
proof fn lemma_walk_unloads(
    state: ResidencyState,
    ahead: Seq<ThreadId>,
    behind: Seq<ThreadId>,
    origin: ResidencyState,
    protected: Option<ThreadId>,
    candidates: usize,
    facts: spec_fn(ThreadId) -> ThreadFacts,
    m: int,
)
    requires
        state.wf(),
        state.residents == ahead + behind,
        0 <= m < ahead.len(),
        candidates > m,
        forall|t: ThreadId| #[trigger]
            ahead.contains(t) ==> state.has_pending(t) == origin.has_pending(t),
        Some(ahead[m]) != protected,
        UnloadScan::fate(origin, facts, ahead[m]) is Unloaded,
        forall|j: int|
            0 <= j < m ==> Some(#[trigger] ahead[j]) == protected || !(UnloadScan::fate(
                origin,
                facts,
                ahead[j],
            ) is Unloaded),
    ensures
        UnloadScan::walk(state, protected, candidates, facts) == (
            true,
            ResidencyState {
                residents: ahead.skip(m + 1) + behind + ahead.take(m).filter(
                    UnloadScan::stays(origin, protected, facts),
                ),
                pending_submissions: UnloadScan::without_strays(
                    state.pending_submissions,
                    origin,
                    protected,
                    facts,
                    ahead.take(m),
                ),
                ..state
            },
        ),
    decreases m,
{
    let stays = UnloadScan::stays(origin, protected, facts);
    let first = ahead[0];
    let rest = ahead.skip(1);
    let left = (candidates - 1) as usize;
    assert(ahead.contains(first));
    assert(state.residents[0] == first);
    assert(state.residents.skip(1) =~= rest + behind);
    assert(forall|t: ThreadId| #[trigger] rest.contains(t) ==> ahead.contains(t));
    assert(forall|j: int| 0 <= j < rest.len() ==> #[trigger] rest[j] == ahead[j + 1]);
    if m == 0 {
        lemma_first_candidate(state, protected, candidates, facts);
        assert(ahead.take(0).filter(stays) =~= Seq::empty()) by {
            reveal(Seq::filter);
        }
        assert(ahead.skip(1) + behind + Seq::<ThreadId>::empty() =~= rest + behind);
        assert(UnloadScan::without_strays(
            state.pending_submissions,
            origin,
            protected,
            facts,
            ahead.take(0),
        ) =~= state.pending_submissions);
    } else {
        lemma_filter_first(ahead.take(m), stays);
        assert(ahead.take(m).skip(1) =~= rest.take(m - 1));
        assert(ahead.skip(m + 1) =~= rest.skip(m));
        let examined = ahead.take(m);
        let examined_later = rest.take(m - 1);
        assert forall|t: ThreadId| #[trigger] examined.contains(t) <==> t == first
            || examined_later.contains(t) by {
            if examined.contains(t) && t != first {
                let i = choose|i: int| 0 <= i < m && examined[i] == t;
                assert(examined_later[i - 1] == t);
            }
            if examined_later.contains(t) {
                let i = choose|i: int| 0 <= i < examined_later.len() && examined_later[i] == t;
                assert(examined[i + 1] == t);
            }
            assert(examined[0] == first);
        }
        if Some(first) == protected {
            let rotated = ResidencyState {
                residents: state.residents.skip(1).push(first),
                ..state
            };
            lemma_protected_is_passed_over(state, protected, candidates, facts);
            assert(rotated.residents =~= rest + behind.push(first));
            assert(rotated.wf());
            lemma_walk_unloads(
                rotated,
                rest,
                behind.push(first),
                origin,
                protected,
                candidates,
                facts,
                m - 1,
            );
            assert(rest.skip(m) + behind.push(first) + rest.take(m - 1).filter(stays)
                =~= ahead.skip(m + 1) + behind + ahead.take(m).filter(stays));
        } else {
            lemma_first_candidate(state, protected, candidates, facts);
            assert(ahead[0] == first);
            if UnloadScan::fate(origin, facts, first) is Stray {
                let next = ResidencyState {
                    residents: rest + behind,
                    pending_submissions: state.pending_submissions.remove(first),
                    ..state
                };
                assert(next.wf());
                assert(!rest.contains(first)) by {
                    if rest.contains(first) {
                        let i = choose|i: int| 0 <= i < rest.len() && rest[i] == first;
                        assert(state.residents[i + 1] == state.residents[0]);
                    }
                }
                lemma_walk_unloads(
                    next,
                    rest,
                    behind,
                    origin,
                    protected,
                    left,
                    facts,
                    m - 1,
                );
            } else {
                let next = ResidencyState {
                    residents: (rest + behind).push(first),
                    ..state
                };
                assert(next.residents =~= rest + behind.push(first));
                assert(next.wf());
                lemma_walk_unloads(
                    next,
                    rest,
                    behind.push(first),
                    origin,
                    protected,
                    left,
                    facts,
                    m - 1,
                );
                assert(rest.skip(m) + behind.push(first) + rest.take(m - 1).filter(stays)
                    =~= ahead.skip(m + 1) + behind + ahead.take(m).filter(stays));
            }
        }
        assert(UnloadScan::without_strays(
            state.pending_submissions,
            origin,
            protected,
            facts,
            ahead.take(m),
        ) =~= UnloadScan::without_strays(
            if UnloadScan::is_stray(origin, protected, facts, first) {
                state.pending_submissions.remove(first)
            } else {
                state.pending_submissions
            },
            origin,
            protected,
            facts,
            rest.take(m - 1),
        ));
    }
}

/// One sequence is the other with some first elements moved to the end.
pub open spec fn is_rotation(s: Seq<ThreadId>, of: Seq<ThreadId>) -> bool {
    exists|k: int| 0 <= k <= of.len() && s == #[trigger] rotated(of, k)
}

pub open spec fn rotated(s: Seq<ThreadId>, k: int) -> Seq<ThreadId> {
    s.skip(k) + s.take(k)
}

/// A rotation of a rotation is a rotation.
pub(crate) proof fn lemma_rotate_twice(s: Seq<ThreadId>, k: int, t: Seq<ThreadId>)
    requires
        0 <= k <= s.len(),
        is_rotation(t, rotated(s, k)),
    ensures
        is_rotation(t, s),
{
    let j = choose|j: int| 0 <= j <= s.len() && t == #[trigger] rotated(rotated(s, k), j);
    if k + j <= s.len() {
        assert(t =~= rotated(s, k + j));
    } else {
        assert(t =~= rotated(s, k + j - s.len()));
    }
}

/// A rotation holds the same elements.
pub(crate) proof fn lemma_rotation_contains(s: Seq<ThreadId>, of: Seq<ThreadId>)
    requires
        is_rotation(s, of),
    ensures
        forall|t: ThreadId| #[trigger] s.contains(t) <==> of.contains(t),
{
    let k = choose|k: int| 0 <= k <= of.len() && s == #[trigger] rotated(of, k);
    assert forall|t: ThreadId| #[trigger] s.contains(t) <==> of.contains(t) by {
        if s.contains(t) {
            let i = choose|i: int| 0 <= i < s.len() && s[i] == t;
            assert(of[if i < of.len() - k {
                i + k
            } else {
                i - (of.len() - k)
            }] == t);
        }
        if of.contains(t) {
            let j = choose|j: int| 0 <= j < of.len() && of[j] == t;
            assert(s[if j >= k {
                j - k
            } else {
                j + (of.len() - k)
            }] == t);
        }
    }
}

/// A walk over residents that are all passed over or put back only changes their order, by moving
/// some of them to the end.
proof fn lemma_walk_keeps(
    state: ResidencyState,
    origin: ResidencyState,
    protected: Option<ThreadId>,
    candidates: usize,
    facts: spec_fn(ThreadId) -> ThreadFacts,
)
    requires
        state.wf(),
        forall|t: ThreadId| #[trigger]
            state.residents.contains(t) ==> UnloadScan::stays(origin, protected, facts)(t)
                && state.has_pending(t) == origin.has_pending(t),
    ensures
        ({
            let (unloaded, after) = UnloadScan::walk(state, protected, candidates, facts);
            &&& !unloaded
            &&& after == (ResidencyState { residents: after.residents, ..state })
            &&& is_rotation(after.residents, state.residents)
        }),
    decreases candidates,
{
    let r = state.residents;
    if candidates == 0 || state.lru_candidate(protected) is None {
        assert(rotated(r, 0) =~= r);
    } else if Some(r[0]) != protected {
        lemma_first_candidate(state, protected, candidates, facts);
        assert(r.contains(r[0]));
        let next = ResidencyState { residents: r.skip(1).push(r[0]), ..state };
        assert(next.residents =~= rotated(r, 1));
        assert(next.wf());
        assert forall|t: ThreadId| #[trigger] next.residents.contains(t) implies r.contains(t) by {
            let i = choose|i: int| 0 <= i < next.residents.len() && next.residents[i] == t;
            assert(r[if i == r.len() - 1 {
                0
            } else {
                i + 1
            }] == t);
        }
        lemma_walk_keeps(next, origin, protected, (candidates - 1) as usize, facts);
        lemma_rotate_twice(
            r,
            1,
            UnloadScan::walk(next, protected, (candidates - 1) as usize, facts).1.residents,
        );
    } else {
        lemma_protected_is_passed_over(state, protected, candidates, facts);
        let passed = ResidencyState { residents: r.skip(1).push(r[0]), ..state };
        assert(passed.wf());
        lemma_first_candidate(passed, protected, candidates, facts);
        assert(passed.residents[0] == r[1]);
        assert(r.contains(r[1]));
        let next = ResidencyState {
            residents: passed.residents.skip(1).push(r[1]),
            ..state
        };
        assert(next.residents =~= rotated(r, 2));
        assert(next.wf());
        assert forall|t: ThreadId| #[trigger] next.residents.contains(t) implies r.contains(t) by {
            let i = choose|i: int| 0 <= i < next.residents.len() && next.residents[i] == t;
            assert(r[if i >= r.len() - 2 {
                i - (r.len() - 2)
            } else {
                i + 2
            }] == t);
        }
        lemma_walk_keeps(next, origin, protected, (candidates - 1) as usize, facts);
        lemma_rotate_twice(
            r,
            2,
            UnloadScan::walk(next, protected, (candidates - 1) as usize, facts).1.residents,
        );
    }
}

/// A walk in the middle that finds nobody to unload: `ahead` was not examined yet, `behind` was
/// examined and put back.
proof fn lemma_walk_unloads_nobody(
    state: ResidencyState,
    ahead: Seq<ThreadId>,
    behind: Seq<ThreadId>,
    origin: ResidencyState,
    protected: Option<ThreadId>,
    candidates: usize,
    facts: spec_fn(ThreadId) -> ThreadFacts,
)
    requires
        state.wf(),
        state.residents == ahead + behind,
        candidates >= ahead.len(),
        forall|t: ThreadId| #[trigger]
            state.residents.contains(t) ==> state.has_pending(t) == origin.has_pending(t),
        forall|t: ThreadId| #[trigger]
            behind.contains(t) ==> UnloadScan::stays(origin, protected, facts)(t),
        forall|t: ThreadId| #[trigger]
            ahead.contains(t) ==> Some(t) == protected || !(UnloadScan::fate(origin, facts, t)
                is Unloaded),
    ensures
        ({
            let (unloaded, after) = UnloadScan::walk(state, protected, candidates, facts);
            let left = behind + ahead.filter(UnloadScan::stays(origin, protected, facts));
            &&& !unloaded
            &&& after == (ResidencyState {
                residents: after.residents,
                pending_submissions: UnloadScan::without_strays(
                    state.pending_submissions,
                    origin,
                    protected,
                    facts,
                    ahead,
                ),
                ..state
            })
            &&& is_rotation(after.residents, left)
            &&& candidates == ahead.len() && (forall|t: ThreadId| #[trigger]
                ahead.contains(t) ==> Some(t) != protected) ==> after.residents == left
        }),
    decreases ahead.len(),
{
    let stays = UnloadScan::stays(origin, protected, facts);
    let pending = state.pending_submissions;
    if ahead.len() == 0 {
        assert(ahead.filter(stays) =~= Seq::empty()) by {
            reveal(Seq::filter);
        }
        assert(state.residents =~= behind);
        assert(behind + ahead.filter(stays) =~= behind);
        assert(UnloadScan::without_strays(pending, origin, protected, facts, ahead) =~= pending);
        lemma_walk_keeps(state, origin, protected, candidates, facts);
    } else {
        let first = ahead[0];
        let rest = ahead.skip(1);
        let left = (candidates - 1) as usize;
        assert(ahead.contains(first));
        assert(state.residents[0] == first);
        assert(state.residents.contains(first));
        assert(state.residents.skip(1) =~= rest + behind);
        lemma_filter_first(ahead, stays);
        assert forall|t: ThreadId| #[trigger] ahead.contains(t) <==> t == first || rest.contains(
            t,
        ) by {
            if ahead.contains(t) && t != first {
                let i = choose|i: int| 0 <= i < ahead.len() && ahead[i] == t;
                assert(rest[i - 1] == t);
            }
            if rest.contains(t) {
                let i = choose|i: int| 0 <= i < rest.len() && rest[i] == t;
                assert(ahead[i + 1] == t);
            }
        }
        assert(forall|t: ThreadId| #[trigger] rest.contains(t) ==> ahead.contains(t));
        assert(UnloadScan::without_strays(pending, origin, protected, facts, ahead)
            =~= UnloadScan::without_strays(
            if UnloadScan::is_stray(origin, protected, facts, first) {
                pending.remove(first)
            } else {
                pending
            },
            origin,
            protected,
            facts,
            rest,
        ));
        assert forall|t: ThreadId| #[trigger] (rest + behind).contains(t) implies t != first
            && state.residents.contains(t) by {
            let i = choose|i: int| 0 <= i < (rest + behind).len() && (rest + behind)[i] == t;
            assert(state.residents[i + 1] == t);
        }
        let moved = behind.push(first);
        assert((rest + behind).push(first) =~= rest + moved);
        assert forall|t: ThreadId| #[trigger]
            (rest + moved).contains(t) implies state.residents.contains(t) by {
            let i = choose|i: int| 0 <= i < (rest + moved).len() && (rest + moved)[i] == t;
            if i < (rest + behind).len() {
                assert((rest + behind)[i] == t);
                assert((rest + behind).contains(t));
            }
        }
        assert forall|t: ThreadId| #[trigger] moved.contains(t) implies t == first
            || behind.contains(t) by {
            let i = choose|i: int| 0 <= i < moved.len() && moved[i] == t;
            if i < behind.len() {
                assert(behind[i] == t);
            }
        }
        if stays(first) {
            assert(moved + rest.filter(stays) =~= behind + ahead.filter(stays));
        }
        let next = ResidencyState { residents: rest + moved, ..state };
        assert(next.wf());
        if Some(first) == protected {
            if state.residents.len() == 1 {
                assert(rest =~= Seq::empty() && behind =~= Seq::empty());
                assert(rest.filter(stays) =~= Seq::empty()) by {
                    reveal(Seq::filter);
                }
                assert(behind + ahead.filter(stays) =~= state.residents);
                assert(rotated(state.residents, 0) =~= state.residents);
                assert(UnloadScan::without_strays(pending, origin, protected, facts, ahead)
                    =~= pending);
            } else {
                lemma_protected_is_passed_over(state, protected, candidates, facts);
                lemma_walk_unloads_nobody(
                    next,
                    rest,
                    moved,
                    origin,
                    protected,
                    candidates,
                    facts,
                );
            }
        } else {
            lemma_first_candidate(state, protected, candidates, facts);
            if UnloadScan::fate(origin, facts, first) is Stray {
                let dropped = ResidencyState {
                    residents: rest + behind,
                    pending_submissions: pending.remove(first),
                    ..state
                };
                assert(dropped.wf());
                lemma_walk_unloads_nobody(
                    dropped,
                    rest,
                    behind,
                    origin,
                    protected,
                    left,
                    facts,
                );
            } else {
                lemma_walk_unloads_nobody(next, rest, moved, origin, protected, left, facts);
            }
        }
    }
}

/// A scan unloads the least recently used resident that can be spared. The residents after it move
/// up; those before it follow in their old order, without the strays, whose submissions are
/// forgotten with them.
pub proof fn law_scan_unloads_the_oldest_spare_resident(
    state: ResidencyState,
    protected: Option<ThreadId>,
    facts: spec_fn(ThreadId) -> ThreadFacts,
    m: int,
)
    requires
        state.wf(),
        state.residents.len() <= usize::MAX,
        0 <= m < state.residents.len(),
        Some(state.residents[m]) != protected,
        UnloadScan::fate(state, facts, state.residents[m]) is Unloaded,
        forall|j: int|
            0 <= j < m ==> Some(#[trigger] state.residents[j]) == protected || !(UnloadScan::fate(
                state,
                facts,
                state.residents[j],
            ) is Unloaded),
    ensures
        ({
            let (scan, begun) = UnloadScan::spec_begin(state, protected);
            scan.run(begun, facts) == (
                true,
                ResidencyState {
                    residents: state.residents.skip(m + 1) + state.residents.take(m).filter(
                        UnloadScan::stays(state, protected, facts),
                    ),
                    pending_submissions: UnloadScan::without_strays(
                        state.pending_submissions,
                        state,
                        protected,
                        facts,
                        state.residents.take(m),
                    ),
                    ..state
                },
            )
        }),
{
    let r = state.residents;
    let behind = Seq::<ThreadId>::empty();
    assert(r + behind =~= r);
    lemma_walk_unloads(state, r, behind, state, protected, r.len() as usize, facts, m);
    assert(r.skip(m + 1) + behind =~= r.skip(m + 1));
}

/// A scan unloads nobody if no resident but the protected one can be spared. Then the strays and
/// their submissions are forgotten, and the others stay: in their old order if nobody was
/// protected, and otherwise with some of them moved to the end.
pub proof fn law_scan_unloads_nobody_who_is_needed(
    state: ResidencyState,
    protected: Option<ThreadId>,
    facts: spec_fn(ThreadId) -> ThreadFacts,
)
    requires
        state.wf(),
        state.residents.len() <= usize::MAX,
        forall|t: ThreadId| #[trigger]
            state.is_resident(t) ==> Some(t) == protected || !(UnloadScan::fate(state, facts, t)
                is Unloaded),
    ensures
        ({
            let (scan, begun) = UnloadScan::spec_begin(state, protected);
            let (unloaded, after) = scan.run(begun, facts);
            let left = state.residents.filter(UnloadScan::stays(state, protected, facts));
            &&& !unloaded
            &&& after == (ResidencyState {
                residents: after.residents,
                pending_submissions: UnloadScan::without_strays(
                    state.pending_submissions,
                    state,
                    protected,
                    facts,
                    state.residents,
                ),
                ..state
            })
            &&& is_rotation(after.residents, left)
            &&& (forall|t: ThreadId| #[trigger] state.is_resident(t) ==> Some(t) != protected)
                ==> after.residents == left
        }),
{
    let r = state.residents;
    let behind = Seq::<ThreadId>::empty();
    let stays = UnloadScan::stays(state, protected, facts);
    assert(r + behind =~= r);
    assert(behind + r.filter(stays) =~= r.filter(stays));
    assert forall|t: ThreadId| #[trigger] r.contains(t) implies Some(t) == protected || !(
    UnloadScan::fate(state, facts, t) is Unloaded) by {
        assert(state.is_resident(t));
    }
    lemma_walk_unloads_nobody(state, r, behind, state, protected, r.len() as usize, facts);
    if forall|t: ThreadId| #[trigger] state.is_resident(t) ==> Some(t) != protected {
        assert forall|t: ThreadId| #[trigger] r.contains(t) implies Some(t) != protected by {
            assert(state.is_resident(t));
        }
    }
}

/// Whatever the replies and whoever uses the residency in between, a candidate is shut down only
/// with its gate acquired, and after it was found to be a loaded agent without unfinished
/// submissions at that moment, at rest, and idle, and after its rollout was written. It counts as
/// unloaded only once it has shut down and was dropped.
pub proof fn law_candidate_is_shut_down_only_at_rest(candidate: ThreadId, history: History)
    ensures
        match CandidateStage::verdict_after(candidate, history) {
            Verdict::Continue(stage) => stage.is_justified(candidate, history),
            Verdict::Unloaded => CandidateStage::Retiring(RetireStage::RemovingThread).is_justified(
                candidate,
                history,
            ) && history.unloaded(),
            _ => true,
        },
    decreases history.len(),
{
    if history.len() > 0 {
        let earlier = history.earlier();
        law_candidate_is_shut_down_only_at_rest(candidate, earlier);
        history.lemma_received(candidate);
        if CandidateStage::agent_found(candidate, earlier) {
            let thread = choose|thread: ThreadProfile|
                thread.is_candidate() && #[trigger] earlier.received_unprotected(
                    ThreadReply::ThreadLookedUp(Ok(thread)),
                    candidate,
                );
            assert(history.received_unprotected(
                ThreadReply::ThreadLookedUp(Ok(thread)),
                candidate,
            ));
        }
        if CandidateStage::found_at_rest(earlier) {
            let status = choose|status: AgentStatus|
                status.is_unloadable() && #[trigger] earlier.received(ThreadReply::Status(status));
            assert(history.received(ThreadReply::Status(status)));
        }
        match history.reply() {
            ThreadReply::ThreadLookedUp(Ok(thread)) => {
                assert(!history.state().has_pending(candidate) ==> history.received_unprotected(
                    ThreadReply::ThreadLookedUp(Ok(thread)),
                    candidate,
                ));
            },
            ThreadReply::Status(status) => {
                assert(history.received(ThreadReply::Status(status)));
            },
            ThreadReply::ShutDown(Ok(unit)) => {
                assert(unit == ());
            },
            _ => {},
        }
    }
}

/// Whatever the replies and whoever uses the residency in between, a scan is as far with its candidate
/// as the verdict on the replies that it received since it took the candidate up, and it has unloaded
/// an agent only if that was the verdict on some candidate.
pub proof fn law_scan_follows_the_verdicts(begun: UnloadScan, history: History)
    requires
        begun.is_at_its_start(),
    ensures
        match begun.after(history).progress {
            ScanProgress::Examining { candidate, stage } => exists|start: int| #[trigger]
                UnloadScan::examined_since(history, start, candidate, stage),
            ScanProgress::Finished(unloaded) => unloaded ==> exists|start: int, candidate: ThreadId|
                #[trigger]
                UnloadScan::unloaded_since(history, start, candidate),
        },
    decreases history.len(),
{
    let now = begun.after(history);
    if history.len() > 0 {
        let before = begun.after(history.earlier());
        law_scan_follows_the_verdicts(begun, history.earlier());
        match before.progress {
            ScanProgress::Examining { candidate, stage } => {
                let start = choose|start: int| #[trigger]
                    UnloadScan::examined_since(history.earlier(), start, candidate, stage);
                history.lemma_since(start);
                match stage.spec_judge(history.state().has_pending(candidate), history.reply()) {
                    Verdict::Continue(next) => {
                        assert(UnloadScan::examined_since(history, start, candidate, next));
                    },
                    Verdict::Unloaded => {
                        assert(UnloadScan::unloaded_since(history, start, candidate));
                    },
                    _ => {},
                }
            },
            ScanProgress::Finished(unloaded) => {
                if unloaded {
                    let (start, candidate) = choose|start: int, candidate: ThreadId| #[trigger]
                        UnloadScan::unloaded_since(history.earlier(), start, candidate);
                    history.lemma_since(start);
                    assert(UnloadScan::unloaded_since(history, start, candidate));
                }
            },
        }
    }
    if let ScanProgress::Examining { candidate, stage } = now.progress {
        if stage is LockingLifecycle {
            assert(UnloadScan::examined_since(history, history.len() as int, candidate, stage));
        }
    }
}

/// Whatever the replies and whoever uses the residency in between, a scan shuts its candidate down only
/// after it found out, since it took the candidate up, all that justifies it; and it ends with an agent
/// unloaded only if that agent was found at rest and idle, and its rollout was written, and it shut
/// down and was dropped.
pub proof fn law_scan_shuts_down_only_agents_at_rest(begun: UnloadScan, history: History)
    requires
        begun.is_at_its_start(),
    ensures
        match begun.after(history).progress {
            ScanProgress::Examining { candidate, stage } => exists|start: int|
                {
                    &&& #[trigger] UnloadScan::examined_since(history, start, candidate, stage)
                    &&& stage.is_justified(candidate, history.since(start))
                },
            ScanProgress::Finished(unloaded) => unloaded ==> exists|start: int, candidate: ThreadId|
                {
                    &&& #[trigger] UnloadScan::unloaded_since(history, start, candidate)
                    &&& CandidateStage::Retiring(RetireStage::RemovingThread).is_justified(
                        candidate,
                        history.since(start),
                    )
                    &&& history.since(start).unloaded()
                },
        },
{
    law_scan_follows_the_verdicts(begun, history);
    match begun.after(history).progress {
        ScanProgress::Examining { candidate, stage } => {
            let start = choose|start: int| #[trigger]
                UnloadScan::examined_since(history, start, candidate, stage);
            law_candidate_is_shut_down_only_at_rest(candidate, history.since(start));
        },
        ScanProgress::Finished(unloaded) => {
            if unloaded {
                let (start, candidate) = choose|start: int, candidate: ThreadId| #[trigger]
                    UnloadScan::unloaded_since(history, start, candidate);
                law_candidate_is_shut_down_only_at_rest(candidate, history.since(start));
            }
        },
    }
}

/// Whatever the replies and whoever uses the residency in between, a scan never takes up the
/// protected thread, which stays resident if it was and keeps its submissions, and the number of
/// candidates still to be examined never grows.
pub proof fn law_scan_spares_the_protected(
    scan: UnloadScan,
    state: ResidencyState,
    reply: ThreadReply,
)
    requires
        state.wf(),
        scan.wf(),
    ensures
        ({
            let (next, after) = scan.spec_step(state, reply);
            &&& next.wf()
            &&& next.protected_thread_id == scan.protected_thread_id
            &&& next.candidates_to_come() <= scan.candidates_to_come()
            &&& forall|t: ThreadId|
                Some(t) == scan.protected_thread_id && state.is_resident(t)
                    ==> #[trigger] after.is_resident(t)
            &&& forall|t: ThreadId|
                Some(t) == scan.protected_thread_id ==> #[trigger] after.pending_ids(t)
                    == state.pending_ids(t)
        }),
{
    let (next, after) = scan.spec_step(state, reply);
    if let ScanProgress::Examining { candidate, stage } = scan.progress {
        let removed = state.removed(candidate);
        let touched = state.touched(candidate);
        crate::residency_laws::law_remove(state, candidate);
        crate::residency_laws::law_touch(state, candidate);
        state.lemma_removed_keeps_wf(candidate);
        state.lemma_touched_keeps_wf(candidate);
        crate::residency_laws::law_pop_removes_only_the_candidate(
            removed,
            scan.protected_thread_id,
        );
        crate::residency_laws::law_pop_removes_only_the_candidate(
            touched,
            scan.protected_thread_id,
        );
        assert forall|t: ThreadId|
            Some(t) == scan.protected_thread_id && state.is_resident(
                t,
            ) implies #[trigger] after.is_resident(t) by {
            assert(removed.is_resident(t));
            assert(touched.is_resident(t));
        }
        assert forall|t: ThreadId|
            Some(t) == scan.protected_thread_id implies #[trigger] after.pending_ids(t)
                == state.pending_ids(t) by {
            assert(removed.pending_ids(t) == state.pending_ids(t));
        }
    }
}

/// An examination asks for the candidate's gate, then looks the candidate up, then reads its status, and
/// then tries to unload it. It moves on exactly when what it asked for was answered.
pub proof fn law_examination_asks_in_order(
    stage: CandidateStage,
    has_pending: bool,
    reply: ThreadReply,
)
    ensures
        match stage {
            CandidateStage::LockingLifecycle => stage.spec_request() is LockLifecycle,
            CandidateStage::LookingUp => stage.spec_request() is LookUpThread,
            CandidateStage::ReadingStatus => stage.spec_request() is ReadStatus,
            CandidateStage::Retiring(retiring) => stage.spec_request() == retiring.spec_request(),
        },
        stage.spec_request().is_answered_by(reply) <==> stage.spec_judge(has_pending, reply)
            != Verdict::Continue(stage),
        stage.spec_judge(has_pending, reply) matches Verdict::Continue(next) ==> next == stage
            || match next {
            CandidateStage::LockingLifecycle => false,
            CandidateStage::LookingUp => stage is LockingLifecycle,
            CandidateStage::ReadingStatus => stage is LookingUp,
            CandidateStage::Retiring(retiring) => {
                ||| stage is ReadingStatus && retiring is ReadingActiveTurn
                ||| stage matches CandidateStage::Retiring(before) && before.spec_step(reply)
                    == RetireStep::Waiting(retiring)
            },
        },
{
    if let CandidateStage::Retiring(retiring) = stage {
        crate::retire::law_retiring_asks_in_order(retiring, reply);
    }
}

/// The verdict on a candidate falls for these reasons only. It is a stray if it could not be looked
/// up, or is no agent of the second runtime generation. It is kept if it has unfinished submissions
/// when it is looked up, if its status is not one of rest, if it has a running turn or waiting mailbox
/// items, or if it fails to shut down. It is unloaded once it was dropped at the end of all this.
pub proof fn law_verdicts_fall_for_a_reason(
    stage: CandidateStage,
    has_pending: bool,
    reply: ThreadReply,
)
    ensures
        stage.spec_judge(has_pending, reply) is Stray <==> {
            &&& stage is LookingUp
            &&& reply matches ThreadReply::ThreadLookedUp(lookup) && (lookup matches Ok(profile)
                ==> profile.multi_agent_version != Some(MultiAgentVersion::V2) || !(
            profile.session_source is SubAgent))
        },
        stage.spec_judge(has_pending, reply) is Keep <==> {
            ||| {
                &&& stage is LookingUp
                &&& has_pending
                &&& reply matches ThreadReply::ThreadLookedUp(Ok(profile))
                    && profile.multi_agent_version == Some(MultiAgentVersion::V2)
                    && profile.session_source is SubAgent
            }
            ||| {
                &&& stage is ReadingStatus
                &&& reply matches ThreadReply::Status(status) && !(status is Completed) && !(
                status is Errored) && !(status is Interrupted)
            }
            ||| stage == CandidateStage::Retiring(RetireStage::ReadingActiveTurn) && reply
                == ThreadReply::ActiveTurn(true)
            ||| stage == CandidateStage::Retiring(RetireStage::ReadingMailbox) && reply
                == ThreadReply::PendingMailboxItems(true)
            ||| stage == CandidateStage::Retiring(RetireStage::ShuttingDown) && reply
                matches ThreadReply::ShutDown(Err(_))
        },
        stage.spec_judge(has_pending, reply) is Unloaded <==> stage == CandidateStage::Retiring(
            RetireStage::RemovingThread,
        ) && reply is ThreadRemoved,
{
}

/// What becomes of a resident whose facts hold still: it is a stray if it is not loaded, or not an
/// agent of the second runtime generation. It can be spared if it is such an agent, has no unfinished
/// submissions, is completed, failed or interrupted, has no running turn and no waiting mailbox items,
/// and shuts down. Otherwise it is kept.
pub proof fn law_fate_of_a_resident(
    state: ResidencyState,
    facts: spec_fn(ThreadId) -> ThreadFacts,
    thread_id: ThreadId,
)
    requires
        state.wf(),
    ensures
        ({
            let f = facts(thread_id);
            let is_agent = f.lookup matches Ok(profile) && profile.multi_agent_version == Some(
                MultiAgentVersion::V2,
            ) && profile.session_source is SubAgent;
            let at_rest = f.status is Completed || f.status is Errored || f.status is Interrupted;
            let goes = is_agent && !state.pending_submissions.contains_key(thread_id) && at_rest
                && !f.active_turn && !f.pending_mailbox_items && f.shutdown is Ok;
            let fate = UnloadScan::fate(state, facts, thread_id);
            &&& fate is Stray <==> !is_agent
            &&& fate is Unloaded <==> goes
            &&& fate is Keep <==> is_agent && !goes
        }),
{
    crate::operation_laws::law_pending_means_that_a_submission_is_recorded(state, thread_id);
}

/// The verdict on a candidate takes effect at once. While more has to be known, nothing changes. A stray
/// is forgotten, a candidate that is kept becomes the most recently used resident, and then the next
/// candidate is taken out of the residents, if one may still be examined and there is one; otherwise
/// the scan ends without success. An agent that was unloaded is forgotten, and the scan ends with
/// success.
pub proof fn law_verdict_takes_effect(scan: UnloadScan, state: ResidencyState, reply: ThreadReply)
    requires
        scan.progress is Examining,
    ensures
        ({
            let candidate = scan.progress->candidate;
            let verdict = scan.progress->stage.spec_judge(state.has_pending(candidate), reply);
            let (next, after) = scan.spec_step(state, reply);
            let settled = if verdict is Keep {
                state.touched(candidate)
            } else {
                state.removed(candidate)
            };
            let next_candidate = settled.lru_candidate(scan.protected_thread_id);
            &&& next.protected_thread_id == scan.protected_thread_id
            &&& verdict matches Verdict::Continue(stage) ==> {
                &&& after == state
                &&& next.progress == ScanProgress::Examining { candidate, stage }
                &&& next.candidates_left == scan.candidates_left
            }
            &&& verdict is Unloaded ==> {
                &&& after == state.removed(candidate)
                &&& next.progress == ScanProgress::Finished(true)
            }
            &&& verdict is Stray || verdict is Keep ==> {
                if scan.candidates_left > 0 && next_candidate is Some {
                    &&& after == settled.lru_popped(scan.protected_thread_id)
                    &&& next.progress == ScanProgress::Examining {
                        candidate: next_candidate->0,
                        stage: CandidateStage::LockingLifecycle,
                    }
                    &&& next.candidates_left == scan.candidates_left - 1
                } else {
                    &&& after == settled
                    &&& next.progress == ScanProgress::Finished(false)
                }
            }
        }),
{
}

/// A scan begins by taking the first resident that is not protected out of the residents, and may
/// examine as many candidates as there were residents. Without one it ends at once, with nothing
/// changed. A scan that has ended changes nothing any more.
pub proof fn law_scan_takes_up_the_oldest(
    state: ResidencyState,
    protected: Option<ThreadId>,
    ended: bool,
    reply: ThreadReply,
)
    requires
        state.wf(),
        state.residents.len() <= usize::MAX,
    ensures
        ({
            let r = state.residents;
            let (scan, after) = UnloadScan::spec_begin(state, protected);
            &&& scan.protected_thread_id == protected
            &&& match state.lru_candidate(protected) {
                Some(candidate) => {
                    &&& scan.progress == ScanProgress::Examining {
                        candidate,
                        stage: CandidateStage::LockingLifecycle,
                    }
                    &&& scan.candidates_left == r.len() - 1
                    &&& after == state.lru_popped(protected)
                },
                None => {
                    &&& scan.progress == ScanProgress::Finished(false)
                    &&& after == state
                },
            }
            &&& ({
                let over = UnloadScan { progress: ScanProgress::Finished(ended), ..scan };
                over.spec_step(state, reply) == (over, state)
            })
        }),
{
}

} // verus!
