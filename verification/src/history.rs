//! What a decision procedure was told, and in which states of the residency.
use crate::exchange::ThreadReply;
use crate::state::ResidencyState;
use crate::thread::ThreadId;
use vstd::prelude::*;

verus! {

/// The replies that a decision procedure received, each with the state of the residency at that
/// moment. Between two replies anyone may have used the residency.
#[verifier::ext_equal]
pub struct History {
    pub moments: Seq<(ResidencyState, ThreadReply)>,
}

impl History {
    pub open spec fn len(self) -> nat {
        self.moments.len()
    }

    pub open spec fn earlier(self) -> History {
        History { moments: self.moments.drop_last() }
    }

    /// The history from a moment on.
    pub open spec fn since(self, start: int) -> History {
        History { moments: self.moments.skip(start) }
    }

    pub open spec fn state(self) -> ResidencyState {
        self.moments.last().0
    }

    pub open spec fn reply(self) -> ThreadReply {
        self.moments.last().1
    }

    /// The given reply was received at some moment.
    pub open spec fn received(self, reply: ThreadReply) -> bool {
        exists|i: int| 0 <= i < self.moments.len() && (#[trigger] self.moments[i]).1 == reply
    }

    /// The given reply was received at some moment at which the thread had no unfinished
    /// submissions.
    pub open spec fn received_unprotected(self, reply: ThreadReply, thread_id: ThreadId) -> bool {
        exists|i: int|
            0 <= i < self.moments.len() && (#[trigger] self.moments[i]).1 == reply
                && !self.moments[i].0.has_pending(thread_id)
    }

    /// The agent was found without a running turn and without waiting mailbox items.
    pub open spec fn found_idle(self) -> bool {
        &&& self.received(ThreadReply::ActiveTurn(false))
        &&& self.received(ThreadReply::PendingMailboxItems(false))
    }

    /// The agent's rollout was written, and the agent shut down and was dropped from the thread
    /// manager.
    pub open spec fn unloaded(self) -> bool {
        &&& self.received(ThreadReply::RolloutMaterialized)
        &&& self.received(ThreadReply::ShutDown(Ok(())))
        &&& self.received(ThreadReply::ThreadRemoved)
    }

    /// The last moment of a part of a history that reaches up to the present.
    pub proof fn lemma_since(self, start: int)
        requires
            0 <= start < self.len(),
        ensures
            self.since(start).len() > 0,
            self.since(start).earlier() == self.earlier().since(start),
            self.since(start).state() == self.state(),
            self.since(start).reply() == self.reply(),
    {
        assert(self.since(start).earlier() =~= self.earlier().since(start));
    }

    /// A reply was received either at the last moment or earlier.
    pub proof fn lemma_received(self, thread_id: ThreadId)
        requires
            self.len() > 0,
        ensures
            forall|reply: ThreadReply| #[trigger]
                self.received(reply) <==> self.reply() == reply || self.earlier().received(reply),
            forall|reply: ThreadReply| #[trigger]
                self.received_unprotected(reply, thread_id) <==> (self.reply() == reply
                    && !self.state().has_pending(thread_id))
                    || self.earlier().received_unprotected(reply, thread_id),
    {
        let earlier = self.earlier();
        assert(self.moments[self.moments.len() - 1] == self.moments.last());
        assert forall|reply: ThreadReply| #[trigger] self.received(reply) <==> self.reply() == reply
            || earlier.received(reply) by {
            if earlier.received(reply) {
                let i = choose|i: int|
                    0 <= i < earlier.moments.len() && (#[trigger] earlier.moments[i]).1 == reply;
                assert(self.moments[i].1 == reply);
            }
            if self.received(reply) {
                let i = choose|i: int|
                    0 <= i < self.moments.len() && (#[trigger] self.moments[i]).1 == reply;
                if i < earlier.moments.len() {
                    assert(earlier.moments[i].1 == reply);
                }
            }
        }
        assert forall|reply: ThreadReply| #[trigger]
            self.received_unprotected(reply, thread_id) <==> (self.reply() == reply
                && !self.state().has_pending(thread_id)) || earlier.received_unprotected(
            reply,
            thread_id,
        ) by {
            if earlier.received_unprotected(reply, thread_id) {
                let i = choose|i: int|
                    0 <= i < earlier.moments.len() && (#[trigger] earlier.moments[i]).1 == reply
                        && !earlier.moments[i].0.has_pending(thread_id);
                assert(self.moments[i] == earlier.moments[i]);
            }
            if self.received_unprotected(reply, thread_id) {
                let i = choose|i: int|
                    0 <= i < self.moments.len() && (#[trigger] self.moments[i]).1 == reply
                        && !self.moments[i].0.has_pending(thread_id);
                if i < earlier.moments.len() {
                    assert(earlier.moments[i] == self.moments[i]);
                }
            }
        }
    }
}

} // verus!
