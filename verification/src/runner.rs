//! The test lifecycle controller: a fixed number of independently
//! startable, stoppable and cancelable diagnostic-run slots. Each active
//! run is represented by a cancellation token; handing a token out is a
//! revocable capability to abort that run, and a token handed out once is
//! retired for good — it is never held, issued or handed out again.

use vstd::prelude::*;

verus! {

/// Number of independently controllable diagnostic run slots.
pub const SLOT_COUNT: usize = 3;

/// The controller. Each slot holds the cancellation token of its active
/// run, if one is running; `next_token` is the never-reused source of
/// fresh tokens.
pub struct TestRunner {
    active: Vec<Option<u64>>,
    next_token: u64,
}

impl TestRunner {
    pub closed spec fn slot_active(&self, slot: int) -> Option<u64> {
        self.active@[slot]
    }

    pub closed spec fn spec_next_token(&self) -> u64 {
        self.next_token
    }

    /// Some slot currently holds this token.
    pub open spec fn holds_token(&self, t: u64) -> bool {
        exists|i: int| 0 <= i < SLOT_COUNT && self.slot_active(i) == Some(t)
    }

    /// Every held token was issued (is below `next_token`) and no two
    /// slots hold the same token.
    pub closed spec fn wf(&self) -> bool {
        self.active@.len() == SLOT_COUNT && (forall|i: int|
            0 <= i < SLOT_COUNT ==> match #[trigger] self.active@[i] {
                Some(t) => t < self.next_token,
                None => true,
            }) && (forall|i: int, j: int|
            0 <= i < j < SLOT_COUNT && self.active@[i] is Some ==> self.active@[i]
                != self.active@[j])
    }

    /// The token the next started run will receive. Tokens count up and
    /// are never reused; `start` needs this below `u64::MAX`.
    pub fn next_token(&self) -> (r: u64)
        ensures
            r == self.spec_next_token(),
    {
        self.next_token
    }

    /// A controller with every slot idle.
    pub fn new() -> (r: TestRunner)
        ensures
            r.wf(),
            forall|i: int| 0 <= i < SLOT_COUNT ==> r.slot_active(i) is None,
            r.spec_next_token() == 0,
    {
        let mut active: Vec<Option<u64>> = Vec::new();
        let mut i: usize = 0;
        while i < SLOT_COUNT
            invariant
                i <= SLOT_COUNT,
                active@.len() == i,
                forall|j: int| 0 <= j < i ==> (#[trigger] active@[j]) is None,
            decreases SLOT_COUNT - i,
        {
            active.push(None);
            i = i + 1;
        }
        TestRunner { active, next_token: 0 }
    }

    /// Begin a run on a slot, cancelling and replacing any run already
    /// active there. The returned token — the previous run's, present
    /// exactly when one was active — must be aborted by the caller; it is
    /// no longer held anywhere and can never be handed out again, so it is
    /// cancelled exactly once. The new run's token is fresh: it was never
    /// held before.
    pub fn start(&mut self, slot: usize) -> (r: (Option<u64>, u64))
        requires
            old(self).wf(),
            slot < SLOT_COUNT,
            old(self).spec_next_token() < u64::MAX,
        ensures
            final(self).wf(),
            r.0 == old(self).slot_active(slot as int),
            r.1 == old(self).spec_next_token(),
            !old(self).holds_token(r.1),
            final(self).slot_active(slot as int) == Some(r.1),
            forall|i: int|
                0 <= i < SLOT_COUNT && i != slot ==> final(self).slot_active(i)
                    == old(self).slot_active(i),
            final(self).spec_next_token() == old(self).spec_next_token() + 1,
            r.0 matches Some(t) ==> !final(self).holds_token(t),
            forall|t: u64|
                t < old(self).spec_next_token() && !old(self).holds_token(t)
                    ==> !final(self).holds_token(t),
    {
        let prev: Option<u64> = self.active[slot];
        let token = self.next_token;
        self.active[slot] = Some(token);
        self.next_token = self.next_token + 1;
        proof {
            assert(final(self).slot_active(slot as int) == Some(token));
            assert forall|t: u64|
                t < old(self).spec_next_token() && !old(self).holds_token(t) implies !final(self).holds_token(t) by {
                if final(self).holds_token(t) {
                    let i = choose|i: int|
                        0 <= i < SLOT_COUNT && final(self).slot_active(i) == Some(t);
                    assert(i != slot);
                    assert(old(self).slot_active(i) == Some(t));
                }
            }
            if prev is Some {
                let t = prev->0;
                assert(!final(self).holds_token(t)) by {
                    if final(self).holds_token(t) {
                        let i = choose|i: int|
                            0 <= i < SLOT_COUNT && final(self).slot_active(i) == Some(t);
                        assert(i != slot);
                        assert(old(self).slot_active(i) == Some(t));
                        assert(old(self).slot_active(slot as int) == Some(t));
                    }
                }
            }
            assert(!old(self).holds_token(token)) by {
                if old(self).holds_token(token) {
                    let i = choose|i: int|
                        0 <= i < SLOT_COUNT && old(self).slot_active(i) == Some(token);
                }
            }
        }
        (prev, token)
    }

    /// Signal cancellation for a slot's active run, if any, and clear the
    /// handle. The returned token, like `start`'s, is retired: it is never
    /// held or handed out again.
    pub fn stop(&mut self, slot: usize) -> (r: Option<u64>)
        requires
            old(self).wf(),
            slot < SLOT_COUNT,
        ensures
            final(self).wf(),
            r == old(self).slot_active(slot as int),
            final(self).slot_active(slot as int) is None,
            forall|i: int|
                0 <= i < SLOT_COUNT && i != slot ==> final(self).slot_active(i)
                    == old(self).slot_active(i),
            final(self).spec_next_token() == old(self).spec_next_token(),
            r matches Some(t) ==> !final(self).holds_token(t),
            forall|t: u64|
                !old(self).holds_token(t) ==> !final(self).holds_token(t),
    {
        let prev: Option<u64> = self.active[slot];
        self.active[slot] = None;
        proof {
            assert forall|t: u64| !old(self).holds_token(t) implies !final(self).holds_token(
                t,
            ) by {
                if final(self).holds_token(t) {
                    let i = choose|i: int|
                        0 <= i < SLOT_COUNT && final(self).slot_active(i) == Some(t);
                    assert(old(self).slot_active(i) == Some(t));
                }
            }
            if prev is Some {
                let t = prev->0;
                assert(!final(self).holds_token(t)) by {
                    if final(self).holds_token(t) {
                        let i = choose|i: int|
                            0 <= i < SLOT_COUNT && final(self).slot_active(i) == Some(t);
                        assert(i != slot);
                        assert(old(self).slot_active(i) == Some(t));
                        assert(old(self).slot_active(slot as int) == Some(t));
                    }
                }
            }
        }
        prev
    }
}

} // verus!
