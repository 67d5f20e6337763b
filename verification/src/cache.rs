use crate::error::ReleaseError;
use vstd::prelude::*;

verus! {

/// The state of the cache for one key.
pub enum Slot<V> {
    /// Nothing is stored and nobody is filling.
    Empty,
    /// One fill is in flight; nothing is stored.
    Pending,
    /// A value is stored, with the time at which it was stored.
    Ready { value: V, inserted_at: u64 },
}

/// What a caller that asks for a key has to do.
#[derive(Debug, Clone, Copy, PartialEq, Eq, Structural)]
pub enum Action {
    /// Take the stored value; nothing is computed.
    Serve,
    /// Run the fill, then settle the slot with its outcome.
    Fill,
    /// Wait for the fill that is in flight and take its outcome.
    Join,
}

/// An entry stored at `inserted_at` is valid at `now`: its age is under the
/// time to live.
pub open spec fn live(inserted_at: u64, ttl: u64, now: u64) -> bool {
    now < inserted_at + ttl
}

impl<V> Slot<V> {
    /// What a caller arriving at `now` is told.
    pub open spec fn decision(self, ttl: u64, now: u64) -> Action {
        match self {
            Slot::Empty => Action::Fill,
            Slot::Pending => Action::Join,
            Slot::Ready { value, inserted_at } => if live(inserted_at, ttl, now) {
                Action::Serve
            } else {
                Action::Fill
            },
        }
    }

    /// The slot after that caller was told: it is pending exactly if the
    /// caller was sent to fill, and otherwise unchanged.
    pub open spec fn after_begin(self, ttl: u64, now: u64) -> Slot<V> {
        if self.decision(ttl, now) == Action::Fill {
            Slot::Pending
        } else {
            self
        }
    }

    /// The slot after a fill ended at `now`: the value of a fill that
    /// succeeded, stamped with `now`; nothing after one that failed.
    pub open spec fn after_settle(outcome: Result<V, ReleaseError>, now: u64) -> Slot<V> {
        match outcome {
            Ok(value) => Slot::Ready { value, inserted_at: now },
            Err(_) => Slot::Empty,
        }
    }

    /// The value that a caller told to serve takes.
    pub open spec fn stored(self) -> Option<V> {
        match self {
            Slot::Ready { value, inserted_at } => Some(value),
            _ => None,
        }
    }

    pub fn new() -> (r: Self)
        ensures
            r == Slot::<V>::Empty,
    {
        Slot::Empty
    }

    /// Tells the caller what to do, without changing the slot.
    pub fn decide(&self, ttl: u64, now: u64) -> (r: Action)
        ensures
            r == self.decision(ttl, now),
    {
        match self {
            Slot::Empty => Action::Fill,
            Slot::Pending => Action::Join,
            Slot::Ready { value: _, inserted_at } => {
                if now < *inserted_at || now - *inserted_at < ttl {
                    Action::Serve
                } else {
                    Action::Fill
                }
            },
        }
    }

    /// Tells the caller what to do and, where that is to fill, marks the
    /// fill as in flight, so that whoever comes next joins it.
    pub fn begin(&mut self, ttl: u64, now: u64) -> (r: Action)
        ensures
            r == old(self).decision(ttl, now),
            *final(self) == old(self).after_begin(ttl, now),
    {
        let action = self.decide(ttl, now);
        match action {
            Action::Fill => { *self = Slot::Pending; },
            _ => {},
        }
        action
    }

    /// Ends a fill at `now`: stores the value of one that succeeded and
    /// clears the slot after one that failed, handing the error on.
    pub fn settle(&mut self, outcome: Result<V, ReleaseError>, now: u64) -> (r: Result<
        (),
        ReleaseError,
    >)
        ensures
            *final(self) == Self::after_settle(outcome, now),
            match outcome {
                Ok(_) => r is Ok,
                Err(e) => r == Err::<(), ReleaseError>(e),
            },
    {
        match outcome {
            Ok(value) => {
                *self = Slot::Ready { value, inserted_at: now };
                Ok(())
            },
            Err(e) => {
                *self = Slot::Empty;
                Err(e)
            },
        }
    }

    /// The stored value, if there is one.
    pub fn value(&self) -> (r: Option<&V>)
        ensures
            match r {
                Some(v) => self.stored() == Some(*v),
                None => self.stored() is None,
            },
    {
        match self {
            Slot::Ready { value, inserted_at: _ } => Some(value),
            _ => None,
        }
    }
}

/// While a fill is in flight no second one is started: whoever asks is told
/// to join, whatever the time, and the slot stays as it is.
pub proof fn lemma_single_flight<V>(slot: Slot<V>, ttl: u64, now: u64, later: u64)
    requires
        slot.decision(ttl, now) == Action::Fill,
    ensures
        slot.after_begin(ttl, now).decision(ttl, later) == Action::Join,
        slot.after_begin(ttl, now).after_begin(ttl, later) == slot.after_begin(ttl, now),
{
}

/// Once a fill has succeeded, whoever asks before the entry expires is served
/// the value of that fill and starts none.
pub proof fn lemma_filled_once<V>(value: V, ttl: u64, now: u64, later: u64)
    requires
        later < now + ttl,
    ensures
        Slot::after_settle(Ok(value), now).decision(ttl, later) == Action::Serve,
        Slot::after_settle(Ok(value), now).after_begin(ttl, later).stored() == Some(value),
{
}

/// A fill that failed leaves nothing behind: the next caller is sent to fill
/// again, and if that fill succeeds its value is stored.
pub proof fn lemma_failure_not_cached<V>(
    error: ReleaseError,
    value: V,
    ttl: u64,
    now: u64,
    later: u64,
    done: u64,
)
    ensures
        Slot::<V>::after_settle(Err(error), now) == Slot::<V>::Empty,
        Slot::<V>::after_settle(Err(error), now).decision(ttl, later) == Action::Fill,
        Slot::<V>::after_settle(Err(error), now).after_begin(ttl, later) == Slot::<V>::Pending,
        Slot::after_settle(Ok(value), done).stored() == Some(value),
{
}

/// An entry stored at `at` is served at every time before `at + ttl` and
/// refilled at every time from `at + ttl` on.
pub proof fn lemma_expiry<V>(value: V, at: u64, ttl: u64, now: u64)
    ensures
        now < at + ttl ==> (Slot::Ready { value, inserted_at: at }).decision(ttl, now)
            == Action::Serve,
        now >= at + ttl ==> (Slot::Ready { value, inserted_at: at }).decision(ttl, now)
            == Action::Fill,
{
}

} // verus!
