//! Latest-value distribution: a single-slot last-value cache with change
//! notification, supporting many independent observers without the producer
//! depending on any of them.
//!
//! Each `publish` replaces the slot and advances a version counter; an
//! observer tracks the last version it has seen. Slow observers coalesce:
//! they see the latest value, not every intermediate one.

use vstd::prelude::*;

verus! {

/// The mathematical state of a [`Watchable`] slot.
pub struct WatchState<T> {
    pub value: T,
    pub version: nat,
    pub closed: bool,
}

/// The state after publishing `v` into `s`: the slot holds `v` and the
/// version has advanced by one.
pub open spec fn publish_state<T>(s: WatchState<T>, v: T) -> WatchState<T> {
    WatchState { value: v, version: s.version + 1, closed: s.closed }
}

/// A single-slot latest-value holder with change notification.
pub struct Watchable<T> {
    value: T,
    version: u64,
    closed: bool,
}

/// An observer handle with its own independent "seen" tracking.
#[derive(Clone, Copy, PartialEq, Eq, Structural, Debug)]
pub struct WatchObserver {
    seen: u64,
}

/// What one polling step of an observer found.
pub enum Observed<'a, T> {
    /// A value this observer had not seen yet; always the latest one.
    Changed(&'a T),
    /// Nothing unseen, producer still live; the caller may suspend.
    Pending,
    /// Nothing unseen and the producer has closed the slot.
    Closed,
}

impl<T> View for Watchable<T> {
    type V = WatchState<T>;

    closed spec fn view(&self) -> WatchState<T> {
        WatchState { value: self.value, version: self.version as nat, closed: self.closed }
    }
}

impl WatchObserver {
    /// The version this observer has last seen.
    pub closed spec fn seen(self) -> nat {
        self.seen as nat
    }
}

impl<T> Watchable<T> {
    pub fn new(initial: T) -> (r: Watchable<T>)
        ensures
            r@.value == initial,
            r@.version == 0,
            !r@.closed,
    {
        Watchable { value: initial, version: 0, closed: false }
    }

    /// Replaces the current value and marks it changed for every observer
    /// that has not yet observed this publication.
    pub fn publish(&mut self, v: T)
        requires
            old(self)@.version < u64::MAX,
        ensures
            final(self)@ == publish_state(old(self)@, v),
    {
        self.value = v;
        self.version = self.version + 1;
    }

    /// Closes the slot: every pending and future observation resolves with
    /// `Observed::Closed` once nothing unseen remains, never hangs.
    pub fn close(&mut self)
        ensures
            final(self)@ == (WatchState { closed: true, ..old(self)@ }),
    {
        self.closed = true;
    }

    /// Returns a handle with independent "seen" tracking; the value already
    /// in the slot counts as seen by the new observer.
    pub fn subscribe(&self) -> (r: WatchObserver)
        ensures
            r.seen() == self@.version,
    {
        WatchObserver { seen: self.version }
    }

    /// The current value, without marking anything seen.
    pub fn current(&self) -> (r: &T)
        ensures
            *r == self@.value,
    {
        &self.value
    }

    pub fn is_closed(&self) -> (r: bool)
        ensures
            r == self@.closed,
    {
        self.closed
    }

    /// The publication counter, for callers that must check the machine
    /// limit on it before publishing.
    pub fn version(&self) -> (r: u64)
        ensures
            r as nat == self@.version,
    {
        self.version
    }
}

impl WatchObserver {
    /// Non-suspending peek: whether the slot holds a publication this
    /// observer has not seen.
    pub fn has_changed<T>(&self, w: &Watchable<T>) -> (r: bool)
        ensures
            r == (self.seen() != w@.version),
    {
        self.seen != w.version
    }

    /// One polling step of `wait_for_change`: yields the latest value when
    /// an unseen publication is present (marking it seen), reports `Closed`
    /// when the producer has closed the slot, and `Pending` otherwise — the
    /// caller then suspends and polls again after the next publication.
    pub fn poll<'a, T>(&mut self, w: &'a Watchable<T>) -> (r: Observed<'a, T>)
        ensures
            old(self).seen() != w@.version ==> {
                &&& r matches Observed::Changed(v) && *v == w@.value
                &&& final(self).seen() == w@.version
            },
            old(self).seen() == w@.version && w@.closed ==> {
                &&& r is Closed
                &&& final(self).seen() == old(self).seen()
            },
            old(self).seen() == w@.version && !w@.closed ==> {
                &&& r is Pending
                &&& final(self).seen() == old(self).seen()
            },
    {
        if self.seen != w.version {
            self.seen = w.version;
            Observed::Changed(&w.value)
        } else if w.closed {
            Observed::Closed
        } else {
            Observed::Pending
        }
    }
}

/// Observers coalesce to the latest value: an observer subscribed before a
/// run of three publications still has something unseen afterwards, and what
/// it then observes is exactly the final published value — never one of the
/// intermediate ones. This holds for any number of independent observers,
/// since each carries only its own `seen` mark.
pub proof fn lemma_observer_sees_final_value<T>(s0: WatchState<T>, seen: nat, a: T, b: T, c: T)
    requires
        seen == s0.version,
    ensures
        ({
            let s3 = publish_state(publish_state(publish_state(s0, a), b), c);
            &&& seen != s3.version
            &&& s3.value == c
        }),
{
}

} // verus!
