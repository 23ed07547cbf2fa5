//! Admission control for the enricher's outbound lookups: at most a
//! configured number of lookup operations may be in flight at once. A
//! lookup is admitted only while a slot is free; a completed lookup
//! frees its slot. The bound is a tunable parameter of the stage, not a
//! hard-coded constant.

use vstd::prelude::*;

verus! {

/// One observable step of the lookup stage.
pub enum LookupEvent {
    /// A waiting lookup asks to be issued; it starts only if a slot is
    /// free, and otherwise keeps waiting.
    Start,
    /// An in-flight lookup settles and frees its slot.
    Finish,
}

/// The number of lookups in flight after one event, under bound `n`.
pub open spec fn step_spec(n: nat, in_flight: nat, ev: LookupEvent) -> nat {
    match ev {
        LookupEvent::Start => if in_flight < n {
            in_flight + 1
        } else {
            in_flight
        },
        LookupEvent::Finish => if in_flight > 0 {
            (in_flight - 1) as nat
        } else {
            in_flight
        },
    }
}

/// The number of lookups in flight after a whole event sequence.
pub open spec fn run_spec(n: nat, in_flight: nat, events: Seq<LookupEvent>) -> nat
    decreases events.len(),
{
    if events.len() == 0 {
        in_flight
    } else {
        run_spec(n, step_spec(n, in_flight, events[0]), events.skip(1))
    }
}

/// The enricher never holds more than `n` lookups in flight: whatever
/// the sequence of start and finish events — however long the input
/// stream — a state within the bound only steps to states within the
/// bound.
pub proof fn lemma_in_flight_bounded(n: nat, in_flight: nat, events: Seq<LookupEvent>)
    requires
        in_flight <= n,
    ensures
        run_spec(n, in_flight, events) <= n,
    decreases events.len(),
{
    if events.len() > 0 {
        lemma_in_flight_bounded(n, step_spec(n, in_flight, events[0]), events.skip(1));
    }
}

/// The enricher's admission state: how many lookups are outstanding
/// against the configured bound.
pub struct Limiter {
    /// The configured maximum number of concurrent lookups.
    pub bound: usize,
    /// How many lookups are outstanding now.
    pub in_flight: usize,
}

impl Limiter {
    /// The admission invariant: never more outstanding than allowed.
    pub open spec fn wf(&self) -> bool {
        self.in_flight <= self.bound
    }

    /// A fresh stage with no lookup outstanding.
    pub fn new(bound: usize) -> (r: Limiter)
        ensures
            r.wf(),
            r.bound == bound,
            r.in_flight == 0,
    {
        Limiter { bound: bound, in_flight: 0 }
    }

    /// Whether a slot is free.
    pub fn can_start(&self) -> (r: bool)
        ensures
            r == (self.in_flight < self.bound),
    {
        self.in_flight < self.bound
    }

    /// Ask to issue a lookup: it starts only if a slot is free, and
    /// otherwise the caller keeps waiting with the state unchanged.
    pub fn try_start(&mut self) -> (started: bool)
        requires
            old(self).wf(),
        ensures
            final(self).wf(),
            final(self).bound == old(self).bound,
            started == (old(self).in_flight < old(self).bound),
            final(self).in_flight == step_spec(
                old(self).bound as nat,
                old(self).in_flight as nat,
                LookupEvent::Start,
            ),
    {
        if self.in_flight < self.bound {
            self.in_flight = self.in_flight + 1;
            true
        } else {
            false
        }
    }

    /// An in-flight lookup settled; free its slot.
    pub fn finish(&mut self) -> (freed: bool)
        requires
            old(self).wf(),
        ensures
            final(self).wf(),
            final(self).bound == old(self).bound,
            freed == (old(self).in_flight > 0),
            final(self).in_flight == step_spec(
                old(self).bound as nat,
                old(self).in_flight as nat,
                LookupEvent::Finish,
            ),
    {
        if self.in_flight > 0 {
            self.in_flight = self.in_flight - 1;
            true
        } else {
            false
        }
    }
}

} // verus!
