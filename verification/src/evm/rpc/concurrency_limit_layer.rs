//! How many requests may be in flight.
//!
//! The layer counts; the caller sends a request when the layer lets it
//! start, and holds it back otherwise until a running one has finished.

use vstd::prelude::*;

verus! {

/// A counting limit on the requests in flight.
#[derive(Debug)]
pub struct ConcurrencyLimitLayer {
    max: usize,
    in_flight: usize,
    waiting: usize,
}

impl ConcurrencyLimitLayer {
    /// No more requests are in flight than the limit allows, and requests
    /// wait only while the limit is reached.
    #[verifier::type_invariant]
    spec fn inv(self) -> bool {
        &&& self.in_flight <= self.max
        &&& self.waiting > 0 ==> self.in_flight == self.max
    }

    /// The largest number of requests in flight.
    pub closed spec fn max_view(self) -> usize {
        self.max
    }

    /// The number of requests in flight.
    pub closed spec fn in_flight_view(self) -> usize {
        self.in_flight
    }

    /// The number of requests that wait for a place.
    pub closed spec fn waiting_view(self) -> usize {
        self.waiting
    }

    /// What holds of the layer at all times: no more requests are in flight
    /// than the limit allows, and requests wait only while the limit is
    /// reached.
    pub open spec fn within_limit(self) -> bool {
        &&& self.in_flight_view() <= self.max_view()
        &&& self.waiting_view() > 0 ==> self.in_flight_view() == self.max_view()
    }

    /// A limit of `max` requests in flight, with none in flight yet.
    pub fn new(max: usize) -> (layer: ConcurrencyLimitLayer)
        ensures
            layer.max_view() == max,
            layer.in_flight_view() == 0,
            layer.waiting_view() == 0,
            layer.within_limit(),
    {
        ConcurrencyLimitLayer { max, in_flight: 0, waiting: 0 }
    }

    /// The number of requests in flight, which is never above the limit.
    pub fn in_flight(&self) -> (n: usize)
        ensures
            n == self.in_flight_view(),
            n <= self.max_view(),
    {
        proof {
            use_type_invariant(self);
        }
        self.in_flight
    }

    /// The number of requests that wait. Requests wait only while the limit
    /// is reached.
    pub fn waiting(&self) -> (n: usize)
        ensures
            n == self.waiting_view(),
            n > 0 ==> self.in_flight_view() == self.max_view(),
    {
        proof {
            use_type_invariant(self);
        }
        self.waiting
    }

    /// A request asks for a place. It starts at once, and the answer is
    /// `true`, exactly when fewer requests are in flight than the limit
    /// allows; otherwise it waits. No request is turned away.
    pub fn acquire(&mut self) -> (started: bool)
        requires
            old(self).waiting_view() < usize::MAX,
        ensures
            started == (old(self).in_flight_view() < old(self).max_view()),
            final(self).max_view() == old(self).max_view(),
            final(self).within_limit(),
            started ==> final(self).in_flight_view() == old(self).in_flight_view() + 1
                && final(self).waiting_view() == old(self).waiting_view(),
            !started ==> final(self).in_flight_view() == old(self).in_flight_view()
                && final(self).waiting_view() == old(self).waiting_view() + 1,
    {
        proof {
            use_type_invariant(&*self);
        }
        if self.in_flight < self.max {
            self.in_flight = self.in_flight + 1;
            true
        } else {
            self.waiting = self.waiting + 1;
            false
        }
    }

    /// A request in flight has finished. Where a request waits, it takes the
    /// place and starts, and the answer is `true`; otherwise the place is
    /// free again.
    pub fn release(&mut self) -> (next_started: bool)
        requires
            old(self).in_flight_view() > 0,
        ensures
            next_started == (old(self).waiting_view() > 0),
            final(self).max_view() == old(self).max_view(),
            final(self).within_limit(),
            next_started ==> final(self).in_flight_view() == old(self).in_flight_view()
                && final(self).waiting_view() == old(self).waiting_view() - 1,
            !next_started ==> final(self).in_flight_view() == old(self).in_flight_view() - 1
                && final(self).waiting_view() == 0,
    {
        proof {
            use_type_invariant(&*self);
        }
        if self.waiting > 0 {
            self.waiting = self.waiting - 1;
            true
        } else {
            self.in_flight = self.in_flight - 1;
            false
        }
    }
}

} // verus!
