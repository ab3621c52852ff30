//! The span timer: when each live span was created, and how long it lived.

use std::collections::HashMap;
use vstd::prelude::*;
use vstd::std_specs::hash::*;

verus! {

broadcast use vstd::std_specs::hash::group_hash_axioms;

/// The whole milliseconds from `created` to `now`, both in nanoseconds on one
/// clock: zero where the clock did not advance, and the largest `u64` where
/// the span would not fit.
pub open spec fn elapsed_millis(created: i128, now: i128) -> u64 {
    if now <= created {
        0
    } else if (now - created) / 1_000_000 > u64::MAX {
        u64::MAX
    } else {
        ((now - created) / 1_000_000) as u64
    }
}

/// Computes the whole milliseconds between two readings of one clock.
pub fn elapsed_between(created: i128, now: i128) -> (r: u64)
    ensures
        r == elapsed_millis(created, now),
{
    if now <= created {
        return 0;
    }
    match now.checked_sub(created) {
        Some(nanos) => {
            let millis: i128 = nanos / 1_000_000;
            if millis > 0xffff_ffff_ffff_ffff {
                u64::MAX
            } else {
                millis as u64
            }
        },
        None => {
            assert((now - created) / 1_000_000 > u64::MAX);
            u64::MAX
        },
    }
}

/// The creation instants of the live spans, by span identity.
#[derive(Debug)]
pub struct SpanTimer {
    created: HashMap<u64, i128>,
}

impl View for SpanTimer {
    type V = Map<u64, i128>;

    closed spec fn view(&self) -> Map<u64, i128> {
        self.created@
    }
}

impl SpanTimer {
    /// A timer that knows of no span.
    pub fn new() -> (r: Self)
        ensures
            r@ == Map::<u64, i128>::empty(),
    {
        SpanTimer { created: HashMap::new() }
    }

    /// Notes that the span was created at `now`. A span that is noted twice
    /// keeps the later instant.
    pub fn start(&mut self, id: u64, now: i128)
        ensures
            final(self)@ == old(self)@.insert(id, now),
    {
        self.created.insert(id, now);
    }

    /// The milliseconds that the span has lived at `now`, and zero for a span
    /// that was never noted. The span's entry is spent: it is gone afterwards.
    pub fn finish(&mut self, id: u64, now: i128) -> (r: u64)
        ensures
            final(self)@ == old(self)@.remove(id),
            r == if old(self)@.contains_key(id) {
                elapsed_millis(old(self)@[id], now)
            } else {
                0
            },
    {
        match self.created.remove(&id) {
            Some(created) => elapsed_between(created, now),
            None => 0,
        }
    }
}

} // verus!
