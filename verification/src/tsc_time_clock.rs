//! The monotonic microsecond clock. A raw counter sample may move
//! backward; the clock accumulates only forward deltas, so the microsecond
//! value it reports never decreases for the life of the thread.

use vstd::arithmetic::div_mod::lemma_div_is_ordered;
use vstd::arithmetic::mul::lemma_mul_inequality;
use vstd::prelude::*;

verus! {

/// Raw counter ticks per second of a microsecond counter.
pub const USEC_HZ: u64 = 1_000_000;

/// The microsecond value a given accumulated tick count converts to,
/// saturating at the largest representable value.
pub open spec fn usec_of(accum: u64, hz: u64) -> u64
    recommends
        hz >= 1,
{
    let wide = (accum * 1_000_000) / (hz as int);
    if wide > u64::MAX { u64::MAX } else { wide as u64 }
}

/// Converts raw, possibly non-monotonic counter samples into a
/// non-decreasing microsecond timestamp. A sample not greater than the
/// previous one contributes no delta but still replaces the stored sample,
/// so an anomalous reading is absorbed silently instead of ever making the
/// reported time move backward.
pub struct TscClock {
    accumulated_tsc: u64,
    last_tsc: u64,
    hz: u64,
}

impl TscClock {
    pub closed spec fn accum_spec(&self) -> u64 {
        self.accumulated_tsc
    }

    pub closed spec fn last_spec(&self) -> u64 {
        self.last_tsc
    }

    pub closed spec fn hz_spec(&self) -> u64 {
        self.hz
    }

    pub open spec fn wf(&self) -> bool {
        self.hz_spec() >= 1
    }

    /// The microsecond value the clock last reported.
    pub open spec fn now_spec(&self) -> u64 {
        usec_of(self.accum_spec(), self.hz_spec())
    }

    /// A clock calibrated at `hz` counter ticks per second, whose first
    /// raw sample was `initial_raw`.
    pub fn new(hz: u64, initial_raw: u64) -> (c: TscClock)
        requires
            hz >= 1,
        ensures
            c.wf(),
            c.accum_spec() == 0,
            c.last_spec() == initial_raw,
            c.hz_spec() == hz,
    {
        TscClock { accumulated_tsc: 0, last_tsc: initial_raw, hz }
    }

    /// Feeds the clock a fresh raw sample and reports the microsecond
    /// timestamp. The result never decreases from one call to the next,
    /// whatever the samples do.
    pub fn rdtsc_usec(&mut self, curr_tsc: u64) -> (r: u64)
        requires
            old(self).wf(),
        ensures
            final(self).wf(),
            final(self).hz_spec() == old(self).hz_spec(),
            final(self).last_spec() == curr_tsc,
            final(self).accum_spec() == if curr_tsc > old(self).last_spec() {
                let grown = old(self).accum_spec()
                    + (curr_tsc - old(self).last_spec());
                if grown > u64::MAX { u64::MAX } else { grown as u64 }
            } else {
                old(self).accum_spec()
            },
            r == final(self).now_spec(),
            r >= old(self).now_spec(),
    {
        let mut diff: u64 = 0;
        if curr_tsc > self.last_tsc {
            diff = curr_tsc - self.last_tsc;
        }
        self.last_tsc = curr_tsc;
        self.accumulated_tsc = self.accumulated_tsc.saturating_add(diff);
        proof {
            lemma_usec_of_monotonic(
                old(self).accum_spec(),
                self.accum_spec(),
                self.hz_spec(),
            );
        }
        let wide: u128 = (self.accumulated_tsc as u128) * 1_000_000u128
            / (self.hz as u128);
        if wide > u64::MAX as u128 {
            u64::MAX
        } else {
            wide as u64
        }
    }
}

/// Law: a larger accumulated tick count never converts to a smaller
/// microsecond value.
pub proof fn lemma_usec_of_monotonic(a1: u64, a2: u64, hz: u64)
    requires
        hz >= 1,
        a1 <= a2,
    ensures
        usec_of(a1, hz) <= usec_of(a2, hz),
{
    lemma_mul_inequality(a1 as int, a2 as int, 1_000_000);
    lemma_div_is_ordered(a1 * 1_000_000, a2 * 1_000_000, hz as int);
}

/// Relies on std::time::SystemTime::now for a raw microsecond reading of
/// wall-clock time. Nothing is promised of the value: successive samples
/// may repeat or move backward, exactly the anomaly TscClock absorbs.
#[verifier::external_body]
pub(crate) fn raw_counter_sample() -> u64 {
    match std::time::SystemTime::now().duration_since(std::time::UNIX_EPOCH) {
        Ok(d) => d.as_micros() as u64,
        Err(_) => 0,
    }
}

} // verus!
