//! Descriptive statistics of one integer channel.
//!
//! Running count, sum, sum of squares, minimum and maximum. The derived
//! figures (mean, RMS) are floating-point presentation and are computed by
//! the process code from these integer accumulators.

use vstd::prelude::*;

verus! {

/// Accumulators over the samples seen since the last reset.
#[derive(Debug, Clone, Copy, PartialEq, Eq, Structural)]
pub struct Statistics {
    pub sum: i64,
    pub min: i32,
    pub max: i32,
    pub count: u32,
    pub sqsum: u128,
}

/// The empty accumulators.
pub open spec fn spec_stats_empty() -> Statistics {
    Statistics { sum: 0i64, min: i32::MAX, max: i32::MIN, count: 0u32, sqsum: 0u128 }
}

/// One sample folded into the accumulators.
pub open spec fn spec_stats_add(s: Statistics, value: i32) -> Statistics {
    Statistics {
        sum: (s.sum + value) as i64,
        min: if value < s.min {
            value
        } else {
            s.min
        },
        max: if value > s.max {
            value
        } else {
            s.max
        },
        count: (s.count + 1) as u32,
        sqsum: (s.sqsum + value as int * value as int) as u128,
    }
}

impl Statistics {
    /// The accumulators stay within what `count` samples can produce, so
    /// another sample never overflows them.
    pub open spec fn well_formed(self) -> bool {
        &&& -(self.count as int) * 0x8000_0000 <= self.sum as int <= (self.count as int)
            * 0x7fff_ffff
        &&& self.sqsum as int <= (self.count as int) * 0x4000_0000_0000_0000
    }

    /// Empty accumulators: the extremes start at the type bounds so the
    /// first sample replaces both.
    pub fn new() -> (s: Statistics)
        ensures
            s == spec_stats_empty(),
            s.well_formed(),
    {
        Statistics { sum: 0, min: i32::MAX, max: i32::MIN, count: 0, sqsum: 0 }
    }

    /// Fold one sample in.
    pub fn add(&mut self, value: i32)
        requires
            old(self).well_formed(),
            old(self).count < u32::MAX,
        ensures
            final(self).well_formed(),
            *final(self) == spec_stats_add(*old(self), value),
    {
        proof {
            assert(0 <= value as int * value as int <= 0x4000_0000_0000_0000) by (nonlinear_arith)
                requires
                    -0x8000_0000 <= value as int <= 0x7fff_ffff,
            ;
        }
        self.count = self.count + 1;
        self.sum = self.sum + value as i64;
        self.sqsum = self.sqsum + ((value as i128 * value as i128) as u128);
        if value < self.min {
            self.min = value;
        }
        if value > self.max {
            self.max = value;
        }
    }

    /// Runtime check of the accumulator bounds, for entry points that
    /// cannot assume them.
    pub fn is_well_formed(&self) -> (r: bool)
        ensures
            r == self.well_formed(),
    {
        let c = self.count as i128;
        -(c * 0x8000_0000i128) <= self.sum as i128 && self.sum as i128 <= c * 0x7fff_ffffi128
            && self.sqsum <= (self.count as u128) * 0x4000_0000_0000_0000u128
    }

    /// Back to the empty accumulators.
    pub fn reset(&mut self)
        ensures
            *final(self) == spec_stats_empty(),
            final(self).well_formed(),
    {
        self.sum = 0;
        self.sqsum = 0;
        self.min = i32::MAX;
        self.max = i32::MIN;
        self.count = 0;
    }
}

} // verus!
