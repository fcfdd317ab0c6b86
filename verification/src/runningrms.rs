//! Rolling root-mean-square over a window of integer samples.
//!
//! The window stores the squares of the last `N` samples and their running
//! sum (a 128-bit integer, so no intermediate overflows). Once the window
//! has filled, each step reports `round(sqrt(sqsum / N))` — computed exactly
//! over the rational `sqsum / N`, with ties rounded up.

use vstd::prelude::*;

verus! {

/// Sum of a sequence of squares.
pub open spec fn spec_sum(s: Seq<u64>) -> int
    decreases s.len(),
{
    if s.len() == 0 {
        0
    } else {
        spec_sum(s.take(s.len() - 1)) + s[s.len() - 1]
    }
}

proof fn lemma_sum_nonneg(s: Seq<u64>)
    ensures
        spec_sum(s) >= 0,
    decreases s.len(),
{
    if s.len() > 0 {
        lemma_sum_nonneg(s.take(s.len() - 1));
    }
}

proof fn lemma_sum_element_le(s: Seq<u64>, i: int)
    requires
        0 <= i < s.len(),
    ensures
        s[i] <= spec_sum(s),
    decreases s.len(),
{
    lemma_sum_nonneg(s.take(s.len() - 1));
    if i < s.len() - 1 {
        lemma_sum_element_le(s.take(s.len() - 1), i);
    }
}

proof fn lemma_sum_update(s: Seq<u64>, i: int, v: u64)
    requires
        0 <= i < s.len(),
    ensures
        spec_sum(s.update(i, v)) == spec_sum(s) - s[i] + v,
    decreases s.len(),
{
    let t = s.update(i, v);
    if i == s.len() - 1 {
        assert(t.take(t.len() - 1) =~= s.take(s.len() - 1));
    } else {
        assert(t.take(t.len() - 1) =~= s.take(s.len() - 1).update(i, v));
        lemma_sum_update(s.take(s.len() - 1), i, v);
    }
}

proof fn lemma_sum_bound(s: Seq<u64>)
    requires
        forall|i: int| 0 <= i < s.len() ==> #[trigger] s[i] <= 0x4000_0000_0000_0000,
    ensures
        spec_sum(s) <= s.len() * 0x4000_0000_0000_0000,
    decreases s.len(),
{
    if s.len() > 0 {
        assert(forall|i: int|
            0 <= i < s.len() - 1 ==> #[trigger] s.take(s.len() - 1)[i] <= 0x4000_0000_0000_0000);
        lemma_sum_bound(s.take(s.len() - 1));
    }
}

proof fn lemma_sum_zero(s: Seq<u64>)
    requires
        forall|i: int| 0 <= i < s.len() ==> #[trigger] s[i] == 0,
    ensures
        spec_sum(s) == 0,
    decreases s.len(),
{
    if s.len() > 0 {
        assert(forall|i: int| 0 <= i < s.len() - 1 ==> #[trigger] s.take(s.len() - 1)[i] == 0);
        lemma_sum_zero(s.take(s.len() - 1));
    }
}

/// `m` is `sqrt(sqsum / n)` rounded to the nearest integer, ties up:
/// `m - 1/2 <= sqrt(sqsum / n) < m + 1/2`, squared and cleared of fractions.
pub open spec fn is_rounded_rms(sqsum: int, n: int, m: int) -> bool {
    &&& (m > 0 ==> (2 * m - 1) * (2 * m - 1) * n <= 4 * sqsum)
    &&& 4 * sqsum < (2 * m + 1) * (2 * m + 1) * n
}

/// The rounding conditions pin the result: two values that both satisfy
/// them are equal.
pub proof fn lemma_rounded_rms_unique(sqsum: int, n: int, m1: int, m2: int)
    requires
        n >= 1,
        m1 >= 0,
        m2 >= 0,
        is_rounded_rms(sqsum, n, m1),
        is_rounded_rms(sqsum, n, m2),
    ensures
        m1 == m2,
{
    if m1 < m2 {
        assert((2 * m1 + 1) * (2 * m1 + 1) * n <= (2 * m2 - 1) * (2 * m2 - 1) * n) by (nonlinear_arith)
            requires
                n >= 1,
                0 <= m1 < m2,
        ;
    }
    if m2 < m1 {
        assert((2 * m2 + 1) * (2 * m2 + 1) * n <= (2 * m1 - 1) * (2 * m1 - 1) * n) by (nonlinear_arith)
            requires
                n >= 1,
                0 <= m2 < m1,
        ;
    }
}

/// Rolling RMS of `i32` samples, rounded to the nearest `u32`.
pub struct RunningRMS {
    /// Squares of the most recent samples, written round-robin.
    pub window: Vec<u64>,
    /// Sum of every square in the window.
    pub sqsum: u128,
    /// Next slot to overwrite.
    pub index: usize,
    /// Latched once the window has wrapped.
    pub window_full: bool,
}

impl RunningRMS {
    /// The cursor stays inside a fixed, modestly sized window of squares,
    /// and the running sum is exactly the window's sum.
    pub open spec fn well_formed(self) -> bool {
        &&& 1 <= self.window.len() <= 0x1_0000_0000
        &&& self.index < self.window.len()
        &&& self.sqsum == spec_sum(self.window@)
        &&& forall|i: int| 0 <= i < self.window@.len() ==> #[trigger] self.window@[i]
            <= 0x4000_0000_0000_0000
    }

    /// An empty window of `window_size` slots.
    pub fn new(window_size: usize) -> (r: RunningRMS)
        requires
            1 <= window_size <= 0x1_0000_0000,
        ensures
            r.well_formed(),
            r.window@ == Seq::new(window_size as nat, |i: int| 0u64),
            r.sqsum == 0,
            r.index == 0,
            !r.window_full,
    {
        let window = vec![0u64; window_size];
        proof {
            lemma_sum_zero(window@);
        }
        RunningRMS { window, sqsum: 0, index: 0, window_full: false }
    }

    /// Replace the oldest square with `value`'s square; once the window is
    /// full, report the rounded RMS of the updated window.
    pub fn add_sample(&mut self, value: i32) -> (r: Option<u32>)
        requires
            old(self).well_formed(),
        ensures
            final(self).well_formed(),
            final(self).window@ == old(self).window@.update(
                old(self).index as int,
                (value as int * value as int) as u64,
            ),
            final(self).window.len() == old(self).window.len(),
            final(self).index == (old(self).index + 1) as int % old(self).window@.len() as int,
            final(self).window_full == (old(self).window_full || final(self).index == 0),
            final(self).sqsum == spec_sum(final(self).window@),
            match r {
                Some(m) => final(self).window_full && is_rounded_rms(
                    spec_sum(final(self).window@),
                    final(self).window@.len() as int,
                    m as int,
                ),
                None => !final(self).window_full,
            },
    {
        let len = self.window.len();
        let old_sq = self.window[self.index];
        proof {
            lemma_sum_element_le(self.window@, self.index as int);
            lemma_sum_nonneg(self.window@);
        }
        self.sqsum = self.sqsum - old_sq as u128;

        proof {
            assert(value as i64 * value as i64 >= 0 && value as i64 * value as i64
                <= 0x4000_0000_0000_0000) by (nonlinear_arith)
                requires
                    -0x8000_0000 <= value as i64 <= 0x7fff_ffff,
            ;
        }
        let sq = (value as i64 * value as i64) as u64;
        proof {
            lemma_sum_update(self.window@, self.index as int, sq);
            lemma_sum_bound(self.window@.update(self.index as int, sq));
        }
        self.window[self.index] = sq;
        self.sqsum = self.sqsum + sq as u128;

        self.index = (self.index + 1) % len;
        self.window_full = self.window_full || (self.index == 0);

        self.rms()
    }

    /// The rounded RMS of the current window, once it has filled.
    pub fn rms(&self) -> (r: Option<u32>)
        requires
            self.well_formed(),
        ensures
            match r {
                Some(m) => self.window_full && is_rounded_rms(
                    spec_sum(self.window@),
                    self.window@.len() as int,
                    m as int,
                ),
                None => !self.window_full,
            },
    {
        if !self.window_full {
            return None;
        }
        proof {
            lemma_sum_bound(self.window@);
            lemma_sum_nonneg(self.window@);
        }
        let n = self.window.len() as u128;
        let s4: u128 = 4 * self.sqsum;
        let ghost s = self.sqsum as int;
        let ghost gn = n as int;

        let mut lo: u32 = 0;
        let mut hi: u32 = 0x8000_0000;
        proof {
            assert(4 * s < (2 * (hi as int) + 1) * (2 * (hi as int) + 1) * gn) by (nonlinear_arith)
                requires
                    1 <= gn <= 0x1_0000_0000,
                    0 <= s <= gn * 0x4000_0000_0000_0000,
                    hi == 0x8000_0000u32,
            ;
        }
        while lo < hi
            invariant
                lo <= hi <= 0x8000_0000,
                s == self.sqsum as int,
                gn == n as int,
                1 <= gn <= 0x1_0000_0000,
                s4 == 4 * s,
                lo > 0 ==> (2 * (lo as int) - 1) * (2 * (lo as int) - 1) * gn <= 4 * s,
                4 * s < (2 * (hi as int) + 1) * (2 * (hi as int) + 1) * gn,
            decreases hi - lo,
        {
            let mid = lo + (hi - lo) / 2;
            let m2: u128 = 2 * (mid as u128) + 1;
            proof {
                assert(0 < m2 * m2 <= 0x4_0000_0000_0000_0000u128) by (nonlinear_arith)
                    requires
                        0 < m2 <= 0x1_0000_0001u128,
                ;
                assert(m2 * m2 * n <= 0x4_0000_0000_0000_0000u128 * 0x1_0000_0000u128) by (nonlinear_arith)
                    requires
                        0 < m2 * m2 <= 0x4_0000_0000_0000_0000u128,
                        0 < n <= 0x1_0000_0000u128,
                ;
            }
            let t: u128 = m2 * m2 * n;
            if s4 < t {
                hi = mid;
            } else {
                lo = mid + 1;
            }
        }
        Some(lo)
    }
}

} // verus!
