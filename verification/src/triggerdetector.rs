//! Per-channel delta-window trigger and the record-level detector.
//!
//! A channel detector keeps the last `W` filtered samples in a fixed ring and
//! reports a trigger when the peak-to-peak range of the window strictly
//! exceeds the channel's threshold. The record-level detector runs one such
//! window per axis and reports the logical OR; every axis is fed on every
//! record so the channel states stay aligned.
//!
//! Smoothing of the raw channel values (a floating-point low-pass filter) is
//! not modelled here: callers hand each channel the already filtered and
//! rounded integer sample.

use vstd::prelude::*;

use crate::record::Record;

verus! {

/// Mathematical state of one channel detector.
#[verifier::ext_equal]
pub ghost struct ChannelState {
    pub window: Seq<i32>,
    pub index: int,
    pub full: bool,
    pub threshold: int,
}

/// Does some pair of samples in the window differ by more than `threshold`?
///
/// This is the window's peak-to-peak range test: it holds exactly when
/// `max(window) - min(window) > threshold`.
pub open spec fn spec_range_exceeds(window: Seq<i32>, threshold: int) -> bool {
    exists|i: int, j: int|
        #![trigger window[i], window[j]]
        0 <= i < window.len() && 0 <= j < window.len() && window[i] - window[j] > threshold
}

/// One step of the channel detector: write the sample at the cursor, advance
/// the cursor modulo the window size, and latch the window-full flag once the
/// cursor wraps.
pub open spec fn spec_channel_step(s: ChannelState, value: i32) -> ChannelState {
    let next = if s.index + 1 == s.window.len() {
        0int
    } else {
        s.index + 1
    };
    ChannelState {
        window: s.window.update(s.index, value),
        index: next,
        full: s.full || next == 0,
        threshold: s.threshold,
    }
}

/// The verdict a channel reports after a step: only a full window can
/// trigger, and it triggers exactly when its range strictly exceeds the
/// threshold.
pub open spec fn spec_channel_triggered(s: ChannelState) -> bool {
    s.full && spec_range_exceeds(s.window, s.threshold)
}

/// Delta-window trigger detector for a single axis.
pub struct ChannelTriggerDetector {
    pub delta_window: Vec<i32>,
    pub delta_index: usize,
    pub delta_buffer_full: bool,
    pub threshold: i32,
}

impl View for ChannelTriggerDetector {
    type V = ChannelState;

    open spec fn view(&self) -> ChannelState {
        ChannelState {
            window: self.delta_window@,
            index: self.delta_index as int,
            full: self.delta_buffer_full,
            threshold: self.threshold as int,
        }
    }
}

impl ChannelTriggerDetector {
    /// The ring never changes size and the cursor stays inside it.
    pub open spec fn well_formed(self) -> bool {
        self.delta_window.len() >= 1 && self.delta_index < self.delta_window.len()
    }

    /// Runtime check of the invariant, for entry points that cannot assume
    /// it.
    pub fn is_well_formed(&self) -> (r: bool)
        ensures
            r == self.well_formed(),
    {
        self.delta_index < self.delta_window.len()
    }

    /// A detector with an all-zero, not yet full window.
    pub fn new(threshold: i32, delta_window_size: usize) -> (d: ChannelTriggerDetector)
        requires
            delta_window_size >= 1,
        ensures
            d.well_formed(),
            d@.window == Seq::new(delta_window_size as nat, |i: int| 0i32),
            d@.index == 0,
            !d@.full,
            d@.threshold == threshold,
    {
        ChannelTriggerDetector {
            delta_window: vec![0i32; delta_window_size],
            delta_index: 0,
            delta_buffer_full: false,
            threshold,
        }
    }

    /// Insert one filtered sample and report the window's verdict.
    ///
    /// Until the ring has wrapped once the verdict is always `false`. Once it
    /// is full, the verdict is `true` exactly when two samples of the updated
    /// window differ by more than the threshold.
    pub fn add_sample(&mut self, value: i32) -> (triggered: bool)
        requires
            old(self).well_formed(),
        ensures
            final(self).well_formed(),
            final(self)@ == spec_channel_step(old(self)@, value),
            triggered == spec_channel_triggered(final(self)@),
    {
        let len = self.delta_window.len();
        self.delta_window[self.delta_index] = value;
        self.delta_index = (self.delta_index + 1) % len;
        self.delta_buffer_full = self.delta_buffer_full || (self.delta_index == 0);
        let ghost stepped = spec_channel_step(old(self)@, value);
        proof {
            let oi = old(self).delta_index as nat;
            if oi + 1 == len {
                vstd::arithmetic::div_mod::lemma_mod_self_0(len as int);
            } else {
                vstd::arithmetic::div_mod::lemma_small_mod(oi + 1, len as nat);
            }
            assert(self@ =~= stepped);
        }

        if !self.delta_buffer_full {
            return false;
        }

        let mut min: i32 = i32::MAX;
        let mut max: i32 = i32::MIN;
        let ghost win = self.delta_window@;
        let ghost mut min_at: int = 0;
        let ghost mut max_at: int = 0;
        let mut k: usize = 0;
        while k < len
            invariant
                self@ == stepped,
                stepped == spec_channel_step(old(self)@, value),
                self.well_formed(),
                self.delta_buffer_full,
                len == win.len(),
                win == self.delta_window@,
                0 <= k <= len,
                forall|i: int| 0 <= i < k ==> min as int <= #[trigger] win[i] <= max as int,
                k == 0 ==> min == i32::MAX && max == i32::MIN && min_at == 0 && max_at == 0,
                k > 0 ==> 0 <= min_at < k && win[min_at] == min,
                k > 0 ==> 0 <= max_at < k && win[max_at] == max,
                max as int - min as int <= self.threshold as int,
            decreases len - k,
        {
            let v = self.delta_window[k];
            if v < min {
                min = v;
                proof {
                    min_at = k as int;
                }
            }
            if v > max {
                max = v;
                proof {
                    max_at = k as int;
                }
            }
            if (max as i64 - min as i64) > self.threshold as i64 {
                proof {
                    assert(0 <= min_at < win.len() && win[min_at] == min);
                    assert(0 <= max_at < win.len() && win[max_at] == max);
                    assert(win[max_at] - win[min_at] > self@.threshold);
                    assert(spec_range_exceeds(win, self@.threshold));
                }
                return true;
            }
            k = k + 1;
        }
        proof {
            assert forall|i: int, j: int|
                #![trigger win[i], win[j]]
                0 <= i < win.len() && 0 <= j < win.len() implies win[i] - win[j]
                <= self@.threshold by {
                assert(win[i] <= max as int);
                assert(win[j] >= min as int);
            }
        }
        false
    }
}

/// Record-level trigger detector: one delta window per axis.
pub struct TriggerDetector {
    pub x_detector: ChannelTriggerDetector,
    pub y_detector: ChannelTriggerDetector,
    pub z_detector: ChannelTriggerDetector,
}

impl TriggerDetector {
    pub open spec fn well_formed(self) -> bool {
        self.x_detector.well_formed() && self.y_detector.well_formed()
            && self.z_detector.well_formed()
    }

    /// Three fresh channel detectors sharing one window size.
    pub fn new(
        x_trigger_level: i32,
        y_trigger_level: i32,
        z_trigger_level: i32,
        delta_window: usize,
    ) -> (d: TriggerDetector)
        requires
            delta_window >= 1,
        ensures
            d.well_formed(),
            d.x_detector@.window == Seq::new(delta_window as nat, |i: int| 0i32),
            d.y_detector@.window == Seq::new(delta_window as nat, |i: int| 0i32),
            d.z_detector@.window == Seq::new(delta_window as nat, |i: int| 0i32),
            d.x_detector@.index == 0 && !d.x_detector@.full,
            d.y_detector@.index == 0 && !d.y_detector@.full,
            d.z_detector@.index == 0 && !d.z_detector@.full,
            d.x_detector@.threshold == x_trigger_level,
            d.y_detector@.threshold == y_trigger_level,
            d.z_detector@.threshold == z_trigger_level,
    {
        TriggerDetector {
            x_detector: ChannelTriggerDetector::new(x_trigger_level, delta_window),
            y_detector: ChannelTriggerDetector::new(y_trigger_level, delta_window),
            z_detector: ChannelTriggerDetector::new(z_trigger_level, delta_window),
        }
    }

    /// Feed the three filtered channels of one record and OR the verdicts.
    ///
    /// Every channel is fed even when an earlier axis already triggered, so
    /// the window states stay aligned across axes.
    pub fn detect(&mut self, record: &Record) -> (triggered: bool)
        requires
            old(self).well_formed(),
        ensures
            final(self).well_formed(),
            final(self).x_detector@ == spec_channel_step(old(self).x_detector@, record.x_filt),
            final(self).y_detector@ == spec_channel_step(old(self).y_detector@, record.y_filt),
            final(self).z_detector@ == spec_channel_step(old(self).z_detector@, record.z_filt),
            triggered == (spec_channel_triggered(final(self).x_detector@)
                || spec_channel_triggered(final(self).y_detector@) || spec_channel_triggered(
                final(self).z_detector@,
            )),
    {
        let x_triggered = self.x_detector.add_sample(record.x_filt);
        let y_triggered = self.y_detector.add_sample(record.y_filt);
        let z_triggered = self.z_detector.add_sample(record.z_filt);
        x_triggered || y_triggered || z_triggered
    }
}

} // verus!
