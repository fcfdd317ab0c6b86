//! Periodic per-axis statistics over the filtered channels.
//!
//! Each record's three filtered samples are folded into per-axis
//! accumulators. Every thousandth record the accumulators are handed out as
//! a report and reset; the process code formats the report (mean and RMS are
//! floating-point presentation).

use vstd::prelude::*;

use crate::config::StatisticsConfig;
use crate::record::Record;
use crate::statistics::spec_stats_add;
use crate::statistics::spec_stats_empty;
use crate::statistics::Statistics;

verus! {

/// How many records one reporting period spans.
pub const REPORT_SAMPLE_COUNT: u32 = 1000;

/// The three per-axis accumulators of one elapsed period.
#[derive(Debug, Clone, Copy, PartialEq, Eq, Structural)]
pub struct StatsReport {
    pub x: Statistics,
    pub y: Statistics,
    pub z: Statistics,
}

/// Collects per-axis statistics and emits a report each period.
pub struct StatisticsReporter {
    pub x_stats: Statistics,
    pub y_stats: Statistics,
    pub z_stats: Statistics,
    pub start_time_us: u32,
    pub reset_interval_ms: u32,
}

impl StatisticsReporter {
    /// The axes advance in lockstep and a period is never overshot.
    pub open spec fn well_formed(self) -> bool {
        &&& self.x_stats.well_formed()
        &&& self.y_stats.well_formed()
        &&& self.z_stats.well_formed()
        &&& self.x_stats.count == self.y_stats.count
        &&& self.y_stats.count == self.z_stats.count
        &&& self.z_stats.count < REPORT_SAMPLE_COUNT
    }

    /// A reporter at the start of its first period.
    pub fn new(cfg: &StatisticsConfig) -> (r: StatisticsReporter)
        ensures
            r.well_formed(),
            r.x_stats == spec_stats_empty(),
            r.y_stats == spec_stats_empty(),
            r.z_stats == spec_stats_empty(),
            r.start_time_us == 0,
            r.reset_interval_ms == cfg.report_interval_ms,
    {
        StatisticsReporter {
            x_stats: Statistics::new(),
            y_stats: Statistics::new(),
            z_stats: Statistics::new(),
            reset_interval_ms: cfg.report_interval_ms,
            start_time_us: 0,
        }
    }

    /// Fold one record's filtered channels in; on the record that completes
    /// a period, hand the period's accumulators out and start the next
    /// period empty.
    pub fn handle(&mut self, record: &Record) -> (report: Option<StatsReport>)
        requires
            old(self).well_formed(),
        ensures
            final(self).well_formed(),
            final(self).start_time_us == old(self).start_time_us,
            final(self).reset_interval_ms == old(self).reset_interval_ms,
            ({
                let sx = spec_stats_add(old(self).x_stats, record.x_filt);
                let sy = spec_stats_add(old(self).y_stats, record.y_filt);
                let sz = spec_stats_add(old(self).z_stats, record.z_filt);
                if sz.count >= REPORT_SAMPLE_COUNT {
                    report == Some(StatsReport { x: sx, y: sy, z: sz })
                        && final(self).x_stats == spec_stats_empty()
                        && final(self).y_stats == spec_stats_empty()
                        && final(self).z_stats == spec_stats_empty()
                } else {
                    report is None && final(self).x_stats == sx && final(self).y_stats == sy
                        && final(self).z_stats == sz
                }
            }),
    {
        self.x_stats.add(record.x_filt);
        self.y_stats.add(record.y_filt);
        self.z_stats.add(record.z_filt);

        if self.z_stats.count >= REPORT_SAMPLE_COUNT {
            let report = StatsReport { x: self.x_stats, y: self.y_stats, z: self.z_stats };
            self.x_stats.reset();
            self.y_stats.reset();
            self.z_stats.reset();
            Some(report)
        } else {
            None
        }
    }
}

} // verus!
