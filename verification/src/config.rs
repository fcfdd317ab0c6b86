//! Configuration for the integer-valued pipeline components.
//!
//! The trigger-detector settings carry a floating-point filter cutoff and so
//! live with the unverified process code; only the plain-valued sections are
//! modelled here.

use vstd::prelude::*;

verus! {

/// Settings for the periodic statistics reporter.
pub struct StatisticsConfig {
    pub report_interval_ms: u32,
    pub enabled: bool,
}

impl Default for StatisticsConfig {
    fn default() -> (c: StatisticsConfig)
        ensures
            c.report_interval_ms == 10000,
            !c.enabled,
    {
        StatisticsConfig { report_interval_ms: 10000, enabled: false }
    }
}

/// Settings for the optional raw-sample recorder.
pub struct RawDataRecorderConfig {
    pub filename: String,
    pub enabled: bool,
}

impl Default for RawDataRecorderConfig {
    fn default() -> (c: RawDataRecorderConfig)
        ensures
            c.filename@ == "raw_data.txt"@,
            !c.enabled,
    {
        RawDataRecorderConfig { filename: "raw_data.txt".to_owned(), enabled: false }
    }
}

} // verus!
