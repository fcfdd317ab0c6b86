//! A consumer of the record stream.
//!
//! Each worker drains its own inbox and hands every record to a handler.
//! The polling loop itself (receive with a timeout, watch the shutdown
//! flag) is process code; the handlers are the library's.

use vstd::prelude::*;

use crate::eventrecorder::Detector;
use crate::eventrecorder::EventRecorder;
use crate::eventrecorder::Writer;
use crate::record::Record;
use crate::statisticsreporter::StatisticsReporter;

verus! {

/// One consumer of the record stream.
pub trait RecordHandler {
    fn handle(&mut self, record: &Record);
}

proof fn lemma_sorted_chain(s: Seq<Record>, i: int, j: int)
    requires
        forall|k: int| 1 <= k < s.len() ==> (#[trigger] s[k].timestamp_us) >= s[k - 1].timestamp_us,
        0 <= i <= j < s.len(),
    ensures
        s[i].timestamp_us <= s[j].timestamp_us,
    decreases j - i,
{
    if i < j {
        lemma_sorted_chain(s, i, j - 1);
    }
}

impl<D: Detector, W: Writer> EventRecorder<D, W> {
    /// Runtime check of the recorder's invariant, for entry points that
    /// cannot assume it.
    pub fn is_well_formed(&self) -> (r: bool)
        ensures
            r == self.well_formed(),
    {
        if self.last_trigger_time_us > self.latest_timestamp_us {
            return false;
        }
        if self.triggered && self.pre_trigger_buffer.len() > 0 {
            return false;
        }
        let len = self.pre_trigger_buffer.len();
        let mut k: usize = 1;
        while k < len
            invariant
                1 <= k <= len || len == 0,
                len == self.pre_trigger_buffer@.len(),
                forall|i: int|
                    1 <= i < k ==> (#[trigger] self.pre_trigger_buffer@[i].timestamp_us)
                        >= self.pre_trigger_buffer@[i - 1].timestamp_us,
                self.last_trigger_time_us <= self.latest_timestamp_us,
                self.triggered ==> len == 0,
            decreases len - k,
        {
            if self.pre_trigger_buffer[k].timestamp_us < self.pre_trigger_buffer[
                k - 1
            ].timestamp_us {
                return false;
            }
            k = k + 1;
        }
        if len > 0 && self.pre_trigger_buffer[len - 1].timestamp_us > self.latest_timestamp_us {
            return false;
        }
        proof {
            assert forall|i: int, j: int|
                #![trigger self.pre_trigger_buffer@[i], self.pre_trigger_buffer@[j]]
                0 <= i <= j < len implies self.pre_trigger_buffer@[i].timestamp_us
                <= self.pre_trigger_buffer@[j].timestamp_us by {
                lemma_sorted_chain(self.pre_trigger_buffer@, i, j);
            }
            if len > 0 {
                assert forall|i: int| 0 <= i < len implies (
                #[trigger] self.pre_trigger_buffer@[i].timestamp_us)
                    <= self.latest_timestamp_us by {
                    lemma_sorted_chain(self.pre_trigger_buffer@, i, len - 1);
                }
            }
        }
        true
    }
}

impl<D: Detector, W: Writer> RecordHandler for EventRecorder<D, W> {
    /// Records that would run the recorder's clock backwards, or reach a
    /// recorder in a broken state, are ignored rather than mishandled.
    fn handle(&mut self, record: &Record) {
        if self.is_well_formed() && record.timestamp_us >= self.latest_timestamp_us {
            EventRecorder::handle(self, record);
        }
    }
}

impl RecordHandler for StatisticsReporter {
    /// The report, if this record completes a period, is dropped here; a
    /// worker that wants it calls the reporter's own method. A reporter in
    /// a broken state ignores the record.
    fn handle(&mut self, record: &Record) {
        if self.x_stats.is_well_formed() && self.y_stats.is_well_formed()
            && self.z_stats.is_well_formed() && self.x_stats.count == self.y_stats.count
            && self.y_stats.count == self.z_stats.count && self.z_stats.count
            < crate::statisticsreporter::REPORT_SAMPLE_COUNT {
            StatisticsReporter::handle(self, record);
        }
    }
}

} // verus!
