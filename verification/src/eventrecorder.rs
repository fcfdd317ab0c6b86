//! The pre/post-trigger recording state machine.
//!
//! While no event is active, incoming records accumulate in a time-bounded
//! pre-roll buffer; entries older than `pre_trigger_time_us` relative to the
//! newest record are aged out. When the detector fires, the surviving
//! pre-roll is flushed to the writer, the triggering record is written with
//! the trigger mark set, and every further record is written (unmarked) until
//! a non-triggering record arrives strictly more than `post_trigger_time_us`
//! after the last positive verdict. A positive verdict inside that window
//! extends the event without a new mark.

use std::collections::VecDeque;
use vstd::prelude::*;

use crate::record::Record;
use crate::triggerdetector::TriggerDetector;

verus! {

/// A source of trigger verdicts, one per record.
///
/// Implementations are free; nothing is assumed about the verdicts. The
/// state machine is specified for every possible verdict sequence.
pub trait Detector {
    fn detect(&mut self, record: &Record) -> bool;
}

impl Detector for TriggerDetector {
    /// A detector in a broken state reports no trigger rather than
    /// misbehave.
    fn detect(&mut self, record: &Record) -> bool {
        if self.x_detector.is_well_formed() && self.y_detector.is_well_formed()
            && self.z_detector.is_well_formed() {
            TriggerDetector::detect(self, record)
        } else {
            false
        }
    }
}

/// A sink for output records; `written` is the sequence it has received,
/// each with its trigger mark.
pub trait Writer {
    spec fn written(&self) -> Seq<(Record, bool)>;

    fn write_record(&mut self, record: &Record, trigger: bool)
        ensures
            final(self).written() == old(self).written().push((*record, trigger)),
    ;
}

/// An in-memory writer: it simply remembers every record it was handed.
///
/// The process code drains it after each step to feed the event file; tests
/// read it back directly.
pub struct RecordLog {
    pub records: Vec<(Record, bool)>,
}

impl RecordLog {
    pub fn new() -> (log: RecordLog)
        ensures
            log.records@ == Seq::<(Record, bool)>::empty(),
    {
        RecordLog { records: Vec::new() }
    }

    /// Hand out everything received so far and start over empty.
    pub fn take(&mut self) -> (out: Vec<(Record, bool)>)
        ensures
            out@ == old(self).records@,
            final(self).records@ == Seq::<(Record, bool)>::empty(),
    {
        let mut out: Vec<(Record, bool)> = Vec::new();
        core::mem::swap(&mut out, &mut self.records);
        out
    }
}

impl Writer for RecordLog {
    open spec fn written(&self) -> Seq<(Record, bool)> {
        self.records@
    }

    fn write_record(&mut self, record: &Record, trigger: bool) {
        self.records.push((*record, trigger));
    }
}

/// Timestamps never decrease along the sequence.
pub open spec fn timestamps_sorted(s: Seq<Record>) -> bool {
    forall|i: int, j: int|
        #![trigger s[i], s[j]]
        0 <= i <= j < s.len() ==> s[i].timestamp_us <= s[j].timestamp_us
}

/// Every record of `s` is at most `pre_us` older than `latest_us`.
pub open spec fn within_pre_window(s: Seq<Record>, latest_us: u64, pre_us: u64) -> bool {
    forall|i: int|
        0 <= i < s.len() ==> (#[trigger] s[i].timestamp_us) <= latest_us && latest_us - s[
            i
        ].timestamp_us <= pre_us
}

/// Age-out of the pre-roll: drop contiguous head entries more than `pre_us`
/// older than `now_us`.
pub open spec fn spec_aged(s: Seq<Record>, now_us: u64, pre_us: u64) -> Seq<Record>
    decreases s.len(),
{
    if s.len() > 0 && now_us - s[0].timestamp_us > pre_us {
        spec_aged(s.drop_first(), now_us, pre_us)
    } else {
        s
    }
}

/// Pre-roll entries are flushed unmarked.
pub open spec fn spec_flushed(s: Seq<Record>) -> Seq<(Record, bool)> {
    s.map_values(|r: Record| (r, false))
}

/// The aged pre-roll is a suffix of the original, and its head (hence, for a
/// sorted buffer, all of it) is within the age bound.
pub proof fn lemma_aged_is_fresh_suffix(s: Seq<Record>, now_us: u64, pre_us: u64)
    ensures
        spec_aged(s, now_us, pre_us).len() <= s.len(),
        forall|i: int|
            0 <= i < spec_aged(s, now_us, pre_us).len() ==> spec_aged(s, now_us, pre_us)[i] == s[
                s.len() - spec_aged(s, now_us, pre_us).len() + i
            ],
        spec_aged(s, now_us, pre_us).len() > 0 ==> now_us - spec_aged(
            s,
            now_us,
            pre_us,
        )[0].timestamp_us <= pre_us,
    decreases s.len(),
{
    if s.len() > 0 && now_us - s[0].timestamp_us > pre_us {
        lemma_aged_is_fresh_suffix(s.drop_first(), now_us, pre_us);
    }
}

/// State of the recorder after one trigger verdict at time `ts`: a positive
/// verdict (re)arms the event; a negative one keeps it armed only within the
/// post-trigger window.
pub open spec fn spec_triggered_after(
    was_triggered: bool,
    last_trigger_us: u64,
    post_us: u64,
    ts: u64,
    detected: bool,
) -> bool {
    if detected {
        true
    } else if was_triggered {
        ts - last_trigger_us <= post_us
    } else {
        false
    }
}

/// The last positive-verdict time after a verdict at `ts`.
pub open spec fn spec_last_trigger_after(last_trigger_us: u64, ts: u64, detected: bool) -> u64 {
    if detected {
        ts
    } else {
        last_trigger_us
    }
}

/// The recording state machine around a detector and a writer.
pub struct EventRecorder<D: Detector, W: Writer> {
    pub triggerdetector: D,
    pub data_writer: W,
    /// Time window of data to keep before a trigger event, microseconds.
    pub pre_trigger_time_us: u64,
    /// Time the event stays armed after the last positive verdict, microseconds.
    pub post_trigger_time_us: u64,
    /// Time of the most recent positive verdict, microseconds.
    pub last_trigger_time_us: u64,
    /// Timestamp of the most recently handled record, microseconds.
    pub latest_timestamp_us: u64,
    pub pre_trigger_buffer: VecDeque<Record>,
    pub triggered: bool,
}

impl<D: Detector, W: Writer> EventRecorder<D, W> {
    /// Invariant between steps: the pre-roll is sorted and no newer than the
    /// last record, and while an event is active the pre-roll is empty and
    /// the last positive verdict is no newer than the last record.
    pub open spec fn well_formed(self) -> bool {
        &&& timestamps_sorted(self.pre_trigger_buffer@)
        &&& forall|i: int|
            0 <= i < self.pre_trigger_buffer@.len() ==> (
            #[trigger] self.pre_trigger_buffer@[i].timestamp_us) <= self.latest_timestamp_us
        &&& self.last_trigger_time_us <= self.latest_timestamp_us
        &&& (self.triggered ==> self.pre_trigger_buffer@.len() == 0)
    }

    /// A recorder with no history; the trigger windows are given in
    /// milliseconds, as configured.
    pub fn new(triggerdetector: D, data_writer: W, pre_trigger_time_ms: u32, post_trigger_time_ms: u32) -> (r:
        EventRecorder<D, W>)
        ensures
            r.well_formed(),
            r.triggerdetector == triggerdetector,
            r.data_writer == data_writer,
            r.pre_trigger_time_us == pre_trigger_time_ms as u64 * 1000,
            r.post_trigger_time_us == post_trigger_time_ms as u64 * 1000,
            r.last_trigger_time_us == 0,
            r.latest_timestamp_us == 0,
            r.pre_trigger_buffer@ == Seq::<Record>::empty(),
            !r.triggered,
    {
        EventRecorder {
            triggerdetector,
            data_writer,
            pre_trigger_time_us: pre_trigger_time_ms as u64 * 1000,
            post_trigger_time_us: post_trigger_time_ms as u64 * 1000,
            last_trigger_time_us: 0,
            latest_timestamp_us: 0,
            pre_trigger_buffer: VecDeque::new(),
            triggered: false,
        }
    }

    /// Feed one record to the detector and update the armed state.
    ///
    /// Which verdict the detector returns is not specified, but for either
    /// verdict the armed state and the last-trigger time follow the
    /// post-trigger window rule exactly.
    pub fn check_trigger_status(&mut self, record: &Record)
        requires
            old(self).well_formed(),
            record.timestamp_us >= old(self).latest_timestamp_us,
        ensures
            (final(self).triggered == spec_triggered_after(
                old(self).triggered,
                old(self).last_trigger_time_us,
                old(self).post_trigger_time_us,
                record.timestamp_us,
                true,
            ) && final(self).last_trigger_time_us == spec_last_trigger_after(
                old(self).last_trigger_time_us,
                record.timestamp_us,
                true,
            )) || (final(self).triggered == spec_triggered_after(
                old(self).triggered,
                old(self).last_trigger_time_us,
                old(self).post_trigger_time_us,
                record.timestamp_us,
                false,
            ) && final(self).last_trigger_time_us == spec_last_trigger_after(
                old(self).last_trigger_time_us,
                record.timestamp_us,
                false,
            )),
            final(self).last_trigger_time_us <= record.timestamp_us,
            final(self).triggered ==> old(self).triggered || final(self).last_trigger_time_us
                == record.timestamp_us,
            final(self).latest_timestamp_us == record.timestamp_us,
            final(self).data_writer == old(self).data_writer,
            final(self).pre_trigger_buffer == old(self).pre_trigger_buffer,
            final(self).pre_trigger_time_us == old(self).pre_trigger_time_us,
            final(self).post_trigger_time_us == old(self).post_trigger_time_us,
    {
        let triggered = self.triggerdetector.detect(record);

        if triggered {
            self.last_trigger_time_us = record.timestamp_us;
            self.triggered = true;
        } else if self.triggered {
            let delta_us = record.timestamp_us - self.last_trigger_time_us;
            self.triggered = delta_us <= self.post_trigger_time_us;
        }
        self.latest_timestamp_us = record.timestamp_us;
    }

    /// Drop contiguous pre-roll head entries aged more than
    /// `pre_trigger_time_us` at time `timestamp_us`.
    pub fn clean_pre_trigger_buffer(&mut self, timestamp_us: u64)
        requires
            timestamps_sorted(old(self).pre_trigger_buffer@),
            forall|i: int|
                0 <= i < old(self).pre_trigger_buffer@.len() ==> (#[trigger] old(
                    self,
                ).pre_trigger_buffer@[i].timestamp_us) <= timestamp_us,
        ensures
            final(self).pre_trigger_buffer@ == spec_aged(
                old(self).pre_trigger_buffer@,
                timestamp_us,
                old(self).pre_trigger_time_us,
            ),
            final(self).triggerdetector == old(self).triggerdetector,
            final(self).data_writer == old(self).data_writer,
            final(self).pre_trigger_time_us == old(self).pre_trigger_time_us,
            final(self).post_trigger_time_us == old(self).post_trigger_time_us,
            final(self).last_trigger_time_us == old(self).last_trigger_time_us,
            final(self).latest_timestamp_us == old(self).latest_timestamp_us,
            final(self).triggered == old(self).triggered,
    {
        let ghost target = spec_aged(
            old(self).pre_trigger_buffer@,
            timestamp_us,
            old(self).pre_trigger_time_us,
        );
        while self.pre_trigger_buffer.len() > 0 && timestamp_us - self.pre_trigger_buffer[
            0
        ].timestamp_us > self.pre_trigger_time_us
            invariant
                *self == (EventRecorder {
                    pre_trigger_buffer: self.pre_trigger_buffer,
                    ..*old(self)
                }),
                forall|i: int|
                    0 <= i < self.pre_trigger_buffer@.len() ==> (
                    #[trigger] self.pre_trigger_buffer@[i].timestamp_us) <= timestamp_us,
                target == spec_aged(
                    self.pre_trigger_buffer@,
                    timestamp_us,
                    self.pre_trigger_time_us,
                ),
            decreases self.pre_trigger_buffer.len(),
        {
            self.pre_trigger_buffer.pop_front();
        }
    }

    /// Process one record: update the armed state from the detector verdict,
    /// age out the pre-roll, and route the record.
    ///
    /// Outcomes, writing `aged` for the pre-roll after age-out at this
    /// record's time:
    /// - event inactive afterwards: nothing is written and the record joins
    ///   the aged pre-roll;
    /// - event already active: exactly this record is written, unmarked;
    /// - event starts here: the aged pre-roll is flushed unmarked, then this
    ///   record is written with the trigger mark.
    ///
    /// Afterwards the pre-roll never reaches further back than
    /// `pre_trigger_time_us` before this record.
    pub fn handle(&mut self, record: &Record)
        requires
            old(self).well_formed(),
            record.timestamp_us >= old(self).latest_timestamp_us,
        ensures
            final(self).well_formed(),
            final(self).latest_timestamp_us == record.timestamp_us,
            final(self).pre_trigger_time_us == old(self).pre_trigger_time_us,
            final(self).post_trigger_time_us == old(self).post_trigger_time_us,
            (final(self).triggered == spec_triggered_after(
                old(self).triggered,
                old(self).last_trigger_time_us,
                old(self).post_trigger_time_us,
                record.timestamp_us,
                true,
            ) && final(self).last_trigger_time_us == spec_last_trigger_after(
                old(self).last_trigger_time_us,
                record.timestamp_us,
                true,
            )) || (final(self).triggered == spec_triggered_after(
                old(self).triggered,
                old(self).last_trigger_time_us,
                old(self).post_trigger_time_us,
                record.timestamp_us,
                false,
            ) && final(self).last_trigger_time_us == spec_last_trigger_after(
                old(self).last_trigger_time_us,
                record.timestamp_us,
                false,
            )),
            within_pre_window(
                final(self).pre_trigger_buffer@,
                final(self).latest_timestamp_us,
                final(self).pre_trigger_time_us,
            ),
            !final(self).triggered ==> final(self).pre_trigger_buffer@ == spec_aged(
                old(self).pre_trigger_buffer@,
                record.timestamp_us,
                old(self).pre_trigger_time_us,
            ).push(*record) && final(self).data_writer.written() == old(
                self,
            ).data_writer.written(),
            final(self).triggered && old(self).triggered ==> final(self).pre_trigger_buffer@
                == Seq::<Record>::empty() && final(self).data_writer.written() == old(
                self,
            ).data_writer.written().push((*record, false)),
            final(self).triggered && !old(self).triggered ==> final(self).pre_trigger_buffer@
                == Seq::<Record>::empty() && final(self).data_writer.written() == old(
                self,
            ).data_writer.written() + spec_flushed(
                spec_aged(
                    old(self).pre_trigger_buffer@,
                    record.timestamp_us,
                    old(self).pre_trigger_time_us,
                ),
            ) + seq![(*record, true)],
    {
        let ghost aged = spec_aged(
            old(self).pre_trigger_buffer@,
            record.timestamp_us,
            old(self).pre_trigger_time_us,
        );
        proof {
            lemma_aged_is_fresh_suffix(
                old(self).pre_trigger_buffer@,
                record.timestamp_us,
                old(self).pre_trigger_time_us,
            );
        }
        let prev_triggered = self.triggered;
        self.check_trigger_status(record);
        let new_event = self.triggered && prev_triggered != self.triggered;

        self.clean_pre_trigger_buffer(record.timestamp_us);

        if new_event {
            let ghost w0 = self.data_writer.written();
            let ghost b0 = self.pre_trigger_buffer@;
            while self.pre_trigger_buffer.len() > 0
                invariant
                    self.pre_trigger_buffer@.len() <= b0.len(),
                    self.pre_trigger_buffer@ == b0.skip(
                        b0.len() - self.pre_trigger_buffer@.len(),
                    ),
                    self.data_writer.written() == w0 + spec_flushed(
                        b0.take(b0.len() - self.pre_trigger_buffer@.len()),
                    ),
                    self.triggered,
                    (self.triggered == spec_triggered_after(
                        old(self).triggered,
                        old(self).last_trigger_time_us,
                        old(self).post_trigger_time_us,
                        record.timestamp_us,
                        true,
                    ) && self.last_trigger_time_us == spec_last_trigger_after(
                        old(self).last_trigger_time_us,
                        record.timestamp_us,
                        true,
                    )) || (self.triggered == spec_triggered_after(
                        old(self).triggered,
                        old(self).last_trigger_time_us,
                        old(self).post_trigger_time_us,
                        record.timestamp_us,
                        false,
                    ) && self.last_trigger_time_us == spec_last_trigger_after(
                        old(self).last_trigger_time_us,
                        record.timestamp_us,
                        false,
                    )),
                    self.pre_trigger_time_us == old(self).pre_trigger_time_us,
                    self.post_trigger_time_us == old(self).post_trigger_time_us,
                    self.last_trigger_time_us <= record.timestamp_us,
                    self.latest_timestamp_us == record.timestamp_us,
                decreases self.pre_trigger_buffer.len(),
            {
                let ghost k = b0.len() - self.pre_trigger_buffer@.len();
                let entry = self.pre_trigger_buffer.pop_front().unwrap();
                proof {
                    assert(entry == b0[k]);
                    assert(self.pre_trigger_buffer@ =~= b0.skip(k + 1));
                }
                self.data_writer.write_record(&entry, false);
                proof {
                    assert(b0.take(k + 1) =~= b0.take(k).push(b0[k]));
                    assert(spec_flushed(b0.take(k + 1)) =~= spec_flushed(b0.take(k)).push(
                        (b0[k], false),
                    ));
                }
            }
            proof {
                assert(b0.take(b0.len() as int) =~= b0);
            }
        }

        if !self.triggered {
            self.pre_trigger_buffer.push_back(*record);
            proof {
                assert forall|i: int|
                    0 <= i < self.pre_trigger_buffer@.len() implies (
                #[trigger] self.pre_trigger_buffer@[i].timestamp_us) <= record.timestamp_us
                    && record.timestamp_us - self.pre_trigger_buffer@[i].timestamp_us <= self.pre_trigger_time_us by {
                    if i < aged.len() {
                        assert(self.pre_trigger_buffer@[i] == aged[i]);
                        if aged.len() > 0 {
                            assert(aged[0].timestamp_us <= aged[i].timestamp_us);
                        }
                    }
                }
            }
        } else {
            self.data_writer.write_record(record, new_event);
        }
    }
}

} // verus!
