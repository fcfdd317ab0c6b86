use std::collections::VecDeque;

use seismometer::Detector;
use seismometer::EventRecorder;
use seismometer::Record;
use seismometer::RecordHandler;
use seismometer::RecordLog;

struct TestDetector {
    triggered: bool,
}

impl Detector for TestDetector {
    fn detect(&mut self, _: &Record) -> bool {
        self.triggered
    }
}

struct TestContext {
    recorder: EventRecorder<TestDetector, RecordLog>,
    record: Record,
}

impl TestContext {
    fn new() -> TestContext {
        let recorder = EventRecorder {
            triggerdetector: TestDetector { triggered: false },
            data_writer: RecordLog::new(),
            pre_trigger_time_us: 1250,
            post_trigger_time_us: 1500,
            pre_trigger_buffer: VecDeque::with_capacity(128),
            last_trigger_time_us: 0,
            latest_timestamp_us: 0,
            triggered: false,
        };

        TestContext { recorder, record: Record::default() }
    }

    fn written_timestamps(&self) -> Vec<u64> {
        self.recorder.data_writer.records.iter().map(|(r, _)| r.timestamp_us).collect()
    }
}

#[test]
fn check_trigger_status() {
    let mut ctx = TestContext::new();

    // First check a false trigger
    ctx.recorder.check_trigger_status(&ctx.record);
    assert_eq!(ctx.recorder.triggered, false);

    // Next a true trigger
    ctx.record.timestamp_us = 2000;
    ctx.recorder.triggerdetector.triggered = true;
    ctx.recorder.check_trigger_status(&ctx.record);
    assert_eq!(ctx.recorder.triggered, true);

    // The trigger should remain active for the next 1500 us, even when the source is gone
    ctx.recorder.triggerdetector.triggered = false;
    ctx.record.timestamp_us += ctx.recorder.post_trigger_time_us;
    ctx.recorder.check_trigger_status(&ctx.record);
    assert_eq!(ctx.recorder.triggered, true);

    // But it should reset after the post trigger time
    ctx.record.timestamp_us += 1;
    ctx.recorder.check_trigger_status(&ctx.record);
    assert_eq!(ctx.recorder.triggered, false);
}

#[test]
fn check_trigger_status_retrigger_in_post_trigger_time() {
    let mut ctx = TestContext::new();

    ctx.recorder.triggerdetector.triggered = true;
    ctx.record.timestamp_us = 12345;
    ctx.recorder.check_trigger_status(&ctx.record);
    assert_eq!(ctx.recorder.triggered, true);

    // The trigger should remain active for the next 1500 us, even when the source is gone
    ctx.recorder.triggerdetector.triggered = false;
    ctx.record.timestamp_us += ctx.recorder.post_trigger_time_us;
    ctx.recorder.check_trigger_status(&ctx.record);
    assert_eq!(ctx.recorder.triggered, true);

    // Now we retrigger on the verge of the post trigger time
    ctx.recorder.triggerdetector.triggered = true;
    ctx.record.timestamp_us += 1;
    ctx.recorder.check_trigger_status(&ctx.record);
    assert_eq!(ctx.recorder.triggered, true);

    // For good measure check the trigger ends after the post trigger time
    ctx.recorder.triggerdetector.triggered = false;

    // First just before it should  reset
    ctx.record.timestamp_us += ctx.recorder.post_trigger_time_us;
    ctx.recorder.check_trigger_status(&ctx.record);
    assert_eq!(ctx.recorder.triggered, true);

    // Then after it should reset
    ctx.record.timestamp_us += 1;
    ctx.recorder.check_trigger_status(&ctx.record);
    assert_eq!(ctx.recorder.triggered, false);
}

#[test]
fn pre_trigger_buffer() {
    let mut ctx = TestContext::new();
    let first_timestamp = 12345;

    // One sample in the buffer (this should be dropped eventually)
    ctx.record.timestamp_us = first_timestamp;
    ctx.recorder.handle(&ctx.record);

    // Second sample in the buffer (this should be dropped eventually)
    ctx.record.timestamp_us += 1;
    ctx.recorder.handle(&ctx.record);

    // This sample should pop the first sample, because it is too old
    ctx.record.timestamp_us = first_timestamp + ctx.recorder.pre_trigger_time_us + 1;
    ctx.recorder.handle(&ctx.record);

    // Now trigger the event, this should pop the 2nd sample and write the buffer
    ctx.recorder.triggerdetector.triggered = true;
    ctx.record.timestamp_us += 1;
    ctx.recorder.handle(&ctx.record);
    assert!(ctx.recorder.pre_trigger_buffer.is_empty());

    // Add one more sample to make sure the pre-trigger buffer is not written too
    ctx.record.timestamp_us += 1;
    ctx.recorder.handle(&ctx.record);

    // All pre trigger buffer samples should be written (including the trigger samples)
    let timestamps = ctx.written_timestamps();
    assert_eq!(timestamps.len(), 3);
    assert_eq!(timestamps[0], first_timestamp + ctx.recorder.pre_trigger_time_us + 1);
    assert_eq!(timestamps[1], first_timestamp + ctx.recorder.pre_trigger_time_us + 2);
    assert_eq!(timestamps[2], first_timestamp + ctx.recorder.pre_trigger_time_us + 3);
}

#[test]
fn post_trigger_samples() {
    let mut ctx = TestContext::new();
    let first_timestamp = 12345;

    // Trigger a single sample
    ctx.recorder.triggerdetector.triggered = true;
    ctx.record.timestamp_us = first_timestamp;
    ctx.recorder.handle(&ctx.record);

    ctx.recorder.triggerdetector.triggered = false;
    ctx.record.timestamp_us += ctx.recorder.post_trigger_time_us;
    ctx.recorder.handle(&ctx.record);

    // This sample should not be logged
    ctx.record.timestamp_us += 1;
    ctx.recorder.handle(&ctx.record);

    // All pre trigger buffer samples should be written (including the trigger samples)
    let timestamps = ctx.written_timestamps();
    assert_eq!(timestamps.len(), 2);
    assert_eq!(timestamps[0], first_timestamp);
    assert_eq!(timestamps[1], first_timestamp + ctx.recorder.post_trigger_time_us);
}

#[test]
fn post_trigger_with_retrigger() {
    let mut ctx = TestContext::new();
    let first_timestamp = 12345;

    // Trigger a single sample
    ctx.recorder.triggerdetector.triggered = true;
    ctx.record.timestamp_us = first_timestamp;
    ctx.recorder.handle(&ctx.record);

    ctx.recorder.triggerdetector.triggered = false;
    ctx.record.timestamp_us += ctx.recorder.post_trigger_time_us;
    ctx.recorder.handle(&ctx.record);

    // Retrigger
    ctx.recorder.triggerdetector.triggered = true;
    ctx.record.timestamp_us += 1;
    ctx.recorder.handle(&ctx.record);

    ctx.recorder.triggerdetector.triggered = false;
    ctx.record.timestamp_us += ctx.recorder.post_trigger_time_us;
    ctx.recorder.handle(&ctx.record);

    // This sample should not be logged
    ctx.record.timestamp_us += 1;
    ctx.recorder.handle(&ctx.record);

    // All pre trigger buffer samples should be written (including the trigger samples)
    let timestamps = ctx.written_timestamps();
    assert_eq!(timestamps.len(), 4);
    assert_eq!(timestamps[0], first_timestamp);
    assert_eq!(timestamps[1], first_timestamp + ctx.recorder.post_trigger_time_us);
    assert_eq!(timestamps[2], first_timestamp + ctx.recorder.post_trigger_time_us + 1);
    assert_eq!(timestamps[3], first_timestamp + ctx.recorder.post_trigger_time_us * 2 + 1);
}

#[test]
fn pre_roll_flush_marks_and_order() {
    // Records at 12345 and 12346 age out; 13596 survives the pre-roll and is
    // flushed unmarked when the trigger at 13597 starts the event.
    let mut ctx = TestContext::new();

    ctx.record.timestamp_us = 12345;
    ctx.recorder.handle(&ctx.record);
    ctx.record.timestamp_us = 12346;
    ctx.recorder.handle(&ctx.record);
    ctx.record.timestamp_us = 13596;
    ctx.recorder.handle(&ctx.record);
    assert!(ctx.recorder.data_writer.records.is_empty());

    ctx.recorder.triggerdetector.triggered = true;
    ctx.record.timestamp_us = 13597;
    ctx.recorder.handle(&ctx.record);

    let written = &ctx.recorder.data_writer.records;
    assert_eq!(written.len(), 2);
    assert_eq!(written[0].0.timestamp_us, 13596);
    assert_eq!(written[0].1, false);
    assert_eq!(written[1].0.timestamp_us, 13597);
    assert_eq!(written[1].1, true);
}

#[test]
fn in_event_records_are_unmarked() {
    // Only the first record of an event carries the trigger mark.
    let mut ctx = TestContext::new();

    ctx.recorder.triggerdetector.triggered = true;
    ctx.record.timestamp_us = 500;
    ctx.recorder.handle(&ctx.record);
    ctx.record.timestamp_us = 501;
    ctx.recorder.handle(&ctx.record);

    let written = &ctx.recorder.data_writer.records;
    assert_eq!(written.len(), 2);
    assert_eq!(written[0].1, true);
    assert_eq!(written[1].1, false);
}

#[test]
fn handler_entry_ignores_stale_records() {
    let mut ctx = TestContext::new();

    ctx.recorder.triggerdetector.triggered = true;
    ctx.record.timestamp_us = 1000;
    RecordHandler::handle(&mut ctx.recorder, &ctx.record);
    assert_eq!(ctx.recorder.data_writer.records.len(), 1);

    // A record older than the last one would run the clock backwards; the
    // guarded entry point drops it.
    ctx.record.timestamp_us = 900;
    RecordHandler::handle(&mut ctx.recorder, &ctx.record);
    assert_eq!(ctx.recorder.data_writer.records.len(), 1);

    ctx.record.timestamp_us = 1001;
    RecordHandler::handle(&mut ctx.recorder, &ctx.record);
    assert_eq!(ctx.recorder.data_writer.records.len(), 2);
}

#[test]
fn record_log_take_resets() {
    let mut log = RecordLog::new();
    let mut recorder = EventRecorder::new(TestDetector { triggered: true }, RecordLog::new(), 1, 2);
    let mut record = Record::default();
    record.timestamp_us = 7;
    recorder.handle(&record);
    assert_eq!(recorder.data_writer.records.len(), 1);
    let taken = recorder.data_writer.take();
    assert_eq!(taken.len(), 1);
    assert_eq!(taken[0].0.timestamp_us, 7);
    assert!(recorder.data_writer.records.is_empty());
    assert!(log.take().is_empty());
}
