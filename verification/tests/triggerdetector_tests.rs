use seismometer::ChannelTriggerDetector;
use seismometer::Record;
use seismometer::TriggerDetector;

#[test]
fn channel_trigger_detector() {
    let mut detector = ChannelTriggerDetector::new(5, 3);

    assert!(!detector.add_sample(0)); // [0, -, -]
    assert!(!detector.add_sample(1)); // [0, 1, -]
    assert!(!detector.add_sample(2)); // [0, 1, 2]

    // 1 count short of > threshold
    assert!(!detector.add_sample(1 + detector.threshold)); // [Thr + 1, 1, 2]

    // Positive trigger
    assert!(detector.add_sample(3 + detector.threshold)); // [Thr + 1, Thr + 3, 2]

    // And the trigger condition is gone
    assert!(!detector.add_sample(3 + detector.threshold)); // [Thr + 1, Thr + 3, Thr + 3]

    // Negative trigger
    assert!(detector.add_sample(-detector.threshold + 3)); // [Thr + 1, Thr + 3, Thr + 3]
}

#[test]
fn channel_detector_strict_threshold_boundary() {
    // Window 3, threshold 5: a range of exactly 5 does not trigger, a range
    // of 6 does.
    let mut detector = ChannelTriggerDetector::new(5, 3);

    assert!(!detector.add_sample(0));
    assert!(!detector.add_sample(1));
    assert!(!detector.add_sample(2));
    assert!(!detector.add_sample(6)); // window [6, 1, 2], range 5, strict > fails
    assert!(detector.add_sample(8)); // window [6, 8, 2], range 6 > 5
}

fn test_record(x: i32, y: i32, z: i32) -> Record {
    let mut record = Record::default();

    record.x_filt = x;
    record.y_filt = y;
    record.z_filt = z;
    record
}

#[test]
fn test_detect_x_triggers() {
    let x_trigger_level = 5;
    let mut detector = TriggerDetector::new(x_trigger_level, 9999, 9999, 2);

    assert!(!detector.detect(&test_record(0, 0, 0))); // [0, -]

    // It should not trigger on y or z
    assert!(!detector.detect(&test_record(0, x_trigger_level + 1, x_trigger_level + 1))); // [0, 0]

    // It should trigger on x
    assert!(detector.detect(&test_record(x_trigger_level + 1, 0, 0))); // [level + 1, 0]
}

#[test]
fn test_detect_y_triggers() {
    let y_trigger_level = 5;
    let mut detector = TriggerDetector::new(9999, y_trigger_level, 9999, 2);

    assert!(!detector.detect(&test_record(0, 0, 0))); // [0, -]

    // It should not trigger on x or z
    assert!(!detector.detect(&test_record(y_trigger_level + 1, 0, y_trigger_level + 1))); // [0, 0]

    // It should trigger on y
    assert!(detector.detect(&test_record(0, y_trigger_level + 1, 0))); // [level + 1, 0]
}

#[test]
fn test_detect_z_triggers() {
    let z_trigger_level = 5;
    let mut detector = TriggerDetector::new(9999, 9999, z_trigger_level, 2);

    assert!(!detector.detect(&test_record(0, 0, 0))); // [0, -]

    // It should not trigger on x or y
    assert!(!detector.detect(&test_record(z_trigger_level + 1, z_trigger_level + 1, 0))); // [0, 0]

    // It should trigger on z
    assert!(detector.detect(&test_record(0, 0, z_trigger_level + 1))); // [level + 1, 0]
}
