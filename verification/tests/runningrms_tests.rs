use seismometer::RunningRMS;

fn expected_rms(a: i32, b: i32, c: i32) -> u32 {
    let sqsum = (a as i64 * a as i64) as u128 + (b as i64 * b as i64) as u128
        + (c as i64 * c as i64) as u128;

    let quotient = sqsum / 3 as u128;
    let remainder = sqsum % 3 as u128;
    let rms = ((quotient as f64) + (remainder as f64 / 3 as f64)).sqrt();

    rms.round() as u32
}

#[test]
fn running_rms() {
    let mut rms = RunningRMS::new(3);

    // Note the RMS is rounded to the nearest integer
    assert_eq!(rms.add_sample(11), None);
    assert_eq!(rms.add_sample(22), None);
    assert_eq!(rms.add_sample(33), Some(expected_rms(11, 22, 33)));
    assert_eq!(rms.add_sample(44), Some(expected_rms(22, 33, 44)));
    assert_eq!(rms.add_sample(55), Some(expected_rms(33, 44, 55)));
    assert_eq!(rms.add_sample(66), Some(expected_rms(44, 55, 66)));
}

#[test]
fn running_rms_negative() {
    let mut rms = RunningRMS::new(3);

    // Note the RMS is rounded to the nearest integer
    assert_eq!(rms.add_sample(-11), None);
    assert_eq!(rms.add_sample(-22), None);
    assert_eq!(rms.add_sample(-33), Some(expected_rms(-11, -22, -33)));
    assert_eq!(rms.add_sample(-44), Some(expected_rms(-22, -33, -44)));
    assert_eq!(rms.add_sample(-55), Some(expected_rms(-33, -44, -55)));
    assert_eq!(rms.add_sample(-66), Some(expected_rms(-44, -55, -66)));
}

#[test]
fn big_numbers() {
    let mut rms = RunningRMS::new(3);

    // Note the RMS is rounded to the nearest integer
    assert_eq!(rms.add_sample(0x7FFFFFFF), None);
    assert_eq!(rms.add_sample(0x7FFFFFFE), None);
    assert_eq!(
        rms.add_sample(0x7FFFFFFD),
        Some(expected_rms(0x7FFFFFFF, 0x7FFFFFFE, 0x7FFFFFFD))
    );
}

#[test]
fn rms_exact_values() {
    // Squares 9, 16, 25 sum to 50; 50/3 is about 16.67, whose root 4.08
    // rounds to 4.
    let mut rms = RunningRMS::new(3);
    assert_eq!(rms.add_sample(3), None);
    assert_eq!(rms.add_sample(4), None);
    assert_eq!(rms.add_sample(5), Some(4));

    // A window of one sample reports the sample's magnitude.
    let mut single = RunningRMS::new(1);
    assert_eq!(single.add_sample(-9), Some(9));

    // Squares 1, 4, 4, 0 sum to 9; 9/4 is 2.25, whose root 1.5 rounds up
    // to 2 (ties away from zero).
    let mut tie = RunningRMS::new(4);
    assert_eq!(tie.add_sample(1), None);
    assert_eq!(tie.add_sample(2), None);
    assert_eq!(tie.add_sample(2), None);
    assert_eq!(tie.add_sample(0), Some(2));
}
