use vvcore::{time_to_ble_data, BleTime, SyncStep, TimeSync};

// 2023-04-01T12:34:56.789001Z in microseconds since the Unix epoch
const DEVICE_US: i64 = 1_680_352_496_789_001;

fn device_reading() -> Vec<u8> {
    time_to_ble_data(&BleTime::new(2023, 4, 1, 12, 34, 56, 789001).unwrap())
}

#[test]
fn reading_within_cap_is_accepted() {
    let mut sync = TimeSync::new(10);
    let r = sync.on_reading(DEVICE_US + 2000, &device_reading());
    assert_eq!(r, SyncStep::Accepted(2000));
}

#[test]
fn negative_round_trip_within_cap_is_accepted() {
    let mut sync = TimeSync::new(10);
    let r = sync.on_reading(DEVICE_US - 9_999, &device_reading());
    assert_eq!(r, SyncStep::Accepted(-9_999));
}

#[test]
fn reading_at_cap_is_retried_then_exhausted() {
    let mut sync = TimeSync::new(10);
    for _ in 0..4 {
        let r = sync.on_reading(DEVICE_US + 10_000, &device_reading());
        assert_eq!(r, SyncStep::Retry);
    }
    let r = sync.on_reading(DEVICE_US + 10_000, &device_reading());
    assert_eq!(r, SyncStep::Exhausted(10_000));
}

#[test]
fn epoch_reading_gives_host_time_as_round_trip() {
    let mut sync = TimeSync::new(1);
    let epoch = time_to_ble_data(&BleTime::new(1970, 1, 1, 0, 0, 0, 0).unwrap());
    assert_eq!(sync.on_reading(500, &epoch), SyncStep::Accepted(500));
}

#[test]
fn undecodable_reading_counts_as_a_failed_attempt() {
    let mut sync = TimeSync::new(10);
    assert_eq!(sync.on_reading(0, &[1, 2, 3]), SyncStep::Retry);
    assert_eq!(sync.on_reading(DEVICE_US + 2000, &device_reading()), SyncStep::Accepted(2000));
}

#[test]
fn exhaustion_publishes_the_last_measured_round_trip() {
    let mut sync = TimeSync::new(10);
    assert_eq!(sync.on_reading(DEVICE_US + 50_000, &device_reading()), SyncStep::Retry);
    for _ in 0..3 {
        assert_eq!(sync.on_reading(0, &[0; 11]), SyncStep::Retry);
    }
    assert_eq!(sync.on_reading(0, &[]), SyncStep::Exhausted(50_000));
}

#[test]
fn exhaustion_without_any_measurement_publishes_zero() {
    let mut sync = TimeSync::new(10);
    for _ in 0..4 {
        assert_eq!(sync.on_reading(0, &[9]), SyncStep::Retry);
    }
    assert_eq!(sync.on_reading(0, &[9]), SyncStep::Exhausted(0));
}
