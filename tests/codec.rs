use vvcore::{ble_data_to_time, time_to_ble_data, BleTime, TimeFormatError};

fn sample_time() -> BleTime {
    BleTime::new(2023, 4, 1, 12, 34, 56, 789001).unwrap()
}

#[test]
fn test_time_to_ble_data() {
    // 789001 us rounds to 51708 fraction units (0xC9FC)
    let time = sample_time();
    let expected_data = vec![0xE7, 0x07, 4, 1, 12, 34, 56, 6, 0xFC, 0xC9, 0];
    let ble_data = time_to_ble_data(&time);
    assert_eq!(ble_data.len(), 11);
    assert_eq!(ble_data, expected_data);
}

#[test]
fn test_ble_data_to_time() {
    let data = vec![0xE7, 0x07, 4, 1, 12, 34, 56, 6, 0xFC, 0xC9, 0];
    let expected_time = sample_time();
    match ble_data_to_time(&data) {
        Ok(time) => assert_eq!(time, expected_time),
        Err(e) => panic!("Failed to convert BLE data to time: {:?}", e),
    }
}

#[test]
fn test_time_to_ble_data_to_time() {
    let time = sample_time();
    let ble_data = time_to_ble_data(&time);
    let converted_time = ble_data_to_time(&ble_data).unwrap();
    assert_eq!(time, converted_time);
}

#[test]
fn test_ble_data_to_time_to_ble_data() {
    let data = vec![0xE7, 0x07, 4, 1, 12, 34, 56, 6, 0x34, 0x12, 0];
    let time = ble_data_to_time(&data).unwrap();
    let ble_data = time_to_ble_data(&time);
    assert_eq!(data, ble_data);
}

#[test]
fn test_ble_data_to_time_invalid_data() {
    let data = vec![0xE7, 0x07, 4, 1, 12, 34, 56, 1, 0x34, 0x12];
    match ble_data_to_time(&data) {
        Ok(_) => panic!("Expected error for invalid BLE data format"),
        Err(_) => {}
    }
}

#[test]
fn wrong_length_is_reported() {
    assert_eq!(ble_data_to_time(&[0u8; 12]), Err(TimeFormatError::WrongLength));
    assert_eq!(ble_data_to_time(&[]), Err(TimeFormatError::WrongLength));
}

#[test]
fn impossible_date_is_reported() {
    // 2023-02-29 does not exist
    let data = vec![0xE7, 0x07, 2, 29, 12, 34, 56, 0, 0, 0, 0];
    assert_eq!(ble_data_to_time(&data), Err(TimeFormatError::InvalidTime));
    // hour 24
    let data = vec![0xE7, 0x07, 4, 1, 24, 0, 0, 0, 0, 0, 0];
    assert_eq!(ble_data_to_time(&data), Err(TimeFormatError::InvalidTime));
}

#[test]
fn leap_day_is_accepted() {
    assert!(BleTime::new(2024, 2, 29, 0, 0, 0, 0).is_some());
    assert!(BleTime::new(1900, 2, 29, 0, 0, 0, 0).is_none());
    assert!(BleTime::new(2000, 2, 29, 0, 0, 0, 0).is_some());
}

#[test]
fn weekday_byte_counts_monday_as_one() {
    // 2024-01-01 was a Monday, 2024-01-07 a Sunday
    let monday = BleTime::new(2024, 1, 1, 0, 0, 0, 0).unwrap();
    let sunday = BleTime::new(2024, 1, 7, 0, 0, 0, 0).unwrap();
    assert_eq!(time_to_ble_data(&monday)[7], 1);
    assert_eq!(time_to_ble_data(&sunday)[7], 7);
}

#[test]
fn microseconds_are_cut_to_the_fraction_unit() {
    // 999999 us saturates at 65535 units, which read back as 999985 us
    let t = BleTime::new(2023, 4, 1, 0, 0, 0, 999_999).unwrap();
    let bytes = time_to_ble_data(&t);
    assert_eq!((bytes[8], bytes[9]), (0xFF, 0xFF));
    let back = ble_data_to_time(&bytes).unwrap();
    assert_eq!(back.microsecond, 999_985);
    // 10 us is 0.65536 units: one unit, read back as 15 us
    let t = BleTime::new(2023, 4, 1, 0, 0, 0, 10).unwrap();
    assert_eq!(ble_data_to_time(&time_to_ble_data(&t)).unwrap().microsecond, 15);
}
