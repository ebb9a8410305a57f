use vvcore::session::{CHARACTERISTIC_BATTERY, CHARACTERISTIC_DATA};
use vvcore::{
    create_channels, decode_frame, infer_layout, parse_serial, route_notification, ChannelLayout,
    ChannelType, ExternalBleEvent, FrameError,
};

fn ecg_frame() -> Vec<u8> {
    let mut f = vec![0u8; 25];
    f[0] = 9;
    // tuple 0: ECG -2, green 1000, red 2, IR 65535
    f[1] = 0xFE;
    f[2] = 0xFF;
    f[3] = 0xE8;
    f[4] = 0x03;
    f[5] = 2;
    f[7] = 0xFF;
    f[8] = 0xFF;
    // tuple 1: ECG 300
    f[9] = 0x2C;
    f[10] = 0x01;
    // tuple 2: ECG 1, IR 256
    f[17] = 1;
    f[24] = 1;
    f
}

#[test]
fn layout_inference() {
    assert_eq!(infer_layout(&[0u8; 25]), Ok(ChannelLayout::PpgOnly));
    assert_eq!(infer_layout(&ecg_frame()), Ok(ChannelLayout::EcgAndPpg));
    assert_eq!(infer_layout(&[1u8; 25]), Ok(ChannelLayout::EcgAndPpg));
    assert_eq!(infer_layout(&[0u8; 24]), Err(FrameError::WrongLength));
}

#[test]
fn channel_records() {
    let id = "AB".to_string();
    let cs = create_channels(&id, ChannelLayout::EcgAndPpg);
    let ids: Vec<&str> = cs.iter().map(|c| c.id.as_str()).collect();
    assert_eq!(ids, vec!["AB-0", "AB-1", "AB-2", "AB-3"]);
    assert_eq!(cs[0].name, "ECG");
    assert_eq!(cs[0].channel_type, ChannelType::ECG);
    assert_eq!(cs[3].name, "PPG IR");
    let cs = create_channels(&id, ChannelLayout::PpgOnly);
    assert_eq!(cs.len(), 3);
    assert_eq!(cs[0].id, "AB-0");
    assert_eq!(cs[0].name, "PPG green");
    assert!(cs.iter().all(|c| c.channel_type == ChannelType::PPG && c.signal_quality.is_none()));
}

#[test]
fn frame_decoding() {
    let id = "AB".to_string();
    let d = decode_frame(&id, ChannelLayout::EcgAndPpg, &ecg_frame()).unwrap();
    assert_eq!(d.len(), 4);
    assert_eq!(d[0], ("AB-0".to_string(), vec![-2, 300, 1]));
    assert_eq!(d[1], ("AB-1".to_string(), vec![1000, 0, 0]));
    assert_eq!(d[2], ("AB-2".to_string(), vec![2, 0, 0]));
    assert_eq!(d[3], ("AB-3".to_string(), vec![65535, 0, 256]));
    let d = decode_frame(&id, ChannelLayout::PpgOnly, &ecg_frame()).unwrap();
    assert_eq!(d.len(), 3);
    assert_eq!(d[0], ("AB-0".to_string(), vec![1000, 0, 0]));
    assert_eq!(d[2], ("AB-2".to_string(), vec![65535, 0, 256]));
    assert_eq!(decode_frame(&id, ChannelLayout::PpgOnly, &[0u8; 26]), Err(FrameError::WrongLength));
}

#[test]
fn notification_routing() {
    let id = "AB".to_string();
    match route_notification(&id, ChannelLayout::PpgOnly, CHARACTERISTIC_BATTERY, &[77, 1]) {
        Some(ExternalBleEvent::BatteryLevelChanged(d, l)) => {
            assert_eq!(d, "AB");
            assert_eq!(l, 77);
        }
        _ => panic!("expected a battery level"),
    }
    assert!(route_notification(&id, ChannelLayout::PpgOnly, CHARACTERISTIC_BATTERY, &[]).is_none());
    match route_notification(&id, ChannelLayout::EcgAndPpg, CHARACTERISTIC_DATA, &ecg_frame()) {
        Some(ExternalBleEvent::DataReceived(b)) => assert_eq!(b.len(), 4),
        _ => panic!("expected samples"),
    }
    assert!(route_notification(&id, ChannelLayout::EcgAndPpg, CHARACTERISTIC_DATA, &[0; 3]).is_none());
    assert!(route_notification(&id, ChannelLayout::EcgAndPpg, 12345, &[0; 25]).is_none());
}

#[test]
fn serial_texts() {
    assert_eq!(parse_serial(b"72"), Some(72));
    assert_eq!(parse_serial(b"+0065535"), Some(65535));
    assert_eq!(parse_serial(b"65536"), None);
    assert_eq!(parse_serial(b"999999999999"), None);
    assert_eq!(parse_serial(b""), None);
    assert_eq!(parse_serial(b"+"), None);
    assert_eq!(parse_serial(b"-1"), None);
    assert_eq!(parse_serial(b"1a"), None);
}
