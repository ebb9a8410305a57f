use vvcore::session::CHARACTERISTIC_DATA;
use vvcore::{
    time_to_ble_data, BleTime, DeviceInfo, ExternalBleEvent, Session, SessionAction, SessionEvent,
    SessionState,
};

const DEVICE_US: i64 = 1_680_352_496_789_001;

fn reading() -> Vec<u8> {
    time_to_ble_data(&BleTime::new(2023, 4, 1, 12, 34, 56, 789001).unwrap())
}

fn info(first: Vec<u8>) -> DeviceInfo {
    DeviceInfo { serial: b"72".to_vec(), model: b"VV-1".to_vec(), battery: 90, first_data: first }
}

fn introspected(first: Vec<u8>) -> Session {
    let mut s = Session::new("dev-a".to_string(), 20);
    assert!(matches!(s.start(), SessionAction::Connect));
    assert!(matches!(s.step(SessionEvent::Connected), SessionAction::Introspect));
    assert!(matches!(s.step(SessionEvent::Introspected(info(first))), SessionAction::SyncTime));
    assert_eq!(s.current_state(), SessionState::SyncingTime);
    s
}

#[test]
fn session_reaches_streaming_and_announces_the_device() {
    let mut s = introspected(vec![1; 25]);
    match s.step(SessionEvent::TimeRead(DEVICE_US + 1500, reading())) {
        SessionAction::Publish(ExternalBleEvent::DeviceConnected(d)) => {
            assert_eq!(d.id, "dev-a");
            assert_eq!(d.serial, 72);
            assert_eq!(d.name, "VV-1");
            assert_eq!(d.battery, 90);
            assert_eq!(d.drift_us, 1500);
            assert!(d.connected);
            assert_eq!(d.channels.len(), 4);
        }
        _ => panic!("expected the device to be announced"),
    }
    assert_eq!(s.current_state(), SessionState::Streaming);
    match s.step(SessionEvent::Notification(CHARACTERISTIC_DATA, vec![0; 25])) {
        SessionAction::Publish(ExternalBleEvent::DataReceived(b)) => assert_eq!(b.len(), 4),
        _ => panic!("expected samples"),
    }
    match s.step(SessionEvent::Lost) {
        SessionAction::Publish(ExternalBleEvent::DeviceDisconnected(id)) => assert_eq!(id, "dev-a"),
        _ => panic!("expected a disconnection"),
    }
    assert_eq!(s.current_state(), SessionState::Disconnected);
    assert!(matches!(s.step(SessionEvent::Lost), SessionAction::Nothing));
}

#[test]
fn slow_round_trips_are_retried_and_the_last_is_published() {
    let mut s = introspected(vec![0; 25]);
    for _ in 0..4 {
        assert!(matches!(
            s.step(SessionEvent::TimeRead(DEVICE_US + 30_000, reading())),
            SessionAction::SyncTime
        ));
    }
    match s.step(SessionEvent::TimeRead(DEVICE_US + 25_000, reading())) {
        SessionAction::Publish(ExternalBleEvent::DeviceConnected(d)) => {
            assert_eq!(d.drift_us, 25_000);
            assert_eq!(d.channels.len(), 3);
        }
        _ => panic!("expected the device to be announced"),
    }
}

#[test]
fn bad_first_frame_aborts_the_session() {
    let mut s = Session::new("dev-b".to_string(), 20);
    s.start();
    s.step(SessionEvent::Connected);
    match s.step(SessionEvent::Introspected(info(vec![0; 3]))) {
        SessionAction::Publish(ExternalBleEvent::DeviceDisconnected(id)) => assert_eq!(id, "dev-b"),
        _ => panic!("expected a disconnection"),
    }
    assert_eq!(s.current_state(), SessionState::Disconnected);
}

#[test]
fn undecodable_time_is_dropped_and_asked_again() {
    let mut s = introspected(vec![0; 25]);
    assert!(matches!(s.step(SessionEvent::TimeRead(DEVICE_US, vec![0; 5])), SessionAction::SyncTime));
    assert_eq!(s.current_state(), SessionState::SyncingTime);
    match s.step(SessionEvent::TimeRead(DEVICE_US + 700, reading())) {
        SessionAction::Publish(ExternalBleEvent::DeviceConnected(d)) => assert_eq!(d.drift_us, 700),
        _ => panic!("expected the device to be announced"),
    }
}

#[test]
fn unreadable_texts_keep_defaults() {
    let mut s = Session::new("dev-c".to_string(), 20);
    s.start();
    s.step(SessionEvent::Connected);
    let i = DeviceInfo { serial: b"x".to_vec(), model: vec![0xFF, 0xFE], battery: 5, first_data: vec![0; 25] };
    s.step(SessionEvent::Introspected(i));
    match s.step(SessionEvent::TimeRead(DEVICE_US, reading())) {
        SessionAction::Publish(ExternalBleEvent::DeviceConnected(d)) => {
            assert_eq!(d.serial, 0);
            assert_eq!(d.name, "");
        }
        _ => panic!("expected the device to be announced"),
    }
}

#[test]
fn events_out_of_order_are_ignored() {
    let mut s = Session::new("dev-d".to_string(), 20);
    assert!(matches!(s.step(SessionEvent::Connected), SessionAction::Nothing));
    assert_eq!(s.current_state(), SessionState::Discovered);
    s.start();
    assert!(matches!(s.step(SessionEvent::Notification(CHARACTERISTIC_DATA, vec![0; 25])), SessionAction::Nothing));
    assert!(matches!(s.start(), SessionAction::Nothing));
}
