use vvcore::{
    create_channels, ChannelLayout, ChannelType, Device, EventBus, ExternalBleEvent, VVCoreConfig,
    ConfigError,
};

fn config(interval: u32) -> VVCoreConfig {
    VVCoreConfig {
        hist_size_api: 4,
        hist_size_analytics: 6,
        max_initial_rtt_ms: 50,
        sync_interval_sec: 60,
        enable_mock_devices: false,
        analysis_interval_points: interval,
    }
}

fn device(id: &str) -> Device {
    let id = id.to_string();
    Device {
        channels: create_channels(&id, ChannelLayout::EcgAndPpg),
        id,
        serial: 7,
        name: "VV".to_string(),
        battery: 80,
        drift_us: 120,
        connected: true,
    }
}

#[test]
fn connect_then_disconnect_leaves_one_disconnected_device() {
    let mut bus = EventBus::new(&config(100)).unwrap();
    let d = device("dev");
    assert_eq!(d.channels.len(), 4);
    let out = bus.handle_transport(ExternalBleEvent::DeviceConnected(d));
    let snap = out.devices_changed.unwrap();
    assert_eq!(snap.len(), 1);
    assert!(snap[0].connected);
    let out = bus.handle_transport(ExternalBleEvent::DeviceDisconnected("dev".to_string()));
    let snap = out.devices_changed.unwrap();
    assert_eq!(snap.len(), 1);
    assert!(!snap[0].connected);
    assert_eq!(snap[0].drift_us, 0);
    assert!(snap[0].channels.iter().all(|c| c.signal_quality.is_none()));
    assert_eq!(bus.snapshot().len(), 1);
    // the sample store holds none of the device's channels any more
    let out = bus.handle_transport(ExternalBleEvent::DataReceived(vec![
        ("dev-0".to_string(), vec![1]),
        ("dev-1".to_string(), vec![1]),
        ("dev-2".to_string(), vec![1]),
        ("dev-3".to_string(), vec![1]),
    ]));
    assert!(out.new_data.is_empty());
    assert!(out.jobs.is_empty());
}

#[test]
fn disconnect_of_unknown_device_changes_nothing() {
    let mut bus = EventBus::new(&config(100)).unwrap();
    let out = bus.handle_transport(ExternalBleEvent::DeviceDisconnected("ghost".to_string()));
    assert!(out.devices_changed.is_none());
    assert!(bus.snapshot().is_empty());
}

#[test]
fn analysis_runs_when_the_counter_reaches_the_interval() {
    let mut bus = EventBus::new(&config(100)).unwrap();
    bus.handle_transport(ExternalBleEvent::DeviceConnected(device("d")));
    let out = bus.handle_transport(ExternalBleEvent::DataReceived(vec![("d-0".to_string(), vec![5; 99])]));
    assert_eq!(out.new_data.len(), 1);
    assert_eq!(out.new_data[0].1, vec![Some(5); 4]);
    assert!(out.jobs.is_empty());
    let out = bus.handle_transport(ExternalBleEvent::DataReceived(vec![("d-0".to_string(), vec![6])]));
    assert_eq!(out.jobs.len(), 1);
    assert_eq!(out.jobs[0].channel_id, "d-0");
    assert_eq!(out.jobs[0].channel_type, ChannelType::ECG);
    assert_eq!(out.jobs[0].window, vec![Some(5), Some(5), Some(5), Some(5), Some(5), Some(6)]);
    // the counter restarted: 99 more samples run no analysis
    let out = bus.handle_transport(ExternalBleEvent::DataReceived(vec![("d-0".to_string(), vec![1; 99])]));
    assert!(out.jobs.is_empty());
}

#[test]
fn analysis_results_are_written_back() {
    let mut bus = EventBus::new(&config(2)).unwrap();
    bus.handle_transport(ExternalBleEvent::DeviceConnected(device("d")));
    let out = bus.handle_transport(ExternalBleEvent::DataReceived(vec![
        ("d-0".to_string(), vec![1, 2]),
        ("d-1".to_string(), vec![1]),
        ("x-9".to_string(), vec![1, 2, 3]),
    ]));
    assert_eq!(out.new_data.len(), 2);
    assert_eq!(out.jobs.len(), 1);
    let snap = bus
        .apply_analysis(&vec![("d-0".to_string(), Some(750_000)), ("d-1".to_string(), None)])
        .unwrap();
    assert_eq!(snap[0].channels[0].signal_quality, Some(750_000));
    // an analysis that found too little to rate gives quality 0
    assert_eq!(snap[0].channels[1].signal_quality, Some(0));
    // channels without a result keep theirs
    assert_eq!(snap[0].channels[2].signal_quality, None);
    assert!(bus.apply_analysis(&vec![]).is_none());
    // a quality is held to one
    let snap = bus.apply_analysis(&vec![("d-2".to_string(), Some(3_000_000))]).unwrap();
    assert_eq!(snap[0].channels[2].signal_quality, Some(1_000_000));
    assert_eq!(snap[0].channels[0].signal_quality, Some(750_000));
}

#[test]
fn counter_channels_get_no_analysis() {
    let mut bus = EventBus::new(&config(2)).unwrap();
    let mut d = device("c");
    d.channels[0].channel_type = ChannelType::CNT;
    bus.handle_transport(ExternalBleEvent::DeviceConnected(d));
    let out = bus.handle_transport(ExternalBleEvent::DataReceived(vec![
        ("c-0".to_string(), vec![1, 2, 3]),
        ("c-1".to_string(), vec![1, 2]),
    ]));
    assert_eq!(out.new_data.len(), 2);
    assert_eq!(out.jobs.len(), 1);
    assert_eq!(out.jobs[0].channel_id, "c-1");
}

#[test]
fn threshold_reached_over_several_events() {
    let mut bus = EventBus::new(&config(100)).unwrap();
    bus.handle_transport(ExternalBleEvent::DeviceConnected(device("d")));
    for _ in 0..9 {
        let out = bus.handle_transport(ExternalBleEvent::DataReceived(vec![("d-1".to_string(), vec![2; 11])]));
        assert_eq!(out.new_data.len(), 1);
        assert!(out.jobs.is_empty());
    }
    let out = bus.handle_transport(ExternalBleEvent::DataReceived(vec![("d-1".to_string(), vec![2])]));
    assert_eq!(out.jobs.len(), 1);
}

#[test]
fn battery_and_drift_update_the_device() {
    let mut bus = EventBus::new(&config(10)).unwrap();
    bus.handle_transport(ExternalBleEvent::DeviceConnected(device("d")));
    let out = bus.handle_transport(ExternalBleEvent::BatteryLevelChanged("d".to_string(), 42));
    assert_eq!(out.devices_changed.unwrap()[0].battery, 42);
    let out = bus.handle_transport(ExternalBleEvent::DriftChanged("d".to_string(), -300));
    assert_eq!(out.devices_changed.unwrap()[0].drift_us, -300);
    let out = bus.handle_transport(ExternalBleEvent::DriftChanged("other".to_string(), 5));
    assert_eq!(out.devices_changed.unwrap()[0].drift_us, -300);
}

#[test]
fn reconnect_replaces_the_record_in_place() {
    let mut bus = EventBus::new(&config(10)).unwrap();
    bus.handle_transport(ExternalBleEvent::DeviceConnected(device("a")));
    bus.handle_transport(ExternalBleEvent::DeviceConnected(device("b")));
    let mut again = device("a");
    again.battery = 11;
    let snap = bus.handle_transport(ExternalBleEvent::DeviceConnected(again)).devices_changed.unwrap();
    assert_eq!(snap.len(), 2);
    assert_eq!(snap[0].id, "a");
    assert_eq!(snap[0].battery, 11);
    assert_eq!(snap[1].id, "b");
}

#[test]
fn empty_windows_are_refused() {
    let mut c = config(10);
    c.hist_size_api = 0;
    c.hist_size_analytics = 0;
    assert!(matches!(EventBus::new(&c), Err(ConfigError::EmptyWindows)));
}
