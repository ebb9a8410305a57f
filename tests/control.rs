use vvcore::{
    control_command, drift_event, mock_devices, ChannelType, ControlEvent, ExternalBleEvent,
    SyncStep, TransportCommand, VVCoreConfig, EventBus,
};

fn config(mock: bool) -> VVCoreConfig {
    VVCoreConfig {
        hist_size_api: 8,
        hist_size_analytics: 8,
        max_initial_rtt_ms: 50,
        sync_interval_sec: 60,
        enable_mock_devices: mock,
        analysis_interval_points: 4,
    }
}

#[test]
fn control_events_map_to_transport_commands() {
    let c = config(false);
    assert_eq!(control_command(&c, ControlEvent::SyncTime), Some(TransportCommand::SyncConnected));
    assert_eq!(control_command(&c, ControlEvent::Pause), Some(TransportCommand::StopScanAndDisconnect));
    assert_eq!(control_command(&c, ControlEvent::Resume), Some(TransportCommand::StartScan));
    let m = config(true);
    assert_eq!(control_command(&m, ControlEvent::SyncTime), None);
    assert_eq!(control_command(&m, ControlEvent::Pause), None);
    assert_eq!(control_command(&m, ControlEvent::Resume), None);
}

#[test]
fn pause_then_resume_leaves_the_stores_alone() {
    let c = config(false);
    let mut bus = EventBus::new(&c).unwrap();
    bus.handle_transport(ExternalBleEvent::DeviceConnected(mock_devices(10, 20).remove(0)));
    let before = bus.snapshot();
    assert!(control_command(&c, ControlEvent::Pause).is_some());
    assert!(control_command(&c, ControlEvent::Resume).is_some());
    let after = bus.snapshot();
    assert_eq!(before.len(), after.len());
    assert_eq!(before[0].id, after[0].id);
    assert_eq!(before[0].connected, after[0].connected);
    let out = bus.handle_transport(ExternalBleEvent::DataReceived(vec![(
        "00:11:22:33:00:01-4".to_string(),
        vec![1],
    )]));
    assert_eq!(out.new_data.len(), 1);
}

#[test]
fn finished_alignment_publishes_drift() {
    let id = "D".to_string();
    match drift_event(&id, SyncStep::Accepted(-40)) {
        Some(ExternalBleEvent::DriftChanged(d, v)) => {
            assert_eq!(d, "D");
            assert_eq!(v, -40);
        }
        _ => panic!("expected a drift"),
    }
    assert!(matches!(drift_event(&id, SyncStep::Exhausted(9)), Some(ExternalBleEvent::DriftChanged(_, 9))));
    assert!(drift_event(&id, SyncStep::Retry).is_none());
}

#[test]
fn the_mock_device_set() {
    let ds = mock_devices(12, 99);
    assert_eq!(ds.len(), 2);
    assert_eq!(ds[0].id, "00:11:22:33:00:01");
    assert_eq!(ds[0].name, "Device 1");
    assert_eq!(ds[0].battery, 12);
    assert_eq!(ds[1].serial, 2);
    assert_eq!(ds[1].battery, 99);
    assert_eq!(ds[1].drift_us, 30);
    assert_eq!(ds[1].channels[3].id, "00:11:22:33:00:02-4");
    assert_eq!(ds[1].channels[3].channel_type, ChannelType::ECG);
    assert_eq!(ds[0].channels[0].channel_type, ChannelType::PPG);
}
