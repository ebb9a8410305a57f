use vstd::prelude::*;
use vstd::string::*;

use crate::bus::ExternalBleEvent;
use crate::model::{channel_views, Channel, ChannelType, ChannelView, Device, DeviceView, VVCoreConfig};
use crate::devices::device_views;
use crate::timesync::SyncStep;

verus! {

/// What the control surface and the periodic timer ask for.
#[derive(Debug, Clone, Copy, PartialEq, Eq, Structural)]
pub enum ControlEvent {
    SyncTime,
    Pause,
    Resume,
}

/// What the transport side is told to do on a control event.
#[derive(Debug, Clone, Copy, PartialEq, Eq, Structural)]
pub enum TransportCommand {
    /// Align the clocks of every connected peripheral.
    SyncConnected,
    /// Stop scanning and disconnect every peripheral.
    StopScanAndDisconnect,
    /// Scan again; newly discovered peripherals get new sessions.
    StartScan,
}

/// The transport command for a control event.
pub open spec fn command_for(event: ControlEvent) -> TransportCommand {
    match event {
        ControlEvent::SyncTime => TransportCommand::SyncConnected,
        ControlEvent::Pause => TransportCommand::StopScanAndDisconnect,
        ControlEvent::Resume => TransportCommand::StartScan,
    }
}

/// Maps a control event to its transport command; with mock devices enabled there
/// is no transport and every control event is ignored.
///
/// Control events never reach the device or sample store: only the transport
/// events they cause do.
pub fn control_command(config: &VVCoreConfig, event: ControlEvent) -> (r: Option<TransportCommand>)
    ensures
        config.enable_mock_devices ==> r.is_none(),
        !config.enable_mock_devices ==> r == Some(command_for(event)),
{
    if config.enable_mock_devices {
        return None;
    }
    match event {
        ControlEvent::SyncTime => Some(TransportCommand::SyncConnected),
        ControlEvent::Pause => Some(TransportCommand::StopScanAndDisconnect),
        ControlEvent::Resume => Some(TransportCommand::StartScan),
    }
}

/// The event a finished clock alignment of a streaming device publishes: its
/// round-trip time as the new drift. An alignment still under way publishes
/// nothing.
pub fn drift_event(device: &String, step: SyncStep) -> (r: Option<ExternalBleEvent>)
    ensures
        match step {
            SyncStep::Accepted(rtt) | SyncStep::Exhausted(rtt) => match r {
                Some(ExternalBleEvent::DriftChanged(id, d)) => id@ == device@ && d == rtt,
                _ => false,
            },
            SyncStep::Retry => r.is_none(),
        },
{
    match step {
        SyncStep::Accepted(rtt) => Some(ExternalBleEvent::DriftChanged(device.clone(), rtt)),
        SyncStep::Exhausted(rtt) => Some(ExternalBleEvent::DriftChanged(device.clone(), rtt)),
        SyncStep::Retry => None,
    }
}

/// The channels of a mock device: three PPG channels and an ECG channel, with ids
/// the device id followed by `-1` to `-4`.
pub open spec fn mock_channel_views(device: Seq<char>) -> Seq<ChannelView> {
    seq![
        ChannelView { id: device + "-1"@, name: "PPG"@, channel_type: ChannelType::PPG, signal_quality: None },
        ChannelView { id: device + "-2"@, name: "PPG"@, channel_type: ChannelType::PPG, signal_quality: None },
        ChannelView { id: device + "-3"@, name: "PPG"@, channel_type: ChannelType::PPG, signal_quality: None },
        ChannelView { id: device + "-4"@, name: "ECG"@, channel_type: ChannelType::ECG, signal_quality: None },
    ]
}

/// A connected mock device with a drift of 30 µs.
pub open spec fn mock_device_view(id: Seq<char>, serial: u16, name: Seq<char>, battery: u8) -> DeviceView {
    DeviceView {
        id,
        serial,
        name,
        battery,
        drift_us: 30,
        connected: true,
        channels: mock_channel_views(id),
    }
}

fn mock_channel(device: &str, suffix: &str, name: &str, channel_type: ChannelType) -> (r: Channel)
    ensures
        r@ == (ChannelView { id: device@ + suffix@, name: name@, channel_type, signal_quality: None }),
{
    Channel {
        id: String::from_str(device).concat(suffix),
        name: String::from_str(name),
        channel_type,
        signal_quality: None,
    }
}

fn mock_device(id: &str, serial: u16, name: &str, battery: u8) -> (r: Device)
    ensures
        r@ == mock_device_view(id@, serial, name@, battery),
{
    let mut channels: Vec<Channel> = Vec::new();
    channels.push(mock_channel(id, "-1", "PPG", ChannelType::PPG));
    channels.push(mock_channel(id, "-2", "PPG", ChannelType::PPG));
    channels.push(mock_channel(id, "-3", "PPG", ChannelType::PPG));
    channels.push(mock_channel(id, "-4", "ECG", ChannelType::ECG));
    assert(channel_views(channels@) =~= mock_channel_views(id@));
    Device {
        id: String::from_str(id),
        serial,
        name: String::from_str(name),
        battery,
        drift_us: 30,
        connected: true,
        channels,
    }
}

/// The two fixed devices of the mock producer, with the given battery levels.
pub fn mock_devices(battery_a: u8, battery_b: u8) -> (r: Vec<Device>)
    ensures
        device_views(r@) == seq![
            mock_device_view("00:11:22:33:00:01"@, 1, "Device 1"@, battery_a),
            mock_device_view("00:11:22:33:00:02"@, 2, "Device 2"@, battery_b),
        ],
{
    let mut r: Vec<Device> = Vec::new();
    r.push(mock_device("00:11:22:33:00:01", 1, "Device 1", battery_a));
    r.push(mock_device("00:11:22:33:00:02", 2, "Device 2", battery_b));
    assert(device_views(r@) =~= seq![
        mock_device_view("00:11:22:33:00:01"@, 1, "Device 1"@, battery_a),
        mock_device_view("00:11:22:33:00:02"@, 2, "Device 2"@, battery_b),
    ]);
    r
}

} // verus!
