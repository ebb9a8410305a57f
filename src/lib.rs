//! Acquisition and analysis core for wearable biosignal sensors.
//!
//! - `ringbuffer`: fixed-capacity sample history with contiguous windows.
//! - `storage`: per-channel histories, windows and analysis counters.
//! - `codec`: the 11-byte time characteristic.
//! - `frame`: channel layout and the 25-byte data frame.
//! - `timesync`, `session`: clock alignment and the per-peripheral state machine.
//! - `devices`, `bus`: the device store and the single writer of both stores.
//! - `analysis`: the integer core of the ECG and PPG analyzers.
//! - `control`: control events and the mock device set.
pub mod analysis;
pub mod bus;
pub mod codec;
pub mod control;
pub mod devices;
pub mod frame;
pub mod model;
pub mod ringbuffer;
pub mod session;
pub mod storage;
pub mod timesync;

pub use bus::{AnalysisJob, BusOutput, ConfigError, EventBus, ExternalBleEvent};
pub use codec::{ble_data_to_time, time_to_ble_data, BleTime, TimeFormatError};
pub use control::{control_command, drift_event, mock_devices, ControlEvent, TransportCommand};
pub use devices::DeviceStore;
pub use frame::{create_channels, decode_frame, infer_layout, ChannelLayout, FrameError};
pub use model::{AnalysisConfig, Channel, ChannelType, Device, ECGParameters, VVCoreConfig};
pub use ringbuffer::SliceableRingBuffer;
pub use session::{parse_serial, route_notification, DeviceInfo, Session, SessionAction, SessionEvent, SessionState};
pub use storage::{ChannelData, DataStorage};
pub use timesync::{SyncStep, TimeSync};
