use vstd::prelude::*;

verus! {

/// The kind of signal a channel carries.
#[derive(Debug, Clone, Copy, PartialEq, Eq, Structural)]
pub enum ChannelType {
    CNT,
    ECG,
    PPG,
}

/// One sampled signal of a device.
///
/// `signal_quality` is the last analysis result in parts per million
/// (`0..=1_000_000` stands for `0.0..=1.0`); `None` until a channel is analysed.
#[derive(Debug, Clone)]
pub struct Channel {
    pub id: String,
    pub name: String,
    pub channel_type: ChannelType,
    pub signal_quality: Option<u32>,
}

/// A channel as plain values.
pub struct ChannelView {
    pub id: Seq<char>,
    pub name: Seq<char>,
    pub channel_type: ChannelType,
    pub signal_quality: Option<u32>,
}

impl View for Channel {
    type V = ChannelView;

    open spec fn view(&self) -> ChannelView {
        ChannelView {
            id: self.id@,
            name: self.name@,
            channel_type: self.channel_type,
            signal_quality: self.signal_quality,
        }
    }
}

impl Channel {
    /// A copy with the same contents.
    pub fn copy_of(&self) -> (r: Channel)
        ensures
            r@ == self@,
    {
        Channel {
            id: self.id.clone(),
            name: self.name.clone(),
            channel_type: self.channel_type,
            signal_quality: self.signal_quality,
        }
    }
}

/// A sensor as the host sees it.
///
/// `drift_us` is host time minus device time in microseconds; `battery` is a
/// percentage.
#[derive(Debug, Clone)]
pub struct Device {
    pub id: String,
    pub serial: u16,
    pub name: String,
    pub battery: u8,
    pub drift_us: i64,
    pub connected: bool,
    pub channels: Vec<Channel>,
}

/// A device as plain values.
pub struct DeviceView {
    pub id: Seq<char>,
    pub serial: u16,
    pub name: Seq<char>,
    pub battery: u8,
    pub drift_us: i64,
    pub connected: bool,
    pub channels: Seq<ChannelView>,
}

impl View for Device {
    type V = DeviceView;

    open spec fn view(&self) -> DeviceView {
        DeviceView {
            id: self.id@,
            serial: self.serial,
            name: self.name@,
            battery: self.battery,
            drift_us: self.drift_us,
            connected: self.connected,
            channels: channel_views(self.channels@),
        }
    }
}

/// The channels of a device as plain values.
pub open spec fn channel_views(cs: Seq<Channel>) -> Seq<ChannelView> {
    cs.map_values(|c: Channel| c@)
}

/// Copies each channel of `cs`.
pub fn copy_channels(cs: &Vec<Channel>) -> (r: Vec<Channel>)
    ensures
        channel_views(r@) == channel_views(cs@),
{
    let mut r: Vec<Channel> = Vec::new();
    let mut i: usize = 0;
    while i < cs.len()
        invariant
            i <= cs.len(),
            r@.len() == i,
            forall|j: int| 0 <= j < i ==> (#[trigger] r@[j])@ == cs@[j]@,
        decreases cs.len() - i,
    {
        r.push(cs[i].copy_of());
        i += 1;
    }
    assert(channel_views(r@) =~= channel_views(cs@));
    r
}

impl Device {
    /// A copy with the same contents.
    pub fn copy_of(&self) -> (r: Device)
        ensures
            r@ == self@,
    {
        let channels = copy_channels(&self.channels);
        Device {
            id: self.id.clone(),
            serial: self.serial,
            name: self.name.clone(),
            battery: self.battery,
            drift_us: self.drift_us,
            connected: self.connected,
            channels,
        }
    }
}

/// Settings of the core, fixed once it is built.
///
/// The analyzers' own parameter bundles are held by the host next to this record.
#[derive(Debug, Clone, Copy, PartialEq, Eq, Structural)]
pub struct VVCoreConfig {
    pub hist_size_api: u32,
    pub hist_size_analytics: u32,
    pub max_initial_rtt_ms: u32,
    pub sync_interval_sec: u64,
    pub enable_mock_devices: bool,
    pub analysis_interval_points: u32,
}

impl VVCoreConfig {
    /// Window lengths that a sample store can be built with: at least one of them
    /// non-zero.
    pub open spec fn valid(&self) -> bool {
        self.hist_size_api > 0 || self.hist_size_analytics > 0
    }

    /// Whether the window lengths can be used, exactly when `valid` holds.
    pub fn is_valid(&self) -> (r: bool)
        ensures
            r == self.valid(),
    {
        self.hist_size_api > 0 || self.hist_size_analytics > 0
    }
}

/// Settings of the analysis stage as a whole; it has none of its own yet.
#[derive(Debug, Clone, Copy, PartialEq, Eq, Structural)]
pub struct AnalysisConfig {}

/// Placeholder for ECG settings grouped with the analysis stage; the ECG
/// analyzer's own parameters are held by the host.
#[derive(Debug, Clone, Copy, PartialEq, Eq, Structural)]
pub struct ECGParameters {}

} // verus!
