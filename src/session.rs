use vstd::prelude::*;
use vstd::utf8::{decode_utf8, valid_utf8};

use crate::bus::ExternalBleEvent;
use crate::frame::{
    create_channels, decode_frame, frame_samples, infer_layout, layout_channels, layout_of,
    samples_view, ChannelLayout,
};
use crate::model::{Device, DeviceView};
use crate::timesync::{last_after, sync_outcome, SyncStep, TimeSync, MAX_SYNC_ATTEMPTS};

verus! {

/// Device information service.
pub const SERVICE_DEVICE_INFO: u128 = 0x0000180A_0000_1000_8000_00805F9B34FB;
/// Serial number characteristic.
pub const CHARACTERISTIC_SERIAL: u128 = 0x00002A25_0000_1000_8000_00805F9B34FB;
/// Model name characteristic.
pub const CHARACTERISTIC_MODEL: u128 = 0x00002A24_0000_1000_8000_00805F9B34FB;
/// Battery service.
pub const SERVICE_BATTERY: u128 = 0x0000180F_0000_1000_8000_00805F9B34FB;
/// Battery level characteristic (notify and read).
pub const CHARACTERISTIC_BATTERY: u128 = 0x00002A19_0000_1000_8000_00805F9B34FB;
/// Time service.
pub const SERVICE_TIME: u128 = 0x00001806_0000_1000_8000_00805F9B34FB;
/// Current time characteristic (read and write without response).
pub const CHARACTERISTIC_TIME: u128 = 0x00002A2D_0000_1000_8000_00805F9B34FB;
/// Data service, also the scan filter.
pub const SERVICE_DATA: u128 = 0xDCF31A27_A904_F3A3_AA4E_5AE42F1217B6;
/// Data characteristic (notify).
pub const CHARACTERISTIC_DATA: u128 = 0xDCF31A27_A904_F4A3_A24E_5AE42F8617B6;

/// Relies on std's `String::from_utf8`, which succeeds exactly on valid UTF-8 and
/// then holds the decoded characters.
#[verifier::external_body]
fn utf8_text(bytes: Vec<u8>) -> (r: Option<String>)
    ensures
        r.is_some() == valid_utf8(bytes@),
        r.is_some() ==> r.unwrap()@ == decode_utf8(bytes@),
{
    String::from_utf8(bytes).ok()
}

/// Whether every byte is an ASCII digit.
pub open spec fn all_digits(b: Seq<u8>) -> bool {
    forall|i: int| 0 <= i < b.len() ==> 48 <= #[trigger] b[i] <= 57
}

/// The decimal value of ASCII digits.
pub open spec fn digits_value(b: Seq<u8>) -> int
    decreases b.len(),
{
    if b.len() == 0 {
        0
    } else {
        digits_value(b.drop_last()) * 10 + (b.last() - 48)
    }
}

/// The digits of a serial number text: an optional leading `+` is skipped.
pub open spec fn serial_digits(b: Seq<u8>) -> Seq<u8> {
    if b.len() > 0 && b[0] == 43 {
        b.drop_first()
    } else {
        b
    }
}

/// The serial number a text holds: one or more decimal digits after an optional
/// `+`, of value at most 65535.
pub open spec fn serial_of(b: Seq<u8>) -> Option<u16> {
    let d = serial_digits(b);
    if d.len() > 0 && all_digits(d) && digits_value(d) <= 65535 {
        Some(digits_value(d) as u16)
    } else {
        None
    }
}

proof fn lemma_digits_value_grows(b: Seq<u8>, k: int)
    requires
        0 <= k <= b.len(),
        all_digits(b),
    ensures
        digits_value(b.subrange(0, k)) <= digits_value(b),
        0 <= digits_value(b.subrange(0, k)),
    decreases b.len() - k,
{
    if k < b.len() {
        lemma_digits_value_grows(b, k + 1);
        assert(b.subrange(0, k + 1).drop_last() =~= b.subrange(0, k));
        lemma_digits_value_nonneg(b.subrange(0, k));
    } else {
        assert(b.subrange(0, k) =~= b);
        lemma_digits_value_nonneg(b);
    }
}

proof fn lemma_digits_value_nonneg(b: Seq<u8>)
    requires
        all_digits(b),
    ensures
        0 <= digits_value(b),
    decreases b.len(),
{
    if b.len() > 0 {
        lemma_digits_value_nonneg(b.drop_last());
    }
}

/// Reads the serial number characteristic as a decimal `u16`.
pub fn parse_serial(text: &[u8]) -> (r: Option<u16>)
    ensures
        r == serial_of(text@),
{
    let start: usize = if text.len() > 0 && text[0] == 43 {
        1
    } else {
        0
    };
    let ghost d = serial_digits(text@);
    assert(d =~= text@.subrange(start as int, text@.len() as int));
    if start == text.len() {
        return None;
    }
    let mut value: u32 = 0;
    let mut i: usize = start;
    while i < text.len()
        invariant
            start <= i <= text@.len(),
            d == text@.subrange(start as int, text@.len() as int),
            d == serial_digits(text@),
            all_digits(d.subrange(0, i - start)),
            value as int == digits_value(d.subrange(0, i - start)),
            value <= 65535,
        decreases text@.len() - i,
    {
        let c = text[i];
        if c < 48 || c > 57 {
            assert(d[i - start] == c);
            assert(!all_digits(d));
            return None;
        }
        let ghost pre = d.subrange(0, i - start);
        let next: u32 = value * 10 + (c - 48) as u32;
        i += 1;
        assert(d.subrange(0, i - start).drop_last() =~= pre);
        assert(all_digits(d.subrange(0, i - start)));
        if next > 65535 {
            proof {
                let cur = d.subrange(0, i - start);
                assert(cur.last() == c);
                assert(digits_value(cur) == digits_value(pre) * 10 + (c - 48));
                assert(digits_value(cur) == next);
                if all_digits(d) {
                    lemma_digits_value_grows(d, i - start);
                    assert(digits_value(d) > 65535);
                }
                assert(serial_of(text@) is None);
            }
            return None;
        }
        value = next;
    }
    assert(d.subrange(0, i - start) =~= d);
    Some(value as u16)
}

/// Whether `r` is what a notification of `characteristic` with `value` gives for a
/// streaming device: a battery level (the first byte) for the battery
/// characteristic, the channel samples of a 25-byte frame for the data
/// characteristic, nothing otherwise.
pub open spec fn routed(
    device: Seq<char>,
    layout: ChannelLayout,
    characteristic: u128,
    value: Seq<u8>,
    r: Option<ExternalBleEvent>,
) -> bool {
    if characteristic == CHARACTERISTIC_BATTERY {
        match r {
            Some(ExternalBleEvent::BatteryLevelChanged(id, level)) => value.len() > 0 && id@
                == device && level == value[0],
            None => value.len() == 0,
            _ => false,
        }
    } else if characteristic == CHARACTERISTIC_DATA {
        match r {
            Some(ExternalBleEvent::DataReceived(batch)) => value.len() == 25 && samples_view(batch@)
                == frame_samples(device, layout, value),
            None => value.len() != 25,
            _ => false,
        }
    } else {
        r.is_none()
    }
}

/// Turns a notification of a streaming device into the event for the bus.
///
/// The battery characteristic gives a battery level, its first byte; the data
/// characteristic gives the samples of each channel. An empty battery value, a
/// data frame of the wrong length or another characteristic gives nothing.
pub fn route_notification(device: &String, layout: ChannelLayout, characteristic: u128, value: &[u8]) -> (r:
    Option<ExternalBleEvent>)
    ensures
        routed(device@, layout, characteristic, value@, r),
{
    if characteristic == CHARACTERISTIC_BATTERY {
        if value.len() > 0 {
            Some(ExternalBleEvent::BatteryLevelChanged(device.clone(), value[0]))
        } else {
            None
        }
    } else if characteristic == CHARACTERISTIC_DATA {
        match decode_frame(device, layout, value) {
            Ok(batch) => Some(ExternalBleEvent::DataReceived(batch)),
            Err(_) => None,
        }
    } else {
        None
    }
}

/// Where a peripheral session stands.
#[derive(Debug, Clone, Copy, PartialEq, Eq, Structural)]
pub enum SessionState {
    Discovered,
    Connecting,
    Introspecting,
    SyncingTime,
    Streaming,
    Disconnected,
}

/// What was read from a device while introspecting it: the serial number and model
/// texts, the battery level and the first data frame.
pub struct DeviceInfo {
    pub serial: Vec<u8>,
    pub model: Vec<u8>,
    pub battery: u8,
    pub first_data: Vec<u8>,
}

/// What the transport reports about one peripheral.
pub enum SessionEvent {
    /// Connected, services discovered.
    Connected,
    /// Device information read; battery and data notifications subscribed.
    Introspected(DeviceInfo),
    /// The time characteristic was read back: the host clock right after the read
    /// (microseconds since the Unix epoch) and the bytes read.
    TimeRead(i64, Vec<u8>),
    /// A notification: characteristic and value.
    Notification(u128, Vec<u8>),
    /// The connection failed, dropped or its notification stream ended.
    Lost,
}

/// What the transport is to do next for one peripheral.
pub enum SessionAction {
    /// Connect and discover services.
    Connect,
    /// Read serial number, model, battery level and a first data frame; subscribe to
    /// battery and data notifications.
    Introspect,
    /// Write the host time to the time characteristic without response, then read it
    /// back.
    SyncTime,
    /// Hand an event to the bus.
    Publish(ExternalBleEvent),
    /// Nothing to do.
    Nothing,
}

/// The serial number a session keeps: the text's value, or 0 where it holds none.
pub open spec fn kept_serial(text: Seq<u8>) -> u16 {
    match serial_of(text) {
        Some(v) => v,
        None => 0,
    }
}

/// The model name a session keeps: the decoded text, or empty where it is not
/// UTF-8.
pub open spec fn kept_name(text: Seq<u8>) -> Seq<char> {
    if valid_utf8(text) {
        decode_utf8(text)
    } else {
        Seq::empty()
    }
}

/// The state machine of one peripheral: connect, introspect, align clocks, stream,
/// disconnect.
pub struct Session {
    id: String,
    state: SessionState,
    layout: ChannelLayout,
    serial: u16,
    name: String,
    battery: u8,
    sync: TimeSync,
}

impl Session {
    pub closed spec fn id(&self) -> Seq<char> {
        self.id@
    }

    pub closed spec fn state(&self) -> SessionState {
        self.state
    }

    /// The channel layout found while introspecting.
    pub closed spec fn layout(&self) -> ChannelLayout {
        self.layout
    }

    pub closed spec fn serial(&self) -> u16 {
        self.serial
    }

    pub closed spec fn name(&self) -> Seq<char> {
        self.name@
    }

    pub closed spec fn battery(&self) -> u8 {
        self.battery
    }

    /// Time readings taken in the current clock alignment.
    pub closed spec fn attempts(&self) -> u32 {
        self.sync.attempts()
    }

    /// The last round-trip time measured in the current clock alignment.
    pub closed spec fn last_measured(&self) -> Option<i64> {
        self.sync.last_measured()
    }

    /// The round-trip cap of clock alignment, in milliseconds.
    pub closed spec fn cap_ms(&self) -> u32 {
        self.sync.cap_ms()
    }

    pub closed spec fn wf(&self) -> bool {
        self.state == SessionState::SyncingTime ==> self.sync.attempts() < MAX_SYNC_ATTEMPTS
    }

    /// The record a session announces once its clock is aligned.
    pub open spec fn announced(&self, drift: i64) -> DeviceView {
        DeviceView {
            id: self.id(),
            serial: self.serial(),
            name: self.name(),
            battery: self.battery(),
            drift_us: drift,
            connected: true,
            channels: layout_channels(self.id(), self.layout()),
        }
    }

    /// The publication of a lost session.
    pub open spec fn lost(&self, r: SessionAction) -> bool {
        match r {
            SessionAction::Publish(ExternalBleEvent::DeviceDisconnected(id)) => id@ == self.id(),
            _ => false,
        }
    }

    /// A session for the discovered peripheral `id`, aligning clocks under a cap of
    /// `max_initial_rtt_ms`.
    pub fn new(id: String, max_initial_rtt_ms: u32) -> (r: Session)
        ensures
            r.wf(),
            r.id() == id@,
            r.state() == SessionState::Discovered,
            r.cap_ms() == max_initial_rtt_ms,
    {
        Session {
            id,
            state: SessionState::Discovered,
            layout: ChannelLayout::PpgOnly,
            serial: 0,
            name: String::new(),
            battery: 0,
            sync: TimeSync::new(max_initial_rtt_ms),
        }
    }

    /// The peripheral's id.
    pub fn device_id(&self) -> (r: &String)
        ensures
            r@ == self.id(),
    {
        &self.id
    }

    /// Where the session stands.
    pub fn current_state(&self) -> (r: SessionState)
        ensures
            r == self.state(),
    {
        self.state
    }

    /// Starts connecting a discovered peripheral; in any other state, nothing.
    pub fn start(&mut self) -> (r: SessionAction)
        requires
            old(self).wf(),
        ensures
            final(self).wf(),
            final(self).id() == old(self).id(),
            final(self).cap_ms() == old(self).cap_ms(),
            old(self).state() == SessionState::Discovered ==> final(self).state()
                == SessionState::Connecting && r is Connect,
            old(self).state() != SessionState::Discovered ==> final(self).state() == old(
                self,
            ).state() && r is Nothing,
    {
        if self.state == SessionState::Discovered {
            self.state = SessionState::Connecting;
            SessionAction::Connect
        } else {
            SessionAction::Nothing
        }
    }

    fn drop_session(&mut self) -> (r: SessionAction)
        ensures
            final(self).state() == SessionState::Disconnected,
            final(self).id() == old(self).id(),
            final(self).cap_ms() == old(self).cap_ms(),
            old(self).lost(r),
    {
        self.state = SessionState::Disconnected;
        SessionAction::Publish(ExternalBleEvent::DeviceDisconnected(self.id.clone()))
    }

    /// Advances the session on a transport event and says what to do next.
    ///
    /// - `Lost` in any state but `Disconnected`: the session ends and its
    ///   disconnection is published.
    /// - `Connected` while connecting: introspection starts.
    /// - `Introspected` while introspecting: a first frame of the wrong length ends
    ///   the session; otherwise the layout, serial number (0 where the text holds
    ///   none), model name (empty where not UTF-8) and battery level are kept and
    ///   clock alignment starts.
    /// - `TimeRead` while aligning clocks: the reading is taken as `sync_outcome`
    ///   says (one that does not decode is dropped as a failed attempt); an accepted
    ///   round trip, or the fifth attempt, starts streaming and publishes the
    ///   connected device with the round trip as its drift; otherwise another
    ///   attempt follows.
    /// - `Notification` while streaming: the routed event, if any, is published.
    /// - Anything else changes nothing.
    pub fn step(&mut self, event: SessionEvent) -> (r: SessionAction)
        requires
            old(self).wf(),
        ensures
            final(self).wf(),
            final(self).id() == old(self).id(),
            final(self).cap_ms() == old(self).cap_ms(),
            match event {
                SessionEvent::Lost => if old(self).state() != SessionState::Disconnected {
                    final(self).state() == SessionState::Disconnected && old(self).lost(r)
                } else {
                    final(self).state() == old(self).state() && r is Nothing
                },
                SessionEvent::Connected => if old(self).state() == SessionState::Connecting {
                    final(self).state() == SessionState::Introspecting && r is Introspect
                } else {
                    final(self).state() == old(self).state() && r is Nothing
                },
                SessionEvent::Introspected(info) => if old(self).state()
                    == SessionState::Introspecting {
                    if info.first_data@.len() != 25 {
                        final(self).state() == SessionState::Disconnected && old(self).lost(r)
                    } else {
                        &&& final(self).state() == SessionState::SyncingTime
                        &&& r is SyncTime
                        &&& final(self).layout() == layout_of(info.first_data@)
                        &&& final(self).serial() == kept_serial(info.serial@)
                        &&& final(self).name() == kept_name(info.model@)
                        &&& final(self).battery() == info.battery
                        &&& final(self).attempts() == 0
                    }
                } else {
                    final(self).state() == old(self).state() && r is Nothing
                },
                SessionEvent::TimeRead(host_us, reading) => if old(self).state()
                    == SessionState::SyncingTime {
                    let outcome = sync_outcome(
                        old(self).attempts(),
                        old(self).last_measured(),
                        old(self).cap_ms(),
                        host_us,
                        reading@,
                    );
                    &&& final(self).attempts() == old(self).attempts() + 1
                    &&& final(self).last_measured() == last_after(
                        old(self).last_measured(),
                        host_us,
                        reading@,
                    )
                    &&& match outcome {
                        SyncStep::Accepted(rtt) | SyncStep::Exhausted(rtt) => final(self).state()
                            == SessionState::Streaming && match r {
                            SessionAction::Publish(ExternalBleEvent::DeviceConnected(d)) => d@
                                == old(self).announced(rtt),
                            _ => false,
                        },
                        SyncStep::Retry => final(self).state() == SessionState::SyncingTime
                            && r is SyncTime,
                    }
                } else {
                    final(self).state() == old(self).state() && r is Nothing
                },
                SessionEvent::Notification(characteristic, value) => {
                    &&& final(self).state() == old(self).state()
                    &&& old(self).state() == SessionState::Streaming ==> match r {
                        SessionAction::Publish(e) => routed(
                            old(self).id(),
                            old(self).layout(),
                            characteristic,
                            value@,
                            Some(e),
                        ),
                        SessionAction::Nothing => routed(
                            old(self).id(),
                            old(self).layout(),
                            characteristic,
                            value@,
                            None,
                        ),
                        _ => false,
                    }
                    &&& old(self).state() != SessionState::Streaming ==> r is Nothing
                },
            },
    {
        match event {
            SessionEvent::Lost => {
                if self.state != SessionState::Disconnected {
                    self.drop_session()
                } else {
                    SessionAction::Nothing
                }
            },
            SessionEvent::Connected => {
                if self.state == SessionState::Connecting {
                    self.state = SessionState::Introspecting;
                    SessionAction::Introspect
                } else {
                    SessionAction::Nothing
                }
            },
            SessionEvent::Introspected(info) => {
                if self.state != SessionState::Introspecting {
                    return SessionAction::Nothing;
                }
                match infer_layout(info.first_data.as_slice()) {
                    Err(_) => self.drop_session(),
                    Ok(layout) => {
                        self.layout = layout;
                        self.serial = match parse_serial(info.serial.as_slice()) {
                            Some(v) => v,
                            None => 0,
                        };
                        self.name = match utf8_text(info.model) {
                            Some(text) => text,
                            None => String::new(),
                        };
                        self.battery = info.battery;
                        self.sync = TimeSync::new(self.sync.cap());
                        self.state = SessionState::SyncingTime;
                        SessionAction::SyncTime
                    },
                }
            },
            SessionEvent::TimeRead(host_us, reading) => {
                if self.state != SessionState::SyncingTime {
                    return SessionAction::Nothing;
                }
                match self.sync.on_reading(host_us, reading.as_slice()) {
                    SyncStep::Retry => SessionAction::SyncTime,
                    SyncStep::Accepted(rtt) => self.announce(rtt),
                    SyncStep::Exhausted(rtt) => self.announce(rtt),
                }
            },
            SessionEvent::Notification(characteristic, value) => {
                if self.state != SessionState::Streaming {
                    return SessionAction::Nothing;
                }
                match route_notification(&self.id, self.layout, characteristic, value.as_slice()) {
                    Some(e) => SessionAction::Publish(e),
                    None => SessionAction::Nothing,
                }
            },
        }
    }

    fn announce(&mut self, rtt: i64) -> (r: SessionAction)
        ensures
            final(self).state() == SessionState::Streaming,
            final(self).id() == old(self).id(),
            final(self).cap_ms() == old(self).cap_ms(),
            final(self).attempts() == old(self).attempts(),
            final(self).last_measured() == old(self).last_measured(),
            match r {
                SessionAction::Publish(ExternalBleEvent::DeviceConnected(d)) => d@ == old(
                    self,
                ).announced(rtt),
                _ => false,
            },
    {
        let channels = create_channels(&self.id, self.layout);
        let device = Device {
            id: self.id.clone(),
            serial: self.serial,
            name: self.name.clone(),
            battery: self.battery,
            drift_us: rtt,
            connected: true,
            channels,
        };
        self.state = SessionState::Streaming;
        SessionAction::Publish(ExternalBleEvent::DeviceConnected(device))
    }
}

} // verus!
