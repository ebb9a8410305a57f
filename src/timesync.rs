use vstd::prelude::*;

use crate::codec::{ble_data_to_time, decoded, timestamp_micros, BleTime};

verus! {

/// Readings taken before the last one measured is published whatever it is.
pub const MAX_SYNC_ATTEMPTS: u32 = 5;

/// `v` held to the range of `i64`.
pub open spec fn clamp_i64(v: int) -> i64 {
    if v > i64::MAX {
        i64::MAX
    } else if v < i64::MIN {
        i64::MIN
    } else {
        v as i64
    }
}

/// Round-trip time of one reading: host time after the read minus the device
/// time read back, in microseconds.
pub open spec fn rtt_of(host_us: i64, device: BleTime) -> i64 {
    clamp_i64(host_us - device.epoch_micros())
}

/// Whether a round-trip time is accepted under a cap of `max_ms` milliseconds:
/// its magnitude is below the cap.
pub open spec fn within_cap(rtt: i64, max_ms: u32) -> bool {
    -(max_ms * 1000) < rtt < max_ms * 1000
}

/// What to do after a reading.
#[derive(Debug, Clone, Copy, PartialEq, Eq, Structural)]
pub enum SyncStep {
    /// The round-trip time is within the cap: publish it.
    Accepted(i64),
    /// Write the host time and read it back once more.
    Retry,
    /// No reading was within the cap: publish the last one measured.
    Exhausted(i64),
}

/// The outcome of one reading, taken after `attempts` earlier ones whose last
/// measured round-trip time was `last`.
///
/// A reading that does not decode is dropped and counts as a failed attempt. A
/// measured round-trip time within the cap is accepted. Otherwise another attempt
/// follows, until the fifth, which publishes the last round-trip time measured
/// (0 where no reading ever decoded).
pub open spec fn sync_outcome(
    attempts: u32,
    last: Option<i64>,
    cap_ms: u32,
    host_us: i64,
    reading: Seq<u8>,
) -> SyncStep {
    let measured = match decoded(reading) {
        Ok(t) => Some(rtt_of(host_us, t)),
        Err(_) => last,
    };
    if decoded(reading) is Ok && within_cap(measured->Some_0, cap_ms) {
        SyncStep::Accepted(measured->Some_0)
    } else if attempts + 1 < MAX_SYNC_ATTEMPTS {
        SyncStep::Retry
    } else {
        SyncStep::Exhausted(
            match measured {
                Some(v) => v,
                None => 0,
            },
        )
    }
}

/// The last round-trip time measured once a reading was taken.
pub open spec fn last_after(last: Option<i64>, host_us: i64, reading: Seq<u8>) -> Option<i64> {
    match decoded(reading) {
        Ok(t) => Some(rtt_of(host_us, t)),
        Err(_) => last,
    }
}

/// The clock-alignment exchange with one device.
///
/// Each attempt writes the host time to the device's time characteristic, reads it
/// back and measures the round trip; up to `MAX_SYNC_ATTEMPTS` attempts are made.
pub struct TimeSync {
    max_initial_rtt_ms: u32,
    attempts: u32,
    last_rtt: Option<i64>,
}

impl TimeSync {
    /// The cap on the round-trip time, in milliseconds.
    pub closed spec fn cap_ms(&self) -> u32 {
        self.max_initial_rtt_ms
    }

    /// Readings taken so far.
    pub closed spec fn attempts(&self) -> u32 {
        self.attempts
    }

    /// The last round-trip time measured, if any reading decoded.
    pub closed spec fn last_measured(&self) -> Option<i64> {
        self.last_rtt
    }

    /// The cap on the round-trip time, in milliseconds.
    pub fn cap(&self) -> (r: u32)
        ensures
            r == self.cap_ms(),
    {
        self.max_initial_rtt_ms
    }

    /// An exchange with no reading yet.
    pub fn new(max_initial_rtt_ms: u32) -> (r: TimeSync)
        ensures
            r.cap_ms() == max_initial_rtt_ms,
            r.attempts() == 0,
            r.last_measured() is None,
    {
        TimeSync { max_initial_rtt_ms, attempts: 0, last_rtt: None }
    }

    /// Takes one reading: `host_us` is the host clock (microseconds since the Unix
    /// epoch) right after the read completed, `reading` the bytes read back. What
    /// follows is `sync_outcome`.
    pub fn on_reading(&mut self, host_us: i64, reading: &[u8]) -> (r: SyncStep)
        requires
            old(self).attempts() < MAX_SYNC_ATTEMPTS,
        ensures
            final(self).cap_ms() == old(self).cap_ms(),
            final(self).attempts() == old(self).attempts() + 1,
            final(self).last_measured() == last_after(old(self).last_measured(), host_us, reading@),
            r == sync_outcome(
                old(self).attempts(),
                old(self).last_measured(),
                old(self).cap_ms(),
                host_us,
                reading@,
            ),
    {
        self.attempts = self.attempts + 1;
        let device = match ble_data_to_time(reading) {
            Ok(t) => t,
            Err(_) => {
                return if self.attempts < MAX_SYNC_ATTEMPTS {
                    SyncStep::Retry
                } else {
                    SyncStep::Exhausted(
                        match self.last_rtt {
                            Some(v) => v,
                            None => 0,
                        },
                    )
                };
            },
        };
        let device_us = timestamp_micros(&device);
        let rtt: i64 = match host_us.checked_sub(device_us) {
            Some(d) => d,
            None => if host_us > device_us {
                i64::MAX
            } else {
                i64::MIN
            },
        };
        self.last_rtt = Some(rtt);
        let cap: i64 = self.max_initial_rtt_ms as i64 * 1000;
        if -cap < rtt && rtt < cap {
            SyncStep::Accepted(rtt)
        } else if self.attempts < MAX_SYNC_ATTEMPTS {
            SyncStep::Retry
        } else {
            SyncStep::Exhausted(rtt)
        }
    }
}

} // verus!
