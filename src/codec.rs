use vstd::prelude::*;

use chrono::Datelike;

verus! {

/// Whether `year` is a leap year of the proleptic Gregorian calendar.
pub open spec fn leap_year(year: int) -> bool {
    (year % 4 == 0 && year % 100 != 0) || year % 400 == 0
}

/// Number of days of `month` (1..=12) in `year`.
pub open spec fn days_in_month(year: int, month: int) -> int {
    if month == 2 {
        if leap_year(year) {
            29
        } else {
            28
        }
    } else if month == 4 || month == 6 || month == 9 || month == 11 {
        30
    } else {
        31
    }
}

/// Whether year, month and day name a day of the proleptic Gregorian calendar.
pub open spec fn valid_date(year: int, month: int, day: int) -> bool {
    1 <= month <= 12 && 1 <= day <= days_in_month(year, month)
}

/// Days from 1970-01-01 to a date of the proleptic Gregorian calendar: whole
/// 400-year eras, then years counted from March so that a leap day ends its year.
pub open spec fn days_from_civil(year: int, month: int, day: int) -> int {
    let y = if month <= 2 {
        year - 1
    } else {
        year
    };
    let era = y / 400;
    let yoe = y - era * 400;
    let mp = (month + 9) % 12;
    let doy = (153 * mp + 2) / 5 + day - 1;
    let doe = yoe * 365 + yoe / 4 - yoe / 100 + doy;
    era * 146097 + doe - 719468
}

/// The day of the week of a calendar date: 0 for Monday up to 6 for Sunday
/// (1970-01-01 was a Thursday).
pub open spec fn days_from_monday(year: int, month: int, day: int) -> int {
    (days_from_civil(year, month, day) + 3) % 7
}

/// Microseconds from 1970-01-01T00:00:00 UTC to the given instant, leap seconds
/// not counted.
pub open spec fn epoch_micros_of(
    year: int,
    month: int,
    day: int,
    hour: int,
    minute: int,
    second: int,
    micro: int,
) -> int {
    ((days_from_civil(year, month, day) * 86400 + hour * 3600 + minute * 60 + second)
        * 1_000_000) + micro
}

/// Relies on chrono's `NaiveDate::from_ymd_opt`, which returns `Some` exactly for
/// a valid date of the proleptic Gregorian calendar; every `u16` year lies inside
/// its range.
#[verifier::external_body]
fn is_calendar_date(year: u16, month: u8, day: u8) -> (r: bool)
    ensures
        r == valid_date(year as int, month as int, day as int),
{
    chrono::NaiveDate::from_ymd_opt(year as i32, month as u32, day as u32).is_some()
}

/// Relies on chrono's `Datelike::weekday` of a `NaiveDate` and
/// `Weekday::num_days_from_monday`, which counts 0 for Monday up to 6 for Sunday.
#[verifier::external_body]
fn weekday_from_monday(year: u16, month: u8, day: u8) -> (r: u8)
    requires
        valid_date(year as int, month as int, day as int),
    ensures
        r as int == days_from_monday(year as int, month as int, day as int),
        r < 7,
{
    let date = chrono::NaiveDate::from_ymd_opt(year as i32, month as u32, day as u32).unwrap();
    date.weekday().num_days_from_monday() as u8
}

/// A UTC instant with microsecond precision, as the fields of the wire format.
#[derive(Debug, Clone, Copy, PartialEq, Eq, Structural)]
pub struct BleTime {
    pub year: u16,
    pub month: u8,
    pub day: u8,
    pub hour: u8,
    pub minute: u8,
    pub second: u8,
    pub microsecond: u32,
}

impl BleTime {
    /// A real calendar date and a time of day.
    pub open spec fn wf(&self) -> bool {
        &&& valid_date(self.year as int, self.month as int, self.day as int)
        &&& self.hour < 24
        &&& self.minute < 60
        &&& self.second < 60
        &&& self.microsecond < 1_000_000
    }

    /// The instant, or `None` where the fields name no date or time of day.
    pub fn new(
        year: u16,
        month: u8,
        day: u8,
        hour: u8,
        minute: u8,
        second: u8,
        microsecond: u32,
    ) -> (r: Option<BleTime>)
        ensures
            r.is_some() <==> (BleTime { year, month, day, hour, minute, second, microsecond }).wf(),
            r.is_some() ==> r.unwrap() == (BleTime {
                year,
                month,
                day,
                hour,
                minute,
                second,
                microsecond,
            }),
    {
        if hour < 24 && minute < 60 && second < 60 && microsecond < 1_000_000
            && is_calendar_date(year, month, day) {
            Some(BleTime { year, month, day, hour, minute, second, microsecond })
        } else {
            None
        }
    }

    /// The instant's distance from the Unix epoch in microseconds.
    pub open spec fn epoch_micros(&self) -> int {
        epoch_micros_of(
            self.year as int,
            self.month as int,
            self.day as int,
            self.hour as int,
            self.minute as int,
            self.second as int,
            self.microsecond as int,
        )
    }
}

/// Relies on chrono: `NaiveDate::from_ymd_opt`, `NaiveDate::and_hms_micro_opt`,
/// `NaiveDateTime::and_utc` and `DateTime::timestamp_micros`, microseconds since the
/// Unix epoch; for a `u16` year the product inside stays within `i64`.
#[verifier::external_body]
pub(crate) fn timestamp_micros(t: &BleTime) -> (r: i64)
    requires
        t.wf(),
    ensures
        r as int == epoch_micros_of(t.year as int, t.month as int, t.day as int, t.hour as int, t.minute as int, t.second as int, t.microsecond as int),
{
    let date = chrono::NaiveDate::from_ymd_opt(t.year as i32, t.month as u32, t.day as u32).unwrap();
    let time = date.and_hms_micro_opt(
        t.hour as u32,
        t.minute as u32,
        t.second as u32,
        t.microsecond as u32,
    ).unwrap();
    time.and_utc().timestamp_micros()
}

/// Length of the time characteristic in bytes.
pub const TIME_FRAME_LEN: usize = 11;

/// Fraction-of-second units (1/65536 s) nearest to `us` microseconds, at most
/// 65535.
pub open spec fn micros_to_units(us: int) -> int {
    let u = (us * 65536 + 500_000) / 1_000_000;
    if u > 65535 {
        65535
    } else {
        u
    }
}

/// Microseconds nearest to `f` units of 1/65536 s, halves rounded up.
pub open spec fn units_to_micros(f: int) -> int {
    (f * 1_000_000 + 32768) / 65536
}

/// Little-endian value of two bytes.
pub open spec fn le16(lo: u8, hi: u8) -> int {
    lo as int + 256 * hi as int
}

/// The wire form of `t`: year (little-endian), month, day, hour, minute, second,
/// day of the week (1 for Monday up to 7 for Sunday), fraction units
/// (little-endian) and a reserved zero.
pub open spec fn encoded(t: BleTime) -> Seq<u8> {
    let f = micros_to_units(t.microsecond as int);
    seq![
        (t.year % 256) as u8,
        (t.year / 256) as u8,
        t.month,
        t.day,
        t.hour,
        t.minute,
        t.second,
        (days_from_monday(t.year as int, t.month as int, t.day as int) + 1) as u8,
        (f % 256) as u8,
        (f / 256) as u8,
        0u8,
    ]
}

/// Why a time characteristic could not be read.
#[derive(Debug, Clone, Copy, PartialEq, Eq, Structural)]
pub enum TimeFormatError {
    /// The frame is not 11 bytes long.
    WrongLength,
    /// The fields name no date or no time of day.
    InvalidTime,
}

/// The fields of an 11-byte frame; the day of the week and the reserved byte are
/// not read.
pub open spec fn frame_fields(b: Seq<u8>) -> BleTime {
    BleTime {
        year: le16(b[0], b[1]) as u16,
        month: b[2],
        day: b[3],
        hour: b[4],
        minute: b[5],
        second: b[6],
        microsecond: units_to_micros(le16(b[8], b[9])) as u32,
    }
}

/// The instant a frame holds, or why it holds none.
pub open spec fn decoded(b: Seq<u8>) -> Result<BleTime, TimeFormatError> {
    if b.len() != 11 {
        Err(TimeFormatError::WrongLength)
    } else if !frame_fields(b).wf() {
        Err(TimeFormatError::InvalidTime)
    } else {
        Ok(frame_fields(b))
    }
}

/// `t` with its microseconds cut to what the fraction units can carry.
pub open spec fn truncated(t: BleTime) -> BleTime {
    BleTime { microsecond: units_to_micros(micros_to_units(t.microsecond as int)) as u32, ..t }
}

/// A frame that decodes, with the day of the week of its date and a zero reserved
/// byte.
pub open spec fn well_formed_frame(b: Seq<u8>) -> bool {
    &&& decoded(b) is Ok
    &&& b[7] as int == days_from_monday(le16(b[0], b[1]), b[2] as int, b[3] as int) + 1
    &&& b[10] == 0
}

/// Encodes `current_time` into the 11 bytes of the time characteristic.
pub fn time_to_ble_data(current_time: &BleTime) -> (r: Vec<u8>)
    requires
        current_time.wf(),
    ensures
        r@ == encoded(*current_time),
{
    let t = current_time;
    let us = t.microsecond as u64;
    let rounded = (us * 65536 + 500_000) / 1_000_000;
    let units: u64 = if rounded > 65535 {
        65535
    } else {
        rounded
    };
    // the wire counts Monday as 1 up to Sunday as 7
    let day_of_week = weekday_from_monday(t.year, t.month, t.day) + 1;
    let r: Vec<u8> = vec![
        (t.year % 256) as u8,
        (t.year / 256) as u8,
        t.month,
        t.day,
        t.hour,
        t.minute,
        t.second,
        day_of_week,
        (units % 256) as u8,
        (units / 256) as u8,
        0,
    ];
    assert(r@ =~= encoded(*t));
    r
}

/// Decodes the 11 bytes of the time characteristic.
pub fn ble_data_to_time(data: &[u8]) -> (r: Result<BleTime, TimeFormatError>)
    ensures
        r == decoded(data@),
{
    if data.len() != TIME_FRAME_LEN {
        return Err(TimeFormatError::WrongLength);
    }
    let year: u16 = data[0] as u16 + 256 * data[1] as u16;
    let units: u64 = data[8] as u64 + 256 * data[9] as u64;
    let us = (units * 1_000_000 + 32768) / 65536;
    proof {
        lemma_units_to_micros_below_second(units as int);
    }
    match BleTime::new(year, data[2], data[3], data[4], data[5], data[6], us as u32) {
        Some(t) => Ok(t),
        None => Err(TimeFormatError::InvalidTime),
    }
}

/// Every fraction a frame can carry is less than a second.
pub proof fn lemma_units_to_micros_below_second(f: int)
    requires
        0 <= f <= 65535,
    ensures
        0 <= units_to_micros(f) <= 999_985,
{
    assert(f * 1_000_000 + 32768 <= 65535 * 1_000_000 + 32768) by (nonlinear_arith)
        requires
            f <= 65535,
    ;
    assert(0 <= f * 1_000_000) by (nonlinear_arith)
        requires
            0 <= f,
    ;
}

/// Rounding microseconds to units and back lands on the same units.
pub proof fn lemma_units_round_trip(f: int)
    requires
        0 <= f <= 65535,
    ensures
        micros_to_units(units_to_micros(f)) == f,
{
    let u = units_to_micros(f);
    let x = f * 1_000_000 + 32768;
    assert(65536 * u <= x < 65536 * u + 65536) by (nonlinear_arith)
        requires
            u == x / 65536,
            x >= 0,
    ;
    let y = u * 65536 + 500_000;
    assert(f * 1_000_000 <= y < (f + 1) * 1_000_000) by (nonlinear_arith)
        requires
            65536 * u <= x < 65536 * u + 65536,
            x == f * 1_000_000 + 32768,
            y == u * 65536 + 500_000,
    ;
    assert(y / 1_000_000 == f) by (nonlinear_arith)
        requires
            f * 1_000_000 <= y < (f + 1) * 1_000_000,
    ;
}

/// Decoding what was encoded gives the instant back, its microseconds cut to the
/// fraction unit of 1/65536 s.
pub proof fn lemma_decode_encode(t: BleTime)
    requires
        t.wf(),
    ensures
        decoded(encoded(t)) == Ok::<BleTime, TimeFormatError>(truncated(t)),
        truncated(t).wf(),
{
    let us = t.microsecond as int;
    assert(0 <= us * 65536 + 500_000 <= 999_999 * 65536 + 500_000) by (nonlinear_arith)
        requires
            0 <= us <= 999_999,
    ;
    let f = micros_to_units(us);
    assert(0 <= f <= 65535);
    lemma_units_to_micros_below_second(f);
    let b = encoded(t);
    assert(le16(b[0], b[1]) == t.year as int);
    assert(le16(b[8], b[9]) == f);
    assert(frame_fields(b) == truncated(t));
}

/// Encoding what was decoded from a well-formed frame gives the frame back.
pub proof fn lemma_encode_decode(b: Seq<u8>)
    requires
        well_formed_frame(b),
    ensures
        encoded(decoded(b)->Ok_0) == b,
{
    let t = frame_fields(b);
    let f = le16(b[8], b[9]);
    lemma_units_round_trip(f);
    lemma_units_to_micros_below_second(f);
    assert(t.microsecond as int == units_to_micros(f));
    assert(t.year as int == le16(b[0], b[1]));
    assert(encoded(t) =~= b);
}

} // verus!
