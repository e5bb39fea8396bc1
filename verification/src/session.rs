//! The session log: its file name and the lines it is made of.

use crate::baseline::{MICRO, ONE};
use crate::digits::{decimal, fixed_digits, power, push_bytes, push_decimal, push_fixed_digits};
use vstd::prelude::*;
use vstd::string::StringSliceAdditionalSpecFns;

verus! {

/// Seconds in a day.
pub const DAY_SECONDS: u64 = 86_400;

/// The Julian day number of 1 January 1970.
pub const UNIX_EPOCH_JDN: u64 = 2_440_588;

/// A date and time of day in the Gregorian calendar, in UTC.
#[derive(Debug, Clone, Copy, PartialEq, Eq, Structural)]
pub struct CivilTime {
    pub year: u64,
    pub month: u64,
    pub day: u64,
    pub hour: u64,
    pub minute: u64,
    pub second: u64,
}

/// The Gregorian date of the day with Julian day number `jdn`, as year,
/// month and day, by the integer form of the conversion: the day is placed
/// in its 400-year cycle, then in its 4-year cycle, then in its year counted
/// from March.
pub open spec fn gregorian_of_jdn(jdn: int) -> (int, int, int) {
    let a = jdn + 32044;
    let b = (4 * a + 3) / 146097;
    let c = a - (146097 * b) / 4;
    let d = (4 * c + 3) / 1461;
    let e = c - (1461 * d) / 4;
    let m = (5 * e + 2) / 153;
    (100 * b + d - 4800 + m / 10, m + 3 - 12 * (m / 10), e - (153 * m + 2) / 5 + 1)
}

/// The Julian day number of the day `day` of month `month` of year `year` in
/// the Gregorian calendar: the days of the months since March, of the years
/// and of the leap days before it.
pub open spec fn jdn_of_gregorian(year: int, month: int, day: int) -> int {
    let early = (14 - month) / 12;
    let y = year + 4800 - early;
    let m = month + 12 * early - 3;
    day + (153 * m + 2) / 5 + 365 * y + y / 4 - y / 100 + y / 400 - 32045
}

/// The date that `gregorian_of_jdn` gives for a day is the date of that day:
/// its month and its day of the month are in range, and its day number is
/// the one that was given.
pub proof fn gregorian_date_is_of_its_day(jdn: int)
    requires
        jdn >= 0,
    ensures
        1 <= gregorian_of_jdn(jdn).1 <= 12,
        1 <= gregorian_of_jdn(jdn).2 <= 31,
        jdn_of_gregorian(
            gregorian_of_jdn(jdn).0,
            gregorian_of_jdn(jdn).1,
            gregorian_of_jdn(jdn).2,
        ) == jdn,
{
    let a = jdn + 32044;
    let b = (4 * a + 3) / 146097;
    let c = a - (146097 * b) / 4;
    let d = (4 * c + 3) / 1461;
    let e = c - (1461 * d) / 4;
    let m = (5 * e + 2) / 153;
    assert(0 <= c <= 36524);
    assert(0 <= d <= 99);
    assert(0 <= e <= 365);
    assert(0 <= m <= 11);
    let year = 100 * b + d - 4800 + m / 10;
    let month = m + 3 - 12 * (m / 10);
    let early = (14 - month) / 12;
    assert(early == m / 10);
    let y = year + 4800 - early;
    assert(y == 100 * b + d);
    assert(month + 12 * early - 3 == m);
    assert(y / 100 == b);
    assert(y / 400 == b / 4);
    assert(y / 4 == 25 * b + d / 4);
    assert((1461 * d) / 4 == 365 * d + d / 4);
    assert((146097 * b) / 4 == 36524 * b + b / 4);
}

/// The date and time of day, `secs` seconds after the Unix epoch.
pub open spec fn civil_time(secs: u64) -> CivilTime {
    let date = gregorian_of_jdn(secs / DAY_SECONDS + UNIX_EPOCH_JDN);
    let of_day = secs % DAY_SECONDS;
    CivilTime {
        year: date.0 as u64,
        month: date.1 as u64,
        day: date.2 as u64,
        hour: of_day / 3600,
        minute: (of_day % 3600) / 60,
        second: of_day % 60,
    }
}

/// The date and time of day, `secs` seconds after the Unix epoch.
pub fn civil_from_unix(secs: u64) -> (t: CivilTime)
    ensures
        t == civil_time(secs),
        jdn_of_gregorian(t.year as int, t.month as int, t.day as int) == secs / DAY_SECONDS
            + UNIX_EPOCH_JDN,
        t.hour * 3600 + t.minute * 60 + t.second == secs % DAY_SECONDS,
        t.year >= 1970,
        1 <= t.month <= 12,
        1 <= t.day <= 31,
        t.hour < 24,
        t.minute < 60,
        t.second < 60,
{
    proof {
        gregorian_date_is_of_its_day(secs / DAY_SECONDS + UNIX_EPOCH_JDN);
    }
    let days = secs / DAY_SECONDS;
    let of_day = secs % DAY_SECONDS;
    let a = days + UNIX_EPOCH_JDN + 32044;
    let b = (4 * a + 3) / 146097;
    let c = a - (146097 * b) / 4;
    let d = (4 * c + 3) / 1461;
    let e = c - (1461 * d) / 4;
    let m = (5 * e + 2) / 153;
    CivilTime {
        year: 100 * b + d - 4800 + m / 10,
        month: m + 3 - 12 * (m / 10),
        day: e - (153 * m + 2) / 5 + 1,
        hour: of_day / 3600,
        minute: (of_day % 3600) / 60,
        second: of_day % 60,
    }
}

/// The time stamp `YYYYMMDD_HHMMSS` of `t`.
pub open spec fn stamp(t: CivilTime) -> Seq<u8> {
    decimal(t.year as int, 4) + decimal(t.month as int, 2) + decimal(t.day as int, 2)
        + "_".spec_bytes() + decimal(t.hour as int, 2) + decimal(t.minute as int, 2) + decimal(
        t.second as int,
        2,
    )
}

/// The time stamp `YYYYMMDD_HHMMSS` of the moment `secs` seconds after the
/// Unix epoch, in UTC.
pub fn chrono_like_filename(secs: u64) -> (name: Vec<u8>)
    ensures
        name@ == stamp(civil_time(secs)),
{
    let t = civil_from_unix(secs);
    let mut name: Vec<u8> = Vec::new();
    push_decimal(&mut name, t.year, 4);
    push_decimal(&mut name, t.month, 2);
    push_decimal(&mut name, t.day, 2);
    push_bytes(&mut name, "_".as_bytes());
    push_decimal(&mut name, t.hour, 2);
    push_decimal(&mut name, t.minute, 2);
    push_decimal(&mut name, t.second, 2);
    name
}

/// The name of the log file of the session that starts `secs` seconds after
/// the Unix epoch.
pub open spec fn session_file_name(secs: u64) -> Seq<u8> {
    "gse_".spec_bytes() + stamp(civil_time(secs)) + ".ndjson".spec_bytes()
}

/// The name of the log file of the session that starts `secs` seconds after
/// the Unix epoch.
pub fn default_log_name(secs: u64) -> (name: Vec<u8>)
    ensures
        name@ == session_file_name(secs),
{
    let mut name: Vec<u8> = Vec::new();
    push_bytes(&mut name, "gse_".as_bytes());
    let when = chrono_like_filename(secs);
    push_bytes(&mut name, when.as_slice());
    push_bytes(&mut name, ".ndjson".as_bytes());
    name
}

/// One entry of the session log. Features count millionths, probabilities
/// parts per `ONE`.
#[derive(Debug, Clone, Copy)]
pub enum LogEntry {
    /// A key event as it arrived.
    Key { vk_code: u32, timestamp: u64, is_press: bool },
    /// The features of one update and the belief shown after it.
    Feat {
        timestamp: u64,
        f1: u64,
        f2: u64,
        f3: u64,
        f4: u64,
        f5: u64,
        f6: u64,
        p_flow: u64,
        p_inc: u64,
        p_stuck: u64,
    },
    /// The input method went into composition mode, or out of it.
    ImeState { timestamp: u64, on: bool },
    /// The session ends.
    End,
}

/// `value / scale` rounded to `places` decimal places, halves up, in units
/// of the last place.
pub open spec fn rounded(value: u64, scale: u64, places: nat) -> int {
    (value * power(10, places) + scale / 2) / (scale as int)
}

/// `value / scale` written with `places` decimal places.
pub open spec fn fixed_point(value: u64, scale: u64, places: nat) -> Seq<u8> {
    let r = rounded(value, scale, places);
    decimal(r / power(10, places), 1) + ".".spec_bytes() + fixed_digits(
        r % power(10, places),
        10,
        places,
    )
}

/// `true` or `false`.
pub open spec fn boolean(b: bool) -> Seq<u8> {
    if b {
        "true".spec_bytes()
    } else {
        "false".spec_bytes()
    }
}

/// The line that opens the log of a session that starts at `now_ms`.
pub open spec fn start_line(now_ms: u64) -> Seq<u8> {
    "{\"type\":\"meta\",\"session_start\":".spec_bytes() + decimal(now_ms as int, 1)
        + "}".spec_bytes()
}

/// The line of `entry`, written at `now_ms`.
pub open spec fn line_of(entry: LogEntry, now_ms: u64) -> Seq<u8> {
    match entry {
        LogEntry::Key { vk_code, timestamp, is_press } => "{\"type\":\"key\",\"t\":".spec_bytes()
            + decimal(timestamp as int, 1) + ",\"vk\":".spec_bytes() + decimal(vk_code as int, 1)
            + ",\"press\":".spec_bytes() + boolean(is_press) + "}".spec_bytes(),
        LogEntry::Feat { timestamp, f1, f2, f3, f4, f5, f6, p_flow, p_inc, p_stuck } =>
            "{\"type\":\"feat\",\"t\":".spec_bytes() + decimal(timestamp as int, 1)
                + ",\"f1\":".spec_bytes() + fixed_point(f1, MICRO, 2) + ",\"f2\":".spec_bytes()
                + fixed_point(f2, MICRO, 2) + ",\"f3\":".spec_bytes() + fixed_point(f3, MICRO, 4)
                + ",\"f4\":".spec_bytes() + fixed_point(f4, MICRO, 2) + ",\"f5\":".spec_bytes()
                + fixed_point(f5, MICRO, 1) + ",\"f6\":".spec_bytes() + fixed_point(f6, MICRO, 4)
                + ",\"p_flow\":".spec_bytes() + fixed_point(p_flow, ONE, 4)
                + ",\"p_inc\":".spec_bytes() + fixed_point(p_inc, ONE, 4)
                + ",\"p_stuck\":".spec_bytes() + fixed_point(p_stuck, ONE, 4) + "}".spec_bytes(),
        LogEntry::ImeState { timestamp, on } => "{\"type\":\"ime_state\",\"t\":".spec_bytes()
            + decimal(timestamp as int, 1) + ",\"on\":".spec_bytes() + boolean(on)
            + "}".spec_bytes(),
        LogEntry::End => "{\"type\":\"meta\",\"session_end\":".spec_bytes() + decimal(
            now_ms as int,
            1,
        ) + "}".spec_bytes(),
    }
}

/// Ten to the power `places`.
fn power_of_ten(places: usize) -> (p: u64)
    requires
        places <= 4,
    ensures
        p == power(10, places as nat),
        1 <= p <= 10_000,
{
    reveal_with_fuel(power, 5);
    if places == 0 {
        1
    } else if places == 1 {
        10
    } else if places == 2 {
        100
    } else if places == 3 {
        1_000
    } else {
        10_000
    }
}

/// Appends `value / scale`, written with `places` decimal places, to `out`.
fn push_fixed_point(out: &mut Vec<u8>, value: u64, scale: u64, places: usize)
    requires
        places <= 4,
        scale >= 10_000,
    ensures
        final(out)@ == old(out)@ + fixed_point(value, scale, places as nat),
{
    let unit = power_of_ten(places);
    proof {
        let v = value as int;
        let u = unit as int;
        let s = scale as int;
        assert(0 <= v * u <= v * 10_000 && v * u + s / 2 < (v + 1) * s) by (nonlinear_arith)
            requires
                0 <= v,
                1 <= u <= 10_000,
                s >= 10_000,
        ;
        let x = v * u + s / 2;
        assert(x / s <= v) by (nonlinear_arith)
            requires
                0 <= x < (v + 1) * s,
                s > 0,
        ;
    }
    let wide: u128 = (value as u128) * (unit as u128) + (scale / 2) as u128;
    let r128: u128 = wide / (scale as u128);
    let r: u64 = r128 as u64;
    push_decimal(out, r / unit, 1);
    push_bytes(out, ".".as_bytes());
    push_fixed_digits(out, r % unit, 10, places);
}

/// Appends `true` or `false` to `out`.
fn push_boolean(out: &mut Vec<u8>, b: bool)
    ensures
        final(out)@ == old(out)@ + boolean(b),
{
    if b {
        push_bytes(out, "true".as_bytes());
    } else {
        push_bytes(out, "false".as_bytes());
    }
}

/// The line that opens the log of a session that starts at `now_ms`.
pub fn format_start(now_ms: u64) -> (line: Vec<u8>)
    ensures
        line@ == start_line(now_ms),
{
    let mut line: Vec<u8> = Vec::new();
    push_bytes(&mut line, "{\"type\":\"meta\",\"session_start\":".as_bytes());
    push_decimal(&mut line, now_ms, 1);
    push_bytes(&mut line, "}".as_bytes());
    line
}

/// The line of `entry`, written at `now_ms`. No line break follows it.
pub fn format_entry(entry: &LogEntry, now_ms: u64) -> (line: Vec<u8>)
    ensures
        line@ == line_of(*entry, now_ms),
{
    let mut line: Vec<u8> = Vec::new();
    match *entry {
        LogEntry::Key { vk_code, timestamp, is_press } => {
            push_bytes(&mut line, "{\"type\":\"key\",\"t\":".as_bytes());
            push_decimal(&mut line, timestamp, 1);
            push_bytes(&mut line, ",\"vk\":".as_bytes());
            push_decimal(&mut line, vk_code as u64, 1);
            push_bytes(&mut line, ",\"press\":".as_bytes());
            push_boolean(&mut line, is_press);
            push_bytes(&mut line, "}".as_bytes());
        },
        LogEntry::Feat { timestamp, f1, f2, f3, f4, f5, f6, p_flow, p_inc, p_stuck } => {
            push_bytes(&mut line, "{\"type\":\"feat\",\"t\":".as_bytes());
            push_decimal(&mut line, timestamp, 1);
            push_bytes(&mut line, ",\"f1\":".as_bytes());
            push_fixed_point(&mut line, f1, MICRO, 2);
            push_bytes(&mut line, ",\"f2\":".as_bytes());
            push_fixed_point(&mut line, f2, MICRO, 2);
            push_bytes(&mut line, ",\"f3\":".as_bytes());
            push_fixed_point(&mut line, f3, MICRO, 4);
            push_bytes(&mut line, ",\"f4\":".as_bytes());
            push_fixed_point(&mut line, f4, MICRO, 2);
            push_bytes(&mut line, ",\"f5\":".as_bytes());
            push_fixed_point(&mut line, f5, MICRO, 1);
            push_bytes(&mut line, ",\"f6\":".as_bytes());
            push_fixed_point(&mut line, f6, MICRO, 4);
            push_bytes(&mut line, ",\"p_flow\":".as_bytes());
            push_fixed_point(&mut line, p_flow, ONE, 4);
            push_bytes(&mut line, ",\"p_inc\":".as_bytes());
            push_fixed_point(&mut line, p_inc, ONE, 4);
            push_bytes(&mut line, ",\"p_stuck\":".as_bytes());
            push_fixed_point(&mut line, p_stuck, ONE, 4);
            push_bytes(&mut line, "}".as_bytes());
        },
        LogEntry::ImeState { timestamp, on } => {
            push_bytes(&mut line, "{\"type\":\"ime_state\",\"t\":".as_bytes());
            push_decimal(&mut line, timestamp, 1);
            push_bytes(&mut line, ",\"on\":".as_bytes());
            push_boolean(&mut line, on);
            push_bytes(&mut line, "}".as_bytes());
        },
        LogEntry::End => {
            push_bytes(&mut line, "{\"type\":\"meta\",\"session_end\":".as_bytes());
            push_decimal(&mut line, now_ms, 1);
            push_bytes(&mut line, "}".as_bytes());
        },
    }
    line
}

/// Whether the log is closed after `entry`.
pub fn closes_session(entry: &LogEntry) -> (last: bool)
    ensures
        last == (*entry is End),
{
    match entry {
        LogEntry::End => true,
        _ => false,
    }
}

} // verus!
