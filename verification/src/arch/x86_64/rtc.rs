//! CMOS real-time clock: register decoding (BCD and 12-hour modes), and
//! conversion between calendar time and Unix seconds.

use vstd::prelude::*;
use crate::text::{dec_pad, spec_dec_pad};
use vstd::arithmetic::div_mod::lemma_fundamental_div_mod_converse;

verus! {

pub const REG_SECOND: u8 = 0x00;
pub const REG_MINUTE: u8 = 0x02;
pub const REG_HOUR: u8 = 0x04;
pub const REG_DAY: u8 = 0x07;
pub const REG_MONTH: u8 = 0x08;
pub const REG_YEAR: u8 = 0x09;
pub const REG_STATUS_A: u8 = 0x0A;
pub const REG_STATUS_B: u8 = 0x0B;

/// Wall-clock time broken down into UTC components.
#[derive(Clone, Copy, Debug, PartialEq, Eq, Structural)]
pub struct DateTime {
    pub year: u16,
    pub month: u8,
    pub day: u8,
    pub hour: u8,
    pub minute: u8,
    pub second: u8,
}

/// The raw clock registers read in one pass; `century` is 0 when the
/// firmware names no century register.
#[derive(Clone, Copy, Debug, PartialEq, Eq, Structural)]
pub struct CmosTime {
    pub second: u8,
    pub minute: u8,
    pub hour: u8,
    pub day: u8,
    pub month: u8,
    pub year: u8,
    pub century: u8,
    pub status_b: u8,
}

/// Whether the clock is in the middle of an update (status A bit 7).
pub fn update_in_progress(status_a: u8) -> (r: bool)
    ensures
        r == (status_a >= 0x80),
{
    let r = status_a & 0x80 != 0;
    assert((status_a & 0x80 != 0) == (status_a >= 0x80)) by (bit_vector);
    r
}

pub open spec fn spec_decode(value: u8, bcd: bool) -> u8 {
    if bcd { ((value / 16) * 10 + value % 16) as u8 } else { value }
}

/// A register value: two BCD digits in bcd mode, binary otherwise.
pub fn decode(value: u8, bcd: bool) -> (r: u8)
    ensures
        r == spec_decode(value, bcd),
{
    if bcd {
        let hi = value >> 4;
        let lo = value & 0x0F;
        assert(value >> 4 == value / 16 && value & 0x0F == value % 16) by (bit_vector);
        hi * 10 + lo
    } else {
        value
    }
}

/// Two-digit BCD of a value below 100 decodes to the value.
pub proof fn lemma_bcd_roundtrip(n: u8)
    requires
        n < 100,
    ensures
        spec_decode(((n / 10) * 16 + n % 10) as u8, true) == n,
{
}

/// The hour in 24-hour form: in 12-hour mode bit 7 marks PM, 12 AM is 0
/// and 12 PM stays 12.
pub open spec fn spec_hour(raw: u8, bcd: bool, twelve_hour: bool) -> u8 {
    let v = spec_decode(raw % 0x80, bcd);
    if twelve_hour && raw >= 0x80 && v != 12 {
        (v + 12) as u8
    } else if twelve_hour && v == 12 && raw < 0x80 {
        0
    } else {
        v
    }
}

/// The time the registers show. Status B bit 2 selects binary mode, bit 1
/// 24-hour mode; without a century register the century is 20.
pub open spec fn spec_from_cmos(t: CmosTime) -> DateTime {
    let bcd = t.status_b & 0x04 == 0;
    let twelve_hour = t.status_b & 0x02 == 0;
    let cent = if t.century != 0 { spec_decode(t.century, bcd) } else { 20 };
    DateTime {
        year: (cent * 100 + spec_decode(t.year, bcd)) as u16,
        month: spec_decode(t.month, bcd),
        day: spec_decode(t.day, bcd),
        hour: spec_hour(t.hour, bcd, twelve_hour),
        minute: spec_decode(t.minute, bcd),
        second: spec_decode(t.second, bcd),
    }
}

/// What the clock registers say, by the MC146818 conventions: with status B
/// bit 2 clear every register holds two BCD digits (0x30 is 30), with it
/// set a plain binary number; status B bit 1 set means a 24-hour hour
/// register, clear a 12-hour one whose bit 7 marks PM (12 AM is hour 0,
/// 12 PM hour 12); the century register, when there is one, gives the
/// hundreds of the year, else the year is in the 2000s.
pub proof fn lemma_cmos_fields(t: CmosTime)
    ensures
        ({
            let r = spec_from_cmos(t);
            let bcd = t.status_b & 0x04u8 == 0;
            let hour = t.hour % 0x80;
            let h = if bcd { (hour / 16) * 10 + hour % 16 } else { hour as int };
            let c = if t.century == 0 { 20 } else if bcd { (t.century / 16) * 10 + t.century % 16 } else { t.century as int };
            &&& bcd ==> {
                &&& r.second == (t.second / 16) * 10 + t.second % 16
                &&& r.minute == (t.minute / 16) * 10 + t.minute % 16
                &&& r.day == (t.day / 16) * 10 + t.day % 16
                &&& r.month == (t.month / 16) * 10 + t.month % 16
                &&& r.year == c * 100 + (t.year / 16) * 10 + t.year % 16
            }
            &&& !bcd ==> {
                &&& r.second == t.second
                &&& r.minute == t.minute
                &&& r.day == t.day
                &&& r.month == t.month
                &&& r.year == c * 100 + t.year
            }
            &&& t.status_b & 0x02u8 != 0 ==> r.hour == h
            &&& t.status_b & 0x02u8 == 0 && 1 <= h <= 12 ==> r.hour == h % 12 + if t.hour >= 0x80 { 12int } else { 0int }
        }),
{
}

pub fn datetime_from_cmos(t: CmosTime) -> (r: DateTime)
    ensures
        r == spec_from_cmos(t),
{
    let bcd = t.status_b & 0x04 == 0;
    let twelve_hour = t.status_b & 0x02 == 0;
    let sec = decode(t.second, bcd);
    let min = decode(t.minute, bcd);
    let hr_raw = t.hour;
    let hr_value = decode(hr_raw & 0x7F, bcd);
    assert(hr_raw & 0x7F == hr_raw % 0x80 && (hr_raw & 0x80 != 0) == (hr_raw >= 0x80)) by (bit_vector);
    let hour = if twelve_hour && hr_raw & 0x80 != 0 && hr_value != 12 {
        hr_value + 12
    } else if twelve_hour && hr_value == 12 && hr_raw & 0x80 == 0 {
        0
    } else {
        hr_value
    };
    let day = decode(t.day, bcd);
    let mon = decode(t.month, bcd);
    let yr = decode(t.year, bcd);
    let cent = if t.century != 0 { decode(t.century, bcd) } else { 20 };
    DateTime { year: cent as u16 * 100 + yr as u16, month: mon, day, hour, minute: min, second: sec }
}

/// Two readings agree in every field.
pub fn same_time(a: DateTime, b: DateTime) -> (r: bool)
    ensures
        r == (a == b),
{
    a.year == b.year && a.month == b.month && a.day == b.day && a.hour == b.hour && a.minute == b.minute
        && a.second == b.second
}

/// Days from 1970-01-01 to the given proleptic Gregorian date, counted in
/// 400-year eras of 146097 days with March as the first month of the year.
pub open spec fn days_from_civil(year: int, month: int, day: int) -> int {
    let y = if month <= 2 { year - 1 } else { year };
    let era = if y >= 0 { y / 400 } else { (y - 399) / 400 };
    let yoe = y - era * 400;
    let m = if month > 2 { month - 3 } else { month + 9 };
    let doy = (153 * m + 2) / 5 + day - 1;
    let doe = yoe * 365 + yoe / 4 - yoe / 100 + doy;
    era * 146097 + doe - 719468
}

pub open spec fn spec_to_unix(dt: DateTime) -> int {
    days_from_civil(dt.year as int, dt.month as int, dt.day as int) * 86400 + dt.hour * 3600 + dt.minute * 60 + dt.second
}

/// Unix seconds of a UTC calendar time.
pub fn to_unix(dt: DateTime) -> (r: i64)
    ensures
        r == spec_to_unix(dt),
{
    let year = dt.year as i64;
    let month = dt.month as i64;
    let day = dt.day as i64;
    let y = if month <= 2 { year - 1 } else { year };
    let era = if y >= 0 { y / 400 } else { (y - 399) / 400 };
    let yoe = y - era * 400;
    let m = if month > 2 { month - 3 } else { month + 9 };
    let doy = (153 * m + 2) / 5 + day - 1;
    let doe = yoe * 365 + yoe / 4 - yoe / 100 + doy;
    let days = era * 146097 + doe - 719468;
    days * 86400 + dt.hour as i64 * 3600 + dt.minute as i64 * 60 + dt.second as i64
}

/// Division rounding toward zero, as the processor divides signed integers.
pub open spec fn tdiv(a: int, b: int) -> int {
    if a >= 0 { a / b } else { -((-a) / b) }
}

/// The proleptic Gregorian (year, month, day) of a day count from 1970-01-01.
pub open spec fn civil_from_days(days: int) -> (int, int, int) {
    let z = days + 719468;
    let era = if z >= 0 { tdiv(z, 146097) } else { tdiv(z - 146096, 146097) };
    let doe = z - era * 146097;
    let yoe = tdiv(doe - tdiv(doe, 1460) + tdiv(doe, 36524) - tdiv(doe, 146096), 365);
    let y = yoe + era * 400;
    let doy = doe - (365 * yoe + tdiv(yoe, 4) - tdiv(yoe, 100));
    let mp = tdiv(5 * doy + 2, 153);
    let d = doy - tdiv(153 * mp + 2, 5) + 1;
    let m = if mp < 10 { mp + 3 } else { mp - 9 };
    let year = if m <= 2 { y + 1 } else { y };
    (year, m, d)
}

/// The calendar time of Unix seconds; the year is kept modulo 2^16.
pub open spec fn spec_from_unix(secs: int) -> DateTime {
    let (year, m, d) = civil_from_days(secs / 86400);
    let time = secs % 86400;
    DateTime {
        year: year as u16,
        month: m as u8,
        day: d as u8,
        hour: (time / 3600) as u8,
        minute: ((time / 60) % 60) as u8,
        second: (time % 60) as u8,
    }
}

/// Days bound: any day count that a 64-bit second count yields.
pub open spec fn days_in_range(days: int) -> bool {
    -106_751_991_167_301 <= days <= 106_751_991_167_300
}

#[verifier::rlimit(50)]
fn days_to_civil(days: i64) -> (r: (i64, i64, i64))
    requires
        days_in_range(days as int),
    ensures
        (r.0 as int, r.1 as int, r.2 as int) == civil_from_days(days as int),
{
    let z = days + 719468;
    let era = if z >= 0 { z / 146097 } else { (z - 146096) / 146097 };
    assert(-800_000_000 <= era <= 800_000_000);
    let doe = z - era * 146097;
    assert(-300_000 <= doe <= 300_000);
    let yoe = (doe - doe / 1460 + doe / 36524 - doe / 146096) / 365;
    assert(-1000 <= yoe <= 1000);
    let y = yoe + era * 400;
    let doy = doe - (365 * yoe + yoe / 4 - yoe / 100);
    assert(-1_000_000 <= doy <= 1_000_000);
    let mp = (5 * doy + 2) / 153;
    let d = doy - (153 * mp + 2) / 5 + 1;
    let m = if mp < 10 { mp + 3 } else { mp - 9 };
    let year = if m <= 2 { y + 1 } else { y };
    (year, m, d)
}

/// Calendar time of Unix seconds (UTC, proleptic Gregorian); the year is
/// kept modulo 2^16.
pub fn from_unix(secs: i64) -> (r: DateTime)
    ensures
        r == spec_from_unix(secs as int),
{
    let days = match secs.checked_div_euclid(86400) {
        Some(d) => d,
        None => 0,
    };
    let time = match secs.checked_rem_euclid(86400) {
        Some(t) => t,
        None => 0,
    };
    let hour = (time / 3600) as u8;
    let minute = ((time / 60) % 60) as u8;
    let second = (time % 60) as u8;
    let (year, m, d) = days_to_civil(days);
    DateTime { year: year as u16, month: m as u8, day: d as u8, hour, minute, second }
}

/// Wall-clock seconds: the boot reading plus whole seconds elapsed since.
pub fn unix_now(boot_unix_secs: i64, elapsed_ns: u64) -> (r: i64)
    requires
        boot_unix_secs + elapsed_ns / 1_000_000_000 <= i64::MAX,
    ensures
        r == boot_unix_secs + elapsed_ns / 1_000_000_000,
{
    boot_unix_secs + (elapsed_ns / 1_000_000_000) as i64
}


/// `dt` as `YYYY-MM-DD HH:MM:SS`, each field zero padded to its width.
pub open spec fn spec_format_datetime(dt: DateTime) -> Seq<u8> {
    spec_dec_pad(dt.year as nat, 4) + seq![0x2du8] + spec_dec_pad(dt.month as nat, 2) + seq![0x2du8]
        + spec_dec_pad(dt.day as nat, 2) + seq![0x20u8] + spec_dec_pad(dt.hour as nat, 2) + seq![0x3au8]
        + spec_dec_pad(dt.minute as nat, 2) + seq![0x3au8] + spec_dec_pad(dt.second as nat, 2)
}

/// A Unix timestamp as `YYYY-MM-DD HH:MM:SS` (UTC).
pub fn format_unix(secs: i64) -> (r: Vec<u8>)
    ensures
        r@ == spec_format_datetime(spec_from_unix(secs as int)),
{
    let dt = from_unix(secs);
    let mut out = dec_pad(dt.year as u64, 4);
    out.push(0x2d);
    let mut f = dec_pad(dt.month as u64, 2);
    out.append(&mut f);
    out.push(0x2d);
    let mut f = dec_pad(dt.day as u64, 2);
    out.append(&mut f);
    out.push(0x20);
    let mut f = dec_pad(dt.hour as u64, 2);
    out.append(&mut f);
    out.push(0x3a);
    let mut f = dec_pad(dt.minute as u64, 2);
    out.append(&mut f);
    out.push(0x3a);
    let mut f = dec_pad(dt.second as u64, 2);
    out.append(&mut f);
    out
}


/// First day (counted from March 1 of the era's first year) of year `yoe`
/// of a 400-year era.
pub open spec fn year_start(yoe: int) -> int {
    365 * yoe + yoe / 4 - yoe / 100
}

/// The day after the last day of year `yoe` of an era.
pub open spec fn year_end(yoe: int) -> int {
    if yoe == 399 { 146097 } else { year_start(yoe + 1) }
}

/// The year of an era that day `doe` of the era falls in.
pub open spec fn year_of_era_day(doe: int) -> int {
    (doe - doe / 1460 + doe / 36524 - doe / 146096) / 365
}

/// Every day of year `yoe` of an era maps back to that year.
proof fn lemma_year_of_era_day(yoe: int, doy: int)
    requires
        0 <= yoe < 400,
        0 <= doy < year_end(yoe) - year_start(yoe),
    ensures
        year_of_era_day(year_start(yoe) + doy) == yoe,
{
    let c = yoe / 100;
    let s = (yoe % 100) / 4;
    let r = yoe % 4;
    assert(yoe == 100 * c + 4 * s + r);
    assert(year_start(yoe) == 36524 * c + 1461 * s + 365 * r);
}

/// Whether `year` is a leap year of the proleptic Gregorian calendar.
pub open spec fn is_leap(year: int) -> bool {
    year % 4 == 0 && (year % 100 != 0 || year % 400 == 0)
}

pub open spec fn days_in_month(year: int, month: int) -> int {
    if month == 2 {
        if is_leap(year) { 29 } else { 28 }
    } else if month == 4 || month == 6 || month == 9 || month == 11 {
        30
    } else {
        31
    }
}

/// A calendar time that names a real second: a month of the year, a day
/// of that month, and a time of day.
pub open spec fn valid_datetime(dt: DateTime) -> bool {
    &&& 1 <= dt.month <= 12
    &&& 1 <= dt.day <= days_in_month(dt.year as int, dt.month as int)
    &&& dt.hour < 24
    &&& dt.minute < 60
    &&& dt.second < 60
}

/// Year `yoe` of an era is 366 days long exactly when the February it ends
/// with is a leap February.
proof fn lemma_year_length(yoe: int)
    requires
        0 <= yoe < 400,
    ensures
        year_end(yoe) - year_start(yoe) == if is_leap(yoe + 1) { 366int } else { 365int },
{
    let c = yoe / 100;
    let s = (yoe % 100) / 4;
    let r = yoe % 4;
    assert(yoe == 100 * c + 4 * s + r);
    assert(year_start(yoe) == 36524 * c + 1461 * s + 365 * r);
    if yoe < 399 {
        let y1 = yoe + 1;
        let c1 = y1 / 100;
        let s1 = (y1 % 100) / 4;
        let r1 = y1 % 4;
        assert(y1 == 100 * c1 + 4 * s1 + r1);
        assert(year_start(y1) == 36524 * c1 + 1461 * s1 + 365 * r1);
    }
}

/// Day `doy` of a March-based year is day `day` of month `mp` (0 for March).
proof fn lemma_month_of_year_day(mp: int, day: int)
    requires
        0 <= mp < 12,
        1 <= day,
        day <= if mp == 11 { 29int } else if mp == 1 || mp == 3 || mp == 6 || mp == 8 { 30int } else { 31int },
    ensures
        ({
            let doy = (153 * mp + 2) / 5 + day - 1;
            &&& (5 * doy + 2) / 153 == mp
            &&& doy - (153 * mp + 2) / 5 + 1 == day
        }),
{
}

/// The calendar month of a March-based month index.
pub open spec fn month_of(mp: int) -> int {
    if mp < 10 { mp + 3 } else { mp - 9 }
}

/// The date that day `doy` of year `yoe` of era `era` falls on.
pub open spec fn date_of(era: int, yoe: int, doy: int) -> (int, int, int) {
    let mp = (5 * doy + 2) / 153;
    let m = month_of(mp);
    let y = yoe + era * 400;
    (if m <= 2 { y + 1 } else { y }, m, doy - (153 * mp + 2) / 5 + 1)
}

/// `civil_from_days` takes a day count apart into its era, year of era and
/// day of year, and names the date of that day.
proof fn lemma_civil_from_days_parts(era: int, yoe: int, doy: int)
    requires
        0 <= yoe < 400,
        0 <= doy < year_end(yoe) - year_start(yoe),
    ensures
        civil_from_days(era * 146097 + year_start(yoe) + doy - 719468) == date_of(era, yoe, doy),
{
    let doe = year_start(yoe) + doy;
    let z = era * 146097 + doe;
    lemma_year_length(yoe);
    assert(0 <= doe < 146097);
    if z >= 0 {
        lemma_fundamental_div_mod_converse(z, 146097, era, doe);
        assert(tdiv(z, 146097) == era);
    } else {
        lemma_fundamental_div_mod_converse(146096 - z, 146097, -era, 146096 - doe);
        assert(tdiv(z - 146096, 146097) == era);
    }
    lemma_year_of_era_day(yoe, doy);
    assert(tdiv(doe - tdiv(doe, 1460) + tdiv(doe, 36524) - tdiv(doe, 146096), 365) == yoe);
    assert(doe - (365 * yoe + tdiv(yoe, 4) - tdiv(yoe, 100)) == doy);
}

/// A valid date's day count splits into an era, a year of the era and a
/// day of that year whose date is the date itself.
proof fn lemma_days_from_civil_parts(year: int, month: int, day: int) -> (r: (int, int, int))
    requires
        0 <= year < 65536,
        1 <= month <= 12,
        1 <= day <= days_in_month(year, month),
    ensures
        0 <= r.1 < 400,
        0 <= r.2 < year_end(r.1) - year_start(r.1),
        days_from_civil(year, month, day) == r.0 * 146097 + year_start(r.1) + r.2 - 719468,
        date_of(r.0, r.1, r.2) == (year, month, day),
{
    let y = if month <= 2 { year - 1 } else { year };
    let era = if y >= 0 { y / 400 } else { (y - 399) / 400 };
    let yoe = y - era * 400;
    let mp = if month > 2 { month - 3 } else { month + 9 };
    let doy = (153 * mp + 2) / 5 + day - 1;
    assert(0 <= yoe < 400 && y == era * 400 + yoe);
    lemma_month_of_year_day(mp, day);
    lemma_year_length(yoe);
    if mp == 11 && day == 29 {
        assert(year == era * 400 + (yoe + 1));
        assert(is_leap(yoe + 1));
    }
    (era, yoe, doy)
}

/// A time of day in seconds splits back into its hour, minute and second.
proof fn lemma_time_of_day(h: int, m: int, sec: int)
    requires
        0 <= h < 24,
        0 <= m < 60,
        0 <= sec < 60,
    ensures
        ({
            let tod = h * 3600 + m * 60 + sec;
            &&& 0 <= tod < 86400
            &&& tod / 3600 == h
            &&& (tod / 60) % 60 == m
            &&& tod % 60 == sec
        }),
{
    let tod = h * 3600 + m * 60 + sec;
    lemma_fundamental_div_mod_converse(tod, 3600, h, m * 60 + sec);
    lemma_fundamental_div_mod_converse(tod, 60, h * 60 + m, sec);
    lemma_fundamental_div_mod_converse(h * 60 + m, 60, h, m);
}

/// Converting a valid calendar time to Unix seconds and back gives the same
/// calendar time.
pub proof fn lemma_unix_round_trip(dt: DateTime)
    requires
        valid_datetime(dt),
    ensures
        spec_from_unix(spec_to_unix(dt)) == dt,
{
    let (era, yoe, doy) = lemma_days_from_civil_parts(dt.year as int, dt.month as int, dt.day as int);
    let days = days_from_civil(dt.year as int, dt.month as int, dt.day as int);
    assert(civil_from_days(days) == (dt.year as int, dt.month as int, dt.day as int)) by {
        lemma_civil_from_days_parts(era, yoe, doy);
    }
    let tod = dt.hour * 3600 + dt.minute * 60 + dt.second;
    lemma_time_of_day(dt.hour as int, dt.minute as int, dt.second as int);
    let secs = spec_to_unix(dt);
    assert(secs == days * 86400 + tod);
    assert(secs / 86400 == days && secs % 86400 == tod) by {
        lemma_fundamental_div_mod_converse(secs, 86400, days, tod);
    }
}

} // verus!
