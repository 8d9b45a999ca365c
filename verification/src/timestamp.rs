//! Nanosecond timestamps: FIX timestamp formatting at millisecond, microsecond and
//! nanosecond precision (UTC, `YYYYMMDD-HH:MM:SS.fff...`), the civil calendar, and the
//! arithmetic that turns CPU timestamp-counter ticks into nanoseconds.

use vstd::prelude::*;

verus! {

/// Timestamp source selection.
#[derive(Debug, Clone, Copy, PartialEq, Eq, PartialOrd, Ord, Structural)]
pub enum TimestampSource {
    /// The system clock.
    System,
    /// The CPU timestamp counter.
    Tsc,
    /// Hardware NIC timestamps.
    Hardware,
    /// A PTP-synchronized clock.
    Ptp,
}

/// A high-resolution timestamp: nanoseconds since the Unix epoch (or since an arbitrary
/// origin for raw counter readings), and where it came from.
#[derive(Debug, Clone, Copy, PartialEq, Eq, PartialOrd, Ord, Structural)]
pub struct HrTimestamp {
    pub nanos: u64,
    pub source: TimestampSource,
}

/// The ASCII digit for `v` (meant for 0..=9), in wrapping byte arithmetic.
pub open spec fn ascii(v: u32) -> u8 {
    48u8.wrapping_add(v as u8)
}

pub open spec fn digits2(v: u32) -> Seq<u8> {
    seq![ascii(v / 10), ascii(v % 10)]
}

pub open spec fn digits3(v: u32) -> Seq<u8> {
    seq![ascii(v / 100), ascii((v / 10) % 10), ascii(v % 10)]
}

pub open spec fn digits4(v: u32) -> Seq<u8> {
    seq![ascii(v / 1000), ascii((v / 100) % 10), ascii((v / 10) % 10), ascii(v % 10)]
}

pub open spec fn digits6(v: u32) -> Seq<u8> {
    seq![
        ascii(v / 100000),
        ascii((v / 10000) % 10),
        ascii((v / 1000) % 10),
        ascii((v / 100) % 10),
        ascii((v / 10) % 10),
        ascii(v % 10),
    ]
}

pub open spec fn digits9(v: u32) -> Seq<u8> {
    seq![
        ascii(v / 100000000),
        ascii((v / 10000000) % 10),
        ascii((v / 1000000) % 10),
        ascii((v / 100000) % 10),
        ascii((v / 10000) % 10),
        ascii((v / 1000) % 10),
        ascii((v / 100) % 10),
        ascii((v / 10) % 10),
        ascii(v % 10),
    ]
}

/// The proleptic Gregorian date (year, month, day) of the day `days` after 1970-01-01
/// (Howard Hinnant's `civil_from_days`, with floor division).
pub open spec fn civil(days: int) -> (int, int, int) {
    let z = days + 719468;
    let era = z / 146097;
    let doe = z - era * 146097;
    let yoe = (doe - doe / 1460 + doe / 36524 - doe / 146096) / 365;
    let y = yoe + era * 400;
    let doy = doe - (365 * yoe + yoe / 4 - yoe / 100);
    let mp = (5 * doy + 2) / 153;
    let d = doy - (153 * mp + 2) / 5 + 1;
    let m = if mp < 10 {
        mp + 3
    } else {
        mp - 9
    };
    (if m <= 2 {
        y + 1
    } else {
        y
    }, m, d)
}

/// The UTC components of a nanosecond count: year, month, day, hour, minute, second and
/// the nanoseconds within the second.
pub open spec fn utc_components(nanos: u64) -> (u32, u32, u32, u32, u32, u32, u64) {
    let secs = nanos / 1_000_000_000;
    let frac = nanos % 1_000_000_000;
    let days = secs / 86400;
    let day_secs = secs % 86400;
    let c = civil(days as int);
    (
        c.0 as u32,
        c.1 as u32,
        c.2 as u32,
        (day_secs / 3600) as u32,
        ((day_secs % 3600) / 60) as u32,
        (day_secs % 60) as u32,
        frac,
    )
}

/// `YYYYMMDD-HH:MM:SS.` for a nanosecond count.
pub open spec fn date_time_prefix(nanos: u64) -> Seq<u8> {
    let c = utc_components(nanos);
    digits4(c.0) + digits2(c.1) + digits2(c.2) + seq![45u8] + digits2(c.3) + seq![58u8] + digits2(c.4)
        + seq![58u8] + digits2(c.5) + seq![46u8]
}

/// The FIX timestamp with millisecond precision.
pub open spec fn fix_timestamp_ms(nanos: u64) -> Seq<u8> {
    date_time_prefix(nanos) + digits3((utc_components(nanos).6 / 1_000_000) as u32)
}

/// The FIX timestamp with microsecond precision.
pub open spec fn fix_timestamp_us(nanos: u64) -> Seq<u8> {
    date_time_prefix(nanos) + digits6((utc_components(nanos).6 / 1_000) as u32)
}

/// The FIX timestamp with nanosecond precision.
pub open spec fn fix_timestamp_ns(nanos: u64) -> Seq<u8> {
    date_time_prefix(nanos) + digits9(utc_components(nanos).6 as u32)
}

/// Civil date from days since 1970-01-01 (Howard Hinnant's algorithm).
pub fn civil_from_days(days: i64) -> (r: (i64, u32, u32))
    requires
        days <= i64::MAX - 719468,
        days >= i64::MIN + 146097,
    ensures
        r.0 == civil(days as int).0,
        r.1 == civil(days as int).1,
        r.2 == civil(days as int).2,
{
    let z = days + 719468;
    let era: i64 = if z >= 0 {
        z / 146097
    } else {
        -((146096 - z) / 146097)
    };
    assert(era == z as int / 146097);
    let doe = (z - era * 146097) as u32;
    let yoe = (doe - doe / 1460 + doe / 36524 - doe / 146096) / 365;
    assert(yoe <= 399);
    let y = yoe as i64 + era * 400;
    let doy = doe - (365 * yoe + yoe / 4 - yoe / 100);
    assert(doy <= 365);
    let mp = (5 * doy + 2) / 153;
    let d = doy - (153 * mp + 2) / 5 + 1;
    let m = if mp < 10 {
        mp + 3
    } else {
        mp - 9
    };
    let y = if m <= 2 {
        y + 1
    } else {
        y
    };
    (y, m, d)
}

fn write_digits2<const N: usize>(buf: &mut [u8; N], at: usize, val: u32)
    requires
        at + 2 <= N,
    ensures
        final(buf)@ == old(buf)@.take(at as int) + digits2(val) + old(buf)@.skip(at + 2),
{
    buf[at] = 48u8.wrapping_add((val / 10) as u8);
    buf[at + 1] = 48u8.wrapping_add((val % 10) as u8);
    assert(buf@ =~= old(buf)@.take(at as int) + digits2(val) + old(buf)@.skip(at + 2));
}

fn write_digits3<const N: usize>(buf: &mut [u8; N], at: usize, val: u32)
    requires
        at + 3 <= N,
    ensures
        final(buf)@ == old(buf)@.take(at as int) + digits3(val) + old(buf)@.skip(at + 3),
{
    buf[at] = 48u8.wrapping_add((val / 100) as u8);
    buf[at + 1] = 48u8.wrapping_add(((val / 10) % 10) as u8);
    buf[at + 2] = 48u8.wrapping_add((val % 10) as u8);
    assert(buf@ =~= old(buf)@.take(at as int) + digits3(val) + old(buf)@.skip(at + 3));
}

fn write_digits4<const N: usize>(buf: &mut [u8; N], at: usize, val: u32)
    requires
        at + 4 <= N,
    ensures
        final(buf)@ == old(buf)@.take(at as int) + digits4(val) + old(buf)@.skip(at + 4),
{
    buf[at] = 48u8.wrapping_add((val / 1000) as u8);
    buf[at + 1] = 48u8.wrapping_add(((val / 100) % 10) as u8);
    buf[at + 2] = 48u8.wrapping_add(((val / 10) % 10) as u8);
    buf[at + 3] = 48u8.wrapping_add((val % 10) as u8);
    assert(buf@ =~= old(buf)@.take(at as int) + digits4(val) + old(buf)@.skip(at + 4));
}

fn write_digits6<const N: usize>(buf: &mut [u8; N], at: usize, val: u32)
    requires
        at + 6 <= N,
    ensures
        final(buf)@ == old(buf)@.take(at as int) + digits6(val) + old(buf)@.skip(at + 6),
{
    buf[at] = 48u8.wrapping_add((val / 100_000) as u8);
    buf[at + 1] = 48u8.wrapping_add(((val / 10_000) % 10) as u8);
    buf[at + 2] = 48u8.wrapping_add(((val / 1_000) % 10) as u8);
    buf[at + 3] = 48u8.wrapping_add(((val / 100) % 10) as u8);
    buf[at + 4] = 48u8.wrapping_add(((val / 10) % 10) as u8);
    buf[at + 5] = 48u8.wrapping_add((val % 10) as u8);
    assert(buf@ =~= old(buf)@.take(at as int) + digits6(val) + old(buf)@.skip(at + 6));
}

fn write_digits9<const N: usize>(buf: &mut [u8; N], at: usize, val: u32)
    requires
        at + 9 <= N,
    ensures
        final(buf)@ == old(buf)@.take(at as int) + digits9(val) + old(buf)@.skip(at + 9),
{
    buf[at] = 48u8.wrapping_add((val / 100_000_000) as u8);
    buf[at + 1] = 48u8.wrapping_add(((val / 10_000_000) % 10) as u8);
    buf[at + 2] = 48u8.wrapping_add(((val / 1_000_000) % 10) as u8);
    buf[at + 3] = 48u8.wrapping_add(((val / 100_000) % 10) as u8);
    buf[at + 4] = 48u8.wrapping_add(((val / 10_000) % 10) as u8);
    buf[at + 5] = 48u8.wrapping_add(((val / 1_000) % 10) as u8);
    buf[at + 6] = 48u8.wrapping_add(((val / 100) % 10) as u8);
    buf[at + 7] = 48u8.wrapping_add(((val / 10) % 10) as u8);
    buf[at + 8] = 48u8.wrapping_add((val % 10) as u8);
    assert(buf@ =~= old(buf)@.take(at as int) + digits9(val) + old(buf)@.skip(at + 9));
}

/// Write `YYYYMMDD` at the start of `buf`.
fn write_date<const N: usize>(buf: &mut [u8; N], y: u32, m: u32, d: u32)
    requires
        8 <= N,
    ensures
        final(buf)@ == digits4(y) + digits2(m) + digits2(d) + old(buf)@.skip(8),
{
    write_digits4(buf, 0, y);
    write_digits2(buf, 4, m);
    write_digits2(buf, 6, d);
    assert(buf@ =~= digits4(y) + digits2(m) + digits2(d) + old(buf)@.skip(8));
}

/// Write `HH:MM:SS` at `at`.
fn write_time<const N: usize>(buf: &mut [u8; N], at: usize, h: u32, m: u32, s: u32)
    requires
        at + 8 <= N,
    ensures
        final(buf)@ == old(buf)@.take(at as int) + digits2(h) + seq![58u8] + digits2(m) + seq![58u8]
            + digits2(s) + old(buf)@.skip(at + 8),
{
    write_digits2(buf, at, h);
    buf[at + 2] = 58;
    write_digits2(buf, at + 3, m);
    buf[at + 5] = 58;
    write_digits2(buf, at + 6, s);
    assert(buf@ =~= old(buf)@.take(at as int) + digits2(h) + seq![58u8] + digits2(m) + seq![58u8]
        + digits2(s) + old(buf)@.skip(at + 8));
}

impl HrTimestamp {
    /// Nanoseconds since `since`, or 0 when `since` is later.
    pub fn elapsed_ns(self, since: HrTimestamp) -> (n: u64)
        ensures
            n == self.nanos.saturating_sub(since.nanos),
    {
        self.nanos.saturating_sub(since.nanos)
    }

    /// UTC calendar components: year, month, day, hour, minute, second, and the
    /// nanoseconds within the second.
    fn to_utc_components(&self) -> (r: (u32, u32, u32, u32, u32, u32, u64))
        ensures
            r == utc_components(self.nanos),
    {
        let total_secs = self.nanos / 1_000_000_000;
        let nanos_frac = self.nanos % 1_000_000_000;
        let days = total_secs / 86400;
        let day_secs = total_secs % 86400;
        let h = (day_secs / 3600) as u32;
        let mi = ((day_secs % 3600) / 60) as u32;
        let s = (day_secs % 60) as u32;
        let (y, mo, d) = civil_from_days(days as i64);
        (y as u32, mo as u32, d as u32, h, mi, s, nanos_frac)
    }

    /// The FIX timestamp with millisecond precision: `YYYYMMDD-HH:MM:SS.sss` (21 bytes).
    pub fn to_fix_timestamp(&self) -> (buf: [u8; 21])
        ensures
            buf@ == fix_timestamp_ms(self.nanos),
    {
        let (y, mo, d, h, mi, s, nanos_frac) = self.to_utc_components();
        let ms = nanos_frac / 1_000_000;
        let mut buf = [0u8; 21];
        write_date(&mut buf, y, mo, d);
        buf[8] = 45;
        write_time(&mut buf, 9, h, mi, s);
        buf[17] = 46;
        write_digits3(&mut buf, 18, ms as u32);
        assert(buf@ =~= fix_timestamp_ms(self.nanos));
        buf
    }

    /// The FIX timestamp with microsecond precision: `YYYYMMDD-HH:MM:SS.ssssss` (24 bytes).
    pub fn to_fix_timestamp_us(&self) -> (buf: [u8; 24])
        ensures
            buf@ == fix_timestamp_us(self.nanos),
    {
        let (y, mo, d, h, mi, s, nanos_frac) = self.to_utc_components();
        let us = nanos_frac / 1_000;
        let mut buf = [0u8; 24];
        write_date(&mut buf, y, mo, d);
        buf[8] = 45;
        write_time(&mut buf, 9, h, mi, s);
        buf[17] = 46;
        write_digits6(&mut buf, 18, us as u32);
        assert(buf@ =~= fix_timestamp_us(self.nanos));
        buf
    }

    /// The FIX timestamp with nanosecond precision: `YYYYMMDD-HH:MM:SS.sssssssss`
    /// (27 bytes).
    pub fn to_fix_timestamp_ns(&self) -> (buf: [u8; 27])
        ensures
            buf@ == fix_timestamp_ns(self.nanos),
    {
        let (y, mo, d, h, mi, s, nanos_frac) = self.to_utc_components();
        let mut buf = [0u8; 27];
        write_date(&mut buf, y, mo, d);
        buf[8] = 45;
        write_time(&mut buf, 9, h, mi, s);
        buf[17] = 46;
        write_digits9(&mut buf, 18, nanos_frac as u32);
        assert(buf@ =~= fix_timestamp_ns(self.nanos));
        buf
    }
}

/// Counter ticks in nanoseconds at `freq_hz` ticks per second (0 when the frequency is
/// unknown): `ticks * 10^9 / freq_hz`, truncated to 64 bits.
pub open spec fn spec_tsc_to_nanos(ticks: u64, freq_hz: u64) -> u64 {
    if freq_hz == 0 {
        0
    } else {
        ((ticks as int * 1_000_000_000) / freq_hz as int) as u64
    }
}

/// Convert counter ticks to nanoseconds.
pub fn tsc_to_nanos(ticks: u64, freq_hz: u64) -> (n: u64)
    ensures
        n == spec_tsc_to_nanos(ticks, freq_hz),
{
    if freq_hz == 0 {
        return 0;
    }
    assert(ticks as u128 * 1_000_000_000 <= u128::MAX) by (nonlinear_arith)
        requires
            ticks <= u64::MAX,
    ;
    ((ticks as u128 * 1_000_000_000) / freq_hz as u128) as u64
}

/// The counter frequency measured over a calibration interval: `ticks * 10^9 /
/// elapsed_ns` (truncated to 64 bits), or 1 GHz when no time elapsed.
pub open spec fn spec_tsc_frequency(ticks: u64, elapsed_ns: u64) -> u64 {
    if elapsed_ns == 0 {
        1_000_000_000
    } else {
        ((ticks as int * 1_000_000_000) / elapsed_ns as int) as u64
    }
}

/// The counter frequency from the ticks counted over `elapsed_ns` nanoseconds.
pub fn tsc_frequency(ticks: u64, elapsed_ns: u64) -> (f: u64)
    ensures
        f == spec_tsc_frequency(ticks, elapsed_ns),
{
    if elapsed_ns == 0 {
        return 1_000_000_000;
    }
    assert(ticks as u128 * 1_000_000_000 <= u128::MAX) by (nonlinear_arith)
        requires
            ticks <= u64::MAX,
    ;
    ((ticks as u128 * 1_000_000_000) / elapsed_ns as u128) as u64
}

/// A timestamp clock: its source and, for the counter, the calibrated frequency and the
/// offset that maps counter nanoseconds onto wall-clock nanoseconds.
pub struct HrClock {
    source: TimestampSource,
    tsc_frequency_hz: u64,
    tsc_offset: u64,
}

impl HrClock {
    pub closed spec fn spec_source(&self) -> TimestampSource {
        self.source
    }

    pub closed spec fn spec_frequency(&self) -> u64 {
        self.tsc_frequency_hz
    }

    pub closed spec fn spec_offset(&self) -> u64 {
        self.tsc_offset
    }

    /// A clock for `source`. For the counter, `freq_hz` is its calibrated frequency and
    /// `tsc_now` and `wall_nanos` a counter reading and the wall-clock time taken together;
    /// the offset makes counter time agree with wall time at that moment. Other sources
    /// need no calibration.
    pub fn calibrated(source: TimestampSource, freq_hz: u64, tsc_now: u64, wall_nanos: u64) -> (c: Self)
        ensures
            c.spec_source() == source,
            source == TimestampSource::Tsc ==> c.spec_frequency() == freq_hz && c.spec_offset()
                == wall_nanos.wrapping_sub(spec_tsc_to_nanos(tsc_now, freq_hz)),
            source != TimestampSource::Tsc ==> c.spec_frequency() == 0 && c.spec_offset() == 0,
    {
        if source == TimestampSource::Tsc {
            let tsc_nanos = tsc_to_nanos(tsc_now, freq_hz);
            HrClock { source, tsc_frequency_hz: freq_hz, tsc_offset: wall_nanos.wrapping_sub(tsc_nanos) }
        } else {
            HrClock { source, tsc_frequency_hz: 0, tsc_offset: 0 }
        }
    }

    /// The clock's source.
    pub fn source(&self) -> (s: TimestampSource)
        ensures
            s == self.spec_source(),
    {
        self.source
    }

    /// The wall-clock timestamp of a counter reading.
    pub fn timestamp_from_tsc(&self, tsc: u64) -> (t: HrTimestamp)
        ensures
            t.source == TimestampSource::Tsc,
            t.nanos == spec_tsc_to_nanos(tsc, self.spec_frequency()).wrapping_add(self.spec_offset()),
    {
        let nanos = tsc_to_nanos(tsc, self.tsc_frequency_hz).wrapping_add(self.tsc_offset);
        HrTimestamp { nanos, source: TimestampSource::Tsc }
    }
}


/// Hinnant's year-of-era step: from the day of the era `doe` of a date in year-of-era `yoe`
/// (day `doy` of its March-based year), the formula gives `yoe` back.
proof fn lemma_year_of_era(yoe: int, doy: int)
    requires
        0 <= yoe <= 399,
        0 <= doy <= 364 || (doy == 365 && yoe % 4 == 3 && (yoe % 100 != 99 || yoe == 399)),
    ensures
        ({
            let doe = 365 * yoe + yoe / 4 - yoe / 100 + doy;
            (doe - doe / 1460 + doe / 36524 - doe / 146096) / 365 == yoe
        }),
{
    let c = yoe / 100;
    let q = (yoe % 100) / 4;
    let r = yoe % 4;
    assert(yoe == 100 * c + 4 * q + r);
    assert(yoe / 4 == 25 * c + q);
    let doe = 365 * yoe + yoe / 4 - yoe / 100 + doy;
    assert(doe == 36524 * c + 1461 * q + 365 * r + doy);
}


/// The Gregorian leap-year rule: every fourth year, except centuries not divisible by 400.
pub open spec fn is_leap_year(y: int) -> bool {
    (y % 4 == 0 && y % 100 != 0) || y % 400 == 0
}

/// The days of month `m` (1 to 12) of year `y`.
pub open spec fn month_days(y: int, m: int) -> int {
    if m == 2 {
        if is_leap_year(y) {
            29
        } else {
            28
        }
    } else if m == 4 || m == 6 || m == 9 || m == 11 {
        30
    } else {
        31
    }
}

/// The days of year `y` before month `m` begins: the lengths of its earlier months.
pub open spec fn days_before_month(y: int, m: int) -> int
    decreases m,
{
    if m <= 1 {
        0
    } else {
        days_before_month(y, m - 1) + month_days(y, m - 1)
    }
}

/// The days of year `y`.
pub open spec fn year_days(y: int) -> int {
    if is_leap_year(y) {
        366
    } else {
        365
    }
}

/// The days from 1970-01-01 to the first day of year `y` (from 1970 on): the lengths of the
/// years between.
pub open spec fn days_before_year(y: int) -> int
    decreases y - 1970,
{
    if y <= 1970 {
        0
    } else {
        days_before_year(y - 1) + year_days(y - 1)
    }
}

/// The day number of the date `y`-`m`-`d`, counted from 1970-01-01 as day 0.
pub open spec fn days_from_civil(y: int, m: int, d: int) -> int {
    days_before_year(y) + days_before_month(y, m) + d - 1
}

/// Leap years from year 1 through `y`.
spec fn leaps_through(y: int) -> int {
    y / 4 - y / 100 + y / 400
}

proof fn lemma_leaps_step(y: int)
    requires
        y >= 1,
    ensures
        leaps_through(y) - leaps_through(y - 1) == if is_leap_year(y) {
            1int
        } else {
            0int
        },
{
}

proof fn lemma_days_before_year(y: int)
    requires
        y >= 1970,
    ensures
        days_before_year(y) == 365 * (y - 1970) + leaps_through(y - 1) - 477,
    decreases y - 1970,
{
    if y > 1970 {
        lemma_days_before_year(y - 1);
        lemma_leaps_step(y - 1);
    }
}

proof fn lemma_days_before_month(y: int, m: int)
    requires
        1 <= m <= 12,
    ensures
        days_before_month(y, m) == if m >= 3 {
            (153 * (m - 3) + 2) / 5 + 59 + if is_leap_year(y) {
                1int
            } else {
                0int
            }
        } else if m == 2 {
            31
        } else {
            0
        },
{
    reveal_with_fuel(days_before_month, 13);
}

/// The March-based month `mp` (0 = March) and its day `d` give back `mp` through Hinnant's
/// month formula.
proof fn lemma_month_of_day(mp: int, d: int, feb: int)
    requires
        0 <= mp <= 11,
        1 <= d,
        feb == 28 || feb == 29,
        d <= if mp == 11 {
            feb
        } else if mp == 1 || mp == 3 || mp == 6 || mp == 8 {
            30
        } else {
            31
        },
    ensures
        ({
            let doy = (153 * mp + 2) / 5 + d - 1;
            &&& (5 * doy + 2) / 153 == mp
            &&& doy - (153 * mp + 2) / 5 + 1 == d
        }),
{
    if mp == 0 {
    } else if mp == 1 {
    } else if mp == 2 {
    } else if mp == 3 {
    } else if mp == 4 {
    } else if mp == 5 {
    } else if mp == 6 {
    } else if mp == 7 {
    } else if mp == 8 {
    } else if mp == 9 {
    } else if mp == 10 {
    } else {
    }
}

/// The calendar law: for every date from 1970 on, `civil` of its day number (counted from
/// 1970-01-01 with the Gregorian month lengths and leap-year rule) is that date.
pub proof fn lemma_civil_of_date(y: int, m: int, d: int)
    requires
        y >= 1970,
        1 <= m <= 12,
        1 <= d <= month_days(y, m),
    ensures
        civil(days_from_civil(y, m, d)) == (y, m, d),
{
    lemma_days_before_year(y);
    lemma_days_before_month(y, m);
    let yp = if m <= 2 {
        y - 1
    } else {
        y
    };
    let era = yp / 400;
    let yoe = yp % 400;
    let mp = if m >= 3 {
        m - 3
    } else {
        m + 9
    };
    let doy = (153 * mp + 2) / 5 + d - 1;
    let doe = 365 * yoe + yoe / 4 - yoe / 100 + doy;
    assert(yp == 400 * era + yoe);
    assert(yp / 4 == 100 * era + yoe / 4);
    assert(yp / 100 == 4 * era + yoe / 100);
    assert(leaps_through(yp) == 97 * era + yoe / 4 - yoe / 100);
    if m >= 3 {
        lemma_leaps_step(y);
    }
    let z = days_from_civil(y, m, d) + 719468;
    assert(z == 146097 * era + doe);
    // The day of the March-based year is within its length.
    let feb = if is_leap_year(yp + 1) {
        29int
    } else {
        28int
    };
    assert(is_leap_year(yp + 1) == (yoe % 4 == 3 && (yoe % 100 != 99 || yoe == 399)));
    lemma_month_of_day(mp, d, feb);
    assert(0 <= doy <= 364 || (doy == 365 && yoe % 4 == 3 && (yoe % 100 != 99 || yoe == 399)));
    lemma_year_of_era(yoe, doy);
    assert(0 <= doe < 146097);
    assert(z / 146097 == era);
    assert(z - (z / 146097) * 146097 == doe);
}


/// The UTC components of an instant given by its date and time of day: a nanosecond count
/// of the day number of `y`-`m`-`d` times a day, plus `h`:`mi`:`sec` and `frac` nanoseconds,
/// reads back as exactly that date and time (for every date from 1970 whose count fits 64
/// bits).
pub proof fn lemma_utc_components_of_date(y: int, m: int, d: int, h: int, mi: int, sec: int, frac: int)
    requires
        1970 <= y <= 9999,
        1 <= m <= 12,
        1 <= d <= month_days(y, m),
        0 <= h < 24,
        0 <= mi < 60,
        0 <= sec < 60,
        0 <= frac < 1_000_000_000,
        (days_from_civil(y, m, d) * 86400 + h * 3600 + mi * 60 + sec) * 1_000_000_000 + frac <= u64::MAX,
    ensures
        utc_components(
            ((days_from_civil(y, m, d) * 86400 + h * 3600 + mi * 60 + sec) * 1_000_000_000 + frac) as u64,
        ) == (y as u32, m as u32, d as u32, h as u32, mi as u32, sec as u32, frac as u64),
{
    let days = days_from_civil(y, m, d);
    lemma_days_before_year(y);
    lemma_days_before_month(y, m);
    assert(days >= 0);
    let secs = days * 86400 + h * 3600 + mi * 60 + sec;
    let nanos = secs * 1_000_000_000 + frac;
    assert(nanos / 1_000_000_000 == secs);
    assert(nanos % 1_000_000_000 == frac);
    let ds = h * 3600 + mi * 60 + sec;
    assert(secs / 86400 == days);
    assert(secs % 86400 == ds);
    assert(ds / 3600 == h);
    assert((ds % 3600) / 60 == mi);
    assert(ds % 60 == sec);
    lemma_civil_of_date(y, m, d);
}

} // verus!
