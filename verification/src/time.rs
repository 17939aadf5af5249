//! Time values and their rendering into the API's grammar: instants as
//! RFC 3339 text with sub-second precision kept exactly as given, intervals
//! as `start--end:step`, and calendar or clock periods as ISO 8601 durations.
use vstd::prelude::*;
use crate::text::{digit_char, int_dec, i64_to_dec};

verus! {

/// Two decimal digits, zero padded; defined for values below 100.
pub open spec fn pad2(n: nat) -> Seq<char> {
    seq![digit_char(n as int / 10), digit_char(n as int % 10)]
}

/// Three decimal digits, zero padded; defined for values below 1000.
pub open spec fn pad3(n: nat) -> Seq<char> {
    seq![digit_char(n as int / 100), digit_char((n as int / 10) % 10), digit_char(n as int % 10)]
}

/// Four decimal digits, zero padded; defined for values below 10000.
pub open spec fn pad4(n: nat) -> Seq<char> {
    pad2(n / 100) + pad2(n % 100)
}

/// Six decimal digits, zero padded; defined for values below 1000000.
pub open spec fn pad6(n: nat) -> Seq<char> {
    pad3(n / 1000) + pad3(n % 1000)
}

/// Nine decimal digits, zero padded; defined for values below 1000000000.
pub open spec fn pad9(n: nat) -> Seq<char> {
    pad3(n / 1000000) + pad3((n / 1000) % 1000) + pad3(n % 1000)
}

fn pad2_str(n: u32) -> (res: String)
    requires
        n < 100,
    ensures
        res@ == pad2(n as nat),
{
    let mut res = crate::text::u64_to_dec((n / 10) as u64);
    let tail = crate::text::u64_to_dec((n % 10) as u64);
    res.append(tail.as_str());
    assert(res@ =~= pad2(n as nat));
    res
}

fn pad3_str(n: u32) -> (res: String)
    requires
        n < 1000,
    ensures
        res@ == pad3(n as nat),
{
    let mut res = crate::text::u64_to_dec((n / 100) as u64);
    let mid = crate::text::u64_to_dec(((n / 10) % 10) as u64);
    let last = crate::text::u64_to_dec((n % 10) as u64);
    res.append(mid.as_str());
    res.append(last.as_str());
    assert(res@ =~= pad3(n as nat));
    res
}

fn pad4_str(n: u32) -> (res: String)
    requires
        n < 10000,
    ensures
        res@ == pad4(n as nat),
{
    let mut res = pad2_str(n / 100);
    let tail = pad2_str(n % 100);
    res.append(tail.as_str());
    res
}

fn pad6_str(n: u32) -> (res: String)
    requires
        n < 1000000,
    ensures
        res@ == pad6(n as nat),
{
    let mut res = pad3_str(n / 1000);
    let tail = pad3_str(n % 1000);
    res.append(tail.as_str());
    res
}

fn pad9_str(n: u32) -> (res: String)
    requires
        n < 1000000000,
    ensures
        res@ == pad9(n as nat),
{
    let mut res = pad3_str(n / 1000000);
    let mid = pad3_str((n / 1000) % 1000);
    let last = pad3_str(n % 1000);
    res.append(mid.as_str());
    res.append(last.as_str());
    res
}

/// Whether `y` is a leap year of the proleptic Gregorian calendar.
pub open spec fn is_leap_year(y: int) -> bool {
    y % 4 == 0 && (y % 100 != 0 || y % 400 == 0)
}

/// The number of days of month `m` in year `y`.
pub open spec fn days_in_month(y: int, m: int) -> int {
    if m == 2 {
        if is_leap_year(y) {
            29
        } else {
            28
        }
    } else if m == 4 || m == 6 || m == 9 || m == 11 {
        30
    } else {
        31
    }
}

/// An instant of civil time in UTC, to nanosecond precision.
#[derive(Clone, Copy, Debug, PartialEq, Eq, Structural)]
pub struct DateTimeUtc {
    pub year: u32,
    pub month: u32,
    pub day: u32,
    pub hour: u32,
    pub minute: u32,
    pub second: u32,
    pub nanosecond: u32,
}

impl DateTimeUtc {
    /// A calendar-valid instant with a four-digit year.
    pub open spec fn valid(self) -> bool {
        &&& 1 <= self.year <= 9999
        &&& 1 <= self.month <= 12
        &&& 1 <= self.day <= days_in_month(self.year as int, self.month as int)
        &&& self.hour < 24
        &&& self.minute < 60
        &&& self.second < 60
        &&& self.nanosecond < 1000000000
    }

    /// Builds an instant from its parts; the parts must name a real instant.
    pub fn new(year: u32, month: u32, day: u32, hour: u32, minute: u32, second: u32,
        nanosecond: u32) -> (res: DateTimeUtc)
        requires
            ({
                let dt = DateTimeUtc { year, month, day, hour, minute, second, nanosecond };
                dt.valid()
            }),
        ensures
            res == (DateTimeUtc { year, month, day, hour, minute, second, nanosecond }),
            res.valid(),
    {
        DateTimeUtc { year, month, day, hour, minute, second, nanosecond }
    }

    /// Builds an instant from its parts, or nothing when they name no real
    /// instant.
    pub fn try_new(year: u32, month: u32, day: u32, hour: u32, minute: u32, second: u32,
        nanosecond: u32) -> (res: Option<DateTimeUtc>)
        ensures
            ({
                let dt = DateTimeUtc { year, month, day, hour, minute, second, nanosecond };
                if dt.valid() {
                    res == Some(dt)
                } else {
                    res is None
                }
            }),
    {
        let dt = DateTimeUtc { year, month, day, hour, minute, second, nanosecond };
        let leap: bool = year % 4 == 0 && (year % 100 != 0 || year % 400 == 0);
        let dim: u32 = if month == 2 {
            if leap {
                29
            } else {
                28
            }
        } else if month == 4 || month == 6 || month == 9 || month == 11 {
            30
        } else {
            31
        };
        if 1 <= year && year <= 9999 && 1 <= month && month <= 12 && 1 <= day && day <= dim
            && hour < 24 && minute < 60 && second < 60 && nanosecond < 1000000000 {
            Some(dt)
        } else {
            None
        }
    }
}

/// The fractional-second part of an RFC 3339 rendering: empty for a whole
/// second, else a dot and three, six or nine digits, the shortest of the
/// three that loses nothing.
pub open spec fn frac_render(ns: nat) -> Seq<char> {
    if ns == 0 {
        seq![]
    } else if ns % 1000000 == 0 {
        seq!['.'] + pad3(ns / 1000000)
    } else if ns % 1000 == 0 {
        seq!['.'] + pad6(ns / 1000)
    } else {
        seq!['.'] + pad9(ns)
    }
}

/// The RFC 3339 rendering of an instant, with the UTC offset written
/// `+00:00`.
pub open spec fn rfc3339_render(dt: DateTimeUtc) -> Seq<char> {
    pad4(dt.year as nat) + seq!['-'] + pad2(dt.month as nat) + seq!['-'] + pad2(dt.day as nat)
        + seq!['T'] + pad2(dt.hour as nat) + seq![':'] + pad2(dt.minute as nat) + seq![':']
        + pad2(dt.second as nat) + frac_render(dt.nanosecond as nat) + seq!['+', '0', '0', ':',
        '0', '0']
}

/// The compact rendering of an instant used in file names of image series:
/// digits only, a single underscore between date and clock.
pub open spec fn compact_render(dt: DateTimeUtc) -> Seq<char> {
    pad4(dt.year as nat) + pad2(dt.month as nat) + pad2(dt.day as nat) + seq!['_'] + pad2(
        dt.hour as nat) + pad2(dt.minute as nat) + pad2(dt.second as nat)
}

impl DateTimeUtc {
    /// Renders the instant as RFC 3339 text, keeping exactly the sub-second
    /// precision the instant carries.
    pub fn to_rfc3339(&self) -> (res: String)
        requires
            self.valid(),
        ensures
            res@ == rfc3339_render(*self),
    {
        proof {
            reveal_strlit("-");
            reveal_strlit("T");
            reveal_strlit(":");
            reveal_strlit(".");
            reveal_strlit("+00:00");
        }
        let mut res = pad4_str(self.year);
        res.append("-");
        let part = pad2_str(self.month);
        res.append(part.as_str());
        res.append("-");
        let part = pad2_str(self.day);
        res.append(part.as_str());
        res.append("T");
        let part = pad2_str(self.hour);
        res.append(part.as_str());
        res.append(":");
        let part = pad2_str(self.minute);
        res.append(part.as_str());
        res.append(":");
        let part = pad2_str(self.second);
        res.append(part.as_str());
        if self.nanosecond != 0 {
            res.append(".");
            if self.nanosecond % 1000000 == 0 {
                let part = pad3_str(self.nanosecond / 1000000);
                res.append(part.as_str());
            } else if self.nanosecond % 1000 == 0 {
                let part = pad6_str(self.nanosecond / 1000);
                res.append(part.as_str());
            } else {
                let part = pad9_str(self.nanosecond);
                res.append(part.as_str());
            }
        }
        res.append("+00:00");
        assert(res@ =~= rfc3339_render(*self));
        res
    }

    /// Renders the instant as the compact date-and-clock file-name stamp.
    pub fn to_compact_string(&self) -> (res: String)
        requires
            self.valid(),
        ensures
            res@ == compact_render(*self),
    {
        proof {
            reveal_strlit("_");
        }
        let mut res = pad4_str(self.year);
        let part = pad2_str(self.month);
        res.append(part.as_str());
        let part = pad2_str(self.day);
        res.append(part.as_str());
        res.append("_");
        let part = pad2_str(self.hour);
        res.append(part.as_str());
        let part = pad2_str(self.minute);
        res.append(part.as_str());
        let part = pad2_str(self.second);
        res.append(part.as_str());
        assert(res@ =~= compact_render(*self));
        res
    }
}

/// A calendar-grained period: whole years, months or days.
#[derive(Clone, Copy, Debug, PartialEq, Eq, Structural)]
pub enum PeriodDate {
    Years(i32),
    Months(i32),
    Days(i32),
}

/// The ISO 8601 rendering of a calendar period.
pub open spec fn period_date_render(p: PeriodDate) -> Seq<char> {
    match p {
        PeriodDate::Years(n) => seq!['P'] + int_dec(n as int) + seq!['Y'],
        PeriodDate::Months(n) => seq!['P'] + int_dec(n as int) + seq!['M'],
        PeriodDate::Days(n) => seq!['P'] + int_dec(n as int) + seq!['D'],
    }
}

impl PeriodDate {
    /// Renders the period as ISO 8601 text.
    pub fn as_string(&self) -> (res: String)
        ensures
            res@ == period_date_render(*self),
    {
        proof {
            reveal_strlit("P");
            reveal_strlit("Y");
            reveal_strlit("M");
            reveal_strlit("D");
        }
        let mut res = String::new();
        res.append("P");
        match self {
            PeriodDate::Years(n) => {
                let digits = i64_to_dec(*n as i64);
                res.append(digits.as_str());
                res.append("Y");
            },
            PeriodDate::Months(n) => {
                let digits = i64_to_dec(*n as i64);
                res.append(digits.as_str());
                res.append("M");
            },
            PeriodDate::Days(n) => {
                let digits = i64_to_dec(*n as i64);
                res.append(digits.as_str());
                res.append("D");
            },
        }
        assert(res@ =~= period_date_render(*self));
        res
    }
}

/// A clock-grained period: whole hours, minutes or seconds.
#[derive(Clone, Copy, Debug, PartialEq, Eq, Structural)]
pub enum PeriodTime {
    Hours(i32),
    Minutes(i32),
    Seconds(i32),
}

/// The ISO 8601 rendering of a clock period.
pub open spec fn period_time_render(p: PeriodTime) -> Seq<char> {
    match p {
        PeriodTime::Hours(n) => seq!['P', 'T'] + int_dec(n as int) + seq!['H'],
        PeriodTime::Minutes(n) => seq!['P', 'T'] + int_dec(n as int) + seq!['M'],
        PeriodTime::Seconds(n) => seq!['P', 'T'] + int_dec(n as int) + seq!['S'],
    }
}

impl PeriodTime {
    /// Renders the period as ISO 8601 text.
    pub fn as_string(&self) -> (res: String)
        ensures
            res@ == period_time_render(*self),
    {
        proof {
            reveal_strlit("PT");
            reveal_strlit("H");
            reveal_strlit("M");
            reveal_strlit("S");
        }
        let mut res = String::new();
        res.append("PT");
        match self {
            PeriodTime::Hours(n) => {
                let digits = i64_to_dec(*n as i64);
                res.append(digits.as_str());
                res.append("H");
            },
            PeriodTime::Minutes(n) => {
                let digits = i64_to_dec(*n as i64);
                res.append(digits.as_str());
                res.append("M");
            },
            PeriodTime::Seconds(n) => {
                let digits = i64_to_dec(*n as i64);
                res.append(digits.as_str());
                res.append("S");
            },
        }
        assert(res@ =~= period_time_render(*self));
        res
    }
}

/// The temporal extent of a time-series request: a start and end instant,
/// and for stepped requests the step between samples, in whole seconds.
#[derive(Clone, Copy, Debug, PartialEq)]
pub struct TimeSeries {
    pub start: DateTimeUtc,
    pub end: DateTimeUtc,
    pub timedelta: Option<i64>,
}

impl TimeSeries {
    /// Both endpoints name real instants.
    pub open spec fn valid(self) -> bool {
        self.start.valid() && self.end.valid()
    }
}

/// The interval rendering `start--end:PT{seconds}S` of a stepped time
/// series.
pub open spec fn time_series_render(ts: TimeSeries) -> Seq<char> {
    rfc3339_render(ts.start) + seq!['-', '-'] + rfc3339_render(ts.end) + seq![':', 'P', 'T']
        + int_dec(ts.timedelta->0 as int) + seq!['S']
}

impl TimeSeries {
    /// Renders the interval with its step; a series without a step has no
    /// interval rendering.
    pub fn as_string(&self) -> (res: String)
        requires
            self.valid(),
            self.timedelta is Some,
        ensures
            res@ == time_series_render(*self),
    {
        proof {
            reveal_strlit("--");
            reveal_strlit(":PT");
            reveal_strlit("S");
        }
        let mut res = self.start.to_rfc3339();
        res.append("--");
        let part = self.end.to_rfc3339();
        res.append(part.as_str());
        res.append(":PT");
        let step = match self.timedelta {
            Some(s) => s,
            None => 0,
        };
        let digits = i64_to_dec(step);
        res.append(digits.as_str());
        res.append("S");
        assert(res@ =~= time_series_render(*self));
        res
    }
}

/// A nanosecond count that three or six digits cannot carry is not a whole
/// count of microseconds or milliseconds either.
proof fn lemma_needs_nine_digits(n: nat)
    requires
        n % 1000 != 0,
    ensures
        n % 1000000 != 0,
        n != 0,
{
    assert(n % 1000000 == 0 ==> n % 1000 == 0) by (nonlinear_arith);
}

/// An instant carrying true nanosecond precision renders with all nine
/// fractional digits, and the rendering of an interval keeps those nine
/// digits in both its start and its end position.
pub proof fn lemma_nanosecond_precision_preserved(ts: TimeSeries)
    requires
        ts.start.nanosecond % 1000 != 0,
        ts.end.nanosecond % 1000 != 0,
    ensures
        rfc3339_render(ts.start).subrange(19, 29) =~= seq!['.'] + pad9(ts.start.nanosecond as nat),
        time_series_render(ts).subrange(19, 29) =~= seq!['.'] + pad9(ts.start.nanosecond as nat),
        time_series_render(ts).subrange(56, 66) =~= seq!['.'] + pad9(ts.end.nanosecond as nat),
{
    lemma_needs_nine_digits(ts.start.nanosecond as nat);
    lemma_needs_nine_digits(ts.end.nanosecond as nat);
    assert(frac_render(ts.start.nanosecond as nat).len() == 10);
    assert(frac_render(ts.end.nanosecond as nat).len() == 10);
    assert(rfc3339_render(ts.start).len() == 35);
    assert(rfc3339_render(ts.end).len() == 35);
    assert(rfc3339_render(ts.start).subrange(19, 29) =~= seq!['.'] + pad9(
        ts.start.nanosecond as nat));
    assert(rfc3339_render(ts.end).subrange(19, 29) =~= seq!['.'] + pad9(
        ts.end.nanosecond as nat));
    assert forall|j: int| #![trigger time_series_render(ts)[j]] 19 <= j < 29 implies
        time_series_render(ts)[j] == rfc3339_render(ts.start)[j] by {}
    assert(time_series_render(ts).subrange(19, 29) =~= rfc3339_render(ts.start).subrange(19, 29));
    assert forall|j: int| #![trigger time_series_render(ts)[j]] 56 <= j < 66 implies
        time_series_render(ts)[j] == rfc3339_render(ts.end)[j - 37] by {}
    assert(time_series_render(ts).subrange(56, 66) =~= rfc3339_render(ts.end).subrange(19, 29));
}

} // verus!
