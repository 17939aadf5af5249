//! Counting instants: every instant maps to its day number and second
//! count in the proleptic Gregorian calendar, stepping an instant forward
//! is proved against that count, and an image-series download gets its
//! whole timestamp schedule computed here, one instant per step from the
//! start while the end is not passed.
use vstd::prelude::*;
use crate::time::{compact_render, days_in_month, is_leap_year, DateTimeUtc, TimeSeries};

verus! {

/// Days from the first day of year 1 to the first day of year `y`.
pub open spec fn days_before_year(y: int) -> int
    decreases y,
{
    if y <= 1 {
        0
    } else {
        days_before_year(y - 1) + if is_leap_year(y - 1) {
            366int
        } else {
            365int
        }
    }
}

/// Days from the first day of month 1 to the first day of month `m`, in
/// year `y`.
pub open spec fn days_before_month(y: int, m: int) -> int
    decreases m,
{
    if m <= 1 {
        0
    } else {
        days_before_month(y, m - 1) + days_in_month(y, m - 1)
    }
}

/// The day number of an instant: days since the first day of year 1.
pub open spec fn day_number(dt: DateTimeUtc) -> int {
    days_before_year(dt.year as int) + days_before_month(dt.year as int, dt.month as int)
        + dt.day - 1
}

/// The second of the day an instant names.
pub open spec fn second_of_day(dt: DateTimeUtc) -> int {
    dt.hour * 3600 + dt.minute * 60 + dt.second
}

/// The whole-second count of an instant since the calendar's first
/// instant.
pub open spec fn timestamp_of(dt: DateTimeUtc) -> int {
    day_number(dt) * 86400 + second_of_day(dt)
}

/// Whether the instant named by second count `t` and nanosecond `n` does
/// not come after the instant `b`.
pub open spec fn le_ts(t: int, n: int, b: DateTimeUtc) -> bool {
    t < timestamp_of(b) || (t == timestamp_of(b) && n <= b.nanosecond)
}

/// Whether instant `a` does not come after instant `b`.
pub open spec fn instant_le(a: DateTimeUtc, b: DateTimeUtc) -> bool {
    le_ts(timestamp_of(a), a.nanosecond as int, b)
}

/// The twelve months of year `y` hold its full day count.
proof fn lemma_months_sum(y: int)
    ensures
        days_before_month(y, 12) + days_in_month(y, 12) == if is_leap_year(y) {
            366int
        } else {
            365int
        },
{
    reveal_with_fuel(days_before_month, 13);
}

/// No month starts later in its year than the year is long.
proof fn lemma_dbm_bound(y: int, m: int)
    requires
        1 <= m <= 12,
    ensures
        days_before_month(y, m) + days_in_month(y, m) <= if is_leap_year(y) {
            366int
        } else {
            365int
        },
    decreases 12 - m,
{
    if m == 12 {
        lemma_months_sum(y);
    } else {
        lemma_dbm_bound(y, m + 1);
        assert(days_before_month(y, m + 1) == days_before_month(y, m) + days_in_month(y, m));
    }
}

/// The day count before a month is never negative.
proof fn lemma_dbm_nonneg(y: int, m: int)
    ensures
        days_before_month(y, m) >= 0,
    decreases m,
{
    if m > 1 {
        lemma_dbm_nonneg(y, m - 1);
    }
}

/// Year starts never move backwards.
proof fn lemma_dby_mono(y1: int, y2: int)
    requires
        y1 <= y2,
    ensures
        days_before_year(y1) <= days_before_year(y2),
    decreases y2 - y1,
{
    if y1 < y2 {
        lemma_dby_mono(y1, y2 - 1);
    }
}

/// Every calendar-valid instant has a non-negative second count below the
/// count of the first instant after year 9999.
pub proof fn lemma_timestamp_bound(dt: DateTimeUtc)
    requires
        dt.valid(),
    ensures
        0 <= timestamp_of(dt),
        timestamp_of(dt) < days_before_year(10000) * 86400,
{
    lemma_dby_mono(1, dt.year as int);
    lemma_dbm_nonneg(dt.year as int, dt.month as int);
    lemma_dbm_bound(dt.year as int, dt.month as int);
    assert(days_before_year(dt.year as int + 1) == days_before_year(dt.year as int)
        + if is_leap_year(dt.year as int) {
        366int
    } else {
        365int
    });
    lemma_dby_mono(dt.year as int + 1, 10000);
    assert(day_number(dt) < days_before_year(10000));
    assert(second_of_day(dt) < 86400);
}

/// Steps a valid instant to the next day, keeping its clock fields; only
/// the last day of year 9999 has no next day.
fn increment_day(dt: DateTimeUtc) -> (res: Option<DateTimeUtc>)
    requires
        dt.valid(),
    ensures
        res matches Some(r) ==> {
            &&& r.valid()
            &&& day_number(r) == day_number(dt) + 1
            &&& r.hour == dt.hour
            &&& r.minute == dt.minute
            &&& r.second == dt.second
            &&& r.nanosecond == dt.nanosecond
        },
        res is None <==> dt.year == 9999 && dt.month == 12 && dt.day == 31,
{
    let leap: bool = dt.year % 4 == 0 && (dt.year % 100 != 0 || dt.year % 400 == 0);
    let dim: u32 = if dt.month == 2 {
        if leap {
            29
        } else {
            28
        }
    } else if dt.month == 4 || dt.month == 6 || dt.month == 9 || dt.month == 11 {
        30
    } else {
        31
    };
    assert(dim == days_in_month(dt.year as int, dt.month as int));
    if dt.day < dim {
        Some(DateTimeUtc { day: dt.day + 1, ..dt })
    } else if dt.month < 12 {
        let r = DateTimeUtc { month: dt.month + 1, day: 1, ..dt };
        proof {
            assert(days_before_month(dt.year as int, dt.month as int + 1) == days_before_month(
                dt.year as int, dt.month as int) + days_in_month(dt.year as int,
                dt.month as int));
        }
        Some(r)
    } else if dt.year < 9999 {
        let r = DateTimeUtc { year: dt.year + 1, month: 1, day: 1, ..dt };
        proof {
            lemma_months_sum(dt.year as int);
            assert(days_before_year(dt.year as int + 1) == days_before_year(dt.year as int)
                + if is_leap_year(dt.year as int) {
                366int
            } else {
                365int
            });
        }
        Some(r)
    } else {
        None
    }
}

impl DateTimeUtc {
    /// Computes the instant's whole-second count.
    pub fn timestamp_secs(&self) -> (res: u64)
        requires
            self.valid(),
        ensures
            res == timestamp_of(*self),
    {
        let mut days: u64 = 0;
        let mut y: u32 = 1;
        while y < self.year
            invariant
                1 <= y <= self.year,
                self.year <= 9999,
                days == days_before_year(y as int),
                days <= 366 * (y - 1),
            decreases self.year - y,
        {
            let leap: bool = y % 4 == 0 && (y % 100 != 0 || y % 400 == 0);
            days = days + if leap {
                366
            } else {
                365
            };
            y = y + 1;
        }
        let mut m: u32 = 1;
        while m < self.month
            invariant
                1 <= m <= self.month,
                self.month <= 12,
                self.year <= 9999,
                self.valid(),
                days == days_before_year(self.year as int) + days_before_month(self.year as int,
                    m as int),
                days <= 366 * 9998 + 31 * (m - 1),
            decreases self.month - m,
        {
            let leap: bool = self.year % 4 == 0 && (self.year % 100 != 0 || self.year % 400 == 0);
            let dim: u32 = if m == 2 {
                if leap {
                    29
                } else {
                    28
                }
            } else if m == 4 || m == 6 || m == 9 || m == 11 {
                30
            } else {
                31
            };
            assert(dim == days_in_month(self.year as int, m as int));
            days = days + dim as u64;
            m = m + 1;
        }
        let day_count: u64 = days + (self.day - 1) as u64;
        let sod: u64 = (self.hour * 3600 + self.minute * 60 + self.second) as u64;
        day_count * 86400 + sod
    }

    /// Whether this instant does not come after `other`.
    pub fn is_not_after(&self, other: &DateTimeUtc) -> (res: bool)
        requires
            self.valid(),
            other.valid(),
        ensures
            res == instant_le(*self, *other),
    {
        let a = self.timestamp_secs();
        let b = other.timestamp_secs();
        a < b || (a == b && self.nanosecond <= other.nanosecond)
    }

    /// Steps the instant forward by a count of whole seconds, or nothing
    /// when the result would leave the four-digit years.
    pub fn add_seconds(&self, secs: u64) -> (res: Option<DateTimeUtc>)
        requires
            self.valid(),
            secs <= 0x4000_0000_0000,
        ensures
            res matches Some(r) ==> {
                &&& r.valid()
                &&& r.nanosecond == self.nanosecond
                &&& timestamp_of(r) == timestamp_of(*self) + secs
            },
            res is None <==> timestamp_of(*self) + secs >= days_before_year(10000) * 86400,
    {
        let total: u64 = (self.hour * 3600 + self.minute * 60 + self.second) as u64 + secs;
        let extra: u64 = total / 86400;
        let sod: u64 = total % 86400;
        let mut cur = DateTimeUtc {
            hour: (sod / 3600) as u32,
            minute: ((sod % 3600) / 60) as u32,
            second: (sod % 60) as u32,
            ..*self
        };
        assert(cur.valid());
        assert(second_of_day(cur) == sod);
        let ghost goal_day = day_number(*self) + extra;
        assert(timestamp_of(*self) + secs == goal_day * 86400 + sod);
        let mut k: u64 = extra;
        while k > 0
            invariant
                cur.valid(),
                cur.nanosecond == self.nanosecond,
                second_of_day(cur) == sod,
                sod < 86400,
                day_number(cur) + k == goal_day,
                timestamp_of(*self) + secs == goal_day * 86400 + sod,
            decreases k,
        {
            match increment_day(cur) {
                Some(n) => {
                    cur = n;
                    k = k - 1;
                },
                None => {
                    proof {
                        lemma_months_sum(9999);
                        assert(days_before_year(10000) == days_before_year(9999)
                            + if is_leap_year(9999) {
                            366int
                        } else {
                            365int
                        });
                        assert(day_number(cur) == days_before_year(10000) - 1);
                        assert(goal_day >= days_before_year(10000));
                        assert(goal_day * 86400 >= days_before_year(10000) * 86400);
                    }
                    return None;
                },
            }
        }
        proof {
            assert(timestamp_of(cur) == timestamp_of(*self) + secs);
            lemma_timestamp_bound(cur);
        }
        Some(cur)
    }
}

/// The timestamp schedule of an image-series download: the start instant,
/// then one instant per step, while the end instant is not passed. Each
/// scheduled instant keeps the start's sub-second part; the step is a
/// positive count of whole seconds.
pub fn png_series_instants(time_series: &TimeSeries) -> (res: Vec<DateTimeUtc>)
    requires
        time_series.valid(),
        time_series.timedelta matches Some(step) && 0 < step <= 0x4000_0000_0000,
    ensures
        forall|i: int| 0 <= i < res@.len() ==> {
            &&& (#[trigger] res@[i]).valid()
            &&& res@[i].nanosecond == time_series.start.nanosecond
            &&& timestamp_of(res@[i]) == timestamp_of(time_series.start) + i
                * time_series.timedelta->0
            &&& instant_le(res@[i], time_series.end)
        },
        !le_ts(timestamp_of(time_series.start) + res@.len() * time_series.timedelta->0,
            time_series.start.nanosecond as int, time_series.end),
{
    let step: u64 = match time_series.timedelta {
        Some(s) => s as u64,
        None => 1,
    };
    let ghost step_int = time_series.timedelta->0 as int;
    let mut out: Vec<DateTimeUtc> = Vec::new();
    let mut cur = time_series.start;
    let mut stopped = false;
    loop
        invariant
            time_series.valid(),
            time_series.timedelta matches Some(s) && 0 < s <= 0x4000_0000_0000,
            step == time_series.timedelta->0 as u64,
            step_int == time_series.timedelta->0 as int,
            !stopped ==> cur.valid(),
            !stopped ==> cur.nanosecond == time_series.start.nanosecond,
            !stopped ==> timestamp_of(cur) == timestamp_of(time_series.start) + out@.len()
                * step_int,
            stopped ==> !le_ts(timestamp_of(time_series.start) + out@.len() * step_int,
                time_series.start.nanosecond as int, time_series.end),
            forall|i: int| 0 <= i < out@.len() ==> {
                &&& (#[trigger] out@[i]).valid()
                &&& out@[i].nanosecond == time_series.start.nanosecond
                &&& timestamp_of(out@[i]) == timestamp_of(time_series.start) + i * step_int
                &&& instant_le(out@[i], time_series.end)
            },
        ensures
            stopped,
            forall|i: int| 0 <= i < out@.len() ==> {
                &&& (#[trigger] out@[i]).valid()
                &&& out@[i].nanosecond == time_series.start.nanosecond
                &&& timestamp_of(out@[i]) == timestamp_of(time_series.start) + i * step_int
                &&& instant_le(out@[i], time_series.end)
            },
            !le_ts(timestamp_of(time_series.start) + out@.len() * step_int,
                time_series.start.nanosecond as int, time_series.end),
        decreases (if stopped {
            0int
        } else if timestamp_of(cur) <= timestamp_of(time_series.end) {
            timestamp_of(time_series.end) - timestamp_of(cur) + 2
        } else {
            1int
        }),
    {
        if stopped {
            break;
        }
        if !cur.is_not_after(&time_series.end) {
            stopped = true;
            continue;
        }
        let ghost n0 = out@.len() as int;
        let ghost prev = out@;
        out.push(cur);
        proof {
            assert(out@[n0] == cur);
            assert forall|i: int| 0 <= i < out@.len() implies {
                &&& (#[trigger] out@[i]).valid()
                &&& out@[i].nanosecond == time_series.start.nanosecond
                &&& timestamp_of(out@[i]) == timestamp_of(time_series.start) + i * step_int
                &&& instant_le(out@[i], time_series.end)
            } by {
                if i < n0 {
                    assert(out@[i] == prev[i]);
                }
            }
        }
        match cur.add_seconds(step) {
            Some(n) => {
                proof {
                    assert((n0 + 1) * step_int == n0 * step_int + step_int) by (nonlinear_arith);
                }
                cur = n;
            },
            None => {
                proof {
                    lemma_timestamp_bound(time_series.end);
                    assert((n0 + 1) * step_int == n0 * step_int + step_int) by (nonlinear_arith);
                }
                stopped = true;
            },
        }
    }
    out
}

/// The file name of one image of a series: the prefix, an underscore, the
/// compact date-and-clock stamp, and the image suffix.
pub fn png_file_name(prefixpath: &str, dt: &DateTimeUtc) -> (res: String)
    requires
        dt.valid(),
    ensures
        res@ == prefixpath@ + seq!['_'] + compact_render(*dt) + ".png"@,
{
    proof {
        reveal_strlit("_");
        reveal_strlit(".png");
    }
    let mut res = String::from_str(prefixpath);
    res.append("_");
    let stamp = dt.to_compact_string();
    res.append(stamp.as_str());
    res.append(".png");
    assert(res@ =~= prefixpath@ + seq!['_'] + compact_render(*dt) + ".png"@);
    res
}

} // verus!
