//! Cumulative cellular data usage: interface counter samples added up across
//! counter resets, the data limit block, and the monthly reset on a chosen
//! day of the month.

use vstd::prelude::*;
use crate::clock::local_now;
use crate::text::{append_chars, chars_of, dec_string, push_dec, string_of};

verus! {

/// 1 GB counted as 10^9 bytes, as operators bill.
pub const BYTES_PER_GB: u64 = 1_000_000_000;

/// Years before this mean the clock is not set yet (no RTC battery).
pub const MIN_PLAUSIBLE_YEAR: i32 = 2025;

/// Leap year of the Gregorian calendar.
pub open spec fn is_leap(year: int) -> bool {
    (year % 4 == 0 && year % 100 != 0) || year % 400 == 0
}

/// Days of a month (1 to 12); 30 for any other month number.
pub open spec fn month_days(year: int, month: int) -> u32 {
    if month == 1 || month == 3 || month == 5 || month == 7 || month == 8 || month == 10 || month
        == 12 {
        31
    } else if month == 4 || month == 6 || month == 9 || month == 11 {
        30
    } else if month == 2 {
        if is_leap(year) {
            29
        } else {
            28
        }
    } else {
        30
    }
}

fn divisible(year: i32, k: i32) -> (r: bool)
    requires
        k > 0,
    ensures
        r == (year as int % k as int == 0),
{
    let y = year as i64;
    let m = if y >= 0 {
        y % (k as i64)
    } else {
        let p = (-y) % (k as i64);
        proof {
            assert((y as int) % (k as int) == 0 <==> ((-y) as int) % (k as int) == 0) by (
            nonlinear_arith)
                requires
                    k > 0,
            {
                if (y as int) % (k as int) == 0 {
                    let q = (y as int) / (k as int);
                    assert((-y) as int == (-q) * k);
                    vstd::arithmetic::div_mod::lemma_mod_multiples_basic(-q, k as int);
                }
                if ((-y) as int) % (k as int) == 0 {
                    let q = ((-y) as int) / (k as int);
                    assert(y as int == (-q) * k);
                    vstd::arithmetic::div_mod::lemma_mod_multiples_basic(-q, k as int);
                }
            }
        }
        p
    };
    m == 0
}

/// Days of `month` in `year`, to clamp a reset day to the month's last day.
pub fn days_in_month(year: i32, month: u32) -> (r: u32)
    ensures
        r == month_days(year as int, month as int),
{
    if month == 1 || month == 3 || month == 5 || month == 7 || month == 8 || month == 10 || month
        == 12 {
        31
    } else if month == 4 || month == 6 || month == 9 || month == 11 {
        30
    } else if month == 2 {
        if (divisible(year, 4) && !divisible(year, 100)) || divisible(year, 400) {
            29
        } else {
            28
        }
    } else {
        30
    }
}

/// Two decimal digits, zero padded (for a value below 100).
pub open spec fn two_digits(n: nat) -> Seq<char> {
    if n < 10 {
        seq!['0'] + dec_string(n)
    } else {
        dec_string(n)
    }
}

/// A date as chrono's `%Y-%m-%d` writes it for a year of 1000 or later: a
/// `+` before years above 9999, then the year, month and day.
pub open spec fn date_text(year: int, month: nat, day: nat) -> Seq<char> {
    (if year > 9999 {
        "+"@
    } else {
        ""@
    }) + dec_string(year as nat) + "-"@ + two_digits(month) + "-"@ + two_digits(day)
}

fn push_two(out: &mut Vec<char>, n: u32)
    requires
        n < 100,
    ensures
        final(out)@ == old(out)@ + two_digits(n as nat),
{
    if n < 10 {
        out.push('0');
        push_dec(out, n as u64);
        assert(out@ =~= old(out)@ + two_digits(n as nat));
    } else {
        push_dec(out, n as u64);
    }
}

/// The `%Y-%m-%d` text of a date from 1000 on.
pub fn format_date(year: i32, month: u32, day: u32) -> (r: String)
    requires
        year >= 1000,
        month < 100,
        day < 100,
    ensures
        r@ == date_text(year as int, month as nat, day as nat),
{
    let mut out: Vec<char> = Vec::new();
    if year > 9999 {
        out.push('+');
    }
    push_dec(&mut out, year as u64);
    out.push('-');
    push_two(&mut out, month);
    out.push('-');
    push_two(&mut out, day);
    proof {
        reveal_strlit("+");
        reveal_strlit("");
        reveal_strlit("-");
        assert(out@ =~= date_text(year as int, month as nat, day as nat));
    }
    string_of(out.as_slice())
}

/// Data usage totals and the limit block, as kept across restarts.
pub struct DataUsageTracker {
    /// Received bytes counted so far.
    pub total_rx: u64,
    /// Sent bytes counted so far.
    pub total_tx: u64,
    /// Interface receive counter at the last sample.
    pub last_rx: u64,
    /// Interface send counter at the last sample.
    pub last_tx: u64,
    /// The data connection was closed because the limit was reached.
    pub blocked_by_limit: bool,
    /// Date (`%Y-%m-%d`) of the last automatic reset.
    pub last_reset_date: Option<String>,
}

/// `a + b`, or `u64::MAX` when that does not fit.
pub open spec fn sat_add(a: u64, b: u64) -> u64 {
    if a + b > u64::MAX {
        u64::MAX
    } else {
        (a + b) as u64
    }
}

/// `a - b`, or 0 when `b` is larger.
pub open spec fn sat_sub(a: u64, b: u64) -> u64 {
    if a >= b {
        (a - b) as u64
    } else {
        0
    }
}

/// Day of the month on which the reset falls: the chosen day within 1 to
/// 31, and at most the month's last day.
pub open spec fn reset_target(reset_day: u8, dim: u32) -> u32 {
    let d: u32 = if reset_day < 1 {
        1
    } else if reset_day > 31 {
        31
    } else {
        reset_day as u32
    };
    if d < dim {
        d
    } else {
        dim
    }
}

/// The automatic reset is due on this date: the clock is set (year 2025 or
/// later), today is the reset day of this month, and no reset happened today.
pub open spec fn reset_due(
    last_reset_date: Option<Seq<char>>,
    reset_day: u8,
    year: i32,
    month: u32,
    day: u32,
) -> bool {
    &&& year >= 2025
    &&& day == reset_target(reset_day, month_days(year as int, month as int))
    &&& last_reset_date != Some(date_text(year as int, month as nat, day as nat))
}

/// The last reset date as text.
pub open spec fn date_view(d: Option<String>) -> Option<Seq<char>> {
    match d {
        Some(s) => Some(s@),
        None => None,
    }
}

impl DataUsageTracker {
    /// Nothing counted, not blocked, never reset.
    pub fn new() -> (r: Self)
        ensures
            r.total_rx == 0 && r.total_tx == 0 && r.last_rx == 0 && r.last_tx == 0,
            !r.blocked_by_limit,
            r.last_reset_date is None,
    {
        DataUsageTracker {
            total_rx: 0,
            total_tx: 0,
            last_rx: 0,
            last_tx: 0,
            blocked_by_limit: false,
            last_reset_date: None,
        }
    }

    /// Adds the growth of the interface counters `rx`/`tx` since the last
    /// sample (a counter that went down adds nothing) to the totals, unless
    /// there was no earlier receive sample (`last_rx` 0), and keeps the
    /// counters for the next sample. Returns the totals.
    pub fn sample(&mut self, rx: u64, tx: u64) -> (r: (u64, u64))
        ensures
            final(self).total_rx == (if old(self).last_rx > 0 {
                sat_add(old(self).total_rx, sat_sub(rx, old(self).last_rx))
            } else {
                old(self).total_rx
            }),
            final(self).total_tx == (if old(self).last_rx > 0 {
                sat_add(old(self).total_tx, sat_sub(tx, old(self).last_tx))
            } else {
                old(self).total_tx
            }),
            final(self).last_rx == rx,
            final(self).last_tx == tx,
            final(self).blocked_by_limit == old(self).blocked_by_limit,
            final(self).last_reset_date == old(self).last_reset_date,
            r == (final(self).total_rx, final(self).total_tx),
    {
        let d_rx = if rx >= self.last_rx {
            rx - self.last_rx
        } else {
            0
        };
        let d_tx = if tx >= self.last_tx {
            tx - self.last_tx
        } else {
            0
        };
        if self.last_rx > 0 {
            self.total_rx = if self.total_rx > u64::MAX - d_rx {
                u64::MAX
            } else {
                self.total_rx + d_rx
            };
            self.total_tx = if self.total_tx > u64::MAX - d_tx {
                u64::MAX
            } else {
                self.total_tx + d_tx
            };
        }
        self.last_rx = rx;
        self.last_tx = tx;
        (self.total_rx, self.total_tx)
    }

    /// The totals (received, sent).
    pub fn get_usage(&self) -> (r: (u64, u64))
        ensures
            r == (self.total_rx, self.total_tx),
    {
        (self.total_rx, self.total_tx)
    }

    /// The data connection is blocked by the limit.
    pub fn is_blocked(&self) -> (r: bool)
        ensures
            r == self.blocked_by_limit,
    {
        self.blocked_by_limit
    }

    /// Sets the block; tells whether it changed (and needs saving).
    pub fn set_blocked(&mut self, blocked: bool) -> (changed: bool)
        ensures
            final(self).blocked_by_limit == blocked,
            changed == (old(self).blocked_by_limit != blocked),
            final(self).total_rx == old(self).total_rx,
            final(self).total_tx == old(self).total_tx,
            final(self).last_rx == old(self).last_rx,
            final(self).last_tx == old(self).last_tx,
            final(self).last_reset_date == old(self).last_reset_date,
    {
        let changed = self.blocked_by_limit != blocked;
        self.blocked_by_limit = blocked;
        changed
    }

    /// Forgets everything: totals and counters 0, not blocked, never reset.
    pub fn reset(&mut self)
        ensures
            final(self).total_rx == 0 && final(self).total_tx == 0,
            final(self).last_rx == 0 && final(self).last_tx == 0,
            !final(self).blocked_by_limit,
            final(self).last_reset_date is None,
    {
        *self = DataUsageTracker::new();
    }

    /// Date of the last automatic reset.
    pub fn get_last_reset_date(&self) -> (r: Option<String>)
        ensures
            date_view(r) == date_view(self.last_reset_date),
    {
        match &self.last_reset_date {
            Some(s) => Some(s.clone()),
            None => None,
        }
    }

    /// The monthly reset on the local date `year`-`month`-`day`: when due,
    /// the totals go to 0, the block is lifted and the date is recorded;
    /// otherwise nothing changes. Tells whether it reset.
    pub fn auto_reset_on(&mut self, reset_day: u8, year: i32, month: u32, day: u32) -> (did: bool)
        requires
            1 <= month <= 12,
            1 <= day <= 31,
        ensures
            did == reset_due(date_view(old(self).last_reset_date), reset_day, year, month, day),
            did ==> {
                &&& final(self).total_rx == 0 && final(self).total_tx == 0
                &&& !final(self).blocked_by_limit
                &&& date_view(final(self).last_reset_date) == Some(
                    date_text(year as int, month as nat, day as nat),
                )
                &&& final(self).last_rx == old(self).last_rx
                &&& final(self).last_tx == old(self).last_tx
            },
            !did ==> *final(self) == *old(self),
    {
        if year < MIN_PLAUSIBLE_YEAR {
            return false;
        }
        let dim = days_in_month(year, month);
        let d: u32 = if reset_day < 1 {
            1
        } else if reset_day > 31 {
            31
        } else {
            reset_day as u32
        };
        let target = if d < dim {
            d
        } else {
            dim
        };
        if day != target {
            return false;
        }
        let today = format_date(year, month, day);
        let same = match &self.last_reset_date {
            Some(s) => {
                let a = crate::text::chars_of_string(s);
                let b = crate::text::chars_of_string(&today);
                crate::loader::same_chars(a.as_slice(), b.as_slice())
            },
            None => false,
        };
        if same {
            return false;
        }
        self.total_rx = 0;
        self.total_tx = 0;
        self.blocked_by_limit = false;
        self.last_reset_date = Some(today);
        true
    }

    /// The monthly reset on today's local date (see `auto_reset_on`): the
    /// date read from the local clock decides whether the reset is due; when
    /// it is, the totals go to 0, the block is lifted, that date is recorded
    /// and the interface counters stay; otherwise nothing changes.
    pub fn maybe_auto_reset(&mut self, reset_day: u8) -> (did: bool)
        ensures
            exists|y: i32, m: u32, d: u32|
                #![trigger reset_due(date_view(old(self).last_reset_date), reset_day, y, m, d)]
                1 <= m <= 12 && 1 <= d <= 31 && did == reset_due(
                    date_view(old(self).last_reset_date),
                    reset_day,
                    y,
                    m,
                    d,
                ) && (did ==> date_view(final(self).last_reset_date) == Some(
                    date_text(y as int, m as nat, d as nat),
                )),
            !did ==> *final(self) == *old(self),
            did ==> final(self).total_rx == 0 && final(self).total_tx == 0
                && !final(self).blocked_by_limit && final(self).last_rx == old(self).last_rx
                && final(self).last_tx == old(self).last_tx,
    {
        let now = local_now();
        let did = self.auto_reset_on(reset_day, now.year, now.month, now.day);
        assert(did == reset_due(date_view(old(self).last_reset_date), reset_day, now.year, now.month, now.day));
        did
    }
}

/// A second reset on the same date does nothing: once a reset is done on a
/// date, it is no longer due on that date.
pub proof fn lemma_reset_once_per_day(reset_day: u8, year: i32, month: u32, day: u32)
    requires
        1 <= month <= 12,
        1 <= day <= 31,
    ensures
        !reset_due(Some(date_text(year as int, month as nat, day as nat)), reset_day, year, month, day),
{
}

/// A reset is never due while the clock reads a year before 2025.
pub proof fn lemma_no_reset_unset_clock(
    last: Option<Seq<char>>,
    reset_day: u8,
    year: i32,
    month: u32,
    day: u32,
)
    requires
        year < 2025,
    ensures
        !reset_due(last, reset_day, year, month, day),
{
}

/// Each month has a reset day: the day a reset falls on lies within the month.
pub proof fn lemma_reset_day_in_month(reset_day: u8, year: i32, month: u32)
    requires
        1 <= month <= 12,
    ensures
        1 <= reset_target(reset_day, month_days(year as int, month as int)) <= month_days(
            year as int,
            month as int,
        ),
        28 <= month_days(year as int, month as int) <= 31,
{
}

/// Days of the year before the first of month `m` (2 to 13, 13 standing for
/// the next January) by the civil calendar formula: 31 before February;
/// from March on, March 1 is day 59 (60 in a leap year) and month `m` starts
/// (153·(m−3)+2)/5 days after it.
pub open spec fn days_before_month(year: int, m: int) -> int {
    if m <= 1 {
        0
    } else if m == 2 {
        31
    } else {
        59 + (if is_leap(year) {
            1int
        } else {
            0int
        }) + (153 * (m - 3) + 2) / 5
    }
}

/// Month lengths follow the Gregorian calendar: the days of a month are
/// those from its first day to the next month's first day, counted by the
/// civil day-of-year formula (so months 1, 3, 5, 7, 8, 10 and 12 have 31
/// days, 4, 6, 9 and 11 have 30), February has 29 days exactly in the years
/// divisible by 4 but not by 100, or by 400, and a year has 365 or 366 days.
pub proof fn lemma_month_lengths(year: int, month: int)
    requires
        1 <= month <= 12,
    ensures
        month_days(year, month) == days_before_month(year, month + 1) - days_before_month(
            year,
            month,
        ),
        month_days(year, 2) == 29 <==> ((year % 4 == 0 && year % 100 != 0) || year % 400 == 0),
        month_days(year, 2) == 28 || month_days(year, 2) == 29,
        days_before_month(year, 13) == 365 + (if month_days(year, 2) == 29 {
            1int
        } else {
            0int
        }),
{
    assert((153 * (4 - 3) + 2) / 5 == 31);
    assert((153 * (5 - 3) + 2) / 5 == 61);
    assert((153 * (6 - 3) + 2) / 5 == 92);
    assert((153 * (7 - 3) + 2) / 5 == 122);
    assert((153 * (8 - 3) + 2) / 5 == 153);
    assert((153 * (9 - 3) + 2) / 5 == 184);
    assert((153 * (10 - 3) + 2) / 5 == 214);
    assert((153 * (11 - 3) + 2) / 5 == 245);
    assert((153 * (12 - 3) + 2) / 5 == 275);
    assert((153 * (13 - 3) + 2) / 5 == 306);
    assert((153 * (3 - 3) + 2) / 5 == 0);
}

/// The monthly reset falls on the chosen day, or on the month's last day
/// when the month is shorter (so a reset day of 31 falls on the 31st of
/// every 31-day month and on the last day of the others): on a set clock,
/// and unless a reset was already recorded for that date, it is due exactly
/// on that day.
pub proof fn lemma_reset_falls_on(
    last: Option<Seq<char>>,
    reset_day: u8,
    year: i32,
    month: u32,
    day: u32,
)
    requires
        1 <= month <= 12,
        1 <= reset_day <= 31,
        year >= 2025,
        last != Some(date_text(year as int, month as nat, day as nat)),
    ensures
        reset_day as int <= days_before_month(year as int, month + 1) - days_before_month(
            year as int,
            month as int,
        ) ==> (reset_due(last, reset_day, year, month, day) <==> day == reset_day),
        reset_day as int >= days_before_month(year as int, month + 1) - days_before_month(
            year as int,
            month as int,
        ) ==> (reset_due(last, reset_day, year, month, day) <==> day == days_before_month(
            year as int,
            month + 1,
        ) - days_before_month(year as int, month as int)),
{
    lemma_month_lengths(year as int, month as int);
}

} // verus!
