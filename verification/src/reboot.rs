//! When the next scheduled reboot falls: today at the configured time when
//! that is still ahead, else on a later day, every `interval_days` days
//! counted from 1970-01-01.

use vstd::prelude::*;
use crate::clock::local_now;
use crate::config::ScheduledRebootConfig;
use crate::text::trunc_div;

verus! {

/// Day count (from 0001-01-01, that day being 1) of 1970-01-01.
pub open spec fn epoch_day() -> int {
    719163
}

/// Last day count chrono can hold, that of 262143-12-31.
pub open spec fn max_day() -> int {
    95745764
}

/// Whole seconds chrono adds for a fraction of `nanos` nanoseconds when
/// subtracting it from a whole second (floor of `-nanos / 1e9`).
pub open spec fn frac_seconds(nanos: int) -> int {
    if nanos == 0 {
        0
    } else if nanos <= 1_000_000_000 {
        -1
    } else {
        -2
    }
}

/// Whole seconds from the reading (`sod`, `nanos`) to the target second of
/// the day `days` later, as chrono's subtraction and `num_seconds` give them
/// (a reading inside a leap second counts one second more before a later
/// target).
pub open spec fn seconds_to(target: int, sod: int, nanos: int, days: int) -> int {
    days * 86400 + (target - sod) + (if target > sod && nanos >= 1_000_000_000 {
        1int
    } else {
        0int
    }) + frac_seconds(nanos)
}

/// Days ahead of the next reboot once today's time has passed: 1 with an
/// interval of at most 1; else up to the next day count since 1970-01-01
/// that is a multiple of the interval (the quotient rounded toward zero),
/// and at least 1.
pub open spec fn days_ahead(interval: u32, days_from_ce: int) -> int {
    if interval <= 1 {
        1
    } else {
        let d = days_from_ce - epoch_day();
        let next = (trunc_div(d, interval as int) + 1) * interval;
        if next - d >= 1 {
            next - d
        } else {
            1
        }
    }
}

/// The target time as seconds of the day.
pub open spec fn target_second(hour: u8, minute: u8) -> int {
    hour * 3600 + minute * 60
}

/// Seconds until the next reboot for a reading of the local clock, `None`
/// for an impossible hour or minute; negative values count as 0.
pub open spec fn reboot_delay(
    hour: u8,
    minute: u8,
    interval: u32,
    days_from_ce: int,
    sod: int,
    nanos: int,
) -> Option<int> {
    if hour >= 24 || minute >= 60 {
        None
    } else {
        let t = target_second(hour, minute);
        let days = if sod < t {
            0
        } else {
            days_ahead(interval, days_from_ce)
        };
        let s = seconds_to(t, sod, nanos, days);
        Some(
            if s < 0 {
                0
            } else {
                s
            },
        )
    }
}

/// The reading leaves chrono's date range when the reboot day is added.
pub open spec fn date_overflows(
    hour: u8,
    minute: u8,
    interval: u32,
    days_from_ce: int,
    sod: int,
) -> bool {
    hour < 24 && minute < 60 && sod >= target_second(hour, minute) && days_from_ce + days_ahead(
        interval,
        days_from_ce,
    ) > max_day()
}

fn trunc_div_i64(a: i64, b: i64) -> (r: i64)
    requires
        b > 0,
        a > i64::MIN,
    ensures
        r as int == trunc_div(a as int, b as int),
{
    if a >= 0 {
        a / b
    } else {
        -((-a) / b)
    }
}

proof fn lemma_days_ahead_bound(interval: u32, days_from_ce: int)
    ensures
        1 <= days_ahead(interval, days_from_ce),
        interval <= 1 ==> days_ahead(interval, days_from_ce) == 1,
        interval > 1 ==> days_ahead(interval, days_from_ce) <= 2 * interval,
        interval > 1 ==> 1 <= (trunc_div(days_from_ce - epoch_day(), interval as int) + 1) * interval
            - (days_from_ce - epoch_day()) <= 2 * interval,
{
    if interval > 1 {
        let k = interval as int;
        let d = days_from_ce - epoch_day();
        if d >= 0 {
            vstd::arithmetic::div_mod::lemma_fundamental_div_mod(d, k);
            assert(0 <= d % k < k);
            assert((d / k + 1) * k - d == k - d % k) by (nonlinear_arith)
                requires
                    d == k * (d / k) + d % k,
            ;
        } else {
            vstd::arithmetic::div_mod::lemma_fundamental_div_mod(-d, k);
            assert(0 <= (-d) % k < k);
            assert((-((-d) / k) + 1) * k - d == k + (-d) % k) by (nonlinear_arith)
                requires
                    -d == k * ((-d) / k) + (-d) % k,
            ;
        }
    }
}

/// Seconds until the next reboot for a local clock reading: day count
/// `days_from_ce`, seconds since midnight and nanoseconds; `None` when the
/// configured hour or minute is impossible.
pub fn seconds_until_reboot(
    config: &ScheduledRebootConfig,
    days_from_ce: i32,
    secs_of_day: u32,
    nanos: u32,
) -> (r: Option<u64>)
    requires
        secs_of_day < 86400,
        nanos < 2_000_000_000,
        !date_overflows(
            config.hour,
            config.minute,
            config.interval_days,
            days_from_ce as int,
            secs_of_day as int,
        ),
    ensures
        match reboot_delay(
            config.hour,
            config.minute,
            config.interval_days,
            days_from_ce as int,
            secs_of_day as int,
            nanos as int,
        ) {
            Some(s) => r == Some(s as u64),
            None => r is None,
        },
{
    if config.hour >= 24 || config.minute >= 60 {
        return None;
    }
    let t: i64 = (config.hour as i64) * 3600 + (config.minute as i64) * 60;
    let sod = secs_of_day as i64;
    let days: i64 = if sod < t {
        0
    } else {
        proof {
            lemma_days_ahead_bound(config.interval_days, days_from_ce as int);
        }
        if config.interval_days <= 1 {
            1
        } else {
            let k = config.interval_days as i64;
            let d = days_from_ce as i64 - 719163;
            let next = (trunc_div_i64(d, k) + 1) * k;
            if next - d >= 1 {
                next - d
            } else {
                1
            }
        }
    };
    let leap: i64 = if t > sod && nanos >= 1_000_000_000 {
        1
    } else {
        0
    };
    let frac: i64 = if nanos == 0 {
        0
    } else if nanos <= 1_000_000_000 {
        -1
    } else {
        -2
    };
    let s = days * 86400 + (t - sod) + leap + frac;
    if s < 0 {
        Some(0)
    } else {
        Some(s as u64)
    }
}

/// Seconds until the next scheduled reboot from now, by the local clock:
/// for the clock's reading (day count, seconds since midnight, nanoseconds),
/// `None` when the configured hour or minute is impossible or when the
/// reboot day would lie past the last date chrono can hold, else the delay
/// `reboot_delay` gives. A result is at most `2 * interval_days + 1` days
/// (3 days for an interval of at most 1).
pub fn calc_seconds_until_next_reboot(config: &ScheduledRebootConfig) -> (r: Option<u64>)
    ensures
        (config.hour >= 24 || config.minute >= 60) ==> r is None,
        exists|days: int, sod: int, nanos: int|
            #![trigger reboot_delay(config.hour, config.minute, config.interval_days, days, sod, nanos)]
            days <= max_day() && 0 <= sod < 86400 && 0 <= nanos < 2_000_000_000 && (if date_overflows(
                config.hour,
                config.minute,
                config.interval_days,
                days,
                sod,
            ) {
                r is None
            } else {
                match reboot_delay(config.hour, config.minute, config.interval_days, days, sod, nanos) {
                    Some(s) => r == Some(s as u64),
                    None => r is None,
                }
            }),
        r matches Some(s) ==> config.hour < 24 && config.minute < 60 && s <= (2 * (if config.interval_days
            <= 1 {
            1
        } else {
            config.interval_days as int
        }) + 1) * 86400,
{
    let now = local_now();
    if config.hour < 24 && config.minute < 60 {
        let t: u32 = (config.hour as u32) * 3600 + (config.minute as u32) * 60;
        if now.secs_of_day >= t {
            proof {
                lemma_days_ahead_bound(config.interval_days, now.days_from_ce as int);
            }
            let ahead: i64 = if config.interval_days <= 1 {
                1
            } else {
                let k = config.interval_days as i64;
                let d = now.days_from_ce as i64 - 719163;
                let next = (trunc_div_i64(d, k) + 1) * k;
                if next - d >= 1 {
                    next - d
                } else {
                    1
                }
            };
            if now.days_from_ce as i64 + ahead > 95745764 {
                assert(date_overflows(
                    config.hour,
                    config.minute,
                    config.interval_days,
                    now.days_from_ce as int,
                    now.secs_of_day as int,
                ));
                assert(reboot_delay(config.hour, config.minute, config.interval_days, now.days_from_ce as int, now.secs_of_day as int, now.nanos as int) == reboot_delay(config.hour, config.minute, config.interval_days, now.days_from_ce as int, now.secs_of_day as int, now.nanos as int));
                return None;
            }
        }
    }
    let r = seconds_until_reboot(config, now.days_from_ce, now.secs_of_day, now.nanos);
    assert(reboot_delay(config.hour, config.minute, config.interval_days, now.days_from_ce as int, now.secs_of_day as int, now.nanos as int) == reboot_delay(config.hour, config.minute, config.interval_days, now.days_from_ce as int, now.secs_of_day as int, now.nanos as int));
    proof {
        lemma_days_ahead_bound(config.interval_days, now.days_from_ce as int);
        let k: int = if config.interval_days <= 1 {
            1
        } else {
            config.interval_days as int
        };
        let t = target_second(config.hour, config.minute);
        if config.hour < 24 && config.minute < 60 && now.secs_of_day >= t {
            assert(days_ahead(config.interval_days, now.days_from_ce as int) <= 2 * k);
            assert(seconds_to(t, now.secs_of_day as int, now.nanos as int, days_ahead(config.interval_days, now.days_from_ce as int)) <= (2 * k + 1) * 86400) by (nonlinear_arith)
                requires
                    days_ahead(config.interval_days, now.days_from_ce as int) <= 2 * k,
                    t < 86400,
                    frac_seconds(now.nanos as int) <= 0,
                    seconds_to(t, now.secs_of_day as int, now.nanos as int, days_ahead(config.interval_days, now.days_from_ce as int))
                        == days_ahead(config.interval_days, now.days_from_ce as int) * 86400 + (t - now.secs_of_day) + (if t > now.secs_of_day && now.nanos >= 1_000_000_000 { 1int } else { 0 }) + frac_seconds(now.nanos as int),
            ;
        }
    }
    r
}

} // verus!
