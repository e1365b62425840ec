use udx710_backend::config::ScheduledRebootConfig;
use udx710_backend::reboot::{calc_seconds_until_next_reboot, seconds_until_reboot};

#[test]
fn test_calc_future_time_today() {
    let config = ScheduledRebootConfig {
        enabled: true,
        interval_days: 1,
        hour: 23,
        minute: 59,
    };
    let secs = calc_seconds_until_next_reboot(&config);
    assert!(secs.is_some());
}

#[test]
fn test_calc_multi_day_interval() {
    let config = ScheduledRebootConfig {
        enabled: true,
        interval_days: 3,
        hour: 4,
        minute: 0,
    };
    let secs = calc_seconds_until_next_reboot(&config);
    assert!(secs.is_some());
    assert!(secs.unwrap() > 0);
}

const EPOCH_DAYS_FROM_CE: i32 = 719_163;

fn cfg(interval_days: u32, hour: u8, minute: u8) -> ScheduledRebootConfig {
    ScheduledRebootConfig { enabled: true, interval_days, hour, minute }
}

#[test]
fn reboot_later_today() {
    let r = seconds_until_reboot(&cfg(1, 4, 0), EPOCH_DAYS_FROM_CE, 3 * 3600, 0);
    assert_eq!(r, Some(3600));
}

#[test]
fn reboot_later_today_drops_fraction() {
    let r = seconds_until_reboot(&cfg(1, 4, 0), EPOCH_DAYS_FROM_CE, 3 * 3600, 500_000_000);
    assert_eq!(r, Some(3599));
}

#[test]
fn reboot_tomorrow_once_the_time_passed() {
    let r = seconds_until_reboot(&cfg(1, 4, 0), EPOCH_DAYS_FROM_CE, 5 * 3600, 0);
    assert_eq!(r, Some(23 * 3600));
    let at_target = seconds_until_reboot(&cfg(0, 4, 0), EPOCH_DAYS_FROM_CE, 4 * 3600, 0);
    assert_eq!(at_target, Some(86_400));
}

#[test]
fn reboot_interval_aligned_to_epoch_days() {
    // 1970-01-01 at 05:00; the next day divisible by 3 is day 3.
    let r = seconds_until_reboot(&cfg(3, 4, 0), EPOCH_DAYS_FROM_CE, 5 * 3600, 0);
    assert_eq!(r, Some(3 * 86_400 - 3600));
    // Day 2 at 05:00: day 3 is next.
    let r2 = seconds_until_reboot(&cfg(3, 4, 0), EPOCH_DAYS_FROM_CE + 2, 5 * 3600, 0);
    assert_eq!(r2, Some(86_400 - 3600));
}

#[test]
fn impossible_time_gives_none() {
    assert_eq!(seconds_until_reboot(&cfg(1, 24, 0), EPOCH_DAYS_FROM_CE, 0, 0), None);
    assert_eq!(seconds_until_reboot(&cfg(1, 3, 60), EPOCH_DAYS_FROM_CE, 0, 0), None);
    assert_eq!(calc_seconds_until_next_reboot(&cfg(1, 25, 0)), None);
}
