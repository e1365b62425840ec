use udx710_backend::calls::{
    call_direction, finished_call, state_is_answered, ActiveCall, CallTracker,
};
use udx710_backend::runtime::FrontendRuntime;
use udx710_backend::usage::{days_in_month, format_date, DataUsageTracker};
use udx710_backend::watchdog::{
    apn_configured_messages, connected, limit_action, plan_context, restored_message,
    sim_change_messages, waiting_with, watchdog_gate, ContextPlan, DataCheckOutcome,
    LimitAction, WatchdogState, GIVE_UP_COOLDOWN_SECS, MAX_CONSECUTIVE_FAILURES,
};

#[test]
fn usage_counts_growth_after_first_sample() {
    let mut t = DataUsageTracker::new();
    assert_eq!(t.sample(1000, 500), (0, 0));
    assert_eq!(t.sample(1600, 800), (600, 300));
    // A counter that went down adds nothing.
    assert_eq!(t.sample(100, 900), (600, 400));
    assert_eq!(t.get_usage(), (600, 400));
}

#[test]
fn usage_saturates() {
    let mut t = DataUsageTracker::new();
    t.total_rx = u64::MAX - 1;
    t.last_rx = 1;
    assert_eq!(t.sample(10, 0).0, u64::MAX);
}

#[test]
fn usage_block_and_reset() {
    let mut t = DataUsageTracker::new();
    assert!(t.set_blocked(true));
    assert!(!t.set_blocked(true));
    assert!(t.is_blocked());
    t.sample(5, 5);
    t.sample(10, 10);
    t.reset();
    assert_eq!(t.get_usage(), (0, 0));
    assert!(!t.is_blocked());
    assert_eq!(t.get_last_reset_date(), None);
}

#[test]
fn monthly_reset_happens_once_per_day() {
    let mut t = DataUsageTracker::new();
    t.total_rx = 7;
    t.blocked_by_limit = true;
    assert!(t.auto_reset_on(15, 2025, 3, 15));
    assert_eq!(t.get_usage(), (0, 0));
    assert!(!t.is_blocked());
    assert_eq!(t.get_last_reset_date(), Some("2025-03-15".to_string()));
    t.total_rx = 9;
    assert!(!t.auto_reset_on(15, 2025, 3, 15));
    assert_eq!(t.total_rx, 9);
}

#[test]
fn monthly_reset_day_clamped_to_month_end() {
    let mut t = DataUsageTracker::new();
    assert!(!t.auto_reset_on(31, 2025, 2, 27));
    assert!(t.auto_reset_on(31, 2025, 2, 28));
    assert!(t.auto_reset_on(0, 2025, 4, 1));
    assert!(!t.auto_reset_on(10, 2024, 5, 10));
}

#[test]
fn calendar_helpers() {
    assert_eq!(days_in_month(2024, 2), 29);
    assert_eq!(days_in_month(2025, 2), 28);
    assert_eq!(days_in_month(1900, 2), 28);
    assert_eq!(days_in_month(2000, 2), 29);
    assert_eq!(days_in_month(2025, 4), 30);
    assert_eq!(days_in_month(2025, 12), 31);
    assert_eq!(format_date(2025, 3, 5), "2025-03-05");
}

#[test]
fn watchdog_backoff_schedule() {
    let mut s = WatchdogState::new(0);
    assert!(s.attempt_due(0));
    assert_eq!(s.backoff(), 5);
    let expected = [15_000u64, 30_000, 60_000, 120_000, 120_000, 120_000, 120_000];
    for (i, wait) in expected.iter().enumerate() {
        s.record_failure(1000);
        assert_eq!(s.consecutive_failures, (i + 1) as u32);
        assert_eq!(s.next_attempt_at, 1000 + wait);
    }
    s.record_failure(1000);
    assert_eq!(s.consecutive_failures, 0);
    assert_eq!(s.next_attempt_at, 1000 + GIVE_UP_COOLDOWN_SECS * 1000);
    assert!(!s.attempt_due(1000));
    assert!(MAX_CONSECUTIVE_FAILURES == 8);
    s.record_failure(u64::MAX - 10);
    assert_eq!(s.next_attempt_at, u64::MAX);
    s.record_success(42);
    assert_eq!((s.consecutive_failures, s.next_attempt_at), (0, 42));
}

#[test]
fn watchdog_sim_change() {
    let mut s = WatchdogState::new(0);
    assert!(!s.observe_iccid(Some("111".to_string())));
    assert!(!s.observe_iccid(None));
    assert_eq!(s.last_iccid, Some("111".to_string()));
    assert!(!s.observe_iccid(Some("111".to_string())));
    assert!(s.observe_iccid(Some("222".to_string())));
    assert_eq!(s.last_iccid, Some("222".to_string()));
}

#[test]
fn watchdog_settle_activation() {
    let mut s = WatchdogState::new(0);
    let r = s.settle_activation(10, Err("boom"), "ok".to_string(), "failed: ");
    assert_eq!(r, (DataCheckOutcome::Failed, "failed: boom".to_string()));
    assert_eq!(s.consecutive_failures, 1);
    let r2 = s.settle_activation(20, Ok(()), "ok".to_string(), "failed: ");
    assert_eq!(r2, (DataCheckOutcome::Healthy, "ok".to_string()));
    assert_eq!((s.consecutive_failures, s.next_attempt_at), (0, 20));
}

#[test]
fn watchdog_gate_messages() {
    assert_eq!(
        watchdog_gate(true, Some("registered")),
        Some((
            DataCheckOutcome::Waiting,
            "Data connection blocked by data limit; not auto-activating".to_string()
        ))
    );
    assert_eq!(
        watchdog_gate(false, None),
        Some((DataCheckOutcome::Waiting, "Network proxy unavailable".to_string()))
    );
    assert_eq!(
        watchdog_gate(false, Some("searching")),
        Some((DataCheckOutcome::Waiting, "Waiting for network (status: searching)".to_string()))
    );
    assert_eq!(watchdog_gate(false, Some("roaming")), None);
}

#[test]
fn watchdog_plans_and_limits() {
    assert_eq!(plan_context("", true), ContextPlan::ConfigureApn);
    assert_eq!(plan_context("cmnet", false), ContextPlan::Activate);
    assert_eq!(plan_context("cmnet", true), ContextPlan::Connected);
    assert_eq!(limit_action(None, true, 10, 10), LimitAction::Unblock);
    assert_eq!(limit_action(Some(20), true, 10, 10), LimitAction::Block);
    assert_eq!(limit_action(Some(21), true, 10, 10), LimitAction::Unblock);
    assert_eq!(limit_action(Some(20), false, 10, 10), LimitAction::Unblock);
    assert_eq!(limit_action(Some(u64::MAX), true, u64::MAX, 1), LimitAction::Block);
}

#[test]
fn watchdog_messages() {
    let mut s = WatchdogState::new(0);
    s.record_failure(0);
    assert_eq!(
        connected(&mut s, 7, "cmnet"),
        (DataCheckOutcome::Healthy, "Connected (APN: cmnet)".to_string())
    );
    assert_eq!(s.consecutive_failures, 0);
    assert_eq!(waiting_with("x: ", "y"), (DataCheckOutcome::Waiting, "x: y".to_string()));
    assert_eq!(
        apn_configured_messages("APN set"),
        (
            "APN set (APN not configured), connection activated".to_string(),
            "APN set (APN not configured), but activation failed: ".to_string()
        )
    );
    assert_eq!(
        sim_change_messages("APN set"),
        (
            "APN set; re-activated after SIM change".to_string(),
            "APN set; activate failed: ".to_string()
        )
    );
    assert_eq!(restored_message("ctnet"), "Connection restored (APN: ctnet)");
}

#[test]
fn frontend_runtime_recency() {
    let mut r = FrontendRuntime::new();
    assert!(!r.is_recent(100, 50));
    r.mark_seen(100);
    assert!(r.is_recent(100, 0));
    assert!(r.is_recent(150, 50));
    assert!(!r.is_recent(151, 50));
}

fn call(direction: &str, answered: bool) -> ActiveCall {
    ActiveCall {
        db_id: 3,
        phone_number: "10086".to_string(),
        direction: direction.to_string(),
        start_nanos: 1_000_000_000,
        start_time: "2025-01-01T00:00:01+00:00".to_string(),
        answered,
    }
}

#[test]
fn call_directions_and_answering() {
    assert_eq!(call_direction("incoming"), "incoming");
    assert_eq!(call_direction("alerting"), "incoming");
    assert_eq!(call_direction("dialing"), "outgoing");
    assert!(state_is_answered("active"));
    assert!(!state_is_answered("held"));
}

#[test]
fn finished_calls() {
    let missed = finished_call(call("incoming", false), 31_500_000_000, "end".to_string());
    assert_eq!(missed.direction, "missed");
    assert_eq!(missed.duration, 30);
    assert_eq!(missed.id, 3);
    assert_eq!(missed.end_time, Some("end".to_string()));
    let out = finished_call(call("outgoing", false), 0, "end".to_string());
    assert_eq!(out.direction, "outgoing");
    assert_eq!(out.duration, -1);
    let answered = finished_call(call("incoming", true), 2_000_000_000, "e".to_string());
    assert_eq!(answered.direction, "incoming");
    assert_eq!(answered.duration, 1);
}

#[test]
fn call_tracker_behaves_as_a_map() {
    let mut t = CallTracker::new();
    t.insert("/a".to_string(), call("incoming", false));
    t.insert("/b".to_string(), call("outgoing", false));
    t.insert("/a".to_string(), call("outgoing", true));
    assert_eq!(t.entries.len(), 2);
    t.mark_answered("/b");
    let b = t.remove("/b").unwrap();
    assert!(b.answered);
    assert!(t.remove("/b").is_none());
    let a = t.remove("/a").unwrap();
    assert_eq!(a.direction, "outgoing");
    assert!(t.entries.is_empty());
}
