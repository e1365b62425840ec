//! Decisions of the data connection watchdog: retry back-off after failed
//! activations, detection of a changed SIM, whether the network allows a
//! repair, what to do with the internet context, and the data limit.
//! Times are milliseconds on a monotonic clock that the caller reads.

use vstd::prelude::*;
use crate::text::{append_chars, chars_of, string_of};

verus! {

/// Consecutive failed activations after which the watchdog cools down.
pub const MAX_CONSECUTIVE_FAILURES: u32 = 8;

/// Length of that cool-down, in seconds.
pub const GIVE_UP_COOLDOWN_SECS: u64 = 300;

/// Back-off after 0, 1, 2, 3 and 4 or more failures, in seconds.
pub open spec fn backoff_step(i: int) -> u64 {
    if i <= 0 {
        5
    } else if i == 1 {
        15
    } else if i == 2 {
        30
    } else if i == 3 {
        60
    } else {
        120
    }
}

/// How a check went.
#[derive(PartialEq, Eq, Structural, Clone, Copy, Debug)]
pub enum DataCheckOutcome {
    /// Connected, or repaired now.
    Healthy,
    /// Not ready yet (no network, no context, no APN); not a failure.
    Waiting,
    /// An activation failed; counts toward the back-off.
    Failed,
}

/// State kept between watchdog rounds.
pub struct WatchdogState {
    /// ICCID of the SIM last seen, to notice a changed card.
    pub last_iccid: Option<String>,
    /// Failed activations in a row.
    pub consecutive_failures: u32,
    /// Earliest time of the next repair attempt.
    pub next_attempt_at: u64,
}

/// `a + b`, or `u64::MAX` when that does not fit.
pub open spec fn sat_add(a: u64, b: int) -> u64 {
    if a + b > u64::MAX {
        u64::MAX
    } else {
        (a + b) as u64
    }
}

fn sat_add_exec(a: u64, b: u64) -> (r: u64)
    ensures
        r == sat_add(a, b as int),
{
    if a > u64::MAX - b {
        u64::MAX
    } else {
        a + b
    }
}

/// The failure count once one more failure is counted (saturating at `u32::MAX`).
pub open spec fn counted_failures(f: u32) -> int {
    if f == u32::MAX {
        u32::MAX as int
    } else {
        f + 1
    }
}

/// Failures in a row after one more failed activation: the count goes up,
/// and is cleared on reaching the limit.
pub open spec fn failures_after(f: u32) -> u32 {
    if counted_failures(f) >= 8 {
        0
    } else {
        counted_failures(f) as u32
    }
}

/// Earliest next attempt after a failed activation at `now`, `f` failures
/// having come before it: the cool-down on reaching the limit, else the
/// back-off of the new count.
pub open spec fn next_after_failure(f: u32, now: u64) -> u64 {
    if counted_failures(f) >= 8 {
        sat_add(now, 300_000)
    } else {
        sat_add(now, backoff_step(counted_failures(f)) * 1000)
    }
}

impl WatchdogState {
    /// A fresh state: no SIM seen, no failures, an attempt allowed at `now`.
    pub fn new(now: u64) -> (r: Self)
        ensures
            r.last_iccid is None,
            r.consecutive_failures == 0,
            r.next_attempt_at == now,
    {
        WatchdogState { last_iccid: None, consecutive_failures: 0, next_attempt_at: now }
    }

    /// Back-off in seconds for the current failure count: 5, 15, 30, 60, then 120.
    pub fn backoff(&self) -> (r: u64)
        ensures
            r == backoff_step(self.consecutive_failures as int),
    {
        let f = self.consecutive_failures;
        if f == 0 {
            5
        } else if f == 1 {
            15
        } else if f == 2 {
            30
        } else if f == 3 {
            60
        } else {
            120
        }
    }

    /// Records a failed activation at `now`: the count goes up by one
    /// (saturating); on reaching the limit it is cleared and the next attempt
    /// waits the cool-down, else it waits the back-off of the new count.
    pub fn record_failure(&mut self, now: u64)
        ensures
            final(self).consecutive_failures == failures_after(old(self).consecutive_failures),
            final(self).next_attempt_at == next_after_failure(old(self).consecutive_failures, now),
            final(self).last_iccid == old(self).last_iccid,
    {
        self.consecutive_failures = if self.consecutive_failures == u32::MAX {
            u32::MAX
        } else {
            self.consecutive_failures + 1
        };
        if self.consecutive_failures >= MAX_CONSECUTIVE_FAILURES {
            self.consecutive_failures = 0;
            self.next_attempt_at = sat_add_exec(now, GIVE_UP_COOLDOWN_SECS * 1000);
        } else {
            let b = self.backoff();
            self.next_attempt_at = sat_add_exec(now, b * 1000);
        }
    }

    /// Records a success (or recovery) at `now`: no failures, attempts allowed.
    pub fn record_success(&mut self, now: u64)
        ensures
            final(self).consecutive_failures == 0,
            final(self).next_attempt_at == now,
            final(self).last_iccid == old(self).last_iccid,
    {
        self.consecutive_failures = 0;
        self.next_attempt_at = now;
    }

    /// A repair attempt is due at `now`.
    pub fn attempt_due(&self, now: u64) -> (r: bool)
        ensures
            r == (now >= self.next_attempt_at),
    {
        now >= self.next_attempt_at
    }

    /// Takes note of the ICCID read now (when one was read) and tells whether
    /// the SIM changed: both the previous and the current ICCID are known and
    /// differ.
    pub fn observe_iccid(&mut self, iccid: Option<String>) -> (changed: bool)
        ensures
            changed == (old(self).last_iccid matches Some(p) && iccid matches Some(c) && p@
                != c@),
            final(self).last_iccid == (if iccid is Some {
                iccid
            } else {
                old(self).last_iccid
            }),
            final(self).consecutive_failures == old(self).consecutive_failures,
            final(self).next_attempt_at == old(self).next_attempt_at,
    {
        let changed = match (&self.last_iccid, &iccid) {
            (Some(p), Some(c)) => !same_text(p, c),
            _ => false,
        };
        if iccid.is_some() {
            self.last_iccid = iccid;
        }
        changed
    }

    /// Settles an activation attempt: success is `Healthy` with `ok_message`
    /// and clears the failures; an error is `Failed` with `fail_prefix` and
    /// the error, and counts as a failure.
    pub fn settle_activation(
        &mut self,
        now: u64,
        result: Result<(), &str>,
        ok_message: String,
        fail_prefix: &str,
    ) -> (r: (DataCheckOutcome, String))
        ensures
            match result {
                Ok(_) => r.0 == DataCheckOutcome::Healthy && r.1@ == ok_message@
                    && final(self).consecutive_failures == 0 && final(self).next_attempt_at == now,
                Err(e) => r.0 == DataCheckOutcome::Failed && r.1@ == fail_prefix@ + e@,
            },
            result is Err ==> final(self).consecutive_failures == failures_after(
                old(self).consecutive_failures,
            ) && final(self).next_attempt_at == next_after_failure(
                old(self).consecutive_failures,
                now,
            ),
            final(self).last_iccid == old(self).last_iccid,
    {
        match result {
            Ok(_) => {
                self.record_success(now);
                (DataCheckOutcome::Healthy, ok_message)
            },
            Err(e) => {
                self.record_failure(now);
                let mut m = chars_of(fail_prefix);
                let ev = chars_of(e);
                append_chars(&mut m, ev.as_slice());
                (DataCheckOutcome::Failed, string_of(m.as_slice()))
            },
        }
    }
}

fn same_text(a: &String, b: &String) -> (r: bool)
    ensures
        r == (a@ == b@),
{
    let x = crate::text::chars_of_string(a);
    let y = crate::text::chars_of_string(b);
    crate::loader::same_chars(x.as_slice(), y.as_slice())
}

/// The registration states in which a repair is tried.
pub open spec fn network_ready(status: Seq<char>) -> bool {
    status == "registered"@ || status == "roaming"@
}

/// Why no repair is tried now, if so: data blocked by the limit, no network
/// registration service (`None`), or a registration state other than
/// registered or roaming.
pub open spec fn gate_message(blocked: bool, status: Option<Seq<char>>) -> Option<Seq<char>> {
    if blocked {
        Some("Data connection blocked by data limit; not auto-activating"@)
    } else {
        match status {
            None => Some("Network proxy unavailable"@),
            Some(s) => if network_ready(s) {
                None
            } else {
                Some("Waiting for network (status: "@ + s + ")"@)
            },
        }
    }
}

/// A `Waiting` outcome when the watchdog must not try a repair now, else `None`.
pub fn watchdog_gate(blocked: bool, status: Option<&str>) -> (r: Option<(DataCheckOutcome, String)>)
    ensures
        match gate_message(
            blocked,
            match status {
                Some(s) => Some(s@),
                None => None,
            },
        ) {
            Some(m) => r matches Some(p) && p.0 == DataCheckOutcome::Waiting && p.1@ == m,
            None => r is None,
        },
{
    if blocked {
        return Some(
            (
                DataCheckOutcome::Waiting,
                "Data connection blocked by data limit; not auto-activating".to_owned(),
            ),
        );
    }
    match status {
        None => Some((DataCheckOutcome::Waiting, "Network proxy unavailable".to_owned())),
        Some(s) => {
            let v = chars_of(s);
            let reg = chars_of("registered");
            let roam = chars_of("roaming");
            if crate::loader::same_chars(v.as_slice(), reg.as_slice())
                || crate::loader::same_chars(v.as_slice(), roam.as_slice()) {
                None
            } else {
                let mut m = chars_of("Waiting for network (status: ");
                append_chars(&mut m, v.as_slice());
                let close = chars_of(")");
                append_chars(&mut m, close.as_slice());
                Some((DataCheckOutcome::Waiting, string_of(m.as_slice())))
            }
        },
    }
}

/// What the internet context needs.
#[derive(PartialEq, Eq, Structural, Clone, Copy, Debug)]
pub enum ContextPlan {
    /// No APN is set: configure it from the operator, then activate.
    ConfigureApn,
    /// Configured but inactive: activate.
    Activate,
    /// Configured and active.
    Connected,
}

/// The repair an internet context with APN `apn` and state `active` needs.
pub fn plan_context(apn: &str, active: bool) -> (r: ContextPlan)
    ensures
        r == (if apn@.len() == 0 {
            ContextPlan::ConfigureApn
        } else if !active {
            ContextPlan::Activate
        } else {
            ContextPlan::Connected
        }),
{
    if apn.unicode_len() == 0 {
        ContextPlan::ConfigureApn
    } else if !active {
        ContextPlan::Activate
    } else {
        ContextPlan::Connected
    }
}

/// What the data limit asks for.
#[derive(PartialEq, Eq, Structural, Clone, Copy, Debug)]
pub enum LimitAction {
    /// Clear the block.
    Unblock,
    /// Close the data connection (when open) and set the block.
    Block,
}

/// The data limit decision: with no limit set (`None`) the block is cleared;
/// with a limit, the block is set when automatic disabling is on and the
/// received plus sent bytes (saturating) reach the limit, and cleared
/// otherwise.
pub fn limit_action(limit_bytes: Option<u64>, auto_disable: bool, rx: u64, tx: u64) -> (r:
    LimitAction)
    ensures
        r == (match limit_bytes {
            Some(l) => if auto_disable && sat_add(rx, tx as int) >= l {
                LimitAction::Block
            } else {
                LimitAction::Unblock
            },
            None => LimitAction::Unblock,
        }),
{
    match limit_bytes {
        None => LimitAction::Unblock,
        Some(l) => {
            let total = sat_add_exec(rx, tx);
            if auto_disable && total >= l {
                LimitAction::Block
            } else {
                LimitAction::Unblock
            }
        },
    }
}

/// `prefix` followed by `e`, as the message of a `Waiting` outcome.
pub fn waiting_with(prefix: &str, e: &str) -> (r: (DataCheckOutcome, String))
    ensures
        r.0 == DataCheckOutcome::Waiting,
        r.1@ == prefix@ + e@,
{
    let mut m = chars_of(prefix);
    let ev = chars_of(e);
    append_chars(&mut m, ev.as_slice());
    (DataCheckOutcome::Waiting, string_of(m.as_slice()))
}

/// The watchdog's final word on a healthy connection: clears the failures
/// and reports `Connected (APN: <apn>)`.
pub fn connected(state: &mut WatchdogState, now: u64, apn: &str) -> (r: (DataCheckOutcome, String))
    ensures
        r.0 == DataCheckOutcome::Healthy,
        r.1@ == "Connected (APN: "@ + apn@ + ")"@,
        final(state).consecutive_failures == 0,
        final(state).next_attempt_at == now,
        final(state).last_iccid == old(state).last_iccid,
{
    state.record_success(now);
    let mut m = chars_of("Connected (APN: ");
    let a = chars_of(apn);
    append_chars(&mut m, a.as_slice());
    let c = chars_of(")");
    append_chars(&mut m, c.as_slice());
    (DataCheckOutcome::Healthy, string_of(m.as_slice()))
}

/// The message of an activation after configuring the APN: the configuration
/// message, ` (APN not configured)`, then `, connection activated` on success
/// or `, but activation failed: ` and the error.
pub fn apn_configured_messages(config_message: &str) -> (r: (String, String))
    ensures
        r.0@ == config_message@ + " (APN not configured), connection activated"@,
        r.1@ == config_message@ + " (APN not configured), but activation failed: "@,
{
    let a = crate::text::concat_str(config_message, chars_of(" (APN not configured), connection activated").as_slice());
    let b = crate::text::concat_str(config_message, chars_of(" (APN not configured), but activation failed: ").as_slice());
    (string_of(a.as_slice()), string_of(b.as_slice()))
}

/// The messages of an activation after a SIM change: the configuration
/// message, then `; re-activated after SIM change` on success or
/// `; activate failed: ` and the error.
pub fn sim_change_messages(config_message: &str) -> (r: (String, String))
    ensures
        r.0@ == config_message@ + "; re-activated after SIM change"@,
        r.1@ == config_message@ + "; activate failed: "@,
{
    let a = crate::text::concat_str(config_message, chars_of("; re-activated after SIM change").as_slice());
    let b = crate::text::concat_str(config_message, chars_of("; activate failed: ").as_slice());
    (string_of(a.as_slice()), string_of(b.as_slice()))
}

/// The message of a restored connection: `Connection restored (APN: <apn>)`.
pub fn restored_message(apn: &str) -> (r: String)
    ensures
        r@ == "Connection restored (APN: "@ + apn@ + ")"@,
{
    let mut m = chars_of("Connection restored (APN: ");
    let a = chars_of(apn);
    append_chars(&mut m, a.as_slice());
    let c = chars_of(")");
    append_chars(&mut m, c.as_slice());
    string_of(m.as_slice())
}


/// The failure count stays below the limit, a failure never postpones the
/// next attempt by more than the cool-down, and from a clean state the first
/// seven failures in a row wait 15, 30, 60, 120, 120, 120 and 120 seconds
/// while the eighth clears the count and waits the cool-down.
pub proof fn lemma_failure_schedule(f: u32, now: u64)
    ensures
        failures_after(f) < MAX_CONSECUTIVE_FAILURES,
        now <= next_after_failure(f, now) <= sat_add(now, GIVE_UP_COOLDOWN_SECS * 1000),
        f < 7 ==> failures_after(f) == f + 1 && next_after_failure(f, now) == sat_add(
            now,
            backoff_step(f + 1) * 1000,
        ),
        f == 7 ==> failures_after(f) == 0 && next_after_failure(f, now) == sat_add(
            now,
            GIVE_UP_COOLDOWN_SECS * 1000,
        ),
{
}

} // verus!
