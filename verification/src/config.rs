//! User configuration: notification channels, scheduled reboot and the
//! frontend refresh timing rules.

use vstd::prelude::*;

verus! {

/// Notification channel kind; at most one is active.
#[derive(Debug, Clone, Copy, PartialEq, Eq, Structural, Default)]
pub enum ChannelType {
    #[default]
    Disabled,
    Dingtalk,
    Feishu,
    Wecom,
    Email,
    Bark,
    Pushplus,
    Serverchan,
    Pushdeer,
    Ntfy,
}

/// DingTalk robot settings.
#[derive(Debug, Clone, Default)]
pub struct DingtalkConfig {
    pub url: String,
    pub secret: String,
    pub template: String,
}

/// Feishu robot settings.
#[derive(Debug, Clone, Default)]
pub struct FeishuConfig {
    pub url: String,
    pub secret: String,
    pub template: String,
}

/// WeCom robot settings.
#[derive(Debug, Clone, Default)]
pub struct WecomConfig {
    pub url: String,
    pub secret: String,
    pub template: String,
}

/// SMTP mail settings.
#[derive(Debug, Clone, Default)]
pub struct EmailConfig {
    pub smtp_host: String,
    pub smtp_port: u16,
    pub use_tls: bool,
    pub username: String,
    pub password: String,
    pub from_name: String,
    pub to_addresses: String,
    pub subject_prefix: String,
}

/// Bark push settings.
#[derive(Debug, Clone, Default)]
pub struct BarkConfig {
    pub server_url: String,
    pub device_key: String,
    pub sound: String,
    pub icon: String,
    pub group: String,
}

/// Settings shared by the generic push services (PushPlus, ServerChan,
/// PushDeer, ntfy): endpoint, credential and topic.
#[derive(Debug, Clone, Default)]
pub struct PushProviderConfig {
    pub url: String,
    pub credential: String,
    pub topic: String,
}

/// The notification channel configuration.
#[derive(Debug, Clone)]
pub struct NotificationChannel {
    pub channel: ChannelType,
    pub dingtalk: DingtalkConfig,
    pub feishu: FeishuConfig,
    pub wecom: WecomConfig,
    pub email: EmailConfig,
    pub bark: BarkConfig,
    pub pushplus: PushProviderConfig,
    pub serverchan: PushProviderConfig,
    pub pushdeer: PushProviderConfig,
    pub ntfy: PushProviderConfig,
    pub sms_title_template: String,
    pub sms_body_template: String,
    pub call_title_template: String,
    pub call_body_template: String,
    pub forward_sms: bool,
    pub forward_calls: bool,
}

fn empty_provider() -> (p: PushProviderConfig)
    ensures
        p.url@.len() == 0 && p.credential@.len() == 0 && p.topic@.len() == 0,
{
    PushProviderConfig { url: String::new(), credential: String::new(), topic: String::new() }
}

impl Default for NotificationChannel {
    /// No channel, empty settings and templates, SMS and call forwarding on.
    fn default() -> (r: Self)
        ensures
            r.channel == ChannelType::Disabled,
            r.forward_sms,
            r.forward_calls,
            r.dingtalk.url@.len() == 0,
            r.feishu.url@.len() == 0,
            r.wecom.url@.len() == 0,
            r.bark.device_key@.len() == 0,
            r.pushplus.credential@.len() == 0,
            r.serverchan.credential@.len() == 0,
            r.pushdeer.credential@.len() == 0,
            r.ntfy.topic@.len() == 0,
            r.sms_title_template@.len() == 0,
            r.sms_body_template@.len() == 0,
            r.call_title_template@.len() == 0,
            r.call_body_template@.len() == 0,
    {
        NotificationChannel {
            channel: ChannelType::Disabled,
            dingtalk: DingtalkConfig { url: String::new(), secret: String::new(), template: String::new() },
            feishu: FeishuConfig { url: String::new(), secret: String::new(), template: String::new() },
            wecom: WecomConfig { url: String::new(), secret: String::new(), template: String::new() },
            email: EmailConfig {
                smtp_host: String::new(),
                smtp_port: 0,
                use_tls: false,
                username: String::new(),
                password: String::new(),
                from_name: String::new(),
                to_addresses: String::new(),
                subject_prefix: String::new(),
            },
            bark: BarkConfig {
                server_url: String::new(),
                device_key: String::new(),
                sound: String::new(),
                icon: String::new(),
                group: String::new(),
            },
            pushplus: empty_provider(),
            serverchan: empty_provider(),
            pushdeer: empty_provider(),
            ntfy: empty_provider(),
            sms_title_template: String::new(),
            sms_body_template: String::new(),
            call_title_template: String::new(),
            call_body_template: String::new(),
            forward_sms: true,
            forward_calls: true,
        }
    }
}

/// The active channel and the setting it is addressed by, when that setting
/// is filled in: the robot URL, the Bark device key, or the service URL of a
/// push provider whose credential (topic for ntfy) is set. Email has none.
pub open spec fn active_target(c: NotificationChannel) -> Option<(ChannelType, Seq<char>)> {
    match c.channel {
        ChannelType::Disabled => None,
        ChannelType::Dingtalk => if c.dingtalk.url@.len() > 0 {
            Some((ChannelType::Dingtalk, c.dingtalk.url@))
        } else {
            None
        },
        ChannelType::Feishu => if c.feishu.url@.len() > 0 {
            Some((ChannelType::Feishu, c.feishu.url@))
        } else {
            None
        },
        ChannelType::Wecom => if c.wecom.url@.len() > 0 {
            Some((ChannelType::Wecom, c.wecom.url@))
        } else {
            None
        },
        ChannelType::Email => None,
        ChannelType::Bark => if c.bark.device_key@.len() > 0 {
            Some((ChannelType::Bark, c.bark.device_key@))
        } else {
            None
        },
        ChannelType::Pushplus => if c.pushplus.credential@.len() > 0 {
            Some((ChannelType::Pushplus, c.pushplus.url@))
        } else {
            None
        },
        ChannelType::Serverchan => if c.serverchan.credential@.len() > 0 {
            Some((ChannelType::Serverchan, c.serverchan.url@))
        } else {
            None
        },
        ChannelType::Pushdeer => if c.pushdeer.credential@.len() > 0 {
            Some((ChannelType::Pushdeer, c.pushdeer.url@))
        } else {
            None
        },
        ChannelType::Ntfy => if c.ntfy.topic@.len() > 0 {
            Some((ChannelType::Ntfy, c.ntfy.url@))
        } else {
            None
        },
    }
}

impl NotificationChannel {
    /// Some channel is selected.
    pub fn is_channel_enabled(&self) -> (r: bool)
        ensures
            r == (self.channel != ChannelType::Disabled),
    {
        !matches!(self.channel, ChannelType::Disabled)
    }

    /// The active channel with its address (see `active_target`).
    pub fn get_active_url(&self) -> (r: Option<(ChannelType, &str)>)
        ensures
            match (r, active_target(*self)) {
                (Some((k, u)), Some((k2, u2))) => k == k2 && u@ == u2,
                (None, None) => true,
                _ => false,
            },
    {
        match self.channel {
            ChannelType::Disabled => None,
            ChannelType::Dingtalk => if self.dingtalk.url.as_str().unicode_len() > 0 {
                Some((ChannelType::Dingtalk, self.dingtalk.url.as_str()))
            } else {
                None
            },
            ChannelType::Feishu => if self.feishu.url.as_str().unicode_len() > 0 {
                Some((ChannelType::Feishu, self.feishu.url.as_str()))
            } else {
                None
            },
            ChannelType::Wecom => if self.wecom.url.as_str().unicode_len() > 0 {
                Some((ChannelType::Wecom, self.wecom.url.as_str()))
            } else {
                None
            },
            ChannelType::Email => None,
            ChannelType::Bark => if self.bark.device_key.as_str().unicode_len() > 0 {
                Some((ChannelType::Bark, self.bark.device_key.as_str()))
            } else {
                None
            },
            ChannelType::Pushplus => if self.pushplus.credential.as_str().unicode_len() > 0 {
                Some((ChannelType::Pushplus, self.pushplus.url.as_str()))
            } else {
                None
            },
            ChannelType::Serverchan => if self.serverchan.credential.as_str().unicode_len() > 0 {
                Some((ChannelType::Serverchan, self.serverchan.url.as_str()))
            } else {
                None
            },
            ChannelType::Pushdeer => if self.pushdeer.credential.as_str().unicode_len() > 0 {
                Some((ChannelType::Pushdeer, self.pushdeer.url.as_str()))
            } else {
                None
            },
            ChannelType::Ntfy => if self.ntfy.topic.as_str().unicode_len() > 0 {
                Some((ChannelType::Ntfy, self.ntfy.url.as_str()))
            } else {
                None
            },
        }
    }
}

/// Scheduled reboot settings.
#[derive(Debug, Clone, Copy)]
pub struct ScheduledRebootConfig {
    pub enabled: bool,
    /// Reboot every this many days.
    pub interval_days: u32,
    /// Reboot hour (0-23).
    pub hour: u8,
    /// Reboot minute (0-59).
    pub minute: u8,
}

/// Interval used when the stored settings omit it: every day.
pub fn default_interval_days() -> (r: u32)
    ensures
        r == 1,
{
    1
}

impl Default for ScheduledRebootConfig {
    /// Disabled, daily, at 04:00.
    fn default() -> (r: Self)
        ensures
            !r.enabled && r.interval_days == 1 && r.hour == 4 && r.minute == 0,
    {
        ScheduledRebootConfig { enabled: false, interval_days: 1, hour: 4, minute: 0 }
    }
}

/// Billing reset day used when the stored settings omit it.
pub fn default_reset_day() -> (r: u8)
    ensures
        r == 1,
{
    1
}

/// Billing reset day as it is stored: 0 and values above 31 become 1.
pub open spec fn stored_reset_day(day: u8) -> u8 {
    if day == 0 || day > 31 {
        1
    } else {
        day
    }
}

/// Billing reset day as it is stored (see `stored_reset_day`).
pub fn normalize_reset_day(day: u8) -> (r: u8)
    ensures
        r == stored_reset_day(day),
        1 <= r <= 31,
{
    if day == 0 || day > 31 {
        1
    } else {
        day
    }
}

/// Frontend refresh interval in milliseconds; 0 turns refreshing off.
#[derive(Debug, Clone, Copy)]
pub struct RefreshConfig {
    pub interval_ms: u64,
}

/// Refresh interval used when the stored settings omit it.
pub fn default_refresh_interval_ms() -> (r: u64)
    ensures
        r == 5000,
{
    5_000
}

impl Default for RefreshConfig {
    /// A refresh every five seconds.
    fn default() -> (r: Self)
        ensures
            r.interval_ms == 5000,
    {
        RefreshConfig { interval_ms: default_refresh_interval_ms() }
    }
}

/// Accepted refresh interval: 0 stays off, shorter than a second becomes a
/// second, longer than a minute becomes a minute.
pub open spec fn sane_interval(ms: u64) -> u64 {
    if ms == 0 {
        0
    } else if ms < 1000 {
        1000
    } else if ms > 60000 {
        60000
    } else {
        ms
    }
}

/// Heartbeat timeout for an interval: 30 s when refreshing is off, otherwise
/// four intervals (at least four seconds) held within 15 s and 120 s.
pub open spec fn heartbeat_timeout(ms: u64) -> int {
    if ms == 0 {
        30000
    } else {
        let base = if ms < 1000 {
            1000int
        } else {
            ms as int
        };
        let four = if base * 4 > u64::MAX {
            u64::MAX as int
        } else {
            base * 4
        };
        if four < 15000 {
            15000
        } else if four > 120000 {
            120000
        } else {
            four
        }
    }
}

/// Watchdog interval while the frontend is active: 15 s when refreshing is
/// off, otherwise the interval but at least 5 s.
pub open spec fn active_watchdog(ms: u64) -> int {
    if ms == 0 {
        15000
    } else if ms < 5000 {
        5000
    } else {
        ms as int
    }
}

/// Watchdog interval while the frontend is idle: six active intervals
/// (saturating), at least a minute.
pub open spec fn idle_watchdog(ms: u64) -> int {
    let six = if active_watchdog(ms) * 6 > u64::MAX {
        u64::MAX as int
    } else {
        active_watchdog(ms) * 6
    };
    if six < 60000 {
        60000
    } else {
        six
    }
}

/// The accepted refresh interval (see `sane_interval`).
pub fn sanitize_refresh_interval_ms(interval_ms: u64) -> (r: u64)
    ensures
        r == sane_interval(interval_ms),
{
    if interval_ms == 0 {
        0
    } else if interval_ms < 1000 {
        1_000
    } else if interval_ms > 60_000 {
        60_000
    } else {
        interval_ms
    }
}

impl RefreshConfig {
    /// The configuration with an accepted interval.
    pub fn sanitize(self) -> (r: Self)
        ensures
            r.interval_ms == sane_interval(self.interval_ms),
    {
        RefreshConfig { interval_ms: sanitize_refresh_interval_ms(self.interval_ms) }
    }

    /// Heartbeat timeout (see `heartbeat_timeout`).
    pub fn heartbeat_timeout_ms(&self) -> (r: u64)
        ensures
            r == heartbeat_timeout(self.interval_ms),
    {
        let base = if self.interval_ms < 1_000 {
            1_000
        } else {
            self.interval_ms
        };
        if self.interval_ms == 0 {
            30_000
        } else {
            let four = if base > u64::MAX / 4 {
                u64::MAX
            } else {
                base * 4
            };
            if four < 15_000 {
                15_000
            } else if four > 120_000 {
                120_000
            } else {
                four
            }
        }
    }

    /// Watchdog interval while the frontend is active (see `active_watchdog`).
    pub fn active_watchdog_interval_ms(&self) -> (r: u64)
        ensures
            r == active_watchdog(self.interval_ms),
    {
        if self.interval_ms == 0 {
            15_000
        } else if self.interval_ms < 5_000 {
            5_000
        } else {
            self.interval_ms
        }
    }

    /// Watchdog interval while the frontend is idle (see `idle_watchdog`).
    pub fn idle_watchdog_interval_ms(&self) -> (r: u64)
        ensures
            r == idle_watchdog(self.interval_ms),
    {
        let active = self.active_watchdog_interval_ms();
        let six = if active > u64::MAX / 6 {
            u64::MAX
        } else {
            active * 6
        };
        if six < 60_000 {
            60_000
        } else {
            six
        }
    }
}

/// Sanitizing an accepted interval changes nothing.
pub proof fn lemma_sanitize_idempotent(ms: u64)
    ensures
        sane_interval(sane_interval(ms)) == sane_interval(ms),
{
}

/// An accepted interval is off or lies between one second and one minute.
pub proof fn lemma_sanitized_range(ms: u64)
    ensures
        sane_interval(ms) == 0 || 1000 <= sane_interval(ms) <= 60000,
{
}

/// Every timing derived from an interval lies within its documented bounds,
/// and the idle watchdog never runs more often than the active one.
pub proof fn lemma_timing_bounds(ms: u64)
    ensures
        15000 <= heartbeat_timeout(ms) <= 120000,
        active_watchdog(ms) >= 5000,
        idle_watchdog(ms) >= 60000,
        idle_watchdog(ms) >= active_watchdog(ms),
{
}

/// The configuration file under the persistent root directory
/// (`config.json` joined to it, with a slash unless it already ends with one).
pub fn get_default_config_path(root: &str) -> (r: String)
    ensures
        r@ == root@ + (if root@.len() > 0 && root@.last() != '/' {
            "/"@
        } else {
            ""@
        }) + "config.json"@,
{
    let mut v = crate::text::chars_of(root);
    if v.len() > 0 && v[v.len() - 1] != '/' {
        v.push('/');
    }
    let f = crate::text::chars_of("config.json");
    crate::text::append_chars(&mut v, f.as_slice());
    proof {
        reveal_strlit("/");
        reveal_strlit("");
    }
    assert(v@ =~= root@ + (if root@.len() > 0 && root@.last() != '/' {
        "/"@
    } else {
        ""@
    }) + "config.json"@);
    crate::text::string_of(v.as_slice())
}

} // verus!
