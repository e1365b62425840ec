use udx710_backend::config::{
    default_interval_days, default_refresh_interval_ms, default_reset_day,
    get_default_config_path, normalize_reset_day, sanitize_refresh_interval_ms, ChannelType,
    NotificationChannel, RefreshConfig, ScheduledRebootConfig,
};
use udx710_backend::models::{
    default_limit, default_nr_rat, default_page_size, ApiResponse, RadioMode, UsbMode,
};

#[test]
fn channel_selection() {
    let mut c = NotificationChannel::default();
    assert!(!c.is_channel_enabled());
    assert!(c.get_active_url().is_none());
    assert!(c.forward_sms && c.forward_calls);
    c.channel = ChannelType::Dingtalk;
    assert!(c.is_channel_enabled());
    assert!(c.get_active_url().is_none());
    c.dingtalk.url = "https://oapi.dingtalk.com/robot/send?access_token=x".to_string();
    assert_eq!(
        c.get_active_url(),
        Some((ChannelType::Dingtalk, "https://oapi.dingtalk.com/robot/send?access_token=x"))
    );
    c.channel = ChannelType::Bark;
    c.bark.device_key = "KEY".to_string();
    assert_eq!(c.get_active_url(), Some((ChannelType::Bark, "KEY")));
    c.channel = ChannelType::Email;
    assert!(c.get_active_url().is_none());
    c.channel = ChannelType::Ntfy;
    c.ntfy.topic = "t".to_string();
    assert_eq!(c.get_active_url(), Some((ChannelType::Ntfy, "")));
}

#[test]
fn defaults() {
    assert_eq!(default_interval_days(), 1);
    assert_eq!(default_reset_day(), 1);
    assert_eq!(default_refresh_interval_ms(), 5000);
    let r = ScheduledRebootConfig::default();
    assert!(!r.enabled);
    assert_eq!((r.interval_days, r.hour, r.minute), (1, 4, 0));
    assert_eq!(RefreshConfig::default().interval_ms, 5000);
    assert_eq!(default_nr_rat(), 16);
    assert_eq!(default_page_size(), 50);
    assert_eq!(default_limit(), 50);
}

#[test]
fn reset_day_normalization() {
    assert_eq!(normalize_reset_day(0), 1);
    assert_eq!(normalize_reset_day(32), 1);
    assert_eq!(normalize_reset_day(31), 31);
    assert_eq!(normalize_reset_day(15), 15);
}

#[test]
fn refresh_intervals() {
    assert_eq!(sanitize_refresh_interval_ms(0), 0);
    assert_eq!(sanitize_refresh_interval_ms(10), 1000);
    assert_eq!(sanitize_refresh_interval_ms(5000), 5000);
    assert_eq!(sanitize_refresh_interval_ms(90_000), 60_000);
    let off = RefreshConfig { interval_ms: 0 };
    assert_eq!(off.heartbeat_timeout_ms(), 30_000);
    assert_eq!(off.active_watchdog_interval_ms(), 15_000);
    assert_eq!(off.idle_watchdog_interval_ms(), 90_000);
    let fast = RefreshConfig { interval_ms: 1000 };
    assert_eq!(fast.heartbeat_timeout_ms(), 15_000);
    assert_eq!(fast.active_watchdog_interval_ms(), 5_000);
    assert_eq!(fast.idle_watchdog_interval_ms(), 60_000);
    let slow = RefreshConfig { interval_ms: 60_000 };
    assert_eq!(slow.heartbeat_timeout_ms(), 120_000);
    assert_eq!(slow.idle_watchdog_interval_ms(), 360_000);
    let odd = RefreshConfig { interval_ms: 500 }.sanitize();
    assert_eq!(odd.interval_ms, 1000);
    let s = RefreshConfig { interval_ms: 500 }.sanitize().sanitize();
    assert_eq!(s.interval_ms, 1000);
}

#[test]
fn config_path() {
    assert_eq!(get_default_config_path("/home/root/6677"), "/home/root/6677/config.json");
    assert_eq!(get_default_config_path("/data/"), "/data/config.json");
    assert_eq!(get_default_config_path(""), "config.json");
}

#[test]
fn api_envelopes() {
    let ok = ApiResponse::success_with_message("Success".to_string(), 5u32);
    assert_eq!((ok.status.as_str(), ok.message.as_str(), ok.data), ("ok", "Success", Some(5)));
    let err: ApiResponse<u32> = ApiResponse::error("bad".to_string());
    assert_eq!((err.status.as_str(), err.message.as_str(), err.data), ("error", "bad", None));
}

#[test]
fn radio_modes() {
    assert_eq!(RadioMode::Auto.to_ofono_value(), "NR 5G/LTE auto");
    assert_eq!(RadioMode::LteOnly.to_ofono_value(), "LTE only");
    assert_eq!(RadioMode::NrOnly.to_ofono_value(), "NR 5G only");
    for m in [RadioMode::Auto, RadioMode::LteOnly, RadioMode::NrOnly] {
        assert_eq!(RadioMode::from_ofono_value(m.to_ofono_value()), Some(m));
    }
    assert_eq!(RadioMode::from_ofono_value("LTE/GSM/WCDMA auto"), Some(RadioMode::Auto));
    assert_eq!(RadioMode::from_ofono_value("GSM only"), None);
    assert_eq!(UsbMode::CdcNcm.value(), 1);
    assert_eq!(UsbMode::CdcEcm.value(), 2);
    assert_eq!(UsbMode::Rndis.value(), 3);
}
