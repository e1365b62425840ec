use udx710_backend::calls::CallRecord;
use udx710_backend::config::{BarkConfig, ChannelType, EmailConfig, NotificationChannel, PushProviderConfig};
use udx710_backend::webhook::{
    feishu_target,
    bark_push_request, body_check, channel_debug_name, check_push_provider_response,
    check_response, email_message_plan, escape_json_string, get_device_label,
    push_provider_request, render_call_for_channel, render_sms_for_channel, render_template,
    robot_sign, robot_url, should_forward, sign_url, split_title_body, test_sms,
    test_success_message, url_encode, utc_to_local, JsonValue, PushBody, SmsMessage,
};

fn sms() -> SmsMessage {
    SmsMessage {
        id: 7,
        direction: "incoming".to_string(),
        phone_number: "10086".to_string(),
        content: "hi \"x\"".to_string(),
        timestamp: "2025-01-01T00:00:00Z".to_string(),
        status: "received".to_string(),
        pdu: None,
    }
}

fn call() -> CallRecord {
    CallRecord {
        id: 9,
        phone_number: "10010".to_string(),
        direction: "incoming".to_string(),
        duration: 30,
        start_time: "2025-01-01T12:00:00+00:00".to_string(),
        end_time: Some("2025-01-01T12:00:30+00:00".to_string()),
        answered: true,
    }
}

fn channel(kind: ChannelType) -> NotificationChannel {
    let mut c = NotificationChannel::default();
    c.channel = kind;
    c
}

#[test]
fn json_escaping() {
    assert_eq!(escape_json_string("a\\b\"c\nd\re\tf"), "a\\\\b\\\"c\\nd\\re\\tf");
    assert_eq!(escape_json_string("plain"), "plain");
}

#[test]
fn url_encoding() {
    assert_eq!(url_encode("aZ09-_.~"), "aZ09-_.~");
    assert_eq!(url_encode("a+b/c="), "a%2Bb%2Fc%3D");
    assert_eq!(url_encode("a b"), "a%20b");
    // Only the low byte of a wide character is written.
    assert_eq!(url_encode("中"), "%2D");
}

#[test]
fn utc_times_shown_in_beijing_time() {
    assert_eq!(utc_to_local("2025-01-01T00:00:00Z"), "2025-01-01 08:00:00");
    assert_eq!(utc_to_local("2025-01-01T23:30:00+00:00"), "2025-01-02 07:30:00");
    assert_eq!(utc_to_local("not a time"), "not a time");
}

#[test]
fn template_variables_for_sms() {
    let out = render_template(
        "{{device_name}}|{{self_number}}|{{phone_number}}|{{content}}|{{direction_cn}}|{{id}}|{{sender}}|{{message}}|{{time}}|{{local_time}}|{{unknown}}",
        &sms(),
        None,
        "dev",
        "LT",
        true,
    );
    assert_eq!(
        out,
        "dev|dev|10086|hi \\\"x\\\"|来电|7|10086|hi \\\"x\\\"|2025-01-01T00:00:00Z|LT|{{unknown}}"
    );
}

#[test]
fn template_variables_for_calls() {
    let c = call();
    let out = render_template(
        "{{caller}} {{direction_cn}} {{duration}} {{answered}} {{answered_bool}} {{end_time}} {{id}}",
        &sms(),
        Some(&c),
        "dev",
        "LT",
        false,
    );
    assert_eq!(out, "10010 来电 30 是 true 2025-01-01T12:00:30+00:00 9");
}

#[test]
fn sms_payload_for_robot_channel() {
    let out = render_sms_for_channel(&channel(ChannelType::Dingtalk), &sms(), "dev");
    assert_eq!(
        out,
        "{\"msgtype\":\"text\",\"text\":{\"content\":\"📱短信\\n来自：10086\\n内容：hi \\\"x\\\"\\n\\n本机号码：dev\\n时间：2025-01-01 08:00:00\"}}"
    );
}

#[test]
fn sms_payload_for_light_channel() {
    let out = render_sms_for_channel(&channel(ChannelType::Bark), &sms(), "dev");
    assert_eq!(
        out,
        "📱短信\n\n来自：10086\n内容：hi \"x\"\n\n本机号码：dev\n时间：2025-01-01 08:00:00"
    );
    let mut custom = channel(ChannelType::Email);
    custom.sms_title_template = "T {{phone_number}}".to_string();
    custom.sms_body_template = "B {{content}}".to_string();
    assert_eq!(render_sms_for_channel(&custom, &sms(), "dev"), "T 10086\n\nB hi \"x\"");
    assert_eq!(render_sms_for_channel(&channel(ChannelType::Disabled), &sms(), "dev"), "");
}

#[test]
fn call_payload_for_light_channel() {
    let out = render_call_for_channel(&channel(ChannelType::Ntfy), &call(), "dev");
    assert_eq!(
        out,
        "📞来电提醒\n\n来电号码：10010\n时长：30秒\n\n本机号码：dev\n时间：2025-01-01 20:00:00"
    );
}

#[test]
fn device_labels() {
    assert_eq!(get_device_label("cpe", "123"), "cpe");
    assert_eq!(get_device_label("", "123"), "123");
    assert_eq!(get_device_label("", ""), "未知设备");
}

#[test]
fn payload_split() {
    assert_eq!(
        split_title_body("a\n\nb\n\nc", "T"),
        ("a".to_string(), "b\n\nc".to_string())
    );
    assert_eq!(split_title_body("abc", "T"), ("T".to_string(), "abc".to_string()));
}

#[test]
fn robot_signature_known_value() {
    assert_eq!(robot_sign(1_700_000_000_000, "SECabc"), "jcUpW0QmtKduN03n4JqQ0PBosVjqnM8gU7fIIvsDmCM=");
}

#[test]
fn signed_urls() {
    assert_eq!(
        sign_url("https://x/robot?access_token=1", 5, "a+b/c="),
        "https://x/robot?access_token=1&timestamp=5&sign=a%2Bb%2Fc%3D"
    );
    assert_eq!(sign_url("https://x/hook", -3, "s"), "https://x/hook?timestamp=-3&sign=s");
}

#[test]
fn robot_urls() {
    assert_eq!(robot_url("", "s", "DingTalk"), Err("DingTalk URL is not configured".to_string()));
    assert_eq!(robot_url("https://x", "", "DingTalk"), Ok("https://x".to_string()));
    let signed = robot_url("https://x", "sec", "DingTalk").unwrap();
    assert!(signed.starts_with("https://x?timestamp="));
    assert!(signed.contains("&sign="));
}

#[test]
fn bark_requests() {
    let mut cfg = BarkConfig::default();
    assert_eq!(
        bark_push_request(&cfg, "x").err(),
        Some("Bark device key is not configured".to_string())
    );
    cfg.device_key = "KEY".to_string();
    cfg.server_url = "https://bark.example//".to_string();
    cfg.sound = "bell".to_string();
    let r = bark_push_request(&cfg, "Title\n\nBody").unwrap();
    assert_eq!(r.endpoint, "https://bark.example/KEY");
    assert!(r.bearer.is_none());
    match r.body {
        PushBody::Query(q) => assert_eq!(
            q,
            vec![
                ("title".to_string(), "Title".to_string()),
                ("body".to_string(), "Body".to_string()),
                ("sound".to_string(), "bell".to_string()),
            ]
        ),
        _ => panic!("query expected"),
    }
}

#[test]
fn provider_requests() {
    let mut cfg = PushProviderConfig::default();
    assert_eq!(
        push_provider_request(&cfg, ChannelType::Pushplus, "x").err(),
        Some("当前推送服务缺少凭证".to_string())
    );
    assert_eq!(
        push_provider_request(&cfg, ChannelType::Ntfy, "x").err(),
        Some("ntfy 主题不能为空".to_string())
    );
    cfg.credential = " tok ".to_string();
    let sc = push_provider_request(&cfg, ChannelType::Serverchan, "msg").unwrap();
    assert_eq!(sc.endpoint, "https://sctapi.ftqq.com/tok.send");
    match sc.body {
        PushBody::Form(f) => assert_eq!(
            f,
            vec![
                ("title".to_string(), "CPE 通知".to_string()),
                ("text".to_string(), "CPE 通知".to_string()),
                ("desp".to_string(), "msg".to_string()),
            ]
        ),
        _ => panic!("form expected"),
    }
    cfg.topic = "alerts".to_string();
    let n = push_provider_request(&cfg, ChannelType::Ntfy, "T\n\nB").unwrap();
    assert_eq!(n.endpoint, "https://ntfy.sh/");
    assert_eq!(n.bearer, Some("tok".to_string()));
    match n.body {
        PushBody::Json(f) => {
            assert_eq!(f.len(), 4);
            assert_eq!(f[0].0, "topic");
            assert!(matches!(&f[0].1, JsonValue::Text(t) if t == "alerts"));
            assert!(matches!(&f[3].1, JsonValue::Flag(true)));
        }
        _ => panic!("json expected"),
    }
    assert_eq!(
        push_provider_request(&cfg, ChannelType::Bark, "x").err(),
        Some("Unsupported push provider: Bark".to_string())
    );
}

#[test]
fn email_plans() {
    let mut cfg = EmailConfig::default();
    assert_eq!(email_message_plan(&cfg, "x").err(), Some("Email config is incomplete".to_string()));
    cfg.smtp_host = "smtp.example".to_string();
    cfg.username = "me@example.com".to_string();
    cfg.to_addresses = " , ".to_string();
    assert_eq!(
        email_message_plan(&cfg, "x").err(),
        Some("No valid recipient email address".to_string())
    );
    cfg.to_addresses = "a@x.com, b@x.com,".to_string();
    cfg.from_name = "CPE".to_string();
    cfg.subject_prefix = " [home] ".to_string();
    let p = email_message_plan(&cfg, "Hello\n\nWorld").unwrap();
    assert_eq!(p.to, vec!["a@x.com".to_string(), "b@x.com".to_string()]);
    assert_eq!(p.subject, "[home] Hello");
    assert_eq!(p.from, "CPE <me@example.com>");
    assert_eq!(p.body, "World");
}

#[test]
fn reply_checks() {
    assert_eq!(check_response(true, "200 OK", "x"), Ok(()));
    assert_eq!(
        check_response(false, "500 Internal Server Error", "oops"),
        Err("Request failed with status 500 Internal Server Error: oops".to_string())
    );
    assert_eq!(body_check(true, false, "{\"code\":200}"), Ok(()));
    assert_eq!(
        body_check(true, false, "{\"code\":999,\"msg\":\"bad token\"}"),
        Err("推送服务返回失败: bad token".to_string())
    );
    assert_eq!(
        body_check(false, true, "{\"code\":40001}"),
        Err("推送服务返回失败: 未知错误".to_string())
    );
    assert_eq!(body_check(false, true, "{\"code\":0}"), Ok(()));
    assert_eq!(body_check(true, false, "not json"), Ok(()));
    assert_eq!(body_check(true, false, "   "), Ok(()));
    assert_eq!(
        check_push_provider_response(ChannelType::Pushdeer, true, "200 OK", "{\"code\":1,\"error\":\"e\"}"),
        Err("推送服务返回失败: e".to_string())
    );
    let long = "y".repeat(300);
    let r = check_push_provider_response(ChannelType::Ntfy, false, "404 Not Found", &long);
    assert_eq!(r, Err(format!("推送服务返回错误状态 404 Not Found {}", "y".repeat(200))));
}

#[test]
fn forwarding_and_test_messages() {
    let mut c = channel(ChannelType::Dingtalk);
    assert!(should_forward(&c, false));
    c.forward_calls = false;
    assert!(!should_forward(&c, true));
    assert!(!should_forward(&channel(ChannelType::Disabled), false));
    let t = test_sms("2025-01-01T00:00:00Z".to_string(), "hello");
    assert_eq!(t.phone_number, "+8613800138000");
    assert_eq!(t.status, "received");
    assert_eq!(channel_debug_name(ChannelType::Disabled), "None");
    assert_eq!(test_success_message(ChannelType::Feishu), "Test message sent via Feishu successfully");
}

#[test]
fn feishu_target_needs_a_url_and_signs_with_a_secret() {
    assert_eq!(feishu_target("", "s"), Err("Feishu URL is not configured".to_string()));
    assert_eq!(
        feishu_target("https://open.feishu.cn/hook/x", ""),
        Ok(("https://open.feishu.cn/hook/x".to_string(), None))
    );
    let (url, sig) = feishu_target("https://open.feishu.cn/hook/x", "secret").unwrap();
    assert_eq!(url, "https://open.feishu.cn/hook/x");
    let sig = sig.unwrap();
    assert_eq!(sig.len(), 44);
    assert!(sig.ends_with('='));
}
