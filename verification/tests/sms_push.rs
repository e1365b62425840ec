use udx710_backend::sms_push::{
    build_request, format_body_suffix, preview_response, push_success_message,
    render_sms_push_template, resolve_base_url, resolve_endpoint, validate_config,
    validate_provider_response, SmsPushConfig, SmsPushProvider,
};
use udx710_backend::webhook::{JsonValue, PushBody, SmsMessage};

fn config(provider: SmsPushProvider, credential: &str, topic: &str) -> SmsPushConfig {
    SmsPushConfig {
        enabled: true,
        provider,
        server_url: String::new(),
        credential: credential.to_string(),
        topic: topic.to_string(),
        title_template: String::new(),
        body_template: String::new(),
    }
}

#[test]
fn config_validation() {
    assert_eq!(
        validate_config(&config(SmsPushProvider::Pushplus, "  ", "")),
        Err("当前推送服务缺少凭证".to_string())
    );
    assert_eq!(
        validate_config(&config(SmsPushProvider::Ntfy, "tok", " ")),
        Err("ntfy 主题不能为空".to_string())
    );
    assert_eq!(validate_config(&config(SmsPushProvider::Ntfy, "", "t")), Ok(()));
    assert_eq!(validate_config(&config(SmsPushProvider::Bark, "k", "")), Ok(()));
}

#[test]
fn template_rendering() {
    let m = SmsMessage {
        id: -4,
        direction: "incoming".to_string(),
        phone_number: "10086".to_string(),
        content: "hello".to_string(),
        timestamp: "T".to_string(),
        status: "received".to_string(),
        pdu: None,
    };
    assert_eq!(
        render_sms_push_template("{{id}} {{sender}}:{{message}} @{{time}} {{status}} {{direction}} {{x}}", &m),
        "-4 10086:hello @T received incoming {{x}}"
    );
}

#[test]
fn endpoints() {
    assert_eq!(resolve_endpoint("  ", "https://d"), "https://d");
    assert_eq!(resolve_endpoint(" https://e.com// ", "https://d"), "https://e.com");
    assert_eq!(resolve_base_url("https://n.example/", "https://ntfy.sh"), "https://n.example");
}

#[test]
fn requests_per_provider() {
    let r = build_request(&config(SmsPushProvider::Serverchan, " SCT1 ", ""), "T", "B");
    assert_eq!(r.endpoint, "https://sctapi.ftqq.com/SCT1.send");
    assert!(r.bearer.is_none());
    match r.body {
        PushBody::Form(f) => assert_eq!(
            f,
            vec![
                ("title".to_string(), "T".to_string()),
                ("text".to_string(), "T".to_string()),
                ("desp".to_string(), "B".to_string()),
            ]
        ),
        _ => panic!("form expected"),
    }
    let b = build_request(&config(SmsPushProvider::Bark, "dk", "grp"), "T", "B");
    assert_eq!(b.endpoint, "https://api.day.app/push");
    match b.body {
        PushBody::Form(f) => {
            assert_eq!(f.len(), 4);
            assert_eq!(f[3], ("group".to_string(), "grp".to_string()));
        }
        _ => panic!("form expected"),
    }
    let n = build_request(&config(SmsPushProvider::Ntfy, "", "alerts"), "T", "B");
    assert_eq!(n.endpoint, "https://ntfy.sh/");
    assert!(n.bearer.is_none());
    let p = build_request(&config(SmsPushProvider::Pushplus, "tok", ""), "T", "B");
    assert_eq!(p.endpoint, "https://www.pushplus.plus/send");
    match p.body {
        PushBody::Json(f) => {
            assert_eq!(f.len(), 4);
            assert!(matches!(&f[3].1, JsonValue::Text(t) if t == "markdown"));
        }
        _ => panic!("json expected"),
    }
}

#[test]
fn previews() {
    assert_eq!(preview_response("  "), "");
    assert_eq!(preview_response(" {\"ok\":1} "), "body: {\"ok\":1}");
    let long = "a".repeat(130);
    assert_eq!(preview_response(&long), format!("body: {}...", "a".repeat(120)));
    assert_eq!(format_body_suffix(""), "");
    assert_eq!(format_body_suffix("x"), " (body: x)");
    assert_eq!(push_success_message("200 OK", ""), "短信推送测试成功 (status: 200 OK)");
    assert_eq!(push_success_message("200 OK", "x"), "短信推送测试成功 (status: 200 OK) body: x");
}

#[test]
fn provider_replies() {
    assert_eq!(
        validate_provider_response(SmsPushProvider::Pushplus, false, "502 Bad Gateway", "oops"),
        Err("推送服务返回错误状态 502 Bad Gateway (body: oops)".to_string())
    );
    assert_eq!(
        validate_provider_response(SmsPushProvider::Bark, true, "200 OK", "{\"code\":400,\"message\":\"bad key\"}"),
        Err("推送服务返回失败: bad key".to_string())
    );
    assert_eq!(
        validate_provider_response(SmsPushProvider::Ntfy, true, "200 OK", "{\"code\":400}"),
        Ok(())
    );
    assert_eq!(
        validate_provider_response(SmsPushProvider::Serverchan, true, "200 OK", "{\"code\":0}"),
        Ok(())
    );
}
