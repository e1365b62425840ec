//! Forwarding of received SMS to a push service (PushPlus, ServerChan,
//! PushDeer, Bark, ntfy): settings checks, message templates, the request
//! for each service and the verdict on its reply.

use vstd::prelude::*;
use vstd::string::*;
use crate::text::{
    append_chars, chars_of, chars_of_string, int_string, push_int, replace_all, string_of,
    strip_suffixes, strip_suffixes_exec, sub_vec, trim,
};
use crate::loader::trimmed;
use crate::webhook::{
    apply_replacements, body_check, body_verdict, json_fields, request_view, str_pairs,
    BodyView, JsonValue, JsonView, PushBody, PushRequest, SmsMessage,
};

verus! {

/// A push service for SMS.
#[derive(Debug, Clone, Copy, PartialEq, Eq, Structural)]
pub enum SmsPushProvider {
    Pushplus,
    Serverchan,
    Pushdeer,
    Bark,
    Ntfy,
}

/// SMS push settings.
pub struct SmsPushConfig {
    pub enabled: bool,
    pub provider: SmsPushProvider,
    /// Service address; empty for the official one.
    pub server_url: String,
    /// Token, SendKey, push key or device key.
    pub credential: String,
    /// Topic or group (ntfy requires one).
    pub topic: String,
    pub title_template: String,
    pub body_template: String,
}

/// Settings that lack what the service needs: a credential, or for ntfy a
/// topic (both trimmed).
pub open spec fn config_problem(config: SmsPushConfig) -> Option<Seq<char>> {
    if config.provider == SmsPushProvider::Ntfy {
        if trim(config.topic@).len() == 0 {
            Some("ntfy 主题不能为空"@)
        } else {
            None
        }
    } else if trim(config.credential@).len() == 0 {
        Some("当前推送服务缺少凭证"@)
    } else {
        None
    }
}

/// Whether the settings give the service what it needs.
pub fn validate_config(config: &SmsPushConfig) -> (r: Result<(), String>)
    ensures
        match config_problem(*config) {
            Some(m) => r matches Err(e) && e@ == m,
            None => r is Ok,
        },
{
    let c = chars_of_string(&config.credential);
    let credential = trimmed(c.as_slice());
    let t = chars_of_string(&config.topic);
    let topic = trimmed(t.as_slice());
    if config.provider == SmsPushProvider::Ntfy {
        if topic.len() == 0 {
            return Err("ntfy 主题不能为空".to_owned());
        }
    } else if credential.len() == 0 {
        return Err("当前推送服务缺少凭证".to_owned());
    }
    Ok(())
}

/// The replacements of an SMS push template.
pub open spec fn push_pairs(m: SmsMessage) -> Seq<(Seq<char>, Seq<char>)> {
    seq![
        ("{{id}}"@, int_string(m.id as int)),
        ("{{phone_number}}"@, m.phone_number@),
        ("{{content}}"@, m.content@),
        ("{{direction}}"@, m.direction@),
        ("{{timestamp}}"@, m.timestamp@),
        ("{{status}}"@, m.status@),
        ("{{sender}}"@, m.phone_number@),
        ("{{message}}"@, m.content@),
        ("{{time}}"@, m.timestamp@),
    ]
}

/// A template with the message's fields put in.
pub fn render_sms_push_template(template: &str, message: &SmsMessage) -> (r: String)
    ensures
        r@ == apply_replacements(template@, push_pairs(*message)),
{
    let mut cur = chars_of(template);
    let mut id: Vec<char> = Vec::new();
    push_int(&mut id, message.id);
    let pn = chars_of_string(&message.phone_number);
    let ct = chars_of_string(&message.content);
    let dr = chars_of_string(&message.direction);
    let ts = chars_of_string(&message.timestamp);
    let st = chars_of_string(&message.status);
    let ghost t0 = cur@;
    cur = crate::text::replace_all_exec(cur.as_slice(), chars_of("{{id}}").as_slice(), id.as_slice());
    cur = crate::text::replace_all_exec(cur.as_slice(), chars_of("{{phone_number}}").as_slice(), pn.as_slice());
    cur = crate::text::replace_all_exec(cur.as_slice(), chars_of("{{content}}").as_slice(), ct.as_slice());
    cur = crate::text::replace_all_exec(cur.as_slice(), chars_of("{{direction}}").as_slice(), dr.as_slice());
    cur = crate::text::replace_all_exec(cur.as_slice(), chars_of("{{timestamp}}").as_slice(), ts.as_slice());
    cur = crate::text::replace_all_exec(cur.as_slice(), chars_of("{{status}}").as_slice(), st.as_slice());
    cur = crate::text::replace_all_exec(cur.as_slice(), chars_of("{{sender}}").as_slice(), pn.as_slice());
    cur = crate::text::replace_all_exec(cur.as_slice(), chars_of("{{message}}").as_slice(), ct.as_slice());
    cur = crate::text::replace_all_exec(cur.as_slice(), chars_of("{{time}}").as_slice(), ts.as_slice());
    proof {
        let p = push_pairs(*message);
        assert(p.drop_first().drop_first().drop_first().drop_first().drop_first().drop_first().drop_first().drop_first().drop_first() =~= Seq::<(Seq<char>, Seq<char>)>::empty());
        reveal_with_fuel(apply_replacements, 10);
    }
    string_of(cur.as_slice())
}

/// A trimmed address without trailing slashes, or the default when empty.
pub open spec fn resolved_endpoint(input: Seq<char>, default: Seq<char>) -> Seq<char> {
    if trim(input).len() == 0 {
        default
    } else {
        strip_suffixes(trim(input), "/"@)
    }
}

/// The service address: the configured one, trimmed and without trailing
/// slashes, or the default when none is configured.
pub fn resolve_endpoint(input: &str, default: &str) -> (r: String)
    ensures
        r@ == resolved_endpoint(input@, default@),
{
    let v = chars_of(input);
    let t = trimmed(v.as_slice());
    if t.len() == 0 {
        default.to_owned()
    } else {
        let slash = chars_of("/");
        proof {
            reveal_strlit("/");
        }
        let s = strip_suffixes_exec(t.as_slice(), slash.as_slice());
        string_of(s.as_slice())
    }
}

/// The service base address (as `resolve_endpoint`).
pub fn resolve_base_url(input: &str, default: &str) -> (r: String)
    ensures
        r@ == resolved_endpoint(input@, default@),
{
    resolve_endpoint(input, default)
}

/// The request to the configured service for a title and body: PushPlus
/// JSON (with the topic when set), ServerChan and PushDeer forms, a Bark
/// form (with the group when set), ntfy JSON with the credential as bearer
/// token when set.
pub open spec fn sms_push_request(config: SmsPushConfig, title: Seq<char>, body: Seq<char>) -> (
    Seq<char>,
    BodyView,
    Option<Seq<char>>,
) {
    let credential = trim(config.credential@);
    let topic = trim(config.topic@);
    match config.provider {
        SmsPushProvider::Pushplus => (
            resolved_endpoint(config.server_url@, "https://www.pushplus.plus/send"@),
            BodyView::Json(
                seq![
                    ("token"@, JsonView::Text(credential)),
                    ("title"@, JsonView::Text(title)),
                    ("content"@, JsonView::Text(body)),
                    ("template"@, JsonView::Text("markdown"@)),
                ] + if topic.len() > 0 {
                    seq![("topic"@, JsonView::Text(topic))]
                } else {
                    seq![]
                },
            ),
            None,
        ),
        SmsPushProvider::Serverchan => (
            resolved_endpoint(config.server_url@, "https://sctapi.ftqq.com"@) + "/"@ + credential
                + ".send"@,
            BodyView::Form(seq![("title"@, title), ("text"@, title), ("desp"@, body)]),
            None,
        ),
        SmsPushProvider::Pushdeer => (
            resolved_endpoint(config.server_url@, "https://api2.pushdeer.com/message/push"@),
            BodyView::Form(
                seq![
                    ("pushkey"@, credential),
                    ("text"@, title),
                    ("desp"@, body),
                    ("type"@, "markdown"@),
                ],
            ),
            None,
        ),
        SmsPushProvider::Bark => (
            resolved_endpoint(config.server_url@, "https://api.day.app/push"@),
            BodyView::Form(
                seq![("device_key"@, credential), ("title"@, title), ("body"@, body)] + if topic.len()
                    > 0 {
                    seq![("group"@, topic)]
                } else {
                    seq![]
                },
            ),
            None,
        ),
        SmsPushProvider::Ntfy => (
            resolved_endpoint(config.server_url@, "https://ntfy.sh"@) + "/"@,
            BodyView::Json(
                seq![
                    ("topic"@, JsonView::Text(topic)),
                    ("title"@, JsonView::Text(title)),
                    ("message"@, JsonView::Text(body)),
                    ("markdown"@, JsonView::Flag(true)),
                ],
            ),
            if credential.len() > 0 {
                Some(credential)
            } else {
                None
            },
        ),
    }
}

fn cat(a: String, b: &str) -> (r: String)
    ensures
        r@ == a@ + b@,
{
    let mut v = chars_of_string(&a);
    let w = chars_of(b);
    append_chars(&mut v, w.as_slice());
    string_of(v.as_slice())
}

/// The request to the configured service (see `sms_push_request`).
pub fn build_request(config: &SmsPushConfig, title: &str, body: &str) -> (r: PushRequest)
    ensures
        request_view(r) == sms_push_request(*config, title@, body@),
{
    let credential = string_of(trimmed(chars_of_string(&config.credential).as_slice()).as_slice());
    let topic = string_of(trimmed(chars_of_string(&config.topic).as_slice()).as_slice());
    let ghost cv = credential@;
    let ghost tv = topic@;
    match config.provider {
        SmsPushProvider::Pushplus => {
            let endpoint = resolve_endpoint(config.server_url.as_str(), "https://www.pushplus.plus/send");
            let mut f: Vec<(String, JsonValue)> = Vec::new();
            f.push(("token".to_owned(), JsonValue::Text(credential)));
            f.push(("title".to_owned(), JsonValue::Text(title.to_owned())));
            f.push(("content".to_owned(), JsonValue::Text(body.to_owned())));
            f.push(("template".to_owned(), JsonValue::Text("markdown".to_owned())));
            if topic.as_str().unicode_len() > 0 {
                f.push(("topic".to_owned(), JsonValue::Text(topic)));
            }
            assert(json_fields(f@) =~= seq![
                ("token"@, JsonView::Text(cv)),
                ("title"@, JsonView::Text(title@)),
                ("content"@, JsonView::Text(body@)),
                ("template"@, JsonView::Text("markdown"@)),
            ] + if tv.len() > 0 {
                seq![("topic"@, JsonView::Text(tv))]
            } else {
                seq![]
            });
            PushRequest { endpoint, body: PushBody::Json(f), bearer: None }
        },
        SmsPushProvider::Serverchan => {
            let base = resolve_base_url(config.server_url.as_str(), "https://sctapi.ftqq.com");
            let e1 = cat(base, "/");
            let e2 = cat(e1, credential.as_str());
            let endpoint = cat(e2, ".send");
            let mut f: Vec<(String, String)> = Vec::new();
            f.push(("title".to_owned(), title.to_owned()));
            f.push(("text".to_owned(), title.to_owned()));
            f.push(("desp".to_owned(), body.to_owned()));
            assert(str_pairs(f@) =~= seq![("title"@, title@), ("text"@, title@), ("desp"@, body@)]);
            PushRequest { endpoint, body: PushBody::Form(f), bearer: None }
        },
        SmsPushProvider::Pushdeer => {
            let endpoint = resolve_endpoint(
                config.server_url.as_str(),
                "https://api2.pushdeer.com/message/push",
            );
            let mut f: Vec<(String, String)> = Vec::new();
            f.push(("pushkey".to_owned(), credential));
            f.push(("text".to_owned(), title.to_owned()));
            f.push(("desp".to_owned(), body.to_owned()));
            f.push(("type".to_owned(), "markdown".to_owned()));
            assert(str_pairs(f@) =~= seq![
                ("pushkey"@, cv),
                ("text"@, title@),
                ("desp"@, body@),
                ("type"@, "markdown"@),
            ]);
            PushRequest { endpoint, body: PushBody::Form(f), bearer: None }
        },
        SmsPushProvider::Bark => {
            let endpoint = resolve_endpoint(config.server_url.as_str(), "https://api.day.app/push");
            let mut f: Vec<(String, String)> = Vec::new();
            f.push(("device_key".to_owned(), credential));
            f.push(("title".to_owned(), title.to_owned()));
            f.push(("body".to_owned(), body.to_owned()));
            if topic.as_str().unicode_len() > 0 {
                f.push(("group".to_owned(), topic));
            }
            assert(str_pairs(f@) =~= seq![("device_key"@, cv), ("title"@, title@), ("body"@, body@)]
                + if tv.len() > 0 {
                seq![("group"@, tv)]
            } else {
                seq![]
            });
            PushRequest { endpoint, body: PushBody::Form(f), bearer: None }
        },
        SmsPushProvider::Ntfy => {
            let base = resolve_base_url(config.server_url.as_str(), "https://ntfy.sh");
            let endpoint = cat(base, "/");
            let mut f: Vec<(String, JsonValue)> = Vec::new();
            f.push(("topic".to_owned(), JsonValue::Text(topic)));
            f.push(("title".to_owned(), JsonValue::Text(title.to_owned())));
            f.push(("message".to_owned(), JsonValue::Text(body.to_owned())));
            f.push(("markdown".to_owned(), JsonValue::Flag(true)));
            assert(json_fields(f@) =~= seq![
                ("topic"@, JsonView::Text(tv)),
                ("title"@, JsonView::Text(title@)),
                ("message"@, JsonView::Text(body@)),
                ("markdown"@, JsonView::Flag(true)),
            ]);
            let bearer = if credential.as_str().unicode_len() > 0 {
                Some(credential)
            } else {
                None
            };
            PushRequest { endpoint, body: PushBody::Json(f), bearer }
        },
    }
}

/// A preview of a reply body: nothing for a blank body, else `body: ` and
/// its first 120 characters (trimmed), with `...` when it is longer.
pub open spec fn body_preview(body: Seq<char>) -> Seq<char> {
    let t = trim(body);
    if t.len() == 0 {
        ""@
    } else if t.len() > 120 {
        "body: "@ + t.subrange(0, 120) + "..."@
    } else {
        "body: "@ + t
    }
}

/// A preview of a reply body.
pub fn preview_response(body: &str) -> (r: String)
    ensures
        r@ == body_preview(body@),
{
    let b = chars_of(body);
    let t = trimmed(b.as_slice());
    if t.len() == 0 {
        return "".to_owned();
    }
    let mut out = chars_of("body: ");
    if t.len() > 120 {
        let head = sub_vec(t.as_slice(), 0, 120);
        append_chars(&mut out, head.as_slice());
        let dots = chars_of("...");
        append_chars(&mut out, dots.as_slice());
    } else {
        append_chars(&mut out, t.as_slice());
    }
    string_of(out.as_slice())
}

/// The preview in brackets after a space, or nothing for a blank body.
pub open spec fn body_suffix(body: Seq<char>) -> Seq<char> {
    if body_preview(body).len() == 0 {
        ""@
    } else {
        " ("@ + body_preview(body) + ")"@
    }
}

/// The preview in brackets after a space, or nothing.
pub fn format_body_suffix(body: &str) -> (r: String)
    ensures
        r@ == body_suffix(body@),
{
    let p = preview_response(body);
    if p.as_str().unicode_len() == 0 {
        "".to_owned()
    } else {
        let mut out = chars_of(" (");
        let pv = chars_of_string(&p);
        append_chars(&mut out, pv.as_slice());
        let c = chars_of(")");
        append_chars(&mut out, c.as_slice());
        string_of(out.as_slice())
    }
}

/// The verdict on a service reply: a failed status with the body preview;
/// else the body's code: PushPlus and Bark want 200, ServerChan and PushDeer
/// 0 or 200, ntfy is not checked.
pub fn validate_provider_response(
    provider: SmsPushProvider,
    status_ok: bool,
    status_text: &str,
    body: &str,
) -> (r: Result<(), String>)
    ensures
        !status_ok ==> (r matches Err(m) && m@ == "推送服务返回错误状态 "@ + status_text@
            + body_suffix(body@)),
        status_ok ==> match body_verdict(
            provider == SmsPushProvider::Pushplus || provider == SmsPushProvider::Bark,
            provider == SmsPushProvider::Serverchan || provider == SmsPushProvider::Pushdeer,
            body@,
        ) {
            Ok(_) => r is Ok,
            Err(m) => r matches Err(e) && e@ == m,
        },
{
    if !status_ok {
        let mut m = chars_of("推送服务返回错误状态 ");
        let s = chars_of(status_text);
        append_chars(&mut m, s.as_slice());
        let suffix = format_body_suffix(body);
        let sv = chars_of_string(&suffix);
        append_chars(&mut m, sv.as_slice());
        return Err(string_of(m.as_slice()));
    }
    body_check(
        provider == SmsPushProvider::Pushplus || provider == SmsPushProvider::Bark,
        provider == SmsPushProvider::Serverchan || provider == SmsPushProvider::Pushdeer,
        body,
    )
}

/// The message of a successful send: status, then the body preview when
/// there is one.
pub fn push_success_message(status_text: &str, body: &str) -> (r: String)
    ensures
        body_preview(body@).len() == 0 ==> r@ == "短信推送测试成功 (status: "@ + status_text@
            + ")"@,
        body_preview(body@).len() > 0 ==> r@ == "短信推送测试成功 (status: "@ + status_text@
            + ") "@ + body_preview(body@),
{
    let p = preview_response(body);
    let mut out = chars_of("短信推送测试成功 (status: ");
    let s = chars_of(status_text);
    append_chars(&mut out, s.as_slice());
    if p.as_str().unicode_len() == 0 {
        let c = chars_of(")");
        append_chars(&mut out, c.as_slice());
    } else {
        let c = chars_of(") ");
        append_chars(&mut out, c.as_slice());
        let pv = chars_of_string(&p);
        append_chars(&mut out, pv.as_slice());
    }
    string_of(out.as_slice())
}

} // verus!
