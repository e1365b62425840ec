//! Notification texts and signatures: rendering of SMS and call messages
//! from `{{variable}}` templates for each channel, JSON and URL escaping,
//! the robot signatures of DingTalk, WeCom and Feishu, and the reading of
//! push service replies.

use vstd::prelude::*;
use vstd::string::*;
use vstd::utf8::encode_utf8;
use crate::text::{
    append_chars, chars_of, chars_of_string, int_string, push_int, replace_all, replace_all_exec,
    string_of, contains, contains_exec, trim, sub_vec, find_exec, find_from, dec_string,
    strip_suffixes, strip_suffixes_exec, split_char, split_of, seqs_of, strs_view,
};
use crate::loader::{same_chars, trimmed};
use crate::config::{BarkConfig, ChannelType, EmailConfig, NotificationChannel, PushProviderConfig};
use crate::calls::CallRecord;
use base64::Engine;
use hmac::Mac;

verus! {

/// A stored SMS.
pub struct SmsMessage {
    pub id: i64,
    /// `incoming` or `outgoing`.
    pub direction: String,
    pub phone_number: String,
    pub content: String,
    pub timestamp: String,
    pub status: String,
    pub pdu: Option<String>,
}

// ---------------------------------------------------------------- escaping

/// Text made safe inside a JSON string literal: backslash, quote, line
/// feed, carriage return and tab escaped, in that order.
pub open spec fn json_escaped(s: Seq<char>) -> Seq<char> {
    replace_all(
        replace_all(
            replace_all(
                replace_all(replace_all(s, seq!['\\'], seq!['\\', '\\']), seq!['"'], seq!['\\', '"']),
                seq!['\n'],
                seq!['\\', 'n'],
            ),
            seq!['\r'],
            seq!['\\', 'r'],
        ),
        seq!['\t'],
        seq!['\\', 't'],
    )
}

/// The text escaped for a JSON string literal.
pub fn escape_json_string(s: &str) -> (r: String)
    ensures
        r@ == json_escaped(s@),
{
    let v = chars_of(s);
    let p1: Vec<char> = vec!['\\'];
    let r1: Vec<char> = vec!['\\', '\\'];
    let p2: Vec<char> = vec!['"'];
    let r2: Vec<char> = vec!['\\', '"'];
    let p3: Vec<char> = vec!['\n'];
    let r3: Vec<char> = vec!['\\', 'n'];
    let p4: Vec<char> = vec!['\r'];
    let r4: Vec<char> = vec!['\\', 'r'];
    let p5: Vec<char> = vec!['\t'];
    let r5: Vec<char> = vec!['\\', 't'];
    assert(p1@ =~= seq!['\\'] && r1@ =~= seq!['\\', '\\']);
    assert(p2@ =~= seq!['"'] && r2@ =~= seq!['\\', '"']);
    assert(p3@ =~= seq!['\n'] && r3@ =~= seq!['\\', 'n']);
    assert(p4@ =~= seq!['\r'] && r4@ =~= seq!['\\', 'r']);
    assert(p5@ =~= seq!['\t'] && r5@ =~= seq!['\\', 't']);
    let a = replace_all_exec(v.as_slice(), p1.as_slice(), r1.as_slice());
    let b = replace_all_exec(a.as_slice(), p2.as_slice(), r2.as_slice());
    let c = replace_all_exec(b.as_slice(), p3.as_slice(), r3.as_slice());
    let d = replace_all_exec(c.as_slice(), p4.as_slice(), r4.as_slice());
    let e = replace_all_exec(d.as_slice(), p5.as_slice(), r5.as_slice());
    string_of(e.as_slice())
}

/// An upper-case hex digit.
pub open spec fn upper_hex_digit(d: int) -> char {
    if d < 10 {
        ((d + 48) as u32) as char
    } else {
        ((d + 55) as u32) as char
    }
}

/// One character of a URL-encoded text: unreserved characters as they are,
/// `+`, `/` and `=` as `%2B`, `%2F`, `%3D`, anything else as `%` and two
/// hex digits of its code point's low byte.
pub open spec fn url_char(c: char) -> Seq<char> {
    if ('A' <= c <= 'Z') || ('a' <= c <= 'z') || ('0' <= c <= '9') || c == '-' || c == '_' || c
        == '.' || c == '~' {
        seq![c]
    } else if c == '+' {
        "%2B"@
    } else if c == '/' {
        "%2F"@
    } else if c == '=' {
        "%3D"@
    } else {
        let b = (c as u32) as int % 256;
        seq!['%', upper_hex_digit(b / 16), upper_hex_digit(b % 16)]
    }
}

/// A URL-encoded text.
pub open spec fn url_encoded(s: Seq<char>) -> Seq<char>
    decreases s.len(),
{
    if s.len() == 0 {
        seq![]
    } else {
        url_encoded(s.drop_last()) + url_char(s.last())
    }
}

fn upper_hex_exec(d: u32) -> (c: char)
    requires
        d < 16,
    ensures
        c == upper_hex_digit(d as int),
{
    let v: u32 = if d < 10 {
        d + 48
    } else {
        d + 55
    };
    match crate::text::char_from_u32(v) {
        Some(c) => c,
        None => '0',
    }
}

/// The text URL-encoded for a query parameter.
pub fn url_encode(s: &str) -> (r: String)
    ensures
        r@ == url_encoded(s@),
{
    let v = chars_of(s);
    let mut out: Vec<char> = Vec::new();
    let mut i: usize = 0;
    while i < v.len()
        invariant
            i <= v@.len(),
            v@ == s@,
            out@ == url_encoded(v@.subrange(0, i as int)),
        decreases v@.len() - i,
    {
        let c = v[i];
        let ghost before = out@;
        if ('A' <= c && c <= 'Z') || ('a' <= c && c <= 'z') || ('0' <= c && c <= '9') || c == '-'
            || c == '_' || c == '.' || c == '~' {
            out.push(c);
        } else if c == '+' {
            out.push('%');
            out.push('2');
            out.push('B');
        } else if c == '/' {
            out.push('%');
            out.push('2');
            out.push('F');
        } else if c == '=' {
            out.push('%');
            out.push('3');
            out.push('D');
        } else {
            let b = (c as u32) % 256;
            out.push('%');
            out.push(upper_hex_exec(b / 16));
            out.push(upper_hex_exec(b % 16));
        }
        proof {
            reveal_strlit("%2B");
            reveal_strlit("%2F");
            reveal_strlit("%3D");
            assert(v@.subrange(0, i + 1).drop_last() =~= v@.subrange(0, i as int));
            assert(out@ =~= before + url_char(c));
        }
        i = i + 1;
    }
    assert(v@.subrange(0, v@.len() as int) =~= v@);
    string_of(out.as_slice())
}

// ---------------------------------------------------------------- templates

/// The template with each (placeholder, value) pair replaced in turn.
pub open spec fn apply_replacements(t: Seq<char>, pairs: Seq<(Seq<char>, Seq<char>)>) -> Seq<char>
    decreases pairs.len(),
{
    if pairs.len() == 0 {
        t
    } else {
        apply_replacements(replace_all(t, pairs[0].0, pairs[0].1), pairs.drop_first())
    }
}

/// The pairs as texts.
pub open spec fn pairs_view(v: Seq<(Vec<char>, Vec<char>)>) -> Seq<(Seq<char>, Seq<char>)> {
    v.map_values(|p: (Vec<char>, Vec<char>)| (p.0@, p.1@))
}

fn apply_exec(t: Vec<char>, pairs: &Vec<(Vec<char>, Vec<char>)>) -> (r: Vec<char>)
    ensures
        r@ == apply_replacements(t@, pairs_view(pairs@)),
{
    let mut cur = t;
    let mut i: usize = 0;
    let ghost all = pairs_view(pairs@);
    assert(all.subrange(0, all.len() as int) =~= all);
    while i < pairs.len()
        invariant
            i <= pairs@.len(),
            all == pairs_view(pairs@),
            apply_replacements(t@, all) == apply_replacements(
                cur@,
                all.subrange(i as int, all.len() as int),
            ),
        decreases pairs@.len() - i,
    {
        let ghost rest = all.subrange(i as int, all.len() as int);
        assert(rest.drop_first() =~= all.subrange(i + 1, all.len() as int));
        let next = replace_all_exec(cur.as_slice(), pairs[i].0.as_slice(), pairs[i].1.as_slice());
        cur = next;
        i = i + 1;
    }
    assert(all.subrange(i as int, all.len() as int) =~= Seq::<(Seq<char>, Seq<char>)>::empty());
    cur
}

/// Chinese direction of an SMS: 来电 for incoming, 去电 for outgoing, else
/// the direction itself.
pub open spec fn sms_direction_cn(direction: Seq<char>) -> Seq<char> {
    if direction == "incoming"@ {
        "来电"@
    } else if direction == "outgoing"@ {
        "去电"@
    } else {
        direction
    }
}

/// The replacements of an SMS template: device label (also as the older
/// `self_number`), local time, then the message fields; `content` and
/// `message` JSON-escaped when asked.
pub open spec fn sms_pairs(
    sms: SmsMessage,
    device_label: Seq<char>,
    local_time: Seq<char>,
    json_escape: bool,
) -> Seq<(Seq<char>, Seq<char>)> {
    let content = if json_escape {
        json_escaped(sms.content@)
    } else {
        sms.content@
    };
    seq![
        ("{{device_name}}"@, device_label),
        ("{{self_number}}"@, device_label),
        ("{{local_time}}"@, local_time),
        ("{{phone_number}}"@, sms.phone_number@),
        ("{{content}}"@, content),
        ("{{timestamp}}"@, sms.timestamp@),
        ("{{direction}}"@, sms.direction@),
        ("{{direction_cn}}"@, sms_direction_cn(sms.direction@)),
        ("{{status}}"@, sms.status@),
        ("{{id}}"@, int_string(sms.id as int)),
        ("{{sender}}"@, sms.phone_number@),
        ("{{message}}"@, content),
        ("{{time}}"@, sms.timestamp@),
    ]
}

/// The replacements of a call template: device label, local time, then the
/// call fields (direction in Chinese 来电 for incoming else 去电, answered as
/// 是/否 and as `true`/`false`).
pub open spec fn call_pairs(call: CallRecord, device_label: Seq<char>, local_time: Seq<char>) -> Seq<
    (Seq<char>, Seq<char>),
> {
    seq![
        ("{{device_name}}"@, device_label),
        ("{{self_number}}"@, device_label),
        ("{{local_time}}"@, local_time),
        ("{{phone_number}}"@, call.phone_number@),
        ("{{direction}}"@, call.direction@),
        (
            "{{direction_cn}}"@,
            if call.direction@ == "incoming"@ {
                "来电"@
            } else {
                "去电"@
            },
        ),
        ("{{duration}}"@, int_string(call.duration as int)),
        ("{{start_time}}"@, call.start_time@),
        (
            "{{end_time}}"@,
            match call.end_time {
                Some(e) => e@,
                None => ""@,
            },
        ),
        (
            "{{answered}}"@,
            if call.answered {
                "是"@
            } else {
                "否"@
            },
        ),
        (
            "{{answered_bool}}"@,
            if call.answered {
                "true"@
            } else {
                "false"@
            },
        ),
        ("{{id}}"@, int_string(call.id as int)),
        ("{{caller}}"@, call.phone_number@),
        ("{{time}}"@, call.start_time@),
    ]
}

/// The rendered template: the call's replacements when a call is given,
/// else the SMS's.
pub open spec fn rendered(
    template: Seq<char>,
    sms: SmsMessage,
    call: Option<CallRecord>,
    device_label: Seq<char>,
    local_time: Seq<char>,
    json_escape: bool,
) -> Seq<char> {
    match call {
        Some(c) => apply_replacements(template, call_pairs(c, device_label, local_time)),
        None => apply_replacements(template, sms_pairs(sms, device_label, local_time, json_escape)),
    }
}

fn pair(k: &str, v: Vec<char>) -> (r: (Vec<char>, Vec<char>))
    ensures
        r.0@ == k@,
        r.1@ == v@,
{
    (chars_of(k), v)
}

fn int_chars(n: i64) -> (r: Vec<char>)
    ensures
        r@ == int_string(n as int),
{
    let mut v: Vec<char> = Vec::new();
    push_int(&mut v, n);
    v
}

fn text_is(s: &String, lit: &str) -> (r: bool)
    ensures
        r == (s@ == lit@),
{
    let a = chars_of_string(s);
    let b = chars_of(lit);
    same_chars(a.as_slice(), b.as_slice())
}

/// Renders a `{{variable}}` template for an SMS, or for a call when one is
/// given (see `sms_pairs` and `call_pairs`).
pub fn render_template(
    template: &str,
    sms: &SmsMessage,
    call: Option<&CallRecord>,
    device_label: &str,
    local_time: &str,
    json_escape: bool,
) -> (r: String)
    ensures
        r@ == rendered(
            template@,
            *sms,
            match call {
                Some(c) => Some(*c),
                None => None,
            },
            device_label@,
            local_time@,
            json_escape,
        ),
{
    let dev = chars_of(device_label);
    let local = chars_of(local_time);
    let mut pairs: Vec<(Vec<char>, Vec<char>)> = Vec::new();
    pairs.push(pair("{{device_name}}", dev.clone()));
    pairs.push(pair("{{self_number}}", dev.clone()));
    pairs.push(pair("{{local_time}}", local));
    match call {
        Some(c) => {
            pairs.push(pair("{{phone_number}}", chars_of_string(&c.phone_number)));
            pairs.push(pair("{{direction}}", chars_of_string(&c.direction)));
            let dc = if text_is(&c.direction, "incoming") {
                chars_of("来电")
            } else {
                chars_of("去电")
            };
            pairs.push(pair("{{direction_cn}}", dc));
            pairs.push(pair("{{duration}}", int_chars(c.duration)));
            pairs.push(pair("{{start_time}}", chars_of_string(&c.start_time)));
            let end = match &c.end_time {
                Some(e) => chars_of_string(e),
                None => chars_of(""),
            };
            pairs.push(pair("{{end_time}}", end));
            let ans = if c.answered {
                chars_of("是")
            } else {
                chars_of("否")
            };
            pairs.push(pair("{{answered}}", ans));
            let ab = if c.answered {
                chars_of("true")
            } else {
                chars_of("false")
            };
            pairs.push(pair("{{answered_bool}}", ab));
            pairs.push(pair("{{id}}", int_chars(c.id)));
            pairs.push(pair("{{caller}}", chars_of_string(&c.phone_number)));
            pairs.push(pair("{{time}}", chars_of_string(&c.start_time)));
            assert(pairs_view(pairs@) =~= call_pairs(*c, device_label@, local_time@));
        },
        None => {
            let content = if json_escape {
                let e = escape_json_string(sms.content.as_str());
                chars_of_string(&e)
            } else {
                chars_of_string(&sms.content)
            };
            pairs.push(pair("{{phone_number}}", chars_of_string(&sms.phone_number)));
            pairs.push(pair("{{content}}", content.clone()));
            pairs.push(pair("{{timestamp}}", chars_of_string(&sms.timestamp)));
            pairs.push(pair("{{direction}}", chars_of_string(&sms.direction)));
            let dcn = if text_is(&sms.direction, "incoming") {
                chars_of("来电")
            } else if text_is(&sms.direction, "outgoing") {
                chars_of("去电")
            } else {
                chars_of_string(&sms.direction)
            };
            pairs.push(pair("{{direction_cn}}", dcn));
            pairs.push(pair("{{status}}", chars_of_string(&sms.status)));
            pairs.push(pair("{{id}}", int_chars(sms.id)));
            pairs.push(pair("{{sender}}", chars_of_string(&sms.phone_number)));
            pairs.push(pair("{{message}}", content));
            pairs.push(pair("{{time}}", chars_of_string(&sms.timestamp)));
            assert(pairs_view(pairs@) =~= sms_pairs(*sms, device_label@, local_time@, json_escape));
        },
    }
    let t = chars_of(template);
    let r = apply_exec(t, &pairs);
    string_of(r.as_slice())
}

/// A `{{name}}` placeholder: two opening braces, a name without braces, two
/// closing braces.
pub open spec fn placeholder_form(s: Seq<char>) -> bool {
    &&& s.len() >= 5
    &&& s[0] == '{' && s[1] == '{'
    &&& s[s.len() - 2] == '}' && s[s.len() - 1] == '}'
    &&& forall|j: int| 2 <= j < s.len() - 2 ==> #[trigger] s[j] != '{' && s[j] != '}'
}

/// The text holds no opening brace, so no placeholder can start in it.
pub open spec fn brace_free(s: Seq<char>) -> bool {
    forall|j: int| 0 <= j < s.len() ==> #[trigger] s[j] != '{'
}

proof fn lemma_replace_absent(s: Seq<char>, pat: Seq<char>, rep: Seq<char>)
    requires
        !contains(s, pat),
    ensures
        replace_all(s, pat, rep) == s,
    decreases s.len(),
{
    if pat.len() == 0 || s.len() < pat.len() {
    } else {
        if s.subrange(0, pat.len() as int) == pat {
            assert(crate::text::occurs_at(s, pat, 0));
        }
        let t = s.drop_first();
        assert(!contains(t, pat)) by {
            if contains(t, pat) {
                let i = choose|i: int| crate::text::occurs_at(t, pat, i);
                assert(t.subrange(i, i + pat.len()) =~= s.subrange(i + 1, i + 1 + pat.len()));
                assert(crate::text::occurs_at(s, pat, i + 1));
            }
        }
        lemma_replace_absent(t, pat, rep);
        assert(seq![s[0]] + t =~= s);
    }
}

proof fn lemma_brace_free_absent(s: Seq<char>, pat: Seq<char>)
    requires
        brace_free(s),
        pat.len() > 0,
        pat[0] == '{',
    ensures
        !contains(s, pat),
{
    if contains(s, pat) {
        let i = choose|i: int| crate::text::occurs_at(s, pat, i);
        assert(s.subrange(i, i + pat.len())[0] == s[i]);
    }
}

proof fn lemma_placeholder_absent(t: Seq<char>, k: Seq<char>)
    requires
        placeholder_form(t),
        placeholder_form(k),
        t != k,
    ensures
        !contains(t, k),
{
    if contains(t, k) {
        let i = choose|i: int| crate::text::occurs_at(t, k, i);
        let w = t.subrange(i, i + k.len());
        assert(w[0] == t[i] && w[1] == t[i + 1]);
        if i >= 1 {
            if i + 1 < t.len() - 2 {
                assert(t[i + 1] != '{');
            }
        }
        assert(i == 0);
        let m = k.len() as int;
        assert(w[m - 2] == t[m - 2]);
        if m < t.len() {
            assert(t[m - 2] != '}');
        }
        assert(t =~= k);
    }
}

proof fn lemma_replace_whole(t: Seq<char>, rep: Seq<char>)
    requires
        t.len() > 0,
    ensures
        replace_all(t, t, rep) == rep,
{
    assert(t.subrange(0, t.len() as int) =~= t);
    let e = t.subrange(t.len() as int, t.len() as int);
    assert(replace_all(e, t, rep) == e);
    assert(rep + e =~= rep);
}

proof fn lemma_apply_unchanged(v: Seq<char>, pairs: Seq<(Seq<char>, Seq<char>)>)
    requires
        brace_free(v),
        forall|j: int| 0 <= j < pairs.len() ==> placeholder_form(#[trigger] pairs[j].0),
    ensures
        apply_replacements(v, pairs) == v,
    decreases pairs.len(),
{
    if pairs.len() > 0 {
        assert(placeholder_form(pairs[0].0));
        lemma_brace_free_absent(v, pairs[0].0);
        lemma_replace_absent(v, pairs[0].0, pairs[0].1);
        let rest = pairs.drop_first();
        assert forall|j: int| 0 <= j < rest.len() implies placeholder_form(#[trigger] rest[j].0) by {
            assert(rest[j] == pairs[j + 1]);
        }
        lemma_apply_unchanged(v, rest);
    }
}

/// A template made of one placeholder renders to the value of that
/// placeholder's first pair, when the value holds no brace.
proof fn lemma_apply_placeholder(t: Seq<char>, pairs: Seq<(Seq<char>, Seq<char>)>, k: int)
    requires
        placeholder_form(t),
        forall|j: int| 0 <= j < pairs.len() ==> placeholder_form(#[trigger] pairs[j].0),
        0 <= k < pairs.len(),
        pairs[k].0 == t,
        forall|j: int| 0 <= j < k ==> #[trigger] pairs[j].0 != t,
        brace_free(pairs[k].1),
    ensures
        apply_replacements(t, pairs) == pairs[k].1,
    decreases pairs.len(),
{
    let rest = pairs.drop_first();
    assert forall|j: int| 0 <= j < rest.len() implies placeholder_form(#[trigger] rest[j].0) by {
        assert(rest[j] == pairs[j + 1]);
    }
    if k == 0 {
        lemma_replace_whole(t, pairs[0].1);
        lemma_apply_unchanged(pairs[0].1, rest);
    } else {
        assert(pairs[0].0 != t);
        assert(placeholder_form(pairs[0].0));
        lemma_placeholder_absent(t, pairs[0].0);
        lemma_replace_absent(t, pairs[0].0, pairs[0].1);
        assert forall|j: int| 0 <= j < k - 1 implies #[trigger] rest[j].0 != t by {
            assert(rest[j] == pairs[j + 1]);
        }
        assert(rest[k - 1] == pairs[k]);
        lemma_apply_placeholder(t, rest, k - 1);
    }
}

proof fn lemma_sms_keys(sms: SmsMessage, device_label: Seq<char>, local_time: Seq<char>, json_escape: bool)
    ensures
        forall|j: int|
            0 <= j < sms_pairs(sms, device_label, local_time, json_escape).len() ==> placeholder_form(
                #[trigger] sms_pairs(sms, device_label, local_time, json_escape)[j].0,
            ),
        sms_pairs(sms, device_label, local_time, json_escape).len() == 13,
        forall|i: int, j: int|
            0 <= i < j < 13 ==> #[trigger] sms_pairs(sms, device_label, local_time, json_escape)[i].0
                != #[trigger] sms_pairs(sms, device_label, local_time, json_escape)[j].0,
{
    reveal_strlit("{{device_name}}");
    reveal_strlit("{{self_number}}");
    reveal_strlit("{{local_time}}");
    reveal_strlit("{{phone_number}}");
    reveal_strlit("{{content}}");
    reveal_strlit("{{timestamp}}");
    reveal_strlit("{{direction}}");
    reveal_strlit("{{direction_cn}}");
    reveal_strlit("{{status}}");
    reveal_strlit("{{id}}");
    reveal_strlit("{{sender}}");
    reveal_strlit("{{message}}");
    reveal_strlit("{{time}}");
    let ps = sms_pairs(sms, device_label, local_time, json_escape);
    assert forall|j: int| 0 <= j < ps.len() implies placeholder_form(#[trigger] ps[j].0) by {
        let k = ps[j].0;
        assert forall|x: int| 2 <= x < k.len() - 2 implies #[trigger] k[x] != '{' && k[x] != '}' by {}
    }
    assert forall|i: int, j: int| 0 <= i < j < 13 implies #[trigger] ps[i].0 != #[trigger] ps[j].0 by {
        if ps[i].0 == ps[j].0 {
            assert(ps[i].0.len() == ps[j].0.len());
            assert(ps[i].0[2] == ps[j].0[2]);
            assert(ps[i].0[3] == ps[j].0[3]);
        }
    }
}

proof fn lemma_digits_brace_free(n: nat)
    ensures
        brace_free(dec_string(n)),
    decreases n,
{
    if n >= 10 {
        lemma_digits_brace_free(n / 10);
        let d = dec_string(n);
        assert forall|j: int| 0 <= j < d.len() implies #[trigger] d[j] != '{' by {
            if j < dec_string(n / 10).len() {
                assert(d[j] == dec_string(n / 10)[j]);
            }
        }
    }
}

proof fn lemma_int_brace_free(n: int)
    ensures
        brace_free(int_string(n)),
{
    if n < 0 {
        lemma_digits_brace_free((-n) as nat);
        let d = int_string(n);
        assert forall|j: int| 0 <= j < d.len() implies #[trigger] d[j] != '{' by {
            if j > 0 {
                assert(d[j] == dec_string((-n) as nat)[j - 1]);
            }
        }
    } else {
        lemma_digits_brace_free(n as nat);
    }
}

/// In an SMS template each placeholder stands for its own field: a template
/// that is just that placeholder renders to the field. (A value holding `{`
/// could itself spell a later placeholder and be replaced again, so the
/// values here hold none.) The direction in Chinese is 来电 for incoming and
/// 去电 for outgoing messages, the direction itself otherwise.
pub proof fn lemma_sms_template_fields(
    sms: SmsMessage,
    device_label: Seq<char>,
    local_time: Seq<char>,
    json_escape: bool,
)
    ensures
        brace_free(device_label) ==> rendered("{{device_name}}"@, sms, None, device_label, local_time, json_escape) == device_label,
        brace_free(device_label) ==> rendered("{{self_number}}"@, sms, None, device_label, local_time, json_escape) == device_label,
        brace_free(local_time) ==> rendered("{{local_time}}"@, sms, None, device_label, local_time, json_escape) == local_time,
        brace_free(sms.phone_number@) ==> rendered("{{phone_number}}"@, sms, None, device_label, local_time, json_escape) == sms.phone_number@,
        brace_free(sms.phone_number@) ==> rendered("{{sender}}"@, sms, None, device_label, local_time, json_escape) == sms.phone_number@,
        !json_escape && brace_free(sms.content@) ==> rendered("{{content}}"@, sms, None, device_label, local_time, json_escape) == sms.content@,
        !json_escape && brace_free(sms.content@) ==> rendered("{{message}}"@, sms, None, device_label, local_time, json_escape) == sms.content@,
        json_escape && brace_free(json_escaped(sms.content@)) ==> rendered("{{content}}"@, sms, None, device_label, local_time, json_escape) == json_escaped(sms.content@),
        json_escape && brace_free(json_escaped(sms.content@)) ==> rendered("{{message}}"@, sms, None, device_label, local_time, json_escape) == json_escaped(sms.content@),
        brace_free(sms.timestamp@) ==> rendered("{{timestamp}}"@, sms, None, device_label, local_time, json_escape) == sms.timestamp@,
        brace_free(sms.timestamp@) ==> rendered("{{time}}"@, sms, None, device_label, local_time, json_escape) == sms.timestamp@,
        brace_free(sms.direction@) ==> rendered("{{direction}}"@, sms, None, device_label, local_time, json_escape) == sms.direction@,
        sms.direction@ == "incoming"@ ==> rendered("{{direction_cn}}"@, sms, None, device_label, local_time, json_escape) == "来电"@,
        sms.direction@ == "outgoing"@ ==> rendered("{{direction_cn}}"@, sms, None, device_label, local_time, json_escape) == "去电"@,
        sms.direction@ != "incoming"@ && sms.direction@ != "outgoing"@ && brace_free(sms.direction@)
            ==> rendered("{{direction_cn}}"@, sms, None, device_label, local_time, json_escape) == sms.direction@,
        brace_free(sms.status@) ==> rendered("{{status}}"@, sms, None, device_label, local_time, json_escape) == sms.status@,
        rendered("{{id}}"@, sms, None, device_label, local_time, json_escape) == int_string(sms.id as int),
{
    let ps = sms_pairs(sms, device_label, local_time, json_escape);
    lemma_sms_keys(sms, device_label, local_time, json_escape);
    reveal_strlit("来电");
    reveal_strlit("去电");
    reveal_strlit("incoming");
    reveal_strlit("outgoing");
    assert("outgoing"@ != "incoming"@) by {
        assert("outgoing"@[0] != "incoming"@[0]);
    }
    assert(brace_free("来电"@));
    assert(brace_free("去电"@));
    lemma_int_brace_free(sms.id as int);
    if brace_free(device_label) {
        lemma_apply_placeholder(ps[0].0, ps, 0);
        lemma_apply_placeholder(ps[1].0, ps, 1);
    }
    if brace_free(local_time) {
        lemma_apply_placeholder(ps[2].0, ps, 2);
    }
    if brace_free(sms.phone_number@) {
        lemma_apply_placeholder(ps[3].0, ps, 3);
        lemma_apply_placeholder(ps[10].0, ps, 10);
    }
    if brace_free(ps[4].1) {
        lemma_apply_placeholder(ps[4].0, ps, 4);
        lemma_apply_placeholder(ps[11].0, ps, 11);
    }
    if brace_free(sms.timestamp@) {
        lemma_apply_placeholder(ps[5].0, ps, 5);
        lemma_apply_placeholder(ps[12].0, ps, 12);
    }
    if brace_free(sms.direction@) {
        lemma_apply_placeholder(ps[6].0, ps, 6);
    }
    if brace_free(ps[7].1) {
        lemma_apply_placeholder(ps[7].0, ps, 7);
    }
    if brace_free(sms.status@) {
        lemma_apply_placeholder(ps[8].0, ps, 8);
    }
    lemma_apply_placeholder(ps[9].0, ps, 9);
}

proof fn lemma_call_keys(call: CallRecord, device_label: Seq<char>, local_time: Seq<char>)
    ensures
        forall|j: int|
            0 <= j < call_pairs(call, device_label, local_time).len() ==> placeholder_form(
                #[trigger] call_pairs(call, device_label, local_time)[j].0,
            ),
        call_pairs(call, device_label, local_time).len() == 14,
        forall|i: int, j: int|
            0 <= i < j < 14 ==> #[trigger] call_pairs(call, device_label, local_time)[i].0
                != #[trigger] call_pairs(call, device_label, local_time)[j].0,
{
    reveal_strlit("{{device_name}}");
    reveal_strlit("{{self_number}}");
    reveal_strlit("{{local_time}}");
    reveal_strlit("{{phone_number}}");
    reveal_strlit("{{direction}}");
    reveal_strlit("{{direction_cn}}");
    reveal_strlit("{{duration}}");
    reveal_strlit("{{start_time}}");
    reveal_strlit("{{end_time}}");
    reveal_strlit("{{answered}}");
    reveal_strlit("{{answered_bool}}");
    reveal_strlit("{{id}}");
    reveal_strlit("{{caller}}");
    reveal_strlit("{{time}}");
    let ps = call_pairs(call, device_label, local_time);
    assert forall|j: int| 0 <= j < ps.len() implies placeholder_form(#[trigger] ps[j].0) by {
        let k = ps[j].0;
        assert forall|x: int| 2 <= x < k.len() - 2 implies #[trigger] k[x] != '{' && k[x] != '}' by {}
    }
    assert forall|i: int, j: int| 0 <= i < j < 14 implies #[trigger] ps[i].0 != #[trigger] ps[j].0 by {
        if ps[i].0 == ps[j].0 {
            assert(ps[i].0.len() == ps[j].0.len());
            assert(ps[i].0[2] == ps[j].0[2]);
            assert(ps[i].0[3] == ps[j].0[3]);
        }
    }
}

/// In a call template each placeholder stands for its own field: a template
/// that is just that placeholder renders to the field (values holding no
/// `{`, as for SMS templates). The direction in Chinese is 来电 for incoming
/// calls and 去电 for any other; the answered flag reads 是/否 and
/// `true`/`false`; a missing end time renders as nothing.
pub proof fn lemma_call_template_fields(
    sms: SmsMessage,
    call: CallRecord,
    device_label: Seq<char>,
    local_time: Seq<char>,
    json_escape: bool,
)
    ensures
        brace_free(device_label) ==> rendered("{{device_name}}"@, sms, Some(call), device_label, local_time, json_escape) == device_label,
        brace_free(device_label) ==> rendered("{{self_number}}"@, sms, Some(call), device_label, local_time, json_escape) == device_label,
        brace_free(local_time) ==> rendered("{{local_time}}"@, sms, Some(call), device_label, local_time, json_escape) == local_time,
        brace_free(call.phone_number@) ==> rendered("{{phone_number}}"@, sms, Some(call), device_label, local_time, json_escape) == call.phone_number@,
        brace_free(call.phone_number@) ==> rendered("{{caller}}"@, sms, Some(call), device_label, local_time, json_escape) == call.phone_number@,
        brace_free(call.direction@) ==> rendered("{{direction}}"@, sms, Some(call), device_label, local_time, json_escape) == call.direction@,
        call.direction@ == "incoming"@ ==> rendered("{{direction_cn}}"@, sms, Some(call), device_label, local_time, json_escape) == "来电"@,
        call.direction@ != "incoming"@ ==> rendered("{{direction_cn}}"@, sms, Some(call), device_label, local_time, json_escape) == "去电"@,
        rendered("{{duration}}"@, sms, Some(call), device_label, local_time, json_escape) == int_string(call.duration as int),
        brace_free(call.start_time@) ==> rendered("{{start_time}}"@, sms, Some(call), device_label, local_time, json_escape) == call.start_time@,
        brace_free(call.start_time@) ==> rendered("{{time}}"@, sms, Some(call), device_label, local_time, json_escape) == call.start_time@,
        call.end_time is Some && brace_free(call.end_time->0@) ==> rendered("{{end_time}}"@, sms, Some(call), device_label, local_time, json_escape) == call.end_time->0@,
        call.end_time is None ==> rendered("{{end_time}}"@, sms, Some(call), device_label, local_time, json_escape).len() == 0,
        rendered("{{answered}}"@, sms, Some(call), device_label, local_time, json_escape) == (if call.answered { "是"@ } else { "否"@ }),
        rendered("{{answered_bool}}"@, sms, Some(call), device_label, local_time, json_escape) == (if call.answered { "true"@ } else { "false"@ }),
        rendered("{{id}}"@, sms, Some(call), device_label, local_time, json_escape) == int_string(call.id as int),
{
    let ps = call_pairs(call, device_label, local_time);
    lemma_call_keys(call, device_label, local_time);
    reveal_strlit("来电");
    reveal_strlit("去电");
    reveal_strlit("是");
    reveal_strlit("否");
    reveal_strlit("true");
    reveal_strlit("false");
    reveal_strlit("");
    assert(brace_free("来电"@));
    assert(brace_free("去电"@));
    assert(brace_free("是"@));
    assert(brace_free("否"@));
    assert(brace_free("true"@));
    assert(brace_free("false"@));
    assert(brace_free(""@));
    lemma_int_brace_free(call.id as int);
    lemma_int_brace_free(call.duration as int);
    if brace_free(device_label) {
        lemma_apply_placeholder(ps[0].0, ps, 0);
        lemma_apply_placeholder(ps[1].0, ps, 1);
    }
    if brace_free(local_time) {
        lemma_apply_placeholder(ps[2].0, ps, 2);
    }
    if brace_free(call.phone_number@) {
        lemma_apply_placeholder(ps[3].0, ps, 3);
        lemma_apply_placeholder(ps[12].0, ps, 12);
    }
    if brace_free(call.direction@) {
        lemma_apply_placeholder(ps[4].0, ps, 4);
    }
    lemma_apply_placeholder(ps[5].0, ps, 5);
    lemma_apply_placeholder(ps[6].0, ps, 6);
    if brace_free(call.start_time@) {
        lemma_apply_placeholder(ps[7].0, ps, 7);
        lemma_apply_placeholder(ps[13].0, ps, 13);
    }
    if brace_free(ps[8].1) {
        lemma_apply_placeholder(ps[8].0, ps, 8);
    }
    lemma_apply_placeholder(ps[9].0, ps, 9);
    lemma_apply_placeholder(ps[10].0, ps, 10);
    lemma_apply_placeholder(ps[11].0, ps, 11);
}

// ---------------------------------------------------------------- channel texts

/// Default title of SMS on the light channels.
pub open spec fn default_sms_title() -> Seq<char> {
    "📱短信"@
}

/// Default body of SMS on the light channels.
pub open spec fn default_sms_body() -> Seq<char> {
    "来自：{{phone_number}}\n内容：{{content}}\n\n本机号码：{{device_name}}\n时间：{{local_time}}"@
}

/// Default title of calls on the light channels.
pub open spec fn default_call_title() -> Seq<char> {
    "📞来电提醒"@
}

/// Default body of calls on the light channels.
pub open spec fn default_call_body() -> Seq<char> {
    "来电号码：{{phone_number}}\n时长：{{duration}}秒\n\n本机号码：{{device_name}}\n时间：{{local_time}}"@
}

/// Default JSON payload template of a robot channel (DingTalk, Feishu,
/// WeCom), for SMS or for calls.
pub open spec fn default_robot_template(channel: ChannelType, call: bool) -> Seq<char> {
    match (channel, call) {
        (ChannelType::Dingtalk, false) => "{\"msgtype\":\"text\",\"text\":{\"content\":\"📱短信\\n来自：{{phone_number}}\\n内容：{{content}}\\n\\n本机号码：{{device_name}}\\n时间：{{local_time}}\"}}"@,
        (ChannelType::Feishu, false) => "{\"msg_type\":\"text\",\"content\":{\"text\":\"📱短信\\n来自：{{phone_number}}\\n内容：{{content}}\\n\\n本机号码：{{device_name}}\\n时间：{{local_time}}\"}}"@,
        (ChannelType::Wecom, false) => "{\"msgtype\":\"text\",\"content\":{\"content\":\"📱短信\\n来自：{{phone_number}}\\n内容：{{content}}\\n\\n本机号码：{{device_name}}\\n时间：{{local_time}}\"}}"@,
        (ChannelType::Dingtalk, true) => "{\"msgtype\":\"text\",\"text\":{\"content\":\"📞来电提醒\\n来电号码：{{phone_number}}\\n时长：{{duration}}秒\\n\\n本机号码：{{device_name}}\\n时间：{{local_time}}\"}}"@,
        (ChannelType::Feishu, true) => "{\"msg_type\":\"text\",\"content\":{\"text\":\"📞来电提醒\\n来电号码：{{phone_number}}\\n时长：{{duration}}秒\\n\\n本机号码：{{device_name}}\\n时间：{{local_time}}\"}}"@,
        _ => "{\"msgtype\":\"text\",\"content\":{\"content\":\"📞来电提醒\\n来电号码：{{phone_number}}\\n时长：{{duration}}秒\\n\\n本机号码：{{device_name}}\\n时间：{{local_time}}\"}}"@,
    }
}

fn default_robot_template_exec(channel: ChannelType, call: bool) -> (r: &'static str)
    ensures
        r@ == default_robot_template(channel, call),
{
    match (channel, call) {
        (ChannelType::Dingtalk, false) => "{\"msgtype\":\"text\",\"text\":{\"content\":\"📱短信\\n来自：{{phone_number}}\\n内容：{{content}}\\n\\n本机号码：{{device_name}}\\n时间：{{local_time}}\"}}",
        (ChannelType::Feishu, false) => "{\"msg_type\":\"text\",\"content\":{\"text\":\"📱短信\\n来自：{{phone_number}}\\n内容：{{content}}\\n\\n本机号码：{{device_name}}\\n时间：{{local_time}}\"}}",
        (ChannelType::Wecom, false) => "{\"msgtype\":\"text\",\"content\":{\"content\":\"📱短信\\n来自：{{phone_number}}\\n内容：{{content}}\\n\\n本机号码：{{device_name}}\\n时间：{{local_time}}\"}}",
        (ChannelType::Dingtalk, true) => "{\"msgtype\":\"text\",\"text\":{\"content\":\"📞来电提醒\\n来电号码：{{phone_number}}\\n时长：{{duration}}秒\\n\\n本机号码：{{device_name}}\\n时间：{{local_time}}\"}}",
        (ChannelType::Feishu, true) => "{\"msg_type\":\"text\",\"content\":{\"text\":\"📞来电提醒\\n来电号码：{{phone_number}}\\n时长：{{duration}}秒\\n\\n本机号码：{{device_name}}\\n时间：{{local_time}}\"}}",
        _ => "{\"msgtype\":\"text\",\"content\":{\"content\":\"📞来电提醒\\n来电号码：{{phone_number}}\\n时长：{{duration}}秒\\n\\n本机号码：{{device_name}}\\n时间：{{local_time}}\"}}",
    }
}

/// Beijing time (`%Y-%m-%d %H:%M:%S`) of an RFC 3339 time, if it parses.
pub uninterp spec fn beijing_time_of(utc: Seq<char>) -> Option<Seq<char>>;

/// chrono `DateTime::parse_from_rfc3339`, then the time at UTC+8 formatted
/// `%Y-%m-%d %H:%M:%S`; `None` when the text does not parse. Which texts
/// parse and what they give is only named here.
#[verifier::external_body]
fn rfc3339_to_beijing(utc: &str) -> (r: Option<String>)
    ensures
        match r {
            Some(t) => beijing_time_of(utc@) == Some(t@),
            None => beijing_time_of(utc@) is None,
        },
{
    let beijing = chrono::FixedOffset::east_opt(8 * 3600)?;
    chrono::DateTime::parse_from_rfc3339(utc).ok().map(
        |dt| dt.with_timezone(&beijing).format("%Y-%m-%d %H:%M:%S").to_string(),
    )
}

/// A stored UTC time shown as Beijing time, or as it is when it does not parse.
pub open spec fn local_time_text(utc: Seq<char>) -> Seq<char> {
    match beijing_time_of(utc) {
        Some(t) => t,
        None => utc,
    }
}

/// A stored UTC time shown as Beijing time, or as it is when it does not parse.
pub fn utc_to_local(utc: &str) -> (r: String)
    ensures
        r@ == local_time_text(utc@),
{
    match rfc3339_to_beijing(utc) {
        Some(t) => t,
        None => utc.to_owned(),
    }
}

/// The configured template, or the default when it is empty.
pub open spec fn or_default(t: Seq<char>, d: Seq<char>) -> Seq<char> {
    if t.len() == 0 {
        d
    } else {
        t
    }
}

/// The template of a robot channel.
pub open spec fn robot_template(config: NotificationChannel, call: bool) -> Seq<char> {
    match config.channel {
        ChannelType::Dingtalk => or_default(config.dingtalk.template@, default_robot_template(ChannelType::Dingtalk, call)),
        ChannelType::Feishu => or_default(config.feishu.template@, default_robot_template(ChannelType::Feishu, call)),
        _ => or_default(config.wecom.template@, default_robot_template(ChannelType::Wecom, call)),
    }
}

/// The channel takes a whole JSON payload (DingTalk, Feishu, WeCom).
pub open spec fn is_robot(c: ChannelType) -> bool {
    c == ChannelType::Dingtalk || c == ChannelType::Feishu || c == ChannelType::Wecom
}

/// The payload of an SMS for the configured channel: robot channels render
/// their JSON template with the content escaped; the other channels render
/// title and body templates and join them with a blank line; no channel
/// gives an empty payload.
pub open spec fn sms_payload(config: NotificationChannel, sms: SmsMessage, device_label: Seq<char>) -> Seq<char> {
    let local = local_time_text(sms.timestamp@);
    if config.channel == ChannelType::Disabled {
        ""@
    } else if is_robot(config.channel) {
        rendered(robot_template(config, false), sms, None, device_label, local, true)
    } else {
        rendered(or_default(config.sms_title_template@, default_sms_title()), sms, None, device_label, local, false)
            + "\n\n"@ + rendered(or_default(config.sms_body_template@, default_sms_body()), sms, None, device_label, local, false)
    }
}

/// The payload of a call for the configured channel, like `sms_payload` with
/// the call templates.
pub open spec fn call_payload(config: NotificationChannel, call: CallRecord, device_label: Seq<char>) -> Seq<char> {
    let local = local_time_text(call.start_time@);
    if config.channel == ChannelType::Disabled {
        ""@
    } else if is_robot(config.channel) {
        apply_replacements(robot_template(config, true), call_pairs(call, device_label, local))
    } else {
        apply_replacements(or_default(config.call_title_template@, default_call_title()), call_pairs(call, device_label, local))
            + "\n\n"@ + apply_replacements(or_default(config.call_body_template@, default_call_body()), call_pairs(call, device_label, local))
    }
}

fn choose_template<'a>(t: &'a String, d: &'a str) -> (r: &'a str)
    ensures
        r@ == or_default(t@, d@),
{
    if t.as_str().unicode_len() == 0 {
        d
    } else {
        t.as_str()
    }
}

fn robot_template_exec<'a>(config: &'a NotificationChannel, call: bool) -> (r: &'a str)
    requires
        is_robot(config.channel),
    ensures
        r@ == robot_template(*config, call),
{
    match config.channel {
        ChannelType::Dingtalk => choose_template(&config.dingtalk.template, default_robot_template_exec(ChannelType::Dingtalk, call)),
        ChannelType::Feishu => choose_template(&config.feishu.template, default_robot_template_exec(ChannelType::Feishu, call)),
        _ => choose_template(&config.wecom.template, default_robot_template_exec(ChannelType::Wecom, call)),
    }
}

fn join_blank_line(title: String, body: String) -> (r: String)
    ensures
        r@ == title@ + "\n\n"@ + body@,
{
    let mut v = chars_of_string(&title);
    let sep = chars_of("\n\n");
    append_chars(&mut v, sep.as_slice());
    let b = chars_of_string(&body);
    append_chars(&mut v, b.as_slice());
    string_of(v.as_slice())
}

/// The payload of an SMS for the configured channel (see `sms_payload`).
pub fn render_sms_for_channel(config: &NotificationChannel, sms: &SmsMessage, device_label: &str) -> (r: String)
    ensures
        r@ == sms_payload(*config, *sms, device_label@),
{
    let local_time = utc_to_local(sms.timestamp.as_str());
    if config.channel == ChannelType::Disabled {
        return "".to_owned();
    }
    if config.channel == ChannelType::Dingtalk || config.channel == ChannelType::Feishu || config.channel == ChannelType::Wecom {
        let tpl = robot_template_exec(config, false);
        render_template(tpl, sms, None, device_label, local_time.as_str(), true)
    } else {
        let title_tpl = choose_template(&config.sms_title_template, "📱短信");
        let body_tpl = choose_template(&config.sms_body_template, "来自：{{phone_number}}\n内容：{{content}}\n\n本机号码：{{device_name}}\n时间：{{local_time}}");
        let title = render_template(title_tpl, sms, None, device_label, local_time.as_str(), false);
        let body = render_template(body_tpl, sms, None, device_label, local_time.as_str(), false);
        join_blank_line(title, body)
    }
}

/// An SMS with every field empty, the message handed to call templates.
fn blank_sms_exec() -> (r: SmsMessage)
    ensures
        r.id == 0,
        r.direction@.len() == 0,
        r.phone_number@.len() == 0,
        r.content@.len() == 0,
        r.timestamp@.len() == 0,
        r.status@.len() == 0,
        r.pdu is None,
{
    SmsMessage {
        id: 0,
        direction: String::new(),
        phone_number: String::new(),
        content: String::new(),
        timestamp: String::new(),
        status: String::new(),
        pdu: None,
    }
}

/// The payload of a call for the configured channel (see `call_payload`).
pub fn render_call_for_channel(config: &NotificationChannel, call: &CallRecord, device_label: &str) -> (r: String)
    ensures
        r@ == call_payload(*config, *call, device_label@),
{
    let local_time = utc_to_local(call.start_time.as_str());
    let blank = blank_sms_exec();
    if config.channel == ChannelType::Disabled {
        return "".to_owned();
    }
    let r = if config.channel == ChannelType::Dingtalk || config.channel == ChannelType::Feishu || config.channel == ChannelType::Wecom {
        let tpl = robot_template_exec(config, true);
        render_template(tpl, &blank, Some(call), device_label, local_time.as_str(), true)
    } else {
        let title_tpl = choose_template(&config.call_title_template, "📞来电提醒");
        let body_tpl = choose_template(&config.call_body_template, "来电号码：{{phone_number}}\n时长：{{duration}}秒\n\n本机号码：{{device_name}}\n时间：{{local_time}}");
        let title = render_template(title_tpl, &blank, Some(call), device_label, local_time.as_str(), false);
        let body = render_template(body_tpl, &blank, Some(call), device_label, local_time.as_str(), false);
        join_blank_line(title, body)
    };
    r
}

/// The sender's label: the configured device name, else the SIM's own
/// number, else 未知设备.
pub open spec fn device_label_of(device_name: Seq<char>, self_number: Seq<char>) -> Seq<char> {
    if device_name.len() > 0 {
        device_name
    } else if self_number.len() > 0 {
        self_number
    } else {
        "未知设备"@
    }
}

/// The sender's label.
pub fn get_device_label(device_name: &str, self_number: &str) -> (r: String)
    ensures
        r@ == device_label_of(device_name@, self_number@),
{
    if device_name.unicode_len() > 0 {
        device_name.to_owned()
    } else if self_number.unicode_len() > 0 {
        self_number.to_owned()
    } else {
        "未知设备".to_owned()
    }
}

/// A payload split at its first blank line into title and body; without
/// one, the default title and the whole payload.
pub open spec fn split_payload(payload: Seq<char>, default_title: Seq<char>) -> (Seq<char>, Seq<char>) {
    match find_from(payload, "\n\n"@, 0) {
        Some(pos) => (payload.subrange(0, pos), payload.subrange(pos + 2, payload.len() as int)),
        None => (default_title, payload),
    }
}

/// The title and body of a payload.
pub fn split_title_body(payload: &str, default_title: &str) -> (r: (String, String))
    ensures
        (r.0@, r.1@) == split_payload(payload@, default_title@),
{
    let p = chars_of(payload);
    let sep = chars_of("\n\n");
    proof {
        reveal_strlit("\n\n");
    }
    assert(sep@.len() == 2);
    match find_exec(p.as_slice(), sep.as_slice(), 0) {
        Some(pos) => {
            assert(pos + 2 <= p@.len());
            assert(p@.len() == p.len());
            let t = sub_vec(p.as_slice(), 0, pos);
            let b = sub_vec(p.as_slice(), pos + 2, p.len());
            (string_of(t.as_slice()), string_of(b.as_slice()))
        },
        None => (default_title.to_owned(), payload.to_owned()),
    }
}

// ---------------------------------------------------------------- signatures

/// The HMAC-SHA256 of a message under a key.
pub uninterp spec fn hmac_sha256_of(key: Seq<u8>, message: Seq<u8>) -> Seq<u8>;

/// `Hmac::<Sha256>::new_from_slice(key)` (which takes any key length), then
/// `update(message)` and `finalize()`: the 32-byte MAC, only named here.
#[verifier::external_body]
fn hmac_sha256(key: &[u8], message: &[u8]) -> (r: Vec<u8>)
    ensures
        r@ == hmac_sha256_of(key@, message@),
        r@.len() == 32,
{
    let mut mac = match hmac::Hmac::<sha2::Sha256>::new_from_slice(key) {
        Ok(m) => m,
        Err(_) => return Vec::new(),
    };
    mac.update(message);
    mac.finalize().into_bytes().to_vec()
}

/// A base64 digit of a 6-bit value (standard alphabet).
pub open spec fn b64_char(v: int) -> char {
    if v < 26 {
        ((v + 65) as u32) as char
    } else if v < 52 {
        ((v + 71) as u32) as char
    } else if v < 62 {
        ((v - 4) as u32) as char
    } else if v == 62 {
        '+'
    } else {
        '/'
    }
}

/// Standard base64 with padding: each 3 bytes as 4 digits, a last 1 or 2
/// bytes as 2 or 3 digits and `=` padding.
pub open spec fn base64_text(b: Seq<u8>) -> Seq<char>
    decreases b.len(),
{
    if b.len() == 0 {
        seq![]
    } else if b.len() == 1 {
        seq![b64_char(b[0] as int / 4), b64_char((b[0] as int % 4) * 16), '=', '=']
    } else if b.len() == 2 {
        seq![
            b64_char(b[0] as int / 4),
            b64_char((b[0] as int % 4) * 16 + b[1] as int / 16),
            b64_char((b[1] as int % 16) * 4),
            '=',
        ]
    } else {
        seq![
            b64_char(b[0] as int / 4),
            b64_char((b[0] as int % 4) * 16 + b[1] as int / 16),
            b64_char((b[1] as int % 16) * 4 + b[2] as int / 64),
            b64_char(b[2] as int % 64),
        ] + base64_text(b.subrange(3, b.len() as int))
    }
}

/// `base64::engine::general_purpose::STANDARD.encode`: standard padded base64.
#[verifier::external_body]
fn base64_encode(data: &[u8]) -> (r: String)
    ensures
        r@ == base64_text(data@),
{
    base64::engine::general_purpose::STANDARD.encode(data)
}

/// Milliseconds since 1970 (UTC) now: `std::time::SystemTime::now()` converted
/// by chrono's `From<SystemTime>` for `DateTime<Utc>`, which handles instants
/// before 1970 too, then `timestamp_millis()`. The clock's reading is not
/// stated; chrono unwraps only for instants outside its range (near year 262143).
#[verifier::external_body]
fn utc_now_millis() -> (r: i64) {
    chrono::DateTime::<chrono::Utc>::from(std::time::SystemTime::now()).timestamp_millis()
}

/// The text signed by the robot channels: the timestamp, a line feed, the secret.
pub open spec fn sign_text(timestamp: i64, secret: Seq<char>) -> Seq<char> {
    int_string(timestamp as int) + "\n"@ + secret
}

/// The robot signature of a timestamp: base64 of the HMAC-SHA256, keyed by
/// the secret, of `timestamp\nsecret`.
pub open spec fn robot_signature(timestamp: i64, secret: Seq<char>) -> Seq<char> {
    base64_text(hmac_sha256_of(encode_utf8(secret), encode_utf8(sign_text(timestamp, secret))))
}

/// The robot signature of a timestamp.
pub fn robot_sign(timestamp: i64, secret: &str) -> (r: String)
    ensures
        r@ == robot_signature(timestamp, secret@),
{
    let mut t: Vec<char> = Vec::new();
    push_int(&mut t, timestamp);
    let nl = chars_of("\n");
    append_chars(&mut t, nl.as_slice());
    let sc = chars_of(secret);
    append_chars(&mut t, sc.as_slice());
    let text = string_of(t.as_slice());
    let mac = hmac_sha256(secret.as_bytes(), text.as_str().as_bytes());
    base64_encode(mac.as_slice())
}

/// The current time and its robot signature.
pub fn compute_robot_sign(secret: &str) -> (r: (i64, String))
    ensures
        r.1@ == robot_signature(r.0, secret@),
{
    let ts = utc_now_millis();
    (ts, robot_sign(ts, secret))
}

/// A robot URL with its signature: `timestamp=` and `sign=` (URL-encoded)
/// appended after `?`, or after `&` when the URL already has a query.
pub open spec fn signed_url(url: Seq<char>, timestamp: i64, sign: Seq<char>) -> Seq<char> {
    url + (if contains(url, "?"@) {
        "&"@
    } else {
        "?"@
    }) + "timestamp="@ + int_string(timestamp as int) + "&sign="@ + url_encoded(sign)
}

/// The robot URL signed at `timestamp`.
pub fn sign_url(url: &str, timestamp: i64, sign: &str) -> (r: String)
    ensures
        r@ == signed_url(url@, timestamp, sign@),
{
    let u = chars_of(url);
    let q = chars_of("?");
    let has_query = contains_exec(u.as_slice(), q.as_slice());
    let mut out = chars_of(url);
    let sep = if has_query {
        chars_of("&")
    } else {
        chars_of("?")
    };
    append_chars(&mut out, sep.as_slice());
    let a = chars_of("timestamp=");
    append_chars(&mut out, a.as_slice());
    push_int(&mut out, timestamp);
    let b = chars_of("&sign=");
    append_chars(&mut out, b.as_slice());
    let enc = url_encode(sign);
    let e = chars_of_string(&enc);
    append_chars(&mut out, e.as_slice());
    string_of(out.as_slice())
}

/// The robot URL signed now with the secret.
pub fn build_robot_signed_url(url: &str, secret: &str) -> (r: String)
    ensures
        exists|ts: i64| r@ == signed_url(url@, ts, robot_signature(ts, secret@)),
{
    let (ts, sign) = compute_robot_sign(secret);
    sign_url(url, ts, sign.as_str())
}

/// The Feishu signature header value, signed now with the secret.
pub fn compute_feishu_signature(secret: &str) -> (r: String)
    ensures
        exists|ts: i64| r@ == robot_signature(ts, secret@),
{
    let (_, sign) = compute_robot_sign(secret);
    sign
}

// ---------------------------------------------------------------- requests

/// A JSON field value of a request.
pub enum JsonValue {
    Text(String),
    Flag(bool),
}

/// The body of a request: JSON fields, form fields, or query parameters.
pub enum PushBody {
    Json(Vec<(String, JsonValue)>),
    Form(Vec<(String, String)>),
    Query(Vec<(String, String)>),
}

/// A POST request to a notification service.
pub struct PushRequest {
    pub endpoint: String,
    pub body: PushBody,
    /// Bearer token, when the service takes one.
    pub bearer: Option<String>,
}

/// A JSON field value as text.
pub ghost enum JsonView {
    Text(Seq<char>),
    Flag(bool),
}

/// A request body as text.
pub ghost enum BodyView {
    Json(Seq<(Seq<char>, JsonView)>),
    Form(Seq<(Seq<char>, Seq<char>)>),
    Query(Seq<(Seq<char>, Seq<char>)>),
}

/// The view of a JSON value.
pub open spec fn json_view(v: JsonValue) -> JsonView {
    match v {
        JsonValue::Text(t) => JsonView::Text(t@),
        JsonValue::Flag(b) => JsonView::Flag(b),
    }
}

/// The view of string pairs.
pub open spec fn str_pairs(v: Seq<(String, String)>) -> Seq<(Seq<char>, Seq<char>)> {
    v.map_values(|p: (String, String)| (p.0@, p.1@))
}

/// The view of JSON fields.
pub open spec fn json_fields(v: Seq<(String, JsonValue)>) -> Seq<(Seq<char>, JsonView)> {
    v.map_values(|p: (String, JsonValue)| (p.0@, json_view(p.1)))
}

/// The view of a body.
pub open spec fn body_view(b: PushBody) -> BodyView {
    match b {
        PushBody::Json(f) => BodyView::Json(json_fields(f@)),
        PushBody::Form(f) => BodyView::Form(str_pairs(f@)),
        PushBody::Query(f) => BodyView::Query(str_pairs(f@)),
    }
}

/// The view of a request: endpoint, body, bearer token.
pub open spec fn request_view(r: PushRequest) -> (Seq<char>, BodyView, Option<Seq<char>>) {
    (
        r.endpoint@,
        body_view(r.body),
        match r.bearer {
            Some(t) => Some(t@),
            None => None,
        },
    )
}

/// A trimmed service address, or the default when it is empty.
pub open spec fn address_or(url: Seq<char>, default: Seq<char>) -> Seq<char> {
    if trim(url).len() == 0 {
        default
    } else {
        trim(url)
    }
}

/// A trimmed service base address without trailing slashes, or the default
/// when it is empty.
pub open spec fn base_or(url: Seq<char>, default: Seq<char>) -> Seq<char> {
    if trim(url).len() == 0 {
        default
    } else {
        strip_suffixes(trim(url), "/"@)
    }
}

/// The request to a generic push service (PushPlus, ServerChan, PushDeer,
/// ntfy) for a payload: its credential (or, for ntfy, its topic) must be
/// set; the payload gives title and body (default title `CPE 通知`); each
/// service has its endpoint and fields.
pub open spec fn provider_request(
    cfg: PushProviderConfig,
    channel: ChannelType,
    payload: Seq<char>,
) -> Result<(Seq<char>, BodyView, Option<Seq<char>>), Seq<char>> {
    let credential = trim(cfg.credential@);
    let topic = trim(cfg.topic@);
    let (title, body) = split_payload(payload, "CPE 通知"@);
    if channel == ChannelType::Ntfy && topic.len() == 0 {
        Err("ntfy 主题不能为空"@)
    } else if channel != ChannelType::Ntfy && credential.len() == 0 {
        Err("当前推送服务缺少凭证"@)
    } else {
        match channel {
            ChannelType::Pushplus => Ok(
                (
                    address_or(cfg.url@, "https://www.pushplus.plus/send"@),
                    BodyView::Json(
                        seq![
                            ("token"@, JsonView::Text(credential)),
                            ("title"@, JsonView::Text(title)),
                            ("content"@, JsonView::Text(body)),
                            ("template"@, JsonView::Text("markdown"@)),
                        ] + if topic.len() > 0 {
                            seq![("topic"@, JsonView::Text(topic))]
                        } else {
                            seq![]
                        },
                    ),
                    None,
                ),
            ),
            ChannelType::Serverchan => Ok(
                (
                    base_or(cfg.url@, "https://sctapi.ftqq.com"@) + "/"@ + credential + ".send"@,
                    BodyView::Form(seq![("title"@, title), ("text"@, title), ("desp"@, body)]),
                    None,
                ),
            ),
            ChannelType::Pushdeer => Ok(
                (
                    address_or(cfg.url@, "https://api2.pushdeer.com/message/push"@),
                    BodyView::Form(
                        seq![
                            ("pushkey"@, credential),
                            ("text"@, title),
                            ("desp"@, body),
                            ("type"@, "markdown"@),
                        ],
                    ),
                    None,
                ),
            ),
            ChannelType::Ntfy => Ok(
                (
                    base_or(cfg.url@, "https://ntfy.sh"@) + "/"@,
                    BodyView::Json(
                        seq![
                            ("topic"@, JsonView::Text(topic)),
                            ("title"@, JsonView::Text(title)),
                            ("message"@, JsonView::Text(body)),
                            ("markdown"@, JsonView::Flag(true)),
                        ],
                    ),
                    if credential.len() > 0 {
                        Some(credential)
                    } else {
                        None
                    },
                ),
            ),
            _ => Err("Unsupported push provider: "@ + channel_name(channel)),
        }
    }
}

/// The name of a channel kind as `{:?}` writes it.
pub open spec fn channel_name(c: ChannelType) -> Seq<char> {
    match c {
        ChannelType::Disabled => "None"@,
        ChannelType::Dingtalk => "Dingtalk"@,
        ChannelType::Feishu => "Feishu"@,
        ChannelType::Wecom => "Wecom"@,
        ChannelType::Email => "Email"@,
        ChannelType::Bark => "Bark"@,
        ChannelType::Pushplus => "Pushplus"@,
        ChannelType::Serverchan => "Serverchan"@,
        ChannelType::Pushdeer => "Pushdeer"@,
        ChannelType::Ntfy => "Ntfy"@,
    }
}

/// The name of a channel kind.
pub fn channel_debug_name(c: ChannelType) -> (r: String)
    ensures
        r@ == channel_name(c),
{
    match c {
        ChannelType::Disabled => "None".to_owned(),
        ChannelType::Dingtalk => "Dingtalk".to_owned(),
        ChannelType::Feishu => "Feishu".to_owned(),
        ChannelType::Wecom => "Wecom".to_owned(),
        ChannelType::Email => "Email".to_owned(),
        ChannelType::Bark => "Bark".to_owned(),
        ChannelType::Pushplus => "Pushplus".to_owned(),
        ChannelType::Serverchan => "Serverchan".to_owned(),
        ChannelType::Pushdeer => "Pushdeer".to_owned(),
        ChannelType::Ntfy => "Ntfy".to_owned(),
    }
}

fn trimmed_string(s: &String) -> (r: Vec<char>)
    ensures
        r@ == trim(s@),
{
    let v = chars_of_string(s);
    trimmed(v.as_slice())
}

/// The trimmed address, or the default.
pub fn address_or_default(url: &String, default: &str) -> (r: String)
    ensures
        r@ == address_or(url@, default@),
{
    let t = trimmed_string(url);
    if t.len() == 0 {
        default.to_owned()
    } else {
        string_of(t.as_slice())
    }
}

/// The trimmed base address without trailing slashes, or the default.
pub fn base_or_default(url: &String, default: &str) -> (r: String)
    ensures
        r@ == base_or(url@, default@),
{
    let t = trimmed_string(url);
    if t.len() == 0 {
        default.to_owned()
    } else {
        let slash = chars_of("/");
        proof {
            reveal_strlit("/");
        }
        let b = strip_suffixes_exec(t.as_slice(), slash.as_slice());
        string_of(b.as_slice())
    }
}

fn text_field(k: &str, v: String) -> (r: (String, JsonValue))
    ensures
        r.0@ == k@,
        json_view(r.1) == JsonView::Text(v@),
{
    (k.to_owned(), JsonValue::Text(v))
}

fn form_field(k: &str, v: String) -> (r: (String, String))
    ensures
        r.0@ == k@,
        r.1@ == v@,
{
    (k.to_owned(), v)
}

fn cat3(a: String, b: &String, c: &str) -> (r: String)
    ensures
        r@ == a@ + b@ + c@,
{
    let mut v = chars_of_string(&a);
    let x = chars_of_string(b);
    append_chars(&mut v, x.as_slice());
    let y = chars_of(c);
    append_chars(&mut v, y.as_slice());
    string_of(v.as_slice())
}

/// The request to a generic push service (see `provider_request`).
pub fn push_provider_request(cfg: &PushProviderConfig, channel: ChannelType, payload: &str) -> (r:
    Result<PushRequest, String>)
    ensures
        match provider_request(*cfg, channel, payload@) {
            Ok(v) => r matches Ok(q) && request_view(q) == v,
            Err(m) => r matches Err(e) && e@ == m,
        },
{
    let credential = string_of(trimmed_string(&cfg.credential).as_slice());
    let topic = string_of(trimmed_string(&cfg.topic).as_slice());
    if channel == ChannelType::Ntfy && topic.as_str().unicode_len() == 0 {
        return Err("ntfy 主题不能为空".to_owned());
    }
    if channel != ChannelType::Ntfy && credential.as_str().unicode_len() == 0 {
        return Err("当前推送服务缺少凭证".to_owned());
    }
    let (title, body) = split_title_body(payload, "CPE 通知");
    let ghost cv = credential@;
    let ghost tv = topic@;
    let ghost ti = title@;
    let ghost bo = body@;
    match channel {
        ChannelType::Pushplus => {
            let endpoint = address_or_default(&cfg.url, "https://www.pushplus.plus/send");
            let mut fields: Vec<(String, JsonValue)> = Vec::new();
            fields.push(text_field("token", credential));
            fields.push(text_field("title", title));
            fields.push(text_field("content", body));
            fields.push(text_field("template", "markdown".to_owned()));
            if topic.as_str().unicode_len() > 0 {
                fields.push(text_field("topic", topic));
            }
            assert(json_fields(fields@) =~= seq![
                ("token"@, JsonView::Text(cv)),
                ("title"@, JsonView::Text(ti)),
                ("content"@, JsonView::Text(bo)),
                ("template"@, JsonView::Text("markdown"@)),
            ] + if tv.len() > 0 {
                seq![("topic"@, JsonView::Text(tv))]
            } else {
                seq![]
            });
            let r = PushRequest { endpoint, body: PushBody::Json(fields), bearer: None };
            assert(request_view(r) == provider_request(*cfg, channel, payload@)->Ok_0);
            Ok(r)
        },
        ChannelType::Serverchan => {
            let base = base_or_default(&cfg.url, "https://sctapi.ftqq.com");
            let mut e = chars_of_string(&base);
            let slash = chars_of("/");
            append_chars(&mut e, slash.as_slice());
            let endpoint = cat3(string_of(e.as_slice()), &credential, ".send");
            let mut fields: Vec<(String, String)> = Vec::new();
            fields.push(form_field("title", title.clone()));
            fields.push(form_field("text", title));
            fields.push(form_field("desp", body));
            assert(str_pairs(fields@) =~= seq![("title"@, ti), ("text"@, ti), ("desp"@, bo)]);
            let r = PushRequest { endpoint, body: PushBody::Form(fields), bearer: None };
            assert(request_view(r) == provider_request(*cfg, channel, payload@)->Ok_0);
            Ok(r)
        },
        ChannelType::Pushdeer => {
            let endpoint = address_or_default(&cfg.url, "https://api2.pushdeer.com/message/push");
            let mut fields: Vec<(String, String)> = Vec::new();
            fields.push(form_field("pushkey", credential));
            fields.push(form_field("text", title));
            fields.push(form_field("desp", body));
            fields.push(form_field("type", "markdown".to_owned()));
            assert(str_pairs(fields@) =~= seq![
                ("pushkey"@, cv),
                ("text"@, ti),
                ("desp"@, bo),
                ("type"@, "markdown"@),
            ]);
            let r = PushRequest { endpoint, body: PushBody::Form(fields), bearer: None };
            assert(request_view(r) == provider_request(*cfg, channel, payload@)->Ok_0);
            Ok(r)
        },
        ChannelType::Ntfy => {
            let base = base_or_default(&cfg.url, "https://ntfy.sh");
            let mut e = chars_of_string(&base);
            let slash = chars_of("/");
            append_chars(&mut e, slash.as_slice());
            let endpoint = string_of(e.as_slice());
            let mut fields: Vec<(String, JsonValue)> = Vec::new();
            fields.push(text_field("topic", topic));
            fields.push(text_field("title", title));
            fields.push(text_field("message", body));
            fields.push(("markdown".to_owned(), JsonValue::Flag(true)));
            assert(json_fields(fields@) =~= seq![
                ("topic"@, JsonView::Text(tv)),
                ("title"@, JsonView::Text(ti)),
                ("message"@, JsonView::Text(bo)),
                ("markdown"@, JsonView::Flag(true)),
            ]);
            let bearer = if credential.as_str().unicode_len() > 0 {
                Some(credential)
            } else {
                None
            };
            let r = PushRequest { endpoint, body: PushBody::Json(fields), bearer };
            assert(request_view(r) == provider_request(*cfg, channel, payload@)->Ok_0);
            Ok(r)
        },
        _ => {
            let mut m = chars_of("Unsupported push provider: ");
            let n = channel_debug_name(channel);
            let nv = chars_of_string(&n);
            append_chars(&mut m, nv.as_slice());
            Err(string_of(m.as_slice()))
        },
    }
}

// ---------------------------------------------------------------- other channels

/// The Bark request for a payload: the device key must be set; the server
/// (default `https://api.day.app`, trailing slashes dropped) and the device
/// key form the address; title and body (default title `CPE 通知`) and the
/// sound, icon and group when set go in the query.
pub open spec fn bark_request(cfg: BarkConfig, payload: Seq<char>) -> Result<
    (Seq<char>, BodyView, Option<Seq<char>>),
    Seq<char>,
> {
    let (title, body) = split_payload(payload, "CPE 通知"@);
    let server = if cfg.server_url@.len() == 0 {
        "https://api.day.app"@
    } else {
        cfg.server_url@
    };
    if cfg.device_key@.len() == 0 {
        Err("Bark device key is not configured"@)
    } else {
        Ok(
            (
                strip_suffixes(server, "/"@) + "/"@ + cfg.device_key@,
                BodyView::Query(
                    seq![("title"@, title), ("body"@, body)] + (if cfg.sound@.len() > 0 {
                        seq![("sound"@, cfg.sound@)]
                    } else {
                        seq![]
                    }) + (if cfg.icon@.len() > 0 {
                        seq![("icon"@, cfg.icon@)]
                    } else {
                        seq![]
                    }) + (if cfg.group@.len() > 0 {
                        seq![("group"@, cfg.group@)]
                    } else {
                        seq![]
                    }),
                ),
                None,
            ),
        )
    }
}

/// The Bark request for a payload (see `bark_request`).
pub fn bark_push_request(cfg: &BarkConfig, payload: &str) -> (r: Result<PushRequest, String>)
    ensures
        match bark_request(*cfg, payload@) {
            Ok(v) => r matches Ok(q) && request_view(q) == v,
            Err(m) => r matches Err(e) && e@ == m,
        },
{
    if cfg.device_key.as_str().unicode_len() == 0 {
        return Err("Bark device key is not configured".to_owned());
    }
    let (title, body) = split_title_body(payload, "CPE 通知");
    let ghost ti = title@;
    let ghost bo = body@;
    let server = if cfg.server_url.as_str().unicode_len() == 0 {
        chars_of("https://api.day.app")
    } else {
        chars_of_string(&cfg.server_url)
    };
    let slash = chars_of("/");
    proof {
        reveal_strlit("/");
    }
    let mut url = strip_suffixes_exec(server.as_slice(), slash.as_slice());
    append_chars(&mut url, slash.as_slice());
    let key = chars_of_string(&cfg.device_key);
    append_chars(&mut url, key.as_slice());
    let mut q: Vec<(String, String)> = Vec::new();
    q.push(form_field("title", title));
    q.push(form_field("body", body));
    let ghost base = str_pairs(q@);
    if cfg.sound.as_str().unicode_len() > 0 {
        q.push(form_field("sound", cfg.sound.clone()));
    }
    let ghost with_sound = str_pairs(q@);
    if cfg.icon.as_str().unicode_len() > 0 {
        q.push(form_field("icon", cfg.icon.clone()));
    }
    let ghost with_icon = str_pairs(q@);
    if cfg.group.as_str().unicode_len() > 0 {
        q.push(form_field("group", cfg.group.clone()));
    }
    assert(base =~= seq![("title"@, ti), ("body"@, bo)]);
    assert(with_sound =~= base + (if cfg.sound@.len() > 0 {
        seq![("sound"@, cfg.sound@)]
    } else {
        seq![]
    }));
    assert(with_icon =~= with_sound + (if cfg.icon@.len() > 0 {
        seq![("icon"@, cfg.icon@)]
    } else {
        seq![]
    }));
    assert(str_pairs(q@) =~= with_icon + (if cfg.group@.len() > 0 {
        seq![("group"@, cfg.group@)]
    } else {
        seq![]
    }));
    let r = PushRequest { endpoint: string_of(url.as_slice()), body: PushBody::Query(q), bearer: None };
    assert(request_view(r) == bark_request(*cfg, payload@)->Ok_0);
    Ok(r)
}

/// The address of a robot channel: refused when not configured (the
/// message names the channel), signed when a secret is set, else as it is.
pub fn robot_url(url: &str, secret: &str, channel_label: &str) -> (r: Result<String, String>)
    ensures
        url@.len() == 0 ==> (r matches Err(m) && m@ == channel_label@ + " URL is not configured"@),
        url@.len() > 0 && secret@.len() == 0 ==> (r matches Ok(u) && u@ == url@),
        url@.len() > 0 && secret@.len() > 0 ==> (r matches Ok(u) && exists|ts: i64|
            u@ == signed_url(url@, ts, robot_signature(ts, secret@))),
{
    if url.unicode_len() == 0 {
        let mut m = chars_of(channel_label);
        let t = chars_of(" URL is not configured");
        append_chars(&mut m, t.as_slice());
        return Err(string_of(m.as_slice()));
    }
    if secret.unicode_len() > 0 {
        Ok(build_robot_signed_url(url, secret))
    } else {
        Ok(url.to_owned())
    }
}

/// The address and signature header of a Feishu message: refused when the
/// address is not configured; signed now (see `compute_feishu_signature`)
/// when a secret is set.
pub fn feishu_target(url: &str, secret: &str) -> (r: Result<(String, Option<String>), String>)
    ensures
        url@.len() == 0 ==> (r matches Err(m) && m@ == "Feishu URL is not configured"@),
        url@.len() > 0 ==> (r matches Ok(t) && t.0@ == url@ && (t.1 is None <==> secret@.len() == 0)
            && (t.1 matches Some(sig) ==> exists|ts: i64| sig@ == robot_signature(ts, secret@))),
{
    if url.unicode_len() == 0 {
        return Err("Feishu URL is not configured".to_owned());
    }
    let signature = if secret.unicode_len() > 0 {
        Some(compute_feishu_signature(secret))
    } else {
        None
    };
    Ok((url.to_owned(), signature))
}

/// A mail to send: recipients, subject, sender and body.
pub struct EmailPlan {
    /// The first recipient, then the copies.
    pub to: Vec<String>,
    pub subject: String,
    /// `name <address>`, or the address alone.
    pub from: String,
    pub body: String,
}

/// The recipients: the comma-separated entries, trimmed, empty ones left out.
pub open spec fn recipients(pieces: Seq<Seq<char>>) -> Seq<Seq<char>>
    decreases pieces.len(),
{
    if pieces.len() == 0 {
        seq![]
    } else {
        let rest = recipients(pieces.drop_first());
        if trim(pieces[0]).len() == 0 {
            rest
        } else {
            seq![trim(pieces[0])] + rest
        }
    }
}

/// The mail of a payload: refused when host, user or recipients are
/// missing, or when no recipient remains; the payload gives subject and
/// body (default subject `[CPE] 通知消息`), the subject prefixed by the
/// trimmed prefix when one is set.
pub open spec fn email_plan(cfg: EmailConfig, payload: Seq<char>) -> Result<
    (Seq<Seq<char>>, Seq<char>, Seq<char>, Seq<char>),
    Seq<char>,
> {
    let to = recipients(split_char(cfg.to_addresses@, ','));
    let (subject, body) = split_payload(payload, "[CPE] 通知消息"@);
    if cfg.smtp_host@.len() == 0 || cfg.username@.len() == 0 || cfg.to_addresses@.len() == 0 {
        Err("Email config is incomplete"@)
    } else if to.len() == 0 {
        Err("No valid recipient email address"@)
    } else {
        Ok(
            (
                to,
                if cfg.subject_prefix@.len() == 0 {
                    subject
                } else {
                    trim(cfg.subject_prefix@) + " "@ + subject
                },
                if cfg.from_name@.len() == 0 {
                    cfg.username@
                } else {
                    cfg.from_name@ + " <"@ + cfg.username@ + ">"@
                },
                body,
            ),
        )
    }
}

/// The mail of a payload (see `email_plan`).
pub fn email_message_plan(cfg: &EmailConfig, payload: &str) -> (r: Result<EmailPlan, String>)
    ensures
        match email_plan(*cfg, payload@) {
            Ok(v) => r matches Ok(p) && strs_view(p.to@) == v.0 && p.subject@ == v.1 && p.from@
                == v.2 && p.body@ == v.3,
            Err(m) => r matches Err(e) && e@ == m,
        },
{
    if cfg.smtp_host.as_str().unicode_len() == 0 || cfg.username.as_str().unicode_len() == 0
        || cfg.to_addresses.as_str().unicode_len() == 0 {
        return Err("Email config is incomplete".to_owned());
    }
    let addr = chars_of_string(&cfg.to_addresses);
    let pieces = split_of(addr.as_slice(), ',');
    let ghost all = seqs_of(pieces@);
    let mut to: Vec<String> = Vec::new();
    let mut i = pieces.len();
    assert(all.subrange(i as int, all.len() as int) =~= Seq::<Seq<char>>::empty());
    while i > 0
        invariant
            i <= pieces@.len(),
            all == seqs_of(pieces@),
            strs_view(to@) == recipients(all.subrange(i as int, all.len() as int)),
        decreases i,
    {
        i = i - 1;
        let ghost rest = all.subrange(i as int, all.len() as int);
        assert(rest.drop_first() =~= all.subrange(i + 1, all.len() as int));
        assert(rest[0] == pieces@[i as int]@);
        let t = trimmed(pieces[i].as_slice());
        if t.len() > 0 {
            let ghost o = to@;
            to.insert(0, string_of(t.as_slice()));
            assert(strs_view(to@) =~= seq![t@] + strs_view(o));
        }
    }
    assert(all.subrange(0, all.len() as int) =~= all);
    if to.len() == 0 {
        return Err("No valid recipient email address".to_owned());
    }
    let (subject, body) = split_title_body(payload, "[CPE] 通知消息");
    let subject = if cfg.subject_prefix.as_str().unicode_len() == 0 {
        subject
    } else {
        let mut v = trimmed_string(&cfg.subject_prefix);
        let sp = chars_of(" ");
        append_chars(&mut v, sp.as_slice());
        let sv = chars_of_string(&subject);
        append_chars(&mut v, sv.as_slice());
        string_of(v.as_slice())
    };
    let from = if cfg.from_name.as_str().unicode_len() == 0 {
        cfg.username.clone()
    } else {
        let mut v = chars_of_string(&cfg.from_name);
        let a = chars_of(" <");
        append_chars(&mut v, a.as_slice());
        let u = chars_of_string(&cfg.username);
        append_chars(&mut v, u.as_slice());
        let b = chars_of(">");
        append_chars(&mut v, b.as_slice());
        string_of(v.as_slice())
    };
    Ok(EmailPlan { to, subject, from, body })
}

// ---------------------------------------------------------------- replies

/// The failure of a robot channel reply: `Request failed with status` and
/// the status and body, unless the status is a success.
pub fn check_response(status_ok: bool, status_text: &str, body: &str) -> (r: Result<(), String>)
    ensures
        status_ok ==> r is Ok,
        !status_ok ==> (r matches Err(m) && m@ == "Request failed with status "@ + status_text@
            + ": "@ + body@),
{
    if status_ok {
        Ok(())
    } else {
        let mut m = chars_of("Request failed with status ");
        let s = chars_of(status_text);
        append_chars(&mut m, s.as_slice());
        let c = chars_of(": ");
        append_chars(&mut m, c.as_slice());
        let b = chars_of(body);
        append_chars(&mut m, b.as_slice());
        Err(string_of(m.as_slice()))
    }
}

/// The fields a JSON reply is read for: `code` as an integer, and the keys
/// `msg`, `message` and `error`, each absent (`None`), present but not a
/// string (`Some(None)`) or a string; `None` when the text is not JSON.
pub uninterp spec fn json_reply_fields(text: Seq<char>) -> Option<(Option<i64>, Option<Option<Seq<char>>>, Option<Option<Seq<char>>>, Option<Option<Seq<char>>>)>;

/// The text of a key read as a string.
pub open spec fn key_view(k: Option<Option<String>>) -> Option<Option<Seq<char>>> {
    match k {
        Some(Some(t)) => Some(Some(t@)),
        Some(None) => Some(None),
        None => None,
    }
}

/// `serde_json::from_str::<Value>`, then `get("code")` read with `as_i64`,
/// and `get` of `msg`, `message` and `error`, each read with `as_str`;
/// `None` when the text does not parse. What the parser accepts is only
/// named here.
#[verifier::external_body]
fn parse_reply_fields(text: &str) -> (r: Option<
    (Option<i64>, Option<Option<String>>, Option<Option<String>>, Option<Option<String>>),
>)
    ensures
        match r {
            Some((c, a, b, e)) => json_reply_fields(text@) == Some(
                (c, key_view(a), key_view(b), key_view(e)),
            ),
            None => json_reply_fields(text@) is None,
        },
{
    let value = serde_json::from_str::<serde_json::Value>(text).ok()?;
    let code = value.get("code").and_then(serde_json::Value::as_i64);
    let msg = value.get("msg").map(|v| v.as_str().map(|t| t.to_string()));
    let message = value.get("message").map(|v| v.as_str().map(|t| t.to_string()));
    let error = value.get("error").map(|v| v.as_str().map(|t| t.to_string()));
    Some((code, msg, message, error))
}

/// The text of the first of the keys that is present, when that one is a string.
pub open spec fn first_present(a: Option<Option<Seq<char>>>, b: Option<Option<Seq<char>>>, e: Option<Option<Seq<char>>>) -> Option<Seq<char>> {
    match a {
        Some(t) => t,
        None => match b {
            Some(t) => t,
            None => match e {
                Some(t) => t,
                None => None,
            },
        },
    }
}

/// What a JSON reply holds: its `code` as an integer, and the text of the
/// first of `msg`, `message`, `error` that is present (when that one is a
/// string); `None` when the text is not JSON.
pub open spec fn json_reply_of(text: Seq<char>) -> Option<(Option<i64>, Option<Seq<char>>)> {
    match json_reply_fields(text) {
        Some((c, a, b, e)) => Some((c, first_present(a, b, e))),
        None => None,
    }
}

/// The code and message of a JSON reply (see `json_reply_of`).
pub(crate) fn json_reply(text: &str) -> (r: Option<(Option<i64>, Option<String>)>)
    ensures
        match r {
            Some((c, m)) => json_reply_of(text@) == Some(
                (
                    c,
                    match m {
                        Some(t) => Some(t@),
                        None => None,
                    },
                ),
            ),
            None => json_reply_of(text@) is None,
        },
{
    match parse_reply_fields(text) {
        None => None,
        Some((code, msg, message, error)) => {
            let chosen = match msg {
                Some(t) => t,
                None => match message {
                    Some(t) => t,
                    None => match error {
                        Some(t) => t,
                        None => None,
                    },
                },
            };
            Some((code, chosen))
        },
    }
}

/// The first `n` characters.
pub open spec fn take_chars(s: Seq<char>, n: int) -> Seq<char> {
    if s.len() <= n {
        s
    } else {
        s.subrange(0, n)
    }
}

/// The error text of a failed reply: the prefix, `: `, and the reply's
/// message or 未知错误.
pub open spec fn reply_error(prefix: Seq<char>, message: Option<Seq<char>>) -> Seq<char> {
    prefix + ": "@ + match message {
        Some(m) => m,
        None => "未知错误"@,
    }
}

/// The reply's business code means failure: PushPlus (and Bark where it
/// counts) want 200; ServerChan and PushDeer want 0 or 200; others are not
/// checked.
pub open spec fn code_fails(wants_200: bool, wants_0_or_200: bool, code: Option<i64>) -> bool {
    match code {
        Some(c) => (wants_200 && c != 200) || (wants_0_or_200 && c != 0 && c != 200),
        None => false,
    }
}

/// The verdict on a JSON body after a successful status.
pub open spec fn body_verdict(wants_200: bool, wants_0_or_200: bool, body: Seq<char>) -> Result<
    (),
    Seq<char>,
> {
    let t = trim(body);
    if t.len() == 0 {
        Ok(())
    } else {
        match json_reply_of(t) {
            None => Ok(()),
            Some((code, message)) => if code_fails(wants_200, wants_0_or_200, code) {
                Err(reply_error("推送服务返回失败"@, message))
            } else {
                Ok(())
            },
        }
    }
}

/// The verdict on a JSON body after a successful status.
pub fn body_check(wants_200: bool, wants_0_or_200: bool, body: &str) -> (r: Result<(), String>)
    ensures
        match body_verdict(wants_200, wants_0_or_200, body@) {
            Ok(_) => r is Ok,
            Err(m) => r matches Err(e) && e@ == m,
        },
{
    let b = chars_of(body);
    let t = trimmed(b.as_slice());
    if t.len() == 0 {
        return Ok(());
    }
    let ts = string_of(t.as_slice());
    match json_reply(ts.as_str()) {
        None => Ok(()),
        Some((code, message)) => {
            let fails = match code {
                Some(c) => (wants_200 && c != 200) || (wants_0_or_200 && c != 0 && c != 200),
                None => false,
            };
            if fails {
                let mut m = chars_of("推送服务返回失败: ");
                let tail = match message {
                    Some(x) => chars_of_string(&x),
                    None => chars_of("未知错误"),
                };
                append_chars(&mut m, tail.as_slice());
                proof {
                    reveal_strlit("推送服务返回失败: ");
                    reveal_strlit("推送服务返回失败");
                    reveal_strlit(": ");
                }
                Err(string_of(m.as_slice()))
            } else {
                Ok(())
            }
        },
    }
}

/// The verdict on a generic push service reply: a failed status reports it
/// with the first 200 characters of the body; otherwise the body's code
/// decides (see `body_verdict`).
pub fn check_push_provider_response(
    channel: ChannelType,
    status_ok: bool,
    status_text: &str,
    body: &str,
) -> (r: Result<(), String>)
    ensures
        !status_ok ==> (r matches Err(m) && m@ == "推送服务返回错误状态 "@ + status_text@ + " "@
            + take_chars(body@, 200)),
        status_ok ==> match body_verdict(
            channel == ChannelType::Pushplus,
            channel == ChannelType::Serverchan || channel == ChannelType::Pushdeer,
            body@,
        ) {
            Ok(_) => r is Ok,
            Err(m) => r matches Err(e) && e@ == m,
        },
{
    if !status_ok {
        let mut m = chars_of("推送服务返回错误状态 ");
        let s = chars_of(status_text);
        append_chars(&mut m, s.as_slice());
        let sp = chars_of(" ");
        append_chars(&mut m, sp.as_slice());
        let b = chars_of(body);
        let head = if b.len() <= 200 {
            b
        } else {
            sub_vec(b.as_slice(), 0, 200)
        };
        append_chars(&mut m, head.as_slice());
        return Err(string_of(m.as_slice()));
    }
    body_check(
        channel == ChannelType::Pushplus,
        channel == ChannelType::Serverchan || channel == ChannelType::Pushdeer,
        body,
    )
}

/// Whether a message of this kind is forwarded: a channel is chosen and
/// forwarding of the kind is on.
pub fn should_forward(config: &NotificationChannel, calls: bool) -> (r: bool)
    ensures
        r == (config.channel != ChannelType::Disabled && (if calls {
            config.forward_calls
        } else {
            config.forward_sms
        })),
{
    config.is_channel_enabled() && (if calls {
        config.forward_calls
    } else {
        config.forward_sms
    })
}

/// The SMS sent by a channel test, received now (`timestamp`).
pub fn test_sms(timestamp: String, content: &str) -> (r: SmsMessage)
    ensures
        r.id == 0,
        r.direction@ == "incoming"@,
        r.phone_number@ == "+8613800138000"@,
        r.content@ == content@,
        r.timestamp == timestamp,
        r.status@ == "received"@,
        r.pdu is None,
{
    SmsMessage {
        id: 0,
        direction: "incoming".to_owned(),
        phone_number: "+8613800138000".to_owned(),
        content: content.to_owned(),
        timestamp,
        status: "received".to_owned(),
        pdu: None,
    }
}

/// The message of a successful channel test.
pub fn test_success_message(channel: ChannelType) -> (r: String)
    ensures
        r@ == "Test message sent via "@ + channel_name(channel) + " successfully"@,
{
    let mut m = chars_of("Test message sent via ");
    let n = channel_debug_name(channel);
    let nv = chars_of_string(&n);
    append_chars(&mut m, nv.as_slice());
    let t = chars_of(" successfully");
    append_chars(&mut m, t.as_slice());
    string_of(m.as_slice())
}

} // verus!
