//! Modem answers and operator rules: the APN recommended for a Chinese
//! operator, whether an AT answer reports a failure, the QoS and SIM slot
//! readings, and the texts of the SIM slot switch.

use vstd::prelude::*;
use vstd::string::*;
use crate::text::{
    append_chars, chars_of, chars_of_string, contains, contains_exec, dec_string, index_of_char,
    lines, lines_of, parse_uint, parse_uint_exec, push_dec, seqs_of, split_char, split_of,
    starts_with, starts_with_exec, string_of, sub_vec, trim, is_ascii_text, ascii_upper,
    find_char_from,
};
use crate::loader::{same_chars, trimmed};
use crate::models::{QosInfoResponse, SimSlotResponse};

verus! {

// ---------------------------------------------------------------- APN

/// The APN and protocol of the Chinese operators (MCC 460): China Mobile
/// (00, 02, 07, 08), China Unicom (01, 06, 09), China Telecom (03, 05, 11)
/// and China Broadnet (15).
pub open spec fn recommended_apn(mcc: Seq<char>, mnc: Seq<char>) -> Option<(Seq<char>, Seq<char>)> {
    if mcc != "460"@ {
        None
    } else if mnc == "00"@ || mnc == "02"@ || mnc == "07"@ || mnc == "08"@ {
        Some(("cmnet"@, "dual"@))
    } else if mnc == "01"@ || mnc == "06"@ || mnc == "09"@ {
        Some(("3gnet"@, "dual"@))
    } else if mnc == "03"@ || mnc == "05"@ || mnc == "11"@ {
        Some(("ctnet"@, "dual"@))
    } else if mnc == "15"@ {
        Some(("cbnet"@, "dual"@))
    } else {
        None
    }
}

fn text_is(v: &Vec<char>, lit: &str) -> (r: bool)
    ensures
        r == (v@ == lit@),
{
    let l = chars_of(lit);
    same_chars(v.as_slice(), l.as_slice())
}

/// The recommended APN and protocol of an operator, if it is known.
pub fn get_recommended_apn(mcc: &str, mnc: &str) -> (r: Option<(&'static str, &'static str)>)
    ensures
        match recommended_apn(mcc@, mnc@) {
            Some((a, p)) => r matches Some((x, y)) && x@ == a && y@ == p,
            None => r is None,
        },
{
    let c = chars_of(mcc);
    let n = chars_of(mnc);
    if !text_is(&c, "460") {
        None
    } else if text_is(&n, "00") || text_is(&n, "02") || text_is(&n, "07") || text_is(&n, "08") {
        Some(("cmnet", "dual"))
    } else if text_is(&n, "01") || text_is(&n, "06") || text_is(&n, "09") {
        Some(("3gnet", "dual"))
    } else if text_is(&n, "03") || text_is(&n, "05") || text_is(&n, "11") {
        Some(("ctnet", "dual"))
    } else if text_is(&n, "15") {
        Some(("cbnet", "dual"))
    } else {
        None
    }
}

/// What APN configuration does for the operator read from the network:
/// refused without operator codes, or for an operator without a
/// recommendation; else the APN and protocol to set.
pub open spec fn apn_choice(codes: Option<(Seq<char>, Seq<char>)>) -> Result<(Seq<char>, Seq<char>), Seq<char>> {
    match codes {
        None => Err("MCC/MNC not available"@),
        Some((mcc, mnc)) => match recommended_apn(mcc, mnc) {
            Some(p) => Ok(p),
            None => Err("No recommended APN for MCC="@ + mcc + " MNC="@ + mnc),
        },
    }
}

/// The APN and protocol to set for the operator, or why there is none.
pub fn choose_apn(codes: Option<(&str, &str)>) -> (r: Result<(&'static str, &'static str), String>)
    ensures
        match apn_choice(match codes {
            Some((a, b)) => Some((a@, b@)),
            None => None,
        }) {
            Ok((a, p)) => r matches Ok((x, y)) && x@ == a && y@ == p,
            Err(m) => r matches Err(e) && e@ == m,
        },
{
    match codes {
        None => Err("MCC/MNC not available".to_owned()),
        Some((mcc, mnc)) => match get_recommended_apn(mcc, mnc) {
            Some(p) => Ok(p),
            None => {
                let mut m = chars_of("No recommended APN for MCC=");
                let a = chars_of(mcc);
                append_chars(&mut m, a.as_slice());
                let b = chars_of(" MNC=");
                append_chars(&mut m, b.as_slice());
                let c = chars_of(mnc);
                append_chars(&mut m, c.as_slice());
                Err(string_of(m.as_slice()))
            },
        },
    }
}

/// The message after configuring an APN: `Auto-configured APN: <apn> (<protocol>)`.
pub fn apn_configured_message(apn: &str, protocol: &str) -> (r: String)
    ensures
        r@ == "Auto-configured APN: "@ + apn@ + " ("@ + protocol@ + ")"@,
{
    let mut m = chars_of("Auto-configured APN: ");
    let a = chars_of(apn);
    append_chars(&mut m, a.as_slice());
    let b = chars_of(" (");
    append_chars(&mut m, b.as_slice());
    let c = chars_of(protocol);
    append_chars(&mut m, c.as_slice());
    let d = chars_of(")");
    append_chars(&mut m, d.as_slice());
    string_of(m.as_slice())
}

/// Operator codes as read from the registration: both must be non-empty.
pub fn operator_codes(mcc: String, mnc: String) -> (r: Option<(String, String)>)
    ensures
        (mcc@.len() == 0 || mnc@.len() == 0) ==> r is None,
        (mcc@.len() > 0 && mnc@.len() > 0) ==> r == Some((mcc, mnc)),
{
    if mcc.as_str().unicode_len() == 0 || mnc.as_str().unicode_len() == 0 {
        None
    } else {
        Some((mcc, mnc))
    }
}

// ---------------------------------------------------------------- AT answers

/// The text in upper case as `str::to_uppercase` gives it.
pub uninterp spec fn uppercase_of(s: Seq<char>) -> Seq<char>;

/// std `str::to_uppercase`: the Unicode upper-case mapping, only named here;
/// on ASCII text it is the ASCII upper case, as its documentation says.
#[verifier::external_body]
pub(crate) fn to_uppercase(s: &str) -> (r: String)
    ensures
        r@ == uppercase_of(s@),
        is_ascii_text(s@) ==> r@ == ascii_upper(s@),
{
    s.to_uppercase()
}

/// An AT answer reports failure: it is blank, or, in upper case, it holds
/// `ERROR` or `NO CARRIER`. Anything else (`OK`, an echo) is success.
pub open spec fn at_failed(response: Seq<char>) -> bool {
    let t = trim(response);
    t.len() == 0 || contains(uppercase_of(t), "ERROR"@) || contains(uppercase_of(t), "NO CARRIER"@)
}

/// Whether an AT answer reports failure.
pub fn at_response_failed(response: &str) -> (r: bool)
    ensures
        r == at_failed(response@),
{
    let v = chars_of(response);
    let t = trimmed(v.as_slice());
    if t.len() == 0 {
        return true;
    }
    let ts = string_of(t.as_slice());
    let upper = to_uppercase(ts.as_str());
    let u = chars_of_string(&upper);
    let e = chars_of("ERROR");
    let n = chars_of("NO CARRIER");
    contains_exec(u.as_slice(), e.as_slice()) || contains_exec(u.as_slice(), n.as_slice())
}

// ---------------------------------------------------------------- QoS

/// A field as `str::parse::<u32>` reads it (trimmed), or 0.
pub open spec fn u32_or_zero(f: Seq<char>) -> u32 {
    match parse_uint(trim(f), 10, u32::MAX as int) {
        Some(v) => v as u32,
        None => 0,
    }
}

/// The first non-zero of guaranteed, maximum and aggregate rate.
pub open spec fn first_rate(gbr: u32, mbr: u32, ambr: u32) -> u32 {
    if gbr > 0 {
        gbr
    } else if mbr > 0 {
        mbr
    } else {
        ambr
    }
}

/// Reading of a `+CGEQOSRDP:` answer: the first line that, trimmed, starts
/// with the prefix and has at least 8 comma fields after it gives the QCI
/// (field 1 as `u8`, else 0) and the downlink and uplink rates (the first
/// non-zero of fields 2/4/6 and 3/5/7); `None` when no line does.
pub open spec fn qos_reading(ls: Seq<Seq<char>>) -> Option<(u8, u32, u32)>
    decreases ls.len(),
{
    if ls.len() == 0 {
        None
    } else {
        let line = trim(ls[0]);
        let parts = split_char(trim(line.subrange(11, line.len() as int)), ',');
        if starts_with(line, "+CGEQOSRDP:"@) && parts.len() >= 8 {
            Some(
                (
                    match parse_uint(trim(parts[1]), 10, 255) {
                        Some(v) => v as u8,
                        None => 0u8,
                    },
                    first_rate(u32_or_zero(parts[2]), u32_or_zero(parts[4]), u32_or_zero(parts[6])),
                    first_rate(u32_or_zero(parts[3]), u32_or_zero(parts[5]), u32_or_zero(parts[7])),
                ),
            )
        } else {
            qos_reading(ls.drop_first())
        }
    }
}

fn u32_field(f: &Vec<char>) -> (r: u32)
    ensures
        r == u32_or_zero(f@),
{
    let t = trimmed(f.as_slice());
    match parse_uint_exec(t.as_slice(), 10, 4294967295) {
        Some(v) => v,
        None => 0,
    }
}

/// The QoS of an `AT+CGEQOSRDP` answer; all zero with the raw answer when
/// no line reads.
pub fn parse_qos_response(response: &str) -> (r: QosInfoResponse)
    ensures
        match qos_reading(lines(response@)) {
            Some((q, dl, ul)) => r.qci == q && r.dl_speed == dl && r.ul_speed == ul
                && r.raw_response is None,
            None => r.qci == 0 && r.dl_speed == 0 && r.ul_speed == 0 && (r.raw_response matches Some(
                t,
            ) && t@ == response@),
        },
{
    let v = chars_of(response);
    let ls = lines_of(v.as_slice());
    let prefix = chars_of("+CGEQOSRDP:");
    proof {
        reveal_strlit("+CGEQOSRDP:");
    }
    let ghost all = seqs_of(ls@);
    let mut i: usize = 0;
    assert(all.subrange(0, all.len() as int) =~= all);
    while i < ls.len()
        invariant
            i <= ls@.len(),
            all == seqs_of(ls@),
            all == lines(response@),
            prefix@ == "+CGEQOSRDP:"@,
            prefix@.len() == 11,
            qos_reading(all) == qos_reading(all.subrange(i as int, all.len() as int)),
        decreases ls@.len() - i,
    {
        let ghost rest = all.subrange(i as int, all.len() as int);
        assert(rest[0] == ls@[i as int]@);
        assert(rest.drop_first() =~= all.subrange(i + 1, all.len() as int));
        let line = trimmed(ls[i].as_slice());
        if starts_with_exec(line.as_slice(), prefix.as_slice()) {
            let data = sub_vec(line.as_slice(), 11, line.len());
            let dt = trimmed(data.as_slice());
            let parts = split_of(dt.as_slice(), ',');
            if parts.len() >= 8 {
                proof {
                    assert forall|k: int| 0 <= k < parts@.len() implies seqs_of(parts@)[k]
                        == #[trigger] parts@[k]@ by {}
                }
                let q1 = trimmed(parts[1].as_slice());
                let qci: u8 = match parse_uint_exec(q1.as_slice(), 10, 255) {
                    Some(x) => x as u8,
                    None => 0,
                };
                let dl_gbr = u32_field(&parts[2]);
                let ul_gbr = u32_field(&parts[3]);
                let dl_mbr = u32_field(&parts[4]);
                let ul_mbr = u32_field(&parts[5]);
                let dl_ambr = u32_field(&parts[6]);
                let ul_ambr = u32_field(&parts[7]);
                let dl = if dl_gbr > 0 {
                    dl_gbr
                } else if dl_mbr > 0 {
                    dl_mbr
                } else {
                    dl_ambr
                };
                let ul = if ul_gbr > 0 {
                    ul_gbr
                } else if ul_mbr > 0 {
                    ul_mbr
                } else {
                    ul_ambr
                };
                return QosInfoResponse { qci, dl_speed: dl, ul_speed: ul, raw_response: None };
            }
        }
        i = i + 1;
    }
    QosInfoResponse { qci: 0, dl_speed: 0, ul_speed: 0, raw_response: Some(response.to_owned()) }
}

// ---------------------------------------------------------------- SIM slot

/// The first line holding `p`.
pub open spec fn first_containing(ls: Seq<Seq<char>>, p: Seq<char>) -> Option<Seq<char>>
    decreases ls.len(),
{
    if ls.len() == 0 {
        None
    } else if contains(ls[0], p) {
        Some(ls[0])
    } else {
        first_containing(ls.drop_first(), p)
    }
}

/// The slot value of an `AT+SPCONFIGSIMSLOT?` answer: after the first colon
/// of the first line holding `+SPCONFIGSIMSLOT:`, trimmed; empty without one.
pub open spec fn slot_raw_value(response: Seq<char>) -> Seq<char> {
    match first_containing(lines(response), "+SPCONFIGSIMSLOT:"@) {
        Some(line) => {
            let k = index_of_char(line, ':');
            if k < 0 {
                ""@
            } else {
                trim(line.subrange(k + 1, line.len() as int))
            }
        },
        None => ""@,
    }
}

/// The slot a value means: 66051 slot 1, 66306 slot 2, anything else 0
/// (unknown).
pub open spec fn slot_of_value(raw: Seq<char>) -> u8 {
    match parse_uint(raw, 10, u32::MAX as int) {
        Some(v) => if v == 66051 {
            1
        } else if v == 66306 {
            2
        } else {
            0
        },
        None => 0,
    }
}

fn find_line_containing(ls: &Vec<Vec<char>>, p: &[char]) -> (r: Option<usize>)
    ensures
        match r {
            Some(i) => i < ls@.len() && first_containing(seqs_of(ls@), p@) == Some(ls@[i as int]@),
            None => first_containing(seqs_of(ls@), p@) is None,
        },
{
    let ghost all = seqs_of(ls@);
    let mut i: usize = 0;
    assert(all.subrange(0, all.len() as int) =~= all);
    while i < ls.len()
        invariant
            i <= ls@.len(),
            all == seqs_of(ls@),
            first_containing(all, p@) == first_containing(all.subrange(i as int, all.len() as int), p@),
        decreases ls@.len() - i,
    {
        let ghost rest = all.subrange(i as int, all.len() as int);
        assert(rest[0] == ls@[i as int]@);
        if contains_exec(ls[i].as_slice(), p) {
            return Some(i);
        }
        assert(rest.drop_first() =~= all.subrange(i + 1, all.len() as int));
        i = i + 1;
    }
    None
}

/// The active SIM slot read from an `AT+SPCONFIGSIMSLOT?` answer.
pub fn parse_sim_slot(response: &str) -> (r: SimSlotResponse)
    ensures
        r.raw_value@ == slot_raw_value(response@),
        r.active_slot == slot_of_value(slot_raw_value(response@)),
{
    let v = chars_of(response);
    let ls = lines_of(v.as_slice());
    let key = chars_of("+SPCONFIGSIMSLOT:");
    let found = find_line_containing(&ls, key.as_slice());
    let raw: Vec<char> = match found {
        Some(k) => {
            let line = &ls[k];
            let c = find_char_from(line.as_slice(), ':', 0);
            proof {
                assert(line@.subrange(0, line@.len() as int) =~= line@);
            }
            if c == line.len() {
                Vec::new()
            } else {
                let after = sub_vec(line.as_slice(), c + 1, line.len());
                trimmed(after.as_slice())
            }
        },
        None => Vec::new(),
    };
    proof {
        reveal_strlit("");
    }
    let raw_value = string_of(raw.as_slice());
    let active_slot: u8 = match parse_uint_exec(raw.as_slice(), 10, 4294967295) {
        Some(x) => if x == 66051 {
            1
        } else if x == 66306 {
            2
        } else {
            0
        },
        None => 0,
    };
    SimSlotResponse { active_slot, raw_value }
}

/// The switch command of a slot: `AT+SPCONFIGSIMSLOT=66051` for slot 1,
/// `=66306` for slot 2; other slots are refused.
pub fn sim_slot_command(slot: u8) -> (r: Result<String, String>)
    ensures
        slot == 1 ==> (r matches Ok(c) && c@ == "AT+SPCONFIGSIMSLOT=66051"@),
        slot == 2 ==> (r matches Ok(c) && c@ == "AT+SPCONFIGSIMSLOT=66306"@),
        slot != 1 && slot != 2 ==> (r matches Err(m) && m@ == "Invalid slot number, must be 1 or 2"@),
{
    if slot == 1 {
        Ok("AT+SPCONFIGSIMSLOT=66051".to_owned())
    } else if slot == 2 {
        Ok("AT+SPCONFIGSIMSLOT=66306".to_owned())
    } else {
        Err("Invalid slot number, must be 1 or 2".to_owned())
    }
}

/// The refusal of a slot switch the modem rejected, with its trimmed answer.
pub fn slot_rejected_message(response: &str) -> (r: String)
    ensures
        r@ == "Modem rejected SIM slot switch (response: "@ + trim(response@) + ")"@,
{
    let mut m = chars_of("Modem rejected SIM slot switch (response: ");
    let v = chars_of(response);
    let t = trimmed(v.as_slice());
    append_chars(&mut m, t.as_slice());
    let c = chars_of(")");
    append_chars(&mut m, c.as_slice());
    string_of(m.as_slice())
}

/// The step noted when the modem accepted a slot switch.
pub fn slot_accepted_note(slot: u8) -> (r: String)
    ensures
        r@ == "slot "@ + dec_string(slot as nat) + " command accepted"@,
{
    let mut m = chars_of("slot ");
    push_dec(&mut m, slot as u64);
    let t = chars_of(" command accepted");
    append_chars(&mut m, t.as_slice());
    string_of(m.as_slice())
}

/// The steps of a slot switch joined by `; `.
pub fn join_steps(steps: &Vec<String>) -> (r: String)
    ensures
        r@ == crate::text::join_with(crate::text::strs_view(steps@), "; "@),
{
    let mut out: Vec<char> = Vec::new();
    if steps.len() == 0 {
        return string_of(out.as_slice());
    }
    let sep = chars_of("; ");
    let first = chars_of_string(&steps[0]);
    append_chars(&mut out, first.as_slice());
    let mut i: usize = 1;
    assert(crate::text::strs_view(steps@).subrange(0, 1) =~= seq![steps@[0]@]);
    while i < steps.len()
        invariant
            1 <= i <= steps@.len(),
            sep@ == "; "@,
            out@ == crate::text::join_with(crate::text::strs_view(steps@).subrange(0, i as int), "; "@),
        decreases steps@.len() - i,
    {
        let ghost prev = crate::text::strs_view(steps@).subrange(0, i as int);
        append_chars(&mut out, sep.as_slice());
        let next = chars_of_string(&steps[i]);
        append_chars(&mut out, next.as_slice());
        assert(crate::text::strs_view(steps@).subrange(0, i + 1).drop_last() =~= prev);
        assert(out@ =~= crate::text::join_with(prev, "; "@) + "; "@ + steps@[i as int]@);
        i = i + 1;
    }
    assert(crate::text::strs_view(steps@).subrange(0, steps@.len() as int) =~= crate::text::strs_view(steps@));
    string_of(out.as_slice())
}

// ---------------------------------------------------------------- start-up connection

/// What start-up does with the internet context.
pub enum InitDecision {
    /// Already active: nothing to do, with this message.
    AlreadyActive(String),
    /// No APN set: leave it, with this message.
    NoApn(String),
    /// Activate it.
    Activate,
}

/// The start-up decision for the context at `path` with APN `apn`: an
/// active context is left as it is, one without APN is skipped, any other
/// is activated.
pub fn init_decision(path: &str, active: bool, apn: &str) -> (r: InitDecision)
    ensures
        active ==> (r matches InitDecision::AlreadyActive(m) && m@ == "Data connection already active ("@
            + path@ + ")"@),
        !active && apn@.len() == 0 ==> (r matches InitDecision::NoApn(m) && m@ == "APN not configured on "@
            + path@ + ", skipping auto-connect"@),
        !active && apn@.len() > 0 ==> r is Activate,
{
    if active {
        let mut m = chars_of("Data connection already active (");
        let p = chars_of(path);
        append_chars(&mut m, p.as_slice());
        let c = chars_of(")");
        append_chars(&mut m, c.as_slice());
        return InitDecision::AlreadyActive(string_of(m.as_slice()));
    }
    if apn.unicode_len() == 0 {
        let mut m = chars_of("APN not configured on ");
        let p = chars_of(path);
        append_chars(&mut m, p.as_slice());
        let c = chars_of(", skipping auto-connect");
        append_chars(&mut m, c.as_slice());
        return InitDecision::NoApn(string_of(m.as_slice()));
    }
    InitDecision::Activate
}

} // verus!
