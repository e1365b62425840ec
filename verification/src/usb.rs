//! USB gadget modes of the module (1 NCM, 2 ECM, 3 RNDIS): the gadget
//! configuration of each mode, the functions and links it is built from, the
//! serial number and product name it announces, and the reading of the
//! current mode back from its vendor and product ids.

use vstd::prelude::*;
use vstd::string::*;
use crate::text::{
    append_chars, ascii_lower, ascii_lower_exec, chars_of,
    dec_string, find_exec, find_from, parse_uint, parse_uint_exec, push_dec,
    replace_all, replace_all_exec, string_of, sub_vec, trim, occurs_at, contains, contains_exec,
};
use crate::text::{split_char, split_of, seqs_of};
use crate::loader::{same_chars, trimmed, join, join_chars};
use crate::device::{lowercase_of, to_lowercase};
use crate::modem::{to_uppercase, uppercase_of};
use crate::text::{byte_len, byte_slice, split_at_byte};
use vstd::utf8::{encode_utf8, encode_utf8_valid_utf8, is_char_boundary, is_char_boundary_start_end_of_seq};

verus! {

/// Gadget settings of a USB mode.
pub struct UsbModeConfig {
    pub vid: &'static str,
    pub pid: &'static str,
    pub configuration: &'static str,
    pub pamu3_protocol: Option<&'static str>,
    pub functions: &'static str,
    pub bcd_device: &'static str,
    /// USB sharing must be on (RNDIS).
    pub usb_share_enable: bool,
}

/// The settings of a mode as texts: (vid, pid, configuration, IPA protocol,
/// network function, bcdDevice, USB sharing).
pub open spec fn mode_settings(mode: u8) -> Option<
    (Seq<char>, Seq<char>, Seq<char>, Option<Seq<char>>, Seq<char>, Seq<char>, bool),
> {
    if mode == 1 {
        Some(("0x1782"@, "0x4040"@, "ncm"@, Some("NCM"@), "ncm.gs0"@, "0x0404"@, false))
    } else if mode == 2 {
        Some(("0x1782"@, "0x4039"@, "ecm"@, None, "ecm.gs0"@, "0x0404"@, false))
    } else if mode == 3 {
        Some(("0x1782"@, "0x4038"@, "rndis"@, Some("RNDIS"@), "rndis.gs4"@, "0x0404"@, true))
    } else {
        None
    }
}

/// The settings of a configuration as texts.
pub open spec fn config_view(c: UsbModeConfig) -> (
    Seq<char>,
    Seq<char>,
    Seq<char>,
    Option<Seq<char>>,
    Seq<char>,
    Seq<char>,
    bool,
) {
    (
        c.vid@,
        c.pid@,
        c.configuration@,
        match c.pamu3_protocol {
            Some(p) => Some(p@),
            None => None,
        },
        c.functions@,
        c.bcd_device@,
        c.usb_share_enable,
    )
}

impl UsbModeConfig {
    /// The settings of mode 1, 2 or 3; `None` for any other mode.
    pub fn get(mode: u8) -> (r: Option<UsbModeConfig>)
        ensures
            match mode_settings(mode) {
                Some(s) => r matches Some(c) && config_view(c) == s,
                None => r is None,
            },
    {
        if mode == 1 {
            Some(
                UsbModeConfig {
                    vid: "0x1782",
                    pid: "0x4040",
                    configuration: "ncm",
                    pamu3_protocol: Some("NCM"),
                    functions: "ncm.gs0",
                    bcd_device: "0x0404",
                    usb_share_enable: false,
                },
            )
        } else if mode == 2 {
            Some(
                UsbModeConfig {
                    vid: "0x1782",
                    pid: "0x4039",
                    configuration: "ecm",
                    pamu3_protocol: None,
                    functions: "ecm.gs0",
                    bcd_device: "0x0404",
                    usb_share_enable: false,
                },
            )
        } else if mode == 3 {
            Some(
                UsbModeConfig {
                    vid: "0x1782",
                    pid: "0x4038",
                    configuration: "rndis",
                    pamu3_protocol: Some("RNDIS"),
                    functions: "rndis.gs4",
                    bcd_device: "0x0404",
                    usb_share_enable: true,
                },
            )
        } else {
            None
        }
    }
}

/// The refusal of a hot switch to an unknown mode.
pub open spec fn invalid_switch_message(mode: u8) -> Seq<char> {
    "Invalid USB mode: "@ + dec_string(mode as nat)
        + ". Valid modes: 1=NCM, 2=ECM, 3=RNDIS, 4=NCM(no ADB)"@
}

/// The settings of a mode to switch to, or the refusal of an unknown mode.
pub fn switch_config(mode: u8) -> (r: Result<UsbModeConfig, String>)
    ensures
        match mode_settings(mode) {
            Some(s) => r matches Ok(c) && config_view(c) == s,
            None => r matches Err(m) && m@ == invalid_switch_message(mode),
        },
{
    match UsbModeConfig::get(mode) {
        Some(c) => Ok(c),
        None => {
            let mut m = chars_of("Invalid USB mode: ");
            push_dec(&mut m, mode as u64);
            let t = chars_of(". Valid modes: 1=NCM, 2=ECM, 3=RNDIS, 4=NCM(no ADB)");
            append_chars(&mut m, t.as_slice());
            Err(string_of(m.as_slice()))
        },
    }
}

/// The AT command that turns USB sharing on or off.
pub open spec fn usb_share_command(enable: bool) -> Seq<char> {
    "AT+SPASENGMD=\"#dsm_usb_share_enable\","@ + (if enable {
        "1"@
    } else {
        "0"@
    })
}

/// The AT command that turns USB sharing on or off.
pub fn usb_share_at_command(enable: bool) -> (r: String)
    ensures
        r@ == usb_share_command(enable),
{
    let mut m = chars_of("AT+SPASENGMD=\"#dsm_usb_share_enable\",");
    let v = if enable {
        chars_of("1")
    } else {
        chars_of("0")
    };
    append_chars(&mut m, v.as_slice());
    string_of(m.as_slice())
}

/// The network functions removed before a switch.
pub open spec fn cdc_function_names() -> Seq<Seq<char>> {
    seq![
        "rndis.gs4"@,
        "ecm.gs0"@,
        "ecm.gs1"@,
        "ecm.gs2"@,
        "ecm.gs3"@,
        "ncm.gs0"@,
        "ncm.gs1"@,
        "ncm.gs2"@,
        "ncm.gs3"@,
        "mbim.gs0"@,
    ]
}

/// The serial and debug functions every mode has.
pub open spec fn gser_function_names() -> Seq<Seq<char>> {
    seq![
        "vser.gs0"@,
        "ffs.adb"@,
        "gser.gs0"@,
        "gser.gs1"@,
        "gser.gs2"@,
        "gser.gs3"@,
        "gser.gs4"@,
        "gser.gs5"@,
        "gser.gs6"@,
        "gser.gs7"@,
    ]
}

/// The texts of a list of string slices.
pub open spec fn strs_of(v: Seq<&'static str>) -> Seq<Seq<char>> {
    v.map_values(|s: &'static str| s@)
}

/// The network functions removed before a switch.
pub fn cdc_functions() -> (r: Vec<&'static str>)
    ensures
        strs_of(r@) == cdc_function_names(),
{
    let v: Vec<&'static str> = vec![
        "rndis.gs4",
        "ecm.gs0",
        "ecm.gs1",
        "ecm.gs2",
        "ecm.gs3",
        "ncm.gs0",
        "ncm.gs1",
        "ncm.gs2",
        "ncm.gs3",
        "mbim.gs0",
    ];
    assert(strs_of(v@) =~= cdc_function_names());
    v
}

/// The serial and debug functions every mode has.
pub fn gser_functions() -> (r: Vec<&'static str>)
    ensures
        strs_of(r@) == gser_function_names(),
{
    let v: Vec<&'static str> = vec![
        "vser.gs0",
        "ffs.adb",
        "gser.gs0",
        "gser.gs1",
        "gser.gs2",
        "gser.gs3",
        "gser.gs4",
        "gser.gs5",
        "gser.gs6",
        "gser.gs7",
    ];
    assert(strs_of(v@) =~= gser_function_names());
    v
}

/// The configuration links of a mode, as (function, link): f1 the network
/// function, then AT, diagnostic, virtual serial, serial, ADB and three more
/// serial channels.
pub open spec fn link_plan(functions: Seq<char>) -> Seq<(Seq<char>, Seq<char>)> {
    seq![
        (functions, "f1"@),
        ("gser.gs2"@, "f2"@),
        ("gser.gs0"@, "f3"@),
        ("vser.gs0"@, "f4"@),
        ("gser.gs3"@, "f5"@),
        ("ffs.adb"@, "f6"@),
        ("gser.gs4"@, "f7"@),
        ("gser.gs5"@, "f8"@),
        ("gser.gs6"@, "f9"@),
    ]
}

/// The texts of a list of pairs of string slices.
pub open spec fn pairs_of(v: Seq<(&'static str, &'static str)>) -> Seq<(Seq<char>, Seq<char>)> {
    v.map_values(|p: (&'static str, &'static str)| (p.0@, p.1@))
}

/// The configuration links of a mode.
pub fn function_links(config: &UsbModeConfig) -> (r: Vec<(&'static str, &'static str)>)
    ensures
        pairs_of(r@) == link_plan(config.functions@),
{
    let v: Vec<(&'static str, &'static str)> = vec![
        (config.functions, "f1"),
        ("gser.gs2", "f2"),
        ("gser.gs0", "f3"),
        ("vser.gs0", "f4"),
        ("gser.gs3", "f5"),
        ("ffs.adb", "f6"),
        ("gser.gs4", "f7"),
        ("gser.gs5", "f8"),
        ("gser.gs6", "f9"),
    ];
    assert(pairs_of(v@) =~= link_plan(config.functions@));
    v
}

/// A MAC address text as the serial number takes it: trimmed, colons
/// removed, upper-cased as `str::to_uppercase` does.
pub open spec fn mac_upper(mac: Seq<char>) -> Seq<char> {
    uppercase_of(replace_all(trim(mac), ":"@, ""@))
}

/// The serial number made from a MAC address text: `UDX`, the first 12
/// bytes of `mac_upper` and `1`, when it has that many bytes.
pub open spec fn serial_of_mac(mac: Seq<char>) -> Option<Seq<char>> {
    let m = mac_upper(mac);
    if encode_utf8(m).len() >= 12 {
        Some("UDX"@ + byte_slice(m, 0, 12) + "1"@)
    } else {
        None
    }
}

/// The first 12 bytes of `mac_upper` can be cut off: it is shorter, or its
/// byte 12 starts a character (always so on ASCII text).
pub open spec fn serial_cut_ok(mac: Seq<char>) -> bool {
    let b = encode_utf8(mac_upper(mac));
    b.len() >= 12 ==> is_char_boundary(b, 12)
}

fn upper_string(v: &Vec<char>) -> (r: String)
    ensures
        r@ == uppercase_of(v@),
{
    let s = string_of(v.as_slice());
    to_uppercase(s.as_str())
}

/// The serial number made from a MAC address text, if it is long enough.
pub fn serial_from_mac(mac: &str) -> (r: Option<String>)
    requires
        serial_cut_ok(mac@),
    ensures
        match serial_of_mac(mac@) {
            Some(s) => r matches Some(t) && t@ == s,
            None => r is None,
        },
{
    let raw = chars_of(mac);
    let t = trimmed(raw.as_slice());
    let colon = chars_of(":");
    let empty = chars_of("");
    proof {
        reveal_strlit(":");
        reveal_strlit("");
    }
    let no_colons = replace_all_exec(t.as_slice(), colon.as_slice(), empty.as_slice());
    let m = upper_string(&no_colons);
    if byte_len(m.as_str()) >= 12 {
        let (head, _) = split_at_byte(m.as_str(), 12);
        let mut out = chars_of("UDX");
        append_chars(&mut out, head.as_slice());
        let one = chars_of("1");
        append_chars(&mut out, one.as_slice());
        Some(string_of(out.as_slice()))
    } else {
        None
    }
}

/// The serial number used when no MAC address gives one.
pub open spec fn default_serial() -> Seq<char> {
    "UDXDEFAULT000000"@
}

/// A device tree model text trimmed and upper-cased as `str::to_uppercase`
/// does.
pub open spec fn model_upper(model: Seq<char>) -> Seq<char> {
    uppercase_of(trim(model))
}

/// The model id read from a device tree model text (see `model_upper`):
/// from the first `UDX`, its first 7 bytes with underscores removed, or 6
/// when only that many remain; else `U710` when the text holds `710`; else
/// none.
pub open spec fn model_id_of(model: Seq<char>) -> Option<Seq<char>> {
    let m = model_upper(model);
    let from_udx = match find_from(m, "UDX"@, 0) {
        Some(pos) => {
            let rest = m.subrange(pos, m.len() as int);
            let b = encode_utf8(rest).len();
            if b >= 7 {
                Some(replace_all(byte_slice(rest, 0, 7), "_"@, ""@))
            } else if b >= 6 {
                Some(byte_slice(rest, 0, 6))
            } else {
                None
            }
        },
        None => None,
    };
    match from_udx {
        Some(id) => Some(id),
        None => if contains(m, "710"@) {
            Some("U710"@)
        } else {
            None
        },
    }
}

/// The first 7 bytes from the first `UDX` of `model_upper` can be cut off:
/// there is no `UDX`, fewer bytes follow it, or byte 7 from it starts a
/// character (always so on ASCII text).
pub open spec fn model_cut_ok(model: Seq<char>) -> bool {
    let m = model_upper(model);
    match find_from(m, "UDX"@, 0) {
        Some(pos) => {
            let b = encode_utf8(m.subrange(pos, m.len() as int));
            b.len() >= 7 ==> is_char_boundary(b, 7)
        },
        None => true,
    }
}

/// The model id read from a device tree model text, if it names one.
pub fn hardware_id_from_model(model: &str) -> (r: Option<String>)
    requires
        model_cut_ok(model@),
    ensures
        match model_id_of(model@) {
            Some(s) => r matches Some(t) && t@ == s,
            None => r is None,
        },
{
    let raw = chars_of(model);
    let t = trimmed(raw.as_slice());
    let ms = upper_string(&t);
    let m = chars_of(ms.as_str());
    let udx = chars_of("UDX");
    proof {
        reveal_strlit("UDX");
        reveal_strlit("_");
        reveal_strlit("");
        reveal_strlit("710");
    }
    match find_exec(m.as_slice(), udx.as_slice(), 0) {
        Some(pos) => {
            let rest_chars = sub_vec(m.as_slice(), pos, m.len());
            let rest = string_of(rest_chars.as_slice());
            let b = byte_len(rest.as_str());
            if b >= 7 {
                let (head, _) = split_at_byte(rest.as_str(), 7);
                let us = chars_of("_");
                let empty = chars_of("");
                let id = replace_all_exec(head.as_slice(), us.as_slice(), empty.as_slice());
                return Some(string_of(id.as_slice()));
            } else if b >= 6 {
                proof {
                    encode_utf8_valid_utf8(rest@);
                    is_char_boundary_start_end_of_seq(encode_utf8(rest@));
                }
                let (head, _) = split_at_byte(rest.as_str(), 6);
                return Some(string_of(head.as_slice()));
            }
        },
        None => {},
    }
    let n710 = chars_of("710");
    if contains_exec(m.as_slice(), n710.as_slice()) {
        Some("U710".to_owned())
    } else {
        None
    }
}

/// The model id used when the device tree names none.
pub open spec fn default_model_id() -> Seq<char> {
    "UDX7"@
}

/// The last 4 bytes of a serial number, or, when it has fewer, the number
/// padded with zeros to 4 bytes (the first 4 bytes of the number padded to
/// 4 characters).
pub open spec fn serial_suffix(sn: Seq<char>) -> Seq<char> {
    let b = encode_utf8(sn).len();
    if b >= 4 {
        byte_slice(sn, b - 4, b as int)
    } else {
        sn + "0000"@.subrange(0, 4 - b)
    }
}

/// The USB product name: `unisoc-5g-modem-<model id>00<serial suffix>`.
pub open spec fn product_name_of(sn: Seq<char>, model_id: Seq<char>) -> Seq<char> {
    "unisoc-5g-modem-"@ + model_id + "00"@ + serial_suffix(sn)
}

/// The last 4 bytes of the serial number can be cut off: it is shorter, or
/// its fourth byte from the end starts a character (always so on ASCII text).
pub open spec fn suffix_cut_ok(sn: Seq<char>) -> bool {
    let b = encode_utf8(sn);
    b.len() >= 4 ==> is_char_boundary(b, b.len() - 4)
}

/// The USB product name of a serial number and a model id.
pub fn generate_product_name(sn: &str, model_id: &str) -> (r: String)
    requires
        suffix_cut_ok(sn@),
    ensures
        r@ == product_name_of(sn@, model_id@),
{
    let n = byte_len(sn);
    let suffix = if n >= 4 {
        let (_, tail) = split_at_byte(sn, n - 4);
        tail
    } else {
        let mut padded = chars_of(sn);
        let zeros = chars_of("0000");
        proof {
            reveal_strlit("0000");
        }
        let pad = sub_vec(zeros.as_slice(), 0, 4 - n);
        append_chars(&mut padded, pad.as_slice());
        padded
    };
    let mut out = chars_of("unisoc-5g-modem-");
    let id = chars_of(model_id);
    append_chars(&mut out, id.as_slice());
    let z = chars_of("00");
    append_chars(&mut out, z.as_slice());
    append_chars(&mut out, suffix.as_slice());
    string_of(out.as_slice())
}

/// The host side MAC address of the device MAC address: its last
/// colon-separated part replaced by `01`, in lower case as
/// `str::to_lowercase` gives it (the ASCII lower case on ASCII text).
pub open spec fn host_mac_of(mac: Seq<char>) -> Seq<char> {
    let parts = split_char(mac, ':');
    lowercase_of(join(parts.update(parts.len() - 1, seq!['0', '1']), seq![':']))
}

/// The host side MAC address of the device MAC address.
pub fn host_mac_address(mac: &str) -> (r: String)
    ensures
        r@ == host_mac_of(mac@),
{
    let m = chars_of(mac);
    let mut parts = split_of(m.as_slice(), ':');
    let last = parts.len() - 1;
    let ghost before = seqs_of(parts@);
    parts.set(last, vec!['0', '1']);
    assert(seqs_of(parts@) =~= before.update(last as int, seq!['0', '1']));
    let joined = join_chars(&parts, ':');
    let js = string_of(joined.as_slice());
    to_lowercase(js.as_str())
}

/// The mode of the gadget's vendor and product ids (as read, trimmed, in
/// lower case): the main product ids of each mode and the older NCM
/// (4107, 4105, 4103, 4101) and ECM (4106, 4104, 4102, 4100) ones.
pub open spec fn mode_of_ids(vid: Seq<char>, pid: Seq<char>) -> Option<u8> {
    let v = ascii_lower(trim(vid));
    let p = ascii_lower(trim(pid));
    if v != "0x1782"@ {
        None
    } else if p == "0x4040"@ || p == "0x4107"@ || p == "0x4105"@ || p == "0x4103"@ || p
        == "0x4101"@ {
        Some(1)
    } else if p == "0x4039"@ || p == "0x4106"@ || p == "0x4104"@ || p == "0x4102"@ || p
        == "0x4100"@ {
        Some(2)
    } else if p == "0x4038"@ {
        Some(3)
    } else {
        None
    }
}

fn is_text(v: &Vec<char>, lit: &str) -> (r: bool)
    ensures
        r == (v@ == lit@),
{
    let l = chars_of(lit);
    same_chars(v.as_slice(), l.as_slice())
}

/// The mode of the gadget's vendor and product id texts, when they name one.
pub fn mode_from_ids(vid: &str, pid: &str) -> (r: Option<u8>)
    ensures
        r == mode_of_ids(vid@, pid@),
{
    let vr = chars_of(vid);
    let vt = trimmed(vr.as_slice());
    let v = ascii_lower_exec(vt.as_slice());
    let pr = chars_of(pid);
    let pt = trimmed(pr.as_slice());
    let p = ascii_lower_exec(pt.as_slice());
    if !is_text(&v, "0x1782") {
        None
    } else if is_text(&p, "0x4040") || is_text(&p, "0x4107") || is_text(&p, "0x4105") || is_text(
        &p,
        "0x4103",
    ) || is_text(&p, "0x4101") {
        Some(1)
    } else if is_text(&p, "0x4039") || is_text(&p, "0x4106") || is_text(&p, "0x4104") || is_text(
        &p,
        "0x4102",
    ) || is_text(&p, "0x4100") {
        Some(2)
    } else if is_text(&p, "0x4038") {
        Some(3)
    } else {
        None
    }
}

/// The mode stored in a mode file: its trimmed text as a `u8` from 1 to 3.
pub open spec fn stored_mode(text: Seq<char>) -> Option<u8> {
    match parse_uint(trim(text), 10, 255) {
        Some(m) => if 1 <= m <= 3 {
            Some(m as u8)
        } else {
            None
        },
        None => None,
    }
}

/// The mode stored in a mode file, if valid.
pub fn parse_mode_file(text: &str) -> (r: Option<u8>)
    ensures
        r == stored_mode(text@),
{
    let raw = chars_of(text);
    let t = trimmed(raw.as_slice());
    match parse_uint_exec(t.as_slice(), 10, 255) {
        Some(m) => if 1 <= m && m <= 3 {
            Some(m as u8)
        } else {
            None
        },
        None => None,
    }
}

/// The content written to a mode file: the mode and a line feed; or the
/// refusal of a mode other than 1 to 3.
pub fn usb_mode_file_content(mode: u8) -> (r: Result<String, String>)
    ensures
        1 <= mode <= 3 ==> (r matches Ok(t) && t@ == dec_string(mode as nat) + "\n"@),
        !(1 <= mode <= 3) ==> (r matches Err(m) && m@ == "Invalid USB mode: "@ + dec_string(
            mode as nat,
        ) + ". Valid modes: 1=NCM, 2=ECM, 3=RNDIS"@),
{
    if 1 <= mode && mode <= 3 {
        let mut t: Vec<char> = Vec::new();
        push_dec(&mut t, mode as u64);
        let nl = chars_of("\n");
        append_chars(&mut t, nl.as_slice());
        Ok(string_of(t.as_slice()))
    } else {
        let mut m = chars_of("Invalid USB mode: ");
        push_dec(&mut m, mode as u64);
        let t = chars_of(". Valid modes: 1=NCM, 2=ECM, 3=RNDIS");
        append_chars(&mut m, t.as_slice());
        Err(string_of(m.as_slice()))
    }
}

/// Display name of a USB mode.
pub open spec fn mode_name(mode: Option<u8>) -> Seq<char> {
    match mode {
        Some(1) => "CDC-NCM"@,
        Some(2) => "CDC-ECM"@,
        Some(3) => "RNDIS"@,
        _ => "Unknown"@,
    }
}

/// The display name of a USB mode.
pub fn get_mode_name(mode: Option<u8>) -> (r: String)
    ensures
        r@ == mode_name(mode),
{
    match mode {
        Some(1) => "CDC-NCM".to_owned(),
        Some(2) => "CDC-ECM".to_owned(),
        Some(3) => "RNDIS".to_owned(),
        _ => "Unknown".to_owned(),
    }
}

/// The current USB mode as read from the hardware.
pub struct UsbModeResult {
    pub mode: u8,
}

/// The current and configured USB modes.
pub struct UsbModeConfigResult {
    pub current_mode: Option<u8>,
    pub permanent_mode: Option<u8>,
    pub temporary_mode: Option<u8>,
}

} // verus!
