//! Decoding of received SMS in PDU form (hex text): sender number, user data
//! header of concatenated messages, and UCS-2 (UTF-16BE) content. A text
//! whose trimmed, upper-cased form is under 20 bytes is refused at once; a
//! longer one is read by byte offsets, which are character positions only on
//! ASCII text, so a longer text is taken when its trimmed form is ASCII.

use vstd::prelude::*;
use vstd::string::*;
use crate::text::{
    ascii_upper, char_from_u32, chars_of, is_ascii_text, is_scalar, parse_uint,
    parse_uint_exec, string_of, sub_vec, trim,
};
use crate::loader::trimmed;
use crate::modem::{to_uppercase, uppercase_of};
use vstd::utf8::{encode_utf8, encode_scalar};

verus! {

/// A decoded PDU.
pub struct PduDecodeResult {
    pub sender: String,
    pub content: String,
    pub is_multipart: bool,
    pub reference: u8,
    pub total_parts: u8,
    pub part_number: u8,
}

/// The values of a decoded PDU.
pub ghost struct PduView {
    pub sender: Seq<char>,
    pub content: Seq<char>,
    pub is_multipart: bool,
    pub reference: u8,
    pub total_parts: u8,
    pub part_number: u8,
}

/// The values of a decode result.
pub open spec fn pdu_view(r: PduDecodeResult) -> PduView {
    PduView {
        sender: r.sender@,
        content: r.content@,
        is_multipart: r.is_multipart,
        reference: r.reference,
        total_parts: r.total_parts,
        part_number: r.part_number,
    }
}

/// Digits of a semi-octet (BCD) number: each pair of characters gives its
/// second then its first, an `F` (filler) left out; a last unpaired
/// character is dropped.
pub open spec fn bcd_digits(h: Seq<char>) -> Seq<char>
    decreases h.len(),
{
    if h.len() < 2 {
        seq![]
    } else {
        let second = if h[1] == 'F' || h[1] == 'f' {
            seq![]
        } else {
            seq![h[1]]
        };
        let first = if h[0] == 'F' || h[0] == 'f' {
            seq![]
        } else {
            seq![h[0]]
        };
        second + first + bcd_digits(h.subrange(2, h.len() as int))
    }
}

/// The bytes of hex pairs, pairs that do not parse left out.
pub open spec fn hex_bytes(h: Seq<char>) -> Seq<u8>
    decreases h.len(),
{
    if h.len() < 2 {
        seq![]
    } else {
        let rest = hex_bytes(h.subrange(2, h.len() as int));
        match parse_uint(h.subrange(0, 2), 16, 255) {
            Some(b) => seq![b as u8] + rest,
            None => rest,
        }
    }
}

/// Big-endian 16-bit units of byte pairs; a last odd byte is dropped.
pub open spec fn be_units(b: Seq<u8>) -> Seq<u16>
    decreases b.len(),
{
    if b.len() < 2 {
        seq![]
    } else {
        seq![(b[0] * 256 + b[1]) as u16] + be_units(b.subrange(2, b.len() as int))
    }
}

/// UTF-16 decoding (`String::from_utf16`): a unit outside the surrogate
/// range is its character, a high surrogate followed by a low one is the
/// character they encode, and any other surrogate makes it fail.
pub open spec fn utf16_decode(u: Seq<u16>) -> Option<Seq<char>>
    decreases u.len(),
{
    if u.len() == 0 {
        Some(seq![])
    } else if u[0] < 0xD800 || u[0] > 0xDFFF {
        match utf16_decode(u.drop_first()) {
            Some(r) => Some(seq![u[0] as char] + r),
            None => None,
        }
    } else if u[0] <= 0xDBFF && u.len() >= 2 && 0xDC00 <= u[1] <= 0xDFFF {
        match utf16_decode(u.subrange(2, u.len() as int)) {
            Some(r) => Some(
                seq![(0x10000 + (u[0] - 0xD800) * 1024 + (u[1] - 0xDC00)) as char] + r,
            ),
            None => None,
        }
    } else {
        None
    }
}

/// The text of UCS-2 hex.
pub open spec fn ucs2_text(h: Seq<char>) -> Option<Seq<char>> {
    utf16_decode(be_units(hex_bytes(h)))
}

/// The byte at hex position `p`, if there are two hex characters there.
pub open spec fn hex_byte(s: Seq<char>, p: int) -> Option<int> {
    if 0 <= p && p + 2 <= s.len() {
        parse_uint(s.subrange(p, p + 2), 16, 255)
    } else {
        None
    }
}

/// Bit `k` (value 2^k, k below 8) of a byte value.
pub open spec fn bit_set(v: int, weight: int) -> bool {
    (v / weight) % 2 == 1
}

/// Header of a PDU (after trimming and upper-casing): skips the SMS centre,
/// reads the PDU type, the sender (length in digits, type, BCD digits), the
/// PID, the data coding scheme, the time stamp and the user data length.
/// Gives (sender digits, coding scheme, user data header present, position
/// of the user data), or `None` when the text is shorter than 20, runs out,
/// or a read byte is not hex.
pub open spec fn pdu_header(pdu: Seq<char>) -> Option<(Seq<char>, int, bool, int)> {
    let n = pdu.len() as int;
    if n < 20 {
        None
    } else {
        match hex_byte(pdu, 0) {
            None => None,
            Some(smsc) => {
                let p1 = 2 + smsc * 2;
                match hex_byte(pdu, p1) {
                    None => None,
                    Some(ty) => {
                        let p2 = p1 + 2;
                        match hex_byte(pdu, p2) {
                            None => None,
                            Some(slen) => {
                                let p3 = p2 + 2;
                                if p3 + 2 > n {
                                    None
                                } else {
                                    let p4 = p3 + 2;
                                    let dl = if slen % 2 == 0 {
                                        slen
                                    } else {
                                        slen + 1
                                    };
                                    if p4 + dl > n {
                                        None
                                    } else {
                                        let sender = bcd_digits(pdu.subrange(p4, p4 + dl));
                                        let p5 = p4 + dl;
                                        if p5 + 2 > n {
                                            None
                                        } else {
                                            let p6 = p5 + 2;
                                            match hex_byte(pdu, p6) {
                                                None => None,
                                                Some(dcs) => {
                                                    let p7 = p6 + 2;
                                                    if p7 + 14 > n {
                                                        None
                                                    } else {
                                                        match hex_byte(pdu, p7 + 14) {
                                                            None => None,
                                                            Some(_) => Some(
                                                                (
                                                                    sender,
                                                                    dcs,
                                                                    bit_set(ty, 64),
                                                                    p7 + 16,
                                                                ),
                                                            ),
                                                        }
                                                    }
                                                },
                                            }
                                        }
                                    }
                                }
                            },
                        }
                    },
                }
            },
        }
    }
}

/// The user data header at `pos`, when present: its length byte, then, for
/// a header of at least 5 bytes that fits, a concatenation element
/// (`00 03 ref total part`) gives (reference, total, part). Gives that
/// element (if any) and the position after the header, or `None` when a
/// byte to be read is not hex.
pub open spec fn pdu_udh(pdu: Seq<char>, has_udh: bool, pos: int) -> Option<
    (Option<(int, int, int)>, int),
> {
    let n = pdu.len() as int;
    if has_udh && pos + 2 <= n {
        match hex_byte(pdu, pos) {
            None => None,
            Some(ul) => {
                let p = pos + 2;
                if ul >= 5 && p + ul * 2 <= n {
                    let d = pdu.subrange(p, p + ul * 2);
                    if d.subrange(0, 2) == "00"@ && d.subrange(2, 4) == "03"@ {
                        match (hex_byte(d, 4), hex_byte(d, 6), hex_byte(d, 8)) {
                            (Some(a), Some(b), Some(c)) => Some((Some((a, b, c)), p + ul * 2)),
                            _ => None,
                        }
                    } else {
                        Some((None, p + ul * 2))
                    }
                } else {
                    Some((None, p + ul * 2))
                }
            },
        }
    } else {
        Some((None, pos))
    }
}

/// The content of user data `ud` under coding scheme `dcs`: UCS-2 when bit 3
/// is set; for the GSM default alphabet (scheme below 16) UCS-2 if that
/// decodes, else the hex itself; UCS-2 for any other scheme. `None` where
/// UCS-2 is required and does not decode.
pub open spec fn pdu_content(ud: Seq<char>, dcs: int) -> Option<Seq<char>> {
    if bit_set(dcs, 8) || dcs == 8 {
        ucs2_text(ud)
    } else if dcs == 0 || dcs < 16 {
        match ucs2_text(ud) {
            Some(t) => Some(t),
            None => Some(ud),
        }
    } else {
        ucs2_text(ud)
    }
}

/// The PDU text as decoded: trimmed, upper-cased, header, optional user
/// data header, then content from the user data position to the end (which
/// must not be at or past the end).
pub open spec fn pdu_decode(input: Seq<char>) -> Option<PduView> {
    let pdu = ascii_upper(trim(input));
    match pdu_header(pdu) {
        None => None,
        Some(h) => match pdu_udh(pdu, h.2, h.3) {
            None => None,
            Some(u) => {
                let pos = u.1;
                if pos >= pdu.len() {
                    None
                } else {
                    match pdu_content(pdu.subrange(pos, pdu.len() as int), h.1) {
                        None => None,
                        Some(content) => Some(
                            PduView {
                                sender: h.0,
                                content,
                                is_multipart: u.0 is Some,
                                reference: match u.0 {
                                    Some(x) => x.0 as u8,
                                    None => 0,
                                },
                                total_parts: match u.0 {
                                    Some(x) => x.1 as u8,
                                    None => 1,
                                },
                                part_number: match u.0 {
                                    Some(x) => x.2 as u8,
                                    None => 1,
                                },
                            },
                        ),
                    }
                }
            },
        },
    }
}

/// The decoding reaches the user data and its length is odd: the UCS-2
/// decoding then reads past the end (where the decoder fails instead of
/// answering).
pub open spec fn pdu_odd_user_data(input: Seq<char>) -> bool {
    let pdu = ascii_upper(trim(input));
    match pdu_header(pdu) {
        None => false,
        Some(h) => match pdu_udh(pdu, h.2, h.3) {
            None => false,
            Some(u) => u.1 < pdu.len() && (pdu.len() - u.1) % 2 == 1,
        },
    }
}

/// The trimmed text, upper-cased as `str::to_uppercase` does, is under 20
/// bytes in UTF-8: the decoder answers `None` at once.
pub open spec fn pdu_too_short(input: Seq<char>) -> bool {
    encode_utf8(uppercase_of(trim(input))).len() < 20
}

/// The texts the decoder takes: too short (refused at once), or trimmed to
/// ASCII text whose user data, where it is reached, has even length (odd
/// user data would be read past its end).
pub open spec fn pdu_text_ok(input: Seq<char>) -> bool {
    pdu_too_short(input) || (is_ascii_text(trim(input)) && !pdu_odd_user_data(input))
}

/// A UTF-8 encoding has between one and four bytes per character.
pub proof fn lemma_utf8_len(s: Seq<char>)
    ensures
        s.len() <= encode_utf8(s).len() <= 4 * s.len(),
    decreases s.len(),
{
    if s.len() > 0 {
        let n = encode_scalar(s[0] as u32).len();
        assert(1 <= n <= 4);
        lemma_utf8_len(s.drop_first());
    }
}

/// Whether the trimmed text, upper-cased, is under 20 bytes in UTF-8; the
/// upper-cased text is handed back.
fn short_upper(t: &Vec<char>) -> (r: (bool, Vec<char>))
    ensures
        r.0 == (encode_utf8(uppercase_of(t@)).len() < 20),
        r.1@ == uppercase_of(t@),
        is_ascii_text(t@) ==> r.1@ == ascii_upper(t@),
{
    let ts = string_of(t.as_slice());
    let upper = to_uppercase(ts.as_str());
    let uc = chars_of(upper.as_str());
    proof {
        lemma_utf8_len(upper@);
    }
    if uc.len() >= 20 {
        return (false, uc);
    }
    let bytes = upper.as_str().len();
    (bytes < 20, uc)
}

/// The digits of a semi-octet number (see `bcd_digits`).
pub fn decode_bcd_number(hex: &str) -> (r: String)
    requires
        is_ascii_text(hex@),
    ensures
        r@ == bcd_digits(hex@),
{
    let h = chars_of(hex);
    let s = bcd_exec(h.as_slice());
    string_of(s.as_slice())
}

fn bcd_exec(h: &[char]) -> (r: Vec<char>)
    ensures
        r@ == bcd_digits(h@),
{
    let n = h.len();
    let mut out: Vec<char> = Vec::new();
    let mut i: usize = 0;
    assert(h@.subrange(0, n as int) =~= h@);
    while n - i >= 2
        invariant
            i <= n == h@.len(),
            i % 2 == 0,
            out@ + bcd_digits(h@.subrange(i as int, n as int)) == bcd_digits(h@),
        decreases n - i,
    {
        let ghost rest = h@.subrange(i as int, n as int);
        let ghost o = out@;
        let second = h[i + 1];
        let first = h[i];
        if second != 'F' && second != 'f' {
            out.push(second);
        }
        if first != 'F' && first != 'f' {
            out.push(first);
        }
        assert(rest.subrange(2, rest.len() as int) =~= h@.subrange(i + 2, n as int));
        assert(rest[0] == first && rest[1] == second);
        assert(out@ + bcd_digits(h@.subrange(i + 2, n as int)) =~= o + bcd_digits(rest));
        i = i + 2;
    }
    assert(bcd_digits(h@.subrange(i as int, n as int)) =~= Seq::<char>::empty());
    assert(out@ =~= bcd_digits(h@));
    out
}

fn hex_bytes_exec(h: &[char]) -> (r: Vec<u8>)
    requires
        h@.len() % 2 == 0,
    ensures
        r@ == hex_bytes(h@),
{
    let n = h.len();
    let mut out: Vec<u8> = Vec::new();
    let mut i: usize = 0;
    assert(h@.subrange(0, n as int) =~= h@);
    while i < n
        invariant
            i <= n == h@.len(),
            n % 2 == 0,
            i % 2 == 0,
            out@ + hex_bytes(h@.subrange(i as int, n as int)) == hex_bytes(h@),
        decreases n - i,
    {
        let ghost rest = h@.subrange(i as int, n as int);
        let ghost o = out@;
        let pair = sub_vec(h, i, i + 2);
        assert(rest.subrange(0, 2) =~= pair@);
        assert(rest.subrange(2, rest.len() as int) =~= h@.subrange(i + 2, n as int));
        match parse_uint_exec(pair.as_slice(), 16, 255) {
            Some(b) => {
                out.push(b as u8);
                assert(out@ + hex_bytes(h@.subrange(i + 2, n as int)) =~= o + hex_bytes(rest));
            },
            None => {
                assert(out@ + hex_bytes(h@.subrange(i + 2, n as int)) =~= o + hex_bytes(rest));
            },
        }
        i = i + 2;
    }
    assert(hex_bytes(h@.subrange(n as int, n as int)) =~= Seq::<u8>::empty());
    assert(out@ =~= hex_bytes(h@));
    out
}

fn be_units_exec(b: &Vec<u8>) -> (r: Vec<u16>)
    ensures
        r@ == be_units(b@),
{
    let n = b.len();
    let mut out: Vec<u16> = Vec::new();
    let mut i: usize = 0;
    assert(b@.subrange(0, n as int) =~= b@);
    while n - i >= 2
        invariant
            i <= n == b@.len(),
            out@ + be_units(b@.subrange(i as int, n as int)) == be_units(b@),
        decreases n - i,
    {
        let ghost rest = b@.subrange(i as int, n as int);
        let ghost o = out@;
        let u: u16 = (b[i] as u16) * 256 + (b[i + 1] as u16);
        out.push(u);
        assert(rest.subrange(2, rest.len() as int) =~= b@.subrange(i + 2, n as int));
        assert(out@ + be_units(b@.subrange(i + 2, n as int)) =~= o + be_units(rest));
        i = i + 2;
    }
    assert(be_units(b@.subrange(i as int, n as int)) =~= Seq::<u16>::empty());
    assert(out@ =~= be_units(b@));
    out
}

/// `Some(out + r)` for a decoded rest `r`, `None` for a failed one.
pub open spec fn prepend(out: Seq<char>, o: Option<Seq<char>>) -> Option<Seq<char>> {
    match o {
        Some(r) => Some(out + r),
        None => None,
    }
}

fn utf16_exec(u: &Vec<u16>) -> (r: Option<Vec<char>>)
    ensures
        match r {
            Some(v) => utf16_decode(u@) == Some(v@),
            None => utf16_decode(u@) is None,
        },
{
    let n = u.len();
    let mut out: Vec<char> = Vec::new();
    let mut i: usize = 0;
    assert(u@.subrange(0, n as int) =~= u@);
    while i < n
        invariant
            i <= n == u@.len(),
            prepend(out@, utf16_decode(u@.subrange(i as int, n as int))) == utf16_decode(u@),
        decreases n - i,
    {
        let ghost rest = u@.subrange(i as int, n as int);
        let ghost o = out@;
        let c = u[i];
        if c < 0xD800 || c > 0xDFFF {
            let ch = match char_from_u32(c as u32) {
                Some(x) => x,
                None => {
                    return None;
                },
            };
            out.push(ch);
            assert(rest.drop_first() =~= u@.subrange(i + 1, n as int));
            assert(prepend(out@, utf16_decode(u@.subrange(i + 1, n as int))) =~= prepend(
                o,
                utf16_decode(rest),
            ));
            i = i + 1;
        } else if c <= 0xDBFF && i + 1 < n && 0xDC00 <= u[i + 1] && u[i + 1] <= 0xDFFF {
            let d = u[i + 1];
            let cp: u32 = 0x10000 + ((c as u32) - 0xD800) * 1024 + ((d as u32) - 0xDC00);
            let ch = match char_from_u32(cp) {
                Some(x) => x,
                None => {
                    return None;
                },
            };
            out.push(ch);
            assert(rest.subrange(2, rest.len() as int) =~= u@.subrange(i + 2, n as int));
            assert(prepend(out@, utf16_decode(u@.subrange(i + 2, n as int))) =~= prepend(
                o,
                utf16_decode(rest),
            ));
            i = i + 2;
        } else {
            return None;
        }
    }
    assert(utf16_decode(u@.subrange(n as int, n as int)) == Some(Seq::<char>::empty()));
    assert(out@ + Seq::<char>::empty() =~= out@);
    Some(out)
}

fn ucs2_exec(h: &[char]) -> (r: Option<Vec<char>>)
    requires
        h@.len() % 2 == 0,
    ensures
        match r {
            Some(v) => ucs2_text(h@) == Some(v@),
            None => ucs2_text(h@) is None,
        },
{
    let bytes = hex_bytes_exec(h);
    let units = be_units_exec(&bytes);
    utf16_exec(&units)
}

/// The text of UCS-2 hex; the error message of a failed UTF-16 decoding.
pub fn decode_ucs2(hex: &str) -> (r: Result<String, String>)
    requires
        is_ascii_text(hex@),
        hex@.len() % 2 == 0,
    ensures
        match r {
            Ok(t) => ucs2_text(hex@) == Some(t@),
            Err(m) => ucs2_text(hex@) is None && m@
                == "UTF-16 decode error: invalid utf-16: lone surrogate found"@,
        },
{
    let h = chars_of(hex);
    match ucs2_exec(h.as_slice()) {
        Some(v) => Ok(string_of(v.as_slice())),
        None => Err("UTF-16 decode error: invalid utf-16: lone surrogate found".to_owned()),
    }
}

fn hex_byte_exec(s: &[char], p: usize) -> (r: Option<u8>)
    ensures
        match r {
            Some(v) => hex_byte(s@, p as int) == Some(v as int),
            None => hex_byte(s@, p as int) is None,
        },
{
    if p > s.len() || s.len() - p < 2 {
        return None;
    }
    let pair = sub_vec(s, p, p + 2);
    match parse_uint_exec(pair.as_slice(), 16, 255) {
        Some(v) => Some(v as u8),
        None => None,
    }
}

fn header_exec(pdu: &[char]) -> (r: Option<(Vec<char>, u8, bool, usize)>)
    ensures
        match r {
            Some(h) => pdu_header(pdu@) == Some((h.0@, h.1 as int, h.2, h.3 as int)) && h.3
                <= pdu@.len(),
            None => pdu_header(pdu@) is None,
        },
{
    let n = pdu.len();
    if n < 20 {
        return None;
    }
    let smsc = match hex_byte_exec(pdu, 0) {
        Some(v) => v as usize,
        None => {
            return None;
        },
    };
    let p1 = 2 + smsc * 2;
    let ty = match hex_byte_exec(pdu, p1) {
        Some(v) => v,
        None => {
            return None;
        },
    };
    let p2 = p1 + 2;
    let slen = match hex_byte_exec(pdu, p2) {
        Some(v) => v as usize,
        None => {
            return None;
        },
    };
    let p3 = p2 + 2;
    if p3 + 2 > n {
        return None;
    }
    let p4 = p3 + 2;
    let dl = if slen % 2 == 0 {
        slen
    } else {
        slen + 1
    };
    if p4 + dl > n {
        return None;
    }
    let sender_hex = sub_vec(pdu, p4, p4 + dl);
    let sender = bcd_exec(sender_hex.as_slice());
    let p5 = p4 + dl;
    if p5 + 2 > n {
        return None;
    }
    let p6 = p5 + 2;
    let dcs = match hex_byte_exec(pdu, p6) {
        Some(v) => v,
        None => {
            return None;
        },
    };
    let p7 = p6 + 2;
    if p7 + 14 > n {
        return None;
    }
    match hex_byte_exec(pdu, p7 + 14) {
        Some(_) => {},
        None => {
            return None;
        },
    }
    let has_udh = (ty / 64) % 2 == 1;
    Some((sender, dcs, has_udh, p7 + 16))
}

fn udh_exec(pdu: &[char], has_udh: bool, pos: usize) -> (r: Option<(Option<(u8, u8, u8)>, u128)>)
    requires
        pos <= pdu@.len(),
    ensures
        match r {
            Some(u) => pdu_udh(pdu@, has_udh, pos as int) == Some(
                (
                    match u.0 {
                        Some(x) => Some((x.0 as int, x.1 as int, x.2 as int)),
                        None => None,
                    },
                    u.1 as int,
                ),
            ),
            None => pdu_udh(pdu@, has_udh, pos as int) is None,
        },
{
    let n = pdu.len();
    if has_udh && n >= 2 && pos <= n - 2 {
        let ul = match hex_byte_exec(pdu, pos) {
            Some(v) => v as usize,
            None => {
                return None;
            },
        };
        let p = pos + 2;
        let next: u128 = (p as u128) + (ul as u128) * 2;
        if ul >= 5 && ul * 2 <= n - p {
            let d = sub_vec(pdu, p, p + ul * 2);
            let z0 = sub_vec(d.as_slice(), 0, 2);
            let z1 = sub_vec(d.as_slice(), 2, 4);
            proof {
                reveal_strlit("00");
                reveal_strlit("03");
            }
            if z0[0] == '0' && z0[1] == '0' && z1[0] == '0' && z1[1] == '3' {
                assert(z0@ =~= "00"@);
                assert(z1@ =~= "03"@);
                let a = hex_byte_exec(d.as_slice(), 4);
                let b = hex_byte_exec(d.as_slice(), 6);
                let c = hex_byte_exec(d.as_slice(), 8);
                match (a, b, c) {
                    (Some(a), Some(b), Some(c)) => Some((Some((a, b, c)), next)),
                    _ => None,
                }
            } else {
                assert(!(z0@ =~= "00"@ && z1@ =~= "03"@));
                Some((None, next))
            }
        } else {
            Some((None, next))
        }
    } else {
        Some((None, pos as u128))
    }
}

fn content_exec(ud: &[char], dcs: u8) -> (r: Option<Vec<char>>)
    requires
        ud@.len() % 2 == 0,
    ensures
        match r {
            Some(v) => pdu_content(ud@, dcs as int) == Some(v@),
            None => pdu_content(ud@, dcs as int) is None,
        },
{
    if (dcs / 8) % 2 == 1 || dcs == 8 {
        ucs2_exec(ud)
    } else if dcs == 0 || dcs < 16 {
        match ucs2_exec(ud) {
            Some(t) => Some(t),
            None => Some(sub_vec(ud, 0, ud.len())),
        }
    } else {
        ucs2_exec(ud)
    }
}

/// Decodes a received PDU (see `pdu_decode`): sender, content and the parts
/// information of a concatenated message. A text whose trimmed, upper-cased
/// form is under 20 bytes gives `None`.
pub fn decode_pdu_full(pdu_hex: &str) -> (r: Option<PduDecodeResult>)
    requires
        pdu_text_ok(pdu_hex@),
    ensures
        pdu_too_short(pdu_hex@) ==> r is None,
        is_ascii_text(trim(pdu_hex@)) ==> match r {
            Some(d) => pdu_decode(pdu_hex@) == Some(pdu_view(d)),
            None => pdu_decode(pdu_hex@) is None,
        },
{
    let raw = chars_of(pdu_hex);
    let t = trimmed(raw.as_slice());
    let (short, pdu) = short_upper(&t);
    if short {
        proof {
            lemma_utf8_len(pdu@);
        }
        return None;
    }
    let h = match header_exec(pdu.as_slice()) {
        Some(h) => h,
        None => {
            return None;
        },
    };
    let (sender, dcs, has_udh, pos) = h;
    let u = match udh_exec(pdu.as_slice(), has_udh, pos) {
        Some(u) => u,
        None => {
            return None;
        },
    };
    let (info, upos) = u;
    if upos >= pdu.len() as u128 {
        return None;
    }
    let ud = sub_vec(pdu.as_slice(), upos as usize, pdu.len());
    let content = match content_exec(ud.as_slice(), dcs) {
        Some(c) => c,
        None => {
            return None;
        },
    };
    let (is_multipart, reference, total_parts, part_number) = match info {
        Some(x) => (true, x.0, x.1, x.2),
        None => (false, 0u8, 1u8, 1u8),
    };
    Some(
        PduDecodeResult {
            sender: string_of(sender.as_slice()),
            content: string_of(content.as_slice()),
            is_multipart,
            reference,
            total_parts,
            part_number,
        },
    )
}

/// Sender and content of a received PDU, as `decode_pdu_full` gives them.
pub fn decode_pdu_simple(pdu_hex: &str) -> (r: Option<(String, String)>)
    requires
        pdu_text_ok(pdu_hex@),
    ensures
        pdu_too_short(pdu_hex@) ==> r is None,
        is_ascii_text(trim(pdu_hex@)) ==> match r {
            Some(p) => pdu_decode(pdu_hex@) matches Some(d) && p.0@ == d.sender && p.1@
                == d.content,
            None => pdu_decode(pdu_hex@) is None,
        },
{
    match decode_pdu_full(pdu_hex) {
        Some(d) => Some((d.sender, d.content)),
        None => None,
    }
}

/// Whether the decoder takes a PDU text (see `pdu_text_ok`).
pub fn pdu_decodable(pdu_hex: &str) -> (r: bool)
    ensures
        r == pdu_text_ok(pdu_hex@),
{
    let raw = chars_of(pdu_hex);
    let t = trimmed(raw.as_slice());
    let (short, pdu) = short_upper(&t);
    if short {
        return true;
    }
    if !crate::text::is_ascii_exec(t.as_slice()) {
        return false;
    }
    match header_exec(pdu.as_slice()) {
        None => true,
        Some(h) => match udh_exec(pdu.as_slice(), h.2, h.3) {
            None => true,
            Some(u) => !(u.1 < pdu.len() as u128 && (pdu.len() as u128 - u.1) % 2 == 1),
        },
    }
}

} // verus!
