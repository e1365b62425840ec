use udx710_backend::sms::{
    decode_bcd_number, decode_pdu_full, decode_pdu_simple, decode_ucs2, pdu_decodable,
};

const SINGLE: &str = "00040D91683108108300F0000842103021050000044F60597D";
const MULTI: &str = "00440D91683108108300F00008421030210500000A0500032A02010041";

#[test]
fn bcd_number_swaps_pairs_and_drops_filler() {
    assert_eq!(decode_bcd_number("683108108300F0"), "8613800138000");
    assert_eq!(decode_bcd_number("12345"), "2143");
    assert_eq!(decode_bcd_number(""), "");
    assert_eq!(decode_bcd_number("f1"), "1");
}

#[test]
fn ucs2_decodes_utf16be() {
    assert_eq!(decode_ucs2("4F60597D"), Ok("你好".to_string()));
    assert_eq!(decode_ucs2("0041004200"), Ok("AB".to_string()));
    assert_eq!(decode_ucs2("D83DDE00"), Ok("😀".to_string()));
}

#[test]
fn ucs2_lone_surrogate_is_an_error() {
    assert_eq!(
        decode_ucs2("D800"),
        Err("UTF-16 decode error: invalid utf-16: lone surrogate found".to_string())
    );
}

#[test]
fn single_part_pdu() {
    assert!(pdu_decodable(SINGLE));
    let d = decode_pdu_full(SINGLE).unwrap();
    assert_eq!(d.sender, "8613800138000");
    assert_eq!(d.content, "你好");
    assert!(!d.is_multipart);
    assert_eq!((d.reference, d.total_parts, d.part_number), (0, 1, 1));
    assert_eq!(
        decode_pdu_simple(SINGLE),
        Some(("8613800138000".to_string(), "你好".to_string()))
    );
}

#[test]
fn lower_case_and_padded_pdu() {
    let text = format!("  {}\r\n", SINGLE.to_lowercase());
    assert!(pdu_decodable(&text));
    let d = decode_pdu_full(&text).unwrap();
    assert_eq!(d.sender, "8613800138000");
    assert_eq!(d.content, "你好");
}

#[test]
fn concatenated_pdu_carries_part_info() {
    assert!(pdu_decodable(MULTI));
    let d = decode_pdu_full(MULTI).unwrap();
    assert!(d.is_multipart);
    assert_eq!(d.reference, 42);
    assert_eq!(d.total_parts, 2);
    assert_eq!(d.part_number, 1);
    assert_eq!(d.content, "A");
}

#[test]
fn seven_bit_pdu_falls_back_to_hex_text() {
    let pdu = "00040D91683108108300F0000042103021050000";
    let with_data = format!("{}02D800", pdu);
    let d = decode_pdu_full(&with_data).unwrap();
    assert_eq!(d.content, "D800");
}

#[test]
fn short_or_truncated_pdu_is_none() {
    assert!(decode_pdu_full("0004").is_none());
    assert!(decode_pdu_full("00040D91683108108300F0000842103021050000").is_none());
    assert!(decode_pdu_full("ZZ040D91683108108300F0000842103021050000044F60597D").is_none());
}

#[test]
fn non_ascii_text_is_not_decodable() {
    assert!(!pdu_decodable("é0040D91683108108300F0000842103021050000044F60597D"));
}

#[test]
fn short_non_ascii_text_is_none() {
    assert!(pdu_decodable("  éé短信  "));
    assert!(decode_pdu_full("  éé短信  ").is_none());
    assert!(decode_pdu_simple("ß").is_none());
}

#[test]
fn surrounding_unicode_whitespace_is_trimmed() {
    let padded = format!("\u{3000}{}\u{00A0}", SINGLE);
    assert!(pdu_decodable(&padded));
    let d = decode_pdu_full(&padded).unwrap();
    let plain = decode_pdu_full(SINGLE).unwrap();
    assert_eq!(d.sender, plain.sender);
    assert_eq!(d.content, plain.content);
}
