//! Over-the-air update packages: where an archive member may be written,
//! which version is newer, the MD5 of the binary, the Ed25519 signature over
//! `version|arch|binary_md5`, and the verdict on a package before upload and
//! before it is applied.

use vstd::prelude::*;
use vstd::string::*;
use vstd::utf8::encode_utf8;
use crate::text::{
    append_chars, chars_of, chars_of_string, join_with, parse_uint, parse_uint_exec, split_char,
    split_of, seqs_of, string_of, sub_vec, strs_view,
};
use crate::loader::same_chars;
use base64::Engine;
use ed25519_dalek::Verifier;

verus! {

/// Metadata of an update package (`meta.json`).
#[derive(Debug, Clone, Default)]
pub struct OtaMeta {
    pub version: String,
    pub commit: String,
    pub build_time: String,
    pub binary_md5: String,
    pub frontend_md5: String,
    pub arch: String,
    /// Lowest version that may install this package.
    pub min_version: Option<String>,
    /// Base64 Ed25519 signature of `version|arch|binary_md5`.
    pub signature: Option<String>,
}

/// Verdict on an uploaded package.
#[derive(Debug, Clone, Default)]
pub struct OtaValidation {
    pub valid: bool,
    pub is_newer: bool,
    pub binary_md5_match: bool,
    pub frontend_md5_match: bool,
    pub arch_match: bool,
    pub error: Option<String>,
}

/// Running version and pending update.
pub struct OtaStatusResponse {
    pub current_version: String,
    pub current_commit: String,
    pub pending_update: bool,
    pub pending_meta: Option<OtaMeta>,
}

/// An uploaded package and its verdict.
pub struct OtaUploadResponse {
    pub meta: OtaMeta,
    pub validation: OtaValidation,
}

/// Apply the pending update, restarting now or not.
pub struct OtaApplyRequest {
    pub restart_now: bool,
}

/// The only architecture a package may be built for.
pub open spec fn expected_arch() -> Seq<char> {
    "aarch64-unknown-linux-musl"@
}

// ---------------------------------------------------------------- versions

/// The numeric parts of a version: the pieces between dots that parse as
/// `u32`, in order (the others are left out).
pub open spec fn version_parts(pieces: Seq<Seq<char>>) -> Seq<int>
    decreases pieces.len(),
{
    if pieces.len() == 0 {
        seq![]
    } else {
        let rest = version_parts(pieces.drop_first());
        match parse_uint(pieces[0], 10, u32::MAX as int) {
            Some(v) => seq![v] + rest,
            None => rest,
        }
    }
}

/// The parts as integers.
pub open spec fn as_ints(v: Seq<u32>) -> Seq<int> {
    v.map_values(|x: u32| x as int)
}

/// Part `i` of a version, 0 past its end.
pub open spec fn part_at(p: Seq<int>, i: int) -> int {
    if 0 <= i < p.len() {
        p[i]
    } else {
        0
    }
}

/// `a` is greater than `b` comparing parts from `i` on, missing parts 0.
pub open spec fn parts_greater_from(a: Seq<int>, b: Seq<int>, i: int) -> bool
    decreases (if a.len() > b.len() {
        a.len() as int
    } else {
        b.len() as int
    }) - i,
{
    let n = if a.len() > b.len() {
        a.len() as int
    } else {
        b.len() as int
    };
    if i < 0 || i >= n {
        false
    } else if part_at(a, i) > part_at(b, i) {
        true
    } else if part_at(a, i) < part_at(b, i) {
        false
    } else {
        parts_greater_from(a, b, i + 1)
    }
}

/// Version `v1` is newer than `v2`.
pub open spec fn version_newer(v1: Seq<char>, v2: Seq<char>) -> bool {
    parts_greater_from(version_parts(split_char(v1, '.')), version_parts(split_char(v2, '.')), 0)
}

fn parts_exec(v: &str) -> (r: Vec<u32>)
    ensures
        as_ints(r@) == version_parts(split_char(v@, '.')),
{
    let c = chars_of(v);
    let pieces = split_of(c.as_slice(), '.');
    let ghost all = seqs_of(pieces@);
    let mut out: Vec<u32> = Vec::new();
    let mut i = pieces.len();
    assert(all.subrange(i as int, all.len() as int) =~= Seq::<Seq<char>>::empty());
    while i > 0
        invariant
            i <= pieces@.len(),
            all == seqs_of(pieces@),
            as_ints(out@) == version_parts(
                all.subrange(i as int, all.len() as int),
            ),
        decreases i,
    {
        i = i - 1;
        let ghost rest = all.subrange(i as int, all.len() as int);
        assert(rest.drop_first() =~= all.subrange(i + 1, all.len() as int));
        assert(rest[0] == pieces@[i as int]@);
        match parse_uint_exec(pieces[i].as_slice(), 10, 4294967295) {
            Some(x) => {
                let ghost o = out@;
                out.insert(0, x);
                assert(as_ints(out@) =~= seq![x as int] + as_ints(o));
            },
            None => {},
        }
    }
    assert(all.subrange(0, all.len() as int) =~= all);
    out
}

/// Version `v1` is newer than `v2`: the numeric parts compared in order,
/// missing parts counting as 0.
pub fn compare_versions(v1: &str, v2: &str) -> (r: bool)
    ensures
        r == version_newer(v1@, v2@),
{
    let a = parts_exec(v1);
    let b = parts_exec(v2);
    let ghost sa = as_ints(a@);
    let ghost sb = as_ints(b@);
    let n = if a.len() > b.len() {
        a.len()
    } else {
        b.len()
    };
    let mut i: usize = 0;
    while i < n
        invariant
            n == (if a@.len() > b@.len() {
                a@.len()
            } else {
                b@.len()
            }),
            i <= n,
            sa == as_ints(a@),
            sb == as_ints(b@),
            sa.len() == a@.len(),
            sb.len() == b@.len(),
            sa == version_parts(split_char(v1@, '.')),
            sb == version_parts(split_char(v2@, '.')),
            parts_greater_from(sa, sb, 0) == parts_greater_from(sa, sb, i as int),
        decreases n - i,
    {
        let p1: u32 = if i < a.len() {
            a[i]
        } else {
            0
        };
        let p2: u32 = if i < b.len() {
            b[i]
        } else {
            0
        };
        assert(part_at(sa, i as int) == p1);
        assert(part_at(sb, i as int) == p2);
        if p1 > p2 {
            return true;
        } else if p1 < p2 {
            return false;
        }
        i = i + 1;
    }
    false
}

proof fn lemma_parts_irreflexive(a: Seq<int>, i: int)
    ensures
        !parts_greater_from(a, a, i),
    decreases a.len() - i,
{
    if 0 <= i < a.len() {
        lemma_parts_irreflexive(a, i + 1);
    }
}

proof fn lemma_parts_asymmetric(a: Seq<int>, b: Seq<int>, i: int)
    requires
        parts_greater_from(a, b, i),
    ensures
        !parts_greater_from(b, a, i),
    decreases (if a.len() > b.len() {
        a.len() as int
    } else {
        b.len() as int
    }) - i,
{
    let n = if a.len() > b.len() {
        a.len() as int
    } else {
        b.len() as int
    };
    if 0 <= i < n && part_at(a, i) == part_at(b, i) {
        lemma_parts_asymmetric(a, b, i + 1);
    }
}

/// No version is newer than itself.
pub proof fn lemma_version_not_newer_than_itself(v: Seq<char>)
    ensures
        !version_newer(v, v),
{
    lemma_parts_irreflexive(version_parts(split_char(v, '.')), 0);
}

/// Of two versions at most one is newer than the other.
pub proof fn lemma_version_newer_asymmetric(v1: Seq<char>, v2: Seq<char>)
    requires
        version_newer(v1, v2),
    ensures
        !version_newer(v2, v1),
{
    lemma_parts_asymmetric(version_parts(split_char(v1, '.')), version_parts(split_char(v2, '.')), 0);
}

/// The number a version piece reads as (`str::parse::<u32>`), if any.
pub open spec fn piece_number(piece: Seq<char>) -> Option<int> {
    parse_uint(piece, 10, u32::MAX as int)
}

/// Every piece reads as a number.
pub open spec fn all_numeric(pieces: Seq<Seq<char>>) -> bool {
    forall|k: int| 0 <= k < pieces.len() ==> (#[trigger] piece_number(pieces[k])) is Some
}

/// The number of piece `k`, 0 where there is no such piece.
pub open spec fn number_at(pieces: Seq<Seq<char>>, k: int) -> int {
    if 0 <= k < pieces.len() {
        match piece_number(pieces[k]) {
            Some(v) => v,
            None => 0,
        }
    } else {
        0
    }
}

proof fn lemma_parts_of_numeric(pieces: Seq<Seq<char>>)
    requires
        all_numeric(pieces),
    ensures
        version_parts(pieces).len() == pieces.len(),
        forall|k: int| 0 <= k < pieces.len() ==> #[trigger] part_at(version_parts(pieces), k)
            == number_at(pieces, k),
    decreases pieces.len(),
{
    if pieces.len() > 0 {
        let rest = pieces.drop_first();
        assert(all_numeric(rest)) by {
            assert forall|k: int| 0 <= k < rest.len() implies (#[trigger] piece_number(rest[k])) is Some by {
                assert(rest[k] == pieces[k + 1]);
            }
        }
        lemma_parts_of_numeric(rest);
        assert(piece_number(pieces[0]) is Some);
        assert forall|k: int| 0 <= k < pieces.len() implies #[trigger] part_at(version_parts(pieces), k)
            == number_at(pieces, k) by {
            if k > 0 {
                assert(rest[k - 1] == pieces[k]);
                assert(part_at(version_parts(rest), k - 1) == number_at(rest, k - 1));
            }
        }
    }
}

proof fn lemma_parts_skip_equal(a: Seq<int>, b: Seq<int>, j: int, i: int)
    requires
        0 <= j <= i,
        forall|k: int| 0 <= k < i ==> #[trigger] part_at(a, k) == part_at(b, k),
    ensures
        parts_greater_from(a, b, j) == parts_greater_from(a, b, i),
    decreases i - j,
{
    if j < i {
        lemma_parts_skip_equal(a, b, j + 1, i);
        assert(part_at(a, j) == part_at(b, j));
        let n = if a.len() > b.len() {
            a.len() as int
        } else {
            b.len() as int
        };
        if j >= n {
            assert(!parts_greater_from(a, b, i));
        }
    }
}

/// Versions whose dot-separated pieces are all numbers are compared piece by
/// piece, each piece in its place (zeros included), a missing piece read as
/// 0: where they first differ, at piece `i`, the version with the greater
/// number there is the newer one; versions that differ nowhere are not newer
/// than one another.
pub proof fn lemma_version_order(v1: Seq<char>, v2: Seq<char>, i: int)
    requires
        all_numeric(split_char(v1, '.')),
        all_numeric(split_char(v2, '.')),
        0 <= i,
        forall|k: int|
            0 <= k < i ==> #[trigger] number_at(split_char(v1, '.'), k) == number_at(
                split_char(v2, '.'),
                k,
            ),
    ensures
        number_at(split_char(v1, '.'), i) > number_at(split_char(v2, '.'), i) ==> version_newer(
            v1,
            v2,
        ),
        number_at(split_char(v1, '.'), i) < number_at(split_char(v2, '.'), i) ==> !version_newer(
            v1,
            v2,
        ),
        i >= split_char(v1, '.').len() && i >= split_char(v2, '.').len() ==> !version_newer(v1, v2),
{
    let p1 = split_char(v1, '.');
    let p2 = split_char(v2, '.');
    let a = version_parts(p1);
    let b = version_parts(p2);
    lemma_parts_of_numeric(p1);
    lemma_parts_of_numeric(p2);
    assert forall|k: int| 0 <= k < i implies #[trigger] part_at(a, k) == part_at(b, k) by {
        assert(number_at(p1, k) == number_at(p2, k));
        if k < p1.len() {
            assert(part_at(a, k) == number_at(p1, k));
        }
        if k < p2.len() {
            assert(part_at(b, k) == number_at(p2, k));
        }
    }
    lemma_parts_skip_equal(a, b, 0, i);
    if i < p1.len() {
        assert(part_at(a, i) == number_at(p1, i));
    }
    if i < p2.len() {
        assert(part_at(b, i) == number_at(p2, i));
    }
}

// ---------------------------------------------------------------- digests and signatures

/// The MD5 digest of some bytes (md5 crate).
pub uninterp spec fn md5_of(data: Seq<u8>) -> Seq<u8>;

/// `md5::compute`: the 16-byte MD5 digest of the data. The digest itself is
/// only named here, not stated; that it has 16 bytes is its type.
#[verifier::external_body]
fn md5_digest(data: &[u8]) -> (r: Vec<u8>)
    ensures
        r@ == md5_of(data@),
        r@.len() == 16,
{
    md5::compute(data).0.to_vec()
}

/// A lower-case hex digit.
pub open spec fn hex_digit(d: int) -> char {
    if d < 10 {
        ((d + 48) as u32) as char
    } else {
        ((d + 87) as u32) as char
    }
}

/// Bytes as lower-case hex, two digits each (`{:02x}`).
pub open spec fn lower_hex(b: Seq<u8>) -> Seq<char>
    decreases b.len(),
{
    if b.len() == 0 {
        seq![]
    } else {
        lower_hex(b.drop_last()) + seq![hex_digit(b.last() as int / 16), hex_digit(b.last() as int % 16)]
    }
}

fn hex_digit_exec(d: u8) -> (c: char)
    requires
        d < 16,
    ensures
        c == hex_digit(d as int),
{
    let v: u32 = if d < 10 {
        (d as u32) + 48
    } else {
        (d as u32) + 87
    };
    match crate::text::char_from_u32(v) {
        Some(c) => c,
        None => 'x',
    }
}

/// The MD5 of some bytes in lower-case hex, as the binary's digest is written.
pub fn md5_hex(data: &[u8]) -> (r: String)
    ensures
        r@ == lower_hex(md5_of(data@)),
        r@.len() == 32,
{
    let d = md5_digest(data);
    let mut out: Vec<char> = Vec::new();
    let mut i: usize = 0;
    while i < d.len()
        invariant
            i <= d@.len() == 16,
            out@ == lower_hex(d@.subrange(0, i as int)),
            out@.len() == 2 * i,
        decreases d@.len() - i,
    {
        let b = d[i];
        out.push(hex_digit_exec(b / 16));
        out.push(hex_digit_exec(b % 16));
        assert(d@.subrange(0, i + 1).drop_last() =~= d@.subrange(0, i as int));
        i = i + 1;
    }
    assert(d@.subrange(0, 16) =~= d@);
    string_of(out.as_slice())
}

/// What base64 (standard alphabet, padded) decodes a text to, if it is valid.
pub uninterp spec fn base64_decoded(text: Seq<char>) -> Option<Seq<u8>>;

/// `base64::engine::general_purpose::STANDARD.decode`: the bytes of a valid
/// standard base64 text, `None` for an invalid one; which texts are valid
/// and what they give is only named here.
#[verifier::external_body]
fn base64_decode(text: &str) -> (r: Option<Vec<u8>>)
    ensures
        match r {
            Some(b) => base64_decoded(text@) == Some(b@),
            None => base64_decoded(text@) is None,
        },
{
    base64::engine::general_purpose::STANDARD.decode(text).ok()
}

/// Whether an Ed25519 signature of a message is valid under a public key.
pub uninterp spec fn ed25519_valid(key: Seq<u8>, message: Seq<u8>, signature: Seq<u8>) -> bool;

/// `ed25519_dalek::VerifyingKey::from_bytes` then `verify`: true when the
/// key decodes and the signature verifies; which signatures verify is only
/// named here.
#[verifier::external_body]
fn ed25519_verify(key: &[u8], message: &[u8], signature: &[u8]) -> (r: bool)
    requires
        key@.len() == 32,
        signature@.len() == 64,
    ensures
        r == ed25519_valid(key@, message@, signature@),
{
    let key_arr: [u8; 32] = match key.try_into() {
        Ok(a) => a,
        Err(_) => return false,
    };
    let sig_arr: [u8; 64] = match signature.try_into() {
        Ok(a) => a,
        Err(_) => return false,
    };
    match ed25519_dalek::VerifyingKey::from_bytes(&key_arr) {
        Ok(vk) => vk.verify(message, &ed25519_dalek::Signature::from_bytes(&sig_arr)).is_ok(),
        Err(_) => false,
    }
}

/// The public key that update signatures are checked against.
pub open spec fn ota_pubkey() -> Seq<u8> {
    seq![
        150u8, 84, 175, 80, 54, 9, 48, 125, 117, 12, 134, 43, 31, 22, 140, 33, 110, 209, 56, 251,
        18, 24, 76, 99, 43, 175, 80, 47, 78, 92, 188, 31,
    ]
}

/// The public key that update signatures are checked against.
pub fn ota_public_key() -> (r: Vec<u8>)
    ensures
        r@ == ota_pubkey(),
{
    let v: Vec<u8> = vec![
        150u8, 84, 175, 80, 54, 9, 48, 125, 117, 12, 134, 43, 31, 22, 140, 33, 110, 209, 56, 251,
        18, 24, 76, 99, 43, 175, 80, 47, 78, 92, 188, 31,
    ];
    assert(v@ =~= ota_pubkey());
    v
}

/// The signed text: `version|arch|binary_md5`.
pub open spec fn signed_text(version: Seq<char>, arch: Seq<char>, md5: Seq<char>) -> Seq<char> {
    version + "|"@ + arch + "|"@ + md5
}

/// An optional text as a sequence.
pub open spec fn opt_view(o: Option<String>) -> Option<Seq<char>> {
    match o {
        Some(s) => Some(s@),
        None => None,
    }
}

/// The package carries a signature that is valid base64 of 64 bytes and
/// verifies under the update key for `version|arch|binary_md5`.
pub open spec fn signature_valid(
    signature: Option<Seq<char>>,
    version: Seq<char>,
    arch: Seq<char>,
    binary_md5: Seq<char>,
) -> bool {
    match signature {
        Some(s) => s.len() > 0 && match base64_decoded(s) {
            Some(b) => b.len() == 64 && ed25519_valid(
                ota_pubkey(),
                encode_utf8(signature_valid_text(version, arch, binary_md5)),
                b,
            ),
            None => false,
        },
        None => false,
    }
}

/// The signed text of a package (see `signed_text`).
pub open spec fn signature_valid_text(version: Seq<char>, arch: Seq<char>, md5: Seq<char>) -> Seq<
    char,
> {
    signed_text(version, arch, md5)
}

/// Whether the package's signature is present and valid for the binary's MD5.
pub fn verify_package_signature(meta: &OtaMeta, binary_md5: &str) -> (r: bool)
    ensures
        r == signature_valid(opt_view(meta.signature), meta.version@, meta.arch@, binary_md5@),
{
    let sig = match &meta.signature {
        Some(s) => s,
        None => {
            return false;
        },
    };
    if sig.as_str().unicode_len() == 0 {
        return false;
    }
    let bytes = match base64_decode(sig.as_str()) {
        Some(b) => b,
        None => {
            return false;
        },
    };
    if bytes.len() != 64 {
        return false;
    }
    let key = ota_public_key();
    let mut msg = chars_of_string(&meta.version);
    let bar = chars_of("|");
    append_chars(&mut msg, bar.as_slice());
    let arch = chars_of_string(&meta.arch);
    append_chars(&mut msg, arch.as_slice());
    append_chars(&mut msg, bar.as_slice());
    let md5 = chars_of(binary_md5);
    append_chars(&mut msg, md5.as_slice());
    let text = string_of(msg.as_slice());
    let message = text.as_str().as_bytes();
    ed25519_verify(key.as_slice(), message, bytes.as_slice())
}

// ---------------------------------------------------------------- verdicts

/// The error texts of a verdict, in order: signature, architecture, MD5.
pub open spec fn validation_errors(
    signature_ok: bool,
    arch_match: bool,
    md5_match: bool,
    arch: Seq<char>,
    expected_md5: Seq<char>,
    actual_md5: Seq<char>,
) -> Seq<Seq<char>> {
    (if !signature_ok {
        seq!["Signature verification failed (missing or invalid Ed25519 signature)"@]
    } else {
        seq![]
    }) + (if !arch_match {
        seq!["Arch mismatch: expected=aarch64-unknown-linux-musl, actual="@ + arch]
    } else {
        seq![]
    }) + (if !md5_match {
        seq!["Binary MD5 mismatch: expected="@ + expected_md5 + ", actual="@ + actual_md5]
    } else {
        seq![]
    })
}

fn text_eq(a: &String, b: &str) -> (r: bool)
    ensures
        r == (a@ == b@),
{
    let x = chars_of_string(a);
    let y = chars_of(b);
    same_chars(x.as_slice(), y.as_slice())
}

/// The verdict on an uploaded package whose binary has MD5 `binary_md5`,
/// running `current_version`: valid when the architecture is the expected
/// one and the signature verifies; whether it is newer; whether the MD5
/// matches the metadata (the frontend is not checked); and, when invalid,
/// the reasons joined by `; `.
pub fn validate_ota_package(meta: &OtaMeta, binary_md5: &str, current_version: &str) -> (r:
    OtaValidation)
    ensures
        r.binary_md5_match == (binary_md5@ == meta.binary_md5@),
        r.frontend_md5_match,
        r.arch_match == (meta.arch@ == expected_arch()),
        r.is_newer == version_newer(meta.version@, current_version@),
        r.valid == (r.arch_match && signature_valid(
            opt_view(meta.signature),
            meta.version@,
            meta.arch@,
            binary_md5@,
        )),
        r.valid ==> r.error is None,
        !r.valid ==> (r.error matches Some(e) && e@ == join_with(
            validation_errors(
                signature_valid(opt_view(meta.signature), meta.version@, meta.arch@, binary_md5@),
                r.arch_match,
                r.binary_md5_match,
                meta.arch@,
                meta.binary_md5@,
                binary_md5@,
            ),
            "; "@,
        )),
{
    let binary_md5_match = text_eq(&meta.binary_md5, binary_md5);
    let arch_match = text_eq(&meta.arch, "aarch64-unknown-linux-musl");
    let signature_ok = verify_package_signature(meta, binary_md5);
    let is_newer = compare_versions(meta.version.as_str(), current_version);
    let valid = arch_match && signature_ok;
    let error = if !valid {
        let mut errors: Vec<String> = Vec::new();
        if !signature_ok {
            errors.push(
                "Signature verification failed (missing or invalid Ed25519 signature)".to_owned(),
            );
        }
        if !arch_match {
            let mut m = chars_of("Arch mismatch: expected=aarch64-unknown-linux-musl, actual=");
            let a = chars_of_string(&meta.arch);
            append_chars(&mut m, a.as_slice());
            errors.push(string_of(m.as_slice()));
        }
        if !binary_md5_match {
            let mut m = chars_of("Binary MD5 mismatch: expected=");
            let a = chars_of_string(&meta.binary_md5);
            append_chars(&mut m, a.as_slice());
            let b = chars_of(", actual=");
            append_chars(&mut m, b.as_slice());
            let c = chars_of(binary_md5);
            append_chars(&mut m, c.as_slice());
            errors.push(string_of(m.as_slice()));
        }
        assert(strs_view(errors@) =~= validation_errors(
            signature_ok,
            arch_match,
            binary_md5_match,
            meta.arch@,
            meta.binary_md5@,
            binary_md5@,
        ));
        Some(join_semicolon(&errors))
    } else {
        None
    };
    OtaValidation {
        valid,
        is_newer,
        binary_md5_match,
        frontend_md5_match: true,
        arch_match,
        error,
    }
}

fn join_semicolon(v: &Vec<String>) -> (r: String)
    ensures
        r@ == join_with(strs_view(v@), "; "@),
{
    let mut out: Vec<char> = Vec::new();
    if v.len() == 0 {
        return string_of(out.as_slice());
    }
    let sep = chars_of("; ");
    let first = chars_of_string(&v[0]);
    append_chars(&mut out, first.as_slice());
    let mut i: usize = 1;
    assert(strs_view(v@).subrange(0, 1) =~= seq![v@[0]@]);
    while i < v.len()
        invariant
            1 <= i <= v@.len(),
            sep@ == "; "@,
            out@ == join_with(strs_view(v@).subrange(0, i as int), "; "@),
        decreases v@.len() - i,
    {
        let ghost prev = strs_view(v@).subrange(0, i as int);
        append_chars(&mut out, sep.as_slice());
        let next = chars_of_string(&v[i]);
        append_chars(&mut out, next.as_slice());
        assert(strs_view(v@).subrange(0, i + 1).drop_last() =~= prev);
        assert(out@ =~= join_with(prev, "; "@) + "; "@ + v@[i as int]@);
        i = i + 1;
    }
    assert(strs_view(v@).subrange(0, v@.len() as int) =~= strs_view(v@));
    string_of(out.as_slice())
}

/// The verdict on a package that lacks the binary or the frontend.
pub fn missing_file_validation(message: &str) -> (r: OtaValidation)
    ensures
        !r.valid && !r.is_newer && !r.binary_md5_match && !r.frontend_md5_match && !r.arch_match,
        r.error matches Some(e) && e@ == message@,
{
    OtaValidation {
        valid: false,
        is_newer: false,
        binary_md5_match: false,
        frontend_md5_match: false,
        arch_match: false,
        error: Some(message.to_owned()),
    }
}

/// The checks before applying the pending update, in order: the signature
/// must verify for the binary's MD5, the architecture must be the expected
/// one, and the running version must be the minimum version (when the
/// package names one) or newer than it.
pub open spec fn apply_refusal(
    signature_ok: bool,
    arch: Seq<char>,
    min_version: Option<Seq<char>>,
    current: Seq<char>,
) -> Option<Seq<char>> {
    if !signature_ok {
        Some("OTA package signature verification failed; refusing to apply"@)
    } else if arch != expected_arch() {
        Some("OTA arch mismatch: "@ + arch)
    } else {
        match min_version {
            Some(m) => if current != m && !version_newer(current, m) {
                Some(
                    "Refusing downgrade: current "@ + current + " is below min required "@ + m,
                )
            } else {
                None
            },
            None => None,
        }
    }
}

/// Whether the pending update may be applied; the refusal otherwise.
pub fn check_before_apply(meta: &OtaMeta, binary_md5: &str, current_version: &str) -> (r: Result<
    (),
    String,
>)
    ensures
        match apply_refusal(
            signature_valid(opt_view(meta.signature), meta.version@, meta.arch@, binary_md5@),
            meta.arch@,
            opt_view(meta.min_version),
            current_version@,
        ) {
            Some(m) => r matches Err(e) && e@ == m,
            None => r is Ok,
        },
{
    if !verify_package_signature(meta, binary_md5) {
        return Err("OTA package signature verification failed; refusing to apply".to_owned());
    }
    if !text_eq(&meta.arch, "aarch64-unknown-linux-musl") {
        let mut m = chars_of("OTA arch mismatch: ");
        let a = chars_of_string(&meta.arch);
        append_chars(&mut m, a.as_slice());
        return Err(string_of(m.as_slice()));
    }
    match &meta.min_version {
        Some(min) => {
            let cur = chars_of(current_version);
            let mv = chars_of_string(min);
            if !same_chars(cur.as_slice(), mv.as_slice()) && !compare_versions(
                current_version,
                min.as_str(),
            ) {
                let mut m = chars_of("Refusing downgrade: current ");
                append_chars(&mut m, cur.as_slice());
                let b = chars_of(" is below min required ");
                append_chars(&mut m, b.as_slice());
                append_chars(&mut m, mv.as_slice());
                return Err(string_of(m.as_slice()));
            }
        },
        None => {},
    }
    Ok(())
}

/// The message after an update was applied.
pub fn applied_message(version: &str) -> (r: String)
    ensures
        r@ == "Update to version "@ + version@ + " applied successfully"@,
{
    let mut m = chars_of("Update to version ");
    let v = chars_of(version);
    append_chars(&mut m, v.as_slice());
    let t = chars_of(" applied successfully");
    append_chars(&mut m, t.as_slice());
    string_of(m.as_slice())
}

/// The commit the program was built from, as recorded at build time
/// (`None` when the build recorded none, which reads as `unknown`).
pub fn get_current_commit(build_commit: Option<&str>) -> (r: String)
    ensures
        r@ == match build_commit {
            Some(c) => c@,
            None => "unknown"@,
        },
{
    match build_commit {
        Some(c) => c.to_owned(),
        None => "unknown".to_owned(),
    }
}

/// The update status: running version and commit, and the pending update.
pub fn get_ota_status(current_version: &str, current_commit: &str, pending_meta: Option<OtaMeta>) -> (r:
    OtaStatusResponse)
    ensures
        r.current_version@ == current_version@,
        r.current_commit@ == current_commit@,
        r.pending_update == pending_meta is Some,
        r.pending_meta == pending_meta,
{
    let pending_update = pending_meta.is_some();
    OtaStatusResponse {
        current_version: current_version.to_owned(),
        current_commit: current_commit.to_owned(),
        pending_update,
        pending_meta,
    }
}

// ---------------------------------------------------------------- archives

/// The data starts with the ZIP signature `PK\x03\x04`.
pub fn detect_zip_format(data: &[u8]) -> (r: bool)
    ensures
        r == (data@.len() >= 4 && data@[0] == 0x50 && data@[1] == 0x4B && data@[2] == 0x03
            && data@[3] == 0x04),
{
    if data.len() < 4 {
        return false;
    }
    data[0] == 0x50 && data[1] == 0x4B && data[2] == 0x03 && data[3] == 0x04
}

/// The components of a relative path that name something: the pieces
/// between slashes without empty ones and `.`.
pub open spec fn named_components(pieces: Seq<Seq<char>>) -> Seq<Seq<char>>
    decreases pieces.len(),
{
    if pieces.len() == 0 {
        seq![]
    } else {
        let rest = named_components(pieces.drop_first());
        if pieces[0].len() == 0 || pieces[0] == "."@ {
            rest
        } else {
            seq![pieces[0]] + rest
        }
    }
}

/// `base` with the components appended, a slash before each unless the
/// path so far is empty or ends with one (`PathBuf::push`).
pub open spec fn push_components(base: Seq<char>, comps: Seq<Seq<char>>) -> Seq<char>
    decreases comps.len(),
{
    if comps.len() == 0 {
        base
    } else {
        let sep = if base.len() > 0 && base.last() != '/' {
            "/"@
        } else {
            ""@
        };
        push_components(base + sep + comps[0], comps.drop_first())
    }
}

/// Where a member path of an archive lands under `base`: nowhere (`None`)
/// when it is absolute or has a `..` component; else `base` with its
/// components appended.
pub open spec fn joined_path(base: Seq<char>, rel: Seq<char>) -> Option<Seq<char>> {
    let comps = named_components(split_char(rel, '/'));
    if rel.len() > 0 && rel[0] == '/' {
        None
    } else if comps.contains(".."@) {
        None
    } else {
        Some(push_components(base, comps))
    }
}

/// The path of archive member `rel` under `base`, refusing one that would
/// leave `base` (absolute, or with a `..` component).
pub fn safe_join(base: &str, rel: &str) -> (r: Option<String>)
    ensures
        match joined_path(base@, rel@) {
            Some(p) => r matches Some(t) && t@ == p,
            None => r is None,
        },
{
    let rc = chars_of(rel);
    if rc.len() > 0 && rc[0] == '/' {
        return None;
    }
    let pieces = split_of(rc.as_slice(), '/');
    let ghost all = seqs_of(pieces@);
    let dot = chars_of(".");
    let dotdot = chars_of("..");
    proof {
        reveal_strlit(".");
        reveal_strlit("..");
        reveal_strlit("/");
        reveal_strlit("");
    }
    let mut out = chars_of(base);
    let mut i: usize = 0;
    assert(all.subrange(0, all.len() as int) =~= all);
    let ghost comps = named_components(all);
    // Components before `i` are pushed; none of them is `..`.
    while i < pieces.len()
        invariant
            i <= pieces@.len(),
            all == seqs_of(pieces@),
            all == split_char(rel@, '/'),
            !(rel@.len() > 0 && rel@[0] == '/'),
            dot@ == "."@,
            dotdot@ == ".."@,
            comps == named_components(all),
            !named_components(all.subrange(0, i as int)).contains(".."@),
            named_components(all) == named_components(all.subrange(0, i as int))
                + named_components(all.subrange(i as int, all.len() as int)),
            push_components(base@, comps) == push_components(
                out@,
                named_components(all.subrange(i as int, all.len() as int)),
            ),
        decreases pieces@.len() - i,
    {
        let ghost rest = all.subrange(i as int, all.len() as int);
        assert(rest.drop_first() =~= all.subrange(i + 1, all.len() as int));
        assert(rest[0] == pieces@[i as int]@);
        proof {
            lemma_named_components_split(all.subrange(0, i + 1), i as int);
            assert(all.subrange(0, i + 1).subrange(0, i as int) =~= all.subrange(0, i as int));
            assert(all.subrange(0, i + 1).subrange(i as int, i + 1) =~= seq![pieces@[i as int]@]);
        }
        let p = &pieces[i];
        assert(seq![pieces@[i as int]@].drop_first() =~= Seq::<Seq<char>>::empty());
        assert(named_components(Seq::<Seq<char>>::empty()) =~= Seq::<Seq<char>>::empty());
        if p.len() == 0 || same_chars(p.as_slice(), dot.as_slice()) {
            assert(named_components(seq![pieces@[i as int]@]) =~= Seq::<Seq<char>>::empty());
        } else if same_chars(p.as_slice(), dotdot.as_slice()) {
            proof {
                assert(pieces@[i as int]@ != "."@);
                assert(named_components(rest) =~= seq![pieces@[i as int]@] + named_components(
                    rest.drop_first(),
                ));
                assert(named_components(rest)[0] == ".."@);
                let k = named_components(all.subrange(0, i as int)).len();
                assert(comps[k as int] == ".."@);
                assert(comps.contains(".."@));
            }
            return None;
        } else {
            let ghost before = out@;
            if out.len() > 0 && out[out.len() - 1] != '/' {
                out.push('/');
            }
            append_chars(&mut out, p.as_slice());
            proof {
                assert(named_components(seq![pieces@[i as int]@]) =~= seq![pieces@[i as int]@]);
                assert(named_components(rest) =~= seq![pieces@[i as int]@] + named_components(
                    all.subrange(i + 1, all.len() as int),
                ));
                reveal_strlit("/");
                reveal_strlit("");
                let sep = if before.len() > 0 && before.last() != '/' {
                    "/"@
                } else {
                    ""@
                };
                assert(out@ =~= before + sep + pieces@[i as int]@);
                assert(named_components(rest).drop_first() =~= named_components(
                    all.subrange(i + 1, all.len() as int),
                ));
            }
        }
        i = i + 1;
    }
    proof {
        assert(all.subrange(i as int, all.len() as int) =~= Seq::<Seq<char>>::empty());
        assert(named_components(all.subrange(0, i as int)) =~= named_components(all));
    }
    Some(string_of(out.as_slice()))
}

/// Splitting the pieces at `k` splits their named components.
pub proof fn lemma_named_components_split(s: Seq<Seq<char>>, k: int)
    requires
        0 <= k <= s.len(),
    ensures
        named_components(s) == named_components(s.subrange(0, k)) + named_components(
            s.subrange(k, s.len() as int),
        ),
    decreases k,
{
    if k == 0 {
        assert(s.subrange(0, 0) =~= Seq::<Seq<char>>::empty());
        assert(s.subrange(0, s.len() as int) =~= s);
    } else {
        lemma_named_components_split(s.drop_first(), k - 1);
        assert(s.drop_first().subrange(0, k - 1) =~= s.subrange(0, k).drop_first());
        assert(s.drop_first().subrange(k - 1, s.len() - 1) =~= s.subrange(k, s.len() as int));
        assert(s.subrange(0, k)[0] == s[0]);
        if s[0].len() == 0 || s[0] == "."@ {
        } else {
            assert(named_components(s) =~= seq![s[0]] + named_components(s.drop_first()));
        }
    }
}

/// Permissions of an extracted file: 755 for the `udx710` binary, 644 for
/// anything else.
pub fn extracted_file_mode(is_binary: bool) -> (r: u32)
    ensures
        r == (if is_binary {
            0o755u32
        } else {
            0o644u32
        }),
{
    if is_binary {
        0o755
    } else {
        0o644
    }
}

} // verus!
