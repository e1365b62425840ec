use udx710_backend::ota::{
    applied_message, check_before_apply, compare_versions, detect_zip_format,
    extracted_file_mode, get_current_commit, get_ota_status, md5_hex, missing_file_validation, ota_public_key,
    safe_join, validate_ota_package, verify_package_signature, OtaMeta,
};

fn meta(version: &str, arch: &str, md5: &str, signature: Option<&str>) -> OtaMeta {
    OtaMeta {
        version: version.to_string(),
        commit: "abc".to_string(),
        build_time: "now".to_string(),
        binary_md5: md5.to_string(),
        frontend_md5: "ff".to_string(),
        arch: arch.to_string(),
        min_version: None,
        signature: signature.map(|s| s.to_string()),
    }
}

#[test]
fn version_comparison() {
    assert!(compare_versions("1.2.0", "1.1.9"));
    assert!(!compare_versions("1.1.9", "1.2.0"));
    assert!(!compare_versions("1.0", "1.0.0"));
    assert!(compare_versions("1.0.1", "1.0"));
    assert!(!compare_versions("v2", "1"));
    assert!(compare_versions("2.a.1", "2.0.0"));
    assert!(!compare_versions("3.0.0", "3.0.0"));
}

#[test]
fn md5_of_known_inputs() {
    assert_eq!(md5_hex(b"abc"), "900150983cd24fb0d6963f7d28e17f72");
    assert_eq!(md5_hex(b""), "d41d8cd98f00b204e9800998ecf8427e");
}

#[test]
fn public_key_has_32_bytes() {
    let k = ota_public_key();
    assert_eq!(k.len(), 32);
    assert_eq!(k[0], 150);
    assert_eq!(k[31], 31);
}

#[test]
fn missing_or_bad_signature_is_rejected() {
    let zero_sig = format!("{}==", "A".repeat(86));
    assert!(!verify_package_signature(&meta("1.0", "aarch64-unknown-linux-musl", "aa", None), "aa"));
    assert!(!verify_package_signature(&meta("1.0", "aarch64-unknown-linux-musl", "aa", Some("")), "aa"));
    assert!(!verify_package_signature(&meta("1.0", "aarch64-unknown-linux-musl", "aa", Some("!!")), "aa"));
    assert!(!verify_package_signature(
        &meta("1.0", "aarch64-unknown-linux-musl", "aa", Some(&zero_sig)),
        "aa"
    ));
}

#[test]
fn validation_lists_every_reason() {
    let v = validate_ota_package(&meta("2.0", "x86_64", "aa", None), "bb", "1.0");
    assert!(!v.valid);
    assert!(v.is_newer);
    assert!(!v.arch_match);
    assert!(!v.binary_md5_match);
    assert!(v.frontend_md5_match);
    assert_eq!(
        v.error,
        Some(
            "Signature verification failed (missing or invalid Ed25519 signature); Arch mismatch: expected=aarch64-unknown-linux-musl, actual=x86_64; Binary MD5 mismatch: expected=aa, actual=bb"
                .to_string()
        )
    );
}

#[test]
fn validation_with_right_arch_and_md5_still_needs_signature() {
    let v = validate_ota_package(&meta("1.0", "aarch64-unknown-linux-musl", "aa", None), "aa", "1.0");
    assert!(!v.valid);
    assert!(!v.is_newer);
    assert!(v.arch_match);
    assert!(v.binary_md5_match);
    assert_eq!(
        v.error,
        Some("Signature verification failed (missing or invalid Ed25519 signature)".to_string())
    );
}

#[test]
fn missing_file_verdict() {
    let v = missing_file_validation("Package missing binary");
    assert!(!v.valid && !v.is_newer && !v.arch_match);
    assert_eq!(v.error, Some("Package missing binary".to_string()));
}

#[test]
fn apply_refused_without_signature() {
    let m = meta("1.0", "aarch64-unknown-linux-musl", "aa", None);
    assert_eq!(
        check_before_apply(&m, "aa", "0.9"),
        Err("OTA package signature verification failed; refusing to apply".to_string())
    );
}

#[test]
fn status_and_messages() {
    let s = get_ota_status("1.2.3", "deadbeef", None);
    assert_eq!(s.current_version, "1.2.3");
    assert_eq!(s.current_commit, "deadbeef");
    assert!(!s.pending_update);
    let p = get_ota_status("1.2.3", "c", Some(meta("1.3", "a", "m", None)));
    assert!(p.pending_update);
    assert_eq!(p.pending_meta.unwrap().version, "1.3");
    assert_eq!(applied_message("1.3"), "Update to version 1.3 applied successfully");
}

#[test]
fn zip_detection() {
    assert!(detect_zip_format(b"PK\x03\x04rest"));
    assert!(!detect_zip_format(b"PK\x03"));
    assert!(!detect_zip_format(b"\x1f\x8b\x08\x00"));
}

#[test]
fn archive_paths_stay_under_base() {
    assert_eq!(safe_join("/tmp/x", "a/./b//c"), Some("/tmp/x/a/b/c".to_string()));
    assert_eq!(safe_join("/tmp/x/", "a"), Some("/tmp/x/a".to_string()));
    assert_eq!(safe_join("", "a/b"), Some("a/b".to_string()));
    assert_eq!(safe_join("/tmp/x", "../etc"), None);
    assert_eq!(safe_join("/tmp/x", "a/../../b"), None);
    assert_eq!(safe_join("/tmp/x", "/etc/passwd"), None);
    assert_eq!(safe_join("/tmp/x", "."), Some("/tmp/x".to_string()));
}

#[test]
fn file_modes() {
    assert_eq!(extracted_file_mode(true), 0o755);
    assert_eq!(extracted_file_mode(false), 0o644);
}

#[test]
fn build_commit() {
    assert_eq!(get_current_commit(Some("abc123")), "abc123");
    assert_eq!(get_current_commit(None), "unknown");
}
