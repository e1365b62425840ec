use udx710_backend::loader::{
    append_init_command_to_loader, loader_contains_init_command, loader_contains_ota_command,
    loader_is_plain_legacy_bootstrap, loader_uses_ab_bootstrap, loader_with_init_hook,
    normalize_newlines, remove_ota_command_from_loader, INIT_SCRIPT_LOADER_COMMAND,
};

#[test]
fn append_init_command_once_for_new_loader() {
    let loader = "#!/bin/sh\n/home/root/ttyd/start.sh &\n/home/root/udx710 -p 80 &\n";
    let updated = append_init_command_to_loader(loader);

    assert!(updated.contains(INIT_SCRIPT_LOADER_COMMAND));
    assert_eq!(updated.matches(INIT_SCRIPT_LOADER_COMMAND).count(), 1);
}

#[test]
fn append_init_command_is_idempotent() {
    let loader = format!(
        "#!/bin/sh\n/home/root/ttyd/start.sh &\n/home/root/udx710 -p 80 &\n{}\n",
        INIT_SCRIPT_LOADER_COMMAND
    );
    let updated = append_init_command_to_loader(&loader);

    assert_eq!(updated.matches(INIT_SCRIPT_LOADER_COMMAND).count(), 1);
}

#[test]
fn loader_detects_init_command() {
    let loader = format!("#!/bin/sh\n{}\n", INIT_SCRIPT_LOADER_COMMAND);
    assert!(loader_contains_init_command(&loader));
}

#[test]
fn loader_ignores_commented_init_command() {
    let loader = format!("#!/bin/sh\n# {}\n", INIT_SCRIPT_LOADER_COMMAND);
    assert!(!loader_contains_init_command(&loader));
}

#[test]
fn remove_ota_command_from_loader_strips_old_hook() {
    let loader = "#!/bin/sh\n/home/root/ttyd/start.sh &\nsh /home/root/ota.sh &\n/home/root/udx710 -p 80 &\n";
    let updated = remove_ota_command_from_loader(loader);

    assert!(!loader_contains_ota_command(&updated));
    assert!(updated.contains("/home/root/udx710 -p 80 &"));
}

#[test]
fn append_to_new_loader_gives_exact_text() {
    let loader = "#!/bin/sh\n/home/root/ttyd/start.sh &\n/home/root/udx710 -p 80 &\n\n\n";
    assert_eq!(
        append_init_command_to_loader(loader),
        "#!/bin/sh\n/home/root/ttyd/start.sh &\n/home/root/udx710 -p 80 &\nsh /home/root/init.sh &\n"
    );
}

#[test]
fn append_to_blank_loader_uses_stock_script() {
    assert_eq!(
        append_init_command_to_loader("  \n"),
        "#!/bin/sh\n/home/root/ttyd/start.sh &\n/home/root/udx710 -p 80 &\nsh /home/root/init.sh &\n"
    );
}

#[test]
fn append_twice_gives_same_text() {
    let once = append_init_command_to_loader("#!/bin/sh\necho hi\n");
    let twice = append_init_command_to_loader(&once);
    assert_eq!(once, twice);
    assert!(loader_contains_init_command(&once));
}

#[test]
fn append_normalizes_crlf() {
    let loader = "#!/bin/sh\r\nsh /home/root/init.sh &\r\n\r\n";
    assert_eq!(append_init_command_to_loader(loader), "#!/bin/sh\nsh /home/root/init.sh &\n");
}

#[test]
fn normalize_newlines_turns_crlf_into_lf() {
    assert_eq!(normalize_newlines("a\r\nb\r\n"), "a\nb\n");
    assert_eq!(normalize_newlines("a\rb"), "a\rb");
}

#[test]
fn ota_hook_variants_are_removed() {
    let loader = "#!/bin/sh\n  /home/root/ota.sh\n/home/root/ota.sh &\nsh /home/root/ota.sh --x\n# sh /home/root/ota.sh &\necho\n\n \n";
    let updated = remove_ota_command_from_loader(loader);
    assert_eq!(updated, "#!/bin/sh\n# sh /home/root/ota.sh &\necho\n");
    assert!(loader_contains_ota_command(loader));
    assert!(!loader_contains_ota_command(&updated));
}

#[test]
fn removing_everything_gives_empty_text() {
    assert_eq!(remove_ota_command_from_loader("sh /home/root/ota.sh &\n\n"), "");
}

#[test]
fn ab_bootstrap_marks_are_seen() {
    assert!(loader_uses_ab_bootstrap("# UDX710 OTA bootstrap\n"));
    assert!(loader_uses_ab_bootstrap("OTA_STATE_FILE=\"/home/root/ota/state.env\"\n"));
    assert!(!loader_uses_ab_bootstrap("#!/bin/sh\n"));
}

#[test]
fn plain_legacy_bootstrap_is_recognized() {
    assert!(loader_is_plain_legacy_bootstrap(
        "#!/bin/sh\n# comment\n/home/root/ttyd/start.sh &\n\n/home/root/udx710 -p 80 &\nsh /home/root/init.sh &\n"
    ));
    assert!(!loader_is_plain_legacy_bootstrap(
        "#!/bin/sh\n/home/root/ttyd/start.sh &\n/home/root/udx710 -p 80 &\necho extra\n"
    ));
    assert!(!loader_is_plain_legacy_bootstrap("#!/bin/sh\n"));
}

#[test]
fn installed_loader_replaces_ota_loader_with_stock_one() {
    let current = "#!/bin/sh\nsh /home/root/ota.sh &\n/home/root/udx710 -p 80 &\n";
    assert_eq!(
        loader_with_init_hook(current),
        "#!/bin/sh\n/home/root/ttyd/start.sh &\n/home/root/udx710 -p 80 &\nsh /home/root/init.sh &\n"
    );
}

#[test]
fn installed_loader_keeps_custom_lines() {
    let current = "#!/bin/sh\n/home/root/udx710 -p 80 &\necho custom\n";
    let installed = loader_with_init_hook(current);
    assert_eq!(
        installed,
        "#!/bin/sh\n/home/root/udx710 -p 80 &\necho custom\nsh /home/root/init.sh &\n"
    );
    assert!(loader_contains_init_command(&installed));
}

#[test]
fn installed_loader_without_backend_line_is_stock() {
    let installed = loader_with_init_hook("#!/bin/sh\necho custom\n");
    assert_eq!(
        installed,
        "#!/bin/sh\n/home/root/ttyd/start.sh &\n/home/root/udx710 -p 80 &\nsh /home/root/init.sh &\n"
    );
}
