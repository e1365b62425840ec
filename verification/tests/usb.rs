use udx710_backend::usb::{
    cdc_functions, function_links, generate_product_name, get_mode_name, gser_functions,
    hardware_id_from_model, host_mac_address, mode_from_ids, parse_mode_file, serial_from_mac,
    switch_config, usb_mode_file_content, usb_share_at_command, UsbModeConfig,
};

#[test]
fn mode_settings() {
    let ncm = UsbModeConfig::get(1).unwrap();
    assert_eq!((ncm.vid, ncm.pid, ncm.configuration), ("0x1782", "0x4040", "ncm"));
    assert_eq!(ncm.pamu3_protocol, Some("NCM"));
    assert_eq!(ncm.functions, "ncm.gs0");
    assert!(!ncm.usb_share_enable);
    let ecm = UsbModeConfig::get(2).unwrap();
    assert_eq!(ecm.pamu3_protocol, None);
    let rndis = UsbModeConfig::get(3).unwrap();
    assert_eq!(rndis.functions, "rndis.gs4");
    assert!(rndis.usb_share_enable);
    assert!(UsbModeConfig::get(4).is_none());
}

#[test]
fn switch_refuses_unknown_modes() {
    assert!(switch_config(2).is_ok());
    match switch_config(4) {
        Err(m) => assert_eq!(m, "Invalid USB mode: 4. Valid modes: 1=NCM, 2=ECM, 3=RNDIS, 4=NCM(no ADB)"),
        Ok(_) => panic!("mode 4 must be refused"),
    }
}

#[test]
fn share_commands() {
    assert_eq!(usb_share_at_command(true), "AT+SPASENGMD=\"#dsm_usb_share_enable\",1");
    assert_eq!(usb_share_at_command(false), "AT+SPASENGMD=\"#dsm_usb_share_enable\",0");
}

#[test]
fn function_lists() {
    let cdc = cdc_functions();
    assert_eq!(cdc.len(), 10);
    assert_eq!(cdc[0], "rndis.gs4");
    assert_eq!(cdc[9], "mbim.gs0");
    let gser = gser_functions();
    assert_eq!(gser.len(), 10);
    assert_eq!(gser[1], "ffs.adb");
    let links = function_links(&UsbModeConfig::get(1).unwrap());
    assert_eq!(links.len(), 9);
    assert_eq!(links[0], ("ncm.gs0", "f1"));
    assert_eq!(links[5], ("ffs.adb", "f6"));
    assert_eq!(links[8], ("gser.gs6", "f9"));
}

#[test]
fn serial_numbers() {
    assert_eq!(serial_from_mac(" aa:bb:cc:dd:ee:ff\n"), Some("UDXAABBCCDDEEFF1".to_string()));
    assert_eq!(serial_from_mac("aa:bb"), None);
}

#[test]
fn hardware_ids() {
    assert_eq!(hardware_id_from_model("Unisoc UDX710_EVB\n"), Some("UDX710".to_string()));
    assert_eq!(hardware_id_from_model("xudx710"), Some("UDX710".to_string()));
    assert_eq!(hardware_id_from_model("board 710"), Some("U710".to_string()));
    assert_eq!(hardware_id_from_model("UDX71"), None);
    assert_eq!(hardware_id_from_model("other"), None);
}

#[test]
fn product_names() {
    assert_eq!(generate_product_name("UDXAABBCCDDEEFF1", "UDX710"), "unisoc-5g-modem-UDX71000EFF1");
    assert_eq!(generate_product_name("12", "UDX7"), "unisoc-5g-modem-UDX7001200");
}

#[test]
fn host_mac() {
    assert_eq!(host_mac_address("CC:11:22:33:44:55"), "cc:11:22:33:44:01");
    assert_eq!(host_mac_address("AB"), "01");
}

#[test]
fn host_mac_lowercases_any_text() {
    assert_eq!(host_mac_address("ÄB:CD:ÉF"), "äb:cd:01");
}

#[test]
fn non_ascii_serial_and_model_are_cut_by_bytes() {
    assert_eq!(serial_from_mac("aa:bb:cc:dd:ee:ä\n"), Some("UDXAABBCCDDEEÄ1".to_string()));
    assert_eq!(hardware_id_from_model("udx7é"), Some("UDX7É".to_string()));
    assert_eq!(generate_product_name("é", "X"), "unisoc-5g-modem-X00é00");
    assert_eq!(generate_product_name("abcé", "X"), "unisoc-5g-modem-X00bcé");
}

#[test]
fn modes_from_ids_and_files() {
    assert_eq!(mode_from_ids(" 0x1782\n", "0X4040"), Some(1));
    assert_eq!(mode_from_ids("0x1782", "0x4100"), Some(2));
    assert_eq!(mode_from_ids("0x1782", "0x4038"), Some(3));
    assert_eq!(mode_from_ids("0x1234", "0x4040"), None);
    assert_eq!(parse_mode_file(" 2\n"), Some(2));
    assert_eq!(parse_mode_file("4"), None);
    assert_eq!(parse_mode_file("x"), None);
    assert_eq!(usb_mode_file_content(3), Ok("3\n".to_string()));
    assert_eq!(
        usb_mode_file_content(5),
        Err("Invalid USB mode: 5. Valid modes: 1=NCM, 2=ECM, 3=RNDIS".to_string())
    );
    assert_eq!(get_mode_name(Some(1)), "CDC-NCM");
    assert_eq!(get_mode_name(Some(3)), "RNDIS");
    assert_eq!(get_mode_name(None), "Unknown");
}
