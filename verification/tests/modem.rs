use udx710_backend::modem::{
    apn_configured_message, at_response_failed, choose_apn, get_recommended_apn, init_decision,
    join_steps, operator_codes, parse_qos_response, parse_sim_slot, sim_slot_command,
    slot_accepted_note, slot_rejected_message, InitDecision,
};

#[test]
fn recommended_apns() {
    assert_eq!(get_recommended_apn("460", "00"), Some(("cmnet", "dual")));
    assert_eq!(get_recommended_apn("460", "09"), Some(("3gnet", "dual")));
    assert_eq!(get_recommended_apn("460", "11"), Some(("ctnet", "dual")));
    assert_eq!(get_recommended_apn("460", "15"), Some(("cbnet", "dual")));
    assert_eq!(get_recommended_apn("460", "99"), None);
    assert_eq!(get_recommended_apn("310", "00"), None);
}

#[test]
fn apn_choice() {
    assert_eq!(choose_apn(None), Err("MCC/MNC not available".to_string()));
    assert_eq!(choose_apn(Some(("460", "01"))), Ok(("3gnet", "dual")));
    assert_eq!(
        choose_apn(Some(("262", "01"))),
        Err("No recommended APN for MCC=262 MNC=01".to_string())
    );
    assert_eq!(apn_configured_message("cmnet", "dual"), "Auto-configured APN: cmnet (dual)");
    assert_eq!(operator_codes("460".to_string(), "".to_string()), None);
    assert_eq!(
        operator_codes("460".to_string(), "00".to_string()),
        Some(("460".to_string(), "00".to_string()))
    );
}

#[test]
fn at_failures() {
    assert!(at_response_failed("  \r\n"));
    assert!(at_response_failed("+CME ERROR: 10"));
    assert!(at_response_failed("no carrier"));
    assert!(at_response_failed("error"));
    assert!(!at_response_failed("\r\nOK\r\n"));
}

#[test]
fn qos_answers() {
    let q = parse_qos_response("+CGEQOSRDP: 1,9,0,0,0,0,150000,50000\r\nOK");
    assert_eq!((q.qci, q.dl_speed, q.ul_speed), (9, 150000, 50000));
    assert!(q.raw_response.is_none());
    let g = parse_qos_response("  +CGEQOSRDP: 1, 5, 100, 20, 300, 40, 0, 0\r\n");
    assert_eq!((g.qci, g.dl_speed, g.ul_speed), (5, 100, 20));
    let none = parse_qos_response("+CGEQOSRDP: 1,9\r\nOK");
    assert_eq!((none.qci, none.dl_speed, none.ul_speed), (0, 0, 0));
    assert_eq!(none.raw_response, Some("+CGEQOSRDP: 1,9\r\nOK".to_string()));
}

#[test]
fn sim_slots() {
    let a = parse_sim_slot("\r\n+SPCONFIGSIMSLOT: 66051\r\nOK");
    assert_eq!(a.active_slot, 1);
    assert_eq!(a.raw_value, "66051");
    assert_eq!(parse_sim_slot("+SPCONFIGSIMSLOT:66306").active_slot, 2);
    let odd = parse_sim_slot("+SPCONFIGSIMSLOT: 7");
    assert_eq!((odd.active_slot, odd.raw_value.as_str()), (0, "7"));
    let none = parse_sim_slot("OK");
    assert_eq!((none.active_slot, none.raw_value.as_str()), (0, ""));
}

#[test]
fn slot_commands_and_messages() {
    assert_eq!(sim_slot_command(1), Ok("AT+SPCONFIGSIMSLOT=66051".to_string()));
    assert_eq!(sim_slot_command(2), Ok("AT+SPCONFIGSIMSLOT=66306".to_string()));
    assert_eq!(sim_slot_command(3), Err("Invalid slot number, must be 1 or 2".to_string()));
    assert_eq!(
        slot_rejected_message(" ERROR \r\n"),
        "Modem rejected SIM slot switch (response: ERROR)"
    );
    assert_eq!(slot_accepted_note(2), "slot 2 command accepted");
    assert_eq!(
        join_steps(&vec!["a".to_string(), "b".to_string(), "c".to_string()]),
        "a; b; c"
    );
    assert_eq!(join_steps(&vec![]), "");
}

#[test]
fn start_up_decisions() {
    match init_decision("/ril_0/context1", true, "cmnet") {
        InitDecision::AlreadyActive(m) => {
            assert_eq!(m, "Data connection already active (/ril_0/context1)")
        }
        _ => panic!("already active expected"),
    }
    match init_decision("/ril_0/context1", false, "") {
        InitDecision::NoApn(m) => {
            assert_eq!(m, "APN not configured on /ril_0/context1, skipping auto-connect")
        }
        _ => panic!("no APN expected"),
    }
    assert!(matches!(init_decision("/c", false, "cmnet"), InitDecision::Activate));
}
