use udx710_backend::at_script::{at_step, AtAction, AtScript};
use udx710_backend::cell_lock::{
    cell_lock_script, cell_lock_status, forcefrq_type, get_rat_name,
    parse_spforcefrq_query_response, unlock_all_script, CellLockRequest,
};

fn commands(s: &AtScript) -> Vec<String> {
    s.steps.iter().map(|st| st.command.clone()).collect()
}

#[test]
fn lock_types_and_names() {
    assert_eq!(forcefrq_type(12), 12);
    assert_eq!(forcefrq_type(16), 16);
    assert_eq!(forcefrq_type(1), 12);
    assert_eq!(forcefrq_type(2), 12);
    assert_eq!(forcefrq_type(7), 16);
    assert_eq!(get_rat_name(12), "LTE");
    assert_eq!(get_rat_name(16), "NR");
    assert_eq!(get_rat_name(3), "Unknown(3)");
}

#[test]
fn lock_query_answers() {
    let locked = parse_spforcefrq_query_response("\r\n+SPFORCEFRQ: 16,3,627264,100\r\nOK", 16);
    assert_eq!(locked.rat, 16);
    assert_eq!(locked.rat_name, "NR");
    assert!(locked.enabled);
    assert_eq!(locked.lock_type, 3);
    assert_eq!(locked.arfcn, Some(627264));
    assert_eq!(locked.pci, Some(100));
    let open = parse_spforcefrq_query_response("+SPFORCEFRQ: 12,3\r\nOK", 12);
    assert!(!open.enabled);
    assert_eq!((open.lock_type, open.arfcn, open.pci), (0, None, None));
    let half = parse_spforcefrq_query_response("+SPFORCEFRQ: 12,3,1850", 12);
    assert!(!half.enabled);
    assert_eq!((half.lock_type, half.arfcn, half.pci), (3, Some(1850), None));
    let other = parse_spforcefrq_query_response("+SPFORCEFRQ: 16,3,1,2", 12);
    assert!(!other.enabled);
}

#[test]
fn lock_status_of_both_types() {
    let s = cell_lock_status(Some("+SPFORCEFRQ: 16,3,627264,100"), None);
    assert_eq!(s.rat_status.len(), 2);
    assert_eq!(s.rat_status[0].rat_name, "NR");
    assert!(s.rat_status[0].enabled);
    assert_eq!(s.rat_status[1].rat_name, "LTE");
    assert!(!s.rat_status[1].enabled);
    assert!(s.any_locked);
    assert!(!cell_lock_status(None, Some("OK")).any_locked);
}

#[test]
fn lock_script() {
    let req = CellLockRequest { rat: 16, enable: true, lock_type: 0, pci: Some(100), arfcn: Some(627264) };
    let s = cell_lock_script(&req).unwrap();
    assert_eq!(
        commands(&s),
        vec!["AT+SFUN=5", "AT+SPFORCEFRQ=16,0", "AT+SPFORCEFRQ=12,0", "AT+SPFORCEFRQ=16,2,627264,100", "AT+SFUN=4"]
    );
    assert_eq!(s.success, "NR 小区锁定已设置 (ARFCN=627264, PCI=100)");
    assert!(s.steps[3].restore_on_fail);
    assert!(!s.steps[4].restore_on_fail);
}

#[test]
fn lock_needs_cell() {
    let req = CellLockRequest { rat: 12, enable: true, lock_type: 0, pci: None, arfcn: Some(1) };
    assert_eq!(cell_lock_script(&req).err(), Some("锁定小区需要同时提供 arfcn 和 pci 参数".to_string()));
}

#[test]
fn unlock_scripts() {
    let req = CellLockRequest { rat: 1, enable: false, lock_type: 0, pci: None, arfcn: None };
    let s = cell_lock_script(&req).unwrap();
    assert_eq!(commands(&s), vec!["AT+SFUN=5", "AT+SPFORCEFRQ=12,0", "AT+SFUN=4"]);
    assert_eq!(s.success, "LTE 小区锁定已解除");
    let all = unlock_all_script();
    assert_eq!(commands(&all), vec!["AT+SFUN=5", "AT+SPFORCEFRQ=16,0", "AT+SPFORCEFRQ=12,0", "AT+SFUN=4"]);
}

#[test]
fn script_runs_in_order_and_stops_at_failure() {
    let script = AtScript {
        steps: vec![at_step("A", "a", "pa: ", true), at_step("B", "b", "pb: ", false)],
        success: "done".to_string(),
    };
    assert!(matches!(script.first_action(), AtAction::Send(c) if c == "A"));
    assert!(matches!(script.after_step(0, Ok(())), AtAction::Send(c) if c == "B"));
    assert!(matches!(script.after_step(1, Ok(())), AtAction::Succeed(m) if m == "done"));
    assert!(matches!(script.after_step(0, Err("x".to_string())), AtAction::RestoreThenFail(m) if m == "pa: x"));
    assert!(matches!(script.after_step(1, Err("y".to_string())), AtAction::Fail(m) if m == "pb: y"));
    assert_eq!(script.completed_labels(1), vec!["a".to_string()]);
    let empty = AtScript { steps: vec![], success: "ok".to_string() };
    assert!(matches!(empty.first_action(), AtAction::Succeed(m) if m == "ok"));
}
