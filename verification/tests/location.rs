use udx710_backend::location::{cell_location, limited_cell_location, operator_codes_missing};
use udx710_backend::models::CellInfo;

fn cell(arfcn: &str, pci: &str, rsrp: &str, rsrq: &str, sinr: &str) -> CellInfo {
    CellInfo {
        is_serving: false,
        tech: "nr".to_string(),
        band: "n78".to_string(),
        arfcn: arfcn.to_string(),
        pci: pci.to_string(),
        rsrp: rsrp.to_string(),
        rsrq: rsrq.to_string(),
        sinr: sinr.to_string(),
    }
}

#[test]
fn missing_operator_codes() {
    let (m, r) = operator_codes_missing(None, Some("00")).unwrap();
    assert_eq!(m, "Cell location unavailable: MCC not available");
    assert!(!r.available);
    assert!(r.cell_info.is_none());
    assert!(r.usage_hint.starts_with("Network not registered"));
    let (m2, _) = operator_codes_missing(Some("460"), Some("")).unwrap();
    assert_eq!(m2, "Cell location unavailable: MNC not available");
    assert!(operator_codes_missing(Some("460"), Some("00")).is_none());
}

#[test]
fn located_serving_cell_and_neighbors() {
    let detail = cell("627264", "100", "-8550", "-1150", "1999");
    let neighbors = vec![cell("627264", "200", "-9000", "x", "-250"), cell("1", "bad", "0", "0", "0")];
    let (m, r) = cell_location("460", "00", "CMCC", "nr", 4660, 123456, Some(&detail), &neighbors);
    assert_eq!(m, "Success");
    assert!(r.available);
    let s = r.cell_info.unwrap();
    assert_eq!((s.lac, s.cid), (4660, 123456));
    assert_eq!(s.signal_strength, -85);
    assert_eq!(s.arfcn, Some(627264));
    assert_eq!(s.pci, Some(100));
    assert_eq!(s.rsrq, Some(-11));
    assert_eq!(s.sinr, Some(19));
    assert_eq!(s.radio_type, "nr");
    assert_eq!(r.neighbor_cells.len(), 1);
    let n = &r.neighbor_cells[0];
    assert_eq!((n.cid, n.pci, n.signal_strength), (0, Some(200), -90));
    assert_eq!(n.rsrq, None);
    assert_eq!(n.sinr, Some(-2));
    assert!(r.usage_hint.ends_with(
        "Network: CMCC (MCC=460, MNC=00), Cell ID=123456, TAC=4660, Signal=-85dBm"
    ));
}

#[test]
fn unreadable_rsrp_counts_as_minus_140_raw() {
    let detail = cell("1", "2", "n/a", "", "");
    let (_, r) = cell_location("460", "00", "CMCC", "nr", 1, 2, Some(&detail), &[]);
    assert_eq!(r.cell_info.unwrap().signal_strength, -1);
}

#[test]
fn no_serving_cell() {
    let (m, r) = cell_location("460", "00", "CMCC", "lte", 1, 0, None, &[]);
    assert_eq!(m, "Success");
    assert!(!r.available);
    assert!(r.cell_info.is_none());
    assert_eq!(r.usage_hint, "Cell location unavailable: No serving cell found.");
}

#[test]
fn default_signal_without_detail() {
    let (_, r) = cell_location("460", "00", "CMCC", "lte", 7, 9, None, &[]);
    assert_eq!(r.cell_info.unwrap().signal_strength, -100);
}

#[test]
fn limited_location() {
    let (m, r) = limited_cell_location("460", "01", "CU", "gsm", 5, 6);
    assert_eq!(m, "Success (limited info)");
    assert!(r.available);
    let s = r.cell_info.unwrap();
    assert_eq!((s.signal_strength, s.arfcn), (-100, None));
    assert_eq!(
        r.usage_hint,
        "Cell location data available (limited). Unsupported network type: gsm.\nNetwork: CU (MCC=460, MNC=01), Cell ID=6, TAC=5"
    );
    let (_, none) = limited_cell_location("460", "01", "CU", "gsm", 5, 0);
    assert!(!none.available);
}
