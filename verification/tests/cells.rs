use udx710_backend::cells::{
    arfcn_to_nr_band, earfcn_to_lte_band, get_cell_command_config, parse_at_response_to_2d_vec,
    parse_neighbor_cells, parse_primary_cell,
};

fn row(items: &[&str]) -> Vec<String> {
    items.iter().map(|s| s.to_string()).collect()
}

#[test]
fn command_config_per_technology() {
    let nr = get_cell_command_config("nr").unwrap();
    assert_eq!(nr.primary, "AT+SPENGMD=0,14,1");
    assert_eq!(nr.neighbor, "AT+SPENGMD=0,14,2");
    let lte = get_cell_command_config("lte").unwrap();
    assert_eq!(lte.primary, "AT+SPENGMD=0,6,0");
    assert_eq!(lte.neighbor, "AT+SPENGMD=0,6,6");
    assert!(get_cell_command_config("gsm").is_none());
}

#[test]
fn nr_band_of_arfcn() {
    assert_eq!(arfcn_to_nr_band(627264), "n78");
    assert_eq!(arfcn_to_nr_band(504990), "n41");
    assert_eq!(arfcn_to_nr_band(428000), "n1");
    assert_eq!(arfcn_to_nr_band(151600), "n28");
    assert_eq!(arfcn_to_nr_band(733334), "");
}

#[test]
fn lte_band_of_earfcn() {
    assert_eq!(earfcn_to_lte_band(100), "B1");
    assert_eq!(earfcn_to_lte_band(1850), "B3");
    assert_eq!(earfcn_to_lte_band(38400), "B39");
    assert_eq!(earfcn_to_lte_band(40936), "B41");
    assert_eq!(earfcn_to_lte_band(600), "");
}

#[test]
fn table_split_at_dashes() {
    assert_eq!(
        parse_at_response_to_2d_vec("78-627264-100--85\r\nOK"),
        vec![row(&["78"]), row(&["627264"]), row(&["100"]), row(&["-85"])]
    );
    assert_eq!(
        parse_at_response_to_2d_vec("  1,2-3,-4\r\n\r\nOK\r\n"),
        vec![row(&["1", "2"]), row(&["3", "-4"])]
    );
    assert!(parse_at_response_to_2d_vec("OK").is_empty());
}

fn nr_table() -> Vec<Vec<String>> {
    let mut t = vec![
        row(&["78"]),
        row(&["627264"]),
        row(&["100"]),
        row(&["-8500"]),
        row(&["-1100"]),
    ];
    for _ in 5..15 {
        t.push(row(&["1"]));
    }
    t.push(row(&["2000"]));
    t
}

#[test]
fn nr_primary_cell() {
    let c = parse_primary_cell("nr", &nr_table());
    assert!(c.is_serving);
    assert_eq!(c.tech, "nr");
    assert_eq!(c.band, "n78");
    assert_eq!(c.arfcn, "627264");
    assert_eq!(c.pci, "100");
    assert_eq!(c.rsrp, "-8500");
    assert_eq!(c.rsrq, "-1100");
    assert_eq!(c.sinr, "2000");
}

#[test]
fn short_table_gives_blank_serving_cell() {
    let c = parse_primary_cell("nr", &nr_table()[0..15]);
    assert!(c.is_serving);
    assert_eq!(c.tech, "");
    assert_eq!(c.band, "");
    let unknown = parse_primary_cell("gsm", &nr_table());
    assert!(unknown.is_serving);
    assert_eq!(unknown.arfcn, "");
}

#[test]
fn nr_neighbors_stop_at_zero_pair() {
    let t = vec![
        row(&["0", "41", "0"]),
        row(&["627264", "504990", "0"]),
        row(&["100", "200", "0"]),
        row(&["-9000", "-9500", "0"]),
        row(&["-1200", "-1300", "0"]),
        row(&["500", "600", "0"]),
    ];
    let cells = parse_neighbor_cells("nr", &t);
    assert_eq!(cells.len(), 2);
    assert!(!cells[0].is_serving);
    assert_eq!(cells[0].band, "n78");
    assert_eq!(cells[0].arfcn, "627264");
    assert_eq!(cells[0].sinr, "500");
    assert_eq!(cells[1].band, "41");
    assert_eq!(cells[1].pci, "200");
}

#[test]
fn lte_neighbors_skip_short_rows() {
    let t = vec![
        row(&["1850", "12"]),
        row(&["1850", "301", "-9800", "-1000"]),
        row(&["38400", "55", "-10000", "-1100", "", "", "", "", "", "", "", "", "39"]),
        row(&["0", "0", "0", "0"]),
        row(&["100", "1", "-1", "-1"]),
    ];
    let cells = parse_neighbor_cells("lte", &t);
    assert_eq!(cells.len(), 2);
    assert_eq!(cells[0].band, "B3");
    assert_eq!(cells[0].sinr, "-");
    assert_eq!(cells[1].band, "39");
    assert_eq!(cells[1].rsrq, "-1100");
    assert!(parse_neighbor_cells("gsm", &t).is_empty());
}
