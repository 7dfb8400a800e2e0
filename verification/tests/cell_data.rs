use ue_cell_tracker::cell_info::{
    arfcn_to_frequency, cgi_extract_signal_dbm, cgi_extract_trailing_value_milli,
    cgi_response_extract_cell_id, cgi_response_extract_cell_type, cgi_response_extract_frequency,
    cgi_response_extract_rsrp, cgi_response_extract_rsrq, cgi_response_extract_rssi,
    parse_hex_u64, parse_u64_decimal, prb_from_cell_id, CellData, CellInfo, CellInfoError,
    CellularType, SingleCell,
};

fn dummy_response() -> serde_json::Value {
    let raw = r#"{
        "result": [
            {
                "get": [
                    {
                        "value": {
                            "modem": {
                                "signal": "31asu (-51dBm)",
                                "net_type": "LTE",
                                "cellid": "1C17302"
                            },
                            "more": {
                                "rsrp": "-77dBm",
                                "rsrq": "-8dB",
                                "earfcn": "1300"
                            }
                        }
                    }
                ]
            }
        ]
    }"#;
    serde_json::from_str(raw).expect("fixture must parse")
}

#[test]
fn test_arfcn_to_frequency_lte() {
    let af_map_lte = [
        (2750, 2620000000u64),
        (1710, 1856000000),
        (4400, 2135000000),
        (5300, 760000000),
        (6000, 875000000),
        (6300, 806000000),
        (300, 2140000000),
    ];
    let cell_type = CellularType::LTE;
    assert_eq!(arfcn_to_frequency(af_map_lte[0].0, &cell_type).unwrap(), af_map_lte[0].1);
    assert_eq!(arfcn_to_frequency(af_map_lte[1].0, &cell_type).unwrap(), af_map_lte[1].1);
    assert_eq!(arfcn_to_frequency(af_map_lte[2].0, &cell_type).unwrap(), af_map_lte[2].1);
    assert_eq!(arfcn_to_frequency(af_map_lte[3].0, &cell_type).unwrap(), af_map_lte[3].1);
    assert_eq!(arfcn_to_frequency(af_map_lte[4].0, &cell_type).unwrap(), af_map_lte[4].1);
    assert_eq!(arfcn_to_frequency(af_map_lte[5].0, &cell_type).unwrap(), af_map_lte[5].1);
    assert_eq!(arfcn_to_frequency(af_map_lte[6].0, &cell_type).unwrap(), af_map_lte[6].1);
}

#[test]
fn test_arfcn_to_frequency_nr() {
    let af_map_nr = [
        (151600, 758000000u64),
        (361000, 1805000000),
        (422000, 2110000000),
        (620000, 3300000000),
        (2016667, 24250080000),
    ];
    let cell_type = CellularType::NR;
    assert_eq!(arfcn_to_frequency(af_map_nr[0].0, &cell_type).unwrap(), af_map_nr[0].1);
    assert_eq!(arfcn_to_frequency(af_map_nr[1].0, &cell_type).unwrap(), af_map_nr[1].1);
    assert_eq!(arfcn_to_frequency(af_map_nr[2].0, &cell_type).unwrap(), af_map_nr[2].1);
    assert_eq!(arfcn_to_frequency(af_map_nr[3].0, &cell_type).unwrap(), af_map_nr[3].1);
    assert_eq!(arfcn_to_frequency(af_map_nr[4].0, &cell_type).unwrap(), af_map_nr[4].1);
}

#[test]
fn test_arfcn_out_of_range_is_rejected() {
    assert_eq!(
        arfcn_to_frequency(2700, &CellularType::LTE),
        Err(CellInfoError::ArfcnOutOfRange)
    );
    assert_eq!(
        arfcn_to_frequency(999_999_999, &CellularType::LTE),
        Err(CellInfoError::ArfcnOutOfRange)
    );
    assert_eq!(
        arfcn_to_frequency(100_000_000_000, &CellularType::NR),
        Err(CellInfoError::ArfcnOutOfRange)
    );
}

#[test]
fn test_cgi_response_extract_cell_id() {
    let cell_id = cgi_response_extract_cell_id(&dummy_response()).unwrap();
    assert_eq!(cell_id, 0x1C17302);
}

#[test]
fn test_cgi_response_extract_cell_type() {
    let cell_type = cgi_response_extract_cell_type(&dummy_response()).unwrap();
    assert_eq!(cell_type, CellularType::LTE);
}

#[test]
fn test_cgi_response_extract_frequency() {
    let frequency =
        cgi_response_extract_frequency(&dummy_response(), &CellularType::LTE).unwrap();
    assert_eq!(frequency, 1815000000);
}

#[test]
fn test_cgi_response_extract_rssi() {
    let rssi = cgi_response_extract_rssi(&dummy_response()).unwrap();
    assert_eq!(rssi as f64 / 1000.0, -51.0);
}

#[test]
fn test_cgi_response_extract_rsrp() {
    let rsrp = cgi_response_extract_rsrp(&dummy_response()).unwrap();
    assert_eq!(rsrp as f64 / 1000.0, -77.0);
}

#[test]
fn test_cgi_response_extract_rsrq() {
    let rsrq = cgi_response_extract_rsrq(&dummy_response()).unwrap();
    assert_eq!(rsrq as f64 / 1000.0, -8.0);
}

#[test]
fn test_from_cgi_response_whole_cell() {
    let cell_info = CellInfo::from_cgi_response(&dummy_response()).unwrap();
    assert_eq!(cell_info.cells.len(), 1);
    let cell = &cell_info.cells[0];
    assert_eq!(cell.cell_id, 0x1C17302);
    assert_eq!(cell.cell_type, CellularType::LTE);
    assert_eq!(cell.rssi_milli_dbm as f64 / 1000.0, -51.0);
    assert_eq!(cell.rsrp_milli_dbm as f64 / 1000.0, -77.0);
    assert_eq!(cell.rsrq_milli_db as f64 / 1000.0, -8.0);
    assert_eq!(cell.frequency, 1815000000);
}

#[test]
fn test_cgi_response_missing_field() {
    let raw = r#"{"result": []}"#;
    let value: serde_json::Value = serde_json::from_str(raw).unwrap();
    assert_eq!(
        cgi_response_extract_cell_id(&value),
        Err(CellInfoError::MissingField)
    );
}

#[test]
fn test_devpub_from_celldata() {
    let cell_data = vec![CellData {
        nodeB: Some(20321),
        cid: None,
        pci: None,
        type_str: "LTE".to_string(),
        arfcn: 1801,
        band: "1800".to_string(),
        rssi_milli_dbm: -89_000,
        rsrp_milli_dbm: -120_000,
        rsrq_milli_db: -13_000,
        estimated_down_bandwidth: Some(18245),
        estimated_up_bandwidth: Some(9064),
    }];
    let cell_info = CellInfo::from_devpub_celldata(cell_data).unwrap();
    assert_eq!(cell_info.cells.first().unwrap().cell_id, 20321);
    assert_eq!(cell_info.cells.first().unwrap().cell_type, CellularType::LTE);
    assert_eq!(cell_info.cells.first().unwrap().rssi_milli_dbm as f64 / 1000.0, -89.0);
    assert_eq!(cell_info.cells.first().unwrap().rsrp_milli_dbm as f64 / 1000.0, -120.0);
    assert_eq!(cell_info.cells.first().unwrap().rsrq_milli_db as f64 / 1000.0, -13.0);
    assert_eq!(cell_info.cells.first().unwrap().frequency, 1865100000);
}

#[test]
fn test_devpub_unknown_type_is_rejected() {
    let cell_data = vec![CellData {
        nodeB: Some(1),
        cid: None,
        pci: None,
        type_str: "GSM".to_string(),
        arfcn: 100,
        band: "900".to_string(),
        rssi_milli_dbm: 0,
        rsrp_milli_dbm: 0,
        rsrq_milli_db: 0,
        estimated_down_bandwidth: None,
        estimated_up_bandwidth: None,
    }];
    assert_eq!(
        CellInfo::from_devpub_celldata(cell_data),
        Err(CellInfoError::UnknownCellType)
    );
}

#[test]
fn test_safe_id_preference() {
    let mut cell = CellData {
        nodeB: Some(3),
        cid: Some(1),
        pci: Some(2),
        type_str: "LTE".to_string(),
        arfcn: 300,
        band: "1".to_string(),
        rssi_milli_dbm: 0,
        rsrp_milli_dbm: 0,
        rsrq_milli_db: 0,
        estimated_down_bandwidth: None,
        estimated_up_bandwidth: None,
    };
    assert_eq!(cell.safe_id(), 1);
    cell.cid = None;
    assert_eq!(cell.safe_id(), 2);
    cell.pci = None;
    assert_eq!(cell.safe_id(), 3);
    cell.nodeB = None;
    assert_eq!(cell.safe_id(), 0);
}

#[test]
fn test_equal_content_ignores_identity() {
    let cell = |id: u64, freq: u64| SingleCell {
        cell_id: id,
        cell_type: CellularType::LTE,
        nof_prb: 100,
        frequency: freq,
        rssi_milli_dbm: 0,
        rsrp_milli_dbm: 0,
        rsrq_milli_db: 0,
        dl_est: None,
        ul_est: None,
    };
    let a = CellInfo { cells: vec![cell(1, 1815000000)] };
    let b = CellInfo { cells: vec![cell(2, 1815000000)] };
    let c = CellInfo { cells: vec![cell(1, 2140000000)] };
    assert!(CellInfo::equal_content(&a, &b));
    assert!(!CellInfo::equal_content(&a, &c));
    assert!(!CellInfo::equal_content(&a, &CellInfo { cells: vec![] }));
}

#[test]
fn test_equal_content_is_one_to_one() {
    let cell = |id: u64, freq: u64| SingleCell {
        cell_id: id,
        cell_type: CellularType::LTE,
        nof_prb: 100,
        frequency: freq,
        rssi_milli_dbm: 0,
        rsrp_milli_dbm: 0,
        rsrq_milli_db: 0,
        dl_est: None,
        ul_est: None,
    };
    // two cells on one carrier do not match one cell each on two carriers
    let twice = CellInfo { cells: vec![cell(1, 1815000000), cell(2, 1815000000)] };
    let split = CellInfo { cells: vec![cell(1, 1815000000), cell(2, 2140000000)] };
    assert!(!CellInfo::equal_content(&twice, &split));
    assert!(!CellInfo::equal_content(&split, &twice));
    // the same multiset in another order does match
    let swapped = CellInfo { cells: vec![cell(7, 2140000000), cell(8, 1815000000)] };
    assert!(CellInfo::equal_content(&split, &swapped));
}

#[test]
fn test_prb_lookup() {
    assert_eq!(prb_from_cell_id(21), 50);
    assert_eq!(prb_from_cell_id(6), 50);
    assert_eq!(prb_from_cell_id(41), 100);
    assert_eq!(prb_from_cell_id(12345), 100);
}

#[test]
fn test_parse_hex_u64_values() {
    assert_eq!(parse_hex_u64("1C17302").unwrap(), 0x1C17302);
    assert_eq!(parse_hex_u64("ff").unwrap(), 255);
    assert_eq!(parse_hex_u64("0").unwrap(), 0);
    assert!(parse_hex_u64("").is_err());
    assert!(parse_hex_u64("12G4").is_err());
    assert!(parse_hex_u64("10000000000000000").is_err());
}

#[test]
fn test_parse_u64_decimal_values() {
    assert_eq!(parse_u64_decimal("1300").unwrap(), 1300);
    assert_eq!(parse_u64_decimal("0").unwrap(), 0);
    assert!(parse_u64_decimal("").is_err());
    assert!(parse_u64_decimal("12a").is_err());
    assert!(parse_u64_decimal("99999999999999999999").is_err());
}

#[test]
fn test_signal_extraction_variants() {
    assert_eq!(cgi_extract_signal_dbm("31asu (-51dBm)").unwrap(), -51);
    assert_eq!(cgi_extract_signal_dbm("(20dBm) trailing").unwrap(), 20);
    // the leftmost reading wins
    assert_eq!(cgi_extract_signal_dbm("(-3dBm) and (7dBm)").unwrap(), -3);
    assert_eq!(
        cgi_extract_signal_dbm("no reading here"),
        Err(CellInfoError::SignalNotFound)
    );
    assert_eq!(cgi_extract_signal_dbm("(dBm)"), Err(CellInfoError::SignalNotFound));
}

#[test]
fn test_trailing_unit_extraction() {
    assert_eq!(cgi_extract_trailing_value_milli("-77dBm", 3).unwrap(), -77_000);
    assert_eq!(cgi_extract_trailing_value_milli("-8dB", 2).unwrap(), -8_000);
    assert_eq!(cgi_extract_trailing_value_milli(" -77.5 dBm", 3).unwrap(), -77_500);
    assert_eq!(cgi_extract_trailing_value_milli("12.3dB", 2).unwrap(), 12_300);
    assert!(cgi_extract_trailing_value_milli("dB", 2).is_err());
    assert!(cgi_extract_trailing_value_milli("abcdBm", 3).is_err());
}
