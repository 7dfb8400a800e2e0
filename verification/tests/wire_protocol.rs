use ue_cell_tracker::ngscope_types::{
    ngscope_extract_packet, Message, MessageType, NgScopeCellConfig, NgScopeCellDci, NgScopeError,
    NGSCOPE_STRUCT_SIZE_CELL_DCI,
};

const DUMMY_CONFIG: [u8; 16] = [187, 187, 187, 187, 1, 0, 50, 0, 0, 0, 0, 0, 0, 0, 71, 74];
const DUMMY_DCI: [u8; 45] = [
    170, 170, 170, 170, 0, 0, 0, 0, 0, 0, 0, 0, 0, 24, 108, 27, 83, 116, 18, 6, 0, 211, 31, 71,
    74, 0, 0, 0, 0, 0, 0, 0, 0, 0, 0, 0, 0, 0, 0, 255, 255, 0, 0, 0, 0,
];
const DUMMY_START: [u8; 4] = [204, 204, 204, 204];
const DUMMY_EXIT: [u8; 4] = [255, 255, 255, 255];

#[test]
fn test_extract_config() {
    let result = ngscope_extract_packet(&DUMMY_CONFIG);
    assert!(result.is_ok());
    if let Ok((msg_type, content)) = result {
        assert_eq!(msg_type, MessageType::Config);
        assert_eq!(content, [1, 0, 50, 0, 0, 0, 0, 0, 0, 0, 71, 74].to_vec());
    }
}

#[test]
fn test_extract_dci() {
    let result = ngscope_extract_packet(&DUMMY_DCI);
    assert!(result.is_ok());
    if let Ok((msg_type, content)) = result {
        assert_eq!(msg_type, MessageType::Dci);
        assert_eq!(
            content,
            [
                0, 0, 0, 0, 0, 0, 0, 0, 0, 24, 108, 27, 83, 116, 18, 6, 0, 211, 31, 71, 74, 0, 0,
                0, 0, 0, 0, 0, 0, 0, 0, 0, 0, 0, 0, 255, 255, 0, 0, 0, 0
            ]
            .to_vec()
        );
    }
}

#[test]
fn test_extract_start() {
    let result = ngscope_extract_packet(&DUMMY_START);
    let empty_vec: Vec<u8> = vec![];
    assert!(result.is_ok());
    if let Ok((msg_type, content)) = result {
        assert_eq!(msg_type, MessageType::Start);
        assert_eq!(content, empty_vec);
    }
}

#[test]
fn test_extract_exit() {
    let result = ngscope_extract_packet(&DUMMY_EXIT);
    let empty_vec: Vec<u8> = vec![];
    assert!(result.is_ok());
    if let Ok((msg_type, content)) = result {
        assert_eq!(msg_type, MessageType::Exit);
        assert_eq!(content, empty_vec);
    }
}

#[test]
fn test_extract_err_too_few_bytes() {
    let result = ngscope_extract_packet(&[123, 123]);
    assert!(result.is_err());
}

#[test]
fn test_extract_err_b() {
    let result = ngscope_extract_packet(&[255, 255, 123, 234, 123]);
    assert!(result.is_err());
}

#[test]
fn test_message_type_round_trip() {
    for t in [
        MessageType::Start,
        MessageType::Dci,
        MessageType::CellDci,
        MessageType::Config,
        MessageType::Exit,
    ] {
        let bytes = t.to_bytes();
        assert_eq!(MessageType::from_bytes(&bytes), Some(t));
    }
    assert_eq!(MessageType::from_bytes(&[1, 2, 3, 4]), None);
    assert_eq!(MessageType::from_bytes(&[0xCC, 0xCC, 0xCC, 0xCD]), None);
}

#[test]
fn test_message_from_bytes_start_and_exit() {
    // a full frame carries the version byte after the preamble
    let start_frame = [0xCC, 0xCC, 0xCC, 0xCC, 1];
    assert!(matches!(Message::from_bytes(&start_frame), Ok(Message::Start)));
    let exit_frame = [0xFF, 0xFF, 0xFF, 0xFF, 1];
    assert!(matches!(Message::from_bytes(&exit_frame), Ok(Message::Exit)));
}

#[test]
fn test_message_from_bytes_too_short() {
    assert_eq!(Message::from_bytes(&[0xCC, 0xCC, 0xCC, 0xCC]), Err(NgScopeError::TooShort));
    assert_eq!(Message::from_bytes(&[]), Err(NgScopeError::TooShort));
}

#[test]
fn test_message_from_bytes_unknown_preamble() {
    assert_eq!(
        Message::from_bytes(&[9, 9, 9, 9, 1, 0]),
        Err(NgScopeError::UnknownPreamble)
    );
}

#[test]
fn test_message_from_bytes_wrong_payload_size() {
    let mut frame = vec![0xAB, 0xAB, 0xAB, 0xAB, 1];
    frame.extend_from_slice(&[0; 10]);
    assert_eq!(Message::from_bytes(&frame), Err(NgScopeError::WrongPayloadSize));
}

#[test]
fn test_cell_dci_from_bytes_fields() {
    let mut payload = [0u8; NGSCOPE_STRUCT_SIZE_CELL_DCI];
    payload[0] = 7; // cell_id
    payload[8] = 0x10; // time_stamp low byte
    payload[9] = 0x27; // time_stamp second byte: 0x2710 = 10000
    payload[16] = 0x34; // tti low
    payload[17] = 0x12; // tti high: 0x1234
    payload[24] = 42; // total_dl_tbs_bit
    payload[40] = 5; // total_dl_prb
    payload[42] = 2; // total_dl_no_tbs_prb
    payload[44] = 1; // nof_rnti
    // first RNTI record at offset 48
    payload[48] = 0xEA; // rnti low
    payload[49] = 0x00; // rnti high: 234
    payload[52] = 0x00;
    payload[53] = 0x04; // dl_tbs_bit = 0x0400 = 1024
    payload[56] = 3; // dl_prb
    let dci = NgScopeCellDci::from_bytes(&payload).unwrap();
    assert_eq!(dci.cell_id, 7);
    assert_eq!(dci.time_stamp, 10000);
    assert_eq!(dci.tti, 0x1234);
    assert_eq!(dci.total_dl_tbs_bit, 42);
    assert_eq!(dci.total_dl_prb, 5);
    assert_eq!(dci.total_dl_no_tbs_prb, 2);
    assert_eq!(dci.nof_rnti, 1);
    assert_eq!(dci.rnti_list[0].rnti, 234);
    assert_eq!(dci.rnti_list[0].dl_tbs_bit, 1024);
    assert_eq!(dci.rnti_list[0].dl_prb, 3);
}

#[test]
fn test_cell_config_from_bytes_fields() {
    // the payload of DUMMY_CONFIG after the preamble, version byte first
    let payload = [0u8, 1, 50, 0, 0, 0, 0, 0, 0, 0, 71, 74];
    let config = NgScopeCellConfig::from_bytes(&payload[..]).unwrap();
    assert_eq!(config.cell_prb[0], 50);
    assert_eq!(u16::from_le_bytes([71, 74]), config.rnti);
}
