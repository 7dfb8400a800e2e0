use ue_cell_tracker::downloader::{
    determine_rnti_fair_share_type_by_path, finish_parameters, handle_downloading,
    handle_finish_download, handle_post_download, try_to_decode_rtt, try_to_extract_last_rtt,
    DownloadStreamState, TcpLogStats, TcpReadOutcome,
};
use ue_cell_tracker::logic::DownloaderState;
use ue_cell_tracker::ngscope_types::{NgScopeCellDci, NgScopeRntiDci, NGSCOPE_MAX_NOF_RNTI};

fn marker(rtt: u32) -> Vec<u8> {
    let mut m = vec![0xAA, 0xAB, 0xAC];
    m.extend_from_slice(&rtt.to_be_bytes());
    m.extend_from_slice(&[0xBA, 0xBB, 0xBC]);
    m
}

#[test]
fn test_rtt_marker_at_tail_is_decoded() {
    // any buffer ending in the marker decodes its big-endian value
    let mut buffer = vec![1u8, 2, 3, 4, 5];
    buffer.extend_from_slice(&marker(123_456));
    assert_eq!(try_to_extract_last_rtt(&buffer), Some(123_456));
    // the marker alone works too
    assert_eq!(try_to_extract_last_rtt(&marker(0)), Some(0));
    assert_eq!(try_to_extract_last_rtt(&marker(u32::MAX)), Some(u32::MAX as u64));
}

#[test]
fn test_rtt_marker_inside_buffer() {
    let mut buffer = marker(40_000);
    buffer.extend_from_slice(&[9u8, 9, 9]);
    assert_eq!(try_to_extract_last_rtt(&buffer), Some(40_000));
}

#[test]
fn test_rtt_no_marker_returns_nothing() {
    assert_eq!(try_to_extract_last_rtt(&[]), None);
    assert_eq!(try_to_extract_last_rtt(&[1, 2, 3]), None);
    let plain = vec![7u8; 200];
    assert_eq!(try_to_extract_last_rtt(&plain), None);
    // half a marker is no marker
    let mut half = vec![0xAA, 0xAB, 0xAC, 0, 0, 0, 0];
    half.extend_from_slice(&[0, 0, 0]);
    assert_eq!(try_to_extract_last_rtt(&half), None);
}

#[test]
fn test_rtt_decode_keeps_last_value() {
    let mut last = Some(40_000u64);
    let plain = vec![7u8; 50];
    assert_eq!(try_to_decode_rtt(&plain, &mut last), Some(40_000));
    let mut none = None;
    assert_eq!(try_to_decode_rtt(&plain, &mut none), None);
    let mut buffer = vec![0u8; 60];
    buffer.extend_from_slice(&marker(55_000));
    assert_eq!(try_to_decode_rtt(&buffer, &mut none), Some(55_000));
    assert_eq!(none, Some(55_000));
}

#[test]
fn test_share_type_by_path() {
    assert_eq!(determine_rnti_fair_share_type_by_path("/10s/pbe/fair2/init"), 2);
    assert_eq!(determine_rnti_fair_share_type_by_path("/60s/pbe/fair1/upper"), 1);
    assert_eq!(determine_rnti_fair_share_type_by_path("/10s/cubic"), 0);
    assert_eq!(determine_rnti_fair_share_type_by_path(""), 0);
}

#[test]
fn test_download_stream_state_new() {
    let state = DownloadStreamState::new(
        "example.org:80".to_string(),
        "/10s/pbe/fair1/init".to_string(),
    );
    assert_eq!(state.rnti_share_type, 1);
    assert_eq!(state.timedata.len(), 0);
    assert_eq!(state.dci_total_dl_bit, 0);
}

fn dci_for_download() -> NgScopeCellDci {
    let mut rnti_list = [NgScopeRntiDci::default(); NGSCOPE_MAX_NOF_RNTI];
    rnti_list[0].rnti = 77;
    rnti_list[0].dl_tbs_bit = 1000;
    rnti_list[0].dl_prb = 4;
    rnti_list[0].dl_no_tbs_prb = 1;
    rnti_list[1].rnti = 88;
    rnti_list[1].dl_tbs_bit = 500;
    rnti_list[1].dl_prb = 2;
    NgScopeCellDci { nof_rnti: 2, rnti_list, ..Default::default() }
}

#[test]
fn test_download_dci_accounting() {
    let mut state =
        DownloadStreamState::new("h:80".to_string(), "/10s/cubic".to_string());
    state.add_ngscope_dci(&dci_for_download(), Some(77));
    assert_eq!(state.dci_total_dl_bit, 1500);
    assert_eq!(state.dci_total_dl_prb_with_tbs, 6);
    assert_eq!(state.dci_total_dl_prb_no_tbs, 1);
    assert_eq!(state.dci_rnti_dl_bit, 1000);
    assert_eq!(state.dci_rnti_dl_prb_with_tbs, 4);
    assert_eq!(state.dci_rnti_dl_prb_no_tbs, 1);
    // without a known RNTI only the cell-wide sums grow
    let mut anon =
        DownloadStreamState::new("h:80".to_string(), "/10s/cubic".to_string());
    anon.add_ngscope_dci(&dci_for_download(), None);
    assert_eq!(anon.dci_total_dl_bit, 1500);
    assert_eq!(anon.dci_rnti_dl_bit, 0);
}

#[test]
fn test_downloading_eof_enters_post_download() {
    let mut state =
        DownloadStreamState::new("h:80".to_string(), "/10s/cubic".to_string());
    state.start_timestamp_us = 100;
    let (next, cfg) = handle_downloading(&mut state, &TcpReadOutcome::Data(vec![]), 5000);
    assert!(matches!(next, DownloaderState::PostDownload));
    assert!(cfg.is_none());
    assert_eq!(state.finish_timestamp_us, Some(5000));
}

#[test]
fn test_downloading_data_broadcasts_rtt() {
    let mut state =
        DownloadStreamState::new("h:80".to_string(), "/10s/pbe/fair2/init".to_string());
    state.start_timestamp_us = 100;
    let mut chunk = vec![0u8; 30];
    chunk.extend_from_slice(&marker(70_000));
    let (next, cfg) = handle_downloading(&mut state, &TcpReadOutcome::Data(chunk), 900);
    assert!(matches!(next, DownloaderState::Downloading));
    let cfg = cfg.unwrap();
    assert_eq!(cfg.rtt_us, 70_000);
    assert_eq!(cfg.rnti_share_type, 2);
    assert_eq!(state.last_rtt_us, Some(70_000));
    assert_eq!(state.timedata.len(), 1);
}

#[test]
fn test_downloading_data_without_marker_reuses_last_rtt() {
    let mut state =
        DownloadStreamState::new("h:80".to_string(), "/10s/pbe/fair2/init".to_string());
    state.start_timestamp_us = 100;
    state.last_rtt_us = Some(55_000);
    let (next, cfg) = handle_downloading(&mut state, &TcpReadOutcome::Data(vec![0u8; 40]), 900);
    assert!(matches!(next, DownloaderState::Downloading));
    assert_eq!(cfg.unwrap().rtt_us, 55_000);
    assert_eq!(state.last_rtt_us, Some(55_000));
    assert_eq!(state.timedata.len(), 1);
    assert_eq!(state.timedata[0].0, 900);
    assert_eq!(state.timedata[0].1.received_bytes, 40);
    assert_eq!(state.timedata[0].1.rtt_us, 55_000);
}

#[test]
fn test_downloading_data_without_any_rtt_records_nothing() {
    let mut state =
        DownloadStreamState::new("h:80".to_string(), "/10s/cubic".to_string());
    state.start_timestamp_us = 100;
    let (next, cfg) = handle_downloading(&mut state, &TcpReadOutcome::Data(vec![0u8; 8]), 900);
    assert!(matches!(next, DownloaderState::Downloading));
    assert!(cfg.is_none());
    assert_eq!(state.last_rtt_us, None);
    assert_eq!(state.timedata.len(), 0);
}

#[test]
fn test_downloading_would_block_times_out() {
    let mut state =
        DownloadStreamState::new("h:80".to_string(), "/10s/cubic".to_string());
    state.start_timestamp_us = 1_000_000;
    let (next, _) = handle_downloading(&mut state, &TcpReadOutcome::WouldBlock, 1_500_000);
    assert!(matches!(next, DownloaderState::Downloading));
    let (next, _) = handle_downloading(&mut state, &TcpReadOutcome::WouldBlock, 3_100_000);
    assert!(matches!(next, DownloaderState::ErrorStartingDownload(_)));
}

#[test]
fn test_downloading_connection_reset_finalises() {
    let mut state =
        DownloadStreamState::new("h:80".to_string(), "/10s/cubic".to_string());
    state.start_timestamp_us = 100;
    state.timedata.push((200, TcpLogStats { received_bytes: 50, rtt_us: 1000 }));
    state.timedata.push((300, TcpLogStats { received_bytes: 70, rtt_us: 3000 }));
    let (next, _) = handle_downloading(&mut state, &TcpReadOutcome::ConnectionReset, 400);
    match next {
        DownloaderState::FinishDownload(p) => {
            assert_eq!(p.finish_timestamp_us, 400);
            assert_eq!(p.total_download_bytes, 120);
            assert_eq!(p.average_rtt_us, 2000);
        }
        other => panic!("unexpected state {:?}", other),
    }
}

#[test]
fn test_post_download_grace_window() {
    let mut state =
        DownloadStreamState::new("h:80".to_string(), "/10s/cubic".to_string());
    state.start_timestamp_us = 100;
    state.finish_timestamp_us = Some(10_000_000);
    assert!(matches!(
        handle_post_download(&state, 11_000_000),
        DownloaderState::PostDownload
    ));
    match handle_post_download(&state, 12_000_000) {
        DownloaderState::FinishDownload(p) => {
            assert_eq!(p.finish_timestamp_us, 10_000_000);
            // nothing was received, so the average round trip is zero
            assert_eq!(p.average_rtt_us, 0);
        }
        other => panic!("unexpected state {:?}", other),
    }
}

#[test]
fn test_finish_download_pauses_then_restarts() {
    match handle_finish_download() {
        DownloaderState::SleepMs(ms, next) => {
            assert_eq!(ms, 1000);
            assert!(matches!(*next, DownloaderState::StartDownload));
        }
        other => panic!("unexpected state {:?}", other),
    }
}

#[test]
fn test_finish_parameters_copies_counters() {
    let mut state =
        DownloadStreamState::new("h:80".to_string(), "/p".to_string());
    state.start_timestamp_us = 5;
    state.dci_total_dl_bit = 42;
    state.dci_rnti_dl_bit = 21;
    let p = finish_parameters(&state, 99);
    assert_eq!(p.start_timestamp_us, 5);
    assert_eq!(p.finish_timestamp_us, 99);
    assert_eq!(p.dci_total_dl_bit, 42);
    assert_eq!(p.dci_rnti_dl_bit, 21);
    assert_eq!(p.base_addr, "h:80");
    assert_eq!(p.path, "/p");
}
