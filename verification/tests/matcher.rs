use ue_cell_tracker::logic::{MetricA, MetricTypes, RntiMatcherState, RntiMatchingErrorType};
use ue_cell_tracker::model_handler::PrbRatio;
use ue_cell_tracker::ngscope_types::{NgScopeCellDci, NgScopeRntiDci, NGSCOPE_MAX_NOF_RNTI};
use ue_cell_tracker::rnti_matcher::{
    handle_collect_dci, handle_matching_error, metric_a_to_bytes, new_matching_collection,
    next_pattern_index, next_sleep_us, prepend_metric_to_payload, select_best_rnti,
    TrafficCollection, METRIC_STRUCT_SIZE,
};
use ue_cell_tracker::traffic_patterns::{pattern_a, TrafficPatternFeatures};
use ue_cell_tracker::util::{CellRntiRingBuffer, RingBuffer};

fn dummy_features() -> TrafficPatternFeatures {
    let pattern = pattern_a();
    TrafficPatternFeatures::from_traffic_pattern(&pattern).unwrap()
}

fn dci_with_rntis(cell_id: u8, time_stamp: u64, entries: &[(u16, u32, u32)]) -> NgScopeCellDci {
    let mut rnti_list = [NgScopeRntiDci::default(); NGSCOPE_MAX_NOF_RNTI];
    for (k, (rnti, dl, ul)) in entries.iter().enumerate() {
        rnti_list[k].rnti = *rnti;
        rnti_list[k].dl_tbs_bit = *dl;
        rnti_list[k].ul_tbs_bit = *ul;
        rnti_list[k].dl_prb = 1;
    }
    NgScopeCellDci {
        cell_id,
        time_stamp,
        nof_rnti: entries.len() as u8,
        rnti_list,
        ..Default::default()
    }
}

#[test]
fn test_collection_indexes_dci_bytes() {
    let mut collection = new_matching_collection(dummy_features(), 1000, 10_000);
    // 8000 bits of uplink become 1000 bytes under RNTI 77
    let dci = dci_with_rntis(1, 2_000_000, &[(77, 0, 8000), (88, 1600, 800)]);
    collection.update_from_cell_dci(&dci);
    let cell = &collection.cell_traffic[0];
    assert_eq!(cell.0, 1);
    assert_eq!(cell.1.nof_total_dci, 1);
    assert_eq!(cell.1.first_dci_timestamp_us, 2_000_000);
    let ue77 = cell.1.traffic.iter().find(|p| p.0 == 77).unwrap();
    assert_eq!(ue77.1.total_ul_bytes, 1000);
    assert_eq!(ue77.1.total_dl_bytes, 0);
    let ue88 = cell.1.traffic.iter().find(|p| p.0 == 88).unwrap();
    assert_eq!(ue88.1.total_ul_bytes, 100);
    assert_eq!(ue88.1.total_dl_bytes, 200);
}

#[test]
fn test_collection_counts_empty_dci() {
    let mut collection = new_matching_collection(dummy_features(), 1000, 10_000);
    let empty = dci_with_rntis(1, 5, &[]);
    collection.update_from_cell_dci(&empty);
    collection.update_from_cell_dci(&dci_with_rntis(1, 9, &[(1, 8, 8)]));
    let cell = &collection.cell_traffic[0];
    assert_eq!(cell.1.nof_total_dci, 2);
    assert_eq!(cell.1.nof_empty_dci, 1);
    assert_eq!(cell.1.first_dci_timestamp_us, 5);
    assert_eq!(cell.1.last_dci_timestamp_us, 9);
}

#[test]
fn test_matching_window_close() {
    let features = dummy_features();
    let collection = new_matching_collection(features.clone(), 1000, 10_000);
    // the window closes at 1000 + 11 * 10000 / 10 = 12000
    assert_eq!(collection.finish_timestamp_ms, 12_000);
    let state = handle_collect_dci(&vec![], collection, 12_000);
    assert!(matches!(state, RntiMatcherState::MatchingProcessDci(_)));
    let collection = new_matching_collection(features, 1000, 10_000);
    let state = handle_collect_dci(&vec![], collection, 11_999);
    assert!(matches!(state, RntiMatcherState::MatchingCollectDci(_)));
}

#[test]
fn test_collect_ignores_dci_before_window() {
    let collection = new_matching_collection(dummy_features(), 1000, 10_000);
    let before = dci_with_rntis(1, 999_999, &[(5, 8, 8)]);
    let inside = dci_with_rntis(1, 1_000_000, &[(5, 8, 8)]);
    let state = handle_collect_dci(&vec![before, inside], collection, 2_000);
    match state {
        RntiMatcherState::MatchingCollectDci(c) => {
            assert_eq!(c.cell_traffic.len(), 1);
            assert_eq!(c.cell_traffic[0].1.nof_total_dci, 1);
        }
        other => panic!("unexpected state {:?}", other),
    }
}

#[test]
fn test_basic_filter_keeps_plausible_candidate() {
    let mut collection = new_matching_collection(dummy_features(), 1000, 10_000);
    // candidate 77 sends a plausible trickle over 600 subframes;
    // candidate 88 does too, but one of its subframes bursts past the
    // single-DCI uplink cap of 5 MB
    for k in 0..600u64 {
        let ul_88: u32 = if k == 0 { 41_000_000 } else { 800 };
        collection.update_from_cell_dci(&dci_with_rntis(
            1,
            2_000_000 + k,
            &[(77, 0, 800), (88, 0, ul_88)],
        ));
    }
    collection.apply_basic_filter();
    assert_eq!(collection.cell_traffic.len(), 1);
    let kept = &collection.cell_traffic[0].1.traffic;
    assert_eq!(kept.len(), 1);
    assert_eq!(kept[0].0, 77);
    let stats = collection.basic_filter_statistics.unwrap();
    // candidate 88 fell to the single-DCI uplink cap
    assert_eq!(stats.max_ul_per_dci, 1);
}

#[test]
fn test_basic_filter_drops_empty_cells() {
    let mut collection = new_matching_collection(dummy_features(), 1000, 10_000);
    // one candidate with a single tiny subframe: too little uplink
    collection.update_from_cell_dci(&dci_with_rntis(1, 2_000_000, &[(77, 0, 8)]));
    collection.apply_basic_filter();
    assert_eq!(collection.cell_traffic.len(), 0);
    let stats = collection.basic_filter_statistics.unwrap();
    assert_eq!(stats.min_total_ul, 1);
}

#[test]
fn test_matcher_stability_exact_match_wins() {
    // the candidate whose features equal the pattern has distance 0;
    // whatever else competes, it wins
    let candidates = vec![(500u16, 10_000u64), (123, 0), (900, 77), (44, 3)];
    assert_eq!(select_best_rnti(&candidates), Some(123));
    let alone = vec![(123u16, 0u64)];
    assert_eq!(select_best_rnti(&alone), Some(123));
    let more = vec![(9u16, 1u64), (123, 0), (8, 1), (7, 2), (6, 900)];
    assert_eq!(select_best_rnti(&more), Some(123));
}

#[test]
fn test_select_best_rnti_tie_breaks_low() {
    let candidates = vec![(500u16, 7u64), (123, 7), (900, 7)];
    assert_eq!(select_best_rnti(&candidates), Some(123));
    let empty: Vec<(u16, u64)> = vec![];
    assert_eq!(select_best_rnti(&empty), None);
}

#[test]
fn test_matching_error_backoff() {
    let (state, idle) =
        handle_matching_error(RntiMatchingErrorType::ErrorFindingBestMatchingRnti);
    assert!(idle);
    match state {
        RntiMatcherState::SleepMs(ms, next) => {
            assert_eq!(ms, 1000);
            assert!(matches!(*next, RntiMatcherState::StartMatching));
        }
        other => panic!("unexpected state {:?}", other),
    }
    let (_, idle) = handle_matching_error(RntiMatchingErrorType::ExceededDciTimestampDelta);
    assert!(!idle);
}

#[test]
fn test_generator_timing_discipline() {
    // first packet: the full scheduled time
    assert_eq!(next_sleep_us(5, None, 1_000_000), 5000);
    // 2 ms late since the last send: sleep is shortened by the excess
    assert_eq!(next_sleep_us(5, Some(1_000_000), 1_002_000), 3000);
    // already past the scheduled gap: the full scheduled time again
    assert_eq!(next_sleep_us(5, Some(1_000_000), 1_009_000), 5000);
}

#[test]
fn test_pattern_round_robin() {
    assert_eq!(next_pattern_index(0, 3), 1);
    assert_eq!(next_pattern_index(2, 3), 0);
}

#[test]
fn test_winner_rings_mode() {
    let mut ring = RingBuffer::new(5);
    for v in [7u16, 8, 7, 9, 7, 8] {
        ring.add(v);
    }
    // the ring keeps the last five: 8 7 9 7 8 -- 7 and 8 tie at 2
    let m = ring.most_frequent().unwrap();
    assert!(m == 7 || m == 8);
    let mut ring2 = RingBuffer::new(5);
    for v in [3u16, 3, 4, 3, 5] {
        ring2.add(v);
    }
    assert_eq!(ring2.most_frequent(), Some(3));
    assert_eq!(RingBuffer::new(5).most_frequent(), None);
}

#[test]
fn test_cell_winner_rings() {
    let mut rings = CellRntiRingBuffer::new(5);
    rings.update(&vec![(1u64, 40u16), (2, 50)]);
    rings.update(&vec![(1, 40), (2, 51)]);
    rings.update(&vec![(1, 41), (2, 51)]);
    let winners = rings.most_frequent();
    assert_eq!(winners.len(), 2);
    assert_eq!(winners.iter().find(|p| p.0 == 1).unwrap().1, 40);
    assert_eq!(winners.iter().find(|p| p.0 == 2).unwrap().1, 51);
}

#[test]
fn test_metric_side_channel_layout() {
    let metric = MetricA {
        timestamp_us: 0x0102030405060708,
        fair_share_send_rate: 31335,
        latest_dci_timestamp_us: 2,
        oldest_dci_timestamp_us: 1,
        nof_dci: 300,
        no_tbs_prb_ratio: PrbRatio { no_tbs_prb: 3, total_prb: 21 },
        flag_phy_rate_all_rnti: 1,
        phy_rate: 512,
    };
    let bytes = metric_a_to_bytes(&metric);
    assert_eq!(bytes.len(), METRIC_STRUCT_SIZE);
    assert_eq!(bytes[0], 0x08);
    assert_eq!(bytes[7], 0x01);
    assert_eq!(u16::from_le_bytes([bytes[32], bytes[33]]), 300);
    assert_eq!(bytes[50], 1);
    assert_eq!(u64::from_le_bytes(bytes[51..59].try_into().unwrap()), 512);

    let mut payload = vec![0xAA; 100];
    let tail_before = payload[70];
    assert!(prepend_metric_to_payload(&mut payload, &MetricTypes::A(metric)).is_ok());
    assert_eq!(&payload[0..4], &[0x11, 0x21, 0x12, 0x22]);
    assert_eq!(payload[4], 1);
    assert_eq!(&payload[5..5 + METRIC_STRUCT_SIZE], bytes.as_slice());
    assert_eq!(payload[70], tail_before);

    let mut short = vec![0u8; 10];
    assert!(prepend_metric_to_payload(&mut short, &MetricTypes::A(metric)).is_err());
    assert_eq!(short, vec![0u8; 10]);
}

#[test]
fn test_state_names() {
    assert_eq!(RntiMatcherState::Running.name(), "Running");
    assert_eq!(RntiMatcherState::Stopped.name(), "Stopped");
    let c = new_matching_collection(dummy_features(), 0, 0);
    assert_eq!(RntiMatcherState::MatchingCollectDci(Box::new(c)).name(), "MatchingCollectDci");
}

#[test]
fn test_saturating_traffic_totals() {
    let mut collection = TrafficCollection {
        cell_traffic: Vec::new(),
        start_timestamp_ms: 0,
        finish_timestamp_ms: 0,
        traffic_pattern_features: dummy_features(),
        basic_filter_statistics: None,
    };
    // two DCIs of maximal uplink bits under one RNTI saturate the total
    let big = dci_with_rntis(1, 1, &[(5, 0, u32::MAX)]);
    for _ in 0..3 {
        collection.update_from_cell_dci(&big);
    }
    let ue = &collection.cell_traffic[0].1.traffic[0].1;
    assert_eq!(ue.total_ul_bytes, 3 * (u32::MAX as u64 / 8));
}
