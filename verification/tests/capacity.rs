use ue_cell_tracker::cell_info::{CellInfo, CellularType, SingleCell};
use ue_cell_tracker::model_handler::{
    build_metric_a, calculate_capacity, translate_physcial_to_transport_simple, DciRingBuffer,
    ModelError, RNTI_SHARE_TYPE_ALL, RNTI_SHARE_TYPE_DL_OCCURENCES, RNTI_SHARE_TYPE_GREEDY,
};
use ue_cell_tracker::ngscope_types::{NgScopeCellDci, NgScopeRntiDci, NGSCOPE_MAX_NOF_RNTI};

fn dummy_rnti_dci(nof_rnti: u8) -> [NgScopeRntiDci; NGSCOPE_MAX_NOF_RNTI] {
    let mut rnti_list = [NgScopeRntiDci::default(); NGSCOPE_MAX_NOF_RNTI];
    for i in 0..nof_rnti {
        rnti_list[0].dl_tbs_bit = 1024;
        rnti_list[0].dl_prb = 2 + i;
        rnti_list[0].rnti = 123 + i as u16;
    }
    rnti_list
}

fn dummy_dci_slice() -> Vec<NgScopeCellDci> {
    vec![
        NgScopeCellDci {
            nof_rnti: 2,
            total_dl_prb: 5,
            rnti_list: dummy_rnti_dci(2),
            ..Default::default()
        },
        NgScopeCellDci {
            nof_rnti: 1,
            total_dl_prb: 2,
            rnti_list: dummy_rnti_dci(1),
            ..Default::default()
        },
        NgScopeCellDci {
            nof_rnti: 4,
            total_dl_prb: 14,
            rnti_list: dummy_rnti_dci(4),
            ..Default::default()
        },
    ]
}

fn dummy_cell_info() -> CellInfo {
    CellInfo {
        cells: vec![SingleCell {
            cell_id: 0,
            cell_type: CellularType::LTE,
            nof_prb: 100,
            frequency: 0,
            rssi_milli_dbm: 0,
            rsrp_milli_dbm: 0,
            rsrq_milli_db: 0,
            dl_est: None,
            ul_est: None,
        }],
    }
}

#[test]
fn test_capacity() {
    let dummy_rnti: u16 = 123;
    let metric_params = calculate_capacity(
        dummy_rnti,
        &dummy_cell_info(),
        &dummy_dci_slice(),
        RNTI_SHARE_TYPE_ALL,
    )
    .unwrap();
    assert_eq!(metric_params.result.physical_fair_share_capacity_bit_per_ms, 33621);
    assert_eq!(metric_params.result.physical_rate_bit_per_prb, 512);
    assert_eq!(metric_params.result.physical_rate_coarse_flag, 0);
    assert_eq!(metric_params.result.no_tbs_prb_ratio.no_tbs_prb, 0);
}

#[test]
fn test_capacity_basis_fields() {
    let m = calculate_capacity(123, &dummy_cell_info(), &dummy_dci_slice(), RNTI_SHARE_TYPE_ALL)
        .unwrap();
    assert_eq!(m.basis.nof_dci, 3);
    assert_eq!(m.basis.p_cell, 600);
    assert_eq!(m.basis.p_alloc, 21);
    assert_eq!(m.basis.p_alloc_no_tbs, 0);
    assert_eq!(m.basis.nof_rnti_in_dci, 3);
    assert_eq!(m.basis.nof_rnti_shared, 3);
    assert_eq!(m.basis.target_rnti, 123);
    assert_eq!(m.basis.tbs_alloc_rnti_bit, 1024);
    assert_eq!(m.basis.p_alloc_rnti, 2);
    // idle PRBs 579, shared by 3, rounded up: 2 + 193
    assert_eq!(m.basis.p_alloc_rnti_suggested, 195);
}

#[test]
fn test_capacity_greedy_share() {
    let m = calculate_capacity(123, &dummy_cell_info(), &dummy_dci_slice(), RNTI_SHARE_TYPE_GREEDY)
        .unwrap();
    assert_eq!(m.basis.nof_rnti_shared, 1);
    assert_eq!(m.basis.rnti_share_type, RNTI_SHARE_TYPE_GREEDY);
    // all 579 idle PRBs go to the UE: suggested = 2 + 579
    assert_eq!(m.basis.p_alloc_rnti_suggested, 581);
}

#[test]
fn test_capacity_occurrence_share() {
    // threshold is 3 / 10 == 0, so every active RNTI counts
    let m = calculate_capacity(
        123,
        &dummy_cell_info(),
        &dummy_dci_slice(),
        RNTI_SHARE_TYPE_DL_OCCURENCES,
    )
    .unwrap();
    assert_eq!(m.basis.rnti_share_type, RNTI_SHARE_TYPE_DL_OCCURENCES);
    assert_eq!(m.basis.nof_rnti_shared, 3);
}

#[test]
fn test_capacity_zero_dci_is_rejected() {
    let empty: Vec<NgScopeCellDci> = vec![];
    assert_eq!(
        calculate_capacity(123, &dummy_cell_info(), &empty, RNTI_SHARE_TYPE_ALL),
        Err(ModelError::ZeroDci)
    );
}

#[test]
fn test_capacity_excessive_allocation_is_rejected() {
    let mut info = dummy_cell_info();
    info.cells[0].nof_prb = 1;
    // the slice allocates 21 PRBs but the cell only offers 2 * 1 * 3 = 6
    assert_eq!(
        calculate_capacity(123, &info, &dummy_dci_slice(), RNTI_SHARE_TYPE_ALL),
        Err(ModelError::ExcessivePrbAllocation)
    );
}

#[test]
fn test_capacity_fallback_rate_without_allocation() {
    let slice = vec![NgScopeCellDci::default()];
    let m = calculate_capacity(123, &dummy_cell_info(), &slice, RNTI_SHARE_TYPE_ALL).unwrap();
    // nothing allocated anywhere: the historical constant applies
    assert_eq!(m.result.physical_rate_bit_per_prb, 500);
    assert_eq!(m.result.physical_rate_coarse_flag, 1);
}

#[test]
fn test_capacity_coarse_rate_for_foreign_rnti() {
    // target 999 never appears; the cell-wide rate is used, and the
    // slice carries no aggregate TBS bits at all
    let m = calculate_capacity(999, &dummy_cell_info(), &dummy_dci_slice(), RNTI_SHARE_TYPE_ALL)
        .unwrap();
    assert_eq!(m.result.physical_rate_coarse_flag, 1);
    assert_eq!(m.result.physical_rate_bit_per_prb, 0);
}

#[test]
fn test_transport_translation_rounding() {
    // 0.932 * 1000 = 932
    assert_eq!(translate_physcial_to_transport_simple(1000), 932);
    // 0.932 * 33621 = 31334.772, rounded to nearest
    assert_eq!(translate_physcial_to_transport_simple(33621), 31335);
    assert_eq!(translate_physcial_to_transport_simple(0), 0);
}

#[test]
fn test_ring_buffer_slice_monotonicity() {
    let mut ring = DciRingBuffer::new();
    for k in 0..500u64 {
        let mut dci = NgScopeCellDci::default();
        dci.time_stamp = k;
        ring.push(dci);
    }
    let slice = ring.slice(100);
    assert_eq!(slice.len(), 100);
    for (offset, dci) in slice.iter().enumerate() {
        assert_eq!(dci.time_stamp, 400 + offset as u64);
    }
    let all = ring.slice(10_000);
    assert_eq!(all.len(), 500);
    assert_eq!(all[0].time_stamp, 0);
    assert_eq!(ring.slice(0).len(), 0);
}

#[test]
fn test_ring_buffer_wrap_keeps_recent_entries() {
    let mut ring = DciRingBuffer::new();
    for k in 0..10_500u64 {
        let mut dci = NgScopeCellDci::default();
        dci.time_stamp = k;
        ring.push(dci);
    }
    // after the wrap at 10 000 the last 1000 survived, then 500 more
    let slice = ring.slice(1500);
    assert_eq!(slice.len(), 1500);
    assert_eq!(slice[0].time_stamp, 9000);
    assert_eq!(slice[1499].time_stamp, 10_499);
    // ordering of retained entries is insertion order
    for w in slice.windows(2) {
        assert!(w[0].time_stamp < w[1].time_stamp);
    }
}

#[test]
fn test_metric_record_assembly() {
    let mut slice = dummy_dci_slice();
    slice[0].time_stamp = 100;
    slice[1].time_stamp = 200;
    slice[2].time_stamp = 300;
    let m = calculate_capacity(123, &dummy_cell_info(), &slice, RNTI_SHARE_TYPE_ALL).unwrap();
    let record = build_metric_a(&m, &slice, 999);
    assert_eq!(record.timestamp_us, 999);
    assert_eq!(record.oldest_dci_timestamp_us, 100);
    assert_eq!(record.latest_dci_timestamp_us, 300);
    assert_eq!(record.nof_dci, 3);
    assert_eq!(record.fair_share_send_rate, 31335);
    assert_eq!(record.phy_rate, 512);
    assert_eq!(record.flag_phy_rate_all_rnti, 0);
}

#[test]
fn test_capacity_value_overflow_is_rejected() {
    // one DCI claiming the largest possible TBS makes the fair-share
    // rate outgrow its word
    let mut dci = NgScopeCellDci::default();
    dci.total_dl_tbs_bit = u64::MAX;
    dci.total_dl_prb = 1;
    let slice = vec![dci];
    assert_eq!(
        calculate_capacity(123, &dummy_cell_info(), &slice, RNTI_SHARE_TYPE_ALL),
        Err(ModelError::ValueOverflow)
    );
}
