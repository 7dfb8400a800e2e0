use ue_cell_tracker::model_handler::{determine_sending_interval, determine_smoothing_size};
use ue_cell_tracker::ngscope_config::{
    render_config, NgScopeConfig, NgScopeConfigDciLog, NgScopeConfigRfDev,
};
use ue_cell_tracker::parse::{
    CellApiConfig, DevicePublisherArgs, DynamicValue, FlattenedCellApiConfig, FlattenedModelArgs,
    FlattenedNgScopeSdrConfigArgsB, MilesightArgs, ModelArgs, NgScopeSdrConfigArgsB,
};
use ue_cell_tracker::traffic_patterns::{
    generate_incremental_pattern, pattern_a, pattern_g, pattern_o, pattern_z,
    RntiMatchingTrafficPatternType, TrafficPattern, TrafficPatternFeatures,
};

#[test]
fn test_incremental_pattern_shape() {
    let messages = generate_incremental_pattern(5, 7, 10000, 1);
    assert_eq!(messages.len(), 2001);
    assert_eq!(messages[0].payload.len(), 1);
    assert_eq!(messages[1].payload.len(), 2);
    assert_eq!(messages[7].payload.len(), 128);
    assert_eq!(messages[1999].payload.len(), 128);
    assert_eq!(messages[0].time_ms, 5);
    // the trailer sleeps the pause time and repeats the largest payload
    assert_eq!(messages[2000].time_ms, 1);
    assert_eq!(messages[2000].payload.len(), 128);
}

#[test]
fn test_pattern_catalogue_lengths() {
    assert_eq!(pattern_a().messages.len(), 10001);
    assert_eq!(pattern_g().messages.len(), 2000);
    assert_eq!(pattern_o().messages.len(), 3150);
    assert_eq!(pattern_z().messages.len(), 6001);
}

#[test]
fn test_generate_pattern_dispatch() {
    for t in [
        RntiMatchingTrafficPatternType::A,
        RntiMatchingTrafficPatternType::G,
        RntiMatchingTrafficPatternType::Q,
        RntiMatchingTrafficPatternType::Z,
    ] {
        let p = t.generate_pattern();
        assert_eq!(p.pattern_type, t);
        assert!(p.total_time_ms() > 0);
    }
}

#[test]
fn test_pattern_features() {
    let pattern = pattern_a();
    let features = TrafficPatternFeatures::from_traffic_pattern(&pattern).unwrap();
    assert_eq!(features.nof_packets, 10001);
    assert_eq!(features.total_ul_bytes, pattern.total_ul_bytes());
    assert_eq!(features.std_vec.len(), 8);
    // pattern A: 10000 ms of packets plus the trailing 1 ms
    assert_eq!(pattern.total_time_ms(), 10001);
}

#[test]
fn test_ngscope_config_defaults() {
    let config = NgScopeConfig::default();
    assert_eq!(config.nof_rf_dev, 1);
    assert_eq!(config.rnti, 0xffff);
    let rf = config.rf_config0.unwrap();
    assert_eq!(rf.rf_freq, 796000000);
    assert_eq!(rf.N_id_2, -1);
    assert_eq!(rf.nof_thread, 4);
    let dci_log = config.dci_log_config.unwrap();
    assert_eq!(dci_log, NgScopeConfigDciLog::default());
    assert!(!dci_log.log_ul);
    assert_eq!(dci_log.log_interval, 5);
    let rf_default = NgScopeConfigRfDev::default();
    assert_eq!(rf_default.rf_args, "serial=3295B62");
}

#[test]
fn test_flatten_cell_api() {
    let milesight = MilesightArgs {
        milesight_address: Some("http://127.0.0.1".to_string()),
        milesight_user: Some("root".to_string()),
        milesight_auth: Some("root-password".to_string()),
    };
    let devpub = DevicePublisherArgs {
        devpub_address: Some("host:7353".to_string()),
        devpub_auth: Some("root-password".to_string()),
    };
    match FlattenedCellApiConfig::from_unflattened(
        CellApiConfig::Milesight,
        milesight.clone(),
        devpub.clone(),
    )
    .unwrap()
    {
        FlattenedCellApiConfig::Milesight(m) => {
            assert_eq!(m.milesight_address, "http://127.0.0.1");
            assert_eq!(m.milesight_user, "root");
        }
        other => panic!("unexpected flavour {:?}", other),
    }
    match FlattenedCellApiConfig::from_unflattened(
        CellApiConfig::DevicePublisher,
        milesight,
        devpub,
    )
    .unwrap()
    {
        FlattenedCellApiConfig::DevicePublisher(d) => {
            assert_eq!(d.devpub_address, "host:7353");
        }
        other => panic!("unexpected flavour {:?}", other),
    }
}

#[test]
fn test_flatten_optional_sdr() {
    let present = Some(NgScopeSdrConfigArgsB {
        ng_sdr_b_serial: Some("C2B5513".to_string()),
        ng_sdr_b_n_id: None,
    });
    let flat = FlattenedNgScopeSdrConfigArgsB::from_some_unflattened(present).unwrap();
    assert_eq!(flat.ng_sdr_b_serial, "C2B5513");
    assert_eq!(flat.ng_sdr_b_n_id, -1);
    assert!(FlattenedNgScopeSdrConfigArgsB::from_some_unflattened(None).is_err());
}

fn model_args(
    interval: (u64, DynamicValue),
    smoothing: (u64, DynamicValue),
) -> FlattenedModelArgs {
    FlattenedModelArgs::from_unflattened(ModelArgs {
        model_send_metric_interval_value: Some(interval.0),
        model_send_metric_interval_type: Some(interval.1),
        model_metric_smoothing_size_value: Some(smoothing.0),
        model_metric_smoothing_size_type: Some(smoothing.1),
        model_log_metric: Some(false),
    })
    .unwrap()
}

#[test]
fn test_model_intervals() {
    // a fixed interval of 1 ms, stored in thousandths, is 1000 us
    let fixed = model_args((1000, DynamicValue::FixedMs), (1000_000, DynamicValue::FixedMs));
    assert_eq!(determine_sending_interval(&fixed, &None), 1000);
    // smoothing of 1000 ms clamps at the largest slice
    assert_eq!(determine_smoothing_size(&fixed, &None), 1000);
    let small = model_args((1000, DynamicValue::FixedMs), (20_000, DynamicValue::FixedMs));
    assert_eq!(determine_smoothing_size(&small, &None), 20);
    // an RTT factor of 1.0 follows the last RTT
    let rtt = model_args((1000, DynamicValue::RttFactor), (1000, DynamicValue::RttFactor));
    assert_eq!(determine_sending_interval(&rtt, &Some(40_000)), 40_000);
    // 40 ms RTT with factor 1.0 is a 40 subframe window
    assert_eq!(determine_smoothing_size(&rtt, &Some(40_000)), 40);
}

#[test]
fn test_features_of_empty_pattern_fail() {
    let empty = TrafficPattern {
        messages: Vec::new(),
        pattern_type: RntiMatchingTrafficPatternType::A,
        std_vec: Vec::new(),
    };
    assert!(TrafficPatternFeatures::from_traffic_pattern(&empty).is_err());
}

#[test]
fn test_config_ser() {
    let config = NgScopeConfig::default();
    let rendered = render_config(&config);
    let expected = [
        "nof_rf_dev = 1;",
        "rnti = 65535;",
        "dci_log_config = {",
        "    nof_cell = 1;",
        "    log_ul = false;",
        "    log_dl = false;",
        "    log_interval = 5;",
        "};",
        "rf_config0 = {",
        "    rf_freq = 796000000;",
        "    N_id_2 = -1;",
        "    rf_args = \"serial=3295B62\";",
        "    nof_thread = 4;",
        "};",
        "",
    ]
    .join("\n");
    assert_eq!(String::from_utf8(rendered).unwrap(), expected);
}
