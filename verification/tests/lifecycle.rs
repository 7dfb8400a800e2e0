use ue_cell_tracker::downloader;
use ue_cell_tracker::logic::{
    supervisor_step, DownloaderState, GeneralState, LoggerState, MainState, ModelState,
    NgControlState, RntiMatcherState, SourceState, WorkerShutdown, WorkerState,
};
use ue_cell_tracker::model_handler;
use ue_cell_tracker::parse::Scenario;
use ue_cell_tracker::rnti_matcher;

#[test]
fn test_supervisor_notify_stop_sequence() {
    // a SIGINT while running moves to NotifyStop without broadcasting
    let a = supervisor_step(MainState::Running, true, false);
    assert_eq!(a.next, MainState::NotifyStop);
    assert_eq!(a.broadcast, None);
    // NotifyStop broadcasts Stopped and becomes Stopped
    let b = supervisor_step(a.next, false, false);
    assert_eq!(b.next, MainState::Stopped);
    assert_eq!(b.broadcast, Some(MainState::Stopped));
    // Stopped is final
    let c = supervisor_step(b.next, true, true);
    assert_eq!(c.next, MainState::Stopped);
    assert_eq!(c.broadcast, None);
}

#[test]
fn test_supervisor_forwards_connection_reset() {
    let a = supervisor_step(MainState::Running, false, true);
    assert_eq!(a.next, MainState::Running);
    assert_eq!(a.broadcast, Some(MainState::UeConnectionReset));
    let b = supervisor_step(MainState::Running, false, false);
    assert_eq!(b.next, MainState::Running);
    assert_eq!(b.broadcast, None);
}

#[test]
fn test_worker_emits_stopped_exactly_once() {
    // after a NotifyStop every worker sends exactly one Stopped
    let mut shutdown = WorkerShutdown::new();
    assert_eq!(shutdown.emit_stopped(), Some(GeneralState::Stopped));
    assert_eq!(shutdown.emit_stopped(), None);
    assert_eq!(shutdown.emit_stopped(), None);
}

#[test]
fn test_general_state_projections() {
    assert_eq!(MainState::Running.to_general_state(), GeneralState::Running);
    assert_eq!(MainState::Stopped.to_general_state(), GeneralState::Stopped);
    assert_eq!(MainState::NotifyStop.to_general_state(), GeneralState::Unknown);
    assert_eq!(MainState::UeConnectionReset.to_general_state(), GeneralState::Unknown);
    assert_eq!(ModelState::Running.to_general_state(), GeneralState::Running);
    assert_eq!(ModelState::SpecialState.to_general_state(), GeneralState::Unknown);
    assert_eq!(SourceState::Stopped.to_general_state(), GeneralState::Stopped);
    assert_eq!(RntiMatcherState::Idle.to_general_state(), GeneralState::Unknown);
    assert_eq!(NgControlState::CheckingCellInfo.to_general_state(), GeneralState::Unknown);
    assert_eq!(NgControlState::Stopped.to_general_state(), GeneralState::Stopped);
    assert_eq!(LoggerState::StopLoggingSoon.to_general_state(), GeneralState::Unknown);
    // the downloader counts its sleeps as running
    assert_eq!(DownloaderState::Ready.to_general_state(), GeneralState::Running);
    assert_eq!(
        DownloaderState::SleepMs(5, Box::new(DownloaderState::Ready)).to_general_state(),
        GeneralState::Running
    );
    assert_eq!(DownloaderState::Downloading.to_general_state(), GeneralState::Unknown);
}

#[test]
fn test_worker_names() {
    assert_eq!(MainState::worker_name(), "main");
    assert_eq!(ModelState::worker_name(), "model");
    assert_eq!(SourceState::worker_name(), "source");
    assert_eq!(RntiMatcherState::worker_name(), "rntimatcher");
    assert_eq!(NgControlState::worker_name(), "ngcontrol");
    assert_eq!(LoggerState::worker_name(), "logger");
}

#[test]
fn test_idle_scenarios() {
    assert!(model_handler::is_idle_scenario(Scenario::TrackCellDciOnly));
    assert!(!model_handler::is_idle_scenario(Scenario::TrackUeAndEstimateTransportCapacity));
    assert!(rnti_matcher::is_idle_scenario(Scenario::TrackCellDciOnly));
    assert!(!rnti_matcher::is_idle_scenario(Scenario::PerformMeasurement));
    assert!(downloader::is_idle_scenario(Scenario::TrackUeAndEstimateTransportCapacity));
    assert!(!downloader::is_idle_scenario(Scenario::PerformMeasurement));
}
