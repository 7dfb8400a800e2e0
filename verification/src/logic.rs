//! Worker states, the messages on the buses, and the supervisor's own
//! state machine.
//!
//! Every worker owns one state machine; the functions here compute the
//! transitions, while the threads around the library perform the sleeps,
//! sends and receives.

use vstd::prelude::*;
use vstd::string::StringExecFns;

use crate::downloader::{DownloadConfig, DownloadFinishParameters};
use crate::cell_info::CellInfo;
use crate::model_handler::PrbRatio;
use crate::ngscope_config::NgScopeConfig;
use crate::ngscope_types::{NgScopeCellConfig, NgScopeCellDci};
use crate::rnti_matcher::TrafficCollection;

verus! {

/// Workers the supervisor waits for.
pub const NUM_OF_WORKERS: usize = 4;

/// Default per-iteration sleep of a worker loop, in milliseconds.
pub const DEFAULT_WORKER_SLEEP_MS: u64 = 2;

/// Per-iteration sleep of hot paths, in microseconds.
pub const DEFAULT_WORKER_SLEEP_US: u64 = 50;

/// Long supervisor sleep, in milliseconds.
pub const WORKER_SLEEP_LONG_MS: u64 = 500;

/// Capacity of the per-worker status channels.
pub const CHANNEL_SYNC_SIZE: usize = 10;

/// Capacity of the application-state bus.
pub const BUS_SIZE_APP_STATE: usize = 50;

/// Capacity of the DCI bus.
pub const BUS_SIZE_DCI: usize = 100000;

/// Capacity of the cell-info bus.
pub const BUS_SIZE_CELL_INFO: usize = 100;

/// Capacity of the RNTI bus.
pub const BUS_SIZE_RNTI: usize = 100;

/// Capacity of the metric bus.
pub const BUS_SIZE_METRIC: usize = 100;

/// The three externally visible conditions of any worker.
#[derive(Clone, Copy, Debug, PartialEq, Eq, Structural)]
pub enum GeneralState {
    Running,
    Stopped,
    Unknown,
}

/// A worker state that projects onto `GeneralState`.
pub trait WorkerState: Sized {
    /// The projection, as a specification.
    spec fn spec_general_state(&self) -> GeneralState;

    /// The projection of this state.
    fn to_general_state(&self) -> (r: GeneralState)
        ensures
            r == self.spec_general_state(),
    ;

    /// The name the worker reports under.
    fn worker_name() -> String;
}

/// States of the supervisor, broadcast on the application-state bus.
#[derive(Clone, Copy, Debug, PartialEq, Eq, Structural)]
pub enum MainState {
    Running,
    Stopped,
    NotifyStop,
    /// The sniffer has been restarted; matching starts over.
    UeConnectionReset,
}

impl WorkerState for MainState {
    open spec fn spec_general_state(&self) -> GeneralState {
        match *self {
            MainState::Running => GeneralState::Running,
            MainState::Stopped => GeneralState::Stopped,
            _ => GeneralState::Unknown,
        }
    }

    fn to_general_state(&self) -> (r: GeneralState)
        ensures
            r == self.spec_general_state(),
    {
        match *self {
            MainState::Running => GeneralState::Running,
            MainState::Stopped => GeneralState::Stopped,
            _ => GeneralState::Unknown,
        }
    }

    fn worker_name() -> String {
        String::from_str("main")
    }
}

/// States of the capacity-model worker.
#[derive(Clone, Copy, Debug, PartialEq, Eq, Structural)]
pub enum ModelState {
    Running,
    Stopped,
    SpecialState,
}

impl WorkerState for ModelState {
    open spec fn spec_general_state(&self) -> GeneralState {
        match *self {
            ModelState::Running => GeneralState::Running,
            ModelState::Stopped => GeneralState::Stopped,
            _ => GeneralState::Unknown,
        }
    }

    fn to_general_state(&self) -> (r: GeneralState)
        ensures
            r == self.spec_general_state(),
    {
        match *self {
            ModelState::Running => GeneralState::Running,
            ModelState::Stopped => GeneralState::Stopped,
            _ => GeneralState::Unknown,
        }
    }

    fn worker_name() -> String {
        String::from_str("model")
    }
}

/// States of the cell-source worker.
#[derive(Clone, Copy, Debug, PartialEq, Eq, Structural)]
pub enum SourceState {
    Running,
    Stopped,
    SpecialState,
}

impl WorkerState for SourceState {
    open spec fn spec_general_state(&self) -> GeneralState {
        match *self {
            SourceState::Running => GeneralState::Running,
            SourceState::Stopped => GeneralState::Stopped,
            _ => GeneralState::Unknown,
        }
    }

    fn to_general_state(&self) -> (r: GeneralState)
        ensures
            r == self.spec_general_state(),
    {
        match *self {
            SourceState::Running => GeneralState::Running,
            SourceState::Stopped => GeneralState::Stopped,
            _ => GeneralState::Unknown,
        }
    }

    fn worker_name() -> String {
        String::from_str("source")
    }
}

/// Failure modes of an RNTI matching round.
#[derive(Clone, Copy, Debug, PartialEq, Eq, Structural)]
pub enum RntiMatchingErrorType {
    ExceededDciTimestampDelta,
    ErrorGeneratingTrafficPatternFeatures,
    ErrorFindingBestMatchingRnti,
}

/// States of the RNTI matcher.
#[derive(Debug)]
pub enum RntiMatcherState {
    Running,
    Stopped,
    Idle,
    StartMatching,
    MatchingCollectDci(Box<TrafficCollection>),
    MatchingProcessDci(Box<TrafficCollection>),
    MatchingPublishRnti(MessageRnti),
    MatchingError(RntiMatchingErrorType),
    StoppingTrafficGeneratorThread,
    SleepMs(u64, Box<RntiMatcherState>),
}

impl RntiMatcherState {
    /// The human-readable name of the state.
    pub fn name(&self) -> (r: String)
        ensures
            *self is Running ==> r@ == "Running"@,
            *self is Stopped ==> r@ == "Stopped"@,
    {
        match self {
            RntiMatcherState::Running => String::from_str("Running"),
            RntiMatcherState::Stopped => String::from_str("Stopped"),
            RntiMatcherState::Idle => String::from_str("Idle"),
            RntiMatcherState::StartMatching => String::from_str("StartMatching"),
            RntiMatcherState::MatchingCollectDci(_) => String::from_str("MatchingCollectDci"),
            RntiMatcherState::MatchingProcessDci(_) => String::from_str("MatchingProcessDci"),
            RntiMatcherState::MatchingPublishRnti(_) => String::from_str("MatchingPublishRnti"),
            RntiMatcherState::MatchingError(_) => String::from_str("MatchingError"),
            RntiMatcherState::StoppingTrafficGeneratorThread => String::from_str(
                "StoppingTrafficGeneratorThread",
            ),
            RntiMatcherState::SleepMs(_, _) => String::from_str("Sleep"),
        }
    }
}

impl WorkerState for RntiMatcherState {
    open spec fn spec_general_state(&self) -> GeneralState {
        match *self {
            RntiMatcherState::Running => GeneralState::Running,
            RntiMatcherState::Stopped => GeneralState::Stopped,
            _ => GeneralState::Unknown,
        }
    }

    fn to_general_state(&self) -> (r: GeneralState)
        ensures
            r == self.spec_general_state(),
    {
        match *self {
            RntiMatcherState::Running => GeneralState::Running,
            RntiMatcherState::Stopped => GeneralState::Stopped,
            _ => GeneralState::Unknown,
        }
    }

    fn worker_name() -> String {
        String::from_str("rntimatcher")
    }
}

/// States of the sniffer controller.
#[derive(Debug)]
pub enum NgControlState {
    Running,
    Stopped,
    CheckingCellInfo,
    StartNgScope(Box<NgScopeConfig>),
    StopNgScope,
    TriggerListenDci,
    WaitForTriggerResponse,
    SuccessfulTriggerResponse,
    SleepMs(u64, Box<NgControlState>),
    StoppingDciFetcherThread,
    RestartingNgScopeProcess,
    StoppingNgScopeProcess,
}

impl WorkerState for NgControlState {
    open spec fn spec_general_state(&self) -> GeneralState {
        match *self {
            NgControlState::Running => GeneralState::Running,
            NgControlState::Stopped => GeneralState::Stopped,
            _ => GeneralState::Unknown,
        }
    }

    fn to_general_state(&self) -> (r: GeneralState)
        ensures
            r == self.spec_general_state(),
    {
        match *self {
            NgControlState::Running => GeneralState::Running,
            NgControlState::Stopped => GeneralState::Stopped,
            _ => GeneralState::Unknown,
        }
    }

    fn worker_name() -> String {
        String::from_str("ngcontrol")
    }
}

/// States of the measurement downloader.
#[derive(Debug)]
pub enum DownloaderState {
    Stopped,
    Ready,
    SleepMs(u64, Box<DownloaderState>),
    StartDownload,
    ErrorStartingDownload(String),
    Downloading,
    PostDownload,
    FinishDownload(DownloadFinishParameters),
}

impl WorkerState for DownloaderState {
    open spec fn spec_general_state(&self) -> GeneralState {
        match *self {
            DownloaderState::Ready => GeneralState::Running,
            DownloaderState::SleepMs(_, _) => GeneralState::Running,
            DownloaderState::Stopped => GeneralState::Stopped,
            _ => GeneralState::Unknown,
        }
    }

    fn to_general_state(&self) -> (r: GeneralState)
        ensures
            r == self.spec_general_state(),
    {
        match *self {
            DownloaderState::Ready => GeneralState::Running,
            DownloaderState::SleepMs(_, _) => GeneralState::Running,
            DownloaderState::Stopped => GeneralState::Stopped,
            _ => GeneralState::Unknown,
        }
    }

    fn worker_name() -> String {
        String::from_str("download")
    }
}

/// States of the logging thread.
#[derive(Clone, Copy, Debug, PartialEq, Eq, Structural)]
pub enum LoggerState {
    Running,
    Stopped,
    InitStopLoggingSoon,
    StopLoggingSoon,
}

impl WorkerState for LoggerState {
    open spec fn spec_general_state(&self) -> GeneralState {
        match *self {
            LoggerState::Running => GeneralState::Running,
            LoggerState::Stopped => GeneralState::Stopped,
            _ => GeneralState::Unknown,
        }
    }

    fn to_general_state(&self) -> (r: GeneralState)
        ensures
            r == self.spec_general_state(),
    {
        match *self {
            LoggerState::Running => GeneralState::Running,
            LoggerState::Stopped => GeneralState::Stopped,
            _ => GeneralState::Unknown,
        }
    }

    fn worker_name() -> String {
        String::from_str("logger")
    }
}

/// What a worker loop concludes from its bus checks.
#[derive(Clone, Copy, Debug, PartialEq, Eq, Structural)]
pub enum AppError {
    Stopped,
    Disconnected,
}

/// One DCI-bus message.
#[derive(Clone, Debug)]
pub enum MessageDci {
    CellDci(Box<NgScopeCellDci>),
    CellConfig(Box<NgScopeCellConfig>),
}

/// One cell-info-bus message.
#[derive(Clone, Debug)]
pub struct MessageCellInfo {
    pub cell_info: CellInfo,
}

/// The published UE RNTI per cell, one entry per cell.
#[derive(Clone, Debug, PartialEq)]
pub struct MessageRnti {
    pub cell_rnti: Vec<(u64, u16)>,
}

impl Default for MessageRnti {
    /// An empty map.
    fn default() -> (r: MessageRnti)
        ensures
            r.cell_rnti@.len() == 0,
    {
        MessageRnti { cell_rnti: Vec::new() }
    }
}

/// The emitted capacity record.
#[derive(Clone, Copy, Debug, PartialEq, Eq, Structural)]
pub struct MetricA {
    /// When the metric was calculated, in microseconds.
    pub timestamp_us: u64,
    /// Fair-share send rate in bits per subframe (= bits per ms).
    pub fair_share_send_rate: u64,
    /// Timestamp of the newest DCI of the slice.
    pub latest_dci_timestamp_us: u64,
    /// Timestamp of the oldest DCI of the slice.
    pub oldest_dci_timestamp_us: u64,
    /// Number of DCIs the metric is based on.
    pub nof_dci: u16,
    /// Ratio of no-TBS PRBs to all allocated PRBs.
    pub no_tbs_prb_ratio: PrbRatio,
    /// 1 where the per-PRB rate was averaged over all RNTIs.
    pub flag_phy_rate_all_rnti: u8,
    /// Bits per PRB the rate was computed with.
    pub phy_rate: u64,
}

/// The kinds of metrics the model can emit.
#[derive(Clone, Copy, Debug, PartialEq, Eq, Structural)]
pub enum MetricTypes {
    A(MetricA),
}

/// One metric-bus message.
#[derive(Clone, Copy, Debug, PartialEq, Eq, Structural)]
pub struct MessageMetric {
    pub metric: MetricTypes,
}

/// One download-config-bus message.
#[derive(Clone, Copy, Debug, PartialEq, Eq, Structural)]
pub struct MessageDownloadConfig {
    pub config: DownloadConfig,
}

/// Whether a worker keeps running after one non-blocking poll of the
/// application-state bus: it stops on a disconnected bus and on a
/// message that maps to `Stopped`; silence and any other message let
/// it continue.
pub fn check_not_stopped<T: WorkerState>(received: Option<&T>, disconnected: bool) -> (keep_running:
    bool)
    ensures
        keep_running == (!disconnected && !(received matches Some(m)
            && m.spec_general_state() is Stopped)),
{
    if disconnected {
        return false;
    }
    match received {
        Some(message) => message.to_general_state() != GeneralState::Stopped,
        None => true,
    }
}

/// Whether a worker may leave its startup wait on this blocking
/// receive: anything but a `Stopped`-mapping message lets it proceed.
pub fn wait_until_running_ok<T: WorkerState>(message: &T) -> (proceed: bool)
    ensures
        proceed == !(message.spec_general_state() is Stopped),
{
    message.to_general_state() != GeneralState::Stopped
}

/// What the supervisor does after one poll of its inputs.
#[derive(Clone, Copy, Debug, PartialEq, Eq, Structural)]
pub struct SupervisorAction {
    pub next: MainState,
    pub broadcast: Option<MainState>,
}

/// One supervisor step.
///
/// From `Running`, a SIGINT (or a worker that stopped on its own) moves
/// to `NotifyStop`; a successful sniffer trigger response broadcasts
/// `UeConnectionReset` and stays `Running`.  `NotifyStop` broadcasts
/// `Stopped` and becomes `Stopped`, which is final.
pub fn supervisor_step(state: MainState, sigint: bool, ngcontrol_triggered: bool) -> (r:
    SupervisorAction)
    ensures
        state is Running && sigint ==> r.next == MainState::NotifyStop && r.broadcast is None,
        state is Running && !sigint && ngcontrol_triggered ==> r.next == MainState::Running
            && r.broadcast == Some(MainState::UeConnectionReset),
        state is Running && !sigint && !ngcontrol_triggered ==> r.next == MainState::Running
            && r.broadcast is None,
        state is NotifyStop ==> r.next == MainState::Stopped && r.broadcast == Some(
            MainState::Stopped,
        ),
        state is Stopped ==> r.next == MainState::Stopped && r.broadcast is None,
        state is UeConnectionReset ==> r.next == state && r.broadcast is None,
{
    match state {
        MainState::Running => {
            if sigint {
                SupervisorAction { next: MainState::NotifyStop, broadcast: None }
            } else if ngcontrol_triggered {
                SupervisorAction {
                    next: MainState::Running,
                    broadcast: Some(MainState::UeConnectionReset),
                }
            } else {
                SupervisorAction { next: MainState::Running, broadcast: None }
            }
        },
        MainState::NotifyStop => SupervisorAction {
            next: MainState::Stopped,
            broadcast: Some(MainState::Stopped),
        },
        MainState::Stopped => SupervisorAction { next: MainState::Stopped, broadcast: None },
        MainState::UeConnectionReset => SupervisorAction { next: state, broadcast: None },
    }
}

/// Tracks, per worker, whether its final `Stopped` status went out.
#[derive(Clone, Copy, Debug, PartialEq, Eq, Structural)]
pub struct WorkerShutdown {
    pub stopped_emitted: bool,
}

/// The relation of one `emit_stopped` call: what went out and how the
/// tracker moved.
pub open spec fn spec_emit_step(
    before: WorkerShutdown,
    after: WorkerShutdown,
    emitted: Option<GeneralState>,
) -> bool {
    &&& after.stopped_emitted
    &&& (emitted is Some <==> !before.stopped_emitted)
    &&& (emitted matches Some(g) ==> g == GeneralState::Stopped)
}

impl WorkerShutdown {
    /// A fresh tracker: nothing emitted yet.
    pub fn new() -> (r: WorkerShutdown)
        ensures
            !r.stopped_emitted,
    {
        WorkerShutdown { stopped_emitted: false }
    }

    /// The one `Stopped` emission of a worker's shutdown: the first call
    /// yields it, every later call yields nothing.
    pub fn emit_stopped(&mut self) -> (r: Option<GeneralState>)
        ensures
            spec_emit_step(*old(self), *final(self), r),
    {
        if self.stopped_emitted {
            None
        } else {
            self.stopped_emitted = true;
            Some(GeneralState::Stopped)
        }
    }
}

/// After a stop is observed, a worker's shutdown emits `Stopped` exactly
/// once: of any two successive emission steps from a fresh tracker, the
/// first yields `Stopped` and the second yields nothing.
pub proof fn lemma_worker_emits_stopped_exactly_once(
    w0: WorkerShutdown,
    w1: WorkerShutdown,
    e1: Option<GeneralState>,
    w2: WorkerShutdown,
    e2: Option<GeneralState>,
)
    requires
        !w0.stopped_emitted,
        spec_emit_step(w0, w1, e1),
        spec_emit_step(w1, w2, e2),
    ensures
        e1 == Some(GeneralState::Stopped),
        e2 is None,
{
}

} // verus!
