//! The configuration surface: the optional argument groups as they
//! arrive from the command line and the config file, and their
//! flattened forms with every required field present.
//!
//! Durations and factors are kept in thousandths, so a smoothing factor
//! of `1.5` is stored as `1_500`.

use vstd::prelude::*;

use crate::traffic_patterns::RntiMatchingTrafficPatternType;

verus! {

/// What the tracker is asked to do.
#[derive(Clone, Copy, Debug, PartialEq, Eq, Structural)]
pub enum Scenario {
    /// Track the UE and publish the estimated transport capacity.
    TrackUeAndEstimateTransportCapacity,
    /// Only collect the cell's DCI stream.
    TrackCellDciOnly,
    /// Download files and collect connection statistics.
    PerformMeasurement,
}

/// Which back-end reports the serving cell.
#[derive(Clone, Copy, Debug, PartialEq, Eq, Structural)]
pub enum CellApiConfig {
    Milesight,
    DevicePublisher,
}

/// Whether a model parameter is a fixed time or a factor on the RTT.
#[derive(Clone, Copy, Debug, PartialEq, Eq, Structural)]
pub enum DynamicValue {
    FixedMs,
    RttFactor,
}

/// A required argument was absent after merging all sources.
#[derive(Clone, Copy, Debug, PartialEq, Eq, Structural)]
pub enum ParseError {
    MissingArgument,
}

/// Milesight router access, as configured.
#[derive(Clone, Debug, PartialEq)]
pub struct MilesightArgs {
    pub milesight_address: Option<String>,
    pub milesight_user: Option<String>,
    pub milesight_auth: Option<String>,
}

/// Milesight router access with every field present.
#[derive(Clone, Debug)]
pub struct FlattenedMilesightArgs {
    pub milesight_address: String,
    pub milesight_user: String,
    pub milesight_auth: String,
}

/// DevicePublisher access, as configured.
#[derive(Clone, Debug, PartialEq)]
pub struct DevicePublisherArgs {
    pub devpub_address: Option<String>,
    pub devpub_auth: Option<String>,
}

/// DevicePublisher access with every field present.
#[derive(Clone, Debug)]
pub struct FlattenedDevicePublisherArgs {
    pub devpub_address: String,
    pub devpub_auth: String,
}

/// The chosen cell back-end with its access data.
#[derive(Clone, Debug)]
pub enum FlattenedCellApiConfig {
    Milesight(FlattenedMilesightArgs),
    DevicePublisher(FlattenedDevicePublisherArgs),
}

impl FlattenedCellApiConfig {
    /// Combines the back-end choice with its access arguments.
    pub fn from_unflattened(
        cell_api: CellApiConfig,
        milesight_args: MilesightArgs,
        devicepublisher_args: DevicePublisherArgs,
    ) -> (r: Result<FlattenedCellApiConfig, ParseError>)
        requires
            cell_api is Milesight ==> milesight_args.milesight_address is Some
                && milesight_args.milesight_user is Some && milesight_args.milesight_auth is Some,
            cell_api is DevicePublisher ==> devicepublisher_args.devpub_address is Some
                && devicepublisher_args.devpub_auth is Some,
        ensures
            r is Ok,
            cell_api is Milesight ==> (r matches Ok(f) && f matches
                FlattenedCellApiConfig::Milesight(m) && m.milesight_address
                == milesight_args.milesight_address->0 && m.milesight_user
                == milesight_args.milesight_user->0 && m.milesight_auth
                == milesight_args.milesight_auth->0),
            cell_api is DevicePublisher ==> (r matches Ok(f) && f matches
                FlattenedCellApiConfig::DevicePublisher(d) && d.devpub_address
                == devicepublisher_args.devpub_address->0 && d.devpub_auth
                == devicepublisher_args.devpub_auth->0),
    {
        match cell_api {
            CellApiConfig::Milesight => {
                let (address, user, auth) = match (
                    milesight_args.milesight_address,
                    milesight_args.milesight_user,
                    milesight_args.milesight_auth,
                ) {
                    (Some(a), Some(u), Some(p)) => (a, u, p),
                    _ => {
                        return Err(ParseError::MissingArgument);
                    },
                };
                Ok(
                    FlattenedCellApiConfig::Milesight(
                        FlattenedMilesightArgs {
                            milesight_address: address,
                            milesight_user: user,
                            milesight_auth: auth,
                        },
                    ),
                )
            },
            CellApiConfig::DevicePublisher => {
                let (address, auth) = match (
                    devicepublisher_args.devpub_address,
                    devicepublisher_args.devpub_auth,
                ) {
                    (Some(a), Some(p)) => (a, p),
                    _ => {
                        return Err(ParseError::MissingArgument);
                    },
                };
                Ok(
                    FlattenedCellApiConfig::DevicePublisher(
                        FlattenedDevicePublisherArgs { devpub_address: address, devpub_auth: auth },
                    ),
                )
            },
        }
    }
}

/// One SDR of the sniffer, as configured.
#[derive(Clone, Debug, PartialEq)]
pub struct NgScopeSdrConfigArgsA {
    pub ng_sdr_a_serial: Option<String>,
    pub ng_sdr_a_n_id: Option<i16>,
}

/// One SDR of the sniffer with every field present.
#[derive(Clone, Debug)]
pub struct FlattenedNgScopeSdrConfigArgsA {
    pub ng_sdr_a_serial: String,
    pub ng_sdr_a_n_id: i16,
}

impl FlattenedNgScopeSdrConfigArgsA {
    /// The first SDR; its serial is required, the cell selection
    /// defaults to automatic.
    pub fn from_unflattened(args: NgScopeSdrConfigArgsA) -> (r: Result<
        FlattenedNgScopeSdrConfigArgsA,
        ParseError,
    >)
        requires
            args.ng_sdr_a_serial is Some,
        ensures
            r matches Ok(f) && f.ng_sdr_a_serial == args.ng_sdr_a_serial->0 && f.ng_sdr_a_n_id
                == (match args.ng_sdr_a_n_id {
                Some(n) => n,
                None => -1i16,
            }),
    {
        let serial = match args.ng_sdr_a_serial {
            Some(s) => s,
            None => {
                return Err(ParseError::MissingArgument);
            },
        };
        let n_id: i16 = match args.ng_sdr_a_n_id {
            Some(n) => n,
            None => -1,
        };
        Ok(FlattenedNgScopeSdrConfigArgsA { ng_sdr_a_serial: serial, ng_sdr_a_n_id: n_id })
    }
}

/// A second SDR, as configured.
#[derive(Clone, Debug, PartialEq)]
pub struct NgScopeSdrConfigArgsB {
    pub ng_sdr_b_serial: Option<String>,
    pub ng_sdr_b_n_id: Option<i16>,
}

/// A second SDR with every field present.
#[derive(Clone, Debug)]
pub struct FlattenedNgScopeSdrConfigArgsB {
    pub ng_sdr_b_serial: String,
    pub ng_sdr_b_n_id: i16,
}

impl FlattenedNgScopeSdrConfigArgsB {
    /// A second SDR is optional; absence is reported as an error the
    /// caller turns into `None`.
    pub fn from_some_unflattened(args_option: Option<NgScopeSdrConfigArgsB>) -> (r: Result<
        FlattenedNgScopeSdrConfigArgsB,
        ParseError,
    >)
        requires
            args_option matches Some(a) ==> a.ng_sdr_b_serial is Some,
        ensures
            r is Ok <==> args_option is Some,
            r matches Ok(f) ==> (args_option matches Some(a) && f.ng_sdr_b_serial
                == a.ng_sdr_b_serial->0 && f.ng_sdr_b_n_id == (match a.ng_sdr_b_n_id {
                Some(n) => n,
                None => -1i16,
            })),
    {
        let args = match args_option {
            Some(a) => a,
            None => {
                return Err(ParseError::MissingArgument);
            },
        };
        let serial = match args.ng_sdr_b_serial {
            Some(s) => s,
            None => {
                return Err(ParseError::MissingArgument);
            },
        };
        let n_id: i16 = match args.ng_sdr_b_n_id {
            Some(n) => n,
            None => -1,
        };
        Ok(FlattenedNgScopeSdrConfigArgsB { ng_sdr_b_serial: serial, ng_sdr_b_n_id: n_id })
    }
}

/// A third SDR, as configured.
#[derive(Clone, Debug, PartialEq)]
pub struct NgScopeSdrConfigArgsC {
    pub ng_sdr_c_serial: Option<String>,
    pub ng_sdr_c_n_id: Option<i16>,
}

/// A third SDR with every field present.
#[derive(Clone, Debug)]
pub struct FlattenedNgScopeSdrConfigArgsC {
    pub ng_sdr_c_serial: String,
    pub ng_sdr_c_n_id: i16,
}

impl FlattenedNgScopeSdrConfigArgsC {
    /// A third SDR is optional; absence is reported as an error the
    /// caller turns into `None`.
    pub fn from_some_unflattened(args_option: Option<NgScopeSdrConfigArgsC>) -> (r: Result<
        FlattenedNgScopeSdrConfigArgsC,
        ParseError,
    >)
        requires
            args_option matches Some(a) ==> a.ng_sdr_c_serial is Some,
        ensures
            r is Ok <==> args_option is Some,
            r matches Ok(f) ==> (args_option matches Some(a) && f.ng_sdr_c_serial
                == a.ng_sdr_c_serial->0 && f.ng_sdr_c_n_id == (match a.ng_sdr_c_n_id {
                Some(n) => n,
                None => -1i16,
            })),
    {
        let args = match args_option {
            Some(a) => a,
            None => {
                return Err(ParseError::MissingArgument);
            },
        };
        let serial = match args.ng_sdr_c_serial {
            Some(s) => s,
            None => {
                return Err(ParseError::MissingArgument);
            },
        };
        let n_id: i16 = match args.ng_sdr_c_n_id {
            Some(n) => n,
            None => -1,
        };
        Ok(FlattenedNgScopeSdrConfigArgsC { ng_sdr_c_serial: serial, ng_sdr_c_n_id: n_id })
    }
}

/// The SDR set, as configured.
#[derive(Clone, Debug, PartialEq)]
pub struct NgScopeSdrConfigArgs {
    pub ng_sdr_a: Option<NgScopeSdrConfigArgsA>,
    pub ng_sdr_b: Option<NgScopeSdrConfigArgsB>,
    pub ng_sdr_c: Option<NgScopeSdrConfigArgsC>,
}

/// The SDR set with the first SDR present.
#[derive(Clone, Debug)]
pub struct FlattenedNgScopeSdrConfigArgs {
    pub ng_sdr_a: FlattenedNgScopeSdrConfigArgsA,
    pub ng_sdr_b: Option<FlattenedNgScopeSdrConfigArgsB>,
    pub ng_sdr_c: Option<FlattenedNgScopeSdrConfigArgsC>,
}

impl FlattenedNgScopeSdrConfigArgs {
    /// The first SDR is required; further SDRs stay optional.
    pub fn from_unflattened(args: NgScopeSdrConfigArgs) -> (r: Result<
        FlattenedNgScopeSdrConfigArgs,
        ParseError,
    >)
        requires
            args.ng_sdr_a matches Some(a) && a.ng_sdr_a_serial is Some,
            args.ng_sdr_b matches Some(b) ==> b.ng_sdr_b_serial is Some,
            args.ng_sdr_c matches Some(c) ==> c.ng_sdr_c_serial is Some,
        ensures
            r is Ok,
            r matches Ok(f) ==> (f.ng_sdr_b is Some <==> args.ng_sdr_b is Some) && (f.ng_sdr_c
                is Some <==> args.ng_sdr_c is Some),
    {
        let a = match args.ng_sdr_a {
            Some(a) => a,
            None => {
                return Err(ParseError::MissingArgument);
            },
        };
        let sdr_a = match FlattenedNgScopeSdrConfigArgsA::from_unflattened(a) {
            Ok(f) => f,
            Err(e) => {
                return Err(e);
            },
        };
        let sdr_b = match FlattenedNgScopeSdrConfigArgsB::from_some_unflattened(args.ng_sdr_b) {
            Ok(f) => Some(f),
            Err(_) => None,
        };
        let sdr_c = match FlattenedNgScopeSdrConfigArgsC::from_some_unflattened(args.ng_sdr_c) {
            Ok(f) => Some(f),
            Err(_) => None,
        };
        Ok(FlattenedNgScopeSdrConfigArgs { ng_sdr_a: sdr_a, ng_sdr_b: sdr_b, ng_sdr_c: sdr_c })
    }
}

/// The sniffer arguments, as configured.
#[derive(Clone, Debug, PartialEq)]
pub struct NgScopeArgs {
    pub ng_path: Option<String>,
    pub ng_local_addr: Option<String>,
    pub ng_server_addr: Option<String>,
    pub ng_sdr_config: Option<NgScopeSdrConfigArgs>,
    pub ng_log_file: Option<String>,
    pub ng_start_process: Option<bool>,
    pub ng_log_dci: Option<bool>,
    pub ng_log_dci_batch_size: Option<u64>,
}

/// The sniffer arguments with every required field present.
#[derive(Clone, Debug)]
pub struct FlattenedNgScopeArgs {
    pub ng_path: String,
    pub ng_local_addr: String,
    pub ng_server_addr: String,
    pub ng_sdr_config: FlattenedNgScopeSdrConfigArgs,
    pub ng_log_file: Option<String>,
    pub ng_start_process: bool,
    pub ng_log_dci: bool,
    pub ng_log_dci_batch_size: u64,
}

impl FlattenedNgScopeArgs {
    /// Flattens the sniffer arguments; only the log file stays
    /// optional.
    pub fn from_unflattened(ng_args: NgScopeArgs) -> (r: Result<FlattenedNgScopeArgs, ParseError>)
        requires
            ng_args.ng_path is Some,
            ng_args.ng_local_addr is Some,
            ng_args.ng_server_addr is Some,
            ng_args.ng_start_process is Some,
            ng_args.ng_log_dci is Some,
            ng_args.ng_log_dci_batch_size is Some,
            ng_args.ng_sdr_config matches Some(sc) && (sc.ng_sdr_a matches Some(a)
                && a.ng_sdr_a_serial is Some) && (sc.ng_sdr_b matches Some(b) ==> b.ng_sdr_b_serial
                is Some) && (sc.ng_sdr_c matches Some(c) ==> c.ng_sdr_c_serial is Some),
        ensures
            r is Ok,
            r matches Ok(f) ==> f.ng_path == ng_args.ng_path->0 && f.ng_local_addr
                == ng_args.ng_local_addr->0 && f.ng_server_addr == ng_args.ng_server_addr->0
                && f.ng_log_file == ng_args.ng_log_file && f.ng_start_process
                == ng_args.ng_start_process->0 && f.ng_log_dci == ng_args.ng_log_dci->0
                && f.ng_log_dci_batch_size == ng_args.ng_log_dci_batch_size->0,
    {
        let (path, local_addr, server_addr) = match (
            ng_args.ng_path,
            ng_args.ng_local_addr,
            ng_args.ng_server_addr,
        ) {
            (Some(p), Some(l), Some(s)) => (p, l, s),
            _ => {
                return Err(ParseError::MissingArgument);
            },
        };
        let (start_process, log_dci, batch_size) = match (
            ng_args.ng_start_process,
            ng_args.ng_log_dci,
            ng_args.ng_log_dci_batch_size,
        ) {
            (Some(s), Some(l), Some(b)) => (s, l, b),
            _ => {
                return Err(ParseError::MissingArgument);
            },
        };
        let sdr_config = match ng_args.ng_sdr_config {
            Some(sc) => match FlattenedNgScopeSdrConfigArgs::from_unflattened(sc) {
                Ok(f) => f,
                Err(e) => {
                    return Err(e);
                },
            },
            None => {
                return Err(ParseError::MissingArgument);
            },
        };
        Ok(
            FlattenedNgScopeArgs {
                ng_path: path,
                ng_local_addr: local_addr,
                ng_server_addr: server_addr,
                ng_sdr_config: sdr_config,
                ng_log_file: ng_args.ng_log_file,
                ng_start_process: start_process,
                ng_log_dci: log_dci,
                ng_log_dci_batch_size: batch_size,
            },
        )
    }
}

/// The matcher arguments, as configured.
#[derive(Clone, Debug, PartialEq)]
pub struct RntiMatchingArgs {
    pub matching_local_addr: Option<String>,
    pub matching_traffic_pattern: Option<Vec<RntiMatchingTrafficPatternType>>,
    pub matching_traffic_destination: Option<String>,
    pub matching_log_traffic: Option<bool>,
}

/// The matcher arguments with every field present.
#[derive(Clone, Debug)]
pub struct FlattenedRntiMatchingArgs {
    pub matching_local_addr: String,
    pub matching_traffic_pattern: Vec<RntiMatchingTrafficPatternType>,
    pub matching_traffic_destination: String,
    pub matching_log_traffic: bool,
}

impl FlattenedRntiMatchingArgs {
    /// Flattens the matcher arguments.
    pub fn from_unflattened(rnti_args: RntiMatchingArgs) -> (r: Result<
        FlattenedRntiMatchingArgs,
        ParseError,
    >)
        requires
            rnti_args.matching_local_addr is Some,
            rnti_args.matching_traffic_pattern is Some,
            rnti_args.matching_traffic_destination is Some,
            rnti_args.matching_log_traffic is Some,
        ensures
            r is Ok,
            r matches Ok(f) ==> f.matching_local_addr == rnti_args.matching_local_addr->0
                && f.matching_traffic_pattern == rnti_args.matching_traffic_pattern->0
                && f.matching_traffic_destination == rnti_args.matching_traffic_destination->0
                && f.matching_log_traffic == rnti_args.matching_log_traffic->0,
    {
        let (local_addr, pattern, destination, log_traffic) = match (
            rnti_args.matching_local_addr,
            rnti_args.matching_traffic_pattern,
            rnti_args.matching_traffic_destination,
            rnti_args.matching_log_traffic,
        ) {
            (Some(a), Some(p), Some(d), Some(l)) => (a, p, d, l),
            _ => {
                return Err(ParseError::MissingArgument);
            },
        };
        Ok(
            FlattenedRntiMatchingArgs {
                matching_local_addr: local_addr,
                matching_traffic_pattern: pattern,
                matching_traffic_destination: destination,
                matching_log_traffic: log_traffic,
            },
        )
    }
}

/// The model arguments, as configured; values in thousandths.
#[derive(Clone, Debug, PartialEq)]
pub struct ModelArgs {
    pub model_send_metric_interval_value: Option<u64>,
    pub model_send_metric_interval_type: Option<DynamicValue>,
    pub model_metric_smoothing_size_value: Option<u64>,
    pub model_metric_smoothing_size_type: Option<DynamicValue>,
    pub model_log_metric: Option<bool>,
}

/// The model arguments with every field present; values in thousandths.
#[derive(Clone, Debug)]
pub struct FlattenedModelArgs {
    pub model_send_metric_interval_value: u64,
    pub model_send_metric_interval_type: DynamicValue,
    pub model_metric_smoothing_size_value: u64,
    pub model_metric_smoothing_size_type: DynamicValue,
    pub model_log_metric: bool,
}

impl FlattenedModelArgs {
    /// Flattens the model arguments.
    pub fn from_unflattened(model_args: ModelArgs) -> (r: Result<FlattenedModelArgs, ParseError>)
        requires
            model_args.model_send_metric_interval_value is Some,
            model_args.model_send_metric_interval_type is Some,
            model_args.model_metric_smoothing_size_value is Some,
            model_args.model_metric_smoothing_size_type is Some,
            model_args.model_log_metric is Some,
        ensures
            r is Ok,
            r matches Ok(f) ==> f.model_send_metric_interval_value
                == model_args.model_send_metric_interval_value->0
                && f.model_send_metric_interval_type
                == model_args.model_send_metric_interval_type->0
                && f.model_metric_smoothing_size_value
                == model_args.model_metric_smoothing_size_value->0
                && f.model_metric_smoothing_size_type
                == model_args.model_metric_smoothing_size_type->0 && f.model_log_metric
                == model_args.model_log_metric->0,
    {
        let (iv, it, sv, st, log) = match (
            model_args.model_send_metric_interval_value,
            model_args.model_send_metric_interval_type,
            model_args.model_metric_smoothing_size_value,
            model_args.model_metric_smoothing_size_type,
            model_args.model_log_metric,
        ) {
            (Some(iv), Some(it), Some(sv), Some(st), Some(log)) => (iv, it, sv, st, log),
            _ => {
                return Err(ParseError::MissingArgument);
            },
        };
        Ok(
            FlattenedModelArgs {
                model_send_metric_interval_value: iv,
                model_send_metric_interval_type: it,
                model_metric_smoothing_size_value: sv,
                model_metric_smoothing_size_type: st,
                model_log_metric: log,
            },
        )
    }
}

/// The logging arguments, as configured.
#[derive(Clone, Debug, PartialEq)]
pub struct LogArgs {
    pub log_base_dir: Option<String>,
}

/// The logging arguments with every field present.
#[derive(Clone, Debug)]
pub struct FlattenedLogArgs {
    pub log_base_dir: String,
}

impl FlattenedLogArgs {
    /// Flattens the logging arguments.
    pub fn from_unflattened(log_args: LogArgs) -> (r: Result<FlattenedLogArgs, ParseError>)
        requires
            log_args.log_base_dir is Some,
        ensures
            r matches Ok(f) && f.log_base_dir == log_args.log_base_dir->0,
    {
        match log_args.log_base_dir {
            Some(dir) => Ok(FlattenedLogArgs { log_base_dir: dir }),
            None => Err(ParseError::MissingArgument),
        }
    }
}

/// The download arguments, as configured.
#[derive(Clone, Debug, PartialEq)]
pub struct DownloadArgs {
    pub download_base_addr: Option<String>,
    pub download_paths: Option<Vec<String>>,
}

/// The download arguments with every field present.
#[derive(Clone, Debug)]
pub struct FlattenedDownloadArgs {
    pub download_base_addr: String,
    pub download_paths: Vec<String>,
}

impl FlattenedDownloadArgs {
    /// Flattens the download arguments.
    pub fn from_unflattened(download_args: DownloadArgs) -> (r: Result<
        FlattenedDownloadArgs,
        ParseError,
    >)
        requires
            download_args.download_base_addr is Some,
            download_args.download_paths is Some,
        ensures
            r matches Ok(f) && f.download_base_addr == download_args.download_base_addr->0
                && f.download_paths == download_args.download_paths->0,
    {
        let (base_addr, paths) = match (
            download_args.download_base_addr,
            download_args.download_paths,
        ) {
            (Some(b), Some(p)) => (b, p),
            _ => {
                return Err(ParseError::MissingArgument);
            },
        };
        Ok(FlattenedDownloadArgs { download_base_addr: base_addr, download_paths: paths })
    }
}

/// Everything the tracker can be configured with; the surrounding
/// program merges the command line and the config file into this.
#[derive(Clone, Debug, PartialEq)]
pub struct Arguments {
    pub scenario: Option<Scenario>,
    pub cellapi: Option<CellApiConfig>,
    pub milesight: Option<MilesightArgs>,
    pub devicepublisher: Option<DevicePublisherArgs>,
    pub ngscope: Option<NgScopeArgs>,
    pub rntimatching: Option<RntiMatchingArgs>,
    pub model: Option<ModelArgs>,
    pub log: Option<LogArgs>,
    pub download: Option<DownloadArgs>,
    pub verbose: Option<bool>,
}

} // verus!
