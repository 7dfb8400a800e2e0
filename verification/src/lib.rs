//! UE-side cellular telemetry and capacity estimation.
//!
//! The crate identifies the serving cell and its radio parameters, decodes
//! the DCI stream of an external sniffer, recovers the RNTI of the local UE
//! by fingerprinting probe traffic, and derives a fair-share capacity
//! estimate from the DCI stream.  Workers around this library do the I/O;
//! everything here is pure logic with contracts.

pub mod cell_info;
pub mod downloader;
pub mod logic;
pub mod model_handler;
pub mod ngscope_config;
pub mod ngscope_types;
pub mod parse;
pub mod rnti_matcher;
pub mod traffic_patterns;
pub mod util;
