//! The errors of the tool.
use vstd::prelude::*;

verus! {

/// The error type of `anyhow`, carried opaquely.
#[verifier::external_type_specification]
#[verifier::external_body]
pub struct ExAnyhowError(anyhow::Error);

/// `std::io::Error`, carried opaquely.
#[verifier::external_type_specification]
#[verifier::external_body]
pub struct ExIoError(std::io::Error);

/// The error type of `serde_json`, carried opaquely.
#[verifier::external_type_specification]
#[verifier::external_body]
pub struct ExJsonError(serde_json::Error);

/// What can go wrong in the tool.
#[derive(Debug)]
pub enum TtSmiError {
    InvalidQueryField { field: String },
    DeviceNotFound { device: String },
    Hardware(anyhow::Error),
    Io(std::io::Error),
    Json(serde_json::Error),
    NoDevicesFound,
    UnsupportedChipType,
    TelemetryError { reason: String },
    PcieInfoUnavailable { device: String },
    ResetFailed { reason: String },
    Config(String),
    Parse(String),
}

} // verus!
