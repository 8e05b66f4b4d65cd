//! Error taxonomy of the service.
//!
//! Validation and policy errors are surfaced to the caller that starts a
//! job; execution-time failures are captured in the job record instead.
//! The transport layer renders an error from its status code, its kind
//! label and its message, all of which are computed here.

use vstd::prelude::*;

verus! {

/// Every error the service surfaces over its request boundary.
#[derive(Debug)]
pub enum XcbridgeError {
    XcodeNotFound,
    BuildFailed(String),
    TestFailed(String),
    SimulatorNotFound(String),
    SimulatorError(String),
    DeviceNotFound(String),
    DeviceError(String),
    PathNotAllowed(String),
    CommandFailed(String),
    InvalidRequest(String),
    BuildNotFound(String),
    Internal(String),
    Unauthorized,
}

/// The human-readable message of an error.
pub open spec fn spec_message(e: XcbridgeError) -> Seq<char> {
    match e {
        XcbridgeError::XcodeNotFound => {
            "Xcode not found. Please install Xcode and run xcode-select."@
        },
        XcbridgeError::BuildFailed(m) => "Build failed: "@ + m@,
        XcbridgeError::TestFailed(m) => "Test failed: "@ + m@,
        XcbridgeError::SimulatorNotFound(m) => "Simulator not found: "@ + m@,
        XcbridgeError::SimulatorError(m) => "Simulator error: "@ + m@,
        XcbridgeError::DeviceNotFound(m) => "Device not found: "@ + m@,
        XcbridgeError::DeviceError(m) => "Device error: "@ + m@,
        XcbridgeError::PathNotAllowed(m) => "Path not allowed: "@ + m@,
        XcbridgeError::CommandFailed(m) => "Command execution failed: "@ + m@,
        XcbridgeError::InvalidRequest(m) => "Invalid request: "@ + m@,
        XcbridgeError::BuildNotFound(m) => "Build not found: "@ + m@,
        XcbridgeError::Internal(m) => "Internal error: "@ + m@,
        XcbridgeError::Unauthorized => "Unauthorized"@,
    }
}

/// The machine-readable kind label of an error.
pub open spec fn spec_error_kind(e: XcbridgeError) -> Seq<char> {
    match e {
        XcbridgeError::XcodeNotFound => "xcode_not_found"@,
        XcbridgeError::BuildFailed(_) => "build_failed"@,
        XcbridgeError::TestFailed(_) => "test_failed"@,
        XcbridgeError::SimulatorNotFound(_) => "simulator_not_found"@,
        XcbridgeError::SimulatorError(_) => "simulator_error"@,
        XcbridgeError::DeviceNotFound(_) => "device_not_found"@,
        XcbridgeError::DeviceError(_) => "device_error"@,
        XcbridgeError::PathNotAllowed(_) => "path_not_allowed"@,
        XcbridgeError::CommandFailed(_) => "command_failed"@,
        XcbridgeError::InvalidRequest(_) => "invalid_request"@,
        XcbridgeError::BuildNotFound(_) => "build_not_found"@,
        XcbridgeError::Internal(_) => "internal_error"@,
        XcbridgeError::Unauthorized => "unauthorized"@,
    }
}

/// The HTTP status code of an error.
pub open spec fn spec_http_status(e: XcbridgeError) -> u16 {
    match e {
        XcbridgeError::XcodeNotFound => 503,
        XcbridgeError::BuildFailed(_) => 400,
        XcbridgeError::TestFailed(_) => 400,
        XcbridgeError::SimulatorNotFound(_) => 404,
        XcbridgeError::SimulatorError(_) => 400,
        XcbridgeError::DeviceNotFound(_) => 404,
        XcbridgeError::DeviceError(_) => 400,
        XcbridgeError::PathNotAllowed(_) => 403,
        XcbridgeError::CommandFailed(_) => 500,
        XcbridgeError::InvalidRequest(_) => 400,
        XcbridgeError::BuildNotFound(_) => 404,
        XcbridgeError::Internal(_) => 500,
        XcbridgeError::Unauthorized => 401,
    }
}

fn prefixed(prefix: &str, m: &String) -> (r: String)
    ensures
        r@ == prefix@ + m@,
{
    let mut r = prefix.to_owned();
    r.append(m.as_str());
    r
}

impl XcbridgeError {
    /// The human-readable message of this error.
    pub fn message(&self) -> (r: String)
        ensures
            r@ == spec_message(*self),
    {
        match self {
            XcbridgeError::XcodeNotFound => {
                "Xcode not found. Please install Xcode and run xcode-select.".to_owned()
            },
            XcbridgeError::BuildFailed(m) => prefixed("Build failed: ", m),
            XcbridgeError::TestFailed(m) => prefixed("Test failed: ", m),
            XcbridgeError::SimulatorNotFound(m) => prefixed("Simulator not found: ", m),
            XcbridgeError::SimulatorError(m) => prefixed("Simulator error: ", m),
            XcbridgeError::DeviceNotFound(m) => prefixed("Device not found: ", m),
            XcbridgeError::DeviceError(m) => prefixed("Device error: ", m),
            XcbridgeError::PathNotAllowed(m) => prefixed("Path not allowed: ", m),
            XcbridgeError::CommandFailed(m) => prefixed("Command execution failed: ", m),
            XcbridgeError::InvalidRequest(m) => prefixed("Invalid request: ", m),
            XcbridgeError::BuildNotFound(m) => prefixed("Build not found: ", m),
            XcbridgeError::Internal(m) => prefixed("Internal error: ", m),
            XcbridgeError::Unauthorized => "Unauthorized".to_owned(),
        }
    }

    /// The machine-readable kind label of this error.
    pub fn error_kind(&self) -> (r: String)
        ensures
            r@ == spec_error_kind(*self),
    {
        match self {
            XcbridgeError::XcodeNotFound => "xcode_not_found".to_owned(),
            XcbridgeError::BuildFailed(_) => "build_failed".to_owned(),
            XcbridgeError::TestFailed(_) => "test_failed".to_owned(),
            XcbridgeError::SimulatorNotFound(_) => "simulator_not_found".to_owned(),
            XcbridgeError::SimulatorError(_) => "simulator_error".to_owned(),
            XcbridgeError::DeviceNotFound(_) => "device_not_found".to_owned(),
            XcbridgeError::DeviceError(_) => "device_error".to_owned(),
            XcbridgeError::PathNotAllowed(_) => "path_not_allowed".to_owned(),
            XcbridgeError::CommandFailed(_) => "command_failed".to_owned(),
            XcbridgeError::InvalidRequest(_) => "invalid_request".to_owned(),
            XcbridgeError::BuildNotFound(_) => "build_not_found".to_owned(),
            XcbridgeError::Internal(_) => "internal_error".to_owned(),
            XcbridgeError::Unauthorized => "unauthorized".to_owned(),
        }
    }

    /// The HTTP status code of this error.
    pub fn http_status(&self) -> (r: u16)
        ensures
            r == spec_http_status(*self),
    {
        match self {
            XcbridgeError::XcodeNotFound => 503,
            XcbridgeError::BuildFailed(_) => 400,
            XcbridgeError::TestFailed(_) => 400,
            XcbridgeError::SimulatorNotFound(_) => 404,
            XcbridgeError::SimulatorError(_) => 400,
            XcbridgeError::DeviceNotFound(_) => 404,
            XcbridgeError::DeviceError(_) => 400,
            XcbridgeError::PathNotAllowed(_) => 403,
            XcbridgeError::CommandFailed(_) => 500,
            XcbridgeError::InvalidRequest(_) => 400,
            XcbridgeError::BuildNotFound(_) => 404,
            XcbridgeError::Internal(_) => 500,
            XcbridgeError::Unauthorized => 401,
        }
    }
}

} // verus!
