//! Request and response shapes of the service's boundary.
//!
//! The transport layer decodes requests into these plain values and
//! encodes responses from them; the shapes themselves, and the little
//! logic they carry, are verified here.

use vstd::prelude::*;

use crate::devices::Device;
use crate::devices::Simulator;

verus! {

/// Request to start a build.
pub struct BuildRequest {
    /// Path to the project file.
    pub project: Option<String>,
    /// Path to the workspace file.
    pub workspace: Option<String>,
    /// Build scheme.
    pub scheme: String,
    /// Build configuration.
    pub configuration: String,
    /// Build destination.
    pub destination: Option<String>,
    /// Custom derived-data path.
    pub derived_data_path: Option<String>,
    /// Additional external-tool arguments, forwarded verbatim.
    pub extra_args: Vec<String>,
}

/// Request to start a test run.
pub struct TestRequest {
    /// Path to the project file.
    pub project: Option<String>,
    /// Path to the workspace file.
    pub workspace: Option<String>,
    /// Test scheme.
    pub scheme: String,
    /// Test destination.
    pub destination: Option<String>,
    /// Test plan to use.
    pub test_plan: Option<String>,
    /// Only run these tests.
    pub only_testing: Vec<String>,
    /// Skip these tests.
    pub skip_testing: Vec<String>,
}

/// Request to boot a simulator.
pub struct SimulatorBootRequest {
    pub device_type: Option<String>,
    pub udid: Option<String>,
    pub runtime: Option<String>,
}

/// Request to shut down a simulator.
pub struct SimulatorShutdownRequest {
    pub udid: Option<String>,
    pub all: bool,
}

/// Request to install an app on a simulator.
pub struct SimulatorInstallRequest {
    pub app_path: String,
    pub udid: Option<String>,
}

/// Request to launch an app on a simulator.
pub struct SimulatorLaunchRequest {
    pub bundle_id: String,
    pub udid: Option<String>,
    pub arguments: Vec<String>,
}

/// Request to uninstall an app from a simulator.
pub struct SimulatorUninstallRequest {
    pub bundle_id: String,
    pub udid: Option<String>,
}

/// Request to install an app on a physical device.
pub struct DeviceInstallRequest {
    pub app_path: String,
    pub device_id: String,
}

/// Request to launch an app on a physical device.
pub struct DeviceLaunchRequest {
    pub bundle_id: String,
    pub device_id: String,
}

/// Request to uninstall an app from a physical device.
pub struct DeviceUninstallRequest {
    pub bundle_id: String,
    pub device_id: String,
}

/// The build configuration used when a request names none.
pub fn default_configuration() -> (r: String)
    ensures
        r@ == "Debug"@,
{
    "Debug".to_owned()
}

/// Health-check and status response.
pub struct StatusResponse {
    pub healthy: bool,
    pub xcode_version: String,
    pub simulators: Vec<SimulatorInfo>,
    pub connected_devices: Vec<DeviceInfo>,
}

/// Simplified simulator descriptor for the status response.
pub struct SimulatorInfo {
    pub udid: String,
    pub name: String,
    pub state: String,
}

impl From<Simulator> for SimulatorInfo {
    fn from(sim: Simulator) -> Self {
        SimulatorInfo { udid: sim.udid, name: sim.name, state: sim.state }
    }
}

impl vstd::std_specs::convert::FromSpecImpl<Simulator> for SimulatorInfo {
    open spec fn obeys_from_spec() -> bool {
        true
    }

    open spec fn from_spec(sim: Simulator) -> Self {
        SimulatorInfo { udid: sim.udid, name: sim.name, state: sim.state }
    }
}

/// Simplified device descriptor for the status response.
pub struct DeviceInfo {
    pub udid: String,
    pub name: String,
    pub os_version: String,
    pub connection_type: String,
}

impl From<Device> for DeviceInfo {
    fn from(device: Device) -> Self {
        DeviceInfo {
            udid: device.udid,
            name: device.name,
            os_version: device.os_version,
            connection_type: device.connection_type,
        }
    }
}

impl vstd::std_specs::convert::FromSpecImpl<Device> for DeviceInfo {
    open spec fn obeys_from_spec() -> bool {
        true
    }

    open spec fn from_spec(device: Device) -> Self {
        DeviceInfo {
            udid: device.udid,
            name: device.name,
            os_version: device.os_version,
            connection_type: device.connection_type,
        }
    }
}

/// Response when a build or test job is started.
pub struct BuildStartedResponse {
    /// The fresh job identifier.
    pub build_id: String,
    /// The job's status name at start.
    pub status: String,
    /// Where the job's log stream can be observed.
    pub logs_url: String,
}

/// Response for a build status query.
pub struct BuildStatusResponse {
    pub build_id: String,
    pub status: String,
    pub exit_code: Option<i32>,
    pub artifacts: Option<Vec<String>>,
    pub error: Option<String>,
    pub logs: Vec<String>,
}

/// Response when a simulator is booted.
pub struct SimulatorBootResponse {
    pub udid: String,
    pub name: String,
    pub status: String,
}

/// Response for a simulator list query.
pub struct SimulatorListResponse {
    pub simulators: Vec<SimulatorInfo>,
}

/// Response for simple success operations.
pub struct SuccessResponse {
    pub success: bool,
    pub message: String,
}

impl SuccessResponse {
    /// A successful outcome carrying a message.
    pub fn new(message: String) -> (r: SuccessResponse)
        ensures
            r.success,
            r.message == message,
    {
        SuccessResponse { success: true, message }
    }
}

/// Response for a device list query.
pub struct DeviceListResponse {
    pub devices: Vec<DeviceInfo>,
}

/// One test failure in a test report.
pub struct TestFailure {
    pub test_name: String,
    pub message: String,
    pub file: Option<String>,
    pub line: Option<u32>,
}

} // verus!
