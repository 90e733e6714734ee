//! Status records reported upward to the panel.

use vstd::prelude::*;

verus! {

use crate::SERVICE_PORT;

/// Snapshot of the supervised service. Derived, never stored: it is
/// recomputed from a fresh probe of the fixed port on every query.
#[derive(Clone, Debug, PartialEq, Eq)]
pub struct ServiceStatus {
    /// Whether a listener currently holds the port.
    pub running: bool,
    /// Process id of that listener, if one was found.
    pub pid: Option<u32>,
    /// The fixed port that was probed.
    pub port: u16,
    /// Uptime in seconds; no source for it exists yet, so always absent.
    pub uptime_seconds: Option<u64>,
}

/// The status derived from a single probe of the fixed port: running
/// exactly when the probe found a listener, carrying that listener's id.
pub fn status_from_probe(pid: Option<u32>) -> (s: ServiceStatus)
    ensures
        s.running == pid is Some,
        s.pid == pid,
        s.port == SERVICE_PORT,
        s.uptime_seconds is None,
{
    let running = pid.is_some();
    ServiceStatus { running, pid, port: SERVICE_PORT, uptime_seconds: None }
}

impl Default for ServiceStatus {
    /// A status that reports the service as not running on the fixed port.
    fn default() -> (s: Self)
        ensures
            !s.running,
            s.pid is None,
            s.port == SERVICE_PORT,
            s.uptime_seconds is None,
    {
        ServiceStatus { running: false, pid: None, port: SERVICE_PORT, uptime_seconds: None }
    }
}

/// Information about the machine the panel runs on.
#[derive(Clone, Debug, PartialEq, Eq)]
pub struct SystemInfo {
    pub os: String,
    pub os_version: String,
    pub arch: String,
    pub openclaw_installed: bool,
    pub openclaw_version: Option<String>,
    pub node_version: Option<String>,
    pub config_dir: String,
}

/// Outcome of one diagnostic check.
#[derive(Clone, Debug, PartialEq, Eq)]
pub struct DiagnosticResult {
    pub name: String,
    pub passed: bool,
    pub message: String,
    pub suggestion: Option<String>,
}

/// Outcome of a connection test against an AI provider.
#[derive(Clone, Debug, PartialEq, Eq)]
pub struct AITestResult {
    pub success: bool,
    pub provider: String,
    pub model: String,
    pub response: Option<String>,
    pub error: Option<String>,
    pub latency_ms: Option<u64>,
}

/// Outcome of a channel test.
#[derive(Clone, Debug, PartialEq, Eq)]
pub struct ChannelTestResult {
    pub success: bool,
    pub channel: String,
    pub message: String,
    pub error: Option<String>,
}

} // verus!
