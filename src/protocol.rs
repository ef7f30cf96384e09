//! Messages exchanged between the operator, the coordinator and the agents.
use vstd::prelude::*;

verus! {

/// Threads when a fire request names none.
pub const DEFAULT_THREADS: u32 = 10;

/// Connections when a fire request names none.
pub const DEFAULT_CONNECTIONS: u32 = 50;

/// Battle length in seconds when a fire request names none.
pub const DEFAULT_DURATION_SECS: u32 = 30;

/// Request timeout in seconds when a fire request names none.
pub const DEFAULT_TIMEOUT_SECS: u32 = 2;

/// The order to start a battle, as the coordinator receives it and passes it
/// on to every agent.
#[derive(Debug, Clone)]
pub struct FireRequest {
    pub target: String,
    /// Threads.
    pub t: Option<u32>,
    /// Connections.
    pub c: Option<u32>,
    /// Duration in seconds.
    pub d: Option<u32>,
    pub timeout: Option<u32>,
    pub method: Option<String>,
    /// Extra request headers as name and value, in order.
    pub headers: Option<Vec<(String, String)>>,
    pub body: Option<String>,
}

/// An agent's answer to a command: an HTTP-like status code and a message.
#[derive(Debug, Clone)]
pub struct FireResponse {
    pub status: String,
    pub message: String,
}

/// The coordinator's answer to a check-in.
#[derive(Debug, Clone)]
pub struct HiveCheckinResponse {
    pub id: String,
}

/// Transport errors an agent reports, by kind.
#[derive(Debug, Clone, Copy, PartialEq, Eq, Structural)]
pub struct ErrorCounts {
    pub connect: u64,
    pub read: u64,
    pub write: u64,
    pub timeout: u64,
}

/// The counters of an agent's report to the coordinator.
#[derive(Debug, Clone, Copy, PartialEq, Eq, Structural)]
pub struct AgentStats {
    pub total_requests: u64,
    /// Body bytes read.
    pub read: u64,
    /// Responses whose status code is 400 or above.
    pub non_success_requests: u64,
    pub errors: ErrorCounts,
}

} // verus!
