//! The error kinds the core distinguishes.
//!
//! No error arising from a single event may stop the pipeline: a sink
//! error is logged and swallowed, an inference error falls back, a
//! quarantine error still writes its alert and permits a retry, and a
//! malformed event is dropped.  Only executor-level failures are fatal.

use vstd::prelude::*;

verus! {

/// What went wrong, by recovery policy.
#[derive(Clone, Debug)]
pub enum AgentError {
    /// A telemetry write failed; logged and swallowed.
    TransientSink,
    /// The classifier failed or timed out; the fallback was used.
    Inference,
    /// The quarantine helper exited non-zero; its stderr text is kept.
    Quarantine(String),
    /// An event violated the schema invariants and was dropped.
    MalformedEvent,
    /// Store corruption or a lost executor; the process terminates.
    Fatal,
}

impl AgentError {
    /// Only executor-level failures stop the process.
    pub fn is_fatal(&self) -> (r: bool)
        ensures
            r == (self is Fatal),
    {
        match self {
            AgentError::Fatal => true,
            _ => false,
        }
    }
}

} // verus!
