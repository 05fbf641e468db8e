//! How a request that panics is answered, without taking the server down.

use crate::json::JsonValue;
use crate::text::joined;
use vstd::prelude::*;

verus! {

/// What a panic carried.
#[derive(Debug, PartialEq, Eq)]
pub enum PanicPayload {
    /// A text, borrowed or owned.
    Text(String),
    /// Anything else.
    Other,
}

/// The code of an internal error.
pub const INTERNAL_ERROR: i64 = -32603;

/// The error that a request is answered with.
#[derive(Debug, PartialEq, Eq)]
pub struct RpcError {
    pub code: i64,
    pub message: String,
    pub data: Option<JsonValue>,
}

/// What comes of a request that panicked.
#[derive(Debug, PartialEq, Eq)]
pub struct PanicReport {
    /// The line for the server's log.
    pub log: String,
    /// The error that the editor gets.
    pub error: RpcError,
}

/// The text of a panic.
pub open spec fn panic_text(payload: PanicPayload) -> Seq<char> {
    match payload {
        PanicPayload::Text(text) => text@,
        PanicPayload::Other => "unknown panic"@,
    }
}

/// The answer to a request: what its handler returned, or the report of its panic. The text of
/// the panic stays out of what the editor gets.
pub fn panic_safe<T>(method: &str, outcome: Result<T, PanicPayload>) -> (r: Result<T, PanicReport>)
    ensures
        match outcome {
            Ok(result) => r == Ok::<T, PanicReport>(result),
            Err(payload) => {
                &&& r matches Err(report)
                &&& report.log@ == "PANIC in "@ + method@ + ": "@ + panic_text(payload)
                &&& report.error.code == INTERNAL_ERROR
                &&& report.error.message@ == "internal error in "@ + method@
                &&& report.error.data is None
            },
        },
{
    match outcome {
        Ok(result) => Ok(result),
        Err(payload) => {
            let text = match payload {
                PanicPayload::Text(text) => text,
                PanicPayload::Other => "unknown panic".to_owned(),
            };
            let place = joined(&joined("PANIC in ", method), ": ");
            Err(
                PanicReport {
                    log: joined(&place, &text),
                    error: RpcError {
                        code: INTERNAL_ERROR,
                        message: joined("internal error in ", method),
                        data: None,
                    },
                },
            )
        },
    }
}

/// Whether a panic on this thread would be caught.
#[derive(Debug, PartialEq, Eq)]
pub struct CaughtFlag {
    pub raised: bool,
}

impl CaughtFlag {
    /// The flag before a guarded handler runs.
    pub fn before_poll(&mut self)
        ensures
            final(self).raised,
    {
        self.raised = true;
    }

    /// The flag after a guarded handler ran: it is lowered once the handler is done.
    pub fn after_poll(&mut self, ready: bool)
        ensures
            final(self).raised == (old(self).raised && !ready),
    {
        if ready {
            self.raised = false;
        }
    }

    /// The flag after the guard is gone, whether or not the handler was done.
    pub fn dropped(&mut self)
        ensures
            !final(self).raised,
    {
        self.raised = false;
    }
}

}
