//! The error kinds the library reports.

use vstd::prelude::*;

verus! {

/// Every failure the library surfaces to a caller.
#[derive(Clone, Debug, PartialEq, Eq)]
pub enum LspProxyError {
    /// A file or symbol is absent.
    NotFound,
    /// A disk read failed.
    IoError,
    /// Malformed LSP framing or JSON.
    ProtocolError,
    /// A backend's stdin or stdout closed unexpectedly.
    TransportFailed,
    /// A backend reported an LSP error with this code and message.
    BackendError { code: i64, message: String },
    /// A request exceeded its deadline.
    Timeout,
    /// The matcher subprocess exited with a failure; holds its stderr.
    MatcherFailed { stderr: String },
    /// The matcher subprocess produced output that is not a match list.
    MatcherOutputInvalid,
    /// The file's language has no backend and no matcher fallback.
    NotSupported,
}

impl LspProxyError {
    /// A short name for the error's kind, for display at the boundary.
    pub fn kind_name(&self) -> (r: &'static str)
        ensures
            r@ == match self {
                LspProxyError::NotFound => "not found"@,
                LspProxyError::IoError => "io error"@,
                LspProxyError::ProtocolError => "protocol error"@,
                LspProxyError::TransportFailed => "transport failed"@,
                LspProxyError::BackendError { .. } => "backend error"@,
                LspProxyError::Timeout => "timeout"@,
                LspProxyError::MatcherFailed { .. } => "matcher failed"@,
                LspProxyError::MatcherOutputInvalid => "matcher output invalid"@,
                LspProxyError::NotSupported => "not supported"@,
            },
    {
        match self {
            LspProxyError::NotFound => "not found",
            LspProxyError::IoError => "io error",
            LspProxyError::ProtocolError => "protocol error",
            LspProxyError::TransportFailed => "transport failed",
            LspProxyError::BackendError { .. } => "backend error",
            LspProxyError::Timeout => "timeout",
            LspProxyError::MatcherFailed { .. } => "matcher failed",
            LspProxyError::MatcherOutputInvalid => "matcher output invalid",
            LspProxyError::NotSupported => "not supported",
        }
    }
}

} // verus!
