//! Classification of errors: transient, fatal, needing the user, priority.
use crate::error::{severity_rank, CaptureError, ErrorSeverity, HasSeverity};
use vstd::prelude::*;

verus! {

/// Whether an error may resolve itself: timeouts, network and resource
/// errors.
pub fn is_transient(error: &CaptureError) -> (r: bool)
    ensures
        r == (error is Timeout || error is Network || error is Resource),
{
    match error {
        CaptureError::Timeout { .. } | CaptureError::Network { .. } | CaptureError::Resource { .. } => true,
        _ => false,
    }
}

/// Whether an error cannot be recovered from: configuration,
/// authentication and validation errors, and any error of `Fatal` severity.
pub fn is_fatal(error: &CaptureError) -> (r: bool)
    ensures
        r == (error is Config || error is Auth || error is Validation || error.ctx().severity
            == ErrorSeverity::Fatal),
{
    match error {
        CaptureError::Config { .. } | CaptureError::Auth { .. } | CaptureError::Validation { .. } => true,
        _ => match error.severity() {
            ErrorSeverity::Fatal => true,
            _ => false,
        },
    }
}

/// Whether an error needs the user: severity `Critical` or above.
pub fn requires_user_intervention(error: &CaptureError) -> (r: bool)
    ensures
        r == (severity_rank(error.ctx().severity) >= severity_rank(ErrorSeverity::Critical)),
{
    match error.severity() {
        ErrorSeverity::Critical | ErrorSeverity::Fatal => true,
        _ => false,
    }
}

/// The priority of an error, 0 (`Debug`) to 5 (`Fatal`): higher is more
/// urgent.
pub fn priority(error: &CaptureError) -> (p: u8)
    ensures
        p == severity_rank(error.ctx().severity),
{
    match error.severity() {
        ErrorSeverity::Debug => 0,
        ErrorSeverity::Info => 1,
        ErrorSeverity::Warning => 2,
        ErrorSeverity::Error => 3,
        ErrorSeverity::Critical => 4,
        ErrorSeverity::Fatal => 5,
    }
}

/// Transient errors are retryable and recoverable whatever their context
/// says, and never fatal unless marked `Fatal`.
pub proof fn lemma_transient_is_retryable(e: CaptureError)
    requires
        e is Timeout || e is Network || e is Resource,
    ensures
        crate::error::retried_kind(e),
        crate::error::recovered_kind(e),
        !(e is Config || e is Auth || e is Validation),
{
}

/// An error needs the user exactly when its priority is at least 4, and a
/// `Fatal` error both needs the user and is fatal.
pub proof fn lemma_priority_orders_intervention(e: CaptureError)
    ensures
        (severity_rank(e.ctx().severity) >= severity_rank(ErrorSeverity::Critical)) <==> severity_rank(
            e.ctx().severity,
        ) >= 4,
        0 <= severity_rank(e.ctx().severity) <= 5,
        e.ctx().severity == ErrorSeverity::Fatal ==> severity_rank(e.ctx().severity) == 5,
{
}

} // verus!
