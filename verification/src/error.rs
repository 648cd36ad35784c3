//! Errors of the capture library: sixteen kinds of failure, each carrying
//! an [`ErrorContext`] of metadata, with classification (retryable,
//! recoverable, severity) and recovery strategies.
pub mod classify;

use crate::text::{decimal, owned, push_decimal, push_signed_decimal, signed_decimal};
use std::collections::HashMap;
use std::time::SystemTime;
use vstd::prelude::*;
use vstd::std_specs::hash::obeys_key_model;

verus! {

#[verifier::external_type_specification]
#[verifier::external_body]
pub struct ExSystemTime(std::time::SystemTime);

#[verifier::external_type_specification]
#[verifier::external_body]
pub struct ExJsonValue(serde_json::Value);

/// `SystemTime` is `Copy`: its `clone` returns the same instant.
pub assume_specification[ <std::time::SystemTime as Clone>::clone ](t: &SystemTime) -> (r: SystemTime)
    ensures
        r == *t,
;

/// `SystemTime::now`: the current time of the system clock.  Nothing is
/// promised of the value.
#[verifier::external_body]
fn now() -> SystemTime {
    SystemTime::now()
}

/// The `Display` text of an I/O error, as `std::io::Error` writes it.
/// Nothing is promised of it: for an operating-system error it is the
/// system's own message.
#[verifier::external_body]
fn io_error_text(e: &std::io::Error) -> String {
    e.to_string()
}

/// Severity levels, from least to most severe.
#[derive(Debug, Clone, Copy, PartialEq, Eq, PartialOrd, Ord)]
pub enum ErrorSeverity {
    /// Does not affect operation.
    Debug,
    /// Informational.
    Info,
    /// May indicate a problem.
    Warning,
    /// Affects operation but can be recovered from.
    Error,
    /// Needs immediate attention.
    Critical,
    /// Cannot be recovered from.
    Fatal,
}

/// The rank of a severity: 0 for `Debug` up to 5 for `Fatal`.
pub open spec fn severity_rank(s: ErrorSeverity) -> int {
    match s {
        ErrorSeverity::Debug => 0,
        ErrorSeverity::Info => 1,
        ErrorSeverity::Warning => 2,
        ErrorSeverity::Error => 3,
        ErrorSeverity::Critical => 4,
        ErrorSeverity::Fatal => 5,
    }
}

/// When and where an error occurred, and what to do about it.
#[derive(Debug, Clone)]
pub struct ErrorContext {
    /// When the error occurred.
    pub timestamp: SystemTime,
    /// The operation under way.
    pub operation: Option<String>,
    /// Additional context.
    pub context: Option<String>,
    /// Suggested recovery action.
    pub recovery_suggestion: Option<String>,
    /// Source location.
    pub source_location: Option<String>,
    /// Severity.
    pub severity: ErrorSeverity,
    /// Whether the failed operation may be retried.
    pub retryable: bool,
    /// Whether the error can be recovered from.
    pub recoverable: bool,
    /// Key-value metadata.
    pub metadata: HashMap<String, String>,
}

/// A context as made by `ErrorContext::new`: nothing set, severity
/// `Error`, neither retryable nor recoverable, no metadata.
pub open spec fn is_fresh_context(c: ErrorContext) -> bool {
    &&& c.operation is None
    &&& c.context is None
    &&& c.recovery_suggestion is None
    &&& c.source_location is None
    &&& c.severity == ErrorSeverity::Error
    &&& !c.retryable
    &&& !c.recoverable
    &&& c.metadata@ == Map::<String, String>::empty()
}

/// An optional text field holds exactly `text`.
pub open spec fn holds_text(field: Option<String>, text: Seq<char>) -> bool {
    field matches Some(s) && s@ == text
}

impl Default for ErrorContext {
    /// A fresh context stamped with the current time.
    fn default() -> (c: Self)
        ensures
            is_fresh_context(c),
    {
        ErrorContext {
            timestamp: now(),
            operation: None,
            context: None,
            recovery_suggestion: None,
            source_location: None,
            severity: ErrorSeverity::Error,
            retryable: false,
            recoverable: false,
            metadata: HashMap::new(),
        }
    }
}

impl ErrorContext {
    /// A fresh context stamped with the current time.
    pub fn new() -> (c: Self)
        ensures
            is_fresh_context(c),
    {
        Self::default()
    }

    /// Sets the operation under way.
    pub fn with_operation(self, operation: &str) -> (r: Self)
        ensures
            holds_text(r.operation, operation@),
            r == (ErrorContext { operation: r.operation, ..self }),
    {
        let mut c = self;
        c.operation = Some(owned(operation));
        c
    }

    /// Sets the additional context.
    pub fn with_context(self, context: &str) -> (r: Self)
        ensures
            holds_text(r.context, context@),
            r == (ErrorContext { context: r.context, ..self }),
    {
        let mut c = self;
        c.context = Some(owned(context));
        c
    }

    /// Sets the recovery suggestion.
    pub fn with_recovery_suggestion(self, suggestion: &str) -> (r: Self)
        ensures
            holds_text(r.recovery_suggestion, suggestion@),
            r == (ErrorContext { recovery_suggestion: r.recovery_suggestion, ..self }),
    {
        let mut c = self;
        c.recovery_suggestion = Some(owned(suggestion));
        c
    }

    /// Sets the source location.
    pub fn with_source_location(self, location: &str) -> (r: Self)
        ensures
            holds_text(r.source_location, location@),
            r == (ErrorContext { source_location: r.source_location, ..self }),
    {
        let mut c = self;
        c.source_location = Some(owned(location));
        c
    }

    /// Sets the severity.
    pub fn with_severity(self, severity: ErrorSeverity) -> (r: Self)
        ensures
            r == (ErrorContext { severity, ..self }),
    {
        let mut c = self;
        c.severity = severity;
        c
    }

    /// Marks the error retryable.
    pub fn retryable(self) -> (r: Self)
        ensures
            r == (ErrorContext { retryable: true, ..self }),
    {
        let mut c = self;
        c.retryable = true;
        c
    }

    /// Marks the error recoverable.
    pub fn recoverable(self) -> (r: Self)
        ensures
            r == (ErrorContext { recoverable: true, ..self }),
    {
        let mut c = self;
        c.recoverable = true;
        c
    }

    /// Records `key = value` in the metadata, replacing an earlier value of
    /// `key`.
    pub fn with_metadata(self, key: &str, value: &str) -> (r: Self)
        ensures
            r == (ErrorContext { metadata: r.metadata, ..self }),
            exists|k: String, v: String|
                #![trigger k@, v@]
                k@ == key@ && v@ == value@ && (obeys_key_model::<String>() ==> r.metadata@
                    == self.metadata@.insert(k, v)),
    {
        let mut c = self;
        let k = owned(key);
        let v = owned(value);
        let ghost gk = k;
        let ghost gv = v;
        c.metadata.insert(k, v);
        assert(gk@ == key@ && gv@ == value@ && (obeys_key_model::<String>() ==> c.metadata@
            == self.metadata@.insert(gk, gv)));
        c
    }
}

/// The errors of the capture library.
#[derive(Debug)]
pub enum CaptureError {
    /// A configuration value was refused.
    Config { field: String, value: String, reason: String, context: ErrorContext },
    /// Screen capture could not be initialised.
    CaptureInit { platform: String, reason: String, context: ErrorContext },
    /// A frame could not be captured.
    FrameCapture { reason: String, context: ErrorContext },
    /// The processing pipeline failed.
    Processing { operation: String, reason: String, context: ErrorContext },
    /// Streaming or output failed.
    Streaming { target: String, reason: String, context: ErrorContext },
    /// A resource could not be allocated.
    Resource { resource: String, reason: String, context: ErrorContext },
    /// A platform call failed, with the platform's error code if any.
    Platform { platform: String, code: Option<i32>, reason: String, context: ErrorContext },
    /// An I/O operation failed.
    Io { operation: String, path: Option<String>, source: std::io::Error, context: ErrorContext },
    /// GStreamer reported an error.
    GStreamer { element: Option<String>, message: String, context: ErrorContext },
    /// An outside library failed; `source` is that library's error message.
    External { library: String, source: String, context: ErrorContext },
    /// An operation timed out.
    Timeout { operation: String, duration_ms: u64, context: ErrorContext },
    /// A value broke a constraint.
    Validation { field: String, constraint: String, value: String, context: ErrorContext },
    /// An operation was attempted in a state that does not allow it.
    State { current_state: String, attempted_operation: String, reason: String, context: ErrorContext },
    /// A network operation failed; `source` is the cause's message if any.
    Network { operation: String, address: Option<String>, source: Option<String>, context: ErrorContext },
    /// Authentication or authorisation failed.
    Auth { operation: String, reason: String, context: ErrorContext },
    /// Any other error, with arbitrary data.
    Custom { category: String, message: String, data: serde_json::Value, context: ErrorContext },
}

/// Results of the capture library.
pub type CaptureResult<T> = Result<T, CaptureError>;

impl CaptureError {
    /// The context of an error.
    pub open spec fn ctx(self) -> ErrorContext {
        match self {
            CaptureError::Config { context, .. } => context,
            CaptureError::CaptureInit { context, .. } => context,
            CaptureError::FrameCapture { context, .. } => context,
            CaptureError::Processing { context, .. } => context,
            CaptureError::Streaming { context, .. } => context,
            CaptureError::Resource { context, .. } => context,
            CaptureError::Platform { context, .. } => context,
            CaptureError::Io { context, .. } => context,
            CaptureError::GStreamer { context, .. } => context,
            CaptureError::External { context, .. } => context,
            CaptureError::Timeout { context, .. } => context,
            CaptureError::Validation { context, .. } => context,
            CaptureError::State { context, .. } => context,
            CaptureError::Network { context, .. } => context,
            CaptureError::Auth { context, .. } => context,
            CaptureError::Custom { context, .. } => context,
        }
    }

    /// The same error with its context replaced by `c`.
    pub open spec fn with_ctx(self, c: ErrorContext) -> CaptureError {
        match self {
            CaptureError::Config { field, value, reason, .. } => CaptureError::Config { field, value, reason, context: c },
            CaptureError::CaptureInit { platform, reason, .. } => CaptureError::CaptureInit { platform, reason, context: c },
            CaptureError::FrameCapture { reason, .. } => CaptureError::FrameCapture { reason, context: c },
            CaptureError::Processing { operation, reason, .. } => CaptureError::Processing { operation, reason, context: c },
            CaptureError::Streaming { target, reason, .. } => CaptureError::Streaming { target, reason, context: c },
            CaptureError::Resource { resource, reason, .. } => CaptureError::Resource { resource, reason, context: c },
            CaptureError::Platform { platform, code, reason, .. } => CaptureError::Platform {
                platform,
                code,
                reason,
                context: c,
            },
            CaptureError::Io { operation, path, source, .. } => CaptureError::Io { operation, path, source, context: c },
            CaptureError::GStreamer { element, message, .. } => CaptureError::GStreamer { element, message, context: c },
            CaptureError::External { library, source, .. } => CaptureError::External { library, source, context: c },
            CaptureError::Timeout { operation, duration_ms, .. } => CaptureError::Timeout {
                operation,
                duration_ms,
                context: c,
            },
            CaptureError::Validation { field, constraint, value, .. } => CaptureError::Validation {
                field,
                constraint,
                value,
                context: c,
            },
            CaptureError::State { current_state, attempted_operation, reason, .. } => CaptureError::State {
                current_state,
                attempted_operation,
                reason,
                context: c,
            },
            CaptureError::Network { operation, address, source, .. } => CaptureError::Network {
                operation,
                address,
                source,
                context: c,
            },
            CaptureError::Auth { operation, reason, .. } => CaptureError::Auth { operation, reason, context: c },
            CaptureError::Custom { category, message, data, .. } => CaptureError::Custom {
                category,
                message,
                data,
                context: c,
            },
        }
    }

    /// A configuration error.
    pub fn config(field: &str, value: &str, reason: &str) -> (e: Self)
        ensures
            e matches CaptureError::Config { field: f, value: v, reason: r, context: c } && f@ == field@ && v@
                == value@ && r@ == reason@ && is_fresh_context(c),
    {
        CaptureError::Config { field: owned(field), value: owned(value), reason: owned(reason), context: ErrorContext::new() }
    }

    /// A capture initialisation error.
    pub fn capture_init(platform: &str, reason: &str) -> (e: Self)
        ensures
            e matches CaptureError::CaptureInit { platform: p, reason: r, context: c } && p@ == platform@ && r@
                == reason@ && is_fresh_context(c),
    {
        CaptureError::CaptureInit { platform: owned(platform), reason: owned(reason), context: ErrorContext::new() }
    }

    /// A frame capture error.
    pub fn frame_capture(reason: &str) -> (e: Self)
        ensures
            e matches CaptureError::FrameCapture { reason: r, context: c } && r@ == reason@ && is_fresh_context(c),
    {
        CaptureError::FrameCapture { reason: owned(reason), context: ErrorContext::new() }
    }

    /// A processing error.
    pub fn processing(operation: &str, reason: &str) -> (e: Self)
        ensures
            e matches CaptureError::Processing { operation: o, reason: r, context: c } && o@ == operation@ && r@
                == reason@ && is_fresh_context(c),
    {
        CaptureError::Processing { operation: owned(operation), reason: owned(reason), context: ErrorContext::new() }
    }

    /// A streaming error.
    pub fn streaming(target: &str, reason: &str) -> (e: Self)
        ensures
            e matches CaptureError::Streaming { target: t, reason: r, context: c } && t@ == target@ && r@ == reason@
                && is_fresh_context(c),
    {
        CaptureError::Streaming { target: owned(target), reason: owned(reason), context: ErrorContext::new() }
    }

    /// A resource allocation error.
    pub fn resource(resource: &str, reason: &str) -> (e: Self)
        ensures
            e matches CaptureError::Resource { resource: s, reason: r, context: c } && s@ == resource@ && r@
                == reason@ && is_fresh_context(c),
    {
        CaptureError::Resource { resource: owned(resource), reason: owned(reason), context: ErrorContext::new() }
    }

    /// A platform error, with the platform's error code if any.
    pub fn platform(platform: &str, code: Option<i32>, reason: &str) -> (e: Self)
        ensures
            e matches CaptureError::Platform { platform: p, code: k, reason: r, context: c } && p@ == platform@ && k
                == code && r@ == reason@ && is_fresh_context(c),
    {
        CaptureError::Platform { platform: owned(platform), code, reason: owned(reason), context: ErrorContext::new() }
    }

    /// An I/O error, with no path.
    pub fn io(operation: &str, source: std::io::Error) -> (e: Self)
        ensures
            e matches CaptureError::Io { operation: o, path: p, source: s, context: c } && o@ == operation@ && p is None
                && s == source && is_fresh_context(c),
    {
        CaptureError::Io { operation: owned(operation), path: None, source, context: ErrorContext::new() }
    }

    /// A GStreamer error.
    pub fn gstreamer(element: Option<String>, message: &str) -> (e: Self)
        ensures
            e matches CaptureError::GStreamer { element: el, message: m, context: c } && el == element && m@
                == message@ && is_fresh_context(c),
    {
        CaptureError::GStreamer { element, message: owned(message), context: ErrorContext::new() }
    }

    /// An error of an outside library, given that library's error message.
    pub fn external(library: &str, source: &str) -> (e: Self)
        ensures
            e matches CaptureError::External { library: l, source: s, context: c } && l@ == library@ && s@
                == source@ && is_fresh_context(c),
    {
        CaptureError::External { library: owned(library), source: owned(source), context: ErrorContext::new() }
    }

    /// A timeout after `duration_ms` milliseconds.
    pub fn timeout(operation: &str, duration_ms: u64) -> (e: Self)
        ensures
            e matches CaptureError::Timeout { operation: o, duration_ms: d, context: c } && o@ == operation@ && d
                == duration_ms && is_fresh_context(c),
    {
        CaptureError::Timeout { operation: owned(operation), duration_ms, context: ErrorContext::new() }
    }

    /// A validation error.
    pub fn validation(field: &str, constraint: &str, value: &str) -> (e: Self)
        ensures
            e matches CaptureError::Validation { field: f, constraint: k, value: v, context: c } && f@ == field@ && k@
                == constraint@ && v@ == value@ && is_fresh_context(c),
    {
        CaptureError::Validation {
            field: owned(field),
            constraint: owned(constraint),
            value: owned(value),
            context: ErrorContext::new(),
        }
    }

    /// An invalid state transition.
    pub fn state(current_state: &str, attempted_operation: &str, reason: &str) -> (e: Self)
        ensures
            e matches CaptureError::State { current_state: s, attempted_operation: a, reason: r, context: c } && s@
                == current_state@ && a@ == attempted_operation@ && r@ == reason@ && is_fresh_context(c),
    {
        CaptureError::State {
            current_state: owned(current_state),
            attempted_operation: owned(attempted_operation),
            reason: owned(reason),
            context: ErrorContext::new(),
        }
    }

    /// A network error, with no address and no cause.
    pub fn network(operation: &str) -> (e: Self)
        ensures
            e matches CaptureError::Network { operation: o, address: a, source: s, context: c } && o@ == operation@
                && a is None && s is None && is_fresh_context(c),
    {
        CaptureError::Network { operation: owned(operation), address: None, source: None, context: ErrorContext::new() }
    }

    /// An authentication error.
    pub fn auth(operation: &str, reason: &str) -> (e: Self)
        ensures
            e matches CaptureError::Auth { operation: o, reason: r, context: c } && o@ == operation@ && r@ == reason@
                && is_fresh_context(c),
    {
        CaptureError::Auth { operation: owned(operation), reason: owned(reason), context: ErrorContext::new() }
    }

    /// A custom error carrying `data`.
    pub fn custom(category: &str, message: &str, data: serde_json::Value) -> (e: Self)
        ensures
            e matches CaptureError::Custom { category: k, message: m, data: d, context: c } && k@ == category@ && m@
                == message@ && d == data && is_fresh_context(c),
    {
        CaptureError::Custom { category: owned(category), message: owned(message), data, context: ErrorContext::new() }
    }
}

/// The category name of an error: its kind in snake case.
pub open spec fn spec_category(e: CaptureError) -> Seq<char> {
    match e {
            CaptureError::Config { .. } => "config"@,
            CaptureError::CaptureInit { .. } => "capture_init"@,
            CaptureError::FrameCapture { .. } => "frame_capture"@,
            CaptureError::Processing { .. } => "processing"@,
            CaptureError::Streaming { .. } => "streaming"@,
            CaptureError::Resource { .. } => "resource"@,
            CaptureError::Platform { .. } => "platform"@,
            CaptureError::Io { .. } => "io"@,
            CaptureError::GStreamer { .. } => "gstreamer"@,
            CaptureError::External { .. } => "external"@,
            CaptureError::Timeout { .. } => "timeout"@,
            CaptureError::Validation { .. } => "validation"@,
            CaptureError::State { .. } => "state"@,
            CaptureError::Network { .. } => "network"@,
            CaptureError::Auth { .. } => "auth"@,
            CaptureError::Custom { .. } => "custom"@,
    }
}

impl CaptureError {
    /// The error's context.
    pub fn context(&self) -> (c: &ErrorContext)
        ensures
            *c == self.ctx(),
    {
        match self {
            CaptureError::Config { context, .. } => context,
            CaptureError::CaptureInit { context, .. } => context,
            CaptureError::FrameCapture { context, .. } => context,
            CaptureError::Processing { context, .. } => context,
            CaptureError::Streaming { context, .. } => context,
            CaptureError::Resource { context, .. } => context,
            CaptureError::Platform { context, .. } => context,
            CaptureError::Io { context, .. } => context,
            CaptureError::GStreamer { context, .. } => context,
            CaptureError::External { context, .. } => context,
            CaptureError::Timeout { context, .. } => context,
            CaptureError::Validation { context, .. } => context,
            CaptureError::State { context, .. } => context,
            CaptureError::Network { context, .. } => context,
            CaptureError::Auth { context, .. } => context,
            CaptureError::Custom { context, .. } => context,
        }
    }

    /// The error's context, to change in place.
    fn context_mut(&mut self) -> (c: &mut ErrorContext)
        ensures
            *c == old(self).ctx(),
            *final(self) == old(self).with_ctx(*final(c)),
    {
        match self {
            CaptureError::Config { context, .. } => context,
            CaptureError::CaptureInit { context, .. } => context,
            CaptureError::FrameCapture { context, .. } => context,
            CaptureError::Processing { context, .. } => context,
            CaptureError::Streaming { context, .. } => context,
            CaptureError::Resource { context, .. } => context,
            CaptureError::Platform { context, .. } => context,
            CaptureError::Io { context, .. } => context,
            CaptureError::GStreamer { context, .. } => context,
            CaptureError::External { context, .. } => context,
            CaptureError::Timeout { context, .. } => context,
            CaptureError::Validation { context, .. } => context,
            CaptureError::State { context, .. } => context,
            CaptureError::Network { context, .. } => context,
            CaptureError::Auth { context, .. } => context,
            CaptureError::Custom { context, .. } => context,
        }
    }

    /// Sets the additional context.
    pub fn with_context(self, context: &str) -> (r: Self)
        ensures
            holds_text(r.ctx().context, context@),
            r == self.with_ctx(ErrorContext { context: r.ctx().context, ..self.ctx() }),
    {
        let mut e = self;
        e.context_mut().context = Some(owned(context));
        e
    }

    /// Sets the operation under way.
    pub fn with_operation(self, operation: &str) -> (r: Self)
        ensures
            holds_text(r.ctx().operation, operation@),
            r == self.with_ctx(ErrorContext { operation: r.ctx().operation, ..self.ctx() }),
    {
        let mut e = self;
        e.context_mut().operation = Some(owned(operation));
        e
    }

    /// Sets the recovery suggestion.
    pub fn with_recovery_suggestion(self, suggestion: &str) -> (r: Self)
        ensures
            holds_text(r.ctx().recovery_suggestion, suggestion@),
            r == self.with_ctx(ErrorContext { recovery_suggestion: r.ctx().recovery_suggestion, ..self.ctx() }),
    {
        let mut e = self;
        e.context_mut().recovery_suggestion = Some(owned(suggestion));
        e
    }

    /// Sets the severity.
    pub fn with_severity(self, severity: ErrorSeverity) -> (r: Self)
        ensures
            r == self.with_ctx(ErrorContext { severity, ..self.ctx() }),
    {
        let mut e = self;
        e.context_mut().severity = severity;
        e
    }

    /// Marks the error retryable.
    pub fn retryable(self) -> (r: Self)
        ensures
            r == self.with_ctx(ErrorContext { retryable: true, ..self.ctx() }),
    {
        let mut e = self;
        e.context_mut().retryable = true;
        e
    }

    /// Marks the error recoverable.
    pub fn recoverable(self) -> (r: Self)
        ensures
            r == self.with_ctx(ErrorContext { recoverable: true, ..self.ctx() }),
    {
        let mut e = self;
        e.context_mut().recoverable = true;
        e
    }

    /// Records `key = value` in the context's metadata.
    pub fn with_metadata(self, key: &str, value: &str) -> (r: Self)
        ensures
            r == self.with_ctx(ErrorContext { metadata: r.ctx().metadata, ..self.ctx() }),
            exists|k: String, v: String|
                #![trigger k@, v@]
                k@ == key@ && v@ == value@ && (obeys_key_model::<String>() ==> r.ctx().metadata@
                    == self.ctx().metadata@.insert(k, v)),
    {
        let mut e = self;
        let c = e.context_mut();
        let k = owned(key);
        let v = owned(value);
        let ghost gk = k;
        let ghost gv = v;
        c.metadata.insert(k, v);
        assert(gk@ == key@ && gv@ == value@);
        e
    }

    /// The category name of the error.
    pub fn category(&self) -> (s: &'static str)
        ensures
            s@ == spec_category(*self),
    {
        match self {
            CaptureError::Config { .. } => "config",
            CaptureError::CaptureInit { .. } => "capture_init",
            CaptureError::FrameCapture { .. } => "frame_capture",
            CaptureError::Processing { .. } => "processing",
            CaptureError::Streaming { .. } => "streaming",
            CaptureError::Resource { .. } => "resource",
            CaptureError::Platform { .. } => "platform",
            CaptureError::Io { .. } => "io",
            CaptureError::GStreamer { .. } => "gstreamer",
            CaptureError::External { .. } => "external",
            CaptureError::Timeout { .. } => "timeout",
            CaptureError::Validation { .. } => "validation",
            CaptureError::State { .. } => "state",
            CaptureError::Network { .. } => "network",
            CaptureError::Auth { .. } => "auth",
            CaptureError::Custom { .. } => "custom",
        }
    }
}

/// The text of an error, where `source_text` is the text of an I/O error's
/// source (unused by the other kinds).
pub open spec fn spec_message(e: CaptureError, source_text: Seq<char>) -> Seq<char> {
    match e {
        CaptureError::Config { field, value, reason, .. } => "Configuration error in '"@ + field@ + "': "@ + reason@
            + " (value: "@ + value@ + ")"@,
        CaptureError::CaptureInit { platform, reason, .. } => "Failed to initialize capture on "@ + platform@ + ": "@
            + reason@,
        CaptureError::FrameCapture { reason, .. } => "Frame capture failed: "@ + reason@,
        CaptureError::Processing { operation, reason, .. } => "Processing failed during "@ + operation@ + ": "@
            + reason@,
        CaptureError::Streaming { target, reason, .. } => "Streaming to "@ + target@ + " failed: "@ + reason@,
        CaptureError::Resource { resource, reason, .. } => "Resource allocation failed for "@ + resource@ + ": "@
            + reason@,
        CaptureError::Platform { platform, code, reason, .. } => match code {
            Some(c) => "Platform error on "@ + platform@ + " (code "@ + signed_decimal(c as int) + "): "@ + reason@,
            None => "Platform error on "@ + platform@ + ": "@ + reason@,
        },
        CaptureError::Io { operation, path, .. } => match path {
            Some(p) => "I/O error during "@ + operation@ + " on '"@ + p@ + "': "@ + source_text,
            None => "I/O error during "@ + operation@ + ": "@ + source_text,
        },
        CaptureError::GStreamer { element, message, .. } => match element {
            Some(el) => "GStreamer error in element '"@ + el@ + "': "@ + message@,
            None => "GStreamer error: "@ + message@,
        },
        CaptureError::External { library, source, .. } => "External library error in "@ + library@ + ": "@
            + source@,
        CaptureError::Timeout { operation, duration_ms, .. } => "Timeout during "@ + operation@ + " after "@
            + decimal(duration_ms as nat) + "ms"@,
        CaptureError::Validation { field, constraint, value, .. } => "Validation failed for '"@ + field@ + "': "@
            + constraint@ + " (value: "@ + value@ + ")"@,
        CaptureError::State { current_state, attempted_operation, reason, .. } => "Invalid state transition from '"@
            + current_state@ + "' when attempting '"@ + attempted_operation@ + "': "@ + reason@,
        CaptureError::Network { operation, address, .. } => match address {
            Some(a) => "Network error during "@ + operation@ + " on "@ + a@,
            None => "Network error during "@ + operation@,
        },
        CaptureError::Auth { operation, reason, .. } => "Authentication error during "@ + operation@ + ": "@
            + reason@,
        CaptureError::Custom { category, message, .. } => "Custom error ["@ + category@ + "]: "@ + message@,
    }
}

impl CaptureError {
    /// The text of the error, with `source_text` standing for the text of
    /// an I/O error's source.
    pub fn message_with_source(&self, source_text: &str) -> (s: String)
        ensures
            s@ == spec_message(*self, source_text@),
    {
        match self {
            CaptureError::Config { field, value, reason, .. } => {
                let mut s = owned("Configuration error in '");
                s.append(field.as_str());
                s.append("': ");
                s.append(reason.as_str());
                s.append(" (value: ");
                s.append(value.as_str());
                s.append(")");
                s
            },
            CaptureError::CaptureInit { platform, reason, .. } => {
                let mut s = owned("Failed to initialize capture on ");
                s.append(platform.as_str());
                s.append(": ");
                s.append(reason.as_str());
                s
            },
            CaptureError::FrameCapture { reason, .. } => {
                let mut s = owned("Frame capture failed: ");
                s.append(reason.as_str());
                s
            },
            CaptureError::Processing { operation, reason, .. } => {
                let mut s = owned("Processing failed during ");
                s.append(operation.as_str());
                s.append(": ");
                s.append(reason.as_str());
                s
            },
            CaptureError::Streaming { target, reason, .. } => {
                let mut s = owned("Streaming to ");
                s.append(target.as_str());
                s.append(" failed: ");
                s.append(reason.as_str());
                s
            },
            CaptureError::Resource { resource, reason, .. } => {
                let mut s = owned("Resource allocation failed for ");
                s.append(resource.as_str());
                s.append(": ");
                s.append(reason.as_str());
                s
            },
            CaptureError::Platform { platform, code, reason, .. } => {
                let mut s = owned("Platform error on ");
                s.append(platform.as_str());
                match code {
                    Some(c) => {
                        s.append(" (code ");
                        push_signed_decimal(&mut s, *c as i64);
                        s.append("): ");
                    },
                    None => {
                        s.append(": ");
                    },
                }
                s.append(reason.as_str());
                s
            },
            CaptureError::Io { operation, path, .. } => {
                let mut s = owned("I/O error during ");
                s.append(operation.as_str());
                match path {
                    Some(p) => {
                        s.append(" on '");
                        s.append(p.as_str());
                        s.append("': ");
                    },
                    None => {
                        s.append(": ");
                    },
                }
                s.append(source_text);
                s
            },
            CaptureError::GStreamer { element, message, .. } => {
                let mut s = match element {
                    Some(el) => {
                        let mut s = owned("GStreamer error in element '");
                        s.append(el.as_str());
                        s.append("': ");
                        s
                    },
                    None => owned("GStreamer error: "),
                };
                s.append(message.as_str());
                s
            },
            CaptureError::External { library, source, .. } => {
                let mut s = owned("External library error in ");
                s.append(library.as_str());
                s.append(": ");
                s.append(source.as_str());
                s
            },
            CaptureError::Timeout { operation, duration_ms, .. } => {
                let mut s = owned("Timeout during ");
                s.append(operation.as_str());
                s.append(" after ");
                push_decimal(&mut s, *duration_ms);
                s.append("ms");
                s
            },
            CaptureError::Validation { field, constraint, value, .. } => {
                let mut s = owned("Validation failed for '");
                s.append(field.as_str());
                s.append("': ");
                s.append(constraint.as_str());
                s.append(" (value: ");
                s.append(value.as_str());
                s.append(")");
                s
            },
            CaptureError::State { current_state, attempted_operation, reason, .. } => {
                let mut s = owned("Invalid state transition from '");
                s.append(current_state.as_str());
                s.append("' when attempting '");
                s.append(attempted_operation.as_str());
                s.append("': ");
                s.append(reason.as_str());
                s
            },
            CaptureError::Network { operation, address, .. } => {
                let mut s = owned("Network error during ");
                s.append(operation.as_str());
                match address {
                    Some(a) => {
                        s.append(" on ");
                        s.append(a.as_str());
                    },
                    None => {},
                }
                s
            },
            CaptureError::Auth { operation, reason, .. } => {
                let mut s = owned("Authentication error during ");
                s.append(operation.as_str());
                s.append(": ");
                s.append(reason.as_str());
                s
            },
            CaptureError::Custom { category, message, .. } => {
                let mut s = owned("Custom error [");
                s.append(category.as_str());
                s.append("]: ");
                s.append(message.as_str());
                s
            },
        }
    }

    /// The text of the error.  For an I/O error it ends with the text that
    /// `std::io::Error` gives of its source.
    pub fn to_string(&self) -> (s: String)
        ensures
            !(self is Io) ==> s@ == spec_message(*self, Seq::empty()),
            self is Io ==> exists|t: Seq<char>| s@ == #[trigger] spec_message(*self, t),
    {
        match self {
            CaptureError::Io { source, .. } => {
                let t = io_error_text(source);
                self.message_with_source(t.as_str())
            },
            _ => {
                proof {
                    reveal_strlit("");
                }
                self.message_with_source("")
            },
        }
    }
}

/// Errors whose failed operation may be tried again.
pub trait Retryable {
    /// Whether the operation may be retried.
    fn is_retryable(&self) -> bool;

    /// The recommended delay before a retry, in milliseconds; none unless
    /// the type says otherwise.
    fn retry_delay_ms(&self) -> (r: Option<u64>)
        default_ensures
            r is None,
    {
        None
    }

    /// The most retries to attempt; none unless the type says otherwise.
    fn max_retries(&self) -> (r: Option<usize>)
        default_ensures
            r is None,
    {
        None
    }
}

/// The kinds that are retried by default: timeouts, network, resource and
/// I/O errors.
pub open spec fn retried_kind(e: CaptureError) -> bool {
    e is Timeout || e is Network || e is Resource || e is Io
}

/// The recommended retry delay of each kind.
pub open spec fn spec_retry_delay_ms(e: CaptureError) -> Option<u64> {
    match e {
        CaptureError::Timeout { .. } => Some(1000),
        CaptureError::Network { .. } => Some(2000),
        CaptureError::Resource { .. } => Some(500),
        CaptureError::Io { .. } => Some(100),
        _ => None,
    }
}

/// The retry budget of each kind.
pub open spec fn spec_max_retries(e: CaptureError) -> Option<usize> {
    match e {
        CaptureError::Timeout { .. } => Some(3),
        CaptureError::Network { .. } => Some(5),
        CaptureError::Resource { .. } => Some(10),
        CaptureError::Io { .. } => Some(3),
        _ => None,
    }
}

impl Retryable for CaptureError {
    /// Retryable when marked so, or of a kind that is retried by default.
    fn is_retryable(&self) -> (r: bool)
        ensures
            r == (self.ctx().retryable || retried_kind(*self)),
    {
        self.context().retryable || match self {
            CaptureError::Timeout { .. } | CaptureError::Network { .. } | CaptureError::Resource { .. }
            | CaptureError::Io { .. } => true,
            _ => false,
        }
    }

    fn retry_delay_ms(&self) -> (r: Option<u64>)
        ensures
            r == spec_retry_delay_ms(*self),
    {
        match self {
            CaptureError::Timeout { .. } => Some(1000),
            CaptureError::Network { .. } => Some(2000),
            CaptureError::Resource { .. } => Some(500),
            CaptureError::Io { .. } => Some(100),
            _ => None,
        }
    }

    fn max_retries(&self) -> (r: Option<usize>)
        ensures
            r == spec_max_retries(*self),
    {
        match self {
            CaptureError::Timeout { .. } => Some(3),
            CaptureError::Network { .. } => Some(5),
            CaptureError::Resource { .. } => Some(10),
            CaptureError::Io { .. } => Some(3),
            _ => None,
        }
    }
}

/// Ways of handling an error.
#[derive(Debug, Clone)]
pub enum RecoveryStrategy {
    /// Retry the operation.
    Retry { max_attempts: usize, delay_ms: u64 },
    /// Use a fallback method.
    Fallback { description: String },
    /// Reinitialise a component.
    Reinitialize { component: String },
    /// Skip the current operation.
    Skip { reason: String },
    /// Degrade functionality.
    Degrade { description: String },
}

/// Errors that can be recovered from.
pub trait Recoverable {
    /// Whether the error can be recovered from.
    fn is_recoverable(&self) -> bool;

    /// The strategies to try, in order.
    fn recovery_strategies(&self) -> Vec<RecoveryStrategy>;
}

/// The kinds that are recoverable by default: timeouts, network, resource,
/// processing and streaming errors.
pub open spec fn recovered_kind(e: CaptureError) -> bool {
    e is Timeout || e is Network || e is Resource || e is Processing || e is Streaming
}

/// `s` is a retry with these numbers.
pub open spec fn is_retry(s: RecoveryStrategy, max_attempts: usize, delay_ms: u64) -> bool {
    s matches RecoveryStrategy::Retry { max_attempts: m, delay_ms: d } && m == max_attempts && d == delay_ms
}

/// `s` is a fallback with this description.
pub open spec fn is_fallback(s: RecoveryStrategy, text: Seq<char>) -> bool {
    s matches RecoveryStrategy::Fallback { description } && description@ == text
}

/// `s` reinitialises this component.
pub open spec fn is_reinitialize(s: RecoveryStrategy, text: Seq<char>) -> bool {
    s matches RecoveryStrategy::Reinitialize { component } && component@ == text
}

/// `s` skips for this reason.
pub open spec fn is_skip(s: RecoveryStrategy, text: Seq<char>) -> bool {
    s matches RecoveryStrategy::Skip { reason } && reason@ == text
}

/// `s` degrades as described.
pub open spec fn is_degrade(s: RecoveryStrategy, text: Seq<char>) -> bool {
    s matches RecoveryStrategy::Degrade { description } && description@ == text
}

/// The recovery strategies of each kind of error, in order.
pub open spec fn strategies_for(e: CaptureError, v: Seq<RecoveryStrategy>) -> bool {
    match e {
        CaptureError::Timeout { .. } => v.len() == 2 && is_retry(v[0], 3, 1000) && is_fallback(
            v[1],
            "Use synchronous operation"@,
        ),
        CaptureError::Network { .. } => v.len() == 2 && is_retry(v[0], 5, 2000) && is_reinitialize(
            v[1],
            "network_connection"@,
        ),
        CaptureError::Resource { .. } => v.len() == 2 && is_retry(v[0], 3, 500) && is_degrade(
            v[1],
            "Reduce resource usage"@,
        ),
        CaptureError::Processing { .. } => v.len() == 2 && is_skip(v[0], "Skip current frame"@) && is_reinitialize(
            v[1],
            "processing_pipeline"@,
        ),
        CaptureError::Streaming { .. } => v.len() == 2 && is_retry(v[0], 3, 1000) && is_fallback(
            v[1],
            "Switch to file output"@,
        ),
        _ => v.len() == 0,
    }
}

impl Recoverable for CaptureError {
    /// Recoverable when marked so, or of a kind that is recoverable by
    /// default.
    fn is_recoverable(&self) -> (r: bool)
        ensures
            r == (self.ctx().recoverable || recovered_kind(*self)),
    {
        self.context().recoverable || match self {
            CaptureError::Timeout { .. } | CaptureError::Network { .. } | CaptureError::Resource { .. }
            | CaptureError::Processing { .. } | CaptureError::Streaming { .. } => true,
            _ => false,
        }
    }

    fn recovery_strategies(&self) -> (v: Vec<RecoveryStrategy>)
        ensures
            strategies_for(*self, v@),
    {
        match self {
            CaptureError::Timeout { .. } => vec![
                RecoveryStrategy::Retry { max_attempts: 3, delay_ms: 1000 },
                RecoveryStrategy::Fallback { description: owned("Use synchronous operation") },
            ],
            CaptureError::Network { .. } => vec![
                RecoveryStrategy::Retry { max_attempts: 5, delay_ms: 2000 },
                RecoveryStrategy::Reinitialize { component: owned("network_connection") },
            ],
            CaptureError::Resource { .. } => vec![
                RecoveryStrategy::Retry { max_attempts: 3, delay_ms: 500 },
                RecoveryStrategy::Degrade { description: owned("Reduce resource usage") },
            ],
            CaptureError::Processing { .. } => vec![
                RecoveryStrategy::Skip { reason: owned("Skip current frame") },
                RecoveryStrategy::Reinitialize { component: owned("processing_pipeline") },
            ],
            CaptureError::Streaming { .. } => vec![
                RecoveryStrategy::Retry { max_attempts: 3, delay_ms: 1000 },
                RecoveryStrategy::Fallback { description: owned("Switch to file output") },
            ],
            _ => Vec::new(),
        }
    }
}

/// Errors with a severity.
pub trait HasSeverity {
    /// The severity of the error.
    fn severity(&self) -> ErrorSeverity;
}

impl HasSeverity for CaptureError {
    fn severity(&self) -> (s: ErrorSeverity)
        ensures
            s == self.ctx().severity,
    {
        self.context().severity
    }
}

/// Errors that may suggest a recovery.
pub trait HasRecoverySuggestion {
    /// The suggestion, if any.
    fn recovery_suggestion(&self) -> Option<&str>;
}

impl HasRecoverySuggestion for CaptureError {
    fn recovery_suggestion(&self) -> (r: Option<&str>)
        ensures
            match self.ctx().recovery_suggestion {
                Some(s) => r matches Some(t) && t@ == s@,
                None => r is None,
            },
    {
        match &self.context().recovery_suggestion {
            Some(s) => Some(s.as_str()),
            None => None,
        }
    }
}

impl CaptureError {
    /// The error for an I/O failure of unknown operation.
    pub fn from_io(error: std::io::Error) -> (e: Self)
        ensures
            e matches CaptureError::Io { operation: o, path: p, source: s, context: c } && o@ == "unknown"@ && p is None
                && s == error && is_fresh_context(c),
    {
        Self::io("unknown", error)
    }

    /// The error for a failure of `serde_json`, given its message.
    pub fn from_json_error(message: &str) -> (e: Self)
        ensures
            e matches CaptureError::External { library: l, source: s, context: c } && l@ == "serde_json"@ && s@
                == message@ && is_fresh_context(c),
    {
        Self::external("serde_json", message)
    }

    /// The error for a number that could not be parsed, given the parser's
    /// message; `kind` is `"integer"` or `"float"`.
    pub fn from_parse_error(kind: &str, message: &str) -> (e: Self)
        ensures
            e matches CaptureError::Validation { field: f, constraint: k, value: v, context: c } && f@ == kind@ && k@
                == "invalid format"@ && v@ == message@ && is_fresh_context(c),
    {
        Self::validation(kind, "invalid format", message)
    }
}

/// Fluent construction of an error.
pub struct ErrorBuilder {
    error: CaptureError,
}

impl ErrorBuilder {
    /// The error built so far.
    pub closed spec fn built(&self) -> CaptureError {
        self.error
    }

    /// Starts from `error`.
    pub fn new(error: CaptureError) -> (b: Self)
        ensures
            b.built() == error,
    {
        ErrorBuilder { error }
    }

    /// Sets the additional context.
    pub fn context(self, context: &str) -> (b: Self)
        ensures
            holds_text(b.built().ctx().context, context@),
            b.built() == self.built().with_ctx(ErrorContext { context: b.built().ctx().context, ..self.built().ctx() }),
    {
        ErrorBuilder { error: self.error.with_context(context) }
    }

    /// Sets the operation under way.
    pub fn operation(self, operation: &str) -> (b: Self)
        ensures
            holds_text(b.built().ctx().operation, operation@),
            b.built() == self.built().with_ctx(
                ErrorContext { operation: b.built().ctx().operation, ..self.built().ctx() },
            ),
    {
        ErrorBuilder { error: self.error.with_operation(operation) }
    }

    /// Sets the recovery suggestion.
    pub fn recovery_suggestion(self, suggestion: &str) -> (b: Self)
        ensures
            holds_text(b.built().ctx().recovery_suggestion, suggestion@),
            b.built() == self.built().with_ctx(
                ErrorContext { recovery_suggestion: b.built().ctx().recovery_suggestion, ..self.built().ctx() },
            ),
    {
        ErrorBuilder { error: self.error.with_recovery_suggestion(suggestion) }
    }

    /// Sets the severity.
    pub fn severity(self, severity: ErrorSeverity) -> (b: Self)
        ensures
            b.built() == self.built().with_ctx(ErrorContext { severity, ..self.built().ctx() }),
    {
        ErrorBuilder { error: self.error.with_severity(severity) }
    }

    /// Marks the error retryable.
    pub fn retryable(self) -> (b: Self)
        ensures
            b.built() == self.built().with_ctx(ErrorContext { retryable: true, ..self.built().ctx() }),
    {
        ErrorBuilder { error: self.error.retryable() }
    }

    /// Marks the error recoverable.
    pub fn recoverable(self) -> (b: Self)
        ensures
            b.built() == self.built().with_ctx(ErrorContext { recoverable: true, ..self.built().ctx() }),
    {
        ErrorBuilder { error: self.error.recoverable() }
    }

    /// Records `key = value` in the metadata.
    pub fn metadata(self, key: &str, value: &str) -> (b: Self)
        ensures
            b.built() == self.built().with_ctx(
                ErrorContext { metadata: b.built().ctx().metadata, ..self.built().ctx() },
            ),
            exists|k: String, v: String|
                #![trigger k@, v@]
                k@ == key@ && v@ == value@ && (obeys_key_model::<String>() ==> b.built().ctx().metadata@
                    == self.built().ctx().metadata@.insert(k, v)),
    {
        ErrorBuilder { error: self.error.with_metadata(key, value) }
    }

    /// The error built.
    pub fn build(self) -> (e: CaptureError)
        ensures
            e == self.built(),
    {
        self.error
    }
}

/// Changing an error's context keeps its kind: its category, its text and
/// its default classification are those of the error before, and its
/// context is the new one.
pub proof fn lemma_context_keeps_kind(e: CaptureError, c: ErrorContext, source_text: Seq<char>)
    ensures
        e.with_ctx(c).ctx() == c,
        spec_category(e.with_ctx(c)) == spec_category(e),
        spec_message(e.with_ctx(c), source_text) == spec_message(e, source_text),
        retried_kind(e.with_ctx(c)) == retried_kind(e),
        recovered_kind(e.with_ctx(c)) == recovered_kind(e),
        spec_retry_delay_ms(e.with_ctx(c)) == spec_retry_delay_ms(e),
        spec_max_retries(e.with_ctx(c)) == spec_max_retries(e),
        forall|v: Seq<RecoveryStrategy>| strategies_for(e.with_ctx(c), v) == strategies_for(e, v),
{
}

/// A retry delay and a retry budget are given exactly for the kinds that
/// are retried by default.
pub proof fn lemma_retry_advice_matches_kind(e: CaptureError)
    ensures
        spec_retry_delay_ms(e) is Some <==> retried_kind(e),
        spec_max_retries(e) is Some <==> retried_kind(e),
{
}

/// Recovery strategies are offered exactly for the kinds that are
/// recoverable by default, and a strategy list is determined by the kind.
pub proof fn lemma_strategies_match_kind(e: CaptureError, v: Seq<RecoveryStrategy>)
    requires
        strategies_for(e, v),
    ensures
        v.len() > 0 <==> recovered_kind(e),
{
}

} // verus!
