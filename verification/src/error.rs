//! Errors produced by the library.
//!
//! The `code` is stable and machine-readable so a caller can branch on it; the message is
//! human-readable and safe to display.

use vstd::prelude::*;

use crate::text::{concat, owned};

verus! {

#[derive(Debug)]
pub enum PruneError {
    /// The safety layer refused a path.
    Safety { path: String, reason: String },
    UnknownScan(String),
    UnknownPlan(String),
    UnknownTarget(String),
    Cancelled,
    NotImplemented(&'static str),
    /// An operating-system error, with the message it carried.
    Io { path: String, message: String },
    Trash { path: String, message: String },
    /// Reading or writing JSON failed.
    Serde(String),
    Other(String),
}

pub open spec fn error_code(e: PruneError) -> Seq<char> {
    match e {
        PruneError::Safety { .. } => "safety_violation"@,
        PruneError::UnknownScan(_) => "unknown_scan"@,
        PruneError::UnknownPlan(_) => "unknown_plan"@,
        PruneError::UnknownTarget(_) => "unknown_target"@,
        PruneError::Cancelled => "cancelled"@,
        PruneError::NotImplemented(_) => "not_implemented"@,
        PruneError::Io { .. } => "io"@,
        PruneError::Trash { .. } => "trash"@,
        PruneError::Serde(_) => "serde"@,
        PruneError::Other(_) => "other"@,
    }
}

/// What the error says when displayed.
pub open spec fn error_message(e: PruneError) -> Seq<char> {
    match e {
        PruneError::Safety { path, reason } => "path is not allowed: "@ + reason@ + " ("@ + path@
            + ")"@,
        PruneError::UnknownScan(id) => "unknown scan session: "@ + id@,
        PruneError::UnknownPlan(id) => "unknown cleanup plan: "@ + id@,
        PruneError::UnknownTarget(id) => "unknown target: "@ + id@,
        PruneError::Cancelled => "scan was cancelled"@,
        PruneError::NotImplemented(what) => "feature not available yet on this platform: "@
            + what@,
        PruneError::Io { path, message } => "io error at "@ + path@ + ": "@ + message@,
        PruneError::Trash { path, message } => "trash error at "@ + path@ + ": "@ + message@,
        PruneError::Serde(message) => "serialization error: "@ + message@,
        PruneError::Other(message) => message@,
    }
}

impl PruneError {
    pub fn io(path: &str, message: &str) -> (r: PruneError)
        ensures
            r matches PruneError::Io { path: p, message: m } && p@ == path@ && m@ == message@,
    {
        PruneError::Io { path: owned(path), message: owned(message) }
    }

    pub fn safety(path: &str, reason: &str) -> (r: PruneError)
        ensures
            r matches PruneError::Safety { path: p, reason: m } && p@ == path@ && m@ == reason@,
    {
        PruneError::Safety { path: owned(path), reason: owned(reason) }
    }

    /// Stable, machine-readable error code.
    pub fn code(&self) -> (r: &'static str)
        ensures
            r@ == error_code(*self),
    {
        match self {
            PruneError::Safety { .. } => "safety_violation",
            PruneError::UnknownScan(_) => "unknown_scan",
            PruneError::UnknownPlan(_) => "unknown_plan",
            PruneError::UnknownTarget(_) => "unknown_target",
            PruneError::Cancelled => "cancelled",
            PruneError::NotImplemented(_) => "not_implemented",
            PruneError::Io { .. } => "io",
            PruneError::Trash { .. } => "trash",
            PruneError::Serde(_) => "serde",
            PruneError::Other(_) => "other",
        }
    }

    /// The human-readable message.
    pub fn message(&self) -> (r: String)
        ensures
            r@ == error_message(*self),
    {
        match self {
            PruneError::Safety { path, reason } => {
                let mut s = concat("path is not allowed: ", reason.as_str());
                s.append(" (");
                s.append(path.as_str());
                s.append(")");
                s
            },
            PruneError::UnknownScan(id) => concat("unknown scan session: ", id.as_str()),
            PruneError::UnknownPlan(id) => concat("unknown cleanup plan: ", id.as_str()),
            PruneError::UnknownTarget(id) => concat("unknown target: ", id.as_str()),
            PruneError::Cancelled => owned("scan was cancelled"),
            PruneError::NotImplemented(what) => concat(
                "feature not available yet on this platform: ",
                what,
            ),
            PruneError::Io { path, message } => {
                let mut s = concat("io error at ", path.as_str());
                s.append(": ");
                s.append(message.as_str());
                s
            },
            PruneError::Trash { path, message } => {
                let mut s = concat("trash error at ", path.as_str());
                s.append(": ");
                s.append(message.as_str());
                s
            },
            PruneError::Serde(message) => concat("serialization error: ", message.as_str()),
            PruneError::Other(message) => message.clone(),
        }
    }
}

/// Serializable projection of [`PruneError`] for IPC boundaries.
#[derive(Debug, Clone)]
pub struct ErrorInfo {
    pub code: &'static str,
    pub message: String,
}

impl ErrorInfo {
    pub fn of(err: &PruneError) -> (r: ErrorInfo)
        ensures
            r.code@ == error_code(*err),
            r.message@ == error_message(*err),
    {
        ErrorInfo { code: err.code(), message: err.message() }
    }
}

} // verus!
