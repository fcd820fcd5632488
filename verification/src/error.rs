//! Error taxonomy surfaced to the UI-command layer.
//!
//! Stale or unknown identifiers are programming or UI-sync bugs; a missing
//! execution result is recoverable; `NoResults` marks a retryable runner
//! outcome whose state change has been rolled back.

use crate::model::EntityType;
use vstd::prelude::*;

verus! {

#[derive(Clone, Debug, PartialEq, Eq)]
pub enum ApicizeAppError {
    /// Unknown session id.
    InvalidSession(String),
    /// Unknown workspace id.
    InvalidWorkspace(String),
    /// Unknown request id, or the id does not name a request.
    InvalidRequest(String),
    /// Unknown group id, or the id does not name a group.
    InvalidGroup(String),
    /// Unknown scenario id.
    InvalidScenario(String),
    /// Unknown authorization id.
    InvalidAuthorization(String),
    /// Unknown certificate id.
    InvalidCertificate(String),
    /// Unknown proxy id.
    InvalidProxy(String),
    /// Unknown data set id.
    InvalidDataSet(String),
    /// Execution result no longer retained.
    InvalidExecution(u64),
    /// The operation does not apply to this entity type.
    InvalidTypeForOperation(EntityType),
    /// A save was requested for a workspace that never had a file name.
    FileNameRequired,
    /// A process-wide resource was not available.
    ConcurrencyError(String),
    /// The runner returned nothing; the caller may retry.
    NoResults,
    /// Any other refused operation, with a description.
    InvalidOperation(String),
}

} // verus!
