//! Audit trail logging.
//!
//! Records all significant operations for compliance and debugging. Each
//! entry captures who did what, when, and the outcome; the server's audit
//! log broadcasts each entry built here to its subscribers.

use vstd::prelude::*;
use serde_json::Value;
use crate::server::approvals::{is_v4_uuid_text, new_uuid, now_utc, Timestamp, LATEST_SECS};

verus! {

/// The type of operation being audited.
#[derive(Debug, Clone, Copy, PartialEq, Eq, Structural)]
pub enum AuditAction {
    ServerStart,
    ServerStop,
    WorkspaceCreate,
    ConfigRead,
    ConfigUpdate,
    Reload,
    FileList,
    FileRead,
    FileWriteRequest,
    FileWriteComplete,
    CommandRequest,
    CommandComplete,
    ApprovalGrant,
    ApprovalDeny,
    ApprovalExpire,
}

/// Outcome of an audited operation.
#[derive(Debug, Clone, Copy, PartialEq, Eq, Structural)]
pub enum AuditOutcome {
    /// Operation succeeded.
    Success,
    /// Operation failed.
    Failure,
    /// Operation is pending approval.
    Pending,
}

/// A single audit log entry.
#[derive(Debug, Clone)]
pub struct AuditEntry {
    /// Unique identifier for this audit entry.
    pub id: String,
    /// When the operation occurred.
    pub timestamp: Timestamp,
    /// The workspace involved, if any.
    pub workspace_id: Option<String>,
    /// The action performed.
    pub action: AuditAction,
    /// The outcome of the action.
    pub outcome: AuditOutcome,
    /// The path or resource involved.
    pub resource: Option<String>,
    /// IP address of the requester.
    pub remote_addr: Option<String>,
    /// Additional details.
    pub details: Option<Value>,
}

impl AuditEntry {
    /// The entry for an operation audited now: a fresh random id, the
    /// current time, and the given details. Broadcasting it to the log's
    /// subscribers is the caller's part.
    pub fn create(
        action: AuditAction,
        outcome: AuditOutcome,
        workspace_id: Option<String>,
        resource: Option<String>,
        remote_addr: Option<String>,
        details: Option<Value>,
    ) -> (r: AuditEntry)
        ensures
            is_v4_uuid_text(r.id@),
            0 <= r.timestamp.secs <= LATEST_SECS,
            r.timestamp.nanos < 1_000_000_000,
            r.action == action,
            r.outcome == outcome,
            r.workspace_id == workspace_id,
            r.resource == resource,
            r.remote_addr == remote_addr,
            r.details == details,
    {
        AuditEntry {
            id: new_uuid(),
            timestamp: now_utc(),
            workspace_id,
            action,
            outcome,
            resource,
            remote_addr,
            details,
        }
    }
}

} // verus!
