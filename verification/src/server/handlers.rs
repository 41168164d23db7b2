//! Request and response bodies of the HTTP API, the server events, and the
//! pure decisions the handlers make.

use vstd::prelude::*;
use std::collections::HashMap;
use crate::server::approvals::{ApprovalManager, ApprovalRequest, ApprovalType};
use crate::server::audit::AuditOutcome;
use crate::server::config::{mode_name, ServerConfig};
use crate::server::errors::ServerError;
use crate::server::glob::{glob, glob_match};

verus! {

/// Server-sent event types.
#[derive(Debug, Clone)]
pub enum ServerEvent {
    /// A file has changed on disk.
    FileChanged { workspace_id: String, path: String, action: String },
    /// A configuration update occurred.
    ConfigUpdated { workspace_id: String },
    /// An approval request was created.
    ApprovalCreated { request_id: String, approval_type: String },
    /// An approval decision was made.
    ApprovalDecided { request_id: String, status: String },
    /// A command completed.
    CommandCompleted { workspace_id: String, command: String, exit_code: i32 },
    /// Server health update.
    HealthUpdate { uptime_secs: u64, active_connections: usize },
    /// Generic notification.
    Notification { workspace_id: Option<String>, message: String, level: String },
}

/// Health check response.
#[derive(Debug)]
pub struct HealthResponse {
    pub status: String,
    pub version: String,
    pub uptime_secs: u64,
    pub workspace_root: String,
    pub approval_mode: String,
}

/// Query parameters for listing files.
#[derive(Debug)]
pub struct ListFilesQuery {
    /// Glob pattern for filtering files.
    pub pattern: Option<String>,
    /// Maximum number of results.
    pub limit: Option<usize>,
}

/// Request body for creating a workspace.
#[derive(Debug)]
pub struct CreateWorkspaceRequest {
    /// Optional workspace name.
    pub name: Option<String>,
    /// Optional workspace description.
    pub description: Option<String>,
}

/// Request body for updating config.
#[derive(Debug)]
pub struct UpdateConfigRequest {
    /// Approval mode.
    pub approval_mode: Option<String>,
    /// Authorized roots.
    pub authorized_roots: Option<Vec<String>>,
}

/// Request body for executing commands.
#[derive(Debug)]
pub struct ExecuteCommandRequest {
    /// The command to execute.
    pub command: String,
    /// Working directory (relative to workspace root).
    pub working_dir: Option<String>,
    /// Environment variables.
    pub env: Option<HashMap<String, String>>,
}

/// Request body for file writes.
#[derive(Debug)]
pub struct WriteFileRequest {
    /// The file content.
    pub content: String,
    /// Whether to create parent directories.
    pub create_dirs: Option<bool>,
}

/// Generic success response.
#[derive(Debug)]
pub struct SuccessResponse {
    pub success: bool,
    pub message: String,
}

/// Workspace info response.
#[derive(Debug)]
pub struct WorkspaceInfo {
    pub id: String,
    pub root: String,
    pub created_at: String,
}

/// Config response.
#[derive(Debug)]
pub struct ConfigResponse {
    pub workspace_root: String,
    pub approval_mode: String,
    pub authorized_roots: Vec<String>,
}

/// File info response.
#[derive(Debug)]
pub struct FileInfo {
    pub path: String,
    pub size: u64,
    pub is_dir: bool,
    pub modified: Option<String>,
}

/// Command result response.
#[derive(Debug)]
pub struct CommandResponse {
    pub stdout: String,
    pub stderr: String,
    pub exit_code: i32,
}

/// How many walked entries a listing considers when no limit is asked for.
pub const DEFAULT_FILE_LIMIT: usize = 1000;

/// The most walked entries a listing ever considers.
pub const MAX_FILE_LIMIT: usize = 10000;

impl ListFilesQuery {
    /// How many walked entries a listing considers: the requested limit
    /// (1000 when none is given), at most 10000.
    pub fn effective_limit(&self) -> (r: usize)
        ensures
            r == (match self.limit {
                Some(l) => if l < MAX_FILE_LIMIT {
                    l
                } else {
                    MAX_FILE_LIMIT
                },
                None => DEFAULT_FILE_LIMIT,
            }),
    {
        let l = match self.limit {
            Some(l) => l,
            None => DEFAULT_FILE_LIMIT,
        };
        if l < MAX_FILE_LIMIT {
            l
        } else {
            MAX_FILE_LIMIT
        }
    }
}

/// The paths of `paths` that `pattern` matches, in order.
pub open spec fn matching_paths(paths: Seq<String>, pattern: Seq<char>) -> Seq<String>
    decreases paths.len(),
{
    if paths.len() == 0 {
        Seq::empty()
    } else {
        let kept = matching_paths(paths.drop_last(), pattern);
        if glob(pattern, paths.last()@) {
            kept.push(paths.last())
        } else {
            kept
        }
    }
}

/// The entries of a listing that its pattern keeps: all of them without a
/// pattern; with one, those whose path it matches, in order.
pub fn filter_paths(paths: Vec<String>, pattern: Option<&str>) -> (r: Vec<String>)
    ensures
        pattern is None ==> r@ == paths@,
        pattern matches Some(p) ==> r@ == matching_paths(paths@, p@),
{
    let p = match pattern {
        None => return paths,
        Some(p) => p,
    };
    let ghost all = paths@;
    let mut rest = paths;
    let mut kept: Vec<String> = Vec::new();
    let mut done: usize = 0;
    assert(all.skip(0) =~= all);
    assert(all.len() == rest.len());
    while rest.len() > 0
        invariant
            all.len() <= usize::MAX,
            all.len() == done + rest@.len(),
            rest@ == all.skip(done as int),
            kept@ == matching_paths(all.take(done as int), p@),
        decreases rest.len(),
    {
        let f = rest.remove(0);
        assert(f == all[done as int]);
        let b = glob_match(p, f.as_str());
        proof {
            assert(all.take(done + 1).drop_last() =~= all.take(done as int));
        }
        if b {
            kept.push(f);
        }
        done += 1;
        assert(rest@ =~= all.skip(done as int));
    }
    assert(all.take(done as int) =~= all);
    kept
}

/// The health report for a server running `version`, up for
/// `uptime_secs` seconds, under `config`.
pub fn health_response(version: String, uptime_secs: u64, config: &ServerConfig) -> (r: HealthResponse)
    ensures
        r.status@ == "ok"@,
        r.version == version,
        r.uptime_secs == uptime_secs,
        r.workspace_root@ == config.workspace_root@,
        r.approval_mode@ == mode_name(config.approval_mode),
{
    HealthResponse {
        status: "ok".to_string(),
        version,
        uptime_secs,
        workspace_root: config.workspace_root.clone(),
        approval_mode: config.approval_mode.as_str().to_string(),
    }
}

/// The configuration report of `config`.
pub fn config_response(config: &ServerConfig) -> (r: ConfigResponse)
    ensures
        r.workspace_root@ == config.workspace_root@,
        r.approval_mode@ == mode_name(config.approval_mode),
        r.authorized_roots@.len() == config.authorized_roots@.len(),
        forall|i: int|
            0 <= i < r.authorized_roots@.len() ==> #[trigger] r.authorized_roots@[i]@
                == config.authorized_roots@[i]@,
{
    let mut roots: Vec<String> = Vec::new();
    let mut i: usize = 0;
    while i < config.authorized_roots.len()
        invariant
            i <= config.authorized_roots.len(),
            roots@.len() == i,
            forall|k: int| 0 <= k < i ==> #[trigger] roots@[k]@ == config.authorized_roots@[k]@,
        decreases config.authorized_roots.len() - i,
    {
        roots.push(config.authorized_roots[i].clone());
        i += 1;
    }
    ConfigResponse {
        workspace_root: config.workspace_root.clone(),
        approval_mode: config.approval_mode.as_str().to_string(),
        authorized_roots: roots,
    }
}

/// What an approval request says of the operation it guards.
pub open spec fn approval_description_text(kind: ApprovalType, subject: Seq<char>) -> Seq<char> {
    match kind {
        ApprovalType::FileWrite => "Write to file: "@ + subject,
        ApprovalType::Command => "Execute command: "@ + subject,
    }
}

/// The description of an approval request for writing the file `subject`
/// or executing the command `subject`.
pub fn approval_description(kind: ApprovalType, subject: &str) -> (r: String)
    ensures
        r@ == approval_description_text(kind, subject@),
{
    let prefix = match kind {
        ApprovalType::FileWrite => "Write to file: ",
        ApprovalType::Command => "Execute command: ",
    };
    let mut r = prefix.to_string();
    r.append(subject);
    r
}

/// The audit outcome of a finished command: success exactly on exit code 0.
pub fn command_outcome(exit_code: i32) -> (r: AuditOutcome)
    ensures
        r == (if exit_code == 0 {
            AuditOutcome::Success
        } else {
            AuditOutcome::Failure
        }),
{
    if exit_code == 0 {
        AuditOutcome::Success
    } else {
        AuditOutcome::Failure
    }
}

/// The approval request held under `id`, or `ApprovalNotFound(id)`.
pub fn find_approval(approvals: &ApprovalManager, id: &str) -> (r: Result<ApprovalRequest, ServerError>)
    ensures
        r is Ok <==> approvals.requests().contains_key(id@),
        r matches Ok(v) ==> v == approvals.requests()[id@],
        r matches Err(e) ==> e matches ServerError::ApprovalNotFound(m) && m@ == id@,
{
    match approvals.get(id) {
        Some(v) => Ok(v),
        None => Err(ServerError::ApprovalNotFound(id.to_string())),
    }
}

/// The event announcing a decision on the request `id`.
pub fn decision_event(id: String, approved: bool) -> (r: ServerEvent)
    ensures
        r matches ServerEvent::ApprovalDecided { request_id, status } && request_id == id && status@
            == (if approved {
            "approved"@
        } else {
            "denied"@
        }),
{
    let status = if approved {
        "approved".to_string()
    } else {
        "denied".to_string()
    };
    ServerEvent::ApprovalDecided { request_id: id, status }
}

} // verus!
