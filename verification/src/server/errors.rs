//! The server's error type, its messages and the HTTP status it maps to.

use vstd::prelude::*;

verus! {

/// The main error type for server operations.
///
/// The I/O and JSON variants carry the rendered text of the underlying error.
#[derive(Debug)]
pub enum ServerError {
    /// The requested workspace was not found.
    WorkspaceNotFound(String),
    /// The requested file was not found.
    FileNotFound(String),
    /// Path traversal attempt detected.
    PathTraversalDenied(String),
    /// The requested operation requires approval.
    ApprovalRequired(String),
    /// The approval request was not found or expired.
    ApprovalNotFound(String),
    /// The approval request timed out.
    ApprovalTimeout(String),
    /// Authentication failed.
    Unauthorized(String),
    /// Rate limit exceeded.
    RateLimited,
    /// Invalid request body or parameters.
    BadRequest(String),
    /// Command execution failed.
    CommandFailed(String),
    /// IO error from filesystem operations.
    Io(String),
    /// JSON serialization/deserialization error.
    Json(String),
    /// Configuration error.
    Config(String),
    /// Internal server error.
    Internal(String),
}

/// The rendered message of an error (its `Display` text).
pub open spec fn error_message(e: ServerError) -> Seq<char> {
    match e {
        ServerError::WorkspaceNotFound(m) => "workspace not found: "@ + m@,
        ServerError::FileNotFound(m) => "file not found: "@ + m@,
        ServerError::PathTraversalDenied(m) => "path traversal denied: "@ + m@,
        ServerError::ApprovalRequired(m) => "operation requires approval: "@ + m@,
        ServerError::ApprovalNotFound(m) => "approval not found or expired: "@ + m@,
        ServerError::ApprovalTimeout(m) => "approval timed out: "@ + m@,
        ServerError::Unauthorized(m) => "unauthorized: "@ + m@,
        ServerError::RateLimited => "rate limit exceeded"@,
        ServerError::BadRequest(m) => "bad request: "@ + m@,
        ServerError::CommandFailed(m) => "command execution failed: "@ + m@,
        ServerError::Io(m) => "io error: "@ + m@,
        ServerError::Json(m) => "json error: "@ + m@,
        ServerError::Config(m) => "config error: "@ + m@,
        ServerError::Internal(m) => "internal error: "@ + m@,
    }
}

/// The HTTP status code an error is answered with.
pub open spec fn error_status(e: ServerError) -> u16 {
    match e {
        ServerError::WorkspaceNotFound(_) => 404,
        ServerError::FileNotFound(_) => 404,
        ServerError::PathTraversalDenied(_) => 403,
        ServerError::ApprovalRequired(_) => 202,
        ServerError::ApprovalNotFound(_) => 404,
        ServerError::ApprovalTimeout(_) => 408,
        ServerError::Unauthorized(_) => 401,
        ServerError::RateLimited => 429,
        ServerError::BadRequest(_) => 400,
        ServerError::CommandFailed(_) => 422,
        ServerError::Io(_) => 500,
        ServerError::Json(_) => 400,
        ServerError::Config(_) => 500,
        ServerError::Internal(_) => 500,
    }
}

/// The error text put in the response body: the full message for client
/// errors, a fixed text where details must not leak.
pub open spec fn error_body_text(e: ServerError) -> Seq<char> {
    match e {
        ServerError::Io(_) => "internal error"@,
        ServerError::Json(_) => "invalid json"@,
        ServerError::Config(_) => "internal error"@,
        ServerError::Internal(_) => "internal error"@,
        _ => error_message(e),
    }
}

fn prefixed(prefix: &str, m: &String) -> (r: String)
    ensures
        r@ == prefix@ + m@,
{
    let mut s = prefix.to_string();
    s.append(m.as_str());
    s
}

impl ServerError {
    /// The rendered message of this error.
    pub fn message(&self) -> (r: String)
        ensures
            r@ == error_message(*self),
    {
        match self {
            ServerError::WorkspaceNotFound(m) => prefixed("workspace not found: ", m),
            ServerError::FileNotFound(m) => prefixed("file not found: ", m),
            ServerError::PathTraversalDenied(m) => prefixed("path traversal denied: ", m),
            ServerError::ApprovalRequired(m) => prefixed("operation requires approval: ", m),
            ServerError::ApprovalNotFound(m) => prefixed("approval not found or expired: ", m),
            ServerError::ApprovalTimeout(m) => prefixed("approval timed out: ", m),
            ServerError::Unauthorized(m) => prefixed("unauthorized: ", m),
            ServerError::RateLimited => "rate limit exceeded".to_string(),
            ServerError::BadRequest(m) => prefixed("bad request: ", m),
            ServerError::CommandFailed(m) => prefixed("command execution failed: ", m),
            ServerError::Io(m) => prefixed("io error: ", m),
            ServerError::Json(m) => prefixed("json error: ", m),
            ServerError::Config(m) => prefixed("config error: ", m),
            ServerError::Internal(m) => prefixed("internal error: ", m),
        }
    }

    /// The HTTP status code and the body text this error is answered with.
    pub fn status_and_body(&self) -> (r: (u16, String))
        ensures
            r.0 == error_status(*self),
            r.1@ == error_body_text(*self),
    {
        match self {
            ServerError::Io(_) => (500, "internal error".to_string()),
            ServerError::Json(_) => (400, "invalid json".to_string()),
            ServerError::Config(_) => (500, "internal error".to_string()),
            ServerError::Internal(_) => (500, "internal error".to_string()),
            ServerError::WorkspaceNotFound(_) => (404, self.message()),
            ServerError::FileNotFound(_) => (404, self.message()),
            ServerError::PathTraversalDenied(_) => (403, self.message()),
            ServerError::ApprovalRequired(_) => (202, self.message()),
            ServerError::ApprovalNotFound(_) => (404, self.message()),
            ServerError::ApprovalTimeout(_) => (408, self.message()),
            ServerError::Unauthorized(_) => (401, self.message()),
            ServerError::RateLimited => (429, self.message()),
            ServerError::BadRequest(_) => (400, self.message()),
            ServerError::CommandFailed(_) => (422, self.message()),
        }
    }
}

} // verus!
