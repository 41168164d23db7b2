//! Server configuration: approval modes, defaults and validation.

use vstd::prelude::*;
use crate::server::errors::ServerError;
use crate::strutil::{char_views, split_chars, split_on, string_of, trim_bounds, trim_spec};
use crate::text::views;
use crate::unicode::chars_of;

verus! {

/// Approval mode for file write and command operations.
#[derive(Debug, Clone, Copy, PartialEq, Eq, Structural)]
pub enum ApprovalMode {
    /// All operations are automatically approved.
    Auto,
    /// Operations require manual approval via the approval API.
    Manual,
    /// Operations are approved after a timeout if not explicitly denied.
    Timeout,
}

impl Default for ApprovalMode {
    fn default() -> (r: Self)
        ensures
            r == ApprovalMode::Timeout,
    {
        ApprovalMode::Timeout
    }
}

/// The lowercase name of a mode.
pub open spec fn mode_name(m: ApprovalMode) -> Seq<char> {
    match m {
        ApprovalMode::Auto => "auto"@,
        ApprovalMode::Manual => "manual"@,
        ApprovalMode::Timeout => "timeout"@,
    }
}

/// The lowercase form of a string, as `str::to_lowercase` gives it.
pub uninterp spec fn lowercase(s: Seq<char>) -> Seq<char>;

/// Whether `s` holds only the letters `a` to `z`.
pub open spec fn is_ascii_lower(s: Seq<char>) -> bool {
    forall|i: int| 0 <= i < s.len() ==> 'a' <= #[trigger] s[i] && s[i] <= 'z'
}

/// `str::to_lowercase`: the string with every char mapped to its Unicode
/// lowercase form. The result is named, not spelled out; a string of
/// lowercase ASCII letters, already its own lowercase form, comes back
/// unchanged.
#[verifier::external_body]
fn to_lowercase(s: &str) -> (r: String)
    ensures
        r@ == lowercase(s@),
        is_ascii_lower(s@) ==> r@ == s@,
{
    s.to_lowercase()
}

/// The mode that a lowercased name selects, if any.
pub open spec fn mode_named(lower: Seq<char>) -> Option<ApprovalMode> {
    if lower == "auto"@ {
        Some(ApprovalMode::Auto)
    } else if lower == "manual"@ {
        Some(ApprovalMode::Manual)
    } else if lower == "timeout"@ {
        Some(ApprovalMode::Timeout)
    } else {
        None
    }
}

/// The message for a mode name that selects nothing.
pub open spec fn invalid_mode_message(given: Seq<char>) -> Seq<char> {
    "invalid approval mode '"@ + given + "': must be auto, manual, or timeout"@
}

/// Each mode's name is lowercase ASCII and selects that mode again, so
/// parsing a mode's name (`parse`, `from_str`) gives back the mode.
pub proof fn law_mode_name_selects_mode(m: ApprovalMode)
    ensures
        is_ascii_lower(mode_name(m)),
        mode_named(mode_name(m)) == Some(m),
{
    reveal_strlit("auto");
    reveal_strlit("manual");
    reveal_strlit("timeout");
    assert("auto"@.len() == 4 && "manual"@.len() == 6 && "timeout"@.len() == 7);
    assert("auto"@ != "manual"@ && "auto"@ != "timeout"@ && "manual"@ != "timeout"@);
}

impl ApprovalMode {
    /// The mode that the already lowercased name `lower` selects; `given`
    /// is the name as written, for the error message.
    pub fn from_lowercase(lower: &str, given: &str) -> (r: Result<ApprovalMode, ServerError>)
        ensures
            mode_named(lower@) matches Some(m) ==> r == Ok::<ApprovalMode, ServerError>(m),
            mode_named(lower@) is None ==> (r matches Err(ServerError::Config(msg)) && msg@
                == invalid_mode_message(given@)),
    {
        proof {
            reveal_strlit("auto");
            reveal_strlit("manual");
            reveal_strlit("timeout");
        }
        let auto = "auto".to_string();
        let manual = "manual".to_string();
        let timeout = "timeout".to_string();
        let l = lower.to_string();
        if l == auto {
            Ok(ApprovalMode::Auto)
        } else if l == manual {
            Ok(ApprovalMode::Manual)
        } else if l == timeout {
            Ok(ApprovalMode::Timeout)
        } else {
            let mut m = "invalid approval mode '".to_string();
            m.append(given);
            m.append("': must be auto, manual, or timeout");
            Err(ServerError::Config(m))
        }
    }

    /// Parse a mode name, ignoring case: `auto`, `manual` or `timeout`.
    pub fn parse(s: &str) -> (r: Result<ApprovalMode, ServerError>)
        ensures
            mode_named(lowercase(s@)) matches Some(m) ==> r == Ok::<ApprovalMode, ServerError>(m),
            is_ascii_lower(s@) ==> (mode_named(s@) matches Some(m) ==> r == Ok::<
                ApprovalMode,
                ServerError,
            >(m)),
            mode_named(lowercase(s@)) is None ==> (r matches Err(ServerError::Config(msg))
                && msg@ == invalid_mode_message(s@)),
    {
        let lower = to_lowercase(s);
        Self::from_lowercase(lower.as_str(), s)
    }

    /// The display name of the mode.
    pub fn as_str(&self) -> (r: &'static str)
        ensures
            r@ == mode_name(*self),
    {
        match self {
            ApprovalMode::Auto => "auto",
            ApprovalMode::Manual => "manual",
            ApprovalMode::Timeout => "timeout",
        }
    }
}

/// Server configuration, built from CLI args and environment.
///
/// Paths are held as text.
#[derive(Debug, Clone)]
pub struct ServerConfig {
    /// The workspace root directory.
    pub workspace_root: String,
    /// The host to bind to.
    pub host: String,
    /// The port to listen on.
    pub port: u16,
    /// Authentication token (optional).
    pub auth_token: Option<String>,
    /// CORS allowed origins (empty = allow all).
    pub cors_origins: Vec<String>,
    /// Approval mode for mutating operations.
    pub approval_mode: ApprovalMode,
    /// Timeout for approval requests in seconds (when using Timeout mode).
    pub approval_timeout_secs: u64,
    /// Maximum request body size in bytes.
    pub max_body_bytes: usize,
    /// Rate limit: requests per second per IP.
    pub rate_limit_rps: u32,
    /// Authorized filesystem roots (relative to workspace root).
    pub authorized_roots: Vec<String>,
}

impl ServerConfig {
    /// Create a new server config with sensible defaults.
    pub fn new(workspace_root: String) -> (r: Self)
        ensures
            r.workspace_root == workspace_root,
            r.host@ == "0.0.0.0"@,
            r.port == 9876,
            r.auth_token is None,
            r.cors_origins@.len() == 0,
            r.approval_mode == ApprovalMode::Timeout,
            r.approval_timeout_secs == 30,
            r.max_body_bytes == 10 * 1024 * 1024,
            r.rate_limit_rps == 100,
            r.authorized_roots@.len() == 1,
            r.authorized_roots@[0]@ == "."@,
    {
        let mut roots: Vec<String> = Vec::new();
        roots.push(".".to_string());
        Self {
            workspace_root,
            host: "0.0.0.0".to_string(),
            port: 9876,
            auth_token: None,
            cors_origins: Vec::new(),
            approval_mode: ApprovalMode::default(),
            approval_timeout_secs: 30,
            max_body_bytes: 10 * 1024 * 1024,
            rate_limit_rps: 100,
            authorized_roots: roots,
        }
    }

    /// Validate the configuration, given what the filesystem reports about
    /// the workspace root: it must exist and be a directory.
    pub fn validate(&self, root_exists: bool, root_is_dir: bool) -> (r: Result<(), ServerError>)
        ensures
            r is Ok <==> root_exists && root_is_dir,
            !root_exists ==> (r matches Err(ServerError::Config(m))
                && m@ == "workspace root does not exist: "@ + self.workspace_root@),
            root_exists && !root_is_dir ==> (r matches Err(ServerError::Config(m))
                && m@ == "workspace root is not a directory: "@ + self.workspace_root@),
    {
        if !root_exists {
            let mut m = "workspace root does not exist: ".to_string();
            m.append(self.workspace_root.as_str());
            return Err(ServerError::Config(m));
        }
        if !root_is_dir {
            let mut m = "workspace root is not a directory: ".to_string();
            m.append(self.workspace_root.as_str());
            return Err(ServerError::Config(m));
        }
        Ok(())
    }
}

} // verus!

verus! {

impl std::str::FromStr for ApprovalMode {
    type Err = ServerError;

    /// Parse a mode name, ignoring case, as [`ApprovalMode::parse`] does.
    fn from_str(s: &str) -> (r: Result<Self, Self::Err>)
        ensures
            mode_named(lowercase(s@)) matches Some(m) ==> r == Ok::<ApprovalMode, ServerError>(m),
            is_ascii_lower(s@) ==> (mode_named(s@) matches Some(m) ==> r == Ok::<
                ApprovalMode,
                ServerError,
            >(m)),
            mode_named(lowercase(s@)) is None ==> (r matches Err(ServerError::Config(msg))
                && msg@ == invalid_mode_message(s@)),
    {
        ApprovalMode::parse(s)
    }
}

/// The non-empty pieces of `ps`, each trimmed of whitespace, in order.
pub open spec fn trimmed_nonempty(ps: Seq<Seq<char>>) -> Seq<Seq<char>>
    decreases ps.len(),
{
    if ps.len() == 0 {
        Seq::empty()
    } else {
        let kept = trimmed_nonempty(ps.drop_last());
        let t = trim_spec(ps.last());
        if t.len() > 0 {
            kept.push(t)
        } else {
            kept
        }
    }
}

/// The origins a comma-separated list names: each entry trimmed, empty
/// entries dropped.
pub fn cors_origins_from(list: &str) -> (r: Vec<String>)
    ensures
        views(r@) == trimmed_nonempty(split_on(list@, ',')),
{
    let pieces = split_chars(&chars_of(list), ',');
    let ghost ps = char_views(pieces@);
    let mut r: Vec<String> = Vec::new();
    let mut i: usize = 0;
    while i < pieces.len()
        invariant
            i <= pieces.len(),
            ps == char_views(pieces@),
            views(r@) == trimmed_nonempty(ps.take(i as int)),
        decreases pieces.len() - i,
    {
        let (a, b) = trim_bounds(&pieces[i]);
        proof {
            assert(ps.take(i + 1).drop_last() =~= ps.take(i as int));
            assert(ps.take(i + 1).last() == pieces@[i as int]@);
        }
        if a < b {
            let mut kept: Vec<char> = Vec::new();
            let mut j = a;
            while j < b
                invariant
                    i < pieces.len(),
                    a <= j <= b <= pieces@[i as int].len(),
                    kept@ == pieces@[i as int]@.subrange(a as int, j as int),
                decreases b - j,
            {
                kept.push(pieces[i][j]);
                j += 1;
                assert(kept@ =~= pieces@[i as int]@.subrange(a as int, j as int));
            }
            let ghost before = views(r@);
            r.push(string_of(&kept));
            assert(views(r@) =~= before.push(kept@));
        }
        i += 1;
    }
    assert(ps.take(pieces.len() as int) =~= ps);
    r
}

} // verus!
