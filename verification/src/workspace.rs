//! Workspace configuration.

use vstd::prelude::*;

verus! {

/// Workspace configuration: a name and a root directory.
#[derive(Debug, Clone)]
pub struct WorkspaceConfig {
    pub name: String,
    pub root: String,
}

} // verus!
