//! Event types carried between the components.

use vstd::prelude::*;
use serde_json::Value;

verus! {

/// An event of some kind with a JSON payload.
#[derive(Debug, Clone)]
pub struct Event {
    pub kind: String,
    pub data: Value,
}

} // verus!
