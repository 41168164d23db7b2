//! OpenCoWork: message routing, delivery, text handling and the decisions
//! of the workspace server.

use vstd::prelude::*;

pub mod delivery;
pub mod events;
pub mod external;
pub mod router;
pub mod server;
pub mod slack;
pub mod strutil;
pub mod telegram;
pub mod text;
pub mod unicode;
pub mod workspace;

verus! {
} // verus!
