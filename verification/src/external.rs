//! Types of other crates and of std that the library holds or passes on.
//! Verus sees none of their insides; the wrappers that use them say what
//! they rely on.

use vstd::prelude::*;

verus! {

/// `dashmap::DashMap`, the concurrent map.
#[verifier::external_type_specification]
#[verifier::external_body]
#[verifier::reject_recursive_types(K)]
#[verifier::reject_recursive_types(V)]
#[verifier::reject_recursive_types(S)]
pub struct ExDashMap<K, V, S>(dashmap::DashMap<K, V, S>);

/// `tokio::sync::oneshot::Sender`, the sending half of a one-shot channel.
#[verifier::external_type_specification]
#[verifier::external_body]
#[verifier::reject_recursive_types(T)]
pub struct ExOneshotSender<T>(tokio::sync::oneshot::Sender<T>);

/// `std::time::Instant`, a reading of the monotonic clock.
#[verifier::external_type_specification]
#[verifier::external_body]
pub struct ExInstant(std::time::Instant);

/// `serde_json::Value`, a JSON document carried through unread.
#[verifier::external_type_specification]
#[verifier::external_body]
pub struct ExJsonValue(serde_json::Value);

/// `bytes::Bytes`, a shared byte buffer carried through unread.
#[verifier::external_type_specification]
#[verifier::external_body]
pub struct ExBytes(bytes::Bytes);

} // verus!

verus! {

/// `Clone` for `serde_json::Value`: a copy of the document. Nothing is
/// claimed of the copy, since the document is never read here.
pub assume_specification[ <serde_json::Value as Clone>::clone ](v: &serde_json::Value) -> (r: serde_json::Value);

} // verus!

verus! {

/// `Clone` for `bytes::Bytes`: another handle on the same bytes. Nothing is
/// claimed of it, since the bytes are never read here.
pub assume_specification[ <bytes::Bytes as Clone>::clone ](b: &bytes::Bytes) -> (r: bytes::Bytes);

} // verus!
