//! The opaque configuration payload of widget tiles.
//!
//! A widget tile carries a structured JSON value that the canvas core never
//! inspects or validates: it is handed through verbatim to the front-end
//! renderer. The type is serde_json's, declared here so values of it can be
//! stored and moved; nothing of their contents is visible to the verifier.

use vstd::prelude::*;

verus! {

/// Declares serde_json::Value so tiles can hold and hand through a
/// configuration payload; the value stays opaque here.
#[verifier::external_type_specification]
#[verifier::external_body]
pub struct ExValue(serde_json::Value);

/// Relies on serde_json::Value's Clone implementation: the clone is equal
/// to the original value.
#[verifier::external_body]
pub(crate) fn clone_value(v: &serde_json::Value) -> (r: serde_json::Value)
    ensures
        r == *v,
{
    v.clone()
}

} // verus!
