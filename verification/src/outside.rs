//! Types of other crates that values of this library pass through.

use vstd::prelude::*;

verus! {

/// A parsed document as `serde_json` holds it.
#[verifier::external_type_specification]
#[verifier::external_body]
pub struct ExJsonTree(serde_json::Value);

/// Why `serde_json` refused a text.
#[verifier::external_type_specification]
#[verifier::external_body]
pub struct ExJsonFailure(serde_json::Error);

/// A failure of the guest runtime, as `mlua` reports it.
#[verifier::external_type_specification]
#[verifier::external_body]
pub struct ExGuestFailure(mlua::Error);

} // verus!
