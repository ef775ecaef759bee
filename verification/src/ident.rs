//! Fresh 128-bit identifiers for channels and messages.

use vstd::prelude::*;

verus! {

/// Relies on `uuid::Uuid::new_v4` / `Uuid::as_u128`: a freshly generated
/// random identifier, as its 128-bit value. Nothing is assumed of the value.
#[verifier::external_body]
pub(crate) fn fresh_id() -> (r: u128) {
    uuid::Uuid::new_v4().as_u128()
}

} // verus!
