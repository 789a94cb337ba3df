//! The payload carried by a queue row: an opaque structured value.
//!
//! The queue never looks inside a payload; it stores the value at enqueue
//! time and hands it, unchanged, to the handler at processing time.

use vstd::prelude::*;
use serde_json::Value;

verus! {

/// Declares serde_json's JSON value type so that payloads can flow
/// through signatures and contracts as opaque values.
#[verifier::external_type_specification]
#[verifier::external_body]
pub struct ExValue(Value);

/// Relies on serde_json::Value::clone (a derived clone): the copy equals
/// the original value.
#[verifier::external_body]
pub(crate) fn clone_value(v: &Value) -> (r: Value)
    ensures
        r == *v,
{
    v.clone()
}

} // verus!
