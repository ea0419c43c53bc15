//! JSON payloads carried through the runtime.
//!
//! Tool arguments and results are `serde_json::Value`s. The policy logic never
//! looks inside them: it carries them through, clones them and (for the cache)
//! keys them by their serialized text.

use vstd::prelude::*;

verus! {

/// `serde_json::Value`, carried through opaquely.
#[verifier::external_type_specification]
#[verifier::external_body]
pub struct ExJsonValue(serde_json::Value);

/// Clones a JSON value (`<serde_json::Value as Clone>::clone`). The impl is
/// derived, so the copy is the same value; the contract states exactly that.
#[verifier::external_body]
pub(crate) fn clone_value(v: &serde_json::Value) -> (res: serde_json::Value)
    ensures
        res == *v,
{
    v.clone()
}

/// JSON `null` (`serde_json::Value::Null`). Nothing is stated of it: a JSON
/// value has no model here.
#[verifier::external_body]
pub(crate) fn json_null() -> serde_json::Value {
    serde_json::Value::Null
}

} // verus!
