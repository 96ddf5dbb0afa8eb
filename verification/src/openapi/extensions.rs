use vstd::prelude::*;

verus! {

/// Vendor extension fields attached to a document object, in declaration
/// order. Each value is carried opaquely as its serialized JSON text, so
/// two extension values count as equal exactly when their texts are equal.
pub type Extensions = Vec<(String, String)>;

} // verus!
