//! Shared interface types that carry no behaviour of their own.

use vstd::prelude::*;

verus! {

/// A named empty record.
///
/// Many host interfaces take an empty record as their argument; naming the
/// record keeps those interfaces stable for tooling that cannot handle
/// anonymous empty records.
pub struct EmptyRecord {}

} // verus!
