//! Back-references between method calls in a request.

use vstd::prelude::*;

verus! {

/// A reference to the result of an earlier method call: which call, which
/// method, and a pointer into its result.
#[derive(Debug, Clone, PartialEq, Eq)]
pub struct ResultReference {
    /// The client-assigned identifier of the earlier call.
    pub result_of: String,
    /// The method name of the earlier call.
    pub name: String,
    /// A pointer into the earlier call's result.
    pub path: String,
}

impl ResultReference {
    /// Builds a reference from its three fields.
    pub fn new(result_of: String, name: String, path: String) -> (r: ResultReference)
        ensures
            r.result_of == result_of,
            r.name == name,
            r.path == path,
    {
        ResultReference { result_of, name, path }
    }
}

/// Either a direct value or a back-reference to one.
#[derive(Debug, Clone, PartialEq, Eq)]
pub enum MaybeReference<V, R> {
    /// The value itself.
    Value(V),
    /// A reference to where the value will come from.
    Reference(R),
}

} // verus!
