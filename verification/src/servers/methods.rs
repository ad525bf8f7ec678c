use vstd::prelude::*;
use crate::request::{same_method, Method};

verus! {

/// The status with which the adapters refuse a method that the endpoint does not handle.
pub const METHOD_NOT_ALLOWED: u16 = 405;

/// `method` is one of `methods`.
pub open spec fn method_listed(methods: Seq<Method>, method: Method) -> bool {
    exists|i: int| 0 <= i < methods.len() && same_method(#[trigger] methods[i], method)
}

/// Whether the endpoint handles `method`, that is whether `method` is one of
/// the methods that it registered.
pub fn method_allowed(methods: &[Method], method: &Method) -> (allowed: bool)
    ensures
        allowed == method_listed(methods@, *method),
{
    let mut i: usize = 0;
    while i < methods.len()
        invariant
            i <= methods.len(),
            forall|k: int| 0 <= k < i ==> !same_method(#[trigger] methods@[k], *method),
        decreases methods.len() - i,
    {
        if methods[i].is_same(method) {
            return true;
        }
        i = i + 1;
    }
    false
}

} // verus!
