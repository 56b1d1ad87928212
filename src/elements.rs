//! Element-wise equality of sequences, and arrays turned into vectors.
use vstd::prelude::*;
use vstd::std_specs::cmp::PartialEqSpec;

verus! {

/// `a` and `b` have the same length and equal elements at each position,
/// by the equality of `T`.
pub open spec fn same_elements<T: PartialEq>(a: Seq<T>, b: Seq<T>) -> bool {
    &&& a.len() == b.len()
    &&& forall|i: int| 0 <= i < a.len() ==> (#[trigger] a[i]).eq_spec(&b[i])
}

/// Compares `a` and `b`: first the lengths, then the elements in order.
pub fn elements_eq<T: PartialEq>(a: &[T], b: &[T]) -> (r: bool)
    ensures
        <T as PartialEqSpec>::obeys_eq_spec() ==> r == same_elements(a@, b@),
{
    if a.len() != b.len() {
        return false;
    }
    let mut i: usize = 0;
    while i < a.len()
        invariant
            a@.len() == b@.len(),
            i <= a@.len(),
            <T as PartialEqSpec>::obeys_eq_spec() ==> forall|j: int|
                0 <= j < i ==> (#[trigger] a@[j]).eq_spec(&b@[j]),
        decreases a@.len() - i,
    {
        if !(a[i] == b[i]) {
            return false;
        }
        i = i + 1;
    }
    true
}

/// Relies on `Vec::from` for arrays: the same elements, in order.
#[verifier::external_body]
pub(crate) fn vec_from_array<T, const N: usize>(arr: [T; N]) -> (r: Vec<T>)
    ensures
        r@ == arr@,
{
    Vec::from(arr)
}

} // verus!
