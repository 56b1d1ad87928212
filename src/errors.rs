//! Error values of the containers.
use std::alloc::{Layout, LayoutError};
use vstd::prelude::*;

verus! {

#[verifier::external_type_specification]
#[verifier::external_body]
pub struct ExLayout(Layout);

#[verifier::external_type_specification]
#[verifier::external_body]
pub struct ExLayoutError(LayoutError);

/// Relies on `Layout` being `Copy`: a clone is the same layout.
pub assume_specification[ <std::alloc::Layout as Clone>::clone ](layout: &std::alloc::Layout) -> (r:
    std::alloc::Layout)
    ensures
        r == *layout,
;

/// Returned by a fallible push onto a fixed-capacity bank that is full.
#[derive(Debug, Clone)]
pub struct BankFullError {}

impl BankFullError {
    /// The message that describes this error.
    pub fn message(&self) -> (r: String)
        ensures
            r@ == "bank is full"@,
    {
        let r = String::from_str("bank is full");
        proof {
            reveal_strlit("bank is full");
        }
        r
    }
}

/// Why growing a buffer failed.
#[derive(Debug, Clone)]
pub enum AllocErr {
    /// A capacity or a byte size does not fit in a `usize`.
    Overflow,
    /// The size and alignment do not form a valid allocation layout.
    Layout,
    /// The allocator could not provide a buffer of this layout.
    Alloc { layout: Layout },
}

impl AllocErr {
    /// Maps a refused layout onto this error.
    pub(crate) fn layout(_err: LayoutError) -> (r: Self)
        ensures
            r is Layout,
    {
        AllocErr::Layout
    }

    /// Maps a failed allocation of `layout` onto this error.
    pub(crate) fn allocation(layout: Layout) -> (r: Self)
        ensures
            r is Alloc,
    {
        AllocErr::Alloc { layout }
    }
}

} // verus!
