//! Element buffers on the heap: layouts, and growing or shrinking a buffer.
use crate::errors::AllocErr;
use std::alloc::Layout;
use std::collections::TryReserveError;
use vstd::layout::{align_of, size_of, valid_layout};
use vstd::prelude::*;

verus! {

/// Relies on `Layout::from_size_align`: it accepts exactly a power-of-two
/// alignment together with a size that, rounded up to that alignment, does
/// not exceed `isize::MAX`.
pub assume_specification[ std::alloc::Layout::from_size_align ](size: usize, align: usize) -> (r: Result<
    std::alloc::Layout,
    std::alloc::LayoutError,
>)
    ensures
        r is Ok <==> valid_layout(size, align),
;

/// The number of bytes that `n` elements of `T` take.
pub open spec fn buffer_bytes<T>(n: int) -> int {
    size_of::<T>() * n
}

/// A buffer of `n` elements of `T` has a layout: its byte size fits in a
/// `usize` and forms a valid layout with the alignment of `T`.
pub open spec fn can_allocate<T>(n: int) -> bool {
    &&& 0 <= n <= usize::MAX
    &&& buffer_bytes::<T>(n) <= usize::MAX
    &&& valid_layout(buffer_bytes::<T>(n) as usize, align_of::<T>() as usize)
}

/// `e` is the error that a request for a buffer of `n` elements of `T` can
/// end in: `Overflow` when the byte size does not fit in a `usize`, `Layout`
/// when it fits but forms no valid layout, and `Alloc` only for a request
/// that has a layout.
pub open spec fn refused_as<T>(n: int, e: AllocErr) -> bool {
    match e {
        AllocErr::Overflow => n > usize::MAX || buffer_bytes::<T>(n) > usize::MAX,
        AllocErr::Layout => 0 <= n <= usize::MAX && buffer_bytes::<T>(n) <= usize::MAX && !valid_layout(
            buffer_bytes::<T>(n) as usize,
            align_of::<T>() as usize,
        ),
        AllocErr::Alloc { .. } => can_allocate::<T>(n),
    }
}

/// A smaller buffer has a layout whenever a larger one does.
pub proof fn lemma_can_allocate_monotone<T>(n: int, m: int)
    requires
        0 <= n <= m,
        can_allocate::<T>(m),
    ensures
        can_allocate::<T>(n),
{
    assert(size_of::<T>() * n <= size_of::<T>() * m) by (nonlinear_arith)
        requires
            0 <= n <= m,
    ;
}

/// The layout of an array of `n` elements of `T`.
pub fn layout_array<T>(n: usize) -> (r: Result<Layout, AllocErr>)
    ensures
        r is Ok <==> can_allocate::<T>(n as int),
        r is Err ==> refused_as::<T>(n as int, r->Err_0),
        r is Err ==> !(r->Err_0 is Alloc),
{
    let size = match core::mem::size_of::<T>().checked_mul(n) {
        Some(size) => size,
        None => return Err(AllocErr::Overflow),
    };
    let align = core::mem::align_of::<T>();
    match Layout::from_size_align(size, align) {
        Ok(layout) => Ok(layout),
        Err(err) => Err(AllocErr::layout(err)),
    }
}

/// Relies on `Vec::try_reserve_exact`: the elements are left as they are,
/// whether or not the buffer could grow.
#[verifier::external_body]
fn try_reserve_exact<T>(buffer: &mut Vec<T>, additional: usize) -> (r: Result<(), TryReserveError>)
    ensures
        final(buffer)@ == old(buffer)@,
{
    buffer.try_reserve_exact(additional)
}

/// Relies on `Vec::reserve_exact`: the elements are left as they are; it
/// panics only when the new capacity exceeds `isize::MAX` bytes, and ends
/// the process when the allocator fails.
#[verifier::external_body]
fn reserve_exact<T>(buffer: &mut Vec<T>, additional: usize)
    requires
        can_allocate::<T>((old(buffer)@.len() + additional) as int),
    ensures
        final(buffer)@ == old(buffer)@,
{
    buffer.reserve_exact(additional)
}

/// Relies on `Vec::shrink_to`: the elements are left as they are.
#[verifier::external_body]
pub(crate) fn shrink_to<T>(buffer: &mut Vec<T>, min_capacity: usize)
    ensures
        final(buffer)@ == old(buffer)@,
{
    buffer.shrink_to(min_capacity)
}

/// Relies on `Vec::capacity`: a vector can hold at least its elements.
#[verifier::external_body]
pub(crate) fn allocated_capacity<T>(buffer: &Vec<T>) -> (r: usize)
    ensures
        r >= buffer@.len(),
{
    buffer.capacity()
}

/// Makes room in `buffer` for `additional` more elements. When
/// `abort_on_failure` holds, a failing allocator ends the process as the
/// standard collections do; otherwise the failure is returned.
pub(crate) fn allocate<T>(
    buffer: &mut Vec<T>,
    additional: usize,
    layout: Layout,
    abort_on_failure: bool,
) -> (r: Result<(), AllocErr>)
    requires
        can_allocate::<T>((old(buffer)@.len() + additional) as int),
    ensures
        final(buffer)@ == old(buffer)@,
        r is Err ==> r->Err_0 is Alloc,
        abort_on_failure ==> r is Ok,
{
    if abort_on_failure {
        reserve_exact(buffer, additional);
        Ok(())
    } else {
        match try_reserve_exact(buffer, additional) {
            Ok(()) => Ok(()),
            Err(_) => Err(AllocErr::allocation(layout)),
        }
    }
}

/// Unwraps the outcome of a growth that the caller knows to succeed.
pub(crate) fn infallible<U>(result: Result<U, AllocErr>) -> (r: U)
    requires
        result is Ok,
    ensures
        result == Ok::<U, AllocErr>(r),
{
    match result {
        Ok(x) => x,
        Err(_) => unreached(),
    }
}

} // verus!
