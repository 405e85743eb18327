//! Slices allocated in a `bumpalo` arena, which column data lives in.
use vstd::prelude::*;

verus! {

#[verifier::external_type_specification]
#[verifier::external_body]
pub struct ExBump<const MIN_ALIGN: usize>(bumpalo::Bump<MIN_ALIGN>);

/// Calls `bumpalo::Bump::alloc_slice_copy`: the arena holds a copy of
/// `values`, element for element, and the result borrows it for the arena's
/// lifetime. The call panics only when the arena cannot reserve memory.
#[verifier::external_body]
pub(crate) fn alloc_slice_copy<'a, T: Copy>(alloc: &'a bumpalo::Bump, values: &[T]) -> (r: &'a [T])
    ensures
        r@ == values@,
{
    alloc.alloc_slice_copy(values)
}

/// Calls `bumpalo::Bump::alloc_slice_fill_copy`: the arena holds `len` copies
/// of `value`. The call panics only when the arena cannot reserve memory.
#[verifier::external_body]
pub(crate) fn alloc_slice_fill_copy<'a, T: Copy>(alloc: &'a bumpalo::Bump, len: usize, value: T) -> (r: &'a [T])
    ensures
        r@ == Seq::new(len as nat, |i: int| value),
{
    alloc.alloc_slice_fill_copy(len, value)
}

} // verus!
