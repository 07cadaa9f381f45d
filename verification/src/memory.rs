//! How much memory collections hold.
use vstd::prelude::*;
use vstd::utf8::encode_utf8;
use std::collections::VecDeque;

verus! {

/// A count of bytes, or the largest that there is.
pub open spec fn capped(n: nat) -> usize {
    if n <= usize::MAX {
        n as usize
    } else {
        usize::MAX
    }
}

/// `Vec::capacity`: a vector has room for what it holds. How much more depends on the allocator.
#[verifier::external_body]
pub(crate) fn vec_capacity<T>(items: &Vec<T>) -> (result: usize)
    ensures
        result >= items@.len(),
{
    items.capacity()
}

/// `VecDeque::capacity`: a queue has room for what it holds. How much more depends on the
/// allocator.
#[verifier::external_body]
pub(crate) fn deque_capacity<T>(items: &VecDeque<T>) -> (result: usize)
    ensures
        result >= items@.len(),
{
    items.capacity()
}

/// `String::capacity`: a string has room for its bytes. How much more depends on the allocator.
#[verifier::external_body]
pub(crate) fn string_capacity(text: &String) -> (result: usize)
    ensures
        result >= encode_utf8(text@).len(),
{
    text.capacity()
}

/// The bytes of so many items of a size.
pub fn room(items: usize, size: usize) -> (result: usize)
    ensures
        result == capped(items as nat * size as nat),
{
    match items.checked_mul(size) {
        Some(bytes) => bytes,
        None => usize::MAX,
    }
}

/// More items take no fewer bytes.
pub(crate) proof fn more_items_take_more(few: nat, many: nat, size: nat)
    requires
        few <= many,
    ensures
        few * size <= many * size,
{
    assert(few * size <= many * size) by (nonlinear_arith)
        requires
            few <= many,
    ;
}

} // verus!
