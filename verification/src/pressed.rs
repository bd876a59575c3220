//! The bounded pressed-key buffer.
//!
//! The scan loop records the coordinates of pressed keys in a fixed-capacity
//! `heapless::Vec`, so the rollover budget `NKRO_MAX_KEYS` is enforced by the
//! buffer itself: a push beyond capacity fails and the scan loop raises the
//! overflow signal instead of growing the set.

use vstd::prelude::*;

use crate::config::NKRO_MAX_KEYS;

verus! {

/// A fixed-capacity vector living entirely on the stack.
#[verifier::external_type_specification]
#[verifier::external_body]
#[verifier::reject_recursive_types(T)]
pub struct ExHeaplessVec<T, const N: usize>(heapless::Vec<T, N>);

/// The coordinates the buffer holds, in insertion order.
pub uninterp spec fn key_buffer(v: heapless::Vec<(u8, u8), NKRO_MAX_KEYS>) -> Seq<(u8, u8)>;

/// Relies on `heapless::Vec::new`: a fresh vector is empty.
#[verifier::external_body]
pub(crate) fn key_buffer_new() -> (v: heapless::Vec<(u8, u8), NKRO_MAX_KEYS>)
    ensures
        key_buffer(v) == Seq::<(u8, u8)>::empty(),
{
    heapless::Vec::new()
}

/// Relies on `heapless::Vec::push`: below capacity `N` the item is appended
/// at the back and `Ok` comes back; at capacity the vector stays as it is
/// and the item comes back in the `Err`.
#[verifier::external_body]
pub(crate) fn key_buffer_push(
    v: &mut heapless::Vec<(u8, u8), NKRO_MAX_KEYS>,
    item: (u8, u8),
) -> (pushed: bool)
    ensures
        pushed == (key_buffer(*old(v)).len() < NKRO_MAX_KEYS),
        pushed ==> key_buffer(*final(v)) == key_buffer(*old(v)).push(item),
        !pushed ==> key_buffer(*final(v)) == key_buffer(*old(v)),
{
    v.push(item).is_ok()
}

} // verus!
