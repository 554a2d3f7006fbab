//! What this crate assumes of `tokio::io::ReadBuf`, the buffer that a
//! non-blocking read fills.
//!
//! A `ReadBuf` wraps a byte buffer of fixed capacity and tracks how much of
//! it has been filled. Verus sees nothing inside it, so the filled bytes and
//! the capacity get names, and the methods that the readers call get
//! contracts over them, as their documentation states them.

use tokio::io::ReadBuf;
use vstd::prelude::*;

verus! {

/// `tokio::io::ReadBuf`, a byte buffer that is filled from its front.
#[verifier::external_type_specification]
#[verifier::external_body]
pub struct ExReadBuf<'a>(tokio::io::ReadBuf<'a>);

/// The bytes that have been put into the buffer, first to last.
pub uninterp spec fn filled_bytes(target: ReadBuf<'_>) -> Seq<u8>;

/// The number of bytes that the buffer was made to hold.
pub uninterp spec fn target_capacity(target: ReadBuf<'_>) -> nat;

/// `ReadBuf::remaining`: the room left, which is the capacity less what has
/// been filled.
pub assume_specification<'a>[ tokio::io::ReadBuf::<'a>::remaining ](target: &ReadBuf<'a>) -> (room:
    usize)
    ensures
        room + filled_bytes(*target).len() == target_capacity(*target),
;

/// `ReadBuf::put_slice`: the slice is appended to the filled bytes; the
/// capacity stays. The method panics when the slice is longer than the room
/// left, so such a call is not admitted.
pub assume_specification<'a>[ tokio::io::ReadBuf::<'a>::put_slice ](
    target: &mut ReadBuf<'a>,
    buf: &[u8],
)
    requires
        filled_bytes(*old(target)).len() + buf@.len() <= target_capacity(*old(target)),
    ensures
        filled_bytes(*final(target)) == filled_bytes(*old(target)) + buf@,
        target_capacity(*final(target)) == target_capacity(*old(target)),
;

/// Fills the front of a slice through a `ReadBuf` made over it
/// (`ReadBuf::new`, `ReadBuf::put_slice`, `ReadBuf::filled`): the bytes are
/// copied to the start of the slice, the rest of the slice stays as it was,
/// and the number of filled bytes, which is the number of bytes copied,
/// is returned.
#[verifier::external_body]
pub(crate) fn fill_front(target: &mut [u8], bytes: &[u8]) -> (count: usize)
    requires
        bytes@.len() <= old(target)@.len(),
    ensures
        count == bytes@.len(),
        final(target)@ == bytes@ + old(target)@.skip(bytes@.len() as int),
{
    let mut buf = ReadBuf::new(target);
    buf.put_slice(bytes);
    buf.filled().len()
}

} // verus!
