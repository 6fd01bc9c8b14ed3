//! What this crate relies on of tokio's `ReadBuf`, the buffer that a read
//! fills: a fixed run of bytes of which a front part has been filled.
//!
//! Nothing in this file is proved. It states what `ReadBuf` does, in the words
//! of two names for what a buffer holds, and the rest of the crate is proved
//! from that.

use vstd::prelude::*;

verus! {

/// The type itself, of which nothing is looked into.
#[verifier::external_type_specification]
#[verifier::external_body]
pub struct ExReadBuf<'a>(tokio::io::ReadBuf<'a>);

/// The bytes that have been put into the buffer so far, oldest first: what
/// `ReadBuf::filled` hands out.
pub uninterp spec fn filled(buf: &tokio::io::ReadBuf<'_>) -> Seq<u8>;

/// The number of bytes that the buffer can hold in all: what
/// `ReadBuf::capacity` returns.
pub uninterp spec fn capacity(buf: &tokio::io::ReadBuf<'_>) -> nat;

/// `ReadBuf::remaining`: the capacity less the number of bytes filled, which
/// never exceeds the capacity.
pub assume_specification<'a>[ tokio::io::ReadBuf::<'a>::remaining ](
    buf: &tokio::io::ReadBuf<'a>,
) -> (r: usize)
    ensures
        r + filled(buf).len() == capacity(buf),
;

/// `ReadBuf::put_slice`: appends `src` to the filled bytes and leaves the
/// capacity as it was. It panics when `src` is longer than what remains, so that
/// is left out.
pub assume_specification<'a>[ tokio::io::ReadBuf::<'a>::put_slice ](
    buf: &mut tokio::io::ReadBuf<'a>,
    src: &[u8],
)
    requires
        filled(old(buf)).len() + src@.len() <= capacity(old(buf)),
    ensures
        filled(final(buf)) == filled(old(buf)) + src@,
        capacity(final(buf)) == capacity(old(buf)),
;

} // verus!
