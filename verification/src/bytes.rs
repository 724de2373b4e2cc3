//! Copying byte strings into buffers.

use vstd::prelude::*;

verus! {

/// `buf` with the bytes of `src` written from offset `at` on.
pub open spec fn splice(buf: Seq<u8>, at: int, src: Seq<u8>) -> Seq<u8> {
    Seq::new(
        buf.len(),
        |k: int|
            if at <= k < at + src.len() {
                src[k - at]
            } else {
                buf[k]
            },
    )
}

/// Writes the bytes of `src` into `buf` from offset `at` on.
pub fn put_bytes(buf: &mut [u8], at: usize, src: &[u8])
    requires
        at + src@.len() <= old(buf)@.len(),
    ensures
        final(buf)@ == splice(old(buf)@, at as int, src@),
{
    let n = src.len();
    let len = buf.len();
    let mut i: usize = 0;
    while i < n
        invariant
            n == src@.len(),
            len == buf@.len(),
            i <= n,
            at + n <= buf@.len(),
            buf@.len() == old(buf)@.len(),
            forall|k: int|
                0 <= k < buf@.len() ==> #[trigger] buf@[k] == if at <= k < at + i {
                    src@[k - at]
                } else {
                    old(buf)@[k]
                },
        decreases n - i,
    {
        buf[at + i] = src[i];
        i = i + 1;
    }
    assert(buf@ =~= splice(old(buf)@, at as int, src@));
}

/// Sets every byte of `buf` to zero.
pub fn zero_fill(buf: &mut [u8])
    ensures
        final(buf)@ == Seq::new(old(buf)@.len(), |k: int| 0u8),
{
    let n = buf.len();
    let mut i: usize = 0;
    while i < n
        invariant
            n == buf@.len(),
            i <= n,
            forall|k: int| 0 <= k < i ==> #[trigger] buf@[k] == 0,
        decreases n - i,
    {
        buf[i] = 0;
        i = i + 1;
    }
    assert(buf@ =~= Seq::new(old(buf)@.len(), |k: int| 0u8));
}

} // verus!
