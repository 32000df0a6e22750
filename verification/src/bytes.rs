//! Buffers of bytes: fresh ones, and writing into one at a fixed offset.
use vstd::prelude::*;

verus! {

/// `n` zero bytes: what storage holds before anything is written to it.
pub open spec fn zeros(n: nat) -> Seq<u8> {
    Seq::new(n, |i: int| 0u8)
}

/// `buffer` with `part` written over it from offset `at` on.
pub open spec fn overwritten(buffer: Seq<u8>, at: int, part: Seq<u8>) -> Seq<u8> {
    buffer.subrange(0, at) + part + buffer.subrange(at + part.len(), buffer.len() as int)
}

/// Writes `src` over `dst` from offset `at` on.
pub fn copy_into(dst: &mut [u8], at: usize, src: &[u8])
    requires
        at + src@.len() <= old(dst)@.len(),
    ensures
        final(dst)@ == overwritten(old(dst)@, at as int, src@),
{
    let ghost before = dst@;
    let n = src.len();
    let total = dst.len();
    let mut i: usize = 0;
    while i < n
        invariant
            i <= n,
            n == src@.len(),
            at + n <= before.len() == total,
            dst@.len() == before.len(),
            forall|j: int| 0 <= j < i ==> dst@[at + j] == src@[j],
            forall|j: int| 0 <= j < at || at + i <= j < before.len() ==> dst@[j] == before[j],
        decreases n - i,
    {
        dst[at + i] = src[i];
        i = i + 1;
    }
    assert(dst@ =~= overwritten(before, at as int, src@));
}

/// A buffer of `n` zero bytes.
pub fn zeroed(n: usize) -> (buffer: Vec<u8>)
    ensures
        buffer@ == zeros(n as nat),
{
    let buffer = vec![0u8; n];
    assert(buffer@ =~= zeros(n as nat));
    buffer
}

} // verus!
