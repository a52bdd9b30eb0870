//! Moving samples between buffers.

use vstd::prelude::*;

verus! {

/// Copies the first `src_size` values of `src` to the front of `dst` and
/// sets the rest of `dst` to `zero`.
pub fn copy_and_pad<T: Copy>(dst: &mut [T], src: &[T], src_size: usize, zero: T)
    requires
        src_size <= old(dst)@.len(),
        src_size <= src@.len(),
    ensures
        final(dst)@.len() == old(dst)@.len(),
        forall|i: int| 0 <= i < src_size ==> #[trigger] final(dst)@[i] == src@[i],
        forall|i: int| src_size <= i < final(dst)@.len() ==> #[trigger] final(dst)@[i] == zero,
{
    let len = dst.len();
    let mut i: usize = 0;
    while i < len
        invariant
            len == dst@.len(),
            len == old(dst)@.len(),
            src_size <= len,
            src_size <= src@.len(),
            i <= len,
            forall|j: int| 0 <= j < i && j < src_size ==> #[trigger] dst@[j] == src@[j],
            forall|j: int| src_size <= j < i ==> #[trigger] dst@[j] == zero,
        decreases len - i,
    {
        if i < src_size {
            dst[i] = src[i];
        } else {
            dst[i] = zero;
        }
        i = i + 1;
    }
}

/// Copies `len` values of `src` from index `src_start` into `dst` from
/// index `dst_start`, leaving the rest of `dst` as it was.
pub fn copy_range<T: Copy>(dst: &mut [T], dst_start: usize, src: &[T], src_start: usize, len: usize)
    requires
        dst_start + len <= old(dst)@.len(),
        src_start + len <= src@.len(),
    ensures
        final(dst)@.len() == old(dst)@.len(),
        forall|i: int| 0 <= i < len ==> #[trigger] final(dst)@[dst_start + i] == src@[src_start + i],
        forall|i: int| 0 <= i < final(dst)@.len() && !(dst_start <= i < dst_start + len)
            ==> #[trigger] final(dst)@[i] == old(dst)@[i],
{
    let dst_len = dst.len();
    let src_len = src.len();
    let mut k: usize = 0;
    while k < len
        invariant
            dst_len == dst@.len(),
            src_len == src@.len(),
            dst_start + len <= dst@.len(),
            src_start + len <= src@.len(),
            dst@.len() == old(dst)@.len(),
            k <= len,
            forall|i: int| 0 <= i < k ==> #[trigger] dst@[dst_start + i] == src@[src_start + i],
            forall|i: int| 0 <= i < dst@.len() && !(dst_start <= i < dst_start + k)
                ==> #[trigger] dst@[i] == old(dst)@[i],
        decreases len - k,
    {
        dst[dst_start + k] = src[src_start + k];
        k = k + 1;
    }
}

} // verus!
