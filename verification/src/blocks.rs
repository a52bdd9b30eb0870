//! Block sizes, configurations and the cutting of an impulse response into
//! segments.

use vstd::prelude::*;

verus! {

/// The block sizes the convolver accepts: the powers of two from 8 to 2048.
pub open spec fn supported_block_size(block_size: nat) -> bool {
    block_size == 8 || block_size == 16 || block_size == 32 || block_size == 64
        || block_size == 128 || block_size == 256 || block_size == 512
        || block_size == 1024 || block_size == 2048
}

/// A convolver's four size parameters fit together: the block size is
/// supported, a segment holds two blocks and a spectrum holds one bin more
/// than a block.
pub open spec fn config_valid(block_size: nat, seg_size: nat, fft_cplx_size: nat) -> bool {
    &&& supported_block_size(block_size)
    &&& seg_size == 2 * block_size
    &&& fft_cplx_size == block_size + 1
}

/// The number of segments of `block_size` samples that `len` samples fill,
/// the last one possibly partly: `len / block_size` rounded up.
pub open spec fn segments_for(len: nat, block_size: nat) -> nat {
    if len == 0 {
        0
    } else {
        ((len - 1) as nat / block_size + 1) as nat
    }
}

/// Whether `block_size` is a supported block size (a power of two from 8 to 2048).
pub fn is_supported_block_size(block_size: usize) -> (supported: bool)
    ensures
        supported == supported_block_size(block_size as nat),
{
    match block_size {
        8 | 16 | 32 | 64 | 128 | 256 | 512 | 1024 | 2048 => true,
        _ => false,
    }
}

/// Whether the four size parameters of a convolver fit together.
pub fn config_supported(block_size: usize, seg_size: usize, fft_cplx_size: usize) -> (valid: bool)
    ensures
        valid == config_valid(block_size as nat, seg_size as nat, fft_cplx_size as nat),
{
    is_supported_block_size(block_size) && seg_size == 2 * block_size
        && fft_cplx_size == block_size + 1
}

/// `len / block_size` rounded up, computed without overflow.
pub fn segment_count(len: usize, block_size: usize) -> (count: usize)
    requires
        block_size > 0,
    ensures
        count == segments_for(len as nat, block_size as nat),
        count <= len,
{
    if len == 0 {
        0
    } else {
        assert((len - 1) as nat / (block_size as nat) <= (len - 1) as nat) by (nonlinear_arith)
            requires block_size > 0, len > 0;
        (len - 1) / block_size + 1
    }
}

/// `segments_for` is the ceiling of the quotient: it is the least count of
/// blocks that holds `len` samples.
pub proof fn lemma_segments_for_is_ceiling(len: nat, block_size: nat)
    requires
        block_size > 0,
    ensures
        segments_for(len, block_size) * block_size >= len,
        segments_for(len, block_size) == 0 || (segments_for(len, block_size) - 1) * block_size < len,
{
    if len > 0 {
        let q = (len - 1) as nat / block_size;
        let r = (len - 1) as nat % block_size;
        vstd::arithmetic::div_mod::lemma_fundamental_div_mod((len - 1) as int, block_size as int);
        assert((q + 1) * block_size == q * block_size + block_size) by (nonlinear_arith);
        assert(q * block_size == block_size * q) by (nonlinear_arith);
    }
}

/// The impulse response fits in `seg_count` segments exactly when it is no
/// longer than `block_size * seg_count` samples.
pub proof fn lemma_capacity(len: nat, block_size: nat, seg_count: nat)
    requires
        block_size > 0,
    ensures
        (segments_for(len, block_size) <= seg_count) == (len <= block_size * seg_count),
{
    lemma_segments_for_is_ceiling(len, block_size);
    let k = segments_for(len, block_size);
    if k <= seg_count {
        assert(k * block_size <= seg_count * block_size) by (nonlinear_arith)
            requires k <= seg_count;
        assert(seg_count * block_size == block_size * seg_count) by (nonlinear_arith);
    } else {
        assert((k - 1) * block_size >= seg_count * block_size) by (nonlinear_arith)
            requires k - 1 >= seg_count;
        assert(seg_count * block_size == block_size * seg_count) by (nonlinear_arith);
    }
}

/// The part of an impulse response that goes into one segment: `len`
/// samples from `offset`, the rest of the segment being zero.
#[derive(Debug, Clone, Copy, PartialEq, Eq, Structural)]
pub struct SegmentSpan {
    pub offset: usize,
    pub len: usize,
}

/// The span of segment `index` of an impulse response of `ir_len` samples.
pub open spec fn segment_span(ir_len: nat, block_size: nat, index: nat) -> (nat, nat) {
    let offset = index * block_size;
    let rest = ir_len - offset;
    (offset, if rest < block_size { rest as nat } else { block_size })
}

/// The span of segment `index` of an impulse response of `ir_len` samples
/// cut into segments of `block_size` samples: it starts at
/// `index * block_size` and takes what is left, at most `block_size`
/// samples.
pub fn segment_span_at(ir_len: usize, block_size: usize, index: usize) -> (span: SegmentSpan)
    requires
        block_size > 0,
        index < segments_for(ir_len as nat, block_size as nat),
    ensures
        (span.offset as nat, span.len as nat) == segment_span(ir_len as nat, block_size as nat, index as nat),
{
    proof {
        lemma_segments_for_is_ceiling(ir_len as nat, block_size as nat);
        let k = segments_for(ir_len as nat, block_size as nat);
        assert(index * block_size <= (k - 1) * block_size) by (nonlinear_arith)
            requires index <= k - 1;
    }
    let offset = index * block_size;
    let rest = ir_len - offset;
    let len = if rest < block_size { rest } else { block_size };
    SegmentSpan { offset, len }
}

/// The segments of an impulse response cover it in order, each sample once:
/// every segment is non-empty and at most a block long, all but the last are
/// full blocks, each starts where the one before ends, the first at sample
/// 0, and the last ends at the response's end.
pub proof fn lemma_partition_covers(ir_len: nat, block_size: nat, i: nat)
    requires
        block_size > 0,
        i < segments_for(ir_len, block_size),
    ensures
        segment_span(ir_len, block_size, 0).0 == 0,
        0 < segment_span(ir_len, block_size, i).1 <= block_size,
        i + 1 < segments_for(ir_len, block_size) ==> segment_span(ir_len, block_size, i).1 == block_size
            && segment_span(ir_len, block_size, i).0 + segment_span(ir_len, block_size, i).1
            == segment_span(ir_len, block_size, i + 1).0,
        i + 1 == segments_for(ir_len, block_size) ==> segment_span(ir_len, block_size, i).0
            + segment_span(ir_len, block_size, i).1 == ir_len,
{
    lemma_segments_for_is_ceiling(ir_len, block_size);
    let k = segments_for(ir_len, block_size);
    assert(i * block_size <= (k - 1) * block_size) by (nonlinear_arith)
        requires i <= k - 1;
    assert((i + 1) * block_size == i * block_size + block_size) by (nonlinear_arith);
    assert(0 * block_size == 0);
    if i + 1 < k {
        assert((i + 1) * block_size <= (k - 1) * block_size) by (nonlinear_arith)
            requires i + 1 <= k - 1;
    } else {
        assert(k * block_size == (k - 1) * block_size + block_size) by (nonlinear_arith);
    }
}

/// The supported block sizes are exactly the powers of two from 8 to 2048:
/// `2^k` for `3 <= k <= 11`.
pub proof fn lemma_supported_block_sizes_are_powers_of_two(block_size: nat)
    ensures
        supported_block_size(block_size) == exists|k: nat|
            3 <= k <= 11 && block_size == #[trigger] vstd::arithmetic::power2::pow2(k),
{
    vstd::arithmetic::power2::lemma2_to64();
    if supported_block_size(block_size) {
        let k: nat = if block_size == 8 {
            3
        } else if block_size == 16 {
            4
        } else if block_size == 32 {
            5
        } else if block_size == 64 {
            6
        } else if block_size == 128 {
            7
        } else if block_size == 256 {
            8
        } else if block_size == 512 {
            9
        } else if block_size == 1024 {
            10
        } else {
            11
        };
        assert(3 <= k <= 11 && block_size == vstd::arithmetic::power2::pow2(k));
    }
    if exists|k: nat| 3 <= k <= 11 && block_size == #[trigger] vstd::arithmetic::power2::pow2(k) {
        let k = choose|k: nat| 3 <= k <= 11 && block_size == #[trigger] vstd::arithmetic::power2::pow2(k);
        assert(k == 3 || k == 4 || k == 5 || k == 6 || k == 7 || k == 8 || k == 9 || k == 10 || k == 11);
    }
}

} // verus!
