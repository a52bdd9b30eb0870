//! The streaming position of a convolver and the chunk schedule of a call.
//!
//! Input is gathered in a buffer of one block. A call with `n` samples is
//! cut into chunks, each of which fills the buffer as far as the call's
//! samples and the free space allow. After each chunk the buffered block
//! is transformed and convolved; when the buffer is full the block is
//! complete, the buffer empties and the circular position of the spectrum
//! history moves back by one.

use vstd::prelude::*;
use vstd::arithmetic::div_mod::*;
use vstd::arithmetic::mul::*;

use crate::error::FFTConvolverError;

verus! {

/// The abstract streaming position: how many impulse-response segments are
/// active, which history segment receives the next block's spectrum, and
/// how many samples of the current block are buffered.
pub struct StreamModel {
    pub active: nat,
    pub current: nat,
    pub fill: nat,
}

/// The streaming position, as the convolvers store it.
#[derive(Debug, Clone, Copy)]
pub struct StreamPosition {
    pub active_seg_count: usize,
    pub current: usize,
    pub input_buffer_fill: usize,
}

impl View for StreamPosition {
    type V = StreamModel;

    open spec fn view(&self) -> StreamModel {
        StreamModel {
            active: self.active_seg_count as nat,
            current: self.current as nat,
            fill: self.input_buffer_fill as nat,
        }
    }
}

/// The position of a stream with `active` segments and nothing buffered.
pub open spec fn stream_start(active: nat) -> StreamModel {
    StreamModel { active, current: 0, fill: 0 }
}

/// A position is consistent for blocks of `block_size` samples: with no
/// active segment it is at rest, otherwise the history index names an
/// active segment and the buffer holds less than a block.
pub open spec fn stream_wf(s: StreamModel, block_size: nat) -> bool {
    &&& s.active == 0 ==> s.current == 0 && s.fill == 0
    &&& s.active > 0 ==> s.current < s.active && s.fill < block_size
}

/// `c` moved back by `k` places on a circle of `a` places.
pub open spec fn rotate_back(c: nat, k: nat, a: nat) -> nat {
    ((c - k) % (a as int)) as nat
}

/// The position after `n` more samples have been fed in: the buffer holds
/// what is left over after the completed blocks, and the history index has
/// moved back once per completed block. A stream with no active segment
/// does not move.
pub open spec fn stream_after(s: StreamModel, block_size: nat, n: nat) -> StreamModel {
    if s.active == 0 || block_size == 0 {
        s
    } else {
        StreamModel {
            active: s.active,
            current: rotate_back(s.current, (s.fill + n) / block_size, s.active),
            fill: (s.fill + n) % block_size,
        }
    }
}

/// One chunk of a call: the work done for `len` input samples starting at
/// `input_start`, whose outputs are the output samples at the same indices.
#[derive(Debug, Clone, Copy, PartialEq, Eq, Structural)]
pub struct BlockStep {
    /// Index of the chunk's first sample, in the input and in the output.
    pub input_start: usize,
    /// Number of samples in the chunk.
    pub len: usize,
    /// Where in the block buffer the chunk's samples go.
    pub buffer_pos: usize,
    /// The history segment that receives the spectrum of the buffered block;
    /// it is multiplied with impulse-response segment 0.
    pub segment: usize,
    /// Whether the buffer was empty before the chunk: then the sum of the
    /// older history segments times the later impulse-response segments is
    /// computed afresh, impulse-response segment `i` (from 1 on) with history
    /// segment `history_segment(segment, i, active)`.
    pub refresh_tail: bool,
    /// Whether the chunk completes the block: the buffer is then cleared and
    /// the second half of the inverse transform becomes the overlap.
    pub block_done: bool,
}

/// The abstract value of a chunk.
pub struct BlockStepModel {
    pub input_start: nat,
    pub len: nat,
    pub buffer_pos: nat,
    pub segment: nat,
    pub refresh_tail: bool,
    pub block_done: bool,
}

impl View for BlockStep {
    type V = BlockStepModel;

    open spec fn view(&self) -> BlockStepModel {
        BlockStepModel {
            input_start: self.input_start as nat,
            len: self.len as nat,
            buffer_pos: self.buffer_pos as nat,
            segment: self.segment as nat,
            refresh_tail: self.refresh_tail,
            block_done: self.block_done,
        }
    }
}

/// The history segment paired with impulse-response segment `i` when the
/// newest block went to segment `segment`: the one `i` places further on
/// the circle of `active` segments, which holds the block from `i` blocks
/// before.
pub open spec fn history_index(segment: nat, i: nat, active: nat) -> nat {
    ((segment + i) as int % (active as int)) as nat
}

/// The number of samples of the next chunk: as many as are left in the
/// call, at most what the buffer still has room for.
pub open spec fn chunk_len(fill: nat, remaining: nat, block_size: nat) -> nat {
    if remaining < block_size - fill {
        remaining
    } else {
        (block_size - fill) as nat
    }
}

/// The next chunk of a call at position `s`, with `remaining` samples left
/// from index `start` on.
pub open spec fn next_step(s: StreamModel, block_size: nat, start: nat, remaining: nat) -> BlockStepModel {
    let len = chunk_len(s.fill, remaining, block_size);
    BlockStepModel {
        input_start: start,
        len,
        buffer_pos: s.fill,
        segment: s.current,
        refresh_tail: s.fill == 0,
        block_done: s.fill + len == block_size,
    }
}

/// All chunks of a call at position `s` with `remaining` samples from index
/// `start` on.
pub open spec fn plan(s: StreamModel, block_size: nat, start: nat, remaining: nat) -> Seq<BlockStepModel>
    decreases remaining,
{
    if remaining == 0 || block_size <= s.fill {
        Seq::empty()
    } else {
        let len = chunk_len(s.fill, remaining, block_size);
        seq![next_step(s, block_size, start, remaining)] + plan(
            stream_after(s, block_size, len),
            block_size,
            start + len,
            (remaining - len) as nat,
        )
    }
}

/// Feeding `n` samples and then `m` samples moves a stream exactly as
/// feeding `n + m` samples at once: the position does not depend on how the
/// input is split into calls.
pub proof fn lemma_stream_after_compose(s: StreamModel, block_size: nat, n: nat, m: nat)
    ensures
        stream_after(stream_after(s, block_size, n), block_size, m)
            == stream_after(s, block_size, n + m),
{
    if s.active > 0 && block_size > 0 {
        let b = block_size as int;
        let a = s.active as int;
        let x: int = (s.fill + n) as int;
        let q: int = x / b;
        let r: int = x % b;
        let p: int = (r + m) / b;
        lemma_fundamental_div_mod(x, b);
        lemma_fundamental_div_mod(r + m, b);
        lemma_mod_pos_bound(r + m, b);
        lemma_mod_pos_bound(x, b);
        lemma_mul_is_distributive_add_other_way(b, q, p);
        lemma_mul_is_commutative(b, q);
        lemma_mul_is_commutative(b, p);
        lemma_mul_is_commutative(b, q + p);
        assert(x + m == (q + p) * b + (r + m) % b);
        lemma_fundamental_div_mod_converse(x + m, b, q + p, (r + m) % b);
        lemma_div_pos_is_pos(x, b);
        lemma_div_pos_is_pos(r + m, b);
        let c1: int = (s.current - q) % a;
        lemma_add_mod_noop(s.current - q, -p, a);
        lemma_add_mod_noop_right(c1, -p, a);
        lemma_mod_bound(s.current - q, a);
        lemma_mod_bound(c1 - p, a);
        lemma_mod_bound(s.current - (q + p), a);
        assert((s.current - q) + (-p) == s.current - (q + p));
        let s1 = stream_after(s, block_size, n);
        assert(s1.current == c1);
        assert(s1.fill == r);
    }
}

/// One chunk that does not complete the block only adds to the buffer; one
/// that completes it empties the buffer and moves the history index back by
/// one place.
pub proof fn lemma_stream_after_chunk(s: StreamModel, block_size: nat, len: nat)
    requires
        stream_wf(s, block_size),
        s.active > 0,
        s.fill + len <= block_size,
    ensures
        s.fill + len < block_size ==> stream_after(s, block_size, len)
            == (StreamModel { active: s.active, current: s.current, fill: s.fill + len }),
        s.fill + len == block_size ==> stream_after(s, block_size, len) == (StreamModel {
            active: s.active,
            current: if s.current > 0 { (s.current - 1) as nat } else { (s.active - 1) as nat },
            fill: 0,
        }),
{
    let b = block_size as int;
    let a = s.active as int;
    if s.fill + len < block_size {
        lemma_fundamental_div_mod_converse((s.fill + len) as int, b, 0, (s.fill + len) as int);
        lemma_fundamental_div_mod_converse(s.current as int, a, 0, s.current as int);
    } else {
        lemma_fundamental_div_mod_converse((s.fill + len) as int, b, 1, 0);
        if s.current > 0 {
            lemma_fundamental_div_mod_converse(s.current - 1, a, 0, s.current - 1);
        } else {
            lemma_fundamental_div_mod_converse(-1, a, -1, a - 1);
        }
    }
}

/// Feeding samples keeps a position consistent.
pub proof fn lemma_stream_after_wf(s: StreamModel, block_size: nat, n: nat)
    requires
        stream_wf(s, block_size),
    ensures
        stream_wf(stream_after(s, block_size, n), block_size),
        stream_after(s, block_size, n).active == s.active,
{
    if s.active > 0 && block_size > 0 {
        lemma_mod_pos_bound((s.fill + n) as int, block_size as int);
        lemma_mod_bound(s.current - ((s.fill + n) as int) / (block_size as int), s.active as int);
    }
}

/// The history segment paired with impulse-response segment `i` when the
/// newest block went to history segment `segment`, on a circle of `active`
/// segments.
pub fn history_segment(segment: usize, i: usize, active: usize) -> (h: usize)
    requires
        active > 0,
    ensures
        h == history_index(segment as nat, i as nat, active as nat),
        h < active,
{
    let s = segment % active;
    let j = i % active;
    let h = if j < active - s {
        s + j
    } else {
        j - (active - s)
    };
    proof {
        let a = active as int;
        lemma_add_mod_noop(segment as int, i as int, a);
        lemma_mod_pos_bound(segment as int, a);
        lemma_mod_pos_bound(i as int, a);
        if j < active - s {
            lemma_fundamental_div_mod_converse((s + j) as int, a, 0, h as int);
        } else {
            lemma_fundamental_div_mod_converse((s + j) as int, a, 1, h as int);
        }
    }
    h
}

/// The next chunk of a call made at position `pos`, with `remaining`
/// samples left from index `start` on; moves `pos` past the chunk.
pub fn next_chunk(block_size: usize, pos: &mut StreamPosition, start: usize, remaining: usize) -> (step: BlockStep)
    requires
        stream_wf(old(pos)@, block_size as nat),
        old(pos)@.active > 0,
        remaining > 0,
    ensures
        step@ == next_step(old(pos)@, block_size as nat, start as nat, remaining as nat),
        step.input_start == start,
        step.buffer_pos == old(pos)@.fill,
        step.segment == old(pos)@.current,
        step.refresh_tail == (old(pos)@.fill == 0),
        step.buffer_pos + step.len <= block_size,
        step.block_done == (step.buffer_pos + step.len == block_size),
        step.len == remaining || step.block_done,
        0 < step.len <= remaining,
        final(pos)@ == stream_after(old(pos)@, block_size as nat, step.len as nat),
        stream_wf(final(pos)@, block_size as nat),
{
    let ghost here = pos@;
    let pos_in_block = pos.input_buffer_fill;
    let room = block_size - pos_in_block;
    let len = if remaining < room { remaining } else { room };
    let block_done = pos_in_block + len == block_size;
    let step = BlockStep {
        input_start: start,
        len,
        buffer_pos: pos_in_block,
        segment: pos.current,
        refresh_tail: pos_in_block == 0,
        block_done,
    };
    proof {
        lemma_stream_after_chunk(here, block_size as nat, len as nat);
        lemma_stream_after_wf(here, block_size as nat, len as nat);
    }
    if block_done {
        pos.input_buffer_fill = 0;
        pos.current = if pos.current > 0 {
            pos.current - 1
        } else {
            pos.active_seg_count - 1
        };
    } else {
        pos.input_buffer_fill = pos_in_block + len;
    }
    step
}

/// The abstract value of an optional chunk.
pub open spec fn chunk_view(chunk: Option<BlockStep>) -> Option<BlockStepModel> {
    match chunk {
        Some(c) => Some(c@),
        None => None,
    }
}

/// The outcome of asking for the next chunk at position `s` with
/// `remaining` samples left from index `start` on: none, and no move, when
/// the call is done or no segment is active; else the next chunk and the
/// position after it.
pub open spec fn chunk_outcome(s: StreamModel, block_size: nat, start: nat, remaining: nat) -> (
    Option<BlockStepModel>,
    StreamModel,
) {
    if remaining == 0 || s.active == 0 {
        (None, s)
    } else {
        let step = next_step(s, block_size, start, remaining);
        (Some(step), stream_after(s, block_size, step.len))
    }
}

/// Taking chunks one by one follows the plan of the whole call: the plan
/// starts with the next chunk and goes on with the plan of the rest of the
/// call from the position after that chunk; and once all chunks are taken
/// the position is the one the whole call leads to.
pub proof fn lemma_plan_unfolds(s: StreamModel, block_size: nat, start: nat, n: nat)
    requires
        stream_wf(s, block_size),
        s.active > 0,
        n > 0,
    ensures
        ({
            let step = next_step(s, block_size, start, n);
            let after = stream_after(s, block_size, step.len);
            &&& plan(s, block_size, start, n) == seq![step] + plan(
                after,
                block_size,
                start + step.len,
                (n - step.len) as nat,
            )
            &&& stream_after(after, block_size, (n - step.len) as nat) == stream_after(s, block_size, n)
        }),
{
    let len = next_step(s, block_size, start, n).len;
    lemma_stream_after_compose(s, block_size, len, (n - len) as nat);
}

/// The chunks of a call cover its samples in order, each exactly once: the
/// first starts at the call's first sample, each next one where the one
/// before ends, and the last ends at the call's end. Each chunk is non-empty
/// and fits in the block buffer, writes an active history segment, refreshes
/// the tail exactly when it starts a block and completes the block exactly
/// when it fills the buffer.
pub proof fn lemma_plan_covers(s: StreamModel, block_size: nat, start: nat, n: nat)
    requires
        stream_wf(s, block_size),
        s.active > 0,
    ensures
        (plan(s, block_size, start, n).len() == 0) == (n == 0),
        n > 0 ==> plan(s, block_size, start, n)[0].input_start == start,
        n > 0 ==> plan(s, block_size, start, n).last().input_start
            + plan(s, block_size, start, n).last().len == start + n,
        forall|k: int| 0 <= k < plan(s, block_size, start, n).len() - 1
            ==> #[trigger] plan(s, block_size, start, n)[k + 1].input_start
                == plan(s, block_size, start, n)[k].input_start + plan(s, block_size, start, n)[k].len,
        forall|k: int| 0 <= k < plan(s, block_size, start, n).len() ==> {
            let step = #[trigger] plan(s, block_size, start, n)[k];
            &&& step.len > 0
            &&& step.buffer_pos + step.len <= block_size
            &&& step.segment < s.active
            &&& step.block_done == (step.buffer_pos + step.len == block_size)
            &&& step.refresh_tail == (step.buffer_pos == 0)
        },
    decreases n,
{
    if n > 0 {
        let len = chunk_len(s.fill, n, block_size);
        let s1 = stream_after(s, block_size, len);
        lemma_stream_after_wf(s, block_size, len);
        lemma_plan_covers(s1, block_size, start + len, (n - len) as nat);
        let p = plan(s, block_size, start, n);
        let rest = plan(s1, block_size, start + len, (n - len) as nat);
        assert(p == seq![next_step(s, block_size, start, n)] + rest);
        assert forall|k: int| 0 <= k < p.len() - 1 implies #[trigger] p[k + 1].input_start
            == p[k].input_start + p[k].len by {
            if k > 0 {
                assert(p[k] == rest[k - 1]);
                assert(p[k + 1] == rest[k]);
                assert(rest[(k - 1) + 1].input_start == rest[k - 1].input_start + rest[k - 1].len);
            } else {
                assert(p[0] == next_step(s, block_size, start, n));
                assert(p[1] == rest[0]);
            }
        }
        assert forall|k: int| 0 <= k < p.len() implies {
            let step = #[trigger] p[k];
            &&& step.len > 0
            &&& step.buffer_pos + step.len <= block_size
            &&& step.segment < s.active
            &&& step.block_done == (step.buffer_pos + step.len == block_size)
            &&& step.refresh_tail == (step.buffer_pos == 0)
        } by {
            if k > 0 {
                assert(p[k] == rest[k - 1]);
            }
        }
    }
}

/// The history segments a block is convolved with are all distinct and
/// active: the block's own segment (paired with impulse-response segment 0)
/// and the ones paired with segments 1 to `active - 1` name each of the
/// `active` history segments exactly once.
pub proof fn lemma_history_indices_distinct(segment: nat, active: nat, i: nat, j: nat)
    requires
        segment < active,
        i < active,
        j < active,
        i != j,
    ensures
        history_index(segment, i, active) < active,
        history_index(segment, i, active) != history_index(segment, j, active),
        history_index(segment, 0, active) == segment,
{
    let a = active as int;
    lemma_mod_pos_bound((segment + i) as int, a);
    lemma_fundamental_div_mod_converse(segment as int, a, 0, segment as int);
    if segment + i < a {
        lemma_fundamental_div_mod_converse((segment + i) as int, a, 0, (segment + i) as int);
    } else {
        lemma_fundamental_div_mod_converse((segment + i) as int, a, 1, (segment + i - a) as int);
    }
    if segment + j < a {
        lemma_fundamental_div_mod_converse((segment + j) as int, a, 0, (segment + j) as int);
    } else {
        lemma_fundamental_div_mod_converse((segment + j) as int, a, 1, (segment + j - a) as int);
    }
}

/// The history segment paired with impulse-response segment `i` holds the
/// block from `i` blocks before: after `k` completed blocks from history
/// index `c`, moving `i` places on from the current index lands where the
/// index stood after `k - i` blocks.
pub proof fn lemma_history_is_delay_line(c: nat, k: nat, i: nat, active: nat)
    requires
        active > 0,
        i <= k,
    ensures
        history_index(rotate_back(c, k, active), i, active) == rotate_back(c, (k - i) as nat, active),
{
    let a = active as int;
    lemma_mod_bound(c - k, a);
    lemma_add_mod_noop(c - k, i as int, a);
    lemma_mod_twice(i as int, a);
    lemma_add_mod_noop_right((c - k) % a, i as int, a);
    assert((c - k) + i == c - (k - i));
}

/// What a call to `process` asks of the signal path.
#[derive(Debug, Clone, Copy, PartialEq, Eq, Structural)]
pub enum ProcessPlan {
    /// No impulse response is active: the output is all zeros.
    Silence,
    /// Take the call's chunks one by one with `next_chunk`.
    Blocks,
}

/// The outcome of a call to `process` with `input_len` input and
/// `output_len` output samples at position `s`: an error when the lengths
/// differ, silence when no segment is active, else chunks to run.
pub open spec fn process_outcome(s: StreamModel, input_len: nat, output_len: nat) -> Result<
    ProcessPlan,
    FFTConvolverError,
> {
    if input_len != output_len {
        Err(FFTConvolverError::InputOutputLengthMismatch)
    } else if s.active == 0 {
        Ok(ProcessPlan::Silence)
    } else {
        Ok(ProcessPlan::Blocks)
    }
}

/// The decision of a call to `process` at position `pos`.
pub fn process_decision(pos: &StreamPosition, input_len: usize, output_len: usize) -> (r: Result<
    ProcessPlan,
    FFTConvolverError,
>)
    ensures
        r == process_outcome(pos@, input_len as nat, output_len as nat),
        (r is Err) == (input_len != output_len),
{
    if input_len != output_len {
        Err(FFTConvolverError::InputOutputLengthMismatch)
    } else if pos.active_seg_count == 0 {
        Ok(ProcessPlan::Silence)
    } else {
        Ok(ProcessPlan::Blocks)
    }
}

/// `process` refuses a call exactly when its input and output differ in
/// length, and then with `InputOutputLengthMismatch`; otherwise it asks for
/// silence exactly when no segment is active.
pub proof fn lemma_process_refuses_exactly_mismatch(s: StreamModel, input_len: nat, output_len: nat)
    ensures
        (process_outcome(s, input_len, output_len) is Err) == (input_len != output_len),
        input_len != output_len ==> process_outcome(s, input_len, output_len)
            == Err::<ProcessPlan, FFTConvolverError>(FFTConvolverError::InputOutputLengthMismatch),
        input_len == output_len ==> (process_outcome(s, input_len, output_len)
            == Ok::<ProcessPlan, FFTConvolverError>(ProcessPlan::Silence)) == (s.active == 0),
{
}

/// Where each chunk of a call goes: a chunk whose first sample comes `d`
/// samples into the call is written into the block buffer right after the
/// samples already buffered, at `(fill + d) % block_size`, and its block's
/// spectrum goes to the history segment reached by moving back once per block
/// completed before it. So the first chunk continues the buffered block at
/// `fill`, and each next chunk starts where the one before ended, or at 0
/// when the one before completed its block. A chunk ends only where the
/// call ends or where its block is full.
pub proof fn lemma_plan_positions(s: StreamModel, block_size: nat, start: nat, n: nat)
    requires
        stream_wf(s, block_size),
        s.active > 0,
    ensures
        forall|k: int| 0 <= k < plan(s, block_size, start, n).len() ==> {
            let step = #[trigger] plan(s, block_size, start, n)[k];
            let d = step.input_start - start;
            &&& start <= step.input_start
            &&& step.block_done || step.input_start + step.len == start + n
            &&& step.buffer_pos == (s.fill + d) % (block_size as int)
            &&& step.segment == rotate_back(s.current, ((s.fill + d) / (block_size as int)) as nat, s.active)
        },
        n > 0 ==> plan(s, block_size, start, n)[0].buffer_pos == s.fill,
        forall|k: int| 0 <= k < plan(s, block_size, start, n).len() - 1
            ==> #[trigger] plan(s, block_size, start, n)[k + 1].buffer_pos == if plan(
                s,
                block_size,
                start,
                n,
            )[k].block_done {
                0
            } else {
                plan(s, block_size, start, n)[k].buffer_pos + plan(s, block_size, start, n)[k].len
            },
    decreases n,
{
    if n > 0 {
        let b = block_size as int;
        let len = chunk_len(s.fill, n, block_size);
        let s1 = stream_after(s, block_size, len);
        lemma_stream_after_wf(s, block_size, len);
        lemma_stream_after_chunk(s, block_size, len);
        lemma_plan_positions(s1, block_size, start + len, (n - len) as nat);
        lemma_plan_covers(s1, block_size, start + len, (n - len) as nat);
        let p = plan(s, block_size, start, n);
        let rest = plan(s1, block_size, start + len, (n - len) as nat);
        assert(p == seq![next_step(s, block_size, start, n)] + rest);
        assert(p[0] == next_step(s, block_size, start, n));
        lemma_fundamental_div_mod_converse(s.fill as int, b, 0, s.fill as int);
        lemma_fundamental_div_mod_converse(s.current as int, s.active as int, 0, s.current as int);
        assert forall|k: int| 0 <= k < p.len() implies {
            let step = #[trigger] p[k];
            let d = step.input_start - start;
            &&& start <= step.input_start
            &&& step.block_done || step.input_start + step.len == start + n
            &&& step.buffer_pos == (s.fill + d) % b
            &&& step.segment == rotate_back(s.current, ((s.fill + d) / b) as nat, s.active)
        } by {
            if k > 0 {
                let step = p[k];
                assert(step == rest[k - 1]);
                let d1 = step.input_start - (start + len);
                lemma_stream_after_compose(s, block_size, len, d1 as nat);
                assert(len + d1 == step.input_start - start);
            }
        }
        assert forall|k: int| 0 <= k < p.len() - 1 implies #[trigger] p[k + 1].buffer_pos == if p[k].block_done {
            0
        } else {
            p[k].buffer_pos + p[k].len
        } by {
            if k > 0 {
                assert(p[k] == rest[k - 1]);
                assert(p[k + 1] == rest[k]);
                assert(rest[(k - 1) + 1].buffer_pos == if rest[k - 1].block_done {
                    0
                } else {
                    rest[k - 1].buffer_pos + rest[k - 1].len
                });
            } else {
                assert(p[1] == rest[0]);
            }
        }
    }
}

/// Asking for the next chunk of a call hands out exactly the first chunk of
/// the call's plan, and the chunks that remain are the plan of the rest of the
/// call from the position it leaves; when the call is done or nothing is
/// active there is no chunk and the position does not move.
pub proof fn lemma_chunk_outcome_follows_plan(s: StreamModel, block_size: nat, start: nat, n: nat)
    requires
        stream_wf(s, block_size),
    ensures
        (n == 0 || s.active == 0) ==> chunk_outcome(s, block_size, start, n) == (
            None::<BlockStepModel>,
            s,
        ),
        n > 0 && s.active > 0 ==> ({
            let c = chunk_outcome(s, block_size, start, n).0->Some_0;
            let after = chunk_outcome(s, block_size, start, n).1;
            &&& chunk_outcome(s, block_size, start, n).0 is Some
            &&& plan(s, block_size, start, n) == seq![c] + plan(
                after,
                block_size,
                start + c.len,
                (n - c.len) as nat,
            )
            &&& 0 < c.len <= n
        }),
{
}

/// After `reset` (position at the start of a block, history index 0), the
/// next chunk starts a fresh block: it goes to buffer position 0 and history
/// segment 0 and refreshes the tail.
pub proof fn lemma_fresh_block_after_start(active: nat, block_size: nat, start: nat, n: nat)
    requires
        active > 0,
        block_size > 0,
        n > 0,
    ensures
        ({
            let c = next_step(stream_start(active), block_size, start, n);
            &&& c.buffer_pos == 0
            &&& c.segment == 0
            &&& c.refresh_tail
            &&& c.input_start == start
        }),
{
}

} // verus!
