//! The convolver that keeps the impulse response it was given.

use vstd::prelude::*;

use crate::blocks::{
    config_supported, config_valid, lemma_capacity, lemma_segments_for_is_ceiling, segment_count, segments_for,
};
use crate::error::FFTConvolverError;
use crate::schedule::{
    lemma_stream_after_wf, chunk_outcome, chunk_view, next_chunk, process_decision, process_outcome, stream_after, stream_start, stream_wf,
    BlockStep, ProcessPlan, StreamModel, StreamPosition,
};

verus! {

/// The abstract state of an [`FFTConvolver`]: the length of the impulse
/// response given to `init` (the capacity for later responses) and the
/// streaming position.
pub struct ConvolverModel {
    pub ir_len: nat,
    pub stream: StreamModel,
}

/// Partitioned FFT convolver with compile-time buffer sizes.
///
/// `BLOCK_SIZE` is the partition size, `SEG_SIZE` must be `2 * BLOCK_SIZE`,
/// `FFT_CPLX_SIZE` must be `BLOCK_SIZE + 1` and `SEG_COUNT` is the maximum
/// number of impulse-response segments. This value holds the decisions of
/// the convolver; the sample buffers live with the signal path.
#[derive(Debug, Clone, Copy)]
pub struct FFTConvolver<
    const BLOCK_SIZE: usize,
    const SEG_SIZE: usize,
    const FFT_CPLX_SIZE: usize,
    const SEG_COUNT: usize,
> {
    ir_len: usize,
    stream: StreamPosition,
}

impl<
    const BLOCK_SIZE: usize,
    const SEG_SIZE: usize,
    const FFT_CPLX_SIZE: usize,
    const SEG_COUNT: usize,
> View for FFTConvolver<BLOCK_SIZE, SEG_SIZE, FFT_CPLX_SIZE, SEG_COUNT> {
    type V = ConvolverModel;

    closed spec fn view(&self) -> ConvolverModel {
        ConvolverModel { ir_len: self.ir_len as nat, stream: self.stream@ }
    }
}

/// A convolver with no impulse response and nothing buffered.
pub open spec fn fresh_model() -> ConvolverModel {
    ConvolverModel { ir_len: 0, stream: stream_start(0) }
}

/// The outcome of `init` with an impulse response of `len` samples: an
/// unsupported configuration leaves the convolver as it was; otherwise it is
/// cleared and takes `len` as its capacity, and the response is active
/// unless it is longer than `block_size * seg_count` samples.
pub open spec fn init_outcome(
    old: ConvolverModel,
    len: nat,
    block_size: nat,
    seg_size: nat,
    fft_cplx_size: nat,
    seg_count: nat,
) -> (Result<(), FFTConvolverError>, ConvolverModel) {
    if !config_valid(block_size, seg_size, fft_cplx_size) {
        (Err(FFTConvolverError::UnsupportedBlockSize), old)
    } else if len == 0 {
        (Ok(()), fresh_model())
    } else if len > block_size * seg_count {
        (
            Err(FFTConvolverError::ImpulseResponseExceedsCapacity),
            ConvolverModel { ir_len: len, stream: stream_start(0) },
        )
    } else {
        (Ok(()), ConvolverModel { ir_len: len, stream: stream_start(segments_for(len, block_size)) })
    }
}

/// The outcome of `set_response` with a response of `len` samples: refused
/// when longer than the capacity, else the new response is active and the
/// history and buffers are cleared.
pub open spec fn set_response_outcome(old: ConvolverModel, len: nat, block_size: nat) -> (
    Result<(), FFTConvolverError>,
    ConvolverModel,
) {
    if len > old.ir_len {
        (Err(FFTConvolverError::ImpulseResponseExceedsCapacity), old)
    } else {
        (Ok(()), ConvolverModel { ir_len: old.ir_len, stream: stream_start(segments_for(len, block_size)) })
    }
}

/// The state after `reset`: same response, nothing buffered, history index
/// back at 0.
pub open spec fn reset_outcome(old: ConvolverModel) -> ConvolverModel {
    ConvolverModel { ir_len: old.ir_len, stream: stream_start(old.stream.active) }
}

impl<
    const BLOCK_SIZE: usize,
    const SEG_SIZE: usize,
    const FFT_CPLX_SIZE: usize,
    const SEG_COUNT: usize,
> FFTConvolver<BLOCK_SIZE, SEG_SIZE, FFT_CPLX_SIZE, SEG_COUNT> {
    /// The position is consistent, at most `SEG_COUNT` segments are active,
    /// and a response was only ever taken with a valid configuration.
    #[verifier::type_invariant]
    spec fn consistent(self) -> bool {
        &&& stream_wf(self.stream@, BLOCK_SIZE as nat)
        &&& self.stream.active_seg_count <= SEG_COUNT
        &&& self.stream.active_seg_count > 0 ==> config_valid(
            BLOCK_SIZE as nat,
            SEG_SIZE as nat,
            FFT_CPLX_SIZE as nat,
        )
        &&& self.ir_len > 0 ==> config_valid(BLOCK_SIZE as nat, SEG_SIZE as nat, FFT_CPLX_SIZE as nat)
    }

    /// A convolver with no impulse response.
    pub fn default_const() -> (conv: Self)
        ensures
            conv@ == fresh_model(),
    {
        FFTConvolver {
            ir_len: 0,
            stream: StreamPosition { active_seg_count: 0, current: 0, input_buffer_fill: 0 },
        }
    }

    /// Whether the four size parameters fit together and the block size is
    /// supported.
    pub fn block_size_supported() -> (supported: bool)
        ensures
            supported == config_valid(BLOCK_SIZE as nat, SEG_SIZE as nat, FFT_CPLX_SIZE as nat),
    {
        config_supported(BLOCK_SIZE, SEG_SIZE, FFT_CPLX_SIZE)
    }

    /// Initializes the convolver with an impulse response.
    ///
    /// Returns `UnsupportedBlockSize`, and changes nothing, when the block
    /// size is not a power of two from 8 to 2048 or `SEG_SIZE` is not
    /// `2 * BLOCK_SIZE` or `FFT_CPLX_SIZE` is not `BLOCK_SIZE + 1`. Otherwise
    /// clears the convolver and records the response's length as its
    /// capacity; returns `ImpulseResponseExceedsCapacity` when the response is
    /// longer than `BLOCK_SIZE * SEG_COUNT` samples, else makes
    /// `len / BLOCK_SIZE` (rounded up) segments active.
    pub fn init<T>(&mut self, impulse_response: &[T]) -> (r: Result<(), FFTConvolverError>)
        ensures
            (r, final(self)@) == init_outcome(
                old(self)@,
                impulse_response@.len(),
                BLOCK_SIZE as nat,
                SEG_SIZE as nat,
                FFT_CPLX_SIZE as nat,
                SEG_COUNT as nat,
            ),
    {
        if !Self::block_size_supported() {
            return Err(FFTConvolverError::UnsupportedBlockSize);
        }
        let len = impulse_response.len();
        if len == 0 {
            *self = Self::default_const();
            return Ok(());
        }
        let active = segment_count(len, BLOCK_SIZE);
        proof {
            lemma_capacity(len as nat, BLOCK_SIZE as nat, SEG_COUNT as nat);
        }
        if active > SEG_COUNT {
            *self = FFTConvolver {
                ir_len: len,
                stream: StreamPosition { active_seg_count: 0, current: 0, input_buffer_fill: 0 },
            };
            return Err(FFTConvolverError::ImpulseResponseExceedsCapacity);
        }
        *self = FFTConvolver {
            ir_len: len,
            stream: StreamPosition { active_seg_count: active, current: 0, input_buffer_fill: 0 },
        };
        Ok(())
    }

    /// Replaces the impulse response by one no longer than the one given to
    /// `init`, clearing the history and buffers; refuses a longer one with
    /// `ImpulseResponseExceedsCapacity` and changes nothing then.
    pub fn set_response<T>(&mut self, impulse_response: &[T]) -> (r: Result<(), FFTConvolverError>)
        requires
            impulse_response@.len() <= old(self)@.ir_len ==> impulse_response@.len()
                <= BLOCK_SIZE * SEG_COUNT,
        ensures
            (r, final(self)@) == set_response_outcome(
                old(self)@,
                impulse_response@.len(),
                BLOCK_SIZE as nat,
            ),
    {
        proof {
            use_type_invariant(&*self);
        }
        let len = impulse_response.len();
        if len > self.ir_len {
            return Err(FFTConvolverError::ImpulseResponseExceedsCapacity);
        }
        let active = if len == 0 {
            0
        } else {
            proof {
                lemma_capacity(len as nat, BLOCK_SIZE as nat, SEG_COUNT as nat);
            }
            segment_count(len, BLOCK_SIZE)
        };
        self.stream = StreamPosition { active_seg_count: active, current: 0, input_buffer_fill: 0 };
        Ok(())
    }

    /// Decides how to convolve `input` into `output`: refuses slices of
    /// different lengths with `InputOutputLengthMismatch`, asks for silence
    /// when no segment is active, and otherwise asks for the call's chunks,
    /// to be taken with `next_chunk`. Changes nothing.
    pub fn process<T>(&self, input: &[T], output: &[T]) -> (r: Result<ProcessPlan, FFTConvolverError>)
        ensures
            r == process_outcome(self@.stream, input@.len(), output@.len()),
    {
        process_decision(&self.stream, input.len(), output.len())
    }

    /// The next chunk of a call with `remaining` samples left from index
    /// `start` on, moving past it; `None`, changing nothing, when the call is
    /// done or no segment is active.
    pub fn next_chunk(&mut self, start: usize, remaining: usize) -> (chunk: Option<BlockStep>)
        ensures
            chunk_view(chunk) == chunk_outcome(old(self)@.stream, BLOCK_SIZE as nat, start as nat, remaining as nat).0,
            final(self)@ == (ConvolverModel { ir_len: old(self)@.ir_len, stream: chunk_outcome(old(self)@.stream, BLOCK_SIZE as nat, start as nat, remaining as nat).1 }),
    {
        proof {
            use_type_invariant(&*self);
        }
        if remaining == 0 || self.stream.active_seg_count == 0 {
            return None;
        }
        let mut pos = self.stream;
        let chunk = next_chunk(BLOCK_SIZE, &mut pos, start, remaining);
        self.stream = pos;
        Some(chunk)
    }

    /// The length of the impulse response given to `init`: the most samples
    /// `set_response` accepts.
    pub fn ir_len(&self) -> (len: usize)
        ensures
            len == self@.ir_len,
    {
        self.ir_len
    }

    /// The streaming position: active segments, history index and buffered
    /// samples.
    pub fn position(&self) -> (pos: StreamPosition)
        ensures
            pos@ == self@.stream,
    {
        self.stream
    }

    /// The number of active impulse-response segments.
    pub fn active_seg_count(&self) -> (count: usize)
        ensures
            count == self@.stream.active,
    {
        self.stream.active_seg_count
    }

    /// Clears the buffered input and the history while keeping the impulse
    /// response.
    pub fn reset(&mut self)
        ensures
            final(self)@ == reset_outcome(old(self)@),
    {
        proof {
            use_type_invariant(&*self);
        }
        self.stream = StreamPosition {
            active_seg_count: self.stream.active_seg_count,
            current: 0,
            input_buffer_fill: 0,
        };
    }
}

impl<
    const BLOCK_SIZE: usize,
    const SEG_SIZE: usize,
    const FFT_CPLX_SIZE: usize,
    const SEG_COUNT: usize,
> Default for FFTConvolver<BLOCK_SIZE, SEG_SIZE, FFT_CPLX_SIZE, SEG_COUNT> {
    fn default() -> (conv: Self)
        ensures
            conv@ == fresh_model(),
    {
        Self::default_const()
    }
}

/// `init` forgets everything: with a supported configuration its outcome
/// depends only on the length of the new response, not on the state before.
pub proof fn lemma_init_forgets(
    m1: ConvolverModel,
    m2: ConvolverModel,
    len: nat,
    block_size: nat,
    seg_size: nat,
    fft_cplx_size: nat,
    seg_count: nat,
)
    requires
        config_valid(block_size, seg_size, fft_cplx_size),
    ensures
        init_outcome(m1, len, block_size, seg_size, fft_cplx_size, seg_count)
            == init_outcome(m2, len, block_size, seg_size, fft_cplx_size, seg_count),
{
}

/// Swapping the response with `set_response` after `init` with a response
/// of `len1` samples: a response of `len2 <= len1` samples is accepted and
/// leaves the convolver streaming exactly as `init` with it would (only the
/// capacity stays `len1`); a longer one is refused and changes nothing.
pub proof fn lemma_set_response_matches_init(
    m1: ConvolverModel,
    m2: ConvolverModel,
    len1: nat,
    len2: nat,
    block_size: nat,
    seg_size: nat,
    fft_cplx_size: nat,
    seg_count: nat,
)
    requires
        init_outcome(m1, len1, block_size, seg_size, fft_cplx_size, seg_count).0 is Ok,
    ensures
        ({
            let first = init_outcome(m1, len1, block_size, seg_size, fft_cplx_size, seg_count).1;
            let swapped = set_response_outcome(first, len2, block_size);
            let direct = init_outcome(m2, len2, block_size, seg_size, fft_cplx_size, seg_count);
            &&& len2 <= len1 ==> swapped.0 is Ok && direct.0 is Ok && swapped.1.stream
                == direct.1.stream && swapped.1.ir_len == len1
            &&& len2 > len1 ==> swapped.0 == Err::<(), FFTConvolverError>(
                FFTConvolverError::ImpulseResponseExceedsCapacity,
            ) && swapped.1 == first
        }),
{
    if len2 <= len1 && len1 > 0 {
        assert(len2 <= block_size * seg_count);
    }
}

/// `reset` forgets the history: however many samples were processed since,
/// resetting gives the state that `reset` gives right away, and right after
/// `init` that is the state `init` left.
pub proof fn lemma_reset_forgets_history(
    m: ConvolverModel,
    n: nat,
    block_size: nat,
)
    requires
        stream_wf(m.stream, block_size),
    ensures
        reset_outcome(ConvolverModel { ir_len: m.ir_len, stream: stream_after(m.stream, block_size, n) })
            == reset_outcome(m),
        m.stream == stream_start(m.stream.active) ==> reset_outcome(m) == m,
{
    lemma_stream_after_wf(m.stream, block_size, n);
}

/// What `init` does with a response of `len` samples, whatever the state
/// before: with a configuration that does not fit it refuses with
/// `UnsupportedBlockSize` and changes nothing; otherwise it records `len` as
/// the capacity, puts the stream at the start of a block with history index
/// 0, and accepts exactly when `len <= block_size * seg_count`, making active
/// the least number of blocks that hold `len` samples (none when refused).
pub proof fn lemma_init_law(
    old: ConvolverModel,
    len: nat,
    block_size: nat,
    seg_size: nat,
    fft_cplx_size: nat,
    seg_count: nat,
)
    ensures
        ({
            let (r, m) = init_outcome(old, len, block_size, seg_size, fft_cplx_size, seg_count);
            &&& !config_valid(block_size, seg_size, fft_cplx_size) ==> r == Err::<(), FFTConvolverError>(
                FFTConvolverError::UnsupportedBlockSize,
            ) && m == old
            &&& config_valid(block_size, seg_size, fft_cplx_size) ==> {
                &&& (r is Ok) == (len <= block_size * seg_count)
                &&& r is Err ==> r == Err::<(), FFTConvolverError>(
                    FFTConvolverError::ImpulseResponseExceedsCapacity,
                ) && m.stream.active == 0
                &&& m.ir_len == len
                &&& m.stream.current == 0
                &&& m.stream.fill == 0
                &&& r is Ok ==> m.stream.active * block_size >= len && (m.stream.active == 0 || (
                m.stream.active - 1) * block_size < len)
            }
        }),
{
    if config_valid(block_size, seg_size, fft_cplx_size) {
        lemma_segments_for_is_ceiling(len, block_size);
        assert(0 * block_size == 0);
    }
}

/// What `set_response` does with a response of `len` samples, whatever the
/// state before: a response longer than the capacity is refused with
/// `ImpulseResponseExceedsCapacity` and changes nothing; any other is
/// accepted, keeps the capacity, puts the stream at the start of a block with
/// history index 0 and makes active the least number of blocks that hold
/// `len` samples, however many were active before.
pub proof fn lemma_set_response_law(old: ConvolverModel, len: nat, block_size: nat)
    requires
        block_size > 0,
    ensures
        ({
            let (r, m) = set_response_outcome(old, len, block_size);
            &&& (r is Err) == (len > old.ir_len)
            &&& r is Err ==> r == Err::<(), FFTConvolverError>(
                FFTConvolverError::ImpulseResponseExceedsCapacity,
            ) && m == old
            &&& r is Ok ==> {
                &&& m.ir_len == old.ir_len
                &&& m.stream.current == 0
                &&& m.stream.fill == 0
                &&& m.stream.active * block_size >= len
                &&& m.stream.active == 0 || (m.stream.active - 1) * block_size < len
            }
        }),
{
    lemma_segments_for_is_ceiling(len, block_size);
}

/// `reset` keeps the response (capacity and active segments) and puts the
/// stream at the start of a block with history index 0, whatever the state
/// before.
pub proof fn lemma_reset_law(old: ConvolverModel)
    ensures
        reset_outcome(old).ir_len == old.ir_len,
        reset_outcome(old).stream.active == old.stream.active,
        reset_outcome(old).stream.current == 0,
        reset_outcome(old).stream.fill == 0,
{
}

} // verus!
