//! The convolver whose impulse-response spectra are precomputed and kept in
//! static storage.

use vstd::prelude::*;

use crate::blocks::{config_supported, config_valid};
use crate::error::FFTConvolverError;
use crate::schedule::{
    chunk_outcome, chunk_view, next_chunk, process_decision, process_outcome, stream_start, stream_wf,
    BlockStep, ProcessPlan, StreamModel, StreamPosition,
};

verus! {

/// Partitioned FFT convolver that borrows precomputed impulse-response
/// spectra, one per segment, instead of computing them. This value holds
/// the decisions of the convolver; the spectra and sample buffers live with
/// the signal path.
#[derive(Debug, Clone, Copy)]
pub struct FFTConvolverStaticIr<
    const BLOCK_SIZE: usize,
    const SEG_SIZE: usize,
    const FFT_CPLX_SIZE: usize,
    const SEG_COUNT: usize,
> {
    stream: StreamPosition,
}

impl<
    const BLOCK_SIZE: usize,
    const SEG_SIZE: usize,
    const FFT_CPLX_SIZE: usize,
    const SEG_COUNT: usize,
> View for FFTConvolverStaticIr<BLOCK_SIZE, SEG_SIZE, FFT_CPLX_SIZE, SEG_COUNT> {
    type V = StreamModel;

    closed spec fn view(&self) -> StreamModel {
        self.stream@
    }
}

/// The outcome of `init_static_ir` with `count` precomputed segments: an
/// unsupported configuration or more than `seg_count` segments leave the
/// convolver as it was; otherwise the segments are active and nothing is
/// buffered.
pub open spec fn init_static_ir_outcome(
    old: StreamModel,
    count: nat,
    block_size: nat,
    seg_size: nat,
    fft_cplx_size: nat,
    seg_count: nat,
) -> (Result<(), FFTConvolverError>, StreamModel) {
    if !config_valid(block_size, seg_size, fft_cplx_size) {
        (Err(FFTConvolverError::UnsupportedBlockSize), old)
    } else if count > seg_count {
        (Err(FFTConvolverError::ImpulseResponseExceedsCapacity), old)
    } else {
        (Ok(()), stream_start(count))
    }
}

impl<
    const BLOCK_SIZE: usize,
    const SEG_SIZE: usize,
    const FFT_CPLX_SIZE: usize,
    const SEG_COUNT: usize,
> FFTConvolverStaticIr<BLOCK_SIZE, SEG_SIZE, FFT_CPLX_SIZE, SEG_COUNT> {
    /// The position is consistent, at most `SEG_COUNT` segments are active,
    /// and segments were only ever taken with a valid configuration.
    #[verifier::type_invariant]
    spec fn consistent(self) -> bool {
        &&& stream_wf(self.stream@, BLOCK_SIZE as nat)
        &&& self.stream.active_seg_count <= SEG_COUNT
        &&& self.stream.active_seg_count > 0 ==> config_valid(
            BLOCK_SIZE as nat,
            SEG_SIZE as nat,
            FFT_CPLX_SIZE as nat,
        )
    }

    /// A convolver with no impulse response loaded.
    pub fn default_const() -> (conv: Self)
        ensures
            conv@ == stream_start(0),
    {
        FFTConvolverStaticIr {
            stream: StreamPosition { active_seg_count: 0, current: 0, input_buffer_fill: 0 },
        }
    }

    /// Initializes the convolver with precomputed, frequency-domain
    /// impulse-response segments, one per partition.
    ///
    /// Returns `UnsupportedBlockSize` when the size parameters do not fit
    /// together and `ImpulseResponseExceedsCapacity` when there are more
    /// than `SEG_COUNT` segments, changing nothing in either case; otherwise
    /// clears the convolver and makes the segments active.
    pub fn init_static_ir<T>(&mut self, segments_ir: &[T]) -> (r: Result<(), FFTConvolverError>)
        ensures
            (r, final(self)@) == init_static_ir_outcome(
                old(self)@,
                segments_ir@.len(),
                BLOCK_SIZE as nat,
                SEG_SIZE as nat,
                FFT_CPLX_SIZE as nat,
                SEG_COUNT as nat,
            ),
    {
        if !config_supported(BLOCK_SIZE, SEG_SIZE, FFT_CPLX_SIZE) {
            return Err(FFTConvolverError::UnsupportedBlockSize);
        }
        if segments_ir.len() > SEG_COUNT {
            return Err(FFTConvolverError::ImpulseResponseExceedsCapacity);
        }
        *self = FFTConvolverStaticIr {
            stream: StreamPosition {
                active_seg_count: segments_ir.len(),
                current: 0,
                input_buffer_fill: 0,
            },
        };
        Ok(())
    }

    /// Decides how to convolve `input` into `output`: refuses slices of
    /// different lengths with `InputOutputLengthMismatch`, asks for silence
    /// when no segment is active, and otherwise asks for the call's chunks,
    /// to be taken with `next_chunk`. Changes nothing.
    pub fn process<T>(&self, input: &[T], output: &[T]) -> (r: Result<ProcessPlan, FFTConvolverError>)
        ensures
            r == process_outcome(self@, input@.len(), output@.len()),
    {
        process_decision(&self.stream, input.len(), output.len())
    }

    /// The next chunk of a call with `remaining` samples left from index
    /// `start` on, moving past it; `None`, changing nothing, when the call is
    /// done or no segment is active.
    pub fn next_chunk(&mut self, start: usize, remaining: usize) -> (chunk: Option<BlockStep>)
        ensures
            chunk_view(chunk) == chunk_outcome(old(self)@, BLOCK_SIZE as nat, start as nat, remaining as nat).0,
            final(self)@ == chunk_outcome(old(self)@, BLOCK_SIZE as nat, start as nat, remaining as nat).1,
    {
        proof {
            use_type_invariant(&*self);
        }
        if remaining == 0 || self.stream.active_seg_count == 0 {
            return None;
        }
        let mut pos = self.stream;
        let chunk = next_chunk(BLOCK_SIZE, &mut pos, start, remaining);
        self.stream = pos;
        Some(chunk)
    }

    /// Clears the buffered input and the history while keeping the static
    /// impulse response.
    pub fn reset(&mut self)
        ensures
            final(self)@ == stream_start(old(self)@.active),
    {
        proof {
            use_type_invariant(&*self);
        }
        self.stream = StreamPosition {
            active_seg_count: self.stream.active_seg_count,
            current: 0,
            input_buffer_fill: 0,
        };
    }

    /// The streaming position: active segments, history index and buffered
    /// samples.
    pub fn position(&self) -> (pos: StreamPosition)
        ensures
            pos@ == self@,
    {
        self.stream
    }

    /// The number of active impulse-response segments.
    pub fn active_seg_count(&self) -> (count: usize)
        ensures
            count == self@.active,
    {
        self.stream.active_seg_count
    }
}

impl<
    const BLOCK_SIZE: usize,
    const SEG_SIZE: usize,
    const FFT_CPLX_SIZE: usize,
    const SEG_COUNT: usize,
> Default for FFTConvolverStaticIr<BLOCK_SIZE, SEG_SIZE, FFT_CPLX_SIZE, SEG_COUNT> {
    fn default() -> (conv: Self)
        ensures
            conv@ == stream_start(0),
    {
        Self::default_const()
    }
}

/// What `init_static_ir` does with `count` precomputed segments, whatever
/// the state before: it accepts exactly when the configuration fits and
/// `count <= seg_count`, and then makes the `count` segments active with the
/// stream at the start of a block and history index 0; a refused call
/// changes nothing, with `UnsupportedBlockSize` for a configuration that does
/// not fit and `ImpulseResponseExceedsCapacity` for too many segments.
pub proof fn lemma_init_static_ir_law(
    old: StreamModel,
    count: nat,
    block_size: nat,
    seg_size: nat,
    fft_cplx_size: nat,
    seg_count: nat,
)
    ensures
        ({
            let (r, m) = init_static_ir_outcome(old, count, block_size, seg_size, fft_cplx_size, seg_count);
            &&& (r is Ok) == (config_valid(block_size, seg_size, fft_cplx_size) && count <= seg_count)
            &&& r is Err ==> m == old
            &&& !config_valid(block_size, seg_size, fft_cplx_size) ==> r == Err::<(), FFTConvolverError>(
                FFTConvolverError::UnsupportedBlockSize,
            )
            &&& config_valid(block_size, seg_size, fft_cplx_size) && count > seg_count ==> r == Err::<
                (),
                FFTConvolverError,
            >(FFTConvolverError::ImpulseResponseExceedsCapacity)
            &&& r is Ok ==> m.active == count && m.current == 0 && m.fill == 0
        }),
{
}

} // verus!
