//! Control plane of a partitioned overlap-add FFT convolver.
//!
//! The convolver splits an impulse response into segments of `BLOCK_SIZE`
//! samples, keeps a circular history of input spectra and feeds its input
//! through a sub-block buffer so that any number of samples can be processed
//! per call with zero latency. This crate holds, with proofs, every decision
//! of that machine: which block sizes are accepted, when an impulse response
//! fits, how it is cut into segments, how a call's samples are cut into
//! chunks, which history segment each chunk writes and which pairs of
//! spectra are multiplied, and how the circular position moves.

use vstd::prelude::*;

pub mod error;
pub mod blocks;
pub mod buffers;
pub mod schedule;
pub mod convolver;
pub mod static_ir;

pub use error::FFTConvolverError;
pub use blocks::{is_supported_block_size, segment_count, segment_span_at, SegmentSpan};
pub use buffers::{copy_and_pad, copy_range};
pub use convolver::FFTConvolver;
pub use schedule::{history_segment, BlockStep, ProcessPlan, StreamPosition};
pub use static_ir::FFTConvolverStaticIr;

verus! {

/// `FFTConvolver` with `BLOCK_SIZE=8` (SEG_SIZE=16, FFT_CPLX_SIZE=9).
pub type FFTConvolver8<const SEG_COUNT: usize> = FFTConvolver<8, 16, 9, SEG_COUNT>;

/// `FFTConvolver` with `BLOCK_SIZE=16` (SEG_SIZE=32, FFT_CPLX_SIZE=17).
pub type FFTConvolver16<const SEG_COUNT: usize> = FFTConvolver<16, 32, 17, SEG_COUNT>;

/// `FFTConvolver` with `BLOCK_SIZE=32` (SEG_SIZE=64, FFT_CPLX_SIZE=33).
pub type FFTConvolver32<const SEG_COUNT: usize> = FFTConvolver<32, 64, 33, SEG_COUNT>;

/// Static-IR `FFTConvolver` with `BLOCK_SIZE=32`.
pub type FFTConvolver32StaticIr<const SEG_COUNT: usize> = FFTConvolverStaticIr<32, 64, 33, SEG_COUNT>;

/// `FFTConvolver` with `BLOCK_SIZE=64` (SEG_SIZE=128, FFT_CPLX_SIZE=65).
pub type FFTConvolver64<const SEG_COUNT: usize> = FFTConvolver<64, 128, 65, SEG_COUNT>;

/// `FFTConvolver` with `BLOCK_SIZE=128` (SEG_SIZE=256, FFT_CPLX_SIZE=129).
pub type FFTConvolver128<const SEG_COUNT: usize> = FFTConvolver<128, 256, 129, SEG_COUNT>;

/// `FFTConvolver` with `BLOCK_SIZE=256` (SEG_SIZE=512, FFT_CPLX_SIZE=257).
pub type FFTConvolver256<const SEG_COUNT: usize> = FFTConvolver<256, 512, 257, SEG_COUNT>;

/// `FFTConvolver` with `BLOCK_SIZE=512` (SEG_SIZE=1024, FFT_CPLX_SIZE=513).
pub type FFTConvolver512<const SEG_COUNT: usize> = FFTConvolver<512, 1024, 513, SEG_COUNT>;

/// `FFTConvolver` with `BLOCK_SIZE=1024` (SEG_SIZE=2048, FFT_CPLX_SIZE=1025).
pub type FFTConvolver1024<const SEG_COUNT: usize> = FFTConvolver<1024, 2048, 1025, SEG_COUNT>;

/// `FFTConvolver` with `BLOCK_SIZE=2048` (SEG_SIZE=4096, FFT_CPLX_SIZE=2049).
pub type FFTConvolver2048<const SEG_COUNT: usize> = FFTConvolver<2048, 4096, 2049, SEG_COUNT>;

} // verus!
