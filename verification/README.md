# fft_convolver_nostd

Partitioned overlap-add FFT convolution for embedded audio, split in two:

- `src/` is the verified control plane. It decides which block sizes and
  size parameters are accepted, when an impulse response fits, how it is cut
  into segments (`segment_span_at`), how each `process` call is cut into
  chunks that fill a one-block input buffer (`next_chunk`, one chunk at a
  time, so nothing is allocated), which history segment receives each block's
  spectrum, which (impulse-response segment, history segment) pairs are
  multiplied, and how the circular history index moves. Contracts state these
  decisions exactly over small models (`ConvolverModel`, `StreamModel`,
  `BlockStepModel`), and proof functions state the laws that tie them
  together (split calls move the stream as one call, chunks cover each
  sample once, the history behaves as a delay line, `reset`, `init` and
  `set_response` forget what they should).
- `app/` is the `f32` signal path: the real FFT and inverse FFT on top of
  microfft, complex multiply-accumulate and overlap-add, driven by the
  plans that the control plane returns.

Modules of `src/`: `error` (error type), `blocks` (sizes, capacity,
impulse-response segments), `buffers` (copy with zero padding, window
copies), `schedule`
(stream position, chunk plan, laws), `convolver` and `static_ir` (the two
convolvers).
