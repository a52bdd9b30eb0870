use fft_convolver_nostd::{
    history_segment, BlockStep, FFTConvolver, FFTConvolver32, FFTConvolver64, FFTConvolver8,
    FFTConvolverError, ProcessPlan,
};

/// Asks for the plan of a call of `n` samples and takes all its chunks.
fn run<const B: usize, const S: usize, const C: usize, const N: usize>(
    conv: &mut FFTConvolver<B, S, C, N>,
    n: usize,
) -> Vec<BlockStep> {
    let samples = vec![0.0f32; n];
    assert_eq!(conv.process(&samples, &samples), Ok(ProcessPlan::Blocks));
    let mut steps = Vec::new();
    let mut processed = 0;
    while let Some(chunk) = conv.next_chunk(processed, n - processed) {
        processed += chunk.len;
        steps.push(chunk);
    }
    assert_eq!(processed, n);
    steps
}

/// The (impulse-response segment, history segment) pairs of a chunk that
/// refreshes the tail.
fn tail(step: &BlockStep, active: usize) -> Vec<(usize, usize)> {
    if !step.refresh_tail {
        return Vec::new();
    }
    (1..active).map(|i| (i, history_segment(step.segment, i, active))).collect()
}

#[test]
fn set_response_too_long_errors() {
    let ir1 = [0.5f32, 0.3, 0.2, 0.1];
    let ir2 = [0.8f32, 0.6, 0.4, 0.2, 0.1, 0.05];
    let mut conv = FFTConvolver32::<1>::default();
    conv.init(&ir1).unwrap();
    assert!(matches!(
        conv.set_response(&ir2),
        Err(FFTConvolverError::ImpulseResponseExceedsCapacity)
    ));
}

#[test]
fn mismatch_lengths_errors() {
    let mut conv = FFTConvolver32::<1>::default();
    conv.init(&[1.0f32]).unwrap();
    let input = [1.0f32; 4];
    let mut output = [0.0f32; 8];
    assert!(matches!(
        conv.process(&input, &mut output),
        Err(FFTConvolverError::InputOutputLengthMismatch)
    ));
}

#[test]
fn init_counts_segments() {
    let mut conv = FFTConvolver32::<3>::default();
    let ir = vec![0.0f32; 70];
    assert_eq!(conv.init(&ir), Ok(()));
    assert_eq!(conv.active_seg_count(), 3);
    assert_eq!(conv.ir_len(), 70);
    let pos = conv.position();
    assert_eq!((pos.current, pos.input_buffer_fill), (0, 0));

    let ir = vec![0.0f32; 64];
    assert_eq!(conv.init(&ir), Ok(()));
    assert_eq!(conv.active_seg_count(), 2);
    let ir = vec![0.0f32; 65];
    assert_eq!(conv.init(&ir), Ok(()));
    assert_eq!(conv.active_seg_count(), 3);
}

#[test]
fn init_empty_ir_is_silent() {
    let mut conv = FFTConvolver64::<4>::default();
    assert_eq!(conv.init(&[] as &[f32]), Ok(()));
    assert_eq!(conv.active_seg_count(), 0);
    let input = [1.0f32; 64];
    let output = [0.0f32; 64];
    assert!(matches!(conv.process(&input, &output), Ok(ProcessPlan::Silence)));
}

#[test]
fn init_too_long_keeps_length_as_capacity() {
    let mut conv = FFTConvolver32::<1>::default();
    let ir = vec![0.0f32; 40];
    assert_eq!(conv.init(&ir), Err(FFTConvolverError::ImpulseResponseExceedsCapacity));
    assert_eq!(conv.ir_len(), 40);
    assert_eq!(conv.active_seg_count(), 0);
    // A shorter response within the segment capacity is accepted afterwards.
    let ir2 = vec![0.0f32; 20];
    assert_eq!(conv.set_response(&ir2), Ok(()));
    assert_eq!(conv.active_seg_count(), 1);
}

#[test]
fn init_unsupported_block_size() {
    let mut conv = FFTConvolver::<24, 48, 25, 2>::default();
    assert_eq!(conv.init(&[1.0f32]), Err(FFTConvolverError::UnsupportedBlockSize));
    assert_eq!(conv.ir_len(), 0);
    // Mismatched derived sizes are refused as well.
    let mut conv = FFTConvolver::<32, 60, 33, 2>::default();
    assert_eq!(conv.init(&[1.0f32]), Err(FFTConvolverError::UnsupportedBlockSize));
    let mut conv = FFTConvolver::<32, 64, 32, 2>::default();
    assert_eq!(conv.init(&[1.0f32]), Err(FFTConvolverError::UnsupportedBlockSize));
}

#[test]
fn unsupported_init_keeps_state() {
    let mut conv = FFTConvolver::<4, 8, 5, 2>::default();
    assert_eq!(conv.init(&[1.0f32; 3]), Err(FFTConvolverError::UnsupportedBlockSize));
    assert_eq!(conv.ir_len(), 0);
    assert_eq!(conv.active_seg_count(), 0);
}

#[test]
fn process_schedule_within_one_block() {
    let mut conv = FFTConvolver32::<1>::default();
    conv.init(&[0.5f32, 0.3, 0.2, 0.1]).unwrap();
    let steps = run(&mut conv, 16);
    assert_eq!(steps.len(), 1);
    let s = &steps[0];
    assert_eq!((s.input_start, s.len, s.buffer_pos, s.segment), (0, 16, 0, 0));
    assert!(s.refresh_tail);
    assert!(tail(s, 1).is_empty());
    assert!(!s.block_done);
    assert_eq!(conv.position().input_buffer_fill, 16);
}

#[test]
fn process_schedule_multi_segment() {
    // Block size 64, 4 segments of impulse response, 256 samples at once.
    let mut conv = FFTConvolver64::<4>::default();
    let mut ir = vec![0.0f32; 256];
    ir[0] = 1.0;
    conv.init(&ir).unwrap();
    let steps = run(&mut conv, 256);
    assert_eq!(steps.len(), 4);
    let segments: Vec<usize> = steps.iter().map(|s| s.segment).collect();
    assert_eq!(segments, vec![0, 3, 2, 1]);
    for (k, s) in steps.iter().enumerate() {
        assert_eq!(s.input_start, 64 * k);
        assert_eq!(s.len, 64);
        assert_eq!(s.buffer_pos, 0);
        assert!(s.refresh_tail);
        assert!(s.block_done);
        let expected: Vec<(usize, usize)> = (1..4).map(|i| (i, (s.segment + i) % 4)).collect();
        assert_eq!(tail(s, 4), expected);
    }
    let pos = conv.position();
    assert_eq!((pos.current, pos.input_buffer_fill), (0, 0));
}

#[test]
fn process_schedule_splits_at_block_boundary() {
    let mut conv = FFTConvolver8::<2>::default();
    conv.init(&[1.0f32; 12]).unwrap();
    let steps = run(&mut conv, 5);
    assert_eq!(steps.len(), 1);
    assert_eq!(tail(&steps[0], 2), vec![(1, 1)]);
    let steps = run(&mut conv, 13);
    let shape: Vec<(usize, usize, usize, usize, bool, bool)> = steps
        .iter()
        .map(|s| (s.input_start, s.len, s.buffer_pos, s.segment, s.refresh_tail, s.block_done))
        .collect();
    assert_eq!(
        shape,
        vec![
            (0, 3, 5, 0, false, true),
            (3, 8, 0, 1, true, true),
            (11, 2, 0, 0, true, false),
        ]
    );
    assert!(tail(&steps[0], 2).is_empty());
    assert_eq!(tail(&steps[1], 2), vec![(1, 0)]);
    assert_eq!(tail(&steps[2], 2), vec![(1, 1)]);
    let pos = conv.position();
    assert_eq!((pos.current, pos.input_buffer_fill), (0, 2));
}

#[test]
fn split_calls_reach_same_position() {
    let ir = [0.25f32; 20];
    let mut one = FFTConvolver8::<3>::default();
    one.init(&ir).unwrap();
    let mut two = FFTConvolver8::<3>::default();
    two.init(&ir).unwrap();
    let all = run(&mut one, 29);
    let mut split = run(&mut two, 10);
    split.extend(run(&mut two, 19));
    // Both cover the 29 samples; the positions agree.
    assert_eq!(all.iter().map(|s| s.len).sum::<usize>(), 29);
    assert_eq!(split.iter().map(|s| s.len).sum::<usize>(), 29);
    let (p1, p2) = (one.position(), two.position());
    assert_eq!((p1.current, p1.input_buffer_fill), (p2.current, p2.input_buffer_fill));
    assert_eq!((p1.current, p1.input_buffer_fill), (0, 5));
}

#[test]
fn reset_returns_to_start() {
    let ir = [0.5f32, 0.3, 0.2, 0.1];
    let mut conv = FFTConvolver8::<1>::default();
    conv.init(&ir).unwrap();
    let _ = run(&mut conv, 13);
    assert_eq!(conv.position().input_buffer_fill, 5);
    conv.reset();
    let pos = conv.position();
    assert_eq!((pos.active_seg_count, pos.current, pos.input_buffer_fill), (1, 0, 0));
    assert_eq!(conv.ir_len(), 4);
}

#[test]
fn set_response_schedule_matches_init() {
    let ir1 = [0.5f32; 20];
    let ir2 = [0.8f32; 10];
    let mut conv1 = FFTConvolver8::<3>::default();
    conv1.init(&ir1).unwrap();
    let _ = run(&mut conv1, 7);
    conv1.set_response(&ir2).unwrap();
    let mut conv2 = FFTConvolver8::<3>::default();
    conv2.init(&ir2).unwrap();
    let (p1, p2) = (conv1.position(), conv2.position());
    assert_eq!(
        (p1.active_seg_count, p1.current, p1.input_buffer_fill),
        (p2.active_seg_count, p2.current, p2.input_buffer_fill)
    );
    assert_eq!(p1.active_seg_count, 2);
    assert_eq!(conv1.ir_len(), 20);
    assert_eq!(conv2.ir_len(), 10);
}

#[test]
fn set_response_empty_is_silent() {
    let mut conv = FFTConvolver8::<2>::default();
    conv.init(&[1.0f32; 9]).unwrap();
    conv.set_response(&[] as &[f32]).unwrap();
    assert_eq!(conv.active_seg_count(), 0);
    let x = [1.0f32; 3];
    assert!(matches!(conv.process(&x, &x), Ok(ProcessPlan::Silence)));
}

#[test]
fn set_response_before_init_errors() {
    let mut conv = FFTConvolver8::<2>::default();
    assert_eq!(
        conv.set_response(&[1.0f32]),
        Err(FFTConvolverError::ImpulseResponseExceedsCapacity)
    );
}

#[test]
fn default_const_matches_default() {
    let a = FFTConvolver32::<2>::default_const();
    let b = FFTConvolver32::<2>::default();
    assert_eq!(a.ir_len(), b.ir_len());
    assert_eq!(a.active_seg_count(), 0);
    assert_eq!(b.position().current, 0);
}

#[test]
fn tail_reads_blocks_from_the_past() {
    // Block size 8, 3 segments; feed 5 whole blocks one at a time.
    let mut conv = FFTConvolver8::<3>::default();
    conv.init(&[0.1f32; 24]).unwrap();
    let mut written: Vec<usize> = Vec::new();
    for _ in 0..5 {
        let steps = run(&mut conv, 8);
        assert_eq!(steps.len(), 1);
        let step = &steps[0];
        written.push(step.segment);
        let t = written.len() - 1;
        // Segment 0 of the response meets this block, segment i the block
        // from i blocks before; all three history segments are used once.
        let mut used = vec![step.segment];
        for (i, audio) in tail(step, 3) {
            used.push(audio);
            if t >= i {
                assert_eq!(audio, written[t - i]);
            }
        }
        used.sort();
        assert_eq!(used, vec![0, 1, 2]);
    }
    assert_eq!(written, vec![0, 2, 1, 0, 2]);
}

#[test]
fn init_after_use_starts_afresh() {
    let mut used = FFTConvolver8::<4>::default();
    used.init(&[1.0f32; 30]).unwrap();
    let _ = run(&mut used, 19);
    used.init(&[1.0f32; 17]).unwrap();
    let mut fresh = FFTConvolver8::<4>::default();
    fresh.init(&[1.0f32; 17]).unwrap();
    let (a, b) = (used.position(), fresh.position());
    assert_eq!(
        (a.active_seg_count, a.current, a.input_buffer_fill),
        (b.active_seg_count, b.current, b.input_buffer_fill)
    );
    assert_eq!(a.active_seg_count, 3);
    assert_eq!(used.ir_len(), fresh.ir_len());
}

#[test]
fn capacity_boundary() {
    let mut conv = FFTConvolver32::<3>::default();
    assert_eq!(conv.init(&vec![0.0f32; 96]), Ok(()));
    assert_eq!(conv.active_seg_count(), 3);
    assert_eq!(
        conv.init(&vec![0.0f32; 97]),
        Err(FFTConvolverError::ImpulseResponseExceedsCapacity)
    );
    assert_eq!(conv.active_seg_count(), 0);
    assert_eq!(conv.ir_len(), 97);
}

#[test]
fn next_chunk_none_when_done_or_silent() {
    let mut conv = FFTConvolver8::<2>::default();
    assert_eq!(conv.next_chunk(0, 5), None);
    conv.init(&[1.0f32; 3]).unwrap();
    assert_eq!(conv.next_chunk(4, 0), None);
    let chunk = conv.next_chunk(4, 3).unwrap();
    assert_eq!((chunk.input_start, chunk.len, chunk.buffer_pos, chunk.segment), (4, 3, 0, 0));
    assert!(chunk.refresh_tail && !chunk.block_done);
    assert_eq!(conv.position().input_buffer_fill, 3);
}
