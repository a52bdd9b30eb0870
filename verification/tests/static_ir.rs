use fft_convolver_nostd::{
    history_segment, BlockStep, FFTConvolver32StaticIr, FFTConvolverError, FFTConvolverStaticIr,
    ProcessPlan,
};

fn run<const N: usize>(conv: &mut FFTConvolver32StaticIr<N>, n: usize) -> Vec<BlockStep> {
    let samples = vec![0.0f32; n];
    assert_eq!(conv.process(&samples, &samples), Ok(ProcessPlan::Blocks));
    let mut steps = Vec::new();
    let mut processed = 0;
    while let Some(chunk) = conv.next_chunk(processed, n - processed) {
        processed += chunk.len;
        steps.push(chunk);
    }
    assert_eq!(processed, n);
    steps
}

#[test]
fn static_ir_init_and_process() {
    let spectra = vec![[0u8; 33]; 3];
    let mut conv = FFTConvolver32StaticIr::<3>::default();
    assert_eq!(conv.init_static_ir(&spectra), Ok(()));
    assert_eq!(conv.active_seg_count(), 3);
    let steps = run(&mut conv, 96);
    let segments: Vec<usize> = steps.iter().map(|s| s.segment).collect();
    assert_eq!(segments, vec![0, 2, 1]);
    let s = steps[1].segment;
    assert_eq!((history_segment(s, 1, 3), history_segment(s, 2, 3)), (0, 1));
    let pos = conv.position();
    assert_eq!((pos.current, pos.input_buffer_fill), (0, 0));
}

#[test]
fn static_ir_too_many_segments() {
    let spectra = vec![[0u8; 33]; 4];
    let mut conv = FFTConvolver32StaticIr::<3>::default();
    assert_eq!(
        conv.init_static_ir(&spectra),
        Err(FFTConvolverError::ImpulseResponseExceedsCapacity)
    );
    assert_eq!(conv.active_seg_count(), 0);
}

#[test]
fn static_ir_unsupported_block_size() {
    let spectra = vec![[0u8; 13]; 1];
    let mut conv = FFTConvolverStaticIr::<12, 24, 13, 2>::default_const();
    assert_eq!(conv.init_static_ir(&spectra), Err(FFTConvolverError::UnsupportedBlockSize));
}

#[test]
fn static_ir_mismatch_and_silence() {
    let mut conv = FFTConvolver32StaticIr::<2>::default();
    let a = [0.0f32; 3];
    let b = [0.0f32; 4];
    assert!(matches!(conv.process(&a, &b), Err(FFTConvolverError::InputOutputLengthMismatch)));
    assert!(matches!(conv.process(&a, &a), Ok(ProcessPlan::Silence)));
    let spectra = vec![[0u8; 33]; 1];
    conv.init_static_ir(&spectra).unwrap();
    let _ = run(&mut conv, 40);
    assert_eq!(conv.position().input_buffer_fill, 8);
    conv.reset();
    assert_eq!(conv.position().input_buffer_fill, 0);
    assert_eq!(conv.active_seg_count(), 1);
}
