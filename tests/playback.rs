use audio_output::playback::PlaybackBuffer;
use audio_output::encoding::{output_encoding, NativeEncoding, OutputEncoding, I16_SILENCE, U16_SILENCE};
use audio_output::error::AudioError;
use audio_output::policy::{request_result, should_start_next};

#[test]
fn fill_copies_then_pads_with_silence() {
    let mut b = PlaybackBuffer::new(vec![1i16, 2, 3, 4, 5]);
    let mut out = [9i16; 3];
    b.fill(&mut out, I16_SILENCE);
    assert_eq!(out, [1, 2, 3]);
    assert_eq!(b.cursor(), 3);
    b.fill(&mut out, I16_SILENCE);
    assert_eq!(out, [4, 5, 0]);
    assert_eq!(b.cursor(), 5);
    assert!(b.is_drained());
    b.fill(&mut out, I16_SILENCE);
    assert_eq!(out, [0, 0, 0]);
    assert_eq!(b.cursor(), 5);
}

#[test]
fn buffer_drains_after_ceil_n_over_k_callbacks() {
    for n in 0usize..12 {
        for k in 1usize..5 {
            let data: Vec<u16> = (0..n as u16).collect();
            let mut b = PlaybackBuffer::new(data);
            let calls = (n + k - 1) / k;
            let mut out = vec![7u16; k];
            for _ in 0..calls {
                b.fill(&mut out, U16_SILENCE);
            }
            assert_eq!(b.cursor(), n);
            for _ in 0..3 {
                b.fill(&mut out, U16_SILENCE);
                assert!(out.iter().all(|&s| s == U16_SILENCE));
                assert_eq!(b.cursor(), n);
            }
        }
    }
}

#[test]
fn empty_buffer_gives_silence() {
    let mut b: PlaybackBuffer<f32> = PlaybackBuffer::new(Vec::new());
    assert_eq!(b.len(), 0);
    assert!(b.is_drained());
    let mut out = [1.0f32; 4];
    b.fill(&mut out, 0.0);
    assert_eq!(out, [0.0; 4]);
}

#[test]
fn empty_request_moves_nothing() {
    let mut b = PlaybackBuffer::new(vec![1i32, 2]);
    let mut out: [i32; 0] = [];
    b.fill(&mut out, 0);
    assert_eq!(b.cursor(), 0);
}

#[test]
fn supported_encodings() {
    assert_eq!(output_encoding(NativeEncoding::F32), Ok(OutputEncoding::F32));
    assert_eq!(output_encoding(NativeEncoding::I16), Ok(OutputEncoding::I16));
    assert_eq!(output_encoding(NativeEncoding::U16), Ok(OutputEncoding::U16));
    assert_eq!(output_encoding(NativeEncoding::Other), Err(AudioError::UnsupportedFormat));
    assert_eq!(U16_SILENCE, 32768);
    assert_eq!(I16_SILENCE, 0);
}

#[test]
fn request_ends_at_first_failed_device() {
    let none: Vec<Result<(), AudioError>> = Vec::new();
    assert!(should_start_next(&none));
    assert_eq!(request_result(&none), Ok(()));
    let all_ok = vec![Ok(()), Ok(())];
    assert!(should_start_next(&all_ok));
    assert_eq!(request_result(&all_ok), Ok(()));
    let failed = vec![Ok(()), Err(AudioError::UnsupportedFormat), Err(AudioError::StreamBuild)];
    assert!(!should_start_next(&failed));
    assert_eq!(request_result(&failed), Err(AudioError::UnsupportedFormat));
}
