use audio_output::pipeline::adapt_for_device;
use audio_output::remap::remap;
use audio_output::resample::{copy_samples, resample};

#[test]
fn resample_same_rate_is_identity() {
    let s: Vec<f32> = vec![0.1, -0.2, 0.3, 0.4, -0.5];
    assert_eq!(resample(&s, 44100, 44100), s);
}

#[test]
fn resample_empty_stays_empty() {
    let s: Vec<f32> = Vec::new();
    assert!(resample(&s, 8000, 16000).is_empty());
}

#[test]
fn resample_doubles_rate_by_repeating() {
    let s: Vec<f32> = vec![0.1, 0.2, 0.3, 0.4];
    let r = resample(&s, 8000, 16000);
    assert_eq!(r.len(), 8);
    for i in 0..4 {
        assert_eq!(r[2 * i], s[i]);
        assert_eq!(r[2 * i + 1], s[i]);
    }
}

#[test]
fn resample_halves_rate_by_dropping() {
    let s: Vec<i32> = vec![10, 11, 12, 13, 14];
    assert_eq!(resample(&s, 16000, 8000), vec![10, 12]);
}

#[test]
fn resample_length_is_floor_of_ratio() {
    let s: Vec<i32> = (0..10).collect();
    // 10 * 44100 / 48000 = 9.1875
    let r = resample(&s, 48000, 44100);
    assert_eq!(r.len(), 9);
    // index i reads floor(i * 48000 / 44100)
    assert_eq!(r, vec![0, 1, 2, 3, 4, 5, 6, 7, 8]);
    // 7 * 48000 / 44100 = 7.61..
    let t: Vec<i32> = (0..7).collect();
    let u = resample(&t, 44100, 48000);
    assert_eq!(u.len(), 7);
    assert_eq!(u, vec![0, 0, 1, 2, 3, 4, 5]);
}

#[test]
fn resample_to_zero_rate_is_empty() {
    let s: Vec<i32> = vec![1, 2, 3];
    assert!(resample(&s, 8000, 0).is_empty());
}

#[test]
fn copy_keeps_every_sample() {
    let s: Vec<i32> = vec![3, 1, 2];
    assert_eq!(copy_samples(&s), s);
}

#[test]
fn remap_same_channels_is_identity() {
    let s: Vec<f32> = vec![0.1, 0.2, 0.3];
    assert_eq!(remap(&s, 3, 3), s);
}

#[test]
fn remap_downmix_takes_channel_zero_not_mean() {
    let s: Vec<f32> = vec![1.0, 0.0, 0.5, -0.5, 0.25, 0.75];
    assert_eq!(remap(&s, 2, 1), vec![1.0, 0.5, 0.25]);
}

#[test]
fn remap_upmix_duplicates_last_channel() {
    let s: Vec<f32> = vec![0.1, 0.2, 0.3];
    let r = remap(&s, 1, 2);
    assert_eq!(r, vec![0.1, 0.1, 0.2, 0.2, 0.3, 0.3]);
    let t: Vec<i32> = vec![1, 2, 3, 4];
    assert_eq!(remap(&t, 2, 4), vec![1, 2, 2, 2, 3, 4, 4, 4]);
}

#[test]
fn remap_drops_partial_frame() {
    let s: Vec<i32> = vec![1, 2, 3, 4, 5];
    assert_eq!(remap(&s, 2, 1), vec![1, 3]);
    assert_eq!(remap(&s, 3, 2), vec![1, 2]);
}

#[test]
fn remap_to_zero_channels_is_empty() {
    let s: Vec<i32> = vec![1, 2];
    assert!(remap(&s, 2, 0).is_empty());
}

#[test]
fn adapt_remaps_then_resamples() {
    // mono at 8000 Hz to stereo at 16000 Hz
    let s: Vec<i32> = vec![1, 2];
    let r = adapt_for_device(&s, 8000, 1, 16000, 2).unwrap();
    // remapped: 1 1 2 2; resampled: each sample twice
    assert_eq!(r, vec![1, 1, 1, 1, 2, 2, 2, 2]);
}

#[test]
fn adapt_same_format_is_identity() {
    let s: Vec<f32> = vec![0.5, -0.5, 0.25, -0.25];
    assert_eq!(adapt_for_device(&s, 48000, 2, 48000, 2), Some(s.clone()));
}

#[test]
fn adapt_stereo_to_mono_downsampled() {
    let s: Vec<i32> = vec![1, -1, 2, -2, 3, -3, 4, -4];
    // remapped: 1 2 3 4; 48000 -> 24000 keeps every other one
    assert_eq!(adapt_for_device(&s, 48000, 2, 24000, 1), Some(vec![1, 3]));
}

#[test]
fn adapt_refuses_zero_source_format() {
    let s: Vec<i32> = vec![1, 2];
    assert_eq!(adapt_for_device(&s, 0, 1, 48000, 2), None);
    assert_eq!(adapt_for_device(&s, 48000, 0, 48000, 2), None);
}
