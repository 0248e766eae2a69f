use audio_engine::convert::{convert, convert_checked};

#[test]
fn mono_to_stereo_duplicates_each_sample() {
    let out = convert(&vec![30000, 16000], 44100, 1, 44100, 2);
    assert_eq!(out, vec![30000, 30000, 16000, 16000]);
}

#[test]
fn stereo_to_mono_averages_pairs() {
    let out = convert(&vec![30000, 30000, 0, 0], 44100, 2, 44100, 1);
    assert_eq!(out, vec![30000, 0]);
}

#[test]
fn stereo_to_mono_passes_trailing_odd_sample_through() {
    let out = convert(&vec![10, 20, 30], 44100, 2, 44100, 1);
    assert_eq!(out, vec![15, 30]);
}

#[test]
fn average_truncates_toward_zero() {
    let out = convert(&vec![-3, 0], 44100, 2, 44100, 1);
    assert_eq!(out, vec![-1]);
}

#[test]
fn identity_conversion_returns_input() {
    let input = vec![1, -2, 3, -4];
    let out = convert(&input, 48000, 2, 48000, 2);
    assert_eq!(out, input);
}

#[test]
fn downsampling_halves_the_frame_count() {
    // Mono, source rate twice the target rate: every other frame is read
    // and the count halves; positions land exactly on source frames, so
    // no blending happens.
    let out = convert(&vec![0, 100, 200, 300], 2, 1, 1, 1);
    assert_eq!(out, vec![0, 200]);
}

#[test]
fn upsampling_interpolates_between_frames() {
    // Mono, target rate twice the source rate: frame count doubles, odd
    // output frames sit halfway between their neighbours, and the final
    // frame clamps to the last source frame instead of extrapolating.
    let out = convert(&vec![0, 100], 1, 1, 2, 1);
    assert_eq!(out, vec![0, 50, 100, 100]);
}

#[test]
fn resampling_never_reads_past_the_input() {
    // A stereo upsample whose last output frames clamp to the final
    // source frame.
    let out = convert(&vec![0, 0, 1000, -1000], 44100, 2, 48000, 2);
    assert_eq!(out.len() % 2, 0);
    let frames = out.len() / 2;
    assert_eq!(frames, 4 * 48000 / 44100 / 2);
    for i in 0..out.len() {
        assert!(out[i] >= -1000 && out[i] <= 1000);
    }
}

#[test]
fn many_to_fewer_channels_takes_the_first() {
    // Three channels down to two: each frame keeps channels 0 and 1.
    let out = convert(&vec![1, 2, 3, 4, 5, 6], 8000, 3, 8000, 2);
    assert_eq!(out, vec![1, 2, 4, 5]);
}

#[test]
fn fewer_to_many_channels_replicates_the_last() {
    // Two channels up to three: the third repeats the second.
    let out = convert(&vec![1, 2, 3, 4], 8000, 2, 8000, 3);
    assert_eq!(out, vec![1, 2, 2, 3, 4, 4]);
}

#[test]
fn checked_conversion_rejects_zero_arguments() {
    assert!(convert_checked(&vec![1, 2], 0, 1, 48000, 2).is_none());
    assert!(convert_checked(&vec![1, 2], 44100, 0, 48000, 2).is_none());
    assert!(convert_checked(&vec![1, 2], 44100, 1, 0, 2).is_none());
    assert!(convert_checked(&vec![1, 2], 44100, 1, 48000, 0).is_none());
}

#[test]
fn checked_conversion_agrees_with_convert() {
    let out = convert_checked(&vec![100, 200], 44100, 1, 44100, 2).unwrap();
    assert_eq!(out, vec![100, 100, 200, 200]);
}

#[test]
fn empty_input_converts_to_empty_output() {
    let out = convert(&vec![], 44100, 1, 48000, 2);
    assert_eq!(out, Vec::<i16>::new());
}
