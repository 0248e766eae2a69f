use audio_engine::buffer::deinterleave;
use audio_engine::engine::AudioEngine;
use audio_engine::error::AudioError;

#[test]
fn render_before_output_is_open_is_uninitialized() {
    let mut engine = AudioEngine::new();
    let id = engine.create_player();
    assert_eq!(engine.render(id, 4), Err(AudioError::UninitializedOutput));
}

#[test]
fn render_on_unknown_handle_is_not_found() {
    let mut engine = AudioEngine::new();
    assert_eq!(engine.render(3, 4), Err(AudioError::NotFound));
}

#[test]
fn render_drains_queued_samples_in_order() {
    let mut engine = AudioEngine::new();
    let id = engine.create_player();
    engine.play_raw_pcm(id, 48000, 2, vec![1, 2, 3, 4]).unwrap();
    assert_eq!(engine.render(id, 2), Ok(vec![1, 2]));
    assert_eq!(engine.render(id, 4), Ok(vec![3, 4, 0, 0]));
    let snap = engine.get_state(id).unwrap();
    assert!(snap.is_empty);
    assert!(!snap.is_playing);
}

#[test]
fn render_while_paused_is_silence_and_keeps_the_queue() {
    let mut engine = AudioEngine::new();
    let id = engine.create_player();
    engine.play_raw_pcm(id, 48000, 2, vec![9, 8, 7, 6]).unwrap();
    let paused = engine.toggle_playback(id).unwrap();
    assert!(paused.is_paused);
    assert_eq!(engine.render(id, 4), Ok(vec![0, 0, 0, 0]));
    let resumed = engine.toggle_playback(id).unwrap();
    assert!(resumed.is_playing);
    assert_eq!(engine.render(id, 4), Ok(vec![9, 8, 7, 6]));
}

#[test]
fn deinterleave_splits_stereo_frames() {
    let out = deinterleave(&vec![1, -1, 2, -2, 3, -3], 2);
    assert_eq!(out.len(), 2);
    assert_eq!(out[0], vec![1, 2, 3]);
    assert_eq!(out[1], vec![-1, -2, -3]);
}

#[test]
fn deinterleave_mono_is_identity() {
    let out = deinterleave(&vec![4, 5, 6], 1);
    assert_eq!(out.len(), 1);
    assert_eq!(out[0], vec![4, 5, 6]);
}
