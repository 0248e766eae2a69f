use audio_engine::engine::AudioEngine;
use audio_engine::error::AudioError;

#[test]
fn create_then_get_state_reports_idle() {
    let mut engine = AudioEngine::new();
    let id = engine.create_player();
    assert!(id != 0);
    let snap = engine.get_state(id).unwrap();
    assert_eq!(snap.player_id, id);
    assert_eq!(snap.device_id, "default");
    assert_eq!(snap.file_name, "");
    assert!(!snap.has_audio);
    assert!(!snap.is_playing);
    assert!(!snap.is_paused);
    assert!(snap.is_empty);
}

#[test]
fn handles_are_distinct_and_nonzero() {
    let mut engine = AudioEngine::new();
    let a = engine.create_player();
    let b = engine.create_player();
    let c = engine.create_player();
    assert!(a != 0 && b != 0 && c != 0);
    assert!(a != b && b != c && a != c);
}

#[test]
fn destroy_unknown_handle_is_not_found() {
    let mut engine = AudioEngine::new();
    assert_eq!(engine.destroy_player(7), Err(AudioError::NotFound));
}

#[test]
fn destroy_succeeds_exactly_once() {
    let mut engine = AudioEngine::new();
    let id = engine.create_player();
    assert_eq!(engine.destroy_player(id), Ok(()));
    assert_eq!(engine.destroy_player(id), Err(AudioError::NotFound));
    assert!(engine.get_state(id).is_err());
}

#[test]
fn load_asset_reports_audio_under_its_name() {
    let mut engine = AudioEngine::new();
    let id = engine.create_player();
    let snap = engine
        .load_asset(id, vec![1, 2, 3, 4], String::from("x.mp3"))
        .unwrap();
    assert!(snap.has_audio);
    assert_eq!(snap.file_name, "x.mp3");
    let again = engine.get_state(id).unwrap();
    assert!(again.has_audio);
    assert_eq!(again.file_name, "x.mp3");
}

#[test]
fn toggle_does_not_touch_asset_or_name() {
    let mut engine = AudioEngine::new();
    let id = engine.create_player();
    engine
        .load_asset(id, vec![0, 1, 2, 3], String::from("x.mp3"))
        .unwrap();
    // The payload is garbage, so the toggle's decode path fails...
    assert_eq!(engine.toggle_playback(id), Err(AudioError::DecodeError));
    // ...and the stored asset and name are untouched either way.
    let snap = engine.get_state(id).unwrap();
    assert!(snap.has_audio);
    assert_eq!(snap.file_name, "x.mp3");
}

#[test]
fn toggle_without_asset_is_decode_error() {
    let mut engine = AudioEngine::new();
    let id = engine.create_player();
    assert_eq!(engine.toggle_playback(id), Err(AudioError::DecodeError));
}

#[test]
fn stop_is_idempotent() {
    let mut engine = AudioEngine::new();
    let id = engine.create_player();
    engine
        .play_raw_pcm(id, 48000, 2, vec![100, 200, 300, 400])
        .unwrap();
    let first = engine.stop(id).unwrap();
    let second = engine.stop(id).unwrap();
    assert!(!first.is_playing);
    assert!(first.is_empty);
    assert_eq!(first.is_playing, second.is_playing);
    assert_eq!(first.is_paused, second.is_paused);
    assert_eq!(first.is_empty, second.is_empty);
    assert_eq!(first.has_audio, second.has_audio);
    assert_eq!(first.device_id, second.device_id);
    assert_eq!(first.file_name, second.file_name);
}

#[test]
fn transport_pauses_and_resumes_without_reloading() {
    let mut engine = AudioEngine::new();
    let id = engine.create_player();
    let playing = engine
        .play_raw_pcm(id, 48000, 2, vec![10, 20, 30, 40])
        .unwrap();
    assert!(playing.is_playing);
    assert!(!playing.is_paused);
    let paused = engine.toggle_playback(id).unwrap();
    assert!(paused.is_paused);
    assert!(!paused.is_playing);
    assert!(!paused.is_empty);
    let resumed = engine.toggle_playback(id).unwrap();
    assert!(resumed.is_playing);
    assert!(!resumed.is_paused);
    assert!(!resumed.is_empty);
}

#[test]
fn play_raw_pcm_zero_rate_is_invalid_and_harmless() {
    let mut engine = AudioEngine::new();
    let id = engine.create_player();
    let before = engine.get_state(id).unwrap();
    assert_eq!(
        engine.play_raw_pcm(id, 0, 2, vec![1, 2, 3, 4]),
        Err(AudioError::InvalidArgument)
    );
    let after = engine.get_state(id).unwrap();
    assert_eq!(before.is_playing, after.is_playing);
    assert_eq!(before.is_paused, after.is_paused);
    assert_eq!(before.is_empty, after.is_empty);
    assert_eq!(before.has_audio, after.has_audio);
}

#[test]
fn play_raw_pcm_zero_channels_is_invalid() {
    let mut engine = AudioEngine::new();
    let id = engine.create_player();
    assert_eq!(
        engine.play_raw_pcm(id, 48000, 0, vec![1, 2]),
        Err(AudioError::InvalidArgument)
    );
}

#[test]
fn play_raw_pcm_checks_arguments_before_handle() {
    let mut engine = AudioEngine::new();
    assert_eq!(
        engine.play_raw_pcm(99, 0, 2, vec![1]),
        Err(AudioError::InvalidArgument)
    );
    assert_eq!(
        engine.play_raw_pcm(99, 48000, 2, vec![1]),
        Err(AudioError::NotFound)
    );
}

#[test]
fn set_device_rebinds_even_on_failure() {
    let mut engine = AudioEngine::new();
    let id = engine.create_player();
    let snap = engine
        .set_player_device(id, String::from("3"))
        .unwrap();
    assert_eq!(snap.device_id, "3");
    assert_eq!(
        engine.set_player_device(id, String::from("bogus")),
        Err(AudioError::DeviceError)
    );
    // The identifier is rebound although reopening failed: switching is
    // transactional only for the stored identifier.
    let after = engine.get_state(id).unwrap();
    assert_eq!(after.device_id, "bogus");
    assert!(after.is_empty);
}

#[test]
fn set_device_on_unknown_handle_is_not_found() {
    let mut engine = AudioEngine::new();
    assert_eq!(
        engine.set_player_device(5, String::from("default")),
        Err(AudioError::NotFound)
    );
}

#[test]
fn play_raw_on_bogus_device_is_device_error() {
    let mut engine = AudioEngine::new();
    let id = engine.create_player();
    let _ = engine.set_player_device(id, String::from("nonsense"));
    assert_eq!(
        engine.play_raw_pcm(id, 48000, 2, vec![1, 2]),
        Err(AudioError::DeviceError)
    );
}

#[test]
fn load_asset_clears_queued_samples() {
    let mut engine = AudioEngine::new();
    let id = engine.create_player();
    let playing = engine.play_raw_pcm(id, 48000, 2, vec![5, 6, 7, 8]).unwrap();
    assert!(!playing.is_empty);
    let loaded = engine
        .load_asset(id, vec![9, 9, 9], String::from("next.mp3"))
        .unwrap();
    assert!(loaded.is_empty);
    assert!(loaded.has_audio);
}

#[test]
fn error_messages_are_nonempty() {
    let errors = [
        AudioError::NotFound,
        AudioError::DeviceError,
        AudioError::DecodeError,
        AudioError::InvalidArgument,
        AudioError::UninitializedOutput,
        AudioError::Disconnected,
    ];
    for e in errors {
        assert!(!e.message().is_empty());
    }
}
