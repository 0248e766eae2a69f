use audio_engine::engine::AudioEngine;
use audio_engine::error::AudioError;

/// One silent MPEG-1 Layer III frame: 44.1 kHz, 128 kbit/s, stereo, no
/// padding. The frame is 417 bytes; an all-zero side-info block encodes
/// silence.
fn silent_mp3_frame() -> Vec<u8> {
    let mut frame = vec![0u8; 417];
    frame[0] = 0xFF;
    frame[1] = 0xFB;
    frame[2] = 0x90;
    frame[3] = 0x00;
    frame
}

fn silent_mp3(frames: usize) -> Vec<u8> {
    let mut bytes = Vec::new();
    for _ in 0..frames {
        bytes.extend_from_slice(&silent_mp3_frame());
    }
    bytes
}

#[test]
fn a_valid_asset_decodes_and_starts_playing() {
    let mut engine = AudioEngine::new();
    let id = engine.create_player();
    engine
        .load_asset(id, silent_mp3(8), String::from("silence.mp3"))
        .unwrap();
    let snap = engine.toggle_playback(id).unwrap();
    assert!(snap.has_audio);
    assert!(snap.is_playing);
    assert!(!snap.is_empty);
}

/// One MPEG-1 Layer III stereo frame that carries only a Xing tag: the
/// demuxer consumes it as metadata, so the stream holds no audio packet
/// at all — the shape of a file truncated right after its encoder
/// header frame. Decoding it must fail as a value, not any other way.
fn xing_tag_only_mp3() -> Vec<u8> {
    let mut frame = silent_mp3_frame();
    // The tag sits after the 4-byte header and the 32 zeroed bytes of
    // side information; its flags word says no further fields follow.
    frame[36] = b'X';
    frame[37] = b'i';
    frame[38] = b'n';
    frame[39] = b'g';
    frame
}

#[test]
fn metadata_only_stream_fails_with_decode_error() {
    let mut engine = AudioEngine::new();
    let id = engine.create_player();
    engine
        .load_asset(id, xing_tag_only_mp3(), String::from("truncated.mp3"))
        .unwrap();
    assert_eq!(engine.toggle_playback(id), Err(AudioError::DecodeError));
    let snap = engine.get_state(id).unwrap();
    assert!(snap.has_audio);
    assert!(!snap.is_playing);
}

#[test]
fn garbage_bytes_fail_with_decode_error() {
    let mut engine = AudioEngine::new();
    let id = engine.create_player();
    engine
        .load_asset(id, vec![0xDE, 0xAD, 0xBE, 0xEF], String::from("junk.mp3"))
        .unwrap();
    assert_eq!(engine.toggle_playback(id), Err(AudioError::DecodeError));
}

#[test]
fn full_transport_cycle_decodes_only_once() {
    let mut engine = AudioEngine::new();
    let id = engine.create_player();
    engine
        .load_asset(id, silent_mp3(8), String::from("silence.mp3"))
        .unwrap();
    let playing = engine.toggle_playback(id).unwrap();
    assert!(playing.is_playing);
    let paused = engine.toggle_playback(id).unwrap();
    assert!(paused.is_paused);
    assert!(!paused.is_playing);
    // Resuming must not re-touch the stored bytes: corrupt them first.
    engine
        .load_asset(id, vec![0xBA, 0xD0], String::from("silence.mp3"))
        .unwrap();
    // Loading cleared the queue, so re-seed playback through the raw
    // path, pause it, and resume: no decode happens on resume.
    engine.play_raw_pcm(id, 48000, 2, vec![1, 2, 3, 4]).unwrap();
    let paused_again = engine.toggle_playback(id).unwrap();
    assert!(paused_again.is_paused);
    let resumed = engine.toggle_playback(id).unwrap();
    assert!(resumed.is_playing);
    assert!(!resumed.is_empty);
}
