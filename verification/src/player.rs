//! One player: its bound device, its loaded asset, its lazily opened
//! output resources, and the transport state machine over them.
//!
//! Every transition is stated as a spec function over [`PlayerView`], and
//! each executable method is proved to realise its transition exactly,
//! leaving the player untouched whenever it reports an error.

use crate::buffer::{BufferView, SharedBuffer};
use crate::convert::{channels_len, convert_checked, convert_len, convert_spec};
use crate::decode::{decode_asset, mp3_decode};
use crate::device::{default_device_id, device_id_ok, resolve_device_id};
use crate::error::AudioError;
use vstd::prelude::*;

verus! {

/// Every open output stream renders at this rate.
pub const OUTPUT_SAMPLE_RATE: u32 = 48000;

/// Every open output stream renders this many channels.
pub const OUTPUT_CHANNELS: u16 = 2;

/// The open output resources of one player: the FIFO buffer shared with
/// the render callback, and whether the hardware unit has been started.
pub struct OutputState {
    buffer: SharedBuffer,
    running: bool,
}

/// The mathematical state of a player's output resources.
#[verifier::ext_equal]
pub ghost struct OutputView {
    pub buffer: BufferView,
    pub running: bool,
}

impl View for OutputState {
    type V = OutputView;

    closed spec fn view(&self) -> OutputView {
        OutputView { buffer: self.buffer@, running: self.running }
    }
}

/// One player of the engine.
pub struct Player {
    device_id: String,
    output: Option<OutputState>,
    asset: Option<Vec<u8>>,
    file_name: String,
}

/// The mathematical state of one player.
#[verifier::ext_equal]
pub ghost struct PlayerView {
    pub device_id: Seq<char>,
    pub output: Option<OutputView>,
    pub asset: Option<Seq<u8>>,
    pub file_name: Seq<char>,
}

impl View for Player {
    type V = PlayerView;

    closed spec fn view(&self) -> PlayerView {
        PlayerView {
            device_id: self.device_id@,
            output: match self.output {
                Some(o) => Some(o@),
                None => None,
            },
            asset: match self.asset {
                Some(b) => Some(b@),
                None => None,
            },
            file_name: self.file_name@,
        }
    }
}

/// The immutable projection of one player handed back to callers.
#[derive(Debug, PartialEq, Eq)]
pub struct AudioPlayerState {
    pub player_id: u64,
    pub device_id: String,
    pub file_name: String,
    pub has_audio: bool,
    pub is_playing: bool,
    pub is_paused: bool,
    pub is_empty: bool,
}

/// The mathematical content of a snapshot.
#[verifier::ext_equal]
pub ghost struct SnapshotView {
    pub player_id: u64,
    pub device_id: Seq<char>,
    pub file_name: Seq<char>,
    pub has_audio: bool,
    pub is_playing: bool,
    pub is_paused: bool,
    pub is_empty: bool,
}

impl View for AudioPlayerState {
    type V = SnapshotView;

    open spec fn view(&self) -> SnapshotView {
        SnapshotView {
            player_id: self.player_id,
            device_id: self.device_id@,
            file_name: self.file_name@,
            has_audio: self.has_audio,
            is_playing: self.is_playing,
            is_paused: self.is_paused,
            is_empty: self.is_empty,
        }
    }
}

/// The snapshot a player yields: `is_playing` is never stored, it is
/// recomputed as "not paused and samples queued", so a player whose
/// buffer has drained reports itself as not playing.
pub open spec fn snapshot_of(id: u64, p: PlayerView) -> SnapshotView {
    let paused = match p.output {
        Some(o) => o.buffer.paused,
        None => false,
    };
    let empty = match p.output {
        Some(o) => o.buffer.samples.len() == 0,
        None => true,
    };
    SnapshotView {
        player_id: id,
        device_id: p.device_id,
        file_name: p.file_name,
        has_audio: p.asset is Some,
        is_playing: !paused && !empty,
        is_paused: paused,
        is_empty: empty,
    }
}

/// Freshly opened output: empty buffer, not paused, unit not started.
pub open spec fn fresh_output() -> OutputView {
    OutputView { buffer: BufferView { samples: Seq::empty(), paused: false }, running: false }
}

/// A freshly created player: bound to the default device, nothing loaded,
/// no output open.
pub open spec fn fresh_player() -> PlayerView {
    PlayerView {
        device_id: default_device_id(),
        output: None,
        asset: None,
        file_name: Seq::empty(),
    }
}

/// Loading an asset replaces the payload and name and clears any queued
/// samples, so stale audio from a previous asset cannot leak into later
/// playback; the pause flag and the hardware unit are untouched.
pub open spec fn load_effect(p: PlayerView, bytes: Seq<u8>, name: Seq<char>) -> PlayerView {
    PlayerView {
        asset: Some(bytes),
        file_name: name,
        output: match p.output {
            Some(o) => Some(
                OutputView {
                    buffer: BufferView { samples: Seq::empty(), paused: o.buffer.paused },
                    running: o.running,
                },
            ),
            None => None,
        },
        ..p
    }
}

/// Stopping clears the queue and forces pause, so the next playback
/// starts from the beginning; output resources stay open.
pub open spec fn stop_effect(p: PlayerView) -> PlayerView {
    PlayerView {
        output: match p.output {
            Some(o) => Some(
                OutputView {
                    buffer: BufferView { samples: Seq::empty(), paused: true },
                    running: o.running,
                },
            ),
            None => None,
        },
        ..p
    }
}

/// Resuming clears the pause flag and starts the hardware unit; queued
/// samples are kept, so playback continues exactly where it paused.
pub open spec fn resume_effect(p: PlayerView) -> PlayerView
    recommends
        p.output is Some,
{
    PlayerView {
        output: match p.output {
            Some(o) => Some(
                OutputView {
                    buffer: BufferView { samples: o.buffer.samples, paused: false },
                    running: true,
                },
            ),
            None => None,
        },
        ..p
    }
}

/// Pausing raises the pause flag and nothing else; the hardware keeps
/// running and renders silence, so resuming has no reopen latency.
pub open spec fn pause_effect(p: PlayerView) -> PlayerView
    recommends
        p.output is Some,
{
    PlayerView {
        output: match p.output {
            Some(o) => Some(
                OutputView {
                    buffer: BufferView { samples: o.buffer.samples, paused: true },
                    running: o.running,
                },
            ),
            None => None,
        },
        ..p
    }
}

/// Lazily opening output: a no-op when it is already open, fresh
/// resources when the bound device identifier resolves.
pub open spec fn ensure_output_effect(p: PlayerView) -> PlayerView
    recommends
        p.output is Some || device_id_ok(p.device_id),
{
    if p.output is Some {
        p
    } else {
        PlayerView { output: Some(fresh_output()), ..p }
    }
}

/// Switching devices tears down the old output unconditionally, rebinds
/// the identifier, and reopens eagerly; when the new identifier does not
/// resolve, the identifier is still rebound and the output stays closed.
pub open spec fn set_device_effect(p: PlayerView, dev: Seq<char>) -> PlayerView {
    if device_id_ok(dev) {
        PlayerView { device_id: dev, output: Some(fresh_output()), ..p }
    } else {
        PlayerView { device_id: dev, output: None, ..p }
    }
}

/// Enqueueing converted samples appends them behind whatever is queued,
/// clears the pause flag and starts the hardware unit.
pub open spec fn enqueue_effect(p: PlayerView, converted: Seq<i16>) -> PlayerView
    recommends
        p.output is Some,
{
    PlayerView {
        output: match p.output {
            Some(o) => Some(
                OutputView {
                    buffer: BufferView {
                        samples: o.buffer.samples + converted,
                        paused: false,
                    },
                    running: true,
                },
            ),
            None => None,
        },
        ..p
    }
}

/// The outcome of playing raw samples: rejected arguments first, then a
/// converted signal too large for this machine, then an unresolvable
/// device; otherwise the samples are converted to the output stream
/// format and enqueued.
pub open spec fn play_samples_result(p: PlayerView, s: Seq<i16>, sr: u32, ch: u16) -> Result<
    PlayerView,
    AudioError,
> {
    if sr == 0 || ch == 0 {
        Err(AudioError::InvalidArgument)
    } else if !(channels_len(s.len(), ch as nat, OUTPUT_CHANNELS as nat) <= usize::MAX
        && convert_len(
        s.len(),
        sr as nat,
        ch as nat,
        OUTPUT_SAMPLE_RATE as nat,
        OUTPUT_CHANNELS as nat,
    ) <= usize::MAX) {
        Err(AudioError::InvalidArgument)
    } else if p.output is None && !device_id_ok(p.device_id) {
        Err(AudioError::DeviceError)
    } else {
        Ok(
            enqueue_effect(
                ensure_output_effect(p),
                convert_spec(
                    s,
                    sr as nat,
                    ch as nat,
                    OUTPUT_SAMPLE_RATE as nat,
                    OUTPUT_CHANNELS as nat,
                ),
            ),
        )
    }
}

/// The outcome of the decode path of a toggle: no asset or an
/// undecodable asset fails with `DecodeError` and changes nothing,
/// otherwise the decoded signal is played.
pub open spec fn toggle_decode_result(p: PlayerView) -> Result<PlayerView, AudioError> {
    match p.asset {
        None => Err(AudioError::DecodeError),
        Some(bytes) => match mp3_decode(bytes) {
            None => Err(AudioError::DecodeError),
            Some(d) => play_samples_result(p, d.0, d.1, d.2),
        },
    }
}

/// The transport state machine of one toggle: a paused player resumes,
/// a player with queued samples pauses, and otherwise the loaded asset
/// is decoded and enqueued from the start.
pub open spec fn toggle_result(p: PlayerView) -> Result<PlayerView, AudioError> {
    match p.output {
        Some(o) => {
            if o.buffer.paused {
                Ok(resume_effect(p))
            } else if o.buffer.samples.len() > 0 {
                Ok(pause_effect(p))
            } else {
                toggle_decode_result(p)
            }
        },
        None => toggle_decode_result(p),
    }
}

impl Player {
    /// A freshly created player.
    pub fn new() -> (p: Player)
        ensures
            p@ == fresh_player(),
    {
        let p = Player {
            device_id: String::from_str("default"),
            output: None,
            asset: None,
            file_name: String::new(),
        };
        proof {
            assert(p@ =~~= fresh_player());
        }
        p
    }

    /// The player's current snapshot.
    pub fn state(&self, player_id: u64) -> (s: AudioPlayerState)
        ensures
            s@ == snapshot_of(player_id, self@),
    {
        let (is_paused, is_empty) = match &self.output {
            Some(o) => (o.buffer.is_paused(), o.buffer.is_empty()),
            None => (false, true),
        };
        let s = AudioPlayerState {
            player_id,
            device_id: self.device_id.clone(),
            file_name: self.file_name.clone(),
            has_audio: self.asset.is_some(),
            is_playing: !is_paused && !is_empty,
            is_paused,
            is_empty,
        };
        proof {
            assert(s@ =~~= snapshot_of(player_id, self@));
        }
        s
    }

    /// Opens output resources if they are not open yet; fails with
    /// `DeviceError`, touching nothing, exactly when the bound device
    /// identifier does not resolve.
    fn ensure_output(&mut self) -> (r: Result<(), AudioError>)
        ensures
            r is Ok <==> (old(self)@.output is Some || device_id_ok(old(self)@.device_id)),
            r is Ok ==> final(self)@ == ensure_output_effect(old(self)@),
            r is Err ==> final(self)@ == old(self)@ && r == Err::<(), AudioError>(
                AudioError::DeviceError,
            ),
    {
        if self.output.is_some() {
            return Ok(());
        }
        match resolve_device_id(self.device_id.as_str()) {
            Ok(_) => {
                self.output = Some(OutputState { buffer: SharedBuffer::new(), running: false });
                proof {
                    assert(self@ =~~= ensure_output_effect(old(self)@));
                }
                Ok(())
            },
            Err(e) => Err(e),
        }
    }

    /// Tears down the output, rebinds the device identifier, and reopens
    /// eagerly; `DeviceError` reports an identifier that does not
    /// resolve, with the identifier rebound all the same.
    pub fn set_device(&mut self, device_id: String) -> (r: Result<(), AudioError>)
        ensures
            final(self)@ == set_device_effect(old(self)@, device_id@),
            r is Ok <==> device_id_ok(device_id@),
            r is Err ==> r == Err::<(), AudioError>(AudioError::DeviceError),
    {
        self.output = None;
        self.device_id = device_id;
        let r = self.ensure_output();
        proof {
            assert(self@ =~~= set_device_effect(old(self)@, device_id@));
        }
        r
    }

    /// Replaces the loaded asset and clears any queued samples.
    pub fn load_asset(&mut self, bytes: Vec<u8>, file_name: String)
        ensures
            final(self)@ == load_effect(old(self)@, bytes@, file_name@),
    {
        self.asset = Some(bytes);
        self.file_name = file_name;
        match &mut self.output {
            Some(o) => {
                o.buffer.clear();
            },
            None => {},
        }
        proof {
            assert(self@ =~~= load_effect(old(self)@, bytes@, file_name@));
        }
    }

    /// Clears the queue and forces pause; output resources stay open, so
    /// stopping a stopped player changes nothing and always succeeds.
    pub fn stop(&mut self)
        ensures
            final(self)@ == stop_effect(old(self)@),
    {
        match &mut self.output {
            Some(o) => {
                o.buffer.clear();
                o.buffer.pause();
            },
            None => {},
        }
        proof {
            assert(self@ =~~= stop_effect(old(self)@));
        }
    }

    /// Converts `samples` to the output stream format and enqueues them
    /// for immediate playback, forcing the transport to playing.
    pub fn play_samples(&mut self, samples: Vec<i16>, source_rate: u32, source_channels: u16) -> (r:
        Result<(), AudioError>)
        ensures
            match play_samples_result(old(self)@, samples@, source_rate, source_channels) {
                Ok(p2) => r is Ok && final(self)@ == p2,
                Err(e) => r == Err::<(), AudioError>(e) && final(self)@ == old(self)@,
            },
    {
        if source_rate == 0 || source_channels == 0 {
            return Err(AudioError::InvalidArgument);
        }
        match convert_checked(
            &samples,
            source_rate,
            source_channels,
            OUTPUT_SAMPLE_RATE,
            OUTPUT_CHANNELS,
        ) {
            None => Err(AudioError::InvalidArgument),
            Some(converted) => {
                match self.ensure_output() {
                    Ok(()) => {},
                    Err(e) => {
                        return Err(e);
                    },
                }
                match &mut self.output {
                    Some(o) => {
                        o.buffer.push_samples(converted.as_slice());
                        o.buffer.resume();
                        o.running = true;
                        proof {
                            assert(self@ =~~= enqueue_effect(
                                ensure_output_effect(old(self)@),
                                convert_spec(
                                    samples@,
                                    source_rate as nat,
                                    source_channels as nat,
                                    OUTPUT_SAMPLE_RATE as nat,
                                    OUTPUT_CHANNELS as nat,
                                ),
                            ));
                        }
                        Ok(())
                    },
                    None => {
                        proof {
                            assert(false);
                        }
                        Err(AudioError::UninitializedOutput)
                    },
                }
            },
        }
    }

    /// One render pass of `n` samples for the hardware: silence while
    /// paused, the front of the queue padded with silence otherwise.
    /// Fails with `UninitializedOutput`, changing nothing, exactly when
    /// no output is open.
    pub fn render(&mut self, n: usize) -> (r: Result<Vec<i16>, AudioError>)
        ensures
            old(self)@.output is None ==> r == Err::<Vec<i16>, AudioError>(
                AudioError::UninitializedOutput,
            ) && final(self)@ == old(self)@,
            old(self)@.output is Some ==> {
                let o = old(self)@.output->Some_0;
                &&& r is Ok
                &&& r->Ok_0@.len() == n
                &&& o.buffer.paused ==> r->Ok_0@ == crate::buffer::silence(n as nat)
                    && final(self)@ == old(self)@
                &&& !o.buffer.paused ==> {
                    &&& r->Ok_0@ == crate::buffer::rendered(o.buffer.samples, n as nat)
                    &&& final(self)@ == (PlayerView {
                        output: Some(
                            OutputView {
                                buffer: BufferView {
                                    samples: crate::buffer::remaining(o.buffer.samples, n as nat),
                                    paused: false,
                                },
                                running: o.running,
                            },
                        ),
                        ..old(self)@
                    })
                }
            },
    {
        match &mut self.output {
            Some(o) => {
                let out = o.buffer.render(n);
                proof {
                    if !old(self)@.output->Some_0.buffer.paused {
                        assert(self@ =~~= (PlayerView {
                            output: Some(
                                OutputView {
                                    buffer: BufferView {
                                        samples: crate::buffer::remaining(
                                            old(self)@.output->Some_0.buffer.samples,
                                            n as nat,
                                        ),
                                        paused: false,
                                    },
                                    running: old(self)@.output->Some_0.running,
                                },
                            ),
                            ..old(self)@
                        }));
                    } else {
                        assert(self@ =~~= old(self)@);
                    }
                }
                Ok(out)
            },
            None => Err(AudioError::UninitializedOutput),
        }
    }

    /// One step of the transport state machine: resume when paused,
    /// pause when playing, and otherwise decode the loaded asset and
    /// play it from the start.
    pub fn toggle(&mut self) -> (r: Result<(), AudioError>)
        ensures
            match toggle_result(old(self)@) {
                Ok(p2) => r is Ok && final(self)@ == p2,
                Err(e) => r == Err::<(), AudioError>(e) && final(self)@ == old(self)@,
            },
    {
        match &mut self.output {
            Some(o) => {
                if o.buffer.is_paused() {
                    o.buffer.resume();
                    o.running = true;
                    proof {
                        assert(self@ =~~= resume_effect(old(self)@));
                    }
                    return Ok(());
                }
                if !o.buffer.is_empty() {
                    o.buffer.pause();
                    proof {
                        assert(self@ =~~= pause_effect(old(self)@));
                    }
                    return Ok(());
                }
            },
            None => {},
        }
        let decoded = match &self.asset {
            Some(bytes) => decode_asset(bytes),
            None => {
                return Err(AudioError::DecodeError);
            },
        };
        match decoded {
            Ok((samples, rate, ch)) => self.play_samples(samples, rate, ch),
            Err(e) => Err(e),
        }
    }
}

} // verus!
