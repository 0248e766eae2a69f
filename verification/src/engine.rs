//! The audio engine: the full table of players and the command handlers
//! dispatched against it.
//!
//! The engine runs on one dedicated thread of the host; every handler
//! here is a plain function of the engine state and the command payload,
//! so no handler ever observes or leaves a torn state. Each contract
//! states the new player table exactly; a handler that errors leaves the
//! table unchanged, except where switching devices documents otherwise.

use crate::error::AudioError;
use crate::player::{
    fresh_player, load_effect, play_samples_result, set_device_effect, snapshot_of, stop_effect,
    toggle_result, AudioPlayerState, Player, PlayerView,
};
use std::collections::HashMap;
use vstd::prelude::*;

verus! {

/// The opaque handle of one player: never zero while a player lives.
pub type PlayerId = u64;

/// The mathematical state of the engine: the issue counter and the
/// table of live players.
#[verifier::ext_equal]
pub ghost struct EngineView {
    pub next_player_id: u64,
    pub players: Map<u64, PlayerView>,
}

/// The engine: a monotonically increasing handle issuer and one
/// [`Player`] per live handle.
pub struct AudioEngine {
    next_player_id: u64,
    players: HashMap<u64, Player>,
}

impl View for AudioEngine {
    type V = EngineView;

    closed spec fn view(&self) -> EngineView {
        EngineView {
            next_player_id: self.next_player_id,
            players: Map::new(
                |k: u64| self.players@.contains_key(k),
                |k: u64| self.players@[k]@,
            ),
        }
    }
}

/// The handle issued after `n`: the counter wraps to 1 on overflow,
/// skipping 0, which stays a sentinel for "invalid".
pub open spec fn next_handle(n: u64) -> u64 {
    if n == u64::MAX {
        1
    } else {
        (n + 1) as u64
    }
}

impl AudioEngine {
    /// An engine with no players.
    pub fn new() -> (e: AudioEngine)
        ensures
            e@.next_player_id == 0,
            e@.players == Map::<u64, PlayerView>::empty(),
    {
        let e = AudioEngine { next_player_id: 0, players: HashMap::new() };
        proof {
            assert(e@.players =~= Map::<u64, PlayerView>::empty());
        }
        e
    }

    /// Creates a player bound to the default device, with nothing loaded
    /// and no output open, and returns its fresh handle. Never fails.
    pub fn create_player(&mut self) -> (id: PlayerId)
        ensures
            id == next_handle(old(self)@.next_player_id),
            id != 0,
            final(self)@.next_player_id == id,
            final(self)@.players == old(self)@.players.insert(id, fresh_player()),
    {
        let next = self.next_player_id.wrapping_add(1);
        let id: u64 = if next == 0 {
            1
        } else {
            next
        };
        self.next_player_id = id;
        self.players.insert(id, Player::new());
        proof {
            assert(self@.players =~= old(self)@.players.insert(id, fresh_player()));
        }
        id
    }

    /// Removes a player, releasing everything it held; fails with
    /// `NotFound`, changing nothing, exactly when the handle is unknown.
    pub fn destroy_player(&mut self, player_id: PlayerId) -> (r: Result<(), AudioError>)
        ensures
            r is Ok <==> old(self)@.players.contains_key(player_id),
            r is Ok ==> final(self)@.players == old(self)@.players.remove(player_id),
            final(self)@.next_player_id == old(self)@.next_player_id,
            r is Err ==> final(self)@ == old(self)@ && r == Err::<(), AudioError>(
                AudioError::NotFound,
            ),
    {
        match self.players.remove(&player_id) {
            Some(_) => {
                proof {
                    assert(self@.players =~= old(self)@.players.remove(player_id));
                }
                Ok(())
            },
            None => {
                proof {
                    assert(self@ =~~= old(self)@);
                }
                Err(AudioError::NotFound)
            },
        }
    }

    /// A pure read of one player's snapshot; fails with `NotFound`
    /// exactly when the handle is unknown, and never mutates.
    pub fn get_state(&self, player_id: PlayerId) -> (r: Result<AudioPlayerState, AudioError>)
        ensures
            r is Ok <==> self@.players.contains_key(player_id),
            r matches Ok(s) ==> s@ == snapshot_of(player_id, self@.players[player_id]),
            r is Err ==> r == Err::<AudioPlayerState, AudioError>(AudioError::NotFound),
    {
        match self.players.get(&player_id) {
            Some(p) => Ok(p.state(player_id)),
            None => Err(AudioError::NotFound),
        }
    }

    /// Rebinds a player's device and eagerly reopens its output. The
    /// identifier is rebound and the old output torn down even when the
    /// new device does not resolve; switching is transactional only for
    /// the stored identifier, not for resource availability.
    pub fn set_player_device(&mut self, player_id: PlayerId, device_id: String) -> (r: Result<
        AudioPlayerState,
        AudioError,
    >)
        ensures
            final(self)@.next_player_id == old(self)@.next_player_id,
            !old(self)@.players.contains_key(player_id) ==> final(self)@ == old(self)@ && r
                == Err::<AudioPlayerState, AudioError>(AudioError::NotFound),
            old(self)@.players.contains_key(player_id) ==> {
                let p2 = set_device_effect(old(self)@.players[player_id], device_id@);
                &&& final(self)@.players == old(self)@.players.insert(player_id, p2)
                &&& crate::device::device_id_ok(device_id@) ==> (r matches Ok(s) && s@
                    == snapshot_of(player_id, p2))
                &&& !crate::device::device_id_ok(device_id@) ==> r == Err::<
                    AudioPlayerState,
                    AudioError,
                >(AudioError::DeviceError)
            },
    {
        let mut p = match self.players.remove(&player_id) {
            Some(p) => p,
            None => {
                proof {
                    assert(self@ =~~= old(self)@);
                }
                return Err(AudioError::NotFound);
            },
        };
        let res = p.set_device(device_id);
        let snap = p.state(player_id);
        self.players.insert(player_id, p);
        proof {
            assert(self@.players =~= old(self)@.players.insert(
                player_id,
                set_device_effect(old(self)@.players[player_id], device_id@),
            ));
        }
        match res {
            Ok(()) => Ok(snap),
            Err(e) => Err(e),
        }
    }

    /// Stores a compressed asset on a player, clearing any queued
    /// samples; fails with `NotFound`, changing nothing, exactly when
    /// the handle is unknown.
    pub fn load_asset(&mut self, player_id: PlayerId, bytes: Vec<u8>, file_name: String) -> (r: Result<
        AudioPlayerState,
        AudioError,
    >)
        ensures
            final(self)@.next_player_id == old(self)@.next_player_id,
            !old(self)@.players.contains_key(player_id) ==> final(self)@ == old(self)@ && r
                == Err::<AudioPlayerState, AudioError>(AudioError::NotFound),
            old(self)@.players.contains_key(player_id) ==> {
                let p2 = load_effect(old(self)@.players[player_id], bytes@, file_name@);
                &&& final(self)@.players == old(self)@.players.insert(player_id, p2)
                &&& r matches Ok(s) && s@ == snapshot_of(player_id, p2)
            },
    {
        let mut p = match self.players.remove(&player_id) {
            Some(p) => p,
            None => {
                proof {
                    assert(self@ =~~= old(self)@);
                }
                return Err(AudioError::NotFound);
            },
        };
        p.load_asset(bytes, file_name);
        let snap = p.state(player_id);
        self.players.insert(player_id, p);
        proof {
            assert(self@.players =~= old(self)@.players.insert(
                player_id,
                load_effect(old(self)@.players[player_id], bytes@, file_name@),
            ));
        }
        Ok(snap)
    }

    /// One step of a player's transport state machine; the player is
    /// left untouched whenever an error is reported.
    pub fn toggle_playback(&mut self, player_id: PlayerId) -> (r: Result<
        AudioPlayerState,
        AudioError,
    >)
        ensures
            final(self)@.next_player_id == old(self)@.next_player_id,
            !old(self)@.players.contains_key(player_id) ==> final(self)@ == old(self)@ && r
                == Err::<AudioPlayerState, AudioError>(AudioError::NotFound),
            old(self)@.players.contains_key(player_id) ==> match toggle_result(
                old(self)@.players[player_id],
            ) {
                Ok(p2) => {
                    &&& final(self)@.players == old(self)@.players.insert(player_id, p2)
                    &&& r matches Ok(s) && s@ == snapshot_of(player_id, p2)
                },
                Err(e) => final(self)@ == old(self)@ && r == Err::<AudioPlayerState, AudioError>(
                    e,
                ),
            },
    {
        let mut p = match self.players.remove(&player_id) {
            Some(p) => p,
            None => {
                proof {
                    assert(self@ =~~= old(self)@);
                }
                return Err(AudioError::NotFound);
            },
        };
        let res = p.toggle();
        let snap = p.state(player_id);
        self.players.insert(player_id, p);
        proof {
            match toggle_result(old(self)@.players[player_id]) {
                Ok(p2) => {
                    assert(self@.players =~= old(self)@.players.insert(player_id, p2));
                },
                Err(_) => {
                    assert(self@ =~~= old(self)@);
                },
            }
        }
        match res {
            Ok(()) => Ok(snap),
            Err(e) => Err(e),
        }
    }

    /// Clears a player's queue and forces pause without tearing down its
    /// output, so repeated stop/play cycles stay cheap. Idempotent.
    pub fn stop(&mut self, player_id: PlayerId) -> (r: Result<AudioPlayerState, AudioError>)
        ensures
            final(self)@.next_player_id == old(self)@.next_player_id,
            !old(self)@.players.contains_key(player_id) ==> final(self)@ == old(self)@ && r
                == Err::<AudioPlayerState, AudioError>(AudioError::NotFound),
            old(self)@.players.contains_key(player_id) ==> {
                let p2 = stop_effect(old(self)@.players[player_id]);
                &&& final(self)@.players == old(self)@.players.insert(player_id, p2)
                &&& r matches Ok(s) && s@ == snapshot_of(player_id, p2)
            },
    {
        let mut p = match self.players.remove(&player_id) {
            Some(p) => p,
            None => {
                proof {
                    assert(self@ =~~= old(self)@);
                }
                return Err(AudioError::NotFound);
            },
        };
        p.stop();
        let snap = p.state(player_id);
        self.players.insert(player_id, p);
        proof {
            assert(self@.players =~= old(self)@.players.insert(
                player_id,
                stop_effect(old(self)@.players[player_id]),
            ));
        }
        Ok(snap)
    }

    /// Enqueues externally synthesized samples for immediate playback,
    /// bypassing the decode path; the loaded asset is ignored and the
    /// transport is forced to playing. A zero rate or channel count is
    /// rejected before the handle is looked up, and an error leaves the
    /// player's state untouched.
    pub fn play_raw_pcm(
        &mut self,
        player_id: PlayerId,
        sample_rate: u32,
        channels: u16,
        samples: Vec<i16>,
    ) -> (r: Result<AudioPlayerState, AudioError>)
        ensures
            final(self)@.next_player_id == old(self)@.next_player_id,
            sample_rate == 0 || channels == 0 ==> final(self)@ == old(self)@ && r == Err::<
                AudioPlayerState,
                AudioError,
            >(AudioError::InvalidArgument),
            sample_rate > 0 && channels > 0 && !old(self)@.players.contains_key(player_id)
                ==> final(self)@ == old(self)@ && r == Err::<AudioPlayerState, AudioError>(
                AudioError::NotFound,
            ),
            sample_rate > 0 && channels > 0 && old(self)@.players.contains_key(player_id)
                ==> match play_samples_result(
                old(self)@.players[player_id],
                samples@,
                sample_rate,
                channels,
            ) {
                Ok(p2) => {
                    &&& final(self)@.players == old(self)@.players.insert(player_id, p2)
                    &&& r matches Ok(s) && s@ == snapshot_of(player_id, p2)
                },
                Err(e) => final(self)@ == old(self)@ && r == Err::<AudioPlayerState, AudioError>(
                    e,
                ),
            },
    {
        if sample_rate == 0 {
            return Err(AudioError::InvalidArgument);
        }
        if channels == 0 {
            return Err(AudioError::InvalidArgument);
        }
        let mut p = match self.players.remove(&player_id) {
            Some(p) => p,
            None => {
                proof {
                    assert(self@ =~~= old(self)@);
                }
                return Err(AudioError::NotFound);
            },
        };
        let res = p.play_samples(samples, sample_rate, channels);
        let snap = p.state(player_id);
        self.players.insert(player_id, p);
        proof {
            match play_samples_result(
                old(self)@.players[player_id],
                samples@,
                sample_rate,
                channels,
            ) {
                Ok(p2) => {
                    assert(self@.players =~= old(self)@.players.insert(player_id, p2));
                },
                Err(_) => {
                    assert(self@ =~~= old(self)@);
                },
            }
        }
        match res {
            Ok(()) => Ok(snap),
            Err(e) => Err(e),
        }
    }
    /// One render pass of `n` samples from a player's queue, as the
    /// hardware callback consumes them: silence while paused, the front
    /// of the queue padded with silence otherwise. Fails with
    /// `UninitializedOutput` when no output is open, and never fails
    /// otherwise — the consumer side must always be served.
    pub fn render(&mut self, player_id: PlayerId, n: usize) -> (r: Result<Vec<i16>, AudioError>)
        ensures
            final(self)@.next_player_id == old(self)@.next_player_id,
            !old(self)@.players.contains_key(player_id) ==> final(self)@ == old(self)@ && r
                == Err::<Vec<i16>, AudioError>(AudioError::NotFound),
            old(self)@.players.contains_key(player_id) ==> {
                let p = old(self)@.players[player_id];
                &&& p.output is None ==> final(self)@ == old(self)@ && r == Err::<
                    Vec<i16>,
                    AudioError,
                >(AudioError::UninitializedOutput)
                &&& p.output is Some ==> {
                    let o = p.output->Some_0;
                    &&& r is Ok
                    &&& r->Ok_0@.len() == n
                    &&& o.buffer.paused ==> r->Ok_0@ == crate::buffer::silence(n as nat)
                        && final(self)@ == old(self)@
                    &&& !o.buffer.paused ==> {
                        &&& r->Ok_0@ == crate::buffer::rendered(o.buffer.samples, n as nat)
                        &&& final(self)@.players == old(self)@.players.insert(
                            player_id,
                            render_effect(p, n as nat),
                        )
                    }
                }
            },
    {
        let mut p = match self.players.remove(&player_id) {
            Some(p) => p,
            None => {
                proof {
                    assert(self@ =~~= old(self)@);
                }
                return Err(AudioError::NotFound);
            },
        };
        let res = p.render(n);
        self.players.insert(player_id, p);
        proof {
            let q = old(self)@.players[player_id];
            if q.output is Some && !q.output->Some_0.buffer.paused {
                assert(self@.players =~= old(self)@.players.insert(
                    player_id,
                    render_effect(q, n as nat),
                ));
            } else {
                assert(self@ =~~= old(self)@);
            }
        }
        res
    }
}

/// What one unpaused render pass of `n` samples leaves behind: the pass
/// consumed the front of the queue.
pub open spec fn render_effect(p: PlayerView, n: nat) -> PlayerView
    recommends
        p.output is Some,
{
    PlayerView {
        output: match p.output {
            Some(o) => Some(
                crate::player::OutputView {
                    buffer: crate::buffer::BufferView {
                        samples: crate::buffer::remaining(o.buffer.samples, n),
                        paused: false,
                    },
                    running: o.running,
                },
            ),
            None => None,
        },
        ..p
    }
}

/// A destroyed handle stays destroyed: removing a live player leaves a
/// table in which the same handle no longer names anyone, so a second
/// destroy of it must report `NotFound`.
pub proof fn lemma_destroy_twice(players: Map<u64, PlayerView>, h: u64)
    requires
        players.contains_key(h),
    ensures
        !players.remove(h).contains_key(h),
{
}

} // verus!
