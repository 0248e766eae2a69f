//! Engine-wide laws: properties that relate several operations, proved
//! once over the transition functions that the operation contracts are
//! stated with.

use crate::convert::{
    channels_len, convert_len, convert_spec, lemma_rate_converted_len, rate_converted,
};
use crate::decode::mp3_decode;
use crate::device::{default_device_id, device_id_ok};
use crate::engine::render_effect;
use crate::player::{
    fresh_player, load_effect, pause_effect, resume_effect, snapshot_of, stop_effect,
    toggle_result, PlayerView, SnapshotView, OUTPUT_CHANNELS, OUTPUT_SAMPLE_RATE,
};
use vstd::prelude::*;

verus! {

/// A freshly created player reports no audio, not playing, not paused,
/// and an empty queue, whatever handle it was issued; so `get_state`
/// straight after `create_player` always answers exactly this.
pub proof fn lemma_fresh_player_snapshot(id: u64)
    ensures
        snapshot_of(id, fresh_player()) == (SnapshotView {
            player_id: id,
            device_id: default_device_id(),
            file_name: Seq::<char>::empty(),
            has_audio: false,
            is_playing: false,
            is_paused: false,
            is_empty: true,
        }),
{
    assert(snapshot_of(id, fresh_player()) =~~= (SnapshotView {
        player_id: id,
        device_id: default_device_id(),
        file_name: Seq::<char>::empty(),
        has_audio: false,
        is_playing: false,
        is_paused: false,
        is_empty: true,
    }));
}

/// After loading an asset the player reports audio under the loaded
/// name, in every starting state.
pub proof fn lemma_load_sets_asset(id: u64, p: PlayerView, bytes: Seq<u8>, name: Seq<char>)
    ensures
        snapshot_of(id, load_effect(p, bytes, name)).has_audio,
        snapshot_of(id, load_effect(p, bytes, name)).file_name == name,
{
}

/// A toggle never touches the loaded asset or its name: whatever the
/// transport does, `has_audio` and `file_name` come out unchanged.
pub proof fn lemma_toggle_preserves_asset(p: PlayerView)
    ensures
        toggle_result(p) matches Ok(p2) ==> p2.asset == p.asset && p2.file_name == p.file_name,
{
}

/// Stopping is idempotent: a second stop changes nothing, and a stopped
/// player reports not playing with an empty queue.
pub proof fn lemma_stop_idempotent(id: u64, p: PlayerView)
    ensures
        stop_effect(stop_effect(p)) == stop_effect(p),
        !snapshot_of(id, stop_effect(p)).is_playing,
        snapshot_of(id, stop_effect(p)).is_empty,
{
    assert(stop_effect(stop_effect(p)) =~~= stop_effect(p));
}

/// The transport cycle of a freshly loaded player whose asset decodes
/// and converts to a non-empty signal on a resolvable device: the first
/// toggle decodes and starts playing, the second pauses, the third
/// resumes with the queued samples untouched — nothing is re-decoded.
pub proof fn lemma_toggle_cycle(id: u64, p: PlayerView)
    requires
        p.output is None,
        device_id_ok(p.device_id),
        p.asset is Some,
        mp3_decode(p.asset->Some_0) is Some,
        ({
            let d = mp3_decode(p.asset->Some_0)->Some_0;
            &&& d.1 > 0
            &&& d.2 > 0
            &&& channels_len(d.0.len(), d.2 as nat, OUTPUT_CHANNELS as nat) <= usize::MAX
            &&& convert_len(
                d.0.len(),
                d.1 as nat,
                d.2 as nat,
                OUTPUT_SAMPLE_RATE as nat,
                OUTPUT_CHANNELS as nat,
            ) <= usize::MAX
            &&& convert_spec(
                d.0,
                d.1 as nat,
                d.2 as nat,
                OUTPUT_SAMPLE_RATE as nat,
                OUTPUT_CHANNELS as nat,
            ).len() > 0
        }),
    ensures
        toggle_result(p) is Ok,
        snapshot_of(id, toggle_result(p)->Ok_0).is_playing,
        toggle_result(toggle_result(p)->Ok_0) is Ok,
        snapshot_of(id, toggle_result(toggle_result(p)->Ok_0)->Ok_0).is_paused,
        !snapshot_of(id, toggle_result(toggle_result(p)->Ok_0)->Ok_0).is_playing,
        toggle_result(toggle_result(toggle_result(p)->Ok_0)->Ok_0) is Ok,
        snapshot_of(
            id,
            toggle_result(toggle_result(toggle_result(p)->Ok_0)->Ok_0)->Ok_0,
        ).is_playing,
        toggle_result(toggle_result(toggle_result(p)->Ok_0)->Ok_0)->Ok_0.output->Some_0
            .buffer.samples == toggle_result(p)->Ok_0.output->Some_0.buffer.samples,
{
    let d = mp3_decode(p.asset->Some_0)->Some_0;
    let conv = convert_spec(
        d.0,
        d.1 as nat,
        d.2 as nat,
        OUTPUT_SAMPLE_RATE as nat,
        OUTPUT_CHANNELS as nat,
    );
    assert(Seq::<i16>::empty() + conv =~= conv);
    let p1 = toggle_result(p)->Ok_0;
    assert(p1.output->Some_0.buffer.samples == conv);
    let p2 = toggle_result(p1)->Ok_0;
    assert(p2 == pause_effect(p1));
    let p3 = toggle_result(p2)->Ok_0;
    assert(p3 == resume_effect(p2));
}

/// Doubling the rate doubles the frame count: a mono signal resampled
/// from rate 1 to rate 2 yields exactly twice as many frames, with no
/// assumption on the signal.
pub proof fn lemma_upsample_doubles_frames(s: Seq<i16>)
    ensures
        rate_converted(s, 1, 1, 2).len() == 2 * s.len(),
{
    lemma_rate_converted_len(s, 1, 1, 2);
    vstd::arithmetic::div_mod::lemma_fundamental_div_mod_converse(
        s.len() as int,
        1,
        s.len() as int,
        0,
    );
    vstd::arithmetic::div_mod::lemma_fundamental_div_mod_converse(
        s.len() as int * 2,
        1,
        s.len() as int * 2,
        0,
    );
}

/// Halving the rate halves the frame count: a mono signal resampled
/// from rate 2 to rate 1 yields half as many frames, rounded down.
pub proof fn lemma_downsample_halves_frames(s: Seq<i16>)
    ensures
        rate_converted(s, 1, 2, 1).len() == s.len() / 2,
{
    lemma_rate_converted_len(s, 1, 2, 1);
    vstd::arithmetic::div_mod::lemma_fundamental_div_mod_converse(
        s.len() as int,
        1,
        s.len() as int,
        0,
    );
    vstd::arithmetic::div_mod::lemma_fundamental_div_mod_converse(
        s.len() as int / 2,
        1,
        s.len() as int / 2,
        0,
    );
}

/// Underrun models stop without engine intervention: once a render pass
/// has consumed everything that was queued, the player reports itself
/// as not playing, because `is_playing` is recomputed from the queue.
pub proof fn lemma_underrun_reads_as_stopped(id: u64, p: PlayerView, n: nat)
    requires
        p.output is Some,
        !p.output->Some_0.buffer.paused,
        n >= p.output->Some_0.buffer.samples.len(),
    ensures
        !snapshot_of(id, render_effect(p, n)).is_playing,
        snapshot_of(id, render_effect(p, n)).is_empty,
{
}

/// Resuming a paused player reads only its transport: with the stored
/// asset and name replaced by anything at all, the toggle still resumes
/// and leaves the very same output — resuming never re-touches the
/// source bytes.
pub proof fn lemma_resume_ignores_asset(
    p: PlayerView,
    other_asset: Option<Seq<u8>>,
    other_name: Seq<char>,
)
    requires
        p.output is Some,
        p.output->Some_0.buffer.paused,
    ensures
        ({
            let q = PlayerView { asset: other_asset, file_name: other_name, ..p };
            &&& toggle_result(p) is Ok
            &&& toggle_result(q) is Ok
            &&& toggle_result(q)->Ok_0.output == toggle_result(p)->Ok_0.output
        }),
{
    let q = PlayerView { asset: other_asset, file_name: other_name, ..p };
    assert(toggle_result(q)->Ok_0.output =~~= toggle_result(p)->Ok_0.output);
}

} // verus!
