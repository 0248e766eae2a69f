//! The FIFO sample buffer shared between the engine (producer) and the
//! hardware render callback (consumer), together with its pause flag.
//!
//! The engine thread appends decoded or injected samples at the back; the
//! render callback takes samples from the front at the hardware's cadence
//! and substitutes silence whenever the buffer runs dry or playback is
//! paused, so the consumer never fails and never stalls. The host embeds a
//! `SharedBuffer` behind its own short-critical-section lock; every
//! operation here is total and panic-free, so neither side can abort while
//! the lock is held.

use std::collections::VecDeque;
use vstd::arithmetic::div_mod::{lemma_fundamental_div_mod, lemma_mod_division_less_than_divisor};
use vstd::arithmetic::mul::{
    lemma_mul_inequality, lemma_mul_is_commutative, lemma_mul_is_distributive_add_other_way,
};
use vstd::prelude::*;

verus! {

/// The mathematical state of a [`SharedBuffer`]: the queued samples in
/// front-to-back order, and whether playback is paused.
pub ghost struct BufferView {
    pub samples: Seq<i16>,
    pub paused: bool,
}

/// A FIFO queue of interleaved PCM samples plus a pause flag.
pub struct SharedBuffer {
    samples: VecDeque<i16>,
    paused: bool,
}

/// `n` samples of silence.
pub open spec fn silence(n: nat) -> Seq<i16> {
    Seq::new(n, |i: int| 0i16)
}

/// What one render pass of `n` samples delivers from queued contents `c`:
/// the front of the queue, padded with silence on underrun.
pub open spec fn rendered(c: Seq<i16>, n: nat) -> Seq<i16> {
    if n <= c.len() {
        c.take(n as int)
    } else {
        c + silence((n - c.len()) as nat)
    }
}

/// What a render pass of `n` samples leaves queued.
pub open spec fn remaining(c: Seq<i16>, n: nat) -> Seq<i16> {
    if n <= c.len() {
        c.skip(n as int)
    } else {
        Seq::empty()
    }
}

impl View for SharedBuffer {
    type V = BufferView;

    closed spec fn view(&self) -> BufferView {
        BufferView { samples: self.samples@, paused: self.paused }
    }
}

impl SharedBuffer {
    /// An empty, unpaused buffer.
    pub fn new() -> (b: SharedBuffer)
        ensures
            b@.samples == Seq::<i16>::empty(),
            !b@.paused,
    {
        SharedBuffer { samples: VecDeque::new(), paused: false }
    }

    /// Appends `data` behind everything already queued, preserving order.
    pub fn push_samples(&mut self, data: &[i16])
        ensures
            final(self)@.samples == old(self)@.samples + data@,
            final(self)@.paused == old(self)@.paused,
    {
        let mut i: usize = 0;
        while i < data.len()
            invariant
                i <= data@.len(),
                self@.samples == old(self)@.samples + data@.take(i as int),
                self@.paused == old(self)@.paused,
            decreases data@.len() - i,
        {
            self.samples.push_back(data[i]);
            i = i + 1;
            proof {
                assert(self@.samples =~= old(self)@.samples + data@.take(i as int));
            }
        }
        proof {
            assert(data@.take(data@.len() as int) =~= data@);
        }
    }

    /// Discards all queued samples; the pause flag is untouched.
    pub fn clear(&mut self)
        ensures
            final(self)@.samples == Seq::<i16>::empty(),
            final(self)@.paused == old(self)@.paused,
    {
        self.samples.clear();
    }

    /// Whether no samples are queued.
    pub fn is_empty(&self) -> (r: bool)
        ensures
            r == (self@.samples.len() == 0),
    {
        self.samples.len() == 0
    }

    /// How many samples are queued.
    pub fn len(&self) -> (r: usize)
        ensures
            r == self@.samples.len(),
    {
        self.samples.len()
    }

    /// Raises the pause flag; queued samples stay where they are.
    pub fn pause(&mut self)
        ensures
            final(self)@.samples == old(self)@.samples,
            final(self)@.paused,
    {
        self.paused = true;
    }

    /// Clears the pause flag; queued samples stay where they are.
    pub fn resume(&mut self)
        ensures
            final(self)@.samples == old(self)@.samples,
            !final(self)@.paused,
    {
        self.paused = false;
    }

    /// Whether the pause flag is raised.
    pub fn is_paused(&self) -> (r: bool)
        ensures
            r == self@.paused,
    {
        self.paused
    }

    /// One render pass: produces exactly `n` samples for the hardware.
    /// While paused it emits silence and leaves the queue alone; otherwise
    /// it drains from the front and pads with silence on underrun. Total,
    /// never blocks, never fails.
    pub fn render(&mut self, n: usize) -> (out: Vec<i16>)
        ensures
            out@.len() == n,
            old(self)@.paused ==> out@ == silence(n as nat) && final(self)@ == old(self)@,
            !old(self)@.paused ==> {
                &&& out@ == rendered(old(self)@.samples, n as nat)
                &&& final(self)@.samples == remaining(old(self)@.samples, n as nat)
                &&& !final(self)@.paused
            },
    {
        let mut out: Vec<i16> = Vec::new();
        if self.paused {
            let mut i: usize = 0;
            while i < n
                invariant
                    i <= n,
                    out@ == silence(i as nat),
                    self@ == old(self)@,
                decreases n - i,
            {
                out.push(0i16);
                i = i + 1;
                proof {
                    assert(out@ =~= silence(i as nat));
                }
            }
            proof {
                assert(out@ =~= silence(n as nat));
            }
            out
        } else {
            let ghost c = old(self)@.samples;
            let mut i: usize = 0;
            while i < n
                invariant
                    i <= n,
                    out@ == rendered(c, i as nat),
                    self@.samples == remaining(c, i as nat),
                    self@.paused == old(self)@.paused,
                    !old(self)@.paused,
                decreases n - i,
            {
                match self.samples.pop_front() {
                    Some(s) => {
                        proof {
                            assert(i < c.len());
                            assert(s == c[i as int]);
                        }
                        out.push(s);
                    },
                    None => {
                        proof {
                            assert(i >= c.len());
                        }
                        out.push(0i16);
                    },
                }
                i = i + 1;
                proof {
                    assert(out@ =~= rendered(c, i as nat));
                    assert(self@.samples =~= remaining(c, i as nat));
                }
            }
            out
        }
    }
}

/// Splits one render pass of interleaved samples into per-channel
/// buffers, as a non-interleaved hardware layout wants them: sample
/// `f * channels + c` of the pass is frame `f` of channel `c`.
pub fn deinterleave(samples: &Vec<i16>, channels: u16) -> (out: Vec<Vec<i16>>)
    requires
        channels > 0,
    ensures
        out@.len() == channels as int,
        forall|c: int|
            0 <= c < channels as int ==> (#[trigger] out@[c])@ == Seq::new(
                (samples@.len() as int / channels as int) as nat,
                |f: int| samples@[f * channels as int + c],
            ),
{
    let ch: usize = channels as usize;
    let n: usize = samples.len();
    let frames: usize = n / ch;
    proof {
        assert(frames * ch <= n) by {
            lemma_fundamental_div_mod(n as int, ch as int);
            lemma_mod_division_less_than_divisor(n as int, ch as int);
            lemma_mul_is_commutative(frames as int, ch as int);
        }
    }
    let mut out: Vec<Vec<i16>> = Vec::new();
    let mut c: usize = 0;
    while c < ch
        invariant
            c <= ch,
            ch == channels as usize,
            ch > 0,
            n == samples@.len(),
            frames == n as int / ch as int,
            frames * ch <= n,
            out@.len() == c,
            forall|k: int|
                0 <= k < c ==> (#[trigger] out@[k])@ == Seq::new(
                    frames as nat,
                    |f: int| samples@[f * ch as int + k],
                ),
        decreases ch - c,
    {
        let ghost chan_expected = Seq::new(frames as nat, |f: int| samples@[f * ch as int + c]);
        let mut chan: Vec<i16> = Vec::new();
        let mut f: usize = 0;
        while f < frames
            invariant
                f <= frames,
                c < ch,
                ch > 0,
                n == samples@.len(),
                frames * ch <= n,
                chan_expected == Seq::new(
                    frames as nat,
                    |i: int| samples@[i * ch as int + c as int],
                ),
                chan@ == chan_expected.take(f as int),
            decreases frames - f,
        {
            proof {
                assert((f + 1) * ch <= frames * ch) by {
                    lemma_mul_inequality(f as int + 1, frames as int, ch as int);
                }
                assert(f * ch + ch <= n) by {
                    lemma_mul_is_distributive_add_other_way(ch as int, f as int, 1);
                }
            }
            chan.push(samples[f * ch + c]);
            f = f + 1;
            proof {
                assert(chan@ =~= chan_expected.take(f as int));
            }
        }
        proof {
            assert(chan@ =~= chan_expected);
        }
        out.push(chan);
        c = c + 1;
    }
    out
}

/// Samples are delivered first-in first-out: when the first render pass
/// does not underrun, rendering `n1` samples and then `n2` samples from
/// what is left delivers exactly what one pass of `n1 + n2` samples would
/// have, in the same order.
pub proof fn lemma_render_fifo(c: Seq<i16>, n1: nat, n2: nat)
    requires
        n1 <= c.len(),
    ensures
        rendered(c, n1) + rendered(remaining(c, n1), n2) == rendered(c, (n1 + n2) as nat),
{
    assert(rendered(c, n1) + rendered(remaining(c, n1), n2) =~= rendered(c, (n1 + n2) as nat));
}

/// Appending samples while the consumer drains never reorders delivery:
/// a producer push after `c` is queued leaves every render pass over the
/// old contents unchanged, and the new samples line up strictly behind
/// them.
pub proof fn lemma_push_preserves_order(c: Seq<i16>, d: Seq<i16>, n: nat)
    requires
        n <= c.len(),
    ensures
        rendered(c + d, n) == rendered(c, n),
        remaining(c + d, n) == remaining(c, n) + d,
{
    assert(rendered(c + d, n) =~= rendered(c, n));
    assert(remaining(c + d, n) =~= remaining(c, n) + d);
}

} // verus!
