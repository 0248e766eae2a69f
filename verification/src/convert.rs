//! Pure PCM conversion between channel counts and sample rates.
//!
//! Channel conversion runs first, then rate conversion, exactly as the
//! playback path applies them. Samples are interleaved 16-bit PCM frames.
//! Channel rules: identity when the counts match; mono to stereo
//! duplicates each sample; stereo to mono averages each pair (a trailing
//! odd sample passes through unaveraged); any other combination maps
//! frame by frame, replicating the highest source channel when the
//! destination asks for more channels than the source has. Rate
//! conversion is linear interpolation: output frame `i` reads the
//! fractional source position `i * src_rate / dst_rate`, blending the two
//! neighbouring frames and clamping at the final frame. It is an
//! approximation, not a band-limited resampler; aliasing on downsampling
//! is accepted.

use vstd::arithmetic::div_mod::*;
use vstd::arithmetic::mul::*;
use vstd::prelude::*;

verus! {

/// Division that truncates toward zero (the machine behaviour), for a
/// positive divisor.
pub open spec fn trunc_div(a: int, d: int) -> int
    recommends
        d > 0,
{
    if a >= 0 {
        a / d
    } else {
        -((-a) / d)
    }
}

/// The average of one stereo pair, truncated toward zero.
pub open spec fn avg_pair(a: i16, b: i16) -> i16 {
    trunc_div(a + b, 2) as i16
}

/// Linear interpolation between `a` and `b` at fraction `num / den`.
pub open spec fn blend(a: i16, b: i16, num: int, den: int) -> i16
    recommends
        0 <= num < den,
{
    (a + trunc_div((b - a) * num, den)) as i16
}

/// The channel-count stage: `s` interleaved with `sc` channels per frame,
/// rewritten to `dc` channels per frame.
pub open spec fn channels_converted(s: Seq<i16>, sc: nat, dc: nat) -> Seq<i16>
    recommends
        sc > 0,
        dc > 0,
{
    if sc == dc {
        s
    } else if sc == 1 && dc == 2 {
        Seq::new(s.len() * 2, |i: int| s[i / 2])
    } else if sc == 2 && dc == 1 {
        Seq::new(
            (s.len() + 1) / 2,
            |i: int|
                if 2 * i + 1 < s.len() {
                    avg_pair(s[2 * i], s[2 * i + 1])
                } else {
                    s[2 * i]
                },
        )
    } else {
        let frames = s.len() as int / sc as int;
        Seq::new(
            (frames * dc) as nat,
            |i: int|
                {
                    let c = i % (dc as int);
                    let src_c = if c < sc as int {
                        c
                    } else {
                        sc as int - 1
                    };
                    s[(i / (dc as int)) * (sc as int) + src_c]
                },
        )
    }
}

/// The rate stage: `s` interleaved with `ch` channels per frame at
/// `sr` frames per second, resampled by linear interpolation to `dr`
/// frames per second.
pub open spec fn rate_converted(s: Seq<i16>, ch: nat, sr: nat, dr: nat) -> Seq<i16>
    recommends
        ch > 0,
        sr > 0,
        dr > 0,
{
    if sr == dr {
        s
    } else {
        let frames = s.len() as int / ch as int;
        let out_frames = frames * dr as int / sr as int;
        Seq::new(
            (out_frames * ch) as nat,
            |i: int|
                {
                    let f = i / ch as int;
                    let c = i % ch as int;
                    let pos = f * sr as int;
                    let sf = pos / dr as int;
                    let sf1 = if sf + 1 < frames {
                        sf + 1
                    } else {
                        frames - 1
                    };
                    blend(s[sf * ch as int + c], s[sf1 * ch as int + c], pos % dr as int, dr as int)
                },
        )
    }
}

/// The length of the channel stage's output, from the input length alone.
pub open spec fn channels_len(n: nat, sc: nat, dc: nat) -> nat
    recommends
        sc > 0,
        dc > 0,
{
    if sc == dc {
        n
    } else if sc == 1 && dc == 2 {
        n * 2
    } else if sc == 2 && dc == 1 {
        ((n + 1) / 2) as nat
    } else {
        ((n as int / sc as int) * dc as int) as nat
    }
}

/// The length of the rate stage's output, from the input length alone.
pub open spec fn rate_len(n: nat, ch: nat, sr: nat, dr: nat) -> nat
    recommends
        ch > 0,
        sr > 0,
        dr > 0,
{
    if sr == dr {
        n
    } else {
        (((n as int / ch as int) * dr as int / sr as int) * ch as int) as nat
    }
}

/// The length of the whole converter's output, from the input length alone.
pub open spec fn convert_len(n: nat, sr: nat, sc: nat, dr: nat, dc: nat) -> nat
    recommends
        sr > 0,
        sc > 0,
        dr > 0,
        dc > 0,
{
    rate_len(channels_len(n, sc, dc), dc, sr, dr)
}

/// The channel stage's output has the length that `channels_len` gives.
pub proof fn lemma_channels_converted_len(s: Seq<i16>, sc: nat, dc: nat)
    requires
        sc > 0,
        dc > 0,
    ensures
        channels_converted(s, sc, dc).len() == channels_len(s.len(), sc, dc),
{
}

/// The rate stage's output has the length that `rate_len` gives.
pub proof fn lemma_rate_converted_len(s: Seq<i16>, ch: nat, sr: nat, dr: nat)
    requires
        ch > 0,
        sr > 0,
        dr > 0,
    ensures
        rate_converted(s, ch, sr, dr).len() == rate_len(s.len(), ch, sr, dr),
{
}

/// The whole converter: channels first, then rate.
pub open spec fn convert_spec(s: Seq<i16>, sr: nat, sc: nat, dr: nat, dc: nat) -> Seq<i16>
    recommends
        sr > 0,
        sc > 0,
        dr > 0,
        dc > 0,
{
    rate_converted(channels_converted(s, sc, dc), dc, sr, dr)
}

/// Averages one stereo pair, truncating toward zero.
fn avg(a: i16, b: i16) -> (r: i16)
    ensures
        r == avg_pair(a, b),
{
    let s: i32 = a as i32 + b as i32;
    if s >= 0 {
        let q: u32 = (s as u32) / 2;
        proof {
            assert(q == trunc_div(a + b, 2));
            assert(q <= 32767) by {
                lemma_div_is_ordered(s as int, 65534, 2);
            }
        }
        q as i16
    } else {
        let m: u32 = ((-s) as u32) / 2;
        proof {
            assert(m <= 32768) by {
                lemma_div_is_ordered((-s) as int, 65536, 2);
            }
        }
        let r32: i32 = -(m as i32);
        proof {
            assert(r32 == trunc_div(a + b, 2));
        }
        r32 as i16
    }
}

/// Blends `a` toward `b` by the fraction `num / den`.
fn blend_sample(a: i16, b: i16, num: u32, den: u32) -> (r: i16)
    requires
        num < den,
    ensures
        r == blend(a, b, num as int, den as int),
{
    let delta: i64 = b as i64 - a as i64;
    if delta >= 0 {
        proof {
            lemma_mul_upper_bound(delta as int, 65535, num as int, 0xFFFF_FFFF);
        }
        let p: u64 = (delta as u64) * (num as u64);
        let q: u64 = p / (den as u64);
        proof {
            assert((delta as int) * (num as int) <= (den as int) * (delta as int))
                by (nonlinear_arith)
                requires
                    0 <= delta as int,
                    num as int <= den as int,
            ;
            assert(q <= delta) by {
                lemma_multiply_divide_le(p as int, den as int, delta as int);
            }
            assert(q == trunc_div((b - a) * (num as int), den as int));
        }
        let r64: i64 = a as i64 + q as i64;
        proof {
            assert(a <= r64 <= b);
        }
        r64 as i16
    } else {
        proof {
            lemma_mul_upper_bound((-delta) as int, 65535, num as int, 0xFFFF_FFFF);
        }
        let nd: u64 = ((-delta) as u64) * (num as u64);
        let q: u64 = nd / (den as u64);
        proof {
            assert(((-delta) as int) * (num as int) <= (den as int) * ((-delta) as int))
                by (nonlinear_arith)
                requires
                    0 <= (-delta) as int,
                    num as int <= den as int,
            ;
            assert(q <= -delta) by {
                lemma_multiply_divide_le(nd as int, den as int, (-delta) as int);
            }
            assert(((-delta) as int) * (num as int) == -((delta as int) * (num as int)))
                by (nonlinear_arith);
            assert(-(q as int) == trunc_div((b - a) * (num as int), den as int));
        }
        let r64: i64 = a as i64 - q as i64;
        proof {
            assert(b <= r64 <= a);
        }
        r64 as i16
    }
}

/// The channel-count stage on vectors.
pub fn convert_channels(samples: &Vec<i16>, src_channels: u16, dst_channels: u16) -> (out: Vec<
    i16,
>)
    requires
        src_channels > 0,
        dst_channels > 0,
        channels_converted(samples@, src_channels as nat, dst_channels as nat).len()
            <= usize::MAX,
    ensures
        out@ == channels_converted(samples@, src_channels as nat, dst_channels as nat),
{
    let ghost expected = channels_converted(
        samples@,
        src_channels as nat,
        dst_channels as nat,
    );
    let n: usize = samples.len();
    let mut out: Vec<i16> = Vec::new();
    if src_channels == dst_channels {
        let mut i: usize = 0;
        while i < n
            invariant
                i <= n,
                n == samples@.len(),
                expected == samples@,
                out@ == expected.take(i as int),
            decreases n - i,
        {
            out.push(samples[i]);
            i = i + 1;
            proof {
                assert(out@ =~= expected.take(i as int));
            }
        }
        proof {
            assert(out@ =~= expected);
        }
        out
    } else if src_channels == 1 && dst_channels == 2 {
        let mut i: usize = 0;
        while i < n
            invariant
                i <= n,
                n == samples@.len(),
                expected == channels_converted(samples@, 1, 2),
                expected.len() == 2 * n,
                out@ == expected.take(2 * i as int),
            decreases n - i,
        {
            let s = samples[i];
            out.push(s);
            out.push(s);
            proof {
                lemma_fundamental_div_mod_converse(2 * i as int, 2, i as int, 0);
                lemma_fundamental_div_mod_converse(2 * i as int + 1, 2, i as int, 1);
                assert(expected[2 * i as int] == s);
                assert(expected[2 * i as int + 1] == s);
                assert(out@ =~= expected.take(2 * (i + 1) as int));
            }
            i = i + 1;
        }
        proof {
            assert(out@ =~= expected);
        }
        out
    } else if src_channels == 2 && dst_channels == 1 {
        let m: usize = n / 2 + n % 2;
        proof {
            lemma_fundamental_div_mod(n as int, 2);
            lemma_fundamental_div_mod(n as int + 1, 2);
            assert(m == (n as int + 1) / 2) by {
                if n % 2 == 0 {
                    lemma_fundamental_div_mod_converse(n as int + 1, 2, n as int / 2, 1);
                } else {
                    lemma_fundamental_div_mod_converse(n as int + 1, 2, n as int / 2 + 1, 0);
                }
            }
            assert(expected.len() == m);
        }
        let mut i: usize = 0;
        while i < m
            invariant
                i <= m,
                n == samples@.len(),
                m == (n as int + 1) / 2,
                2 * m as int - 1 <= n as int,
                expected == channels_converted(samples@, 2, 1),
                expected.len() == m,
                out@ == expected.take(i as int),
            decreases m - i,
        {
            let j: usize = 2 * i;
            if j + 1 < n {
                out.push(avg(samples[j], samples[j + 1]));
            } else {
                out.push(samples[j]);
            }
            i = i + 1;
            proof {
                assert(out@ =~= expected.take(i as int));
            }
        }
        proof {
            assert(out@ =~= expected);
        }
        out
    } else {
        let sc: usize = src_channels as usize;
        let dc: usize = dst_channels as usize;
        let frames: usize = n / sc;
        proof {
            assert(expected.len() == frames * dc);
            assert(frames * sc <= n) by {
                lemma_fundamental_div_mod(n as int, sc as int);
            }
        }
        let total: usize = frames * dc;
        let mut i: usize = 0;
        while i < total
            invariant
                i <= total,
                n == samples@.len(),
                sc == src_channels as usize,
                dc == dst_channels as usize,
                sc > 0,
                dc > 0,
                !(sc == dc),
                !(sc == 1 && dc == 2),
                !(sc == 2 && dc == 1),
                frames == n as int / sc as int,
                frames * sc <= n,
                total == frames * dc,
                expected == channels_converted(samples@, sc as nat, dc as nat),
                expected.len() == total,
                out@ == expected.take(i as int),
            decreases total - i,
        {
            let f: usize = i / dc;
            let c: usize = i % dc;
            proof {
                assert(f < frames) by {
                    lemma_multiply_divide_lt(i as int, dc as int, frames as int);
                    lemma_mul_is_commutative(dc as int, frames as int);
                }
                lemma_mod_division_less_than_divisor(i as int, dc as int);
                assert((f + 1) * sc <= frames * sc) by {
                    lemma_mul_inequality(f as int + 1, frames as int, sc as int);
                }
                assert(f * sc + sc <= n) by {
                    lemma_mul_is_distributive_add_other_way(sc as int, f as int, 1);
                }
            }
            let src_c: usize = if c < sc {
                c
            } else {
                sc - 1
            };
            let idx: usize = f * sc + src_c;
            out.push(samples[idx]);
            i = i + 1;
            proof {
                assert(out@ =~= expected.take(i as int));
            }
        }
        proof {
            assert(out@ =~= expected);
        }
        out
    }
}

/// The rate stage on vectors: linear interpolation from `src_rate` to
/// `dst_rate`, leaving the input untouched when the rates match.
pub fn convert_rate(samples: &Vec<i16>, channels: u16, src_rate: u32, dst_rate: u32) -> (out: Vec<
    i16,
>)
    requires
        channels > 0,
        src_rate > 0,
        dst_rate > 0,
        rate_converted(samples@, channels as nat, src_rate as nat, dst_rate as nat).len()
            <= usize::MAX,
    ensures
        out@ == rate_converted(samples@, channels as nat, src_rate as nat, dst_rate as nat),
{
    let ghost expected = rate_converted(
        samples@,
        channels as nat,
        src_rate as nat,
        dst_rate as nat,
    );
    let n: usize = samples.len();
    let mut out: Vec<i16> = Vec::new();
    if src_rate == dst_rate {
        let mut i: usize = 0;
        while i < n
            invariant
                i <= n,
                n == samples@.len(),
                expected == samples@,
                out@ == expected.take(i as int),
            decreases n - i,
        {
            out.push(samples[i]);
            i = i + 1;
            proof {
                assert(out@ =~= expected.take(i as int));
            }
        }
        proof {
            assert(out@ =~= expected);
        }
        out
    } else {
        let ch: usize = channels as usize;
        let frames: usize = n / ch;
        proof {
            lemma_mul_upper_bound(frames as int, 0xFFFF_FFFF_FFFF_FFFF, dst_rate as int, 0xFFFF_FFFF);
        }
        let scaled: u128 = (frames as u128) * (dst_rate as u128);
        let of128: u128 = scaled / (src_rate as u128);
        proof {
            assert(of128 == (frames as int) * (dst_rate as int) / (src_rate as int));
            assert(expected.len() == of128 * channels as int);
            assert(of128 <= of128 * channels as int) by {
                if of128 > 0 {
                    lemma_mul_increases(channels as int, of128 as int);
                    lemma_mul_is_commutative(channels as int, of128 as int);
                } else {
                    lemma_mul_by_zero_is_zero(channels as int);
                    lemma_mul_is_commutative(channels as int, of128 as int);
                }
            }
        }
        let out_frames: usize = of128 as usize;
        let total: usize = out_frames * ch;
        proof {
            assert(frames * ch <= n) by {
                lemma_fundamental_div_mod(n as int, ch as int);
                lemma_mod_division_less_than_divisor(n as int, ch as int);
            }
            assert(out_frames as int * src_rate as int <= frames as int * dst_rate as int) by {
                lemma_fundamental_div_mod(frames as int * dst_rate as int, src_rate as int);
                lemma_mod_division_less_than_divisor(
                    frames as int * dst_rate as int,
                    src_rate as int,
                );
            }
        }
        let mut i: usize = 0;
        while i < total
            invariant
                i <= total,
                n == samples@.len(),
                ch == channels as usize,
                ch > 0,
                src_rate > 0,
                dst_rate > 0,
                src_rate != dst_rate,
                frames == n as int / ch as int,
                frames * ch <= n,
                out_frames == (frames as int) * (dst_rate as int) / (src_rate as int),
                out_frames as int * src_rate as int <= frames as int * dst_rate as int,
                total == out_frames * ch,
                expected == rate_converted(
                    samples@,
                    channels as nat,
                    src_rate as nat,
                    dst_rate as nat,
                ),
                expected.len() == total,
                out@ == expected.take(i as int),
            decreases total - i,
        {
            let f: usize = i / ch;
            let c: usize = i % ch;
            proof {
                assert(f < out_frames) by {
                    lemma_mul_is_commutative(out_frames as int, ch as int);
                    lemma_multiply_divide_lt(i as int, ch as int, out_frames as int);
                }
                lemma_mod_division_less_than_divisor(i as int, ch as int);
                assert(frames > 0) by {
                    if frames == 0 {
                        assert(frames as int * dst_rate as int == 0) by {
                            lemma_mul_by_zero_is_zero(dst_rate as int);
                        }
                        assert((0int) / (src_rate as int) == 0) by {
                            lemma_div_of0(src_rate as int);
                        }
                    }
                }
                lemma_mul_upper_bound(f as int, 0xFFFF_FFFF_FFFF_FFFF, src_rate as int, 0xFFFF_FFFF);
            }
            let pos: u128 = (f as u128) * (src_rate as u128);
            let sf128: u128 = pos / (dst_rate as u128);
            let num128: u128 = pos % (dst_rate as u128);
            proof {
                // The source frame index stays strictly inside the input.
                assert((f as int + 1) * src_rate as int <= out_frames as int * src_rate as int) by {
                    lemma_mul_inequality(f as int + 1, out_frames as int, src_rate as int);
                }
                assert(pos < frames as int * dst_rate as int) by {
                    lemma_mul_is_distributive_add_other_way(src_rate as int, f as int, 1);
                }
                assert(sf128 < frames) by {
                    lemma_mul_is_commutative(frames as int, dst_rate as int);
                    lemma_multiply_divide_lt(pos as int, dst_rate as int, frames as int);
                }
                lemma_mod_division_less_than_divisor(pos as int, dst_rate as int);
            }
            let sf: usize = sf128 as usize;
            let sf1: usize = if sf + 1 < frames {
                sf + 1
            } else {
                frames - 1
            };
            proof {
                assert(sf * ch + c < n) by {
                    lemma_mul_inequality(sf as int + 1, frames as int, ch as int);
                    lemma_mul_is_distributive_add_other_way(ch as int, sf as int, 1);
                }
                assert(sf1 * ch + c < n) by {
                    lemma_mul_inequality(sf1 as int + 1, frames as int, ch as int);
                    lemma_mul_is_distributive_add_other_way(ch as int, sf1 as int, 1);
                }
            }
            let a: i16 = samples[sf * ch + c];
            let b: i16 = samples[sf1 * ch + c];
            let r: i16 = blend_sample(a, b, num128 as u32, dst_rate);
            out.push(r);
            i = i + 1;
            proof {
                assert(out@ =~= expected.take(i as int));
            }
        }
        proof {
            assert(out@ =~= expected);
        }
        out
    }
}

/// The whole converter on vectors: channel conversion, then rate
/// conversion, as `convert_spec` states.
pub fn convert(
    samples: &Vec<i16>,
    src_rate: u32,
    src_channels: u16,
    dst_rate: u32,
    dst_channels: u16,
) -> (out: Vec<i16>)
    requires
        src_rate > 0,
        src_channels > 0,
        dst_rate > 0,
        dst_channels > 0,
        channels_len(samples@.len(), src_channels as nat, dst_channels as nat) <= usize::MAX,
        convert_len(
            samples@.len(),
            src_rate as nat,
            src_channels as nat,
            dst_rate as nat,
            dst_channels as nat,
        ) <= usize::MAX,
    ensures
        out@ == convert_spec(
            samples@,
            src_rate as nat,
            src_channels as nat,
            dst_rate as nat,
            dst_channels as nat,
        ),
{
    proof {
        lemma_channels_converted_len(samples@, src_channels as nat, dst_channels as nat);
    }
    let mid: Vec<i16> = convert_channels(samples, src_channels, dst_channels);
    proof {
        lemma_rate_converted_len(mid@, dst_channels as nat, src_rate as nat, dst_rate as nat);
    }
    convert_rate(&mid, dst_channels, src_rate, dst_rate)
}

/// The converter guarded against outputs too large for this machine:
/// returns `None` exactly when an argument is zero or the converted
/// signal would not fit in memory, and the converted samples otherwise.
pub fn convert_checked(
    samples: &Vec<i16>,
    src_rate: u32,
    src_channels: u16,
    dst_rate: u32,
    dst_channels: u16,
) -> (r: Option<Vec<i16>>)
    ensures
        r is Some <==> {
            &&& src_rate > 0
            &&& src_channels > 0
            &&& dst_rate > 0
            &&& dst_channels > 0
            &&& channels_len(samples@.len(), src_channels as nat, dst_channels as nat)
                <= usize::MAX
            &&& convert_len(
                samples@.len(),
                src_rate as nat,
                src_channels as nat,
                dst_rate as nat,
                dst_channels as nat,
            ) <= usize::MAX
        },
        r matches Some(v) ==> v@ == convert_spec(
            samples@,
            src_rate as nat,
            src_channels as nat,
            dst_rate as nat,
            dst_channels as nat,
        ),
{
    if src_rate == 0 || src_channels == 0 || dst_rate == 0 || dst_channels == 0 {
        return None;
    }
    let n: usize = samples.len();
    let clen: u128 = if src_channels == dst_channels {
        n as u128
    } else if src_channels == 1 && dst_channels == 2 {
        (n as u128) * 2
    } else if src_channels == 2 && dst_channels == 1 {
        (n as u128) / 2 + (n as u128) % 2
    } else {
        proof {
            lemma_mul_upper_bound(
                n as int / (src_channels as int),
                0xFFFF_FFFF_FFFF_FFFF,
                dst_channels as int,
                0xFFFF,
            );
            lemma_div_is_ordered(0, n as int, src_channels as int);
            lemma_div_nonincreasing(n as int, src_channels as int);
        }
        ((n as u128) / (src_channels as u128)) * (dst_channels as u128)
    };
    proof {
        if src_channels == 2 && dst_channels == 1 {
            lemma_fundamental_div_mod(n as int, 2);
            lemma_mod_division_less_than_divisor(n as int, 2);
            if n % 2 == 0 {
                lemma_fundamental_div_mod_converse(n as int + 1, 2, n as int / 2, 1);
            } else {
                lemma_fundamental_div_mod_converse(n as int + 1, 2, n as int / 2 + 1, 0);
            }
        }
        assert(clen == channels_len(
            n as nat,
            src_channels as nat,
            dst_channels as nat,
        ));
    }
    if clen > usize::MAX as u128 {
        return None;
    }
    let rlen: u128 = if src_rate == dst_rate {
        clen
    } else {
        proof {
            lemma_div_nonincreasing(clen as int, dst_channels as int);
            lemma_div_is_ordered(0, clen as int, dst_channels as int);
            lemma_mul_upper_bound(
                clen as int / (dst_channels as int),
                0xFFFF_FFFF_FFFF_FFFF,
                dst_rate as int,
                0xFFFF_FFFF,
            );
            lemma_div_nonincreasing(
                (clen as int / (dst_channels as int)) * (dst_rate as int),
                src_rate as int,
            );
            lemma_div_is_ordered(
                0,
                (clen as int / (dst_channels as int)) * (dst_rate as int),
                src_rate as int,
            );
            lemma_mul_upper_bound(
                (clen as int / (dst_channels as int)) * (dst_rate as int) / (src_rate as int),
                0xFFFF_FFFF_FFFF_FFFF_FFFF_FFFF,
                dst_channels as int,
                0xFFFF,
            );
        }
        (((clen / (dst_channels as u128)) * (dst_rate as u128)) / (src_rate as u128)) * (
        dst_channels as u128)
    };
    proof {
        assert(rlen == convert_len(
            n as nat,
            src_rate as nat,
            src_channels as nat,
            dst_rate as nat,
            dst_channels as nat,
        ));
    }
    if rlen > usize::MAX as u128 {
        return None;
    }
    Some(convert(samples, src_rate, src_channels, dst_rate, dst_channels))
}

} // verus!
