//! The trusted seam to the MP3 bitstream decoder.
//!
//! Decoding compressed bytes into PCM is the decoder crate's work and is
//! not re-proved here; its end-to-end outcome is a pure function of the
//! payload bytes, so it is given a name, `mp3_decode`, that the playback
//! contracts are stated over. The seam is two small trusted calls —
//! opening a decode stream, and taking its next decoded chunk — tied to
//! the name through a model of the stream as the sequence of chunks it
//! will still yield; the loop that drains the stream, and the rule that
//! a stream with no decodable audio is an error, are verified code.

use crate::error::AudioError;
use vstd::prelude::*;

verus! {

/// What the decoder yields for a compressed payload: nothing when the
/// payload is malformed, unsupported, or holds no decodable audio
/// packet, otherwise the interleaved samples, the source sample rate
/// and the source channel count.
pub uninterp spec fn mp3_decode(bytes: Seq<u8>) -> Option<(Seq<i16>, u32, u16)>;

#[verifier::external_type_specification]
#[verifier::external_body]
pub struct ExSymphoniaError(symphonia::core::errors::Error);

/// An open decode stream: symphonia's demuxer and decoder over one
/// payload. The MPEG stream holds a single track, which the decoder was
/// made for. The two fields are boxed trait objects, which a type
/// declaration cannot name, so the whole struct is opaque and its
/// meaning is carried by [`stream_chunks`] and [`stream_fails`].
#[verifier::external_body]
struct Mp3Stream {
    format: Box<dyn symphonia::core::formats::FormatReader>,
    decoder: Box<dyn symphonia::core::codecs::Decoder>,
}

/// The decoded chunks this stream will still yield, in order: one entry
/// per decoded packet, holding its interleaved 16-bit samples and the
/// signal format it reported.
pub uninterp spec fn stream_chunks(s: Mp3Stream) -> Seq<(Seq<i16>, u32, u16)>;

/// Whether this stream, after yielding its chunks, ends in a decode
/// failure rather than a clean end of stream.
pub uninterp spec fn stream_fails(s: Mp3Stream) -> bool;

/// The samples of a chunk sequence, concatenated in order.
pub open spec fn chunks_flat(cs: Seq<(Seq<i16>, u32, u16)>) -> Seq<i16>
    decreases cs.len(),
{
    if cs.len() == 0 {
        Seq::empty()
    } else {
        chunks_flat(cs.drop_last()) + cs.last().0
    }
}

/// What a cleanly ended chunk sequence decodes to: nothing when it holds
/// no samples or reports a zero format, else all samples under the last
/// chunk's format.
pub open spec fn decode_of_chunks(cs: Seq<(Seq<i16>, u32, u16)>) -> Option<(Seq<i16>, u32, u16)> {
    if cs.len() == 0 || chunks_flat(cs).len() == 0 || cs.last().1 == 0 || cs.last().2 == 0 {
        None
    } else {
        Some((chunks_flat(cs), cs.last().1, cs.last().2))
    }
}

/// Relies on symphonia's probe and codec registries: probing reads
/// nothing but the payload bytes, so the stream it opens — and with it
/// the whole decode — is deterministic in them. An unrecognised or
/// unsupported payload is refused here as a value.
#[verifier::external_body]
fn open_mp3(bytes: &Vec<u8>) -> (r: Result<Mp3Stream, symphonia::core::errors::Error>)
    ensures
        r matches Ok(s) ==> mp3_decode(bytes@) == (if stream_fails(s) {
            None::<(Seq<i16>, u32, u16)>
        } else {
            decode_of_chunks(stream_chunks(s))
        }),
        r is Err ==> mp3_decode(bytes@) is None,
{
    let cursor = Box::new(std::io::Cursor::new(bytes.clone()));
    let mss = symphonia::core::io::MediaSourceStream::new(cursor, Default::default());
    let hint = symphonia::core::probe::Hint::new();
    let mut probed =
        symphonia::default::get_probe().format(&hint, mss, &Default::default(), &Default::default())?;
    let params = match probed.format.default_track() {
        Some(t) => t.codec_params.clone(),
        None => return Err(symphonia::core::errors::Error::DecodeError("no default track")),
    };
    let decoder = symphonia::default::get_codecs().make(&params, &Default::default())?;
    Ok(Mp3Stream { format: probed.format, decoder })
}

impl Mp3Stream {
    /// Relies on symphonia's `FormatReader::next_packet` and
    /// `Decoder::decode`: yields the next decoded chunk, skipping
    /// corrupt packets as the decoder crate's documented packet loop
    /// does; a clean end of stream is `Ok(None)` and a failing one is
    /// the error, so no placeholder format is ever read.
    #[verifier::external_body]
    fn next_chunk(&mut self) -> (r: Result<
        Option<(Vec<i16>, u32, u16)>,
        symphonia::core::errors::Error,
    >)
        ensures
            r matches Ok(Some(c)) ==> stream_chunks(*old(self)).len() > 0 && (c.0@, c.1, c.2)
                == stream_chunks(*old(self))[0] && stream_chunks(*final(self)) == stream_chunks(
                *old(self),
            ).skip(1) && stream_fails(*final(self)) == stream_fails(*old(self)),
            r matches Ok(None) ==> stream_chunks(*old(self)).len() == 0 && !stream_fails(
                *old(self),
            ),
            r is Err ==> stream_chunks(*old(self)).len() == 0 && stream_fails(*old(self)),
    {
        loop {
            let packet = match self.format.next_packet() {
                Ok(p) => p,
                Err(symphonia::core::errors::Error::IoError(_)) => return Ok(None), Err(e) => return Err(e),
            };
            let decoded = match self.decoder.decode(&packet) {
                Ok(d) => d,
                Err(symphonia::core::errors::Error::DecodeError(_)) => continue, Err(e) => return Err(e),
            };
            let (spec, n) = (*decoded.spec(), decoded.capacity() as u64);
            let mut buf = symphonia::core::audio::SampleBuffer::<i16>::new(n, spec);
            buf.copy_interleaved_ref(decoded);
            return Ok(Some((buf.samples().to_vec(), spec.rate, spec.channels.count() as u16)));
        }
    }
}

/// Concatenating one more chunk extends the flattened samples by it.
proof fn lemma_chunks_flat_step(cs: Seq<(Seq<i16>, u32, u16)>, i: int)
    requires
        0 <= i < cs.len(),
    ensures
        chunks_flat(cs.take(i + 1)) == chunks_flat(cs.take(i)) + cs[i].0,
{
    assert(cs.take(i + 1).drop_last() =~= cs.take(i));
    assert(cs.take(i + 1).last() == cs[i]);
}

/// Decodes a loaded asset by draining its decode stream, folding every
/// failure — a refused payload, a failing stream, or one with no
/// decodable audio — into [`AudioError::DecodeError`].
pub(crate) fn decode_asset(bytes: &Vec<u8>) -> (r: Result<(Vec<i16>, u32, u16), AudioError>)
    ensures
        r matches Ok(d) ==> mp3_decode(bytes@) == Some((d.0@, d.1, d.2)) && d.1 > 0 && d.2 > 0,
        r is Err <==> mp3_decode(bytes@) is None,
        r is Err ==> r == Err::<(Vec<i16>, u32, u16), AudioError>(AudioError::DecodeError),
{
    let mut s = match open_mp3(bytes) {
        Ok(s) => s,
        Err(_) => return Err(AudioError::DecodeError),
    };
    let ghost all = stream_chunks(s);
    let ghost fails = stream_fails(s);
    let mut out: Vec<i16> = Vec::new();
    let mut rate: u32 = 0;
    let mut ch: u16 = 0;
    let ghost mut i: int = 0;
    loop
        invariant
            0 <= i <= all.len(),
            stream_chunks(s) == all.skip(i),
            stream_fails(s) == fails,
            out@ == chunks_flat(all.take(i)),
            i == 0 ==> rate == 0 && ch == 0,
            i > 0 ==> rate == all[i - 1].1 && ch == all[i - 1].2,
            mp3_decode(bytes@) == (if fails {
                None::<(Seq<i16>, u32, u16)>
            } else {
                decode_of_chunks(all)
            }),
        decreases all.len() - i,
    {
        match s.next_chunk() {
            Ok(Some(mut c)) => {
                proof {
                    assert(all.skip(i)[0] == all[i]);
                    assert(all.skip(i).skip(1) =~= all.skip(i + 1));
                    lemma_chunks_flat_step(all, i);
                }
                out.append(&mut c.0);
                rate = c.1;
                ch = c.2;
                proof {
                    i = i + 1;
                }
            },
            Ok(None) => {
                proof {
                    assert(i == all.len());
                    assert(all.take(i) =~= all);
                }
                if out.len() == 0 || rate == 0 || ch == 0 {
                    return Err(AudioError::DecodeError);
                }
                return Ok((out, rate, ch));
            },
            Err(_) => {
                return Err(AudioError::DecodeError);
            },
        }
    }
}

} // verus!
