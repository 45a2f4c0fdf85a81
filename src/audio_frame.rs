use vstd::prelude::*;
use vstd::slice::slice_subrange;

use crate::audio_header::{be_u32, decode_header_word, MP3AudioFrameHeader};
use crate::error::DecodeError;

verus! {

/// One audio frame: its header, a view of its payload and its total length in bytes.
pub struct MP3AudioFrame<'a> {
    pub header: MP3AudioFrameHeader,
    /// The payload after the 4-byte header, cut off where the buffer ends
    pub data: &'a [u8],
    /// The total size of this frame
    pub frame_length: u32,
}

/// A decoded frame as the walk sees it: header, frame length, offset of its first byte.
pub type FramePos = (MP3AudioFrameHeader, u32, int);

/// floor(samples per frame * bitrate / sample rate), plus one byte of padding if flagged.
pub open spec fn frame_length_of(h: MP3AudioFrameHeader) -> u32 {
    (h.layer.spec_samples_per_frame() as int * h.bitrate as int / h.sample_rate as int + (if h.has_padding {
        1int
    } else {
        0int
    })) as u32
}

pub open spec fn min_int(a: int, b: int) -> int {
    if a < b {
        a
    } else {
        b
    }
}

/// Decodes the frame that starts at the first byte of `s`: its header and length.
pub open spec fn decode_frame(s: Seq<u8>) -> Result<(MP3AudioFrameHeader, u32), DecodeError> {
    if s.len() < 4 {
        Err(DecodeError::TruncatedFrameHeader(s.len() as usize))
    } else {
        match decode_header_word(be_u32(s[0], s[1], s[2], s[3])) {
            Err(e) => Err(e),
            Ok(h) => Ok((h, frame_length_of(h))),
        }
    }
}

/// The payload of a frame that starts at `start`: from after its header to its end,
/// or to the end of `s` if that comes first.
pub open spec fn payload_of(s: Seq<u8>, start: int, frame_length: u32) -> Seq<u8> {
    s.subrange(start + 4, min_int(start + frame_length, s.len() as int))
}

/// The frames of `s` from offset `off` on, each starting where the one before ends,
/// until the offset reaches the end of `s`; the first frame that fails to decode fails
/// the whole walk.
pub open spec fn walk_from(s: Seq<u8>, off: int) -> Result<Seq<FramePos>, DecodeError>
    decreases s.len() - off via walk_from_decreases
{
    if off < 0 || off >= s.len() {
        Ok(Seq::empty())
    } else if decode_frame(s.subrange(off, s.len() as int)) is Err {
        Err(decode_frame(s.subrange(off, s.len() as int))->Err_0)
    } else {
        let f = decode_frame(s.subrange(off, s.len() as int))->Ok_0;
        match walk_from(s, min_int(off + f.1, s.len() as int)) {
            Err(e) => Err(e),
            Ok(rest) => Ok(seq![(f.0, f.1, off)] + rest),
        }
    }
}

#[via_fn]
proof fn walk_from_decreases(s: Seq<u8>, off: int) {
    if 0 <= off < s.len() {
        lemma_decoded_frame_length(s.subrange(off, s.len() as int));
    }
}

/// The decoded frames of `v` are those of `fs`, with the payloads that `fs` places in `s`.
pub open spec fn frames_match(v: Seq<MP3AudioFrame>, fs: Seq<FramePos>, s: Seq<u8>) -> bool {
    &&& v.len() == fs.len()
    &&& forall|i: int|
        0 <= i < v.len() ==> {
            &&& (#[trigger] v[i]).header == fs[i].0
            &&& v[i].frame_length == fs[i].1
            &&& v[i].data@ == payload_of(s, fs[i].2, fs[i].1)
        }
}

pub open spec fn prepend(
    done: Seq<FramePos>,
    r: Result<Seq<FramePos>, DecodeError>,
) -> Result<Seq<FramePos>, DecodeError> {
    match r {
        Ok(rest) => Ok(done + rest),
        Err(e) => Err(e),
    }
}

/// Every decoded header has a bitrate and a sample rate from the tables.
pub proof fn lemma_decoded_header_wf(w: u32)
    ensures
        decode_header_word(w) is Ok ==> decode_header_word(w)->Ok_0.wf(),
{
}

/// A decoded frame is between 64 and 64513 bytes long: never empty.
pub proof fn lemma_decoded_frame_length(s: Seq<u8>)
    ensures
        decode_frame(s) is Ok ==> 64 <= decode_frame(s)->Ok_0.1 <= 64513,
{
    if s.len() >= 4 {
        let w = be_u32(s[0], s[1], s[2], s[3]);
        lemma_decoded_header_wf(w);
        if decode_header_word(w) is Ok {
            lemma_frame_length_bounds(decode_header_word(w)->Ok_0);
        }
    }
}

proof fn lemma_frame_length_bounds(h: MP3AudioFrameHeader)
    requires
        h.wf(),
    ensures
        64 <= frame_length_of(h) <= 64513,
        frame_length_of(h) as int == h.layer.spec_samples_per_frame() as int * h.bitrate as int
            / h.sample_rate as int + (if h.has_padding {
            1int
        } else {
            0int
        }),
{
    let a = h.layer.spec_samples_per_frame() as int;
    let b = h.bitrate as int;
    let c = h.sample_rate as int;
    assert(384 <= a <= 1152);
    assert(64 <= a * b / c <= 64512) by (nonlinear_arith)
        requires
            384 <= a <= 1152,
            8000 <= b <= 448000,
            8000 <= c <= 48000,
    {
        assert(3072000 <= a * b <= 516096000);
        vstd::arithmetic::div_mod::lemma_div_is_ordered(3072000, a * b, c);
        vstd::arithmetic::div_mod::lemma_div_is_ordered_by_denominator(3072000, c, 48000);
        vstd::arithmetic::div_mod::lemma_div_is_ordered(a * b, 516096000, c);
        vstd::arithmetic::div_mod::lemma_div_is_ordered_by_denominator(516096000, 8000, c);
    }
}

/// A walk from `off` stays inside the buffer and never stalls: every frame starts
/// inside `s` with its 4 header bytes there, is at least 64 bytes long, and starts where
/// the one before it ends; so no two frames overlap, the bytes they consume add up to at
/// most `s.len() - off`, and there are at most `(s.len() - off) / 64 + 1` of them.
pub proof fn lemma_walk_stays_in_buffer(s: Seq<u8>, off: int)
    requires
        0 <= off <= s.len(),
    ensures
        walk_from(s, off) is Ok ==> {
            let fs = walk_from(s, off)->Ok_0;
            &&& forall|i: int|
                0 <= i < fs.len() ==> off <= (#[trigger] fs[i]).2 && fs[i].2 + 4 <= s.len()
                    && fs[i].1 >= 64
            &&& forall|i: int|
                0 <= i < fs.len() - 1 ==> #[trigger] fs[i + 1].2 == fs[i].2 + fs[i].1
            &&& forall|i: int, j: int|
                0 <= i < j < fs.len() ==> #[trigger] fs[i].2 + fs[i].1 <= #[trigger] fs[j].2
            &&& fs.len() * 64 <= s.len() - off + 63
        },
    decreases s.len() - off,
{
    if off < s.len() && walk_from(s, off) is Ok {
        let f = decode_frame(s.subrange(off, s.len() as int))->Ok_0;
        lemma_decoded_frame_length(s.subrange(off, s.len() as int));
        let next = min_int(off + f.1, s.len() as int);
        lemma_walk_stays_in_buffer(s, next);
        let fs = walk_from(s, off)->Ok_0;
        let rest = walk_from(s, next)->Ok_0;
        assert(fs == seq![(f.0, f.1, off)] + rest);
        assert(fs[0].2 + 4 <= s.len());
        if rest.len() > 0 {
            assert(next == off + f.1);
            assert(rest[0].2 == next);
        }
        assert(fs.len() == rest.len() + 1);
        assert forall|i: int, j: int| 0 <= i < j < fs.len() implies #[trigger] fs[i].2
            + fs[i].1 <= #[trigger] fs[j].2 by {
            if i > 0 {
                assert(fs[i] == rest[i - 1] && fs[j] == rest[j - 1]);
            } else {
                assert(fs[j] == rest[j - 1]);
            }
        }
        assert forall|i: int| 0 <= i < fs.len() - 1 implies #[trigger] fs[i + 1].2 == fs[i].2
            + fs[i].1 by {
            assert(fs[i + 1] == rest[i]);
            if i > 0 {
                assert(fs[i] == rest[i - 1]);
                assert(rest[(i - 1) + 1].2 == rest[i - 1].2 + rest[i - 1].1);
            } else {
                assert(fs[0] == (f.0, f.1, off));
                assert(rest[0].2 == next);
            }
        }
        assert forall|i: int| 0 <= i < fs.len() implies off <= (#[trigger] fs[i]).2 && fs[i].2
            + 4 <= s.len() && fs[i].1 >= 64 by {
            if i > 0 {
                assert(fs[i] == rest[i - 1]);
            }
        }
        assert(fs.len() * 64 <= s.len() - off + 63);
    }
}

impl<'a> MP3AudioFrame<'a> {
    /// Decodes the frame that starts at `bytes[0]`: its 4-byte header, its length, and
    /// the payload that follows the header, up to the frame's end or the end of `bytes`.
    pub fn from_bytes(bytes: &'a [u8]) -> (r: Result<Self, DecodeError>)
        ensures
            match decode_frame(bytes@) {
                Err(e) => r == Err::<Self, DecodeError>(e),
                Ok(f) => {
                    &&& r is Ok
                    &&& r->Ok_0.header == f.0
                    &&& r->Ok_0.frame_length == f.1
                    &&& r->Ok_0.data@ == payload_of(bytes@, 0, f.1)
                },
            },
    {
        if bytes.len() < 4 {
            return Err(DecodeError::TruncatedFrameHeader(bytes.len()));
        }
        let head: [u8; 4] = [bytes[0], bytes[1], bytes[2], bytes[3]];
        let header = MP3AudioFrameHeader::from_bytes(&head)?;
        proof {
            lemma_frame_length_bounds(header);
        }
        let padding: u64 = if header.has_padding {
            1
        } else {
            0
        };
        let samples_per_frame = header.layer.get_samples_per_frame() as u64;
        assert(samples_per_frame * (header.bitrate as u64) <= 1152 * 448000) by (nonlinear_arith)
            requires
                samples_per_frame <= 1152,
                header.bitrate <= 448000,
        ;
        let frame_length = (samples_per_frame * (header.bitrate as u64) / (header.sample_rate as u64)
            + padding) as u32;
        let end: usize = if (frame_length as usize) < bytes.len() {
            frame_length as usize
        } else {
            bytes.len()
        };
        Ok(MP3AudioFrame { header, data: slice_subrange(bytes, 4, end), frame_length })
    }
}

/// Walks `bytes` frame by frame from its first byte, each frame starting where the one
/// before ends, until the end of `bytes` is reached. The first frame that fails to
/// decode fails the whole walk.
pub fn parse_audio_frames<'a>(bytes: &'a [u8]) -> (r: Result<Vec<MP3AudioFrame<'a>>, DecodeError>)
    ensures
        match walk_from(bytes@, 0) {
            Err(e) => r == Err::<Vec<MP3AudioFrame<'a>>, DecodeError>(e),
            Ok(fs) => r is Ok && frames_match(r->Ok_0@, fs, bytes@),
        },
{
    let mut frames: Vec<MP3AudioFrame<'a>> = Vec::new();
    let mut current_index: usize = 0;
    let ghost mut done: Seq<FramePos> = Seq::empty();
    while current_index < bytes.len()
        invariant
            current_index <= bytes@.len(),
            walk_from(bytes@, 0) == prepend(done, walk_from(bytes@, current_index as int)),
            frames_match(frames@, done, bytes@),
        decreases bytes@.len() - current_index,
    {
        let rest = slice_subrange(bytes, current_index, bytes.len());
        let frame = MP3AudioFrame::from_bytes(rest)?;
        proof {
            let f = decode_frame(rest@)->Ok_0;
            let next = min_int(current_index + f.1, bytes@.len() as int);
            lemma_decoded_frame_length(rest@);
            assert(rest@ == bytes@.subrange(current_index as int, bytes@.len() as int));
            assert(frame.data@ =~= payload_of(bytes@, current_index as int, f.1));
            let tail = walk_from(bytes@, next);
            if tail is Ok {
                assert(done + (seq![(f.0, f.1, current_index as int)] + tail->Ok_0) =~= (done
                    + seq![(f.0, f.1, current_index as int)]) + tail->Ok_0);
            }
            done = done + seq![(f.0, f.1, current_index as int)];
        }
        if (frame.frame_length as usize) < bytes.len() - current_index {
            current_index = current_index + frame.frame_length as usize;
        } else {
            current_index = bytes.len();
        }
        frames.push(frame);
    }
    assert(done =~= done + Seq::<FramePos>::empty());
    Ok(frames)
}

} // verus!
