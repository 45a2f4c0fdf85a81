use vstd::prelude::*;
use vstd::slice::{slice_subrange, slice_to_vec};

use crate::audio_header::be_u32;
use crate::error::DecodeError;

verus! {

/// Identifier of a tag sub-frame: one of the known 4-byte ASCII identifiers, or the
/// raw bytes of any other.
#[derive(Debug, PartialEq)]
pub enum ID3v2MetadataFrameID {
    Title,
    Artist,
    Album,
    Year,
    Comment,
    TrackNumber,
    Genre,
    Txxx,
    /// For non-standard frames
    Custom(Vec<u8>),
}

/// The known identifier that the bytes `s` spell, if any: `TIT2`, `TPE1`, `TALB`,
/// `TYER`, `COMM`, `TRCK`, `TCON` or `TXXX` in ASCII.
pub open spec fn known_id_of(s: Seq<u8>) -> Option<ID3v2MetadataFrameID> {
    if s == seq![0x54u8, 0x49u8, 0x54u8, 0x32u8] {
        Some(ID3v2MetadataFrameID::Title)
    } else if s == seq![0x54u8, 0x50u8, 0x45u8, 0x31u8] {
        Some(ID3v2MetadataFrameID::Artist)
    } else if s == seq![0x54u8, 0x41u8, 0x4Cu8, 0x42u8] {
        Some(ID3v2MetadataFrameID::Album)
    } else if s == seq![0x54u8, 0x59u8, 0x45u8, 0x52u8] {
        Some(ID3v2MetadataFrameID::Year)
    } else if s == seq![0x43u8, 0x4Fu8, 0x4Du8, 0x4Du8] {
        Some(ID3v2MetadataFrameID::Comment)
    } else if s == seq![0x54u8, 0x52u8, 0x43u8, 0x4Bu8] {
        Some(ID3v2MetadataFrameID::TrackNumber)
    } else if s == seq![0x54u8, 0x43u8, 0x4Fu8, 0x4Eu8] {
        Some(ID3v2MetadataFrameID::Genre)
    } else if s == seq![0x54u8, 0x58u8, 0x58u8, 0x58u8] {
        Some(ID3v2MetadataFrameID::Txxx)
    } else {
        None
    }
}

/// `id` is what the identifier bytes `s` decode to: the known identifier they spell,
/// or else `Custom` holding them.
pub open spec fn id_decodes_from(id: ID3v2MetadataFrameID, s: Seq<u8>) -> bool {
    match known_id_of(s) {
        Some(k) => id == k,
        None => id is Custom && id->Custom_0@ == s,
    }
}

/// `bytes` is exactly `[a, b, c, d]`.
fn is_four(bytes: &[u8], a: u8, b: u8, c: u8, d: u8) -> (r: bool)
    ensures
        r == (bytes@ == seq![a, b, c, d]),
{
    let r = bytes.len() == 4 && bytes[0] == a && bytes[1] == b && bytes[2] == c && bytes[3] == d;
    proof {
        if bytes@.len() == 4 {
            assert(r ==> bytes@ =~= seq![a, b, c, d]);
        }
    }
    r
}

impl ID3v2MetadataFrameID {
    /// The identifier's bytes.
    pub open spec fn spec_bytes(&self) -> Seq<u8> {
        match self {
            ID3v2MetadataFrameID::Title => seq![0x54u8, 0x49u8, 0x54u8, 0x32u8],
            ID3v2MetadataFrameID::Artist => seq![0x54u8, 0x50u8, 0x45u8, 0x31u8],
            ID3v2MetadataFrameID::Album => seq![0x54u8, 0x41u8, 0x4Cu8, 0x42u8],
            ID3v2MetadataFrameID::Year => seq![0x54u8, 0x59u8, 0x45u8, 0x52u8],
            ID3v2MetadataFrameID::Comment => seq![0x43u8, 0x4Fu8, 0x4Du8, 0x4Du8],
            ID3v2MetadataFrameID::TrackNumber => seq![0x54u8, 0x52u8, 0x43u8, 0x4Bu8],
            ID3v2MetadataFrameID::Genre => seq![0x54u8, 0x43u8, 0x4Fu8, 0x4Eu8],
            ID3v2MetadataFrameID::Txxx => seq![0x54u8, 0x58u8, 0x58u8, 0x58u8],
            ID3v2MetadataFrameID::Custom(bytes) => bytes@,
        }
    }

    /// The identifier's bytes.
    pub fn to_bytes(&self) -> (r: Vec<u8>)
        ensures
            r@ == self.spec_bytes(),
    {
        match self {
            ID3v2MetadataFrameID::Title => vec![0x54u8, 0x49u8, 0x54u8, 0x32u8],
            ID3v2MetadataFrameID::Artist => vec![0x54u8, 0x50u8, 0x45u8, 0x31u8],
            ID3v2MetadataFrameID::Album => vec![0x54u8, 0x41u8, 0x4Cu8, 0x42u8],
            ID3v2MetadataFrameID::Year => vec![0x54u8, 0x59u8, 0x45u8, 0x52u8],
            ID3v2MetadataFrameID::Comment => vec![0x43u8, 0x4Fu8, 0x4Du8, 0x4Du8],
            ID3v2MetadataFrameID::TrackNumber => vec![0x54u8, 0x52u8, 0x43u8, 0x4Bu8],
            ID3v2MetadataFrameID::Genre => vec![0x54u8, 0x43u8, 0x4Fu8, 0x4Eu8],
            ID3v2MetadataFrameID::Txxx => vec![0x54u8, 0x58u8, 0x58u8, 0x58u8],
            ID3v2MetadataFrameID::Custom(bytes) => bytes.clone(),
        }
    }

    /// Maps identifier bytes to the known identifier they spell; anything else is kept
    /// verbatim as `Custom`. Never `None`.
    pub fn from_bytes(bytes: &[u8]) -> (r: Option<Self>)
        ensures
            r is Some,
            id_decodes_from(r->Some_0, bytes@),
    {
        if is_four(bytes, 0x54u8, 0x49u8, 0x54u8, 0x32u8) {
            Some(ID3v2MetadataFrameID::Title)
        } else if is_four(bytes, 0x54u8, 0x50u8, 0x45u8, 0x31u8) {
            Some(ID3v2MetadataFrameID::Artist)
        } else if is_four(bytes, 0x54u8, 0x41u8, 0x4Cu8, 0x42u8) {
            Some(ID3v2MetadataFrameID::Album)
        } else if is_four(bytes, 0x54u8, 0x59u8, 0x45u8, 0x52u8) {
            Some(ID3v2MetadataFrameID::Year)
        } else if is_four(bytes, 0x43u8, 0x4Fu8, 0x4Du8, 0x4Du8) {
            Some(ID3v2MetadataFrameID::Comment)
        } else if is_four(bytes, 0x54u8, 0x52u8, 0x43u8, 0x4Bu8) {
            Some(ID3v2MetadataFrameID::TrackNumber)
        } else if is_four(bytes, 0x54u8, 0x43u8, 0x4Fu8, 0x4Eu8) {
            Some(ID3v2MetadataFrameID::Genre)
        } else if is_four(bytes, 0x54u8, 0x58u8, 0x58u8, 0x58u8) {
            Some(ID3v2MetadataFrameID::Txxx)
        } else {
            Some(ID3v2MetadataFrameID::Custom(slice_to_vec(bytes)))
        }
    }
}

/// One sub-frame of a tag: a 10-byte sub-header (identifier, data size, flags) and a
/// view of its data.
#[derive(Debug)]
pub struct ID3v2MetadataFrame<'a> {
    /// 4-char identifier of this frame
    pub id: ID3v2MetadataFrameID,
    /// The size of this frame's data
    pub data_size: u32,
    /// The size including this frame's header
    pub size: u32,
    pub flags: u16,
    pub data: &'a [u8],
}

/// The tag version whose sub-frame sizes this decoder reads.
pub const SUPPORTED_VERSION: u8 = 3;

pub open spec fn be_u16(b0: u8, b1: u8) -> u16 {
    (b0 as int * 0x100 + b1 as int) as u16
}

/// The data size that a sub-frame header at the start of `s` declares: a plain
/// big-endian 32-bit integer in bytes 4 to 7.
pub open spec fn declared_data_size(s: Seq<u8>) -> u32 {
    be_u32(s[4], s[5], s[6], s[7])
}

/// The total size of the sub-frame at the start of `s`: data size plus its 10-byte header.
pub open spec fn declared_total_size(s: Seq<u8>) -> int {
    declared_data_size(s) as int + 10
}

/// Why the sub-frame at the start of `s` cannot be decoded, if it cannot: fewer than
/// 10 bytes, a tag version other than 3, or a total size that runs past `s` (or past
/// what 32 bits hold).
pub open spec fn frame_error(s: Seq<u8>, version: u8) -> Option<DecodeError> {
    if s.len() < 10 {
        Some(DecodeError::TruncatedFrameHeader(s.len() as usize))
    } else if version != SUPPORTED_VERSION {
        Some(DecodeError::UnsupportedTagVersion(version))
    } else if declared_total_size(s) > s.len() || declared_total_size(s) > u32::MAX {
        Some(DecodeError::FrameOverrunsBuffer)
    } else {
        None
    }
}

impl<'a> ID3v2MetadataFrame<'a> {
    /// `self` is the sub-frame that the bytes at the start of `s` hold.
    pub open spec fn decoded_from(&self, s: Seq<u8>) -> bool {
        &&& id_decodes_from(self.id, s.subrange(0, 4))
        &&& self.data_size == declared_data_size(s)
        &&& self.size == declared_total_size(s)
        &&& self.flags == be_u16(s[8], s[9])
        &&& self.data@ == s.subrange(10, declared_total_size(s))
    }

    /// Decodes the sub-frame that starts at `bytes[0]` of a tag of version `version`.
    pub fn from_bytes(bytes: &'a [u8], version: u8) -> (r: Result<Self, DecodeError>)
        ensures
            match frame_error(bytes@, version) {
                Some(e) => r == Err::<Self, DecodeError>(e),
                None => r is Ok && r->Ok_0.decoded_from(bytes@),
            },
    {
        if bytes.len() < 10 {
            return Err(DecodeError::TruncatedFrameHeader(bytes.len()));
        }
        let data_size = Self::parse_size(&[bytes[4], bytes[5], bytes[6], bytes[7]], version)?;
        if data_size as usize > bytes.len() - 10 || data_size > u32::MAX - 10 {
            return Err(DecodeError::FrameOverrunsBuffer);
        }
        let size = data_size + 10;
        let id = ID3v2MetadataFrameID::from_bytes(slice_subrange(bytes, 0, 4)).unwrap();
        Ok(
            ID3v2MetadataFrame {
                id,
                data_size,
                size,
                flags: (bytes[8] as u16) * 0x100 + (bytes[9] as u16),
                data: slice_subrange(bytes, 10, size as usize),
            },
        )
    }

    /// Reads a sub-frame's data size: big-endian, and only for tag version 3.
    fn parse_size(bytes: &[u8; 4], version: u8) -> (r: Result<u32, DecodeError>)
        ensures
            version == SUPPORTED_VERSION ==> r == Ok::<u32, DecodeError>(
                be_u32(bytes@[0], bytes@[1], bytes@[2], bytes@[3]),
            ),
            version != SUPPORTED_VERSION ==> r == Err::<u32, DecodeError>(
                DecodeError::UnsupportedTagVersion(version),
            ),
    {
        if version != SUPPORTED_VERSION {
            return Err(DecodeError::UnsupportedTagVersion(version));
        }
        Ok((bytes[0] as u32) * 0x1000000 + (bytes[1] as u32) * 0x10000 + (bytes[2] as u32) * 0x100
            + (bytes[3] as u32))
    }
}

/// The top-level tag header with the sub-frames of the tag, in stream order.
#[derive(Debug)]
pub struct ID3v2Header<'a> {
    pub version: u8,
    pub flags: u8,
    /// Size of the metadata after which the audio frames begin.
    ///
    /// Excludes the size of the tag header itself (10 bytes)
    pub metadata_size: u32,
    /// The total size of the tag
    pub size: u32,
    pub metadata_frames: Vec<ID3v2MetadataFrame<'a>>,
}

/// The flag bit that announces an extended header.
pub const EXTENDED_HEADER_FLAG: u8 = 0x40;

/// The buffer begins with a 10-byte tag header whose first 3 bytes are `ID3` in ASCII.
pub open spec fn has_tag_marker(s: Seq<u8>) -> bool {
    s.len() >= 10 && s.subrange(0, 3) == seq![0x49u8, 0x44, 0x33]
}

/// A 28-bit "synchsafe" size: `b6 << 21 | b7 << 14 | b8 << 7 | b9`.
pub open spec fn synchsafe(b6: u8, b7: u8, b8: u8, b9: u8) -> u32 {
    ((b6 as u32) << 21u32) | ((b7 as u32) << 14u32) | ((b8 as u32) << 7u32) | (b9 as u32)
}

/// The metadata size that the tag header at the start of `s` declares.
pub open spec fn declared_metadata_size(s: Seq<u8>) -> u32 {
    synchsafe(s[6], s[7], s[8], s[9])
}

/// The offsets of the sub-frames of `body` from `off` on, each starting where the one
/// before ends, until the end of `body`; the first sub-frame that fails to decode fails
/// the whole walk.
pub open spec fn sub_frame_walk(body: Seq<u8>, off: int, version: u8) -> Result<Seq<int>, DecodeError>
    decreases body.len() - off,
{
    if off < 0 || off >= body.len() {
        Ok(Seq::empty())
    } else {
        let rest = body.subrange(off, body.len() as int);
        match frame_error(rest, version) {
            Some(e) => Err(e),
            None => match sub_frame_walk(body, off + declared_total_size(rest), version) {
                Err(e) => Err(e),
                Ok(tail) => Ok(seq![off] + tail),
            },
        }
    }
}

/// The sub-frames `v` are those that start at `starts` in `body`.
pub open spec fn sub_frames_match(v: Seq<ID3v2MetadataFrame>, starts: Seq<int>, body: Seq<u8>) -> bool {
    &&& v.len() == starts.len()
    &&& forall|i: int| 0 <= i < starts.len() ==> 0 <= #[trigger] starts[i] < body.len()
    &&& forall|i: int|
        0 <= i < v.len() ==> (#[trigger] v[i]).decoded_from(
            body.subrange(starts[i], body.len() as int),
        )
}

pub open spec fn prepend_starts(done: Seq<int>, r: Result<Seq<int>, DecodeError>) -> Result<Seq<int>, DecodeError> {
    match r {
        Ok(rest) => Ok(done + rest),
        Err(e) => Err(e),
    }
}

/// A synchsafe size is below 2^28 when the reserved top bit of each byte is clear, and
/// is then the sum of the four 7-bit groups; it is below 2^29 in any case.
pub proof fn lemma_synchsafe_value(b6: u8, b7: u8, b8: u8, b9: u8)
    ensures
        synchsafe(b6, b7, b8, b9) < 0x2000_0000,
        b6 < 0x80 && b7 < 0x80 && b8 < 0x80 && b9 < 0x80 ==> synchsafe(b6, b7, b8, b9) as int
            == b6 as int * 0x20_0000 + b7 as int * 0x4000 + b8 as int * 0x80 + b9 as int,
{
    assert(synchsafe(b6, b7, b8, b9) < 0x2000_0000) by (bit_vector);
    assert(b6 < 0x80 && b7 < 0x80 && b8 < 0x80 && b9 < 0x80 ==> synchsafe(b6, b7, b8, b9)
        == b6 as u32 * 0x20_0000 + b7 as u32 * 0x4000 + b8 as u32 * 0x80 + b9 as u32) by (bit_vector);
}

impl<'a> ID3v2Header<'a> {
    /// Decodes the tag at the start of `bytes`:
    /// `bytes[0..3]` is `ID3`, `bytes[3]` the version, `bytes[5]` the flags,
    /// `bytes[6..10]` the synchsafe metadata size, then the sub-frames up to the tag's end.
    /// A tag that runs past `bytes`, or that has an extended header, is refused.
    pub fn from_bytes(bytes: &'a [u8]) -> (r: Result<Self, DecodeError>)
        ensures
            !has_tag_marker(bytes@) ==> r == Err::<Self, DecodeError>(DecodeError::MissingTagMarker),
            has_tag_marker(bytes@) ==> {
                let total = declared_metadata_size(bytes@) + 10;
                if total > bytes@.len() {
                    r == Err::<Self, DecodeError>(DecodeError::FrameOverrunsBuffer)
                } else if bytes@[5] & EXTENDED_HEADER_FLAG == EXTENDED_HEADER_FLAG {
                    r == Err::<Self, DecodeError>(DecodeError::ExtendedHeaderUnsupported)
                } else {
                    let body = bytes@.subrange(10, total);
                    match sub_frame_walk(body, 0, bytes@[3]) {
                        Err(e) => r == Err::<Self, DecodeError>(e),
                        Ok(starts) => {
                            &&& r is Ok
                            &&& r->Ok_0.version == bytes@[3]
                            &&& r->Ok_0.flags == bytes@[5]
                            &&& r->Ok_0.metadata_size == declared_metadata_size(bytes@)
                            &&& r->Ok_0.size == total
                            &&& sub_frames_match(r->Ok_0.metadata_frames@, starts, body)
                        },
                    }
                }
            },
    {
        if !Self::has_flag(bytes) {
            return Err(DecodeError::MissingTagMarker);
        }
        let metadata_size = Self::parse_size(bytes);
        proof {
            lemma_synchsafe_value(bytes@[6], bytes@[7], bytes@[8], bytes@[9]);
        }
        let size = metadata_size + 10;
        if size as usize > bytes.len() {
            return Err(DecodeError::FrameOverrunsBuffer);
        }
        let version = bytes[3];
        let flags = bytes[5];
        if Self::has_extended_header(flags) {
            return Err(DecodeError::ExtendedHeaderUnsupported);
        }
        let metadata_frames = Self::build_metadata_frames(slice_subrange(bytes, 10, size as usize), version)?;
        Ok(ID3v2Header { version, flags, metadata_size, size, metadata_frames })
    }

    fn has_flag(bytes: &[u8]) -> (r: bool)
        ensures
            r == has_tag_marker(bytes@),
    {
        let r = bytes.len() >= 10 && bytes[0] == 0x49 && bytes[1] == 0x44 && bytes[2] == 0x33;
        proof {
            if bytes@.len() >= 10 {
                assert(r ==> bytes@.subrange(0, 3) =~= seq![0x49u8, 0x44, 0x33]);
                assert(bytes@.subrange(0, 3) == seq![0x49u8, 0x44, 0x33] ==> bytes@.subrange(0, 3)[0]
                    == 0x49 && bytes@.subrange(0, 3)[1] == 0x44 && bytes@.subrange(0, 3)[2] == 0x33);
            }
        }
        r
    }

    fn has_extended_header(flags: u8) -> (r: bool)
        ensures
            r == (flags & EXTENDED_HEADER_FLAG == EXTENDED_HEADER_FLAG),
    {
        let mask = EXTENDED_HEADER_FLAG;
        (flags & mask) == mask
    }

    fn parse_size(bytes: &[u8]) -> (r: u32)
        requires
            bytes@.len() >= 10,
        ensures
            r == declared_metadata_size(bytes@),
    {
        ((bytes[6] as u32) << 21u32) | ((bytes[7] as u32) << 14u32) | ((bytes[8] as u32) << 7u32) | (
        bytes[9] as u32)
    }

    fn build_metadata_frames(bytes: &'a [u8], version: u8) -> (r: Result<Vec<ID3v2MetadataFrame<'a>>, DecodeError>)
        ensures
            match sub_frame_walk(bytes@, 0, version) {
                Err(e) => r == Err::<Vec<ID3v2MetadataFrame<'a>>, DecodeError>(e),
                Ok(starts) => r is Ok && sub_frames_match(r->Ok_0@, starts, bytes@),
            },
    {
        let mut frames: Vec<ID3v2MetadataFrame<'a>> = Vec::new();
        let mut current_index: usize = 0;
        let ghost mut done: Seq<int> = Seq::empty();
        while current_index < bytes.len()
            invariant
                current_index <= bytes@.len(),
                sub_frame_walk(bytes@, 0, version) == prepend_starts(
                    done,
                    sub_frame_walk(bytes@, current_index as int, version),
                ),
                sub_frames_match(frames@, done, bytes@),
            decreases bytes@.len() - current_index,
        {
            let rest = slice_subrange(bytes, current_index, bytes.len());
            let frame = ID3v2MetadataFrame::from_bytes(rest, version)?;
            proof {
                assert(rest@ == bytes@.subrange(current_index as int, bytes@.len() as int));
                let next = current_index + declared_total_size(rest@);
                let tail = sub_frame_walk(bytes@, next, version);
                if tail is Ok {
                    assert(done + (seq![current_index as int] + tail->Ok_0) =~= (done
                        + seq![current_index as int]) + tail->Ok_0);
                }
                done = done + seq![current_index as int];
            }
            current_index = current_index + frame.size as usize;
            let ghost before = frames@;
            frames.push(frame);
            proof {
                assert(frames@ == before.push(frame));
                assert forall|i: int| 0 <= i < frames@.len() implies (#[trigger] frames@[i]).decoded_from(
                    bytes@.subrange(done[i], bytes@.len() as int),
                ) by {
                    if i < before.len() {
                        assert(frames@[i] == before[i]);
                    }
                }
            }
        }
        assert(done =~= done + Seq::<int>::empty());
        Ok(frames)
    }
}

} // verus!
