use vstd::prelude::*;

use crate::error::DecodeError;

verus! {

/// MPEG audio version, from 2 bits of the frame header.
#[derive(Debug, Clone, Copy, PartialEq, Eq, Structural)]
pub enum MPEGVersion {
    /// MPEG-1 (ISO/IEC 11172-3, most common)
    Mpeg1,
    /// MPEG-2 (ISO/IEC 13818-3)
    Mpeg2,
    /// MPEG-2.5 (unofficial extension)
    Mpeg2_5,
}

/// Audio layer, from 2 bits of the frame header.
#[derive(Debug, Clone, Copy, PartialEq, Eq, Structural)]
pub enum Layer {
    Layer1,
    Layer2,
    Layer3,
}

/// Channel mode, from 2 bits of the frame header.
#[derive(Debug, Clone, Copy, PartialEq, Eq, Structural)]
pub enum ChannelMode {
    Stereo,
    JointStereo,
    SingleChannel,
    DualChannel,
}

/// State of intensity and mid-side stereo; meaningful only under joint stereo.
#[derive(Debug, Clone, Copy, PartialEq, Eq, Structural)]
pub enum ModeExtension {
    /// Intensity stereo off, MS stereo off
    Mode1,
    /// Intensity stereo on, MS stereo off
    Mode2,
    /// Intensity stereo off, MS stereo on
    Mode3,
    /// Intensity stereo on, MS stereo on
    Mode4,
}

/// `00` is MPEG-2.5, `01` is reserved, `10` is MPEG-2, `11` is MPEG-1.
pub open spec fn version_of_bits(bits: u8) -> Option<MPEGVersion> {
    if bits == 0 {
        Some(MPEGVersion::Mpeg2_5)
    } else if bits == 2 {
        Some(MPEGVersion::Mpeg2)
    } else if bits == 3 {
        Some(MPEGVersion::Mpeg1)
    } else {
        None
    }
}

/// `01` is Layer III, `10` is Layer II, `11` is Layer I, `00` is reserved.
pub open spec fn layer_of_bits(bits: u8) -> Option<Layer> {
    if bits == 1 {
        Some(Layer::Layer3)
    } else if bits == 2 {
        Some(Layer::Layer2)
    } else if bits == 3 {
        Some(Layer::Layer1)
    } else {
        None
    }
}

pub open spec fn channel_mode_of_bits(bits: u8) -> Option<ChannelMode> {
    if bits == 0 {
        Some(ChannelMode::Stereo)
    } else if bits == 1 {
        Some(ChannelMode::JointStereo)
    } else if bits == 2 {
        Some(ChannelMode::DualChannel)
    } else if bits == 3 {
        Some(ChannelMode::SingleChannel)
    } else {
        None
    }
}

pub open spec fn mode_extension_of_bits(bits: u8) -> Option<ModeExtension> {
    if bits == 0 {
        Some(ModeExtension::Mode1)
    } else if bits == 1 {
        Some(ModeExtension::Mode2)
    } else if bits == 2 {
        Some(ModeExtension::Mode3)
    } else if bits == 3 {
        Some(ModeExtension::Mode4)
    } else {
        None
    }
}

/// Bitrates in kbps for bitrate indices 1 through 14 (the table has no entry for the
/// "free" index 0 nor for the invalid index 15).
pub open spec fn bitrate_table_kbps(version: MPEGVersion, layer: Layer) -> Seq<u32> {
    match (version, layer) {
        (MPEGVersion::Mpeg1, Layer::Layer1) => seq![
            32u32, 64, 36, 128, 160, 192, 224, 256, 288, 320, 352, 384, 416, 448,
        ],
        (MPEGVersion::Mpeg1, Layer::Layer2) => seq![
            32u32, 48, 56, 64, 80, 96, 112, 128, 160, 192, 224, 256, 320, 384,
        ],
        (MPEGVersion::Mpeg1, Layer::Layer3) => seq![
            32u32, 40, 48, 56, 64, 80, 96, 112, 128, 160, 192, 224, 256, 320,
        ],
        (_, Layer::Layer1) => seq![
            32u32, 48, 56, 64, 80, 96, 112, 128, 144, 160, 176, 192, 224, 256,
        ],
        (_, _) => seq![8u32, 16, 24, 32, 40, 48, 56, 64, 80, 96, 112, 128, 144, 160],
    }
}

/// The bitrate in bits per second for a 4-bit bitrate index; `None` for the "free"
/// index 0, for the invalid index 15, and for anything wider than 4 bits.
pub open spec fn bitrate_of(version: MPEGVersion, layer: Layer, index: u8) -> Option<u32> {
    if 1 <= index <= 14 {
        Some((bitrate_table_kbps(version, layer)[index - 1] * 1000) as u32)
    } else {
        None
    }
}

/// Sample rates in Hertz for sample-rate indices 0 through 2.
pub open spec fn sample_rate_table(version: MPEGVersion) -> Seq<u16> {
    match version {
        MPEGVersion::Mpeg1 => seq![44100u16, 48000, 32000],
        MPEGVersion::Mpeg2 => seq![22050u16, 24000, 16000],
        MPEGVersion::Mpeg2_5 => seq![11025u16, 12000, 8000],
    }
}

pub open spec fn sample_rate_of(version: MPEGVersion, index: u8) -> Option<u16> {
    if index <= 2 {
        Some(sample_rate_table(version)[index as int])
    } else {
        None
    }
}

impl MPEGVersion {
    pub open spec fn spec_bits(self) -> u8 {
        match self {
            MPEGVersion::Mpeg1 => 3,
            MPEGVersion::Mpeg2 => 2,
            MPEGVersion::Mpeg2_5 => 0,
        }
    }

    /// Parses the MPEG version from the 2-bit field of a frame header.
    pub fn from_bits(bits: u8) -> (r: Result<Self, DecodeError>)
        ensures
            r == match version_of_bits(bits) {
                Some(v) => Ok(v),
                None => Err(DecodeError::InvalidVersion(bits)),
            },
    {
        match bits {
            0b00 => Ok(MPEGVersion::Mpeg2_5),
            0b10 => Ok(MPEGVersion::Mpeg2),
            0b11 => Ok(MPEGVersion::Mpeg1),
            _ => Err(DecodeError::InvalidVersion(bits)),
        }
    }

    /// The 2-bit field that encodes this version.
    pub fn to_bits(&self) -> (r: u8)
        ensures
            r == self.spec_bits(),
    {
        match self {
            MPEGVersion::Mpeg1 => 0b11,
            MPEGVersion::Mpeg2 => 0b10,
            MPEGVersion::Mpeg2_5 => 0b00,
        }
    }

    /// Returns the bitrate (in bps) for a layer and a 4-bit bitrate index: `None` for the
    /// "free" index 0 and for the invalid index 15; an index wider than 4 bits is an error.
    pub fn get_bitrate(&self, layer: Layer, index: u8) -> (r: Result<Option<u32>, DecodeError>)
        ensures
            index <= 15 ==> r == Ok::<Option<u32>, DecodeError>(bitrate_of(*self, layer, index)),
            index > 15 ==> r == Err::<Option<u32>, DecodeError>(DecodeError::MissingBitrate(index)),
    {
        let table: Vec<u32> = match (self, layer) {
            (MPEGVersion::Mpeg1, Layer::Layer1) => vec![
                32, 64, 36, 128, 160, 192, 224, 256, 288, 320, 352, 384, 416, 448,
            ],
            (MPEGVersion::Mpeg1, Layer::Layer2) => vec![
                32, 48, 56, 64, 80, 96, 112, 128, 160, 192, 224, 256, 320, 384,
            ],
            (MPEGVersion::Mpeg1, Layer::Layer3) => vec![
                32, 40, 48, 56, 64, 80, 96, 112, 128, 160, 192, 224, 256, 320,
            ],
            (_, Layer::Layer1) => vec![
                32, 48, 56, 64, 80, 96, 112, 128, 144, 160, 176, 192, 224, 256,
            ],
            (_, _) => vec![8, 16, 24, 32, 40, 48, 56, 64, 80, 96, 112, 128, 144, 160],
        };
        assert(table@ =~= bitrate_table_kbps(*self, layer));
        if index == 0 {
            // the "free" bitrate: no frame length can be computed from it
            Ok(None)
        } else if index <= 14 {
            // table entry 0 stands for bitrate index 1
            assert(table@[index - 1] <= 448);
            Ok(Some(table[(index as usize) - 1] * 1000))
        } else if index == 15 {
            Ok(None)
        } else {
            Err(DecodeError::MissingBitrate(index))
        }
    }

    /// Returns the sampling rate (in Hertz) for a 2-bit sample-rate index; 3 is invalid.
    pub fn get_sampling_rate(&self, index: u8) -> (r: Result<u16, DecodeError>)
        ensures
            r == match sample_rate_of(*self, index) {
                Some(rate) => Ok(rate),
                None => Err(DecodeError::InvalidSampleRateIndex(index)),
            },
    {
        let table: Vec<u16> = match self {
            MPEGVersion::Mpeg1 => vec![44100, 48000, 32000],
            MPEGVersion::Mpeg2 => vec![22050, 24000, 16000],
            MPEGVersion::Mpeg2_5 => vec![11025, 12000, 8000],
        };
        assert(table@ =~= sample_rate_table(*self));
        if index <= 2 {
            Ok(table[index as usize])
        } else {
            Err(DecodeError::InvalidSampleRateIndex(index))
        }
    }
}

impl Layer {
    pub open spec fn spec_bits(self) -> u8 {
        match self {
            Layer::Layer1 => 3,
            Layer::Layer2 => 2,
            Layer::Layer3 => 1,
        }
    }

    /// 384 samples per frame for Layer I, 1152 for Layers II and III.
    pub open spec fn spec_samples_per_frame(self) -> u16 {
        match self {
            Layer::Layer1 => 384,
            _ => 1152,
        }
    }

    /// Parses the layer from the 2-bit field of a frame header.
    pub fn from_bits(bits: u8) -> (r: Result<Self, DecodeError>)
        ensures
            r == match layer_of_bits(bits) {
                Some(l) => Ok(l),
                None => Err(DecodeError::InvalidLayer(bits)),
            },
    {
        match bits {
            0b01 => Ok(Layer::Layer3),
            0b10 => Ok(Layer::Layer2),
            0b11 => Ok(Layer::Layer1),
            _ => Err(DecodeError::InvalidLayer(bits)),
        }
    }

    /// The 2-bit field that encodes this layer.
    pub fn to_bits(&self) -> (r: u8)
        ensures
            r == self.spec_bits(),
    {
        match self {
            Layer::Layer1 => 0b11,
            Layer::Layer2 => 0b10,
            Layer::Layer3 => 0b01,
        }
    }

    pub fn get_samples_per_frame(&self) -> (r: u16)
        ensures
            r == self.spec_samples_per_frame(),
    {
        match self {
            Layer::Layer1 => 384,
            _ => 1152,
        }
    }
}

impl ChannelMode {
    pub open spec fn spec_bits(self) -> u8 {
        match self {
            ChannelMode::Stereo => 0,
            ChannelMode::JointStereo => 1,
            ChannelMode::DualChannel => 2,
            ChannelMode::SingleChannel => 3,
        }
    }

    /// Parses the channel mode from its 2-bit field.
    pub fn from_bits(bits: u8) -> (r: Result<Self, DecodeError>)
        ensures
            r == match channel_mode_of_bits(bits) {
                Some(m) => Ok(m),
                None => Err(DecodeError::InvalidChannelMode(bits)),
            },
    {
        match bits {
            0b00 => Ok(ChannelMode::Stereo),
            0b01 => Ok(ChannelMode::JointStereo),
            0b10 => Ok(ChannelMode::DualChannel),
            0b11 => Ok(ChannelMode::SingleChannel),
            _ => Err(DecodeError::InvalidChannelMode(bits)),
        }
    }

    /// The 2-bit field that encodes this channel mode.
    pub fn to_bits(&self) -> (r: u8)
        ensures
            r == self.spec_bits(),
    {
        match self {
            ChannelMode::Stereo => 0b00,
            ChannelMode::JointStereo => 0b01,
            ChannelMode::DualChannel => 0b10,
            ChannelMode::SingleChannel => 0b11,
        }
    }
}

impl ModeExtension {
    pub open spec fn spec_bits(self) -> u8 {
        match self {
            ModeExtension::Mode1 => 0,
            ModeExtension::Mode2 => 1,
            ModeExtension::Mode3 => 2,
            ModeExtension::Mode4 => 3,
        }
    }

    /// Parses the mode extension from its 2-bit field.
    pub fn from_bits(bits: u8) -> (r: Result<Self, DecodeError>)
        ensures
            r == match mode_extension_of_bits(bits) {
                Some(m) => Ok(m),
                None => Err(DecodeError::InvalidModeExtension(bits)),
            },
    {
        match bits {
            0b00 => Ok(ModeExtension::Mode1),
            0b01 => Ok(ModeExtension::Mode2),
            0b10 => Ok(ModeExtension::Mode3),
            0b11 => Ok(ModeExtension::Mode4),
            _ => Err(DecodeError::InvalidModeExtension(bits)),
        }
    }

    /// The 2-bit field that encodes this mode extension.
    pub fn to_bits(&self) -> (r: u8)
        ensures
            r == self.spec_bits(),
    {
        match self {
            ModeExtension::Mode1 => 0b00,
            ModeExtension::Mode2 => 0b01,
            ModeExtension::Mode3 => 0b10,
            ModeExtension::Mode4 => 0b11,
        }
    }
}

/// A decoded 4-byte audio frame header.
#[derive(Debug, Clone, Copy, PartialEq, Eq, Structural)]
pub struct MP3AudioFrameHeader {
    pub mpeg_version: MPEGVersion,
    pub layer: Layer,
    pub has_crc: bool,
    /// The bitrate in bps
    pub bitrate: u32,
    /// Sampling rate in Hertz
    pub sample_rate: u16,
    pub has_padding: bool,
    pub channel_mode: ChannelMode,
    /// The state of the stereo intensity and mid-side (MS) stereo.
    ///
    /// Only used when channel_mode is `ChannelMode::JointStereo`
    pub mode_extension: ModeExtension,
    pub is_copywrighted: bool,
    /// Whether this bitstream is original or a copy
    pub is_original: bool,
}

/// The big-endian 32-bit value of four bytes.
pub open spec fn be_u32(b0: u8, b1: u8, b2: u8, b3: u8) -> u32 {
    (b0 as int * 0x1000000 + b1 as int * 0x10000 + b2 as int * 0x100 + b3 as int) as u32
}

/// The 11-bit frame sync marker at the top of a header word.
pub open spec fn sync_bits(w: u32) -> u16 {
    (w >> 21u32) as u16
}

/// Decoding of a header word, fields taken from the most significant bit down:
/// sync (11), version (2), layer (2), protection (1), bitrate index (4),
/// sample-rate index (2), padding (1), private (1), channel mode (2),
/// mode extension (2), copyright (1), original (1), emphasis (2).
pub open spec fn decode_header_word(w: u32) -> Result<MP3AudioFrameHeader, DecodeError> {
    let vb = ((w >> 19u32) & 3) as u8;
    let lb = ((w >> 17u32) & 3) as u8;
    let bi = ((w >> 12u32) & 15) as u8;
    let si = ((w >> 10u32) & 3) as u8;
    let cb = ((w >> 6u32) & 3) as u8;
    let mb = ((w >> 4u32) & 3) as u8;
    if sync_bits(w) != 0x7FF {
        Err(DecodeError::InvalidSyncWord(sync_bits(w)))
    } else if version_of_bits(vb).is_none() {
        Err(DecodeError::InvalidVersion(vb))
    } else if layer_of_bits(lb).is_none() {
        Err(DecodeError::InvalidLayer(lb))
    } else if bitrate_of(version_of_bits(vb).unwrap(), layer_of_bits(lb).unwrap(), bi).is_none() {
        Err(DecodeError::MissingBitrate(bi))
    } else if sample_rate_of(version_of_bits(vb).unwrap(), si).is_none() {
        Err(DecodeError::InvalidSampleRateIndex(si))
    } else {
        Ok(
            MP3AudioFrameHeader {
                mpeg_version: version_of_bits(vb).unwrap(),
                layer: layer_of_bits(lb).unwrap(),
                has_crc: (w >> 16u32) & 1 == 0,
                bitrate: bitrate_of(version_of_bits(vb).unwrap(), layer_of_bits(lb).unwrap(), bi).unwrap(),
                sample_rate: sample_rate_of(version_of_bits(vb).unwrap(), si).unwrap(),
                has_padding: (w >> 9u32) & 1 == 1,
                channel_mode: channel_mode_of_bits(cb).unwrap(),
                mode_extension: mode_extension_of_bits(mb).unwrap(),
                is_copywrighted: (w >> 3u32) & 1 == 1,
                is_original: (w >> 2u32) & 1 == 1,
            },
        )
    }
}

impl MP3AudioFrameHeader {
    /// Every decoded header carries a bitrate and a sample rate that the tables give.
    pub open spec fn wf(self) -> bool {
        &&& 8000 <= self.bitrate <= 448000
        &&& 8000 <= self.sample_rate <= 48000
    }

    /// Decodes a big-endian 4-byte frame header; fails on the first field that does not
    /// resolve, and with `MissingBitrate` where the bitrate is "free" or invalid.
    pub fn from_bytes(bytes: &[u8; 4]) -> (r: Result<Self, DecodeError>)
        ensures
            r == decode_header_word(be_u32(bytes@[0], bytes@[1], bytes@[2], bytes@[3])),
            sync_bits(be_u32(bytes@[0], bytes@[1], bytes@[2], bytes@[3])) != 0x7FF <==> r
                is Err && r->Err_0 is InvalidSyncWord,
            r is Ok ==> r->Ok_0.wf(),
    {
        let data: u32 = (bytes[0] as u32) * 0x1000000 + (bytes[1] as u32) * 0x10000 + (
        bytes[2] as u32) * 0x100 + (bytes[3] as u32);
        assert(data >> 21u32 <= 0x7FF && (data >> 19u32) & 3 <= 3 && (data >> 17u32) & 3 <= 3
            && (data >> 12u32) & 15 <= 15 && (data >> 10u32) & 3 <= 3 && (data >> 6u32) & 3 <= 3
            && (data >> 4u32) & 3 <= 3) by (bit_vector);
        let sync_word_bits = (data >> 21u32) as u16;
        if sync_word_bits != 0x7FF {
            return Err(DecodeError::InvalidSyncWord(sync_word_bits));
        }
        let mpeg_version = MPEGVersion::from_bits(((data >> 19u32) & 0b11) as u8)?;
        let layer = Layer::from_bits(((data >> 17u32) & 0b11) as u8)?;
        let has_crc = (data >> 16u32) & 0b1 == 0;
        let bitrate_index = ((data >> 12u32) & 0b1111) as u8;
        let bitrate = match mpeg_version.get_bitrate(layer, bitrate_index) {
            Ok(Some(b)) => b,
            _ => return Err(DecodeError::MissingBitrate(bitrate_index)),
        };
        let sample_rate = mpeg_version.get_sampling_rate(((data >> 10u32) & 0b11) as u8)?;
        let has_padding = (data >> 9u32) & 0b1 == 1;
        // bit 8 is the private bit: read by nobody
        let channel_mode = ChannelMode::from_bits(((data >> 6u32) & 0b11) as u8)?;
        let mode_extension = ModeExtension::from_bits(((data >> 4u32) & 0b11) as u8)?;
        let is_copywrighted = (data >> 3u32) & 0b1 == 1;
        let is_original = (data >> 2u32) & 0b1 == 1;
        // the 2 emphasis bits are ignored
        Ok(
            MP3AudioFrameHeader {
                mpeg_version,
                layer,
                has_crc,
                bitrate,
                sample_rate,
                has_padding,
                channel_mode,
                mode_extension,
                is_copywrighted,
                is_original,
            },
        )
    }

    /// Length of one frame in nanoseconds: samples per frame over the sample rate,
    /// rounded down.
    pub fn duration_per_frame_nanos(&self) -> (r: u64)
        requires
            self.wf(),
        ensures
            r == self.layer.spec_samples_per_frame() as int * 1_000_000_000 / self.sample_rate as int,
    {
        (self.layer.get_samples_per_frame() as u64) * 1_000_000_000 / (self.sample_rate as u64)
    }
}

/// The sync marker alone decides whether decoding fails with `InvalidSyncWord`: a
/// header word whose top 11 bits are all ones never fails that check, and any other
/// word fails with `InvalidSyncWord`, reporting those 11 bits.
pub proof fn lemma_sync_word_decides(b0: u8, b1: u8, b2: u8, b3: u8)
    ensures
        ({
            let w = be_u32(b0, b1, b2, b3);
            &&& sync_bits(w) == 0x7FF ==> !(decode_header_word(w) is Err && decode_header_word(
                w,
            )->Err_0 is InvalidSyncWord)
            &&& sync_bits(w) != 0x7FF ==> decode_header_word(w) == Err::<
                MP3AudioFrameHeader,
                DecodeError,
            >(DecodeError::InvalidSyncWord(sync_bits(w)))
        }),
{
}

/// Encoding a version, layer, channel mode or mode extension as bits and decoding the
/// bits gives it back.
pub proof fn lemma_bits_round_trip_from_values(
    v: MPEGVersion,
    l: Layer,
    c: ChannelMode,
    m: ModeExtension,
)
    ensures
        version_of_bits(v.spec_bits()) == Some(v),
        layer_of_bits(l.spec_bits()) == Some(l),
        channel_mode_of_bits(c.spec_bits()) == Some(c),
        mode_extension_of_bits(m.spec_bits()) == Some(m),
{
}

/// Decoding any 2-bit value and encoding the result gives the bits back; the only
/// 2-bit values that do not decode are the reserved version `01` and layer `00`.
pub proof fn lemma_bits_round_trip_from_bits(bits: u8)
    requires
        bits <= 3,
    ensures
        version_of_bits(bits) is Some <==> bits != 1,
        version_of_bits(bits) is Some ==> version_of_bits(bits)->Some_0.spec_bits() == bits,
        layer_of_bits(bits) is Some <==> bits != 0,
        layer_of_bits(bits) is Some ==> layer_of_bits(bits)->Some_0.spec_bits() == bits,
        channel_mode_of_bits(bits) is Some,
        channel_mode_of_bits(bits)->Some_0.spec_bits() == bits,
        mode_extension_of_bits(bits) is Some,
        mode_extension_of_bits(bits)->Some_0.spec_bits() == bits,
{
}

/// The bitrate lookup depends on (version, layer, index) alone: indices 1 to 14 give a
/// whole number of kbps between 8 and 448 kbps, and the "free" index 0 and the invalid
/// index 15 give none.
pub proof fn lemma_bitrate_lookup(v: MPEGVersion, l: Layer, index: u8)
    ensures
        1 <= index <= 14 <==> bitrate_of(v, l, index) is Some,
        1 <= index <= 14 ==> {
            let b = bitrate_of(v, l, index)->Some_0;
            &&& b == bitrate_table_kbps(v, l)[index - 1] * 1000
            &&& 8000 <= b <= 448000
            &&& b % 1000 == 0
        },
{
}

} // verus!
