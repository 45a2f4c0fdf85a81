use vstd::prelude::*;

verus! {

/// Why a tag, a tag sub-frame or an audio frame header could not be decoded.
///
/// Variants that carry a value report the offending raw bits or bytes.
#[derive(Debug, Clone, Copy, PartialEq, Eq, Structural)]
pub enum DecodeError {
    /// The 11-bit frame sync marker was not all ones; holds the 11 bits read.
    InvalidSyncWord(u16),
    /// The 2-bit MPEG version field held the reserved value (or a value wider than 2 bits).
    InvalidVersion(u8),
    /// The 2-bit layer field held the reserved value (or a value wider than 2 bits).
    InvalidLayer(u8),
    /// The 2-bit sample-rate index was 3 (or wider than 2 bits).
    InvalidSampleRateIndex(u8),
    /// A channel-mode value wider than 2 bits.
    InvalidChannelMode(u8),
    /// A mode-extension value wider than 2 bits.
    InvalidModeExtension(u8),
    /// The bitrate index was "free" (0), the invalid index 15, or wider than 4 bits.
    MissingBitrate(u8),
    /// The buffer does not begin with a 10-byte tag header that starts with `ID3`.
    MissingTagMarker,
    /// Sub-frame sizes can only be read for tag version 3; holds the version found.
    UnsupportedTagVersion(u8),
    /// Fewer bytes remain than a header needs; holds the number of bytes that remain.
    TruncatedFrameHeader(usize),
    /// A declared size runs past the end of the bytes that hold it.
    FrameOverrunsBuffer,
    /// The tag announces an extended header, which this decoder does not read.
    ExtendedHeaderUnsupported,
}

} // verus!
