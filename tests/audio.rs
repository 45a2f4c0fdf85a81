use mp3_meta::audio_frame::{parse_audio_frames, MP3AudioFrame};
use mp3_meta::audio_header::{ChannelMode, Layer, MP3AudioFrameHeader, MPEGVersion, ModeExtension};
use mp3_meta::error::DecodeError;

#[test]
fn test_mp3_audio_frame_header_from_bytes() {
    let header_bytes = [0xFF, 0xFB, 0x90, 0x44];
    let header = MP3AudioFrameHeader::from_bytes(&header_bytes).unwrap();

    assert_eq!(header.mpeg_version, MPEGVersion::Mpeg1);
    assert_eq!(header.layer, Layer::Layer3);
    assert_eq!(header.has_crc, false);
    assert_eq!(header.bitrate, 128000);
    assert_eq!(header.sample_rate, 44100);
    assert_eq!(header.has_padding, false);
    assert_eq!(header.channel_mode, ChannelMode::JointStereo);
    assert_eq!(header.is_copywrighted, false);
    assert_eq!(header.is_original, true);
}

#[test]
fn test_mp3_audio_frame_header_from_bytes_case2() {
    let header_bytes = [0xFF, 0xFB, 0x90, 0x64];
    let header = MP3AudioFrameHeader::from_bytes(&header_bytes).unwrap();

    assert_eq!(header.mpeg_version, MPEGVersion::Mpeg1);
    assert_eq!(header.layer, Layer::Layer3);
    assert_eq!(header.has_crc, false);
    assert_eq!(header.bitrate, 128000);
    assert_eq!(header.sample_rate, 44100);
    assert_eq!(header.has_padding, false);
    assert_eq!(header.channel_mode, ChannelMode::JointStereo);
    assert_eq!(header.is_copywrighted, false);
    assert_eq!(header.is_original, true);
}

#[test]
fn test_invalid_sync_word() {
    let header_bytes = [0x00, 0x00, 0x00, 0x00];
    let result = MP3AudioFrameHeader::from_bytes(&header_bytes);
    assert!(result.is_err());
}

#[test]
fn test_parse_audio_frames() {
    let mp3_data = [0xFF, 0xFA, 0x90, 0x64, 0x00, 0x00, 0x00, 0x00];
    let frames = parse_audio_frames(&mp3_data).unwrap();

    assert_eq!(frames.len(), 1);
}

#[test]
fn header_scenario_joint_stereo_128k() {
    let header = MP3AudioFrameHeader::from_bytes(&[0xFF, 0xFB, 0x90, 0x44]).unwrap();
    assert_eq!(
        header,
        MP3AudioFrameHeader {
            mpeg_version: MPEGVersion::Mpeg1,
            layer: Layer::Layer3,
            has_crc: false,
            bitrate: 128000,
            sample_rate: 44100,
            has_padding: false,
            channel_mode: ChannelMode::JointStereo,
            mode_extension: ModeExtension::Mode1,
            is_copywrighted: false,
            is_original: true,
        }
    );
    assert_eq!(header.duration_per_frame_nanos(), 26122448);
}

#[test]
fn header_zero_bytes_fail_on_sync() {
    assert_eq!(
        MP3AudioFrameHeader::from_bytes(&[0x00, 0x00, 0x00, 0x00]),
        Err(DecodeError::InvalidSyncWord(0))
    );
    assert_eq!(
        MP3AudioFrameHeader::from_bytes(&[0xFF, 0xDB, 0x90, 0x44]),
        Err(DecodeError::InvalidSyncWord(0x7FE))
    );
}

#[test]
fn header_valid_sync_never_fails_on_sync() {
    for b1 in 0xE0u8..=0xFF {
        for b2 in 0..=255u8 {
            let r = MP3AudioFrameHeader::from_bytes(&[0xFF, b1, b2, 0x00]);
            assert!(!matches!(r, Err(DecodeError::InvalidSyncWord(_))));
        }
    }
}

#[test]
fn header_field_errors() {
    assert_eq!(
        MP3AudioFrameHeader::from_bytes(&[0xFF, 0xE8, 0x90, 0x44]),
        Err(DecodeError::InvalidVersion(1))
    );
    assert_eq!(
        MP3AudioFrameHeader::from_bytes(&[0xFF, 0xF8, 0x90, 0x44]),
        Err(DecodeError::InvalidLayer(0))
    );
    assert_eq!(
        MP3AudioFrameHeader::from_bytes(&[0xFF, 0xFB, 0x00, 0x44]),
        Err(DecodeError::MissingBitrate(0))
    );
    assert_eq!(
        MP3AudioFrameHeader::from_bytes(&[0xFF, 0xFB, 0xF0, 0x44]),
        Err(DecodeError::MissingBitrate(15))
    );
    assert_eq!(
        MP3AudioFrameHeader::from_bytes(&[0xFF, 0xFB, 0x9C, 0x44]),
        Err(DecodeError::InvalidSampleRateIndex(3))
    );
}

#[test]
fn header_crc_padding_and_flags() {
    let header = MP3AudioFrameHeader::from_bytes(&[0xFF, 0xFA, 0x92, 0x6C]).unwrap();
    assert!(header.has_crc);
    assert!(header.has_padding);
    assert_eq!(header.mode_extension, ModeExtension::Mode3);
    assert!(header.is_copywrighted);
    assert!(header.is_original);
}

#[test]
fn bit_fields_round_trip() {
    for v in [MPEGVersion::Mpeg1, MPEGVersion::Mpeg2, MPEGVersion::Mpeg2_5] {
        assert_eq!(MPEGVersion::from_bits(v.to_bits()), Ok(v));
    }
    for l in [Layer::Layer1, Layer::Layer2, Layer::Layer3] {
        assert_eq!(Layer::from_bits(l.to_bits()), Ok(l));
    }
    for bits in 0..=3u8 {
        assert_eq!(ChannelMode::from_bits(bits).unwrap().to_bits(), bits);
        assert_eq!(ModeExtension::from_bits(bits).unwrap().to_bits(), bits);
        if bits != 1 {
            assert_eq!(MPEGVersion::from_bits(bits).unwrap().to_bits(), bits);
        }
        if bits != 0 {
            assert_eq!(Layer::from_bits(bits).unwrap().to_bits(), bits);
        }
    }
    assert_eq!(MPEGVersion::from_bits(1), Err(DecodeError::InvalidVersion(1)));
    assert_eq!(Layer::from_bits(0), Err(DecodeError::InvalidLayer(0)));
    assert_eq!(ChannelMode::from_bits(4), Err(DecodeError::InvalidChannelMode(4)));
    assert_eq!(ModeExtension::from_bits(9), Err(DecodeError::InvalidModeExtension(9)));
    assert_eq!(ChannelMode::from_bits(2), Ok(ChannelMode::DualChannel));
    assert_eq!(ChannelMode::from_bits(3), Ok(ChannelMode::SingleChannel));
}

#[test]
fn bitrate_lookup_is_deterministic() {
    for v in [MPEGVersion::Mpeg1, MPEGVersion::Mpeg2, MPEGVersion::Mpeg2_5] {
        for l in [Layer::Layer1, Layer::Layer2, Layer::Layer3] {
            for i in 0..=15u8 {
                assert_eq!(v.get_bitrate(l, i), v.get_bitrate(l, i));
            }
        }
    }
    assert_eq!(MPEGVersion::Mpeg1.get_bitrate(Layer::Layer3, 9), Ok(Some(128000)));
    assert_eq!(MPEGVersion::Mpeg1.get_bitrate(Layer::Layer1, 14), Ok(Some(448000)));
    assert_eq!(MPEGVersion::Mpeg1.get_bitrate(Layer::Layer2, 1), Ok(Some(32000)));
    assert_eq!(MPEGVersion::Mpeg2.get_bitrate(Layer::Layer1, 9), Ok(Some(144000)));
    assert_eq!(MPEGVersion::Mpeg2_5.get_bitrate(Layer::Layer3, 1), Ok(Some(8000)));
    assert_eq!(MPEGVersion::Mpeg2.get_bitrate(Layer::Layer2, 14), Ok(Some(160000)));
    assert_eq!(MPEGVersion::Mpeg1.get_bitrate(Layer::Layer3, 0), Ok(None));
    assert_eq!(MPEGVersion::Mpeg1.get_bitrate(Layer::Layer3, 15), Ok(None));
    assert_eq!(
        MPEGVersion::Mpeg1.get_bitrate(Layer::Layer3, 16),
        Err(DecodeError::MissingBitrate(16))
    );
}

#[test]
fn sampling_rates_and_samples_per_frame() {
    assert_eq!(MPEGVersion::Mpeg1.get_sampling_rate(0), Ok(44100));
    assert_eq!(MPEGVersion::Mpeg1.get_sampling_rate(2), Ok(32000));
    assert_eq!(MPEGVersion::Mpeg2.get_sampling_rate(1), Ok(24000));
    assert_eq!(MPEGVersion::Mpeg2_5.get_sampling_rate(2), Ok(8000));
    assert_eq!(
        MPEGVersion::Mpeg2.get_sampling_rate(3),
        Err(DecodeError::InvalidSampleRateIndex(3))
    );
    assert_eq!(Layer::Layer1.get_samples_per_frame(), 384);
    assert_eq!(Layer::Layer2.get_samples_per_frame(), 1152);
    assert_eq!(Layer::Layer3.get_samples_per_frame(), 1152);
}

#[test]
fn frame_length_and_payload() {
    let mut bytes = vec![0xFF, 0xFB, 0x90, 0x44];
    bytes.extend_from_slice(&[7u8; 10]);
    let frame = MP3AudioFrame::from_bytes(&bytes).unwrap();
    assert_eq!(frame.frame_length, 3343);
    assert_eq!(frame.data, &[7u8; 10][..]);

    let padded = MP3AudioFrame::from_bytes(&[0xFF, 0xFB, 0x92, 0x44]).unwrap();
    assert_eq!(padded.frame_length, 3344);
    assert!(padded.data.is_empty());

    assert!(matches!(
        MP3AudioFrame::from_bytes(&[0xFF, 0xFB, 0x90]),
        Err(DecodeError::TruncatedFrameHeader(3))
    ));
}

fn small_frame(fill: u8) -> Vec<u8> {
    // MPEG-2.5, Layer III, 8 kbps, 12000 Hz: 1152 * 8000 / 12000 = 768 bytes
    let mut f = vec![0xFF, 0xE3, 0x14, 0xC0];
    f.extend(std::iter::repeat(fill).take(764));
    f
}

#[test]
fn walker_follows_frame_lengths() {
    let mut bytes = small_frame(1);
    bytes.extend(small_frame(2));
    let frames = parse_audio_frames(&bytes).unwrap();
    assert_eq!(frames.len(), 2);
    for (k, frame) in frames.iter().enumerate() {
        assert_eq!(frame.frame_length, 768);
        assert_eq!(frame.data.len(), 764);
        assert!(frame.data.iter().all(|&b| b == k as u8 + 1));
        assert_eq!(frame.header.mpeg_version, MPEGVersion::Mpeg2_5);
        assert_eq!(frame.header.channel_mode, ChannelMode::SingleChannel);
    }
    let consumed: usize = frames.iter().map(|f| f.data.len() + 4).sum();
    assert!(consumed <= bytes.len());
}

#[test]
fn walker_edge_cases() {
    assert_eq!(parse_audio_frames(&[]).unwrap().len(), 0);

    let mut bad = small_frame(0);
    bad.extend_from_slice(&[0, 0, 0, 0, 0]);
    assert!(matches!(parse_audio_frames(&bad), Err(DecodeError::InvalidSyncWord(0))));

    let mut short = small_frame(0);
    short.extend_from_slice(&[0xFF, 0xE3]);
    assert!(matches!(parse_audio_frames(&short), Err(DecodeError::TruncatedFrameHeader(2))));

    assert!(matches!(
        parse_audio_frames(&[0xFF, 0xFB, 0x00, 0x44, 0, 0]),
        Err(DecodeError::MissingBitrate(0))
    ));
}
