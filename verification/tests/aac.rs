use mse_fmp4::aac::{
    AacProfile, AdtsHeader, ChannelConfiguration, SamplingFrequency, SAMPLES_IN_FRAME,
};
use mse_fmp4::error::ErrorKind;

/// The header of a frame of AAC LC at 48 kHz with one channel and 16 bytes of raw data.
const HEADER: [u8; 7] = [0xFF, 0xF1, 0x4C, 0x40, 0x02, 0xFF, 0xFC];

fn with_byte(index: usize, value: u8) -> [u8; 7] {
    let mut header = HEADER;
    header[index] = value;
    header
}

#[test]
fn samples_in_frame_is_1024() {
    assert_eq!(SAMPLES_IN_FRAME, 1024);
}

#[test]
fn adts_header_is_read() {
    let header = AdtsHeader::read_from(&HEADER).unwrap();
    assert_eq!(header.profile, AacProfile::Lc);
    assert_eq!(header.sampling_frequency, SamplingFrequency::Hz48000);
    assert!(!header.private);
    assert_eq!(header.channel_configuration, ChannelConfiguration::OneChannel);
    assert_eq!(header.frame_len, 23);
    assert_eq!(header.buffer_fullness, 0x7FF);
    assert_eq!(header.raw_data_blocks_len(), 16);
}

#[test]
fn adts_header_with_all_fields_set() {
    // Ltp, 7350 Hz, private, eight channels, frame length 0x1ABC, buffer fullness 0x2A5
    let bytes = [0xFF, 0xF1, 0xF3, 0xC3, 0x57, 0x8A, 0x94, 0xAA];
    let header = AdtsHeader::read_from(&bytes).unwrap();
    assert_eq!(header.profile, AacProfile::Ltp);
    assert_eq!(header.sampling_frequency, SamplingFrequency::Hz7350);
    assert!(header.private);
    assert_eq!(header.channel_configuration, ChannelConfiguration::EightChannels);
    assert_eq!(header.frame_len, 0x1ABC);
    assert_eq!(header.buffer_fullness, 0x2A5);
    assert_eq!(header.raw_data_blocks_len(), 0x1ABC - 7);
}

#[test]
fn adts_header_that_ends_early_is_other() {
    for len in 0..7 {
        let error = AdtsHeader::read_from(&HEADER[..len]).unwrap_err();
        assert_eq!(error.kind(), ErrorKind::Other);
    }
}

#[test]
fn adts_header_with_wrong_sync_word_is_invalid() {
    let error = AdtsHeader::read_from(&with_byte(0, 0xFE)).unwrap_err();
    assert_eq!(error.kind(), ErrorKind::InvalidInput);
    let error = AdtsHeader::read_from(&with_byte(1, 0xE1)).unwrap_err();
    assert_eq!(error.kind(), ErrorKind::InvalidInput);
    // the sync word is looked at before the header is found too short
    let error = AdtsHeader::read_from(&[0x00, 0x00]).unwrap_err();
    assert_eq!(error.kind(), ErrorKind::InvalidInput);
}

#[test]
fn adts_header_of_mpeg2_is_unsupported() {
    let error = AdtsHeader::read_from(&with_byte(1, 0xF9)).unwrap_err();
    assert_eq!(error.kind(), ErrorKind::Unsupported);
}

#[test]
fn adts_header_with_layer_is_invalid() {
    let error = AdtsHeader::read_from(&with_byte(1, 0xF3)).unwrap_err();
    assert_eq!(error.kind(), ErrorKind::InvalidInput);
}

#[test]
fn adts_header_with_crc_is_unsupported() {
    let error = AdtsHeader::read_from(&with_byte(1, 0xF0)).unwrap_err();
    assert_eq!(error.kind(), ErrorKind::Unsupported);
}

#[test]
fn adts_header_with_reserved_frequency_is_unsupported() {
    for index in 13..16 {
        let error = AdtsHeader::read_from(&with_byte(2, 0x40 | (index << 2))).unwrap_err();
        assert_eq!(error.kind(), ErrorKind::Unsupported);
    }
}

#[test]
fn adts_header_with_copyright_bits_is_unsupported() {
    for bit in [0x20, 0x10, 0x08, 0x04] {
        let error = AdtsHeader::read_from(&with_byte(3, 0x40 | bit)).unwrap_err();
        assert_eq!(error.kind(), ErrorKind::Unsupported);
    }
}

#[test]
fn adts_header_with_several_raw_data_blocks_is_unsupported() {
    let error = AdtsHeader::read_from(&with_byte(6, 0xFD)).unwrap_err();
    assert_eq!(error.kind(), ErrorKind::Unsupported);
}

#[test]
fn sampling_frequency_indices_and_rates() {
    let rates = [
        96_000, 88_200, 64_000, 48_000, 44_100, 32_000, 24_000, 22_050, 16_000, 12_000, 11_025,
        8_000, 7_350,
    ];
    for (index, rate) in rates.iter().enumerate() {
        let frequency = SamplingFrequency::from_index(index as u8).unwrap();
        assert_eq!(frequency.as_u32(), *rate);
        assert_eq!(frequency.as_index(), index as u8);
    }
    for index in 13..=255u8 {
        let error = SamplingFrequency::from_index(index).unwrap_err();
        assert_eq!(error.kind(), ErrorKind::Unsupported);
    }
}

#[test]
fn channel_configuration_codes() {
    let configurations = [
        ChannelConfiguration::SentViaInbandPce,
        ChannelConfiguration::OneChannel,
        ChannelConfiguration::TwoChannels,
        ChannelConfiguration::ThreeChannels,
        ChannelConfiguration::FourChannels,
        ChannelConfiguration::FiveChannels,
        ChannelConfiguration::SixChannels,
        ChannelConfiguration::EightChannels,
    ];
    for (code, configuration) in configurations.iter().enumerate() {
        assert_eq!(ChannelConfiguration::from_u8(code as u8).unwrap(), *configuration);
        assert_eq!(configuration.as_u8(), code as u8);
    }
    assert_eq!(ChannelConfiguration::from_u8(8).unwrap_err().kind(), ErrorKind::InvalidInput);
}

#[test]
fn aac_profile_codes() {
    let profiles = [AacProfile::Main, AacProfile::Lc, AacProfile::Ssr, AacProfile::Ltp];
    for (code, profile) in profiles.iter().enumerate() {
        assert_eq!(AacProfile::from_u8(code as u8), *profile);
        assert_eq!(profile.as_u8(), code as u8);
    }
}
