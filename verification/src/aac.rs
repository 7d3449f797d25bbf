//! AAC related constituent elements.

use crate::error::{reports, Error, ErrorKind};
use crate::io::be_read_u16;
use vstd::prelude::*;

verus! {

/// The number of audio samples in one AAC frame.
pub const SAMPLES_IN_FRAME: usize = 1024;

/// Profile.
#[derive(Debug, Clone, Copy, PartialEq, Eq, Hash, Structural)]
pub enum AacProfile {
    /// AAC Main.
    Main,
    /// AAC LC (Low Complexity).
    Lc,
    /// AAC SSR (Scalable Sample Rate).
    Ssr,
    /// AAC LTP (Long Term Prediction).
    Ltp,
}

impl AacProfile {
    /// The two-bit code of the profile in an ADTS header.
    pub open spec fn code(self) -> u8 {
        match self {
            AacProfile::Main => 0,
            AacProfile::Lc => 1,
            AacProfile::Ssr => 2,
            AacProfile::Ltp => 3,
        }
    }

    /// Returns the two-bit code of the profile.
    pub fn as_u8(&self) -> (n: u8)
        ensures
            n == self.code(),
    {
        match *self {
            AacProfile::Main => 0,
            AacProfile::Lc => 1,
            AacProfile::Ssr => 2,
            AacProfile::Ltp => 3,
        }
    }

    /// Returns the profile with the given two-bit code.
    pub fn from_u8(n: u8) -> (p: Self)
        requires
            n <= 3,
        ensures
            p.code() == n,
    {
        if n == 0 {
            AacProfile::Main
        } else if n == 1 {
            AacProfile::Lc
        } else if n == 2 {
            AacProfile::Ssr
        } else {
            AacProfile::Ltp
        }
    }
}

/// Sampling frequency.
#[derive(Debug, Clone, Copy, PartialEq, Eq, Hash, Structural)]
pub enum SamplingFrequency {
    /// 96 kHz.
    Hz96000,
    /// 88.2 kHz.
    Hz88200,
    /// 64 kHz.
    Hz64000,
    /// 48 kHz.
    Hz48000,
    /// 44.1 kHz.
    Hz44100,
    /// 32 kHz.
    Hz32000,
    /// 24 kHz.
    Hz24000,
    /// 22.05 kHz.
    Hz22050,
    /// 16 kHz.
    Hz16000,
    /// 12 kHz.
    Hz12000,
    /// 11.025 kHz.
    Hz11025,
    /// 8 kHz.
    Hz8000,
    /// 7.35 kHz.
    Hz7350,
}

impl SamplingFrequency {
    /// The frequency in Hz.
    pub open spec fn hz(self) -> u32 {
        match self {
            SamplingFrequency::Hz96000 => 96_000,
            SamplingFrequency::Hz88200 => 88_200,
            SamplingFrequency::Hz64000 => 64_000,
            SamplingFrequency::Hz48000 => 48_000,
            SamplingFrequency::Hz44100 => 44_100,
            SamplingFrequency::Hz32000 => 32_000,
            SamplingFrequency::Hz24000 => 24_000,
            SamplingFrequency::Hz22050 => 22_050,
            SamplingFrequency::Hz16000 => 16_000,
            SamplingFrequency::Hz12000 => 12_000,
            SamplingFrequency::Hz11025 => 11_025,
            SamplingFrequency::Hz8000 => 8_000,
            SamplingFrequency::Hz7350 => 7_350,
        }
    }

    /// The four-bit index of the frequency in an ADTS header.
    pub open spec fn index(self) -> u8 {
        match self {
            SamplingFrequency::Hz96000 => 0,
            SamplingFrequency::Hz88200 => 1,
            SamplingFrequency::Hz64000 => 2,
            SamplingFrequency::Hz48000 => 3,
            SamplingFrequency::Hz44100 => 4,
            SamplingFrequency::Hz32000 => 5,
            SamplingFrequency::Hz24000 => 6,
            SamplingFrequency::Hz22050 => 7,
            SamplingFrequency::Hz16000 => 8,
            SamplingFrequency::Hz12000 => 9,
            SamplingFrequency::Hz11025 => 10,
            SamplingFrequency::Hz8000 => 11,
            SamplingFrequency::Hz7350 => 12,
        }
    }

    /// The frequency with the given index. The indices 13 and 14 are reserved and 15 is
    /// forbidden: all three are `Unsupported`.
    pub open spec fn of_index(n: u8) -> Result<SamplingFrequency, ErrorKind> {
        if n == 0 {
            Ok(SamplingFrequency::Hz96000)
        } else if n == 1 {
            Ok(SamplingFrequency::Hz88200)
        } else if n == 2 {
            Ok(SamplingFrequency::Hz64000)
        } else if n == 3 {
            Ok(SamplingFrequency::Hz48000)
        } else if n == 4 {
            Ok(SamplingFrequency::Hz44100)
        } else if n == 5 {
            Ok(SamplingFrequency::Hz32000)
        } else if n == 6 {
            Ok(SamplingFrequency::Hz24000)
        } else if n == 7 {
            Ok(SamplingFrequency::Hz22050)
        } else if n == 8 {
            Ok(SamplingFrequency::Hz16000)
        } else if n == 9 {
            Ok(SamplingFrequency::Hz12000)
        } else if n == 10 {
            Ok(SamplingFrequency::Hz11025)
        } else if n == 11 {
            Ok(SamplingFrequency::Hz8000)
        } else if n == 12 {
            Ok(SamplingFrequency::Hz7350)
        } else {
            Err(ErrorKind::Unsupported)
        }
    }

    /// Returns the frequency in Hz.
    pub fn as_u32(&self) -> (n: u32)
        ensures
            n == self.hz(),
    {
        match *self {
            SamplingFrequency::Hz96000 => 96_000,
            SamplingFrequency::Hz88200 => 88_200,
            SamplingFrequency::Hz64000 => 64_000,
            SamplingFrequency::Hz48000 => 48_000,
            SamplingFrequency::Hz44100 => 44_100,
            SamplingFrequency::Hz32000 => 32_000,
            SamplingFrequency::Hz24000 => 24_000,
            SamplingFrequency::Hz22050 => 22_050,
            SamplingFrequency::Hz16000 => 16_000,
            SamplingFrequency::Hz12000 => 12_000,
            SamplingFrequency::Hz11025 => 11_025,
            SamplingFrequency::Hz8000 => 8_000,
            SamplingFrequency::Hz7350 => 7_350,
        }
    }

    /// Returns the four-bit index of the frequency.
    pub fn as_index(&self) -> (n: u8)
        ensures
            n == self.index(),
            n <= 12,
    {
        match *self {
            SamplingFrequency::Hz96000 => 0,
            SamplingFrequency::Hz88200 => 1,
            SamplingFrequency::Hz64000 => 2,
            SamplingFrequency::Hz48000 => 3,
            SamplingFrequency::Hz44100 => 4,
            SamplingFrequency::Hz32000 => 5,
            SamplingFrequency::Hz24000 => 6,
            SamplingFrequency::Hz22050 => 7,
            SamplingFrequency::Hz16000 => 8,
            SamplingFrequency::Hz12000 => 9,
            SamplingFrequency::Hz11025 => 10,
            SamplingFrequency::Hz8000 => 11,
            SamplingFrequency::Hz7350 => 12,
        }
    }

    /// Returns the frequency with the given index, `Unsupported` for the reserved and
    /// forbidden indices.
    pub fn from_index(n: u8) -> (r: Result<Self, Error>)
        ensures
            reports(r, Self::of_index(n)),
    {
        Ok(
            match n {
                0 => SamplingFrequency::Hz96000,
                1 => SamplingFrequency::Hz88200,
                2 => SamplingFrequency::Hz64000,
                3 => SamplingFrequency::Hz48000,
                4 => SamplingFrequency::Hz44100,
                5 => SamplingFrequency::Hz32000,
                6 => SamplingFrequency::Hz24000,
                7 => SamplingFrequency::Hz22050,
                8 => SamplingFrequency::Hz16000,
                9 => SamplingFrequency::Hz12000,
                10 => SamplingFrequency::Hz11025,
                11 => SamplingFrequency::Hz8000,
                12 => SamplingFrequency::Hz7350,
                _ => { return Err(Error::new(ErrorKind::Unsupported)); },
            },
        )
    }

    /// An index and the frequency it stands for determine each other.
    pub proof fn lemma_index_round_trip(self)
        ensures
            Self::of_index(self.index()) == Ok::<SamplingFrequency, ErrorKind>(self),
    {
    }
}

/// Channel configuration.
#[derive(Debug, Clone, Copy, PartialEq, Eq, Hash, Structural)]
pub enum ChannelConfiguration {
    /// Channel configuration is sent via an inband PCE.
    SentViaInbandPce,
    /// 1 channel: front-center.
    OneChannel,
    /// 2 channels: front-left, front-right.
    TwoChannels,
    /// 3 channels: front-center, front-left, front-right.
    ThreeChannels,
    /// 4 channels: front-center, front-left, front-right, back-center.
    FourChannels,
    /// 5 channels: front-center, front-left, front-right, back-left, back-right.
    FiveChannels,
    /// 6 channels: front-center, front-left, front-right, back-left, back-right,
    /// LFE-channel.
    SixChannels,
    /// 8 channels: front-center, front-left, front-right, side-left, side-right,
    /// back-left, back-right, LFE-channel.
    EightChannels,
}

impl ChannelConfiguration {
    /// The three-bit code of the configuration in an ADTS header.
    pub open spec fn code(self) -> u8 {
        match self {
            ChannelConfiguration::SentViaInbandPce => 0,
            ChannelConfiguration::OneChannel => 1,
            ChannelConfiguration::TwoChannels => 2,
            ChannelConfiguration::ThreeChannels => 3,
            ChannelConfiguration::FourChannels => 4,
            ChannelConfiguration::FiveChannels => 5,
            ChannelConfiguration::SixChannels => 6,
            ChannelConfiguration::EightChannels => 7,
        }
    }

    /// The configuration with the given code; a code above 7 is `InvalidInput`.
    pub open spec fn of_code(n: u8) -> Result<ChannelConfiguration, ErrorKind> {
        if n == 0 {
            Ok(ChannelConfiguration::SentViaInbandPce)
        } else if n == 1 {
            Ok(ChannelConfiguration::OneChannel)
        } else if n == 2 {
            Ok(ChannelConfiguration::TwoChannels)
        } else if n == 3 {
            Ok(ChannelConfiguration::ThreeChannels)
        } else if n == 4 {
            Ok(ChannelConfiguration::FourChannels)
        } else if n == 5 {
            Ok(ChannelConfiguration::FiveChannels)
        } else if n == 6 {
            Ok(ChannelConfiguration::SixChannels)
        } else if n == 7 {
            Ok(ChannelConfiguration::EightChannels)
        } else {
            Err(ErrorKind::InvalidInput)
        }
    }

    /// Returns the three-bit code of the configuration.
    pub fn as_u8(&self) -> (n: u8)
        ensures
            n == self.code(),
            n <= 7,
    {
        match *self {
            ChannelConfiguration::SentViaInbandPce => 0,
            ChannelConfiguration::OneChannel => 1,
            ChannelConfiguration::TwoChannels => 2,
            ChannelConfiguration::ThreeChannels => 3,
            ChannelConfiguration::FourChannels => 4,
            ChannelConfiguration::FiveChannels => 5,
            ChannelConfiguration::SixChannels => 6,
            ChannelConfiguration::EightChannels => 7,
        }
    }

    /// Returns the configuration with the given code, `InvalidInput` for a code above 7.
    pub fn from_u8(n: u8) -> (r: Result<Self, Error>)
        ensures
            reports(r, Self::of_code(n)),
    {
        Ok(
            match n {
                0 => ChannelConfiguration::SentViaInbandPce,
                1 => ChannelConfiguration::OneChannel,
                2 => ChannelConfiguration::TwoChannels,
                3 => ChannelConfiguration::ThreeChannels,
                4 => ChannelConfiguration::FourChannels,
                5 => ChannelConfiguration::FiveChannels,
                6 => ChannelConfiguration::SixChannels,
                7 => ChannelConfiguration::EightChannels,
                _ => { return Err(Error::new(ErrorKind::InvalidInput)); },
            },
        )
    }
}

/// The fixed header of an ADTS frame without CRC.
#[derive(Debug, Clone, Copy, PartialEq, Eq, Structural)]
pub struct AdtsHeader {
    /// The AAC profile of the frame.
    pub profile: AacProfile,
    /// The sampling frequency of the frame.
    pub sampling_frequency: SamplingFrequency,
    /// The private bit.
    pub private: bool,
    /// The channel configuration of the frame.
    pub channel_configuration: ChannelConfiguration,
    /// The length of the whole frame, header included (13 bits).
    pub frame_len: u16,
    /// The buffer fullness (11 bits).
    pub buffer_fullness: u16,
}

/// The profile with the given two-bit code.
pub open spec fn profile_of_code(n: u8) -> AacProfile {
    if n == 0 {
        AacProfile::Main
    } else if n == 1 {
        AacProfile::Lc
    } else if n == 2 {
        AacProfile::Ssr
    } else {
        AacProfile::Ltp
    }
}

/// What the first seven bytes of `b` say as an ADTS header, field by field in the order of
/// the bits; the first field that cannot be accepted decides the error.
///
/// - sync word (12 bits) other than `0xFFF`: `InvalidInput`;
/// - MPEG version (1 bit) other than 0: `Unsupported`;
/// - layer (2 bits) other than 0: `InvalidInput`;
/// - sampling frequency index (4 bits) 13, 14 or 15: `Unsupported`;
/// - originality, home, copyrighted or copyright-id-start bit set: `Unsupported`;
/// - more than one raw data block (2 bits other than 0): `Unsupported`;
/// - CRC present (protection-absent bit 0): `Unsupported`;
/// - a field that lies behind the end of `b`: `Other`.
pub open spec fn adts_header(b: Seq<u8>) -> Result<AdtsHeader, ErrorKind> {
    if b.len() < 2 {
        Err(ErrorKind::Other)
    } else if b[0] != 0xFF || b[1] / 16 != 0xF {
        Err(ErrorKind::InvalidInput)
    } else if b[1] / 8 % 2 != 0 {
        Err(ErrorKind::Unsupported)
    } else if b[1] / 2 % 4 != 0 {
        Err(ErrorKind::InvalidInput)
    } else if b.len() < 3 {
        Err(ErrorKind::Other)
    } else if b[2] / 4 % 16 > 12 {
        Err(ErrorKind::Unsupported)
    } else if b.len() < 4 {
        Err(ErrorKind::Other)
    } else if b[3] / 4 % 16 != 0 {
        Err(ErrorKind::Unsupported)
    } else if b.len() < 6 {
        Err(ErrorKind::Other)
    } else if b.len() < 7 {
        Err(ErrorKind::Other)
    } else if b[6] % 4 != 0 {
        Err(ErrorKind::Unsupported)
    } else if b[1] % 2 == 0 {
        Err(ErrorKind::Unsupported)
    } else {
        Ok(
            AdtsHeader {
                profile: profile_of_code(b[2] / 64),
                sampling_frequency: SamplingFrequency::of_index(b[2] / 4 % 16).unwrap(),
                private: b[2] / 2 % 2 == 1,
                channel_configuration: ChannelConfiguration::of_code(
                    ((b[2] % 2) * 4 + b[3] / 64) as u8,
                ).unwrap(),
                frame_len: ((b[3] % 4) * 0x800 + b[4] * 8 + b[5] / 32) as u16,
                buffer_fullness: ((b[5] % 32) * 64 + b[6] / 4) as u16,
            },
        )
    }
}

impl AdtsHeader {
    /// The length of the header of a frame without CRC.
    pub const HEADER_LEN_WITHOUT_CRC: u16 = 7;

    /// Returns the length of the raw data blocks that follow the header: the frame length
    /// without the seven bytes of the header.
    pub fn raw_data_blocks_len(&self) -> (n: u16)
        requires
            self.frame_len >= 7,
        ensures
            n == self.frame_len - 7,
    {
        self.frame_len - Self::HEADER_LEN_WITHOUT_CRC
    }

    /// Reads the header that `bytes` starts with.
    pub fn read_from(bytes: &[u8]) -> (r: Result<Self, Error>)
        ensures
            reports(r, adts_header(bytes@)),
    {
        if bytes.len() < 2 {
            return Err(Error::new(ErrorKind::Other));
        }
        let n = be_read_u16(bytes);
        assert(n == bytes@[0] * 0x100 + bytes@[1]);
        if n / 16 != 0xFFF {
            return Err(Error::new(ErrorKind::InvalidInput));
        }
        let mpeg_version = n / 8 % 2;
        let layer = n / 2 % 4;
        let crc_protection_absent = n % 2 != 0;
        if mpeg_version != 0 {
            return Err(Error::new(ErrorKind::Unsupported));
        }
        if layer != 0 {
            return Err(Error::new(ErrorKind::InvalidInput));
        }
        if bytes.len() < 3 {
            return Err(Error::new(ErrorKind::Other));
        }
        let n = bytes[2];
        let profile = AacProfile::from_u8(n / 64);
        let sampling_frequency = SamplingFrequency::from_index(n / 4 % 16)?;
        let private = n / 2 % 2 != 0;
        let channel_msb = n % 2;

        if bytes.len() < 4 {
            return Err(Error::new(ErrorKind::Other));
        }
        let n = bytes[3];
        let channel_configuration = ChannelConfiguration::from_u8(channel_msb * 4 + n / 64)?;
        let originality = n / 32 % 2 != 0;
        let home = n / 16 % 2 != 0;
        let copyrighted = n / 8 % 2 != 0;
        let copyright_id_start = n / 4 % 2 != 0;
        if originality || home || copyrighted || copyright_id_start {
            return Err(Error::new(ErrorKind::Unsupported));
        }
        let frame_len_msb_2bits: u16 = (n % 4) as u16;

        if bytes.len() < 6 {
            return Err(Error::new(ErrorKind::Other));
        }
        let n = be_read_u16(&bytes[4..6]);
        let frame_len = frame_len_msb_2bits * 0x800 + n / 32;
        let buffer_fullness_msb_5bits = n % 32;

        if bytes.len() < 7 {
            return Err(Error::new(ErrorKind::Other));
        }
        let n = bytes[6];
        let buffer_fullness = buffer_fullness_msb_5bits * 64 + (n / 4) as u16;
        let raw_data_blocks_minus_1 = n % 4;
        if raw_data_blocks_minus_1 != 0 {
            return Err(Error::new(ErrorKind::Unsupported));
        }
        if !crc_protection_absent {
            return Err(Error::new(ErrorKind::Unsupported));
        }
        Ok(
            AdtsHeader {
                profile,
                sampling_frequency,
                private,
                channel_configuration,
                frame_len,
                buffer_fullness,
            },
        )
    }
}

} // verus!
