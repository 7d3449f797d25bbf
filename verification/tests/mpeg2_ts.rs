use mse_fmp4::aac::{AacProfile, ChannelConfiguration, SamplingFrequency};
use mse_fmp4::error::ErrorKind;
use mse_fmp4::fmp4::{Mp4Box, Sample, SampleEntry, SampleFlags};
use mse_fmp4::io::WriteTo;
use mse_fmp4::mpeg2_ts::{
    append_adts_frames, append_nal_units, make_initialization_segment, make_media_segment,
    read_avc_aac_stream, read_video_configuration, resolve_durations, to_fmp4, AacStream,
    AvcStream, Intake, PesPacket, TsPacketReader, STREAM_TYPE_ADTS_AAC, STREAM_TYPE_H264,
    TIMESTAMP_MODULUS, TIMESTAMP_RESOLUTION,
};

/// A sequence parameter set of the baseline profile for pictures of 320 by 240 pixels.
const SPS: [u8; 8] = [0x67, 0x42, 0xC0, 0x1E, 0xED, 0x02, 0x83, 0xF4];
const PPS: [u8; 4] = [0x68, 0xCE, 0x3C, 0x80];

fn annex_b(units: &[&[u8]]) -> Vec<u8> {
    let mut stream = Vec::new();
    for (i, unit) in units.iter().enumerate() {
        if i % 2 == 0 {
            stream.extend_from_slice(&[0, 0, 0, 1]);
        } else {
            stream.extend_from_slice(&[0, 0, 1]);
        }
        stream.extend_from_slice(unit);
    }
    stream
}

fn video_packet(pts: u64, dts: Option<u64>, units: &[&[u8]]) -> PesPacket {
    PesPacket {
        stream_id: 0xE0,
        stream_type: Some(STREAM_TYPE_H264),
        pts: Some(pts),
        dts,
        data: annex_b(units),
    }
}

fn key_frame(pts: u64, dts: Option<u64>) -> PesPacket {
    video_packet(pts, dts, &[&SPS, &PPS, &[0x65, 0x88, 0x84, 0x21]])
}

fn frame(pts: u64, dts: Option<u64>) -> PesPacket {
    video_packet(pts, dts, &[&[0x41, 0x9A, 0x02]])
}

/// An ADTS frame of AAC LC at 48 kHz with one channel and `payload` as its raw data.
fn adts_frame(payload: &[u8]) -> Vec<u8> {
    let len = payload.len() + 7;
    let mut frame = vec![
        0xFF,
        0xF1,
        0x4C,
        0x40 | (len >> 11) as u8,
        (len >> 3) as u8,
        ((len & 7) << 5) as u8 | 0x1F,
        0xFC,
    ];
    frame.extend_from_slice(payload);
    frame
}

fn audio_packet(pts: u64, frames: &[&[u8]]) -> PesPacket {
    let mut data = Vec::new();
    for payload in frames {
        data.extend_from_slice(&adts_frame(payload));
    }
    PesPacket {
        stream_id: 0xC0,
        stream_type: Some(STREAM_TYPE_ADTS_AAC),
        pts: Some(pts),
        dts: None,
        data,
    }
}

fn payload16() -> Vec<u8> {
    (0xA0..0xB0).collect()
}

fn kind_of(packets: Vec<PesPacket>) -> ErrorKind {
    let kind = read_avc_aac_stream(&packets).unwrap_err().kind();
    assert_eq!(to_fmp4(&packets).unwrap_err().kind(), kind);
    kind
}

fn durations(packets: &Vec<PesPacket>) -> Vec<Option<u32>> {
    let (avc_stream, _) = read_avc_aac_stream(packets).unwrap();
    avc_stream.samples.iter().map(|s| s.duration).collect()
}

fn sample(size: u32, duration: Option<u32>, offset: Option<i32>) -> Sample {
    Sample { duration, size: Some(size), flags: None, composition_time_offset: offset }
}

#[test]
fn clock_of_a_transport_stream() {
    assert_eq!(TIMESTAMP_RESOLUTION, 90_000);
    assert_eq!(TIMESTAMP_MODULUS, 1 << 33);
    assert_eq!(STREAM_TYPE_H264, 0x1B);
    assert_eq!(STREAM_TYPE_ADTS_AAC, 0x0F);
}

#[test]
fn stream_without_video_is_invalid() {
    assert_eq!(kind_of(vec![audio_packet(0, &[&payload16()])]), ErrorKind::InvalidInput);
    assert_eq!(kind_of(Vec::new()), ErrorKind::InvalidInput);
}

#[test]
fn stream_without_audio_is_invalid() {
    assert_eq!(kind_of(vec![key_frame(900, None)]), ErrorKind::InvalidInput);
}

#[test]
fn single_frame_of_video_and_audio() {
    let packets = vec![key_frame(900, None), audio_packet(0, &[&payload16()])];
    let (initialization_segment, media_segment) = to_fmp4(&packets).unwrap();

    let moov = &initialization_segment.moov_box;
    assert_eq!(moov.trak_boxes.len(), 2);
    assert_eq!(moov.trak_boxes[0].mdia_box.mdhd_box.timescale, 90000);
    assert_eq!(moov.trak_boxes[1].mdia_box.mdhd_box.timescale, 48000);
    assert_eq!(moov.trak_boxes[0].tkhd_box.width, 320 << 16);
    assert_eq!(moov.trak_boxes[0].tkhd_box.height, 240 << 16);
    assert_eq!(moov.trak_boxes[1].tkhd_box.width, 0);
    assert_eq!(moov.trak_boxes[1].tkhd_box.volume, 0x0100);
    assert_eq!(moov.trak_boxes[0].edts_box.elst_box.media_time, 0);
    assert_eq!(moov.trak_boxes[1].edts_box.elst_box.media_time, 0);
    // the video sample lasts 0 ticks and the audio sample 1024: the audio track decides
    assert_eq!(moov.mvhd_box.timescale, 48000);
    assert_eq!(moov.mvhd_box.duration, 1024);
    assert_eq!(moov.mvex_box.mehd_box.as_ref().unwrap().fragment_duration, 1024);
    assert_eq!(moov.mvex_box.trex_boxes.len(), 2);

    let trafs = &media_segment.moof_box.traf_boxes;
    assert_eq!(trafs.len(), 2);
    assert_eq!(trafs[0].trun_box.samples.len(), 1);
    assert_eq!(trafs[1].trun_box.samples.len(), 1);
    assert_eq!(trafs[1].tfhd_box.default_sample_duration, Some(1024));
    assert_eq!(trafs[0].tfhd_box.default_sample_duration, None);
    assert_eq!(trafs[1].trun_box.samples[0], sample(16, None, None));
    let size = (4 + SPS.len() + 4 + PPS.len() + 4 + 4) as u32;
    assert_eq!(trafs[0].trun_box.samples[0], sample(size, Some(0), Some(0)));
    assert_eq!(media_segment.mdat_boxes.len(), 2);
    assert_eq!(media_segment.mdat_boxes[1].data, payload16());

    assert_eq!(
        initialization_segment.mime_type(),
        "video/mp4; codecs=\"avc1.42C01E, mp4a.40.2\""
    );

    let mut out = Vec::new();
    initialization_segment.write_to(&mut out).unwrap();
    assert_eq!(&out[..16], &[0, 0, 0, 16, 0x66, 0x74, 0x79, 0x70, 0x69, 0x73, 0x6F, 0x6D, 0, 0, 2, 0]);
    assert_eq!(&out[20..24], b"moov");
    assert_eq!(out.len() - 16, moov.box_size().unwrap() as usize);
}

#[test]
fn video_samples_in_presentation_order() {
    let packets = vec![
        key_frame(1000, Some(1000)),
        frame(4000, Some(2000)),
        frame(7000, Some(3000)),
        audio_packet(0, &[&payload16()]),
    ];
    assert_eq!(durations(&packets), vec![Some(0), Some(3000), Some(3000)]);
}

#[test]
fn reordered_video_samples() {
    // decoding order I P B, presentation order I B P
    let packets = vec![
        key_frame(10_000, Some(7_000)),
        frame(19_000, Some(10_000)),
        audio_packet(0, &[&payload16()]),
        frame(13_000, Some(13_000)),
        frame(25_000, None),
    ];
    let (avc_stream, _) = read_avc_aac_stream(&packets).unwrap();
    let samples = &avc_stream.samples;
    assert_eq!(samples.len(), 4);
    // the first sample has the start time
    assert_eq!(samples[0].duration, Some(3_000));
    // the time since the sample just before in presentation order
    assert_eq!(samples[1].duration, Some(19_000 - 13_000));
    assert_eq!(samples[2].duration, Some(13_000 - 10_000));
    assert_eq!(samples[3].duration, Some(25_000 - 19_000));
    let offsets: Vec<_> = samples.iter().map(|s| s.composition_time_offset).collect();
    assert_eq!(offsets, vec![Some(3_000), Some(9_000), Some(0), Some(0)]);
    assert_eq!(avc_stream.start_time(), 3_000);
    assert_eq!(avc_stream.duration().unwrap(), 3_000 + 6_000 + 3_000 + 6_000);
}

#[test]
fn video_samples_with_equal_timestamps() {
    let packets = vec![
        key_frame(500, None),
        frame(800, None),
        frame(800, None),
        frame(500, None),
        audio_packet(0, &[&payload16()]),
    ];
    // in presentation order: sample 0, sample 3, sample 1, sample 2
    assert_eq!(durations(&packets), vec![Some(0), Some(300), Some(0), Some(0)]);
}

#[test]
fn two_frames_of_which_the_second_is_presented_first() {
    // The second timestamp is below the first, so it counts as one behind a wrap of the
    // clock, 2^33 - 3003 ticks after the first: more than a duration holds.
    let packets = vec![
        key_frame(3003, Some(0)),
        frame(0, Some(1501)),
        audio_packet(0, &[&payload16()]),
    ];
    assert_eq!(kind_of(packets), ErrorKind::InvalidInput);
}

#[test]
fn timestamps_that_wrap() {
    let packets = vec![
        key_frame((1 << 33) - 1500, None),
        frame(1500, None),
        audio_packet(0, &[&payload16()]),
    ];
    assert_eq!(durations(&packets), vec![Some(0), Some(3000)]);
}

#[test]
fn composition_time_offsets() {
    let packets = vec![
        key_frame(10_000, Some(7_000)),
        frame(11_000, Some(12_501)),
        frame(12_000, None),
        audio_packet(0, &[&payload16()]),
    ];
    let mut state = Intake::new();
    for packet in &packets {
        state = state.push(packet).unwrap();
    }
    let (avc_stream, _) = state.finish().unwrap();
    let offsets: Vec<_> = avc_stream.samples.iter().map(|s| s.composition_time_offset).collect();
    assert_eq!(offsets, vec![Some(3000), Some(-1501), Some(0)]);
}

#[test]
fn composition_time_offsets_across_a_wrap() {
    let packets = vec![
        key_frame((1 << 33) - 1000, None),
        // the presentation timestamp has wrapped and the decoding timestamp has not
        frame(50, Some((1 << 33) - 100)),
        // the decoding timestamp has wrapped and the presentation timestamp has not
        frame((1 << 33) - 100, Some(50)),
        audio_packet(0, &[&payload16()]),
    ];
    let (avc_stream, _) = read_avc_aac_stream(&packets).unwrap();
    let offsets: Vec<_> = avc_stream.samples.iter().map(|s| s.composition_time_offset).collect();
    assert_eq!(offsets, vec![Some(0), Some(150), Some(-150)]);
    assert_eq!(durations(&packets), vec![Some(0), Some(150), Some(900)]);
}

#[test]
fn high_profile_is_unsupported() {
    let mut sps = SPS;
    sps[1] = 100;
    let packets = vec![
        video_packet(0, None, &[&sps, &PPS, &[0x65, 1]]),
        audio_packet(0, &[&payload16()]),
    ];
    assert_eq!(kind_of(packets), ErrorKind::Unsupported);
}

#[test]
fn data_offsets_lead_to_the_data() {
    let packets = vec![
        video_packet(900, None, &[&[0x09, 0xF0], &SPS, &PPS, &[0x65, 0x88, 0x84]]),
        audio_packet(0, &[&payload16(), &[1, 2, 3]]),
        frame(3900, None),
        audio_packet(1920, &[&[4, 5]]),
    ];
    let (_, media_segment) = to_fmp4(&packets).unwrap();
    let mut bytes = Vec::new();
    media_segment.write_to(&mut bytes).unwrap();
    assert_eq!(&bytes[4..8], b"moof");

    let trafs = &media_segment.moof_box.traf_boxes;
    let video_offset = trafs[0].trun_box.data_offset.unwrap() as usize;
    let audio_offset = trafs[1].trun_box.data_offset.unwrap() as usize;
    let moof_size = media_segment.moof_box.box_size().unwrap() as usize;
    assert_eq!(video_offset, moof_size + 8);
    assert_eq!(&bytes[video_offset - 4..video_offset], b"mdat");
    // the length of the first NAL unit and the unit
    assert_eq!(&bytes[video_offset..video_offset + 6], &[0, 0, 0, 2, 0x09, 0xF0]);
    let video_data = &media_segment.mdat_boxes[0].data;
    assert_eq!(&bytes[video_offset..video_offset + video_data.len()], &video_data[..]);
    assert_eq!(audio_offset, video_offset + video_data.len() + 8);
    assert_eq!(&bytes[audio_offset - 4..audio_offset], b"mdat");
    assert_eq!(bytes[audio_offset], 0xA0);
    let audio_data = &media_segment.mdat_boxes[1].data;
    assert_eq!(&bytes[audio_offset..], &audio_data[..]);
    let mut expected = payload16();
    expected.extend_from_slice(&[1, 2, 3, 4, 5]);
    assert_eq!(audio_data, &expected);

    let sizes: Vec<_> = trafs[0].trun_box.samples.iter().map(|s| s.size.unwrap()).collect();
    assert_eq!(sizes, vec![(6 + 12 + 8 + 7) as u32, 7]);
    let sizes: Vec<_> = trafs[1].trun_box.samples.iter().map(|s| s.size.unwrap()).collect();
    assert_eq!(sizes, vec![16, 3, 2]);
}

#[test]
fn data_offset_with_a_first_nal_unit_of_one_byte() {
    let packets = vec![
        video_packet(0, None, &[&[0x09], &SPS, &PPS, &[0x65]]),
        audio_packet(0, &[&payload16()]),
    ];
    let (_, media_segment) = to_fmp4(&packets).unwrap();
    let mut bytes = Vec::new();
    media_segment.write_to(&mut bytes).unwrap();
    let offset = media_segment.moof_box.traf_boxes[0].trun_box.data_offset.unwrap() as usize;
    assert_eq!(&bytes[offset..offset + 5], &[0, 0, 0, 1, 0x09]);
}

#[test]
fn media_segment_of_two_streams() {
    let avc_stream = AvcStream {
        configuration: mse_fmp4::avc::AvcDecoderConfigurationRecord {
            profile_idc: 66,
            constraint_set_flag: 0,
            level_idc: 30,
            sequence_parameter_set: SPS.to_vec(),
            picture_parameter_set: PPS.to_vec(),
        },
        width: 320,
        height: 240,
        samples: vec![sample(3, Some(0), Some(0)), sample(2, Some(3000), Some(10))],
        data: vec![1, 2, 3, 4, 5],
    };
    let aac_stream = AacStream {
        adts_header: mse_fmp4::aac::AdtsHeader::read_from(&adts_frame(&[0; 4])).unwrap(),
        samples: vec![sample(4, None, None)],
        data: vec![6, 7, 8, 9],
    };
    let segment = make_media_segment(avc_stream, aac_stream).unwrap();
    let moof = &segment.moof_box;
    assert_eq!(moof.mfhd_box.sequence_number, 1);
    let video = &moof.traf_boxes[0];
    assert_eq!(video.tfhd_box.track_id, 1);
    assert!(video.tfhd_box.default_base_is_moof);
    let default_flags = SampleFlags {
        is_leading: 0,
        sample_depends_on: 1,
        sample_is_depdended_on: 0,
        sample_has_redundancy: 0,
        sample_padding_value: 0,
        sample_is_non_sync_sample: true,
        sample_degradation_priority: 0,
    };
    assert_eq!(video.tfhd_box.default_sample_flags, Some(default_flags));
    let first_flags = SampleFlags {
        sample_depends_on: 2,
        sample_is_non_sync_sample: false,
        ..default_flags
    };
    assert_eq!(video.trun_box.first_sample_flags, Some(first_flags));
    assert_eq!(video.tfhd_box.box_flags(), Some(0x02_0020));
    assert_eq!(video.trun_box.box_flags(), Some(0xB05));
    let audio = &moof.traf_boxes[1];
    assert_eq!(audio.tfhd_box.track_id, 2);
    assert_eq!(audio.tfhd_box.default_sample_flags, None);
    assert_eq!(audio.trun_box.first_sample_flags, None);
    assert_eq!(audio.tfhd_box.box_flags(), Some(0x02_0008));
    assert_eq!(audio.trun_box.box_flags(), Some(0x201));
    // 156 bytes and the fields of the samples
    assert_eq!(moof.box_size().unwrap(), 156 + 2 * 12 + 4);
    assert_eq!(video.trun_box.data_offset, Some(184 + 8));
    assert_eq!(audio.trun_box.data_offset, Some(184 + 8 + 5 + 8));
    assert_eq!(segment.mdat_boxes[0].data, vec![1, 2, 3, 4, 5]);
    assert_eq!(segment.mdat_boxes[1].data, vec![6, 7, 8, 9]);
}

#[test]
fn media_segment_of_samples_that_disagree_is_invalid() {
    let packets = vec![key_frame(0, None), audio_packet(0, &[&payload16()])];
    let (mut avc_stream, aac_stream) = read_avc_aac_stream(&packets).unwrap();
    avc_stream.samples.push(sample(1, None, Some(0)));
    assert_eq!(
        make_media_segment(avc_stream, aac_stream).unwrap_err().kind(),
        ErrorKind::InvalidInput
    );
}

#[test]
fn initialization_segment_of_two_streams() {
    let packets = vec![
        key_frame(3000, Some(0)),
        frame(6000, Some(3000)),
        audio_packet(0, &[&payload16()]),
        frame(9000, Some(6000)),
    ];
    let (avc_stream, aac_stream) = read_avc_aac_stream(&packets).unwrap();
    assert_eq!(avc_stream.duration().unwrap(), 9000);
    assert_eq!(aac_stream.duration().unwrap(), 1024);
    assert_eq!((avc_stream.width, avc_stream.height), (320, 240));
    assert_eq!(avc_stream.configuration.profile_idc, 0x42);
    assert_eq!(avc_stream.configuration.constraint_set_flag, 0xC0);
    assert_eq!(avc_stream.configuration.level_idc, 0x1E);
    assert_eq!(avc_stream.configuration.sequence_parameter_set, SPS.to_vec());
    assert_eq!(avc_stream.configuration.picture_parameter_set, PPS.to_vec());
    assert_eq!(aac_stream.adts_header.profile, AacProfile::Lc);

    let segment = make_initialization_segment(&avc_stream, &aac_stream).unwrap();
    let moov = &segment.moov_box;
    // the video track lasts 0.1 s and the audio track 1024 / 48000 s: the video track decides
    assert_eq!((moov.mvhd_box.timescale, moov.mvhd_box.duration), (90000, 9000));
    assert_eq!(moov.mvex_box.mehd_box.as_ref().unwrap().fragment_duration, 9000);
    let video = &moov.trak_boxes[0];
    assert_eq!(video.tkhd_box.track_id, 1);
    assert_eq!(video.tkhd_box.duration, 9000);
    assert_eq!(video.edts_box.elst_box.media_time, 3000);
    assert_eq!(video.mdia_box.mdhd_box.duration, 9000);
    match &video.mdia_box.minf_box.stbl_box.stsd_box.sample_entries[0] {
        SampleEntry::Avc(entry) => {
            assert_eq!((entry.width, entry.height), (320, 240));
            assert_eq!(entry.avcc_box.configuration, avc_stream.configuration);
        }
        SampleEntry::Aac(_) => panic!("the video track has an audio sample entry"),
    }
    let audio = &moov.trak_boxes[1];
    assert_eq!(audio.tkhd_box.track_id, 2);
    assert_eq!(audio.tkhd_box.duration, 1024);
    assert_eq!(audio.mdia_box.mdhd_box.duration, 1024);
    match &audio.mdia_box.minf_box.stbl_box.stsd_box.sample_entries[0] {
        SampleEntry::Aac(entry) => {
            assert_eq!(entry.esds_box.profile, AacProfile::Lc);
            assert_eq!(entry.esds_box.frequency, SamplingFrequency::Hz48000);
            assert_eq!(entry.esds_box.channel_configuration, ChannelConfiguration::OneChannel);
        }
        SampleEntry::Avc(_) => panic!("the audio track has a video sample entry"),
    }
    assert_eq!(moov.mvex_box.trex_boxes.len(), 2);
    let mut out = Vec::new();
    segment.write_to(&mut out).unwrap();
    assert_eq!(out.len(), 16 + moov.box_size().unwrap() as usize);
    assert_eq!(out.len(), 1152 + SPS.len() + PPS.len());
}

#[test]
fn longer_track_decides_the_duration_of_the_movie() {
    let packets = vec![key_frame(0, None), audio_packet(0, &[&payload16()])];
    let movie_header = |video_ticks: u32, audio_samples: usize| {
        let (mut avc_stream, mut aac_stream) = read_avc_aac_stream(&packets).unwrap();
        avc_stream.samples[0].duration = Some(video_ticks);
        aac_stream.samples = vec![sample(16, None, None); audio_samples];
        let segment = make_initialization_segment(&avc_stream, &aac_stream).unwrap();
        let mvhd = &segment.moov_box.mvhd_box;
        let mehd = segment.moov_box.mvex_box.mehd_box.as_ref().unwrap();
        assert_eq!(mehd.fragment_duration, mvhd.duration);
        assert_eq!(segment.moov_box.trak_boxes[0].mdia_box.mdhd_box.duration, video_ticks);
        assert_eq!(
            segment.moov_box.trak_boxes[1].mdia_box.mdhd_box.duration,
            1024 * audio_samples as u32
        );
        (mvhd.timescale, mvhd.duration)
    };
    // 1 s of video, which has more ticks than 1.045 s of audio have
    assert_eq!(movie_header(90000, 49), (48000, 50176));
    // 1 s of video and 0.98 s of audio
    assert_eq!(movie_header(90000, 46), (90000, 90000));
    // 0.5 s of video and 1.003 s of audio
    assert_eq!(movie_header(45000, 47), (48000, 48128));
    // 0.2 s of video and 0.107 s of audio
    assert_eq!(movie_header(18000, 5), (90000, 18000));
    // tracks of the same length: 8 s are 720000 ticks of video and 375 samples of audio
    assert_eq!(movie_header(720000, 375), (90000, 720000));
    assert_eq!(movie_header(719999, 375), (48000, 384000));
}

#[test]
fn initialization_segment_that_cannot_be_written() {
    let packets = vec![key_frame(0, None), audio_packet(0, &[&payload16()])];
    let kind_of_segment = |change: &dyn Fn(&mut AvcStream, &mut AacStream)| {
        let (mut avc_stream, mut aac_stream) = read_avc_aac_stream(&packets).unwrap();
        change(&mut avc_stream, &mut aac_stream);
        let segment = make_initialization_segment(&avc_stream, &aac_stream).unwrap();
        let mut out = Vec::new();
        let kind = segment.write_to(&mut out).map_err(|e| e.kind());
        assert!(kind.is_ok() || out.is_empty());
        kind
    };
    assert_eq!(kind_of_segment(&|_, _| {}), Ok(()));
    assert_eq!(
        kind_of_segment(&|avc, _| avc.configuration.profile_idc = 110),
        Err(ErrorKind::Unsupported)
    );
    assert_eq!(
        kind_of_segment(&|avc, _| avc.configuration.picture_parameter_set = vec![0; 0x1_0000]),
        Err(ErrorKind::InvalidInput)
    );
    assert_eq!(
        kind_of_segment(&|_, aac| {
            aac.adts_header.channel_configuration = ChannelConfiguration::SixChannels
        }),
        Err(ErrorKind::Unsupported)
    );
    assert_eq!(
        kind_of_segment(&|_, aac| aac.adts_header.sampling_frequency = SamplingFrequency::Hz96000),
        Err(ErrorKind::InvalidInput)
    );
    // the video track stands before the audio track
    assert_eq!(
        kind_of_segment(&|avc, aac| {
            avc.configuration.sequence_parameter_set = vec![0; 0x1_0000];
            aac.adts_header.channel_configuration = ChannelConfiguration::SixChannels;
        }),
        Err(ErrorKind::InvalidInput)
    );
}

#[test]
fn initialization_segment_without_durations_is_invalid() {
    let packets = vec![key_frame(0, None), audio_packet(0, &[&payload16()])];
    let (mut avc_stream, aac_stream) = read_avc_aac_stream(&packets).unwrap();
    avc_stream.samples[0].duration = None;
    assert_eq!(avc_stream.duration().unwrap_err().kind(), ErrorKind::InvalidInput);
    assert_eq!(
        make_initialization_segment(&avc_stream, &aac_stream).unwrap_err().kind(),
        ErrorKind::InvalidInput
    );
    avc_stream.samples[0].duration = Some(u32::MAX);
    assert_eq!(avc_stream.duration().unwrap(), u32::MAX);
    avc_stream.samples.push(sample(1, Some(1), Some(0)));
    assert_eq!(avc_stream.duration().unwrap_err().kind(), ErrorKind::InvalidInput);
    avc_stream.samples.pop();
    avc_stream.width = 0x1_0000;
    assert_eq!(
        make_initialization_segment(&avc_stream, &aac_stream).unwrap_err().kind(),
        ErrorKind::InvalidInput
    );
}

#[test]
fn packet_without_stream_type_is_invalid() {
    let mut packet = key_frame(0, None);
    packet.stream_type = None;
    assert_eq!(kind_of(vec![packet]), ErrorKind::InvalidInput);
}

#[test]
fn video_of_another_stream_type_is_unsupported() {
    let mut packet = key_frame(0, None);
    packet.stream_type = Some(0x02);
    assert_eq!(kind_of(vec![packet]), ErrorKind::Unsupported);
    let mut packet = key_frame(0, None);
    packet.stream_id = 0xEF;
    packet.stream_type = Some(STREAM_TYPE_ADTS_AAC);
    assert_eq!(kind_of(vec![packet]), ErrorKind::Unsupported);
}

#[test]
fn audio_of_another_stream_type_is_unsupported() {
    let mut packet = audio_packet(0, &[&payload16()]);
    packet.stream_type = Some(0x03);
    assert_eq!(kind_of(vec![key_frame(0, None), packet]), ErrorKind::Unsupported);
    let mut packet = audio_packet(0, &[&payload16()]);
    packet.stream_id = 0xDF;
    packet.stream_type = Some(STREAM_TYPE_H264);
    assert_eq!(kind_of(vec![key_frame(0, None), packet]), ErrorKind::Unsupported);
}

#[test]
fn packet_of_neither_video_nor_audio_is_invalid() {
    for stream_id in [0x00, 0xBD, 0xBF, 0xF0, 0xFF] {
        let mut packet = key_frame(0, None);
        packet.stream_id = stream_id;
        assert_eq!(kind_of(vec![packet]), ErrorKind::InvalidInput);
    }
}

#[test]
fn stream_identifiers_of_video_and_audio() {
    for stream_id in [0xE0, 0xE7, 0xEF] {
        let mut video = key_frame(0, None);
        video.stream_id = stream_id;
        read_avc_aac_stream(&vec![video, audio_packet(0, &[&payload16()])]).unwrap();
    }
    for stream_id in [0xC0, 0xCA, 0xDF] {
        let mut audio = audio_packet(0, &[&payload16()]);
        audio.stream_id = stream_id;
        read_avc_aac_stream(&vec![key_frame(0, None), audio]).unwrap();
    }
}

#[test]
fn packet_without_presentation_timestamp_is_invalid() {
    let mut packet = key_frame(0, Some(0));
    packet.pts = None;
    assert_eq!(kind_of(vec![packet]), ErrorKind::InvalidInput);
    let mut packet = audio_packet(0, &[&payload16()]);
    packet.pts = None;
    assert_eq!(kind_of(vec![key_frame(0, None), packet]), ErrorKind::InvalidInput);
}

#[test]
fn timestamp_of_more_than_33_bits_is_invalid() {
    assert_eq!(kind_of(vec![key_frame(1 << 33, None)]), ErrorKind::InvalidInput);
    assert_eq!(kind_of(vec![key_frame(0, Some(1 << 33))]), ErrorKind::InvalidInput);
    read_avc_aac_stream(&vec![
        key_frame((1 << 33) - 1, Some((1 << 33) - 1)),
        audio_packet(0, &[&payload16()]),
    ])
    .unwrap();
}

#[test]
fn first_video_packet_needs_both_parameter_sets() {
    let no_pps = video_packet(0, None, &[&SPS, &[0x65, 1]]);
    assert_eq!(kind_of(vec![no_pps]), ErrorKind::InvalidInput);
    let no_sps = video_packet(0, None, &[&PPS, &[0x65, 1]]);
    assert_eq!(kind_of(vec![no_sps]), ErrorKind::InvalidInput);
    // parameter sets in a later packet come too late
    assert_eq!(kind_of(vec![frame(0, None), key_frame(1, None)]), ErrorKind::InvalidInput);
    let no_start_code = PesPacket { data: SPS.to_vec(), ..key_frame(0, None) };
    assert_eq!(kind_of(vec![no_start_code]), ErrorKind::InvalidInput);
}

#[test]
fn first_parameter_sets_win() {
    let mut second_sps = SPS;
    second_sps[1] = 100;
    let second_pps = [0x68, 0xFF];
    let data = annex_b(&[&SPS, &second_sps, &PPS, &second_pps, &[0x65]]);
    let (sps, summary, pps) = read_video_configuration(&data).unwrap();
    assert_eq!(sps, SPS.to_vec());
    assert_eq!(pps, PPS.to_vec());
    assert_eq!((summary.profile_idc, summary.width(), summary.height()), (0x42, 320, 240));
    // a unit of unknown type is an error wherever it stands
    let data = annex_b(&[&SPS, &PPS, &[0x7F]]);
    assert_eq!(read_video_configuration(&data).unwrap_err().kind(), ErrorKind::InvalidInput);
    let data = annex_b(&[&SPS, &PPS, &[], &[0x65]]);
    assert_eq!(read_video_configuration(&data).unwrap_err().kind(), ErrorKind::Other);
}

#[test]
fn nal_units_are_length_prefixed() {
    let mut out = vec![0xEE];
    let data = annex_b(&[&[0x09, 0xF0], &[0x65, 1, 2, 3], &[0x41]]);
    assert_eq!(append_nal_units(&data, &mut out).unwrap(), 6 + 8 + 5);
    assert_eq!(out, vec![0xEE, 0, 0, 0, 2, 0x09, 0xF0, 0, 0, 0, 4, 0x65, 1, 2, 3, 0, 0, 0, 1, 0x41]);
    assert_eq!(append_nal_units(&[0, 0, 1], &mut out).unwrap(), 0);
    assert_eq!(out.len(), 20);
    assert_eq!(append_nal_units(&[1, 2, 3], &mut out).unwrap_err().kind(), ErrorKind::InvalidInput);
}

#[test]
fn adts_frames_follow_one_another() {
    let first = mse_fmp4::aac::AdtsHeader::read_from(&adts_frame(&[])).unwrap();
    let mut samples = Vec::new();
    let mut out = Vec::new();
    let mut data = adts_frame(&[1, 2, 3]);
    data.extend_from_slice(&adts_frame(&[]));
    data.extend_from_slice(&adts_frame(&[4]));
    append_adts_frames(&data, &first, &mut samples, &mut out).unwrap();
    assert_eq!(samples, vec![sample(3, None, None), sample(0, None, None), sample(1, None, None)]);
    assert_eq!(out, vec![1, 2, 3, 4]);
    append_adts_frames(&[], &first, &mut samples, &mut out).unwrap();
    assert_eq!((samples.len(), out.len()), (3, 4));
}

#[test]
fn adts_frame_that_does_not_fit_is_invalid() {
    let first = mse_fmp4::aac::AdtsHeader::read_from(&adts_frame(&[])).unwrap();
    let data = adts_frame(&[1, 2, 3]);
    let error = append_adts_frames(&data[..9], &first, &mut Vec::new(), &mut Vec::new());
    assert_eq!(error.unwrap_err().kind(), ErrorKind::InvalidInput);
    // a frame length below the length of the header
    let short = [0xFF, 0xF1, 0x4C, 0x40, 0x00, 0xDF, 0xFC];
    let error = append_adts_frames(&short, &first, &mut Vec::new(), &mut Vec::new());
    assert_eq!(error.unwrap_err().kind(), ErrorKind::InvalidInput);
    // what follows a frame is no header
    let mut data = adts_frame(&[1]);
    data.push(0xFF);
    let error = append_adts_frames(&data, &first, &mut Vec::new(), &mut Vec::new());
    assert_eq!(error.unwrap_err().kind(), ErrorKind::Other);
    let packet = PesPacket { data, ..audio_packet(0, &[]) };
    assert_eq!(kind_of(vec![key_frame(0, None), packet]), ErrorKind::Other);
}

#[test]
fn adts_frames_of_another_configuration_are_unsupported() {
    let mut stereo = adts_frame(&[1, 2]);
    stereo[3] = 0x80 | (stereo[3] & 0x3F);
    let packets = vec![
        key_frame(0, None),
        audio_packet(0, &[&payload16()]),
        PesPacket { data: stereo.clone(), ..audio_packet(1024, &[]) },
    ];
    assert_eq!(kind_of(packets), ErrorKind::Unsupported);
    let mut data = adts_frame(&[1, 2]);
    data.extend_from_slice(&stereo);
    let packets = vec![key_frame(0, None), PesPacket { data, ..audio_packet(0, &[]) }];
    assert_eq!(kind_of(packets), ErrorKind::Unsupported);
    let mut other_rate = adts_frame(&[1, 2]);
    other_rate[2] = 0x50;
    let packets = vec![
        key_frame(0, None),
        audio_packet(0, &[&payload16()]),
        PesPacket { data: other_rate, ..audio_packet(1024, &[]) },
    ];
    assert_eq!(kind_of(packets), ErrorKind::Unsupported);
}

#[test]
fn empty_audio_packets() {
    // the first audio packet has to begin with a header
    let empty = PesPacket { data: Vec::new(), ..audio_packet(0, &[]) };
    assert_eq!(kind_of(vec![key_frame(0, None), empty]), ErrorKind::Other);
    let packets = vec![
        key_frame(0, None),
        audio_packet(0, &[&payload16()]),
        PesPacket { data: Vec::new(), ..audio_packet(0, &[]) },
    ];
    let (_, aac_stream) = read_avc_aac_stream(&packets).unwrap();
    assert_eq!(aac_stream.samples.len(), 1);
}

#[test]
fn durations_follow_the_timestamps() {
    let mut samples = vec![
        sample(1, None, Some(-5)),
        sample(2, Some(77), None),
        sample(3, None, None),
        sample(4, None, Some(9)),
    ];
    resolve_durations(&mut samples, &vec![0, 900, 300, 600]).unwrap();
    assert_eq!(
        samples,
        vec![
            sample(1, Some(0), Some(-5)),
            sample(2, Some(300), None),
            sample(3, Some(300), None),
            sample(4, Some(300), Some(9)),
        ]
    );
    // a sample that is presented before the first in decoding order keeps its duration
    let mut samples = vec![sample(1, None, Some(40)), sample(2, Some(77), None), sample(3, None, None)];
    resolve_durations(&mut samples, &vec![100, 50, 70]).unwrap();
    assert_eq!(
        samples,
        vec![sample(1, Some(40), Some(40)), sample(2, Some(77), None), sample(3, Some(20), None)]
    );
    let mut none: Vec<Sample> = Vec::new();
    resolve_durations(&mut none, &Vec::new()).unwrap();
}

#[test]
fn durations_that_do_not_fit_are_invalid() {
    let mut samples = vec![sample(1, None, None), sample(2, None, None)];
    let error = resolve_durations(&mut samples, &vec![0, 1 << 32]).unwrap_err();
    assert_eq!(error.kind(), ErrorKind::InvalidInput);
    let mut samples = vec![sample(1, None, None), sample(2, None, None)];
    resolve_durations(&mut samples, &vec![0, (1 << 32) - 1]).unwrap();
    assert_eq!(samples[1].duration, Some(u32::MAX));
    let error = resolve_durations(&mut samples, &vec![0]).unwrap_err();
    assert_eq!(error.kind(), ErrorKind::InvalidInput);
}

#[test]
fn sample_sizes_add_up_to_the_data() {
    let packets = vec![
        video_packet(900, None, &[&[0x09, 0xF0], &SPS, &PPS, &[0x65, 0x88, 0x84]]),
        audio_packet(0, &[&payload16(), &[1, 2, 3], &[]]),
        frame(3900, None),
        video_packet(6900, None, &[&[0x09, 0x30], &[0x41, 1, 2, 3, 4, 5]]),
        audio_packet(1920, &[&[4, 5]]),
    ];
    let (avc_stream, aac_stream) = read_avc_aac_stream(&packets).unwrap();
    let video: u32 = avc_stream.samples.iter().map(|s| s.size.unwrap()).sum();
    let audio: u32 = aac_stream.samples.iter().map(|s| s.size.unwrap()).sum();
    assert_eq!(video as usize, avc_stream.data.len());
    assert_eq!(audio as usize, aac_stream.data.len());
    assert_eq!(avc_stream.samples.len(), 3);
    assert_eq!(aac_stream.samples.len(), 4);
}

#[test]
fn audio_duration_is_1024_for_each_sample() {
    let packets = vec![
        key_frame(0, None),
        audio_packet(0, &[&payload16(), &[1], &[2]]),
        audio_packet(0, &[&[3]]),
    ];
    let (_, mut aac_stream) = read_avc_aac_stream(&packets).unwrap();
    assert_eq!(aac_stream.duration().unwrap(), 4096);
    aac_stream.samples = vec![sample(1, None, None); 0x3F_FFFF];
    assert_eq!(aac_stream.duration().unwrap(), 0xFFFF_FC00);
    aac_stream.samples.push(sample(1, None, None));
    assert_eq!(aac_stream.duration().unwrap_err().kind(), ErrorKind::InvalidInput);
}

#[test]
fn stream_types_are_looked_up_by_stream_identifier() {
    let mut reader = TsPacketReader::new();
    assert_eq!(reader.get_stream_type(0xE0), None);
    // a PID that no program map table has named is passed over
    reader.record_pes(0xE0, 0x100);
    assert_eq!(reader.get_stream_type(0xE0), None);
    reader.record_pmt_entry(0x100, STREAM_TYPE_H264);
    reader.record_pmt_entry(0x101, STREAM_TYPE_ADTS_AAC);
    assert_eq!(reader.get_stream_type(0xE0), None);
    reader.record_pes(0xE0, 0x100);
    reader.record_pes(0xC0, 0x101);
    reader.record_pes(0xC1, 0x102);
    assert_eq!(reader.get_stream_type(0xE0), Some(STREAM_TYPE_H264));
    assert_eq!(reader.get_stream_type(0xC0), Some(STREAM_TYPE_ADTS_AAC));
    assert_eq!(reader.get_stream_type(0xC1), None);
    // a later table and a later packet replace what was known
    reader.record_pmt_entry(0x100, 0x02);
    assert_eq!(reader.get_stream_type(0xE0), Some(0x02));
    reader.record_pes(0xE0, 0x101);
    assert_eq!(reader.get_stream_type(0xE0), Some(STREAM_TYPE_ADTS_AAC));
}
