use mse_fmp4::aac::{AacProfile, ChannelConfiguration, SamplingFrequency};
use mse_fmp4::avc::AvcDecoderConfigurationRecord;
use mse_fmp4::error::ErrorKind;
use mse_fmp4::fmp4::{
    AacSampleEntry, AvcConfigurationBox, AvcSampleEntry, BoxHeader, BoxType, Brand,
    ChunkOffsetBox, DataEntryUrlBox, DataInformationBox, DataReferenceBox, EditBox, EditListBox,
    FileTypeBox, FullBoxHeader, HandlerReferenceBox, HandlerType, InitializationSegment, MediaBox,
    MediaDataBox, MediaHeaderBox, MediaInformationBox, MediaSegment, MovieBox, MovieExtendsBox,
    MovieExtendsHeaderBox, MovieFragmentBox, MovieFragmentHeaderBox, MovieHeaderBox, Mp4Box,
    Mpeg4EsDescriptorBox, Sample, SampleDescriptionBox, SampleEntry, SampleFlags, SampleFormat,
    SampleSizeBox, SampleTableBox, SampleToChunkBox, SoundMediaHeaderBox, TimeToSampleBox,
    TrackBox, TrackExtendsBox, TrackFragmentBaseMediaDecodeTimeBox, TrackFragmentBox,
    TrackFragmentHeaderBox, TrackHeaderBox, TrackRunBox, VideoMediaHeaderBox, AUDIO_TRACK_ID,
    VIDEO_TRACK_ID,
};
use mse_fmp4::io::{ByteCounter, WriteTo};

const IDENTITY_MATRIX: [u8; 36] = [
    0, 1, 0, 0, 0, 0, 0, 0, 0, 0, 0, 0, 0, 0, 0, 0, 0, 1, 0, 0, 0, 0, 0, 0, 0, 0, 0, 0, 0, 0, 0, 0,
    0x40, 0, 0, 0,
];

/// Writes the box and holds its size against the bytes written and the bytes counted.
fn written<T: Mp4Box>(b: &T) -> Vec<u8> {
    let mut out = Vec::new();
    b.write_box(&mut out).unwrap();
    let mut counter = ByteCounter::with_sink();
    b.write_box(&mut counter).unwrap();
    let size = b.box_size().unwrap();
    assert_eq!(u64::from(size), counter.count());
    assert_eq!(size as usize, out.len());
    assert_eq!(&out[..4], &size.to_be_bytes());
    assert_eq!(&out[4..8], &T::BOX_TYPE);
    let full = b.box_version().is_some() || b.box_flags().is_some();
    let header = if full { 12 } else { 8 };
    if full {
        assert_eq!(out[8], b.box_version().unwrap_or(0));
        assert_eq!(&out[9..12], &b.box_flags().unwrap_or(0).to_be_bytes()[1..]);
    }
    assert_eq!(b.box_payload_size().unwrap() as usize, out.len() - header);
    let mut payload = Vec::new();
    b.write_box_payload(&mut payload).unwrap();
    assert_eq!(&out[header..], &payload[..]);
    out
}

/// Holds the error of the box against what each way of writing it reports.
fn fails<T: Mp4Box>(b: &T, kind: ErrorKind) {
    let mut out = vec![0xEE];
    assert_eq!(b.write_box(&mut out).unwrap_err().kind(), kind);
    assert_eq!(out, vec![0xEE]);
    assert_eq!(b.box_size().unwrap_err().kind(), kind);
    assert_eq!(b.box_payload_size().unwrap_err().kind(), kind);
    assert_eq!(b.write_box_payload(&mut ByteCounter::new()).unwrap_err().kind(), kind);
}

fn configuration() -> AvcDecoderConfigurationRecord {
    AvcDecoderConfigurationRecord {
        profile_idc: 66,
        constraint_set_flag: 0xC0,
        level_idc: 30,
        sequence_parameter_set: vec![0x67, 0x42, 0xC0, 0x1E],
        picture_parameter_set: vec![0x68, 0xCE, 0x3C],
    }
}

fn avc_entry() -> AvcSampleEntry {
    AvcSampleEntry {
        width: 320,
        height: 240,
        avcc_box: AvcConfigurationBox { configuration: configuration() },
    }
}

fn esds_box() -> Mpeg4EsDescriptorBox {
    Mpeg4EsDescriptorBox {
        profile: AacProfile::Lc,
        frequency: SamplingFrequency::Hz48000,
        channel_configuration: ChannelConfiguration::OneChannel,
    }
}

fn sample(duration: Option<u32>, size: Option<u32>, offset: Option<i32>) -> Sample {
    Sample { duration, size, flags: None, composition_time_offset: offset }
}

fn flags(depends_on: u8, non_sync: bool) -> SampleFlags {
    SampleFlags {
        is_leading: 0,
        sample_depends_on: depends_on,
        sample_is_depdended_on: 0,
        sample_has_redundancy: 0,
        sample_padding_value: 0,
        sample_is_non_sync_sample: non_sync,
        sample_degradation_priority: 0,
    }
}

fn video_track() -> TrackBox {
    let mut track = TrackBox::new(true);
    track.mdia_box.minf_box.stbl_box.stsd_box.sample_entries.push(SampleEntry::Avc(avc_entry()));
    track
}

fn audio_track() -> TrackBox {
    let mut track = TrackBox::new(false);
    track
        .mdia_box
        .minf_box
        .stbl_box
        .stsd_box
        .sample_entries
        .push(SampleEntry::Aac(AacSampleEntry { esds_box: esds_box() }));
    track
}

fn movie() -> MovieBox {
    let mut moov = MovieBox::new();
    moov.trak_boxes.push(video_track());
    moov.trak_boxes.push(audio_track());
    moov.mvex_box.trex_boxes.push(TrackExtendsBox::new(true));
    moov.mvex_box.trex_boxes.push(TrackExtendsBox::new(false));
    moov
}

#[test]
fn track_ids_are_fixed() {
    assert_eq!(VIDEO_TRACK_ID, 1);
    assert_eq!(AUDIO_TRACK_ID, 2);
}

#[test]
fn ftyp_of_isom_has_16_bytes() {
    let ftyp = FileTypeBox::new();
    assert_eq!(ftyp.major_brand, Brand(*b"isom"));
    assert_eq!(
        written(&ftyp),
        vec![0x00, 0x00, 0x00, 0x10, 0x66, 0x74, 0x79, 0x70, 0x69, 0x73, 0x6F, 0x6D, 0x00, 0x00, 0x02, 0x00]
    );
}

#[test]
fn ftyp_with_compatible_brands() {
    let ftyp = FileTypeBox {
        major_brand: Brand(*b"iso5"),
        minor_version: 1,
        compatible_brands: vec![Brand(*b"avc1"), Brand(*b"mp41")],
    };
    let mut expected = vec![0, 0, 0, 24];
    expected.extend_from_slice(b"ftypiso5");
    expected.extend_from_slice(&[0, 0, 0, 1]);
    expected.extend_from_slice(b"avc1mp41");
    assert_eq!(written(&ftyp), expected);
}

#[test]
fn box_header_is_written_and_read() {
    let header = BoxHeader { size: 0x0102_0304, kind: BoxType(*b"moov") };
    assert_eq!(header.data_size(), 0x0102_0304 - 8);
    let mut out = Vec::new();
    header.write_to(&mut out).unwrap();
    assert_eq!(out, vec![1, 2, 3, 4, b'm', b'o', b'o', b'v']);
    out.push(0xFF);
    assert_eq!(BoxHeader::read_from(&out).unwrap(), header);
    assert_eq!(BoxType::read_from(b"mdat!").unwrap(), BoxType(*b"mdat"));
    assert_eq!(BoxType::read_from(b"mda").unwrap_err().kind(), ErrorKind::Other);
}

#[test]
fn box_header_rejections() {
    let cases = [
        (BoxHeader { size: 1, kind: BoxType(*b"moov") }, ErrorKind::Unsupported),
        (BoxHeader { size: 0, kind: BoxType(*b"moov") }, ErrorKind::Unsupported),
        (BoxHeader { size: 7, kind: BoxType(*b"moov") }, ErrorKind::InvalidInput),
        (BoxHeader { size: 2, kind: BoxType(*b"uuid") }, ErrorKind::InvalidInput),
        (BoxHeader { size: 24, kind: BoxType(*b"uuid") }, ErrorKind::Unsupported),
    ];
    for (header, kind) in cases {
        let mut out = vec![7];
        assert_eq!(header.write_to(&mut out).unwrap_err().kind(), kind);
        assert_eq!(out, vec![7]);
        let mut bytes = header.size.to_be_bytes().to_vec();
        bytes.extend_from_slice(&header.kind.0);
        assert_eq!(BoxHeader::read_from(&bytes).unwrap_err().kind(), kind);
    }
    assert_eq!(BoxHeader::read_from(&[0, 0, 0, 8, 1, 2, 3]).unwrap_err().kind(), ErrorKind::Other);
    assert_eq!(BoxHeader::read_from(&[]).unwrap_err().kind(), ErrorKind::Other);
}

#[test]
fn full_box_header_is_written_and_read() {
    let header = FullBoxHeader::new(1, 0x02_0A05);
    let mut out = Vec::new();
    header.write_to(&mut out).unwrap();
    assert_eq!(out, vec![1, 0x02, 0x0A, 0x05]);
    assert_eq!(FullBoxHeader::read_from(&out).unwrap(), header);
    assert_eq!(FullBoxHeader::read_from(&out[..3]).unwrap_err().kind(), ErrorKind::Other);
    let header = FullBoxHeader::new(0, 0x100_0000);
    assert_eq!(header.write_to(&mut out).unwrap_err().kind(), ErrorKind::InvalidInput);
    assert_eq!(out.len(), 4);
}

#[test]
fn sample_flags_are_packed() {
    assert_eq!(flags(1, true).to_u32(), 0x0101_0000);
    assert_eq!(flags(2, false).to_u32(), 0x0200_0000);
    let all = SampleFlags {
        is_leading: 3,
        sample_depends_on: 2,
        sample_is_depdended_on: 1,
        sample_has_redundancy: 3,
        sample_padding_value: 5,
        sample_is_non_sync_sample: true,
        sample_degradation_priority: 0xABCD,
    };
    assert_eq!(all.to_u32(), (3 << 26) | (2 << 24) | (1 << 22) | (3 << 20) | (5 << 17) | (1 << 16) | 0xABCD);
}

#[test]
fn sample_box_flags() {
    assert_eq!(Sample::new().to_box_flags(), 0);
    assert_eq!(sample(Some(1), None, None).to_box_flags(), 0x100);
    assert_eq!(sample(None, Some(1), None).to_box_flags(), 0x200);
    assert_eq!(sample(None, None, Some(-1)).to_box_flags(), 0x800);
    let mut with_flags = sample(Some(1), Some(2), Some(3));
    with_flags.flags = Some(flags(1, true));
    assert_eq!(with_flags.to_box_flags(), 0xF00);
}

#[test]
fn mdat_holds_its_data() {
    let mdat = MediaDataBox { data: vec![1, 2, 3, 4, 5] };
    assert_eq!(written(&mdat), vec![0, 0, 0, 13, b'm', b'd', b'a', b't', 1, 2, 3, 4, 5]);
    assert_eq!(written(&MediaDataBox { data: Vec::new() }), vec![0, 0, 0, 8, b'm', b'd', b'a', b't']);
}

#[test]
fn mfhd_holds_the_sequence_number() {
    let mfhd = MovieFragmentHeaderBox::new();
    assert_eq!(mfhd.sequence_number, 1);
    assert_eq!(written(&mfhd), vec![0, 0, 0, 16, b'm', b'f', b'h', b'd', 0, 0, 0, 0, 0, 0, 0, 1]);
    fails(&MovieFragmentHeaderBox { sequence_number: 0 }, ErrorKind::InvalidInput);
}

#[test]
fn tfdt_is_zero() {
    let tfdt = TrackFragmentBaseMediaDecodeTimeBox::new();
    assert_eq!(written(&tfdt), vec![0, 0, 0, 16, b't', b'f', b'd', b't', 0, 0, 0, 0, 0, 0, 0, 0]);
}

#[test]
fn tfhd_flags_follow_its_fields() {
    let mut tfhd = TrackFragmentHeaderBox::new(VIDEO_TRACK_ID);
    assert_eq!(tfhd.box_flags(), Some(0x02_0000));
    assert_eq!(
        written(&tfhd),
        vec![0, 0, 0, 16, b't', b'f', b'h', b'd', 0, 2, 0, 0, 0, 0, 0, 1]
    );
    tfhd.default_sample_flags = Some(flags(1, true));
    assert_eq!(tfhd.box_flags(), Some(0x02_0020));
    assert_eq!(
        written(&tfhd),
        vec![0, 0, 0, 20, b't', b'f', b'h', b'd', 0, 2, 0, 0x20, 0, 0, 0, 1, 1, 1, 0, 0]
    );
    let all = TrackFragmentHeaderBox {
        track_id: 2,
        duration_is_empty: true,
        default_base_is_moof: false,
        base_data_offset: Some(0x0102_0304_0506_0708),
        sample_description_index: Some(9),
        default_sample_duration: Some(1024),
        default_sample_size: Some(0x10),
        default_sample_flags: Some(flags(2, false)),
    };
    assert_eq!(all.box_flags(), Some(0x01_003B));
    assert_eq!(
        written(&all),
        vec![
            0, 0, 0, 40, b't', b'f', b'h', b'd', 0, 1, 0, 0x3B, 0, 0, 0, 2, 1, 2, 3, 4, 5, 6, 7, 8,
            0, 0, 0, 9, 0, 0, 4, 0, 0, 0, 0, 0x10, 2, 0, 0, 0
        ]
    );
}

#[test]
fn trun_holds_the_samples() {
    let mut trun = TrackRunBox::new();
    assert_eq!(trun.box_version(), Some(1));
    assert_eq!(trun.box_flags(), Some(0));
    assert_eq!(written(&trun), vec![0, 0, 0, 16, b't', b'r', b'u', b'n', 1, 0, 0, 0, 0, 0, 0, 0]);
    trun.data_offset = Some(-2);
    trun.first_sample_flags = Some(flags(2, false));
    trun.samples.push(sample(Some(3003), Some(0x1234), Some(-1501)));
    trun.samples.push(sample(Some(0), Some(5), Some(7)));
    assert_eq!(trun.box_flags(), Some(0xB05));
    assert_eq!(
        written(&trun),
        vec![
            0, 0, 0, 48, b't', b'r', b'u', b'n', 1, 0, 0x0B, 0x05, 0, 0, 0, 2, 0xFF, 0xFF, 0xFF,
            0xFE, 2, 0, 0, 0, 0, 0, 0x0B, 0xBB, 0, 0, 0x12, 0x34, 0xFF, 0xFF, 0xFA, 0x23, 0, 0, 0,
            0, 0, 0, 0, 5, 0, 0, 0, 7
        ]
    );
}

#[test]
fn trun_with_sample_flags() {
    let mut trun = TrackRunBox::new();
    let mut s = Sample::new();
    s.flags = Some(flags(1, true));
    trun.samples.push(s);
    assert_eq!(trun.box_flags(), Some(0x400));
    assert_eq!(
        written(&trun),
        vec![0, 0, 0, 20, b't', b'r', b'u', b'n', 1, 0, 4, 0, 0, 0, 0, 1, 1, 1, 0, 0]
    );
}

#[test]
fn trun_whose_samples_disagree_is_invalid() {
    let mut trun = TrackRunBox::new();
    trun.samples.push(sample(Some(1), Some(2), None));
    trun.samples.push(sample(Some(1), Some(2), None));
    trun.samples.push(sample(None, Some(2), None));
    fails(&trun, ErrorKind::InvalidInput);
    trun.samples[2].duration = Some(0);
    written(&trun);
    trun.samples[1].composition_time_offset = Some(0);
    fails(&trun, ErrorKind::InvalidInput);
    let mut traf = TrackFragmentBox::new(true);
    traf.trun_box = trun;
    fails(&traf, ErrorKind::InvalidInput);
}

#[test]
fn traf_holds_three_boxes() {
    let video = TrackFragmentBox::new(true);
    let audio = TrackFragmentBox::new(false);
    assert_eq!(video.tfhd_box.track_id, 1);
    assert_eq!(audio.tfhd_box.track_id, 2);
    let bytes = written(&audio);
    let mut expected = vec![0, 0, 0, 56];
    expected.extend_from_slice(b"traf");
    expected.extend_from_slice(&written(&audio.tfhd_box));
    expected.extend_from_slice(&written(&audio.tfdt_box));
    expected.extend_from_slice(&written(&audio.trun_box));
    assert_eq!(bytes, expected);
}

#[test]
fn moof_needs_a_track_fragment() {
    let mut moof = MovieFragmentBox::new();
    fails(&moof, ErrorKind::InvalidInput);
    moof.traf_boxes.push(TrackFragmentBox::new(true));
    moof.traf_boxes.push(TrackFragmentBox::new(false));
    let bytes = written(&moof);
    assert_eq!(bytes.len(), 8 + 16 + 2 * 56);
    assert_eq!(&bytes[24..28], &[0, 0, 0, 56]);
    moof.mfhd_box.sequence_number = 0;
    fails(&moof, ErrorKind::InvalidInput);
}

#[test]
fn media_segment_needs_media_data() {
    let mut segment = MediaSegment::new();
    segment.moof_box.traf_boxes.push(TrackFragmentBox::new(true));
    let mut out = vec![1];
    assert_eq!(segment.write_to(&mut out).unwrap_err().kind(), ErrorKind::InvalidInput);
    assert_eq!(out, vec![1]);
    segment.mdat_boxes.push(MediaDataBox { data: vec![9, 8, 7] });
    segment.mdat_boxes.push(MediaDataBox { data: vec![6] });
    segment.write_to(&mut out).unwrap();
    let mut expected = vec![1];
    expected.extend_from_slice(&written(&segment.moof_box));
    expected.extend_from_slice(&[0, 0, 0, 11, b'm', b'd', b'a', b't', 9, 8, 7]);
    expected.extend_from_slice(&[0, 0, 0, 9, b'm', b'd', b'a', b't', 6]);
    assert_eq!(out, expected);
}

#[test]
fn media_segment_without_track_fragment_writes_nothing() {
    let mut segment = MediaSegment::new();
    segment.mdat_boxes.push(MediaDataBox { data: vec![9, 8, 7] });
    let mut out = vec![1, 2];
    assert_eq!(segment.write_to(&mut out).unwrap_err().kind(), ErrorKind::InvalidInput);
    assert_eq!(out, vec![1, 2]);
}

#[test]
fn empty_sample_tables() {
    assert_eq!(written(&SampleSizeBox::new()), b"\0\0\0\x14stsz\0\0\0\0\0\0\0\0\0\0\0\0".to_vec());
    assert_eq!(written(&TimeToSampleBox::new()), b"\0\0\0\x10stts\0\0\0\0\0\0\0\0".to_vec());
    assert_eq!(written(&ChunkOffsetBox::new()), b"\0\0\0\x10stco\0\0\0\0\0\0\0\0".to_vec());
    assert_eq!(written(&SampleToChunkBox::new()), b"\0\0\0\x10stsc\0\0\0\0\0\0\0\0".to_vec());
}

#[test]
fn media_headers() {
    assert_eq!(
        written(&VideoMediaHeaderBox::new()),
        b"\0\0\0\x14vmhd\0\0\0\x01\0\0\0\0\0\0\0\0".to_vec()
    );
    assert_eq!(written(&SoundMediaHeaderBox::new()), b"\0\0\0\x10smhd\0\0\0\0\0\0\0\0".to_vec());
    let mut mdhd = MediaHeaderBox::new();
    assert_eq!((mdhd.timescale, mdhd.duration), (0, 1));
    mdhd.timescale = 90000;
    mdhd.duration = 0x0102_0304;
    assert_eq!(
        written(&mdhd),
        vec![
            0, 0, 0, 32, b'm', b'd', b'h', b'd', 0, 0, 0, 0, 0, 0, 0, 0, 0, 0, 0, 0, 0, 1, 0x5F,
            0x90, 1, 2, 3, 4, 0x55, 0xC4, 0, 0
        ]
    );
}

#[test]
fn data_information() {
    assert_eq!(written(&DataEntryUrlBox::new()), b"\0\0\0\x0Curl \0\0\0\x01".to_vec());
    assert_eq!(
        written(&DataReferenceBox::new()),
        b"\0\0\0\x1Cdref\0\0\0\0\0\0\0\x01\0\0\0\x0Curl \0\0\0\x01".to_vec()
    );
    assert_eq!(
        written(&DataInformationBox::new()),
        b"\0\0\0\x24dinf\0\0\0\x1Cdref\0\0\0\0\0\0\0\x01\0\0\0\x0Curl \0\0\0\x01".to_vec()
    );
}

#[test]
fn handler_reference() {
    let video = HandlerReferenceBox::new(true);
    assert_eq!(video.handler_type(), HandlerType(*b"vide"));
    let mut expected = vec![0, 0, 0, 46];
    expected.extend_from_slice(b"hdlr\0\0\0\0\0\0\0\0vide\0\0\0\0\0\0\0\0\0\0\0\0Video Handler\0");
    assert_eq!(written(&video), expected);
    let audio = HandlerReferenceBox::new(false);
    assert_eq!(audio.handler_type(), HandlerType(*b"soun"));
    let mut expected = vec![0, 0, 0, 46];
    expected.extend_from_slice(b"hdlr\0\0\0\0\0\0\0\0soun\0\0\0\0\0\0\0\0\0\0\0\0Sound Handler\0");
    assert_eq!(written(&audio), expected);
}

#[test]
fn edit_list() {
    let mut edts = EditBox::new();
    assert_eq!(edts.elst_box.media_time, 0);
    edts.elst_box.media_time = 3003;
    let mut expected = b"\0\0\0\x24edts\0\0\0\x1Celst\0\0\0\0".to_vec();
    expected.extend_from_slice(&[0, 0, 0, 1, 0, 0, 0, 0, 0, 0, 0x0B, 0xBB, 0, 1, 0, 0]);
    assert_eq!(written(&edts), expected);
    assert_eq!(written(&EditListBox { media_time: -1 })[20..24], [0xFF, 0xFF, 0xFF, 0xFF]);
}

#[test]
fn track_header() {
    let mut tkhd = TrackHeaderBox::new(true);
    assert_eq!((tkhd.track_id, tkhd.duration, tkhd.volume, tkhd.width, tkhd.height), (1, 1, 0, 0, 0));
    tkhd.duration = 0x0A0B_0C0D;
    tkhd.width = 320 << 16;
    tkhd.height = 240 << 16;
    let mut expected = vec![0, 0, 0, 92];
    expected.extend_from_slice(b"tkhd\0\0\0\x07");
    expected.extend_from_slice(&[0; 8]);
    expected.extend_from_slice(&[0, 0, 0, 1, 0, 0, 0, 0, 0x0A, 0x0B, 0x0C, 0x0D]);
    expected.extend_from_slice(&[0; 8]);
    expected.extend_from_slice(&[0, 0, 0, 0, 0, 0, 0, 0]);
    expected.extend_from_slice(&IDENTITY_MATRIX);
    expected.extend_from_slice(&[1, 0x40, 0, 0, 0, 0xF0, 0, 0]);
    assert_eq!(written(&tkhd), expected);
    let audio = TrackHeaderBox::new(false);
    assert_eq!((audio.track_id, audio.volume), (2, 0x0100));
    assert_eq!(written(&audio)[40..48], [0, 0, 0, 0, 1, 0, 0, 0]);
}

#[test]
fn movie_header() {
    let mut mvhd = MovieHeaderBox::new();
    assert_eq!((mvhd.timescale, mvhd.duration), (1, 1));
    mvhd.timescale = 48000;
    mvhd.duration = 1024;
    let mut expected = vec![0, 0, 0, 108];
    expected.extend_from_slice(b"mvhd\0\0\0\0");
    expected.extend_from_slice(&[0; 8]);
    expected.extend_from_slice(&[0, 0, 0xBB, 0x80, 0, 0, 4, 0]);
    expected.extend_from_slice(&[0, 1, 0, 0, 1, 0, 0, 0]);
    expected.extend_from_slice(&[0; 8]);
    expected.extend_from_slice(&IDENTITY_MATRIX);
    expected.extend_from_slice(&[0; 24]);
    expected.extend_from_slice(&[0xFF; 4]);
    assert_eq!(written(&mvhd), expected);
}

#[test]
fn movie_extends() {
    assert_eq!(
        written(&MovieExtendsHeaderBox { fragment_duration: 0x0102_0304 }),
        b"\0\0\0\x10mehd\0\0\0\0\x01\x02\x03\x04".to_vec()
    );
    assert_eq!(MovieExtendsHeaderBox::new().fragment_duration, 0);
    let trex = TrackExtendsBox::new(false);
    let mut expected = b"\0\0\0\x20trex\0\0\0\0".to_vec();
    expected.extend_from_slice(&[0, 0, 0, 2, 0, 0, 0, 1, 0, 0, 0, 0, 0, 0, 0, 0, 0, 0, 0, 0]);
    assert_eq!(written(&trex), expected);
    assert_eq!(TrackExtendsBox::new(true).track_id, 1);

    let mut mvex = MovieExtendsBox::new();
    fails(&mvex, ErrorKind::InvalidInput);
    mvex.trex_boxes.push(TrackExtendsBox::new(true));
    assert_eq!(written(&mvex).len(), 8 + 32);
    mvex.mehd_box = Some(MovieExtendsHeaderBox { fragment_duration: 5 });
    mvex.trex_boxes.push(TrackExtendsBox::new(false));
    let bytes = written(&mvex);
    assert_eq!(bytes.len(), 8 + 16 + 2 * 32);
    assert_eq!(&bytes[8..16], b"\0\0\0\x10mehd");
    assert_eq!(&bytes[24..32], b"\0\0\0\x20trex");
}

#[test]
fn es_descriptor() {
    let mut expected = b"\0\0\0\x27esds\0\0\0\0".to_vec();
    expected.extend_from_slice(&[0x03, 25, 0, 0, 0]);
    expected.extend_from_slice(&[0x04, 17, 0x40, 0x15, 0, 0, 0, 0, 0, 0, 0, 0, 0, 0, 0]);
    expected.extend_from_slice(&[0x05, 2, 0x11, 0x88]);
    expected.extend_from_slice(&[0x06, 1, 2]);
    assert_eq!(written(&esds_box()), expected);
    let other = Mpeg4EsDescriptorBox {
        profile: AacProfile::Main,
        frequency: SamplingFrequency::Hz44100,
        channel_configuration: ChannelConfiguration::TwoChannels,
    };
    assert_eq!(written(&other)[34..36], [0x0A, 0x10]);
}

#[test]
fn aac_sample_entry() {
    let entry = AacSampleEntry { esds_box: esds_box() };
    let mut expected = b"\0\0\0\x4Bmp4a".to_vec();
    expected.extend_from_slice(&[0, 0, 0, 0, 0, 0, 0, 1]);
    expected.extend_from_slice(&[0; 8]);
    expected.extend_from_slice(&[0, 1, 0, 16, 0, 0, 0, 0, 0xBB, 0x80, 0, 0]);
    expected.extend_from_slice(&written(&esds_box()));
    assert_eq!(written(&entry), expected);
    let mut without_esds = Vec::new();
    entry.write_box_payload_without_esds(&mut without_esds).unwrap();
    assert_eq!(without_esds, expected[8..36].to_vec());
}

#[test]
fn aac_sample_entry_rejections() {
    let mut entry = AacSampleEntry { esds_box: esds_box() };
    entry.esds_box.channel_configuration = ChannelConfiguration::ThreeChannels;
    fails(&entry, ErrorKind::Unsupported);
    entry.esds_box.channel_configuration = ChannelConfiguration::SentViaInbandPce;
    fails(&entry, ErrorKind::Unsupported);
    // the number of channels is looked at before the sample rate
    entry.esds_box.frequency = SamplingFrequency::Hz96000;
    fails(&entry, ErrorKind::Unsupported);
    entry.esds_box.channel_configuration = ChannelConfiguration::TwoChannels;
    fails(&entry, ErrorKind::InvalidInput);
    entry.esds_box.frequency = SamplingFrequency::Hz88200;
    fails(&entry, ErrorKind::InvalidInput);
    entry.esds_box.frequency = SamplingFrequency::Hz64000;
    assert_eq!(written(&entry)[32..34], [0xFA, 0x00]);
    let mut out = vec![3];
    entry.esds_box.frequency = SamplingFrequency::Hz96000;
    assert!(entry.write_box_payload_without_esds(&mut out).is_err());
    assert_eq!(out, vec![3]);
}

#[test]
fn avc_sample_entry() {
    let entry = avc_entry();
    let mut expected = b"\0\0\0\x70avc1".to_vec();
    expected.extend_from_slice(&[0, 0, 0, 0, 0, 0, 0, 1]);
    expected.extend_from_slice(&[0; 16]);
    expected.extend_from_slice(&[1, 0x40, 0, 0xF0]);
    expected.extend_from_slice(&[0, 0x48, 0, 0, 0, 0x48, 0, 0]);
    expected.extend_from_slice(&[0, 0, 0, 0, 0, 1]);
    expected.extend_from_slice(&[0; 32]);
    expected.extend_from_slice(&[0, 0x18, 0xFF, 0xFF]);
    expected.extend_from_slice(b"\0\0\0\x1AavcC");
    expected.extend_from_slice(&[1, 66, 0xC0, 30, 0xFF, 0xE1, 0, 4, 0x67, 0x42, 0xC0, 0x1E]);
    expected.extend_from_slice(&[1, 0, 3, 0x68, 0xCE, 0x3C]);
    assert_eq!(written(&entry), expected);
    assert_eq!(written(&entry.avcc_box), expected[86..].to_vec());
    let mut without_avcc = Vec::new();
    entry.write_box_payload_without_avcc(&mut without_avcc).unwrap();
    assert_eq!(without_avcc, expected[8..86].to_vec());
}

#[test]
fn avc_configuration_of_high_profile_is_unsupported() {
    let mut entry = avc_entry();
    entry.avcc_box.configuration.profile_idc = 100;
    fails(&entry.avcc_box, ErrorKind::Unsupported);
    fails(&entry, ErrorKind::Unsupported);
    let entry = SampleEntry::Avc(entry);
    assert_eq!(entry.box_size().unwrap_err().kind(), ErrorKind::Unsupported);
    assert_eq!(entry.write_box(&mut Vec::new()).unwrap_err().kind(), ErrorKind::Unsupported);
}

#[test]
fn sample_entries() {
    let avc = SampleEntry::Avc(avc_entry());
    let aac = SampleEntry::Aac(AacSampleEntry { esds_box: esds_box() });
    assert_eq!(avc.format(), SampleFormat(*b"avc1"));
    assert_eq!(aac.format(), SampleFormat(*b"mp4a"));
    assert_eq!(avc.box_size().unwrap(), 0x70);
    assert_eq!(aac.box_size().unwrap(), 0x4B);
    let mut out = Vec::new();
    avc.write_box(&mut out).unwrap();
    aac.write_box(&mut out).unwrap();
    assert_eq!(out.len(), 0x70 + 0x4B);
    assert_eq!(&out[4..8], b"avc1");
    assert_eq!(&out[0x74..0x78], b"mp4a");

    let mut stsd = SampleDescriptionBox::new();
    fails(&stsd, ErrorKind::InvalidInput);
    stsd.sample_entries.push(avc);
    stsd.sample_entries.push(aac);
    let bytes = written(&stsd);
    assert_eq!(&bytes[..16], b"\0\0\0\xCBstsd\0\0\0\0\0\0\0\x02");
    assert_eq!(&bytes[16..], &out[..]);
}

#[test]
fn sample_table_and_media_information() {
    let mut stbl = SampleTableBox::new();
    fails(&stbl, ErrorKind::InvalidInput);
    stbl.stsd_box.sample_entries.push(SampleEntry::Avc(avc_entry()));
    let size = 8 + (16 + 0x70) + 16 + 16 + 20 + 16;
    assert_eq!(written(&stbl).len(), size);

    let mut minf = MediaInformationBox::new(true);
    assert!(minf.vmhd_box.is_some() && minf.smhd_box.is_none());
    minf.stbl_box = stbl;
    let bytes = written(&minf);
    assert_eq!(bytes.len(), 8 + 20 + 36 + size);
    assert_eq!(&bytes[12..16], b"vmhd");
    assert_eq!(&bytes[32..36], b"dinf");
    assert_eq!(&bytes[68..72], b"stbl");

    let audio = MediaInformationBox::new(false);
    assert!(audio.vmhd_box.is_none() && audio.smhd_box.is_some());
    fails(&audio, ErrorKind::InvalidInput);
}

#[test]
fn media_and_track_boxes() {
    let track = video_track();
    let mdia = written(&track.mdia_box);
    assert_eq!(&mdia[4..8], b"mdia");
    assert_eq!(&mdia[12..16], b"mdhd");
    assert_eq!(&mdia[44..48], b"hdlr");
    assert_eq!(&mdia[90..94], b"minf");
    let trak = written(&track);
    assert_eq!(trak.len(), 8 + 92 + 36 + mdia.len());
    assert_eq!(&trak[12..16], b"tkhd");
    assert_eq!(&trak[104..108], b"edts");
    assert_eq!(&trak[136..], &mdia[..]);
    written(&audio_track());
    fails(&MediaBox::new(true), ErrorKind::InvalidInput);
    fails(&TrackBox::new(false), ErrorKind::InvalidInput);
}

#[test]
fn movie_needs_tracks() {
    let mut moov = MovieBox::new();
    fails(&moov, ErrorKind::InvalidInput);
    moov.mvex_box.trex_boxes.push(TrackExtendsBox::new(true));
    fails(&moov, ErrorKind::InvalidInput);
    moov.trak_boxes.push(video_track());
    let bytes = written(&moov);
    assert_eq!(&bytes[12..16], b"mvhd");
    assert_eq!(&bytes[120..124], b"trak");
    assert_eq!(&bytes[bytes.len() - 36..bytes.len() - 32], b"mvex");
    moov.mvex_box.trex_boxes.clear();
    fails(&moov, ErrorKind::InvalidInput);
}

#[test]
fn movie_with_unsupported_audio_reports_the_first_error() {
    let mut moov = movie();
    match &mut moov.trak_boxes[1].mdia_box.minf_box.stbl_box.stsd_box.sample_entries[0] {
        SampleEntry::Aac(entry) => {
            entry.esds_box.channel_configuration = ChannelConfiguration::EightChannels
        }
        SampleEntry::Avc(_) => unreachable!(),
    }
    moov.mvex_box.trex_boxes.clear();
    // the tracks stand before the box `mvex`
    fails(&moov, ErrorKind::Unsupported);
}

#[test]
fn initialization_segment_is_ftyp_and_moov() {
    let mut segment = InitializationSegment::new();
    let mut out = vec![5];
    assert_eq!(segment.write_to(&mut out).unwrap_err().kind(), ErrorKind::InvalidInput);
    assert_eq!(out, vec![5]);
    segment.moov_box = movie();
    segment.write_to(&mut out).unwrap();
    let mut expected = vec![5];
    expected.extend_from_slice(&written(&segment.ftyp_box));
    expected.extend_from_slice(&written(&segment.moov_box));
    assert_eq!(out, expected);
    let mut counter = ByteCounter::new();
    segment.write_to(&mut counter).unwrap();
    assert_eq!(counter.count() as usize, out.len() - 1);
}

#[test]
fn defaults_are_what_new_makes() {
    let segment = InitializationSegment::default();
    assert_eq!(segment.ftyp_box.major_brand, Brand(*b"isom"));
    assert_eq!(segment.ftyp_box.minor_version, 512);
    assert!(segment.ftyp_box.compatible_brands.is_empty());
    assert_eq!((segment.moov_box.mvhd_box.timescale, segment.moov_box.mvhd_box.duration), (1, 1));
    assert!(segment.moov_box.trak_boxes.is_empty());
    assert!(segment.moov_box.mvex_box.mehd_box.is_none());
    let segment = MediaSegment::default();
    assert_eq!(segment.moof_box.mfhd_box.sequence_number, 1);
    assert!(segment.moof_box.traf_boxes.is_empty() && segment.mdat_boxes.is_empty());
    assert_eq!(Sample::default(), Sample::new());
    assert_eq!(EditBox::default().elst_box.media_time, 0);
    assert_eq!(MediaHeaderBox::default().duration, 1);
    assert_eq!(MovieExtendsHeaderBox::default().fragment_duration, 0);
    assert!(TrackRunBox::default().samples.is_empty());
    assert!(SampleDescriptionBox::default().sample_entries.is_empty());
}

#[test]
fn mime_type_names_the_codecs() {
    let mut segment = InitializationSegment::new();
    assert_eq!(segment.mime_type(), "video/mp4; codecs=\"avc1.640029, mp4a.40.2\"");
    // tracks without sample entries say nothing of the codecs
    segment.moov_box.trak_boxes.push(TrackBox::new(false));
    assert_eq!(segment.mime_type(), "video/mp4; codecs=\"avc1.640029, mp4a.40.2\"");
    segment.moov_box = movie();
    assert_eq!(segment.mime_type(), "video/mp4; codecs=\"avc1.42C01E, mp4a.40.2\"");
    // the first track of each kind counts, wherever it stands
    let mut first = audio_track();
    match &mut first.mdia_box.minf_box.stbl_box.stsd_box.sample_entries[0] {
        SampleEntry::Aac(entry) => entry.esds_box.profile = AacProfile::Ltp,
        SampleEntry::Avc(_) => unreachable!(),
    }
    segment.moov_box.trak_boxes.insert(0, first);
    let mut last = video_track();
    match &mut last.mdia_box.minf_box.stbl_box.stsd_box.sample_entries[0] {
        SampleEntry::Avc(entry) => entry.avcc_box.configuration.profile_idc = 77,
        SampleEntry::Aac(_) => unreachable!(),
    }
    segment.moov_box.trak_boxes.push(last);
    assert_eq!(segment.mime_type(), "video/mp4; codecs=\"avc1.42C01E, mp4a.40.4\"");
    segment.moov_box.trak_boxes.remove(1);
    segment.moov_box.trak_boxes.remove(1);
    assert_eq!(segment.mime_type(), "video/mp4; codecs=\"avc1.4DC01E, mp4a.40.4\"");
    match &mut segment.moov_box.trak_boxes[1].mdia_box.minf_box.stbl_box.stsd_box.sample_entries[0] {
        SampleEntry::Avc(entry) => {
            entry.avcc_box.configuration.profile_idc = 0xFA;
            entry.avcc_box.configuration.constraint_set_flag = 0x0B;
            entry.avcc_box.configuration.level_idc = 0x9F;
        }
        SampleEntry::Aac(_) => unreachable!(),
    }
    segment.moov_box.trak_boxes.remove(0);
    assert_eq!(segment.mime_type(), "video/mp4; codecs=\"avc1.FA0B9F, mp4a.40.2\"");
}
