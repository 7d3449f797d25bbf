//! MPEG-2 TS related constituent elements: the conversion of the PES packets of a transport
//! stream into the segments of a fragmented MP4.

use crate::aac::{adts_header, AdtsHeader, SAMPLES_IN_FRAME};
use crate::avc::{
    has_extension, is_high_profile, nal_header, nal_units, sps_summary,
    AvcDecoderConfigurationRecord, ByteStreamFormatNalUnits, NalUnit, NalUnitType, SpsSummary,
};
use crate::error::{reports, Error, ErrorKind};
use crate::fmp4::common::{
    encoding_of, lemma_box_encoding, lemma_boxes_encoding_two, lemma_encoding_len, Mp4Box,
    AUDIO_TRACK_ID, VIDEO_TRACK_ID,
};
use crate::fmp4::initialization::{
    aac_codec, avc_codec, first_aac_profile, first_avc_profile, isom, lemma_aac_sample_entry, lemma_avc_sample_entry, lemma_file_type_isom, lemma_movie_box,
    lemma_track_box, mime_type_of, sound_handler, soun, vide, video_handler, AacSampleEntry,
    AvcConfigurationBox, AvcSampleEntry, InitializationSegment, MovieExtendsHeaderBox,
    Mpeg4EsDescriptorBox, SampleEntry, TrackBox, TrackExtendsBox,
};
use crate::fmp4::media::{
    lemma_samples_encoding_len, samples_agree, samples_encoding, MediaDataBox, MediaSegment, MovieFragmentBox, Sample,
    SampleFlags, TrackFragmentBox, TrackFragmentHeaderBox, TrackRunBox,
};
use crate::io::{bits, u32_be, ue_decode, write_all, write_u32, WriteTo};
use mpeg2ts::es::StreamId;
use std::collections::HashMap;
use vstd::prelude::*;
use vstd::slice::slice_to_vec;

verus! {

/// The number of ticks of the clock of a transport stream in a second.
pub const TIMESTAMP_RESOLUTION: u64 = 90_000;

/// The modulus of the clock of a transport stream: timestamps have 33 bits.
pub const TIMESTAMP_MODULUS: u64 = 0x2_0000_0000;

/// The stream type of H.264 video in a program map table.
pub const STREAM_TYPE_H264: u8 = 0x1B;

/// The stream type of ADTS AAC audio in a program map table.
pub const STREAM_TYPE_ADTS_AAC: u8 = 0x0F;

/// A PES packet as the demultiplexer hands it over.
#[derive(Debug)]
pub struct PesPacket {
    /// The stream identifier of the packet.
    pub stream_id: u8,
    /// The stream type that the program map table gives for the PID that carried the
    /// stream identifier, if it gives one.
    pub stream_type: Option<u8>,
    /// The presentation timestamp.
    pub pts: Option<u64>,
    /// The decoding timestamp.
    pub dts: Option<u64>,
    /// The payload.
    pub data: Vec<u8>,
}

/// Tells whether `id` is the stream identifier of a video stream.
pub open spec fn is_video_id(id: u8) -> bool {
    0xE0 <= id <= 0xEF
}

/// Tells whether `id` is the stream identifier of an audio stream.
pub open spec fn is_audio_id(id: u8) -> bool {
    0xC0 <= id <= 0xDF
}

/// `mpeg2ts::es::StreamId::is_video` on the identifier `id`: true for the identifiers from
/// `0xE0` to `0xEF`.
#[verifier::external_body]
fn stream_id_is_video(id: u8) -> (b: bool)
    ensures
        b == is_video_id(id),
{
    StreamId::new(id).is_video()
}

/// `mpeg2ts::es::StreamId::is_audio` on the identifier `id`: true for the identifiers from
/// `0xC0` to `0xDF`.
#[verifier::external_body]
fn stream_id_is_audio(id: u8) -> (b: bool)
    ensures
        b == is_audio_id(id),
{
    StreamId::new(id).is_audio()
}

/// The NAL units `units` in length-prefixed form: each unit behind its length in four
/// bytes.
pub open spec fn length_prefixed(units: Seq<Seq<u8>>) -> Seq<u8>
    decreases units.len(),
{
    if units.len() == 0 {
        Seq::empty()
    } else {
        length_prefixed(units.drop_last()) + u32_be(units.last().len() as u32) + units.last()
    }
}

/// The length-prefixed form holds each unit and four bytes more for each.
pub proof fn lemma_length_prefixed_len(units: Seq<Seq<u8>>, i: int)
    requires
        0 <= i < units.len(),
    ensures
        length_prefixed(units).len() >= units[i].len() + 4,
        length_prefixed(units).len() >= length_prefixed(units.take(i)).len() + units[i].len() + 4,
    decreases units.len(),
{
    if i == units.len() - 1 {
        assert(units.take(i) =~= units.drop_last());
    } else {
        lemma_length_prefixed_len(units.drop_last(), i);
        assert(units.drop_last().take(i) =~= units.take(i));
    }
}

/// What the payload of a video PES packet adds to the media data: its NAL units in
/// length-prefixed form, without the start codes. A payload that does not begin with a
/// start code is `InvalidInput`, and so is one that adds more than 2^32 - 1 bytes.
pub open spec fn video_payload(data: Seq<u8>) -> Result<Seq<u8>, ErrorKind> {
    match nal_units(data) {
        Err(kind) => Err(kind),
        Ok(units) => if length_prefixed(units).len() > u32::MAX {
            Err(ErrorKind::InvalidInput)
        } else {
            Ok(length_prefixed(units))
        },
    }
}

/// Appends the NAL units of `data` to `out` in length-prefixed form and returns the number
/// of bytes appended. On error some of the units may have been appended.
#[verifier::rlimit(40)]
pub fn append_nal_units(data: &[u8], out: &mut Vec<u8>) -> (r: Result<u32, Error>)
    ensures
        match video_payload(data@) {
            Ok(bytes) => r == Ok::<u32, Error>(bytes.len() as u32) && final(out)@ == old(out)@
                + bytes,
            Err(kind) => r == Err::<u32, Error>(Error { kind }) && old(out)@.is_prefix_of(
                final(out)@,
            ),
        },
{
    let mut splitter = ByteStreamFormatNalUnits::new(data)?;
    let ghost all = splitter.units();
    let ghost mut done: Seq<Seq<u8>> = Seq::empty();
    let mut size: u64 = 0;
    assert(out@ =~= old(out)@ + length_prefixed(done));
    assert(all =~= done + splitter.units());
    loop
        invariant_except_break
            all == done + splitter.units(),
            out@ == old(out)@ + length_prefixed(done),
            size == length_prefixed(done).len(),
            size <= u32::MAX,
        invariant
            nal_units(data@) == Ok::<Seq<Seq<u8>>, ErrorKind>(all),
        ensures
            out@ == old(out)@ + length_prefixed(all),
            size == length_prefixed(all).len(),
            size <= u32::MAX,
        decreases splitter.units().len(),
    {
        let ghost rest = splitter.units();
        match splitter.next() {
            None => {
                assert(done =~= all);
                break ;
            },
            Some(nal_unit) => {
                proof {
                    assert(all[done.len() as int] == rest[0]);
                    assert(all.take(done.len() as int) =~= done);
                    lemma_length_prefixed_len(all, done.len() as int);
                }
                if nal_unit.len() > 0xFFFF_FFFF || nal_unit.len() as u64 + 4 > 0xFFFF_FFFF - size {
                    return Err(Error::new(ErrorKind::InvalidInput));
                }
                write_u32(out, nal_unit.len() as u32);
                write_all(out, nal_unit);
                size = size + 4 + nal_unit.len() as u64;
                proof {
                    let next = done.push(nal_unit@);
                    assert(next.drop_last() =~= done);
                    assert(out@ =~= old(out)@ + length_prefixed(next));
                    assert(all =~= next + splitter.units());
                    done = next;
                }
            },
        }
    }
    Ok(size as u32)
}

/// The parameter sets found in a sequence of NAL units.
pub struct ParameterSets {
    /// The first sequence parameter set with its summary.
    pub sps: Option<(Seq<u8>, SpsSummary)>,
    /// The first picture parameter set.
    pub pps: Option<Seq<u8>>,
}

/// What a further NAL unit adds to the parameter sets found so far: the first sequence
/// parameter set, with the summary read from what follows its header byte, and the first
/// picture parameter set. A unit whose header cannot be read has the error of the header,
/// and a first sequence parameter set that cannot be read the error of the summary.
pub open spec fn scan_unit(found: ParameterSets, unit: Seq<u8>) -> Result<ParameterSets, ErrorKind> {
    match nal_header(unit) {
        Err(kind) => Err(kind),
        Ok(header) => if header.nal_unit_type == NalUnitType::SequenceParameterSet
            && found.sps is None {
            match sps_summary(unit.subrange(1, unit.len() as int)) {
                Err(kind) => Err(kind),
                Ok(summary) => Ok(ParameterSets { sps: Some((unit, summary)), pps: found.pps }),
            }
        } else if header.nal_unit_type == NalUnitType::PictureParameterSet && found.pps is None {
            Ok(ParameterSets { sps: found.sps, pps: Some(unit) })
        } else {
            Ok(found)
        },
    }
}

/// The parameter sets found in `units`, which are gone through in their order.
pub open spec fn scan_units(units: Seq<Seq<u8>>) -> Result<ParameterSets, ErrorKind>
    decreases units.len(),
{
    if units.len() == 0 {
        Ok(ParameterSets { sps: None, pps: None })
    } else {
        match scan_units(units.drop_last()) {
            Err(kind) => Err(kind),
            Ok(found) => scan_unit(found, units.last()),
        }
    }
}

/// The error of the first units is the error of all of them.
pub proof fn lemma_scan_units_prefix(units: Seq<Seq<u8>>, n: int)
    requires
        0 <= n <= units.len(),
    ensures
        scan_units(units.take(n)) matches Err(kind) ==> scan_units(units) == Err::<
            ParameterSets,
            ErrorKind,
        >(kind),
    decreases units.len() - n,
{
    if n == units.len() {
        assert(units.take(n) =~= units);
    } else {
        assert(units.take(n + 1).drop_last() =~= units.take(n));
        lemma_scan_units_prefix(units, n + 1);
    }
}

/// The configuration of a video track, as the payload of its first PES packet gives it.
pub struct VideoConfiguration {
    /// The sequence parameter set.
    pub sps: Seq<u8>,
    /// The summary of the sequence parameter set.
    pub summary: SpsSummary,
    /// The picture parameter set.
    pub pps: Seq<u8>,
}

/// The configuration that the payload `data` gives: its first sequence parameter set and
/// its first picture parameter set. A payload without one of them is `InvalidInput`.
pub open spec fn video_configuration(data: Seq<u8>) -> Result<VideoConfiguration, ErrorKind> {
    match nal_units(data) {
        Err(kind) => Err(kind),
        Ok(units) => match scan_units(units) {
            Err(kind) => Err(kind),
            Ok(found) => match (found.sps, found.pps) {
                (Some((sps, summary)), Some(pps)) => Ok(VideoConfiguration { sps, summary, pps }),
                _ => Err(ErrorKind::InvalidInput),
            },
        },
    }
}

/// Reads the configuration of a video track from the payload of its first PES packet:
/// the sequence parameter set, its summary, and the picture parameter set.
#[verifier::rlimit(40)]
pub fn read_video_configuration(data: &[u8]) -> (r: Result<(Vec<u8>, SpsSummary, Vec<u8>), Error>)
    ensures
        match video_configuration(data@) {
            Ok(c) => r is Ok && r->Ok_0.0@ == c.sps && r->Ok_0.1 == c.summary && r->Ok_0.2@
                == c.pps,
            Err(kind) => r is Err && r->Err_0 == (Error { kind }),
        },
{
    let mut sps: Option<Vec<u8>> = None;
    let mut pps: Option<Vec<u8>> = None;
    let mut sps_summary: Option<SpsSummary> = None;
    let mut splitter = ByteStreamFormatNalUnits::new(data)?;
    let ghost all = splitter.units();
    let ghost mut done: Seq<Seq<u8>> = Seq::empty();
    assert(all =~= done + splitter.units());
    loop
        invariant_except_break
            all == done + splitter.units(),
            scan_units(done) is Ok,
            sps is Some <==> sps_summary is Some,
            sps is Some <==> scan_units(done)->Ok_0.sps is Some,
            sps matches Some(s) ==> s@ == scan_units(done)->Ok_0.sps->Some_0.0 && sps_summary->Some_0
                == scan_units(done)->Ok_0.sps->Some_0.1,
            pps is Some <==> scan_units(done)->Ok_0.pps is Some,
            pps matches Some(p) ==> p@ == scan_units(done)->Ok_0.pps->Some_0,
        invariant
            nal_units(data@) == Ok::<Seq<Seq<u8>>, ErrorKind>(all),
        ensures
            scan_units(all) is Ok,
            sps is Some <==> sps_summary is Some,
            sps is Some <==> scan_units(all)->Ok_0.sps is Some,
            sps matches Some(s) ==> s@ == scan_units(all)->Ok_0.sps->Some_0.0 && sps_summary->Some_0
                == scan_units(all)->Ok_0.sps->Some_0.1,
            pps is Some <==> scan_units(all)->Ok_0.pps is Some,
            pps matches Some(p) ==> p@ == scan_units(all)->Ok_0.pps->Some_0,
        decreases splitter.units().len(),
    {
        match splitter.next() {
            None => {
                assert(done =~= all);
                break ;
            },
            Some(nal_unit) => {
                proof {
                    let next = done.push(nal_unit@);
                    assert(next.drop_last() =~= done);
                    assert(all =~= next + splitter.units());
                    assert(all.take(next.len() as int) =~= next);
                    lemma_scan_units_prefix(all, next.len() as int);
                }
                let nal_unit_type = NalUnit::read_from(nal_unit)?.nal_unit_type;
                match nal_unit_type {
                    NalUnitType::SequenceParameterSet => {
                        if sps.is_none() {
                            sps_summary =
                            Some(SpsSummary::read_from(&nal_unit[1..nal_unit.len()])?);
                            sps = Some(slice_to_vec(nal_unit));
                        }
                    },
                    NalUnitType::PictureParameterSet => {
                        if pps.is_none() {
                            pps = Some(slice_to_vec(nal_unit));
                        }
                    },
                    _ => {},
                }
                proof {
                    done = done.push(nal_unit@);
                }
            },
        }
    }
    match (sps, sps_summary, pps) {
        (Some(sps), Some(sps_summary), Some(pps)) => Ok((sps, sps_summary, pps)),
        _ => Err(Error::new(ErrorKind::InvalidInput)),
    }
}

/// Tells whether two ADTS headers agree on profile, sampling frequency and channel
/// configuration.
pub open spec fn same_configuration(a: AdtsHeader, b: AdtsHeader) -> bool {
    a.profile == b.profile && a.sampling_frequency == b.sampling_frequency
        && a.channel_configuration == b.channel_configuration
}

/// The sample of an audio frame with `size` bytes of raw data blocks.
pub open spec fn audio_sample(size: u32) -> Sample {
    Sample { duration: None, size: Some(size), flags: None, composition_time_offset: None }
}

/// What the payload of an audio PES packet adds to an audio track whose first header is
/// `first`: the samples and the raw data blocks of its ADTS frames, which follow one
/// another up to the end of the payload.
///
/// A frame whose header cannot be read has the error of the header. A frame that does not
/// agree with `first` on profile, sampling frequency and channel configuration is
/// `Unsupported`. A frame whose length is below the seven bytes of its header or above the
/// rest of the payload is `InvalidInput`.
pub open spec fn audio_frames(data: Seq<u8>, first: AdtsHeader) -> Result<
    (Seq<Sample>, Seq<u8>),
    ErrorKind,
>
    decreases data.len(),
{
    if data.len() == 0 {
        Ok((Seq::empty(), Seq::empty()))
    } else {
        match adts_header(data) {
            Err(kind) => Err(kind),
            Ok(header) => if !same_configuration(header, first) {
                Err(ErrorKind::Unsupported)
            } else if header.frame_len < 7 || header.frame_len > data.len() {
                Err(ErrorKind::InvalidInput)
            } else {
                match audio_frames(data.subrange(header.frame_len as int, data.len() as int), first) {
                    Err(kind) => Err(kind),
                    Ok((samples, blocks)) => Ok(
                        (
                            seq![audio_sample((header.frame_len - 7) as u32)] + samples,
                            data.subrange(7, header.frame_len as int) + blocks,
                        ),
                    ),
                }
            },
        }
    }
}

/// Appends the samples and the raw data blocks of the ADTS frames of `data` to `samples`
/// and `out`. On error some of the frames may have been appended.
#[verifier::rlimit(40)]
pub fn append_adts_frames(
    data: &[u8],
    first: &AdtsHeader,
    samples: &mut Vec<Sample>,
    out: &mut Vec<u8>,
) -> (r: Result<(), Error>)
    ensures
        match audio_frames(data@, *first) {
            Ok((more, blocks)) => r is Ok && final(samples)@ == old(samples)@ + more && final(out)@
                == old(out)@ + blocks,
            Err(kind) => r == Err::<(), Error>(Error { kind }) && old(samples)@.is_prefix_of(
                final(samples)@,
            ) && old(out)@.is_prefix_of(final(out)@),
        },
{
    let mut start: usize = 0;
    let ghost mut more: Seq<Sample> = Seq::empty();
    let ghost mut blocks: Seq<u8> = Seq::empty();
    assert(samples@ =~= old(samples)@ + more);
    assert(out@ =~= old(out)@ + blocks);
    assert(data@.subrange(0, data@.len() as int) =~= data@);
    while start < data.len()
        invariant
            start <= data@.len(),
            samples@ == old(samples)@ + more,
            out@ == old(out)@ + blocks,
            match audio_frames(data@.subrange(start as int, data@.len() as int), *first) {
                Ok((s, b)) => audio_frames(data@, *first) == Ok::<(Seq<Sample>, Seq<u8>), ErrorKind>(
                    (more + s, blocks + b),
                ),
                Err(kind) => audio_frames(data@, *first) == Err::<(Seq<Sample>, Seq<u8>), ErrorKind>(
                    kind,
                ),
            },
        decreases data@.len() - start,
    {
        let rest = &data[start..data.len()];
        let header = AdtsHeader::read_from(rest)?;
        if !(header.profile == first.profile && header.sampling_frequency
            == first.sampling_frequency && header.channel_configuration
            == first.channel_configuration) {
            return Err(Error::new(ErrorKind::Unsupported));
        }
        if header.frame_len < 7 || header.frame_len as usize > rest.len() {
            return Err(Error::new(ErrorKind::InvalidInput));
        }
        let sample_size = header.raw_data_blocks_len();
        samples.push(
            Sample {
                duration: None,
                size: Some(sample_size as u32),
                flags: None,
                composition_time_offset: None,
            },
        );
        let end = start + header.frame_len as usize;
        write_all(out, &data[start + 7..end]);
        proof {
            let next = rest@.subrange(header.frame_len as int, rest@.len() as int);
            assert(next =~= data@.subrange(end as int, data@.len() as int));
            assert(data@.subrange(start + 7, end as int) =~= rest@.subrange(
                7,
                header.frame_len as int,
            ));
            let s = seq![audio_sample(sample_size as u32)];
            let b = rest@.subrange(7, header.frame_len as int);
            match audio_frames(next, *first) {
                Ok((s2, b2)) => {
                    assert((more + s) + s2 =~= more + (s + s2));
                    assert((blocks + b) + b2 =~= blocks + (b + b2));
                },
                Err(_) => {},
            }
            assert(samples@ =~= old(samples)@ + (more + s));
            assert(out@ =~= old(out)@ + (blocks + b));
            more = more + s;
            blocks = blocks + b;
        }
        start = end;
    }
    proof {
        assert(data@.subrange(start as int, data@.len() as int) =~= Seq::<u8>::empty());
        assert(more + Seq::<Sample>::empty() =~= more);
        assert(blocks + Seq::<u8>::empty() =~= blocks);
    }
    Ok(())
}

/// What is known of the video track: the model of an [`AvcStream`].
pub struct VideoTrack {
    /// `profile_idc` of the sequence parameter set.
    pub profile_idc: u8,
    /// The constraint set flags of the sequence parameter set.
    pub constraint_set_flag: u8,
    /// `level_idc` of the sequence parameter set.
    pub level_idc: u8,
    /// The sequence parameter set.
    pub sps: Seq<u8>,
    /// The picture parameter set.
    pub pps: Seq<u8>,
    /// The width of the pictures in pixels.
    pub width: nat,
    /// The height of the pictures in pixels.
    pub height: nat,
    /// The samples in decoding order.
    pub samples: Seq<Sample>,
    /// The NAL units of the samples in length-prefixed form.
    pub data: Seq<u8>,
}

/// What is known of the audio track: the model of an [`AacStream`].
pub struct AudioTrack {
    /// The header of the first ADTS frame.
    pub header: AdtsHeader,
    /// The samples.
    pub samples: Seq<Sample>,
    /// The raw data blocks of the samples.
    pub data: Seq<u8>,
}

/// The video elementary stream of a transport stream.
#[derive(Debug)]
pub struct AvcStream {
    /// The configuration of the decoder.
    pub configuration: AvcDecoderConfigurationRecord,
    /// The width of the pictures in pixels.
    pub width: usize,
    /// The height of the pictures in pixels.
    pub height: usize,
    /// The samples in decoding order.
    pub samples: Vec<Sample>,
    /// The NAL units of the samples in length-prefixed form.
    pub data: Vec<u8>,
}

/// The audio elementary stream of a transport stream.
#[derive(Debug)]
pub struct AacStream {
    /// The header of the first ADTS frame.
    pub adts_header: AdtsHeader,
    /// The samples.
    pub samples: Vec<Sample>,
    /// The raw data blocks of the samples.
    pub data: Vec<u8>,
}

impl View for AvcStream {
    type V = VideoTrack;

    open spec fn view(&self) -> VideoTrack {
        VideoTrack {
            profile_idc: self.configuration.profile_idc,
            constraint_set_flag: self.configuration.constraint_set_flag,
            level_idc: self.configuration.level_idc,
            sps: self.configuration.sequence_parameter_set@,
            pps: self.configuration.picture_parameter_set@,
            width: self.width as nat,
            height: self.height as nat,
            samples: self.samples@,
            data: self.data@,
        }
    }
}

impl View for AacStream {
    type V = AudioTrack;

    open spec fn view(&self) -> AudioTrack {
        AudioTrack { header: self.adts_header, samples: self.samples@, data: self.data@ }
    }
}

/// The sum of the durations of `samples`; a sample without duration counts as 0.
pub open spec fn durations_sum(samples: Seq<Sample>) -> nat
    decreases samples.len(),
{
    if samples.len() == 0 {
        0
    } else {
        durations_sum(samples.drop_last()) + match samples.last().duration {
            Some(d) => d as nat,
            None => 0,
        }
    }
}

/// Tells whether each of `samples` has a duration.
pub open spec fn all_have_duration(samples: Seq<Sample>) -> bool {
    forall|i: int| 0 <= i < samples.len() ==> (#[trigger] samples[i]).duration is Some
}

/// The duration of a video track in ticks of 90 kHz: the sum of the durations of its
/// samples. A sample without duration is `InvalidInput`, and so is a sum above 2^32 - 1.
pub open spec fn video_duration(samples: Seq<Sample>) -> Result<u32, ErrorKind> {
    if !all_have_duration(samples) || durations_sum(samples) > u32::MAX {
        Err(ErrorKind::InvalidInput)
    } else {
        Ok(durations_sum(samples) as u32)
    }
}

/// The duration of an audio track in ticks of its sampling frequency: 1024 for each
/// sample. A duration above 2^32 - 1 is `InvalidInput`.
pub open spec fn audio_duration(samples: Seq<Sample>) -> Result<u32, ErrorKind> {
    if 1024 * samples.len() > u32::MAX {
        Err(ErrorKind::InvalidInput)
    } else {
        Ok((1024 * samples.len()) as u32)
    }
}

/// The time of the media at which the presentation starts: the composition time offset of
/// the first sample, 0 if there is no sample or no offset.
pub open spec fn start_time(samples: Seq<Sample>) -> i32 {
    if samples.len() == 0 {
        0
    } else {
        match samples[0].composition_time_offset {
            Some(offset) => offset,
            None => 0,
        }
    }
}

/// The sum of durations grows with the samples.
pub proof fn lemma_durations_sum_monotonic(samples: Seq<Sample>, n: int)
    requires
        0 <= n <= samples.len(),
    ensures
        durations_sum(samples.take(n)) <= durations_sum(samples),
    decreases samples.len() - n,
{
    if n == samples.len() {
        assert(samples.take(n) =~= samples);
    } else {
        assert(samples.take(n + 1).drop_last() =~= samples.take(n));
        lemma_durations_sum_monotonic(samples, n + 1);
    }
}

impl AvcStream {
    /// Returns the duration of the stream in ticks of 90 kHz.
    pub fn duration(&self) -> (r: Result<u32, Error>)
        ensures
            reports(r, video_duration(self.samples@)),
    {
        let mut duration: u32 = 0;
        let mut i: usize = 0;
        assert(self.samples@.take(0) =~= Seq::<Sample>::empty());
        while i < self.samples.len()
            invariant
                i <= self.samples@.len(),
                duration == durations_sum(self.samples@.take(i as int)),
                all_have_duration(self.samples@.take(i as int)),
            decreases self.samples@.len() - i,
        {
            proof {
                assert(self.samples@.take(i + 1).drop_last() =~= self.samples@.take(i as int));
                lemma_durations_sum_monotonic(self.samples@, i + 1);
            }
            let sample_duration = match self.samples[i].duration {
                Some(d) => d,
                None => {
                    return Err(Error::new(ErrorKind::InvalidInput));
                },
            };
            duration = match duration.checked_add(sample_duration) {
                Some(d) => d,
                None => {
                    return Err(Error::new(ErrorKind::InvalidInput));
                },
            };
            proof {
                let before = self.samples@.take(i as int);
                let after = self.samples@.take(i + 1);
                assert forall|j: int| 0 <= j < after.len() implies (#[trigger] after[j]).duration is Some by {
                    if j < i {
                        assert(before[j].duration is Some);
                    }
                }
            }
            i += 1;
        }
        assert(self.samples@.take(i as int) =~= self.samples@);
        Ok(duration)
    }

    /// Returns the time of the media at which the presentation starts.
    pub fn start_time(&self) -> (t: i32)
        ensures
            t == start_time(self.samples@),
    {
        if self.samples.len() == 0 {
            0
        } else {
            match self.samples[0].composition_time_offset {
                Some(offset) => offset,
                None => 0,
            }
        }
    }
}

impl AacStream {
    /// Returns the duration of the stream in ticks of its sampling frequency.
    pub fn duration(&self) -> (r: Result<u32, Error>)
        ensures
            reports(r, audio_duration(self.samples@)),
    {
        if self.samples.len() > 0x3F_FFFF {
            return Err(Error::new(ErrorKind::InvalidInput));
        }
        Ok(1024 * (self.samples.len() as u32))
    }
}

/// Tells whether sample `j` comes before sample `i` in presentation order: its timestamp
/// is smaller, or it has the same timestamp and was decoded earlier.
pub open spec fn before(ts: Seq<u64>, j: int, i: int) -> bool {
    ts[j] < ts[i] || (ts[j] == ts[i] && j < i)
}

/// The latest timestamp among those of the first `n` samples that come before sample `i`
/// in presentation order, and -1 if none of them does.
pub open spec fn latest_before(ts: Seq<u64>, i: int, n: int) -> int
    decreases n,
{
    if n <= 0 {
        -1
    } else {
        let rest = latest_before(ts, i, n - 1);
        if before(ts, n - 1, i) && ts[n - 1] > rest {
            ts[n - 1] as int
        } else {
            rest
        }
    }
}

/// The timestamp of the sample that comes just before sample `i` in presentation order,
/// and -1 if `i` is the first.
pub open spec fn previous_timestamp(ts: Seq<u64>, i: int) -> int {
    latest_before(ts, i, ts.len() as int)
}

/// Sample `i` with the duration that the timestamps give it. The first sample in decoding
/// order has the start time, or 0 if that is negative. Every other sample has the time
/// that has passed since the sample just before it in presentation order, and keeps its
/// duration if it is the first in presentation order.
pub open spec fn resolved_sample(samples: Seq<Sample>, ts: Seq<u64>, i: int) -> Sample {
    if i == 0 {
        Sample {
            duration: Some(
                if start_time(samples) < 0 {
                    0u32
                } else {
                    start_time(samples) as u32
                },
            ),
            ..samples[i]
        }
    } else if previous_timestamp(ts, i) < 0 {
        samples[i]
    } else {
        Sample { duration: Some((ts[i] - previous_timestamp(ts, i)) as u32), ..samples[i] }
    }
}

/// Tells whether the duration of sample `i` does not fit in 32 bits.
pub open spec fn duration_overflows(ts: Seq<u64>, i: int) -> bool {
    i != 0 && previous_timestamp(ts, i) >= 0 && ts[i] - previous_timestamp(ts, i) > u32::MAX
}

/// The samples `samples` with the durations that the timestamps `ts` give them. As many
/// timestamps as samples are needed, and each duration has to fit in 32 bits: all else is
/// `InvalidInput`.
pub open spec fn resolved_samples(samples: Seq<Sample>, ts: Seq<u64>) -> Result<
    Seq<Sample>,
    ErrorKind,
> {
    if samples.len() != ts.len() || exists|i: int|
        0 <= i < ts.len() && #[trigger] duration_overflows(ts, i) {
        Err(ErrorKind::InvalidInput)
    } else {
        Ok(Seq::new(samples.len(), |i: int| resolved_sample(samples, ts, i)))
    }
}

/// The order of pairs: by the first number, and by the second where the first are equal.
pub open spec fn pair_le(a: (u64, usize), b: (u64, usize)) -> bool {
    a.0 < b.0 || (a.0 == b.0 && a.1 <= b.1)
}

/// Each timestamp with its index.
pub open spec fn indexed(ts: Seq<u64>) -> Seq<(u64, usize)> {
    Seq::new(ts.len(), |i: int| (ts[i], i as usize))
}

/// Tells whether `sorted` holds the timestamps `ts` with their indices in ascending
/// order.
pub open spec fn is_sorted_index(ts: Seq<u64>, sorted: Seq<(u64, usize)>) -> bool {
    &&& sorted.to_multiset() == indexed(ts).to_multiset()
    &&& forall|a: int, b: int|
        0 <= a <= b < sorted.len() ==> pair_le(#[trigger] sorted[a], #[trigger] sorted[b])
}

/// Tells whether `sorted` holds a pair with the index `i`.
pub open spec fn has_index(sorted: Seq<(u64, usize)>, i: int) -> bool {
    exists|m: int| 0 <= m < sorted.len() && (#[trigger] sorted[m]).1 == i
}

/// `<[T]>::sort` of std on pairs of integers: the pairs are the same as before, each as
/// often as before, and stand in ascending order, which for pairs is the order by the
/// first number and then by the second.
#[verifier::external_body]
fn sort_pairs(pairs: &mut Vec<(u64, usize)>)
    ensures
        final(pairs)@.to_multiset() == old(pairs)@.to_multiset(),
        forall|a: int, b: int|
            0 <= a <= b < final(pairs)@.len() ==> pair_le(
                #[trigger] final(pairs)@[a],
                #[trigger] final(pairs)@[b],
            ),
{
    pairs.sort();
}

/// `latest_before` is the largest of the timestamps that come before.
pub proof fn lemma_latest_before(ts: Seq<u64>, i: int, n: int)
    requires
        0 <= n <= ts.len(),
        0 <= i < ts.len(),
    ensures
        forall|j: int| 0 <= j < n && before(ts, j, i) ==> ts[j] <= latest_before(ts, i, n),
        latest_before(ts, i, n) == -1 || exists|j: int|
            0 <= j < n && before(ts, j, i) && ts[j] == latest_before(ts, i, n),
        latest_before(ts, i, n) == -1 ==> forall|j: int| 0 <= j < n ==> !before(ts, j, i),
    decreases n,
{
    if n > 0 {
        lemma_latest_before(ts, i, n - 1);
        let rest = latest_before(ts, i, n - 1);
        if before(ts, n - 1, i) && ts[n - 1] > rest {
            assert(before(ts, n - 1, i) && ts[n - 1] == latest_before(ts, i, n));
        } else if rest != -1 {
            let j = choose|j: int| 0 <= j < n - 1 && before(ts, j, i) && ts[j] == rest;
            assert(0 <= j < n && before(ts, j, i) && ts[j] == latest_before(ts, i, n));
        }
    }
}

/// What follows for a sorted index of timestamps: it holds each index once, with its
/// timestamp, and each pair in it stands behind the pair of the sample that comes just
/// before in presentation order.
#[verifier::rlimit(40)]
pub proof fn lemma_sorted_index(ts: Seq<u64>, sorted: Seq<(u64, usize)>)
    requires
        is_sorted_index(ts, sorted),
        ts.len() <= usize::MAX,
    ensures
        sorted.len() == ts.len(),
        forall|m: int|
            0 <= m < sorted.len() ==> (#[trigger] sorted[m]).1 < ts.len() && sorted[m].0
                == ts[sorted[m].1 as int],
        forall|a: int, b: int|
            0 <= a < b < sorted.len() ==> (#[trigger] sorted[a]).1 != (#[trigger] sorted[b]).1,
        forall|i: int| 0 <= i < ts.len() ==> #[trigger] has_index(sorted, i),
        forall|k: int|
            #![trigger sorted[k]]
            0 <= k && k + 1 < sorted.len() ==> previous_timestamp(ts, sorted[k + 1].1 as int)
                == sorted[k].0,
        sorted.len() > 0 ==> previous_timestamp(ts, sorted[0].1 as int) == -1,
{
    broadcast use vstd::seq_lib::to_multiset_len, vstd::seq_lib::to_multiset_contains;

    let pairs = indexed(ts);
    let n = ts.len() as int;
    assert(sorted.len() == pairs.to_multiset().len());
    assert(sorted.len() == ts.len());
    // each pair of the sorted index is a timestamp with its index
    assert forall|m: int| 0 <= m < sorted.len() implies (#[trigger] sorted[m]).1 < ts.len()
        && sorted[m].0 == ts[sorted[m].1 as int] by {
        assert(sorted.contains(sorted[m]));
        assert(sorted.to_multiset().count(sorted[m]) > 0);
        assert(pairs.contains(sorted[m]));
        let j = choose|j: int| 0 <= j < pairs.len() && pairs[j] == sorted[m];
        assert(pairs[j] == (ts[j], j as usize));
    }
    // each timestamp with its index is a pair of the sorted index
    assert forall|i: int| 0 <= i < ts.len() implies #[trigger] has_index(sorted, i) by {
        assert(pairs[i] == (ts[i], i as usize));
        assert(pairs.contains(pairs[i]));
        assert(pairs.to_multiset().count(pairs[i]) > 0);
        assert(sorted.contains(pairs[i]));
        let m = choose|m: int| 0 <= m < sorted.len() && sorted[m] == pairs[i];
        assert(sorted[m].1 == i);
    }
    // no pair stands twice
    assert(pairs.no_duplicates()) by {
        assert forall|a: int, b: int| 0 <= a < pairs.len() && 0 <= b < pairs.len() && a != b implies pairs[a]
            != pairs[b] by {
            assert(pairs[a].1 == a && pairs[b].1 == b);
        }
    }
    pairs.lemma_multiset_has_no_duplicates();
    sorted.lemma_multiset_has_no_duplicates_conv();
    assert forall|a: int, b: int| 0 <= a < b < sorted.len() implies (#[trigger] sorted[a]).1 != (
    #[trigger] sorted[b]).1 by {
        assert(sorted[a] != sorted[b]);
        assert(sorted[a].0 == ts[sorted[a].1 as int]);
        assert(sorted[b].0 == ts[sorted[b].1 as int]);
    }
    // the pair before is the latest before
    assert forall|k: int| #![trigger sorted[k]] 0 <= k && k + 1 < sorted.len() implies previous_timestamp(
        ts,
        sorted[k + 1].1 as int,
    ) == sorted[k].0 by {
        let i = sorted[k + 1].1 as int;
        let jp = sorted[k].1 as int;
        lemma_latest_before(ts, i, n);
        assert(pair_le(sorted[k], sorted[k + 1]));
        assert(sorted[k].1 != sorted[k + 1].1);
        assert(before(ts, jp, i));
        let latest = latest_before(ts, i, n);
        assert(ts[jp] <= latest);
        let j = choose|j: int| 0 <= j < n && before(ts, j, i) && ts[j] == latest;
        assert(has_index(sorted, j));
        let m = choose|m: int| 0 <= m < sorted.len() && (#[trigger] sorted[m]).1 == j;
        if m > k {
            if m == k + 1 {
                assert(false);
            } else {
                assert(pair_le(sorted[k + 1], sorted[m]));
                assert(false);
            }
        }
        assert(pair_le(sorted[m], sorted[k]));
    }
    if sorted.len() > 0 {
        let i = sorted[0].1 as int;
        lemma_latest_before(ts, i, n);
        if latest_before(ts, i, n) != -1 {
            let j = choose|j: int| 0 <= j < n && before(ts, j, i) && ts[j] == latest_before(ts, i, n);
            assert(has_index(sorted, j));
            let m = choose|m: int| 0 <= m < sorted.len() && (#[trigger] sorted[m]).1 == j;
            assert(pair_le(sorted[0], sorted[m]));
            if m != 0 {
                assert(sorted[0].1 != sorted[m].1);
            }
            assert(false);
        }
    }
}

/// Tells whether the samples `after` are the samples `before` but for their durations.
pub open spec fn same_but_durations(before: Seq<Sample>, after: Seq<Sample>) -> bool {
    &&& after.len() == before.len()
    &&& forall|i: int|
        0 <= i < before.len() ==> (#[trigger] after[i]) == (Sample {
            duration: after[i].duration,
            ..before[i]
        })
}

/// Gives each of `samples` the duration that the timestamps give it: see
/// [`resolved_samples`]. On error some of the samples may have been given theirs.
#[verifier::rlimit(40)]
pub fn resolve_durations(samples: &mut Vec<Sample>, timestamps: &Vec<u64>) -> (r: Result<
    (),
    Error,
>)
    ensures
        match resolved_samples(old(samples)@, timestamps@) {
            Ok(resolved) => r is Ok && final(samples)@ == resolved,
            Err(kind) => r == Err::<(), Error>(Error { kind }) && same_but_durations(
                old(samples)@,
                final(samples)@,
            ),
        },
{
    let len = samples.len();
    if timestamps.len() != len {
        return Err(Error::new(ErrorKind::InvalidInput));
    }
    let ghost ts = timestamps@;
    let mut pairs: Vec<(u64, usize)> = Vec::new();
    let mut i: usize = 0;
    while i < len
        invariant
            i <= len,
            len == timestamps@.len(),
            pairs@ == indexed(timestamps@.take(i as int)),
        decreases len - i,
    {
        pairs.push((timestamps[i], i));
        i += 1;
        assert(pairs@ =~= indexed(timestamps@.take(i as int)));
    }
    assert(timestamps@.take(len as int) =~= timestamps@);
    sort_pairs(&mut pairs);
    proof {
        lemma_sorted_index(ts, pairs@);
    }
    let mut k: usize = 0;
    while len - k > 1
        invariant
            len == ts.len(),
            ts == timestamps@,
            pairs@.len() == len,
            samples@.len() == len,
            old(samples)@.len() == len,
            is_sorted_index(ts, pairs@),
            k <= len,
            forall|m: int|
                1 <= m <= k ==> (#[trigger] pairs@[m]).1 == 0 || (samples@[pairs@[m].1 as int]
                    == resolved_sample(old(samples)@, ts, pairs@[m].1 as int) && !duration_overflows(
                    ts,
                    pairs@[m].1 as int,
                )),
            forall|m: int|
                (m == 0 || k < m) && m < len ==> samples@[(#[trigger] pairs@[m]).1 as int] == old(
                    samples,
                )@[pairs@[m].1 as int],
            samples@[0] == old(samples)@[0],
            same_but_durations(old(samples)@, samples@),
        decreases len - k,
    {
        proof {
            lemma_sorted_index(ts, pairs@);
        }
        let curr = pairs[k].0;
        let next = pairs[k + 1].0;
        let index = pairs[k + 1].1;
        assert(pair_le(pairs@[k as int], pairs@[k + 1]));
        assert(previous_timestamp(ts, index as int) == curr);
        if index != 0 {
            let duration = next - curr;
            if duration > 0xFFFF_FFFF {
                assert(duration_overflows(ts, index as int));
                return Err(Error::new(ErrorKind::InvalidInput));
            }
            let mut sample = samples[index];
            sample.duration = Some(duration as u32);
            samples[index] = sample;
            proof {
                assert forall|m: int| 1 <= m <= k + 1 implies (#[trigger] pairs@[m]).1 == 0 || (
                samples@[pairs@[m].1 as int] == resolved_sample(old(samples)@, ts, pairs@[m].1 as int)
                    && !duration_overflows(ts, pairs@[m].1 as int)) by {
                    if m <= k {
                        assert(pairs@[m].1 != pairs@[k + 1].1);
                    }
                }
                assert forall|m: int| (m == 0 || k + 1 < m) && m < len implies samples@[(
                #[trigger] pairs@[m]).1 as int] == old(samples)@[pairs@[m].1 as int] by {
                    if m == 0 {
                        assert(pairs@[0].1 != pairs@[k + 1].1);
                    } else {
                        assert(pairs@[k + 1].1 != pairs@[m].1);
                    }
                }
            }
        }
        k += 1;
    }
    proof {
        lemma_sorted_index(ts, pairs@);
        assert forall|i: int| 0 <= i < len implies !(#[trigger] duration_overflows(ts, i)) by {
            assert(has_index(pairs@, i));
            let m = choose|m: int| 0 <= m < len && (#[trigger] pairs@[m]).1 == i;
            if i != 0 && m == 0 {
                assert(previous_timestamp(ts, i) == -1);
            }
        }
        assert forall|i: int| 1 <= i < len implies samples@[i] == resolved_sample(
            old(samples)@,
            ts,
            i,
        ) by {
            assert(has_index(pairs@, i));
            let m = choose|m: int| 0 <= m < len && (#[trigger] pairs@[m]).1 == i;
            if m == 0 {
                assert(previous_timestamp(ts, i) == -1);
            }
        }
    }
    if len > 0 {
        let start = match samples[0].composition_time_offset {
            Some(offset) => offset,
            None => 0,
        };
        let mut sample = samples[0];
        sample.duration = Some(
            if start < 0 {
                0
            } else {
                start as u32
            },
        );
        samples[0] = sample;
    }
    assert(samples@ =~= resolved_samples(old(samples)@, ts)->Ok_0);
    Ok(())
}

/// The composition time offset of a sample: the number that 32 bits with sign hold of
/// the difference of `pts` and `dts`. Where the two lie less than 2^31 ticks apart, it is
/// their difference, also where the clock has wrapped between them.
pub open spec fn wrapped_difference(pts: u64, dts: u64) -> i32 {
    let low = (pts - dts) % 0x1_0000_0000;
    if low >= 0x8000_0000 {
        (low - 0x1_0000_0000) as i32
    } else {
        low as i32
    }
}

/// Where the two timestamps lie less than 2^31 ticks apart, the composition time offset is
/// their difference, also where the clock has wrapped between them.
pub proof fn lemma_wrapped_difference(pts: u64, dts: u64)
    requires
        pts < TIMESTAMP_MODULUS,
        dts < TIMESTAMP_MODULUS,
    ensures
        -0x8000_0000 <= pts - dts < 0x8000_0000 ==> wrapped_difference(pts, dts) == pts - dts,
        -0x8000_0000 <= pts + TIMESTAMP_MODULUS - dts < 0x8000_0000 ==> wrapped_difference(
            pts,
            dts,
        ) == pts + TIMESTAMP_MODULUS - dts,
        -0x8000_0000 <= pts - TIMESTAMP_MODULUS - dts < 0x8000_0000 ==> wrapped_difference(
            pts,
            dts,
        ) == pts - TIMESTAMP_MODULUS - dts,
{
}

/// The timestamp `pts` counted from `offset`, the first timestamp of the video track. A
/// timestamp below `offset` lies behind a wrap of the clock, and the modulus of the clock
/// is added to it.
pub open spec fn rebased(pts: u64, offset: u64) -> u64 {
    if pts < offset {
        (pts + TIMESTAMP_MODULUS - offset) as u64
    } else {
        (pts - offset) as u64
    }
}

/// The video track that the payload of the first video PES packet opens: it has the
/// configuration that the payload gives, and no samples yet.
pub open spec fn new_video_track(data: Seq<u8>) -> Result<VideoTrack, ErrorKind> {
    match video_configuration(data) {
        Err(kind) => Err(kind),
        Ok(c) => Ok(
            VideoTrack {
                profile_idc: c.summary.profile_idc,
                constraint_set_flag: c.summary.constraint_set_flag,
                level_idc: c.summary.level_idc,
                sps: c.sps,
                pps: c.pps,
                width: c.summary.pic_width as nat,
                height: c.summary.pic_height as nat,
                samples: Seq::empty(),
                data: Seq::empty(),
            },
        ),
    }
}

/// The audio track that the payload of the first audio PES packet opens: it has the
/// header that the payload begins with, and no samples yet.
pub open spec fn new_audio_track(data: Seq<u8>) -> Result<AudioTrack, ErrorKind> {
    match adts_header(data) {
        Err(kind) => Err(kind),
        Ok(header) => Ok(AudioTrack { header, samples: Seq::empty(), data: Seq::empty() }),
    }
}

/// What has been taken in of the PES packets of a transport stream.
pub struct IntakeState {
    /// The video track, once a video packet has come.
    pub video: Option<VideoTrack>,
    /// The audio track, once an audio packet has come.
    pub audio: Option<AudioTrack>,
    /// The presentation timestamps of the video samples, counted from the first.
    pub timestamps: Seq<u64>,
    /// The first presentation timestamp of the video track.
    pub offset: u64,
}

/// The state before the first packet.
pub open spec fn intake_start() -> IntakeState {
    IntakeState { video: None, audio: None, timestamps: Seq::empty(), offset: 0 }
}

/// The state after a video packet with the timestamps `pts` and `dts` and the payload
/// `data`. The first video packet opens the track. Each video packet adds one sample: its
/// size is what the payload adds to the media data, its composition time offset the
/// difference of `pts` and `dts`, and it has no duration yet. A timestamp that does not
/// fit in 33 bits is `InvalidInput`.
pub open spec fn video_step(s: IntakeState, pts: u64, dts: u64, data: Seq<u8>) -> Result<
    IntakeState,
    ErrorKind,
> {
    if pts >= TIMESTAMP_MODULUS || dts >= TIMESTAMP_MODULUS {
        Err(ErrorKind::InvalidInput)
    } else {
        let offset = if s.video is None {
            pts
        } else {
            s.offset
        };
        match (match s.video {
            None => new_video_track(data),
            Some(track) => Ok(track),
        }) {
            Err(kind) => Err(kind),
            Ok(track) => match video_payload(data) {
                Err(kind) => Err(kind),
                Ok(bytes) => Ok(
                    IntakeState {
                        video: Some(
                            VideoTrack {
                                samples: track.samples.push(
                                    Sample {
                                        duration: None,
                                        size: Some(bytes.len() as u32),
                                        flags: None,
                                        composition_time_offset: Some(wrapped_difference(pts, dts)),
                                    },
                                ),
                                data: track.data + bytes,
                                ..track
                            },
                        ),
                        audio: s.audio,
                        timestamps: s.timestamps.push(rebased(pts, offset)),
                        offset,
                    },
                ),
            },
        }
    }
}

/// The state after an audio packet with the payload `data`. The first audio packet opens
/// the track. Each audio packet adds the samples and the raw data blocks of its frames.
pub open spec fn audio_step(s: IntakeState, data: Seq<u8>) -> Result<IntakeState, ErrorKind> {
    match (match s.audio {
        None => new_audio_track(data),
        Some(track) => Ok(track),
    }) {
        Err(kind) => Err(kind),
        Ok(track) => match audio_frames(data, track.header) {
            Err(kind) => Err(kind),
            Ok((samples, blocks)) => Ok(
                IntakeState {
                    audio: Some(
                        AudioTrack {
                            header: track.header,
                            samples: track.samples + samples,
                            data: track.data + blocks,
                        },
                    ),
                    ..s
                },
            ),
        },
    }
}

/// The state after the packet `p`.
///
/// - A packet without stream type is `InvalidInput`.
/// - A packet of a video stream has to have the stream type of H.264, else it is
///   `Unsupported`, and a presentation timestamp, else it is `InvalidInput`; a decoding
///   timestamp that is missing is the presentation timestamp.
/// - A packet of neither a video nor an audio stream is `InvalidInput`.
/// - A packet of an audio stream has to have the stream type of ADTS AAC, else it is
///   `Unsupported`, and a presentation timestamp, else it is `InvalidInput`.
pub open spec fn intake_step(s: IntakeState, p: PesPacket) -> Result<IntakeState, ErrorKind> {
    match p.stream_type {
        None => Err(ErrorKind::InvalidInput),
        Some(stream_type) => if is_video_id(p.stream_id) {
            if stream_type != STREAM_TYPE_H264 {
                Err(ErrorKind::Unsupported)
            } else {
                match p.pts {
                    None => Err(ErrorKind::InvalidInput),
                    Some(pts) => video_step(
                        s,
                        pts,
                        match p.dts {
                            Some(dts) => dts,
                            None => pts,
                        },
                        p.data@,
                    ),
                }
            }
        } else if !is_audio_id(p.stream_id) {
            Err(ErrorKind::InvalidInput)
        } else if stream_type != STREAM_TYPE_ADTS_AAC {
            Err(ErrorKind::Unsupported)
        } else if p.pts is None {
            Err(ErrorKind::InvalidInput)
        } else {
            audio_step(s, p.data@)
        },
    }
}

/// The state after the packets `packets`. The first packet that cannot be taken in decides
/// the error.
pub open spec fn intake(packets: Seq<PesPacket>) -> Result<IntakeState, ErrorKind>
    decreases packets.len(),
{
    if packets.len() == 0 {
        Ok(intake_start())
    } else {
        match intake(packets.drop_last()) {
            Err(kind) => Err(kind),
            Ok(s) => intake_step(s, packets.last()),
        }
    }
}

/// The error of the first packets is the error of all of them.
pub proof fn lemma_intake_prefix(packets: Seq<PesPacket>, n: int)
    requires
        0 <= n <= packets.len(),
    ensures
        intake(packets.take(n)) matches Err(kind) ==> intake(packets) == Err::<
            IntakeState,
            ErrorKind,
        >(kind),
    decreases packets.len() - n,
{
    if n == packets.len() {
        assert(packets.take(n) =~= packets);
    } else {
        assert(packets.take(n + 1).drop_last() =~= packets.take(n));
        lemma_intake_prefix(packets, n + 1);
    }
}

/// The two tracks that the state `s` holds at the end of the stream, the video samples
/// with their durations. A stream without video or without audio is `InvalidInput`.
pub open spec fn tracks(s: IntakeState) -> Result<(VideoTrack, AudioTrack), ErrorKind> {
    match (s.video, s.audio) {
        (Some(video), Some(audio)) => match resolved_samples(video.samples, s.timestamps) {
            Err(kind) => Err(kind),
            Ok(samples) => Ok((VideoTrack { samples, ..video }, audio)),
        },
        _ => Err(ErrorKind::InvalidInput),
    }
}

/// The two tracks of a transport stream with the PES packets `packets`.
pub open spec fn avc_aac_tracks(packets: Seq<PesPacket>) -> Result<
    (VideoTrack, AudioTrack),
    ErrorKind,
> {
    match intake(packets) {
        Err(kind) => Err(kind),
        Ok(s) => tracks(s),
    }
}

/// While packets are taken in, the video track has as many timestamps as samples, and the
/// first timestamp is 0.
pub proof fn lemma_intake_timestamps(packets: Seq<PesPacket>)
    ensures
        intake(packets) matches Ok(s) ==> match s.video {
            Some(video) => s.timestamps.len() == video.samples.len() && s.timestamps.len() > 0
                && s.timestamps[0] == 0,
            None => s.timestamps.len() == 0,
        },
    decreases packets.len(),
{
    if packets.len() > 0 {
        lemma_intake_timestamps(packets.drop_last());
    }
}

/// The durations of the video samples of a transport stream. The first sample in decoding
/// order is the first in presentation order and has the start time, or 0 if that is
/// negative. Every other sample has the time that has passed since the sample just before
/// it in presentation order.
pub proof fn lemma_video_sample_durations(packets: Seq<PesPacket>, i: int)
    requires
        avc_aac_tracks(packets) is Ok,
        0 <= i < avc_aac_tracks(packets)->Ok_0.0.samples.len(),
    ensures
        ({
            let ts = intake(packets)->Ok_0.timestamps;
            let samples = avc_aac_tracks(packets)->Ok_0.0.samples;
            &&& ts.len() == samples.len()
            &&& i == 0 ==> previous_timestamp(ts, i) == -1 && samples[i].duration == Some(
                if start_time(samples) < 0 {
                    0u32
                } else {
                    start_time(samples) as u32
                },
            )
            &&& i > 0 ==> 0 <= previous_timestamp(ts, i) <= ts[i] && ts[i] - previous_timestamp(ts, i)
                <= u32::MAX && samples[i].duration == Some(
                (ts[i] - previous_timestamp(ts, i)) as u32,
            )
        }),
{
    let s = intake(packets)->Ok_0;
    let ts = s.timestamps;
    lemma_intake_timestamps(packets);
    lemma_latest_before(ts, i, ts.len() as int);
    if i > 0 {
        assert(before(ts, 0, i));
        assert(!duration_overflows(ts, i));
    }
}

/// Tells whether sample `j` comes just behind sample `i` in presentation order.
pub open spec fn is_next(ts: Seq<u64>, i: int, j: int) -> bool {
    &&& 0 <= i < ts.len()
    &&& 0 <= j < ts.len()
    &&& before(ts, i, j)
    &&& forall|k: int| 0 <= k < ts.len() ==> !(before(ts, i, k) && #[trigger] before(ts, k, j))
}

/// A video sample lasts up to the next sample in presentation order where the samples
/// follow one another at even distances: where the next sample comes as long after it as
/// it has come after the sample before it, or, for the first sample, as long after it as
/// the start time says.
pub proof fn lemma_video_sample_lasts_to_next(packets: Seq<PesPacket>, i: int, j: int)
    requires
        avc_aac_tracks(packets) is Ok,
        is_next(intake(packets)->Ok_0.timestamps, i, j),
        ({
            let ts = intake(packets)->Ok_0.timestamps;
            let samples = avc_aac_tracks(packets)->Ok_0.0.samples;
            &&& i == 0 ==> ts[j] - ts[i] == if start_time(samples) < 0 {
                0
            } else {
                start_time(samples) as int
            }
            &&& i > 0 ==> ts[j] - ts[i] == ts[i] - previous_timestamp(ts, i)
        }),
    ensures
        ({
            let ts = intake(packets)->Ok_0.timestamps;
            let samples = avc_aac_tracks(packets)->Ok_0.0.samples;
            0 <= ts[j] - ts[i] <= u32::MAX && samples[i].duration == Some((ts[j] - ts[i]) as u32)
        }),
{
    lemma_intake_timestamps(packets);
    lemma_video_sample_durations(packets, i);
}

/// The duration of the movie is that of the longer track, and the fragment duration is
/// the same. Durations are held against each other as multiples of a common unit: a tick
/// of 90 kHz has as many units as the sampling frequency has Hz, and a tick of the
/// sampling frequency has 90000.
pub proof fn lemma_movie_duration(
    segment: InitializationSegment,
    video: VideoTrack,
    audio: AudioTrack,
)
    requires
        is_initialization_segment(segment, video, audio),
        initialization_fits(video, audio),
    ensures
        ({
            let video_time = video_duration(video.samples)->Ok_0
                * audio.header.sampling_frequency.hz();
            let audio_time = audio_duration(audio.samples)->Ok_0 * TIMESTAMP_RESOLUTION;
            let longer = if video_time < audio_time {
                audio_time
            } else {
                video_time
            };
            &&& segment.moov_box.mvhd_box.timescale == if video_time < audio_time {
                audio.header.sampling_frequency.hz()
            } else {
                TIMESTAMP_RESOLUTION as u32
            }
            &&& segment.moov_box.mvhd_box.duration * (TIMESTAMP_RESOLUTION
                * audio.header.sampling_frequency.hz()) == longer
                * segment.moov_box.mvhd_box.timescale
            &&& segment.moov_box.mvex_box.mehd_box == Some(
                MovieExtendsHeaderBox { fragment_duration: segment.moov_box.mvhd_box.duration },
            )
        }),
{
    let v = video_duration(video.samples)->Ok_0 as int;
    let a = audio_duration(audio.samples)->Ok_0 as int;
    let f = audio.header.sampling_frequency.hz() as int;
    let r = TIMESTAMP_RESOLUTION as int;
    if audio_governs(video, audio) {
        assert(a * (r * f) == (a * r) * f) by (nonlinear_arith);
    } else {
        assert(v * (r * f) == (v * f) * r) by (nonlinear_arith);
    }
}

/// The sum of the sizes of `samples`; a sample without size counts as 0.
pub open spec fn sizes_sum(samples: Seq<Sample>) -> nat
    decreases samples.len(),
{
    if samples.len() == 0 {
        0
    } else {
        sizes_sum(samples.drop_last()) + match samples.last().size {
            Some(n) => n as nat,
            None => 0,
        }
    }
}

/// The sizes of samples that follow one another add up.
pub proof fn lemma_sizes_sum_add(a: Seq<Sample>, b: Seq<Sample>)
    ensures
        sizes_sum(a + b) == sizes_sum(a) + sizes_sum(b),
    decreases b.len(),
{
    if b.len() == 0 {
        assert(a + b =~= a);
    } else {
        assert((a + b).drop_last() =~= a + b.drop_last());
        lemma_sizes_sum_add(a, b.drop_last());
    }
}

/// Samples that have the same sizes have the same sum of sizes.
pub proof fn lemma_sizes_sum_of_sizes(a: Seq<Sample>, b: Seq<Sample>)
    requires
        a.len() == b.len(),
        forall|i: int| 0 <= i < a.len() ==> a[i].size == b[i].size,
    ensures
        sizes_sum(a) == sizes_sum(b),
    decreases a.len(),
{
    if a.len() > 0 {
        lemma_sizes_sum_of_sizes(a.drop_last(), b.drop_last());
    }
}

/// The sizes of the samples of audio frames add up to the length of their raw data
/// blocks.
pub proof fn lemma_audio_frames_sizes(data: Seq<u8>, first: AdtsHeader)
    ensures
        audio_frames(data, first) matches Ok((samples, blocks)) ==> sizes_sum(samples)
            == blocks.len(),
    decreases data.len(),
{
    if data.len() > 0 {
        match adts_header(data) {
            Ok(header) => {
                if same_configuration(header, first) && 7 <= header.frame_len <= data.len() {
                    let rest = data.subrange(header.frame_len as int, data.len() as int);
                    lemma_audio_frames_sizes(rest, first);
                    match audio_frames(rest, first) {
                        Ok((samples, blocks)) => {
                            let sample = seq![audio_sample((header.frame_len - 7) as u32)];
                            lemma_sizes_sum_add(sample, samples);
                            assert(sample.drop_last() =~= Seq::<Sample>::empty());
                            assert(sizes_sum(sample) == header.frame_len - 7) by {
                                reveal_with_fuel(sizes_sum, 2);
                            }
                        },
                        Err(_) => {},
                    }
                }
            },
            Err(_) => {},
        }
    }
}

/// While packets are taken in, the sizes of the samples of each track add up to the
/// length of its data.
pub proof fn lemma_intake_sizes(packets: Seq<PesPacket>)
    ensures
        intake(packets) matches Ok(s) ==> {
            &&& s.video matches Some(video) ==> sizes_sum(video.samples) == video.data.len()
            &&& s.audio matches Some(audio) ==> sizes_sum(audio.samples) == audio.data.len()
        },
    decreases packets.len(),
{
    if packets.len() > 0 {
        lemma_intake_sizes(packets.drop_last());
        match intake(packets.drop_last()) {
            Ok(s) => {
                let p = packets.last();
                if intake_step(s, p) is Ok {
                    if is_video_id(p.stream_id) {
                        let pts = p.pts->Some_0;
                        let dts = match p.dts {
                            Some(dts) => dts,
                            None => pts,
                        };
                        lemma_video_step_sizes(s, pts, dts, p.data@);
                    } else {
                        lemma_audio_step_sizes(s, p.data@);
                    }
                }
            },
            Err(_) => {},
        }
    }
}

/// A video packet adds a sample of the size of what it adds to the data.
proof fn lemma_video_step_sizes(s: IntakeState, pts: u64, dts: u64, data: Seq<u8>)
    requires
        video_step(s, pts, dts, data) is Ok,
        s.video matches Some(video) ==> sizes_sum(video.samples) == video.data.len(),
    ensures
        ({
            let next = video_step(s, pts, dts, data)->Ok_0;
            &&& next.audio == s.audio
            &&& next.video is Some
            &&& sizes_sum(next.video->Some_0.samples) == next.video->Some_0.data.len()
        }),
{
    let next = video_step(s, pts, dts, data)->Ok_0;
    let track = match s.video {
        None => new_video_track(data)->Ok_0,
        Some(track) => track,
    };
    let bytes = video_payload(data)->Ok_0;
    let video = next.video->Some_0;
    assert(video.samples.drop_last() =~= track.samples);
    assert(video.samples.last().size == Some(bytes.len() as u32));
    assert(sizes_sum(track.samples) == track.data.len());
}

/// An audio packet adds samples of the sizes of what it adds to the data.
proof fn lemma_audio_step_sizes(s: IntakeState, data: Seq<u8>)
    requires
        audio_step(s, data) is Ok,
        s.audio matches Some(audio) ==> sizes_sum(audio.samples) == audio.data.len(),
    ensures
        ({
            let next = audio_step(s, data)->Ok_0;
            &&& next.video == s.video
            &&& next.audio is Some
            &&& sizes_sum(next.audio->Some_0.samples) == next.audio->Some_0.data.len()
        }),
{
    let track = match s.audio {
        None => new_audio_track(data)->Ok_0,
        Some(track) => track,
    };
    lemma_audio_frames_sizes(data, track.header);
    lemma_sizes_sum_add(track.samples, audio_frames(data, track.header)->Ok_0.0);
    assert(sizes_sum(track.samples) == track.data.len());
}

/// In the tracks of a transport stream, the sizes of the samples of each track add up to
/// the length of its data.
pub proof fn lemma_sample_sizes(packets: Seq<PesPacket>)
    ensures
        avc_aac_tracks(packets) matches Ok((video, audio)) ==> sizes_sum(video.samples)
            == video.data.len() && sizes_sum(audio.samples) == audio.data.len(),
{
    lemma_intake_sizes(packets);
    match intake(packets) {
        Ok(s) => {
            match tracks(s) {
                Ok((video, audio)) => {
                    lemma_sizes_sum_of_sizes(s.video->Some_0.samples, video.samples);
                },
                Err(_) => {},
            }
        },
        Err(_) => {},
    }
}

/// Returns the composition time offset of a sample.
fn composition_time_offset(pts: u64, dts: u64) -> (offset: i32)
    requires
        pts < TIMESTAMP_MODULUS,
        dts < TIMESTAMP_MODULUS,
    ensures
        offset == wrapped_difference(pts, dts),
{
    let low = (pts + 0x2_0000_0000 - dts) % 0x1_0000_0000;
    assert(low == (pts - dts) % 0x1_0000_0000);
    if low >= 0x8000_0000 {
        (low as i64 - 0x1_0000_0000) as i32
    } else {
        low as i32
    }
}

/// The PES packets of a transport stream, taken in one by one.
pub struct Intake {
    avc_stream: Option<AvcStream>,
    aac_stream: Option<AacStream>,
    avc_timestamps: Vec<u64>,
    avc_timestamp_offset: u64,
}

impl View for Intake {
    type V = IntakeState;

    closed spec fn view(&self) -> IntakeState {
        IntakeState {
            video: match self.avc_stream {
                Some(stream) => Some(stream@),
                None => None,
            },
            audio: match self.aac_stream {
                Some(stream) => Some(stream@),
                None => None,
            },
            timestamps: self.avc_timestamps@,
            offset: self.avc_timestamp_offset,
        }
    }
}

impl Intake {
    /// The first timestamp of the video track fits in 33 bits.
    #[verifier::type_invariant]
    spec fn offset_in_range(self) -> bool {
        self.avc_stream is Some ==> self.avc_timestamp_offset < TIMESTAMP_MODULUS
    }

    /// Makes the state before the first packet.
    pub fn new() -> (s: Self)
        ensures
            s@ == intake_start(),
    {
        Intake {
            avc_stream: None,
            aac_stream: None,
            avc_timestamps: Vec::new(),
            avc_timestamp_offset: 0,
        }
    }

    /// Takes in a video packet.
    #[verifier::rlimit(40)]
    fn push_video(self, pts: u64, dts: u64, data: &[u8]) -> (r: Result<Self, Error>)
        ensures
            match video_step(self@, pts, dts, data@) {
                Ok(s) => r is Ok && r->Ok_0@ == s,
                Err(kind) => r is Err && r->Err_0 == (Error { kind }),
            },
    {
        if pts >= TIMESTAMP_MODULUS || dts >= TIMESTAMP_MODULUS {
            return Err(Error::new(ErrorKind::InvalidInput));
        }
        proof {
            use_type_invariant(&self);
        }
        let Intake { avc_stream, aac_stream, avc_timestamps, avc_timestamp_offset } = self;
        let mut avc_timestamps = avc_timestamps;
        let first = avc_stream.is_none();
        let offset = if first {
            pts
        } else {
            avc_timestamp_offset
        };
        let timestamp = if pts < offset {
            pts + TIMESTAMP_MODULUS - offset
        } else {
            pts - offset
        };
        avc_timestamps.push(timestamp);
        let mut stream = match avc_stream {
            Some(stream) => stream,
            None => {
                let (sps, sps_summary, pps) = read_video_configuration(data)?;
                AvcStream {
                    configuration: AvcDecoderConfigurationRecord {
                        profile_idc: sps_summary.profile_idc,
                        constraint_set_flag: sps_summary.constraint_set_flag,
                        level_idc: sps_summary.level_idc,
                        sequence_parameter_set: sps,
                        picture_parameter_set: pps,
                    },
                    width: sps_summary.width(),
                    height: sps_summary.height(),
                    samples: Vec::new(),
                    data: Vec::new(),
                }
            },
        };
        let sample_size = append_nal_units(data, &mut stream.data)?;
        let sample_composition_time_offset = composition_time_offset(pts, dts);
        stream.samples.push(
            Sample {
                duration: None,
                size: Some(sample_size),
                flags: None,
                composition_time_offset: Some(sample_composition_time_offset),
            },
        );
        let next = Intake {
            avc_stream: Some(stream),
            aac_stream,
            avc_timestamps,
            avc_timestamp_offset: offset,
        };
        proof {
            let expected = video_step(self@, pts, dts, data@)->Ok_0;
            assert(next@.video->Some_0.samples =~= expected.video->Some_0.samples);
            assert(next@.video->Some_0.data =~= expected.video->Some_0.data);
            assert(next@.timestamps =~= expected.timestamps);
            assert(next@.video == expected.video);
            assert(next@.audio == expected.audio);
        }
        Ok(next)
    }

    /// Takes in an audio packet.
    fn push_audio(self, data: &[u8]) -> (r: Result<Self, Error>)
        ensures
            match audio_step(self@, data@) {
                Ok(s) => r is Ok && r->Ok_0@ == s,
                Err(kind) => r is Err && r->Err_0 == (Error { kind }),
            },
    {
        proof {
            use_type_invariant(&self);
        }
        let Intake { avc_stream, aac_stream, avc_timestamps, avc_timestamp_offset } = self;
        let mut stream = match aac_stream {
            Some(stream) => stream,
            None => {
                let adts_header = AdtsHeader::read_from(data)?;
                AacStream { adts_header, samples: Vec::new(), data: Vec::new() }
            },
        };
        let header = stream.adts_header;
        append_adts_frames(data, &header, &mut stream.samples, &mut stream.data)?;
        let next = Intake {
            avc_stream,
            aac_stream: Some(stream),
            avc_timestamps,
            avc_timestamp_offset,
        };
        proof {
            let expected = audio_step(self@, data@)->Ok_0;
            assert(next@.audio == expected.audio);
            assert(next@.video == expected.video);
        }
        Ok(next)
    }

    /// Takes in the packet `packet`.
    pub fn push(self, packet: &PesPacket) -> (r: Result<Self, Error>)
        ensures
            match intake_step(self@, *packet) {
                Ok(s) => r is Ok && r->Ok_0@ == s,
                Err(kind) => r is Err && r->Err_0 == (Error { kind }),
            },
    {
        let stream_type = match packet.stream_type {
            Some(stream_type) => stream_type,
            None => {
                return Err(Error::new(ErrorKind::InvalidInput));
            },
        };
        if stream_id_is_video(packet.stream_id) {
            if stream_type != STREAM_TYPE_H264 {
                return Err(Error::new(ErrorKind::Unsupported));
            }
            let pts = match packet.pts {
                Some(pts) => pts,
                None => {
                    return Err(Error::new(ErrorKind::InvalidInput));
                },
            };
            let dts = match packet.dts {
                Some(dts) => dts,
                None => pts,
            };
            self.push_video(pts, dts, packet.data.as_slice())
        } else {
            if !stream_id_is_audio(packet.stream_id) {
                return Err(Error::new(ErrorKind::InvalidInput));
            }
            if stream_type != STREAM_TYPE_ADTS_AAC {
                return Err(Error::new(ErrorKind::Unsupported));
            }
            if packet.pts.is_none() {
                return Err(Error::new(ErrorKind::InvalidInput));
            }
            self.push_audio(packet.data.as_slice())
        }
    }

    /// Ends the intake: returns the two streams, the video samples with their durations.
    pub fn finish(self) -> (r: Result<(AvcStream, AacStream), Error>)
        ensures
            match tracks(self@) {
                Ok((video, audio)) => r is Ok && r->Ok_0.0@ == video && r->Ok_0.1@ == audio,
                Err(kind) => r is Err && r->Err_0 == (Error { kind }),
            },
    {
        let Intake { avc_stream, aac_stream, avc_timestamps, avc_timestamp_offset } = self;
        let mut avc_stream = match avc_stream {
            Some(stream) => stream,
            None => {
                return Err(Error::new(ErrorKind::InvalidInput));
            },
        };
        let aac_stream = match aac_stream {
            Some(stream) => stream,
            None => {
                return Err(Error::new(ErrorKind::InvalidInput));
            },
        };
        resolve_durations(&mut avc_stream.samples, &avc_timestamps)?;
        Ok((avc_stream, aac_stream))
    }
}

/// Takes in the PES packets `packets` of a transport stream and returns its video stream
/// and its audio stream.
pub fn read_avc_aac_stream(packets: &Vec<PesPacket>) -> (r: Result<(AvcStream, AacStream), Error>)
    ensures
        match avc_aac_tracks(packets@) {
            Ok((video, audio)) => r is Ok && r->Ok_0.0@ == video && r->Ok_0.1@ == audio,
            Err(kind) => r is Err && r->Err_0 == (Error { kind }),
        },
{
    let mut state = Intake::new();
    let mut i: usize = 0;
    assert(packets@.take(0) =~= Seq::<PesPacket>::empty());
    while i < packets.len()
        invariant
            i <= packets@.len(),
            intake(packets@.take(i as int)) == Ok::<IntakeState, ErrorKind>(state@),
        decreases packets@.len() - i,
    {
        proof {
            assert(packets@.take(i + 1).drop_last() =~= packets@.take(i as int));
            lemma_intake_prefix(packets@, i + 1);
        }
        state = state.push(&packets[i])?;
        i += 1;
    }
    assert(packets@.take(i as int) =~= packets@);
    state.finish()
}

/// Tells whether an initialization segment can be made for the two tracks: both have a
/// duration, and width and height of the pictures fit in 16 bits.
pub open spec fn initialization_fits(video: VideoTrack, audio: AudioTrack) -> bool {
    &&& video_duration(video.samples) is Ok
    &&& audio_duration(audio.samples) is Ok
    &&& video.width <= 0xFFFF
    &&& video.height <= 0xFFFF
}

/// Tells whether the audio track decides timescale and duration of the movie: it does
/// where it lasts longer than the video track. The two durations are held against each
/// other as multiples of a common unit: a tick of 90 kHz, in which the video track counts,
/// has as many units as the sampling frequency has Hz, and a tick of the sampling
/// frequency, in which the audio track counts, has 90000.
pub open spec fn audio_governs(video: VideoTrack, audio: AudioTrack) -> bool {
    video_duration(video.samples)->Ok_0 * audio.header.sampling_frequency.hz()
        < audio_duration(audio.samples)->Ok_0 * TIMESTAMP_RESOLUTION
}

/// The timescale of the movie: that of the track that decides.
pub open spec fn movie_timescale(video: VideoTrack, audio: AudioTrack) -> u32 {
    if audio_governs(video, audio) {
        audio.header.sampling_frequency.hz()
    } else {
        TIMESTAMP_RESOLUTION as u32
    }
}

/// The duration of the movie: that of the track that decides.
pub open spec fn movie_duration(video: VideoTrack, audio: AudioTrack) -> u32 {
    if audio_governs(video, audio) {
        audio_duration(audio.samples)->Ok_0
    } else {
        video_duration(video.samples)->Ok_0
    }
}

/// Tells whether `track` is the track box of the video track `video`.
pub open spec fn is_video_track_box(track: TrackBox, video: VideoTrack) -> bool {
    &&& track.tkhd_box.track_id == VIDEO_TRACK_ID
    &&& track.tkhd_box.duration == video_duration(video.samples)->Ok_0
    &&& track.tkhd_box.volume == 0
    &&& track.tkhd_box.width == video.width * 0x1_0000
    &&& track.tkhd_box.height == video.height * 0x1_0000
    &&& track.edts_box.elst_box.media_time == start_time(video.samples)
    &&& track.mdia_box.mdhd_box.timescale == TIMESTAMP_RESOLUTION
    &&& track.mdia_box.mdhd_box.duration == video_duration(video.samples)->Ok_0
    &&& track.mdia_box.hdlr_box.kind() == vide()
    &&& track.mdia_box.hdlr_box.name() == video_handler()
    &&& track.mdia_box.minf_box.vmhd_box is Some
    &&& track.mdia_box.minf_box.smhd_box is None
    &&& track.mdia_box.minf_box.stbl_box.stsd_box.sample_entries@.len() == 1
    &&& track.mdia_box.minf_box.stbl_box.stsd_box.sample_entries@[0] matches SampleEntry::Avc(entry)
        && {
        &&& entry.width == video.width
        &&& entry.height == video.height
        &&& entry.avcc_box.configuration.profile_idc == video.profile_idc
        &&& entry.avcc_box.configuration.constraint_set_flag == video.constraint_set_flag
        &&& entry.avcc_box.configuration.level_idc == video.level_idc
        &&& entry.avcc_box.configuration.sequence_parameter_set@ == video.sps
        &&& entry.avcc_box.configuration.picture_parameter_set@ == video.pps
    }
}

/// Tells whether `track` is the track box of the audio track `audio`.
pub open spec fn is_audio_track_box(track: TrackBox, audio: AudioTrack) -> bool {
    &&& track.tkhd_box.track_id == AUDIO_TRACK_ID
    &&& track.tkhd_box.duration == audio_duration(audio.samples)->Ok_0
    &&& track.tkhd_box.volume == 0x0100
    &&& track.tkhd_box.width == 0
    &&& track.tkhd_box.height == 0
    &&& track.edts_box.elst_box.media_time == 0
    &&& track.mdia_box.mdhd_box.timescale == audio.header.sampling_frequency.hz()
    &&& track.mdia_box.mdhd_box.duration == audio_duration(audio.samples)->Ok_0
    &&& track.mdia_box.hdlr_box.kind() == soun()
    &&& track.mdia_box.hdlr_box.name() == sound_handler()
    &&& track.mdia_box.minf_box.vmhd_box is None
    &&& track.mdia_box.minf_box.smhd_box is Some
    &&& track.mdia_box.minf_box.stbl_box.stsd_box.sample_entries@.len() == 1
    &&& track.mdia_box.minf_box.stbl_box.stsd_box.sample_entries@[0] matches SampleEntry::Aac(entry)
        && {
        &&& entry.esds_box.profile == audio.header.profile
        &&& entry.esds_box.frequency == audio.header.sampling_frequency
        &&& entry.esds_box.channel_configuration == audio.header.channel_configuration
    }
}

/// Tells whether `trex` holds the defaults of the track that `is_video` selects.
pub open spec fn is_track_extends_box(trex: TrackExtendsBox, is_video: bool) -> bool {
    &&& trex.track_id == if is_video {
        VIDEO_TRACK_ID
    } else {
        AUDIO_TRACK_ID
    }
    &&& trex.default_sample_description_index == 1
    &&& trex.default_sample_duration == 0
    &&& trex.default_sample_size == 0
    &&& trex.default_sample_flags == 0
}

/// Tells whether `segment` is the initialization segment of the two tracks: the file type
/// `isom`, a movie with the timescale and the duration of the track that decides, the
/// video track and the audio track, and for each of them the defaults of its samples.
pub open spec fn is_initialization_segment(
    segment: InitializationSegment,
    video: VideoTrack,
    audio: AudioTrack,
) -> bool {
    &&& segment.ftyp_box.major_brand.0@ == isom()
    &&& segment.ftyp_box.minor_version == 512
    &&& segment.ftyp_box.compatible_brands@.len() == 0
    &&& segment.moov_box.mvhd_box.timescale == movie_timescale(video, audio)
    &&& segment.moov_box.mvhd_box.duration == movie_duration(video, audio)
    &&& segment.moov_box.mvex_box.mehd_box matches Some(mehd) && mehd.fragment_duration
        == movie_duration(video, audio)
    &&& segment.moov_box.trak_boxes@.len() == 2
    &&& is_video_track_box(segment.moov_box.trak_boxes@[0], video)
    &&& is_audio_track_box(segment.moov_box.trak_boxes@[1], audio)
    &&& segment.moov_box.mvex_box.trex_boxes@.len() == 2
    &&& is_track_extends_box(segment.moov_box.mvex_box.trex_boxes@[0], true)
    &&& is_track_extends_box(segment.moov_box.mvex_box.trex_boxes@[1], false)
}

/// The error for which the initialization segment of the two tracks cannot be written,
/// if there is one: a video profile whose configuration record has further fields is
/// `Unsupported`, a parameter set of more than 65535 bytes `InvalidInput`, another number
/// of audio channels than 1 or 2 `Unsupported`, and a sampling frequency above 65535 Hz
/// `InvalidInput`.
pub open spec fn initialization_error(video: VideoTrack, audio: AudioTrack) -> Option<ErrorKind> {
    if has_extension(video.profile_idc) {
        Some(ErrorKind::Unsupported)
    } else if video.sps.len() > 0xFFFF || video.pps.len() > 0xFFFF {
        Some(ErrorKind::InvalidInput)
    } else if audio.header.channel_configuration.code() != 1
        && audio.header.channel_configuration.code() != 2 {
        Some(ErrorKind::Unsupported)
    } else if audio.header.sampling_frequency.hz() > 0xFFFF {
        Some(ErrorKind::InvalidInput)
    } else {
        None
    }
}

/// The initialization segment of two tracks can be written unless it has an
/// [`initialization_error`], and is serialized in 1152 bytes and the bytes of the two
/// parameter sets.
#[verifier::rlimit(40)]
pub proof fn lemma_initialization_segment_encoding(
    segment: InitializationSegment,
    video: VideoTrack,
    audio: AudioTrack,
)
    requires
        is_initialization_segment(segment, video, audio),
        initialization_fits(video, audio),
    ensures
        match initialization_error(video, audio) {
            Some(kind) => segment.encoding() == Err::<Seq<u8>, ErrorKind>(kind),
            None => segment.encoding() is Ok && segment.encoding()->Ok_0.len() == 1152
                + video.sps.len() + video.pps.len(),
        },
{
    let moov = &segment.moov_box;
    let video_track = &moov.trak_boxes@[0];
    let audio_track = &moov.trak_boxes@[1];
    match video_track.mdia_box.minf_box.stbl_box.stsd_box.sample_entries@[0] {
        SampleEntry::Avc(entry) => lemma_avc_sample_entry(&entry),
        SampleEntry::Aac(_) => {},
    }
    match audio_track.mdia_box.minf_box.stbl_box.stsd_box.sample_entries@[0] {
        SampleEntry::Aac(entry) => lemma_aac_sample_entry(&entry),
        SampleEntry::Avc(_) => {},
    }
    assert(video_handler().len() == 13 && sound_handler().len() == 13);
    lemma_track_box(video_track);
    lemma_track_box(audio_track);
    lemma_movie_box(moov);
    lemma_file_type_isom(&segment.ftyp_box);
}

/// The MIME type of the initialization segment of two tracks names the codecs of the two
/// tracks: profile, constraint set flags and level of the video track, and the AAC profile
/// of the audio track.
pub proof fn lemma_initialization_mime_type(
    segment: InitializationSegment,
    video: VideoTrack,
    audio: AudioTrack,
)
    requires
        is_initialization_segment(segment, video, audio),
    ensures
        first_avc_profile(segment.moov_box.trak_boxes@) == Some(
            (video.profile_idc, video.constraint_set_flag, video.level_idc),
        ),
        first_aac_profile(segment.moov_box.trak_boxes@) == Some(audio.header.profile),
        mime_type_of(segment.moov_box.trak_boxes@) == "video/mp4; codecs=\""@ + avc_codec(
            Some((video.profile_idc, video.constraint_set_flag, video.level_idc)),
        ) + ", "@ + aac_codec(Some(audio.header.profile)) + "\""@,
{
    let tracks = segment.moov_box.trak_boxes@;
    reveal_with_fuel(first_aac_profile, 3);
    assert(tracks.drop_first()[0] == tracks[1]);
}

/// Makes the initialization segment of the two streams. Streams for which none can be
/// made are `InvalidInput`: see [`initialization_fits`].
#[verifier::rlimit(40)]
pub fn make_initialization_segment(avc_stream: &AvcStream, aac_stream: &AacStream) -> (r: Result<
    InitializationSegment,
    Error,
>)
    ensures
        initialization_fits(avc_stream@, aac_stream@) ==> r is Ok && is_initialization_segment(
            r->Ok_0,
            avc_stream@,
            aac_stream@,
        ),
        !initialization_fits(avc_stream@, aac_stream@) ==> r is Err && r->Err_0 == (Error {
            kind: ErrorKind::InvalidInput,
        }),
{
    let video_duration = avc_stream.duration()?;
    let audio_duration = aac_stream.duration()?;
    if avc_stream.width > 0xFFFF || avc_stream.height > 0xFFFF {
        return Err(Error::new(ErrorKind::InvalidInput));
    }
    let mut segment = InitializationSegment::new();
    let frequency = aac_stream.adts_header.sampling_frequency.as_u32();
    assert(video_duration * frequency <= 0xFFFF_FFFF * 96_000) by (nonlinear_arith)
        requires
            video_duration <= 0xFFFF_FFFF,
            frequency <= 96_000,
    ;
    let video_time = video_duration as u64 * (frequency as u64);
    let audio_time = audio_duration as u64 * TIMESTAMP_RESOLUTION;
    if video_time < audio_time {
        segment.moov_box.mvhd_box.timescale = frequency;
        segment.moov_box.mvhd_box.duration = audio_duration;
        segment.moov_box.mvex_box.mehd_box = Some(
            MovieExtendsHeaderBox { fragment_duration: audio_duration },
        );
    } else {
        segment.moov_box.mvhd_box.timescale = TIMESTAMP_RESOLUTION as u32;
        segment.moov_box.mvhd_box.duration = video_duration;
        segment.moov_box.mvex_box.mehd_box = Some(
            MovieExtendsHeaderBox { fragment_duration: video_duration },
        );
    }

    // video track
    let mut track = TrackBox::new(true);
    track.tkhd_box.width = (avc_stream.width as u32) * 0x1_0000;
    track.tkhd_box.height = (avc_stream.height as u32) * 0x1_0000;
    track.tkhd_box.duration = video_duration;
    track.edts_box.elst_box.media_time = avc_stream.start_time();
    track.mdia_box.mdhd_box.timescale = TIMESTAMP_RESOLUTION as u32;
    track.mdia_box.mdhd_box.duration = video_duration;

    let avc_sample_entry = AvcSampleEntry {
        width: avc_stream.width as u16,
        height: avc_stream.height as u16,
        avcc_box: AvcConfigurationBox {
            configuration: AvcDecoderConfigurationRecord {
                profile_idc: avc_stream.configuration.profile_idc,
                constraint_set_flag: avc_stream.configuration.constraint_set_flag,
                level_idc: avc_stream.configuration.level_idc,
                sequence_parameter_set: slice_to_vec(
                    avc_stream.configuration.sequence_parameter_set.as_slice(),
                ),
                picture_parameter_set: slice_to_vec(
                    avc_stream.configuration.picture_parameter_set.as_slice(),
                ),
            },
        },
    };
    track.mdia_box.minf_box.stbl_box.stsd_box.sample_entries.push(
        SampleEntry::Avc(avc_sample_entry),
    );
    segment.moov_box.trak_boxes.push(track);
    segment.moov_box.mvex_box.trex_boxes.push(TrackExtendsBox::new(true));

    // audio track
    let mut track = TrackBox::new(false);
    track.tkhd_box.duration = audio_duration;
    track.mdia_box.mdhd_box.timescale = aac_stream.adts_header.sampling_frequency.as_u32();
    track.mdia_box.mdhd_box.duration = audio_duration;

    let aac_sample_entry = AacSampleEntry {
        esds_box: Mpeg4EsDescriptorBox {
            profile: aac_stream.adts_header.profile,
            frequency: aac_stream.adts_header.sampling_frequency,
            channel_configuration: aac_stream.adts_header.channel_configuration,
        },
    };
    track.mdia_box.minf_box.stbl_box.stsd_box.sample_entries.push(
        SampleEntry::Aac(aac_sample_entry),
    );
    segment.moov_box.trak_boxes.push(track);
    segment.moov_box.mvex_box.trex_boxes.push(TrackExtendsBox::new(false));

    Ok(segment)
}

/// The flags of the video samples but the first: they depend on other samples and are no
/// sync samples.
pub open spec fn video_default_flags() -> SampleFlags {
    SampleFlags {
        is_leading: 0,
        sample_depends_on: 1,
        sample_is_depdended_on: 0,
        sample_has_redundancy: 0,
        sample_padding_value: 0,
        sample_is_non_sync_sample: true,
        sample_degradation_priority: 0,
    }
}

/// The flags of the first video sample: it depends on no other sample and is a sync
/// sample.
pub open spec fn video_first_flags() -> SampleFlags {
    SampleFlags {
        is_leading: 0,
        sample_depends_on: 2,
        sample_is_depdended_on: 0,
        sample_has_redundancy: 0,
        sample_padding_value: 0,
        sample_is_non_sync_sample: false,
        sample_degradation_priority: 0,
    }
}

/// The size of the box `moof` of a media segment with the given video and audio samples:
/// 156 bytes and the fields of the samples.
pub open spec fn moof_size(video: Seq<Sample>, audio: Seq<Sample>) -> nat {
    156 + samples_encoding(video).len() + samples_encoding(audio).len()
}

/// The offset of the video data from the first byte of the box `moof`: the data follow
/// the box `moof` and the header of the first box `mdat`.
pub open spec fn video_data_offset(video: VideoTrack, audio: AudioTrack) -> nat {
    moof_size(video.samples, audio.samples) + 8
}

/// The offset of the audio data from the first byte of the box `moof`: the data follow
/// the box `moof`, the first box `mdat` with the video data, and the header of the second
/// box `mdat`.
pub open spec fn audio_data_offset(video: VideoTrack, audio: AudioTrack) -> nat {
    moof_size(video.samples, audio.samples) + 8 + video.data.len() + 8
}

/// Tells whether a media segment can be made for the two tracks: in each track all
/// samples have the fields that the first has, there are at most 2^32 - 1 samples, and
/// both data offsets fit in 32 bits with sign.
pub open spec fn media_segment_fits(video: VideoTrack, audio: AudioTrack) -> bool {
    &&& samples_agree(video.samples)
    &&& samples_agree(audio.samples)
    &&& video.samples.len() <= u32::MAX
    &&& audio.samples.len() <= u32::MAX
    &&& audio_data_offset(video, audio) <= i32::MAX
}

/// Tells whether `header` is a track fragment header of the track `track_id` with the
/// given defaults and nothing else.
pub open spec fn is_track_fragment_header(
    header: TrackFragmentHeaderBox,
    track_id: u32,
    default_sample_duration: Option<u32>,
    default_sample_flags: Option<SampleFlags>,
) -> bool {
    &&& header.track_id == track_id
    &&& !header.duration_is_empty
    &&& header.default_base_is_moof
    &&& header.base_data_offset is None
    &&& header.sample_description_index is None
    &&& header.default_sample_duration == default_sample_duration
    &&& header.default_sample_size is None
    &&& header.default_sample_flags == default_sample_flags
}

/// Tells whether `moof` has the shape of the box `moof` of a media segment: the first
/// fragment, with a track fragment for video and one for audio, each with a data offset.
pub open spec fn is_movie_fragment(moof: MovieFragmentBox) -> bool {
    &&& moof.mfhd_box.sequence_number == 1
    &&& moof.traf_boxes@.len() == 2
    &&& is_track_fragment_header(
        moof.traf_boxes@[0].tfhd_box,
        VIDEO_TRACK_ID,
        None,
        Some(video_default_flags()),
    )
    &&& moof.traf_boxes@[0].trun_box.data_offset is Some
    &&& moof.traf_boxes@[0].trun_box.first_sample_flags == Some(video_first_flags())
    &&& is_track_fragment_header(moof.traf_boxes@[1].tfhd_box, AUDIO_TRACK_ID, Some(1024), None)
    &&& moof.traf_boxes@[1].trun_box.data_offset is Some
    &&& moof.traf_boxes@[1].trun_box.first_sample_flags is None
}

/// Tells whether `segment` is the media segment of the two tracks: the box `moof` with the
/// samples of the two tracks and the offsets of their data, and two boxes `mdat` with
/// the data.
pub open spec fn is_media_segment(segment: MediaSegment, video: VideoTrack, audio: AudioTrack) -> bool {
    &&& is_movie_fragment(segment.moof_box)
    &&& segment.moof_box.traf_boxes@[0].trun_box.samples@ == video.samples
    &&& segment.moof_box.traf_boxes@[0].trun_box.data_offset == Some(
        video_data_offset(video, audio) as i32,
    )
    &&& segment.moof_box.traf_boxes@[1].trun_box.samples@ == audio.samples
    &&& segment.moof_box.traf_boxes@[1].trun_box.data_offset == Some(
        audio_data_offset(video, audio) as i32,
    )
    &&& segment.mdat_boxes@.len() == 2
    &&& segment.mdat_boxes@[0].data@ == video.data
    &&& segment.mdat_boxes@[1].data@ == audio.data
}

/// The size of a track run with a data offset: 20 bytes, 4 more with flags of the first
/// sample, and the fields of the samples. More than 2^32 - 1 samples, samples that do not
/// agree on their fields, and a size above 2^32 - 1 are `InvalidInput`.
pub proof fn lemma_track_run_size(trun: &TrackRunBox)
    requires
        trun.data_offset is Some,
    ensures
        ({
            let size = 20 + (if trun.first_sample_flags is Some {
                4nat
            } else {
                0nat
            }) + samples_encoding(trun.samples@).len();
            if trun.samples@.len() <= u32::MAX && samples_agree(trun.samples@) && size <= u32::MAX {
                encoding_of(trun) is Ok && encoding_of(trun)->Ok_0.len() == size
            } else {
                encoding_of(trun) == Err::<Seq<u8>, ErrorKind>(ErrorKind::InvalidInput)
            }
        }),
{
    lemma_box_encoding(trun);
}

/// The size of a track fragment of a media segment: what its header, its decode time and
/// its track run take.
#[verifier::rlimit(40)]
pub proof fn lemma_track_fragment_size(traf: &TrackFragmentBox)
    requires
        traf.trun_box.data_offset is Some,
        traf.tfhd_box.base_data_offset is None,
        traf.tfhd_box.sample_description_index is None,
        traf.tfhd_box.default_sample_size is None,
        traf.tfhd_box.default_sample_duration is Some != traf.tfhd_box.default_sample_flags is Some,
    ensures
        ({
            let size = 64 + (if traf.trun_box.first_sample_flags is Some {
                4nat
            } else {
                0nat
            }) + samples_encoding(traf.trun_box.samples@).len();
            if traf.trun_box.samples@.len() <= u32::MAX && samples_agree(traf.trun_box.samples@)
                && size <= u32::MAX {
                encoding_of(traf) is Ok && encoding_of(traf)->Ok_0.len() == size
            } else {
                encoding_of(traf) == Err::<Seq<u8>, ErrorKind>(ErrorKind::InvalidInput)
            }
        }),
{
    lemma_track_run_size(&traf.trun_box);
    lemma_box_encoding(&traf.tfhd_box);
    lemma_box_encoding(&traf.tfdt_box);
    lemma_box_encoding(traf);
    assert(encoding_of(&traf.tfhd_box) is Ok && encoding_of(&traf.tfhd_box)->Ok_0.len() == 20);
    assert(encoding_of(&traf.tfdt_box) is Ok && encoding_of(&traf.tfdt_box)->Ok_0.len() == 16);
}

/// The size of the box `moof` of a media segment is [`moof_size`]. More than 2^32 - 1
/// samples in a track, samples that do not agree on their fields, and a size above
/// 2^32 - 1 are `InvalidInput`.
#[verifier::rlimit(40)]
pub proof fn lemma_movie_fragment_size(moof: &MovieFragmentBox)
    requires
        is_movie_fragment(*moof),
    ensures
        ({
            let video = moof.traf_boxes@[0].trun_box.samples@;
            let audio = moof.traf_boxes@[1].trun_box.samples@;
            if video.len() <= u32::MAX && audio.len() <= u32::MAX && samples_agree(video)
                && samples_agree(audio) && moof_size(video, audio) <= u32::MAX {
                encoding_of(moof) is Ok && encoding_of(moof)->Ok_0.len() == moof_size(video, audio)
            } else {
                encoding_of(moof) == Err::<Seq<u8>, ErrorKind>(ErrorKind::InvalidInput)
            }
        }),
{
    let trafs = moof.traf_boxes@;
    lemma_track_fragment_size(&trafs[0]);
    lemma_track_fragment_size(&trafs[1]);
    lemma_boxes_encoding_two(trafs);
    lemma_box_encoding(&moof.mfhd_box);
    lemma_box_encoding(moof);
    assert(encoding_of(&moof.mfhd_box) is Ok && encoding_of(&moof.mfhd_box)->Ok_0.len() == 16);
}

/// Tells whether the data offsets of the two track runs of `segment` lead to the data of
/// the two boxes `mdat`: the first is the size of the box `moof` and the eight bytes of
/// the header of the first box `mdat`; the second is the first, the length of the data of
/// the first box `mdat`, and the eight bytes of the header of the second box `mdat`.
pub open spec fn has_data_offsets(segment: MediaSegment) -> bool {
    &&& segment.moof_box.traf_boxes@.len() == 2
    &&& segment.mdat_boxes@.len() == 2
    &&& crate::fmp4::common::box_size(
        segment.moof_box.version(),
        segment.moof_box.flags(),
        segment.moof_box.payload(),
    ) matches Ok(size) && {
        &&& size + 8 + segment.mdat_boxes@[0].data@.len() + 8 <= i32::MAX
        &&& segment.moof_box.traf_boxes@[0].trun_box.data_offset == Some((size + 8) as i32)
        &&& segment.moof_box.traf_boxes@[1].trun_box.data_offset == Some(
            (size + 8 + segment.mdat_boxes@[0].data@.len() + 8) as i32,
        )
    }
}

/// The data offsets of the media segment of two tracks are counted from the first byte
/// of the box `moof`, by the size of that box.
pub proof fn lemma_media_segment_offsets(
    segment: MediaSegment,
    video: VideoTrack,
    audio: AudioTrack,
)
    requires
        is_media_segment(segment, video, audio),
        media_segment_fits(video, audio),
    ensures
        has_data_offsets(segment),
{
    lemma_movie_fragment_size(&segment.moof_box);
    lemma_encoding_len(&segment.moof_box);
}

/// Makes the media segment of the two streams. Streams for which none can be made are
/// `InvalidInput`: see [`media_segment_fits`].
#[verifier::rlimit(40)]
pub fn make_media_segment(avc_stream: AvcStream, aac_stream: AacStream) -> (r: Result<
    MediaSegment,
    Error,
>)
    ensures
        media_segment_fits(avc_stream@, aac_stream@) ==> r is Ok && is_media_segment(
            r->Ok_0,
            avc_stream@,
            aac_stream@,
        ),
        !media_segment_fits(avc_stream@, aac_stream@) ==> r is Err && r->Err_0 == (Error {
            kind: ErrorKind::InvalidInput,
        }),
        r matches Ok(segment) ==> has_data_offsets(segment),
{
    let mut segment = MediaSegment::new();

    // video traf
    let mut traf = TrackFragmentBox::new(true);
    traf.tfhd_box.default_sample_flags = Some(
        SampleFlags {
            is_leading: 0,
            sample_depends_on: 1,
            sample_is_depdended_on: 0,
            sample_has_redundancy: 0,
            sample_padding_value: 0,
            sample_is_non_sync_sample: true,
            sample_degradation_priority: 0,
        },
    );
    traf.trun_box.data_offset = Some(0);  // dummy
    traf.trun_box.first_sample_flags = Some(
        SampleFlags {
            is_leading: 0,
            sample_depends_on: 2,
            sample_is_depdended_on: 0,
            sample_has_redundancy: 0,
            sample_padding_value: 0,
            sample_is_non_sync_sample: false,
            sample_degradation_priority: 0,
        },
    );
    traf.trun_box.samples = avc_stream.samples;
    segment.moof_box.traf_boxes.push(traf);

    // audio traf
    let mut traf = TrackFragmentBox::new(false);
    traf.tfhd_box.default_sample_duration = Some(SAMPLES_IN_FRAME as u32);
    traf.trun_box.data_offset = Some(0);  // dummy
    traf.trun_box.samples = aac_stream.samples;
    segment.moof_box.traf_boxes.push(traf);

    // mdat and offsets adjustment
    proof {
        lemma_movie_fragment_size(&segment.moof_box);
        lemma_encoding_len(&segment.moof_box);
    }
    let moof_size = match segment.moof_box.box_size() {
        Ok(size) => size,
        Err(_) => {
            return Err(Error::new(ErrorKind::InvalidInput));
        },
    };
    if moof_size > 0x7FFF_FFFF - 16 || avc_stream.data.len() > (0x7FFF_FFFF - 16 - moof_size) as usize {
        return Err(Error::new(ErrorKind::InvalidInput));
    }
    let video_offset = moof_size + 8;
    let audio_offset = video_offset + avc_stream.data.len() as u32 + 8;
    segment.moof_box.traf_boxes[0].trun_box.data_offset = Some(video_offset as i32);
    segment.mdat_boxes.push(MediaDataBox { data: avc_stream.data });
    segment.moof_box.traf_boxes[1].trun_box.data_offset = Some(audio_offset as i32);
    segment.mdat_boxes.push(MediaDataBox { data: aac_stream.data });
    proof {
        lemma_media_segment_offsets(segment, avc_stream@, aac_stream@);
    }
    Ok(segment)
}

/// Tells whether `bytes` holds `data` from the position `offset` on.
pub open spec fn holds_at(bytes: Seq<u8>, offset: int, data: Seq<u8>) -> bool {
    0 <= offset && offset + data.len() <= bytes.len() && bytes.subrange(
        offset,
        offset + data.len(),
    ) == data
}

/// The media segment of two tracks can be written unless the audio data are too long for
/// a box, and is serialized as the box `moof` and, each behind the eight bytes of the
/// header of its box `mdat`, the video data and the audio data.
#[verifier::rlimit(40)]
pub proof fn lemma_media_segment_encoding(
    segment: MediaSegment,
    video: VideoTrack,
    audio: AudioTrack,
)
    requires
        is_media_segment(segment, video, audio),
        media_segment_fits(video, audio),
    ensures
        segment.encoding() is Ok <==> audio.data.len() + 8 <= u32::MAX,
        segment.encoding() matches Ok(bytes) ==> {
            &&& encoding_of(&segment.moof_box) matches Ok(moof) && moof.len() == moof_size(
                video.samples,
                audio.samples,
            ) && moof.is_prefix_of(bytes)
            &&& bytes.len() == moof_size(video.samples, audio.samples) + 8 + video.data.len() + 8
                + audio.data.len()
        },
{
    let mdats = segment.mdat_boxes@;
    lemma_movie_fragment_size(&segment.moof_box);
    lemma_boxes_encoding_two(mdats);
    lemma_box_encoding(&mdats[0]);
    lemma_box_encoding(&mdats[1]);
}

/// In a serialized media segment, which begins with the box `moof`, the data offset of
/// each track run leads to the data of its track.
#[verifier::rlimit(40)]
pub proof fn lemma_data_offsets(segment: MediaSegment, video: VideoTrack, audio: AudioTrack)
    requires
        is_media_segment(segment, video, audio),
        media_segment_fits(video, audio),
        segment.encoding() is Ok,
    ensures
        holds_at(
            segment.encoding()->Ok_0,
            segment.moof_box.traf_boxes@[0].trun_box.data_offset->Some_0 as int,
            video.data,
        ),
        holds_at(
            segment.encoding()->Ok_0,
            segment.moof_box.traf_boxes@[1].trun_box.data_offset->Some_0 as int,
            audio.data,
        ),
{
    let mdats = segment.mdat_boxes@;
    lemma_movie_fragment_size(&segment.moof_box);
    lemma_boxes_encoding_two(mdats);
    lemma_media_data(&mdats[0]);
    lemma_media_data(&mdats[1]);
    let moof = encoding_of(&segment.moof_box)->Ok_0;
    let first = encoding_of(&mdats[0])->Ok_0;
    let second = encoding_of(&mdats[1])->Ok_0;
    let bytes = segment.encoding()->Ok_0;
    assert(bytes == moof + (first + second));
    lemma_holds_at(moof, first, second, 8, video.data);
    lemma_holds_at(moof + first, second, Seq::<u8>::empty(), 8, audio.data);
    assert((moof + first) + second + Seq::<u8>::empty() =~= bytes);
    assert(moof + first + second =~= bytes);
}

/// The data of a serialized box `mdat` stand behind its header of eight bytes.
pub proof fn lemma_media_data(mdat: &MediaDataBox)
    requires
        encoding_of(mdat) is Ok,
    ensures
        encoding_of(mdat)->Ok_0.len() == 8 + mdat.data@.len(),
        holds_at(encoding_of(mdat)->Ok_0, 8, mdat.data@),
{
    lemma_box_encoding(mdat);
}

/// What a part of a byte sequence holds, the sequence holds behind what stands before
/// that part.
pub proof fn lemma_holds_at(
    before: Seq<u8>,
    part: Seq<u8>,
    after: Seq<u8>,
    offset: int,
    data: Seq<u8>,
)
    requires
        holds_at(part, offset, data),
    ensures
        holds_at(before + part + after, before.len() + offset, data),
{
    let all = before + part + after;
    assert(all.subrange(before.len() + offset, before.len() + offset + data.len())
        =~= part.subrange(offset, offset + data.len()));
}

/// Tells whether `p` is a packet of H.264 video with timestamps that fit in 33 bits.
pub open spec fn is_video_packet(p: PesPacket) -> bool {
    &&& p.stream_type == Some(STREAM_TYPE_H264)
    &&& is_video_id(p.stream_id)
    &&& p.pts matches Some(pts) && pts < TIMESTAMP_MODULUS
    &&& p.dts matches Some(dts) ==> dts < TIMESTAMP_MODULUS
}

/// Tells whether `p` is a packet of ADTS AAC audio with a presentation timestamp.
pub open spec fn is_audio_packet(p: PesPacket) -> bool {
    &&& p.stream_type == Some(STREAM_TYPE_ADTS_AAC)
    &&& is_audio_id(p.stream_id)
    &&& p.pts is Some
}

/// Tells whether `units[k]` is the first sequence parameter set among `units`, each unit
/// before it having a header of another type.
pub open spec fn is_first_sps(units: Seq<Seq<u8>>, k: int) -> bool {
    &&& 0 <= k < units.len()
    &&& nal_header(units[k]) matches Ok(header) && header.nal_unit_type
        == NalUnitType::SequenceParameterSet
    &&& forall|j: int|
        0 <= j < k ==> (nal_header(#[trigger] units[j]) matches Ok(header)
            && header.nal_unit_type != NalUnitType::SequenceParameterSet)
}

/// Units without a sequence parameter set, each with a header that can be read, are gone
/// through without finding one.
proof fn lemma_scan_before_sps(units: Seq<Seq<u8>>, k: int)
    requires
        0 <= k <= units.len(),
        forall|j: int|
            0 <= j < k ==> (nal_header(#[trigger] units[j]) matches Ok(header)
                && header.nal_unit_type != NalUnitType::SequenceParameterSet),
    ensures
        scan_units(units.take(k)) matches Ok(found) && found.sps is None,
    decreases k,
{
    if k > 0 {
        lemma_scan_before_sps(units, k - 1);
        assert(units.take(k).drop_last() =~= units.take(k - 1));
        assert(units.take(k).last() == units[k - 1]);
    }
}

/// While no video packet comes, there is no video track.
pub proof fn lemma_intake_without_video(packets: Seq<PesPacket>)
    requires
        forall|i: int| 0 <= i < packets.len() ==> !is_video_id((#[trigger] packets[i]).stream_id),
    ensures
        intake(packets) matches Ok(s) ==> s.video is None,
    decreases packets.len(),
{
    if packets.len() > 0 {
        let before = packets.drop_last();
        assert forall|i: int| 0 <= i < before.len() implies !is_video_id(
            (#[trigger] before[i]).stream_id,
        ) by {
            assert(before[i] == packets[i]);
        }
        lemma_intake_without_video(before);
        assert(!is_video_id(packets[packets.len() - 1].stream_id));
    }
}

/// A transport stream without video packets cannot be converted: where all its packets
/// can be taken in, it is `InvalidInput`, and else it has the error of the first packet
/// that cannot.
pub proof fn lemma_stream_without_video(packets: Seq<PesPacket>)
    requires
        forall|i: int| 0 <= i < packets.len() ==> !is_video_id((#[trigger] packets[i]).stream_id),
    ensures
        match intake(packets) {
            Ok(_) => avc_aac_tracks(packets) == Err::<(VideoTrack, AudioTrack), ErrorKind>(
                ErrorKind::InvalidInput,
            ),
            Err(kind) => avc_aac_tracks(packets) == Err::<(VideoTrack, AudioTrack), ErrorKind>(
                kind,
            ),
        },
{
    lemma_intake_without_video(packets);
}

/// A transport stream cannot be converted if the first sequence parameter set of its
/// first video packet has a high profile: it is `Unsupported`. The packets before that
/// packet are taken in, and the first field behind the profile of the parameter set can
/// be read.
#[verifier::rlimit(40)]
pub proof fn lemma_high_profile_is_unsupported(packets: Seq<PesPacket>, n: int, k: int)
    requires
        0 <= n < packets.len(),
        intake(packets.take(n)) matches Ok(s) && s.video is None,
        is_video_packet(packets[n]),
        nal_units(packets[n].data@) matches Ok(units) && {
            &&& is_first_sps(units, k)
            &&& units[k].len() >= 4
            &&& is_high_profile(units[k][1])
            &&& ue_decode(bits(units[k].subrange(4, units[k].len() as int)), 0) is Ok
        },
    ensures
        avc_aac_tracks(packets) == Err::<(VideoTrack, AudioTrack), ErrorKind>(
            ErrorKind::Unsupported,
        ),
{
    let p = packets[n];
    let units = nal_units(p.data@)->Ok_0;
    let unit = units[k];
    let sps = unit.subrange(1, unit.len() as int);
    assert(sps.subrange(3, sps.len() as int) =~= unit.subrange(4, unit.len() as int));
    assert(sps[0] == unit[1]);
    assert(sps_summary(sps) == Err::<SpsSummary, ErrorKind>(ErrorKind::Unsupported));
    lemma_scan_before_sps(units, k);
    assert(units.take(k + 1).drop_last() =~= units.take(k));
    assert(units.take(k + 1).last() == unit);
    assert(scan_units(units.take(k + 1)) == Err::<ParameterSets, ErrorKind>(
        ErrorKind::Unsupported,
    ));
    lemma_scan_units_prefix(units, k + 1);
    assert(video_configuration(p.data@) == Err::<VideoConfiguration, ErrorKind>(
        ErrorKind::Unsupported,
    ));
    let s = intake(packets.take(n))->Ok_0;
    assert(packets.take(n + 1).drop_last() =~= packets.take(n));
    assert(packets.take(n + 1).last() == p);
    assert(intake_step(s, p) == Err::<IntakeState, ErrorKind>(ErrorKind::Unsupported));
    lemma_intake_prefix(packets, n + 1);
}

/// The tracks of a transport stream with one video packet and, behind it, one audio
/// packet that holds one ADTS frame: each track has one sample; the audio sample has the
/// size of the raw data blocks of the frame, which are the audio data; and the video
/// sample has the size of the video data. With video data of less than 2 GiB both
/// segments can be made of the tracks.
#[verifier::rlimit(80)]
pub proof fn lemma_one_sample_each(packets: Seq<PesPacket>)
    requires
        packets.len() == 2,
        is_video_packet(packets[0]),
        video_configuration(packets[0].data@) is Ok,
        video_payload(packets[0].data@) is Ok,
        is_audio_packet(packets[1]),
        adts_header(packets[1].data@) matches Ok(header) && header.frame_len
            == packets[1].data@.len(),
    ensures
        avc_aac_tracks(packets) matches Ok((video, audio)) && {
            &&& video.samples.len() == 1
            &&& video.samples[0].size == Some(video.data.len() as u32)
            &&& video.data == video_payload(packets[0].data@)->Ok_0
            &&& audio.samples.len() == 1
            &&& audio.samples[0].size == Some((packets[1].data@.len() - 7) as u32)
            &&& audio.data == packets[1].data@.subrange(7, packets[1].data@.len() as int)
            &&& audio.header == adts_header(packets[1].data@)->Ok_0
            &&& initialization_fits(video, audio)
            &&& video.data.len() <= 0x7FFF_FF00 ==> media_segment_fits(video, audio)
        },
{
    let video_packet = packets[0];
    let audio_packet = packets[1];
    let data = audio_packet.data@;
    let header = adts_header(data)->Ok_0;
    reveal_with_fuel(intake, 3);
    reveal_with_fuel(audio_frames, 2);
    assert(packets.drop_last().drop_last() =~= Seq::<PesPacket>::empty());
    assert(packets.drop_last().last() == video_packet);
    assert(packets.last() == audio_packet);
    let pts = video_packet.pts->Some_0;
    let dts = match video_packet.dts {
        Some(dts) => dts,
        None => pts,
    };
    let first = video_step(intake_start(), pts, dts, video_packet.data@);
    assert(first is Ok);
    assert(intake(packets.drop_last()) == first);
    let s1 = first->Ok_0;
    assert(s1.timestamps =~= seq![0u64]);
    assert(s1.video->Some_0.samples.len() == 1);
    assert(s1.video->Some_0.data =~= video_payload(video_packet.data@)->Ok_0);
    // the one frame of the audio packet
    assert(data.subrange(header.frame_len as int, data.len() as int) =~= Seq::<u8>::empty());
    assert(audio_frames(Seq::<u8>::empty(), header) == Ok::<(Seq<Sample>, Seq<u8>), ErrorKind>(
        (Seq::empty(), Seq::empty()),
    ));
    let frames = audio_frames(data, header);
    assert(frames is Ok);
    assert(frames->Ok_0.0 =~= seq![audio_sample((header.frame_len - 7) as u32)]);
    assert(frames->Ok_0.1 =~= data.subrange(7, data.len() as int));
    let second = audio_step(s1, data);
    assert(second is Ok);
    assert(intake(packets) == second);
    let s2 = second->Ok_0;
    assert(s2.audio->Some_0.samples =~= seq![audio_sample((header.frame_len - 7) as u32)]);
    assert(s2.audio->Some_0.data =~= data.subrange(7, data.len() as int));
    // the duration of the one video sample
    let samples = s2.video->Some_0.samples;
    let ts = s2.timestamps;
    assert forall|i: int| 0 <= i < ts.len() implies !(#[trigger] duration_overflows(ts, i)) by {}
    let resolved = resolved_samples(samples, ts);
    assert(resolved is Ok);
    let video = VideoTrack { samples: resolved->Ok_0, ..s2.video->Some_0 };
    let audio = s2.audio->Some_0;
    assert(avc_aac_tracks(packets) == Ok::<(VideoTrack, AudioTrack), ErrorKind>((video, audio)));
    assert(video.samples.len() == 1);
    assert(video.samples[0] == resolved_sample(samples, ts, 0));
    // both segments can be made
    reveal_with_fuel(durations_sum, 2);
    assert(video.samples.drop_last() =~= Seq::<Sample>::empty());
    assert(video_duration(video.samples) is Ok);
    assert(samples_agree(video.samples));
    assert(samples_agree(audio.samples));
    lemma_samples_encoding_len(video.samples);
    lemma_samples_encoding_len(audio.samples);
}

/// Converts the PES packets `packets` of a transport stream into the initialization
/// segment and the media segment of a fragmented MP4.
///
/// The packets are taken in as [`avc_aac_tracks`] says, and their error is the error of
/// the conversion. Tracks for which one of the segments cannot be made are `InvalidInput`.
pub fn to_fmp4(packets: &Vec<PesPacket>) -> (r: Result<(InitializationSegment, MediaSegment), Error>)
    ensures
        match avc_aac_tracks(packets@) {
            Err(kind) => r is Err && r->Err_0 == (Error { kind }),
            Ok((video, audio)) => if initialization_fits(video, audio) && media_segment_fits(
                video,
                audio,
            ) {
                r is Ok && is_initialization_segment(r->Ok_0.0, video, audio) && is_media_segment(
                    r->Ok_0.1,
                    video,
                    audio,
                ) && has_data_offsets(r->Ok_0.1)
            } else {
                r is Err && r->Err_0 == (Error { kind: ErrorKind::InvalidInput })
            },
        },
{
    let (avc_stream, aac_stream) = read_avc_aac_stream(packets)?;
    let initialization_segment = make_initialization_segment(&avc_stream, &aac_stream)?;
    let media_segment = make_media_segment(avc_stream, aac_stream)?;
    Ok((initialization_segment, media_segment))
}

/// What a reader of TS packets keeps track of to tell the stream type of a PES packet:
/// the stream type of each PID that a program map table has named, and the PID that has
/// carried each stream identifier.
pub struct TsPacketReader {
    pid_to_stream_type: HashMap<u16, u8>,
    stream_id_to_pid: HashMap<u8, u16>,
}

impl TsPacketReader {
    /// The stream type of each PID that a program map table has named.
    pub closed spec fn stream_types(&self) -> Map<u16, u8> {
        self.pid_to_stream_type@
    }

    /// The PID that has carried each stream identifier.
    pub closed spec fn pids(&self) -> Map<u8, u16> {
        self.stream_id_to_pid@
    }

    /// The stream type of the stream `stream_id`: that of the PID which has carried it, if
    /// a PID has and a program map table has named it.
    pub open spec fn stream_type(&self, stream_id: u8) -> Option<u8> {
        if self.pids().contains_key(stream_id) && self.stream_types().contains_key(
            self.pids()[stream_id],
        ) {
            Some(self.stream_types()[self.pids()[stream_id]])
        } else {
            None
        }
    }

    /// Makes a reader that has seen no packet.
    pub fn new() -> (r: Self)
        ensures
            r.stream_types() == Map::<u16, u8>::empty(),
            r.pids() == Map::<u8, u16>::empty(),
    {
        TsPacketReader { pid_to_stream_type: HashMap::new(), stream_id_to_pid: HashMap::new() }
    }

    /// Returns the stream type of the stream `stream_id`.
    pub fn get_stream_type(&self, stream_id: u8) -> (t: Option<u8>)
        ensures
            t == self.stream_type(stream_id),
    {
        match self.stream_id_to_pid.get(&stream_id) {
            Some(pid) => match self.pid_to_stream_type.get(pid) {
                Some(stream_type) => Some(*stream_type),
                None => None,
            },
            None => None,
        }
    }

    /// Takes note of an entry of a program map table: the elementary stream with the PID
    /// `elementary_pid` has the type `stream_type`.
    pub fn record_pmt_entry(&mut self, elementary_pid: u16, stream_type: u8)
        ensures
            final(self).stream_types() == old(self).stream_types().insert(
                elementary_pid,
                stream_type,
            ),
            final(self).pids() == old(self).pids(),
    {
        self.pid_to_stream_type.insert(elementary_pid, stream_type);
    }

    /// Takes note of a TS packet with the PID `pid` that holds the beginning of a PES packet
    /// of the stream `stream_id`. A PID that no program map table has named is passed
    /// over.
    pub fn record_pes(&mut self, stream_id: u8, pid: u16)
        ensures
            final(self).stream_types() == old(self).stream_types(),
            final(self).pids() == if old(self).stream_types().contains_key(pid) {
                old(self).pids().insert(stream_id, pid)
            } else {
                old(self).pids()
            },
    {
        if self.pid_to_stream_type.contains_key(&pid) {
            self.stream_id_to_pid.insert(stream_id, pid);
        }
    }
}

} // verus!
