//! The boxes of a media segment.

use crate::error::{Error, ErrorKind};
use crate::fmp4::common::{
    boxes_encoding, counted_size, encoding_of, payload_size, size_of_box, size_of_boxes,
    write_boxes, Mp4Box, AUDIO_TRACK_ID, VIDEO_TRACK_ID,
};
use crate::io::{
    i32_be, followed_by, u32_be, u64_be, write_all, write_i32, write_u32, write_u64, ByteCounter, ByteSink,
    Encoding,
    WriteTo,
};
use vstd::prelude::*;

verus! {

/// The encoding of `v` if it is there, and nothing if it is not.
pub open spec fn opt_u32_be(v: Option<u32>) -> Seq<u8> {
    match v {
        Some(n) => u32_be(n),
        None => Seq::empty(),
    }
}

/// The encoding of `v` if it is there, and nothing if it is not.
pub open spec fn opt_i32_be(v: Option<i32>) -> Seq<u8> {
    match v {
        Some(n) => i32_be(n),
        None => Seq::empty(),
    }
}

/// The encoding of `v` if it is there, and nothing if it is not.
pub open spec fn opt_u64_be(v: Option<u64>) -> Seq<u8> {
    match v {
        Some(n) => u64_be(n),
        None => Seq::empty(),
    }
}

/// The encoding of the packed flags `v` if they are there, and nothing if they are not.
pub open spec fn opt_flags_be(v: Option<SampleFlags>) -> Seq<u8> {
    match v {
        Some(f) => u32_be(f.packed()),
        None => Seq::empty(),
    }
}

/// `bit` if `present`, else 0.
pub open spec fn flag(present: bool, bit: u32) -> u32 {
    if present {
        bit
    } else {
        0
    }
}

/// Returns `bit` if `present`, else 0.
fn flag_bit(present: bool, bit: u32) -> (n: u32)
    ensures
        n == flag(present, bit),
{
    if present {
        bit
    } else {
        0
    }
}

/// Appends `v` if it is there.
fn write_opt_u32<S: ByteSink>(sink: &mut S, v: Option<u32>)
    ensures
        final(sink).written() == old(sink).written() + opt_u32_be(v),
{
    match v {
        Some(n) => write_u32(sink, n),
        None => assert(sink.written() =~= sink.written() + Seq::<u8>::empty()),
    }
}

/// Appends `v` if it is there.
fn write_opt_i32<S: ByteSink>(sink: &mut S, v: Option<i32>)
    ensures
        final(sink).written() == old(sink).written() + opt_i32_be(v),
{
    match v {
        Some(n) => write_i32(sink, n),
        None => assert(sink.written() =~= sink.written() + Seq::<u8>::empty()),
    }
}

/// Appends `v` if it is there.
fn write_opt_u64<S: ByteSink>(sink: &mut S, v: Option<u64>)
    ensures
        final(sink).written() == old(sink).written() + opt_u64_be(v),
{
    match v {
        Some(n) => write_u64(sink, n),
        None => assert(sink.written() =~= sink.written() + Seq::<u8>::empty()),
    }
}

/// Appends the packed flags `v` if they are there.
fn write_opt_flags<S: ByteSink>(sink: &mut S, v: Option<SampleFlags>)
    ensures
        final(sink).written() == old(sink).written() + opt_flags_be(v),
{
    match v {
        Some(f) => write_u32(sink, f.to_u32()),
        None => assert(sink.written() =~= sink.written() + Seq::<u8>::empty()),
    }
}

/// 8.8.8.1 Flags for a sample (ISO/IEC 14496-12).
#[derive(Debug, Clone, Copy, PartialEq, Eq, Hash, Structural)]
pub struct SampleFlags {
    /// `is_leading` (2 bits).
    pub is_leading: u8,
    /// `sample_depends_on` (2 bits).
    pub sample_depends_on: u8,
    /// `sample_is_depended_on` (2 bits).
    pub sample_is_depdended_on: u8,
    /// `sample_has_redundancy` (2 bits).
    pub sample_has_redundancy: u8,
    /// `sample_padding_value` (3 bits).
    pub sample_padding_value: u8,
    /// `sample_is_non_sync_sample`.
    pub sample_is_non_sync_sample: bool,
    /// `sample_degradation_priority`.
    pub sample_degradation_priority: u16,
}

impl SampleFlags {
    /// The flags packed in 32 bits: from bit 26 down `is_leading`, from bit 24
    /// `sample_depends_on`, from bit 22 `sample_is_depended_on`, from bit 20
    /// `sample_has_redundancy`, from bit 17 `sample_padding_value`, bit 16
    /// `sample_is_non_sync_sample`, and the low 16 bits `sample_degradation_priority`.
    pub open spec fn packed(self) -> u32 {
        ((self.is_leading as u32) << 26) | ((self.sample_depends_on as u32) << 24) | ((
        self.sample_is_depdended_on as u32) << 22) | ((self.sample_has_redundancy as u32) << 20) | ((
        self.sample_padding_value as u32) << 17) | (flag(self.sample_is_non_sync_sample, 1) << 16) | (
        self.sample_degradation_priority as u32)
    }

    /// Tells whether each field fits in the bits it has.
    pub open spec fn in_range(self) -> bool {
        &&& self.is_leading <= 3
        &&& self.sample_depends_on <= 3
        &&& self.sample_is_depdended_on <= 3
        &&& self.sample_has_redundancy <= 3
        &&& self.sample_padding_value <= 7
    }

    /// Returns the flags packed in 32 bits.
    pub fn to_u32(&self) -> (n: u32)
        ensures
            n == self.packed(),
    {
        ((self.is_leading as u32) << 26) | ((self.sample_depends_on as u32) << 24) | ((
        self.sample_is_depdended_on as u32) << 22) | ((self.sample_has_redundancy as u32) << 20) | ((
        self.sample_padding_value as u32) << 17) | (flag_bit(self.sample_is_non_sync_sample, 1) << 16)
            | (self.sample_degradation_priority as u32)
    }

    /// Where each field fits in its bits, the packed flags are the sum of the fields, each
    /// multiplied by the weight of its lowest bit, and the four bits on top are 0.
    pub proof fn lemma_packed_in_range(self)
        requires
            self.in_range(),
        ensures
            self.packed() == self.is_leading * 0x400_0000 + self.sample_depends_on * 0x100_0000
                + self.sample_is_depdended_on * 0x40_0000 + self.sample_has_redundancy * 0x10_0000
                + self.sample_padding_value * 0x2_0000 + flag(self.sample_is_non_sync_sample, 1)
                * 0x1_0000 + self.sample_degradation_priority,
            self.packed() < 0x1000_0000,
    {
        let a = self.is_leading as u32;
        let b = self.sample_depends_on as u32;
        let c = self.sample_is_depdended_on as u32;
        let d = self.sample_has_redundancy as u32;
        let e = self.sample_padding_value as u32;
        let f = flag(self.sample_is_non_sync_sample, 1);
        let g = self.sample_degradation_priority as u32;
        assert((a << 26) | (b << 24) | (c << 22) | (d << 20) | (e << 17) | (f << 16) | g == a
            * 0x400_0000 + b * 0x100_0000 + c * 0x40_0000 + d * 0x10_0000 + e * 0x2_0000 + f
            * 0x1_0000 + g) by (bit_vector)
            requires
                a <= 3,
                b <= 3,
                c <= 3,
                d <= 3,
                e <= 7,
                f <= 1,
                g <= 0xFFFF,
        ;
    }
}

/// 8.8.8.2 A sample (ISO/IEC 14496-12).
#[derive(Debug, Clone, Copy, PartialEq, Eq, Hash)]
pub struct Sample {
    /// The duration in ticks of the media timescale.
    pub duration: Option<u32>,
    /// The size in bytes.
    pub size: Option<u32>,
    /// The flags.
    pub flags: Option<SampleFlags>,
    /// The composition time offset.
    pub composition_time_offset: Option<i32>,
}

impl Sample {
    /// The flags of a track run that say which fields a sample has: `0x100` for a
    /// duration, `0x200` for a size, `0x400` for flags and `0x800` for a composition time
    /// offset.
    pub open spec fn box_flags(self) -> u32 {
        (flag(self.duration is Some, 0x100) + flag(self.size is Some, 0x200) + flag(
            self.flags is Some,
            0x400,
        ) + flag(self.composition_time_offset is Some, 0x800)) as u32
    }

    /// The fields that the sample has, in the order duration, size, flags, composition
    /// time offset.
    pub open spec fn encoding(self) -> Seq<u8> {
        opt_u32_be(self.duration) + opt_u32_be(self.size) + opt_flags_be(self.flags) + opt_i32_be(
            self.composition_time_offset,
        )
    }

    /// Makes a sample without any field.
    pub fn new() -> (s: Self)
        ensures
            s == (Sample { duration: None, size: None, flags: None, composition_time_offset: None }),
    {
        Sample { duration: None, size: None, flags: None, composition_time_offset: None }
    }

    /// Returns the flags of a track run that say which fields the sample has.
    pub fn to_box_flags(&self) -> (n: u32)
        ensures
            n == self.box_flags(),
    {
        flag_bit(self.duration.is_some(), 0x100) + flag_bit(self.size.is_some(), 0x200) + flag_bit(
            self.flags.is_some(),
            0x400,
        ) + flag_bit(self.composition_time_offset.is_some(), 0x800)
    }

    /// Two samples have the same fields if and only if their flags are the same.
    pub proof fn lemma_box_flags(self, other: Sample)
        ensures
            self.box_flags() == other.box_flags() <==> {
                &&& self.duration is Some <==> other.duration is Some
                &&& self.size is Some <==> other.size is Some
                &&& self.flags is Some <==> other.flags is Some
                &&& self.composition_time_offset is Some <==> other.composition_time_offset is Some
            },
    {
    }

    /// Appends the fields that the sample has.
    fn write_to<S: ByteSink>(&self, sink: &mut S)
        ensures
            final(sink).written() == old(sink).written() + self.encoding(),
    {
        write_opt_u32(sink, self.duration);
        write_opt_u32(sink, self.size);
        write_opt_flags(sink, self.flags);
        write_opt_i32(sink, self.composition_time_offset);
        assert(sink.written() =~= old(sink).written() + self.encoding());
    }
}

impl Default for Sample {
    /// Makes what [`Sample::new`] makes.
    fn default() -> (s: Self)
        ensures
            s == (Sample { duration: None, size: None, flags: None, composition_time_offset: None }),
    {
        Self::new()
    }
}

/// The number of fields that a sample has.
pub open spec fn field_count(sample: Sample) -> nat {
    (if sample.duration is Some {
        1nat
    } else {
        0nat
    }) + (if sample.size is Some {
        1nat
    } else {
        0nat
    }) + (if sample.flags is Some {
        1nat
    } else {
        0nat
    }) + (if sample.composition_time_offset is Some {
        1nat
    } else {
        0nat
    })
}

/// The samples `samples` one after the other.
pub open spec fn samples_encoding(samples: Seq<Sample>) -> Seq<u8>
    decreases samples.len(),
{
    if samples.len() == 0 {
        Seq::empty()
    } else {
        samples_encoding(samples.drop_last()) + samples.last().encoding()
    }
}

/// Tells whether all of `samples` have the fields that the first of them has.
pub open spec fn samples_agree(samples: Seq<Sample>) -> bool {
    forall|i: int| 0 <= i < samples.len() ==> (#[trigger] samples[i]).box_flags() == samples[0].box_flags()
}

/// Samples that have the fields of the first of them take four bytes for each field of
/// each sample.
pub proof fn lemma_samples_encoding_len(samples: Seq<Sample>)
    requires
        samples_agree(samples),
        samples.len() > 0,
    ensures
        samples_encoding(samples).len() == 4 * field_count(samples[0]) * samples.len(),
    decreases samples.len(),
{
    let count = field_count(samples[0]);
    let n = samples.len() as int;
    let last = samples.last();
    assert(last.box_flags() == samples[0].box_flags());
    last.lemma_box_flags(samples[0]);
    assert(last.encoding().len() == 4 * count);
    if n == 1 {
        assert(samples.drop_last() =~= Seq::<Sample>::empty());
        assert(samples_encoding(samples.drop_last()).len() == 0);
        assert(4 * count * 1 == 4 * count) by (nonlinear_arith);
    } else {
        let rest = samples.drop_last();
        assert forall|i: int| 0 <= i < rest.len() implies (#[trigger] rest[i]).box_flags()
            == rest[0].box_flags() by {
            assert(samples[i].box_flags() == samples[0].box_flags());
        }
        lemma_samples_encoding_len(rest);
        assert(4 * count * (n - 1) + 4 * count == 4 * count * n) by (nonlinear_arith);
    }
}

/// 8.1.1 Media Data Box (ISO/IEC 14496-12).
#[derive(Debug)]
pub struct MediaDataBox {
    /// The media data.
    pub data: Vec<u8>,
}

impl Mp4Box for MediaDataBox {
    /// The type `mdat`.
    const BOX_TYPE: [u8; 4] = [0x6D, 0x64, 0x61, 0x74];

    open spec fn version(&self) -> Option<u8> {
        None
    }

    open spec fn flags(&self) -> Option<u32> {
        None
    }

    /// The media data as they are.
    open spec fn payload(&self) -> Encoding {
        Ok(self.data@)
    }

    /// The type is `mdat`.
    proof fn lemma_header(&self)
        ensures
            Self::BOX_TYPE@ == seq![0x6Du8, 0x64u8, 0x61u8, 0x74u8],
    {
        assert(Self::BOX_TYPE@ =~= seq![0x6Du8, 0x64u8, 0x61u8, 0x74u8]);
    }

    fn box_version(&self) -> (v: Option<u8>) {
        None
    }

    fn box_flags(&self) -> (f: Option<u32>) {
        None
    }

    fn box_payload_size(&self) -> (r: Result<u32, Error>) {
        if self.data.len() > 0xFFFF_FFFF {
            Err(Error::new(ErrorKind::InvalidInput))
        } else {
            Ok(self.data.len() as u32)
        }
    }

    fn write_box_payload<S: ByteSink>(&self, sink: &mut S) -> (r: Result<(), Error>) {
        write_all(sink, self.data.as_slice());
        Ok(())
    }
}

/// 8.8.5 Movie Fragment Header Box (ISO/IEC 14496-12).
#[derive(Debug)]
pub struct MovieFragmentHeaderBox {
    /// The number associated with this fragment.
    pub sequence_number: u32,
}

impl MovieFragmentHeaderBox {
    /// Makes the header of the first fragment: `sequence_number` is 1.
    pub fn new() -> (b: Self)
        ensures
            b.sequence_number == 1,
    {
        MovieFragmentHeaderBox { sequence_number: 1 }
    }
}

impl Default for MovieFragmentHeaderBox {
    /// Makes what [`MovieFragmentHeaderBox::new`] makes.
    fn default() -> (b: Self)
        ensures
            b.sequence_number == 1,
    {
        Self::new()
    }
}

impl Mp4Box for MovieFragmentHeaderBox {
    /// The type `mfhd`.
    const BOX_TYPE: [u8; 4] = [0x6D, 0x66, 0x68, 0x64];

    open spec fn version(&self) -> Option<u8> {
        Some(0)
    }

    open spec fn flags(&self) -> Option<u32> {
        None
    }

    /// The sequence number, which may not be 0.
    open spec fn payload(&self) -> Encoding {
        if self.sequence_number == 0 {
            Err(ErrorKind::InvalidInput)
        } else {
            Ok(u32_be(self.sequence_number))
        }
    }

    /// The type is `mfhd`.
    proof fn lemma_header(&self)
        ensures
            Self::BOX_TYPE@ == seq![0x6Du8, 0x66u8, 0x68u8, 0x64u8],
    {
        assert(Self::BOX_TYPE@ =~= seq![0x6Du8, 0x66u8, 0x68u8, 0x64u8]);
    }

    fn box_version(&self) -> (v: Option<u8>) {
        Some(0)
    }

    fn box_flags(&self) -> (f: Option<u32>) {
        None
    }

    fn box_payload_size(&self) -> (r: Result<u32, Error>) {
        if self.sequence_number == 0 {
            return Err(Error::new(ErrorKind::InvalidInput));
        }
        Ok(4)
    }

    fn write_box_payload<S: ByteSink>(&self, sink: &mut S) -> (r: Result<(), Error>) {
        if self.sequence_number == 0 {
            return Err(Error::new(ErrorKind::InvalidInput));
        }
        write_u32(sink, self.sequence_number);
        Ok(())
    }
}

/// 8.8.7 Track Fragment Header Box (ISO/IEC 14496-12).
#[derive(Debug)]
pub struct TrackFragmentHeaderBox {
    /// The identifier of the track.
    pub track_id: u32,
    /// Says that the fragment has no samples.
    pub duration_is_empty: bool,
    /// Says that data offsets count from the first byte of the enclosing `moof` box.
    pub default_base_is_moof: bool,
    /// The base of the data offsets.
    pub base_data_offset: Option<u64>,
    /// The index of the sample description.
    pub sample_description_index: Option<u32>,
    /// The duration of a sample that has none of its own.
    pub default_sample_duration: Option<u32>,
    /// The size of a sample that has none of its own.
    pub default_sample_size: Option<u32>,
    /// The flags of a sample that has none of its own.
    pub default_sample_flags: Option<SampleFlags>,
}

impl TrackFragmentHeaderBox {
    /// Makes a header for the track `track_id` that says `default_base_is_moof` and nothing
    /// else.
    pub fn new(track_id: u32) -> (b: Self)
        ensures
            b.track_id == track_id,
            !b.duration_is_empty,
            b.default_base_is_moof,
            b.base_data_offset is None,
            b.sample_description_index is None,
            b.default_sample_duration is None,
            b.default_sample_size is None,
            b.default_sample_flags is None,
    {
        TrackFragmentHeaderBox {
            track_id,
            duration_is_empty: false,
            default_base_is_moof: true,
            base_data_offset: None,
            sample_description_index: None,
            default_sample_duration: None,
            default_sample_size: None,
            default_sample_flags: None,
        }
    }
}

impl Mp4Box for TrackFragmentHeaderBox {
    /// The type `tfhd`.
    const BOX_TYPE: [u8; 4] = [0x74, 0x66, 0x68, 0x64];

    open spec fn version(&self) -> Option<u8> {
        None
    }

    /// One flag for each optional field that is there, `0x1_0000` for `duration_is_empty`
    /// and `0x2_0000` for `default_base_is_moof`.
    open spec fn flags(&self) -> Option<u32> {
        Some(
            (flag(self.base_data_offset is Some, 0x1) + flag(
                self.sample_description_index is Some,
                0x2,
            ) + flag(self.default_sample_duration is Some, 0x8) + flag(
                self.default_sample_size is Some,
                0x10,
            ) + flag(self.default_sample_flags is Some, 0x20) + flag(self.duration_is_empty, 0x1_0000)
                + flag(self.default_base_is_moof, 0x2_0000)) as u32,
        )
    }

    /// The track identifier and the optional fields that are there.
    open spec fn payload(&self) -> Encoding {
        Ok(
            u32_be(self.track_id) + opt_u64_be(self.base_data_offset) + opt_u32_be(
                self.sample_description_index,
            ) + opt_u32_be(self.default_sample_duration) + opt_u32_be(self.default_sample_size)
                + opt_flags_be(self.default_sample_flags),
        )
    }

    /// The type is `tfhd`.
    proof fn lemma_header(&self)
        ensures
            Self::BOX_TYPE@ == seq![0x74u8, 0x66u8, 0x68u8, 0x64u8],
    {
        assert(Self::BOX_TYPE@ =~= seq![0x74u8, 0x66u8, 0x68u8, 0x64u8]);
    }

    fn box_version(&self) -> (v: Option<u8>) {
        None
    }

    fn box_flags(&self) -> (f: Option<u32>) {
        let flags = flag_bit(self.base_data_offset.is_some(), 0x1) + flag_bit(
            self.sample_description_index.is_some(),
            0x2,
        ) + flag_bit(self.default_sample_duration.is_some(), 0x8) + flag_bit(
            self.default_sample_size.is_some(),
            0x10,
        ) + flag_bit(self.default_sample_flags.is_some(), 0x20) + flag_bit(
            self.duration_is_empty,
            0x1_0000,
        ) + flag_bit(self.default_base_is_moof, 0x2_0000);
        Some(flags)
    }

    fn box_payload_size(&self) -> (r: Result<u32, Error>) {
        let mut counter = ByteCounter::with_sink();
        self.write_box_payload(&mut counter)?;
        assert(counter.written() =~= self.payload()->Ok_0);
        counted_size(&counter)
    }

    #[verifier::rlimit(40)]
    fn write_box_payload<S: ByteSink>(&self, sink: &mut S) -> (r: Result<(), Error>) {
        write_u32(sink, self.track_id);
        write_opt_u64(sink, self.base_data_offset);
        write_opt_u32(sink, self.sample_description_index);
        write_opt_u32(sink, self.default_sample_duration);
        write_opt_u32(sink, self.default_sample_size);
        write_opt_flags(sink, self.default_sample_flags);
        assert(sink.written() =~= old(sink).written() + self.payload()->Ok_0);
        Ok(())
    }
}

/// 8.8.12 Track fragment decode time (ISO/IEC 14496-12).
#[derive(Debug)]
pub struct TrackFragmentBaseMediaDecodeTimeBox;

impl TrackFragmentBaseMediaDecodeTimeBox {
    /// Makes the box.
    pub fn new() -> Self {
        TrackFragmentBaseMediaDecodeTimeBox
    }
}

impl Mp4Box for TrackFragmentBaseMediaDecodeTimeBox {
    /// The type `tfdt`.
    const BOX_TYPE: [u8; 4] = [0x74, 0x66, 0x64, 0x74];

    open spec fn version(&self) -> Option<u8> {
        Some(0)
    }

    open spec fn flags(&self) -> Option<u32> {
        None
    }

    /// The base media decode time, which is 0.
    open spec fn payload(&self) -> Encoding {
        Ok(u32_be(0))
    }

    /// The type is `tfdt`.
    proof fn lemma_header(&self)
        ensures
            Self::BOX_TYPE@ == seq![0x74u8, 0x66u8, 0x64u8, 0x74u8],
    {
        assert(Self::BOX_TYPE@ =~= seq![0x74u8, 0x66u8, 0x64u8, 0x74u8]);
    }

    fn box_version(&self) -> (v: Option<u8>) {
        Some(0)
    }

    fn box_flags(&self) -> (f: Option<u32>) {
        None
    }

    fn box_payload_size(&self) -> (r: Result<u32, Error>) {
        Ok(4)
    }

    fn write_box_payload<S: ByteSink>(&self, sink: &mut S) -> (r: Result<(), Error>) {
        write_u32(sink, 0);  // base_media_decode_time
        Ok(())
    }
}

/// 8.8.8 Track Fragment Run Box (ISO/IEC 14496-12).
#[derive(Debug)]
pub struct TrackRunBox {
    /// The offset of the data of the first sample from the first byte of the enclosing
    /// `moof` box.
    pub data_offset: Option<i32>,
    /// The flags of the first sample.
    pub first_sample_flags: Option<SampleFlags>,
    /// The samples.
    pub samples: Vec<Sample>,
}

impl TrackRunBox {
    /// Makes a run without samples.
    pub fn new() -> (b: Self)
        ensures
            b.data_offset is None,
            b.first_sample_flags is None,
            b.samples@.len() == 0,
    {
        TrackRunBox { data_offset: None, first_sample_flags: None, samples: Vec::new() }
    }

    /// The flags that say which fields the samples have: those of the first sample, 0 for
    /// a run without samples.
    pub open spec fn sample_flags(&self) -> u32 {
        if self.samples@.len() == 0 {
            0
        } else {
            self.samples@[0].box_flags()
        }
    }

    /// A run of at most 2^32 - 1 samples can be written if and only if each sample has
    /// the fields that the first has; a run that cannot is `InvalidInput`. The payload has
    /// four bytes for the number of samples, four for the data offset and four for the
    /// flags of the first sample where they are there, and four for each field of each
    /// sample.
    pub proof fn lemma_payload(&self)
        requires
            self.samples@.len() <= u32::MAX,
        ensures
            self.payload() is Ok <==> samples_agree(self.samples@),
            self.payload() is Ok <==> forall|i: int|
                0 <= i < self.samples@.len() ==> {
                    &&& (#[trigger] self.samples@[i]).duration is Some
                        <==> self.samples@[0].duration is Some
                    &&& self.samples@[i].size is Some <==> self.samples@[0].size is Some
                    &&& self.samples@[i].flags is Some <==> self.samples@[0].flags is Some
                    &&& self.samples@[i].composition_time_offset is Some
                        <==> self.samples@[0].composition_time_offset is Some
                },
            self.payload() is Err ==> self.payload() == Err::<Seq<u8>, ErrorKind>(
                ErrorKind::InvalidInput,
            ),
            self.payload() matches Ok(bytes) ==> bytes.len() == 4 + (if self.data_offset is Some {
                4nat
            } else {
                0nat
            }) + (if self.first_sample_flags is Some {
                4nat
            } else {
                0nat
            }) + if self.samples@.len() == 0 {
                0
            } else {
                4 * field_count(self.samples@[0]) * self.samples@.len()
            },
    {
        let samples = self.samples@;
        if samples_agree(samples) {
            self.lemma_samples_agree();
            if samples.len() > 0 {
                lemma_samples_encoding_len(samples);
            }
        } else {
            let i = choose|i: int|
                0 <= i < samples.len() && (#[trigger] samples[i]).box_flags()
                    != samples[0].box_flags();
            samples[i].lemma_box_flags(samples[0]);
        }
    }

    /// Where a run can be written, each sample has the fields that the first has.
    pub proof fn lemma_samples_agree(&self)
        requires
            self.payload() is Ok,
        ensures
            forall|i: int|
                0 <= i < self.samples@.len() ==> {
                    &&& (#[trigger] self.samples@[i]).duration is Some
                        <==> self.samples@[0].duration is Some
                    &&& self.samples@[i].size is Some <==> self.samples@[0].size is Some
                    &&& self.samples@[i].flags is Some <==> self.samples@[0].flags is Some
                    &&& self.samples@[i].composition_time_offset is Some
                        <==> self.samples@[0].composition_time_offset is Some
                },
    {
        assert forall|i: int| 0 <= i < self.samples@.len() implies {
            &&& (#[trigger] self.samples@[i]).duration is Some <==> self.samples@[0].duration is Some
            &&& self.samples@[i].size is Some <==> self.samples@[0].size is Some
            &&& self.samples@[i].flags is Some <==> self.samples@[0].flags is Some
            &&& self.samples@[i].composition_time_offset is Some
                <==> self.samples@[0].composition_time_offset is Some
        } by {
            self.samples@[i].lemma_box_flags(self.samples@[0]);
        }
    }
}

impl Default for TrackRunBox {
    /// Makes what [`TrackRunBox::new`] makes.
    fn default() -> (b: Self)
        ensures
            b.data_offset is None,
            b.first_sample_flags is None,
            b.samples@.len() == 0,
    {
        Self::new()
    }
}

impl Mp4Box for TrackRunBox {
    /// The type `trun`.
    const BOX_TYPE: [u8; 4] = [0x74, 0x72, 0x75, 0x6E];

    open spec fn version(&self) -> Option<u8> {
        Some(1)
    }

    /// `0x1` for a data offset, `0x4` for flags of the first sample, and the flags that say
    /// which fields the samples have.
    open spec fn flags(&self) -> Option<u32> {
        Some(
            (flag(self.data_offset is Some, 0x1) + flag(self.first_sample_flags is Some, 0x4)
                + self.sample_flags()) as u32,
        )
    }

    /// The number of samples, the data offset and the flags of the first sample if they
    /// are there, and the samples. More than 2^32 - 1 samples are `InvalidInput`, and so
    /// is a sample that has not the fields that the first has.
    open spec fn payload(&self) -> Encoding {
        if self.samples@.len() > u32::MAX || !samples_agree(self.samples@) {
            Err(ErrorKind::InvalidInput)
        } else {
            Ok(
                u32_be(self.samples@.len() as u32) + opt_i32_be(self.data_offset) + opt_flags_be(
                    self.first_sample_flags,
                ) + samples_encoding(self.samples@),
            )
        }
    }

    /// The type is `trun`.
    proof fn lemma_header(&self)
        ensures
            Self::BOX_TYPE@ == seq![0x74u8, 0x72u8, 0x75u8, 0x6Eu8],
    {
        assert(Self::BOX_TYPE@ =~= seq![0x74u8, 0x72u8, 0x75u8, 0x6Eu8]);
    }

    fn box_version(&self) -> (v: Option<u8>) {
        Some(1)
    }

    fn box_flags(&self) -> (f: Option<u32>) {
        let sample_flags = if self.samples.len() == 0 {
            0
        } else {
            self.samples[0].to_box_flags()
        };
        let flags = flag_bit(self.data_offset.is_some(), 0x1) + flag_bit(
            self.first_sample_flags.is_some(),
            0x4,
        ) + sample_flags;
        Some(flags)
    }

    fn box_payload_size(&self) -> (r: Result<u32, Error>) {
        let mut counter = ByteCounter::with_sink();
        self.write_box_payload(&mut counter)?;
        assert(counter.written() =~= self.payload()->Ok_0);
        counted_size(&counter)
    }

    #[verifier::rlimit(40)]
    fn write_box_payload<S: ByteSink>(&self, sink: &mut S) -> (r: Result<(), Error>) {
        if self.samples.len() > 0xFFFF_FFFF {
            return Err(Error::new(ErrorKind::InvalidInput));
        }
        write_u32(sink, self.samples.len() as u32);
        write_opt_i32(sink, self.data_offset);
        write_opt_flags(sink, self.first_sample_flags);
        let ghost head = u32_be(self.samples@.len() as u32) + opt_i32_be(self.data_offset)
            + opt_flags_be(self.first_sample_flags);
        assert(sink.written() =~= old(sink).written() + head + samples_encoding(
            self.samples@.take(0),
        ));

        let mut i: usize = 0;
        while i < self.samples.len()
            invariant
                i <= self.samples@.len(),
                samples_agree(self.samples@.take(i as int)),
                sink.written() == old(sink).written() + head + samples_encoding(
                    self.samples@.take(i as int),
                ),
            decreases self.samples@.len() - i,
        {
            let sample = &self.samples[i];
            if sample.to_box_flags() != self.samples[0].to_box_flags() {
                return Err(Error::new(ErrorKind::InvalidInput));
            }
            sample.write_to(sink);
            proof {
                let before = self.samples@.take(i as int);
                let after = self.samples@.take(i + 1);
                assert(after.drop_last() =~= before);
                assert(after.last() == self.samples@[i as int]);
                assert forall|j: int| 0 <= j < after.len() implies (#[trigger] after[j]).box_flags()
                    == after[0].box_flags() by {
                    if j < i {
                        assert(before[j].box_flags() == before[0].box_flags());
                    }
                }
                assert(sink.written() =~= old(sink).written() + head + samples_encoding(after));
            }
            i += 1;
        }
        assert(self.samples@.take(i as int) =~= self.samples@);
        assert(sink.written() =~= old(sink).written() + (head + samples_encoding(self.samples@)));
        Ok(())
    }
}

/// 8.8.6 Track Fragment Box (ISO/IEC 14496-12).
#[derive(Debug)]
pub struct TrackFragmentBox {
    /// The header of the track fragment.
    pub tfhd_box: TrackFragmentHeaderBox,
    /// The decode time of the track fragment.
    pub tfdt_box: TrackFragmentBaseMediaDecodeTimeBox,
    /// The samples of the track fragment.
    pub trun_box: TrackRunBox,
}

impl TrackFragmentBox {
    /// Makes a new `TrackFragmentBox` instance for the video track, if `is_video`, or for
    /// the audio track.
    pub fn new(is_video: bool) -> (b: Self)
        ensures
            b.tfhd_box.track_id == if is_video {
                VIDEO_TRACK_ID
            } else {
                AUDIO_TRACK_ID
            },
            !b.tfhd_box.duration_is_empty,
            b.tfhd_box.default_base_is_moof,
            b.tfhd_box.base_data_offset is None,
            b.tfhd_box.sample_description_index is None,
            b.tfhd_box.default_sample_duration is None,
            b.tfhd_box.default_sample_size is None,
            b.tfhd_box.default_sample_flags is None,
            b.trun_box.data_offset is None,
            b.trun_box.first_sample_flags is None,
            b.trun_box.samples@.len() == 0,
    {
        let track_id = if is_video {
            VIDEO_TRACK_ID
        } else {
            AUDIO_TRACK_ID
        };
        TrackFragmentBox {
            tfhd_box: TrackFragmentHeaderBox::new(track_id),
            tfdt_box: TrackFragmentBaseMediaDecodeTimeBox,
            trun_box: TrackRunBox::new(),
        }
    }
}

impl Mp4Box for TrackFragmentBox {
    /// The type `traf`.
    const BOX_TYPE: [u8; 4] = [0x74, 0x72, 0x61, 0x66];

    open spec fn version(&self) -> Option<u8> {
        None
    }

    open spec fn flags(&self) -> Option<u32> {
        None
    }

    /// The boxes `tfhd`, `tfdt` and `trun`.
    open spec fn payload(&self) -> Encoding {
        followed_by(
            followed_by(encoding_of(&self.tfhd_box), encoding_of(&self.tfdt_box)),
            encoding_of(&self.trun_box),
        )
    }

    /// The type is `traf`.
    proof fn lemma_header(&self)
        ensures
            Self::BOX_TYPE@ == seq![0x74u8, 0x72u8, 0x61u8, 0x66u8],
    {
        assert(Self::BOX_TYPE@ =~= seq![0x74u8, 0x72u8, 0x61u8, 0x66u8]);
    }

    fn box_version(&self) -> (v: Option<u8>) {
        None
    }

    fn box_flags(&self) -> (f: Option<u32>) {
        None
    }

    fn box_payload_size(&self) -> (r: Result<u32, Error>) {
        let mut size: u64 = 0;
        size += size_of_box(&self.tfhd_box)?;
        size += size_of_box(&self.tfdt_box)?;
        size += size_of_box(&self.trun_box)?;
        payload_size(size)
    }

    fn write_box_payload<S: ByteSink>(&self, sink: &mut S) -> (r: Result<(), Error>) {
        self.tfhd_box.write_box(sink)?;
        self.tfdt_box.write_box(sink)?;
        self.trun_box.write_box(sink)?;
        assert(sink.written() =~= old(sink).written() + self.payload()->Ok_0);
        Ok(())
    }
}

/// 8.8.4 Movie Fragment Box (ISO/IEC 14496-12).
#[derive(Debug)]
pub struct MovieFragmentBox {
    /// The header of the fragment.
    pub mfhd_box: MovieFragmentHeaderBox,
    /// The track fragments.
    pub traf_boxes: Vec<TrackFragmentBox>,
}

impl MovieFragmentBox {
    /// Makes the first fragment, without track fragments.
    pub fn new() -> (b: Self)
        ensures
            b.mfhd_box.sequence_number == 1,
            b.traf_boxes@.len() == 0,
    {
        MovieFragmentBox { mfhd_box: MovieFragmentHeaderBox::new(), traf_boxes: Vec::new() }
    }
}

impl Default for MovieFragmentBox {
    /// Makes what [`MovieFragmentBox::new`] makes.
    fn default() -> (b: Self)
        ensures
            b.mfhd_box.sequence_number == 1,
            b.traf_boxes@.len() == 0,
    {
        Self::new()
    }
}

impl Mp4Box for MovieFragmentBox {
    /// The type `moof`.
    const BOX_TYPE: [u8; 4] = [0x6D, 0x6F, 0x6F, 0x66];

    open spec fn version(&self) -> Option<u8> {
        None
    }

    open spec fn flags(&self) -> Option<u32> {
        None
    }

    /// The box `mfhd` and the track fragments, of which there has to be one at least:
    /// none is `InvalidInput`.
    open spec fn payload(&self) -> Encoding {
        if self.traf_boxes@.len() == 0 {
            Err(ErrorKind::InvalidInput)
        } else {
            followed_by(encoding_of(&self.mfhd_box), boxes_encoding(self.traf_boxes@))
        }
    }

    /// The type is `moof`.
    proof fn lemma_header(&self)
        ensures
            Self::BOX_TYPE@ == seq![0x6Du8, 0x6Fu8, 0x6Fu8, 0x66u8],
    {
        assert(Self::BOX_TYPE@ =~= seq![0x6Du8, 0x6Fu8, 0x6Fu8, 0x66u8]);
    }

    fn box_version(&self) -> (v: Option<u8>) {
        None
    }

    fn box_flags(&self) -> (f: Option<u32>) {
        None
    }

    fn box_payload_size(&self) -> (r: Result<u32, Error>) {
        if self.traf_boxes.len() == 0 {
            return Err(Error::new(ErrorKind::InvalidInput));
        }
        let mut size: u64 = 0;
        size += size_of_box(&self.mfhd_box)?;
        size += size_of_boxes(&self.traf_boxes)?;
        payload_size(size)
    }

    fn write_box_payload<S: ByteSink>(&self, sink: &mut S) -> (r: Result<(), Error>) {
        if self.traf_boxes.len() == 0 {
            return Err(Error::new(ErrorKind::InvalidInput));
        }
        self.mfhd_box.write_box(sink)?;
        write_boxes(&self.traf_boxes, sink)?;
        assert(sink.written() =~= old(sink).written() + self.payload()->Ok_0);
        Ok(())
    }
}

/// [ISO BMFF Byte Stream Format: 4. Media Segments][media_segment]
///
/// [media_segment]: https://w3c.github.io/media-source/isobmff-byte-stream-format.html#iso-media-segments
#[derive(Debug)]
pub struct MediaSegment {
    /// The movie fragment.
    pub moof_box: MovieFragmentBox,
    /// The media data of the fragment.
    pub mdat_boxes: Vec<MediaDataBox>,
}

impl MediaSegment {
    /// Makes a segment with the first fragment, without track fragments and media data.
    pub fn new() -> (s: Self)
        ensures
            s.moof_box.mfhd_box.sequence_number == 1,
            s.moof_box.traf_boxes@.len() == 0,
            s.mdat_boxes@.len() == 0,
    {
        MediaSegment { moof_box: MovieFragmentBox::new(), mdat_boxes: Vec::new() }
    }
}

impl Default for MediaSegment {
    /// Makes what [`MediaSegment::new`] makes.
    fn default() -> (s: Self)
        ensures
            s.moof_box.mfhd_box.sequence_number == 1,
            s.moof_box.traf_boxes@.len() == 0,
            s.mdat_boxes@.len() == 0,
    {
        Self::new()
    }
}

impl WriteTo for MediaSegment {
    /// The box `moof` and the boxes `mdat`, of which there has to be one at least: none is
    /// `InvalidInput`.
    open spec fn encoding(&self) -> Encoding {
        if self.mdat_boxes@.len() == 0 {
            Err(ErrorKind::InvalidInput)
        } else {
            followed_by(encoding_of(&self.moof_box), boxes_encoding(self.mdat_boxes@))
        }
    }

    fn write_to<S: ByteSink>(&self, sink: &mut S) -> (r: Result<(), Error>) {
        if self.mdat_boxes.len() == 0 {
            return Err(Error::new(ErrorKind::InvalidInput));
        }
        let _ = size_of_box(&self.moof_box)?;
        let _ = size_of_boxes(&self.mdat_boxes)?;
        self.moof_box.write_box(sink)?;
        write_boxes(&self.mdat_boxes, sink)?;
        assert(sink.written() =~= old(sink).written() + self.encoding()->Ok_0);
        Ok(())
    }
}

} // verus!
