//! The boxes of an initialization segment.

use crate::aac::{AacProfile, ChannelConfiguration, SamplingFrequency};
use crate::avc::AvcDecoderConfigurationRecord;
use crate::error::{Error, ErrorKind};
use crate::fmp4::common::{
    add_sizes, box_encoding, boxes_encoding, counted_size, encoding_of, lemma_box_encoding,
    lemma_boxes_encoding_two, optional_encoding,
    payload_size, size_is, size_of_box, size_of_boxes, size_of_optional_box, write_boxes,
    write_optional_box, Brand, HandlerType, Mp4Box, SampleFormat, AUDIO_TRACK_ID,
    VIDEO_TRACK_ID,
};
use crate::io::{
    i16_be, i32_be, followed_by, u16_be, u24_be, u32_be, write_all, write_i16, write_i32, write_u16,
    write_u24, write_u32, write_u8, write_zeroes, zeroes, ByteCounter, ByteSink, Encoding,
    WriteTo,
};
use vstd::prelude::*;

verus! {

/// The transformation matrix that leaves a picture as it is: 1.0 in 16.16 fixed point on
/// the diagonal of the scale and rotate entries, 1.0 in 2.30 fixed point as the last of the
/// perspective entries.
pub open spec fn identity_matrix() -> Seq<u8> {
    i32_be(0x1_0000) + i32_be(0) + i32_be(0) + i32_be(0) + i32_be(0x1_0000) + i32_be(0) + i32_be(0)
        + i32_be(0) + i32_be(0x4000_0000)
}

/// Appends the identity matrix.
fn write_identity_matrix<S: ByteSink>(sink: &mut S)
    ensures
        final(sink).written() == old(sink).written() + identity_matrix(),
{
    write_i32(sink, 0x1_0000);
    write_i32(sink, 0);
    write_i32(sink, 0);
    write_i32(sink, 0);
    write_i32(sink, 0x1_0000);
    write_i32(sink, 0);
    write_i32(sink, 0);
    write_i32(sink, 0);
    write_i32(sink, 0x4000_0000);
    assert(sink.written() =~= old(sink).written() + identity_matrix());
}

/// The identifier of the track that `is_video` selects.
pub open spec fn track_id(is_video: bool) -> u32 {
    if is_video {
        VIDEO_TRACK_ID
    } else {
        AUDIO_TRACK_ID
    }
}

/// The brands `brands` one after the other, four bytes each.
pub open spec fn brands_encoding(brands: Seq<Brand>) -> Seq<u8>
    decreases brands.len(),
{
    if brands.len() == 0 {
        Seq::empty()
    } else {
        brands_encoding(brands.drop_last()) + brands.last().0@
    }
}

/// 4.3 File Type Box (ISO/IEC 14496-12).
#[derive(Debug)]
pub struct FileTypeBox {
    /// The major brand.
    pub major_brand: Brand,
    /// The minor version of the major brand.
    pub minor_version: u32,
    /// The other brands that the file is compatible with.
    pub compatible_brands: Vec<Brand>,
}

/// The brand `isom`.
pub open spec fn isom() -> Seq<u8> {
    seq![0x69u8, 0x73u8, 0x6Fu8, 0x6Du8]
}

impl FileTypeBox {
    /// Makes the box of a file with major brand `isom`, minor version 512 and no other
    /// brand.
    pub fn new() -> (b: Self)
        ensures
            b.major_brand.0@ == isom(),
            b.minor_version == 512,
            b.compatible_brands@.len() == 0,
    {
        let major_brand = Brand([0x69, 0x73, 0x6F, 0x6D]);
        assert(major_brand.0@ =~= isom());
        FileTypeBox { major_brand, minor_version: 512, compatible_brands: Vec::new() }
    }
}

/// The file type box of the major brand `isom` with the minor version 512 and without
/// compatible brands is serialized in sixteen bytes.
pub proof fn lemma_file_type_isom(ftyp: &FileTypeBox)
    requires
        ftyp.major_brand.0@ == isom(),
        ftyp.minor_version == 512,
        ftyp.compatible_brands@.len() == 0,
    ensures
        encoding_of(ftyp) == Ok::<Seq<u8>, ErrorKind>(
            seq![
                0x00u8, 0x00u8, 0x00u8, 0x10u8, 0x66u8, 0x74u8, 0x79u8, 0x70u8, 0x69u8, 0x73u8, 0x6Fu8,
                0x6Du8, 0x00u8, 0x00u8, 0x02u8, 0x00u8,
            ],
        ),
{
    reveal(box_encoding);
    let expected = seq![
        0x00u8, 0x00u8, 0x00u8, 0x10u8, 0x66u8, 0x74u8, 0x79u8, 0x70u8, 0x69u8, 0x73u8, 0x6Fu8,
        0x6Du8, 0x00u8, 0x00u8, 0x02u8, 0x00u8,
    ];
    assert(brands_encoding(ftyp.compatible_brands@) =~= Seq::<u8>::empty());
    assert(ftyp.payload()->Ok_0.len() == 8);
    assert(FileTypeBox::BOX_TYPE@ =~= seq![0x66u8, 0x74u8, 0x79u8, 0x70u8]);
    assert(encoding_of(ftyp)->Ok_0 =~= expected);
}

impl Default for FileTypeBox {
    /// Makes what [`FileTypeBox::new`] makes.
    fn default() -> (b: Self)
        ensures
            b.major_brand.0@ == isom(),
            b.minor_version == 512,
            b.compatible_brands@.len() == 0,
    {
        Self::new()
    }
}

impl Mp4Box for FileTypeBox {
    /// The type `ftyp`.
    const BOX_TYPE: [u8; 4] = [0x66, 0x74, 0x79, 0x70];

    open spec fn version(&self) -> Option<u8> {
        None
    }

    open spec fn flags(&self) -> Option<u32> {
        None
    }

    /// The major brand, the minor version and the compatible brands.
    open spec fn payload(&self) -> Encoding {
        Ok(self.major_brand.0@ + u32_be(self.minor_version) + brands_encoding(self.compatible_brands@))
    }

    /// The type is `ftyp`.
    proof fn lemma_header(&self)
        ensures
            Self::BOX_TYPE@ == seq![0x66u8, 0x74u8, 0x79u8, 0x70u8],
    {
        assert(Self::BOX_TYPE@ =~= seq![0x66u8, 0x74u8, 0x79u8, 0x70u8]);
    }

    fn box_version(&self) -> (v: Option<u8>) {
        None
    }

    fn box_flags(&self) -> (f: Option<u32>) {
        None
    }

    fn box_payload_size(&self) -> (r: Result<u32, Error>) {
        let mut counter = ByteCounter::with_sink();
        self.write_box_payload(&mut counter)?;
        assert(counter.written() =~= self.payload()->Ok_0);
        counted_size(&counter)
    }

    #[verifier::rlimit(40)]
    fn write_box_payload<S: ByteSink>(&self, sink: &mut S) -> (r: Result<(), Error>) {
        write_all(sink, &self.major_brand.0);
        write_u32(sink, self.minor_version);
        let ghost head = self.major_brand.0@ + u32_be(self.minor_version);
        assert(sink.written() =~= old(sink).written() + head + brands_encoding(
            self.compatible_brands@.take(0),
        ));
        let mut i: usize = 0;
        while i < self.compatible_brands.len()
            invariant
                i <= self.compatible_brands@.len(),
                sink.written() == old(sink).written() + head + brands_encoding(
                    self.compatible_brands@.take(i as int),
                ),
            decreases self.compatible_brands@.len() - i,
        {
            write_all(sink, &self.compatible_brands[i].0);
            assert(self.compatible_brands@.take(i + 1).drop_last() =~= self.compatible_brands@.take(
                i as int,
            ));
            i += 1;
        }
        assert(self.compatible_brands@.take(i as int) =~= self.compatible_brands@);
        assert(sink.written() =~= old(sink).written() + self.payload()->Ok_0);
        Ok(())
    }
}

/// 8.5.3 Sample Size Boxes (ISO/IEC 14496-12).
#[derive(Debug)]
pub struct SampleSizeBox;

impl SampleSizeBox {
    /// Makes the box.
    pub fn new() -> Self {
        SampleSizeBox
    }
}

impl Default for SampleSizeBox {
    /// Makes what [`SampleSizeBox::new`] makes.
    fn default() -> Self {
        Self::new()
    }
}

impl Mp4Box for SampleSizeBox {
    /// The type `stsz`.
    const BOX_TYPE: [u8; 4] = [0x73, 0x74, 0x73, 0x7A];

    open spec fn version(&self) -> Option<u8> {
        Some(0)
    }

    open spec fn flags(&self) -> Option<u32> {
        None
    }

    /// No sample size and no samples: the table is empty.
    open spec fn payload(&self) -> Encoding {
        Ok(u32_be(0) + u32_be(0))
    }

    /// The type is `stsz`.
    proof fn lemma_header(&self)
        ensures
            Self::BOX_TYPE@ == seq![0x73u8, 0x74u8, 0x73u8, 0x7Au8],
    {
        assert(Self::BOX_TYPE@ =~= seq![0x73u8, 0x74u8, 0x73u8, 0x7Au8]);
    }

    fn box_version(&self) -> (v: Option<u8>) {
        Some(0)
    }

    fn box_flags(&self) -> (f: Option<u32>) {
        None
    }

    fn box_payload_size(&self) -> (r: Result<u32, Error>) {
        Ok(8)
    }

    fn write_box_payload<S: ByteSink>(&self, sink: &mut S) -> (r: Result<(), Error>) {
        write_u32(sink, 0);
        write_u32(sink, 0);
        assert(sink.written() =~= old(sink).written() + self.payload()->Ok_0);
        Ok(())
    }
}

/// 8.6.1.2 Decoding Time To Sample Box (ISO/IEC 14496-12).
#[derive(Debug)]
pub struct TimeToSampleBox;

impl TimeToSampleBox {
    /// Makes the box.
    pub fn new() -> Self {
        TimeToSampleBox
    }
}

impl Default for TimeToSampleBox {
    /// Makes what [`TimeToSampleBox::new`] makes.
    fn default() -> Self {
        Self::new()
    }
}

impl Mp4Box for TimeToSampleBox {
    /// The type `stts`.
    const BOX_TYPE: [u8; 4] = [0x73, 0x74, 0x74, 0x73];

    open spec fn version(&self) -> Option<u8> {
        Some(0)
    }

    open spec fn flags(&self) -> Option<u32> {
        None
    }

    /// No entries: the table is empty.
    open spec fn payload(&self) -> Encoding {
        Ok(u32_be(0))
    }

    /// The type is `stts`.
    proof fn lemma_header(&self)
        ensures
            Self::BOX_TYPE@ == seq![0x73u8, 0x74u8, 0x74u8, 0x73u8],
    {
        assert(Self::BOX_TYPE@ =~= seq![0x73u8, 0x74u8, 0x74u8, 0x73u8]);
    }

    fn box_version(&self) -> (v: Option<u8>) {
        Some(0)
    }

    fn box_flags(&self) -> (f: Option<u32>) {
        None
    }

    fn box_payload_size(&self) -> (r: Result<u32, Error>) {
        Ok(4)
    }

    fn write_box_payload<S: ByteSink>(&self, sink: &mut S) -> (r: Result<(), Error>) {
        write_u32(sink, 0);
        Ok(())
    }
}

/// 8.7.5 Chunk Offset Box (ISO/IEC 14496-12).
#[derive(Debug)]
pub struct ChunkOffsetBox;

impl ChunkOffsetBox {
    /// Makes the box.
    pub fn new() -> Self {
        ChunkOffsetBox
    }
}

impl Default for ChunkOffsetBox {
    /// Makes what [`ChunkOffsetBox::new`] makes.
    fn default() -> Self {
        Self::new()
    }
}

impl Mp4Box for ChunkOffsetBox {
    /// The type `stco`.
    const BOX_TYPE: [u8; 4] = [0x73, 0x74, 0x63, 0x6F];

    open spec fn version(&self) -> Option<u8> {
        Some(0)
    }

    open spec fn flags(&self) -> Option<u32> {
        None
    }

    /// No entries: the table is empty.
    open spec fn payload(&self) -> Encoding {
        Ok(u32_be(0))
    }

    /// The type is `stco`.
    proof fn lemma_header(&self)
        ensures
            Self::BOX_TYPE@ == seq![0x73u8, 0x74u8, 0x63u8, 0x6Fu8],
    {
        assert(Self::BOX_TYPE@ =~= seq![0x73u8, 0x74u8, 0x63u8, 0x6Fu8]);
    }

    fn box_version(&self) -> (v: Option<u8>) {
        Some(0)
    }

    fn box_flags(&self) -> (f: Option<u32>) {
        None
    }

    fn box_payload_size(&self) -> (r: Result<u32, Error>) {
        Ok(4)
    }

    fn write_box_payload<S: ByteSink>(&self, sink: &mut S) -> (r: Result<(), Error>) {
        write_u32(sink, 0);
        Ok(())
    }
}

/// 8.7.4 Sample To Chunk Box (ISO/IEC 14496-12).
#[derive(Debug)]
pub struct SampleToChunkBox;

impl SampleToChunkBox {
    /// Makes the box.
    pub fn new() -> Self {
        SampleToChunkBox
    }
}

impl Default for SampleToChunkBox {
    /// Makes what [`SampleToChunkBox::new`] makes.
    fn default() -> Self {
        Self::new()
    }
}

impl Mp4Box for SampleToChunkBox {
    /// The type `stsc`.
    const BOX_TYPE: [u8; 4] = [0x73, 0x74, 0x73, 0x63];

    open spec fn version(&self) -> Option<u8> {
        Some(0)
    }

    open spec fn flags(&self) -> Option<u32> {
        None
    }

    /// No entries: the table is empty.
    open spec fn payload(&self) -> Encoding {
        Ok(u32_be(0))
    }

    /// The type is `stsc`.
    proof fn lemma_header(&self)
        ensures
            Self::BOX_TYPE@ == seq![0x73u8, 0x74u8, 0x73u8, 0x63u8],
    {
        assert(Self::BOX_TYPE@ =~= seq![0x73u8, 0x74u8, 0x73u8, 0x63u8]);
    }

    fn box_version(&self) -> (v: Option<u8>) {
        Some(0)
    }

    fn box_flags(&self) -> (f: Option<u32>) {
        None
    }

    fn box_payload_size(&self) -> (r: Result<u32, Error>) {
        Ok(4)
    }

    fn write_box_payload<S: ByteSink>(&self, sink: &mut S) -> (r: Result<(), Error>) {
        write_u32(sink, 0);
        Ok(())
    }
}

/// 12.1.2 Video media header (ISO/IEC 14496-12).
#[derive(Debug)]
pub struct VideoMediaHeaderBox;

impl VideoMediaHeaderBox {
    /// Makes the box.
    pub fn new() -> Self {
        VideoMediaHeaderBox
    }
}

impl Mp4Box for VideoMediaHeaderBox {
    /// The type `vmhd`.
    const BOX_TYPE: [u8; 4] = [0x76, 0x6D, 0x68, 0x64];

    open spec fn version(&self) -> Option<u8> {
        None
    }

    open spec fn flags(&self) -> Option<u32> {
        Some(1)
    }

    /// Graphics mode 0 and the colour 0, 0, 0.
    open spec fn payload(&self) -> Encoding {
        Ok(u16_be(0) + zeroes(6))
    }

    /// The type is `vmhd`.
    proof fn lemma_header(&self)
        ensures
            Self::BOX_TYPE@ == seq![0x76u8, 0x6Du8, 0x68u8, 0x64u8],
    {
        assert(Self::BOX_TYPE@ =~= seq![0x76u8, 0x6Du8, 0x68u8, 0x64u8]);
    }

    fn box_version(&self) -> (v: Option<u8>) {
        None
    }

    fn box_flags(&self) -> (f: Option<u32>) {
        Some(1)
    }

    fn box_payload_size(&self) -> (r: Result<u32, Error>) {
        Ok(8)
    }

    fn write_box_payload<S: ByteSink>(&self, sink: &mut S) -> (r: Result<(), Error>) {
        write_u16(sink, 0);  // graphicsmode
        write_zeroes(sink, 6);  // opcolor
        assert(sink.written() =~= old(sink).written() + self.payload()->Ok_0);
        Ok(())
    }
}

/// 12.2.2 Sound media header (ISO/IEC 14496-12).
#[derive(Debug)]
pub struct SoundMediaHeaderBox;

impl SoundMediaHeaderBox {
    /// Makes the box.
    pub fn new() -> Self {
        SoundMediaHeaderBox
    }
}

impl Mp4Box for SoundMediaHeaderBox {
    /// The type `smhd`.
    const BOX_TYPE: [u8; 4] = [0x73, 0x6D, 0x68, 0x64];

    open spec fn version(&self) -> Option<u8> {
        Some(0)
    }

    open spec fn flags(&self) -> Option<u32> {
        None
    }

    /// Balance 0 and two reserved bytes.
    open spec fn payload(&self) -> Encoding {
        Ok(i16_be(0) + zeroes(2))
    }

    /// The type is `smhd`.
    proof fn lemma_header(&self)
        ensures
            Self::BOX_TYPE@ == seq![0x73u8, 0x6Du8, 0x68u8, 0x64u8],
    {
        assert(Self::BOX_TYPE@ =~= seq![0x73u8, 0x6Du8, 0x68u8, 0x64u8]);
    }

    fn box_version(&self) -> (v: Option<u8>) {
        Some(0)
    }

    fn box_flags(&self) -> (f: Option<u32>) {
        None
    }

    fn box_payload_size(&self) -> (r: Result<u32, Error>) {
        Ok(4)
    }

    fn write_box_payload<S: ByteSink>(&self, sink: &mut S) -> (r: Result<(), Error>) {
        write_i16(sink, 0);  // balance
        write_zeroes(sink, 2);
        assert(sink.written() =~= old(sink).written() + self.payload()->Ok_0);
        Ok(())
    }
}

/// 8.7.2.2 Data Entry Url Box (ISO/IEC 14496-12).
#[derive(Debug)]
pub struct DataEntryUrlBox;

impl DataEntryUrlBox {
    /// Makes the box.
    pub fn new() -> Self {
        DataEntryUrlBox
    }
}

impl Default for DataEntryUrlBox {
    /// Makes what [`DataEntryUrlBox::new`] makes.
    fn default() -> Self {
        Self::new()
    }
}

impl Mp4Box for DataEntryUrlBox {
    /// The type `url `.
    const BOX_TYPE: [u8; 4] = [0x75, 0x72, 0x6C, 0x20];

    open spec fn version(&self) -> Option<u8> {
        None
    }

    open spec fn flags(&self) -> Option<u32> {
        Some(1)
    }

    /// Nothing: the flag says that the media data are in the same file.
    open spec fn payload(&self) -> Encoding {
        Ok(Seq::empty())
    }

    /// The type is `url `.
    proof fn lemma_header(&self)
        ensures
            Self::BOX_TYPE@ == seq![0x75u8, 0x72u8, 0x6Cu8, 0x20u8],
    {
        assert(Self::BOX_TYPE@ =~= seq![0x75u8, 0x72u8, 0x6Cu8, 0x20u8]);
    }

    fn box_version(&self) -> (v: Option<u8>) {
        None
    }

    fn box_flags(&self) -> (f: Option<u32>) {
        Some(1)
    }

    fn box_payload_size(&self) -> (r: Result<u32, Error>) {
        Ok(0)
    }

    fn write_box_payload<S: ByteSink>(&self, sink: &mut S) -> (r: Result<(), Error>) {
        assert(sink.written() =~= sink.written() + Seq::<u8>::empty());
        Ok(())
    }
}

/// 8.7.2 Data Reference Box (ISO/IEC 14496-12).
#[derive(Debug)]
pub struct DataReferenceBox {
    /// The one entry of the table.
    pub url_box: DataEntryUrlBox,
}

impl DataReferenceBox {
    /// Makes the box.
    pub fn new() -> Self {
        DataReferenceBox { url_box: DataEntryUrlBox }
    }
}

impl Default for DataReferenceBox {
    /// Makes what [`DataReferenceBox::new`] makes.
    fn default() -> Self {
        Self::new()
    }
}

impl Mp4Box for DataReferenceBox {
    /// The type `dref`.
    const BOX_TYPE: [u8; 4] = [0x64, 0x72, 0x65, 0x66];

    open spec fn version(&self) -> Option<u8> {
        Some(0)
    }

    open spec fn flags(&self) -> Option<u32> {
        None
    }

    /// The number of entries, 1, and the box `url `.
    open spec fn payload(&self) -> Encoding {
        followed_by(Ok(u32_be(1)), encoding_of(&self.url_box))
    }

    /// The type is `dref`.
    proof fn lemma_header(&self)
        ensures
            Self::BOX_TYPE@ == seq![0x64u8, 0x72u8, 0x65u8, 0x66u8],
    {
        assert(Self::BOX_TYPE@ =~= seq![0x64u8, 0x72u8, 0x65u8, 0x66u8]);
    }

    fn box_version(&self) -> (v: Option<u8>) {
        Some(0)
    }

    fn box_flags(&self) -> (f: Option<u32>) {
        None
    }

    fn box_payload_size(&self) -> (r: Result<u32, Error>) {
        let mut size: u64 = 4;
        size += size_of_box(&self.url_box)?;
        payload_size(size)
    }

    fn write_box_payload<S: ByteSink>(&self, sink: &mut S) -> (r: Result<(), Error>) {
        write_u32(sink, 1);  // entry_count
        self.url_box.write_box(sink)?;
        assert(sink.written() =~= old(sink).written() + self.payload()->Ok_0);
        Ok(())
    }
}

/// 8.7.1 Data Information Box (ISO/IEC 14496-12).
#[derive(Debug)]
pub struct DataInformationBox {
    /// The data references.
    pub dref_box: DataReferenceBox,
}

impl DataInformationBox {
    /// Makes the box.
    pub fn new() -> Self {
        DataInformationBox { dref_box: DataReferenceBox::new() }
    }
}

impl Default for DataInformationBox {
    /// Makes what [`DataInformationBox::new`] makes.
    fn default() -> Self {
        Self::new()
    }
}

impl Mp4Box for DataInformationBox {
    /// The type `dinf`.
    const BOX_TYPE: [u8; 4] = [0x64, 0x69, 0x6E, 0x66];

    open spec fn version(&self) -> Option<u8> {
        None
    }

    open spec fn flags(&self) -> Option<u32> {
        None
    }

    /// The box `dref`.
    open spec fn payload(&self) -> Encoding {
        encoding_of(&self.dref_box)
    }

    /// The type is `dinf`.
    proof fn lemma_header(&self)
        ensures
            Self::BOX_TYPE@ == seq![0x64u8, 0x69u8, 0x6Eu8, 0x66u8],
    {
        assert(Self::BOX_TYPE@ =~= seq![0x64u8, 0x69u8, 0x6Eu8, 0x66u8]);
    }

    fn box_version(&self) -> (v: Option<u8>) {
        None
    }

    fn box_flags(&self) -> (f: Option<u32>) {
        None
    }

    fn box_payload_size(&self) -> (r: Result<u32, Error>) {
        let size = size_of_box(&self.dref_box)?;
        payload_size(size)
    }

    fn write_box_payload<S: ByteSink>(&self, sink: &mut S) -> (r: Result<(), Error>) {
        self.dref_box.write_box(sink)
    }
}

/// MPEG-4 ES Description Box (ISO/IEC 14496-1).
#[derive(Debug, Clone, Copy)]
pub struct Mpeg4EsDescriptorBox {
    /// The AAC profile.
    pub profile: AacProfile,
    /// The sampling frequency.
    pub frequency: SamplingFrequency,
    /// The channel configuration.
    pub channel_configuration: ChannelConfiguration,
}

impl Mpeg4EsDescriptorBox {
    /// The audio specific configuration in 16 bits: from bit 11 up the profile plus 1,
    /// from bit 7 the index of the sampling frequency, from bit 3 the channel
    /// configuration.
    pub open spec fn audio_specific_config(&self) -> u16 {
        ((self.profile.code() + 1) * 0x800 + self.frequency.index() * 0x80
            + self.channel_configuration.code() * 8) as u16
    }
}

impl Mp4Box for Mpeg4EsDescriptorBox {
    /// The type `esds`.
    const BOX_TYPE: [u8; 4] = [0x65, 0x73, 0x64, 0x73];

    open spec fn version(&self) -> Option<u8> {
        Some(0)
    }

    open spec fn flags(&self) -> Option<u32> {
        None
    }

    /// The ES descriptor (tag 3, 25 bytes) with ES identifier 0, holding the decoder
    /// configuration descriptor (tag 4, 17 bytes) for an MPEG-4 audio stream with the decoder
    /// specific information (tag 5, 2 bytes), the audio specific configuration, and the SL
    /// configuration descriptor (tag 6, 1 byte) for MP4.
    open spec fn payload(&self) -> Encoding {
        Ok(
            seq![0x03u8, 25u8] + u16_be(0) + seq![0u8, 0x04u8, 17u8, 0x40u8, 0x15u8] + u24_be(0) + u32_be(0)
                + u32_be(0) + seq![0x05u8, 2u8] + u16_be(self.audio_specific_config()) + seq![
                0x06u8,
                1u8,
                2u8,
            ],
        )
    }

    /// The type is `esds`.
    proof fn lemma_header(&self)
        ensures
            Self::BOX_TYPE@ == seq![0x65u8, 0x73u8, 0x64u8, 0x73u8],
    {
        assert(Self::BOX_TYPE@ =~= seq![0x65u8, 0x73u8, 0x64u8, 0x73u8]);
    }

    fn box_version(&self) -> (v: Option<u8>) {
        Some(0)
    }

    fn box_flags(&self) -> (f: Option<u32>) {
        None
    }

    fn box_payload_size(&self) -> (r: Result<u32, Error>) {
        let mut counter = ByteCounter::with_sink();
        self.write_box_payload(&mut counter)?;
        assert(counter.written() =~= self.payload()->Ok_0);
        counted_size(&counter)
    }

    #[verifier::rlimit(40)]
    fn write_box_payload<S: ByteSink>(&self, sink: &mut S) -> (r: Result<(), Error>) {
        // es descriptor
        write_u8(sink, 0x03);  // descriptor_tag=es
        write_u8(sink, 25);  // descriptor_len
        write_u16(sink, 0);  // es_id
        write_u8(sink, 0);  // stream_priority and flags

        // decoder configuration descriptor
        write_u8(sink, 0x04);  // descriptor_tag=decoder_configuration
        write_u8(sink, 17);  // descriptor_len

        write_u8(sink, 0x40);  // object_type
        write_u8(sink, 0x15);  // stream_type=audio=5, upstream=0, reserved=1
        write_u24(sink, 0);  // buffer_size
        write_u32(sink, 0);  // max_bitrate
        write_u32(sink, 0);  // avg_bitrate

        // decoder specific info
        write_u8(sink, 0x05);  // descriptor_tag=decoder_specific_info
        write_u8(sink, 2);  // descriptor_len
        let config: u16 = (self.profile.as_u8() as u16 + 1) * 0x800 + (self.frequency.as_index() as u16)
            * 0x80 + (self.channel_configuration.as_u8() as u16) * 8;
        write_u16(sink, config);

        // sl configuration descriptor
        write_u8(sink, 0x06);  // descriptor_tag=es_configuration_descriptor
        write_u8(sink, 1);  // descriptor_len
        write_u8(sink, 2);  // MP4
        assert(sink.written() =~= old(sink).written() + self.payload()->Ok_0);
        Ok(())
    }
}

/// Sample Entry for AAC.
#[derive(Debug, Clone, Copy)]
pub struct AacSampleEntry {
    /// The description of the elementary stream.
    pub esds_box: Mpeg4EsDescriptorBox,
}

impl AacSampleEntry {
    /// What the sample entry holds before the box `esds`: data reference index 1, the
    /// number of channels, 16 bits per sample, and the sample rate. Another number of
    /// channels than 1 or 2 is `Unsupported`, a sample rate above 65535 Hz `InvalidInput`.
    pub open spec fn encoding_without_esds(&self) -> Encoding {
        if self.esds_box.channel_configuration.code() != 1
            && self.esds_box.channel_configuration.code() != 2 {
            Err(ErrorKind::Unsupported)
        } else if self.esds_box.frequency.hz() > 0xFFFF {
            Err(ErrorKind::InvalidInput)
        } else {
            Ok(
                zeroes(6) + u16_be(1) + zeroes(8) + u16_be(
                    self.esds_box.channel_configuration.code() as u16,
                ) + u16_be(16) + zeroes(4) + u16_be(self.esds_box.frequency.hz() as u16) + zeroes(2),
            )
        }
    }

    /// Writes what the sample entry holds before the box `esds`. On error nothing is
    /// written.
    #[verifier::rlimit(40)]
    pub fn write_box_payload_without_esds<S: ByteSink>(&self, sink: &mut S) -> (r: Result<
        (),
        Error,
    >)
        ensures
            match self.encoding_without_esds() {
                Ok(bytes) => r is Ok && final(sink).written() == old(sink).written() + bytes,
                Err(kind) => r == Err::<(), Error>(Error { kind }) && final(sink).written() == old(
                    sink,
                ).written(),
            },
    {
        let channels = self.esds_box.channel_configuration.as_u8() as u16;
        let sample_rate = self.esds_box.frequency.as_u32();
        if !(channels == 1 || channels == 2) {
            return Err(Error::new(ErrorKind::Unsupported));
        }
        if sample_rate > 0xFFFF {
            return Err(Error::new(ErrorKind::InvalidInput));
        }
        write_zeroes(sink, 6);
        write_u16(sink, 1);  // data_reference_index
        write_zeroes(sink, 8);
        write_u16(sink, channels);
        write_u16(sink, 16);
        write_zeroes(sink, 4);
        write_u16(sink, sample_rate as u16);
        write_zeroes(sink, 2);
        assert(sink.written() =~= old(sink).written() + self.encoding_without_esds()->Ok_0);
        Ok(())
    }
}

impl Mp4Box for AacSampleEntry {
    /// The type `mp4a`.
    const BOX_TYPE: [u8; 4] = [0x6D, 0x70, 0x34, 0x61];

    open spec fn version(&self) -> Option<u8> {
        None
    }

    open spec fn flags(&self) -> Option<u32> {
        None
    }

    /// The fields of the sample entry and the box `esds`.
    open spec fn payload(&self) -> Encoding {
        followed_by(self.encoding_without_esds(), encoding_of(&self.esds_box))
    }

    /// The type is `mp4a`.
    proof fn lemma_header(&self)
        ensures
            Self::BOX_TYPE@ == seq![0x6Du8, 0x70u8, 0x34u8, 0x61u8],
    {
        assert(Self::BOX_TYPE@ =~= seq![0x6Du8, 0x70u8, 0x34u8, 0x61u8]);
    }

    fn box_version(&self) -> (v: Option<u8>) {
        None
    }

    fn box_flags(&self) -> (f: Option<u32>) {
        None
    }

    fn box_payload_size(&self) -> (r: Result<u32, Error>) {
        let mut counter = ByteCounter::with_sink();
        self.write_box_payload_without_esds(&mut counter)?;
        assert(counter.written() =~= self.encoding_without_esds()->Ok_0);
        let mut size: u64 = counted_size(&counter)? as u64;
        size += size_of_box(&self.esds_box)?;
        payload_size(size)
    }

    fn write_box_payload<S: ByteSink>(&self, sink: &mut S) -> (r: Result<(), Error>) {
        self.write_box_payload_without_esds(sink)?;
        self.esds_box.write_box(sink)?;
        assert(sink.written() =~= old(sink).written() + self.payload()->Ok_0);
        Ok(())
    }
}

/// Box that contains AVC Decoder Configuration Record.
#[derive(Debug)]
pub struct AvcConfigurationBox {
    /// The record.
    pub configuration: AvcDecoderConfigurationRecord,
}

impl Mp4Box for AvcConfigurationBox {
    /// The type `avcC`.
    const BOX_TYPE: [u8; 4] = [0x61, 0x76, 0x63, 0x43];

    open spec fn version(&self) -> Option<u8> {
        None
    }

    open spec fn flags(&self) -> Option<u32> {
        None
    }

    /// The serialized record.
    open spec fn payload(&self) -> Encoding {
        self.configuration.encoding()
    }

    /// The type is `avcC`.
    proof fn lemma_header(&self)
        ensures
            Self::BOX_TYPE@ == seq![0x61u8, 0x76u8, 0x63u8, 0x43u8],
    {
        assert(Self::BOX_TYPE@ =~= seq![0x61u8, 0x76u8, 0x63u8, 0x43u8]);
    }

    fn box_version(&self) -> (v: Option<u8>) {
        None
    }

    fn box_flags(&self) -> (f: Option<u32>) {
        None
    }

    fn box_payload_size(&self) -> (r: Result<u32, Error>) {
        let mut counter = ByteCounter::with_sink();
        self.configuration.write_to(&mut counter)?;
        assert(counter.written() =~= self.payload()->Ok_0);
        counted_size(&counter)
    }

    fn write_box_payload<S: ByteSink>(&self, sink: &mut S) -> (r: Result<(), Error>) {
        self.configuration.write_to(sink)
    }
}

/// Sample Entry for AVC.
#[derive(Debug)]
pub struct AvcSampleEntry {
    /// The width of the pictures in pixels.
    pub width: u16,
    /// The height of the pictures in pixels.
    pub height: u16,
    /// The configuration of the decoder.
    pub avcc_box: AvcConfigurationBox,
}

impl AvcSampleEntry {
    /// What the sample entry holds before the box `avcC`: data reference index 1, width
    /// and height, a resolution of 72 dpi in both directions, one frame per sample, an
    /// empty compressor name, a depth of 24 bits and no colour table.
    pub open spec fn encoding_without_avcc(&self) -> Seq<u8> {
        zeroes(6) + u16_be(1) + zeroes(16) + u16_be(self.width) + u16_be(self.height) + u32_be(
            0x0048_0000,
        ) + u32_be(0x0048_0000) + zeroes(4) + u16_be(1) + zeroes(32) + u16_be(0x0018) + i16_be(-1i16)
    }

    /// Writes what the sample entry holds before the box `avcC`.
    #[verifier::rlimit(40)]
    pub fn write_box_payload_without_avcc<S: ByteSink>(&self, sink: &mut S) -> (r: Result<
        (),
        Error,
    >)
        ensures
            r is Ok,
            final(sink).written() == old(sink).written() + self.encoding_without_avcc(),
    {
        write_zeroes(sink, 6);
        write_u16(sink, 1);  // data_reference_index
        write_zeroes(sink, 16);
        write_u16(sink, self.width);
        write_u16(sink, self.height);
        write_u32(sink, 0x0048_0000);
        write_u32(sink, 0x0048_0000);
        write_zeroes(sink, 4);
        write_u16(sink, 1);
        write_zeroes(sink, 32);
        write_u16(sink, 0x0018);
        write_i16(sink, -1);
        assert(sink.written() =~= old(sink).written() + self.encoding_without_avcc());
        Ok(())
    }
}

impl Mp4Box for AvcSampleEntry {
    /// The type `avc1`.
    const BOX_TYPE: [u8; 4] = [0x61, 0x76, 0x63, 0x31];

    open spec fn version(&self) -> Option<u8> {
        None
    }

    open spec fn flags(&self) -> Option<u32> {
        None
    }

    /// The fields of the sample entry and the box `avcC`.
    open spec fn payload(&self) -> Encoding {
        followed_by(Ok(self.encoding_without_avcc()), encoding_of(&self.avcc_box))
    }

    /// The type is `avc1`.
    proof fn lemma_header(&self)
        ensures
            Self::BOX_TYPE@ == seq![0x61u8, 0x76u8, 0x63u8, 0x31u8],
    {
        assert(Self::BOX_TYPE@ =~= seq![0x61u8, 0x76u8, 0x63u8, 0x31u8]);
    }

    fn box_version(&self) -> (v: Option<u8>) {
        None
    }

    fn box_flags(&self) -> (f: Option<u32>) {
        None
    }

    fn box_payload_size(&self) -> (r: Result<u32, Error>) {
        let mut counter = ByteCounter::with_sink();
        self.write_box_payload_without_avcc(&mut counter)?;
        assert(counter.written() =~= self.encoding_without_avcc());
        let mut size: u64 = counted_size(&counter)? as u64;
        size += size_of_box(&self.avcc_box)?;
        payload_size(size)
    }

    fn write_box_payload<S: ByteSink>(&self, sink: &mut S) -> (r: Result<(), Error>) {
        self.write_box_payload_without_avcc(sink)?;
        self.avcc_box.write_box(sink)?;
        assert(sink.written() =~= old(sink).written() + self.payload()->Ok_0);
        Ok(())
    }
}

/// 8.5.2.2 Sample Entry (ISO/IEC 14496-12).
#[derive(Debug)]
pub enum SampleEntry {
    /// An entry for AVC video.
    Avc(AvcSampleEntry),
    /// An entry for AAC audio.
    Aac(AacSampleEntry),
}

impl SampleEntry {
    /// The serialized sample entry: the box `avc1` or the box `mp4a`.
    pub open spec fn encoding(&self) -> Encoding {
        match self {
            SampleEntry::Avc(x) => encoding_of(x),
            SampleEntry::Aac(x) => encoding_of(x),
        }
    }

    /// Returns the format of the entry: `avc1` or `mp4a`.
    pub fn format(&self) -> (f: SampleFormat)
        ensures
            f.0 == match self {
                SampleEntry::Avc(_) => AvcSampleEntry::BOX_TYPE,
                SampleEntry::Aac(_) => AacSampleEntry::BOX_TYPE,
            },
    {
        match self {
            SampleEntry::Avc(_) => SampleFormat(AvcSampleEntry::BOX_TYPE),
            SampleEntry::Aac(_) => SampleFormat(AacSampleEntry::BOX_TYPE),
        }
    }

    /// Returns the size of the box.
    pub fn box_size(&self) -> (r: Result<u32, Error>)
        ensures
            match self.encoding() {
                Ok(bytes) => bytes.len() <= u32::MAX && r == Ok::<u32, Error>(bytes.len() as u32),
                Err(kind) => r == Err::<u32, Error>(Error { kind }),
            },
    {
        proof {
            reveal(box_encoding);
        }
        match self {
            SampleEntry::Avc(x) => x.box_size(),
            SampleEntry::Aac(x) => x.box_size(),
        }
    }

    /// Writes the box. On error nothing is written.
    pub fn write_box<S: ByteSink>(&self, sink: &mut S) -> (r: Result<(), Error>)
        ensures
            match self.encoding() {
                Ok(bytes) => r is Ok && final(sink).written() == old(sink).written() + bytes,
                Err(kind) => r == Err::<(), Error>(Error { kind }) && final(sink).written() == old(
                    sink,
                ).written(),
            },
    {
        match self {
            SampleEntry::Avc(x) => x.write_box(sink),
            SampleEntry::Aac(x) => x.write_box(sink),
        }
    }
}

/// The serialized sample entries `entries`, one after the other. The first entry that
/// cannot be written decides the error.
pub open spec fn entries_encoding(entries: Seq<SampleEntry>) -> Encoding
    decreases entries.len(),
{
    if entries.len() == 0 {
        Ok(Seq::empty())
    } else {
        followed_by(entries_encoding(entries.drop_last()), entries.last().encoding())
    }
}

/// The error of the first entries is the error of all of them.
pub proof fn lemma_entries_encoding_prefix(entries: Seq<SampleEntry>, n: int)
    requires
        0 <= n <= entries.len(),
    ensures
        entries_encoding(entries.take(n)) matches Err(kind) ==> entries_encoding(entries) == Err::<
            Seq<u8>,
            ErrorKind,
        >(kind),
    decreases entries.len() - n,
{
    if n == entries.len() {
        assert(entries.take(n) =~= entries);
    } else {
        assert(entries.take(n + 1).drop_last() =~= entries.take(n));
        lemma_entries_encoding_prefix(entries, n + 1);
    }
}

/// Returns the sum of the sizes of `entries`, clamped to 2^32.
fn size_of_entries(entries: &Vec<SampleEntry>) -> (r: Result<u64, Error>)
    ensures
        size_is(entries_encoding(entries@), r),
        r matches Ok(n) ==> n <= 0x1_0000_0000,
{
    let mut size: u64 = 0;
    let mut i: usize = 0;
    assert(entries@.take(0) =~= Seq::<SampleEntry>::empty());
    while i < entries.len()
        invariant
            i <= entries@.len(),
            size_is(entries_encoding(entries@.take(i as int)), Ok::<u64, Error>(size)),
        decreases entries@.len() - i,
    {
        proof {
            assert(entries@.take(i + 1).drop_last() =~= entries@.take(i as int));
            lemma_entries_encoding_prefix(entries@, i + 1);
        }
        let n = entries[i].box_size()?;
        size = add_sizes(size, n as u64);
        i += 1;
    }
    assert(entries@.take(i as int) =~= entries@);
    Ok(size)
}

/// Writes the sample entries `entries` one after the other, up to the first that cannot
/// be written.
fn write_entries<S: ByteSink>(entries: &Vec<SampleEntry>, sink: &mut S) -> (r: Result<(), Error>)
    ensures
        match entries_encoding(entries@) {
            Ok(bytes) => r is Ok && final(sink).written() == old(sink).written() + bytes,
            Err(kind) => r == Err::<(), Error>(Error { kind }) && old(sink).written().is_prefix_of(
                final(sink).written(),
            ),
        },
{
    let mut i: usize = 0;
    assert(entries@.take(0) =~= Seq::<SampleEntry>::empty());
    assert(sink.written() =~= sink.written() + Seq::<u8>::empty());
    while i < entries.len()
        invariant
            i <= entries@.len(),
            entries_encoding(entries@.take(i as int)) is Ok,
            sink.written() == old(sink).written() + entries_encoding(entries@.take(i as int))->Ok_0,
        decreases entries@.len() - i,
    {
        proof {
            assert(entries@.take(i + 1).drop_last() =~= entries@.take(i as int));
            lemma_entries_encoding_prefix(entries@, i + 1);
        }
        entries[i].write_box(sink)?;
        i += 1;
        assert(sink.written() =~= old(sink).written() + entries_encoding(
            entries@.take(i as int),
        )->Ok_0);
    }
    assert(entries@.take(i as int) =~= entries@);
    Ok(())
}

/// 8.5.2 Sample Description Box (ISO/IEC 14496-12).
#[derive(Debug)]
pub struct SampleDescriptionBox {
    /// The sample entries.
    pub sample_entries: Vec<SampleEntry>,
}

impl SampleDescriptionBox {
    /// Makes a box without sample entries.
    pub fn new() -> (b: Self)
        ensures
            b.sample_entries@.len() == 0,
    {
        SampleDescriptionBox { sample_entries: Vec::new() }
    }
}

impl Default for SampleDescriptionBox {
    /// Makes what [`SampleDescriptionBox::new`] makes.
    fn default() -> (b: Self)
        ensures
            b.sample_entries@.len() == 0,
    {
        Self::new()
    }
}

impl Mp4Box for SampleDescriptionBox {
    /// The type `stsd`.
    const BOX_TYPE: [u8; 4] = [0x73, 0x74, 0x73, 0x64];

    open spec fn version(&self) -> Option<u8> {
        Some(0)
    }

    open spec fn flags(&self) -> Option<u32> {
        None
    }

    /// The number of sample entries and the entries, of which there has to be one at
    /// least: none is `InvalidInput`, and so are more than 2^32 - 1.
    open spec fn payload(&self) -> Encoding {
        if self.sample_entries@.len() == 0 || self.sample_entries@.len() > u32::MAX {
            Err(ErrorKind::InvalidInput)
        } else {
            followed_by(Ok(u32_be(self.sample_entries@.len() as u32)), entries_encoding(self.sample_entries@))
        }
    }

    /// The type is `stsd`.
    proof fn lemma_header(&self)
        ensures
            Self::BOX_TYPE@ == seq![0x73u8, 0x74u8, 0x73u8, 0x64u8],
    {
        assert(Self::BOX_TYPE@ =~= seq![0x73u8, 0x74u8, 0x73u8, 0x64u8]);
    }

    fn box_version(&self) -> (v: Option<u8>) {
        Some(0)
    }

    fn box_flags(&self) -> (f: Option<u32>) {
        None
    }

    fn box_payload_size(&self) -> (r: Result<u32, Error>) {
        if self.sample_entries.len() == 0 || self.sample_entries.len() > 0xFFFF_FFFF {
            return Err(Error::new(ErrorKind::InvalidInput));
        }
        let mut size: u64 = 4;
        size += size_of_entries(&self.sample_entries)?;
        payload_size(size)
    }

    #[verifier::rlimit(40)]
    fn write_box_payload<S: ByteSink>(&self, sink: &mut S) -> (r: Result<(), Error>) {
        if self.sample_entries.len() == 0 || self.sample_entries.len() > 0xFFFF_FFFF {
            return Err(Error::new(ErrorKind::InvalidInput));
        }
        write_u32(sink, self.sample_entries.len() as u32);
        write_entries(&self.sample_entries, sink)?;
        assert(sink.written() =~= old(sink).written() + self.payload()->Ok_0);
        Ok(())
    }
}

/// 8.5.1 Sample Table Box (ISO/IEC 14496-12).
#[derive(Debug)]
pub struct SampleTableBox {
    /// The sample descriptions.
    pub stsd_box: SampleDescriptionBox,
    /// The empty table of decoding times.
    pub stts_box: TimeToSampleBox,
    /// The empty table of chunks.
    pub stsc_box: SampleToChunkBox,
    /// The empty table of sample sizes.
    pub stsz_box: SampleSizeBox,
    /// The empty table of chunk offsets.
    pub stco_box: ChunkOffsetBox,
}

impl SampleTableBox {
    /// Makes a table without sample descriptions.
    pub fn new() -> (b: Self)
        ensures
            b.stsd_box.sample_entries@.len() == 0,
    {
        SampleTableBox {
            stsd_box: SampleDescriptionBox::new(),
            stts_box: TimeToSampleBox,
            stsc_box: SampleToChunkBox,
            stsz_box: SampleSizeBox,
            stco_box: ChunkOffsetBox,
        }
    }
}

impl Default for SampleTableBox {
    /// Makes what [`SampleTableBox::new`] makes.
    fn default() -> (b: Self)
        ensures
            b.stsd_box.sample_entries@.len() == 0,
    {
        Self::new()
    }
}

impl Mp4Box for SampleTableBox {
    /// The type `stbl`.
    const BOX_TYPE: [u8; 4] = [0x73, 0x74, 0x62, 0x6C];

    open spec fn version(&self) -> Option<u8> {
        None
    }

    open spec fn flags(&self) -> Option<u32> {
        None
    }

    /// The boxes `stsd`, `stts`, `stsc`, `stsz` and `stco`.
    open spec fn payload(&self) -> Encoding {
        followed_by(
            followed_by(
                followed_by(
                    followed_by(encoding_of(&self.stsd_box), encoding_of(&self.stts_box)),
                    encoding_of(&self.stsc_box),
                ),
                encoding_of(&self.stsz_box),
            ),
            encoding_of(&self.stco_box),
        )
    }

    /// The type is `stbl`.
    proof fn lemma_header(&self)
        ensures
            Self::BOX_TYPE@ == seq![0x73u8, 0x74u8, 0x62u8, 0x6Cu8],
    {
        assert(Self::BOX_TYPE@ =~= seq![0x73u8, 0x74u8, 0x62u8, 0x6Cu8]);
    }

    fn box_version(&self) -> (v: Option<u8>) {
        None
    }

    fn box_flags(&self) -> (f: Option<u32>) {
        None
    }

    fn box_payload_size(&self) -> (r: Result<u32, Error>) {
        let mut size: u64 = 0;
        size += size_of_box(&self.stsd_box)?;
        size += size_of_box(&self.stts_box)?;
        size += size_of_box(&self.stsc_box)?;
        size += size_of_box(&self.stsz_box)?;
        size += size_of_box(&self.stco_box)?;
        payload_size(size)
    }

    #[verifier::rlimit(40)]
    fn write_box_payload<S: ByteSink>(&self, sink: &mut S) -> (r: Result<(), Error>) {
        self.stsd_box.write_box(sink)?;
        self.stts_box.write_box(sink)?;
        self.stsc_box.write_box(sink)?;
        self.stsz_box.write_box(sink)?;
        self.stco_box.write_box(sink)?;
        assert(sink.written() =~= old(sink).written() + self.payload()->Ok_0);
        Ok(())
    }
}

/// 8.4.4 Media Information Box (ISO/IEC 14496-12).
#[derive(Debug)]
pub struct MediaInformationBox {
    /// The header of a video track.
    pub vmhd_box: Option<VideoMediaHeaderBox>,
    /// The header of an audio track.
    pub smhd_box: Option<SoundMediaHeaderBox>,
    /// Where the media data are.
    pub dinf_box: DataInformationBox,
    /// The sample table.
    pub stbl_box: SampleTableBox,
}

impl MediaInformationBox {
    /// Makes the box of a video track, if `is_video`, with the box `vmhd`, or of an audio
    /// track with the box `smhd`.
    pub fn new(is_video: bool) -> (b: Self)
        ensures
            b.vmhd_box is Some <==> is_video,
            b.smhd_box is Some <==> !is_video,
            b.stbl_box.stsd_box.sample_entries@.len() == 0,
    {
        MediaInformationBox {
            vmhd_box: if is_video {
                Some(VideoMediaHeaderBox)
            } else {
                None
            },
            smhd_box: if !is_video {
                Some(SoundMediaHeaderBox)
            } else {
                None
            },
            dinf_box: DataInformationBox::new(),
            stbl_box: SampleTableBox::new(),
        }
    }
}

impl Mp4Box for MediaInformationBox {
    /// The type `minf`.
    const BOX_TYPE: [u8; 4] = [0x6D, 0x69, 0x6E, 0x66];

    open spec fn version(&self) -> Option<u8> {
        None
    }

    open spec fn flags(&self) -> Option<u32> {
        None
    }

    /// The boxes `vmhd` and `smhd`, as far as they are there, and the boxes `dinf` and
    /// `stbl`.
    open spec fn payload(&self) -> Encoding {
        followed_by(
            followed_by(
                followed_by(optional_encoding(self.vmhd_box), optional_encoding(self.smhd_box)),
                encoding_of(&self.dinf_box),
            ),
            encoding_of(&self.stbl_box),
        )
    }

    /// The type is `minf`.
    proof fn lemma_header(&self)
        ensures
            Self::BOX_TYPE@ == seq![0x6Du8, 0x69u8, 0x6Eu8, 0x66u8],
    {
        assert(Self::BOX_TYPE@ =~= seq![0x6Du8, 0x69u8, 0x6Eu8, 0x66u8]);
    }

    fn box_version(&self) -> (v: Option<u8>) {
        None
    }

    fn box_flags(&self) -> (f: Option<u32>) {
        None
    }

    fn box_payload_size(&self) -> (r: Result<u32, Error>) {
        let mut size: u64 = 0;
        size += size_of_optional_box(&self.vmhd_box)?;
        size += size_of_optional_box(&self.smhd_box)?;
        size += size_of_box(&self.dinf_box)?;
        size += size_of_box(&self.stbl_box)?;
        payload_size(size)
    }

    #[verifier::rlimit(40)]
    fn write_box_payload<S: ByteSink>(&self, sink: &mut S) -> (r: Result<(), Error>) {
        write_optional_box(&self.vmhd_box, sink)?;
        write_optional_box(&self.smhd_box, sink)?;
        self.dinf_box.write_box(sink)?;
        self.stbl_box.write_box(sink)?;
        assert(sink.written() =~= old(sink).written() + self.payload()->Ok_0);
        Ok(())
    }
}

/// The handler type `vide`.
pub open spec fn vide() -> Seq<u8> {
    seq![0x76u8, 0x69u8, 0x64u8, 0x65u8]
}

/// The handler type `soun`.
pub open spec fn soun() -> Seq<u8> {
    seq![0x73u8, 0x6Fu8, 0x75u8, 0x6Eu8]
}

/// The name `Video Handler`.
pub open spec fn video_handler() -> Seq<u8> {
    seq![
        0x56u8, 0x69u8, 0x64u8, 0x65u8, 0x6Fu8, 0x20u8, 0x48u8, 0x61u8, 0x6Eu8, 0x64u8, 0x6Cu8,
        0x65u8, 0x72u8,
    ]
}

/// The name `Sound Handler`.
pub open spec fn sound_handler() -> Seq<u8> {
    seq![
        0x53u8, 0x6Fu8, 0x75u8, 0x6Eu8, 0x64u8, 0x20u8, 0x48u8, 0x61u8, 0x6Eu8, 0x64u8, 0x6Cu8,
        0x65u8, 0x72u8,
    ]
}

/// 8.4.3 Handler Reference Box (ISO/IEC 14496-12).
#[derive(Debug)]
pub struct HandlerReferenceBox {
    handler_type: HandlerType,
    name: [u8; 13],
}

impl HandlerReferenceBox {
    /// The type of the handler.
    pub closed spec fn kind(&self) -> Seq<u8> {
        self.handler_type.0@
    }

    /// The name of the handler, without the zero byte that ends it.
    pub closed spec fn name(&self) -> Seq<u8> {
        self.name@
    }

    /// Makes the box of a video track, if `is_video`, with the type `vide` and the name
    /// `Video Handler`, or of an audio track with `soun` and `Sound Handler`.
    pub fn new(is_video: bool) -> (b: Self)
        ensures
            b.kind() == if is_video {
                vide()
            } else {
                soun()
            },
            b.name() == if is_video {
                video_handler()
            } else {
                sound_handler()
            },
    {
        if is_video {
            let b = HandlerReferenceBox {
                handler_type: HandlerType([0x76, 0x69, 0x64, 0x65]),
                name: [0x56, 0x69, 0x64, 0x65, 0x6F, 0x20, 0x48, 0x61, 0x6E, 0x64, 0x6C, 0x65, 0x72],
            };
            assert(b.handler_type.0@ =~= vide());
            assert(b.name@ =~= video_handler());
            b
        } else {
            let b = HandlerReferenceBox {
                handler_type: HandlerType([0x73, 0x6F, 0x75, 0x6E]),
                name: [0x53, 0x6F, 0x75, 0x6E, 0x64, 0x20, 0x48, 0x61, 0x6E, 0x64, 0x6C, 0x65, 0x72],
            };
            assert(b.handler_type.0@ =~= soun());
            assert(b.name@ =~= sound_handler());
            b
        }
    }

    /// Returns the type of the handler.
    pub fn handler_type(&self) -> (t: HandlerType)
        ensures
            t.0@ == self.kind(),
    {
        self.handler_type
    }
}

impl Mp4Box for HandlerReferenceBox {
    /// The type `hdlr`.
    const BOX_TYPE: [u8; 4] = [0x68, 0x64, 0x6C, 0x72];

    open spec fn version(&self) -> Option<u8> {
        Some(0)
    }

    open spec fn flags(&self) -> Option<u32> {
        None
    }

    /// Four zero bytes, the type of the handler, twelve zero bytes, and the name with a
    /// zero byte at its end.
    open spec fn payload(&self) -> Encoding {
        Ok(zeroes(4) + self.kind() + zeroes(12) + self.name() + seq![0u8])
    }

    /// The type is `hdlr`.
    proof fn lemma_header(&self)
        ensures
            Self::BOX_TYPE@ == seq![0x68u8, 0x64u8, 0x6Cu8, 0x72u8],
    {
        assert(Self::BOX_TYPE@ =~= seq![0x68u8, 0x64u8, 0x6Cu8, 0x72u8]);
    }

    fn box_version(&self) -> (v: Option<u8>) {
        Some(0)
    }

    fn box_flags(&self) -> (f: Option<u32>) {
        None
    }

    fn box_payload_size(&self) -> (r: Result<u32, Error>) {
        let mut counter = ByteCounter::with_sink();
        self.write_box_payload(&mut counter)?;
        assert(counter.written() =~= self.payload()->Ok_0);
        counted_size(&counter)
    }

    #[verifier::rlimit(40)]
    fn write_box_payload<S: ByteSink>(&self, sink: &mut S) -> (r: Result<(), Error>) {
        write_zeroes(sink, 4);
        write_all(sink, &self.handler_type.0);
        write_zeroes(sink, 12);
        write_all(sink, &self.name);
        write_u8(sink, 0);
        assert(sink.written() =~= old(sink).written() + self.payload()->Ok_0);
        Ok(())
    }
}

/// 8.4.2 Media Header Box (ISO/IEC 14496-12).
#[derive(Debug)]
pub struct MediaHeaderBox {
    /// The number of ticks in a second.
    pub timescale: u32,
    /// The duration of the media in ticks.
    pub duration: u32,
}

impl MediaHeaderBox {
    /// Makes a header with `timescale` 0 and `duration` 1.
    pub fn new() -> (b: Self)
        ensures
            b.timescale == 0,
            b.duration == 1,
    {
        MediaHeaderBox { timescale: 0, duration: 1 }
    }
}

impl Default for MediaHeaderBox {
    /// Makes what [`MediaHeaderBox::new`] makes.
    fn default() -> (b: Self)
        ensures
            b.timescale == 0,
            b.duration == 1,
    {
        Self::new()
    }
}

impl Mp4Box for MediaHeaderBox {
    /// The type `mdhd`.
    const BOX_TYPE: [u8; 4] = [0x6D, 0x64, 0x68, 0x64];

    open spec fn version(&self) -> Option<u8> {
        Some(0)
    }

    open spec fn flags(&self) -> Option<u32> {
        None
    }

    /// Creation and modification time 0, timescale, duration, the language `und` and two
    /// zero bytes.
    open spec fn payload(&self) -> Encoding {
        Ok(
            u32_be(0) + u32_be(0) + u32_be(self.timescale) + u32_be(self.duration) + u16_be(0x55c4)
                + zeroes(2),
        )
    }

    /// The type is `mdhd`.
    proof fn lemma_header(&self)
        ensures
            Self::BOX_TYPE@ == seq![0x6Du8, 0x64u8, 0x68u8, 0x64u8],
    {
        assert(Self::BOX_TYPE@ =~= seq![0x6Du8, 0x64u8, 0x68u8, 0x64u8]);
    }

    fn box_version(&self) -> (v: Option<u8>) {
        Some(0)
    }

    fn box_flags(&self) -> (f: Option<u32>) {
        None
    }

    fn box_payload_size(&self) -> (r: Result<u32, Error>) {
        Ok(20)
    }

    fn write_box_payload<S: ByteSink>(&self, sink: &mut S) -> (r: Result<(), Error>) {
        write_u32(sink, 0);  // creation_time
        write_u32(sink, 0);  // modification_time
        write_u32(sink, self.timescale);
        write_u32(sink, self.duration);
        write_u16(sink, 0x55c4);  // language
        write_zeroes(sink, 2);
        assert(sink.written() =~= old(sink).written() + self.payload()->Ok_0);
        Ok(())
    }
}

/// 8.4.1 Media Box (ISO/IEC 14496-12).
#[derive(Debug)]
pub struct MediaBox {
    /// The header of the media.
    pub mdhd_box: MediaHeaderBox,
    /// The handler of the media.
    pub hdlr_box: HandlerReferenceBox,
    /// What the media hold.
    pub minf_box: MediaInformationBox,
}

impl MediaBox {
    /// Makes the box of a video track, if `is_video`, or of an audio track.
    pub fn new(is_video: bool) -> (b: Self)
        ensures
            b.mdhd_box.timescale == 0,
            b.mdhd_box.duration == 1,
            b.hdlr_box.kind() == if is_video {
                vide()
            } else {
                soun()
            },
            b.hdlr_box.name() == if is_video {
                video_handler()
            } else {
                sound_handler()
            },
            b.minf_box.vmhd_box is Some <==> is_video,
            b.minf_box.smhd_box is Some <==> !is_video,
            b.minf_box.stbl_box.stsd_box.sample_entries@.len() == 0,
    {
        MediaBox {
            mdhd_box: MediaHeaderBox::new(),
            hdlr_box: HandlerReferenceBox::new(is_video),
            minf_box: MediaInformationBox::new(is_video),
        }
    }
}

impl Mp4Box for MediaBox {
    /// The type `mdia`.
    const BOX_TYPE: [u8; 4] = [0x6D, 0x64, 0x69, 0x61];

    open spec fn version(&self) -> Option<u8> {
        None
    }

    open spec fn flags(&self) -> Option<u32> {
        None
    }

    /// The boxes `mdhd`, `hdlr` and `minf`.
    open spec fn payload(&self) -> Encoding {
        followed_by(
            followed_by(encoding_of(&self.mdhd_box), encoding_of(&self.hdlr_box)),
            encoding_of(&self.minf_box),
        )
    }

    /// The type is `mdia`.
    proof fn lemma_header(&self)
        ensures
            Self::BOX_TYPE@ == seq![0x6Du8, 0x64u8, 0x69u8, 0x61u8],
    {
        assert(Self::BOX_TYPE@ =~= seq![0x6Du8, 0x64u8, 0x69u8, 0x61u8]);
    }

    fn box_version(&self) -> (v: Option<u8>) {
        None
    }

    fn box_flags(&self) -> (f: Option<u32>) {
        None
    }

    fn box_payload_size(&self) -> (r: Result<u32, Error>) {
        let mut size: u64 = 0;
        size += size_of_box(&self.mdhd_box)?;
        size += size_of_box(&self.hdlr_box)?;
        size += size_of_box(&self.minf_box)?;
        payload_size(size)
    }

    fn write_box_payload<S: ByteSink>(&self, sink: &mut S) -> (r: Result<(), Error>) {
        self.mdhd_box.write_box(sink)?;
        self.hdlr_box.write_box(sink)?;
        self.minf_box.write_box(sink)?;
        assert(sink.written() =~= old(sink).written() + self.payload()->Ok_0);
        Ok(())
    }
}

/// 8.6.6 Edit List Box (ISO/IEC 14496-12).
#[derive(Debug)]
pub struct EditListBox {
    /// The time in the media at which the one edit starts.
    pub media_time: i32,
}

impl EditListBox {
    /// Makes a list whose edit starts at the media time 0.
    pub fn new() -> (b: Self)
        ensures
            b.media_time == 0,
    {
        EditListBox { media_time: 0 }
    }
}

impl Default for EditListBox {
    /// Makes what [`EditListBox::new`] makes.
    fn default() -> (b: Self)
        ensures
            b.media_time == 0,
    {
        Self::new()
    }
}

impl Mp4Box for EditListBox {
    /// The type `elst`.
    const BOX_TYPE: [u8; 4] = [0x65, 0x6C, 0x73, 0x74];

    open spec fn version(&self) -> Option<u8> {
        Some(0)
    }

    open spec fn flags(&self) -> Option<u32> {
        None
    }

    /// One entry: segment duration 0, which says that the edit spans all the media that
    /// follow, the media time, and the media rate 1.0.
    open spec fn payload(&self) -> Encoding {
        Ok(u32_be(1) + u32_be(0) + i32_be(self.media_time) + i16_be(1) + i16_be(0))
    }

    /// The type is `elst`.
    proof fn lemma_header(&self)
        ensures
            Self::BOX_TYPE@ == seq![0x65u8, 0x6Cu8, 0x73u8, 0x74u8],
    {
        assert(Self::BOX_TYPE@ =~= seq![0x65u8, 0x6Cu8, 0x73u8, 0x74u8]);
    }

    fn box_version(&self) -> (v: Option<u8>) {
        Some(0)
    }

    fn box_flags(&self) -> (f: Option<u32>) {
        None
    }

    fn box_payload_size(&self) -> (r: Result<u32, Error>) {
        Ok(16)
    }

    fn write_box_payload<S: ByteSink>(&self, sink: &mut S) -> (r: Result<(), Error>) {
        write_u32(sink, 1);  // entry_count
        write_u32(sink, 0);  // segment_duration ("0" indicating that it spans all subsequent media)
        write_i32(sink, self.media_time);
        write_i16(sink, 1);  // media_rate_integer
        write_i16(sink, 0);  // media_rate_fraction
        assert(sink.written() =~= old(sink).written() + self.payload()->Ok_0);
        Ok(())
    }
}

/// 8.6.5 Edit Box (ISO/IEC 14496-12).
#[derive(Debug)]
pub struct EditBox {
    /// The edit list.
    pub elst_box: EditListBox,
}

impl EditBox {
    /// Makes a box whose edit starts at the media time 0.
    pub fn new() -> (b: Self)
        ensures
            b.elst_box.media_time == 0,
    {
        EditBox { elst_box: EditListBox::new() }
    }
}

impl Default for EditBox {
    /// Makes what [`EditBox::new`] makes.
    fn default() -> (b: Self)
        ensures
            b.elst_box.media_time == 0,
    {
        Self::new()
    }
}

impl Mp4Box for EditBox {
    /// The type `edts`.
    const BOX_TYPE: [u8; 4] = [0x65, 0x64, 0x74, 0x73];

    open spec fn version(&self) -> Option<u8> {
        None
    }

    open spec fn flags(&self) -> Option<u32> {
        None
    }

    /// The box `elst`.
    open spec fn payload(&self) -> Encoding {
        encoding_of(&self.elst_box)
    }

    /// The type is `edts`.
    proof fn lemma_header(&self)
        ensures
            Self::BOX_TYPE@ == seq![0x65u8, 0x64u8, 0x74u8, 0x73u8],
    {
        assert(Self::BOX_TYPE@ =~= seq![0x65u8, 0x64u8, 0x74u8, 0x73u8]);
    }

    fn box_version(&self) -> (v: Option<u8>) {
        None
    }

    fn box_flags(&self) -> (f: Option<u32>) {
        None
    }

    fn box_payload_size(&self) -> (r: Result<u32, Error>) {
        let size = size_of_box(&self.elst_box)?;
        payload_size(size)
    }

    fn write_box_payload<S: ByteSink>(&self, sink: &mut S) -> (r: Result<(), Error>) {
        self.elst_box.write_box(sink)
    }
}

/// 8.3.2 Track Header Box (ISO/IEC 14496-12).
#[derive(Debug)]
pub struct TrackHeaderBox {
    /// The identifier of the track.
    pub track_id: u32,
    /// The duration of the track in ticks of the movie.
    pub duration: u32,
    /// The volume, in 8.8 fixed point.
    pub volume: i16,
    /// The width, in 16.16 fixed point.
    pub width: u32,
    /// The height, in 16.16 fixed point.
    pub height: u32,
}

impl TrackHeaderBox {
    /// Makes the header of the video track, if `is_video`, with volume 0, or of the audio
    /// track with volume 1.0.
    pub fn new(is_video: bool) -> (b: Self)
        ensures
            b.track_id == track_id(is_video),
            b.duration == 1,
            b.volume == if is_video {
                0i16
            } else {
                256i16
            },
            b.width == 0,
            b.height == 0,
    {
        TrackHeaderBox {
            track_id: if is_video {
                VIDEO_TRACK_ID
            } else {
                AUDIO_TRACK_ID
            },
            duration: 1,
            volume: if is_video {
                0
            } else {
                256
            },
            width: 0,
            height: 0,
        }
    }
}

impl Mp4Box for TrackHeaderBox {
    /// The type `tkhd`.
    const BOX_TYPE: [u8; 4] = [0x74, 0x6B, 0x68, 0x64];

    open spec fn version(&self) -> Option<u8> {
        Some(0)
    }

    /// The track is enabled, in the movie and in the preview.
    open spec fn flags(&self) -> Option<u32> {
        Some(7)
    }

    /// Creation and modification time 0, the track identifier, the duration, layer and
    /// alternate group 0, the volume, the identity matrix, width and height.
    open spec fn payload(&self) -> Encoding {
        Ok(
            u32_be(0) + u32_be(0) + u32_be(self.track_id) + zeroes(4) + u32_be(self.duration) + zeroes(8)
                + i16_be(0) + i16_be(0) + i16_be(self.volume) + zeroes(2) + identity_matrix() + u32_be(
                self.width,
            ) + u32_be(self.height),
        )
    }

    /// The type is `tkhd`.
    proof fn lemma_header(&self)
        ensures
            Self::BOX_TYPE@ == seq![0x74u8, 0x6Bu8, 0x68u8, 0x64u8],
    {
        assert(Self::BOX_TYPE@ =~= seq![0x74u8, 0x6Bu8, 0x68u8, 0x64u8]);
    }

    fn box_version(&self) -> (v: Option<u8>) {
        Some(0)
    }

    fn box_flags(&self) -> (f: Option<u32>) {
        Some(7)
    }

    fn box_payload_size(&self) -> (r: Result<u32, Error>) {
        let mut counter = ByteCounter::with_sink();
        self.write_box_payload(&mut counter)?;
        assert(counter.written() =~= self.payload()->Ok_0);
        counted_size(&counter)
    }

    #[verifier::rlimit(40)]
    fn write_box_payload<S: ByteSink>(&self, sink: &mut S) -> (r: Result<(), Error>) {
        write_u32(sink, 0);  // creation_time
        write_u32(sink, 0);  // modification_time
        write_u32(sink, self.track_id);
        write_zeroes(sink, 4);
        write_u32(sink, self.duration);
        write_zeroes(sink, 8);
        write_i16(sink, 0);  // layer
        write_i16(sink, 0);  // alternate_group
        write_i16(sink, self.volume);
        write_zeroes(sink, 2);
        write_identity_matrix(sink);
        write_u32(sink, self.width);
        write_u32(sink, self.height);
        assert(sink.written() =~= old(sink).written() + self.payload()->Ok_0);
        Ok(())
    }
}

/// 8.3.1 Track Box (ISO/IEC 14496-12).
#[derive(Debug)]
pub struct TrackBox {
    /// The header of the track.
    pub tkhd_box: TrackHeaderBox,
    /// The edits of the track.
    pub edts_box: EditBox,
    /// The media of the track.
    pub mdia_box: MediaBox,
}

impl TrackBox {
    /// Makes a new `TrackBox` instance for the video track, if `is_video`, or for the
    /// audio track.
    pub fn new(is_video: bool) -> (b: Self)
        ensures
            b.tkhd_box.track_id == track_id(is_video),
            b.tkhd_box.duration == 1,
            b.tkhd_box.volume == if is_video {
                0i16
            } else {
                256i16
            },
            b.tkhd_box.width == 0,
            b.tkhd_box.height == 0,
            b.edts_box.elst_box.media_time == 0,
            b.mdia_box.mdhd_box.timescale == 0,
            b.mdia_box.mdhd_box.duration == 1,
            b.mdia_box.hdlr_box.kind() == if is_video {
                vide()
            } else {
                soun()
            },
            b.mdia_box.hdlr_box.name() == if is_video {
                video_handler()
            } else {
                sound_handler()
            },
            b.mdia_box.minf_box.vmhd_box is Some <==> is_video,
            b.mdia_box.minf_box.smhd_box is Some <==> !is_video,
            b.mdia_box.minf_box.stbl_box.stsd_box.sample_entries@.len() == 0,
    {
        TrackBox {
            tkhd_box: TrackHeaderBox::new(is_video),
            edts_box: EditBox::new(),
            mdia_box: MediaBox::new(is_video),
        }
    }
}

impl Mp4Box for TrackBox {
    /// The type `trak`.
    const BOX_TYPE: [u8; 4] = [0x74, 0x72, 0x61, 0x6B];

    open spec fn version(&self) -> Option<u8> {
        None
    }

    open spec fn flags(&self) -> Option<u32> {
        None
    }

    /// The boxes `tkhd`, `edts` and `mdia`.
    open spec fn payload(&self) -> Encoding {
        followed_by(
            followed_by(encoding_of(&self.tkhd_box), encoding_of(&self.edts_box)),
            encoding_of(&self.mdia_box),
        )
    }

    /// The type is `trak`.
    proof fn lemma_header(&self)
        ensures
            Self::BOX_TYPE@ == seq![0x74u8, 0x72u8, 0x61u8, 0x6Bu8],
    {
        assert(Self::BOX_TYPE@ =~= seq![0x74u8, 0x72u8, 0x61u8, 0x6Bu8]);
    }

    fn box_version(&self) -> (v: Option<u8>) {
        None
    }

    fn box_flags(&self) -> (f: Option<u32>) {
        None
    }

    fn box_payload_size(&self) -> (r: Result<u32, Error>) {
        let mut size: u64 = 0;
        size += size_of_box(&self.tkhd_box)?;
        size += size_of_box(&self.edts_box)?;
        size += size_of_box(&self.mdia_box)?;
        payload_size(size)
    }

    fn write_box_payload<S: ByteSink>(&self, sink: &mut S) -> (r: Result<(), Error>) {
        self.tkhd_box.write_box(sink)?;
        self.edts_box.write_box(sink)?;
        self.mdia_box.write_box(sink)?;
        assert(sink.written() =~= old(sink).written() + self.payload()->Ok_0);
        Ok(())
    }
}

/// 8.2.2 Movie Header Box (ISO/IEC 14496-12).
#[derive(Debug)]
pub struct MovieHeaderBox {
    /// The number of ticks in a second.
    pub timescale: u32,
    /// The duration of the movie in ticks.
    pub duration: u32,
}

impl MovieHeaderBox {
    /// Makes a header with `timescale` 1 and `duration` 1.
    pub fn new() -> (b: Self)
        ensures
            b.timescale == 1,
            b.duration == 1,
    {
        MovieHeaderBox { timescale: 1, duration: 1 }
    }
}

impl Default for MovieHeaderBox {
    /// Makes what [`MovieHeaderBox::new`] makes.
    fn default() -> (b: Self)
        ensures
            b.timescale == 1,
            b.duration == 1,
    {
        Self::new()
    }
}

impl Mp4Box for MovieHeaderBox {
    /// The type `mvhd`.
    const BOX_TYPE: [u8; 4] = [0x6D, 0x76, 0x68, 0x64];

    open spec fn version(&self) -> Option<u8> {
        Some(0)
    }

    open spec fn flags(&self) -> Option<u32> {
        None
    }

    /// Creation and modification time 0, timescale, duration, the rate 1.0 in 16.16 fixed
    /// point, the volume 1.0 in 8.8 fixed point, the identity matrix, and `0xFFFF_FFFF` as
    /// the next track identifier, which says that no further track follows.
    open spec fn payload(&self) -> Encoding {
        Ok(
            u32_be(0) + u32_be(0) + u32_be(self.timescale) + u32_be(self.duration) + i32_be(0x1_0000)
                + i16_be(256) + zeroes(2) + zeroes(8) + identity_matrix() + zeroes(24) + u32_be(
                0xFFFF_FFFF,
            ),
        )
    }

    /// The type is `mvhd`.
    proof fn lemma_header(&self)
        ensures
            Self::BOX_TYPE@ == seq![0x6Du8, 0x76u8, 0x68u8, 0x64u8],
    {
        assert(Self::BOX_TYPE@ =~= seq![0x6Du8, 0x76u8, 0x68u8, 0x64u8]);
    }

    fn box_version(&self) -> (v: Option<u8>) {
        Some(0)
    }

    fn box_flags(&self) -> (f: Option<u32>) {
        None
    }

    fn box_payload_size(&self) -> (r: Result<u32, Error>) {
        let mut counter = ByteCounter::with_sink();
        self.write_box_payload(&mut counter)?;
        assert(counter.written() =~= self.payload()->Ok_0);
        counted_size(&counter)
    }

    #[verifier::rlimit(40)]
    fn write_box_payload<S: ByteSink>(&self, sink: &mut S) -> (r: Result<(), Error>) {
        write_u32(sink, 0);  // creation_time
        write_u32(sink, 0);  // modification_time
        write_u32(sink, self.timescale);
        write_u32(sink, self.duration);
        write_i32(sink, 0x1_0000);  // rate
        write_i16(sink, 256);  // volume
        write_zeroes(sink, 2);
        write_zeroes(sink, 8);
        write_identity_matrix(sink);
        write_zeroes(sink, 24);
        write_u32(sink, 0xFFFF_FFFF);  // next_track_id
        assert(sink.written() =~= old(sink).written() + self.payload()->Ok_0);
        Ok(())
    }
}

/// 8.8.3 Track Extends Box (ISO/IEC 14496-12).
#[derive(Debug)]
pub struct TrackExtendsBox {
    /// The identifier of the track.
    pub track_id: u32,
    /// The index of the sample description that the samples of the track use.
    pub default_sample_description_index: u32,
    /// The duration of a sample that has none of its own.
    pub default_sample_duration: u32,
    /// The size of a sample that has none of its own.
    pub default_sample_size: u32,
    /// The flags of a sample that has none of its own.
    pub default_sample_flags: u32,
}

impl TrackExtendsBox {
    /// Makes a new `TrackExtendsBox` instance for the video track, if `is_video`, or for
    /// the audio track: sample description 1, and 0 for the other defaults.
    pub fn new(is_video: bool) -> (b: Self)
        ensures
            b.track_id == track_id(is_video),
            b.default_sample_description_index == 1,
            b.default_sample_duration == 0,
            b.default_sample_size == 0,
            b.default_sample_flags == 0,
    {
        TrackExtendsBox {
            track_id: if is_video {
                VIDEO_TRACK_ID
            } else {
                AUDIO_TRACK_ID
            },
            default_sample_description_index: 1,
            default_sample_duration: 0,
            default_sample_size: 0,
            default_sample_flags: 0,
        }
    }
}

impl Mp4Box for TrackExtendsBox {
    /// The type `trex`.
    const BOX_TYPE: [u8; 4] = [0x74, 0x72, 0x65, 0x78];

    open spec fn version(&self) -> Option<u8> {
        Some(0)
    }

    open spec fn flags(&self) -> Option<u32> {
        None
    }

    /// The track identifier and the four defaults.
    open spec fn payload(&self) -> Encoding {
        Ok(
            u32_be(self.track_id) + u32_be(self.default_sample_description_index) + u32_be(
                self.default_sample_duration,
            ) + u32_be(self.default_sample_size) + u32_be(self.default_sample_flags),
        )
    }

    /// The type is `trex`.
    proof fn lemma_header(&self)
        ensures
            Self::BOX_TYPE@ == seq![0x74u8, 0x72u8, 0x65u8, 0x78u8],
    {
        assert(Self::BOX_TYPE@ =~= seq![0x74u8, 0x72u8, 0x65u8, 0x78u8]);
    }

    fn box_version(&self) -> (v: Option<u8>) {
        Some(0)
    }

    fn box_flags(&self) -> (f: Option<u32>) {
        None
    }

    fn box_payload_size(&self) -> (r: Result<u32, Error>) {
        Ok(20)
    }

    fn write_box_payload<S: ByteSink>(&self, sink: &mut S) -> (r: Result<(), Error>) {
        write_u32(sink, self.track_id);
        write_u32(sink, self.default_sample_description_index);
        write_u32(sink, self.default_sample_duration);
        write_u32(sink, self.default_sample_size);
        write_u32(sink, self.default_sample_flags);
        assert(sink.written() =~= old(sink).written() + self.payload()->Ok_0);
        Ok(())
    }
}

/// 8.8.2 Movie Extends Header Box (ISO/IEC 14496-12).
#[derive(Debug)]
pub struct MovieExtendsHeaderBox {
    /// The duration of the movie with its fragments, in ticks of the movie.
    pub fragment_duration: u32,
}

impl MovieExtendsHeaderBox {
    /// Makes a header with `fragment_duration` 0.
    pub fn new() -> (b: Self)
        ensures
            b.fragment_duration == 0,
    {
        MovieExtendsHeaderBox { fragment_duration: 0 }
    }
}

impl Default for MovieExtendsHeaderBox {
    /// Makes what [`MovieExtendsHeaderBox::new`] makes.
    fn default() -> (b: Self)
        ensures
            b.fragment_duration == 0,
    {
        Self::new()
    }
}

impl Mp4Box for MovieExtendsHeaderBox {
    /// The type `mehd`.
    const BOX_TYPE: [u8; 4] = [0x6D, 0x65, 0x68, 0x64];

    open spec fn version(&self) -> Option<u8> {
        Some(0)
    }

    open spec fn flags(&self) -> Option<u32> {
        None
    }

    /// The fragment duration.
    open spec fn payload(&self) -> Encoding {
        Ok(u32_be(self.fragment_duration))
    }

    /// The type is `mehd`.
    proof fn lemma_header(&self)
        ensures
            Self::BOX_TYPE@ == seq![0x6Du8, 0x65u8, 0x68u8, 0x64u8],
    {
        assert(Self::BOX_TYPE@ =~= seq![0x6Du8, 0x65u8, 0x68u8, 0x64u8]);
    }

    fn box_version(&self) -> (v: Option<u8>) {
        Some(0)
    }

    fn box_flags(&self) -> (f: Option<u32>) {
        None
    }

    fn box_payload_size(&self) -> (r: Result<u32, Error>) {
        Ok(4)
    }

    fn write_box_payload<S: ByteSink>(&self, sink: &mut S) -> (r: Result<(), Error>) {
        write_u32(sink, self.fragment_duration);
        Ok(())
    }
}

/// 8.8.1 Movie Extends Box (ISO/IEC 14496-12).
#[derive(Debug)]
pub struct MovieExtendsBox {
    /// The duration of the movie with its fragments.
    pub mehd_box: Option<MovieExtendsHeaderBox>,
    /// The defaults of the tracks.
    pub trex_boxes: Vec<TrackExtendsBox>,
}

impl MovieExtendsBox {
    /// Makes a box without header and without tracks.
    pub fn new() -> (b: Self)
        ensures
            b.mehd_box is None,
            b.trex_boxes@.len() == 0,
    {
        MovieExtendsBox { mehd_box: None, trex_boxes: Vec::new() }
    }
}

impl Default for MovieExtendsBox {
    /// Makes what [`MovieExtendsBox::new`] makes.
    fn default() -> (b: Self)
        ensures
            b.mehd_box is None,
            b.trex_boxes@.len() == 0,
    {
        Self::new()
    }
}

impl Mp4Box for MovieExtendsBox {
    /// The type `mvex`.
    const BOX_TYPE: [u8; 4] = [0x6D, 0x76, 0x65, 0x78];

    open spec fn version(&self) -> Option<u8> {
        None
    }

    open spec fn flags(&self) -> Option<u32> {
        None
    }

    /// The box `mehd`, if it is there, and the boxes `trex`, of which there has to be one
    /// at least: none is `InvalidInput`.
    open spec fn payload(&self) -> Encoding {
        if self.trex_boxes@.len() == 0 {
            Err(ErrorKind::InvalidInput)
        } else {
            followed_by(optional_encoding(self.mehd_box), boxes_encoding(self.trex_boxes@))
        }
    }

    /// The type is `mvex`.
    proof fn lemma_header(&self)
        ensures
            Self::BOX_TYPE@ == seq![0x6Du8, 0x76u8, 0x65u8, 0x78u8],
    {
        assert(Self::BOX_TYPE@ =~= seq![0x6Du8, 0x76u8, 0x65u8, 0x78u8]);
    }

    fn box_version(&self) -> (v: Option<u8>) {
        None
    }

    fn box_flags(&self) -> (f: Option<u32>) {
        None
    }

    fn box_payload_size(&self) -> (r: Result<u32, Error>) {
        if self.trex_boxes.len() == 0 {
            return Err(Error::new(ErrorKind::InvalidInput));
        }
        let mut size: u64 = 0;
        size += size_of_optional_box(&self.mehd_box)?;
        size += size_of_boxes(&self.trex_boxes)?;
        payload_size(size)
    }

    fn write_box_payload<S: ByteSink>(&self, sink: &mut S) -> (r: Result<(), Error>) {
        if self.trex_boxes.len() == 0 {
            return Err(Error::new(ErrorKind::InvalidInput));
        }
        write_optional_box(&self.mehd_box, sink)?;
        write_boxes(&self.trex_boxes, sink)?;
        assert(sink.written() =~= old(sink).written() + self.payload()->Ok_0);
        Ok(())
    }
}

/// 8.2.1 Movie Box (ISO/IEC 14496-12).
#[derive(Debug)]
pub struct MovieBox {
    /// The header of the movie.
    pub mvhd_box: MovieHeaderBox,
    /// The tracks of the movie.
    pub trak_boxes: Vec<TrackBox>,
    /// What says that the movie has fragments.
    pub mvex_box: MovieExtendsBox,
}

impl MovieBox {
    /// Makes a movie without tracks.
    pub fn new() -> (b: Self)
        ensures
            b.mvhd_box.timescale == 1,
            b.mvhd_box.duration == 1,
            b.trak_boxes@.len() == 0,
            b.mvex_box.mehd_box is None,
            b.mvex_box.trex_boxes@.len() == 0,
    {
        MovieBox {
            mvhd_box: MovieHeaderBox::new(),
            trak_boxes: Vec::new(),
            mvex_box: MovieExtendsBox::new(),
        }
    }
}

impl Default for MovieBox {
    /// Makes what [`MovieBox::new`] makes.
    fn default() -> (b: Self)
        ensures
            b.mvhd_box.timescale == 1,
            b.mvhd_box.duration == 1,
            b.trak_boxes@.len() == 0,
            b.mvex_box.mehd_box is None,
            b.mvex_box.trex_boxes@.len() == 0,
    {
        Self::new()
    }
}

impl Mp4Box for MovieBox {
    /// The type `moov`.
    const BOX_TYPE: [u8; 4] = [0x6D, 0x6F, 0x6F, 0x76];

    open spec fn version(&self) -> Option<u8> {
        None
    }

    open spec fn flags(&self) -> Option<u32> {
        None
    }

    /// The box `mvhd`, the boxes `trak`, of which there has to be one at least, and the box
    /// `mvex`: no track is `InvalidInput`.
    open spec fn payload(&self) -> Encoding {
        if self.trak_boxes@.len() == 0 {
            Err(ErrorKind::InvalidInput)
        } else {
            followed_by(
                followed_by(encoding_of(&self.mvhd_box), boxes_encoding(self.trak_boxes@)),
                encoding_of(&self.mvex_box),
            )
        }
    }

    /// The type is `moov`.
    proof fn lemma_header(&self)
        ensures
            Self::BOX_TYPE@ == seq![0x6Du8, 0x6Fu8, 0x6Fu8, 0x76u8],
    {
        assert(Self::BOX_TYPE@ =~= seq![0x6Du8, 0x6Fu8, 0x6Fu8, 0x76u8]);
    }

    fn box_version(&self) -> (v: Option<u8>) {
        None
    }

    fn box_flags(&self) -> (f: Option<u32>) {
        None
    }

    fn box_payload_size(&self) -> (r: Result<u32, Error>) {
        if self.trak_boxes.len() == 0 {
            return Err(Error::new(ErrorKind::InvalidInput));
        }
        let mut size: u64 = 0;
        size += size_of_box(&self.mvhd_box)?;
        size += size_of_boxes(&self.trak_boxes)?;
        size += size_of_box(&self.mvex_box)?;
        payload_size(size)
    }

    #[verifier::rlimit(40)]
    fn write_box_payload<S: ByteSink>(&self, sink: &mut S) -> (r: Result<(), Error>) {
        if self.trak_boxes.len() == 0 {
            return Err(Error::new(ErrorKind::InvalidInput));
        }
        self.mvhd_box.write_box(sink)?;
        write_boxes(&self.trak_boxes, sink)?;
        self.mvex_box.write_box(sink)?;
        assert(sink.written() =~= old(sink).written() + self.payload()->Ok_0);
        Ok(())
    }
}

/// A serialized AVC sample entry: 94 bytes and its configuration record. It has the error
/// of the record if that has one.
#[verifier::rlimit(40)]
pub proof fn lemma_avc_sample_entry(entry: &AvcSampleEntry)
    ensures
        match entry.avcc_box.configuration.encoding() {
            Err(kind) => encoding_of(entry) == Err::<Seq<u8>, ErrorKind>(kind),
            Ok(record) => encoding_of(entry) is Ok && encoding_of(entry)->Ok_0.len() == 94
                + record.len(),
        },
{
    lemma_box_encoding(&entry.avcc_box);
    lemma_box_encoding(entry);
    assert(entry.encoding_without_avcc().len() == 78);
}

/// A serialized AAC sample entry has 75 bytes. It has the error of its fields if they
/// have one.
#[verifier::rlimit(40)]
pub proof fn lemma_aac_sample_entry(entry: &AacSampleEntry)
    ensures
        match entry.encoding_without_esds() {
            Err(kind) => encoding_of(entry) == Err::<Seq<u8>, ErrorKind>(kind),
            Ok(_) => encoding_of(entry) is Ok && encoding_of(entry)->Ok_0.len() == 75,
        },
{
    lemma_box_encoding(&entry.esds_box);
    lemma_box_encoding(entry);
    match entry.encoding_without_esds() {
        Ok(fields) => {
            assert(fields.len() == 28);
            assert(entry.esds_box.payload()->Ok_0.len() == 27);
        },
        Err(_) => {},
    }
}

/// A serialized sample table with one sample entry: 92 bytes and the sample entry. It has
/// the error of the sample entry if that has one.
#[verifier::rlimit(40)]
pub proof fn lemma_sample_table(stbl: &SampleTableBox)
    requires
        stbl.stsd_box.sample_entries@.len() == 1,
    ensures
        match stbl.stsd_box.sample_entries@[0].encoding() {
            Err(kind) => encoding_of(stbl) == Err::<Seq<u8>, ErrorKind>(kind),
            Ok(entry) => entry.len() <= 0x10_0000 ==> encoding_of(stbl) is Ok && encoding_of(
                stbl,
            )->Ok_0.len() == 92 + entry.len(),
        },
{
    let entries = stbl.stsd_box.sample_entries@;
    reveal_with_fuel(entries_encoding, 2);
    assert(entries.drop_last() =~= Seq::<SampleEntry>::empty());
    assert(entries.last() == entries[0]);
    match entries[0].encoding() {
        Ok(entry) => {
            assert(Seq::<u8>::empty() + entry =~= entry);
        },
        Err(_) => {},
    }
    lemma_box_encoding(&stbl.stsd_box);
    lemma_box_encoding(&stbl.stts_box);
    lemma_box_encoding(&stbl.stsc_box);
    lemma_box_encoding(&stbl.stsz_box);
    lemma_box_encoding(&stbl.stco_box);
    lemma_box_encoding(stbl);
}

/// A serialized data information box has 36 bytes.
pub proof fn lemma_data_information(dinf: &DataInformationBox)
    ensures
        encoding_of(dinf) is Ok,
        encoding_of(dinf)->Ok_0.len() == 36,
{
    lemma_box_encoding(&dinf.dref_box.url_box);
    lemma_box_encoding(&dinf.dref_box);
    lemma_box_encoding(dinf);
}

/// A serialized track box with one media header and one sample entry: 358 bytes, the
/// media header of 20 bytes for video or 16 bytes for audio, and the sample entry. It has
/// the error of the sample entry if that has one.
#[verifier::rlimit(40)]
pub proof fn lemma_track_box(track: &TrackBox)
    requires
        track.mdia_box.minf_box.stbl_box.stsd_box.sample_entries@.len() == 1,
        track.mdia_box.minf_box.vmhd_box is Some != track.mdia_box.minf_box.smhd_box is Some,
        track.mdia_box.hdlr_box.name().len() == 13,
    ensures
        match track.mdia_box.minf_box.stbl_box.stsd_box.sample_entries@[0].encoding() {
            Err(kind) => encoding_of(track) == Err::<Seq<u8>, ErrorKind>(kind),
            Ok(entry) => entry.len() <= 0x10_0000 ==> encoding_of(track) is Ok && encoding_of(
                track,
            )->Ok_0.len() == 358 + (if track.mdia_box.minf_box.vmhd_box is Some {
                20nat
            } else {
                16nat
            }) + entry.len(),
        },
{
    let minf = &track.mdia_box.minf_box;
    lemma_sample_table(&minf.stbl_box);
    lemma_data_information(&minf.dinf_box);
    match minf.vmhd_box {
        Some(vmhd) => lemma_box_encoding(&vmhd),
        None => {},
    }
    match minf.smhd_box {
        Some(smhd) => lemma_box_encoding(&smhd),
        None => {},
    }
    lemma_box_encoding(minf);
    lemma_media_box(&track.mdia_box);
    lemma_box_encoding(&track.tkhd_box);
    lemma_box_encoding(&track.edts_box.elst_box);
    lemma_box_encoding(&track.edts_box);
    lemma_box_encoding(track);
    assert(identity_matrix().len() == 36);
}

/// A serialized media box: 86 bytes, of which the name of the handler has 13, and the
/// media information box. It has the error of the media information box if that has one.
#[verifier::rlimit(40)]
pub proof fn lemma_media_box(mdia: &MediaBox)
    requires
        mdia.hdlr_box.name().len() == 13,
    ensures
        match encoding_of(&mdia.minf_box) {
            Err(kind) => encoding_of(mdia) == Err::<Seq<u8>, ErrorKind>(kind),
            Ok(minf) => minf.len() <= 0x20_0000 ==> encoding_of(mdia) is Ok && encoding_of(
                mdia,
            )->Ok_0.len() == 86 + minf.len(),
        },
{
    lemma_box_encoding(&mdia.mdhd_box);
    lemma_box_encoding(&mdia.hdlr_box);
    lemma_box_encoding(mdia);
    assert(mdia.hdlr_box.payload()->Ok_0.len() == 34);
}

/// A serialized movie box with two tracks and the defaults of two tracks: 204 bytes and
/// the two track boxes. It has the error of the first track box that has one.
#[verifier::rlimit(40)]
pub proof fn lemma_movie_box(moov: &MovieBox)
    requires
        moov.trak_boxes@.len() == 2,
        moov.mvex_box.trex_boxes@.len() == 2,
        moov.mvex_box.mehd_box is Some,
    ensures
        match followed_by(encoding_of(&moov.trak_boxes@[0]), encoding_of(&moov.trak_boxes@[1])) {
            Err(kind) => encoding_of(moov) == Err::<Seq<u8>, ErrorKind>(kind),
            Ok(tracks) => tracks.len() <= 0x40_0000 ==> encoding_of(moov) is Ok && encoding_of(
                moov,
            )->Ok_0.len() == 204 + tracks.len(),
        },
{
    lemma_boxes_encoding_two(moov.trak_boxes@);
    lemma_boxes_encoding_two(moov.mvex_box.trex_boxes@);
    lemma_box_encoding(&moov.mvex_box.trex_boxes@[0]);
    lemma_box_encoding(&moov.mvex_box.trex_boxes@[1]);
    lemma_box_encoding(&moov.mvex_box.mehd_box->Some_0);
    lemma_box_encoding(&moov.mvex_box);
    lemma_box_encoding(&moov.mvhd_box);
    lemma_box_encoding(moov);
    assert(identity_matrix().len() == 36);
}

/// The digit that stands for `n` in hexadecimal notation, with capital letters.
pub open spec fn hex_digit(n: u8) -> char {
    if n == 0 {
        '0'
    } else if n == 1 {
        '1'
    } else if n == 2 {
        '2'
    } else if n == 3 {
        '3'
    } else if n == 4 {
        '4'
    } else if n == 5 {
        '5'
    } else if n == 6 {
        '6'
    } else if n == 7 {
        '7'
    } else if n == 8 {
        '8'
    } else if n == 9 {
        '9'
    } else if n == 10 {
        'A'
    } else if n == 11 {
        'B'
    } else if n == 12 {
        'C'
    } else if n == 13 {
        'D'
    } else if n == 14 {
        'E'
    } else {
        'F'
    }
}

/// The two hexadecimal digits of a byte.
pub open spec fn hex(byte: u8) -> Seq<char> {
    seq![hex_digit(byte / 16), hex_digit(byte % 16)]
}

/// The first sample entry of a track, if it has one.
pub open spec fn first_sample_entry(track: TrackBox) -> Option<SampleEntry> {
    if track.mdia_box.minf_box.stbl_box.stsd_box.sample_entries@.len() > 0 {
        Some(track.mdia_box.minf_box.stbl_box.stsd_box.sample_entries@[0])
    } else {
        None
    }
}

/// The profile, the constraint set flags and the level of the first of `tracks` whose
/// first sample entry is one for AVC, if there is such a track.
pub open spec fn first_avc_profile(tracks: Seq<TrackBox>) -> Option<(u8, u8, u8)>
    decreases tracks.len(),
{
    if tracks.len() == 0 {
        None
    } else {
        match first_sample_entry(tracks[0]) {
            Some(SampleEntry::Avc(entry)) => Some(
                (
                    entry.avcc_box.configuration.profile_idc,
                    entry.avcc_box.configuration.constraint_set_flag,
                    entry.avcc_box.configuration.level_idc,
                ),
            ),
            _ => first_avc_profile(tracks.drop_first()),
        }
    }
}

/// The AAC profile of the first of `tracks` whose first sample entry is one for AAC, if
/// there is such a track.
pub open spec fn first_aac_profile(tracks: Seq<TrackBox>) -> Option<AacProfile>
    decreases tracks.len(),
{
    if tracks.len() == 0 {
        None
    } else {
        match first_sample_entry(tracks[0]) {
            Some(SampleEntry::Aac(entry)) => Some(entry.esds_box.profile),
            _ => first_aac_profile(tracks.drop_first()),
        }
    }
}

/// The name of the video codec: `avc1.` and profile, constraint set flags and level in
/// hexadecimal notation; `avc1.640029` where no profile is known.
pub open spec fn avc_codec(profile: Option<(u8, u8, u8)>) -> Seq<char> {
    match profile {
        Some((profile_idc, constraint_set_flag, level_idc)) => "avc1."@ + hex(profile_idc) + hex(
            constraint_set_flag,
        ) + hex(level_idc),
        None => "avc1.640029"@,
    }
}

/// The name of the audio codec: `mp4a.40.` and the audio object type, which is the code
/// of the AAC profile and 1; `mp4a.40.2` where no profile is known.
pub open spec fn aac_codec(profile: Option<AacProfile>) -> Seq<char> {
    match profile {
        Some(profile) => "mp4a.40."@ + seq![hex_digit((profile.code() + 1) as u8)],
        None => "mp4a.40.2"@,
    }
}

/// The MIME type of an initialization segment with the tracks `tracks`: `video/mp4` with
/// the names of the codecs of the first video track and of the first audio track.
pub open spec fn mime_type_of(tracks: Seq<TrackBox>) -> Seq<char> {
    "video/mp4; codecs=\""@ + avc_codec(first_avc_profile(tracks)) + ", "@ + aac_codec(
        first_aac_profile(tracks),
    ) + "\""@
}

/// Where no track has a sample entry, the MIME type names the codecs
/// `avc1.640029, mp4a.40.2`.
pub proof fn lemma_default_mime_type(tracks: Seq<TrackBox>)
    requires
        first_avc_profile(tracks) is None,
        first_aac_profile(tracks) is None,
    ensures
        mime_type_of(tracks) == "video/mp4; codecs=\"avc1.640029, mp4a.40.2\""@,
{
    reveal_strlit("video/mp4; codecs=\"");
    reveal_strlit("avc1.640029");
    reveal_strlit(", ");
    reveal_strlit("mp4a.40.2");
    reveal_strlit("\"");
    reveal_strlit("video/mp4; codecs=\"avc1.640029, mp4a.40.2\"");
    assert(mime_type_of(tracks) =~= "video/mp4; codecs=\"avc1.640029, mp4a.40.2\""@);
}

/// `String::push` of std: the string then holds what it held and, at its end, the
/// character.
#[verifier::external_body]
fn push_char(s: &mut String, c: char)
    ensures
        final(s)@ == old(s)@.push(c),
{
    s.push(c);
}

/// `String::push_str` of std: the string then holds what it held and, at its end, the
/// characters of the slice.
#[verifier::external_body]
fn push_chars(s: &mut String, more: &str)
    ensures
        final(s)@ == old(s)@ + more@,
{
    s.push_str(more);
}

/// Returns the digit that stands for `n` in hexadecimal notation.
fn hex_char(n: u8) -> (c: char)
    requires
        n < 16,
    ensures
        c == hex_digit(n),
{
    match n {
        0 => '0',
        1 => '1',
        2 => '2',
        3 => '3',
        4 => '4',
        5 => '5',
        6 => '6',
        7 => '7',
        8 => '8',
        9 => '9',
        10 => 'A',
        11 => 'B',
        12 => 'C',
        13 => 'D',
        14 => 'E',
        _ => 'F',
    }
}

/// Appends the two hexadecimal digits of `byte`.
fn push_hex(s: &mut String, byte: u8)
    ensures
        final(s)@ == old(s)@ + hex(byte),
{
    push_char(s, hex_char(byte / 16));
    push_char(s, hex_char(byte % 16));
    assert(s@ =~= old(s)@ + hex(byte));
}

/// Returns profile, constraint set flags and level of the first track whose first sample
/// entry is one for AVC.
fn find_avc_profile(tracks: &Vec<TrackBox>) -> (r: Option<(u8, u8, u8)>)
    ensures
        r == first_avc_profile(tracks@),
{
    let mut i: usize = 0;
    assert(tracks@.skip(0) =~= tracks@);
    while i < tracks.len()
        invariant
            i <= tracks@.len(),
            first_avc_profile(tracks@) == first_avc_profile(tracks@.skip(i as int)),
        decreases tracks@.len() - i,
    {
        assert(tracks@.skip(i as int).drop_first() =~= tracks@.skip(i + 1));
        assert(tracks@.skip(i as int)[0] == tracks@[i as int]);
        let entries = &tracks[i].mdia_box.minf_box.stbl_box.stsd_box.sample_entries;
        if entries.len() > 0 {
            match &entries[0] {
                SampleEntry::Avc(entry) => {
                    return Some(
                        (
                            entry.avcc_box.configuration.profile_idc,
                            entry.avcc_box.configuration.constraint_set_flag,
                            entry.avcc_box.configuration.level_idc,
                        ),
                    );
                },
                SampleEntry::Aac(_) => {},
            }
        }
        i += 1;
    }
    None
}

/// Returns the AAC profile of the first track whose first sample entry is one for AAC.
fn find_aac_profile(tracks: &Vec<TrackBox>) -> (r: Option<AacProfile>)
    ensures
        r == first_aac_profile(tracks@),
{
    let mut i: usize = 0;
    assert(tracks@.skip(0) =~= tracks@);
    while i < tracks.len()
        invariant
            i <= tracks@.len(),
            first_aac_profile(tracks@) == first_aac_profile(tracks@.skip(i as int)),
        decreases tracks@.len() - i,
    {
        assert(tracks@.skip(i as int).drop_first() =~= tracks@.skip(i + 1));
        assert(tracks@.skip(i as int)[0] == tracks@[i as int]);
        let entries = &tracks[i].mdia_box.minf_box.stbl_box.stsd_box.sample_entries;
        if entries.len() > 0 {
            match &entries[0] {
                SampleEntry::Aac(entry) => {
                    return Some(entry.esds_box.profile);
                },
                SampleEntry::Avc(_) => {},
            }
        }
        i += 1;
    }
    None
}

/// [3. Initialization Segments][init_segment] (ISO BMFF Byte Stream Format)
///
/// [init_segment]: https://w3c.github.io/media-source/isobmff-byte-stream-format.html#iso-init-segments
#[derive(Debug)]
pub struct InitializationSegment {
    /// The file type.
    pub ftyp_box: FileTypeBox,
    /// The movie.
    pub moov_box: MovieBox,
}

impl InitializationSegment {
    /// Makes a segment with the file type `isom` and a movie without tracks.
    pub fn new() -> (s: Self)
        ensures
            s.ftyp_box.major_brand.0@ == isom(),
            s.ftyp_box.minor_version == 512,
            s.ftyp_box.compatible_brands@.len() == 0,
            s.moov_box.mvhd_box.timescale == 1,
            s.moov_box.mvhd_box.duration == 1,
            s.moov_box.trak_boxes@.len() == 0,
            s.moov_box.mvex_box.mehd_box is None,
            s.moov_box.mvex_box.trex_boxes@.len() == 0,
    {
        InitializationSegment { ftyp_box: FileTypeBox::new(), moov_box: MovieBox::new() }
    }

    /// Returns MIME type: `video/mp4` with the names of the codecs of the first video
    /// track and of the first audio track, such as
    /// `video/mp4; codecs="avc1.42C01E, mp4a.40.2"`.
    pub fn mime_type(&self) -> (s: String)
        ensures
            s@ == mime_type_of(self.moov_box.trak_boxes@),
    {
        let mut s = "video/mp4; codecs=\"".to_owned();
        let ghost head = s@;
        let avc_profile = find_avc_profile(&self.moov_box.trak_boxes);
        match avc_profile {
            Some((profile_idc, constraint_set_flag, level_idc)) => {
                push_chars(&mut s, "avc1.");
                push_hex(&mut s, profile_idc);
                push_hex(&mut s, constraint_set_flag);
                push_hex(&mut s, level_idc);
            },
            None => {
                push_chars(&mut s, "avc1.640029");
            },
        }
        assert(s@ =~= head + avc_codec(avc_profile));
        push_chars(&mut s, ", ");
        let ghost middle = s@;
        let aac_profile = find_aac_profile(&self.moov_box.trak_boxes);
        match aac_profile {
            Some(profile) => {
                push_chars(&mut s, "mp4a.40.");
                push_char(&mut s, hex_char(profile.as_u8() + 1));
            },
            None => {
                push_chars(&mut s, "mp4a.40.2");
            },
        }
        assert(s@ =~= middle + aac_codec(aac_profile));
        push_char(&mut s, '"');
        proof {
            reveal_strlit("\"");
            assert("\""@ =~= seq!['"']);
        }
        assert(s@ =~= mime_type_of(self.moov_box.trak_boxes@));
        s
    }
}

impl Default for InitializationSegment {
    /// Makes what [`InitializationSegment::new`] makes.
    fn default() -> (s: Self)
        ensures
            s.ftyp_box.major_brand.0@ == isom(),
            s.ftyp_box.minor_version == 512,
            s.ftyp_box.compatible_brands@.len() == 0,
            s.moov_box.mvhd_box.timescale == 1,
            s.moov_box.mvhd_box.duration == 1,
            s.moov_box.trak_boxes@.len() == 0,
            s.moov_box.mvex_box.mehd_box is None,
            s.moov_box.mvex_box.trex_boxes@.len() == 0,
    {
        Self::new()
    }
}

impl WriteTo for InitializationSegment {
    /// The box `ftyp` and the box `moov`.
    open spec fn encoding(&self) -> Encoding {
        followed_by(encoding_of(&self.ftyp_box), encoding_of(&self.moov_box))
    }

    fn write_to<S: ByteSink>(&self, sink: &mut S) -> (r: Result<(), Error>) {
        let _ = size_of_box(&self.ftyp_box)?;
        let _ = size_of_box(&self.moov_box)?;
        self.ftyp_box.write_box(sink)?;
        self.moov_box.write_box(sink)?;
        assert(sink.written() =~= old(sink).written() + self.encoding()->Ok_0);
        Ok(())
    }
}

} // verus!
