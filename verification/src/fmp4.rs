//! Fragmented MP4 (ISO BMFF) boxes and segments.

pub mod common;
pub mod initialization;
pub mod media;

pub use self::common::{
    BoxHeader, BoxType, Brand, FullBoxHeader, HandlerType, Mp4Box, SampleFormat,
    AUDIO_TRACK_ID, VIDEO_TRACK_ID,
};
pub use self::media::{
    MediaDataBox, MediaSegment, MovieFragmentBox, MovieFragmentHeaderBox, Sample, SampleFlags,
    TrackFragmentBaseMediaDecodeTimeBox, TrackFragmentBox, TrackFragmentHeaderBox, TrackRunBox,
};
pub use self::initialization::{
    AacSampleEntry, AvcConfigurationBox, AvcSampleEntry, ChunkOffsetBox, DataEntryUrlBox,
    DataInformationBox, DataReferenceBox, EditBox, EditListBox, FileTypeBox, HandlerReferenceBox,
    InitializationSegment, MediaBox, MediaHeaderBox, MediaInformationBox, MovieBox,
    MovieExtendsBox, MovieExtendsHeaderBox, MovieHeaderBox, Mpeg4EsDescriptorBox,
    SampleDescriptionBox, SampleEntry, SampleSizeBox, SampleTableBox, SampleToChunkBox,
    SoundMediaHeaderBox, TimeToSampleBox, TrackBox, TrackExtendsBox, TrackHeaderBox,
    VideoMediaHeaderBox,
};
