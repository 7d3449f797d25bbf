//! What all boxes have in common: the header discipline and the size computation.

use crate::error::{Error, ErrorKind};
use crate::io::{
    be_read_u32, followed_by, u24_be, u32_be, u32_from_be, write_all, write_u24, write_u32, write_u8,
    ByteCounter, ByteSink, Encoding, WriteTo,
};
use vstd::prelude::*;

verus! {

/// The identifier of the video track.
pub const VIDEO_TRACK_ID: u32 = 1;

/// The identifier of the audio track.
pub const AUDIO_TRACK_ID: u32 = 2;

/// The four-character type of a box.
#[derive(Debug, Clone, Copy, PartialEq, Eq, Hash, PartialOrd, Ord)]
pub struct BoxType(pub [u8; 4]);

impl BoxType {
    /// Reads the type that `bytes` begins with. Fewer than four bytes are `Other`.
    pub fn read_from(bytes: &[u8]) -> (r: Result<Self, Error>)
        ensures
            bytes@.len() < 4 ==> r is Err && r->Err_0 == (Error { kind: ErrorKind::Other }),
            bytes@.len() >= 4 ==> r is Ok && r->Ok_0.0@ == bytes@.subrange(0, 4),
    {
        if bytes.len() < 4 {
            return Err(Error::new(ErrorKind::Other));
        }
        let kind = BoxType([bytes[0], bytes[1], bytes[2], bytes[3]]);
        assert(kind.0@ =~= bytes@.subrange(0, 4));
        Ok(kind)
    }
}

/// A four-character brand of a file type box.
#[derive(Debug, Clone, Copy, PartialEq, Eq, Hash, PartialOrd, Ord)]
pub struct Brand(pub [u8; 4]);

/// The four-character format of a sample entry.
#[derive(Debug, Clone, Copy, PartialEq, Eq, Hash, PartialOrd, Ord)]
pub struct SampleFormat(pub [u8; 4]);

/// The four-character type of a media handler.
#[derive(Debug, Clone, Copy, PartialEq, Eq, Hash, PartialOrd, Ord)]
pub struct HandlerType(pub [u8; 4]);

/// The type `uuid`, which marks boxes with a user-defined extended type.
pub open spec fn uuid() -> Seq<u8> {
    seq![0x75u8, 0x75u8, 0x69u8, 0x64u8]
}

/// Tells whether `kind` is the type `uuid`.
fn is_uuid(kind: &[u8; 4]) -> (b: bool)
    ensures
        b == (kind@ == uuid()),
{
    let b = kind[0] == 0x75 && kind[1] == 0x75 && kind[2] == 0x69 && kind[3] == 0x64;
    assert(b ==> kind@ =~= uuid());
    b
}

/// The header of a box: its size, header included, and its type.
#[derive(Debug, Clone, Copy, PartialEq, Eq, Hash)]
pub struct BoxHeader {
    /// The size of the whole box in bytes.
    pub size: u32,
    /// The type of the box.
    pub kind: BoxType,
}

impl BoxHeader {
    /// The size of the header itself.
    pub const SIZE: u32 = 8;

    /// Returns the size of what follows the header.
    pub fn data_size(&self) -> (n: u32)
        requires
            self.size >= 8,
        ensures
            n == self.size - 8,
    {
        self.size - Self::SIZE
    }
}

/// The error for which the eight bytes that `b` begins with are no box header, if there
/// is one: fewer than eight bytes are `Other`; the sizes 1 and 0 are `Unsupported`,
/// as is the type `uuid`; another size below 8 is `InvalidInput`.
pub open spec fn box_header_error(b: Seq<u8>) -> Option<ErrorKind> {
    if b.len() < 8 {
        Some(ErrorKind::Other)
    } else if u32_from_be(b) == 1 || u32_from_be(b) == 0 {
        Some(ErrorKind::Unsupported)
    } else if u32_from_be(b) < 8 {
        Some(ErrorKind::InvalidInput)
    } else if b.subrange(4, 8) == uuid() {
        Some(ErrorKind::Unsupported)
    } else {
        None
    }
}

impl BoxHeader {
    /// Reads the header that `bytes` begins with: the size in four bytes, most
    /// significant first, and the type.
    pub fn read_from(bytes: &[u8]) -> (r: Result<Self, Error>)
        ensures
            match box_header_error(bytes@) {
                Some(kind) => r is Err && r->Err_0 == (Error { kind }),
                None => r is Ok && r->Ok_0.size == u32_from_be(bytes@) && r->Ok_0.kind.0@
                    == bytes@.subrange(4, 8),
            },
    {
        if bytes.len() < 8 {
            return Err(Error::new(ErrorKind::Other));
        }
        let size = be_read_u32(bytes);
        let kind = BoxType::read_from(&bytes[4..8])?;
        assert(kind.0@ =~= bytes@.subrange(4, 8));
        if size == 1 || size == 0 {
            return Err(Error::new(ErrorKind::Unsupported));
        }
        if size < Self::SIZE {
            return Err(Error::new(ErrorKind::InvalidInput));
        }
        if is_uuid(&kind.0) {
            return Err(Error::new(ErrorKind::Unsupported));
        }
        Ok(BoxHeader { size, kind })
    }

    /// A header that has been written is read as it was, whatever follows it.
    pub proof fn lemma_round_trip(&self, after: Seq<u8>)
        requires
            self.encoding() is Ok,
        ensures
            box_header_error(self.encoding()->Ok_0 + after) is None,
            u32_from_be(self.encoding()->Ok_0 + after) == self.size,
            (self.encoding()->Ok_0 + after).subrange(4, 8) == self.kind.0@,
    {
        let bytes = self.encoding()->Ok_0 + after;
        crate::io::lemma_u32_be_round_trip(self.size);
        assert(bytes[0] == u32_be(self.size)[0]);
        assert(bytes[1] == u32_be(self.size)[1]);
        assert(bytes[2] == u32_be(self.size)[2]);
        assert(bytes[3] == u32_be(self.size)[3]);
        assert(bytes.subrange(4, 8) =~= self.kind.0@);
    }
}

impl WriteTo for BoxHeader {
    /// The size and the type, eight bytes. The sizes 1 and 0, which announce an extended
    /// size and a box that runs to the end, are `Unsupported`, as is the type `uuid`;
    /// another size below 8 is `InvalidInput`.
    open spec fn encoding(&self) -> Encoding {
        if self.size == 1 || self.size == 0 {
            Err(ErrorKind::Unsupported)
        } else if self.size < 8 {
            Err(ErrorKind::InvalidInput)
        } else if self.kind.0@ == uuid() {
            Err(ErrorKind::Unsupported)
        } else {
            Ok(u32_be(self.size) + self.kind.0@)
        }
    }

    fn write_to<S: ByteSink>(&self, sink: &mut S) -> (r: Result<(), Error>) {
        if self.size == 1 || self.size == 0 {
            return Err(Error::new(ErrorKind::Unsupported));
        }
        if self.size < Self::SIZE {
            return Err(Error::new(ErrorKind::InvalidInput));
        }
        if is_uuid(&self.kind.0) {
            return Err(Error::new(ErrorKind::Unsupported));
        }
        write_u32(sink, self.size);
        write_all(sink, &self.kind.0);
        assert(sink.written() =~= old(sink).written() + self.encoding()->Ok_0);
        Ok(())
    }
}

/// What a full box has between the type and the payload: a version and 24 bits of flags.
#[derive(Debug, Clone, Copy, PartialEq, Eq, Hash)]
pub struct FullBoxHeader {
    /// The version of the box format.
    pub version: u8,
    /// The flags (24 bits).
    pub flags: u32,
}

impl FullBoxHeader {
    /// Makes a header with the given version and flags.
    pub fn new(version: u8, flags: u32) -> (h: Self)
        ensures
            h.version == version,
            h.flags == flags,
    {
        FullBoxHeader { version, flags }
    }
}

impl FullBoxHeader {
    /// Reads the header that `bytes` begins with: the version in one byte and the flags in
    /// three, most significant first. Fewer than four bytes are `Other`.
    pub fn read_from(bytes: &[u8]) -> (r: Result<Self, Error>)
        ensures
            bytes@.len() < 4 ==> r is Err && r->Err_0 == (Error { kind: ErrorKind::Other }),
            bytes@.len() >= 4 ==> r is Ok && r->Ok_0.version == bytes@[0] && r->Ok_0.flags
                == bytes@[1] * 0x1_0000 + bytes@[2] * 0x100 + bytes@[3],
    {
        if bytes.len() < 4 {
            return Err(Error::new(ErrorKind::Other));
        }
        let n = be_read_u32(bytes);
        let version = (n / 0x100_0000) as u8;
        let flags = n % 0x100_0000;
        Ok(FullBoxHeader { version, flags })
    }

    /// A header that has been written is read as it was, whatever follows it.
    pub proof fn lemma_round_trip(&self, after: Seq<u8>)
        requires
            self.encoding() is Ok,
        ensures
            (self.encoding()->Ok_0 + after)[0] == self.version,
            (self.encoding()->Ok_0 + after)[1] * 0x1_0000 + (self.encoding()->Ok_0 + after)[2]
                * 0x100 + (self.encoding()->Ok_0 + after)[3] == self.flags,
    {
        let bytes = self.encoding()->Ok_0 + after;
        assert(bytes[1] == u24_be(self.flags)[0]);
        assert(bytes[2] == u24_be(self.flags)[1]);
        assert(bytes[3] == u24_be(self.flags)[2]);
    }
}

impl WriteTo for FullBoxHeader {
    /// The version, one byte, and the flags, three bytes. Flags that do not fit in 24 bits
    /// are `InvalidInput`.
    open spec fn encoding(&self) -> Encoding {
        if self.flags > 0xFF_FFFF {
            Err(ErrorKind::InvalidInput)
        } else {
            Ok(seq![self.version] + u24_be(self.flags))
        }
    }

    fn write_to<S: ByteSink>(&self, sink: &mut S) -> (r: Result<(), Error>) {
        if self.flags > 0xFF_FFFF {
            return Err(Error::new(ErrorKind::InvalidInput));
        }
        write_u8(sink, self.version);
        write_u24(sink, self.flags);
        assert(sink.written() =~= old(sink).written() + self.encoding()->Ok_0);
        Ok(())
    }
}

/// Tells whether `r` is the size of the payload `payload`: its length, its error if it
/// has one, and `InvalidInput` if the length does not fit in 32 bits.
pub open spec fn payload_size_is(payload: Encoding, r: Result<u32, Error>) -> bool {
    match payload {
        Ok(bytes) => if bytes.len() <= u32::MAX {
            r == Ok::<u32, Error>(bytes.len() as u32)
        } else {
            r == Err::<u32, Error>(Error { kind: ErrorKind::InvalidInput })
        },
        Err(kind) => r == Err::<u32, Error>(Error { kind }),
    }
}

/// The full box header for a version and flags; one that the box does not have counts
/// as 0.
pub open spec fn full_box_header(version: Option<u8>, flags: Option<u32>) -> FullBoxHeader {
    FullBoxHeader {
        version: match version {
            Some(v) => v,
            None => 0,
        },
        flags: match flags {
            Some(f) => f,
            None => 0,
        },
    }
}

/// The length of the header of a box: 12 bytes for a full box, one with a version or with
/// flags, and 8 for another.
pub open spec fn header_len(version: Option<u8>, flags: Option<u32>) -> nat {
    if version is Some || flags is Some {
        12
    } else {
        8
    }
}

/// The size of a box, header included. A box whose payload cannot be written has the
/// error of the payload; a size that does not fit in 32 bits is `InvalidInput`.
pub open spec fn box_size(version: Option<u8>, flags: Option<u32>, payload: Encoding) -> Result<
    nat,
    ErrorKind,
> {
    match payload {
        Err(kind) => Err(kind),
        Ok(bytes) => if header_len(version, flags) + bytes.len() > u32::MAX {
            Err(ErrorKind::InvalidInput)
        } else {
            Ok(header_len(version, flags) + bytes.len())
        },
    }
}

/// What a full box has between its type and its payload: the version in one byte and the
/// flags in three. Another box has nothing there.
pub open spec fn full_box_bytes(version: Option<u8>, flags: Option<u32>) -> Seq<u8> {
    if version is Some || flags is Some {
        seq![full_box_header(version, flags).version] + u24_be(full_box_header(version, flags).flags)
    } else {
        Seq::empty()
    }
}

/// A serialized box: the size in four bytes, the type, for a full box the version and the
/// flags, and the payload. It has the error of its size if that has one.
#[verifier::opaque]
pub open spec fn box_encoding(
    box_type: [u8; 4],
    version: Option<u8>,
    flags: Option<u32>,
    payload: Encoding,
) -> Encoding {
    match box_size(version, flags, payload) {
        Err(kind) => Err(kind),
        Ok(size) => Ok(
            u32_be(size as u32) + box_type@ + full_box_bytes(version, flags) + payload->Ok_0,
        ),
    }
}

/// MP4 (ISO BMFF) box.
pub trait Mp4Box: Sized {
    /// Box type.
    const BOX_TYPE: [u8; 4];

    /// The version of the box, if it has one.
    spec fn version(&self) -> Option<u8>;

    /// The flags of the box, if it has any.
    spec fn flags(&self) -> Option<u32>;

    /// The payload of the box, or the kind of error for which the box cannot be written.
    spec fn payload(&self) -> Encoding;

    /// The type of a box is not `uuid`, and its flags fit in 24 bits. Each box states here
    /// which four bytes its type is.
    proof fn lemma_header(&self)
        ensures
            Self::BOX_TYPE@ != uuid(),
            self.flags() matches Some(f) ==> f <= 0xFF_FFFF,
    ;

    /// Box version.
    ///
    /// If this method returns `Some(...)`, the box will be regarded as a full box.
    fn box_version(&self) -> (v: Option<u8>)
        ensures
            v == self.version(),
    ;

    /// Box flags (for full box).
    ///
    /// If this method returns `Some(...)`, the box will be regarded as a full box.
    fn box_flags(&self) -> (f: Option<u32>)
        ensures
            f == self.flags(),
    ;

    /// Payload size of the box: the length of the payload, the error of the payload if it
    /// has one, and `InvalidInput` if the length does not fit in 32 bits.
    fn box_payload_size(&self) -> (r: Result<u32, Error>)
        ensures
            payload_size_is(self.payload(), r),
    ;

    /// Writes the payload of the box to the given sink. On error a part of the payload may
    /// have been written.
    fn write_box_payload<S: ByteSink>(&self, sink: &mut S) -> (r: Result<(), Error>)
        ensures
            match self.payload() {
                Ok(bytes) => r is Ok && final(sink).written() == old(sink).written() + bytes,
                Err(kind) => r == Err::<(), Error>(Error { kind }) && old(
                    sink,
                ).written().is_prefix_of(final(sink).written()),
            },
    ;

    /// Box size: header and payload together.
    fn box_size(&self) -> (r: Result<u32, Error>)
        ensures
            match box_size(self.version(), self.flags(), self.payload()) {
                Ok(n) => r == Ok::<u32, Error>(n as u32) && 8 <= n <= u32::MAX,
                Err(kind) => r == Err::<u32, Error>(Error { kind }),
            },
    {
        let payload = self.box_payload_size()?;
        let header: u32 = if self.box_version().is_some() || self.box_flags().is_some() {
            12
        } else {
            8
        };
        if payload > u32::MAX - header {
            return Err(Error::new(ErrorKind::InvalidInput));
        }
        Ok(header + payload)
    }

    /// Writes the box to the given sink: size, type, version and flags if it is a full
    /// box, and payload. On error nothing is written.
    fn write_box<S: ByteSink>(&self, sink: &mut S) -> (r: Result<(), Error>)
        ensures
            match box_encoding(Self::BOX_TYPE, self.version(), self.flags(), self.payload()) {
                Ok(bytes) => r is Ok && final(sink).written() == old(sink).written() + bytes,
                Err(kind) => r == Err::<(), Error>(Error { kind }) && final(sink).written() == old(
                    sink,
                ).written(),
            },
    {
        proof {
            reveal(box_encoding);
        }
        let size = self.box_size()?;
        proof {
            self.lemma_header();
        }
        let header = BoxHeader { size, kind: BoxType(Self::BOX_TYPE) };
        let version = self.box_version();
        let flags = self.box_flags();
        header.write_to(sink)?;
        if version.is_some() || flags.is_some() {
            let full_header = FullBoxHeader::new(
                match version {
                    Some(v) => v,
                    None => 0,
                },
                match flags {
                    Some(f) => f,
                    None => 0,
                },
            );
            full_header.write_to(sink)?;
        }
        self.write_box_payload(sink)?;
        assert(sink.written() =~= old(sink).written() + box_encoding(
            Self::BOX_TYPE,
            self.version(),
            self.flags(),
            self.payload(),
        )->Ok_0);
        Ok(())
    }
}

/// The serialized box `b`.
pub open spec fn encoding_of<T: Mp4Box>(b: &T) -> Encoding {
    box_encoding(T::BOX_TYPE, b.version(), b.flags(), b.payload())
}

/// The serialized box `b`, if there is one, and nothing if there is none.
pub open spec fn optional_encoding<T: Mp4Box>(b: Option<T>) -> Encoding {
    match b {
        Some(b) => encoding_of(&b),
        None => Ok(Seq::empty()),
    }
}

/// The serialized boxes `boxes`, one after the other. The first box that cannot be
/// written decides the error.
pub open spec fn boxes_encoding<T: Mp4Box>(boxes: Seq<T>) -> Encoding
    decreases boxes.len(),
{
    if boxes.len() == 0 {
        Ok(Seq::empty())
    } else {
        followed_by(boxes_encoding(boxes.drop_last()), encoding_of(&boxes.last()))
    }
}

/// The serialized form of the first boxes is the beginning of that of all of them, and
/// their error is the error of all of them.
pub proof fn lemma_boxes_encoding_prefix<T: Mp4Box>(boxes: Seq<T>, n: int)
    requires
        0 <= n <= boxes.len(),
    ensures
        match boxes_encoding(boxes.take(n)) {
            Err(kind) => boxes_encoding(boxes) == Err::<Seq<u8>, ErrorKind>(kind),
            Ok(bytes) => boxes_encoding(boxes) matches Ok(all) ==> bytes.is_prefix_of(all),
        },
    decreases boxes.len() - n,
{
    if n == boxes.len() {
        assert(boxes.take(n) =~= boxes);
    } else {
        assert(boxes.take(n + 1).drop_last() =~= boxes.take(n));
        lemma_boxes_encoding_prefix(boxes, n + 1);
    }
}

/// Two boxes are serialized one after the other.
pub proof fn lemma_boxes_encoding_two<T: Mp4Box>(boxes: Seq<T>)
    requires
        boxes.len() == 2,
    ensures
        boxes_encoding(boxes) == followed_by(encoding_of(&boxes[0]), encoding_of(&boxes[1])),
{
    reveal_with_fuel(boxes_encoding, 3);
    assert(boxes.drop_last().drop_last() =~= Seq::<T>::empty());
    assert(boxes.drop_last().last() == boxes[0]);
    assert(boxes.last() == boxes[1]);
    match encoding_of(&boxes[0]) {
        Ok(first) => {
            assert(Seq::<u8>::empty() + first =~= first);
        },
        Err(_) => {},
    }
}

/// `n` clamped to 2^32, the first size that a box cannot have.
pub open spec fn clamp_size(n: nat) -> nat {
    if n > 0x1_0000_0000 {
        0x1_0000_0000
    } else {
        n
    }
}

/// Adds two clamped sizes.
pub fn add_sizes(a: u64, b: u64) -> (sum: u64)
    requires
        a <= 0x1_0000_0000,
        b <= 0x1_0000_0000,
    ensures
        sum == clamp_size((a + b) as nat),
{
    if a + b > 0x1_0000_0000 {
        0x1_0000_0000
    } else {
        a + b
    }
}

/// Tells whether `r` is the clamped length of `encoding`, or its error.
pub open spec fn size_is(encoding: Encoding, r: Result<u64, Error>) -> bool {
    match encoding {
        Ok(bytes) => r == Ok::<u64, Error>(clamp_size(bytes.len()) as u64),
        Err(kind) => r == Err::<u64, Error>(Error { kind }),
    }
}

/// Turns a clamped size into the payload size of a box.
pub fn payload_size(size: u64) -> (r: Result<u32, Error>)
    ensures
        size <= u32::MAX ==> r == Ok::<u32, Error>(size as u32),
        size > u32::MAX ==> r == Err::<u32, Error>(Error { kind: ErrorKind::InvalidInput }),
{
    if size > 0xFFFF_FFFF {
        Err(Error::new(ErrorKind::InvalidInput))
    } else {
        Ok(size as u32)
    }
}

/// Returns the size of the box `b`.
pub fn size_of_box<T: Mp4Box>(b: &T) -> (r: Result<u64, Error>)
    ensures
        size_is(encoding_of(b), r),
        r matches Ok(n) ==> n <= u32::MAX,
{
    proof {
        reveal(box_encoding);
    }
    let n = b.box_size()?;
    Ok(n as u64)
}

/// Returns the size of the box `b`, 0 if there is none.
pub fn size_of_optional_box<T: Mp4Box>(b: &Option<T>) -> (r: Result<u64, Error>)
    ensures
        size_is(optional_encoding(*b), r),
        r matches Ok(n) ==> n <= u32::MAX,
{
    match b {
        Some(b) => size_of_box(b),
        None => Ok(0),
    }
}

/// Returns the sum of the sizes of `boxes`, clamped to 2^32.
pub fn size_of_boxes<T: Mp4Box>(boxes: &Vec<T>) -> (r: Result<u64, Error>)
    ensures
        size_is(boxes_encoding(boxes@), r),
        r matches Ok(n) ==> n <= 0x1_0000_0000,
{
    let mut size: u64 = 0;
    let mut i: usize = 0;
    assert(boxes@.take(0) =~= Seq::<T>::empty());
    while i < boxes.len()
        invariant
            i <= boxes@.len(),
            size_is(boxes_encoding(boxes@.take(i as int)), Ok::<u64, Error>(size)),
        decreases boxes@.len() - i,
    {
        proof {
            assert(boxes@.take(i + 1).drop_last() =~= boxes@.take(i as int));
            lemma_boxes_encoding_prefix(boxes@, i + 1);
        }
        let n = size_of_box(&boxes[i])?;
        size = add_sizes(size, n);
        i += 1;
    }
    assert(boxes@.take(i as int) =~= boxes@);
    Ok(size)
}

/// Writes the box `b`, if there is one.
pub fn write_optional_box<T: Mp4Box, S: ByteSink>(b: &Option<T>, sink: &mut S) -> (r: Result<
    (),
    Error,
>)
    ensures
        match optional_encoding(*b) {
            Ok(bytes) => r is Ok && final(sink).written() == old(sink).written() + bytes,
            Err(kind) => r == Err::<(), Error>(Error { kind }) && final(sink).written() == old(
                sink,
            ).written(),
        },
{
    match b {
        Some(b) => b.write_box(sink),
        None => {
            assert(sink.written() =~= sink.written() + Seq::<u8>::empty());
            Ok(())
        },
    }
}

/// Writes the boxes `boxes` one after the other, up to the first that cannot be written.
pub fn write_boxes<T: Mp4Box, S: ByteSink>(boxes: &Vec<T>, sink: &mut S) -> (r: Result<(), Error>)
    ensures
        match boxes_encoding(boxes@) {
            Ok(bytes) => r is Ok && final(sink).written() == old(sink).written() + bytes,
            Err(kind) => r == Err::<(), Error>(Error { kind }) && old(sink).written().is_prefix_of(
                final(sink).written(),
            ),
        },
{
    let mut i: usize = 0;
    assert(boxes@.take(0) =~= Seq::<T>::empty());
    assert(sink.written() =~= sink.written() + Seq::<u8>::empty());
    while i < boxes.len()
        invariant
            i <= boxes@.len(),
            boxes_encoding(boxes@.take(i as int)) is Ok,
            sink.written() == old(sink).written() + boxes_encoding(boxes@.take(i as int))->Ok_0,
        decreases boxes@.len() - i,
    {
        proof {
            assert(boxes@.take(i + 1).drop_last() =~= boxes@.take(i as int));
            lemma_boxes_encoding_prefix(boxes@, i + 1);
        }
        boxes[i].write_box(sink)?;
        i += 1;
        assert(sink.written() =~= old(sink).written() + boxes_encoding(boxes@.take(i as int))->Ok_0);
    }
    assert(boxes@.take(i as int) =~= boxes@);
    Ok(())
}

/// A serialized box begins with its size and its type, and ends with its payload. A box
/// whose payload cannot be written has the error of the payload, and a box of more than
/// 2^32 - 1 bytes is `InvalidInput`.
pub proof fn lemma_box_encoding<T: Mp4Box>(b: &T)
    ensures
        match b.payload() {
            Err(kind) => encoding_of(b) == Err::<Seq<u8>, ErrorKind>(kind),
            Ok(payload) => if header_len(b.version(), b.flags()) + payload.len() > u32::MAX {
                encoding_of(b) == Err::<Seq<u8>, ErrorKind>(ErrorKind::InvalidInput)
            } else {
                &&& encoding_of(b) is Ok
                &&& encoding_of(b)->Ok_0.len() == header_len(b.version(), b.flags()) + payload.len()
                &&& encoding_of(b)->Ok_0.subrange(0, 4) == u32_be(
                    encoding_of(b)->Ok_0.len() as u32,
                )
                &&& encoding_of(b)->Ok_0.subrange(4, 8) == T::BOX_TYPE@
                &&& encoding_of(b)->Ok_0.subrange(
                    header_len(b.version(), b.flags()) as int,
                    encoding_of(b)->Ok_0.len() as int,
                ) == payload
            },
        },
{
    reveal(box_encoding);
    match b.payload() {
        Ok(payload) => {
            if header_len(b.version(), b.flags()) + payload.len() <= u32::MAX {
                let bytes = encoding_of(b)->Ok_0;
                assert(bytes.subrange(0, 4) =~= u32_be(bytes.len() as u32));
                assert(bytes.subrange(4, 8) =~= T::BOX_TYPE@);
                assert(bytes.subrange(
                    header_len(b.version(), b.flags()) as int,
                    bytes.len() as int,
                ) =~= payload);
            }
        },
        Err(_) => {},
    }
}

/// A box that can be written has as many bytes as its size says.
pub proof fn lemma_encoding_len<T: Mp4Box>(b: &T)
    ensures
        match encoding_of(b) {
            Ok(bytes) => box_size(b.version(), b.flags(), b.payload()) == Ok::<nat, ErrorKind>(
                bytes.len(),
            ),
            Err(kind) => box_size(b.version(), b.flags(), b.payload()) == Err::<nat, ErrorKind>(
                kind,
            ),
        },
{
    reveal(box_encoding);
}

/// Returns the payload size of a box whose payload is what `counter` has counted.
pub fn counted_size(counter: &ByteCounter) -> (r: Result<u32, Error>)
    ensures
        payload_size_is(Ok::<Seq<u8>, ErrorKind>(counter.written()), r),
{
    let n = counter.count();
    if n > 0xFFFF_FFFF {
        Err(Error::new(ErrorKind::InvalidInput))
    } else {
        Ok(n as u32)
    }
}

} // verus!
