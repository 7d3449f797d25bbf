//! AVC (H.264) related constituent elements.

use crate::error::{reports, Error, ErrorKind};
use crate::io::{
    bits, u16_be, ue_decode, write_all, write_u16, write_u8, AvcBitReader, ByteSink,
    Encoding,
};
use vstd::prelude::*;

verus! {

/// The profiles above Baseline, Main and Extended, which are not supported.
pub open spec fn is_high_profile(profile_idc: u8) -> bool {
    profile_idc == 100 || profile_idc == 110 || profile_idc == 122 || profile_idc == 244
        || profile_idc == 44 || profile_idc == 83 || profile_idc == 86 || profile_idc == 118
        || profile_idc == 128
}

/// Tells whether `profile_idc` is one of the unsupported high profiles.
pub fn high_profile(profile_idc: u8) -> (b: bool)
    ensures
        b == is_high_profile(profile_idc),
{
    match profile_idc {
        100 | 110 | 122 | 244 | 44 | 83 | 86 | 118 | 128 => true,
        _ => false,
    }
}

/// Tells whether the configuration record of the profile `profile_idc` has further fields
/// behind its parameter sets: that of the profiles 100, 110, 122 and 144 has.
pub open spec fn has_extension(profile_idc: u8) -> bool {
    profile_idc == 100 || profile_idc == 110 || profile_idc == 122 || profile_idc == 144
}

/// AVC decoder configuration record.
#[derive(Debug, Clone, PartialEq, Eq)]
pub struct AvcDecoderConfigurationRecord {
    /// `profile_idc` of the sequence parameter set.
    pub profile_idc: u8,
    /// The constraint set flags of the sequence parameter set.
    pub constraint_set_flag: u8,
    /// `level_idc` of the sequence parameter set.
    pub level_idc: u8,
    /// The sequence parameter set NAL unit.
    pub sequence_parameter_set: Vec<u8>,
    /// The picture parameter set NAL unit.
    pub picture_parameter_set: Vec<u8>,
}

impl AvcDecoderConfigurationRecord {
    /// The serialized record: version 1, the three profile bytes, `0xFF` (four-byte NAL
    /// unit lengths), `0xE1` (one sequence parameter set) with its 16-bit length and bytes,
    /// `0x01` (one picture parameter set) with its 16-bit length and bytes.
    ///
    /// A profile whose record has further fields is `Unsupported`; a parameter set longer
    /// than 65535 bytes is `InvalidInput`.
    pub open spec fn encoding(&self) -> Encoding {
        if has_extension(self.profile_idc) {
            Err(ErrorKind::Unsupported)
        } else if self.sequence_parameter_set@.len() > 0xFFFF || self.picture_parameter_set@.len()
            > 0xFFFF {
            Err(ErrorKind::InvalidInput)
        } else {
            Ok(
                seq![1u8, self.profile_idc, self.constraint_set_flag, self.level_idc, 0xFFu8, 0xE1u8]
                    + u16_be(self.sequence_parameter_set@.len() as u16)
                    + self.sequence_parameter_set@ + seq![1u8] + u16_be(
                    self.picture_parameter_set@.len() as u16,
                ) + self.picture_parameter_set@,
            )
        }
    }

    /// Appends the serialized record to `sink`. On error nothing is appended.
    pub fn write_to<S: ByteSink>(&self, sink: &mut S) -> (r: Result<(), Error>)
        ensures
            match self.encoding() {
                Ok(bytes) => r is Ok && final(sink).written() == old(sink).written() + bytes,
                Err(kind) => r == Err::<(), Error>(Error { kind }) && final(sink).written() == old(
                    sink,
                ).written(),
            },
    {
        match self.profile_idc {
            100 | 110 | 122 | 144 => {
                return Err(Error::new(ErrorKind::Unsupported));
            },
            _ => {},
        }
        if self.sequence_parameter_set.len() > 0xFFFF || self.picture_parameter_set.len() > 0xFFFF {
            return Err(Error::new(ErrorKind::InvalidInput));
        }
        write_u8(sink, 1);  // configuration_version
        write_u8(sink, self.profile_idc);
        write_u8(sink, self.constraint_set_flag);
        write_u8(sink, self.level_idc);
        write_u8(sink, 0xFF);  // reserved (6 bits) and length_size_minus_one = 3
        write_u8(sink, 0xE1);  // reserved (3 bits) and one sequence parameter set
        write_u16(sink, self.sequence_parameter_set.len() as u16);
        write_all(sink, self.sequence_parameter_set.as_slice());

        write_u8(sink, 1);  // one picture parameter set
        write_u16(sink, self.picture_parameter_set.len() as u16);
        write_all(sink, self.picture_parameter_set.as_slice());
        assert(sink.written() =~= old(sink).written() + self.encoding().unwrap());
        Ok(())
    }
}

/// The type of a NAL unit.
#[derive(Debug, Clone, Copy, PartialEq, Eq, Hash, Structural)]
pub enum NalUnitType {
    /// Coded slice of a non-IDR picture (1).
    CodedSliceOfANonIdrPicture,
    /// Coded slice data partition A (2).
    CodedSliceDataPartitionA,
    /// Coded slice data partition B (3).
    CodedSliceDataPartitionB,
    /// Coded slice data partition C (4).
    CodedSliceDataPartitionC,
    /// Coded slice of an IDR picture (5).
    CodedSliceOfAnIdrPicture,
    /// Supplemental enhancement information (6).
    SupplementalEnhancementInformation,
    /// Sequence parameter set (7).
    SequenceParameterSet,
    /// Picture parameter set (8).
    PictureParameterSet,
    /// Access unit delimiter (9).
    AccessUnitDelimiter,
    /// End of sequence (10).
    EndOfSequence,
    /// End of stream (11).
    EndOfStream,
    /// Filler data (12).
    FilterData,
    /// Sequence parameter set extension (13).
    SequenceParameterSetExtension,
    /// Prefix NAL unit (14).
    PrefixNalUnit,
    /// Subset sequence parameter set (15).
    SubsetSequenceParameterSet,
    /// Coded slice of an auxiliary coded picture without partitioning (19).
    CodedSliceOfAnAuxiliaryCodedPictureWithoutPartitioning,
    /// Coded slice extension (20).
    CodedSliceExtension,
}

impl NalUnitType {
    /// The five-bit number of the type.
    pub open spec fn code(self) -> u8 {
        match self {
            NalUnitType::CodedSliceOfANonIdrPicture => 1,
            NalUnitType::CodedSliceDataPartitionA => 2,
            NalUnitType::CodedSliceDataPartitionB => 3,
            NalUnitType::CodedSliceDataPartitionC => 4,
            NalUnitType::CodedSliceOfAnIdrPicture => 5,
            NalUnitType::SupplementalEnhancementInformation => 6,
            NalUnitType::SequenceParameterSet => 7,
            NalUnitType::PictureParameterSet => 8,
            NalUnitType::AccessUnitDelimiter => 9,
            NalUnitType::EndOfSequence => 10,
            NalUnitType::EndOfStream => 11,
            NalUnitType::FilterData => 12,
            NalUnitType::SequenceParameterSetExtension => 13,
            NalUnitType::PrefixNalUnit => 14,
            NalUnitType::SubsetSequenceParameterSet => 15,
            NalUnitType::CodedSliceOfAnAuxiliaryCodedPictureWithoutPartitioning => 19,
            NalUnitType::CodedSliceExtension => 20,
        }
    }

    /// The type with the number `n`: there is one for the numbers 1 to 15, 19 and 20,
    /// and every other number is `InvalidInput`.
    pub open spec fn of_code(n: u8) -> Result<NalUnitType, ErrorKind> {
        if n == 1 {
            Ok(NalUnitType::CodedSliceOfANonIdrPicture)
        } else if n == 2 {
            Ok(NalUnitType::CodedSliceDataPartitionA)
        } else if n == 3 {
            Ok(NalUnitType::CodedSliceDataPartitionB)
        } else if n == 4 {
            Ok(NalUnitType::CodedSliceDataPartitionC)
        } else if n == 5 {
            Ok(NalUnitType::CodedSliceOfAnIdrPicture)
        } else if n == 6 {
            Ok(NalUnitType::SupplementalEnhancementInformation)
        } else if n == 7 {
            Ok(NalUnitType::SequenceParameterSet)
        } else if n == 8 {
            Ok(NalUnitType::PictureParameterSet)
        } else if n == 9 {
            Ok(NalUnitType::AccessUnitDelimiter)
        } else if n == 10 {
            Ok(NalUnitType::EndOfSequence)
        } else if n == 11 {
            Ok(NalUnitType::EndOfStream)
        } else if n == 12 {
            Ok(NalUnitType::FilterData)
        } else if n == 13 {
            Ok(NalUnitType::SequenceParameterSetExtension)
        } else if n == 14 {
            Ok(NalUnitType::PrefixNalUnit)
        } else if n == 15 {
            Ok(NalUnitType::SubsetSequenceParameterSet)
        } else if n == 19 {
            Ok(NalUnitType::CodedSliceOfAnAuxiliaryCodedPictureWithoutPartitioning)
        } else if n == 20 {
            Ok(NalUnitType::CodedSliceExtension)
        } else {
            Err(ErrorKind::InvalidInput)
        }
    }

    /// Returns the type with the number `n`, `InvalidInput` if there is none.
    pub fn from_u8(n: u8) -> (r: Result<Self, Error>)
        ensures
            reports(r, Self::of_code(n)),
    {
        Ok(
            match n {
                1 => NalUnitType::CodedSliceOfANonIdrPicture,
                2 => NalUnitType::CodedSliceDataPartitionA,
                3 => NalUnitType::CodedSliceDataPartitionB,
                4 => NalUnitType::CodedSliceDataPartitionC,
                5 => NalUnitType::CodedSliceOfAnIdrPicture,
                6 => NalUnitType::SupplementalEnhancementInformation,
                7 => NalUnitType::SequenceParameterSet,
                8 => NalUnitType::PictureParameterSet,
                9 => NalUnitType::AccessUnitDelimiter,
                10 => NalUnitType::EndOfSequence,
                11 => NalUnitType::EndOfStream,
                12 => NalUnitType::FilterData,
                13 => NalUnitType::SequenceParameterSetExtension,
                14 => NalUnitType::PrefixNalUnit,
                15 => NalUnitType::SubsetSequenceParameterSet,
                19 => NalUnitType::CodedSliceOfAnAuxiliaryCodedPictureWithoutPartitioning,
                20 => NalUnitType::CodedSliceExtension,
                _ => { return Err(Error::new(ErrorKind::InvalidInput)); },
            },
        )
    }

    /// The number of a type stands for that type, and a number that stands for a type is
    /// the number of that type.
    pub proof fn lemma_code_round_trip(self, n: u8)
        ensures
            Self::of_code(self.code()) == Ok::<NalUnitType, ErrorKind>(self),
            Self::of_code(n) matches Ok(t) ==> t.code() == n,
    {
    }
}

/// The header byte of a NAL unit.
#[derive(Debug, Clone, Copy, PartialEq, Eq, Structural)]
pub struct NalUnit {
    /// `nal_ref_idc` (two bits).
    pub nal_ref_idc: u8,
    /// The type of the unit.
    pub nal_unit_type: NalUnitType,
}

/// What the first byte of `b` says as the header of a NAL unit: bits 6 and 5 are
/// `nal_ref_idc`, the low five bits the type. An empty `b` is `Other`, an unknown type
/// `InvalidInput`.
pub open spec fn nal_header(b: Seq<u8>) -> Result<NalUnit, ErrorKind> {
    if b.len() == 0 {
        Err(ErrorKind::Other)
    } else {
        match NalUnitType::of_code(b[0] % 32) {
            Err(kind) => Err(kind),
            Ok(nal_unit_type) => Ok(NalUnit { nal_ref_idc: b[0] / 32 % 4, nal_unit_type }),
        }
    }
}

impl NalUnit {
    /// Reads the header byte that `bytes` starts with.
    pub fn read_from(bytes: &[u8]) -> (r: Result<Self, Error>)
        ensures
            reports(r, nal_header(bytes@)),
    {
        if bytes.len() == 0 {
            return Err(Error::new(ErrorKind::Other));
        }
        let b = bytes[0];
        let nal_ref_idc = b / 32 % 4;
        let nal_unit_type = NalUnitType::from_u8(b % 32)?;
        Ok(NalUnit { nal_ref_idc, nal_unit_type })
    }
}

/// The length of the start code that stands in `s` at `i`: 4 for `00 00 00 01`, 3 for
/// `00 00 01`, and 0 where neither stands.
pub open spec fn start_code_len(s: Seq<u8>, i: int) -> nat {
    if 0 <= i && i + 4 <= s.len() && s[i] == 0 && s[i + 1] == 0 && s[i + 2] == 0 && s[i + 3] == 1 {
        4
    } else if 0 <= i && i + 3 <= s.len() && s[i] == 0 && s[i + 1] == 0 && s[i + 2] == 1 {
        3
    } else {
        0
    }
}

/// The first position from `i` on at which a start code stands, or the length of `s` if
/// there is none.
pub open spec fn unit_end(s: Seq<u8>, i: int) -> int
    decreases s.len() - i,
{
    if i >= s.len() {
        s.len() as int
    } else if start_code_len(s, i) > 0 {
        i
    } else {
        unit_end(s, i + 1)
    }
}

/// The NAL units of `s`, the bytes that follow a start code: each unit extends up to the
/// next start code, which is left out, or to the end.
pub open spec fn units_of(s: Seq<u8>) -> Seq<Seq<u8>>
    decreases s.len(),
    via units_of_decreases
{
    if s.len() == 0 {
        Seq::empty()
    } else {
        let end = unit_end(s, 0);
        seq![s.subrange(0, end)] + units_of(s.subrange(end + start_code_len(s, end), s.len() as int))
    }
}

/// What is left behind a unit and the start code that follows it is shorter than what was
/// there before.
#[via_fn]
proof fn units_of_decreases(s: Seq<u8>) {
    if s.len() != 0 {
        lemma_unit_end(s, 0);
    }
}

/// `unit_end` lies between `i` and the end, no start code stands before it, and one
/// stands at it unless it is the end.
pub proof fn lemma_unit_end(s: Seq<u8>, i: int)
    requires
        0 <= i <= s.len(),
    ensures
        i <= unit_end(s, i) <= s.len(),
        unit_end(s, i) < s.len() ==> start_code_len(s, unit_end(s, i)) >= 3,
        unit_end(s, i) + start_code_len(s, unit_end(s, i)) <= s.len(),
        forall|j: int| i <= j < unit_end(s, i) ==> start_code_len(s, j) == 0,
    decreases s.len() - i,
{
    if i < s.len() && start_code_len(s, i) == 0 {
        lemma_unit_end(s, i + 1);
    }
}

/// The NAL units of an Annex-B byte stream. The stream has to begin with a start code;
/// one that does not is `InvalidInput`.
pub open spec fn nal_units(stream: Seq<u8>) -> Result<Seq<Seq<u8>>, ErrorKind> {
    if start_code_len(stream, 0) == 0 {
        Err(ErrorKind::InvalidInput)
    } else {
        Ok(units_of(stream.subrange(start_code_len(stream, 0) as int, stream.len() as int)))
    }
}

/// A start code: `00 00 00 01` if `long`, else `00 00 01`.
pub open spec fn start_code(long: bool) -> Seq<u8> {
    if long {
        seq![0u8, 0u8, 0u8, 1u8]
    } else {
        seq![0u8, 0u8, 1u8]
    }
}

/// What follows the first start code in the byte stream of `units`: the first unit, and
/// each other unit behind a start code, which is long where `long` says so.
pub open spec fn stream_tail(units: Seq<Seq<u8>>, long: Seq<bool>) -> Seq<u8>
    decreases units.len(),
{
    if units.len() == 0 {
        Seq::empty()
    } else if units.len() == 1 {
        units[0]
    } else {
        units[0] + start_code(long[1]) + stream_tail(units.drop_first(), long.drop_first())
    }
}

/// The byte stream in which each of `units` stands behind a start code, which is long
/// where `long` says so.
pub open spec fn byte_stream(units: Seq<Seq<u8>>, long: Seq<bool>) -> Seq<u8> {
    if units.len() == 0 {
        Seq::empty()
    } else {
        start_code(long[0]) + stream_tail(units, long)
    }
}

/// Tells whether the units can be told apart in their byte stream: there is one at least;
/// none has a start code in it; the last is not empty; and one that ends in a zero byte is
/// the last or has a long start code behind it.
pub open spec fn separable(units: Seq<Seq<u8>>, long: Seq<bool>) -> bool {
    &&& units.len() == long.len()
    &&& units.len() > 0
    &&& units.last().len() > 0
    &&& forall|i: int, j: int|
        0 <= i < units.len() ==> #[trigger] start_code_len(units[i], j) == 0
    &&& forall|i: int|
        0 <= i < units.len() - 1 && (#[trigger] units[i]).len() > 0 && units[i].last() == 0
            ==> long[i + 1]
}

/// Where no start code stands from `i` up to `end`, and one stands at `end` or `end` is
/// the end, `unit_end` is `end`.
pub proof fn lemma_unit_end_is(s: Seq<u8>, i: int, end: int)
    requires
        0 <= i <= end <= s.len(),
        forall|j: int| i <= j < end ==> start_code_len(s, j) == 0,
        end == s.len() || start_code_len(s, end) > 0,
    ensures
        unit_end(s, i) == end,
    decreases end - i,
{
    if i < end {
        lemma_unit_end_is(s, i + 1, end);
    }
}

/// A unit without start code in it ends where the start code behind it begins, if it does
/// not end in a zero byte before a short start code.
#[verifier::rlimit(40)]
pub proof fn lemma_unit_before_start_code(unit: Seq<u8>, long: bool, after: Seq<u8>)
    requires
        forall|j: int| start_code_len(unit, j) == 0,
        unit.len() > 0 && unit.last() == 0 ==> long,
    ensures
        unit_end(unit + start_code(long) + after, 0) == unit.len(),
        start_code_len(unit + start_code(long) + after, unit.len() as int) == start_code(long).len(),
{
    let s = unit + start_code(long) + after;
    let n = unit.len() as int;
    assert forall|j: int| 0 <= j < n implies start_code_len(s, j) == 0 by {
        assert(start_code_len(unit, j) == 0);
        assert(forall|i: int| 0 <= i < n ==> s[i] == unit[i]);
        assert(forall|i: int| 0 <= i < start_code(long).len() ==> s[n + i] == start_code(long)[i]);
    }
    assert(forall|i: int| 0 <= i < start_code(long).len() ==> s[n + i] == start_code(long)[i]);
    lemma_unit_end_is(s, 0, n);
}

/// The units of the tail of a byte stream are the units that it was made of.
#[verifier::rlimit(40)]
pub proof fn lemma_units_of_stream_tail(units: Seq<Seq<u8>>, long: Seq<bool>)
    requires
        separable(units, long),
    ensures
        units_of(stream_tail(units, long)) == units,
    decreases units.len(),
{
    let s = stream_tail(units, long);
    if units.len() == 1 {
        let unit = units[0];
        assert forall|j: int| 0 <= j < unit.len() implies start_code_len(unit, j) == 0 by {
            assert(start_code_len(units[0], j) == 0);
        }
        lemma_unit_end_is(unit, 0, unit.len() as int);
        assert(unit.subrange(0, unit.len() as int) =~= unit);
        assert(unit.subrange(unit.len() as int, unit.len() as int) =~= Seq::<u8>::empty());
        assert(units_of(Seq::<u8>::empty()) =~= Seq::<Seq<u8>>::empty());
        assert(units_of(unit) =~= seq![unit]);
        assert(units =~= seq![unit]);
    } else {
        let unit = units[0];
        let rest = units.drop_first();
        let rest_long = long.drop_first();
        let after = stream_tail(rest, rest_long);
        assert(separable(rest, rest_long)) by {
            assert(rest.last() == units.last());
            assert forall|i: int, j: int| 0 <= i < rest.len() implies #[trigger] start_code_len(
                rest[i],
                j,
            ) == 0 by {
                assert(start_code_len(units[i + 1], j) == 0);
            }
            assert forall|i: int|
                0 <= i < rest.len() - 1 && (#[trigger] rest[i]).len() > 0 && rest[i].last()
                    == 0 implies rest_long[i + 1] by {
                assert(units[i + 1].len() > 0 && units[i + 1].last() == 0);
            }
        }
        lemma_units_of_stream_tail(rest, rest_long);
        assert forall|j: int| start_code_len(unit, j) == 0 by {
            assert(start_code_len(units[0], j) == 0);
        }
        assert(unit.len() > 0 && unit.last() == 0 ==> long[1]) by {
            assert(units[0].len() > 0 && units[0].last() == 0 ==> long[1]);
        }
        lemma_unit_before_start_code(unit, long[1], after);
        let n = unit.len() as int;
        let code = start_code(long[1]).len() as int;
        assert(s == unit + start_code(long[1]) + after);
        assert(s.len() > 0);
        assert(s.subrange(0, n) =~= unit);
        assert(s.subrange(n + code, s.len() as int) =~= after);
        assert(units =~= seq![unit] + rest);
    }
}

/// The splitter finds in a byte stream the units that the stream was made of, byte for
/// byte.
pub proof fn lemma_split_byte_stream(units: Seq<Seq<u8>>, long: Seq<bool>)
    requires
        separable(units, long),
    ensures
        nal_units(byte_stream(units, long)) == Ok::<Seq<Seq<u8>>, ErrorKind>(units),
{
    let code = start_code(long[0]);
    let tail = stream_tail(units, long);
    let s = byte_stream(units, long);
    lemma_units_of_stream_tail(units, long);
    assert(forall|i: int| 0 <= i < code.len() ==> s[i] == code[i]);
    assert(start_code_len(s, 0) == code.len());
    assert(s.subrange(code.len() as int, s.len() as int) =~= tail);
}

/// Returns the length of the start code at `i`, 0 if there is none.
fn start_code_at(bytes: &[u8], i: usize) -> (n: usize)
    requires
        i <= bytes@.len(),
    ensures
        n == start_code_len(bytes@, i as int),
{
    let rest = bytes.len() - i;
    if rest >= 4 && bytes[i] == 0 && bytes[i + 1] == 0 && bytes[i + 2] == 0 && bytes[i + 3] == 1 {
        4
    } else if rest >= 3 && bytes[i] == 0 && bytes[i + 1] == 0 && bytes[i + 2] == 1 {
        3
    } else {
        0
    }
}

/// The NAL units of a byte stream in Annex-B format, handed out one by one.
#[derive(Debug)]
pub struct ByteStreamFormatNalUnits<'a> {
    bytes: &'a [u8],
}

impl<'a> ByteStreamFormatNalUnits<'a> {
    /// The bytes that have not been handed out yet.
    pub closed spec fn remaining(&self) -> Seq<u8> {
        self.bytes@
    }

    /// The units that have not been handed out yet.
    pub open spec fn units(&self) -> Seq<Seq<u8>> {
        units_of(self.remaining())
    }

    /// Starts to split `bytes`, which has to begin with a start code.
    pub fn new(bytes: &'a [u8]) -> (r: Result<Self, Error>)
        ensures
            match nal_units(bytes@) {
                Ok(units) => r is Ok && r->Ok_0.units() == units,
                Err(kind) => r is Err && r->Err_0 == (Error { kind }),
            },
    {
        let n = start_code_at(bytes, 0);
        if n == 0 {
            return Err(Error::new(ErrorKind::InvalidInput));
        }
        Ok(ByteStreamFormatNalUnits { bytes: &bytes[n..bytes.len()] })
    }

    /// Hands out the next unit, a slice of the input without its start code, or `None`
    /// when no unit is left.
    pub fn next(&mut self) -> (r: Option<&'a [u8]>)
        ensures
            match r {
                Some(unit) => {
                    &&& old(self).units().len() > 0
                    &&& unit@ == old(self).units()[0]
                    &&& final(self).units() == old(self).units().drop_first()
                },
                None => old(self).units().len() == 0 && final(self).units().len() == 0,
            },
    {
        let bytes = self.bytes;
        let len = bytes.len();
        if len == 0 {
            return None;
        }
        let mut nal_unit_end: usize = len;
        let mut next_start: usize = len;
        let mut i: usize = 0;
        while i < len
            invariant_except_break
                i <= len,
                nal_unit_end == len,
                next_start == len,
                unit_end(bytes@, 0) == unit_end(bytes@, i as int),
            invariant
                bytes@ == old(self).remaining(),
                len == bytes@.len(),
            ensures
                nal_unit_end == unit_end(bytes@, 0),
                next_start == nal_unit_end + start_code_len(bytes@, nal_unit_end as int),
                nal_unit_end <= next_start <= len,
            decreases len - i,
        {
            let n = start_code_at(bytes, i);
            if n > 0 {
                nal_unit_end = i;
                next_start = i + n;
                break ;
            }
            i += 1;
        }
        let nal_unit = &bytes[0..nal_unit_end];
        self.bytes = &bytes[next_start..len];
        proof {
            let s = old(self).remaining();
            let rest = s.subrange(next_start as int, len as int);
            assert(units_of(s) == seq![s.subrange(0, nal_unit_end as int)] + units_of(rest));
            assert(units_of(s).drop_first() =~= units_of(rest));
        }
        Some(nal_unit)
    }
}

/// Decodes the bit at `pos`; behind the end of the stream the error is `Other`. Returns
/// the bit and the position behind it.
pub open spec fn bit_decode(bs: Seq<bool>, pos: nat) -> Result<(nat, nat), ErrorKind> {
    if pos < bs.len() {
        Ok((if bs[pos as int] { 1nat } else { 0nat }, pos + 1))
    } else {
        Err(ErrorKind::Other)
    }
}

/// The position behind `count` exponential-Golomb codes that follow one another from
/// `pos` on.
pub open spec fn skip_ues(bs: Seq<bool>, pos: nat, count: nat) -> Result<nat, ErrorKind>
    decreases count,
{
    if count == 0 {
        Ok(pos)
    } else {
        match ue_decode(bs, pos) {
            Err(kind) => Err(kind),
            Ok((_, next)) => skip_ues(bs, next, (count - 1) as nat),
        }
    }
}

/// The position behind the picture-order-count fields, which depend on
/// `pic_order_cnt_type`: type 0 has one code; type 1 has a flag, three codes, and then as
/// many codes as the third one says; every other type is `Unsupported`.
pub open spec fn skip_pic_order_cnt(bs: Seq<bool>, pos: nat, pic_order_cnt_type: nat) -> Result<
    nat,
    ErrorKind,
> {
    if pic_order_cnt_type == 0 {
        skip_ues(bs, pos, 1)
    } else if pic_order_cnt_type == 1 {
        match bit_decode(bs, pos) {
            Err(kind) => Err(kind),
            Ok((_, next1)) => match skip_ues(bs, next1, 2) {
                Err(kind) => Err(kind),
                Ok(next2) => match ue_decode(bs, next2) {
                    Err(kind) => Err(kind),
                    Ok((cycle, next3)) => skip_ues(bs, next3, cycle),
                },
            },
        }
    } else {
        Err(ErrorKind::Unsupported)
    }
}

/// The position at which `pic_width_in_mbs_minus_1` stands: behind
/// `seq_parameter_set_id`, `log2_max_frame_num_minus4`, `pic_order_cnt_type` with its
/// fields, `num_ref_frames` and `gaps_in_frame_num_value_allowed_flag`. A high profile is
/// `Unsupported`, found out once `seq_parameter_set_id` has been read.
pub open spec fn sps_dimensions_start(bs: Seq<bool>, profile_idc: u8) -> Result<nat, ErrorKind> {
    match ue_decode(bs, 0) {
        Err(kind) => Err(kind),
        Ok((_, next1)) => if is_high_profile(profile_idc) {
            Err(ErrorKind::Unsupported)
        } else {
            match ue_decode(bs, next1) {
                Err(kind) => Err(kind),
                Ok((_, next2)) => match ue_decode(bs, next2) {
                    Err(kind) => Err(kind),
                    Ok((pic_order_cnt_type, next3)) => match skip_pic_order_cnt(
                        bs,
                        next3,
                        pic_order_cnt_type,
                    ) {
                        Err(kind) => Err(kind),
                        Ok(next4) => match ue_decode(bs, next4) {
                            Err(kind) => Err(kind),
                            Ok((_, next5)) => match bit_decode(bs, next5) {
                                Err(kind) => Err(kind),
                                Ok((_, next6)) => Ok(next6),
                            },
                        },
                    },
                },
            }
        },
    }
}

/// The fields of a sequence parameter set that decide the size of the pictures.
pub struct SpsDimensions {
    /// `pic_width_in_mbs_minus_1`.
    pub pic_width_in_mbs_minus_1: nat,
    /// `pic_height_in_map_units_minus_1`.
    pub pic_height_in_map_units_minus_1: nat,
    /// `frame_mbs_only_flag`.
    pub frame_mbs_only_flag: nat,
    /// `frame_crop_left_offset`.
    pub frame_crop_left_offset: nat,
    /// `frame_crop_right_offset`.
    pub frame_crop_right_offset: nat,
    /// `frame_crop_top_offset`.
    pub frame_crop_top_offset: nat,
    /// `frame_crop_bottom_offset`.
    pub frame_crop_bottom_offset: nat,
}

impl SpsDimensions {
    /// The width of the pictures in pixels.
    pub open spec fn width(self) -> int {
        (self.pic_width_in_mbs_minus_1 + 1) * 16 - 2 * (self.frame_crop_left_offset
            + self.frame_crop_right_offset)
    }

    /// The height of the pictures in pixels.
    pub open spec fn height(self) -> int {
        (2 - self.frame_mbs_only_flag) * (self.pic_height_in_map_units_minus_1 + 1) * 16 - 2 * (
        self.frame_crop_top_offset + self.frame_crop_bottom_offset)
    }
}

/// The four crop offsets from `pos` on, in the order left, right, top, bottom, if
/// `frame_cropping_flag` is 1; four times 0 if it is not.
pub open spec fn sps_crop(bs: Seq<bool>, pos: nat, frame_cropping_flag: nat) -> Result<
    (nat, nat, nat, nat),
    ErrorKind,
> {
    if frame_cropping_flag == 1 {
        match ue_decode(bs, pos) {
            Err(kind) => Err(kind),
            Ok((left, next1)) => match ue_decode(bs, next1) {
                Err(kind) => Err(kind),
                Ok((right, next2)) => match ue_decode(bs, next2) {
                    Err(kind) => Err(kind),
                    Ok((top, next3)) => match ue_decode(bs, next3) {
                        Err(kind) => Err(kind),
                        Ok((bottom, _)) => Ok((left, right, top, bottom)),
                    },
                },
            },
        }
    } else {
        Ok((0, 0, 0, 0))
    }
}

/// The fields from `pos` on: `pic_width_in_mbs_minus_1`,
/// `pic_height_in_map_units_minus_1`, `frame_mbs_only_flag`, if that is 0
/// `mb_adaptive_frame_field_flag`, then `direct_8x8_inference_flag`,
/// `frame_cropping_flag` and the crop offsets.
pub open spec fn sps_dimensions(bs: Seq<bool>, pos: nat) -> Result<SpsDimensions, ErrorKind> {
    match ue_decode(bs, pos) {
        Err(kind) => Err(kind),
        Ok((width, next1)) => match ue_decode(bs, next1) {
            Err(kind) => Err(kind),
            Ok((height, next2)) => match bit_decode(bs, next2) {
                Err(kind) => Err(kind),
                Ok((frame_mbs_only_flag, next3)) => match (if frame_mbs_only_flag == 0 {
                    bit_decode(bs, next3)
                } else {
                    Ok((0nat, next3))
                }) {
                    Err(kind) => Err(kind),
                    Ok((_, next4)) => match bit_decode(bs, next4) {
                        Err(kind) => Err(kind),
                        Ok((_, next5)) => match bit_decode(bs, next5) {
                            Err(kind) => Err(kind),
                            Ok((frame_cropping_flag, next6)) => match sps_crop(
                                bs,
                                next6,
                                frame_cropping_flag,
                            ) {
                                Err(kind) => Err(kind),
                                Ok((left, right, top, bottom)) => Ok(
                                    SpsDimensions {
                                        pic_width_in_mbs_minus_1: width,
                                        pic_height_in_map_units_minus_1: height,
                                        frame_mbs_only_flag,
                                        frame_crop_left_offset: left,
                                        frame_crop_right_offset: right,
                                        frame_crop_top_offset: top,
                                        frame_crop_bottom_offset: bottom,
                                    },
                                ),
                            },
                        },
                    },
                },
            },
        },
    }
}

/// What a decoder has to know of a sequence parameter set.
#[derive(Debug, Clone, Copy, PartialEq, Eq, Structural)]
pub struct SpsSummary {
    /// `profile_idc`.
    pub profile_idc: u8,
    /// The constraint set flags: six flags and two reserved bits.
    pub constraint_set_flag: u8,
    /// `level_idc`.
    pub level_idc: u8,
    /// The width of the pictures in pixels.
    pub pic_width: u16,
    /// The height of the pictures in pixels.
    pub pic_height: u16,
}

/// The summary of the sequence parameter set `b`, the NAL unit without its header byte:
/// three bytes `profile_idc`, constraint set flags and `level_idc`, then the bit stream of
/// the other fields.
///
/// A width or height that is negative or above 65535 is `InvalidInput`.
pub open spec fn sps_summary(b: Seq<u8>) -> Result<SpsSummary, ErrorKind> {
    if b.len() < 3 {
        Err(ErrorKind::Other)
    } else {
        let bs = bits(b.subrange(3, b.len() as int));
        match sps_dimensions_start(bs, b[0]) {
            Err(kind) => Err(kind),
            Ok(pos) => match sps_dimensions(bs, pos) {
                Err(kind) => Err(kind),
                Ok(d) => if 0 <= d.width() <= 0xFFFF && 0 <= d.height() <= 0xFFFF {
                    Ok(
                        SpsSummary {
                            profile_idc: b[0],
                            constraint_set_flag: b[1],
                            level_idc: b[2],
                            pic_width: d.width() as u16,
                            pic_height: d.height() as u16,
                        },
                    )
                } else {
                    Err(ErrorKind::InvalidInput)
                },
            },
        }
    }
}

/// Skips `count` exponential-Golomb codes.
fn skip_codes(reader: &mut AvcBitReader, count: u64) -> (r: Result<(), Error>)
    ensures
        final(reader).bytes() == old(reader).bytes(),
        match skip_ues(bits(old(reader).bytes()), old(reader).position(), count as nat) {
            Ok(next) => r is Ok && final(reader).position() == next,
            Err(kind) => r == Err::<(), Error>(Error { kind }),
        },
{
    let mut i: u64 = 0;
    while i < count
        invariant
            i <= count,
            reader.bytes() == old(reader).bytes(),
            skip_ues(bits(old(reader).bytes()), old(reader).position(), count as nat) == skip_ues(
                bits(old(reader).bytes()),
                reader.position(),
                (count - i) as nat,
            ),
        decreases count - i,
    {
        let _ = reader.read_ue()?;
        i += 1;
    }
    Ok(())
}

/// Skips the picture-order-count fields.
#[verifier::rlimit(40)]
fn read_pic_order_cnt(reader: &mut AvcBitReader, pic_order_cnt_type: u64) -> (r: Result<(), Error>)
    ensures
        final(reader).bytes() == old(reader).bytes(),
        match skip_pic_order_cnt(
            bits(old(reader).bytes()),
            old(reader).position(),
            pic_order_cnt_type as nat,
        ) {
            Ok(next) => r is Ok && final(reader).position() == next,
            Err(kind) => r == Err::<(), Error>(Error { kind }),
        },
{
    reveal_with_fuel(skip_ues, 3);
    if pic_order_cnt_type == 0 {
        let _log2_max_pic_order_cnt_lsb_minus4 = reader.read_ue()?;
        Ok(())
    } else if pic_order_cnt_type == 1 {
        let _delta_pic_order_always_zero_flag = reader.read_bit()?;
        let _offset_for_non_ref_pic = reader.read_ue()?;
        let _offset_for_top_to_bottom_field = reader.read_ue()?;
        let num_ref_frames_in_pic_order_cnt_cycle = reader.read_ue()?;
        skip_codes(reader, num_ref_frames_in_pic_order_cnt_cycle)
    } else {
        Err(Error::new(ErrorKind::Unsupported))
    }
}

/// Reads up to the field `pic_width_in_mbs_minus_1`.
#[verifier::rlimit(40)]
fn read_dimensions_start(reader: &mut AvcBitReader, profile_idc: u8) -> (r: Result<(), Error>)
    requires
        old(reader).position() == 0,
    ensures
        final(reader).bytes() == old(reader).bytes(),
        match sps_dimensions_start(bits(old(reader).bytes()), profile_idc) {
            Ok(next) => r is Ok && final(reader).position() == next,
            Err(kind) => r == Err::<(), Error>(Error { kind }),
        },
{
    let _seq_parameter_set_id = reader.read_ue()?;
    if high_profile(profile_idc) {
        return Err(Error::new(ErrorKind::Unsupported));
    }
    let _log2_max_frame_num_minus4 = reader.read_ue()?;
    let pic_order_cnt_type = reader.read_ue()?;
    read_pic_order_cnt(reader, pic_order_cnt_type)?;
    let _num_ref_frames = reader.read_ue()?;
    let _gaps_in_frame_num_value_allowed_flag = reader.read_bit()?;
    Ok(())
}

/// Reads the crop offsets: left, right, top, bottom.
fn read_crop(reader: &mut AvcBitReader, frame_cropping_flag: u8) -> (r: Result<
    (u64, u64, u64, u64),
    Error,
>)
    ensures
        final(reader).bytes() == old(reader).bytes(),
        match sps_crop(bits(old(reader).bytes()), old(reader).position(), frame_cropping_flag as nat) {
            Ok(c) => r is Ok && r->Ok_0.0 == c.0 && r->Ok_0.1 == c.1 && r->Ok_0.2 == c.2
                && r->Ok_0.3 == c.3,
            Err(kind) => r == Err::<(u64, u64, u64, u64), Error>(Error { kind }),
        },
{
    if frame_cropping_flag == 1 {
        let left = reader.read_ue()?;
        let right = reader.read_ue()?;
        let top = reader.read_ue()?;
        let bottom = reader.read_ue()?;
        Ok((left, right, top, bottom))
    } else {
        Ok((0, 0, 0, 0))
    }
}

/// The fields that decide the size of the pictures, as read.
struct RawDimensions {
    pic_width_in_mbs_minus_1: u64,
    pic_height_in_map_units_minus_1: u64,
    frame_mbs_only_flag: u8,
    frame_crop_left_offset: u64,
    frame_crop_right_offset: u64,
    frame_crop_top_offset: u64,
    frame_crop_bottom_offset: u64,
}

impl RawDimensions {
    /// The fields as numbers without bounds.
    spec fn view(&self) -> SpsDimensions {
        SpsDimensions {
            pic_width_in_mbs_minus_1: self.pic_width_in_mbs_minus_1 as nat,
            pic_height_in_map_units_minus_1: self.pic_height_in_map_units_minus_1 as nat,
            frame_mbs_only_flag: self.frame_mbs_only_flag as nat,
            frame_crop_left_offset: self.frame_crop_left_offset as nat,
            frame_crop_right_offset: self.frame_crop_right_offset as nat,
            frame_crop_top_offset: self.frame_crop_top_offset as nat,
            frame_crop_bottom_offset: self.frame_crop_bottom_offset as nat,
        }
    }

    /// Reads the fields from `pic_width_in_mbs_minus_1` on.
    #[verifier::rlimit(40)]
    fn read_from(reader: &mut AvcBitReader) -> (r: Result<Self, Error>)
        ensures
            final(reader).bytes() == old(reader).bytes(),
            match sps_dimensions(bits(old(reader).bytes()), old(reader).position()) {
                Ok(d) => r is Ok && r->Ok_0@ == d && d.frame_mbs_only_flag <= 1,
                Err(kind) => r == Err::<Self, Error>(Error { kind }),
            },
    {
        let pic_width_in_mbs_minus_1 = reader.read_ue()?;
        let pic_height_in_map_units_minus_1 = reader.read_ue()?;
        let frame_mbs_only_flag = reader.read_bit()?;
        if frame_mbs_only_flag == 0 {
            let _mb_adaptive_frame_field_flag = reader.read_bit()?;
        }
        let _direct_8x8_inference_flag = reader.read_bit()?;
        let frame_cropping_flag = reader.read_bit()?;
        let crop = read_crop(reader, frame_cropping_flag)?;
        Ok(
            RawDimensions {
                pic_width_in_mbs_minus_1,
                pic_height_in_map_units_minus_1,
                frame_mbs_only_flag,
                frame_crop_left_offset: crop.0,
                frame_crop_right_offset: crop.1,
                frame_crop_top_offset: crop.2,
                frame_crop_bottom_offset: crop.3,
            },
        )
    }

    /// Returns width and height in pixels, or `None` if one of them is negative or above
    /// 65535.
    fn size(&self) -> (r: Option<(u16, u16)>)
        requires
            self.frame_mbs_only_flag <= 1,
        ensures
            match r {
                Some((w, h)) => w == self@.width() && h == self@.height(),
                None => !(0 <= self@.width() <= 0xFFFF && 0 <= self@.height() <= 0xFFFF),
            },
    {
        let full_width: u128 = (self.pic_width_in_mbs_minus_1 as u128 + 1) * 16;
        let crop_width: u128 = 2 * (self.frame_crop_left_offset as u128
            + self.frame_crop_right_offset as u128);
        let rows: u128 = if self.frame_mbs_only_flag == 0 {
            2
        } else {
            1
        };
        let full_height: u128 = rows * ((self.pic_height_in_map_units_minus_1 as u128 + 1) * 16);
        let crop_height: u128 = 2 * (self.frame_crop_top_offset as u128
            + self.frame_crop_bottom_offset as u128);
        assert(self@.height() == full_height - crop_height) by (nonlinear_arith)
            requires
                self@.height() == (2 - self.frame_mbs_only_flag) * (
                self.pic_height_in_map_units_minus_1 + 1) * 16 - crop_height,
                rows == 2 - self.frame_mbs_only_flag,
                full_height == rows * ((self.pic_height_in_map_units_minus_1 + 1) * 16),
        ;
        if crop_width > full_width || full_width - crop_width > 0xFFFF || crop_height > full_height
            || full_height - crop_height > 0xFFFF {
            None
        } else {
            Some(((full_width - crop_width) as u16, (full_height - crop_height) as u16))
        }
    }
}

impl SpsSummary {
    /// Returns the width of the pictures in pixels.
    pub fn width(&self) -> (w: usize)
        ensures
            w == self.pic_width,
    {
        self.pic_width as usize
    }

    /// Returns the height of the pictures in pixels.
    pub fn height(&self) -> (h: usize)
        ensures
            h == self.pic_height,
    {
        self.pic_height as usize
    }

    /// Reads the summary of the sequence parameter set `bytes`, the NAL unit without its
    /// header byte.
    pub fn read_from(bytes: &[u8]) -> (r: Result<Self, Error>)
        ensures
            reports(r, sps_summary(bytes@)),
    {
        if bytes.len() < 3 {
            return Err(Error::new(ErrorKind::Other));
        }
        let profile_idc = bytes[0];
        let constraint_set_flag = bytes[1];
        let level_idc = bytes[2];

        let mut reader = AvcBitReader::new(&bytes[3..bytes.len()]);
        read_dimensions_start(&mut reader, profile_idc)?;
        let raw = RawDimensions::read_from(&mut reader)?;
        match raw.size() {
            None => Err(Error::new(ErrorKind::InvalidInput)),
            Some((pic_width, pic_height)) => Ok(
                SpsSummary { profile_idc, constraint_set_flag, level_idc, pic_width, pic_height },
            ),
        }
    }
}

} // verus!
