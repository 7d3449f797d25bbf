//! I/O related constituent elements: byte sinks, big-endian encoders and the bit reader
//! used to parse AVC parameter sets.

use crate::error::{Error, ErrorKind};
use byteorder::{BigEndian, ByteOrder};
use vstd::prelude::*;

verus! {

/// What a serializer produces: the bytes, or the kind of the error it reports.
pub type Encoding = Result<Seq<u8>, ErrorKind>;

/// `a` followed by `b`; the first error wins.
pub open spec fn followed_by(a: Encoding, b: Encoding) -> Encoding {
    match a {
        Err(k) => Err(k),
        Ok(x) => match b {
            Err(k) => Err(k),
            Ok(y) => Ok(x + y),
        },
    }
}

/// The big-endian encoding of a `u16`.
pub open spec fn u16_be(n: u16) -> Seq<u8> {
    seq![(n / 0x100) as u8, (n % 0x100) as u8]
}

/// The big-endian encoding of the low 24 bits of `n`.
pub open spec fn u24_be(n: u32) -> Seq<u8> {
    seq![(n / 0x1_0000 % 0x100) as u8, (n / 0x100 % 0x100) as u8, (n % 0x100) as u8]
}

/// The big-endian encoding of a `u32`.
pub open spec fn u32_be(n: u32) -> Seq<u8> {
    seq![
        (n / 0x100_0000) as u8,
        (n / 0x1_0000 % 0x100) as u8,
        (n / 0x100 % 0x100) as u8,
        (n % 0x100) as u8,
    ]
}

/// The big-endian encoding of a `u64`.
pub open spec fn u64_be(n: u64) -> Seq<u8> {
    u32_be((n / 0x1_0000_0000) as u32) + u32_be((n % 0x1_0000_0000) as u32)
}

/// The big-endian two's complement encoding of an `i16`.
pub open spec fn i16_be(n: i16) -> Seq<u8> {
    u16_be(
        if n < 0 {
            (n + 0x1_0000) as u16
        } else {
            n as u16
        },
    )
}

/// The big-endian two's complement encoding of an `i32`.
pub open spec fn i32_be(n: i32) -> Seq<u8> {
    u32_be(
        if n < 0 {
            (n + 0x1_0000_0000) as u32
        } else {
            n as u32
        },
    )
}

/// `n` zero bytes.
pub open spec fn zeroes(n: nat) -> Seq<u8> {
    Seq::new(n, |i: int| 0u8)
}

/// The number denoted by two big-endian bytes.
pub open spec fn u16_from_be(hi: u8, lo: u8) -> u16 {
    (hi * 0x100 + lo) as u16
}

/// The number denoted by four big-endian bytes.
pub open spec fn u32_from_be(b: Seq<u8>) -> u32 {
    (b[0] * 0x100_0000 + b[1] * 0x1_0000 + b[2] * 0x100 + b[3]) as u32
}

/// The four bytes of the encoding of a number denote that number.
pub proof fn lemma_u32_be_round_trip(n: u32)
    ensures
        u32_from_be(u32_be(n)) == n,
{
}

/// `byteorder::BigEndian::write_u16` on a two-byte buffer: the buffer then holds `n`, most
/// significant byte first.
#[verifier::external_body]
fn be_u16(n: u16) -> (b: [u8; 2])
    ensures
        b@ == u16_be(n),
{
    let mut b = [0u8; 2];
    BigEndian::write_u16(&mut b, n);
    b
}

/// `byteorder::BigEndian::write_i16` on a two-byte buffer: the buffer then holds the two's
/// complement of `n`, most significant byte first.
#[verifier::external_body]
fn be_i16(n: i16) -> (b: [u8; 2])
    ensures
        b@ == i16_be(n),
{
    let mut b = [0u8; 2];
    BigEndian::write_i16(&mut b, n);
    b
}

/// `byteorder::BigEndian::write_uint` with three bytes: the buffer then holds `n`, most
/// significant byte first. The outside function asserts that `n` fits in three bytes.
#[verifier::external_body]
fn be_u24(n: u32) -> (b: [u8; 3])
    requires
        n <= 0xFF_FFFF,
    ensures
        b@ == u24_be(n),
{
    let mut b = [0u8; 3];
    BigEndian::write_uint(&mut b, u64::from(n), 3);
    b
}

/// `byteorder::BigEndian::write_u32` on a four-byte buffer: the buffer then holds `n`, most
/// significant byte first.
#[verifier::external_body]
fn be_u32(n: u32) -> (b: [u8; 4])
    ensures
        b@ == u32_be(n),
{
    let mut b = [0u8; 4];
    BigEndian::write_u32(&mut b, n);
    b
}

/// `byteorder::BigEndian::write_i32` on a four-byte buffer: the buffer then holds the two's
/// complement of `n`, most significant byte first.
#[verifier::external_body]
fn be_i32(n: i32) -> (b: [u8; 4])
    ensures
        b@ == i32_be(n),
{
    let mut b = [0u8; 4];
    BigEndian::write_i32(&mut b, n);
    b
}

/// `byteorder::BigEndian::write_u64` on an eight-byte buffer: the buffer then holds `n`, most
/// significant byte first.
#[verifier::external_body]
fn be_u64(n: u64) -> (b: [u8; 8])
    ensures
        b@ == u64_be(n),
{
    let mut b = [0u8; 8];
    BigEndian::write_u64(&mut b, n);
    b
}

/// `byteorder::BigEndian::read_u16`: the number whose big-endian encoding is the first two
/// bytes of `buf`. The outside function panics on a shorter buffer.
#[verifier::external_body]
pub(crate) fn be_read_u16(buf: &[u8]) -> (n: u16)
    requires
        buf@.len() >= 2,
    ensures
        n == u16_from_be(buf@[0], buf@[1]),
{
    BigEndian::read_u16(buf)
}

/// `byteorder::BigEndian::read_u32`: the number whose big-endian encoding is the first four
/// bytes of `buf`. The outside function panics on a shorter buffer.
#[verifier::external_body]
pub(crate) fn be_read_u32(buf: &[u8]) -> (n: u32)
    requires
        buf@.len() >= 4,
    ensures
        n == u32_from_be(buf@),
{
    BigEndian::read_u32(buf)
}

/// A destination for serialized bytes that never fails.
pub trait ByteSink {
    /// Everything that has been put into the sink so far.
    spec fn written(&self) -> Seq<u8>;

    /// Appends `bytes` to the sink.
    fn put(&mut self, bytes: &[u8])
        ensures
            final(self).written() == old(self).written() + bytes@,
    ;
}

impl ByteSink for Vec<u8> {
    open spec fn written(&self) -> Seq<u8> {
        self@
    }

    fn put(&mut self, bytes: &[u8]) {
        self.extend_from_slice(bytes);
        assert(self@ =~= old(self)@ + bytes@);
    }
}

/// `n` clamped to what a `u64` can hold.
pub open spec fn clamp_u64(n: nat) -> nat {
    if n > u64::MAX {
        u64::MAX as nat
    } else {
        n
    }
}

/// A sink that discards what it is given and only counts it.
///
/// It computes the size of a serialization without allocating.
pub struct ByteCounter {
    count: u64,
    seen: Ghost<Seq<u8>>,
}

impl ByteCounter {
    /// The count is the number of the bytes seen, up to what it can hold.
    #[verifier::type_invariant]
    spec fn consistent(self) -> bool {
        self.count as nat == clamp_u64(self.seen@.len())
    }

    /// Makes a counter that has seen nothing.
    pub fn new() -> (c: Self)
        ensures
            c.written() == Seq::<u8>::empty(),
    {
        ByteCounter { count: 0, seen: Ghost(Seq::empty()) }
    }

    /// Makes a counter that has seen nothing.
    pub fn with_sink() -> (c: Self)
        ensures
            c.written() == Seq::<u8>::empty(),
    {
        Self::new()
    }

    /// Returns the number of bytes put into the counter, saturating at `u64::MAX`.
    pub fn count(&self) -> (n: u64)
        ensures
            n as nat == clamp_u64(self.written().len()),
    {
        proof {
            use_type_invariant(self);
        }
        self.count
    }
}

impl ByteSink for ByteCounter {
    closed spec fn written(&self) -> Seq<u8> {
        self.seen@
    }

    fn put(&mut self, bytes: &[u8]) {
        proof {
            use_type_invariant(&*self);
        }
        let n: u64 = bytes.len() as u64;
        let count: u64 = if n > u64::MAX - self.count {
            u64::MAX
        } else {
            self.count + n
        };
        *self = ByteCounter { count, seen: Ghost(self.seen@ + bytes@) };
    }
}

/// A value with a serialized form.
pub trait WriteTo {
    /// The serialized form, or the kind of the error that serialization reports.
    spec fn encoding(&self) -> Encoding;

    /// Appends the serialized form to `sink`. On error nothing is appended.
    fn write_to<S: ByteSink>(&self, sink: &mut S) -> (r: Result<(), Error>)
        ensures
            match self.encoding() {
                Ok(bytes) => r is Ok && final(sink).written() == old(sink).written() + bytes,
                Err(kind) => r == Err::<(), Error>(Error { kind }) && final(sink).written() == old(
                    sink,
                ).written(),
            },
    ;
}

/// Appends one byte.
pub fn write_u8<S: ByteSink>(sink: &mut S, n: u8)
    ensures
        final(sink).written() == old(sink).written() + seq![n],
{
    let b = [n];
    assert(b@ =~= seq![n]);
    sink.put(&b);
}

/// Appends `n` in big-endian order.
pub fn write_u16<S: ByteSink>(sink: &mut S, n: u16)
    ensures
        final(sink).written() == old(sink).written() + u16_be(n),
{
    let b = be_u16(n);
    sink.put(&b);
}

/// Appends `n` in big-endian order.
pub fn write_i16<S: ByteSink>(sink: &mut S, n: i16)
    ensures
        final(sink).written() == old(sink).written() + i16_be(n),
{
    let b = be_i16(n);
    sink.put(&b);
}

/// Appends the 24-bit number `n` in big-endian order.
pub fn write_u24<S: ByteSink>(sink: &mut S, n: u32)
    requires
        n <= 0xFF_FFFF,
    ensures
        final(sink).written() == old(sink).written() + u24_be(n),
{
    let b = be_u24(n);
    sink.put(&b);
}

/// Appends `n` in big-endian order.
pub fn write_u32<S: ByteSink>(sink: &mut S, n: u32)
    ensures
        final(sink).written() == old(sink).written() + u32_be(n),
{
    let b = be_u32(n);
    sink.put(&b);
}

/// Appends `n` in big-endian order.
pub fn write_i32<S: ByteSink>(sink: &mut S, n: i32)
    ensures
        final(sink).written() == old(sink).written() + i32_be(n),
{
    let b = be_i32(n);
    sink.put(&b);
}

/// Appends `n` in big-endian order.
pub fn write_u64<S: ByteSink>(sink: &mut S, n: u64)
    ensures
        final(sink).written() == old(sink).written() + u64_be(n),
{
    let b = be_u64(n);
    sink.put(&b);
}

/// Appends `bytes`.
pub fn write_all<S: ByteSink>(sink: &mut S, bytes: &[u8])
    ensures
        final(sink).written() == old(sink).written() + bytes@,
{
    sink.put(bytes);
}

/// Appends `n` zero bytes.
pub fn write_zeroes<S: ByteSink>(sink: &mut S, n: usize)
    ensures
        final(sink).written() == old(sink).written() + zeroes(n as nat),
{
    let zero = [0u8];
    let mut i: usize = 0;
    assert(sink.written() =~= old(sink).written() + zeroes(0));
    while i < n
        invariant
            i <= n,
            zero@ == seq![0u8],
            sink.written() == old(sink).written() + zeroes(i as nat),
        decreases n - i,
    {
        sink.put(&zero);
        i += 1;
        assert(sink.written() =~= old(sink).written() + zeroes(i as nat));
    }
}

/// Two to the power `k`.
pub open spec fn two_to(k: nat) -> nat
    decreases k,
{
    if k == 0 {
        1
    } else {
        2 * two_to((k - 1) as nat)
    }
}

/// The bits of a byte stream, the most significant bit of each byte first.
pub open spec fn bits(bytes: Seq<u8>) -> Seq<bool> {
    Seq::new(8 * bytes.len(), |i: int| (bytes[i / 8] >> ((7 - i % 8) as u8)) & 1 == 1)
}

/// The number of zero bits that follow one another from `pos` on.
pub open spec fn leading_zeros(bits: Seq<bool>, pos: nat) -> nat
    decreases bits.len() - pos,
{
    if pos < bits.len() && !bits[pos as int] {
        1 + leading_zeros(bits, pos + 1)
    } else {
        0
    }
}

/// The number that the `k` bits from `pos` on denote, most significant bit first.
pub open spec fn bits_value(bits: Seq<bool>, pos: nat, k: nat) -> nat
    decreases k,
{
    if k == 0 {
        0
    } else {
        2 * bits_value(bits, pos, (k - 1) as nat) + if bits[pos + k - 1] {
            1nat
        } else {
            0nat
        }
    }
}

/// Decodes one unsigned exponential-Golomb code at `pos`: `k` zero bits, a one bit, and `k`
/// further bits denoting `v` stand for `2^k - 1 + v`. Returns the number and the position
/// behind the code.
///
/// A code with more than 63 leading zero bits is `InvalidInput`; a code that the stream
/// ends in is `Other`.
#[verifier::opaque]
pub open spec fn ue_decode(bits: Seq<bool>, pos: nat) -> Result<(nat, nat), ErrorKind> {
    let k = leading_zeros(bits, pos);
    if k > 63 {
        Err(ErrorKind::InvalidInput)
    } else if pos + 2 * k + 1 > bits.len() {
        Err(ErrorKind::Other)
    } else {
        Ok(((two_to(k) - 1 + bits_value(bits, pos + k + 1, k)) as nat, pos + 2 * k + 1))
    }
}

/// Reads a byte stream bit by bit, the most significant bit of each byte first.
pub struct AvcBitReader<'a> {
    stream: &'a [u8],
    byte_pos: usize,
    bit_offset: u8,
}

impl<'a> AvcBitReader<'a> {
    /// The reader stands in its stream or at its end, and within a byte only where there
    /// is a byte.
    #[verifier::type_invariant]
    spec fn in_range(self) -> bool {
        &&& self.byte_pos <= self.stream@.len()
        &&& self.bit_offset < 8
        &&& self.bit_offset > 0 ==> self.byte_pos < self.stream@.len()
    }

    /// The bytes that the reader reads from.
    pub closed spec fn bytes(&self) -> Seq<u8> {
        self.stream@
    }

    /// The number of bits read so far.
    pub closed spec fn position(&self) -> nat {
        (self.byte_pos * 8 + self.bit_offset) as nat
    }

    /// Makes a reader that stands at the first bit of `stream`.
    pub fn new(stream: &'a [u8]) -> (r: Self)
        ensures
            r.bytes() == stream@,
            r.position() == 0,
    {
        AvcBitReader { stream, byte_pos: 0, bit_offset: 0 }
    }

    /// Reads one bit. At the end of the stream the error is `Other` and the reader stays
    /// where it is.
    pub fn read_bit(&mut self) -> (r: Result<u8, Error>)
        ensures
            final(self).bytes() == old(self).bytes(),
            match r {
                Ok(bit) => {
                    &&& old(self).position() < 8 * old(self).bytes().len()
                    &&& bit == if bits(old(self).bytes())[old(self).position() as int] {
                        1u8
                    } else {
                        0u8
                    }
                    &&& final(self).position() == old(self).position() + 1
                },
                Err(e) => {
                    &&& e.kind == ErrorKind::Other
                    &&& old(self).position() >= 8 * old(self).bytes().len()
                    &&& final(self).position() == old(self).position()
                },
            },
    {
        proof {
            use_type_invariant(&*self);
        }
        if self.byte_pos >= self.stream.len() {
            return Err(Error::new(ErrorKind::Other));
        }
        let byte = self.stream[self.byte_pos];
        let shift: u8 = 7 - self.bit_offset;
        let bit = (byte >> shift) & 1;
        assert(bit == 0 || bit == 1) by (bit_vector)
            requires
                bit == (byte >> shift) & 1,
        ;
        let ghost i = self.position() as int;
        assert(i / 8 == self.byte_pos && i % 8 == self.bit_offset);
        if self.bit_offset == 7 {
            *self = AvcBitReader { stream: self.stream, byte_pos: self.byte_pos + 1, bit_offset: 0 };
        } else {
            *self = AvcBitReader {
                stream: self.stream,
                byte_pos: self.byte_pos,
                bit_offset: self.bit_offset + 1,
            };
        }
        Ok(bit)
    }

    /// Reads one unsigned exponential-Golomb code. On error the reader has gone on by the
    /// bits that it has read.
    pub fn read_ue(&mut self) -> (r: Result<u64, Error>)
        ensures
            final(self).bytes() == old(self).bytes(),
            match ue_decode(bits(old(self).bytes()), old(self).position()) {
                Ok((n, next)) => n <= u64::MAX && r == Ok::<u64, Error>(n as u64)
                    && final(self).position() == next,
                Err(kind) => r == Err::<u64, Error>(Error { kind }) && old(self).position()
                    <= final(self).position(),
            },
    {
        self.read_exp_golomb_code()
    }

    /// Counts the leading zero bits, passes over the one bit, and reads as many bits as
    /// there were zero bits.
    #[verifier::rlimit(40)]
    fn read_exp_golomb_code(&mut self) -> (r: Result<u64, Error>)
        ensures
            final(self).bytes() == old(self).bytes(),
            match ue_decode(bits(old(self).bytes()), old(self).position()) {
                Ok((n, next)) => n <= u64::MAX && r == Ok::<u64, Error>(n as u64)
                    && final(self).position() == next,
                Err(kind) => r == Err::<u64, Error>(Error { kind }) && old(self).position()
                    <= final(self).position(),
            },
    {
        let ghost bs = bits(self.bytes());
        let ghost start = self.position();
        let mut leading: u8 = 0;
        loop
            invariant_except_break
                self.bytes() == old(self).bytes(),
                leading <= 63,
                bs == bits(self.bytes()),
                start == old(self).position(),
                self.position() == start + leading,
                leading_zeros(bs, start) == leading + leading_zeros(bs, self.position()),
            ensures
                self.bytes() == old(self).bytes(),
                leading <= 63,
                self.position() == start + leading + 1,
                self.position() <= bs.len(),
                bs == bits(self.bytes()),
                start == old(self).position(),
                leading_zeros(bs, start) == leading,
            decreases 64 - leading,
        {
            proof {
                reveal(ue_decode);
            }
            let ghost before = self.position();
            match self.read_bit() {
                Err(e) => {
                    assert(leading_zeros(bs, before) == 0);
                    return Err(Error::new(ErrorKind::Other));
                },
                Ok(bit) => {
                    if bit != 0 {
                        assert(leading_zeros(bs, before) == 0);
                        break ;
                    }
                    assert(leading_zeros(bs, before) == 1 + leading_zeros(bs, before + 1));
                    if leading == 63 {
                        return Err(Error::new(ErrorKind::InvalidInput));
                    }
                    leading += 1;
                },
            }
        }
        let mut n: u64 = 0;
        let mut power: u64 = 1;
        let mut i: u8 = 0;
        while i < leading
            invariant
                self.bytes() == old(self).bytes(),
                i <= leading <= 63,
                self.position() == start + leading + 1 + i,
                self.position() <= bs.len(),
                power == two_to(i as nat),
                n == bits_value(bs, (start + leading + 1) as nat, i as nat),
                n < power,
                bs == bits(self.bytes()),
                start == old(self).position(),
                leading_zeros(bs, start) == leading,
            decreases leading - i,
        {
            proof {
                reveal(ue_decode);
                lemma_two_to_bound(i as nat, 62);
                lemma_two_to_63();
            }
            match self.read_bit() {
                Err(e) => {
                    return Err(Error::new(ErrorKind::Other));
                },
                Ok(bit) => {
                    n = 2 * n + bit as u64;
                    power = 2 * power;
                    i += 1;
                },
            }
        }
        proof {
            reveal(ue_decode);
            lemma_two_to_bound(leading as nat, 63);
            lemma_two_to_63();
        }
        Ok(power - 1 + n)
    }
}

/// The largest power of two that a `u64` holds.
pub proof fn lemma_two_to_63()
    ensures
        two_to(63) == 0x8000_0000_0000_0000,
{
    reveal_with_fuel(two_to, 64);
}

/// Powers of two grow with the exponent.
pub proof fn lemma_two_to_bound(i: nat, k: nat)
    requires
        i <= k,
    ensures
        two_to(i) <= two_to(k),
        i < k ==> 2 * two_to(i) <= two_to(k),
        two_to(i) >= 1,
    decreases k,
{
    if i < k {
        lemma_two_to_bound(i, (k - 1) as nat);
    } else if i > 0 {
        lemma_two_to_bound((i - 1) as nat, (k - 1) as nat);
    }
}

/// The number of zero bits that the exponential-Golomb code of `n` begins with: the largest
/// `k` for which `2^k <= n + 1`.
pub open spec fn ue_prefix_len(n: nat) -> nat
    decreases n,
{
    if n == 0 {
        0
    } else {
        1 + ue_prefix_len(((n - 1) / 2) as nat)
    }
}

/// The `k` low bits of `v`, the most significant of them first.
pub open spec fn value_bits(v: nat, k: nat) -> Seq<bool>
    decreases k,
{
    if k == 0 {
        Seq::empty()
    } else {
        value_bits(v / 2, (k - 1) as nat).push(v % 2 == 1)
    }
}

/// The unsigned exponential-Golomb code of `n`: `k` zero bits, a one bit, and the `k` low
/// bits of `n + 1 - 2^k`, where `k` is [`ue_prefix_len`] of `n`.
pub open spec fn ue_encode(n: nat) -> Seq<bool> {
    let k = ue_prefix_len(n);
    Seq::new(k, |i: int| false).push(true) + value_bits((n + 1 - two_to(k)) as nat, k)
}

/// The number of zero bits that a code begins with is the binary logarithm of the number
/// after the encoded one, rounded down.
pub proof fn lemma_ue_prefix_len(n: nat)
    ensures
        two_to(ue_prefix_len(n)) <= n + 1 < 2 * two_to(ue_prefix_len(n)),
    decreases n,
{
    if n > 0 {
        lemma_ue_prefix_len(((n - 1) / 2) as nat);
    }
}

/// `value_bits` has as many bits as it is asked for.
pub proof fn lemma_value_bits_len(v: nat, k: nat)
    ensures
        value_bits(v, k).len() == k,
    decreases k,
{
    if k > 0 {
        lemma_value_bits_len(v / 2, (k - 1) as nat);
    }
}

/// The bits of a number denote that number.
pub proof fn lemma_bits_value(before: Seq<bool>, v: nat, k: nat, after: Seq<bool>)
    requires
        v < two_to(k),
    ensures
        bits_value(before + value_bits(v, k) + after, before.len(), k) == v,
    decreases k,
{
    if k > 0 {
        let last = seq![v % 2 == 1];
        let all = before + value_bits(v, k) + after;
        lemma_value_bits_len(v / 2, (k - 1) as nat);
        lemma_bits_value(before, v / 2, (k - 1) as nat, last + after);
        assert(all =~= before + value_bits(v / 2, (k - 1) as nat) + (last + after));
        assert(all[before.len() + k - 1] == (v % 2 == 1));
    }
}

/// Zero bits up to a one bit are counted as they are.
pub proof fn lemma_leading_zeros(bits: Seq<bool>, pos: nat, k: nat)
    requires
        pos + k < bits.len(),
        forall|i: int| pos <= i < pos + k ==> !bits[i],
        bits[(pos + k) as int],
    ensures
        leading_zeros(bits, pos) == k,
    decreases k,
{
    if k > 0 {
        lemma_leading_zeros(bits, pos + 1, (k - 1) as nat);
    }
}

/// Decoding the code of a number gives that number back, whatever follows the code, and
/// leads behind the code.
pub proof fn lemma_ue_round_trip(n: nat, rest: Seq<bool>)
    requires
        n < u64::MAX,
    ensures
        ue_decode(ue_encode(n) + rest, 0) == Ok::<(nat, nat), ErrorKind>(
            (n, ue_encode(n).len()),
        ),
        ue_encode(n).len() == 2 * ue_prefix_len(n) + 1,
{
    reveal(ue_decode);
    let k = ue_prefix_len(n);
    let v = (n + 1 - two_to(k)) as nat;
    let head = Seq::new(k, |i: int| false).push(true);
    let all = ue_encode(n) + rest;
    lemma_ue_prefix_len(n);
    lemma_value_bits_len(v, k);
    if k > 63 {
        lemma_two_to_bound(64, k);
        lemma_two_to_63();
        assert(two_to(64) == 2 * two_to(63));
        assert(false);
    }
    assert(all =~= head + value_bits(v, k) + rest);
    lemma_leading_zeros(all, 0, k);
    lemma_bits_value(head, v, k, rest);
}

} // verus!
