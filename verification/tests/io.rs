use mse_fmp4::error::ErrorKind;
use mse_fmp4::io::{
    write_all, write_i16, write_i32, write_u16, write_u24, write_u32, write_u64, write_u8,
    write_zeroes, AvcBitReader, ByteCounter, ByteSink,
};

/// Appends the unsigned exponential-Golomb code of `n` to `bits`.
fn push_ue(bits: &mut Vec<bool>, n: u64) {
    let value = n + 1;
    let len = 64 - value.leading_zeros() as usize;
    for _ in 0..len - 1 {
        bits.push(false);
    }
    for i in (0..len).rev() {
        bits.push((value >> i) & 1 == 1);
    }
}

/// Packs bits into bytes, the most significant bit of each byte first, and fills the last
/// byte with zero bits.
fn pack(bits: &[bool]) -> Vec<u8> {
    let mut bytes = vec![0u8; (bits.len() + 7) / 8];
    for (i, bit) in bits.iter().enumerate() {
        if *bit {
            bytes[i / 8] |= 0x80 >> (i % 8);
        }
    }
    bytes
}

#[test]
fn write_u8_appends_one_byte() {
    let mut out = vec![0xAA];
    write_u8(&mut out, 0x12);
    assert_eq!(out, vec![0xAA, 0x12]);
}

#[test]
fn write_u16_is_big_endian() {
    let mut out = Vec::new();
    write_u16(&mut out, 0x1234);
    assert_eq!(out, vec![0x12, 0x34]);
}

#[test]
fn write_i16_is_twos_complement() {
    let mut out = Vec::new();
    write_i16(&mut out, -2);
    write_i16(&mut out, 256);
    assert_eq!(out, vec![0xFF, 0xFE, 0x01, 0x00]);
}

#[test]
fn write_u24_is_big_endian() {
    let mut out = Vec::new();
    write_u24(&mut out, 0x12_3456);
    assert_eq!(out, vec![0x12, 0x34, 0x56]);
}

#[test]
fn write_u32_is_big_endian() {
    let mut out = Vec::new();
    write_u32(&mut out, 0x1234_5678);
    assert_eq!(out, vec![0x12, 0x34, 0x56, 0x78]);
}

#[test]
fn write_i32_is_twos_complement() {
    let mut out = Vec::new();
    write_i32(&mut out, -1501);
    write_i32(&mut out, 0x4000_0000);
    assert_eq!(out, vec![0xFF, 0xFF, 0xFA, 0x23, 0x40, 0x00, 0x00, 0x00]);
}

#[test]
fn write_u64_is_big_endian() {
    let mut out = Vec::new();
    write_u64(&mut out, 0x0102_0304_0506_0708);
    assert_eq!(out, vec![1, 2, 3, 4, 5, 6, 7, 8]);
}

#[test]
fn write_all_and_zeroes_append() {
    let mut out = vec![9];
    write_all(&mut out, &[1, 2, 3]);
    write_zeroes(&mut out, 4);
    write_zeroes(&mut out, 0);
    assert_eq!(out, vec![9, 1, 2, 3, 0, 0, 0, 0]);
}

#[test]
fn byte_counter_counts_what_it_is_given() {
    let mut counter = ByteCounter::with_sink();
    assert_eq!(counter.count(), 0);
    counter.put(&[1, 2, 3]);
    write_u32(&mut counter, 7);
    write_zeroes(&mut counter, 10);
    assert_eq!(counter.count(), 17);
    assert_eq!(ByteCounter::new().count(), 0);
}

#[test]
fn bit_reader_reads_most_significant_bit_first() {
    let bytes = [0b1010_0000, 0b0000_0001];
    let mut reader = AvcBitReader::new(&bytes);
    let mut bits = Vec::new();
    for _ in 0..16 {
        bits.push(reader.read_bit().unwrap());
    }
    assert_eq!(bits, vec![1, 0, 1, 0, 0, 0, 0, 0, 0, 0, 0, 0, 0, 0, 0, 1]);
    assert_eq!(reader.read_bit().unwrap_err().kind(), ErrorKind::Other);
}

#[test]
fn bit_reader_on_empty_stream_fails() {
    let mut reader = AvcBitReader::new(&[]);
    assert_eq!(reader.read_bit().unwrap_err().kind(), ErrorKind::Other);
    assert_eq!(reader.read_ue().unwrap_err().kind(), ErrorKind::Other);
}

#[test]
fn read_ue_decodes_the_first_codes() {
    // 1, 010, 011, 00100, 00101, 00110, 00111, 0001000
    let bits = "1010011001000010100110001110001000";
    let bits: Vec<bool> = bits.chars().map(|c| c == '1').collect();
    let bytes = pack(&bits);
    let mut reader = AvcBitReader::new(&bytes);
    for expected in 0..8 {
        assert_eq!(reader.read_ue().unwrap(), expected);
    }
}

#[test]
fn read_ue_round_trip() {
    let mut numbers: Vec<u64> = (0..5000).collect();
    let mut n: u64 = 5000;
    while n < (1 << 20) {
        numbers.push(n);
        n += 997;
    }
    numbers.push((1 << 20) - 1);
    numbers.push(u64::from(u32::MAX));
    numbers.push(u64::MAX - 1);
    let mut bits = Vec::new();
    for n in &numbers {
        push_ue(&mut bits, *n);
    }
    let bytes = pack(&bits);
    let mut reader = AvcBitReader::new(&bytes);
    for n in &numbers {
        assert_eq!(reader.read_ue().unwrap(), *n);
    }
}

#[test]
fn read_ue_stops_at_the_end_of_the_stream() {
    // 0001 100 0: the code of 11 and a zero bit
    let bytes = [0b0001_1000];
    let mut reader = AvcBitReader::new(&bytes);
    assert_eq!(reader.read_ue().unwrap(), 11);
    assert_eq!(reader.read_ue().unwrap_err().kind(), ErrorKind::Other);
    // 01 1 and then 000: the code of 2 and zero bits
    let mut reader = AvcBitReader::new(&bytes);
    reader.read_bit().unwrap();
    reader.read_bit().unwrap();
    assert_eq!(reader.read_ue().unwrap(), 2);
    assert_eq!(reader.read_ue().unwrap_err().kind(), ErrorKind::Other);
    // 0000 0001 and the end: the bits of the number are missing
    let mut reader = AvcBitReader::new(&[0b0000_0001]);
    assert_eq!(reader.read_ue().unwrap_err().kind(), ErrorKind::Other);
}

#[test]
fn read_ue_with_too_many_leading_zeros_is_invalid() {
    let mut bytes = vec![0u8; 8];
    bytes.push(0x80);
    bytes.extend_from_slice(&[0xFF; 8]);
    let mut reader = AvcBitReader::new(&bytes);
    assert_eq!(reader.read_ue().unwrap_err().kind(), ErrorKind::InvalidInput);
}

#[test]
fn read_ue_with_63_leading_zeros_is_read() {
    let mut bits = vec![false; 63];
    bits.push(true);
    bits.extend(vec![true; 63]);
    let bytes = pack(&bits);
    let mut reader = AvcBitReader::new(&bytes);
    assert_eq!(reader.read_ue().unwrap(), u64::MAX - 1);
}
