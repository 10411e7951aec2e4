//! Numbers on the wire: single bytes and big-endian integers of two, four
//! and eight bytes, written and read with the `byte_order` crate.

use byte_order::{ByteOrder, NumberReader, NumberWriter};
use vstd::prelude::*;

verus! {

/// The byte that stands for `n`.
pub open spec fn be_u8(n: u8) -> Seq<u8> {
    seq![n]
}

/// The number that one byte stands for.
pub open spec fn u8_of_be(bytes: Seq<u8>) -> u8
    recommends
        bytes.len() == 1,
{
    bytes[0]
}

/// The unsigned number with the same 8 bits as `n` (two's complement).
pub open spec fn unsigned8(n: i8) -> u8 {
    if n < 0 {
        (n + 0x100) as u8
    } else {
        n as u8
    }
}

/// The signed number with the same 8 bits as `n` (two's complement).
pub open spec fn signed8(n: u8) -> i8 {
    if n >= 0x80 {
        (n - 0x100) as i8
    } else {
        n as i8
    }
}

/// The bytes of `n`, most significant first, in two's complement.
pub open spec fn be_i8(n: i8) -> Seq<u8> {
    be_u8(unsigned8(n))
}

/// The signed number whose bytes, most significant first, are `bytes`.
pub open spec fn i8_of_be(bytes: Seq<u8>) -> i8
    recommends
        bytes.len() == 1,
{
    signed8(u8_of_be(bytes))
}

/// The two bytes of `n`, most significant first.
pub open spec fn be_u16(n: u16) -> Seq<u8> {
    seq![
        (n / 0x100) as u8,
        (n % 0x100) as u8,
    ]
}

/// The number whose two bytes, most significant first, are `bytes`.
pub open spec fn u16_of_be(bytes: Seq<u8>) -> u16
    recommends
        bytes.len() == 2,
{
    ((bytes[0] as nat) * 0x100
        + bytes[1] as nat) as u16
}

/// The unsigned number with the same 16 bits as `n` (two's complement).
pub open spec fn unsigned16(n: i16) -> u16 {
    if n < 0 {
        (n + 0x1_0000) as u16
    } else {
        n as u16
    }
}

/// The signed number with the same 16 bits as `n` (two's complement).
pub open spec fn signed16(n: u16) -> i16 {
    if n >= 0x8000 {
        (n - 0x1_0000) as i16
    } else {
        n as i16
    }
}

/// The bytes of `n`, most significant first, in two's complement.
pub open spec fn be_i16(n: i16) -> Seq<u8> {
    be_u16(unsigned16(n))
}

/// The signed number whose bytes, most significant first, are `bytes`.
pub open spec fn i16_of_be(bytes: Seq<u8>) -> i16
    recommends
        bytes.len() == 2,
{
    signed16(u16_of_be(bytes))
}

/// The four bytes of `n`, most significant first.
pub open spec fn be_u32(n: u32) -> Seq<u8> {
    seq![
        (n / 0x100_0000) as u8,
        (n / 0x1_0000 % 0x100) as u8,
        (n / 0x100 % 0x100) as u8,
        (n % 0x100) as u8,
    ]
}

/// The number whose four bytes, most significant first, are `bytes`.
pub open spec fn u32_of_be(bytes: Seq<u8>) -> u32
    recommends
        bytes.len() == 4,
{
    ((bytes[0] as nat) * 0x100_0000
        + (bytes[1] as nat) * 0x1_0000
        + (bytes[2] as nat) * 0x100
        + bytes[3] as nat) as u32
}

/// The unsigned number with the same 32 bits as `n` (two's complement).
pub open spec fn unsigned32(n: i32) -> u32 {
    if n < 0 {
        (n + 0x1_0000_0000) as u32
    } else {
        n as u32
    }
}

/// The signed number with the same 32 bits as `n` (two's complement).
pub open spec fn signed32(n: u32) -> i32 {
    if n >= 0x8000_0000 {
        (n - 0x1_0000_0000) as i32
    } else {
        n as i32
    }
}

/// The bytes of `n`, most significant first, in two's complement.
pub open spec fn be_i32(n: i32) -> Seq<u8> {
    be_u32(unsigned32(n))
}

/// The signed number whose bytes, most significant first, are `bytes`.
pub open spec fn i32_of_be(bytes: Seq<u8>) -> i32
    recommends
        bytes.len() == 4,
{
    signed32(u32_of_be(bytes))
}

/// The eight bytes of `n`, most significant first.
pub open spec fn be_u64(n: u64) -> Seq<u8> {
    seq![
        (n / 0x100_0000_0000_0000) as u8,
        (n / 0x1_0000_0000_0000 % 0x100) as u8,
        (n / 0x100_0000_0000 % 0x100) as u8,
        (n / 0x1_0000_0000 % 0x100) as u8,
        (n / 0x100_0000 % 0x100) as u8,
        (n / 0x1_0000 % 0x100) as u8,
        (n / 0x100 % 0x100) as u8,
        (n % 0x100) as u8,
    ]
}

/// The number whose eight bytes, most significant first, are `bytes`.
pub open spec fn u64_of_be(bytes: Seq<u8>) -> u64
    recommends
        bytes.len() == 8,
{
    ((bytes[0] as nat) * 0x100_0000_0000_0000
        + (bytes[1] as nat) * 0x1_0000_0000_0000
        + (bytes[2] as nat) * 0x100_0000_0000
        + (bytes[3] as nat) * 0x1_0000_0000
        + (bytes[4] as nat) * 0x100_0000
        + (bytes[5] as nat) * 0x1_0000
        + (bytes[6] as nat) * 0x100
        + bytes[7] as nat) as u64
}

/// The unsigned number with the same 64 bits as `n` (two's complement).
pub open spec fn unsigned64(n: i64) -> u64 {
    if n < 0 {
        (n + 0x1_0000_0000_0000_0000) as u64
    } else {
        n as u64
    }
}

/// The signed number with the same 64 bits as `n` (two's complement).
pub open spec fn signed64(n: u64) -> i64 {
    if n >= 0x8000_0000_0000_0000 {
        (n - 0x1_0000_0000_0000_0000) as i64
    } else {
        n as i64
    }
}

/// The bytes of `n`, most significant first, in two's complement.
pub open spec fn be_i64(n: i64) -> Seq<u8> {
    be_u64(unsigned64(n))
}

/// The signed number whose bytes, most significant first, are `bytes`.
pub open spec fn i64_of_be(bytes: Seq<u8>) -> i64
    recommends
        bytes.len() == 8,
{
    signed64(u64_of_be(bytes))
}

/// `NumberWriter::write_u8` of `byte_order`, in big-endian order on a
/// `Vec<u8>`: appends one byte, as it is. A write into a
/// `Vec<u8>` grows the vector and does not fail.
#[verifier::external_body]
pub(crate) fn write_u8(out: &mut Vec<u8>, n: u8)
    ensures
        final(out)@ == old(out)@ + be_u8(n),
{
    let mut writer = NumberWriter::with_order(ByteOrder::BE, out);
    writer.write_u8(n).expect("a Vec<u8> takes every write");
}

/// `NumberReader::read_u8` of `byte_order`, in big-endian order on the
/// bytes from `at` on: the number that the next byte stands for. With
/// fewer bytes left the call fails, so that the callers test the length
/// before they call.
#[verifier::external_body]
pub(crate) fn read_u8(bytes: &[u8], at: usize) -> (n: u8)
    requires
        at + 1 <= bytes@.len(),
    ensures
        n == u8_of_be(bytes@.subrange(at as int, at + 1)),
{
    let mut reader = NumberReader::with_order(ByteOrder::BE, &bytes[at..]);
    reader.read_u8().expect("the bytes are there")
}

/// `NumberWriter::write_i8` of `byte_order`, in big-endian order on a
/// `Vec<u8>`: appends one byte, the two's complement of the number. A write into a
/// `Vec<u8>` grows the vector and does not fail.
#[verifier::external_body]
pub(crate) fn write_i8(out: &mut Vec<u8>, n: i8)
    ensures
        final(out)@ == old(out)@ + be_i8(n),
{
    let mut writer = NumberWriter::with_order(ByteOrder::BE, out);
    writer.write_i8(n).expect("a Vec<u8> takes every write");
}

/// `NumberReader::read_i8` of `byte_order`, in big-endian order on the
/// bytes from `at` on: the number that the next byte stands for. With
/// fewer bytes left the call fails, so that the callers test the length
/// before they call.
#[verifier::external_body]
pub(crate) fn read_i8(bytes: &[u8], at: usize) -> (n: i8)
    requires
        at + 1 <= bytes@.len(),
    ensures
        n == i8_of_be(bytes@.subrange(at as int, at + 1)),
{
    let mut reader = NumberReader::with_order(ByteOrder::BE, &bytes[at..]);
    reader.read_i8().expect("the bytes are there")
}

/// `NumberWriter::write_u16` of `byte_order`, in big-endian order on a
/// `Vec<u8>`: appends two bytes, most significant first. A write into a
/// `Vec<u8>` grows the vector and does not fail.
#[verifier::external_body]
pub(crate) fn write_u16(out: &mut Vec<u8>, n: u16)
    ensures
        final(out)@ == old(out)@ + be_u16(n),
{
    let mut writer = NumberWriter::with_order(ByteOrder::BE, out);
    writer.write_u16(n).expect("a Vec<u8> takes every write");
}

/// `NumberReader::read_u16` of `byte_order`, in big-endian order on the
/// bytes from `at` on: the number that the next two bytes stand for. With
/// fewer bytes left the call fails, so that the callers test the length
/// before they call.
#[verifier::external_body]
pub(crate) fn read_u16(bytes: &[u8], at: usize) -> (n: u16)
    requires
        at + 2 <= bytes@.len(),
    ensures
        n == u16_of_be(bytes@.subrange(at as int, at + 2)),
{
    let mut reader = NumberReader::with_order(ByteOrder::BE, &bytes[at..]);
    reader.read_u16().expect("the bytes are there")
}

/// `NumberWriter::write_i16` of `byte_order`, in big-endian order on a
/// `Vec<u8>`: appends two bytes of the two's complement, most significant first. A write into a
/// `Vec<u8>` grows the vector and does not fail.
#[verifier::external_body]
pub(crate) fn write_i16(out: &mut Vec<u8>, n: i16)
    ensures
        final(out)@ == old(out)@ + be_i16(n),
{
    let mut writer = NumberWriter::with_order(ByteOrder::BE, out);
    writer.write_i16(n).expect("a Vec<u8> takes every write");
}

/// `NumberReader::read_i16` of `byte_order`, in big-endian order on the
/// bytes from `at` on: the number that the next two bytes stand for. With
/// fewer bytes left the call fails, so that the callers test the length
/// before they call.
#[verifier::external_body]
pub(crate) fn read_i16(bytes: &[u8], at: usize) -> (n: i16)
    requires
        at + 2 <= bytes@.len(),
    ensures
        n == i16_of_be(bytes@.subrange(at as int, at + 2)),
{
    let mut reader = NumberReader::with_order(ByteOrder::BE, &bytes[at..]);
    reader.read_i16().expect("the bytes are there")
}

/// `NumberWriter::write_u32` of `byte_order`, in big-endian order on a
/// `Vec<u8>`: appends four bytes, most significant first. A write into a
/// `Vec<u8>` grows the vector and does not fail.
#[verifier::external_body]
pub(crate) fn write_u32(out: &mut Vec<u8>, n: u32)
    ensures
        final(out)@ == old(out)@ + be_u32(n),
{
    let mut writer = NumberWriter::with_order(ByteOrder::BE, out);
    writer.write_u32(n).expect("a Vec<u8> takes every write");
}

/// `NumberReader::read_u32` of `byte_order`, in big-endian order on the
/// bytes from `at` on: the number that the next four bytes stand for. With
/// fewer bytes left the call fails, so that the callers test the length
/// before they call.
#[verifier::external_body]
pub(crate) fn read_u32(bytes: &[u8], at: usize) -> (n: u32)
    requires
        at + 4 <= bytes@.len(),
    ensures
        n == u32_of_be(bytes@.subrange(at as int, at + 4)),
{
    let mut reader = NumberReader::with_order(ByteOrder::BE, &bytes[at..]);
    reader.read_u32().expect("the bytes are there")
}

/// `NumberWriter::write_i32` of `byte_order`, in big-endian order on a
/// `Vec<u8>`: appends four bytes of the two's complement, most significant first. A write into a
/// `Vec<u8>` grows the vector and does not fail.
#[verifier::external_body]
pub(crate) fn write_i32(out: &mut Vec<u8>, n: i32)
    ensures
        final(out)@ == old(out)@ + be_i32(n),
{
    let mut writer = NumberWriter::with_order(ByteOrder::BE, out);
    writer.write_i32(n).expect("a Vec<u8> takes every write");
}

/// `NumberReader::read_i32` of `byte_order`, in big-endian order on the
/// bytes from `at` on: the number that the next four bytes stand for. With
/// fewer bytes left the call fails, so that the callers test the length
/// before they call.
#[verifier::external_body]
pub(crate) fn read_i32(bytes: &[u8], at: usize) -> (n: i32)
    requires
        at + 4 <= bytes@.len(),
    ensures
        n == i32_of_be(bytes@.subrange(at as int, at + 4)),
{
    let mut reader = NumberReader::with_order(ByteOrder::BE, &bytes[at..]);
    reader.read_i32().expect("the bytes are there")
}

/// `NumberWriter::write_u64` of `byte_order`, in big-endian order on a
/// `Vec<u8>`: appends eight bytes, most significant first. A write into a
/// `Vec<u8>` grows the vector and does not fail.
#[verifier::external_body]
pub(crate) fn write_u64(out: &mut Vec<u8>, n: u64)
    ensures
        final(out)@ == old(out)@ + be_u64(n),
{
    let mut writer = NumberWriter::with_order(ByteOrder::BE, out);
    writer.write_u64(n).expect("a Vec<u8> takes every write");
}

/// `NumberReader::read_u64` of `byte_order`, in big-endian order on the
/// bytes from `at` on: the number that the next eight bytes stand for. With
/// fewer bytes left the call fails, so that the callers test the length
/// before they call.
#[verifier::external_body]
pub(crate) fn read_u64(bytes: &[u8], at: usize) -> (n: u64)
    requires
        at + 8 <= bytes@.len(),
    ensures
        n == u64_of_be(bytes@.subrange(at as int, at + 8)),
{
    let mut reader = NumberReader::with_order(ByteOrder::BE, &bytes[at..]);
    reader.read_u64().expect("the bytes are there")
}

/// `NumberWriter::write_i64` of `byte_order`, in big-endian order on a
/// `Vec<u8>`: appends eight bytes of the two's complement, most significant first. A write into a
/// `Vec<u8>` grows the vector and does not fail.
#[verifier::external_body]
pub(crate) fn write_i64(out: &mut Vec<u8>, n: i64)
    ensures
        final(out)@ == old(out)@ + be_i64(n),
{
    let mut writer = NumberWriter::with_order(ByteOrder::BE, out);
    writer.write_i64(n).expect("a Vec<u8> takes every write");
}

/// `NumberReader::read_i64` of `byte_order`, in big-endian order on the
/// bytes from `at` on: the number that the next eight bytes stand for. With
/// fewer bytes left the call fails, so that the callers test the length
/// before they call.
#[verifier::external_body]
pub(crate) fn read_i64(bytes: &[u8], at: usize) -> (n: i64)
    requires
        at + 8 <= bytes@.len(),
    ensures
        n == i64_of_be(bytes@.subrange(at as int, at + 8)),
{
    let mut reader = NumberReader::with_order(ByteOrder::BE, &bytes[at..]);
    reader.read_i64().expect("the bytes are there")
}

/// Appends `bytes` to `out`.
pub(crate) fn append_bytes(out: &mut Vec<u8>, bytes: &[u8])
    ensures
        final(out)@ == old(out)@ + bytes@,
{
    let mut i: usize = 0;
    while i < bytes.len()
        invariant
            i <= bytes@.len(),
            out@ == old(out)@ + bytes@.subrange(0, i as int),
        decreases bytes@.len() - i,
    {
        out.push(bytes[i]);
        i += 1;
        assert(out@ =~= old(out)@ + bytes@.subrange(0, i as int));
    }
    assert(bytes@.subrange(0, i as int) =~= bytes@);
}

/// The bytes of `bytes` from `from` up to `to`, as a vector of their own.
pub(crate) fn copy_range(bytes: &[u8], from: usize, to: usize) -> (out: Vec<u8>)
    requires
        from <= to <= bytes@.len(),
    ensures
        out@ == bytes@.subrange(from as int, to as int),
{
    let mut out: Vec<u8> = Vec::new();
    let mut i: usize = from;
    while i < to
        invariant
            from <= i <= to <= bytes@.len(),
            out@ == bytes@.subrange(from as int, i as int),
        decreases to - i,
    {
        out.push(bytes[i]);
        i += 1;
        assert(out@ =~= bytes@.subrange(from as int, i as int));
    }
    out
}

/// Reading back what was written gives the number, for `u8` and `i8`.
pub proof fn lemma_u8_written_then_read(n: u8, m: i8)
    ensures
        be_u8(n).len() == 1,
        be_i8(m).len() == 1,
        u8_of_be(be_u8(n)) == n,
        i8_of_be(be_i8(m)) == m,
{
}

/// Writing out what was read gives the bytes, for `u8` and `i8`.
pub proof fn lemma_u8_read_then_written(bytes: Seq<u8>)
    requires
        bytes.len() == 1,
    ensures
        be_u8(u8_of_be(bytes)) == bytes,
        be_i8(i8_of_be(bytes)) == bytes,
{
    assert(be_u8(u8_of_be(bytes)) =~= bytes);
    assert(be_i8(i8_of_be(bytes)) =~= bytes);
}

/// The two base-256 digits of a `u16` make up the number.
proof fn lemma_u16_digits(n: u16)
    ensures
        n / 0x100 < 0x100 && n % 0x100 < 0x100,
        n == (n / 0x100) * 0x100 + (n % 0x100),
{
    assert(n / 0x100 < 0x100 && n % 0x100 < 0x100) by (bit_vector);
    assert(n == (n / 0x100) * 0x100 + (n % 0x100)) by (bit_vector);
}

/// Two base-256 digits are the digits of the number they make up.
proof fn lemma_u16_of_digits(a0: u16, a1: u16)
    requires
        a0 < 0x100,
            a1 < 0x100,
    ensures
        a0 * 0x100 + a1 <= u16::MAX,
        ((a0 * 0x100 + a1) / 0x100) == a0 && ((a0 * 0x100 + a1) % 0x100) == a1,
{
    assert(a0 * 0x100 + a1 <= 0xFFFF) by (bit_vector)
        requires
            a0 < 0x100,
            a1 < 0x100,
    ;
    assert(((a0 * 0x100 + a1) / 0x100) == a0 && ((a0 * 0x100 + a1) % 0x100) == a1) by (bit_vector)
        requires
            a0 < 0x100,
            a1 < 0x100,
    ;
}

/// Reading back what was written gives the number, for `u16` and `i16`.
pub proof fn lemma_u16_written_then_read(n: u16, m: i16)
    ensures
        be_u16(n).len() == 2,
        be_i16(m).len() == 2,
        u16_of_be(be_u16(n)) == n,
        i16_of_be(be_i16(m)) == m,
{
    lemma_u16_digits(n);
    lemma_u16_digits(unsigned16(m));
}

/// Writing out what was read gives the bytes, for `u16` and `i16`.
pub proof fn lemma_u16_read_then_written(bytes: Seq<u8>)
    requires
        bytes.len() == 2,
    ensures
        be_u16(u16_of_be(bytes)) == bytes,
        be_i16(i16_of_be(bytes)) == bytes,
{
    let a0: u16 = bytes[0] as u16;
    let a1: u16 = bytes[1] as u16;
    lemma_u16_of_digits(a0, a1);
    assert(be_u16(u16_of_be(bytes)) =~= bytes);
    assert(be_i16(i16_of_be(bytes)) =~= bytes);
}

/// The four base-256 digits of a `u32` make up the number.
proof fn lemma_u32_digits(n: u32)
    ensures
        n / 0x100_0000 < 0x100 && n / 0x1_0000 % 0x100 < 0x100 && n / 0x100 % 0x100 < 0x100 && n % 0x100 < 0x100,
        n == (n / 0x100_0000) * 0x100_0000 + (n / 0x1_0000 % 0x100) * 0x1_0000 + (n / 0x100 % 0x100) * 0x100 + (n % 0x100),
{
    assert(n / 0x100_0000 < 0x100 && n / 0x1_0000 % 0x100 < 0x100 && n / 0x100 % 0x100 < 0x100 && n % 0x100 < 0x100) by (bit_vector);
    assert(n == (n / 0x100_0000) * 0x100_0000 + (n / 0x1_0000 % 0x100) * 0x1_0000 + (n / 0x100 % 0x100) * 0x100 + (n % 0x100)) by (bit_vector);
}

/// Four base-256 digits are the digits of the number they make up.
proof fn lemma_u32_of_digits(a0: u32, a1: u32, a2: u32, a3: u32)
    requires
        a0 < 0x100,
            a1 < 0x100,
            a2 < 0x100,
            a3 < 0x100,
    ensures
        a0 * 0x100_0000 + a1 * 0x1_0000 + a2 * 0x100 + a3 <= u32::MAX,
        ((a0 * 0x100_0000 + a1 * 0x1_0000 + a2 * 0x100 + a3) / 0x100_0000) == a0 && ((a0 * 0x100_0000 + a1 * 0x1_0000 + a2 * 0x100 + a3) / 0x1_0000 % 0x100) == a1 && ((a0 * 0x100_0000 + a1 * 0x1_0000 + a2 * 0x100 + a3) / 0x100 % 0x100) == a2 && ((a0 * 0x100_0000 + a1 * 0x1_0000 + a2 * 0x100 + a3) % 0x100) == a3,
{
    assert(a0 * 0x100_0000 + a1 * 0x1_0000 + a2 * 0x100 + a3 <= 0xFFFF_FFFF) by (bit_vector)
        requires
            a0 < 0x100,
            a1 < 0x100,
            a2 < 0x100,
            a3 < 0x100,
    ;
    assert(((a0 * 0x100_0000 + a1 * 0x1_0000 + a2 * 0x100 + a3) / 0x100_0000) == a0 && ((a0 * 0x100_0000 + a1 * 0x1_0000 + a2 * 0x100 + a3) / 0x1_0000 % 0x100) == a1 && ((a0 * 0x100_0000 + a1 * 0x1_0000 + a2 * 0x100 + a3) / 0x100 % 0x100) == a2 && ((a0 * 0x100_0000 + a1 * 0x1_0000 + a2 * 0x100 + a3) % 0x100) == a3) by (bit_vector)
        requires
            a0 < 0x100,
            a1 < 0x100,
            a2 < 0x100,
            a3 < 0x100,
    ;
}

/// Reading back what was written gives the number, for `u32` and `i32`.
pub proof fn lemma_u32_written_then_read(n: u32, m: i32)
    ensures
        be_u32(n).len() == 4,
        be_i32(m).len() == 4,
        u32_of_be(be_u32(n)) == n,
        i32_of_be(be_i32(m)) == m,
{
    lemma_u32_digits(n);
    lemma_u32_digits(unsigned32(m));
}

/// Writing out what was read gives the bytes, for `u32` and `i32`.
pub proof fn lemma_u32_read_then_written(bytes: Seq<u8>)
    requires
        bytes.len() == 4,
    ensures
        be_u32(u32_of_be(bytes)) == bytes,
        be_i32(i32_of_be(bytes)) == bytes,
{
    let a0: u32 = bytes[0] as u32;
    let a1: u32 = bytes[1] as u32;
    let a2: u32 = bytes[2] as u32;
    let a3: u32 = bytes[3] as u32;
    lemma_u32_of_digits(a0, a1, a2, a3);
    assert(be_u32(u32_of_be(bytes)) =~= bytes);
    assert(be_i32(i32_of_be(bytes)) =~= bytes);
}

/// The eight base-256 digits of a `u64` make up the number.
proof fn lemma_u64_digits(n: u64)
    ensures
        n / 0x100_0000_0000_0000 < 0x100 && n / 0x1_0000_0000_0000 % 0x100 < 0x100 && n / 0x100_0000_0000 % 0x100 < 0x100 && n / 0x1_0000_0000 % 0x100 < 0x100 && n / 0x100_0000 % 0x100 < 0x100 && n / 0x1_0000 % 0x100 < 0x100 && n / 0x100 % 0x100 < 0x100 && n % 0x100 < 0x100,
        n == (n / 0x100_0000_0000_0000) * 0x100_0000_0000_0000 + (n / 0x1_0000_0000_0000 % 0x100) * 0x1_0000_0000_0000 + (n / 0x100_0000_0000 % 0x100) * 0x100_0000_0000 + (n / 0x1_0000_0000 % 0x100) * 0x1_0000_0000 + (n / 0x100_0000 % 0x100) * 0x100_0000 + (n / 0x1_0000 % 0x100) * 0x1_0000 + (n / 0x100 % 0x100) * 0x100 + (n % 0x100),
{
    assert(n / 0x100_0000_0000_0000 < 0x100 && n / 0x1_0000_0000_0000 % 0x100 < 0x100 && n / 0x100_0000_0000 % 0x100 < 0x100 && n / 0x1_0000_0000 % 0x100 < 0x100 && n / 0x100_0000 % 0x100 < 0x100 && n / 0x1_0000 % 0x100 < 0x100 && n / 0x100 % 0x100 < 0x100 && n % 0x100 < 0x100) by (bit_vector);
    assert(n == (n / 0x100_0000_0000_0000) * 0x100_0000_0000_0000 + (n / 0x1_0000_0000_0000 % 0x100) * 0x1_0000_0000_0000 + (n / 0x100_0000_0000 % 0x100) * 0x100_0000_0000 + (n / 0x1_0000_0000 % 0x100) * 0x1_0000_0000 + (n / 0x100_0000 % 0x100) * 0x100_0000 + (n / 0x1_0000 % 0x100) * 0x1_0000 + (n / 0x100 % 0x100) * 0x100 + (n % 0x100)) by (bit_vector);
}

/// Eight base-256 digits are the digits of the number they make up.
proof fn lemma_u64_of_digits(a0: u64, a1: u64, a2: u64, a3: u64, a4: u64, a5: u64, a6: u64, a7: u64)
    requires
        a0 < 0x100,
            a1 < 0x100,
            a2 < 0x100,
            a3 < 0x100,
            a4 < 0x100,
            a5 < 0x100,
            a6 < 0x100,
            a7 < 0x100,
    ensures
        a0 * 0x100_0000_0000_0000 + a1 * 0x1_0000_0000_0000 + a2 * 0x100_0000_0000 + a3 * 0x1_0000_0000 + a4 * 0x100_0000 + a5 * 0x1_0000 + a6 * 0x100 + a7 <= u64::MAX,
        ((a0 * 0x100_0000_0000_0000 + a1 * 0x1_0000_0000_0000 + a2 * 0x100_0000_0000 + a3 * 0x1_0000_0000 + a4 * 0x100_0000 + a5 * 0x1_0000 + a6 * 0x100 + a7) / 0x100_0000_0000_0000) == a0 && ((a0 * 0x100_0000_0000_0000 + a1 * 0x1_0000_0000_0000 + a2 * 0x100_0000_0000 + a3 * 0x1_0000_0000 + a4 * 0x100_0000 + a5 * 0x1_0000 + a6 * 0x100 + a7) / 0x1_0000_0000_0000 % 0x100) == a1 && ((a0 * 0x100_0000_0000_0000 + a1 * 0x1_0000_0000_0000 + a2 * 0x100_0000_0000 + a3 * 0x1_0000_0000 + a4 * 0x100_0000 + a5 * 0x1_0000 + a6 * 0x100 + a7) / 0x100_0000_0000 % 0x100) == a2 && ((a0 * 0x100_0000_0000_0000 + a1 * 0x1_0000_0000_0000 + a2 * 0x100_0000_0000 + a3 * 0x1_0000_0000 + a4 * 0x100_0000 + a5 * 0x1_0000 + a6 * 0x100 + a7) / 0x1_0000_0000 % 0x100) == a3 && ((a0 * 0x100_0000_0000_0000 + a1 * 0x1_0000_0000_0000 + a2 * 0x100_0000_0000 + a3 * 0x1_0000_0000 + a4 * 0x100_0000 + a5 * 0x1_0000 + a6 * 0x100 + a7) / 0x100_0000 % 0x100) == a4 && ((a0 * 0x100_0000_0000_0000 + a1 * 0x1_0000_0000_0000 + a2 * 0x100_0000_0000 + a3 * 0x1_0000_0000 + a4 * 0x100_0000 + a5 * 0x1_0000 + a6 * 0x100 + a7) / 0x1_0000 % 0x100) == a5 && ((a0 * 0x100_0000_0000_0000 + a1 * 0x1_0000_0000_0000 + a2 * 0x100_0000_0000 + a3 * 0x1_0000_0000 + a4 * 0x100_0000 + a5 * 0x1_0000 + a6 * 0x100 + a7) / 0x100 % 0x100) == a6 && ((a0 * 0x100_0000_0000_0000 + a1 * 0x1_0000_0000_0000 + a2 * 0x100_0000_0000 + a3 * 0x1_0000_0000 + a4 * 0x100_0000 + a5 * 0x1_0000 + a6 * 0x100 + a7) % 0x100) == a7,
{
    assert(a0 * 0x100_0000_0000_0000 + a1 * 0x1_0000_0000_0000 + a2 * 0x100_0000_0000 + a3 * 0x1_0000_0000 + a4 * 0x100_0000 + a5 * 0x1_0000 + a6 * 0x100 + a7 <= 0xFFFF_FFFF_FFFF_FFFF) by (bit_vector)
        requires
            a0 < 0x100,
            a1 < 0x100,
            a2 < 0x100,
            a3 < 0x100,
            a4 < 0x100,
            a5 < 0x100,
            a6 < 0x100,
            a7 < 0x100,
    ;
    assert(((a0 * 0x100_0000_0000_0000 + a1 * 0x1_0000_0000_0000 + a2 * 0x100_0000_0000 + a3 * 0x1_0000_0000 + a4 * 0x100_0000 + a5 * 0x1_0000 + a6 * 0x100 + a7) / 0x100_0000_0000_0000) == a0 && ((a0 * 0x100_0000_0000_0000 + a1 * 0x1_0000_0000_0000 + a2 * 0x100_0000_0000 + a3 * 0x1_0000_0000 + a4 * 0x100_0000 + a5 * 0x1_0000 + a6 * 0x100 + a7) / 0x1_0000_0000_0000 % 0x100) == a1 && ((a0 * 0x100_0000_0000_0000 + a1 * 0x1_0000_0000_0000 + a2 * 0x100_0000_0000 + a3 * 0x1_0000_0000 + a4 * 0x100_0000 + a5 * 0x1_0000 + a6 * 0x100 + a7) / 0x100_0000_0000 % 0x100) == a2 && ((a0 * 0x100_0000_0000_0000 + a1 * 0x1_0000_0000_0000 + a2 * 0x100_0000_0000 + a3 * 0x1_0000_0000 + a4 * 0x100_0000 + a5 * 0x1_0000 + a6 * 0x100 + a7) / 0x1_0000_0000 % 0x100) == a3 && ((a0 * 0x100_0000_0000_0000 + a1 * 0x1_0000_0000_0000 + a2 * 0x100_0000_0000 + a3 * 0x1_0000_0000 + a4 * 0x100_0000 + a5 * 0x1_0000 + a6 * 0x100 + a7) / 0x100_0000 % 0x100) == a4 && ((a0 * 0x100_0000_0000_0000 + a1 * 0x1_0000_0000_0000 + a2 * 0x100_0000_0000 + a3 * 0x1_0000_0000 + a4 * 0x100_0000 + a5 * 0x1_0000 + a6 * 0x100 + a7) / 0x1_0000 % 0x100) == a5 && ((a0 * 0x100_0000_0000_0000 + a1 * 0x1_0000_0000_0000 + a2 * 0x100_0000_0000 + a3 * 0x1_0000_0000 + a4 * 0x100_0000 + a5 * 0x1_0000 + a6 * 0x100 + a7) / 0x100 % 0x100) == a6 && ((a0 * 0x100_0000_0000_0000 + a1 * 0x1_0000_0000_0000 + a2 * 0x100_0000_0000 + a3 * 0x1_0000_0000 + a4 * 0x100_0000 + a5 * 0x1_0000 + a6 * 0x100 + a7) % 0x100) == a7) by (bit_vector)
        requires
            a0 < 0x100,
            a1 < 0x100,
            a2 < 0x100,
            a3 < 0x100,
            a4 < 0x100,
            a5 < 0x100,
            a6 < 0x100,
            a7 < 0x100,
    ;
}

/// Reading back what was written gives the number, for `u64` and `i64`.
pub proof fn lemma_u64_written_then_read(n: u64, m: i64)
    ensures
        be_u64(n).len() == 8,
        be_i64(m).len() == 8,
        u64_of_be(be_u64(n)) == n,
        i64_of_be(be_i64(m)) == m,
{
    lemma_u64_digits(n);
    lemma_u64_digits(unsigned64(m));
}

/// Writing out what was read gives the bytes, for `u64` and `i64`.
pub proof fn lemma_u64_read_then_written(bytes: Seq<u8>)
    requires
        bytes.len() == 8,
    ensures
        be_u64(u64_of_be(bytes)) == bytes,
        be_i64(i64_of_be(bytes)) == bytes,
{
    let a0: u64 = bytes[0] as u64;
    let a1: u64 = bytes[1] as u64;
    let a2: u64 = bytes[2] as u64;
    let a3: u64 = bytes[3] as u64;
    let a4: u64 = bytes[4] as u64;
    let a5: u64 = bytes[5] as u64;
    let a6: u64 = bytes[6] as u64;
    let a7: u64 = bytes[7] as u64;
    lemma_u64_of_digits(a0, a1, a2, a3, a4, a5, a6, a7);
    assert(be_u64(u64_of_be(bytes)) =~= bytes);
    assert(be_i64(i64_of_be(bytes)) =~= bytes);
}

} // verus!
