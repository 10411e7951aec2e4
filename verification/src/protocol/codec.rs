//! The fields of a packet and how each is written and read.
//!
//! A packet is a tag byte followed by its fields in their declared order. A
//! [`FieldKind`] says how one field lies on the wire, a [`Field`] holds the
//! value of one field, and a packet type is the list of the kinds of its
//! fields. One routine writes any list of fields and one reads any list of
//! kinds.

use crate::internal::address::PeerAddress;
use crate::internal::u24_impl::{le_bytes_of, u24, value_of_le};
use crate::protocol::wire::{
    append_bytes, be_i16, be_i32, be_i64, be_i8, be_u16, be_u32, be_u64, be_u8, copy_range,
    i16_of_be, i32_of_be, i64_of_be, i8_of_be, read_i16, read_i32, read_i64, read_i8, read_u16,
    read_u32, read_u64, read_u8, u16_of_be, u32_of_be, u64_of_be, u8_of_be, write_i16, write_i32,
    write_i64, write_i8, write_u16, write_u32, write_u64, write_u8,
};
use crate::protocol::{magic, magic_bytes};
use crate::internal::u24_impl::lemma_le_bytes_then_value;
use crate::protocol::wire::{
    lemma_u16_written_then_read, lemma_u32_written_then_read, lemma_u64_written_then_read,
    lemma_u8_written_then_read,
};
use vstd::prelude::*;
use vstd::utf8::{
    decode_utf8, encode_utf8, encode_utf8_decode_utf8, encode_utf8_valid_utf8, valid_utf8,
};

verus! {

/// The size of a datagram that a peer probes for. It has no bytes of its
/// own on the wire: a reader takes it from the number of bytes that are left
/// in the datagram when it comes to this field.
#[derive(Copy, Clone, Debug, PartialEq, Eq, Structural)]
pub struct MTU(pub u16);

/// How one field lies on the wire.
#[derive(Copy, Clone, Debug, PartialEq, Eq, Structural)]
pub enum FieldKind {
    /// One byte, 1 for true and 0 for false.
    Bool,
    /// One byte.
    U8,
    /// One byte, two's complement.
    I8,
    /// Two bytes, big-endian.
    U16,
    /// Two bytes, big-endian, two's complement.
    I16,
    /// Four bytes, big-endian.
    U32,
    /// Four bytes, big-endian, two's complement.
    I32,
    /// Eight bytes, big-endian.
    U64,
    /// Eight bytes, big-endian, two's complement.
    I64,
    /// A big-endian `u16` that counts bytes, then that many bytes of UTF-8.
    Text,
    /// The sixteen bytes of the marker.
    Magic,
    /// One byte for the address family, four octets, and a big-endian port.
    Address,
    /// Three bytes, little-endian.
    U24,
    /// No bytes: the number of bytes left in the datagram.
    Mtu,
}

/// The value of one field.
#[derive(Clone, Debug)]
pub enum Field {
    Bool(bool),
    U8(u8),
    I8(i8),
    U16(u16),
    I16(i16),
    U32(u32),
    I32(i32),
    U64(u64),
    I64(i64),
    Text(String),
    Magic([u8; 16]),
    Address(PeerAddress),
    U24(u24),
    Mtu(MTU),
}

/// What a [`Field`] holds, as mathematics: a text is its sequence of
/// characters and a marker its sequence of bytes.
pub enum FieldView {
    Bool(bool),
    U8(u8),
    I8(i8),
    U16(u16),
    I16(i16),
    U32(u32),
    I32(i32),
    U64(u64),
    I64(i64),
    Text(Seq<char>),
    Magic(Seq<u8>),
    Address(PeerAddress),
    U24(u24),
    Mtu(MTU),
}

impl View for Field {
    type V = FieldView;

    open spec fn view(&self) -> FieldView {
        match self {
            Field::Bool(v) => FieldView::Bool(*v),
            Field::U8(v) => FieldView::U8(*v),
            Field::I8(v) => FieldView::I8(*v),
            Field::U16(v) => FieldView::U16(*v),
            Field::I16(v) => FieldView::I16(*v),
            Field::U32(v) => FieldView::U32(*v),
            Field::I32(v) => FieldView::I32(*v),
            Field::U64(v) => FieldView::U64(*v),
            Field::I64(v) => FieldView::I64(*v),
            Field::Text(v) => FieldView::Text(v@),
            Field::Magic(v) => FieldView::Magic(v@),
            Field::Address(v) => FieldView::Address(*v),
            Field::U24(v) => FieldView::U24(*v),
            Field::Mtu(v) => FieldView::Mtu(*v),
        }
    }
}

impl DeepView for Field {
    type V = FieldView;

    open spec fn deep_view(&self) -> FieldView {
        self@
    }
}

/// Why a list of fields cannot be written.
#[derive(Copy, Clone, Debug, PartialEq, Eq, Structural)]
pub enum EncodeError {
    /// A text is longer than the 65535 bytes that its length prefix can
    /// count.
    TextTooLong,
    /// A probed size has no form on the wire.
    SizePlaceholder,
}

/// Why a datagram cannot be read as a list of fields.
#[derive(Copy, Clone, Debug, PartialEq, Eq, Structural)]
pub enum DecodeError {
    /// The datagram ends before a field of fixed width does.
    UnexpectedEof,
    /// The length prefix of a text counts more bytes than are left.
    TextOverrun,
    /// The bytes of a text are not UTF-8.
    InvalidUtf8,
}

impl FieldView {
    /// The kind of wire form that this value has.
    pub open spec fn kind(self) -> FieldKind {
        match self {
            FieldView::Bool(_) => FieldKind::Bool,
            FieldView::U8(_) => FieldKind::U8,
            FieldView::I8(_) => FieldKind::I8,
            FieldView::U16(_) => FieldKind::U16,
            FieldView::I16(_) => FieldKind::I16,
            FieldView::U32(_) => FieldKind::U32,
            FieldView::I32(_) => FieldKind::I32,
            FieldView::U64(_) => FieldKind::U64,
            FieldView::I64(_) => FieldKind::I64,
            FieldView::Text(_) => FieldKind::Text,
            FieldView::Magic(_) => FieldKind::Magic,
            FieldView::Address(_) => FieldKind::Address,
            FieldView::U24(_) => FieldKind::U24,
            FieldView::Mtu(_) => FieldKind::Mtu,
        }
    }

    /// Why this value cannot be written, if it cannot.
    pub open spec fn encode_error(self) -> Option<EncodeError> {
        match self {
            FieldView::Text(text) => if encode_utf8(text).len() > 0xFFFF {
                Some(EncodeError::TextTooLong)
            } else {
                None
            },
            FieldView::Mtu(_) => Some(EncodeError::SizePlaceholder),
            _ => None,
        }
    }

    /// The bytes that stand for this value on the wire. A marker is always
    /// written as the protocol's marker, whatever the value holds, and an
    /// address always as family 4.
    pub open spec fn bytes(self) -> Seq<u8> {
        match self {
            FieldView::Bool(v) => seq![if v { 1u8 } else { 0u8 }],
            FieldView::U8(v) => be_u8(v),
            FieldView::I8(v) => be_i8(v),
            FieldView::U16(v) => be_u16(v),
            FieldView::I16(v) => be_i16(v),
            FieldView::U32(v) => be_u32(v),
            FieldView::I32(v) => be_i32(v),
            FieldView::U64(v) => be_u64(v),
            FieldView::I64(v) => be_i64(v),
            FieldView::Text(text) => be_u16(encode_utf8(text).len() as u16) + encode_utf8(text),
            FieldView::Magic(_) => magic_bytes(),
            FieldView::Address(addr) => seq![4u8] + be_u32(addr.ip) + be_u16(addr.port),
            FieldView::U24(v) => le_bytes_of(v@),
            FieldView::Mtu(_) => Seq::empty(),
        }
    }

    /// The value reads back as itself: a marker is the protocol's marker
    /// and a 24-bit integer is below 2^24.
    pub open spec fn canonical(self) -> bool {
        match self {
            FieldView::Magic(marker) => marker == magic_bytes(),
            FieldView::U24(v) => v.wf(),
            _ => true,
        }
    }
}

/// The kinds of a list of values.
pub open spec fn kinds_of(fields: Seq<FieldView>) -> Seq<FieldKind> {
    fields.map_values(|f: FieldView| f.kind())
}

/// Why a list of values cannot be written, if it cannot: the reason of the
/// first value that cannot.
pub open spec fn fields_error(fields: Seq<FieldView>) -> Option<EncodeError>
    decreases fields.len(),
{
    if fields.len() == 0 {
        None
    } else {
        match fields[0].encode_error() {
            Some(e) => Some(e),
            None => fields_error(fields.skip(1)),
        }
    }
}

/// The bytes of a list of values, one value after the other.
pub open spec fn fields_bytes(fields: Seq<FieldView>) -> Seq<u8>
    decreases fields.len(),
{
    if fields.len() == 0 {
        Seq::empty()
    } else {
        fields[0].bytes() + fields_bytes(fields.skip(1))
    }
}

/// Every value of the list reads back as itself.
pub open spec fn all_canonical(fields: Seq<FieldView>) -> bool {
    forall|i: int| 0 <= i < fields.len() ==> (#[trigger] fields[i]).canonical()
}

/// A packet on the wire: the tag byte, then the fields.
pub open spec fn spec_encode(id: u8, fields: Seq<FieldView>) -> Result<Seq<u8>, EncodeError> {
    match fields_error(fields) {
        Some(e) => Err(e),
        None => Ok(seq![id] + fields_bytes(fields)),
    }
}

/// The field of the given kind at the start of `rest`, and the number of
/// bytes it takes up.
#[verifier::opaque]
pub open spec fn decode_field(kind: FieldKind, rest: Seq<u8>) -> Result<(FieldView, int), DecodeError> {
    match kind {
        FieldKind::Bool => if rest.len() < 1 {
            Err(DecodeError::UnexpectedEof)
        } else {
            Ok((FieldView::Bool(rest[0] == 1), 1))
        },
        FieldKind::U8 => if rest.len() < 1 {
            Err(DecodeError::UnexpectedEof)
        } else {
            Ok((FieldView::U8(u8_of_be(rest.subrange(0, 1))), 1))
        },
        FieldKind::I8 => if rest.len() < 1 {
            Err(DecodeError::UnexpectedEof)
        } else {
            Ok((FieldView::I8(i8_of_be(rest.subrange(0, 1))), 1))
        },
        FieldKind::U16 => if rest.len() < 2 {
            Err(DecodeError::UnexpectedEof)
        } else {
            Ok((FieldView::U16(u16_of_be(rest.subrange(0, 2))), 2))
        },
        FieldKind::I16 => if rest.len() < 2 {
            Err(DecodeError::UnexpectedEof)
        } else {
            Ok((FieldView::I16(i16_of_be(rest.subrange(0, 2))), 2))
        },
        FieldKind::U32 => if rest.len() < 4 {
            Err(DecodeError::UnexpectedEof)
        } else {
            Ok((FieldView::U32(u32_of_be(rest.subrange(0, 4))), 4))
        },
        FieldKind::I32 => if rest.len() < 4 {
            Err(DecodeError::UnexpectedEof)
        } else {
            Ok((FieldView::I32(i32_of_be(rest.subrange(0, 4))), 4))
        },
        FieldKind::U64 => if rest.len() < 8 {
            Err(DecodeError::UnexpectedEof)
        } else {
            Ok((FieldView::U64(u64_of_be(rest.subrange(0, 8))), 8))
        },
        FieldKind::I64 => if rest.len() < 8 {
            Err(DecodeError::UnexpectedEof)
        } else {
            Ok((FieldView::I64(i64_of_be(rest.subrange(0, 8))), 8))
        },
        FieldKind::Text => if rest.len() < 2 {
            Err(DecodeError::UnexpectedEof)
        } else {
            let count = u16_of_be(rest.subrange(0, 2)) as int;
            if rest.len() < 2 + count {
                Err(DecodeError::TextOverrun)
            } else if !valid_utf8(rest.subrange(2, 2 + count)) {
                Err(DecodeError::InvalidUtf8)
            } else {
                Ok((FieldView::Text(decode_utf8(rest.subrange(2, 2 + count))), 2 + count))
            }
        },
        FieldKind::Magic => if rest.len() < 16 {
            Err(DecodeError::UnexpectedEof)
        } else {
            Ok((FieldView::Magic(rest.subrange(0, 16)), 16))
        },
        FieldKind::Address => if rest.len() < 7 {
            Err(DecodeError::UnexpectedEof)
        } else {
            Ok(
                (
                    FieldView::Address(
                        PeerAddress {
                            ip: u32_of_be(rest.subrange(1, 5)),
                            port: u16_of_be(rest.subrange(5, 7)),
                        },
                    ),
                    7,
                ),
            )
        },
        FieldKind::U24 => if rest.len() < 3 {
            Err(DecodeError::UnexpectedEof)
        } else {
            Ok((FieldView::U24(u24::spec_new(value_of_le(rest.subrange(0, 3)))), 3))
        },
        FieldKind::Mtu => Ok((FieldView::Mtu(MTU((rest.len() % 0x1_0000) as u16)), 0)),
    }
}

/// The fields of the given kinds, read one after the other from the start
/// of `rest`; bytes after the last field are left alone. The first field
/// that cannot be read gives the error.
pub open spec fn decode_fields(kinds: Seq<FieldKind>, rest: Seq<u8>) -> Result<
    Seq<FieldView>,
    DecodeError,
>
    decreases kinds.len(),
{
    if kinds.len() == 0 {
        Ok(Seq::empty())
    } else {
        match decode_field(kinds[0], rest) {
            Err(e) => Err(e),
            Ok((field, taken)) => match decode_fields(kinds.skip(1), rest.skip(taken)) {
                Err(e) => Err(e),
                Ok(fields) => Ok(seq![field] + fields),
            },
        }
    }
}

/// `String::from_utf8` of `std`: the text that `bytes` spell in UTF-8, and
/// nothing where they are not valid UTF-8.
#[verifier::external_body]
fn text_of_utf8(bytes: Vec<u8>) -> (text: Option<String>)
    ensures
        text is Some <==> valid_utf8(bytes@),
        text matches Some(t) ==> t@ == decode_utf8(bytes@),
{
    String::from_utf8(bytes).ok()
}

/// A part of a part of a sequence is a part of the sequence.
proof fn lemma_skip_subrange(bytes: Seq<u8>, at: int, from: int, to: int)
    requires
        0 <= at,
        0 <= from <= to,
        at + to <= bytes.len(),
    ensures
        bytes.skip(at).subrange(from, to) == bytes.subrange(at + from, at + to),
{
    assert(bytes.skip(at).subrange(from, to) =~= bytes.subrange(at + from, at + to));
}

/// Appends the wire form of `field` to `out`; a field that has none leaves
/// `out` as it was.
pub fn encode_field(out: &mut Vec<u8>, field: &Field) -> (r: Result<(), EncodeError>)
    ensures
        match field@.encode_error() {
            Some(e) => r == Err::<(), EncodeError>(e) && final(out)@ == old(out)@,
            None => r is Ok && final(out)@ == old(out)@ + field@.bytes(),
        },
{
    match field {
        Field::Bool(v) => {
            write_u8(
                out,
                if *v {
                    1
                } else {
                    0
                },
            );
        },
        Field::U8(v) => {
            write_u8(out, *v);
        },
        Field::I8(v) => {
            write_i8(out, *v);
        },
        Field::U16(v) => {
            write_u16(out, *v);
        },
        Field::I16(v) => {
            write_i16(out, *v);
        },
        Field::U32(v) => {
            write_u32(out, *v);
        },
        Field::I32(v) => {
            write_i32(out, *v);
        },
        Field::U64(v) => {
            write_u64(out, *v);
        },
        Field::I64(v) => {
            write_i64(out, *v);
        },
        Field::Text(text) => {
            let raw = text.as_str().as_bytes();
            if raw.len() > 0xFFFF {
                return Err(EncodeError::TextTooLong);
            }
            write_u16(out, raw.len() as u16);
            append_bytes(out, raw);
            assert(out@ =~= old(out)@ + field@.bytes());
        },
        Field::Magic(_) => {
            let marker = magic();
            append_bytes(out, marker.as_slice());
        },
        Field::Address(addr) => {
            write_u8(out, 4);
            write_u32(out, addr.ip);
            write_u16(out, addr.port);
            assert(out@ =~= old(out)@ + field@.bytes());
        },
        Field::U24(v) => {
            let raw = v.to_le_bytes();
            append_bytes(out, raw.as_slice());
        },
        Field::Mtu(_) => {
            return Err(EncodeError::SizePlaceholder);
        },
    }
    Ok(())
}

/// The bytes of the fields up to and with the next one are the bytes up to
/// it, then its own.
pub proof fn lemma_fields_bytes_step(fields: Seq<FieldView>, n: int)
    requires
        0 <= n < fields.len(),
    ensures
        fields_bytes(fields.take(n + 1)) == fields_bytes(fields.take(n)) + fields[n].bytes(),
        fields_error(fields.take(n + 1)) == match fields_error(fields.take(n)) {
            Some(e) => Some(e),
            None => fields[n].encode_error(),
        },
    decreases n,
{
    let longer = fields.take(n + 1);
    let shorter = fields.take(n);
    reveal_with_fuel(fields_bytes, 2);
    reveal_with_fuel(fields_error, 2);
    if n == 0 {
        assert(longer.skip(1) =~= Seq::<FieldView>::empty());
        assert(fields_bytes(longer) =~= fields[0].bytes());
        assert(shorter =~= Seq::<FieldView>::empty());
        assert(fields_bytes(shorter) + fields[n].bytes() =~= fields[0].bytes());
    } else {
        let tail = fields.skip(1);
        lemma_fields_bytes_step(tail, n - 1);
        assert(longer.skip(1) =~= tail.take(n));
        assert(shorter.skip(1) =~= tail.take(n - 1));
        assert(tail[n - 1] == fields[n]);
        assert(fields_bytes(longer) =~= fields_bytes(shorter) + fields[n].bytes());
    }
}

/// The packet with the tag `id` and the given fields, as it lies on the
/// wire: the tag byte, then each field in its order.
///
/// Fails where a field has no wire form: a text of more than 65535 bytes, or
/// a probed size.
pub fn encode(id: u8, fields: &Vec<Field>) -> (r: Result<Vec<u8>, EncodeError>)
    ensures
        match r {
            Ok(bytes) => spec_encode(id, fields.deep_view()) == Ok::<Seq<u8>, EncodeError>(bytes@),
            Err(e) => spec_encode(id, fields.deep_view()) == Err::<Seq<u8>, EncodeError>(e),
        },
{
    let ghost all = fields.deep_view();
    let mut out: Vec<u8> = Vec::new();
    out.push(id);
    let mut i: usize = 0;
    assert(all.take(0) =~= Seq::<FieldView>::empty());
    while i < fields.len()
        invariant
            i <= fields.len(),
            all == fields.deep_view(),
            all.len() == fields.len(),
            fields_error(all.take(i as int)) is None,
            out@ == seq![id] + fields_bytes(all.take(i as int)),
        decreases fields.len() - i,
    {
        proof {
            lemma_fields_bytes_step(all, i as int);
            assert(all[i as int] == fields[i as int]@);
        }
        let ghost before = out@;
        match encode_field(&mut out, &fields[i]) {
            Err(e) => {
                proof {
                    lemma_fields_error_prefix(all, i as int + 1);
                }
                return Err(e);
            },
            Ok(()) => {},
        }
        assert(out@ =~= seq![id] + fields_bytes(all.take(i as int + 1)));
        i += 1;
    }
    assert(all.take(i as int) =~= all);
    Ok(out)
}

/// A list cannot be written if a part of it from the start cannot, and for
/// the same reason.
pub proof fn lemma_fields_error_prefix(fields: Seq<FieldView>, n: int)
    requires
        0 <= n <= fields.len(),
        fields_error(fields.take(n)) is Some,
    ensures
        fields_error(fields) == fields_error(fields.take(n)),
    decreases n,
{
    if n == 0 {
        assert(fields.take(0) =~= Seq::<FieldView>::empty());
    } else {
        let part = fields.take(n);
        assert(part[0] == fields[0]);
        if fields[0].encode_error() is None {
            assert(part.skip(1) =~= fields.skip(1).take(n - 1));
            lemma_fields_error_prefix(fields.skip(1), n - 1);
        }
    }
}

/// Reads the field of the given kind that starts at `at`, and says where
/// the next field starts.
pub(crate) fn decode_field_at(kind: FieldKind, bytes: &[u8], at: usize) -> (r: Result<
    (Field, usize),
    DecodeError,
>)
    requires
        at <= bytes@.len(),
    ensures
        match decode_field(kind, bytes@.skip(at as int)) {
            Ok((field, taken)) => r matches Ok((f, next)) && f@ == field && next == at + taken,
            Err(e) => r matches Err(err) && err == e,
        },
        r matches Ok((_, next)) ==> at <= next <= bytes@.len(),
{
    reveal(decode_field);
    let left = bytes.len() - at;
    let ghost rest = bytes@.skip(at as int);
    proof {
        if left >= 1 {
            lemma_skip_subrange(bytes@, at as int, 0, 1);
        }
        if left >= 2 {
            lemma_skip_subrange(bytes@, at as int, 0, 2);
        }
        if left >= 3 {
            lemma_skip_subrange(bytes@, at as int, 0, 3);
        }
        if left >= 4 {
            lemma_skip_subrange(bytes@, at as int, 0, 4);
        }
        if left >= 7 {
            lemma_skip_subrange(bytes@, at as int, 1, 5);
            lemma_skip_subrange(bytes@, at as int, 5, 7);
        }
        if left >= 8 {
            lemma_skip_subrange(bytes@, at as int, 0, 8);
        }
        if left >= 16 {
            lemma_skip_subrange(bytes@, at as int, 0, 16);
        }
    }
    match kind {
        FieldKind::Bool => {
            if left < 1 {
                return Err(DecodeError::UnexpectedEof);
            }
            let v = read_u8(bytes, at);
            Ok((Field::Bool(v == 1), at + 1))
        },
        FieldKind::U8 => {
            if left < 1 {
                return Err(DecodeError::UnexpectedEof);
            }
            Ok((Field::U8(read_u8(bytes, at)), at + 1))
        },
        FieldKind::I8 => {
            if left < 1 {
                return Err(DecodeError::UnexpectedEof);
            }
            Ok((Field::I8(read_i8(bytes, at)), at + 1))
        },
        FieldKind::U16 => {
            if left < 2 {
                return Err(DecodeError::UnexpectedEof);
            }
            Ok((Field::U16(read_u16(bytes, at)), at + 2))
        },
        FieldKind::I16 => {
            if left < 2 {
                return Err(DecodeError::UnexpectedEof);
            }
            Ok((Field::I16(read_i16(bytes, at)), at + 2))
        },
        FieldKind::U32 => {
            if left < 4 {
                return Err(DecodeError::UnexpectedEof);
            }
            Ok((Field::U32(read_u32(bytes, at)), at + 4))
        },
        FieldKind::I32 => {
            if left < 4 {
                return Err(DecodeError::UnexpectedEof);
            }
            Ok((Field::I32(read_i32(bytes, at)), at + 4))
        },
        FieldKind::U64 => {
            if left < 8 {
                return Err(DecodeError::UnexpectedEof);
            }
            Ok((Field::U64(read_u64(bytes, at)), at + 8))
        },
        FieldKind::I64 => {
            if left < 8 {
                return Err(DecodeError::UnexpectedEof);
            }
            Ok((Field::I64(read_i64(bytes, at)), at + 8))
        },
        FieldKind::Text => {
            if left < 2 {
                return Err(DecodeError::UnexpectedEof);
            }
            let count = read_u16(bytes, at) as usize;
            if left - 2 < count {
                return Err(DecodeError::TextOverrun);
            }
            proof {
                lemma_skip_subrange(bytes@, at as int, 2, 2 + count);
            }
            let raw = copy_range(bytes, at + 2, at + 2 + count);
            match text_of_utf8(raw) {
                None => Err(DecodeError::InvalidUtf8),
                Some(text) => Ok((Field::Text(text), at + 2 + count)),
            }
        },
        FieldKind::Magic => {
            if left < 16 {
                return Err(DecodeError::UnexpectedEof);
            }
            let mut marker = [0u8;16];
            let mut i: usize = 0;
            while i < 16
                invariant
                    i <= 16,
                    at + 16 <= bytes@.len() <= usize::MAX,
                    forall|j: int| 0 <= j < i ==> marker@[j] == bytes@[at + j],
                decreases 16 - i,
            {
                marker[i] = bytes[at + i];
                i += 1;
            }
            assert(marker@ =~= bytes@.subrange(at as int, at + 16));
            Ok((Field::Magic(marker), at + 16))
        },
        FieldKind::Address => {
            if left < 7 {
                return Err(DecodeError::UnexpectedEof);
            }
            let ip = read_u32(bytes, at + 1);
            let port = read_u16(bytes, at + 5);
            Ok((Field::Address(PeerAddress { ip, port }), at + 7))
        },
        FieldKind::U24 => {
            if left < 3 {
                return Err(DecodeError::UnexpectedEof);
            }
            let raw = [bytes[at], bytes[at + 1], bytes[at + 2]];
            assert(raw@ =~= bytes@.subrange(at as int, at + 3));
            let v = u24::from_le_bytes(raw);
            proof {
                crate::internal::u24_impl::lemma_value_then_le_bytes(raw@);
                u24::lemma_wf(v);
            }
            Ok((Field::U24(v), at + 3))
        },
        FieldKind::Mtu => Ok((Field::Mtu(MTU((left % 0x1_0000) as u16)), at)),
    }
}

/// `fields` in front of what `rest` holds, where it holds fields.
pub open spec fn after(fields: Seq<FieldView>, rest: Result<Seq<FieldView>, DecodeError>) -> Result<
    Seq<FieldView>,
    DecodeError,
> {
    match rest {
        Ok(more) => Ok(fields + more),
        Err(e) => Err(e),
    }
}

/// Reading the kinds from the `i`-th on is reading the `i`-th and then the
/// kinds after it, from where the `i`-th field ends.
proof fn lemma_decode_fields_step(
    kinds: Seq<FieldKind>,
    bytes: Seq<u8>,
    done: Seq<FieldView>,
    i: int,
    at: int,
)
    requires
        0 <= i < kinds.len(),
        0 <= at <= bytes.len(),
    ensures
        match decode_field(kinds[i], bytes.skip(at)) {
            Err(e) => after(done, decode_fields(kinds.skip(i), bytes.skip(at))) == Err::<
                Seq<FieldView>,
                DecodeError,
            >(e),
            Ok((field, taken)) => 0 <= taken && at + taken <= bytes.len() ==> after(
                done,
                decode_fields(kinds.skip(i), bytes.skip(at)),
            ) == after(done.push(field), decode_fields(kinds.skip(i + 1), bytes.skip(at + taken))),
        },
{
    let kinds_left = kinds.skip(i);
    let bytes_left = bytes.skip(at);
    assert(kinds_left[0] == kinds[i]);
    match decode_field(kinds[i], bytes_left) {
        Err(_) => {},
        Ok((field, taken)) => {
            if 0 <= taken && at + taken <= bytes.len() {
                assert(kinds_left.skip(1) =~= kinds.skip(i + 1));
                assert(bytes_left.skip(taken) =~= bytes.skip(at + taken));
                match decode_fields(kinds.skip(i + 1), bytes.skip(at + taken)) {
                    Ok(more) => {
                        assert(done + (seq![field] + more) =~= done.push(field) + more);
                    },
                    Err(_) => {},
                }
            }
        },
    }
}

/// Reads the fields of the given kinds, one after the other, from a
/// datagram whose tag byte has been taken off; bytes after the last field
/// are left alone.
///
/// Fails where the datagram ends inside a field, where the length prefix of
/// a text counts more bytes than are left, and where a text is not UTF-8.
pub fn decode(kinds: &[FieldKind], bytes: &[u8]) -> (r: Result<Vec<Field>, DecodeError>)
    ensures
        match decode_fields(kinds@, bytes@) {
            Ok(fields) => r matches Ok(v) && v.deep_view() == fields,
            Err(e) => r matches Err(err) && err == e,
        },
{
    let mut fields: Vec<Field> = Vec::new();
    let mut at: usize = 0;
    let mut i: usize = 0;
    proof {
        assert(kinds@.skip(0) =~= kinds@);
        assert(bytes@.skip(0) =~= bytes@);
        assert(fields.deep_view() =~= Seq::<FieldView>::empty());
        match decode_fields(kinds@, bytes@) {
            Ok(more) => {
                assert(Seq::<FieldView>::empty() + more =~= more);
            },
            Err(_) => {},
        }
    }
    while i < kinds.len()
        invariant
            i <= kinds@.len(),
            at <= bytes@.len(),
            decode_fields(kinds@, bytes@) == after(
                fields.deep_view(),
                decode_fields(kinds@.skip(i as int), bytes@.skip(at as int)),
            ),
        decreases kinds@.len() - i,
    {
        let ghost done = fields.deep_view();
        proof {
            lemma_decode_fields_step(kinds@, bytes@, done, i as int, at as int);
        }
        match decode_field_at(kinds[i], bytes, at) {
            Err(e) => {
                return Err(e);
            },
            Ok((field, next)) => {
                fields.push(field);
                assert(fields.deep_view() =~= done.push(field@));
                at = next;
                i += 1;
            },
        }
    }
    assert(fields.deep_view() + Seq::<FieldView>::empty() =~= fields.deep_view());
    Ok(fields)
}

/// A field that was written reads back as itself, whatever follows it, and
/// takes up the bytes that were written for it.
pub proof fn lemma_field_reads_back(field: FieldView, tail: Seq<u8>)
    requires
        field.encode_error() is None,
        field.canonical(),
    ensures
        decode_field(field.kind(), field.bytes() + tail) == Ok::<(FieldView, int), DecodeError>(
            (field, field.bytes().len() as int),
        ),
{
    reveal(decode_field);
    let own = field.bytes();
    let all = own + tail;
    assert(all.subrange(0, own.len() as int) =~= own);
    match field {
        FieldView::Bool(v) => {},
        FieldView::U8(v) => {
            lemma_u8_written_then_read(v, 0);
        },
        FieldView::I8(v) => {
            lemma_u8_written_then_read(0, v);
        },
        FieldView::U16(v) => {
            lemma_u16_written_then_read(v, 0);
        },
        FieldView::I16(v) => {
            lemma_u16_written_then_read(0, v);
        },
        FieldView::U32(v) => {
            lemma_u32_written_then_read(v, 0);
        },
        FieldView::I32(v) => {
            lemma_u32_written_then_read(0, v);
        },
        FieldView::U64(v) => {
            lemma_u64_written_then_read(v, 0);
        },
        FieldView::I64(v) => {
            lemma_u64_written_then_read(0, v);
        },
        FieldView::Text(text) => {
            let raw = encode_utf8(text);
            lemma_u16_written_then_read(raw.len() as u16, 0);
            assert(all.subrange(0, 2) =~= be_u16(raw.len() as u16));
            assert(all.subrange(2, 2 + raw.len() as int) =~= raw);
            encode_utf8_valid_utf8(text);
            encode_utf8_decode_utf8(text);
        },
        FieldView::Magic(marker) => {},
        FieldView::Address(addr) => {
            lemma_u32_written_then_read(addr.ip, 0);
            lemma_u16_written_then_read(addr.port, 0);
            assert(all.subrange(1, 5) =~= be_u32(addr.ip));
            assert(all.subrange(5, 7) =~= be_u16(addr.port));
        },
        FieldView::U24(v) => {
            u24::lemma_wf(v);
            lemma_le_bytes_then_value(v@);
        },
        FieldView::Mtu(_) => {},
    }
}

/// Fields that were written read back as themselves, whatever follows
/// them: for every list of fields that can be written and whose markers are
/// the protocol's marker, reading the kinds of the list from its bytes
/// gives the list.
pub proof fn lemma_fields_read_back(fields: Seq<FieldView>, tail: Seq<u8>)
    requires
        fields_error(fields) is None,
        all_canonical(fields),
    ensures
        decode_fields(kinds_of(fields), fields_bytes(fields) + tail) == Ok::<
            Seq<FieldView>,
            DecodeError,
        >(fields),
    decreases fields.len(),
{
    let kinds = kinds_of(fields);
    if fields.len() == 0 {
        assert(fields =~= Seq::<FieldView>::empty());
    } else {
        let first = fields[0];
        let others = fields.skip(1);
        let rest = fields_bytes(others) + tail;
        assert(first.canonical());
        assert(all_canonical(others)) by {
            assert forall|i: int| 0 <= i < others.len() implies (#[trigger] others[i]).canonical() by {
                assert(others[i] == fields[i + 1]);
            }
        }
        lemma_field_reads_back(first, rest);
        lemma_fields_read_back(others, tail);
        assert(fields_bytes(fields) + tail =~= first.bytes() + rest);
        assert((first.bytes() + rest).skip(first.bytes().len() as int) =~= rest);
        assert(kinds[0] == first.kind());
        assert(kinds.skip(1) =~= kinds_of(others));
        assert(seq![first] + others =~= fields);
    }
}

/// Decoding undoes encoding: a packet that can be written, and whose
/// markers are the protocol's marker, starts with its tag, and the bytes
/// after the tag read back as the fields that were written.
pub proof fn lemma_decode_undoes_encode(id: u8, fields: Seq<FieldView>)
    requires
        fields_error(fields) is None,
        all_canonical(fields),
    ensures
        spec_encode(id, fields) matches Ok(bytes) && bytes[0] == id && decode_fields(
            kinds_of(fields),
            bytes.skip(1),
        ) == Ok::<Seq<FieldView>, DecodeError>(fields),
{
    let bytes = seq![id] + fields_bytes(fields);
    assert(bytes.skip(1) =~= fields_bytes(fields) + Seq::<u8>::empty());
    lemma_fields_read_back(fields, Seq::empty());
}

/// A text whose length prefix counts more bytes than follow it cannot be
/// read.
pub proof fn lemma_text_overrun(rest: Seq<u8>)
    requires
        rest.len() >= 2,
        u16_of_be(rest.subrange(0, 2)) > rest.len() - 2,
    ensures
        decode_field(FieldKind::Text, rest) == Err::<(FieldView, int), DecodeError>(
            DecodeError::TextOverrun,
        ),
{
    reveal(decode_field);
}

/// A field that was read has the kind that was asked for, and takes up a
/// part of what was left.
pub proof fn lemma_decoded_kind(kind: FieldKind, rest: Seq<u8>)
    ensures
        decode_field(kind, rest) matches Ok((field, taken)) ==> field.kind() == kind && 0 <= taken
            <= rest.len(),
{
    reveal(decode_field);
}

/// The kinds of the fields that were read are the kinds that were asked
/// for.
pub proof fn lemma_decoded_kinds(kinds: Seq<FieldKind>, rest: Seq<u8>)
    ensures
        decode_fields(kinds, rest) matches Ok(fields) ==> kinds_of(fields) == kinds,
    decreases kinds.len(),
{
    if kinds.len() > 0 {
        lemma_decoded_kind(kinds[0], rest);
        match decode_field(kinds[0], rest) {
            Err(_) => {},
            Ok((field, taken)) => {
                lemma_decoded_kinds(kinds.skip(1), rest.skip(taken));
                match decode_fields(kinds.skip(1), rest.skip(taken)) {
                    Err(_) => {},
                    Ok(more) => {
                        let all = seq![field] + more;
                        assert(decode_fields(kinds, rest) == Ok::<Seq<FieldView>, DecodeError>(all));
                        assert(kinds_of(more).len() == more.len());
                        assert forall|j: int| 0 <= j < kinds.len() implies kinds_of(all)[j]
                            == kinds[j] by {
                            if j > 0 {
                                assert(all[j] == more[j - 1]);
                                assert(kinds_of(more)[j - 1] == kinds.skip(1)[j - 1]);
                            }
                        }
                        assert(kinds_of(all) =~= kinds);
                    },
                }
            },
        }
    } else {
        assert(kinds_of(Seq::<FieldView>::empty()) =~= kinds);
    }
}

/// A list whose every value can be written can be written.
pub proof fn lemma_no_error(fields: Seq<FieldView>)
    requires
        forall|i: int| 0 <= i < fields.len() ==> (#[trigger] fields[i]).encode_error() is None,
    ensures
        fields_error(fields) is None,
    decreases fields.len(),
{
    if fields.len() > 0 {
        let others = fields.skip(1);
        assert forall|i: int| 0 <= i < others.len() implies (#[trigger] others[i]).encode_error()
            is None by {
            assert(others[i] == fields[i + 1]);
        }
        lemma_no_error(others);
    }
}

impl Field {
    /// Takes the last field off `fields`, which holds a value of kind
    /// `U8`, and gives that value.
    pub(crate) fn pop_u8(fields: &mut Vec<Field>) -> (v: u8)
        requires
            old(fields).len() > 0,
            old(fields)@.last()@.kind() == FieldKind::U8,
        ensures
            final(fields)@ == old(fields)@.drop_last(),
            old(fields)@.last()@ == FieldView::U8(v),
    {
        match fields.pop() {
            Some(Field::U8(v)) => v,
            _ => vstd::pervasive::unreached(),
        }
    }

    /// Takes the last field off `fields`, which holds a value of kind
    /// `U16`, and gives that value.
    pub(crate) fn pop_u16(fields: &mut Vec<Field>) -> (v: u16)
        requires
            old(fields).len() > 0,
            old(fields)@.last()@.kind() == FieldKind::U16,
        ensures
            final(fields)@ == old(fields)@.drop_last(),
            old(fields)@.last()@ == FieldView::U16(v),
    {
        match fields.pop() {
            Some(Field::U16(v)) => v,
            _ => vstd::pervasive::unreached(),
        }
    }

    /// Takes the last field off `fields`, which holds a value of kind
    /// `U64`, and gives that value.
    pub(crate) fn pop_u64(fields: &mut Vec<Field>) -> (v: u64)
        requires
            old(fields).len() > 0,
            old(fields)@.last()@.kind() == FieldKind::U64,
        ensures
            final(fields)@ == old(fields)@.drop_last(),
            old(fields)@.last()@ == FieldView::U64(v),
    {
        match fields.pop() {
            Some(Field::U64(v)) => v,
            _ => vstd::pervasive::unreached(),
        }
    }

    /// Takes the last field off `fields`, which holds a value of kind
    /// `I64`, and gives that value.
    pub(crate) fn pop_i64(fields: &mut Vec<Field>) -> (v: i64)
        requires
            old(fields).len() > 0,
            old(fields)@.last()@.kind() == FieldKind::I64,
        ensures
            final(fields)@ == old(fields)@.drop_last(),
            old(fields)@.last()@ == FieldView::I64(v),
    {
        match fields.pop() {
            Some(Field::I64(v)) => v,
            _ => vstd::pervasive::unreached(),
        }
    }

    /// Takes the last field off `fields`, which holds a value of kind
    /// `Magic`, and gives that value.
    pub(crate) fn pop_magic(fields: &mut Vec<Field>) -> (v: [u8; 16])
        requires
            old(fields).len() > 0,
            old(fields)@.last()@.kind() == FieldKind::Magic,
        ensures
            final(fields)@ == old(fields)@.drop_last(),
            old(fields)@.last()@ == FieldView::Magic(v@),
    {
        match fields.pop() {
            Some(Field::Magic(v)) => v,
            _ => vstd::pervasive::unreached(),
        }
    }

    /// Takes the last field off `fields`, which holds a value of kind
    /// `Address`, and gives that value.
    pub(crate) fn pop_address(fields: &mut Vec<Field>) -> (v: PeerAddress)
        requires
            old(fields).len() > 0,
            old(fields)@.last()@.kind() == FieldKind::Address,
        ensures
            final(fields)@ == old(fields)@.drop_last(),
            old(fields)@.last()@ == FieldView::Address(v),
    {
        match fields.pop() {
            Some(Field::Address(v)) => v,
            _ => vstd::pervasive::unreached(),
        }
    }

    /// Takes the last field off `fields`, which holds a value of kind
    /// `Mtu`, and gives that value.
    pub(crate) fn pop_mtu(fields: &mut Vec<Field>) -> (v: MTU)
        requires
            old(fields).len() > 0,
            old(fields)@.last()@.kind() == FieldKind::Mtu,
        ensures
            final(fields)@ == old(fields)@.drop_last(),
            old(fields)@.last()@ == FieldView::Mtu(v),
    {
        match fields.pop() {
            Some(Field::Mtu(v)) => v,
            _ => vstd::pervasive::unreached(),
        }
    }
}

} // verus!
