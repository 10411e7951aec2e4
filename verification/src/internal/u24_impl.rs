//! A 24-bit unsigned integer, three bytes wide on the wire.

use vstd::endian::{endianness, Endian};
use vstd::prelude::*;

verus! {

/// An unsigned integer in `0..=0xFF_FFFF`, kept in a `u32` whose top byte is
/// always zero.
#[allow(non_camel_case_types)]
#[derive(Copy, Clone, Debug, Hash, PartialEq, Eq, Structural, PartialOrd, Ord)]
pub struct u24(u32);

/// The number of values a `u24` can take, 2^24.
pub open spec fn modulus() -> nat {
    0x100_0000
}

/// The three bytes of `value`, most significant first.
pub open spec fn be_bytes_of(value: nat) -> Seq<u8> {
    seq![(value / 0x1_0000 % 0x100) as u8, (value / 0x100 % 0x100) as u8, (value % 0x100) as u8]
}

/// The three bytes of `value`, least significant first.
pub open spec fn le_bytes_of(value: nat) -> Seq<u8> {
    seq![(value % 0x100) as u8, (value / 0x100 % 0x100) as u8, (value / 0x1_0000 % 0x100) as u8]
}

/// The number whose bytes, most significant first, are `bytes`.
pub open spec fn value_of_be(bytes: Seq<u8>) -> nat
    recommends
        bytes.len() == 3,
{
    (bytes[0] as nat) * 0x1_0000 + (bytes[1] as nat) * 0x100 + (bytes[2] as nat)
}

/// The number whose bytes, least significant first, are `bytes`.
pub open spec fn value_of_le(bytes: Seq<u8>) -> nat
    recommends
        bytes.len() == 3,
{
    (bytes[2] as nat) * 0x1_0000 + (bytes[1] as nat) * 0x100 + (bytes[0] as nat)
}

/// `value` with its three bytes in the opposite order.
pub open spec fn swapped(value: nat) -> nat {
    value_of_le(be_bytes_of(value))
}

/// The digits of `value` in base two, most significant first, without
/// leading zeros; `0` for zero.
pub open spec fn binary_digits(value: nat) -> Seq<char>
    decreases value,
{
    let last = if value % 2 == 0 {
        '0'
    } else {
        '1'
    };
    if value < 2 {
        seq![last]
    } else {
        binary_digits(value / 2).push(last)
    }
}

/// The character that stands for `digit` in base ten.
pub open spec fn decimal_digit(digit: nat) -> char
    recommends
        digit < 10,
{
    (0x30 + digit) as char
}

/// The digits of `value` in base ten, most significant first, without
/// leading zeros; `0` for zero.
pub open spec fn decimal_digits(value: nat) -> Seq<char>
    decreases value,
{
    if value < 10 {
        seq![decimal_digit(value)]
    } else {
        decimal_digits(value / 10).push(decimal_digit(value % 10))
    }
}

/// `std`'s formatting of a `u32` with `{:b}`: the number in base two.
#[verifier::external_body]
fn format_binary(value: u32) -> (s: String)
    ensures
        s@ == binary_digits(value as nat),
{
    format!("{:b}", value)
}

/// `std`'s formatting of a `u32` with `{:#b}`: `0b`, then the number in
/// base two.
#[verifier::external_body]
fn format_binary_alternate(value: u32) -> (s: String)
    ensures
        s@ == seq!['0', 'b'] + binary_digits(value as nat),
{
    format!("{:#b}", value)
}

/// `std`'s formatting of a `u32` with `{}`: the number in base ten.
#[verifier::external_body]
fn format_decimal(value: u32) -> (s: String)
    ensures
        s@ == decimal_digits(value as nat),
{
    format!("{}", value)
}

/// `std`'s `u32::to_be`: the argument as it is on a big-endian target, and
/// with its four bytes in the opposite order on a little-endian one.
#[verifier::external_body]
fn to_big_endian(x: u32) -> (r: u32)
    ensures
        endianness() is Big ==> r == x,
        endianness() is Little ==> r as nat == (x as nat % 0x100) * 0x100_0000 + (x as nat / 0x100
            % 0x100) * 0x1_0000 + (x as nat / 0x1_0000 % 0x100) * 0x100 + (x as nat / 0x100_0000),
{
    x.to_be()
}

impl u24 {
    /// The smallest value that can be represented by this integer type.
    pub fn min_value() -> (r: u24)
        ensures
            r.wf(),
            r@ == 0,
    {
        u24(0)
    }

    /// The largest value that can be represented by this integer type,
    /// 2^24 - 1.
    pub fn max_value() -> (r: u24)
        ensures
            r.wf(),
            r@ == modulus() - 1,
    {
        u24(0x00FF_FFFF)
    }

    /// The number this value stands for.
    pub closed spec fn view(self) -> nat {
        self.0 as nat
    }

    /// The value that stands for `value` modulo 2^24.
    pub closed spec fn spec_new(value: nat) -> u24 {
        u24((value % modulus()) as u32)
    }

    /// `spec_new` keeps the low 24 bits and nothing else.
    pub broadcast proof fn lemma_spec_new(value: nat)
        ensures
            (#[trigger] u24::spec_new(value)).wf(),
            u24::spec_new(value)@ == value % modulus(),
    {
    }

    /// Numbers with the same low 24 bits give the same value.
    pub proof fn lemma_spec_new_congruent(a: nat, b: nat)
        requires
            a % modulus() == b % modulus(),
        ensures
            u24::spec_new(a) == u24::spec_new(b),
    {
    }

    /// A value is determined by the number it stands for.
    pub proof fn lemma_view_injective(x: u24, y: u24)
        requires
            x@ == y@,
        ensures
            x == y,
    {
    }

    /// A well-formed value is below 2^24, and `spec_new` gives it back.
    pub proof fn lemma_wf(x: u24)
        requires
            x.wf(),
        ensures
            x@ < modulus(),
            u24::spec_new(x@) == x,
    {
    }

    /// The top byte of the underlying word is zero.
    #[verifier::type_invariant]
    pub closed spec fn wf(self) -> bool {
        self.0 <= 0x00FF_FFFF
    }

    /// Reverses the byte order of the integer.
    pub fn swap_bytes(self) -> (r: u24)
        ensures
            r.wf(),
            r@ == swapped(self@),
    {
        proof {
            use_type_invariant(&self);
        }
        let v = self.0;
        let hi = v / 0x1_0000;
        let mid = v / 0x100 % 0x100;
        let lo = v % 0x100;
        u24(lo * 0x1_0000 + mid * 0x100 + hi)
    }

    /// Converts an integer from big endian to the target's endianness.
    ///
    /// On big endian this is a no-op. On little endian the bytes are swapped.
    pub fn from_be(x: u24) -> (r: u24)
        ensures
            r.wf(),
            endianness() is Big ==> r == x,
            endianness() is Little ==> r@ == swapped(x@),
    {
        proof {
            use_type_invariant(&x);
        }
        if to_big_endian(1) == 1 {
            x
        } else {
            x.swap_bytes()
        }
    }

    /// Converts an integer from little endian to the target's endianness.
    ///
    /// On little endian this is a no-op. On big endian the bytes are swapped.
    pub fn from_le(x: u24) -> (r: u24)
        ensures
            r.wf(),
            endianness() is Little ==> r == x,
            endianness() is Big ==> r@ == swapped(x@),
    {
        proof {
            use_type_invariant(&x);
        }
        if to_big_endian(1) == 1 {
            x.swap_bytes()
        } else {
            x
        }
    }

    /// Converts `self` to big endian from the target's endianness.
    ///
    /// On big endian this is a no-op. On little endian the bytes are swapped.
    pub fn to_be(self) -> (r: u24)
        ensures
            r.wf(),
            endianness() is Big ==> r == self,
            endianness() is Little ==> r@ == swapped(self@),
    {
        u24::from_be(self)
    }

    /// Converts `self` to little endian from the target's endianness.
    ///
    /// On little endian this is a no-op. On big endian the bytes are swapped.
    pub fn to_le(self) -> (r: u24)
        ensures
            r.wf(),
            endianness() is Little ==> r == self,
            endianness() is Big ==> r@ == swapped(self@),
    {
        u24::from_le(self)
    }

    /// Create a native endian integer value from its representation as a
    /// byte array in big endian.
    pub fn from_be_bytes(bytes: [u8; 3]) -> (r: u24)
        ensures
            r.wf(),
            r@ == value_of_be(bytes@),
    {
        let b0 = bytes[0] as u32;
        let b1 = bytes[1] as u32;
        let b2 = bytes[2] as u32;
        u24(b0 * 0x1_0000 + b1 * 0x100 + b2)
    }

    /// Create a native endian integer value from its representation as a
    /// byte array in little endian.
    pub fn from_le_bytes(bytes: [u8; 3]) -> (r: u24)
        ensures
            r.wf(),
            r@ == value_of_le(bytes@),
    {
        let b0 = bytes[0] as u32;
        let b1 = bytes[1] as u32;
        let b2 = bytes[2] as u32;
        u24(b2 * 0x1_0000 + b1 * 0x100 + b0)
    }

    /// Return the memory representation of this integer as a byte array in
    /// big-endian (network) byte order.
    pub fn to_be_bytes(self) -> (r: [u8; 3])
        ensures
            r@ == be_bytes_of(self@),
    {
        proof {
            use_type_invariant(&self);
        }
        let v = self.0;
        let r = [(v / 0x1_0000) as u8, (v / 0x100 % 0x100) as u8, (v % 0x100) as u8];
        assert(r@ =~= be_bytes_of(self@));
        r
    }

    /// Return the memory representation of this integer as a byte array in
    /// little-endian byte order.
    pub fn to_le_bytes(self) -> (r: [u8; 3])
        ensures
            r@ == le_bytes_of(self@),
    {
        proof {
            use_type_invariant(&self);
        }
        let v = self.0;
        let r = [(v % 0x100) as u8, (v / 0x100 % 0x100) as u8, (v / 0x1_0000) as u8];
        assert(r@ =~= le_bytes_of(self@));
        r
    }

    /// The value in base two; with `prefix`, after the two characters `0b`.
    pub fn to_binary(&self, prefix: bool) -> (s: String)
        ensures
            s@ == if prefix {
                seq!['0', 'b'] + binary_digits(self@)
            } else {
                binary_digits(self@)
            },
    {
        if prefix {
            format_binary_alternate(self.0)
        } else {
            format_binary(self.0)
        }
    }

    /// The value in base ten.
    pub fn to_string(&self) -> (s: String)
        ensures
            s@ == decimal_digits(self@),
    {
        format_decimal(self.0)
    }

    /// Consumes this `u24`, returning the underlying value.
    pub fn into_inner(self) -> (r: u32)
        ensures
            r == self@,
            r <= 0x00FF_FFFF,
    {
        proof {
            use_type_invariant(&self);
        }
        self.0
    }
}

impl Default for u24 {
    /// Zero.
    fn default() -> (r: u24)
        ensures
            r.wf(),
            r@ == 0,
    {
        u24(0)
    }
}

impl From<u32> for u24 {
    /// Keeps the low 24 bits of `value`.
    fn from(value: u32) -> (r: u24)
        ensures
            r.wf(),
            r@ == value as nat % modulus(),
            r == u24::spec_new(value as nat),
    {
        let r = u24(value % 0x100_0000);
        r
    }
}

impl vstd::std_specs::convert::FromSpecImpl<u32> for u24 {
    open spec fn obeys_from_spec() -> bool {
        true
    }

    open spec fn from_spec(value: u32) -> u24 {
        u24::spec_new(value as nat)
    }
}

impl From<u24> for u32 {
    /// The number that `value` stands for.
    fn from(value: u24) -> (r: u32)
        ensures
            r == value@,
    {
        value.0
    }
}

impl vstd::std_specs::convert::FromSpecImpl<u24> for u32 {
    open spec fn obeys_from_spec() -> bool {
        true
    }

    open spec fn from_spec(value: u24) -> u32 {
        value@ as u32
    }
}

impl PartialEq<u32> for u24 {
    fn eq(&self, other: &u32) -> (r: bool)
        ensures
            r == (self@ == *other),
    {
        self.0 == *other
    }
}

impl vstd::std_specs::cmp::PartialEqSpecImpl<u32> for u24 {
    open spec fn obeys_eq_spec() -> bool {
        true
    }

    open spec fn eq_spec(&self, other: &u32) -> bool {
        self@ == *other
    }
}

impl PartialEq<u24> for u32 {
    fn eq(&self, other: &u24) -> (r: bool)
        ensures
            r == (*self == other@),
    {
        *self == other.0
    }
}

impl vstd::std_specs::cmp::PartialEqSpecImpl<u24> for u32 {
    open spec fn obeys_eq_spec() -> bool {
        true
    }

    open spec fn eq_spec(&self, other: &u24) -> bool {
        *self == other@
    }
}

/// Writing a value out most significant byte first and reading it back
/// gives the value.
pub proof fn lemma_be_bytes_then_value(value: nat)
    requires
        value < modulus(),
    ensures
        be_bytes_of(value).len() == 3,
        value_of_be(be_bytes_of(value)) == value,
{
}

/// Writing a value out least significant byte first and reading it back
/// gives the value.
pub proof fn lemma_le_bytes_then_value(value: nat)
    requires
        value < modulus(),
    ensures
        le_bytes_of(value).len() == 3,
        value_of_le(le_bytes_of(value)) == value,
{
}

/// Reading three bytes most significant first gives a 24-bit value, and
/// writing that value out gives the bytes.
pub proof fn lemma_value_then_be_bytes(bytes: Seq<u8>)
    requires
        bytes.len() == 3,
    ensures
        value_of_be(bytes) < modulus(),
        be_bytes_of(value_of_be(bytes)) == bytes,
{
    assert(be_bytes_of(value_of_be(bytes)) =~= bytes);
}

/// Reading three bytes least significant first gives a 24-bit value, and
/// writing that value out gives the bytes.
pub proof fn lemma_value_then_le_bytes(bytes: Seq<u8>)
    requires
        bytes.len() == 3,
    ensures
        value_of_le(bytes) < modulus(),
        le_bytes_of(value_of_le(bytes)) == bytes,
{
    assert(le_bytes_of(value_of_le(bytes)) =~= bytes);
}

/// The two byte orders are each other's reversal.
pub proof fn lemma_orders_are_reversed(value: nat, bytes: Seq<u8>)
    requires
        bytes.len() == 3,
    ensures
        be_bytes_of(value) == le_bytes_of(value).reverse(),
        le_bytes_of(value) == be_bytes_of(value).reverse(),
        value_of_be(bytes) == value_of_le(bytes.reverse()),
        value_of_le(bytes) == value_of_be(bytes.reverse()),
{
    assert(be_bytes_of(value) =~= le_bytes_of(value).reverse());
    assert(le_bytes_of(value) =~= be_bytes_of(value).reverse());
}

/// Swapping the bytes twice gives the value back.
pub proof fn lemma_swapped_twice(value: nat)
    requires
        value < modulus(),
    ensures
        swapped(value) < modulus(),
        swapped(swapped(value)) == value,
{
}

/// The four conversions between a `u24` and its three bytes undo each
/// other: `from_be_bytes` undoes `to_be_bytes`, `from_le_bytes` undoes
/// `to_le_bytes`, and swapping the bytes twice changes nothing.
pub proof fn lemma_conversions_are_inverses(x: u24)
    requires
        x.wf(),
    ensures
        u24::spec_new(value_of_be(be_bytes_of(x@))) == x,
        u24::spec_new(value_of_le(le_bytes_of(x@))) == x,
        u24::spec_new(swapped(swapped(x@))) == x,
{
    u24::lemma_wf(x);
    lemma_be_bytes_then_value(x@);
    lemma_le_bytes_then_value(x@);
    lemma_swapped_twice(x@);
}

} // verus!
