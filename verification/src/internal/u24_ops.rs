//! Wrapping arithmetic on [`u24`]: every result is reduced modulo 2^24.

use crate::internal::u24_impl::{modulus, u24};
use vstd::prelude::*;

verus! {

impl core::ops::Add for u24 {
    type Output = u24;

    /// The sum modulo 2^24.
    fn add(self, rhs: u24) -> (r: u24)
        ensures
            r.wf(),
            r@ == (self@ + rhs@) % modulus(),
    {
        broadcast use u24::lemma_spec_new;

        u24::from(self.into_inner() + rhs.into_inner())
    }
}

impl vstd::std_specs::ops::AddSpecImpl for u24 {
    open spec fn obeys_add_spec() -> bool {
        true
    }

    open spec fn add_req(self, rhs: u24) -> bool {
        true
    }

    open spec fn add_spec(self, rhs: u24) -> u24 {
        u24::spec_new(self@ + rhs@)
    }
}

impl core::ops::AddAssign for u24 {
    /// Replaces the value by the sum modulo 2^24.
    fn add_assign(&mut self, rhs: u24)
        ensures
            final(self).wf(),
            final(self)@ == (old(self)@ + rhs@) % modulus(),
    {
        *self = *self + rhs;
    }
}

impl core::ops::Sub for u24 {
    type Output = u24;

    /// The difference modulo 2^24.
    fn sub(self, rhs: u24) -> (r: u24)
        ensures
            r.wf(),
            r@ == if self@ >= rhs@ { self@ - rhs@ } else { self@ + modulus() - rhs@ },
    {
        broadcast use u24::lemma_spec_new;

        u24::from(self.into_inner() + 0x100_0000 - rhs.into_inner())
    }
}

impl vstd::std_specs::ops::SubSpecImpl for u24 {
    open spec fn obeys_sub_spec() -> bool {
        true
    }

    open spec fn sub_req(self, rhs: u24) -> bool {
        true
    }

    open spec fn sub_spec(self, rhs: u24) -> u24 {
        u24::spec_new((self@ + modulus() - rhs@) as nat)
    }
}

impl core::ops::SubAssign for u24 {
    /// Replaces the value by the difference modulo 2^24.
    fn sub_assign(&mut self, rhs: u24)
        ensures
            final(self).wf(),
            final(self)@ == if old(self)@ >= rhs@ { old(self)@ - rhs@ } else { old(self)@ + modulus() - rhs@ },
    {
        *self = *self - rhs;
    }
}

impl core::ops::Mul for u24 {
    type Output = u24;

    /// The product modulo 2^24.
    fn mul(self, rhs: u24) -> (r: u24)
        ensures
            r.wf(),
            r@ == (self@ * rhs@) % modulus(),
    {
        broadcast use u24::lemma_spec_new;

        let a: u64 = self.into_inner() as u64;
        let b: u64 = rhs.into_inner() as u64;
        assert(a * b <= 0x00FF_FFFF * 0x00FF_FFFF) by (nonlinear_arith)
            requires
                a <= 0x00FF_FFFF,
                b <= 0x00FF_FFFF,
        {}
        let low: u64 = (a * b) % 0x100_0000;
        proof {
            u24::lemma_spec_new_congruent(low as nat, self@ * rhs@);
        }
        u24::from(low as u32)
    }
}

impl vstd::std_specs::ops::MulSpecImpl for u24 {
    open spec fn obeys_mul_spec() -> bool {
        true
    }

    open spec fn mul_req(self, rhs: u24) -> bool {
        true
    }

    open spec fn mul_spec(self, rhs: u24) -> u24 {
        u24::spec_new(self@ * rhs@)
    }
}

impl core::ops::MulAssign for u24 {
    /// Replaces the value by the product modulo 2^24.
    fn mul_assign(&mut self, rhs: u24)
        ensures
            final(self).wf(),
            final(self)@ == (old(self)@ * rhs@) % modulus(),
    {
        *self = *self * rhs;
    }
}

impl core::ops::Div for u24 {
    type Output = u24;

    /// The quotient, rounded down.
    fn div(self, rhs: u24) -> (r: u24)
        ensures
            r.wf(),
            r@ == self@ / rhs@,
    {
        broadcast use u24::lemma_spec_new;

        u24::from(self.into_inner() / rhs.into_inner())
    }
}

impl vstd::std_specs::ops::DivSpecImpl for u24 {
    open spec fn obeys_div_spec() -> bool {
        true
    }

    open spec fn div_req(self, rhs: u24) -> bool {
        rhs@ != 0
    }

    open spec fn div_spec(self, rhs: u24) -> u24 {
        u24::spec_new(self@ / rhs@)
    }
}

impl core::ops::DivAssign for u24 {
    /// Replaces the value by the quotient, rounded down.
    fn div_assign(&mut self, rhs: u24)
        requires
            rhs@ != 0,
        ensures
            final(self).wf(),
            final(self)@ == old(self)@ / rhs@,
    {
        *self = *self / rhs;
    }
}

impl core::ops::Rem for u24 {
    type Output = u24;

    /// The remainder of the division.
    fn rem(self, rhs: u24) -> (r: u24)
        ensures
            r.wf(),
            r@ == self@ % rhs@,
    {
        broadcast use u24::lemma_spec_new;

        u24::from(self.into_inner() % rhs.into_inner())
    }
}

impl vstd::std_specs::ops::RemSpecImpl for u24 {
    open spec fn obeys_rem_spec() -> bool {
        true
    }

    open spec fn rem_req(self, rhs: u24) -> bool {
        rhs@ != 0
    }

    open spec fn rem_spec(self, rhs: u24) -> u24 {
        u24::spec_new(self@ % rhs@)
    }
}

impl core::ops::RemAssign for u24 {
    /// Replaces the value by the remainder of the division.
    fn rem_assign(&mut self, rhs: u24)
        requires
            rhs@ != 0,
        ensures
            final(self).wf(),
            final(self)@ == old(self)@ % rhs@,
    {
        *self = *self % rhs;
    }
}

impl core::ops::BitAnd for u24 {
    type Output = u24;

    /// The bits set in both operands.
    fn bitand(self, rhs: u24) -> (r: u24)
        ensures
            r.wf(),
            r@ == (self@ as u32) & (rhs@ as u32),
    {
        broadcast use u24::lemma_spec_new;

        let a: u32 = self.into_inner();
        let b: u32 = rhs.into_inner();
        assert(a & b <= 0x00FF_FFFF) by (bit_vector)
            requires
                a <= 0x00FF_FFFF,
                b <= 0x00FF_FFFF,
        ;
        u24::from(a & b)
    }
}

impl vstd::std_specs::ops::BitAndSpecImpl for u24 {
    open spec fn obeys_bitand_spec() -> bool {
        true
    }

    open spec fn bitand_req(self, rhs: u24) -> bool {
        true
    }

    open spec fn bitand_spec(self, rhs: u24) -> u24 {
        u24::spec_new(((self@ as u32) & (rhs@ as u32)) as nat)
    }
}

impl core::ops::BitAndAssign for u24 {
    /// Keeps the bits set in both operands.
    fn bitand_assign(&mut self, rhs: u24)
        ensures
            final(self).wf(),
            final(self)@ == (old(self)@ as u32) & (rhs@ as u32),
    {
        *self = *self & rhs;
    }
}

impl core::ops::BitOr for u24 {
    type Output = u24;

    /// The bits set in either operand.
    fn bitor(self, rhs: u24) -> (r: u24)
        ensures
            r.wf(),
            r@ == (self@ as u32) | (rhs@ as u32),
    {
        broadcast use u24::lemma_spec_new;

        let a: u32 = self.into_inner();
        let b: u32 = rhs.into_inner();
        assert(a | b <= 0x00FF_FFFF) by (bit_vector)
            requires
                a <= 0x00FF_FFFF,
                b <= 0x00FF_FFFF,
        ;
        u24::from(a | b)
    }
}

impl vstd::std_specs::ops::BitOrSpecImpl for u24 {
    open spec fn obeys_bitor_spec() -> bool {
        true
    }

    open spec fn bitor_req(self, rhs: u24) -> bool {
        true
    }

    open spec fn bitor_spec(self, rhs: u24) -> u24 {
        u24::spec_new(((self@ as u32) | (rhs@ as u32)) as nat)
    }
}

impl core::ops::BitOrAssign for u24 {
    /// Keeps the bits set in either operand.
    fn bitor_assign(&mut self, rhs: u24)
        ensures
            final(self).wf(),
            final(self)@ == (old(self)@ as u32) | (rhs@ as u32),
    {
        *self = *self | rhs;
    }
}

impl core::ops::BitXor for u24 {
    type Output = u24;

    /// The bits set in exactly one operand.
    fn bitxor(self, rhs: u24) -> (r: u24)
        ensures
            r.wf(),
            r@ == (self@ as u32) ^ (rhs@ as u32),
    {
        broadcast use u24::lemma_spec_new;

        let a: u32 = self.into_inner();
        let b: u32 = rhs.into_inner();
        assert(a ^ b <= 0x00FF_FFFF) by (bit_vector)
            requires
                a <= 0x00FF_FFFF,
                b <= 0x00FF_FFFF,
        ;
        u24::from(a ^ b)
    }
}

impl vstd::std_specs::ops::BitXorSpecImpl for u24 {
    open spec fn obeys_bitxor_spec() -> bool {
        true
    }

    open spec fn bitxor_req(self, rhs: u24) -> bool {
        true
    }

    open spec fn bitxor_spec(self, rhs: u24) -> u24 {
        u24::spec_new(((self@ as u32) ^ (rhs@ as u32)) as nat)
    }
}

impl core::ops::BitXorAssign for u24 {
    /// Keeps the bits set in exactly one operand.
    fn bitxor_assign(&mut self, rhs: u24)
        ensures
            final(self).wf(),
            final(self)@ == (old(self)@ as u32) ^ (rhs@ as u32),
    {
        *self = *self ^ rhs;
    }
}

impl core::ops::Not for u24 {
    type Output = u24;

    /// The 24 bits inverted.
    fn not(self) -> (r: u24)
        ensures
            r.wf(),
            r@ == modulus() - 1 - self@,
    {
        broadcast use u24::lemma_spec_new;

        let a: u32 = self.into_inner();
        assert((!a) % 0x100_0000 == 0x00FF_FFFF - a) by (bit_vector)
            requires
                a <= 0x00FF_FFFF,
        ;
        proof {
            u24::lemma_spec_new_congruent((!a) as nat, (modulus() - 1 - self@) as nat);
        }
        u24::from(!a)
    }
}

impl vstd::std_specs::ops::NotSpecImpl for u24 {
    open spec fn obeys_not_spec() -> bool {
        true
    }

    open spec fn not_req(self) -> bool {
        true
    }

    open spec fn not_spec(self) -> u24 {
        u24::spec_new((modulus() - 1 - self@) as nat)
    }
}

} // verus!
