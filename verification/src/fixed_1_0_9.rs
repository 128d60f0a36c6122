//! Signed 1.0.9 fixed-point value (10 significant bits, 9 fractional bits)
//! stored in normal vectors. Every operation masks the result to 10 bits and
//! propagates the sign bit, so the raw value always lies in -512..=511.

use crate::lebytes::euclid_mod64;
use crate::lebytes::floor_div64;
use crate::lebytes::i16_bits;
use crate::lebytes::u16_of_i16;
use vstd::bytes::spec_u16_to_le_bytes;
use vstd::bytes::u16_to_le_bytes;
use vstd::prelude::*;

verus! {

/// The 10-bit two's-complement value stored in the low bits of `v`.
pub open spec fn sign_prop9(v: int) -> int {
    let m = v % 1024;
    if m >= 512 {
        m - 1024
    } else {
        m
    }
}

/// Re-reading a stored raw value gives it back unchanged: the
/// sign-propagated form is a fixed point of the mask-and-extend rule, so
/// raw values round-trip through `from_i16` and `to_i16`.
pub proof fn lemma_sign_prop9_idempotent(v: int)
    ensures
        sign_prop9(sign_prop9(v)) == sign_prop9(v),
{
    let m = v % 1024;
    vstd::arithmetic::div_mod::lemma_mod_bound(v, 1024);
    if m >= 512 {
        vstd::arithmetic::div_mod::lemma_fundamental_div_mod_converse(m - 1024, 1024, -1, m);
    } else {
        vstd::arithmetic::div_mod::lemma_small_mod(m as nat, 1024);
    }
}

#[derive(Clone, Copy, Debug, PartialEq, Eq, Structural)]
pub struct Fixed1_0_9 {
    pub value: i16,
}

impl Fixed1_0_9 {
    pub fn from_i16(value: i16) -> (r: Self)
        ensures
            r.value == sign_prop9(value as int),
    {
        Fixed1_0_9 { value: propagate_sign(value as i64) }
    }

    pub fn to_i16(&self) -> (r: i16)
        ensures
            r == self.value,
    {
        self.value
    }

    /// Integer part: the raw value arithmetically shifted past the 9
    /// fractional bits.
    pub fn get_int(&self) -> (r: i16)
        ensures
            r == self.value as int / 512,
    {
        let q = floor_div64(self.value as i64, 512);
        q as i16
    }

    /// Fractional part: the low 9 bits of the raw value.
    pub fn get_frac(&self) -> (r: i16)
        ensures
            r == self.value as int % 512,
    {
        let m = euclid_mod64(self.value as i64, 512);
        m as i16
    }

    pub fn add(self, rhs: Self) -> (r: Self)
        ensures
            r.value == sign_prop9(self.value + rhs.value),
    {
        Fixed1_0_9 { value: propagate_sign(self.value as i64 + rhs.value as i64) }
    }

    pub fn sub(self, rhs: Self) -> (r: Self)
        ensures
            r.value == sign_prop9(self.value - rhs.value),
    {
        Fixed1_0_9 { value: propagate_sign(self.value as i64 - rhs.value as i64) }
    }

    pub fn mul(self, rhs: Self) -> (r: Self)
        ensures
            r.value == sign_prop9((self.value * rhs.value) / 512),
    {
        proof {
            let a = self.value as int;
            let b = rhs.value as int;
            assert((-0x8000 <= a <= 0x7FFF && -0x8000 <= b <= 0x7FFF) ==> -0x4000_0000 <= a * b
                <= 0x4000_0000) by (nonlinear_arith);
        }
        let p = (self.value as i64) * (rhs.value as i64);
        let q = floor_div64(p, 512);
        Fixed1_0_9 { value: propagate_sign(q) }
    }

    pub fn to_le_bytes(&self) -> (r: [u8; 2])
        ensures
            r@ == spec_u16_to_le_bytes(u16_of_i16(self.value as int) as u16),
    {
        let b = u16_to_le_bytes(i16_bits(self.value));
        let r = [b[0], b[1]];
        assert(r@ =~= spec_u16_to_le_bytes(u16_of_i16(self.value as int) as u16));
        r
    }
}

impl Default for Fixed1_0_9 {
    fn default() -> (r: Self)
        ensures
            r.value == 0,
    {
        Fixed1_0_9 { value: 0 }
    }
}

pub(crate) fn propagate_sign(v: i64) -> (r: i16)
    requires
        v > i64::MIN,
    ensures
        r == sign_prop9(v as int),
{
    let m = euclid_mod64(v, 1024);
    if m >= 512 {
        (m as i64 - 1024) as i16
    } else {
        m as i16
    }
}

} // verus!
