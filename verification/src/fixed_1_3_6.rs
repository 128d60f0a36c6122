//! Signed 1.3.6 fixed-point value (10 significant bits, 6 fractional bits)
//! stored in the packed short vertex command. Every operation masks the
//! result to 10 bits and propagates the sign bit, so the raw value always
//! lies in -512..=511 (the same rule as the 1.0.9 format, which shares the
//! 10-bit width).

use crate::fixed_1_0_9::propagate_sign;
use crate::fixed_1_0_9::sign_prop9;
use crate::lebytes::euclid_mod64;
use crate::lebytes::floor_div64;
use crate::lebytes::i16_bits;
use crate::lebytes::u16_of_i16;
use vstd::bytes::spec_u16_to_le_bytes;
use vstd::bytes::u16_to_le_bytes;
use vstd::prelude::*;

verus! {

#[derive(Clone, Copy, Debug, PartialEq, Eq, Structural)]
pub struct Fixed1_3_6 {
    pub value: i16,
}

impl Fixed1_3_6 {
    pub fn from_i16(value: i16) -> (r: Self)
        ensures
            r.value == sign_prop9(value as int),
    {
        Fixed1_3_6 { value: propagate_sign(value as i64) }
    }

    pub fn to_i16(&self) -> (r: i16)
        ensures
            r == self.value,
    {
        self.value
    }

    /// Integer part: the raw value arithmetically shifted past the 6
    /// fractional bits.
    pub fn get_int(&self) -> (r: i16)
        ensures
            r == self.value as int / 64,
    {
        let q = floor_div64(self.value as i64, 64);
        q as i16
    }

    /// Fractional part: the low 6 bits of the raw value.
    pub fn get_frac(&self) -> (r: i16)
        ensures
            r == self.value as int % 64,
    {
        let m = euclid_mod64(self.value as i64, 64);
        m as i16
    }

    pub fn add(self, rhs: Self) -> (r: Self)
        ensures
            r.value == sign_prop9(self.value + rhs.value),
    {
        Fixed1_3_6 { value: propagate_sign(self.value as i64 + rhs.value as i64) }
    }

    pub fn sub(self, rhs: Self) -> (r: Self)
        ensures
            r.value == sign_prop9(self.value - rhs.value),
    {
        Fixed1_3_6 { value: propagate_sign(self.value as i64 - rhs.value as i64) }
    }

    pub fn mul(self, rhs: Self) -> (r: Self)
        ensures
            r.value == sign_prop9((self.value * rhs.value) / 64),
    {
        proof {
            let a = self.value as int;
            let b = rhs.value as int;
            assert((-0x8000 <= a <= 0x7FFF && -0x8000 <= b <= 0x7FFF) ==> -0x4000_0000 <= a * b
                <= 0x4000_0000) by (nonlinear_arith);
        }
        let p = (self.value as i64) * (rhs.value as i64);
        let q = floor_div64(p, 64);
        Fixed1_3_6 { value: propagate_sign(q) }
    }

    pub fn to_le_bytes(&self) -> (r: [u8; 2])
        ensures
            r@ == spec_u16_to_le_bytes(u16_of_i16(self.value as int) as u16),
    {
        let b = u16_to_le_bytes(i16_bits(self.value));
        let r = [b[0], b[1]];
        assert(r@ =~= spec_u16_to_le_bytes(u16_of_i16(self.value as int) as u16));
        r
    }
}

impl Default for Fixed1_3_6 {
    fn default() -> (r: Self)
        ensures
            r.value == 0,
    {
        Fixed1_3_6 { value: 0 }
    }
}

} // verus!
