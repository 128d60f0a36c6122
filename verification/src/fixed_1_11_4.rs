//! Signed 1.11.4 fixed-point value (16 bits, 4 fractional bits) with
//! wrapping arithmetic, stored in texture coordinates.

use crate::lebytes::euclid_mod64;
use crate::lebytes::floor_div64;
use crate::lebytes::i16_bits;
use crate::lebytes::spec_trunc_div;
use crate::lebytes::trunc_div64;
use crate::lebytes::u16_of_i16;
use crate::lebytes::wrap16;
use crate::lebytes::wrap_to_i16;
use vstd::bytes::spec_u16_to_le_bytes;
use vstd::bytes::u16_to_le_bytes;
use vstd::prelude::*;

verus! {

#[derive(Clone, Copy, Debug, PartialEq, Eq, Structural)]
pub struct Fixed1_11_4 {
    pub value: i16,
}

impl Fixed1_11_4 {
    pub fn from_i16(value: i16) -> (r: Self)
        ensures
            r.value == value,
    {
        Fixed1_11_4 { value }
    }

    pub fn to_i16(&self) -> (r: i16)
        ensures
            r == self.value,
    {
        self.value
    }

    /// Integer part: the raw value arithmetically shifted past the 4
    /// fractional bits.
    pub fn get_int(&self) -> (r: i16)
        ensures
            r == self.value as int / 16,
    {
        let q = floor_div64(self.value as i64, 16);
        q as i16
    }

    /// Fractional part: the low 4 bits of the raw value.
    pub fn get_frac(&self) -> (r: i16)
        ensures
            r == self.value as int % 16,
    {
        let m = euclid_mod64(self.value as i64, 16);
        m as i16
    }

    pub fn add(self, rhs: Self) -> (r: Self)
        ensures
            r.value == wrap16(self.value + rhs.value),
    {
        Fixed1_11_4 { value: wrap_to_i16(self.value as i64 + rhs.value as i64) }
    }

    pub fn sub(self, rhs: Self) -> (r: Self)
        ensures
            r.value == wrap16(self.value - rhs.value),
    {
        Fixed1_11_4 { value: wrap_to_i16(self.value as i64 - rhs.value as i64) }
    }

    pub fn mul(self, rhs: Self) -> (r: Self)
        ensures
            r.value == wrap16((self.value * rhs.value) / 16),
    {
        proof {
            let a = self.value as int;
            let b = rhs.value as int;
            assert((-0x8000 <= a <= 0x7FFF && -0x8000 <= b <= 0x7FFF) ==> -0x4000_0000 <= a * b
                <= 0x4000_0000) by (nonlinear_arith);
        }
        let p = (self.value as i64) * (rhs.value as i64);
        let q = floor_div64(p, 16);
        Fixed1_11_4 { value: wrap_to_i16(q) }
    }

    pub fn div(self, rhs: Self) -> (r: Self)
        requires
            rhs.value != 0,
        ensures
            r.value == wrap16(spec_trunc_div(self.value * 16, rhs.value as int)),
    {
        let q = trunc_div64((self.value as i64) * 16, rhs.value as i64);
        Fixed1_11_4 { value: wrap_to_i16(q) }
    }

    pub fn to_le_bytes(&self) -> (r: [u8; 2])
        ensures
            r@ == spec_u16_to_le_bytes(u16_of_i16(self.value as int) as u16),
    {
        let b = u16_to_le_bytes(i16_bits(self.value));
        let r = [b[0], b[1]];
        assert(r@ =~= spec_u16_to_le_bytes(u16_of_i16(self.value as int) as u16));
        r
    }
}

impl Default for Fixed1_11_4 {
    fn default() -> (r: Self)
        ensures
            r.value == 0,
    {
        Fixed1_11_4 { value: 0 }
    }
}

} // verus!
