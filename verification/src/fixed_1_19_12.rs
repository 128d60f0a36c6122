//! Signed 1.19.12 fixed-point value (32 bits, 12 fractional bits) with
//! wrapping arithmetic, stored in translations, scales and inverse-bind
//! matrices.

use crate::lebytes::euclid_mod64;
use crate::lebytes::floor_div64;
use crate::lebytes::i32_bits;
use crate::lebytes::spec_trunc_div;
use crate::lebytes::trunc_div64;
use crate::lebytes::u32_of_i32;
use crate::lebytes::wrap32;
use crate::lebytes::wrap_to_i32;
use vstd::bytes::spec_u32_to_le_bytes;
use vstd::bytes::u32_to_le_bytes;
use vstd::prelude::*;

verus! {

#[derive(Clone, Copy, Debug, PartialEq, Eq, Structural)]
pub struct Fixed1_19_12 {
    pub value: i32,
}

impl Fixed1_19_12 {
    pub fn from_i32(value: i32) -> (r: Self)
        ensures
            r.value == value,
    {
        Fixed1_19_12 { value }
    }

    pub fn to_i32(&self) -> (r: i32)
        ensures
            r == self.value,
    {
        self.value
    }

    /// Integer part: the raw value arithmetically shifted past the 12
    /// fractional bits.
    pub fn get_int(&self) -> (r: i32)
        ensures
            r == self.value as int / 4096,
    {
        let q = floor_div64(self.value as i64, 4096);
        q as i32
    }

    /// Fractional part: the low 12 bits of the raw value.
    pub fn get_frac(&self) -> (r: i32)
        ensures
            r == self.value as int % 4096,
    {
        let m = euclid_mod64(self.value as i64, 4096);
        m as i32
    }

    pub fn add(self, rhs: Self) -> (r: Self)
        ensures
            r.value == wrap32(self.value + rhs.value),
    {
        Fixed1_19_12 { value: wrap_to_i32(self.value as i64 + rhs.value as i64) }
    }

    pub fn sub(self, rhs: Self) -> (r: Self)
        ensures
            r.value == wrap32(self.value - rhs.value),
    {
        Fixed1_19_12 { value: wrap_to_i32(self.value as i64 - rhs.value as i64) }
    }

    pub fn mul(self, rhs: Self) -> (r: Self)
        ensures
            r.value == wrap32((self.value * rhs.value) / 4096),
    {
        proof {
            let a = self.value as int;
            let b = rhs.value as int;
            assert((-0x8000_0000 <= a <= 0x7FFF_FFFF && -0x8000_0000 <= b <= 0x7FFF_FFFF)
                ==> -0x4000_0000_0000_0000 <= a * b <= 0x4000_0000_0000_0000) by (nonlinear_arith);
        }
        let p = (self.value as i64) * (rhs.value as i64);
        let q = floor_div64(p, 4096);
        Fixed1_19_12 { value: wrap_to_i32(q) }
    }

    pub fn div(self, rhs: Self) -> (r: Self)
        requires
            rhs.value != 0,
        ensures
            r.value == wrap32(spec_trunc_div(self.value * 4096, rhs.value as int)),
    {
        let q = trunc_div64((self.value as i64) * 4096, rhs.value as i64);
        Fixed1_19_12 { value: wrap_to_i32(q) }
    }

    pub fn to_le_bytes(&self) -> (r: [u8; 4])
        ensures
            r@ == spec_u32_to_le_bytes(u32_of_i32(self.value as int) as u32),
    {
        let b = u32_to_le_bytes(i32_bits(self.value));
        let r = [b[0], b[1], b[2], b[3]];
        assert(r@ =~= spec_u32_to_le_bytes(u32_of_i32(self.value as int) as u32));
        r
    }
}

impl Default for Fixed1_19_12 {
    fn default() -> (r: Self)
        ensures
            r.value == 0,
    {
        Fixed1_19_12 { value: 0 }
    }
}

} // verus!
