//! Little-endian byte access, two's-complement reinterpretation, and
//! floor-division helpers shared by every codec in the crate.

use vstd::arithmetic::div_mod::lemma_fundamental_div_mod;
use vstd::arithmetic::div_mod::lemma_fundamental_div_mod_converse;
use vstd::bytes::*;
use vstd::pervasive::VecAdditionalExecFns;
use vstd::prelude::*;
use vstd::slice::slice_subrange;

verus! {

pub fn read_u8(bytes: &[u8], pos: usize) -> (r: u8)
    requires
        pos < bytes@.len(),
    ensures
        r == bytes@[pos as int],
{
    *vstd::slice::slice_index_get(bytes, pos)
}

pub fn read_u16(bytes: &[u8], pos: usize) -> (r: u16)
    requires
        pos + 2 <= bytes@.len(),
    ensures
        r == spec_u16_from_le_bytes(bytes@.subrange(pos as int, pos + 2)),
{
    let n = bytes.len();
    assert(pos + 2 <= n);
    u16_from_le_bytes(slice_subrange(bytes, pos, pos + 2))
}

pub fn read_u32(bytes: &[u8], pos: usize) -> (r: u32)
    requires
        pos + 4 <= bytes@.len(),
    ensures
        r == spec_u32_from_le_bytes(bytes@.subrange(pos as int, pos + 4)),
{
    let n = bytes.len();
    assert(pos + 4 <= n);
    u32_from_le_bytes(slice_subrange(bytes, pos, pos + 4))
}

/// Writes `x` at `buffer[pos..pos + 2]`, little-endian; the rest of the
/// buffer is untouched.
pub fn write_u16(buffer: &mut Vec<u8>, pos: usize, x: u16)
    requires
        pos + 2 <= old(buffer)@.len(),
    ensures
        final(buffer)@.len() == old(buffer)@.len(),
        final(buffer)@.subrange(pos as int, pos + 2) == spec_u16_to_le_bytes(x),
        forall|i: int|
            0 <= i < final(buffer)@.len() && !(pos <= i < pos + 2) ==> final(buffer)@[i]
                == old(buffer)@[i],
{
    proof {
        lemma_auto_spec_u16_to_from_le_bytes();
    }
    let n = buffer.len();
    assert(pos + 2 <= n);
    let b = u16_to_le_bytes(x);
    buffer.set(pos, b[0]);
    buffer.set(pos + 1, b[1]);
    assert(buffer@.subrange(pos as int, pos + 2) =~= spec_u16_to_le_bytes(x));
}

/// Writes `x` at `buffer[pos..pos + 4]`, little-endian; the rest of the
/// buffer is untouched.
pub fn write_u32(buffer: &mut Vec<u8>, pos: usize, x: u32)
    requires
        pos + 4 <= old(buffer)@.len(),
    ensures
        final(buffer)@.len() == old(buffer)@.len(),
        final(buffer)@.subrange(pos as int, pos + 4) == spec_u32_to_le_bytes(x),
        forall|i: int|
            0 <= i < final(buffer)@.len() && !(pos <= i < pos + 4) ==> final(buffer)@[i]
                == old(buffer)@[i],
{
    proof {
        lemma_auto_spec_u32_to_from_le_bytes();
    }
    let n = buffer.len();
    assert(pos + 4 <= n);
    let b = u32_to_le_bytes(x);
    buffer.set(pos, b[0]);
    buffer.set(pos + 1, b[1]);
    buffer.set(pos + 2, b[2]);
    buffer.set(pos + 3, b[3]);
    assert(buffer@.subrange(pos as int, pos + 4) =~= spec_u32_to_le_bytes(x));
}

/// Writes one byte at `buffer[pos]`.
pub fn write_u8(buffer: &mut Vec<u8>, pos: usize, x: u8)
    requires
        pos < old(buffer)@.len(),
    ensures
        final(buffer)@ == old(buffer)@.update(pos as int, x),
{
    buffer.set(pos, x);
}

/// The unsigned 16-bit pattern that stores the two's-complement value `x`.
pub open spec fn u16_of_i16(x: int) -> int {
    if x >= 0 {
        x
    } else {
        x + 0x10000
    }
}

/// The two's-complement value stored by the unsigned 16-bit pattern `u`.
pub open spec fn i16_of_u16(u: int) -> int {
    if u < 0x8000 {
        u
    } else {
        u - 0x10000
    }
}

/// The unsigned 32-bit pattern that stores the two's-complement value `x`.
pub open spec fn u32_of_i32(x: int) -> int {
    if x >= 0 {
        x
    } else {
        x + 0x1_0000_0000
    }
}

/// The two's-complement value stored by the unsigned 32-bit pattern `u`.
pub open spec fn i32_of_u32(u: int) -> int {
    if u < 0x8000_0000 {
        u
    } else {
        u - 0x1_0000_0000
    }
}

pub fn i16_bits(x: i16) -> (r: u16)
    ensures
        r == u16_of_i16(x as int),
{
    if x >= 0 {
        x as u16
    } else {
        ((x as i32) + 0x10000) as u16
    }
}

pub fn i16_from_bits(u: u16) -> (r: i16)
    ensures
        r == i16_of_u16(u as int),
{
    if u < 0x8000 {
        u as i16
    } else {
        ((u as i32) - 0x10000) as i16
    }
}

pub fn i32_bits(x: i32) -> (r: u32)
    ensures
        r == u32_of_i32(x as int),
{
    if x >= 0 {
        x as u32
    } else {
        ((x as i64) + 0x1_0000_0000) as u32
    }
}

pub fn i32_from_bits(u: u32) -> (r: i32)
    ensures
        r == i32_of_u32(u as int),
{
    if u < 0x8000_0000 {
        u as i32
    } else {
        ((u as i64) - 0x1_0000_0000) as i32
    }
}

/// Euclidean (floor) division of `x` by a positive divisor, matching the
/// arithmetic right shift of the hardware formats for power-of-two divisors.
pub fn floor_div64(x: i64, d: u64) -> (r: i64)
    requires
        1 <= d <= 0x1_0000_0000,
        x > i64::MIN,
    ensures
        r == (x as int) / (d as int),
{
    if x >= 0 {
        let q = (x as u64) / d;
        assert((x as int) / (d as int) == q) by {
            lemma_fundamental_div_mod(x as int, d as int);
        };
        q as i64
    } else {
        let m = (-x) as u64;
        let mut q = m / d;
        if m % d != 0 {
            q = q + 1;
        }
        proof {
            let di = d as int;
            let mi = m as int;
            let k = mi / di;
            let rr = mi % di;
            lemma_fundamental_div_mod(mi, di);
            // -q is the floor of -m / d: either -m == (-k) * d exactly,
            // or -m == (-k - 1) * d + (d - rr) with 0 < d - rr < d.
            assert(k >= 0 && di >= 1 ==> k * di >= k) by (nonlinear_arith);
            if rr == 0 {
                assert((-k) * di == -(k * di)) by (nonlinear_arith);
                lemma_fundamental_div_mod_converse(-mi, di, -k, 0);
                assert(q == k <= mi);
            } else {
                assert((-k - 1) * di == -(k * di) - di) by (nonlinear_arith);
                lemma_fundamental_div_mod_converse(-mi, di, -k - 1, di - rr);
                assert(q == k + 1 <= mi);
            }
        }
        -(q as i64)
    }
}

/// Euclidean remainder of `x` modulo a positive divisor: the value of the
/// low bits kept by a power-of-two mask.
pub fn euclid_mod64(x: i64, d: u64) -> (r: u64)
    requires
        1 <= d <= 0x1_0000_0000,
        x > i64::MIN,
    ensures
        r == (x as int) % (d as int),
        r < d,
{
    if x >= 0 {
        let r = (x as u64) % d;
        assert((x as int) % (d as int) == r) by {
            lemma_fundamental_div_mod(x as int, d as int);
        };
        r
    } else {
        let neg = (-x) as u64;
        let m = neg % d;
        proof {
            let di = d as int;
            let k = (neg as int) / di;
            lemma_fundamental_div_mod(neg as int, di);
            if m == 0 {
                assert((-k) * di == -(k * di)) by (nonlinear_arith);
                lemma_fundamental_div_mod_converse(x as int, di, -k, 0);
            } else {
                assert((-k - 1) * di == -(k * di) - di) by (nonlinear_arith);
                lemma_fundamental_div_mod_converse(x as int, di, -k - 1, di - m);
            }
        }
        if m == 0 {
            0
        } else {
            d - m
        }
    }
}

/// Division rounding toward zero, as the hardware's signed divide does.
pub open spec fn spec_trunc_div(a: int, b: int) -> int {
    let aa = if a < 0 {
        -a
    } else {
        a
    };
    let bb = if b < 0 {
        -b
    } else {
        b
    };
    if (a < 0) == (b < 0) {
        aa / bb
    } else {
        -(aa / bb)
    }
}

pub fn trunc_div64(a: i64, b: i64) -> (r: i64)
    requires
        b != 0,
        a > i64::MIN,
        b > i64::MIN,
    ensures
        r == spec_trunc_div(a as int, b as int),
{
    let aa: u64 = if a >= 0 {
        a as u64
    } else {
        (-a) as u64
    };
    let bb: u64 = if b >= 0 {
        b as u64
    } else {
        (-b) as u64
    };
    let q = aa / bb;
    proof {
        lemma_fundamental_div_mod(aa as int, bb as int);
        assert((q as int) >= 0 && (bb as int) >= 1 ==> (q as int) * (bb as int) >= q as int)
            by (nonlinear_arith);
    }
    if (a >= 0) == (b >= 0) {
        q as i64
    } else {
        -(q as i64)
    }
}

/// `x` reduced to the two's-complement range of 16 bits.
pub open spec fn wrap16(x: int) -> int {
    i16_of_u16(x % 0x10000)
}

/// `x` reduced to the two's-complement range of 32 bits.
pub open spec fn wrap32(x: int) -> int {
    i32_of_u32(x % 0x1_0000_0000)
}

pub fn wrap_to_i16(x: i64) -> (r: i16)
    requires
        x > i64::MIN,
    ensures
        r == wrap16(x as int),
{
    let m = euclid_mod64(x, 0x10000);
    i16_from_bits(m as u16)
}

pub fn wrap_to_i32(x: i64) -> (r: i32)
    requires
        x > i64::MIN,
    ensures
        r == wrap32(x as int),
{
    let m = euclid_mod64(x, 0x1_0000_0000);
    i32_from_bits(m as u32)
}

} // verus!
