//! Parameter payloads of the GPU command stream: one struct per opcode that
//! carries data, each with its exact byte encoding.

use crate::error::AppError;
use crate::fixed_1_0_9::Fixed1_0_9;
use crate::fixed_1_0_9::sign_prop9;
use crate::fixed_1_11_4::Fixed1_11_4;
use crate::fixed_1_19_12::Fixed1_19_12;
use crate::fixed_1_3_12::Fixed1_3_12;
use crate::fixed_1_3_6::Fixed1_3_6;
use crate::lebytes::i16_from_bits;
use crate::lebytes::i32_from_bits;
use crate::lebytes::i16_bits;
use crate::lebytes::i32_bits;
use crate::lebytes::u16_of_i16;
use crate::lebytes::u32_of_i32;
use crate::lebytes::i16_of_u16;
use crate::lebytes::i32_of_u32;
use crate::lebytes::read_u32;
use crate::lebytes::write_u32;
use vstd::arithmetic::div_mod::lemma_fundamental_div_mod_converse;
use vstd::arithmetic::div_mod::lemma_div_denominator;
use vstd::bytes::lemma_auto_spec_u32_to_from_le_bytes;
use vstd::bytes::spec_u32_from_le_bytes;
use vstd::bytes::spec_u32_to_le_bytes;
use vstd::prelude::*;

verus! {

/// Two 16-bit lanes packed into one 32-bit word.
pub open spec fn pack2x16(lo: int, hi: int) -> int {
    lo + 0x10000 * hi
}

/// Three 10-bit lanes packed into the low 30 bits of one word.
pub open spec fn pack3x10(a: int, b: int, c: int) -> int {
    a + 0x400 * b + 0x100000 * c
}

/// Three 5-bit colour lanes packed into the low 15 bits of one word.
pub open spec fn pack3x5(a: int, b: int, c: int) -> int {
    a + 0x20 * b + 0x400 * c
}

pub proof fn lemma_pack2x16(lo: int, hi: int)
    requires
        0 <= lo < 0x10000,
        0 <= hi < 0x10000,
    ensures
        0 <= pack2x16(lo, hi) < 0x1_0000_0000,
        pack2x16(lo, hi) % 0x10000 == lo,
        pack2x16(lo, hi) / 0x10000 == hi,
{
    assert(0x10000 * hi == hi * 0x10000) by (nonlinear_arith);
    assert((0 <= hi < 0x10000) ==> 0 <= hi * 0x10000 <= 0xFFFF * 0x10000) by (nonlinear_arith);
    lemma_fundamental_div_mod_converse(pack2x16(lo, hi), 0x10000, hi, lo);
}

pub proof fn lemma_pack3x10(a: int, b: int, c: int)
    requires
        0 <= a < 0x400,
        0 <= b < 0x400,
        0 <= c < 0x400,
    ensures
        0 <= pack3x10(a, b, c) < 0x1_0000_0000,
        pack3x10(a, b, c) % 0x400 == a,
        (pack3x10(a, b, c) / 0x400) % 0x400 == b,
        (pack3x10(a, b, c) / 0x100000) % 0x400 == c,
{
    let p = pack3x10(a, b, c);
    let q = b + 0x400 * c;
    assert(0x400 * q == q * 0x400 && 0x400 * b == b * 0x400 && 0x400 * c == c * 0x400
        && 0x100000 * c == (c * 0x400) * 0x400) by (nonlinear_arith);
    assert((q == b + 0x400 * c && 0 <= b < 0x400 && 0 <= c < 0x400) ==> 0 <= q < 0x400 * 0x400)
        by (nonlinear_arith);
    assert(0 <= q < 0x400 * 0x400 ==> q * 0x400 <= (0x400 * 0x400 - 1) * 0x400)
        by (nonlinear_arith);
    lemma_fundamental_div_mod_converse(p, 0x400, q, a);
    lemma_fundamental_div_mod_converse(q, 0x400, c, b);
    lemma_div_denominator(p, 0x400, 0x400);
}

pub proof fn lemma_pack3x5(a: int, b: int, c: int)
    requires
        0 <= a < 0x20,
        0 <= b < 0x20,
        0 <= c < 0x20,
    ensures
        0 <= pack3x5(a, b, c) < 0x1_0000_0000,
        pack3x5(a, b, c) % 0x20 == a,
        (pack3x5(a, b, c) / 0x20) % 0x20 == b,
        (pack3x5(a, b, c) / 0x400) % 0x20 == c,
{
    let p = pack3x5(a, b, c);
    let q = b + 0x20 * c;
    assert(0x20 * q == q * 0x20 && 0x20 * b == b * 0x20 && 0x20 * c == c * 0x20 && 0x400 * c == (c
        * 0x20) * 0x20) by (nonlinear_arith);
    assert((q == b + 0x20 * c && 0 <= b < 0x20 && 0 <= c < 0x20) ==> 0 <= q < 0x20 * 0x20)
        by (nonlinear_arith);
    assert(0 <= q < 0x20 * 0x20 ==> q * 0x20 <= (0x20 * 0x20 - 1) * 0x20) by (nonlinear_arith);
    lemma_fundamental_div_mod_converse(p, 0x20, q, a);
    lemma_fundamental_div_mod_converse(q, 0x20, c, b);
    lemma_div_denominator(p, 0x20, 0x20);
}


/// Undecoded single-word payload of opcode 0x10.
#[derive(Clone, Copy, Debug, PartialEq, Eq, Structural)]
pub struct Unknown0x10Params {
    pub unknown: u32,
}

impl Unknown0x10Params {
    pub open spec fn enc(self) -> Seq<u8> {
        spec_u32_to_le_bytes(self.unknown)
    }

    pub open spec fn dec(bytes: Seq<u8>) -> Self {
        (Unknown0x10Params {
            unknown: spec_u32_from_le_bytes(bytes.subrange(0, 4)),
        })
    }

    pub fn from_bytes(bytes: &[u8]) -> (r: Result<Unknown0x10Params, AppError>)
        ensures
            r is Ok <==> bytes@.len() >= 4,
            r is Ok ==> r->Ok_0 == Unknown0x10Params::dec(bytes@),
    {
        if bytes.len() < 4 {
            return Err(AppError::new("Unknown0x10Params needs at least 4 bytes"));
        }
        Ok(Unknown0x10Params {
            unknown: read_u32(bytes, 0),
        })
    }

    pub fn write_bytes(&self, buffer: &mut Vec<u8>, pos: usize)
        requires
            pos + 4 <= old(buffer)@.len(),
        ensures
            final(buffer)@.len() == old(buffer)@.len(),
            final(buffer)@.subrange(pos as int, pos + 4) == self.enc(),
            forall|i: int|
                0 <= i < final(buffer)@.len() && !(pos <= i < pos + 4) ==> final(buffer)@[i]
                    == old(buffer)@[i],
    {
        let n = buffer.len();
        assert(pos + 4 <= n);
        write_u32(buffer, pos, self.unknown);
        assert(buffer@.subrange(pos as int, pos + 4) =~= self.enc());
    }


    pub proof fn lemma_dec_enc(self)
        ensures
            Unknown0x10Params::dec(self.enc()) == self,
            self.enc().len() == 4,
    {
        lemma_auto_spec_u32_to_from_le_bytes();
        assert(self.enc().subrange(0, 4) =~= spec_u32_to_le_bytes(self.unknown));
    }
}


/// Undecoded single-word payload of opcode 0x12.
#[derive(Clone, Copy, Debug, PartialEq, Eq, Structural)]
pub struct Unknown0x12Params {
    pub unknown: u32,
}

impl Unknown0x12Params {
    pub open spec fn enc(self) -> Seq<u8> {
        spec_u32_to_le_bytes(self.unknown)
    }

    pub open spec fn dec(bytes: Seq<u8>) -> Self {
        (Unknown0x12Params {
            unknown: spec_u32_from_le_bytes(bytes.subrange(0, 4)),
        })
    }

    pub fn from_bytes(bytes: &[u8]) -> (r: Result<Unknown0x12Params, AppError>)
        ensures
            r is Ok <==> bytes@.len() >= 4,
            r is Ok ==> r->Ok_0 == Unknown0x12Params::dec(bytes@),
    {
        if bytes.len() < 4 {
            return Err(AppError::new("Unknown0x12Params needs at least 4 bytes"));
        }
        Ok(Unknown0x12Params {
            unknown: read_u32(bytes, 0),
        })
    }

    pub fn write_bytes(&self, buffer: &mut Vec<u8>, pos: usize)
        requires
            pos + 4 <= old(buffer)@.len(),
        ensures
            final(buffer)@.len() == old(buffer)@.len(),
            final(buffer)@.subrange(pos as int, pos + 4) == self.enc(),
            forall|i: int|
                0 <= i < final(buffer)@.len() && !(pos <= i < pos + 4) ==> final(buffer)@[i]
                    == old(buffer)@[i],
    {
        let n = buffer.len();
        assert(pos + 4 <= n);
        write_u32(buffer, pos, self.unknown);
        assert(buffer@.subrange(pos as int, pos + 4) =~= self.enc());
    }


    pub proof fn lemma_dec_enc(self)
        ensures
            Unknown0x12Params::dec(self.enc()) == self,
            self.enc().len() == 4,
    {
        lemma_auto_spec_u32_to_from_le_bytes();
        assert(self.enc().subrange(0, 4) =~= spec_u32_to_le_bytes(self.unknown));
    }
}


/// Undecoded single-word payload of opcode 0x13.
#[derive(Clone, Copy, Debug, PartialEq, Eq, Structural)]
pub struct Unknown0x13Params {
    pub unknown: u32,
}

impl Unknown0x13Params {
    pub open spec fn enc(self) -> Seq<u8> {
        spec_u32_to_le_bytes(self.unknown)
    }

    pub open spec fn dec(bytes: Seq<u8>) -> Self {
        (Unknown0x13Params {
            unknown: spec_u32_from_le_bytes(bytes.subrange(0, 4)),
        })
    }

    pub fn from_bytes(bytes: &[u8]) -> (r: Result<Unknown0x13Params, AppError>)
        ensures
            r is Ok <==> bytes@.len() >= 4,
            r is Ok ==> r->Ok_0 == Unknown0x13Params::dec(bytes@),
    {
        if bytes.len() < 4 {
            return Err(AppError::new("Unknown0x13Params needs at least 4 bytes"));
        }
        Ok(Unknown0x13Params {
            unknown: read_u32(bytes, 0),
        })
    }

    pub fn write_bytes(&self, buffer: &mut Vec<u8>, pos: usize)
        requires
            pos + 4 <= old(buffer)@.len(),
        ensures
            final(buffer)@.len() == old(buffer)@.len(),
            final(buffer)@.subrange(pos as int, pos + 4) == self.enc(),
            forall|i: int|
                0 <= i < final(buffer)@.len() && !(pos <= i < pos + 4) ==> final(buffer)@[i]
                    == old(buffer)@[i],
    {
        let n = buffer.len();
        assert(pos + 4 <= n);
        write_u32(buffer, pos, self.unknown);
        assert(buffer@.subrange(pos as int, pos + 4) =~= self.enc());
    }


    pub proof fn lemma_dec_enc(self)
        ensures
            Unknown0x13Params::dec(self.enc()) == self,
            self.enc().len() == 4,
    {
        lemma_auto_spec_u32_to_from_le_bytes();
        assert(self.enc().subrange(0, 4) =~= spec_u32_to_le_bytes(self.unknown));
    }
}


/// Undecoded single-word payload of opcode 0x29.
#[derive(Clone, Copy, Debug, PartialEq, Eq, Structural)]
pub struct Unknown0x29Params {
    pub unknown: u32,
}

impl Unknown0x29Params {
    pub open spec fn enc(self) -> Seq<u8> {
        spec_u32_to_le_bytes(self.unknown)
    }

    pub open spec fn dec(bytes: Seq<u8>) -> Self {
        (Unknown0x29Params {
            unknown: spec_u32_from_le_bytes(bytes.subrange(0, 4)),
        })
    }

    pub fn from_bytes(bytes: &[u8]) -> (r: Result<Unknown0x29Params, AppError>)
        ensures
            r is Ok <==> bytes@.len() >= 4,
            r is Ok ==> r->Ok_0 == Unknown0x29Params::dec(bytes@),
    {
        if bytes.len() < 4 {
            return Err(AppError::new("Unknown0x29Params needs at least 4 bytes"));
        }
        Ok(Unknown0x29Params {
            unknown: read_u32(bytes, 0),
        })
    }

    pub fn write_bytes(&self, buffer: &mut Vec<u8>, pos: usize)
        requires
            pos + 4 <= old(buffer)@.len(),
        ensures
            final(buffer)@.len() == old(buffer)@.len(),
            final(buffer)@.subrange(pos as int, pos + 4) == self.enc(),
            forall|i: int|
                0 <= i < final(buffer)@.len() && !(pos <= i < pos + 4) ==> final(buffer)@[i]
                    == old(buffer)@[i],
    {
        let n = buffer.len();
        assert(pos + 4 <= n);
        write_u32(buffer, pos, self.unknown);
        assert(buffer@.subrange(pos as int, pos + 4) =~= self.enc());
    }


    pub proof fn lemma_dec_enc(self)
        ensures
            Unknown0x29Params::dec(self.enc()) == self,
            self.enc().len() == 4,
    {
        lemma_auto_spec_u32_to_from_le_bytes();
        assert(self.enc().subrange(0, 4) =~= spec_u32_to_le_bytes(self.unknown));
    }
}


/// Undecoded single-word payload of opcode 0x2A.
#[derive(Clone, Copy, Debug, PartialEq, Eq, Structural)]
pub struct Unknown0x2AParams {
    pub unknown: u32,
}

impl Unknown0x2AParams {
    pub open spec fn enc(self) -> Seq<u8> {
        spec_u32_to_le_bytes(self.unknown)
    }

    pub open spec fn dec(bytes: Seq<u8>) -> Self {
        (Unknown0x2AParams {
            unknown: spec_u32_from_le_bytes(bytes.subrange(0, 4)),
        })
    }

    pub fn from_bytes(bytes: &[u8]) -> (r: Result<Unknown0x2AParams, AppError>)
        ensures
            r is Ok <==> bytes@.len() >= 4,
            r is Ok ==> r->Ok_0 == Unknown0x2AParams::dec(bytes@),
    {
        if bytes.len() < 4 {
            return Err(AppError::new("Unknown0x2AParams needs at least 4 bytes"));
        }
        Ok(Unknown0x2AParams {
            unknown: read_u32(bytes, 0),
        })
    }

    pub fn write_bytes(&self, buffer: &mut Vec<u8>, pos: usize)
        requires
            pos + 4 <= old(buffer)@.len(),
        ensures
            final(buffer)@.len() == old(buffer)@.len(),
            final(buffer)@.subrange(pos as int, pos + 4) == self.enc(),
            forall|i: int|
                0 <= i < final(buffer)@.len() && !(pos <= i < pos + 4) ==> final(buffer)@[i]
                    == old(buffer)@[i],
    {
        let n = buffer.len();
        assert(pos + 4 <= n);
        write_u32(buffer, pos, self.unknown);
        assert(buffer@.subrange(pos as int, pos + 4) =~= self.enc());
    }


    pub proof fn lemma_dec_enc(self)
        ensures
            Unknown0x2AParams::dec(self.enc()) == self,
            self.enc().len() == 4,
    {
        lemma_auto_spec_u32_to_from_le_bytes();
        assert(self.enc().subrange(0, 4) =~= spec_u32_to_le_bytes(self.unknown));
    }
}


/// Undecoded single-word payload of opcode 0x2B.
#[derive(Clone, Copy, Debug, PartialEq, Eq, Structural)]
pub struct Unknown0x2BParams {
    pub unknown: u32,
}

impl Unknown0x2BParams {
    pub open spec fn enc(self) -> Seq<u8> {
        spec_u32_to_le_bytes(self.unknown)
    }

    pub open spec fn dec(bytes: Seq<u8>) -> Self {
        (Unknown0x2BParams {
            unknown: spec_u32_from_le_bytes(bytes.subrange(0, 4)),
        })
    }

    pub fn from_bytes(bytes: &[u8]) -> (r: Result<Unknown0x2BParams, AppError>)
        ensures
            r is Ok <==> bytes@.len() >= 4,
            r is Ok ==> r->Ok_0 == Unknown0x2BParams::dec(bytes@),
    {
        if bytes.len() < 4 {
            return Err(AppError::new("Unknown0x2BParams needs at least 4 bytes"));
        }
        Ok(Unknown0x2BParams {
            unknown: read_u32(bytes, 0),
        })
    }

    pub fn write_bytes(&self, buffer: &mut Vec<u8>, pos: usize)
        requires
            pos + 4 <= old(buffer)@.len(),
        ensures
            final(buffer)@.len() == old(buffer)@.len(),
            final(buffer)@.subrange(pos as int, pos + 4) == self.enc(),
            forall|i: int|
                0 <= i < final(buffer)@.len() && !(pos <= i < pos + 4) ==> final(buffer)@[i]
                    == old(buffer)@[i],
    {
        let n = buffer.len();
        assert(pos + 4 <= n);
        write_u32(buffer, pos, self.unknown);
        assert(buffer@.subrange(pos as int, pos + 4) =~= self.enc());
    }


    pub proof fn lemma_dec_enc(self)
        ensures
            Unknown0x2BParams::dec(self.enc()) == self,
            self.enc().len() == 4,
    {
        lemma_auto_spec_u32_to_from_le_bytes();
        assert(self.enc().subrange(0, 4) =~= spec_u32_to_le_bytes(self.unknown));
    }
}


/// Undecoded single-word payload of opcode 0x30.
#[derive(Clone, Copy, Debug, PartialEq, Eq, Structural)]
pub struct Unknown0x30Params {
    pub unknown: u32,
}

impl Unknown0x30Params {
    pub open spec fn enc(self) -> Seq<u8> {
        spec_u32_to_le_bytes(self.unknown)
    }

    pub open spec fn dec(bytes: Seq<u8>) -> Self {
        (Unknown0x30Params {
            unknown: spec_u32_from_le_bytes(bytes.subrange(0, 4)),
        })
    }

    pub fn from_bytes(bytes: &[u8]) -> (r: Result<Unknown0x30Params, AppError>)
        ensures
            r is Ok <==> bytes@.len() >= 4,
            r is Ok ==> r->Ok_0 == Unknown0x30Params::dec(bytes@),
    {
        if bytes.len() < 4 {
            return Err(AppError::new("Unknown0x30Params needs at least 4 bytes"));
        }
        Ok(Unknown0x30Params {
            unknown: read_u32(bytes, 0),
        })
    }

    pub fn write_bytes(&self, buffer: &mut Vec<u8>, pos: usize)
        requires
            pos + 4 <= old(buffer)@.len(),
        ensures
            final(buffer)@.len() == old(buffer)@.len(),
            final(buffer)@.subrange(pos as int, pos + 4) == self.enc(),
            forall|i: int|
                0 <= i < final(buffer)@.len() && !(pos <= i < pos + 4) ==> final(buffer)@[i]
                    == old(buffer)@[i],
    {
        let n = buffer.len();
        assert(pos + 4 <= n);
        write_u32(buffer, pos, self.unknown);
        assert(buffer@.subrange(pos as int, pos + 4) =~= self.enc());
    }


    pub proof fn lemma_dec_enc(self)
        ensures
            Unknown0x30Params::dec(self.enc()) == self,
            self.enc().len() == 4,
    {
        lemma_auto_spec_u32_to_from_le_bytes();
        assert(self.enc().subrange(0, 4) =~= spec_u32_to_le_bytes(self.unknown));
    }
}


/// Undecoded single-word payload of opcode 0x31.
#[derive(Clone, Copy, Debug, PartialEq, Eq, Structural)]
pub struct Unknown0x31Params {
    pub unknown: u32,
}

impl Unknown0x31Params {
    pub open spec fn enc(self) -> Seq<u8> {
        spec_u32_to_le_bytes(self.unknown)
    }

    pub open spec fn dec(bytes: Seq<u8>) -> Self {
        (Unknown0x31Params {
            unknown: spec_u32_from_le_bytes(bytes.subrange(0, 4)),
        })
    }

    pub fn from_bytes(bytes: &[u8]) -> (r: Result<Unknown0x31Params, AppError>)
        ensures
            r is Ok <==> bytes@.len() >= 4,
            r is Ok ==> r->Ok_0 == Unknown0x31Params::dec(bytes@),
    {
        if bytes.len() < 4 {
            return Err(AppError::new("Unknown0x31Params needs at least 4 bytes"));
        }
        Ok(Unknown0x31Params {
            unknown: read_u32(bytes, 0),
        })
    }

    pub fn write_bytes(&self, buffer: &mut Vec<u8>, pos: usize)
        requires
            pos + 4 <= old(buffer)@.len(),
        ensures
            final(buffer)@.len() == old(buffer)@.len(),
            final(buffer)@.subrange(pos as int, pos + 4) == self.enc(),
            forall|i: int|
                0 <= i < final(buffer)@.len() && !(pos <= i < pos + 4) ==> final(buffer)@[i]
                    == old(buffer)@[i],
    {
        let n = buffer.len();
        assert(pos + 4 <= n);
        write_u32(buffer, pos, self.unknown);
        assert(buffer@.subrange(pos as int, pos + 4) =~= self.enc());
    }


    pub proof fn lemma_dec_enc(self)
        ensures
            Unknown0x31Params::dec(self.enc()) == self,
            self.enc().len() == 4,
    {
        lemma_auto_spec_u32_to_from_le_bytes();
        assert(self.enc().subrange(0, 4) =~= spec_u32_to_le_bytes(self.unknown));
    }
}


/// Undecoded single-word payload of opcode 0x32.
#[derive(Clone, Copy, Debug, PartialEq, Eq, Structural)]
pub struct Unknown0x32Params {
    pub unknown: u32,
}

impl Unknown0x32Params {
    pub open spec fn enc(self) -> Seq<u8> {
        spec_u32_to_le_bytes(self.unknown)
    }

    pub open spec fn dec(bytes: Seq<u8>) -> Self {
        (Unknown0x32Params {
            unknown: spec_u32_from_le_bytes(bytes.subrange(0, 4)),
        })
    }

    pub fn from_bytes(bytes: &[u8]) -> (r: Result<Unknown0x32Params, AppError>)
        ensures
            r is Ok <==> bytes@.len() >= 4,
            r is Ok ==> r->Ok_0 == Unknown0x32Params::dec(bytes@),
    {
        if bytes.len() < 4 {
            return Err(AppError::new("Unknown0x32Params needs at least 4 bytes"));
        }
        Ok(Unknown0x32Params {
            unknown: read_u32(bytes, 0),
        })
    }

    pub fn write_bytes(&self, buffer: &mut Vec<u8>, pos: usize)
        requires
            pos + 4 <= old(buffer)@.len(),
        ensures
            final(buffer)@.len() == old(buffer)@.len(),
            final(buffer)@.subrange(pos as int, pos + 4) == self.enc(),
            forall|i: int|
                0 <= i < final(buffer)@.len() && !(pos <= i < pos + 4) ==> final(buffer)@[i]
                    == old(buffer)@[i],
    {
        let n = buffer.len();
        assert(pos + 4 <= n);
        write_u32(buffer, pos, self.unknown);
        assert(buffer@.subrange(pos as int, pos + 4) =~= self.enc());
    }


    pub proof fn lemma_dec_enc(self)
        ensures
            Unknown0x32Params::dec(self.enc()) == self,
            self.enc().len() == 4,
    {
        lemma_auto_spec_u32_to_from_le_bytes();
        assert(self.enc().subrange(0, 4) =~= spec_u32_to_le_bytes(self.unknown));
    }
}


/// Undecoded single-word payload of opcode 0x33.
#[derive(Clone, Copy, Debug, PartialEq, Eq, Structural)]
pub struct Unknown0x33Params {
    pub unknown: u32,
}

impl Unknown0x33Params {
    pub open spec fn enc(self) -> Seq<u8> {
        spec_u32_to_le_bytes(self.unknown)
    }

    pub open spec fn dec(bytes: Seq<u8>) -> Self {
        (Unknown0x33Params {
            unknown: spec_u32_from_le_bytes(bytes.subrange(0, 4)),
        })
    }

    pub fn from_bytes(bytes: &[u8]) -> (r: Result<Unknown0x33Params, AppError>)
        ensures
            r is Ok <==> bytes@.len() >= 4,
            r is Ok ==> r->Ok_0 == Unknown0x33Params::dec(bytes@),
    {
        if bytes.len() < 4 {
            return Err(AppError::new("Unknown0x33Params needs at least 4 bytes"));
        }
        Ok(Unknown0x33Params {
            unknown: read_u32(bytes, 0),
        })
    }

    pub fn write_bytes(&self, buffer: &mut Vec<u8>, pos: usize)
        requires
            pos + 4 <= old(buffer)@.len(),
        ensures
            final(buffer)@.len() == old(buffer)@.len(),
            final(buffer)@.subrange(pos as int, pos + 4) == self.enc(),
            forall|i: int|
                0 <= i < final(buffer)@.len() && !(pos <= i < pos + 4) ==> final(buffer)@[i]
                    == old(buffer)@[i],
    {
        let n = buffer.len();
        assert(pos + 4 <= n);
        write_u32(buffer, pos, self.unknown);
        assert(buffer@.subrange(pos as int, pos + 4) =~= self.enc());
    }


    pub proof fn lemma_dec_enc(self)
        ensures
            Unknown0x33Params::dec(self.enc()) == self,
            self.enc().len() == 4,
    {
        lemma_auto_spec_u32_to_from_le_bytes();
        assert(self.enc().subrange(0, 4) =~= spec_u32_to_le_bytes(self.unknown));
    }
}


/// Undecoded single-word payload of opcode 0x34.
#[derive(Clone, Copy, Debug, PartialEq, Eq, Structural)]
pub struct Unknown0x34Params {
    pub unknown: u32,
}

impl Unknown0x34Params {
    pub open spec fn enc(self) -> Seq<u8> {
        spec_u32_to_le_bytes(self.unknown)
    }

    pub open spec fn dec(bytes: Seq<u8>) -> Self {
        (Unknown0x34Params {
            unknown: spec_u32_from_le_bytes(bytes.subrange(0, 4)),
        })
    }

    pub fn from_bytes(bytes: &[u8]) -> (r: Result<Unknown0x34Params, AppError>)
        ensures
            r is Ok <==> bytes@.len() >= 4,
            r is Ok ==> r->Ok_0 == Unknown0x34Params::dec(bytes@),
    {
        if bytes.len() < 4 {
            return Err(AppError::new("Unknown0x34Params needs at least 4 bytes"));
        }
        Ok(Unknown0x34Params {
            unknown: read_u32(bytes, 0),
        })
    }

    pub fn write_bytes(&self, buffer: &mut Vec<u8>, pos: usize)
        requires
            pos + 4 <= old(buffer)@.len(),
        ensures
            final(buffer)@.len() == old(buffer)@.len(),
            final(buffer)@.subrange(pos as int, pos + 4) == self.enc(),
            forall|i: int|
                0 <= i < final(buffer)@.len() && !(pos <= i < pos + 4) ==> final(buffer)@[i]
                    == old(buffer)@[i],
    {
        let n = buffer.len();
        assert(pos + 4 <= n);
        write_u32(buffer, pos, self.unknown);
        assert(buffer@.subrange(pos as int, pos + 4) =~= self.enc());
    }


    pub proof fn lemma_dec_enc(self)
        ensures
            Unknown0x34Params::dec(self.enc()) == self,
            self.enc().len() == 4,
    {
        lemma_auto_spec_u32_to_from_le_bytes();
        assert(self.enc().subrange(0, 4) =~= spec_u32_to_le_bytes(self.unknown));
    }
}


/// Restores the current matrix from a stack slot.
#[derive(Clone, Copy, Debug, PartialEq, Eq, Structural)]
pub struct MtxRestoreParams {
    pub index: u32,
}

impl MtxRestoreParams {
    pub open spec fn enc(self) -> Seq<u8> {
        spec_u32_to_le_bytes(self.index)
    }

    pub open spec fn dec(bytes: Seq<u8>) -> Self {
        (MtxRestoreParams {
            index: spec_u32_from_le_bytes(bytes.subrange(0, 4)),
        })
    }

    pub fn from_bytes(bytes: &[u8]) -> (r: Result<MtxRestoreParams, AppError>)
        ensures
            r is Ok <==> bytes@.len() >= 4,
            r is Ok ==> r->Ok_0 == MtxRestoreParams::dec(bytes@),
    {
        if bytes.len() < 4 {
            return Err(AppError::new("MtxRestoreParams needs at least 4 bytes"));
        }
        Ok(MtxRestoreParams {
            index: read_u32(bytes, 0),
        })
    }

    pub fn write_bytes(&self, buffer: &mut Vec<u8>, pos: usize)
        requires
            pos + 4 <= old(buffer)@.len(),
        ensures
            final(buffer)@.len() == old(buffer)@.len(),
            final(buffer)@.subrange(pos as int, pos + 4) == self.enc(),
            forall|i: int|
                0 <= i < final(buffer)@.len() && !(pos <= i < pos + 4) ==> final(buffer)@[i]
                    == old(buffer)@[i],
    {
        let n = buffer.len();
        assert(pos + 4 <= n);
        write_u32(buffer, pos, self.index);
        assert(buffer@.subrange(pos as int, pos + 4) =~= self.enc());
    }


    pub proof fn lemma_dec_enc(self)
        ensures
            MtxRestoreParams::dec(self.enc()) == self,
            self.enc().len() == 4,
    {
        lemma_auto_spec_u32_to_from_le_bytes();
        assert(self.enc().subrange(0, 4) =~= spec_u32_to_le_bytes(self.index));
    }
}


/// Undecoded 16-word payload of opcode 0x16.
#[derive(Clone, Copy, Debug, PartialEq, Eq, Structural)]
pub struct Unknown0x16Params {
    pub unknown_0: u32,
    pub unknown_1: u32,
    pub unknown_2: u32,
    pub unknown_3: u32,
    pub unknown_4: u32,
    pub unknown_5: u32,
    pub unknown_6: u32,
    pub unknown_7: u32,
    pub unknown_8: u32,
    pub unknown_9: u32,
    pub unknown_10: u32,
    pub unknown_11: u32,
    pub unknown_12: u32,
    pub unknown_13: u32,
    pub unknown_14: u32,
    pub unknown_15: u32,
}

impl Unknown0x16Params {
    pub open spec fn enc(self) -> Seq<u8> {
        spec_u32_to_le_bytes(self.unknown_0) + spec_u32_to_le_bytes(self.unknown_1) + spec_u32_to_le_bytes(self.unknown_2) + spec_u32_to_le_bytes(self.unknown_3) + spec_u32_to_le_bytes(self.unknown_4) + spec_u32_to_le_bytes(self.unknown_5) + spec_u32_to_le_bytes(self.unknown_6) + spec_u32_to_le_bytes(self.unknown_7) + spec_u32_to_le_bytes(self.unknown_8) + spec_u32_to_le_bytes(self.unknown_9) + spec_u32_to_le_bytes(self.unknown_10) + spec_u32_to_le_bytes(self.unknown_11) + spec_u32_to_le_bytes(self.unknown_12) + spec_u32_to_le_bytes(self.unknown_13) + spec_u32_to_le_bytes(self.unknown_14) + spec_u32_to_le_bytes(self.unknown_15)
    }

    pub open spec fn dec(bytes: Seq<u8>) -> Self {
        (Unknown0x16Params {
            unknown_0: spec_u32_from_le_bytes(bytes.subrange(0, 4)),
            unknown_1: spec_u32_from_le_bytes(bytes.subrange(4, 8)),
            unknown_2: spec_u32_from_le_bytes(bytes.subrange(8, 12)),
            unknown_3: spec_u32_from_le_bytes(bytes.subrange(12, 16)),
            unknown_4: spec_u32_from_le_bytes(bytes.subrange(16, 20)),
            unknown_5: spec_u32_from_le_bytes(bytes.subrange(20, 24)),
            unknown_6: spec_u32_from_le_bytes(bytes.subrange(24, 28)),
            unknown_7: spec_u32_from_le_bytes(bytes.subrange(28, 32)),
            unknown_8: spec_u32_from_le_bytes(bytes.subrange(32, 36)),
            unknown_9: spec_u32_from_le_bytes(bytes.subrange(36, 40)),
            unknown_10: spec_u32_from_le_bytes(bytes.subrange(40, 44)),
            unknown_11: spec_u32_from_le_bytes(bytes.subrange(44, 48)),
            unknown_12: spec_u32_from_le_bytes(bytes.subrange(48, 52)),
            unknown_13: spec_u32_from_le_bytes(bytes.subrange(52, 56)),
            unknown_14: spec_u32_from_le_bytes(bytes.subrange(56, 60)),
            unknown_15: spec_u32_from_le_bytes(bytes.subrange(60, 64)),
        })
    }

    pub fn from_bytes(bytes: &[u8]) -> (r: Result<Unknown0x16Params, AppError>)
        ensures
            r is Ok <==> bytes@.len() >= 64,
            r is Ok ==> r->Ok_0 == Unknown0x16Params::dec(bytes@),
    {
        if bytes.len() < 64 {
            return Err(AppError::new("Unknown0x16Params needs at least 64 bytes"));
        }
        Ok(Unknown0x16Params {
            unknown_0: read_u32(bytes, 0),
            unknown_1: read_u32(bytes, 4),
            unknown_2: read_u32(bytes, 8),
            unknown_3: read_u32(bytes, 12),
            unknown_4: read_u32(bytes, 16),
            unknown_5: read_u32(bytes, 20),
            unknown_6: read_u32(bytes, 24),
            unknown_7: read_u32(bytes, 28),
            unknown_8: read_u32(bytes, 32),
            unknown_9: read_u32(bytes, 36),
            unknown_10: read_u32(bytes, 40),
            unknown_11: read_u32(bytes, 44),
            unknown_12: read_u32(bytes, 48),
            unknown_13: read_u32(bytes, 52),
            unknown_14: read_u32(bytes, 56),
            unknown_15: read_u32(bytes, 60),
        })
    }

    pub fn write_bytes(&self, buffer: &mut Vec<u8>, pos: usize)
        requires
            pos + 64 <= old(buffer)@.len(),
        ensures
            final(buffer)@.len() == old(buffer)@.len(),
            final(buffer)@.subrange(pos as int, pos + 64) == self.enc(),
            forall|i: int|
                0 <= i < final(buffer)@.len() && !(pos <= i < pos + 64) ==> final(buffer)@[i]
                    == old(buffer)@[i],
    {
        let n = buffer.len();
        assert(pos + 64 <= n);
        write_u32(buffer, pos, self.unknown_0);
        write_u32(buffer, pos + 4, self.unknown_1);
        write_u32(buffer, pos + 8, self.unknown_2);
        write_u32(buffer, pos + 12, self.unknown_3);
        write_u32(buffer, pos + 16, self.unknown_4);
        write_u32(buffer, pos + 20, self.unknown_5);
        write_u32(buffer, pos + 24, self.unknown_6);
        write_u32(buffer, pos + 28, self.unknown_7);
        write_u32(buffer, pos + 32, self.unknown_8);
        write_u32(buffer, pos + 36, self.unknown_9);
        write_u32(buffer, pos + 40, self.unknown_10);
        write_u32(buffer, pos + 44, self.unknown_11);
        write_u32(buffer, pos + 48, self.unknown_12);
        write_u32(buffer, pos + 52, self.unknown_13);
        write_u32(buffer, pos + 56, self.unknown_14);
        write_u32(buffer, pos + 60, self.unknown_15);
        assert(buffer@.subrange(pos as int, pos + 64) =~= self.enc());
    }


    pub proof fn lemma_dec_enc(self)
        ensures
            Unknown0x16Params::dec(self.enc()) == self,
            self.enc().len() == 64,
    {
        lemma_auto_spec_u32_to_from_le_bytes();
        assert(self.enc().subrange(0, 4) =~= spec_u32_to_le_bytes(self.unknown_0));
        assert(self.enc().subrange(4, 8) =~= spec_u32_to_le_bytes(self.unknown_1));
        assert(self.enc().subrange(8, 12) =~= spec_u32_to_le_bytes(self.unknown_2));
        assert(self.enc().subrange(12, 16) =~= spec_u32_to_le_bytes(self.unknown_3));
        assert(self.enc().subrange(16, 20) =~= spec_u32_to_le_bytes(self.unknown_4));
        assert(self.enc().subrange(20, 24) =~= spec_u32_to_le_bytes(self.unknown_5));
        assert(self.enc().subrange(24, 28) =~= spec_u32_to_le_bytes(self.unknown_6));
        assert(self.enc().subrange(28, 32) =~= spec_u32_to_le_bytes(self.unknown_7));
        assert(self.enc().subrange(32, 36) =~= spec_u32_to_le_bytes(self.unknown_8));
        assert(self.enc().subrange(36, 40) =~= spec_u32_to_le_bytes(self.unknown_9));
        assert(self.enc().subrange(40, 44) =~= spec_u32_to_le_bytes(self.unknown_10));
        assert(self.enc().subrange(44, 48) =~= spec_u32_to_le_bytes(self.unknown_11));
        assert(self.enc().subrange(48, 52) =~= spec_u32_to_le_bytes(self.unknown_12));
        assert(self.enc().subrange(52, 56) =~= spec_u32_to_le_bytes(self.unknown_13));
        assert(self.enc().subrange(56, 60) =~= spec_u32_to_le_bytes(self.unknown_14));
        assert(self.enc().subrange(60, 64) =~= spec_u32_to_le_bytes(self.unknown_15));
    }
}


/// Undecoded 12-word payload of opcode 0x17.
#[derive(Clone, Copy, Debug, PartialEq, Eq, Structural)]
pub struct Unknown0x17Params {
    pub unknown_0: u32,
    pub unknown_1: u32,
    pub unknown_2: u32,
    pub unknown_3: u32,
    pub unknown_4: u32,
    pub unknown_5: u32,
    pub unknown_6: u32,
    pub unknown_7: u32,
    pub unknown_8: u32,
    pub unknown_9: u32,
    pub unknown_10: u32,
    pub unknown_11: u32,
}

impl Unknown0x17Params {
    pub open spec fn enc(self) -> Seq<u8> {
        spec_u32_to_le_bytes(self.unknown_0) + spec_u32_to_le_bytes(self.unknown_1) + spec_u32_to_le_bytes(self.unknown_2) + spec_u32_to_le_bytes(self.unknown_3) + spec_u32_to_le_bytes(self.unknown_4) + spec_u32_to_le_bytes(self.unknown_5) + spec_u32_to_le_bytes(self.unknown_6) + spec_u32_to_le_bytes(self.unknown_7) + spec_u32_to_le_bytes(self.unknown_8) + spec_u32_to_le_bytes(self.unknown_9) + spec_u32_to_le_bytes(self.unknown_10) + spec_u32_to_le_bytes(self.unknown_11)
    }

    pub open spec fn dec(bytes: Seq<u8>) -> Self {
        (Unknown0x17Params {
            unknown_0: spec_u32_from_le_bytes(bytes.subrange(0, 4)),
            unknown_1: spec_u32_from_le_bytes(bytes.subrange(4, 8)),
            unknown_2: spec_u32_from_le_bytes(bytes.subrange(8, 12)),
            unknown_3: spec_u32_from_le_bytes(bytes.subrange(12, 16)),
            unknown_4: spec_u32_from_le_bytes(bytes.subrange(16, 20)),
            unknown_5: spec_u32_from_le_bytes(bytes.subrange(20, 24)),
            unknown_6: spec_u32_from_le_bytes(bytes.subrange(24, 28)),
            unknown_7: spec_u32_from_le_bytes(bytes.subrange(28, 32)),
            unknown_8: spec_u32_from_le_bytes(bytes.subrange(32, 36)),
            unknown_9: spec_u32_from_le_bytes(bytes.subrange(36, 40)),
            unknown_10: spec_u32_from_le_bytes(bytes.subrange(40, 44)),
            unknown_11: spec_u32_from_le_bytes(bytes.subrange(44, 48)),
        })
    }

    pub fn from_bytes(bytes: &[u8]) -> (r: Result<Unknown0x17Params, AppError>)
        ensures
            r is Ok <==> bytes@.len() >= 48,
            r is Ok ==> r->Ok_0 == Unknown0x17Params::dec(bytes@),
    {
        if bytes.len() < 48 {
            return Err(AppError::new("Unknown0x17Params needs at least 48 bytes"));
        }
        Ok(Unknown0x17Params {
            unknown_0: read_u32(bytes, 0),
            unknown_1: read_u32(bytes, 4),
            unknown_2: read_u32(bytes, 8),
            unknown_3: read_u32(bytes, 12),
            unknown_4: read_u32(bytes, 16),
            unknown_5: read_u32(bytes, 20),
            unknown_6: read_u32(bytes, 24),
            unknown_7: read_u32(bytes, 28),
            unknown_8: read_u32(bytes, 32),
            unknown_9: read_u32(bytes, 36),
            unknown_10: read_u32(bytes, 40),
            unknown_11: read_u32(bytes, 44),
        })
    }

    pub fn write_bytes(&self, buffer: &mut Vec<u8>, pos: usize)
        requires
            pos + 48 <= old(buffer)@.len(),
        ensures
            final(buffer)@.len() == old(buffer)@.len(),
            final(buffer)@.subrange(pos as int, pos + 48) == self.enc(),
            forall|i: int|
                0 <= i < final(buffer)@.len() && !(pos <= i < pos + 48) ==> final(buffer)@[i]
                    == old(buffer)@[i],
    {
        let n = buffer.len();
        assert(pos + 48 <= n);
        write_u32(buffer, pos, self.unknown_0);
        write_u32(buffer, pos + 4, self.unknown_1);
        write_u32(buffer, pos + 8, self.unknown_2);
        write_u32(buffer, pos + 12, self.unknown_3);
        write_u32(buffer, pos + 16, self.unknown_4);
        write_u32(buffer, pos + 20, self.unknown_5);
        write_u32(buffer, pos + 24, self.unknown_6);
        write_u32(buffer, pos + 28, self.unknown_7);
        write_u32(buffer, pos + 32, self.unknown_8);
        write_u32(buffer, pos + 36, self.unknown_9);
        write_u32(buffer, pos + 40, self.unknown_10);
        write_u32(buffer, pos + 44, self.unknown_11);
        assert(buffer@.subrange(pos as int, pos + 48) =~= self.enc());
    }


    pub proof fn lemma_dec_enc(self)
        ensures
            Unknown0x17Params::dec(self.enc()) == self,
            self.enc().len() == 48,
    {
        lemma_auto_spec_u32_to_from_le_bytes();
        assert(self.enc().subrange(0, 4) =~= spec_u32_to_le_bytes(self.unknown_0));
        assert(self.enc().subrange(4, 8) =~= spec_u32_to_le_bytes(self.unknown_1));
        assert(self.enc().subrange(8, 12) =~= spec_u32_to_le_bytes(self.unknown_2));
        assert(self.enc().subrange(12, 16) =~= spec_u32_to_le_bytes(self.unknown_3));
        assert(self.enc().subrange(16, 20) =~= spec_u32_to_le_bytes(self.unknown_4));
        assert(self.enc().subrange(20, 24) =~= spec_u32_to_le_bytes(self.unknown_5));
        assert(self.enc().subrange(24, 28) =~= spec_u32_to_le_bytes(self.unknown_6));
        assert(self.enc().subrange(28, 32) =~= spec_u32_to_le_bytes(self.unknown_7));
        assert(self.enc().subrange(32, 36) =~= spec_u32_to_le_bytes(self.unknown_8));
        assert(self.enc().subrange(36, 40) =~= spec_u32_to_le_bytes(self.unknown_9));
        assert(self.enc().subrange(40, 44) =~= spec_u32_to_le_bytes(self.unknown_10));
        assert(self.enc().subrange(44, 48) =~= spec_u32_to_le_bytes(self.unknown_11));
    }
}


/// Undecoded 16-word payload of opcode 0x18.
#[derive(Clone, Copy, Debug, PartialEq, Eq, Structural)]
pub struct Unknown0x18Params {
    pub unknown_0: u32,
    pub unknown_1: u32,
    pub unknown_2: u32,
    pub unknown_3: u32,
    pub unknown_4: u32,
    pub unknown_5: u32,
    pub unknown_6: u32,
    pub unknown_7: u32,
    pub unknown_8: u32,
    pub unknown_9: u32,
    pub unknown_10: u32,
    pub unknown_11: u32,
    pub unknown_12: u32,
    pub unknown_13: u32,
    pub unknown_14: u32,
    pub unknown_15: u32,
}

impl Unknown0x18Params {
    pub open spec fn enc(self) -> Seq<u8> {
        spec_u32_to_le_bytes(self.unknown_0) + spec_u32_to_le_bytes(self.unknown_1) + spec_u32_to_le_bytes(self.unknown_2) + spec_u32_to_le_bytes(self.unknown_3) + spec_u32_to_le_bytes(self.unknown_4) + spec_u32_to_le_bytes(self.unknown_5) + spec_u32_to_le_bytes(self.unknown_6) + spec_u32_to_le_bytes(self.unknown_7) + spec_u32_to_le_bytes(self.unknown_8) + spec_u32_to_le_bytes(self.unknown_9) + spec_u32_to_le_bytes(self.unknown_10) + spec_u32_to_le_bytes(self.unknown_11) + spec_u32_to_le_bytes(self.unknown_12) + spec_u32_to_le_bytes(self.unknown_13) + spec_u32_to_le_bytes(self.unknown_14) + spec_u32_to_le_bytes(self.unknown_15)
    }

    pub open spec fn dec(bytes: Seq<u8>) -> Self {
        (Unknown0x18Params {
            unknown_0: spec_u32_from_le_bytes(bytes.subrange(0, 4)),
            unknown_1: spec_u32_from_le_bytes(bytes.subrange(4, 8)),
            unknown_2: spec_u32_from_le_bytes(bytes.subrange(8, 12)),
            unknown_3: spec_u32_from_le_bytes(bytes.subrange(12, 16)),
            unknown_4: spec_u32_from_le_bytes(bytes.subrange(16, 20)),
            unknown_5: spec_u32_from_le_bytes(bytes.subrange(20, 24)),
            unknown_6: spec_u32_from_le_bytes(bytes.subrange(24, 28)),
            unknown_7: spec_u32_from_le_bytes(bytes.subrange(28, 32)),
            unknown_8: spec_u32_from_le_bytes(bytes.subrange(32, 36)),
            unknown_9: spec_u32_from_le_bytes(bytes.subrange(36, 40)),
            unknown_10: spec_u32_from_le_bytes(bytes.subrange(40, 44)),
            unknown_11: spec_u32_from_le_bytes(bytes.subrange(44, 48)),
            unknown_12: spec_u32_from_le_bytes(bytes.subrange(48, 52)),
            unknown_13: spec_u32_from_le_bytes(bytes.subrange(52, 56)),
            unknown_14: spec_u32_from_le_bytes(bytes.subrange(56, 60)),
            unknown_15: spec_u32_from_le_bytes(bytes.subrange(60, 64)),
        })
    }

    pub fn from_bytes(bytes: &[u8]) -> (r: Result<Unknown0x18Params, AppError>)
        ensures
            r is Ok <==> bytes@.len() >= 64,
            r is Ok ==> r->Ok_0 == Unknown0x18Params::dec(bytes@),
    {
        if bytes.len() < 64 {
            return Err(AppError::new("Unknown0x18Params needs at least 64 bytes"));
        }
        Ok(Unknown0x18Params {
            unknown_0: read_u32(bytes, 0),
            unknown_1: read_u32(bytes, 4),
            unknown_2: read_u32(bytes, 8),
            unknown_3: read_u32(bytes, 12),
            unknown_4: read_u32(bytes, 16),
            unknown_5: read_u32(bytes, 20),
            unknown_6: read_u32(bytes, 24),
            unknown_7: read_u32(bytes, 28),
            unknown_8: read_u32(bytes, 32),
            unknown_9: read_u32(bytes, 36),
            unknown_10: read_u32(bytes, 40),
            unknown_11: read_u32(bytes, 44),
            unknown_12: read_u32(bytes, 48),
            unknown_13: read_u32(bytes, 52),
            unknown_14: read_u32(bytes, 56),
            unknown_15: read_u32(bytes, 60),
        })
    }

    pub fn write_bytes(&self, buffer: &mut Vec<u8>, pos: usize)
        requires
            pos + 64 <= old(buffer)@.len(),
        ensures
            final(buffer)@.len() == old(buffer)@.len(),
            final(buffer)@.subrange(pos as int, pos + 64) == self.enc(),
            forall|i: int|
                0 <= i < final(buffer)@.len() && !(pos <= i < pos + 64) ==> final(buffer)@[i]
                    == old(buffer)@[i],
    {
        let n = buffer.len();
        assert(pos + 64 <= n);
        write_u32(buffer, pos, self.unknown_0);
        write_u32(buffer, pos + 4, self.unknown_1);
        write_u32(buffer, pos + 8, self.unknown_2);
        write_u32(buffer, pos + 12, self.unknown_3);
        write_u32(buffer, pos + 16, self.unknown_4);
        write_u32(buffer, pos + 20, self.unknown_5);
        write_u32(buffer, pos + 24, self.unknown_6);
        write_u32(buffer, pos + 28, self.unknown_7);
        write_u32(buffer, pos + 32, self.unknown_8);
        write_u32(buffer, pos + 36, self.unknown_9);
        write_u32(buffer, pos + 40, self.unknown_10);
        write_u32(buffer, pos + 44, self.unknown_11);
        write_u32(buffer, pos + 48, self.unknown_12);
        write_u32(buffer, pos + 52, self.unknown_13);
        write_u32(buffer, pos + 56, self.unknown_14);
        write_u32(buffer, pos + 60, self.unknown_15);
        assert(buffer@.subrange(pos as int, pos + 64) =~= self.enc());
    }


    pub proof fn lemma_dec_enc(self)
        ensures
            Unknown0x18Params::dec(self.enc()) == self,
            self.enc().len() == 64,
    {
        lemma_auto_spec_u32_to_from_le_bytes();
        assert(self.enc().subrange(0, 4) =~= spec_u32_to_le_bytes(self.unknown_0));
        assert(self.enc().subrange(4, 8) =~= spec_u32_to_le_bytes(self.unknown_1));
        assert(self.enc().subrange(8, 12) =~= spec_u32_to_le_bytes(self.unknown_2));
        assert(self.enc().subrange(12, 16) =~= spec_u32_to_le_bytes(self.unknown_3));
        assert(self.enc().subrange(16, 20) =~= spec_u32_to_le_bytes(self.unknown_4));
        assert(self.enc().subrange(20, 24) =~= spec_u32_to_le_bytes(self.unknown_5));
        assert(self.enc().subrange(24, 28) =~= spec_u32_to_le_bytes(self.unknown_6));
        assert(self.enc().subrange(28, 32) =~= spec_u32_to_le_bytes(self.unknown_7));
        assert(self.enc().subrange(32, 36) =~= spec_u32_to_le_bytes(self.unknown_8));
        assert(self.enc().subrange(36, 40) =~= spec_u32_to_le_bytes(self.unknown_9));
        assert(self.enc().subrange(40, 44) =~= spec_u32_to_le_bytes(self.unknown_10));
        assert(self.enc().subrange(44, 48) =~= spec_u32_to_le_bytes(self.unknown_11));
        assert(self.enc().subrange(48, 52) =~= spec_u32_to_le_bytes(self.unknown_12));
        assert(self.enc().subrange(52, 56) =~= spec_u32_to_le_bytes(self.unknown_13));
        assert(self.enc().subrange(56, 60) =~= spec_u32_to_le_bytes(self.unknown_14));
        assert(self.enc().subrange(60, 64) =~= spec_u32_to_le_bytes(self.unknown_15));
    }
}


/// Undecoded 12-word payload of opcode 0x19.
#[derive(Clone, Copy, Debug, PartialEq, Eq, Structural)]
pub struct Unknown0x19Params {
    pub unknown_0: u32,
    pub unknown_1: u32,
    pub unknown_2: u32,
    pub unknown_3: u32,
    pub unknown_4: u32,
    pub unknown_5: u32,
    pub unknown_6: u32,
    pub unknown_7: u32,
    pub unknown_8: u32,
    pub unknown_9: u32,
    pub unknown_10: u32,
    pub unknown_11: u32,
}

impl Unknown0x19Params {
    pub open spec fn enc(self) -> Seq<u8> {
        spec_u32_to_le_bytes(self.unknown_0) + spec_u32_to_le_bytes(self.unknown_1) + spec_u32_to_le_bytes(self.unknown_2) + spec_u32_to_le_bytes(self.unknown_3) + spec_u32_to_le_bytes(self.unknown_4) + spec_u32_to_le_bytes(self.unknown_5) + spec_u32_to_le_bytes(self.unknown_6) + spec_u32_to_le_bytes(self.unknown_7) + spec_u32_to_le_bytes(self.unknown_8) + spec_u32_to_le_bytes(self.unknown_9) + spec_u32_to_le_bytes(self.unknown_10) + spec_u32_to_le_bytes(self.unknown_11)
    }

    pub open spec fn dec(bytes: Seq<u8>) -> Self {
        (Unknown0x19Params {
            unknown_0: spec_u32_from_le_bytes(bytes.subrange(0, 4)),
            unknown_1: spec_u32_from_le_bytes(bytes.subrange(4, 8)),
            unknown_2: spec_u32_from_le_bytes(bytes.subrange(8, 12)),
            unknown_3: spec_u32_from_le_bytes(bytes.subrange(12, 16)),
            unknown_4: spec_u32_from_le_bytes(bytes.subrange(16, 20)),
            unknown_5: spec_u32_from_le_bytes(bytes.subrange(20, 24)),
            unknown_6: spec_u32_from_le_bytes(bytes.subrange(24, 28)),
            unknown_7: spec_u32_from_le_bytes(bytes.subrange(28, 32)),
            unknown_8: spec_u32_from_le_bytes(bytes.subrange(32, 36)),
            unknown_9: spec_u32_from_le_bytes(bytes.subrange(36, 40)),
            unknown_10: spec_u32_from_le_bytes(bytes.subrange(40, 44)),
            unknown_11: spec_u32_from_le_bytes(bytes.subrange(44, 48)),
        })
    }

    pub fn from_bytes(bytes: &[u8]) -> (r: Result<Unknown0x19Params, AppError>)
        ensures
            r is Ok <==> bytes@.len() >= 48,
            r is Ok ==> r->Ok_0 == Unknown0x19Params::dec(bytes@),
    {
        if bytes.len() < 48 {
            return Err(AppError::new("Unknown0x19Params needs at least 48 bytes"));
        }
        Ok(Unknown0x19Params {
            unknown_0: read_u32(bytes, 0),
            unknown_1: read_u32(bytes, 4),
            unknown_2: read_u32(bytes, 8),
            unknown_3: read_u32(bytes, 12),
            unknown_4: read_u32(bytes, 16),
            unknown_5: read_u32(bytes, 20),
            unknown_6: read_u32(bytes, 24),
            unknown_7: read_u32(bytes, 28),
            unknown_8: read_u32(bytes, 32),
            unknown_9: read_u32(bytes, 36),
            unknown_10: read_u32(bytes, 40),
            unknown_11: read_u32(bytes, 44),
        })
    }

    pub fn write_bytes(&self, buffer: &mut Vec<u8>, pos: usize)
        requires
            pos + 48 <= old(buffer)@.len(),
        ensures
            final(buffer)@.len() == old(buffer)@.len(),
            final(buffer)@.subrange(pos as int, pos + 48) == self.enc(),
            forall|i: int|
                0 <= i < final(buffer)@.len() && !(pos <= i < pos + 48) ==> final(buffer)@[i]
                    == old(buffer)@[i],
    {
        let n = buffer.len();
        assert(pos + 48 <= n);
        write_u32(buffer, pos, self.unknown_0);
        write_u32(buffer, pos + 4, self.unknown_1);
        write_u32(buffer, pos + 8, self.unknown_2);
        write_u32(buffer, pos + 12, self.unknown_3);
        write_u32(buffer, pos + 16, self.unknown_4);
        write_u32(buffer, pos + 20, self.unknown_5);
        write_u32(buffer, pos + 24, self.unknown_6);
        write_u32(buffer, pos + 28, self.unknown_7);
        write_u32(buffer, pos + 32, self.unknown_8);
        write_u32(buffer, pos + 36, self.unknown_9);
        write_u32(buffer, pos + 40, self.unknown_10);
        write_u32(buffer, pos + 44, self.unknown_11);
        assert(buffer@.subrange(pos as int, pos + 48) =~= self.enc());
    }


    pub proof fn lemma_dec_enc(self)
        ensures
            Unknown0x19Params::dec(self.enc()) == self,
            self.enc().len() == 48,
    {
        lemma_auto_spec_u32_to_from_le_bytes();
        assert(self.enc().subrange(0, 4) =~= spec_u32_to_le_bytes(self.unknown_0));
        assert(self.enc().subrange(4, 8) =~= spec_u32_to_le_bytes(self.unknown_1));
        assert(self.enc().subrange(8, 12) =~= spec_u32_to_le_bytes(self.unknown_2));
        assert(self.enc().subrange(12, 16) =~= spec_u32_to_le_bytes(self.unknown_3));
        assert(self.enc().subrange(16, 20) =~= spec_u32_to_le_bytes(self.unknown_4));
        assert(self.enc().subrange(20, 24) =~= spec_u32_to_le_bytes(self.unknown_5));
        assert(self.enc().subrange(24, 28) =~= spec_u32_to_le_bytes(self.unknown_6));
        assert(self.enc().subrange(28, 32) =~= spec_u32_to_le_bytes(self.unknown_7));
        assert(self.enc().subrange(32, 36) =~= spec_u32_to_le_bytes(self.unknown_8));
        assert(self.enc().subrange(36, 40) =~= spec_u32_to_le_bytes(self.unknown_9));
        assert(self.enc().subrange(40, 44) =~= spec_u32_to_le_bytes(self.unknown_10));
        assert(self.enc().subrange(44, 48) =~= spec_u32_to_le_bytes(self.unknown_11));
    }
}


/// Undecoded 9-word payload of opcode 0x1A.
#[derive(Clone, Copy, Debug, PartialEq, Eq, Structural)]
pub struct Unknown0x1AParams {
    pub unknown_0: u32,
    pub unknown_1: u32,
    pub unknown_2: u32,
    pub unknown_3: u32,
    pub unknown_4: u32,
    pub unknown_5: u32,
    pub unknown_6: u32,
    pub unknown_7: u32,
    pub unknown_8: u32,
}

impl Unknown0x1AParams {
    pub open spec fn enc(self) -> Seq<u8> {
        spec_u32_to_le_bytes(self.unknown_0) + spec_u32_to_le_bytes(self.unknown_1) + spec_u32_to_le_bytes(self.unknown_2) + spec_u32_to_le_bytes(self.unknown_3) + spec_u32_to_le_bytes(self.unknown_4) + spec_u32_to_le_bytes(self.unknown_5) + spec_u32_to_le_bytes(self.unknown_6) + spec_u32_to_le_bytes(self.unknown_7) + spec_u32_to_le_bytes(self.unknown_8)
    }

    pub open spec fn dec(bytes: Seq<u8>) -> Self {
        (Unknown0x1AParams {
            unknown_0: spec_u32_from_le_bytes(bytes.subrange(0, 4)),
            unknown_1: spec_u32_from_le_bytes(bytes.subrange(4, 8)),
            unknown_2: spec_u32_from_le_bytes(bytes.subrange(8, 12)),
            unknown_3: spec_u32_from_le_bytes(bytes.subrange(12, 16)),
            unknown_4: spec_u32_from_le_bytes(bytes.subrange(16, 20)),
            unknown_5: spec_u32_from_le_bytes(bytes.subrange(20, 24)),
            unknown_6: spec_u32_from_le_bytes(bytes.subrange(24, 28)),
            unknown_7: spec_u32_from_le_bytes(bytes.subrange(28, 32)),
            unknown_8: spec_u32_from_le_bytes(bytes.subrange(32, 36)),
        })
    }

    pub fn from_bytes(bytes: &[u8]) -> (r: Result<Unknown0x1AParams, AppError>)
        ensures
            r is Ok <==> bytes@.len() >= 36,
            r is Ok ==> r->Ok_0 == Unknown0x1AParams::dec(bytes@),
    {
        if bytes.len() < 36 {
            return Err(AppError::new("Unknown0x1AParams needs at least 36 bytes"));
        }
        Ok(Unknown0x1AParams {
            unknown_0: read_u32(bytes, 0),
            unknown_1: read_u32(bytes, 4),
            unknown_2: read_u32(bytes, 8),
            unknown_3: read_u32(bytes, 12),
            unknown_4: read_u32(bytes, 16),
            unknown_5: read_u32(bytes, 20),
            unknown_6: read_u32(bytes, 24),
            unknown_7: read_u32(bytes, 28),
            unknown_8: read_u32(bytes, 32),
        })
    }

    pub fn write_bytes(&self, buffer: &mut Vec<u8>, pos: usize)
        requires
            pos + 36 <= old(buffer)@.len(),
        ensures
            final(buffer)@.len() == old(buffer)@.len(),
            final(buffer)@.subrange(pos as int, pos + 36) == self.enc(),
            forall|i: int|
                0 <= i < final(buffer)@.len() && !(pos <= i < pos + 36) ==> final(buffer)@[i]
                    == old(buffer)@[i],
    {
        let n = buffer.len();
        assert(pos + 36 <= n);
        write_u32(buffer, pos, self.unknown_0);
        write_u32(buffer, pos + 4, self.unknown_1);
        write_u32(buffer, pos + 8, self.unknown_2);
        write_u32(buffer, pos + 12, self.unknown_3);
        write_u32(buffer, pos + 16, self.unknown_4);
        write_u32(buffer, pos + 20, self.unknown_5);
        write_u32(buffer, pos + 24, self.unknown_6);
        write_u32(buffer, pos + 28, self.unknown_7);
        write_u32(buffer, pos + 32, self.unknown_8);
        assert(buffer@.subrange(pos as int, pos + 36) =~= self.enc());
    }


    pub proof fn lemma_dec_enc(self)
        ensures
            Unknown0x1AParams::dec(self.enc()) == self,
            self.enc().len() == 36,
    {
        lemma_auto_spec_u32_to_from_le_bytes();
        assert(self.enc().subrange(0, 4) =~= spec_u32_to_le_bytes(self.unknown_0));
        assert(self.enc().subrange(4, 8) =~= spec_u32_to_le_bytes(self.unknown_1));
        assert(self.enc().subrange(8, 12) =~= spec_u32_to_le_bytes(self.unknown_2));
        assert(self.enc().subrange(12, 16) =~= spec_u32_to_le_bytes(self.unknown_3));
        assert(self.enc().subrange(16, 20) =~= spec_u32_to_le_bytes(self.unknown_4));
        assert(self.enc().subrange(20, 24) =~= spec_u32_to_le_bytes(self.unknown_5));
        assert(self.enc().subrange(24, 28) =~= spec_u32_to_le_bytes(self.unknown_6));
        assert(self.enc().subrange(28, 32) =~= spec_u32_to_le_bytes(self.unknown_7));
        assert(self.enc().subrange(32, 36) =~= spec_u32_to_le_bytes(self.unknown_8));
    }
}


/// Undecoded 3-word payload of opcode 0x1C.
#[derive(Clone, Copy, Debug, PartialEq, Eq, Structural)]
pub struct Unknown0x1CParams {
    pub unknown_0: u32,
    pub unknown_1: u32,
    pub unknown_2: u32,
}

impl Unknown0x1CParams {
    pub open spec fn enc(self) -> Seq<u8> {
        spec_u32_to_le_bytes(self.unknown_0) + spec_u32_to_le_bytes(self.unknown_1) + spec_u32_to_le_bytes(self.unknown_2)
    }

    pub open spec fn dec(bytes: Seq<u8>) -> Self {
        (Unknown0x1CParams {
            unknown_0: spec_u32_from_le_bytes(bytes.subrange(0, 4)),
            unknown_1: spec_u32_from_le_bytes(bytes.subrange(4, 8)),
            unknown_2: spec_u32_from_le_bytes(bytes.subrange(8, 12)),
        })
    }

    pub fn from_bytes(bytes: &[u8]) -> (r: Result<Unknown0x1CParams, AppError>)
        ensures
            r is Ok <==> bytes@.len() >= 12,
            r is Ok ==> r->Ok_0 == Unknown0x1CParams::dec(bytes@),
    {
        if bytes.len() < 12 {
            return Err(AppError::new("Unknown0x1CParams needs at least 12 bytes"));
        }
        Ok(Unknown0x1CParams {
            unknown_0: read_u32(bytes, 0),
            unknown_1: read_u32(bytes, 4),
            unknown_2: read_u32(bytes, 8),
        })
    }

    pub fn write_bytes(&self, buffer: &mut Vec<u8>, pos: usize)
        requires
            pos + 12 <= old(buffer)@.len(),
        ensures
            final(buffer)@.len() == old(buffer)@.len(),
            final(buffer)@.subrange(pos as int, pos + 12) == self.enc(),
            forall|i: int|
                0 <= i < final(buffer)@.len() && !(pos <= i < pos + 12) ==> final(buffer)@[i]
                    == old(buffer)@[i],
    {
        let n = buffer.len();
        assert(pos + 12 <= n);
        write_u32(buffer, pos, self.unknown_0);
        write_u32(buffer, pos + 4, self.unknown_1);
        write_u32(buffer, pos + 8, self.unknown_2);
        assert(buffer@.subrange(pos as int, pos + 12) =~= self.enc());
    }


    pub proof fn lemma_dec_enc(self)
        ensures
            Unknown0x1CParams::dec(self.enc()) == self,
            self.enc().len() == 12,
    {
        lemma_auto_spec_u32_to_from_le_bytes();
        assert(self.enc().subrange(0, 4) =~= spec_u32_to_le_bytes(self.unknown_0));
        assert(self.enc().subrange(4, 8) =~= spec_u32_to_le_bytes(self.unknown_1));
        assert(self.enc().subrange(8, 12) =~= spec_u32_to_le_bytes(self.unknown_2));
    }
}


/// Scales the current matrix by a per-axis 1.19.12 factor.
#[derive(Clone, Copy, Debug, PartialEq, Eq, Structural)]
pub struct MtxScaleParams {
    pub x: Fixed1_19_12,
    pub y: Fixed1_19_12,
    pub z: Fixed1_19_12,
}

impl MtxScaleParams {
    pub open spec fn enc(self) -> Seq<u8> {
        spec_u32_to_le_bytes(u32_of_i32(self.x.value as int) as u32) + spec_u32_to_le_bytes(
            u32_of_i32(self.y.value as int) as u32,
        ) + spec_u32_to_le_bytes(u32_of_i32(self.z.value as int) as u32)
    }

    pub open spec fn dec(bytes: Seq<u8>) -> Self {
        (MtxScaleParams {
            x: (Fixed1_19_12 {
                value: i32_of_u32(spec_u32_from_le_bytes(bytes.subrange(0, 4)) as int) as i32,
            }),
            y: (Fixed1_19_12 {
                value: i32_of_u32(spec_u32_from_le_bytes(bytes.subrange(4, 8)) as int) as i32,
            }),
            z: (Fixed1_19_12 {
                value: i32_of_u32(spec_u32_from_le_bytes(bytes.subrange(8, 12)) as int) as i32,
            }),
        })
    }

    pub fn from_bytes(bytes: &[u8]) -> (r: Result<MtxScaleParams, AppError>)
        ensures
            r is Ok <==> bytes@.len() >= 12,
            r is Ok ==> r->Ok_0 == MtxScaleParams::dec(bytes@),
    {
        if bytes.len() < 12 {
            return Err(AppError::new("MtxScaleParams needs at least 12 bytes"));
        }
        Ok(MtxScaleParams {
            x: Fixed1_19_12::from_i32(i32_from_bits(read_u32(bytes, 0))),
            y: Fixed1_19_12::from_i32(i32_from_bits(read_u32(bytes, 4))),
            z: Fixed1_19_12::from_i32(i32_from_bits(read_u32(bytes, 8))),
        })
    }

    pub fn write_bytes(&self, buffer: &mut Vec<u8>, pos: usize)
        requires
            pos + 12 <= old(buffer)@.len(),
        ensures
            final(buffer)@.len() == old(buffer)@.len(),
            final(buffer)@.subrange(pos as int, pos + 12) == self.enc(),
            forall|i: int|
                0 <= i < final(buffer)@.len() && !(pos <= i < pos + 12) ==> final(buffer)@[i]
                    == old(buffer)@[i],
    {
        let n = buffer.len();
        assert(pos + 12 <= n);
        write_u32(buffer, pos, i32_bits(self.x.value));
        write_u32(buffer, pos + 4, i32_bits(self.y.value));
        write_u32(buffer, pos + 8, i32_bits(self.z.value));
        assert(buffer@.subrange(pos as int, pos + 12) =~= self.enc());
    }

    pub proof fn lemma_dec_enc(self)
        ensures
            MtxScaleParams::dec(self.enc()) == self,
            self.enc().len() == 12,
    {
        lemma_auto_spec_u32_to_from_le_bytes();
        assert(self.enc().subrange(0, 4) =~= spec_u32_to_le_bytes(
            u32_of_i32(self.x.value as int) as u32,
        ));
        assert(self.enc().subrange(4, 8) =~= spec_u32_to_le_bytes(
            u32_of_i32(self.y.value as int) as u32,
        ));
        assert(self.enc().subrange(8, 12) =~= spec_u32_to_le_bytes(
            u32_of_i32(self.z.value as int) as u32,
        ));
    }
}


/// Vertex colour: three 5-bit channels packed into one word.
#[derive(Clone, Copy, Debug, PartialEq, Eq, Structural)]
pub struct ColorParams {
    pub r: u8,
    pub g: u8,
    pub b: u8,
}

impl ColorParams {
    pub open spec fn wf(self) -> bool {
        self.r < 0x20 && self.g < 0x20 && self.b < 0x20
    }

    pub open spec fn enc(self) -> Seq<u8> {
        spec_u32_to_le_bytes(
            pack3x5(self.r as int % 0x20, self.g as int % 0x20, self.b as int % 0x20) as u32,
        )
    }

    pub open spec fn dec(bytes: Seq<u8>) -> Self {
        let w = spec_u32_from_le_bytes(bytes.subrange(0, 4)) as int;
        (ColorParams { r: (w % 0x20) as u8, g: ((w / 0x20) % 0x20) as u8, b: ((w / 0x400)
            % 0x20) as u8 })
    }

    pub fn from_bytes(bytes: &[u8]) -> (r: Result<ColorParams, AppError>)
        ensures
            r is Ok <==> bytes@.len() >= 4,
            r is Ok ==> r->Ok_0 == ColorParams::dec(bytes@) && r->Ok_0.wf(),
    {
        if bytes.len() < 4 {
            return Err(AppError::new("ColorParams needs at least 4 bytes"));
        }
        let w = read_u32(bytes, 0);
        Ok(ColorParams { r: (w % 0x20) as u8, g: ((w / 0x20) % 0x20) as u8, b: ((w / 0x400)
            % 0x20) as u8 })
    }

    pub fn write_bytes(&self, buffer: &mut Vec<u8>, pos: usize)
        requires
            pos + 4 <= old(buffer)@.len(),
        ensures
            final(buffer)@.len() == old(buffer)@.len(),
            final(buffer)@.subrange(pos as int, pos + 4) == self.enc(),
            forall|i: int|
                0 <= i < final(buffer)@.len() && !(pos <= i < pos + 4) ==> final(buffer)@[i]
                    == old(buffer)@[i],
    {
        let n = buffer.len();
        assert(pos + 4 <= n);
        let w: u32 = (self.r % 0x20) as u32 + 0x20 * ((self.g % 0x20) as u32) + 0x400 * ((self.b
            % 0x20) as u32);
        write_u32(buffer, pos, w);
        assert(buffer@.subrange(pos as int, pos + 4) =~= self.enc());
    }

    pub proof fn lemma_dec_enc(self)
        requires
            self.wf(),
        ensures
            ColorParams::dec(self.enc()) == self,
            self.enc().len() == 4,
    {
        lemma_auto_spec_u32_to_from_le_bytes();
        assert(self.enc().subrange(0, 4) =~= self.enc());
        lemma_pack3x5(self.r as int, self.g as int, self.b as int);
    }
}


/// Normal vector: three 10-bit 1.0.9 lanes packed into one word.
#[derive(Clone, Copy, Debug, PartialEq, Eq, Structural)]
pub struct NormalParams {
    pub x: Fixed1_0_9,
    pub y: Fixed1_0_9,
    pub z: Fixed1_0_9,
}

impl NormalParams {
    pub open spec fn wf(self) -> bool {
        &&& -512 <= self.x.value < 512
        &&& -512 <= self.y.value < 512
        &&& -512 <= self.z.value < 512
    }

    pub open spec fn enc(self) -> Seq<u8> {
        spec_u32_to_le_bytes(
            pack3x10(
                self.x.value as int % 0x400,
                self.y.value as int % 0x400,
                self.z.value as int % 0x400,
            ) as u32,
        )
    }

    pub open spec fn dec(bytes: Seq<u8>) -> Self {
        let w = spec_u32_from_le_bytes(bytes.subrange(0, 4)) as int;
        (NormalParams {
            x: (Fixed1_0_9 { value: sign_prop9(w % 0x400) as i16 }),
            y: (Fixed1_0_9 { value: sign_prop9((w / 0x400) % 0x400) as i16 }),
            z: (Fixed1_0_9 { value: sign_prop9((w / 0x100000) % 0x400) as i16 }),
        })
    }

    pub fn from_bytes(bytes: &[u8]) -> (r: Result<NormalParams, AppError>)
        ensures
            r is Ok <==> bytes@.len() >= 4,
            r is Ok ==> r->Ok_0 == NormalParams::dec(bytes@) && r->Ok_0.wf(),
    {
        if bytes.len() < 4 {
            return Err(AppError::new("NormalParams needs at least 4 bytes"));
        }
        let w = read_u32(bytes, 0);
        Ok(NormalParams {
            x: Fixed1_0_9::from_i16((w % 0x400) as i16),
            y: Fixed1_0_9::from_i16(((w / 0x400) % 0x400) as i16),
            z: Fixed1_0_9::from_i16(((w / 0x100000) % 0x400) as i16),
        })
    }

    pub fn write_bytes(&self, buffer: &mut Vec<u8>, pos: usize)
        requires
            pos + 4 <= old(buffer)@.len(),
        ensures
            final(buffer)@.len() == old(buffer)@.len(),
            final(buffer)@.subrange(pos as int, pos + 4) == self.enc(),
            forall|i: int|
                0 <= i < final(buffer)@.len() && !(pos <= i < pos + 4) ==> final(buffer)@[i]
                    == old(buffer)@[i],
    {
        let n = buffer.len();
        assert(pos + 4 <= n);
        let a = crate::lebytes::euclid_mod64(self.x.value as i64, 0x400) as u32;
        let b = crate::lebytes::euclid_mod64(self.y.value as i64, 0x400) as u32;
        let c = crate::lebytes::euclid_mod64(self.z.value as i64, 0x400) as u32;
        let w: u32 = a + 0x400 * b + 0x100000 * c;
        write_u32(buffer, pos, w);
        assert(buffer@.subrange(pos as int, pos + 4) =~= self.enc());
    }

    pub proof fn lemma_dec_enc(self)
        requires
            self.wf(),
        ensures
            NormalParams::dec(self.enc()) == self,
            self.enc().len() == 4,
    {
        lemma_auto_spec_u32_to_from_le_bytes();
        assert(self.enc().subrange(0, 4) =~= self.enc());
        lemma_pack3x10(
            self.x.value as int % 0x400,
            self.y.value as int % 0x400,
            self.z.value as int % 0x400,
        );
    }
}


/// Texture coordinate: two 1.11.4 lanes packed into one word.
#[derive(Clone, Copy, Debug, PartialEq, Eq, Structural)]
pub struct TexCoordParams {
    pub s: Fixed1_11_4,
    pub t: Fixed1_11_4,
}

impl TexCoordParams {
    pub open spec fn enc(self) -> Seq<u8> {
        spec_u32_to_le_bytes(
            pack2x16(u16_of_i16(self.s.value as int), u16_of_i16(self.t.value as int)) as u32,
        )
    }

    pub open spec fn dec(bytes: Seq<u8>) -> Self {
        let w = spec_u32_from_le_bytes(bytes.subrange(0, 4)) as int;
        (TexCoordParams {
            s: (Fixed1_11_4 { value: i16_of_u16(w % 0x10000) as i16 }),
            t: (Fixed1_11_4 { value: i16_of_u16(w / 0x10000) as i16 }),
        })
    }

    pub fn from_bytes(bytes: &[u8]) -> (r: Result<TexCoordParams, AppError>)
        ensures
            r is Ok <==> bytes@.len() >= 4,
            r is Ok ==> r->Ok_0 == TexCoordParams::dec(bytes@),
    {
        if bytes.len() < 4 {
            return Err(AppError::new("TexCoordParams needs at least 4 bytes"));
        }
        let w = read_u32(bytes, 0);
        Ok(TexCoordParams {
            s: Fixed1_11_4::from_i16(i16_from_bits((w % 0x10000) as u16)),
            t: Fixed1_11_4::from_i16(i16_from_bits((w / 0x10000) as u16)),
        })
    }

    pub fn write_bytes(&self, buffer: &mut Vec<u8>, pos: usize)
        requires
            pos + 4 <= old(buffer)@.len(),
        ensures
            final(buffer)@.len() == old(buffer)@.len(),
            final(buffer)@.subrange(pos as int, pos + 4) == self.enc(),
            forall|i: int|
                0 <= i < final(buffer)@.len() && !(pos <= i < pos + 4) ==> final(buffer)@[i]
                    == old(buffer)@[i],
    {
        let n = buffer.len();
        assert(pos + 4 <= n);
        let w: u32 = i16_bits(self.s.value) as u32 + 0x10000 * (i16_bits(self.t.value) as u32);
        write_u32(buffer, pos, w);
        assert(buffer@.subrange(pos as int, pos + 4) =~= self.enc());
    }

    pub proof fn lemma_dec_enc(self)
        ensures
            TexCoordParams::dec(self.enc()) == self,
            self.enc().len() == 4,
    {
        lemma_auto_spec_u32_to_from_le_bytes();
        assert(self.enc().subrange(0, 4) =~= self.enc());
        lemma_pack2x16(u16_of_i16(self.s.value as int), u16_of_i16(self.t.value as int));
    }
}


/// Absolute vertex position: three full 1.3.12 lanes over two words.
#[derive(Clone, Copy, Debug, PartialEq, Eq, Structural)]
pub struct Vtx16Params {
    pub x: Fixed1_3_12,
    pub y: Fixed1_3_12,
    pub z: Fixed1_3_12,
}

impl Vtx16Params {
    pub open spec fn enc(self) -> Seq<u8> {
        spec_u32_to_le_bytes(
            pack2x16(u16_of_i16(self.x.value as int), u16_of_i16(self.y.value as int)) as u32,
        ) + spec_u32_to_le_bytes(u16_of_i16(self.z.value as int) as u32)
    }

    pub open spec fn dec(bytes: Seq<u8>) -> Self {
        let w0 = spec_u32_from_le_bytes(bytes.subrange(0, 4)) as int;
        let w1 = spec_u32_from_le_bytes(bytes.subrange(4, 8)) as int;
        (Vtx16Params {
            x: (Fixed1_3_12 { value: i16_of_u16(w0 % 0x10000) as i16 }),
            y: (Fixed1_3_12 { value: i16_of_u16(w0 / 0x10000) as i16 }),
            z: (Fixed1_3_12 { value: i16_of_u16(w1 % 0x10000) as i16 }),
        })
    }

    pub fn from_bytes(bytes: &[u8]) -> (r: Result<Vtx16Params, AppError>)
        ensures
            r is Ok <==> bytes@.len() >= 8,
            r is Ok ==> r->Ok_0 == Vtx16Params::dec(bytes@),
    {
        if bytes.len() < 8 {
            return Err(AppError::new("Vtx16Params needs at least 8 bytes"));
        }
        let w0 = read_u32(bytes, 0);
        let w1 = read_u32(bytes, 4);
        Ok(Vtx16Params {
            x: Fixed1_3_12::from_i16(i16_from_bits((w0 % 0x10000) as u16)),
            y: Fixed1_3_12::from_i16(i16_from_bits((w0 / 0x10000) as u16)),
            z: Fixed1_3_12::from_i16(i16_from_bits((w1 % 0x10000) as u16)),
        })
    }

    pub fn write_bytes(&self, buffer: &mut Vec<u8>, pos: usize)
        requires
            pos + 8 <= old(buffer)@.len(),
        ensures
            final(buffer)@.len() == old(buffer)@.len(),
            final(buffer)@.subrange(pos as int, pos + 8) == self.enc(),
            forall|i: int|
                0 <= i < final(buffer)@.len() && !(pos <= i < pos + 8) ==> final(buffer)@[i]
                    == old(buffer)@[i],
    {
        let n = buffer.len();
        assert(pos + 8 <= n);
        let w0: u32 = i16_bits(self.x.value) as u32 + 0x10000 * (i16_bits(self.y.value) as u32);
        let w1: u32 = i16_bits(self.z.value) as u32;
        write_u32(buffer, pos, w0);
        write_u32(buffer, pos + 4, w1);
        assert(buffer@.subrange(pos as int, pos + 8) =~= self.enc());
    }

    pub proof fn lemma_dec_enc(self)
        ensures
            Vtx16Params::dec(self.enc()) == self,
            self.enc().len() == 8,
    {
        lemma_auto_spec_u32_to_from_le_bytes();
        lemma_pack2x16(u16_of_i16(self.x.value as int), u16_of_i16(self.y.value as int));
        assert(self.enc().subrange(0, 4) =~= spec_u32_to_le_bytes(
            pack2x16(u16_of_i16(self.x.value as int), u16_of_i16(self.y.value as int)) as u32,
        ));
        assert(self.enc().subrange(4, 8) =~= spec_u32_to_le_bytes(
            u16_of_i16(self.z.value as int) as u32,
        ));
    }
}


/// Short vertex position: three 10-bit 1.3.6 lanes in one word.
#[derive(Clone, Copy, Debug, PartialEq, Eq, Structural)]
pub struct Vtx10Params {
    pub x: Fixed1_3_6,
    pub y: Fixed1_3_6,
    pub z: Fixed1_3_6,
}

impl Vtx10Params {
    pub open spec fn wf(self) -> bool {
        &&& -0x200 <= self.x.value < 0x200
        &&& -0x200 <= self.y.value < 0x200
        &&& -0x200 <= self.z.value < 0x200
    }

    pub open spec fn enc(self) -> Seq<u8> {
        spec_u32_to_le_bytes(
            pack3x10(
                self.x.value as int % 0x400,
                self.y.value as int % 0x400,
                self.z.value as int % 0x400,
            ) as u32,
        )
    }

    pub open spec fn dec(bytes: Seq<u8>) -> Self {
        let w = spec_u32_from_le_bytes(bytes.subrange(0, 4)) as int;
        (Vtx10Params {
            x: (Fixed1_3_6 { value: sign_prop9(w % 0x400) as i16 }),
            y: (Fixed1_3_6 { value: sign_prop9((w / 0x400) % 0x400) as i16 }),
            z: (Fixed1_3_6 { value: sign_prop9((w / 0x100000) % 0x400) as i16 }),
        })
    }

    pub fn from_bytes(bytes: &[u8]) -> (r: Result<Vtx10Params, AppError>)
        ensures
            r is Ok <==> bytes@.len() >= 4,
            r is Ok ==> r->Ok_0 == Vtx10Params::dec(bytes@) && r->Ok_0.wf(),
    {
        if bytes.len() < 4 {
            return Err(AppError::new("Vtx10Params needs at least 4 bytes"));
        }
        let w = read_u32(bytes, 0);
        Ok(Vtx10Params {
            x: Fixed1_3_6::from_i16((w % 0x400) as i16),
            y: Fixed1_3_6::from_i16(((w / 0x400) % 0x400) as i16),
            z: Fixed1_3_6::from_i16(((w / 0x100000) % 0x400) as i16),
        })
    }

    pub fn write_bytes(&self, buffer: &mut Vec<u8>, pos: usize)
        requires
            pos + 4 <= old(buffer)@.len(),
        ensures
            final(buffer)@.len() == old(buffer)@.len(),
            final(buffer)@.subrange(pos as int, pos + 4) == self.enc(),
            forall|i: int|
                0 <= i < final(buffer)@.len() && !(pos <= i < pos + 4) ==> final(buffer)@[i]
                    == old(buffer)@[i],
    {
        let n = buffer.len();
        assert(pos + 4 <= n);
        let a = crate::lebytes::euclid_mod64(self.x.value as i64, 0x400) as u32;
        let b = crate::lebytes::euclid_mod64(self.y.value as i64, 0x400) as u32;
        let c = crate::lebytes::euclid_mod64(self.z.value as i64, 0x400) as u32;
        let w: u32 = a + 0x400 * b + 0x100000 * c;
        write_u32(buffer, pos, w);
        assert(buffer@.subrange(pos as int, pos + 4) =~= self.enc());
    }

    pub proof fn lemma_dec_enc(self)
        requires
            self.wf(),
        ensures
            Vtx10Params::dec(self.enc()) == self,
            self.enc().len() == 4,
    {
        lemma_auto_spec_u32_to_from_le_bytes();
        assert(self.enc().subrange(0, 4) =~= self.enc());
        lemma_pack3x10(
            self.x.value as int % 0x400,
            self.y.value as int % 0x400,
            self.z.value as int % 0x400,
        );
    }
}


/// Vertex position update: new x and y, the third coordinate kept.
#[derive(Clone, Copy, Debug, PartialEq, Eq, Structural)]
pub struct VtxXYParams {
    pub x: Fixed1_3_12,
    pub y: Fixed1_3_12,
}

impl VtxXYParams {
    pub open spec fn enc(self) -> Seq<u8> {
        spec_u32_to_le_bytes(
            pack2x16(u16_of_i16(self.x.value as int), u16_of_i16(self.y.value as int)) as u32,
        )
    }

    pub open spec fn dec(bytes: Seq<u8>) -> Self {
        let w = spec_u32_from_le_bytes(bytes.subrange(0, 4)) as int;
        (VtxXYParams {
            x: (Fixed1_3_12 { value: i16_of_u16(w % 0x10000) as i16 }),
            y: (Fixed1_3_12 { value: i16_of_u16(w / 0x10000) as i16 }),
        })
    }

    pub fn from_bytes(bytes: &[u8]) -> (r: Result<VtxXYParams, AppError>)
        ensures
            r is Ok <==> bytes@.len() >= 4,
            r is Ok ==> r->Ok_0 == VtxXYParams::dec(bytes@),
    {
        if bytes.len() < 4 {
            return Err(AppError::new("VtxXYParams needs at least 4 bytes"));
        }
        let w = read_u32(bytes, 0);
        Ok(VtxXYParams {
            x: Fixed1_3_12::from_i16(i16_from_bits((w % 0x10000) as u16)),
            y: Fixed1_3_12::from_i16(i16_from_bits((w / 0x10000) as u16)),
        })
    }

    pub fn write_bytes(&self, buffer: &mut Vec<u8>, pos: usize)
        requires
            pos + 4 <= old(buffer)@.len(),
        ensures
            final(buffer)@.len() == old(buffer)@.len(),
            final(buffer)@.subrange(pos as int, pos + 4) == self.enc(),
            forall|i: int|
                0 <= i < final(buffer)@.len() && !(pos <= i < pos + 4) ==> final(buffer)@[i]
                    == old(buffer)@[i],
    {
        let n = buffer.len();
        assert(pos + 4 <= n);
        let w: u32 = i16_bits(self.x.value) as u32 + 0x10000 * (i16_bits(self.y.value) as u32);
        write_u32(buffer, pos, w);
        assert(buffer@.subrange(pos as int, pos + 4) =~= self.enc());
    }

    pub proof fn lemma_dec_enc(self)
        ensures
            VtxXYParams::dec(self.enc()) == self,
            self.enc().len() == 4,
    {
        lemma_auto_spec_u32_to_from_le_bytes();
        assert(self.enc().subrange(0, 4) =~= self.enc());
        lemma_pack2x16(u16_of_i16(self.x.value as int), u16_of_i16(self.y.value as int));
    }
}


/// Vertex position update: new x and z, the third coordinate kept.
#[derive(Clone, Copy, Debug, PartialEq, Eq, Structural)]
pub struct VtxXZParams {
    pub x: Fixed1_3_12,
    pub z: Fixed1_3_12,
}

impl VtxXZParams {
    pub open spec fn enc(self) -> Seq<u8> {
        spec_u32_to_le_bytes(
            pack2x16(u16_of_i16(self.x.value as int), u16_of_i16(self.z.value as int)) as u32,
        )
    }

    pub open spec fn dec(bytes: Seq<u8>) -> Self {
        let w = spec_u32_from_le_bytes(bytes.subrange(0, 4)) as int;
        (VtxXZParams {
            x: (Fixed1_3_12 { value: i16_of_u16(w % 0x10000) as i16 }),
            z: (Fixed1_3_12 { value: i16_of_u16(w / 0x10000) as i16 }),
        })
    }

    pub fn from_bytes(bytes: &[u8]) -> (r: Result<VtxXZParams, AppError>)
        ensures
            r is Ok <==> bytes@.len() >= 4,
            r is Ok ==> r->Ok_0 == VtxXZParams::dec(bytes@),
    {
        if bytes.len() < 4 {
            return Err(AppError::new("VtxXZParams needs at least 4 bytes"));
        }
        let w = read_u32(bytes, 0);
        Ok(VtxXZParams {
            x: Fixed1_3_12::from_i16(i16_from_bits((w % 0x10000) as u16)),
            z: Fixed1_3_12::from_i16(i16_from_bits((w / 0x10000) as u16)),
        })
    }

    pub fn write_bytes(&self, buffer: &mut Vec<u8>, pos: usize)
        requires
            pos + 4 <= old(buffer)@.len(),
        ensures
            final(buffer)@.len() == old(buffer)@.len(),
            final(buffer)@.subrange(pos as int, pos + 4) == self.enc(),
            forall|i: int|
                0 <= i < final(buffer)@.len() && !(pos <= i < pos + 4) ==> final(buffer)@[i]
                    == old(buffer)@[i],
    {
        let n = buffer.len();
        assert(pos + 4 <= n);
        let w: u32 = i16_bits(self.x.value) as u32 + 0x10000 * (i16_bits(self.z.value) as u32);
        write_u32(buffer, pos, w);
        assert(buffer@.subrange(pos as int, pos + 4) =~= self.enc());
    }

    pub proof fn lemma_dec_enc(self)
        ensures
            VtxXZParams::dec(self.enc()) == self,
            self.enc().len() == 4,
    {
        lemma_auto_spec_u32_to_from_le_bytes();
        assert(self.enc().subrange(0, 4) =~= self.enc());
        lemma_pack2x16(u16_of_i16(self.x.value as int), u16_of_i16(self.z.value as int));
    }
}


/// Vertex position update: new y and z, the third coordinate kept.
#[derive(Clone, Copy, Debug, PartialEq, Eq, Structural)]
pub struct VtxYZParams {
    pub y: Fixed1_3_12,
    pub z: Fixed1_3_12,
}

impl VtxYZParams {
    pub open spec fn enc(self) -> Seq<u8> {
        spec_u32_to_le_bytes(
            pack2x16(u16_of_i16(self.y.value as int), u16_of_i16(self.z.value as int)) as u32,
        )
    }

    pub open spec fn dec(bytes: Seq<u8>) -> Self {
        let w = spec_u32_from_le_bytes(bytes.subrange(0, 4)) as int;
        (VtxYZParams {
            y: (Fixed1_3_12 { value: i16_of_u16(w % 0x10000) as i16 }),
            z: (Fixed1_3_12 { value: i16_of_u16(w / 0x10000) as i16 }),
        })
    }

    pub fn from_bytes(bytes: &[u8]) -> (r: Result<VtxYZParams, AppError>)
        ensures
            r is Ok <==> bytes@.len() >= 4,
            r is Ok ==> r->Ok_0 == VtxYZParams::dec(bytes@),
    {
        if bytes.len() < 4 {
            return Err(AppError::new("VtxYZParams needs at least 4 bytes"));
        }
        let w = read_u32(bytes, 0);
        Ok(VtxYZParams {
            y: Fixed1_3_12::from_i16(i16_from_bits((w % 0x10000) as u16)),
            z: Fixed1_3_12::from_i16(i16_from_bits((w / 0x10000) as u16)),
        })
    }

    pub fn write_bytes(&self, buffer: &mut Vec<u8>, pos: usize)
        requires
            pos + 4 <= old(buffer)@.len(),
        ensures
            final(buffer)@.len() == old(buffer)@.len(),
            final(buffer)@.subrange(pos as int, pos + 4) == self.enc(),
            forall|i: int|
                0 <= i < final(buffer)@.len() && !(pos <= i < pos + 4) ==> final(buffer)@[i]
                    == old(buffer)@[i],
    {
        let n = buffer.len();
        assert(pos + 4 <= n);
        let w: u32 = i16_bits(self.y.value) as u32 + 0x10000 * (i16_bits(self.z.value) as u32);
        write_u32(buffer, pos, w);
        assert(buffer@.subrange(pos as int, pos + 4) =~= self.enc());
    }

    pub proof fn lemma_dec_enc(self)
        ensures
            VtxYZParams::dec(self.enc()) == self,
            self.enc().len() == 4,
    {
        lemma_auto_spec_u32_to_from_le_bytes();
        assert(self.enc().subrange(0, 4) =~= self.enc());
        lemma_pack2x16(u16_of_i16(self.y.value as int), u16_of_i16(self.z.value as int));
    }
}


/// Relative vertex move: three 10-bit deltas in 1.3.12 units.
#[derive(Clone, Copy, Debug, PartialEq, Eq, Structural)]
pub struct VtxDiffParams {
    pub x: Fixed1_3_12,
    pub y: Fixed1_3_12,
    pub z: Fixed1_3_12,
}

impl VtxDiffParams {
    pub open spec fn wf(self) -> bool {
        &&& 0 <= self.x.value < 0x400
        &&& 0 <= self.y.value < 0x400
        &&& 0 <= self.z.value < 0x400
    }

    pub open spec fn enc(self) -> Seq<u8> {
        spec_u32_to_le_bytes(
            pack3x10(
                self.x.value as int % 0x400,
                self.y.value as int % 0x400,
                self.z.value as int % 0x400,
            ) as u32,
        )
    }

    pub open spec fn dec(bytes: Seq<u8>) -> Self {
        let w = spec_u32_from_le_bytes(bytes.subrange(0, 4)) as int;
        (VtxDiffParams {
            x: (Fixed1_3_12 { value: (w % 0x400) as i16 }),
            y: (Fixed1_3_12 { value: ((w / 0x400) % 0x400) as i16 }),
            z: (Fixed1_3_12 { value: ((w / 0x100000) % 0x400) as i16 }),
        })
    }

    pub fn from_bytes(bytes: &[u8]) -> (r: Result<VtxDiffParams, AppError>)
        ensures
            r is Ok <==> bytes@.len() >= 4,
            r is Ok ==> r->Ok_0 == VtxDiffParams::dec(bytes@) && r->Ok_0.wf(),
    {
        if bytes.len() < 4 {
            return Err(AppError::new("VtxDiffParams needs at least 4 bytes"));
        }
        let w = read_u32(bytes, 0);
        Ok(VtxDiffParams {
            x: Fixed1_3_12::from_i16((w % 0x400) as i16),
            y: Fixed1_3_12::from_i16(((w / 0x400) % 0x400) as i16),
            z: Fixed1_3_12::from_i16(((w / 0x100000) % 0x400) as i16),
        })
    }

    pub fn write_bytes(&self, buffer: &mut Vec<u8>, pos: usize)
        requires
            pos + 4 <= old(buffer)@.len(),
        ensures
            final(buffer)@.len() == old(buffer)@.len(),
            final(buffer)@.subrange(pos as int, pos + 4) == self.enc(),
            forall|i: int|
                0 <= i < final(buffer)@.len() && !(pos <= i < pos + 4) ==> final(buffer)@[i]
                    == old(buffer)@[i],
    {
        let n = buffer.len();
        assert(pos + 4 <= n);
        let a = crate::lebytes::euclid_mod64(self.x.value as i64, 0x400) as u32;
        let b = crate::lebytes::euclid_mod64(self.y.value as i64, 0x400) as u32;
        let c = crate::lebytes::euclid_mod64(self.z.value as i64, 0x400) as u32;
        let w: u32 = a + 0x400 * b + 0x100000 * c;
        write_u32(buffer, pos, w);
        assert(buffer@.subrange(pos as int, pos + 4) =~= self.enc());
    }

    pub proof fn lemma_dec_enc(self)
        requires
            self.wf(),
        ensures
            VtxDiffParams::dec(self.enc()) == self,
            self.enc().len() == 4,
    {
        lemma_auto_spec_u32_to_from_le_bytes();
        assert(self.enc().subrange(0, 4) =~= self.enc());
        lemma_pack3x10(
            self.x.value as int % 0x400,
            self.y.value as int % 0x400,
            self.z.value as int % 0x400,
        );
    }
}


/// Opens a vertex group for one primitive kind.
#[derive(Clone, Copy, Debug, PartialEq, Eq, Structural)]
pub struct BeginVtxsParams {
    pub primitive_type: u8,
}

impl BeginVtxsParams {
    /// Separate triangles.
    pub const TRIANGLE: u8 = 0x00;

    /// Separate quads.
    pub const QUAD: u8 = 0x01;

    /// Triangle strip.
    pub const TRIANGLE_STRIP: u8 = 0x02;

    /// Quad strip.
    pub const QUAD_STRIP: u8 = 0x03;

    pub open spec fn wf(self) -> bool {
        self.primitive_type < 4
    }

    pub open spec fn enc(self) -> Seq<u8> {
        spec_u32_to_le_bytes((self.primitive_type as int % 4) as u32)
    }

    pub open spec fn dec(bytes: Seq<u8>) -> Self {
        let w = spec_u32_from_le_bytes(bytes.subrange(0, 4)) as int;
        (BeginVtxsParams { primitive_type: (w % 4) as u8 })
    }

    pub fn from_bytes(bytes: &[u8]) -> (r: Result<BeginVtxsParams, AppError>)
        ensures
            r is Ok <==> bytes@.len() >= 4,
            r is Ok ==> r->Ok_0 == BeginVtxsParams::dec(bytes@) && r->Ok_0.wf(),
    {
        if bytes.len() < 4 {
            return Err(AppError::new("BeginVtxsParams needs at least 4 bytes"));
        }
        let w = read_u32(bytes, 0);
        Ok(BeginVtxsParams { primitive_type: (w % 4) as u8 })
    }

    pub fn write_bytes(&self, buffer: &mut Vec<u8>, pos: usize)
        requires
            pos + 4 <= old(buffer)@.len(),
        ensures
            final(buffer)@.len() == old(buffer)@.len(),
            final(buffer)@.subrange(pos as int, pos + 4) == self.enc(),
            forall|i: int|
                0 <= i < final(buffer)@.len() && !(pos <= i < pos + 4) ==> final(buffer)@[i]
                    == old(buffer)@[i],
    {
        let n = buffer.len();
        assert(pos + 4 <= n);
        let w: u32 = (self.primitive_type % 4) as u32;
        write_u32(buffer, pos, w);
        assert(buffer@.subrange(pos as int, pos + 4) =~= self.enc());
    }

    pub proof fn lemma_dec_enc(self)
        requires
            self.wf(),
        ensures
            BeginVtxsParams::dec(self.enc()) == self,
            self.enc().len() == 4,
    {
        lemma_auto_spec_u32_to_from_le_bytes();
        assert(self.enc().subrange(0, 4) =~= self.enc());
    }
}

} // verus!
