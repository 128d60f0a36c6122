//! The capability set a record type needs to live inside a `NameList`:
//! decode from a byte slice, write into a buffer, and report its exact
//! encoded size.

use crate::error::AppError;
use vstd::bytes::lemma_auto_spec_u16_to_from_le_bytes;
use vstd::bytes::lemma_auto_spec_u32_to_from_le_bytes;
use vstd::bytes::lemma_auto_spec_u64_to_from_le_bytes;
use vstd::bytes::spec_u16_from_le_bytes;
use vstd::bytes::spec_u16_to_le_bytes;
use vstd::bytes::spec_u32_from_le_bytes;
use vstd::bytes::spec_u32_to_le_bytes;
use vstd::bytes::spec_u64_from_le_bytes;
use vstd::bytes::spec_u64_to_le_bytes;
use vstd::prelude::*;

verus! {

pub trait BinarySerializable: Sized {
    /// The record is internally consistent and may be written.
    spec fn wf(&self) -> bool;

    /// The record's own encoded bytes (for records that carry offsets into
    /// an enclosing structure, the header part alone).
    spec fn enc(&self) -> Seq<u8>;

    /// The encoded byte count.
    spec fn spec_size(&self) -> int;

    proof fn lemma_size(&self)
        ensures
            self.spec_size() == self.enc().len(),
            0 <= self.spec_size() <= 0xFFFF,
    ;

    /// Whether a record decodes from the start of `bytes`; `from_bytes`
    /// succeeds exactly on such input.
    spec fn spec_can_decode(bytes: Seq<u8>) -> bool;

    /// The encoded size of the record the start of `bytes` decodes to.
    spec fn spec_dec_size(bytes: Seq<u8>) -> int;

    fn from_bytes(bytes: &[u8]) -> (r: Result<Self, AppError>)
        ensures
            r is Ok <==> Self::spec_can_decode(bytes@),
            r is Ok ==> r->Ok_0.wf() && r->Ok_0.spec_size() == Self::spec_dec_size(bytes@)
                && r->Ok_0.enc() == bytes@.subrange(0, r->Ok_0.spec_size()),
    ;

    fn to_bytes(&self) -> (r: Result<Vec<u8>, AppError>)
        requires
            self.wf(),
        ensures
            r is Ok ==> r->Ok_0@ == self.enc(),
    ;

    fn write_bytes(&self, buffer: &mut Vec<u8>, pos: usize)
        requires
            self.wf(),
            pos + self.spec_size() <= old(buffer)@.len(),
        ensures
            final(buffer)@.len() == old(buffer)@.len(),
            final(buffer)@.subrange(pos as int, pos + self.spec_size()) == self.enc(),
            forall|i: int|
                0 <= i < final(buffer)@.len() && !(pos <= i < pos + self.spec_size())
                    ==> final(buffer)@[i] == old(buffer)@[i],
    ;

    fn size(&self) -> (r: usize)
        requires
            self.wf(),
        ensures
            r == self.spec_size(),
    ;
}

impl BinarySerializable for u8 {
    open spec fn wf(&self) -> bool {
        true
    }

    open spec fn enc(&self) -> Seq<u8> {
        seq![*self]
    }

    open spec fn spec_size(&self) -> int {
        1
    }

    proof fn lemma_size(&self) {
    }

    open spec fn spec_can_decode(bytes: Seq<u8>) -> bool {
        bytes.len() >= 1
    }

    open spec fn spec_dec_size(bytes: Seq<u8>) -> int {
        1
    }

    fn from_bytes(bytes: &[u8]) -> (r: Result<Self, AppError>)
        ensures
            r is Ok ==> r->Ok_0 == bytes@[0],
    {
        if bytes.len() < 1 {
            return Err(AppError::new("u8 needs at least 1 byte"));
        }
        let v = crate::lebytes::read_u8(bytes, 0);
        assert(v.enc() =~= bytes@.subrange(0, 1));
        Ok(v)
    }

    fn to_bytes(&self) -> (r: Result<Vec<u8>, AppError>) {
        let mut v: Vec<u8> = Vec::new();
        v.push(*self);
        proof {
            assert(v@ =~= self.enc());
        }
        Ok(v)
    }

    fn write_bytes(&self, buffer: &mut Vec<u8>, pos: usize) {
        crate::lebytes::write_u8(buffer, pos, *self);
        assert(buffer@.subrange(pos as int, pos + 1) =~= self.enc());
    }

    fn size(&self) -> usize {
        1
    }
}

impl BinarySerializable for u16 {
    open spec fn wf(&self) -> bool {
        true
    }

    open spec fn enc(&self) -> Seq<u8> {
        spec_u16_to_le_bytes(*self)
    }

    open spec fn spec_size(&self) -> int {
        2
    }

    proof fn lemma_size(&self) {
        lemma_auto_spec_u16_to_from_le_bytes();
    }

    open spec fn spec_can_decode(bytes: Seq<u8>) -> bool {
        bytes.len() >= 2
    }

    open spec fn spec_dec_size(bytes: Seq<u8>) -> int {
        2
    }

    fn from_bytes(bytes: &[u8]) -> (r: Result<Self, AppError>)
        ensures
            r is Ok ==> r->Ok_0 == spec_u16_from_le_bytes(bytes@.subrange(0, 2)),
    {
        if bytes.len() < 2 {
            return Err(AppError::new("u16 needs at least 2 bytes"));
        }
        let v = crate::lebytes::read_u16(bytes, 0);
        proof {
            lemma_auto_spec_u16_to_from_le_bytes();
            assert(v.enc() =~= bytes@.subrange(0, 2));
        }
        Ok(v)
    }

    fn to_bytes(&self) -> (r: Result<Vec<u8>, AppError>) {
        Ok(vstd::bytes::u16_to_le_bytes(*self))
    }

    fn write_bytes(&self, buffer: &mut Vec<u8>, pos: usize) {
        crate::lebytes::write_u16(buffer, pos, *self);
    }

    fn size(&self) -> usize {
        2
    }
}

impl BinarySerializable for u32 {
    open spec fn wf(&self) -> bool {
        true
    }

    open spec fn enc(&self) -> Seq<u8> {
        spec_u32_to_le_bytes(*self)
    }

    open spec fn spec_size(&self) -> int {
        4
    }

    proof fn lemma_size(&self) {
        lemma_auto_spec_u32_to_from_le_bytes();
    }

    open spec fn spec_can_decode(bytes: Seq<u8>) -> bool {
        bytes.len() >= 4
    }

    open spec fn spec_dec_size(bytes: Seq<u8>) -> int {
        4
    }

    fn from_bytes(bytes: &[u8]) -> (r: Result<Self, AppError>)
        ensures
            r is Ok ==> r->Ok_0 == spec_u32_from_le_bytes(bytes@.subrange(0, 4)),
    {
        if bytes.len() < 4 {
            return Err(AppError::new("u32 needs at least 4 bytes"));
        }
        let v = crate::lebytes::read_u32(bytes, 0);
        proof {
            lemma_auto_spec_u32_to_from_le_bytes();
            assert(v.enc() =~= bytes@.subrange(0, 4));
        }
        Ok(v)
    }

    fn to_bytes(&self) -> (r: Result<Vec<u8>, AppError>) {
        Ok(vstd::bytes::u32_to_le_bytes(*self))
    }

    fn write_bytes(&self, buffer: &mut Vec<u8>, pos: usize) {
        crate::lebytes::write_u32(buffer, pos, *self);
    }

    fn size(&self) -> usize {
        4
    }
}

impl BinarySerializable for u64 {
    open spec fn wf(&self) -> bool {
        true
    }

    open spec fn enc(&self) -> Seq<u8> {
        spec_u64_to_le_bytes(*self)
    }

    open spec fn spec_size(&self) -> int {
        8
    }

    proof fn lemma_size(&self) {
        lemma_auto_spec_u64_to_from_le_bytes();
    }

    open spec fn spec_can_decode(bytes: Seq<u8>) -> bool {
        bytes.len() >= 8
    }

    open spec fn spec_dec_size(bytes: Seq<u8>) -> int {
        8
    }

    fn from_bytes(bytes: &[u8]) -> (r: Result<Self, AppError>)
        ensures
            r is Ok ==> r->Ok_0 == spec_u64_from_le_bytes(bytes@.subrange(0, 8)),
    {
        if bytes.len() < 8 {
            return Err(AppError::new("u64 needs at least 8 bytes"));
        }
        let n = bytes.len();
        assert(8 <= n);
        let v = vstd::bytes::u64_from_le_bytes(vstd::slice::slice_subrange(bytes, 0, 8));
        proof {
            lemma_auto_spec_u64_to_from_le_bytes();
            assert(v.enc() =~= bytes@.subrange(0, 8));
        }
        Ok(v)
    }

    fn to_bytes(&self) -> (r: Result<Vec<u8>, AppError>) {
        Ok(vstd::bytes::u64_to_le_bytes(*self))
    }

    fn write_bytes(&self, buffer: &mut Vec<u8>, pos: usize) {
        proof {
            lemma_auto_spec_u64_to_from_le_bytes();
        }
        let n = buffer.len();
        assert(pos + 8 <= n);
        let b = vstd::bytes::u64_to_le_bytes(*self);
        let mut k: usize = 0;
        while k < 8
            invariant
                k <= 8,
                pos + 8 <= usize::MAX,
                pos + 8 <= buffer@.len(),
                buffer@.len() == old(buffer)@.len(),
                b@ == self.enc(),
                b@.len() == 8,
                forall|i: int|
                    0 <= i < buffer@.len() && !(pos <= i < pos + k) ==> buffer@[i] == old(
                        buffer,
                    )@[i],
                forall|i: int| 0 <= i < k ==> buffer@[pos + i] == b@[i],
            decreases 8 - k,
        {
            let x = b[k];
            crate::lebytes::write_u8(buffer, pos + k, x);
            k = k + 1;
        }
        assert(buffer@.subrange(pos as int, pos + 8) =~= self.enc());
    }

    fn size(&self) -> usize {
        8
    }
}

} // verus!
