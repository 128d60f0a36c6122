//! Palette records of the texture subfile: a 4-byte record holding the
//! palette base and an undecoded half-word, held in a `NameList`.

use crate::error::AppError;
use crate::name_list::NameList;
use crate::traits::BinarySerializable;
use vstd::bytes::spec_u16_from_le_bytes;
use vstd::bytes::spec_u16_to_le_bytes;
use vstd::prelude::*;

verus! {

/// The packed palette-base half-word.
#[derive(Clone, Copy, Debug, PartialEq, Eq, Structural)]
pub struct PlttBase {
    pub data: u16,
}

impl PlttBase {
    pub fn new(data: u16) -> (r: PlttBase)
        ensures
            r.data == data,
    {
        PlttBase { data }
    }

    /// The palette base address, in palette memory units.
    pub fn palette_base(&self) -> (r: u16)
        ensures
            r == self.data as int % 0x2000,
    {
        self.data % 0x2000
    }

    /// The two bits above the base; zero in every known file.
    pub fn unused(&self) -> (r: u8)
        ensures
            r == (self.data as int / 0x2000) % 4,
    {
        ((self.data / 0x2000) % 4) as u8
    }
}

/// One 4-byte palette record.
#[derive(Clone, Copy, Debug, PartialEq, Eq, Structural)]
pub struct Palette {
    pub pltt_base: PlttBase,
    pub unknown: u16,
}

impl BinarySerializable for Palette {
    open spec fn wf(&self) -> bool {
        true
    }

    open spec fn enc(&self) -> Seq<u8> {
        spec_u16_to_le_bytes(self.pltt_base.data) + spec_u16_to_le_bytes(self.unknown)
    }

    open spec fn spec_size(&self) -> int {
        4
    }

    proof fn lemma_size(&self) {
        vstd::bytes::lemma_auto_spec_u16_to_from_le_bytes();
    }

    open spec fn spec_can_decode(bytes: Seq<u8>) -> bool {
        bytes.len() >= 4
    }

    open spec fn spec_dec_size(bytes: Seq<u8>) -> int {
        4
    }

    fn from_bytes(bytes: &[u8]) -> (r: Result<Self, AppError>)
        ensures
            r is Ok ==> r->Ok_0.pltt_base.data == spec_u16_from_le_bytes(bytes@.subrange(0, 2))
                && r->Ok_0.unknown == spec_u16_from_le_bytes(bytes@.subrange(2, 4)),
    {
        if bytes.len() < 4 {
            return Err(AppError::new("Palette needs at least 4 bytes to start reading"));
        }
        let p = Palette {
            pltt_base: PlttBase::new(crate::lebytes::read_u16(bytes, 0)),
            unknown: crate::lebytes::read_u16(bytes, 2),
        };
        proof {
            vstd::bytes::lemma_auto_spec_u16_to_from_le_bytes();
            assert(p.enc() =~= bytes@.subrange(0, 4));
        }
        Ok(p)
    }

    fn to_bytes(&self) -> (r: Result<Vec<u8>, AppError>) {
        let mut bytes = vstd::bytes::u16_to_le_bytes(self.pltt_base.data);
        let tail = vstd::bytes::u16_to_le_bytes(self.unknown);
        let b0 = tail[0];
        let b1 = tail[1];
        bytes.push(b0);
        bytes.push(b1);
        proof {
            assert(bytes@ =~= self.enc());
        }
        Ok(bytes)
    }

    fn write_bytes(&self, buffer: &mut Vec<u8>, pos: usize) {
        let n = buffer.len();
        assert(pos + 4 <= n);
        crate::lebytes::write_u16(buffer, pos, self.pltt_base.data);
        crate::lebytes::write_u16(buffer, pos + 2, self.unknown);
        assert(buffer@.subrange(pos as int, pos + 4) =~= self.enc());
    }

    fn size(&self) -> usize {
        4
    }
}

/// The palette records of a texture subfile.
#[derive(Clone, Debug)]
pub struct PaletteList {
    pub palettes: NameList<Palette>,
}

impl PaletteList {
    pub open spec fn wf(self) -> bool {
        self.palettes.wf()
    }

    pub fn from_bytes(bytes: &[u8]) -> (r: Result<Self, AppError>)
        ensures
            r is Err <==> crate::name_list::nl_decode_err::<Palette>(bytes@),
            r is Ok ==> r->Ok_0.wf(),
    {
        let palettes = match NameList::<Palette>::from_bytes(bytes) {
            Ok(p) => p,
            Err(e) => return Err(e),
        };
        Ok(PaletteList { palettes })
    }

    pub fn write_bytes(&self, buffer: &mut Vec<u8>, pos: usize)
        requires
            self.wf(),
            pos + self.palettes.size as int <= old(buffer)@.len(),
        ensures
            final(buffer)@.len() == old(buffer)@.len(),
            forall|i: int|
                0 <= i < final(buffer)@.len() && !(pos <= i < pos + self.palettes.size as int)
                    ==> final(buffer)@[i] == old(buffer)@[i],
            crate::name_list::nl_written(self.palettes, final(buffer)@, pos as int),
    {
        self.palettes.write_bytes(buffer, pos);
    }

    pub fn size(&self) -> (r: usize)
        ensures
            r == self.palettes.size as int,
    {
        self.palettes.size()
    }
}

} // verus!
