//! Texture records of the texture subfile: an 8-byte record of two packed
//! parameter words, held in a `NameList`.

use crate::error::AppError;
use crate::name::Name;
use crate::name_list::NameList;
use crate::traits::BinarySerializable;
use vstd::bytes::spec_u32_from_le_bytes;
use vstd::bytes::spec_u32_to_le_bytes;
use vstd::prelude::*;

verus! {

/// The packed sampling-parameter word of a texture record.
#[derive(Clone, Copy, Debug, PartialEq, Eq, Structural)]
pub struct TeximageParams {
    pub data: u32,
}

impl TeximageParams {
    pub fn new(data: u32) -> (r: TeximageParams)
        ensures
            r.data == data,
    {
        TeximageParams { data }
    }

    /// The texel-data offset field, in 8-byte units.
    pub fn texture_data(&self) -> (r: u16)
        ensures
            r == self.data as int % 0x10000,
    {
        (self.data % 0x10000) as u16
    }

    /// Zero in stored files; carried from the model's material otherwise.
    pub fn unknown_0(&self) -> (r: u8)
        ensures
            r == (self.data as int / 0x10000) % 16,
    {
        ((self.data / 0x10000) % 16) as u8
    }

    /// The width exponent: 8 shifted left by this is the texel width.
    pub fn texture_s_size(&self) -> (r: u8)
        ensures
            r == (self.data as int / 0x100000) % 8,
    {
        ((self.data / 0x100000) % 8) as u8
    }

    /// The height exponent: 8 shifted left by this is the texel height.
    pub fn texture_t_size(&self) -> (r: u8)
        ensures
            r == (self.data as int / 0x800000) % 8,
    {
        ((self.data / 0x800000) % 8) as u8
    }

    pub fn texture_format(&self) -> (r: u8)
        ensures
            r == (self.data as int / 0x400_0000) % 4,
    {
        ((self.data / 0x400_0000) % 4) as u8
    }

    pub fn palette_color_0_transparent(&self) -> (r: bool)
        ensures
            r == ((self.data as int / 0x2000_0000) % 2 == 1),
    {
        (self.data / 0x2000_0000) % 2 == 1
    }

    /// Zero in stored files; carried from the model's material otherwise.
    pub fn unknown_1(&self) -> (r: u8)
        ensures
            r == (self.data as int / 0x4000_0000) % 4,
    {
        ((self.data / 0x4000_0000) % 4) as u8
    }
}

/// The packed width/height word of a texture record.
#[derive(Clone, Copy, Debug, PartialEq, Eq, Structural)]
pub struct WidthHeight {
    pub data: u32,
}

impl WidthHeight {
    pub fn new(data: u32) -> (r: WidthHeight)
        ensures
            r.data == data,
    {
        WidthHeight { data }
    }

    pub fn width(&self) -> (r: u16)
        ensures
            r == self.data as int % 0x800,
    {
        (self.data % 0x800) as u16
    }

    pub fn height(&self) -> (r: u16)
        ensures
            r == (self.data as int / 0x800) % 0x800,
    {
        ((self.data / 0x800) % 0x800) as u16
    }
}

/// One 8-byte texture record.
#[derive(Clone, Copy, Debug, PartialEq, Eq, Structural)]
pub struct Texture {
    pub teximage_params: TeximageParams,
    pub width_height: WidthHeight,
}

impl Texture {
    pub fn width(&self) -> (r: u16)
        ensures
            r == self.width_height.data as int % 0x800,
    {
        self.width_height.width()
    }

    pub fn height(&self) -> (r: u16)
        ensures
            r == (self.width_height.data as int / 0x800) % 0x800,
    {
        self.width_height.height()
    }
}

impl BinarySerializable for Texture {
    open spec fn wf(&self) -> bool {
        true
    }

    open spec fn enc(&self) -> Seq<u8> {
        spec_u32_to_le_bytes(self.teximage_params.data) + spec_u32_to_le_bytes(
            self.width_height.data,
        )
    }

    open spec fn spec_size(&self) -> int {
        8
    }

    proof fn lemma_size(&self) {
        vstd::bytes::lemma_auto_spec_u32_to_from_le_bytes();
    }

    open spec fn spec_can_decode(bytes: Seq<u8>) -> bool {
        bytes.len() >= 8
    }

    open spec fn spec_dec_size(bytes: Seq<u8>) -> int {
        8
    }

    fn from_bytes(bytes: &[u8]) -> (r: Result<Self, AppError>)
        ensures
            r is Ok ==> r->Ok_0.teximage_params.data == spec_u32_from_le_bytes(
                bytes@.subrange(0, 4),
            ) && r->Ok_0.width_height.data == spec_u32_from_le_bytes(bytes@.subrange(4, 8)),
    {
        if bytes.len() < 8 {
            return Err(AppError::new("Texture needs at least 8 bytes to start reading"));
        }
        let t = Texture {
            teximage_params: TeximageParams::new(crate::lebytes::read_u32(bytes, 0)),
            width_height: WidthHeight::new(crate::lebytes::read_u32(bytes, 4)),
        };
        proof {
            vstd::bytes::lemma_auto_spec_u32_to_from_le_bytes();
            assert(t.enc() =~= bytes@.subrange(0, 8));
        }
        Ok(t)
    }

    fn to_bytes(&self) -> (r: Result<Vec<u8>, AppError>) {
        let mut bytes = vstd::bytes::u32_to_le_bytes(self.teximage_params.data);
        let tail = vstd::bytes::u32_to_le_bytes(self.width_height.data);
        let mut k: usize = 0;
        while k < 4
            invariant
                k <= 4,
                tail@ == spec_u32_to_le_bytes(self.width_height.data),
                tail@.len() == 4,
                bytes@ == spec_u32_to_le_bytes(self.teximage_params.data) + tail@.take(k as int),
            decreases 4 - k,
        {
            let b = tail[k];
            bytes.push(b);
            proof {
                assert(spec_u32_to_le_bytes(self.teximage_params.data) + tail@.take(k + 1)
                    =~= (spec_u32_to_le_bytes(self.teximage_params.data) + tail@.take(
                    k as int,
                )).push(tail@[k as int]));
            }
            k = k + 1;
        }
        proof {
            assert(bytes@ =~= self.enc());
        }
        Ok(bytes)
    }

    fn write_bytes(&self, buffer: &mut Vec<u8>, pos: usize) {
        let n = buffer.len();
        assert(pos + 8 <= n);
        crate::lebytes::write_u32(buffer, pos, self.teximage_params.data);
        crate::lebytes::write_u32(buffer, pos + 4, self.width_height.data);
        assert(buffer@.subrange(pos as int, pos + 8) =~= self.enc());
    }

    fn size(&self) -> usize {
        8
    }
}

/// The texture records of a texture subfile.
#[derive(Clone, Debug)]
pub struct TextureList {
    pub textures: NameList<Texture>,
}

impl TextureList {
    pub open spec fn wf(self) -> bool {
        self.textures.wf()
    }

    pub fn from_bytes(bytes: &[u8]) -> (r: Result<Self, AppError>)
        ensures
            r is Err <==> crate::name_list::nl_decode_err::<Texture>(bytes@),
            r is Ok ==> r->Ok_0.wf(),
    {
        let textures = match NameList::<Texture>::from_bytes(bytes) {
            Ok(t) => t,
            Err(e) => return Err(e),
        };
        Ok(TextureList { textures })
    }

    pub fn write_bytes(&self, buffer: &mut Vec<u8>, pos: usize)
        requires
            self.wf(),
            pos + self.textures.size as int <= old(buffer)@.len(),
        ensures
            final(buffer)@.len() == old(buffer)@.len(),
            forall|i: int|
                0 <= i < final(buffer)@.len() && !(pos <= i < pos + self.textures.size as int)
                    ==> final(buffer)@[i] == old(buffer)@[i],
            crate::name_list::nl_written(self.textures, final(buffer)@, pos as int),
    {
        self.textures.write_bytes(buffer, pos);
    }

    pub fn get_texture(&self, index: usize) -> (r: Option<&Texture>)
        ensures
            index < self.textures.data@.len() ==> r is Some && *r->Some_0
                == self.textures.data@[index as int],
            index >= self.textures.data@.len() ==> r is None,
    {
        self.textures.get(index)
    }

    pub fn get_texture_name(&self, index: usize) -> (r: Option<&Name>)
        ensures
            index < self.textures.names@.len() ==> r is Some && *r->Some_0
                == self.textures.names@[index as int],
            index >= self.textures.names@.len() ==> r is None,
    {
        self.textures.get_name(index)
    }

    pub fn size(&self) -> (r: usize)
        ensures
            r == self.textures.size as int,
    {
        self.textures.size()
    }
}

} // verus!
