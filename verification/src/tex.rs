//! The texture subfile: a 60-byte fixed header addressing a texture list,
//! a compressed-texture list, a palette list, and the raw texel and
//! palette byte blobs.

use crate::error::AppError;
use crate::texture::Texture;
use crate::palette::Palette;
use crate::lebytes::read_u16;
use crate::lebytes::read_u32;
use crate::lebytes::read_u8;
use crate::lebytes::write_u16;
use crate::lebytes::write_u32;
use crate::lebytes::write_u8;
use crate::palette::PaletteList;
use crate::texture::TextureList;
use vstd::bytes::spec_u16_from_le_bytes;
use vstd::bytes::spec_u16_to_le_bytes;
use vstd::bytes::spec_u32_from_le_bytes;
use vstd::bytes::spec_u32_to_le_bytes;
use vstd::prelude::*;
use vstd::slice::slice_subrange;

verus! {

/// One texture subfile.
#[derive(Clone, Debug)]
pub struct Tex {
    pub stamp: [u8; 4],
    pub chunk_size: u32,
    pub padding_0: u32,
    pub texture_data_size: u16,
    pub texture_list_offset: u16,
    pub padding_1: u32,
    pub texture_data_offset: u32,
    pub padding_2: u32,
    pub compressed_texture_data_size: u16,
    pub compressed_texture_list_offset: u16,
    pub padding_3: u32,
    pub compressed_texture_4x4_data_offset: u32,
    pub compressed_texture_4x4_attr_offset: u32,
    pub padding_4: u32,
    pub palette_data_size: u32,
    pub palette_list_offset: u32,
    pub palette_data_offset: u32,
    pub texture_list: TextureList,
    pub compressed_texture_list: TextureList,
    pub palette_list: PaletteList,
    pub texture_data: Vec<u8>,
    pub palette_data: Vec<u8>,
}

/// Some failure of a texture-subfile decode, over the raw bytes: a
/// truncated header, a list offset past the buffer, a record list that
/// does not decode, or a data blob past the buffer or too large.
pub open spec fn tex_decode_err(bytes: Seq<u8>) -> bool {
    let n = bytes.len() as int;
    let tex_data_size = spec_u16_from_le_bytes(bytes.subrange(12, 14)) as int;
    let tex_list_off = spec_u16_from_le_bytes(bytes.subrange(14, 16)) as int;
    let tex_data_off = spec_u32_from_le_bytes(bytes.subrange(20, 24)) as int;
    let comp_list_off = spec_u16_from_le_bytes(bytes.subrange(30, 32)) as int;
    let pal_data_size = spec_u32_from_le_bytes(bytes.subrange(48, 52)) as int;
    let pal_list_off = spec_u32_from_le_bytes(bytes.subrange(52, 56)) as int;
    let pal_data_off = spec_u32_from_le_bytes(bytes.subrange(56, 60)) as int;
    ||| n < 60
    ||| tex_list_off > n
    ||| crate::name_list::nl_decode_err::<Texture>(bytes.subrange(tex_list_off, n))
    ||| comp_list_off > n
    ||| crate::name_list::nl_decode_err::<Texture>(bytes.subrange(comp_list_off, n))
    ||| pal_list_off > n
    ||| crate::name_list::nl_decode_err::<Palette>(bytes.subrange(pal_list_off, n))
    ||| tex_data_off + 8 * tex_data_size > n
    ||| pal_data_size > 0x1FFF_FFFF
    ||| pal_data_off + 8 * pal_data_size > n
}

/// The subfile's encoded image stands in `v` at `pos`: the 60-byte
/// header, the three record lists, and the two data blobs at their
/// recorded offsets.
pub open spec fn tex_written(t: Tex, v: Seq<u8>, pos: int) -> bool {
    &&& v.subrange(pos, pos + 4) == t.stamp@
    &&& v.subrange(pos + 4, pos + 8) == spec_u32_to_le_bytes(t.chunk_size)
    &&& v.subrange(pos + 8, pos + 12) == spec_u32_to_le_bytes(t.padding_0)
    &&& v.subrange(pos + 12, pos + 14) == spec_u16_to_le_bytes(t.texture_data_size)
    &&& v.subrange(pos + 14, pos + 16) == spec_u16_to_le_bytes(t.texture_list_offset)
    &&& v.subrange(pos + 16, pos + 20) == spec_u32_to_le_bytes(t.padding_1)
    &&& v.subrange(pos + 20, pos + 24) == spec_u32_to_le_bytes(t.texture_data_offset)
    &&& v.subrange(pos + 24, pos + 28) == spec_u32_to_le_bytes(t.padding_2)
    &&& v.subrange(pos + 28, pos + 30) == spec_u16_to_le_bytes(t.compressed_texture_data_size)
    &&& v.subrange(pos + 30, pos + 32) == spec_u16_to_le_bytes(t.compressed_texture_list_offset)
    &&& v.subrange(pos + 32, pos + 36) == spec_u32_to_le_bytes(t.padding_3)
    &&& v.subrange(pos + 36, pos + 40) == spec_u32_to_le_bytes(t.compressed_texture_4x4_data_offset)
    &&& v.subrange(pos + 40, pos + 44) == spec_u32_to_le_bytes(t.compressed_texture_4x4_attr_offset)
    &&& v.subrange(pos + 44, pos + 48) == spec_u32_to_le_bytes(t.padding_4)
    &&& v.subrange(pos + 48, pos + 52) == spec_u32_to_le_bytes(t.palette_data_size)
    &&& v.subrange(pos + 52, pos + 56) == spec_u32_to_le_bytes(t.palette_list_offset)
    &&& v.subrange(pos + 56, pos + 60) == spec_u32_to_le_bytes(t.palette_data_offset)
    &&& crate::name_list::nl_written(
        t.texture_list.textures,
        v,
        pos + t.texture_list_offset as int,
    )
    &&& crate::name_list::nl_written(
        t.compressed_texture_list.textures,
        v,
        pos + t.compressed_texture_list_offset as int,
    )
    &&& crate::name_list::nl_written(t.palette_list.palettes, v, pos + t.palette_list_offset as int)
    &&& v.subrange(
        pos + t.texture_data_offset as int,
        pos + t.texture_data_offset as int + t.texture_data@.len(),
    ) == t.texture_data@
    &&& v.subrange(
        pos + t.palette_data_offset as int,
        pos + t.palette_data_offset as int + t.palette_data@.len(),
    ) == t.palette_data@
}

/// A later write that leaves the subfile's bytes alone leaves its image
/// standing.
pub proof fn lemma_tex_written_frame(t: Tex, v1: Seq<u8>, v2: Seq<u8>, pos: int)
    requires
        tex_written(t, v1, pos),
        t.wf(),
        t.layout_ok(),
        0 <= pos,
        pos + t.chunk_size as int <= v1.len(),
        v1.len() == v2.len(),
        forall|k: int| pos <= k < pos + t.chunk_size as int ==> v2[k] == v1[k],
    ensures
        tex_written(t, v2, pos),
{
    assert(v2.subrange(pos, pos + 4) =~= v1.subrange(pos, pos + 4));
    assert(v2.subrange(pos + 4, pos + 8) =~= v1.subrange(pos + 4, pos + 8));
    assert(v2.subrange(pos + 8, pos + 12) =~= v1.subrange(pos + 8, pos + 12));
    assert(v2.subrange(pos + 12, pos + 14) =~= v1.subrange(pos + 12, pos + 14));
    assert(v2.subrange(pos + 14, pos + 16) =~= v1.subrange(pos + 14, pos + 16));
    assert(v2.subrange(pos + 16, pos + 20) =~= v1.subrange(pos + 16, pos + 20));
    assert(v2.subrange(pos + 20, pos + 24) =~= v1.subrange(pos + 20, pos + 24));
    assert(v2.subrange(pos + 24, pos + 28) =~= v1.subrange(pos + 24, pos + 28));
    assert(v2.subrange(pos + 28, pos + 30) =~= v1.subrange(pos + 28, pos + 30));
    assert(v2.subrange(pos + 30, pos + 32) =~= v1.subrange(pos + 30, pos + 32));
    assert(v2.subrange(pos + 32, pos + 36) =~= v1.subrange(pos + 32, pos + 36));
    assert(v2.subrange(pos + 36, pos + 40) =~= v1.subrange(pos + 36, pos + 40));
    assert(v2.subrange(pos + 40, pos + 44) =~= v1.subrange(pos + 40, pos + 44));
    assert(v2.subrange(pos + 44, pos + 48) =~= v1.subrange(pos + 44, pos + 48));
    assert(v2.subrange(pos + 48, pos + 52) =~= v1.subrange(pos + 48, pos + 52));
    assert(v2.subrange(pos + 52, pos + 56) =~= v1.subrange(pos + 52, pos + 56));
    assert(v2.subrange(pos + 56, pos + 60) =~= v1.subrange(pos + 56, pos + 60));
    crate::name_list::lemma_nl_written_frame(
        t.texture_list.textures,
        v1,
        v2,
        pos + t.texture_list_offset as int,
    );
    crate::name_list::lemma_nl_written_frame(
        t.compressed_texture_list.textures,
        v1,
        v2,
        pos + t.compressed_texture_list_offset as int,
    );
    crate::name_list::lemma_nl_written_frame(
        t.palette_list.palettes,
        v1,
        v2,
        pos + t.palette_list_offset as int,
    );
    assert(v2.subrange(
        pos + t.texture_data_offset as int,
        pos + t.texture_data_offset as int + t.texture_data@.len(),
    ) =~= v1.subrange(
        pos + t.texture_data_offset as int,
        pos + t.texture_data_offset as int + t.texture_data@.len(),
    ));
    assert(v2.subrange(
        pos + t.palette_data_offset as int,
        pos + t.palette_data_offset as int + t.palette_data@.len(),
    ) =~= v1.subrange(
        pos + t.palette_data_offset as int,
        pos + t.palette_data_offset as int + t.palette_data@.len(),
    ));
}

impl Tex {
    pub open spec fn wf(self) -> bool {
        &&& self.texture_list.wf()
        &&& self.compressed_texture_list.wf()
        &&& self.palette_list.wf()
        &&& self.texture_data@.len() == 8 * self.texture_data_size as int
        &&& self.palette_data@.len() == 8 * self.palette_data_size as int
    }

    /// Every region the writer touches lies inside the chunk.
    pub open spec fn layout_ok(self) -> bool {
        &&& 60 <= self.chunk_size as int
        &&& 60 <= self.texture_list_offset as int
        &&& self.texture_list_offset as int + self.texture_list.textures.size as int
            <= self.compressed_texture_list_offset as int
        &&& self.compressed_texture_list_offset as int
            + self.compressed_texture_list.textures.size as int
            <= self.palette_list_offset as int
        &&& self.palette_list_offset as int + self.palette_list.palettes.size as int
            <= self.texture_data_offset as int
        &&& self.texture_data_offset as int + self.texture_data@.len()
            <= self.palette_data_offset as int
        &&& self.palette_data_offset as int + self.palette_data@.len() <= self.chunk_size as int
    }

    pub fn from_bytes(bytes: &[u8]) -> (r: Result<Tex, AppError>)
        ensures
            r is Err <==> tex_decode_err(bytes@),
            r is Ok ==> {
                let t = r->Ok_0;
                &&& t.wf()
                &&& t.stamp@ == bytes@.subrange(0, 4)
                &&& t.chunk_size == spec_u32_from_le_bytes(bytes@.subrange(4, 8))
                &&& t.texture_data_size == spec_u16_from_le_bytes(bytes@.subrange(12, 14))
                &&& t.texture_list_offset == spec_u16_from_le_bytes(bytes@.subrange(14, 16))
                &&& t.texture_data_offset == spec_u32_from_le_bytes(bytes@.subrange(20, 24))
                &&& t.compressed_texture_data_size == spec_u16_from_le_bytes(
                    bytes@.subrange(28, 30),
                )
                &&& t.compressed_texture_list_offset == spec_u16_from_le_bytes(
                    bytes@.subrange(30, 32),
                )
                &&& t.compressed_texture_4x4_data_offset == spec_u32_from_le_bytes(
                    bytes@.subrange(36, 40),
                )
                &&& t.compressed_texture_4x4_attr_offset == spec_u32_from_le_bytes(
                    bytes@.subrange(40, 44),
                )
                &&& t.texture_data@.len() == 8 * t.texture_data_size as int
                &&& t.texture_data@ == bytes@.subrange(
                    t.texture_data_offset as int,
                    t.texture_data_offset as int + 8 * t.texture_data_size as int,
                )
                &&& t.palette_data@ == bytes@.subrange(
                    t.palette_data_offset as int,
                    t.palette_data_offset as int + 8 * t.palette_data_size as int,
                )
                &&& t.palette_data_size == spec_u32_from_le_bytes(bytes@.subrange(48, 52))
                &&& t.palette_list_offset == spec_u32_from_le_bytes(bytes@.subrange(52, 56))
                &&& t.palette_data_offset == spec_u32_from_le_bytes(bytes@.subrange(56, 60))
            },
    {
        let n = bytes.len();
        if n < 60 {
            return Err(AppError::new("Tex needs at least 60 bytes to start reading"));
        }
        let stamp: [u8; 4] = [
            read_u8(bytes, 0),
            read_u8(bytes, 1),
            read_u8(bytes, 2),
            read_u8(bytes, 3),
        ];
        proof {
            assert(stamp@ =~= bytes@.subrange(0, 4));
        }
        let chunk_size = read_u32(bytes, 4);
        let padding_0 = read_u32(bytes, 8);
        let texture_data_size = read_u16(bytes, 12);
        let texture_list_offset = read_u16(bytes, 14);
        let padding_1 = read_u32(bytes, 16);
        let texture_data_offset = read_u32(bytes, 20);
        let padding_2 = read_u32(bytes, 24);
        let compressed_texture_data_size = read_u16(bytes, 28);
        let compressed_texture_list_offset = read_u16(bytes, 30);
        let padding_3 = read_u32(bytes, 32);
        let compressed_texture_4x4_data_offset = read_u32(bytes, 36);
        let compressed_texture_4x4_attr_offset = read_u32(bytes, 40);
        let padding_4 = read_u32(bytes, 44);
        let palette_data_size = read_u32(bytes, 48);
        let palette_list_offset = read_u32(bytes, 52);
        let palette_data_offset = read_u32(bytes, 56);
        if texture_list_offset as usize > n {
            return Err(AppError::new("Texture list offset is out of bounds"));
        }
        let texture_list = match TextureList::from_bytes(
            slice_subrange(bytes, texture_list_offset as usize, n),
        ) {
            Ok(t) => t,
            Err(e) => return Err(e),
        };
        if compressed_texture_list_offset as usize > n {
            return Err(AppError::new("Compressed texture list offset is out of bounds"));
        }
        let compressed_texture_list = match TextureList::from_bytes(
            slice_subrange(bytes, compressed_texture_list_offset as usize, n),
        ) {
            Ok(t) => t,
            Err(e) => return Err(e),
        };
        if palette_list_offset as usize > n {
            return Err(AppError::new("Palette list offset is out of bounds"));
        }
        let palette_list = match PaletteList::from_bytes(
            slice_subrange(bytes, palette_list_offset as usize, n),
        ) {
            Ok(p) => p,
            Err(e) => return Err(e),
        };
        if texture_data_offset as usize > n || 8 * (texture_data_size as usize) > n
            - texture_data_offset as usize {
            return Err(AppError::new("Texture data is out of bounds"));
        }
        let mut texture_data: Vec<u8> = Vec::new();
        let mut i: usize = 0;
        let tex_total = 8 * (texture_data_size as usize);
        while i < tex_total
            invariant
                i <= tex_total,
                n == bytes@.len(),
                texture_data_offset as int + tex_total <= n,
                texture_data@.len() == i,
                forall|k: int|
                    0 <= k < i ==> texture_data@[k] == bytes@[texture_data_offset as int + k],
            decreases tex_total - i,
        {
            texture_data.push(read_u8(bytes, texture_data_offset as usize + i));
            i = i + 1;
        }
        proof {
            assert(texture_data@ =~= bytes@.subrange(
                texture_data_offset as int,
                texture_data_offset as int + tex_total as int,
            ));
        }
        if palette_data_size as usize > 0x1FFF_FFFF {
            return Err(AppError::new("Palette data is too large"));
        }
        if palette_data_offset as usize > n || 8 * (palette_data_size as usize) > n
            - palette_data_offset as usize {
            return Err(AppError::new("Palette data is out of bounds"));
        }
        let mut palette_data: Vec<u8> = Vec::new();
        let mut i: usize = 0;
        let pal_total = 8 * (palette_data_size as usize);
        while i < pal_total
            invariant
                i <= pal_total,
                n == bytes@.len(),
                palette_data_offset as int + pal_total <= n,
                palette_data@.len() == i,
                forall|k: int|
                    0 <= k < i ==> palette_data@[k] == bytes@[palette_data_offset as int + k],
            decreases pal_total - i,
        {
            palette_data.push(read_u8(bytes, palette_data_offset as usize + i));
            i = i + 1;
        }
        proof {
            assert(palette_data@ =~= bytes@.subrange(
                palette_data_offset as int,
                palette_data_offset as int + pal_total as int,
            ));
        }
        proof {
            assert(!tex_decode_err(bytes@));
        }
        Ok(
            Tex {
                stamp,
                chunk_size,
                padding_0,
                texture_data_size,
                texture_list_offset,
                padding_1,
                texture_data_offset,
                padding_2,
                compressed_texture_data_size,
                compressed_texture_list_offset,
                padding_3,
                compressed_texture_4x4_data_offset,
                compressed_texture_4x4_attr_offset,
                padding_4,
                palette_data_size,
                palette_list_offset,
                palette_data_offset,
                texture_list,
                compressed_texture_list,
                palette_list,
                texture_data,
                palette_data,
            },
        )
    }

    /// Writes the fixed 60-byte header at `buffer[pos..]`.
    #[verifier::rlimit(100)]
    fn write_header_bytes(&self, buffer: &mut Vec<u8>, pos: usize)
        requires
            pos + 60 <= old(buffer)@.len(),
        ensures
            final(buffer)@.len() == old(buffer)@.len(),
            forall|i: int|
                0 <= i < final(buffer)@.len() && !(pos <= i < pos + 60) ==> final(buffer)@[i]
                    == old(buffer)@[i],
            final(buffer)@.subrange(pos as int, pos + 4) == self.stamp@,
            final(buffer)@.subrange(pos + 4, pos + 8) == spec_u32_to_le_bytes(self.chunk_size),
            final(buffer)@.subrange(pos + 8, pos + 12) == spec_u32_to_le_bytes(self.padding_0),
            final(buffer)@.subrange(pos + 12, pos + 14) == spec_u16_to_le_bytes(
                self.texture_data_size,
            ),
            final(buffer)@.subrange(pos + 14, pos + 16) == spec_u16_to_le_bytes(
                self.texture_list_offset,
            ),
            final(buffer)@.subrange(pos + 16, pos + 20) == spec_u32_to_le_bytes(self.padding_1),
            final(buffer)@.subrange(pos + 20, pos + 24) == spec_u32_to_le_bytes(
                self.texture_data_offset,
            ),
            final(buffer)@.subrange(pos + 24, pos + 28) == spec_u32_to_le_bytes(self.padding_2),
            final(buffer)@.subrange(pos + 28, pos + 30) == spec_u16_to_le_bytes(
                self.compressed_texture_data_size,
            ),
            final(buffer)@.subrange(pos + 30, pos + 32) == spec_u16_to_le_bytes(
                self.compressed_texture_list_offset,
            ),
            final(buffer)@.subrange(pos + 32, pos + 36) == spec_u32_to_le_bytes(self.padding_3),
            final(buffer)@.subrange(pos + 36, pos + 40) == spec_u32_to_le_bytes(
                self.compressed_texture_4x4_data_offset,
            ),
            final(buffer)@.subrange(pos + 40, pos + 44) == spec_u32_to_le_bytes(
                self.compressed_texture_4x4_attr_offset,
            ),
            final(buffer)@.subrange(pos + 44, pos + 48) == spec_u32_to_le_bytes(self.padding_4),
            final(buffer)@.subrange(pos + 48, pos + 52) == spec_u32_to_le_bytes(
                self.palette_data_size,
            ),
            final(buffer)@.subrange(pos + 52, pos + 56) == spec_u32_to_le_bytes(
                self.palette_list_offset,
            ),
            final(buffer)@.subrange(pos + 56, pos + 60) == spec_u32_to_le_bytes(
                self.palette_data_offset,
            ),
    {
        let n = buffer.len();
        write_u8(buffer, pos, self.stamp[0]);
        write_u8(buffer, pos + 1, self.stamp[1]);
        write_u8(buffer, pos + 2, self.stamp[2]);
        write_u8(buffer, pos + 3, self.stamp[3]);
        write_u32(buffer, pos + 4, self.chunk_size);
        write_u32(buffer, pos + 8, self.padding_0);
        write_u16(buffer, pos + 12, self.texture_data_size);
        write_u16(buffer, pos + 14, self.texture_list_offset);
        write_u32(buffer, pos + 16, self.padding_1);
        write_u32(buffer, pos + 20, self.texture_data_offset);
        write_u32(buffer, pos + 24, self.padding_2);
        write_u16(buffer, pos + 28, self.compressed_texture_data_size);
        write_u16(buffer, pos + 30, self.compressed_texture_list_offset);
        write_u32(buffer, pos + 32, self.padding_3);
        write_u32(buffer, pos + 36, self.compressed_texture_4x4_data_offset);
        write_u32(buffer, pos + 40, self.compressed_texture_4x4_attr_offset);
        write_u32(buffer, pos + 44, self.padding_4);
        write_u32(buffer, pos + 48, self.palette_data_size);
        write_u32(buffer, pos + 52, self.palette_list_offset);
        write_u32(buffer, pos + 56, self.palette_data_offset);
        assert(buffer@.subrange(pos as int, pos + 4) =~= self.stamp@);
    }

    /// Writes the header, the three lists and the two data blobs at their
    /// recorded offsets.
    #[verifier::rlimit(100)]
    pub fn write_bytes(&self, buffer: &mut Vec<u8>, pos: usize)
        requires
            self.wf(),
            self.layout_ok(),
            pos + self.chunk_size as int <= old(buffer)@.len(),
        ensures
            final(buffer)@.len() == old(buffer)@.len(),
            forall|i: int|
                0 <= i < final(buffer)@.len() && !(pos <= i < pos + self.chunk_size as int)
                    ==> final(buffer)@[i] == old(buffer)@[i],
            tex_written(*self, final(buffer)@, pos as int),
    {
        let n = buffer.len();
        self.write_header_bytes(buffer, pos);
        let ghost after_header = buffer@;
        self.texture_list.write_bytes(buffer, pos + self.texture_list_offset as usize);
        let ghost after_tex_list = buffer@;
        self.compressed_texture_list.write_bytes(
            buffer,
            pos + self.compressed_texture_list_offset as usize,
        );
        let ghost after_comp_list = buffer@;
        self.palette_list.write_bytes(buffer, pos + self.palette_list_offset as usize);
        let ghost after_pal_list = buffer@;
        let tex_total = self.texture_data.len();
        let mut i: usize = 0;
        while i < tex_total
            invariant
                i <= tex_total,
                tex_total == self.texture_data@.len(),
                60 <= self.texture_data_offset as int,
                buffer@.len() == after_pal_list.len(),
                forall|k: int|
                    0 <= k < buffer@.len() && k < pos + self.texture_data_offset as int
                        ==> buffer@[k] == after_pal_list[k],
                pos + self.chunk_size as int <= buffer@.len(),
                pos + self.texture_data_offset as int + tex_total <= pos + self.chunk_size as int,
                buffer@.len() <= usize::MAX,
                buffer@.len() == old(buffer)@.len(),
                forall|k: int|
                    0 <= k < buffer@.len() && !(pos <= k < pos + self.chunk_size as int)
                        ==> buffer@[k] == old(buffer)@[k],
                forall|k: int|
                    0 <= k < i ==> buffer@[pos + self.texture_data_offset as int + k]
                        == self.texture_data@[k],
            decreases tex_total - i,
        {
            let b = self.texture_data[i];
            write_u8(buffer, pos + self.texture_data_offset as usize + i, b);
            i = i + 1;
        }
        let ghost after_tex_blob = buffer@;
        let pal_total = self.palette_data.len();
        let mut i: usize = 0;
        while i < pal_total
            invariant
                i <= pal_total,
                pal_total == self.palette_data@.len(),
                60 <= self.palette_data_offset as int,
                buffer@.len() == after_tex_blob.len(),
                forall|k: int|
                    0 <= k < buffer@.len() && k < pos + self.palette_data_offset as int
                        ==> buffer@[k] == after_tex_blob[k],
                pos + self.chunk_size as int <= buffer@.len(),
                pos + self.palette_data_offset as int + pal_total <= pos + self.chunk_size as int,
                buffer@.len() <= usize::MAX,
                buffer@.len() == old(buffer)@.len(),
                forall|k: int|
                    0 <= k < buffer@.len() && !(pos <= k < pos + self.chunk_size as int)
                        ==> buffer@[k] == old(buffer)@[k],
                forall|k: int|
                    0 <= k < i ==> buffer@[pos + self.palette_data_offset as int + k]
                        == self.palette_data@[k],
            decreases pal_total - i,
        {
            let b = self.palette_data[i];
            write_u8(buffer, pos + self.palette_data_offset as usize + i, b);
            i = i + 1;
        }
        proof {
            assert(buffer@.subrange(pos as int, pos + 4) =~= after_header.subrange(
                pos as int,
                pos + 4,
            ));
            assert(buffer@.subrange(pos + 4, pos + 8) =~= after_header.subrange(pos + 4, pos + 8));
            assert(buffer@.subrange(pos + 12, pos + 14) =~= after_header.subrange(
                pos + 12,
                pos + 14,
            ));
            assert(buffer@.subrange(pos + 14, pos + 16) =~= after_header.subrange(
                pos + 14,
                pos + 16,
            ));
            assert(buffer@.subrange(pos + 20, pos + 24) =~= after_header.subrange(
                pos + 20,
                pos + 24,
            ));
            assert(buffer@.subrange(pos + 30, pos + 32) =~= after_header.subrange(
                pos + 30,
                pos + 32,
            ));
            assert(buffer@.subrange(pos + 48, pos + 52) =~= after_header.subrange(
                pos + 48,
                pos + 52,
            ));
            assert(buffer@.subrange(pos + 52, pos + 56) =~= after_header.subrange(
                pos + 52,
                pos + 56,
            ));
            assert(buffer@.subrange(pos + 56, pos + 60) =~= after_header.subrange(
                pos + 56,
                pos + 60,
            ));
            assert(buffer@.subrange(pos + 8, pos + 12) =~= after_header.subrange(
                pos + 8,
                pos + 12,
            ));
            assert(buffer@.subrange(pos + 16, pos + 20) =~= after_header.subrange(
                pos + 16,
                pos + 20,
            ));
            assert(buffer@.subrange(pos + 24, pos + 28) =~= after_header.subrange(
                pos + 24,
                pos + 28,
            ));
            assert(buffer@.subrange(pos + 28, pos + 30) =~= after_header.subrange(
                pos + 28,
                pos + 30,
            ));
            assert(buffer@.subrange(pos + 32, pos + 36) =~= after_header.subrange(
                pos + 32,
                pos + 36,
            ));
            assert(buffer@.subrange(pos + 36, pos + 40) =~= after_header.subrange(
                pos + 36,
                pos + 40,
            ));
            assert(buffer@.subrange(pos + 40, pos + 44) =~= after_header.subrange(
                pos + 40,
                pos + 44,
            ));
            assert(buffer@.subrange(pos + 44, pos + 48) =~= after_header.subrange(
                pos + 44,
                pos + 48,
            ));
            assert forall|k: int|
                pos + self.texture_list_offset as int <= k < pos
                    + self.texture_list_offset as int
                    + self.texture_list.textures.size as int implies buffer@[k]
                == after_tex_list[k] by {};
            crate::name_list::lemma_nl_written_frame(
                self.texture_list.textures,
                after_tex_list,
                buffer@,
                pos + self.texture_list_offset as int,
            );
            assert forall|k: int|
                pos + self.compressed_texture_list_offset as int <= k < pos
                    + self.compressed_texture_list_offset as int
                    + self.compressed_texture_list.textures.size as int implies buffer@[k]
                == after_comp_list[k] by {};
            crate::name_list::lemma_nl_written_frame(
                self.compressed_texture_list.textures,
                after_comp_list,
                buffer@,
                pos + self.compressed_texture_list_offset as int,
            );
            assert forall|k: int|
                pos + self.palette_list_offset as int <= k < pos + self.palette_list_offset as int
                    + self.palette_list.palettes.size as int implies buffer@[k]
                == after_pal_list[k] by {};
            crate::name_list::lemma_nl_written_frame(
                self.palette_list.palettes,
                after_pal_list,
                buffer@,
                pos + self.palette_list_offset as int,
            );
            assert(buffer@.subrange(
                pos + self.texture_data_offset as int,
                pos + self.texture_data_offset as int + self.texture_data@.len(),
            ) =~= self.texture_data@);
            assert(buffer@.subrange(
                pos + self.palette_data_offset as int,
                pos + self.palette_data_offset as int + self.palette_data@.len(),
            ) =~= self.palette_data@);
            assert(tex_written(*self, buffer@, pos as int));
        }
    }

    /// The subfile's byte length.
    pub fn size(&self) -> (r: usize)
        ensures
            r == self.chunk_size as int,
    {
        self.chunk_size as usize
    }

    pub fn texture_list(&self) -> (r: &TextureList)
        ensures
            r == self.texture_list,
    {
        &self.texture_list
    }
}

} // verus!
