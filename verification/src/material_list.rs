//! Materials: fixed 44-byte material records addressed through a
//! `NameList` of offsets, plus texture- and palette-pairing lists whose
//! index bytes live at a third location inside the same section, so the
//! decode resolves them in a second pass.

use crate::alignment::align4;
use crate::error::AppError;
use crate::lebytes::read_u16;
use crate::lebytes::read_u32;
use crate::lebytes::read_u8;
use crate::lebytes::write_u16;
use crate::lebytes::write_u32;
use crate::lebytes::write_u8;
use crate::name_list::NameList;
use crate::traits::BinarySerializable;
use vstd::bytes::spec_u16_from_le_bytes;
use vstd::bytes::spec_u16_to_le_bytes;
use vstd::bytes::spec_u32_from_le_bytes;
use vstd::bytes::spec_u32_to_le_bytes;
use vstd::prelude::*;
use vstd::slice::slice_subrange;

verus! {

/// The texture-sampling parameter word of a material.
#[derive(Clone, Copy, Debug, PartialEq, Eq, Structural)]
pub struct TexImageParams {
    pub data: u32,
}

impl TexImageParams {
    pub fn from_u32(data: u32) -> (r: TexImageParams)
        ensures
            r.data == data,
    {
        TexImageParams { data }
    }

    pub open spec fn spec_repeat_s(self) -> bool {
        (self.data as int / 0x10000) % 2 == 1
    }

    pub open spec fn spec_repeat_t(self) -> bool {
        (self.data as int / 0x20000) % 2 == 1
    }

    pub open spec fn spec_mirror_s(self) -> bool {
        (self.data as int / 0x40000) % 2 == 1
    }

    pub open spec fn spec_mirror_t(self) -> bool {
        (self.data as int / 0x80000) % 2 == 1
    }

    pub open spec fn spec_texcoords_transform_mode(self) -> int {
        (self.data as int / 0x4000_0000) % 4
    }

    pub fn repeat_s(&self) -> (r: bool)
        ensures
            r == self.spec_repeat_s(),
    {
        (self.data / 0x10000) % 2 == 1
    }

    pub fn repeat_t(&self) -> (r: bool)
        ensures
            r == self.spec_repeat_t(),
    {
        (self.data / 0x20000) % 2 == 1
    }

    pub fn mirror_s(&self) -> (r: bool)
        ensures
            r == self.spec_mirror_s(),
    {
        (self.data / 0x40000) % 2 == 1
    }

    pub fn mirror_t(&self) -> (r: bool)
        ensures
            r == self.spec_mirror_t(),
    {
        (self.data / 0x80000) % 2 == 1
    }

    pub fn texcoords_transform_mode(&self) -> (r: u8)
        ensures
            r == self.spec_texcoords_transform_mode(),
    {
        ((self.data / 0x4000_0000) % 4) as u8
    }

    #[verifier::spinoff_prover]
    #[verifier::rlimit(80)]
    pub fn set_repeat_s(&mut self, repeat: bool)
        ensures
            final(self).spec_repeat_s() == repeat,
    {
        let low = self.data % 0x10000;
        let high = (self.data / 0x20000) * 0x20000;
        let bit: u32 = if repeat {
            0x10000
        } else {
            0
        };
        proof {
            lemma_bit_compose(self.data as int, 0x10000);
        }
        self.data = high + bit + low;
        proof {
            lemma_bit_decompose(high as int, bit as int, low as int, 0x10000);
        }
    }

    #[verifier::spinoff_prover]
    #[verifier::rlimit(80)]
    pub fn set_repeat_t(&mut self, repeat: bool)
        ensures
            final(self).spec_repeat_t() == repeat,
    {
        let low = self.data % 0x20000;
        let high = (self.data / 0x40000) * 0x40000;
        let bit: u32 = if repeat {
            0x20000
        } else {
            0
        };
        proof {
            lemma_bit_compose(self.data as int, 0x20000);
        }
        self.data = high + bit + low;
        proof {
            lemma_bit_decompose(high as int, bit as int, low as int, 0x20000);
        }
    }

    #[verifier::spinoff_prover]
    #[verifier::rlimit(80)]
    pub fn set_mirror_s(&mut self, mirror: bool)
        ensures
            final(self).spec_mirror_s() == mirror,
    {
        let low = self.data % 0x40000;
        let high = (self.data / 0x80000) * 0x80000;
        let bit: u32 = if mirror {
            0x40000
        } else {
            0
        };
        proof {
            lemma_bit_compose(self.data as int, 0x40000);
        }
        self.data = high + bit + low;
        proof {
            lemma_bit_decompose(high as int, bit as int, low as int, 0x40000);
        }
    }

    #[verifier::spinoff_prover]
    #[verifier::rlimit(80)]
    pub fn set_mirror_t(&mut self, mirror: bool)
        ensures
            final(self).spec_mirror_t() == mirror,
    {
        let low = self.data % 0x80000;
        let high = (self.data / 0x100000) * 0x100000;
        let bit: u32 = if mirror {
            0x80000
        } else {
            0
        };
        proof {
            lemma_bit_compose(self.data as int, 0x80000);
        }
        self.data = high + bit + low;
        proof {
            lemma_bit_decompose(high as int, bit as int, low as int, 0x80000);
        }
    }

    /// Sets the two transform-mode bits; a mode over 3 is refused.
    pub fn set_texcoords_transform_mode(&mut self, mode: u8) -> (r: Result<(), AppError>)
        ensures
            mode > 3 ==> r is Err && *final(self) == *old(self),
            mode <= 3 ==> r is Ok && final(self).spec_texcoords_transform_mode() == mode as int,
    {
        if mode > 3 {
            return Err(
                AppError::new("Invalid texture coordinates transform mode. Expected two bits"),
            );
        }
        let low = self.data % 0x4000_0000;
        let bits: u32 = (mode as u32) * 0x4000_0000;
        proof {
            vstd::arithmetic::div_mod::lemma_fundamental_div_mod(self.data as int, 0x4000_0000);
            let m = mode as int;
            let lo = low as int;
            assert(m * 0x4000_0000 + lo < 0x1_0000_0000_0000) by (nonlinear_arith)
                requires
                    0 <= m <= 3,
                    0 <= lo < 0x4000_0000,
            ;
        }
        self.data = bits + low;
        proof {
            vstd::arithmetic::div_mod::lemma_fundamental_div_mod_converse(
                self.data as int,
                0x4000_0000,
                mode as int,
                low as int,
            );
        }
        Ok(())
    }
}

/// `d * ((x / d / 2) * 2) + (x % d)` style recomposition facts for a
/// power-of-two field of one bit at weight `d`.
proof fn lemma_bit_compose(x: int, d: int)
    requires
        0 <= x < 0x1_0000_0000,
        1 <= d,
    ensures
        x % d < d,
        (x / (2 * d)) * (2 * d) <= x,
        0 <= (x / (2 * d)) * (2 * d),
{
    vstd::arithmetic::div_mod::lemma_fundamental_div_mod(x, d);
    vstd::arithmetic::div_mod::lemma_fundamental_div_mod(x, 2 * d);
    assert((x / (2 * d)) * (2 * d) == (2 * d) * (x / (2 * d))) by (nonlinear_arith);
}

/// Writing `high + bit + low` with `high` a multiple of `2 * d`, `bit`
/// either `0` or `d`, and `low < d` makes the bit at weight `d` exactly
/// `bit / d`.
proof fn lemma_bit_decompose(high: int, bit: int, low: int, d: int)
    requires
        1 <= d,
        high % (2 * d) == 0,
        bit == 0 || bit == d,
        0 <= low < d,
        0 <= high,
    ensures
        ((high + bit + low) / d) % 2 == (if bit == d {
            1int
        } else {
            0int
        }),
{
    let x = high + bit + low;
    let k = high / (2 * d);
    vstd::arithmetic::div_mod::lemma_fundamental_div_mod(high, 2 * d);
    assert(high == (2 * d) * k);
    assert((2 * d) * k == (2 * k) * d) by (nonlinear_arith);
    assert((2 * d) * k >= 0 && d >= 1 ==> k >= 0) by (nonlinear_arith);
    let b = if bit == d {
        1int
    } else {
        0int
    };
    assert(x == (2 * k + b) * d + low) by (nonlinear_arith)
        requires
            high == (2 * k) * d,
            bit == b * d,
            x == high + bit + low,
    ;
    vstd::arithmetic::div_mod::lemma_fundamental_div_mod_converse(x, d, 2 * k + b, low);
    vstd::arithmetic::div_mod::lemma_fundamental_div_mod_converse(2 * k + b, 2, k, b);
}

/// One fixed 44-byte material record.
#[derive(Clone, Copy, Debug, PartialEq, Eq)]
pub struct Material {
    pub dummy: u16,
    pub size: u16,
    pub dif_amb: u32,
    pub spe_emi: u32,
    pub polygon_attr: u32,
    pub unknown_0: u32,
    pub teximage_params: TexImageParams,
    pub unknown_1: u32,
    pub unknown_2: u32,
    pub texture_width: u16,
    pub texture_height: u16,
    pub remaining_fields: [u8; 8],
}

/// The number of bytes of a material record.
pub const MATERIAL_SIZE: usize = 44;

/// The record's 44-byte encoded image stands in `v` at `pos`.
pub open spec fn material_written(m: Material, v: Seq<u8>, pos: int) -> bool {
    &&& v.subrange(pos, pos + 2) == spec_u16_to_le_bytes(m.dummy)
    &&& v.subrange(pos + 2, pos + 4) == spec_u16_to_le_bytes(m.size)
    &&& v.subrange(pos + 4, pos + 8) == spec_u32_to_le_bytes(m.dif_amb)
    &&& v.subrange(pos + 8, pos + 12) == spec_u32_to_le_bytes(m.spe_emi)
    &&& v.subrange(pos + 12, pos + 16) == spec_u32_to_le_bytes(m.polygon_attr)
    &&& v.subrange(pos + 16, pos + 20) == spec_u32_to_le_bytes(m.unknown_0)
    &&& v.subrange(pos + 20, pos + 24) == spec_u32_to_le_bytes(m.teximage_params.data)
    &&& v.subrange(pos + 24, pos + 28) == spec_u32_to_le_bytes(m.unknown_1)
    &&& v.subrange(pos + 28, pos + 32) == spec_u32_to_le_bytes(m.unknown_2)
    &&& v.subrange(pos + 32, pos + 34) == spec_u16_to_le_bytes(m.texture_width)
    &&& v.subrange(pos + 34, pos + 36) == spec_u16_to_le_bytes(m.texture_height)
    &&& v.subrange(pos + 36, pos + 44) == m.remaining_fields@
}

/// A later write that leaves the record's bytes alone leaves its image
/// standing.
pub proof fn lemma_material_written_frame(m: Material, v1: Seq<u8>, v2: Seq<u8>, pos: int)
    requires
        material_written(m, v1, pos),
        0 <= pos,
        pos + 44 <= v1.len(),
        v1.len() == v2.len(),
        forall|k: int| pos <= k < pos + 44 ==> v2[k] == v1[k],
    ensures
        material_written(m, v2, pos),
{
    assert(v2.subrange(pos, pos + 2) =~= v1.subrange(pos, pos + 2));
    assert(v2.subrange(pos + 2, pos + 4) =~= v1.subrange(pos + 2, pos + 4));
    assert(v2.subrange(pos + 4, pos + 8) =~= v1.subrange(pos + 4, pos + 8));
    assert(v2.subrange(pos + 8, pos + 12) =~= v1.subrange(pos + 8, pos + 12));
    assert(v2.subrange(pos + 12, pos + 16) =~= v1.subrange(pos + 12, pos + 16));
    assert(v2.subrange(pos + 16, pos + 20) =~= v1.subrange(pos + 16, pos + 20));
    assert(v2.subrange(pos + 20, pos + 24) =~= v1.subrange(pos + 20, pos + 24));
    assert(v2.subrange(pos + 24, pos + 28) =~= v1.subrange(pos + 24, pos + 28));
    assert(v2.subrange(pos + 28, pos + 32) =~= v1.subrange(pos + 28, pos + 32));
    assert(v2.subrange(pos + 32, pos + 34) =~= v1.subrange(pos + 32, pos + 34));
    assert(v2.subrange(pos + 34, pos + 36) =~= v1.subrange(pos + 34, pos + 36));
    assert(v2.subrange(pos + 36, pos + 44) =~= v1.subrange(pos + 36, pos + 44));
}

impl Material {
    pub fn from_bytes(bytes: &[u8]) -> (r: Result<Material, AppError>)
        ensures
            r is Ok <==> bytes@.len() >= 44,
            r is Ok ==> {
                let m = r->Ok_0;
                &&& m.dummy == spec_u16_from_le_bytes(bytes@.subrange(0, 2))
                &&& m.size == spec_u16_from_le_bytes(bytes@.subrange(2, 4))
                &&& m.dif_amb == spec_u32_from_le_bytes(bytes@.subrange(4, 8))
                &&& m.spe_emi == spec_u32_from_le_bytes(bytes@.subrange(8, 12))
                &&& m.polygon_attr == spec_u32_from_le_bytes(bytes@.subrange(12, 16))
                &&& m.unknown_0 == spec_u32_from_le_bytes(bytes@.subrange(16, 20))
                &&& m.teximage_params.data == spec_u32_from_le_bytes(bytes@.subrange(20, 24))
                &&& m.unknown_1 == spec_u32_from_le_bytes(bytes@.subrange(24, 28))
                &&& m.unknown_2 == spec_u32_from_le_bytes(bytes@.subrange(28, 32))
                &&& m.texture_width == spec_u16_from_le_bytes(bytes@.subrange(32, 34))
                &&& m.texture_height == spec_u16_from_le_bytes(bytes@.subrange(34, 36))
                &&& m.remaining_fields@ == bytes@.subrange(36, 44)
            },
    {
        if bytes.len() < 44 {
            return Err(AppError::new("Material needs at least 44 bytes"));
        }
        let remaining_fields: [u8; 8] = [
            read_u8(bytes, 36),
            read_u8(bytes, 37),
            read_u8(bytes, 38),
            read_u8(bytes, 39),
            read_u8(bytes, 40),
            read_u8(bytes, 41),
            read_u8(bytes, 42),
            read_u8(bytes, 43),
        ];
        proof {
            assert(remaining_fields@ =~= bytes@.subrange(36, 44));
        }
        Ok(Material {
            dummy: read_u16(bytes, 0),
            size: read_u16(bytes, 2),
            dif_amb: read_u32(bytes, 4),
            spe_emi: read_u32(bytes, 8),
            polygon_attr: read_u32(bytes, 12),
            unknown_0: read_u32(bytes, 16),
            teximage_params: TexImageParams::from_u32(read_u32(bytes, 20)),
            unknown_1: read_u32(bytes, 24),
            unknown_2: read_u32(bytes, 28),
            texture_width: read_u16(bytes, 32),
            texture_height: read_u16(bytes, 34),
            remaining_fields,
        })
    }

    /// Writes the 44 bytes of the record at `buffer[pos..]`.
    pub fn write_bytes(&self, buffer: &mut Vec<u8>, pos: usize)
        requires
            pos + 44 <= old(buffer)@.len(),
        ensures
            final(buffer)@.len() == old(buffer)@.len(),
            forall|i: int|
                0 <= i < final(buffer)@.len() && !(pos <= i < pos + 44) ==> final(buffer)@[i]
                    == old(buffer)@[i],
            material_written(*self, final(buffer)@, pos as int),
    {
        let n = buffer.len();
        assert(pos + 44 <= n);
        write_u16(buffer, pos, self.dummy);
        write_u16(buffer, pos + 2, self.size);
        write_u32(buffer, pos + 4, self.dif_amb);
        write_u32(buffer, pos + 8, self.spe_emi);
        write_u32(buffer, pos + 12, self.polygon_attr);
        write_u32(buffer, pos + 16, self.unknown_0);
        write_u32(buffer, pos + 20, self.teximage_params.data);
        write_u32(buffer, pos + 24, self.unknown_1);
        write_u32(buffer, pos + 28, self.unknown_2);
        write_u16(buffer, pos + 32, self.texture_width);
        write_u16(buffer, pos + 34, self.texture_height);
        let ghost after_scalars = buffer@;
        let mut k: usize = 0;
        while k < 8
            invariant
                k <= 8,
                pos + 44 <= buffer@.len(),
                pos + 44 <= usize::MAX,
                buffer@.len() == old(buffer)@.len(),
                buffer@.len() == after_scalars.len(),
                forall|i: int|
                    0 <= i < buffer@.len() && !(pos + 36 <= i < pos + 36 + k) ==> buffer@[i]
                        == after_scalars[i],
                forall|i: int|
                    0 <= i < buffer@.len() && !(pos <= i < pos + 44) ==> buffer@[i] == old(
                        buffer,
                    )@[i],
                forall|i: int| 0 <= i < k ==> buffer@[pos + 36 + i] == self.remaining_fields@[i],
            decreases 8 - k,
        {
            let b = self.remaining_fields[k];
            write_u8(buffer, pos + 36 + k, b);
            k = k + 1;
        }
        proof {
            assert(buffer@.subrange(pos + 36, pos + 44) =~= self.remaining_fields@);
            assert(buffer@.subrange(pos as int, pos + 2) =~= after_scalars.subrange(
                pos as int,
                pos + 2,
            ));
            assert(buffer@.subrange(pos + 2, pos + 4) =~= after_scalars.subrange(pos + 2, pos + 4));
            assert(buffer@.subrange(pos + 4, pos + 8) =~= after_scalars.subrange(pos + 4, pos + 8));
            assert(buffer@.subrange(pos + 8, pos + 12) =~= after_scalars.subrange(
                pos + 8,
                pos + 12,
            ));
            assert(buffer@.subrange(pos + 12, pos + 16) =~= after_scalars.subrange(
                pos + 12,
                pos + 16,
            ));
            assert(buffer@.subrange(pos + 16, pos + 20) =~= after_scalars.subrange(
                pos + 16,
                pos + 20,
            ));
            assert(buffer@.subrange(pos + 20, pos + 24) =~= after_scalars.subrange(
                pos + 20,
                pos + 24,
            ));
            assert(buffer@.subrange(pos + 24, pos + 28) =~= after_scalars.subrange(
                pos + 24,
                pos + 28,
            ));
            assert(buffer@.subrange(pos + 28, pos + 32) =~= after_scalars.subrange(
                pos + 28,
                pos + 32,
            ));
            assert(buffer@.subrange(pos + 32, pos + 34) =~= after_scalars.subrange(
                pos + 32,
                pos + 34,
            ));
            assert(buffer@.subrange(pos + 34, pos + 36) =~= after_scalars.subrange(
                pos + 34,
                pos + 36,
            ));
            assert(buffer@.subrange(pos as int, pos + 2) == spec_u16_to_le_bytes(self.dummy));
            assert(buffer@.subrange(pos + 2, pos + 4) == spec_u16_to_le_bytes(self.size));
            assert(buffer@.subrange(pos + 4, pos + 8) == spec_u32_to_le_bytes(self.dif_amb));
            assert(buffer@.subrange(pos + 8, pos + 12) == spec_u32_to_le_bytes(self.spe_emi));
            assert(buffer@.subrange(pos + 12, pos + 16) == spec_u32_to_le_bytes(
                self.polygon_attr,
            ));
            assert(buffer@.subrange(pos + 16, pos + 20) == spec_u32_to_le_bytes(self.unknown_0));
            assert(buffer@.subrange(pos + 20, pos + 24) == spec_u32_to_le_bytes(
                self.teximage_params.data,
            ));
            assert(buffer@.subrange(pos + 24, pos + 28) == spec_u32_to_le_bytes(self.unknown_1));
            assert(buffer@.subrange(pos + 28, pos + 32) == spec_u32_to_le_bytes(self.unknown_2));
            assert(buffer@.subrange(pos + 32, pos + 34) == spec_u16_to_le_bytes(
                self.texture_width,
            ));
            assert(buffer@.subrange(pos + 34, pos + 36) == spec_u16_to_le_bytes(
                self.texture_height,
            ));
            assert(material_written(*self, buffer@, pos as int));
        }
    }
}

/// An index list of a pairing record: an offset and count addressing raw
/// index bytes elsewhere in the enclosing material section.
#[derive(Clone, Debug)]
pub struct MaterialIdxList {
    pub offset: u16,
    pub count: u8,
    pub dummy: u8,
    pub indices: Vec<u8>,
}

impl MaterialIdxList {
    /// Reads the pointed-to index bytes from the enclosing section.
    pub fn read_indices(&mut self, material_list_bytes: &[u8]) -> (r: Result<(), AppError>)
        ensures
            r is Ok <==> old(self).offset as int + old(self).count as int
                <= material_list_bytes@.len(),
            r is Ok ==> final(self).indices@ == material_list_bytes@.subrange(
                old(self).offset as int,
                old(self).offset as int + old(self).count as int,
            ) && final(self).offset == old(self).offset && final(self).count == old(self).count
                && final(self).dummy == old(self).dummy,
            r is Err ==> *final(self) == *old(self),
    {
        if material_list_bytes.len() < self.offset as usize + self.count as usize {
            return Err(
                AppError::new("MaterialIdxList needs more bytes from the MaterialList to read"),
            );
        }
        let mut indices: Vec<u8> = Vec::new();
        let mut i: usize = 0;
        while i < self.count as usize
            invariant
                i <= self.count as int,
                self.offset as int + self.count as int <= material_list_bytes@.len(),
                indices@.len() == i,
                forall|k: int|
                    0 <= k < i ==> indices@[k] == material_list_bytes@[self.offset as int + k],
                self == old(self),
            decreases self.count as int - i,
        {
            indices.push(read_u8(material_list_bytes, self.offset as usize + i));
            i = i + 1;
        }
        self.indices = indices;
        proof {
            assert(self.indices@ =~= material_list_bytes@.subrange(
                old(self).offset as int,
                old(self).offset as int + old(self).count as int,
            ));
        }
        Ok(())
    }

    /// Writes the held index bytes back at the recorded offset of the
    /// enclosing section.
    pub fn write_indices(&self, material_list_buffer: &mut Vec<u8>, pos: usize) -> (r: Result<
        (),
        AppError,
    >)
        ensures
            r is Ok <==> pos + self.offset as int + self.count as int <= old(
                material_list_buffer,
            )@.len(),
            final(material_list_buffer)@.len() == old(material_list_buffer)@.len(),
            r is Ok ==> forall|i: int|
                0 <= i < final(material_list_buffer)@.len() && !(pos + self.offset as int <= i
                    < pos + self.offset as int + self.count as int) ==> final(
                material_list_buffer)@[i] == old(material_list_buffer)@[i],
            r is Ok ==> forall|i: int|
                0 <= i < self.indices@.len() && i < self.count as int ==> final(
                material_list_buffer)@[pos + self.offset as int + i] == self.indices@[i],
            r is Err ==> final(material_list_buffer)@ == old(material_list_buffer)@,
    {
        let n = material_list_buffer.len();
        if n < pos || n - pos < self.offset as usize + self.count as usize {
            return Err(
                AppError::new("MaterialIdxList needs more bytes from the MaterialList to write"),
            );
        }
        let total = self.indices.len();
        let base = pos + self.offset as usize;
        let mut i: usize = 0;
        while i < total && i < self.count as usize
            invariant
                i <= total,
                i <= self.count as int,
                base == pos + self.offset as int,
                total == self.indices@.len(),
                n == material_list_buffer@.len(),
                base + self.count as int <= n,
                forall|k: int|
                    0 <= k < material_list_buffer@.len() && !(base <= k < base + i)
                        ==> material_list_buffer@[k] == old(material_list_buffer)@[k],
                forall|k: int|
                    0 <= k < i && k < self.count as int ==> material_list_buffer@[base + k]
                        == self.indices@[k],
            decreases total - i,
        {
            let b = self.indices[i];
            write_u8(material_list_buffer, base + i, b);
            i = i + 1;
        }
        Ok(())
    }

    /// Refreshes the stored count from the held indices.
    pub fn rebase(&mut self)
        requires
            old(self).indices@.len() <= 0xFF,
        ensures
            final(self).count as int == old(self).indices@.len(),
            final(self).offset == old(self).offset,
            final(self).dummy == old(self).dummy,
            final(self).indices@ == old(self).indices@,
    {
        self.count = self.indices.len() as u8;
    }
}

impl BinarySerializable for MaterialIdxList {
    open spec fn wf(&self) -> bool {
        true
    }

    open spec fn enc(&self) -> Seq<u8> {
        spec_u16_to_le_bytes(self.offset) + seq![self.count, self.dummy]
    }

    open spec fn spec_size(&self) -> int {
        4
    }

    proof fn lemma_size(&self) {
        vstd::bytes::lemma_auto_spec_u16_to_from_le_bytes();
    }

    open spec fn spec_can_decode(bytes: Seq<u8>) -> bool {
        &&& bytes.len() >= 4
        &&& bytes.len() >= spec_u16_from_le_bytes(bytes.subrange(0, 2)) + bytes[2]
    }

    open spec fn spec_dec_size(bytes: Seq<u8>) -> int {
        4
    }

    /// Reads the four header bytes; the index bytes live elsewhere in the
    /// enclosing section and are resolved by `read_indices`.
    fn from_bytes(bytes: &[u8]) -> (r: Result<Self, AppError>)
        ensures
            r is Ok ==> {
                let m = r->Ok_0;
                &&& m.offset == spec_u16_from_le_bytes(bytes@.subrange(0, 2))
                &&& m.count == bytes@[2]
                &&& m.dummy == bytes@[3]
                &&& m.indices@.len() == 0
            },
    {
        if bytes.len() < 4 {
            return Err(AppError::new("MaterialIdxList needs at least 4 bytes"));
        }
        let offset = read_u16(bytes, 0);
        let count = read_u8(bytes, 2);
        let dummy = read_u8(bytes, 3);
        if bytes.len() < offset as usize + count as usize {
            return Err(AppError::new("MaterialIdxList index range is out of bounds"));
        }
        let m = MaterialIdxList { offset, count, dummy, indices: Vec::new() };
        proof {
            vstd::bytes::lemma_auto_spec_u16_to_from_le_bytes();
            assert(m.enc() =~= bytes@.subrange(0, 4));
        }
        Ok(m)
    }

    fn to_bytes(&self) -> (r: Result<Vec<u8>, AppError>) {
        let mut bytes = vstd::bytes::u16_to_le_bytes(self.offset);
        bytes.push(self.count);
        bytes.push(self.dummy);
        proof {
            assert(bytes@ =~= self.enc());
        }
        Ok(bytes)
    }

    fn write_bytes(&self, buffer: &mut Vec<u8>, pos: usize) {
        let n = buffer.len();
        assert(pos + 4 <= n);
        write_u16(buffer, pos, self.offset);
        write_u8(buffer, pos + 2, self.count);
        write_u8(buffer, pos + 3, self.dummy);
        assert(buffer@.subrange(pos as int, pos + 4) =~= self.enc());
    }

    fn size(&self) -> usize {
        4
    }
}


/// The index bytes of all records of `s` together.
pub open spec fn total_counts(s: Seq<MaterialIdxList>) -> int
    decreases s.len(),
{
    if s.len() == 0 {
        0
    } else {
        s[0].count as int + total_counts(s.skip(1))
    }
}

pub proof fn lemma_total_counts_nonneg(s: Seq<MaterialIdxList>)
    ensures
        total_counts(s) >= 0,
    decreases s.len(),
{
    if s.len() > 0 {
        lemma_total_counts_nonneg(s.skip(1));
    }
}

proof fn lemma_total_counts_push(s: Seq<MaterialIdxList>, p: MaterialIdxList)
    ensures
        total_counts(s.push(p)) == total_counts(s) + p.count as int,
    decreases s.len(),
{
    if s.len() == 0 {
        assert(s.push(p)[0] == p);
        assert(s.push(p).skip(1) =~= Seq::<MaterialIdxList>::empty());
        assert(total_counts(s.push(p)) == p.count as int + total_counts(
            Seq::<MaterialIdxList>::empty(),
        ));
    } else {
        assert(s.push(p)[0] == s[0]);
        assert(s.push(p).skip(1) =~= s.skip(1).push(p));
        lemma_total_counts_push(s.skip(1), p);
    }
}

/// The furthest byte any record's index range reaches.
pub open spec fn idx_end_max(s: Seq<MaterialIdxList>) -> int
    decreases s.len(),
{
    if s.len() == 0 {
        0
    } else {
        let rest = idx_end_max(s.skip(1));
        let own = s[0].offset as int + s[0].count as int;
        if own > rest {
            own
        } else {
            rest
        }
    }
}

/// The nearest byte any record's index range begins at; past every range
/// when there is none.
pub open spec fn idx_start_min(s: Seq<MaterialIdxList>) -> int
    decreases s.len(),
{
    if s.len() == 0 {
        0x10000
    } else {
        let rest = idx_start_min(s.skip(1));
        let own = s[0].offset as int;
        if own < rest {
            own
        } else {
            rest
        }
    }
}

proof fn lemma_idx_start_min_ge(s: Seq<MaterialIdxList>, b: int)
    requires
        forall|i: int| 0 <= i < s.len() ==> (#[trigger] s[i]).offset as int >= b,
        b <= 0x10000,
    ensures
        idx_start_min(s) >= b,
    decreases s.len(),
{
    if s.len() > 0 {
        assert forall|i: int| 0 <= i < s.skip(1).len() implies (#[trigger] s.skip(1)[i]).offset
            as int >= b by {
            assert(s.skip(1)[i] == s[i + 1]);
        };
        lemma_idx_start_min_ge(s.skip(1), b);
    }
}

proof fn lemma_idx_start_min_bound(s: Seq<MaterialIdxList>, i: int)
    requires
        0 <= i < s.len(),
    ensures
        idx_start_min(s) <= s[i].offset as int,
    decreases s.len(),
{
    if i > 0 {
        assert(s.skip(1)[i - 1] == s[i]);
        lemma_idx_start_min_bound(s.skip(1), i - 1);
    }
}

proof fn lemma_idx_end_max_bound(s: Seq<MaterialIdxList>, i: int)
    requires
        0 <= i < s.len(),
    ensures
        s[i].offset as int + s[i].count as int <= idx_end_max(s),
        idx_end_max(s) >= 0,
    decreases s.len(),
{
    if i == 0 {
        lemma_idx_end_max_nonneg(s.skip(1));
    } else {
        assert(s.skip(1)[i - 1] == s[i]);
        lemma_idx_end_max_bound(s.skip(1), i - 1);
    }
}

proof fn lemma_idx_end_max_nonneg(s: Seq<MaterialIdxList>)
    ensures
        idx_end_max(s) >= 0,
    decreases s.len(),
{
    if s.len() > 0 {
        lemma_idx_end_max_nonneg(s.skip(1));
    }
}


/// The decoded pairing list agrees with the raw bytes it came from: the
/// count, the metadata size, the slot size, and each record's four header
/// bytes at its slot.
pub open spec fn pairing_list_matches(l: NameList<MaterialIdxList>, bytes: Seq<u8>) -> bool {
    &&& l.count as int == bytes[1] as int
    &&& l.unknown.header.unknown_size == spec_u16_from_le_bytes(bytes.subrange(6, 8))
    &&& l.element_size == spec_u16_from_le_bytes(
        bytes.subrange(l.base_off(), l.base_off() + 2),
    )
    &&& forall|i: int|
        0 <= i < l.count as int ==> (#[trigger] l.data@[i]).enc() == bytes.subrange(
            l.data_off() + i * l.element_size as int,
            l.data_off() + i * l.element_size as int + 4,
        )
}

/// A pairing record at `list_off` whose index range runs past the buffer.
pub open spec fn pairing_read_err(bytes: Seq<u8>, list_off: int) -> bool {
    let n = bytes.len() as int;
    let sub = bytes.subrange(list_off, n);
    let base = spec_u16_from_le_bytes(sub.subrange(6, 8)) as int;
    let esz = spec_u16_from_le_bytes(sub.subrange(base, base + 2)) as int;
    exists|i: int|
        #![trigger sub.subrange(base + 4 + i * esz, base + 4 + i * esz + 4)]
        0 <= i < sub[1] as int && {
            let slot = sub.subrange(base + 4 + i * esz, base + 4 + i * esz + 4);
            spec_u16_from_le_bytes(slot.subrange(0, 2)) + slot[2] > n
        }
}

/// A decoded pairing record whose index range runs past the buffer shows
/// the failure in the raw bytes as well.
proof fn lemma_pairing_read_err_witness(l: NameList<MaterialIdxList>, bytes: Seq<u8>, off: int)
    requires
        0 <= off <= bytes.len(),
        pairing_list_matches(l, bytes.subrange(off, bytes.len() as int)),
        exists|i: int|
            0 <= i < l.data@.len() && (#[trigger] l.data@[i]).offset as int
                + l.data@[i].count as int > bytes.len(),
        l.wf(),
    ensures
        pairing_read_err(bytes, off),
{
    vstd::bytes::lemma_auto_spec_u16_to_from_le_bytes();
    let n = bytes.len() as int;
    let sub = bytes.subrange(off, n);
    let i = choose|i: int|
        0 <= i < l.data@.len() && (#[trigger] l.data@[i]).offset as int + l.data@[i].count as int
            > bytes.len();
    let base = spec_u16_from_le_bytes(sub.subrange(6, 8)) as int;
    let esz = spec_u16_from_le_bytes(sub.subrange(base, base + 2)) as int;
    let slot = sub.subrange(base + 4 + i * esz, base + 4 + i * esz + 4);
    assert(l.data@[i].enc() == slot);
    assert(l.data@[i].enc().subrange(0, 2) =~= spec_u16_to_le_bytes(l.data@[i].offset));
    assert(slot.subrange(0, 2) == spec_u16_to_le_bytes(l.data@[i].offset));
    assert(spec_u16_from_le_bytes(slot.subrange(0, 2)) == l.data@[i].offset);
    assert(slot[2] == l.data@[i].count);
}

/// When every decoded pairing record's index range lies inside the
/// buffer, the raw bytes show no out-of-range index span either.
proof fn lemma_pairing_read_ok(l: NameList<MaterialIdxList>, bytes: Seq<u8>, off: int)
    requires
        0 <= off <= bytes.len(),
        pairing_list_matches(l, bytes.subrange(off, bytes.len() as int)),
        l.wf(),
        forall|i: int|
            0 <= i < l.data@.len() ==> (#[trigger] l.data@[i]).offset as int
                + l.data@[i].count as int <= bytes.len(),
    ensures
        !pairing_read_err(bytes, off),
{
    vstd::bytes::lemma_auto_spec_u16_to_from_le_bytes();
    let n = bytes.len() as int;
    let sub = bytes.subrange(off, n);
    let base = spec_u16_from_le_bytes(sub.subrange(6, 8)) as int;
    let esz = spec_u16_from_le_bytes(sub.subrange(base, base + 2)) as int;
    assert forall|i: int| 0 <= i < sub[1] as int implies !{
        let slot = #[trigger] sub.subrange(base + 4 + i * esz, base + 4 + i * esz + 4);
        spec_u16_from_le_bytes(slot.subrange(0, 2)) + slot[2] > n
    } by {
        let slot = sub.subrange(base + 4 + i * esz, base + 4 + i * esz + 4);
        assert(l.data@[i].enc() == slot);
        assert(l.data@[i].enc().subrange(0, 2) =~= spec_u16_to_le_bytes(l.data@[i].offset));
        assert(slot.subrange(0, 2) == spec_u16_to_le_bytes(l.data@[i].offset));
        assert(spec_u16_from_le_bytes(slot.subrange(0, 2)) == l.data@[i].offset);
        assert(slot[2] == l.data@[i].count);
    };
}

/// Some failure of the three-phase section decode, over the raw bytes: a
/// truncated header, a bad material offset list, a material record past
/// the buffer, a bad pairing list, or a pairing index range past the
/// buffer.
pub open spec fn material_list_decode_err(bytes: Seq<u8>) -> bool {
    let n = bytes.len() as int;
    let tex_off = spec_u16_from_le_bytes(bytes.subrange(0, 2)) as int;
    let pal_off = spec_u16_from_le_bytes(bytes.subrange(2, 4)) as int;
    let mb = bytes.subrange(4, n);
    ||| bytes.len() < 44
    ||| crate::name_list::nl_decode_err::<u32>(mb)
    ||| exists|i: int|
        #![trigger crate::name_list::nl_u32_at(mb, i)]
        0 <= i < mb[1] as int && crate::name_list::nl_u32_at(mb, i) + 44 > n
    ||| tex_off > n
    ||| crate::name_list::nl_decode_err::<MaterialIdxList>(bytes.subrange(tex_off, n))
    ||| pal_off > n
    ||| crate::name_list::nl_decode_err::<MaterialIdxList>(bytes.subrange(pal_off, n))
    ||| pairing_read_err(bytes, tex_off)
    ||| pairing_read_err(bytes, pal_off)
}

/// Pairs each material with the textures it uses, by index.
#[derive(Clone, Debug)]
pub struct TexturePairingList {
    pub texture_pairings: NameList<MaterialIdxList>,
}

impl TexturePairingList {
    pub open spec fn wf(self) -> bool {
        self.texture_pairings.wf()
    }

    pub fn from_bytes(bytes: &[u8]) -> (r: Result<TexturePairingList, AppError>)
        ensures
            r is Err <==> crate::name_list::nl_decode_err::<MaterialIdxList>(bytes@),
            r is Ok ==> r->Ok_0.wf(),
            r is Ok ==> pairing_list_matches(r->Ok_0.texture_pairings, bytes@),
    {
        let texture_pairings = match NameList::<MaterialIdxList>::from_bytes(bytes) {
            Ok(l) => l,
            Err(e) => return Err(e),
        };
        Ok(TexturePairingList { texture_pairings })
    }

    /// Writes the pairing name-list (headers only; the index bytes are
    /// written separately).
    pub fn write_bytes(&self, buffer: &mut Vec<u8>, pos: usize)
        requires
            self.wf(),
            pos + self.texture_pairings.size as int <= old(buffer)@.len(),
        ensures
            final(buffer)@.len() == old(buffer)@.len(),
            forall|i: int|
                0 <= i < final(buffer)@.len() && !(pos <= i < pos + self.texture_pairings.size as int)
                    ==> final(buffer)@[i] == old(buffer)@[i],
            crate::name_list::nl_written(self.texture_pairings, final(buffer)@, pos as int),
    {
        self.texture_pairings.write_bytes(buffer, pos);
    }

    pub fn size(&self) -> (r: usize)
        ensures
            r == self.texture_pairings.size as int,
    {
        self.texture_pairings.size()
    }

    /// Recomputes the name-list size and refreshes every record's count
    /// from its held indices.
    pub fn rebase(&mut self)
        requires
            old(self).texture_pairings.computed_size() <= 0xFFFF,
            forall|i: int|
                0 <= i < old(self).texture_pairings.data@.len() ==> (
                #[trigger] old(self).texture_pairings.data@[i]).indices@.len() <= 0xFF,
        ensures
            final(self).texture_pairings.size as int == old(self).texture_pairings.computed_size(),
            final(self).texture_pairings.data@.len() == old(self).texture_pairings.data@.len(),
            final(self).texture_pairings.names@ == old(self).texture_pairings.names@,
            final(self).texture_pairings.count == old(self).texture_pairings.count,
            final(self).texture_pairings.element_size == old(self).texture_pairings.element_size,
            final(self).texture_pairings.unknown.header == old(self).texture_pairings.unknown.header,
            final(self).texture_pairings.unknown.unknown@ == old(self).texture_pairings.unknown.unknown@,
            forall|i: int|
                0 <= i < final(self).texture_pairings.data@.len() ==> {
                    let p = #[trigger] final(self).texture_pairings.data@[i];
                    let q = old(self).texture_pairings.data@[i];
                    p.count as int == q.indices@.len() && p.offset == q.offset && p.dummy == q.dummy
                        && p.indices@ == q.indices@
                },
    {
        self.texture_pairings.rebase();
        let mut src: Vec<MaterialIdxList> = Vec::new();
        core::mem::swap(&mut src, &mut self.texture_pairings.data);
        let ghost orig = src@;
        let n = src.len();
        let mut rebuilt: Vec<MaterialIdxList> = Vec::new();
        let mut i: usize = 0;
        while i < n
            invariant
                i <= n,
                n == orig.len(),
                src@ == orig.skip(i as int),
                rebuilt@.len() == i,
                forall|k: int|
                    0 <= k < orig.len() ==> (#[trigger] orig[k]).indices@.len() <= 0xFF,
                forall|k: int|
                    0 <= k < i ==> {
                        let p = #[trigger] rebuilt@[k];
                        let q = orig[k];
                        p.count as int == q.indices@.len() && p.offset == q.offset && p.dummy
                            == q.dummy && p.indices@ == q.indices@
                    },
            decreases n - i,
        {
            let mut p = src.remove(0);
            proof {
                assert(orig.skip(i as int)[0] == orig[i as int]);
                assert(orig.skip(i as int).skip(1) =~= orig.skip(i + 1));
                assert(src@ =~= orig.skip(i + 1));
            }
            p.rebase();
            rebuilt.push(p);
            i = i + 1;
        }
        core::mem::swap(&mut rebuilt, &mut self.texture_pairings.data);
    }

    /// Reads every record's index bytes from the enclosing section.
    pub fn read_indices(&mut self, material_list_bytes: &[u8]) -> (r: Result<(), AppError>)
        ensures
            final(self).texture_pairings.data@.len() == old(self).texture_pairings.data@.len(),
            final(self).texture_pairings.names@ == old(self).texture_pairings.names@,
            final(self).texture_pairings.count == old(self).texture_pairings.count,
            final(self).texture_pairings.size == old(self).texture_pairings.size,
            final(self).texture_pairings.element_size == old(self).texture_pairings.element_size,
            final(self).texture_pairings.unknown.header == old(self).texture_pairings.unknown.header,
            final(self).texture_pairings.unknown.unknown@ == old(self).texture_pairings.unknown.unknown@,
            r is Ok ==> forall|i: int|
                0 <= i < final(self).texture_pairings.data@.len() ==> {
                    let p = #[trigger] final(self).texture_pairings.data@[i];
                    let q = old(self).texture_pairings.data@[i];
                    p.offset == q.offset && p.count == q.count && p.dummy == q.dummy && p.indices@
                        == material_list_bytes@.subrange(
                        q.offset as int,
                        q.offset as int + q.count as int,
                    )
                },
            r is Err ==> exists|i: int|
                0 <= i < old(self).texture_pairings.data@.len() && (#[trigger] old(
                    self,
                ).texture_pairings.data@[i]).offset as int + old(self).texture_pairings.data@[i].count as int
                    > material_list_bytes@.len(),
            r is Ok ==> forall|i: int|
                0 <= i < old(self).texture_pairings.data@.len() ==> (#[trigger] old(
                    self,
                ).texture_pairings.data@[i]).offset as int + old(self).texture_pairings.data@[i].count as int
                    <= material_list_bytes@.len(),
    {
        let mut src: Vec<MaterialIdxList> = Vec::new();
        core::mem::swap(&mut src, &mut self.texture_pairings.data);
        let ghost orig = src@;
        let n = src.len();
        let mut rebuilt: Vec<MaterialIdxList> = Vec::new();
        let mut i: usize = 0;
        let mut failed: Option<AppError> = None;
        while i < n
            invariant
                i <= n,
                n == orig.len(),
                src@ == orig.skip(i as int),
                rebuilt@.len() == i,
                failed is None ==> forall|k: int|
                    0 <= k < i ==> {
                        let p = #[trigger] rebuilt@[k];
                        let q = orig[k];
                        p.offset == q.offset && p.count == q.count && p.dummy == q.dummy
                            && p.indices@ == material_list_bytes@.subrange(
                            q.offset as int,
                            q.offset as int + q.count as int,
                        )
                    },
                failed is Some ==> exists|k: int|
                    0 <= k < n as int && (#[trigger] orig[k]).offset as int + orig[k].count as int
                        > material_list_bytes@.len(),
                failed is None ==> forall|k: int|
                    0 <= k < i ==> (#[trigger] orig[k]).offset as int + orig[k].count as int
                        <= material_list_bytes@.len(),
            decreases n - i,
        {
            let mut p = src.remove(0);
            proof {
                assert(orig.skip(i as int)[0] == orig[i as int]);
                assert(orig.skip(i as int).skip(1) =~= orig.skip(i + 1));
                assert(src@ =~= orig.skip(i + 1));
            }
            if failed.is_none() {
                match p.read_indices(material_list_bytes) {
                    Ok(()) => {},
                    Err(e) => {
                        failed = Some(e);
                    },
                }
            }
            rebuilt.push(p);
            i = i + 1;
        }
        core::mem::swap(&mut rebuilt, &mut self.texture_pairings.data);
        match failed {
            Some(e) => Err(e),
            None => Ok(()),
        }
    }

    /// Writes every record's index bytes back into the enclosing section,
    /// which starts at `pos`.
    pub fn write_indices(&self, material_list_buffer: &mut Vec<u8>, pos: usize) -> (r: Result<
        (),
        AppError,
    >)
        ensures
            final(material_list_buffer)@.len() == old(material_list_buffer)@.len(),
            forall|k: int|
                0 <= k < final(material_list_buffer)@.len() && !(pos + idx_start_min(
                    self.texture_pairings.data@,
                ) <= k < pos + idx_end_max(self.texture_pairings.data@)) ==> final(
                material_list_buffer)@[k] == old(material_list_buffer)@[k],
    {
        let n = self.texture_pairings.len();
        let mut i: usize = 0;
        while i < n
            invariant
                i <= n,
                n == self.texture_pairings.count as int,
                material_list_buffer@.len() == old(material_list_buffer)@.len(),
                forall|k: int|
                    0 <= k < material_list_buffer@.len() && !(pos + idx_start_min(
                        self.texture_pairings.data@,
                    ) <= k < pos + idx_end_max(self.texture_pairings.data@)) ==> material_list_buffer@[k]
                        == old(material_list_buffer)@[k],
            decreases n - i,
        {
            let p = match self.texture_pairings.get(i) {
                Some(p) => p,
                None => {
                    i = i + 1;
                    continue ;
                },
            };
            proof {
                lemma_idx_end_max_bound(self.texture_pairings.data@, i as int);
                lemma_idx_start_min_bound(self.texture_pairings.data@, i as int);
            }
            match p.write_indices(material_list_buffer, pos) {
                Ok(()) => {},
                Err(e) => return Err(e),
            }
            i = i + 1;
        }
        Ok(())
    }

    /// The number of index bytes of all records together.
    pub fn total_indices_count(&self) -> (r: usize)
        requires
            total_counts(self.texture_pairings.data@) <= usize::MAX,
        ensures
            r == total_counts(self.texture_pairings.data@),
    {
        let n = self.texture_pairings.data.len();
        let mut total: usize = 0;
        let mut i: usize = 0;
        proof {
            assert(self.texture_pairings.data@.skip(0) =~= self.texture_pairings.data@);
        }
        while i < n
            invariant
                i <= n,
                n == self.texture_pairings.data@.len(),
                total_counts(self.texture_pairings.data@) <= usize::MAX,
                total_counts(self.texture_pairings.data@) == total + total_counts(
                    self.texture_pairings.data@.skip(i as int),
                ),
            decreases n - i,
        {
            proof {
                assert(self.texture_pairings.data@.skip(i as int)[0] == self.texture_pairings.data@[i as int]);
                assert(self.texture_pairings.data@.skip(i as int).skip(1) =~= self.texture_pairings.data@.skip(i + 1));
                lemma_total_counts_nonneg(self.texture_pairings.data@.skip(i + 1));
            }
            let p = &self.texture_pairings.data[i];
            total = total + p.count as usize;
            i = i + 1;
        }
        proof {
            assert(self.texture_pairings.data@.skip(n as int) =~= Seq::<MaterialIdxList>::empty());
        }
        total
    }

    /// Rewrites every record's offset so the index bytes lie one after
    /// another from `offset` on.
    pub fn set_begin_indices_offset(&mut self, offset: u16)
        requires
            offset + total_counts(old(self).texture_pairings.data@) <= 0xFFFF,
        ensures
            final(self).texture_pairings.data@.len() == old(self).texture_pairings.data@.len(),
            final(self).texture_pairings.names@ == old(self).texture_pairings.names@,
            final(self).texture_pairings.count == old(self).texture_pairings.count,
            final(self).texture_pairings.size == old(self).texture_pairings.size,
            final(self).texture_pairings.element_size == old(self).texture_pairings.element_size,
            final(self).texture_pairings.unknown.header == old(self).texture_pairings.unknown.header,
            final(self).texture_pairings.unknown.unknown@ == old(self).texture_pairings.unknown.unknown@,
            forall|i: int|
                0 <= i < final(self).texture_pairings.data@.len() ==> {
                    let p = #[trigger] final(self).texture_pairings.data@[i];
                    let q = old(self).texture_pairings.data@[i];
                    p.offset as int == offset + total_counts(old(self).texture_pairings.data@.take(i))
                        && p.count == q.count && p.dummy == q.dummy && p.indices@ == q.indices@
                },
    {
        let mut src: Vec<MaterialIdxList> = Vec::new();
        core::mem::swap(&mut src, &mut self.texture_pairings.data);
        let ghost orig = src@;
        let n = src.len();
        let mut rebuilt: Vec<MaterialIdxList> = Vec::new();
        let mut cur: u16 = offset;
        let mut i: usize = 0;
        proof {
            assert(orig.take(0) =~= Seq::<MaterialIdxList>::empty());
            assert(orig.skip(0) =~= orig);
        }
        while i < n
            invariant
                i <= n,
                n == orig.len(),
                src@ == orig.skip(i as int),
                rebuilt@.len() == i,
                cur as int == offset + total_counts(orig.take(i as int)),
                offset + total_counts(orig) <= 0xFFFF,
                total_counts(orig) == total_counts(orig.take(i as int)) + total_counts(
                    orig.skip(i as int),
                ),
                forall|k: int|
                    0 <= k < i ==> {
                        let p = #[trigger] rebuilt@[k];
                        let q = orig[k];
                        p.offset as int == offset + total_counts(orig.take(k)) && p.count == q.count
                            && p.dummy == q.dummy && p.indices@ == q.indices@
                    },
            decreases n - i,
        {
            let mut p = src.remove(0);
            proof {
                assert(orig.skip(i as int)[0] == orig[i as int]);
                assert(orig.skip(i as int).skip(1) =~= orig.skip(i + 1));
                assert(src@ =~= orig.skip(i + 1));
                assert(orig.take(i + 1) =~= orig.take(i as int).push(orig[i as int]));
                lemma_total_counts_push(orig.take(i as int), orig[i as int]);
                lemma_total_counts_nonneg(orig.skip(i + 1));
                lemma_total_counts_nonneg(orig.take(i as int));
            }
            p.offset = cur;
            cur = cur + p.count as u16;
            rebuilt.push(p);
            i = i + 1;
        }
        core::mem::swap(&mut rebuilt, &mut self.texture_pairings.data);
    }
}


/// Pairs each material with the palettes it uses, by index.
#[derive(Clone, Debug)]
pub struct PalettePairingList {
    pub palette_pairings: NameList<MaterialIdxList>,
}

impl PalettePairingList {
    pub open spec fn wf(self) -> bool {
        self.palette_pairings.wf()
    }

    pub fn from_bytes(bytes: &[u8]) -> (r: Result<PalettePairingList, AppError>)
        ensures
            r is Err <==> crate::name_list::nl_decode_err::<MaterialIdxList>(bytes@),
            r is Ok ==> r->Ok_0.wf(),
            r is Ok ==> pairing_list_matches(r->Ok_0.palette_pairings, bytes@),
    {
        let palette_pairings = match NameList::<MaterialIdxList>::from_bytes(bytes) {
            Ok(l) => l,
            Err(e) => return Err(e),
        };
        Ok(PalettePairingList { palette_pairings })
    }

    /// Writes the pairing name-list (headers only; the index bytes are
    /// written separately).
    pub fn write_bytes(&self, buffer: &mut Vec<u8>, pos: usize)
        requires
            self.wf(),
            pos + self.palette_pairings.size as int <= old(buffer)@.len(),
        ensures
            final(buffer)@.len() == old(buffer)@.len(),
            forall|i: int|
                0 <= i < final(buffer)@.len() && !(pos <= i < pos + self.palette_pairings.size as int)
                    ==> final(buffer)@[i] == old(buffer)@[i],
            crate::name_list::nl_written(self.palette_pairings, final(buffer)@, pos as int),
    {
        self.palette_pairings.write_bytes(buffer, pos);
    }

    pub fn size(&self) -> (r: usize)
        ensures
            r == self.palette_pairings.size as int,
    {
        self.palette_pairings.size()
    }

    /// Recomputes the name-list size and refreshes every record's count
    /// from its held indices.
    pub fn rebase(&mut self)
        requires
            old(self).palette_pairings.computed_size() <= 0xFFFF,
            forall|i: int|
                0 <= i < old(self).palette_pairings.data@.len() ==> (
                #[trigger] old(self).palette_pairings.data@[i]).indices@.len() <= 0xFF,
        ensures
            final(self).palette_pairings.size as int == old(self).palette_pairings.computed_size(),
            final(self).palette_pairings.data@.len() == old(self).palette_pairings.data@.len(),
            final(self).palette_pairings.names@ == old(self).palette_pairings.names@,
            final(self).palette_pairings.count == old(self).palette_pairings.count,
            final(self).palette_pairings.element_size == old(self).palette_pairings.element_size,
            final(self).palette_pairings.unknown.header == old(self).palette_pairings.unknown.header,
            final(self).palette_pairings.unknown.unknown@ == old(self).palette_pairings.unknown.unknown@,
            forall|i: int|
                0 <= i < final(self).palette_pairings.data@.len() ==> {
                    let p = #[trigger] final(self).palette_pairings.data@[i];
                    let q = old(self).palette_pairings.data@[i];
                    p.count as int == q.indices@.len() && p.offset == q.offset && p.dummy == q.dummy
                        && p.indices@ == q.indices@
                },
    {
        self.palette_pairings.rebase();
        let mut src: Vec<MaterialIdxList> = Vec::new();
        core::mem::swap(&mut src, &mut self.palette_pairings.data);
        let ghost orig = src@;
        let n = src.len();
        let mut rebuilt: Vec<MaterialIdxList> = Vec::new();
        let mut i: usize = 0;
        while i < n
            invariant
                i <= n,
                n == orig.len(),
                src@ == orig.skip(i as int),
                rebuilt@.len() == i,
                forall|k: int|
                    0 <= k < orig.len() ==> (#[trigger] orig[k]).indices@.len() <= 0xFF,
                forall|k: int|
                    0 <= k < i ==> {
                        let p = #[trigger] rebuilt@[k];
                        let q = orig[k];
                        p.count as int == q.indices@.len() && p.offset == q.offset && p.dummy
                            == q.dummy && p.indices@ == q.indices@
                    },
            decreases n - i,
        {
            let mut p = src.remove(0);
            proof {
                assert(orig.skip(i as int)[0] == orig[i as int]);
                assert(orig.skip(i as int).skip(1) =~= orig.skip(i + 1));
                assert(src@ =~= orig.skip(i + 1));
            }
            p.rebase();
            rebuilt.push(p);
            i = i + 1;
        }
        core::mem::swap(&mut rebuilt, &mut self.palette_pairings.data);
    }

    /// Reads every record's index bytes from the enclosing section.
    pub fn read_indices(&mut self, material_list_bytes: &[u8]) -> (r: Result<(), AppError>)
        ensures
            final(self).palette_pairings.data@.len() == old(self).palette_pairings.data@.len(),
            final(self).palette_pairings.names@ == old(self).palette_pairings.names@,
            final(self).palette_pairings.count == old(self).palette_pairings.count,
            final(self).palette_pairings.size == old(self).palette_pairings.size,
            final(self).palette_pairings.element_size == old(self).palette_pairings.element_size,
            final(self).palette_pairings.unknown.header == old(self).palette_pairings.unknown.header,
            final(self).palette_pairings.unknown.unknown@ == old(self).palette_pairings.unknown.unknown@,
            r is Ok ==> forall|i: int|
                0 <= i < final(self).palette_pairings.data@.len() ==> {
                    let p = #[trigger] final(self).palette_pairings.data@[i];
                    let q = old(self).palette_pairings.data@[i];
                    p.offset == q.offset && p.count == q.count && p.dummy == q.dummy && p.indices@
                        == material_list_bytes@.subrange(
                        q.offset as int,
                        q.offset as int + q.count as int,
                    )
                },
            r is Err ==> exists|i: int|
                0 <= i < old(self).palette_pairings.data@.len() && (#[trigger] old(
                    self,
                ).palette_pairings.data@[i]).offset as int + old(self).palette_pairings.data@[i].count as int
                    > material_list_bytes@.len(),
            r is Ok ==> forall|i: int|
                0 <= i < old(self).palette_pairings.data@.len() ==> (#[trigger] old(
                    self,
                ).palette_pairings.data@[i]).offset as int + old(self).palette_pairings.data@[i].count as int
                    <= material_list_bytes@.len(),
    {
        let mut src: Vec<MaterialIdxList> = Vec::new();
        core::mem::swap(&mut src, &mut self.palette_pairings.data);
        let ghost orig = src@;
        let n = src.len();
        let mut rebuilt: Vec<MaterialIdxList> = Vec::new();
        let mut i: usize = 0;
        let mut failed: Option<AppError> = None;
        while i < n
            invariant
                i <= n,
                n == orig.len(),
                src@ == orig.skip(i as int),
                rebuilt@.len() == i,
                failed is None ==> forall|k: int|
                    0 <= k < i ==> {
                        let p = #[trigger] rebuilt@[k];
                        let q = orig[k];
                        p.offset == q.offset && p.count == q.count && p.dummy == q.dummy
                            && p.indices@ == material_list_bytes@.subrange(
                            q.offset as int,
                            q.offset as int + q.count as int,
                        )
                    },
                failed is Some ==> exists|k: int|
                    0 <= k < n as int && (#[trigger] orig[k]).offset as int + orig[k].count as int
                        > material_list_bytes@.len(),
                failed is None ==> forall|k: int|
                    0 <= k < i ==> (#[trigger] orig[k]).offset as int + orig[k].count as int
                        <= material_list_bytes@.len(),
            decreases n - i,
        {
            let mut p = src.remove(0);
            proof {
                assert(orig.skip(i as int)[0] == orig[i as int]);
                assert(orig.skip(i as int).skip(1) =~= orig.skip(i + 1));
                assert(src@ =~= orig.skip(i + 1));
            }
            if failed.is_none() {
                match p.read_indices(material_list_bytes) {
                    Ok(()) => {},
                    Err(e) => {
                        failed = Some(e);
                    },
                }
            }
            rebuilt.push(p);
            i = i + 1;
        }
        core::mem::swap(&mut rebuilt, &mut self.palette_pairings.data);
        match failed {
            Some(e) => Err(e),
            None => Ok(()),
        }
    }

    /// Writes every record's index bytes back into the enclosing section,
    /// which starts at `pos`.
    pub fn write_indices(&self, material_list_buffer: &mut Vec<u8>, pos: usize) -> (r: Result<
        (),
        AppError,
    >)
        ensures
            final(material_list_buffer)@.len() == old(material_list_buffer)@.len(),
            forall|k: int|
                0 <= k < final(material_list_buffer)@.len() && !(pos + idx_start_min(
                    self.palette_pairings.data@,
                ) <= k < pos + idx_end_max(self.palette_pairings.data@)) ==> final(
                material_list_buffer)@[k] == old(material_list_buffer)@[k],
    {
        let n = self.palette_pairings.len();
        let mut i: usize = 0;
        while i < n
            invariant
                i <= n,
                n == self.palette_pairings.count as int,
                material_list_buffer@.len() == old(material_list_buffer)@.len(),
                forall|k: int|
                    0 <= k < material_list_buffer@.len() && !(pos + idx_start_min(
                        self.palette_pairings.data@,
                    ) <= k < pos + idx_end_max(self.palette_pairings.data@)) ==> material_list_buffer@[k]
                        == old(material_list_buffer)@[k],
            decreases n - i,
        {
            let p = match self.palette_pairings.get(i) {
                Some(p) => p,
                None => {
                    i = i + 1;
                    continue ;
                },
            };
            proof {
                lemma_idx_end_max_bound(self.palette_pairings.data@, i as int);
                lemma_idx_start_min_bound(self.palette_pairings.data@, i as int);
            }
            match p.write_indices(material_list_buffer, pos) {
                Ok(()) => {},
                Err(e) => return Err(e),
            }
            i = i + 1;
        }
        Ok(())
    }

    /// The number of index bytes of all records together.
    pub fn total_indices_count(&self) -> (r: usize)
        requires
            total_counts(self.palette_pairings.data@) <= usize::MAX,
        ensures
            r == total_counts(self.palette_pairings.data@),
    {
        let n = self.palette_pairings.data.len();
        let mut total: usize = 0;
        let mut i: usize = 0;
        proof {
            assert(self.palette_pairings.data@.skip(0) =~= self.palette_pairings.data@);
        }
        while i < n
            invariant
                i <= n,
                n == self.palette_pairings.data@.len(),
                total_counts(self.palette_pairings.data@) <= usize::MAX,
                total_counts(self.palette_pairings.data@) == total + total_counts(
                    self.palette_pairings.data@.skip(i as int),
                ),
            decreases n - i,
        {
            proof {
                assert(self.palette_pairings.data@.skip(i as int)[0] == self.palette_pairings.data@[i as int]);
                assert(self.palette_pairings.data@.skip(i as int).skip(1) =~= self.palette_pairings.data@.skip(i + 1));
                lemma_total_counts_nonneg(self.palette_pairings.data@.skip(i + 1));
            }
            let p = &self.palette_pairings.data[i];
            total = total + p.count as usize;
            i = i + 1;
        }
        proof {
            assert(self.palette_pairings.data@.skip(n as int) =~= Seq::<MaterialIdxList>::empty());
        }
        total
    }

    /// Rewrites every record's offset so the index bytes lie one after
    /// another from `offset` on.
    pub fn set_begin_indices_offset(&mut self, offset: u16)
        requires
            offset + total_counts(old(self).palette_pairings.data@) <= 0xFFFF,
        ensures
            final(self).palette_pairings.data@.len() == old(self).palette_pairings.data@.len(),
            final(self).palette_pairings.names@ == old(self).palette_pairings.names@,
            final(self).palette_pairings.count == old(self).palette_pairings.count,
            final(self).palette_pairings.size == old(self).palette_pairings.size,
            final(self).palette_pairings.element_size == old(self).palette_pairings.element_size,
            final(self).palette_pairings.unknown.header == old(self).palette_pairings.unknown.header,
            final(self).palette_pairings.unknown.unknown@ == old(self).palette_pairings.unknown.unknown@,
            forall|i: int|
                0 <= i < final(self).palette_pairings.data@.len() ==> {
                    let p = #[trigger] final(self).palette_pairings.data@[i];
                    let q = old(self).palette_pairings.data@[i];
                    p.offset as int == offset + total_counts(old(self).palette_pairings.data@.take(i))
                        && p.count == q.count && p.dummy == q.dummy && p.indices@ == q.indices@
                },
    {
        let mut src: Vec<MaterialIdxList> = Vec::new();
        core::mem::swap(&mut src, &mut self.palette_pairings.data);
        let ghost orig = src@;
        let n = src.len();
        let mut rebuilt: Vec<MaterialIdxList> = Vec::new();
        let mut cur: u16 = offset;
        let mut i: usize = 0;
        proof {
            assert(orig.take(0) =~= Seq::<MaterialIdxList>::empty());
            assert(orig.skip(0) =~= orig);
        }
        while i < n
            invariant
                i <= n,
                n == orig.len(),
                src@ == orig.skip(i as int),
                rebuilt@.len() == i,
                cur as int == offset + total_counts(orig.take(i as int)),
                offset + total_counts(orig) <= 0xFFFF,
                total_counts(orig) == total_counts(orig.take(i as int)) + total_counts(
                    orig.skip(i as int),
                ),
                forall|k: int|
                    0 <= k < i ==> {
                        let p = #[trigger] rebuilt@[k];
                        let q = orig[k];
                        p.offset as int == offset + total_counts(orig.take(k)) && p.count == q.count
                            && p.dummy == q.dummy && p.indices@ == q.indices@
                    },
            decreases n - i,
        {
            let mut p = src.remove(0);
            proof {
                assert(orig.skip(i as int)[0] == orig[i as int]);
                assert(orig.skip(i as int).skip(1) =~= orig.skip(i + 1));
                assert(src@ =~= orig.skip(i + 1));
                assert(orig.take(i + 1) =~= orig.take(i as int).push(orig[i as int]));
                lemma_total_counts_push(orig.take(i as int), orig[i as int]);
                lemma_total_counts_nonneg(orig.skip(i + 1));
                lemma_total_counts_nonneg(orig.take(i as int));
            }
            p.offset = cur;
            cur = cur + p.count as u16;
            rebuilt.push(p);
            i = i + 1;
        }
        core::mem::swap(&mut rebuilt, &mut self.palette_pairings.data);
    }
}


/// The largest material-record offset of the list, or zero when there are
/// none.
pub open spec fn max_mat_off(s: Seq<u32>) -> int
    decreases s.len(),
{
    if s.len() == 0 {
        0
    } else {
        let rest = max_mat_off(s.skip(1));
        if s[0] as int > rest {
            s[0] as int
        } else {
            rest
        }
    }
}

proof fn lemma_max_mat_off(s: Seq<u32>, i: int)
    requires
        0 <= i < s.len(),
    ensures
        s[i] as int <= max_mat_off(s),
        max_mat_off(s) >= 0,
    decreases s.len(),
{
    if i == 0 {
        lemma_max_mat_off_nonneg(s.skip(1));
    } else {
        assert(s.skip(1)[i - 1] == s[i]);
        lemma_max_mat_off(s.skip(1), i - 1);
    }
}

/// When every offset is at most `b`, so is their maximum.
pub proof fn lemma_max_mat_off_le(s: Seq<u32>, b: int)
    requires
        b >= 0,
        forall|i: int| 0 <= i < s.len() ==> (#[trigger] s[i]) as int <= b,
    ensures
        max_mat_off(s) <= b,
    decreases s.len(),
{
    if s.len() > 0 {
        assert(forall|i: int| 0 <= i < s.skip(1).len() ==> (#[trigger] s.skip(1)[i]) as int <= b);
        lemma_max_mat_off_le(s.skip(1), b);
    }
}

pub proof fn lemma_max_mat_off_nonneg(s: Seq<u32>)
    ensures
        max_mat_off(s) >= 0,
    decreases s.len(),
{
    if s.len() > 0 {
        lemma_max_mat_off_nonneg(s.skip(1));
    }
}

/// The section's encoded image stands in `v` at `pos`: the two header
/// offsets, the materials name-list, each material record at its offset,
/// and the two pairing name-lists at theirs.
pub open spec fn material_list_written(ml: MaterialList, v: Seq<u8>, pos: int) -> bool {
    &&& v.subrange(pos, pos + 2) == spec_u16_to_le_bytes(ml.texture_pairings_offset)
    &&& v.subrange(pos + 2, pos + 4) == spec_u16_to_le_bytes(ml.palette_pairings_offset)
    &&& crate::name_list::nl_written(ml.materials, v, pos + 4)
    &&& forall|k: int|
        0 <= k < ml.materials_data@.len() ==> material_written(
            #[trigger] ml.materials_data@[k],
            v,
            pos + ml.materials.data@[k] as int,
        )
    &&& crate::name_list::nl_written(
        ml.texture_pairing_list.texture_pairings,
        v,
        pos + ml.texture_pairings_offset as int,
    )
    &&& crate::name_list::nl_written(
        ml.palette_pairing_list.palette_pairings,
        v,
        pos + ml.palette_pairings_offset as int,
    )
}

/// A later write that leaves the section's bytes alone leaves its image
/// standing.
pub proof fn lemma_material_list_written_frame(
    ml: MaterialList,
    v1: Seq<u8>,
    v2: Seq<u8>,
    pos: int,
)
    requires
        material_list_written(ml, v1, pos),
        ml.wf(),
        ml.layout_ok(),
        0 <= pos,
        pos + ml.spec_size() <= v1.len(),
        v1.len() == v2.len(),
        forall|k: int| pos <= k < pos + ml.spec_size() ==> v2[k] == v1[k],
    ensures
        material_list_written(ml, v2, pos),
{
    assert(v2.subrange(pos, pos + 2) =~= v1.subrange(pos, pos + 2));
    assert(v2.subrange(pos + 2, pos + 4) =~= v1.subrange(pos + 2, pos + 4));
    crate::name_list::lemma_nl_written_frame(ml.materials, v1, v2, pos + 4);
    assert forall|k: int| 0 <= k < ml.materials_data@.len() implies material_written(
        #[trigger] ml.materials_data@[k],
        v2,
        pos + ml.materials.data@[k] as int,
    ) by {
        lemma_material_written_frame(
            ml.materials_data@[k],
            v1,
            v2,
            pos + ml.materials.data@[k] as int,
        );
    };
    crate::name_list::lemma_nl_written_frame(
        ml.texture_pairing_list.texture_pairings,
        v1,
        v2,
        pos + ml.texture_pairings_offset as int,
    );
    crate::name_list::lemma_nl_written_frame(
        ml.palette_pairing_list.palette_pairings,
        v1,
        v2,
        pos + ml.palette_pairings_offset as int,
    );
}

/// The material section: two pairing-list offsets, a `NameList` of
/// material-record offsets, the pairing lists, and the material records.
#[derive(Clone, Debug)]
pub struct MaterialList {
    pub texture_pairings_offset: u16,
    pub palette_pairings_offset: u16,
    pub materials: NameList<u32>,
    pub texture_pairing_list: TexturePairingList,
    pub palette_pairing_list: PalettePairingList,
    pub materials_data: Vec<Material>,
}

impl MaterialList {
    pub open spec fn wf(self) -> bool {
        &&& self.materials.wf()
        &&& self.texture_pairing_list.wf()
        &&& self.palette_pairing_list.wf()
        &&& self.materials_data@.len() == self.materials.count as int
    }

    /// The section's byte length: the furthest end of the materials, the
    /// texture pairings and the palette pairings, since dead space may
    /// sit between them.
    pub open spec fn spec_size(self) -> int {
        let mat_end = max_mat_off(self.materials.data@) + 44;
        let tex_end = self.texture_pairings_offset as int
            + self.texture_pairing_list.texture_pairings.size as int;
        let pal_end = self.palette_pairings_offset as int
            + self.palette_pairing_list.palette_pairings.size as int;
        let a = if mat_end > tex_end {
            mat_end
        } else {
            tex_end
        };
        if a > pal_end {
            a
        } else {
            pal_end
        }
    }

    /// The regions lie in the format's order - materials name-list, the
    /// two pairing lists, their index bytes, then the material records,
    /// in order and without overlap - and every write stays inside the
    /// section.
    pub open spec fn layout_ok(self) -> bool {
        &&& 4 + self.materials.size as int <= self.texture_pairings_offset as int
        &&& self.texture_pairings_offset as int
            + self.texture_pairing_list.texture_pairings.size as int
            <= self.palette_pairings_offset as int
        &&& self.palette_pairings_offset as int
            + self.palette_pairing_list.palette_pairings.size as int <= self.spec_size()
        &&& forall|i: int|
            0 <= i < self.texture_pairing_list.texture_pairings.data@.len() ==> (
            #[trigger] self.texture_pairing_list.texture_pairings.data@[i]).offset as int
                >= self.palette_pairings_offset as int
                + self.palette_pairing_list.palette_pairings.size as int
        &&& forall|i: int|
            0 <= i < self.palette_pairing_list.palette_pairings.data@.len() ==> (
            #[trigger] self.palette_pairing_list.palette_pairings.data@[i]).offset as int
                >= self.palette_pairings_offset as int
                + self.palette_pairing_list.palette_pairings.size as int
        &&& idx_end_max(self.texture_pairing_list.texture_pairings.data@) <= self.spec_size()
        &&& idx_end_max(self.palette_pairing_list.palette_pairings.data@) <= self.spec_size()
        &&& forall|i: int|
            0 <= i < self.materials.data@.len() ==> {
                let off = (#[trigger] self.materials.data@[i]) as int;
                &&& off >= idx_end_max(self.texture_pairing_list.texture_pairings.data@)
                &&& off >= idx_end_max(self.palette_pairing_list.palette_pairings.data@)
                &&& off >= self.palette_pairings_offset as int
                    + self.palette_pairing_list.palette_pairings.size as int
                &&& off + 44 <= self.spec_size()
            }
        &&& forall|i: int|
            0 <= i < self.materials.data@.len() - 1 ==> (#[trigger] self.materials.data@[i]) as int
                + 44 <= self.materials.data@[i + 1] as int
    }

    /// Earlier material records end before later records begin.
    proof fn lemma_mat_offsets_chain(&self, a: int, b: int)
        requires
            self.layout_ok(),
            0 <= a < b < self.materials.data@.len(),
        ensures
            self.materials.data@[a] as int + 44 <= self.materials.data@[b] as int,
        decreases b - a,
    {
        if a + 1 < b {
            self.lemma_mat_offsets_chain(a, b - 1);
        }
    }

    /// Decodes the section in three phases: the headers, the material
    /// records at their offsets, and then the pairing index bytes the
    /// pairing records point to.
    pub fn from_bytes(bytes: &[u8]) -> (r: Result<MaterialList, AppError>)
        ensures
            r is Err <==> material_list_decode_err(bytes@),
            r is Ok ==> {
                let ml = r->Ok_0;
                &&& ml.wf()
                &&& ml.texture_pairings_offset == spec_u16_from_le_bytes(bytes@.subrange(0, 2))
                &&& ml.palette_pairings_offset == spec_u16_from_le_bytes(bytes@.subrange(2, 4))
            },
    {
        let n = bytes.len();
        if n < 44 {
            return Err(AppError::new("MaterialList needs at least 44 bytes"));
        }
        let texture_pairings_offset = read_u16(bytes, 0);
        let palette_pairings_offset = read_u16(bytes, 2);
        let mb_slice = slice_subrange(bytes, 4, n);
        let materials = match NameList::<u32>::from_bytes(mb_slice) {
            Ok(m) => m,
            Err(e) => return Err(e),
        };
        proof {
            vstd::bytes::lemma_auto_spec_u32_to_from_le_bytes();
            assert forall|k: int| 0 <= k < materials.count as int implies (
            #[trigger] materials.data@[k]) as int == crate::name_list::nl_u32_at(
                bytes@.subrange(4, n as int),
                k,
            ) by {
                assert(materials.data@[k].enc() == vstd::bytes::spec_u32_to_le_bytes(
                    materials.data@[k],
                ));
            };
        }
        let count = materials.len();
        let mut materials_data: Vec<Material> = Vec::new();
        let mut i: usize = 0;
        while i < count
            invariant
                i <= count,
                n == bytes@.len(),
                count == materials.count as int,
                count == bytes@.subrange(4, n as int)[1] as int,
                materials.wf(),
                materials_data@.len() == i,
                forall|k: int|
                    0 <= k < count ==> (#[trigger] materials.data@[k]) as int
                        == crate::name_list::nl_u32_at(bytes@.subrange(4, n as int), k),
                forall|k: int|
                    0 <= k < i ==> #[trigger] crate::name_list::nl_u32_at(
                        bytes@.subrange(4, n as int),
                        k,
                    ) + 44 <= n as int,
            decreases count - i,
        {
            let offset = match materials.get(i) {
                Some(o) => *o,
                None => {
                    proof {
                        assert(false);
                    }
                    0
                },
            };
            if offset as usize > n {
                return Err(AppError::new("Material offset is out of bounds"));
            }
            let m = match Material::from_bytes(slice_subrange(bytes, offset as usize, n)) {
                Ok(m) => m,
                Err(e) => return Err(e),
            };
            materials_data.push(m);
            i = i + 1;
        }
        if texture_pairings_offset as usize > n {
            return Err(AppError::new("Texture pairing offset is out of bounds"));
        }
        let mut texture_pairing_list = match TexturePairingList::from_bytes(
            slice_subrange(bytes, texture_pairings_offset as usize, n),
        ) {
            Ok(t) => t,
            Err(e) => return Err(e),
        };
        if palette_pairings_offset as usize > n {
            return Err(AppError::new("Palette pairing offset is out of bounds"));
        }
        let mut palette_pairing_list = match PalettePairingList::from_bytes(
            slice_subrange(bytes, palette_pairings_offset as usize, n),
        ) {
            Ok(p) => p,
            Err(e) => return Err(e),
        };
        let ghost tex_pre = texture_pairing_list;
        match texture_pairing_list.read_indices(bytes) {
            Ok(()) => {},
            Err(e) => {
                proof {
                    lemma_pairing_read_err_witness(
                        tex_pre.texture_pairings,
                        bytes@,
                        texture_pairings_offset as int,
                    );
                }
                return Err(e);
            },
        }
        let ghost pal_pre = palette_pairing_list;
        match palette_pairing_list.read_indices(bytes) {
            Ok(()) => {},
            Err(e) => {
                proof {
                    lemma_pairing_read_err_witness(
                        pal_pre.palette_pairings,
                        bytes@,
                        palette_pairings_offset as int,
                    );
                }
                return Err(e);
            },
        }
        proof {
            lemma_pairing_read_ok(
                tex_pre.texture_pairings,
                bytes@,
                texture_pairings_offset as int,
            );
            lemma_pairing_read_ok(
                pal_pre.palette_pairings,
                bytes@,
                palette_pairings_offset as int,
            );
            assert(!material_list_decode_err(bytes@));
        }
        Ok(
            MaterialList {
                texture_pairings_offset,
                palette_pairings_offset,
                materials,
                texture_pairing_list,
                palette_pairing_list,
                materials_data,
            },
        )
    }

    /// Writes the section at `buffer[pos..]`: header offsets, the
    /// material name-list, each material record at its offset, the two
    /// pairing lists, and finally their index bytes.
    #[verifier::rlimit(100)]
    pub fn write_bytes(&self, buffer: &mut Vec<u8>, pos: usize)
        requires
            self.wf(),
            self.layout_ok(),
            pos + self.spec_size() <= old(buffer)@.len(),
        ensures
            final(buffer)@.len() == old(buffer)@.len(),
            forall|i: int|
                0 <= i < final(buffer)@.len() && !(pos <= i < pos + self.spec_size())
                    ==> final(buffer)@[i] == old(buffer)@[i],
            material_list_written(*self, final(buffer)@, pos as int),
    {
        proof {
            lemma_idx_start_min_ge(self.texture_pairing_list.texture_pairings.data@, 0);
            lemma_idx_start_min_ge(self.palette_pairing_list.palette_pairings.data@, 0);
        }
        let ghost bound = pos + self.palette_pairings_offset as int
            + self.palette_pairing_list.palette_pairings.size as int;
        let n = buffer.len();
        write_u16(buffer, pos, self.texture_pairings_offset);
        write_u16(buffer, pos + 2, self.palette_pairings_offset);
        self.materials.write_bytes(buffer, pos + 4);
        let ghost after_mat_nl = buffer@;
        let count = self.materials_data.len();
        let mut i: usize = 0;
        while i < count
            invariant
                i <= count,
                count == self.materials_data@.len(),
                self.wf(),
                self.layout_ok(),
                pos + self.spec_size() <= buffer@.len(),
                buffer@.len() <= usize::MAX,
                buffer@.len() == old(buffer)@.len(),
                buffer@.len() == after_mat_nl.len(),
                bound == pos + self.palette_pairings_offset as int
                    + self.palette_pairing_list.palette_pairings.size as int,
                forall|k: int|
                    0 <= k < buffer@.len() && !(pos <= k < pos + self.spec_size()) ==> buffer@[k]
                        == old(buffer)@[k],
                forall|k: int| 0 <= k < buffer@.len() && k < bound ==> buffer@[k] == after_mat_nl[k],
                forall|k: int|
                    0 <= k < i ==> material_written(
                        #[trigger] self.materials_data@[k],
                        buffer@,
                        pos + self.materials.data@[k] as int,
                    ),
            decreases count - i,
        {
            proof {
                if i > 0 {
                    self.lemma_mat_offsets_chain(i - 1, i as int);
                }
            }
            let ghost before = buffer@;
            let offset = match self.materials.get(i) {
                Some(o) => *o,
                None => {
                    proof {
                        assert(false);
                    }
                    0
                },
            };
            let m = &self.materials_data[i];
            m.write_bytes(buffer, pos + offset as usize);
            proof {
                assert forall|k: int| 0 <= k < i implies material_written(
                    #[trigger] self.materials_data@[k],
                    buffer@,
                    pos + self.materials.data@[k] as int,
                ) by {
                    self.lemma_mat_offsets_chain(k, i as int);
                    lemma_material_written_frame(
                        self.materials_data@[k],
                        before,
                        buffer@,
                        pos + self.materials.data@[k] as int,
                    );
                };
            }
            i = i + 1;
        }
        let ghost after_records = buffer@;
        self.texture_pairing_list.write_bytes(buffer, pos + self.texture_pairings_offset as usize);
        let ghost after_tex = buffer@;
        self.palette_pairing_list.write_bytes(buffer, pos + self.palette_pairings_offset as usize);
        let ghost after_lists = buffer@;
        match self.texture_pairing_list.write_indices(buffer, pos) {
            Ok(()) => {},
            Err(_) => {},
        }
        match self.palette_pairing_list.write_indices(buffer, pos) {
            Ok(()) => {},
            Err(_) => {},
        }
        proof {
            if self.texture_pairing_list.texture_pairings.data@.len() > 0 {
                lemma_idx_start_min_ge(
                    self.texture_pairing_list.texture_pairings.data@,
                    self.palette_pairings_offset as int
                        + self.palette_pairing_list.palette_pairings.size as int,
                );
            }
            if self.palette_pairing_list.palette_pairings.data@.len() > 0 {
                lemma_idx_start_min_ge(
                    self.palette_pairing_list.palette_pairings.data@,
                    self.palette_pairings_offset as int
                        + self.palette_pairing_list.palette_pairings.size as int,
                );
            }
            assert forall|k: int| 0 <= k < buffer@.len() && k < bound implies buffer@[k]
                == after_lists[k] by {};
            assert forall|k: int|
                pos + 4 <= k < pos + 4 + self.materials.size as int implies buffer@[k]
                == after_mat_nl[k] by {};
            crate::name_list::lemma_nl_written_frame(
                self.materials,
                after_mat_nl,
                buffer@,
                pos + 4,
            );
            assert forall|k: int|
                pos + self.texture_pairings_offset as int <= k < pos
                    + self.texture_pairings_offset as int
                    + self.texture_pairing_list.texture_pairings.size as int implies buffer@[k]
                == after_tex[k] by {};
            crate::name_list::lemma_nl_written_frame(
                self.texture_pairing_list.texture_pairings,
                after_tex,
                buffer@,
                pos + self.texture_pairings_offset as int,
            );
            assert forall|k: int|
                pos + self.palette_pairings_offset as int <= k < bound implies buffer@[k]
                == after_lists[k] by {};
            crate::name_list::lemma_nl_written_frame(
                self.palette_pairing_list.palette_pairings,
                after_lists,
                buffer@,
                pos + self.palette_pairings_offset as int,
            );
            assert forall|k: int| 0 <= k < self.materials_data@.len() implies material_written(
                #[trigger] self.materials_data@[k],
                buffer@,
                pos + self.materials.data@[k] as int,
            ) by {
                lemma_material_written_frame(
                    self.materials_data@[k],
                    after_records,
                    buffer@,
                    pos + self.materials.data@[k] as int,
                );
            };
            assert(buffer@.subrange(pos as int, pos + 2) =~= after_mat_nl.subrange(
                pos as int,
                pos + 2,
            ));
            assert(buffer@.subrange(pos + 2, pos + 4) =~= after_mat_nl.subrange(pos + 2, pos + 4));
            assert(buffer@.subrange(pos as int, pos + 2) == spec_u16_to_le_bytes(
                self.texture_pairings_offset,
            ));
            assert(buffer@.subrange(pos + 2, pos + 4) == spec_u16_to_le_bytes(
                self.palette_pairings_offset,
            ));
            assert(material_list_written(*self, buffer@, pos as int));
        }
    }

    /// The section's byte length.
    pub fn size(&self) -> (r: usize)
        requires
            self.spec_size() <= usize::MAX,
        ensures
            r == self.spec_size(),
    {
        let count = self.materials.data.len();
        let mut max_off: usize = 0;
        let mut i: usize = 0;
        while i < count
            invariant
                i <= count,
                count == self.materials.data@.len(),
                max_off == max_mat_off(self.materials.data@.take(i as int)),
                max_off <= u32::MAX,
            decreases count - i,
        {
            proof {
                lemma_max_mat_off_take(self.materials.data@, i as int);
            }
            let off = self.materials.data[i];
            if off as usize > max_off {
                max_off = off as usize;
            }
            i = i + 1;
        }
        proof {
            assert(self.materials.data@.take(count as int) =~= self.materials.data@);
            lemma_max_mat_off_nonneg(self.materials.data@);
        }
        let mat_end = max_off + 44;
        let tex_end = self.texture_pairings_offset as usize + self.texture_pairing_list.size();
        let pal_end = self.palette_pairings_offset as usize + self.palette_pairing_list.size();
        let mut r = mat_end;
        if tex_end > r {
            r = tex_end;
        }
        if pal_end > r {
            r = pal_end;
        }
        r
    }

    /// The sum of everything the size rule lays out in order: header,
    /// materials name-list, the two pairing lists, their index bytes,
    /// alignment, and the material records.
    pub open spec fn rebase_extent(self) -> int {
        4 + self.materials.computed_size() + self.texture_pairing_list.texture_pairings.computed_size()
            + self.palette_pairing_list.palette_pairings.computed_size() + sum_index_lens(
            self.texture_pairing_list.texture_pairings.data@,
        ) + sum_index_lens(self.palette_pairing_list.palette_pairings.data@) + 4 + 44
            * self.materials.data@.len() as int
    }

    /// The rebase relation: everything a rebase promises of its output,
    /// over its input.
    pub open spec fn rebased_from(post: MaterialList, pre: MaterialList) -> bool {
        &&& post.texture_pairings_offset as int == 4 + pre.materials.computed_size()
        &&& post.palette_pairings_offset as int == 4 + pre.materials.computed_size()
            + pre.texture_pairing_list.texture_pairings.computed_size()
        &&& post.materials.size as int == pre.materials.computed_size()
        &&& post.texture_pairing_list.texture_pairings.size as int
            == pre.texture_pairing_list.texture_pairings.computed_size()
        &&& post.palette_pairing_list.palette_pairings.size as int
            == pre.palette_pairing_list.palette_pairings.computed_size()
        &&& post.materials.data@.len() == pre.materials.data@.len()
        &&& forall|i: int|
            0 <= i < post.materials.data@.len() ==> (#[trigger] post.materials.data@[i]) as int
                == align4(
                post.palette_pairings_offset as int
                    + pre.palette_pairing_list.palette_pairings.computed_size() + sum_index_lens(
                    pre.texture_pairing_list.texture_pairings.data@,
                ) + sum_index_lens(pre.palette_pairing_list.palette_pairings.data@),
            ) + 44 * i
        &&& post.materials_data@ == pre.materials_data@
        &&& post.materials.computed_size() == pre.materials.computed_size()
        &&& post.texture_pairing_list.texture_pairings.computed_size()
            == pre.texture_pairing_list.texture_pairings.computed_size()
        &&& post.palette_pairing_list.palette_pairings.computed_size()
            == pre.palette_pairing_list.palette_pairings.computed_size()
        &&& sum_index_lens(post.texture_pairing_list.texture_pairings.data@) == sum_index_lens(
            pre.texture_pairing_list.texture_pairings.data@,
        )
        &&& sum_index_lens(post.palette_pairing_list.palette_pairings.data@) == sum_index_lens(
            pre.palette_pairing_list.palette_pairings.data@,
        )
    }

    /// Rebasing is idempotent: a second rebase with no intervening edits
    /// recomputes the same layout from the same record counts and index
    /// bytes, so rebasing and encoding twice yields equal bytes.
    pub proof fn lemma_rebase_idempotent(a: MaterialList, b: MaterialList, c: MaterialList)
        requires
            MaterialList::rebased_from(b, a),
            MaterialList::rebased_from(c, b),
        ensures
            c.texture_pairings_offset == b.texture_pairings_offset,
            c.palette_pairings_offset == b.palette_pairings_offset,
            c.materials.size == b.materials.size,
            c.texture_pairing_list.texture_pairings.size
                == b.texture_pairing_list.texture_pairings.size,
            c.palette_pairing_list.palette_pairings.size
                == b.palette_pairing_list.palette_pairings.size,
            c.materials.data@ == b.materials.data@,
            c.materials_data@ == b.materials_data@,
    {
        assert forall|i: int| 0 <= i < c.materials.data@.len() implies c.materials.data@[i]
            == b.materials.data@[i] by {
            assert((#[trigger] c.materials.data@[i]) as int == (#[trigger] b.materials.data@[
            i]) as int);
        };
        assert(c.materials.data@ =~= b.materials.data@);
    }

    /// Recomputes the layout in format order: materials name-list, texture
    /// pairings, palette pairings, the concatenated index bytes, then the
    /// material records, 4-byte aligned.
    pub fn rebase(&mut self)
        requires
            old(self).wf(),
            old(self).rebase_extent() <= 0xFFFF,
            forall|i: int|
                0 <= i < old(self).texture_pairing_list.texture_pairings.data@.len() ==> (
                #[trigger] old(self).texture_pairing_list.texture_pairings.data@[i]).indices@.len()
                    <= 0xFF,
            forall|i: int|
                0 <= i < old(self).palette_pairing_list.palette_pairings.data@.len() ==> (
                #[trigger] old(self).palette_pairing_list.palette_pairings.data@[i]).indices@.len()
                    <= 0xFF,
        ensures
            final(self).texture_pairings_offset as int == 4 + old(self).materials.computed_size(),
            final(self).palette_pairings_offset as int == 4 + old(self).materials.computed_size()
                + old(self).texture_pairing_list.texture_pairings.computed_size(),
            final(self).materials.size as int == old(self).materials.computed_size(),
            final(self).texture_pairing_list.texture_pairings.size as int == old(
                self,
            ).texture_pairing_list.texture_pairings.computed_size(),
            final(self).palette_pairing_list.palette_pairings.size as int == old(
                self,
            ).palette_pairing_list.palette_pairings.computed_size(),
            final(self).materials.data@.len() == old(self).materials.data@.len(),
            forall|i: int|
                0 <= i < final(self).materials.data@.len() ==> (
                #[trigger] final(self).materials.data@[i]) as int == align4(
                    final(self).palette_pairings_offset as int + old(
                        self,
                    ).palette_pairing_list.palette_pairings.computed_size() + sum_index_lens(
                        old(self).texture_pairing_list.texture_pairings.data@,
                    ) + sum_index_lens(old(self).palette_pairing_list.palette_pairings.data@),
                ) + 44 * i,
            final(self).materials_data@ == old(self).materials_data@,
            final(self).materials.computed_size() == old(self).materials.computed_size(),
            final(self).texture_pairing_list.texture_pairings.computed_size() == old(
                self,
            ).texture_pairing_list.texture_pairings.computed_size(),
            final(self).palette_pairing_list.palette_pairings.computed_size() == old(
                self,
            ).palette_pairing_list.palette_pairings.computed_size(),
            sum_index_lens(final(self).texture_pairing_list.texture_pairings.data@)
                == sum_index_lens(old(self).texture_pairing_list.texture_pairings.data@),
            sum_index_lens(final(self).palette_pairing_list.palette_pairings.data@)
                == sum_index_lens(old(self).palette_pairing_list.palette_pairings.data@),
            MaterialList::rebased_from(*final(self), *old(self)),
    {
        proof {
            lemma_sum_index_lens_nonneg(self.texture_pairing_list.texture_pairings.data@);
            lemma_sum_index_lens_nonneg(self.palette_pairing_list.palette_pairings.data@);
        }
        self.materials.rebase();
        self.texture_pairing_list.rebase();
        self.palette_pairing_list.rebase();
        proof {
            lemma_total_counts_is_sum_index_lens(
                self.texture_pairing_list.texture_pairings.data@,
                old(self).texture_pairing_list.texture_pairings.data@,
            );
            lemma_total_counts_is_sum_index_lens(
                self.palette_pairing_list.palette_pairings.data@,
                old(self).palette_pairing_list.palette_pairings.data@,
            );
        }
        proof {
            let tp = self.texture_pairing_list.texture_pairings;
            let pp = self.palette_pairing_list.palette_pairings;
            vstd::arithmetic::mul::lemma_mul_nonnegative(
                self.materials.data@.len() as int,
                self.materials.element_size as int,
            );
            vstd::arithmetic::mul::lemma_mul_nonnegative(
                tp.data@.len() as int,
                tp.element_size as int,
            );
            vstd::arithmetic::mul::lemma_mul_nonnegative(
                pp.data@.len() as int,
                pp.element_size as int,
            );
        }
        let mut offset: usize = 4 + self.materials.size();
        self.texture_pairings_offset = offset as u16;
        offset = offset + self.texture_pairing_list.size();
        self.palette_pairings_offset = offset as u16;
        offset = offset + self.palette_pairing_list.size();
        self.texture_pairing_list.set_begin_indices_offset(offset as u16);
        proof {
            lemma_total_counts_congruent(
                self.texture_pairing_list.texture_pairings.data@,
                old(self).texture_pairing_list.texture_pairings.data@,
            );
        }
        offset = offset + self.texture_pairing_list.total_indices_count();
        self.palette_pairing_list.set_begin_indices_offset(offset as u16);
        proof {
            lemma_total_counts_congruent(
                self.palette_pairing_list.palette_pairings.data@,
                old(self).palette_pairing_list.palette_pairings.data@,
            );
        }
        offset = offset + self.palette_pairing_list.total_indices_count();
        proof {
            lemma_sum_index_lens_congruent(
                self.texture_pairing_list.texture_pairings.data@,
                old(self).texture_pairing_list.texture_pairings.data@,
            );
            lemma_sum_index_lens_congruent(
                self.palette_pairing_list.palette_pairings.data@,
                old(self).palette_pairing_list.palette_pairings.data@,
            );
        }
        offset = crate::alignment::get_4_byte_alignment(offset);
        let ghost mat_base = offset as int;
        let ghost tex_snap = self.texture_pairing_list;
        let ghost pal_snap = self.palette_pairing_list;
        let ghost tex_off_snap = self.texture_pairings_offset;
        let ghost pal_off_snap = self.palette_pairings_offset;
        let count = self.materials.data.len();
        let mut i: usize = 0;
        while i < count
            invariant
                i <= count,
                count == self.materials.data@.len(),
                count == old(self).materials.data@.len(),
                offset == mat_base + 44 * i,
                mat_base + 44 * count <= 0x1_0000,
                mat_base >= 0,
                self.materials.count == old(self).materials.count,
                self.materials.size as int == old(self).materials.computed_size(),
                self.materials.names@ == old(self).materials.names@,
                self.materials.element_size == old(self).materials.element_size,
                self.materials.unknown.unknown@ == old(self).materials.unknown.unknown@,
                self.texture_pairings_offset == tex_off_snap,
                self.palette_pairings_offset == pal_off_snap,
                self.texture_pairing_list == tex_snap,
                self.palette_pairing_list == pal_snap,
                self.materials_data@ == old(self).materials_data@,
                forall|k: int|
                    0 <= k < i ==> (#[trigger] self.materials.data@[k]) as int == mat_base + 44
                        * k,
            decreases count - i,
        {
            self.materials.set_data(i, offset as u32);
            offset = offset + 44;
            i = i + 1;
        }
    }
}

/// The index bytes every pairing record holds, together.
/// Two runs of records with the same held indices have the same index
/// byte total.
pub proof fn lemma_sum_index_lens_congruent(a: Seq<MaterialIdxList>, b: Seq<MaterialIdxList>)
    requires
        a.len() == b.len(),
        forall|i: int| 0 <= i < a.len() ==> (#[trigger] a[i]).indices@ == b[i].indices@,
    ensures
        sum_index_lens(a) == sum_index_lens(b),
    decreases a.len(),
{
    if a.len() > 0 {
        assert forall|i: int| 0 <= i < a.skip(1).len() implies (#[trigger] a.skip(1)[i]).indices@
            == b.skip(1)[i].indices@ by {
            assert(a.skip(1)[i] == a[i + 1]);
            assert(b.skip(1)[i] == b[i + 1]);
        };
        lemma_sum_index_lens_congruent(a.skip(1), b.skip(1));
    }
}

pub open spec fn sum_index_lens(s: Seq<MaterialIdxList>) -> int
    decreases s.len(),
{
    if s.len() == 0 {
        0
    } else {
        s[0].indices@.len() as int + sum_index_lens(s.skip(1))
    }
}

pub proof fn lemma_sum_index_lens_nonneg(s: Seq<MaterialIdxList>)
    ensures
        sum_index_lens(s) >= 0,
    decreases s.len(),
{
    if s.len() > 0 {
        lemma_sum_index_lens_nonneg(s.skip(1));
    }
}

/// Records whose counts pointwise equal another run's index lengths have
/// the same count total as those index lengths summed.
proof fn lemma_total_counts_congruent(now: Seq<MaterialIdxList>, orig: Seq<MaterialIdxList>)
    requires
        now.len() == orig.len(),
        forall|i: int|
            0 <= i < now.len() ==> (#[trigger] now[i]).count as int == orig[i].indices@.len(),
    ensures
        total_counts(now) == sum_index_lens(orig),
    decreases now.len(),
{
    if now.len() > 0 {
        assert(forall|i: int|
            0 <= i < now.skip(1).len() ==> (#[trigger] now.skip(1)[i]).count as int == orig.skip(
                1,
            )[i].indices@.len());
        lemma_total_counts_congruent(now.skip(1), orig.skip(1));
    }
}

/// After a rebase refreshed every count from its indices, the counts sum
/// to the index lengths the records held before.
proof fn lemma_total_counts_is_sum_index_lens(now: Seq<MaterialIdxList>, orig: Seq<MaterialIdxList>)
    requires
        now.len() == orig.len(),
        forall|i: int|
            0 <= i < now.len() ==> (#[trigger] now[i]).count as int == orig[i].indices@.len(),
    ensures
        total_counts(now) == sum_index_lens(orig),
    decreases now.len(),
{
    if now.len() > 0 {
        assert(forall|i: int|
            0 <= i < now.skip(1).len() ==> (#[trigger] now.skip(1)[i]).count as int == orig.skip(
                1,
            )[i].indices@.len());
        lemma_total_counts_is_sum_index_lens(now.skip(1), orig.skip(1));
    }
}

proof fn lemma_max_mat_off_take(s: Seq<u32>, i: int)
    requires
        0 <= i < s.len(),
    ensures
        max_mat_off(s.take(i + 1)) == (if s[i] as int > max_mat_off(s.take(i)) {
            s[i] as int
        } else {
            max_mat_off(s.take(i))
        }),
    decreases s.len(),
{
    lemma_max_mat_off_push(s.take(i), s[i]);
    assert(s.take(i + 1) =~= s.take(i).push(s[i]));
}

proof fn lemma_max_mat_off_push(s: Seq<u32>, v: u32)
    ensures
        max_mat_off(s.push(v)) == (if v as int > max_mat_off(s) {
            v as int
        } else {
            max_mat_off(s)
        }),
    decreases s.len(),
{
    if s.len() == 0 {
        assert(s.push(v)[0] == v);
        assert(s.push(v).skip(1) =~= Seq::<u32>::empty());
        assert(max_mat_off(s.push(v)) == (if v as int > max_mat_off(Seq::<u32>::empty()) {
            v as int
        } else {
            max_mat_off(Seq::<u32>::empty())
        }));
    } else {
        assert(s.push(v)[0] == s[0]);
        assert(s.push(v).skip(1) =~= s.skip(1).push(v));
        lemma_max_mat_off_push(s.skip(1), v);
    }
}

} // verus!
