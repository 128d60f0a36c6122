//! One model: a fixed 64-byte header, the bone list in place after it,
//! and four offset-addressed sections in format order: render commands,
//! materials, meshes, inverse-bind matrices.

use crate::alignment::align4;
use crate::alignment::get_4_byte_alignment;
use crate::bone_list::BoneList;
use crate::bounding_box::BoundingBox;
use crate::error::AppError;
use crate::fixed_1_19_12::Fixed1_19_12;
use crate::inv_bind_matrices::InvBindMatrices;
use crate::lebytes::i32_bits;
use crate::lebytes::i32_from_bits;
use crate::lebytes::read_u16;
use crate::lebytes::read_u32;
use crate::lebytes::read_u8;
use crate::lebytes::write_u16;
use crate::lebytes::write_u32;
use crate::lebytes::write_u8;
use crate::material_list::MaterialList;
use crate::mesh_list::MeshList;
use crate::render_command_list::rc_encode;
use crate::render_command_list::RenderCommandList;
use vstd::bytes::spec_u32_from_le_bytes;
use vstd::bytes::spec_u32_to_le_bytes;
use vstd::prelude::*;
use vstd::slice::slice_subrange;

verus! {

/// Some failure of a model decode, over the raw bytes: a truncated
/// header, a recorded size past the buffer, a section offset past the
/// buffer, or a section that does not decode at its offset.
pub open spec fn model_decode_err(bytes: Seq<u8>) -> bool {
    let n = bytes.len() as int;
    let size = spec_u32_from_le_bytes(bytes.subrange(0, 4)) as int;
    let rc_off = spec_u32_from_le_bytes(bytes.subrange(4, 8)) as int;
    let mat_off = spec_u32_from_le_bytes(bytes.subrange(8, 12)) as int;
    let mesh_off = spec_u32_from_le_bytes(bytes.subrange(12, 16)) as int;
    let inv_off = spec_u32_from_le_bytes(bytes.subrange(16, 20)) as int;
    ||| n < 4
    ||| size > n
    ||| n < 64
    ||| crate::bone_list::bone_list_decode_err(bytes.subrange(64, n))
    ||| rc_off > n
    ||| crate::render_command_list::rc_decode(bytes.subrange(rc_off, n)) is None
    ||| mat_off > n
    ||| crate::material_list::material_list_decode_err(bytes.subrange(mat_off, n))
    ||| mesh_off > n
    ||| crate::mesh_list::mesh_list_decode_err(bytes.subrange(mesh_off, n))
    ||| inv_off > size
    ||| (size - inv_off) % 84 != 0
}

/// One model and its sections.
#[derive(Clone, Debug)]
pub struct Model {
    pub size: u32,
    pub render_cmds_offset: u32,
    pub materials_offset: u32,
    pub meshes_offset: u32,
    pub inv_binds_offset: u32,
    pub unknown: [u8; 3],
    pub num_bone_matrices: u8,
    pub num_materials: u8,
    pub num_meshes: u8,
    pub unknown_2: [u8; 2],
    pub upscale: Fixed1_19_12,
    pub downscale: Fixed1_19_12,
    pub num_verts: u16,
    pub num_polys: u16,
    pub num_tris: u16,
    pub num_quads: u16,
    pub bounding_box: BoundingBox,
    pub unknown_3: [u8; 8],
    pub bone_list: BoneList,
    pub render_commands: RenderCommandList,
    pub materials: MaterialList,
    pub meshes: MeshList,
    pub inv_binds_matrices: InvBindMatrices,
}

/// The model's encoded image stands in `v` at `pos`: the 64-byte header
/// and every section at its recorded offset.
pub open spec fn model_written(m: Model, v: Seq<u8>, pos: int) -> bool {
    &&& v.subrange(pos, pos + 4) == spec_u32_to_le_bytes(m.size)
    &&& v.subrange(pos + 4, pos + 8) == spec_u32_to_le_bytes(m.render_cmds_offset)
    &&& v.subrange(pos + 8, pos + 12) == spec_u32_to_le_bytes(m.materials_offset)
    &&& v.subrange(pos + 12, pos + 16) == spec_u32_to_le_bytes(m.meshes_offset)
    &&& v.subrange(pos + 16, pos + 20) == spec_u32_to_le_bytes(m.inv_binds_offset)
    &&& v.subrange(pos + 20, pos + 23) == m.unknown@
    &&& v[pos + 23] == m.num_bone_matrices
    &&& v[pos + 24] == m.num_materials
    &&& v[pos + 25] == m.num_meshes
    &&& v.subrange(pos + 26, pos + 28) == m.unknown_2@
    &&& v.subrange(pos + 28, pos + 32) == spec_u32_to_le_bytes(
        crate::lebytes::u32_of_i32(m.upscale.value as int) as u32,
    )
    &&& v.subrange(pos + 32, pos + 36) == spec_u32_to_le_bytes(
        crate::lebytes::u32_of_i32(m.downscale.value as int) as u32,
    )
    &&& v.subrange(pos + 36, pos + 38) == vstd::bytes::spec_u16_to_le_bytes(m.num_verts)
    &&& v.subrange(pos + 38, pos + 40) == vstd::bytes::spec_u16_to_le_bytes(m.num_polys)
    &&& v.subrange(pos + 40, pos + 42) == vstd::bytes::spec_u16_to_le_bytes(m.num_tris)
    &&& v.subrange(pos + 42, pos + 44) == vstd::bytes::spec_u16_to_le_bytes(m.num_quads)
    &&& v.subrange(pos + 44, pos + 56) == m.bounding_box.enc()
    &&& v.subrange(pos + 56, pos + 64) == m.unknown_3@
    &&& forall|k: int|
        0 <= k < m.bone_list.bone_matrices@.len() ==> v.subrange(
            pos + 64 + m.bone_list.bones.data@[k] as int,
            pos + 64 + m.bone_list.bones.data@[k] as int
                + m.bone_list.bone_matrices@[k].spec_size(),
        ) == (#[trigger] m.bone_list.bone_matrices@[k]).enc()
    &&& crate::name_list::nl_written(m.bone_list.bones, v, pos + 64)
    &&& crate::material_list::material_list_written(
        m.materials,
        v,
        pos + m.materials_offset as int,
    )
    &&& crate::name_list::nl_written(m.meshes.meshes, v, pos + m.meshes_offset as int)
    &&& forall|k: int|
        0 <= k < m.meshes.mesh_data@.len() ==> crate::mesh_list::mesh_written(
            #[trigger] m.meshes.mesh_data@[k],
            v,
            pos + m.meshes_offset as int + m.meshes.meshes.data@[k] as int,
        )
    &&& v.subrange(
        pos + m.render_cmds_offset as int,
        pos + m.render_cmds_offset as int + rc_encode(m.render_commands@).len(),
    ) == rc_encode(m.render_commands@)
    &&& forall|k: int|
        0 <= k < m.inv_binds_matrices.matrices@.len() ==> v.subrange(
            pos + m.inv_binds_offset as int + 84 * k,
            pos + m.inv_binds_offset as int + 84 * k + 84,
        ) == (#[trigger] m.inv_binds_matrices.matrices@[k]).enc()
}

/// A later write that leaves the model's bytes alone leaves its image
/// standing.
#[verifier::rlimit(100)]
pub proof fn lemma_model_written_frame(m: Model, v1: Seq<u8>, v2: Seq<u8>, pos: int)
    requires
        model_written(m, v1, pos),
        m.wf(),
        m.layout_ok(),
        0 <= pos,
        pos + m.size as int <= v1.len(),
        v1.len() == v2.len(),
        forall|k: int| pos <= k < pos + m.size as int ==> v2[k] == v1[k],
    ensures
        model_written(m, v2, pos),
{
    crate::bone_list::lemma_sum_bone_sizes_nonneg(m.bone_list.bone_matrices@);
    crate::mesh_list::lemma_sum_mesh_sizes_nonneg(m.meshes.mesh_data@);
    crate::material_list::lemma_max_mat_off_nonneg(m.materials.materials.data@);
    vstd::arithmetic::mul::lemma_mul_nonnegative(84, m.inv_binds_matrices.matrices@.len() as int);
    assert(v2.subrange(pos, pos + 4) =~= v1.subrange(pos, pos + 4));
    assert(v2.subrange(pos + 4, pos + 8) =~= v1.subrange(pos + 4, pos + 8));
    assert(v2.subrange(pos + 8, pos + 12) =~= v1.subrange(pos + 8, pos + 12));
    assert(v2.subrange(pos + 12, pos + 16) =~= v1.subrange(pos + 12, pos + 16));
    assert(v2.subrange(pos + 16, pos + 20) =~= v1.subrange(pos + 16, pos + 20));
    assert(v2.subrange(pos + 20, pos + 23) =~= v1.subrange(pos + 20, pos + 23));
    assert(v2.subrange(pos + 26, pos + 28) =~= v1.subrange(pos + 26, pos + 28));
    assert(v2.subrange(pos + 28, pos + 32) =~= v1.subrange(pos + 28, pos + 32));
    assert(v2.subrange(pos + 32, pos + 36) =~= v1.subrange(pos + 32, pos + 36));
    assert(v2.subrange(pos + 36, pos + 38) =~= v1.subrange(pos + 36, pos + 38));
    assert(v2.subrange(pos + 38, pos + 40) =~= v1.subrange(pos + 38, pos + 40));
    assert(v2.subrange(pos + 40, pos + 42) =~= v1.subrange(pos + 40, pos + 42));
    assert(v2.subrange(pos + 42, pos + 44) =~= v1.subrange(pos + 42, pos + 44));
    assert(v2.subrange(pos + 44, pos + 56) =~= v1.subrange(pos + 44, pos + 56));
    assert(v2.subrange(pos + 56, pos + 64) =~= v1.subrange(pos + 56, pos + 64));
    assert forall|k: int| 0 <= k < m.bone_list.bone_matrices@.len() implies v2.subrange(
        pos + 64 + m.bone_list.bones.data@[k] as int,
        pos + 64 + m.bone_list.bones.data@[k] as int + m.bone_list.bone_matrices@[k].spec_size(),
    ) == (#[trigger] m.bone_list.bone_matrices@[k]).enc() by {
        m.bone_list.lemma_offsets_ordered(k);
        assert(v2.subrange(
            pos + 64 + m.bone_list.bones.data@[k] as int,
            pos + 64 + m.bone_list.bones.data@[k] as int
                + m.bone_list.bone_matrices@[k].spec_size(),
        ) =~= v1.subrange(
            pos + 64 + m.bone_list.bones.data@[k] as int,
            pos + 64 + m.bone_list.bones.data@[k] as int
                + m.bone_list.bone_matrices@[k].spec_size(),
        ));
    };
    crate::name_list::lemma_nl_written_frame(m.bone_list.bones, v1, v2, pos + 64);
    crate::material_list::lemma_material_list_written_frame(
        m.materials,
        v1,
        v2,
        pos + m.materials_offset as int,
    );
    crate::name_list::lemma_nl_written_frame(m.meshes.meshes, v1, v2, pos + m.meshes_offset as int);
    assert forall|k: int| 0 <= k < m.meshes.mesh_data@.len() implies crate::mesh_list::mesh_written(
        #[trigger] m.meshes.mesh_data@[k],
        v2,
        pos + m.meshes_offset as int + m.meshes.meshes.data@[k] as int,
    ) by {
        crate::mesh_list::lemma_mesh_written_frame(
            m.meshes.mesh_data@[k],
            v1,
            v2,
            pos + m.meshes_offset as int + m.meshes.meshes.data@[k] as int,
        );
    };
    assert(v2.subrange(
        pos + m.render_cmds_offset as int,
        pos + m.render_cmds_offset as int + rc_encode(m.render_commands@).len(),
    ) =~= v1.subrange(
        pos + m.render_cmds_offset as int,
        pos + m.render_cmds_offset as int + rc_encode(m.render_commands@).len(),
    ));
    assert forall|k: int| 0 <= k < m.inv_binds_matrices.matrices@.len() implies v2.subrange(
        pos + m.inv_binds_offset as int + 84 * k,
        pos + m.inv_binds_offset as int + 84 * k + 84,
    ) == (#[trigger] m.inv_binds_matrices.matrices@[k]).enc() by {
        assert((k + 1) * 84 <= m.inv_binds_matrices.matrices@.len() * 84) by (nonlinear_arith)
            requires
                k < m.inv_binds_matrices.matrices@.len(),
        ;
        assert(0 <= 84 * k && 84 * k + 84 == (k + 1) * 84 && m.inv_binds_matrices.matrices@.len()
            * 84 == 84 * m.inv_binds_matrices.matrices@.len()) by (nonlinear_arith)
            requires
                0 <= k,
        ;
        assert(v2.subrange(
            pos + m.inv_binds_offset as int + 84 * k,
            pos + m.inv_binds_offset as int + 84 * k + 84,
        ) =~= v1.subrange(
            pos + m.inv_binds_offset as int + 84 * k,
            pos + m.inv_binds_offset as int + 84 * k + 84,
        ));
    };
}

impl Model {
    pub open spec fn wf(self) -> bool {
        &&& self.bone_list.wf()
        &&& self.materials.wf()
        &&& self.meshes.wf()
        &&& self.inv_binds_matrices.wf()
        &&& forall|i: int|
            0 <= i < self.render_commands@.len() ==> (#[trigger] self.render_commands@[i]).wf()
    }

    /// The model's byte length: the inverse-bind section is laid out
    /// last.
    pub open spec fn spec_size(self) -> int {
        self.inv_binds_offset as int + 84 * self.inv_binds_matrices.matrices@.len() as int
    }

    pub fn from_bytes(bytes: &[u8]) -> (r: Result<Model, AppError>)
        ensures
            r is Err <==> model_decode_err(bytes@),
            r is Ok ==> {
                let m = r->Ok_0;
                &&& m.size == spec_u32_from_le_bytes(bytes@.subrange(0, 4))
                &&& m.render_cmds_offset == spec_u32_from_le_bytes(bytes@.subrange(4, 8))
                &&& m.materials_offset == spec_u32_from_le_bytes(bytes@.subrange(8, 12))
                &&& m.meshes_offset == spec_u32_from_le_bytes(bytes@.subrange(12, 16))
                &&& m.inv_binds_offset == spec_u32_from_le_bytes(bytes@.subrange(16, 20))
                &&& m.size as int <= bytes@.len()
                &&& m.bone_list.wf()
                &&& m.materials.wf()
                &&& m.inv_binds_matrices.wf()
            },
    {
        let n = bytes.len();
        if n < 4 {
            return Err(AppError::new("Model needs at least 4 bytes"));
        }
        let size = read_u32(bytes, 0);
        if size as usize > n {
            return Err(AppError::new("Model is larger than the buffer"));
        }
        if n < 64 {
            return Err(AppError::new("Model header needs 64 bytes"));
        }
        let render_cmds_offset = read_u32(bytes, 4);
        let materials_offset = read_u32(bytes, 8);
        let meshes_offset = read_u32(bytes, 12);
        let inv_binds_offset = read_u32(bytes, 16);
        let unknown: [u8; 3] = [read_u8(bytes, 20), read_u8(bytes, 21), read_u8(bytes, 22)];
        let num_bone_matrices = read_u8(bytes, 23);
        let num_materials = read_u8(bytes, 24);
        let num_meshes = read_u8(bytes, 25);
        let unknown_2: [u8; 2] = [read_u8(bytes, 26), read_u8(bytes, 27)];
        let upscale = Fixed1_19_12::from_i32(i32_from_bits(read_u32(bytes, 28)));
        let downscale = Fixed1_19_12::from_i32(i32_from_bits(read_u32(bytes, 32)));
        let num_verts = read_u16(bytes, 36);
        let num_polys = read_u16(bytes, 38);
        let num_tris = read_u16(bytes, 40);
        let num_quads = read_u16(bytes, 42);
        let bounding_box = match BoundingBox::from_bytes(slice_subrange(bytes, 44, 56)) {
            Ok(b) => b,
            Err(e) => return Err(e),
        };
        let unknown_3: [u8; 8] = [
            read_u8(bytes, 56),
            read_u8(bytes, 57),
            read_u8(bytes, 58),
            read_u8(bytes, 59),
            read_u8(bytes, 60),
            read_u8(bytes, 61),
            read_u8(bytes, 62),
            read_u8(bytes, 63),
        ];
        let bone_list = match BoneList::from_bytes(slice_subrange(bytes, 64, n)) {
            Ok(b) => b,
            Err(e) => return Err(e),
        };
        if render_cmds_offset as usize > n {
            return Err(AppError::new("Render command offset is out of bounds"));
        }
        let render_commands = match RenderCommandList::from_bytes(
            slice_subrange(bytes, render_cmds_offset as usize, n),
        ) {
            Ok(c) => c,
            Err(e) => return Err(e),
        };
        if materials_offset as usize > n {
            return Err(AppError::new("Material offset is out of bounds"));
        }
        let materials = match MaterialList::from_bytes(
            slice_subrange(bytes, materials_offset as usize, n),
        ) {
            Ok(m) => m,
            Err(e) => return Err(e),
        };
        if meshes_offset as usize > n {
            return Err(AppError::new("Mesh offset is out of bounds"));
        }
        let meshes = match MeshList::from_bytes(slice_subrange(bytes, meshes_offset as usize, n)) {
            Ok(m) => m,
            Err(e) => return Err(e),
        };
        if inv_binds_offset as usize > size as usize {
            return Err(AppError::new("Inverse-bind offset is out of bounds"));
        }
        let inv_binds_matrices = match InvBindMatrices::from_bytes(
            slice_subrange(bytes, inv_binds_offset as usize, size as usize),
        ) {
            Ok(m) => m,
            Err(e) => return Err(e),
        };
        proof {
            assert(!model_decode_err(bytes@));
        }
        Ok(
            Model {
                size,
                render_cmds_offset,
                materials_offset,
                meshes_offset,
                inv_binds_offset,
                unknown,
                num_bone_matrices,
                num_materials,
                num_meshes,
                unknown_2,
                upscale,
                downscale,
                num_verts,
                num_polys,
                num_tris,
                num_quads,
                bounding_box,
                unknown_3,
                bone_list,
                render_commands,
                materials,
                meshes,
                inv_binds_matrices,
            },
        )
    }

    /// The sections lie in format order after the header, each beginning
    /// at or past the end of the one before it, and every section write
    /// stays inside the model's recorded size.
    pub open spec fn layout_ok(self) -> bool {
        &&& 64 + self.bone_list.spec_size() <= self.render_cmds_offset as int
        &&& self.bone_list.layout_ok()
        &&& self.render_cmds_offset as int + rc_encode(self.render_commands@).len()
            <= self.materials_offset as int
        &&& self.materials_offset as int + self.materials.spec_size()
            <= self.meshes_offset as int
        &&& self.materials.layout_ok()
        &&& self.meshes_offset as int + self.meshes.spec_size() <= self.inv_binds_offset as int
        &&& self.meshes.layout_ok()
        &&& self.inv_binds_offset as int + 84 * self.inv_binds_matrices.matrices@.len() as int
            <= self.size as int
    }

    /// Writes the fixed 64-byte header at `buffer[pos..]`.
    #[verifier::rlimit(100)]
    fn write_header_bytes(&self, buffer: &mut Vec<u8>, pos: usize)
        requires
            pos + 64 <= old(buffer)@.len(),
        ensures
            final(buffer)@.len() == old(buffer)@.len(),
            forall|i: int|
                0 <= i < final(buffer)@.len() && !(pos <= i < pos + 64) ==> final(buffer)@[i]
                    == old(buffer)@[i],
            final(buffer)@.subrange(pos as int, pos + 4) == spec_u32_to_le_bytes(self.size),
            final(buffer)@.subrange(pos + 4, pos + 8) == spec_u32_to_le_bytes(
                self.render_cmds_offset,
            ),
            final(buffer)@.subrange(pos + 8, pos + 12) == spec_u32_to_le_bytes(
                self.materials_offset,
            ),
            final(buffer)@.subrange(pos + 12, pos + 16) == spec_u32_to_le_bytes(
                self.meshes_offset,
            ),
            final(buffer)@.subrange(pos + 16, pos + 20) == spec_u32_to_le_bytes(
                self.inv_binds_offset,
            ),
            final(buffer)@.subrange(pos + 20, pos + 23) == self.unknown@,
            final(buffer)@[pos + 23] == self.num_bone_matrices,
            final(buffer)@[pos + 24] == self.num_materials,
            final(buffer)@[pos + 25] == self.num_meshes,
            final(buffer)@.subrange(pos + 26, pos + 28) == self.unknown_2@,
            final(buffer)@.subrange(pos + 28, pos + 32) == spec_u32_to_le_bytes(
                crate::lebytes::u32_of_i32(self.upscale.value as int) as u32,
            ),
            final(buffer)@.subrange(pos + 32, pos + 36) == spec_u32_to_le_bytes(
                crate::lebytes::u32_of_i32(self.downscale.value as int) as u32,
            ),
            final(buffer)@.subrange(pos + 36, pos + 38) == vstd::bytes::spec_u16_to_le_bytes(
                self.num_verts,
            ),
            final(buffer)@.subrange(pos + 38, pos + 40) == vstd::bytes::spec_u16_to_le_bytes(
                self.num_polys,
            ),
            final(buffer)@.subrange(pos + 40, pos + 42) == vstd::bytes::spec_u16_to_le_bytes(
                self.num_tris,
            ),
            final(buffer)@.subrange(pos + 42, pos + 44) == vstd::bytes::spec_u16_to_le_bytes(
                self.num_quads,
            ),
            final(buffer)@.subrange(pos + 44, pos + 56) == self.bounding_box.enc(),
            final(buffer)@.subrange(pos + 56, pos + 64) == self.unknown_3@,
    {
        let n = buffer.len();
        write_u32(buffer, pos, self.size);
        write_u32(buffer, pos + 4, self.render_cmds_offset);
        write_u32(buffer, pos + 8, self.materials_offset);
        write_u32(buffer, pos + 12, self.meshes_offset);
        write_u32(buffer, pos + 16, self.inv_binds_offset);
        write_u8(buffer, pos + 20, self.unknown[0]);
        write_u8(buffer, pos + 21, self.unknown[1]);
        write_u8(buffer, pos + 22, self.unknown[2]);
        write_u8(buffer, pos + 23, self.num_bone_matrices);
        write_u8(buffer, pos + 24, self.num_materials);
        write_u8(buffer, pos + 25, self.num_meshes);
        write_u8(buffer, pos + 26, self.unknown_2[0]);
        write_u8(buffer, pos + 27, self.unknown_2[1]);
        write_u32(buffer, pos + 28, i32_bits(self.upscale.value));
        write_u32(buffer, pos + 32, i32_bits(self.downscale.value));
        write_u16(buffer, pos + 36, self.num_verts);
        write_u16(buffer, pos + 38, self.num_polys);
        write_u16(buffer, pos + 40, self.num_tris);
        write_u16(buffer, pos + 42, self.num_quads);
        self.bounding_box.write_bytes(buffer, pos + 44);
        write_u8(buffer, pos + 56, self.unknown_3[0]);
        write_u8(buffer, pos + 57, self.unknown_3[1]);
        write_u8(buffer, pos + 58, self.unknown_3[2]);
        write_u8(buffer, pos + 59, self.unknown_3[3]);
        write_u8(buffer, pos + 60, self.unknown_3[4]);
        write_u8(buffer, pos + 61, self.unknown_3[5]);
        write_u8(buffer, pos + 62, self.unknown_3[6]);
        write_u8(buffer, pos + 63, self.unknown_3[7]);
        assert(buffer@.subrange(pos + 20, pos + 23) =~= self.unknown@);
        assert(buffer@.subrange(pos + 26, pos + 28) =~= self.unknown_2@);
        assert(buffer@.subrange(pos + 56, pos + 64) =~= self.unknown_3@);
    }

    /// Writes the header, the bone list in place, and each section at its
    /// recorded offset.
    #[verifier::rlimit(100)]
    pub fn write_bytes(&self, buffer: &mut Vec<u8>, pos: usize)
        requires
            self.wf(),
            self.layout_ok(),
            pos + self.size as int <= old(buffer)@.len(),
        ensures
            final(buffer)@.len() == old(buffer)@.len(),
            forall|i: int|
                0 <= i < final(buffer)@.len() && !(pos <= i < pos + self.size as int)
                    ==> final(buffer)@[i] == old(buffer)@[i],
            model_written(*self, final(buffer)@, pos as int),
    {
        proof {
            crate::bone_list::lemma_sum_bone_sizes_nonneg(self.bone_list.bone_matrices@);
            crate::mesh_list::lemma_sum_mesh_sizes_nonneg(self.meshes.mesh_data@);
            crate::material_list::lemma_max_mat_off_nonneg(self.materials.materials.data@);
            vstd::arithmetic::mul::lemma_mul_nonnegative(
                84,
                self.inv_binds_matrices.matrices@.len() as int,
            );
        }
        let n = buffer.len();
        self.write_header_bytes(buffer, pos);
        proof {
            crate::material_list::lemma_max_mat_off_le(
                self.materials.materials.data@,
                u32::MAX as int,
            );
        }
        let ghost after_header = buffer@;
        self.bone_list.write_bytes(buffer, pos + 64);
        let ghost after_bones = buffer@;
        self.render_commands.write_bytes(buffer, pos + self.render_cmds_offset as usize);
        let ghost after_rc = buffer@;
        self.materials.write_bytes(buffer, pos + self.materials_offset as usize);
        let ghost after_mats = buffer@;
        self.meshes.write_bytes(buffer, pos + self.meshes_offset as usize);
        let ghost after_meshes = buffer@;
        self.inv_binds_matrices.write_bytes(buffer, pos + self.inv_binds_offset as usize);
        proof {
            crate::bone_list::lemma_sum_bone_sizes_nonneg(self.bone_list.bone_matrices@);
            assert(buffer@.subrange(pos as int, pos + 4) =~= after_header.subrange(
                pos as int,
                pos + 4,
            ));
            assert(buffer@.subrange(pos + 4, pos + 8) =~= after_header.subrange(pos + 4, pos + 8));
            assert(buffer@.subrange(pos + 8, pos + 12) =~= after_header.subrange(
                pos + 8,
                pos + 12,
            ));
            assert(buffer@.subrange(pos + 12, pos + 16) =~= after_header.subrange(
                pos + 12,
                pos + 16,
            ));
            assert(buffer@.subrange(pos + 16, pos + 20) =~= after_header.subrange(
                pos + 16,
                pos + 20,
            ));
            assert(buffer@[pos + 23] == after_header[pos + 23]);
            assert(buffer@[pos + 24] == after_header[pos + 24]);
            assert(buffer@[pos + 25] == after_header[pos + 25]);
            assert(buffer@.subrange(pos + 28, pos + 32) =~= after_header.subrange(
                pos + 28,
                pos + 32,
            ));
            assert(buffer@.subrange(pos + 32, pos + 36) =~= after_header.subrange(
                pos + 32,
                pos + 36,
            ));
            assert(buffer@.subrange(pos + 36, pos + 38) =~= after_header.subrange(
                pos + 36,
                pos + 38,
            ));
            assert(buffer@.subrange(pos + 38, pos + 40) =~= after_header.subrange(
                pos + 38,
                pos + 40,
            ));
            assert(buffer@.subrange(pos + 40, pos + 42) =~= after_header.subrange(
                pos + 40,
                pos + 42,
            ));
            assert(buffer@.subrange(pos + 42, pos + 44) =~= after_header.subrange(
                pos + 42,
                pos + 44,
            ));
            assert(after_header.subrange(pos + 20, pos + 23) =~= self.unknown@);
            assert(buffer@.subrange(pos + 20, pos + 23) =~= after_header.subrange(
                pos + 20,
                pos + 23,
            ));
            assert(after_header.subrange(pos + 26, pos + 28) =~= self.unknown_2@);
            assert(buffer@.subrange(pos + 26, pos + 28) =~= after_header.subrange(
                pos + 26,
                pos + 28,
            ));
            assert(after_header.subrange(pos + 56, pos + 64) =~= self.unknown_3@);
            assert(buffer@.subrange(pos + 56, pos + 64) =~= after_header.subrange(
                pos + 56,
                pos + 64,
            ));
            assert(buffer@.subrange(pos + 44, pos + 56) =~= after_header.subrange(
                pos + 44,
                pos + 56,
            ));
            assert forall|k: int|
                0 <= k < self.bone_list.bone_matrices@.len() implies buffer@.subrange(
                pos + 64 + self.bone_list.bones.data@[k] as int,
                pos + 64 + self.bone_list.bones.data@[k] as int
                    + self.bone_list.bone_matrices@[k].spec_size(),
            ) == (#[trigger] self.bone_list.bone_matrices@[k]).enc() by {
                self.bone_list.lemma_offsets_ordered(k);
                assert(buffer@.subrange(
                    pos + 64 + self.bone_list.bones.data@[k] as int,
                    pos + 64 + self.bone_list.bones.data@[k] as int
                        + self.bone_list.bone_matrices@[k].spec_size(),
                ) =~= after_bones.subrange(
                    pos + 64 + self.bone_list.bones.data@[k] as int,
                    pos + 64 + self.bone_list.bones.data@[k] as int
                        + self.bone_list.bone_matrices@[k].spec_size(),
                ));
            };
            assert(buffer@.subrange(
                pos + self.render_cmds_offset as int,
                pos + self.render_cmds_offset as int + rc_encode(self.render_commands@).len(),
            ) =~= after_rc.subrange(
                pos + self.render_cmds_offset as int,
                pos + self.render_cmds_offset as int + rc_encode(self.render_commands@).len(),
            ));
            assert forall|k: int|
                0 <= k < self.inv_binds_matrices.matrices@.len() implies buffer@.subrange(
                pos + self.inv_binds_offset as int + 84 * k,
                pos + self.inv_binds_offset as int + 84 * k + 84,
            ) == (#[trigger] self.inv_binds_matrices.matrices@[k]).enc() by {};
            assert forall|k: int|
                pos + 64 <= k < pos + 64 + self.bone_list.bones.size as int implies buffer@[k]
                == after_bones[k] by {};
            crate::name_list::lemma_nl_written_frame(
                self.bone_list.bones,
                after_bones,
                buffer@,
                pos + 64,
            );
            assert forall|k: int|
                pos + self.materials_offset as int <= k < pos + self.materials_offset as int
                    + self.materials.spec_size() implies buffer@[k] == after_mats[k] by {};
            crate::material_list::lemma_material_list_written_frame(
                self.materials,
                after_mats,
                buffer@,
                pos + self.materials_offset as int,
            );
            assert forall|k: int|
                pos + self.meshes_offset as int <= k < pos + self.meshes_offset as int
                    + self.meshes.spec_size() implies buffer@[k] == after_meshes[k] by {};
            crate::name_list::lemma_nl_written_frame(
                self.meshes.meshes,
                after_meshes,
                buffer@,
                pos + self.meshes_offset as int,
            );
            assert forall|k: int|
                0 <= k < self.meshes.mesh_data@.len() implies crate::mesh_list::mesh_written(
                #[trigger] self.meshes.mesh_data@[k],
                buffer@,
                pos + self.meshes_offset as int + self.meshes.meshes.data@[k] as int,
            ) by {
                crate::mesh_list::lemma_mesh_written_frame(
                    self.meshes.mesh_data@[k],
                    after_meshes,
                    buffer@,
                    pos + self.meshes_offset as int + self.meshes.meshes.data@[k] as int,
                );
            };
            assert(model_written(*self, buffer@, pos as int));
        }
    }

    /// The model's encoded bytes in a fresh zeroed buffer of its recorded
    /// size: the header first, each section at its recorded offset.
    pub fn to_bytes(&self) -> (r: Vec<u8>)
        requires
            self.wf(),
            self.layout_ok(),
        ensures
            r@.len() == self.size as int,
            r@.subrange(0, 4) == spec_u32_to_le_bytes(self.size),
            r@.subrange(4, 8) == spec_u32_to_le_bytes(self.render_cmds_offset),
            r@.subrange(
                self.render_cmds_offset as int,
                self.render_cmds_offset as int + rc_encode(self.render_commands@).len(),
            ) == rc_encode(self.render_commands@),
    {
        let mut bytes: Vec<u8> = Vec::new();
        let total = self.size as usize;
        let mut i: usize = 0;
        while i < total
            invariant
                bytes@.len() == i,
                i <= total,
            decreases total - i,
        {
            bytes.push(0);
            i = i + 1;
        }
        self.write_bytes(&mut bytes, 0);
        bytes
    }

    /// The model's byte length.
    pub fn size(&self) -> (r: usize)
        requires
            self.spec_size() <= usize::MAX,
            84 * self.inv_binds_matrices.matrices@.len() <= usize::MAX,
        ensures
            r == self.spec_size(),
    {
        self.inv_binds_offset as usize + self.inv_binds_matrices.size()
    }

    /// Recomputes the section offsets in format order, 4-byte aligned,
    /// after refreshing every child's derived sizes.
    pub fn rebase(&mut self)
        requires
            old(self).rebase_ok(),
        ensures
            final(self).render_cmds_offset as int == 64 + align4(final(self).bone_list.spec_size()),
            final(self).materials_offset as int == final(self).render_cmds_offset as int + align4(
                rc_encode(final(self).render_commands@).len() as int,
            ),
            final(self).meshes_offset as int == final(self).materials_offset as int + align4(
                final(self).materials.spec_size(),
            ),
            final(self).inv_binds_offset as int == final(self).meshes_offset as int + align4(
                final(self).meshes.spec_size(),
            ),
            final(self).size as int == final(self).spec_size(),
            final(self).size as int <= old(self).rebase_bound(),
            final(self).render_commands@ == old(self).render_commands@,
            final(self).inv_binds_matrices.matrices@ == old(self).inv_binds_matrices.matrices@,
            final(self).bone_list.bones.size as int == old(self).bone_list.bones.computed_size(),
            final(self).bone_list.bone_matrices@ == old(self).bone_list.bone_matrices@,
    {
        proof {
            crate::bone_list::lemma_sum_bone_sizes_nonneg(self.bone_list.bone_matrices@);
            crate::mesh_list::lemma_sum_mesh_sizes_nonneg(self.meshes.mesh_data@);
            crate::material_list::lemma_sum_index_lens_nonneg(
                self.materials.texture_pairing_list.texture_pairings.data@,
            );
            crate::material_list::lemma_sum_index_lens_nonneg(
                self.materials.palette_pairing_list.palette_pairings.data@,
            );
            vstd::arithmetic::mul::lemma_mul_nonnegative(
                self.materials.materials.data@.len() as int,
                self.materials.materials.element_size as int,
            );
        }
        self.bone_list.rebase();
        self.materials.rebase();
        self.meshes.rebase();
        proof {
            let ext = old(self).materials.rebase_extent();
            let pre = self.materials.palette_pairings_offset as int + old(
                self,
            ).materials.palette_pairing_list.palette_pairings.computed_size()
                + crate::material_list::sum_index_lens(
                old(self).materials.texture_pairing_list.texture_pairings.data@,
            ) + crate::material_list::sum_index_lens(
                old(self).materials.palette_pairing_list.palette_pairings.data@,
            );
            lemma_align4_le(pre);
            let base = align4(pre);
            let mat_len = self.materials.materials.data@.len() as int;
            if mat_len == 0 {
                crate::material_list::lemma_max_mat_off_le(self.materials.materials.data@, 0);
            } else {
                assert forall|i: int| 0 <= i < mat_len implies (
                #[trigger] self.materials.materials.data@[i]) as int <= base + 44 * (mat_len
                    - 1) by {
                    assert(44 * i <= 44 * (mat_len - 1)) by (nonlinear_arith)
                        requires
                            i <= mat_len - 1,
                    ;
                };
                assert(0 <= 44 * (mat_len - 1)) by (nonlinear_arith)
                    requires
                        mat_len >= 1,
                ;
                crate::material_list::lemma_max_mat_off_le(
                    self.materials.materials.data@,
                    base + 44 * (mat_len - 1),
                );
                assert(44 * (mat_len - 1) + 44 == 44 * mat_len) by (nonlinear_arith);
            }
            assert(self.materials.spec_size() <= ext);
            crate::mesh_list::lemma_sum_mesh_sizes_nonneg(self.meshes.mesh_data@);
            lemma_mesh_sizes_same(self.meshes.mesh_data@, old(self).meshes.mesh_data@);
        }
        let bone_size = self.bone_list.size();
        let render_size = self.render_commands.size();
        let material_size = self.materials.size();
        let mesh_size = self.meshes.size();
        let render_command_list_offset = 64 + get_4_byte_alignment(bone_size);
        let material_list_offset = render_command_list_offset + get_4_byte_alignment(render_size);
        let mesh_list_offset = material_list_offset + get_4_byte_alignment(material_size);
        let inv_bind_matrices_offset = mesh_list_offset + get_4_byte_alignment(mesh_size);
        self.render_cmds_offset = render_command_list_offset as u32;
        self.materials_offset = material_list_offset as u32;
        self.meshes_offset = mesh_list_offset as u32;
        self.inv_binds_offset = inv_bind_matrices_offset as u32;
        let total = inv_bind_matrices_offset + self.inv_binds_matrices.size();
        self.size = total as u32;
    }

    /// Everything a rebase needs: a well-formed tree whose recomputed
    /// sizes fit the fields that store them.
    pub open spec fn rebase_ok(self) -> bool {
        &&& self.wf()
        &&& self.bone_list.bones.computed_size() <= 0xFFFF
        &&& self.materials.rebase_extent() <= 0xFFFF
        &&& forall|i: int|
            0 <= i < self.materials.texture_pairing_list.texture_pairings.data@.len() ==> (
            #[trigger] self.materials.texture_pairing_list.texture_pairings.data@[i]).indices@.len()
                <= 0xFF
        &&& forall|i: int|
            0 <= i < self.materials.palette_pairing_list.palette_pairings.data@.len() ==> (
            #[trigger] self.materials.palette_pairing_list.palette_pairings.data@[i]).indices@.len()
                <= 0xFF
        &&& forall|i: int|
            0 <= i < self.meshes.mesh_data@.len() ==> crate::gpu_command_list::gpu_encode(
                (#[trigger] self.meshes.mesh_data@[i]).render_cmds_list@,
            ).len() <= u32::MAX
        &&& self.rebase_bound() <= 0xFFFF_FFFF
    }

    /// A loose bound on everything the rebase lays out, used to keep the
    /// recomputed offsets inside 32 bits.
    pub open spec fn rebase_bound(self) -> int {
        64 + self.bone_list.bones.computed_size() + crate::bone_list::sum_bone_sizes(
            self.bone_list.bone_matrices@,
        ) + rc_encode(self.render_commands@).len() + self.materials.rebase_extent()
            + self.meshes.spec_size() + 84 * self.inv_binds_matrices.matrices@.len() as int + 64
    }

    pub fn get_bone_list(&self) -> (r: &BoneList)
        ensures
            r == self.bone_list,
    {
        &self.bone_list
    }

    pub fn get_bounding_box(&self) -> (r: &BoundingBox)
        ensures
            r == self.bounding_box,
    {
        &self.bounding_box
    }

    pub fn get_inv_bind_matrices(&self) -> (r: &InvBindMatrices)
        ensures
            r == self.inv_binds_matrices,
    {
        &self.inv_binds_matrices
    }

    pub fn get_mesh_list(&self) -> (r: &MeshList)
        ensures
            r == self.meshes,
    {
        &self.meshes
    }

    pub fn get_render_cmds_list(&self) -> (r: &RenderCommandList)
        ensures
            r@ == self.render_commands@,
    {
        &self.render_commands
    }
}

/// Rounding up to a multiple of four adds less than four.
proof fn lemma_align4_le(n: int)
    requires
        n >= 0,
    ensures
        n <= align4(n) <= n + 3,
        align4(n) >= 0,
{
    vstd::arithmetic::div_mod::lemma_fundamental_div_mod(n + 3, 4);
}

/// A rebase that only refreshes recorded lengths leaves every mesh's byte
/// length unchanged.
proof fn lemma_mesh_sizes_same(now: Seq<crate::mesh_list::Mesh>, orig: Seq<crate::mesh_list::Mesh>)
    requires
        now.len() == orig.len(),
        forall|i: int|
            0 <= i < now.len() ==> (#[trigger] now[i]).render_cmds_list@
                == orig[i].render_cmds_list@,
    ensures
        crate::mesh_list::sum_mesh_sizes(now) == crate::mesh_list::sum_mesh_sizes(orig),
    decreases now.len(),
{
    if now.len() > 0 {
        assert(forall|i: int|
            0 <= i < now.skip(1).len() ==> (#[trigger] now.skip(1)[i]).render_cmds_list@
                == orig.skip(1)[i].render_cmds_list@);
        lemma_mesh_sizes_same(now.skip(1), orig.skip(1));
    }
}

} // verus!
