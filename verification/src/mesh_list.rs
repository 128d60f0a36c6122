//! Meshes: a `NameList` of offsets to fixed 16-byte mesh headers, each
//! addressing an embedded GPU command list by offset and exact encoded
//! length.

use crate::error::AppError;
use crate::gpu_command_list::gpu_encode;
use crate::gpu_command_list::gpu_list_decode;
use crate::gpu_command_list::GpuCommandList;
use crate::lebytes::read_u16;
use crate::lebytes::read_u32;
use crate::lebytes::write_u16;
use crate::lebytes::write_u32;
use crate::name_list::NameList;
use crate::traits::BinarySerializable;
use vstd::bytes::spec_u16_from_le_bytes;
use vstd::bytes::spec_u16_to_le_bytes;
use vstd::bytes::spec_u32_from_le_bytes;
use vstd::bytes::spec_u32_to_le_bytes;
use vstd::prelude::*;
use vstd::slice::slice_subrange;

verus! {

/// One mesh: a 16-byte header and the GPU command list it addresses.
#[derive(Clone, Debug)]
pub struct Mesh {
    pub dummy: u16,
    pub size: u16,
    pub unknown: u32,
    pub cmds_offset: u32,
    pub cmds_len: u32,
    pub render_cmds_list: GpuCommandList,
}

impl Mesh {
    /// The command list lies after the header and its recorded length is
    /// the exact encoded length.
    pub open spec fn wf(self) -> bool {
        &&& self.cmds_offset >= 16
        &&& self.cmds_len as int == gpu_encode(self.render_cmds_list@).len()
    }

    /// The mesh's byte length: the header plus the encoded command list.
    pub open spec fn spec_size(self) -> int {
        16 + gpu_encode(self.render_cmds_list@).len() as int
    }

    /// How far from the mesh start the written bytes reach.
    pub open spec fn spec_span(self) -> int {
        let cmds_end = self.cmds_offset as int + gpu_encode(self.render_cmds_list@).len();
        if cmds_end > 16 {
            cmds_end
        } else {
            16
        }
    }

    pub fn from_bytes(bytes: &[u8]) -> (r: Result<Mesh, AppError>)
        ensures
            r is Err <==> mesh_decode_err(bytes@),
            r is Ok ==> {
                let m = r->Ok_0;
                &&& m.dummy == spec_u16_from_le_bytes(bytes@.subrange(0, 2))
                &&& m.size == spec_u16_from_le_bytes(bytes@.subrange(2, 4))
                &&& m.unknown == spec_u32_from_le_bytes(bytes@.subrange(4, 8))
                &&& m.cmds_offset == spec_u32_from_le_bytes(bytes@.subrange(8, 12))
                &&& m.cmds_len == spec_u32_from_le_bytes(bytes@.subrange(12, 16))
                &&& m.cmds_offset as int + m.cmds_len as int <= bytes@.len()
                &&& Some(m.render_cmds_list@) == gpu_list_decode(
                    bytes@.subrange(
                        m.cmds_offset as int,
                        m.cmds_offset as int + m.cmds_len as int,
                    ),
                )
            },
    {
        let n = bytes.len();
        if n < 16 {
            return Err(AppError::new("Mesh needs at least 16 bytes"));
        }
        let dummy = read_u16(bytes, 0);
        let size = read_u16(bytes, 2);
        let unknown = read_u32(bytes, 4);
        let cmds_offset = read_u32(bytes, 8);
        let cmds_len = read_u32(bytes, 12);
        if cmds_offset as usize > n || cmds_len as usize > n - cmds_offset as usize {
            return Err(AppError::new("Mesh command list is out of bounds"));
        }
        let render_cmds = slice_subrange(
            bytes,
            cmds_offset as usize,
            cmds_offset as usize + cmds_len as usize,
        );
        let render_cmds_list = match GpuCommandList::from_bytes(render_cmds) {
            Ok(l) => l,
            Err(e) => return Err(e),
        };
        Ok(Mesh { dummy, size, unknown, cmds_offset, cmds_len, render_cmds_list })
    }

    /// Writes the header and the command list at its recorded offset.
    pub fn write_bytes(&self, buffer: &mut Vec<u8>, pos: usize)
        requires
            self.cmds_offset >= 16,
            pos + self.spec_span() <= old(buffer)@.len(),
        ensures
            final(buffer)@.len() == old(buffer)@.len(),
            forall|i: int|
                0 <= i < final(buffer)@.len() && !(pos <= i < pos + self.spec_span())
                    ==> final(buffer)@[i] == old(buffer)@[i],
            mesh_written(*self, final(buffer)@, pos as int),
    {
        let n = buffer.len();
        write_u16(buffer, pos, self.dummy);
        write_u16(buffer, pos + 2, self.size);
        write_u32(buffer, pos + 4, self.unknown);
        write_u32(buffer, pos + 8, self.cmds_offset);
        write_u32(buffer, pos + 12, self.cmds_len);
        let ghost after_header = buffer@;
        self.render_cmds_list.write_bytes(buffer, pos + self.cmds_offset as usize);
        proof {
            assert(buffer@.subrange(pos as int, pos + 2) =~= after_header.subrange(
                pos as int,
                pos + 2,
            ));
            assert(buffer@.subrange(pos + 2, pos + 4) =~= after_header.subrange(pos + 2, pos + 4));
            assert(buffer@.subrange(pos + 4, pos + 8) =~= after_header.subrange(pos + 4, pos + 8));
            assert(buffer@.subrange(pos + 8, pos + 12) =~= after_header.subrange(
                pos + 8,
                pos + 12,
            ));
            assert(buffer@.subrange(pos + 12, pos + 16) =~= after_header.subrange(
                pos + 12,
                pos + 16,
            ));
            assert(buffer@.subrange(pos as int, pos + 2) == spec_u16_to_le_bytes(self.dummy));
            assert(buffer@.subrange(pos + 2, pos + 4) == spec_u16_to_le_bytes(self.size));
            assert(buffer@.subrange(pos + 4, pos + 8) == spec_u32_to_le_bytes(self.unknown));
            assert(buffer@.subrange(pos + 8, pos + 12) == spec_u32_to_le_bytes(self.cmds_offset));
            assert(buffer@.subrange(pos + 12, pos + 16) == spec_u32_to_le_bytes(self.cmds_len));
            assert(mesh_written(*self, buffer@, pos as int));
        }
    }

    /// The mesh as a rebase leaves it: only the recorded command-list
    /// length changes, recomputed from the current commands.
    pub open spec fn spec_rebased(self) -> Mesh {
        (Mesh { cmds_len: gpu_encode(self.render_cmds_list@).len() as u32, ..self })
    }

    /// Rebasing is idempotent: the recomputed length depends only on the
    /// commands, which a rebase does not touch.
    pub proof fn lemma_rebase_idempotent(self)
        requires
            gpu_encode(self.render_cmds_list@).len() <= u32::MAX,
        ensures
            self.spec_rebased().spec_rebased() == self.spec_rebased(),
    {
    }

    /// Refreshes the recorded command-list length from the current
    /// commands.
    pub fn rebase(&mut self)
        requires
            gpu_encode(old(self).render_cmds_list@).len() <= u32::MAX,
        ensures
            *final(self) == old(self).spec_rebased(),
            final(self).cmds_len as int == gpu_encode(old(self).render_cmds_list@).len(),
            final(self).dummy == old(self).dummy,
            final(self).size == old(self).size,
            final(self).unknown == old(self).unknown,
            final(self).cmds_offset == old(self).cmds_offset,
            final(self).render_cmds_list@ == old(self).render_cmds_list@,
    {
        let len = self.render_cmds_list.size();
        self.cmds_len = len as u32;
    }

    /// The mesh's byte length.
    pub fn size(&self) -> (r: usize)
        requires
            16 + gpu_encode(self.render_cmds_list@).len() as int <= usize::MAX,
        ensures
            r == self.spec_size(),
    {
        16 + self.render_cmds_list.size()
    }

    /// The embedded GPU command list.
    pub fn get_render_cmds_list(&self) -> (r: &GpuCommandList)
        ensures
            r@ == self.render_cmds_list@,
    {
        &self.render_cmds_list
    }
}

/// Every way a mesh decode can fail: a truncated header, a command range
/// past the buffer, or a command stream that does not decode.
pub open spec fn mesh_decode_err(bytes: Seq<u8>) -> bool {
    let cmds_offset = spec_u32_from_le_bytes(bytes.subrange(8, 12)) as int;
    let cmds_len = spec_u32_from_le_bytes(bytes.subrange(12, 16)) as int;
    ||| bytes.len() < 16
    ||| cmds_offset + cmds_len > bytes.len()
    ||| gpu_list_decode(bytes.subrange(cmds_offset, cmds_offset + cmds_len)) is None
}

/// Every way a mesh-section decode can fail: the offset list itself, or a
/// recorded offset past the buffer, or a mesh that does not decode there.
pub open spec fn mesh_list_decode_err(bytes: Seq<u8>) -> bool {
    ||| crate::name_list::nl_decode_err::<u32>(bytes)
    ||| exists|i: int|
        #![trigger crate::name_list::nl_u32_at(bytes, i)]
        0 <= i < bytes[1] as int && (crate::name_list::nl_u32_at(bytes, i) > bytes.len()
            || mesh_decode_err(
            bytes.subrange(crate::name_list::nl_u32_at(bytes, i), bytes.len() as int),
        ))
}

/// The mesh's encoded image stands in `v` at `pos`: the 16-byte header
/// and the command-list bytes at their recorded offset.
pub open spec fn mesh_written(m: Mesh, v: Seq<u8>, pos: int) -> bool {
    &&& v.subrange(pos, pos + 2) == spec_u16_to_le_bytes(m.dummy)
    &&& v.subrange(pos + 2, pos + 4) == spec_u16_to_le_bytes(m.size)
    &&& v.subrange(pos + 4, pos + 8) == spec_u32_to_le_bytes(m.unknown)
    &&& v.subrange(pos + 8, pos + 12) == spec_u32_to_le_bytes(m.cmds_offset)
    &&& v.subrange(pos + 12, pos + 16) == spec_u32_to_le_bytes(m.cmds_len)
    &&& v.subrange(
        pos + m.cmds_offset as int,
        pos + m.cmds_offset as int + gpu_encode(m.render_cmds_list@).len(),
    ) == gpu_encode(m.render_cmds_list@)
}

/// A later write that leaves the mesh's bytes alone leaves its image
/// standing.
pub proof fn lemma_mesh_written_frame(m: Mesh, v1: Seq<u8>, v2: Seq<u8>, pos: int)
    requires
        mesh_written(m, v1, pos),
        m.cmds_offset >= 16,
        0 <= pos,
        pos + m.spec_span() <= v1.len(),
        v1.len() == v2.len(),
        forall|k: int| pos <= k < pos + m.spec_span() ==> v2[k] == v1[k],
    ensures
        mesh_written(m, v2, pos),
{
    assert(v2.subrange(pos, pos + 2) =~= v1.subrange(pos, pos + 2));
    assert(v2.subrange(pos + 2, pos + 4) =~= v1.subrange(pos + 2, pos + 4));
    assert(v2.subrange(pos + 4, pos + 8) =~= v1.subrange(pos + 4, pos + 8));
    assert(v2.subrange(pos + 8, pos + 12) =~= v1.subrange(pos + 8, pos + 12));
    assert(v2.subrange(pos + 12, pos + 16) =~= v1.subrange(pos + 12, pos + 16));
    assert(v2.subrange(
        pos + m.cmds_offset as int,
        pos + m.cmds_offset as int + gpu_encode(m.render_cmds_list@).len(),
    ) =~= v1.subrange(
        pos + m.cmds_offset as int,
        pos + m.cmds_offset as int + gpu_encode(m.render_cmds_list@).len(),
    ));
}

/// The byte lengths of a run of meshes together.
pub open spec fn sum_mesh_sizes(s: Seq<Mesh>) -> int
    decreases s.len(),
{
    if s.len() == 0 {
        0
    } else {
        s[0].spec_size() + sum_mesh_sizes(s.skip(1))
    }
}

pub proof fn lemma_sum_mesh_sizes_nonneg(s: Seq<Mesh>)
    ensures
        sum_mesh_sizes(s) >= 0,
    decreases s.len(),
{
    if s.len() > 0 {
        lemma_sum_mesh_sizes_nonneg(s.skip(1));
    }
}

/// The mesh section: a `NameList` of header offsets plus the meshes they
/// point to, owned one-to-one.
#[derive(Clone, Debug)]
pub struct MeshList {
    pub meshes: NameList<u32>,
    pub mesh_data: Vec<Mesh>,
}

impl MeshList {
    pub open spec fn wf(self) -> bool {
        &&& self.meshes.wf()
        &&& self.mesh_data@.len() == self.meshes.count as int
        &&& forall|i: int| 0 <= i < self.mesh_data@.len() ==> (#[trigger] self.mesh_data@[i]).wf()
    }

    /// The section's byte length: the name list plus every mesh.
    pub open spec fn spec_size(self) -> int {
        self.meshes.size as int + sum_mesh_sizes(self.mesh_data@)
    }

    /// The meshes lie after the offset list, in order and without
    /// overlap, and every mesh write stays inside the section.
    pub open spec fn layout_ok(self) -> bool {
        &&& forall|i: int|
            0 <= i < self.mesh_data@.len() ==> self.meshes.size as int <= (
            #[trigger] self.meshes.data@[i]) as int && self.meshes.data@[i] as int
                + self.mesh_data@[i].spec_span() <= self.spec_size()
        &&& forall|i: int|
            0 <= i < self.mesh_data@.len() - 1 ==> (#[trigger] self.meshes.data@[i]) as int
                + self.mesh_data@[i].spec_span() <= self.meshes.data@[i + 1] as int
    }

    pub fn from_bytes(bytes: &[u8]) -> (r: Result<MeshList, AppError>)
        ensures
            r is Err <==> mesh_list_decode_err(bytes@),
            r is Ok ==> r->Ok_0.meshes.wf() && r->Ok_0.mesh_data@.len()
                == r->Ok_0.meshes.count as int,
    {
        let n = bytes.len();
        let meshes = match NameList::<u32>::from_bytes(bytes) {
            Ok(m) => m,
            Err(e) => return Err(e),
        };
        proof {
            vstd::bytes::lemma_auto_spec_u32_to_from_le_bytes();
            assert forall|k: int| 0 <= k < meshes.count as int implies (
            #[trigger] meshes.data@[k]) as int == crate::name_list::nl_u32_at(bytes@, k) by {
                assert(meshes.data@[k].enc() == vstd::bytes::spec_u32_to_le_bytes(
                    meshes.data@[k],
                ));
            };
        }
        let count = meshes.len();
        let mut mesh_data: Vec<Mesh> = Vec::new();
        let mut i: usize = 0;
        while i < count
            invariant
                i <= count,
                n == bytes@.len(),
                count == meshes.count as int,
                count == bytes@[1] as int,
                meshes.wf(),
                mesh_data@.len() == i,
                forall|k: int|
                    0 <= k < count ==> (#[trigger] meshes.data@[k]) as int
                        == crate::name_list::nl_u32_at(bytes@, k),
                forall|k: int|
                    0 <= k < i ==> #[trigger] crate::name_list::nl_u32_at(bytes@, k) <= n as int
                        && !mesh_decode_err(
                        bytes@.subrange(crate::name_list::nl_u32_at(bytes@, k), n as int),
                    ),
            decreases count - i,
        {
            let offset = match meshes.get(i) {
                Some(o) => *o,
                None => {
                    proof {
                        assert(false);
                    }
                    0
                },
            };
            if offset as usize > n {
                return Err(AppError::new("Mesh offset is out of bounds"));
            }
            let m = match Mesh::from_bytes(slice_subrange(bytes, offset as usize, n)) {
                Ok(m) => m,
                Err(e) => return Err(e),
            };
            mesh_data.push(m);
            i = i + 1;
        }
        proof {
            assert(!mesh_list_decode_err(bytes@));
        }
        Ok(MeshList { meshes, mesh_data })
    }

    /// Writes the name list and each mesh at its recorded offset.
    #[verifier::rlimit(100)]
    pub fn write_bytes(&self, buffer: &mut Vec<u8>, pos: usize)
        requires
            self.wf(),
            self.layout_ok(),
            pos + self.spec_size() <= old(buffer)@.len(),
        ensures
            final(buffer)@.len() == old(buffer)@.len(),
            forall|i: int|
                0 <= i < final(buffer)@.len() && !(pos <= i < pos + self.spec_size())
                    ==> final(buffer)@[i] == old(buffer)@[i],
            crate::name_list::nl_written(self.meshes, final(buffer)@, pos as int),
            forall|k: int|
                0 <= k < self.mesh_data@.len() ==> mesh_written(
                    #[trigger] self.mesh_data@[k],
                    final(buffer)@,
                    pos + self.meshes.data@[k] as int,
                ),
    {
        proof {
            lemma_sum_mesh_sizes_nonneg(self.mesh_data@);
        }
        let buf_len = buffer.len();
        self.meshes.write_bytes(buffer, pos);
        let ghost after_list = buffer@;
        let count = self.mesh_data.len();
        let mut i: usize = 0;
        while i < count
            invariant
                i <= count,
                count == self.mesh_data@.len(),
                self.wf(),
                self.layout_ok(),
                pos + self.spec_size() <= buffer@.len(),
                buffer@.len() <= usize::MAX,
                buffer@.len() == old(buffer)@.len(),
                buffer@.len() == after_list.len(),
                forall|k: int|
                    0 <= k < buffer@.len() && !(pos <= k < pos + self.spec_size()) ==> buffer@[k]
                        == old(buffer)@[k],
                forall|k: int|
                    0 <= k < buffer@.len() && !(i > 0 && pos + self.meshes.size as int <= k < pos
                        + self.meshes.data@[i - 1] as int + self.mesh_data@[i
                        - 1].spec_span()) ==> buffer@[k] == after_list[k],
                forall|k: int|
                    0 <= k < i ==> mesh_written(
                        #[trigger] self.mesh_data@[k],
                        buffer@,
                        pos + self.meshes.data@[k] as int,
                    ),
            decreases count - i,
        {
            proof {
                if i > 0 {
                    self.lemma_mesh_offsets_chain(i - 1, i as int);
                }
            }
            let ghost before = buffer@;
            let offset = match self.meshes.get(i) {
                Some(o) => *o,
                None => {
                    proof {
                        assert(false);
                    }
                    0
                },
            };
            let m = &self.mesh_data[i];
            m.write_bytes(buffer, pos + offset as usize);
            proof {
                assert forall|k: int| 0 <= k < i implies mesh_written(
                    #[trigger] self.mesh_data@[k],
                    buffer@,
                    pos + self.meshes.data@[k] as int,
                ) by {
                    self.lemma_mesh_offsets_chain(k, i as int);
                    lemma_mesh_written_frame(
                        self.mesh_data@[k],
                        before,
                        buffer@,
                        pos + self.meshes.data@[k] as int,
                    );
                };
            }
            i = i + 1;
        }
        proof {
            crate::name_list::lemma_nl_written_frame(self.meshes, after_list, buffer@, pos as int);
        }
    }

    /// Earlier meshes end before later meshes begin.
    proof fn lemma_mesh_offsets_chain(&self, a: int, b: int)
        requires
            self.wf(),
            self.layout_ok(),
            0 <= a < b < self.mesh_data@.len(),
        ensures
            self.meshes.data@[a] as int + self.mesh_data@[a].spec_span()
                <= self.meshes.data@[b] as int,
        decreases b - a,
    {
        if a + 1 < b {
            self.lemma_mesh_offsets_chain(a, b - 1);
        }
    }

    /// The section's byte length.
    pub fn size(&self) -> (r: usize)
        requires
            self.spec_size() <= usize::MAX,
        ensures
            r == self.spec_size(),
    {
        let mut total: usize = self.meshes.size();
        let count = self.mesh_data.len();
        let mut i: usize = 0;
        proof {
            assert(self.mesh_data@.skip(0) =~= self.mesh_data@);
        }
        while i < count
            invariant
                i <= count,
                count == self.mesh_data@.len(),
                self.spec_size() <= usize::MAX,
                self.spec_size() == total + sum_mesh_sizes(self.mesh_data@.skip(i as int)),
            decreases count - i,
        {
            proof {
                assert(self.mesh_data@.skip(i as int)[0] == self.mesh_data@[i as int]);
                assert(self.mesh_data@.skip(i as int).skip(1) =~= self.mesh_data@.skip(i + 1));
                lemma_sum_mesh_sizes_nonneg(self.mesh_data@.skip(i + 1));
            }
            let m = &self.mesh_data[i];
            total = total + m.size();
            i = i + 1;
        }
        proof {
            assert(self.mesh_data@.skip(count as int) =~= Seq::<Mesh>::empty());
        }
        total
    }

    /// Refreshes each mesh's recorded command-list length.
    pub fn rebase(&mut self)
        requires
            forall|i: int|
                0 <= i < old(self).mesh_data@.len() ==> gpu_encode(
                    (#[trigger] old(self).mesh_data@[i]).render_cmds_list@,
                ).len() <= u32::MAX,
        ensures
            final(self).meshes == old(self).meshes,
            final(self).mesh_data@.len() == old(self).mesh_data@.len(),
            forall|i: int|
                0 <= i < final(self).mesh_data@.len() ==> {
                    let m = #[trigger] final(self).mesh_data@[i];
                    let q = old(self).mesh_data@[i];
                    m.cmds_len as int == gpu_encode(q.render_cmds_list@).len() && m.dummy == q.dummy
                        && m.size == q.size && m.unknown == q.unknown && m.cmds_offset
                        == q.cmds_offset && m.render_cmds_list@ == q.render_cmds_list@
                },
    {
        let mut src: Vec<Mesh> = Vec::new();
        core::mem::swap(&mut src, &mut self.mesh_data);
        let ghost orig = src@;
        let n = src.len();
        let mut rebuilt: Vec<Mesh> = Vec::new();
        let mut i: usize = 0;
        while i < n
            invariant
                i <= n,
                n == orig.len(),
                src@ == orig.skip(i as int),
                rebuilt@.len() == i,
                forall|k: int|
                    0 <= k < orig.len() ==> gpu_encode(
                        (#[trigger] orig[k]).render_cmds_list@,
                    ).len() <= u32::MAX,
                forall|k: int|
                    0 <= k < i ==> {
                        let m = #[trigger] rebuilt@[k];
                        let q = orig[k];
                        m.cmds_len as int == gpu_encode(q.render_cmds_list@).len() && m.dummy
                            == q.dummy && m.size == q.size && m.unknown == q.unknown
                            && m.cmds_offset == q.cmds_offset && m.render_cmds_list@
                            == q.render_cmds_list@
                    },
            decreases n - i,
        {
            let mut m = src.remove(0);
            proof {
                assert(orig.skip(i as int)[0] == orig[i as int]);
                assert(orig.skip(i as int).skip(1) =~= orig.skip(i + 1));
                assert(src@ =~= orig.skip(i + 1));
            }
            m.rebase();
            rebuilt.push(m);
            i = i + 1;
        }
        core::mem::swap(&mut rebuilt, &mut self.mesh_data);
    }

    /// The mesh at `index`, if any.
    pub fn get_mesh(&self, index: usize) -> (r: Option<&Mesh>)
        ensures
            index < self.mesh_data@.len() ==> r is Some && *r->Some_0
                == self.mesh_data@[index as int],
            index >= self.mesh_data@.len() ==> r is None,
    {
        if index < self.mesh_data.len() {
            Some(&self.mesh_data[index])
        } else {
            None
        }
    }
}

} // verus!
