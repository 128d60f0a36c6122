//! The geometry subfile: a stamp, its total size, and a `NameList` of
//! model offsets followed by the model bodies.

use crate::error::AppError;
use crate::traits::BinarySerializable;
use crate::lebytes::read_u32;
use crate::lebytes::write_u32;
use crate::lebytes::write_u8;
use crate::model::Model;
use crate::name_list::NameList;
use vstd::bytes::spec_u32_from_le_bytes;
use vstd::bytes::spec_u32_to_le_bytes;
use vstd::prelude::*;
use vstd::slice::slice_subrange;

verus! {

/// The byte lengths of a run of models together.
pub open spec fn sum_model_sizes(s: Seq<Model>) -> int
    decreases s.len(),
{
    if s.len() == 0 {
        0
    } else {
        s[0].spec_size() + sum_model_sizes(s.skip(1))
    }
}

/// The rebase bounds of a run of models together.
pub open spec fn sum_model_bounds(s: Seq<Model>) -> int
    decreases s.len(),
{
    if s.len() == 0 {
        0
    } else {
        s[0].rebase_bound() + sum_model_bounds(s.skip(1))
    }
}

pub proof fn lemma_model_bound_nonneg(m: Model)
    ensures
        m.rebase_bound() >= 0,
{
    vstd::arithmetic::mul::lemma_mul_nonnegative(
        m.bone_list.bones.data@.len() as int,
        m.bone_list.bones.element_size as int,
    );
    crate::bone_list::lemma_sum_bone_sizes_nonneg(m.bone_list.bone_matrices@);
    vstd::arithmetic::mul::lemma_mul_nonnegative(
        m.materials.materials.data@.len() as int,
        m.materials.materials.element_size as int,
    );
    vstd::arithmetic::mul::lemma_mul_nonnegative(
        m.materials.texture_pairing_list.texture_pairings.data@.len() as int,
        m.materials.texture_pairing_list.texture_pairings.element_size as int,
    );
    vstd::arithmetic::mul::lemma_mul_nonnegative(
        m.materials.palette_pairing_list.palette_pairings.data@.len() as int,
        m.materials.palette_pairing_list.palette_pairings.element_size as int,
    );
    crate::material_list::lemma_sum_index_lens_nonneg(
        m.materials.texture_pairing_list.texture_pairings.data@,
    );
    crate::material_list::lemma_sum_index_lens_nonneg(
        m.materials.palette_pairing_list.palette_pairings.data@,
    );
    crate::mesh_list::lemma_sum_mesh_sizes_nonneg(m.meshes.mesh_data@);
}

proof fn lemma_sum_model_bounds_split(s: Seq<Model>, i: int)
    requires
        0 <= i <= s.len(),
    ensures
        sum_model_bounds(s) == sum_model_bounds(s.take(i)) + sum_model_bounds(s.skip(i)),
    decreases i,
{
    if i == 0 {
        assert(s.take(0) =~= Seq::<Model>::empty());
        assert(s.skip(0) =~= s);
    } else {
        lemma_sum_model_bounds_split(s, i - 1);
        assert(s.take(i) =~= s.take(i - 1).push(s[i - 1]));
        lemma_sum_model_bounds_push(s.take(i - 1), s[i - 1]);
        assert(s.skip(i - 1)[0] == s[i - 1]);
        assert(s.skip(i - 1).skip(1) =~= s.skip(i));
    }
}

proof fn lemma_sum_model_bounds_push(s: Seq<Model>, m: Model)
    ensures
        sum_model_bounds(s.push(m)) == sum_model_bounds(s) + m.rebase_bound(),
    decreases s.len(),
{
    if s.len() == 0 {
        assert(s.push(m)[0] == m);
        assert(s.push(m).skip(1) =~= Seq::<Model>::empty());
        assert(sum_model_bounds(s.push(m)) == m.rebase_bound() + sum_model_bounds(
            Seq::<Model>::empty(),
        ));
    } else {
        assert(s.push(m)[0] == s[0]);
        assert(s.push(m).skip(1) =~= s.skip(1).push(m));
        lemma_sum_model_bounds_push(s.skip(1), m);
    }
}

proof fn lemma_sum_model_bounds_nonneg(s: Seq<Model>)
    ensures
        sum_model_bounds(s) >= 0,
    decreases s.len(),
{
    if s.len() > 0 {
        lemma_model_bound_nonneg(s[0]);
        lemma_sum_model_bounds_nonneg(s.skip(1));
    }
}

pub proof fn lemma_sum_model_sizes_nonneg(s: Seq<Model>)
    requires
        forall|i: int| 0 <= i < s.len() ==> (#[trigger] s[i]).spec_size() >= 0,
    ensures
        sum_model_sizes(s) >= 0,
    decreases s.len(),
{
    if s.len() > 0 {
        assert(forall|i: int|
            0 <= i < s.skip(1).len() ==> (#[trigger] s.skip(1)[i]).spec_size() >= 0);
        lemma_sum_model_sizes_nonneg(s.skip(1));
    }
}

/// Some failure of a geometry-subfile decode, over the raw bytes: a
/// truncated header, a recorded size past the buffer or too small, a bad
/// model offset list, or a model that does not decode at its offset.
pub open spec fn mdl_decode_err(bytes: Seq<u8>) -> bool {
    let n = bytes.len() as int;
    let fsz = spec_u32_from_le_bytes(bytes.subrange(4, 8)) as int;
    let mb = bytes.subrange(0, fsz).subrange(8, fsz);
    ||| n < 8
    ||| fsz > n
    ||| fsz < 8
    ||| crate::name_list::nl_decode_err::<u32>(mb)
    ||| exists|i: int|
        #![trigger crate::name_list::nl_u32_at(mb, i)]
        0 <= i < mb[1] as int && {
            let off = crate::name_list::nl_u32_at(mb, i);
            off > fsz || crate::model::model_decode_err(bytes.subrange(0, fsz).subrange(off, fsz))
        }
}

/// One geometry subfile.
#[derive(Clone, Debug)]
pub struct Mdl {
    pub stamp: [u8; 4],
    pub filesize: u32,
    pub models: NameList<u32>,
    pub models_data: Vec<Model>,
}

/// The subfile's encoded image stands in `v` at `pos`: the stamp and
/// recorded size, the model name-list, and each model at its offset.
pub open spec fn mdl_written(m: Mdl, v: Seq<u8>, pos: int) -> bool {
    &&& v.subrange(pos, pos + 4) == m.stamp@
    &&& v.subrange(pos + 4, pos + 8) == spec_u32_to_le_bytes(m.filesize)
    &&& crate::name_list::nl_written(m.models, v, pos + 8)
    &&& forall|k: int|
        0 <= k < m.models_data@.len() ==> crate::model::model_written(
            #[trigger] m.models_data@[k],
            v,
            pos + m.models.data@[k] as int,
        )
}

/// A later write that leaves the subfile's bytes alone leaves its image
/// standing.
pub proof fn lemma_mdl_written_frame(m: Mdl, v1: Seq<u8>, v2: Seq<u8>, pos: int)
    requires
        mdl_written(m, v1, pos),
        m.wf(),
        m.layout_ok(),
        0 <= pos,
        pos + m.filesize as int <= v1.len(),
        v1.len() == v2.len(),
        forall|k: int| pos <= k < pos + m.filesize as int ==> v2[k] == v1[k],
    ensures
        mdl_written(m, v2, pos),
{
    assert(v2.subrange(pos, pos + 4) =~= v1.subrange(pos, pos + 4));
    assert(v2.subrange(pos + 4, pos + 8) =~= v1.subrange(pos + 4, pos + 8));
    crate::name_list::lemma_nl_written_frame(m.models, v1, v2, pos + 8);
    assert forall|k: int| 0 <= k < m.models_data@.len() implies crate::model::model_written(
        #[trigger] m.models_data@[k],
        v2,
        pos + m.models.data@[k] as int,
    ) by {
        crate::model::lemma_model_written_frame(
            m.models_data@[k],
            v1,
            v2,
            pos + m.models.data@[k] as int,
        );
    };
}

impl Mdl {
    pub open spec fn wf(self) -> bool {
        &&& self.models.wf()
        &&& self.models_data@.len() == self.models.count as int
    }

    pub fn from_bytes(bytes: &[u8]) -> (r: Result<Mdl, AppError>)
        ensures
            r is Err <==> mdl_decode_err(bytes@),
            r is Ok ==> {
                let m = r->Ok_0;
                &&& m.wf()
                &&& m.stamp@ == bytes@.subrange(0, 4)
                &&& m.filesize == spec_u32_from_le_bytes(bytes@.subrange(4, 8))
                &&& m.filesize as int <= bytes@.len()
            },
    {
        let n = bytes.len();
        if n < 8 {
            return Err(AppError::new("MDL needs at least 8 bytes to start reading"));
        }
        let stamp: [u8; 4] = [
            crate::lebytes::read_u8(bytes, 0),
            crate::lebytes::read_u8(bytes, 1),
            crate::lebytes::read_u8(bytes, 2),
            crate::lebytes::read_u8(bytes, 3),
        ];
        proof {
            assert(stamp@ =~= bytes@.subrange(0, 4));
        }
        let filesize = read_u32(bytes, 4);
        if filesize as usize > n {
            return Err(AppError::new("MDL is larger than the buffer"));
        }
        let within = slice_subrange(bytes, 0, filesize as usize);
        let m = filesize as usize;
        if m < 8 {
            return Err(AppError::new("MDL needs at least 8 bytes inside its size"));
        }
        let models = match NameList::<u32>::from_bytes(slice_subrange(within, 8, m)) {
            Ok(l) => l,
            Err(e) => return Err(e),
        };
        proof {
            vstd::bytes::lemma_auto_spec_u32_to_from_le_bytes();
            assert forall|k: int| 0 <= k < models.count as int implies (
            #[trigger] models.data@[k]) as int == crate::name_list::nl_u32_at(
                within@.subrange(8, m as int),
                k,
            ) by {
                assert(models.data@[k].enc() == vstd::bytes::spec_u32_to_le_bytes(
                    models.data@[k],
                ));
            };
        }
        let count = models.len();
        let mut models_data: Vec<Model> = Vec::new();
        let mut i: usize = 0;
        while i < count
            invariant
                i <= count,
                m == within@.len(),
                m == filesize as int,
                n == bytes@.len(),
                within@ == bytes@.subrange(0, filesize as int),
                count == models.count as int,
                count == within@.subrange(8, m as int)[1] as int,
                models.wf(),
                models_data@.len() == i,
                forall|k: int|
                    0 <= k < count ==> (#[trigger] models.data@[k]) as int
                        == crate::name_list::nl_u32_at(within@.subrange(8, m as int), k),
                filesize == spec_u32_from_le_bytes(bytes@.subrange(4, 8)),
                forall|k: int|
                    0 <= k < i ==> #[trigger] crate::name_list::nl_u32_at(
                        within@.subrange(8, m as int),
                        k,
                    ) <= m as int && !crate::model::model_decode_err(
                        within@.subrange(
                            crate::name_list::nl_u32_at(within@.subrange(8, m as int), k),
                            m as int,
                        ),
                    ),
            decreases count - i,
        {
            let offset = match models.get(i) {
                Some(o) => *o,
                None => {
                    proof {
                        assert(false);
                    }
                    0
                },
            };
            if offset as usize > m {
                return Err(AppError::new("Model offset is out of bounds"));
            }
            let model = match Model::from_bytes(slice_subrange(within, offset as usize, m)) {
                Ok(md) => md,
                Err(e) => return Err(e),
            };
            models_data.push(model);
            i = i + 1;
        }
        proof {
            assert(!mdl_decode_err(bytes@));
        }
        Ok(Mdl { stamp, filesize, models, models_data })
    }

    /// The models lie after the name list, in order and without overlap,
    /// and every model write stays inside the recorded file size.
    pub open spec fn layout_ok(self) -> bool {
        &&& 8 + self.models.size as int <= self.filesize as int
        &&& forall|i: int|
            0 <= i < self.models_data@.len() ==> (#[trigger] self.models.data@[i]) as int
                + self.models_data@[i].size as int <= self.filesize as int && 8
                + self.models.size as int <= self.models.data@[i] as int
        &&& forall|i: int|
            0 <= i < self.models_data@.len() ==> (#[trigger] self.models_data@[i]).wf()
                && self.models_data@[i].layout_ok()
        &&& forall|i: int|
            0 <= i < self.models_data@.len() - 1 ==> (#[trigger] self.models.data@[i]) as int
                + self.models_data@[i].size as int <= self.models.data@[i + 1] as int
    }

    /// Earlier models end before later models begin.
    proof fn lemma_model_offsets_chain(&self, a: int, b: int)
        requires
            self.wf(),
            self.layout_ok(),
            0 <= a < b < self.models_data@.len(),
        ensures
            self.models.data@[a] as int + self.models_data@[a].size as int
                <= self.models.data@[b] as int,
        decreases b - a,
    {
        if a + 1 < b {
            self.lemma_model_offsets_chain(a, b - 1);
        }
    }

    /// Writes the stamp, size, model name-list and each model at its
    /// recorded offset.
    #[verifier::rlimit(100)]
    pub fn write_bytes(&self, buffer: &mut Vec<u8>, pos: usize)
        requires
            self.wf(),
            self.layout_ok(),
            pos + self.filesize as int <= old(buffer)@.len(),
        ensures
            final(buffer)@.len() == old(buffer)@.len(),
            forall|i: int|
                0 <= i < final(buffer)@.len() && !(pos <= i < pos + self.filesize as int)
                    ==> final(buffer)@[i] == old(buffer)@[i],
            mdl_written(*self, final(buffer)@, pos as int),
    {
        let n = buffer.len();
        write_u8(buffer, pos, self.stamp[0]);
        write_u8(buffer, pos + 1, self.stamp[1]);
        write_u8(buffer, pos + 2, self.stamp[2]);
        write_u8(buffer, pos + 3, self.stamp[3]);
        write_u32(buffer, pos + 4, self.filesize);
        assert(buffer@.subrange(pos as int, pos + 4) =~= self.stamp@);
        self.models.write_bytes(buffer, pos + 8);
        let ghost after_list = buffer@;
        proof {
            assert(buffer@.subrange(pos as int, pos + 4) =~= self.stamp@);
            assert(buffer@.subrange(pos + 4, pos + 8) =~= spec_u32_to_le_bytes(self.filesize));
        }
        let count = self.models_data.len();
        let mut i: usize = 0;
        while i < count
            invariant
                i <= count,
                count == self.models_data@.len(),
                self.wf(),
                self.layout_ok(),
                pos + self.filesize as int <= buffer@.len(),
                buffer@.len() <= usize::MAX,
                buffer@.len() == old(buffer)@.len(),
                buffer@.len() == after_list.len(),
                forall|k: int|
                    0 <= k < buffer@.len() && !(pos <= k < pos + self.filesize as int)
                        ==> buffer@[k] == old(buffer)@[k],
                pos + 8 <= buffer@.len(),
                buffer@.subrange(pos as int, pos + 4) == self.stamp@,
                buffer@.subrange(pos + 4, pos + 8) == spec_u32_to_le_bytes(self.filesize),
                forall|k: int|
                    0 <= k < buffer@.len() && k < pos + 8 + self.models.size as int ==> buffer@[k]
                        == after_list[k],
                forall|k: int|
                    0 <= k < i ==> crate::model::model_written(
                        #[trigger] self.models_data@[k],
                        buffer@,
                        pos + self.models.data@[k] as int,
                    ),
            decreases count - i,
        {
            proof {
                if i > 0 {
                    self.lemma_model_offsets_chain(i - 1, i as int);
                }
            }
            let offset = match self.models.get(i) {
                Some(o) => *o,
                None => {
                    proof {
                        assert(false);
                    }
                    0
                },
            };
            let ghost before = buffer@;
            let model = &self.models_data[i];
            model.write_bytes(buffer, pos + offset as usize);
            proof {
                assert(buffer@.subrange(pos as int, pos + 4) =~= before.subrange(
                    pos as int,
                    pos + 4,
                ));
                assert(buffer@.subrange(pos + 4, pos + 8) =~= before.subrange(pos + 4, pos + 8));
                assert forall|k: int| 0 <= k < i implies crate::model::model_written(
                    #[trigger] self.models_data@[k],
                    buffer@,
                    pos + self.models.data@[k] as int,
                ) by {
                    self.lemma_model_offsets_chain(k, i as int);
                    crate::model::lemma_model_written_frame(
                        self.models_data@[k],
                        before,
                        buffer@,
                        pos + self.models.data@[k] as int,
                    );
                };
            }
            i = i + 1;
        }
        proof {
            crate::name_list::lemma_nl_written_frame(self.models, after_list, buffer@, pos + 8);
            assert(mdl_written(*self, buffer@, pos as int));
        }
    }

    /// The subfile's encoded bytes in a fresh zeroed buffer: the stamp and
    /// recorded size first, the sections at their recorded offsets.
    pub fn to_bytes(&self) -> (r: Vec<u8>)
        requires
            self.wf(),
            self.layout_ok(),
        ensures
            r@.len() == self.filesize as int,
            r@.subrange(0, 4) == self.stamp@,
            r@.subrange(4, 8) == spec_u32_to_le_bytes(self.filesize),
    {
        let mut bytes: Vec<u8> = Vec::new();
        let total = self.filesize as usize;
        let mut i: usize = 0;
        while i < total
            invariant
                bytes@.len() == i,
                i <= total,
            decreases total - i,
        {
            bytes.push(0);
            i = i + 1;
        }
        self.write_bytes(&mut bytes, 0);
        bytes
    }

    /// The subfile's byte length.
    pub fn size(&self) -> (r: usize)
        ensures
            r == self.filesize as int,
    {
        self.filesize as usize
    }

    /// Rebases every model, then lays the models out one after another
    /// after the name-list and refreshes the total size.
    pub fn rebase(&mut self)
        requires
            old(self).wf(),
            old(self).models.computed_size() <= 0xFFFF,
            forall|i: int|
                0 <= i < old(self).models_data@.len() ==> (
                #[trigger] old(self).models_data@[i]).rebase_ok(),
            8 + old(self).models.computed_size() + sum_model_bounds(old(self).models_data@)
                <= 0xFFFF_FFFF,
        ensures
            final(self).stamp@ == old(self).stamp@,
            final(self).models.size as int == old(self).models.computed_size(),
            final(self).models_data@.len() == old(self).models_data@.len(),
            forall|i: int|
                0 <= i < final(self).models_data@.len() ==> (
                #[trigger] final(self).models.data@[i]) as int == 8 + old(
                    self,
                ).models.computed_size() + sum_model_sizes(final(self).models_data@.take(i)),
            final(self).filesize as int == 8 + old(self).models.computed_size()
                + sum_model_sizes(final(self).models_data@),
            final(self).filesize as int <= 8 + old(self).models.computed_size()
                + sum_model_bounds(old(self).models_data@),
    {
        self.models.rebase();
        let base: usize = 8 + self.models.size();
        let mut src: Vec<Model> = Vec::new();
        core::mem::swap(&mut src, &mut self.models_data);
        let ghost orig = src@;
        let n = src.len();
        let mut rebuilt: Vec<Model> = Vec::new();
        let mut offset: u64 = base as u64;
        let mut i: usize = 0;
        proof {
            assert(rebuilt@.take(0) =~= Seq::<Model>::empty());
        }
        proof {
            lemma_sum_model_bounds_nonneg(orig);
        }
        while i < n
            invariant
                i <= n,
                n == orig.len(),
                src@ == orig.skip(i as int),
                rebuilt@.len() == i,
                base == 8 + old(self).models.computed_size(),
                self.models.count == old(self).models.count,
                self.models.size as int == old(self).models.computed_size(),
                self.models.names@ == old(self).models.names@,
                self.models.data@.len() == old(self).models.data@.len(),
                self.models.unknown.header == old(self).models.unknown.header,
                self.models.unknown.unknown@ == old(self).models.unknown.unknown@,
                self.models.element_size == old(self).models.element_size,
                self.models.data_section_size == old(self).models.data_section_size,
                self.models.dummy == old(self).models.dummy,
                self.stamp@ == old(self).stamp@,
                offset as int == base + sum_model_sizes(rebuilt@),
                offset as int <= base + sum_model_bounds(orig.take(i as int)),
                base + sum_model_bounds(orig) <= 0xFFFF_FFFF,
                n == self.models.data@.len(),
                forall|k: int|
                    0 <= k < orig.len() ==> (#[trigger] orig[k]).rebase_ok(),
                forall|k: int|
                    0 <= k < i ==> (#[trigger] self.models.data@[k]) as int == base
                        + sum_model_sizes(rebuilt@.take(k)),
                forall|k: int| 0 <= k < i ==> (#[trigger] rebuilt@[k]).spec_size() >= 0,
            decreases n - i,
        {
            let mut model = src.remove(0);
            proof {
                assert(orig.skip(i as int)[0] == orig[i as int]);
                assert(orig.skip(i as int).skip(1) =~= orig.skip(i + 1));
                assert(src@ =~= orig.skip(i + 1));
            }
            proof {
                lemma_sum_model_bounds_split(orig, i as int);
                lemma_sum_model_bounds_split(orig, i + 1);
                assert(orig.take(i + 1) =~= orig.take(i as int).push(orig[i as int]));
                lemma_sum_model_bounds_push(orig.take(i as int), orig[i as int]);
                lemma_sum_model_bounds_nonneg(orig.skip(i + 1));
                lemma_model_bound_nonneg(orig[i as int]);
            }
            model.rebase();
            self.models.set_data(i, offset as u32);
            proof {
                assert(model.spec_size() == model.size as int);
                assert(84 * model.inv_binds_matrices.matrices@.len() as int <= model.size as int);
            }
            let msize = model.size();
            let ghost before_push = rebuilt@;
            rebuilt.push(model);
            proof {
                lemma_sum_model_sizes_push(before_push, rebuilt@[i as int]);
                assert(rebuilt@.take(i as int) =~= before_push);
                assert forall|k: int|
                    0 <= k < i + 1 implies (#[trigger] self.models.data@[k]) as int == base
                    + sum_model_sizes(rebuilt@.take(k)) by {
                    assert(rebuilt@.take(k) =~= before_push.take(k));
                };
            }
            offset = offset + msize as u64;
            i = i + 1;
        }
        let ghost all_models = rebuilt@;
        proof {
            assert(orig.take(n as int) =~= orig);
            assert(offset as int <= base + sum_model_bounds(orig));
            assert(offset as int == base + sum_model_sizes(all_models));
        }
        core::mem::swap(&mut rebuilt, &mut self.models_data);
        proof {
            assert(self.models_data@ =~= all_models);
            assert forall|k: int|
                0 <= k < self.models_data@.len() implies (
            #[trigger] self.models.data@[k]) as int == base + sum_model_sizes(
                self.models_data@.take(k),
            ) by {
                assert(self.models_data@.take(k) =~= all_models.take(k));
            };
        }
        self.filesize = offset as u32;
    }

    /// The model at `index`, if any.
    pub fn get_model(&self, index: usize) -> (r: Option<&Model>)
        ensures
            index < self.models_data@.len() ==> r is Some && *r->Some_0
                == self.models_data@[index as int],
            index >= self.models_data@.len() ==> r is None,
    {
        if index < self.models_data.len() {
            Some(&self.models_data[index])
        } else {
            None
        }
    }
}

proof fn lemma_sum_model_sizes_push(s: Seq<Model>, m: Model)
    ensures
        sum_model_sizes(s.push(m)) == sum_model_sizes(s) + m.spec_size(),
    decreases s.len(),
{
    if s.len() == 0 {
        assert(s.push(m)[0] == m);
        assert(s.push(m).skip(1) =~= Seq::<Model>::empty());
        assert(sum_model_sizes(s.push(m)) == m.spec_size() + sum_model_sizes(
            Seq::<Model>::empty(),
        ));
    } else {
        assert(s.push(m)[0] == s[0]);
        assert(s.push(m).skip(1) =~= s.skip(1).push(m));
        lemma_sum_model_sizes_push(s.skip(1), m);
    }
}

} // verus!
