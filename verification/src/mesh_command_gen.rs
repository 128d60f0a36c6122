//! Mesh-command generator: turns triangles whose vertices carry
//! fixed-point positions, texture coordinates and a single bone each into
//! a GPU command run, batching triangles by bone and switching the active
//! bone with a matrix restore whenever it changes.

use crate::error::AppError;
use crate::fixed_1_11_4::Fixed1_11_4;
use crate::fixed_1_3_12::Fixed1_3_12;
use crate::gpu_command_list::GpuCommand;
use crate::gpu_params::BeginVtxsParams;
use crate::gpu_params::MtxRestoreParams;
use crate::gpu_params::TexCoordParams;
use crate::gpu_params::Vtx16Params;
use crate::name::Name;
use vstd::prelude::*;

verus! {

/// One vertex as the generator consumes it: position in 1.3.12 units,
/// texture coordinate in 1.11.4 texel units, and its dominant bone.
#[derive(Clone, Copy, Debug)]
pub struct CmdVertex {
    pub x: Fixed1_3_12,
    pub y: Fixed1_3_12,
    pub z: Fixed1_3_12,
    pub s: Fixed1_11_4,
    pub t: Fixed1_11_4,
    pub bone_id: u32,
}

/// One triangle of three such vertices.
#[derive(Clone, Copy, Debug)]
pub struct CmdTriangle {
    pub v1: CmdVertex,
    pub v2: CmdVertex,
    pub v3: CmdVertex,
}

impl CmdTriangle {
    /// All three vertices follow one bone.
    pub open spec fn spec_single_boned(self) -> bool {
        self.v1.bone_id == self.v2.bone_id && self.v1.bone_id == self.v3.bone_id
    }

    pub fn is_single_boned(&self) -> (r: bool)
        ensures
            r == self.spec_single_boned(),
    {
        self.v1.bone_id == self.v2.bone_id && self.v1.bone_id == self.v3.bone_id
    }
}

/// Every index points at a vertex.
pub open spec fn indices_in_bounds(indices: Seq<u32>, n: int) -> bool {
    forall|i: int| 0 <= i < indices.len() ==> (#[trigger] indices[i]) < n
}

/// Assembles triangles from an indexed vertex list: three indices per
/// triangle, each in bounds.
pub fn triangles_from_indexed(vertices: &Vec<CmdVertex>, indices: &Vec<u32>) -> (r: Result<
    Vec<CmdTriangle>,
    AppError,
>)
    ensures
        r is Ok <==> indices@.len() % 3 == 0 && indices_in_bounds(indices@, vertices@.len() as int),
        r is Ok ==> r->Ok_0@.len() == indices@.len() / 3,
        r is Ok ==> forall|k: int|
            0 <= k < r->Ok_0@.len() ==> {
                let tri = #[trigger] r->Ok_0@[k];
                tri.v1 == vertices@[indices@[3 * k] as int] && tri.v2 == vertices@[indices@[3 * k
                    + 1] as int] && tri.v3 == vertices@[indices@[3 * k + 2] as int]
            },
{
    let n = indices.len();
    if n % 3 != 0 {
        return Err(AppError::new("Indices length must be a multiple of 3 for triangles."));
    }
    let mut k: usize = 0;
    while k < n
        invariant
            k <= n,
            n == indices@.len(),
            forall|i: int| 0 <= i < k ==> ((#[trigger] indices@[i]) as int) < vertices@.len(),
        decreases n - k,
    {
        if indices[k] as usize >= vertices.len() {
            return Err(AppError::new("Triangle index is out of bounds."));
        }
        k = k + 1;
    }
    let total = n / 3;
    proof {
        vstd::arithmetic::div_mod::lemma_fundamental_div_mod(n as int, 3);
    }
    let mut triangles: Vec<CmdTriangle> = Vec::new();
    let mut k: usize = 0;
    while k < total
        invariant
            k <= total,
            n == indices@.len(),
            3 * total == n,
            forall|i: int| 0 <= i < n ==> ((#[trigger] indices@[i]) as int) < vertices@.len(),
            triangles@.len() == k,
            forall|m: int|
                0 <= m < k ==> {
                    let tri = #[trigger] triangles@[m];
                    tri.v1 == vertices@[indices@[3 * m] as int] && tri.v2 == vertices@[indices@[3
                        * m + 1] as int] && tri.v3 == vertices@[indices@[3 * m + 2] as int]
                },
        decreases total - k,
    {
        proof {
            assert(3 * (k as int) + 3 <= 3 * (total as int)) by (nonlinear_arith)
                requires
                    k < total,
            ;
            assert(0 <= 3 * (k as int)) by (nonlinear_arith)
                requires
                    0 <= k,
            ;
        }
        let i1 = indices[3 * k] as usize;
        let i2 = indices[3 * k + 1] as usize;
        let i3 = indices[3 * k + 2] as usize;
        let tri = CmdTriangle { v1: vertices[i1], v2: vertices[i2], v3: vertices[i3] };
        triangles.push(tri);
        k = k + 1;
    }
    Ok(triangles)
}

/// Whether two 16-byte names hold the same bytes.
fn names_equal(a: &Name, b: &Name) -> (r: bool)
    ensures
        r <==> a.name@ == b.name@,
{
    let mut k: usize = 0;
    while k < 16
        invariant
            k <= 16,
            forall|i: int| 0 <= i < k ==> a.name@[i] == b.name@[i],
        decreases 16 - k,
    {
        if a.name[k] != b.name[k] {
            return false;
        }
        k = k + 1;
    }
    proof {
        assert(a.name@ =~= b.name@);
    }
    true
}

/// The slot in `command_bones` holding a name equal to `name`, if any.
fn find_command_bone(command_bones: &Vec<Option<Name>>, name: &Name) -> (r: Option<usize>)
    ensures
        match r {
            Some(j) => j < command_bones@.len() && command_bones@[j as int] is Some
                && command_bones@[j as int]->0.name@ == name.name@,
            None => forall|j: int|
                0 <= j < command_bones@.len() ==> !((#[trigger] command_bones@[j]) is Some
                    && command_bones@[j]->0.name@ == name.name@),
        },
{
    let n = command_bones.len();
    let mut j: usize = 0;
    while j < n
        invariant
            j <= n,
            n == command_bones@.len(),
            forall|i: int|
                0 <= i < j ==> !((#[trigger] command_bones@[i]) is Some && command_bones@[i]->0.name@
                    == name.name@),
        decreases n - j,
    {
        match &command_bones[j] {
            Some(candidate) => {
                if names_equal(candidate, name) {
                    return Some(j);
                }
            },
            None => {},
        }
        j = j + 1;
    }
    None
}

/// Generates GPU command runs from bone-tagged triangles: single-bone
/// triangles batched per bone into one vertex group each, mixed-bone
/// triangles in one group with a matrix restore at every bone change.
pub struct MeshCommandGenerator {
    pub triangles: Vec<CmdTriangle>,
    pub bone_mapping: Vec<Option<u32>>,
}

impl MeshCommandGenerator {
    /// Maps every bone a triangle uses to its slot in the target model's
    /// bone list; a used bone absent from the target list is an error.
    pub fn new(
        triangles: Vec<CmdTriangle>,
        vertex_bones: &Vec<Name>,
        command_bones: &Vec<Option<Name>>,
    ) -> (r: Result<MeshCommandGenerator, AppError>)
        ensures
            r is Ok ==> {
                let g = r->Ok_0;
                &&& g.triangles@ == triangles@
                &&& g.bone_mapping@.len() == vertex_bones@.len()
                &&& forall|i: int|
                    0 <= i < g.bone_mapping@.len() && (#[trigger] g.bone_mapping@[i]) is Some ==> {
                        let j = g.bone_mapping@[i]->0 as int;
                        j < command_bones@.len() && command_bones@[j] is Some
                            && command_bones@[j]->0.name@ == vertex_bones@[i].name@
                    }
                &&& forall|k: int|
                    0 <= k < g.triangles@.len() ==> {
                        let tri = #[trigger] g.triangles@[k];
                        &&& tri.v1.bone_id < g.bone_mapping@.len() && g.bone_mapping@[tri.v1.bone_id as int] is Some
                        &&& tri.v2.bone_id < g.bone_mapping@.len() && g.bone_mapping@[tri.v2.bone_id as int] is Some
                        &&& tri.v3.bone_id < g.bone_mapping@.len() && g.bone_mapping@[tri.v3.bone_id as int] is Some
                    }
            },
    {
        let bone_count = vertex_bones.len();
        let mut used: Vec<bool> = Vec::new();
        let mut k: usize = 0;
        while k < bone_count
            invariant
                k <= bone_count,
                used@.len() == k,
            decreases bone_count - k,
        {
            used.push(false);
            k = k + 1;
        }
        let tri_count = triangles.len();
        let mut k: usize = 0;
        while k < tri_count
            invariant
                k <= tri_count,
                tri_count == triangles@.len(),
                used@.len() == bone_count,
                bone_count == vertex_bones@.len(),
                forall|m: int|
                    0 <= m < k ==> {
                        let tri = #[trigger] triangles@[m];
                        &&& tri.v1.bone_id < bone_count && used@[tri.v1.bone_id as int]
                        &&& tri.v2.bone_id < bone_count && used@[tri.v2.bone_id as int]
                        &&& tri.v3.bone_id < bone_count && used@[tri.v3.bone_id as int]
                    },
            decreases tri_count - k,
        {
            let tri = &triangles[k];
            if tri.v1.bone_id as usize >= bone_count || tri.v2.bone_id as usize >= bone_count
                || tri.v3.bone_id as usize >= bone_count {
                return Err(AppError::new("Triangle names a bone outside the bone list."));
            }
            let ghost before = used@;
            used.set(tri.v1.bone_id as usize, true);
            used.set(tri.v2.bone_id as usize, true);
            used.set(tri.v3.bone_id as usize, true);
            proof {
                assert forall|m: int|
                    0 <= m < k implies {
                    let t2 = #[trigger] triangles@[m];
                    &&& t2.v1.bone_id < bone_count && used@[t2.v1.bone_id as int]
                    &&& t2.v2.bone_id < bone_count && used@[t2.v2.bone_id as int]
                    &&& t2.v3.bone_id < bone_count && used@[t2.v3.bone_id as int]
                } by {
                    assert(triangles@[m].v1.bone_id < bone_count && before[triangles@[m].v1.bone_id as int]);
                };
            }
            k = k + 1;
        }
        let mut bone_mapping: Vec<Option<u32>> = Vec::new();
        let mut i: usize = 0;
        while i < bone_count
            invariant
                i <= bone_count,
                bone_count == vertex_bones@.len(),
                used@.len() == bone_count,
                bone_mapping@.len() == i,
                forall|m: int|
                    0 <= m < i && (#[trigger] bone_mapping@[m]) is Some ==> {
                        let j = bone_mapping@[m]->0 as int;
                        j < command_bones@.len() && command_bones@[j] is Some
                            && command_bones@[j]->0.name@ == vertex_bones@[m].name@
                    },
                forall|m: int| 0 <= m < i && used@[m] ==> (#[trigger] bone_mapping@[m]) is Some,
            decreases bone_count - i,
        {
            if !used[i] {
                bone_mapping.push(None);
            } else {
                match find_command_bone(command_bones, &vertex_bones[i]) {
                    Some(j) => {
                        if j > u32::MAX as usize {
                            return Err(AppError::new("Bone slot does not fit the command index."));
                        }
                        bone_mapping.push(Some(j as u32));
                    },
                    None => {
                        return Err(
                            AppError::new(
                                "Every bone the mesh uses must exist in the target bone list.",
                            ),
                        );
                    },
                }
            }
            i = i + 1;
        }
        Ok(MeshCommandGenerator { triangles, bone_mapping })
    }

    /// The command-bone slot of a vertex-bone index.
    fn mapped_bone(&self, bone_id: u32) -> (r: Result<u32, AppError>)
        ensures
            r is Ok <==> ((bone_id as int) < self.bone_mapping@.len()
                && self.bone_mapping@[bone_id as int] is Some),
            r is Ok ==> r->Ok_0 == self.bone_mapping@[bone_id as int]->0,
    {
        if (bone_id as usize) < self.bone_mapping.len() {
            match &self.bone_mapping[bone_id as usize] {
                Some(j) => Ok(*j),
                None => Err(AppError::new("Bone ID not found in command bone mapping.")),
            }
        } else {
            Err(AppError::new("Bone ID not found in command bone mapping."))
        }
    }

    /// Emits one vertex: its texture coordinate, then its position.
    fn push_vertex(&self, commands: &mut Vec<GpuCommand>, v: &CmdVertex)
        ensures
            final(commands)@ == old(commands)@.push(
                GpuCommand::TexCoord((TexCoordParams { s: v.s, t: v.t })),
            ).push(GpuCommand::Vtx16((Vtx16Params { x: v.x, y: v.y, z: v.z }))),
    {
        commands.push(GpuCommand::TexCoord(TexCoordParams { s: v.s, t: v.t }));
        commands.push(GpuCommand::Vtx16(Vtx16Params { x: v.x, y: v.y, z: v.z }));
    }

    /// Generates the whole command run: every single-bone batch first,
    /// then one group of the mixed-bone triangles.
    pub fn generate_commands(&self) -> (r: Result<Vec<GpuCommand>, AppError>)
        ensures
            (forall|k: int|
                0 <= k < self.triangles@.len() ==> {
                    let tri = #[trigger] self.triangles@[k];
                    &&& tri.v1.bone_id < self.bone_mapping@.len() && self.bone_mapping@[tri.v1.bone_id as int] is Some
                    &&& tri.v2.bone_id < self.bone_mapping@.len() && self.bone_mapping@[tri.v2.bone_id as int] is Some
                    &&& tri.v3.bone_id < self.bone_mapping@.len() && self.bone_mapping@[tri.v3.bone_id as int] is Some
                }) ==> r is Ok,
    {
        let mut commands: Vec<GpuCommand> = Vec::new();
        let ghost all_mapped = forall|k: int|
            0 <= k < self.triangles@.len() ==> {
                let tri = #[trigger] self.triangles@[k];
                &&& tri.v1.bone_id < self.bone_mapping@.len() && self.bone_mapping@[tri.v1.bone_id as int] is Some
                &&& tri.v2.bone_id < self.bone_mapping@.len() && self.bone_mapping@[tri.v2.bone_id as int] is Some
                &&& tri.v3.bone_id < self.bone_mapping@.len() && self.bone_mapping@[tri.v3.bone_id as int] is Some
            };
        // Single-bone triangles, batched per bone in rising bone order.
        let bone_count = self.bone_mapping.len();
        let mut b: usize = 0;
        while b < bone_count
            invariant
                bone_count == self.bone_mapping@.len(),
                all_mapped == (forall|k: int|
                    0 <= k < self.triangles@.len() ==> {
                        let tri = #[trigger] self.triangles@[k];
                        &&& tri.v1.bone_id < self.bone_mapping@.len() && self.bone_mapping@[tri.v1.bone_id as int] is Some
                        &&& tri.v2.bone_id < self.bone_mapping@.len() && self.bone_mapping@[tri.v2.bone_id as int] is Some
                        &&& tri.v3.bone_id < self.bone_mapping@.len() && self.bone_mapping@[tri.v3.bone_id as int] is Some
                    }),
            decreases bone_count - b,
        {
            let mut batch_open = false;
            let tri_count = self.triangles.len();
            let mut k: usize = 0;
            while k < tri_count
                invariant
                    tri_count == self.triangles@.len(),
                    b < self.bone_mapping@.len() || !batch_open,
                    batch_open ==> self.bone_mapping@[b as int] is Some,
                decreases tri_count - k,
            {
                let tri = &self.triangles[k];
                if tri.is_single_boned() && tri.v1.bone_id as usize == b {
                    let cmd_bone = match self.mapped_bone(tri.v1.bone_id) {
                        Ok(j) => j,
                        Err(e) => return Err(e),
                    };
                    if !batch_open {
                        commands.push(
                            GpuCommand::BeginVtxs(BeginVtxsParams { primitive_type: 0 }),
                        );
                        commands.push(GpuCommand::MtxRestore(MtxRestoreParams { index: cmd_bone }));
                        batch_open = true;
                    }
                    self.push_vertex(&mut commands, &tri.v1);
                    self.push_vertex(&mut commands, &tri.v2);
                    self.push_vertex(&mut commands, &tri.v3);
                }
                k = k + 1;
            }
            if batch_open {
                commands.push(GpuCommand::EndVtxs);
            }
            b = b + 1;
        }
        // Mixed-bone triangles: one group, restoring the matrix whenever
        // the active bone changes.
        let tri_count = self.triangles.len();
        let mut group_open = false;
        let mut prev_bone: u32 = 0;
        let mut k: usize = 0;
        while k < tri_count
            invariant
                tri_count == self.triangles@.len(),
            decreases tri_count - k,
        {
            let tri = &self.triangles[k];
            if !tri.is_single_boned() {
                let b1 = match self.mapped_bone(tri.v1.bone_id) {
                    Ok(j) => j,
                    Err(e) => return Err(e),
                };
                if !group_open {
                    commands.push(GpuCommand::BeginVtxs(BeginVtxsParams { primitive_type: 0 }));
                    commands.push(GpuCommand::MtxRestore(MtxRestoreParams { index: b1 }));
                    prev_bone = b1;
                    group_open = true;
                }
                if b1 != prev_bone {
                    commands.push(GpuCommand::MtxRestore(MtxRestoreParams { index: b1 }));
                    prev_bone = b1;
                }
                self.push_vertex(&mut commands, &tri.v1);
                let b2 = match self.mapped_bone(tri.v2.bone_id) {
                    Ok(j) => j,
                    Err(e) => return Err(e),
                };
                if b2 != prev_bone {
                    commands.push(GpuCommand::MtxRestore(MtxRestoreParams { index: b2 }));
                    prev_bone = b2;
                }
                self.push_vertex(&mut commands, &tri.v2);
                let b3 = match self.mapped_bone(tri.v3.bone_id) {
                    Ok(j) => j,
                    Err(e) => return Err(e),
                };
                if b3 != prev_bone {
                    commands.push(GpuCommand::MtxRestore(MtxRestoreParams { index: b3 }));
                    prev_bone = b3;
                }
                self.push_vertex(&mut commands, &tri.v3);
            }
            k = k + 1;
        }
        if group_open {
            commands.push(GpuCommand::EndVtxs);
        }
        Ok(commands)
    }
}

} // verus!
