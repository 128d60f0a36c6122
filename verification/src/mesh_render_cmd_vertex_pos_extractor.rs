//! Vertex-position extractor: runs over a GPU command stream and collects
//! the absolute position each vertex command emits, in 1.19.12-style raw
//! units where 4096 is one model unit.

use crate::error::AppError;
use crate::gpu_command_list::GpuCommand;
use crate::gpu_command_list::GpuCommandList;
use crate::lebytes::wrap32;
use crate::lebytes::wrap_to_i32;
use vstd::prelude::*;

verus! {

/// One extracted vertex position, in raw units at scale 4096.
#[derive(Clone, Copy, Debug, PartialEq, Eq, Structural)]
pub struct VertexPos {
    pub x: i32,
    pub y: i32,
    pub z: i32,
}

/// The extractor's whole state: the running vertex, whether a vertex
/// group is open, and every position emitted so far.
pub struct ExtractState {
    pub cur: VertexPos,
    pub in_group: bool,
    pub verts: Seq<VertexPos>,
}

/// What one command does to the extractor: vertex commands emit a
/// position, group commands open and close, anything else is consumed
/// without positional effect. `None` is a state-machine error.
pub open spec fn vtx_step(st: ExtractState, c: GpuCommand) -> Option<ExtractState> {
    match c {
        GpuCommand::BeginVtxs(_) => {
            if st.in_group {
                None
            } else {
                Some(
                    ExtractState {
                        cur: (VertexPos { x: 0, y: 0, z: 0 }),
                        in_group: true,
                        verts: st.verts,
                    },
                )
            }
        },
        GpuCommand::EndVtxs => {
            if !st.in_group {
                None
            } else {
                Some(ExtractState { cur: st.cur, in_group: false, verts: st.verts })
            }
        },
        GpuCommand::Vtx16(p) => {
            let v = VertexPos { x: p.x.value as i32, y: p.y.value as i32, z: p.z.value as i32 };
            Some(ExtractState { cur: v, in_group: st.in_group, verts: st.verts.push(v) })
        },
        GpuCommand::Vtx10(p) => {
            let v = VertexPos {
                x: (p.x.value as int * 64) as i32,
                y: (p.y.value as int * 64) as i32,
                z: (p.z.value as int * 64) as i32,
            };
            Some(ExtractState { cur: v, in_group: st.in_group, verts: st.verts.push(v) })
        },
        GpuCommand::VtxXY(p) => {
            let v = VertexPos { x: p.x.value as i32, y: p.y.value as i32, z: st.cur.z };
            Some(ExtractState { cur: v, in_group: st.in_group, verts: st.verts.push(v) })
        },
        GpuCommand::VtxXZ(p) => {
            let v = VertexPos { x: p.x.value as i32, y: st.cur.y, z: p.z.value as i32 };
            Some(ExtractState { cur: v, in_group: st.in_group, verts: st.verts.push(v) })
        },
        GpuCommand::VtxYZ(p) => {
            let v = VertexPos { x: st.cur.x, y: p.y.value as i32, z: p.z.value as i32 };
            Some(ExtractState { cur: v, in_group: st.in_group, verts: st.verts.push(v) })
        },
        GpuCommand::VtxDiff(p) => {
            let v = VertexPos {
                x: wrap32(st.cur.x + p.x.value) as i32,
                y: wrap32(st.cur.y + p.y.value) as i32,
                z: wrap32(st.cur.z + p.z.value) as i32,
            };
            Some(ExtractState { cur: v, in_group: st.in_group, verts: st.verts.push(v) })
        },
        _ => Some(st),
    }
}

/// The extractor run over a whole command sequence.
pub open spec fn run_extract(cmds: Seq<GpuCommand>, st: ExtractState) -> Option<ExtractState>
    decreases cmds.len(),
{
    if cmds.len() == 0 {
        Some(st)
    } else {
        match vtx_step(st, cmds[0]) {
            Some(st2) => run_extract(cmds.skip(1), st2),
            None => None,
        }
    }
}

/// A state machine over a GPU command list that collects vertex
/// positions; restart by building a fresh instance.
pub struct MeshRenderCmdVertexPosExtractor<'a> {
    pub render_cmds: &'a GpuCommandList,
    pub current_vertex: VertexPos,
    pub vertices: Vec<VertexPos>,
    pub is_in_vtx_group: bool,
}

impl<'a> MeshRenderCmdVertexPosExtractor<'a> {
    /// The mathematical state of this extractor.
    pub open spec fn state(self) -> ExtractState {
        ExtractState {
            cur: self.current_vertex,
            in_group: self.is_in_vtx_group,
            verts: self.vertices@,
        }
    }

    pub fn new(render_cmds: &'a GpuCommandList) -> (r: MeshRenderCmdVertexPosExtractor<'a>)
        ensures
            r.render_cmds@ == render_cmds@,
            r.state().cur == (VertexPos { x: 0, y: 0, z: 0 }),
            !r.state().in_group,
            r.state().verts.len() == 0,
    {
        MeshRenderCmdVertexPosExtractor {
            render_cmds,
            current_vertex: VertexPos { x: 0, y: 0, z: 0 },
            vertices: Vec::new(),
            is_in_vtx_group: false,
        }
    }

    /// Runs every command in order: exactly the run the step function
    /// describes, or the first state-machine error it hits.
    pub fn execute(&mut self) -> (r: Result<(), AppError>)
        ensures
            match run_extract(old(self).render_cmds@, old(self).state()) {
                Some(st) => r is Ok && final(self).state() == st,
                None => r is Err,
            },
            final(self).render_cmds@ == old(self).render_cmds@,
    {
        let n = self.render_cmds.render_cmds.len();
        let mut i: usize = 0;
        proof {
            assert(self.render_cmds@.skip(0) =~= self.render_cmds@);
        }
        while i < n
            invariant
                i <= n,
                n == self.render_cmds@.len(),
                self.render_cmds@ == old(self).render_cmds@,
                run_extract(old(self).render_cmds@, old(self).state()) == run_extract(
                    self.render_cmds@.skip(i as int),
                    self.state(),
                ),
            decreases n - i,
        {
            let ghost pre = self.state();
            proof {
                assert(self.render_cmds@.skip(i as int)[0] == self.render_cmds@[i as int]);
                assert(self.render_cmds@.skip(i as int).skip(1) =~= self.render_cmds@.skip(i + 1));
            }
            let cmd = self.render_cmds.render_cmds[i];
            match self.execute_command(&cmd) {
                Ok(()) => {},
                Err(e) => {
                    return Err(e);
                },
            }
            i = i + 1;
        }
        proof {
            assert(self.render_cmds@.skip(n as int) =~= Seq::<GpuCommand>::empty());
        }
        Ok(())
    }

    /// The positions collected so far, in emission order.
    pub fn vertices(&self) -> (r: &Vec<VertexPos>)
        ensures
            r@ == self.vertices@,
    {
        &self.vertices
    }

    fn execute_command(&mut self, cmd: &GpuCommand) -> (r: Result<(), AppError>)
        ensures
            final(self).render_cmds@ == old(self).render_cmds@,
            match vtx_step(old(self).state(), *cmd) {
                Some(st) => r is Ok && final(self).state() == st,
                None => r is Err,
            },
    {
        match cmd {
            GpuCommand::BeginVtxs(_) => {
                if self.is_in_vtx_group {
                    return Err(AppError::new("BeginVtxs called while already in a vertex group."));
                }
                self.is_in_vtx_group = true;
                self.current_vertex = VertexPos { x: 0, y: 0, z: 0 };
                Ok(())
            },
            GpuCommand::EndVtxs => {
                if !self.is_in_vtx_group {
                    return Err(AppError::new("EndVtxs called while not in a vertex group."));
                }
                self.is_in_vtx_group = false;
                Ok(())
            },
            GpuCommand::Vtx16(p) => {
                let v = VertexPos { x: p.x.value as i32, y: p.y.value as i32, z: p.z.value as i32 };
                self.current_vertex = v;
                self.vertices.push(v);
                Ok(())
            },
            GpuCommand::Vtx10(p) => {
                let v = VertexPos {
                    x: (p.x.value as i32) * 64,
                    y: (p.y.value as i32) * 64,
                    z: (p.z.value as i32) * 64,
                };
                self.current_vertex = v;
                self.vertices.push(v);
                Ok(())
            },
            GpuCommand::VtxXY(p) => {
                let v = VertexPos { x: p.x.value as i32, y: p.y.value as i32, z: self.current_vertex.z };
                self.current_vertex = v;
                self.vertices.push(v);
                Ok(())
            },
            GpuCommand::VtxXZ(p) => {
                let v = VertexPos { x: p.x.value as i32, y: self.current_vertex.y, z: p.z.value as i32 };
                self.current_vertex = v;
                self.vertices.push(v);
                Ok(())
            },
            GpuCommand::VtxYZ(p) => {
                let v = VertexPos { x: self.current_vertex.x, y: p.y.value as i32, z: p.z.value as i32 };
                self.current_vertex = v;
                self.vertices.push(v);
                Ok(())
            },
            GpuCommand::VtxDiff(p) => {
                let v = VertexPos {
                    x: wrap_to_i32(self.current_vertex.x as i64 + p.x.value as i64),
                    y: wrap_to_i32(self.current_vertex.y as i64 + p.y.value as i64),
                    z: wrap_to_i32(self.current_vertex.z as i64 + p.z.value as i64),
                };
                self.current_vertex = v;
                self.vertices.push(v);
                Ok(())
            },
            _ => Ok(()),
        }
    }
}

} // verus!
