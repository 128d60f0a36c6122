//! Matrix-stack executor: runs over a render command stream, composing
//! bone transforms on a 31-slot fixed-point matrix stack and recording
//! which bone last stored into each slot.

use crate::bone_list::BoneList;
use crate::error::AppError;
use crate::fx_matrix::fx_identity;
use crate::fx_matrix::fx_mul;
use crate::fx_matrix::FxMatrix;
use crate::name::Name;
use crate::render_command_list::RcView;
use crate::render_command_list::RenderCommand;
use crate::render_command_list::RenderCommandList;
use vstd::prelude::*;

verus! {

/// The executor's whole state: the 31 stack slots, the current matrix,
/// and the name of the bone last stored into each slot. Matrices are
/// their 16 raw entries, row-major.
pub struct ExecState {
    pub stack: Seq<Seq<i64>>,
    pub cur: Seq<i64>,
    pub names: Seq<Option<Name>>,
}

/// What one command does to the executor. Stack and bone indices out of
/// range are errors; commands the executor does not model yet leave the
/// state as it is. `None` is an execution error.
pub open spec fn exec_step(st: ExecState, c: RcView, bones: BoneList) -> Option<ExecState> {
    match c {
        RcView::LoadMatrixFromStack(d) => {
            if d.stack_index >= 31 {
                None
            } else {
                Some(ExecState { stack: st.stack, cur: st.stack[d.stack_index as int], names: st.names })
            }
        },
        RcView::MulCurrentMatrixWithBoneMatrix(d) => {
            if !(d.subtype == 0x00 || d.subtype == 0x20 || d.subtype == 0x40 || d.subtype
                == 0x60) {
                None
            } else if d.bone_index as int >= bones.bone_matrices@.len() {
                None
            } else if d.subtype != 0x00 && (d.param_3 is None || d.param_3->0 >= 31) {
                None
            } else if d.subtype == 0x60 && (d.param_4 is None || d.param_4->0 >= 31) {
                None
            } else if d.bone_index as int >= bones.bones.names@.len() {
                None
            } else {
                let loaded = if d.subtype == 0x40 || d.subtype == 0x60 {
                    st.stack[d.param_3->0 as int]
                } else {
                    st.cur
                };
                let bone = bones.bone_matrices@[d.bone_index as int];
                let cur2 = fx_mul(loaded, bone.spec_to_matrix());
                if d.subtype == 0x20 {
                    Some(
                        ExecState {
                            stack: st.stack.update(d.param_3->0 as int, cur2),
                            cur: cur2,
                            names: st.names.update(
                                d.param_3->0 as int,
                                Some(bones.bones.names@[d.bone_index as int]),
                            ),
                        },
                    )
                } else if d.subtype == 0x60 {
                    Some(
                        ExecState {
                            stack: st.stack.update(d.param_4->0 as int, cur2),
                            cur: cur2,
                            names: st.names.update(
                                d.param_4->0 as int,
                                Some(bones.bones.names@[d.bone_index as int]),
                            ),
                        },
                    )
                } else {
                    Some(ExecState { stack: st.stack, cur: cur2, names: st.names })
                }
            }
        },
        _ => Some(st),
    }
}

/// The executor run over a whole command sequence.
pub open spec fn run_exec(cmds: Seq<RcView>, st: ExecState, bones: BoneList) -> Option<ExecState>
    decreases cmds.len(),
{
    if cmds.len() == 0 {
        Some(st)
    } else {
        match exec_step(st, cmds[0], bones) {
            Some(st2) => run_exec(cmds.skip(1), st2, bones),
            None => None,
        }
    }
}

/// The executor run up to but not including the first mesh draw; running
/// out of commands without one is an error.
pub open spec fn run_until_draw(cmds: Seq<RcView>, st: ExecState, bones: BoneList) -> Option<
    ExecState,
>
    decreases cmds.len(),
{
    if cmds.len() == 0 {
        None
    } else if cmds[0] is DrawMesh {
        Some(st)
    } else {
        match exec_step(st, cmds[0], bones) {
            Some(st2) => run_until_draw(cmds.skip(1), st2, bones),
            None => None,
        }
    }
}

/// A state machine over a render command list and the bone list it
/// draws transforms from.
pub struct ModelRenderCmdExecutor<'a> {
    pub render_cmds: &'a RenderCommandList,
    pub bone_list: &'a BoneList,
    pub matrix_stack: Vec<FxMatrix>,
    pub current_matrix: FxMatrix,
    pub loaded_bones_in_matrix: Vec<Option<Name>>,
}

impl<'a> ModelRenderCmdExecutor<'a> {
    /// The stack and the name tracker always hold 31 slots.
    pub open spec fn inv(self) -> bool {
        self.matrix_stack@.len() == 31 && self.loaded_bones_in_matrix@.len() == 31
    }

    /// The mathematical state of this executor.
    pub open spec fn state(self) -> ExecState {
        ExecState {
            stack: self.matrix_stack@.map_values(|m: FxMatrix| m.m@),
            cur: self.current_matrix.m@,
            names: self.loaded_bones_in_matrix@,
        }
    }

    /// A fresh executor: every slot the identity, no bone recorded
    /// anywhere, the current matrix the identity.
    pub fn new(render_cmds: &'a RenderCommandList, bone_list: &'a BoneList) -> (r:
        ModelRenderCmdExecutor<'a>)
        ensures
            r.inv(),
            r.render_cmds@ == render_cmds@,
            r.bone_list == bone_list,
            forall|i: int| 0 <= i < 31 ==> (#[trigger] r.matrix_stack@[i]).m@ == fx_identity(),
            forall|i: int| 0 <= i < 31 ==> (#[trigger] r.loaded_bones_in_matrix@[i]) is None,
            r.current_matrix.m@ == fx_identity(),
    {
        let mut matrix_stack: Vec<FxMatrix> = Vec::new();
        let mut names: Vec<Option<Name>> = Vec::new();
        let mut i: usize = 0;
        while i < 31
            invariant
                i <= 31,
                matrix_stack@.len() == i,
                names@.len() == i,
                forall|k: int| 0 <= k < i ==> (#[trigger] matrix_stack@[k]).m@ == fx_identity(),
                forall|k: int| 0 <= k < i ==> (#[trigger] names@[k]) is None,
            decreases 31 - i,
        {
            matrix_stack.push(FxMatrix::identity());
            names.push(None);
            i = i + 1;
        }
        ModelRenderCmdExecutor {
            render_cmds,
            bone_list,
            matrix_stack,
            current_matrix: FxMatrix::identity(),
            loaded_bones_in_matrix: names,
        }
    }

    /// Runs every command in order: exactly the run the step function
    /// describes, or the first execution error it hits.
    pub fn execute(&mut self) -> (r: Result<(), AppError>)
        requires
            old(self).inv(),
            old(self).bone_list.wf(),
        ensures
            final(self).inv(),
            final(self).render_cmds@ == old(self).render_cmds@,
            final(self).bone_list == old(self).bone_list,
            match run_exec(old(self).render_cmds@, old(self).state(), *old(self).bone_list) {
                Some(st) => r is Ok && final(self).state() == st,
                None => r is Err,
            },
    {
        let n = self.render_cmds.render_commands.len();
        let mut i: usize = 0;
        proof {
            assert(self.render_cmds@.skip(0) =~= self.render_cmds@);
        }
        while i < n
            invariant
                i <= n,
                n == self.render_cmds@.len(),
                self.inv(),
                self.bone_list.wf(),
                self.render_cmds@ == old(self).render_cmds@,
                self.bone_list == old(self).bone_list,
                run_exec(old(self).render_cmds@, old(self).state(), *old(self).bone_list)
                    == run_exec(self.render_cmds@.skip(i as int), self.state(), *self.bone_list),
            decreases n - i,
        {
            proof {
                assert(self.render_cmds@.skip(i as int)[0] == self.render_cmds@[i as int]);
                assert(self.render_cmds@.skip(i as int).skip(1) =~= self.render_cmds@.skip(i + 1));
                assert(self.render_cmds.render_commands@[i as int]@
                    == self.render_cmds@[i as int]);
            }
            let ghost pre = self.state();
            let outcome = self.execute_index(i);
            match outcome {
                Ok(()) => {},
                Err(e) => {
                    return Err(e);
                },
            }
            i = i + 1;
        }
        proof {
            assert(self.render_cmds@.skip(n as int) =~= Seq::<RcView>::empty());
        }
        Ok(())
    }

    /// Runs commands until the first mesh draw and stops there with
    /// success, so the pose right before the draw can be read off; a
    /// stream that ends without a draw is an error.
    pub fn execute_until_next_mesh_draw(&mut self) -> (r: Result<(), AppError>)
        requires
            old(self).inv(),
            old(self).bone_list.wf(),
        ensures
            final(self).inv(),
            final(self).render_cmds@ == old(self).render_cmds@,
            final(self).bone_list == old(self).bone_list,
            match run_until_draw(old(self).render_cmds@, old(self).state(), *old(self).bone_list) {
                Some(st) => r is Ok && final(self).state() == st,
                None => r is Err,
            },
    {
        let n = self.render_cmds.render_commands.len();
        let mut i: usize = 0;
        proof {
            assert(self.render_cmds@.skip(0) =~= self.render_cmds@);
        }
        while i < n
            invariant
                i <= n,
                n == self.render_cmds@.len(),
                self.inv(),
                self.bone_list.wf(),
                self.render_cmds@ == old(self).render_cmds@,
                self.bone_list == old(self).bone_list,
                run_until_draw(old(self).render_cmds@, old(self).state(), *old(self).bone_list)
                    == run_until_draw(
                    self.render_cmds@.skip(i as int),
                    self.state(),
                    *self.bone_list,
                ),
            decreases n - i,
        {
            proof {
                assert(self.render_cmds@.skip(i as int)[0] == self.render_cmds@[i as int]);
                assert(self.render_cmds@.skip(i as int).skip(1) =~= self.render_cmds@.skip(i + 1));
                assert(self.render_cmds.render_commands@[i as int]@
                    == self.render_cmds@[i as int]);
            }
            let is_draw = matches!(
                &self.render_cmds.render_commands[i],
                RenderCommand::DrawMesh(_)
            );
            if is_draw {
                return Ok(());
            }
            let outcome = self.execute_index(i);
            match outcome {
                Ok(()) => {},
                Err(e) => {
                    return Err(e);
                },
            }
            i = i + 1;
        }
        proof {
            assert(self.render_cmds@.skip(n as int) =~= Seq::<RcView>::empty());
        }
        Err(AppError::new("No DrawMesh command found in the render command list."))
    }

    /// The 31 stack slots.
    pub fn matrix_stack(&self) -> (r: &Vec<FxMatrix>)
        ensures
            r@ == self.matrix_stack@,
    {
        &self.matrix_stack
    }

    /// Which bone last stored into each slot, if any.
    pub fn loaded_bones_in_matrix(&self) -> (r: &Vec<Option<Name>>)
        ensures
            r@ == self.loaded_bones_in_matrix@,
    {
        &self.loaded_bones_in_matrix
    }

    fn execute_index(&mut self, i: usize) -> (r: Result<(), AppError>)
        requires
            old(self).inv(),
            old(self).bone_list.wf(),
            i < old(self).render_cmds@.len(),
        ensures
            final(self).inv(),
            final(self).render_cmds@ == old(self).render_cmds@,
            final(self).bone_list == old(self).bone_list,
            match exec_step(
                old(self).state(),
                old(self).render_cmds@[i as int],
                *old(self).bone_list,
            ) {
                Some(st) => r is Ok && final(self).state() == st,
                None => r is Err,
            },
    {
        proof {
            assert(self.render_cmds.render_commands@[i as int]@ == self.render_cmds@[i as int]);
        }
        let cmd = &self.render_cmds.render_commands[i];
        match cmd {
            RenderCommand::LoadMatrixFromStack(d) => {
                if d.stack_index >= 31 {
                    return Err(AppError::new("LoadMatrixFromStack: invalid stack index"));
                }
                self.current_matrix = self.matrix_stack[d.stack_index as usize];
                Ok(())
            },
            RenderCommand::MulCurrentMatrixWithBoneMatrix(d) => {
                if !(d.subtype == 0x00 || d.subtype == 0x20 || d.subtype == 0x40 || d.subtype
                    == 0x60) {
                    return Err(AppError::new("MulCurrentMatrixWithBoneMatrix: unknown subtype"));
                }
                if d.bone_index as usize >= self.bone_list.bone_matrices.len() {
                    return Err(AppError::new("MulCurrentMatrixWithBoneMatrix: invalid bone index"));
                }
                let p3: u8 = match d.param_3 {
                    Some(v) => v,
                    None => 0,
                };
                if d.subtype != 0x00 && (d.param_3.is_none() || p3 >= 31) {
                    return Err(
                        AppError::new("MulCurrentMatrixWithBoneMatrix: invalid stack slot"),
                    );
                }
                let p4: u8 = match d.param_4 {
                    Some(v) => v,
                    None => 0,
                };
                if d.subtype == 0x60 && (d.param_4.is_none() || p4 >= 31) {
                    return Err(
                        AppError::new("MulCurrentMatrixWithBoneMatrix: invalid stack slot"),
                    );
                }
                let loaded: FxMatrix = if d.subtype == 0x40 || d.subtype == 0x60 {
                    self.matrix_stack[p3 as usize]
                } else {
                    self.current_matrix
                };
                let bone = match self.bone_list.get_bone_matrix(d.bone_index as usize) {
                    Some(b) => b,
                    None => {
                        proof {
                            assert(false);
                        }
                        return Err(AppError::new("MulCurrentMatrixWithBoneMatrix: missing bone"));
                    },
                };
                let bone_matrix = bone.to_matrix();
                let cur2 = loaded.mul(&bone_matrix);
                self.current_matrix = cur2;
                proof {
                    let st0 = old(self).state();
                    assert(st0.stack.len() == 31);
                }
                if d.subtype == 0x20 {
                    let name = match self.bone_list.get_name(d.bone_index as usize) {
                        Some(nm) => nm.clone_name(),
                        None => {
                            proof {
                                assert(false);
                            }
                            return Err(
                                AppError::new("MulCurrentMatrixWithBoneMatrix: missing name"),
                            );
                        },
                    };
                    self.matrix_stack.set(p3 as usize, cur2);
                    self.loaded_bones_in_matrix.set(p3 as usize, Some(name));
                    proof {
                        assert(self.matrix_stack@.map_values(|m: FxMatrix| m.m@)
                            =~= old(self).matrix_stack@.map_values(|m: FxMatrix| m.m@).update(
                            p3 as int,
                            cur2.m@,
                        ));
                    }
                } else if d.subtype == 0x60 {
                    let name = match self.bone_list.get_name(d.bone_index as usize) {
                        Some(nm) => nm.clone_name(),
                        None => {
                            proof {
                                assert(false);
                            }
                            return Err(
                                AppError::new("MulCurrentMatrixWithBoneMatrix: missing name"),
                            );
                        },
                    };
                    self.matrix_stack.set(p4 as usize, cur2);
                    self.loaded_bones_in_matrix.set(p4 as usize, Some(name));
                    proof {
                        assert(self.matrix_stack@.map_values(|m: FxMatrix| m.m@)
                            =~= old(self).matrix_stack@.map_values(|m: FxMatrix| m.m@).update(
                            p4 as int,
                            cur2.m@,
                        ));
                    }
                }
                Ok(())
            },
            _ => Ok(()),
        }
    }
}

} // verus!
