//! The render command stream: a byte-granular opcode sequence driving
//! bone-matrix composition and mesh draws, terminated by a mandatory `End`
//! command. Each opcode byte holds a 5-bit command code and a 3-bit subtype.

use crate::error::AppError;
use crate::lebytes::read_u8;
use crate::lebytes::write_u8;
use vstd::prelude::*;
use vstd::slice::slice_subrange;

verus! {

/// The 3-bit subtype stored in the high bits of an opcode byte whose low
/// five bits hold `code`.
pub open spec fn rc_subtype_of(op: u8) -> int {
    op as int - (op as int % 0x20)
}

/// The 5-bit command code of an opcode byte.
pub open spec fn rc_code_of(op: u8) -> int {
    op as int % 0x20
}

/// A subtype value occupies only the high three bits.
pub open spec fn subtype_ok(subtype: u8) -> bool {
    subtype as int % 0x20 == 0
}

/// No-operation entry; three subtypes occur in files.
#[derive(Clone, Copy, Debug, PartialEq, Eq, Structural)]
pub struct NopData {
    pub subtype: u8,
}

impl NopData {
    pub open spec fn wf(self) -> bool {
        self.subtype == 0x00 || self.subtype == 0x40 || self.subtype == 0x80
    }

    pub fn from_bytes(op_code: u8) -> (r: Result<NopData, AppError>)
        ensures
            r is Ok <==> (rc_subtype_of(op_code) == 0x00 || rc_subtype_of(op_code) == 0x40
                || rc_subtype_of(op_code) == 0x80),
            r is Ok ==> r->Ok_0 == (NopData { subtype: rc_subtype_of(op_code) as u8 }) && r->Ok_0.wf(),
            r is Err ==> r->Err_0@ == "Invalid Nop subtype "@ + crate::error::u8_decimal(
                rc_subtype_of(op_code),
            ),
    {
        let subtype = op_code - op_code % 0x20;
        if subtype != 0x00 && subtype != 0x40 && subtype != 0x80 {
            return Err(AppError::with_byte("Invalid Nop subtype ", subtype));
        }
        Ok(NopData { subtype })
    }
}

/// Undecoded two-byte payload of opcode 0x02.
#[derive(Clone, Copy, Debug, PartialEq, Eq, Structural)]
pub struct Unknown0x02Data {
    pub unknown_0: u8,
    pub unknown_1: u8,
}

impl Unknown0x02Data {
    pub fn from_bytes(data: &[u8]) -> (r: Result<Unknown0x02Data, AppError>)
        ensures
            r is Ok <==> data@.len() >= 2,
            r is Ok ==> r->Ok_0 == (Unknown0x02Data { unknown_0: data@[0], unknown_1: data@[1] }),
    {
        if data.len() < 2 {
            return Err(AppError::new("Unknown0x02Data needs at least 2 bytes"));
        }
        Ok(Unknown0x02Data { unknown_0: read_u8(data, 0), unknown_1: read_u8(data, 1) })
    }
}

/// Loads the current matrix from a stack slot.
#[derive(Clone, Copy, Debug, PartialEq, Eq, Structural)]
pub struct LoadMatrixFromStackData {
    pub stack_index: u8,
}

impl LoadMatrixFromStackData {
    pub fn from_bytes(data: &[u8]) -> (r: Result<LoadMatrixFromStackData, AppError>)
        ensures
            r is Ok <==> data@.len() >= 1,
            r is Ok ==> r->Ok_0 == (LoadMatrixFromStackData { stack_index: data@[0] }),
    {
        if data.len() < 1 {
            return Err(AppError::new("LoadMatrixFromStackData needs at least 1 byte"));
        }
        Ok(LoadMatrixFromStackData { stack_index: read_u8(data, 0) })
    }
}

/// Binds a material for the following draws.
#[derive(Clone, Copy, Debug, PartialEq, Eq, Structural)]
pub struct BindMaterialData {
    pub subtype: u8,
    pub material_index: u8,
}

impl BindMaterialData {
    pub open spec fn wf(self) -> bool {
        self.subtype == 0x00 || self.subtype == 0x20 || self.subtype == 0x40
    }

    pub fn from_bytes(op_code: u8, data: &[u8]) -> (r: Result<BindMaterialData, AppError>)
        ensures
            r is Ok <==> data@.len() >= 1 && (rc_subtype_of(op_code) == 0x00 || rc_subtype_of(
                op_code,
            ) == 0x20 || rc_subtype_of(op_code) == 0x40),
            r is Ok ==> r->Ok_0 == (BindMaterialData {
                subtype: rc_subtype_of(op_code) as u8,
                material_index: data@[0],
            }) && r->Ok_0.wf(),
            data@.len() >= 1 && !(rc_subtype_of(op_code) == 0x00 || rc_subtype_of(op_code)
                == 0x20 || rc_subtype_of(op_code) == 0x40) ==> r->Err_0@
                == "Invalid BindMaterial subtype "@ + crate::error::u8_decimal(
                rc_subtype_of(op_code),
            ),
    {
        if data.len() < 1 {
            return Err(AppError::new("BindMaterialData needs at least 1 byte"));
        }
        let subtype = op_code - op_code % 0x20;
        if subtype != 0x00 && subtype != 0x20 && subtype != 0x40 {
            return Err(AppError::with_byte("Invalid BindMaterial subtype ", subtype));
        }
        Ok(BindMaterialData { subtype, material_index: read_u8(data, 0) })
    }
}

/// Draws one mesh with the current state.
#[derive(Clone, Copy, Debug, PartialEq, Eq, Structural)]
pub struct DrawMeshData {
    pub mesh_index: u8,
}

impl DrawMeshData {
    pub fn from_bytes(data: &[u8]) -> (r: Result<DrawMeshData, AppError>)
        ensures
            r is Ok <==> data@.len() >= 1,
            r is Ok ==> r->Ok_0 == (DrawMeshData { mesh_index: data@[0] }),
    {
        if data.len() < 1 {
            return Err(AppError::new("DrawMeshData needs at least 1 byte"));
        }
        Ok(DrawMeshData { mesh_index: read_u8(data, 0) })
    }
}

/// Multiplies the current matrix by a bone matrix, with an optional stack
/// load before and an optional stack store after, selected by the subtype.
#[derive(Clone, Copy, Debug, PartialEq, Eq, Structural)]
pub struct MulCurrentMatrixWithBoneMatrixData {
    pub subtype: u8,
    pub bone_index: u8,
    pub parent_index: u8,
    pub unknown: u8,
    pub param_3: Option<u8>,
    pub param_4: Option<u8>,
}

impl MulCurrentMatrixWithBoneMatrixData {
    pub open spec fn wf(self) -> bool {
        ||| (self.subtype == 0x00 && self.param_3 is None && self.param_4 is None)
        ||| ((self.subtype == 0x20 || self.subtype == 0x40) && self.param_3 is Some
            && self.param_4 is None)
        ||| (self.subtype == 0x60 && self.param_3 is Some && self.param_4 is Some)
    }

    /// The payload length for this subtype, opcode byte not counted.
    pub open spec fn spec_len(self) -> int {
        if self.subtype == 0x00 {
            3
        } else if self.subtype == 0x20 || self.subtype == 0x40 {
            4
        } else {
            5
        }
    }

    pub open spec fn dec(op_code: u8, data: Seq<u8>) -> Self {
        let subtype = rc_subtype_of(op_code) as u8;
        (MulCurrentMatrixWithBoneMatrixData {
            subtype,
            bone_index: data[0],
            parent_index: data[1],
            unknown: data[2],
            param_3: if subtype == 0x00 {
                None
            } else {
                Some(data[3])
            },
            param_4: if subtype == 0x60 {
                Some(data[4])
            } else {
                None
            },
        })
    }

    pub fn from_bytes(op_code: u8, data: &[u8]) -> (r: Result<
        MulCurrentMatrixWithBoneMatrixData,
        AppError,
    >)
        ensures
            r is Ok <==> (rc_subtype_of(op_code) == 0x00 && data@.len() >= 3) || ((rc_subtype_of(
                op_code,
            ) == 0x20 || rc_subtype_of(op_code) == 0x40) && data@.len() >= 4) || (rc_subtype_of(
                op_code,
            ) == 0x60 && data@.len() >= 5),
            r is Ok ==> r->Ok_0 == MulCurrentMatrixWithBoneMatrixData::dec(op_code, data@)
                && r->Ok_0.wf(),
            !(rc_subtype_of(op_code) == 0x00 || rc_subtype_of(op_code) == 0x20 || rc_subtype_of(
                op_code,
            ) == 0x40 || rc_subtype_of(op_code) == 0x60) ==> r->Err_0@
                == "Invalid MulCurrentMatrixWithBoneMatrix subtype "@ + crate::error::u8_decimal(
                rc_subtype_of(op_code),
            ),
    {
        let subtype = op_code - op_code % 0x20;
        if subtype == 0x00 {
            if data.len() < 3 {
                return Err(
                    AppError::new("MulCurrentMatrixWithBoneMatrixData needs at least 3 bytes"),
                );
            }
            Ok(MulCurrentMatrixWithBoneMatrixData {
                subtype,
                bone_index: read_u8(data, 0),
                parent_index: read_u8(data, 1),
                unknown: read_u8(data, 2),
                param_3: None,
                param_4: None,
            })
        } else if subtype == 0x20 || subtype == 0x40 {
            if data.len() < 4 {
                return Err(
                    AppError::new("MulCurrentMatrixWithBoneMatrixData needs at least 4 bytes"),
                );
            }
            Ok(MulCurrentMatrixWithBoneMatrixData {
                subtype,
                bone_index: read_u8(data, 0),
                parent_index: read_u8(data, 1),
                unknown: read_u8(data, 2),
                param_3: Some(read_u8(data, 3)),
                param_4: None,
            })
        } else if subtype == 0x60 {
            if data.len() < 5 {
                return Err(
                    AppError::new("MulCurrentMatrixWithBoneMatrixData needs at least 5 bytes"),
                );
            }
            Ok(MulCurrentMatrixWithBoneMatrixData {
                subtype,
                bone_index: read_u8(data, 0),
                parent_index: read_u8(data, 1),
                unknown: read_u8(data, 2),
                param_3: Some(read_u8(data, 3)),
                param_4: Some(read_u8(data, 4)),
            })
        } else {
            Err(AppError::with_byte("Invalid MulCurrentMatrixWithBoneMatrix subtype ", subtype))
        }
    }

    /// The payload length of this entry.
    pub fn len(&self) -> (r: usize)
        requires
            self.wf(),
        ensures
            r == self.spec_len(),
    {
        if self.subtype == 0x00 {
            3
        } else if self.subtype == 0x20 || self.subtype == 0x40 {
            4
        } else {
            5
        }
    }
}

/// Undecoded one-byte payload of opcode 0x07, subtype kept.
#[derive(Clone, Copy, Debug, PartialEq, Eq, Structural)]
pub struct Unknown0x07Data {
    pub subtype: u8,
    pub unknown: u8,
}

impl Unknown0x07Data {
    pub open spec fn wf(self) -> bool {
        subtype_ok(self.subtype)
    }

    pub fn from_bytes(op_code: u8, data: &[u8]) -> (r: Result<Unknown0x07Data, AppError>)
        ensures
            r is Ok <==> data@.len() >= 1,
            r is Ok ==> r->Ok_0 == (Unknown0x07Data {
                subtype: rc_subtype_of(op_code) as u8,
                unknown: data@[0],
            }) && r->Ok_0.wf(),
    {
        if data.len() < 1 {
            return Err(AppError::new("Unknown0x07Data needs at least 1 byte"));
        }
        let subtype = op_code - op_code % 0x20;
        Ok(Unknown0x07Data { subtype, unknown: read_u8(data, 0) })
    }
}

/// Undecoded one-byte payload of opcode 0x08.
#[derive(Clone, Copy, Debug, PartialEq, Eq, Structural)]
pub struct Unknown0x08Data {
    pub unknown: u8,
}

impl Unknown0x08Data {
    pub fn from_bytes(data: &[u8]) -> (r: Result<Unknown0x08Data, AppError>)
        ensures
            r is Ok <==> data@.len() >= 1,
            r is Ok ==> r->Ok_0 == (Unknown0x08Data { unknown: data@[0] }),
    {
        if data.len() < 1 {
            return Err(AppError::new("Unknown0x08Data needs at least 1 byte"));
        }
        Ok(Unknown0x08Data { unknown: read_u8(data, 0) })
    }
}

/// One blend term of the skinning equation.
#[derive(Clone, Copy, Debug, PartialEq, Eq, Structural)]
pub struct SkinningEquationTerm {
    pub matrix_index: u8,
    pub inv_bind_index: u8,
    pub weight: u8,
}

/// The terms of `data` starting at offset 2, three bytes each.
pub open spec fn dec_terms(data: Seq<u8>, n: int) -> Seq<SkinningEquationTerm> {
    Seq::new(
        n as nat,
        |i: int|
            SkinningEquationTerm {
                matrix_index: data[2 + 3 * i],
                inv_bind_index: data[3 + 3 * i],
                weight: data[4 + 3 * i],
            },
    )
}

/// The byte run of a term sequence.
pub open spec fn enc_terms(ts: Seq<SkinningEquationTerm>) -> Seq<u8>
    decreases ts.len(),
{
    if ts.len() == 0 {
        Seq::empty()
    } else {
        seq![ts[0].matrix_index, ts[0].inv_bind_index, ts[0].weight] + enc_terms(ts.skip(1))
    }
}

pub proof fn lemma_enc_terms_len(ts: Seq<SkinningEquationTerm>)
    ensures
        enc_terms(ts).len() == 3 * ts.len(),
        forall|i: int|
            0 <= i < ts.len() ==> enc_terms(ts)[3 * i] == (#[trigger] ts[i]).matrix_index
                && enc_terms(ts)[3 * i + 1] == ts[i].inv_bind_index && enc_terms(ts)[3 * i + 2]
                == ts[i].weight,
    decreases ts.len(),
{
    if ts.len() > 0 {
        lemma_enc_terms_len(ts.skip(1));
        assert forall|i: int| 0 <= i < ts.len() implies enc_terms(ts)[3 * i] == (
        #[trigger] ts[i]).matrix_index && enc_terms(ts)[3 * i + 1] == ts[i].inv_bind_index
            && enc_terms(ts)[3 * i + 2] == ts[i].weight by {
            if i > 0 {
                assert(ts.skip(1)[i - 1] == ts[i]);
                assert(enc_terms(ts)[3 * i] == enc_terms(ts.skip(1))[3 * (i - 1)]);
                assert(enc_terms(ts)[3 * i + 1] == enc_terms(ts.skip(1))[3 * (i - 1) + 1]);
                assert(enc_terms(ts)[3 * i + 2] == enc_terms(ts.skip(1))[3 * (i - 1) + 2]);
            }
        };
    }
}

/// Blends bone matrices with inverse-bind matrices into a stack slot.
#[derive(Clone, Debug)]
pub struct CalculateSkinningEquationData {
    pub store_index: u8,
    pub num_terms: u8,
    pub terms: Vec<SkinningEquationTerm>,
}

impl CalculateSkinningEquationData {
    pub open spec fn wf(self) -> bool {
        self.num_terms as int == self.terms@.len()
    }

    pub open spec fn spec_len(self) -> int {
        2 + 3 * self.num_terms as int
    }

    pub fn from_bytes(data: &[u8]) -> (r: Result<CalculateSkinningEquationData, AppError>)
        ensures
            r is Ok <==> data@.len() >= 2 && data@.len() >= 2 + 3 * (data@[1] as int),
            r is Ok ==> r->Ok_0.wf() && r->Ok_0.store_index == data@[0] && r->Ok_0.num_terms
                == data@[1] && r->Ok_0.terms@ == dec_terms(data@, data@[1] as int),
    {
        if data.len() < 2 {
            return Err(AppError::new("CalculateSkinningEquationData needs at least 2 bytes"));
        }
        let store_index = read_u8(data, 0);
        let num_terms = read_u8(data, 1);
        if data.len() < 2 + 3 * (num_terms as usize) {
            return Err(
                AppError::new("CalculateSkinningEquationData needs at least 2 + 3 bytes per term"),
            );
        }
        let mut terms: Vec<SkinningEquationTerm> = Vec::new();
        let mut i: usize = 0;
        while i < num_terms as usize
            invariant
                i <= num_terms as int,
                data@.len() >= 2 + 3 * (num_terms as int),
                terms@.len() == i,
                forall|k: int|
                    0 <= k < i ==> terms@[k] == dec_terms(data@, num_terms as int)[k],
            decreases num_terms as int - i,
        {
            let t = SkinningEquationTerm {
                matrix_index: read_u8(data, 2 + 3 * i),
                inv_bind_index: read_u8(data, 3 + 3 * i),
                weight: read_u8(data, 4 + 3 * i),
            };
            terms.push(t);
            i = i + 1;
        }
        proof {
            assert(terms@ =~= dec_terms(data@, num_terms as int));
        }
        Ok(CalculateSkinningEquationData { store_index, num_terms, terms })
    }

    /// The payload length of this entry.
    pub fn len(&self) -> (r: usize)
        requires
            self.spec_len() <= usize::MAX,
        ensures
            r == self.spec_len(),
    {
        2 + 3 * (self.num_terms as usize)
    }
}

/// Scales the current matrix by the model scale factor.
#[derive(Clone, Copy, Debug, PartialEq, Eq, Structural)]
pub struct ScaleData {
    pub subtype: u8,
}

impl ScaleData {
    pub open spec fn wf(self) -> bool {
        self.subtype == 0x00 || self.subtype == 0x20
    }

    pub fn from_bytes(op_code: u8) -> (r: Result<ScaleData, AppError>)
        ensures
            r is Ok <==> (rc_subtype_of(op_code) == 0x00 || rc_subtype_of(op_code) == 0x20),
            r is Ok ==> r->Ok_0 == (ScaleData { subtype: rc_subtype_of(op_code) as u8 })
                && r->Ok_0.wf(),
            r is Err ==> r->Err_0@ == "Invalid Scale subtype "@ + crate::error::u8_decimal(
                rc_subtype_of(op_code),
            ),
    {
        let subtype = op_code - op_code % 0x20;
        if subtype != 0x00 && subtype != 0x20 {
            return Err(AppError::with_byte("Invalid Scale subtype ", subtype));
        }
        Ok(ScaleData { subtype })
    }
}

/// Undecoded two-byte payload of opcode 0x0C.
#[derive(Clone, Copy, Debug, PartialEq, Eq, Structural)]
pub struct Unknown0x0CData {
    pub unknown_0: u8,
    pub unknown_1: u8,
}

impl Unknown0x0CData {
    pub fn from_bytes(data: &[u8]) -> (r: Result<Unknown0x0CData, AppError>)
        ensures
            r is Ok <==> data@.len() >= 2,
            r is Ok ==> r->Ok_0 == (Unknown0x0CData { unknown_0: data@[0], unknown_1: data@[1] }),
    {
        if data.len() < 2 {
            return Err(AppError::new("Unknown0x0CData needs at least 2 bytes"));
        }
        Ok(Unknown0x0CData { unknown_0: read_u8(data, 0), unknown_1: read_u8(data, 1) })
    }
}

/// Undecoded two-byte payload of opcode 0x0D.
#[derive(Clone, Copy, Debug, PartialEq, Eq, Structural)]
pub struct Unknown0x0DData {
    pub unknown_0: u8,
    pub unknown_1: u8,
}

impl Unknown0x0DData {
    pub fn from_bytes(data: &[u8]) -> (r: Result<Unknown0x0DData, AppError>)
        ensures
            r is Ok <==> data@.len() >= 2,
            r is Ok ==> r->Ok_0 == (Unknown0x0DData { unknown_0: data@[0], unknown_1: data@[1] }),
    {
        if data.len() < 2 {
            return Err(AppError::new("Unknown0x0DData needs at least 2 bytes"));
        }
        Ok(Unknown0x0DData { unknown_0: read_u8(data, 0), unknown_1: read_u8(data, 1) })
    }
}

/// One decoded render command, one variant per command code.
#[derive(Clone, Debug)]
pub enum RenderCommand {
    Nop(NopData),
    End,
    Unknown0x02(Unknown0x02Data),
    LoadMatrixFromStack(LoadMatrixFromStackData),
    BindMaterial(BindMaterialData),
    DrawMesh(DrawMeshData),
    MulCurrentMatrixWithBoneMatrix(MulCurrentMatrixWithBoneMatrixData),
    Unknown0x07(Unknown0x07Data),
    Unknown0x08(Unknown0x08Data),
    CalculateSkinningEquation(CalculateSkinningEquationData),
    Scale(ScaleData),
    Unknown0x0C(Unknown0x0CData),
    Unknown0x0D(Unknown0x0DData),
}

/// The mathematical shape of a skinning-equation command: its terms as a
/// sequence.
pub struct SkinView {
    pub store_index: u8,
    pub num_terms: u8,
    pub terms: Seq<SkinningEquationTerm>,
}

/// The mathematical shape of a render command, over which the byte codec
/// is specified.
pub enum RcView {
    Nop(NopData),
    End,
    Unknown0x02(Unknown0x02Data),
    LoadMatrixFromStack(LoadMatrixFromStackData),
    BindMaterial(BindMaterialData),
    DrawMesh(DrawMeshData),
    MulCurrentMatrixWithBoneMatrix(MulCurrentMatrixWithBoneMatrixData),
    Unknown0x07(Unknown0x07Data),
    Unknown0x08(Unknown0x08Data),
    CalculateSkinningEquation(SkinView),
    Scale(ScaleData),
    Unknown0x0C(Unknown0x0CData),
    Unknown0x0D(Unknown0x0DData),
}

impl View for RenderCommand {
    type V = RcView;

    open spec fn view(&self) -> RcView {
        match self {
            RenderCommand::Nop(d) => RcView::Nop(*d),
            RenderCommand::End => RcView::End,
            RenderCommand::Unknown0x02(d) => RcView::Unknown0x02(*d),
            RenderCommand::LoadMatrixFromStack(d) => RcView::LoadMatrixFromStack(*d),
            RenderCommand::BindMaterial(d) => RcView::BindMaterial(*d),
            RenderCommand::DrawMesh(d) => RcView::DrawMesh(*d),
            RenderCommand::MulCurrentMatrixWithBoneMatrix(d) => (
            RcView::MulCurrentMatrixWithBoneMatrix(*d)),
            RenderCommand::Unknown0x07(d) => RcView::Unknown0x07(*d),
            RenderCommand::Unknown0x08(d) => RcView::Unknown0x08(*d),
            RenderCommand::CalculateSkinningEquation(d) => (RcView::CalculateSkinningEquation(
                SkinView {
                    store_index: d.store_index,
                    num_terms: d.num_terms,
                    terms: d.terms@,
                },
            )),
            RenderCommand::Scale(d) => RcView::Scale(*d),
            RenderCommand::Unknown0x0C(d) => RcView::Unknown0x0C(*d),
            RenderCommand::Unknown0x0D(d) => RcView::Unknown0x0D(*d),
        }
    }
}

/// The views of a command sequence, in order.
pub open spec fn rc_views(s: Seq<RenderCommand>) -> Seq<RcView> {
    s.map_values(|c: RenderCommand| c@)
}

impl RcView {
    /// Subtype-carrying fields hold only their three high bits, and option
    /// payloads match their subtype.
    pub open spec fn wf(self) -> bool {
        match self {
            RcView::Nop(d) => d.wf(),
            RcView::BindMaterial(d) => d.wf(),
            RcView::MulCurrentMatrixWithBoneMatrix(d) => d.wf(),
            RcView::Unknown0x07(d) => d.wf(),
            RcView::CalculateSkinningEquation(d) => d.num_terms as int == d.terms.len(),
            RcView::Scale(d) => d.wf(),
            _ => true,
        }
    }

    /// The full encoding of this command: its opcode byte, then its
    /// payload.
    pub open spec fn enc(self) -> Seq<u8> {
        match self {
            RcView::Nop(d) => seq![d.subtype],
            RcView::End => seq![1u8],
            RcView::Unknown0x02(d) => seq![2u8, d.unknown_0, d.unknown_1],
            RcView::LoadMatrixFromStack(d) => seq![3u8, d.stack_index],
            RcView::BindMaterial(d) => seq![((4 + d.subtype as int) as u8), d.material_index],
            RcView::DrawMesh(d) => seq![5u8, d.mesh_index],
            RcView::MulCurrentMatrixWithBoneMatrix(d) => seq![
                ((6 + d.subtype as int) as u8),
                d.bone_index,
                d.parent_index,
                d.unknown,
            ] + (if d.subtype == 0x00 {
                Seq::empty()
            } else {
                seq![d.param_3->0]
            }) + (if d.subtype == 0x60 {
                seq![d.param_4->0]
            } else {
                Seq::empty()
            }),
            RcView::Unknown0x07(d) => seq![((7 + d.subtype as int) as u8), d.unknown],
            RcView::Unknown0x08(d) => seq![8u8, d.unknown],
            RcView::CalculateSkinningEquation(d) => seq![9u8, d.store_index, d.num_terms]
                + enc_terms(d.terms),
            RcView::Scale(d) => seq![((0x0B + d.subtype as int) as u8)],
            RcView::Unknown0x0C(d) => seq![0x0Cu8, d.unknown_0, d.unknown_1],
            RcView::Unknown0x0D(d) => seq![0x0Du8, d.unknown_0, d.unknown_1],
        }
    }

    /// Decodes the command starting at `bytes[0]`, with the byte count it
    /// occupies: `None` on an unknown opcode, an invalid subtype, or a
    /// truncated payload.
    pub open spec fn dec_one(bytes: Seq<u8>) -> Option<(RcView, int)>
        recommends
            bytes.len() >= 1,
    {
        let op = bytes[0];
        let code = rc_code_of(op);
        let subtype = rc_subtype_of(op);
        if code == 0x00 {
            if subtype == 0x00 || subtype == 0x40 || subtype == 0x80 {
                Some((RcView::Nop(NopData { subtype: subtype as u8 }), 1))
            } else {
                None
            }
        } else if code == 0x01 {
            Some((RcView::End, 1))
        } else if code == 0x02 {
            if bytes.len() >= 3 {
                Some(
                    (
                        RcView::Unknown0x02(
                            Unknown0x02Data { unknown_0: bytes[1], unknown_1: bytes[2] },
                        ),
                        3,
                    ),
                )
            } else {
                None
            }
        } else if code == 0x03 {
            if bytes.len() >= 2 {
                Some(
                    (RcView::LoadMatrixFromStack(LoadMatrixFromStackData { stack_index: bytes[1] }), 2),
                )
            } else {
                None
            }
        } else if code == 0x04 {
            if bytes.len() >= 2 && (subtype == 0x00 || subtype == 0x20 || subtype == 0x40) {
                Some(
                    (
                        RcView::BindMaterial(
                            BindMaterialData {
                                subtype: subtype as u8,
                                material_index: bytes[1],
                            },
                        ),
                        2,
                    ),
                )
            } else {
                None
            }
        } else if code == 0x05 {
            if bytes.len() >= 2 {
                Some((RcView::DrawMesh(DrawMeshData { mesh_index: bytes[1] }), 2))
            } else {
                None
            }
        } else if code == 0x06 {
            let need: int = if subtype == 0x00 {
                3
            } else if subtype == 0x20 || subtype == 0x40 {
                4
            } else {
                5
            };
            if (subtype == 0x00 || subtype == 0x20 || subtype == 0x40 || subtype == 0x60)
                && bytes.len() >= 1 + need {
                Some(
                    (
                        RcView::MulCurrentMatrixWithBoneMatrix(
                            MulCurrentMatrixWithBoneMatrixData::dec(op, bytes.skip(1)),
                        ),
                        1 + need,
                    ),
                )
            } else {
                None
            }
        } else if code == 0x07 {
            if bytes.len() >= 2 {
                Some(
                    (
                        RcView::Unknown0x07(
                            Unknown0x07Data { subtype: subtype as u8, unknown: bytes[1] },
                        ),
                        2,
                    ),
                )
            } else {
                None
            }
        } else if code == 0x08 {
            if bytes.len() >= 2 {
                Some((RcView::Unknown0x08(Unknown0x08Data { unknown: bytes[1] }), 2))
            } else {
                None
            }
        } else if code == 0x09 {
            if bytes.len() >= 3 && bytes.len() >= 3 + 3 * (bytes[2] as int) {
                Some(
                    (
                        RcView::CalculateSkinningEquation(
                            SkinView {
                                store_index: bytes[1],
                                num_terms: bytes[2],
                                terms: dec_terms(bytes.skip(1), bytes[2] as int),
                            },
                        ),
                        3 + 3 * (bytes[2] as int),
                    ),
                )
            } else {
                None
            }
        } else if code == 0x0B {
            if subtype == 0x00 || subtype == 0x20 {
                Some((RcView::Scale(ScaleData { subtype: subtype as u8 }), 1))
            } else {
                None
            }
        } else if code == 0x0C {
            if bytes.len() >= 3 {
                Some(
                    (
                        RcView::Unknown0x0C(
                            Unknown0x0CData { unknown_0: bytes[1], unknown_1: bytes[2] },
                        ),
                        3,
                    ),
                )
            } else {
                None
            }
        } else if code == 0x0D {
            if bytes.len() >= 3 {
                Some(
                    (
                        RcView::Unknown0x0D(
                            Unknown0x0DData { unknown_0: bytes[1], unknown_1: bytes[2] },
                        ),
                        3,
                    ),
                )
            } else {
                None
            }
        } else {
            None
        }
    }
}

/// Decodes a stream command by command until its `End`; a stream that runs
/// out before `End`, or a command that fails to decode, is refused.
pub open spec fn rc_decode(bytes: Seq<u8>) -> Option<Seq<RcView>>
    decreases bytes.len(),
{
    if bytes.len() == 0 {
        None
    } else {
        match RcView::dec_one(bytes) {
            Some((c, sz)) => {
                if c is End {
                    Some(seq![c])
                } else {
                    match rc_decode(bytes.skip(sz)) {
                        Some(rest) => Some(seq![c] + rest),
                        None => None,
                    }
                }
            },
            None => None,
        }
    }
}

/// The byte run of a command sequence.
pub open spec fn rc_encode(s: Seq<RcView>) -> Seq<u8>
    decreases s.len(),
{
    if s.len() == 0 {
        Seq::empty()
    } else {
        s[0].enc() + rc_encode(s.skip(1))
    }
}

/// A stream that both decodes and encodes: every command well formed, the
/// last command `End` and no other.
pub open spec fn rc_wf_stream(s: Seq<RcView>) -> bool {
    &&& s.len() >= 1
    &&& s[s.len() - 1] is End
    &&& forall|i: int| 0 <= i < s.len() - 1 ==> !((#[trigger] s[i]) is End)
    &&& forall|i: int| 0 <= i < s.len() ==> (#[trigger] s[i]).wf()
}

impl RenderCommand {
    /// The opcode byte: the 5-bit command code with the subtype in the
    /// high bits.
    pub fn command_code(&self) -> (r: u8)
        requires
            self@.wf(),
        ensures
            self@.enc().len() >= 1 && r == self@.enc()[0],
    {
        proof {
            if let RenderCommand::CalculateSkinningEquation(d) = self {
                lemma_enc_terms_len(d.terms@);
            }
        }
        match self {
            RenderCommand::Nop(d) => d.subtype,
            RenderCommand::End => 0x01,
            RenderCommand::Unknown0x02(_) => 0x02,
            RenderCommand::LoadMatrixFromStack(_) => 0x03,
            RenderCommand::BindMaterial(d) => 0x04 + d.subtype,
            RenderCommand::DrawMesh(_) => 0x05,
            RenderCommand::MulCurrentMatrixWithBoneMatrix(d) => 0x06 + d.subtype,
            RenderCommand::Unknown0x07(d) => 0x07 + d.subtype,
            RenderCommand::Unknown0x08(_) => 0x08,
            RenderCommand::CalculateSkinningEquation(_) => 0x09,
            RenderCommand::Scale(d) => 0x0B + d.subtype,
            RenderCommand::Unknown0x0C(_) => 0x0C,
            RenderCommand::Unknown0x0D(_) => 0x0D,
        }
    }

    /// The encoded byte length, opcode byte included.
    pub fn size(&self) -> (r: usize)
        requires
            self@.wf(),
            self@.enc().len() <= usize::MAX,
        ensures
            r == self@.enc().len(),
    {
        match self {
            RenderCommand::Nop(_) => 1,
            RenderCommand::End => 1,
            RenderCommand::Unknown0x02(_) => 3,
            RenderCommand::LoadMatrixFromStack(_) => 2,
            RenderCommand::BindMaterial(_) => 2,
            RenderCommand::DrawMesh(_) => 2,
            RenderCommand::MulCurrentMatrixWithBoneMatrix(d) => 1 + d.len(),
            RenderCommand::Unknown0x07(_) => 2,
            RenderCommand::Unknown0x08(_) => 2,
            RenderCommand::CalculateSkinningEquation(d) => {
                proof {
                    lemma_enc_terms_len(d.terms@);
                }
                1 + d.len()
            },
            RenderCommand::Scale(_) => 1,
            RenderCommand::Unknown0x0C(_) => 3,
            RenderCommand::Unknown0x0D(_) => 3,
        }
    }

    /// Decodes one command from its opcode byte and the bytes after it.
    pub fn from_bytes(op_code: u8, tail: &[u8]) -> (r: Result<RenderCommand, AppError>)
        ensures
            r is Ok <==> RcView::dec_one(seq![op_code] + tail@) is Some,
            r is Ok ==> r->Ok_0@ == (RcView::dec_one(seq![op_code] + tail@)->Some_0).0
                && r->Ok_0@.wf(),
            op_code as int % 0x20 == 0x0A || op_code as int % 0x20 >= 0x0E ==> r->Err_0@
                == "Unknown render command "@ + crate::error::u8_decimal(op_code as int % 0x20),
    {
        let ghost whole = seq![op_code] + tail@;
        proof {
            assert(whole[0] == op_code);
            assert(whole.skip(1) =~= tail@);
        }
        let code = op_code % 0x20;
        match code {
            0x00 => match NopData::from_bytes(op_code) {
                Ok(d) => Ok(RenderCommand::Nop(d)),
                Err(e) => Err(e),
            },
            0x01 => Ok(RenderCommand::End),
            0x02 => match Unknown0x02Data::from_bytes(tail) {
                Ok(d) => Ok(RenderCommand::Unknown0x02(d)),
                Err(e) => Err(e),
            },
            0x03 => match LoadMatrixFromStackData::from_bytes(tail) {
                Ok(d) => Ok(RenderCommand::LoadMatrixFromStack(d)),
                Err(e) => Err(e),
            },
            0x04 => match BindMaterialData::from_bytes(op_code, tail) {
                Ok(d) => Ok(RenderCommand::BindMaterial(d)),
                Err(e) => Err(e),
            },
            0x05 => match DrawMeshData::from_bytes(tail) {
                Ok(d) => Ok(RenderCommand::DrawMesh(d)),
                Err(e) => Err(e),
            },
            0x06 => match MulCurrentMatrixWithBoneMatrixData::from_bytes(op_code, tail) {
                Ok(d) => Ok(RenderCommand::MulCurrentMatrixWithBoneMatrix(d)),
                Err(e) => Err(e),
            },
            0x07 => match Unknown0x07Data::from_bytes(op_code, tail) {
                Ok(d) => Ok(RenderCommand::Unknown0x07(d)),
                Err(e) => Err(e),
            },
            0x08 => match Unknown0x08Data::from_bytes(tail) {
                Ok(d) => Ok(RenderCommand::Unknown0x08(d)),
                Err(e) => Err(e),
            },
            0x09 => match CalculateSkinningEquationData::from_bytes(tail) {
                Ok(d) => {
                    proof {
                        assert(d.terms@ =~= dec_terms(whole.skip(1), whole[2] as int));
                    }
                    Ok(RenderCommand::CalculateSkinningEquation(d))
                },
                Err(e) => Err(e),
            },
            0x0B => match ScaleData::from_bytes(op_code) {
                Ok(d) => Ok(RenderCommand::Scale(d)),
                Err(e) => Err(e),
            },
            0x0C => match Unknown0x0CData::from_bytes(tail) {
                Ok(d) => Ok(RenderCommand::Unknown0x0C(d)),
                Err(e) => Err(e),
            },
            0x0D => match Unknown0x0DData::from_bytes(tail) {
                Ok(d) => Ok(RenderCommand::Unknown0x0D(d)),
                Err(e) => Err(e),
            },
            _ => Err(AppError::with_byte("Unknown render command ", code)),
        }
    }

    /// Writes the command's bytes at `buffer[pos..]`.
    pub fn write_bytes(&self, buffer: &mut Vec<u8>, pos: usize)
        requires
            self@.wf(),
            pos + self@.enc().len() <= old(buffer)@.len(),
        ensures
            final(buffer)@.len() == old(buffer)@.len(),
            final(buffer)@.subrange(pos as int, pos + self@.enc().len()) == self@.enc(),
            forall|i: int|
                0 <= i < final(buffer)@.len() && !(pos <= i < pos + self@.enc().len())
                    ==> final(buffer)@[i] == old(buffer)@[i],
    {
        let n = buffer.len();
        let op = self.command_code();
        match self {
            RenderCommand::Nop(_) => {
                write_u8(buffer, pos, op);
                assert(buffer@.subrange(pos as int, pos + self@.enc().len()) =~= self@.enc());
            },
            RenderCommand::End => {
                write_u8(buffer, pos, op);
                assert(buffer@.subrange(pos as int, pos + self@.enc().len()) =~= self@.enc());
            },
            RenderCommand::Unknown0x02(d) => {
                write_u8(buffer, pos, op);
                write_u8(buffer, pos + 1, d.unknown_0);
                write_u8(buffer, pos + 2, d.unknown_1);
                assert(buffer@.subrange(pos as int, pos + self@.enc().len()) =~= self@.enc());
            },
            RenderCommand::LoadMatrixFromStack(d) => {
                write_u8(buffer, pos, op);
                write_u8(buffer, pos + 1, d.stack_index);
                assert(buffer@.subrange(pos as int, pos + self@.enc().len()) =~= self@.enc());
            },
            RenderCommand::BindMaterial(d) => {
                write_u8(buffer, pos, op);
                write_u8(buffer, pos + 1, d.material_index);
                assert(buffer@.subrange(pos as int, pos + self@.enc().len()) =~= self@.enc());
            },
            RenderCommand::DrawMesh(d) => {
                write_u8(buffer, pos, op);
                write_u8(buffer, pos + 1, d.mesh_index);
                assert(buffer@.subrange(pos as int, pos + self@.enc().len()) =~= self@.enc());
            },
            RenderCommand::MulCurrentMatrixWithBoneMatrix(d) => {
                write_u8(buffer, pos, op);
                write_u8(buffer, pos + 1, d.bone_index);
                write_u8(buffer, pos + 2, d.parent_index);
                write_u8(buffer, pos + 3, d.unknown);
                if d.subtype != 0x00 {
                    let p3 = match d.param_3 {
                        Some(v) => v,
                        None => {
                            proof {
                                assert(false);
                            }
                            0
                        },
                    };
                    write_u8(buffer, pos + 4, p3);
                }
                if d.subtype == 0x60 {
                    let p4 = match d.param_4 {
                        Some(v) => v,
                        None => {
                            proof {
                                assert(false);
                            }
                            0
                        },
                    };
                    write_u8(buffer, pos + 5, p4);
                }
                assert(buffer@.subrange(pos as int, pos + self@.enc().len()) =~= self@.enc());
            },
            RenderCommand::Unknown0x07(d) => {
                write_u8(buffer, pos, op);
                write_u8(buffer, pos + 1, d.unknown);
                assert(buffer@.subrange(pos as int, pos + self@.enc().len()) =~= self@.enc());
            },
            RenderCommand::Unknown0x08(d) => {
                write_u8(buffer, pos, op);
                write_u8(buffer, pos + 1, d.unknown);
                assert(buffer@.subrange(pos as int, pos + self@.enc().len()) =~= self@.enc());
            },
            RenderCommand::CalculateSkinningEquation(d) => {
                proof {
                    lemma_enc_terms_len(d.terms@);
                }
                write_u8(buffer, pos, op);
                write_u8(buffer, pos + 1, d.store_index);
                write_u8(buffer, pos + 2, d.num_terms);
                let count = d.terms.len();
                let mut j: usize = 0;
                while j < count
                    invariant
                        j <= count,
                        count == d.terms@.len(),
                        count == d.num_terms as int,
                        self@.enc().len() == 3 + 3 * count,
                        self@.enc() == seq![self@.enc()[0], d.store_index, d.num_terms]
                            + enc_terms(d.terms@),
                        pos + self@.enc().len() <= buffer@.len(),
                        buffer@.len() == old(buffer)@.len(),
                        buffer@.len() <= usize::MAX,
                        forall|k: int|
                            0 <= k < buffer@.len() && !(pos <= k < pos + 3 + 3 * j)
                                ==> buffer@[k] == old(buffer)@[k],
                        buffer@[pos as int] == self@.enc()[0],
                        buffer@[pos + 1] == d.store_index,
                        buffer@[pos + 2] == d.num_terms,
                        forall|k: int|
                            0 <= k < j ==> buffer@[pos + 3 + 3 * k] == (
                            #[trigger] d.terms@[k]).matrix_index && buffer@[pos + 4 + 3 * k]
                                == d.terms@[k].inv_bind_index && buffer@[pos + 5 + 3 * k]
                                == d.terms@[k].weight,
                    decreases count - j,
                {
                    let t = &d.terms[j];
                    write_u8(buffer, pos + 3 + 3 * j, t.matrix_index);
                    write_u8(buffer, pos + 4 + 3 * j, t.inv_bind_index);
                    write_u8(buffer, pos + 5 + 3 * j, t.weight);
                    j = j + 1;
                }
                proof {
                    let e = self@.enc();
                    let terms = d.terms@;
                    let n_terms = terms.len() as int;
                    assert forall|k: int| 0 <= k < n_terms implies e[3 + 3 * k] == (
                    #[trigger] terms[k]).matrix_index && e[4 + 3 * k] == terms[k].inv_bind_index
                        && e[5 + 3 * k] == terms[k].weight by {
                        assert(e[3 + 3 * k] == enc_terms(terms)[3 * k]);
                        assert(e[4 + 3 * k] == enc_terms(terms)[3 * k + 1]);
                        assert(e[5 + 3 * k] == enc_terms(terms)[3 * k + 2]);
                    };
                    assert forall|m: int| 0 <= m < e.len() implies buffer@[pos + m] == e[m] by {
                        if m >= 3 {
                            let k = (m - 3) / 3;
                            let r = (m - 3) % 3;
                            vstd::arithmetic::div_mod::lemma_fundamental_div_mod(m - 3, 3);
                            assert(3 * k < 3 * n_terms);
                            if r == 0 {
                                assert(buffer@[pos + 3 + 3 * k] == terms[k].matrix_index);
                            } else if r == 1 {
                                assert(buffer@[pos + 4 + 3 * k] == terms[k].inv_bind_index);
                            } else {
                                assert(buffer@[pos + 5 + 3 * k] == terms[k].weight);
                            }
                        }
                    };
                }
                assert(buffer@.subrange(pos as int, pos + self@.enc().len()) =~= self@.enc());
            },
            RenderCommand::Scale(_) => {
                write_u8(buffer, pos, op);
                assert(buffer@.subrange(pos as int, pos + self@.enc().len()) =~= self@.enc());
            },
            RenderCommand::Unknown0x0C(d) => {
                write_u8(buffer, pos, op);
                write_u8(buffer, pos + 1, d.unknown_0);
                write_u8(buffer, pos + 2, d.unknown_1);
                assert(buffer@.subrange(pos as int, pos + self@.enc().len()) =~= self@.enc());
            },
            RenderCommand::Unknown0x0D(d) => {
                write_u8(buffer, pos, op);
                write_u8(buffer, pos + 1, d.unknown_0);
                write_u8(buffer, pos + 2, d.unknown_1);
                assert(buffer@.subrange(pos as int, pos + self@.enc().len()) =~= self@.enc());
            },
        }
    }
}


/// An ordered render command sequence with its byte codec.
#[derive(Clone, Debug)]
pub struct RenderCommandList {
    pub render_commands: Vec<RenderCommand>,
}

impl View for RenderCommandList {
    type V = Seq<RcView>;

    open spec fn view(&self) -> Seq<RcView> {
        rc_views(self.render_commands@)
    }
}

pub open spec fn opt_prepend_rc(done: Seq<RcView>, rest: Option<Seq<RcView>>) -> Option<
    Seq<RcView>,
> {
    match rest {
        Some(r) => Some(done + r),
        None => None,
    }
}

/// A command produced by `dec_one` occupies as many bytes as it encodes
/// to, at least one and no more than the buffer holds.
proof fn lemma_dec_one_len(bytes: Seq<u8>)
    requires
        bytes.len() >= 1,
        RcView::dec_one(bytes) is Some,
    ensures
        1 <= (RcView::dec_one(bytes)->Some_0).1 <= bytes.len(),
        (RcView::dec_one(bytes)->Some_0).0.enc().len() == (RcView::dec_one(bytes)->Some_0).1,
        (RcView::dec_one(bytes)->Some_0).0.wf(),
{
    let op = bytes[0];
    let code = rc_code_of(op);
    if code == 0x09 {
        let (c, sz) = RcView::dec_one(bytes)->Some_0;
        if let RcView::CalculateSkinningEquation(d) = c {
            lemma_enc_terms_len(d.terms);
        }
    }
}

impl RenderCommandList {
    /// Decodes a stream up to and including its `End` command.
    #[verifier::rlimit(80)]
    pub fn from_bytes(bytes: &[u8]) -> (r: Result<RenderCommandList, AppError>)
        ensures
            r is Ok <==> rc_decode(bytes@) is Some,
            r is Ok ==> Some(r->Ok_0@) == rc_decode(bytes@),
    {
        let n = bytes.len();
        if n < 1 {
            return Err(AppError::new("RenderCommandList needs at least 1 byte"));
        }
        let mut done: Vec<RenderCommand> = Vec::new();
        let mut pos: usize = 0;
        proof {
            assert(bytes@.skip(0) =~= bytes@);
            assert(rc_views(done@) =~= Seq::<RcView>::empty());
            if rc_decode(bytes@) is Some {
                assert(rc_views(done@) + rc_decode(bytes@)->Some_0 =~= rc_decode(
                    bytes@,
                )->Some_0);
            }
        }
        while pos < n
            invariant
                pos <= n,
                n == bytes@.len(),
                rc_decode(bytes@) == opt_prepend_rc(
                    rc_views(done@),
                    rc_decode(bytes@.skip(pos as int)),
                ),
            decreases n - pos,
        {
            let ghost rem = bytes@.skip(pos as int);
            let op_code = read_u8(bytes, pos);
            let tail = slice_subrange(bytes, pos + 1, n);
            proof {
                assert(seq![op_code] + tail@ =~= rem);
            }
            let cmd = match RenderCommand::from_bytes(op_code, tail) {
                Ok(c) => c,
                Err(e) => {
                    return Err(e);
                },
            };
            proof {
                lemma_dec_one_len(rem);
            }
            let sz = cmd.size();
            let is_end = matches!(cmd, RenderCommand::End);
            let ghost old_done = done@;
            done.push(cmd);
            proof {
                assert(rc_views(done@) =~= rc_views(old_done).push(cmd@));
            }
            if is_end {
                proof {
                    assert(rc_decode(rem) == Some(seq![cmd@]));
                    assert(rc_views(old_done) + seq![cmd@] =~= rc_views(done@));
                }
                return Ok(RenderCommandList { render_commands: done });
            }
            proof {
                assert(rem.skip(cmd@.enc().len() as int) =~= bytes@.skip(pos + sz));
                if rc_decode(bytes@.skip(pos + sz)) is Some {
                    let rest = rc_decode(bytes@.skip(pos + sz))->Some_0;
                    assert(rc_views(old_done) + (seq![cmd@] + rest) =~= rc_views(done@) + rest);
                }
            }
            pos = pos + sz;
        }
        proof {
            assert(bytes@.skip(n as int) =~= Seq::<u8>::empty());
        }
        Err(AppError::new("RenderCommandList ended unexpectedly"))
    }

    /// The encoded byte length of the stream.
    pub fn size(&self) -> (r: usize)
        requires
            forall|i: int| 0 <= i < self@.len() ==> (#[trigger] self@[i]).wf(),
            rc_encode(self@).len() <= usize::MAX,
        ensures
            r == rc_encode(self@).len(),
    {
        let n = self.render_commands.len();
        let mut total: usize = 0;
        let mut j: usize = 0;
        proof {
            assert(self@.skip(0) =~= self@);
        }
        while j < n
            invariant
                j <= n,
                n == self@.len(),
                rc_encode(self@).len() == total + rc_encode(self@.skip(j as int)).len(),
                rc_encode(self@).len() <= usize::MAX,
                forall|i: int| 0 <= i < self@.len() ==> (#[trigger] self@[i]).wf(),
            decreases n - j,
        {
            proof {
                assert(self@.skip(j as int)[0] == self@[j as int]);
                assert(self@.skip(j as int).skip(1) =~= self@.skip(j + 1));
                assert(self.render_commands@[j as int]@ == self@[j as int]);
                lemma_rc_encode_len_nonneg(self@.skip(j + 1));
            }
            let c = &self.render_commands[j];
            let sz = c.size();
            total = total + sz;
            j = j + 1;
        }
        proof {
            assert(self@.skip(n as int) =~= Seq::<RcView>::empty());
        }
        total
    }

    /// Writes the whole encoded stream at `buffer[pos..]`.
    #[verifier::rlimit(80)]
    pub fn write_bytes(&self, buffer: &mut Vec<u8>, pos: usize)
        requires
            forall|i: int| 0 <= i < self@.len() ==> (#[trigger] self@[i]).wf(),
            pos + rc_encode(self@).len() <= old(buffer)@.len(),
        ensures
            final(buffer)@.len() == old(buffer)@.len(),
            final(buffer)@.subrange(pos as int, pos + rc_encode(self@).len()) == rc_encode(self@),
            forall|i: int|
                0 <= i < final(buffer)@.len() && !(pos <= i < pos + rc_encode(self@).len())
                    ==> final(buffer)@[i] == old(buffer)@[i],
    {
        let ghost target = rc_encode(self@);
        let total_len = buffer.len();
        let n = self.render_commands.len();
        let mut j: usize = 0;
        let mut offset: usize = 0;
        proof {
            assert(self@.skip(0) =~= self@);
            assert(buffer@.subrange(pos as int, pos as int) =~= Seq::<u8>::empty());
            assert(target =~= Seq::<u8>::empty() + rc_encode(self@));
        }
        while j < n
            invariant
                j <= n,
                n == self@.len(),
                target == rc_encode(self@),
                forall|i: int| 0 <= i < self@.len() ==> (#[trigger] self@[i]).wf(),
                pos + target.len() <= buffer@.len(),
                buffer@.len() == old(buffer)@.len(),
                buffer@.len() <= usize::MAX,
                offset <= target.len(),
                target == buffer@.subrange(pos as int, pos + offset) + rc_encode(
                    self@.skip(j as int),
                ),
                forall|k: int|
                    0 <= k < buffer@.len() && !(pos <= k < pos + offset) ==> buffer@[k] == old(
                        buffer,
                    )@[k],
            decreases n - j,
        {
            let ghost done = buffer@.subrange(pos as int, pos + offset);
            proof {
                assert(self@.skip(j as int)[0] == self@[j as int]);
                assert(self@.skip(j as int).skip(1) =~= self@.skip(j + 1));
                assert(self.render_commands@[j as int]@ == self@[j as int]);
                lemma_rc_encode_len_nonneg(self@.skip(j + 1));
            }
            let c = &self.render_commands[j];
            let sz = c.size();
            c.write_bytes(buffer, pos + offset);
            proof {
                assert(buffer@.subrange(pos as int, pos + offset) =~= done);
                assert(buffer@.subrange(pos as int, pos + offset + sz) =~= done + self@[j as int].enc());
            }
            offset = offset + sz;
            j = j + 1;
        }
        proof {
            assert(self@.skip(n as int) =~= Seq::<RcView>::empty());
            assert(target =~= buffer@.subrange(pos as int, pos + offset));
        }
    }

    /// Removes every command.
    pub fn clear(&mut self)
        ensures
            final(self)@.len() == 0,
    {
        self.render_commands.clear();
        proof {
            assert(rc_views(self.render_commands@) =~= Seq::<RcView>::empty());
        }
    }

    /// Appends one command.
    pub fn push(&mut self, command: RenderCommand)
        ensures
            final(self)@ == old(self)@.push(command@),
    {
        self.render_commands.push(command);
        proof {
            assert(rc_views(self.render_commands@) =~= rc_views(old(self).render_commands@).push(
                self.render_commands@[self.render_commands@.len() - 1]@,
            ));
        }
    }

    /// Appends a batch of commands in order.
    pub fn extend(&mut self, commands: Vec<RenderCommand>)
        ensures
            final(self)@ == old(self)@ + rc_views(commands@),
    {
        let ghost incoming = commands@;
        let mut rest = commands;
        self.render_commands.append(&mut rest);
        proof {
            assert(rc_views(self.render_commands@) =~= rc_views(old(self).render_commands@)
                + rc_views(incoming));
        }
    }

    /// The command at `index`, if any.
    pub fn get(&self, index: usize) -> (r: Option<&RenderCommand>)
        ensures
            index < self@.len() ==> r is Some && (*r->Some_0)@ == self@[index as int],
            index >= self@.len() ==> r is None,
    {
        if index < self.render_commands.len() {
            Some(&self.render_commands[index])
        } else {
            None
        }
    }

    /// All commands in order.
    pub fn get_all(&self) -> (r: &[RenderCommand])
        ensures
            rc_views(r@) == self@,
    {
        self.render_commands.as_slice()
    }
}

proof fn lemma_rc_encode_len_nonneg(s: Seq<RcView>)
    ensures
        rc_encode(s).len() >= 0,
{
}

/// When `code` is a five-bit command code and `subtype` holds only high
/// bits, their sum splits back into exactly those parts.
proof fn lemma_code_split(code: int, subtype: int)
    requires
        0 <= code < 0x20,
        0 <= subtype < 0x100,
        subtype % 0x20 == 0,
    ensures
        rc_code_of((code + subtype) as u8) == code,
        rc_subtype_of((code + subtype) as u8) == subtype,
{
    vstd::arithmetic::div_mod::lemma_fundamental_div_mod(subtype, 0x20);
    vstd::arithmetic::div_mod::lemma_fundamental_div_mod_converse(
        code + subtype,
        0x20,
        subtype / 0x20,
        code,
    );
}

/// Decoding at a well-formed command's own encoding yields that command
/// and consumes exactly its bytes, whatever follows.
proof fn lemma_rc_dec_one_of_enc(c: RcView, rest: Seq<u8>)
    requires
        c.wf(),
    ensures
        RcView::dec_one(c.enc() + rest) == Some((c, c.enc().len() as int)),
{
    let bytes = c.enc() + rest;
    match c {
        RcView::Nop(d) => {
            lemma_code_split(0, d.subtype as int);
        },
        RcView::End => {
            lemma_code_split(1, 0);
        },
        RcView::Unknown0x02(d) => {
            lemma_code_split(2, 0);
        },
        RcView::LoadMatrixFromStack(d) => {
            lemma_code_split(3, 0);
        },
        RcView::BindMaterial(d) => {
            lemma_code_split(4, d.subtype as int);
        },
        RcView::DrawMesh(d) => {
            lemma_code_split(5, 0);
        },
        RcView::MulCurrentMatrixWithBoneMatrix(d) => {
            lemma_code_split(6, d.subtype as int);
            let dd = MulCurrentMatrixWithBoneMatrixData::dec(bytes[0], bytes.skip(1));
            assert(bytes.skip(1)[0] == d.bone_index);
            assert(bytes.skip(1)[1] == d.parent_index);
            assert(bytes.skip(1)[2] == d.unknown);
            if d.subtype != 0x00 {
                assert(bytes.skip(1)[3] == d.param_3->0);
            }
            if d.subtype == 0x60 {
                assert(bytes.skip(1)[4] == d.param_4->0);
            }
            assert(dd == d);
        },
        RcView::Unknown0x07(d) => {
            lemma_code_split(7, d.subtype as int);
        },
        RcView::Unknown0x08(d) => {
            lemma_code_split(8, 0);
        },
        RcView::CalculateSkinningEquation(d) => {
            lemma_code_split(9, 0);
            lemma_enc_terms_len(d.terms);
            assert(bytes[1] == d.store_index);
            assert(bytes[2] == d.num_terms);
            let got = dec_terms(bytes.skip(1), bytes[2] as int);
            assert forall|i: int| 0 <= i < d.terms.len() implies got[i] == d.terms[i] by {
                assert(bytes.skip(1)[2 + 3 * i] == bytes[3 + 3 * i]);
                assert(bytes.skip(1)[3 + 3 * i] == bytes[4 + 3 * i]);
                assert(bytes.skip(1)[4 + 3 * i] == bytes[5 + 3 * i]);
                assert(bytes[3 + 3 * i] == enc_terms(d.terms)[3 * i]);
                assert(bytes[4 + 3 * i] == enc_terms(d.terms)[3 * i + 1]);
                assert(bytes[5 + 3 * i] == enc_terms(d.terms)[3 * i + 2]);
            };
            assert(got =~= d.terms);
        },
        RcView::Scale(d) => {
            lemma_code_split(0x0B, d.subtype as int);
        },
        RcView::Unknown0x0C(d) => {
            lemma_code_split(0x0C, 0);
        },
        RcView::Unknown0x0D(d) => {
            lemma_code_split(0x0D, 0);
        },
    }
}

/// Decoding an encoded well-formed stream gives the commands back
/// unchanged.
pub proof fn lemma_rc_decode_of_encode(s: Seq<RcView>)
    requires
        rc_wf_stream(s),
    ensures
        rc_decode(rc_encode(s)) == Some(s),
    decreases s.len(),
{
    let bytes = rc_encode(s);
    lemma_rc_dec_one_of_enc(s[0], rc_encode(s.skip(1)));
    if s.len() == 1 {
        assert(s[0] is End);
        assert(seq![s[0]] =~= s);
    } else {
        assert(!(s[0] is End));
        let sz = s[0].enc().len() as int;
        assert(bytes.skip(sz) =~= rc_encode(s.skip(1)));
        assert(rc_wf_stream(s.skip(1))) by {
            assert(forall|i: int|
                0 <= i < s.skip(1).len() ==> #[trigger] s.skip(1)[i] == s[i + 1]);
        };
        lemma_rc_decode_of_encode(s.skip(1));
        assert(seq![s[0]] + s.skip(1) =~= s);
    }
}

/// Re-encoding a decoded stream reproduces the bytes exactly, for every
/// byte run that an encode produced.
pub proof fn lemma_rc_round_trip(s: Seq<RcView>, bytes: Seq<u8>)
    requires
        rc_wf_stream(s),
        bytes == rc_encode(s),
    ensures
        rc_decode(bytes) is Some,
        rc_encode(rc_decode(bytes)->Some_0) == bytes,
{
    lemma_rc_decode_of_encode(s);
}

} // verus!
