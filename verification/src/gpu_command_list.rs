//! The GPU command stream: 36 fixed-function opcode kinds, packed four
//! opcode bytes to a word followed by each opcode's parameter words, padded
//! with no-operation commands to a four-command boundary.

use crate::alignment::align4;
use crate::alignment::pad4;
use crate::lebytes::read_u8;
use crate::lebytes::write_u8;
use vstd::slice::slice_subrange;
use crate::error::AppError;
use crate::gpu_params::BeginVtxsParams;
use crate::gpu_params::ColorParams;
use crate::gpu_params::MtxRestoreParams;
use crate::gpu_params::MtxScaleParams;
use crate::gpu_params::NormalParams;
use crate::gpu_params::TexCoordParams;
use crate::gpu_params::Unknown0x10Params;
use crate::gpu_params::Unknown0x12Params;
use crate::gpu_params::Unknown0x13Params;
use crate::gpu_params::Unknown0x16Params;
use crate::gpu_params::Unknown0x17Params;
use crate::gpu_params::Unknown0x18Params;
use crate::gpu_params::Unknown0x19Params;
use crate::gpu_params::Unknown0x1AParams;
use crate::gpu_params::Unknown0x1CParams;
use crate::gpu_params::Unknown0x29Params;
use crate::gpu_params::Unknown0x2AParams;
use crate::gpu_params::Unknown0x2BParams;
use crate::gpu_params::Unknown0x30Params;
use crate::gpu_params::Unknown0x31Params;
use crate::gpu_params::Unknown0x32Params;
use crate::gpu_params::Unknown0x33Params;
use crate::gpu_params::Unknown0x34Params;
use crate::gpu_params::Vtx10Params;
use crate::gpu_params::Vtx16Params;
use crate::gpu_params::VtxDiffParams;
use crate::gpu_params::VtxXYParams;
use crate::gpu_params::VtxXZParams;
use crate::gpu_params::VtxYZParams;
use vstd::bytes::lemma_auto_spec_u32_to_from_le_bytes;
use vstd::prelude::*;

verus! {

/// One decoded GPU command, one variant per opcode.
#[derive(Clone, Copy, Debug, PartialEq, Eq, Structural)]
pub enum GpuCommand {
    Nop,
    Unknown0x10(Unknown0x10Params),
    Unknown0x11,
    Unknown0x12(Unknown0x12Params),
    Unknown0x13(Unknown0x13Params),
    MtxRestore(MtxRestoreParams),
    Unknown0x15,
    Unknown0x16(Unknown0x16Params),
    Unknown0x17(Unknown0x17Params),
    Unknown0x18(Unknown0x18Params),
    Unknown0x19(Unknown0x19Params),
    Unknown0x1A(Unknown0x1AParams),
    MtxScale(MtxScaleParams),
    Unknown0x1C(Unknown0x1CParams),
    Color(ColorParams),
    Normal(NormalParams),
    TexCoord(TexCoordParams),
    Vtx16(Vtx16Params),
    Vtx10(Vtx10Params),
    VtxXY(VtxXYParams),
    VtxXZ(VtxXZParams),
    VtxYZ(VtxYZParams),
    VtxDiff(VtxDiffParams),
    Unknown0x29(Unknown0x29Params),
    Unknown0x2A(Unknown0x2AParams),
    Unknown0x2B(Unknown0x2BParams),
    Unknown0x30(Unknown0x30Params),
    Unknown0x31(Unknown0x31Params),
    Unknown0x32(Unknown0x32Params),
    Unknown0x33(Unknown0x33Params),
    Unknown0x34(Unknown0x34Params),
    BeginVtxs(BeginVtxsParams),
    EndVtxs,
}

/// The parameter word count of each opcode; negative for an unassigned
/// opcode.
pub open spec fn spec_num_params(op: u8) -> int {
    if op == 0x00 {
        0
    } else
    if op == 0x10 {
        1
    } else
    if op == 0x11 {
        0
    } else
    if op == 0x12 {
        1
    } else
    if op == 0x13 {
        1
    } else
    if op == 0x14 {
        1
    } else
    if op == 0x15 {
        0
    } else
    if op == 0x16 {
        16
    } else
    if op == 0x17 {
        12
    } else
    if op == 0x18 {
        16
    } else
    if op == 0x19 {
        12
    } else
    if op == 0x1A {
        9
    } else
    if op == 0x1B {
        3
    } else
    if op == 0x1C {
        3
    } else
    if op == 0x20 {
        1
    } else
    if op == 0x21 {
        1
    } else
    if op == 0x22 {
        1
    } else
    if op == 0x23 {
        2
    } else
    if op == 0x24 {
        1
    } else
    if op == 0x25 {
        1
    } else
    if op == 0x26 {
        1
    } else
    if op == 0x27 {
        1
    } else
    if op == 0x28 {
        1
    } else
    if op == 0x29 {
        1
    } else
    if op == 0x2A {
        1
    } else
    if op == 0x2B {
        1
    } else
    if op == 0x30 {
        1
    } else
    if op == 0x31 {
        1
    } else
    if op == 0x32 {
        1
    } else
    if op == 0x33 {
        1
    } else
    if op == 0x34 {
        1
    } else
    if op == 0x40 {
        1
    } else
    if op == 0x41 {
        0
    } else {
        -1
    }
}

pub fn num_params(opcode: u8) -> (r: Result<usize, AppError>)
    ensures
        r is Ok <==> spec_num_params(opcode) >= 0,
        r is Ok ==> r->Ok_0 == spec_num_params(opcode),
{
    match opcode {
        0x00 => Ok(0),
        0x10 => Ok(1),
        0x11 => Ok(0),
        0x12 => Ok(1),
        0x13 => Ok(1),
        0x14 => Ok(1),
        0x15 => Ok(0),
        0x16 => Ok(16),
        0x17 => Ok(12),
        0x18 => Ok(16),
        0x19 => Ok(12),
        0x1A => Ok(9),
        0x1B => Ok(3),
        0x1C => Ok(3),
        0x20 => Ok(1),
        0x21 => Ok(1),
        0x22 => Ok(1),
        0x23 => Ok(2),
        0x24 => Ok(1),
        0x25 => Ok(1),
        0x26 => Ok(1),
        0x27 => Ok(1),
        0x28 => Ok(1),
        0x29 => Ok(1),
        0x2A => Ok(1),
        0x2B => Ok(1),
        0x30 => Ok(1),
        0x31 => Ok(1),
        0x32 => Ok(1),
        0x33 => Ok(1),
        0x34 => Ok(1),
        0x40 => Ok(1),
        0x41 => Ok(0),
        _ => Err(AppError::new("Unexpected opcode")),
    }
}

impl GpuCommand {
    /// The opcode byte of this command.
    pub open spec fn op(self) -> u8 {
        match self {
            GpuCommand::Nop => 0x00,
            GpuCommand::Unknown0x10(_) => 0x10,
            GpuCommand::Unknown0x11 => 0x11,
            GpuCommand::Unknown0x12(_) => 0x12,
            GpuCommand::Unknown0x13(_) => 0x13,
            GpuCommand::MtxRestore(_) => 0x14,
            GpuCommand::Unknown0x15 => 0x15,
            GpuCommand::Unknown0x16(_) => 0x16,
            GpuCommand::Unknown0x17(_) => 0x17,
            GpuCommand::Unknown0x18(_) => 0x18,
            GpuCommand::Unknown0x19(_) => 0x19,
            GpuCommand::Unknown0x1A(_) => 0x1A,
            GpuCommand::MtxScale(_) => 0x1B,
            GpuCommand::Unknown0x1C(_) => 0x1C,
            GpuCommand::Color(_) => 0x20,
            GpuCommand::Normal(_) => 0x21,
            GpuCommand::TexCoord(_) => 0x22,
            GpuCommand::Vtx16(_) => 0x23,
            GpuCommand::Vtx10(_) => 0x24,
            GpuCommand::VtxXY(_) => 0x25,
            GpuCommand::VtxXZ(_) => 0x26,
            GpuCommand::VtxYZ(_) => 0x27,
            GpuCommand::VtxDiff(_) => 0x28,
            GpuCommand::Unknown0x29(_) => 0x29,
            GpuCommand::Unknown0x2A(_) => 0x2A,
            GpuCommand::Unknown0x2B(_) => 0x2B,
            GpuCommand::Unknown0x30(_) => 0x30,
            GpuCommand::Unknown0x31(_) => 0x31,
            GpuCommand::Unknown0x32(_) => 0x32,
            GpuCommand::Unknown0x33(_) => 0x33,
            GpuCommand::Unknown0x34(_) => 0x34,
            GpuCommand::BeginVtxs(_) => 0x40,
            GpuCommand::EndVtxs => 0x41,
        }
    }

    /// The encoded parameter bytes of this command.
    pub open spec fn enc_params(self) -> Seq<u8> {
        match self {
            GpuCommand::Nop => Seq::empty(),
            GpuCommand::Unknown0x10(p) => p.enc(),
            GpuCommand::Unknown0x11 => Seq::empty(),
            GpuCommand::Unknown0x12(p) => p.enc(),
            GpuCommand::Unknown0x13(p) => p.enc(),
            GpuCommand::MtxRestore(p) => p.enc(),
            GpuCommand::Unknown0x15 => Seq::empty(),
            GpuCommand::Unknown0x16(p) => p.enc(),
            GpuCommand::Unknown0x17(p) => p.enc(),
            GpuCommand::Unknown0x18(p) => p.enc(),
            GpuCommand::Unknown0x19(p) => p.enc(),
            GpuCommand::Unknown0x1A(p) => p.enc(),
            GpuCommand::MtxScale(p) => p.enc(),
            GpuCommand::Unknown0x1C(p) => p.enc(),
            GpuCommand::Color(p) => p.enc(),
            GpuCommand::Normal(p) => p.enc(),
            GpuCommand::TexCoord(p) => p.enc(),
            GpuCommand::Vtx16(p) => p.enc(),
            GpuCommand::Vtx10(p) => p.enc(),
            GpuCommand::VtxXY(p) => p.enc(),
            GpuCommand::VtxXZ(p) => p.enc(),
            GpuCommand::VtxYZ(p) => p.enc(),
            GpuCommand::VtxDiff(p) => p.enc(),
            GpuCommand::Unknown0x29(p) => p.enc(),
            GpuCommand::Unknown0x2A(p) => p.enc(),
            GpuCommand::Unknown0x2B(p) => p.enc(),
            GpuCommand::Unknown0x30(p) => p.enc(),
            GpuCommand::Unknown0x31(p) => p.enc(),
            GpuCommand::Unknown0x32(p) => p.enc(),
            GpuCommand::Unknown0x33(p) => p.enc(),
            GpuCommand::Unknown0x34(p) => p.enc(),
            GpuCommand::BeginVtxs(p) => p.enc(),
            GpuCommand::EndVtxs => Seq::empty(),
        }
    }

    /// True when every field round-trips through the packed encoding: the
    /// masked lanes of colours, short vertices, deltas and primitive kinds
    /// lie in their stored ranges.
    pub open spec fn wf(self) -> bool {
        match self {
            GpuCommand::Color(p) => p.wf(),
            GpuCommand::Normal(p) => p.wf(),
            GpuCommand::Vtx10(p) => p.wf(),
            GpuCommand::VtxDiff(p) => p.wf(),
            GpuCommand::BeginVtxs(p) => p.wf(),
            _ => true,
        }
    }

    /// The command an opcode and its parameter bytes decode to.
    pub open spec fn dec(op: u8, params: Seq<u8>) -> GpuCommand
        recommends
            spec_num_params(op) >= 0,
    {
        if op == 0x00 {
            GpuCommand::Nop
        } else
        if op == 0x10 {
            GpuCommand::Unknown0x10(Unknown0x10Params::dec(params))
        } else
        if op == 0x11 {
            GpuCommand::Unknown0x11
        } else
        if op == 0x12 {
            GpuCommand::Unknown0x12(Unknown0x12Params::dec(params))
        } else
        if op == 0x13 {
            GpuCommand::Unknown0x13(Unknown0x13Params::dec(params))
        } else
        if op == 0x14 {
            GpuCommand::MtxRestore(MtxRestoreParams::dec(params))
        } else
        if op == 0x15 {
            GpuCommand::Unknown0x15
        } else
        if op == 0x16 {
            GpuCommand::Unknown0x16(Unknown0x16Params::dec(params))
        } else
        if op == 0x17 {
            GpuCommand::Unknown0x17(Unknown0x17Params::dec(params))
        } else
        if op == 0x18 {
            GpuCommand::Unknown0x18(Unknown0x18Params::dec(params))
        } else
        if op == 0x19 {
            GpuCommand::Unknown0x19(Unknown0x19Params::dec(params))
        } else
        if op == 0x1A {
            GpuCommand::Unknown0x1A(Unknown0x1AParams::dec(params))
        } else
        if op == 0x1B {
            GpuCommand::MtxScale(MtxScaleParams::dec(params))
        } else
        if op == 0x1C {
            GpuCommand::Unknown0x1C(Unknown0x1CParams::dec(params))
        } else
        if op == 0x20 {
            GpuCommand::Color(ColorParams::dec(params))
        } else
        if op == 0x21 {
            GpuCommand::Normal(NormalParams::dec(params))
        } else
        if op == 0x22 {
            GpuCommand::TexCoord(TexCoordParams::dec(params))
        } else
        if op == 0x23 {
            GpuCommand::Vtx16(Vtx16Params::dec(params))
        } else
        if op == 0x24 {
            GpuCommand::Vtx10(Vtx10Params::dec(params))
        } else
        if op == 0x25 {
            GpuCommand::VtxXY(VtxXYParams::dec(params))
        } else
        if op == 0x26 {
            GpuCommand::VtxXZ(VtxXZParams::dec(params))
        } else
        if op == 0x27 {
            GpuCommand::VtxYZ(VtxYZParams::dec(params))
        } else
        if op == 0x28 {
            GpuCommand::VtxDiff(VtxDiffParams::dec(params))
        } else
        if op == 0x29 {
            GpuCommand::Unknown0x29(Unknown0x29Params::dec(params))
        } else
        if op == 0x2A {
            GpuCommand::Unknown0x2A(Unknown0x2AParams::dec(params))
        } else
        if op == 0x2B {
            GpuCommand::Unknown0x2B(Unknown0x2BParams::dec(params))
        } else
        if op == 0x30 {
            GpuCommand::Unknown0x30(Unknown0x30Params::dec(params))
        } else
        if op == 0x31 {
            GpuCommand::Unknown0x31(Unknown0x31Params::dec(params))
        } else
        if op == 0x32 {
            GpuCommand::Unknown0x32(Unknown0x32Params::dec(params))
        } else
        if op == 0x33 {
            GpuCommand::Unknown0x33(Unknown0x33Params::dec(params))
        } else
        if op == 0x34 {
            GpuCommand::Unknown0x34(Unknown0x34Params::dec(params))
        } else
        if op == 0x40 {
            GpuCommand::BeginVtxs(BeginVtxsParams::dec(params))
        } else
        if op == 0x41 {
            GpuCommand::EndVtxs
        } else {
            GpuCommand::Nop
        }
    }

    pub fn op_code(&self) -> (r: u8)
        ensures
            r == self.op(),
    {
        match self {
            GpuCommand::Nop => 0x00,
            GpuCommand::Unknown0x10(_) => 0x10,
            GpuCommand::Unknown0x11 => 0x11,
            GpuCommand::Unknown0x12(_) => 0x12,
            GpuCommand::Unknown0x13(_) => 0x13,
            GpuCommand::MtxRestore(_) => 0x14,
            GpuCommand::Unknown0x15 => 0x15,
            GpuCommand::Unknown0x16(_) => 0x16,
            GpuCommand::Unknown0x17(_) => 0x17,
            GpuCommand::Unknown0x18(_) => 0x18,
            GpuCommand::Unknown0x19(_) => 0x19,
            GpuCommand::Unknown0x1A(_) => 0x1A,
            GpuCommand::MtxScale(_) => 0x1B,
            GpuCommand::Unknown0x1C(_) => 0x1C,
            GpuCommand::Color(_) => 0x20,
            GpuCommand::Normal(_) => 0x21,
            GpuCommand::TexCoord(_) => 0x22,
            GpuCommand::Vtx16(_) => 0x23,
            GpuCommand::Vtx10(_) => 0x24,
            GpuCommand::VtxXY(_) => 0x25,
            GpuCommand::VtxXZ(_) => 0x26,
            GpuCommand::VtxYZ(_) => 0x27,
            GpuCommand::VtxDiff(_) => 0x28,
            GpuCommand::Unknown0x29(_) => 0x29,
            GpuCommand::Unknown0x2A(_) => 0x2A,
            GpuCommand::Unknown0x2B(_) => 0x2B,
            GpuCommand::Unknown0x30(_) => 0x30,
            GpuCommand::Unknown0x31(_) => 0x31,
            GpuCommand::Unknown0x32(_) => 0x32,
            GpuCommand::Unknown0x33(_) => 0x33,
            GpuCommand::Unknown0x34(_) => 0x34,
            GpuCommand::BeginVtxs(_) => 0x40,
            GpuCommand::EndVtxs => 0x41,
        }
    }

    /// Decodes one command from its opcode byte and parameter bytes.
    pub fn from_bytes(op_code: u8, params: &[u8]) -> (r: Result<GpuCommand, AppError>)
        ensures
            r is Ok <==> spec_num_params(op_code) >= 0 && 4 * spec_num_params(op_code)
                <= params@.len(),
            r is Ok ==> r->Ok_0 == GpuCommand::dec(op_code, params@) && r->Ok_0.wf(),
            spec_num_params(op_code) < 0 ==> r->Err_0@ == "Unknown GPU command "@
                + crate::error::u8_decimal(op_code as int),
    {
        match op_code {
            0x00 => Ok(GpuCommand::Nop),
            0x10 => match Unknown0x10Params::from_bytes(params) {
                Ok(p) => Ok(GpuCommand::Unknown0x10(p)),
                Err(e) => Err(e),
            },
            0x11 => Ok(GpuCommand::Unknown0x11),
            0x12 => match Unknown0x12Params::from_bytes(params) {
                Ok(p) => Ok(GpuCommand::Unknown0x12(p)),
                Err(e) => Err(e),
            },
            0x13 => match Unknown0x13Params::from_bytes(params) {
                Ok(p) => Ok(GpuCommand::Unknown0x13(p)),
                Err(e) => Err(e),
            },
            0x14 => match MtxRestoreParams::from_bytes(params) {
                Ok(p) => Ok(GpuCommand::MtxRestore(p)),
                Err(e) => Err(e),
            },
            0x15 => Ok(GpuCommand::Unknown0x15),
            0x16 => match Unknown0x16Params::from_bytes(params) {
                Ok(p) => Ok(GpuCommand::Unknown0x16(p)),
                Err(e) => Err(e),
            },
            0x17 => match Unknown0x17Params::from_bytes(params) {
                Ok(p) => Ok(GpuCommand::Unknown0x17(p)),
                Err(e) => Err(e),
            },
            0x18 => match Unknown0x18Params::from_bytes(params) {
                Ok(p) => Ok(GpuCommand::Unknown0x18(p)),
                Err(e) => Err(e),
            },
            0x19 => match Unknown0x19Params::from_bytes(params) {
                Ok(p) => Ok(GpuCommand::Unknown0x19(p)),
                Err(e) => Err(e),
            },
            0x1A => match Unknown0x1AParams::from_bytes(params) {
                Ok(p) => Ok(GpuCommand::Unknown0x1A(p)),
                Err(e) => Err(e),
            },
            0x1B => match MtxScaleParams::from_bytes(params) {
                Ok(p) => Ok(GpuCommand::MtxScale(p)),
                Err(e) => Err(e),
            },
            0x1C => match Unknown0x1CParams::from_bytes(params) {
                Ok(p) => Ok(GpuCommand::Unknown0x1C(p)),
                Err(e) => Err(e),
            },
            0x20 => match ColorParams::from_bytes(params) {
                Ok(p) => Ok(GpuCommand::Color(p)),
                Err(e) => Err(e),
            },
            0x21 => match NormalParams::from_bytes(params) {
                Ok(p) => Ok(GpuCommand::Normal(p)),
                Err(e) => Err(e),
            },
            0x22 => match TexCoordParams::from_bytes(params) {
                Ok(p) => Ok(GpuCommand::TexCoord(p)),
                Err(e) => Err(e),
            },
            0x23 => match Vtx16Params::from_bytes(params) {
                Ok(p) => Ok(GpuCommand::Vtx16(p)),
                Err(e) => Err(e),
            },
            0x24 => match Vtx10Params::from_bytes(params) {
                Ok(p) => Ok(GpuCommand::Vtx10(p)),
                Err(e) => Err(e),
            },
            0x25 => match VtxXYParams::from_bytes(params) {
                Ok(p) => Ok(GpuCommand::VtxXY(p)),
                Err(e) => Err(e),
            },
            0x26 => match VtxXZParams::from_bytes(params) {
                Ok(p) => Ok(GpuCommand::VtxXZ(p)),
                Err(e) => Err(e),
            },
            0x27 => match VtxYZParams::from_bytes(params) {
                Ok(p) => Ok(GpuCommand::VtxYZ(p)),
                Err(e) => Err(e),
            },
            0x28 => match VtxDiffParams::from_bytes(params) {
                Ok(p) => Ok(GpuCommand::VtxDiff(p)),
                Err(e) => Err(e),
            },
            0x29 => match Unknown0x29Params::from_bytes(params) {
                Ok(p) => Ok(GpuCommand::Unknown0x29(p)),
                Err(e) => Err(e),
            },
            0x2A => match Unknown0x2AParams::from_bytes(params) {
                Ok(p) => Ok(GpuCommand::Unknown0x2A(p)),
                Err(e) => Err(e),
            },
            0x2B => match Unknown0x2BParams::from_bytes(params) {
                Ok(p) => Ok(GpuCommand::Unknown0x2B(p)),
                Err(e) => Err(e),
            },
            0x30 => match Unknown0x30Params::from_bytes(params) {
                Ok(p) => Ok(GpuCommand::Unknown0x30(p)),
                Err(e) => Err(e),
            },
            0x31 => match Unknown0x31Params::from_bytes(params) {
                Ok(p) => Ok(GpuCommand::Unknown0x31(p)),
                Err(e) => Err(e),
            },
            0x32 => match Unknown0x32Params::from_bytes(params) {
                Ok(p) => Ok(GpuCommand::Unknown0x32(p)),
                Err(e) => Err(e),
            },
            0x33 => match Unknown0x33Params::from_bytes(params) {
                Ok(p) => Ok(GpuCommand::Unknown0x33(p)),
                Err(e) => Err(e),
            },
            0x34 => match Unknown0x34Params::from_bytes(params) {
                Ok(p) => Ok(GpuCommand::Unknown0x34(p)),
                Err(e) => Err(e),
            },
            0x40 => match BeginVtxsParams::from_bytes(params) {
                Ok(p) => Ok(GpuCommand::BeginVtxs(p)),
                Err(e) => Err(e),
            },
            0x41 => Ok(GpuCommand::EndVtxs),
            _ => Err(AppError::with_byte("Unknown GPU command ", op_code)),
        }
    }

    /// Writes the parameter bytes at `buffer[pos..]`; the opcode byte is
    /// written separately by the four-command word packing.
    pub fn write_params_bytes(&self, buffer: &mut Vec<u8>, pos: usize)
        requires
            pos + self.enc_params().len() <= old(buffer)@.len(),
        ensures
            final(buffer)@.len() == old(buffer)@.len(),
            final(buffer)@.subrange(pos as int, pos + self.enc_params().len()) == self
                .enc_params(),
            forall|i: int|
                0 <= i < final(buffer)@.len() && !(pos <= i < pos + self.enc_params().len())
                    ==> final(buffer)@[i] == old(buffer)@[i],
    {
        proof {
            self.lemma_enc_len();
        }
        match self {
            GpuCommand::Nop => {
                assert(buffer@.subrange(pos as int, pos as int) =~= self.enc_params());
            },
            GpuCommand::Unknown0x10(p) => p.write_bytes(buffer, pos),
            GpuCommand::Unknown0x11 => {
                assert(buffer@.subrange(pos as int, pos as int) =~= self.enc_params());
            },
            GpuCommand::Unknown0x12(p) => p.write_bytes(buffer, pos),
            GpuCommand::Unknown0x13(p) => p.write_bytes(buffer, pos),
            GpuCommand::MtxRestore(p) => p.write_bytes(buffer, pos),
            GpuCommand::Unknown0x15 => {
                assert(buffer@.subrange(pos as int, pos as int) =~= self.enc_params());
            },
            GpuCommand::Unknown0x16(p) => p.write_bytes(buffer, pos),
            GpuCommand::Unknown0x17(p) => p.write_bytes(buffer, pos),
            GpuCommand::Unknown0x18(p) => p.write_bytes(buffer, pos),
            GpuCommand::Unknown0x19(p) => p.write_bytes(buffer, pos),
            GpuCommand::Unknown0x1A(p) => p.write_bytes(buffer, pos),
            GpuCommand::MtxScale(p) => p.write_bytes(buffer, pos),
            GpuCommand::Unknown0x1C(p) => p.write_bytes(buffer, pos),
            GpuCommand::Color(p) => p.write_bytes(buffer, pos),
            GpuCommand::Normal(p) => p.write_bytes(buffer, pos),
            GpuCommand::TexCoord(p) => p.write_bytes(buffer, pos),
            GpuCommand::Vtx16(p) => p.write_bytes(buffer, pos),
            GpuCommand::Vtx10(p) => p.write_bytes(buffer, pos),
            GpuCommand::VtxXY(p) => p.write_bytes(buffer, pos),
            GpuCommand::VtxXZ(p) => p.write_bytes(buffer, pos),
            GpuCommand::VtxYZ(p) => p.write_bytes(buffer, pos),
            GpuCommand::VtxDiff(p) => p.write_bytes(buffer, pos),
            GpuCommand::Unknown0x29(p) => p.write_bytes(buffer, pos),
            GpuCommand::Unknown0x2A(p) => p.write_bytes(buffer, pos),
            GpuCommand::Unknown0x2B(p) => p.write_bytes(buffer, pos),
            GpuCommand::Unknown0x30(p) => p.write_bytes(buffer, pos),
            GpuCommand::Unknown0x31(p) => p.write_bytes(buffer, pos),
            GpuCommand::Unknown0x32(p) => p.write_bytes(buffer, pos),
            GpuCommand::Unknown0x33(p) => p.write_bytes(buffer, pos),
            GpuCommand::Unknown0x34(p) => p.write_bytes(buffer, pos),
            GpuCommand::BeginVtxs(p) => p.write_bytes(buffer, pos),
            GpuCommand::EndVtxs => {
                assert(buffer@.subrange(pos as int, pos as int) =~= self.enc_params());
            },
        }
    }

    /// The parameter bytes occupy exactly four bytes per parameter word,
    /// and every command's opcode is assigned.
    pub proof fn lemma_enc_len(self)
        ensures
            spec_num_params(self.op()) >= 0,
            self.enc_params().len() == 4 * spec_num_params(self.op()),
    {
        lemma_auto_spec_u32_to_from_le_bytes();
    }

    /// Decoding a well-formed command's own encoding gives the command back.
    pub proof fn lemma_dec_enc(self)
        requires
            self.wf(),
        ensures
            GpuCommand::dec(self.op(), self.enc_params()) == self,
    {
        match self {
            GpuCommand::Nop => {},
            GpuCommand::Unknown0x10(p) => p.lemma_dec_enc(),
            GpuCommand::Unknown0x11 => {},
            GpuCommand::Unknown0x12(p) => p.lemma_dec_enc(),
            GpuCommand::Unknown0x13(p) => p.lemma_dec_enc(),
            GpuCommand::MtxRestore(p) => p.lemma_dec_enc(),
            GpuCommand::Unknown0x15 => {},
            GpuCommand::Unknown0x16(p) => p.lemma_dec_enc(),
            GpuCommand::Unknown0x17(p) => p.lemma_dec_enc(),
            GpuCommand::Unknown0x18(p) => p.lemma_dec_enc(),
            GpuCommand::Unknown0x19(p) => p.lemma_dec_enc(),
            GpuCommand::Unknown0x1A(p) => p.lemma_dec_enc(),
            GpuCommand::MtxScale(p) => p.lemma_dec_enc(),
            GpuCommand::Unknown0x1C(p) => p.lemma_dec_enc(),
            GpuCommand::Color(p) => p.lemma_dec_enc(),
            GpuCommand::Normal(p) => p.lemma_dec_enc(),
            GpuCommand::TexCoord(p) => p.lemma_dec_enc(),
            GpuCommand::Vtx16(p) => p.lemma_dec_enc(),
            GpuCommand::Vtx10(p) => p.lemma_dec_enc(),
            GpuCommand::VtxXY(p) => p.lemma_dec_enc(),
            GpuCommand::VtxXZ(p) => p.lemma_dec_enc(),
            GpuCommand::VtxYZ(p) => p.lemma_dec_enc(),
            GpuCommand::VtxDiff(p) => p.lemma_dec_enc(),
            GpuCommand::Unknown0x29(p) => p.lemma_dec_enc(),
            GpuCommand::Unknown0x2A(p) => p.lemma_dec_enc(),
            GpuCommand::Unknown0x2B(p) => p.lemma_dec_enc(),
            GpuCommand::Unknown0x30(p) => p.lemma_dec_enc(),
            GpuCommand::Unknown0x31(p) => p.lemma_dec_enc(),
            GpuCommand::Unknown0x32(p) => p.lemma_dec_enc(),
            GpuCommand::Unknown0x33(p) => p.lemma_dec_enc(),
            GpuCommand::Unknown0x34(p) => p.lemma_dec_enc(),
            GpuCommand::BeginVtxs(p) => p.lemma_dec_enc(),
            GpuCommand::EndVtxs => {},
        }
    }
}

/// The byte run of one four-command chunk: the four opcode bytes, then each
/// command's parameter words in order.
pub open spec fn chunk_bytes(c0: GpuCommand, c1: GpuCommand, c2: GpuCommand, c3: GpuCommand) -> Seq<
    u8,
> {
    seq![c0.op(), c1.op(), c2.op(), c3.op()] + c0.enc_params() + c1.enc_params() + c2.enc_params()
        + c3.enc_params()
}

/// Encodes a command sequence whose length is a multiple of four, chunk by
/// chunk.
pub open spec fn gpu_encode_chunks(s: Seq<GpuCommand>) -> Seq<u8>
    decreases s.len(),
{
    if s.len() < 4 {
        Seq::empty()
    } else {
        chunk_bytes(s[0], s[1], s[2], s[3]) + gpu_encode_chunks(s.skip(4))
    }
}

/// `s` extended with no-operation commands to a multiple of four commands.
pub open spec fn gpu_padded(s: Seq<GpuCommand>) -> Seq<GpuCommand> {
    s + Seq::new((align4(s.len() as int) - s.len()) as nat, |i: int| GpuCommand::Nop)
}

/// The encoded bytes of a command list.
pub open spec fn gpu_encode(s: Seq<GpuCommand>) -> Seq<u8> {
    gpu_encode_chunks(gpu_padded(s))
}

/// Decodes chunk after chunk; fails on a trailing partial chunk, an
/// unassigned opcode, or parameter words running past the end.
pub open spec fn gpu_decode_chunks(bytes: Seq<u8>) -> Option<Seq<GpuCommand>>
    decreases bytes.len(),
{
    if bytes.len() == 0 {
        Some(Seq::empty())
    } else if bytes.len() < 4 {
        None
    } else {
        let w0 = spec_num_params(bytes[0]);
        let w1 = spec_num_params(bytes[1]);
        let w2 = spec_num_params(bytes[2]);
        let w3 = spec_num_params(bytes[3]);
        if w0 < 0 || w1 < 0 || w2 < 0 || w3 < 0 {
            None
        } else {
            let total = 4 + 4 * (w0 + w1 + w2 + w3);
            if bytes.len() < total {
                None
            } else {
                let c0 = GpuCommand::dec(bytes[0], bytes.subrange(4, 4 + 4 * w0));
                let c1 = GpuCommand::dec(
                    bytes[1],
                    bytes.subrange(4 + 4 * w0, 4 + 4 * w0 + 4 * w1),
                );
                let c2 = GpuCommand::dec(
                    bytes[2],
                    bytes.subrange(4 + 4 * w0 + 4 * w1, 4 + 4 * w0 + 4 * w1 + 4 * w2),
                );
                let c3 = GpuCommand::dec(
                    bytes[3],
                    bytes.subrange(4 + 4 * w0 + 4 * w1 + 4 * w2, total),
                );
                match gpu_decode_chunks(bytes.skip(total)) {
                    Some(rest) => Some(seq![c0, c1, c2, c3] + rest),
                    None => None,
                }
            }
        }
    }
}

/// What a byte buffer decodes to; a buffer under four bytes is refused.
pub open spec fn gpu_list_decode(bytes: Seq<u8>) -> Option<Seq<GpuCommand>> {
    if bytes.len() < 4 {
        None
    } else {
        gpu_decode_chunks(bytes)
    }
}

/// The parameter words of all commands of `s` together.
pub open spec fn total_words(s: Seq<GpuCommand>) -> int
    decreases s.len(),
{
    if s.len() == 0 {
        0
    } else {
        spec_num_params(s[0].op()) + total_words(s.skip(1))
    }
}

pub proof fn lemma_total_words_nonneg(s: Seq<GpuCommand>)
    ensures
        total_words(s) >= 0,
    decreases s.len(),
{
    if s.len() > 0 {
        s[0].lemma_enc_len();
        lemma_total_words_nonneg(s.skip(1));
    }
}

proof fn lemma_total_words_push(s: Seq<GpuCommand>, c: GpuCommand)
    ensures
        total_words(s.push(c)) == total_words(s) + spec_num_params(c.op()),
    decreases s.len(),
{
    if s.len() == 0 {
        assert(s.push(c).skip(1) =~= Seq::<GpuCommand>::empty());
        assert(s.push(c)[0] == c);
        assert(total_words(s.push(c)) == spec_num_params(c.op()) + total_words(
            Seq::<GpuCommand>::empty(),
        ));
    } else {
        assert(s.push(c)[0] == s[0]);
        assert(s.push(c).skip(1) =~= s.skip(1).push(c));
        lemma_total_words_push(s.skip(1), c);
        assert(total_words(s.push(c)) == spec_num_params(s[0].op()) + total_words(
            s.skip(1).push(c),
        ));
        assert(total_words(s) == spec_num_params(s[0].op()) + total_words(s.skip(1)));
    }
}

proof fn lemma_total_words_split(s: Seq<GpuCommand>, i: int)
    requires
        0 <= i <= s.len(),
    ensures
        total_words(s) == total_words(s.take(i)) + total_words(s.skip(i)),
    decreases i,
{
    if i == 0 {
        assert(s.take(0) =~= Seq::empty());
        assert(s.skip(0) =~= s);
    } else {
        lemma_total_words_split(s, i - 1);
        assert(s.take(i) =~= s.take(i - 1).push(s[i - 1]));
        lemma_total_words_push(s.take(i - 1), s[i - 1]);
        assert(s.skip(i - 1) =~= seq![s[i - 1]] + s.skip(i));
        assert(total_words(s.skip(i - 1)) == spec_num_params(s[i - 1].op()) + total_words(
            s.skip(i),
        )) by {
            assert(s.skip(i - 1)[0] == s[i - 1]);
            assert(s.skip(i - 1).skip(1) =~= s.skip(i));
        };
    }
}

proof fn lemma_total_words_unfold4(s: Seq<GpuCommand>)
    requires
        s.len() >= 4,
    ensures
        total_words(s) == spec_num_params(s[0].op()) + spec_num_params(s[1].op())
            + spec_num_params(s[2].op()) + spec_num_params(s[3].op()) + total_words(s.skip(4)),
{
    assert(s.skip(1)[0] == s[1] && s.skip(1).skip(1) =~= s.skip(2));
    assert(s.skip(2)[0] == s[2] && s.skip(2).skip(1) =~= s.skip(3));
    assert(s.skip(3)[0] == s[3] && s.skip(3).skip(1) =~= s.skip(4));
    assert(total_words(s) == spec_num_params(s[0].op()) + total_words(s.skip(1)));
    assert(total_words(s.skip(1)) == spec_num_params(s[1].op()) + total_words(s.skip(2)));
    assert(total_words(s.skip(2)) == spec_num_params(s[2].op()) + total_words(s.skip(3)));
    assert(total_words(s.skip(3)) == spec_num_params(s[3].op()) + total_words(s.skip(4)));
}

/// A chunk holds four opcode bytes and the four commands' parameter words.
proof fn lemma_chunk_len(c0: GpuCommand, c1: GpuCommand, c2: GpuCommand, c3: GpuCommand)
    ensures
        chunk_bytes(c0, c1, c2, c3).len() == 4 + 4 * (spec_num_params(c0.op()) + spec_num_params(
            c1.op(),
        ) + spec_num_params(c2.op()) + spec_num_params(c3.op())),
{
    c0.lemma_enc_len();
    c1.lemma_enc_len();
    c2.lemma_enc_len();
    c3.lemma_enc_len();
}

proof fn lemma_encode_chunks_len(s: Seq<GpuCommand>)
    requires
        s.len() % 4 == 0,
    ensures
        gpu_encode_chunks(s).len() == s.len() + 4 * total_words(s),
    decreases s.len(),
{
    if s.len() == 0 {
    } else {
        lemma_chunk_len(s[0], s[1], s[2], s[3]);
        lemma_total_words_unfold4(s);
        lemma_encode_chunks_len(s.skip(4));
    }
}

/// The padding commands contribute no parameter words.
proof fn lemma_total_words_padded(s: Seq<GpuCommand>)
    ensures
        total_words(gpu_padded(s)) == total_words(s),
{
    let p = gpu_padded(s);
    let n = s.len() as int;
    lemma_total_words_split(p, n);
    assert(p.take(n) =~= s);
    let tail = p.skip(n);
    assert(forall|i: int| 0 <= i < tail.len() ==> tail[i] == GpuCommand::Nop);
    lemma_total_words_all_nops(tail);
}

proof fn lemma_total_words_all_nops(s: Seq<GpuCommand>)
    requires
        forall|i: int| 0 <= i < s.len() ==> s[i] == GpuCommand::Nop,
    ensures
        total_words(s) == 0,
    decreases s.len(),
{
    if s.len() > 0 {
        lemma_total_words_all_nops(s.skip(1));
    }
}

/// Rounding an exact multiple of four leaves it unchanged.
proof fn lemma_align4_exact(n: int)
    requires
        n >= 0,
        n % 4 == 0,
    ensures
        align4(n) == n,
{
    vstd::arithmetic::div_mod::lemma_fundamental_div_mod_converse(n + 3, 4, n / 4, 3);
    vstd::arithmetic::div_mod::lemma_fundamental_div_mod(n, 4);
}

/// The total encoded size of a command list: the padded command count plus
/// four bytes per parameter word.
pub proof fn lemma_gpu_size(s: Seq<GpuCommand>)
    ensures
        gpu_encode(s).len() == align4(s.len() as int) + 4 * total_words(s),
        align4(s.len() as int) - s.len() < 4,
        s.len() <= align4(s.len() as int),
{
    let p = gpu_padded(s);
    assert(p.len() == align4(s.len() as int)) by {
        lemma_align4_props(s.len() as int);
    };
    assert(p.len() % 4 == 0) by {
        lemma_align4_props(s.len() as int);
    };
    lemma_encode_chunks_len(p);
    lemma_total_words_padded(s);
}

proof fn lemma_align4_props(n: int)
    requires
        n >= 0,
    ensures
        n <= align4(n) < n + 4,
        align4(n) % 4 == 0,
{
    let q = (n + 3) / 4;
    vstd::arithmetic::div_mod::lemma_fundamental_div_mod(n + 3, 4);
    vstd::arithmetic::div_mod::lemma_mod_multiples_basic(q, 4);
}

/// An ordered GPU command sequence with its byte codec.
#[derive(Clone, Debug)]
pub struct GpuCommandList {
    pub render_cmds: Vec<GpuCommand>,
}

impl View for GpuCommandList {
    type V = Seq<GpuCommand>;

    open spec fn view(&self) -> Seq<GpuCommand> {
        self.render_cmds@
    }
}

pub open spec fn opt_prepend(done: Seq<GpuCommand>, rest: Option<Seq<GpuCommand>>) -> Option<
    Seq<GpuCommand>,
> {
    match rest {
        Some(r) => Some(done + r),
        None => None,
    }
}

impl GpuCommandList {
    /// Decodes a whole command stream; the buffer must be consumed exactly.
    #[verifier::rlimit(80)]
    pub fn from_bytes(bytes: &[u8]) -> (r: Result<GpuCommandList, AppError>)
        ensures
            r is Ok <==> gpu_list_decode(bytes@) is Some,
            r is Ok ==> Some(r->Ok_0@) == gpu_list_decode(bytes@),
    {
        let n = bytes.len();
        if n < 4 {
            return Err(AppError::new("GpuCommandList needs at least 4 bytes"));
        }
        let mut cmds: Vec<GpuCommand> = Vec::new();
        let mut pos: usize = 0;
        proof {
            assert(bytes@.skip(0) =~= bytes@);
            assert(cmds@ =~= Seq::<GpuCommand>::empty());
            if gpu_decode_chunks(bytes@) is Some {
                assert(cmds@ + gpu_decode_chunks(bytes@)->Some_0 =~= gpu_decode_chunks(
                    bytes@,
                )->Some_0);
            }
        }
        while pos < n
            invariant
                pos <= n,
                n == bytes@.len(),
                gpu_decode_chunks(bytes@) == opt_prepend(
                    cmds@,
                    gpu_decode_chunks(bytes@.skip(pos as int)),
                ),
            decreases n - pos,
        {
            let ghost rem = bytes@.skip(pos as int);
            if n - pos < 4 {
                return Err(AppError::new("GpuCommandList ends in a partial command word"));
            }
            let op0 = read_u8(bytes, pos);
            let op1 = read_u8(bytes, pos + 1);
            let op2 = read_u8(bytes, pos + 2);
            let op3 = read_u8(bytes, pos + 3);
            proof {
                assert(rem[0] == op0 && rem[1] == op1 && rem[2] == op2 && rem[3] == op3);
            }
            let w0 = match num_params(op0) {
                Ok(w) => w,
                Err(e) => return Err(e),
            };
            let w1 = match num_params(op1) {
                Ok(w) => w,
                Err(e) => return Err(e),
            };
            let w2 = match num_params(op2) {
                Ok(w) => w,
                Err(e) => return Err(e),
            };
            let w3 = match num_params(op3) {
                Ok(w) => w,
                Err(e) => return Err(e),
            };
            let total = 4 + 4 * (w0 + w1 + w2 + w3);
            if n - pos < total {
                return Err(AppError::new("GpuCommandList parameter words run past the end"));
            }
            let p0 = pos + 4;
            let p1 = p0 + 4 * w0;
            let p2 = p1 + 4 * w1;
            let p3 = p2 + 4 * w2;
            let p4 = p3 + 4 * w3;
            proof {
                assert(rem.subrange(4, 4 + 4 * (w0 as int)) =~= bytes@.subrange(
                    p0 as int,
                    p1 as int,
                ));
                assert(rem.subrange(4 + 4 * (w0 as int), 4 + 4 * (w0 as int) + 4 * (w1 as int))
                    =~= bytes@.subrange(p1 as int, p2 as int));
                assert(rem.subrange(
                    4 + 4 * (w0 as int) + 4 * (w1 as int),
                    4 + 4 * (w0 as int) + 4 * (w1 as int) + 4 * (w2 as int),
                ) =~= bytes@.subrange(p2 as int, p3 as int));
                assert(rem.subrange(
                    4 + 4 * (w0 as int) + 4 * (w1 as int) + 4 * (w2 as int),
                    4 + 4 * ((w0 as int) + (w1 as int) + (w2 as int) + (w3 as int)),
                ) =~= bytes@.subrange(p3 as int, p4 as int));
            }
            let c0 = match GpuCommand::from_bytes(op0, slice_subrange(bytes, p0, p1)) {
                Ok(c) => c,
                Err(e) => {
                    proof {
                        assert(false);
                    }
                    return Err(e);
                },
            };
            let c1 = match GpuCommand::from_bytes(op1, slice_subrange(bytes, p1, p2)) {
                Ok(c) => c,
                Err(e) => {
                    proof {
                        assert(false);
                    }
                    return Err(e);
                },
            };
            let c2 = match GpuCommand::from_bytes(op2, slice_subrange(bytes, p2, p3)) {
                Ok(c) => c,
                Err(e) => {
                    proof {
                        assert(false);
                    }
                    return Err(e);
                },
            };
            let c3 = match GpuCommand::from_bytes(op3, slice_subrange(bytes, p3, p4)) {
                Ok(c) => c,
                Err(e) => {
                    proof {
                        assert(false);
                    }
                    return Err(e);
                },
            };
            let ghost old_cmds = cmds@;
            cmds.push(c0);
            cmds.push(c1);
            cmds.push(c2);
            cmds.push(c3);
            proof {
                assert(rem.skip(4 + 4 * ((w0 as int) + (w1 as int) + (w2 as int) + (w3 as int)))
                    =~= bytes@.skip(p4 as int));
                assert(gpu_decode_chunks(rem) == (match gpu_decode_chunks(bytes@.skip(p4 as int)) {
                    Some(rest) => Some(seq![c0, c1, c2, c3] + rest),
                    None => None,
                }));
                assert(cmds@ =~= old_cmds + seq![c0, c1, c2, c3]);
                assert(forall|rest: Seq<GpuCommand>|
                    (old_cmds + seq![c0, c1, c2, c3]) + rest =~= old_cmds + (seq![c0, c1, c2, c3]
                        + rest));
            }
            pos = p4;
        }
        proof {
            assert(bytes@.skip(n as int) =~= Seq::<u8>::empty());
        }
        Ok(GpuCommandList { render_cmds: cmds })
    }

    /// The encoded byte length of this list.
    pub fn size(&self) -> (r: usize)
        requires
            gpu_encode(self@).len() <= usize::MAX,
        ensures
            r == gpu_encode(self@).len(),
    {
        proof {
            lemma_gpu_size(self@);
            lemma_total_words_nonneg(self@);
        }
        let n = self.render_cmds.len();
        let padded = n + pad4(n);
        let mut total: usize = padded;
        let mut j: usize = 0;
        while j < n
            invariant
                j <= n,
                n == self@.len(),
                total == align4(n as int) + 4 * total_words(self@.take(j as int)),
                gpu_encode(self@).len() == align4(n as int) + 4 * total_words(self@),
                gpu_encode(self@).len() <= usize::MAX,
            decreases n - j,
        {
            let c = &self.render_cmds[j];
            proof {
                c.lemma_enc_len();
                assert(self@.take(j + 1) =~= self@.take(j as int).push(self@[j as int]));
                lemma_total_words_push(self@.take(j as int), self@[j as int]);
                lemma_total_words_split(self@, j + 1);
                lemma_total_words_nonneg(self@.skip(j + 1));
            }
            let w = match num_params(c.op_code()) {
                Ok(w) => w,
                Err(e) => {
                    proof {
                        assert(false);
                    }
                    0
                },
            };
            total = total + 4 * w;
            j = j + 1;
        }
        proof {
            assert(self@.take(n as int) =~= self@);
        }
        total
    }

    /// Writes the encoded bytes at `buffer[pos..]`, padding the command
    /// count to a multiple of four with no-operation commands.
    #[verifier::rlimit(80)]
    pub fn write_bytes(&self, buffer: &mut Vec<u8>, pos: usize)
        requires
            pos + gpu_encode(self@).len() <= old(buffer)@.len(),
        ensures
            final(buffer)@.len() == old(buffer)@.len(),
            final(buffer)@.subrange(pos as int, pos + gpu_encode(self@).len()) == gpu_encode(
                self@,
            ),
            forall|i: int|
                0 <= i < final(buffer)@.len() && !(pos <= i < pos + gpu_encode(self@).len())
                    ==> final(buffer)@[i] == old(buffer)@[i],
    {
        let ghost target = gpu_encode(self@);
        let ghost padded = gpu_padded(self@);
        proof {
            lemma_gpu_size(self@);
            lemma_total_words_nonneg(self@);
            lemma_align4_props(self@.len() as int);
        }
        let total_len = buffer.len();
        let n = self.render_cmds.len();
        let padded_n = n + pad4(n);
        let mut i: usize = 0;
        let mut offset: usize = 0;
        proof {
            assert(padded.skip(0) =~= padded);
            assert(buffer@.subrange(pos as int, pos as int) =~= Seq::<u8>::empty());
            assert(target =~= Seq::<u8>::empty() + gpu_encode_chunks(padded));
        }
        while i < padded_n
            invariant
                i <= padded_n,
                i % 4 == 0,
                n == self@.len(),
                padded_n == align4(n as int),
                padded == gpu_padded(self@),
                padded.len() == padded_n,
                target == gpu_encode(self@),
                pos + target.len() <= buffer@.len(),
                buffer@.len() == old(buffer)@.len(),
                buffer@.len() <= usize::MAX,
                offset <= target.len(),
                target == buffer@.subrange(pos as int, pos + offset) + gpu_encode_chunks(
                    padded.skip(i as int),
                ),
                forall|k: int|
                    0 <= k < buffer@.len() && !(pos <= k < pos + offset) ==> buffer@[k] == old(
                        buffer,
                    )@[k],
            decreases padded_n - i,
        {
            let ghost rem = padded.skip(i as int);
            let ghost done = buffer@.subrange(pos as int, pos + offset);
            let c0 = self.padded_cmd(i);
            let c1 = self.padded_cmd(i + 1);
            let c2 = self.padded_cmd(i + 2);
            let c3 = self.padded_cmd(i + 3);
            proof {
                assert(rem.len() >= 4);
                assert(rem[0] == c0 && rem[1] == c1 && rem[2] == c2 && rem[3] == c3);
                assert(gpu_encode_chunks(rem) == chunk_bytes(c0, c1, c2, c3) + gpu_encode_chunks(
                    rem.skip(4),
                ));
                lemma_chunk_len(c0, c1, c2, c3);
                c0.lemma_enc_len();
                c1.lemma_enc_len();
                c2.lemma_enc_len();
                c3.lemma_enc_len();
            }
            let w0 = match num_params(c0.op_code()) {
                Ok(w) => w,
                Err(e) => {
                    proof {
                        assert(false);
                    }
                    0
                },
            };
            let w1 = match num_params(c1.op_code()) {
                Ok(w) => w,
                Err(e) => {
                    proof {
                        assert(false);
                    }
                    0
                },
            };
            let w2 = match num_params(c2.op_code()) {
                Ok(w) => w,
                Err(e) => {
                    proof {
                        assert(false);
                    }
                    0
                },
            };
            let w3 = match num_params(c3.op_code()) {
                Ok(w) => w,
                Err(e) => {
                    proof {
                        assert(false);
                    }
                    0
                },
            };
            let base = pos + offset;
            write_u8(buffer, base, c0.op_code());
            write_u8(buffer, base + 1, c1.op_code());
            write_u8(buffer, base + 2, c2.op_code());
            write_u8(buffer, base + 3, c3.op_code());
            let q0 = base + 4;
            let q1 = q0 + 4 * w0;
            let q2 = q1 + 4 * w1;
            let q3 = q2 + 4 * w2;
            let q4 = q3 + 4 * w3;
            c0.write_params_bytes(buffer, q0);
            c1.write_params_bytes(buffer, q1);
            c2.write_params_bytes(buffer, q2);
            c3.write_params_bytes(buffer, q3);
            proof {
                assert(buffer@.subrange(pos as int, pos + offset) =~= done);
                assert(buffer@.subrange(base as int, q4 as int) =~= chunk_bytes(c0, c1, c2, c3));
                assert(buffer@.subrange(pos as int, q4 as int) =~= done + chunk_bytes(
                    c0,
                    c1,
                    c2,
                    c3,
                ));
                assert(padded.skip(i as int).skip(4) =~= padded.skip(i + 4));
            }
            offset = offset + (4 + 4 * (w0 + w1 + w2 + w3));
            i = i + 4;
        }
        proof {
            assert(padded.skip(padded_n as int) =~= Seq::<GpuCommand>::empty());
            assert(target =~= buffer@.subrange(pos as int, pos + offset));
        }
    }

    /// The command at `k` of the padded sequence: past the end of the list
    /// it is the no-operation padding.
    fn padded_cmd(&self, k: usize) -> (r: GpuCommand)
        requires
            k < gpu_padded(self@).len() || self@.len() <= k,
        ensures
            k < gpu_padded(self@).len() ==> r == gpu_padded(self@)[k as int],
            k >= gpu_padded(self@).len() ==> r == GpuCommand::Nop,
    {
        let n = self.render_cmds.len();
        if k < n {
            self.render_cmds[k]
        } else {
            GpuCommand::Nop
        }
    }

    /// Removes every command.
    pub fn clear(&mut self)
        ensures
            final(self)@.len() == 0,
    {
        self.render_cmds.clear();
    }

    /// Appends one command.
    pub fn push(&mut self, command: GpuCommand)
        ensures
            final(self)@ == old(self)@.push(command),
    {
        self.render_cmds.push(command);
    }

    /// Appends a batch of commands in order.
    pub fn extend(&mut self, commands: Vec<GpuCommand>)
        ensures
            final(self)@ == old(self)@ + commands@,
    {
        let mut rest = commands;
        self.render_cmds.append(&mut rest);
    }

    /// The command at `index`, if any.
    pub fn get(&self, index: usize) -> (r: Option<&GpuCommand>)
        ensures
            index < self@.len() ==> r is Some && *r->Some_0 == self@[index as int],
            index >= self@.len() ==> r is None,
    {
        if index < self.render_cmds.len() {
            Some(&self.render_cmds[index])
        } else {
            None
        }
    }

    /// All commands in order.
    pub fn get_all(&self) -> (r: &[GpuCommand])
        ensures
            r@ == self@,
    {
        self.render_cmds.as_slice()
    }
}

/// Decoding an encoded command list gives the commands back, followed by
/// the padding no-operations and nothing else: the padded count is the
/// command count rounded up to a multiple of four.
pub proof fn lemma_gpu_decode_of_encode(s: Seq<GpuCommand>)
    requires
        forall|i: int| 0 <= i < s.len() ==> (#[trigger] s[i]).wf(),
        s.len() > 0,
    ensures
        gpu_list_decode(gpu_encode(s)) == Some(gpu_padded(s)),
        gpu_padded(s).len() % 4 == 0,
        gpu_padded(s).len() - s.len() < 4,
        gpu_padded(s).take(s.len() as int) == s,
        forall|i: int|
            s.len() <= i < gpu_padded(s).len() ==> #[trigger] gpu_padded(s)[i] == GpuCommand::Nop,
{
    let p = gpu_padded(s);
    lemma_align4_props(s.len() as int);
    assert(p.take(s.len() as int) =~= s);
    assert(forall|i: int| 0 <= i < p.len() ==> (#[trigger] p[i]).wf());
    lemma_decode_chunks_of_encode_chunks(p);
    lemma_encode_chunks_len(p);
    lemma_total_words_nonneg(p);
    assert(gpu_encode(s).len() >= 4);
}

proof fn lemma_decode_chunks_of_encode_chunks(s: Seq<GpuCommand>)
    requires
        s.len() % 4 == 0,
        forall|i: int| 0 <= i < s.len() ==> (#[trigger] s[i]).wf(),
    ensures
        gpu_decode_chunks(gpu_encode_chunks(s)) == Some(s),
    decreases s.len(),
{
    if s.len() == 0 {
        assert(gpu_encode_chunks(s) =~= Seq::<u8>::empty());
        assert(s =~= Seq::<GpuCommand>::empty());
    } else {
        let c0 = s[0];
        let c1 = s[1];
        let c2 = s[2];
        let c3 = s[3];
        let chunk = chunk_bytes(c0, c1, c2, c3);
        let rest = gpu_encode_chunks(s.skip(4));
        let bytes = chunk + rest;
        assert(gpu_encode_chunks(s) == bytes);
        c0.lemma_enc_len();
        c1.lemma_enc_len();
        c2.lemma_enc_len();
        c3.lemma_enc_len();
        lemma_chunk_len(c0, c1, c2, c3);
        let w0 = spec_num_params(c0.op());
        let w1 = spec_num_params(c1.op());
        let w2 = spec_num_params(c2.op());
        let w3 = spec_num_params(c3.op());
        let total = 4 + 4 * (w0 + w1 + w2 + w3);
        assert(bytes.len() >= total);
        assert(bytes[0] == c0.op() && bytes[1] == c1.op() && bytes[2] == c2.op() && bytes[3]
            == c3.op());
        assert(bytes.subrange(4, 4 + 4 * w0) =~= c0.enc_params());
        assert(bytes.subrange(4 + 4 * w0, 4 + 4 * w0 + 4 * w1) =~= c1.enc_params());
        assert(bytes.subrange(4 + 4 * w0 + 4 * w1, 4 + 4 * w0 + 4 * w1 + 4 * w2) =~= c2
            .enc_params());
        assert(bytes.subrange(4 + 4 * w0 + 4 * w1 + 4 * w2, total) =~= c3.enc_params());
        c0.lemma_dec_enc();
        c1.lemma_dec_enc();
        c2.lemma_dec_enc();
        c3.lemma_dec_enc();
        assert(bytes.skip(total) =~= rest);
        assert(forall|i: int| 0 <= i < s.skip(4).len() ==> (#[trigger] s.skip(4)[i]).wf());
        lemma_decode_chunks_of_encode_chunks(s.skip(4));
        assert(seq![c0, c1, c2, c3] + s.skip(4) =~= s);
    }
}

/// Re-encoding a decoded command list reproduces the bytes exactly, for
/// every byte run that an encode produced.
pub proof fn lemma_gpu_round_trip(s: Seq<GpuCommand>, bytes: Seq<u8>)
    requires
        forall|i: int| 0 <= i < s.len() ==> (#[trigger] s[i]).wf(),
        s.len() > 0,
        bytes == gpu_encode(s),
    ensures
        gpu_list_decode(bytes) is Some,
        gpu_encode(gpu_list_decode(bytes)->Some_0) == bytes,
{
    lemma_gpu_decode_of_encode(s);
    let p = gpu_padded(s);
    lemma_align4_exact(p.len() as int);
    assert(gpu_padded(p) =~= p);
}

} // verus!
