//! Bones: a `NameList` of offsets into variable-size bone-matrix records.
//! A record's 16-bit flag word selects which of translation, rotation and
//! scale are stored and how the rotation is packed; the record decodes to a
//! 4x4 fixed-point transform.

use crate::error::AppError;
use crate::traits::BinarySerializable;
use crate::fixed_1_19_12::Fixed1_19_12;
use crate::fixed_1_3_12::Fixed1_3_12;
use crate::fx_matrix::fx_identity;
use crate::fx_matrix::fx_mul;
use crate::fx_matrix::FxMatrix;
use crate::lebytes::i16_bits;
use crate::lebytes::i16_from_bits;
use crate::lebytes::i16_of_u16;
use crate::lebytes::i32_bits;
use crate::lebytes::i32_from_bits;
use crate::lebytes::i32_of_u32;
use crate::lebytes::read_u16;
use crate::lebytes::read_u32;
use crate::lebytes::u16_of_i16;
use crate::lebytes::u32_of_i32;
use crate::lebytes::write_u16;
use crate::lebytes::write_u32;
use crate::name::Name;
use crate::name_list::NameList;
use vstd::bytes::spec_u16_from_le_bytes;
use vstd::bytes::spec_u16_to_le_bytes;
use vstd::bytes::spec_u32_to_le_bytes;
use vstd::prelude::*;
use vstd::slice::slice_subrange;

verus! {

/// The 16-bit flag word of a bone-matrix record.
#[derive(Clone, Copy, Debug, PartialEq, Eq, Structural)]
pub struct BoneMatrixFlags {
    pub flags: u16,
}

impl BoneMatrixFlags {
    pub fn from_u16(flags: u16) -> (r: BoneMatrixFlags)
        ensures
            r.flags == flags,
    {
        BoneMatrixFlags { flags }
    }

    /// Translation absent.
    pub open spec fn spec_t(self) -> bool {
        self.flags as int % 2 == 1
    }

    /// Rotation mode: stored rotation absent unless packed.
    pub open spec fn spec_rm(self) -> bool {
        (self.flags as int / 2) % 2 == 1
    }

    /// Scale absent.
    pub open spec fn spec_s(self) -> bool {
        (self.flags as int / 4) % 2 == 1
    }

    /// Rotation packed into two coefficients.
    pub open spec fn spec_rp(self) -> bool {
        (self.flags as int / 8) % 2 == 1
    }

    /// Which of the nine canonical sparse layouts the packed rotation
    /// uses.
    pub open spec fn spec_form(self) -> int {
        (self.flags as int / 16) % 16
    }

    pub open spec fn spec_neg_one(self) -> bool {
        (self.flags as int / 256) % 2 == 1
    }

    pub open spec fn spec_neg_c(self) -> bool {
        (self.flags as int / 512) % 2 == 1
    }

    pub open spec fn spec_neg_d(self) -> bool {
        (self.flags as int / 1024) % 2 == 1
    }

    pub fn t(&self) -> (r: bool)
        ensures
            r == self.spec_t(),
    {
        self.flags % 2 == 1
    }

    pub fn rm(&self) -> (r: bool)
        ensures
            r == self.spec_rm(),
    {
        (self.flags / 2) % 2 == 1
    }

    pub fn s(&self) -> (r: bool)
        ensures
            r == self.spec_s(),
    {
        (self.flags / 4) % 2 == 1
    }

    pub fn rp(&self) -> (r: bool)
        ensures
            r == self.spec_rp(),
    {
        (self.flags / 8) % 2 == 1
    }

    pub fn form(&self) -> (r: u8)
        ensures
            r == self.spec_form(),
    {
        ((self.flags / 16) % 16) as u8
    }

    pub fn neg_one(&self) -> (r: bool)
        ensures
            r == self.spec_neg_one(),
    {
        (self.flags / 256) % 2 == 1
    }

    pub fn neg_c(&self) -> (r: bool)
        ensures
            r == self.spec_neg_c(),
    {
        (self.flags / 512) % 2 == 1
    }

    pub fn neg_d(&self) -> (r: bool)
        ensures
            r == self.spec_neg_d(),
    {
        (self.flags / 1024) % 2 == 1
    }
}

/// A stored translation: three 1.19.12 values.
#[derive(Clone, Copy, Debug, PartialEq, Eq, Structural)]
pub struct TranslationMatrix {
    pub x: Fixed1_19_12,
    pub y: Fixed1_19_12,
    pub z: Fixed1_19_12,
}

impl TranslationMatrix {
    pub open spec fn enc(self) -> Seq<u8> {
        spec_u32_to_le_bytes(u32_of_i32(self.x.value as int) as u32) + spec_u32_to_le_bytes(
            u32_of_i32(self.y.value as int) as u32,
        ) + spec_u32_to_le_bytes(u32_of_i32(self.z.value as int) as u32)
    }

    /// Reads the component when the flag says it is stored (`t` clear).
    pub fn from_bytes(t: bool, bytes: &[u8]) -> (r: Result<Option<TranslationMatrix>, AppError>)
        ensures
            t ==> r == Result::<Option<TranslationMatrix>, AppError>::Ok(None),
            !t ==> (r is Ok <==> bytes@.len() >= 12),
            !t && r is Ok ==> r->Ok_0 is Some && r->Ok_0->Some_0.enc() == bytes@.subrange(0, 12),
    {
        if t {
            return Ok(None);
        }
        if bytes.len() < 12 {
            return Err(AppError::new("Translation matrix needs at least 12 bytes"));
        }
        let m = TranslationMatrix {
            x: Fixed1_19_12::from_i32(i32_from_bits(read_u32(bytes, 0))),
            y: Fixed1_19_12::from_i32(i32_from_bits(read_u32(bytes, 4))),
            z: Fixed1_19_12::from_i32(i32_from_bits(read_u32(bytes, 8))),
        };
        proof {
            vstd::bytes::lemma_auto_spec_u32_to_from_le_bytes();
            assert(m.enc() =~= bytes@.subrange(0, 12));
        }
        Ok(Some(m))
    }

    pub fn write_bytes(&self, buffer: &mut Vec<u8>, pos: usize)
        requires
            pos + 12 <= old(buffer)@.len(),
        ensures
            final(buffer)@.len() == old(buffer)@.len(),
            final(buffer)@.subrange(pos as int, pos + 12) == self.enc(),
            forall|i: int|
                0 <= i < final(buffer)@.len() && !(pos <= i < pos + 12) ==> final(buffer)@[i]
                    == old(buffer)@[i],
    {
        let n = buffer.len();
        assert(pos + 12 <= n);
        write_u32(buffer, pos, i32_bits(self.x.value));
        write_u32(buffer, pos + 4, i32_bits(self.y.value));
        write_u32(buffer, pos + 8, i32_bits(self.z.value));
        assert(buffer@.subrange(pos as int, pos + 12) =~= self.enc());
    }

    /// The stored byte length of a translation component.
    pub fn size() -> (r: usize)
        ensures
            r == 12,
    {
        12
    }
}

/// A stored scale: three 1.19.12 values on the diagonal.
#[derive(Clone, Copy, Debug, PartialEq, Eq, Structural)]
pub struct ScaleMatrix {
    pub x: Fixed1_19_12,
    pub y: Fixed1_19_12,
    pub z: Fixed1_19_12,
}

impl ScaleMatrix {
    pub open spec fn enc(self) -> Seq<u8> {
        spec_u32_to_le_bytes(u32_of_i32(self.x.value as int) as u32) + spec_u32_to_le_bytes(
            u32_of_i32(self.y.value as int) as u32,
        ) + spec_u32_to_le_bytes(u32_of_i32(self.z.value as int) as u32)
    }

    /// Reads the component when the flag says it is stored (`s` clear).
    pub fn from_bytes(s: bool, bytes: &[u8]) -> (r: Result<Option<ScaleMatrix>, AppError>)
        ensures
            s ==> r == Result::<Option<ScaleMatrix>, AppError>::Ok(None),
            !s ==> (r is Ok <==> bytes@.len() >= 12),
            !s && r is Ok ==> r->Ok_0 is Some && r->Ok_0->Some_0.enc() == bytes@.subrange(0, 12),
    {
        if s {
            return Ok(None);
        }
        if bytes.len() < 12 {
            return Err(AppError::new("Scale matrix needs at least 12 bytes"));
        }
        let m = ScaleMatrix {
            x: Fixed1_19_12::from_i32(i32_from_bits(read_u32(bytes, 0))),
            y: Fixed1_19_12::from_i32(i32_from_bits(read_u32(bytes, 4))),
            z: Fixed1_19_12::from_i32(i32_from_bits(read_u32(bytes, 8))),
        };
        proof {
            vstd::bytes::lemma_auto_spec_u32_to_from_le_bytes();
            assert(m.enc() =~= bytes@.subrange(0, 12));
        }
        Ok(Some(m))
    }

    pub fn write_bytes(&self, buffer: &mut Vec<u8>, pos: usize)
        requires
            pos + 12 <= old(buffer)@.len(),
        ensures
            final(buffer)@.len() == old(buffer)@.len(),
            final(buffer)@.subrange(pos as int, pos + 12) == self.enc(),
            forall|i: int|
                0 <= i < final(buffer)@.len() && !(pos <= i < pos + 12) ==> final(buffer)@[i]
                    == old(buffer)@[i],
    {
        let n = buffer.len();
        assert(pos + 12 <= n);
        write_u32(buffer, pos, i32_bits(self.x.value));
        write_u32(buffer, pos + 4, i32_bits(self.y.value));
        write_u32(buffer, pos + 8, i32_bits(self.z.value));
        assert(buffer@.subrange(pos as int, pos + 12) =~= self.enc());
    }

    /// The stored byte length of a scale component.
    pub fn size() -> (r: usize)
        ensures
            r == 12,
    {
        12
    }
}

/// A stored rotation: either two packed coefficients (`rp`) or eight
/// 1.3.12 coefficients of a 3x3 matrix whose ninth entry is the record's
/// `m0`.
#[derive(Clone, Debug)]
pub struct RotationMatrix {
    pub data: Vec<Fixed1_3_12>,
}

impl RotationMatrix {
    pub open spec fn wf(self) -> bool {
        self.data@.len() == 8
    }

    /// The stored byte length for the given flags.
    pub open spec fn spec_size(rp: bool, rm: bool) -> int {
        if rp {
            4
        } else if !rm {
            16
        } else {
            0
        }
    }

    pub open spec fn enc(self, rp: bool, rm: bool) -> Seq<u8> {
        if rp {
            spec_u16_to_le_bytes(u16_of_i16(self.data@[0].value as int) as u16)
                + spec_u16_to_le_bytes(u16_of_i16(self.data@[1].value as int) as u16)
        } else if !rm {
            spec_u16_to_le_bytes(u16_of_i16(self.data@[0].value as int) as u16)
                + spec_u16_to_le_bytes(u16_of_i16(self.data@[1].value as int) as u16)
                + spec_u16_to_le_bytes(u16_of_i16(self.data@[2].value as int) as u16)
                + spec_u16_to_le_bytes(u16_of_i16(self.data@[3].value as int) as u16)
                + spec_u16_to_le_bytes(u16_of_i16(self.data@[4].value as int) as u16)
                + spec_u16_to_le_bytes(u16_of_i16(self.data@[5].value as int) as u16)
                + spec_u16_to_le_bytes(u16_of_i16(self.data@[6].value as int) as u16)
                + spec_u16_to_le_bytes(u16_of_i16(self.data@[7].value as int) as u16)
        } else {
            Seq::empty()
        }
    }

    /// Reads the component in the form the flags select: packed (`rp`),
    /// full (`rm` clear), or absent.
    pub fn from_bytes(rp: bool, rm: bool, bytes: &[u8]) -> (r: Result<
        Option<RotationMatrix>,
        AppError,
    >)
        ensures
            rp ==> (r is Ok <==> bytes@.len() >= 4),
            rp && r is Ok ==> r->Ok_0 is Some && r->Ok_0->Some_0.wf()
                && r->Ok_0->Some_0.enc(rp, rm) == bytes@.subrange(0, 4),
            !rp && !rm ==> (r is Ok <==> bytes@.len() >= 16),
            !rp && !rm && r is Ok ==> r->Ok_0 is Some && r->Ok_0->Some_0.wf()
                && r->Ok_0->Some_0.enc(rp, rm) == bytes@.subrange(0, 16),
            !rp && rm ==> r == Result::<Option<RotationMatrix>, AppError>::Ok(None),
    {
        if rp {
            if bytes.len() < 4 {
                return Err(AppError::new("Rotation matrix with rp=1 needs at least 4 bytes"));
            }
            let a = Fixed1_3_12::from_i16(i16_from_bits(read_u16(bytes, 0)));
            let b = Fixed1_3_12::from_i16(i16_from_bits(read_u16(bytes, 2)));
            let zero = Fixed1_3_12::from_i16(0);
            let mut data: Vec<Fixed1_3_12> = Vec::new();
            data.push(a);
            data.push(b);
            data.push(zero);
            data.push(zero);
            data.push(zero);
            data.push(zero);
            data.push(zero);
            data.push(zero);
            let m = RotationMatrix { data };
            proof {
                vstd::bytes::lemma_auto_spec_u16_to_from_le_bytes();
                assert(m.enc(rp, rm) =~= bytes@.subrange(0, 4));
            }
            return Ok(Some(m));
        }
        if !rm {
            if bytes.len() < 16 {
                return Err(AppError::new("Rotation matrix with rm=0 needs at least 16 bytes"));
            }
            let mut data: Vec<Fixed1_3_12> = Vec::new();
            let mut k: usize = 0;
            while k < 8
                invariant
                    k <= 8,
                    bytes@.len() >= 16,
                    data@.len() == k,
                    forall|j: int|
                        0 <= j < k ==> (#[trigger] data@[j]).value == i16_of_u16(
                            spec_u16_from_le_bytes(bytes@.subrange(2 * j, 2 * j + 2)) as int,
                        ),
                decreases 8 - k,
            {
                data.push(Fixed1_3_12::from_i16(i16_from_bits(read_u16(bytes, 2 * k))));
                k = k + 1;
            }
            let m = RotationMatrix { data };
            proof {
                vstd::bytes::lemma_auto_spec_u16_to_from_le_bytes();
                assert(m.enc(rp, rm) =~= bytes@.subrange(0, 16));
            }
            return Ok(Some(m));
        }
        Ok(None)
    }

    pub fn write_bytes(&self, rp: bool, rm: bool, buffer: &mut Vec<u8>, pos: usize)
        requires
            self.wf(),
            pos + RotationMatrix::spec_size(rp, rm) <= old(buffer)@.len(),
        ensures
            final(buffer)@.len() == old(buffer)@.len(),
            final(buffer)@.subrange(pos as int, pos + RotationMatrix::spec_size(rp, rm))
                == self.enc(rp, rm),
            forall|i: int|
                0 <= i < final(buffer)@.len() && !(pos <= i < pos + RotationMatrix::spec_size(
                    rp,
                    rm,
                )) ==> final(buffer)@[i] == old(buffer)@[i],
    {
        let n = buffer.len();
        if rp {
            assert(pos + 4 <= n);
            write_u16(buffer, pos, i16_bits(self.data[0].value));
            write_u16(buffer, pos + 2, i16_bits(self.data[1].value));
            assert(buffer@.subrange(pos as int, pos + 4) =~= self.enc(rp, rm));
        } else if !rm {
            assert(pos + 16 <= n);
            write_u16(buffer, pos, i16_bits(self.data[0].value));
            write_u16(buffer, pos + 2, i16_bits(self.data[1].value));
            write_u16(buffer, pos + 4, i16_bits(self.data[2].value));
            write_u16(buffer, pos + 6, i16_bits(self.data[3].value));
            write_u16(buffer, pos + 8, i16_bits(self.data[4].value));
            write_u16(buffer, pos + 10, i16_bits(self.data[5].value));
            write_u16(buffer, pos + 12, i16_bits(self.data[6].value));
            write_u16(buffer, pos + 14, i16_bits(self.data[7].value));
            assert(buffer@.subrange(pos as int, pos + 16) =~= self.enc(rp, rm));
        } else {
            assert(buffer@.subrange(pos as int, pos as int) =~= self.enc(rp, rm));
        }
    }

    /// The stored byte length for the given flags.
    pub fn size(rp: bool, rm: bool) -> (r: usize)
        ensures
            r == RotationMatrix::spec_size(rp, rm),
    {
        if rp {
            4
        } else if !rm {
            16
        } else {
            0
        }
    }

    /// The nine 3x3 coefficients at scale 4096 that the stored form
    /// denotes, or nothing when no rotation applies.
    pub open spec fn spec_matrix_data(self, flags: BoneMatrixFlags, m0: Fixed1_3_12) -> Option<
        Seq<i64>,
    > {
        if flags.spec_rp() {
            let a = self.data@[0].value as int;
            let b = self.data@[1].value as int;
            let form = flags.spec_form();
            if form >= 9 {
                Some(seq![(-a) as i64, 0i64, 0i64, 0i64, 0i64, 0i64, 0i64, 0i64, 0i64])
            } else {
                let one: int = if flags.spec_neg_one() {
                    -4096
                } else {
                    4096
                };
                let c: int = if flags.spec_neg_c() {
                    -b
                } else {
                    b
                };
                let d: int = if flags.spec_neg_d() {
                    -a
                } else {
                    a
                };
                if form == 0 {
                    Some(
                        seq![
                            one as i64,
                            0i64,
                            0i64,
                            0i64,
                            a as i64,
                            c as i64,
                            0i64,
                            b as i64,
                            d as i64,
                        ],
                    )
                } else if form == 1 {
                    Some(
                        seq![
                            0i64,
                            a as i64,
                            c as i64,
                            one as i64,
                            0i64,
                            0i64,
                            0i64,
                            b as i64,
                            d as i64,
                        ],
                    )
                } else if form == 2 {
                    Some(
                        seq![
                            0i64,
                            a as i64,
                            c as i64,
                            0i64,
                            b as i64,
                            d as i64,
                            one as i64,
                            0i64,
                            0i64,
                        ],
                    )
                } else if form == 3 {
                    Some(
                        seq![
                            0i64,
                            one as i64,
                            0i64,
                            a as i64,
                            0i64,
                            c as i64,
                            b as i64,
                            0i64,
                            d as i64,
                        ],
                    )
                } else if form == 4 {
                    Some(
                        seq![
                            a as i64,
                            0i64,
                            c as i64,
                            0i64,
                            one as i64,
                            0i64,
                            b as i64,
                            0i64,
                            d as i64,
                        ],
                    )
                } else if form == 5 {
                    Some(
                        seq![
                            a as i64,
                            0i64,
                            c as i64,
                            b as i64,
                            0i64,
                            d as i64,
                            0i64,
                            one as i64,
                            0i64,
                        ],
                    )
                } else if form == 6 {
                    Some(
                        seq![
                            0i64,
                            0i64,
                            one as i64,
                            a as i64,
                            c as i64,
                            0i64,
                            b as i64,
                            d as i64,
                            0i64,
                        ],
                    )
                } else if form == 7 {
                    Some(
                        seq![
                            a as i64,
                            c as i64,
                            0i64,
                            0i64,
                            0i64,
                            one as i64,
                            b as i64,
                            d as i64,
                            0i64,
                        ],
                    )
                } else {
                    Some(
                        seq![
                            a as i64,
                            c as i64,
                            0i64,
                            b as i64,
                            d as i64,
                            0i64,
                            0i64,
                            0i64,
                            one as i64,
                        ],
                    )
                }
            }
        } else if !flags.spec_rm() {
            Some(
                seq![
                    m0.value as i64,
                    self.data@[2].value as i64,
                    self.data@[5].value as i64,
                    self.data@[0].value as i64,
                    self.data@[3].value as i64,
                    self.data@[6].value as i64,
                    self.data@[1].value as i64,
                    self.data@[4].value as i64,
                    self.data@[7].value as i64,
                ],
            )
        } else {
            None
        }
    }

    /// The denoted 3x3 coefficients, as `spec_matrix_data` states.
    pub fn matrix_data(&self, flags: BoneMatrixFlags, m0: Fixed1_3_12) -> (r: Option<Vec<i64>>)
        requires
            self.wf(),
        ensures
            match r {
                Some(v) => self.spec_matrix_data(flags, m0) == Some(v@) && v@.len() == 9,
                None => self.spec_matrix_data(flags, m0) is None,
            },
    {
        if flags.rp() {
            let a = self.data[0].value as i64;
            let b = self.data[1].value as i64;
            let form = flags.form();
            let mut v: Vec<i64> = Vec::new();
            if form >= 9 {
                v.push(-a);
                v.push(0);
                v.push(0);
                v.push(0);
                v.push(0);
                v.push(0);
                v.push(0);
                v.push(0);
                v.push(0);
                proof {
                    assert(v@ =~= self.spec_matrix_data(flags, m0)->Some_0);
                }
                return Some(v);
            }
            let one: i64 = if flags.neg_one() {
                -4096
            } else {
                4096
            };
            let c: i64 = if flags.neg_c() {
                -b
            } else {
                b
            };
            let d: i64 = if flags.neg_d() {
                -a
            } else {
                a
            };
            if form == 0 {
                v.push(one);
                v.push(0);
                v.push(0);
                v.push(0);
                v.push(a);
                v.push(c);
                v.push(0);
                v.push(b);
                v.push(d);
            } else if form == 1 {
                v.push(0);
                v.push(a);
                v.push(c);
                v.push(one);
                v.push(0);
                v.push(0);
                v.push(0);
                v.push(b);
                v.push(d);
            } else if form == 2 {
                v.push(0);
                v.push(a);
                v.push(c);
                v.push(0);
                v.push(b);
                v.push(d);
                v.push(one);
                v.push(0);
                v.push(0);
            } else if form == 3 {
                v.push(0);
                v.push(one);
                v.push(0);
                v.push(a);
                v.push(0);
                v.push(c);
                v.push(b);
                v.push(0);
                v.push(d);
            } else if form == 4 {
                v.push(a);
                v.push(0);
                v.push(c);
                v.push(0);
                v.push(one);
                v.push(0);
                v.push(b);
                v.push(0);
                v.push(d);
            } else if form == 5 {
                v.push(a);
                v.push(0);
                v.push(c);
                v.push(b);
                v.push(0);
                v.push(d);
                v.push(0);
                v.push(one);
                v.push(0);
            } else if form == 6 {
                v.push(0);
                v.push(0);
                v.push(one);
                v.push(a);
                v.push(c);
                v.push(0);
                v.push(b);
                v.push(d);
                v.push(0);
            } else if form == 7 {
                v.push(a);
                v.push(c);
                v.push(0);
                v.push(0);
                v.push(0);
                v.push(one);
                v.push(b);
                v.push(d);
                v.push(0);
            } else {
                v.push(a);
                v.push(c);
                v.push(0);
                v.push(b);
                v.push(d);
                v.push(0);
                v.push(0);
                v.push(0);
                v.push(one);
            }
            proof {
                assert(v@ =~= self.spec_matrix_data(flags, m0)->Some_0);
            }
            Some(v)
        } else if !flags.rm() {
            let mut v: Vec<i64> = Vec::new();
            v.push(m0.value as i64);
            v.push(self.data[2].value as i64);
            v.push(self.data[5].value as i64);
            v.push(self.data[0].value as i64);
            v.push(self.data[3].value as i64);
            v.push(self.data[6].value as i64);
            v.push(self.data[1].value as i64);
            v.push(self.data[4].value as i64);
            v.push(self.data[7].value as i64);
            proof {
                assert(v@ =~= self.spec_matrix_data(flags, m0)->Some_0);
            }
            Some(v)
        } else {
            None
        }
    }
}


/// One bone-matrix record: flags, the shared ninth rotation coefficient,
/// and the optional translation, rotation and scale components.
#[derive(Clone, Debug)]
pub struct BoneMatrix {
    pub flags: BoneMatrixFlags,
    pub m0: Fixed1_3_12,
    pub translation: Option<TranslationMatrix>,
    pub rotation: Option<RotationMatrix>,
    pub scale: Option<ScaleMatrix>,
}

impl BoneMatrix {
    /// Each component is present exactly when its flag says so.
    pub open spec fn wf(self) -> bool {
        &&& self.translation is Some <==> !self.flags.spec_t()
        &&& self.rotation is Some <==> (self.flags.spec_rp() || !self.flags.spec_rm())
        &&& self.scale is Some <==> !self.flags.spec_s()
        &&& self.rotation is Some ==> self.rotation->Some_0.wf()
    }

    /// The stored byte length: flags and `m0`, plus each present
    /// component.
    pub open spec fn spec_size(self) -> int {
        4 + (if self.flags.spec_t() {
            0int
        } else {
            12int
        }) + RotationMatrix::spec_size(self.flags.spec_rp(), self.flags.spec_rm()) + (
        if self.flags.spec_s() {
            0int
        } else {
            12int
        })
    }

    pub open spec fn enc(self) -> Seq<u8> {
        spec_u16_to_le_bytes(self.flags.flags) + spec_u16_to_le_bytes(
            u16_of_i16(self.m0.value as int) as u16,
        ) + (match self.translation {
            Some(t) => t.enc(),
            None => Seq::empty(),
        }) + (match self.rotation {
            Some(rt) => rt.enc(self.flags.spec_rp(), self.flags.spec_rm()),
            None => Seq::empty(),
        }) + (match self.scale {
            Some(sc) => sc.enc(),
            None => Seq::empty(),
        })
    }

    /// The record length that a flag word declares: flags and `m0`, plus
    /// each component the flags mark present.
    pub open spec fn spec_needed(f: BoneMatrixFlags) -> int {
        4 + (if f.spec_t() {
            0int
        } else {
            12int
        }) + RotationMatrix::spec_size(f.spec_rp(), f.spec_rm()) + (if f.spec_s() {
            0int
        } else {
            12int
        })
    }

    pub fn from_bytes(bytes: &[u8]) -> (r: Result<BoneMatrix, AppError>)
        ensures
            r is Ok <==> bytes@.len() >= 4 && bytes@.len() >= BoneMatrix::spec_needed(
                BoneMatrixFlags {
                    flags: spec_u16_from_le_bytes(bytes@.subrange(0, 2)) as u16,
                },
            ),
            r is Ok ==> {
                let bm = r->Ok_0;
                &&& bm.wf()
                &&& bm.flags.flags == spec_u16_from_le_bytes(bytes@.subrange(0, 2))
                &&& bm.m0.value as int == i16_of_u16(
                    spec_u16_from_le_bytes(bytes@.subrange(2, 4)) as int,
                )
                &&& bm.spec_size() == BoneMatrix::spec_needed(bm.flags)
                &&& bm.enc() == bytes@.subrange(0, bm.spec_size())
            },
    {
        let n = bytes.len();
        if n < 4 {
            return Err(AppError::new("Bone matrix needs at least 4 bytes"));
        }
        let flags = BoneMatrixFlags::from_u16(read_u16(bytes, 0));
        let m0 = Fixed1_3_12::from_i16(i16_from_bits(read_u16(bytes, 2)));
        let mut offset: usize = 4;
        let translation = match TranslationMatrix::from_bytes(
            flags.t(),
            slice_subrange(bytes, offset, n),
        ) {
            Ok(t) => t,
            Err(e) => return Err(e),
        };
        proof {
            if !flags.spec_t() {
                assert(bytes@.subrange(4, n as int).subrange(0, 12) =~= bytes@.subrange(4, 16));
            }
        }
        if translation.is_some() {
            offset = offset + 12;
        }
        let ghost rot_lo = offset as int;
        let rotation = match RotationMatrix::from_bytes(
            flags.rp(),
            flags.rm(),
            slice_subrange(bytes, offset, n),
        ) {
            Ok(rt) => rt,
            Err(e) => return Err(e),
        };
        proof {
            let sz = RotationMatrix::spec_size(flags.spec_rp(), flags.spec_rm());
            if rotation is Some {
                assert(bytes@.subrange(rot_lo, n as int).subrange(0, sz) =~= bytes@.subrange(
                    rot_lo,
                    rot_lo + sz,
                ));
            }
        }
        if rotation.is_some() {
            offset = offset + RotationMatrix::size(flags.rp(), flags.rm());
        }
        let ghost sc_lo = offset as int;
        let scale = match ScaleMatrix::from_bytes(flags.s(), slice_subrange(bytes, offset, n)) {
            Ok(sc) => sc,
            Err(e) => return Err(e),
        };
        proof {
            if !flags.spec_s() {
                assert(bytes@.subrange(sc_lo, n as int).subrange(0, 12) =~= bytes@.subrange(
                    sc_lo,
                    sc_lo + 12,
                ));
            }
        }
        let bm = BoneMatrix { flags, m0, translation, rotation, scale };
        proof {
            vstd::bytes::lemma_auto_spec_u16_to_from_le_bytes();
            assert(bm.enc() =~= bytes@.subrange(0, bm.spec_size()));
        }
        Ok(bm)
    }

    /// Writes the record at `buffer[pos..]`: flags, `m0`, then each
    /// present component in order.
    #[verifier::rlimit(60)]
    pub fn write_bytes(&self, buffer: &mut Vec<u8>, pos: usize)
        requires
            self.wf(),
            pos + self.spec_size() <= old(buffer)@.len(),
        ensures
            final(buffer)@.len() == old(buffer)@.len(),
            final(buffer)@.subrange(pos as int, pos + self.spec_size()) == self.enc(),
            forall|i: int|
                0 <= i < final(buffer)@.len() && !(pos <= i < pos + self.spec_size())
                    ==> final(buffer)@[i] == old(buffer)@[i],
    {
        let n = buffer.len();
        write_u16(buffer, pos, self.flags.flags);
        write_u16(buffer, pos + 2, i16_bits(self.m0.value));
        let mut offset: usize = 4;
        match &self.translation {
            Some(t) => {
                t.write_bytes(buffer, pos + offset);
                offset = offset + 12;
            },
            None => {},
        }
        match &self.rotation {
            Some(rt) => {
                rt.write_bytes(self.flags.rp(), self.flags.rm(), buffer, pos + offset);
                offset = offset + RotationMatrix::size(self.flags.rp(), self.flags.rm());
            },
            None => {},
        }
        match &self.scale {
            Some(sc) => {
                sc.write_bytes(buffer, pos + offset);
                offset = offset + 12;
            },
            None => {},
        }
        assert(buffer@.subrange(pos as int, pos + self.spec_size()) =~= self.enc());
    }

    /// The stored byte length of this record.
    pub fn size(&self) -> (r: usize)
        requires
            self.wf(),
        ensures
            r == self.spec_size(),
    {
        let mut size: usize = 4;
        if self.translation.is_some() {
            size = size + TranslationMatrix::size();
        }
        if self.rotation.is_some() {
            size = size + RotationMatrix::size(self.flags.rp(), self.flags.rm());
        }
        if self.scale.is_some() {
            size = size + ScaleMatrix::size();
        }
        size
    }

    /// The 4x4 transform this record denotes: scale on the diagonal, then
    /// the rotation applied, then the translation in the fourth column.
    pub open spec fn spec_to_matrix(self) -> Seq<i64> {
        let base = match self.scale {
            Some(sc) => fx_identity().update(0, sc.x.value as i64).update(
                5,
                sc.y.value as i64,
            ).update(10, sc.z.value as i64),
            None => fx_identity(),
        };
        let rotated = match self.rotation {
            Some(rt) => match rt.spec_matrix_data(self.flags, self.m0) {
                Some(rd) => fx_mul(
                    seq![
                        rd[0],
                        rd[1],
                        rd[2],
                        0i64,
                        rd[3],
                        rd[4],
                        rd[5],
                        0i64,
                        rd[6],
                        rd[7],
                        rd[8],
                        0i64,
                        0i64,
                        0i64,
                        0i64,
                        4096i64,
                    ],
                    base,
                ),
                None => base,
            },
            None => base,
        };
        match self.translation {
            Some(t) => fx_mul(
                fx_identity().update(3, t.x.value as i64).update(7, t.y.value as i64).update(
                    11,
                    t.z.value as i64,
                ),
                rotated,
            ),
            None => rotated,
        }
    }

    pub fn to_matrix(&self) -> (r: FxMatrix)
        requires
            self.wf(),
        ensures
            r.m@ == self.spec_to_matrix(),
    {
        let mut matrix = FxMatrix::identity();
        match &self.scale {
            Some(sc) => {
                matrix.set(0, 0, sc.x.value as i64);
                matrix.set(1, 1, sc.y.value as i64);
                matrix.set(2, 2, sc.z.value as i64);
            },
            None => {},
        }
        match &self.rotation {
            Some(rt) => {
                match rt.matrix_data(self.flags, self.m0) {
                    Some(rd) => {
                        let rot = FxMatrix {
                            m: [
                                rd[0],
                                rd[1],
                                rd[2],
                                0,
                                rd[3],
                                rd[4],
                                rd[5],
                                0,
                                rd[6],
                                rd[7],
                                rd[8],
                                0,
                                0,
                                0,
                                0,
                                4096,
                            ],
                        };
                        proof {
                            let spec_rd = rt.spec_matrix_data(self.flags, self.m0)->Some_0;
                            assert(rot.m@ =~= seq![
                                spec_rd[0],
                                spec_rd[1],
                                spec_rd[2],
                                0i64,
                                spec_rd[3],
                                spec_rd[4],
                                spec_rd[5],
                                0i64,
                                spec_rd[6],
                                spec_rd[7],
                                spec_rd[8],
                                0i64,
                                0i64,
                                0i64,
                                0i64,
                                4096i64,
                            ]);
                        }
                        matrix = rot.mul(&matrix);
                    },
                    None => {},
                }
            },
            None => {},
        }
        match &self.translation {
            Some(t) => {
                let mut translation_matrix = FxMatrix::identity();
                translation_matrix.set(0, 3, t.x.value as i64);
                translation_matrix.set(1, 3, t.y.value as i64);
                translation_matrix.set(2, 3, t.z.value as i64);
                matrix = translation_matrix.mul(&matrix);
            },
            None => {},
        }
        matrix
    }
}

/// The byte lengths of a run of bone-matrix records together.
pub open spec fn sum_bone_sizes(s: Seq<BoneMatrix>) -> int
    decreases s.len(),
{
    if s.len() == 0 {
        0
    } else {
        s[0].spec_size() + sum_bone_sizes(s.skip(1))
    }
}

pub proof fn lemma_sum_bone_sizes_nonneg(s: Seq<BoneMatrix>)
    ensures
        sum_bone_sizes(s) >= 0,
    decreases s.len(),
{
    if s.len() > 0 {
        lemma_sum_bone_sizes_nonneg(s.skip(1));
    }
}

/// Every way a bone-section decode can fail: the offset list itself, a
/// recorded offset past the buffer, or a record whose flag word asks for
/// more bytes than remain at its offset.
pub open spec fn bone_list_decode_err(bytes: Seq<u8>) -> bool {
    ||| crate::name_list::nl_decode_err::<u32>(bytes)
    ||| exists|i: int|
        #![trigger crate::name_list::nl_u32_at(bytes, i)]
        0 <= i < bytes[1] as int && {
            let off = crate::name_list::nl_u32_at(bytes, i);
            let sub = bytes.subrange(off, bytes.len() as int);
            ||| off > bytes.len()
            ||| sub.len() < 4
            ||| sub.len() < BoneMatrix::spec_needed(
                BoneMatrixFlags { flags: spec_u16_from_le_bytes(sub.subrange(0, 2)) as u16 },
            )
        }
}

/// The bone section: a `NameList` of record offsets plus the records they
/// point to, owned one-to-one.
#[derive(Clone, Debug)]
pub struct BoneList {
    pub bones: NameList<u32>,
    pub bone_matrices: Vec<BoneMatrix>,
}

impl BoneList {
    /// One record per name-list entry, every record well formed.
    pub open spec fn wf(self) -> bool {
        &&& self.bones.wf()
        &&& self.bone_matrices@.len() == self.bones.count as int
        &&& forall|i: int|
            0 <= i < self.bone_matrices@.len() ==> (#[trigger] self.bone_matrices@[i]).wf()
    }

    /// The recorded offsets place each record after the name list, in
    /// order and without overlap, inside the section's total size.
    pub open spec fn layout_ok(self) -> bool {
        &&& forall|i: int|
            0 <= i < self.bone_matrices@.len() ==> self.bones.size as int <= (
            #[trigger] self.bones.data@[i]) as int
        &&& forall|i: int|
            0 <= i < self.bone_matrices@.len() - 1 ==> (#[trigger] self.bones.data@[i]) as int
                + self.bone_matrices@[i].spec_size() <= self.bones.data@[i + 1] as int
        &&& self.bone_matrices@.len() > 0 ==> self.bones.data@[self.bone_matrices@.len()
            - 1] as int + self.bone_matrices@[self.bone_matrices@.len() - 1].spec_size()
            <= self.spec_size()
    }

    /// The section's byte length: the name list plus every record.
    pub open spec fn spec_size(self) -> int {
        self.bones.size as int + sum_bone_sizes(self.bone_matrices@)
    }

    pub fn from_bytes(bytes: &[u8]) -> (r: Result<BoneList, AppError>)
        ensures
            r is Err <==> bone_list_decode_err(bytes@),
            r is Ok ==> r->Ok_0.wf(),
            r is Ok ==> forall|k: int|
                0 <= k < r->Ok_0.bone_matrices@.len() ==> (
                #[trigger] r->Ok_0.bone_matrices@[k]).enc() == bytes@.subrange(
                    r->Ok_0.bones.data@[k] as int,
                    r->Ok_0.bones.data@[k] as int + r->Ok_0.bone_matrices@[k].spec_size(),
                ),
    {
        let n = bytes.len();
        let bones = match NameList::<u32>::from_bytes(bytes) {
            Ok(b) => b,
            Err(e) => return Err(e),
        };
        proof {
            vstd::bytes::lemma_auto_spec_u32_to_from_le_bytes();
            assert forall|k: int| 0 <= k < bones.count as int implies (
            #[trigger] bones.data@[k]) as int == crate::name_list::nl_u32_at(bytes@, k) by {
                assert(bones.data@[k].enc() == spec_u32_to_le_bytes(bones.data@[k]));
            };
        }
        let count = bones.len();
        let mut bone_matrices: Vec<BoneMatrix> = Vec::new();
        let mut i: usize = 0;
        while i < count
            invariant
                i <= count,
                n == bytes@.len(),
                count == bones.count as int,
                count == bytes@[1] as int,
                bones.wf(),
                bone_matrices@.len() == i,
                forall|k: int| 0 <= k < i ==> (#[trigger] bone_matrices@[k]).wf(),
                forall|k: int|
                    0 <= k < count ==> (#[trigger] bones.data@[k]) as int
                        == crate::name_list::nl_u32_at(bytes@, k),
                forall|k: int|
                    0 <= k < i ==> #[trigger] crate::name_list::nl_u32_at(bytes@, k) <= n as int
                        && {
                        let sub = bytes@.subrange(crate::name_list::nl_u32_at(bytes@, k), n as int);
                        sub.len() >= 4 && sub.len() >= BoneMatrix::spec_needed(
                            BoneMatrixFlags {
                                flags: spec_u16_from_le_bytes(sub.subrange(0, 2)) as u16,
                            },
                        )
                    },
                forall|k: int|
                    0 <= k < i ==> (#[trigger] bone_matrices@[k]).enc() == bytes@.subrange(
                        bones.data@[k] as int,
                        bones.data@[k] as int + bone_matrices@[k].spec_size(),
                    ),
            decreases count - i,
        {
            let offset = match bones.get(i) {
                Some(o) => *o,
                None => {
                    proof {
                        assert(false);
                    }
                    0
                },
            };
            if offset as usize > n {
                return Err(AppError::new("Bone matrix offset is out of bounds"));
            }
            let bm = match BoneMatrix::from_bytes(slice_subrange(bytes, offset as usize, n)) {
                Ok(b) => b,
                Err(e) => return Err(e),
            };
            proof {
                assert(bytes@.subrange(offset as int, n as int).subrange(0, bm.spec_size())
                    =~= bytes@.subrange(offset as int, offset as int + bm.spec_size()));
            }
            bone_matrices.push(bm);
            i = i + 1;
        }
        proof {
            assert(!bone_list_decode_err(bytes@));
        }
        Ok(BoneList { bones, bone_matrices })
    }

    /// Writes the name list and then each record at its recorded offset.
    #[verifier::rlimit(80)]
    pub fn write_bytes(&self, buffer: &mut Vec<u8>, pos: usize)
        requires
            self.wf(),
            self.layout_ok(),
            pos + self.spec_size() <= old(buffer)@.len(),
        ensures
            final(buffer)@.len() == old(buffer)@.len(),
            forall|i: int|
                0 <= i < final(buffer)@.len() && !(pos <= i < pos + self.spec_size())
                    ==> final(buffer)@[i] == old(buffer)@[i],
            forall|k: int|
                0 <= k < self.bone_matrices@.len() ==> final(buffer)@.subrange(
                    pos + self.bones.data@[k] as int,
                    pos + self.bones.data@[k] as int + self.bone_matrices@[k].spec_size(),
                ) == (#[trigger] self.bone_matrices@[k]).enc(),
            crate::name_list::nl_written(self.bones, final(buffer)@, pos as int),
    {
        proof {
            lemma_sum_bone_sizes_nonneg(self.bone_matrices@);
        }
        let buf_len = buffer.len();
        self.bones.write_bytes(buffer, pos);
        let ghost after_bones = buffer@;
        let count = self.bone_matrices.len();
        let mut i: usize = 0;
        while i < count
            invariant
                i <= count,
                count == self.bone_matrices@.len(),
                self.wf(),
                self.layout_ok(),
                pos + self.spec_size() <= buffer@.len(),
                buffer@.len() <= usize::MAX,
                buffer@.len() == old(buffer)@.len(),
                buffer@.len() == after_bones.len(),
                forall|k: int|
                    0 <= k < buffer@.len() && !(i > 0 && pos + self.bones.size as int <= k < pos
                        + self.bones.data@[i - 1] as int + self.bone_matrices@[i
                        - 1].spec_size()) ==> buffer@[k] == after_bones[k],
                forall|k: int|
                    0 <= k < i ==> buffer@.subrange(
                        pos + self.bones.data@[k] as int,
                        pos + self.bones.data@[k] as int + self.bone_matrices@[k].spec_size(),
                    ) == (#[trigger] self.bone_matrices@[k]).enc(),
            decreases count - i,
        {
            proof {
                self.lemma_offsets_ordered(i as int);
                if i > 0 {
                    self.lemma_offsets_ordered(i - 1);
                }
            }
            let ghost before = buffer@;
            let offset = match self.bones.get(i) {
                Some(o) => *o,
                None => {
                    proof {
                        assert(false);
                    }
                    0
                },
            };
            let bm = &self.bone_matrices[i];
            bm.write_bytes(buffer, pos + offset as usize);
            proof {
                assert forall|k: int|
                    0 <= k < i implies buffer@.subrange(
                    pos + self.bones.data@[k] as int,
                    pos + self.bones.data@[k] as int + self.bone_matrices@[k].spec_size(),
                ) == (#[trigger] self.bone_matrices@[k]).enc() by {
                    self.lemma_offsets_ordered(k);
                    if k < i {
                        self.lemma_offsets_chain(k, i as int);
                    }
                    assert(buffer@.subrange(
                        pos + self.bones.data@[k] as int,
                        pos + self.bones.data@[k] as int + self.bone_matrices@[k].spec_size(),
                    ) =~= before.subrange(
                        pos + self.bones.data@[k] as int,
                        pos + self.bones.data@[k] as int + self.bone_matrices@[k].spec_size(),
                    ));
                };
            }
            i = i + 1;
        }
        proof {
            crate::name_list::lemma_nl_written_frame(self.bones, after_bones, buffer@, pos as int);
        }
    }

    /// Earlier records end before later records begin.
    proof fn lemma_offsets_chain(&self, a: int, b: int)
        requires
            self.wf(),
            self.layout_ok(),
            0 <= a < b < self.bone_matrices@.len(),
        ensures
            self.bones.data@[a] as int + self.bone_matrices@[a].spec_size()
                <= self.bones.data@[b] as int,
        decreases b - a,
    {
        if a + 1 < b {
            self.lemma_offsets_chain(a, b - 1);
            self.lemma_offsets_ordered(b - 1);
        }
    }

    /// Every record lies between the name list and the section end.
    pub proof fn lemma_offsets_ordered(&self, i: int)
        requires
            self.wf(),
            self.layout_ok(),
            0 <= i < self.bone_matrices@.len(),
        ensures
            self.bones.size as int <= self.bones.data@[i] as int,
            self.bones.data@[i] as int + self.bone_matrices@[i].spec_size() <= self.spec_size(),
        decreases self.bone_matrices@.len() - i,
    {
        if i < self.bone_matrices@.len() - 1 {
            self.lemma_offsets_ordered(i + 1);
        }
    }

    /// The number of bones.
    pub fn len(&self) -> (r: usize)
        ensures
            r == self.bones.count as int,
    {
        self.bones.len()
    }

    /// The section's byte length.
    pub fn size(&self) -> (r: usize)
        requires
            forall|i: int|
                0 <= i < self.bone_matrices@.len() ==> (#[trigger] self.bone_matrices@[i]).wf(),
            self.spec_size() <= usize::MAX,
        ensures
            r == self.spec_size(),
    {
        let mut total: usize = self.bones.size();
        let count = self.bone_matrices.len();
        let mut i: usize = 0;
        proof {
            assert(self.bone_matrices@.skip(0) =~= self.bone_matrices@);
        }
        while i < count
            invariant
                i <= count,
                count == self.bone_matrices@.len(),
                forall|k: int|
                    0 <= k < self.bone_matrices@.len() ==> (
                    #[trigger] self.bone_matrices@[k]).wf(),
                self.spec_size() <= usize::MAX,
                self.spec_size() == total + sum_bone_sizes(self.bone_matrices@.skip(i as int)),
            decreases count - i,
        {
            proof {
                assert(self.bone_matrices@.skip(i as int)[0] == self.bone_matrices@[i as int]);
                assert(self.bone_matrices@.skip(i as int).skip(1) =~= self.bone_matrices@.skip(
                    i + 1,
                ));
                lemma_sum_bone_sizes_nonneg(self.bone_matrices@.skip(i + 1));
            }
            let bm = &self.bone_matrices[i];
            total = total + bm.size();
            i = i + 1;
        }
        proof {
            assert(self.bone_matrices@.skip(count as int) =~= Seq::<BoneMatrix>::empty());
        }
        total
    }

    /// The name of bone `index`, if any.
    pub fn get_name(&self, index: usize) -> (r: Option<&Name>)
        ensures
            index < self.bones.names@.len() ==> r is Some && *r->Some_0
                == self.bones.names@[index as int],
            index >= self.bones.names@.len() ==> r is None,
    {
        self.bones.get_name(index)
    }

    /// The record of bone `index`, if any.
    pub fn get_bone_matrix(&self, index: usize) -> (r: Option<&BoneMatrix>)
        ensures
            index < self.bone_matrices@.len() ==> r is Some && *r->Some_0
                == self.bone_matrices@[index as int],
            index >= self.bone_matrices@.len() ==> r is None,
    {
        if index < self.bone_matrices.len() {
            Some(&self.bone_matrices[index])
        } else {
            None
        }
    }

    /// The section as a rebase leaves it: only the name list's recorded
    /// size changes.
    pub open spec fn spec_rebased(self) -> BoneList {
        (BoneList { bones: self.bones.spec_rebased(), ..self })
    }

    /// Rebasing is idempotent: the recomputed size depends only on record
    /// counts, which a rebase does not touch.
    pub proof fn lemma_rebase_idempotent(self)
        requires
            self.bones.computed_size() <= 0xFFFF,
        ensures
            self.spec_rebased().spec_rebased() == self.spec_rebased(),
    {
        self.bones.lemma_rebase_idempotent();
    }

    /// Recomputes the name list's recorded size; the record offsets are
    /// structural and stay as they are.
    pub fn rebase(&mut self)
        requires
            old(self).bones.computed_size() <= 0xFFFF,
        ensures
            *final(self) == old(self).spec_rebased(),
            final(self).bones.size as int == old(self).bones.computed_size(),
            final(self).bones.data@ == old(self).bones.data@,
            final(self).bones.names@ == old(self).bones.names@,
            final(self).bones.count == old(self).bones.count,
            final(self).bone_matrices@ == old(self).bone_matrices@,
    {
        self.bones.rebase();
    }
}

} // verus!
