//! Inverse-bind matrices: a flat array of fixed 84-byte records, each
//! holding twelve position-matrix and nine vector-matrix 1.19.12 values,
//! indexed by the skinning-equation command.

use crate::error::AppError;
use crate::fixed_1_19_12::Fixed1_19_12;
use crate::lebytes::i32_bits;
use crate::lebytes::i32_from_bits;
use crate::lebytes::read_u32;
use crate::lebytes::u32_of_i32;
use crate::lebytes::write_u32;
use vstd::bytes::lemma_auto_spec_u32_to_from_le_bytes;
use vstd::bytes::spec_u32_from_le_bytes;
use vstd::bytes::spec_u32_to_le_bytes;
use vstd::prelude::*;

verus! {

/// The number of bytes of one inverse-bind record.
pub const INV_BIND_MATRIX_SIZE: usize = 84;

/// The byte run of a sequence of 1.19.12 values, four bytes each.
pub open spec fn enc_f19(s: Seq<Fixed1_19_12>) -> Seq<u8>
    decreases s.len(),
{
    if s.len() == 0 {
        Seq::empty()
    } else {
        spec_u32_to_le_bytes(u32_of_i32(s[0].value as int) as u32) + enc_f19(s.skip(1))
    }
}

pub proof fn lemma_enc_f19_len(s: Seq<Fixed1_19_12>)
    ensures
        enc_f19(s).len() == 4 * s.len(),
        forall|i: int|
            0 <= i < s.len() ==> enc_f19(s).subrange(4 * i, 4 * i + 4) == spec_u32_to_le_bytes(
                u32_of_i32((#[trigger] s[i]).value as int) as u32,
            ),
    decreases s.len(),
{
    lemma_auto_spec_u32_to_from_le_bytes();
    if s.len() > 0 {
        lemma_enc_f19_len(s.skip(1));
        assert forall|i: int|
            0 <= i < s.len() implies enc_f19(s).subrange(4 * i, 4 * i + 4) == spec_u32_to_le_bytes(
            u32_of_i32((#[trigger] s[i]).value as int) as u32,
        ) by {
            if i == 0 {
                assert(enc_f19(s).subrange(0, 4) =~= spec_u32_to_le_bytes(
                    u32_of_i32(s[0].value as int) as u32,
                ));
            } else {
                assert(s.skip(1)[i - 1] == s[i]);
                assert(enc_f19(s).subrange(4 * i, 4 * i + 4) =~= enc_f19(s.skip(1)).subrange(
                    4 * (i - 1),
                    4 * (i - 1) + 4,
                ));
            }
        };
    }
}

/// One 84-byte inverse-bind record.
#[derive(Clone, Debug)]
pub struct InvBindMatrix {
    pub position_matrix: Vec<Fixed1_19_12>,
    pub vector_matrix: Vec<Fixed1_19_12>,
}

impl InvBindMatrix {
    /// Twelve position values and nine vector values.
    pub open spec fn wf(self) -> bool {
        self.position_matrix@.len() == 12 && self.vector_matrix@.len() == 9
    }

    pub open spec fn enc(self) -> Seq<u8> {
        enc_f19(self.position_matrix@ + self.vector_matrix@)
    }

    pub fn from_bytes(bytes: &[u8]) -> (r: Result<InvBindMatrix, AppError>)
        ensures
            r is Ok <==> bytes@.len() >= 84,
            r is Ok ==> r->Ok_0.wf() && forall|i: int|
                0 <= i < 21 ==> (#[trigger] (r->Ok_0.position_matrix@
                    + r->Ok_0.vector_matrix@)[i]).value as int == crate::lebytes::i32_of_u32(
                    spec_u32_from_le_bytes(bytes@.subrange(4 * i, 4 * i + 4)) as int,
                ),
    {
        if bytes.len() < 84 {
            return Err(AppError::new("InvBindMatrix needs at least 84 bytes"));
        }
        let mut position_matrix: Vec<Fixed1_19_12> = Vec::new();
        let mut k: usize = 0;
        while k < 12
            invariant
                k <= 12,
                bytes@.len() >= 84,
                position_matrix@.len() == k,
                forall|i: int|
                    0 <= i < k ==> (#[trigger] position_matrix@[i]).value as int
                        == crate::lebytes::i32_of_u32(
                        spec_u32_from_le_bytes(bytes@.subrange(4 * i, 4 * i + 4)) as int,
                    ),
            decreases 12 - k,
        {
            position_matrix.push(Fixed1_19_12::from_i32(i32_from_bits(read_u32(bytes, 4 * k))));
            k = k + 1;
        }
        let mut vector_matrix: Vec<Fixed1_19_12> = Vec::new();
        let mut k: usize = 0;
        while k < 9
            invariant
                k <= 9,
                bytes@.len() >= 84,
                vector_matrix@.len() == k,
                forall|i: int|
                    0 <= i < k ==> (#[trigger] vector_matrix@[i]).value as int
                        == crate::lebytes::i32_of_u32(
                        spec_u32_from_le_bytes(bytes@.subrange(48 + 4 * i, 48 + 4 * i + 4)) as int,
                    ),
            decreases 9 - k,
        {
            vector_matrix.push(Fixed1_19_12::from_i32(i32_from_bits(read_u32(bytes, 48 + 4 * k))));
            k = k + 1;
        }
        let r = InvBindMatrix { position_matrix, vector_matrix };
        proof {
            assert forall|i: int|
                0 <= i < 21 implies (#[trigger] (r.position_matrix@
                + r.vector_matrix@)[i]).value as int == crate::lebytes::i32_of_u32(
                spec_u32_from_le_bytes(bytes@.subrange(4 * i, 4 * i + 4)) as int,
            ) by {
                if i >= 12 {
                    assert((r.position_matrix@ + r.vector_matrix@)[i] == r.vector_matrix@[i - 12]);
                    assert(bytes@.subrange(48 + 4 * (i - 12), 48 + 4 * (i - 12) + 4)
                        =~= bytes@.subrange(4 * i, 4 * i + 4));
                }
            };
        }
        Ok(r)
    }

    pub fn write_bytes(&self, buffer: &mut Vec<u8>, pos: usize)
        requires
            self.wf(),
            pos + 84 <= old(buffer)@.len(),
        ensures
            final(buffer)@.len() == old(buffer)@.len(),
            final(buffer)@.subrange(pos as int, pos + 84) == self.enc(),
            forall|i: int|
                0 <= i < final(buffer)@.len() && !(pos <= i < pos + 84) ==> final(buffer)@[i]
                    == old(buffer)@[i],
    {
        let ghost all = self.position_matrix@ + self.vector_matrix@;
        proof {
            lemma_enc_f19_len(all);
        }
        let buf_len = buffer.len();
        let mut k: usize = 0;
        while k < 12
            invariant
                k <= 12,
                self.wf(),
                all == self.position_matrix@ + self.vector_matrix@,
                pos + 84 <= buffer@.len(),
                buffer@.len() <= usize::MAX,
                buffer@.len() == old(buffer)@.len(),
                forall|i: int|
                    0 <= i < buffer@.len() && !(pos <= i < pos + 4 * k) ==> buffer@[i] == old(
                        buffer,
                    )@[i],
                forall|i: int|
                    0 <= i < k ==> buffer@.subrange(pos + 4 * i, pos + 4 * i + 4)
                        == spec_u32_to_le_bytes(u32_of_i32((#[trigger] all[i]).value as int) as u32),
            decreases 12 - k,
        {
            let ghost before = buffer@;
            let v = self.position_matrix[k];
            write_u32(buffer, pos + 4 * k, i32_bits(v.value));
            proof {
                assert(all[k as int] == self.position_matrix@[k as int]);
                assert forall|i: int|
                    0 <= i < k implies buffer@.subrange(pos + 4 * i, pos + 4 * i + 4)
                    == spec_u32_to_le_bytes(u32_of_i32((#[trigger] all[i]).value as int) as u32) by {
                    assert(buffer@.subrange(pos + 4 * i, pos + 4 * i + 4) =~= before.subrange(
                        pos + 4 * i,
                        pos + 4 * i + 4,
                    ));
                };
            }
            k = k + 1;
        }
        let mut k: usize = 12;
        while k < 21
            invariant
                12 <= k <= 21,
                self.wf(),
                all == self.position_matrix@ + self.vector_matrix@,
                pos + 84 <= buffer@.len(),
                buffer@.len() <= usize::MAX,
                buffer@.len() == old(buffer)@.len(),
                forall|i: int|
                    0 <= i < buffer@.len() && !(pos <= i < pos + 4 * k) ==> buffer@[i] == old(
                        buffer,
                    )@[i],
                forall|i: int|
                    0 <= i < k ==> buffer@.subrange(pos + 4 * i, pos + 4 * i + 4)
                        == spec_u32_to_le_bytes(u32_of_i32((#[trigger] all[i]).value as int) as u32),
            decreases 21 - k,
        {
            let ghost before = buffer@;
            let v = self.vector_matrix[k - 12];
            write_u32(buffer, pos + 4 * k, i32_bits(v.value));
            proof {
                assert(all[k as int] == self.vector_matrix@[k - 12]);
                assert forall|i: int|
                    0 <= i < k implies buffer@.subrange(pos + 4 * i, pos + 4 * i + 4)
                    == spec_u32_to_le_bytes(u32_of_i32((#[trigger] all[i]).value as int) as u32) by {
                    assert(buffer@.subrange(pos + 4 * i, pos + 4 * i + 4) =~= before.subrange(
                        pos + 4 * i,
                        pos + 4 * i + 4,
                    ));
                };
            }
            k = k + 1;
        }
        proof {
            assert forall|m: int| 0 <= m < 84 implies buffer@[pos + m] == self.enc()[m] by {
                let i = m / 4;
                let r = m % 4;
                vstd::arithmetic::div_mod::lemma_fundamental_div_mod(m, 4);
                assert(buffer@.subrange(pos + 4 * i, pos + 4 * i + 4) == spec_u32_to_le_bytes(
                    u32_of_i32(all[i].value as int) as u32,
                ));
                assert(self.enc().subrange(4 * i, 4 * i + 4) == spec_u32_to_le_bytes(
                    u32_of_i32(all[i].value as int) as u32,
                ));
                assert(buffer@[pos + m] == buffer@.subrange(pos + 4 * i, pos + 4 * i + 4)[r]);
                assert(self.enc()[m] == self.enc().subrange(4 * i, 4 * i + 4)[r]);
            };
            assert(buffer@.subrange(pos as int, pos + 84) =~= self.enc());
        }
    }

    /// The encoded byte length of a record.
    pub fn size(&self) -> (r: usize)
        ensures
            r == 84,
    {
        84
    }
}

/// The inverse-bind section: zero or more 84-byte records.
#[derive(Clone, Debug)]
pub struct InvBindMatrices {
    pub matrices: Vec<InvBindMatrix>,
}

impl InvBindMatrices {
    pub open spec fn wf(self) -> bool {
        forall|i: int| 0 <= i < self.matrices@.len() ==> (#[trigger] self.matrices@[i]).wf()
    }

    /// Decodes the whole slice; its length must be an exact multiple of
    /// the record size.
    pub fn from_bytes(bytes: &[u8]) -> (r: Result<InvBindMatrices, AppError>)
        ensures
            r is Ok <==> bytes@.len() % 84 == 0,
            r is Ok ==> r->Ok_0.wf() && r->Ok_0.matrices@.len() == bytes@.len() / 84,
    {
        let n = bytes.len();
        if n % 84 != 0 {
            return Err(AppError::new("InvBindMatrices needs a multiple of 84 bytes"));
        }
        let total = n / 84;
        proof {
            vstd::arithmetic::div_mod::lemma_fundamental_div_mod(n as int, 84);
        }
        let mut matrices: Vec<InvBindMatrix> = Vec::new();
        let mut i: usize = 0;
        while i < total
            invariant
                i <= total,
                n == bytes@.len(),
                n == 84 * total,
                matrices@.len() == i,
                forall|k: int| 0 <= k < i ==> (#[trigger] matrices@[k]).wf(),
            decreases total - i,
        {
            proof {
                assert(84 * (i as int) + 84 <= 84 * (total as int)) by (nonlinear_arith)
                    requires
                        0 <= i < total as int,
                ;
                assert(0 <= 84 * (i as int)) by (nonlinear_arith)
                    requires
                        0 <= i,
                ;
            }
            let m = match InvBindMatrix::from_bytes(
                vstd::slice::slice_subrange(bytes, 84 * i, n),
            ) {
                Ok(m) => m,
                Err(e) => {
                    proof {
                        assert(false);
                    }
                    return Err(e);
                },
            };
            matrices.push(m);
            i = i + 1;
        }
        Ok(InvBindMatrices { matrices })
    }

    /// Writes every record, 84 bytes apiece, at `buffer[pos..]`.
    pub fn write_bytes(&self, buffer: &mut Vec<u8>, pos: usize)
        requires
            self.wf(),
            pos + 84 * self.matrices@.len() <= old(buffer)@.len(),
        ensures
            final(buffer)@.len() == old(buffer)@.len(),
            forall|i: int|
                0 <= i < final(buffer)@.len() && !(pos <= i < pos + 84 * self.matrices@.len())
                    ==> final(buffer)@[i] == old(buffer)@[i],
            forall|k: int|
                0 <= k < self.matrices@.len() ==> final(buffer)@.subrange(
                    pos + 84 * k,
                    pos + 84 * k + 84,
                ) == (#[trigger] self.matrices@[k]).enc(),
    {
        let buf_len = buffer.len();
        let total = self.matrices.len();
        let mut i: usize = 0;
        while i < total
            invariant
                i <= total,
                total == self.matrices@.len(),
                self.wf(),
                pos + 84 * total <= buffer@.len(),
                buffer@.len() <= usize::MAX,
                buffer@.len() == old(buffer)@.len(),
                forall|k: int|
                    0 <= k < buffer@.len() && !(pos <= k < pos + 84 * i) ==> buffer@[k] == old(
                        buffer,
                    )@[k],
                forall|k: int|
                    0 <= k < i ==> buffer@.subrange(pos + 84 * k, pos + 84 * k + 84) == (
                    #[trigger] self.matrices@[k]).enc(),
            decreases total - i,
        {
            let ghost before = buffer@;
            let m = &self.matrices[i];
            m.write_bytes(buffer, pos + 84 * i);
            proof {
                assert forall|k: int|
                    0 <= k < i implies buffer@.subrange(pos + 84 * k, pos + 84 * k + 84) == (
                #[trigger] self.matrices@[k]).enc() by {
                    assert(buffer@.subrange(pos + 84 * k, pos + 84 * k + 84) =~= before.subrange(
                        pos + 84 * k,
                        pos + 84 * k + 84,
                    ));
                };
            }
            i = i + 1;
        }
    }

    /// The encoded byte length of the whole section.
    pub fn size(&self) -> (r: usize)
        requires
            84 * self.matrices@.len() <= usize::MAX,
        ensures
            r == 84 * self.matrices@.len(),
    {
        self.matrices.len() * 84
    }
}

} // verus!
