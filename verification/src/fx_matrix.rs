//! 4x4 transform matrices over 1.19.12 fixed-point entries, the arithmetic
//! the render command executor composes bone transforms with. Entries are
//! raw i64 values at scale 4096; multiplication wraps like the hardware's
//! accumulator and shifts the product back down.

use crate::lebytes::floor_div64;
use vstd::prelude::*;
use vstd::wrapping::i64_specs;

verus! {

/// The identity transform: 1.0 on the diagonal.
pub open spec fn fx_identity() -> Seq<i64> {
    seq![
        4096i64,
        0i64,
        0i64,
        0i64,
        0i64,
        4096i64,
        0i64,
        0i64,
        0i64,
        0i64,
        4096i64,
        0i64,
        0i64,
        0i64,
        0i64,
        4096i64,
    ]
}

/// Row `i`, column `j` of the product: the wrapped dot product of row and
/// column, shifted back to scale 4096.
pub open spec fn fx_mul_elem(a: Seq<i64>, b: Seq<i64>, i: int, j: int) -> i64 {
    let p0 = i64_specs::wrapping_mul(a[4 * i], b[j]);
    let p1 = i64_specs::wrapping_mul(a[4 * i + 1], b[4 + j]);
    let p2 = i64_specs::wrapping_mul(a[4 * i + 2], b[8 + j]);
    let p3 = i64_specs::wrapping_mul(a[4 * i + 3], b[12 + j]);
    let s = i64_specs::wrapping_add(
        i64_specs::wrapping_add(i64_specs::wrapping_add(p0, p1), p2),
        p3,
    );
    (s as int / 4096) as i64
}

/// The 16 entries of the matrix product, row-major.
pub open spec fn fx_mul(a: Seq<i64>, b: Seq<i64>) -> Seq<i64> {
    Seq::new(16, |k: int| fx_mul_elem(a, b, k / 4, k % 4))
}

/// A 4x4 fixed-point transform, row-major, entries at scale 4096.
#[derive(Clone, Copy, Debug, PartialEq)]
pub struct FxMatrix {
    pub m: [i64; 16],
}

impl FxMatrix {
    pub fn identity() -> (r: FxMatrix)
        ensures
            r.m@ == fx_identity(),
    {
        let m: [i64; 16] = [4096, 0, 0, 0, 0, 4096, 0, 0, 0, 0, 4096, 0, 0, 0, 0, 4096];
        let r = FxMatrix { m };
        proof {
            assert(r.m@ =~= fx_identity());
        }
        r
    }

    /// The entry at row `row`, column `col`.
    pub fn get(&self, row: usize, col: usize) -> (r: i64)
        requires
            row < 4,
            col < 4,
        ensures
            r == self.m@[4 * row + col],
    {
        self.m[4 * row + col]
    }

    /// Replaces the entry at row `row`, column `col`.
    pub fn set(&mut self, row: usize, col: usize, v: i64)
        requires
            row < 4,
            col < 4,
        ensures
            final(self).m@ == old(self).m@.update(4 * row + col, v),
    {
        self.m[4 * row + col] = v;
    }

    fn mul_elem(&self, rhs: &FxMatrix, i: usize, j: usize) -> (r: i64)
        requires
            i < 4,
            j < 4,
        ensures
            r == fx_mul_elem(self.m@, rhs.m@, i as int, j as int),
    {
        let p0 = self.m[4 * i].wrapping_mul(rhs.m[j]);
        let p1 = self.m[4 * i + 1].wrapping_mul(rhs.m[4 + j]);
        let p2 = self.m[4 * i + 2].wrapping_mul(rhs.m[8 + j]);
        let p3 = self.m[4 * i + 3].wrapping_mul(rhs.m[12 + j]);
        let s = p0.wrapping_add(p1).wrapping_add(p2).wrapping_add(p3);
        if s == i64::MIN {
            proof {
                vstd::arithmetic::div_mod::lemma_fundamental_div_mod_converse(
                    i64::MIN as int,
                    4096,
                    -2251799813685248,
                    0,
                );
            }
            -2251799813685248
        } else {
            floor_div64(s, 4096)
        }
    }

    /// The matrix product `self * rhs`.
    #[verifier::spinoff_prover]
    #[verifier::rlimit(100)]
    pub fn mul(&self, rhs: &FxMatrix) -> (r: FxMatrix)
        ensures
            r.m@ == fx_mul(self.m@, rhs.m@),
    {
        let m: [i64; 16] = [
            self.mul_elem(rhs, 0, 0),
            self.mul_elem(rhs, 0, 1),
            self.mul_elem(rhs, 0, 2),
            self.mul_elem(rhs, 0, 3),
            self.mul_elem(rhs, 1, 0),
            self.mul_elem(rhs, 1, 1),
            self.mul_elem(rhs, 1, 2),
            self.mul_elem(rhs, 1, 3),
            self.mul_elem(rhs, 2, 0),
            self.mul_elem(rhs, 2, 1),
            self.mul_elem(rhs, 2, 2),
            self.mul_elem(rhs, 2, 3),
            self.mul_elem(rhs, 3, 0),
            self.mul_elem(rhs, 3, 1),
            self.mul_elem(rhs, 3, 2),
            self.mul_elem(rhs, 3, 3),
        ];
        let r = FxMatrix { m };
        proof {
            let prod = fx_mul(self.m@, rhs.m@);
            assert forall|k: int| 0 <= k < 16 implies r.m@[k] == prod[k] by {
                assert(prod[k] == fx_mul_elem(self.m@, rhs.m@, k / 4, k % 4));
            };
            assert(r.m@ =~= prod);
        }
        r
    }
}

} // verus!
