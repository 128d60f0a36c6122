use vstd::arithmetic::div_mod::lemma_fundamental_div_mod;
use vstd::arithmetic::div_mod::lemma_fundamental_div_mod_converse;
use vstd::arithmetic::div_mod::lemma_mod_multiples_basic;
use vstd::prelude::*;

verus! {

/// `a` rounded up to the next multiple of 4.
pub open spec fn align4(a: int) -> int {
    ((a + 3) / 4) * 4
}

/// `a` rounded up to the next multiple of 16.
pub open spec fn align16(a: int) -> int {
    ((a + 15) / 16) * 16
}

pub fn get_4_byte_alignment(a: usize) -> (r: usize)
    requires
        a + 3 <= usize::MAX,
    ensures
        r == align4(a as int),
        a <= r < a + 4,
        r % 4 == 0,
{
    let r = ((a + 3) / 4) * 4;
    assert(a <= align4(a as int) < a + 4 && align4(a as int) % 4 == 0) by {
        let q = (a + 3) / 4int;
        lemma_fundamental_div_mod(a + 3, 4);
        lemma_mod_multiples_basic(q, 4);
    };
    r
}

pub fn get_16_byte_alignment(a: usize) -> (r: usize)
    requires
        a + 15 <= usize::MAX,
    ensures
        r == align16(a as int),
        a <= r < a + 16,
        r % 16 == 0,
{
    let r = ((a + 15) / 16) * 16;
    assert(a <= align16(a as int) < a + 16 && align16(a as int) % 16 == 0) by {
        let q = (a + 15) / 16int;
        lemma_fundamental_div_mod(a + 15, 16);
        lemma_mod_multiples_basic(q, 16);
    };
    r
}

/// The count of padding entries that takes `n` to the next multiple of 4.
pub fn pad4(n: usize) -> (p: usize)
    requires
        align4(n as int) <= usize::MAX,
    ensures
        n + p == align4(n as int),
        p < 4,
{
    let r = n % 4;
    let p: usize = if r == 0 {
        0
    } else {
        4 - r
    };
    proof {
        let q = n as int / 4;
        lemma_fundamental_div_mod(n as int, 4);
        if r == 0 {
            lemma_fundamental_div_mod_converse(n as int, 4, q, 0);
            lemma_fundamental_div_mod_converse(n as int + 3, 4, q, 3);
        } else {
            lemma_fundamental_div_mod_converse(n + p, 4, q + 1, 0);
            lemma_fundamental_div_mod_converse(n as int + 3, 4, q + 1, (r - 1) as int);
        }
    }
    p
}

} // verus!
