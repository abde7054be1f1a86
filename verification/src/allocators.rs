//! Shared ground for the three allocation strategies: address alignment,
//! region descriptors, and the arithmetic lemmas the strategies rely on.

use vstd::prelude::*;

pub mod bump;
pub mod fixed;
pub mod linked;

verus! {

use vstd::arithmetic::div_mod::{
    lemma_fundamental_div_mod, lemma_mod_multiples_basic, lemma_add_mod_noop,
    lemma_div_is_ordered,
};

/// A contiguous byte range `[base, base + size)` of the heap.
#[derive(Clone, Copy, PartialEq, Eq, Structural, Debug)]
pub struct Region {
    pub base: usize,
    pub size: usize,
}

pub open spec fn region_end(r: Region) -> int {
    r.base + r.size
}

/// Two regions share no byte.
pub open spec fn regions_disjoint(a: Region, b: Region) -> bool {
    region_end(a) <= b.base || region_end(b) <= a.base
}

/// No two regions of the sequence share a byte.
pub open spec fn pairwise_disjoint(s: Seq<Region>) -> bool {
    forall|i: int, j: int|
        0 <= i < s.len() && 0 <= j < s.len() && i != j ==> regions_disjoint(s[i], s[j])
}

/// A power of two: 1, 2, 4, 8, ...
pub open spec fn is_pow2(n: int) -> bool
    decreases n,
{
    if n <= 0 {
        false
    } else if n == 1 {
        true
    } else {
        n % 2 == 0 && is_pow2(n / 2)
    }
}

/// `addr` rounded up to the next multiple of `align`.
pub open spec fn spec_align_up(addr: int, align: int) -> int {
    if addr % align == 0 {
        addr
    } else {
        addr - addr % align + align
    }
}

/// Of two powers of two, the larger is a multiple of the smaller.
pub proof fn lemma_pow2_divides(a: int, b: int)
    requires
        is_pow2(a),
        is_pow2(b),
        a <= b,
    ensures
        b % a == 0,
    decreases b,
{
    if a == b {
        lemma_mod_multiples_basic(1, a);
        assert(1 * a == a) by (nonlinear_arith);
    } else if a == 1 {
        lemma_mod_multiples_basic(b, 1);
        assert(b * 1 == b) by (nonlinear_arith);
    } else {
        // both are even; halve them and recurse
        let ah = a / 2;
        let bh = b / 2;
        lemma_div_is_ordered(a, b, 2);
        lemma_pow2_divides(ah, bh);
        lemma_fundamental_div_mod(a, 2);
        lemma_fundamental_div_mod(b, 2);
        lemma_fundamental_div_mod(bh, ah);
        let m = bh / ah;
        assert(b == m * a) by (nonlinear_arith)
            requires
                a == 2 * ah,
                b == 2 * bh,
                bh == ah * m,
        ;
        lemma_mod_multiples_basic(m, a);
    }
}

/// A multiple of a multiple of `b` is itself a multiple of `b`.
pub proof fn lemma_mod_chain(x: int, a: int, b: int)
    requires
        0 < b,
        0 < a,
        a % b == 0,
        x % a == 0,
    ensures
        x % b == 0,
{
    lemma_fundamental_div_mod(x, a);
    lemma_fundamental_div_mod(a, b);
    let q = x / a;
    let p = a / b;
    assert(x == (q * p) * b) by (nonlinear_arith)
        requires
            x == a * q,
            a == b * p,
    ;
    lemma_mod_multiples_basic(q * p, b);
}

/// What `spec_align_up` yields: the first multiple of `align` at or past
/// `addr`.
pub proof fn lemma_spec_align_up(addr: int, align: int)
    requires
        align >= 1,
        addr >= 0,
    ensures
        spec_align_up(addr, align) % align == 0,
        addr <= spec_align_up(addr, align) < addr + align,
{
    let rem = addr % align;
    lemma_fundamental_div_mod(addr, align);
    let q = addr / align;
    if rem != 0 {
        assert(addr - rem + align == (q + 1) * align) by (nonlinear_arith)
            requires
                addr == align * q + rem,
        ;
        lemma_mod_multiples_basic(q + 1, align);
    }
}

/// A positive multiple of `a` is at least `a`.
pub proof fn lemma_pos_multiple_ge(x: int, a: int)
    requires
        a >= 1,
        x >= 1,
        x % a == 0,
    ensures
        x >= a,
{
    lemma_fundamental_div_mod(x, a);
    let q = x / a;
    if q <= 0 {
        assert(a * q <= 0) by (nonlinear_arith)
            requires
                a >= 1,
                q <= 0,
        ;
    } else {
        assert(a * q >= a) by (nonlinear_arith)
            requires
                a >= 1,
                q >= 1,
        ;
    }
}

/// The sum of two multiples of `m` is a multiple of `m`.
pub proof fn lemma_mod_sum(x: int, y: int, m: int)
    requires
        0 < m,
        x % m == 0,
        y % m == 0,
    ensures
        (x + y) % m == 0,
{
    lemma_add_mod_noop(x, y, m);
    lemma_mod_multiples_basic(0, m);
}

/// Rounds `addr` up to the next multiple of `align`, or `None` where that
/// multiple would lie beyond the address space (and so beyond any heap).
pub fn try_align_up(addr: usize, align: usize) -> (r: Option<usize>)
    requires
        align >= 1,
    ensures
        match r {
            Some(v) => {
                &&& v == spec_align_up(addr as int, align as int)
                &&& v % align == 0
                &&& addr <= v < addr + align
            },
            None => spec_align_up(addr as int, align as int) > usize::MAX,
        },
{
    let rem: usize = addr % align;
    if rem == 0 {
        Some(addr)
    } else {
        proof {
            lemma_fundamental_div_mod(addr as int, align as int);
            let q = addr as int / align as int;
            assert((addr - rem + align) % align as int == 0) by {
                assert(addr - rem + align == (q + 1) * align) by (nonlinear_arith)
                    requires
                        addr == align * q + rem,
                ;
                lemma_mod_multiples_basic(q + 1, align as int);
            }
        }
        let pad: usize = align - rem;
        if pad > usize::MAX - addr {
            None
        } else {
            Some(addr + pad)
        }
    }
}

/// Rounds `addr` up to the next multiple of `align`.
///
/// The caller's bound on `addr + align` keeps the result in the address
/// space.
pub fn align_up(addr: usize, align: usize) -> (r: usize)
    requires
        align >= 1,
        addr + align <= usize::MAX,
    ensures
        r == spec_align_up(addr as int, align as int),
        r % align == 0,
        addr <= r < addr + align,
{
    match try_align_up(addr, align) {
        Some(v) => v,
        None => {
            proof {
                assert(false);
            }
            0
        },
    }
}

} // verus!
