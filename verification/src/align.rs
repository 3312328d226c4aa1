//! Alignment arithmetic shared by the struct and union analyzers.

use vstd::prelude::*;

verus! {

use vstd::arithmetic::div_mod::{
    lemma_fundamental_div_mod,
    lemma_mod_bound,
    lemma_mod_multiples_basic,
    lemma_small_mod,
};

/// A power of two: 1, 2, 4, 8, ...
pub open spec fn is_pow2(n: nat) -> bool
    decreases n,
{
    if n == 0 {
        false
    } else if n == 1 {
        true
    } else {
        n % 2 == 0 && is_pow2(n / 2)
    }
}

/// The smallest multiple of `align` that is at least `offset`.
pub open spec fn round_up(offset: nat, align: nat) -> nat
    recommends
        align >= 1,
{
    if offset % align == 0 {
        offset
    } else {
        (offset + align - offset % align) as nat
    }
}

/// A power of two is positive.
pub proof fn lemma_pow2_pos(n: nat)
    requires
        is_pow2(n),
    ensures
        n >= 1,
{
    if n == 0 {
        assert(!is_pow2(0));
    }
}

/// Rounding up never moves an offset backwards.
pub proof fn lemma_round_up_ge(offset: nat, align: nat)
    requires
        align >= 1,
    ensures
        round_up(offset, align) >= offset,
{
    lemma_mod_bound(offset as int, align as int);
}

/// The rounded offset is a multiple of the alignment.
pub proof fn lemma_round_up_multiple(offset: nat, align: nat)
    requires
        align >= 1,
    ensures
        round_up(offset, align) % align == 0,
{
    let q = offset as int / align as int;
    let r = offset as int % align as int;
    if r != 0 {
        lemma_fundamental_div_mod(offset as int, align as int);
        assert(round_up(offset, align) == offset + align - r);
        assert(offset + align - r == (q + 1) * (align as int)) by (nonlinear_arith)
            requires
                offset as int == (align as int) * q + r,
        ;
        lemma_mod_multiples_basic(q + 1, align as int);
    }
}

/// An offset that is already a multiple of the alignment is left unchanged.
pub proof fn lemma_round_up_exact(offset: nat, align: nat)
    requires
        align >= 1,
        offset % align == 0,
    ensures
        round_up(offset, align) == offset,
{
}

/// Among powers of two, the smaller one divides the larger one.
pub proof fn lemma_pow2_le_divides(a: nat, b: nat)
    requires
        is_pow2(a),
        is_pow2(b),
        a <= b,
    ensures
        b % a == 0,
    decreases b,
{
    lemma_pow2_pos(a);
    lemma_pow2_pos(b);
    if a == 1 {
        assert(b % 1 == 0);
    } else {
        assert(a % 2 == 0 && is_pow2(a / 2));
        assert(b != 1);
        assert(b % 2 == 0 && is_pow2(b / 2));
        lemma_pow2_le_divides(a / 2, b / 2);
        let ah = (a / 2) as int;
        let bh = (b / 2) as int;
        let k = bh / ah;
        lemma_fundamental_div_mod(bh, ah);
        lemma_fundamental_div_mod(b as int, 2);
        lemma_fundamental_div_mod(a as int, 2);
        assert(b as int == k * (a as int)) by (nonlinear_arith)
            requires
                b as int == 2 * bh,
                a as int == 2 * ah,
                bh == ah * k,
        ;
        lemma_mod_multiples_basic(k, a as int);
    }
}

/// Divisibility is transitive: if `a` divides `b` and `b` divides `x`,
/// then `a` divides `x`.
pub proof fn lemma_divides_trans(x: nat, a: nat, b: nat)
    requires
        a >= 1,
        b >= 1,
        x % b == 0,
        b % a == 0,
    ensures
        x % a == 0,
{
    let m = x as int / b as int;
    lemma_fundamental_div_mod(x as int, b as int);
    let n = b as int / a as int;
    lemma_fundamental_div_mod(b as int, a as int);
    assert(x as int == (m * n) * (a as int)) by (nonlinear_arith)
        requires
            x as int == (b as int) * m,
            b as int == (a as int) * n,
    ;
    lemma_mod_multiples_basic(m * n, a as int);
}

/// Adding two multiples of `m` yields a multiple of `m`.
pub proof fn lemma_sum_of_multiples(x: nat, y: nat, m: nat)
    requires
        m >= 1,
        x % m == 0,
        y % m == 0,
    ensures
        (x + y) % m == 0,
{
    let p = x as int / m as int;
    lemma_fundamental_div_mod(x as int, m as int);
    let q = y as int / m as int;
    lemma_fundamental_div_mod(y as int, m as int);
    assert(x + y == (p + q) * (m as int)) by (nonlinear_arith)
        requires
            x as int == (m as int) * p,
            y as int == (m as int) * q,
    ;
    lemma_mod_multiples_basic(p + q, m as int);
}

/// Decides whether `n` is a power of two.
pub fn is_power_of_two(n: usize) -> (r: bool)
    ensures
        r == is_pow2(n as nat),
{
    let mut x: usize = n;
    while x > 1
        invariant
            is_pow2(n as nat) == is_pow2(x as nat),
        decreases x,
    {
        if x % 2 != 0 {
            return false;
        }
        x = x / 2;
    }
    x == 1
}

/// Rounds `offset` up to the next multiple of `align`.
pub fn round_up_to(offset: usize, align: usize) -> (r: usize)
    requires
        align >= 1,
        round_up(offset as nat, align as nat) <= usize::MAX,
    ensures
        r as nat == round_up(offset as nat, align as nat),
{
    let rem = offset % align;
    if rem == 0 {
        offset
    } else {
        proof {
            lemma_mod_bound(offset as int, align as int);
            if offset < align {
                lemma_small_mod(offset as nat, align as nat);
            }
        }
        offset - rem + align
    }
}

} // verus!
