//! Rounding addresses to a multiple of an alignment.
use vstd::prelude::*;

verus! {

/// `x` rounded down to a multiple of `a`.
pub open spec fn align_down_spec(x: int, a: int) -> int {
    x - x % a
}

/// `x` rounded up to a multiple of `a`.
pub open spec fn align_up_spec(x: int, a: int) -> int {
    if x % a == 0 {
        x
    } else {
        x - x % a + a
    }
}

/// Rounding down gives the greatest multiple of `a` that is at most `x`.
pub proof fn lemma_align_down(x: int, a: int)
    requires
        a > 0,
    ensures
        align_down_spec(x, a) % a == 0,
        align_down_spec(x, a) <= x < align_down_spec(x, a) + a,
        x >= 0 ==> align_down_spec(x, a) >= 0,
        forall|k: int| #[trigger] (a * k) <= x ==> a * k <= align_down_spec(x, a),
{
    let q = x / a;
    let r = x % a;
    vstd::arithmetic::div_mod::lemma_fundamental_div_mod(x, a);
    vstd::arithmetic::div_mod::lemma_mod_bound(x, a);
    assert(align_down_spec(x, a) == a * q);
    vstd::arithmetic::div_mod::lemma_mod_multiples_basic(q, a);
    vstd::arithmetic::mul::lemma_mul_is_commutative(q, a);
    assert forall|k: int| #[trigger] (a * k) <= x implies a * k <= align_down_spec(x, a) by {
        assert(a * k <= a * q) by (nonlinear_arith)
            requires
                a > 0,
                a * k <= x,
                x == a * q + r,
                0 <= r < a,
        ;
    }
    assert(a * 0 == 0);
}

/// Rounding up gives the least multiple of `a` that is at least `x`.
pub proof fn lemma_align_up(x: int, a: int)
    requires
        a > 0,
    ensures
        align_up_spec(x, a) % a == 0,
        x <= align_up_spec(x, a) < x + a,
        forall|k: int| x <= #[trigger] (a * k) ==> align_up_spec(x, a) <= a * k,
{
    let q = x / a;
    let r = x % a;
    vstd::arithmetic::div_mod::lemma_fundamental_div_mod(x, a);
    vstd::arithmetic::div_mod::lemma_mod_bound(x, a);
    if r == 0 {
        assert(align_up_spec(x, a) == a * q);
        vstd::arithmetic::div_mod::lemma_mod_multiples_basic(q, a);
        vstd::arithmetic::mul::lemma_mul_is_commutative(q, a);
        assert forall|k: int| x <= #[trigger] (a * k) implies align_up_spec(x, a) <= a * k by {}
    } else {
        assert(align_up_spec(x, a) == a * (q + 1)) by (nonlinear_arith)
            requires
                x == a * q + r,
                align_up_spec(x, a) == x - r + a,
        ;
        vstd::arithmetic::div_mod::lemma_mod_multiples_basic(q + 1, a);
        vstd::arithmetic::mul::lemma_mul_is_commutative(q + 1, a);
        assert forall|k: int| x <= #[trigger] (a * k) implies align_up_spec(x, a) <= a * k by {
            assert(a * (q + 1) <= a * k) by (nonlinear_arith)
                requires
                    a > 0,
                    x <= a * k,
                    x == a * q + r,
                    0 < r < a,
            ;
        }
    }
}

/// A value rounded up stays within a bound exactly when it is at most the
/// bound rounded down.
pub proof fn lemma_align_up_within(x: int, bound: int, a: int)
    requires
        a > 0,
    ensures
        align_up_spec(x, a) <= bound <==> x <= align_down_spec(bound, a),
{
    lemma_align_down(bound, a);
    lemma_align_up(x, a);
    let d = align_down_spec(bound, a);
    let u = align_up_spec(x, a);
    vstd::arithmetic::div_mod::lemma_fundamental_div_mod(d, a);
    vstd::arithmetic::div_mod::lemma_fundamental_div_mod(u, a);
    assert(d == a * (d / a));
    assert(u == a * (u / a));
}

/// Rounds `x` down to a multiple of `p2align`.
pub fn align_down(x: usize, p2align: usize) -> (r: usize)
    requires
        p2align > 0,
    ensures
        r == align_down_spec(x as int, p2align as int),
{
    proof {
        lemma_align_down(x as int, p2align as int);
    }
    x - x % p2align
}

/// Rounds `x` up to a multiple of `p2align`; the result must fit in a `usize`.
pub fn align_up(x: usize, p2align: usize) -> (r: usize)
    requires
        p2align > 0,
        align_up_spec(x as int, p2align as int) <= usize::MAX,
    ensures
        r == align_up_spec(x as int, p2align as int),
{
    let rem = x % p2align;
    proof {
        lemma_align_down(x as int, p2align as int);
    }
    if rem == 0 {
        x
    } else {
        x - rem + p2align
    }
}

} // verus!
