use vstd::arithmetic::div_mod::*;
use vstd::prelude::*;

verus! {

/// Facts on splitting a row-major offset `i < x * c` into `i / c` and `i % c`.
pub proof fn lemma_div_bound(i: int, x: int, c: int)
    requires
        0 <= i < x * c,
        0 <= c,
    ensures
        0 < c,
        0 <= i / c < x,
        0 <= i % c < c,
        i == (i / c) * c + i % c,
{
    if c == 0 {
        assert(x * c == 0) by (nonlinear_arith)
            requires
                c == 0,
        ;
    }
    lemma_fundamental_div_mod(i, c);
    lemma_mod_pos_bound(i, c);
    lemma_div_pos_is_pos(i, c);
    let q = i / c;
    let r = i % c;
    assert(q < x) by (nonlinear_arith)
        requires
            i == c * q + r,
            0 <= r,
            i < x * c,
            0 < c,
    ;
    assert(i == q * c + r) by (nonlinear_arith)
        requires
            i == c * q + r,
    ;
}

/// An offset below a product of three sizes makes every size positive.
pub proof fn lemma_pos_factors(i: int, a: int, b: int, c: int)
    requires
        0 <= i < a * b * c,
        0 <= a,
        0 <= b,
        0 <= c,
    ensures
        0 < a,
        0 < b,
        0 < c,
        0 < a * b,
{
    if a == 0 || b == 0 || c == 0 {
        assert(a * b * c == 0) by (nonlinear_arith)
            requires
                a == 0 || b == 0 || c == 0,
        ;
    }
    assert(0 < a * b) by (nonlinear_arith)
        requires
            0 < a,
            0 < b,
    ;
}

/// A row-major offset from two in-range indices stays in range.
pub proof fn lemma_index2(o: int, r: int, a: int, b: int)
    requires
        0 <= o < a,
        0 <= r < b,
    ensures
        0 <= o * b + r < a * b,
{
    assert(0 <= o * b + r < a * b) by (nonlinear_arith)
        requires
            0 <= o < a,
            0 <= r < b,
    ;
}

/// A row-major offset from three in-range indices stays in range.
pub proof fn lemma_index3(o: int, r: int, j: int, a: int, b: int, c: int)
    requires
        0 <= o < a,
        0 <= r < b,
        0 <= j < c,
    ensures
        0 <= o * b + r < a * b <= a * b * c,
        0 <= (o * b + r) * c + j < a * b * c,
{
    lemma_index2(o, r, a, b);
    lemma_index2(o * b + r, j, a * b, c);
    assert(a * b <= a * b * c) by (nonlinear_arith)
        requires
            0 < a * b,
            1 <= c,
    ;
}

/// Splitting a row-major offset recovers the indices it was built from.
pub proof fn lemma_split_offset(q: int, r: int, c: int)
    requires
        0 <= r < c,
    ensures
        (q * c + r) / c == q,
        (q * c + r) % c == r,
{
    lemma_fundamental_div_mod_converse(q * c + r, c, q, r);
}

} // verus!
