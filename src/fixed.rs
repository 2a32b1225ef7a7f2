use vstd::prelude::*;

verus! {

/// The fixed-point value that stands for 1.0 (sixteen fraction bits).
pub const ONE: i64 = 65536;

/// Largest magnitude accepted for a matrix entry or a bind-pose coordinate
/// (4096.0 in fixed point).
pub const ENTRY_LIMIT: i64 = 268435456;

/// Largest magnitude of an entry of a skin matrix, which carries the scale
/// `ONE * ONE`.
pub const SKIN_LIMIT: i64 = 288230376151711744;

/// Whether `v` lies within `[-limit, limit]`.
pub open spec fn within(v: int, limit: int) -> bool {
    -limit <= v <= limit
}

/// Bound on a product of two bounded factors.
pub proof fn lemma_mul_within(a: int, b: int, x: int, y: int)
    requires
        0 <= x,
        0 <= y,
        within(a, x),
        within(b, y),
    ensures
        within(a * b, x * y),
{
    assert(-(x * y) <= a * b <= x * y) by (nonlinear_arith)
        requires
            0 <= x,
            0 <= y,
            -x <= a <= x,
            -y <= b <= y,
    ;
}

/// Floor division keeps a bound that is a whole multiple of the divisor.
pub proof fn lemma_div_within(n: int, d: int, limit: int)
    requires
        0 < d,
        0 <= limit,
        within(n, d * limit),
    ensures
        within(n / d, limit),
{
    vstd::arithmetic::div_mod::lemma_div_is_ordered(n, d * limit, d);
    vstd::arithmetic::div_mod::lemma_div_is_ordered(-(d * limit), n, d);
    vstd::arithmetic::div_mod::lemma_div_multiples_vanish(limit, d);
    vstd::arithmetic::div_mod::lemma_div_multiples_vanish(-limit, d);
    assert(d * (-limit) == -(d * limit)) by (nonlinear_arith);
}

/// A common positive factor cancels in a floor division.
pub proof fn lemma_div_cancel(x: int, c: int, d: int)
    requires
        0 < c,
        0 < d,
    ensures
        (c * x) / (c * d) == x / d,
{
    let q = x / d;
    let r = x % d;
    vstd::arithmetic::div_mod::lemma_fundamental_div_mod(x, d);
    assert(0 <= r < d);
    assert(c * x == q * (c * d) + c * r && 0 <= c * r < c * d) by (nonlinear_arith)
        requires
            x == d * q + r,
            0 <= r < d,
            0 < c,
    ;
    vstd::arithmetic::div_mod::lemma_fundamental_div_mod_converse(c * x, c * d, q, c * r);
}

} // verus!
