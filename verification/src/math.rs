//! Integer arithmetic underpinning the sampler and the rate controller:
//! least common multiples, ceiling division, and counting how often a
//! residue class occurs in a range of positions.

use vstd::prelude::*;
use vstd::arithmetic::div_mod::*;

verus! {

/// `r` is the least common multiple of `a` and `b`: a positive common
/// multiple of both that no smaller positive number matches.
pub open spec fn is_lcm(a: nat, b: nat, r: nat) -> bool {
    &&& r % a == 0
    &&& r % b == 0
    &&& r >= 1
    &&& forall|m: nat| 1 <= m < r ==> !(#[trigger] (m % a) == 0 && m % b == 0)
}

/// Relies on `num::integer::lcm`: it returns the least common multiple of
/// its two arguments. For unsigned arguments it computes `a * (b / gcd)`,
/// which stays within `usize` whenever `a * b` does.
#[verifier::external_body]
pub fn lcm_usize(a: usize, b: usize) -> (r: usize)
    requires
        a >= 1,
        b >= 1,
        a * b <= usize::MAX,
    ensures
        is_lcm(a as nat, b as nat, r as nat),
{
    num::integer::lcm(a, b)
}

/// A positive common multiple is at least the least common multiple.
pub proof fn lemma_lcm_is_least(a: nat, b: nat, r: nat, m: nat)
    requires
        a >= 1,
        b >= 1,
        is_lcm(a, b, r),
        m >= 1,
        m % a == 0,
        m % b == 0,
    ensures
        r <= m,
{
    if m < r {
        assert(!(m % a == 0 && m % b == 0));
    }
}

/// Two least common multiples of the same pair coincide: `is_lcm` pins
/// its third argument down.
pub proof fn lemma_lcm_unique(a: nat, b: nat, r1: nat, r2: nat)
    requires
        a >= 1,
        b >= 1,
        is_lcm(a, b, r1),
        is_lcm(a, b, r2),
    ensures
        r1 == r2,
{
    if r1 < r2 {
        lemma_lcm_is_least(a, b, r2, r1);
    }
    if r2 < r1 {
        lemma_lcm_is_least(a, b, r1, r2);
    }
}

/// The least common multiple lies between `max(a, b)` and `a * b`.
pub proof fn lemma_lcm_bounds(a: nat, b: nat, r: nat)
    requires
        a >= 1,
        b >= 1,
        is_lcm(a, b, r),
    ensures
        r >= a,
        r >= b,
        r <= a * b,
{
    if r < a {
        lemma_small_mod(r, a);
        assert(r % a == r);
    }
    if r < b {
        lemma_small_mod(r, b);
        assert(r % b == r);
    }
    assert((a * b) % a == 0 && (a * b) % b == 0) by {
        lemma_mod_multiples_basic(b as int, a as int);
        lemma_mod_multiples_basic(a as int, b as int);
        assert(a * b == b * a) by (nonlinear_arith);
    }
    assert(a * b >= 1) by (nonlinear_arith)
        requires a >= 1 && b >= 1;
    lemma_lcm_is_least(a, b, r, a * b);
}

/// `ceil_div(a, b)` is the least `k` with `k * b >= a`.
pub open spec fn ceil_div(a: nat, b: nat) -> nat
    recommends b >= 1,
{
    (a + b - 1) as nat / b
}

/// Ceiling division rounds up: the quotient times the divisor covers `a`,
/// and one step less does not.
pub proof fn lemma_ceil_div(a: nat, b: nat)
    requires
        b >= 1,
    ensures
        ceil_div(a, b) * b >= a,
        a >= 1 ==> (ceil_div(a, b) - 1) * b < a,
        a >= 1 ==> ceil_div(a, b) >= 1,
{
    let x = (a + b - 1) as int;
    let k = x / b as int;
    lemma_fundamental_div_mod(x, b as int);
    lemma_mod_division_less_than_divisor(x, b as int);
    let r = x % b as int;
    assert(k * b == x - r) by (nonlinear_arith)
        requires x == b * k + r;
    assert(k * b >= a);
    if a >= 1 {
        assert((k - 1) * b == k * b - b) by (nonlinear_arith);
        assert((k - 1) * b < a);
        if k <= 0 {
            assert(k * b <= 0) by (nonlinear_arith)
                requires k <= 0 && b >= 1;
        }
    }
}

/// How many positions `p` in `[0, len)` fall in the residue class
/// `p % n == i`.
pub open spec fn index_hits(len: nat, n: nat, i: nat) -> nat
    decreases len,
{
    if len == 0 {
        0
    } else {
        index_hits((len - 1) as nat, n, i) + if ((len - 1) as nat) % n == i {
            1nat
        } else {
            0nat
        }
    }
}

/// Closed form for `index_hits`: each full block of `n` positions holds the
/// residue `i` exactly once, and a trailing partial block holds it once more
/// exactly when the block reaches past `i`.
pub proof fn lemma_index_hits_closed(len: nat, n: nat, i: nat)
    requires
        n >= 1,
        i < n,
    ensures
        index_hits(len, n, i) == len / n + if i < len % n { 1nat } else { 0nat },
    decreases len,
{
    if len == 0 {
        lemma_small_mod(0, n);
        assert(0nat / n == 0) by {
            lemma_basic_div(0, n as int);
        }
    } else {
        let m = (len - 1) as nat;
        lemma_index_hits_closed(m, n, i);
        lemma_fundamental_div_mod(m as int, n as int);
        lemma_mod_division_less_than_divisor(m as int, n as int);
        let q = m as int / n as int;
        let r = m as int % n as int;
        if r + 1 < n {
            lemma_fundamental_div_mod_converse(len as int, n as int, q, r + 1);
        } else {
            assert(len as int == (q + 1) * n) by {
                assert((q + 1) * n == q * n + n) by (nonlinear_arith);
            }
            lemma_fundamental_div_mod_converse(len as int, n as int, q + 1, 0);
        }
    }
}

/// When `n` divides `len`, every residue class below `n` occurs exactly
/// `len / n` times among the positions `[0, len)`.
pub proof fn lemma_index_hits_exact(len: nat, n: nat, i: nat)
    requires
        n >= 1,
        i < n,
        len % n == 0,
    ensures
        index_hits(len, n, i) == len / n,
{
    lemma_index_hits_closed(len, n, i);
}

} // verus!
