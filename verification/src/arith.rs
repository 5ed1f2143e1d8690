//! Integer arithmetic shared by the layouts.
use vstd::arithmetic::power2::pow2;
use vstd::prelude::*;

verus! {

/// Whether `n` is a power of two: halving it over and over without remainder ends at one.
pub open spec fn is_power_of_two(n: nat) -> bool
    decreases n,
{
    n == 1 || (n > 1 && n % 2 == 0 && is_power_of_two(n / 2))
}

/// The smallest integer not below `a / b`.
pub open spec fn ceil_div(a: int, b: int) -> int {
    (a + b - 1) / b
}

/// Whether `n` is a power of two.
pub fn power_of_two(n: usize) -> (yes: bool)
    ensures
        yes == is_power_of_two(n as nat),
{
    let mut rest: usize = n;
    while rest > 1 && rest % 2 == 0
        invariant
            is_power_of_two(rest as nat) == is_power_of_two(n as nat),
        decreases rest,
    {
        rest = rest / 2;
    }
    rest == 1
}

/// The quotient of `a` by `b`, rounded up.
pub fn div_ceil(a: usize, b: usize) -> (quotient: usize)
    requires
        b > 0,
    ensures
        quotient == ceil_div(a as int, b as int),
        quotient <= a,
{
    let whole: usize = a / b;
    proof {
        vstd::arithmetic::div_mod::lemma_fundamental_div_mod(a as int, b as int);
        let q = a as int / b as int;
        let r = a as int % b as int;
        assert(q <= a) by (nonlinear_arith)
            requires
                a as int == b as int * q + r,
                b >= 1,
                0 <= r,
                q >= 0,
        ;
        if r == 0 {
            assert((a + b - 1) / b as int == q) by (nonlinear_arith)
                requires
                    a as int == b as int * q,
                    b >= 1,
            ;
        } else {
            assert((a + b - 1) / b as int == q + 1) by (nonlinear_arith)
                requires
                    a as int == b as int * q + r,
                    0 < r < b,
            ;
            assert(q < a) by (nonlinear_arith)
                requires
                    a as int == b as int * q + r,
                    b >= 1,
                    0 < r,
                    q >= 0,
            ;
        }
    }
    if a % b == 0 {
        whole
    } else {
        whole + 1
    }
}

/// A power of two is two raised to some exponent, and the other way round.
pub proof fn power_of_two_is_pow2(n: nat)
    ensures
        is_power_of_two(n) <==> exists|k: nat| n == #[trigger] pow2(k),
    decreases n,
{
    if n == 1 {
        vstd::arithmetic::power2::lemma2_to64();
        assert(n == pow2(0));
    } else if n > 1 {
        power_of_two_is_pow2(n / 2);
        if n % 2 == 0 && is_power_of_two(n / 2) {
            let k = choose|k: nat| n / 2 == #[trigger] pow2(k);
            vstd::arithmetic::power2::lemma_pow2_unfold(k + 1);
            assert(n == pow2(k + 1));
        }
        if exists|k: nat| n == #[trigger] pow2(k) {
            let k = choose|k: nat| n == #[trigger] pow2(k);
            if k == 0 {
                vstd::arithmetic::power2::lemma2_to64();
            } else {
                vstd::arithmetic::power2::lemma_pow2_unfold(k);
                assert(n / 2 == pow2((k - 1) as nat));
            }
        }
    } else {
        assert forall|k: nat| n != #[trigger] pow2(k) by {
            vstd::arithmetic::power2::lemma_pow2_pos(k);
        }
    }
}

/// The position of an element of a table of tables of rows is inside it.
pub proof fn flat_index_bound(e: int, experts: int, a: int, rows: int, b: int, cols: int)
    requires
        0 <= e < experts,
        0 <= a < rows,
        0 <= b < cols,
    ensures
        0 <= e * rows,
        0 <= e * rows * cols,
        0 <= a * cols,
        0 <= e * rows * cols + a * cols + b < experts * rows * cols,
        e * rows <= experts * rows * cols,
{
    assert(0 <= a * cols && a * cols + b < rows * cols) by (nonlinear_arith)
        requires
            0 <= a < rows,
            0 <= b < cols,
    ;
    assert(0 <= e * rows && e * rows <= e * rows * cols) by (nonlinear_arith)
        requires
            0 <= e,
            0 < rows,
            0 < cols,
    ;
    assert(e * rows * cols + rows * cols <= experts * rows * cols) by (nonlinear_arith)
        requires
            0 <= e < experts,
            0 < rows,
            0 < cols,
    ;
}

/// A quotient that is rounded up is the smallest number whose product reaches the dividend.
pub proof fn rounded_up_quotient_is_the_smallest(a: int, b: int, q: int)
    requires
        b > 0,
    ensures
        ceil_div(a, b) == q <==> (q - 1) * b < a <= q * b,
{
    let n = a + b - 1;
    let c = n / b;
    vstd::arithmetic::div_mod::lemma_fundamental_div_mod(n, b);
    assert((c - 1) * b < a <= c * b) by (nonlinear_arith)
        requires
            b > 0,
            n == a + b - 1,
            n == b * c + n % b,
            0 <= n % b < b,
    ;
    if (q - 1) * b < a <= q * b {
        assert(q == c) by (nonlinear_arith)
            requires
                b > 0,
                (q - 1) * b < a <= q * b,
                (c - 1) * b < a <= c * b,
        ;
    }
}

} // verus!
