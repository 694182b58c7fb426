//! Integer helpers shared by the contracts.

use vstd::prelude::*;

verus! {

/// `r` is the integer square root of `n`: the largest `r >= 0` with `r * r <= n`.
pub open spec fn is_isqrt(n: int, r: int) -> bool {
    &&& 0 <= r
    &&& r * r <= n
    &&& n < (r + 1) * (r + 1)
}

/// What `isqrt` returns: 0 for `n <= 0`, the integer square root otherwise.
pub open spec fn isqrt_spec_holds(n: int, r: int) -> bool {
    if n <= 0 {
        r == 0
    } else {
        is_isqrt(n, r)
    }
}

/// The smaller of two integers.
pub open spec fn min_spec(a: int, b: int) -> int {
    if a < b {
        a
    } else {
        b
    }
}

proof fn lemma_newton_step_stays_above(n: int, x: int, q: int, y: int)
    requires
        1 <= x,
        0 <= n,
        q == n / x,
        y == (x + q) / 2,
    ensures
        (y + 1) * (y + 1) > n,
{
    assert(n < (q + 1) * x) by (nonlinear_arith)
        requires
            1 <= x,
            0 <= n,
            q == n / x,
    ;
    assert(2 * (y + 1) >= x + q + 1);
    assert((x + q + 1) * (x + q + 1) >= 4 * x * (q + 1)) by (nonlinear_arith);
    assert(4 * (y + 1) * (y + 1) >= (x + q + 1) * (x + q + 1)) by (nonlinear_arith)
        requires
            2 * (y + 1) >= x + q + 1,
            x + q + 1 >= 0,
    ;
    assert(4 * x * (q + 1) > 4 * n) by (nonlinear_arith)
        requires
            n < (q + 1) * x,
    ;
    assert((y + 1) * (y + 1) > n) by (nonlinear_arith)
        requires
            4 * (y + 1) * (y + 1) >= (x + q + 1) * (x + q + 1),
            (x + q + 1) * (x + q + 1) >= 4 * x * (q + 1),
            4 * x * (q + 1) > 4 * n,
    ;
}

proof fn lemma_newton_step_descends(n: int, x: int, q: int, y: int)
    requires
        1 <= x,
        0 <= n,
        x * x > n,
        q == n / x,
        y == (x + q) / 2,
    ensures
        y < x,
{
    assert(q < x) by (nonlinear_arith)
        requires
            1 <= x,
            0 <= n,
            x * x > n,
            q == n / x,
    ;
}

proof fn lemma_newton_step_bounded(n: int, x: int, q: int)
    requires
        1 <= x <= n,
        q == n / x,
    ensures
        0 <= q,
        x + q <= n + 1,
{
    assert(x * q <= n && 0 <= q) by (nonlinear_arith)
        requires
            1 <= x <= n,
            q == n / x,
    ;
    if q >= 1 {
        assert((x - 1) * (q - 1) >= 0) by (nonlinear_arith)
            requires
                1 <= x,
                1 <= q,
        ;
        assert((x - 1) * (q - 1) == x * q - x - q + 1) by (nonlinear_arith);
    }
}

/// The integer square root of `n`, 0 for `n <= 0`.
pub open spec fn isqrt_value(n: int) -> int {
    if n <= 0 {
        0
    } else {
        choose|r: int| is_isqrt(n, r)
    }
}

/// There is only one integer square root.
pub proof fn lemma_isqrt_unique(n: int, r1: int, r2: int)
    requires
        is_isqrt(n, r1),
        is_isqrt(n, r2),
    ensures
        r1 == r2,
{
    if r1 < r2 {
        assert((r1 + 1) * (r1 + 1) <= r2 * r2) by (nonlinear_arith)
            requires
                0 <= r1 < r2,
        ;
    } else if r2 < r1 {
        assert((r2 + 1) * (r2 + 1) <= r1 * r1) by (nonlinear_arith)
            requires
                0 <= r2 < r1,
        ;
    }
}

/// Integer square root by Newton's method; 0 for non-positive input.
pub fn isqrt(n: i128) -> (r: i128)
    requires
        n < i128::MAX,
    ensures
        isqrt_spec_holds(n as int, r as int),
        r == isqrt_value(n as int),
{
    if n <= 0 {
        return 0;
    }
    if n == 1 {
        proof {
            assert(is_isqrt(1, 1));
            lemma_isqrt_unique(1, 1, choose|r: int| is_isqrt(1, r));
        }
        return 1;
    }
    let mut x: i128 = n;
    let mut y: i128 = (x + 1) / 2;
    proof {
        assert(n / n == 1) by (nonlinear_arith)
            requires
                n >= 2,
        ;
        lemma_newton_step_stays_above(n as int, n as int, 1, y as int);
        assert((n + 1) * (n + 1) > n) by (nonlinear_arith)
            requires
                n >= 2,
        ;
    }
    while y < x
        invariant
            2 <= n < i128::MAX,
            1 <= x <= n,
            0 <= y <= n,
            (x + 1) * (x + 1) > n,
            (y + 1) * (y + 1) > n,
            y == (x + n / x) / 2,
        decreases x,
    {
        x = y;
        proof {
            assert(x >= 1) by (nonlinear_arith)
                requires
                    (x + 1) * (x + 1) > n,
                    n >= 2,
                    x >= 0,
            ;
            lemma_newton_step_bounded(n as int, x as int, (n / x) as int);
            lemma_newton_step_stays_above(n as int, x as int, (n / x) as int, ((x + n / x) / 2) as int);
        }
        y = (x + n / x) / 2;
    }
    proof {
        if x * x > n {
            lemma_newton_step_descends(n as int, x as int, (n / x) as int, y as int);
        }
        assert(is_isqrt(n as int, x as int));
        lemma_isqrt_unique(n as int, x as int, choose|r: int| is_isqrt(n as int, r));
    }
    x
}

/// The smaller of two values.
pub fn min(a: i128, b: i128) -> (r: i128)
    ensures
        r == min_spec(a as int, b as int),
{
    if a < b {
        a
    } else {
        b
    }
}

} // verus!

verus! {

/// `x` fits in an `i128`.
pub open spec fn fits_i128(x: int) -> bool {
    i128::MIN <= x <= i128::MAX
}

/// Division rounding toward zero, as Rust's `/` on signed integers does.
pub open spec fn trunc_div(a: int, b: int) -> int {
    if a == 0 {
        0
    } else if a > 0 && b > 0 {
        a / b
    } else if a < 0 && b < 0 {
        (-a) / (-b)
    } else if a < 0 {
        -((-a) / b)
    } else {
        -(a / (-b))
    }
}

} // verus!

verus! {

/// Signed division rounding toward zero; `None` where Rust's `/` would panic.
pub open spec fn checked_trunc_div(x: int, y: int) -> Option<int> {
    if y == 0 || !fits_i128(trunc_div(x, y)) {
        None
    } else {
        Some(trunc_div(x, y))
    }
}

/// `x / y` as Rust computes it, `None` on division by zero or overflow.
pub fn div_i128(x: i128, y: i128) -> (r: Option<i128>)
    ensures
        r == (match checked_trunc_div(x as int, y as int) {
            Some(q) => Some(q as i128),
            None => None,
        }),
        checked_trunc_div(x as int, y as int) is Some ==> fits_i128(
            checked_trunc_div(x as int, y as int)->Some_0,
        ),
{
    x.checked_div(y)
}

} // verus!
