use vstd::prelude::*;

verus! {

/// `v` bounded to the range `0 ..= hi`.
pub open spec fn clamp(v: int, hi: int) -> int {
    if v < 0 {
        0
    } else if v > hi {
        hi
    } else {
        v
    }
}

/// `n / d` rounded up, for a positive `d`.
pub open spec fn ceil_div(n: int, d: int) -> int {
    (n + d - 1) / d
}

/// `n / d` rounded to the nearest integer, halves away from zero, for a
/// positive `d`.
pub open spec fn round_div(n: int, d: int) -> int {
    if n >= 0 {
        (2 * n + d) / (2 * d)
    } else {
        -((-2 * n + d) / (2 * d))
    }
}

/// `n / d` rounded toward zero, as integer division in Rust does, for a
/// positive `d`.
pub open spec fn trunc_div(n: int, d: int) -> int {
    if n >= 0 {
        n / d
    } else {
        -((-n) / d)
    }
}

/// The bound on the magnitude of the values that these helpers take.
pub open spec fn small(n: int) -> bool {
    -0x1_0000_0000_0000 <= n <= 0x1_0000_0000_0000
}

/// `n / d` rounded down.
pub fn floor_div(n: i64, d: i64) -> (q: i64)
    requires
        0 < d <= 0x2_0000,
        -0x4_0000_0000_0000 <= n <= 0x4_0000_0000_0000,
    ensures
        q == n / d,
{
    if n >= 0 {
        ((n as u64) / (d as u64)) as i64
    } else {
        let m = (-n) as u64;
        let c = (m + d as u64 - 1) / (d as u64);
        proof {
            let ni = n as int;
            let di = d as int;
            let ci = c as int;
            assert(ci == (-ni + di - 1) / di);
            assert(-ci == ni / di) by (nonlinear_arith)
                requires
                    di > 0,
                    ni < 0,
                    ci == (-ni + di - 1) / di,
            {
                let q = ni / di;
                let r = ni % di;
                assert(ni == q * di + r && 0 <= r < di);
                assert(-ni + di - 1 == (-q) * di + (di - 1 - r));
                assert(0 <= di - 1 - r < di);
                vstd::arithmetic::div_mod::lemma_fundamental_div_mod_converse_div(-ni + di - 1, di, -q, di - 1 - r);
            }
        }
        -(c as i64)
    }
}

/// `n / d` rounded up.
pub fn ceil_div_exec(n: i64, d: i64) -> (q: i64)
    requires
        0 < d <= 0x1_0000,
        small(n as int),
    ensures
        q == ceil_div(n as int, d as int),
{
    floor_div(n + d - 1, d)
}

/// `n / d` rounded half away from zero.
pub fn round_div_exec(n: i64, d: i64) -> (q: i64)
    requires
        0 < d <= 0x1_0000,
        small(n as int),
    ensures
        q == round_div(n as int, d as int),
{
    if n >= 0 {
        floor_div(2 * n + d, 2 * d)
    } else {
        let m = floor_div(d - 2 * n, 2 * d);
        -m
    }
}

/// `n / d` rounded toward zero.
pub fn trunc_div_exec(n: i64, d: i64) -> (q: i64)
    requires
        0 < d <= 0x1_0000,
        small(n as int),
    ensures
        q == trunc_div(n as int, d as int),
{
    if n >= 0 {
        floor_div(n, d)
    } else {
        let m = floor_div(-n, d);
        -m
    }
}

/// `v` bounded to `0 ..= hi`.
pub fn clamp_exec(v: i64, hi: i64) -> (c: i64)
    requires
        hi >= 0,
    ensures
        c == clamp(v as int, hi as int),
{
    if v < 0 {
        0
    } else if v > hi {
        hi
    } else {
        v
    }
}

} // verus!
