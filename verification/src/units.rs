//! Fixed-point coordinate arithmetic.
//!
//! Positions and velocities are kept in tenths of a character cell, so the
//! movement rules (acceleration, damping, fractional collision retries) are
//! exact integer arithmetic.  The cell a position falls in is obtained by
//! dividing by [`SCALE`] with truncation toward zero.

use vstd::prelude::*;

verus! {

/// Sub-cell units per character cell.
pub const SCALE: i32 = 10;

/// Bound on the magnitude of any position or velocity the library works
/// with; keeps every intermediate sum far away from machine limits.
pub const UNIT_LIMIT: i32 = 0x0100_0000;

/// The character cell a sub-cell coordinate falls in: division by `SCALE`
/// truncated toward zero.
pub open spec fn cell_of(p: int) -> int {
    if p >= 0 {
        p / (SCALE as int)
    } else {
        -((-p) / (SCALE as int))
    }
}

/// Exec counterpart of [`cell_of`].
pub fn cell_of_exec(p: i32) -> (c: i32)
    requires
        -0x0200_0000 <= p <= 0x0200_0000,
    ensures
        c == cell_of(p as int),
        -0x0200_0000 <= c <= 0x0200_0000,
{
    if p >= 0 {
        p / SCALE
    } else {
        -((-p) / SCALE)
    }
}

/// `v` clamped into `[lo, hi]`.
pub open spec fn clamp_spec(v: int, lo: int, hi: int) -> int {
    if v < lo {
        lo
    } else if v > hi {
        hi
    } else {
        v
    }
}

/// Exec counterpart of [`clamp_spec`].
pub fn clamp_i32(v: i32, lo: i32, hi: i32) -> (r: i32)
    requires
        lo <= hi,
    ensures
        r == clamp_spec(v as int, lo as int, hi as int),
{
    if v < lo {
        lo
    } else if v > hi {
        hi
    } else {
        v
    }
}

/// The fraction `k/10` of a sub-cell quantity, truncated toward zero;
/// `k` ranges over the discrete retry steps `0 ..= 10`.
pub open spec fn frac_of(v: int, k: int) -> int {
    if v >= 0 {
        (v * k) / 10
    } else {
        -(((-v) * k) / 10)
    }
}

/// Exec counterpart of [`frac_of`].
pub fn frac_of_exec(v: i32, k: i32) -> (r: i32)
    requires
        -UNIT_LIMIT <= v <= UNIT_LIMIT,
        0 <= k <= 10,
    ensures
        r == frac_of(v as int, k as int),
{
    if v >= 0 {
        proof {
            assert(0 <= (v as int) * (k as int) <= 0x0A00_0000) by (nonlinear_arith)
                requires
                    0 <= v as int <= 0x0100_0000,
                    0 <= k as int <= 10,
            ;
        }
        (v * k) / 10
    } else {
        proof {
            assert(0 <= (-(v as int)) * (k as int) <= 0x0A00_0000) by (nonlinear_arith)
                requires
                    0 <= -(v as int) <= 0x0100_0000,
                    0 <= k as int <= 10,
            ;
        }
        -(((-v) * k) / 10)
    }
}

/// A fraction of `v` never exceeds `v` in magnitude.
pub proof fn lemma_frac_of_bound(v: int, k: int)
    requires
        0 <= k <= 10,
    ensures
        v >= 0 ==> 0 <= frac_of(v, k) <= v,
        v < 0 ==> v <= frac_of(v, k) <= 0,
{
    if v >= 0 {
        assert(v * k <= v * 10) by (nonlinear_arith)
            requires 0 <= k <= 10, v >= 0;
        assert(0 <= (v * k) / 10 <= (v * 10) / 10) by (nonlinear_arith)
            requires 0 <= v * k <= v * 10;
    } else {
        let u = -v;
        assert(u * k <= u * 10) by (nonlinear_arith)
            requires 0 <= k <= 10, u >= 0;
        assert(0 <= (u * k) / 10 <= (u * 10) / 10) by (nonlinear_arith)
            requires 0 <= u * k <= u * 10;
    }
}

} // verus!
