//! Hex-grid coordinates: axial and cube forms, neighbor offsets, cell
//! centers, and the pixel-to-hex conversion with exact rounding.
//!
//! Cells live on a flat-top hexagonal grid addressed by axial `(q, r)`
//! pairs. Fractional coordinates (from pixel positions) are fixed-point
//! `i64` values scaled by `fixed::SCALE`; rounding to the nearest cell
//! goes through redundant cube coordinates (`x + y + z == 0`) so the
//! component with the largest rounding error can be corrected.

use vstd::prelude::*;
use vstd::math::abs;
use crate::fixed::{
    div_trunc, div_trunc_i64, round_fx_spec, round_fx, abs_i64, lemma_round_fx_exact,
    lemma_round_fx_near, lemma_round_fx_bound, lemma_div_trunc_exact, lemma_div_trunc_near,
    lemma_div_trunc_bound, SCALE, HALF,
};

verus! {

/// Largest fixed-point magnitude the rounding routines accept.
pub const FX_BOUND: i64 = 1125899906842624;

/// Largest fixed-point pixel magnitude `pixel_to_flat_hex` accepts.
pub const PIX_BOUND: i64 = 1073741824;

/// `sqrt(3) / 3` in fixed-point units: the coefficient of `y` in the
/// pixel-to-hex conversion for flat-top hexes of size 30.
pub const SQRT3_3_FX: i64 = 37837;

/// Axial offset of neighbor direction `d` (0 is west-by-northwest, the
/// indices then step clockwise).
pub open spec fn axial_direction_spec(d: int) -> (int, int) {
    if d == 0 {
        (-1int, 0int)
    } else if d == 1 {
        (0int, -1int)
    } else if d == 2 {
        (1int, -1int)
    } else if d == 3 {
        (1int, 0int)
    } else if d == 4 {
        (0int, 1int)
    } else {
        (-1int, 1int)
    }
}

/// Returns the axial offset of neighbor direction `d`.
pub fn axial_direction(d: usize) -> (v: (i64, i64))
    requires
        d < 6,
    ensures
        v.0 == axial_direction_spec(d as int).0,
        v.1 == axial_direction_spec(d as int).1,
        -1 <= v.0 <= 1,
        -1 <= v.1 <= 1,
{
    if d == 0 {
        (-1, 0)
    } else if d == 1 {
        (0, -1)
    } else if d == 2 {
        (1, -1)
    } else if d == 3 {
        (1, 0)
    } else if d == 4 {
        (0, 1)
    } else {
        (-1, 1)
    }
}

/// Componentwise sum of two axial coordinates.
pub fn plus(a: (i64, i64), b: (i64, i64)) -> (s: (i64, i64))
    requires
        i64::MIN <= a.0 + b.0 <= i64::MAX,
        i64::MIN <= a.1 + b.1 <= i64::MAX,
    ensures
        s.0 == a.0 + b.0,
        s.1 == a.1 + b.1,
{
    (a.0 + b.0, a.1 + b.1)
}

/// Center of cell `(q, r)` in whole pixel units, before any canvas offset.
pub open spec fn cell_center_spec(q: int, r: int) -> (int, int) {
    (45 * q, 26 * q + 52 * r)
}

/// Returns the pixel center of cell `(q, r)`.
pub fn cell_center(q: i64, r: i64) -> (c: (i64, i64))
    requires
        -1048576 <= q <= 1048576,
        -1048576 <= r <= 1048576,
    ensures
        c.0 == cell_center_spec(q as int, r as int).0,
        c.1 == cell_center_spec(q as int, r as int).1,
{
    (45 * q, 26 * q + 52 * r)
}

/// Lifts axial `(q, r)` to cube coordinates `(q, -q - r, r)`.
pub fn axial_to_cube(h: (i64, i64)) -> (c: (i64, i64, i64))
    requires
        h.0 > i64::MIN,
        i64::MIN <= -h.0 - h.1 <= i64::MAX,
    ensures
        c.0 == h.0,
        c.1 == -h.0 - h.1,
        c.2 == h.1,
{
    (h.0, -h.0 - h.1, h.1)
}

/// Projects cube coordinates back to axial, dropping the redundant middle
/// component.
pub fn cube_to_axial(c: (i64, i64, i64)) -> (h: (i64, i64))
    ensures
        h.0 == c.0,
        h.1 == c.2,
{
    (c.0, c.2)
}

/// Rounds each fixed-point cube component to the nearest integer, then
/// recomputes the component with the strictly largest rounding error from
/// the other two, restoring `x + y + z == 0`. Ties leave `x` and then `y`
/// alone, so exact ties fall to the `z` correction.
pub open spec fn cube_round_spec(x: int, y: int, z: int) -> (int, int, int) {
    let rx = round_fx_spec(x);
    let ry = round_fx_spec(y);
    let rz = round_fx_spec(z);
    let x_diff = abs(rx * SCALE - x);
    let y_diff = abs(ry * SCALE - y);
    let z_diff = abs(rz * SCALE - z);
    if x_diff > y_diff && x_diff > z_diff {
        (-ry - rz, ry, rz)
    } else if y_diff > z_diff {
        (rx, -rx - rz, rz)
    } else {
        (rx, ry, -rx - ry)
    }
}

/// Rounds fixed-point cube coordinates to the nearest integer cube point
/// on the plane `x + y + z == 0`.
pub fn cube_round(c: (i64, i64, i64)) -> (res: (i64, i64, i64))
    requires
        -2 * FX_BOUND <= c.0 <= 2 * FX_BOUND,
        -2 * FX_BOUND <= c.1 <= 2 * FX_BOUND,
        -2 * FX_BOUND <= c.2 <= 2 * FX_BOUND,
    ensures
        (res.0 as int, res.1 as int, res.2 as int) == cube_round_spec(
            c.0 as int,
            c.1 as int,
            c.2 as int,
        ),
        res.0 + res.1 + res.2 == 0,
        abs(res.0 as int) * SCALE <= abs(c.0 as int) + abs(c.1 as int) + abs(c.2 as int) + SCALE,
        abs(res.1 as int) * SCALE <= abs(c.0 as int) + abs(c.1 as int) + abs(c.2 as int) + SCALE,
        abs(res.2 as int) * SCALE <= abs(c.0 as int) + abs(c.1 as int) + abs(c.2 as int) + SCALE,
{
    proof {
        lemma_round_fx_bound(c.0 as int);
        lemma_round_fx_bound(c.1 as int);
        lemma_round_fx_bound(c.2 as int);
    }
    let rx = round_fx(c.0);
    let ry = round_fx(c.1);
    let rz = round_fx(c.2);

    let x_diff = abs_i64(rx * SCALE - c.0);
    let y_diff = abs_i64(ry * SCALE - c.1);
    let z_diff = abs_i64(rz * SCALE - c.2);

    if x_diff > y_diff && x_diff > z_diff {
        (-ry - rz, ry, rz)
    } else if y_diff > z_diff {
        (rx, -rx - rz, rz)
    } else {
        (rx, ry, -rx - ry)
    }
}

/// Axial form of `cube_round_spec` applied to `(q, -q - r, r)`.
pub open spec fn hex_round_spec(q: int, r: int) -> (int, int) {
    let c = cube_round_spec(q, -q - r, r);
    (c.0, c.2)
}

/// Rounds fractional fixed-point axial coordinates to the nearest cell.
pub fn hex_round(h: (i64, i64)) -> (res: (i64, i64))
    requires
        -FX_BOUND <= h.0 <= FX_BOUND,
        -FX_BOUND <= h.1 <= FX_BOUND,
    ensures
        (res.0 as int, res.1 as int) == hex_round_spec(h.0 as int, h.1 as int),
        abs(res.0 as int) * SCALE <= 2 * abs(h.0 as int) + 2 * abs(h.1 as int) + SCALE,
        abs(res.1 as int) * SCALE <= 2 * abs(h.0 as int) + 2 * abs(h.1 as int) + SCALE,
{
    let c = cube_round(axial_to_cube(h));
    cube_to_axial(c)
}

/// Rounding integer axial coordinates (scaled to fixed point) returns
/// them unchanged.
pub proof fn lemma_hex_round_exact(q: int, r: int)
    ensures
        hex_round_spec(q * SCALE, r * SCALE) == (q, r),
{
    lemma_round_fx_exact(q);
    lemma_round_fx_exact(r);
    assert(-(q * SCALE) - r * SCALE == (-q - r) * SCALE) by (nonlinear_arith);
    lemma_round_fx_exact(-q - r);
}

/// `hex_round` is idempotent: rounding a rounded coordinate pair changes
/// nothing.
pub proof fn lemma_hex_round_idempotent(q: int, r: int)
    ensures
        hex_round_spec(
            hex_round_spec(q, r).0 * SCALE,
            hex_round_spec(q, r).1 * SCALE,
        ) == hex_round_spec(q, r),
{
    let h = hex_round_spec(q, r);
    lemma_hex_round_exact(h.0, h.1);
}

/// Fractional axial `q` for a fixed-point pixel position: `(2/3 x) / 30`.
pub open spec fn frac_q_spec(x: int) -> int {
    div_trunc(2 * x, 90)
}

/// Fractional axial `r` for a fixed-point pixel position:
/// `(-x/3 + (sqrt(3)/3) y) / 30`.
pub open spec fn frac_r_spec(x: int, y: int) -> int {
    div_trunc(div_trunc(-x, 3) + div_trunc(SQRT3_3_FX * y, SCALE as int), 30)
}

/// The cell containing the fixed-point pixel position `(x, y)`.
pub open spec fn pixel_to_flat_hex_spec(x: int, y: int) -> (int, int) {
    hex_round_spec(frac_q_spec(x), frac_r_spec(x, y))
}

/// The exact pixel center of any in-grid cell maps back to that cell:
/// `pixel_to_flat_hex` of `cell_center_spec(q, r)`, scaled to fixed
/// point, is `(q, r)` again.
pub proof fn lemma_pixel_round_trip(q: int, r: int)
    requires
        -3 <= q <= 3,
        -3 <= r <= 3,
    ensures
        pixel_to_flat_hex_spec(
            cell_center_spec(q, r).0 * SCALE,
            cell_center_spec(q, r).1 * SCALE,
        ) == (q, r),
{
    let x = 45 * q * SCALE;
    let y = (26 * q + 52 * r) * SCALE;
    assert(2 * x == 90 * (q * SCALE));
    lemma_div_trunc_exact(q * SCALE, 90);
    let fq = frac_q_spec(x);
    assert(fq == q * SCALE);

    assert(-x == 3 * (-15 * q * SCALE));
    lemma_div_trunc_exact(-15 * q * SCALE, 3);
    assert(SQRT3_3_FX * y == SCALE * (SQRT3_3_FX * (26 * q + 52 * r)));
    lemma_div_trunc_exact(SQRT3_3_FX * (26 * q + 52 * r), SCALE as int);
    let n = -15 * q * SCALE + SQRT3_3_FX * (26 * q + 52 * r);
    assert(n == 30 * (SCALE * r) + (722 * q + 1444 * r));
    lemma_div_trunc_near(SCALE * r, 722 * q + 1444 * r, 30);
    let fr = frac_r_spec(x, y);
    assert(fr == div_trunc(n, 30));
    let e = fr - SCALE * r;
    assert(abs(e) * 30 <= abs(722 * q + 1444 * r) + 30);
    assert(abs(722 * q + 1444 * r) <= 6498);
    assert(abs(e) <= 218);
    assert(-HALF < e < HALF);

    lemma_round_fx_exact(q);
    assert(fr == r * SCALE + e);
    lemma_round_fx_near(r, e);
    assert(-fq - fr == (-q - r) * SCALE + (-e));
    lemma_round_fx_near(-q - r, -e);
    assert(round_fx_spec(fq) == q);
    assert(round_fx_spec(fr) == r);
    assert(round_fx_spec(-fq - fr) == -q - r);
    assert(abs(q * SCALE - fq) == 0);
    assert(abs(r * SCALE - fr) == abs(e));
    assert(abs((-q - r) * SCALE - (-fq - fr)) == abs(e));
}

/// Maps a fixed-point pixel position (origin at the canvas center) to the
/// axial cell whose center is nearest.
pub fn pixel_to_flat_hex(p: (i64, i64)) -> (h: (i64, i64))
    requires
        -PIX_BOUND <= p.0 <= PIX_BOUND,
        -PIX_BOUND <= p.1 <= PIX_BOUND,
    ensures
        (h.0 as int, h.1 as int) == pixel_to_flat_hex_spec(p.0 as int, p.1 as int),
        -1724 <= h.0 <= 1724,
        -1724 <= h.1 <= 1724,
{
    proof {
        lemma_div_trunc_bound(2 * p.0 as int, 90);
        lemma_div_trunc_bound(-p.0 as int, 3);
        lemma_div_trunc_bound(SQRT3_3_FX as int * p.1 as int, SCALE as int);
    }
    let fq = div_trunc_i64(2 * p.0, 90);
    let t1 = div_trunc_i64(-p.0, 3);
    let t2 = div_trunc_i64(SQRT3_3_FX * p.1, SCALE);
    proof {
        lemma_div_trunc_bound(t1 as int + t2 as int, 30);
    }
    let fr = div_trunc_i64(t1 + t2, 30);
    hex_round((fq, fr))
}

} // verus!
