//! Pixel-to-edge hit-testing.
//!
//! A pointer position is first snapped to its cell, then measured against
//! the six edge directions: the signed proximity of the position (taken
//! relative to the cell center) to each direction's planar unit vector,
//! in units of the 26-pixel edge distance. The direction of greatest
//! proximity wins, lowest index first on an exact tie; a maximum that
//! does not clear the 0.6 threshold means the pointer is too close to
//! the cell center and hits no edge.

use vstd::prelude::*;
use vstd::math::abs;
use vstd::arithmetic::div_mod::{
    lemma_div_is_ordered, lemma_div_multiples_vanish, lemma_div_pos_is_pos,
};
use vstd::arithmetic::mul::lemma_mul_inequality;
use crate::fixed::{div_trunc, div_trunc_i64, lemma_div_trunc_bound, SCALE, HALF};
use crate::hex::{
    cell_center, cell_center_spec, pixel_to_flat_hex, pixel_to_flat_hex_spec, PIX_BOUND,
};

verus! {

/// `sqrt(3) / 2` in fixed-point units: the long component of the planar
/// direction vectors.
pub const SQRT3_2_FX: i64 = 56756;

/// Largest relative-position magnitude the proximity routine accepts.
pub const REL_BOUND: i64 = 17179869184;

/// Planar unit vector of direction `d` in fixed-point units, at 60-degree
/// steps starting at 210 degrees (index 0 west-by-northwest, clockwise).
pub open spec fn planar_direction_spec(d: int) -> (int, int) {
    if d == 0 {
        (-SQRT3_2_FX as int, -HALF as int)
    } else if d == 1 {
        (0int, -SCALE as int)
    } else if d == 2 {
        (SQRT3_2_FX as int, -HALF as int)
    } else if d == 3 {
        (SQRT3_2_FX as int, HALF as int)
    } else if d == 4 {
        (0int, SCALE as int)
    } else {
        (-SQRT3_2_FX as int, HALF as int)
    }
}

/// Returns the fixed-point planar unit vector of direction `d`.
pub fn planar_direction(d: usize) -> (v: (i64, i64))
    requires
        d < 6,
    ensures
        v.0 == planar_direction_spec(d as int).0,
        v.1 == planar_direction_spec(d as int).1,
{
    if d == 0 {
        (-SQRT3_2_FX, -HALF)
    } else if d == 1 {
        (0, -SCALE)
    } else if d == 2 {
        (SQRT3_2_FX, -HALF)
    } else if d == 3 {
        (SQRT3_2_FX, HALF)
    } else if d == 4 {
        (0, SCALE)
    } else {
        (-SQRT3_2_FX, HALF)
    }
}

/// Proximity of relative position `(rx, ry)` to one of the three low
/// directions: the dot product with the direction vector, in units of the
/// 26-pixel edge distance.
pub open spec fn axis_proximity_spec(d: int, rx: int, ry: int) -> int
    recommends
        0 <= d < 3,
{
    let v = planar_direction_spec(d);
    div_trunc(div_trunc(v.0 * rx + v.1 * ry, SCALE as int), 26)
}

/// Proximity of relative position `(rx, ry)` to direction `d`; opposite
/// directions are anti-parallel, so the high three are the negated low
/// three.
pub open spec fn proximity_spec(d: int, rx: int, ry: int) -> int
    recommends
        0 <= d < 6,
{
    if d < 3 {
        axis_proximity_spec(d, rx, ry)
    } else {
        -axis_proximity_spec(d - 3, rx, ry)
    }
}

/// Computes all six edge proximities of a relative position.
pub fn proximities(rel: (i64, i64)) -> (pr: [i64; 6])
    requires
        -REL_BOUND <= rel.0 <= REL_BOUND,
        -REL_BOUND <= rel.1 <= REL_BOUND,
    ensures
        forall|d: int| 0 <= d < 6 ==> (#[trigger] pr[d]) == proximity_spec(d, rel.0 as int, rel.1 as int),
        forall|d: int| 0 <= d < 6 ==> -34359738368 <= #[trigger] pr[d] <= 34359738368,
{
    proof {
        lemma_div_trunc_bound(
            planar_direction_spec(0).0 * rel.0 + planar_direction_spec(0).1 * rel.1,
            SCALE as int,
        );
        lemma_div_trunc_bound(
            planar_direction_spec(1).0 * rel.0 + planar_direction_spec(1).1 * rel.1,
            SCALE as int,
        );
        lemma_div_trunc_bound(
            planar_direction_spec(2).0 * rel.0 + planar_direction_spec(2).1 * rel.1,
            SCALE as int,
        );
        lemma_div_trunc_bound(
            div_trunc(
                planar_direction_spec(0).0 * rel.0 + planar_direction_spec(0).1 * rel.1,
                SCALE as int,
            ),
            26,
        );
        lemma_div_trunc_bound(
            div_trunc(
                planar_direction_spec(1).0 * rel.0 + planar_direction_spec(1).1 * rel.1,
                SCALE as int,
            ),
            26,
        );
        lemma_div_trunc_bound(
            div_trunc(
                planar_direction_spec(2).0 * rel.0 + planar_direction_spec(2).1 * rel.1,
                SCALE as int,
            ),
            26,
        );
    }
    let v0 = planar_direction(0);
    let v1 = planar_direction(1);
    let v2 = planar_direction(2);
    let a = div_trunc_i64(div_trunc_i64(v0.0 * rel.0 + v0.1 * rel.1, SCALE), 26);
    let b = div_trunc_i64(div_trunc_i64(v1.0 * rel.0 + v1.1 * rel.1, SCALE), 26);
    let c = div_trunc_i64(div_trunc_i64(v2.0 * rel.0 + v2.1 * rel.1, SCALE), 26);
    [a, b, c, -a, -b, -c]
}

/// Whether a proximity value clears the hit threshold of 0.6 edge
/// distances (compared exactly: `p / SCALE > 3 / 5`).
pub open spec fn above_threshold(p: int) -> bool {
    5 * p > 3 * (SCALE as int)
}

/// Index of the greatest proximity, lowest index first on an exact tie.
fn arg_max(pr: &[i64; 6]) -> (idx: usize)
    ensures
        idx < 6,
        forall|j: int| 0 <= j < 6 ==> #[trigger] pr[j] <= pr[idx as int],
        forall|j: int| 0 <= j < idx as int ==> #[trigger] pr[j] < pr[idx as int],
{
    let mut idx: usize = 0;
    let mut i: usize = 1;
    while i < 6
        invariant
            idx < i <= 6,
            forall|j: int| 0 <= j < i ==> #[trigger] pr[j] <= pr[idx as int],
            forall|j: int| 0 <= j < idx as int ==> #[trigger] pr[j] < pr[idx as int],
        decreases 6 - i,
    {
        if pr[i] > pr[idx] {
            idx = i;
        }
        i = i + 1;
    }
    idx
}

/// The two-stage proximity division: by `SCALE`, then by the 26-pixel
/// edge distance.
spec fn prox_div(x: int) -> int {
    div_trunc(div_trunc(x, SCALE as int), 26)
}

/// Dot product of the planar direction vectors `j` and `d`.
spec fn dot_vv(j: int, d: int) -> int {
    planar_direction_spec(j).0 * planar_direction_spec(d).0 + planar_direction_spec(j).1
        * planar_direction_spec(d).1
}

proof fn lemma_prox_div_odd(x: int)
    ensures
        prox_div(-x) == -prox_div(x),
{
}

proof fn lemma_prox_div_le(a: int, b: int, k: int)
    requires
        k >= 0,
        0 <= b,
        -b <= a <= b,
    ensures
        prox_div(k * a) <= prox_div(k * b),
{
    lemma_mul_inequality(a, b, k);
    assert(k * a <= k * b);
    assert(k * b >= 0) by (nonlinear_arith)
        requires
            k >= 0 && b >= 0,
    ;
    if k * a >= 0 {
        lemma_div_is_ordered(k * a, k * b, SCALE as int);
        lemma_div_pos_is_pos(k * a, SCALE as int);
        lemma_div_pos_is_pos(k * b, SCALE as int);
        lemma_div_is_ordered((k * a) / (SCALE as int), (k * b) / (SCALE as int), 26);
    } else {
        // A negative product truncates to a non-positive proximity,
        // below the non-negative one of the bound.
        lemma_div_pos_is_pos(-(k * a), SCALE as int);
        lemma_div_pos_is_pos(k * b, SCALE as int);
        lemma_div_pos_is_pos((-(k * a)) / (SCALE as int), 26);
        lemma_div_pos_is_pos((k * b) / (SCALE as int), 26);
        assert(prox_div(k * a) <= 0);
        assert(prox_div(k * b) >= 0);
    }
}

/// A pointer exactly along direction vector `d`, at least the 26-pixel
/// edge distance out, gives direction `d` the greatest proximity of all
/// six, and that proximity clears the threshold.
pub proof fn lemma_on_axis_hit(d: int, k: int)
    requires
        0 <= d < 6,
        26 <= k,
    ensures
        forall|j: int|
            0 <= j < 6 ==> #[trigger] proximity_spec(
                j,
                k * planar_direction_spec(d).0,
                k * planar_direction_spec(d).1,
            ) <= proximity_spec(
                d,
                k * planar_direction_spec(d).0,
                k * planar_direction_spec(d).1,
            ),
        above_threshold(
            proximity_spec(d, k * planar_direction_spec(d).0, k * planar_direction_spec(d).1),
        ),
{
    let v = planar_direction_spec(d);
    let rx = k * v.0;
    let ry = k * v.1;
    // Each low-axis proximity of the on-axis point is the truncated
    // multiple of the corresponding dot product.
    assert forall|j: int| 0 <= j < 3 implies axis_proximity_spec(j, rx, ry) == prox_div(
        k * dot_vv(j, d),
    ) by {
        let w = planar_direction_spec(j);
        assert(w.0 * (k * v.0) + w.1 * (k * v.1) == k * (w.0 * v.0 + w.1 * v.1))
            by (nonlinear_arith);
    }
    // The six dot products with v stay within the square of v, which is
    // at least the square of the scale; checked on the constant vectors.
    let cdd = dot_vv(d, d);
    assert forall|j: int| 0 <= j < 6 implies -cdd <= #[trigger] dot_vv(j, d) <= cdd by {
    }
    assert(cdd >= SCALE * SCALE);
    // The proximity of direction d itself.
    let pd = proximity_spec(d, rx, ry);
    if d < 3 {
        assert(pd == prox_div(k * cdd));
    } else {
        assert(dot_vv(d - 3, d) == -cdd);
        assert(k * (-cdd) == -(k * cdd)) by (nonlinear_arith);
        lemma_prox_div_odd(k * cdd);
        assert(pd == prox_div(k * cdd));
    }
    // Every other proximity stays below it.
    assert forall|j: int| 0 <= j < 6 implies #[trigger] proximity_spec(j, rx, ry) <= pd by {
        if j < 3 {
            lemma_prox_div_le(dot_vv(j, d), cdd, k);
        } else {
            assert(proximity_spec(j, rx, ry) == -prox_div(k * dot_vv(j - 3, d)));
            assert(k * (-dot_vv(j - 3, d)) == -(k * dot_vv(j - 3, d))) by (nonlinear_arith);
            lemma_prox_div_odd(k * dot_vv(j - 3, d));
            lemma_prox_div_le(-dot_vv(j - 3, d), cdd, k);
        }
    }
    // And it clears the threshold: k * cdd is at least 26 * SCALE^2,
    // whose truncated proximity is a full SCALE.
    assert(k * cdd >= 26 * (SCALE * SCALE)) by (nonlinear_arith)
        requires
            k >= 26 && cdd >= SCALE * SCALE,
    ;
    lemma_div_is_ordered(26 * (SCALE * SCALE), k * cdd, SCALE as int);
    assert(26 * (SCALE * SCALE) == (26 * SCALE) * SCALE) by (nonlinear_arith);
    lemma_div_multiples_vanish(26 * SCALE, SCALE as int);
    assert((26 * (SCALE * SCALE)) / (SCALE as int) == 26 * SCALE);
    lemma_div_pos_is_pos(k * cdd, SCALE as int);
    lemma_div_is_ordered(26 * SCALE, (k * cdd) / (SCALE as int), 26);
    assert(26 * SCALE == SCALE * 26) by (nonlinear_arith);
    lemma_div_multiples_vanish(SCALE as int, 26);
    assert((26 * (SCALE as int)) / 26 == SCALE);
    assert(prox_div(k * cdd) >= SCALE);
}

/// Relative position of a fixed-point pixel position with respect to the
/// center of the cell it falls in.
pub open spec fn rel_to_center_spec(x: int, y: int) -> (int, int) {
    let h = pixel_to_flat_hex_spec(x, y);
    let ctr = cell_center_spec(h.0, h.1);
    (x - ctr.0 * SCALE, y - ctr.1 * SCALE)
}

/// Proximity of the pixel position `(x, y)` to edge direction `d` of the
/// cell it falls in.
pub open spec fn hit_proximity_spec(x: int, y: int, d: int) -> int
    recommends
        0 <= d < 6,
{
    let rel = rel_to_center_spec(x, y);
    proximity_spec(d, rel.0, rel.1)
}

/// The first-max scan over the six proximities of `(x, y)` in spec form:
/// continuing from candidate `best` at position `i`, the index of the
/// greatest proximity, lowest index first on an exact tie.
pub open spec fn scan_max_spec(x: int, y: int, i: int, best: int) -> int
    decreases 6 - i,
{
    if i < 1 || i >= 6 {
        best
    } else if hit_proximity_spec(x, y, i) > hit_proximity_spec(x, y, best) {
        scan_max_spec(x, y, i + 1, i)
    } else {
        scan_max_spec(x, y, i + 1, best)
    }
}

/// A hit result with its components widened to `int`.
pub open spec fn hit_as_ints(res: Option<(i64, i64, usize)>) -> Option<(int, int, int)> {
    match res {
        Some(t) => Some((t.0 as int, t.1 as int, t.2 as int)),
        None => None,
    }
}

/// The hovered `(cell, edge direction)` for pixel position `(x, y)`, in
/// spec form: the first direction of maximal proximity when that maximum
/// clears the threshold, and no hit otherwise.
pub open spec fn edge_hit_spec(x: int, y: int) -> Option<(int, int, int)> {
    let h = pixel_to_flat_hex_spec(x, y);
    let idx = scan_max_spec(x, y, 1, 0);
    if above_threshold(hit_proximity_spec(x, y, idx)) {
        Some((h.0, h.1, idx))
    } else {
        None
    }
}

proof fn lemma_scan_max_props(x: int, y: int, i: int, best: int)
    requires
        1 <= i <= 6,
        0 <= best < i,
        forall|j: int|
            0 <= j < i ==> #[trigger] hit_proximity_spec(x, y, j) <= hit_proximity_spec(
                x,
                y,
                best,
            ),
        forall|j: int|
            0 <= j < best ==> #[trigger] hit_proximity_spec(x, y, j) < hit_proximity_spec(
                x,
                y,
                best,
            ),
    ensures
        0 <= scan_max_spec(x, y, i, best) < 6,
        forall|j: int|
            0 <= j < 6 ==> #[trigger] hit_proximity_spec(x, y, j) <= hit_proximity_spec(
                x,
                y,
                scan_max_spec(x, y, i, best),
            ),
        forall|j: int|
            0 <= j < scan_max_spec(x, y, i, best) ==> #[trigger] hit_proximity_spec(x, y, j)
                < hit_proximity_spec(x, y, scan_max_spec(x, y, i, best)),
    decreases 6 - i,
{
    if i >= 6 {
    } else {
        if hit_proximity_spec(x, y, i) > hit_proximity_spec(x, y, best) {
            lemma_scan_max_props(x, y, i + 1, i);
        } else {
            lemma_scan_max_props(x, y, i + 1, best);
        }
    }
}

/// Resolves a pointer position to the hovered `(cell, edge direction)`
/// pair: the cell under the pointer and the direction of greatest
/// proximity (lowest index on a tie), or `None` when no proximity clears
/// the threshold — the pointer sits too close to the cell center.
#[verifier::rlimit(60)]
pub fn edge_from_coord(p: (i64, i64)) -> (res: Option<(i64, i64, usize)>)
    requires
        -PIX_BOUND <= p.0 <= PIX_BOUND,
        -PIX_BOUND <= p.1 <= PIX_BOUND,
    ensures
        hit_as_ints(res) == edge_hit_spec(p.0 as int, p.1 as int),
        match res {
            Some(hit) => {
                let (q, r, d) = hit;
                &&& (q as int, r as int) == pixel_to_flat_hex_spec(p.0 as int, p.1 as int)
                &&& d < 6
                &&& -1724 <= q <= 1724
                &&& -1724 <= r <= 1724
                &&& above_threshold(hit_proximity_spec(p.0 as int, p.1 as int, d as int))
                &&& forall|j: int|
                    0 <= j < 6 ==> #[trigger] hit_proximity_spec(p.0 as int, p.1 as int, j)
                        <= hit_proximity_spec(p.0 as int, p.1 as int, d as int)
                &&& forall|j: int|
                    0 <= j < d as int ==> #[trigger] hit_proximity_spec(p.0 as int, p.1 as int, j)
                        < hit_proximity_spec(p.0 as int, p.1 as int, d as int)
            },
            None => forall|j: int|
                0 <= j < 6 ==> !above_threshold(
                    #[trigger] hit_proximity_spec(p.0 as int, p.1 as int, j),
                ),
        },
{
    let h = pixel_to_flat_hex(p);
    let ctr = cell_center(h.0, h.1);
    let rx = p.0 - ctr.0 * SCALE;
    let ry = p.1 - ctr.1 * SCALE;
    proof {
        let rel = rel_to_center_spec(p.0 as int, p.1 as int);
        assert(rx as int == rel.0);
        assert(ry as int == rel.1);
    }
    let pr = proximities((rx, ry));
    proof {
        assert(forall|d: int|
            0 <= d < 6 ==> (#[trigger] pr[d]) == hit_proximity_spec(p.0 as int, p.1 as int, d));
    }
    let idx = arg_max(&pr);
    proof {
        assert forall|j: int| 0 <= j < 6 implies #[trigger] hit_proximity_spec(
            p.0 as int,
            p.1 as int,
            j,
        ) <= hit_proximity_spec(p.0 as int, p.1 as int, idx as int) by {
            assert(pr[j] <= pr[idx as int]);
        }
        assert forall|j: int| 0 <= j < idx as int implies #[trigger] hit_proximity_spec(
            p.0 as int,
            p.1 as int,
            j,
        ) < hit_proximity_spec(p.0 as int, p.1 as int, idx as int) by {
            assert(pr[j] < pr[idx as int]);
        }
        lemma_scan_max_props(p.0 as int, p.1 as int, 1, 0);
        let m = scan_max_spec(p.0 as int, p.1 as int, 1, 0);
        if (idx as int) < m {
            assert(hit_proximity_spec(p.0 as int, p.1 as int, idx as int) < hit_proximity_spec(
                p.0 as int,
                p.1 as int,
                m,
            ));
            assert(hit_proximity_spec(p.0 as int, p.1 as int, m) <= hit_proximity_spec(
                p.0 as int,
                p.1 as int,
                idx as int,
            ));
            assert(false);
        }
        if m < idx as int {
            assert(hit_proximity_spec(p.0 as int, p.1 as int, m) < hit_proximity_spec(
                p.0 as int,
                p.1 as int,
                idx as int,
            ));
            assert(hit_proximity_spec(p.0 as int, p.1 as int, idx as int) <= hit_proximity_spec(
                p.0 as int,
                p.1 as int,
                m,
            ));
            assert(false);
        }
        assert(m == idx as int);
    }
    if 5 * pr[idx] > 3 * SCALE {
        proof {
            assert(above_threshold(hit_proximity_spec(p.0 as int, p.1 as int, idx as int)));
        }
        Some((h.0, h.1, idx))
    } else {
        proof {
            assert forall|j: int| 0 <= j < 6 implies !above_threshold(
                #[trigger] hit_proximity_spec(p.0 as int, p.1 as int, j),
            ) by {
                assert(pr[j] <= pr[idx as int]);
            }
        }
        None
    }
}

} // verus!
