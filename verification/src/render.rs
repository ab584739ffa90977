//! Rail rendering rules: which dots, straights and bends a cell shows,
//! and where their strokes run.
//!
//! Each direction of a cell carries a connection mask: a committed rail
//! and/or a provisional preview of the hovered edge. A dot marks a
//! connected edge with no continuation on the far half of the cell; a
//! straight joins two opposite connected edges; a bend joins the two
//! edges adjacent to a direction. A shape whose underlying connections
//! are not all committed renders in the ghost style. Stroke geometry is
//! exact fixed-point: two parallel lanes 10 pixels off the rail axis,
//! edge midpoints 26 pixels out, bend arcs of radius 45 plus or minus
//! the lane offset, always sweeping the short way around.

use vstd::prelude::*;
use crate::grid::Edge;
use crate::hit::planar_direction_spec;
use crate::hit::planar_direction;
use crate::fixed::SCALE;

verus! {

/// Connection state of one direction of a cell: a committed rail, a
/// provisional preview, both, or neither.
#[derive(Clone, Copy)]
pub struct Conn {
    pub real: bool,
    pub preview: bool,
}

/// Whether the direction is connected at all, committed or previewed.
pub open spec fn conn_of(cn: Seq<Conn>, d: int) -> bool
    recommends
        cn.len() == 6,
        0 <= d < 6,
{
    cn[d].real || cn[d].preview
}

/// Dot rule: direction `d` is connected and the three far directions
/// `d+2`, `d+3`, `d+4` are all disconnected — a dead end, marked with a
/// stub.
pub open spec fn dot_at(cn: Seq<Conn>, d: int) -> bool
    recommends
        0 <= d < 6,
{
    conn_of(cn, d) && !conn_of(cn, (d + 2) % 6) && !conn_of(cn, (d + 3) % 6) && !conn_of(
        cn,
        (d + 4) % 6,
    )
}

/// A dot renders as a ghost when its connection is preview-only.
pub open spec fn dot_ghost(cn: Seq<Conn>, d: int) -> bool
    recommends
        0 <= d < 6,
{
    !cn[d].real
}

/// Straight rule: both opposite edges `d` and `d + 3` are connected.
pub open spec fn straight_at(cn: Seq<Conn>, d: int) -> bool
    recommends
        0 <= d < 3,
{
    conn_of(cn, d) && conn_of(cn, d + 3)
}

/// A straight renders as a ghost unless both its edges are committed.
pub open spec fn straight_ghost(cn: Seq<Conn>, d: int) -> bool
    recommends
        0 <= d < 3,
{
    !(cn[d].real && cn[d + 3].real)
}

/// Bend rule: the two directions adjacent to `d` are both connected.
pub open spec fn bend_at(cn: Seq<Conn>, d: int) -> bool
    recommends
        0 <= d < 6,
{
    conn_of(cn, (d + 5) % 6) && conn_of(cn, (d + 1) % 6)
}

/// A bend renders as a ghost unless both its edges are committed.
pub open spec fn bend_ghost(cn: Seq<Conn>, d: int) -> bool
    recommends
        0 <= d < 6,
{
    !(cn[(d + 5) % 6].real && cn[(d + 1) % 6].real)
}

/// Builds the per-direction connection masks of a cell from its six
/// edges and the optional previewed direction.
pub fn connections(edges: &[Edge; 6], preview: Option<usize>) -> (cn: [Conn; 6])
    requires
        preview.is_some() ==> preview.unwrap() < 6,
    ensures
        forall|d: int|
            0 <= d < 6 ==> (#[trigger] cn[d]).real == edges[d].rail_connection,
        forall|d: int|
            0 <= d < 6 ==> (#[trigger] cn[d]).preview == (match preview {
                Some(p) => p == d,
                None => false,
            }),
{
    let mut cn: [Conn; 6] = [
        Conn { real: edges[0].rail_connection, preview: false },
        Conn { real: edges[1].rail_connection, preview: false },
        Conn { real: edges[2].rail_connection, preview: false },
        Conn { real: edges[3].rail_connection, preview: false },
        Conn { real: edges[4].rail_connection, preview: false },
        Conn { real: edges[5].rail_connection, preview: false },
    ];
    match preview {
        Some(h) => {
            cn[h] = Conn { real: cn[h].real, preview: true };
        },
        None => {},
    }
    cn
}

/// The dots of a cell in ascending direction order from `d` on, each with
/// its ghost flag.
pub open spec fn dots_spec(cn: Seq<Conn>, d: int) -> Seq<(usize, bool)>
    decreases 6 - d,
{
    if d < 0 || d >= 6 {
        Seq::empty()
    } else if dot_at(cn, d) {
        seq![(d as usize, dot_ghost(cn, d))] + dots_spec(cn, d + 1)
    } else {
        dots_spec(cn, d + 1)
    }
}

/// The straights of a cell in ascending pair order from `d` on, each with
/// its ghost flag.
pub open spec fn straights_spec(cn: Seq<Conn>, d: int) -> Seq<(usize, bool)>
    decreases 3 - d,
{
    if d < 0 || d >= 3 {
        Seq::empty()
    } else if straight_at(cn, d) {
        seq![(d as usize, straight_ghost(cn, d))] + straights_spec(cn, d + 1)
    } else {
        straights_spec(cn, d + 1)
    }
}

/// The bends of a cell in ascending direction order from `d` on, each
/// with its ghost flag.
pub open spec fn bends_spec(cn: Seq<Conn>, d: int) -> Seq<(usize, bool)>
    decreases 6 - d,
{
    if d < 0 || d >= 6 {
        Seq::empty()
    } else if bend_at(cn, d) {
        seq![(d as usize, bend_ghost(cn, d))] + bends_spec(cn, d + 1)
    } else {
        bends_spec(cn, d + 1)
    }
}

/// The shapes one cell draws: directions and ghost flags of its dots,
/// straights and bends, each list in ascending direction order.
pub struct CellScene {
    pub dots: Vec<(usize, bool)>,
    pub straights: Vec<(usize, bool)>,
    pub bends: Vec<(usize, bool)>,
}

/// Applies the three rail rules to a cell's connection masks.
pub fn render_cell(cn: &[Conn; 6]) -> (scene: CellScene)
    ensures
        scene.dots@ == dots_spec(cn@, 0),
        scene.straights@ == straights_spec(cn@, 0),
        scene.bends@ == bends_spec(cn@, 0),
{
    let mut dots: Vec<(usize, bool)> = Vec::new();
    let mut d: usize = 0;
    while d < 6
        invariant
            d <= 6,
            dots_spec(cn@, 0) == dots@ + dots_spec(cn@, d as int),
        decreases 6 - d,
    {
        let far1 = cn[(d + 2) % 6];
        let far2 = cn[(d + 3) % 6];
        let far3 = cn[(d + 4) % 6];
        let here = cn[d];
        if (here.real || here.preview) && !(far1.real || far1.preview) && !(far2.real
            || far2.preview) && !(far3.real || far3.preview) {
            dots.push((d, !here.real));
        }
        d = d + 1;
    }
    let mut straights: Vec<(usize, bool)> = Vec::new();
    let mut s: usize = 0;
    while s < 3
        invariant
            s <= 3,
            straights_spec(cn@, 0) == straights@ + straights_spec(cn@, s as int),
        decreases 3 - s,
    {
        let near = cn[s];
        let far = cn[s + 3];
        if (near.real || near.preview) && (far.real || far.preview) {
            straights.push((s, !(near.real && far.real)));
        }
        s = s + 1;
    }
    let mut bends: Vec<(usize, bool)> = Vec::new();
    let mut b: usize = 0;
    while b < 6
        invariant
            b <= 6,
            bends_spec(cn@, 0) == bends@ + bends_spec(cn@, b as int),
        decreases 6 - b,
    {
        let prev = cn[(b + 5) % 6];
        let next = cn[(b + 1) % 6];
        if (prev.real || prev.preview) && (next.real || next.preview) {
            bends.push((b, !(prev.real && next.real)));
        }
        b = b + 1;
    }
    CellScene { dots, straights, bends }
}

/// Dot vs. straight exclusivity: a dot at direction `d` and a straight
/// spanning `d` demand contradictory states of the opposite edge, so at
/// most one of them fires.
pub proof fn lemma_dot_straight_exclusive(cn: Seq<Conn>, d: int)
    requires
        0 <= d < 6,
    ensures
        !(dot_at(cn, d) && straight_at(cn, if d < 3 { d } else { d - 3 })),
{
}

/// One rail stroke in fixed-point pixel coordinates, relative to the
/// cell center.
pub struct Line {
    pub x1: i64,
    pub y1: i64,
    pub x2: i64,
    pub y2: i64,
}

/// The two parallel lane strokes of a stub or straight, with the style
/// they render in.
pub struct LanePair {
    pub left: Line,
    pub right: Line,
    pub ghosted: bool,
}

/// One lane stroke of a bend: a circular arc between two edge midpoints,
/// always sweeping the short way around. Coordinates and radius are
/// fixed-point.
pub struct Arc {
    pub x1: i64,
    pub y1: i64,
    pub x2: i64,
    pub y2: i64,
    pub radius: i64,
}

/// The two concentric arc strokes of a bend, with the style they render
/// in.
pub struct BendArcs {
    pub outer: Arc,
    pub inner: Arc,
    pub ghosted: bool,
}

/// A rail segment along direction `dir`: from the edge midpoint 26 pixels
/// out, `len` pixels back toward the center, as two lanes offset 10
/// pixels to either side.
pub fn straight_len(dir: usize, len: i64, ghosted: bool) -> (lp: LanePair)
    requires
        dir < 6,
        0 <= len <= 1000,
    ensures
        ({
            let v = planar_direction_spec(dir as int);
            &&& lp.left.x1 == 26 * v.0 + 10 * v.1
            &&& lp.left.y1 == 26 * v.1 - 10 * v.0
            &&& lp.left.x2 == (26 - len) * v.0 + 10 * v.1
            &&& lp.left.y2 == (26 - len) * v.1 - 10 * v.0
            &&& lp.right.x1 == 26 * v.0 - 10 * v.1
            &&& lp.right.y1 == 26 * v.1 + 10 * v.0
            &&& lp.right.x2 == (26 - len) * v.0 - 10 * v.1
            &&& lp.right.y2 == (26 - len) * v.1 + 10 * v.0
            &&& lp.ghosted == ghosted
        }),
{
    let v = planar_direction(dir);
    let left = Line {
        x1: 26 * v.0 + 10 * v.1,
        y1: 26 * v.1 - 10 * v.0,
        x2: (26 - len) * v.0 + 10 * v.1,
        y2: (26 - len) * v.1 - 10 * v.0,
    };
    let right = Line {
        x1: 26 * v.0 - 10 * v.1,
        y1: 26 * v.1 + 10 * v.0,
        x2: (26 - len) * v.0 - 10 * v.1,
        y2: (26 - len) * v.1 + 10 * v.0,
    };
    LanePair { left, right, ghosted }
}

/// The short stub that marks a dead-end connection: a 10-pixel segment
/// at the edge midpoint.
pub fn stub(dir: usize, ghosted: bool) -> (lp: LanePair)
    requires
        dir < 6,
    ensures
        ({
            let v = planar_direction_spec(dir as int);
            &&& lp.left.x1 == 26 * v.0 + 10 * v.1
            &&& lp.left.y1 == 26 * v.1 - 10 * v.0
            &&& lp.left.x2 == 16 * v.0 + 10 * v.1
            &&& lp.left.y2 == 16 * v.1 - 10 * v.0
            &&& lp.right.x1 == 26 * v.0 - 10 * v.1
            &&& lp.right.y1 == 26 * v.1 + 10 * v.0
            &&& lp.right.x2 == 16 * v.0 - 10 * v.1
            &&& lp.right.y2 == 16 * v.1 + 10 * v.0
            &&& lp.ghosted == ghosted
        }),
{
    straight_len(dir, 10, ghosted)
}

/// A full-width straight: the segment spans the hex from edge midpoint to
/// opposite edge midpoint, 52 pixels.
pub fn straight(dir: usize, ghosted: bool) -> (lp: LanePair)
    requires
        dir < 6,
    ensures
        ({
            let v = planar_direction_spec(dir as int);
            &&& lp.left.x1 == 26 * v.0 + 10 * v.1
            &&& lp.left.y1 == 26 * v.1 - 10 * v.0
            &&& lp.left.x2 == -26 * v.0 + 10 * v.1
            &&& lp.left.y2 == -26 * v.1 - 10 * v.0
            &&& lp.right.x1 == 26 * v.0 - 10 * v.1
            &&& lp.right.y1 == 26 * v.1 + 10 * v.0
            &&& lp.right.x2 == -26 * v.0 - 10 * v.1
            &&& lp.right.y2 == -26 * v.1 + 10 * v.0
            &&& lp.ghosted == ghosted
        }),
{
    straight_len(dir, 52, ghosted)
}

/// The two arc lanes of a bend at direction `dir`: they join the edge
/// midpoints of the adjacent directions `dir - 1` and `dir + 1`, offset
/// 10 pixels to either lane, with radii 55 and 35.
pub fn bend(dir: usize, ghosted: bool) -> (ba: BendArcs)
    requires
        dir < 6,
    ensures
        ({
            let v1 = planar_direction_spec(((dir + 5) % 6) as int);
            let v2 = planar_direction_spec(((dir + 1) % 6) as int);
            &&& ba.outer.x1 == 26 * v1.0 + 10 * v1.1
            &&& ba.outer.y1 == 26 * v1.1 - 10 * v1.0
            &&& ba.outer.x2 == 26 * v2.0 - 10 * v2.1
            &&& ba.outer.y2 == 26 * v2.1 + 10 * v2.0
            &&& ba.outer.radius == 55 * SCALE
            &&& ba.inner.x1 == 26 * v1.0 - 10 * v1.1
            &&& ba.inner.y1 == 26 * v1.1 + 10 * v1.0
            &&& ba.inner.x2 == 26 * v2.0 + 10 * v2.1
            &&& ba.inner.y2 == 26 * v2.1 - 10 * v2.0
            &&& ba.inner.radius == 35 * SCALE
            &&& ba.ghosted == ghosted
        }),
{
    let v1 = planar_direction((dir + 5) % 6);
    let v2 = planar_direction((dir + 1) % 6);
    let outer = Arc {
        x1: 26 * v1.0 + 10 * v1.1,
        y1: 26 * v1.1 - 10 * v1.0,
        x2: 26 * v2.0 - 10 * v2.1,
        y2: 26 * v2.1 + 10 * v2.0,
        radius: 55 * SCALE,
    };
    let inner = Arc {
        x1: 26 * v1.0 - 10 * v1.1,
        y1: 26 * v1.1 + 10 * v1.0,
        x2: 26 * v2.0 + 10 * v2.1,
        y2: 26 * v2.1 - 10 * v2.0,
        radius: 35 * SCALE,
    };
    BendArcs { outer, inner, ghosted }
}

} // verus!
