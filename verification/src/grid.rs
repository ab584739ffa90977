//! Per-cell edge connection state for the bounded hex region.
//!
//! Each cell owns the three edges on its low-index sides (directions 0,
//! 1, 2); the other three sides are the same physical edges seen from the
//! neighboring cell, so a read or write in direction 3, 4 or 5 resolves
//! to slot `d - 3` of the neighbor in that direction. Off-grid edges read
//! as disconnected and reject mutation.

use vstd::prelude::*;
use crate::hex::{axial_direction, axial_direction_spec, plus};

verus! {

/// One physical hex edge: whether a rail runs across it.
#[derive(Clone, Copy)]
pub struct Edge {
    pub rail_connection: bool,
}

/// A hex cell with its three canonically owned edges (directions 0..2).
#[derive(Clone, Copy)]
pub struct Cell {
    pub edge: [Edge; 3],
}

/// The bounded grid: a 7 x 7 backing array for axial coordinates with
/// `q` and `r` each in `[-3, 3]`.
pub struct Grid {
    pub cells: [[Cell; 7]; 7],
}

/// Whether axial `(q, r)` lies inside the backing grid.
pub open spec fn in_grid(q: int, r: int) -> bool {
    -3 <= q <= 3 && -3 <= r <= 3
}

/// Returns whether axial `(q, r)` lies inside the backing grid.
pub fn is_in_grid(q: i64, r: i64) -> (b: bool)
    ensures
        b == in_grid(q as int, r as int),
{
    -3 <= q && q <= 3 && -3 <= r && r <= 3
}

/// The canonical storage slot for edge `d` of cell `(q, r)`: the cell
/// itself for directions 0..2, the neighbor's slot `d - 3` for
/// directions 3..5, and `None` when the owning cell lies off the grid.
pub open spec fn resolve_spec(q: int, r: int, d: int) -> Option<(int, int, int)>
    recommends
        0 <= d < 6,
{
    if d < 3 {
        if in_grid(q, r) {
            Some((q, r, d))
        } else {
            None
        }
    } else {
        let v = axial_direction_spec(d);
        if in_grid(q + v.0, r + v.1) {
            Some((q + v.0, r + v.1, d - 3))
        } else {
            None
        }
    }
}

impl Grid {
    /// The stored state of owned edge `e` of cell `(q, r)`.
    pub open spec fn owned(self, q: int, r: int, e: int) -> bool
        recommends
            in_grid(q, r),
            0 <= e < 3,
    {
        self.cells[q + 3][r + 3].edge[e].rail_connection
    }

    /// The state of edge `d` of cell `(q, r)`, with directions 3..5 read
    /// from the owning neighbor and off-grid neighbors read as
    /// disconnected.
    pub open spec fn edge_at(self, q: int, r: int, d: int) -> bool
        recommends
            in_grid(q, r),
            0 <= d < 6,
    {
        if d < 3 {
            self.owned(q, r, d)
        } else {
            let v = axial_direction_spec(d);
            in_grid(q + v.0, r + v.1) && self.owned(q + v.0, r + v.1, d - 3)
        }
    }

    /// Creates the grid with every edge disconnected.
    pub fn new() -> (g: Grid)
        ensures
            forall|q: int, r: int, e: int|
                in_grid(q, r) && 0 <= e < 3 ==> !(#[trigger] g.owned(q, r, e)),
    {
        let edge = Edge { rail_connection: false };
        let cell = Cell { edge: [edge, edge, edge] };
        let row: [Cell; 7] = [cell, cell, cell, cell, cell, cell, cell];
        let g = Grid { cells: [row, row, row, row, row, row, row] };
        g
    }

    /// Returns the cell at in-grid axial `(q, r)`.
    pub fn cell(&self, c: (i64, i64)) -> (cl: Cell)
        requires
            in_grid(c.0 as int, c.1 as int),
        ensures
            forall|e: int|
                0 <= e < 3 ==> (#[trigger] cl.edge[e].rail_connection) == self.owned(
                    c.0 as int,
                    c.1 as int,
                    e,
                ),
    {
        let qi = (c.0 + 3) as usize;
        let ri = (c.1 + 3) as usize;
        self.cells[qi][ri]
    }

    /// Returns the cell at `(q, r)`, or `None` when `(q, r)` is off the
    /// grid.
    pub fn maybe_cell(&self, c: (i64, i64)) -> (res: Option<Cell>)
        ensures
            res.is_some() == in_grid(c.0 as int, c.1 as int),
            res.is_some() ==> forall|e: int|
                0 <= e < 3 ==> (#[trigger] res.unwrap().edge[e].rail_connection) == self.owned(
                    c.0 as int,
                    c.1 as int,
                    e,
                ),
    {
        if is_in_grid(c.0, c.1) {
            Some(self.cell(c))
        } else {
            None
        }
    }

    /// Returns all six edges of in-grid cell `(q, r)` in direction order:
    /// the three owned edges, then the three read from the neighbors in
    /// directions 3..5 (disconnected when that neighbor is off-grid).
    pub fn edges(&self, c: (i64, i64)) -> (es: [Edge; 6])
        requires
            in_grid(c.0 as int, c.1 as int),
        ensures
            forall|d: int|
                0 <= d < 6 ==> (#[trigger] es[d].rail_connection) == self.edge_at(
                    c.0 as int,
                    c.1 as int,
                    d,
                ),
    {
        let own = self.cell(c);
        let absent = Edge { rail_connection: false };
        let e3 = match self.maybe_cell(plus(c, axial_direction(3))) {
            Some(n) => n.edge[0],
            None => absent,
        };
        let e4 = match self.maybe_cell(plus(c, axial_direction(4))) {
            Some(n) => n.edge[1],
            None => absent,
        };
        let e5 = match self.maybe_cell(plus(c, axial_direction(5))) {
            Some(n) => n.edge[2],
            None => absent,
        };
        [own.edge[0], own.edge[1], own.edge[2], e3, e4, e5]
    }

    /// Resolves `(cell, direction)` to the canonical storage slot, or
    /// `None` when the owning cell lies off the grid.
    pub fn resolve_edge(c: (i64, i64), d: usize) -> (res: Option<(i64, i64, usize)>)
        requires
            d < 6,
            -1000000 <= c.0 <= 1000000,
            -1000000 <= c.1 <= 1000000,
        ensures
            res.is_some() == resolve_spec(c.0 as int, c.1 as int, d as int).is_some(),
            res.is_some() ==> {
                let (cq, cr, ce) = res.unwrap();
                Some((cq as int, cr as int, ce as int)) == resolve_spec(
                    c.0 as int,
                    c.1 as int,
                    d as int,
                )
            },
    {
        if d < 3 {
            if is_in_grid(c.0, c.1) {
                Some((c.0, c.1, d))
            } else {
                None
            }
        } else {
            let n = plus(c, axial_direction(d));
            if is_in_grid(n.0, n.1) {
                Some((n.0, n.1, d - 3))
            } else {
                None
            }
        }
    }

    /// Flips the resolved canonical edge; a no-op returning `false` when
    /// the edge resolves off the grid.
    pub fn toggle(&mut self, c: (i64, i64), d: usize) -> (changed: bool)
        requires
            d < 6,
            -1000000 <= c.0 <= 1000000,
            -1000000 <= c.1 <= 1000000,
        ensures
            toggles_to(*old(self), *final(self), c.0 as int, c.1 as int, d as int),
            changed == resolve_spec(c.0 as int, c.1 as int, d as int).is_some(),
    {
        match Grid::resolve_edge(c, d) {
            None => false,
            Some((cq, cr, ce)) => {
                let qi = (cq + 3) as usize;
                let ri = (cr + 3) as usize;
                let mut row = self.cells[qi];
                let mut cell = row[ri];
                let cur = cell.edge[ce].rail_connection;
                cell.edge[ce] = Edge { rail_connection: !cur };
                row[ri] = cell;
                self.cells[qi] = row;
                true
            },
        }
    }
}

/// How one `toggle` call relates the grid before (`pre`) to the grid
/// after (`post`): the resolved canonical edge is flipped and every other
/// owned edge keeps its state; with no resolved edge the grid is
/// untouched.
pub open spec fn toggles_to(pre: Grid, post: Grid, q: int, r: int, d: int) -> bool {
    match resolve_spec(q, r, d) {
        Some(loc) => forall|q2: int, r2: int, e2: int|
            in_grid(q2, r2) && 0 <= e2 < 3 ==> (#[trigger] post.owned(q2, r2, e2)) == if (
                q2,
                r2,
                e2,
            ) == loc {
                !pre.owned(q2, r2, e2)
            } else {
                pre.owned(q2, r2, e2)
            },
        None => post == pre,
    }
}

/// Shared-edge consistency: for directions 3..5, the edge a cell reads
/// from its neighbor is the very edge the neighbor owns as `d - 3`.
pub proof fn lemma_shared_edge(g: Grid, q: int, r: int, d: int)
    requires
        in_grid(q, r),
        3 <= d < 6,
        in_grid(q + axial_direction_spec(d).0, r + axial_direction_spec(d).1),
    ensures
        g.edge_at(q, r, d) == g.edge_at(
            q + axial_direction_spec(d).0,
            r + axial_direction_spec(d).1,
            d - 3,
        ),
{
}

/// At the boundary, an edge whose owning neighbor lies off the grid reads
/// as disconnected.
pub proof fn lemma_boundary_edge(g: Grid, q: int, r: int, d: int)
    requires
        in_grid(q, r),
        3 <= d < 6,
        !in_grid(q + axial_direction_spec(d).0, r + axial_direction_spec(d).1),
    ensures
        !g.edge_at(q, r, d),
{
}

/// Two grids with identical owned edges show identical connectivity in
/// every direction of every in-grid cell.
pub proof fn lemma_same_owned_same_edges(a: Grid, b: Grid)
    requires
        forall|q: int, r: int, e: int|
            in_grid(q, r) && 0 <= e < 3 ==> (#[trigger] a.owned(q, r, e)) == b.owned(q, r, e),
    ensures
        forall|q: int, r: int, d: int|
            in_grid(q, r) && 0 <= d < 6 ==> (#[trigger] a.edge_at(q, r, d)) == b.edge_at(q, r, d),
{
    assert forall|q: int, r: int, d: int|
        in_grid(q, r) && 0 <= d < 6 implies (#[trigger] a.edge_at(q, r, d)) == b.edge_at(
        q,
        r,
        d,
    ) by {
        if d >= 3 {
            let v = axial_direction_spec(d);
            if in_grid(q + v.0, r + v.1) {
                assert(a.owned(q + v.0, r + v.1, d - 3) == b.owned(q + v.0, r + v.1, d - 3));
            }
        } else {
            assert(a.owned(q, r, d) == b.owned(q, r, d));
        }
    }
}

/// Double-toggle involution: toggling the same `(cell, direction)` twice
/// restores every owned edge, and with it the whole connectivity.
pub proof fn lemma_toggle_involution(g0: Grid, g1: Grid, g2: Grid, q: int, r: int, d: int)
    requires
        0 <= d < 6,
        toggles_to(g0, g1, q, r, d),
        toggles_to(g1, g2, q, r, d),
    ensures
        forall|q2: int, r2: int, e2: int|
            in_grid(q2, r2) && 0 <= e2 < 3 ==> (#[trigger] g2.owned(q2, r2, e2)) == g0.owned(
                q2,
                r2,
                e2,
            ),
        forall|q2: int, r2: int, d2: int|
            in_grid(q2, r2) && 0 <= d2 < 6 ==> (#[trigger] g2.edge_at(q2, r2, d2)) == g0.edge_at(
                q2,
                r2,
                d2,
            ),
{
    match resolve_spec(q, r, d) {
        Some(loc) => {
            assert forall|q2: int, r2: int, e2: int|
                in_grid(q2, r2) && 0 <= e2 < 3 implies (#[trigger] g2.owned(q2, r2, e2))
                == g0.owned(q2, r2, e2) by {
                assert(g1.owned(q2, r2, e2) == if (q2, r2, e2) == loc {
                    !g0.owned(q2, r2, e2)
                } else {
                    g0.owned(q2, r2, e2)
                });
            }
        },
        None => {
            assert(g1 == g0);
            assert(g2 == g1);
        },
    }
    lemma_same_owned_same_edges(g2, g0);
}

} // verus!
