//! The editor's state and its event reducer.
//!
//! The whole editor is a grid plus a transient hover target. Pointer
//! events, with positions already translated to fixed-point canvas
//! coordinates, drive a reducer: a move recomputes the hover target, a
//! leave clears it, a click toggles the resolved edge. A pure view
//! derives the scene of every cell of the playable diamond region from
//! the state.

use vstd::prelude::*;
use crate::grid::{Grid, in_grid, resolve_spec, toggles_to};
use crate::hex::{axial_direction, axial_direction_spec, PIX_BOUND};
use crate::hit::{edge_from_coord, edge_hit_spec, hit_as_ints};
use crate::render::{
    bends_spec, connections, dots_spec, render_cell, straights_spec, CellScene, Conn,
};

verus! {

/// A pointer event; positions are fixed-point pixel coordinates relative
/// to the canvas center.
pub enum Msg {
    MouseMove(i64, i64),
    MouseLeave,
    MouseClick(i64, i64),
}

/// The whole editor state: the grid and the transient hover target
/// `(q, r, direction)`.
pub struct AppState {
    pub grid: Grid,
    pub highlight: Option<(i64, i64, usize)>,
}

/// The previewed direction the hover target contributes to cell
/// `(q, r)`: the hovered direction on the hovered cell itself, and the
/// mirrored direction on the neighbor across the hovered edge.
pub open spec fn preview_spec(hl: Option<(i64, i64, usize)>, q: int, r: int) -> Option<int> {
    match hl {
        None => None,
        Some(h) => {
            let v = axial_direction_spec(h.2 as int);
            if q == h.0 && r == h.1 {
                Some(h.2 as int)
            } else if q == h.0 + v.0 && r == h.1 + v.1 {
                Some(((h.2 as int) + 3) % 6)
            } else {
                None
            }
        },
    }
}

/// The six connection masks of cell `(q, r)`: committed state from the
/// grid, the previewed direction from the hover target.
pub open spec fn cell_conn_spec(
    g: Grid,
    hl: Option<(i64, i64, usize)>,
    q: int,
    r: int,
) -> Seq<Conn> {
    Seq::new(
        6,
        |d: int|
            Conn { real: g.edge_at(q, r, d), preview: preview_spec(hl, q, r) == Some(d) },
    )
}

/// Computes the previewed direction of cell `c` under hover target `hl`.
pub fn preview_for_cell(hl: &Option<(i64, i64, usize)>, c: (i64, i64)) -> (p: Option<usize>)
    requires
        match hl {
            Some(h) => h.2 < 6 && -1724 <= h.0 <= 1724 && -1724 <= h.1 <= 1724,
            None => true,
        },
    ensures
        (match p {
            Some(d) => Some(d as int),
            None => None::<int>,
        }) == preview_spec(*hl, c.0 as int, c.1 as int),
        p.is_some() ==> p.unwrap() < 6,
{
    match hl {
        None => None,
        Some(h) => {
            if c.0 == h.0 && c.1 == h.1 {
                Some(h.2)
            } else {
                let v = axial_direction(h.2);
                if c.0 == h.0 + v.0 && c.1 == h.1 + v.1 {
                    Some((h.2 + 3) % 6)
                } else {
                    None
                }
            }
        },
    }
}

/// First row index of the diamond region in column `q`.
pub open spec fn row_lo(q: int) -> int {
    if q < 0 {
        -3 - q
    } else {
        -3
    }
}

/// Last row index of the diamond region in column `q`.
pub open spec fn row_hi(q: int) -> int {
    if q > 0 {
        3 - q
    } else {
        3
    }
}

/// The cells of diamond column `q` from row `r` downward.
pub open spec fn row_seq(q: int, r: int) -> Seq<(i64, i64)>
    decreases row_hi(q) + 1 - r,
{
    if r < -3 || r > row_hi(q) {
        Seq::empty()
    } else {
        seq![(q as i64, r as i64)] + row_seq(q, r + 1)
    }
}

/// The cells of the diamond region from column `q` rightward, column by
/// column, each column top to bottom.
pub open spec fn diamond_seq(q: int) -> Seq<(i64, i64)>
    decreases 4 - q,
{
    if q < -3 || q > 3 {
        Seq::empty()
    } else {
        row_seq(q, row_lo(q)) + diamond_seq(q + 1)
    }
}

proof fn lemma_row_in_grid(q: int, r: int)
    requires
        -3 <= q <= 3,
    ensures
        forall|i: int|
            0 <= i < row_seq(q, r).len() ==> in_grid(
                (#[trigger] row_seq(q, r)[i]).0 as int,
                row_seq(q, r)[i].1 as int,
            ),
    decreases row_hi(q) + 1 - r,
{
    if r < -3 || r > row_hi(q) {
    } else {
        lemma_row_in_grid(q, r + 1);
        assert forall|i: int| 0 <= i < row_seq(q, r).len() implies in_grid(
            (#[trigger] row_seq(q, r)[i]).0 as int,
            row_seq(q, r)[i].1 as int,
        ) by {
            if i > 0 {
                assert(row_seq(q, r)[i] == row_seq(q, r + 1)[i - 1]);
            }
        }
    }
}

/// Every cell the diamond enumeration lists lies inside the backing
/// grid.
pub proof fn lemma_diamond_in_grid(q: int)
    ensures
        forall|i: int|
            0 <= i < diamond_seq(q).len() ==> in_grid(
                (#[trigger] diamond_seq(q)[i]).0 as int,
                diamond_seq(q)[i].1 as int,
            ),
    decreases 4 - q,
{
    if q < -3 || q > 3 {
    } else {
        lemma_diamond_in_grid(q + 1);
        lemma_row_in_grid(q, row_lo(q));
        let row = row_seq(q, row_lo(q));
        assert forall|i: int| 0 <= i < diamond_seq(q).len() implies in_grid(
            (#[trigger] diamond_seq(q)[i]).0 as int,
            diamond_seq(q)[i].1 as int,
        ) by {
            if i < row.len() {
                assert(diamond_seq(q)[i] == row[i]);
            } else {
                assert(diamond_seq(q)[i] == diamond_seq(q + 1)[i - row.len()]);
            }
        }
    }
}

/// Enumerates the playable diamond region: `q, r` in `[-3, 3]` with
/// `q + r` in `[-3, 3]`, column by column, each column top to bottom.
pub fn diamond_coords() -> (coords: Vec<(i64, i64)>)
    ensures
        coords@ == diamond_seq(-3),
{
    let mut coords: Vec<(i64, i64)> = Vec::new();
    let mut q: i64 = -3;
    while q <= 3
        invariant
            -3 <= q <= 4,
            diamond_seq(-3) == coords@ + diamond_seq(q as int),
        decreases 4 - q,
    {
        let lo: i64 = if q < 0 {
            -3 - q
        } else {
            -3
        };
        let hi: i64 = if q > 0 {
            3 - q
        } else {
            3
        };
        let mut r: i64 = lo;
        while r <= hi
            invariant
                -3 <= q <= 3,
                lo == row_lo(q as int),
                hi == row_hi(q as int),
                lo <= r <= hi + 1,
                diamond_seq(-3) == coords@ + row_seq(q as int, r as int) + diamond_seq(
                    q as int + 1,
                ),
            decreases hi + 1 - r,
        {
            coords.push((q, r));
            proof {
                assert(row_seq(q as int, r as int) == seq![(q, r)] + row_seq(
                    q as int,
                    r as int + 1,
                ));
            }
            r = r + 1;
        }
        proof {
            assert(row_seq(q as int, r as int) =~= Seq::<(i64, i64)>::empty());
            assert(coords@ + row_seq(q as int, r as int) =~= coords@);
        }
        q = q + 1;
    }
    proof {
        assert(diamond_seq(q as int) =~= Seq::<(i64, i64)>::empty());
        assert(coords@ + diamond_seq(q as int) =~= coords@);
    }
    coords
}

impl AppState {
    /// The hover target, when present, names a direction below 6 and a
    /// cell near the canvas.
    pub open spec fn wf(self) -> bool {
        match self.highlight {
            Some(h) => h.2 < 6 && -1724 <= h.0 <= 1724 && -1724 <= h.1 <= 1724,
            None => true,
        }
    }

    /// Fresh editor state: every edge disconnected and no hover target.
    pub fn new() -> (st: AppState)
        ensures
            st.wf(),
            st.highlight.is_none(),
            forall|q: int, r: int, e: int|
                in_grid(q, r) && 0 <= e < 3 ==> !(#[trigger] st.grid.owned(q, r, e)),
    {
        AppState { grid: Grid::new(), highlight: None }
    }

    /// Applies one pointer event: a move recomputes the hover target, a
    /// leave clears it, and a click toggles the edge it resolves to.
    /// Returns whether the scene needs redrawing — always, except for a
    /// click that toggles nothing.
    pub fn update(&mut self, msg: Msg) -> (redraw: bool)
        requires
            old(self).wf(),
            match msg {
                Msg::MouseMove(x, y) => -PIX_BOUND <= x <= PIX_BOUND && -PIX_BOUND <= y
                    <= PIX_BOUND,
                Msg::MouseLeave => true,
                Msg::MouseClick(x, y) => -PIX_BOUND <= x <= PIX_BOUND && -PIX_BOUND <= y
                    <= PIX_BOUND,
            },
        ensures
            final(self).wf(),
            match msg {
                Msg::MouseMove(x, y) => {
                    &&& final(self).grid == old(self).grid
                    &&& hit_as_ints(final(self).highlight) == edge_hit_spec(x as int, y as int)
                    &&& redraw
                },
                Msg::MouseLeave => {
                    &&& final(self).grid == old(self).grid
                    &&& final(self).highlight.is_none()
                    &&& redraw
                },
                Msg::MouseClick(x, y) => {
                    &&& final(self).highlight == old(self).highlight
                    &&& match edge_hit_spec(x as int, y as int) {
                        Some(hit) => {
                            &&& toggles_to(old(self).grid, final(self).grid, hit.0, hit.1, hit.2)
                            &&& redraw == resolve_spec(hit.0, hit.1, hit.2).is_some()
                        },
                        None => final(self).grid == old(self).grid && !redraw,
                    }
                },
            },
    {
        match msg {
            Msg::MouseMove(x, y) => {
                self.highlight = edge_from_coord((x, y));
                true
            },
            Msg::MouseLeave => {
                self.highlight = None;
                true
            },
            Msg::MouseClick(x, y) => {
                match edge_from_coord((x, y)) {
                    Some(hit) => self.grid.toggle((hit.0, hit.1), hit.2),
                    None => false,
                }
            },
        }
    }

    /// The scene one in-grid cell draws under the current state.
    pub fn cell_scene(&self, c: (i64, i64)) -> (scene: CellScene)
        requires
            self.wf(),
            in_grid(c.0 as int, c.1 as int),
        ensures
            scene.dots@ == dots_spec(
                cell_conn_spec(self.grid, self.highlight, c.0 as int, c.1 as int),
                0,
            ),
            scene.straights@ == straights_spec(
                cell_conn_spec(self.grid, self.highlight, c.0 as int, c.1 as int),
                0,
            ),
            scene.bends@ == bends_spec(
                cell_conn_spec(self.grid, self.highlight, c.0 as int, c.1 as int),
                0,
            ),
    {
        let edges = self.grid.edges(c);
        let preview = preview_for_cell(&self.highlight, c);
        let cn = connections(&edges, preview);
        proof {
            let want = cell_conn_spec(self.grid, self.highlight, c.0 as int, c.1 as int);
            assert forall|d: int| 0 <= d < 6 implies cn@[d] == want[d] by {
                assert(cn[d].real == edges[d].rail_connection);
                assert(edges[d].rail_connection == self.grid.edge_at(c.0 as int, c.1 as int, d));
            }
            assert(cn@ =~= want);
        }
        render_cell(&cn)
    }

    /// The whole scene: one entry per cell of the diamond region, in
    /// enumeration order, each with the shapes that cell draws.
    pub fn view_scene(&self) -> (scene: Vec<((i64, i64), CellScene)>)
        requires
            self.wf(),
        ensures
            scene@.len() == diamond_seq(-3).len(),
            forall|i: int|
                0 <= i < scene@.len() ==> {
                    &&& (#[trigger] scene@[i]).0 == diamond_seq(-3)[i]
                    &&& scene@[i].1.dots@ == dots_spec(
                        cell_conn_spec(
                            self.grid,
                            self.highlight,
                            diamond_seq(-3)[i].0 as int,
                            diamond_seq(-3)[i].1 as int,
                        ),
                        0,
                    )
                    &&& scene@[i].1.straights@ == straights_spec(
                        cell_conn_spec(
                            self.grid,
                            self.highlight,
                            diamond_seq(-3)[i].0 as int,
                            diamond_seq(-3)[i].1 as int,
                        ),
                        0,
                    )
                    &&& scene@[i].1.bends@ == bends_spec(
                        cell_conn_spec(
                            self.grid,
                            self.highlight,
                            diamond_seq(-3)[i].0 as int,
                            diamond_seq(-3)[i].1 as int,
                        ),
                        0,
                    )
                },
    {
        proof {
            lemma_diamond_in_grid(-3);
        }
        let coords = diamond_coords();
        let mut scene: Vec<((i64, i64), CellScene)> = Vec::new();
        let mut i: usize = 0;
        while i < coords.len()
            invariant
                self.wf(),
                coords@ == diamond_seq(-3),
                i <= coords@.len(),
                scene@.len() == i,
                forall|j: int|
                    0 <= j < diamond_seq(-3).len() ==> in_grid(
                        (#[trigger] diamond_seq(-3)[j]).0 as int,
                        diamond_seq(-3)[j].1 as int,
                    ),
                forall|j: int|
                    0 <= j < i ==> {
                        &&& (#[trigger] scene@[j]).0 == diamond_seq(-3)[j]
                        &&& scene@[j].1.dots@ == dots_spec(
                            cell_conn_spec(
                                self.grid,
                                self.highlight,
                                diamond_seq(-3)[j].0 as int,
                                diamond_seq(-3)[j].1 as int,
                            ),
                            0,
                        )
                        &&& scene@[j].1.straights@ == straights_spec(
                            cell_conn_spec(
                                self.grid,
                                self.highlight,
                                diamond_seq(-3)[j].0 as int,
                                diamond_seq(-3)[j].1 as int,
                            ),
                            0,
                        )
                        &&& scene@[j].1.bends@ == bends_spec(
                            cell_conn_spec(
                                self.grid,
                                self.highlight,
                                diamond_seq(-3)[j].0 as int,
                                diamond_seq(-3)[j].1 as int,
                            ),
                            0,
                        )
                    },
            decreases coords@.len() - i,
        {
            let c = coords[i];
            let cs = self.cell_scene(c);
            scene.push((c, cs));
            i = i + 1;
        }
        scene
    }
}

} // verus!
