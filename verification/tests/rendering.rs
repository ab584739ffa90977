use hexrail::fixed::SCALE;
use hexrail::grid::Edge;
use hexrail::render::{bend, connections, render_cell, stub, straight, Conn};
use hexrail::state::{AppState, Msg};

fn edges_of(bits: [bool; 6]) -> [Edge; 6] {
    [
        Edge { rail_connection: bits[0] },
        Edge { rail_connection: bits[1] },
        Edge { rail_connection: bits[2] },
        Edge { rail_connection: bits[3] },
        Edge { rail_connection: bits[4] },
        Edge { rail_connection: bits[5] },
    ]
}

fn conn_of(real: [bool; 6], preview: Option<usize>) -> [Conn; 6] {
    connections(&edges_of(real), preview)
}

#[test]
fn connections_carry_edges_and_preview() {
    let cn = conn_of([true, false, false, false, true, false], Some(2));
    for d in 0..6usize {
        assert_eq!(cn[d].real, d == 0 || d == 4);
        assert_eq!(cn[d].preview, d == 2);
    }
}

#[test]
fn a_lone_connection_renders_a_dot() {
    let cn = conn_of([false, true, false, false, false, false], None);
    let scene = render_cell(&cn);
    assert_eq!(scene.dots, vec![(1, false)]);
    assert!(scene.straights.is_empty());
    assert!(scene.bends.is_empty());
}

#[test]
fn opposite_connections_render_a_straight_and_no_dot() {
    let cn = conn_of([false, true, false, false, true, false], None);
    let scene = render_cell(&cn);
    assert!(scene.dots.is_empty());
    assert_eq!(scene.straights, vec![(1, false)]);
    assert!(scene.bends.is_empty());
}

#[test]
fn adjacent_but_one_connections_render_a_bend() {
    let cn = conn_of([false, true, false, true, false, false], None);
    let scene = render_cell(&cn);
    assert!(scene.dots.is_empty());
    assert!(scene.straights.is_empty());
    assert_eq!(scene.bends, vec![(2, false)]);
}

#[test]
fn preview_only_shapes_are_ghosts() {
    let cn = conn_of([false; 6], Some(2));
    let scene = render_cell(&cn);
    assert_eq!(scene.dots, vec![(2, true)]);

    // A straight whose far edge is only previewed renders as a ghost.
    let cn = conn_of([false, true, false, false, false, false], Some(4));
    let scene = render_cell(&cn);
    assert!(scene.dots.is_empty());
    assert_eq!(scene.straights, vec![(1, true)]);
}

#[test]
fn dot_and_straight_never_share_a_direction() {
    // Exhaust all committed connectivities: wherever a dot fires at d,
    // no straight spans d.
    for mask in 0..64u32 {
        let mut bits = [false; 6];
        for d in 0..6usize {
            bits[d] = mask & (1 << d) != 0;
        }
        let scene = render_cell(&conn_of(bits, None));
        for &(d, _) in scene.dots.iter() {
            for &(s, _) in scene.straights.iter() {
                assert!(d != s && d != s + 3);
            }
        }
    }
}

#[test]
fn toggled_neighbors_render_a_bend_not_a_dot() {
    // Edge 1 of (0, 1) is edge 4 of (0, 0); with edge 2 of (0, 0) set as
    // well, cell (0, 0) joins them with a bend and shows no dot at 2.
    let mut st = AppState::new();
    assert!(st.grid.toggle((0, 1), 1));
    assert!(st.grid.toggle((0, 0), 2));
    let scene = st.cell_scene((0, 0));
    assert!(scene.dots.is_empty());
    assert!(scene.straights.is_empty());
    assert_eq!(scene.bends, vec![(3, false)]);
}

#[test]
fn hovering_an_edge_previews_it_on_both_cells() {
    let mut st = AppState::new();
    // Hover just below the top edge of (0, 1): direction 1 of that cell.
    assert!(st.update(Msg::MouseMove(0, 32 * SCALE)));
    assert_eq!(st.highlight, Some((0, 1, 1)));
    // The hovered cell previews direction 1...
    let scene = st.cell_scene((0, 1));
    assert_eq!(scene.dots, vec![(1, true)]);
    // ...and the neighbor across that edge previews the mirrored
    // direction 4.
    let scene = st.cell_scene((0, 0));
    assert_eq!(scene.dots, vec![(4, true)]);
}

#[test]
fn stub_geometry_is_exact() {
    let lp = stub(1, false);
    assert!(!lp.ghosted);
    assert_eq!(
        (lp.left.x1, lp.left.y1, lp.left.x2, lp.left.y2),
        (-10 * SCALE, -26 * SCALE, -10 * SCALE, -16 * SCALE)
    );
    assert_eq!(
        (lp.right.x1, lp.right.y1, lp.right.x2, lp.right.y2),
        (10 * SCALE, -26 * SCALE, 10 * SCALE, -16 * SCALE)
    );
}

#[test]
fn straight_geometry_spans_the_hex() {
    let lp = straight(1, true);
    assert!(lp.ghosted);
    assert_eq!(
        (lp.left.x1, lp.left.y1, lp.left.x2, lp.left.y2),
        (-10 * SCALE, -26 * SCALE, -10 * SCALE, 26 * SCALE)
    );
    assert_eq!(
        (lp.right.x1, lp.right.y1, lp.right.x2, lp.right.y2),
        (10 * SCALE, -26 * SCALE, 10 * SCALE, 26 * SCALE)
    );
}

#[test]
fn bend_geometry_is_exact() {
    let ba = bend(3, false);
    assert!(!ba.ghosted);
    assert_eq!(
        (ba.outer.x1, ba.outer.y1, ba.outer.x2, ba.outer.y2),
        (1147976, -1419528, -655360, 1703936)
    );
    assert_eq!(ba.outer.radius, 55 * SCALE);
    assert_eq!(
        (ba.inner.x1, ba.inner.y1, ba.inner.x2, ba.inner.y2),
        (1803336, -284408, 655360, 1703936)
    );
    assert_eq!(ba.inner.radius, 35 * SCALE);
}
