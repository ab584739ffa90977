use hexrail::grid::Grid;
use hexrail::hex::axial_direction;

fn all_edges(g: &Grid) -> Vec<bool> {
    let mut out = Vec::new();
    for q in -3..=3i64 {
        for r in -3..=3i64 {
            let es = g.edges((q, r));
            for e in es.iter() {
                out.push(e.rail_connection);
            }
        }
    }
    out
}

#[test]
fn new_grid_has_no_connections() {
    let g = Grid::new();
    for b in all_edges(&g) {
        assert!(!b);
    }
}

#[test]
fn toggle_sets_an_owned_edge() {
    let mut g = Grid::new();
    assert!(g.toggle((0, 0), 1));
    let es = g.edges((0, 0));
    assert!(es[1].rail_connection);
    assert!(!es[0].rail_connection);
    assert!(!es[2].rail_connection);
}

#[test]
fn toggle_through_a_high_direction_writes_the_neighbor() {
    let mut g = Grid::new();
    // Direction 4 of (0, 0) is the same edge as direction 1 of (0, 1).
    assert!(g.toggle((0, 0), 4));
    assert!(g.edges((0, 0))[4].rail_connection);
    assert!(g.edges((0, 1))[1].rail_connection);
}

#[test]
fn shared_edges_read_the_same_from_both_sides() {
    let mut g = Grid::new();
    assert!(g.toggle((0, 0), 1));
    assert!(g.toggle((1, -1), 2));
    assert!(g.toggle((-2, 0), 0));
    for q in -3..=3i64 {
        for r in -3..=3i64 {
            let es = g.edges((q, r));
            for d in 3..6usize {
                let v = axial_direction(d);
                let nq = q + v.0;
                let nr = r + v.1;
                if -3 <= nq && nq <= 3 && -3 <= nr && nr <= 3 {
                    let ns = g.edges((nq, nr));
                    assert_eq!(es[d].rail_connection, ns[d - 3].rail_connection);
                } else {
                    assert!(!es[d].rail_connection);
                }
            }
        }
    }
}

#[test]
fn double_toggle_restores_the_grid() {
    let mut g = Grid::new();
    assert!(g.toggle((1, 1), 0));
    assert!(g.toggle((-2, 2), 5));
    let before = all_edges(&g);
    assert!(g.toggle((0, -1), 4));
    assert!(g.toggle((0, -1), 4));
    assert_eq!(all_edges(&g), before);
    assert!(g.toggle((2, 0), 2));
    assert!(g.toggle((2, 0), 2));
    assert_eq!(all_edges(&g), before);
}

#[test]
fn off_grid_mutation_is_rejected() {
    let mut g = Grid::new();
    let before = all_edges(&g);
    // The neighbor of (3, 0) in direction 3 is (4, 0), outside the grid.
    assert!(!g.toggle((3, 0), 3));
    // (5, 5) itself is outside the grid.
    assert!(!g.toggle((5, 5), 0));
    assert_eq!(all_edges(&g), before);
    assert!(!g.edges((3, 0))[3].rail_connection);
}

#[test]
fn resolve_edge_finds_the_canonical_slot() {
    assert_eq!(Grid::resolve_edge((0, 0), 2), Some((0, 0, 2)));
    assert_eq!(Grid::resolve_edge((0, 0), 5), Some((-1, 1, 2)));
    assert_eq!(Grid::resolve_edge((0, 0), 3), Some((1, 0, 0)));
    assert_eq!(Grid::resolve_edge((3, 0), 3), None);
    assert_eq!(Grid::resolve_edge((4, 0), 0), None);
}
