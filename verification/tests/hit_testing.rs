use hexrail::fixed::SCALE;
use hexrail::hit::{edge_from_coord, planar_direction, proximities};

fn fx(v: f32) -> i64 {
    (v * 65536.0).round() as i64
}

#[test]
fn exact_center_hits_no_edge() {
    assert_eq!(edge_from_coord((0, 0)), None);
}

#[test]
fn positions_close_to_a_center_hit_no_edge() {
    // All proximities stay below 0.6 of the 26-pixel edge distance.
    assert_eq!(edge_from_coord((fx(3.0), fx(2.0))), None);
    assert_eq!(edge_from_coord((fx(-5.0), fx(4.0))), None);
    let c = hexrail::hex::cell_center(1, 1);
    assert_eq!(
        edge_from_coord((c.0 * SCALE + fx(2.0), c.1 * SCALE - fx(3.0))),
        None
    );
}

#[test]
fn a_point_along_each_direction_vector_maximizes_that_proximity() {
    for d in 0..6usize {
        let v = planar_direction(d);
        // 26 pixels out along direction d, the edge midpoint.
        let rel = (26 * v.0, 26 * v.1);
        let pr = proximities(rel);
        for j in 0..6usize {
            assert!(pr[j] <= pr[d]);
        }
        // And the maximum clears the 0.6 threshold.
        assert!(5 * pr[d] > 3 * SCALE);
    }
}

#[test]
fn points_near_an_edge_hit_that_edge() {
    assert_eq!(edge_from_coord((0, fx(-20.0))), Some((0, 0, 1)));
    assert_eq!(edge_from_coord((fx(17.32), fx(-10.0))), Some((0, 0, 2)));
    assert_eq!(edge_from_coord((0, fx(32.0))), Some((0, 1, 1)));
    assert_eq!(edge_from_coord((fx(90.0), fx(32.0))), Some((2, 0, 1)));
}

#[test]
fn exact_ties_pick_the_lowest_direction_index() {
    // (26, 0) sits exactly between directions 2 and 3: their proximities
    // are equal, and the scan keeps the first maximum.
    assert_eq!(edge_from_coord((fx(26.0), 0)), Some((0, 0, 2)));
}
