use hexrail::fixed::{abs_i64, div_trunc_i64, round_fx, SCALE};
use hexrail::hex::{
    axial_direction, axial_to_cube, cell_center, cube_round, cube_to_axial, hex_round,
    pixel_to_flat_hex, plus,
};

fn fx(v: f32) -> i64 {
    (v * 65536.0).round() as i64
}

#[test]
fn axial_directions_are_the_six_neighbor_offsets() {
    let expected: [(i64, i64); 6] = [(-1, 0), (0, -1), (1, -1), (1, 0), (0, 1), (-1, 1)];
    for d in 0..6 {
        assert_eq!(axial_direction(d), expected[d]);
    }
}

#[test]
fn plus_adds_componentwise() {
    assert_eq!(plus((2, -3), (1, 4)), (3, 1));
    assert_eq!(plus((0, 0), (-1, 1)), (-1, 1));
}

#[test]
fn cell_centers_use_the_flat_top_lattice() {
    assert_eq!(cell_center(0, 0), (0, 0));
    assert_eq!(cell_center(1, 0), (45, 26));
    assert_eq!(cell_center(0, 1), (0, 52));
    assert_eq!(cell_center(-2, 3), (-90, 104));
}

#[test]
fn cube_conversions_round_trip() {
    let c = axial_to_cube((fx(1.25), fx(-0.5)));
    assert_eq!(c.0 + c.1 + c.2, 0);
    assert_eq!(cube_to_axial(c), (fx(1.25), fx(-0.5)));
}

#[test]
fn rounding_halves_go_away_from_zero() {
    assert_eq!(round_fx(fx(0.5)), 1);
    assert_eq!(round_fx(fx(-0.5)), -1);
    assert_eq!(round_fx(fx(0.49)), 0);
    assert_eq!(round_fx(fx(-0.49)), 0);
    assert_eq!(round_fx(3 * SCALE), 3);
}

#[test]
fn truncating_division_rounds_toward_zero() {
    assert_eq!(div_trunc_i64(7, 2), 3);
    assert_eq!(div_trunc_i64(-7, 2), -3);
    assert_eq!(div_trunc_i64(90, 45), 2);
    assert_eq!(abs_i64(-9), 9);
}

#[test]
fn cube_round_corrects_the_largest_error() {
    // (0.6, -0.8, 0.2): the x error (0.4) is strictly largest, so x is
    // recomputed from the other two.
    assert_eq!(cube_round((fx(0.6), fx(-0.8), fx(0.2))), (1, -1, 0));
}

#[test]
fn hex_round_snaps_fractional_coordinates() {
    assert_eq!(hex_round((fx(0.6), fx(0.2))), (1, 0));
    assert_eq!(hex_round((fx(-1.4), fx(0.9))), (-1, 1));
    assert_eq!(hex_round((0, 0)), (0, 0));
}

#[test]
fn hex_round_is_idempotent_on_samples() {
    let samples: [(f32, f32); 8] = [
        (0.0, 0.0),
        (0.6, 0.2),
        (-1.4, 0.9),
        (2.49, -2.49),
        (-0.5, 0.5),
        (3.3, 0.1),
        (-2.7, -0.2),
        (1.51, 1.49),
    ];
    for (a, b) in samples {
        let h = hex_round((fx(a), fx(b)));
        let again = hex_round((h.0 * SCALE, h.1 * SCALE));
        assert_eq!(again, h);
    }
}

#[test]
fn every_cell_center_maps_back_to_its_cell() {
    for q in -3..=3i64 {
        for r in -3..=3i64 {
            let c = cell_center(q, r);
            assert_eq!(pixel_to_flat_hex((c.0 * SCALE, c.1 * SCALE)), (q, r));
        }
    }
}

#[test]
fn pixel_to_hex_maps_sample_points() {
    assert_eq!(pixel_to_flat_hex((fx(17.32), fx(-10.0))), (0, 0));
    assert_eq!(pixel_to_flat_hex((fx(100.3), fx(-250.7))), (2, -6));
    assert_eq!(pixel_to_flat_hex((0, 0)), (0, 0));
}
