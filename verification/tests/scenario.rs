use hexrail::state::{AppState, Msg};

fn fx(v: f32) -> i64 {
    (v * 65536.0).round() as i64
}

fn click(st: &mut AppState, x: f32, y: f32) {
    assert!(st.update(Msg::MouseClick(fx(x), fx(y))));
}

#[test]
fn a_clicked_track_renders_continuously() {
    let mut st = AppState::new();

    // Build the fixture track by clicking near each edge: cell centers
    // lie at (45q, 26q + 52r), and each click lands 20 pixels from the
    // center along the edge's direction vector.
    click(&mut st, 0.0, 32.0); // (0, 1) edge 1
    click(&mut st, 17.32, -10.0); // (0, 0) edge 2
    click(&mut st, 72.68, -10.0); // (2, -1) edge 0
    click(&mut st, 90.0, 32.0); // (2, 0) edge 1
    click(&mut st, 27.68, 68.0); // (1, 1) edge 0
    click(&mut st, 62.32, 68.0); // (1, 1) edge 2
    click(&mut st, 0.0, -20.0); // (0, 0) edge 1
    click(&mut st, 0.0, 84.0); // (0, 2) edge 1
    click(&mut st, 17.32, 94.0); // (0, 2) edge 2

    let scene = st.view_scene();
    assert_eq!(scene.len(), 37);

    for ((q, r), cs) in scene {
        let dots: Vec<(usize, bool)> = cs.dots;
        let straights: Vec<(usize, bool)> = cs.straights;
        let bends: Vec<(usize, bool)> = cs.bends;
        match (q, r) {
            // The one dangling edge below the junction dead-ends in
            // (0, -1).
            (0, -1) => {
                assert_eq!(dots, vec![(4, false)]);
                assert!(straights.is_empty());
                assert!(bends.is_empty());
            }
            // Interior joints: continuous track, no dots.
            (0, 0) => {
                assert!(dots.is_empty());
                assert_eq!(straights, vec![(1, false)]);
                assert_eq!(bends, vec![(3, false)]);
            }
            (0, 1) => {
                assert!(dots.is_empty());
                assert_eq!(straights, vec![(1, false)]);
                assert_eq!(bends, vec![(2, false)]);
            }
            (1, 1) => {
                assert!(dots.is_empty());
                assert_eq!(straights, vec![(2, false)]);
                assert_eq!(bends, vec![(1, false)]);
            }
            (1, -1) => {
                assert!(dots.is_empty());
                assert!(straights.is_empty());
                assert_eq!(bends, vec![(4, false)]);
            }
            (2, -1) => {
                assert!(dots.is_empty());
                assert!(straights.is_empty());
                assert_eq!(bends, vec![(5, false)]);
            }
            (2, 0) => {
                assert!(dots.is_empty());
                assert!(straights.is_empty());
                assert_eq!(bends, vec![(0, false)]);
            }
            // The two adjacent connections entering (0, 2) do not join
            // (no 60-degree shape exists), so the open ends show as two
            // stubs there.
            (0, 2) => {
                assert_eq!(dots, vec![(1, false), (2, false)]);
                assert!(straights.is_empty());
                assert!(bends.is_empty());
            }
            // Every other cell stays empty.
            _ => {
                assert!(dots.is_empty());
                assert!(straights.is_empty());
                assert!(bends.is_empty());
            }
        }
    }
}

#[test]
fn a_missed_click_changes_nothing() {
    let mut st = AppState::new();
    // Too close to the center of (0, 0): no edge resolves.
    assert!(!st.update(Msg::MouseClick(fx(2.0), fx(1.0))));
    let scene = st.view_scene();
    for (_, cs) in scene {
        assert!(cs.dots.is_empty());
        assert!(cs.straights.is_empty());
        assert!(cs.bends.is_empty());
    }
}

#[test]
fn clicking_an_edge_twice_restores_the_empty_grid() {
    let mut st = AppState::new();
    click(&mut st, 0.0, -20.0);
    click(&mut st, 0.0, -20.0);
    let scene = st.view_scene();
    for (_, cs) in scene {
        assert!(cs.dots.is_empty());
        assert!(cs.straights.is_empty());
        assert!(cs.bends.is_empty());
    }
}

#[test]
fn leave_clears_the_hover_preview() {
    let mut st = AppState::new();
    assert!(st.update(Msg::MouseMove(0, fx(-20.0))));
    assert_eq!(st.highlight, Some((0, 0, 1)));
    assert!(st.update(Msg::MouseLeave));
    assert_eq!(st.highlight, None);
}

#[test]
fn a_click_off_the_grid_is_rejected() {
    let mut st = AppState::new();
    // A point near an edge of a far-away cell: the hit resolves, the
    // grid rejects the mutation.
    let c = hexrail::hex::cell_center(40, 40);
    let x = (c.0 * 65536) as f32 / 65536.0;
    let y = (c.1 * 65536) as f32 / 65536.0;
    assert!(!st.update(Msg::MouseClick(fx(x), fx(y - 20.0))));
}
