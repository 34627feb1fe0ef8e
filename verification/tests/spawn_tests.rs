use life3d::codec::{convert_index_to_loc, LATTICE_LEN};
use life3d::lattice::Lattice;
use life3d::seed::{initialize_game, seed_cells};
use life3d::spawn::create_random_spawn_points;

#[test]
fn sampler_returns_exact_count_inside_range() {
    let pts = create_random_spawn_points(900, (0, 0, 0), 20);
    assert_eq!(pts.len(), 900);
    for &(x, y, z) in pts.iter() {
        assert!(-10 <= x && x < 10);
        assert!(-10 <= y && y < 10);
        assert!(-10 <= z && z < 10);
    }
}

#[test]
fn sampler_clamps_start_to_lattice_boundary() {
    let pts = create_random_spawn_points(50, (-1000, 0, 0), 10);
    for &(x, y, z) in pts.iter() {
        assert!(-25 <= x && x < -15);
        assert!(-5 <= y && y < 5);
        assert!(-5 <= z && z < 5);
    }
    let pts = create_random_spawn_points(50, (1000, 0, 0), 4);
    for &(x, _, _) in pts.iter() {
        assert!(25 <= x && x < 29);
    }
}

#[test]
fn sampler_can_return_zero_points() {
    assert!(create_random_spawn_points(0, (0, 0, 0), 5).is_empty());
}

#[test]
fn sampler_draws_are_not_all_identical() {
    let pts = create_random_spawn_points(900, (0, 0, 0), 20);
    assert!(pts.iter().any(|&p| p != pts[0]));
}

#[test]
fn initialization_outside_the_lattice_fails_and_changes_nothing() {
    let mut lat = Lattice::new();
    // The clamped start is 25, so every sample lies at x >= 25, outside the
    // lattice.
    assert!(initialize_game(&mut lat, 10, (1000, 0, 0), 4).is_err());
    for i in 0..LATTICE_LEN {
        assert!(!lat.is_live(i));
    }
}

#[test]
fn seeding_rejects_out_of_lattice_point_and_changes_nothing() {
    let mut lat = Lattice::new();
    let pts = vec![(0, 0, 0), (30, 0, 0)];
    assert!(seed_cells(&mut lat, &pts).is_err());
    for i in 0..LATTICE_LEN {
        assert!(!lat.is_live(i));
    }
}

#[test]
fn seeding_marks_exactly_the_listed_cells() {
    let mut lat = Lattice::new();
    let pts = vec![(0, 0, 0), (1, 2, 3), (-25, 24, 0), (1, 2, 3)];
    assert!(seed_cells(&mut lat, &pts).is_ok());
    let mut live = Vec::new();
    for i in 0..LATTICE_LEN {
        if lat.is_live(i) {
            live.push(convert_index_to_loc(i));
        }
    }
    live.sort();
    assert_eq!(live, vec![(-25, 24, 0), (0, 0, 0), (1, 2, 3)]);
}

#[test]
fn initialization_populates_only_the_sampling_cube() {
    let mut lat = Lattice::new();
    assert!(initialize_game(&mut lat, 200, (5, 5, 5), 6).is_ok());
    let mut any_live = false;
    for i in 0..LATTICE_LEN {
        if lat.is_live(i) {
            any_live = true;
            let (x, y, z) = convert_index_to_loc(i);
            assert!(2 <= x && x < 8);
            assert!(2 <= y && y < 8);
            assert!(2 <= z && z < 8);
        }
    }
    assert!(any_live);
}
