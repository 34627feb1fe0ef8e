use life3d::codec::{convert_index_to_loc, convert_loc_to_index, LATTICE_LEN};
use life3d::engine::{apply_changes, classify_dead, classify_live, update_cell_locations};
use life3d::lattice::Lattice;
use life3d::rule::GameRule;

fn lattice_with(points: &[(i32, i32, i32)]) -> Lattice {
    let mut lat = Lattice::new();
    for &(x, y, z) in points {
        lat.set_cell(convert_loc_to_index(x, y, z).unwrap(), true);
    }
    lat
}

fn live_coords(lat: &Lattice) -> Vec<(i32, i32, i32)> {
    let mut live = Vec::new();
    for i in 0..LATTICE_LEN {
        if lat.is_live(i) {
            live.push(convert_index_to_loc(i));
        }
    }
    live
}

#[test]
fn all_dead_lattice_stays_all_dead() {
    let mut lat = Lattice::new();
    let rule = GameRule::default();
    update_cell_locations(&mut lat, &rule);
    for i in 0..LATTICE_LEN {
        assert!(!lat.is_live(i));
    }
}

#[test]
fn block_seed_one_generation_exact_membership() {
    let mut block = Vec::new();
    for x in -1..=1 {
        for y in -1..=1 {
            for z in -1..=1 {
                block.push((x, y, z));
            }
        }
    }
    let mut lat = lattice_with(&block);
    let rule = GameRule::default();
    update_cell_locations(&mut lat, &rule);

    // Hand-computed next generation of a fully live 3x3x3 block under the
    // default rule: the 8 block corners survive (7 neighbors each), and the
    // 30 dead cells one step beyond a block face spawn (9 neighbors facing
    // a face center, 6 facing a face edge).
    let mut expected = vec![
        (-1, -1, -1),
        (-1, -1, 1),
        (-1, 1, -1),
        (-1, 1, 1),
        (1, -1, -1),
        (1, -1, 1),
        (1, 1, -1),
        (1, 1, 1),
        (-2, 0, 0),
        (-2, -1, 0),
        (-2, 1, 0),
        (-2, 0, -1),
        (-2, 0, 1),
        (2, 0, 0),
        (2, -1, 0),
        (2, 1, 0),
        (2, 0, -1),
        (2, 0, 1),
        (0, -2, 0),
        (-1, -2, 0),
        (1, -2, 0),
        (0, -2, -1),
        (0, -2, 1),
        (0, 2, 0),
        (-1, 2, 0),
        (1, 2, 0),
        (0, 2, -1),
        (0, 2, 1),
        (0, 0, -2),
        (-1, 0, -2),
        (1, 0, -2),
        (0, -1, -2),
        (0, 1, -2),
        (0, 0, 2),
        (-1, 0, 2),
        (1, 0, 2),
        (0, -1, 2),
        (0, 1, 2),
    ];
    expected.sort();
    let mut live = live_coords(&lat);
    live.sort();
    assert_eq!(live, expected);
}

#[test]
fn explicit_phases_match_one_update() {
    let pattern = [
        (0, 0, 0),
        (1, 0, 0),
        (0, 1, 0),
        (0, 0, 1),
        (1, 1, 0),
        (1, 0, 1),
        (0, 1, 1),
        (-25, -25, -25),
        (10, -10, 5),
    ];
    let mut forked = lattice_with(&pattern);
    let mut direct = lattice_with(&pattern);
    let rule = GameRule::default();

    let (alive, dead) = classify_live(&forked, &rule);
    let alive2 = classify_dead(&forked, &rule);
    apply_changes(&mut forked, &alive, &alive2, &dead);

    update_cell_locations(&mut direct, &rule);
    for i in 0..LATTICE_LEN {
        assert_eq!(forked.is_live(i), direct.is_live(i));
    }
}

#[test]
fn classification_lists_partition_the_cells() {
    let pattern = [(0, 0, 0), (1, 0, 0), (0, 1, 0), (1, 1, 0), (0, 0, 1), (24, 24, 24)];
    let lat = lattice_with(&pattern);
    let rule = GameRule::default();
    let (alive, dead) = classify_live(&lat, &rule);
    let alive2 = classify_dead(&lat, &rule);
    assert_eq!(alive.len() + dead.len(), pattern.len());
    for &i in alive.iter() {
        assert!(lat.is_live(i));
        assert!(!dead.contains(&i));
    }
    for &i in dead.iter() {
        assert!(lat.is_live(i));
    }
    for &i in alive2.iter() {
        assert!(!lat.is_live(i));
    }
}
