use life3d::codec::convert_loc_to_index;
use life3d::lattice::Lattice;
use life3d::render::create_render_points;

#[test]
fn records_carry_coordinates_and_chebyshev_distance() {
    let mut lat = Lattice::new();
    let mut cells = vec![
        (convert_loc_to_index(3, -4, 2).unwrap(), (3, -4, 2), 4u32),
        (convert_loc_to_index(-25, 0, 0).unwrap(), (-25, 0, 0), 25u32),
        (convert_loc_to_index(0, 0, 0).unwrap(), (0, 0, 0), 0u32),
    ];
    for &(idx, _, _) in cells.iter() {
        lat.set_cell(idx, true);
    }
    let records = create_render_points(&lat);
    assert_eq!(records.len(), 3);
    cells.sort();
    for (record, &(_, (x, y, z), distance)) in records.iter().zip(cells.iter()) {
        assert_eq!((record.x, record.y, record.z), (x, y, z));
        assert_eq!(record.distance, distance);
    }
}

#[test]
fn empty_lattice_renders_no_records() {
    let lat = Lattice::new();
    assert!(create_render_points(&lat).is_empty());
}

#[test]
fn records_follow_flat_index_order() {
    let mut lat = Lattice::new();
    let first = convert_loc_to_index(-25, -25, -25).unwrap();
    let last = convert_loc_to_index(24, 24, 24).unwrap();
    lat.set_cell(last, true);
    lat.set_cell(first, true);
    let records = create_render_points(&lat);
    assert_eq!(records.len(), 2);
    assert_eq!((records[0].x, records[0].y, records[0].z), (-25, -25, -25));
    assert_eq!((records[1].x, records[1].y, records[1].z), (24, 24, 24));
    assert_eq!(records[0].distance, 25);
    assert_eq!(records[1].distance, 24);
}
