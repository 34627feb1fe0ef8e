use life3d::codec::{convert_index_to_loc, convert_loc_to_index, LATTICE_LEN};

#[test]
fn encode_center_cell() {
    let idx = convert_loc_to_index(0, 0, 0).unwrap();
    assert_eq!(idx, 25 + 50 * 25 + 2500 * 25);
}

#[test]
fn encode_lattice_extremes() {
    assert_eq!(convert_loc_to_index(-25, -25, -25).unwrap(), 0);
    assert_eq!(convert_loc_to_index(24, 24, 24).unwrap(), LATTICE_LEN - 1);
}

#[test]
fn decode_inverts_encode_everywhere() {
    for z in -25..25 {
        for y in -25..25 {
            for x in -25..25 {
                let idx = convert_loc_to_index(x, y, z).unwrap();
                assert!(idx < LATTICE_LEN);
                assert_eq!(convert_index_to_loc(idx), (x, y, z));
            }
        }
    }
}

#[test]
fn encode_inverts_decode_everywhere() {
    for idx in 0..LATTICE_LEN {
        let (x, y, z) = convert_index_to_loc(idx);
        assert_eq!(convert_loc_to_index(x, y, z).unwrap(), idx);
    }
}

#[test]
fn out_of_range_coordinate_is_rejected() {
    assert!(convert_loc_to_index(25, 0, 0).is_err());
    assert!(convert_loc_to_index(0, -26, 0).is_err());
    assert!(convert_loc_to_index(0, 0, 1000).is_err());
    assert!(convert_loc_to_index(-25, 24, -26).is_err());
}
