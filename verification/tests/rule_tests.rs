use life3d::rule::GameRule;

#[test]
fn default_rule_survival_and_spawn_counts() {
    let rule = GameRule::default();
    assert!(rule.survival[5]);
    assert!(rule.spawn[6]);
    assert!(!rule.survival[2]);
    for n in 0..27 {
        assert_eq!(rule.survival[n], n == 5 || n == 6 || n == 7 || n == 8);
        assert_eq!(rule.spawn[n], n == 6 || n == 7 || n == 9);
    }
}

#[test]
fn dense_array_marks_exactly_the_listed_counts() {
    let ar = GameRule::convert_to_dense_array(&[0, 26, 13]);
    for n in 0..27 {
        assert_eq!(ar[n], n == 0 || n == 13 || n == 26);
    }
}

#[test]
fn dense_array_of_empty_list_is_all_false() {
    let ar = GameRule::convert_to_dense_array(&[]);
    for n in 0..27 {
        assert!(!ar[n]);
    }
}

#[test]
fn dense_array_tolerates_duplicates() {
    let ar = GameRule::convert_to_dense_array(&[7, 7, 7]);
    for n in 0..27 {
        assert_eq!(ar[n], n == 7);
    }
}
