use railworld::world::utils::get_closest;

#[test]
fn closest_entry_is_found() {
    let entries = vec![(10i64, 'a'), (20, 'b'), (30, 'c')];
    assert_eq!(get_closest(22, 100, &entries), Some((1, &(20, 'b'), false)));
    assert_eq!(get_closest(18, 100, &entries), Some((1, &(20, 'b'), true)));
    assert_eq!(get_closest(-50, 100, &entries), Some((0, &(10, 'a'), true)));
    assert_eq!(get_closest(31, 100, &entries), Some((2, &(30, 'c'), false)));
    assert_eq!(get_closest(30, 100, &entries), Some((2, &(30, 'c'), false)));
}

#[test]
fn of_equally_close_entries_the_first_is_taken() {
    let entries = vec![(10i64, 'a'), (20, 'b'), (30, 'c'), (20, 'd')];
    assert_eq!(get_closest(25, 100, &entries), Some((1, &(20, 'b'), false)));
    assert_eq!(get_closest(15, 100, &entries), Some((0, &(10, 'a'), false)));
}

#[test]
fn entries_too_far_away_are_not_found() {
    let entries = vec![(10i64, 'a'), (20, 'b'), (30, 'c')];
    assert_eq!(get_closest(25, 5, &entries), None);
    assert_eq!(get_closest(25, 6, &entries), Some((1, &(20, 'b'), false)));
    assert_eq!(get_closest(25, 0, &entries), None);
    assert_eq!(get_closest(20, 0, &entries), None);
    assert_eq!(get_closest(20, -3, &entries), None);
    assert_eq!(get_closest(20, 1, &entries), Some((1, &(20, 'b'), false)));
    let none: Vec<(i64, char)> = Vec::new();
    assert_eq!(get_closest(0, i64::MAX, &none), None);
}

#[test]
fn distances_beyond_64_bits_are_compared() {
    let entries = vec![(i64::MIN, 1u8), (i64::MAX, 2u8)];
    assert_eq!(get_closest(i64::MAX, i64::MAX, &entries), Some((1, &(i64::MAX, 2), false)));
    assert_eq!(get_closest(-1, i64::MAX, &entries), None);
    assert_eq!(get_closest(0, i64::MAX, &entries), None);
    assert_eq!(get_closest(1, i64::MAX, &entries), Some((1, &(i64::MAX, 2), true)));
}
