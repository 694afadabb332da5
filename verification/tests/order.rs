use telegram_photo_geolocator_bot::order::{before, sort_by_key, strip_keys, SortKey};

fn key(distance: i128, rank: usize) -> SortKey {
    SortKey { distance, rank }
}

#[test]
fn orders_by_distance_then_rank() {
    assert!(before(key(1, 5), key(2, 0)));
    assert!(before(key(2, 0), key(2, 1)));
    assert!(!before(key(2, 1), key(2, 1)));
    assert!(!before(key(3, 0), key(2, 9)));
}

#[test]
fn sorting_keeps_ties_in_order() {
    let sorted = sort_by_key(vec![
        (key(5, 0), "e"),
        (key(1, 1), "b"),
        (key(1, 0), "a"),
        (key(5, 0), "f"),
        (key(1, 1), "c"),
        (key(-3, 7), "z"),
        (key(1, 1), "d"),
    ]);
    assert_eq!(strip_keys(sorted), vec!["z", "a", "b", "c", "d", "e", "f"]);
    assert!(sort_by_key(Vec::<(SortKey, u8)>::new()).is_empty());
}
