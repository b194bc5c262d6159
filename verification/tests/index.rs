use counterfeit::index::MultiFileIndexMap;

#[test]
fn new_map_holds_no_cursor() {
    let map = MultiFileIndexMap::new();
    assert_eq!(map.cursor("responses/widgets"), None);
    assert_eq!(map.cursor(""), None);
}

#[test]
fn select_walks_round_the_candidates() {
    let mut map = MultiFileIndexMap::new();
    let selected: Vec<usize> = (0..7).map(|_| map.select("d", 3)).collect();
    assert_eq!(selected, vec![0, 1, 2, 0, 1, 2, 0]);
}

#[test]
fn select_stores_the_next_position() {
    let mut map = MultiFileIndexMap::new();
    assert_eq!(map.select("d", 2), 0);
    assert_eq!(map.cursor("d"), Some(1));
    assert_eq!(map.select("d", 2), 1);
    assert_eq!(map.cursor("d"), Some(2));
    assert_eq!(map.select("d", 2), 0);
    assert_eq!(map.cursor("d"), Some(1));
}

#[test]
fn select_among_one_candidate_always_gives_it() {
    let mut map = MultiFileIndexMap::new();
    for _ in 0..4 {
        assert_eq!(map.select("d", 1), 0);
        assert_eq!(map.cursor("d"), Some(1));
    }
}

#[test]
fn select_brings_a_stale_cursor_back_to_zero() {
    let mut map = MultiFileIndexMap::new();
    for _ in 0..4 {
        map.select("d", 5);
    }
    assert_eq!(map.cursor("d"), Some(4));
    assert_eq!(map.select("d", 4), 0);
    assert_eq!(map.select("d", 4), 1);
}

#[test]
fn select_keeps_directories_apart() {
    let mut map = MultiFileIndexMap::new();
    assert_eq!(map.select("a", 3), 0);
    assert_eq!(map.select("a", 3), 1);
    assert_eq!(map.select("b", 3), 0);
    assert_eq!(map.select("a/", 3), 0);
    assert_eq!(map.select("a", 3), 2);
    assert_eq!(map.cursor("a"), Some(3));
    assert_eq!(map.cursor("b"), Some(1));
    assert_eq!(map.cursor("a/"), Some(1));
    assert_eq!(map.cursor("c"), None);
}
