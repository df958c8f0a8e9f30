use toucan::pather::PathCache;

#[test]
fn root_path_is_empty() {
    let c = PathCache::new();
    assert_eq!(c.from_id(0), Some(vec![]));
    assert_eq!(c.from_id(1), None);
    assert_eq!(c.parent(0), None);
}

#[test]
fn extending_records_paths_once() {
    let mut c = PathCache::new();
    assert_eq!(c.extend(0, 3), Some(1));
    assert_eq!(c.from_id(1), Some(vec![3]));
    assert_eq!(c.extend(0, 3), Some(1));
    assert_eq!(c.extend(0, 5), Some(3));
    assert_eq!(c.from_id(3), Some(vec![5]));
    assert_eq!(c.extend(1, 2), Some(5));
    assert_eq!(c.from_id(5), Some(vec![3, 2]));
    assert_eq!(c.from_id_raw(5, true), Some(vec![-2, 3, 2]));
    assert_eq!(c.extend(1, 2), Some(5));
    assert_eq!(c.extend(5, 0), Some(8));
    assert_eq!(c.from_id(8), Some(vec![3, 2, 0]));
}

#[test]
fn parents_undo_extension() {
    let mut c = PathCache::new();
    let a = c.extend(0, 4).unwrap();
    let b = c.extend(a, 1).unwrap();
    let d = c.extend(b, 7).unwrap();
    assert_eq!(c.parent(d), Some((b, 7)));
    assert_eq!(c.parent(b), Some((a, 1)));
    assert_eq!(c.parent(a), Some((0, 4)));
}

#[test]
fn unknown_ids_give_nothing() {
    let mut c = PathCache::new();
    c.extend(0, 3).unwrap();
    // position 2 holds a path step, not a header
    assert_eq!(c.from_id(2), None);
    assert_eq!(c.extend(2, 1), None);
    assert_eq!(c.extend(99, 1), None);
    assert_eq!(c.parent(2), None);
    assert_eq!(c.parent(99), None);
}

#[test]
fn zero_steps_read_as_empty_paths() {
    let mut c = PathCache::new();
    let a = c.extend(0, 0).unwrap();
    assert_eq!(a, 1);
    // position 2 holds the step 0, which reads as an empty path
    assert_eq!(c.from_id(2), Some(vec![]));
    assert_eq!(c.extend(2, 6), Some(3));
    assert_eq!(c.from_id(3), Some(vec![6]));
}

#[test]
fn no_overlong_headers_in_small_caches() {
    let mut c = PathCache::new();
    let a = c.extend(0, 1).unwrap();
    assert!(!c.is_overlong(0));
    assert!(!c.is_overlong(a));
    assert!(!c.is_overlong(100));
}

#[test]
fn paths_are_recorded_once() {
    let mut c = PathCache::new();
    let a = c.extend(0, 2).unwrap();
    let b = c.extend(0, 5).unwrap();
    let a1 = c.extend(a, 1).unwrap();
    let b1 = c.extend(b, 1).unwrap();
    assert_ne!(a1, b1);
    let len_before = c.from_id_raw(b1, true).unwrap();
    assert_eq!(len_before, vec![-2, 5, 1]);
    assert_eq!(c.extend(a, 1), Some(a1));
    assert_eq!(c.extend(b, 1), Some(b1));
    assert_eq!(c.parent(a1), Some((a, 1)));
    assert_eq!(c.parent(b1), Some((b, 1)));
}
