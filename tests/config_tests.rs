use booklet::config::{insert_sorted, remove_sorted, toggle_span};
use booklet::Config;

#[test]
fn new_sorts_and_dedups_bookmarks() {
    let config = Config::new(vec![9, 3, 9, 1, 3], vec![(2, 0, 1)], Some(true));
    assert_eq!(config.bookmarks, vec![1, 3, 9]);
    assert_eq!(config.markers, vec![(2, 0, 1)]);
    assert_eq!(config.focus_mode, Some(true));
}

#[test]
fn default_config_is_empty() {
    let config = Config::default();
    assert!(config.bookmarks.is_empty());
    assert!(config.markers.is_empty());
    assert_eq!(config.focus_mode, None);
}

#[test]
fn next_and_prev_bookmarks() {
    let config = Config::new(vec![4, 10, 20], vec![], None);
    assert_eq!(config.next_bookmark(0), Some(4));
    assert_eq!(config.next_bookmark(4), Some(10));
    assert_eq!(config.next_bookmark(20), None);
    assert_eq!(config.prev_bookmark(20), Some(10));
    assert_eq!(config.prev_bookmark(4), None);
    assert_eq!(config.prev_bookmark(100), Some(20));
    assert!(config.is_bookmarked(10));
    assert!(!config.is_bookmarked(11));
}

#[test]
fn next_then_prev_returns_no_later_than_start() {
    let config = Config::new(vec![2, 5, 8], vec![], None);
    for l in 0..8 {
        let n = config.next_bookmark(l).unwrap();
        if let Some(p) = config.prev_bookmark(n) {
            assert!(p <= l);
        }
    }
}

#[test]
fn sorted_insert_and_remove() {
    let mut v = vec![1, 5, 9];
    insert_sorted(&mut v, 7);
    assert_eq!(v, vec![1, 5, 7, 9]);
    insert_sorted(&mut v, 5);
    assert_eq!(v, vec![1, 5, 7, 9]);
    insert_sorted(&mut v, 0);
    assert_eq!(v, vec![0, 1, 5, 7, 9]);
    remove_sorted(&mut v, 5);
    assert_eq!(v, vec![0, 1, 7, 9]);
    remove_sorted(&mut v, 6);
    assert_eq!(v, vec![0, 1, 7, 9]);
}

#[test]
fn toggling_a_span_twice_restores_markers() {
    let mut markers = vec![(1, 2, 3), (5, 0, 2)];
    toggle_span(&mut markers, (3, 0, 4));
    assert_eq!(markers, vec![(1, 2, 3), (5, 0, 2), (3, 0, 4)]);
    toggle_span(&mut markers, (3, 0, 4));
    assert_eq!(markers, vec![(1, 2, 3), (5, 0, 2)]);
}

#[test]
fn toggling_a_present_span_removes_its_first_occurrence() {
    let mut markers = vec![(3, 0, 4), (1, 1, 1), (3, 0, 4)];
    toggle_span(&mut markers, (3, 0, 4));
    assert_eq!(markers, vec![(1, 1, 1), (3, 0, 4)]);
}

#[test]
fn sidecar_path_prefixes_the_file_name() {
    assert_eq!(Config::sidecar_path("books/alice.txt"), Some("books/.booklet_alice.txt".to_string()));
    assert_eq!(Config::sidecar_path("alice.txt"), Some(".booklet_alice.txt".to_string()));
    assert_eq!(Config::sidecar_path("/a/b/c"), Some("/a/b/.booklet_c".to_string()));
    assert_eq!(Config::sidecar_path("books/alice.txt/"), Some("books/.booklet_alice.txt".to_string()));
    assert_eq!(Config::sidecar_path("books//"), Some(".booklet_books".to_string()));
    assert_eq!(Config::sidecar_path("/"), None);
    assert_eq!(Config::sidecar_path(""), None);
    assert_eq!(Config::sidecar_path("books/.."), None);
    assert_eq!(Config::sidecar_path("."), None);
}
