use booklet::{Book, Config, Definition, State};

fn state_with(text: &str, bookmarks: Vec<usize>) -> State {
    State::new("dir/book.txt", Config::new(bookmarks, vec![], None), Book::from_content(text))
}

fn five_lines() -> State {
    state_with("a\nb\nc\nd\ne", vec![])
}

#[test]
fn new_state_starts_at_the_top() {
    let s = State::new("p.txt", Config::new(vec![3, 1], vec![(0, 0, 1)], None), Book::from_content("x\ny"));
    assert_eq!(s.path, "p.txt");
    assert_eq!(s.config.bookmarks, vec![1, 3]);
    assert_eq!(s.book.line_count, 2);
    assert_eq!(s.line_number, 0);
    assert!(!s.update_screen);
    assert!(s.selection.is_none() && s.definition.is_none() && s.message.is_none());
}

#[test]
fn move_up_at_top_changes_nothing() {
    let mut s = five_lines();
    s.move_up();
    assert_eq!(s.line_number, 0);
    assert!(!s.update_screen);
}

#[test]
fn move_down_at_bottom_changes_nothing() {
    let mut s = five_lines();
    for _ in 0..4 {
        s.move_down();
    }
    assert_eq!(s.line_number, 4);
    s.update_screen = false;
    s.move_down();
    assert_eq!(s.line_number, 4);
    assert!(!s.update_screen);
    s.move_up();
    assert_eq!(s.line_number, 3);
    assert!(s.update_screen);
}

#[test]
fn empty_document_stays_on_line_zero() {
    let mut s = state_with("", vec![]);
    s.move_down();
    s.goto_bottom();
    s.move_up();
    assert_eq!(s.line_number, 0);
    assert!(!s.update_screen);
}

#[test]
fn goto_top_and_bottom() {
    let mut s = five_lines();
    s.goto_top();
    assert!(!s.update_screen);
    s.goto_bottom();
    assert_eq!(s.line_number, 4);
    assert!(s.update_screen);
    s.update_screen = false;
    s.goto_bottom();
    assert!(!s.update_screen);
    s.goto_top();
    assert_eq!(s.line_number, 0);
    assert!(s.update_screen);
}

#[test]
fn bookmark_jumps() {
    let mut s = state_with("0\n1\n2\n3\n4\n5\n6", vec![2, 5]);
    s.goto_next_bookmark();
    assert_eq!(s.line_number, 2);
    s.goto_next_bookmark();
    assert_eq!(s.line_number, 5);
    s.update_screen = false;
    s.goto_next_bookmark();
    assert_eq!(s.line_number, 5);
    assert!(!s.update_screen);
    s.goto_prev_bookmark();
    assert_eq!(s.line_number, 2);
    s.goto_prev_bookmark();
    assert_eq!(s.line_number, 2);
}

#[test]
fn bookmark_past_the_end_is_held_to_the_last_line() {
    let mut s = state_with("a\nb\nc", vec![40]);
    s.goto_next_bookmark();
    assert_eq!(s.line_number, 2);
    s.update_screen = false;
    s.goto_next_bookmark();
    assert_eq!(s.line_number, 2);
    assert!(!s.update_screen);
}

#[test]
fn bookmarks_stay_sorted_after_toggles() {
    let mut s = five_lines();
    for line in [3, 1, 4, 1, 0, 3, 2] {
        s.toggle_bookmark(line);
        assert!(s.config.bookmarks.windows(2).all(|w| w[0] < w[1]));
    }
    assert_eq!(s.config.bookmarks, vec![0, 2, 4]);
}

#[test]
fn add_and_remove_bookmark_report_changes() {
    let mut s = five_lines();
    assert!(s.add_bookmark(2));
    assert_eq!(s.message.as_deref(), Some("(i) Added bookmark"));
    assert!(s.has_bookmark(2));
    s.update_screen = false;
    assert!(!s.add_bookmark(2));
    assert!(!s.update_screen);
    assert!(s.remove_bookmark(2));
    assert_eq!(s.message.as_deref(), Some("(i) Removed bookmark"));
    assert!(!s.remove_bookmark(2));
    assert!(!s.has_bookmark(2));
}

#[test]
fn toggling_marker_twice_restores_it() {
    let mut s = five_lines();
    s.toggle_marker((1, 0, 1));
    let before = s.config.markers.clone();
    s.toggle_marker((3, 0, 4));
    assert_eq!(s.config.markers, vec![(1, 0, 1), (3, 0, 4)]);
    s.toggle_marker((3, 0, 4));
    assert_eq!(s.config.markers, before);
}

#[test]
fn selecting_twice_changes_state_once() {
    let mut s = five_lines();
    s.set_selection((1, 0, 1));
    assert_eq!(s.get_selection(), Some((1, 0, 1)));
    assert!(s.update_screen);
    s.update_screen = false;
    s.set_selection((1, 0, 1));
    assert!(!s.update_screen);
    s.set_selection((2, 0, 1));
    assert!(s.update_screen);
}

#[test]
fn clearing_only_dirties_when_something_was_there() {
    let mut s = five_lines();
    s.clear_selection();
    s.clear_definition();
    s.clear_message();
    assert!(!s.update_screen);
    s.set_selection((0, 0, 1));
    s.definition = Some(((0, 0, 1), Definition { word: "a".to_string(), list: vec![] }));
    s.show_message("hi");
    assert_eq!(s.message.as_deref(), Some("hi"));
    s.update_screen = false;
    s.clear_selection();
    assert!(s.selection.is_none() && s.update_screen);
    s.update_screen = false;
    s.clear_definition();
    assert!(s.definition.is_none() && s.update_screen);
    s.update_screen = false;
    s.clear_message();
    assert!(s.message.is_none() && s.update_screen);
}

#[test]
fn get_text_slices_by_characters() {
    let s = state_with("héllo wörld", vec![]);
    assert_eq!(s.get_text((0, 6, 11)), Some("wörld".to_string()));
    assert_eq!(s.get_text((0, 1, 2)), Some("é".to_string()));
    assert_eq!(s.get_text((0, 3, 2)), None);
    assert_eq!(s.get_text((0, 0, 12)), None);
    assert_eq!(s.get_text((1, 0, 0)), None);
}

#[test]
fn resize_centers_the_text() {
    let mut s = five_lines();
    s.resize_screen(120, 40);
    assert_eq!((s.screen_width, s.screen_height, s.pad_left), (120, 40, 20));
    assert!(s.update_screen);
    s.resize_screen(60, 10);
    assert_eq!(s.pad_left, 0);
    s.update_screen = false;
    s.resize_screen(60, 10);
    assert!(s.update_screen);
}

#[test]
fn focus_mode_toggles_and_says_so() {
    let mut s = five_lines();
    s.toggle_focus_mode();
    assert_eq!(s.config.focus_mode, Some(true));
    assert_eq!(s.message.as_deref(), Some("(i) Toggled focus mode"));
    s.toggle_focus_mode();
    assert_eq!(s.config.focus_mode, Some(false));
}

#[test]
fn update_screen_sets_the_flag() {
    let mut s = five_lines();
    s.update_screen();
    assert!(s.update_screen);
}
