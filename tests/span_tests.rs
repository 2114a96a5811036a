use booklet::span::{pick_span, word_span, GUTTER, OFFSET};
use booklet::{Book, Codes, Config, State};

fn chars(s: &str) -> Vec<char> {
    s.chars().collect()
}

#[test]
fn number_and_word_runs() {
    let t = chars("see page 42 now");
    assert_eq!(word_span(&t, 9), Some((9, 11)));
    assert_eq!(word_span(&t, 10), Some((9, 11)));
    assert_eq!(word_span(&t, 5), Some((4, 8)));
    assert_eq!(word_span(&t, 4), Some((4, 8)));
    assert_eq!(word_span(&t, 0), Some((0, 3)));
    assert_eq!(word_span(&t, 14), Some((12, 15)));
    assert_eq!(word_span(&t, 3), None);
    assert_eq!(word_span(&t, 15), None);
}

#[test]
fn runs_stop_at_the_other_class() {
    let t = chars("abc123def");
    assert_eq!(word_span(&t, 1), Some((0, 3)));
    assert_eq!(word_span(&t, 4), Some((3, 6)));
    assert_eq!(word_span(&t, 8), Some((6, 9)));
    assert_eq!(word_span(&chars("naïve,"), 2), Some((0, 5)));
}

fn clicked(text: &str, line: usize, column: usize) -> State {
    let mut s = State::new("b.txt", Config::default(), Book::from_content(text));
    s.resize_screen(80, 40);
    s.select_at(s.pad_left + GUTTER + column, OFFSET + line);
    s
}

#[test]
fn clicking_selects_the_run_under_the_pointer() {
    let s = clicked("first\nsee page 42 now", 1, 10);
    assert_eq!(s.selection, Some((1, 9, 11)));
    let s = clicked("first\nsee page 42 now", 1, 5);
    assert_eq!(s.selection, Some((1, 4, 8)));
}

#[test]
fn clicking_blank_places_changes_nothing() {
    let s = clicked("see page", 0, 3);
    assert_eq!(s.selection, None);
    let mut s = State::new("b.txt", Config::default(), Book::from_content("see page"));
    s.select_at(GUTTER + 1, OFFSET - 1);
    assert_eq!(s.selection, None);
    s.select_at(GUTTER + 1, OFFSET + 1);
    assert_eq!(s.selection, None);
    s.select_at(3, OFFSET);
    assert_eq!(s.selection, None);
}

#[test]
fn clicking_the_same_word_twice_is_a_no_op() {
    let mut s = State::new("b.txt", Config::default(), Book::from_content("see page"));
    s.select_at(GUTTER + 5, OFFSET);
    assert_eq!(s.selection, Some((0, 4, 8)));
    s.update_screen = false;
    s.select_at(GUTTER + 6, OFFSET);
    assert!(!s.update_screen);
}

#[test]
fn click_spans_skip_codes_inside_the_word() {
    let s = clicked("ab_cd_ ef", 0, 1);
    assert_eq!(s.selection, Some((0, 0, 5)));
    let s = clicked("x _ab_", 0, 3);
    assert_eq!(s.selection, Some((0, 3, 5)));
}

#[test]
fn clicks_measure_columns_without_style_codes() {
    let s = clicked("an _italic_ word", 0, 4);
    let line: Vec<char> = s.book.lines[0].chars().collect();
    assert_eq!(line[3], Codes::ITALIC);
    assert_eq!(s.selection, Some((0, 4, 10)));
    assert_eq!(s.get_text((0, 4, 10)), Some("italic".to_string()));
}

#[test]
fn runs_from_given_class_flags() {
    let digits = vec![false, false, true, true, false, true];
    let letters = vec![true, true, false, false, false, true];
    assert_eq!(pick_span(&digits, &letters, 3), Some((2, 4)));
    assert_eq!(pick_span(&digits, &letters, 0), Some((0, 2)));
    assert_eq!(pick_span(&digits, &letters, 4), None);
    assert_eq!(pick_span(&digits, &letters, 5), Some((5, 6)));
    assert_eq!(pick_span(&digits, &letters, 6), None);
}
