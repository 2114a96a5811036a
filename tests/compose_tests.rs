use booklet::compose::{mark, BRIGHT, DIM, FAINT};
use booklet::span::OFFSET;
use booklet::{Book, Codes, Config, Definition, State};

const RESET: &str = "\x1b[0m";
const NUMBER: &str = "\x1b[38;2;130;130;130m";
const ANCHOR: &str = "\x1b[38;2;200;200;0m";

fn state(text: &str) -> State {
    let mut s = State::new("b.txt", Config::default(), Book::from_content(text));
    s.resize_screen(100, 40);
    s
}

#[test]
fn current_line_row() {
    let s = state("hello");
    assert_eq!(s.pad_left, 10);
    let row = s.compose_row(OFFSET).unwrap();
    let expected = format!("{}{ANCHOR}    0    {RESET} {BRIGHT}hello{RESET}", " ".repeat(10));
    assert_eq!(row, expected);
}

#[test]
fn rows_outside_the_document_are_blank() {
    let s = state("hello\nworld");
    assert_eq!(s.compose_row(0), None);
    assert_eq!(s.compose_row(OFFSET - 1), None);
    assert!(s.compose_row(OFFSET + 1).is_some());
    assert_eq!(s.compose_row(OFFSET + 2), None);
}

#[test]
fn numbers_on_every_fifth_line_and_bookmark_sign() {
    let text = "0\n1\n2\n3\n4\n5\n6";
    let mut s = state(text);
    s.add_bookmark(6);
    let row = s.compose_row(OFFSET + 6).unwrap();
    let sign = "\x1b[38;2;240;240;240m>>>\x1b[0m";
    assert_eq!(row, format!("{}{NUMBER}      {sign}{RESET} {BRIGHT}6{RESET}", " ".repeat(10)));
    let row = s.compose_row(OFFSET + 5).unwrap();
    assert_eq!(row, format!("{}{NUMBER}    5    {RESET} {BRIGHT}5{RESET}", " ".repeat(10)));
}

#[test]
fn selection_and_marker_layers() {
    let mut s = state("abcdef");
    s.set_selection((0, 1, 3));
    s.toggle_marker((0, 4, 6));
    let row = s.compose_row(OFFSET).unwrap();
    let body = format!(
        "a\x1b[48;2;100;100;100m\x1b[38;2;240;240;240mbc\x1b[48;2;90;90;0m\x1b[49m{BRIGHT}d\x1b[49m{BRIGHT}ef"
    );
    assert!(row.ends_with(&format!("{BRIGHT}{body}{RESET}")));
}

#[test]
fn markers_are_placed_in_the_text_as_earlier_layers_left_it() {
    let mut s = state("abcdef");
    s.set_selection((0, 0, 2));
    s.toggle_marker((0, 4, 6));
    let layered = s.layered_line(0);
    let expected = vec![
        Codes::BACKGROUND_SELECTION, 'a', 'b', Codes::RESET_BACKGROUND, Codes::BACKGROUND_MARKER,
        'c', 'd', Codes::RESET_BACKGROUND, 'e', 'f',
    ];
    assert_eq!(layered, expected);
}

#[test]
fn mark_out_of_range_is_a_no_op() {
    let t: Vec<char> = "abc".chars().collect();
    assert_eq!(mark(&t, 2, 5, 'X'), t);
    assert_eq!(mark(&t, 2, 1, 'X'), t);
    assert_eq!(mark(&t, 3, 3, 'X'), vec!['a', 'b', 'c', 'X', Codes::RESET_BACKGROUND]);
}

#[test]
fn definition_replaces_the_lines_below_its_anchor() {
    let mut s = state("a\nb\nc\nd\ne\nf");
    let def = Definition { word: "a".to_string(), list: vec!["x".to_string(), "y".to_string()] };
    s.definition = Some(((0, 0, 1), def));
    let pad = " ".repeat(10);
    assert_eq!(s.compose_row(OFFSET + 1).unwrap(), format!("{pad}{NUMBER}         {RESET} {BRIGHT}{RESET}"));
    assert_eq!(
        s.compose_row(OFFSET + 2).unwrap(),
        format!("{pad}{NUMBER}         {RESET} {BRIGHT}{DIM}  1. x{RESET}{RESET}")
    );
    assert_eq!(
        s.compose_row(OFFSET + 3).unwrap(),
        format!("{pad}{NUMBER}         {RESET} {BRIGHT}{DIM}  2. y{RESET}{RESET}")
    );
    assert_eq!(s.compose_row(OFFSET + 4).unwrap(), format!("{pad}{NUMBER}         {RESET} {BRIGHT}{RESET}"));
    assert_eq!(s.compose_row(OFFSET + 5).unwrap(), format!("{pad}{NUMBER}    5    {RESET} {BRIGHT}f{RESET}"));
}

#[test]
fn focus_mode_dims_rows_away_from_the_current_one() {
    let mut s = state("a\nb\nc\nd\ne");
    s.toggle_focus_mode();
    s.move_down();
    s.move_down();
    assert!(s.compose_row(OFFSET).unwrap().ends_with(&format!("{BRIGHT}c{RESET}")));
    assert!(s.compose_row(OFFSET - 1).unwrap().ends_with(&format!("{DIM}b{RESET}")));
    assert!(s.compose_row(OFFSET + 1).unwrap().ends_with(&format!("{DIM}d{RESET}")));
    assert!(s.compose_row(OFFSET - 2).unwrap().ends_with(&format!("{FAINT}a{RESET}")));
    assert!(s.compose_row(OFFSET + 2).unwrap().ends_with(&format!("{FAINT}e{RESET}")));
}

#[test]
fn large_line_numbers_are_not_cut() {
    let text: Vec<String> = (0..123456).map(|_| String::from("z")).collect();
    let mut s = state(&text.join("\n"));
    s.goto_bottom();
    let row = s.compose_row(OFFSET).unwrap();
    assert!(row.contains(&format!("{ANCHOR}123455 ")));
}
