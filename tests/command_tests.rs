use booklet::command::{command_after_prefix, command_for_key};
use booklet::{Book, Command, Config, Effect, JsonValue, Key, State};

fn state() -> State {
    State::new("b.txt", Config::default(), Book::from_content("see page 42\nsecond\nthird"))
}

#[test]
fn keys_map_to_commands() {
    assert!(matches!(command_for_key(Key::Char('q')), Command::Quit));
    assert!(matches!(command_for_key(Key::Char('j')), Command::Down));
    assert!(matches!(command_for_key(Key::Char('k')), Command::Up));
    assert!(matches!(command_for_key(Key::Char('g')), Command::Prefix));
    assert!(matches!(command_for_key(Key::Char('x')), Command::ToggleBookmark));
    assert!(matches!(command_for_key(Key::Char('m')), Command::ToggleMarker));
    assert!(matches!(command_for_key(Key::Char('d')), Command::Define));
    assert!(matches!(command_for_key(Key::Char('f')), Command::ToggleFocus));
    assert!(matches!(command_for_key(Key::Esc), Command::Cancel));
    assert!(matches!(command_for_key(Key::Char('z')), Command::Nothing));
    assert!(matches!(command_for_key(Key::Other), Command::Nothing));
    assert!(matches!(command_after_prefix(Key::Char('g')), Command::Top));
    assert!(matches!(command_after_prefix(Key::Char('e')), Command::Bottom));
    assert!(matches!(command_after_prefix(Key::Char('n')), Command::NextBookmark));
    assert!(matches!(command_after_prefix(Key::Char('p')), Command::PrevBookmark));
    assert!(matches!(command_after_prefix(Key::Esc), Command::Quit));
    assert!(matches!(command_after_prefix(Key::Char('j')), Command::Nothing));
}

#[test]
fn navigation_commands() {
    let mut s = state();
    assert!(matches!(s.apply(Command::Down), Effect::Continue));
    assert_eq!(s.line_number, 1);
    s.apply(Command::Bottom);
    assert_eq!(s.line_number, 2);
    s.apply(Command::Up);
    assert_eq!(s.line_number, 1);
    s.apply(Command::Top);
    assert_eq!(s.line_number, 0);
    assert!(matches!(s.apply(Command::Quit), Effect::Quit));
}

#[test]
fn annotation_commands_ask_for_a_save() {
    let mut s = state();
    s.apply(Command::Down);
    assert!(matches!(s.apply(Command::ToggleBookmark), Effect::Save));
    assert_eq!(s.config.bookmarks, vec![1]);
    s.apply(Command::Top);
    s.apply(Command::NextBookmark);
    assert_eq!(s.line_number, 1);
    s.apply(Command::PrevBookmark);
    assert_eq!(s.line_number, 1);
    assert!(matches!(s.apply(Command::ToggleMarker), Effect::Continue));
    s.set_selection((0, 4, 8));
    assert!(matches!(s.apply(Command::ToggleMarker), Effect::Save));
    assert_eq!(s.config.markers, vec![(0, 4, 8)]);
    assert!(matches!(s.apply(Command::ToggleFocus), Effect::Save));
    assert_eq!(s.config.focus_mode, Some(true));
}

#[test]
fn cancel_clears_the_overlays() {
    let mut s = state();
    s.set_selection((0, 0, 3));
    s.show_message("note");
    s.apply(Command::Cancel);
    assert!(s.selection.is_none() && s.definition.is_none() && s.message.is_none());
}

#[test]
fn click_and_resize_commands() {
    let mut s = state();
    s.apply(Command::Resize(80, 30));
    assert_eq!((s.screen_width, s.screen_height), (80, 30));
    s.apply(Command::Click(10 + 9, 15));
    assert_eq!(s.selection, Some((0, 9, 11)));
}

#[test]
fn define_without_selection_says_so() {
    let mut s = state();
    assert!(matches!(s.apply(Command::Define), Effect::Continue));
    assert_eq!(s.message.as_deref(), Some("(i) No selection found"));
    s.set_selection((0, 5, 40));
    assert!(s.lookup_request().is_none());
    assert_eq!(s.message.as_deref(), Some("(i) No text at specified selection"));
}

#[test]
fn define_asks_for_the_selected_word() {
    let mut s = state();
    s.set_selection((0, 4, 8));
    match s.apply(Command::Define) {
        Effect::Lookup(span, url) => {
            assert_eq!(span, (0, 4, 8));
            assert_eq!(url, "https://api.dictionaryapi.dev/api/v2/entries/en/page");
        }
        _ => panic!("expected a lookup"),
    }
}

#[test]
fn accepting_an_answer() {
    let mut s = state();
    s.accept_definition((0, 4, 8), &JsonValue::Array(vec![]));
    assert_eq!(s.message.as_deref(), Some("(i) No definition found"));
    assert!(s.definition.is_none());
    let entry = JsonValue::Object(vec![
        ("word".to_string(), JsonValue::Str("page".to_string())),
        (
            "meanings".to_string(),
            JsonValue::Array(vec![JsonValue::Object(vec![(
                "definitions".to_string(),
                JsonValue::Array(vec![JsonValue::Object(vec![(
                    "definition".to_string(),
                    JsonValue::Str("One side of a leaf.".to_string()),
                )])]),
            )])]),
        ),
    ]);
    s.accept_definition((0, 4, 8), &JsonValue::Array(vec![entry]));
    let (span, d) = s.definition.as_ref().unwrap();
    assert_eq!(*span, (0, 4, 8));
    assert_eq!(d.word, "page");
    assert_eq!(d.list, vec!["One side of a leaf."]);
}
