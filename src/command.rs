use vstd::prelude::*;

use crate::config::{next_bookmark_of, prev_bookmark_of, toggled, Config, Span};
use crate::definition::{definition_of, texts, Definition, JsonValue};
use crate::span::after_click;
use crate::state::{last_index, says, State};

verus! {

/// Where dictionary entries are looked up; the word follows.
pub const DICTIONARY_URL: &'static str = "https://api.dictionaryapi.dev/api/v2/entries/en/";

/// A key as the viewer tells keys apart.
pub enum Key {
    Char(char),
    Esc,
    Other,
}

/// What the user asks for.
pub enum Command {
    Quit,
    Down,
    Up,
    /// The first key of a two-key command; the next key says which.
    Prefix,
    Top,
    Bottom,
    NextBookmark,
    PrevBookmark,
    ToggleBookmark,
    ToggleMarker,
    Define,
    ToggleFocus,
    Cancel,
    /// A left click on the screen cell (column, row).
    Click(usize, usize),
    /// The screen now has this many columns and rows.
    Resize(usize, usize),
    Nothing,
}

/// What the caller must do after a command.
pub enum Effect {
    Continue,
    Quit,
    /// Write the annotation record.
    Save,
    /// Fetch the dictionary entry at the address, then hand it to `accept_definition` with
    /// the span.
    Lookup(Span, String),
}

/// The command of a single key.
pub open spec fn key_command(key: Key) -> Command {
    match key {
        Key::Char('q') => Command::Quit,
        Key::Char('j') => Command::Down,
        Key::Char('k') => Command::Up,
        Key::Char('g') => Command::Prefix,
        Key::Char('x') => Command::ToggleBookmark,
        Key::Char('m') => Command::ToggleMarker,
        Key::Char('d') => Command::Define,
        Key::Char('f') => Command::ToggleFocus,
        Key::Esc => Command::Cancel,
        _ => Command::Nothing,
    }
}

/// The command of the key that follows the prefix key.
pub open spec fn prefixed_command(key: Key) -> Command {
    match key {
        Key::Char('g') => Command::Top,
        Key::Char('e') => Command::Bottom,
        Key::Char('n') => Command::NextBookmark,
        Key::Char('p') => Command::PrevBookmark,
        Key::Esc => Command::Quit,
        _ => Command::Nothing,
    }
}

/// The command of a single key.
pub fn command_for_key(key: Key) -> (r: Command)
    ensures
        r == key_command(key),
{
    match key {
        Key::Char(c) => if c == 'q' {
            Command::Quit
        } else if c == 'j' {
            Command::Down
        } else if c == 'k' {
            Command::Up
        } else if c == 'g' {
            Command::Prefix
        } else if c == 'x' {
            Command::ToggleBookmark
        } else if c == 'm' {
            Command::ToggleMarker
        } else if c == 'd' {
            Command::Define
        } else if c == 'f' {
            Command::ToggleFocus
        } else {
            Command::Nothing
        },
        Key::Esc => Command::Cancel,
        Key::Other => Command::Nothing,
    }
}

/// The command of the key that follows the prefix key.
pub fn command_after_prefix(key: Key) -> (r: Command)
    ensures
        r == prefixed_command(key),
{
    match key {
        Key::Char(c) => if c == 'g' {
            Command::Top
        } else if c == 'e' {
            Command::Bottom
        } else if c == 'n' {
            Command::NextBookmark
        } else if c == 'p' {
            Command::PrevBookmark
        } else {
            Command::Nothing
        },
        Key::Esc => Command::Quit,
        Key::Other => Command::Nothing,
    }
}

/// The state with the current line at `target`, marked for redrawing where it moved.
pub open spec fn moved(s: State, target: usize) -> State {
    if target == s.line_number {
        s
    } else {
        State { line_number: target, update_screen: true, ..s }
    }
}

/// The line that the next-bookmark command leads to.
pub open spec fn next_target(s: State) -> usize {
    match next_bookmark_of(s.config.bookmarks@, s.line_number) {
        Some(b) => if b <= last_index(s.book.line_count) {
            b
        } else {
            last_index(s.book.line_count)
        },
        None => s.line_number,
    }
}

/// The line that the previous-bookmark command leads to.
pub open spec fn prev_target(s: State) -> usize {
    match prev_bookmark_of(s.config.bookmarks@, s.line_number) {
        Some(b) => b,
        None => s.line_number,
    }
}

/// Going to the next bookmark and then to the previous one lands on a line no later than the
/// one started from, where every bookmark lies within the document and such a previous
/// bookmark exists.
pub proof fn lemma_jump_next_then_prev(s: State)
    requires
        s.wf(),
        forall|k: int|
            0 <= k < s.config.bookmarks@.len() ==> #[trigger] s.config.bookmarks@[k] <= last_index(
                s.book.line_count,
            ),
        next_bookmark_of(s.config.bookmarks@, s.line_number) is Some,
        prev_bookmark_of(s.config.bookmarks@, next_target(s)) is Some,
    ensures
        prev_target(moved(s, next_target(s))) <= s.line_number,
{
    let bs = s.config.bookmarks@;
    let j = crate::config::lemma_next_from_index(bs, s.line_number, 0);
    assert(next_target(s) == bs[j]);
    crate::config::lemma_next_then_prev(bs, s.line_number);
}

/// The text under the selection, where its line exists and its columns lie within it.
pub open spec fn selected_text(s: State) -> Option<Seq<char>> {
    match s.selection {
        Some(span) => {
            let t = s.book.text();
            if span.0 < s.book.line_count && span.1 <= span.2 <= t[span.0 as int].len() {
                Some(t[span.0 as int].subrange(span.1 as int, span.2 as int))
            } else {
                None
            }
        },
        None => None,
    }
}

/// The dictionary address for `word`.
pub open spec fn lookup_url(word: Seq<char>) -> Seq<char> {
    DICTIONARY_URL@ + word
}

impl State {
    /// What a definition lookup needs: the selection and the address of its text's entry.
    /// Where there is no selection, or it covers no text, a message says so instead.
    pub fn lookup_request(&mut self) -> (r: Option<(Span, String)>)
        requires
            old(self).wf(),
        ensures
            final(self).wf(),
            match (old(self).selection, selected_text(*old(self))) {
                (Some(span), Some(t)) => r matches Some((s, url)) && s == span && url@
                    == lookup_url(t) && *final(self) == *old(self),
                (None, _) => r is None && says(final(self).message, "(i) No selection found"@)
                    && *final(self) == (State {
                    message: final(self).message,
                    update_screen: true,
                    ..*old(self)
                }),
                (Some(_), None) => r is None && says(
                    final(self).message,
                    "(i) No text at specified selection"@,
                ) && *final(self) == (State {
                    message: final(self).message,
                    update_screen: true,
                    ..*old(self)
                }),
            },
    {
        let span = match self.selection {
            Some(span) => span,
            None => {
                self.show_message("(i) No selection found");
                return None;
            },
        };
        let text = match self.get_text(span) {
            Some(text) => text,
            None => {
                self.show_message("(i) No text at specified selection");
                return None;
            },
        };
        let mut url = crate::text::string_of(&crate::text::chars_of(DICTIONARY_URL));
        url.append(text.as_str());
        Some((span, url))
    }

    /// Takes the dictionary's answer for `span`: shows the definition it holds, or says that
    /// it holds none.
    pub fn accept_definition(&mut self, span: Span, value: &JsonValue)
        requires
            old(self).wf(),
        ensures
            final(self).wf(),
            match definition_of(*value) {
                Some((word, list)) => final(self).definition matches Some((s, d)) && s == span
                    && d.word@ == word && texts(d.list@) == list && *final(self) == (State {
                    definition: final(self).definition,
                    update_screen: true,
                    ..*old(self)
                }),
                None => says(final(self).message, "(i) No definition found"@) && *final(self)
                    == (State { message: final(self).message, update_screen: true, ..*old(self) }),
            },
    {
        match Definition::from_json(value) {
            Some(d) => {
                self.definition = Some((span, d));
                self.update_screen();
            },
            None => {
                self.show_message("(i) No definition found");
            },
        }
    }

    /// Carries out `cmd` and says what the caller must do next.
    pub fn apply(&mut self, cmd: Command) -> (effect: Effect)
        requires
            old(self).wf(),
        ensures
            final(self).wf(),
            match cmd {
                Command::Quit => effect is Quit && *final(self) == *old(self),
                Command::Prefix | Command::Nothing => effect is Continue && *final(self) == *old(
                    self,
                ),
                Command::Down => effect is Continue && *final(self) == moved(
                    *old(self),
                    if old(self).line_number < last_index(old(self).book.line_count) {
                        (old(self).line_number + 1) as usize
                    } else {
                        old(self).line_number
                    },
                ),
                Command::Up => effect is Continue && *final(self) == moved(
                    *old(self),
                    if old(self).line_number > 0 {
                        (old(self).line_number - 1) as usize
                    } else {
                        0
                    },
                ),
                Command::Top => effect is Continue && *final(self) == moved(*old(self), 0),
                Command::Bottom => effect is Continue && *final(self) == moved(
                    *old(self),
                    last_index(old(self).book.line_count),
                ),
                Command::NextBookmark => effect is Continue && *final(self) == moved(
                    *old(self),
                    next_target(*old(self)),
                ),
                Command::PrevBookmark => effect is Continue && *final(self) == moved(
                    *old(self),
                    prev_target(*old(self)),
                ),
                Command::ToggleBookmark => effect is Save && final(self).config.bookmarks@.to_set()
                    == if old(self).config.bookmarks@.contains(old(self).line_number) {
                    old(self).config.bookmarks@.to_set().remove(old(self).line_number)
                } else {
                    old(self).config.bookmarks@.to_set().insert(old(self).line_number)
                } && says(
                    final(self).message,
                    if old(self).config.bookmarks@.contains(old(self).line_number) {
                        "(i) Removed bookmark"@
                    } else {
                        "(i) Added bookmark"@
                    },
                ) && *final(self) == (State {
                    config: Config { bookmarks: final(self).config.bookmarks, ..old(self).config },
                    message: final(self).message,
                    update_screen: true,
                    ..*old(self)
                }),
                Command::ToggleMarker => match old(self).selection {
                    Some(span) => effect is Save && final(self).config.markers@ == toggled(
                        old(self).config.markers@,
                        span,
                    ) && *final(self) == (State {
                        config: Config { markers: final(self).config.markers, ..old(self).config },
                        update_screen: true,
                        ..*old(self)
                    }),
                    None => effect is Continue && *final(self) == *old(self),
                },
                Command::ToggleFocus => effect is Save && final(self).config.focus_mode == Some(
                    !old(self).focus_on(),
                ) && says(final(self).message, "(i) Toggled focus mode"@) && *final(self) == (
                State {
                    config: Config { focus_mode: final(self).config.focus_mode, ..old(self).config },
                    message: final(self).message,
                    update_screen: true,
                    ..*old(self)
                }),
                Command::Define => match (old(self).selection, selected_text(*old(self))) {
                    (Some(span), Some(t)) => effect matches Effect::Lookup(s, url) && s == span
                        && url@ == lookup_url(t) && *final(self) == *old(self),
                    (None, _) => effect is Continue && says(
                        final(self).message,
                        "(i) No selection found"@,
                    ) && *final(self) == (State {
                        message: final(self).message,
                        update_screen: true,
                        ..*old(self)
                    }),
                    (Some(_), None) => effect is Continue && says(
                        final(self).message,
                        "(i) No text at specified selection"@,
                    ) && *final(self) == (State {
                        message: final(self).message,
                        update_screen: true,
                        ..*old(self)
                    }),
                },
                Command::Cancel => effect is Continue && *final(self) == (State {
                    selection: None,
                    definition: None,
                    message: None,
                    update_screen: old(self).update_screen || old(self).selection is Some
                        || old(self).definition is Some || old(self).message is Some,
                    ..*old(self)
                }),
                Command::Click(col, row) => effect is Continue && *final(self) == after_click(
                    *old(self),
                    col,
                    row,
                ),
                Command::Resize(w, h) => effect is Continue && *final(self) == (State {
                    screen_width: w,
                    screen_height: h,
                    pad_left: if w / 2 >= old(self).book.line_width / 2 {
                        (w / 2 - old(self).book.line_width / 2) as usize
                    } else {
                        0
                    },
                    update_screen: true,
                    ..*old(self)
                }),
            },
    {
        match cmd {
            Command::Quit => Effect::Quit,
            Command::Prefix | Command::Nothing => Effect::Continue,
            Command::Down => {
                self.move_down();
                Effect::Continue
            },
            Command::Up => {
                self.move_up();
                Effect::Continue
            },
            Command::Top => {
                self.goto_top();
                Effect::Continue
            },
            Command::Bottom => {
                self.goto_bottom();
                Effect::Continue
            },
            Command::NextBookmark => {
                self.goto_next_bookmark();
                Effect::Continue
            },
            Command::PrevBookmark => {
                proof {
                    let bs = self.config.bookmarks@;
                    if prev_bookmark_of(bs, self.line_number) is Some {
                        crate::config::lemma_prev_within_index(
                            bs,
                            self.line_number,
                            bs.len() as int,
                        );
                    }
                }
                self.goto_prev_bookmark();
                Effect::Continue
            },
            Command::ToggleBookmark => {
                let line = self.line_number;
                self.toggle_bookmark(line);
                Effect::Save
            },
            Command::ToggleMarker => match self.selection {
                Some(span) => {
                    self.toggle_marker(span);
                    Effect::Save
                },
                None => Effect::Continue,
            },
            Command::ToggleFocus => {
                self.toggle_focus_mode();
                Effect::Save
            },
            Command::Define => match self.lookup_request() {
                Some((span, url)) => Effect::Lookup(span, url),
                None => Effect::Continue,
            },
            Command::Cancel => {
                self.clear_selection();
                self.clear_definition();
                self.clear_message();
                Effect::Continue
            },
            Command::Click(col, row) => {
                self.select_at(col, row);
                Effect::Continue
            },
            Command::Resize(w, h) => {
                self.resize_screen(w, h);
                Effect::Continue
            },
        }
    }
}

} // verus!
