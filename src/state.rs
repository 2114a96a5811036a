use vstd::prelude::*;

use crate::book::Book;
use crate::config::{
    insert_sorted, next_bookmark_of, prev_bookmark_of, remove_sorted, strictly_sorted,
    toggle_span, toggled, Config, Span,
};
use crate::definition::Definition;
use crate::text::{chars_of, string_of};

verus! {

/// Whether `msg` holds exactly the text `text`.
pub open spec fn says(msg: Option<String>, text: Seq<char>) -> bool {
    msg matches Some(m) && m@ == text
}

/// The index of the last line of a document of `count` lines; 0 for an empty one.
pub open spec fn last_index(count: usize) -> usize {
    if count == 0 {
        0
    } else {
        (count - 1) as usize
    }
}

/// The viewer's state: the document, its annotations, the viewport and what is on screen.
pub struct State {
    pub path: String,
    pub config: Config,
    pub book: Book,
    pub screen_width: usize,
    pub screen_height: usize,
    pub line_number: usize,
    pub pad_left: usize,
    pub update_screen: bool,
    pub selection: Option<Span>,
    pub definition: Option<(Span, Definition)>,
    pub message: Option<String>,
}

impl State {
    /// Bookmarks ascending and unique, line count matching the lines, and the current line
    /// within the document.
    pub open spec fn wf(&self) -> bool {
        &&& self.config.wf()
        &&& self.book.wf()
        &&& self.line_number <= last_index(self.book.line_count)
    }

    /// Whether focus mode is on.
    pub open spec fn focus_on(&self) -> bool {
        self.config.focus_mode == Some(true)
    }

    /// A fresh state at the top of `book`, with no screen size yet; the bookmarks of `config`
    /// are put in ascending order without duplicates.
    pub fn new(path: &str, config: Config, book: Book) -> (r: State)
        ensures
            r.wf(),
            r.path@ == path@,
            r.config.bookmarks@.to_set() == config.bookmarks@.to_set(),
            r.config.markers@ == config.markers@,
            r.config.focus_mode == config.focus_mode,
            r.book.lines == book.lines,
            r.book.line_width == book.line_width,
            r.screen_width == 0 && r.screen_height == 0 && r.pad_left == 0,
            r.line_number == 0,
            !r.update_screen,
            r.selection is None && r.definition is None && r.message is None,
    {
        let Config { bookmarks, markers, focus_mode } = config;
        let config = Config::new(bookmarks, markers, focus_mode);
        let Book { lines, line_count: _, line_width } = book;
        let line_count = lines.len();
        State {
            path: string_of(&chars_of(path)),
            config,
            book: Book { lines, line_count, line_width },
            screen_width: 0,
            screen_height: 0,
            line_number: 0,
            selection: None,
            pad_left: 0,
            update_screen: false,
            definition: None,
            message: None,
        }
    }

    /// Asks for the screen to be drawn again.
    pub fn update_screen(&mut self)
        ensures
            *final(self) == (State { update_screen: true, ..*old(self) }),
    {
        self.update_screen = true;
    }

    /// Takes the new screen size and centers the document in it.
    pub fn resize_screen(&mut self, screen_width: usize, screen_height: usize)
        requires
            old(self).wf(),
        ensures
            final(self).wf(),
            *final(self) == (State {
                screen_width,
                screen_height,
                pad_left: if screen_width / 2 >= old(self).book.line_width / 2 {
                    (screen_width / 2 - old(self).book.line_width / 2) as usize
                } else {
                    0
                },
                update_screen: true,
                ..*old(self)
            }),
    {
        self.screen_width = screen_width;
        self.screen_height = screen_height;
        let half = self.book.line_width / 2;
        self.pad_left = if self.screen_width / 2 >= half {
            self.screen_width / 2 - half
        } else {
            0
        };
        self.update_screen();
    }

    /// Moves one line up; nothing changes on the first line.
    pub fn move_up(&mut self)
        requires
            old(self).wf(),
        ensures
            final(self).wf(),
            old(self).line_number > 0 ==> *final(self) == (State {
                line_number: (old(self).line_number - 1) as usize,
                update_screen: true,
                ..*old(self)
            }),
            old(self).line_number == 0 ==> *final(self) == *old(self),
    {
        if self.line_number > 0 {
            self.line_number = self.line_number - 1;
            self.update_screen();
        }
    }

    /// Moves one line down; nothing changes on the last line.
    pub fn move_down(&mut self)
        requires
            old(self).wf(),
        ensures
            final(self).wf(),
            old(self).line_number < last_index(old(self).book.line_count) ==> *final(self) == (
            State { line_number: (old(self).line_number + 1) as usize, update_screen: true, ..*old(self) }),
            old(self).line_number == last_index(old(self).book.line_count) ==> *final(self)
                == *old(self),
    {
        let last = self.last_line();
        if self.line_number < last {
            self.line_number = self.line_number + 1;
            self.update_screen();
        }
    }

    /// The index of the last line.
    pub fn last_line(&self) -> (r: usize)
        ensures
            r == last_index(self.book.line_count),
    {
        if self.book.line_count == 0 {
            0
        } else {
            self.book.line_count - 1
        }
    }

    /// Goes to the first line.
    pub fn goto_top(&mut self)
        requires
            old(self).wf(),
        ensures
            final(self).wf(),
            old(self).line_number > 0 ==> *final(self) == (State {
                line_number: 0,
                update_screen: true,
                ..*old(self)
            }),
            old(self).line_number == 0 ==> *final(self) == *old(self),
    {
        if self.line_number > 0 {
            self.line_number = 0;
            self.update_screen();
        }
    }

    /// Goes to the last line.
    pub fn goto_bottom(&mut self)
        requires
            old(self).wf(),
        ensures
            final(self).wf(),
            old(self).line_number != last_index(old(self).book.line_count) ==> *final(self) == (
            State { line_number: last_index(old(self).book.line_count), update_screen: true, ..*old(self) }),
            old(self).line_number == last_index(old(self).book.line_count) ==> *final(self)
                == *old(self),
    {
        let last = self.last_line();
        if self.line_number != last {
            self.line_number = last;
            self.update_screen();
        }
    }

    /// Goes to the first bookmark after the current line, held to the last line of the
    /// document; nothing changes where there is none or the line stays the same.
    pub fn goto_next_bookmark(&mut self)
        requires
            old(self).wf(),
        ensures
            final(self).wf(),
            match next_bookmark_of(old(self).config.bookmarks@, old(self).line_number) {
                Some(b) => {
                    let target = if b <= last_index(old(self).book.line_count) {
                        b
                    } else {
                        last_index(old(self).book.line_count)
                    };
                    if target != old(self).line_number {
                        *final(self) == (State {
                            line_number: target,
                            update_screen: true,
                            ..*old(self)
                        })
                    } else {
                        *final(self) == *old(self)
                    }
                },
                None => *final(self) == *old(self),
            },
    {
        match self.config.next_bookmark(self.line_number) {
            Some(b) => {
                let last = self.last_line();
                let target = if b <= last {
                    b
                } else {
                    last
                };
                if target != self.line_number {
                    self.line_number = target;
                    self.update_screen();
                }
            },
            None => {},
        }
    }

    /// Goes to the last bookmark before the current line; nothing changes where there is none.
    pub fn goto_prev_bookmark(&mut self)
        requires
            old(self).wf(),
        ensures
            final(self).wf(),
            match prev_bookmark_of(old(self).config.bookmarks@, old(self).line_number) {
                Some(b) => *final(self) == (State {
                    line_number: b,
                    update_screen: true,
                    ..*old(self)
                }),
                None => *final(self) == *old(self),
            },
    {
        match self.config.prev_bookmark(self.line_number) {
            Some(b) => {
                proof {
                    crate::config::lemma_bookmark_extremes(
                        self.config.bookmarks@,
                        self.line_number,
                        self.line_number,
                    );
                }
                self.line_number = b;
                self.update_screen();
            },
            None => {},
        }
    }

    /// The text that `span` covers, where its line exists and its columns lie within it.
    pub fn get_text(&self, span: Span) -> (r: Option<String>)
        requires
            self.book.wf(),
        ensures
            r is Some <==> span.0 < self.book.line_count && span.1 <= span.2 <= self.book.text()[
                span.0 as int
            ].len(),
            r matches Some(t) ==> t@ == self.book.text()[span.0 as int].subrange(
                span.1 as int,
                span.2 as int,
            ),
    {
        let (pos, start, end) = span;
        if pos >= self.book.lines.len() {
            return None;
        }
        let chars = chars_of(self.book.lines[pos].as_str());
        assert(chars@ == self.book.text()[pos as int]);
        if start > end || end > chars.len() {
            return None;
        }
        let mut r = String::new();
        crate::text::push_chars(&mut r, &chars, start, end);
        assert(r@ =~= chars@.subrange(start as int, end as int));
        Some(r)
    }

    /// Selects `span`; selecting the span already selected changes nothing.
    pub fn set_selection(&mut self, selection: Span)
        ensures
            old(self).selection == Some(selection) ==> *final(self) == *old(self),
            old(self).selection != Some(selection) ==> *final(self) == (State {
                selection: Some(selection),
                update_screen: true,
                ..*old(self)
            }),
    {
        let same = match self.selection {
            Some(sel) => sel.0 == selection.0 && sel.1 == selection.1 && sel.2 == selection.2,
            None => false,
        };
        if !same {
            self.selection = Some(selection);
            self.update_screen();
        }
    }

    /// The current selection.
    pub fn get_selection(&mut self) -> (r: Option<Span>)
        ensures
            r == old(self).selection,
            *final(self) == *old(self),
    {
        self.selection
    }

    /// Drops the selection, if any.
    pub fn clear_selection(&mut self)
        ensures
            old(self).selection is Some ==> *final(self) == (State {
                selection: None,
                update_screen: true,
                ..*old(self)
            }),
            old(self).selection is None ==> *final(self) == *old(self),
    {
        if self.selection.is_some() {
            self.selection = None;
            self.update_screen();
        }
    }

    /// Drops the definition shown, if any.
    pub fn clear_definition(&mut self)
        ensures
            old(self).definition is Some ==> *final(self) == (State {
                definition: None,
                update_screen: true,
                ..*old(self)
            }),
            old(self).definition is None ==> *final(self) == *old(self),
    {
        if self.definition.is_some() {
            self.definition = None;
            self.update_screen();
        }
    }

    /// Drops the message shown, if any.
    pub fn clear_message(&mut self)
        ensures
            old(self).message is Some ==> *final(self) == (State {
                message: None,
                update_screen: true,
                ..*old(self)
            }),
            old(self).message is None ==> *final(self) == *old(self),
    {
        if self.message.is_some() {
            self.message = None;
            self.update_screen();
        }
    }

    /// Shows `message`.
    pub fn show_message(&mut self, message: &str)
        ensures
            says(final(self).message, message@),
            *final(self) == (State {
                message: final(self).message,
                update_screen: true,
                ..*old(self)
            }),
    {
        self.message = Some(string_of(&chars_of(message)));
        self.update_screen();
    }

    /// Switches focus mode; the setting is kept in the record, which must then be saved.
    pub fn toggle_focus_mode(&mut self)
        ensures
            final(self).config.focus_mode == Some(!old(self).focus_on()),
            says(final(self).message, "(i) Toggled focus mode"@),
            *final(self) == (State {
                config: Config { focus_mode: final(self).config.focus_mode, ..old(self).config },
                message: final(self).message,
                update_screen: true,
                ..*old(self)
            }),
    {
        let on = match self.config.focus_mode {
            Some(b) => b,
            None => false,
        };
        self.config.focus_mode = Some(!on);
        self.show_message("(i) Toggled focus mode");
        self.update_screen();
    }

    /// Whether `line_number` is bookmarked.
    pub fn has_bookmark(&mut self, line_number: usize) -> (r: bool)
        ensures
            r == old(self).config.bookmarks@.contains(line_number),
            *final(self) == *old(self),
    {
        self.config.is_bookmarked(line_number)
    }

    /// Bookmarks `line_number`; true where it was not bookmarked before, and the record must
    /// then be saved.
    pub fn add_bookmark(&mut self, line_number: usize) -> (added: bool)
        requires
            old(self).wf(),
        ensures
            final(self).wf(),
            added == !old(self).config.bookmarks@.contains(line_number),
            !added ==> *final(self) == *old(self),
            added ==> {
                &&& final(self).config.bookmarks@.to_set() == old(
                    self,
                ).config.bookmarks@.to_set().insert(line_number)
                &&& says(final(self).message, "(i) Added bookmark"@)
                &&& *final(self) == (State {
                    config: Config { bookmarks: final(self).config.bookmarks, ..old(self).config },
                    message: final(self).message,
                    update_screen: true,
                    ..*old(self)
                })
            },
    {
        if self.has_bookmark(line_number) {
            return false;
        }
        insert_sorted(&mut self.config.bookmarks, line_number);
        self.show_message("(i) Added bookmark");
        self.update_screen();
        true
    }

    /// Removes the bookmark on `line_number`; true where there was one, and the record must
    /// then be saved.
    pub fn remove_bookmark(&mut self, line_number: usize) -> (removed: bool)
        requires
            old(self).wf(),
        ensures
            final(self).wf(),
            removed == old(self).config.bookmarks@.contains(line_number),
            !removed ==> *final(self) == *old(self),
            removed ==> {
                &&& final(self).config.bookmarks@.to_set() == old(
                    self,
                ).config.bookmarks@.to_set().remove(line_number)
                &&& says(final(self).message, "(i) Removed bookmark"@)
                &&& *final(self) == (State {
                    config: Config { bookmarks: final(self).config.bookmarks, ..old(self).config },
                    message: final(self).message,
                    update_screen: true,
                    ..*old(self)
                })
            },
    {
        if !self.has_bookmark(line_number) {
            return false;
        }
        remove_sorted(&mut self.config.bookmarks, line_number);
        self.show_message("(i) Removed bookmark");
        self.update_screen();
        true
    }

    /// Adds or removes the bookmark on `line_number`; the record must then be saved.
    pub fn toggle_bookmark(&mut self, line_number: usize)
        requires
            old(self).wf(),
        ensures
            final(self).wf(),
            strictly_sorted(final(self).config.bookmarks@),
            final(self).config.bookmarks@.to_set() == if old(self).config.bookmarks@.contains(
                line_number,
            ) {
                old(self).config.bookmarks@.to_set().remove(line_number)
            } else {
                old(self).config.bookmarks@.to_set().insert(line_number)
            },
            says(
                final(self).message,
                if old(self).config.bookmarks@.contains(line_number) {
                    "(i) Removed bookmark"@
                } else {
                    "(i) Added bookmark"@
                },
            ),
            *final(self) == (State {
                config: Config { bookmarks: final(self).config.bookmarks, ..old(self).config },
                message: final(self).message,
                update_screen: true,
                ..*old(self)
            }),
    {
        if self.has_bookmark(line_number) {
            self.remove_bookmark(line_number);
        } else {
            self.add_bookmark(line_number);
        }
    }

    /// Adds or removes the marker `span`; the record must then be saved.
    pub fn toggle_marker(&mut self, span: Span)
        requires
            old(self).wf(),
        ensures
            final(self).wf(),
            final(self).config.markers@ == toggled(old(self).config.markers@, span),
            *final(self) == (State {
                config: Config { markers: final(self).config.markers, ..old(self).config },
                update_screen: true,
                ..*old(self)
            }),
    {
        toggle_span(&mut self.config.markers, span);
        self.update_screen();
    }
}

} // verus!
