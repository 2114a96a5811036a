use vstd::prelude::*;

use crate::codes::Codes;
use crate::config::Span;
use crate::markup::{decode, push_decoded};
use crate::span::OFFSET;
use crate::state::State;
use crate::text::{chars_of, push_char, push_chars};

verus! {

/// The foreground of the current line, and of every line outside focus mode.
pub const BRIGHT: &'static str = "\x1b[38;2;240;240;240m";

/// The foreground of the lines next to the current one in focus mode, and of definitions.
pub const DIM: &'static str = "\x1b[38;2;160;160;160m";

/// The foreground of the other lines in focus mode.
pub const FAINT: &'static str = "\x1b[38;2;100;100;100m";

/// The color of the line number on the current line.
pub const ANCHOR_NUMBER: &'static str = "\x1b[38;2;200;200;0m";

/// The color of the other line numbers.
pub const NUMBER: &'static str = "\x1b[38;2;130;130;130m";

/// The sign of a bookmarked line.
pub const BOOKMARK_SIGN: &'static str = "\x1b[38;2;240;240;240m>>>\x1b[0m";

/// What stands in the sign's place on other lines.
pub const NO_SIGN: &'static str = "   ";

/// Resets every style.
pub const RESET_ALL: &'static str = "\x1b[0m";

/// The width of the line number column.
pub const NUMBER_WIDTH: usize = 5;

/// The digit character of `d`, for `d < 10`.
pub open spec fn digit_of(d: int) -> char {
    if d == 0 {
        '0'
    } else if d == 1 {
        '1'
    } else if d == 2 {
        '2'
    } else if d == 3 {
        '3'
    } else if d == 4 {
        '4'
    } else if d == 5 {
        '5'
    } else if d == 6 {
        '6'
    } else if d == 7 {
        '7'
    } else if d == 8 {
        '8'
    } else {
        '9'
    }
}

/// The decimal digits of `n`, without leading zeros.
pub open spec fn decimal(n: nat) -> Seq<char>
    decreases n,
{
    if n < 10 {
        seq![digit_of(n as int)]
    } else {
        decimal(n / 10).push(digit_of((n % 10) as int))
    }
}

/// `n` spaces.
pub open spec fn spaces(n: int) -> Seq<char> {
    Seq::new(n as nat, |k: int| ' ')
}

/// `t` right-aligned in a field of width `w`; never cut.
pub open spec fn right_aligned(t: Seq<char>, w: int) -> Seq<char> {
    if t.len() < w {
        spaces(w - t.len()) + t
    } else {
        t
    }
}

/// `t` with the span [`start`, `end`) enclosed by the background code `on` and the background
/// reset; unchanged where the span does not lie within `t`.
pub open spec fn marked(t: Seq<char>, start: int, end: int, on: char) -> Seq<char> {
    if 0 <= start <= end <= t.len() {
        t.subrange(0, start) + seq![on] + t.subrange(start, end) + seq![Codes::RESET_BACKGROUND]
            + t.subrange(end, t.len() as int)
    } else {
        t
    }
}

/// `t` with the selection laid over it, if the selection is on line `pos`.
pub open spec fn with_selection(t: Seq<char>, sel: Option<Span>, pos: int) -> Seq<char> {
    match sel {
        Some(span) => if span.0 == pos {
            marked(t, span.1 as int, span.2 as int, Codes::BACKGROUND_SELECTION)
        } else {
            t
        },
        None => t,
    }
}

/// `t` with the first `n` markers of line `pos` laid over it in turn, each at its columns in
/// the text as the earlier ones left it.
pub open spec fn with_markers(t: Seq<char>, ms: Seq<Span>, pos: int, n: int) -> Seq<char>
    decreases n,
{
    if n <= 0 || n > ms.len() {
        t
    } else {
        let u = with_markers(t, ms, pos, n - 1);
        if ms[n - 1].0 == pos {
            marked(u, ms[n - 1].1 as int, ms[n - 1].2 as int, Codes::BACKGROUND_MARKER)
        } else {
            u
        }
    }
}

/// The document line drawn on screen row `i`, if any.
pub open spec fn row_line(s: State, i: int) -> Option<int> {
    if s.line_number + i < OFFSET || s.line_number + i - OFFSET >= s.book.line_count {
        None
    } else {
        Some(s.line_number + i - OFFSET)
    }
}

/// The foreground of screen row `i`: dimmer away from the current row in focus mode.
pub open spec fn line_color(focus: bool, i: int) -> Seq<char> {
    if !focus {
        BRIGHT@
    } else if i + 1 == OFFSET {
        DIM@
    } else if i == OFFSET {
        BRIGHT@
    } else if i == OFFSET + 1 {
        DIM@
    } else {
        FAINT@
    }
}

/// Entry `idx` of a definition as drawn: numbered from one.
pub open spec fn entry_text(idx: int, item: Seq<char>) -> Seq<char> {
    DIM@ + "  "@ + decimal((idx + 1) as nat) + ". "@ + item + RESET_ALL@
}

/// The foreground and the text of document line `pos` on screen row `i`: the line with its
/// selection and markers, decoded; or, below the line of a definition's span, a blank line,
/// the definition's entries, and another blank line in place of the document's lines.
pub open spec fn row_body(s: State, i: int, pos: int) -> (Seq<char>, Seq<char>) {
    let layered = with_markers(
        with_selection(s.book.text()[pos], s.selection, pos),
        s.config.markers@,
        pos,
        s.config.markers@.len() as int,
    );
    let color = line_color(s.focus_on(), i);
    let plain = (color, decode(layered, color));
    match s.definition {
        Some((span, d)) => {
            let row = span.0 as int;
            let n = d.list@.len() as int;
            if pos == row + 1 || pos == row + n + 2 {
                (BRIGHT@, Seq::empty())
            } else if row + 2 <= pos <= row + n + 1 {
                (BRIGHT@, entry_text(pos - row - 2, d.list@[pos - row - 2]@))
            } else {
                plain
            }
        },
        None => plain,
    }
}

/// The padding and gutter of document line `pos` on screen row `i`: the line number (shown on
/// every fifth line and on the current row) and the bookmark sign.
pub open spec fn gutter(s: State, i: int, pos: int) -> Seq<char> {
    let label = if pos % 5 == 0 || i == OFFSET {
        decimal(pos as nat)
    } else {
        Seq::empty()
    };
    spaces(s.pad_left as int) + (if i == OFFSET {
        ANCHOR_NUMBER@
    } else {
        NUMBER@
    }) + right_aligned(label, NUMBER_WIDTH as int) + " "@ + (if s.config.bookmarks@.contains(
        pos as usize,
    ) {
        BOOKMARK_SIGN@
    } else {
        NO_SIGN@
    }) + RESET_ALL@ + " "@
}

/// What screen row `i` shows: none for a row above the first line or below the last.
pub open spec fn row_text(s: State, i: int) -> Option<Seq<char>> {
    match row_line(s, i) {
        Some(pos) => {
            let (color, body) = row_body(s, i, pos);
            Some(gutter(s, i, pos) + color + body + RESET_ALL@)
        },
        None => None,
    }
}

fn digit(d: usize) -> (c: char)
    requires
        d < 10,
    ensures
        c == digit_of(d as int),
{
    if d == 0 {
        '0'
    } else if d == 1 {
        '1'
    } else if d == 2 {
        '2'
    } else if d == 3 {
        '3'
    } else if d == 4 {
        '4'
    } else if d == 5 {
        '5'
    } else if d == 6 {
        '6'
    } else if d == 7 {
        '7'
    } else if d == 8 {
        '8'
    } else {
        '9'
    }
}

/// Appends the decimal digits of `n`.
pub fn push_decimal(out: &mut Vec<char>, n: usize)
    ensures
        final(out)@ == old(out)@ + decimal(n as nat),
    decreases n,
{
    if n >= 10 {
        push_decimal(out, n / 10);
    }
    out.push(digit(n % 10));
    assert(out@ =~= old(out)@ + decimal(n as nat));
}

fn push_spaces(out: &mut String, n: usize)
    ensures
        final(out)@ == old(out)@ + spaces(n as int),
{
    let mut k: usize = 0;
    while k < n
        invariant
            k <= n,
            out@ == old(out)@ + spaces(k as int),
        decreases n - k,
    {
        push_char(out, ' ');
        assert(spaces(k + 1) =~= spaces(k as int).push(' '));
        k = k + 1;
    }
}

/// `t` with the span [`start`, `end`) enclosed by `on` and the background reset.
pub fn mark(t: &Vec<char>, start: usize, end: usize, on: char) -> (r: Vec<char>)
    ensures
        r@ == marked(t@, start as int, end as int, on),
{
    let mut r: Vec<char> = Vec::new();
    if !(start <= end && end <= t.len()) {
        let mut k: usize = 0;
        while k < t.len()
            invariant
                k <= t@.len(),
                r@ == t@.subrange(0, k as int),
            decreases t@.len() - k,
        {
            r.push(t[k]);
            assert(r@ =~= t@.subrange(0, k + 1));
            k = k + 1;
        }
        assert(r@ =~= t@);
        return r;
    }
    let mut k: usize = 0;
    while k < t.len()
        invariant
            k <= t@.len(),
            start <= end <= t@.len(),
            r@ == marked(t@, start as int, end as int, on).subrange(
                0,
                k + (if k > start {
                    1int
                } else {
                    0
                }) + (if k > end {
                    1int
                } else {
                    0
                }),
            ),
        decreases t@.len() - k,
    {
        let ghost m = marked(t@, start as int, end as int, on);
        if k == start {
            r.push(on);
        }
        if k == end {
            r.push(Codes::RESET_BACKGROUND);
        }
        r.push(t[k]);
        assert(r@ =~= m.subrange(
            0,
            k + 1 + (if k + 1 > start {
                1int
            } else {
                0
            }) + (if k + 1 > end {
                1int
            } else {
                0
            }),
        ));
        k = k + 1;
    }
    let ghost m = marked(t@, start as int, end as int, on);
    if start == t.len() {
        r.push(on);
    }
    if end == t.len() {
        r.push(Codes::RESET_BACKGROUND);
    }
    assert(r@ =~= m);
    r
}

impl State {
    /// The foreground of screen row `i`.
    fn color_of_row(&self, i: usize) -> (r: &'static str)
        ensures
            r@ == line_color(self.focus_on(), i as int),
    {
        let focus = match self.config.focus_mode {
            Some(b) => b,
            None => false,
        };
        if !focus {
            BRIGHT
        } else if i == OFFSET - 1 {
            DIM
        } else if i == OFFSET {
            BRIGHT
        } else if i == OFFSET + 1 {
            DIM
        } else {
            FAINT
        }
    }

    /// The text of document line `pos` with the selection and the markers laid over it.
    pub fn layered_line(&self, pos: usize) -> (r: Vec<char>)
        requires
            self.book.wf(),
            pos < self.book.line_count,
        ensures
            r@ == with_markers(
                with_selection(self.book.text()[pos as int], self.selection, pos as int),
                self.config.markers@,
                pos as int,
                self.config.markers@.len() as int,
            ),
    {
        let line = chars_of(self.book.lines[pos].as_str());
        assert(line@ == self.book.text()[pos as int]);
        let mut t = match self.selection {
            Some(span) => if span.0 == pos {
                mark(&line, span.1, span.2, Codes::BACKGROUND_SELECTION)
            } else {
                line
            },
            None => line,
        };
        let mut k: usize = 0;
        while k < self.config.markers.len()
            invariant
                k <= self.config.markers@.len(),
                t@ == with_markers(
                    with_selection(self.book.text()[pos as int], self.selection, pos as int),
                    self.config.markers@,
                    pos as int,
                    k as int,
                ),
            decreases self.config.markers@.len() - k,
        {
            let m = self.config.markers[k];
            if m.0 == pos {
                t = mark(&t, m.1, m.2, Codes::BACKGROUND_MARKER);
            }
            k = k + 1;
        }
        t
    }

    /// Appends the foreground and text of document line `pos` on screen row `i`.
    fn push_body(&self, out: &mut String, i: usize, pos: usize)
        requires
            self.book.wf(),
            pos < self.book.line_count,
        ensures
            final(out)@ == old(out)@ + row_body(*self, i as int, pos as int).0 + row_body(
                *self,
                i as int,
                pos as int,
            ).1,
    {
        let ghost body = row_body(*self, i as int, pos as int);
        match &self.definition {
            Some((span, d)) => {
                let row = span.0;
                let n = d.list.len();
                let blank_before = pos >= 1 && pos - 1 == row;
                let below = pos >= 2 && pos - 2 >= row;
                let blank_after = below && pos - 2 - row == n;
                let entry = below && pos - 2 - row < n;
                if blank_before || blank_after {
                    out.append(BRIGHT);
                    assert(out@ =~= old(out)@ + body.0 + body.1);
                    return;
                }
                if entry {
                    let idx = pos - 2 - row;
                    out.append(BRIGHT);
                    out.append(DIM);
                    out.append("  ");
                    let mut digits: Vec<char> = Vec::new();
                    push_decimal(&mut digits, idx + 1);
                    push_chars(out, &digits, 0, digits.len());
                    out.append(". ");
                    out.append(d.list[idx].as_str());
                    out.append(RESET_ALL);
                    assert(digits@.subrange(0, digits@.len() as int) =~= decimal((idx + 1) as nat));
                    assert(out@ =~= old(out)@ + body.0 + body.1);
                    return;
                }
            },
            None => {},
        }
        let color = self.color_of_row(i);
        let layered = self.layered_line(pos);
        out.append(color);
        push_decoded(out, &layered, color);
        assert(out@ =~= old(out)@ + body.0 + body.1);
    }

    /// What screen row `i` shows, as terminal text; none for a row above the first line or
    /// below the last, which stays blank.
    pub fn compose_row(&self, i: usize) -> (r: Option<String>)
        requires
            self.wf(),
        ensures
            r matches Some(t) ==> row_text(*self, i as int) == Some(t@),
            r is None ==> row_text(*self, i as int) is None,
    {
        let count = self.book.line_count;
        let pos = if i >= OFFSET {
            let down = i - OFFSET;
            if count == 0 || down >= count - self.line_number {
                return None;
            }
            self.line_number + down
        } else {
            let up = OFFSET - i;
            if self.line_number < up || self.line_number - up >= count {
                return None;
            }
            self.line_number - up
        };
        assert(row_line(*self, i as int) == Some(pos as int));
        let mut out = String::new();
        push_spaces(&mut out, self.pad_left);
        if i == OFFSET {
            out.append(ANCHOR_NUMBER);
        } else {
            out.append(NUMBER);
        }
        let mut label: Vec<char> = Vec::new();
        if pos % 5 == 0 || i == OFFSET {
            push_decimal(&mut label, pos);
        }
        assert(label@ =~= if pos % 5 == 0 || i == OFFSET {
            decimal(pos as nat)
        } else {
            Seq::empty()
        });
        if label.len() < NUMBER_WIDTH {
            push_spaces(&mut out, NUMBER_WIDTH - label.len());
        }
        push_chars(&mut out, &label, 0, label.len());
        assert(label@.subrange(0, label@.len() as int) =~= label@);
        out.append(" ");
        if self.config.is_bookmarked(pos) {
            out.append(BOOKMARK_SIGN);
        } else {
            out.append(NO_SIGN);
        }
        out.append(RESET_ALL);
        out.append(" ");
        let ghost head = out@;
        assert(head =~= gutter(*self, i as int, pos as int));
        self.push_body(&mut out, i, pos);
        out.append(RESET_ALL);
        assert(out@ =~= row_text(*self, i as int)->0);
        Some(out)
    }
}

} // verus!
