use vstd::prelude::*;

use crate::markup::{kept_indices, kept_positions, lemma_kept_positions, strip_codes, strip_styles};
use crate::config::Span;
use crate::state::State;
use crate::text::chars_of;

verus! {

/// The row of the screen on which the current line is drawn.
pub const OFFSET: usize = 15;

/// The screen columns taken, right of the padding, by the line number and bookmark gutter.
pub const GUTTER: usize = 10;

/// Whether `c` has the Unicode Alphabetic property, as `char::is_alphabetic` decides.
pub uninterp spec fn alphabetic(c: char) -> bool;

/// Whether `c` is in a Unicode number category, as `char::is_numeric` decides.
pub uninterp spec fn numeric(c: char) -> bool;

/// Relies on `char::is_alphabetic`: whether the character has the Alphabetic property.
#[verifier::external_body]
fn is_alphabetic(c: char) -> (r: bool)
    ensures
        r == alphabetic(c),
{
    c.is_alphabetic()
}

/// Relies on `char::is_numeric`: whether the character is in a number category.
#[verifier::external_body]
fn is_numeric(c: char) -> (r: bool)
    ensures
        r == numeric(c),
{
    c.is_numeric()
}

/// Where the run of `true` flags that reaches up to index `i` begins.
pub open spec fn run_start(flags: Seq<bool>, i: int) -> int
    decreases i,
{
    if i <= 0 || i > flags.len() {
        0
    } else if !flags[i - 1] {
        i
    } else {
        run_start(flags, i - 1)
    }
}

/// Where the run of `true` flags that starts at index `i` ends (exclusive).
pub open spec fn run_end(flags: Seq<bool>, i: int) -> int
    decreases flags.len() - i,
{
    if i < 0 || i >= flags.len() {
        flags.len() as int
    } else if !flags[i] {
        i
    } else {
        run_end(flags, i + 1)
    }
}

/// Given which characters are digits and which are letters, the maximal run of digits, or else
/// of letters, around column `col`; none where the character there is neither.
pub open spec fn span_from_flags(digits: Seq<bool>, letters: Seq<bool>, col: int) -> Option<
    (int, int),
> {
    if col < 0 || col >= digits.len() {
        None
    } else if digits[col] {
        Some((run_start(digits, col), run_end(digits, col)))
    } else if letters[col] {
        Some((run_start(letters, col), run_end(letters, col)))
    } else {
        None
    }
}

/// The digit flags of the characters of `t`.
pub open spec fn digit_flags(t: Seq<char>) -> Seq<bool> {
    t.map_values(|c: char| numeric(c))
}

/// The letter flags of the characters of `t`.
pub open spec fn letter_flags(t: Seq<char>) -> Seq<bool> {
    t.map_values(|c: char| alphabetic(c))
}

/// The maximal run of digits, or else of letters, around column `col` of `t`; none where the
/// character there is neither.
pub open spec fn word_span_of(t: Seq<char>, col: int) -> Option<(int, int)> {
    span_from_flags(digit_flags(t), letter_flags(t), col)
}

/// The document line and text column under the screen cell (`col`, `row`): rows above the
/// first line and columns left of the text resolve to none.
pub open spec fn click_target(s: State, col: usize, row: usize) -> Option<(int, int)> {
    if s.line_number + row < OFFSET || col < s.pad_left + 8 {
        None
    } else {
        let c = col - s.pad_left - GUTTER;
        Some((s.line_number + row - OFFSET, if c < 0 { 0 } else { c }))
    }
}

/// The span that a click on (`col`, `row`) selects, if any: the run is found in the line as it
/// is shown, without its style code points, and its ends are taken back to columns of the line
/// itself, from its first character to just after its last.
pub open spec fn clicked_span(s: State, col: usize, row: usize) -> Option<Span> {
    match click_target(s, col, row) {
        Some((pos, c)) => if pos < s.book.line_count {
            let line = s.book.text()[pos];
            match word_span_of(strip_codes(line), c) {
                Some((a, b)) => Some(
                    (
                        pos as usize,
                        kept_positions(line)[a],
                        (kept_positions(line)[b - 1] + 1) as usize,
                    ),
                ),
                None => None,
            }
        } else {
            None
        },
        None => None,
    }
}

/// The state after a click on (`col`, `row`): the span under it becomes the selection, and the
/// screen is redrawn only where the selection changed.
pub open spec fn after_click(s: State, col: usize, row: usize) -> State {
    match clicked_span(s, col, row) {
        Some(span) => if s.selection == Some(span) {
            s
        } else {
            State { selection: Some(span), update_screen: true, ..s }
        },
        None => s,
    }
}

/// A second click on the same cell changes nothing: selecting is idempotent.
pub proof fn lemma_click_twice(s: State, col: usize, row: usize)
    ensures
        after_click(after_click(s, col, row), col, row) == after_click(s, col, row),
{
    let once = after_click(s, col, row);
    assert(click_target(once, col, row) == click_target(s, col, row));
    assert(clicked_span(once, col, row) == clicked_span(s, col, row));
}

proof fn lemma_run_bounds(flags: Seq<bool>, i: int)
    requires
        0 <= i <= flags.len(),
    ensures
        0 <= run_start(flags, i) <= i,
        i <= run_end(flags, i) <= flags.len(),
    decreases flags.len() - i,
{
    lemma_run_start_bounds(flags, i);
    if i < flags.len() {
        lemma_run_bounds(flags, i + 1);
    }
}

proof fn lemma_run_start_bounds(flags: Seq<bool>, i: int)
    requires
        0 <= i <= flags.len(),
    ensures
        0 <= run_start(flags, i) <= i,
    decreases i,
{
    if i > 0 {
        lemma_run_start_bounds(flags, i - 1);
    }
}

/// The run of `true` flags around index `col`, whose flag must be set.
fn run_around(flags: &Vec<bool>, col: usize) -> (r: (usize, usize))
    requires
        col < flags@.len(),
        flags@[col as int],
    ensures
        r.0 == run_start(flags@, col as int),
        r.1 == run_end(flags@, col as int),
        r.0 <= col < r.1 <= flags@.len(),
{
    proof {
        lemma_run_bounds(flags@, col as int);
        lemma_run_bounds(flags@, col + 1);
    }
    let mut start = col;
    while start > 0
        invariant
            start <= col < flags@.len(),
            run_start(flags@, col as int) == run_start(flags@, start as int),
        ensures
            run_start(flags@, col as int) == start,
        decreases start,
    {
        if !flags[start - 1] {
            break;
        }
        start = start - 1;
    }
    let mut end = col;
    while end < flags.len()
        invariant
            col <= end <= flags@.len(),
            run_end(flags@, col as int) == run_end(flags@, end as int),
        ensures
            run_end(flags@, col as int) == end,
        decreases flags@.len() - end,
    {
        if !flags[end] {
            break;
        }
        end = end + 1;
    }
    (start, end)
}

/// Given which characters are digits and which are letters, the maximal run of digits, or else
/// of letters, around column `col`, as (start, end) with the end exclusive; none where the
/// character there is neither.
pub fn pick_span(digits: &Vec<bool>, letters: &Vec<bool>, col: usize) -> (r: Option<(usize, usize)>)
    requires
        digits@.len() == letters@.len(),
    ensures
        r matches Some(p) ==> span_from_flags(digits@, letters@, col as int) == Some(
            (p.0 as int, p.1 as int),
        ),
        r is None ==> span_from_flags(digits@, letters@, col as int) is None,
        r matches Some(p) ==> p.0 <= col < p.1 <= digits@.len(),
{
    if col >= digits.len() {
        None
    } else if digits[col] {
        Some(run_around(digits, col))
    } else if letters[col] {
        Some(run_around(letters, col))
    } else {
        None
    }
}

/// The maximal run of digits, or else of letters, around column `col` of `text`, as
/// (start, end) with the end exclusive; none where the character there is neither.
pub fn word_span(text: &Vec<char>, col: usize) -> (r: Option<(usize, usize)>)
    ensures
        r matches Some(p) ==> word_span_of(text@, col as int) == Some((p.0 as int, p.1 as int)),
        r is None ==> word_span_of(text@, col as int) is None,
        r matches Some(p) ==> p.0 <= col < p.1 <= text@.len(),
{
    let mut digits: Vec<bool> = Vec::new();
    let mut letters: Vec<bool> = Vec::new();
    let mut i: usize = 0;
    while i < text.len()
        invariant
            i <= text@.len(),
            digits@ == digit_flags(text@).subrange(0, i as int),
            letters@ == letter_flags(text@).subrange(0, i as int),
        decreases text@.len() - i,
    {
        digits.push(is_numeric(text[i]));
        letters.push(is_alphabetic(text[i]));
        assert(digits@ =~= digit_flags(text@).subrange(0, i + 1));
        assert(letters@ =~= letter_flags(text@).subrange(0, i + 1));
        i = i + 1;
    }
    assert(digits@ =~= digit_flags(text@));
    assert(letters@ =~= letter_flags(text@));
    pick_span(&digits, &letters, col)
}

impl State {
    /// The document line and text column under the screen cell (`col`, `row`).
    pub fn click_position(&self, col: usize, row: usize) -> (r: Option<(usize, usize)>)
        requires
            self.wf(),
        ensures
            r matches Some(p) ==> click_target(*self, col, row) == Some((p.0 as int, p.1 as int))
                && p.0 < self.book.line_count,
            r is None ==> match click_target(*self, col, row) {
                Some((pos, _)) => pos >= self.book.line_count,
                None => true,
            },
    {
        if col < self.pad_left || col - self.pad_left < 8 {
            return None;
        }
        let inner = col - self.pad_left;
        let c = if inner >= GUTTER {
            inner - GUTTER
        } else {
            0
        };
        let count = self.book.line_count;
        if count == 0 {
            return None;
        }
        let pos = if row >= OFFSET {
            let down = row - OFFSET;
            if down >= count - self.line_number {
                return None;
            }
            self.line_number + down
        } else {
            let up = OFFSET - row;
            if self.line_number < up {
                return None;
            }
            self.line_number - up
        };
        Some((pos, c))
    }

    /// Selects the run of letters or digits under the screen cell (`col`, `row`), measured in
    /// the line's text without its style code points; nothing changes where there is none, or
    /// where it is already the selection.
    pub fn select_at(&mut self, col: usize, row: usize)
        requires
            old(self).wf(),
        ensures
            final(self).wf(),
            *final(self) == after_click(*old(self), col, row),
    {
        match self.click_position(col, row) {
            Some((pos, c)) => {
                let line = chars_of(self.book.lines[pos].as_str());
                assert(line@ == self.book.text()[pos as int]);
                let text = strip_styles(&line);
                let kept = kept_indices(&line);
                proof {
                    lemma_kept_positions(line@);
                }
                match word_span(&text, c) {
                    Some((a, b)) => {
                        let start = kept[a];
                        let end = kept[b - 1] + 1;
                        self.set_selection((pos, start, end));
                    },
                    None => {},
                }
            },
            None => {},
        }
    }
}

} // verus!
