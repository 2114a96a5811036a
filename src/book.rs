use vstd::prelude::*;

use crate::markup::{encode_emphasis, encode_emphasis_chars};
use crate::text::{
    chars_of, contains_chars, contains_seq, join, join_lines, lines_of, split_lines, string_of,
    views,
};

verus! {

/// The line that opens the body of a licensed text.
pub const LICENSE_START: &'static str = "START OF THE PROJECT GUTENBERG";

/// The line that closes the body of a licensed text.
pub const LICENSE_END: &'static str = "END OF THE PROJECT GUTENBERG";

/// The nominal width of a document line, used to center it on the screen.
pub const LINE_WIDTH: usize = 80;

/// The index of the first line at or after `from` that contains `pat`, or the number of lines.
pub open spec fn first_line_with(ls: Seq<Seq<char>>, pat: Seq<char>, from: int) -> int
    decreases ls.len() - from,
{
    if from >= ls.len() {
        ls.len() as int
    } else if contains_seq(ls[from], pat) {
        from
    } else {
        first_line_with(ls, pat, from + 1)
    }
}

/// The index of the first line holding the start marker.
pub open spec fn start_line(ls: Seq<Seq<char>>) -> int {
    first_line_with(ls, LICENSE_START@, 0)
}

/// The index of the first line holding the end marker after the start line.
pub open spec fn end_line(ls: Seq<Seq<char>>) -> int {
    first_line_with(ls, LICENSE_END@, start_line(ls) + 1)
}

/// The text with its license block removed: where a line holds the start marker and a later
/// line holds the end marker, only the lines strictly between the first such pair remain;
/// otherwise the text is left as it is.
pub open spec fn strip_license(s: Seq<char>) -> Seq<char> {
    let ls = lines_of(s);
    if start_line(ls) < ls.len() && end_line(ls) < ls.len() {
        join_lines(ls.subrange(start_line(ls) + 1, end_line(ls)))
    } else {
        s
    }
}

pub proof fn lemma_first_line_bounds(ls: Seq<Seq<char>>, pat: Seq<char>, from: int)
    requires
        0 <= from,
    ensures
        from <= ls.len() ==> from <= first_line_with(ls, pat, from) <= ls.len(),
        from > ls.len() ==> first_line_with(ls, pat, from) == ls.len(),
    decreases ls.len() - from,
{
    if from < ls.len() {
        lemma_first_line_bounds(ls, pat, from + 1);
    }
}

/// Without a start marker line followed by an end marker line the text is left as it is.
/// With one, what remains is the lines strictly between the first start marker line and the
/// first end marker line after it: both marker lines and everything outside them are dropped,
/// and no remaining line holds the end marker.
pub proof fn lemma_license_stripping(s: Seq<char>)
    ensures
        ({
            let ls = lines_of(s);
            let st = start_line(ls);
            let e = end_line(ls);
            &&& (st >= ls.len() || e >= ls.len()) ==> strip_license(s) == s
            &&& (st < ls.len() && e < ls.len()) ==> {
                &&& 0 <= st < e < ls.len()
                &&& contains_seq(ls[st], LICENSE_START@)
                &&& contains_seq(ls[e], LICENSE_END@)
                &&& forall|k: int| 0 <= k < st ==> !contains_seq(#[trigger] ls[k], LICENSE_START@)
                &&& forall|k: int| st < k < e ==> !contains_seq(#[trigger] ls[k], LICENSE_END@)
                &&& strip_license(s) == join_lines(ls.subrange(st + 1, e))
            }
        }),
{
    let ls = lines_of(s);
    lemma_first_line_bounds(ls, LICENSE_START@, 0);
    let st = start_line(ls);
    if st < ls.len() {
        lemma_first_line_bounds(ls, LICENSE_END@, st + 1);
        let e = end_line(ls);
        lemma_first_line_holds(ls, LICENSE_START@, 0);
        assert forall|k: int| 0 <= k < st implies !contains_seq(
            #[trigger] ls[k],
            LICENSE_START@,
        ) by {
            lemma_first_line_skips(ls, LICENSE_START@, 0, k);
        }
        if e < ls.len() {
            lemma_first_line_holds(ls, LICENSE_END@, st + 1);
            assert forall|k: int| st < k < e implies !contains_seq(
                #[trigger] ls[k],
                LICENSE_END@,
            ) by {
                lemma_first_line_skips(ls, LICENSE_END@, st + 1, k);
            }
        }
    }
}

proof fn lemma_first_line_skips(ls: Seq<Seq<char>>, pat: Seq<char>, from: int, k: int)
    requires
        0 <= from <= k < first_line_with(ls, pat, from),
    ensures
        !contains_seq(ls[k], pat),
    decreases ls.len() - from,
{
    if from < k {
        lemma_first_line_skips(ls, pat, from + 1, k);
    }
}

proof fn lemma_first_line_holds(ls: Seq<Seq<char>>, pat: Seq<char>, from: int)
    requires
        0 <= from,
        first_line_with(ls, pat, from) < ls.len(),
    ensures
        contains_seq(ls[first_line_with(ls, pat, from)], pat),
    decreases ls.len() - from,
{
    if from < ls.len() && !contains_seq(ls[from], pat) {
        lemma_first_line_holds(ls, pat, from + 1);
    }
}

fn copy_chars(v: &Vec<char>) -> (r: Vec<char>)
    ensures
        r@ == v@,
{
    let mut r: Vec<char> = Vec::new();
    let mut k: usize = 0;
    while k < v.len()
        invariant
            k <= v@.len(),
            r@ == v@.subrange(0, k as int),
        decreases v@.len() - k,
    {
        r.push(v[k]);
        assert(r@ =~= v@.subrange(0, k + 1));
        k = k + 1;
    }
    assert(r@ =~= v@);
    r
}

/// The index of the first line at or after `from` that contains `pat`, or the number of lines.
fn find_line(lines: &Vec<Vec<char>>, pat: &Vec<char>, from: usize) -> (r: usize)
    requires
        from <= lines@.len(),
    ensures
        r == first_line_with(views(lines@), pat@, from as int),
{
    let ghost ls = views(lines@);
    let mut i = from;
    while i < lines.len()
        invariant
            from <= i <= lines@.len(),
            ls == views(lines@),
            first_line_with(ls, pat@, from as int) == first_line_with(ls, pat@, i as int),
        ensures
            first_line_with(ls, pat@, from as int) == i,
        decreases lines@.len() - i,
    {
        assert(ls[i as int] == lines@[i as int]@);
        if contains_chars(&lines[i], pat) {
            break;
        }
        i = i + 1;
    }
    i
}

/// The characters of `content` with its license block removed.
pub fn strip_license_chars(content: &Vec<char>) -> (r: Vec<char>)
    ensures
        r@ == strip_license(content@),
{
    let start = chars_of(LICENSE_START);
    let end = chars_of(LICENSE_END);
    let lines = split_lines(content);
    let ghost ls = views(lines@);
    assert(ls.len() == lines@.len());
    let st = find_line(&lines, &start, 0);
    if st >= lines.len() {
        return copy_chars(content);
    }
    let e = find_line(&lines, &end, st + 1);
    if e >= lines.len() {
        return copy_chars(content);
    }
    proof {
        lemma_first_line_bounds(ls, end@, st + 1);
    }
    let mut kept: Vec<Vec<char>> = Vec::new();
    let mut i: usize = st + 1;
    while i < e
        invariant
            st + 1 <= i <= e < lines@.len(),
            ls == views(lines@),
            views(kept@) == ls.subrange(st + 1, i as int),
        decreases e - i,
    {
        let copy = copy_chars(&lines[i]);
        let ghost before = kept@;
        kept.push(copy);
        assert(views(kept@) =~= views(before).push(ls[i as int]));
        assert(views(kept@) =~= ls.subrange(st + 1, i + 1));
        i = i + 1;
    }
    join(&kept)
}

/// A document: its lines after license removal and emphasis encoding.
pub struct Book {
    pub lines: Vec<String>,
    pub line_count: usize,
    pub line_width: usize,
}

impl Book {
    /// The characters of each line.
    pub open spec fn text(&self) -> Seq<Seq<char>> {
        self.lines@.map_values(|l: String| l@)
    }

    /// The line count matches the lines held.
    pub open spec fn wf(&self) -> bool {
        self.line_count == self.lines@.len()
    }

    /// The document whose source text is `content`.
    pub fn from_content(content: &str) -> (r: Book)
        ensures
            r.wf(),
            r.text() == lines_of(encode_emphasis(strip_license(content@))),
            r.line_width == LINE_WIDTH,
    {
        let raw = chars_of(content);
        let body = strip_license_chars(&raw);
        let encoded = encode_emphasis_chars(&body);
        let split = split_lines(&encoded);
        let mut lines: Vec<String> = Vec::new();
        let mut i: usize = 0;
        while i < split.len()
            invariant
                i <= split@.len(),
                lines@.map_values(|l: String| l@) == views(split@).subrange(0, i as int),
            decreases split@.len() - i,
        {
            let ghost before = lines@;
            let line = string_of(&split[i]);
            lines.push(line);
            assert(lines@ == before.push(line));
            assert(lines@.map_values(|l: String| l@) =~= before.map_values(|l: String| l@).push(
                line@,
            ));
            assert(lines@.map_values(|l: String| l@) =~= views(split@).subrange(0, i + 1));
            i = i + 1;
        }
        assert(views(split@).subrange(0, split@.len() as int) =~= views(split@));
        let line_count = lines.len();
        Book { lines, line_count, line_width: LINE_WIDTH }
    }

    /// `content` with its license block removed.
    pub fn remove_license(content: &str) -> (r: String)
        ensures
            r@ == strip_license(content@),
    {
        let raw = chars_of(content);
        string_of(&strip_license_chars(&raw))
    }

    /// `content` with underscore-delimited emphasis turned into italic code points.
    pub fn highlight_italic(content: &str) -> (r: String)
        ensures
            r@ == encode_emphasis(content@),
    {
        let raw = chars_of(content);
        string_of(&encode_emphasis_chars(&raw))
    }
}

} // verus!
