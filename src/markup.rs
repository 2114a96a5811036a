use vstd::prelude::*;

use crate::codes::{is_code, Codes};
use crate::text::push_char;

verus! {

/// The characters with the Unicode White_Space property.
pub open spec fn is_space(c: char) -> bool {
    ('\u{9}' <= c && c <= '\u{d}') || c == ' ' || c == '\u{85}' || c == '\u{a0}' || c == '\u{1680}'
        || ('\u{2000}' <= c && c <= '\u{200a}') || c == '\u{2028}' || c == '\u{2029}'
        || c == '\u{202f}' || c == '\u{205f}' || c == '\u{3000}'
}

/// Whether `c` is white space, as `is_space` says.
pub fn is_white_space(c: char) -> (r: bool)
    ensures
        r == is_space(c),
{
    ('\u{9}' <= c && c <= '\u{d}') || c == ' ' || c == '\u{85}' || c == '\u{a0}' || c == '\u{1680}'
        || ('\u{2000}' <= c && c <= '\u{200a}') || c == '\u{2028}' || c == '\u{2029}'
        || c == '\u{202f}' || c == '\u{205f}' || c == '\u{3000}'
}

/// One step of the emphasis encoder: from the flags `open` (inside an emphasised run) and
/// `pending` (emphasis must resume at the next non-space character) and the input character `c`,
/// the new flags and the characters emitted.
pub open spec fn emphasis_step(open: bool, pending: bool, c: char) -> (bool, bool, Seq<char>) {
    if c == '_' {
        (!open, false, if !open { seq![Codes::ITALIC] } else { seq![Codes::RESET_ITALIC] })
    } else {
        let breaks = c == '\n' && open;
        let close = if breaks { seq![Codes::RESET_ITALIC] } else { Seq::empty() };
        let waiting = pending || breaks;
        if !is_space(c) && waiting {
            (open, false, close + seq![Codes::ITALIC, c])
        } else {
            (open, waiting, close + seq![c])
        }
    }
}

/// The encoder's flags and output after reading all of `s`.
pub open spec fn emphasis_run(s: Seq<char>) -> (bool, bool, Seq<char>)
    decreases s.len(),
{
    if s.len() == 0 {
        (false, false, Seq::empty())
    } else {
        let (open, pending, out) = emphasis_run(s.drop_last());
        let (open2, pending2, emitted) = emphasis_step(open, pending, s.last());
        (open2, pending2, out + emitted)
    }
}

/// Raw text with underscore-delimited emphasis turned into italic code points.
pub open spec fn encode_emphasis(s: Seq<char>) -> Seq<char> {
    emphasis_run(s).2
}

/// The terminal sequence that the code point `c` stands for; any other character stands
/// for itself. `color` is the foreground sequence of the line being drawn.
pub open spec fn expand(c: char, color: Seq<char>) -> Seq<char> {
    if c == Codes::RESET {
        "\x1b[0m"@
    } else if c == Codes::ITALIC {
        "\x1b[3m"@
    } else if c == Codes::RESET_ITALIC {
        "\x1b[23m"@
    } else if c == Codes::UNDERLINE {
        "\x1b[4m"@
    } else if c == Codes::RESET_UNDERLINE {
        "\x1b[24m"@
    } else if c == Codes::RESET_FOREGROUND {
        "\x1b[39m"@
    } else if c == Codes::FOREGROUND_DEFAULT {
        color
    } else if c == Codes::RESET_BACKGROUND {
        "\x1b[49m"@ + color
    } else if c == Codes::BACKGROUND_MARKER {
        "\x1b[48;2;90;90;0m"@
    } else if c == Codes::BACKGROUND_SELECTION {
        "\x1b[48;2;100;100;100m"@ + "\x1b[38;2;240;240;240m"@
    } else {
        seq![c]
    }
}

/// A line with every code point replaced by its terminal sequence.
pub open spec fn decode(s: Seq<char>, color: Seq<char>) -> Seq<char>
    decreases s.len(),
{
    if s.len() == 0 {
        Seq::empty()
    } else {
        decode(s.drop_last(), color) + expand(s.last(), color)
    }
}

/// A line without its code points.
pub open spec fn strip_codes(s: Seq<char>) -> Seq<char>
    decreases s.len(),
{
    if s.len() == 0 {
        Seq::empty()
    } else if is_code(s.last()) {
        strip_codes(s.drop_last())
    } else {
        strip_codes(s.drop_last()).push(s.last())
    }
}

/// For each character that `strip_codes` keeps, its index in `s`.
pub open spec fn kept_positions(s: Seq<char>) -> Seq<usize>
    decreases s.len(),
{
    if s.len() == 0 {
        Seq::empty()
    } else if is_code(s.last()) {
        kept_positions(s.drop_last())
    } else {
        kept_positions(s.drop_last()).push((s.len() - 1) as usize)
    }
}

/// The kept positions match the kept characters one for one, each an index of `s` that holds
/// that character.
pub proof fn lemma_kept_positions(s: Seq<char>)
    requires
        s.len() <= usize::MAX,
    ensures
        kept_positions(s).len() == strip_codes(s).len(),
        forall|k: int|
            0 <= k < kept_positions(s).len() ==> #[trigger] kept_positions(s)[k] < s.len()
                && s[kept_positions(s)[k] as int] == strip_codes(s)[k],
    decreases s.len(),
{
    if s.len() > 0 {
        lemma_kept_positions(s.drop_last());
    }
}

/// Whether `s` holds neither an underscore nor a style code point.
pub open spec fn plain(s: Seq<char>) -> bool {
    forall|i: int| 0 <= i < s.len() ==> #[trigger] s[i] != '_' && !is_code(s[i])
}

proof fn lemma_run_plain(x: Seq<char>, y: Seq<char>)
    requires
        !emphasis_run(x).1,
        plain(y),
        emphasis_run(x).0 ==> forall|i: int| 0 <= i < y.len() ==> #[trigger] y[i] != '\n',
    ensures
        emphasis_run(x + y) == (emphasis_run(x).0, false, emphasis_run(x).2 + y),
    decreases y.len(),
{
    if y.len() > 0 {
        lemma_run_plain(x, y.drop_last());
        assert((x + y).drop_last() =~= x + y.drop_last());
        assert(y.last() == y[y.len() - 1]);
        assert(emphasis_run(x).2 + y.drop_last() + seq![y.last()] =~= emphasis_run(x).2 + y);
    }
}

proof fn lemma_run_underscore(x: Seq<char>)
    ensures
        emphasis_run(x + seq!['_']) == (
            !emphasis_run(x).0,
            false,
            emphasis_run(x).2 + if !emphasis_run(x).0 {
                seq![Codes::ITALIC]
            } else {
                seq![Codes::RESET_ITALIC]
            },
        ),
{
    assert((x + seq!['_']).drop_last() =~= x);
}

proof fn lemma_decode_concat(x: Seq<char>, y: Seq<char>, color: Seq<char>)
    ensures
        decode(x + y, color) == decode(x, color) + decode(y, color),
    decreases y.len(),
{
    if y.len() == 0 {
        assert(x + y =~= x);
        assert(decode(x, color) + decode(y, color) =~= decode(x, color));
    } else {
        lemma_decode_concat(x, y.drop_last(), color);
        assert((x + y).drop_last() =~= x + y.drop_last());
        assert((x + y).last() == y.last());
        assert(decode(x + y, color) =~= decode(x, color) + decode(y, color));
    }
}

proof fn lemma_decode_plain(y: Seq<char>, color: Seq<char>)
    requires
        plain(y),
    ensures
        decode(y, color) == y,
    decreases y.len(),
{
    if y.len() > 0 {
        assert(plain(y.drop_last()));
        lemma_decode_plain(y.drop_last(), color);
        assert(y.last() == y[y.len() - 1]);
        assert(y.drop_last() + seq![y.last()] =~= y);
    }
}

/// An underscore-delimited word round-trips to exactly one italic-on sequence right before it
/// and one italic-off sequence right after it, with the surrounding text unchanged, wherever
/// the text holds no other underscore or style code point and the word no line break.
pub proof fn lemma_emphasis_round_trip(a: Seq<char>, w: Seq<char>, b: Seq<char>, color: Seq<char>)
    requires
        plain(a),
        plain(w),
        plain(b),
        forall|i: int| 0 <= i < w.len() ==> #[trigger] w[i] != '\n',
    ensures
        decode(encode_emphasis(a + seq!['_'] + w + seq!['_'] + b), color) == a + "\x1b[3m"@ + w
            + "\x1b[23m"@ + b,
{
    let e: Seq<char> = Seq::empty();
    assert(e + a =~= a);
    lemma_run_plain(e, a);
    lemma_run_underscore(a);
    let x1 = a + seq!['_'];
    lemma_run_plain(x1, w);
    let x2 = x1 + w;
    lemma_run_underscore(x2);
    let x3 = x2 + seq!['_'];
    lemma_run_plain(x3, b);
    assert(a + seq!['_'] + w + seq!['_'] + b =~= x3 + b);
    let it = seq![Codes::ITALIC];
    let ri = seq![Codes::RESET_ITALIC];
    let out = a + it + w + ri + b;
    assert(encode_emphasis(x3 + b) =~= out);
    lemma_decode_concat(a + it + w + ri, b, color);
    lemma_decode_concat(a + it + w, ri, color);
    lemma_decode_concat(a + it, w, color);
    lemma_decode_concat(a, it, color);
    lemma_decode_plain(a, color);
    lemma_decode_plain(w, color);
    lemma_decode_plain(b, color);
    assert(seq![Codes::ITALIC].drop_last() =~= Seq::<char>::empty());
    assert(seq![Codes::RESET_ITALIC].drop_last() =~= Seq::<char>::empty());
    assert(it.last() == Codes::ITALIC);
    assert(expand(Codes::ITALIC, color) == "\x1b[3m"@);
    assert(decode(it, color) == decode(it.drop_last(), color) + expand(it.last(), color));
    assert(decode(it, color) =~= "\x1b[3m"@);
    assert(decode(ri, color) =~= "\x1b[23m"@);
}

/// Turns underscore-delimited emphasis in `content` into italic code points.
pub fn encode_emphasis_chars(content: &Vec<char>) -> (r: Vec<char>)
    ensures
        r@ == encode_emphasis(content@),
{
    let mut open = false;
    let mut pending = false;
    let mut out: Vec<char> = Vec::new();
    let mut i: usize = 0;
    while i < content.len()
        invariant
            i <= content@.len(),
            (open, pending, out@) == emphasis_run(content@.subrange(0, i as int)),
        decreases content@.len() - i,
    {
        let c = content[i];
        assert(content@.subrange(0, i + 1).drop_last() =~= content@.subrange(0, i as int));
        let ghost before = out@;
        if c == '_' {
            open = !open;
            pending = false;
            if open {
                out.push(Codes::ITALIC);
            } else {
                out.push(Codes::RESET_ITALIC);
            }
        } else {
            if c == '\n' && open {
                pending = true;
                out.push(Codes::RESET_ITALIC);
            }
            if !is_white_space(c) && pending {
                pending = false;
                out.push(Codes::ITALIC);
            }
            out.push(c);
        }
        assert(out@ =~= before + emphasis_step(
            emphasis_run(content@.subrange(0, i as int)).0,
            emphasis_run(content@.subrange(0, i as int)).1,
            c,
        ).2);
        i = i + 1;
    }
    assert(content@.subrange(0, content@.len() as int) =~= content@);
    out
}

/// Appends the terminal sequence that `c` stands for.
fn push_expanded(out: &mut String, c: char, color: &str)
    ensures
        final(out)@ == old(out)@ + expand(c, color@),
{
    if c == Codes::RESET {
        out.append("\x1b[0m");
    } else if c == Codes::ITALIC {
        out.append("\x1b[3m");
    } else if c == Codes::RESET_ITALIC {
        out.append("\x1b[23m");
    } else if c == Codes::UNDERLINE {
        out.append("\x1b[4m");
    } else if c == Codes::RESET_UNDERLINE {
        out.append("\x1b[24m");
    } else if c == Codes::RESET_FOREGROUND {
        out.append("\x1b[39m");
    } else if c == Codes::FOREGROUND_DEFAULT {
        out.append(color);
    } else if c == Codes::RESET_BACKGROUND {
        out.append("\x1b[49m");
        out.append(color);
        assert(out@ =~= old(out)@ + expand(c, color@));
    } else if c == Codes::BACKGROUND_MARKER {
        out.append("\x1b[48;2;90;90;0m");
    } else if c == Codes::BACKGROUND_SELECTION {
        out.append("\x1b[48;2;100;100;100m");
        out.append("\x1b[38;2;240;240;240m");
        assert(out@ =~= old(out)@ + expand(c, color@));
    } else {
        push_char(out, c);
        assert(out@ =~= old(out)@ + expand(c, color@));
    }
}

/// Appends `line` to `out` with every code point replaced by its terminal sequence;
/// `color` is the foreground sequence of the line.
pub fn push_decoded(out: &mut String, line: &Vec<char>, color: &str)
    ensures
        final(out)@ == old(out)@ + decode(line@, color@),
{
    let mut i: usize = 0;
    while i < line.len()
        invariant
            i <= line@.len(),
            out@ == old(out)@ + decode(line@.subrange(0, i as int), color@),
        decreases line@.len() - i,
    {
        assert(line@.subrange(0, i + 1).drop_last() =~= line@.subrange(0, i as int));
        push_expanded(out, line[i], color);
        assert(out@ =~= old(out)@ + decode(line@.subrange(0, i + 1), color@));
        i = i + 1;
    }
    assert(line@.subrange(0, line@.len() as int) =~= line@);
}

/// A line with every code point replaced by its terminal sequence.
pub fn render_styles(line: &Vec<char>, color: &str) -> (r: String)
    ensures
        r@ == decode(line@, color@),
{
    let mut r = String::new();
    push_decoded(&mut r, line, color);
    assert(r@ =~= decode(line@, color@));
    r
}

/// Whether `c` is one of the style code points.
pub fn is_style_code(c: char) -> (r: bool)
    ensures
        r == is_code(c),
{
    c == Codes::RESET || c == Codes::ITALIC || c == Codes::RESET_ITALIC || c == Codes::UNDERLINE
        || c == Codes::RESET_UNDERLINE || c == Codes::RESET_FOREGROUND
        || c == Codes::FOREGROUND_DEFAULT || c == Codes::RESET_BACKGROUND
        || c == Codes::BACKGROUND_MARKER || c == Codes::BACKGROUND_SELECTION
}

/// For each character of `line` that is not a style code point, its index in `line`.
pub fn kept_indices(line: &Vec<char>) -> (r: Vec<usize>)
    ensures
        r@ == kept_positions(line@),
{
    let mut r: Vec<usize> = Vec::new();
    let mut i: usize = 0;
    while i < line.len()
        invariant
            i <= line@.len(),
            r@ == kept_positions(line@.subrange(0, i as int)),
        decreases line@.len() - i,
    {
        assert(line@.subrange(0, i + 1).drop_last() =~= line@.subrange(0, i as int));
        if !is_style_code(line[i]) {
            r.push(i);
        }
        i = i + 1;
    }
    assert(line@.subrange(0, line@.len() as int) =~= line@);
    r
}

/// `line` without its style code points.
pub fn strip_styles(line: &Vec<char>) -> (r: Vec<char>)
    ensures
        r@ == strip_codes(line@),
{
    let mut r: Vec<char> = Vec::new();
    let mut i: usize = 0;
    while i < line.len()
        invariant
            i <= line@.len(),
            r@ == strip_codes(line@.subrange(0, i as int)),
        decreases line@.len() - i,
    {
        assert(line@.subrange(0, i + 1).drop_last() =~= line@.subrange(0, i as int));
        if !is_style_code(line[i]) {
            r.push(line[i]);
        }
        i = i + 1;
    }
    assert(line@.subrange(0, line@.len() as int) =~= line@);
    r
}

} // verus!
