use vstd::prelude::*;

use crate::text::{chars_of, push_chars};

verus! {

/// A column range `[start, end)` on one document line: `(line, start, end)`.
pub type Span = (usize, usize, usize);

/// Every element is smaller than each one after it: ascending, without duplicates.
pub open spec fn strictly_sorted(s: Seq<usize>) -> bool {
    forall|i: int, j: int| 0 <= i < j < s.len() ==> s[i] < s[j]
}

/// The first bookmark at or after index `i` that lies strictly after line `after`.
pub open spec fn next_from(bs: Seq<usize>, after: usize, i: int) -> Option<usize>
    decreases bs.len() - i,
{
    if i < 0 || i >= bs.len() {
        None
    } else if bs[i] > after {
        Some(bs[i])
    } else {
        next_from(bs, after, i + 1)
    }
}

/// The last bookmark among the first `n` that lies strictly before line `before`.
pub open spec fn prev_within(bs: Seq<usize>, before: usize, n: int) -> Option<usize>
    decreases n,
{
    if n <= 0 || n > bs.len() {
        None
    } else if bs[n - 1] < before {
        Some(bs[n - 1])
    } else {
        prev_within(bs, before, n - 1)
    }
}

/// The first bookmark strictly after line `after`, scanning in order.
pub open spec fn next_bookmark_of(bs: Seq<usize>, after: usize) -> Option<usize> {
    next_from(bs, after, 0)
}

/// The last bookmark strictly before line `before`, scanning in reverse order.
pub open spec fn prev_bookmark_of(bs: Seq<usize>, before: usize) -> Option<usize> {
    prev_within(bs, before, bs.len() as int)
}

/// The markers after toggling `span`: its first occurrence removed if present, else appended.
pub open spec fn toggled(m: Seq<Span>, span: Span) -> Seq<Span> {
    if m.contains(span) {
        m.remove_value(span)
    } else {
        m.push(span)
    }
}

/// The index just after the last '/' among the first `n` characters, or 0.
pub open spec fn base_start(s: Seq<char>, n: int) -> int
    decreases n,
{
    if n <= 0 || n > s.len() {
        0
    } else if s[n - 1] == '/' {
        n
    } else {
        base_start(s, n - 1)
    }
}

/// The length of `s[0..n]` without its trailing '/' characters.
pub open spec fn trimmed_len(s: Seq<char>, n: int) -> int
    decreases n,
{
    if n <= 0 || n > s.len() {
        0
    } else if s[n - 1] == '/' {
        trimmed_len(s, n - 1)
    } else {
        n
    }
}

/// The file that records the annotations of the document at `path`: in the same directory,
/// the file name prefixed with ".booklet_". Trailing '/' characters are ignored, as in a
/// path's file name. None where the path names no file: it is empty, a root, or its last
/// component is "." or "..".
pub open spec fn sidecar_of(path: Seq<char>) -> Option<Seq<char>> {
    let m = trimmed_len(path, path.len() as int);
    let k = base_start(path, m);
    let name = path.subrange(k, m);
    if name.len() == 0 || name == "."@ || name == ".."@ {
        None
    } else {
        Some(path.subrange(0, k) + ".booklet_"@ + name)
    }
}

pub proof fn lemma_trimmed_len_bounds(s: Seq<char>, n: int)
    requires
        0 <= n <= s.len(),
    ensures
        0 <= trimmed_len(s, n) <= n,
    decreases n,
{
    if n > 0 {
        lemma_trimmed_len_bounds(s, n - 1);
    }
}

pub proof fn lemma_base_start_bounds(s: Seq<char>, n: int)
    requires
        0 <= n <= s.len(),
    ensures
        0 <= base_start(s, n) <= n,
    decreases n,
{
    if n > 0 {
        lemma_base_start_bounds(s, n - 1);
    }
}

pub proof fn lemma_next_from_index(bs: Seq<usize>, after: usize, i: int) -> (j: int)
    requires
        0 <= i,
        next_from(bs, after, i) is Some,
    ensures
        i <= j < bs.len(),
        bs[j] == next_from(bs, after, i)->0,
        bs[j] > after,
        forall|k: int| i <= k < j ==> bs[k] <= after,
    decreases bs.len() - i,
{
    if bs[i] > after {
        i
    } else {
        lemma_next_from_index(bs, after, i + 1)
    }
}

pub proof fn lemma_prev_within_index(bs: Seq<usize>, before: usize, n: int) -> (j: int)
    requires
        prev_within(bs, before, n) is Some,
    ensures
        0 <= j < n <= bs.len(),
        bs[j] == prev_within(bs, before, n)->0,
        bs[j] < before,
        forall|k: int| j < k < n ==> bs[k] >= before,
    decreases n,
{
    if bs[n - 1] < before {
        n - 1
    } else {
        lemma_prev_within_index(bs, before, n - 1)
    }
}

/// Going to the next bookmark after line `l` and then to the previous one before it lands on a
/// line no later than `l`, whenever such a previous bookmark exists.
pub proof fn lemma_next_then_prev(bs: Seq<usize>, l: usize)
    requires
        strictly_sorted(bs),
        next_bookmark_of(bs, l) is Some,
        prev_bookmark_of(bs, next_bookmark_of(bs, l)->0) is Some,
    ensures
        prev_bookmark_of(bs, next_bookmark_of(bs, l)->0)->0 <= l,
{
    let n = next_bookmark_of(bs, l)->0;
    let j = lemma_next_from_index(bs, l, 0);
    let m = lemma_prev_within_index(bs, n, bs.len() as int);
    if m >= j {
        if m > j {
            assert(bs[j] < bs[m]);
        }
    }
}

/// For ascending bookmarks, the next bookmark is the least one after `after`, and the previous
/// bookmark is the greatest one before `before`.
pub proof fn lemma_bookmark_extremes(bs: Seq<usize>, after: usize, before: usize)
    requires
        strictly_sorted(bs),
    ensures
        match next_bookmark_of(bs, after) {
            Some(b) => bs.contains(b) && b > after && forall|c: usize|
                bs.contains(c) && c > after ==> b <= c,
            None => forall|c: usize| bs.contains(c) ==> c <= after,
        },
        match prev_bookmark_of(bs, before) {
            Some(b) => bs.contains(b) && b < before && forall|c: usize|
                bs.contains(c) && c < before ==> c <= b,
            None => forall|c: usize| bs.contains(c) ==> c >= before,
        },
{
    match next_bookmark_of(bs, after) {
        Some(b) => {
            let j = lemma_next_from_index(bs, after, 0);
            assert forall|c: usize| bs.contains(c) && c > after implies b <= c by {
                let k = choose|k: int| 0 <= k < bs.len() && bs[k] == c;
                if k < j {
                    assert(bs[k] <= after);
                } else if k > j {
                    assert(bs[j] < bs[k]);
                }
            }
        },
        None => {
            assert forall|c: usize| bs.contains(c) implies c <= after by {
                let k = choose|k: int| 0 <= k < bs.len() && bs[k] == c;
                lemma_next_none(bs, after, 0, k);
            }
        },
    }
    match prev_bookmark_of(bs, before) {
        Some(b) => {
            let j = lemma_prev_within_index(bs, before, bs.len() as int);
            assert forall|c: usize| bs.contains(c) && c < before implies c <= b by {
                let k = choose|k: int| 0 <= k < bs.len() && bs[k] == c;
                if k > j {
                    assert(bs[k] >= before);
                } else if k < j {
                    assert(bs[k] < bs[j]);
                }
            }
        },
        None => {
            assert forall|c: usize| bs.contains(c) implies c >= before by {
                let k = choose|k: int| 0 <= k < bs.len() && bs[k] == c;
                lemma_prev_none(bs, before, bs.len() as int, k);
            }
        },
    }
}

proof fn lemma_next_none(bs: Seq<usize>, after: usize, i: int, k: int)
    requires
        0 <= i <= k < bs.len(),
        next_from(bs, after, i) is None,
    ensures
        bs[k] <= after,
    decreases bs.len() - i,
{
    if i < k {
        lemma_next_none(bs, after, i + 1, k);
    }
}

proof fn lemma_prev_none(bs: Seq<usize>, before: usize, n: int, k: int)
    requires
        0 <= k < n <= bs.len(),
        prev_within(bs, before, n) is None,
    ensures
        bs[k] >= before,
    decreases n,
{
    if k < n - 1 {
        lemma_prev_none(bs, before, n - 1, k);
    }
}

/// Toggling the same span twice restores the markers exactly when the span was absent, and
/// restores the set of markers whenever no marker occurs twice.
pub proof fn lemma_toggle_marker_twice(m: Seq<Span>, span: Span)
    ensures
        !m.contains(span) ==> toggled(toggled(m, span), span) == m,
        m.no_duplicates() ==> toggled(toggled(m, span), span).to_set() == m.to_set(),
{
    if !m.contains(span) {
        let t = m.push(span);
        assert(t[m.len() as int] == span);
        t.index_of_first_ensures(span);
        let i = t.index_of_first(span)->0;
        if i < m.len() {
            assert(m[i] == span);
        }
        assert(t.remove(i) =~= m);
    } else if m.no_duplicates() {
        m.index_of_first_ensures(span);
        let i = m.index_of_first(span)->0;
        let r = m.remove(i);
        assert(!r.contains(span)) by {
            if r.contains(span) {
                let k = choose|k: int| 0 <= k < r.len() && r[k] == span;
                if k < i {
                    assert(m[k] == span);
                } else {
                    assert(m[k + 1] == span);
                }
            }
        }
        assert(toggled(toggled(m, span), span) == r.push(span));
        assert forall|x: Span| #[trigger] m.contains(x) implies r.push(span).contains(x) by {
            let k = choose|k: int| 0 <= k < m.len() && m[k] == x;
            if k < i {
                assert(r.push(span)[k] == x);
            } else if k > i {
                assert(r.push(span)[k - 1] == x);
            } else {
                assert(r.push(span)[r.len() as int] == x);
            }
        }
        assert forall|x: Span| #[trigger] r.push(span).contains(x) implies m.contains(x) by {
            let k = choose|k: int| 0 <= k < r.push(span).len() && r.push(span)[k] == x;
            if k < i {
                assert(m[k] == x);
            } else if k < r.len() {
                assert(m[k + 1] == x);
            } else {
                assert(m[i] == x);
            }
        }
        assert(r.push(span).to_set() =~= m.to_set());
    }
}

/// The persisted annotations of a document.
pub struct Config {
    pub bookmarks: Vec<usize>,
    pub markers: Vec<Span>,
    pub focus_mode: Option<bool>,
}

/// Inserts `x` into the ascending `v` at its place; nothing changes where it is present.
pub fn insert_sorted(v: &mut Vec<usize>, x: usize)
    requires
        strictly_sorted(old(v)@),
    ensures
        strictly_sorted(final(v)@),
        final(v)@.to_set() == old(v)@.to_set().insert(x),
        old(v)@.contains(x) ==> final(v)@ == old(v)@,
{
    let mut k: usize = 0;
    while k < v.len() && v[k] < x
        invariant
            k <= v@.len(),
            forall|j: int| 0 <= j < k ==> v@[j] < x,
        decreases v@.len() - k,
    {
        k = k + 1;
    }
    if k < v.len() && v[k] == x {
        assert(v@.to_set() =~= v@.to_set().insert(x));
        return;
    }
    proof {
        if v@.contains(x) {
            let j = choose|j: int| 0 <= j < v@.len() && v@[j] == x;
            if j > k {
                assert(v@[k as int] < v@[j]);
            }
        }
    }
    let ghost before = v@;
    v.insert(k, x);
    proof {
        before.insert_ensures(k as int, x);
        assert forall|i: int, j: int| 0 <= i < j < v@.len() implies v@[i] < v@[j] by {
            if j < k {
            } else if j == k {
            } else if i < k {
                assert(v@[j] == before[j - 1]);
                assert(x <= before[j - 1]);
            } else if i == k {
                assert(v@[j] == before[j - 1]);
                assert(x <= before[k as int]);
                if j - 1 > k {
                    assert(before[k as int] < before[j - 1]);
                }
            } else {
                assert(v@[j] == before[j - 1]);
                assert(v@[i] == before[i - 1]);
            }
        }
        assert forall|y: usize| #[trigger] v@.contains(y) <==> before.contains(y) || y == x by {
            if v@.contains(y) {
                let j = choose|j: int| 0 <= j < v@.len() && v@[j] == y;
                if j < k {
                    assert(before[j] == y);
                } else if j > k {
                    assert(before[j - 1] == y);
                }
            }
            if before.contains(y) {
                let j = choose|j: int| 0 <= j < before.len() && before[j] == y;
                if j < k {
                    assert(v@[j] == y);
                } else {
                    assert(v@[j + 1] == y);
                }
            }
            if y == x {
                assert(v@[k as int] == y);
            }
        }
        assert(v@.to_set() =~= before.to_set().insert(x));
    }
}

/// Removes `x` from the ascending `v`; nothing changes where it is absent.
pub fn remove_sorted(v: &mut Vec<usize>, x: usize)
    requires
        strictly_sorted(old(v)@),
    ensures
        strictly_sorted(final(v)@),
        final(v)@.to_set() == old(v)@.to_set().remove(x),
        !old(v)@.contains(x) ==> final(v)@ == old(v)@,
{
    let mut k: usize = 0;
    while k < v.len()
        invariant
            k <= v@.len(),
            forall|j: int| 0 <= j < k ==> v@[j] != x,
        ensures
            k <= v@.len(),
            forall|j: int| 0 <= j < k ==> v@[j] != x,
            k < v@.len() ==> v@[k as int] == x,
        decreases v@.len() - k,
    {
        if v[k] == x {
            break;
        }
        k = k + 1;
    }
    if k == v.len() {
        assert(v@.to_set() =~= v@.to_set().remove(x));
        return;
    }
    let ghost before = v@;
    v.remove(k);
    proof {
        before.remove_ensures(k as int);
        assert forall|i: int, j: int| 0 <= i < j < v@.len() implies v@[i] < v@[j] by {
            if j < k {
            } else if i < k {
                assert(v@[j] == before[j + 1]);
            } else {
                assert(v@[j] == before[j + 1]);
                assert(v@[i] == before[i + 1]);
            }
        }
        assert forall|y: usize| #[trigger] v@.contains(y) <==> before.contains(y) && y != x by {
            if v@.contains(y) {
                let j = choose|j: int| 0 <= j < v@.len() && v@[j] == y;
                if j < k {
                    assert(before[j] == y);
                } else {
                    assert(before[j + 1] == y);
                    assert(before[k as int] < before[j + 1]);
                }
            }
            if before.contains(y) && y != x {
                let j = choose|j: int| 0 <= j < before.len() && before[j] == y;
                if j < k {
                    assert(v@[j] == y);
                } else {
                    assert(j != k);
                    assert(v@[j - 1] == y);
                }
            }
        }
        assert(v@.to_set() =~= before.to_set().remove(x));
    }
}

/// Toggles `span` in `markers`: removes its first occurrence, or appends it.
pub fn toggle_span(markers: &mut Vec<Span>, span: Span)
    ensures
        final(markers)@ == toggled(old(markers)@, span),
{
    let mut k: usize = 0;
    while k < markers.len()
        invariant
            k <= markers@.len(),
            forall|j: int| 0 <= j < k ==> markers@[j] != span,
        ensures
            k <= markers@.len(),
            forall|j: int| 0 <= j < k ==> markers@[j] != span,
            k < markers@.len() ==> markers@[k as int] == span,
        decreases markers@.len() - k,
    {
        let m = markers[k];
        if m.0 == span.0 && m.1 == span.1 && m.2 == span.2 {
            break;
        }
        k = k + 1;
    }
    proof {
        markers@.index_of_first_ensures(span);
    }
    if k == markers.len() {
        markers.push(span);
    } else {
        proof {
            let i = markers@.index_of_first(span)->0;
            assert(i == k);
        }
        markers.remove(k);
    }
}

impl Config {
    /// Bookmarks are ascending and free of duplicates.
    pub open spec fn wf(&self) -> bool {
        strictly_sorted(self.bookmarks@)
    }

    /// A record with the given annotations, its bookmarks put in ascending order with
    /// duplicates dropped.
    pub fn new(bookmarks: Vec<usize>, markers: Vec<Span>, focus_mode: Option<bool>) -> (r: Config)
        ensures
            r.wf(),
            r.bookmarks@.to_set() == bookmarks@.to_set(),
            r.markers@ == markers@,
            r.focus_mode == focus_mode,
    {
        let mut sorted: Vec<usize> = Vec::new();
        let mut i: usize = 0;
        while i < bookmarks.len()
            invariant
                i <= bookmarks@.len(),
                strictly_sorted(sorted@),
                sorted@.to_set() == bookmarks@.subrange(0, i as int).to_set(),
            decreases bookmarks@.len() - i,
        {
            insert_sorted(&mut sorted, bookmarks[i]);
            assert(bookmarks@.subrange(0, i + 1) =~= bookmarks@.subrange(0, i as int).push(
                bookmarks@[i as int],
            ));
            proof {
                bookmarks@.subrange(0, i as int).lemma_push_to_set_commute(bookmarks@[i as int]);
            }
            i = i + 1;
        }
        assert(bookmarks@.subrange(0, bookmarks@.len() as int) =~= bookmarks@);
        Config { bookmarks: sorted, markers, focus_mode }
    }

    /// Whether `line` is bookmarked.
    pub fn is_bookmarked(&self, line: usize) -> (r: bool)
        ensures
            r == self.bookmarks@.contains(line),
    {
        let mut i: usize = 0;
        while i < self.bookmarks.len()
            invariant
                i <= self.bookmarks@.len(),
                forall|j: int| 0 <= j < i ==> self.bookmarks@[j] != line,
            decreases self.bookmarks@.len() - i,
        {
            if self.bookmarks[i] == line {
                return true;
            }
            i = i + 1;
        }
        false
    }

    /// The first bookmark strictly after line `after`.
    pub fn next_bookmark(&self, after: usize) -> (r: Option<usize>)
        ensures
            r == next_bookmark_of(self.bookmarks@, after),
    {
        let mut i: usize = 0;
        while i < self.bookmarks.len()
            invariant
                i <= self.bookmarks@.len(),
                next_bookmark_of(self.bookmarks@, after) == next_from(
                    self.bookmarks@,
                    after,
                    i as int,
                ),
            decreases self.bookmarks@.len() - i,
        {
            if self.bookmarks[i] > after {
                return Some(self.bookmarks[i]);
            }
            i = i + 1;
        }
        None
    }

    /// The last bookmark strictly before line `before`.
    pub fn prev_bookmark(&self, before: usize) -> (r: Option<usize>)
        ensures
            r == prev_bookmark_of(self.bookmarks@, before),
    {
        let mut n: usize = self.bookmarks.len();
        while n > 0
            invariant
                n <= self.bookmarks@.len(),
                prev_bookmark_of(self.bookmarks@, before) == prev_within(
                    self.bookmarks@,
                    before,
                    n as int,
                ),
            decreases n,
        {
            if self.bookmarks[n - 1] < before {
                return Some(self.bookmarks[n - 1]);
            }
            n = n - 1;
        }
        None
    }

    /// The path of the file that records the annotations of the document at `path`.
    pub fn sidecar_path(path: &str) -> (r: Option<String>)
        ensures
            r matches Some(p) ==> sidecar_of(path@) == Some(p@),
            r is None ==> sidecar_of(path@) is None,
    {
        let s = chars_of(path);
        let mut m: usize = s.len();
        while m > 0 && s[m - 1] == '/'
            invariant
                m <= s@.len(),
                trimmed_len(s@, s@.len() as int) == trimmed_len(s@, m as int),
            decreases m,
        {
            m = m - 1;
        }
        let mut k: usize = m;
        while k > 0 && s[k - 1] != '/'
            invariant
                k <= m <= s@.len(),
                m == trimmed_len(s@, s@.len() as int),
                base_start(s@, m as int) == base_start(s@, k as int),
            decreases k,
        {
            k = k - 1;
        }
        proof {
            lemma_base_start_bounds(s@, m as int);
        }
        let n = m - k;
        let dot = n == 1 && s[k] == '.';
        let dots = n == 2 && s[k] == '.' && s[k + 1] == '.';
        proof {
            reveal_strlit(".");
            reveal_strlit("..");
            let name = s@.subrange(k as int, m as int);
            if dot {
                assert(name =~= "."@);
            } else if name == "."@ {
                assert(name[0] == '.');
            }
            if dots {
                assert(name =~= ".."@);
            } else if name == ".."@ {
                assert(name[0] == '.' && name[1] == '.');
            }
        }
        if n == 0 || dot || dots {
            return None;
        }
        let mut r = String::new();
        push_chars(&mut r, &s, 0, k);
        r.append(".booklet_");
        push_chars(&mut r, &s, k, m);
        Some(r)
    }
}

impl Default for Config {
    fn default() -> (r: Config)
        ensures
            r.bookmarks@ == Seq::<usize>::empty(),
            r.markers@ == Seq::<Span>::empty(),
            r.focus_mode is None,
    {
        Config { bookmarks: Vec::new(), markers: Vec::new(), focus_mode: None }
    }
}

} // verus!
