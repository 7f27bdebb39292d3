use vstd::prelude::*;

verus! {

/// Characters that separate words.
pub open spec fn is_ws(c: char) -> bool {
    c == ' ' || c == '\t' || c == '\n' || c == '\r'
}

pub fn is_whitespace_char(c: char) -> (r: bool)
    ensures
        r == is_ws(c),
{
    c == ' ' || c == '\t' || c == '\n' || c == '\r'
}

/// Index of the first character of the line that holds position `i`.
pub open spec fn line_start(t: Seq<char>, i: int) -> int
    decreases i,
{
    if i <= 0 {
        0
    } else if t[i - 1] == '\n' {
        i
    } else {
        line_start(t, i - 1)
    }
}

/// Index just past the last character of the line that holds position `i`.
pub open spec fn line_end(t: Seq<char>, i: int) -> int
    decreases t.len() - i,
{
    if i >= t.len() {
        t.len() as int
    } else if t[i] == '\n' {
        i
    } else {
        line_end(t, i + 1)
    }
}

/// Number of line breaks among the first `i` characters.
pub open spec fn breaks_before(t: Seq<char>, i: int) -> nat
    decreases i,
{
    if i <= 0 {
        0
    } else {
        breaks_before(t, i - 1) + if t[i - 1] == '\n' { 1nat } else { 0nat }
    }
}

/// The text with every line break read as a single space.
pub open spec fn spaced(t: Seq<char>) -> Seq<char> {
    t.map_values(|c: char| if c == '\n' { ' ' } else { c })
}

/// The pieces of a text between occurrences of `sep`; never empty.
pub open spec fn split_on(t: Seq<char>, sep: char) -> Seq<Seq<char>>
    decreases t.len(),
{
    if t.len() == 0 {
        seq![Seq::<char>::empty()]
    } else {
        let ls = split_on(t.drop_last(), sep);
        if t.last() == sep {
            ls.push(Seq::<char>::empty())
        } else {
            ls.update(ls.len() - 1, ls.last().push(t.last()))
        }
    }
}

/// The lines of a text, split at each line break.
pub open spec fn split_lines(t: Seq<char>) -> Seq<Seq<char>> {
    split_on(t, '\n')
}

/// The lines written one after another with a line break between two of them.
pub open spec fn join_lines(ls: Seq<Seq<char>>) -> Seq<char>
    decreases ls.len(),
{
    if ls.len() == 0 {
        Seq::<char>::empty()
    } else if ls.len() == 1 {
        ls[0]
    } else {
        join_lines(ls.drop_last()) + seq!['\n'] + ls.last()
    }
}

/// The text with `s` spliced in at position `at`.
pub open spec fn splice(t: Seq<char>, at: int, s: Seq<char>) -> Seq<char> {
    t.take(at) + s + t.skip(at)
}

pub proof fn lemma_line_start_bounds(t: Seq<char>, i: int)
    requires
        0 <= i <= t.len(),
    ensures
        0 <= line_start(t, i) <= i,
        line_start(t, i) > 0 ==> t[line_start(t, i) - 1] == '\n',
    decreases i,
{
    if i > 0 && t[i - 1] != '\n' {
        lemma_line_start_bounds(t, i - 1);
    }
}

pub proof fn lemma_line_end_bounds(t: Seq<char>, i: int)
    requires
        0 <= i <= t.len(),
    ensures
        i <= line_end(t, i) <= t.len(),
        line_end(t, i) < t.len() ==> t[line_end(t, i)] == '\n',
    decreases t.len() - i,
{
    if i < t.len() && t[i] != '\n' {
        lemma_line_end_bounds(t, i + 1);
    }
}

/// Reading the content with lines joined by spaces after splicing `s` in at
/// position `at` gives the content read before, with `s` (its line breaks read
/// as spaces) spliced in at the same position.
pub proof fn lemma_insert_content(t: Seq<char>, at: int, s: Seq<char>)
    requires
        0 <= at <= t.len(),
    ensures
        spaced(splice(t, at, s)) == splice(spaced(t), at, spaced(s)),
        spaced(t).len() == t.len(),
{
    assert(spaced(splice(t, at, s)) =~= splice(spaced(t), at, spaced(s)));
}

proof fn lemma_line_start_prefix(t1: Seq<char>, t2: Seq<char>, i: int)
    requires
        0 <= i <= t1.len(),
        i <= t2.len(),
        t1.take(i) == t2.take(i),
    ensures
        line_start(t1, i) == line_start(t2, i),
    decreases i,
{
    if i > 0 {
        assert(t1[i - 1] == t1.take(i)[i - 1]);
        assert(t2[i - 1] == t2.take(i)[i - 1]);
        assert(t1.take(i - 1) =~= t1.take(i).take(i - 1));
        assert(t2.take(i - 1) =~= t2.take(i).take(i - 1));
        lemma_line_start_prefix(t1, t2, i - 1);
    }
}

proof fn lemma_line_start_skips(t: Seq<char>, lo: int, k: int)
    requires
        0 <= lo <= k <= t.len(),
        forall|j: int| lo <= j < k ==> t[j] != '\n',
    ensures
        line_start(t, k) == line_start(t, lo),
    decreases k - lo,
{
    if k > lo {
        lemma_line_start_skips(t, lo, k - 1);
    }
}

/// Splicing a text without line breaks in at the cursor moves the cursor
/// along its line by the text's length.
pub proof fn lemma_insert_single_line_column(t: Seq<char>, at: int, s: Seq<char>)
    requires
        0 <= at <= t.len(),
        !s.contains('\n'),
    ensures
        (at + s.len()) - line_start(splice(t, at, s), at + s.len()) == (at - line_start(t, at))
            + s.len(),
{
    let t2 = splice(t, at, s);
    assert(t2.take(at) =~= t.take(at));
    lemma_line_start_prefix(t, t2, at);
    assert forall|j: int| at <= j < at + s.len() implies t2[j] != '\n' by {
        assert(t2[j] == s[j - at]);
    }
    lemma_line_start_skips(t2, at, at + s.len());
}

/// One editing step on the buffer.
pub enum EditorEvent {
    InsertChar(char),
    NewLine,
    DeleteBackward,
    DeleteForward,
    MoveLeft,
    MoveRight,
    MoveUp,
    MoveDown,
    LineStart,
    LineEnd,
    Clear,
}

/// Text and cursor after one editing step, from text `t` and cursor `c`.
pub open spec fn event_result(t: Seq<char>, c: int, ev: EditorEvent) -> (Seq<char>, int) {
    let ls = line_start(t, c);
    let le = line_end(t, c);
    let col = c - ls;
    match ev {
        EditorEvent::InsertChar(ch) => (t.insert(c, ch), c + 1),
        EditorEvent::NewLine => (t.insert(c, '\n'), c + 1),
        EditorEvent::DeleteBackward => if c > 0 {
            (t.remove(c - 1), c - 1)
        } else {
            (t, c)
        },
        EditorEvent::DeleteForward => if c < t.len() {
            (t.remove(c), c)
        } else {
            (t, c)
        },
        EditorEvent::MoveLeft => (t, if c > 0 { c - 1 } else { c }),
        EditorEvent::MoveRight => (t, if c < t.len() { c + 1 } else { c }),
        EditorEvent::MoveUp => if ls == 0 {
            (t, c)
        } else {
            let ps = line_start(t, ls - 1);
            (t, if ps + col < ls - 1 { ps + col } else { ls - 1 })
        },
        EditorEvent::MoveDown => if le == t.len() {
            (t, c)
        } else {
            let ne = line_end(t, le + 1);
            (t, if le + 1 + col < ne { le + 1 + col } else { ne })
        },
        EditorEvent::LineStart => (t, ls),
        EditorEvent::LineEnd => (t, le),
        EditorEvent::Clear => (Seq::<char>::empty(), 0),
    }
}

/// The maximal run of non-whitespace characters of `l` that holds position `i`,
/// as a start index (`i` must be on a non-whitespace character).
pub open spec fn word_start(l: Seq<char>, i: int) -> int
    decreases i,
{
    if i <= 0 || is_ws(l[i - 1]) {
        i
    } else {
        word_start(l, i - 1)
    }
}

/// End index (exclusive) of the non-whitespace run that holds position `i`.
pub open spec fn word_end(l: Seq<char>, i: int) -> int
    decreases l.len() - i,
{
    if i >= l.len() || is_ws(l[i]) {
        i
    } else {
        word_end(l, i + 1)
    }
}

/// The word of `l` at column `i`: the one under `i`; at the end of the line,
/// the one that ends there; else none (on whitespace, or past the end).
pub open spec fn word_at(l: Seq<char>, i: int) -> Option<Seq<char>> {
    if 0 <= i < l.len() && !is_ws(l[i]) {
        Some(l.subrange(word_start(l, i), word_end(l, i)))
    } else if 0 < i && i == l.len() && !is_ws(l[i - 1]) {
        Some(l.subrange(word_start(l, i - 1), word_end(l, i - 1)))
    } else {
        None
    }
}

/// A copy of a character sequence.
pub fn copy_chars(v: &Vec<char>) -> (r: Vec<char>)
    ensures
        r@ == v@,
{
    let mut r: Vec<char> = Vec::new();
    let mut i: usize = 0;
    while i < v.len()
        invariant
            i <= v.len(),
            r@ == v@.take(i as int),
        decreases v.len() - i,
    {
        r.push(v[i]);
        i += 1;
        assert(r@ =~= v@.take(i as int));
    }
    assert(r@ =~= v@);
    r
}

/// The characters of `v` from `lo` up to `hi`.
pub fn slice_chars(v: &Vec<char>, lo: usize, hi: usize) -> (r: Vec<char>)
    requires
        lo <= hi <= v.len(),
    ensures
        r@ == v@.subrange(lo as int, hi as int),
{
    let mut r: Vec<char> = Vec::new();
    let mut i: usize = lo;
    while i < hi
        invariant
            lo <= i <= hi <= v.len(),
            r@ == v@.subrange(lo as int, i as int),
        decreases hi - i,
    {
        r.push(v[i]);
        i += 1;
        assert(r@ =~= v@.subrange(lo as int, i as int));
    }
    r
}

/// Whether two character sequences are equal.
pub fn chars_eq(a: &Vec<char>, b: &Vec<char>) -> (r: bool)
    ensures
        r == (a@ == b@),
{
    if a.len() != b.len() {
        return false;
    }
    let mut i: usize = 0;
    while i < a.len()
        invariant
            i <= a.len() == b.len(),
            a@.take(i as int) == b@.take(i as int),
        decreases a.len() - i,
    {
        if a[i] != b[i] {
            assert(a@[i as int] != b@[i as int]);
            return false;
        }
        i += 1;
        assert(a@.take(i as int) =~= b@.take(i as int)) by {
            assert(a@.take(i as int) =~= a@.take(i - 1) .push(a@[i - 1]));
            assert(b@.take(i as int) =~= b@.take(i - 1).push(b@[i - 1]));
        };
    }
    assert(a@ =~= a@.take(a.len() as int));
    assert(b@ =~= b@.take(b.len() as int));
    true
}

/// The editable buffer: its lines stored as one text with line breaks, and a
/// cursor given as a position in that text.
pub struct LineEditor {
    pub text: Vec<char>,
    pub cursor: usize,
}

impl LineEditor {
    pub open spec fn wf(&self) -> bool {
        self.cursor <= self.text@.len()
    }

    /// The buffer's lines.
    pub open spec fn lines(&self) -> Seq<Seq<char>> {
        split_lines(self.text@)
    }

    pub open spec fn row(&self) -> nat {
        breaks_before(self.text@, self.cursor as int)
    }

    pub open spec fn col(&self) -> int {
        self.cursor - line_start(self.text@, self.cursor as int)
    }

    /// The line that holds the cursor.
    pub open spec fn current_line_spec(&self) -> Seq<char> {
        self.text@.subrange(
            line_start(self.text@, self.cursor as int),
            line_end(self.text@, self.cursor as int),
        )
    }

    pub fn new() -> (r: LineEditor)
        ensures
            r.wf(),
            r.text@ == Seq::<char>::empty(),
            r.cursor == 0,
    {
        LineEditor { text: Vec::new(), cursor: 0 }
    }

    fn find_line_start(&self, pos: usize) -> (r: usize)
        requires
            pos <= self.text@.len(),
        ensures
            r == line_start(self.text@, pos as int),
    {
        let mut i: usize = pos;
        while i > 0 && self.text[i - 1] != '\n'
            invariant
                i <= pos <= self.text@.len(),
                line_start(self.text@, i as int) == line_start(self.text@, pos as int),
            decreases i,
        {
            i -= 1;
        }
        i
    }

    fn find_line_end(&self, pos: usize) -> (r: usize)
        requires
            pos <= self.text@.len(),
        ensures
            r == line_end(self.text@, pos as int),
    {
        let mut i: usize = pos;
        while i < self.text.len() && self.text[i] != '\n'
            invariant
                pos <= i <= self.text@.len(),
                line_end(self.text@, i as int) == line_end(self.text@, pos as int),
            decreases self.text@.len() - i,
        {
            i += 1;
        }
        i
    }

    /// Row of the cursor: the number of line breaks before it.
    pub fn cursor_row(&self) -> (r: usize)
        requires
            self.wf(),
        ensures
            r == self.row(),
    {
        let mut n: usize = 0;
        let mut i: usize = 0;
        while i < self.cursor
            invariant
                i <= self.cursor <= self.text@.len(),
                n == breaks_before(self.text@, i as int),
                n <= i,
            decreases self.cursor - i,
        {
            if self.text[i] == '\n' {
                n += 1;
            }
            i += 1;
        }
        n
    }

    /// Column of the cursor within its line.
    pub fn cursor_col(&self) -> (r: usize)
        requires
            self.wf(),
        ensures
            r == self.col(),
    {
        let s = self.find_line_start(self.cursor);
        proof {
            lemma_line_start_bounds(self.text@, self.cursor as int);
        }
        self.cursor - s
    }

    /// The line that holds the cursor.
    pub fn current_line(&self) -> (r: Vec<char>)
        requires
            self.wf(),
        ensures
            r@ == self.current_line_spec(),
    {
        let s = self.find_line_start(self.cursor);
        let e = self.find_line_end(self.cursor);
        proof {
            lemma_line_start_bounds(self.text@, self.cursor as int);
            lemma_line_end_bounds(self.text@, self.cursor as int);
        }
        slice_chars(&self.text, s, e)
    }

    /// Splices `s` in at the cursor and moves the cursor to the end of it; a
    /// line break in `s` splits the line there.
    pub fn insert_at_cursor(&mut self, s: &Vec<char>)
        requires
            old(self).wf(),
        ensures
            final(self).wf(),
            final(self).text@ == splice(old(self).text@, old(self).cursor as int, s@),
            final(self).cursor == old(self).cursor + s@.len(),
            !s@.contains('\n') ==> final(self).col() == old(self).col() + s@.len(),
    {
        let ghost t0 = self.text@;
        let ghost c0 = self.cursor as int;
        let mut k: usize = 0;
        while k < s.len()
            invariant
                0 <= c0 <= t0.len(),
                k <= s@.len(),
                self.text@ == t0.take(c0) + s@.take(k as int) + t0.skip(c0),
                self.cursor == c0 + k,
            decreases s@.len() - k,
        {
            self.text.insert(self.cursor, s[k]);
            let n = self.text.len();
            assert(self.cursor < n);
            self.cursor = self.cursor + 1;
            k += 1;
            assert(self.text@ =~= t0.take(c0) + s@.take(k as int) + t0.skip(c0));
        }
        assert(s@.take(k as int) =~= s@);
        proof {
            if !s@.contains('\n') {
                lemma_insert_single_line_column(t0, c0, s@);
            }
        }
    }

    /// Applies one editing step.
    pub fn apply_event(&mut self, ev: EditorEvent)
        requires
            old(self).wf(),
        ensures
            final(self).wf(),
            (final(self).text@, final(self).cursor as int) == event_result(
                old(self).text@,
                old(self).cursor as int,
                ev,
            ),
    {
        let c = self.cursor;
        proof {
            lemma_line_start_bounds(self.text@, c as int);
            lemma_line_end_bounds(self.text@, c as int);
        }
        match ev {
            EditorEvent::InsertChar(ch) => {
                self.text.insert(c, ch);
                let n = self.text.len();
                assert(c < n);
                self.cursor = c + 1;
            },
            EditorEvent::NewLine => {
                self.text.insert(c, '\n');
                let n = self.text.len();
                assert(c < n);
                self.cursor = c + 1;
            },
            EditorEvent::DeleteBackward => {
                if c > 0 {
                    self.text.remove(c - 1);
                    self.cursor = c - 1;
                }
            },
            EditorEvent::DeleteForward => {
                if c < self.text.len() {
                    self.text.remove(c);
                }
            },
            EditorEvent::MoveLeft => {
                if c > 0 {
                    self.cursor = c - 1;
                }
            },
            EditorEvent::MoveRight => {
                if c < self.text.len() {
                    self.cursor = c + 1;
                }
            },
            EditorEvent::MoveUp => {
                let ls = self.find_line_start(c);
                if ls > 0 {
                    let ps = self.find_line_start(ls - 1);
                    proof {
                        lemma_line_start_bounds(self.text@, ls - 1);
                    }
                    let col = c - ls;
                    if col < ls - 1 - ps {
                        self.cursor = ps + col;
                    } else {
                        self.cursor = ls - 1;
                    }
                }
            },
            EditorEvent::MoveDown => {
                let ls = self.find_line_start(c);
                let le = self.find_line_end(c);
                if le < self.text.len() {
                    let ne = self.find_line_end(le + 1);
                    proof {
                        lemma_line_end_bounds(self.text@, le + 1);
                    }
                    let col = c - ls;
                    if col < ne - (le + 1) {
                        self.cursor = le + 1 + col;
                    } else {
                        self.cursor = ne;
                    }
                }
            },
            EditorEvent::LineStart => {
                self.cursor = self.find_line_start(c);
            },
            EditorEvent::LineEnd => {
                self.cursor = self.find_line_end(c);
            },
            EditorEvent::Clear => {
                self.text = Vec::new();
                self.cursor = 0;
            },
        }
    }

    /// Replaces the content by `t`, with the cursor at its end.
    pub fn load_text(&mut self, t: &Vec<char>)
        ensures
            final(self).wf(),
            final(self).text@ == t@,
            final(self).cursor == t@.len(),
    {
        self.text = copy_chars(t);
        self.cursor = self.text.len();
    }

    /// Replaces the content by the given lines, cursor at the end.
    pub fn set_content(&mut self, lines: &Vec<Vec<char>>)
        ensures
            final(self).wf(),
            final(self).text@ == join_lines(lines@.map_values(|l: Vec<char>| l@)),
            final(self).cursor == final(self).text@.len(),
    {
        let ghost ls = lines@.map_values(|l: Vec<char>| l@);
        let mut t: Vec<char> = Vec::new();
        if lines.len() > 0 {
            t = copy_chars(&lines[0]);
            let mut k: usize = 1;
            assert(ls.take(1) =~= seq![ls[0]]);
            while k < lines.len()
                invariant
                    1 <= k <= lines@.len(),
                    ls == lines@.map_values(|l: Vec<char>| l@),
                    t@ == join_lines(ls.take(k as int)),
                decreases lines@.len() - k,
            {
                let ghost before = t@;
                t.push('\n');
                let mut j: usize = 0;
                while j < lines[k].len()
                    invariant
                        k < lines@.len(),
                        j <= lines@[k as int]@.len(),
                        t@ == before + seq!['\n'] + lines@[k as int]@.take(j as int),
                    decreases lines@[k as int]@.len() - j,
                {
                    t.push(lines[k][j]);
                    j += 1;
                    assert(t@ =~= before + seq!['\n'] + lines@[k as int]@.take(j as int));
                }
                assert(lines@[k as int]@.take(j as int) =~= lines@[k as int]@);
                assert(ls.take(k + 1).drop_last() =~= ls.take(k as int));
                k += 1;
            }
            assert(ls.take(k as int) =~= ls);
        }
        self.text = t;
        self.cursor = self.text.len();
    }

    /// The content with lines joined by a single space.
    pub fn content_str(&self) -> (r: Vec<char>)
        ensures
            r@ == spaced(self.text@),
    {
        let mut r: Vec<char> = Vec::new();
        let mut i: usize = 0;
        while i < self.text.len()
            invariant
                i <= self.text@.len(),
                r@ == spaced(self.text@.take(i as int)),
            decreases self.text@.len() - i,
        {
            let c = self.text[i];
            if c == '\n' {
                r.push(' ');
            } else {
                r.push(c);
            }
            i += 1;
            assert(r@ =~= spaced(self.text@.take(i as int)));
        }
        assert(self.text@.take(i as int) =~= self.text@);
        r
    }

    /// The content as its sequence of lines.
    pub fn content_lines(&self) -> (r: Vec<Vec<char>>)
        ensures
            r@.map_values(|l: Vec<char>| l@) == split_lines(self.text@),
    {
        split_on_char(&self.text, '\n')
    }

    /// The character under the cursor, if the cursor is not past the end of
    /// its line.
    pub fn hovered_char(&self) -> (r: Option<char>)
        requires
            self.wf(),
        ensures
            r == (if self.cursor < line_end(self.text@, self.cursor as int) {
                Some(self.text@[self.cursor as int])
            } else {
                None
            }),
    {
        let e = self.find_line_end(self.cursor);
        if self.cursor < e {
            proof {
                lemma_line_end_bounds(self.text@, self.cursor as int);
            }
            Some(self.text[self.cursor])
        } else {
            None
        }
    }
}


/// The word of `line` at column `idx`: the maximal run of non-whitespace
/// characters under `idx`, or the one that ends the line where `idx` is its
/// end.
pub fn word_at_idx(line: &Vec<char>, idx: usize) -> (r: Option<Vec<char>>)
    ensures
        match r {
            Some(w) => word_at(line@, idx as int) == Some(w@),
            None => word_at(line@, idx as int) is None,
        },
{
    let p: usize;
    if idx < line.len() && !is_whitespace_char(line[idx]) {
        p = idx;
    } else if 0 < idx && idx == line.len() && !is_whitespace_char(line[idx - 1]) {
        p = idx - 1;
    } else {
        return None;
    }
    let mut s: usize = p;
    while s > 0 && !is_whitespace_char(line[s - 1])
        invariant
            s <= p < line@.len(),
            word_start(line@, s as int) == word_start(line@, p as int),
        decreases s,
    {
        s -= 1;
    }
    let mut e: usize = p;
    while e < line.len() && !is_whitespace_char(line[e])
        invariant
            p <= e <= line@.len(),
            word_end(line@, e as int) == word_end(line@, p as int),
        decreases line@.len() - e,
    {
        e += 1;
    }
    Some(slice_chars(line, s, e))
}

/// The pieces of `t` between occurrences of `sep`, in order.
pub fn split_on_char(t: &Vec<char>, sep: char) -> (r: Vec<Vec<char>>)
    ensures
        r@.map_values(|l: Vec<char>| l@) == split_on(t@, sep),
{
    let mut done: Vec<Vec<char>> = Vec::new();
    let mut cur: Vec<char> = Vec::new();
    let mut i: usize = 0;
    while i < t.len()
        invariant
            i <= t@.len(),
            split_on(t@.take(i as int), sep) == done@.map_values(|l: Vec<char>| l@).push(cur@),
        decreases t@.len() - i,
    {
        let c = t[i];
        if c == sep {
            done.push(cur);
            cur = Vec::new();
        } else {
            cur.push(c);
        }
        i += 1;
        assert(t@.take(i as int).drop_last() =~= t@.take(i - 1));
        assert(split_on(t@.take(i as int), sep) =~= done@.map_values(|l: Vec<char>| l@).push(cur@));
    }
    assert(t@.take(i as int) =~= t@);
    done.push(cur);
    assert(done@.map_values(|l: Vec<char>| l@) =~= split_on(t@, sep));
    done
}

} // verus!
