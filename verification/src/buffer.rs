//! The text buffer: an ordered sequence of lines with positional mutation
//! operations. A line is a sequence of character slots; the buffer never
//! holds fewer than one line.

use vstd::prelude::*;

verus! {

use vstd::math::min;

/// The abstract value of a `Buffer`: an optional origin path and the lines.
#[verifier::ext_equal]
pub ghost struct BufferView {
    pub file: Option<Seq<char>>,
    pub lines: Seq<Seq<char>>,
}

/// A text buffer. `file` is the path the contents came from (and will be
/// saved to); `lines` is the text, one entry per line, newline characters
/// excluded.
pub struct Buffer {
    pub file: Option<String>,
    pub lines: Vec<Vec<char>>,
}

/// Length of the line at `row`, taken as 0 when `row` is out of range.
pub open spec fn line_len_at(lines: Seq<Seq<char>>, row: int) -> nat {
    if 0 <= row < lines.len() {
        lines[row].len()
    } else {
        0
    }
}

/// True when the line holds no newline character, as every line of a
/// well-formed buffer does.
pub open spec fn line_clean(l: Seq<char>) -> bool {
    forall|j: int| 0 <= j < l.len() ==> l[j] != '\n'
}

/// The lines joined with single newline separators: the text a save writes.
pub open spec fn join_lines(ls: Seq<Seq<char>>) -> Seq<char>
    decreases ls.len(),
{
    if ls.len() == 0 {
        Seq::empty()
    } else if ls.len() == 1 {
        ls[0]
    } else {
        ls[0] + seq!['\n'] + join_lines(ls.drop_first())
    }
}

/// `t` split at newline characters. There is always at least one piece, and
/// no piece holds a newline.
pub open spec fn split_lines(t: Seq<char>) -> Seq<Seq<char>>
    decreases t.len(),
{
    if t.len() == 0 {
        seq![Seq::<char>::empty()]
    } else if t[0] == '\n' {
        seq![Seq::<char>::empty()] + split_lines(t.drop_first())
    } else {
        let rest = split_lines(t.drop_first());
        seq![seq![t[0]] + rest[0]] + rest.drop_first()
    }
}

/// `t` without its final newline, if it ends in one.
pub open spec fn strip_final_newline(t: Seq<char>) -> Seq<char> {
    if t.len() > 0 && t.last() == '\n' {
        t.drop_last()
    } else {
        t
    }
}

/// How loading interprets a file's text: a final newline terminates the last
/// line rather than opening an empty one, and empty text is one empty line.
pub open spec fn parse_doc(t: Seq<char>) -> Seq<Seq<char>> {
    split_lines(strip_final_newline(t))
}

/// Splitting yields at least one piece and only newline-free pieces.
pub proof fn lemma_split_lines_wf(t: Seq<char>)
    ensures
        split_lines(t).len() >= 1,
        forall|i: int| 0 <= i < split_lines(t).len() ==> line_clean(#[trigger] split_lines(t)[i]),
    decreases t.len(),
{
    if t.len() == 0 {
    } else {
        lemma_split_lines_wf(t.drop_first());
        let rest = split_lines(t.drop_first());
        if t[0] == '\n' {
            assert forall|i: int| 0 <= i < split_lines(t).len() implies line_clean(
                #[trigger] split_lines(t)[i],
            ) by {
                if i > 0 {
                    assert(split_lines(t)[i] == rest[i - 1]);
                }
            }
        } else {
            assert forall|i: int| 0 <= i < split_lines(t).len() implies line_clean(
                #[trigger] split_lines(t)[i],
            ) by {
                if i == 0 {
                    assert(split_lines(t)[0] == seq![t[0]] + rest[0]);
                    assert(line_clean(rest[0]));
                } else {
                    assert(split_lines(t)[i] == rest.drop_first()[i - 1]);
                    assert(rest.drop_first()[i - 1] == rest[i]);
                }
            }
        }
    }
}

/// Joining what splitting produced gives the text back unchanged: saving an
/// unmodified just-loaded buffer reproduces the file's content, up to the
/// final-newline normalization `parse_doc` applies.
pub proof fn lemma_join_split_lines(t: Seq<char>)
    ensures
        join_lines(split_lines(t)) == t,
    decreases t.len(),
{
    if t.len() == 0 {
    } else if t[0] == '\n' {
        lemma_join_split_lines(t.drop_first());
        lemma_split_lines_wf(t.drop_first());
        let rest = split_lines(t.drop_first());
        let s = split_lines(t);
        assert(s.drop_first() =~= rest);
        assert(s[0] == Seq::<char>::empty());
        assert(join_lines(s) == Seq::<char>::empty() + seq!['\n'] + join_lines(rest));
        assert(join_lines(s) =~= t);
    } else {
        lemma_join_split_lines(t.drop_first());
        lemma_split_lines_wf(t.drop_first());
        let rest = split_lines(t.drop_first());
        let s = split_lines(t);
        if rest.len() == 1 {
            assert(s =~= seq![seq![t[0]] + rest[0]]);
            assert(join_lines(rest) == rest[0]);
            assert(join_lines(s) == seq![t[0]] + rest[0]);
            assert(join_lines(s) =~= t);
        } else {
            assert(s[0] == seq![t[0]] + rest[0]);
            assert(s.drop_first() =~= rest.drop_first());
            assert(join_lines(s) == (seq![t[0]] + rest[0]) + seq!['\n'] + join_lines(
                rest.drop_first(),
            ));
            assert(join_lines(rest) == rest[0] + seq!['\n'] + join_lines(rest.drop_first()));
            assert(join_lines(s) =~= seq![t[0]] + join_lines(rest));
            assert(seq![t[0]] + join_lines(rest) =~= t);
        }
    }
}

/// The round trip: saving a buffer loaded from `t` and not edited in
/// between reproduces `t` exactly, up to the single trailing newline that
/// loading normalizes away.
pub proof fn lemma_save_after_load(t: Seq<char>)
    ensures
        join_lines(parse_doc(t)) == strip_final_newline(t),
{
    lemma_join_split_lines(strip_final_newline(t));
}

/// Loading the text a save produced gives the lines back unchanged, as long
/// as no line holds a newline and the last line is not empty (a trailing
/// empty line serializes to a final newline, which loading strips again).
pub proof fn lemma_split_join_lines(ls: Seq<Seq<char>>)
    requires
        ls.len() >= 1,
        forall|i: int| 0 <= i < ls.len() ==> line_clean(#[trigger] ls[i]),
        ls.last().len() > 0 || ls.len() == 1,
    ensures
        parse_doc(join_lines(ls)) == ls,
    decreases ls.len(),
{
    if ls.len() == 1 {
        lemma_split_clean_single(ls[0]);
        assert(strip_final_newline(ls[0]) == ls[0]);
        assert(parse_doc(join_lines(ls)) =~~= ls);
    } else {
        let t = join_lines(ls);
        let rest = join_lines(ls.drop_first());
        assert(t == ls[0] + seq!['\n'] + rest);
        lemma_split_join_lines(ls.drop_first());
        assert(ls.drop_first().last().len() > 0 || ls.drop_first().len() == 1) by {
            assert(ls.drop_first().last() == ls.last());
        }
        lemma_join_nonempty_last(ls.drop_first());
        assert(strip_final_newline(t) =~= ls[0] + seq!['\n'] + strip_final_newline(rest));
        lemma_split_prefix(ls[0], strip_final_newline(rest));
        assert(split_lines(strip_final_newline(t)) == seq![ls[0]] + split_lines(
            strip_final_newline(rest),
        ));
        assert(parse_doc(t) =~~= ls);
    }
}

/// A newline-free text splits into itself as the only piece.
proof fn lemma_split_clean_single(l: Seq<char>)
    requires
        line_clean(l),
    ensures
        split_lines(l) == seq![l],
    decreases l.len(),
{
    if l.len() == 0 {
        assert(l =~= Seq::<char>::empty());
    } else {
        lemma_split_clean_single(l.drop_first());
        assert(split_lines(l) =~~= seq![seq![l[0]] + l.drop_first()]);
        assert(seq![l[0]] + l.drop_first() =~= l);
        assert(split_lines(l) =~~= seq![l]);
    }
}

/// Splitting text that starts with a newline-free line and a separator
/// splits off exactly that line.
proof fn lemma_split_prefix(a: Seq<char>, b: Seq<char>)
    requires
        line_clean(a),
    ensures
        split_lines(a + seq!['\n'] + b) == seq![a] + split_lines(b),
    decreases a.len(),
{
    let t = a + seq!['\n'] + b;
    if a.len() == 0 {
        assert(t[0] == '\n');
        assert(t.drop_first() =~= b);
        assert(split_lines(t) =~~= seq![a] + split_lines(b));
    } else {
        assert(t[0] == a[0]);
        assert(t.drop_first() =~= a.drop_first() + seq!['\n'] + b);
        lemma_split_prefix(a.drop_first(), b);
        let rest = split_lines(t.drop_first());
        assert(rest == seq![a.drop_first()] + split_lines(b));
        assert(rest[0] == a.drop_first());
        assert(rest.drop_first() =~= split_lines(b));
        assert(seq![t[0]] + rest[0] =~= a);
        assert(split_lines(t) =~~= seq![a] + split_lines(b));
    }
}

/// When the last of the joined lines is not empty (or there is a single
/// line), the joined text does not end in a newline.
proof fn lemma_join_nonempty_last(ls: Seq<Seq<char>>)
    requires
        ls.len() >= 1,
        ls.last().len() > 0 || ls.len() == 1,
        forall|i: int| 0 <= i < ls.len() ==> line_clean(#[trigger] ls[i]),
    ensures
        strip_final_newline(join_lines(ls)) == join_lines(ls),
    decreases ls.len(),
{
    let t = join_lines(ls);
    if ls.len() == 1 {
        if t.len() > 0 {
            assert(t.last() != '\n');
        }
    } else {
        lemma_join_nonempty_last(ls.drop_first());
        assert(ls.drop_first().last() == ls.last());
        let rest = join_lines(ls.drop_first());
        assert(t == ls[0] + seq!['\n'] + rest);
        lemma_join_len(ls.drop_first());
        assert(rest.len() > 0);
        assert(t.last() == rest.last());
        if rest.len() > 0 && rest.last() == '\n' {
            assert(strip_final_newline(rest) != rest);
        }
    }
}

/// Joined text is at least as long as any of its lines.
proof fn lemma_join_len(ls: Seq<Seq<char>>)
    requires
        ls.len() >= 1,
    ensures
        join_lines(ls).len() >= ls.last().len(),
        ls.len() > 1 ==> join_lines(ls).len() > ls.last().len(),
    decreases ls.len(),
{
    if ls.len() > 1 {
        lemma_join_len(ls.drop_first());
        assert(ls.drop_first().last() == ls.last());
    }
}

/// Appending one more line to a join appends a separator and the line.
pub proof fn lemma_join_push(ls: Seq<Seq<char>>, l: Seq<char>)
    requires
        ls.len() >= 1,
    ensures
        join_lines(ls.push(l)) == join_lines(ls) + seq!['\n'] + l,
    decreases ls.len(),
{
    if ls.len() == 1 {
        assert(ls.push(l).drop_first() =~= seq![l]);
        assert(join_lines(seq![l]) == l);
        assert(join_lines(ls.push(l)) == ls[0] + seq!['\n'] + l);
        assert(join_lines(ls) == ls[0]);
    } else {
        lemma_join_push(ls.drop_first(), l);
        assert(ls.push(l).drop_first() =~= ls.drop_first().push(l));
        assert(join_lines(ls.push(l)) == ls[0] + seq!['\n'] + join_lines(ls.drop_first().push(l)));
        assert(join_lines(ls.push(l)) =~= join_lines(ls) + seq!['\n'] + l);
    }
}

/// `ps` with `p` prepended to its first piece.
pub open spec fn prepend_first(p: Seq<char>, ps: Seq<Seq<char>>) -> Seq<Seq<char>>
    recommends
        ps.len() >= 1,
{
    ps.update(0, p + ps[0])
}

/// The failure a save reports.
#[derive(Clone, Copy, Debug, PartialEq, Eq, Structural)]
pub enum SaveError {
    /// The buffer has no associated path to write to.
    NoPath,
}

/// Splits the first `upto` characters of `t` at newlines.
fn split_text(t: &Vec<char>, upto: usize) -> (r: Vec<Vec<char>>)
    requires
        upto <= t@.len(),
    ensures
        r.deep_view() == split_lines(t@.take(upto as int)),
{
    let ghost s = t@.take(upto as int);
    let mut out: Vec<Vec<char>> = Vec::new();
    let mut cur: Vec<char> = Vec::new();
    let mut i: usize = 0;
    proof {
        lemma_split_lines_wf(s);
        assert(s.skip(0) =~= s);
        assert(prepend_first(Seq::<char>::empty(), split_lines(s)) =~~= split_lines(s));
    }
    while i < upto
        invariant
            i <= upto <= t@.len(),
            s == t@.take(upto as int),
            split_lines(s) == out.deep_view() + prepend_first(
                cur@,
                split_lines(s.skip(i as int)),
            ),
        decreases upto - i,
    {
        let c = t[i];
        proof {
            assert(s.skip(i as int)[0] == c);
            assert(s.skip(i as int).drop_first() =~= s.skip(i + 1));
            lemma_split_lines_wf(s.skip(i as int));
            lemma_split_lines_wf(s.skip(i + 1));
        }
        let ghost pre_out = out.deep_view();
        let ghost pre_cur = cur@;
        if c == '\n' {
            out.push(cur);
            cur = Vec::new();
            proof {
                assert(split_lines(s.skip(i as int)) == seq![Seq::<char>::empty()] + split_lines(
                    s.skip(i + 1),
                ));
                assert(out.deep_view() =~~= pre_out.push(pre_cur));
                assert(prepend_first(pre_cur, split_lines(s.skip(i as int))) =~~= seq![pre_cur]
                    + split_lines(s.skip(i + 1)));
                assert(prepend_first(cur@, split_lines(s.skip(i + 1))) =~~= split_lines(
                    s.skip(i + 1),
                ));
                assert(split_lines(s) =~~= out.deep_view() + prepend_first(
                    cur@,
                    split_lines(s.skip(i + 1)),
                ));
            }
        } else {
            cur.push(c);
            proof {
                let r = split_lines(s.skip(i + 1));
                assert(split_lines(s.skip(i as int)) == seq![seq![c] + r[0]] + r.drop_first());
                assert(prepend_first(pre_cur, split_lines(s.skip(i as int))) =~~= seq![pre_cur
                    + (seq![c] + r[0])] + r.drop_first());
                assert(prepend_first(cur@, r) =~~= seq![(pre_cur.push(c)) + r[0]]
                    + r.drop_first());
                assert(pre_cur + (seq![c] + r[0]) =~= (pre_cur.push(c)) + r[0]);
                assert(split_lines(s) =~~= out.deep_view() + prepend_first(cur@, r));
            }
        }
        i = i + 1;
    }
    proof {
        assert(s.skip(upto as int) =~= Seq::<char>::empty());
        assert(split_lines(s.skip(upto as int)) == seq![Seq::<char>::empty()]);
        assert(prepend_first(cur@, seq![Seq::<char>::empty()]) =~~= seq![cur@]);
    }
    let ghost pre_out = out.deep_view();
    let ghost pre_cur = cur@;
    out.push(cur);
    proof {
        assert(out.deep_view() =~~= pre_out.push(pre_cur));
        assert(out.deep_view() =~~= split_lines(s));
    }
    out
}

/// Joins the lines with newline separators.
fn join_text(lines: &Vec<Vec<char>>) -> (r: Vec<char>)
    ensures
        r@ == join_lines(lines.deep_view()),
{
    let ghost dv = lines.deep_view();
    let mut r: Vec<char> = Vec::new();
    let mut i: usize = 0;
    proof {
        assert(dv.take(0) =~= Seq::<Seq<char>>::empty());
    }
    while i < lines.len()
        invariant
            i <= lines@.len(),
            dv == lines.deep_view(),
            r@ == join_lines(dv.take(i as int)),
        decreases lines@.len() - i,
    {
        let ghost base = r@;
        if i > 0 {
            r.push('\n');
        }
        let mut j: usize = 0;
        while j < lines[i].len()
            invariant
                i < lines@.len(),
                j <= lines@[i as int]@.len(),
                dv == lines.deep_view(),
                r@ == (if i > 0 {
                    base.push('\n')
                } else {
                    base
                }) + lines@[i as int]@.take(j as int),
            decreases lines@[i as int]@.len() - j,
        {
            let c = lines[i][j];
            r.push(c);
            assert(r@ =~= (if i > 0 {
                base.push('\n')
            } else {
                base
            }) + lines@[i as int]@.take(j + 1));
            j = j + 1;
        }
        proof {
            assert(lines@[i as int]@.take(lines@[i as int]@.len() as int) =~= dv[i as int]);
            if i > 0 {
                lemma_join_push(dv.take(i as int), dv[i as int]);
                assert(dv.take(i as int).push(dv[i as int]) =~= dv.take(i + 1));
                assert(r@ =~= join_lines(dv.take(i as int)) + seq!['\n'] + dv[i as int]);
            } else {
                assert(dv.take(1) =~= seq![dv[0]]);
                assert(r@ =~= dv[0]);
            }
        }
        i = i + 1;
    }
    proof {
        assert(dv.take(lines@.len() as int) =~= dv);
    }
    r
}

impl View for Buffer {
    type V = BufferView;

    open spec fn view(&self) -> BufferView {
        BufferView {
            file: match self.file {
                Some(f) => Some(f@),
                None => None,
            },
            lines: self.lines.deep_view(),
        }
    }
}

impl Buffer {
    /// The buffer invariant: there is always at least one line.
    pub open spec fn wf(&self) -> bool {
        self@.lines.len() >= 1
    }

    /// Builds the buffer an editing session starts from: the given text
    /// split into lines, or a single empty line when there is no text.
    pub fn from_text(file: Option<String>, text: Option<Vec<char>>) -> (r: Buffer)
        ensures
            r@.file == (match file {
                Some(f) => Some(f@),
                None => None::<Seq<char>>,
            }),
            (match text {
                Some(t) => r@.lines == parse_doc(t@),
                None => r@.lines == seq![Seq::<char>::empty()],
            }),
            r.wf(),
    {
        let lines = match &text {
            Some(t) => {
                let upto = if t.len() > 0 && t[t.len() - 1] == '\n' {
                    t.len() - 1
                } else {
                    t.len()
                };
                assert(t@.take(upto as int) =~= strip_final_newline(t@));
                proof {
                    lemma_split_lines_wf(strip_final_newline(t@));
                }
                split_text(t, upto)
            },
            None => {
                let mut ls: Vec<Vec<char>> = Vec::new();
                ls.push(Vec::new());
                assert(ls.deep_view() =~~= seq![Seq::<char>::empty()]);
                ls
            },
        };
        Buffer { file, lines }
    }

    /// Serializes the buffer for saving: all lines joined by newlines.
    /// Fails exactly when the buffer has no associated path.
    pub fn save(&self) -> (r: Result<Vec<char>, SaveError>)
        ensures
            self@.file is Some ==> (r matches Ok(t) && t@ == join_lines(self@.lines)),
            self@.file is None ==> (r matches Err(e) && e == SaveError::NoPath),
    {
        match &self.file {
            Some(_) => Ok(join_text(&self.lines)),
            None => Err(SaveError::NoPath),
        }
    }

    /// Returns a copy of the line at `line`, or `None` when out of range.
    pub fn get(&self, line: usize) -> (r: Option<Vec<char>>)
        ensures
            line < self@.lines.len() ==> (r matches Some(l) && l.deep_view()
                == self@.lines[line as int]),
            line >= self@.lines.len() ==> r is None,
    {
        if self.lines.len() > line {
            let l = self.lines[line].clone();
            assert(l.deep_view() =~= self@.lines[line as int]);
            Some(l)
        } else {
            None
        }
    }

    /// The number of lines.
    pub fn len(&self) -> (r: usize)
        ensures
            r == self@.lines.len(),
    {
        self.lines.len()
    }

    /// Inserts `c` at character slot `col` of line `row`. Does nothing when
    /// `row` is out of range; a `col` past the end of the line appends at
    /// the end instead.
    pub fn insert(&mut self, col: usize, row: usize, c: char)
        ensures
            final(self)@.file == old(self)@.file,
            row < old(self)@.lines.len() ==> (final(self)@.lines == old(self)@.lines.update(
                row as int,
                old(self)@.lines[row as int].insert(
                    min(col as int, old(self)@.lines[row as int].len() as int),
                    c,
                ),
            )),
            row >= old(self)@.lines.len() ==> final(self)@.lines == old(self)@.lines,
            old(self).wf() ==> final(self).wf(),
    {
        let ghost pre = self@;
        if row < self.lines.len() {
            let line = &mut self.lines[row];
            let at = if col < line.len() {
                col
            } else {
                line.len()
            };
            line.insert(at, c);
            assert(self@.lines =~~= pre.lines.update(
                row as int,
                pre.lines[row as int].insert(
                    min(col as int, pre.lines[row as int].len() as int),
                    c,
                ),
            ));
        }
    }

    /// Removes the character at slot `col` of line `row`. Does nothing when
    /// either coordinate is out of range.
    pub fn delete(&mut self, col: usize, row: usize)
        ensures
            final(self)@.file == old(self)@.file,
            row < old(self)@.lines.len() && col < old(self)@.lines[row as int].len()
                ==> (final(self)@.lines == old(self)@.lines.update(
                row as int,
                old(self)@.lines[row as int].remove(col as int),
            )),
            !(row < old(self)@.lines.len() && col < old(self)@.lines[row as int].len())
                ==> final(self)@.lines == old(self)@.lines,
            old(self).wf() ==> final(self).wf(),
    {
        let ghost pre = self@;
        if row < self.lines.len() {
            let line = &mut self.lines[row];
            if col < line.len() {
                line.remove(col);
                assert(self@.lines =~~= pre.lines.update(
                    row as int,
                    pre.lines[row as int].remove(col as int),
                ));
            }
        }
    }

    /// Removes the whole line at `line`. Does nothing when out of range.
    /// Removing the only remaining line leaves a single empty line instead,
    /// so the buffer never becomes empty.
    pub fn remove_line(&mut self, line: usize)
        ensures
            final(self)@.file == old(self)@.file,
            line >= old(self)@.lines.len() ==> final(self)@.lines == old(self)@.lines,
            line < old(self)@.lines.len() && old(self)@.lines.len() == 1 ==> final(self)@.lines
                == seq![Seq::<char>::empty()],
            line < old(self)@.lines.len() && old(self)@.lines.len() > 1 ==> final(self)@.lines
                == old(self)@.lines.remove(line as int),
            old(self).wf() ==> final(self).wf(),
    {
        let ghost pre = self@;
        if line < self.lines.len() {
            if self.lines.len() == 1 {
                self.lines[0] = Vec::new();
                assert(self@.lines =~~= seq![Seq::<char>::empty()]);
            } else {
                self.lines.remove(line);
                assert(self@.lines =~~= pre.lines.remove(line as int));
            }
        }
    }

    /// Splits the line at `row` in two: the line keeps its prefix up to
    /// character slot `col` (clamped to the line length), and the rest
    /// becomes a new line right below. Does nothing when `row` is out of
    /// range.
    pub fn split_line(&mut self, row: usize, col: usize)
        ensures
            final(self)@.file == old(self)@.file,
            row < old(self)@.lines.len() ==> (final(self)@.lines == old(self)@.lines.update(
                row as int,
                old(self)@.lines[row as int].take(
                    min(col as int, old(self)@.lines[row as int].len() as int),
                ),
            ).insert(
                row as int + 1,
                old(self)@.lines[row as int].skip(
                    min(col as int, old(self)@.lines[row as int].len() as int),
                ),
            )),
            row >= old(self)@.lines.len() ==> final(self)@.lines == old(self)@.lines,
            old(self).wf() ==> final(self).wf(),
    {
        let ghost pre = self@;
        if row < self.lines.len() {
            let at = if col < self.lines[row].len() {
                col
            } else {
                self.lines[row].len()
            };
            let mut prefix: Vec<char> = Vec::new();
            let mut i: usize = 0;
            while i < at
                invariant
                    i <= at,
                    row < self.lines@.len(),
                    at <= self.lines@[row as int]@.len(),
                    self@ == pre,
                    prefix@ == self.lines@[row as int]@.take(i as int),
                decreases at - i,
            {
                let c = self.lines[row][i];
                prefix.push(c);
                assert(prefix@ =~= self.lines@[row as int]@.take(i + 1));
                i = i + 1;
            }
            let mut suffix: Vec<char> = Vec::new();
            let mut j: usize = at;
            while j < self.lines[row].len()
                invariant
                    at <= j <= self.lines@[row as int]@.len(),
                    row < self.lines@.len(),
                    self@ == pre,
                    suffix@ == self.lines@[row as int]@.subrange(at as int, j as int),
                decreases self.lines@[row as int]@.len() - j,
            {
                let c = self.lines[row][j];
                suffix.push(c);
                assert(suffix@ =~= self.lines@[row as int]@.subrange(at as int, j + 1));
                j = j + 1;
            }
            self.lines[row] = prefix;
            self.lines.insert(row + 1, suffix);
            assert(self@.lines =~~= pre.lines.update(
                row as int,
                pre.lines[row as int].take(min(col as int, pre.lines[row as int].len() as int)),
            ).insert(
                row as int + 1,
                pre.lines[row as int].skip(min(col as int, pre.lines[row as int].len() as int)),
            ));
        }
    }

    /// Appends the following line's content onto the line at `row` and
    /// removes the following line. Does nothing when `row` is the last line
    /// or out of range.
    pub fn join_with_next(&mut self, row: usize)
        ensures
            final(self)@.file == old(self)@.file,
            row + 1 < old(self)@.lines.len() ==> (final(self)@.lines == old(self)@.lines.update(
                row as int,
                old(self)@.lines[row as int] + old(self)@.lines[row as int + 1],
            ).remove(row as int + 1)),
            row + 1 >= old(self)@.lines.len() ==> final(self)@.lines == old(self)@.lines,
            old(self).wf() ==> final(self).wf(),
    {
        let ghost pre = self@;
        if row < self.lines.len() && row + 1 < self.lines.len() {
            let next_row = row + 1;
            let mut joined = self.lines[row].clone();
            assert(joined@ =~= pre.lines[row as int]);
            let mut j: usize = 0;
            while j < self.lines[next_row].len()
                invariant
                    next_row == row + 1,
                    row + 1 < self.lines@.len(),
                    j <= self.lines@[row as int + 1]@.len(),
                    self@ == pre,
                    joined@ == pre.lines[row as int] + self.lines@[row as int + 1]@.take(j as int),
                decreases self.lines@[row as int + 1]@.len() - j,
            {
                let c = self.lines[next_row][j];
                joined.push(c);
                assert(joined@ =~= pre.lines[row as int] + self.lines@[row as int + 1]@.take(
                    j + 1,
                ));
                j = j + 1;
            }
            self.lines[row] = joined;
            self.lines.remove(row + 1);
            assert(self@.lines =~~= pre.lines.update(
                row as int,
                pre.lines[row as int] + pre.lines[row as int + 1],
            ).remove(row as int + 1));
        }
    }
}

} // verus!
