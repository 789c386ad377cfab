//! The document: an ordered sequence of rows with a file identity and a
//! modified flag. Loading splits text on line feeds, saving joins every row
//! with one trailing line feed, and search walks the rows in either
//! direction.

use crate::editor::{Position, SearchDirection};
use crate::grapheme::{graphemes_of, push_char, split_graphemes};
use crate::row::{clamp_to, lemma_vec_deep_index, lemma_vec_deep_len, match_at, Row};
use crate::textfmt::{dec_of, usize_to_string};
use vstd::prelude::*;

verus! {

/// The text holds no line feed.
pub open spec fn line_ok(t: Seq<char>) -> bool {
    forall|k: int| 0 <= k < t.len() ==> t[k] != '\n'
}

/// The lines of a text, split on line feeds. A trailing line feed closes the
/// last line without opening an empty one.
pub open spec fn lines_of(s: Seq<char>) -> Seq<Seq<char>>
    decreases s.len(),
{
    if s.len() == 0 {
        Seq::empty()
    } else if s[0] == '\n' {
        seq![Seq::<char>::empty()] + lines_of(s.drop_first())
    } else {
        let rest = lines_of(s.drop_first());
        if rest.len() == 0 {
            seq![seq![s[0]]]
        } else {
            seq![seq![s[0]] + rest[0]] + rest.drop_first()
        }
    }
}

/// The on-disk form of a sequence of line texts: each line followed by
/// exactly one line feed.
pub open spec fn serialize_of(texts: Seq<Seq<char>>) -> Seq<char>
    decreases texts.len(),
{
    if texts.len() == 0 {
        Seq::empty()
    } else {
        texts[0] + seq!['\n'] + serialize_of(texts.drop_first())
    }
}

/// Prepending line-feed-free text to a text merges it into the first line.
proof fn lemma_lines_prepend(cur: Seq<char>, t: Seq<char>)
    requires
        line_ok(cur),
    ensures
        lines_of(cur + t) == (if cur.len() == 0 {
            lines_of(t)
        } else if lines_of(t).len() == 0 {
            seq![cur]
        } else {
            seq![cur + lines_of(t)[0]] + lines_of(t).drop_first()
        }),
    decreases cur.len(),
{
    if cur.len() == 0 {
        assert(cur + t =~= t);
    } else {
        lemma_lines_prepend(cur.drop_first(), t);
        assert((cur + t).len() > 0);
        assert((cur + t)[0] == cur[0]);
        assert((cur + t).drop_first() =~= cur.drop_first() + t);
        let rest = lines_of(cur.drop_first() + t);
        if cur.len() == 1 {
            assert(cur.drop_first().len() == 0);
            assert(rest == lines_of(t));
            if lines_of(t).len() == 0 {
                assert(seq![(cur + t)[0]] =~= cur);
                assert(lines_of(cur + t) =~= seq![cur]);
            } else {
                assert(seq![(cur + t)[0]] + rest[0] =~= cur + lines_of(t)[0]);
                assert(lines_of(cur + t) =~= seq![cur + lines_of(t)[0]] + lines_of(
                    t,
                ).drop_first());
            }
        } else {
            if lines_of(t).len() == 0 {
                assert(rest == seq![cur.drop_first()]);
                assert(seq![(cur + t)[0]] + rest[0] =~= cur);
                assert(lines_of(cur + t) =~= seq![cur]);
            } else {
                assert(rest == seq![cur.drop_first() + lines_of(t)[0]] + lines_of(
                    t,
                ).drop_first());
                assert(seq![(cur + t)[0]] + rest[0] =~= cur + lines_of(t)[0]);
                assert(rest.drop_first() =~= lines_of(t).drop_first());
                assert(lines_of(cur + t) =~= seq![cur + lines_of(t)[0]] + lines_of(
                    t,
                ).drop_first());
            }
        }
    }
}

/// Serializing after appending one more line text appends that text and one
/// line feed.
proof fn lemma_serialize_push(texts: Seq<Seq<char>>, t: Seq<char>)
    ensures
        serialize_of(texts.push(t)) == serialize_of(texts) + t + seq!['\n'],
    decreases texts.len(),
{
    if texts.len() == 0 {
        assert(texts.push(t).drop_first() =~= Seq::<Seq<char>>::empty());
        assert(texts.push(t)[0] == t);
        assert(serialize_of(Seq::<Seq<char>>::empty()) =~= Seq::<char>::empty());
        assert(serialize_of(texts.push(t)) =~= serialize_of(texts) + t + seq!['\n']);
    } else {
        lemma_serialize_push(texts.drop_first(), t);
        assert(texts.push(t).drop_first() =~= texts.drop_first().push(t));
        assert(texts.push(t)[0] == texts[0]);
        assert(serialize_of(texts.push(t)) =~= serialize_of(texts) + t + seq!['\n']);
    }
}

/// Reading back a serialized sequence of line-feed-free texts recovers the
/// texts exactly: the disk round trip loses nothing.
pub proof fn lemma_lines_of_serialize(texts: Seq<Seq<char>>)
    requires
        forall|i: int| 0 <= i < texts.len() ==> #[trigger] line_ok(texts[i]),
    ensures
        lines_of(serialize_of(texts)) == texts,
    decreases texts.len(),
{
    if texts.len() == 0 {
        assert(lines_of(serialize_of(texts)) =~= texts);
    } else {
        lemma_lines_of_serialize(texts.drop_first());
        let s = serialize_of(texts.drop_first());
        assert(texts[0] + seq!['\n'] + s =~= texts[0] + (seq!['\n'] + s));
        assert((seq!['\n'] + s)[0] == '\n');
        assert((seq!['\n'] + s).drop_first() =~= s);
        assert(lines_of(seq!['\n'] + s) == seq![Seq::<char>::empty()] + lines_of(s));
        assert(line_ok(texts[0]));
        lemma_lines_prepend(texts[0], seq!['\n'] + s);
        if texts[0].len() == 0 {
            assert(texts[0] =~= Seq::<char>::empty());
            assert((seq![Seq::<char>::empty()] + lines_of(s)).drop_first() =~= lines_of(s));
            assert(lines_of(serialize_of(texts)) =~= texts);
        } else {
            assert(texts[0] + lines_of(seq!['\n'] + s)[0] =~= texts[0]);
            assert((seq![Seq::<char>::empty()] + lines_of(s)).drop_first() =~= lines_of(s));
            assert(lines_of(serialize_of(texts)) =~= texts);
        }
    }
}

/// The row texts of a document view.
pub open spec fn doc_texts(rows: Seq<Seq<Seq<char>>>) -> Seq<Seq<char>> {
    rows.map_values(|u: Seq<Seq<char>>| u.flatten())
}

/// The unit sequence `q` occurs in the document at row `y`, column `x`.
pub open spec fn doc_match(rows: Seq<Seq<Seq<char>>>, q: Seq<Seq<char>>, y: int, x: int) -> bool {
    0 <= y < rows.len() && match_at(rows[y], q, x)
}

/// Row `y`, column `x` lies in the range a forward search from `after`
/// covers: at or after `after` in reading order.
pub open spec fn fwd_in_range(after: Position, y: int, x: int) -> bool {
    y > after.y || (y == after.y && x >= after.x)
}

/// A match at row `y`, column `x` lies in the range a backward search for a
/// query of `qlen` units from `after` covers: on an earlier row, or on
/// `after`'s row ending at or before `after.x`.
pub open spec fn bwd_in_range(after: Position, qlen: int, y: int, x: int) -> bool {
    y < after.y || (y == after.y && x + qlen <= after.x)
}

/// How a document changes when one character is inserted as its own cluster
/// at a position: nothing at all when the row index is more than one past
/// the last row.
pub open spec fn doc_insert(rows: Seq<Seq<Seq<char>>>, x: int, y: int, c: char) -> Seq<
    Seq<Seq<char>>,
> {
    if y < rows.len() {
        rows.update(y, rows[y].insert(clamp_to(x, rows[y].len() as int), seq![c]))
    } else if y == rows.len() {
        rows.push(seq![seq![c]])
    } else {
        rows
    }
}

/// How a document changes on a line break at a position: the row splits at
/// the column and its tail becomes the next row; past the last row an empty
/// row is appended instead.
pub open spec fn doc_insert_newline(rows: Seq<Seq<Seq<char>>>, x: int, y: int) -> Seq<
    Seq<Seq<char>>,
> {
    if 0 <= y < rows.len() {
        let cut = clamp_to(x, rows[y].len() as int);
        rows.update(y, rows[y].take(cut)).insert(y + 1, rows[y].skip(cut))
    } else {
        rows.push(Seq::empty())
    }
}

/// How a document changes when the row at `y` is removed and merged into the
/// row above it (if any).
pub open spec fn doc_delete_line(rows: Seq<Seq<Seq<char>>>, y: int) -> Seq<Seq<Seq<char>>> {
    if 0 <= y < rows.len() {
        if y > 0 {
            rows.remove(y).update(y - 1, rows[y - 1] + rows[y])
        } else {
            rows.remove(0)
        }
    } else {
        rows
    }
}

/// How a document changes on a delete at a position: at column 0 of a later
/// row the row merges into the one above; at any other position (the origin
/// included) the cluster at the column is removed, when there is one; stale
/// positions change nothing.
pub open spec fn doc_delete(rows: Seq<Seq<Seq<char>>>, x: int, y: int) -> Seq<Seq<Seq<char>>> {
    if x == 0 && y > 0 {
        if y < rows.len() {
            doc_delete_line(rows, y)
        } else {
            rows
        }
    } else if 0 <= y < rows.len() && x < rows[y].len() {
        rows.update(y, rows[y].remove(x))
    } else {
        rows
    }
}

/// Whether a delete at a position actually changes the document.
pub open spec fn doc_delete_changes(rows: Seq<Seq<Seq<char>>>, x: int, y: int) -> bool {
    if x == 0 && y > 0 {
        y < rows.len()
    } else {
        0 <= y < rows.len() && x < rows[y].len()
    }
}

/// The document: the rows in order, the path the buffer came from or will be
/// written to, and whether unsaved changes exist.
pub struct Document {
    rows: Vec<Row>,
    filename: Option<String>,
    dirty: bool,
}

impl View for Document {
    type V = Seq<Seq<Seq<char>>>;

    closed spec fn view(&self) -> Seq<Seq<Seq<char>>> {
        self.rows.deep_view()
    }
}

impl Document {
    /// Every row is well formed and no row text holds a line feed.
    pub closed spec fn wf(self) -> bool {
        &&& forall|i: int| 0 <= i < self.rows@.len() ==> (#[trigger] self.rows@[i]).wf()
        &&& forall|i: int| 0 <= i < self.rows@.len() ==> line_ok(#[trigger] self.rows@[i].text())
    }

    /// The row texts.
    pub open spec fn texts(self) -> Seq<Seq<char>> {
        doc_texts(self@)
    }

    /// The file identity, as text.
    pub closed spec fn filename_view(self) -> Option<Seq<char>> {
        match self.filename {
            Some(n) => Some(n@),
            None => None,
        }
    }

    /// Whether unsaved changes exist.
    pub closed spec fn dirty_spec(self) -> bool {
        self.dirty
    }

    /// In a well-formed document every row text is free of line feeds.
    pub proof fn lemma_wf_texts(self)
        requires
            self.wf(),
        ensures
            forall|i: int| 0 <= i < self.texts().len() ==> #[trigger] line_ok(self.texts()[i]),
            self.texts().len() == self@.len(),
    {
        broadcast use lemma_vec_deep_len, lemma_vec_deep_index;

        assert forall|i: int| 0 <= i < self.texts().len() implies #[trigger] line_ok(
            self.texts()[i],
        ) by {
            assert(self.texts()[i] == self.rows@[i].text());
        }
    }
}

impl Default for Document {
    /// An empty, unnamed, unmodified document.
    fn default() -> (r: Document)
        ensures
            r.wf(),
            r@ =~= Seq::<Seq<Seq<char>>>::empty(),
            r.filename_view() is None,
            !r.dirty_spec(),
    {
        Document { rows: Vec::new(), filename: None, dirty: false }
    }
}

/// Joining two line-feed-free texts yields a line-feed-free text.
proof fn lemma_line_ok_concat(a: Seq<char>, b: Seq<char>)
    requires
        line_ok(a),
        line_ok(b),
    ensures
        line_ok(a + b),
{
}

/// Any block of clusters cut from a line-feed-free row is itself
/// line-feed-free.
proof fn lemma_line_ok_subrange(units: Seq<Seq<char>>, lo: int, hi: int)
    requires
        0 <= lo <= hi <= units.len(),
        line_ok(units.flatten()),
    ensures
        line_ok(units.subrange(lo, hi).flatten()),
{
    vstd::seq_lib::lemma_flatten_concat(units.take(lo), units.skip(lo));
    assert(units.take(lo) + units.skip(lo) =~= units);
    vstd::seq_lib::lemma_flatten_concat(units.skip(lo).take(hi - lo), units.skip(lo).skip(hi - lo));
    assert(units.skip(lo).take(hi - lo) + units.skip(lo).skip(hi - lo) =~= units.skip(lo));
    assert(units.skip(lo).take(hi - lo) =~= units.subrange(lo, hi));
    let mid = units.subrange(lo, hi).flatten();
    let pre = units.take(lo).flatten();
    assert(units.flatten() == pre + (mid + units.skip(lo).skip(hi - lo).flatten()));
    assert forall|k: int| 0 <= k < mid.len() implies mid[k] != '\n' by {
        assert(units.flatten()[pre.len() + k] == mid[k]);
    }
}

impl Document {
    /// Loads a document from the full text of a file: one row per line-feed-
    /// delimited line, with no trailing empty row for a final line feed. The
    /// caller reads the file and hands its contents here.
    pub fn open(contents: &str, filename: &str) -> (r: Document)
        ensures
            r.wf(),
            r@ == lines_of(contents@).map_values(|t: Seq<char>| graphemes_of(t)),
            r.texts() == lines_of(contents@),
            r.filename_view() == Some(filename@),
            !r.dirty_spec(),
    {
        let n = contents.unicode_len();
        let mut rows: Vec<Row> = Vec::new();
        let ghost mut done: Seq<Seq<char>> = Seq::empty();
        let mut ls: usize = 0;
        let mut i: usize = 0;
        proof {
            assert(contents@.skip(0) =~= contents@);
            assert(done + lines_of(contents@) =~= lines_of(contents@));
        }
        while i < n
            invariant
                n == contents@.len(),
                ls <= i <= n,
                forall|k: int| ls <= k < i ==> contents@[k] != '\n',
                lines_of(contents@) =~= done + lines_of(contents@.skip(ls as int)),
                rows@.len() == done.len(),
                forall|k: int| 0 <= k < done.len() ==> (#[trigger] rows@[k]).wf(),
                forall|k: int| 0 <= k < done.len() ==> #[trigger] rows@[k]@ == graphemes_of(
                    done[k],
                ),
                forall|k: int|
                    0 <= k < done.len() ==> #[trigger] rows@[k].text() == done[k] && line_ok(
                        done[k],
                    ),
            decreases n - i,
        {
            let c = contents.get_char(i);
            if c == '\n' {
                let line = contents.substring_char(ls, i);
                let row = Row::from_text(line);
                rows.push(row);
                proof {
                    let seg = contents@.subrange(ls as int, i as int);
                    let rest = contents@.skip(i as int + 1);
                    assert(line@ == seg);
                    assert(line_ok(seg));
                    assert(contents@.skip(ls as int) =~= seg + (seq!['\n'] + rest));
                    assert((seq!['\n'] + rest)[0] == '\n');
                    assert((seq!['\n'] + rest).drop_first() =~= rest);
                    assert(lines_of(seq!['\n'] + rest) == seq![Seq::<char>::empty()] + lines_of(
                        rest,
                    ));
                    lemma_lines_prepend(seg, seq!['\n'] + rest);
                    if seg.len() == 0 {
                        assert(seg =~= Seq::<char>::empty());
                        assert(lines_of(contents@.skip(ls as int)) =~= seq![seg] + lines_of(rest));
                    } else {
                        assert(seg + lines_of(seq!['\n'] + rest)[0] =~= seg);
                        assert((seq![Seq::<char>::empty()] + lines_of(rest)).drop_first()
                            =~= lines_of(rest));
                        assert(lines_of(contents@.skip(ls as int)) =~= seq![seg] + lines_of(rest));
                    }
                    done = done.push(seg);
                    assert(lines_of(contents@) =~= done + lines_of(rest));
                }
                ls = i + 1;
            }
            i += 1;
        }
        if ls < n {
            let line = contents.substring_char(ls, n);
            let row = Row::from_text(line);
            rows.push(row);
            proof {
                let seg = contents@.subrange(ls as int, n as int);
                assert(line@ == seg);
                assert(contents@.skip(ls as int) =~= seg);
                assert(seg.len() > 0);
                lemma_lines_prepend(seg, Seq::<char>::empty());
                assert(seg + Seq::<char>::empty() =~= seg);
                assert(lines_of(Seq::<char>::empty()) =~= Seq::<Seq<char>>::empty());
                assert(lines_of(contents@.skip(ls as int)) == seq![seg]);
                done = done.push(seg);
                assert(lines_of(contents@) =~= done);
            }
        } else {
            proof {
                assert(contents@.skip(ls as int) =~= Seq::<char>::empty());
                assert(lines_of(Seq::<char>::empty()) =~= Seq::<Seq<char>>::empty());
                assert(lines_of(contents@) =~= done);
            }
        }
        let r = Document { rows, filename: Some(String::from_str(filename)), dirty: false };
        proof {
            broadcast use lemma_vec_deep_len, lemma_vec_deep_index;

            assert(r@ =~= lines_of(contents@).map_values(|t: Seq<char>| graphemes_of(t)));
            assert forall|k: int| 0 <= k < r@.len() implies r.texts()[k] == lines_of(
                contents@,
            )[k] by {
                assert(r.rows@[k].text() == done[k]);
                assert(r@[k] == r.rows@[k]@);
            }
            assert(r.texts() =~= lines_of(contents@));
        }
        r
    }

    /// The row at `index`, when it exists.
    pub fn row(&self, index: usize) -> (r: Option<&Row>)
        requires
            self.wf(),
        ensures
            match r {
                Some(row) => index < self@.len() && row.wf() && row@ == self@[index as int],
                None => index >= self@.len(),
            },
    {
        proof {
            broadcast use lemma_vec_deep_len, lemma_vec_deep_index;

        }
        if index < self.rows.len() {
            Some(&self.rows[index])
        } else {
            None
        }
    }

    /// The number of rows.
    pub fn len(&self) -> (r: usize)
        ensures
            r == self@.len(),
    {
        proof {
            broadcast use lemma_vec_deep_len;

        }
        self.rows.len()
    }

    /// True when the document has no rows.
    pub fn is_empty(&self) -> (r: bool)
        ensures
            r == (self@.len() == 0),
    {
        proof {
            broadcast use lemma_vec_deep_len;

        }
        self.rows.is_empty()
    }

    /// True when unsaved changes exist.
    pub fn is_dirty(&self) -> (r: bool)
        ensures
            r == self.dirty_spec(),
    {
        self.dirty
    }

    /// Records a successful save: the buffer now matches the file.
    pub fn mark_saved(&mut self)
        ensures
            final(self)@ == old(self)@,
            old(self).wf() ==> final(self).wf(),
            final(self).filename_view() == old(self).filename_view(),
            !final(self).dirty_spec(),
    {
        self.dirty = false;
    }

    /// Gives the document its file identity, as a "save as" prompt does.
    pub fn set_filename(&mut self, name: String)
        ensures
            final(self)@ == old(self)@,
            old(self).wf() ==> final(self).wf(),
            final(self).filename_view() == Some(name@),
            final(self).dirty_spec() == old(self).dirty_spec(),
    {
        self.filename = Some(name);
    }

    /// The file identity, when the document has one.
    pub fn filename(&self) -> (r: Option<&String>)
        ensures
            match r {
                Some(n) => self.filename_view() == Some(n@),
                None => self.filename_view() is None,
            },
    {
        self.filename.as_ref()
    }

    /// The full on-disk form of the document: every row's text followed by
    /// exactly one line feed, in order. The caller writes it to the file.
    pub fn serialize(&self) -> (r: String)
        requires
            self.wf(),
        ensures
            r@ == serialize_of(self.texts()),
    {
        let mut out = String::new();
        let mut i: usize = 0;
        proof {
            broadcast use lemma_vec_deep_len;

            assert(self.texts().take(0) =~= Seq::<Seq<char>>::empty());
            assert(serialize_of(Seq::<Seq<char>>::empty()) =~= Seq::<char>::empty());
        }
        while i < self.rows.len()
            invariant
                self.wf(),
                i <= self.rows@.len(),
                self.texts().len() == self.rows@.len(),
                out@ =~= serialize_of(self.texts().take(i as int)),
            decreases self.rows@.len() - i,
        {
            let line = self.rows[i].content();
            out.append(line.as_str());
            push_char(&mut out, '\n');
            proof {
                broadcast use lemma_vec_deep_len, lemma_vec_deep_index;

                lemma_serialize_push(self.texts().take(i as int), self.texts()[i as int]);
                assert(self.texts().take(i as int + 1) =~= self.texts().take(i as int).push(
                    self.texts()[i as int],
                ));
                assert(line@ == self.texts()[i as int]);
                assert(out@ =~= serialize_of(self.texts().take(i as int + 1)));
            }
            i += 1;
        }
        proof {
            assert(self.texts().take(self.texts().len() as int) =~= self.texts());
        }
        out
    }

    /// Breaks the line at `at`: the row splits at the column and the tail
    /// becomes the row below; past the last row an empty row is appended.
    pub fn insert_newline(&mut self, at: &Position)
        requires
            old(self).wf(),
        ensures
            final(self).wf(),
            final(self)@ == doc_insert_newline(old(self)@, at.x as int, at.y as int),
            final(self).filename_view() == old(self).filename_view(),
            final(self).dirty_spec() == old(self).dirty_spec(),
    {
        proof {
            broadcast use lemma_vec_deep_len, lemma_vec_deep_index;

        }
        let y = at.y;
        if y < self.rows.len() {
            let mut row = self.rows.remove(y);
            let tail = row.split(at.x);
            proof {
                broadcast use lemma_vec_deep_len, lemma_vec_deep_index;

                assert(line_ok(old(self).rows@[y as int].text()));
                assert(old(self)@[y as int] == old(self).rows@[y as int]@);
                lemma_line_ok_subrange(old(self)@[y as int], 0, row@.len() as int);
                lemma_line_ok_subrange(
                    old(self)@[y as int],
                    row@.len() as int,
                    old(self)@[y as int].len() as int,
                );
                assert(old(self)@[y as int].subrange(0, row@.len() as int) =~= row@);
                assert(old(self)@[y as int].subrange(
                    row@.len() as int,
                    old(self)@[y as int].len() as int,
                ) =~= tail@);
            }
            self.rows.insert(y, row);
            self.rows.insert(y + 1, tail);
            proof {
                broadcast use lemma_vec_deep_len, lemma_vec_deep_index;

                assert(self.rows.deep_view() =~= doc_insert_newline(
                    old(self)@,
                    at.x as int,
                    at.y as int,
                ));
            }
        } else {
            let row = Row::default();
            self.rows.push(row);
            proof {
                broadcast use lemma_vec_deep_len, lemma_vec_deep_index;

                assert(self.rows.deep_view() =~= doc_insert_newline(
                    old(self)@,
                    at.x as int,
                    at.y as int,
                ));
            }
        }
    }

    /// Inserts `c` at `at`. A line feed breaks the line; any other character
    /// becomes one new cluster in the row (a fresh row at the end of the
    /// document when needed). A row index more than one past the end is
    /// rejected as a no-op. Any accepted insert marks the document dirty.
    pub fn insert(&mut self, at: &Position, c: char)
        requires
            old(self).wf(),
        ensures
            final(self).wf(),
            at.y as int > old(self)@.len() ==> (final(self)@ == old(self)@
                && final(self).dirty_spec() == old(self).dirty_spec()),
            at.y as int <= old(self)@.len() ==> final(self).dirty_spec(),
            c == '\n' && at.y as int <= old(self)@.len() ==> final(self)@ == doc_insert_newline(
                old(self)@,
                at.x as int,
                at.y as int,
            ),
            c != '\n' && at.y as int <= old(self)@.len() ==> final(self)@ == doc_insert(
                old(self)@,
                at.x as int,
                at.y as int,
                c,
            ),
            final(self).filename_view() == old(self).filename_view(),
    {
        proof {
            broadcast use lemma_vec_deep_len, lemma_vec_deep_index;

        }
        let y = at.y;
        if y > self.rows.len() {
            return ;
        }
        self.dirty = true;
        if c == '\n' {
            self.insert_newline(at);
            return ;
        }
        if y < self.rows.len() {
            let mut row = self.rows.remove(y);
            let ghost before = row;
            row.insert(at.x, c);
            proof {
                broadcast use lemma_vec_deep_len, lemma_vec_deep_index;

                assert(line_ok(old(self).rows@[y as int].text()));
                assert(before@ == old(self).rows@[y as int]@);
                lemma_line_ok_insert(before@, clamp_to(at.x as int, before@.len() as int), c);
            }
            self.rows.insert(y, row);
            proof {
                broadcast use lemma_vec_deep_len, lemma_vec_deep_index;

                assert(self.rows.deep_view() =~= doc_insert(
                    old(self)@,
                    at.x as int,
                    at.y as int,
                    c,
                ));
            }
        } else {
            let mut row = Row::default();
            row.insert(at.x, c);
            proof {
                assert(row@ =~= seq![seq![c]]);
                row@.lemma_flatten_one_element();
                assert(row@.flatten() == seq![c]);
            }
            self.rows.push(row);
            proof {
                broadcast use lemma_vec_deep_len, lemma_vec_deep_index;

                assert(self.rows.deep_view() =~= doc_insert(
                    old(self)@,
                    at.x as int,
                    at.y as int,
                    c,
                ));
            }
        }
    }

    /// Removes the row at `at.y` and, when a row stands above it, appends the
    /// removed text to that row. Positions past the last row change nothing.
    pub fn delete_line(&mut self, at: &Position)
        requires
            old(self).wf(),
        ensures
            final(self).wf(),
            final(self)@ == doc_delete_line(old(self)@, at.y as int),
            final(self).filename_view() == old(self).filename_view(),
            final(self).dirty_spec() == old(self).dirty_spec(),
    {
        proof {
            broadcast use lemma_vec_deep_len, lemma_vec_deep_index;

        }
        let y = at.y;
        if y >= self.rows.len() {
            return ;
        }
        let removed = self.rows.remove(y);
        if y > 0 {
            let mut prev = self.rows.remove(y - 1);
            let ghost before = prev;
            prev.extend(&removed);
            proof {
                broadcast use lemma_vec_deep_len, lemma_vec_deep_index;

                assert(line_ok(old(self).rows@[y - 1].text()));
                assert(line_ok(old(self).rows@[y as int].text()));
                assert(before@ == old(self).rows@[y - 1]@);
                assert(removed@ == old(self).rows@[y as int]@);
                vstd::seq_lib::lemma_flatten_concat(before@, removed@);
                lemma_line_ok_concat(before@.flatten(), removed@.flatten());
            }
            self.rows.insert(y - 1, prev);
            proof {
                broadcast use lemma_vec_deep_len, lemma_vec_deep_index;

                assert(self.rows.deep_view() =~= doc_delete_line(old(self)@, at.y as int));
            }
        } else {
            proof {
                broadcast use lemma_vec_deep_len, lemma_vec_deep_index;

                assert(self.rows.deep_view() =~= doc_delete_line(old(self)@, at.y as int));
            }
        }
    }

    /// Deletes at `at`: at column 0 of a later row the row merges into the
    /// one above (backspace at line start); at any other position, the
    /// origin included, the cluster at the column is removed, when there is
    /// one. Stale positions change nothing, and the document is marked dirty
    /// exactly when something changed.
    pub fn delete(&mut self, at: &Position)
        requires
            old(self).wf(),
        ensures
            final(self).wf(),
            final(self)@ == doc_delete(old(self)@, at.x as int, at.y as int),
            final(self).dirty_spec() == (old(self).dirty_spec() || doc_delete_changes(
                old(self)@,
                at.x as int,
                at.y as int,
            )),
            final(self).filename_view() == old(self).filename_view(),
    {
        proof {
            broadcast use lemma_vec_deep_len, lemma_vec_deep_index;

        }
        let x = at.x;
        let y = at.y;
        if x == 0 && y > 0 {
            if y < self.rows.len() {
                self.delete_line(at);
                self.dirty = true;
            }
            return ;
        }
        if y < self.rows.len() {
            let mut row = self.rows.remove(y);
            let ghost before = row;
            let changes = x < row.len();
            row.delete(x);
            proof {
                broadcast use lemma_vec_deep_len, lemma_vec_deep_index;

                assert(line_ok(old(self).rows@[y as int].text()));
                assert(before@ == old(self).rows@[y as int]@);
                if x < before@.len() {
                    assert(before@.remove(x as int) =~= before@.subrange(0, x as int)
                        + before@.subrange(x as int + 1, before@.len() as int));
                    lemma_line_ok_subrange(before@, 0, x as int);
                    lemma_line_ok_subrange(before@, x as int + 1, before@.len() as int);
                    vstd::seq_lib::lemma_flatten_concat(
                        before@.subrange(0, x as int),
                        before@.subrange(x as int + 1, before@.len() as int),
                    );
                    lemma_line_ok_concat(
                        before@.subrange(0, x as int).flatten(),
                        before@.subrange(x as int + 1, before@.len() as int).flatten(),
                    );
                }
            }
            self.rows.insert(y, row);
            if changes {
                self.dirty = true;
            }
            proof {
                broadcast use lemma_vec_deep_len, lemma_vec_deep_index;

                assert(self.rows.deep_view() =~= doc_delete(old(self)@, at.x as int, at.y as int));
            }
        }
    }
}

/// Inserting one line-feed-free cluster into a line-feed-free row keeps the
/// row line-feed-free.
proof fn lemma_line_ok_insert(units: Seq<Seq<char>>, at: int, c: char)
    requires
        0 <= at <= units.len(),
        line_ok(units.flatten()),
        c != '\n',
    ensures
        line_ok(units.insert(at, seq![c]).flatten()),
{
    assert(units.insert(at, seq![c]) =~= units.take(at) + (seq![seq![c]] + units.skip(at)));
    vstd::seq_lib::lemma_flatten_concat(units.take(at), seq![seq![c]] + units.skip(at));
    vstd::seq_lib::lemma_flatten_concat(seq![seq![c]], units.skip(at));
    seq![seq![c]].lemma_flatten_one_element();
    assert(seq![seq![c]].flatten() == seq![c]);
    lemma_line_ok_subrange(units, 0, at);
    lemma_line_ok_subrange(units, at, units.len() as int);
    assert(units.take(at) =~= units.subrange(0, at));
    assert(units.skip(at) =~= units.subrange(at, units.len() as int));
    lemma_line_ok_concat(seq![c], units.skip(at).flatten());
    lemma_line_ok_concat(units.take(at).flatten(), seq![c] + units.skip(at).flatten());
    assert(units.insert(at, seq![c]).flatten() == units.take(at).flatten() + (seq![c]
        + units.skip(at).flatten()));
}

/// The status-line text: the file name (shortened to at most 20 characters,
/// or a placeholder), the row count, and a modified marker.
pub open spec fn status_text_spec(name: Option<Seq<char>>, lines: int, dirty: bool) -> Seq<char> {
    (match name {
        Some(n) => if n.len() <= 20 {
            n
        } else {
            n.take(20)
        },
        None => "[No Name]"@,
    }) + " - "@ + dec_of(lines) + " lines"@ + (if dirty {
        " (modified)"@
    } else {
        Seq::<char>::empty()
    })
}


/// `r` is the result of a search for `q` through the document `rows` from
/// `after` in `direction`: the nearest in-range match in reading order
/// (forward) or in reverse reading order (backward), or nothing when no
/// in-range match exists or `after` lies past the last row.
pub open spec fn is_find_result(
    rows: Seq<Seq<Seq<char>>>,
    q: Seq<Seq<char>>,
    after: Position,
    direction: SearchDirection,
    r: Option<Position>,
) -> bool {
    match r {
        Some(p) => {
            &&& (after.y as int) < rows.len()
            &&& doc_match(rows, q, p.y as int, p.x as int)
            &&& if direction == SearchDirection::Forward {
                &&& fwd_in_range(after, p.y as int, p.x as int)
                &&& forall|yy: int, xx: int|
                    fwd_in_range(after, yy, xx) && #[trigger] doc_match(rows, q, yy, xx) ==> (p.y
                        < yy || (p.y == yy && p.x <= xx))
            } else {
                &&& bwd_in_range(after, q.len() as int, p.y as int, p.x as int)
                &&& forall|yy: int, xx: int|
                    bwd_in_range(after, q.len() as int, yy, xx) && #[trigger] doc_match(
                        rows,
                        q,
                        yy,
                        xx,
                    ) ==> (yy < p.y || (yy == p.y && xx <= p.x))
            }
        },
        None => (after.y as int) >= rows.len() || if direction == SearchDirection::Forward {
            forall|yy: int, xx: int|
                fwd_in_range(after, yy, xx) ==> !#[trigger] doc_match(rows, q, yy, xx)
        } else {
            forall|yy: int, xx: int|
                bwd_in_range(after, q.len() as int, yy, xx) ==> !#[trigger] doc_match(
                    rows,
                    q,
                    yy,
                    xx,
                )
        },
    }
}

impl Document {
    /// The status-line summary: file name shortened to at most 20
    /// characters (or a placeholder), the row count, and a modified marker.
    pub fn status_bar_text(&self) -> (r: String)
        ensures
            r@ == status_text_spec(self.filename_view(), self@.len() as int, self.dirty_spec()),
    {
        proof {
            broadcast use lemma_vec_deep_len;

        }
        let mut out = String::new();
        match &self.filename {
            Some(name) => {
                let nlen = name.as_str().unicode_len();
                if nlen <= 20 {
                    out.append(name.as_str());
                } else {
                    out.append(name.as_str().substring_char(0, 20));
                    proof {
                        assert(name@.subrange(0, 20) =~= name@.take(20));
                    }
                }
            },
            None => {
                out.append("[No Name]");
            },
        }
        out.append(" - ");
        let num = usize_to_string(self.rows.len());
        out.append(num.as_str());
        out.append(" lines");
        if self.dirty {
            out.append(" (modified)");
        }
        proof {
            assert(out@ =~= status_text_spec(
                self.filename_view(),
                self@.len() as int,
                self.dirty_spec(),
            ));
        }
        out
    }

    /// Multi-row literal search. Forward scans from `after` to the end of
    /// the document, starting at `after.x` in the first row; backward scans
    /// from `after` up to row 0, considering in `after`'s row only matches
    /// ending at or before `after.x` and in earlier rows every match. The
    /// scan never wraps around the document boundary, and a start row past
    /// the document finds nothing.
    pub fn find(&self, query: &str, after: &Position, direction: SearchDirection) -> (r: Option<
        Position,
    >)
        requires
            self.wf(),
        ensures
            is_find_result(self@, graphemes_of(query@), *after, direction, r),
    {
        proof {
            broadcast use lemma_vec_deep_len, lemma_vec_deep_index;

        }
        if after.y >= self.rows.len() {
            return None;
        }
        let q = split_graphemes(query);
        match direction {
            SearchDirection::Forward => {
                let mut y = after.y;
                let mut from = after.x;
                while y < self.rows.len()
                    invariant
                        direction == SearchDirection::Forward,
                        self.wf(),
                        q.deep_view() == graphemes_of(query@),
                        after.y < self@.len(),
                        self@.len() == self.rows@.len(),
                        after.y <= y,
                        y == after.y ==> from == after.x,
                        y > after.y ==> from == 0,
                        forall|yy: int, xx: int|
                            fwd_in_range(*after, yy, xx) && yy < y ==> !#[trigger] doc_match(
                                self@,
                                graphemes_of(query@),
                                yy,
                                xx,
                            ),
                    decreases self.rows@.len() - y,
                {
                    let row = &self.rows[y];
                    if let Some(x) = row.find_units(&q, from, SearchDirection::Forward) {
                        proof {
                            assert(self@[y as int] == self.rows@[y as int]@);
                        }
                        return Some(Position { x, y });
                    }
                    proof {
                        assert(self@[y as int] == self.rows@[y as int]@);
                        assert forall|yy: int, xx: int|
                            fwd_in_range(*after, yy, xx) && yy < y + 1 implies !doc_match(
                            self@,
                            graphemes_of(query@),
                            yy,
                            xx,
                        ) by {
                            if yy == y && doc_match(self@, graphemes_of(query@), yy, xx) {
                                assert(!match_at(self@[y as int], graphemes_of(query@), xx));
                            }
                        }
                    }
                    y += 1;
                    from = 0;
                }
                None
            },
            SearchDirection::Backward => {
                let mut yy = after.y + 1;
                while yy > 0
                    invariant
                        direction == SearchDirection::Backward,
                        self.wf(),
                        q.deep_view() == graphemes_of(query@),
                        after.y < self@.len(),
                        self@.len() == self.rows@.len(),
                        yy <= after.y + 1,
                        forall|y2: int, x2: int|
                            bwd_in_range(*after, graphemes_of(query@).len() as int, y2, x2) && y2
                                >= yy ==> !#[trigger] doc_match(self@, graphemes_of(query@), y2, x2),
                    decreases yy,
                {
                    yy -= 1;
                    let row = &self.rows[yy];
                    let from = if yy == after.y {
                        after.x
                    } else {
                        row.len()
                    };
                    if let Some(x) = row.find_units(&q, from, SearchDirection::Backward) {
                        proof {
                            assert(self@[yy as int] == self.rows@[yy as int]@);
                        }
                        return Some(Position { x, y: yy });
                    }
                    proof {
                        assert(self@[yy as int] == self.rows@[yy as int]@);
                        assert forall|y2: int, x2: int|
                            bwd_in_range(*after, graphemes_of(query@).len() as int, y2, x2) && y2
                                >= yy implies !doc_match(self@, graphemes_of(query@), y2, x2) by {
                            if y2 == yy && doc_match(self@, graphemes_of(query@), y2, x2) {
                                assert(!match_at(self@[yy as int], graphemes_of(query@), x2));
                            }
                        }
                    }
                }
                None
            },
        }
    }
}

/// Searching forward and then immediately backward from the found position
/// never loses a match: when any match for the same query lies in the range
/// of a backward search from the match `m` a forward search returned, that
/// backward search reports a match, and reports none earlier than the latest
/// one.
pub proof fn lemma_search_round_trip(
    rows: Seq<Seq<Seq<char>>>,
    q: Seq<Seq<char>>,
    m: Position,
    r: Option<Position>,
    py: int,
    px: int,
)
    requires
        doc_match(rows, q, py, px),
        bwd_in_range(m, q.len() as int, py, px),
        (m.y as int) < rows.len(),
        is_find_result(rows, q, m, SearchDirection::Backward, r),
    ensures
        r is Some,
        py < r->Some_0.y || (py == r->Some_0.y && px <= r->Some_0.x),
{
}

} // verus!
