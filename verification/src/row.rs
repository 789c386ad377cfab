//! One line of text, held as its sequence of grapheme clusters so that every
//! position and length is in user-visible columns, never bytes.

use crate::editor::SearchDirection;
use crate::grapheme::{graphemes_of, push_char, split_graphemes};
use vstd::prelude::*;

verus! {

/// How one cluster is shown: a tab becomes a single space.
pub open spec fn tab_map(g: Seq<char>) -> Seq<char> {
    if g == seq!['\t'] {
        seq![' ']
    } else {
        g
    }
}

/// The text `render` produces: the clusters in the column range
/// `[start, end)` after clamping both bounds to the row, each tab replaced
/// by one space, joined together.
pub open spec fn render_spec(units: Seq<Seq<char>>, start: int, end: int) -> Seq<char> {
    let e = if end <= units.len() {
        end
    } else {
        units.len() as int
    };
    let s = if start <= e {
        start
    } else {
        e
    };
    units.subrange(s, e).map_values(|g: Seq<char>| tab_map(g)).flatten()
}

/// The unit sequence `q` occurs in `units` starting at column `i`.
pub open spec fn match_at(units: Seq<Seq<char>>, q: Seq<Seq<char>>, i: int) -> bool {
    &&& 0 <= i
    &&& i + q.len() <= units.len()
    &&& units.subrange(i, i + q.len()) == q
}

/// A found column, widened for use in specifications.
pub open spec fn opt_int(r: Option<usize>) -> Option<int> {
    match r {
        Some(i) => Some(i as int),
        None => None,
    }
}

/// `r` is the result of a forward search for `q` in `units` from column
/// `from`: the leftmost match at or after `from`, or nothing when no such
/// match exists.
pub open spec fn is_fwd_find(
    units: Seq<Seq<char>>,
    q: Seq<Seq<char>>,
    from: int,
    r: Option<int>,
) -> bool {
    match r {
        Some(i) => {
            &&& from <= i
            &&& match_at(units, q, i)
            &&& forall|j: int| from <= j < i ==> !match_at(units, q, j)
        },
        None => forall|j: int| j >= from ==> !match_at(units, q, j),
    }
}

/// `r` is the result of a backward search for `q` in `units` from column
/// `from`: the rightmost match that ends at or before `from`, or nothing
/// when no such match exists.
pub open spec fn is_bwd_find(
    units: Seq<Seq<char>>,
    q: Seq<Seq<char>>,
    from: int,
    r: Option<int>,
) -> bool {
    match r {
        Some(i) => {
            &&& i + q.len() <= from
            &&& match_at(units, q, i)
            &&& forall|j: int| i < j && j + q.len() <= from ==> !match_at(units, q, j)
        },
        None => forall|j: int| j + q.len() <= from ==> !match_at(units, q, j),
    }
}

/// Compares the clusters of `q` against the window of `units` that starts
/// at column `i`.
fn window_eq(units: &Vec<String>, q: &Vec<String>, i: usize) -> (r: bool)
    requires
        i + q@.len() <= units@.len(),
        units@.len() <= usize::MAX,
    ensures
        r == match_at(units.deep_view(), q.deep_view(), i as int),
{
    proof {
        broadcast use lemma_vec_deep_len;

    }
    let mut k: usize = 0;
    while k < q.len()
        invariant
            i + q@.len() <= units@.len(),
            units@.len() <= usize::MAX,
            k <= q@.len(),
            forall|m: int|
                0 <= m < k ==> units.deep_view()[i + m] == #[trigger] q.deep_view()[m],
        decreases q@.len() - k,
    {
        let same = units[i + k] == q[k];
        proof {
            broadcast use lemma_vec_deep_len, lemma_vec_deep_index;

        }
        if !same {
            proof {
                let ud = units.deep_view();
                let qd = q.deep_view();
                assert(ud[i + k] != qd[k as int]);
                if match_at(ud, qd, i as int) {
                    assert(ud.subrange(i as int, i + qd.len())[k as int] == ud[i + k]);
                }
            }
            return false;
        }
        k += 1;
    }
    proof {
        broadcast use lemma_vec_deep_len, lemma_vec_deep_index;

        assert(units.deep_view().subrange(i as int, i + q.deep_view().len())
            =~= q.deep_view());
    }
    true
}

/// Every column of `units` is a match for the empty unit sequence.
proof fn lemma_empty_match(units: Seq<Seq<char>>, q: Seq<Seq<char>>, i: int)
    requires
        q.len() == 0,
        0 <= i <= units.len(),
    ensures
        match_at(units, q, i),
{
    assert(units.subrange(i, i) =~= q);
}

/// One row of the document. `graphemes` holds the row's text one cluster per
/// element; `len` caches the element count and is kept in sync by every
/// mutation.
///
/// A row fresh from segmentation has exactly one Unicode grapheme cluster
/// per element. Edits then work on whole elements and never re-segment the
/// joined text: an inserted character stays a column of its own even where
/// Unicode segmentation of the new text would merge it into a neighbouring
/// cluster (a combining mark typed after a letter). So after such an edit
/// the row's length is its stored-element count, which can exceed the
/// grapheme count of the joined text. This is a deliberate choice of model:
/// under re-segmentation, inserting a character and deleting at the same
/// column could not restore the row, while here that round trip is exact for
/// every character.
pub struct Row {
    graphemes: Vec<String>,
    len: usize,
}

impl View for Row {
    type V = Seq<Seq<char>>;

    closed spec fn view(&self) -> Seq<Seq<char>> {
        self.graphemes.deep_view()
    }
}

impl DeepView for Row {
    type V = Seq<Seq<char>>;

    open spec fn deep_view(&self) -> Seq<Seq<char>> {
        self.view()
    }
}

/// A vector seen deeply has as many entries as the vector itself.
pub broadcast proof fn lemma_vec_deep_len<T: DeepView>(v: Vec<T>)
    ensures
        #[trigger] v.deep_view().len() == v@.len(),
{
}

/// An entry of a vector seen deeply is that entry's own deep view.
pub broadcast proof fn lemma_vec_deep_index<T: DeepView>(v: Vec<T>, i: int)
    requires
        0 <= i < v@.len(),
    ensures
        #[trigger] v.deep_view()[i] == v@[i].deep_view(),
{
}

/// Where an insertion at column `at` lands: at `at` itself, or at the end of
/// the row when `at` lies beyond it.
pub open spec fn clamp_to(at: int, len: int) -> int {
    if at <= len {
        at
    } else {
        len
    }
}

impl Default for Row {
    /// An empty row.
    fn default() -> (r: Row)
        ensures
            r.wf(),
            r@ == Seq::<Seq<char>>::empty(),
            r.text() == Seq::<char>::empty(),
    {
        let r = Row { graphemes: Vec::new(), len: 0 };
        proof {
            assert(r@ =~= Seq::<Seq<char>>::empty());
            assert(Seq::<Seq<char>>::empty().flatten() =~= Seq::<char>::empty());
        }
        r
    }
}

impl Row {
    /// Every grapheme cluster in the row is non-empty.
    pub open spec fn units_wf(self) -> bool {
        forall|i: int| 0 <= i < self@.len() ==> #[trigger] self@[i].len() > 0
    }

    /// The cached length agrees with the cluster count, and every cluster is
    /// non-empty.
    pub closed spec fn wf(self) -> bool {
        &&& self.len == self@.len()
        &&& self.units_wf()
    }

    /// The row's text: its grapheme clusters joined back together.
    pub open spec fn text(self) -> Seq<char> {
        self@.flatten()
    }

    /// Builds a row from one line of text by segmenting it into grapheme
    /// clusters.
    pub fn from_text(s: &str) -> (r: Row)
        ensures
            r.wf(),
            r@ == graphemes_of(s@),
            r.text() == s@,
    {
        let graphemes = split_graphemes(s);
        let len = graphemes.len();
        Row { graphemes, len }
    }

    /// The number of stored clusters: the user-visible width, never the
    /// byte length. For a row fresh from segmentation this is the Unicode
    /// grapheme-cluster count of the text; after an edit it counts the
    /// stored clusters, one per inserted character (see `Row`).
    pub fn len(&self) -> (r: usize)
        requires
            self.wf(),
        ensures
            r == self@.len(),
    {
        self.len
    }

    /// True when the row holds no text at all.
    pub fn is_empty(&self) -> (r: bool)
        requires
            self.wf(),
        ensures
            r == (self.text().len() == 0),
    {
        proof {
            if self@.len() == 0 {
                assert(self.text() =~= Seq::<char>::empty());
            } else {
                self@.lemma_flatten_and_flatten_alt_are_equivalent();
                self@.lemma_flatten_length_ge_single_element_length(0);
            }
        }
        self.graphemes.len() == 0
    }

    /// The cached length agrees with the cluster count.
    pub closed spec fn len_ok(self) -> bool {
        self.len == self@.len()
    }

    /// Recomputes the cached cluster count from the stored clusters.
    pub fn update_len(&mut self)
        ensures
            final(self)@ == old(self)@,
            final(self).len_ok(),
            old(self).units_wf() ==> final(self).wf(),
    {
        self.len = self.graphemes.len();
        proof {
            assert(self@ == old(self)@);
            assert(self.len == self@.len());
            if old(self).units_wf() {
                assert forall|i: int| 0 <= i < self@.len() implies #[trigger] self@[i].len()
                    > 0 by {
                    assert(old(self)@[i].len() > 0);
                }
            }
        }
    }

    /// Inserts one character as a cluster of its own at column `at`; a
    /// position at or past the end appends. Never fails. The neighbouring
    /// clusters are not re-segmented, so the character is one new column
    /// even where Unicode would merge it with a neighbour; deleting at the
    /// same column therefore restores the row exactly (see `Row`).
    pub fn insert(&mut self, at: usize, ch: char)
        requires
            old(self).wf(),
        ensures
            final(self).wf(),
            final(self)@ == old(self)@.insert(
                clamp_to(at as int, old(self)@.len() as int),
                seq![ch],
            ),
    {
        let mut g = String::new();
        push_char(&mut g, ch);
        proof {
            assert(g@ =~= seq![ch]);
        }
        if at >= self.len {
            self.graphemes.push(g);
            proof {
                assert(self.graphemes.deep_view() =~= old(self)@.insert(
                    old(self)@.len() as int,
                    seq![ch],
                ));
            }
        } else {
            self.graphemes.insert(at, g);
            proof {
                assert(self.graphemes.deep_view() =~= old(self)@.insert(at as int, seq![ch]));
            }
        }
        self.update_len();
    }

    /// Removes the cluster at column `at`; a position at or past the end is
    /// a no-op.
    pub fn delete(&mut self, at: usize)
        requires
            old(self).wf(),
        ensures
            final(self).wf(),
            at < old(self)@.len() ==> final(self)@ == old(self)@.remove(at as int),
            at >= old(self)@.len() ==> final(self)@ == old(self)@,
    {
        if at >= self.len {
            return ;
        }
        self.graphemes.remove(at);
        proof {
            assert(self.graphemes.deep_view() =~= old(self)@.remove(at as int));
        }
        self.update_len();
    }

    /// Truncates the row to the columns before `at` and returns a new row
    /// holding the rest; `at` is clamped to the row length.
    pub fn split(&mut self, at: usize) -> (r: Row)
        requires
            old(self).wf(),
        ensures
            final(self).wf(),
            r.wf(),
            final(self)@ == old(self)@.take(clamp_to(at as int, old(self)@.len() as int)),
            r@ == old(self)@.skip(clamp_to(at as int, old(self)@.len() as int)),
    {
        let cut = if at <= self.len {
            at
        } else {
            self.len
        };
        let tail = self.graphemes.split_off(cut);
        proof {
            assert(self.graphemes.deep_view() =~= old(self)@.take(cut as int));
            assert(tail.deep_view() =~= old(self)@.skip(cut as int));
        }
        self.update_len();
        let tail_len = tail.len();
        Row { graphemes: tail, len: tail_len }
    }

    /// Appends another row's full text to this row's end.
    pub fn extend(&mut self, other: &Row)
        requires
            old(self).wf(),
            other.wf(),
        ensures
            final(self).wf(),
            final(self)@ == old(self)@ + other@,
    {
        let mut i: usize = 0;
        while i < other.graphemes.len()
            invariant
                old(self).wf(),
                other.wf(),
                i <= other.graphemes.len(),
                self.graphemes.deep_view() =~= old(self)@ + other@.take(i as int),
                self.len == old(self).len,
            decreases other.graphemes.len() - i,
        {
            let g = other.graphemes[i].clone();
            proof {
                broadcast use lemma_vec_deep_len, lemma_vec_deep_index;

                assert(g@ == other@[i as int]);
            }
            let ghost pre = self.graphemes.deep_view();
            self.graphemes.push(g);
            proof {
                broadcast use lemma_vec_deep_len, lemma_vec_deep_index;

                assert(self.graphemes.deep_view().len() == pre.len() + 1);
                assert forall|k: int| 0 <= k < pre.len() implies self.graphemes.deep_view()[k]
                    == pre[k] by {
                }
                assert(self.graphemes.deep_view()[pre.len() as int] == g@);
                assert(self.graphemes.deep_view() =~= pre.push(g@));
                assert(other@.take(i as int + 1) =~= other@.take(i as int).push(other@[i as int]));
                assert(self.graphemes.deep_view() =~= old(self)@ + other@.take(i as int + 1));
            }
            i += 1;
        }
        proof {
            assert(self.graphemes.deep_view() =~= old(self)@ + other@);
        }
        self.update_len();
    }

    /// Renders the clusters in the column range `[start, end)` for display,
    /// tabs shown as single spaces. Both bounds are clamped to the row, so
    /// no input can fail.
    pub fn render(&self, start: usize, end: usize) -> (r: String)
        requires
            self.wf(),
        ensures
            r@ == render_spec(self@, start as int, end as int),
    {
        let e = if end <= self.len {
            end
        } else {
            self.len
        };
        let s = if start <= e {
            start
        } else {
            e
        };
        let tab = String::from_str("\t");
        proof {
            reveal_strlit("\t");
            reveal_strlit(" ");
            assert(tab@ =~= seq!['\t']);
        }
        let mut out = String::new();
        let mut i = s;
        while i < e
            invariant
                self.wf(),
                s <= i <= e <= self@.len(),
                tab@ == seq!['\t'],
                " "@ == seq![' '],
                out@ =~= self@.subrange(s as int, i as int).map_values(
                    |g: Seq<char>| tab_map(g),
                ).flatten(),
            decreases e - i,
        {
            let is_tab = self.graphemes[i] == tab;
            if is_tab {
                out.append(" ");
            } else {
                out.append(self.graphemes[i].as_str());
            }
            proof {
                broadcast use vstd::prelude::Seq::lemma_flatten_push;
                broadcast use lemma_vec_deep_len, lemma_vec_deep_index;

                let f = |g: Seq<char>| tab_map(g);
                assert(self@.subrange(s as int, i as int + 1) =~= self@.subrange(
                    s as int,
                    i as int,
                ).push(self@[i as int]));
                assert(self@.subrange(s as int, i as int + 1).map_values(f) =~= self@.subrange(
                    s as int,
                    i as int,
                ).map_values(f).push(f(self@[i as int])));
            }
            i += 1;
        }
        out
    }

    /// Searches this row for the clusters of `q`, forward in `[from, len)`
    /// or backward in the columns whose match ends at or before `from`.
    pub(crate) fn find_units(&self, q: &Vec<String>, from: usize, direction: SearchDirection) -> (r:
        Option<usize>)
        requires
            self.wf(),
        ensures
            direction == SearchDirection::Forward ==> is_fwd_find(
                self@,
                q.deep_view(),
                from as int,
                opt_int(r),
            ),
            direction == SearchDirection::Backward ==> is_bwd_find(
                self@,
                q.deep_view(),
                from as int,
                opt_int(r),
            ),
    {
        proof {
            broadcast use lemma_vec_deep_len;

        }
        let qlen = q.len();
        match direction {
            SearchDirection::Forward => {
                if qlen == 0 {
                    if from <= self.len {
                        proof {
                            lemma_empty_match(self@, q.deep_view(), from as int);
                        }
                        return Some(from);
                    }
                    return None;
                }
                if qlen > self.len || from > self.len - qlen {
                    return None;
                }
                let last = self.len - qlen;
                let mut i = from;
                while i <= last
                    invariant
                        direction == SearchDirection::Forward,
                        self.wf(),
                        qlen == q@.len(),
                        last == self@.len() - qlen,
                        qlen >= 1,
                        from <= i <= last + 1,
                        forall|j: int|
                            from <= j < i ==> !match_at(self@, q.deep_view(), j),
                    decreases last + 1 - i,
                {
                    if window_eq(&self.graphemes, q, i) {
                        return Some(i);
                    }
                    i += 1;
                }
                None
            },
            SearchDirection::Backward => {
                let bound = if from <= self.len {
                    from
                } else {
                    self.len
                };
                if qlen == 0 {
                    proof {
                        lemma_empty_match(self@, q.deep_view(), bound as int);
                    }
                    return Some(bound);
                }
                if qlen > bound {
                    return None;
                }
                let mut i = bound - qlen + 1;
                while i > 0
                    invariant
                        direction == SearchDirection::Backward,
                        self.wf(),
                        qlen == q@.len(),
                        1 <= qlen <= bound <= self@.len(),
                        bound <= from,
                        bound == from || bound == self@.len(),
                        i <= bound - qlen + 1,
                        forall|j: int|
                            i <= j <= bound - qlen ==> !match_at(self@, q.deep_view(), j),
                    decreases i,
                {
                    i -= 1;
                    if window_eq(&self.graphemes, q, i) {
                        return Some(i);
                    }
                }
                None
            },
        }
    }

    /// Literal search for `query` in this row. Scans forward from column
    /// `from` or backward through the matches ending at or before `from`,
    /// and returns the matching grapheme column.
    pub fn find(&self, query: &str, from: usize, direction: SearchDirection) -> (r: Option<usize>)
        requires
            self.wf(),
        ensures
            direction == SearchDirection::Forward ==> is_fwd_find(
                self@,
                graphemes_of(query@),
                from as int,
                opt_int(r),
            ),
            direction == SearchDirection::Backward ==> is_bwd_find(
                self@,
                graphemes_of(query@),
                from as int,
                opt_int(r),
            ),
    {
        let q = split_graphemes(query);
        self.find_units(&q, from, direction)
    }

    /// The row's text as UTF-8 bytes, ready to be written to disk.
    pub fn as_bytes(&self) -> (r: Vec<u8>)
        requires
            self.wf(),
        ensures
            r@ == vstd::utf8::encode_utf8(self.text()),
    {
        let s = self.content();
        s.as_str().as_bytes_vec()
    }

    /// The row's text as one string.
    pub fn content(&self) -> (r: String)
        requires
            self.wf(),
        ensures
            r@ == self.text(),
    {
        let mut out = String::new();
        let mut i: usize = 0;
        while i < self.graphemes.len()
            invariant
                self.wf(),
                i <= self.graphemes.len(),
                out@ =~= self@.take(i as int).flatten(),
            decreases self.graphemes.len() - i,
        {
            out.append(self.graphemes[i].as_str());
            proof {
                broadcast use vstd::prelude::Seq::lemma_flatten_push;

                assert(self@.take(i as int + 1) =~= self@.take(i as int).push(self@[i as int]));
            }
            i += 1;
        }
        proof {
            assert(self@.take(self@.len() as int) =~= self@);
        }
        out
    }
}

/// Inserting one character at a column `at` within the row and then deleting
/// at that same column restores the row exactly, text included.
pub proof fn lemma_insert_then_delete(units: Seq<Seq<char>>, at: int, ch: char)
    requires
        0 <= at <= units.len(),
    ensures
        units.insert(clamp_to(at, units.len() as int), seq![ch]).remove(at) == units,
        units.insert(clamp_to(at, units.len() as int), seq![ch]).remove(at).flatten()
            == units.flatten(),
{
    assert(units.insert(at, seq![ch]).remove(at) =~= units);
}

/// Splitting a row at any column and appending the split-off tail back
/// reconstructs the original row exactly, text included.
pub proof fn lemma_split_then_extend(units: Seq<Seq<char>>, at: int)
    requires
        0 <= at,
    ensures
        units.take(clamp_to(at, units.len() as int)) + units.skip(
            clamp_to(at, units.len() as int),
        ) == units,
        (units.take(clamp_to(at, units.len() as int)) + units.skip(
            clamp_to(at, units.len() as int),
        )).flatten() == units.flatten(),
{
    let cut = clamp_to(at, units.len() as int);
    assert(units.take(cut) + units.skip(cut) =~= units);
}

} // verus!
