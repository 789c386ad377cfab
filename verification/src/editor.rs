//! Editor session state: cursor, viewport offset, key handling and the
//! incremental search controller.

use crate::document::{
    doc_delete, doc_delete_changes, doc_insert, doc_insert_newline, is_find_result, Document,
};
use crate::grapheme::{graphemes_of, push_char};
use crate::textfmt::{dec_of, usize_to_string};
use vstd::prelude::*;

verus! {

/// How many more times Ctrl-Q must be pressed to discard unsaved changes.
pub const QUIT_TIMES: u8 = 3;

/// A buffer address: `x` is a grapheme column (0-based; may equal the row
/// length, meaning "after the last character"), `y` is a row index (0-based;
/// may equal the document length, meaning "past the last row").
#[derive(Clone, Copy, Debug, PartialEq, Eq, Structural)]
pub struct Position {
    pub x: usize,
    pub y: usize,
}

impl Default for Position {
    fn default() -> (r: Position)
        ensures
            r.x == 0 && r.y == 0,
    {
        Position { x: 0, y: 0 }
    }
}

/// The direction of an incremental search.
#[derive(Clone, Copy, Debug, PartialEq, Eq, Structural)]
pub enum SearchDirection {
    Forward,
    Backward,
}

/// A decoded key event, as the input collaborator delivers it.
#[derive(Clone, Copy, Debug, PartialEq, Eq, Structural)]
pub enum Key {
    Char(char),
    Ctrl(char),
    Up,
    Down,
    Left,
    Right,
    Home,
    End,
    PageUp,
    PageDown,
    Backspace,
    Delete,
    Esc,
}

/// A line of status text; the caller pairs it with a timestamp for expiry.
pub struct StatusMessage {
    pub text: String,
}

impl StatusMessage {
    /// Wraps a message string.
    pub fn from_text(message: String) -> (r: StatusMessage)
        ensures
            r.text@ == message@,
    {
        StatusMessage { text: message }
    }
}

/// The width of row `y`, in grapheme columns; rows outside the document are
/// empty.
pub open spec fn row_width(rows: Seq<Seq<Seq<char>>>, y: int) -> int {
    if 0 <= y < rows.len() {
        rows[y].len() as int
    } else {
        0
    }
}

/// Where one directional intent moves the cursor, before scrolling: the
/// cursor line is clamped to the document, while the column is clamped only
/// by the moves that read it.
pub open spec fn moved_cursor(key: Key, cur: Position, rows: Seq<Seq<Seq<char>>>, page: int) -> Position {
    let x = cur.x as int;
    let y = cur.y as int;
    let height = rows.len() as int;
    let width = row_width(rows, y);
    match key {
        Key::Left => if x > 0 {
            (Position { x: (x - 1) as usize, y: cur.y })
        } else if y > 0 {
            (Position { x: row_width(rows, y - 1) as usize, y: (y - 1) as usize })
        } else {
            cur
        },
        Key::Right => if x >= width {
            if y < height {
                (Position { x: 0, y: (y + 1) as usize })
            } else {
                (Position { x: 0, y: cur.y })
            }
        } else {
            (Position { x: (x + 1) as usize, y: cur.y })
        },
        Key::Up => if y > 0 {
            (Position { x: cur.x, y: (y - 1) as usize })
        } else {
            cur
        },
        Key::Down => if y < height {
            (Position { x: cur.x, y: (y + 1) as usize })
        } else {
            cur
        },
        Key::Home => Position { x: 0, y: cur.y },
        Key::End => Position { x: width as usize, y: cur.y },
        Key::PageUp => if y > page {
            (Position { x: cur.x, y: (y - page) as usize })
        } else {
            (Position { x: cur.x, y: 0 })
        },
        Key::PageDown => if y + page < height {
            (Position { x: cur.x, y: (y + page) as usize })
        } else {
            (Position { x: cur.x, y: height as usize })
        },
        _ => cur,
    }
}

/// The minimal viewport adjustment that brings the cursor back inside the
/// `width` by `height` window: each axis moves only when the cursor left the
/// window on that axis, and only as far as needed.
pub open spec fn scrolled(cur: Position, off: Position, width: int, height: int) -> Position {
    let ny = if cur.y < off.y {
        cur.y as int
    } else if cur.y >= off.y + height {
        cur.y - height + 1
    } else {
        off.y as int
    };
    let nx = if cur.x < off.x {
        cur.x as int
    } else if cur.x >= off.x + width {
        cur.x - width + 1
    } else {
        off.x as int
    };
    Position { x: nx as usize, y: ny as usize }
}

/// The status line shown while a search session is open.
pub open spec fn search_prompt(q: Seq<char>) -> Seq<char> {
    "Search (ESC to cancel, Arrows to navigate): "@ + q
}

/// The status line shown when a confirmed search finds nothing.
pub open spec fn not_found_text(q: Seq<char>) -> Seq<char> {
    "Not found :"@ + q + "."@
}

/// The status line warning that `n` more quit presses discard unsaved
/// changes.
pub open spec fn quit_warning(n: int) -> Seq<char> {
    "WARNING! File has unsaved changes. Press Ctrl-Q "@ + dec_of(n) + " more times to quit."@
}

/// One open incremental search session.
struct SearchState {
    query: String,
    direction: SearchDirection,
    saved_position: Position,
}

/// The editor session: the document under edit, the cursor and viewport, the
/// status line, the quit counter and the search session, with the terminal
/// size supplied by the caller.
pub struct Editor {
    should_quit: bool,
    cursor_position: Position,
    document: Document,
    offset: Position,
    status_message: StatusMessage,
    quit_times: u8,
    width: usize,
    height: usize,
    search: Option<SearchState>,
}

impl Editor {
    /// The document under edit.
    pub closed spec fn doc(self) -> Document {
        self.document
    }

    /// The cursor, in grapheme column and row index.
    pub closed spec fn cursor(self) -> Position {
        self.cursor_position
    }

    /// The viewport offset: the buffer cell shown at the top-left corner.
    pub closed spec fn scroll_offset(self) -> Position {
        self.offset
    }

    /// The current status line.
    pub closed spec fn status(self) -> Seq<char> {
        self.status_message.text@
    }

    /// Whether the session has decided to end.
    pub closed spec fn quitting(self) -> bool {
        self.should_quit
    }

    /// How many quit presses are still needed while changes are unsaved.
    pub closed spec fn quit_chances(self) -> int {
        self.quit_times as int
    }

    /// The viewport width in columns.
    pub closed spec fn view_width(self) -> int {
        self.width as int
    }

    /// The viewport height in rows.
    pub closed spec fn view_height(self) -> int {
        self.height as int
    }

    /// Whether an incremental search session is open.
    pub closed spec fn searching(self) -> bool {
        self.search is Some
    }

    /// The query of the open search session.
    pub closed spec fn search_query(self) -> Seq<char> {
        self.search->Some_0.query@
    }

    /// The direction of the open search session.
    pub closed spec fn search_direction(self) -> SearchDirection {
        self.search->Some_0.direction
    }

    /// The cursor position to restore when the search session is cancelled.
    pub closed spec fn search_saved(self) -> Position {
        self.search->Some_0.saved_position
    }

    /// The session is well formed: the document is, the cursor row is at
    /// most one past the last row, and the viewport is at least one cell.
    pub open spec fn wf(self) -> bool {
        &&& self.doc().wf()
        &&& self.cursor().y <= self.doc()@.len()
        &&& self.view_width() >= 1
        &&& self.view_height() >= 1
        &&& (self.searching() ==> self.search_saved().y <= self.doc()@.len())
        &&& self.quit_chances() <= QUIT_TIMES as int
    }

    /// Everything except the cursor and the viewport offset is unchanged
    /// from `pre`.
    pub open spec fn same_but_cursor(self, pre: Editor) -> bool {
        &&& self.doc() == pre.doc()
        &&& self.status() == pre.status()
        &&& self.quitting() == pre.quitting()
        &&& self.quit_chances() == pre.quit_chances()
        &&& self.view_width() == pre.view_width()
        &&& self.view_height() == pre.view_height()
        &&& self.searching() == pre.searching()
        &&& (pre.searching() ==> self.search_query() == pre.search_query()
            && self.search_direction() == pre.search_direction() && self.search_saved()
            == pre.search_saved())
    }

    /// A fresh session over `document`, for a text viewport of `width` by
    /// `height` cells, with the cursor at the origin and the key help shown.
    pub fn default(document: Document, width: usize, height: usize) -> (r: Editor)
        requires
            document.wf(),
            width >= 1,
            height >= 1,
        ensures
            r.wf(),
            r.doc() == document,
            r.cursor() == (Position { x: 0, y: 0 }),
            r.scroll_offset() == (Position { x: 0, y: 0 }),
            r.status() == "HELP: Ctrl-Q = quit | Ctrl-S = save "@,
            !r.quitting(),
            r.quit_chances() == QUIT_TIMES as int,
            !r.searching(),
            r.view_width() == width as int,
            r.view_height() == height as int,
    {
        Editor {
            should_quit: false,
            cursor_position: Position { x: 0, y: 0 },
            document,
            offset: Position { x: 0, y: 0 },
            status_message: StatusMessage::from_text(
                String::from_str("HELP: Ctrl-Q = quit | Ctrl-S = save "),
            ),
            quit_times: QUIT_TIMES,
            width,
            height,
            search: None,
        }
    }

    /// Adjusts the viewport offset minimally so that the cursor is inside
    /// the visible window; the cursor itself never moves.
    pub fn scroll(&mut self)
        requires
            old(self).wf(),
        ensures
            final(self).wf(),
            final(self).cursor() == old(self).cursor(),
            final(self).same_but_cursor(*old(self)),
            final(self).scroll_offset() == scrolled(
                old(self).cursor(),
                old(self).scroll_offset(),
                old(self).view_width(),
                old(self).view_height(),
            ),
            final(self).scroll_offset().y <= final(self).cursor().y < final(self).scroll_offset().y
                + final(self).view_height(),
            final(self).scroll_offset().x <= final(self).cursor().x < final(self).scroll_offset().x
                + final(self).view_width(),
    {
        let x = self.cursor_position.x;
        let y = self.cursor_position.y;
        if y < self.offset.y {
            self.offset.y = y;
        } else if y - self.offset.y >= self.height {
            self.offset.y = y - self.height + 1;
        }
        if x < self.offset.x {
            self.offset.x = x;
        } else if x - self.offset.x >= self.width {
            self.offset.x = x - self.width + 1;
        }
    }

    /// Applies one directional intent to the cursor and then scrolls. The
    /// column is deliberately not clamped to the new row on vertical moves.
    pub fn move_cursor(&mut self, key: Key)
        requires
            old(self).wf(),
        ensures
            final(self).wf(),
            final(self).same_but_cursor(*old(self)),
            final(self).cursor() == moved_cursor(
                key,
                old(self).cursor(),
                old(self).doc()@,
                old(self).view_height(),
            ),
            final(self).scroll_offset() == scrolled(
                final(self).cursor(),
                old(self).scroll_offset(),
                old(self).view_width(),
                old(self).view_height(),
            ),
            final(self).scroll_offset().y <= final(self).cursor().y < final(self).scroll_offset().y
                + final(self).view_height(),
            final(self).scroll_offset().x <= final(self).cursor().x < final(self).scroll_offset().x
                + final(self).view_width(),
    {
        let x = self.cursor_position.x;
        let y = self.cursor_position.y;
        let height = self.document.len();
        let width = match self.document.row(y) {
            Some(row) => row.len(),
            None => 0,
        };
        let terminal_height = self.height;
        match key {
            Key::Left => {
                if x > 0 {
                    self.cursor_position = Position { x: x - 1, y };
                } else if y > 0 {
                    let w = match self.document.row(y - 1) {
                        Some(row) => row.len(),
                        None => 0,
                    };
                    self.cursor_position = Position { x: w, y: y - 1 };
                }
            },
            Key::Right => {
                if x >= width {
                    if y < height {
                        self.cursor_position = Position { x: 0, y: y + 1 };
                    } else {
                        self.cursor_position = Position { x: 0, y };
                    }
                } else {
                    self.cursor_position = Position { x: x + 1, y };
                }
            },
            Key::Up => {
                if y > 0 {
                    self.cursor_position = Position { x, y: y - 1 };
                }
            },
            Key::Down => {
                if y < height {
                    self.cursor_position = Position { x, y: y + 1 };
                }
            },
            Key::Home => {
                self.cursor_position = Position { x: 0, y };
            },
            Key::End => {
                self.cursor_position = Position { x: width, y };
            },
            Key::PageUp => {
                if y > terminal_height {
                    self.cursor_position = Position { x, y: y - terminal_height };
                } else {
                    self.cursor_position = Position { x, y: 0 };
                }
            },
            Key::PageDown => {
                if terminal_height < height - y {
                    self.cursor_position = Position { x, y: y + terminal_height };
                } else {
                    self.cursor_position = Position { x, y: height };
                }
            },
            _ => {},
        }
        self.scroll();
    }

    /// One quit request: with unsaved changes the session asks for more
    /// presses before it ends; otherwise it ends at once.
    pub fn quit(&mut self)
        requires
            old(self).wf(),
        ensures
            final(self).wf(),
            final(self).doc() == old(self).doc(),
            final(self).cursor() == old(self).cursor(),
            final(self).scroll_offset() == old(self).scroll_offset(),
            final(self).searching() == old(self).searching(),
            final(self).view_width() == old(self).view_width(),
            final(self).view_height() == old(self).view_height(),
            if old(self).doc().dirty_spec() && old(self).quit_chances() > 0 {
                &&& final(self).quitting() == old(self).quitting()
                &&& final(self).quit_chances() == old(self).quit_chances() - 1
                &&& final(self).status() == quit_warning(old(self).quit_chances())
            } else {
                &&& final(self).quitting()
                &&& final(self).quit_chances() == old(self).quit_chances()
                &&& final(self).status() == old(self).status()
            },
    {
        if self.document.is_dirty() && self.quit_times > 0 {
            let mut text = String::from_str("WARNING! File has unsaved changes. Press Ctrl-Q ");
            let num = usize_to_string(self.quit_times as usize);
            text.append(num.as_str());
            text.append(" more times to quit.");
            proof {
                assert(text@ =~= quit_warning(self.quit_times as int));
            }
            self.status_message = StatusMessage::from_text(text);
            self.quit_times = self.quit_times - 1;
        } else {
            self.should_quit = true;
        }
    }
}

/// A control character, as Unicode classes them: the C0 range, delete, and
/// the C1 range.
pub open spec fn is_control_char(c: char) -> bool {
    (c as u32) < 32 || (127 <= (c as u32) && (c as u32) < 160)
}

/// Tests whether typing `c` should be ignored by a prompt.
fn is_control(c: char) -> (r: bool)
    ensures
        r == is_control_char(c),
{
    let u = c as u32;
    u < 32 || (u >= 127 && u < 160)
}

impl Editor {
    /// The document, the viewport size and the quit state are unchanged from
    /// `pre`.
    pub open spec fn same_doc_and_quit(self, pre: Editor) -> bool {
        &&& self.doc() == pre.doc()
        &&& self.quitting() == pre.quitting()
        &&& self.quit_chances() == pre.quit_chances()
        &&& self.view_width() == pre.view_width()
        &&& self.view_height() == pre.view_height()
    }

    /// The search session fields are unchanged from `pre`, which is
    /// searching.
    pub open spec fn same_search(self, pre: Editor) -> bool {
        &&& self.searching()
        &&& self.search_query() == pre.search_query()
        &&& self.search_direction() == pre.search_direction()
        &&& self.search_saved() == pre.search_saved()
    }
}

/// An incremental search step ran over `q` in `dir` from `from` with the
/// viewport at `off`: the cursor jumped to the nearest match and the view
/// scrolled to it, or there was no match and the cursor stayed at `from`
/// with the view at `off`.
pub open spec fn jump_or_stay(
    pre: Editor,
    post: Editor,
    q: Seq<char>,
    from: Position,
    dir: SearchDirection,
    off: Position,
) -> bool {
    ||| (exists|p: Position|
        #[trigger] is_find_result(pre.doc()@, graphemes_of(q), from, dir, Some(p))
            && post.cursor() == p && post.scroll_offset() == scrolled(
            p,
            off,
            pre.view_width(),
            pre.view_height(),
        ))
    ||| (is_find_result(pre.doc()@, graphemes_of(q), from, dir, None)
        && post.cursor() == from && post.scroll_offset() == off)
}

/// Like `jump_or_stay`, but on a miss the cursor falls back one step to the
/// left of `from` (the reaction to a failed arrow-key search).
pub open spec fn jump_or_step_back(
    pre: Editor,
    post: Editor,
    q: Seq<char>,
    from: Position,
    dir: SearchDirection,
    off: Position,
) -> bool {
    ||| (exists|p: Position|
        #[trigger] is_find_result(pre.doc()@, graphemes_of(q), from, dir, Some(p))
            && post.cursor() == p && post.scroll_offset() == scrolled(
            p,
            off,
            pre.view_width(),
            pre.view_height(),
        ))
    ||| (is_find_result(pre.doc()@, graphemes_of(q), from, dir, None) && ({
        let back = moved_cursor(Key::Left, from, pre.doc()@, pre.view_height());
        post.cursor() == back && post.scroll_offset() == scrolled(
            back,
            off,
            pre.view_width(),
            pre.view_height(),
        )
    }))
}

/// What one key does to an open search session: a line feed confirms at the
/// last match (or restores the cursor and reports a miss), escape cancels
/// and restores the cursor, arrows set the direction and move on, any other
/// key edits the query; every step but confirm and cancel re-runs the search
/// and shows the prompt.
pub open spec fn search_step(pre: Editor, post: Editor, key: Key) -> bool {
    let rows = pre.doc()@;
    let q0 = pre.search_query();
    let dir0 = pre.search_direction();
    let saved = pre.search_saved();
    &&& post.same_doc_and_quit(pre)
    &&& match key {
        Key::Char(c) => if c == '\n' {
            &&& !post.searching()
            &&& post.scroll_offset() == pre.scroll_offset()
            &&& if q0.len() == 0 {
                post.cursor() == pre.cursor() && post.status() == Seq::<char>::empty()
            } else {
                ||| (exists|p: Position|
                    #[trigger] is_find_result(
                        rows,
                        graphemes_of(q0),
                        saved,
                        dir0,
                        Some(p),
                    ) && post.cursor() == p && post.status() == Seq::<char>::empty())
                ||| (is_find_result(rows, graphemes_of(q0), saved, dir0, None)
                    && post.cursor() == saved && post.status() == not_found_text(q0))
            }
        } else if !is_control_char(c) {
            let q1 = q0.push(c);
            &&& post.searching()
            &&& post.search_query() == q1
            &&& post.search_direction() == dir0
            &&& post.search_saved() == saved
            &&& post.status() == search_prompt(q1)
            &&& jump_or_stay(pre, post, q1, pre.cursor(), dir0, pre.scroll_offset())
        } else {
            &&& post.same_search(pre)
            &&& post.status() == search_prompt(q0)
            &&& jump_or_stay(pre, post, q0, pre.cursor(), dir0, pre.scroll_offset())
        },
        Key::Backspace => {
            let q1 = if q0.len() > 0 {
                q0.take(q0.len() - 1)
            } else {
                q0
            };
            &&& post.searching()
            &&& post.search_query() == q1
            &&& post.search_direction() == dir0
            &&& post.search_saved() == saved
            &&& post.status() == search_prompt(q1)
            &&& jump_or_stay(pre, post, q1, pre.cursor(), dir0, pre.scroll_offset())
        },
        Key::Right | Key::Down => {
            let c1 = moved_cursor(Key::Right, pre.cursor(), rows, pre.view_height());
            let o1 = scrolled(c1, pre.scroll_offset(), pre.view_width(), pre.view_height());
            &&& post.searching()
            &&& post.search_query() == q0
            &&& post.search_direction() == SearchDirection::Forward
            &&& post.search_saved() == saved
            &&& post.status() == search_prompt(q0)
            &&& jump_or_step_back(pre, post, q0, c1, SearchDirection::Forward, o1)
        },
        Key::Left | Key::Up => {
            &&& post.searching()
            &&& post.search_query() == q0
            &&& post.search_direction() == SearchDirection::Backward
            &&& post.search_saved() == saved
            &&& post.status() == search_prompt(q0)
            &&& jump_or_step_back(
                pre,
                post,
                q0,
                pre.cursor(),
                SearchDirection::Backward,
                pre.scroll_offset(),
            )
        },
        Key::Esc => {
            &&& !post.searching()
            &&& post.cursor() == saved
            &&& post.scroll_offset() == pre.scroll_offset()
            &&& post.status() == Seq::<char>::empty()
        },
        _ => {
            &&& post.same_search(pre)
            &&& post.status() == search_prompt(q0)
            &&& jump_or_stay(pre, post, q0, pre.cursor(), dir0, pre.scroll_offset())
        },
    }
}

/// The status line after the quit counter was reset at the end of a
/// keypress: cleared when a quit warning had been showing, else untouched.
pub open spec fn reset_status(pre: Editor) -> Seq<char> {
    if pre.quit_chances() < QUIT_TIMES as int {
        Seq::<char>::empty()
    } else {
        pre.status()
    }
}

/// What one key does outside a search session. Quit and save return early;
/// every other key first restores the quit counter (clearing a pending quit
/// warning) and then edits, moves or opens a search.
pub open spec fn normal_step(pre: Editor, post: Editor, key: Key, save: bool) -> bool {
    let rows = pre.doc()@;
    let cur = pre.cursor();
    let h = pre.view_height();
    match key {
        Key::Ctrl(c) => if c == 'q' {
            &&& !save
            &&& post.doc() == pre.doc()
            &&& post.cursor() == cur
            &&& post.scroll_offset() == pre.scroll_offset()
            &&& !post.searching()
            &&& if pre.doc().dirty_spec() && pre.quit_chances() > 0 {
                &&& post.quitting() == pre.quitting()
                &&& post.quit_chances() == pre.quit_chances() - 1
                &&& post.status() == quit_warning(pre.quit_chances())
            } else {
                &&& post.quitting()
                &&& post.quit_chances() == pre.quit_chances()
                &&& post.status() == pre.status()
            }
        } else if c == 's' {
            save && post == pre
        } else if c == 'f' {
            &&& !save
            &&& post.doc() == pre.doc()
            &&& post.cursor() == cur
            &&& post.scroll_offset() == pre.scroll_offset()
            &&& post.quitting() == pre.quitting()
            &&& post.quit_chances() == QUIT_TIMES as int
            &&& post.searching()
            &&& post.search_query() == Seq::<char>::empty()
            &&& post.search_direction() == SearchDirection::Forward
            &&& post.search_saved() == cur
            &&& post.status() == search_prompt(Seq::<char>::empty())
        } else {
            !save && unchanged_after_reset(pre, post)
        },
        Key::Char(c) => {
            &&& !save
            &&& !post.searching()
            &&& post.quitting() == pre.quitting()
            &&& post.quit_chances() == QUIT_TIMES as int
            &&& post.status() == reset_status(pre)
            &&& post.doc().filename_view() == pre.doc().filename_view()
            &&& post.doc()@ == (if c == '\n' {
                doc_insert_newline(rows, cur.x as int, cur.y as int)
            } else {
                doc_insert(rows, cur.x as int, cur.y as int, c)
            })
            &&& post.doc().dirty_spec()
            &&& post.cursor() == moved_cursor(Key::Right, cur, post.doc()@, h)
            &&& post.scroll_offset() == scrolled(
                post.cursor(),
                pre.scroll_offset(),
                pre.view_width(),
                h,
            )
        },
        Key::Delete => {
            &&& !save
            &&& !post.searching()
            &&& post.quitting() == pre.quitting()
            &&& post.quit_chances() == QUIT_TIMES as int
            &&& post.status() == reset_status(pre)
            &&& post.doc().filename_view() == pre.doc().filename_view()
            &&& post.doc()@ == doc_delete(rows, cur.x as int, cur.y as int)
            &&& post.doc().dirty_spec() == (pre.doc().dirty_spec() || doc_delete_changes(
                rows,
                cur.x as int,
                cur.y as int,
            ))
            &&& post.cursor() == cur
            &&& post.scroll_offset() == pre.scroll_offset()
        },
        Key::Backspace => {
            &&& !save
            &&& !post.searching()
            &&& post.quitting() == pre.quitting()
            &&& post.quit_chances() == QUIT_TIMES as int
            &&& post.status() == reset_status(pre)
            &&& post.doc().filename_view() == pre.doc().filename_view()
            &&& if cur.x > 0 {
                let target = moved_cursor(Key::Left, cur, rows, h);
                &&& post.doc()@ == doc_delete(rows, target.x as int, target.y as int)
                &&& post.doc().dirty_spec() == (pre.doc().dirty_spec() || doc_delete_changes(
                    rows,
                    target.x as int,
                    target.y as int,
                ))
                &&& post.cursor() == target
                &&& post.scroll_offset() == scrolled(
                    target,
                    pre.scroll_offset(),
                    pre.view_width(),
                    h,
                )
            } else if cur.y > 0 {
                &&& post.doc()@ == doc_delete(rows, 0, cur.y as int)
                &&& post.doc().dirty_spec() == (pre.doc().dirty_spec() || doc_delete_changes(
                    rows,
                    0,
                    cur.y as int,
                ))
                &&& post.cursor() == (Position {
                    x: row_width(rows, cur.y - 1) as usize,
                    y: (cur.y - 1) as usize,
                })
                &&& post.scroll_offset() == pre.scroll_offset()
            } else {
                &&& post.doc() == pre.doc()
                &&& post.cursor() == cur
                &&& post.scroll_offset() == pre.scroll_offset()
            }
        },
        Key::Up | Key::Down | Key::Left | Key::Right | Key::Home | Key::End | Key::PageUp
            | Key::PageDown => {
            &&& !save
            &&& !post.searching()
            &&& post.quitting() == pre.quitting()
            &&& post.quit_chances() == QUIT_TIMES as int
            &&& post.status() == reset_status(pre)
            &&& post.doc() == pre.doc()
            &&& post.cursor() == moved_cursor(key, cur, rows, h)
            &&& post.scroll_offset() == scrolled(
                post.cursor(),
                pre.scroll_offset(),
                pre.view_width(),
                h,
            )
        },
        _ => !save && unchanged_after_reset(pre, post),
    }
}

/// The key did nothing except the end-of-keypress quit counter reset.
pub open spec fn unchanged_after_reset(pre: Editor, post: Editor) -> bool {
    &&& post.doc() == pre.doc()
    &&& post.cursor() == pre.cursor()
    &&& post.scroll_offset() == pre.scroll_offset()
    &&& post.quitting() == pre.quitting()
    &&& !post.searching()
    &&& post.quit_chances() == QUIT_TIMES as int
    &&& post.status() == reset_status(pre)
}

impl Editor {
    /// One key of an open search session.
    fn process_search_key(&mut self, key: Key)
        requires
            old(self).wf(),
            old(self).searching(),
        ensures
            final(self).wf(),
            search_step(*old(self), *final(self), key),
    {
        let st_opt = self.search.take();
        let mut st = match st_opt {
            Some(s) => s,
            None => {
                proof {
                    assert(false);
                }
                return ;
            },
        };
        match key {
            Key::Char('\n') => {
                if st.query.as_str().is_empty() {
                    self.status_message = StatusMessage::from_text(String::new());
                } else {
                    let found = self.document.find(
                        st.query.as_str(),
                        &st.saved_position,
                        st.direction,
                    );
                    match found {
                        Some(p) => {
                            self.cursor_position = p;
                            self.status_message = StatusMessage::from_text(String::new());
                        },
                        None => {
                            self.cursor_position = st.saved_position;
                            let mut text = String::from_str("Not found :");
                            text.append(st.query.as_str());
                            text.append(".");
                            proof {
                                assert(text@ =~= not_found_text(st.query@));
                            }
                            self.status_message = StatusMessage::from_text(text);
                        },
                    }
                }
            },
            Key::Esc => {
                self.cursor_position = st.saved_position;
                self.status_message = StatusMessage::from_text(String::new());
            },
            Key::Char(c) => {
                if !is_control(c) {
                    push_char(&mut st.query, c);
                }
                let found = self.document.find(
                    st.query.as_str(),
                    &self.cursor_position,
                    st.direction,
                );
                if let Some(p) = found {
                    self.cursor_position = p;
                    self.scroll();
                }
                self.set_search_status(&st);
                self.search = Some(st);
            },
            Key::Backspace => {
                let qlen = st.query.as_str().unicode_len();
                if qlen > 0 {
                    let shorter = String::from_str(st.query.as_str().substring_char(0, qlen - 1));
                    proof {
                        assert(shorter@ == st.query@.take(st.query@.len() - 1));
                    }
                    st.query = shorter;
                }
                let found = self.document.find(
                    st.query.as_str(),
                    &self.cursor_position,
                    st.direction,
                );
                if let Some(p) = found {
                    self.cursor_position = p;
                    self.scroll();
                }
                self.set_search_status(&st);
                self.search = Some(st);
            },
            Key::Right | Key::Down => {
                st.direction = SearchDirection::Forward;
                self.move_cursor(Key::Right);
                let found = self.document.find(
                    st.query.as_str(),
                    &self.cursor_position,
                    st.direction,
                );
                match found {
                    Some(p) => {
                        self.cursor_position = p;
                        self.scroll();
                    },
                    None => {
                        self.move_cursor(Key::Left);
                    },
                }
                self.set_search_status(&st);
                self.search = Some(st);
            },
            Key::Left | Key::Up => {
                st.direction = SearchDirection::Backward;
                let found = self.document.find(
                    st.query.as_str(),
                    &self.cursor_position,
                    st.direction,
                );
                match found {
                    Some(p) => {
                        self.cursor_position = p;
                        self.scroll();
                    },
                    None => {
                        self.move_cursor(Key::Left);
                    },
                }
                self.set_search_status(&st);
                self.search = Some(st);
            },
            _ => {
                let found = self.document.find(
                    st.query.as_str(),
                    &self.cursor_position,
                    st.direction,
                );
                if let Some(p) = found {
                    self.cursor_position = p;
                    self.scroll();
                }
                self.set_search_status(&st);
                self.search = Some(st);
            },
        }
    }

    /// Shows the search prompt followed by the current query.
    fn set_search_status(&mut self, st: &SearchState)
        ensures
            final(self).status() == search_prompt(st.query@),
            final(self).doc() == old(self).doc(),
            final(self).cursor() == old(self).cursor(),
            final(self).scroll_offset() == old(self).scroll_offset(),
            final(self).quitting() == old(self).quitting(),
            final(self).quit_chances() == old(self).quit_chances(),
            final(self).view_width() == old(self).view_width(),
            final(self).view_height() == old(self).view_height(),
            final(self).searching() == old(self).searching(),
            old(self).searching() ==> (final(self).search_query() == old(self).search_query()
                && final(self).search_direction() == old(self).search_direction()
                && final(self).search_saved() == old(self).search_saved()),
            old(self).wf() ==> final(self).wf(),
    {
        let mut text = String::from_str("Search (ESC to cancel, Arrows to navigate): ");
        text.append(st.query.as_str());
        self.status_message = StatusMessage::from_text(text);
    }

    /// Dispatches one key event. Inside a search session the key drives the
    /// search; otherwise quit asks to end the session, save is reported to
    /// the caller, find opens a search, characters edit the document and the
    /// directional keys move the cursor. Every key except quit and save
    /// restores the quit counter.
    pub fn process_keypress(&mut self, key: Key) -> (save: bool)
        requires
            old(self).wf(),
        ensures
            final(self).wf(),
            final(self).view_width() == old(self).view_width(),
            final(self).view_height() == old(self).view_height(),
            old(self).searching() ==> !save && search_step(*old(self), *final(self), key),
            !old(self).searching() ==> normal_step(*old(self), *final(self), key, save),
    {
        if self.search.is_some() {
            self.process_search_key(key);
            return false;
        }
        match key {
            Key::Ctrl('q') => {
                self.quit();
                return false;
            },
            Key::Ctrl('s') => {
                return true;
            },
            _ => {},
        }
        if self.quit_times < QUIT_TIMES {
            self.quit_times = QUIT_TIMES;
            self.status_message = StatusMessage::from_text(String::new());
        }
        match key {
            Key::Ctrl('f') => {
                let saved = self.cursor_position;
                self.search = Some(
                    SearchState {
                        query: String::new(),
                        direction: SearchDirection::Forward,
                        saved_position: saved,
                    },
                );
                self.status_message = StatusMessage::from_text(
                    String::from_str("Search (ESC to cancel, Arrows to navigate): "),
                );
                proof {
                    assert(search_prompt(Seq::<char>::empty())
                        =~= "Search (ESC to cancel, Arrows to navigate): "@);
                    assert(normal_step(*old(self), *self, key, false));
                }
            },
            Key::Char(c) => {
                let at = self.cursor_position;
                self.document.insert(&at, c);
                self.move_cursor(Key::Right);
            },
            Key::Delete => {
                let at = self.cursor_position;
                self.document.delete(&at);
            },
            Key::Backspace => {
                if self.cursor_position.x > 0 {
                    self.move_cursor(Key::Left);
                    let at = self.cursor_position;
                    self.document.delete(&at);
                } else if self.cursor_position.y > 0 {
                    let y = self.cursor_position.y;
                    let w = match self.document.row(y - 1) {
                        Some(row) => row.len(),
                        None => 0,
                    };
                    let at = self.cursor_position;
                    self.document.delete(&at);
                    self.cursor_position = Position { x: w, y: y - 1 };
                }
            },
            Key::Up | Key::Down | Key::Left | Key::Right | Key::Home | Key::End | Key::PageUp
                | Key::PageDown => {
                self.move_cursor(key);
            },
            _ => {},
        }
        false
    }
}

impl Editor {
    /// Whether the session has decided to end; the caller's loop stops here.
    pub fn should_quit(&self) -> (r: bool)
        ensures
            r == self.quitting(),
    {
        self.should_quit
    }

    /// The cursor position.
    pub fn cursor_position(&self) -> (r: Position)
        ensures
            r == self.cursor(),
    {
        self.cursor_position
    }

    /// The viewport offset.
    pub fn offset(&self) -> (r: Position)
        ensures
            r == self.scroll_offset(),
    {
        self.offset
    }

    /// The current status line.
    pub fn status_text(&self) -> (r: &String)
        ensures
            r@ == self.status(),
    {
        &self.status_message.text
    }

    /// The document under edit.
    pub fn document(&self) -> (r: &Document)
        ensures
            r == self.doc(),
    {
        &self.document
    }

    /// Shows a message in the status line.
    pub fn set_status(&mut self, text: String)
        ensures
            final(self).status() == text@,
            final(self).doc() == old(self).doc(),
            final(self).cursor() == old(self).cursor(),
            final(self).scroll_offset() == old(self).scroll_offset(),
            final(self).quitting() == old(self).quitting(),
            final(self).quit_chances() == old(self).quit_chances(),
            final(self).view_width() == old(self).view_width(),
            final(self).view_height() == old(self).view_height(),
            final(self).searching() == old(self).searching(),
            old(self).wf() ==> final(self).wf(),
    {
        self.status_message = StatusMessage::from_text(text);
    }

    /// Gives the document the file identity a "save as" prompt supplied.
    pub fn set_filename(&mut self, name: String)
        requires
            old(self).wf(),
        ensures
            final(self).wf(),
            final(self).doc()@ == old(self).doc()@,
            final(self).doc().filename_view() == Some(name@),
            final(self).doc().dirty_spec() == old(self).doc().dirty_spec(),
            final(self).cursor() == old(self).cursor(),
            final(self).scroll_offset() == old(self).scroll_offset(),
            final(self).status() == old(self).status(),
            final(self).quitting() == old(self).quitting(),
            final(self).quit_chances() == old(self).quit_chances(),
            final(self).view_width() == old(self).view_width(),
            final(self).view_height() == old(self).view_height(),
            final(self).searching() == old(self).searching(),
    {
        proof {
            if self.searching() {
                assert(self.search_saved().y <= self.doc()@.len());
            }
        }
        self.document.set_filename(name);
    }

    /// Records the aborted "save as" prompt.
    pub fn abort_save(&mut self)
        requires
            old(self).wf(),
        ensures
            final(self).wf(),
            final(self).status() == "Save aborted."@,
            final(self).doc() == old(self).doc(),
            final(self).cursor() == old(self).cursor(),
            final(self).scroll_offset() == old(self).scroll_offset(),
            final(self).quitting() == old(self).quitting(),
            final(self).quit_chances() == old(self).quit_chances(),
            final(self).searching() == old(self).searching(),
    {
        self.status_message = StatusMessage::from_text(String::from_str("Save aborted."));
    }

    /// Records the outcome of writing the serialized document to disk: a
    /// success clears the dirty flag, a failure leaves it set, and the
    /// status line reports either way.
    pub fn finish_save(&mut self, ok: bool)
        requires
            old(self).wf(),
        ensures
            final(self).wf(),
            final(self).doc()@ == old(self).doc()@,
            final(self).doc().filename_view() == old(self).doc().filename_view(),
            final(self).doc().dirty_spec() == (old(self).doc().dirty_spec() && !ok),
            final(self).status() == (if ok {
                "File saved successfully."@
            } else {
                "Error writing file!"@
            }),
            final(self).cursor() == old(self).cursor(),
            final(self).scroll_offset() == old(self).scroll_offset(),
            final(self).quitting() == old(self).quitting(),
            final(self).quit_chances() == old(self).quit_chances(),
            final(self).searching() == old(self).searching(),
    {
        proof {
            if self.searching() {
                assert(self.search_saved().y <= self.doc()@.len());
            }
        }
        if ok {
            self.document.mark_saved();
            self.status_message = StatusMessage::from_text(
                String::from_str("File saved successfully."),
            );
        } else {
            self.status_message = StatusMessage::from_text(String::from_str("Error writing file!"));
        }
    }
}

/// What one key did to a prompt: the line is still being edited, was
/// submitted, or was cancelled.
#[derive(Clone, Copy, Debug, PartialEq, Eq, Structural)]
pub enum PromptOutcome {
    Pending,
    Submitted,
    Cancelled,
}

/// A one-line input prompt, as the "save as" dialog uses it: printable
/// characters extend the line, backspace shortens it, a line feed submits it
/// and escape discards it. The caller reads keys and renders; this type owns
/// the line.
pub struct Prompt {
    text: String,
}

impl Prompt {
    /// The line as typed so far.
    pub closed spec fn text_view(self) -> Seq<char> {
        self.text@
    }

    /// An empty prompt.
    pub fn new() -> (r: Prompt)
        ensures
            r.text_view() == Seq::<char>::empty(),
    {
        Prompt { text: String::new() }
    }

    /// The line as typed so far.
    pub fn text(&self) -> (r: &String)
        ensures
            r@ == self.text_view(),
    {
        &self.text
    }

    /// Feeds one key to the prompt: a line feed submits the line, escape
    /// empties and cancels it, a printable character extends it, backspace
    /// drops its last character, and any other key leaves it as it is.
    pub fn key(&mut self, key: Key) -> (r: PromptOutcome)
        ensures
            match key {
                Key::Char(c) => if c == '\n' {
                    r == PromptOutcome::Submitted && final(self).text_view() == old(
                        self,
                    ).text_view()
                } else if !is_control_char(c) {
                    r == PromptOutcome::Pending && final(self).text_view() == old(
                        self,
                    ).text_view().push(c)
                } else {
                    r == PromptOutcome::Pending && final(self).text_view() == old(
                        self,
                    ).text_view()
                },
                Key::Backspace => r == PromptOutcome::Pending && final(self).text_view() == (
                if old(self).text_view().len() > 0 {
                    old(self).text_view().take(old(self).text_view().len() - 1)
                } else {
                    old(self).text_view()
                }),
                Key::Esc => r == PromptOutcome::Cancelled && final(self).text_view()
                    == Seq::<char>::empty(),
                _ => r == PromptOutcome::Pending && final(self).text_view() == old(
                    self,
                ).text_view(),
            },
    {
        match key {
            Key::Char('\n') => PromptOutcome::Submitted,
            Key::Char(c) => {
                if !is_control(c) {
                    push_char(&mut self.text, c);
                }
                PromptOutcome::Pending
            },
            Key::Backspace => {
                let len = self.text.as_str().unicode_len();
                if len > 0 {
                    let shorter = String::from_str(self.text.as_str().substring_char(0, len - 1));
                    proof {
                        assert(shorter@ == self.text@.take(self.text@.len() - 1));
                    }
                    self.text = shorter;
                }
                PromptOutcome::Pending
            },
            Key::Esc => {
                self.text = String::new();
                PromptOutcome::Cancelled
            },
            _ => PromptOutcome::Pending,
        }
    }
}

} // verus!
