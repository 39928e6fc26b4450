//! A line-based plain-text editor model: cursor and selection movement,
//! insertion and deletion, clipboard, undo/redo snapshots and scrolling.
//!
//! Columns count characters. The cursor column and the selection anchor may
//! point past the end of their line (after edits that shorten it); edits
//! treat such a column as the end of the line.
use vstd::prelude::*;

use crate::chars::clamp_col;
pub use crate::pos::Pos;

verus! {

broadcast use vstd::string::group_string_axioms;

/// Most snapshots kept on the undo stack by an edit.
pub const UNDO_LIMIT: usize = 200;

/// Rows a page move travels when no layout is known yet.
pub const DEFAULT_PAGE_ROWS: usize = 20;

/// Document order on positions.
pub open spec fn pos_le(a: Pos, b: Pos) -> bool {
    a.row < b.row || (a.row == b.row && a.col <= b.col)
}

fn pos_le_exec(a: Pos, b: Pos) -> (r: bool)
    ensures
        r == pos_le(a, b),
{
    a <= b
}

/// Text and cursor as recorded for undo/redo.
pub struct SnapView {
    pub lines: Seq<Seq<char>>,
    pub cursor: Pos,
}

/// The abstract state of an editor.
pub struct EditorState {
    pub path: Option<Seq<char>>,
    pub lines: Seq<Seq<char>>,
    pub cursor: Pos,
    pub anchor: Option<Pos>,
    pub scroll_row: usize,
    pub scroll_col: usize,
    pub dirty: bool,
    pub clipboard: Seq<char>,
    pub undo: Seq<SnapView>,
    pub redo: Seq<SnapView>,
    /// Visible rows and columns of the last layout, if any.
    pub view: Option<(usize, usize)>,
}

struct Snapshot {
    lines: Vec<Vec<char>>,
    cursor: Pos,
}

pub open spec fn lines_view(v: Seq<Vec<char>>) -> Seq<Seq<char>> {
    v.map_values(|l: Vec<char>| l@)
}

impl Snapshot {
    closed spec fn sview(&self) -> SnapView {
        SnapView { lines: lines_view(self.lines@), cursor: self.cursor }
    }
}

spec fn snaps_view(v: Seq<Snapshot>) -> Seq<SnapView> {
    v.map_values(|s: Snapshot| s.sview())
}

/// A plain-text editor: a non-empty list of lines, a cursor, an optional
/// selection anchor, scroll offsets, a clipboard and undo/redo stacks.
pub struct TextEditor {
    pub path: Option<String>,
    lines: Vec<Vec<char>>,
    cursor: Pos,
    anchor: Option<Pos>,
    scroll_row: usize,
    scroll_col: usize,
    pub dirty: bool,
    clipboard: Vec<char>,
    undo: Vec<Snapshot>,
    redo: Vec<Snapshot>,
    view: Option<(usize, usize)>,
}

impl View for TextEditor {
    type V = EditorState;

    closed spec fn view(&self) -> EditorState {
        EditorState {
            path: match self.path {
                Some(p) => Some(p@),
                None => None,
            },
            lines: lines_view(self.lines@),
            cursor: self.cursor,
            anchor: self.anchor,
            scroll_row: self.scroll_row,
            scroll_col: self.scroll_col,
            dirty: self.dirty,
            clipboard: self.clipboard@,
            undo: snaps_view(self.undo@),
            redo: snaps_view(self.redo@),
            view: self.view,
        }
    }
}

/// No line holds a tab: loading and typing turn tabs into spaces.
pub open spec fn tab_free(lines: Seq<Seq<char>>) -> bool {
    forall|i: int, j: int|
        0 <= i < lines.len() && 0 <= j < lines[i].len() ==> #[trigger] lines[i][j] != '\t'
}

pub open spec fn snap_ok(s: SnapView) -> bool {
    s.lines.len() >= 1 && s.cursor.row < s.lines.len() && tab_free(s.lines)
}

/// Well-formedness: there is always at least one line, the cursor's row
/// exists, no line holds a tab, and the same holds of all recorded
/// snapshots.
pub open spec fn wf(st: EditorState) -> bool {
    &&& st.lines.len() >= 1
    &&& st.cursor.row < st.lines.len()
    &&& tab_free(st.lines)
    &&& forall|i: int| 0 <= i < st.undo.len() ==> snap_ok(#[trigger] st.undo[i])
    &&& forall|i: int| 0 <= i < st.redo.len() ==> snap_ok(#[trigger] st.redo[i])
}

/// The selection anchor, if any, lies on an existing row. Edits need this
/// (they index the selection's rows); a backspace that joins the cursor's
/// line onto the previous one while the anchor sits at the cursor leaves the
/// anchor on the removed row.
pub open spec fn anchor_ok(st: EditorState) -> bool {
    st.anchor matches Some(a) ==> a.row < st.lines.len()
}

// ---------------------------------------------------------------------------
// Text <-> lines
// ---------------------------------------------------------------------------

/// Splits `t` at every `'\n'` (an empty text gives one empty line).
pub open spec fn split_lines(t: Seq<char>) -> Seq<Seq<char>>
    decreases t.len(),
{
    if t.len() == 0 {
        seq![Seq::<char>::empty()]
    } else {
        let init = split_lines(t.drop_last());
        if t.last() == '\n' {
            init.push(Seq::<char>::empty())
        } else {
            init.update(init.len() - 1, init.last().push(t.last()))
        }
    }
}

/// Joins lines with `'\n'` between them.
pub open spec fn join_lines(ls: Seq<Seq<char>>) -> Seq<char>
    decreases ls.len(),
{
    if ls.len() == 0 {
        Seq::empty()
    } else if ls.len() == 1 {
        ls[0]
    } else {
        join_lines(ls.drop_last()) + seq!['\n'] + ls.last()
    }
}

/// Every tab replaced by two spaces.
pub open spec fn expand_tabs(t: Seq<char>) -> Seq<char>
    decreases t.len(),
{
    if t.len() == 0 {
        Seq::empty()
    } else if t.last() == '\t' {
        expand_tabs(t.drop_last()) + seq![' ', ' ']
    } else {
        expand_tabs(t.drop_last()).push(t.last())
    }
}

/// Every carriage return removed.
pub open spec fn drop_cr(t: Seq<char>) -> Seq<char>
    decreases t.len(),
{
    if t.len() == 0 {
        Seq::empty()
    } else if t.last() == '\r' {
        drop_cr(t.drop_last())
    } else {
        drop_cr(t.drop_last()).push(t.last())
    }
}

/// Trailing carriage returns removed.
pub open spec fn trim_cr_end(t: Seq<char>) -> Seq<char>
    decreases t.len(),
{
    if t.len() > 0 && t.last() == '\r' {
        trim_cr_end(t.drop_last())
    } else {
        t
    }
}

/// The lines of a loaded text: tabs expanded, split at `'\n'`, trailing
/// carriage returns of each line removed.
pub open spec fn text_lines(text: Seq<char>) -> Seq<Seq<char>> {
    split_lines(expand_tabs(text)).map_values(|l: Seq<char>| trim_cr_end(l))
}

/// Number of leading spaces of a line.
pub open spec fn leading_spaces(l: Seq<char>) -> nat
    decreases l.len(),
{
    if l.len() > 0 && l[0] == ' ' {
        1 + leading_spaces(l.drop_first())
    } else {
        0
    }
}

// ---------------------------------------------------------------------------
// The operations, as transformations of the abstract state
// ---------------------------------------------------------------------------

pub open spec fn snap(st: EditorState) -> SnapView {
    SnapView { lines: st.lines, cursor: st.cursor }
}

/// Records the current text and cursor on the undo stack (dropping the oldest
/// entry beyond the limit) and forgets the redo stack.
pub open spec fn push_undo(st: EditorState) -> EditorState {
    let u = st.undo.push(snap(st));
    EditorState {
        undo: if u.len() > UNDO_LIMIT {
            u.drop_first()
        } else {
            u
        },
        redo: Seq::empty(),
        ..st
    }
}

/// The selected range in document order, when the anchor is set and differs
/// from the cursor.
pub open spec fn sel_range(st: EditorState) -> Option<(Pos, Pos)> {
    match st.anchor {
        None => None,
        Some(a) => if a == st.cursor {
            None
        } else if pos_le(a, st.cursor) {
            Some((a, st.cursor))
        } else {
            Some((st.cursor, a))
        },
    }
}

/// `lines` with rows `from..=to` replaced by `mid`.
pub open spec fn replace_rows(
    lines: Seq<Seq<char>>,
    from: int,
    to: int,
    mid: Seq<Seq<char>>,
) -> Seq<Seq<char>> {
    lines.subrange(0, from) + mid + lines.subrange(to + 1, lines.len() as int)
}

/// Removing the selection (after recording an undo snapshot): the text
/// before its start and after its end are joined on one line, and the cursor
/// goes to its start. Without a selection nothing changes.
pub open spec fn delete_selection(st: EditorState) -> EditorState {
    match sel_range(st) {
        None => st,
        Some((s, e)) => {
            let u = push_undo(st);
            let first = st.lines[s.row as int];
            let last = st.lines[e.row as int];
            let joined = first.subrange(0, clamp_col(first, s.col as int)) + last.subrange(
                clamp_col(last, e.col as int),
                last.len() as int,
            );
            EditorState {
                lines: replace_rows(st.lines, s.row as int, e.row as int, seq![joined]),
                cursor: s,
                anchor: None,
                dirty: true,
                ..u
            }
        },
    }
}

/// The selected text (lines joined with `'\n'`), empty without a selection.
pub open spec fn selected_text(st: EditorState) -> Seq<char> {
    match sel_range(st) {
        None => Seq::empty(),
        Some((s, e)) => {
            let first = st.lines[s.row as int];
            let last = st.lines[e.row as int];
            if s.row == e.row {
                first.subrange(clamp_col(first, s.col as int), clamp_col(first, e.col as int))
            } else {
                join_lines(
                    seq![first.subrange(clamp_col(first, s.col as int), first.len() as int)]
                        + st.lines.subrange(s.row + 1, e.row as int) + seq![
                        last.subrange(0, clamp_col(last, e.col as int)),
                    ],
                )
            }
        },
    }
}

/// Scrolls just enough for the cursor to be inside a window of `rows` x
/// `cols` cells (a zero size leaves that direction alone; zero rows leaves
/// both).
pub open spec fn ensure_visible(st: EditorState, rows: usize, cols: usize) -> EditorState {
    if rows == 0 {
        st
    } else {
        let r = st.cursor.row;
        let c = st.cursor.col;
        let sr = if r < st.scroll_row {
            r
        } else if r >= st.scroll_row + rows {
            (r + 1 - rows) as usize
        } else {
            st.scroll_row
        };
        let sc = if cols == 0 {
            st.scroll_col
        } else if c < st.scroll_col {
            c
        } else if c >= st.scroll_col + cols {
            (c + 1 - cols) as usize
        } else {
            st.scroll_col
        };
        EditorState { scroll_row: sr, scroll_col: sc, ..st }
    }
}

/// `ensure_visible` with the size of the last layout, if there was one.
pub open spec fn ensure_visible_default(st: EditorState) -> EditorState {
    match st.view {
        Some((rows, cols)) => ensure_visible(st, rows, cols),
        None => st,
    }
}

/// Text to insert as typed or pasted: tabs expanded, carriage returns dropped.
pub open spec fn insert_text(s: Seq<char>) -> Seq<char> {
    drop_cr(expand_tabs(s))
}

/// Inserts `t` (already normalised) at the cursor.
pub open spec fn insert_at_cursor(st: EditorState, t: Seq<char>) -> EditorState {
    let row = st.cursor.row as int;
    let col = st.cursor.col;
    let cur = st.lines[row];
    let b = clamp_col(cur, col as int);
    let head = cur.subrange(0, b);
    let tail = cur.subrange(b, cur.len() as int);
    if !t.contains('\n') {
        EditorState {
            lines: st.lines.update(row, head + t + tail),
            cursor: Pos { row: st.cursor.row, col: (col + t.len()) as usize },
            ..st
        }
    } else {
        let parts = split_lines(t);
        let n = parts.len() as int;
        let mid = seq![head + parts[0]] + parts.subrange(1, n - 1) + seq![parts[n - 1] + tail];
        EditorState {
            lines: replace_rows(st.lines, row, row, mid),
            cursor: Pos { row: (row + n - 1) as usize, col: parts[n - 1].len() as usize },
            ..st
        }
    }
}

/// Typing or pasting `s`: the selection is deleted, a snapshot recorded, and
/// the normalised text inserted at the cursor, which ends after it.
pub open spec fn insert_str(st: EditorState, s: Seq<char>) -> EditorState {
    if s.len() == 0 {
        st
    } else {
        let st1 = push_undo(delete_selection(st));
        let st2 = insert_at_cursor(st1, insert_text(s));
        ensure_visible_default(EditorState { dirty: true, ..st2 })
    }
}

/// Whether `insert_str(st, s)` keeps the cursor column within `usize`.
pub open spec fn insert_fits(st: EditorState, s: Seq<char>) -> bool {
    let n = insert_text(s).len();
    &&& st.cursor.col + n <= usize::MAX
    &&& st.anchor matches Some(a) ==> a.col + n <= usize::MAX
}

/// Enter: a line break followed by the current line's leading spaces.
pub open spec fn newline_text(st: EditorState) -> Seq<char> {
    let l = st.lines[st.cursor.row as int];
    seq!['\n'] + l.subrange(0, leading_spaces(l) as int)
}

/// Backspace: deletes the selection, else the character before the cursor,
/// else joins the line to the previous one (the anchor is left as it is). At the very start of the text
/// only the undo bookkeeping happens (a snapshot is pushed and popped again,
/// which forgets the redo stack and may drop the oldest undo entry).
pub open spec fn backspace(st: EditorState) -> EditorState {
    if sel_range(st) is Some {
        ensure_visible_default(delete_selection(st))
    } else {
        let u = push_undo(st);
        let row = st.cursor.row as int;
        let col = st.cursor.col;
        let cur = st.lines[row];
        if col > 0 {
            let prev = (col - 1) as usize;
            let line = cur.subrange(0, clamp_col(cur, prev as int)) + cur.subrange(
                clamp_col(cur, col as int),
                cur.len() as int,
            );
            ensure_visible_default(
                EditorState {
                    lines: st.lines.update(row, line),
                    cursor: Pos { row: st.cursor.row, col: prev },
                    dirty: true,
                    ..u
                },
            )
        } else if row > 0 {
            let above = st.lines[row - 1];
            ensure_visible_default(
                EditorState {
                    lines: st.lines.update(row - 1, above + cur).remove(row),
                    cursor: Pos { row: (row - 1) as usize, col: above.len() as usize },
                    dirty: true,
                    ..u
                },
            )
        } else {
            EditorState { undo: u.undo.drop_last(), ..u }
        }
    }
}

/// Delete: deletes the selection, else the character under the cursor, else
/// joins the next line onto this one; at the very end only the undo
/// bookkeeping happens, as for backspace.
pub open spec fn delete_forward(st: EditorState) -> EditorState {
    if sel_range(st) is Some {
        ensure_visible_default(delete_selection(st))
    } else {
        let u = push_undo(st);
        let row = st.cursor.row as int;
        let col = st.cursor.col as int;
        let cur = st.lines[row];
        if col < cur.len() {
            EditorState {
                lines: st.lines.update(row, cur.subrange(0, col) + cur.subrange(col + 1, cur.len() as int)),
                dirty: true,
                ..u
            }
        } else if row + 1 < st.lines.len() {
            EditorState {
                lines: st.lines.update(row, cur + st.lines[row + 1]).remove(row + 1),
                dirty: true,
                ..u
            }
        } else {
            EditorState { undo: u.undo.drop_last(), ..u }
        }
    }
}

/// Restores the last undo snapshot, recording the current state for redo.
pub open spec fn undo(st: EditorState) -> EditorState {
    if st.undo.len() == 0 {
        st
    } else {
        let s = st.undo.last();
        ensure_visible_default(
            EditorState {
                undo: st.undo.drop_last(),
                redo: st.redo.push(snap(st)),
                lines: s.lines,
                cursor: s.cursor,
                anchor: None,
                dirty: true,
                ..st
            },
        )
    }
}

/// Restores the last redo snapshot, recording the current state for undo.
pub open spec fn redo(st: EditorState) -> EditorState {
    if st.redo.len() == 0 {
        st
    } else {
        let s = st.redo.last();
        ensure_visible_default(
            EditorState {
                redo: st.redo.drop_last(),
                undo: st.undo.push(snap(st)),
                lines: s.lines,
                cursor: s.cursor,
                anchor: None,
                dirty: true,
                ..st
            },
        )
    }
}

/// Extending keeps (or starts, at the cursor) the selection; otherwise it is
/// dropped.
pub open spec fn begin_selection(st: EditorState, extend: bool) -> EditorState {
    if extend {
        if st.anchor is None {
            EditorState { anchor: Some(st.cursor), ..st }
        } else {
            st
        }
    } else {
        EditorState { anchor: None, ..st }
    }
}

/// Common tail of the cursor moves: the new cursor, then scrolling.
pub open spec fn moved(st: EditorState, extend: bool, p: Pos) -> EditorState {
    ensure_visible_default(EditorState { cursor: p, ..begin_selection(st, extend) })
}

pub open spec fn line_len(st: EditorState, row: int) -> int {
    st.lines[row].len() as int
}

pub open spec fn move_left(st: EditorState, extend: bool) -> EditorState {
    let c = st.cursor;
    moved(
        st,
        extend,
        if c.col > 0 {
            Pos { row: c.row, col: (c.col - 1) as usize }
        } else if c.row > 0 {
            Pos { row: (c.row - 1) as usize, col: line_len(st, c.row - 1) as usize }
        } else {
            c
        },
    )
}

pub open spec fn move_right(st: EditorState, extend: bool) -> EditorState {
    let c = st.cursor;
    moved(
        st,
        extend,
        if c.col < line_len(st, c.row as int) {
            Pos { row: c.row, col: (c.col + 1) as usize }
        } else if c.row + 1 < st.lines.len() {
            Pos { row: (c.row + 1) as usize, col: 0 }
        } else {
            c
        },
    )
}

pub open spec fn min_usize(a: int, b: int) -> usize {
    if a < b {
        a as usize
    } else {
        b as usize
    }
}

pub open spec fn move_up(st: EditorState, extend: bool) -> EditorState {
    let c = st.cursor;
    moved(
        st,
        extend,
        if c.row > 0 {
            Pos { row: (c.row - 1) as usize, col: min_usize(c.col as int, line_len(st, c.row - 1)) }
        } else {
            Pos { row: c.row, col: 0 }
        },
    )
}

pub open spec fn move_down(st: EditorState, extend: bool) -> EditorState {
    let c = st.cursor;
    moved(
        st,
        extend,
        if c.row + 1 < st.lines.len() {
            Pos { row: (c.row + 1) as usize, col: min_usize(c.col as int, line_len(st, c.row + 1)) }
        } else {
            Pos { row: c.row, col: line_len(st, c.row as int) as usize }
        },
    )
}

/// Home toggles between the first non-blank column and column 0.
pub open spec fn move_home(st: EditorState, extend: bool) -> EditorState {
    let c = st.cursor;
    let first = leading_spaces(st.lines[c.row as int]);
    moved(st, extend, Pos { row: c.row, col: if c.col == first { 0 } else { first as usize } })
}

pub open spec fn move_end(st: EditorState, extend: bool) -> EditorState {
    let c = st.cursor;
    moved(st, extend, Pos { row: c.row, col: line_len(st, c.row as int) as usize })
}

/// Rows moved by a page: the last layout's rows less two (at least zero),
/// or a default before any layout.
pub open spec fn page_rows(st: EditorState) -> int {
    match st.view {
        Some((rows, _)) => if rows >= 2 {
            rows - 2
        } else {
            0
        },
        None => DEFAULT_PAGE_ROWS as int,
    }
}

pub open spec fn page(st: EditorState, down: bool, extend: bool) -> EditorState {
    let c = st.cursor;
    let p = page_rows(st);
    let row = if down {
        min_usize(c.row + p, st.lines.len() - 1)
    } else if c.row >= p {
        (c.row - p) as usize
    } else {
        0usize
    };
    moved(st, extend, Pos { row, col: min_usize(c.col as int, line_len(st, row as int)) })
}

pub open spec fn select_all(st: EditorState) -> EditorState {
    let last = st.lines.len() - 1;
    EditorState {
        anchor: Some(Pos { row: 0, col: 0 }),
        cursor: Pos { row: last as usize, col: line_len(st, last) as usize },
        ..st
    }
}

pub open spec fn copy(st: EditorState) -> EditorState {
    let s = selected_text(st);
    if s.len() == 0 {
        st
    } else {
        EditorState { clipboard: s, ..st }
    }
}

pub open spec fn cut(st: EditorState) -> EditorState {
    let s = selected_text(st);
    if s.len() == 0 {
        st
    } else {
        ensure_visible_default(delete_selection(EditorState { clipboard: s, ..st }))
    }
}

pub open spec fn paste(st: EditorState) -> EditorState {
    insert_str(st, st.clipboard)
}

/// Scroll position after scrolling by `rows`, kept within the document.
pub open spec fn scrolled_row(st: EditorState, rows: int) -> usize {
    let max = st.lines.len() - 1;
    let next = st.scroll_row + rows;
    if next < 0 {
        0
    } else if next > max {
        max as usize
    } else {
        next as usize
    }
}

/// The text position shown at cell (`rel_row`, `rel_col`) of the view:
/// clamped to the last line and to the end of that line.
pub open spec fn cell_pos(st: EditorState, rel_row: int, rel_col: int) -> Pos {
    let row = min_usize(st.scroll_row + rel_row, st.lines.len() - 1);
    Pos { row, col: min_usize(st.scroll_col + rel_col, line_len(st, row as int)) }
}

/// Clicking moves the cursor to `p`, extending the selection or not.
pub open spec fn click(st: EditorState, p: Pos, extend: bool) -> EditorState {
    moved(st, extend, p)
}

/// Dragging extends the selection (started at the cursor) to `p`.
pub open spec fn drag_to(st: EditorState, p: Pos) -> EditorState {
    ensure_visible_default(
        EditorState {
            anchor: if st.anchor is None {
                Some(st.cursor)
            } else {
                st.anchor
            },
            cursor: p,
            ..st
        },
    )
}

/// The state after loading `text`: its lines, cursor at the start, no
/// selection, no scrolling and empty undo/redo stacks.
pub open spec fn set_text(st: EditorState, text: Seq<char>) -> EditorState {
    EditorState {
        lines: text_lines(text),
        cursor: Pos { row: 0, col: 0 },
        anchor: None,
        scroll_row: 0,
        scroll_col: 0,
        undo: Seq::empty(),
        redo: Seq::empty(),
        ..st
    }
}

// ---------------------------------------------------------------------------
// Lemmas
// ---------------------------------------------------------------------------

pub open spec fn no_tab(t: Seq<char>) -> bool {
    forall|j: int| 0 <= j < t.len() ==> #[trigger] t[j] != '\t'
}

proof fn lemma_expand_tabs_no_tab(t: Seq<char>)
    ensures
        no_tab(expand_tabs(t)),
    decreases t.len(),
{
    if t.len() > 0 {
        lemma_expand_tabs_no_tab(t.drop_last());
    }
}

proof fn lemma_drop_cr_no_tab(t: Seq<char>)
    requires
        no_tab(t),
    ensures
        no_tab(drop_cr(t)),
    decreases t.len(),
{
    if t.len() > 0 {
        assert(no_tab(t.drop_last()));
        lemma_drop_cr_no_tab(t.drop_last());
    }
}

proof fn lemma_split_no_tab(t: Seq<char>)
    requires
        no_tab(t),
    ensures
        tab_free(split_lines(t)),
    decreases t.len(),
{
    if t.len() > 0 {
        assert(no_tab(t.drop_last()));
        lemma_split_no_tab(t.drop_last());
        lemma_split_lines_nonempty(t.drop_last());
    }
}

proof fn lemma_trim_cr_end_prefix(l: Seq<char>)
    ensures
        trim_cr_end(l).len() <= l.len(),
        forall|j: int| 0 <= j < trim_cr_end(l).len() ==> #[trigger] trim_cr_end(l)[j] == l[j],
    decreases l.len(),
{
    if l.len() > 0 && l.last() == '\r' {
        lemma_trim_cr_end_prefix(l.drop_last());
    }
}

/// A loaded text's lines hold no tab.
proof fn lemma_text_lines_tab_free(text: Seq<char>)
    ensures
        tab_free(text_lines(text)),
{
    let sl = split_lines(expand_tabs(text));
    lemma_expand_tabs_no_tab(text);
    lemma_split_no_tab(expand_tabs(text));
    let tl = text_lines(text);
    assert forall|i: int, j: int| 0 <= i < tl.len() && 0 <= j < tl[i].len() implies #[trigger] tl[i][j]
        != '\t' by {
        lemma_trim_cr_end_prefix(sl[i]);
        assert(tl[i] == trim_cr_end(sl[i]));
        assert(tl[i][j] == sl[i][j]);
    }
}

/// Inserting tab-free text keeps the lines tab-free.
proof fn lemma_insert_at_cursor_tab_free(st: EditorState, t: Seq<char>)
    requires
        st.cursor.row < st.lines.len(),
        tab_free(st.lines),
        no_tab(t),
        tab_free(split_lines(t)),
    ensures
        tab_free(insert_at_cursor(st, t).lines),
{
    let row = st.cursor.row as int;
    let cur = st.lines[row];
    let b = clamp_col(cur, st.cursor.col as int);
    let head = cur.subrange(0, b);
    let tail = cur.subrange(b, cur.len() as int);
    let r = insert_at_cursor(st, t).lines;
    if !t.contains('\n') {
        assert forall|i: int, j: int| 0 <= i < r.len() && 0 <= j < r[i].len() implies #[trigger] r[i][j]
            != '\t' by {
            if i == row {
                let l = head + t + tail;
                assert(r[i] == l);
                if j < head.len() {
                    assert(l[j] == cur[j]);
                } else if j < head.len() + t.len() {
                    assert(l[j] == t[j - head.len()]);
                } else {
                    assert(l[j] == cur[j - head.len() - t.len() + b]);
                }
            } else {
                assert(r[i] == st.lines[i]);
            }
        }
    } else {
        let parts = split_lines(t);
        lemma_split_lines_newline(t);
        let n = parts.len() as int;
        let mid = seq![head + parts[0]] + parts.subrange(1, n - 1) + seq![parts[n - 1] + tail];
        assert(tab_free(mid)) by {
            assert forall|i: int, j: int| 0 <= i < mid.len() && 0 <= j < mid[i].len() implies #[trigger] mid[i][j]
                != '\t' by {
                if i == 0 {
                    let l = head + parts[0];
                    assert(mid[i] == l);
                    if j < head.len() {
                        assert(l[j] == cur[j]);
                    } else {
                        assert(l[j] == parts[0][j - head.len()]);
                    }
                } else if i == n - 1 {
                    let l = parts[n - 1] + tail;
                    assert(mid[i] == l);
                    if j < parts[n - 1].len() {
                        assert(l[j] == parts[n - 1][j]);
                    } else {
                        assert(l[j] == cur[j - parts[n - 1].len() + b]);
                    }
                } else {
                    assert(mid[i] == parts[i]);
                }
            }
        }
        assert forall|i: int, j: int| 0 <= i < r.len() && 0 <= j < r[i].len() implies #[trigger] r[i][j]
            != '\t' by {
            if i < row {
                assert(r[i] == st.lines[i]);
            } else if i < row + n {
                assert(r[i] == mid[i - row]);
            } else {
                assert(r[i] == st.lines[i - n + 1]);
            }
        }
    }
}

/// Inserted text holds no tab, nor does any of its lines.
proof fn lemma_insert_text_tab_free(s: Seq<char>)
    ensures
        no_tab(insert_text(s)),
        tab_free(split_lines(insert_text(s))),
{
    lemma_expand_tabs_no_tab(s);
    lemma_drop_cr_no_tab(expand_tabs(s));
    lemma_split_no_tab(insert_text(s));
}

proof fn lemma_split_lines_nonempty(t: Seq<char>)
    ensures
        split_lines(t).len() >= 1,
    decreases t.len(),
{
    if t.len() > 0 {
        lemma_split_lines_nonempty(t.drop_last());
    }
}

proof fn lemma_lines_view_push(v: Seq<Vec<char>>, x: Vec<char>)
    ensures
        lines_view(v.push(x)) == lines_view(v).push(x@),
{
    assert(lines_view(v.push(x)) =~= lines_view(v).push(x@));
}

// ---------------------------------------------------------------------------
// Executable helpers
// ---------------------------------------------------------------------------

/// Characters `[from, to)` of `v`, copied.
fn copy_chars(v: &Vec<char>, from: usize, to: usize) -> (r: Vec<char>)
    requires
        from <= to <= v@.len(),
    ensures
        r@ == v@.subrange(from as int, to as int),
{
    let mut r: Vec<char> = Vec::new();
    let mut i = from;
    while i < to
        invariant
            from <= i <= to,
            to <= v@.len(),
            r@ == v@.subrange(from as int, i as int),
        decreases to - i,
    {
        r.push(v[i]);
        assert(v@.subrange(from as int, i + 1) =~= v@.subrange(from as int, i as int).push(
            v@[i as int],
        ));
        i = i + 1;
    }
    r
}

/// `a` followed by `b`.
fn concat_chars(a: &Vec<char>, b: &Vec<char>) -> (r: Vec<char>)
    ensures
        r@ == a@ + b@,
{
    let mut r = copy_chars(a, 0, a.len());
    let mut i: usize = 0;
    assert(a@.subrange(0, a@.len() as int) =~= a@);
    while i < b.len()
        invariant
            i <= b@.len(),
            r@ == a@ + b@.subrange(0, i as int),
        decreases b@.len() - i,
    {
        r.push(b[i]);
        assert(b@.subrange(0, i + 1) =~= b@.subrange(0, i as int).push(b@[i as int]));
        i = i + 1;
    }
    assert(b@.subrange(0, b@.len() as int) =~= b@);
    r
}

fn clone_lines(v: &Vec<Vec<char>>) -> (r: Vec<Vec<char>>)
    ensures
        lines_view(r@) == lines_view(v@),
{
    let mut r: Vec<Vec<char>> = Vec::new();
    let mut i: usize = 0;
    while i < v.len()
        invariant
            i <= v@.len(),
            lines_view(r@) == lines_view(v@.subrange(0, i as int)),
        decreases v@.len() - i,
    {
        let l = copy_chars(&v[i], 0, v[i].len());
        assert(v@[i as int]@.subrange(0, v@[i as int]@.len() as int) =~= v@[i as int]@);
        proof {
            lemma_lines_view_push(r@, l);
            assert(v@.subrange(0, i + 1) =~= v@.subrange(0, i as int).push(v@[i as int]));
            lemma_lines_view_push(v@.subrange(0, i as int), v@[i as int]);
        }
        r.push(l);
        i = i + 1;
    }
    assert(v@.subrange(0, v@.len() as int) =~= v@);
    r
}

/// Removes trailing carriage returns.
fn trim_cr(v: &mut Vec<char>)
    ensures
        final(v)@ == trim_cr_end(old(v)@),
{
    while v.len() > 0 && v[v.len() - 1] == '\r'
        invariant
            trim_cr_end(v@) == trim_cr_end(old(v)@),
        decreases v@.len(),
    {
        let _ = v.pop();
    }
}

proof fn lemma_lines_view_concat(a: Seq<Vec<char>>, b: Seq<Vec<char>>)
    ensures
        lines_view(a + b) == lines_view(a) + lines_view(b),
{
    assert(lines_view(a + b) =~= lines_view(a) + lines_view(b));
}

proof fn lemma_split_lines_newline(t: Seq<char>)
    requires
        t.contains('\n'),
    ensures
        split_lines(t).len() >= 2,
    decreases t.len(),
{
    lemma_split_lines_nonempty(t.drop_last());
    if t.last() != '\n' {
        let k = choose|k: int| 0 <= k < t.len() && t[k] == '\n';
        assert(t.drop_last()[k] == '\n');
        lemma_split_lines_newline(t.drop_last());
    }
}

proof fn lemma_drop_cr_concat(x: Seq<char>, y: Seq<char>)
    ensures
        drop_cr(x + y) == drop_cr(x) + drop_cr(y),
    decreases y.len(),
{
    if y.len() == 0 {
        assert(x + y =~= x);
        assert(drop_cr(x) + Seq::<char>::empty() =~= drop_cr(x));
    } else {
        lemma_drop_cr_concat(x, y.drop_last());
        assert((x + y).drop_last() =~= x + y.drop_last());
        assert((x + y).last() == y.last());
        assert((drop_cr(x) + drop_cr(y.drop_last())).push(y.last()) =~= drop_cr(x) + drop_cr(
            y.drop_last(),
        ).push(y.last()));
    }
}

proof fn lemma_plain_text_unchanged(t: Seq<char>)
    requires
        forall|i: int| 0 <= i < t.len() ==> t[i] != '\t' && t[i] != '\r',
    ensures
        insert_text(t) == t,
        expand_tabs(t) == t,
    decreases t.len(),
{
    if t.len() > 0 {
        lemma_plain_text_unchanged(t.drop_last());
        assert(t.drop_last().push(t.last()) =~= t);
        assert(t.last() == t[t.len() - 1]);
    }
}

/// Rows `from..=to` of `lines` replaced by `mid`.
fn splice_rows(lines: &mut Vec<Vec<char>>, from: usize, to: usize, mid: Vec<Vec<char>>)
    requires
        from <= to < old(lines)@.len(),
    ensures
        lines_view(final(lines)@) == replace_rows(
            lines_view(old(lines)@),
            from as int,
            to as int,
            lines_view(mid@),
        ),
{
    let ghost l0 = lines@;
    let _n = lines.len();
    let mut tail = lines.split_off(to + 1);
    let _removed = lines.split_off(from);
    let mut mid = mid;
    let ghost m = mid@;
    lines.append(&mut mid);
    lines.append(&mut tail);
    proof {
        assert(lines@ =~= l0.subrange(0, from as int) + m + l0.subrange(to + 1, l0.len() as int));
        lemma_lines_view_concat(l0.subrange(0, from as int) + m, l0.subrange(to + 1, l0.len() as int));
        lemma_lines_view_concat(l0.subrange(0, from as int), m);
        assert(lines_view(l0.subrange(0, from as int)) =~= lines_view(l0).subrange(0, from as int));
        assert(lines_view(l0.subrange(to + 1, l0.len() as int)) =~= lines_view(l0).subrange(
            to + 1,
            l0.len() as int,
        ));
    }
}

fn min_usize_exec(a: usize, b: usize) -> (r: usize)
    ensures
        r == min_usize(a as int, b as int),
{
    if a < b {
        a
    } else {
        b
    }
}

fn contains_newline(t: &Vec<char>) -> (b: bool)
    ensures
        b == t@.contains('\n'),
{
    let mut i: usize = 0;
    while i < t.len()
        invariant
            i <= t@.len(),
            forall|k: int| 0 <= k < i ==> t@[k] != '\n',
        decreases t@.len() - i,
    {
        if t[i] == '\n' {
            return true;
        }
        i = i + 1;
    }
    false
}

/// `t` split at every `'\n'`.
fn split_chars(t: &Vec<char>) -> (parts: Vec<Vec<char>>)
    ensures
        lines_view(parts@) == split_lines(t@),
{
    let mut parts: Vec<Vec<char>> = Vec::new();
    let mut cur: Vec<char> = Vec::new();
    let mut i: usize = 0;
    while i < t.len()
        invariant
            i <= t@.len(),
            lines_view(parts@) == split_lines(t@.take(i as int)).drop_last(),
            cur@ == split_lines(t@.take(i as int)).last(),
        decreases t@.len() - i,
    {
        let c = t[i];
        let ghost p0 = t@.take(i as int);
        proof {
            assert(t@.take(i + 1) =~= p0.push(c));
            assert(p0.push(c).drop_last() =~= p0);
            lemma_split_lines_nonempty(p0);
        }
        if c == '\n' {
            proof {
                lemma_lines_view_push(parts@, cur);
                assert(split_lines(p0) =~= split_lines(p0).drop_last().push(split_lines(p0).last()));
            }
            parts.push(cur);
            cur = Vec::new();
        } else {
            cur.push(c);
        }
        i = i + 1;
    }
    proof {
        assert(t@.take(t@.len() as int) =~= t@);
        lemma_split_lines_nonempty(t@);
        lemma_lines_view_push(parts@, cur);
        assert(split_lines(t@) =~= split_lines(t@).drop_last().push(split_lines(t@).last()));
    }
    parts.push(cur);
    parts
}

/// The text to insert for `s`: tabs expanded, carriage returns dropped.
fn normalize_insert(s: &Vec<char>) -> (t: Vec<char>)
    ensures
        t@ == insert_text(s@),
{
    let mut t: Vec<char> = Vec::new();
    let mut i: usize = 0;
    while i < s.len()
        invariant
            i <= s@.len(),
            t@ == insert_text(s@.take(i as int)),
        decreases s@.len() - i,
    {
        let c = s[i];
        let ghost p0 = s@.take(i as int);
        proof {
            assert(s@.take(i + 1) =~= p0.push(c));
            assert(p0.push(c).drop_last() =~= p0);
        }
        if c == '\t' {
            t.push(' ');
            t.push(' ');
            proof {
                lemma_drop_cr_concat(expand_tabs(p0), seq![' ', ' ']);
                assert(seq![' ', ' '].drop_last() =~= seq![' ']);
                assert(seq![' '].drop_last() =~= Seq::<char>::empty());
                assert(drop_cr(Seq::<char>::empty()) =~= Seq::<char>::empty());
                assert(drop_cr(seq![' ']) =~= Seq::<char>::empty().push(' '));
                assert(drop_cr(seq![' ', ' ']) =~= seq![' '].push(' '));
                assert(t@ =~= insert_text(p0) + seq![' ', ' ']);
            }
        } else if c == '\r' {
            proof {
                lemma_drop_cr_concat(expand_tabs(p0), seq![c]);
                assert(seq![c].drop_last() =~= Seq::<char>::empty());
                assert(expand_tabs(p0.push(c)) =~= expand_tabs(p0).push(c));
                assert(expand_tabs(p0).push(c) =~= expand_tabs(p0) + seq![c]);
                assert(seq![c].last() == '\r');
                assert(drop_cr(Seq::<char>::empty()) =~= Seq::<char>::empty());
                assert(drop_cr(seq![c]) =~= Seq::<char>::empty());
                assert(insert_text(p0) + Seq::<char>::empty() =~= insert_text(p0));
            }
        } else {
            t.push(c);
            proof {
                lemma_drop_cr_concat(expand_tabs(p0), seq![c]);
                assert(seq![c].drop_last() =~= Seq::<char>::empty());
                assert(expand_tabs(p0).push(c) =~= expand_tabs(p0) + seq![c]);
                assert(seq![c].last() == c);
                assert(drop_cr(Seq::<char>::empty()) =~= Seq::<char>::empty());
                assert(drop_cr(seq![c]) =~= seq![c]);
                assert(insert_text(p0) + seq![c] =~= insert_text(p0).push(c));
            }
        }
        i = i + 1;
    }
    assert(s@.take(s@.len() as int) =~= s@);
    t
}

/// The characters of `s`.
fn str_chars(s: &str) -> (v: Vec<char>)
    ensures
        v@ == s@,
{
    let mut v: Vec<char> = Vec::new();
    for c in it: s.chars()
        invariant
            it.seq() == s@,
            v@ == s@.take(it.index() as int),
    {
        v.push(c);
        assert(s@.take(it.index() + 1) =~= s@.take(it.index() as int).push(c));
    }
    assert(s@.take(s@.len() as int) =~= s@);
    v
}

impl TextEditor {
    /// An untitled editor holding one empty line.
    pub fn empty() -> (ed: TextEditor)
        ensures
            wf(ed@),
            ed@ == (EditorState {
                path: None,
                lines: seq![Seq::<char>::empty()],
                cursor: Pos { row: 0, col: 0 },
                anchor: None,
                scroll_row: 0,
                scroll_col: 0,
                dirty: false,
                clipboard: Seq::empty(),
                undo: Seq::empty(),
                redo: Seq::empty(),
                view: None,
            }),
    {
        let mut lines: Vec<Vec<char>> = Vec::new();
        lines.push(Vec::new());
        let ed = TextEditor {
            path: None,
            lines,
            cursor: Pos { row: 0, col: 0 },
            anchor: None,
            scroll_row: 0,
            scroll_col: 0,
            dirty: false,
            clipboard: Vec::new(),
            undo: Vec::new(),
            redo: Vec::new(),
            view: None,
        };
        assert(lines_view(ed.lines@) =~= seq![Seq::<char>::empty()]);
        assert(snaps_view(ed.undo@) =~= Seq::<SnapView>::empty());
        assert(snaps_view(ed.redo@) =~= Seq::<SnapView>::empty());
        ed
    }

    /// Replaces the whole text (tabs become two spaces, lines split at `'\n'`
    /// without trailing carriage returns), resetting cursor, selection,
    /// scrolling and history.
    pub fn set_text(&mut self, text: &str)
        requires
            wf(old(self)@),
        ensures
            wf(final(self)@),
            final(self)@ == set_text(old(self)@, text@),
    {
        let mut lines: Vec<Vec<char>> = Vec::new();
        let mut cur: Vec<char> = Vec::new();
        let ghost t = text@;
        let n = text.unicode_len();
        let mut i: usize = 0;
        for c in it: text.chars()
            invariant
                it.seq() == t,
                t == text@,
                n == t.len(),
                i == it.index(),
                i <= n,
                lines_view(lines@) == split_lines(expand_tabs(t.take(i as int))).drop_last().map_values(
                    |l: Seq<char>| trim_cr_end(l),
                ),
                cur@ == split_lines(expand_tabs(t.take(i as int))).last(),
        {
            let ghost e0 = expand_tabs(t.take(i as int));
            proof {
                assert(t.take(i + 1).drop_last() =~= t.take(i as int));
                assert(c == t[i as int]);
                lemma_split_lines_nonempty(e0);
            }
            if c == '\t' {
                cur.push(' ');
                cur.push(' ');
                proof {
                    let e1 = e0 + seq![' ', ' '];
                    assert(e1.drop_last() =~= e0.push(' '));
                    assert(e0.push(' ').drop_last() =~= e0);
                    lemma_split_lines_nonempty(e0.push(' '));
                    assert(split_lines(e1).drop_last() =~= split_lines(e0).drop_last());
                }
            } else if c == '\n' {
                let mut done = cur;
                trim_cr(&mut done);
                proof {
                    lemma_lines_view_push(lines@, done);
                    let e1 = e0.push('\n');
                    assert(e1.drop_last() =~= e0);
                    assert(split_lines(e1).drop_last() =~= split_lines(e0));
                    assert(split_lines(e0) =~= split_lines(e0).drop_last().push(split_lines(e0).last()));
                    assert(split_lines(e0).map_values(|l: Seq<char>| trim_cr_end(l)) =~= split_lines(
                        e0,
                    ).drop_last().map_values(|l: Seq<char>| trim_cr_end(l)).push(
                        trim_cr_end(split_lines(e0).last()),
                    ));
                }
                lines.push(done);
                cur = Vec::new();
            } else {
                cur.push(c);
                proof {
                    let e1 = e0.push(c);
                    assert(e1.drop_last() =~= e0);
                    assert(split_lines(e1).drop_last() =~= split_lines(e0).drop_last());
                }
            }
            i = i + 1;
        }
        proof {
            assert(t.take(n as int) =~= t);
            lemma_split_lines_nonempty(expand_tabs(t));
        }
        let mut done = cur;
        trim_cr(&mut done);
        proof {
            lemma_lines_view_push(lines@, done);
            let sl = split_lines(expand_tabs(t));
            assert(sl =~= sl.drop_last().push(sl.last()));
            assert(sl.map_values(|l: Seq<char>| trim_cr_end(l)) =~= sl.drop_last().map_values(
                |l: Seq<char>| trim_cr_end(l),
            ).push(trim_cr_end(sl.last())));
        }
        lines.push(done);
        self.lines = lines;
        self.cursor = Pos { row: 0, col: 0 };
        self.anchor = None;
        self.scroll_row = 0;
        self.scroll_col = 0;
        self.undo = Vec::new();
        self.redo = Vec::new();
        assert(snaps_view(self.undo@) =~= Seq::<SnapView>::empty());
        assert(snaps_view(self.redo@) =~= Seq::<SnapView>::empty());
        proof {
            lemma_text_lines_tab_free(text@);
        }
    }

    /// The whole text: the lines joined with `'\n'`.
    pub fn text(&self) -> (r: String)
        ensures
            r@ == join_lines(self@.lines),
    {
        let mut r = String::new();
        let mut i: usize = 0;
        while i < self.lines.len()
            invariant
                i <= self.lines@.len(),
                r@ == join_lines(lines_view(self.lines@).subrange(0, i as int)),
            decreases self.lines@.len() - i,
        {
            let ghost prefix = lines_view(self.lines@).subrange(0, i as int);
            let ghost before = r@;
            if i > 0 {
                r.push('\n');
            }
            let line = &self.lines[i];
            let mut j: usize = 0;
            while j < line.len()
                invariant
                    j <= line@.len(),
                    r@ == (if i > 0 { before + seq!['\n'] } else { before }) + line@.subrange(
                        0,
                        j as int,
                    ),
                decreases line@.len() - j,
            {
                r.push(line[j]);
                assert(line@.subrange(0, j + 1) =~= line@.subrange(0, j as int).push(line@[j as int]));
                j = j + 1;
            }
            proof {
                let next = lines_view(self.lines@).subrange(0, i + 1);
                assert(line@.subrange(0, line@.len() as int) =~= line@);
                assert(next.drop_last() =~= prefix);
                assert(next.last() == line@);
                if i == 0 {
                    assert(next =~= seq![line@]);
                    assert(before =~= Seq::<char>::empty());
                    assert(r@ =~= line@);
                }
            }
            i = i + 1;
        }
        assert(lines_view(self.lines@).subrange(0, self.lines@.len() as int) =~= lines_view(
            self.lines@,
        ));
        r
    }

    /// Cursor position as shown to the user: line and column counted from 1.
    pub fn cursor_line_col(&self) -> (lc: (usize, usize))
        requires
            self@.cursor.col < usize::MAX,
            wf(self@),
        ensures
            lc == ((self@.cursor.row + 1) as usize, (self@.cursor.col + 1) as usize),
    {
        let _n = self.lines.len();
        (self.cursor.row + 1, self.cursor.col + 1)
    }

    pub fn line_count(&self) -> (n: usize)
        ensures
            n == self@.lines.len(),
    {
        self.lines.len()
    }

    /// The selected range in document order, if the selection is not empty.
    pub fn selection_range(&self) -> (r: Option<(Pos, Pos)>)
        ensures
            r == sel_range(self@),
    {
        match self.anchor {
            None => None,
            Some(a) => {
                let b = self.cursor;
                if a == b {
                    None
                } else if pos_le_exec(a, b) {
                    Some((a, b))
                } else {
                    Some((b, a))
                }
            },
        }
    }

    pub fn has_selection(&self) -> (b: bool)
        ensures
            b == sel_range(self@) is Some,
    {
        self.selection_range().is_some()
    }
}

impl TextEditor {
    fn snapshot(&self) -> (s: Snapshot)
        ensures
            s.sview() == snap(self@),
    {
        Snapshot { lines: clone_lines(&self.lines), cursor: self.cursor }
    }

    fn push_undo(&mut self)
        requires
            wf(old(self)@),
        ensures
            wf(final(self)@),
            final(self)@ == push_undo(old(self)@),
    {
        let s = self.snapshot();
        let ghost st = self@;
        self.undo.push(s);
        proof {
            assert(snaps_view(self.undo@) =~= st.undo.push(snap(st)));
        }
        if self.undo.len() > UNDO_LIMIT {
            self.undo.remove(0);
            proof {
                assert(snaps_view(self.undo@) =~= st.undo.push(snap(st)).drop_first());
            }
        }
        self.redo.clear();
        proof {
            assert(snaps_view(self.redo@) =~= Seq::<SnapView>::empty());
            assert(self@ =~= push_undo(st));
        }
    }

    fn ensure_visible(&mut self, visible_rows: usize, visible_cols: usize)
        ensures
            final(self)@ == ensure_visible(old(self)@, visible_rows, visible_cols),
    {
        if visible_rows == 0 {
            return;
        }
        if self.cursor.row < self.scroll_row {
            self.scroll_row = self.cursor.row;
        } else if self.cursor.row - self.scroll_row >= visible_rows {
            self.scroll_row = (self.cursor.row - visible_rows) + 1;
        }
        if visible_cols > 0 {
            if self.cursor.col < self.scroll_col {
                self.scroll_col = self.cursor.col;
            } else if self.cursor.col - self.scroll_col >= visible_cols {
                self.scroll_col = (self.cursor.col - visible_cols) + 1;
            }
        }
    }

    fn ensure_visible_default(&mut self)
        ensures
            final(self)@ == ensure_visible_default(old(self)@),
    {
        if let Some((rows, cols)) = self.view {
            self.ensure_visible(rows, cols);
        }
    }

    /// Records the size of the text area just laid out (in rows and columns
    /// of characters) and scrolls the cursor into it.
    pub fn set_viewport(&mut self, visible_rows: usize, visible_cols: usize)
        ensures
            final(self)@ == ensure_visible(
                EditorState { view: Some((visible_rows, visible_cols)), ..old(self)@ },
                visible_rows,
                visible_cols,
            ),
    {
        self.view = Some((visible_rows, visible_cols));
        self.ensure_visible(visible_rows, visible_cols);
    }

    /// Scroll offsets: first visible row and column.
    pub fn scroll(&self) -> (r: (usize, usize))
        ensures
            r == (self@.scroll_row, self@.scroll_col),
    {
        (self.scroll_row, self.scroll_col)
    }

    pub fn cursor(&self) -> (p: Pos)
        ensures
            p == self@.cursor,
    {
        self.cursor
    }

    /// The selection anchor, if a selection was started.
    pub fn anchor(&self) -> (a: Option<Pos>)
        ensures
            a == self@.anchor,
    {
        self.anchor
    }

    /// What `copy` or `cut` last took.
    pub fn clipboard(&self) -> (c: &Vec<char>)
        ensures
            c@ == self@.clipboard,
    {
        &self.clipboard
    }

    /// The characters of line `row`.
    pub fn line(&self, row: usize) -> (l: &Vec<char>)
        requires
            row < self@.lines.len(),
        ensures
            l@ == self@.lines[row as int],
    {
        &self.lines[row]
    }

    pub fn undo(&mut self)
        requires
            wf(old(self)@),
        ensures
            wf(final(self)@),
            final(self)@ == undo(old(self)@),
    {
        let ghost st = self@;
        if self.undo.len() > 0 {
            let cur = self.snapshot();
            let s = self.undo.pop().unwrap();
            self.redo.push(cur);
            self.lines = s.lines;
            self.cursor = s.cursor;
            self.anchor = None;
            self.dirty = true;
            proof {
                assert(snaps_view(self.undo@) =~= st.undo.drop_last());
                assert(snaps_view(self.redo@) =~= st.redo.push(snap(st)));
                assert(s.sview() == st.undo.last());
                assert(snap_ok(st.undo[st.undo.len() - 1]));
            }
            self.ensure_visible_default();
        }
    }

    pub fn redo(&mut self)
        requires
            wf(old(self)@),
        ensures
            wf(final(self)@),
            final(self)@ == redo(old(self)@),
    {
        let ghost st = self@;
        if self.redo.len() > 0 {
            let cur = self.snapshot();
            let s = self.redo.pop().unwrap();
            self.undo.push(cur);
            self.lines = s.lines;
            self.cursor = s.cursor;
            self.anchor = None;
            self.dirty = true;
            proof {
                assert(snaps_view(self.redo@) =~= st.redo.drop_last());
                assert(snaps_view(self.undo@) =~= st.undo.push(snap(st)));
                assert(s.sview() == st.redo.last());
                assert(snap_ok(st.redo[st.redo.len() - 1]));
            }
            self.ensure_visible_default();
        }
    }

    fn begin_selection_if_needed(&mut self, extend: bool)
        ensures
            final(self)@ == begin_selection(old(self)@, extend),
    {
        if extend {
            if self.anchor.is_none() {
                self.anchor = Some(self.cursor);
            }
        } else {
            self.anchor = None;
        }
    }

    fn finish_move(&mut self, extend: bool, p: Pos)
        requires
            wf(old(self)@),
            p.row < old(self)@.lines.len(),
        ensures
            wf(final(self)@),
            final(self)@ == moved(old(self)@, extend, p),
    {
        self.begin_selection_if_needed(extend);
        self.cursor = p;
        self.ensure_visible_default();
    }

    fn line_len(&self, row: usize) -> (n: usize)
        requires
            row < self@.lines.len(),
        ensures
            n == line_len(self@, row as int),
    {
        self.lines[row].len()
    }

    pub fn move_left(&mut self, extend: bool)
        requires
            wf(old(self)@),
        ensures
            wf(final(self)@),
            final(self)@ == move_left(old(self)@, extend),
    {
        let c = self.cursor;
        let p = if c.col > 0 {
            Pos { row: c.row, col: c.col - 1 }
        } else if c.row > 0 {
            Pos { row: c.row - 1, col: self.line_len(c.row - 1) }
        } else {
            c
        };
        self.finish_move(extend, p);
    }

    pub fn move_right(&mut self, extend: bool)
        requires
            wf(old(self)@),
        ensures
            wf(final(self)@),
            final(self)@ == move_right(old(self)@, extend),
    {
        let c = self.cursor;
        let len = self.line_len(c.row);
        let nlines = self.lines.len();
        let p = if c.col < len {
            Pos { row: c.row, col: c.col + 1 }
        } else if c.row + 1 < nlines {
            Pos { row: c.row + 1, col: 0 }
        } else {
            c
        };
        self.finish_move(extend, p);
    }

    pub fn move_up(&mut self, extend: bool)
        requires
            wf(old(self)@),
        ensures
            wf(final(self)@),
            final(self)@ == move_up(old(self)@, extend),
    {
        let c = self.cursor;
        let p = if c.row > 0 {
            let len = self.line_len(c.row - 1);
            Pos { row: c.row - 1, col: if c.col < len { c.col } else { len } }
        } else {
            Pos { row: c.row, col: 0 }
        };
        self.finish_move(extend, p);
    }

    pub fn move_down(&mut self, extend: bool)
        requires
            wf(old(self)@),
        ensures
            wf(final(self)@),
            final(self)@ == move_down(old(self)@, extend),
    {
        let c = self.cursor;
        let nlines = self.lines.len();
        let p = if c.row + 1 < nlines {
            let len = self.line_len(c.row + 1);
            Pos { row: c.row + 1, col: if c.col < len { c.col } else { len } }
        } else {
            Pos { row: c.row, col: self.line_len(c.row) }
        };
        self.finish_move(extend, p);
    }

    pub fn move_home(&mut self, extend: bool)
        requires
            wf(old(self)@),
        ensures
            wf(final(self)@),
            final(self)@ == move_home(old(self)@, extend),
    {
        let c = self.cursor;
        let first = leading_space_count(&self.lines[c.row]);
        let p = Pos { row: c.row, col: if c.col == first { 0 } else { first } };
        self.finish_move(extend, p);
    }

    pub fn move_end(&mut self, extend: bool)
        requires
            wf(old(self)@),
        ensures
            wf(final(self)@),
            final(self)@ == move_end(old(self)@, extend),
    {
        let c = self.cursor;
        let p = Pos { row: c.row, col: self.line_len(c.row) };
        self.finish_move(extend, p);
    }

    /// Page up (`down == false`) or down: moves the cursor by a page of rows,
    /// staying within the text and keeping the column when the line allows.
    pub fn page(&mut self, down: bool, extend: bool)
        requires
            wf(old(self)@),
        ensures
            wf(final(self)@),
            final(self)@ == page(old(self)@, down, extend),
    {
        let page = match self.view {
            Some((rows, _)) => if rows >= 2 {
                rows - 2
            } else {
                0
            },
            None => DEFAULT_PAGE_ROWS,
        };
        let c = self.cursor;
        let last = self.lines.len() - 1;
        let row = if down {
            if page >= last - c.row {
                last
            } else {
                c.row + page
            }
        } else if c.row >= page {
            c.row - page
        } else {
            0
        };
        let len = self.line_len(row);
        let p = Pos { row, col: if c.col < len { c.col } else { len } };
        self.finish_move(extend, p);
    }

    pub fn select_all(&mut self)
        requires
            wf(old(self)@),
        ensures
            wf(final(self)@),
            final(self)@ == select_all(old(self)@),
    {
        self.anchor = Some(Pos { row: 0, col: 0 });
        let last = self.lines.len() - 1;
        self.cursor = Pos { row: last, col: self.line_len(last) };
    }

    /// Scrolls the view by `rows` (negative: up), staying within the text.
    pub fn scroll_by(&mut self, rows: i32)
        requires
            wf(old(self)@),
            old(self)@.scroll_row <= i32::MAX,
            old(self)@.lines.len() - 1 <= i32::MAX,
            old(self)@.scroll_row + rows <= i32::MAX,
        ensures
            wf(final(self)@),
            final(self)@ == (EditorState {
                scroll_row: scrolled_row(old(self)@, rows as int),
                ..old(self)@
            }),
    {
        let max = (self.lines.len() - 1) as i32;
        let next = self.scroll_row as i32 + rows;
        let next = if next < 0 {
            0
        } else if next > max {
            max
        } else {
            next
        };
        self.scroll_row = next as usize;
    }

    /// The text position under cell (`rel_row`, `rel_col`) of the view,
    /// clamped to the text.
    pub fn cell_pos(&self, rel_row: usize, rel_col: usize) -> (p: Pos)
        requires
            wf(self@),
        ensures
            p == cell_pos(self@, rel_row as int, rel_col as int),
            p.row < self@.lines.len(),
    {
        let last = self.lines.len() - 1;
        let row = if rel_row >= last || self.scroll_row >= last - rel_row {
            last
        } else {
            self.scroll_row + rel_row
        };
        let len = self.line_len(row);
        let col = if rel_col >= len || self.scroll_col >= len - rel_col {
            len
        } else {
            self.scroll_col + rel_col
        };
        Pos { row, col }
    }

    /// Places the cursor at `p` (a position from `cell_pos`), extending the
    /// selection or not.
    pub fn click(&mut self, p: Pos, extend: bool)
        requires
            wf(old(self)@),
            p.row < old(self)@.lines.len(),
        ensures
            wf(final(self)@),
            final(self)@ == click(old(self)@, p, extend),
    {
        self.finish_move(extend, p);
    }

    /// Extends the selection to `p` (a position from `cell_pos`).
    pub fn drag_to(&mut self, p: Pos)
        requires
            wf(old(self)@),
            p.row < old(self)@.lines.len(),
        ensures
            wf(final(self)@),
            final(self)@ == drag_to(old(self)@, p),
    {
        if self.anchor.is_none() {
            self.anchor = Some(self.cursor);
        }
        self.cursor = p;
        self.ensure_visible_default();
    }
}

/// Number of leading spaces of `l`.
fn leading_space_count(l: &Vec<char>) -> (n: usize)
    ensures
        n == leading_spaces(l@),
        n <= l@.len(),
        forall|k: int| 0 <= k < n ==> l@[k] == ' ',
{
    let mut n: usize = 0;
    assert(l@.subrange(0, l@.len() as int) =~= l@);
    while n < l.len() && l[n] == ' '
        invariant
            n <= l@.len(),
            leading_spaces(l@) == n + leading_spaces(l@.subrange(n as int, l@.len() as int)),
            forall|k: int| 0 <= k < n ==> l@[k] == ' ',
        decreases l@.len() - n,
    {
        assert(l@.subrange(n + 1, l@.len() as int) =~= l@.subrange(n as int, l@.len() as int).drop_first());
        assert(l@.subrange(n as int, l@.len() as int)[0] == l@[n as int]);
        n = n + 1;
    }
    proof {
        assert(l@.subrange(0, l@.len() as int) =~= l@);
        if n < l@.len() {
            assert(l@.subrange(n as int, l@.len() as int)[0] == l@[n as int]);
        }
    }
    n
}

impl TextEditor {
    fn delete_selection(&mut self) -> (deleted: bool)
        requires
            wf(old(self)@),
            anchor_ok(old(self)@),
        ensures
            wf(final(self)@),
            final(self)@ == delete_selection(old(self)@),
            deleted == sel_range(old(self)@) is Some,
    {
        let ghost st = self@;
        match self.selection_range() {
            None => false,
            Some((start, end)) => {
                self.push_undo();
                let first = &self.lines[start.row];
                let a = min_usize_exec(start.col, first.len());
                let head = copy_chars(first, 0, a);
                let last = &self.lines[end.row];
                let b = min_usize_exec(end.col, last.len());
                let tail = copy_chars(last, b, last.len());
                let joined = concat_chars(&head, &tail);
                let mut mid: Vec<Vec<char>> = Vec::new();
                mid.push(joined);
                proof {
                    assert(lines_view(mid@) =~= seq![joined@]);
                }
                splice_rows(&mut self.lines, start.row, end.row, mid);
                self.cursor = start;
                self.anchor = None;
                self.dirty = true;
                proof {
                    assert(self@ =~= delete_selection(st));
                }
                true
            },
        }
    }

    fn selected_chars(&self) -> (t: Vec<char>)
        requires
            wf(self@),
            anchor_ok(self@),
        ensures
            t@ == selected_text(self@),
    {
        match self.selection_range() {
            None => Vec::new(),
            Some((start, end)) => {
                let first = &self.lines[start.row];
                let a = min_usize_exec(start.col, first.len());
                if start.row == end.row {
                    let b = min_usize_exec(end.col, first.len());
                    return copy_chars(first, a, b);
                }
                let ghost ls = self@.lines;
                let ghost head = first@.subrange(a as int, first@.len() as int);
                let mut out = copy_chars(first, a, first.len());
                let mut r = start.row + 1;
                proof {
                    assert(seq![head] + ls.subrange(start.row + 1, r as int) =~= seq![head]);
                }
                while r < end.row
                    invariant
                        start.row < r <= end.row,
                        end.row < ls.len(),
                        ls == lines_view(self.lines@),
                        out@ == join_lines(seq![head] + ls.subrange(start.row + 1, r as int)),
                    decreases end.row - r,
                {
                    let ghost prev = seq![head] + ls.subrange(start.row + 1, r as int);
                    out.push('\n');
                    let line = &self.lines[r];
                    let mut j: usize = 0;
                    let ghost base = out@;
                    while j < line.len()
                        invariant
                            j <= line@.len(),
                            out@ == base + line@.subrange(0, j as int),
                        decreases line@.len() - j,
                    {
                        out.push(line[j]);
                        assert(line@.subrange(0, j + 1) =~= line@.subrange(0, j as int).push(
                            line@[j as int],
                        ));
                        j = j + 1;
                    }
                    proof {
                        assert(line@.subrange(0, line@.len() as int) =~= line@);
                        let next = seq![head] + ls.subrange(start.row + 1, r + 1);
                        assert(next.drop_last() =~= prev);
                        assert(next.last() == ls[r as int]);
                        assert(out@ =~= join_lines(prev) + seq!['\n'] + ls[r as int]);
                    }
                    r = r + 1;
                }
                let last = &self.lines[end.row];
                let b = min_usize_exec(end.col, last.len());
                let ghost prev = seq![head] + ls.subrange(start.row + 1, r as int);
                out.push('\n');
                let tail = copy_chars(last, 0, b);
                let out2 = concat_chars(&out, &tail);
                proof {
                    let all = prev + seq![tail@];
                    assert(all.drop_last() =~= prev);
                    assert(all.len() >= 2);
                }
                out2
            },
        }
    }

    /// Inserts raw characters as typed: see `insert_str`.
    fn insert_chars(&mut self, s: &Vec<char>)
        requires
            wf(old(self)@),
            anchor_ok(old(self)@),
            insert_fits(old(self)@, s@),
        ensures
            wf(final(self)@),
            final(self)@ == insert_str(old(self)@, s@),
    {
        if s.len() == 0 {
            return;
        }
        let ghost st = self@;
        self.delete_selection();
        self.push_undo();
        let t = normalize_insert(s);
        proof {
            lemma_insert_text_tab_free(s@);
        }
        let ghost st1 = self@;
        let row = self.cursor.row;
        let col = self.cursor.col;
        let cur = &self.lines[row];
        let b = min_usize_exec(col, cur.len());
        let head = copy_chars(cur, 0, b);
        let tail = copy_chars(cur, b, cur.len());
        if !contains_newline(&t) {
            let line = concat_chars(&concat_chars(&head, &t), &tail);
            self.lines.set(row, line);
            self.cursor.col = col + t.len();
            proof {
                assert(lines_view(self.lines@) =~= st1.lines.update(row as int, line@));
            }
        } else {
            let parts = split_chars(&t);
            proof {
                lemma_split_lines_newline(t@);
            }
            let n = parts.len();
            let ghost ps = lines_view(parts@);
            let mut mid: Vec<Vec<char>> = Vec::new();
            mid.push(concat_chars(&head, &parts[0]));
            let mut k: usize = 1;
            while k < n - 1
                invariant
                    1 <= k <= n - 1,
                    n == parts@.len(),
                    n >= 2,
                    ps == lines_view(parts@),
                    lines_view(mid@) == seq![head@ + ps[0]] + ps.subrange(1, k as int),
                decreases n - k,
            {
                let p = copy_chars(&parts[k], 0, parts[k].len());
                proof {
                    assert(parts@[k as int]@.subrange(0, parts@[k as int]@.len() as int) =~= parts@[k as int]@);
                    lemma_lines_view_push(mid@, p);
                    assert(ps.subrange(1, k + 1) =~= ps.subrange(1, k as int).push(ps[k as int]));
                }
                mid.push(p);
                k = k + 1;
            }
            let last_len = parts[n - 1].len();
            let last = concat_chars(&parts[n - 1], &tail);
            proof {
                lemma_lines_view_push(mid@, last);
            }
            mid.push(last);
            proof {
                assert(lines_view(mid@) =~= seq![head@ + ps[0]] + ps.subrange(1, n - 1) + seq![
                    ps[n - 1] + tail@,
                ]);
            }
            splice_rows(&mut self.lines, row, row, mid);
            proof {
                assert(lines_view(mid@).len() == mid@.len());
                assert(mid@.len() == n);
                assert(lines_view(self.lines@).len() == self.lines@.len());
                assert(self.lines@.len() == st1.lines.len() + n - 1);
            }
            let _total = self.lines.len();
            self.cursor = Pos { row: row + (n - 1), col: last_len };
        }
        self.dirty = true;
        proof {
            assert(self@ == EditorState { dirty: true, ..insert_at_cursor(st1, insert_text(s@)) });
            lemma_insert_at_cursor_tab_free(st1, insert_text(s@));
        }
        self.ensure_visible_default();
    }

    /// Types `s` at the cursor: replaces the selection, records an undo
    /// snapshot, expands tabs, drops carriage returns and leaves the cursor
    /// after the inserted text. Nothing happens for an empty `s`.
    pub fn insert_str(&mut self, s: &str)
        requires
            wf(old(self)@),
            anchor_ok(old(self)@),
            insert_fits(old(self)@, s@),
        ensures
            wf(final(self)@),
            final(self)@ == insert_str(old(self)@, s@),
    {
        let v = str_chars(s);
        self.insert_chars(&v);
    }

    pub fn insert_char(&mut self, ch: char)
        requires
            wf(old(self)@),
            anchor_ok(old(self)@),
            insert_fits(old(self)@, seq![ch]),
        ensures
            wf(final(self)@),
            final(self)@ == insert_str(old(self)@, seq![ch]),
    {
        let mut v: Vec<char> = Vec::new();
        v.push(ch);
        assert(v@ =~= seq![ch]);
        self.insert_chars(&v);
    }

    /// Breaks the line at the cursor, indenting the new line like the current one.
    pub fn newline(&mut self)
        requires
            wf(old(self)@),
            anchor_ok(old(self)@),
            insert_fits(old(self)@, newline_text(old(self)@)),
        ensures
            wf(final(self)@),
            final(self)@ == insert_str(old(self)@, newline_text(old(self)@)),
    {
        let line = &self.lines[self.cursor.row];
        let indent = leading_space_count(line);
        let mut v: Vec<char> = Vec::new();
        v.push('\n');
        let mut i: usize = 0;
        proof {
            assert(v@ =~= seq!['\n'] + line@.subrange(0, 0));
        }
        while i < indent
            invariant
                i <= indent,
                indent == leading_spaces(line@),
                indent <= line@.len(),
                line@ == self@.lines[self.cursor.row as int],
                v@ == seq!['\n'] + line@.subrange(0, i as int),
                forall|k: int| 0 <= k < indent ==> line@[k] == ' ',
            decreases indent - i,
        {
            v.push(' ');
            assert(line@.subrange(0, i + 1) =~= line@.subrange(0, i as int).push(line@[i as int]));
            i = i + 1;
        }
        self.insert_chars(&v);
    }
}

impl TextEditor {
    pub fn backspace(&mut self)
        requires
            wf(old(self)@),
            anchor_ok(old(self)@),
        ensures
            wf(final(self)@),
            final(self)@ == backspace(old(self)@),
    {
        let ghost st = self@;
        if self.delete_selection() {
            self.ensure_visible_default();
            return;
        }
        self.push_undo();
        let row = self.cursor.row;
        let col = self.cursor.col;
        if col > 0 {
            let line = &self.lines[row];
            let prev = col - 1;
            let a = min_usize_exec(prev, line.len());
            let b = min_usize_exec(col, line.len());
            let new_line = concat_chars(&copy_chars(line, 0, a), &copy_chars(line, b, line.len()));
            self.lines.set(row, new_line);
            self.cursor.col = prev;
            proof {
                assert(lines_view(self.lines@) =~= st.lines.update(row as int, new_line@));
            }
        } else if row > 0 {
            let cur = self.lines.remove(row);
            let above = row - 1;
            let new_col = self.lines[above].len();
            let merged = concat_chars(&self.lines[above], &cur);
            self.lines.set(above, merged);
            self.cursor = Pos { row: above, col: new_col };
            proof {
                assert(lines_view(self.lines@) =~= st.lines.update(above as int, merged@).remove(
                    row as int,
                ));
            }
        } else {
            let ghost u = self@;
            let _ = self.undo.pop();
            proof {
                assert(snaps_view(self.undo@) =~= u.undo.drop_last());
                assert(self@ =~= backspace(st));
            }
            return;
        }
        self.dirty = true;
        self.ensure_visible_default();
    }

    pub fn delete_forward(&mut self)
        requires
            wf(old(self)@),
            anchor_ok(old(self)@),
        ensures
            wf(final(self)@),
            final(self)@ == delete_forward(old(self)@),
    {
        let ghost st = self@;
        if self.delete_selection() {
            self.ensure_visible_default();
            return;
        }
        self.push_undo();
        let row = self.cursor.row;
        let col = self.cursor.col;
        let len = self.lines[row].len();
        let nlines = self.lines.len();
        if col < len {
            let line = &self.lines[row];
            let new_line = concat_chars(&copy_chars(line, 0, col), &copy_chars(line, col + 1, len));
            self.lines.set(row, new_line);
            proof {
                assert(lines_view(self.lines@) =~= st.lines.update(row as int, new_line@));
            }
        } else if row + 1 < nlines {
            let next = self.lines.remove(row + 1);
            let merged = concat_chars(&self.lines[row], &next);
            self.lines.set(row, merged);
            proof {
                assert(lines_view(self.lines@) =~= st.lines.update(row as int, merged@).remove(
                    row + 1,
                ));
            }
        } else {
            let ghost u = self@;
            let _ = self.undo.pop();
            proof {
                assert(snaps_view(self.undo@) =~= u.undo.drop_last());
                assert(self@ =~= delete_forward(st));
            }
            return;
        }
        self.dirty = true;
    }

    /// Copies the selected text to the clipboard (an empty selection leaves
    /// the clipboard alone).
    pub fn copy(&mut self)
        requires
            wf(old(self)@),
            anchor_ok(old(self)@),
        ensures
            wf(final(self)@),
            final(self)@ == copy(old(self)@),
    {
        let s = self.selected_chars();
        if s.len() > 0 {
            self.clipboard = s;
        }
    }

    /// Moves the selected text to the clipboard.
    pub fn cut(&mut self)
        requires
            wf(old(self)@),
            anchor_ok(old(self)@),
        ensures
            wf(final(self)@),
            final(self)@ == cut(old(self)@),
    {
        let s = self.selected_chars();
        if s.len() > 0 {
            self.clipboard = s;
            self.delete_selection();
            self.ensure_visible_default();
        }
    }

    /// Types the clipboard's text at the cursor.
    pub fn paste(&mut self)
        requires
            wf(old(self)@),
            anchor_ok(old(self)@),
            insert_fits(old(self)@, old(self)@.clipboard),
        ensures
            wf(final(self)@),
            final(self)@ == paste(old(self)@),
    {
        let s = copy_chars(&self.clipboard, 0, self.clipboard.len());
        assert(self.clipboard@.subrange(0, self.clipboard@.len() as int) =~= self.clipboard@);
        if s.len() > 0 {
            self.insert_chars(&s);
        }
    }
}

// ---------------------------------------------------------------------------
// Laws
// ---------------------------------------------------------------------------

proof fn lemma_join_push_char(ls: Seq<Seq<char>>, c: char)
    requires
        ls.len() >= 1,
    ensures
        join_lines(ls.update(ls.len() - 1, ls.last().push(c))) == join_lines(ls).push(c),
{
    let u = ls.update(ls.len() - 1, ls.last().push(c));
    if ls.len() > 1 {
        assert(u.drop_last() =~= ls.drop_last());
    }
}

proof fn lemma_join_split(t: Seq<char>)
    ensures
        join_lines(split_lines(t)) == t,
    decreases t.len(),
{
    if t.len() > 0 {
        let init = t.drop_last();
        lemma_join_split(init);
        lemma_split_lines_nonempty(init);
        let sl = split_lines(init);
        if t.last() == '\n' {
            assert(sl.push(Seq::<char>::empty()).drop_last() =~= sl);
            assert(init.push('\n') =~= t);
        } else {
            lemma_join_push_char(sl, t.last());
            assert(init.push(t.last()) =~= t);
        }
    } else {
        assert(split_lines(t) =~= seq![Seq::<char>::empty()]);
    }
}

proof fn lemma_split_no_cr(t: Seq<char>)
    requires
        forall|i: int| 0 <= i < t.len() ==> t[i] != '\r',
    ensures
        forall|k: int, j: int|
            0 <= k < split_lines(t).len() && 0 <= j < split_lines(t)[k].len() ==> #[trigger] split_lines(
                t,
            )[k][j] != '\r',
    decreases t.len(),
{
    if t.len() > 0 {
        let init = t.drop_last();
        lemma_split_no_cr(init);
        lemma_split_lines_nonempty(init);
        let sl = split_lines(init);
        if t.last() != '\n' {
            assert forall|k: int, j: int|
                0 <= k < split_lines(t).len() && 0 <= j < split_lines(t)[k].len() implies #[trigger] split_lines(
                t,
            )[k][j] != '\r' by {
                if k < sl.len() - 1 {
                    assert(split_lines(t)[k] == sl[k]);
                } else if j < sl.last().len() {
                    assert(split_lines(t)[k][j] == sl[k][j]);
                } else {
                    assert(split_lines(t)[k][j] == t.last());
                }
            }
        } else {
            assert forall|k: int, j: int|
                0 <= k < split_lines(t).len() && 0 <= j < split_lines(t)[k].len() implies #[trigger] split_lines(
                t,
            )[k][j] != '\r' by {
                assert(split_lines(t)[k] == sl[k]);
            }
        }
    }
}

/// Law: loading a text without tabs or carriage returns and reading the
/// text back gives the same text.
pub proof fn lemma_set_text_round_trip(st: EditorState, t: Seq<char>)
    requires
        forall|i: int| 0 <= i < t.len() ==> t[i] != '\t' && t[i] != '\r',
    ensures
        join_lines(set_text(st, t).lines) == t,
{
    lemma_plain_text_unchanged(t);
    lemma_split_no_cr(t);
    let sl = split_lines(t);
    assert forall|k: int| 0 <= k < sl.len() implies trim_cr_end(#[trigger] sl[k]) == sl[k] by {
        if sl[k].len() > 0 {
            assert(sl[k][sl[k].len() - 1] != '\r');
        }
    }
    assert(sl.map_values(|l: Seq<char>| trim_cr_end(l)) =~= sl);
    lemma_join_split(t);
}

/// Law: undo right after typing restores the text and cursor from before,
/// leaves nothing selected and marks the text changed (when nothing was
/// selected before typing).
pub proof fn lemma_undo_insert(st: EditorState, s: Seq<char>)
    requires
        wf(st),
        sel_range(st) is None,
        s.len() > 0,
    ensures
        undo(insert_str(st, s)).lines == st.lines,
        undo(insert_str(st, s)).cursor == st.cursor,
        sel_range(undo(insert_str(st, s))) is None,
        undo(insert_str(st, s)).dirty,
{
}

/// Law: undo right after a backspace or delete that changed the text
/// restores the text and cursor from before.
pub proof fn lemma_undo_delete(st: EditorState)
    requires
        wf(st),
        sel_range(st) is None,
    ensures
        (st.cursor.col > 0 || st.cursor.row > 0) ==> undo(backspace(st)).lines == st.lines
            && undo(backspace(st)).cursor == st.cursor,
        (st.cursor.col < st.lines[st.cursor.row as int].len() || st.cursor.row + 1 < st.lines.len())
            ==> undo(delete_forward(st)).lines == st.lines && undo(delete_forward(st)).cursor
            == st.cursor,
{
}

/// Law: Delete with nothing selected and the cursor inside its line removes
/// the character under the cursor, keeps every other character and line,
/// and leaves the cursor where it is. At the end of a line that has a next
/// line, it appends the next line to it and removes the next line.
pub proof fn lemma_delete_forward_removes_char_at_cursor(st: EditorState)
    requires
        wf(st),
        sel_range(st) is None,
    ensures
        ({
            let r = delete_forward(st);
            let row = st.cursor.row as int;
            let c = st.cursor.col as int;
            let l = st.lines[row];
            &&& c < l.len() ==> {
                &&& r.lines.len() == st.lines.len()
                &&& r.lines[row].len() == l.len() - 1
                &&& forall|j: int| 0 <= j < c ==> #[trigger] r.lines[row][j] == l[j]
                &&& forall|j: int| c <= j < l.len() - 1 ==> #[trigger] r.lines[row][j] == l[j + 1]
                &&& forall|i: int| 0 <= i < st.lines.len() && i != row ==> #[trigger] r.lines[i]
                    == st.lines[i]
                &&& r.cursor == st.cursor
                &&& r.dirty
            }
            &&& c >= l.len() && row + 1 < st.lines.len() ==> {
                &&& r.lines.len() == st.lines.len() - 1
                &&& r.lines[row] == l + st.lines[row + 1]
                &&& forall|i: int| 0 <= i < row ==> #[trigger] r.lines[i] == st.lines[i]
                &&& forall|i: int| row < i < r.lines.len() ==> #[trigger] r.lines[i] == st.lines[i
                    + 1]
                &&& r.cursor == st.cursor
            }
        }),
{
}

/// Law: Backspace with nothing selected and the cursor inside its line (not
/// at its start) removes the character before the cursor, keeps every other
/// character and line, and moves the cursor back by one.
pub proof fn lemma_backspace_removes_char_before_cursor(st: EditorState)
    requires
        wf(st),
        sel_range(st) is None,
        0 < st.cursor.col <= st.lines[st.cursor.row as int].len(),
    ensures
        ({
            let r = backspace(st);
            let row = st.cursor.row as int;
            let c = st.cursor.col as int;
            let l = st.lines[row];
            &&& r.lines.len() == st.lines.len()
            &&& r.lines[row].len() == l.len() - 1
            &&& forall|j: int| 0 <= j < c - 1 ==> #[trigger] r.lines[row][j] == l[j]
            &&& forall|j: int| c - 1 <= j < l.len() - 1 ==> #[trigger] r.lines[row][j] == l[j + 1]
            &&& forall|i: int| 0 <= i < st.lines.len() && i != row ==> #[trigger] r.lines[i]
                == st.lines[i]
            &&& r.cursor == Pos { row: st.cursor.row, col: (c - 1) as usize }
        }),
{
}

/// Law: cursor moves never change the text or the scroll-independent
/// state other than cursor and anchor. Without extending they drop the
/// selection; extending keeps the anchor, or starts it at the old cursor.
/// Left and right step one character (wrapping across line ends), up and
/// down step one row (clamping the column to the new line), Home goes to the
/// indentation or the line start, End to the line end, and every move but
/// left/right leaves the cursor within its line.
pub proof fn lemma_cursor_moves(st: EditorState, extend: bool)
    requires
        wf(st),
        st.lines.len() <= usize::MAX,
        forall|i: int| 0 <= i < st.lines.len() ==> #[trigger] st.lines[i].len() <= usize::MAX,
    ensures
        ({
            let c = st.cursor;
            let row = c.row as int;
            let len = st.lines[row].len();
            let l = move_left(st, extend);
            let r = move_right(st, extend);
            let u = move_up(st, extend);
            let d = move_down(st, extend);
            let h = move_home(st, extend);
            let e = move_end(st, extend);
            &&& l.lines == st.lines && r.lines == st.lines && u.lines == st.lines
            &&& d.lines == st.lines && h.lines == st.lines && e.lines == st.lines
            &&& l.clipboard == st.clipboard && l.undo == st.undo && l.redo == st.redo
            &&& !extend ==> l.anchor is None && r.anchor is None && u.anchor is None
                && d.anchor is None && h.anchor is None && e.anchor is None
            &&& extend ==> l.anchor == (if st.anchor is None {
                Some(c)
            } else {
                st.anchor
            }) && d.anchor == l.anchor && u.anchor == l.anchor
            &&& c.col > 0 ==> l.cursor.row == c.row && l.cursor.col == c.col - 1
            &&& c.col == 0 && row > 0 ==> l.cursor.row == row - 1 && l.cursor.col
                == st.lines[row - 1].len()
            &&& c.col == 0 && row == 0 ==> l.cursor == c
            &&& c.col < len ==> r.cursor.row == c.row && r.cursor.col == c.col + 1
            &&& c.col >= len && row + 1 < st.lines.len() ==> r.cursor.row == row + 1
                && r.cursor.col == 0
            &&& c.col >= len && row + 1 == st.lines.len() ==> r.cursor == c
            &&& row > 0 ==> u.cursor.row == row - 1
            &&& row == 0 ==> u.cursor.row == 0 && u.cursor.col == 0
            &&& row + 1 < st.lines.len() ==> d.cursor.row == row + 1
            &&& row + 1 == st.lines.len() ==> d.cursor.row == row && d.cursor.col == len
            &&& u.cursor.col <= st.lines[u.cursor.row as int].len()
            &&& d.cursor.col <= st.lines[d.cursor.row as int].len()
            &&& (row > 0 && u.cursor.col < c.col ==> u.cursor.col == st.lines[row - 1].len())
            &&& (row > 0 && c.col <= st.lines[row - 1].len() ==> u.cursor.col == c.col)
            &&& (row + 1 < st.lines.len() && c.col <= st.lines[row + 1].len() ==> d.cursor.col
                == c.col)
            &&& h.cursor.row == c.row && (h.cursor.col == 0 || h.cursor.col == leading_spaces(
                st.lines[row],
            ))
            &&& c.col != 0 && c.col == leading_spaces(st.lines[row]) ==> h.cursor.col == 0
            &&& c.col != leading_spaces(st.lines[row]) ==> h.cursor.col == leading_spaces(
                st.lines[row],
            )
            &&& e.cursor.row == c.row && e.cursor.col == len
        }),
{
    lemma_leading_spaces_le(st.lines[st.cursor.row as int]);
}

proof fn lemma_leading_spaces_le(l: Seq<char>)
    ensures
        leading_spaces(l) <= l.len(),
        forall|j: int| 0 <= j < leading_spaces(l) ==> #[trigger] l[j] == ' ',
    decreases l.len(),
{
    if l.len() > 0 && l[0] == ' ' {
        lemma_leading_spaces_le(l.drop_first());
        assert forall|j: int| 0 <= j < leading_spaces(l) implies #[trigger] l[j] == ' ' by {
            if j > 0 {
                assert(l[j] == l.drop_first()[j - 1]);
            }
        }
    }
}

/// Law: typing a non-empty text without line breaks, tabs or carriage
/// returns, with nothing selected and the cursor within its line, puts the
/// text into the line right at the cursor, keeps every other character and
/// line, moves the cursor to the end of the typed text and marks the text
/// changed.
pub proof fn lemma_insert_plain_text(st: EditorState, s: Seq<char>)
    requires
        wf(st),
        sel_range(st) is None,
        s.len() > 0,
        st.cursor.col <= st.lines[st.cursor.row as int].len(),
        st.cursor.col + s.len() <= usize::MAX,
        forall|j: int| 0 <= j < s.len() ==> #[trigger] s[j] != '\n' && s[j] != '\t' && s[j]
            != '\r',
    ensures
        ({
            let r = insert_str(st, s);
            let row = st.cursor.row as int;
            let c = st.cursor.col as int;
            let l = st.lines[row];
            &&& r.lines.len() == st.lines.len()
            &&& r.lines[row].len() == l.len() + s.len()
            &&& forall|j: int| 0 <= j < c ==> #[trigger] r.lines[row][j] == l[j]
            &&& forall|j: int| 0 <= j < s.len() ==> #[trigger] r.lines[row][c + j] == s[j]
            &&& forall|j: int| c <= j < l.len() ==> #[trigger] r.lines[row][j + s.len()] == l[j]
            &&& forall|i: int| 0 <= i < st.lines.len() && i != row ==> #[trigger] r.lines[i]
                == st.lines[i]
            &&& r.cursor == Pos { row: st.cursor.row, col: (c + s.len()) as usize }
            &&& r.dirty
            &&& r.undo.last() == snap(st)
        }),
{
    lemma_plain_text_unchanged(s);
    assert(!s.contains('\n'));
    let row = st.cursor.row as int;
    let l = st.lines[row];
    let c = st.cursor.col as int;
    let nl = l.subrange(0, c) + s + l.subrange(c, l.len() as int);
    assert(insert_str(st, s).lines[row] == nl);
    assert forall|j: int| c <= j < l.len() implies #[trigger] nl[j + s.len()] == l[j] by {}
}

/// Law: Enter with nothing selected and the cursor within its line splits
/// the line at the cursor; the new line starts with the old line's leading
/// spaces, followed by the rest of the old line, and the cursor goes to the
/// new line just after those spaces.
pub proof fn lemma_newline_splits_and_indents(st: EditorState)
    requires
        wf(st),
        sel_range(st) is None,
        st.cursor.col <= st.lines[st.cursor.row as int].len(),
        st.lines.len() < usize::MAX,
    ensures
        ({
            let r = insert_str(st, newline_text(st));
            let row = st.cursor.row as int;
            let c = st.cursor.col as int;
            let l = st.lines[row];
            let k = leading_spaces(l) as int;
            &&& r.lines.len() == st.lines.len() + 1
            &&& r.lines[row] == l.subrange(0, c)
            &&& r.lines[row + 1].len() == k + (l.len() - c)
            &&& forall|j: int| 0 <= j < k ==> #[trigger] r.lines[row + 1][j] == ' '
            &&& forall|j: int| c <= j < l.len() ==> #[trigger] r.lines[row + 1][k + j - c] == l[j]
            &&& forall|i: int| 0 <= i < row ==> #[trigger] r.lines[i] == st.lines[i]
            &&& forall|i: int| row + 1 < i < r.lines.len() ==> #[trigger] r.lines[i]
                == st.lines[i - 1]
            &&& r.cursor == Pos { row: (row + 1) as usize, col: k as usize }
        }),
{
    let row = st.cursor.row as int;
    let l = st.lines[row];
    let k = leading_spaces(l) as int;
    lemma_leading_spaces_le(l);
    let t = newline_text(st);
    let sp = l.subrange(0, k);
    assert forall|j: int| 0 <= j < t.len() implies #[trigger] t[j] != '\t' && t[j] != '\r' by {
        if j > 0 {
            assert(t[j] == sp[j - 1]);
        }
    }
    lemma_plain_text_unchanged(t);
    assert(t.contains('\n')) by {
        assert(t[0] == '\n');
    }
    // split_lines of "\n" + spaces
    assert(!sp.contains('\n')) by {
        if sp.contains('\n') {
            let j = choose|j: int| 0 <= j < sp.len() && sp[j] == '\n';
            assert(sp[j] == ' ');
        }
    }
    lemma_split_newline_then(sp);
    let parts = split_lines(t);
    assert(parts =~= seq![Seq::<char>::empty(), sp]);
}

/// Splitting a line break followed by a text without line breaks gives an
/// empty line and that text.
proof fn lemma_split_newline_then(sp: Seq<char>)
    requires
        !sp.contains('\n'),
    ensures
        split_lines(seq!['\n'] + sp) == seq![Seq::<char>::empty(), sp],
    decreases sp.len(),
{
    let t = seq!['\n'] + sp;
    if sp.len() == 0 {
        assert(t =~= seq!['\n']);
        assert(t.drop_last() =~= Seq::<char>::empty());
        assert(sp =~= Seq::<char>::empty());
        assert(split_lines(t.drop_last()) =~= seq![Seq::<char>::empty()]);
        assert(t.last() == '\n');
        assert(split_lines(t) =~= seq![Seq::<char>::empty(), sp]);
    } else {
        let init = sp.drop_last();
        assert(!init.contains('\n')) by {
            if init.contains('\n') {
                let j = choose|j: int| 0 <= j < init.len() && init[j] == '\n';
                assert(sp[j] == '\n');
            }
        }
        lemma_split_newline_then(init);
        assert(t.drop_last() =~= seq!['\n'] + init);
        assert(t.last() == sp.last());
        assert(sp.last() != '\n');
        assert(init.push(sp.last()) =~= sp);
        let r = split_lines(t);
        assert(r.len() == 2);
        assert(r[0] =~= Seq::<char>::empty());
        assert(r[1] =~= sp);
        assert(r =~= seq![Seq::<char>::empty(), sp]);
    }
}

/// Law: after scrolling to a window of `rows` x `cols` cells (both
/// non-zero), the cursor is inside it; a cursor already inside leaves the
/// scroll position alone.
pub proof fn lemma_view_shows_cursor(st: EditorState, rows: usize, cols: usize)
    requires
        rows > 0,
        cols > 0,
    ensures
        ({
            let r = ensure_visible(st, rows, cols);
            &&& r.scroll_row <= st.cursor.row < r.scroll_row + rows
            &&& r.scroll_col <= st.cursor.col < r.scroll_col + cols
            &&& r.lines == st.lines && r.cursor == st.cursor && r.anchor == st.anchor
            &&& st.scroll_row <= st.cursor.row < st.scroll_row + rows ==> r.scroll_row
                == st.scroll_row
            &&& st.scroll_col <= st.cursor.col < st.scroll_col + cols ==> r.scroll_col
                == st.scroll_col
        }),
{
}

/// Law: scrolling by `rows` moves the first visible row by `rows`, stopping
/// at the first and the last line.
pub proof fn lemma_scroll_clamped(st: EditorState, rows: int)
    requires
        wf(st),
        st.lines.len() <= usize::MAX,
    ensures
        0 <= scrolled_row(st, rows) < st.lines.len(),
        0 <= st.scroll_row + rows < st.lines.len() ==> scrolled_row(st, rows) == st.scroll_row
            + rows,
        st.scroll_row + rows < 0 ==> scrolled_row(st, rows) == 0,
        st.scroll_row + rows >= st.lines.len() ==> scrolled_row(st, rows) == st.lines.len() - 1,
{
}

/// Law: the text position under a view cell is inside the text; a cell over
/// the text gives the position `scroll + cell`.
pub proof fn lemma_cell_pos_in_text(st: EditorState, rel_row: nat, rel_col: nat)
    requires
        wf(st),
        st.lines.len() <= usize::MAX,
        forall|i: int| 0 <= i < st.lines.len() ==> #[trigger] st.lines[i].len() <= usize::MAX,
    ensures
        ({
            let p = cell_pos(st, rel_row as int, rel_col as int);
            &&& p.row < st.lines.len()
            &&& p.col <= st.lines[p.row as int].len()
            &&& st.scroll_row + rel_row < st.lines.len() ==> p.row == st.scroll_row + rel_row
            &&& st.scroll_row + rel_row < st.lines.len() && st.scroll_col + rel_col
                <= st.lines[p.row as int].len() ==> p.col == st.scroll_col + rel_col
        }),
{
}

/// Law: Copy changes nothing but the clipboard, which receives the selected
/// text when that is not empty.
pub proof fn lemma_copy_only_clipboard(st: EditorState)
    ensures
        copy(st).lines == st.lines,
        copy(st).cursor == st.cursor,
        copy(st).anchor == st.anchor,
        copy(st).undo == st.undo,
        copy(st).dirty == st.dirty,
        selected_text(st).len() > 0 ==> copy(st).clipboard == selected_text(st),
        selected_text(st).len() == 0 ==> copy(st).clipboard == st.clipboard,
{
}

/// Law: clicking puts the cursor at the position and, unless extending,
/// selects nothing; dragging puts the cursor there and keeps the selection's
/// start (or starts it at the old cursor). Neither changes the text.
pub proof fn lemma_click_and_drag(st: EditorState, p: Pos, extend: bool)
    ensures
        click(st, p, extend).cursor == p,
        click(st, p, extend).lines == st.lines,
        !extend ==> click(st, p, extend).anchor is None,
        extend && st.anchor is Some ==> click(st, p, extend).anchor == st.anchor,
        extend && st.anchor is None ==> click(st, p, extend).anchor == Some(st.cursor),
        drag_to(st, p).cursor == p,
        drag_to(st, p).lines == st.lines,
        drag_to(st, p).anchor == if st.anchor is None {
            Some(st.cursor)
        } else {
            st.anchor
        },
{
}

/// Law: Backspace at the start of a line (nothing selected) appends that
/// line to the previous one, removes it, and puts the cursor where the two
/// were joined.
pub proof fn lemma_backspace_joins_lines(st: EditorState)
    requires
        wf(st),
        sel_range(st) is None,
        st.cursor.col == 0,
        st.cursor.row > 0,
        st.lines[st.cursor.row - 1].len() <= usize::MAX,
    ensures
        ({
            let r = backspace(st);
            let row = st.cursor.row as int;
            &&& r.lines.len() == st.lines.len() - 1
            &&& r.lines[row - 1] == st.lines[row - 1] + st.lines[row]
            &&& forall|i: int| 0 <= i < row - 1 ==> #[trigger] r.lines[i] == st.lines[i]
            &&& forall|i: int| row <= i < r.lines.len() ==> #[trigger] r.lines[i] == st.lines[i
                + 1]
            &&& r.cursor == Pos { row: (row - 1) as usize, col: st.lines[row - 1].len() as usize }
            &&& r.dirty
        }),
{
}

/// Law: a page move keeps the text, moves the cursor by the page's rows
/// (stopping at the first and last line) and keeps its column where the new
/// line allows, else puts it at the line's end.
pub proof fn lemma_page_moves(st: EditorState, down: bool, extend: bool)
    requires
        wf(st),
        st.lines.len() <= usize::MAX,
        forall|i: int| 0 <= i < st.lines.len() ==> #[trigger] st.lines[i].len() <= usize::MAX,
    ensures
        ({
            let r = page(st, down, extend);
            let p = page_rows(st);
            let row = st.cursor.row as int;
            &&& r.lines == st.lines
            &&& down && row + p < st.lines.len() ==> r.cursor.row == row + p
            &&& down && row + p >= st.lines.len() ==> r.cursor.row == st.lines.len() - 1
            &&& !down && row >= p ==> r.cursor.row == row - p
            &&& !down && row < p ==> r.cursor.row == 0
            &&& r.cursor.row < st.lines.len()
            &&& r.cursor.col <= st.lines[r.cursor.row as int].len()
            &&& st.cursor.col <= st.lines[r.cursor.row as int].len() ==> r.cursor.col
                == st.cursor.col
            &&& !extend ==> r.anchor is None
        }),
{
}

/// Law: cutting a selection within one line puts the selected characters on
/// the clipboard and removes exactly them, leaving the cursor at the
/// selection's start and nothing selected.
pub proof fn lemma_cut_within_line(st: EditorState)
    requires
        wf(st),
        anchor_ok(st),
        sel_range(st) matches Some((a, b)) && a.row == b.row && b.col <= st.lines[a.row as int].len(),
    ensures
        ({
            let (a, b) = sel_range(st)->0;
            let l = st.lines[a.row as int];
            let r = cut(st);
            &&& r.clipboard == l.subrange(a.col as int, b.col as int)
            &&& r.lines.len() == st.lines.len()
            &&& r.lines[a.row as int] == l.subrange(0, a.col as int) + l.subrange(
                b.col as int,
                l.len() as int,
            )
            &&& forall|i: int| 0 <= i < st.lines.len() && i != a.row ==> #[trigger] r.lines[i]
                == st.lines[i]
            &&& r.cursor == a
            &&& sel_range(r) is None
        }),
{
    let (a, b) = sel_range(st)->0;
    let l = st.lines[a.row as int];
    assert(a.col < b.col) by {
        if a.col >= b.col {
            assert(a == b);
        }
    }
    assert(l.subrange(0, a.col as int) + l.subrange(b.col as int, l.len() as int) =~= l.subrange(
        0,
        a.col as int,
    ) + l.subrange(b.col as int, l.len() as int));
    let r = cut(st);
    assert(replace_rows(
        st.lines,
        a.row as int,
        a.row as int,
        seq![l.subrange(0, a.col as int) + l.subrange(b.col as int, l.len() as int)],
    ) =~= st.lines.update(
        a.row as int,
        l.subrange(0, a.col as int) + l.subrange(b.col as int, l.len() as int),
    ));
}

/// After undo then redo, `e`'s text and cursor are back, nothing is
/// selected, the text is marked changed, and a further redo changes nothing.
pub open spec fn undo_redo_restores(e: EditorState) -> bool {
    let r = redo(undo(e));
    &&& r.lines == e.lines
    &&& r.cursor == e.cursor
    &&& sel_range(r) is None
    &&& r.dirty
    &&& redo(r) == r
}

proof fn lemma_undo_redo_after_push(e: EditorState)
    requires
        e.undo.len() > 0,
        e.redo.len() == 0,
    ensures
        undo_redo_restores(e),
{
    let u = undo(e);
    assert(u.redo.len() == 1);
    let r = redo(u);
    assert(r.redo =~= Seq::<SnapView>::empty());
}

/// Law: after an edit that changed the text (typing a non-empty string, or
/// a backspace or delete that removed something), undo followed by redo
/// brings back the edited text and cursor with nothing selected and the text
/// marked changed, and a second redo changes nothing.
pub proof fn lemma_redo_after_undo(st: EditorState, s: Seq<char>)
    requires
        wf(st),
    ensures
        s.len() > 0 ==> undo_redo_restores(insert_str(st, s)),
        (sel_range(st) is Some || st.cursor.col > 0 || st.cursor.row > 0) ==> undo_redo_restores(
            backspace(st),
        ),
        (sel_range(st) is Some || st.cursor.col < line_len(st, st.cursor.row as int)
            || st.cursor.row + 1 < st.lines.len()) ==> undo_redo_restores(delete_forward(st)),
{
    if s.len() > 0 {
        lemma_undo_redo_after_push(insert_str(st, s));
    }
    if sel_range(st) is Some || st.cursor.col > 0 || st.cursor.row > 0 {
        lemma_undo_redo_after_push(backspace(st));
    }
    if sel_range(st) is Some || st.cursor.col < line_len(st, st.cursor.row as int)
        || st.cursor.row + 1 < st.lines.len() {
        lemma_undo_redo_after_push(delete_forward(st));
    }
}

/// Law: recording a snapshot never grows the undo stack past its limit.
pub proof fn lemma_push_undo_bounded(st: EditorState)
    requires
        st.undo.len() <= UNDO_LIMIT,
    ensures
        push_undo(st).undo.len() <= UNDO_LIMIT,
        push_undo(st).undo.last() == snap(st),
        push_undo(st).redo.len() == 0,
{
}

/// Law: after Select All the selected text is the whole text.
pub proof fn lemma_select_all_selects_text(st: EditorState)
    requires
        wf(st),
        st.lines.len() <= usize::MAX,
        st.lines.last().len() <= usize::MAX,
    ensures
        selected_text(select_all(st)) == join_lines(st.lines),
{
    let sa = select_all(st);
    let last = st.lines.len() - 1;
    let ls = st.lines;
    if last == 0 {
        if ls[0].len() == 0 {
            assert(join_lines(ls) == ls[0]);
            assert(ls[0] =~= Seq::<char>::empty());
        } else {
            assert(ls[0].subrange(0, ls[0].len() as int) =~= ls[0]);
        }
    } else {
        assert(ls[0].subrange(0, ls[0].len() as int) =~= ls[0]);
        assert(ls[last].subrange(0, ls[last].len() as int) =~= ls[last]);
        assert(sel_range(sa) == Some((Pos { row: 0, col: 0 }, sa.cursor)));
        assert(seq![ls[0]] + ls.subrange(1, last) + seq![ls[last]] =~= ls);
    }
}

proof fn lemma_split_no_newline(t: Seq<char>)
    requires
        !t.contains('\n'),
    ensures
        split_lines(t) == seq![t],
    decreases t.len(),
{
    if t.len() > 0 {
        let init = t.drop_last();
        assert(!init.contains('\n')) by {
            if init.contains('\n') {
                let i = choose|i: int| 0 <= i < init.len() && init[i] == '\n';
                assert(t[i] == '\n');
            }
        }
        lemma_split_no_newline(init);
        assert(t[t.len() - 1] != '\n');
        assert(init.push(t.last()) =~= t);
        assert(split_lines(t) =~= seq![t]);
    } else {
        assert(t =~= Seq::<char>::empty());
    }
}

proof fn lemma_split_lines_len(t: Seq<char>)
    ensures
        split_lines(t).len() <= t.len() + 1,
    decreases t.len(),
{
    if t.len() > 0 {
        lemma_split_lines_len(t.drop_last());
        lemma_split_lines_nonempty(t.drop_last());
    }
}

proof fn lemma_join_no_tab(ls: Seq<Seq<char>>)
    requires
        tab_free(ls),
    ensures
        no_tab(join_lines(ls)),
    decreases ls.len(),
{
    if ls.len() > 1 {
        let init = ls.drop_last();
        assert(tab_free(init)) by {
            assert forall|i: int, j: int| 0 <= i < init.len() && 0 <= j < init[i].len() implies #[trigger] init[i][j]
                != '\t' by {
                assert(init[i] == ls[i]);
            }
        }
        lemma_join_no_tab(init);
        let a = join_lines(init);
        let l = ls.last();
        let r = a + seq!['\n'] + l;
        assert forall|j: int| 0 <= j < r.len() implies #[trigger] r[j] != '\t' by {
            if j < a.len() {
                assert(r[j] == a[j]);
            } else if j > a.len() {
                assert(r[j] == l[j - a.len() - 1]);
                assert(ls[ls.len() - 1][j - a.len() - 1] != '\t');
            }
        }
    } else if ls.len() == 1 {
        assert forall|j: int| 0 <= j < ls[0].len() implies #[trigger] ls[0][j] != '\t' by {}
    }
}

/// Everything cut after Select All.
pub open spec fn cut_all(st: EditorState) -> EditorState {
    cut(select_all(st))
}

/// Law: Select All then Cut empties the text, and Paste right after brings
/// the text back, with nothing selected, the text marked changed and the
/// cursor at the end of the text. This holds for texts without carriage
/// returns (pasting drops them; the lines never hold tabs).
pub proof fn lemma_cut_all_paste(st: EditorState)
    requires
        wf(st),
        st.lines.len() <= usize::MAX,
        st.lines.last().len() <= usize::MAX,
        join_lines(st.lines).len() > 0,
        join_lines(st.lines).len() <= usize::MAX,
        forall|i: int| 0 <= i < join_lines(st.lines).len() ==> join_lines(st.lines)[i] != '\r',
    ensures
        join_lines(cut_all(st).lines).len() == 0,
        sel_range(cut_all(st)) is None,
        join_lines(paste(cut_all(st)).lines) == join_lines(st.lines),
        sel_range(paste(cut_all(st))) is None,
        paste(cut_all(st)).dirty,
        paste(cut_all(st)).cursor.row == paste(cut_all(st)).lines.len() - 1,
        paste(cut_all(st)).cursor.col == paste(cut_all(st)).lines.last().len(),
{
    let t = join_lines(st.lines);
    lemma_select_all_selects_text(st);
    let sa = select_all(st);
    let c = cut_all(st);
    let last = st.lines.len() - 1;
    assert(sa.anchor != Some(sa.cursor)) by {
        if last == 0 {
            assert(t == st.lines[0]);
        }
    }
    let sc = EditorState { clipboard: t, ..sa };
    assert(sel_range(sc) == Some((Pos { row: 0, col: 0 }, sa.cursor)));
    let first = st.lines[0];
    let lastl = st.lines[last];
    assert(first.subrange(0, clamp_col(first, 0)) =~= Seq::<char>::empty());
    assert(lastl.subrange(clamp_col(lastl, lastl.len() as int), lastl.len() as int)
        =~= Seq::<char>::empty());
    assert(replace_rows(st.lines, 0, last, seq![Seq::<char>::empty()]) =~= seq![
        Seq::<char>::empty(),
    ]);
    assert(c.lines =~= seq![Seq::<char>::empty()]);
    assert(c.clipboard == t);
    assert(c.anchor is None);
    assert(c.cursor == Pos { row: 0, col: 0 });
    lemma_join_no_tab(st.lines);
    lemma_plain_text_unchanged(t);
    lemma_join_split(t);
    lemma_split_lines_nonempty(t);
    let p = paste(c);
    let parts = split_lines(t);
    if t.contains('\n') {
        lemma_split_lines_newline(t);
        let n = parts.len() as int;
        assert(join_lines(parts).len() >= parts.last().len());
        lemma_split_lines_len(t);
        let e = Seq::<char>::empty();
        assert(seq![e + parts[0]] + parts.subrange(1, n - 1) + seq![parts[n - 1] + e] =~= parts);
        assert(replace_rows(c.lines, 0, 0, parts) =~= parts);
        assert(p.lines == parts);
    } else {
        lemma_split_no_newline(t);
        assert(Seq::<char>::empty() + t + Seq::<char>::empty() =~= t);
        assert(p.lines =~= seq![t]);
    }
}

/// Law: moving right and then left, without extending, puts the cursor
/// back where it was, leaves the text alone and selects nothing, unless the
/// cursor was at the very end of the text or past the end of its line.
pub proof fn lemma_move_right_then_left(st: EditorState)
    requires
        wf(st),
        st.cursor.col <= line_len(st, st.cursor.row as int),
        line_len(st, st.cursor.row as int) <= usize::MAX,
        st.lines.len() <= usize::MAX,
        !(st.cursor.row + 1 == st.lines.len() && st.cursor.col == line_len(
            st,
            st.cursor.row as int,
        )),
    ensures
        move_left(move_right(st, false), false).cursor == st.cursor,
        move_left(move_right(st, false), false).lines == st.lines,
        sel_range(move_left(move_right(st, false), false)) is None,
{
    let r = move_right(st, false);
    assert(r.lines == st.lines);
    assert(r.anchor is None);
    if st.cursor.col < line_len(st, st.cursor.row as int) {
        assert(r.cursor == Pos { row: st.cursor.row, col: (st.cursor.col + 1) as usize });
    } else {
        assert(r.cursor == Pos { row: (st.cursor.row + 1) as usize, col: 0 });
        assert(line_len(r, st.cursor.row as int) == line_len(st, st.cursor.row as int));
    }
}

} // verus!
