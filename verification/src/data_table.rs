//! A table of text cells with keyed rows and columns, a cursor, fixed
//! (non-scrolling) leading rows and columns, and horizontal/vertical scrolling.

use vstd::prelude::*;
use vstd::set_lib::*;
use crate::cells::{cell_len, cell_width, fit_cells, set_cell_size};
use crate::text::{concat, decimal, decimal_text, lemma_decimal_injective, text_eq, text_of};
use crate::widget_core::{texts, BindingDecl, NodeSeed, NodeState};
use crate::scroll::{clamp_offset_spec, line_clamp_offset};
use crate::event::{
    Action, Event, EventCtx, KeyCode, KeyEvent, Message, MessageEvent, NodeId, ParsedAction,
    ReactiveChange, ReactiveCtx, ReactiveField, ReactiveValue, ScrollbarAxis,
};

verus! {

/// Which part of the table the cursor highlights.
#[derive(Debug, Clone, Copy, PartialEq, Eq, Structural)]
pub enum CursorType {
    Cell,
    Row,
    Column,
    /// No cursor is shown.
    NoCursor,
}

/// Horizontal justification of a cell's text within its column width.
#[derive(Debug, Clone, Copy, PartialEq, Eq, Structural)]
pub enum CellJustify {
    Left,
    Right,
    Center,
}

impl Default for CellJustify {
    fn default() -> (j: CellJustify)
        ensures
            j == CellJustify::Left,
    {
        CellJustify::Left
    }
}

/// Key identifying a row independently of its position.
#[derive(Debug, Clone, PartialEq, Eq, Hash)]
pub struct RowKey(String);

impl View for RowKey {
    type V = Seq<char>;

    closed spec fn view(&self) -> Seq<char> {
        self.0@
    }
}

impl RowKey {
    pub fn new(key: &str) -> (k: RowKey)
        ensures
            k@ == key@,
    {
        RowKey(text_of(key))
    }

    pub fn as_str(&self) -> (s: &str)
        ensures
            s@ == self@,
    {
        self.0.as_str()
    }

    fn from_string(text: String) -> (k: RowKey)
        ensures
            k@ == text@,
    {
        RowKey(text)
    }

    /// A copy with the same text.
    pub fn duplicate(&self) -> (k: RowKey)
        ensures
            k@ == self@,
    {
        RowKey(self.0.clone())
    }
}

/// Key identifying a column independently of its position.
#[derive(Debug, Clone, PartialEq, Eq, Hash)]
pub struct ColumnKey(String);

impl View for ColumnKey {
    type V = Seq<char>;

    closed spec fn view(&self) -> Seq<char> {
        self.0@
    }
}

impl ColumnKey {
    pub fn new(key: &str) -> (k: ColumnKey)
        ensures
            k@ == key@,
    {
        ColumnKey(text_of(key))
    }

    pub fn as_str(&self) -> (s: &str)
        ensures
            s@ == self@,
    {
        self.0.as_str()
    }

    fn from_string(text: String) -> (k: ColumnKey)
        ensures
            k@ == text@,
    {
        ColumnKey(text)
    }

    /// A copy with the same text.
    pub fn duplicate(&self) -> (k: ColumnKey)
        ensures
            k@ == self@,
    {
        ColumnKey(self.0.clone())
    }
}

/// The texts of a sequence of row keys.
pub open spec fn row_key_texts(keys: Seq<RowKey>) -> Seq<Seq<char>> {
    keys.map_values(|k: RowKey| k@)
}

/// The texts of a sequence of column keys.
pub open spec fn column_key_texts(keys: Seq<ColumnKey>) -> Seq<Seq<char>> {
    keys.map_values(|k: ColumnKey| k@)
}

/// No text occurs twice.
pub open spec fn all_distinct(texts: Seq<Seq<char>>) -> bool {
    forall|i: int, j: int| 0 <= i < texts.len() && 0 <= j < texts.len() && i != j ==> texts[i] != texts[j]
}

/// The automatically generated key text number `n` under `prefix` (e.g. `row-3`).
pub open spec fn numbered_key(prefix: Seq<char>, n: usize) -> Seq<char> {
    prefix + decimal(n)
}

/// Equal numbered keys under one prefix have equal numbers' texts.
proof fn lemma_numbered_key_injective(prefix: Seq<char>, a: usize, b: usize)
    requires
        numbered_key(prefix, a) == numbered_key(prefix, b),
    ensures
        decimal(a) == decimal(b),
{
    let ka = numbered_key(prefix, a);
    let kb = numbered_key(prefix, b);
    assert(ka.subrange(prefix.len() as int, ka.len() as int) =~= decimal(a));
    assert(kb.subrange(prefix.len() as int, kb.len() as int) =~= decimal(b));
}

/// Display width of a cell: its cell width, but at least 1.
pub open spec fn cell_w(text: Seq<char>) -> usize {
    if cell_width(text) == 0 { 1 } else { cell_width(text) }
}

/// Widest cell of column `col` among the first `n` rows, starting from `init`.
pub open spec fn rows_max(rows: Seq<Seq<Seq<char>>>, col: int, n: nat, init: usize) -> usize
    decreases n,
{
    if n == 0 {
        init
    } else {
        let m = rows_max(rows, col, (n - 1) as nat, init);
        if n <= rows.len() && 0 <= col < rows[n - 1].len() && cell_w(rows[n - 1][col]) > m {
            cell_w(rows[n - 1][col])
        } else {
            m
        }
    }
}

/// Width of every column: the widest of its header and its cells, at least 1.
pub open spec fn column_widths_spec(headers: Seq<Seq<char>>, rows: Seq<Seq<Seq<char>>>) -> Seq<usize> {
    Seq::new(headers.len(), |c: int| rows_max(rows, c, rows.len(), cell_w(headers[c])))
}

/// Leading space before the first cell, and the gap between cells is twice this.
pub const CELL_PADDING: usize = 1;

/// Cached horizontal scrollbar geometry.
#[derive(Debug, Clone, Copy, PartialEq, Eq, Structural)]
pub struct HorizontalScrollbarState {
    pub content_width: usize,
    pub pixel_offset: usize,
    pub max_pixel_offset: usize,
}

/// A table of text cells.
#[derive(Debug, Clone)]
pub struct DataTable {
    pub column_keys: Vec<ColumnKey>,
    pub headers: Vec<String>,
    pub row_keys: Vec<RowKey>,
    pub rows: Vec<Vec<String>>,
    /// Optional per-row label (parallel to `rows`).
    pub row_labels: Vec<Option<String>>,
    /// Per-cell justification (parallel to `rows`); missing entries are `Left`.
    pub cell_justify: Vec<Vec<CellJustify>>,
    /// Cached column widths (see `column_widths_spec`).
    pub column_widths: Vec<usize>,
    /// Cursor row.
    pub selected: usize,
    /// First scrolled (non-fixed) row shown.
    pub offset: usize,
    /// Cursor column.
    pub cursor_column: usize,
    pub cursor_type: CursorType,
    pub fixed_rows: usize,
    pub fixed_columns: usize,
    /// Number of scrollable columns scrolled past.
    pub horizontal_offset: usize,
    pub next_row_key: usize,
    pub next_column_key: usize,
    pub content_width: u16,
    pub content_height: u16,
    /// Hovered `(row, column)`; the header row is `usize::MAX`.
    pub hover_coordinate: Option<(usize, usize)>,
    pub scrollbar_extracted: bool,
    pub show_header: bool,
    pub show_row_labels: bool,
    pub zebra_stripes: bool,
    pub seed: NodeSeed,
}

impl DataTable {
    pub open spec fn headers_view(&self) -> Seq<Seq<char>> {
        self.headers@.map_values(|h: String| h@)
    }

    pub open spec fn rows_view(&self) -> Seq<Seq<Seq<char>>> {
        self.rows@.map_values(|r: Vec<String>| r@.map_values(|c: String| c@))
    }

    pub open spec fn row_count_spec(&self) -> nat {
        self.rows@.len()
    }

    pub open spec fn column_count_spec(&self) -> nat {
        self.headers@.len()
    }

    /// Fixed columns actually present.
    pub open spec fn fixed_column_count_spec(&self) -> int {
        if self.fixed_columns < self.headers@.len() { self.fixed_columns as int } else { self.headers@.len() as int }
    }

    /// Columns that scroll horizontally.
    pub open spec fn scrollable_column_count_spec(&self) -> int {
        self.headers@.len() - self.fixed_column_count_spec()
    }

    /// Largest horizontal offset.
    pub open spec fn max_horizontal_offset(&self) -> int {
        if self.scrollable_column_count_spec() == 0 { 0 } else { self.scrollable_column_count_spec() - 1 }
    }

    /// The table's invariant.
    pub open spec fn wf(&self) -> bool {
        &&& self.row_keys@.len() == self.rows@.len()
        &&& self.row_labels@.len() == self.rows@.len()
        &&& self.cell_justify@.len() == self.rows@.len()
        &&& self.column_keys@.len() == self.headers@.len()
        &&& self.column_widths@ == column_widths_spec(self.headers_view(), self.rows_view())
        &&& (self.rows@.len() == 0 ==> self.selected == 0 && self.offset == 0)
        &&& (self.rows@.len() > 0 ==> self.selected < self.rows@.len())
        &&& (self.headers@.len() == 0 ==> self.cursor_column == 0)
        &&& (self.headers@.len() > 0 ==> self.cursor_column < self.headers@.len())
        &&& self.horizontal_offset <= self.max_horizontal_offset()
        &&& all_distinct(row_key_texts(self.row_keys@))
        &&& all_distinct(column_key_texts(self.column_keys@))
    }
}

/// Position of the first key with text `text`.
fn find_row_key(keys: &Vec<RowKey>, text: &str) -> (r: Option<usize>)
    ensures
        match r {
            Some(i) => i < keys@.len() && keys@[i as int]@ == text@ && forall|j: int|
                0 <= j < i ==> keys@[j]@ != text@,
            None => forall|j: int| 0 <= j < keys@.len() ==> keys@[j]@ != text@,
        },
{
    let mut i: usize = 0;
    while i < keys.len()
        invariant
            i <= keys@.len(),
            forall|j: int| 0 <= j < i ==> keys@[j]@ != text@,
        decreases keys@.len() - i,
    {
        if keys[i].0 == text_of(text) {
            return Some(i);
        }
        i = i + 1;
    }
    None
}

/// Position of the first key with text `text`.
fn find_column_key(keys: &Vec<ColumnKey>, text: &str) -> (r: Option<usize>)
    ensures
        match r {
            Some(i) => i < keys@.len() && keys@[i as int]@ == text@ && forall|j: int|
                0 <= j < i ==> keys@[j]@ != text@,
            None => forall|j: int| 0 <= j < keys@.len() ==> keys@[j]@ != text@,
        },
{
    let mut i: usize = 0;
    while i < keys.len()
        invariant
            i <= keys@.len(),
            forall|j: int| 0 <= j < i ==> keys@[j]@ != text@,
        decreases keys@.len() - i,
    {
        if keys[i].0 == text_of(text) {
            return Some(i);
        }
        i = i + 1;
    }
    None
}



/// Cell width of a text, at least 1.
fn cell_w_exec(text: &str) -> (w: usize)
    ensures
        w == cell_w(text@),
{
    let w = cell_len(text);
    if w == 0 { 1 } else { w }
}

impl DataTable {
    /// A fresh row key: `row-<n>` for the least `n` from the key counter on
    /// not in use; the counter moves past it, saturating at the largest `usize`.
    fn generate_row_key(&mut self) -> (key: RowKey)
        requires
            has_free("row-"@, row_key_texts(old(self).row_keys@), old(self).next_row_key as int),
        ensures
            Self::row_key_generated(*old(self), *final(self), key@),
            *final(self) == (DataTable { next_row_key: final(self).next_row_key, ..*old(self) }),
    {
        let ghost start = self.next_row_key as int;
        let ghost texts = row_key_texts(self.row_keys@);
        loop
            invariant
                start <= self.next_row_key,
                start == old(self).next_row_key,
                texts == row_key_texts(old(self).row_keys@),
                *self == (DataTable { next_row_key: self.next_row_key, ..*old(self) }),
                has_free("row-"@, texts, start),
                forall|m: int|
                    start <= m < self.next_row_key ==> texts.contains(#[trigger] numbered_key("row-"@, m as usize)),
            decreases usize::MAX - self.next_row_key,
        {
            let n = self.next_row_key;
            let digits = decimal_text(n);
            let candidate = concat("row-", digits.as_str());
            self.next_row_key = n.saturating_add(1);
            match find_row_key(&self.row_keys, candidate.as_str()) {
                None => {
                    proof {
                        if texts.contains(candidate@) {
                            let j = choose|j: int| 0 <= j < texts.len() && texts[j] == candidate@;
                            assert(self.row_keys@[j]@ == candidate@);
                        }
                        assert(least_free("row-"@, texts, start, n as int));
                        lemma_free_number("row-"@, texts, start, n as int);
                    }
                    return RowKey::from_string(candidate);
                },
                Some(j) => {
                    proof {
                        assert(texts[j as int] == candidate@);
                        assert(texts.contains(numbered_key("row-"@, n)));
                        let w = choose|w: int| start <= w <= usize::MAX && !texts.contains(#[trigger] numbered_key("row-"@, w as usize));
                        if w < n {
                            assert(texts.contains(numbered_key("row-"@, w as usize)));
                        }
                        assert(n < usize::MAX);
                    }
                },
            }
        }
    }

    /// A fresh column key: `column-<n>` for the least `n` from the key counter on
    /// not in use; the counter moves past it, saturating at the largest `usize`.
    fn generate_column_key(&mut self) -> (key: ColumnKey)
        requires
            has_free("column-"@, column_key_texts(old(self).column_keys@), old(self).next_column_key as int),
        ensures
            Self::column_key_generated(*old(self), *final(self), key@),
            *final(self) == (DataTable { next_column_key: final(self).next_column_key, ..*old(self) }),
    {
        let ghost start = self.next_column_key as int;
        let ghost texts = column_key_texts(self.column_keys@);
        loop
            invariant
                start <= self.next_column_key,
                start == old(self).next_column_key,
                texts == column_key_texts(old(self).column_keys@),
                *self == (DataTable { next_column_key: self.next_column_key, ..*old(self) }),
                has_free("column-"@, texts, start),
                forall|m: int|
                    start <= m < self.next_column_key ==> texts.contains(#[trigger] numbered_key("column-"@, m as usize)),
            decreases usize::MAX - self.next_column_key,
        {
            let n = self.next_column_key;
            let digits = decimal_text(n);
            let candidate = concat("column-", digits.as_str());
            self.next_column_key = n.saturating_add(1);
            match find_column_key(&self.column_keys, candidate.as_str()) {
                None => {
                    proof {
                        if texts.contains(candidate@) {
                            let j = choose|j: int| 0 <= j < texts.len() && texts[j] == candidate@;
                            assert(self.column_keys@[j]@ == candidate@);
                        }
                        assert(least_free("column-"@, texts, start, n as int));
                        lemma_free_number("column-"@, texts, start, n as int);
                    }
                    return ColumnKey::from_string(candidate);
                },
                Some(j) => {
                    proof {
                        assert(texts[j as int] == candidate@);
                        assert(texts.contains(numbered_key("column-"@, n)));
                        let w = choose|w: int| start <= w <= usize::MAX && !texts.contains(#[trigger] numbered_key("column-"@, w as usize));
                        if w < n {
                            assert(texts.contains(numbered_key("column-"@, w as usize)));
                        }
                        assert(n < usize::MAX);
                    }
                },
            }
        }
    }

    /// Recompute the cached column widths from the headers and cells.
    fn recompute_column_widths(&mut self)
        ensures
            final(self).column_widths@ == column_widths_spec(old(self).headers_view(), old(self).rows_view()),
            *final(self) == (DataTable { column_widths: final(self).column_widths, ..*old(self) }),
    {
        let ghost hv = self.headers_view();
        let ghost rv = self.rows_view();
        let hl = self.headers.len();
        let mut widths: Vec<usize> = Vec::new();
        let mut i: usize = 0;
        while i < hl
            invariant
                hl == self.headers@.len(),
                hv == self.headers_view(),
                i <= hl,
                widths@.len() == i,
                forall|c: int| 0 <= c < i ==> widths@[c] == cell_w(hv[c]),
            decreases hl - i,
        {
            widths.push(cell_w_exec(self.headers[i].as_str()));
            i = i + 1;
        }
        let rl = self.rows.len();
        let mut r: usize = 0;
        while r < rl
            invariant
                hl == self.headers@.len(),
                rl == self.rows@.len(),
                hv == self.headers_view(),
                rv == self.rows_view(),
                r <= rl,
                widths@.len() == hl,
                forall|c: int| 0 <= c < hl ==> widths@[c] == rows_max(rv, c, r as nat, cell_w(hv[c])),
            decreases rl - r,
        {
            let row = &self.rows[r];
            let n = if row.len() < hl { row.len() } else { hl };
            let mut idx: usize = 0;
            while idx < n
                invariant
                    hl == self.headers@.len(),
                    rl == self.rows@.len(),
                    hv == self.headers_view(),
                    rv == self.rows_view(),
                    r < rl,
                    row == self.rows@[r as int],
                    n <= hl,
                    n <= row@.len(),
                    n == row@.len() || n == hl,
                    idx <= n,
                    widths@.len() == hl,
                    forall|c: int| 0 <= c < idx ==> widths@[c] == rows_max(rv, c, (r + 1) as nat, cell_w(hv[c])),
                    forall|c: int| idx <= c < hl ==> widths@[c] == rows_max(rv, c, r as nat, cell_w(hv[c])),
                decreases n - idx,
            {
                let w = cell_w_exec(row[idx].as_str());
                assert(rv[r as int][idx as int] == row@[idx as int]@);
                if w > widths[idx] {
                    widths.set(idx, w);
                }
                idx = idx + 1;
            }
            proof {
                assert forall|c: int| n <= c < hl implies widths@[c] == rows_max(rv, c, (r + 1) as nat, cell_w(hv[c])) by {
                    assert(rv[r as int].len() == row@.len());
                }
            }
            r = r + 1;
        }
        self.column_widths = widths;
        assert(self.column_widths@ =~= column_widths_spec(hv, rv));
    }

    /// Fixed columns actually present.
    fn fixed_column_count(&self) -> (n: usize)
        ensures
            n == self.fixed_column_count_spec(),
    {
        if self.fixed_columns < self.headers.len() { self.fixed_columns } else { self.headers.len() }
    }

    /// Columns that scroll horizontally.
    fn scrollable_column_count(&self) -> (n: usize)
        ensures
            n == self.scrollable_column_count_spec(),
    {
        self.headers.len() - self.fixed_column_count()
    }

    /// Clamp the horizontal offset to the scrollable columns.
    fn clamp_horizontal_offset(&mut self)
        ensures
            final(self).horizontal_offset == (if old(self).horizontal_offset < old(self).max_horizontal_offset() {
                old(self).horizontal_offset as int
            } else {
                old(self).max_horizontal_offset()
            }),
            *final(self) == (DataTable { horizontal_offset: final(self).horizontal_offset, ..*old(self) }),
    {
        let scrollable = self.scrollable_column_count();
        let max = if scrollable == 0 { 0 } else { scrollable - 1 };
        if self.horizontal_offset > max {
            self.horizontal_offset = max;
        }
    }

    /// Bring the cursor and offsets back into range after rows or columns changed.
    fn clamp_indices(&mut self)
        ensures
            final(self).selected == (if old(self).rows@.len() == 0 {
                0
            } else if old(self).selected >= old(self).rows@.len() {
                (old(self).rows@.len() - 1) as usize
            } else {
                old(self).selected
            }),
            final(self).offset == (if old(self).rows@.len() == 0 { 0 } else { old(self).offset }),
            final(self).cursor_column == (if old(self).headers@.len() == 0 {
                0
            } else if old(self).cursor_column >= old(self).headers@.len() {
                (old(self).headers@.len() - 1) as usize
            } else {
                old(self).cursor_column
            }),
            final(self).horizontal_offset == (if old(self).horizontal_offset < old(self).max_horizontal_offset() {
                old(self).horizontal_offset as int
            } else {
                old(self).max_horizontal_offset()
            }),
            *final(self) == (DataTable {
                selected: final(self).selected,
                offset: final(self).offset,
                cursor_column: final(self).cursor_column,
                horizontal_offset: final(self).horizontal_offset,
                ..*old(self)
            }),
    {
        if self.rows.len() == 0 {
            self.selected = 0;
            self.offset = 0;
        } else if self.selected >= self.rows.len() {
            self.selected = self.rows.len() - 1;
        }
        if self.headers.len() == 0 {
            self.cursor_column = 0;
        } else if self.cursor_column >= self.headers.len() {
            self.cursor_column = self.headers.len() - 1;
        }
        self.clamp_horizontal_offset();
    }
}


/// `n` is the least number from `from` on whose key text under `prefix` is not in `texts`.
pub open spec fn least_free(prefix: Seq<char>, texts: Seq<Seq<char>>, from: int, n: int) -> bool {
    &&& from <= n
    &&& !texts.contains(numbered_key(prefix, n as usize))
    &&& forall|m: int| from <= m < n ==> texts.contains(#[trigger] numbered_key(prefix, m as usize))
}

/// Some number from `from` up to the largest `usize` has no key under
/// `prefix` in `texts`: generating a key from `from` on comes to an end.
pub open spec fn has_free(prefix: Seq<char>, texts: Seq<Seq<char>>, from: int) -> bool {
    exists|n: int| from <= n <= usize::MAX && !texts.contains(#[trigger] numbered_key(prefix, n as usize))
}

/// The least number from `from` on whose key under `prefix` is not in
/// `texts` (where [`has_free`] holds).
pub open spec fn free_number(prefix: Seq<char>, texts: Seq<Seq<char>>, from: int) -> int {
    choose|n: int| n <= usize::MAX && least_free(prefix, texts, from, n)
}

/// The key counter once number `n` is taken: `n + 1`, saturating at the
/// largest `usize`.
pub open spec fn counter_after(n: int) -> usize {
    if n < usize::MAX { (n + 1) as usize } else { usize::MAX }
}

/// Generating `count` keys under `prefix` one after another, each added to
/// `texts`, with the counter starting at `next`, comes to an end each time.
pub open spec fn keys_generable(prefix: Seq<char>, texts: Seq<Seq<char>>, next: int, count: nat) -> bool
    decreases count,
{
    if count == 0 {
        true
    } else {
        let n = free_number(prefix, texts, next);
        &&& has_free(prefix, texts, next)
        &&& keys_generable(prefix, texts.push(numbered_key(prefix, n as usize)), counter_after(n) as int, (count - 1) as nat)
    }
}

/// A number that is least free from `from` on is [`free_number`].
proof fn lemma_free_number(prefix: Seq<char>, texts: Seq<Seq<char>>, from: int, n: int)
    requires
        n <= usize::MAX,
        least_free(prefix, texts, from, n),
    ensures
        free_number(prefix, texts, from) == n,
{
    let m = free_number(prefix, texts, from);
    assert(m <= usize::MAX && least_free(prefix, texts, from, m));
    lemma_least_free_unique(prefix, texts, from, m, n);
}

/// The views of the cells of a row.
pub open spec fn row_view(row: Seq<String>) -> Seq<Seq<char>> {
    row.map_values(|c: String| c@)
}

/// The views of the cells of some rows.
pub open spec fn rows_text(rows: Seq<Vec<String>>) -> Seq<Seq<Seq<char>>> {
    rows.map_values(|r: Vec<String>| row_view(r@))
}

/// A cell-by-cell copy of a row.
pub fn copy_row(row: &Vec<String>) -> (r: Vec<String>)
    ensures
        r@ == row@,
{
    let mut out: Vec<String> = Vec::new();
    let mut i: usize = 0;
    while i < row.len()
        invariant
            i <= row@.len(),
            out@ == row@.subrange(0, i as int),
        decreases row@.len() - i,
    {
        out.push(row[i].clone());
        assert(out@ =~= row@.subrange(0, (i + 1) as int));
        i = i + 1;
    }
    assert(out@ =~= row@);
    out
}

impl DataTable {
    /// The state after appending a column with header `header` and key `key`.
    pub open spec fn column_appended(old: DataTable, new: DataTable, header: Seq<char>, key: Seq<char>) -> bool {
        &&& new.wf()
        &&& new.headers_view() == old.headers_view().push(header)
        &&& column_key_texts(new.column_keys@) == column_key_texts(old.column_keys@).push(key)
        &&& new.rows == old.rows
        &&& new.row_keys == old.row_keys
        &&& new.row_labels == old.row_labels
        &&& new.cell_justify == old.cell_justify
        &&& new.selected == old.selected
        &&& new.offset == old.offset
        &&& new.cursor_column == old.cursor_column
        &&& new.horizontal_offset == old.horizontal_offset
        &&& new.next_row_key == old.next_row_key
        &&& new.cursor_type == old.cursor_type
        &&& new.fixed_rows == old.fixed_rows
        &&& new.fixed_columns == old.fixed_columns
        &&& new.content_width == old.content_width
        &&& new.content_height == old.content_height
        &&& new.hover_coordinate == old.hover_coordinate
        &&& new.show_header == old.show_header
        &&& new.show_row_labels == old.show_row_labels
        &&& new.zebra_stripes == old.zebra_stripes
        &&& new.scrollbar_extracted == old.scrollbar_extracted
        &&& new.seed == old.seed
    }

    /// The state after appending row `row` with label `label` and key `key`.
    pub open spec fn row_appended(
        old: DataTable,
        new: DataTable,
        row: Seq<Seq<char>>,
        label: Option<Seq<char>>,
        key: Seq<char>,
    ) -> bool {
        &&& new.wf()
        &&& new.rows_view() == old.rows_view().push(row)
        &&& row_key_texts(new.row_keys@) == row_key_texts(old.row_keys@).push(key)
        &&& new.row_labels@.len() == old.row_labels@.len() + 1
        &&& new.row_labels@.drop_last() == old.row_labels@
        &&& match (new.row_labels@.last(), label) {
            (Some(l), Some(t)) => l@ == t,
            (None, None) => true,
            _ => false,
        }
        &&& new.cell_justify@.len() == old.cell_justify@.len() + 1
        &&& new.cell_justify@.drop_last() == old.cell_justify@
        &&& new.cell_justify@.last()@.len() == 0
        &&& new.headers == old.headers
        &&& new.column_keys == old.column_keys
        &&& new.selected == old.selected
        &&& new.offset == old.offset
        &&& new.cursor_column == old.cursor_column
        &&& new.horizontal_offset == old.horizontal_offset
        &&& new.next_column_key == old.next_column_key
        &&& new.cursor_type == old.cursor_type
        &&& new.fixed_rows == old.fixed_rows
        &&& new.fixed_columns == old.fixed_columns
        &&& new.content_width == old.content_width
        &&& new.content_height == old.content_height
        &&& new.hover_coordinate == old.hover_coordinate
        &&& new.show_header == old.show_header
        &&& new.show_row_labels == old.show_row_labels
        &&& new.zebra_stripes == old.zebra_stripes
        &&& new.scrollbar_extracted == old.scrollbar_extracted
        &&& new.seed == old.seed
    }

    /// Append a column under `key`, after its header was checked to be fresh.
    fn push_column(&mut self, key: ColumnKey, column: String)
        requires
            old(self).wf(),
            !column_key_texts(old(self).column_keys@).contains(key@),
        ensures
            Self::column_appended(*old(self), *final(self), column@, key@),
            final(self).next_column_key == old(self).next_column_key,
    {
        let ghost old_keys = column_key_texts(self.column_keys@);
        let ghost old_headers = self.headers_view();
        self.column_keys.push(key);
        self.headers.push(column);
        assert(column_key_texts(self.column_keys@) =~= old_keys.push(key@));
        assert(self.headers_view() =~= old_headers.push(column@));
        assert(self.headers@.len() == old(self).headers@.len() + 1);
        assert(self.max_horizontal_offset() >= old(self).max_horizontal_offset());
        self.clamp_indices();
        self.recompute_column_widths();
    }

    /// Append a row under `key`, after its key was checked to be fresh.
    fn push_row(&mut self, key: RowKey, row: Vec<String>, label: Option<String>)
        requires
            old(self).wf(),
            !row_key_texts(old(self).row_keys@).contains(key@),
        ensures
            Self::row_appended(
                *old(self),
                *final(self),
                row_view(row@),
                match label {
                    Some(l) => Some(l@),
                    None => None,
                },
                key@,
            ),
            final(self).next_row_key == old(self).next_row_key,
    {
        let ghost old_keys = row_key_texts(self.row_keys@);
        let ghost old_rows = self.rows_view();
        let ghost old_labels = self.row_labels@;
        let ghost rv = row_view(row@);
        self.row_keys.push(key);
        self.rows.push(row);
        self.row_labels.push(label);
        self.cell_justify.push(Vec::new());
        assert(row_key_texts(self.row_keys@) =~= old_keys.push(key@));
        assert(self.rows_view() =~= old_rows.push(rv));
        assert(self.row_labels@.drop_last() =~= old_labels);
        assert(self.cell_justify@.drop_last() =~= old(self).cell_justify@);
        self.clamp_indices();
        self.recompute_column_widths();
    }

    /// Append a column with a generated key (`column-<n>`), returning the key.
    pub fn add_column(&mut self, column: String) -> (key: ColumnKey)
        requires
            old(self).wf(),
            has_free("column-"@, column_key_texts(old(self).column_keys@), old(self).next_column_key as int),
        ensures
            Self::column_key_generated(*old(self), *final(self), key@),
            Self::column_appended(*old(self), *final(self), column@, key@),
    {
        let key = self.generate_column_key();
        let result = key.duplicate();
        self.push_column(key, column);
        result
    }

    /// Append a column under an explicit key; `None` (and no change) when the key is taken.
    pub fn add_column_with_key(&mut self, key: &str, column: String) -> (result: Option<ColumnKey>)
        requires
            old(self).wf(),
        ensures
            column_key_texts(old(self).column_keys@).contains(key@) ==> result is None && *final(self)
                == *old(self),
            !column_key_texts(old(self).column_keys@).contains(key@) ==> {
                &&& result is Some
                &&& result.unwrap()@ == key@
                &&& Self::column_appended(*old(self), *final(self), column@, key@)
                &&& final(self).next_column_key == old(self).next_column_key
            },
    {
        match find_column_key(&self.column_keys, key) {
            Some(i) => {
                assert(column_key_texts(self.column_keys@)[i as int] == key@);
                None
            },
            None => {
                let k = ColumnKey::new(key);
                let result = k.duplicate();
                self.push_column(k, column);
                Some(result)
            },
        }
    }

    /// Append a row with a generated key (`row-<n>`), returning the key.
    pub fn add_row(&mut self, row: Vec<String>) -> (key: RowKey)
        requires
            old(self).wf(),
            has_free("row-"@, row_key_texts(old(self).row_keys@), old(self).next_row_key as int),
        ensures
            Self::row_key_generated(*old(self), *final(self), key@),
            Self::row_appended(*old(self), *final(self), row_view(row@), None, key@),
    {
        let key = self.generate_row_key();
        let result = key.duplicate();
        self.push_row(key, row, None);
        result
    }

    /// Append a row with a row label, and a generated key.
    pub fn add_row_labeled(&mut self, row: Vec<String>, label: &str) -> (key: RowKey)
        requires
            old(self).wf(),
            has_free("row-"@, row_key_texts(old(self).row_keys@), old(self).next_row_key as int),
        ensures
            Self::row_key_generated(*old(self), *final(self), key@),
            Self::row_appended(*old(self), *final(self), row_view(row@), Some(label@), key@),
    {
        let key = self.generate_row_key();
        let result = key.duplicate();
        self.push_row(key, row, Some(text_of(label)));
        result
    }

    /// Append a row under an explicit key; `None` (and no change) when the key is taken.
    pub fn add_row_with_key(&mut self, key: &str, row: Vec<String>) -> (result: Option<RowKey>)
        requires
            old(self).wf(),
        ensures
            row_key_texts(old(self).row_keys@).contains(key@) ==> result is None && *final(self)
                == *old(self),
            !row_key_texts(old(self).row_keys@).contains(key@) ==> {
                &&& result is Some
                &&& result.unwrap()@ == key@
                &&& Self::row_appended(*old(self), *final(self), row_view(row@), None, key@)
                &&& final(self).next_row_key == old(self).next_row_key
            },
    {
        match find_row_key(&self.row_keys, key) {
            Some(i) => {
                assert(row_key_texts(self.row_keys@)[i as int] == key@);
                None
            },
            None => {
                let k = RowKey::new(key);
                let result = k.duplicate();
                self.push_row(k, row, None);
                Some(result)
            },
        }
    }
}


/// Key texts `prefix0`, `prefix1`, ... for `count` keys.
pub open spec fn sequential_keys(prefix: Seq<char>, count: nat) -> Seq<Seq<char>> {
    Seq::new(count, |i: int| numbered_key(prefix, i as usize))
}

/// The first key generated after `count` sequential keys is the next in sequence.
proof fn lemma_next_sequential(prefix: Seq<char>, count: int, n: int)
    requires
        0 <= count <= n <= usize::MAX,
        least_free(prefix, sequential_keys(prefix, count as nat), count, n),
    ensures
        n == count,
{
    if n > count {
        let texts = sequential_keys(prefix, count as nat);
        assert(texts.contains(numbered_key(prefix, count as usize)));
        let j = choose|j: int| 0 <= j < texts.len() && texts[j] == numbered_key(prefix, count as usize);
        lemma_numbered_key_injective(prefix, j as usize, count as usize);
        lemma_decimal_injective(count as usize, j as usize);
    }
}

/// After `count` sequential keys, the key numbered `count` is free.
proof fn lemma_sequential_free(prefix: Seq<char>, count: int)
    requires
        0 <= count <= usize::MAX,
    ensures
        has_free(prefix, sequential_keys(prefix, count as nat), count),
{
    let texts = sequential_keys(prefix, count as nat);
    if texts.contains(numbered_key(prefix, count as usize)) {
        let j = choose|j: int| 0 <= j < texts.len() && texts[j] == numbered_key(prefix, count as usize);
        lemma_numbered_key_injective(prefix, j as usize, count as usize);
        lemma_decimal_injective(count as usize, j as usize);
    }
    assert(!texts.contains(numbered_key(prefix, count as usize)));
}

impl DataTable {
    /// Scalar settings of a freshly built table.
    pub open spec fn has_initial_settings(&self) -> bool {
        &&& self.selected == 0
        &&& self.offset == 0
        &&& self.cursor_column == 0
        &&& self.cursor_type == CursorType::Cell
        &&& self.fixed_rows == 0
        &&& self.fixed_columns == 0
        &&& self.horizontal_offset == 0
        &&& self.content_width == 0
        &&& self.content_height == 0
        &&& self.hover_coordinate is None
        &&& !self.scrollbar_extracted
        &&& self.show_header
        &&& self.show_row_labels
        &&& !self.zebra_stripes
    }

    /// An empty table: no columns, no rows.
    pub fn empty() -> (t: DataTable)
        ensures
            t.wf(),
            t.has_initial_settings(),
            t.headers@.len() == 0,
            t.rows@.len() == 0,
            t.next_row_key == 0,
            t.next_column_key == 0,
    {
        let t = DataTable {
            column_keys: Vec::new(),
            headers: Vec::new(),
            row_keys: Vec::new(),
            rows: Vec::new(),
            row_labels: Vec::new(),
            cell_justify: Vec::new(),
            column_widths: Vec::new(),
            selected: 0,
            offset: 0,
            cursor_column: 0,
            cursor_type: CursorType::Cell,
            fixed_rows: 0,
            fixed_columns: 0,
            horizontal_offset: 0,
            next_row_key: 0,
            next_column_key: 0,
            content_width: 0,
            content_height: 0,
            hover_coordinate: None,
            scrollbar_extracted: false,
            show_header: true,
            show_row_labels: true,
            zebra_stripes: false,
            seed: NodeSeed::new(),
        };
        assert(t.column_widths@ =~= column_widths_spec(t.headers_view(), t.rows_view()));
        t
    }

    /// A table with the given headers and rows; columns get keys `column-0`,
    /// `column-1`, ... and rows `row-0`, `row-1`, ...
    pub fn new(headers: Vec<String>, rows: Vec<Vec<String>>) -> (t: DataTable)
        requires
            headers@.len() < usize::MAX / 2,
            rows@.len() < usize::MAX / 2,
        ensures
            t.wf(),
            t.has_initial_settings(),
            t.headers_view() == headers@.map_values(|h: String| h@),
            t.rows_view() == rows@.map_values(|r: Vec<String>| row_view(r@)),
            column_key_texts(t.column_keys@) == sequential_keys("column-"@, headers@.len()),
            row_key_texts(t.row_keys@) == sequential_keys("row-"@, rows@.len()),
            forall|i: int| 0 <= i < rows@.len() ==> (#[trigger] t.row_labels@[i]) is None,
            forall|i: int| 0 <= i < rows@.len() ==> (#[trigger] t.cell_justify@[i])@.len() == 0,
            t.next_column_key == headers@.len(),
            t.next_row_key == rows@.len(),
    {
        let mut out = DataTable::empty();
        let mut i: usize = 0;
        while i < headers.len()
            invariant
                i <= headers@.len() < usize::MAX / 2,
                out.wf(),
                out.has_initial_settings(),
                out.rows@.len() == 0,
                out.next_row_key == 0,
                out.next_column_key == i,
                out.headers_view() == headers@.subrange(0, i as int).map_values(|h: String| h@),
                column_key_texts(out.column_keys@) == sequential_keys("column-"@, i as nat),
            decreases headers@.len() - i,
        {
            let ghost prev = out;
            proof {
                lemma_sequential_free("column-"@, i as int);
            }
            let _ = out.add_column(headers[i].clone());
            proof {
                lemma_next_sequential(
                    "column-"@,
                    i as int,
                    free_number("column-"@, column_key_texts(prev.column_keys@), prev.next_column_key as int),
                );
                assert(headers@.subrange(0, (i + 1) as int).map_values(|h: String| h@) =~= headers@.subrange(
                    0,
                    i as int,
                ).map_values(|h: String| h@).push(headers@[i as int]@));
                assert(sequential_keys("column-"@, (i + 1) as nat) =~= sequential_keys("column-"@, i as nat).push(
                    numbered_key("column-"@, i),
                ));
            }
            i = i + 1;
        }
        assert(headers@.subrange(0, i as int) =~= headers@);
        let ghost hv = out.headers_view();
        let ghost ck = out.column_keys@;
        let mut r: usize = 0;
        while r < rows.len()
            invariant
                r <= rows@.len() < usize::MAX / 2,
                out.wf(),
                out.has_initial_settings(),
                out.headers_view() == hv,
                out.column_keys@ == ck,
                column_key_texts(ck) == sequential_keys("column-"@, headers@.len()),
                out.next_row_key == r,
                out.next_column_key == headers@.len(),
                out.rows_view() == rows@.subrange(0, r as int).map_values(|row: Vec<String>| row_view(row@)),
                row_key_texts(out.row_keys@) == sequential_keys("row-"@, r as nat),
                forall|k: int| 0 <= k < r ==> (#[trigger] out.row_labels@[k]) is None,
                forall|k: int| 0 <= k < r ==> (#[trigger] out.cell_justify@[k])@.len() == 0,
            decreases rows@.len() - r,
        {
            let ghost prev = out;
            proof {
                lemma_sequential_free("row-"@, r as int);
            }
            let _ = out.add_row(copy_row(&rows[r]));
            proof {
                lemma_next_sequential(
                    "row-"@,
                    r as int,
                    free_number("row-"@, row_key_texts(prev.row_keys@), prev.next_row_key as int),
                );
                assert(rows@.subrange(0, (r + 1) as int).map_values(|row: Vec<String>| row_view(row@)) =~= rows@.subrange(
                    0,
                    r as int,
                ).map_values(|row: Vec<String>| row_view(row@)).push(row_view(rows@[r as int]@)));
                assert(sequential_keys("row-"@, (r + 1) as nat) =~= sequential_keys("row-"@, r as nat).push(
                    numbered_key("row-"@, r),
                ));
                assert forall|k: int| 0 <= k < r + 1 implies (#[trigger] out.row_labels@[k]) is None by {
                    if k < r {
                        assert(out.row_labels@[k] == out.row_labels@.drop_last()[k]);
                    }
                }
                assert forall|k: int| 0 <= k < r + 1 implies (#[trigger] out.cell_justify@[k])@.len() == 0 by {
                    if k < r {
                        assert(out.cell_justify@[k] == out.cell_justify@.drop_last()[k]);
                    }
                }
            }
            r = r + 1;
        }
        assert(rows@.subrange(0, r as int) =~= rows@);
        out
    }
}


/// The justification list of a row after setting column `col` to `j`, growing
/// the list with `Left` entries when it is too short.
pub open spec fn justify_set(v: Seq<CellJustify>, col: int, j: CellJustify) -> Seq<CellJustify> {
    let grown = if v.len() <= col { v + Seq::new((col + 1 - v.len()) as nat, |_i: int| CellJustify::Left) } else { v };
    grown.update(col, j)
}

/// The justification list of a row after setting columns `0..cols` to `j`.
pub open spec fn justify_fill(v: Seq<CellJustify>, cols: int, j: CellJustify) -> Seq<CellJustify> {
    Seq::new(
        if v.len() < cols { cols as nat } else { v.len() },
        |c: int| if c < cols { j } else { v[c] },
    )
}

/// Justification of column `col` in a row's list; `Left` when absent.
pub open spec fn justify_at(v: Seq<CellJustify>, col: int) -> CellJustify {
    if 0 <= col < v.len() { v[col] } else { CellJustify::Left }
}

fn copy_justify(v: &Vec<CellJustify>) -> (r: Vec<CellJustify>)
    ensures
        r@ == v@,
{
    let mut out: Vec<CellJustify> = Vec::new();
    let mut i: usize = 0;
    while i < v.len()
        invariant
            i <= v@.len(),
            out@ == v@.subrange(0, i as int),
        decreases v@.len() - i,
    {
        out.push(v[i]);
        assert(out@ =~= v@.subrange(0, (i + 1) as int));
        i = i + 1;
    }
    assert(out@ =~= v@);
    out
}

impl DataTable {
    pub fn row_key_at(&self, row: usize) -> (r: Option<&RowKey>)
        ensures
            match r {
                Some(k) => row < self.row_keys@.len() && *k == self.row_keys@[row as int],
                None => row >= self.row_keys@.len(),
            },
    {
        if row < self.row_keys.len() {
            Some(&self.row_keys[row])
        } else {
            None
        }
    }

    pub fn column_key_at(&self, column: usize) -> (r: Option<&ColumnKey>)
        ensures
            match r {
                Some(k) => column < self.column_keys@.len() && *k == self.column_keys@[column as int],
                None => column >= self.column_keys@.len(),
            },
    {
        if column < self.column_keys.len() {
            Some(&self.column_keys[column])
        } else {
            None
        }
    }

    /// Position of the row with key `key`.
    pub fn row_index_of(&self, key: &RowKey) -> (r: Option<usize>)
        ensures
            match r {
                Some(i) => i < self.row_keys@.len() && self.row_keys@[i as int]@ == key@ && forall|j: int|
                    0 <= j < i ==> self.row_keys@[j]@ != key@,
                None => !row_key_texts(self.row_keys@).contains(key@),
            },
    {
        let r = find_row_key(&self.row_keys, key.as_str());
        proof {
            if r is None && row_key_texts(self.row_keys@).contains(key@) {
                let j = choose|j: int| 0 <= j < self.row_keys@.len() && row_key_texts(self.row_keys@)[j] == key@;
                assert(self.row_keys@[j]@ == key@);
            }
        }
        r
    }

    /// Position of the column with key `key`.
    pub fn column_index_of(&self, key: &ColumnKey) -> (r: Option<usize>)
        ensures
            match r {
                Some(i) => i < self.column_keys@.len() && self.column_keys@[i as int]@ == key@
                    && forall|j: int| 0 <= j < i ==> self.column_keys@[j]@ != key@,
                None => !column_key_texts(self.column_keys@).contains(key@),
            },
    {
        let r = find_column_key(&self.column_keys, key.as_str());
        proof {
            if r is None && column_key_texts(self.column_keys@).contains(key@) {
                let j = choose|j: int|
                    0 <= j < self.column_keys@.len() && column_key_texts(self.column_keys@)[j] == key@;
                assert(self.column_keys@[j]@ == key@);
            }
        }
        r
    }

    /// The keys of the cell at (`row`, `column`), when both exist.
    pub fn cell_key_at(&self, row: usize, column: usize) -> (r: Option<(RowKey, ColumnKey)>)
        ensures
            match r {
                Some((rk, ck)) => row < self.row_keys@.len() && column < self.column_keys@.len()
                    && rk@ == self.row_keys@[row as int]@ && ck@ == self.column_keys@[column as int]@,
                None => row >= self.row_keys@.len() || column >= self.column_keys@.len(),
            },
    {
        if row < self.row_keys.len() && column < self.column_keys.len() {
            Some((self.row_keys[row].duplicate(), self.column_keys[column].duplicate()))
        } else {
            None
        }
    }

    /// The keys of the cell under the cursor.
    pub fn cursor_cell_key(&self) -> (r: Option<(RowKey, ColumnKey)>)
        ensures
            match r {
                Some((rk, ck)) => self.selected < self.row_keys@.len() && self.cursor_column
                    < self.column_keys@.len() && rk@ == self.row_keys@[self.selected as int]@ && ck@
                    == self.column_keys@[self.cursor_column as int]@,
                None => self.selected >= self.row_keys@.len() || self.cursor_column
                    >= self.column_keys@.len(),
            },
    {
        self.cell_key_at(self.selected, self.cursor_column)
    }

    pub fn selected(&self) -> (r: usize)
        ensures
            r == self.selected,
    {
        self.selected
    }

    pub fn selected_column(&self) -> (r: usize)
        ensures
            r == self.cursor_column,
    {
        self.cursor_column
    }

    /// The cursor as `(row, column)`.
    pub fn cursor(&self) -> (r: (usize, usize))
        ensures
            r == (self.selected, self.cursor_column),
    {
        (self.selected, self.cursor_column)
    }

    pub fn fixed_rows(&self) -> (r: usize)
        ensures
            r == self.fixed_rows,
    {
        self.fixed_rows
    }

    pub fn fixed_columns(&self) -> (r: usize)
        ensures
            r == self.fixed_columns,
    {
        self.fixed_columns
    }

    pub fn show_header(&self) -> (r: bool)
        ensures
            r == self.show_header,
    {
        self.show_header
    }

    pub fn show_row_labels(&self) -> (r: bool)
        ensures
            r == self.show_row_labels,
    {
        self.show_row_labels
    }

    pub fn zebra_stripes(&self) -> (r: bool)
        ensures
            r == self.zebra_stripes,
    {
        self.zebra_stripes
    }

    /// Builder: set the cursor type.
    pub fn cursor_type(self, ct: CursorType) -> (t: DataTable)
        ensures
            t == (DataTable { cursor_type: ct, ..self }),
    {
        DataTable { cursor_type: ct, ..self }
    }

    /// Set the justification of one data cell; rows out of range are ignored.
    pub fn set_cell_justify(&mut self, row: usize, col: usize, justify: CellJustify)
        requires
            old(self).wf(),
            col < usize::MAX,
        ensures
            final(self).wf(),
            row < old(self).rows@.len() ==> final(self).cell_justify@.len() == old(self).cell_justify@.len()
                && (forall|r: int|
                0 <= r < final(self).cell_justify@.len() ==> (#[trigger] final(self).cell_justify@[r])@
                    == if r == row {
                    justify_set(old(self).cell_justify@[r]@, col as int, justify)
                } else {
                    old(self).cell_justify@[r]@
                }),
            row >= old(self).rows@.len() ==> final(self).cell_justify == old(self).cell_justify,
            *final(self) == (DataTable { cell_justify: final(self).cell_justify, ..*old(self) }),
    {
        if row >= self.cell_justify.len() {
            return;
        }
        let mut rj = copy_justify(&self.cell_justify[row]);
        if rj.len() <= col {
            rj.resize(col + 1, CellJustify::Left);
        }
        let ghost grown = rj@;
        assert(grown =~= if old(self).cell_justify@[row as int]@.len() <= col {
            old(self).cell_justify@[row as int]@ + Seq::new(
                (col + 1 - old(self).cell_justify@[row as int]@.len()) as nat,
                |_i: int| CellJustify::Left,
            )
        } else {
            old(self).cell_justify@[row as int]@
        });
        rj.set(col, justify);
        self.cell_justify.set(row, rj);
    }

    /// Apply one justification to every cell of a data row.
    pub fn set_row_justify(&mut self, row: usize, justify: CellJustify)
        requires
            old(self).wf(),
        ensures
            final(self).wf(),
            final(self).cell_justify@.len() == old(self).cell_justify@.len(),
            forall|r: int|
                0 <= r < final(self).cell_justify@.len() ==> (#[trigger] final(self).cell_justify@[r])@
                    == if r == row {
                    justify_fill(old(self).cell_justify@[r]@, old(self).justify_columns(row), justify)
                } else {
                    old(self).cell_justify@[r]@
                },
            *final(self) == (DataTable { cell_justify: final(self).cell_justify, ..*old(self) }),
    {
        let cols = if row < self.rows.len() && self.rows[row].len() > self.headers.len() {
            self.rows[row].len()
        } else {
            self.headers.len()
        };
        let mut col: usize = 0;
        while col < cols
            invariant
                old(self).wf(),
                self.wf(),
                cols == old(self).justify_columns(row),
                col <= cols,
                *self == (DataTable { cell_justify: self.cell_justify, ..*old(self) }),
                self.cell_justify@.len() == old(self).cell_justify@.len(),
                forall|r: int|
                    0 <= r < self.cell_justify@.len() ==> (#[trigger] self.cell_justify@[r])@ == if r
                        == row {
                        justify_fill(old(self).cell_justify@[r]@, col as int, justify)
                    } else {
                        old(self).cell_justify@[r]@
                    },
            decreases cols - col,
        {
            let ghost before = self.cell_justify@;
            self.set_cell_justify(row, col, justify);
            proof {
                if row < self.rows@.len() {
                    assert(self.cell_justify@[row as int]@ =~= justify_fill(
                        old(self).cell_justify@[row as int]@,
                        (col + 1) as int,
                        justify,
                    ));
                }
            }
            col = col + 1;
        }
        proof {
            if row < self.rows@.len() {
                assert(self.cell_justify@[row as int]@ =~= justify_fill(old(self).cell_justify@[row as int]@, cols as int, justify));
            }
        }
    }

    /// Columns a whole-row justification covers: the larger of the header
    /// count and the row's cell count.
    pub open spec fn justify_columns(&self, row: usize) -> int {
        if row < self.rows@.len() && self.rows@[row as int]@.len() > self.headers@.len() {
            self.rows@[row as int]@.len() as int
        } else {
            self.headers@.len() as int
        }
    }

    /// Justification of one data cell (`Left` by default).
    pub fn cell_justify_at(&self, row: usize, col: usize) -> (j: CellJustify)
        ensures
            j == (if row < self.cell_justify@.len() {
                justify_at(self.cell_justify@[row as int]@, col as int)
            } else {
                CellJustify::Left
            }),
    {
        if row < self.cell_justify.len() && col < self.cell_justify[row].len() {
            self.cell_justify[row][col]
        } else {
            CellJustify::Left
        }
    }

    pub fn row_count(&self) -> (n: usize)
        ensures
            n == self.rows@.len(),
    {
        self.rows.len()
    }

    pub fn column_count(&self) -> (n: usize)
        ensures
            n == self.headers@.len(),
    {
        self.headers.len()
    }

    /// The text of the cell at (`row`, `col`), when it exists.
    pub fn get_cell(&self, row: usize, col: usize) -> (r: Option<&str>)
        ensures
            match r {
                Some(text) => row < self.rows@.len() && col < self.rows@[row as int]@.len() && text@
                    == self.rows@[row as int]@[col as int]@,
                None => row >= self.rows@.len() || col >= self.rows@[row as int]@.len(),
            },
    {
        if row < self.rows.len() && col < self.rows[row].len() {
            Some(self.rows[row][col].as_str())
        } else {
            None
        }
    }

    /// All cells of a row, when the row exists.
    pub fn get_row(&self, row: usize) -> (r: Option<&[String]>)
        ensures
            match r {
                Some(cells) => row < self.rows@.len() && cells@ == self.rows@[row as int]@,
                None => row >= self.rows@.len(),
            },
    {
        if row < self.rows.len() {
            Some(self.rows[row].as_slice())
        } else {
            None
        }
    }
}


/// A cursor index clamped into a list of `len` entries (0 when empty).
pub open spec fn clamp_index(index: usize, len: nat) -> usize {
    if len == 0 {
        0
    } else if index >= len {
        (len - 1) as usize
    } else {
        index
    }
}

impl DataTable {
    /// The state after the row at `index` was removed.
    pub open spec fn row_removed(old: DataTable, new: DataTable, index: int) -> bool {
        &&& new.wf()
        &&& new.rows@ == old.rows@.remove(index)
        &&& new.row_keys@ == old.row_keys@.remove(index)
        &&& new.row_labels@ == old.row_labels@.remove(index)
        &&& new.cell_justify@ == old.cell_justify@.remove(index)
        &&& new.selected == clamp_index(old.selected, new.rows@.len())
        &&& new.offset == (if new.rows@.len() == 0 { 0 } else { old.offset })
        &&& new.headers == old.headers
        &&& new.column_keys == old.column_keys
        &&& new.cursor_column == old.cursor_column
        &&& new.horizontal_offset == old.horizontal_offset
        &&& new.next_row_key == old.next_row_key
        &&& new.next_column_key == old.next_column_key
        &&& new.cursor_type == old.cursor_type
        &&& new.fixed_rows == old.fixed_rows
        &&& new.fixed_columns == old.fixed_columns
        &&& new.hover_coordinate == old.hover_coordinate
        &&& new.show_header == old.show_header
        &&& new == (DataTable {
            rows: new.rows,
            row_keys: new.row_keys,
            row_labels: new.row_labels,
            cell_justify: new.cell_justify,
            column_widths: new.column_widths,
            selected: new.selected,
            offset: new.offset,
            ..old
        })
    }

    /// Remove the row at `index`, returning its cells; `None` (and no change) when out of range.
    pub fn remove_row_at(&mut self, index: usize) -> (r: Option<Vec<String>>)
        requires
            old(self).wf(),
        ensures
            index >= old(self).rows@.len() ==> r is None && *final(self) == *old(self),
            index < old(self).rows@.len() ==> r is Some && r.unwrap()@ == old(self).rows@[index as int]@
                && Self::row_removed(*old(self), *final(self), index as int),
    {
        if index >= self.rows.len() {
            return None;
        }
        let ghost old_keys = self.row_keys@;
        self.row_keys.remove(index);
        let row_data = self.rows.remove(index);
        self.row_labels.remove(index);
        self.cell_justify.remove(index);
        proof {
            assert(row_key_texts(self.row_keys@) =~= row_key_texts(old_keys).remove(index as int));
            let t = row_key_texts(self.row_keys@);
            let o = row_key_texts(old_keys);
            assert forall|i: int, j: int| 0 <= i < t.len() && 0 <= j < t.len() && i != j implies t[i] != t[j] by {
                let oi = if i < index { i } else { i + 1 };
                let oj = if j < index { j } else { j + 1 };
                assert(t[i] == o[oi] && t[j] == o[oj]);
            }
        }
        self.clamp_indices();
        self.recompute_column_widths();
        Some(row_data)
    }

    /// Remove the row with key `row_key`, returning its cells; `None` (and no change) when absent.
    pub fn remove_row(&mut self, row_key: &RowKey) -> (r: Option<Vec<String>>)
        requires
            old(self).wf(),
        ensures
            !row_key_texts(old(self).row_keys@).contains(row_key@) ==> r is None && *final(self)
                == *old(self),
            row_key_texts(old(self).row_keys@).contains(row_key@) ==> exists|index: int|
                0 <= index < old(self).rows@.len() && old(self).row_keys@[index]@ == row_key@ && r
                    is Some && r.unwrap()@ == old(self).rows@[index]@ && #[trigger] Self::row_removed(
                    *old(self),
                    *final(self),
                    index,
                ),
    {
        match self.row_index_of(row_key) {
            None => None,
            Some(index) => {
                assert(row_key_texts(self.row_keys@)[index as int] == row_key@);
                let r = self.remove_row_at(index);
                assert(Self::row_removed(*old(self), *self, index as int));
                r
            },
        }
    }

    /// Remove all rows, and all columns too when `clear_columns`; reset the
    /// cursor, offsets, hover and key counters accordingly.
    pub fn clear(&mut self, clear_columns: bool)
        requires
            old(self).wf(),
        ensures
            final(self).wf(),
            final(self).rows@.len() == 0,
            final(self).row_keys@.len() == 0,
            final(self).row_labels@.len() == 0,
            final(self).cell_justify@.len() == 0,
            final(self).next_row_key == 0,
            clear_columns ==> final(self).headers@.len() == 0 && final(self).column_keys@.len() == 0
                && final(self).next_column_key == 0,
            !clear_columns ==> final(self).headers == old(self).headers && final(self).column_keys
                == old(self).column_keys && final(self).next_column_key == old(self).next_column_key,
            final(self).selected == 0,
            final(self).offset == 0,
            final(self).cursor_column == 0,
            final(self).horizontal_offset == 0,
            final(self).hover_coordinate is None,
            final(self).cursor_type == old(self).cursor_type,
            final(self).fixed_rows == old(self).fixed_rows,
            final(self).fixed_columns == old(self).fixed_columns,
            final(self).show_header == old(self).show_header,
            final(self).show_row_labels == old(self).show_row_labels,
            final(self).zebra_stripes == old(self).zebra_stripes,
            final(self).content_width == old(self).content_width,
            final(self).content_height == old(self).content_height,
    {
        self.rows.clear();
        self.row_keys.clear();
        self.row_labels.clear();
        self.cell_justify.clear();
        self.next_row_key = 0;
        if clear_columns {
            self.headers.clear();
            self.column_keys.clear();
            self.column_widths.clear();
            self.next_column_key = 0;
        }
        self.selected = 0;
        self.offset = 0;
        self.cursor_column = 0;
        self.horizontal_offset = 0;
        self.hover_coordinate = None;
        self.recompute_column_widths();
    }

    /// Replace the text of the cell at (`row`, `col`); `false` (and no change) when out of range.
    pub fn update_cell(&mut self, row: usize, col: usize, value: String) -> (updated: bool)
        requires
            old(self).wf(),
        ensures
            final(self).wf(),
            updated == (row < old(self).rows@.len() && col < old(self).rows@[row as int]@.len()),
            updated ==> final(self).rows_view() == old(self).rows_view().update(
                row as int,
                old(self).rows_view()[row as int].update(col as int, value@),
            ),
            !updated ==> *final(self) == *old(self),
            *final(self) == (DataTable {
                rows: final(self).rows,
                column_widths: final(self).column_widths,
                ..*old(self)
            }),
    {
        if row < self.rows.len() && col < self.rows[row].len() {
            let ghost old_rows = self.rows_view();
            let mut cells = copy_row(&self.rows[row]);
            cells.set(col, value);
            let ghost new_cells = cells@;
            assert(new_cells.map_values(|c: String| c@) =~= old_rows[row as int].update(col as int, value@));
            self.rows.set(row, cells);
            assert(self.rows_view() =~= old_rows.update(
                row as int,
                old_rows[row as int].update(col as int, value@),
            ));
            self.recompute_column_widths();
            true
        } else {
            false
        }
    }
}


impl DataTable {
    /// Fixed rows actually present.
    pub open spec fn fixed_data_rows_spec(&self) -> int {
        if self.fixed_rows < self.rows@.len() { self.fixed_rows as int } else { self.rows@.len() as int }
    }

    /// Fixed rows shown in a viewport of `visible_rows` data rows.
    pub open spec fn visible_fixed_rows_spec(&self, visible_rows: int) -> int {
        if self.fixed_data_rows_spec() < visible_rows { self.fixed_data_rows_spec() } else { visible_rows }
    }

    /// Scrolled rows shown in a viewport of `visible_rows` data rows.
    pub open spec fn scrollable_visible_rows_spec(&self, visible_rows: int) -> int {
        visible_rows - self.visible_fixed_rows_spec(visible_rows)
    }

    /// Rows that scroll vertically.
    pub open spec fn scrollable_row_count_spec(&self) -> int {
        self.rows@.len() - self.fixed_data_rows_spec()
    }

    /// Data rows shown in a viewport `height` lines tall (the header takes one line).
    pub open spec fn visible_rows_for_viewport_spec(&self, height: int) -> int {
        let header_rows = if self.show_header { 1int } else { 0int };
        if height > header_rows { height - header_rows } else { 0 }
    }

    /// Scroll offset `offset` moved just enough to show the cursor row, then clamped.
    pub open spec fn follow_cursor(&self, offset: int, visible_rows: int) -> int {
        let sv = self.scrollable_visible_rows_spec(visible_rows);
        let ssi = self.selected - self.fixed_data_rows_spec();
        let moved = if ssi < offset { ssi } else if ssi >= offset + sv { ssi + 1 - sv } else { offset };
        clamp_offset_spec(moved as usize, self.scrollable_row_count_spec() as usize, sv as usize) as int
    }

    /// The offset `ensure_visible(height)` settles on.
    pub open spec fn ensure_visible_spec(&self, height: int) -> int {
        if self.rows@.len() == 0 || height == 0 {
            0
        } else if self.selected < self.fixed_data_rows_spec() {
            0
        } else if self.scrollable_visible_rows_spec(height) == 0 {
            0
        } else {
            self.follow_cursor(self.offset as int, height)
        }
    }

    /// The scroll offset rendering uses for `visible_rows` data rows.
    pub open spec fn effective_offset_spec(&self, visible_rows: int) -> int {
        if self.rows@.len() == 0 || visible_rows == 0 {
            0
        } else if self.scrollable_visible_rows_spec(visible_rows) == 0 {
            0
        } else {
            let clamped = clamp_offset_spec(
                self.offset,
                self.scrollable_row_count_spec() as usize,
                self.scrollable_visible_rows_spec(visible_rows) as usize,
            ) as int;
            if self.selected < self.fixed_data_rows_spec() {
                clamped
            } else {
                self.follow_cursor(clamped, visible_rows)
            }
        }
    }

    /// The data row drawn at line `y`, for `visible_rows` data rows.
    pub open spec fn row_index_from_y_spec(&self, y: int, visible_rows: int) -> Option<usize> {
        let header_rows = if self.show_header { 1int } else { 0int };
        if y < header_rows {
            None
        } else {
            let data_y = y - header_rows;
            let fixed_visible = self.visible_fixed_rows_spec(visible_rows);
            if data_y < fixed_visible {
                Some(data_y as usize)
            } else {
                let slot = data_y - fixed_visible;
                if slot >= self.scrollable_visible_rows_spec(visible_rows) {
                    None
                } else {
                    let row = self.fixed_data_rows_spec() + self.effective_offset_spec(visible_rows) + slot;
                    if row < self.rows@.len() { Some(row as usize) } else { None }
                }
            }
        }
    }

    fn fixed_data_rows(&self) -> (n: usize)
        ensures
            n == self.fixed_data_rows_spec(),
    {
        if self.fixed_rows < self.rows.len() { self.fixed_rows } else { self.rows.len() }
    }

    fn visible_fixed_rows(&self, visible_rows: usize) -> (n: usize)
        ensures
            n == self.visible_fixed_rows_spec(visible_rows as int),
    {
        let f = self.fixed_data_rows();
        if f < visible_rows { f } else { visible_rows }
    }

    fn scrollable_visible_rows(&self, visible_rows: usize) -> (n: usize)
        ensures
            n == self.scrollable_visible_rows_spec(visible_rows as int),
    {
        visible_rows - self.visible_fixed_rows(visible_rows)
    }

    fn scrollable_row_count(&self) -> (n: usize)
        ensures
            n == self.scrollable_row_count_spec(),
    {
        self.rows.len() - self.fixed_data_rows()
    }

    fn visible_rows_for_viewport(&self, height: usize) -> (n: usize)
        ensures
            n == self.visible_rows_for_viewport_spec(height as int),
    {
        let header_rows: usize = if self.show_header { 1 } else { 0 };
        height.saturating_sub(header_rows)
    }

    /// Data rows shown in the current viewport.
    pub fn visible_rows(&self) -> (n: usize)
        ensures
            n == self.visible_rows_for_viewport_spec(self.content_height as int),
    {
        self.visible_rows_for_viewport(self.content_height as usize)
    }

    fn follow_cursor_exec(&self, offset: usize, visible_rows: usize) -> (o: usize)
        requires
            self.selected >= self.fixed_data_rows_spec(),
            self.scrollable_visible_rows_spec(visible_rows as int) > 0,
        ensures
            o == self.follow_cursor(offset as int, visible_rows as int),
    {
        let sv = self.scrollable_visible_rows(visible_rows);
        let ssi = self.selected - self.fixed_data_rows();
        let moved = if ssi < offset {
            ssi
        } else if ssi - offset >= sv {
            ssi - sv + 1
        } else {
            offset
        };
        line_clamp_offset(moved, self.scrollable_row_count(), sv)
    }

    /// Scroll vertically just enough to show the cursor row in `height` data rows.
    fn ensure_visible(&mut self, height: usize)
        ensures
            final(self).offset == old(self).ensure_visible_spec(height as int),
            *final(self) == (DataTable { offset: final(self).offset, ..*old(self) }),
    {
        if self.rows.len() == 0 || height == 0 {
            self.offset = 0;
            return;
        }
        if self.selected < self.fixed_data_rows() {
            self.offset = 0;
            return;
        }
        if self.scrollable_visible_rows(height) == 0 {
            self.offset = 0;
            return;
        }
        self.offset = self.follow_cursor_exec(self.offset, height);
    }

    /// The scroll offset rendering uses for `visible_rows` data rows.
    fn effective_offset(&self, visible_rows: usize) -> (o: usize)
        ensures
            o == self.effective_offset_spec(visible_rows as int),
    {
        if self.rows.len() == 0 || visible_rows == 0 {
            return 0;
        }
        let sv = self.scrollable_visible_rows(visible_rows);
        if sv == 0 {
            return 0;
        }
        let offset = line_clamp_offset(self.offset, self.scrollable_row_count(), sv);
        if self.selected < self.fixed_data_rows() {
            return offset;
        }
        self.follow_cursor_exec(offset, visible_rows)
    }

    /// The data row drawn at line `y`, for `visible_rows` data rows.
    pub fn row_index_from_y(&self, y: usize, visible_rows: usize) -> (r: Option<usize>)
        ensures
            r == self.row_index_from_y_spec(y as int, visible_rows as int),
    {
        let header_rows: usize = if self.show_header { 1 } else { 0 };
        if y < header_rows {
            return None;
        }
        let data_y = y - header_rows;
        let fixed_visible = self.visible_fixed_rows(visible_rows);
        if data_y < fixed_visible {
            return Some(data_y);
        }
        let slot = data_y - fixed_visible;
        if slot >= self.scrollable_visible_rows(visible_rows) {
            return None;
        }
        let fixed = self.fixed_data_rows();
        let off = self.effective_offset(visible_rows);
        if off >= self.rows.len() || slot >= self.rows.len() - off || fixed >= self.rows.len() - off - slot {
            return None;
        }
        Some(fixed + off + slot)
    }
}


/// Width of column `col`; 0 when there is no such column.
pub open spec fn width_of(widths: Seq<usize>, col: usize) -> usize {
    if col < widths.len() { widths[col as int] } else { 0 }
}

/// Start cell of the `k`-th of the columns `cols`, laid out left to right with 2-cell gaps.
pub open spec fn col_start(widths: Seq<usize>, cols: Seq<usize>, k: nat) -> usize
    decreases k,
{
    if k == 0 {
        0
    } else {
        col_start(widths, cols, (k - 1) as nat).saturating_add(width_of(widths, cols[k - 1])).saturating_add(2)
    }
}

/// End cell (exclusive) of the `k`-th of the columns `cols`.
pub open spec fn col_end(widths: Seq<usize>, cols: Seq<usize>, k: nat) -> usize {
    col_start(widths, cols, k).saturating_add(width_of(widths, cols[k as int]))
}

/// Total width of the columns `cols` laid out with 2-cell gaps.
pub open spec fn span(widths: Seq<usize>, cols: Seq<usize>) -> usize {
    if cols.len() == 0 { 0 } else { col_end(widths, cols, (cols.len() - 1) as nat) }
}

/// The indices `lo..hi`.
pub open spec fn index_range(lo: int, hi: int) -> Seq<usize> {
    Seq::new((hi - lo) as nat, |i: int| (lo + i) as usize)
}

/// Whether `column`, searched from the `k`-th of `cols` on, lies entirely within `usable` cells.
pub open spec fn visible_scan(widths: Seq<usize>, cols: Seq<usize>, column: usize, usable: usize, k: nat) -> bool
    decreases cols.len() - k,
{
    if k >= cols.len() {
        false
    } else if cols[k as int] == column {
        col_start(widths, cols, k) < usable && col_end(widths, cols, k) <= usable
    } else {
        visible_scan(widths, cols, column, usable, k + 1)
    }
}

/// The column under content cell `x`, searched from the `k`-th of `cols` on:
/// the first whose end lies beyond `x`, else the last one (0 when none).
pub open spec fn column_at_scan(widths: Seq<usize>, cols: Seq<usize>, x: usize, k: nat) -> usize
    decreases cols.len() - k,
{
    if k >= cols.len() {
        if cols.len() == 0 { 0 } else { cols.last() }
    } else if x < col_end(widths, cols, k) {
        cols[k as int]
    } else {
        column_at_scan(widths, cols, x, k + 1)
    }
}

/// Total width of the first `n` scrollable columns, each followed by its gap.
pub open spec fn pixels_before(widths: Seq<usize>, fixed: int, n: nat) -> usize
    decreases n,
{
    if n == 0 {
        0
    } else {
        pixels_before(widths, fixed, (n - 1) as nat).saturating_add(
            width_of(widths, (fixed + n - 1) as usize),
        ).saturating_add(2)
    }
}

/// Number of whole scrollable columns (from `offset` on) that fit in `pixels`, up to `max`.
pub open spec fn offset_for_pixels(
    widths: Seq<usize>,
    fixed: int,
    max: int,
    pixels: usize,
    offset: int,
    consumed: usize,
) -> int
    decreases max - offset,
{
    if offset >= max {
        offset
    } else {
        let step = width_of(widths, (fixed + offset) as usize).saturating_add(2);
        if consumed.saturating_add(step) > pixels {
            offset
        } else {
            offset_for_pixels(widths, fixed, max, pixels, offset + 1, consumed.saturating_add(step))
        }
    }
}

impl DataTable {
    /// Columns drawn at horizontal offset `offset`: the fixed columns, then the
    /// scrollable ones from the offset on.
    pub open spec fn rendered_columns_spec(&self, offset: usize) -> Seq<usize> {
        let total = self.headers@.len() as int;
        let fixed = self.fixed_column_count_spec();
        if total == 0 {
            Seq::empty()
        } else if fixed < total {
            let co = if offset < total - fixed - 1 { offset as int } else { total - fixed - 1 };
            index_range(0, fixed) + index_range(fixed + co, total)
        } else {
            index_range(0, fixed)
        }
    }

    /// Whether `column` is fully visible in `width` cells at horizontal offset `offset`.
    pub open spec fn column_visible_spec(&self, column: usize, width: usize, offset: usize) -> bool {
        width != 0 && visible_scan(
            self.column_widths@,
            self.rendered_columns_spec(offset),
            column,
            width.saturating_sub(CELL_PADDING),
            0,
        )
    }

    /// Offset after scrolling right from `h` until `column` is visible (at most to `max`).
    pub open spec fn scan_forward(&self, column: usize, width: usize, h: int, max: int) -> int
        decreases max - h,
    {
        if h < max && !self.column_visible_spec(column, width, h as usize) {
            self.scan_forward(column, width, h + 1, max)
        } else {
            h
        }
    }

    /// Offset after scrolling left from `h` while `column` stays visible.
    pub open spec fn scan_backward(&self, column: usize, width: usize, h: int) -> int
        decreases h,
    {
        if h > 0 && self.column_visible_spec(column, width, (h - 1) as usize) {
            self.scan_backward(column, width, h - 1)
        } else {
            h
        }
    }

    /// Horizontal offset `ensure_cursor_column_visible(width)` settles on.
    pub open spec fn cursor_column_offset_spec(&self, width: usize) -> int {
        if self.headers@.len() == 0 {
            0
        } else if self.cursor_column < self.fixed_column_count_spec() {
            0
        } else if !self.column_visible_spec(self.fixed_column_count_spec() as usize, width, 0) {
            0
        } else {
            let max = self.max_horizontal_offset();
            let start = if self.horizontal_offset < max { self.horizontal_offset as int } else { max };
            self.scan_backward(self.cursor_column, width, self.scan_forward(self.cursor_column, width, start, max))
        }
    }

    /// Width of the fixed columns block.
    pub open spec fn fixed_section_width_spec(&self) -> usize {
        span(self.column_widths@, index_range(0, self.fixed_column_count_spec()))
    }

    /// Width of all scrollable columns laid out together.
    pub open spec fn scrollable_content_width_spec(&self) -> usize {
        span(self.column_widths@, index_range(self.fixed_column_count_spec(), self.headers@.len() as int))
    }

    /// Cells left for scrollable columns in a viewport `width` wide.
    pub open spec fn scrollable_viewport_width_spec(&self, width: usize) -> usize {
        if self.fixed_column_count_spec() >= self.headers@.len() {
            0
        } else {
            let gap: usize = if self.fixed_column_count_spec() > 0 { 2 } else { 0 };
            width.saturating_sub(self.fixed_section_width_spec().saturating_add(gap))
        }
    }

    /// The horizontal offset in cells.
    pub open spec fn horizontal_offset_pixels_spec(&self) -> usize {
        let m = if self.scrollable_column_count_spec() > 0 { self.scrollable_column_count_spec() - 1 } else { 0 };
        let offset = if self.horizontal_offset < m { self.horizontal_offset as int } else { m };
        pixels_before(self.column_widths@, self.fixed_column_count_spec(), offset as nat)
    }

    /// Horizontal scrollbar geometry for a viewport `width` wide; `None` when nothing overflows.
    pub open spec fn horizontal_scrollbar_state_spec(&self, width: usize) -> Option<HorizontalScrollbarState> {
        let viewport = self.scrollable_viewport_width_spec(width);
        let content = self.scrollable_content_width_spec();
        if width == 0 || viewport == 0 || content <= viewport {
            None
        } else {
            let max_px = (content - viewport) as usize;
            let px = if self.horizontal_offset_pixels_spec() < max_px { self.horizontal_offset_pixels_spec() } else { max_px };
            Some(HorizontalScrollbarState { content_width: content, pixel_offset: px, max_pixel_offset: max_px })
        }
    }

    /// Columns drawn at horizontal offset `offset`.
    fn rendered_column_indices_with_offset(&self, offset: usize) -> (cols: Vec<usize>)
        ensures
            cols@ == self.rendered_columns_spec(offset),
    {
        let total = self.headers.len();
        let mut columns: Vec<usize> = Vec::new();
        if total == 0 {
            assert(columns@ =~= self.rendered_columns_spec(offset));
            return columns;
        }
        let fixed = self.fixed_column_count();
        let mut i: usize = 0;
        while i < fixed
            invariant
                fixed == self.fixed_column_count_spec(),
                fixed <= total,
                i <= fixed,
                columns@ == index_range(0, i as int),
            decreases fixed - i,
        {
            columns.push(i);
            assert(columns@ =~= index_range(0, (i + 1) as int));
            i = i + 1;
        }
        if fixed < total {
            let co = if offset < total - fixed - 1 { offset } else { total - fixed - 1 };
            let mut c = fixed + co;
            while c < total
                invariant
                    fixed == self.fixed_column_count_spec(),
                    fixed + co <= c <= total,
                    total == self.headers@.len(),
                    columns@ == index_range(0, fixed as int) + index_range((fixed + co) as int, c as int),
                decreases total - c,
            {
                columns.push(c);
                assert(columns@ =~= index_range(0, fixed as int) + index_range((fixed + co) as int, (c + 1) as int));
                c = c + 1;
            }
        }
        assert(columns@ =~= self.rendered_columns_spec(offset));
        columns
    }

    /// Columns drawn at the current horizontal offset.
    fn rendered_column_indices(&self) -> (cols: Vec<usize>)
        ensures
            cols@ == self.rendered_columns_spec(self.horizontal_offset),
    {
        self.rendered_column_indices_with_offset(self.horizontal_offset)
    }

    /// Whether `column` is fully visible in `width` cells at horizontal offset `offset`.
    fn column_is_visible_at_width(&self, column: usize, width: usize, offset: usize) -> (b: bool)
        ensures
            b == self.column_visible_spec(column, width, offset),
    {
        if width == 0 {
            return false;
        }
        let usable = width.saturating_sub(CELL_PADDING);
        let columns = self.rendered_column_indices_with_offset(offset);
        let ghost w = self.column_widths@;
        let mut pos: usize = 0;
        let mut idx: usize = 0;
        while idx < columns.len()
            invariant
                idx <= columns@.len(),
                w == self.column_widths@,
                columns@ == self.rendered_columns_spec(offset),
                usable == width.saturating_sub(CELL_PADDING),
                idx == 0 ==> pos == 0,
                idx > 0 ==> pos == col_end(w, columns@, (idx - 1) as nat),
                visible_scan(w, columns@, column, usable, 0) == visible_scan(w, columns@, column, usable, idx as nat),
            decreases columns@.len() - idx,
        {
            if idx > 0 {
                pos = pos.saturating_add(2);
            }
            let col = columns[idx];
            let col_width = if col < self.column_widths.len() { self.column_widths[col] } else { 0 };
            let start = pos;
            let end = start.saturating_add(col_width);
            assert(start == col_start(w, columns@, idx as nat));
            if col == column {
                return start < usable && end <= usable;
            }
            pos = end;
            idx = idx + 1;
        }
        false
    }

    /// The column under content cell `x` among `rendered_columns`.
    fn column_at_x_in_rendered_columns(&self, x: usize, rendered_columns: &Vec<usize>) -> (c: usize)
        ensures
            c == column_at_scan(self.column_widths@, rendered_columns@, x.saturating_sub(CELL_PADDING), 0),
    {
        if rendered_columns.len() == 0 {
            return 0;
        }
        let xa = x.saturating_sub(CELL_PADDING);
        let ghost w = self.column_widths@;
        let ghost cols = rendered_columns@;
        let mut pos: usize = 0;
        let mut idx: usize = 0;
        while idx < rendered_columns.len()
            invariant
                cols == rendered_columns@,
                cols.len() > 0,
                w == self.column_widths@,
                idx <= cols.len(),
                idx == 0 ==> pos == 0,
                idx > 0 ==> pos == col_end(w, cols, (idx - 1) as nat),
                xa == x.saturating_sub(CELL_PADDING),
                column_at_scan(w, cols, xa, 0) == column_at_scan(w, cols, xa, idx as nat),
            decreases cols.len() - idx,
        {
            if idx > 0 {
                pos = pos.saturating_add(2);
            }
            let col = rendered_columns[idx];
            let width = if col < self.column_widths.len() { self.column_widths[col] } else { 0 };
            let end = pos.saturating_add(width);
            assert(pos == col_start(w, cols, idx as nat));
            assert(end == col_end(w, cols, idx as nat));
            if xa < end {
                return col;
            }
            pos = end;
            idx = idx + 1;
        }
        rendered_columns[rendered_columns.len() - 1]
    }
}


impl DataTable {
    /// Horizontal offset after scrolling by `delta` columns, clamped to the scrollable range.
    pub open spec fn scrolled_offset_spec(&self, delta: int) -> int {
        let target = self.horizontal_offset + delta;
        let clamped_low = if target < 0 { 0 } else if target > usize::MAX { usize::MAX as int } else { target };
        if clamped_low < self.max_horizontal_offset() { clamped_low } else { self.max_horizontal_offset() }
    }

    /// Columns to page by: the scrollable columns currently drawn, less one, but at least 1 when `width > 0`.
    pub open spec fn page_horizontal_step_spec(&self, width: usize) -> usize {
        let drawn = self.rendered_columns_spec(self.horizontal_offset).len() as int;
        let visible = if drawn > self.fixed_column_count_spec() { drawn - self.fixed_column_count_spec() } else { 0 };
        let less_one = if visible > 0 { visible - 1 } else { 0 };
        let floor = if width > 0 { 1int } else { 0int };
        (if less_one > floor { less_one } else { floor }) as usize
    }

    /// Scroll horizontally just enough to show the cursor column in `width` cells.
    fn ensure_cursor_column_visible(&mut self, width: usize)
        ensures
            final(self).horizontal_offset == old(self).cursor_column_offset_spec(width),
            *final(self) == (DataTable { horizontal_offset: final(self).horizontal_offset, ..*old(self) }),
    {
        if self.headers.len() == 0 {
            self.horizontal_offset = 0;
            return;
        }
        let fixed = self.fixed_column_count();
        if self.cursor_column < fixed {
            self.horizontal_offset = 0;
            return;
        }
        if !self.column_is_visible_at_width(fixed, width, 0) {
            self.horizontal_offset = 0;
            return;
        }
        let max = self.scrollable_column_count().saturating_sub(1);
        let mut h = if self.horizontal_offset < max { self.horizontal_offset } else { max };
        let ghost start = h as int;
        let cursor = self.cursor_column;
        while h < max && !self.column_is_visible_at_width(cursor, width, h)
            invariant
                max == self.max_horizontal_offset(),
                cursor == self.cursor_column,
                start <= h <= max,
                self.scan_forward(cursor, width, h as int, max as int) == self.scan_forward(cursor, width, start, max as int),
            decreases max - h,
        {
            h = h + 1;
        }
        let ghost fwd = h as int;
        while h > 0 && self.column_is_visible_at_width(cursor, width, h - 1)
            invariant
                cursor == self.cursor_column,
                self.scan_backward(cursor, width, h as int) == self.scan_backward(cursor, width, fwd),
            decreases h,
        {
            h = h - 1;
        }
        self.horizontal_offset = h;
    }

    /// Width of the columns `lo..hi` laid out together.
    fn span_of_range(&self, lo: usize, hi: usize) -> (w: usize)
        requires
            lo <= hi,
        ensures
            w == span(self.column_widths@, index_range(lo as int, hi as int)),
    {
        let ghost cols = index_range(lo as int, hi as int);
        let ghost ws = self.column_widths@;
        let mut width: usize = 0;
        let mut idx: usize = 0;
        while idx < hi - lo
            invariant
                lo <= hi,
                cols == index_range(lo as int, hi as int),
                ws == self.column_widths@,
                idx <= hi - lo,
                idx == 0 ==> width == 0,
                idx > 0 ==> width == col_end(ws, cols, (idx - 1) as nat),
            decreases hi - lo - idx,
        {
            if idx > 0 {
                width = width.saturating_add(2);
            }
            assert(width == col_start(ws, cols, idx as nat));
            let col = lo + idx;
            let w = if col < self.column_widths.len() { self.column_widths[col] } else { 0 };
            width = width.saturating_add(w);
            idx = idx + 1;
        }
        width
    }

    /// Width of the fixed columns block.
    fn fixed_section_width(&self) -> (w: usize)
        ensures
            w == self.fixed_section_width_spec(),
    {
        let fixed = self.fixed_column_count();
        self.span_of_range(0, fixed)
    }

    /// Width of all scrollable columns laid out together.
    fn scrollable_content_width(&self) -> (w: usize)
        ensures
            w == self.scrollable_content_width_spec(),
    {
        let fixed = self.fixed_column_count();
        self.span_of_range(fixed, self.headers.len())
    }

    /// Cells left for scrollable columns in a viewport `width` wide.
    fn scrollable_viewport_width(&self, width: usize) -> (w: usize)
        ensures
            w == self.scrollable_viewport_width_spec(width),
    {
        let fixed = self.fixed_column_count();
        if fixed >= self.headers.len() {
            return 0;
        }
        let fixed_width = self.fixed_section_width();
        let inter_gap: usize = if fixed > 0 { 2 } else { 0 };
        width.saturating_sub(fixed_width.saturating_add(inter_gap))
    }

    /// The horizontal offset in cells.
    fn horizontal_offset_pixels(&self) -> (p: usize)
        ensures
            p == self.horizontal_offset_pixels_spec(),
    {
        let fixed = self.fixed_column_count();
        let scrollable = self.scrollable_column_count();
        let m = scrollable.saturating_sub(1);
        let offset = if self.horizontal_offset < m { self.horizontal_offset } else { m };
        let ghost ws = self.column_widths@;
        let hl = self.headers.len();
        let mut pixels: usize = 0;
        let mut idx: usize = 0;
        while idx < offset
            invariant
                ws == self.column_widths@,
                fixed == self.fixed_column_count_spec(),
                fixed + offset <= self.headers@.len(),
                hl == self.headers@.len(),
                idx <= offset,
                pixels == pixels_before(ws, fixed as int, idx as nat),
            decreases offset - idx,
        {
            let col = fixed + idx;
            let w = if col < self.column_widths.len() { self.column_widths[col] } else { 0 };
            pixels = pixels.saturating_add(w).saturating_add(2);
            idx = idx + 1;
        }
        pixels
    }

    /// Horizontal offset (in columns) that a scroll position of `pixels` cells maps to.
    fn horizontal_offset_from_pixels(&self, pixels: usize) -> (o: usize)
        ensures
            o == (if self.scrollable_column_count_spec() == 0 {
                0
            } else {
                offset_for_pixels(self.column_widths@, self.fixed_column_count_spec(), self.max_horizontal_offset(), pixels, 0, 0)
            }),
    {
        let fixed = self.fixed_column_count();
        let scrollable = self.scrollable_column_count();
        if scrollable == 0 {
            return 0;
        }
        let max_offset = scrollable - 1;
        let ghost ws = self.column_widths@;
        let hl = self.headers.len();
        let mut offset: usize = 0;
        let mut consumed: usize = 0;
        while offset < max_offset
            invariant
                ws == self.column_widths@,
                fixed == self.fixed_column_count_spec(),
                max_offset == self.max_horizontal_offset(),
                fixed + max_offset < self.headers@.len(),
                hl == self.headers@.len(),
                offset <= max_offset,
                offset_for_pixels(ws, fixed as int, max_offset as int, pixels, offset as int, consumed)
                    == offset_for_pixels(ws, fixed as int, max_offset as int, pixels, 0, 0),
            decreases max_offset - offset,
        {
            let col = fixed + offset;
            let w = if col < self.column_widths.len() { self.column_widths[col] } else { 0 };
            let step = w.saturating_add(2);
            if consumed.saturating_add(step) > pixels {
                return offset;
            }
            consumed = consumed.saturating_add(step);
            offset = offset + 1;
        }
        offset
    }

    /// Horizontal scrollbar geometry for a viewport `width` wide; `None` when nothing overflows.
    pub fn horizontal_scrollbar_state(&self, width: usize) -> (st: Option<HorizontalScrollbarState>)
        ensures
            st == self.horizontal_scrollbar_state_spec(width),
    {
        if width == 0 {
            return None;
        }
        let viewport_width = self.scrollable_viewport_width(width);
        let content_width = self.scrollable_content_width();
        if viewport_width == 0 || content_width <= viewport_width {
            return None;
        }
        let max_pixel_offset = content_width - viewport_width;
        let px = self.horizontal_offset_pixels();
        let pixel_offset = if px < max_pixel_offset { px } else { max_pixel_offset };
        Some(HorizontalScrollbarState { content_width, pixel_offset, max_pixel_offset })
    }

    /// Columns to page by for a viewport `width` wide.
    fn page_horizontal_step(&self, width: usize) -> (step: usize)
        ensures
            step == self.page_horizontal_step_spec(width),
    {
        let drawn = self.rendered_column_indices_with_offset(self.horizontal_offset).len();
        let visible = drawn.saturating_sub(self.fixed_column_count());
        let less_one = visible.saturating_sub(1);
        let floor: usize = if width > 0 { 1 } else { 0 };
        if less_one > floor { less_one } else { floor }
    }

    /// Scroll horizontally by `delta` columns; whether the offset changed.
    fn scroll_horizontal_by_columns(&mut self, delta: i32) -> (changed: bool)
        ensures
            old(self).scrollable_column_count_spec() == 0 ==> final(self).horizontal_offset == 0 && !changed,
            old(self).scrollable_column_count_spec() > 0 ==> final(self).horizontal_offset
                == old(self).scrolled_offset_spec(delta as int) && changed == (final(self).horizontal_offset
                != old(self).horizontal_offset),
            *final(self) == (DataTable { horizontal_offset: final(self).horizontal_offset, ..*old(self) }),
    {
        let scrollable = self.scrollable_column_count();
        if scrollable == 0 {
            self.horizontal_offset = 0;
            return false;
        }
        let max_offset = scrollable - 1;
        let moved = if delta < 0 {
            let back: usize = if delta == i32::MIN { 2147483648usize } else { (-delta) as usize };
            self.horizontal_offset.saturating_sub(back)
        } else {
            self.horizontal_offset.saturating_add(delta as usize)
        };
        let next = if moved < max_offset { moved } else { max_offset };
        if next == self.horizontal_offset {
            return false;
        }
        self.horizontal_offset = next;
        true
    }
}


impl DataTable {
    /// The state with vertical scrolling adjusted to the cursor row for the current viewport.
    pub open spec fn with_row_visible(self) -> DataTable {
        DataTable {
            offset: self.ensure_visible_spec(self.visible_rows_for_viewport_spec(self.content_height as int)) as usize,
            ..self
        }
    }

    /// The state with horizontal scrolling adjusted to the cursor column for the current viewport.
    pub open spec fn with_column_visible(self) -> DataTable {
        DataTable {
            horizontal_offset: self.cursor_column_offset_spec(self.content_width as usize) as usize,
            ..self
        }
    }

    /// The state after `set_selected(index)`.
    pub open spec fn after_set_selected(self, index: usize) -> DataTable {
        if self.rows@.len() == 0 {
            DataTable { selected: 0, offset: 0, ..self }
        } else {
            let s = if index < self.rows@.len() - 1 { index } else { (self.rows@.len() - 1) as usize };
            if s == self.selected {
                self
            } else {
                DataTable { selected: s, ..self }.with_row_visible()
            }
        }
    }

    /// The cursor column `set_cursor` moves to: `column` clamped to the columns.
    pub open spec fn clamped_column(self, column: usize) -> usize {
        if self.headers@.len() == 0 {
            0
        } else if column < self.headers@.len() - 1 {
            column
        } else {
            (self.headers@.len() - 1) as usize
        }
    }

    /// Scanning keeps the horizontal offset within range.
    proof fn lemma_scan_forward_bounded(&self, column: usize, width: usize, h: int, max: int)
        requires
            0 <= h <= max,
        ensures
            h <= self.scan_forward(column, width, h, max) <= max,
        decreases max - h,
    {
        if h < max && !self.column_visible_spec(column, width, h as usize) {
            self.lemma_scan_forward_bounded(column, width, h + 1, max);
        }
    }

    proof fn lemma_scan_backward_bounded(&self, column: usize, width: usize, h: int)
        requires
            0 <= h,
        ensures
            0 <= self.scan_backward(column, width, h) <= h,
        decreases h,
    {
        if h > 0 && self.column_visible_spec(column, width, (h - 1) as usize) {
            self.lemma_scan_backward_bounded(column, width, h - 1);
        }
    }

    /// The offset `ensure_cursor_column_visible` picks stays within range.
    pub proof fn lemma_cursor_offset_bounded(&self, width: usize)
        ensures
            0 <= self.cursor_column_offset_spec(width) <= self.max_horizontal_offset(),
    {
        if self.headers@.len() != 0 && self.cursor_column >= self.fixed_column_count_spec()
            && self.column_visible_spec(self.fixed_column_count_spec() as usize, width, 0) {
            let max = self.max_horizontal_offset();
            let start = if self.horizontal_offset < max { self.horizontal_offset as int } else { max };
            self.lemma_scan_forward_bounded(self.cursor_column, width, start, max);
            let f = self.scan_forward(self.cursor_column, width, start, max);
            self.lemma_scan_backward_bounded(self.cursor_column, width, f);
        }
    }

    /// The changes moving the cursor to (`row`, `column`) records: the row
    /// (`Selected`) where it moves, then the column (`CursorColumn`) where the
    /// table has columns and it moves; nothing else.
    pub open spec fn cursor_changes(self, row: usize, column: usize) -> Seq<ReactiveChange> {
        let moved = self.after_set_selected(row);
        let col = self.clamped_column(column);
        let row_changes = if moved.selected != self.selected {
            seq![ReactiveChange {
                field: ReactiveField::Selected,
                layout: false,
                previous: ReactiveValue::Count(self.selected),
                current: ReactiveValue::Count(moved.selected),
            }]
        } else {
            Seq::empty()
        };
        let column_changes = if self.headers@.len() > 0 && col != moved.cursor_column {
            seq![ReactiveChange {
                field: ReactiveField::CursorColumn,
                layout: false,
                previous: ReactiveValue::Count(moved.cursor_column),
                current: ReactiveValue::Count(col),
            }]
        } else {
            Seq::empty()
        };
        row_changes + column_changes
    }

    /// Move the cursor row to `index` (clamped), scrolling to keep it visible.
    pub fn set_selected(&mut self, index: usize, ctx: &mut ReactiveCtx)
        requires
            old(self).wf(),
        ensures
            final(self).wf(),
            *final(self) == old(self).after_set_selected(index),
            final(self).selected != old(self).selected ==> final(ctx).changes@ == old(ctx).changes@.push(
                ReactiveChange {
                    field: ReactiveField::Selected,
                    layout: false,
                    previous: ReactiveValue::Count(old(self).selected),
                    current: ReactiveValue::Count(final(self).selected),
                },
            ),
            final(self).selected == old(self).selected ==> final(ctx).changes == old(ctx).changes,
            final(ctx).node == old(ctx).node,
    {
        if self.rows.len() == 0 {
            self.selected = 0;
            self.offset = 0;
            return;
        }
        let last = self.rows.len() - 1;
        let new_selected = if index < last { index } else { last };
        if self.selected != new_selected {
            let previous = self.selected;
            self.selected = new_selected;
            let v = self.visible_rows();
            self.ensure_visible(v);
            ctx.record_change(ReactiveField::Selected, false, ReactiveValue::Count(previous), ReactiveValue::Count(new_selected));
        }
    }

    /// Move the cursor to (`row`, `column`), both clamped, scrolling to keep it visible.
    #[verifier::rlimit(40)]
    pub fn set_cursor(&mut self, row: usize, column: usize, ctx: &mut ReactiveCtx)
        requires
            old(self).wf(),
        ensures
            final(self).wf(),
            *final(self) == (DataTable {
                cursor_column: old(self).clamped_column(column),
                ..old(self).after_set_selected(row)
            }).with_column_visible(),
            final(ctx).node == old(ctx).node,
            final(ctx).changes@ == old(ctx).changes@ + old(self).cursor_changes(row, column),
    {
        self.set_selected(row, ctx);
        let ghost moved = *self;
        let ghost c1 = ctx.changes@;
        proof {
            let rc = if moved.selected != old(self).selected {
                seq![ReactiveChange {
                    field: ReactiveField::Selected,
                    layout: false,
                    previous: ReactiveValue::Count(old(self).selected),
                    current: ReactiveValue::Count(moved.selected),
                }]
            } else {
                Seq::empty()
            };
            assert(c1 =~= old(ctx).changes@ + rc);
        }
        if self.headers.len() == 0 {
            self.cursor_column = 0;
        } else {
            let last = self.headers.len() - 1;
            let new_col = if column < last { column } else { last };
            if self.cursor_column != new_col {
                let previous = self.cursor_column;
                self.cursor_column = new_col;
                ctx.record_change(ReactiveField::CursorColumn, false, ReactiveValue::Count(previous), ReactiveValue::Count(new_col));
            }
        }
        proof {
            self.lemma_cursor_offset_bounded(self.content_width as usize);
        }
        let w = self.content_width as usize;
        self.ensure_cursor_column_visible(w);
    }

    pub fn set_cursor_type(&mut self, ct: CursorType, ctx: &mut ReactiveCtx)
        requires
            old(self).wf(),
        ensures
            final(self).wf(),
            *final(self) == (DataTable { cursor_type: ct, ..*old(self) }),
            ct != old(self).cursor_type ==> final(ctx).changes@ == old(ctx).changes@.push(
                ReactiveChange {
                    field: ReactiveField::CursorType,
                    layout: false,
                    previous: ReactiveValue::Cursor(old(self).cursor_type),
                    current: ReactiveValue::Cursor(ct),
                },
            ),
            ct == old(self).cursor_type ==> final(ctx).changes == old(ctx).changes,
            final(ctx).node == old(ctx).node,
    {
        if self.cursor_type != ct {
            let previous = self.cursor_type;
            self.cursor_type = ct;
            ctx.record_change(ReactiveField::CursorType, false, ReactiveValue::Cursor(previous), ReactiveValue::Cursor(ct));
        }
    }

    pub fn set_fixed_rows(&mut self, count: usize, ctx: &mut ReactiveCtx)
        requires
            old(self).wf(),
        ensures
            final(self).wf(),
            count == old(self).fixed_rows ==> *final(self) == *old(self) && final(ctx).changes == old(ctx).changes,
            count != old(self).fixed_rows ==> *final(self) == (DataTable { fixed_rows: count, ..*old(self) }).with_row_visible()
                && final(ctx).changes@ == old(ctx).changes@.push(
                ReactiveChange {
                    field: ReactiveField::FixedRows,
                    layout: true,
                    previous: ReactiveValue::Count(old(self).fixed_rows),
                    current: ReactiveValue::Count(count),
                },
            ),
            final(ctx).node == old(ctx).node,
    {
        if self.fixed_rows != count {
            let previous = self.fixed_rows;
            self.fixed_rows = count;
            let v = self.visible_rows();
            self.ensure_visible(v);
            ctx.record_change(ReactiveField::FixedRows, true, ReactiveValue::Count(previous), ReactiveValue::Count(count));
        }
    }

    pub fn set_fixed_columns(&mut self, count: usize, ctx: &mut ReactiveCtx)
        requires
            old(self).wf(),
        ensures
            final(self).wf(),
            count == old(self).fixed_columns ==> *final(self) == *old(self) && final(ctx).changes == old(ctx).changes,
            count != old(self).fixed_columns ==> {
                let set = DataTable { fixed_columns: count, ..*old(self) };
                let clamped = DataTable {
                    horizontal_offset: if set.horizontal_offset < set.max_horizontal_offset() {
                        set.horizontal_offset
                    } else {
                        set.max_horizontal_offset() as usize
                    },
                    ..set
                };
                &&& *final(self) == clamped.with_column_visible()
                &&& final(ctx).changes@ == old(ctx).changes@.push(
                    ReactiveChange {
                        field: ReactiveField::FixedColumns,
                        layout: true,
                        previous: ReactiveValue::Count(old(self).fixed_columns),
                        current: ReactiveValue::Count(count),
                    },
                )
            },
            final(ctx).node == old(ctx).node,
    {
        if self.fixed_columns != count {
            let previous = self.fixed_columns;
            self.fixed_columns = count;
            self.clamp_horizontal_offset();
            proof {
                self.lemma_cursor_offset_bounded(self.content_width as usize);
            }
            let w = self.content_width as usize;
            self.ensure_cursor_column_visible(w);
            ctx.record_change(ReactiveField::FixedColumns, true, ReactiveValue::Count(previous), ReactiveValue::Count(count));
        }
    }

    pub fn set_show_header(&mut self, show: bool, ctx: &mut ReactiveCtx)
        requires
            old(self).wf(),
        ensures
            final(self).wf(),
            *final(self) == (DataTable { show_header: show, ..*old(self) }),
            show != old(self).show_header ==> final(ctx).changes@ == old(ctx).changes@.push(
                ReactiveChange {
                    field: ReactiveField::ShowHeader,
                    layout: true,
                    previous: ReactiveValue::Flag(old(self).show_header),
                    current: ReactiveValue::Flag(show),
                },
            ),
            show == old(self).show_header ==> final(ctx).changes == old(ctx).changes,
            final(ctx).node == old(ctx).node,
    {
        if self.show_header != show {
            self.show_header = show;
            ctx.record_change(ReactiveField::ShowHeader, true, ReactiveValue::Flag(!show), ReactiveValue::Flag(show));
        }
    }

    pub fn set_show_row_labels(&mut self, show: bool, ctx: &mut ReactiveCtx)
        requires
            old(self).wf(),
        ensures
            final(self).wf(),
            *final(self) == (DataTable { show_row_labels: show, ..*old(self) }),
            show != old(self).show_row_labels ==> final(ctx).changes@ == old(ctx).changes@.push(
                ReactiveChange {
                    field: ReactiveField::ShowRowLabels,
                    layout: false,
                    previous: ReactiveValue::Flag(old(self).show_row_labels),
                    current: ReactiveValue::Flag(show),
                },
            ),
            show == old(self).show_row_labels ==> final(ctx).changes == old(ctx).changes,
            final(ctx).node == old(ctx).node,
    {
        if self.show_row_labels != show {
            self.show_row_labels = show;
            ctx.record_change(ReactiveField::ShowRowLabels, false, ReactiveValue::Flag(!show), ReactiveValue::Flag(show));
        }
    }

    pub fn set_zebra_stripes(&mut self, enabled: bool, ctx: &mut ReactiveCtx)
        requires
            old(self).wf(),
        ensures
            final(self).wf(),
            *final(self) == (DataTable { zebra_stripes: enabled, ..*old(self) }),
            enabled != old(self).zebra_stripes ==> final(ctx).changes@ == old(ctx).changes@.push(
                ReactiveChange {
                    field: ReactiveField::ZebraStripes,
                    layout: false,
                    previous: ReactiveValue::Flag(old(self).zebra_stripes),
                    current: ReactiveValue::Flag(enabled),
                },
            ),
            enabled == old(self).zebra_stripes ==> final(ctx).changes == old(ctx).changes,
            final(ctx).node == old(ctx).node,
    {
        if self.zebra_stripes != enabled {
            self.zebra_stripes = enabled;
            ctx.record_change(ReactiveField::ZebraStripes, false, ReactiveValue::Flag(!enabled), ReactiveValue::Flag(enabled));
        }
    }

    /// The state after running the watchers of the first `n` recorded changes.
    pub open spec fn dispatched(self, changes: Seq<ReactiveChange>, n: nat) -> DataTable
        decreases n,
    {
        if n == 0 {
            self
        } else {
            let before = self.dispatched(changes, (n - 1) as nat);
            if n <= changes.len() && changes[n - 1].field == ReactiveField::ShowHeader {
                before.with_row_visible()
            } else {
                before
            }
        }
    }

    /// Run the watchers of recorded changes: a change of `show_header` alters the
    /// number of visible rows, so vertical scrolling is re-fitted to the cursor.
    pub fn reactive_dispatch(&mut self, changes: &Vec<ReactiveChange>)
        requires
            old(self).wf(),
        ensures
            final(self).wf(),
            *final(self) == old(self).dispatched(changes@, changes@.len()),
    {
        let mut i: usize = 0;
        while i < changes.len()
            invariant
                i <= changes@.len(),
                self.wf(),
                *self == old(self).dispatched(changes@, i as nat),
            decreases changes@.len() - i,
        {
            if changes[i].field == ReactiveField::ShowHeader {
                let v = self.visible_rows();
                self.ensure_visible(v);
            }
            i = i + 1;
        }
    }
}


/// Cursor and viewport movements the table responds to.
#[derive(Debug, Clone, Copy, PartialEq, Eq, Structural)]
pub enum TableMove {
    Up,
    Down,
    /// Cursor left; no horizontal scrolling without a column cursor.
    CursorLeft,
    /// Cursor right; no horizontal scrolling without a column cursor.
    CursorRight,
    /// Cursor left, or scroll left one column without a column cursor.
    ScrollLeft,
    /// Cursor right, or scroll right one column without a column cursor.
    ScrollRight,
    PageUp,
    PageDown,
    PageLeft,
    PageRight,
    /// First column (or scroll fully left).
    Home,
    /// Last column (or scroll fully right).
    End,
    /// First row.
    Top,
    /// Last row.
    Bottom,
}

/// `msgs`, each posted by `sender`.
pub open spec fn posted(sender: NodeId, msgs: Seq<Message>) -> Seq<MessageEvent> {
    msgs.map_values(|m: Message| MessageEvent { sender, message: m })
}

/// The movement a key press asks for.
pub open spec fn key_move(key: KeyEvent) -> Option<TableMove> {
    match key.code {
        KeyCode::Up => Some(TableMove::Up),
        KeyCode::Down => Some(TableMove::Down),
        KeyCode::Left => Some(TableMove::CursorLeft),
        KeyCode::Right => Some(TableMove::CursorRight),
        KeyCode::PageUp => Some(TableMove::PageUp),
        KeyCode::PageDown => Some(TableMove::PageDown),
        KeyCode::Home => if key.modifiers.control { Some(TableMove::Top) } else { Some(TableMove::Home) },
        KeyCode::End => if key.modifiers.control { Some(TableMove::Bottom) } else { Some(TableMove::End) },
        _ => None,
    }
}

/// The movement an action asks for.
pub open spec fn action_move(action: Action) -> Option<TableMove> {
    match action {
        Action::ScrollUp => Some(TableMove::Up),
        Action::ScrollDown => Some(TableMove::Down),
        Action::ScrollLeft => Some(TableMove::ScrollLeft),
        Action::ScrollRight => Some(TableMove::ScrollRight),
        Action::ScrollHome => Some(TableMove::Home),
        Action::ScrollEnd => Some(TableMove::End),
        Action::ScrollPageUp => Some(TableMove::PageUp),
        Action::ScrollPageDown => Some(TableMove::PageDown),
        Action::ScrollPageLeft => Some(TableMove::PageLeft),
        Action::ScrollPageRight => Some(TableMove::PageRight),
        _ => None,
    }
}

/// Whether a key press activates the cursor cell (Enter or Space).
pub open spec fn is_activation_key(key: KeyEvent) -> bool {
    key.code == KeyCode::Enter || key.code == KeyCode::Char(' ')
}

impl DataTable {
    /// The cursor moves between rows.
    pub open spec fn row_cursor(self) -> bool {
        self.cursor_type == CursorType::Cell || self.cursor_type == CursorType::Row
    }

    /// The cursor moves between columns.
    pub open spec fn col_cursor(self) -> bool {
        self.cursor_type == CursorType::Cell || self.cursor_type == CursorType::Column
    }

    /// Scroll horizontally by `delta` columns: the new state and whether the offset changed.
    pub open spec fn scroll_cols(self, delta: int) -> (DataTable, bool) {
        if self.scrollable_column_count_spec() == 0 {
            (DataTable { horizontal_offset: 0, ..self }, false)
        } else {
            let nh = self.scrolled_offset_spec(delta);
            (DataTable { horizontal_offset: nh as usize, ..self }, nh != self.horizontal_offset)
        }
    }

    /// Page step for row paging: the visible rows, at least 1.
    pub open spec fn row_page(self) -> int {
        let v = self.visible_rows_for_viewport_spec(self.content_height as int);
        if v > 1 { v } else { 1 }
    }

    /// Cursor one column left (column cursor assumed).
    pub open spec fn cursor_left_effect(self) -> (DataTable, bool, bool, bool, bool) {
        if self.cursor_column > 0 {
            (DataTable { cursor_column: (self.cursor_column - 1) as usize, ..self }, false, true, true, false)
        } else {
            (self, false, false, true, false)
        }
    }

    /// Cursor one column right (column cursor assumed).
    pub open spec fn cursor_right_effect(self) -> (DataTable, bool, bool, bool, bool) {
        if self.cursor_column + 1 < self.headers@.len() {
            (DataTable { cursor_column: (self.cursor_column + 1) as usize, ..self }, false, true, true, false)
        } else {
            (self, false, false, true, false)
        }
    }

    /// A movement's result: `(table, row changed, column changed, handled, repaint requested)`.
    pub open spec fn apply_move(self, m: TableMove) -> (DataTable, bool, bool, bool, bool) {
        let n = self.rows@.len() as int;
        let c = self.headers@.len() as int;
        let unchanged = (self, false, false, false, false);
        let noop = (self, false, false, true, false);
        match m {
            TableMove::Up => if !self.row_cursor() {
                unchanged
            } else if self.selected > 0 {
                (DataTable { selected: (self.selected - 1) as usize, ..self }, true, false, true, false)
            } else {
                noop
            },
            TableMove::Down => if !self.row_cursor() {
                unchanged
            } else if self.selected + 1 < n {
                (DataTable { selected: (self.selected + 1) as usize, ..self }, true, false, true, false)
            } else {
                noop
            },
            TableMove::CursorLeft => if !self.col_cursor() {
                unchanged
            } else {
                self.cursor_left_effect()
            },
            TableMove::CursorRight => if !self.col_cursor() {
                unchanged
            } else {
                self.cursor_right_effect()
            },
            TableMove::ScrollLeft => if self.col_cursor() {
                self.cursor_left_effect()
            } else {
                let (t, changed) = self.scroll_cols(-1);
                (t, false, false, changed, changed)
            },
            TableMove::ScrollRight => if self.col_cursor() {
                self.cursor_right_effect()
            } else {
                let (t, changed) = self.scroll_cols(1);
                (t, false, false, changed, changed)
            },
            TableMove::PageUp => if !self.row_cursor() {
                unchanged
            } else if self.selected > 0 {
                let step = if self.row_page() < self.selected { self.row_page() } else { self.selected as int };
                (DataTable { selected: (self.selected - step) as usize, ..self }, true, false, true, false)
            } else {
                noop
            },
            TableMove::PageDown => if !self.row_cursor() {
                unchanged
            } else if self.selected + 1 < n {
                let room = n - 1 - self.selected;
                let step = if self.row_page() < room { self.row_page() } else { room };
                (DataTable { selected: (self.selected + step) as usize, ..self }, true, false, true, false)
            } else {
                noop
            },
            TableMove::PageLeft => if self.col_cursor() {
                if self.cursor_column > 0 {
                    let step = if 5 < self.cursor_column { 5 } else { self.cursor_column as int };
                    (DataTable { cursor_column: (self.cursor_column - step) as usize, ..self }, false, true, true, false)
                } else {
                    noop
                }
            } else {
                let step = self.page_horizontal_step_spec(self.content_width as usize) as int;
                let (t, changed) = self.scroll_cols(-step);
                (t, false, false, changed, changed)
            },
            TableMove::PageRight => if self.col_cursor() {
                if self.cursor_column + 1 < c {
                    let room = c - 1 - self.cursor_column;
                    let step = if 5 < room { 5 } else { room };
                    (DataTable { cursor_column: (self.cursor_column + step) as usize, ..self }, false, true, true, false)
                } else {
                    noop
                }
            } else {
                let step = self.page_horizontal_step_spec(self.content_width as usize) as int;
                let (t, changed) = self.scroll_cols(step);
                (t, false, false, changed, changed)
            },
            TableMove::Home => if self.col_cursor() && self.cursor_column != 0 {
                (DataTable { cursor_column: 0, ..self }, false, true, true, false)
            } else if self.horizontal_offset != 0 {
                (DataTable { horizontal_offset: 0, ..self }, false, false, true, true)
            } else {
                noop
            },
            TableMove::End => if self.col_cursor() && c > 0 {
                if self.cursor_column != c - 1 {
                    (DataTable { cursor_column: (c - 1) as usize, ..self }, false, true, true, false)
                } else {
                    noop
                }
            } else {
                let max = if self.scrollable_column_count_spec() > 0 { self.scrollable_column_count_spec() - 1 } else { 0 };
                if self.horizontal_offset != max {
                    (DataTable { horizontal_offset: max as usize, ..self }, false, false, true, true)
                } else {
                    noop
                }
            },
            TableMove::Top => if self.row_cursor() && self.selected != 0 {
                (DataTable { selected: 0, ..self }, true, false, true, false)
            } else {
                noop
            },
            TableMove::Bottom => if self.row_cursor() && n > 0 && self.selected != n - 1 {
                (DataTable { selected: (n - 1) as usize, ..self }, true, false, true, false)
            } else {
                noop
            },
        }
    }

    /// Re-fit scrolling after the cursor row and/or column changed.
    pub open spec fn settle(self, sel: bool, cur: bool) -> DataTable {
        let a = if sel { self.with_row_visible() } else { self };
        if cur { a.with_column_visible() } else { a }
    }

    /// The cursor-moved notification, when the cursor moved and the table has cells.
    pub open spec fn moved_messages(self, moved: bool) -> Seq<Message> {
        if moved && self.rows@.len() > 0 && self.headers@.len() > 0 {
            seq![Message::DataTableCursorMoved { row: self.selected, column: self.cursor_column }]
        } else {
            Seq::empty()
        }
    }

    /// A movement's full effect: `(table, messages, handled, repaint)`.
    pub open spec fn move_effect(self, m: TableMove) -> (DataTable, Seq<Message>, bool, bool) {
        let (t, sel, cur, handled, repaint) = self.apply_move(m);
        let s = t.settle(sel, cur);
        (s, s.moved_messages(sel || cur), handled, repaint)
    }

    /// Activating the cursor cell: reported when the table has cells.
    pub open spec fn activate_effect(self) -> (DataTable, Seq<Message>, bool, bool) {
        if self.rows@.len() > 0 && self.headers@.len() > 0 {
            (
                self,
                seq![Message::DataTableCellActivated { row: self.selected, column: self.cursor_column }],
                true,
                false,
            )
        } else {
            (self, Seq::empty(), false, false)
        }
    }

    /// The column a click at content cell `x` lands on.
    pub open spec fn clicked_column(self, x: usize) -> usize {
        column_at_scan(
            self.column_widths@,
            self.rendered_columns_spec(self.horizontal_offset),
            x.saturating_sub(CELL_PADDING),
            0,
        )
    }

    /// The cursor placement a press at (`x`, `y`) makes: `(table, row changed, column changed)`.
    pub open spec fn click_placement(self, x: usize, y: usize) -> (DataTable, bool, bool) {
        let col = self.clicked_column(x);
        let cur = self.col_cursor() && self.cursor_column != col;
        let a = if cur { DataTable { cursor_column: col, ..self } } else { self };
        let header_rows = if self.show_header { 1int } else { 0int };
        let v = self.visible_rows_for_viewport_spec(self.content_height as int);
        if y >= header_rows {
            match a.row_index_from_y_spec(y as int, v) {
                Some(r) => if a.selected != r { (DataTable { selected: r, ..a }, true, cur) } else { (a, false, cur) },
                None => (a, false, cur),
            }
        } else {
            (a, false, cur)
        }
    }

    /// A mouse press at (`x`, `y`) on the table: `(table, messages, handled, repaint)`.
    pub open spec fn mouse_down_effect(self, x: usize, y: usize) -> (DataTable, Seq<Message>, bool, bool) {
        let (b, sel, cur) = self.click_placement(x, y);
        let header_rows = if self.show_header { 1int } else { 0int };
        let header_click = y < header_rows && self.show_header;
        let s = b.settle(sel, cur);
        let msgs = if header_click {
            seq![Message::DataTableHeaderSelected { column: self.clicked_column(x) }]
        } else if sel || cur {
            seq![Message::DataTableCursorMoved { row: s.selected, column: s.cursor_column }]
        } else {
            Seq::empty()
        };
        (s, msgs, true, false)
    }

    /// What an event does to the table: `None` when it is ignored.
    pub open spec fn event_effect(self, event: Event, node: NodeId, focused: bool) -> Option<
        (DataTable, Seq<Message>, bool, bool),
    > {
        match event {
            Event::MouseDown(m) => if m.target == node {
                Some(self.mouse_down_effect(m.x as usize, m.y as usize))
            } else {
                None
            },
            Event::Action(a) => if focused && action_move(a) is Some {
                Some(self.move_effect(action_move(a).unwrap()))
            } else {
                None
            },
            Event::Key(k) => if !focused {
                None
            } else if key_move(k) is Some {
                Some(self.move_effect(key_move(k).unwrap()))
            } else if is_activation_key(k) {
                Some(self.activate_effect())
            } else {
                None
            },
            _ => None,
        }
    }
}


/// The movement a named command asks for (`cursor_up`, `scroll_home`, ...).
pub open spec fn command_move(name: Seq<char>) -> Option<TableMove> {
    if name == "cursor_up"@ {
        Some(TableMove::Up)
    } else if name == "cursor_down"@ {
        Some(TableMove::Down)
    } else if name == "cursor_left"@ {
        Some(TableMove::CursorLeft)
    } else if name == "cursor_right"@ {
        Some(TableMove::CursorRight)
    } else if name == "scroll_up"@ {
        Some(TableMove::PageUp)
    } else if name == "scroll_down"@ {
        Some(TableMove::PageDown)
    } else if name == "scroll_home"@ {
        Some(TableMove::Home)
    } else if name == "scroll_end"@ {
        Some(TableMove::End)
    } else if name == "scroll_top"@ {
        Some(TableMove::Top)
    } else if name == "scroll_bottom"@ {
        Some(TableMove::Bottom)
    } else {
        None
    }
}

fn command_move_exec(name: &str) -> (m: Option<TableMove>)
    ensures
        m == command_move(name@),
{
    if text_eq(name, "cursor_up") {
        Some(TableMove::Up)
    } else if text_eq(name, "cursor_down") {
        Some(TableMove::Down)
    } else if text_eq(name, "cursor_left") {
        Some(TableMove::CursorLeft)
    } else if text_eq(name, "cursor_right") {
        Some(TableMove::CursorRight)
    } else if text_eq(name, "scroll_up") {
        Some(TableMove::PageUp)
    } else if text_eq(name, "scroll_down") {
        Some(TableMove::PageDown)
    } else if text_eq(name, "scroll_home") {
        Some(TableMove::Home)
    } else if text_eq(name, "scroll_end") {
        Some(TableMove::End)
    } else if text_eq(name, "scroll_top") {
        Some(TableMove::Top)
    } else if text_eq(name, "scroll_bottom") {
        Some(TableMove::Bottom)
    } else {
        None
    }
}

fn key_move_exec(key: KeyEvent) -> (m: Option<TableMove>)
    ensures
        m == key_move(key),
{
    match key.code {
        KeyCode::Up => Some(TableMove::Up),
        KeyCode::Down => Some(TableMove::Down),
        KeyCode::Left => Some(TableMove::CursorLeft),
        KeyCode::Right => Some(TableMove::CursorRight),
        KeyCode::PageUp => Some(TableMove::PageUp),
        KeyCode::PageDown => Some(TableMove::PageDown),
        KeyCode::Home => if key.modifiers.control { Some(TableMove::Top) } else { Some(TableMove::Home) },
        KeyCode::End => if key.modifiers.control { Some(TableMove::Bottom) } else { Some(TableMove::End) },
        _ => None,
    }
}

fn action_move_exec(action: Action) -> (m: Option<TableMove>)
    ensures
        m == action_move(action),
{
    match action {
        Action::ScrollUp => Some(TableMove::Up),
        Action::ScrollDown => Some(TableMove::Down),
        Action::ScrollLeft => Some(TableMove::ScrollLeft),
        Action::ScrollRight => Some(TableMove::ScrollRight),
        Action::ScrollHome => Some(TableMove::Home),
        Action::ScrollEnd => Some(TableMove::End),
        Action::ScrollPageUp => Some(TableMove::PageUp),
        Action::ScrollPageDown => Some(TableMove::PageDown),
        Action::ScrollPageLeft => Some(TableMove::PageLeft),
        Action::ScrollPageRight => Some(TableMove::PageRight),
        _ => None,
    }
}

impl DataTable {
    proof fn lemma_rendered_len(&self, offset: usize)
        ensures
            self.rendered_columns_spec(offset).len() <= self.headers@.len(),
            forall|k: int|
                0 <= k < self.rendered_columns_spec(offset).len() ==> #[trigger] self.rendered_columns_spec(offset)[k]
                    < self.headers@.len(),
    {
    }

    /// The clicked column is one of the table's columns (0 when there are none).
    proof fn lemma_column_at_scan_in_range(widths: Seq<usize>, cols: Seq<usize>, x: usize, k: nat, total: int)
        requires
            forall|i: int| 0 <= i < cols.len() ==> #[trigger] cols[i] < total,
        ensures
            cols.len() > 0 ==> column_at_scan(widths, cols, x, k) < total,
        decreases cols.len() - k,
    {
        if k < cols.len() {
            Self::lemma_column_at_scan_in_range(widths, cols, x, k + 1, total);
        }
    }

    /// Scroll horizontally by `delta` columns (see `scroll_cols`).
    fn scroll_cols_exec(&mut self, delta: i32) -> (changed: bool)
        requires
            old(self).wf(),
        ensures
            (*final(self), changed) == old(self).scroll_cols(delta as int),
            final(self).wf(),
    {
        self.scroll_horizontal_by_columns(delta)
    }

    /// Apply a row movement (see `apply_move`); returns `(row changed, column changed, handled, repaint)`.
    fn apply_row_move(&mut self, m: TableMove) -> (r: (bool, bool, bool, bool))
        requires
            old(self).wf(),
            m == TableMove::Up || m == TableMove::Down || m == TableMove::PageUp || m == TableMove::PageDown
                || m == TableMove::Top || m == TableMove::Bottom,
        ensures
            (*final(self), r.0, r.1, r.2, r.3) == old(self).apply_move(m),
            final(self).wf(),
    {
        let n = self.rows.len();
        let row_cursor = self.cursor_type == CursorType::Cell || self.cursor_type == CursorType::Row;
        let v = self.visible_rows();
        let page = if v > 1 { v } else { 1 };
        if m == TableMove::Top {
            if row_cursor && self.selected != 0 {
                self.selected = 0;
                return (true, false, true, false);
            }
            return (false, false, true, false);
        }
        if m == TableMove::Bottom {
            if row_cursor && n > 0 && self.selected != n - 1 {
                self.selected = n - 1;
                return (true, false, true, false);
            }
            return (false, false, true, false);
        }
        if !row_cursor {
            return (false, false, false, false);
        }
        if m == TableMove::Up || m == TableMove::PageUp {
            if self.selected == 0 {
                return (false, false, true, false);
            }
            let step = if m == TableMove::Up { 1 } else if page < self.selected { page } else { self.selected };
            self.selected = self.selected - step;
            return (true, false, true, false);
        }
        if self.selected + 1 >= n {
            return (false, false, true, false);
        }
        let room = n - 1 - self.selected;
        let step = if m == TableMove::Down { 1 } else if page < room { page } else { room };
        self.selected = self.selected + step;
        (true, false, true, false)
    }

    /// Apply `Home` or `End` (see `apply_move`).
    fn apply_home_end(&mut self, m: TableMove) -> (r: (bool, bool, bool, bool))
        requires
            old(self).wf(),
            m == TableMove::Home || m == TableMove::End,
        ensures
            (*final(self), r.0, r.1, r.2, r.3) == old(self).apply_move(m),
            final(self).wf(),
    {
        let c = self.headers.len();
        let col_cursor = self.cursor_type == CursorType::Cell || self.cursor_type == CursorType::Column;
        if m == TableMove::Home {
            if col_cursor && self.cursor_column != 0 {
                self.cursor_column = 0;
                return (false, true, true, false);
            } else if self.horizontal_offset != 0 {
                self.horizontal_offset = 0;
                return (false, false, true, true);
            }
            return (false, false, true, false);
        }
        if col_cursor && c > 0 {
            if self.cursor_column != c - 1 {
                self.cursor_column = c - 1;
                return (false, true, true, false);
            }
            return (false, false, true, false);
        }
        let max = self.scrollable_column_count().saturating_sub(1);
        if self.horizontal_offset != max {
            self.horizontal_offset = max;
            return (false, false, true, true);
        }
        (false, false, true, false)
    }

    /// Apply a sideways movement with a column cursor (see `apply_move`).
    fn apply_cursor_sideways(&mut self, m: TableMove) -> (r: (bool, bool, bool, bool))
        requires
            old(self).wf(),
            old(self).col_cursor(),
            m == TableMove::CursorLeft || m == TableMove::ScrollLeft || m == TableMove::PageLeft
                || m == TableMove::CursorRight || m == TableMove::ScrollRight || m == TableMove::PageRight,
        ensures
            (*final(self), r.0, r.1, r.2, r.3) == old(self).apply_move(m),
            final(self).wf(),
    {
        let c = self.headers.len();
        if m == TableMove::CursorLeft || m == TableMove::ScrollLeft || m == TableMove::PageLeft {
            if self.cursor_column == 0 {
                return (false, false, true, false);
            }
            let step = if m != TableMove::PageLeft { 1 } else if 5 < self.cursor_column { 5 } else { self.cursor_column };
            self.cursor_column = self.cursor_column - step;
            return (false, true, true, false);
        }
        if self.cursor_column + 1 >= c {
            return (false, false, true, false);
        }
        let room = c - 1 - self.cursor_column;
        let step = if m != TableMove::PageRight { 1 } else if 5 < room { 5 } else { room };
        self.cursor_column = self.cursor_column + step;
        (false, true, true, false)
    }

    /// Apply a sideways movement without a column cursor: scroll horizontally (see `apply_move`).
    fn apply_scroll_sideways(&mut self, m: TableMove) -> (r: (bool, bool, bool, bool))
        requires
            old(self).wf(),
            old(self).headers@.len() < i32::MAX,
            !old(self).col_cursor(),
            m == TableMove::CursorLeft || m == TableMove::ScrollLeft || m == TableMove::PageLeft
                || m == TableMove::CursorRight || m == TableMove::ScrollRight || m == TableMove::PageRight,
        ensures
            (*final(self), r.0, r.1, r.2, r.3) == old(self).apply_move(m),
            final(self).wf(),
    {
        if m == TableMove::CursorLeft || m == TableMove::CursorRight {
            return (false, false, false, false);
        }
        let delta: i32 = if m == TableMove::ScrollLeft {
            -1
        } else if m == TableMove::ScrollRight {
            1
        } else {
            proof {
                self.lemma_rendered_len(self.horizontal_offset);
            }
            let step = self.page_horizontal_step(self.content_width as usize) as i32;
            if m == TableMove::PageLeft { -step } else { step }
        };
        let changed = self.scroll_cols_exec(delta);
        (false, false, changed, changed)
    }

    /// Apply a column movement (see `apply_move`).
    fn apply_column_move(&mut self, m: TableMove) -> (r: (bool, bool, bool, bool))
        requires
            old(self).wf(),
            old(self).headers@.len() < i32::MAX,
            !(m == TableMove::Up || m == TableMove::Down || m == TableMove::PageUp || m == TableMove::PageDown
                || m == TableMove::Top || m == TableMove::Bottom),
        ensures
            (*final(self), r.0, r.1, r.2, r.3) == old(self).apply_move(m),
            final(self).wf(),
    {
        if m == TableMove::Home || m == TableMove::End {
            self.apply_home_end(m)
        } else if self.cursor_type == CursorType::Cell || self.cursor_type == CursorType::Column {
            self.apply_cursor_sideways(m)
        } else {
            self.apply_scroll_sideways(m)
        }
    }

    /// Apply a movement (see `apply_move`); returns `(row changed, column changed, handled, repaint)`.
    fn apply_move_exec(&mut self, m: TableMove) -> (r: (bool, bool, bool, bool))
        requires
            old(self).wf(),
            old(self).headers@.len() < i32::MAX,
        ensures
            (*final(self), r.0, r.1, r.2, r.3) == old(self).apply_move(m),
            final(self).wf(),
    {
        if m == TableMove::Up || m == TableMove::Down || m == TableMove::PageUp || m == TableMove::PageDown
            || m == TableMove::Top || m == TableMove::Bottom {
            self.apply_row_move(m)
        } else {
            self.apply_column_move(m)
        }
    }

    /// Re-fit scrolling after the cursor row and/or column changed (see `settle`).
    fn settle_exec(&mut self, sel: bool, cur: bool)
        requires
            old(self).wf(),
        ensures
            *final(self) == old(self).settle(sel, cur),
            final(self).wf(),
    {
        if sel {
            let v = self.visible_rows();
            self.ensure_visible(v);
        }
        if cur {
            proof {
                self.lemma_cursor_offset_bounded(self.content_width as usize);
            }
            let w = self.content_width as usize;
            self.ensure_cursor_column_visible(w);
        }
    }

    /// Perform a movement and report it through `ctx` (see `move_effect`).
    fn run_move(&mut self, m: TableMove, ctx: &mut EventCtx)
        requires
            old(self).wf(),
            old(self).headers@.len() < i32::MAX,
        ensures
            final(self).wf(),
            ({
                let (t, msgs, handled, repaint) = old(self).move_effect(m);
                &&& *final(self) == t
                &&& final(ctx).messages@ == old(ctx).messages@ + posted(old(ctx).node, msgs)
                &&& final(ctx).handled == (old(ctx).handled || handled)
                &&& final(ctx).repaint == (old(ctx).repaint || repaint)
            }),
            final(ctx).node == old(ctx).node,
            final(ctx).state == old(ctx).state,
            final(ctx).layout == old(ctx).layout,
            final(ctx).class_changes == old(ctx).class_changes,
    {
        let (sel, cur, handled, repaint) = self.apply_move_exec(m);
        self.settle_exec(sel, cur);
        let ghost before = ctx.messages@;
        if (sel || cur) && self.rows.len() > 0 && self.headers.len() > 0 {
            ctx.post_message(Message::DataTableCursorMoved { row: self.selected, column: self.cursor_column });
        }
        if repaint {
            ctx.request_repaint();
        }
        if handled {
            ctx.set_handled();
        }
        proof {
            let (t, msgs, h, r) = old(self).move_effect(m);
            assert(ctx.messages@ =~= before + posted(old(ctx).node, msgs));
        }
    }

    /// Report the cursor cell as activated, when the table has cells.
    fn run_activate(&mut self, ctx: &mut EventCtx)
        requires
            old(self).wf(),
        ensures
            final(self).wf(),
            ({
                let (t, msgs, handled, repaint) = old(self).activate_effect();
                &&& *final(self) == t
                &&& final(ctx).messages@ == old(ctx).messages@ + posted(old(ctx).node, msgs)
                &&& final(ctx).handled == (old(ctx).handled || handled)
                &&& final(ctx).repaint == (old(ctx).repaint || repaint)
            }),
            final(ctx).node == old(ctx).node,
            final(ctx).state == old(ctx).state,
            final(ctx).layout == old(ctx).layout,
            final(ctx).class_changes == old(ctx).class_changes,
    {
        let ghost before = ctx.messages@;
        if self.rows.len() > 0 && self.headers.len() > 0 {
            ctx.post_message(Message::DataTableCellActivated { row: self.selected, column: self.cursor_column });
            ctx.set_handled();
        }
        proof {
            let (t, msgs, h, r) = old(self).activate_effect();
            assert(ctx.messages@ =~= before + posted(old(ctx).node, msgs));
        }
    }

    /// Place the cursor for a press at (`x`, `y`) (see `click_placement`); also
    /// returns the clicked column.
    #[verifier::rlimit(40)]
    fn place_click(&mut self, x: usize, y: usize) -> (r: (bool, bool, usize))
        requires
            old(self).wf(),
        ensures
            (*final(self), r.0, r.1) == old(self).click_placement(x, y),
            r.2 == old(self).clicked_column(x),
            final(self).wf(),
    {
        let v = self.visible_rows();
        let rendered = self.rendered_column_indices();
        let clicked_col = self.column_at_x_in_rendered_columns(x, &rendered);
        proof {
            self.lemma_rendered_len(self.horizontal_offset);
            Self::lemma_column_at_scan_in_range(
                self.column_widths@,
                rendered@,
                x.saturating_sub(CELL_PADDING),
                0,
                self.headers@.len() as int,
            );
        }
        let mut cur = false;
        if (self.cursor_type == CursorType::Cell || self.cursor_type == CursorType::Column)
            && self.cursor_column != clicked_col {
            self.cursor_column = clicked_col;
            cur = true;
        }
        let header_rows: usize = if self.show_header { 1 } else { 0 };
        if y >= header_rows {
            match self.row_index_from_y(y, v) {
                Some(r) => {
                    if self.selected != r {
                        self.selected = r;
                        return (true, cur, clicked_col);
                    }
                },
                None => {},
            }
        }
        (false, cur, clicked_col)
    }

    /// A mouse press at (`x`, `y`) (see `mouse_down_effect`).
    fn run_mouse_down(&mut self, x: usize, y: usize, ctx: &mut EventCtx)
        requires
            old(self).wf(),
        ensures
            final(self).wf(),
            ({
                let (t, msgs, handled, repaint) = old(self).mouse_down_effect(x, y);
                &&& *final(self) == t
                &&& final(ctx).messages@ == old(ctx).messages@ + posted(old(ctx).node, msgs)
                &&& final(ctx).handled == (old(ctx).handled || handled)
                &&& final(ctx).repaint == (old(ctx).repaint || repaint)
            }),
            final(ctx).node == old(ctx).node,
            final(ctx).state == old(ctx).state,
            final(ctx).layout == old(ctx).layout,
            final(ctx).class_changes == old(ctx).class_changes,
    {
        let header_clicked = y < 1 && self.show_header;
        let (sel, cur, clicked_col) = self.place_click(x, y);
        self.settle_exec(sel, cur);
        let ghost before = ctx.messages@;
        if header_clicked {
            ctx.post_message(Message::DataTableHeaderSelected { column: clicked_col });
        } else if sel || cur {
            ctx.post_message(Message::DataTableCursorMoved { row: self.selected, column: self.cursor_column });
        }
        ctx.set_handled();
        proof {
            let (t, msgs, h, r) = old(self).mouse_down_effect(x, y);
            assert(ctx.messages@ =~= before + posted(old(ctx).node, msgs));
        }
    }

    /// Handle an event: mouse presses on the table (whatever the focus), and,
    /// while focused, navigation actions, navigation keys and Enter/Space.
    pub fn on_event(&mut self, event: &Event, ctx: &mut EventCtx)
        requires
            old(self).wf(),
            old(self).headers@.len() < i32::MAX,
        ensures
            final(self).wf(),
            match old(self).event_effect(*event, old(ctx).node, old(ctx).state.focused) {
                Some((t, msgs, handled, repaint)) => {
                    &&& *final(self) == t
                    &&& final(ctx).messages@ == old(ctx).messages@ + posted(old(ctx).node, msgs)
                    &&& final(ctx).handled == (old(ctx).handled || handled)
                    &&& final(ctx).repaint == (old(ctx).repaint || repaint)
                    &&& final(ctx).node == old(ctx).node
                    &&& final(ctx).state == old(ctx).state
                    &&& final(ctx).layout == old(ctx).layout
                    &&& final(ctx).class_changes == old(ctx).class_changes
                },
                None => *final(self) == *old(self) && *final(ctx) == *old(ctx),
            },
    {
        match event {
            Event::MouseDown(m) => {
                if m.target == ctx.node {
                    self.run_mouse_down(m.x as usize, m.y as usize, ctx);
                }
            },
            Event::Action(a) => {
                if ctx.state.focused {
                    match action_move_exec(*a) {
                        Some(mv) => self.run_move(mv, ctx),
                        None => {},
                    }
                }
            },
            Event::Key(k) => {
                if ctx.state.focused {
                    match key_move_exec(*k) {
                        Some(mv) => self.run_move(mv, ctx),
                        None => {
                            if k.code == KeyCode::Enter || k.code == KeyCode::Char(' ') {
                                self.run_activate(ctx);
                            }
                        },
                    }
                }
            },
            _ => {},
        }
    }

    /// Run a named command (`cursor_up`, ..., `select_cursor`); `true` when the
    /// name is one of the table's commands, which are then reported handled.
    pub fn execute_action(&mut self, action: &ParsedAction, ctx: &mut EventCtx) -> (handled: bool)
        requires
            old(self).wf(),
            old(self).headers@.len() < i32::MAX,
        ensures
            final(self).wf(),
            handled == (command_move(action.name@) is Some || action.name@ == "select_cursor"@),
            command_move(action.name@) is Some ==> ({
                let (t, msgs, h, repaint) = old(self).move_effect(command_move(action.name@).unwrap());
                &&& *final(self) == t
                &&& final(ctx).messages@ == old(ctx).messages@ + posted(old(ctx).node, msgs)
                &&& final(ctx).repaint == (old(ctx).repaint || repaint)
            }),
            command_move(action.name@) is None && action.name@ == "select_cursor"@ ==> ({
                let (t, msgs, h, repaint) = old(self).activate_effect();
                &&& *final(self) == t
                &&& final(ctx).messages@ == old(ctx).messages@ + posted(old(ctx).node, msgs)
                &&& final(ctx).repaint == old(ctx).repaint
            }),
            handled ==> final(ctx).handled,
            !handled ==> *final(self) == *old(self) && *final(ctx) == *old(ctx),
            final(ctx).node == old(ctx).node,
            final(ctx).state == old(ctx).state,
            final(ctx).layout == old(ctx).layout,
            final(ctx).class_changes == old(ctx).class_changes,
    {
        match command_move_exec(action.name.as_str()) {
            Some(m) => {
                self.run_move(m, ctx);
                ctx.set_handled();
                true
            },
            None => {
                if text_eq(action.name.as_str(), "select_cursor") {
                    self.run_activate(ctx);
                    ctx.set_handled();
                    true
                } else {
                    false
                }
            },
        }
    }
}


/// A hidden binding declaration with the given key, action and description.
pub open spec fn is_hidden_decl(b: BindingDecl, key: Seq<char>, action: Seq<char>, description: Seq<char>) -> bool {
    &&& b.key@ == key
    &&& b.action@ == action
    &&& b.description@ == description
    &&& b.tooltip is None
    &&& b.namespace is None
    &&& !b.show
    &&& !b.priority
}

/// Widest of the first `n` row labels.
pub open spec fn labels_max(labels: Seq<Option<String>>, n: nat) -> usize
    decreases n,
{
    if n == 0 {
        0
    } else {
        let m = labels_max(labels, (n - 1) as nat);
        match labels[n - 1] {
            Some(l) => if cell_width(l@) > m { cell_width(l@) } else { m },
            None => m,
        }
    }
}

impl DataTable {
    /// What the pointer at (`x`, `y`) hovers: `(row, column)`, the header row being `usize::MAX`.
    pub open spec fn hover_target(self, x: usize, y: usize) -> Option<(usize, usize)> {
        let col = self.clicked_column(x);
        if self.show_header && y == 0 {
            Some((usize::MAX, col))
        } else {
            match self.row_index_from_y_spec(y as int, self.visible_rows_for_viewport_spec(self.content_height as int)) {
                Some(r) => Some((r, col)),
                None => None,
            }
        }
    }

    /// Record the viewport size and re-fit scrolling to the cursor.
    pub fn on_layout(&mut self, width: u16, height: u16)
        requires
            old(self).wf(),
        ensures
            final(self).wf(),
            *final(self) == (DataTable { content_width: width, content_height: height, ..*old(self) }).with_row_visible().with_column_visible(),
    {
        self.content_width = width;
        self.content_height = height;
        let v = self.visible_rows_for_viewport(height as usize);
        self.ensure_visible(v);
        proof {
            self.lemma_cursor_offset_bounded(width as usize);
        }
        self.ensure_cursor_column_visible(width as usize);
    }

    /// Track the hovered cell; whether the hovered cell changed.
    pub fn on_mouse_move(&mut self, x: u16, y: u16) -> (changed: bool)
        requires
            old(self).wf(),
        ensures
            final(self).wf(),
            *final(self) == (DataTable { hover_coordinate: old(self).hover_target(x as usize, y as usize), ..*old(self) }),
            changed == (old(self).hover_target(x as usize, y as usize) != old(self).hover_coordinate),
    {
        let rendered = self.rendered_column_indices();
        let col = self.column_at_x_in_rendered_columns(x as usize, &rendered);
        let v = self.visible_rows();
        let next = if self.show_header && y == 0 {
            Some((usize::MAX, col))
        } else {
            match self.row_index_from_y(y as usize, v) {
                Some(r) => Some((r, col)),
                None => None,
            }
        };
        let changed = next != self.hover_coordinate;
        self.hover_coordinate = next;
        changed
    }

    /// The node's interaction state changed: hovering ended clears the hovered cell.
    pub fn on_node_state_changed(&mut self, old_state: NodeState, new_state: NodeState)
        ensures
            !new_state.hovered ==> *final(self) == (DataTable { hover_coordinate: None, ..*old(self) }),
            new_state.hovered ==> *final(self) == *old(self),
    {
        if !new_state.hovered {
            self.hover_coordinate = None;
        }
    }

    /// Horizontal wheel scrolling by `delta_x` columns.
    pub fn on_mouse_scroll(&mut self, delta_x: i32, delta_y: i32, ctx: &mut EventCtx)
        requires
            old(self).wf(),
        ensures
            final(self).wf(),
            delta_x == 0 ==> *final(self) == *old(self) && *final(ctx) == *old(ctx),
            delta_x != 0 ==> {
                let (t, changed) = old(self).scroll_cols(delta_x as int);
                &&& *final(self) == t
                &&& changed ==> *final(ctx) == (EventCtx { repaint: true, handled: true, ..*old(ctx) })
                &&& !changed ==> *final(ctx) == *old(ctx)
            },
    {
        if delta_x == 0 {
            return;
        }
        if self.scroll_cols_exec(delta_x) {
            ctx.request_repaint();
            ctx.set_handled();
        }
    }

    /// A scrollbar asks to scroll horizontally to `offset` cells: snap to the
    /// column boundary at or before it.
    pub fn on_message(&mut self, message: &MessageEvent, ctx: &mut EventCtx)
        requires
            old(self).wf(),
        ensures
            final(self).wf(),
            match message.message {
                Message::ScrollbarScrollTo { axis: ScrollbarAxis::Horizontal, offset } => match old(self).horizontal_scrollbar_state_spec(old(self).content_width as usize) {
                    Some(st) => {
                        let px = if offset < st.max_pixel_offset { offset } else { st.max_pixel_offset };
                        let next = offset_for_pixels(
                            old(self).column_widths@,
                            old(self).fixed_column_count_spec(),
                            old(self).max_horizontal_offset(),
                            px,
                            0,
                            0,
                        );
                        &&& *final(self) == (DataTable { horizontal_offset: next as usize, ..*old(self) })
                        &&& *final(ctx) == (EventCtx {
                            handled: true,
                            repaint: old(ctx).repaint || next != old(self).horizontal_offset,
                            ..*old(ctx)
                        })
                    },
                    None => *final(self) == *old(self) && *final(ctx) == *old(ctx),
                },
                _ => *final(self) == *old(self) && *final(ctx) == *old(ctx),
            },
    {
        match &message.message {
            Message::ScrollbarScrollTo { axis: ScrollbarAxis::Horizontal, offset } => {
                let width = self.content_width as usize;
                match self.horizontal_scrollbar_state(width) {
                    Some(st) => {
                        proof {
                            assert(self.scrollable_column_count_spec() > 0);
                        }
                        let px = if *offset < st.max_pixel_offset { *offset } else { st.max_pixel_offset };
                        let next = self.horizontal_offset_from_pixels(px);
                        proof {
                            lemma_offset_for_pixels_bounded(
                                self.column_widths@,
                                self.fixed_column_count_spec(),
                                self.max_horizontal_offset(),
                                px,
                                0,
                                0,
                            );
                        }
                        if next != self.horizontal_offset {
                            self.horizontal_offset = next;
                            ctx.request_repaint();
                        }
                        ctx.set_handled();
                    },
                    None => {},
                }
            },
            _ => {},
        }
    }

    /// Scroll position as `(x, y)` cells: the horizontal scrollbar's offset, or 0.
    pub fn scroll_offset(&self) -> (r: (usize, usize))
        ensures
            r == (match self.horizontal_scrollbar_state_spec(self.content_width as usize) {
                Some(st) => (st.pixel_offset, 0usize),
                None => (0usize, 0usize),
            }),
    {
        match self.horizontal_scrollbar_state(self.content_width as usize) {
            Some(st) => (st.pixel_offset, 0),
            None => (0, 0),
        }
    }

    /// Intrinsic height: the header line plus one line per row (at least one).
    pub fn layout_height(&self) -> (h: Option<usize>)
        requires
            self.rows@.len() < usize::MAX,
        ensures
            h == Some(((if self.show_header { 1int } else { 0int }) + (if self.rows@.len() > 1 { self.rows@.len() as int } else { 1int })) as usize),
    {
        let header_rows: usize = if self.show_header { 1 } else { 0 };
        let n = self.rows.len();
        Some(header_rows + if n > 1 { n } else { 1 })
    }

    /// Width of the row-label column: the widest label, 0 when labels are hidden or absent.
    pub fn label_col_width(&self) -> (w: usize)
        ensures
            w == (if !self.show_row_labels { 0 } else { labels_max(self.row_labels@, self.row_labels@.len()) }),
    {
        if !self.show_row_labels {
            return 0;
        }
        let mut best: usize = 0;
        let mut i: usize = 0;
        while i < self.row_labels.len()
            invariant
                i <= self.row_labels@.len(),
                best == labels_max(self.row_labels@, i as nat),
            decreases self.row_labels@.len() - i,
        {
            match &self.row_labels[i] {
                Some(l) => {
                    let w = cell_len(l.as_str());
                    if w > best {
                        best = w;
                    }
                },
                None => {},
            }
            i = i + 1;
        }
        best
    }

    /// The table takes keyboard focus.
    pub fn focusable(&self) -> (b: bool)
        ensures
            b,
    {
        true
    }

    /// The table reacts to the mouse.
    pub fn mouse_interactive(&self) -> (b: bool)
        ensures
            b,
    {
        true
    }

    /// Namespace of the table's actions.
    pub fn action_namespace(&self) -> (ns: &'static str)
        ensures
            ns@ == "data-table"@,
    {
        "data-table"
    }

    /// The table's key bindings; all hidden from footers.
    pub fn bindings(&self) -> (b: Vec<BindingDecl>)
        ensures
            b@.len() == 11,
            is_hidden_decl(b@[0], "up"@, "cursor_up"@, "Move cursor up"@),
            is_hidden_decl(b@[1], "down"@, "cursor_down"@, "Move cursor down"@),
            is_hidden_decl(b@[2], "left"@, "cursor_left"@, "Move cursor left"@),
            is_hidden_decl(b@[3], "right"@, "cursor_right"@, "Move cursor right"@),
            is_hidden_decl(b@[4], "pageup"@, "scroll_up"@, "Page up"@),
            is_hidden_decl(b@[5], "pagedown"@, "scroll_down"@, "Page down"@),
            is_hidden_decl(b@[6], "home"@, "scroll_home"@, "Move to start"@),
            is_hidden_decl(b@[7], "end"@, "scroll_end"@, "Move to end"@),
            is_hidden_decl(b@[8], "ctrl+home"@, "scroll_top"@, "Move to first row"@),
            is_hidden_decl(b@[9], "ctrl+end"@, "scroll_bottom"@, "Move to last row"@),
            is_hidden_decl(b@[10], "enter,space"@, "select_cursor"@, "Activate cell"@),
    {
        let mut b: Vec<BindingDecl> = Vec::new();
        b.push(BindingDecl::new("up", "cursor_up", "Move cursor up").hidden());
        b.push(BindingDecl::new("down", "cursor_down", "Move cursor down").hidden());
        b.push(BindingDecl::new("left", "cursor_left", "Move cursor left").hidden());
        b.push(BindingDecl::new("right", "cursor_right", "Move cursor right").hidden());
        b.push(BindingDecl::new("pageup", "scroll_up", "Page up").hidden());
        b.push(BindingDecl::new("pagedown", "scroll_down", "Page down").hidden());
        b.push(BindingDecl::new("home", "scroll_home", "Move to start").hidden());
        b.push(BindingDecl::new("end", "scroll_end", "Move to end").hidden());
        b.push(BindingDecl::new("ctrl+home", "scroll_top", "Move to first row").hidden());
        b.push(BindingDecl::new("ctrl+end", "scroll_bottom", "Move to last row").hidden());
        b.push(BindingDecl::new("enter,space", "select_cursor", "Activate cell").hidden());
        b
    }
}

/// The snapped offset never passes `max`.
proof fn lemma_offset_for_pixels_bounded(
    widths: Seq<usize>,
    fixed: int,
    max: int,
    pixels: usize,
    offset: int,
    consumed: usize,
)
    requires
        0 <= offset,
    ensures
        offset <= offset_for_pixels(widths, fixed, max, pixels, offset, consumed),
        offset <= max ==> offset_for_pixels(widths, fixed, max, pixels, offset, consumed) <= max,
    decreases max - offset,
{
    if offset < max {
        let step = width_of(widths, (fixed + offset) as usize).saturating_add(2);
        if consumed.saturating_add(step) <= pixels {
            lemma_offset_for_pixels_bounded(widths, fixed, max, pixels, offset + 1, consumed.saturating_add(step));
        }
    }
}


/// Lexicographic order of texts by code point, as `str`'s `Ord` orders them
/// (UTF-8 byte order agrees with code point order).
pub open spec fn text_lt(a: Seq<char>, b: Seq<char>) -> bool
    decreases a.len(),
{
    if a.len() == 0 {
        b.len() > 0
    } else if b.len() == 0 {
        false
    } else if (a[0] as int) < (b[0] as int) {
        true
    } else if a[0] == b[0] {
        text_lt(a.drop_first(), b.drop_first())
    } else {
        false
    }
}

pub proof fn lemma_text_lt_irreflexive(a: Seq<char>)
    ensures
        !text_lt(a, a),
    decreases a.len(),
{
    if a.len() > 0 {
        lemma_text_lt_irreflexive(a.drop_first());
    }
}

pub proof fn lemma_text_lt_asymmetric(a: Seq<char>, b: Seq<char>)
    ensures
        text_lt(a, b) ==> !text_lt(b, a),
    decreases a.len(),
{
    if a.len() > 0 && b.len() > 0 && a[0] == b[0] {
        lemma_text_lt_asymmetric(a.drop_first(), b.drop_first());
    }
}

pub proof fn lemma_text_lt_transitive(a: Seq<char>, b: Seq<char>, c: Seq<char>)
    ensures
        text_lt(a, b) && text_lt(b, c) ==> text_lt(a, c),
    decreases a.len(),
{
    if a.len() > 0 && b.len() > 0 && c.len() > 0 {
        lemma_text_lt_transitive(a.drop_first(), b.drop_first(), c.drop_first());
    }
}

pub proof fn lemma_text_lt_total(a: Seq<char>, b: Seq<char>)
    ensures
        a != b ==> text_lt(a, b) || text_lt(b, a),
    decreases a.len(),
{
    if a.len() > 0 && b.len() > 0 {
        lemma_text_lt_total(a.drop_first(), b.drop_first());
        if a[0] == b[0] && a.drop_first() == b.drop_first() {
            assert(a =~= seq![a[0]] + a.drop_first());
            assert(b =~= seq![b[0]] + b.drop_first());
        }
    } else if a.len() == 0 && b.len() == 0 {
        assert(a =~= b);
    }
}

/// Whether `a` sorts strictly before `b`.
pub fn text_less(a: &str, b: &str) -> (r: bool)
    ensures
        r == text_lt(a@, b@),
{
    let n = a.unicode_len();
    let m = b.unicode_len();
    let mut i: usize = 0;
    assert(a@.skip(0) =~= a@);
    assert(b@.skip(0) =~= b@);
    while i < n && i < m
        invariant
            n == a@.len(),
            m == b@.len(),
            i <= n,
            i <= m,
            text_lt(a@, b@) == text_lt(a@.skip(i as int), b@.skip(i as int)),
        decreases n - i,
    {
        let x = a.get_char(i);
        let y = b.get_char(i);
        assert(a@.skip(i as int)[0] == x && b@.skip(i as int)[0] == y);
        if (x as u32) < (y as u32) {
            return true;
        }
        if x != y {
            return false;
        }
        assert(a@.skip(i as int).drop_first() =~= a@.skip((i + 1) as int));
        assert(b@.skip(i as int).drop_first() =~= b@.skip((i + 1) as int));
        i = i + 1;
    }
    i >= n && i < m
}

/// The sort key of a row: its cell in `column`, or the empty text.
pub open spec fn sort_key(row: Seq<Seq<char>>, column: int) -> Seq<char> {
    if 0 <= column < row.len() { row[column] } else { Seq::empty() }
}

/// Whether row `a` sorts strictly before row `b`.
pub open spec fn row_before(rows: Seq<Seq<Seq<char>>>, column: int, reverse: bool, a: int, b: int) -> bool {
    if reverse {
        text_lt(sort_key(rows[b], column), sort_key(rows[a], column))
    } else {
        text_lt(sort_key(rows[a], column), sort_key(rows[b], column))
    }
}

/// `p` orders the rows `0..n` as a stable sort does.
pub open spec fn is_stable_sort(p: Seq<int>, n: int, rows: Seq<Seq<Seq<char>>>, column: int, reverse: bool) -> bool {
    &&& p.len() == n
    &&& forall|i: int| 0 <= i < n ==> 0 <= #[trigger] p[i] < n
    &&& forall|i: int, j: int| 0 <= i < n && 0 <= j < n && i != j ==> p[i] != p[j]
    &&& forall|i: int, j: int| 0 <= i < j < n ==> !row_before(rows, column, reverse, #[trigger] p[j], #[trigger] p[i])
    &&& forall|i: int, j: int|
        0 <= i < j < n && !row_before(rows, column, reverse, p[i], p[j]) ==> #[trigger] p[i] < #[trigger] p[j]
}

/// Facts about `row_before` the sort relies on.
proof fn lemma_row_before_order(rows: Seq<Seq<Seq<char>>>, column: int, reverse: bool, a: int, b: int, c: int)
    ensures
        row_before(rows, column, reverse, a, b) ==> !row_before(rows, column, reverse, b, a),
        !row_before(rows, column, reverse, a, b) && !row_before(rows, column, reverse, b, c)
            ==> !row_before(rows, column, reverse, a, c),
{
    let ka = sort_key(rows[a], column);
    let kb = sort_key(rows[b], column);
    let kc = sort_key(rows[c], column);
    lemma_text_lt_asymmetric(ka, kb);
    lemma_text_lt_asymmetric(kb, ka);
    lemma_text_lt_total(ka, kb);
    lemma_text_lt_total(kb, kc);
    lemma_text_lt_total(ka, kc);
    lemma_text_lt_transitive(kc, kb, ka);
    lemma_text_lt_transitive(ka, kb, kc);
    lemma_text_lt_transitive(kb, ka, kc);
    lemma_text_lt_transitive(kb, kc, ka);
    lemma_text_lt_transitive(kc, ka, kb);
    lemma_text_lt_transitive(ka, kc, kb);
    lemma_text_lt_irreflexive(ka);
    lemma_text_lt_irreflexive(kb);
}


/// `idx` as a sequence of integers.
pub open spec fn as_ints(idx: Seq<usize>) -> Seq<int> {
    idx.map_values(|i: usize| i as int)
}

impl DataTable {
    /// Whether row `a` sorts strictly before row `b` (see `row_before`).
    fn row_before_exec(&self, column: usize, reverse: bool, a: usize, b: usize) -> (r: bool)
        requires
            a < self.rows@.len(),
            b < self.rows@.len(),
        ensures
            r == row_before(self.rows_view(), column as int, reverse, a as int, b as int),
    {
        let ka: &str = if column < self.rows[a].len() { self.rows[a][column].as_str() } else { "" };
        let kb: &str = if column < self.rows[b].len() { self.rows[b][column].as_str() } else { "" };
        proof {
            reveal_strlit("");
            assert(ka@ == sort_key(self.rows_view()[a as int], column as int));
            assert(kb@ == sort_key(self.rows_view()[b as int], column as int));
        }
        if reverse {
            text_less(kb, ka)
        } else {
            text_less(ka, kb)
        }
    }

    /// The stable sort order of the rows by `column`.
    fn sorted_order(&self, column: usize, reverse: bool) -> (idx: Vec<usize>)
        ensures
            is_stable_sort(as_ints(idx@), self.rows@.len() as int, self.rows_view(), column as int, reverse),
    {
        let ghost rv = self.rows_view();
        let n = self.rows.len();
        let mut idx: Vec<usize> = Vec::new();
        let mut i: usize = 0;
        while i < n
            invariant
                n == self.rows@.len(),
                rv == self.rows_view(),
                i <= n,
                is_stable_sort(as_ints(idx@), i as int, rv, column as int, reverse),
            decreases n - i,
        {
            proof {
                assert forall|k: int| 0 <= k < idx@.len() implies (#[trigger] idx@[k]) < i by {
                    assert(as_ints(idx@)[k] == idx@[k] as int);
                }
            }
            let mut j: usize = idx.len();
            while j > 0 && self.row_before_exec(column, reverse, i, idx[j - 1])
                invariant
                    n == self.rows@.len(),
                    rv == self.rows_view(),
                    i < n,
                    idx@.len() == i,
                    j <= i,
                    forall|k: int| 0 <= k < idx@.len() ==> (#[trigger] idx@[k]) < i,
                    is_stable_sort(as_ints(idx@), i as int, rv, column as int, reverse),
                    forall|k: int| j <= k < i ==> row_before(rv, column as int, reverse, i as int, #[trigger] as_ints(idx@)[k]),
                decreases j,
            {
                j = j - 1;
            }
            let ghost old_idx = as_ints(idx@);
            idx.insert(j, i);
            proof {
                let q = as_ints(idx@);
                assert(q =~= old_idx.insert(j as int, i as int));
                let c = column as int;
                assert forall|a: int, b: int| 0 <= a < b < i + 1 implies !row_before(rv, c, reverse, #[trigger] q[b], #[trigger] q[a]) by {
                    if a < j && b > j {
                        assert(q[a] == old_idx[a] && q[b] == old_idx[b - 1]);
                    } else if a == j {
                        lemma_row_before_order(rv, c, reverse, i as int, q[b], q[b]);
                    } else if b == j {
                        if a < j - 1 {
                            lemma_row_before_order(rv, c, reverse, i as int, old_idx[j - 1], old_idx[a]);
                        }
                    } else if b < j {
                        assert(q[a] == old_idx[a] && q[b] == old_idx[b]);
                    } else {
                        assert(q[a] == old_idx[a - 1] && q[b] == old_idx[b - 1]);
                    }
                }
                assert forall|a: int, b: int|
                    0 <= a < b < i + 1 && !row_before(rv, c, reverse, q[a], q[b]) implies #[trigger] q[a] < #[trigger] q[b] by {
                    if a < j && b > j {
                        assert(q[a] == old_idx[a] && q[b] == old_idx[b - 1]);
                    } else if a == j {
                    } else if b == j {
                    } else if b < j {
                        assert(q[a] == old_idx[a] && q[b] == old_idx[b]);
                    } else {
                        assert(q[a] == old_idx[a - 1] && q[b] == old_idx[b - 1]);
                    }
                }
                assert forall|a: int, b: int| 0 <= a < i + 1 && 0 <= b < i + 1 && a != b implies q[a] != q[b] by {
                    if a != j && b != j {
                        let oa = if a < j { a } else { a - 1 };
                        let ob = if b < j { b } else { b - 1 };
                        assert(q[a] == old_idx[oa] && q[b] == old_idx[ob]);
                    } else if a == j {
                        let ob = if b < j { b } else { b - 1 };
                        assert(q[b] == old_idx[ob]);
                    } else {
                        let oa = if a < j { a } else { a - 1 };
                        assert(q[a] == old_idx[oa]);
                    }
                }
                assert forall|a: int| 0 <= a < i + 1 implies 0 <= #[trigger] q[a] < i + 1 by {
                    if a != j {
                        let oa = if a < j { a } else { a - 1 };
                        assert(q[a] == old_idx[oa]);
                    }
                }
            }
            i = i + 1;
        }
        idx
    }

    /// Sort the rows by the text of `column` (missing cells sort as empty),
    /// descending when `reverse`; rows with equal keys keep their order. Keys,
    /// labels and justifications move with their rows. Nothing happens when the
    /// column does not exist or there are no rows.
    pub fn sort(&mut self, column: usize, reverse: bool)
        requires
            old(self).wf(),
        ensures
            final(self).wf(),
            column >= old(self).headers@.len() || old(self).rows@.len() == 0 ==> *final(self) == *old(self),
            column < old(self).headers@.len() && old(self).rows@.len() > 0 ==> exists|p: Seq<int>|
                #[trigger] is_stable_sort(p, old(self).rows@.len() as int, old(self).rows_view(), column as int, reverse)
                    && final(self).rows_view() == Seq::new(p.len(), |k: int| old(self).rows_view()[p[k]])
                    && row_key_texts(final(self).row_keys@) == Seq::new(p.len(), |k: int| row_key_texts(old(self).row_keys@)[p[k]])
                    && final(self).row_labels@ == Seq::new(p.len(), |k: int| old(self).row_labels@[p[k]])
                    && final(self).cell_justify@.len() == p.len()
                    && (forall|k: int| 0 <= k < p.len() ==> (#[trigger] final(self).cell_justify@[k])@ == old(self).cell_justify@[p[k]]@),
            final(self).headers == old(self).headers,
            final(self).column_keys == old(self).column_keys,
            final(self).selected == old(self).selected,
            final(self).offset == old(self).offset,
            final(self).cursor_column == old(self).cursor_column,
            final(self).horizontal_offset == old(self).horizontal_offset,
            final(self).cursor_type == old(self).cursor_type,
            final(self).fixed_rows == old(self).fixed_rows,
            final(self).fixed_columns == old(self).fixed_columns,
            final(self).hover_coordinate == old(self).hover_coordinate,
    {
        if column >= self.headers.len() || self.rows.len() == 0 {
            return;
        }
        let order = self.sorted_order(column, reverse);
        let ghost p = as_ints(order@);
        let ghost ov = self.rows_view();
        let ghost ok = row_key_texts(self.row_keys@);
        let n = self.rows.len();
        proof {
            assert forall|m: int| 0 <= m < n implies (#[trigger] order@[m]) < n by {
                assert(p[m] == order@[m] as int);
            }
        }
        let mut rows: Vec<Vec<String>> = Vec::new();
        let mut keys: Vec<RowKey> = Vec::new();
        let mut labels: Vec<Option<String>> = Vec::new();
        let mut justify: Vec<Vec<CellJustify>> = Vec::new();
        let mut k: usize = 0;
        while k < n
            invariant
                old(self).wf(),
                *self == *old(self),
                n == self.rows@.len(),
                p == as_ints(order@),
                ov == self.rows_view(),
                ok == row_key_texts(self.row_keys@),
                is_stable_sort(p, n as int, ov, column as int, reverse),
                order@.len() == n,
                forall|m: int| 0 <= m < n ==> (#[trigger] order@[m]) < n,
                k <= n,
                rows@.len() == k,
                keys@.len() == k,
                labels@.len() == k,
                justify@.len() == k,
                forall|m: int| 0 <= m < k ==> row_view((#[trigger] rows@[m])@) == ov[p[m]],
                forall|m: int| 0 <= m < k ==> (#[trigger] keys@[m])@ == ok[p[m]],
                forall|m: int| 0 <= m < k ==> #[trigger] labels@[m] == self.row_labels@[p[m]],
                forall|m: int| 0 <= m < k ==> (#[trigger] justify@[m])@ == self.cell_justify@[p[m]]@,
            decreases n - k,
        {
            let src = order[k];
            assert(p[k as int] == src as int);
            rows.push(copy_row(&self.rows[src]));
            keys.push(self.row_keys[src].duplicate());
            labels.push(crate::text::opt_text_copy(&self.row_labels[src]));
            justify.push(copy_justify(&self.cell_justify[src]));
            k = k + 1;
        }
        let ghost old_labels = self.row_labels@;
        let ghost old_justify = self.cell_justify@;
        let ghost old_keys = self.row_keys@;
        self.rows = rows;
        self.row_keys = keys;
        self.row_labels = labels;
        self.cell_justify = justify;
        proof {
            assert(self.rows_view() =~= Seq::new(p.len(), |m: int| ov[p[m]]));
            assert(row_key_texts(self.row_keys@) =~= Seq::new(p.len(), |m: int| ok[p[m]]));
            assert(self.row_labels@ =~= Seq::new(p.len(), |m: int| old_labels[p[m]]));
            let t = row_key_texts(self.row_keys@);
            assert forall|a: int, b: int| 0 <= a < t.len() && 0 <= b < t.len() && a != b implies t[a] != t[b] by {
                assert(t[a] == ok[p[a]] && t[b] == ok[p[b]]);
            }
        }
        self.clamp_indices();
        self.recompute_column_widths();
    }
}


impl DataTable {
    /// `key` is the column key generated in `a`, and `b`'s column key
    /// counter is what generating it leaves: `key` is `column-<n>`, `n` the
    /// first number from `a`'s counter whose key is free, and the counter
    /// moves past `n` (saturating).
    pub open spec fn column_key_generated(a: DataTable, b: DataTable, key: Seq<char>) -> bool {
        let n = free_number("column-"@, column_key_texts(a.column_keys@), a.next_column_key as int);
        &&& n <= usize::MAX
        &&& least_free("column-"@, column_key_texts(a.column_keys@), a.next_column_key as int, n)
        &&& key == numbered_key("column-"@, n as usize)
        &&& b.next_column_key == counter_after(n)
    }

    /// The row key generated in `a`, and `b`'s row key counter after it, as
    /// [`DataTable::column_key_generated`] states for columns.
    pub open spec fn row_key_generated(a: DataTable, b: DataTable, key: Seq<char>) -> bool {
        let n = free_number("row-"@, row_key_texts(a.row_keys@), a.next_row_key as int);
        &&& n <= usize::MAX
        &&& least_free("row-"@, row_key_texts(a.row_keys@), a.next_row_key as int, n)
        &&& key == numbered_key("row-"@, n as usize)
        &&& b.next_row_key == counter_after(n)
    }

    /// One `add_column(header)` step from `a` to `b`: the column is appended
    /// under the key generated in `a`.
    pub open spec fn column_add_step(a: DataTable, b: DataTable, header: Seq<char>) -> bool {
        let key = numbered_key("column-"@, free_number("column-"@, column_key_texts(a.column_keys@), a.next_column_key as int) as usize);
        &&& Self::column_key_generated(a, b, key)
        &&& Self::column_appended(a, b, header, key)
    }

    /// `states` runs from `a` to `b` by one [`DataTable::column_add_step`]
    /// per header of `headers`, in order.
    pub open spec fn column_chain(states: Seq<DataTable>, a: DataTable, b: DataTable, headers: Seq<Seq<char>>) -> bool {
        &&& states.len() == headers.len() + 1
        &&& states[0] == a
        &&& states.last() == b
        &&& forall|j: int| 0 <= j < headers.len() ==> #[trigger] Self::column_add_step(states[j], states[j + 1], headers[j])
    }

    /// One `add_row(row)` step from `a` to `b`: the row is appended without
    /// label under the key generated in `a`.
    pub open spec fn row_add_step(a: DataTable, b: DataTable, row: Seq<Seq<char>>) -> bool {
        let key = numbered_key("row-"@, free_number("row-"@, row_key_texts(a.row_keys@), a.next_row_key as int) as usize);
        &&& Self::row_key_generated(a, b, key)
        &&& Self::row_appended(a, b, row, None, key)
    }

    /// `states` runs from `a` to `b` by one [`DataTable::row_add_step`] per
    /// row of `rows`, in order.
    pub open spec fn row_chain(states: Seq<DataTable>, a: DataTable, b: DataTable, rows: Seq<Seq<Seq<char>>>) -> bool {
        &&& states.len() == rows.len() + 1
        &&& states[0] == a
        &&& states.last() == b
        &&& forall|j: int| 0 <= j < rows.len() ==> #[trigger] Self::row_add_step(states[j], states[j + 1], rows[j])
    }

    /// Append columns with generated keys, in order.
    pub fn add_columns(&mut self, columns: Vec<String>)
        requires
            old(self).wf(),
            keys_generable("column-"@, column_key_texts(old(self).column_keys@), old(self).next_column_key as int, columns@.len()),
        ensures
            final(self).wf(),
            final(self).headers_view() == old(self).headers_view() + columns@.map_values(|h: String| h@),
            column_key_texts(final(self).column_keys@).len() == old(self).column_keys@.len() + columns@.len(),
            column_key_texts(final(self).column_keys@).subrange(0, old(self).column_keys@.len() as int)
                == column_key_texts(old(self).column_keys@),
            final(self).rows == old(self).rows,
            final(self).row_keys == old(self).row_keys,
            final(self).selected == old(self).selected,
            final(self).cursor_column == old(self).cursor_column,
            exists|states: Seq<DataTable>| #[trigger] Self::column_chain(
                states,
                *old(self),
                *final(self),
                texts(columns@),
            ),
    {
        let ghost hs = texts(columns@);
        let ghost mut states: Seq<DataTable> = seq![*old(self)];
        let ghost l0 = self.column_keys@.len() as int;
        let ghost k = columns@.len() as int;
        let mut i: usize = 0;
        while i < columns.len()
            invariant
                i <= columns@.len(),
                k == columns@.len(),
                l0 == old(self).column_keys@.len(),
                self.wf(),
                self.column_keys@.len() == l0 + i,
                keys_generable("column-"@, column_key_texts(self.column_keys@), self.next_column_key as int, (k - i) as nat),
                self.headers_view() == old(self).headers_view() + columns@.subrange(0, i as int).map_values(|h: String| h@),
                column_key_texts(self.column_keys@).subrange(0, l0) == column_key_texts(old(self).column_keys@),
                self.rows == old(self).rows,
                self.row_keys == old(self).row_keys,
                self.selected == old(self).selected,
                self.cursor_column == old(self).cursor_column,
                hs == texts(columns@),
                Self::column_chain(states, *old(self), *self, hs.take(i as int)),
            decreases columns@.len() - i,
        {
            let ghost before = column_key_texts(self.column_keys@);
            let ghost prev = *self;
            let h = columns[i].clone();
            assert(h@ == hs[i as int]);
            let _ = self.add_column(h);
            proof {
                let old_states = states;
                states = states.push(*self);
                assert(hs.take(i as int + 1) =~= hs.take(i as int).push(hs[i as int]));
                assert forall|j: int| 0 <= j < i + 1 implies #[trigger] Self::column_add_step(
                    states[j],
                    states[j + 1],
                    hs.take(i as int + 1)[j],
                ) by {
                    if j < i {
                        assert(states[j] == old_states[j] && states[j + 1] == old_states[j + 1]);
                        assert(hs.take(i as int + 1)[j] == hs.take(i as int)[j]);
                    } else {
                        assert(states[j] == prev);
                    }
                }
                assert(columns@.subrange(0, (i + 1) as int).map_values(|h: String| h@) =~= columns@.subrange(
                    0,
                    i as int,
                ).map_values(|h: String| h@).push(columns@[i as int]@));
                assert(column_key_texts(self.column_keys@).subrange(0, l0) =~= before.subrange(0, l0));
            }
            i = i + 1;
        }
        assert(columns@.subrange(0, i as int) =~= columns@);
        assert(hs.take(i as int) =~= hs);
        assert(Self::column_chain(states, *old(self), *self, hs));
    }

    /// Append rows with generated keys, in order.
    pub fn add_rows(&mut self, rows: Vec<Vec<String>>)
        requires
            old(self).wf(),
            keys_generable("row-"@, row_key_texts(old(self).row_keys@), old(self).next_row_key as int, rows@.len()),
        ensures
            final(self).wf(),
            final(self).rows_view() == old(self).rows_view() + rows@.map_values(|r: Vec<String>| row_view(r@)),
            final(self).row_keys@.len() == old(self).row_keys@.len() + rows@.len(),
            final(self).headers == old(self).headers,
            final(self).column_keys == old(self).column_keys,
            final(self).selected == old(self).selected,
            final(self).cursor_column == old(self).cursor_column,
            exists|states: Seq<DataTable>| #[trigger] Self::row_chain(
                states,
                *old(self),
                *final(self),
                rows_text(rows@),
            ),
    {
        let ghost rs = rows_text(rows@);
        let ghost mut states: Seq<DataTable> = seq![*old(self)];
        let ghost l0 = self.row_keys@.len() as int;
        let ghost k = rows@.len() as int;
        let mut i: usize = 0;
        while i < rows.len()
            invariant
                i <= rows@.len(),
                k == rows@.len(),
                l0 == old(self).row_keys@.len(),
                self.wf(),
                self.row_keys@.len() == l0 + i,
                keys_generable("row-"@, row_key_texts(self.row_keys@), self.next_row_key as int, (k - i) as nat),
                self.rows_view() == old(self).rows_view() + rows@.subrange(0, i as int).map_values(
                    |r: Vec<String>| row_view(r@),
                ),
                self.headers == old(self).headers,
                self.column_keys == old(self).column_keys,
                self.selected == old(self).selected,
                self.cursor_column == old(self).cursor_column,
                rs == rows_text(rows@),
                Self::row_chain(states, *old(self), *self, rs.take(i as int)),
            decreases rows@.len() - i,
        {
            let ghost before = self.row_keys@;
            let ghost prev = *self;
            let copied = copy_row(&rows[i]);
            assert(row_view(copied@) == rs[i as int]);
            let _ = self.add_row(copied);
            proof {
                let old_states = states;
                states = states.push(*self);
                assert(rs.take(i as int + 1) =~= rs.take(i as int).push(rs[i as int]));
                assert forall|j: int| 0 <= j < i + 1 implies #[trigger] Self::row_add_step(
                    states[j],
                    states[j + 1],
                    rs.take(i as int + 1)[j],
                ) by {
                    if j < i {
                        assert(states[j] == old_states[j] && states[j + 1] == old_states[j + 1]);
                        assert(rs.take(i as int + 1)[j] == rs.take(i as int)[j]);
                    } else {
                        assert(states[j] == prev);
                    }
                }
                assert(rows@.subrange(0, (i + 1) as int).map_values(|r: Vec<String>| row_view(r@)) =~= rows@.subrange(
                    0,
                    i as int,
                ).map_values(|r: Vec<String>| row_view(r@)).push(row_view(rows@[i as int]@)));
                assert(row_key_texts(self.row_keys@).len() == row_key_texts(before).len() + 1);
            }
            i = i + 1;
        }
        assert(rows@.subrange(0, i as int) =~= rows@);
        assert(rs.take(i as int) =~= rs);
        assert(Self::row_chain(states, *old(self), *self, rs));
    }

    /// Apply one justification to every data cell currently in the table.
    pub fn set_all_data_cells_justify(&mut self, justify: CellJustify)
        requires
            old(self).wf(),
        ensures
            final(self).wf(),
            final(self).cell_justify@.len() == old(self).cell_justify@.len(),
            forall|r: int|
                0 <= r < final(self).cell_justify@.len() ==> (#[trigger] final(self).cell_justify@[r])@
                    == justify_fill(old(self).cell_justify@[r]@, old(self).justify_columns(r as usize), justify),
            *final(self) == (DataTable { cell_justify: final(self).cell_justify, ..*old(self) }),
    {
        let n = self.rows.len();
        let mut row: usize = 0;
        while row < n
            invariant
                n == old(self).rows@.len(),
                row <= n,
                self.wf(),
                *self == (DataTable { cell_justify: self.cell_justify, ..*old(self) }),
                self.cell_justify@.len() == old(self).cell_justify@.len(),
                forall|r: int|
                    0 <= r < self.cell_justify@.len() ==> (#[trigger] self.cell_justify@[r])@ == if r < row {
                        justify_fill(old(self).cell_justify@[r]@, old(self).justify_columns(r as usize), justify)
                    } else {
                        old(self).cell_justify@[r]@
                    },
            decreases n - row,
        {
            self.set_row_justify(row, justify);
            row = row + 1;
        }
    }
}

impl Default for DataTable {
    fn default() -> (t: DataTable)
        ensures
            t.wf(),
            t.has_initial_settings(),
            t.headers@.len() == 0,
            t.rows@.len() == 0,
    {
        DataTable::empty()
    }
}

/// `text` laid out in `width` cells: fitted (padded or truncated) when it is
/// at least as wide as the column or left-justified; otherwise padded on the
/// left (right-justified) or on both sides, the extra space going right (centred).
pub open spec fn justified(j: CellJustify, text: Seq<char>, width: usize) -> Seq<char> {
    if cell_width(text) >= width || j == CellJustify::Left {
        fit_cells(text, width)
    } else {
        let pad = (width - cell_width(text)) as nat;
        if j == CellJustify::Right {
            crate::text::spaces(pad) + text
        } else {
            crate::text::spaces(pad / 2) + text + crate::text::spaces((pad - pad / 2) as nat)
        }
    }
}

impl CellJustify {
    /// Lay `text` out in `width` cells: fit it (pad or truncate) when it is at
    /// least as wide as the column or left-justified; otherwise pad on the
    /// left (right-justified) or on both sides, the extra space going right (centred).
    pub fn render(self, text: &str, width: usize) -> (out: String)
        ensures
            out@ == justified(self, text@, width),
    {
        let len = cell_len(text);
        if len >= width {
            return set_cell_size(text, width);
        }
        let pad = width - len;
        match self {
            CellJustify::Left => set_cell_size(text, width),
            CellJustify::Right => {
                let spaces = crate::text::space_string(pad);
                concat(spaces.as_str(), text)
            },
            CellJustify::Center => {
                let left = pad / 2;
                let right = pad - left;
                let ls = crate::text::space_string(left);
                let rs = crate::text::space_string(right);
                let lt = concat(ls.as_str(), text);
                concat(lt.as_str(), rs.as_str())
            },
        }
    }
}

// ── Laws ────────────────────────────────────────────────────────────────

/// A row appended under `key` is found under that key, last, with the cells it was given.
pub proof fn law_appended_row_is_found(old: DataTable, new: DataTable, row: Seq<Seq<char>>, label: Option<Seq<char>>, key: Seq<char>)
    requires
        old.wf(),
        DataTable::row_appended(old, new, row, label, key),
    ensures
        row_key_texts(new.row_keys@)[old.rows@.len() as int] == key,
        forall|j: int| 0 <= j < new.rows@.len() && j != old.rows@.len() ==> row_key_texts(new.row_keys@)[j] != key,
        new.rows_view()[old.rows@.len() as int] == row,
        new.rows_view().subrange(0, old.rows@.len() as int) == old.rows_view(),
{
    let n = old.rows@.len() as int;
    assert(old.rows_view().len() == n);
    assert(row_key_texts(new.row_keys@)[n] == key);
    assert(new.rows_view().subrange(0, n) =~= old.rows_view());
}

proof fn lemma_least_free_unique(prefix: Seq<char>, texts: Seq<Seq<char>>, from: int, n: int, m: int)
    requires
        least_free(prefix, texts, from, n),
        least_free(prefix, texts, from, m),
    ensures
        n == m,
{
    if n < m {
        assert(texts.contains(numbered_key(prefix, n as usize)));
    } else if m < n {
        assert(texts.contains(numbered_key(prefix, m as usize)));
    }
}

/// A labelled row is added as a plain row is: from the same table, adding
/// the same cells with a label (as `add_row_labeled` does) or without (as
/// `add_row` does) gives the same key, the same rows and cells, the same
/// columns and the same key counter; only the new row's label differs, and
/// it is not one of the row's cells.
pub proof fn law_labeled_row_adds_as_plain_row(
    t: DataTable,
    plain: DataTable,
    labeled: DataTable,
    row: Seq<Seq<char>>,
    label: Seq<char>,
    key: Seq<char>,
)
    requires
        t.wf(),
        DataTable::row_add_step(t, plain, row),
        DataTable::row_key_generated(t, labeled, key),
        DataTable::row_appended(t, labeled, row, Some(label), key),
    ensures
        key == numbered_key("row-"@, free_number("row-"@, row_key_texts(t.row_keys@), t.next_row_key as int) as usize),
        labeled.next_row_key == plain.next_row_key,
        row_key_texts(labeled.row_keys@) == row_key_texts(plain.row_keys@),
        labeled.rows_view() == plain.rows_view(),
        labeled.headers_view() == plain.headers_view(),
        labeled.rows_view().last() == row,
        labeled.rows_view().last().len() == row.len(),
        labeled.row_labels@.drop_last() == plain.row_labels@.drop_last(),
        plain.row_labels@.last() is None,
        labeled.row_labels@.last() matches Some(l) && l@ == label,
{
    assert(labeled.rows_view().last() == row);
}

/// Removing the row just appended, found by its key, gives back the table's
/// rows, keys and labels, and leaves the cursor where it was.
pub proof fn law_remove_row_undoes_add_row(
    t0: DataTable,
    t1: DataTable,
    t2: DataTable,
    row: Seq<Seq<char>>,
    key: Seq<char>,
    index: int,
)
    requires
        t0.wf(),
        DataTable::row_appended(t0, t1, row, None, key),
        0 <= index < t1.rows@.len(),
        t1.row_keys@[index]@ == key,
        DataTable::row_removed(t1, t2, index),
    ensures
        t2.rows_view() == t0.rows_view(),
        row_key_texts(t2.row_keys@) == row_key_texts(t0.row_keys@),
        t2.row_labels@ == t0.row_labels@,
        t2.cell_justify@.len() == t0.cell_justify@.len(),
        t2.selected == t0.selected,
        t2.headers == t0.headers,
        t2.column_keys == t0.column_keys,
{
    let n = t0.rows@.len() as int;
    law_appended_row_is_found(t0, t1, row, None, key);
    assert(row_key_texts(t1.row_keys@)[index] == key);
    assert(index == n);
    assert(t1.rows_view().len() == n + 1);
    assert(t2.rows_view() =~= t1.rows_view().subrange(0, n)) by {
        assert forall|i: int| 0 <= i < n implies t2.rows_view()[i] == t1.rows_view()[i] by {
            assert(t2.rows@[i] == t1.rows@[i]);
        }
    }
    assert(t1.rows_view().subrange(0, n) =~= t0.rows_view());
    assert(row_key_texts(t2.row_keys@) =~= row_key_texts(t0.row_keys@)) by {
        assert forall|i: int| 0 <= i < n implies row_key_texts(t2.row_keys@)[i] == row_key_texts(t0.row_keys@)[i] by {
            assert(t2.row_keys@[i] == t1.row_keys@[i]);
            assert(row_key_texts(t1.row_keys@)[i] == row_key_texts(t0.row_keys@)[i]);
        }
    }
    assert(t2.row_labels@ =~= t0.row_labels@) by {
        assert(t1.row_labels@.remove(n) =~= t1.row_labels@.drop_last());
    }
    assert(t1.cell_justify@.remove(n).len() == n);
}

// ── Rendering ───────────────────────────────────────────────────────────

/// How a cell is painted; the theme turns each into colours.
#[derive(Debug, Clone, Copy, PartialEq, Eq, Structural)]
pub enum CellPaint {
    /// Under the cursor (only while the table has focus).
    Cursor,
    /// Under the pointer.
    Hover,
    /// In a fixed row or column.
    Fixed,
    /// An even row with zebra stripes on.
    Zebra,
    Normal,
}

/// The focused cursor paints exactly its cells as the cursor: a cell
/// cursor its own cell, a row cursor every cell of the cursor row, a column
/// cursor every cell of the cursor column, whatever the row, and that
/// column's header. Without focus, or with no cursor, no cell is painted as
/// the cursor.
pub proof fn law_cursor_paints_its_cells(t: DataTable, row: usize, col: usize, focused: bool)
    ensures
        (t.cell_paint_spec(row, col, focused) == CellPaint::Cursor) == (focused && match t.cursor_type {
            CursorType::Cell => row == t.selected && col == t.cursor_column,
            CursorType::Row => row == t.selected,
            CursorType::Column => col == t.cursor_column,
            CursorType::NoCursor => false,
        }),
        t.cursor_type == CursorType::Column ==> ((t.header_paint_spec(col, focused) == CellPaint::Cursor) == (focused
            && col == t.cursor_column)),
{
}

/// Paging moves a row cursor by a screenful: PageDown moves it down by the
/// number of visible rows (at least one), PageUp up by as many, each
/// stopping at the first or last row; a cursor already there stays put.
/// With a column cursor, or none, paging leaves the selected row alone.
pub proof fn law_paging_moves_by_the_visible_rows(t: DataTable)
    ensures
        ({
            let n = t.rows@.len() as int;
            let page = t.row_page();
            let down = t.move_effect(TableMove::PageDown).0.selected as int;
            let up = t.move_effect(TableMove::PageUp).0.selected as int;
            &&& page >= 1
            &&& page == (if t.visible_rows_for_viewport_spec(t.content_height as int) > 1 {
                t.visible_rows_for_viewport_spec(t.content_height as int)
            } else {
                1
            })
            &&& t.row_cursor() && t.selected + 1 < n ==> down == (if t.selected + page < n - 1 { t.selected + page } else { n - 1 })
            &&& t.row_cursor() && t.selected + 1 >= n ==> down == t.selected
            &&& t.row_cursor() ==> up == (if t.selected > page { t.selected - page } else { 0 })
            &&& !t.row_cursor() ==> down == t.selected && up == t.selected
        }),
{
    let (d, ds, dc, _, _) = t.apply_move(TableMove::PageDown);
    let (u, us, uc, _, _) = t.apply_move(TableMove::PageUp);
    assert(t.move_effect(TableMove::PageDown).0 == d.settle(ds, dc));
    assert(t.move_effect(TableMove::PageUp).0 == u.settle(us, uc));
    assert(d.settle(ds, dc).selected == d.selected);
    assert(u.settle(us, uc).selected == u.selected);
    assert(t.rows@.len() == t.rows.len());
}

/// Whether the cursor (or hover) at `cursor` covers `target` for a cursor type:
/// the cell itself, its whole row, or its whole column.
pub open spec fn should_highlight(cursor: (usize, usize), target: (usize, usize), ct: CursorType) -> bool {
    match ct {
        CursorType::Cell => cursor == target,
        CursorType::Row => cursor.0 == target.0,
        CursorType::Column => cursor.1 == target.1,
        CursorType::NoCursor => false,
    }
}

fn should_highlight_exec(cursor: (usize, usize), target: (usize, usize), ct: CursorType) -> (b: bool)
    ensures
        b == should_highlight(cursor, target, ct),
{
    match ct {
        CursorType::Cell => cursor.0 == target.0 && cursor.1 == target.1,
        CursorType::Row => cursor.0 == target.0,
        CursorType::Column => cursor.1 == target.1,
        CursorType::NoCursor => false,
    }
}

/// The text of the value at `col`, or nothing.
pub open spec fn value_at(values: Seq<String>, col: usize) -> Seq<char> {
    if col < values.len() {
        values[col as int]@
    } else {
        seq![]
    }
}

/// The width of column `col`, or 0.
pub open spec fn width_at(widths: Seq<usize>, col: usize) -> usize {
    if col < widths.len() {
        widths[col as int]
    } else {
        0
    }
}

impl DataTable {
    /// The justification of a cell: headers are left-justified.
    pub open spec fn justify_for(&self, row: Option<usize>, col: usize) -> CellJustify {
        match row {
            None => CellJustify::Left,
            Some(r) => if r < self.cell_justify@.len() {
                justify_at(self.cell_justify@[r as int]@, col as int)
            } else {
                CellJustify::Left
            },
        }
    }

    /// The row-label column's width.
    pub open spec fn label_width_spec(&self) -> usize {
        if !self.show_row_labels {
            0
        } else {
            labels_max(self.row_labels@, self.row_labels@.len())
        }
    }

    /// The first `k` rendered cells of a line and the cells used after them,
    /// starting from `used` cells: cells separated by two spaces.
    pub open spec fn cells_text(
        &self,
        values: Seq<String>,
        row: Option<usize>,
        cols: Seq<usize>,
        k: nat,
        used: usize,
    ) -> (Seq<char>, usize)
        decreases k,
    {
        if k == 0 {
            (seq![], used)
        } else {
            let (t, u) = self.cells_text(values, row, cols, (k - 1) as nat, used);
            let c = cols[k - 1];
            let w = width_at(self.column_widths@, c);
            let gap: Seq<char> = if k - 1 > 0 { seq![' ', ' '] } else { seq![] };
            let ug: usize = if k - 1 > 0 { u.saturating_add(2) } else { u };
            (t + gap + justified(self.justify_for(row, c), value_at(values, c), w), ug.saturating_add(w))
        }
    }

    /// One rendered line: a leading space, the row label (fitted to the label
    /// column, then two spaces) when there is a label column, the rendered
    /// cells, and spaces up to `width`; all spaces when no column is rendered.
    pub open spec fn line_text(&self, values: Seq<String>, row: Option<usize>, label: Seq<char>, cols: Seq<usize>, width: usize) -> Seq<char> {
        if cols.len() == 0 {
            crate::text::spaces(width as nat)
        } else {
            let lw = self.label_width_spec();
            let prefix: Seq<char> = if lw > 0 { seq![' '] + fit_cells(label, lw) + seq![' ', ' '] } else { seq![' '] };
            let used0: usize = if lw > 0 { 1usize.saturating_add(lw).saturating_add(2) } else { 1 };
            let (cells, used) = self.cells_text(values, row, cols, cols.len(), used0);
            if used < width {
                prefix + cells + crate::text::spaces((width - used) as nat)
            } else {
                prefix + cells
            }
        }
    }

    /// The label of row `r`, or nothing.
    pub open spec fn label_of(&self, r: usize) -> Seq<char> {
        if r < self.row_labels@.len() {
            match self.row_labels@[r as int] {
                Some(l) => l@,
                None => seq![],
            }
        } else {
            seq![]
        }
    }

    /// The data rows drawn, top to bottom, for `visible` data rows: the fixed
    /// rows that fit, then scrolled rows from the effective offset, as long as
    /// they exist.
    pub open spec fn drawn_rows(&self, visible: int) -> Seq<usize> {
        let fv = self.visible_fixed_rows_spec(visible);
        let start = self.fixed_data_rows_spec() + self.effective_offset_spec(visible);
        let slots = visible - fv;
        let avail = self.rows@.len() - start;
        let m: int = if avail <= 0 { 0 } else if avail < slots { avail } else { slots };
        index_range(0, fv) + index_range(start, start + m)
    }

    /// The line of data row `r`.
    pub open spec fn row_line(&self, r: usize, cols: Seq<usize>, width: usize) -> Seq<char> {
        self.line_text(self.rows@[r as int]@, Some(r), self.label_of(r), cols, width)
    }

    /// The lines of the given data rows, in order.
    pub open spec fn row_lines(&self, rows: Seq<usize>, cols: Seq<usize>, width: usize) -> Seq<Seq<char>>
        decreases rows.len(),
    {
        if rows.len() == 0 {
            seq![]
        } else {
            self.row_lines(rows.drop_last(), cols, width).push(self.row_line(rows.last(), cols, width))
        }
    }

    /// The lines drawn in a `width` x `height` viewport (each at least 1).
    pub open spec fn rendered_lines(&self, width: usize, height: usize) -> Seq<Seq<char>> {
        let w: usize = if width == 0 { 1 } else { width };
        let h: usize = if height == 0 { 1 } else { height };
        let visible = self.visible_rows_for_viewport_spec(h as int);
        let cols = self.rendered_columns_spec(self.horizontal_offset);
        let header: Seq<Seq<char>> = if self.show_header {
            seq![self.line_text(self.headers@, None, seq![], cols, w)]
        } else {
            seq![]
        };
        header + self.row_lines(self.drawn_rows(visible), cols, w)
    }

    /// The rendered cells of a line and the cells used.
    fn cells_text_exec(
        &self,
        values: &Vec<String>,
        row: Option<usize>,
        cols: &Vec<usize>,
        used0: usize,
    ) -> (r: (String, usize))
        ensures
            r.0@ == self.cells_text(values@, row, cols@, cols@.len(), used0).0,
            r.1 == self.cells_text(values@, row, cols@, cols@.len(), used0).1,
    {
        let mut text = String::new();
        let mut used = used0;
        let mut k: usize = 0;
        while k < cols.len()
            invariant
                k <= cols@.len(),
                text@ == self.cells_text(values@, row, cols@, k as nat, used0).0,
                used == self.cells_text(values@, row, cols@, k as nat, used0).1,
            decreases cols@.len() - k,
        {
            let c = cols[k];
            let w: usize = if c < self.column_widths.len() {
                self.column_widths[c]
            } else {
                0
            };
            let ghost prev = text@;
            proof {
                reveal_strlit("  ");
            }
            if k > 0 {
                text.append("  ");
                used = used.saturating_add(2);
            }
            let ghost gap: Seq<char> = if k > 0 { seq![' ', ' '] } else { seq![] };
            assert(text@ =~= prev + gap);
            let justify = match row {
                None => CellJustify::Left,
                Some(r) => self.cell_justify_at(r, c),
            };
            let value: &str = if c < values.len() {
                values[c].as_str()
            } else {
                ""
            };
            proof {
                reveal_strlit("");
            }
            assert(justify == self.justify_for(row, c));
            assert(value@ == value_at(values@, c));
            assert(w == width_at(self.column_widths@, c));
            let cell = justify.render(value, w);
            text.append(cell.as_str());
            assert(text@ =~= prev + gap + cell@);
            used = used.saturating_add(w);
            k = k + 1;
        }
        (text, used)
    }

    /// One rendered line of the table.
    pub fn line_text_exec(&self, values: &Vec<String>, row: Option<usize>, label: &str, cols: &Vec<usize>, width: usize) -> (line: String)
        ensures
            line@ == self.line_text(values@, row, label@, cols@, width),
    {
        if cols.len() == 0 {
            return crate::text::space_string(width);
        }
        let lw = self.label_col_width();
        proof {
            reveal_strlit(" ");
            reveal_strlit("  ");
        }
        let mut line = text_of(" ");
        let used0: usize = if lw > 0 {
            let fitted = set_cell_size(label, lw);
            line.append(fitted.as_str());
            line.append("  ");
            1usize.saturating_add(lw).saturating_add(2)
        } else {
            1
        };
        let (cells, used) = self.cells_text_exec(values, row, cols, used0);
        line.append(cells.as_str());
        if used < width {
            let pad = crate::text::space_string(width - used);
            line.append(pad.as_str());
        }
        line
    }

    /// The label of a row, or the empty text.
    fn label_text(&self, r: usize) -> (t: String)
        ensures
            t@ == self.label_of(r),
    {
        if r < self.row_labels.len() {
            match &self.row_labels[r] {
                Some(l) => l.clone(),
                None => String::new(),
            }
        } else {
            String::new()
        }
    }

    /// The text of the table drawn in a `width` x `height` viewport: the header
    /// line, then the fixed rows that fit and the scrolled rows.
    pub fn render_lines(&self, width: usize, height: usize) -> (lines: Vec<String>)
        requires
            self.wf(),
        ensures
            texts(lines@) == self.rendered_lines(width, height),
    {
        let w: usize = if width == 0 {
            1
        } else {
            width
        };
        let h: usize = if height == 0 {
            1
        } else {
            height
        };
        let visible = self.visible_rows_for_viewport(h);
        let offset = self.effective_offset(visible);
        let cols = self.rendered_column_indices();
        let ghost header: Seq<Seq<char>> = if self.show_header {
            seq![self.line_text(self.headers@, None, seq![], cols@, w)]
        } else {
            seq![]
        };
        let ghost drawn = self.drawn_rows(visible as int);
        let mut lines: Vec<String> = Vec::new();
        if self.show_header {
            proof {
                reveal_strlit("");
            }
            let line = self.line_text_exec(&self.headers, None, "", &cols, w);
            lines.push(line);
        }
        proof {
            reveal_strlit("");
            assert(""@ =~= Seq::<char>::empty());
        }
        assert(texts(lines@) =~= header);
        assert(drawn.subrange(0, 0) =~= Seq::<usize>::empty());
        let fv = self.visible_fixed_rows(visible);
        let fdr = self.fixed_data_rows();
        proof {
            self.lemma_effective_offset_bounded(visible as int);
        }
        let n_rows = self.rows.len();
        assert(fdr + offset <= n_rows);
        let start = fdr + offset;
        let slots = visible - fv;
        let avail = self.rows.len() - start;
        let mut r: usize = 0;
        while r < fv
            invariant
                r <= fv,
                fv == self.visible_fixed_rows_spec(visible as int),
                fv <= self.rows@.len(),
                self.wf(),
                drawn == self.drawn_rows(visible as int),
                texts(lines@) == header + self.row_lines(drawn.subrange(0, r as int), cols@, w),
            decreases fv - r,
        {
            let label = self.label_text(r);
            let line = self.line_text_exec(&self.rows[r], Some(r), label.as_str(), &cols, w);
            let ghost before = texts(lines@);
            lines.push(line);
            proof {
                assert(drawn[r as int] == r);
                assert(drawn.subrange(0, r as int + 1).drop_last() =~= drawn.subrange(0, r as int));
                assert(texts(lines@) =~= before.push(line@));
            }
            r = r + 1;
        }
        let ghost m: int = if avail == 0 {
            0
        } else if avail < slots {
            avail as int
        } else {
            slots as int
        };
        let mut k: usize = 0;
        while k < slots
            invariant
                k <= slots,
                fv <= self.rows@.len(),
                start <= self.rows@.len(),
                n_rows == self.rows@.len(),
                avail == self.rows@.len() - start,
                self.wf(),
                drawn == self.drawn_rows(visible as int),
                drawn.len() == fv + m,
                forall|j: int| fv <= j < fv + m ==> #[trigger] drawn[j] == start + (j - fv),
                m == (if avail == 0 { 0 } else if avail < slots { avail as int } else { slots as int }),
                texts(lines@) == header + self.row_lines(
                    drawn.subrange(0, fv + (if (k as int) < m { k as int } else { m })),
                    cols@,
                    w,
                ),
            decreases slots - k,
        {
            if k < avail {
                assert(start + k < self.rows@.len());
                let row = start + k;
                let label = self.label_text(row);
                let line = self.line_text_exec(&self.rows[row], Some(row), label.as_str(), &cols, w);
                let ghost before = texts(lines@);
                lines.push(line);
                proof {
                    assert(drawn[fv + k] == row);
                    assert(drawn.subrange(0, fv + k + 1).drop_last() =~= drawn.subrange(0, fv + k as int));
                    assert(texts(lines@) =~= before.push(line@));
                }
            }
            k = k + 1;
        }
        assert(drawn.subrange(0, drawn.len() as int) =~= drawn);
        lines
    }

    /// The rendering offset never scrolls past the scrollable rows.
    pub proof fn lemma_effective_offset_bounded(&self, visible: int)
        requires
            0 <= visible,
        ensures
            0 <= self.effective_offset_spec(visible) <= self.scrollable_row_count_spec(),
    {
        let sv = self.scrollable_visible_rows_spec(visible);
        let count = self.scrollable_row_count_spec();
        if self.rows@.len() > 0 && visible > 0 && sv != 0 {
            let clamped = clamp_offset_spec(self.offset, count as usize, sv as usize) as int;
            assert(clamped <= count);
            if self.selected >= self.fixed_data_rows_spec() {
                assert(self.follow_cursor(clamped, visible) <= count);
            }
        }
    }

    /// How the header cell of column `col` is painted.
    pub open spec fn header_paint_spec(&self, col: usize, focused: bool) -> CellPaint {
        let target = (usize::MAX, col);
        if focused && self.cursor_type != CursorType::NoCursor && should_highlight(
            (self.selected, self.cursor_column),
            target,
            self.cursor_type,
        ) {
            CellPaint::Cursor
        } else if self.hover_coordinate is Some && should_highlight(self.hover_coordinate->0, target, self.cursor_type) {
            CellPaint::Hover
        } else if col < self.fixed_columns {
            CellPaint::Fixed
        } else {
            CellPaint::Normal
        }
    }

    /// How the data cell at (`row`, `col`) is painted.
    pub open spec fn cell_paint_spec(&self, row: usize, col: usize, focused: bool) -> CellPaint {
        let target = (row, col);
        if focused && self.cursor_type != CursorType::NoCursor && should_highlight(
            (self.selected, self.cursor_column),
            target,
            self.cursor_type,
        ) {
            CellPaint::Cursor
        } else if self.hover_coordinate is Some && should_highlight(self.hover_coordinate->0, target, self.cursor_type) {
            CellPaint::Hover
        } else if row < self.fixed_data_rows_spec() || col < self.fixed_columns {
            CellPaint::Fixed
        } else if self.zebra_stripes && row % 2 == 0 {
            CellPaint::Zebra
        } else {
            CellPaint::Normal
        }
    }

    /// How the header cell of a column is painted: the cursor (when focused),
    /// then the hover, then fixed columns.
    pub fn header_paint(&self, col: usize, focused: bool) -> (p: CellPaint)
        ensures
            p == self.header_paint_spec(col, focused),
    {
        let target = (usize::MAX, col);
        if focused && self.cursor_type != CursorType::NoCursor && should_highlight_exec(
            (self.selected, self.cursor_column),
            target,
            self.cursor_type,
        ) {
            return CellPaint::Cursor;
        }
        if let Some(hc) = self.hover_coordinate {
            if should_highlight_exec(hc, target, self.cursor_type) {
                return CellPaint::Hover;
            }
        }
        if col < self.fixed_columns {
            CellPaint::Fixed
        } else {
            CellPaint::Normal
        }
    }

    /// How a data cell is painted: the cursor (when focused), then the hover,
    /// then fixed rows and columns, then zebra stripes on even rows.
    pub fn cell_paint(&self, row: usize, col: usize, focused: bool) -> (p: CellPaint)
        ensures
            p == self.cell_paint_spec(row, col, focused),
    {
        let target = (row, col);
        if focused && self.cursor_type != CursorType::NoCursor && should_highlight_exec(
            (self.selected, self.cursor_column),
            target,
            self.cursor_type,
        ) {
            return CellPaint::Cursor;
        }
        if let Some(hc) = self.hover_coordinate {
            if should_highlight_exec(hc, target, self.cursor_type) {
                return CellPaint::Hover;
            }
        }
        if row < self.fixed_data_rows() || col < self.fixed_columns {
            CellPaint::Fixed
        } else if self.zebra_stripes && row % 2 == 0 {
            CellPaint::Zebra
        } else {
            CellPaint::Normal
        }
    }
}


/// The css id of the table's horizontal scrollbar.
pub open spec fn hscrollbar_id() -> Seq<char> {
    "__data_table_hscrollbar"@
}

impl DataTable {
    /// The table's horizontal scrollbar child, once; later calls give none.
    pub fn take_composed_children(&mut self) -> (children: Vec<NodeSeed>)
        ensures
            old(self).scrollbar_extracted ==> children@.len() == 0 && *final(self) == *old(self),
            !old(self).scrollbar_extracted ==> {
                &&& *final(self) == (DataTable { scrollbar_extracted: true, ..*old(self) })
                &&& children@.len() == 1
                &&& children@[0].css_id is Some
                &&& children@[0].css_id->0@ == hscrollbar_id()
            },
    {
        if self.scrollbar_extracted {
            return Vec::new();
        }
        self.scrollbar_extracted = true;
        let mut bar = NodeSeed::new();
        bar.css_id = Some(text_of("__data_table_hscrollbar"));
        let mut children = Vec::new();
        children.push(bar);
        children
    }
}


/// The sum of the first `k` widths.
pub open spec fn widths_sum(ws: Seq<usize>, k: int) -> int
    decreases k,
{
    if k <= 0 { 0 } else { widths_sum(ws, k - 1) + ws[k - 1] }
}

/// `x`, or `usize::MAX` where it is larger.
pub open spec fn sat_usize(x: int) -> int {
    if x > usize::MAX { usize::MAX as int } else { x }
}

impl DataTable {
    /// The width the table asks for: its columns, the two-cell gaps between
    /// them, the row-label column and its gap when shown, the leading pad,
    /// and the inline style's horizontal padding and border (additions
    /// saturating; at least one cell).
    pub open spec fn auto_content_width_spec(&self) -> usize {
        let columns: int = if self.headers@.len() < 1 { 1 } else { self.headers@.len() as int };
        let cells = widths_sum(self.column_widths@, self.column_widths@.len() as int);
        let gaps = sat_usize((columns - 1) * 2);
        let lw = self.label_width_spec();
        let extra: int = if lw > 0 { lw + 2 } else { 0 };
        let content = sat_usize(sat_usize(sat_usize(cells + gaps) + extra) + CELL_PADDING);
        let content1 = if content < 1 { 1 } else { content };
        let total = sat_usize(content1 + crate::link::horizontal_chrome(self.seed.styles.style));
        (if total < 1 { 1 } else { total }) as usize
    }

    /// The width the table asks for, as [`DataTable::auto_content_width_spec`] states.
    #[verifier::spinoff_prover]
    #[verifier::rlimit(40)]
    pub fn content_width(&self) -> (w: Option<usize>)
        requires
            widths_sum(self.column_widths@, self.column_widths@.len() as int) <= usize::MAX,
            self.label_width_spec() + 2 <= usize::MAX,
        ensures
            w == Some(self.auto_content_width_spec()),
    {
        let mut cells: usize = 0;
        let mut i: usize = 0;
        while i < self.column_widths.len()
            invariant
                i <= self.column_widths@.len(),
                cells == widths_sum(self.column_widths@, i as int),
                widths_sum(self.column_widths@, self.column_widths@.len() as int) <= usize::MAX,
            decreases self.column_widths@.len() - i,
        {
            proof {
                lemma_widths_sum_monotone(self.column_widths@, i + 1, self.column_widths@.len() as int);
            }
            cells = cells + self.column_widths[i];
            i = i + 1;
        }
        let columns: usize = if self.headers.len() < 1 {
            1
        } else {
            self.headers.len()
        };
        let gaps: usize = match (columns - 1).checked_mul(2) {
            Some(g) => g,
            None => usize::MAX,
        };
        let lw = self.label_col_width();
        let extra: usize = if lw > 0 {
            lw + 2
        } else {
            0
        };
        let content = cells.saturating_add(gaps).saturating_add(extra).saturating_add(CELL_PADDING);
        let content1 = if content < 1 {
            1
        } else {
            content
        };
        let style = &self.seed.styles.style;
        let pad: usize = match style.padding {
            Some(p) => match p.left.checked_add(p.right) {
                Some(v) => v as usize,
                None => 65535,
            },
            None => 0,
        };
        let left: usize = if style.border_left.is_some() {
            1
        } else {
            0
        };
        let right: usize = if style.border_right.is_some() {
            1
        } else {
            0
        };
        let total = content1.saturating_add(pad + left + right);
        Some(if total < 1 {
            1
        } else {
            total
        })
    }
}

proof fn lemma_widths_sum_monotone(ws: Seq<usize>, a: int, b: int)
    requires
        0 <= a <= b <= ws.len(),
    ensures
        widths_sum(ws, a) <= widths_sum(ws, b),
    decreases b - a,
{
    if a < b {
        lemma_widths_sum_monotone(ws, a, b - 1);
    }
}

} // verus!
