//! The interactive viewer's state and the operations on it: cursor movement,
//! scrolling, search, jumping to a cell, sheet switching and copying.

use std::collections::HashMap;
use vstd::prelude::*;
use crate::cell::{display_text, raw_text, CellValue};
use crate::keys::Keymap;
use crate::progress::ProgressInfo;
use crate::sheet::{rows_view, texts_view, LazySheetData};
use crate::source::SheetDataSource;
use crate::text::{
    chars_of, contains, contains_text, decimal, push_char, push_decimal, push_str, str_eq,
    ascii_lower_text, is_ascii_text, lowercase_text, occurs_at, string_of, to_lowercase,
};
use crate::theme::Theme;
use crate::utils::{col_letters, column_index_to_letters};

verus! {

broadcast use vstd::std_specs::hash::group_hash_axioms;

/// A remembered view position: (cursor row, cursor column, vertical scroll,
/// horizontal scroll).
pub type Position = (usize, usize, usize, usize);

/// TUI application state.
pub struct TuiState {
    pub sheet_names: Vec<String>,
    pub current_sheet_index: usize,
    pub sheet_data: SheetDataSource,
    pub should_quit: bool,
    /// Current row (0-indexed in data).
    pub cursor_row: usize,
    /// Current column (0-indexed).
    pub cursor_col: usize,
    /// Vertical scroll offset.
    pub scroll_offset: usize,
    /// Horizontal scroll offset.
    pub horizontal_scroll_offset: usize,
    /// Whether horizontal scrolling is enabled.
    pub horizontal_scroll_enabled: bool,
    /// Cached column widths for horizontal scroll.
    pub column_widths: Vec<usize>,
    /// Help overlay visible.
    pub show_help: bool,
    /// Scroll offset for help popup.
    pub help_scroll: usize,
    /// Cell detail popup visible.
    pub show_cell_detail: bool,
    /// Scroll offset for cell detail popup.
    pub cell_detail_scroll: usize,
    /// Whether we're in search input mode.
    pub search_mode: bool,
    /// Current search query.
    pub search_query: String,
    /// List of (row, col) matches.
    pub search_matches: Vec<(usize, usize)>,
    /// Index in `search_matches`.
    pub current_match_index: Option<usize>,
    /// Whether we're in jump input mode.
    pub jump_mode: bool,
    /// Current jump input (row number or cell address).
    pub jump_input: String,
    /// Message of the latest feedback popup.
    pub copy_feedback: Option<String>,
    /// Current operation progress.
    pub progress: Option<ProgressInfo>,
    /// Current color theme.
    pub current_theme: Theme,
    /// The first row is data, not headers.
    pub no_header: bool,
    /// Hide the column-letter row (A, B, C, ...).
    pub no_column_id: bool,
    /// Hide the row-number column.
    pub no_row_id: bool,
    /// Remembered cursor/scroll position per sheet index, so switching back to
    /// a previously-viewed sheet restores where the user left off.
    pub sheet_positions: HashMap<usize, Position>,
    /// The key bound to each command.
    pub keymap: Keymap,
}

/// The last index of a sequence of `n` items (0 when empty).
pub open spec fn last_index(n: nat) -> nat {
    if n == 0 { 0 } else { (n - 1) as nat }
}

/// The sheet row number (1-based) of the first data row: 2 below a header row, else 1.
pub open spec fn first_sheet_row(no_header: bool) -> nat {
    if no_header { 1 } else { 2 }
}

impl TuiState {
    pub open spec fn height(&self) -> nat {
        self.sheet_data.spec_height()
    }

    pub open spec fn width(&self) -> nat {
        self.sheet_data.spec_width()
    }

    pub open spec fn max_row(&self) -> nat {
        last_index(self.height())
    }

    pub open spec fn max_col(&self) -> nat {
        last_index(self.width())
    }

    /// Matches point at cells of the sheet, and the current match is one of them.
    pub open spec fn search_ok(&self) -> bool {
        &&& (self.current_match_index matches Some(i) ==> i < self.search_matches@.len())
        &&& in_reading_order(self.search_matches@)
        &&& forall|k: int| 0 <= k < self.search_matches@.len() ==> {
            &&& (#[trigger] self.search_matches@[k]).0 < self.height()
            &&& self.search_matches@[k].1 < self.width()
        }
    }

    /// The cursor and scroll offsets lie within the sheet.
    pub open spec fn cursor_ok(&self) -> bool {
        &&& self.cursor_row <= self.max_row()
        &&& self.cursor_col <= self.max_col()
        &&& self.scroll_offset <= self.max_row()
        &&& self.horizontal_scroll_offset <= self.max_col()
    }

    /// Column widths (when horizontal scrolling) hold one width of at most 30 per column.
    pub open spec fn widths_ok(&self) -> bool {
        self.horizontal_scroll_enabled ==> {
            &&& self.column_widths@.len() == self.width()
            &&& forall|j: int| 0 <= j < self.column_widths@.len() ==> #[trigger] self.column_widths@[j] <= 30
        }
    }

    pub open spec fn wf(&self) -> bool {
        &&& self.sheet_data.wf()
        &&& self.sheet_names@.len() > 0
        &&& self.current_sheet_index < self.sheet_names@.len()
        &&& self.height() + 2 <= usize::MAX
        &&& self.cursor_ok()
        &&& self.search_ok()
        &&& self.widths_ok()
    }

    /// The sheet, the search, the popups and the settings are unchanged.
    pub open spec fn same_content(&self, old: &Self) -> bool {
        &&& self.sheet_names == old.sheet_names
        &&& self.current_sheet_index == old.current_sheet_index
        &&& self.sheet_data == old.sheet_data
        &&& self.column_widths == old.column_widths
        &&& self.horizontal_scroll_enabled == old.horizontal_scroll_enabled
        &&& self.search_matches == old.search_matches
        &&& self.current_match_index == old.current_match_index
        &&& self.search_query == old.search_query
        &&& self.search_mode == old.search_mode
        &&& self.no_header == old.no_header
        &&& self.sheet_positions == old.sheet_positions
        &&& self.current_theme == old.current_theme
        &&& self.progress == old.progress
        &&& self.should_quit == old.should_quit
        &&& self.show_help == old.show_help
        &&& self.help_scroll == old.help_scroll
        &&& self.show_cell_detail == old.show_cell_detail
        &&& self.cell_detail_scroll == old.cell_detail_scroll
        &&& self.no_column_id == old.no_column_id
        &&& self.no_row_id == old.no_row_id
        &&& self.keymap == old.keymap
    }

    /// Everything but the cursor and scroll offsets is unchanged.
    pub open spec fn only_view_moved(&self, old: &Self) -> bool {
        &&& self.same_content(old)
        &&& self.jump_input == old.jump_input
        &&& self.jump_mode == old.jump_mode
        &&& self.copy_feedback == old.copy_feedback
    }

    pub fn move_up(&mut self)
        requires
            old(self).wf(),
        ensures
            final(self).wf(),
            final(self).only_view_moved(old(self)),
            final(self).cursor_col == old(self).cursor_col,
            final(self).horizontal_scroll_offset == old(self).horizontal_scroll_offset,
            final(self).cursor_row == if old(self).cursor_row > 0 { old(self).cursor_row - 1 } else { 0 },
            final(self).scroll_offset == if old(self).cursor_row > 0 && old(self).cursor_row - 1 < old(self).scroll_offset {
                (old(self).cursor_row - 1) as usize
            } else {
                old(self).scroll_offset
            },
    {
        if self.cursor_row > 0 {
            self.cursor_row = self.cursor_row - 1;
            if self.cursor_row < self.scroll_offset {
                self.scroll_offset = self.cursor_row;
            }
        }
    }

    pub fn move_down(&mut self)
        requires
            old(self).wf(),
        ensures
            final(self).wf(),
            final(self).only_view_moved(old(self)),
            final(self).cursor_col == old(self).cursor_col,
            final(self).scroll_offset == old(self).scroll_offset,
            final(self).horizontal_scroll_offset == old(self).horizontal_scroll_offset,
            final(self).cursor_row == if old(self).cursor_row < old(self).max_row() { old(self).cursor_row + 1 } else { old(self).cursor_row as int },
    {
        let h = self.sheet_data.height();
        let max_row = if h > 0 { h - 1 } else { 0 };
        if self.cursor_row < max_row {
            self.cursor_row = self.cursor_row + 1;
        }
    }

    pub fn move_left(&mut self)
        requires
            old(self).wf(),
        ensures
            final(self).wf(),
            final(self).only_view_moved(old(self)),
            final(self).cursor_row == old(self).cursor_row,
            final(self).scroll_offset == old(self).scroll_offset,
            final(self).cursor_col == if old(self).cursor_col > 0 { old(self).cursor_col - 1 } else { 0 },
            final(self).horizontal_scroll_offset == if old(self).cursor_col > 0 && old(self).horizontal_scroll_enabled
                && old(self).cursor_col - 1 < old(self).horizontal_scroll_offset {
                (old(self).cursor_col - 1) as usize
            } else {
                old(self).horizontal_scroll_offset
            },
    {
        if self.cursor_col > 0 {
            self.cursor_col = self.cursor_col - 1;
            if self.horizontal_scroll_enabled && self.cursor_col < self.horizontal_scroll_offset {
                self.horizontal_scroll_offset = self.cursor_col;
            }
        }
    }

    pub fn move_right(&mut self)
        requires
            old(self).wf(),
        ensures
            final(self).wf(),
            final(self).only_view_moved(old(self)),
            final(self).cursor_row == old(self).cursor_row,
            final(self).scroll_offset == old(self).scroll_offset,
            final(self).horizontal_scroll_offset == old(self).horizontal_scroll_offset,
            final(self).cursor_col == if old(self).cursor_col < old(self).max_col() { old(self).cursor_col + 1 } else { old(self).cursor_col as int },
    {
        let w = self.sheet_data.width();
        let max_col = if w > 0 { w - 1 } else { 0 };
        if self.cursor_col < max_col {
            self.cursor_col = self.cursor_col + 1;
        }
    }

    pub fn move_to_start_of_row(&mut self)
        requires
            old(self).wf(),
        ensures
            final(self).wf(),
            final(self).only_view_moved(old(self)),
            final(self).cursor_row == old(self).cursor_row,
            final(self).scroll_offset == old(self).scroll_offset,
            final(self).cursor_col == 0,
            final(self).horizontal_scroll_offset == if old(self).horizontal_scroll_enabled { 0 } else { old(self).horizontal_scroll_offset },
    {
        self.cursor_col = 0;
        if self.horizontal_scroll_enabled {
            self.horizontal_scroll_offset = 0;
        }
    }

    pub fn move_to_end_of_row(&mut self)
        requires
            old(self).wf(),
        ensures
            final(self).wf(),
            final(self).only_view_moved(old(self)),
            final(self).cursor_row == old(self).cursor_row,
            final(self).scroll_offset == old(self).scroll_offset,
            final(self).horizontal_scroll_offset == old(self).horizontal_scroll_offset,
            final(self).cursor_col == old(self).max_col(),
    {
        let w = self.sheet_data.width();
        self.cursor_col = if w > 0 { w - 1 } else { 0 };
    }

    pub fn page_up(&mut self, page_size: usize)
        requires
            old(self).wf(),
        ensures
            final(self).wf(),
            final(self).only_view_moved(old(self)),
            final(self).cursor_col == old(self).cursor_col,
            final(self).scroll_offset == old(self).scroll_offset,
            final(self).horizontal_scroll_offset == old(self).horizontal_scroll_offset,
            final(self).cursor_row == if old(self).cursor_row >= page_size { old(self).cursor_row - page_size } else { 0 },
    {
        self.cursor_row = if self.cursor_row >= page_size { self.cursor_row - page_size } else { 0 };
    }

    pub fn page_down(&mut self, page_size: usize)
        requires
            old(self).wf(),
        ensures
            final(self).wf(),
            final(self).only_view_moved(old(self)),
            final(self).cursor_col == old(self).cursor_col,
            final(self).scroll_offset == old(self).scroll_offset,
            final(self).horizontal_scroll_offset == old(self).horizontal_scroll_offset,
            final(self).cursor_row == if old(self).cursor_row + page_size <= old(self).max_row() {
                old(self).cursor_row + page_size
            } else {
                old(self).max_row() as int
            },
    {
        let h = self.sheet_data.height();
        let max_row = if h > 0 { h - 1 } else { 0 };
        let target = if page_size <= max_row - self.cursor_row { self.cursor_row + page_size } else { max_row };
        self.cursor_row = target;
    }

    pub fn move_to_top(&mut self)
        requires
            old(self).wf(),
        ensures
            final(self).wf(),
            final(self).only_view_moved(old(self)),
            final(self).cursor_col == old(self).cursor_col,
            final(self).scroll_offset == old(self).scroll_offset,
            final(self).horizontal_scroll_offset == old(self).horizontal_scroll_offset,
            final(self).cursor_row == 0,
    {
        self.cursor_row = 0;
    }

    pub fn move_to_bottom(&mut self)
        requires
            old(self).wf(),
        ensures
            final(self).wf(),
            final(self).only_view_moved(old(self)),
            final(self).cursor_col == old(self).cursor_col,
            final(self).scroll_offset == old(self).scroll_offset,
            final(self).horizontal_scroll_offset == old(self).horizontal_scroll_offset,
            final(self).cursor_row == old(self).max_row(),
    {
        let h = self.sheet_data.height();
        self.cursor_row = if h > 0 { h - 1 } else { 0 };
    }

    /// Keep the cursor row inside a viewport of `viewport_height` rows: scroll
    /// down just enough when the cursor is below it, or up to the cursor when above.
    pub fn update_scroll(&mut self, viewport_height: usize)
        requires
            old(self).wf(),
            viewport_height > 0,
        ensures
            final(self).wf(),
            final(self).only_view_moved(old(self)),
            final(self).cursor_row == old(self).cursor_row,
            final(self).cursor_col == old(self).cursor_col,
            final(self).horizontal_scroll_offset == old(self).horizontal_scroll_offset,
            final(self).scroll_offset == if old(self).cursor_row >= old(self).scroll_offset + viewport_height {
                old(self).cursor_row - (viewport_height - 1)
            } else if old(self).cursor_row < old(self).scroll_offset {
                old(self).cursor_row as int
            } else {
                old(self).scroll_offset as int
            },
            final(self).scroll_offset <= final(self).cursor_row < final(self).scroll_offset + viewport_height,
    {
        if self.cursor_row >= self.scroll_offset && self.cursor_row - self.scroll_offset >= viewport_height {
            self.scroll_offset = self.cursor_row - (viewport_height - 1);
        }
        if self.cursor_row < self.scroll_offset {
            self.scroll_offset = self.cursor_row;
        }
    }

    pub fn reset_cursor(&mut self)
        requires
            old(self).wf(),
        ensures
            final(self).wf(),
            final(self).only_view_moved(old(self)),
            final(self).cursor_row == 0,
            final(self).cursor_col == 0,
            final(self).scroll_offset == 0,
            final(self).horizontal_scroll_offset == 0,
    {
        self.cursor_row = 0;
        self.cursor_col = 0;
        self.scroll_offset = 0;
        self.horizontal_scroll_offset = 0;
    }

    /// The sheet row number (1-based) of the first data row.
    pub fn first_data_sheet_row(&self) -> (r: usize)
        ensures
            r == first_sheet_row(self.no_header),
    {
        Self::first_data_sheet_row_for(self.no_header)
    }

    /// The sheet row number of the first data row for a sheet read with or
    /// without a header row.
    pub fn first_data_sheet_row_for(no_header: bool) -> (r: usize)
        ensures
            r == first_sheet_row(no_header),
    {
        if no_header { 1 } else { 2 }
    }

    /// Convert a 0-based data-row index into its real 1-based sheet row number.
    pub fn data_row_to_sheet_row(&self, data_row: usize) -> (r: usize)
        requires
            data_row + 2 <= usize::MAX,
        ensures
            r == data_row + first_sheet_row(self.no_header),
    {
        data_row + self.first_data_sheet_row()
    }

    /// Convert a real 1-based sheet row number into a 0-based data-row index,
    /// clamping the header row (and anything above the first data row) to the
    /// first data row.
    pub fn sheet_row_to_data_row(&self, sheet_row: usize) -> (r: usize)
        ensures
            r == if sheet_row >= first_sheet_row(self.no_header) { sheet_row - first_sheet_row(self.no_header) } else { 0 },
    {
        let first = self.first_data_sheet_row();
        if sheet_row >= first { sheet_row - first } else { 0 }
    }

    /// The address of the cursor cell, e.g. `B7` (column letters, sheet row).
    pub fn current_cell_address(&self) -> (s: String)
        requires
            self.wf(),
        ensures
            s@ == col_letters(self.cursor_col as nat) + decimal((self.cursor_row + first_sheet_row(self.no_header)) as nat),
    {
        let mut s = column_index_to_letters(self.cursor_col);
        let row = self.data_row_to_sheet_row(self.cursor_row);
        push_decimal(&mut s, row as u64);
        s
    }

    pub fn current_sheet_name(&self) -> (s: &String)
        requires
            self.wf(),
        ensures
            *s == self.sheet_names@[self.current_sheet_index as int],
    {
        &self.sheet_names[self.current_sheet_index]
    }

    /// Start typing a jump target, from empty input.
    pub fn enter_jump_mode(&mut self)
        ensures
            final(self).jump_input@ == Seq::<char>::empty(),
            *final(self) == (TuiState { jump_mode: true, jump_input: final(self).jump_input, ..*old(self) }),
    {
        self.jump_mode = true;
        self.jump_input = String::new();
    }
}

// ===== Search =====

/// Whether a cell's display text contains the query, ignoring case
/// (both sides lowercased as `str::to_lowercase` does).
pub open spec fn cell_matches(c: CellValue, query: Seq<char>) -> bool {
    contains_text(lowercase_text(display_text(c)), lowercase_text(query))
}

/// A text that occurs in another still occurs in it once both are lowercased
/// the ASCII way.
proof fn lemma_contains_ascii_lower(s: Seq<char>, t: Seq<char>)
    requires
        contains_text(s, t),
    ensures
        contains_text(ascii_lower_text(s), ascii_lower_text(t)),
{
    let i = choose|i: int| occurs_at(s, t, i);
    assert(ascii_lower_text(s).subrange(i, i + t.len()) =~= ascii_lower_text(t)) by {
        assert forall|k: int| 0 <= k < t.len() implies ascii_lower_text(s).subrange(i, i + t.len())[k] == ascii_lower_text(t)[k] by {
            assert(s.subrange(i, i + t.len())[k] == t[k]);
        }
    }
    assert(occurs_at(ascii_lower_text(s), ascii_lower_text(t), i));
}

/// Search ignores case. For ASCII texts: a cell matches a query exactly when
/// its display text contains the query once both are lowercased; so a cell
/// whose display text holds the query as typed always matches, and two
/// queries that differ only in case match the same cells.
pub proof fn search_ignores_case(c: CellValue, query: Seq<char>, other: Seq<char>)
    requires
        is_ascii_text(display_text(c)),
        is_ascii_text(query),
        is_ascii_text(other),
    ensures
        cell_matches(c, query) <==> contains_text(ascii_lower_text(display_text(c)), ascii_lower_text(query)),
        contains_text(display_text(c), query) ==> cell_matches(c, query),
        ascii_lower_text(query) == ascii_lower_text(other) ==> (cell_matches(c, query) <==> cell_matches(c, other)),
{
    if contains_text(display_text(c), query) {
        lemma_contains_ascii_lower(display_text(c), query);
    }
}

/// Matching (row, column) positions among the first `n` cells of a row.
pub open spec fn row_matches(row: Seq<CellValue>, r: int, query: Seq<char>, n: int) -> Seq<(usize, usize)>
    decreases n,
{
    if n <= 0 {
        Seq::empty()
    } else {
        row_matches(row, r, query, n - 1) + if cell_matches(row[n - 1], query) {
            seq![(r as usize, (n - 1) as usize)]
        } else {
            Seq::empty()
        }
    }
}

/// Matching positions among the first `n` rows, row by row, left to right.
pub open spec fn matches_upto(rows: Seq<Seq<CellValue>>, query: Seq<char>, n: int) -> Seq<(usize, usize)>
    decreases n,
{
    if n <= 0 {
        Seq::empty()
    } else {
        matches_upto(rows, query, n - 1) + row_matches(rows[n - 1], n - 1, query, rows[n - 1].len() as int)
    }
}

/// Every matching position of a sheet, in reading order.
pub open spec fn all_matches(rows: Seq<Seq<CellValue>>, query: Seq<char>) -> Seq<(usize, usize)> {
    matches_upto(rows, query, rows.len() as int)
}

/// The match after `i` of `n`, wrapping to the first.
pub open spec fn next_match_index(i: Option<usize>, n: nat) -> nat {
    match i {
        Some(i) => ((i + 1) % (n as int)) as nat,
        None => 0,
    }
}

/// The match before `i` of `n`, wrapping to the last.
pub open spec fn prev_match_index(i: Option<usize>, n: nat) -> nat {
    match i {
        Some(i) => if i == 0 { (n - 1) as nat } else { (i - 1) as nat },
        None => (n - 1) as nat,
    }
}

/// Stepping to the next search match and back returns to the same match, and
/// stepping back then forward does too.
pub proof fn next_then_prev_match(i: usize, n: nat)
    requires
        i < n,
        n <= usize::MAX,
    ensures
        prev_match_index(Some(next_match_index(Some(i), n) as usize), n) == i,
        next_match_index(Some(prev_match_index(Some(i), n) as usize), n) == i,
{
    if i + 1 < n {
        vstd::arithmetic::div_mod::lemma_small_mod((i + 1) as nat, n);
    } else {
        vstd::arithmetic::div_mod::lemma_mod_self_0(n as int);
    }
    if i == 0 {
        vstd::arithmetic::div_mod::lemma_mod_self_0(n as int);
    } else {
        vstd::arithmetic::div_mod::lemma_small_mod(i as nat, n);
    }
}

/// Position `a` comes before `b` in reading order: an earlier row, or the
/// same row and an earlier column.
pub open spec fn position_before(a: (usize, usize), b: (usize, usize)) -> bool {
    a.0 < b.0 || (a.0 == b.0 && a.1 < b.1)
}

/// Positions listed strictly in reading order (so each at most once).
pub open spec fn in_reading_order(m: Seq<(usize, usize)>) -> bool {
    forall|a: int, b: int| 0 <= a < b < m.len() ==> position_before(#[trigger] m[a], #[trigger] m[b])
}

proof fn lemma_row_matches_bounds(row: Seq<CellValue>, r: int, query: Seq<char>, n: int)
    requires
        0 <= r <= usize::MAX,
        0 <= n <= row.len(),
        n <= usize::MAX,
    ensures
        forall|k: int| 0 <= k < row_matches(row, r, query, n).len() ==> {
            &&& (#[trigger] row_matches(row, r, query, n)[k]).0 == r as usize
            &&& row_matches(row, r, query, n)[k].1 < n
        },
        in_reading_order(row_matches(row, r, query, n)),
    decreases n,
{
    if n > 0 {
        lemma_row_matches_bounds(row, r, query, n - 1);
        let a = row_matches(row, r, query, n - 1);
        let b: Seq<(usize, usize)> = if cell_matches(row[n - 1], query) {
            seq![(r as usize, (n - 1) as usize)]
        } else {
            Seq::empty()
        };
        assert(row_matches(row, r, query, n) == a + b);
        assert forall|k: int| 0 <= k < row_matches(row, r, query, n).len() implies {
            &&& (#[trigger] row_matches(row, r, query, n)[k]).0 == r as usize
            &&& row_matches(row, r, query, n)[k].1 < n
        } by {
            if k >= a.len() {
                assert(row_matches(row, r, query, n)[k] == b[k - a.len()]);
            } else {
                assert(row_matches(row, r, query, n)[k] == a[k]);
            }
        }
        let m = row_matches(row, r, query, n);
        assert forall|x: int, y: int| 0 <= x < y < m.len() implies position_before(#[trigger] m[x], #[trigger] m[y]) by {
            assert(m[x] == a[x]);
            assert(a[x].1 < n - 1);
            assert(a[x].0 == r as usize);
            if y < a.len() {
                assert(m[y] == a[y]);
                assert(position_before(a[x], a[y]));
            } else {
                assert(b.len() == 1);
                assert(m[y] == b[0]);
                assert(b[0] == (r as usize, (n - 1) as usize));
            }
        }
    }
}

proof fn lemma_matches_bounds(rows: Seq<Seq<CellValue>>, query: Seq<char>, n: int, width: nat)
    requires
        0 <= n <= rows.len(),
        rows.len() <= usize::MAX,
        width <= usize::MAX,
        forall|i: int| 0 <= i < rows.len() ==> (#[trigger] rows[i]).len() == width,
    ensures
        forall|k: int| 0 <= k < matches_upto(rows, query, n).len() ==> {
            &&& (#[trigger] matches_upto(rows, query, n)[k]).0 < n
            &&& matches_upto(rows, query, n)[k].1 < width
        },
        in_reading_order(matches_upto(rows, query, n)),
    decreases n,
{
    if n > 0 {
        lemma_matches_bounds(rows, query, n - 1, width);
        lemma_row_matches_bounds(rows[n - 1], n - 1, query, rows[n - 1].len() as int);
        let a = matches_upto(rows, query, n - 1);
        let b = row_matches(rows[n - 1], n - 1, query, rows[n - 1].len() as int);
        assert forall|k: int| 0 <= k < matches_upto(rows, query, n).len() implies {
            &&& (#[trigger] matches_upto(rows, query, n)[k]).0 < n
            &&& matches_upto(rows, query, n)[k].1 < width
        } by {
            if k >= a.len() {
                assert(matches_upto(rows, query, n)[k] == b[k - a.len()]);
            } else {
                assert(matches_upto(rows, query, n)[k] == a[k]);
            }
        }
        let m = matches_upto(rows, query, n);
        assert forall|x: int, y: int| 0 <= x < y < m.len() implies position_before(#[trigger] m[x], #[trigger] m[y]) by {
            if x >= a.len() {
                assert(m[x] == b[x - a.len()]);
                assert(m[y] == b[y - a.len()]);
            } else if y < a.len() {
                assert(m[x] == a[x]);
                assert(m[y] == a[y]);
            } else {
                assert(m[x] == a[x]);
                assert(m[y] == b[y - a.len()]);
            }
        }
    }
}

impl TuiState {
    /// Forget the search: no query, no matches, no current match.
    pub fn clear_search(&mut self)
        requires
            old(self).wf(),
        ensures
            final(self).wf(),
            final(self).search_query@ == Seq::<char>::empty(),
            final(self).search_matches@ == Seq::<(usize, usize)>::empty(),
            *final(self) == (TuiState {
                search_query: final(self).search_query,
                search_matches: final(self).search_matches,
                current_match_index: None,
                ..*old(self)
            }),
    {
        self.search_query = String::new();
        self.search_matches = Vec::new();
        self.current_match_index = None;
    }

    /// Move the cursor to the current match, if there is one.
    pub fn jump_to_current_match(&mut self)
        requires
            old(self).wf(),
        ensures
            final(self).wf(),
            final(self).only_view_moved(old(self)),
            final(self).scroll_offset == old(self).scroll_offset,
            final(self).horizontal_scroll_offset == old(self).horizontal_scroll_offset,
            match old(self).current_match_index {
                Some(i) => final(self).cursor_row == old(self).search_matches@[i as int].0
                    && final(self).cursor_col == old(self).search_matches@[i as int].1,
                None => final(self).cursor_row == old(self).cursor_row && final(self).cursor_col == old(self).cursor_col,
            },
    {
        match self.current_match_index {
            Some(idx) => {
                if idx < self.search_matches.len() {
                    let (row, col) = self.search_matches[idx];
                    self.cursor_row = row;
                    self.cursor_col = col;
                }
            },
            None => {},
        }
    }

    pub fn jump_to_next_match(&mut self)
        requires
            old(self).wf(),
        ensures
            final(self).wf(),
            old(self).search_matches@.len() == 0 ==> *final(self) == *old(self),
            old(self).search_matches@.len() > 0 ==> {
                let i = next_match_index(old(self).current_match_index, old(self).search_matches@.len());
                *final(self) == (TuiState {
                    current_match_index: Some(i as usize),
                    cursor_row: old(self).search_matches@[i as int].0,
                    cursor_col: old(self).search_matches@[i as int].1,
                    ..*old(self)
                })
            },
    {
        if self.search_matches.len() == 0 {
            return;
        }
        let n = self.search_matches.len();
        self.current_match_index = Some(match self.current_match_index {
            Some(idx) => (idx + 1) % n,
            None => 0,
        });
        self.jump_to_current_match();
    }

    pub fn jump_to_prev_match(&mut self)
        requires
            old(self).wf(),
        ensures
            final(self).wf(),
            old(self).search_matches@.len() == 0 ==> *final(self) == *old(self),
            old(self).search_matches@.len() > 0 ==> {
                let i = prev_match_index(old(self).current_match_index, old(self).search_matches@.len());
                *final(self) == (TuiState {
                    current_match_index: Some(i as usize),
                    cursor_row: old(self).search_matches@[i as int].0,
                    cursor_col: old(self).search_matches@[i as int].1,
                    ..*old(self)
                })
            },
    {
        if self.search_matches.len() == 0 {
            return;
        }
        let n = self.search_matches.len();
        self.current_match_index = Some(match self.current_match_index {
            Some(idx) => if idx == 0 { n - 1 } else { idx - 1 },
            None => n - 1,
        });
        self.jump_to_current_match();
    }

    /// Perform case-insensitive search across all cells: every cell whose
    /// display text contains the query (both lowercased) is a match, in reading
    /// order; the cursor moves to the first match. Large sheets are scanned in
    /// chunks of 500 rows.
    pub fn perform_search(&mut self)
        requires
            old(self).wf(),
        ensures
            final(self).wf(),
            final(self).sheet_data.same_sheet(&old(self).sheet_data),
            final(self).search_query == old(self).search_query,
            final(self).progress is None,
            old(self).search_query@.len() == 0 ==> final(self).search_matches@.len() == 0,
            old(self).search_query@.len() > 0 ==> final(self).search_matches@
                == all_matches(old(self).sheet_data.all_rows(), old(self).search_query@),
            final(self).current_match_index == if final(self).search_matches@.len() > 0 { Some(0usize) } else { None },
            final(self).search_matches@.len() > 0 ==> final(self).cursor_row == final(self).search_matches@[0].0
                && final(self).cursor_col == final(self).search_matches@[0].1,
            final(self).search_matches@.len() == 0 ==> final(self).cursor_row == old(self).cursor_row
                && final(self).cursor_col == old(self).cursor_col,
            *final(self) == (TuiState {
                sheet_data: final(self).sheet_data,
                search_matches: final(self).search_matches,
                current_match_index: final(self).current_match_index,
                cursor_row: final(self).cursor_row,
                cursor_col: final(self).cursor_col,
                progress: None,
                ..*old(self)
            }),
    {
        if self.search_query.as_str().is_empty() {
            self.search_matches = Vec::new();
            self.current_match_index = None;
            self.progress = None;
            return;
        }
        let ghost src0 = self.sheet_data;
        let matches = self.find_matches();
        proof {
            lemma_source_shape(src0);
            lemma_matches_bounds(src0.all_rows(), self.search_query@, src0.all_rows().len() as int, src0.spec_width());
        }
        if matches.len() > 0 {
            let (row, col) = matches[0];
            self.cursor_row = row;
            self.cursor_col = col;
            self.current_match_index = Some(0);
        } else {
            self.current_match_index = None;
        }
        self.search_matches = matches;
    }

    /// Every match of the (non-empty) query, scanning the sheet in chunks and
    /// showing progress on sheets of more than 1000 rows.
    fn find_matches(&mut self) -> (matches: Vec<(usize, usize)>)
        requires
            old(self).wf(),
        ensures
            final(self).sheet_data.wf(),
            final(self).sheet_data.same_sheet(&old(self).sheet_data),
            matches@ == all_matches(old(self).sheet_data.all_rows(), old(self).search_query@),
            *final(self) == (TuiState { sheet_data: final(self).sheet_data, progress: None, ..*old(self) }),
    {
        let query_lower = to_lowercase(self.search_query.as_str());
        proof {
            assert(query_lower@ == lowercase_text(self.search_query@));
        }
        let q = chars_of(query_lower.as_str());
        let total = self.sheet_data.height();
        if total > 1000 {
            self.progress = Some(ProgressInfo::new(string_of("Searching"), total));
        }
        let matches = scan_matches(&mut self.sheet_data, &q, Ghost(self.search_query@), &mut self.progress);
        self.progress = None;
        matches
    }
}

/// A well-formed source has one header per column, as many data rows as the
/// sheet is high, and every data row is as wide as the sheet.
pub proof fn lemma_source_shape(src: SheetDataSource)
    requires
        src.wf(),
    ensures
        src.spec_headers().len() == src.spec_width(),
        src.all_rows().len() == src.spec_height(),
        forall|i: int| 0 <= i < src.all_rows().len() ==> (#[trigger] src.all_rows()[i]).len() == src.spec_width(),
{
    assert forall|i: int| 0 <= i < src.all_rows().len() implies (#[trigger] src.all_rows()[i]).len() == src.spec_width() by {
        match src {
            SheetDataSource::Eager(d) => assert(src.all_rows()[i] == d.rows@[i]@),
            SheetDataSource::Lazy { data, no_header, .. } => assert(src.all_rows()[i] == data.data_rows(no_header)[i]@),
        }
    }
}

/// Scan the whole sheet in chunks of 500 rows for cells whose lowercased
/// display text contains `q` (the lowercased query), updating the progress
/// after each chunk.
#[verifier::loop_isolation(false)]
#[verifier::rlimit(40)]
fn scan_matches(
    source: &mut SheetDataSource,
    q: &Vec<char>,
    Ghost(query): Ghost<Seq<char>>,
    progress: &mut Option<ProgressInfo>,
) -> (matches: Vec<(usize, usize)>)
    requires
        old(source).wf(),
        q@ == lowercase_text(query),
    ensures
        final(source).wf(),
        final(source).same_sheet(old(source)),
        matches@ == all_matches(old(source).all_rows(), query),
{
    let ghost src0 = *source;
    let ghost rows0 = src0.all_rows();
    proof {
        lemma_source_shape(src0);
    }
    let total = source.height();
    let mut matches: Vec<(usize, usize)> = Vec::new();
    let mut chunk_start: usize = 0;
    while chunk_start < total
        invariant
            source.wf(),
            source.same_sheet(&src0),
            chunk_start <= total,
            matches@ == matches_upto(rows0, query, chunk_start as int),
        decreases total - chunk_start,
    {
        let chunk_size = if total - chunk_start < 500 { total - chunk_start } else { 500 };
        let (rows, _formulas) = source.get_rows(chunk_start, chunk_size);
        proof {
            assert(rows_view(rows@) == rows0.subrange(chunk_start as int, chunk_start + chunk_size));
            assert(rows_view(rows@).len() == rows@.len());
        }
        let mut i: usize = 0;
        while i < rows.len()
            invariant
                i <= rows@.len(),
                matches@ == matches_upto(rows0, query, chunk_start + i),
            decreases rows.len() - i,
        {
            let row_idx = chunk_start + i;
            proof {
                assert(rows_view(rows@)[i as int] == rows@[i as int]@);
                assert(rows@[i as int]@ == rows0[row_idx as int]);
            }
            let ghost before = matches@;
            let mut col: usize = 0;
            while col < rows[i].len()
                invariant
                    col <= rows@[i as int]@.len(),
                    matches@ == before + row_matches(rows0[row_idx as int], row_idx as int, query, col as int),
                decreases rows[i as int]@.len() - col,
            {
                let cell_text = rows[i][col].to_string();
                let cell_str = to_lowercase(cell_text.as_str());
                proof {
                    assert(cell_str@ == lowercase_text(cell_text@));
                }
                let v = chars_of(cell_str.as_str());
                if contains(&v, q) {
                    matches.push((row_idx, col));
                }
                col = col + 1;
                proof {
                    assert(matches@ =~= before + row_matches(rows0[row_idx as int], row_idx as int, query, col as int));
                }
            }
            i = i + 1;
            proof {
                assert(matches@ =~= matches_upto(rows0, query, chunk_start + i));
            }
        }
        match progress {
            Some(p) => p.update(chunk_start + chunk_size),
            None => {},
        }
        chunk_start = chunk_start + chunk_size;
    }
    matches
}

} // verus!
