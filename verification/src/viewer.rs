//! Opening the viewer, switching sheets (remembering where the user was on
//! each sheet), column widths for horizontal scrolling, and copying.

use std::collections::HashMap;
use vstd::prelude::*;
use crate::cell::{display_text, raw_text, CellValue};
use crate::export::{csv_cells, join, quoted_row};
use crate::keys::Keymap;
use crate::sheet::{rows_view, texts_view, LazySheetData};
use crate::source::SheetDataSource;
use crate::state::{first_sheet_row, last_index, Position, TuiState};
use crate::text::{ascii_lower, ascii_lower_text, ascii_upper, ascii_upper_text, chars_of, decimal, is_ascii_text, push_decimal, push_str, str_eq, string_of, to_lowercase, unicode_lowercase};
use crate::theme::{theme_name, Theme};
use crate::utils::col_letters;

verus! {

broadcast use vstd::std_specs::hash::group_hash_axioms;

// ===== Remembered positions =====

/// `v`, but at most `max`.
pub open spec fn clamp_to(v: nat, max: nat) -> nat {
    if v <= max { v } else { max }
}

/// The position remembered for sheet `i`, if any.
pub open spec fn saved_position(positions: Map<usize, Position>, i: usize) -> Option<Position> {
    if positions.contains_key(i) { Some(positions[i]) } else { None }
}

/// Where the cursor and scroll offsets go when a sheet of `height` rows and
/// `width` columns is shown: the remembered (row, column, vertical scroll,
/// horizontal scroll), clamped to the sheet, or the top-left corner.
pub open spec fn restored_position(saved: Option<Position>, height: nat, width: nat) -> (nat, nat, nat, nat) {
    match saved {
        Some(p) => (
            clamp_to(p.0 as nat, last_index(height)),
            clamp_to(p.1 as nat, last_index(width)),
            clamp_to(p.2 as nat, last_index(height)),
            clamp_to(p.3 as nat, last_index(width)),
        ),
        None => (0, 0, 0, 0),
    }
}

/// Leaving sheet `i` at position `p` and then another sheet `j` at `q`, and
/// coming back to `i`, puts the cursor back where it was on `i` (clamped to
/// the sheet as it is then).
pub proof fn position_survives_switching(
    positions: Map<usize, Position>,
    i: usize,
    j: usize,
    p: Position,
    q: Position,
    height: nat,
    width: nat,
)
    requires
        i != j,
    ensures
        restored_position(saved_position(positions.insert(i, p).insert(j, q), i), height, width)
            == restored_position(Some(p), height, width),
{
    assert(positions.insert(i, p).insert(j, q).contains_key(i));
    assert(positions.insert(i, p).insert(j, q)[i] == p);
}

/// A sheet never left has no remembered position: showing it puts the cursor
/// in the top-left corner.
pub proof fn unvisited_sheet_starts_at_origin(height: nat, width: nat)
    ensures
        restored_position(saved_position(Map::<usize, Position>::empty(), 0), height, width) == (0nat, 0nat, 0nat, 0nat),
{
}

/// `n` is `s` after moving to the next sheet: the position on the current
/// sheet is remembered, nothing else changes.
pub open spec fn next_sheet_switched(s: TuiState, n: TuiState) -> bool {
    &&& n.current_sheet_index == (s.current_sheet_index + 1) % (s.sheet_names@.len() as int)
    &&& n.sheet_positions@ == s.sheet_positions@.insert(
        s.current_sheet_index,
        (s.cursor_row, s.cursor_col, s.scroll_offset, s.horizontal_scroll_offset),
    )
    &&& n == (TuiState { current_sheet_index: n.current_sheet_index, sheet_positions: n.sheet_positions, ..s })
}

/// `n` is `s` after moving to the previous sheet: the position on the
/// current sheet is remembered, nothing else changes.
pub open spec fn prev_sheet_switched(s: TuiState, n: TuiState) -> bool {
    &&& n.current_sheet_index == if s.current_sheet_index == 0 {
        s.sheet_names@.len() - 1
    } else {
        s.current_sheet_index - 1
    }
    &&& n.sheet_positions@ == s.sheet_positions@.insert(
        s.current_sheet_index,
        (s.cursor_row, s.cursor_col, s.scroll_offset, s.horizontal_scroll_offset),
    )
    &&& n == (TuiState { current_sheet_index: n.current_sheet_index, sheet_positions: n.sheet_positions, ..s })
}

/// `n` is `s` once the newly current sheet's `data` is shown: the cursor
/// and scroll offsets go back to where they were on that sheet, the search
/// is cleared, and the sheets and remembered positions stay.
pub open spec fn sheet_switch_finished(s: TuiState, n: TuiState, data: LazySheetData) -> bool {
    let p = restored_position(saved_position(s.sheet_positions@, s.current_sheet_index), data.height as nat, data.width as nat);
    &&& n.cursor_row == p.0
    &&& n.cursor_col == p.1
    &&& n.scroll_offset == p.2
    &&& n.horizontal_scroll_offset == p.3
    &&& n.search_query@ == Seq::<char>::empty()
    &&& n.search_matches@ == Seq::<(usize, usize)>::empty()
    &&& n.sheet_names == s.sheet_names
    &&& n.current_sheet_index == s.current_sheet_index
    &&& n.sheet_positions == s.sheet_positions
}

/// Switching to the next sheet and back to the previous one returns to the
/// sheet left, with the cursor and scroll offsets where they were (clamped
/// to the sheet as it reloads; exactly where they were when it reloads with
/// the same size), and the search cleared.
pub proof fn switching_away_and_back_restores_position(
    s0: TuiState,
    s1: TuiState,
    s2: TuiState,
    s3: TuiState,
    s4: TuiState,
    away: LazySheetData,
    back: LazySheetData,
)
    requires
        s0.wf(),
        s0.sheet_names@.len() > 1,
        next_sheet_switched(s0, s1),
        sheet_switch_finished(s1, s2, away),
        prev_sheet_switched(s2, s3),
        sheet_switch_finished(s3, s4, back),
    ensures
        s4.current_sheet_index == s0.current_sheet_index,
        (s4.cursor_row as nat, s4.cursor_col as nat, s4.scroll_offset as nat, s4.horizontal_scroll_offset as nat)
            == restored_position(Some((s0.cursor_row, s0.cursor_col, s0.scroll_offset, s0.horizontal_scroll_offset)),
            back.height as nat, back.width as nat),
        back.height == s0.height() && back.width == s0.width() ==> {
            &&& s4.cursor_row == s0.cursor_row
            &&& s4.cursor_col == s0.cursor_col
            &&& s4.scroll_offset == s0.scroll_offset
            &&& s4.horizontal_scroll_offset == s0.horizontal_scroll_offset
        },
        s4.search_query@.len() == 0,
        s4.search_matches@.len() == 0,
{
    let n = s0.sheet_names@.len() as int;
    let i = s0.current_sheet_index as int;
    if i + 1 < n {
        vstd::arithmetic::div_mod::lemma_small_mod((i + 1) as nat, n as nat);
    } else {
        vstd::arithmetic::div_mod::lemma_mod_self_0(n);
    }
    let j = s1.current_sheet_index;
    assert(j != i);
    assert(s3.current_sheet_index == i);
    let p0 = (s0.cursor_row, s0.cursor_col, s0.scroll_offset, s0.horizontal_scroll_offset);
    assert(s3.sheet_positions@ == s0.sheet_positions@.insert(s0.current_sheet_index, p0).insert(j, (s2.cursor_row, s2.cursor_col, s2.scroll_offset, s2.horizontal_scroll_offset)));
    assert(s3.sheet_positions@.contains_key(s0.current_sheet_index));
    assert(s3.sheet_positions@[s0.current_sheet_index] == p0);
}

/// A text with its spaces taken out.
pub open spec fn without_spaces(s: Seq<char>) -> Seq<char>
    decreases s.len(),
{
    if s.len() == 0 {
        s
    } else {
        without_spaces(s.drop_last()) + if s.last() == ' ' { Seq::<char>::empty() } else { seq![s.last()] }
    }
}

proof fn lemma_without_spaces_concat(a: Seq<char>, b: Seq<char>)
    ensures
        without_spaces(a + b) == without_spaces(a) + without_spaces(b),
    decreases b.len(),
{
    if b.len() == 0 {
        assert(a + b =~= a);
        assert(without_spaces(a) + without_spaces(b) =~= without_spaces(a));
    } else {
        lemma_without_spaces_concat(a, b.drop_last());
        assert((a + b).drop_last() =~= a + b.drop_last());
        assert((a + b).last() == b.last());
        assert(without_spaces(a + b) =~= without_spaces(a) + without_spaces(b));
    }
}

proof fn lemma_without_spaces_none(s: Seq<char>)
    requires
        !s.contains(' '),
    ensures
        without_spaces(s) == s,
    decreases s.len(),
{
    if s.len() > 0 {
        assert(!s.drop_last().contains(' ')) by {
            if s.drop_last().contains(' ') {
                let k = choose|k: int| 0 <= k < s.drop_last().len() && s.drop_last()[k] == ' ';
                assert(s[k] == ' ');
            }
        }
        lemma_without_spaces_none(s.drop_last());
        assert(s.last() != ' ') by {
            assert(s[s.len() - 1] == s.last());
        }
        assert(without_spaces(s) =~= s);
    }
}

/// Lowercasing undoes uppercasing (ASCII).
proof fn lemma_lower_of_upper(s: Seq<char>)
    ensures
        ascii_lower_text(ascii_upper_text(s)) == ascii_lower_text(s),
{
    assert forall|i: int| 0 <= i < s.len() implies #[trigger] ascii_lower_text(ascii_upper_text(s))[i] == ascii_lower_text(s)[i] by {
        let c = s[i];
        if 'a' <= c && c <= 'z' {
            assert(ascii_upper(c) as u32 == c as u32 - 32);
            assert(ascii_lower(ascii_upper(c)) as u32 == c as u32);
        }
    }
    assert(ascii_lower_text(ascii_upper_text(s)) =~= ascii_lower_text(s));
}

/// A theme's name with its spaces removed.
proof fn lemma_theme_name_spaces(t: Theme)
    ensures
        without_spaces(theme_name(t)) == match t {
            Theme::Default => "Default"@,
            Theme::Dracula => "Dracula"@,
            Theme::SolarizedDark => "SolarizedDark"@,
            Theme::SolarizedLight => "SolarizedLight"@,
            Theme::GitHubDark => "GitHubDark"@,
            Theme::Nord => "Nord"@,
        },
{
    reveal_strlit("Default");
    reveal_strlit("Dracula");
    reveal_strlit("Nord");
    reveal_strlit("Solarized");
    reveal_strlit("Dark");
    reveal_strlit("Light");
    reveal_strlit("GitHub");
    reveal_strlit("Solarized Dark");
    reveal_strlit("Solarized Light");
    reveal_strlit("GitHub Dark");
    reveal_strlit("SolarizedDark");
    reveal_strlit("SolarizedLight");
    reveal_strlit("GitHubDark");
    match t {
        Theme::SolarizedDark => {
            assert("Solarized Dark"@ =~= "Solarized"@ + seq![' '] + "Dark"@);
            lemma_two_words("Solarized"@, "Dark"@);
            assert("Solarized"@ + "Dark"@ =~= "SolarizedDark"@);
        },
        Theme::SolarizedLight => {
            assert("Solarized Light"@ =~= "Solarized"@ + seq![' '] + "Light"@);
            lemma_two_words("Solarized"@, "Light"@);
            assert("Solarized"@ + "Light"@ =~= "SolarizedLight"@);
        },
        Theme::GitHubDark => {
            assert("GitHub Dark"@ =~= "GitHub"@ + seq![' '] + "Dark"@);
            lemma_two_words("GitHub"@, "Dark"@);
            assert("GitHub"@ + "Dark"@ =~= "GitHubDark"@);
        },
        _ => {
            let n = theme_name(t);
            assert(!n.contains(' ')) by {
                if n.contains(' ') {
                    let k = choose|k: int| 0 <= k < n.len() && n[k] == ' ';
                    assert(n[k] != ' ');
                }
            }
            lemma_without_spaces_none(n);
        },
    }
}

proof fn lemma_two_words(a: Seq<char>, b: Seq<char>)
    requires
        !a.contains(' '),
        !b.contains(' '),
    ensures
        without_spaces(a + seq![' '] + b) == a + b,
{
    lemma_without_spaces_concat(a + seq![' '], b);
    lemma_without_spaces_concat(a, seq![' ']);
    lemma_without_spaces_none(a);
    lemma_without_spaces_none(b);
    assert(seq![' '].drop_last() =~= Seq::<char>::empty());
    assert(seq![' '].len() == 1);
    assert(seq![' '].last() == ' ');
    assert(without_spaces(Seq::<char>::empty()) == Seq::<char>::empty());
    assert(without_spaces(seq![' ']) =~= Seq::<char>::empty());
    assert(a + Seq::<char>::empty() =~= a);
}

/// Every theme's own name selects it (see `theme_for_name`, which the theme
/// parser applies to the lowercased name): as written, in capitals, and with
/// its spaces removed.
pub proof fn theme_names_select_their_themes(t: Theme)
    ensures
        theme_for_name(ascii_lower_text(theme_name(t))) == t,
        theme_for_name(ascii_lower_text(ascii_upper_text(theme_name(t)))) == t,
        theme_for_name(ascii_lower_text(without_spaces(theme_name(t)))) == t,
{
    lemma_lower_of_upper(theme_name(t));
    lemma_theme_name_spaces(t);
    reveal_strlit("Default");
    reveal_strlit("Dracula");
    reveal_strlit("Nord");
    reveal_strlit("Solarized Dark");
    reveal_strlit("Solarized Light");
    reveal_strlit("GitHub Dark");
    reveal_strlit("SolarizedDark");
    reveal_strlit("SolarizedLight");
    reveal_strlit("GitHubDark");
    reveal_strlit("default");
    reveal_strlit("dracula");
    reveal_strlit("nord");
    reveal_strlit("solarized dark");
    reveal_strlit("solarized light");
    reveal_strlit("github dark");
    reveal_strlit("solarizeddark");
    reveal_strlit("solarizedlight");
    reveal_strlit("githubdark");
    match t {
        Theme::Default => {
            assert(ascii_lower_text("Default"@) =~= "default"@);
            assert("default"@[1] != "dracula"@[1]);
            assert("default"@ != "dracula"@ && "default"@ != "nord"@);
            assert("default"@ != "solarized dark"@ && "default"@ != "solarizeddark"@);
            assert("default"@ != "solarized light"@ && "default"@ != "solarizedlight"@);
            assert("default"@ != "github dark"@ && "default"@ != "githubdark"@);
        },
        Theme::Dracula => {
            assert(ascii_lower_text("Dracula"@) =~= "dracula"@);
        },
        Theme::SolarizedDark => {
            assert(ascii_lower_text("Solarized Dark"@) =~= "solarized dark"@);
            assert(ascii_lower_text("SolarizedDark"@) =~= "solarizeddark"@);
            assert("solarized dark"@ != "dracula"@);
            assert("solarizeddark"@ != "dracula"@);
        },
        Theme::SolarizedLight => {
            assert(ascii_lower_text("Solarized Light"@) =~= "solarized light"@);
            assert(ascii_lower_text("SolarizedLight"@) =~= "solarizedlight"@);
            assert("solarized light"@ != "dracula"@ && "solarized light"@ != "solarized dark"@ && "solarized light"@ != "solarizeddark"@);
            assert("solarizedlight"@[9] != "solarized dark"@[9]);
            assert("solarizedlight"@ != "dracula"@ && "solarizedlight"@ != "solarized dark"@ && "solarizedlight"@ != "solarizeddark"@);
        },
        Theme::GitHubDark => {
            assert(ascii_lower_text("GitHub Dark"@) =~= "github dark"@);
            assert(ascii_lower_text("GitHubDark"@) =~= "githubdark"@);
            assert("github dark"@ != "dracula"@ && "github dark"@ != "solarized dark"@ && "github dark"@ != "solarizeddark"@);
            assert("github dark"@ != "solarized light"@ && "github dark"@ != "solarizedlight"@);
            assert("githubdark"@ != "dracula"@ && "githubdark"@ != "solarized dark"@ && "githubdark"@ != "solarizeddark"@);
            assert("githubdark"@ != "solarized light"@ && "githubdark"@ != "solarizedlight"@);
        },
        Theme::Nord => {
            assert(ascii_lower_text("Nord"@) =~= "nord"@);
            assert("nord"@ != "dracula"@ && "nord"@ != "solarized dark"@ && "nord"@ != "solarizeddark"@);
            assert("nord"@ != "solarized light"@ && "nord"@ != "solarizedlight"@);
            assert("nord"@ != "github dark"@ && "nord"@ != "githubdark"@);
        },
    }
}

// ===== Column widths =====

/// The widest display text in column `col` among the first `n` rows.
pub open spec fn column_text_max(rows: Seq<Seq<CellValue>>, col: int, n: int) -> nat
    decreases n,
{
    if n <= 0 {
        0
    } else {
        let m = column_text_max(rows, col, n - 1);
        let l = display_text(rows[n - 1][col]).len();
        if l > m { l } else { m }
    }
}

/// The width of column `col` for horizontal scrolling: the longer of its
/// header and its widest cell among the first 100 rows (in characters), kept
/// between 3 and 30.
pub open spec fn auto_column_width(headers: Seq<Seq<char>>, rows: Seq<Seq<CellValue>>, col: int) -> nat {
    let sample = if rows.len() < 100 { rows.len() as int } else { 100 };
    let h = headers[col].len();
    let c = column_text_max(rows, col, sample);
    let w = if c > h { c } else { h };
    if w < 3 { 3 } else if w > 30 { 30 } else { w }
}

/// The number of characters of a text.
fn char_count(s: &str) -> (n: usize)
    ensures
        n == s@.len(),
{
    let v = chars_of(s);
    v.len()
}

// ===== Themes =====

/// The theme a configured name selects (compared in lowercase); unknown
/// names select the default theme.
pub open spec fn theme_for_name(lower: Seq<char>) -> Theme {
    if lower == "dracula"@ {
        Theme::Dracula
    } else if lower == "solarized dark"@ || lower == "solarizeddark"@ {
        Theme::SolarizedDark
    } else if lower == "solarized light"@ || lower == "solarizedlight"@ {
        Theme::SolarizedLight
    } else if lower == "github dark"@ || lower == "githubdark"@ {
        Theme::GitHubDark
    } else if lower == "nord"@ {
        Theme::Nord
    } else {
        Theme::Default
    }
}

// ===== Copying =====

/// The index of the first sheet named `name` (0 when there is none).
pub fn initial_sheet_index(names: &Vec<String>, name: &str) -> (i: usize)
    ensures
        (exists|k: int| 0 <= k < names@.len() && names@[k]@ == name@) ==> {
            &&& i < names@.len()
            &&& names@[i as int]@ == name@
            &&& forall|k: int| 0 <= k < i ==> names@[k]@ != name@
        },
        (forall|k: int| 0 <= k < names@.len() ==> names@[k]@ != name@) ==> i == 0,
{
    let mut k: usize = 0;
    while k < names.len()
        invariant
            k <= names@.len(),
            forall|m: int| 0 <= m < k ==> names@[m]@ != name@,
        decreases names.len() - k,
    {
        if str_eq(names[k].as_str(), name) {
            return k;
        }
        k = k + 1;
    }
    0
}

impl TuiState {
    /// The theme a configured name selects: `dracula`, `solarized dark`,
    /// `solarized light`, `github dark` (the last three also without the
    /// space) or `nord`, in any case; anything else is the default theme.
    pub fn parse_theme_name(name: &str) -> (t: Theme)
        ensures
            t == theme_for_name(unicode_lowercase(name@)),
            is_ascii_text(name@) ==> t == theme_for_name(ascii_lower_text(name@)),
    {
        let lower = to_lowercase(name);
        let l = lower.as_str();
        if str_eq(l, "dracula") {
            Theme::Dracula
        } else if str_eq(l, "solarized dark") || str_eq(l, "solarizeddark") {
            Theme::SolarizedDark
        } else if str_eq(l, "solarized light") || str_eq(l, "solarizedlight") {
            Theme::SolarizedLight
        } else if str_eq(l, "github dark") || str_eq(l, "githubdark") {
            Theme::GitHubDark
        } else if str_eq(l, "nord") {
            Theme::Nord
        } else {
            Theme::Default
        }
    }

    /// Column widths for horizontal scrolling: per column, the longer of the
    /// header and the widest cell among the first 100 rows (counted in
    /// characters), kept between 3 and 30.
    #[verifier::loop_isolation(false)]
    pub fn calculate_column_widths(&mut self) -> (widths: Vec<usize>)
        requires
            old(self).sheet_data.wf(),
        ensures
            final(self).sheet_data.wf(),
            final(self).sheet_data.same_sheet(&old(self).sheet_data),
            *final(self) == (TuiState { sheet_data: final(self).sheet_data, ..*old(self) }),
            widths@.len() == old(self).width(),
            forall|j: int| 0 <= j < widths@.len() ==> #[trigger] widths@[j] == auto_column_width(
                old(self).sheet_data.spec_headers(),
                old(self).sheet_data.all_rows(),
                j,
            ),
    {
        let ghost src0 = self.sheet_data;
        let ghost headers0 = src0.spec_headers();
        let ghost rows0 = src0.all_rows();
        proof {
            crate::state::lemma_source_shape(src0);
        }
        let num_cols = self.sheet_data.width();
        let mut widths: Vec<usize> = Vec::new();
        let mut j: usize = 0;
        while j < num_cols
            invariant
                j <= num_cols,
                widths@.len() == j,
                forall|k: int| 0 <= k < j ==> #[trigger] widths@[k] == headers0[k].len(),
            decreases num_cols - j,
        {
            let n = char_count(self.sheet_data.headers()[j].as_str());
            widths.push(n);
            j = j + 1;
        }
        let h = self.sheet_data.height();
        let sample_size: usize = if h < 100 { h } else { 100 };
        let (sample_rows, _formulas) = self.sheet_data.get_rows(0, sample_size);
        proof {
            if sample_size > 0 {
                assert(rows_view(sample_rows@) == rows0.subrange(0, sample_size as int));
                assert(rows_view(sample_rows@).len() == sample_rows@.len());
            }
        }
        let mut r: usize = 0;
        while r < sample_rows.len()
            invariant
                r <= sample_rows@.len(),
                widths@.len() == num_cols,
                forall|k: int| 0 <= k < num_cols ==> #[trigger] widths@[k] == {
                    let c = column_text_max(rows0, k, r as int);
                    if c > headers0[k].len() { c } else { headers0[k].len() }
                },
            decreases sample_rows.len() - r,
        {
            proof {
                assert(rows_view(sample_rows@)[r as int] == sample_rows@[r as int]@);
                assert(sample_rows@[r as int]@ == rows0[r as int]);
            }
            let mut c: usize = 0;
            while c < sample_rows[r].len()
                invariant
                    c <= num_cols,
                    widths@.len() == num_cols,
                    forall|k: int| 0 <= k < num_cols ==> #[trigger] widths@[k] == {
                        let m = column_text_max(rows0, k, if k < c { r + 1 } else { r as int });
                        if m > headers0[k].len() { m } else { headers0[k].len() }
                    },
                decreases sample_rows[r as int]@.len() - c,
            {
                let len = char_count(sample_rows[r][c].to_string().as_str());
                if len > widths[c] {
                    widths.set(c, len);
                }
                c = c + 1;
            }
            r = r + 1;
        }
        let mut out: Vec<usize> = Vec::new();
        let mut k: usize = 0;
        while k < num_cols
            invariant
                k <= num_cols,
                out@.len() == k,
                forall|m: int| 0 <= m < k ==> #[trigger] out@[m] == auto_column_width(headers0, rows0, m),
            decreases num_cols - k,
        {
            let w = widths[k];
            out.push(if w < 3 { 3 } else if w > 30 { 30 } else { w });
            k = k + 1;
        }
        out
    }
}

/// One past the last column that fits, at least partly, in a viewport
/// `viewport_width` wide when columns are shown from `i` on with `total`
/// characters used already (each column takes its width plus a separator).
pub open spec fn columns_end(widths: Seq<usize>, i: int, total: int, viewport_width: int) -> int
    decreases widths.len() - i,
{
    if i < 0 || i >= widths.len() {
        i
    } else {
        let t = total + widths[i] + 1;
        if t > viewport_width { i + 1 } else { columns_end(widths, i + 1, t, viewport_width) }
    }
}

/// Where the horizontal scroll goes for a viewport `viewport_width` wide:
/// one column further when the cursor is past the visible columns, back to
/// the cursor when the cursor is left of them.
pub open spec fn next_horizontal_offset(widths: Seq<usize>, offset: nat, cursor_col: nat, viewport_width: nat) -> nat {
    let end = columns_end(widths, offset as int, 0, viewport_width as int);
    let o = if cursor_col >= end { offset + 1 } else { offset };
    if cursor_col < o { cursor_col } else { o as nat }
}

proof fn lemma_columns_end_bounds(widths: Seq<usize>, i: int, total: int, viewport_width: int)
    requires
        0 <= i,
    ensures
        i < widths.len() ==> i + 1 <= columns_end(widths, i, total, viewport_width) <= widths.len(),
        i >= widths.len() ==> columns_end(widths, i, total, viewport_width) == i,
    decreases widths.len() - i,
{
    if i < widths.len() {
        lemma_columns_end_bounds(widths, i + 1, total + widths[i] + 1, viewport_width);
    }
}

impl TuiState {
    /// Keep the cursor column inside the visible columns when scrolling
    /// horizontally (does nothing when horizontal scrolling is off).
    pub fn update_horizontal_scroll(&mut self, viewport_width: usize)
        requires
            old(self).wf(),
            viewport_width <= u16::MAX,
        ensures
            final(self).wf(),
            *final(self) == (TuiState { horizontal_scroll_offset: final(self).horizontal_scroll_offset, ..*old(self) }),
            final(self).horizontal_scroll_offset == if old(self).horizontal_scroll_enabled {
                next_horizontal_offset(old(self).column_widths@, old(self).horizontal_scroll_offset as nat,
                    old(self).cursor_col as nat, viewport_width as nat)
            } else {
                old(self).horizontal_scroll_offset as nat
            },
    {
        if !self.horizontal_scroll_enabled {
            return;
        }
        let ghost w = self.column_widths@;
        let mut total_width: usize = 0;
        let mut visible_end = self.horizontal_scroll_offset;
        let mut i = self.horizontal_scroll_offset;
        let ghost offset = self.horizontal_scroll_offset as int;
        while i < self.column_widths.len()
            invariant_except_break
                w == self.column_widths@,
                offset <= i <= w.len(),
                total_width <= viewport_width,
                viewport_width <= u16::MAX,
                columns_end(w, offset, 0, viewport_width as int) == columns_end(w, i as int, total_width as int, viewport_width as int),
                forall|j: int| 0 <= j < w.len() ==> #[trigger] w[j] <= 30,
                visible_end == if i == offset { offset } else { i as int },
            ensures
                visible_end == columns_end(w, offset, 0, viewport_width as int),
            decreases self.column_widths.len() - i,
        {
            let cw = self.column_widths[i];
            assert(cw == w[i as int] && w[i as int] <= 30);
            total_width = total_width + cw + 1;
            visible_end = i + 1;
            if total_width > viewport_width {
                break;
            }
            i = i + 1;
        }
        proof {
            lemma_columns_end_bounds(w, offset, 0, viewport_width as int);
        }
        if self.cursor_col >= visible_end {
            self.horizontal_scroll_offset = self.horizontal_scroll_offset + 1;
        }
        if self.cursor_col < self.horizontal_scroll_offset {
            self.horizontal_scroll_offset = self.cursor_col;
        }
    }

    /// Remember the cursor and scroll position of the current sheet.
    pub fn save_current_position(&mut self)
        ensures
            final(self).sheet_positions@ == old(self).sheet_positions@.insert(
                old(self).current_sheet_index,
                (old(self).cursor_row, old(self).cursor_col, old(self).scroll_offset, old(self).horizontal_scroll_offset),
            ),
            *final(self) == (TuiState { sheet_positions: final(self).sheet_positions, ..*old(self) }),
    {
        let pos = (self.cursor_row, self.cursor_col, self.scroll_offset, self.horizontal_scroll_offset);
        self.sheet_positions.insert(self.current_sheet_index, pos);
    }

    /// Put the cursor and scroll offsets where they were when the current
    /// sheet was last left, clamped to its bounds; the top-left corner when
    /// it was never left.
    pub fn restore_position(&mut self)
        requires
            old(self).sheet_data.wf(),
        ensures
            ({
                let p = restored_position(saved_position(old(self).sheet_positions@, old(self).current_sheet_index),
                    old(self).height(), old(self).width());
                &&& final(self).cursor_row == p.0
                &&& final(self).cursor_col == p.1
                &&& final(self).scroll_offset == p.2
                &&& final(self).horizontal_scroll_offset == p.3
            }),
            *final(self) == (TuiState {
                cursor_row: final(self).cursor_row,
                cursor_col: final(self).cursor_col,
                scroll_offset: final(self).scroll_offset,
                horizontal_scroll_offset: final(self).horizontal_scroll_offset,
                ..*old(self)
            }),
    {
        let key = self.current_sheet_index;
        match self.sheet_positions.get(&key) {
            Some(p) => {
                let (row, col, scroll, hscroll) = *p;
                let h = self.sheet_data.height();
                let w = self.sheet_data.width();
                let max_row = if h > 0 { h - 1 } else { 0 };
                let max_col = if w > 0 { w - 1 } else { 0 };
                self.cursor_row = if row <= max_row { row } else { max_row };
                self.cursor_col = if col <= max_col { col } else { max_col };
                self.scroll_offset = if scroll <= max_row { scroll } else { max_row };
                self.horizontal_scroll_offset = if hscroll <= max_col { hscroll } else { max_col };
            },
            None => {
                self.cursor_row = 0;
                self.cursor_col = 0;
                self.scroll_offset = 0;
                self.horizontal_scroll_offset = 0;
            },
        }
    }

    /// Move to the next sheet (wrapping around), remembering the position on
    /// the current one. Returns whether the new sheet must now be loaded and
    /// handed to `finish_sheet_switch`; with a single sheet nothing happens.
    pub fn switch_to_next_sheet(&mut self) -> (load: bool)
        requires
            old(self).wf(),
        ensures
            final(self).wf(),
            load == (old(self).sheet_names@.len() > 1),
            !load ==> *final(self) == *old(self),
            load ==> final(self).current_sheet_index == (old(self).current_sheet_index + 1) % (old(self).sheet_names@.len() as int),
            load ==> final(self).sheet_positions@ == old(self).sheet_positions@.insert(
                old(self).current_sheet_index,
                (old(self).cursor_row, old(self).cursor_col, old(self).scroll_offset, old(self).horizontal_scroll_offset),
            ),
            load ==> *final(self) == (TuiState {
                current_sheet_index: final(self).current_sheet_index,
                sheet_positions: final(self).sheet_positions,
                ..*old(self)
            }),
            load ==> next_sheet_switched(*old(self), *final(self)),
    {
        if self.sheet_names.len() <= 1 {
            return false;
        }
        self.save_current_position();
        self.current_sheet_index = (self.current_sheet_index + 1) % self.sheet_names.len();
        true
    }

    /// Move to the previous sheet (wrapping around), remembering the position
    /// on the current one. Returns whether the new sheet must now be loaded
    /// and handed to `finish_sheet_switch`; with a single sheet nothing
    /// happens.
    pub fn switch_to_prev_sheet(&mut self) -> (load: bool)
        requires
            old(self).wf(),
        ensures
            final(self).wf(),
            load == (old(self).sheet_names@.len() > 1),
            !load ==> *final(self) == *old(self),
            load ==> final(self).current_sheet_index == if old(self).current_sheet_index == 0 {
                old(self).sheet_names@.len() - 1
            } else {
                old(self).current_sheet_index - 1
            },
            load ==> final(self).sheet_positions@ == old(self).sheet_positions@.insert(
                old(self).current_sheet_index,
                (old(self).cursor_row, old(self).cursor_col, old(self).scroll_offset, old(self).horizontal_scroll_offset),
            ),
            load ==> *final(self) == (TuiState {
                current_sheet_index: final(self).current_sheet_index,
                sheet_positions: final(self).sheet_positions,
                ..*old(self)
            }),
            load ==> prev_sheet_switched(*old(self), *final(self)),
    {
        if self.sheet_names.len() <= 1 {
            return false;
        }
        self.save_current_position();
        self.current_sheet_index = if self.current_sheet_index == 0 {
            self.sheet_names.len() - 1
        } else {
            self.current_sheet_index - 1
        };
        true
    }

    /// Show freshly loaded data for the current sheet: small sheets are held
    /// in full, large ones served lazily; column widths are recomputed when
    /// scrolling horizontally.
    pub fn load_current_sheet(&mut self, data: LazySheetData)
        requires
            data.wf(old(self).no_header),
        ensures
            final(self).sheet_data.wf(),
            final(self).sheet_data.serves(data, old(self).no_header),
            final(self).horizontal_scroll_enabled ==> {
                &&& final(self).column_widths@.len() == data.width
                &&& forall|j: int| 0 <= j < data.width ==> #[trigger] final(self).column_widths@[j] == auto_column_width(
                    texts_view(data.headers@),
                    rows_view(data.data_rows(old(self).no_header)),
                    j,
                )
            },
            !final(self).horizontal_scroll_enabled ==> final(self).column_widths == old(self).column_widths,
            *final(self) == (TuiState {
                sheet_data: final(self).sheet_data,
                column_widths: final(self).column_widths,
                ..*old(self)
            }),
    {
        self.sheet_data = SheetDataSource::from_lazy(data, self.no_header);
        if self.horizontal_scroll_enabled {
            self.column_widths = self.calculate_column_widths();
        }
    }
}

/// The cell at (`r`, `c`) of a sheet's rows, if there is one.
pub open spec fn cell_at(rows: Seq<Seq<CellValue>>, r: int, c: int) -> Option<CellValue> {
    if 0 <= r < rows.len() && 0 <= c < rows[r].len() {
        Some(rows[r][c])
    } else {
        None
    }
}

/// The message shown after copying the cell at `address`, or why it failed.
pub open spec fn cell_copied_text(address: Seq<char>, outcome: Result<(), String>) -> Seq<char> {
    match outcome {
        Ok(()) => "Copied cell "@ + address,
        Err(e) => "Copy failed: "@ + e@,
    }
}

/// The message shown after copying sheet row `sheet_row` of a sheet `width`
/// columns wide, or why it failed.
pub open spec fn row_copied_text(sheet_row: nat, width: nat, outcome: Result<(), String>) -> Seq<char> {
    match outcome {
        Ok(()) => "Copied row "@ + decimal(sheet_row) + " ("@ + decimal(width) + " cells)"@,
        Err(e) => "Copy failed: "@ + e@,
    }
}

impl TuiState {
    /// Show the newly loaded current sheet after a switch: the sheet is held
    /// as `load_current_sheet` does, the cursor goes back to where it was
    /// when this sheet was last left (see `restore_position`), and the
    /// search is cleared.
    pub fn finish_sheet_switch(&mut self, data: LazySheetData)
        requires
            old(self).wf(),
            data.wf(old(self).no_header),
            data.height + 2 <= usize::MAX,
        ensures
            final(self).wf(),
            final(self).sheet_data.serves(data, old(self).no_header),
            ({
                let p = restored_position(saved_position(old(self).sheet_positions@, old(self).current_sheet_index),
                    data.height as nat, data.width as nat);
                &&& final(self).cursor_row == p.0
                &&& final(self).cursor_col == p.1
                &&& final(self).scroll_offset == p.2
                &&& final(self).horizontal_scroll_offset == p.3
            }),
            final(self).search_query@ == Seq::<char>::empty(),
            final(self).search_matches@ == Seq::<(usize, usize)>::empty(),
            final(self).horizontal_scroll_enabled ==> forall|j: int| 0 <= j < data.width ==>
                #[trigger] final(self).column_widths@[j] == auto_column_width(
                    texts_view(data.headers@),
                    rows_view(data.data_rows(old(self).no_header)),
                    j,
                ),
            *final(self) == (TuiState {
                sheet_data: final(self).sheet_data,
                column_widths: final(self).column_widths,
                cursor_row: final(self).cursor_row,
                cursor_col: final(self).cursor_col,
                scroll_offset: final(self).scroll_offset,
                horizontal_scroll_offset: final(self).horizontal_scroll_offset,
                search_query: final(self).search_query,
                search_matches: final(self).search_matches,
                current_match_index: None,
                ..*old(self)
            }),
            sheet_switch_finished(*old(self), *final(self), data),
    {
        self.load_current_sheet(data);
        self.restore_position();
        self.search_query = String::new();
        self.search_matches = Vec::new();
        self.current_match_index = None;
        proof {
            crate::state::lemma_source_shape(self.sheet_data);
            if self.horizontal_scroll_enabled {
                assert forall|j: int| 0 <= j < self.column_widths@.len() implies #[trigger] self.column_widths@[j] <= 30 by {
                    assert(self.column_widths@[j] == auto_column_width(
                        texts_view(data.headers@),
                        rows_view(data.data_rows(old(self).no_header)),
                        j,
                    ));
                }
            }
        }
    }

    /// Open the viewer on sheet `current_sheet_index` of `sheet_names`, whose
    /// data is `data`: cursor at the top-left, no search, no popup, the theme
    /// named `theme_name` (see `parse_theme_name`), and column widths computed
    /// when scrolling horizontally.
    pub fn new(
        sheet_names: Vec<String>,
        current_sheet_index: usize,
        data: LazySheetData,
        keymap: Keymap,
        theme_name: &str,
        horizontal_scroll: bool,
        no_header: bool,
        no_column_id: bool,
        no_row_id: bool,
    ) -> (s: TuiState)
        requires
            current_sheet_index < sheet_names@.len(),
            data.wf(no_header),
            data.height + 2 <= usize::MAX,
        ensures
            s.wf(),
            s.sheet_names == sheet_names,
            s.current_sheet_index == current_sheet_index,
            s.sheet_data.serves(data, no_header),
            s.cursor_row == 0 && s.cursor_col == 0 && s.scroll_offset == 0 && s.horizontal_scroll_offset == 0,
            s.horizontal_scroll_enabled == horizontal_scroll,
            horizontal_scroll ==> s.column_widths@.len() == data.width && forall|j: int| 0 <= j < data.width ==>
                #[trigger] s.column_widths@[j] == auto_column_width(
                    texts_view(data.headers@),
                    rows_view(data.data_rows(no_header)),
                    j,
                ),
            !horizontal_scroll ==> s.column_widths@.len() == 0,
            !s.should_quit && !s.show_help && !s.show_cell_detail && !s.search_mode && !s.jump_mode,
            s.help_scroll == 0 && s.cell_detail_scroll == 0,
            s.search_query@.len() == 0 && s.search_matches@.len() == 0 && s.current_match_index is None,
            s.jump_input@.len() == 0,
            s.copy_feedback is None && s.progress is None,
            s.current_theme == theme_for_name(unicode_lowercase(theme_name@)),
            s.no_header == no_header && s.no_column_id == no_column_id && s.no_row_id == no_row_id,
            s.sheet_positions@ == Map::<usize, Position>::empty(),
            s.keymap == keymap,
    {
        let sheet_data = SheetDataSource::from_lazy(data, no_header);
        let mut state = TuiState {
            sheet_names,
            current_sheet_index,
            sheet_data,
            should_quit: false,
            cursor_row: 0,
            cursor_col: 0,
            scroll_offset: 0,
            horizontal_scroll_offset: 0,
            horizontal_scroll_enabled: horizontal_scroll,
            column_widths: Vec::new(),
            show_help: false,
            help_scroll: 0,
            show_cell_detail: false,
            cell_detail_scroll: 0,
            search_mode: false,
            search_query: String::new(),
            search_matches: Vec::new(),
            current_match_index: None,
            jump_mode: false,
            jump_input: String::new(),
            copy_feedback: None,
            progress: None,
            current_theme: Self::parse_theme_name(theme_name),
            no_header,
            no_column_id,
            no_row_id,
            sheet_positions: HashMap::new(),
            keymap,
        };
        if horizontal_scroll {
            state.column_widths = state.calculate_column_widths();
        }
        proof {
            crate::state::lemma_source_shape(state.sheet_data);
            if horizontal_scroll {
                assert forall|j: int| 0 <= j < state.column_widths@.len() implies #[trigger] state.column_widths@[j] <= 30 by {
                    assert(state.column_widths@[j] == auto_column_width(
                        texts_view(data.headers@),
                        rows_view(data.data_rows(no_header)),
                        j,
                    ));
                }
            }
        }
        state
    }

    /// The text that copying the current cell puts on the clipboard: its raw
    /// value (empty when there is no cell).
    pub fn copy_current_cell(&mut self) -> (text: String)
        requires
            old(self).wf(),
        ensures
            final(self).wf(),
            final(self).sheet_data.same_sheet(&old(self).sheet_data),
            *final(self) == (TuiState { sheet_data: final(self).sheet_data, ..*old(self) }),
            text@ == match cell_at(old(self).sheet_data.all_rows(), old(self).cursor_row as int, old(self).cursor_col as int) {
                Some(c) => raw_text(c),
                None => Seq::<char>::empty(),
            },
    {
        proof {
            crate::state::lemma_source_shape(self.sheet_data);
        }
        let (cell, _formula) = self.sheet_data.get_cell(self.cursor_row, self.cursor_col);
        match cell {
            Some(c) => c.to_raw_string(),
            None => String::new(),
        }
    }

    /// Leave the message for a finished copy of the current cell.
    pub fn cell_copied(&mut self, outcome: Result<(), String>)
        requires
            old(self).wf(),
        ensures
            final(self).wf(),
            final(self).copy_feedback matches Some(m) && m@ == cell_copied_text(
                col_letters(old(self).cursor_col as nat) + decimal((old(self).cursor_row + first_sheet_row(old(self).no_header)) as nat),
                outcome,
            ),
            *final(self) == (TuiState { copy_feedback: final(self).copy_feedback, ..*old(self) }),
    {
        let msg = match outcome {
            Ok(()) => {
                let mut m = string_of("Copied cell ");
                let address = self.current_cell_address();
                push_str(&mut m, address.as_str());
                m
            },
            Err(e) => {
                let mut m = string_of("Copy failed: ");
                push_str(&mut m, e.as_str());
                m
            },
        };
        self.copy_feedback = Some(msg);
    }

    /// The text that copying the current row puts on the clipboard: its
    /// cells' raw values, each quoted as CSV for a tab separator, joined by
    /// tabs (empty when there is no row).
    pub fn copy_current_row(&mut self) -> (text: String)
        requires
            old(self).wf(),
        ensures
            final(self).wf(),
            final(self).sheet_data.same_sheet(&old(self).sheet_data),
            *final(self) == (TuiState { sheet_data: final(self).sheet_data, ..*old(self) }),
            text@ == if old(self).cursor_row < old(self).height() {
                join(csv_cells(old(self).sheet_data.all_rows()[old(self).cursor_row as int], "\t"@), "\t"@)
            } else {
                Seq::<char>::empty()
            },
    {
        let ghost rows0 = self.sheet_data.all_rows();
        let (rows, _formulas) = self.sheet_data.get_rows(self.cursor_row, 1);
        proof {
            assert(rows_view(rows@).len() == rows@.len());
        }
        if rows.len() > 0 {
            proof {
                assert(rows_view(rows@)[0] == rows@[0]@);
                assert(rows_view(rows@)[0] == rows0[self.cursor_row as int]);
            }
            quoted_row(&rows[0], "\t")
        } else {
            String::new()
        }
    }

    /// Leave the message for a finished copy of the current row.
    pub fn row_copied(&mut self, outcome: Result<(), String>)
        requires
            old(self).wf(),
        ensures
            final(self).wf(),
            final(self).copy_feedback matches Some(m) && m@ == row_copied_text(
                (old(self).cursor_row + first_sheet_row(old(self).no_header)) as nat,
                old(self).width(),
                outcome,
            ),
            *final(self) == (TuiState { copy_feedback: final(self).copy_feedback, ..*old(self) }),
    {
        let msg = match outcome {
            Ok(()) => {
                let mut m = string_of("Copied row ");
                let row = self.data_row_to_sheet_row(self.cursor_row);
                push_decimal(&mut m, row as u64);
                push_str(&mut m, " (");
                push_decimal(&mut m, self.sheet_data.width() as u64);
                push_str(&mut m, " cells)");
                m
            },
            Err(e) => {
                let mut m = string_of("Copy failed: ");
                push_str(&mut m, e.as_str());
                m
            },
        };
        self.copy_feedback = Some(msg);
    }
}

} // verus!
