//! The arithmetic behind the viewer's screen: how many lines wrapped text
//! takes, shortened titles, and the sizes and texts of the screen's parts.

use vstd::prelude::*;
use crate::cell::{display_text, raw_text, CellValue};
use crate::progress::{spec_percentage, ProgressInfo};
use crate::sheet::texts_view;
use crate::state::{first_sheet_row, in_reading_order, position_before, TuiState};
use crate::viewer::cell_at;
use crate::theme::theme_name;
use crate::utils::col_letters;
use crate::viewer::columns_end;
use crate::cell::find_char_from;
use crate::text::{string_from, chars_of, decimal, push_char, push_decimal, push_str, string_of, u64_to_string};

verus! {

// ===== Wrapping =====

/// The pieces of a text between line breaks (`str::split('\n')`): one more
/// piece than there are line breaks.
pub open spec fn split_lines(s: Seq<char>) -> Seq<Seq<char>>
    decreases s.len(),
{
    if s.len() == 0 {
        seq![Seq::<char>::empty()]
    } else {
        let p = split_lines(s.drop_last());
        if s.last() == '\n' {
            p.push(Seq::<char>::empty())
        } else {
            p.update(p.len() - 1, p.last().push(s.last()))
        }
    }
}

/// The words of a line, each with the space that ends it
/// (`str::split_inclusive(' ')`); none for an empty line.
pub open spec fn words_inclusive(s: Seq<char>) -> Seq<Seq<char>>
    decreases s.len(),
{
    if s.len() == 0 {
        Seq::empty()
    } else {
        let p = words_inclusive(s.drop_last());
        if p.len() > 0 && p.last().last() != ' ' {
            p.update(p.len() - 1, p.last().push(s.last()))
        } else {
            p.push(seq![s.last()])
        }
    }
}

/// Laying out words of the given lengths on lines `width` wide: the
/// columns used on the last line and the number of lines. A word goes on the
/// current line when it fits, else starts a new one; a word wider than a
/// line is broken across lines.
pub open spec fn wrap_words(lens: Seq<nat>, width: nat) -> (nat, nat)
    decreases lens.len(),
{
    if lens.len() == 0 {
        (0, 1)
    } else {
        let prev = wrap_words(lens.drop_last(), width);
        let cur = prev.0;
        let lines = prev.1;
        let w = lens.last();
        if w > width {
            let started = if cur > 0 { lines + 1 } else { lines };
            let full = w / width;
            let rem = w % width;
            (if rem == 0 { width } else { rem }, if rem == 0 { (started + full - 1) as nat } else { started + full })
        } else if cur + w > width {
            (w, lines + 1)
        } else {
            (cur + w, lines)
        }
    }
}

/// The lengths of the words of a line.
pub open spec fn word_lengths(line: Seq<char>) -> Seq<nat> {
    words_inclusive(line).map_values(|w: Seq<char>| w.len())
}

/// The lines one piece of text (without line breaks) takes.
pub open spec fn line_rows(line: Seq<char>, width: nat) -> nat {
    if line.len() == 0 { 1 } else { wrap_words(word_lengths(line), width).1 }
}

/// The lines the first `n` pieces take.
pub open spec fn rows_upto(lines: Seq<Seq<char>>, width: nat, n: int) -> nat
    decreases n,
{
    if n <= 0 { 0 } else { rows_upto(lines, width, n - 1) + line_rows(lines[n - 1], width) }
}

/// The lines `text` takes when wrapped to `width` columns (a width of 0
/// counts as 1): explicit line breaks are kept, words wrap, words longer
/// than a line are broken; at least 1.
pub open spec fn wrapped_lines(text: Seq<char>, width: nat) -> nat {
    let w = if width == 0 { 1 } else { width };
    let pieces = split_lines(text);
    let total = rows_upto(pieces, w, pieces.len() as int);
    if total == 0 { 1 } else { total }
}

proof fn lemma_split_lines_prefix(s: Seq<char>, k: int)
    requires
        0 < k <= s.len(),
        s[k - 1] == '\n',
    ensures
        split_lines(s.take(k)) == split_lines(s.take(k - 1)).push(Seq::<char>::empty()),
{
    assert(s.take(k).drop_last() =~= s.take(k - 1));
}

proof fn lemma_words_len_pos(s: Seq<char>)
    ensures
        forall|i: int| 0 <= i < words_inclusive(s).len() ==> (#[trigger] words_inclusive(s)[i]).len() > 0,
        s.len() > 0 ==> words_inclusive(s).len() > 0,
    decreases s.len(),
{
    if s.len() > 0 {
        lemma_words_len_pos(s.drop_last());
        let p = words_inclusive(s.drop_last());
        assert forall|i: int| 0 <= i < words_inclusive(s).len() implies (#[trigger] words_inclusive(s)[i]).len() > 0 by {
            if i < p.len() && !(p.len() > 0 && p.last().last() != ' ' && i == p.len() - 1) {
                assert(words_inclusive(s)[i] == p[i]);
            }
        }
    }
}

/// Extending a line by a run without spaces (but possibly ending in one),
/// after a space or from its start, adds that run as one more word.
proof fn lemma_words_extend(s: Seq<char>, a: int, b: int)
    requires
        0 <= a < b <= s.len(),
        a == 0 || s[a - 1] == ' ',
        forall|i: int| a <= i < b - 1 ==> s[i] != ' ',
    ensures
        words_inclusive(s.take(b)) == words_inclusive(s.take(a)).push(s.subrange(a, b)),
    decreases b - a,
{
    let t = s.take(b);
    assert(t.drop_last() =~= s.take(b - 1));
    if b - 1 == a {
        let p = words_inclusive(s.take(a));
        if a > 0 {
            lemma_words_len_pos(s.take(a));
            lemma_words_last(s.take(a));
            assert(p.last().last() == ' ');
        }
        assert(seq![s[a]] =~= s.subrange(a, b));
    } else {
        lemma_words_extend(s, a, b - 1);
        let p = words_inclusive(s.take(b - 1));
        assert(p.last() == s.subrange(a, b - 1));
        assert(p.last().last() == s[b - 2]);
        assert(p.last().push(s[b - 1]) =~= s.subrange(a, b));
        assert(p.drop_last() == words_inclusive(s.take(a)));
        assert(p.update(p.len() - 1, s.subrange(a, b)) =~= words_inclusive(s.take(a)).push(s.subrange(a, b)));
    }
}

/// The last word of a non-empty line ends with the line's last character.
proof fn lemma_words_last(s: Seq<char>)
    requires
        s.len() > 0,
    ensures
        words_inclusive(s).len() > 0,
        words_inclusive(s).last().len() > 0,
        words_inclusive(s).last().last() == s.last(),
    decreases s.len(),
{
    lemma_words_len_pos(s);
    if s.len() > 1 {
        lemma_words_last(s.drop_last());
    }
}

/// A text with no line break from `a` to `b` extends the last piece.
proof fn lemma_split_lines_extend(s: Seq<char>, a: int, b: int)
    requires
        0 <= a <= b <= s.len(),
        forall|i: int| a <= i < b ==> s[i] != '\n',
    ensures
        split_lines(s.take(b)).len() == split_lines(s.take(a)).len(),
        split_lines(s.take(b)) == split_lines(s.take(a)).update(
            split_lines(s.take(a)).len() - 1,
            split_lines(s.take(a)).last() + s.subrange(a, b),
        ),
    decreases b - a,
{
    lemma_split_lines_nonempty(s.take(a));
    if b == a {
        assert(s.subrange(a, b) =~= Seq::<char>::empty());
        let p = split_lines(s.take(a));
        assert(p.last() + s.subrange(a, b) =~= p.last());
        assert(p.update(p.len() - 1, p.last()) =~= p);
    } else {
        lemma_split_lines_extend(s, a, b - 1);
        assert(s.take(b).drop_last() =~= s.take(b - 1));
        let p = split_lines(s.take(a));
        let q = split_lines(s.take(b - 1));
        assert(q.last() == p.last() + s.subrange(a, b - 1));
        assert(q.last().push(s[b - 1]) =~= p.last() + s.subrange(a, b));
        assert(q.update(q.len() - 1, q.last().push(s[b - 1])) =~= p.update(p.len() - 1, p.last() + s.subrange(a, b)));
    }
}

proof fn lemma_split_lines_nonempty(s: Seq<char>)
    ensures
        split_lines(s).len() > 0,
    decreases s.len(),
{
    if s.len() > 0 {
        lemma_split_lines_nonempty(s.drop_last());
    }
}

proof fn lemma_rows_upto_agree(s1: Seq<Seq<char>>, s2: Seq<Seq<char>>, w: nat, n: int)
    requires
        0 <= n <= s1.len(),
        n <= s2.len(),
        forall|i: int| 0 <= i < n ==> s1[i] == s2[i],
    ensures
        rows_upto(s1, w, n) == rows_upto(s2, w, n),
    decreases n,
{
    if n > 0 {
        lemma_rows_upto_agree(s1, s2, w, n - 1);
    }
}

proof fn lemma_find_from(s: Seq<char>, c: char, i: int)
    requires
        0 <= i <= s.len(),
    ensures
        i <= crate::cell::find_from(s, c, i) <= s.len(),
        forall|k: int| i <= k < crate::cell::find_from(s, c, i) ==> s[k] != c,
        crate::cell::find_from(s, c, i) < s.len() ==> s[crate::cell::find_from(s, c, i)] == c,
    decreases s.len() - i,
{
    if i < s.len() && s[i] != c {
        lemma_find_from(s, c, i + 1);
    }
}

/// Laying out one more word takes at most as many more lines as the word
/// has characters.
proof fn lemma_wrap_step_bound(cur: nat, lines: nat, w: nat, width: nat)
    requires
        width >= 1,
        w >= 1,
        w > width,
    ensures
        ({
            let started = if cur > 0 { lines + 1 } else { lines };
            let full = w / width;
            let rem = w % width;
            &&& full >= 1
            &&& (if rem == 0 { started + full - 1 } else { (started + full) as int }) <= lines + w
            &&& (if rem == 0 { width } else { rem }) <= width
        }),
{
    let full = w / width;
    let rem = w % width;
    vstd::arithmetic::div_mod::lemma_fundamental_div_mod(w as int, width as int);
    assert(w == width * full + rem && 0 <= rem < width);
    assert(full >= 1) by (nonlinear_arith)
        requires w > width, w == width * full + rem, 0 <= rem < width, width >= 1;
    if width == 1 {
        assert(full == w && rem == 0) by (nonlinear_arith)
            requires width == 1, w == width * full + rem, 0 <= rem < width;
    } else {
        assert(full * 2 <= w) by (nonlinear_arith)
            requires width >= 2, w == width * full + rem, 0 <= rem, full >= 1;
    }
}

/// The lines `v[a..b)` (a piece without line breaks) takes on lines `w` wide.
fn line_row_count(v: &Vec<char>, a: usize, b: usize, w: usize) -> (r: usize)
    requires
        a <= b <= v@.len(),
        v@.len() < usize::MAX,
        1 <= w <= u16::MAX,
    ensures
        r == line_rows(v@.subrange(a as int, b as int), w as nat),
        r <= 1 + (b - a),
{
    if a == b {
        return 1;
    }
    let ghost seg = v@.subrange(a as int, b as int);
    let mut cur: usize = 0;
    let mut lines: usize = 1;
    let mut ws = a;
    proof {
        assert(seg.take(0) =~= Seq::<char>::empty());
        assert(word_lengths(seg.take(0)) =~= Seq::<nat>::empty());
    }
    while ws < b
        invariant
            a <= ws <= b <= v@.len(),
            v@.len() < usize::MAX,
            seg == v@.subrange(a as int, b as int),
            1 <= w <= u16::MAX,
            ws == a || ws == b || v@[ws - 1] == ' ',
            (cur as nat, lines as nat) == wrap_words(word_lengths(seg.take(ws - a)), w as nat),
            lines <= 1 + (ws - a),
            cur <= w,
        decreases b - ws,
    {
        let p = find_char_from(v, ' ', ws);
        proof {
            lemma_find_from(v@, ' ', ws as int);
        }
        let we = if p < b { p + 1 } else { b };
        let wl = we - ws;
        proof {
            assert forall|i: int| (ws - a) <= i < (we - a) - 1 implies seg[i] != ' ' by {
                assert(seg[i] == v@[a + i]);
            }
            if ws > a {
                assert(seg[ws - a - 1] == v@[ws - 1]);
            }
            lemma_words_extend(seg, ws - a, we - a);
            let old_words = words_inclusive(seg.take(ws - a));
            assert(seg.subrange(ws - a, we - a).len() == wl);
            assert(word_lengths(seg.take(we - a)) =~= word_lengths(seg.take(ws - a)).push(wl as nat));
            assert(word_lengths(seg.take(we - a)).drop_last() =~= word_lengths(seg.take(ws - a)));
        }
        if wl > w {
            proof {
                lemma_wrap_step_bound(cur as nat, lines as nat, wl as nat, w as nat);
            }
            if cur > 0 {
                lines = lines + 1;
            }
            let full = wl / w;
            let rem = wl % w;
            if rem == 0 {
                lines = lines + (full - 1);
                cur = w;
            } else {
                lines = lines + full;
                cur = rem;
            }
        } else if wl > w - cur {
            cur = wl;
            lines = lines + 1;
        } else {
            cur = cur + wl;
        }
        ws = we;
    }
    proof {
        assert(seg.take(b - a) =~= seg);
    }
    lines
}

impl TuiState {
    /// How many lines `text` takes when wrapped to `width` columns (see
    /// `wrapped_lines`), measured in characters.
    pub fn wrapped_line_count(text: &str, width: u16) -> (n: usize)
        requires
            text@.len() < usize::MAX,
        ensures
            n == wrapped_lines(text@, width as nat),
    {
        let w: usize = if width == 0 { 1 } else { width as usize };
        let v = chars_of(text);
        let ghost s = v@;
        let mut lines: usize = 0;
        let mut start: usize = 0;
        proof {
            assert(s.take(0) =~= Seq::<char>::empty());
        }
        loop
            invariant_except_break
                split_lines(s.take(start as int)).len() > 0,
                split_lines(s.take(start as int)).last() == Seq::<char>::empty(),
                lines == rows_upto(split_lines(s.take(start as int)), w as nat, split_lines(s.take(start as int)).len() - 1),
                lines <= start,
            invariant
                s == v@,
                s == text@,
                s.len() < usize::MAX,
                1 <= w <= u16::MAX,
                w == if width == 0 { 1 } else { width as nat },
                start <= s.len(),
            ensures
                lines == rows_upto(split_lines(s), w as nat, split_lines(s).len() as int),
            decreases s.len() - start,
        {
            let e = find_char_from(&v, '\n', start);
            proof {
                lemma_find_from(s, '\n', start as int);
            }
            let r = line_row_count(&v, start, e, w);
            let ghost p = split_lines(s.take(start as int));
            let ghost q = split_lines(s.take(e as int));
            proof {
                lemma_split_lines_extend(s, start as int, e as int);
                assert(p.last() + s.subrange(start as int, e as int) =~= s.subrange(start as int, e as int));
                lemma_rows_upto_agree(p, q, w as nat, p.len() - 1);
                assert(rows_upto(q, w as nat, q.len() as int) == lines + r);
            }
            lines = lines + r;
            if e == v.len() {
                proof {
                    assert(s.take(e as int) =~= s);
                }
                break;
            }
            proof {
                lemma_split_lines_prefix(s, e + 1);
                let q2 = split_lines(s.take(e + 1));
                lemma_rows_upto_agree(q, q2, w as nat, q.len() as int);
            }
            start = e + 1;
        }
        if lines == 0 { 1 } else { lines }
    }
}

// ===== Shortened titles =====

/// `text` cut to at most `max` characters, ending in `…` when characters
/// were dropped (nothing at all for 0).
pub open spec fn truncated(text: Seq<char>, max: nat) -> Seq<char> {
    if max == 0 {
        Seq::empty()
    } else if text.len() <= max {
        text
    } else if max == 1 {
        seq!['\u{2026}']
    } else {
        text.take(max - 1).push('\u{2026}')
    }
}

impl TuiState {
    /// Truncate `text` to at most `max` characters, appending `…` when
    /// characters are dropped.
    pub fn truncate_with_ellipsis(text: &str, max: usize) -> (s: String)
        ensures
            s@ == truncated(text@, max as nat),
    {
        if max == 0 {
            return String::new();
        }
        let v = chars_of(text);
        if v.len() <= max {
            return text.to_string();
        }
        let mut s = String::new();
        let mut i: usize = 0;
        while i < max - 1
            invariant
                v@ == text@,
                max < v@.len(),
                i <= max - 1,
                s@ == v@.take(i as int),
            decreases max - 1 - i,
        {
            push_char(&mut s, v[i]);
            i = i + 1;
            proof {
                assert(s@ =~= v@.take(i as int));
            }
        }
        push_char(&mut s, '\u{2026}');
        proof {
            if max == 1 {
                assert(s@ =~= seq!['\u{2026}']);
            }
        }
        s
    }
}

// ===== Screen parts =====

/// The status bar's text: the current cell's display value followed by a
/// space, or `(empty)`.
pub open spec fn status_text_of(value: Seq<char>) -> Seq<char> {
    if value.len() == 0 { "(empty)"@ } else { value.push(' ') }
}

/// Sizes of the screen's parts that follow from the terminal size and the
/// status text: rows of sticky headers above the table, the least height the
/// table gets, the status bar's height, and whether the status text is cut.
pub struct ScreenLayout {
    pub header_rows: u16,
    pub min_table_height: u16,
    pub status_height: u16,
    pub status_truncated: bool,
}

/// The number of sticky header rows: the column-letter row and the title
/// row, each unless hidden.
pub open spec fn header_row_count(no_column_id: bool, no_header: bool) -> u16 {
    ((if no_column_id { 0int } else { 1int }) + (if no_header { 0int } else { 1int })) as u16
}

/// The screen layout for a terminal `width` × `height`: the table keeps its
/// borders, header rows and one data row, the info bar one line; the status
/// bar grows with its wrapped text up to 3/4 of the terminal and what is left.
pub open spec fn screen_layout(width: u16, height: u16, status_lines: nat, no_column_id: bool, no_header: bool) -> (u16, u16, u16, bool) {
    let hrc = header_row_count(no_column_id, no_header);
    let min_table = 2 + hrc + 1;
    let reserved = min_table + 1;
    let cap = if height > reserved { (height - reserved) as u16 } else { 1u16 };
    let cap = if cap == 0 { 1u16 } else { cap };
    let three_quarters = (height * 3 / 4) as nat;
    let tq = if three_quarters == 0 { 1 } else { three_quarters };
    let max_status = if tq <= cap { tq } else { cap as nat };
    let wrapped = status_lines as u16;
    let wanted = if wrapped == 0 { 1 } else { wrapped };
    let status_height = if wanted <= max_status { wanted } else { max_status as u16 };
    (hrc, min_table as u16, status_height, wrapped > status_height)
}

/// Lay out the screen (see `screen_layout`).
pub fn layout_screen(width: u16, height: u16, status: &str, no_column_id: bool, no_header: bool) -> (l: ScreenLayout)
    requires
        status@.len() < usize::MAX,
    ensures
        ({
            let e = screen_layout(width, height, wrapped_lines(status@, width as nat), no_column_id, no_header);
            &&& l.header_rows == e.0
            &&& l.min_table_height == e.1
            &&& l.status_height == e.2
            &&& l.status_truncated == e.3
        }),
{
    let hrc: u16 = (if no_column_id { 0u16 } else { 1u16 }) + (if no_header { 0u16 } else { 1u16 });
    let min_table: u16 = 2 + hrc + 1;
    let reserved: u16 = min_table + 1;
    let cap0: u16 = if height > reserved { height - reserved } else { 1 };
    let cap: u16 = if cap0 == 0 { 1 } else { cap0 };
    let three_quarters: usize = (height as usize) * 3 / 4;
    let tq: usize = if three_quarters == 0 { 1 } else { three_quarters };
    let max_status: u16 = if tq <= cap as usize { tq as u16 } else { cap };
    let lines = TuiState::wrapped_line_count(status, width);
    let wrapped: u16 = lines as u16;
    let wanted: u16 = if wrapped == 0 { 1 } else { wrapped };
    let status_height: u16 = if wanted <= max_status { wanted } else { max_status };
    ScreenLayout { header_rows: hrc, min_table_height: min_table, status_height, status_truncated: wrapped > status_height }
}

/// The rows of data the table shows and the columns of text it has room for,
/// inside a table area `height` × `width`: without the borders and the
/// sticky header rows.
pub open spec fn table_viewport(height: u16, width: u16, header_rows: u16) -> (nat, nat) {
    let h = if height >= 2 { height - 2 } else { 0 };
    let h = if h >= header_rows { h - header_rows } else { 0 };
    (h as nat, if width >= 2 { (width - 2) as nat } else { 0 })
}

pub fn viewport_of(height: u16, width: u16, header_rows: u16) -> (v: (usize, usize))
    ensures
        v.0 as nat == table_viewport(height, width, header_rows).0,
        v.1 as nat == table_viewport(height, width, header_rows).1,
{
    let h: u16 = if height >= 2 { height - 2 } else { 0 };
    let h: u16 = if h >= header_rows { h - header_rows } else { 0 };
    (h as usize, if width >= 2 { (width - 2) as usize } else { 0 })
}

/// `s` right-aligned in a field `n` characters wide.
pub open spec fn pad_left(s: Seq<char>, n: nat) -> Seq<char> {
    if s.len() >= n { s } else { Seq::new((n - s.len()) as nat, |i: int| ' ') + s }
}

/// The row-number gutter's text for sheet row `n`: the number right-aligned
/// in 4 characters, then a space.
pub open spec fn gutter_text(n: nat) -> Seq<char> {
    pad_left(decimal(n), 4).push(' ')
}

pub fn gutter(n: usize) -> (s: String)
    ensures
        s@ == gutter_text(n as nat),
{
    let digits = u64_to_string(n as u64);
    let len = char_count_of(&digits);
    let mut s = String::new();
    let mut k: usize = len;
    while k < 4
        invariant
            len == decimal(n as nat).len(),
            len <= k <= 4 || (len > 4 && k == len),
            s@ == Seq::new((k - len) as nat, |i: int| ' '),
        decreases 4 - k,
    {
        push_char(&mut s, ' ');
        k = k + 1;
        proof {
            assert(s@ =~= Seq::new((k - len) as nat, |i: int| ' '));
        }
    }
    push_str(&mut s, digits.as_str());
    push_char(&mut s, ' ');
    proof {
        if len >= 4 {
            assert(s@ =~= decimal(n as nat).push(' '));
        } else {
            assert(s@ =~= (Seq::new((4 - len) as nat, |i: int| ' ') + decimal(n as nat)).push(' '));
        }
    }
    s
}

fn char_count_of(s: &String) -> (n: usize)
    ensures
        n == s@.len(),
{
    let v = chars_of(s.as_str());
    v.len()
}

/// How a table cell is highlighted.
#[derive(Debug, Clone, Copy, PartialEq, Eq, Structural)]
pub enum Highlight {
    /// The search match that is current.
    CurrentMatch,
    /// The cell under the cursor.
    CurrentCell,
    /// Another search match.
    SearchMatch,
    /// Another cell of the cursor's row.
    CurrentRow,
    /// Another cell of the cursor's column.
    CurrentColumn,
    Plain,
}

/// The highlight of the cell at data row `r`, column `c`, by precedence:
/// current match, cursor cell, other match, cursor row, cursor column.
pub open spec fn cell_highlight(s: TuiState, r: usize, c: usize) -> Highlight {
    let current_match = s.current_match_index matches Some(i) && i < s.search_matches@.len()
        && s.search_matches@[i as int] == (r, c);
    if current_match {
        Highlight::CurrentMatch
    } else if r == s.cursor_row && c == s.cursor_col {
        Highlight::CurrentCell
    } else if s.search_matches@.contains((r, c)) {
        Highlight::SearchMatch
    } else if r == s.cursor_row {
        Highlight::CurrentRow
    } else if c == s.cursor_col {
        Highlight::CurrentColumn
    } else {
        Highlight::Plain
    }
}

/// The width of a table column: fixed, or an equal share of the width left
/// (one part of `n`).
#[derive(Debug, Clone, Copy, PartialEq, Eq, Structural)]
pub enum ColumnSize {
    Fixed(u16),
    Share(u32),
}

/// One past the last column that fits a viewport (see `columns_end`).
fn visible_end(widths: &Vec<usize>, start: usize, viewport_width: usize) -> (e: usize)
    requires
        viewport_width <= u16::MAX,
        forall|j: int| 0 <= j < widths@.len() ==> #[trigger] widths@[j] <= 30,
    ensures
        e == columns_end(widths@, start as int, 0, viewport_width as int),
{
    let mut total: usize = 0;
    let mut end = start;
    let mut i = start;
    while i < widths.len()
        invariant_except_break
            start <= i,
            i == start || i <= widths@.len(),
            total <= viewport_width,
            columns_end(widths@, start as int, 0, viewport_width as int) == columns_end(widths@, i as int, total as int, viewport_width as int),
            end == i,
        invariant
            viewport_width <= u16::MAX,
            forall|j: int| 0 <= j < widths@.len() ==> #[trigger] widths@[j] <= 30,
        ensures
            end == columns_end(widths@, start as int, 0, viewport_width as int),
        decreases widths.len() - i,
    {
        let w = widths[i];
        total = total + w + 1;
        end = i + 1;
        if total > viewport_width {
            break;
        }
        i = i + 1;
    }
    end
}

impl TuiState {
    /// The range of columns shown: from the horizontal scroll offset to the
    /// last column that fits `viewport_width` when scrolling horizontally,
    /// else all columns.
    pub fn visible_columns(&self, viewport_width: usize) -> (r: (usize, usize))
        requires
            self.wf(),
            viewport_width <= u16::MAX,
        ensures
            r == if self.horizontal_scroll_enabled {
                (self.horizontal_scroll_offset, columns_end(self.column_widths@, self.horizontal_scroll_offset as int, 0, viewport_width as int) as usize)
            } else {
                (0usize, self.width() as usize)
            },
    {
        if self.horizontal_scroll_enabled {
            (self.horizontal_scroll_offset, visible_end(&self.column_widths, self.horizontal_scroll_offset, viewport_width))
        } else {
            (0, self.sheet_data.width())
        }
    }

    /// The highlight of the cell at data row `row`, column `col` (see
    /// `cell_highlight`). The matches are kept in reading order, so finding
    /// one is a binary search.
    #[verifier::loop_isolation(false)]
    pub fn highlight(&self, row: usize, col: usize) -> (h: Highlight)
        requires
            self.wf(),
        ensures
            h == cell_highlight(*self, row, col),
    {
        let current_match = match self.current_match_index {
            Some(i) => i < self.search_matches.len() && self.search_matches[i].0 == row && self.search_matches[i].1 == col,
            None => false,
        };
        if current_match {
            return Highlight::CurrentMatch;
        }
        if row == self.cursor_row && col == self.cursor_col {
            return Highlight::CurrentCell;
        }
        let n = self.search_matches.len();
        let ghost m = self.search_matches@;
        let ghost target = (row, col);
        let mut lo: usize = 0;
        let mut hi: usize = n;
        while lo < hi
            invariant
                lo <= hi <= n,
                n == m.len(),
                m == self.search_matches@,
                target == (row, col),
                in_reading_order(m),
                forall|k: int| 0 <= k < lo ==> position_before(#[trigger] m[k], target),
                forall|k: int| hi <= k < n ==> position_before(target, #[trigger] m[k]),
            decreases hi - lo,
        {
            let mid = lo + (hi - lo) / 2;
            let (r, c) = self.search_matches[mid];
            if r == row && c == col {
                proof {
                    assert(m[mid as int] == target);
                    assert(m.contains(target));
                }
                return Highlight::SearchMatch;
            } else if r < row || (r == row && c < col) {
                proof {
                    assert(position_before(m[mid as int], target));
                    assert forall|k: int| 0 <= k < mid + 1 implies position_before(#[trigger] m[k], target) by {
                        if k < mid {
                            assert(position_before(m[k], m[mid as int]));
                        }
                    }
                }
                lo = mid + 1;
            } else {
                proof {
                    assert(position_before(target, m[mid as int]));
                    assert forall|k: int| mid <= k < n implies position_before(target, #[trigger] m[k]) by {
                        if k > mid {
                            assert(position_before(m[mid as int], m[k]));
                        }
                    }
                }
                hi = mid;
            }
        }
        proof {
            assert(!m.contains(target)) by {
                if m.contains(target) {
                    let k = choose|k: int| 0 <= k < m.len() && m[k] == target;
                    if k < lo {
                        assert(position_before(m[k], target));
                    } else {
                        assert(position_before(target, m[k]));
                    }
                }
            }
        }
        if row == self.cursor_row {
            Highlight::CurrentRow
        } else if col == self.cursor_col {
            Highlight::CurrentColumn
        } else {
            Highlight::Plain
        }
    }

    /// The table's column widths: 5 for the row-number gutter (unless
    /// hidden), then the visible columns' widths when scrolling horizontally,
    /// else an equal share for every column.
    pub fn column_sizes(&self, start: usize, end: usize) -> (v: Vec<ColumnSize>)
        requires
            self.wf(),
            self.horizontal_scroll_enabled ==> start <= end <= self.column_widths@.len(),
        ensures
            ({
                let gutter = if self.no_row_id { 0int } else { 1int };
                let n = if self.horizontal_scroll_enabled { end - start } else { self.width() as int };
                &&& v@.len() == gutter + n
                &&& !self.no_row_id ==> v@[0] == ColumnSize::Fixed(5)
                &&& forall|k: int| gutter <= k < gutter + n ==> #[trigger] v@[k] == if self.horizontal_scroll_enabled {
                    ColumnSize::Fixed(self.column_widths@[start + (k - gutter)] as u16)
                } else {
                    ColumnSize::Share(self.width() as u32)
                }
            }),
    {
        let mut v: Vec<ColumnSize> = Vec::new();
        if !self.no_row_id {
            v.push(ColumnSize::Fixed(5));
        }
        let ghost g: int = if self.no_row_id { 0int } else { 1int };
        if self.horizontal_scroll_enabled {
            let mut i = start;
            while i < end
                invariant
                    start <= i <= end <= self.column_widths@.len(),
                    v@.len() == g + (i - start),
                    !self.no_row_id ==> v@[0] == ColumnSize::Fixed(5),
                    g == if self.no_row_id { 0int } else { 1int },
                    forall|k: int| g <= k < g + (i - start) ==> #[trigger] v@[k] == ColumnSize::Fixed(self.column_widths@[start + (k - g)] as u16),
                decreases end - i,
            {
                v.push(ColumnSize::Fixed(self.column_widths[i] as u16));
                i = i + 1;
            }
        } else {
            let w = self.sheet_data.width();
            let share: u32 = w as u32;
            let mut i: usize = 0;
            while i < w
                invariant
                    i <= w,
                    w == self.width(),
                    share == w as u32,
                    v@.len() == g + i,
                    !self.no_row_id ==> v@[0] == ColumnSize::Fixed(5),
                    g == if self.no_row_id { 0int } else { 1int },
                    forall|k: int| g <= k < g + i ==> #[trigger] v@[k] == ColumnSize::Share(share),
                decreases w - i,
            {
                v.push(ColumnSize::Share(share));
                i = i + 1;
            }
        }
        v
    }
}

// ===== Titles and the info bar =====

/// The table's size in the top border: `rows×columns`, and, when scrolled
/// horizontally, the headers of the first and last visible columns.
pub open spec fn dims_text(s: TuiState, start: int, end: int) -> Seq<char> {
    let size = decimal(s.height()) + "\u{d7}"@ + decimal(s.width());
    if s.horizontal_scroll_enabled && s.horizontal_scroll_offset > 0 {
        let h = s.sheet_data.spec_headers();
        let last = if end >= 1 { end - 1 } else { 0 };
        let first_name = if 0 <= start < h.len() { h[start] } else { "?"@ };
        let last_name = if 0 <= last < h.len() { h[last] } else { "?"@ };
        size + " ("@ + first_name + "-"@ + last_name + ")"@
    } else {
        size
    }
}

/// The sheet's name for the top border, with its position when there are
/// several sheets.
pub open spec fn sheet_title_text(s: TuiState) -> Seq<char> {
    let name = s.sheet_names@[s.current_sheet_index as int]@;
    if s.sheet_names@.len() > 1 {
        name + " ("@ + decimal((s.current_sheet_index + 1) as nat) + "/"@ + decimal(s.sheet_names@.len()) + ")"@
    } else {
        name
    }
}

/// The titles on the table's top border: the sheet name on the left, cut to
/// leave room for the size (and to at most 3/4 of the terminal), omitted
/// when nothing of it fits; the size on the right, when it fits.
pub open spec fn border_titles_of(name: Seq<char>, dims: Seq<char>, area_width: u16, border_width: nat) -> (Option<Seq<char>>, Option<Seq<char>>) {
    let dims_len = dims.len() + 2;
    let three_quarters = (area_width * 3 / 4) as nat;
    let cap = if three_quarters <= border_width { three_quarters } else { border_width };
    let room = if border_width >= dims_len + 1 { (border_width - (dims_len + 1)) as nat } else { 0 };
    let budget0 = if room <= cap { room } else { cap };
    let budget = if budget0 >= 2 { (budget0 - 2) as nat } else { 0 };
    let title = truncated(name, budget);
    (
        if title.len() > 0 { Some(seq![' '] + title + seq![' ']) } else { None },
        if dims_len <= border_width { Some(seq![' '] + dims + seq![' ']) } else { None },
    )
}

/// `text` with a space on each side.
fn spaced(text: &str) -> (s: String)
    ensures
        s@ == seq![' '] + text@ + seq![' '],
{
    let mut s = String::new();
    push_char(&mut s, ' ');
    push_str(&mut s, text);
    push_char(&mut s, ' ');
    proof {
        assert(s@ =~= seq![' '] + text@ + seq![' ']);
    }
    s
}

/// The titles on the table's top border (see `border_titles_of`).
pub fn border_titles(name: &str, dims: &str, area_width: u16, border_width: usize) -> (t: (Option<String>, Option<String>))
    requires
        dims@.len() + 3 <= usize::MAX,
    ensures
        ({
            let e = border_titles_of(name@, dims@, area_width, border_width as nat);
            &&& (t.0 matches Some(x) ==> e.0 == Some(x@)) && (t.0 is None ==> e.0 is None)
            &&& (t.1 matches Some(x) ==> e.1 == Some(x@)) && (t.1 is None ==> e.1 is None)
        }),
{
    let dims_len = char_count_of(&dims.to_string()) + 2;
    let three_quarters: usize = (area_width as usize) * 3 / 4;
    let cap = if three_quarters <= border_width { three_quarters } else { border_width };
    let room = if border_width >= dims_len + 1 { border_width - (dims_len + 1) } else { 0 };
    let budget0 = if room <= cap { room } else { cap };
    let budget = if budget0 >= 2 { budget0 - 2 } else { 0 };
    let title = TuiState::truncate_with_ellipsis(name, budget);
    let left = if char_count_of(&title) > 0 { Some(spaced(title.as_str())) } else { None };
    let right = if dims_len <= border_width { Some(spaced(dims)) } else { None };
    (left, right)
}

/// The key hints shown on the right of the info bar.
pub open spec fn hints_text(s: TuiState, matches: bool) -> Seq<char> {
    theme_name(s.current_theme) + if matches {
        " | n:next N:prev Esc:clear ?:help q:quit "@
    } else {
        " | t:theme /:search ?:help q:quit "@
    }
}

/// The info bar's left and right texts: the progress of a running
/// operation; or the jump being typed; or the cell address and the search
/// being typed; or the current match's position and the address; or just
/// the address. Key hints go right, except for progress and jumps.
pub open spec fn info_bar_texts(s: TuiState) -> (Seq<char>, Seq<char>) {
    let addr = col_letters(s.cursor_col as nat) + decimal((s.cursor_row + first_sheet_row(s.no_header)) as nat);
    match s.progress {
        Some(p) => (" \u{23f3} "@ + progress_text(p) + " "@, Seq::empty()),
        None => if s.jump_mode {
            (" Jump: "@ + s.jump_input@ + " "@, Seq::empty())
        } else if s.search_mode {
            (" "@ + addr + " | "@ + s.search_query@ + " "@, hints_text(s, false))
        } else {
            match s.current_match_index {
                Some(i) => (" Match "@ + decimal((i + 1) as nat) + "/"@ + decimal(s.search_matches@.len()) + " | "@ + addr + " "@, hints_text(s, true)),
                None => (" "@ + addr + " "@, hints_text(s, false)),
            }
        },
    }
}

/// How a progress report reads: the message, the percentage, and the count.
pub open spec fn progress_text(p: ProgressInfo) -> Seq<char> {
    p.message@ + seq![' '] + decimal(spec_percentage(p.current, p.total)) + seq!['%', ' ', '('] + decimal(p.current as nat)
        + seq!['/'] + decimal(p.total as nat) + seq![')']
}

impl TuiState {
    /// The size shown in the table's top border (see `dims_text`).
    pub fn sheet_dims(&self, start: usize, end: usize) -> (t: String)
        requires
            self.wf(),
        ensures
            t@ == dims_text(*self, start as int, end as int),
    {
        let mut t = String::new();
        push_decimal(&mut t, self.sheet_data.height() as u64);
        push_str(&mut t, "\u{d7}");
        push_decimal(&mut t, self.sheet_data.width() as u64);
        if self.horizontal_scroll_enabled && self.horizontal_scroll_offset > 0 {
            let headers = self.sheet_data.headers();
            let last = if end >= 1 { end - 1 } else { 0 };
            push_str(&mut t, " (");
            if start < headers.len() {
                push_str(&mut t, headers[start].as_str());
            } else {
                push_str(&mut t, "?");
            }
            push_str(&mut t, "-");
            if last < headers.len() {
                push_str(&mut t, headers[last].as_str());
            } else {
                push_str(&mut t, "?");
            }
            push_str(&mut t, ")");
            proof {
                assert(texts_view(headers@).len() == headers@.len());
                if start < headers@.len() {
                    assert(texts_view(headers@)[start as int] == headers@[start as int]@);
                }
                if last < headers@.len() {
                    assert(texts_view(headers@)[last as int] == headers@[last as int]@);
                }
            }
        }
        t
    }

    /// The sheet's title for the table's top border (see `sheet_title_text`).
    pub fn sheet_title(&self) -> (t: String)
        requires
            self.wf(),
        ensures
            t@ == sheet_title_text(*self),
    {
        let mut t = self.sheet_names[self.current_sheet_index].clone();
        if self.sheet_names.len() > 1 {
            push_str(&mut t, " (");
            push_decimal(&mut t, (self.current_sheet_index + 1) as u64);
            push_str(&mut t, "/");
            push_decimal(&mut t, self.sheet_names.len() as u64);
            push_str(&mut t, ")");
        }
        t
    }

    /// The info bar's texts (see `info_bar_texts`).
    pub fn info_bar(&self) -> (t: (String, String))
        requires
            self.wf(),
            self.progress matches Some(p) ==> p.current * 100 <= usize::MAX,
        ensures
            t.0@ == info_bar_texts(*self).0,
            t.1@ == info_bar_texts(*self).1,
    {
        match &self.progress {
            Some(p) => {
                let mut l = string_of(" \u{23f3} ");
                push_str(&mut l, p.format().as_str());
                push_str(&mut l, " ");
                return (l, String::new());
            },
            None => {},
        }
        if self.jump_mode {
            let mut l = string_of(" Jump: ");
            push_str(&mut l, self.jump_input.as_str());
            push_str(&mut l, " ");
            return (l, String::new());
        }
        let addr = self.current_cell_address();
        let mut hints = string_of(self.current_theme.name());
        if self.search_mode {
            let mut l = string_of(" ");
            push_str(&mut l, addr.as_str());
            push_str(&mut l, " | ");
            push_str(&mut l, self.search_query.as_str());
            push_str(&mut l, " ");
            push_str(&mut hints, " | t:theme /:search ?:help q:quit ");
            return (l, hints);
        }
        let n = self.search_matches.len();
        match self.current_match_index {
            Some(i) => {
                assert(i < n);
                let mut l = string_of(" Match ");
                push_decimal(&mut l, (i + 1) as u64);
                push_str(&mut l, "/");
                push_decimal(&mut l, self.search_matches.len() as u64);
                push_str(&mut l, " | ");
                push_str(&mut l, addr.as_str());
                push_str(&mut l, " ");
                push_str(&mut hints, " | n:next N:prev Esc:clear ?:help q:quit ");
                (l, hints)
            },
            None => {
                let mut l = string_of(" ");
                push_str(&mut l, addr.as_str());
                push_str(&mut l, " ");
                push_str(&mut hints, " | t:theme /:search ?:help q:quit ");
                (l, hints)
            },
        }
    }
}

// ===== Popups =====

/// Where a popup goes and what it shows: its area, the first line shown,
/// and the scroll indicator for its title (` [line/last]`), when its content
/// is taller than the popup.
pub struct PopupLayout {
    pub x: u16,
    pub y: u16,
    pub width: u16,
    pub height: u16,
    pub scroll: usize,
    pub indicator: Option<String>,
}

/// The lines the first `n` lines of a popup take, wrapped to `width`
/// (counted up to `usize::MAX - 1`).
pub open spec fn popup_rows(lines: Seq<Seq<char>>, width: nat, n: int) -> nat
    decreases n,
{
    if n <= 0 {
        0
    } else {
        let t = popup_rows(lines, width, n - 1) + wrapped_lines(lines[n - 1], width);
        if t < usize::MAX { t } else { (usize::MAX - 1) as nat }
    }
}

/// A popup `popup_width` wide centered in a `area_width` × `area_height`
/// terminal, as tall as its wrapped content plus borders (at most the
/// terminal less 2), scrolled to `scroll` but never past its last line.
/// Returns (x, y, height, scroll, the indicator's line and last line).
pub open spec fn popup_geometry(total: nat, popup_width: u16, area_width: u16, area_height: u16, scroll: nat) -> (u16, u16, u16, nat, Option<(nat, nat)>) {
    let limit = if area_height >= 2 { (area_height - 2) as nat } else { 0 };
    let height = (if total + 2 <= limit { total + 2 } else { limit }) as u16;
    let content = if height >= 2 { (height - 2) as nat } else { 0 };
    let max_scroll = if total >= content { (total - content) as nat } else { 0 };
    let sc = if scroll <= max_scroll { scroll } else { max_scroll };
    let x = ((if area_width >= popup_width { area_width - popup_width } else { 0 }) / 2) as u16;
    let y = ((if area_height >= height { area_height - height } else { 0 }) / 2) as u16;
    (x, y, height, sc, if total > content { Some((sc + 1, max_scroll + 1)) } else { None })
}

/// `p` lays out a popup showing `lines` (see `popup_geometry`).
pub open spec fn popup_is(p: PopupLayout, lines: Seq<Seq<char>>, popup_width: u16, area_width: u16, area_height: u16, scroll: nat) -> bool {
    let total = popup_rows(lines, (if popup_width >= 2 { popup_width - 2 } else { 0 }) as nat, lines.len() as int);
    let g = popup_geometry(total, popup_width, area_width, area_height, scroll);
    &&& p.x == g.0
    &&& p.y == g.1
    &&& p.width == popup_width
    &&& p.height == g.2
    &&& p.scroll == g.3
    &&& match g.4 {
        Some((a, b)) => p.indicator matches Some(t) && t@ == " ["@ + decimal(a) + "/"@ + decimal(b) + "]"@,
        None => p.indicator is None,
    }
}

/// Lay out a popup showing `lines` (see `popup_geometry`).
pub fn popup_layout(lines: &Vec<String>, popup_width: u16, area_width: u16, area_height: u16, scroll: usize) -> (p: PopupLayout)
    requires
        forall|i: int| 0 <= i < lines@.len() ==> (#[trigger] lines@[i])@.len() < usize::MAX,
    ensures
        popup_is(p, texts_view(lines@), popup_width, area_width, area_height, scroll as nat),
{
    let content_width: u16 = if popup_width >= 2 { popup_width - 2 } else { 0 };
    let ghost texts = texts_view(lines@);
    let mut total: usize = 0;
    let mut i: usize = 0;
    while i < lines.len()
        invariant
            i <= lines@.len(),
            texts == texts_view(lines@),
            forall|k: int| 0 <= k < lines@.len() ==> (#[trigger] lines@[k])@.len() < usize::MAX,
            total == popup_rows(texts, content_width as nat, i as int),
            total < usize::MAX,
        decreases lines.len() - i,
    {
        let n = TuiState::wrapped_line_count(lines[i].as_str(), content_width);
        proof {
            assert(texts[i as int] == lines@[i as int]@);
        }
        total = if n < usize::MAX - total { total + n } else { usize::MAX - 1 };
        i = i + 1;
    }
    let limit: usize = if area_height >= 2 { (area_height - 2) as usize } else { 0 };
    let h: usize = if limit >= 2 && total <= limit - 2 { total + 2 } else { limit };
    let height: u16 = h as u16;
    let content: usize = if height >= 2 { (height - 2) as usize } else { 0 };
    let max_scroll: usize = if total >= content { total - content } else { 0 };
    let sc: usize = if scroll <= max_scroll { scroll } else { max_scroll };
    let x: u16 = (if area_width >= popup_width { area_width - popup_width } else { 0 }) / 2;
    let y: u16 = (if area_height >= height { area_height - height } else { 0 }) / 2;
    let indicator = if total > content {
        let mut t = string_of(" [");
        push_decimal(&mut t, (sc + 1) as u64);
        push_str(&mut t, "/");
        push_decimal(&mut t, (max_scroll + 1) as u64);
        push_str(&mut t, "]");
        Some(t)
    } else {
        None
    };
    PopupLayout { x, y, width: popup_width, height, scroll: sc, indicator }
}

// ===== Lines of a cell's text =====

/// A line without the carriage return that ended it, if any.
pub open spec fn without_cr(l: Seq<char>) -> Seq<char> {
    if l.len() > 0 && l.last() == '\r' { l.drop_last() } else { l }
}

/// The lines of a text (`str::lines`): split at line breaks, with a
/// carriage return before a break dropped; a final line break ends the last
/// line rather than starting an empty one; no lines at all for empty text.
pub open spec fn text_lines(s: Seq<char>) -> Seq<Seq<char>> {
    let pieces = split_lines(s);
    let n = if s.len() == 0 { 0 } else if s.last() == '\n' { pieces.len() - 1 } else { pieces.len() as int };
    Seq::new(n as nat, |i: int| if i < pieces.len() - 1 { without_cr(pieces[i]) } else { pieces[i] })
}

fn strip_cr(v: &Vec<char>, a: usize, b: usize) -> (s: String)
    requires
        a <= b <= v@.len(),
    ensures
        s@ == without_cr(v@.subrange(a as int, b as int)),
{
    if b > a && v[b - 1] == '\r' {
        proof {
            assert(v@.subrange(a as int, b as int).drop_last() =~= v@.subrange(a as int, b - 1));
        }
        string_from(v, a, b - 1)
    } else {
        string_from(v, a, b)
    }
}

/// The lines of a text (see `text_lines`).
pub fn lines_of(text: &str) -> (r: Vec<String>)
    ensures
        texts_view(r@) == text_lines(text@),
{
    let v = chars_of(text);
    let ghost s = v@;
    let mut out: Vec<String> = Vec::new();
    if v.len() == 0 {
        proof {
            assert(texts_view(out@) =~= text_lines(s));
        }
        return out;
    }
    let mut start: usize = 0;
    proof {
        assert(s.take(0) =~= Seq::<char>::empty());
    }
    loop
        invariant_except_break
            start <= s.len(),
            start == 0 || s[start - 1] == '\n',
            split_lines(s.take(start as int)).len() > 0,
            split_lines(s.take(start as int)).last() == Seq::<char>::empty(),
            out@.len() == split_lines(s.take(start as int)).len() - 1,
            forall|i: int| 0 <= i < out@.len() ==> (#[trigger] out@[i])@ == without_cr(split_lines(s.take(start as int))[i]),
        invariant
            s == v@,
            s == text@,
            s.len() > 0,
        ensures
            texts_view(out@) == text_lines(s),
        decreases s.len() - start,
    {
        let e = find_char_from(&v, '\n', start);
        proof {
            lemma_find_from(s, '\n', start as int);
            lemma_split_lines_extend(s, start as int, e as int);
            assert(split_lines(s.take(start as int)).last() + s.subrange(start as int, e as int) =~= s.subrange(start as int, e as int));
        }
        let ghost p = split_lines(s.take(start as int));
        let ghost q = split_lines(s.take(e as int));
        if e == v.len() {
            proof {
                assert(s.take(e as int) =~= s);
            }
            if start < e {
                let line = string_from(&v, start, e);
                out.push(line);
                proof {
                    assert(s.last() != '\n');
                    assert(texts_view(out@) =~= text_lines(s)) by {
                        assert forall|i: int| 0 <= i < out@.len() implies #[trigger] texts_view(out@)[i] == text_lines(s)[i] by {
                            if i < out@.len() - 1 {
                                assert(q[i] == p[i]);
                            }
                        }
                    }
                }
            } else {
                proof {
                    assert(s.last() == '\n');
                    assert(texts_view(out@) =~= text_lines(s)) by {
                        assert forall|i: int| 0 <= i < out@.len() implies #[trigger] texts_view(out@)[i] == text_lines(s)[i] by {
                            assert(q[i] == p[i]);
                        }
                    }
                }
            }
            break;
        }
        let line = strip_cr(&v, start, e);
        out.push(line);
        proof {
            lemma_split_lines_prefix(s, e + 1);
            let q2 = split_lines(s.take(e + 1));
            assert forall|i: int| 0 <= i < out@.len() implies (#[trigger] out@[i])@ == without_cr(q2[i]) by {
                if i < out@.len() - 1 {
                    assert(q[i] == p[i]);
                }
            }
        }
        start = e + 1;
    }
    out
}

// ===== The cell-detail popup =====

/// How a line of the cell-detail popup is drawn (its label, if any, is
/// always bold yellow).
#[derive(Debug, Clone, Copy, PartialEq, Eq, Structural)]
pub enum Tone {
    Plain,
    /// The cell's address.
    Address,
    /// A formula.
    Formula,
    /// The cell's type.
    Kind,
    /// A remark in place of a value.
    Note,
    /// A section heading (the label alone).
    Heading,
    /// The closing hint.
    Hint,
}

/// One line of the cell-detail popup: a label, then the text.
pub struct DetailLine {
    pub label: String,
    pub text: String,
    pub tone: Tone,
}

pub open spec fn detail_view(v: Seq<DetailLine>) -> Seq<(Seq<char>, Seq<char>, Tone)> {
    v.map_values(|d: DetailLine| (d.label@, d.text@, d.tone))
}

/// The name of a cell's type.
pub open spec fn kind_name(c: CellValue) -> Seq<char> {
    match c {
        CellValue::Empty => "Empty"@,
        CellValue::String(_) => "String"@,
        CellValue::Int(_) => "Integer"@,
        CellValue::Float(_) => "Float"@,
        CellValue::Bool(_) => "Boolean"@,
        CellValue::Error(_) => "Error"@,
        CellValue::DateTime(_) => "DateTime"@,
    }
}

/// Whether two cells are of the same kind (the same variant).
pub open spec fn same_kind(a: CellValue, b: CellValue) -> bool {
    ||| a is Empty && b is Empty
    ||| a is String && b is String
    ||| a is Int && b is Int
    ||| a is Float && b is Float
    ||| a is Bool && b is Bool
    ||| a is Error && b is Error
    ||| a is DateTime && b is DateTime
}

/// The type shown in the cell-detail popup tells the kinds apart: two cells
/// get the same type name exactly when they are of the same kind.
pub proof fn kind_names_tell_kinds_apart(a: CellValue, b: CellValue)
    ensures
        kind_name(a) == kind_name(b) <==> same_kind(a, b),
{
    reveal_strlit("Empty");
    reveal_strlit("String");
    reveal_strlit("Integer");
    reveal_strlit("Float");
    reveal_strlit("Boolean");
    reveal_strlit("Error");
    reveal_strlit("DateTime");
    let x = kind_name(a);
    let y = kind_name(b);
    if x == y && !same_kind(a, b) {
        assert(x.len() == y.len());
        assert(x[0] == y[0]);
        if x.len() > 1 {
            assert(x[1] == y[1]);
        }
        assert(false);
    }
}

/// A value in one line: its first line, and how many more there are.
pub open spec fn value_summary(raw: Seq<char>) -> Seq<char> {
    if raw.len() == 0 {
        "(empty)"@
    } else {
        let ls = text_lines(raw);
        let first = if ls.len() > 0 { ls[0] } else { Seq::empty() };
        let rest = if ls.len() >= 1 { (ls.len() - 1) as nat } else { 0 };
        if rest > 0 { first + " \u{2026} (+"@ + decimal(rest) + " more lines)"@ } else { first }
    }
}

/// Lines of text, unlabeled and plain.
pub open spec fn plain_lines(ls: Seq<Seq<char>>) -> Seq<(Seq<char>, Seq<char>, Tone)> {
    Seq::new(ls.len(), |i: int| (Seq::<char>::empty(), ls[i], Tone::Plain))
}

pub open spec fn blank_line() -> (Seq<char>, Seq<char>, Tone) {
    (Seq::empty(), Seq::empty(), Tone::Plain)
}

/// The lines of the cell-detail popup for the cell at `address` under
/// `header`: the cell and its column, its formula if any, then its type, its
/// value (summarized), its display form when that differs and fits one line,
/// and its full content line by line; or a remark when there is no cell.
pub open spec fn cell_detail_spec(address: Seq<char>, header: Seq<char>, cell: Option<CellValue>, formula: Option<String>) -> Seq<(Seq<char>, Seq<char>, Tone)> {
    let head = seq![("Cell: "@, address, Tone::Address), ("Column: "@, header, Tone::Plain), blank_line()];
    let f = match formula {
        Some(t) => seq![("Formula: "@, t@, Tone::Formula), blank_line()],
        None => Seq::empty(),
    };
    head + f + detail_body(cell, formula)
        + seq![blank_line(), (Seq::<char>::empty(), "\u{2191}\u{2193} to scroll | Any other key to close"@, Tone::Hint)]
}

/// The popup's lines about the cell itself (see `cell_detail_spec`).
pub open spec fn detail_body(cell: Option<CellValue>, formula: Option<String>) -> Seq<(Seq<char>, Seq<char>, Tone)> {
    match cell {
        Some(c) => {
            let raw = raw_text(c);
            let disp = display_text(c);
            let value = if raw.len() == 0 && formula is Some {
                ("Value: "@, "(empty - formula not evaluated)"@, Tone::Note)
            } else {
                ("Value: "@, value_summary(raw), Tone::Plain)
            };
            let shown = if disp != raw && !disp.contains('\n') {
                seq![("Display Value: "@, disp, Tone::Plain)]
            } else {
                Seq::empty()
            };
            seq![("Type: "@, kind_name(c), Tone::Kind), value] + shown
                + seq![blank_line(), ("Full Content:"@, Seq::<char>::empty(), Tone::Heading), blank_line()]
                + plain_lines(text_lines(raw))
        },
        None => if formula is Some {
            seq![("Value: "@, "(formula not evaluated by Excel reader)"@, Tone::Note)]
        } else {
            seq![(Seq::<char>::empty(), "No cell data"@, Tone::Note)]
        },
    }
}

proof fn lemma_view_push(v: Seq<DetailLine>, d: DetailLine)
    ensures
        detail_view(v.push(d)) == detail_view(v).push((d.label@, d.text@, d.tone)),
{
    assert(detail_view(v.push(d)) =~= detail_view(v).push((d.label@, d.text@, d.tone)));
}

fn push_line(v: &mut Vec<DetailLine>, label: &str, text: &str, tone: Tone)
    ensures
        detail_view(final(v)@) == detail_view(old(v)@).push((label@, text@, tone)),
{
    let d = line_of(label, text, tone);
    proof {
        lemma_view_push(v@, d);
    }
    v.push(d);
}

fn line_of(label: &str, text: &str, tone: Tone) -> (d: DetailLine)
    ensures
        d.label@ == label@,
        d.text@ == text@,
        d.tone == tone,
{
    DetailLine { label: label.to_string(), text: text.to_string(), tone }
}

fn summary(raw: &String) -> (s: String)
    ensures
        s@ == value_summary(raw@),
{
    if raw.as_str().is_empty() {
        return string_of("(empty)");
    }
    let ls = lines_of(raw.as_str());
    proof {
        assert(texts_view(ls@).len() == ls@.len());
    }
    let mut first = if ls.len() > 0 { ls[0].clone() } else { String::new() };
    proof {
        if ls@.len() > 0 {
            assert(texts_view(ls@)[0] == ls@[0]@);
        }
    }
    let rest: usize = if ls.len() >= 1 { ls.len() - 1 } else { 0 };
    if rest > 0 {
        push_str(&mut first, " \u{2026} (+");
        push_decimal(&mut first, rest as u64);
        push_str(&mut first, " more lines)");
    }
    first
}

fn contains_newline(s: &String) -> (b: bool)
    ensures
        b == s@.contains('\n'),
{
    let v = chars_of(s.as_str());
    let mut i: usize = 0;
    while i < v.len()
        invariant
            v@ == s@,
            i <= v@.len(),
            forall|k: int| 0 <= k < i ==> v@[k] != '\n',
        decreases v.len() - i,
    {
        if v[i] == '\n' {
            proof {
                assert(s@[i as int] == '\n');
            }
            return true;
        }
        i = i + 1;
    }
    false
}

fn push_detail_body(v: &mut Vec<DetailLine>, cell: &Option<CellValue>, formula: &Option<String>)
    ensures
        detail_view(final(v)@) == detail_view(old(v)@) + detail_body(*cell, *formula),
{
    let ghost before_body = detail_view(v@);
    match cell {
        Some(c) => {
            let raw = c.to_raw_string();
            let disp = c.to_string();
            let kind = match c {
                CellValue::Empty => "Empty",
                CellValue::String(_) => "String",
                CellValue::Int(_) => "Integer",
                CellValue::Float(_) => "Float",
                CellValue::Bool(_) => "Boolean",
                CellValue::Error(_) => "Error",
                CellValue::DateTime(_) => "DateTime",
            };
            push_line(v, "Type: ", kind, Tone::Kind);
            if raw.as_str().is_empty() && formula.is_some() {
                push_line(v, "Value: ", "(empty - formula not evaluated)", Tone::Note);
            } else {
                let sm = summary(&raw);
                push_line(v, "Value: ", sm.as_str(), Tone::Plain);
            }
            let differs = !crate::text::str_eq(disp.as_str(), raw.as_str());
            if differs && !contains_newline(&disp) {
                push_line(v, "Display Value: ", disp.as_str(), Tone::Plain);
            }
            push_line(v, "", "", Tone::Plain);
            push_line(v, "Full Content:", "", Tone::Heading);
            push_line(v, "", "", Tone::Plain);
            let ghost before_lines = detail_view(v@);
            let ls = lines_of(raw.as_str());
            let mut i: usize = 0;
            while i < ls.len()
                invariant
                    i <= ls@.len(),
                    texts_view(ls@) == text_lines(raw@),
                    detail_view(v@) == before_lines + plain_lines(text_lines(raw@).take(i as int)),
                decreases ls.len() - i,
            {
                let ghost old_view = detail_view(v@);
                push_line(v, "", ls[i].as_str(), Tone::Plain);
                proof {
                    reveal_strlit("");
                    assert(""@ =~= Seq::<char>::empty());
                    let t = text_lines(raw@);
                    assert(texts_view(ls@)[i as int] == ls@[i as int]@);
                    assert(plain_lines(t.take(i + 1)) =~= plain_lines(t.take(i as int)).push((Seq::<char>::empty(), t[i as int], Tone::Plain)));
                    assert(detail_view(v@) =~= before_lines + plain_lines(t.take(i + 1)));
                }
                i = i + 1;
            }
            proof {
                assert(text_lines(raw@).take(ls@.len() as int) =~= text_lines(raw@));
            }
        },
        None => {
            if formula.is_some() {
                push_line(v, "Value: ", "(formula not evaluated by Excel reader)", Tone::Note);
            } else {
                push_line(v, "", "No cell data", Tone::Note);
            }
        },
    }
    proof {
        reveal_strlit("");
        assert(""@ =~= Seq::<char>::empty());
        assert(detail_view(v@) =~= before_body + detail_body(*cell, *formula));
    }
}

/// The lines of the cell-detail popup (see `cell_detail_spec`).
pub fn cell_detail_lines(address: &str, header: &str, cell: &Option<CellValue>, formula: &Option<String>) -> (v: Vec<DetailLine>)
    ensures
        detail_view(v@) == cell_detail_spec(address@, header@, *cell, *formula),
{
    let mut v: Vec<DetailLine> = Vec::new();
    push_line(&mut v, "Cell: ", address, Tone::Address);
    push_line(&mut v, "Column: ", header, Tone::Plain);
    push_line(&mut v, "", "", Tone::Plain);
    proof {
        reveal_strlit("");
    }
    match formula {
        Some(f) => {
            push_line(&mut v, "Formula: ", f.as_str(), Tone::Formula);
            push_line(&mut v, "", "", Tone::Plain);
        },
        None => {},
    }
    push_detail_body(&mut v, cell, formula);
    push_line(&mut v, "", "", Tone::Plain);
    push_line(&mut v, "", "\u{2191}\u{2193} to scroll | Any other key to close", Tone::Hint);
    proof {
        reveal_strlit("");
        assert(""@ =~= Seq::<char>::empty());
        assert(detail_view(v@) =~= cell_detail_spec(address@, header@, *cell, *formula));
    }
    v
}

impl TuiState {
    /// Lay out the help popup over its `lines`, keeping its scroll offset
    /// within the content.
    pub fn help_popup(&mut self, lines: &Vec<String>, popup_width: u16, area_width: u16, area_height: u16) -> (p: PopupLayout)
        requires
            forall|i: int| 0 <= i < lines@.len() ==> (#[trigger] lines@[i])@.len() < usize::MAX,
        ensures
            popup_is(p, texts_view(lines@), popup_width, area_width, area_height, old(self).help_scroll as nat),
            *final(self) == (TuiState { help_scroll: p.scroll, ..*old(self) }),
    {
        let p = popup_layout(lines, popup_width, area_width, area_height, self.help_scroll);
        self.help_scroll = p.scroll;
        p
    }

    /// Lay out the cell-detail popup over its `lines`, keeping its scroll
    /// offset within the content.
    pub fn cell_detail_popup(&mut self, lines: &Vec<String>, popup_width: u16, area_width: u16, area_height: u16) -> (p: PopupLayout)
        requires
            forall|i: int| 0 <= i < lines@.len() ==> (#[trigger] lines@[i])@.len() < usize::MAX,
        ensures
            popup_is(p, texts_view(lines@), popup_width, area_width, area_height, old(self).cell_detail_scroll as nat),
            *final(self) == (TuiState { cell_detail_scroll: p.scroll, ..*old(self) }),
    {
        let p = popup_layout(lines, popup_width, area_width, area_height, self.cell_detail_scroll);
        self.cell_detail_scroll = p.scroll;
        p
    }

    /// The status bar's text for the cursor cell (see `status_text_of`).
    pub fn status_text(&mut self) -> (s: String)
        requires
            old(self).wf(),
        ensures
            final(self).wf(),
            final(self).sheet_data.same_sheet(&old(self).sheet_data),
            *final(self) == (TuiState { sheet_data: final(self).sheet_data, ..*old(self) }),
            s@ == status_text_of(match cell_at(old(self).sheet_data.all_rows(), old(self).cursor_row as int, old(self).cursor_col as int) {
                Some(c) => display_text(c),
                None => Seq::<char>::empty(),
            }),
    {
        proof {
            crate::state::lemma_source_shape(self.sheet_data);
        }
        let (cell, _formula) = self.sheet_data.get_cell(self.cursor_row, self.cursor_col);
        let value = match cell {
            Some(c) => c.to_string(),
            None => String::new(),
        };
        if value.as_str().is_empty() {
            string_of("(empty)")
        } else {
            let mut s = value;
            push_char(&mut s, ' ');
            s
        }
    }

    /// The lines of the cell-detail popup for the cursor cell (see
    /// `cell_detail_spec`).
    pub fn cell_detail(&mut self) -> (v: Vec<DetailLine>)
        requires
            old(self).wf(),
        ensures
            final(self).wf(),
            final(self).sheet_data.same_sheet(&old(self).sheet_data),
            *final(self) == (TuiState { sheet_data: final(self).sheet_data, ..*old(self) }),
            ({
                let s = *old(self);
                let inside = s.cursor_row < s.height() && s.cursor_col < s.width();
                let h = s.sheet_data.spec_headers();
                detail_view(v@) == cell_detail_spec(
                    col_letters(s.cursor_col as nat) + decimal((s.cursor_row + first_sheet_row(s.no_header)) as nat),
                    if s.cursor_col < h.len() { h[s.cursor_col as int] } else { Seq::empty() },
                    if inside { Some(s.sheet_data.all_rows()[s.cursor_row as int][s.cursor_col as int]) } else { None },
                    if inside { s.sheet_data.all_formulas()[s.cursor_row as int][s.cursor_col as int] } else { None },
                )
            }),
    {
        let (cell, formula) = self.sheet_data.get_cell(self.cursor_row, self.cursor_col);
        let address = self.current_cell_address();
        let headers = self.sheet_data.headers();
        proof {
            assert(texts_view(headers@).len() == headers@.len());
            if self.cursor_col < headers@.len() {
                assert(texts_view(headers@)[self.cursor_col as int] == headers@[self.cursor_col as int]@);
            }
            reveal_strlit("");
            assert(""@ =~= Seq::<char>::empty());
        }
        let header: &str = if self.cursor_col < headers.len() { headers[self.cursor_col].as_str() } else { "" };
        cell_detail_lines(address.as_str(), header, &cell, &formula)
    }
}

/// The length of a text in UTF-8 bytes.
pub open spec fn utf8_len(s: Seq<char>) -> nat
    decreases s.len(),
{
    if s.len() == 0 {
        0
    } else {
        let c = s.last() as u32;
        utf8_len(s.drop_last()) + if c < 0x80 { 1nat } else if c < 0x800 { 2nat } else if c < 0x10000 { 3nat } else { 4nat }
    }
}

/// The area of the feedback popup for `message` in a terminal
/// `area_width` × `area_height`: 6 wider than the message's byte length, at
/// most 60, three lines tall, centered. Returns (x, y, width, height).
pub open spec fn feedback_area(message: Seq<char>, area_width: u16, area_height: u16) -> (u16, u16, u16, u16) {
    let w0 = (utf8_len(message) % 65536) + 6;
    let w = (if w0 <= 60 { w0 } else { 60 }) as u16;
    (
        ((if area_width >= w { area_width - w } else { 0 }) / 2) as u16,
        ((if area_height >= 3 { area_height - 3 } else { 0 }) / 2) as u16,
        w,
        3,
    )
}

/// The area of the feedback popup (see `feedback_area`).
pub fn feedback_popup(message: &str, area_width: u16, area_height: u16) -> (r: (u16, u16, u16, u16))
    requires
        utf8_len(message@) % 65536 <= 65529,
    ensures
        r == feedback_area(message@, area_width, area_height),
{
    let v = chars_of(message);
    let mut bytes: u32 = 0;
    let mut i: usize = 0;
    while i < v.len()
        invariant
            v@ == message@,
            i <= v@.len(),
            bytes == utf8_len(v@.take(i as int)) % 65536,
        decreases v.len() - i,
    {
        let c = v[i] as u32;
        let n: u32 = if c < 0x80 { 1 } else if c < 0x800 { 2 } else if c < 0x10000 { 3 } else { 4 };
        proof {
            assert(v@.take(i + 1).drop_last() =~= v@.take(i as int));
            let u = utf8_len(v@.take(i as int));
            vstd::arithmetic::div_mod::lemma_add_mod_noop(u as int, n as int, 65536);
            vstd::arithmetic::div_mod::lemma_small_mod(n as nat, 65536);
        }
        bytes = (bytes + n) % 65536;
        i = i + 1;
    }
    proof {
        assert(v@.take(v@.len() as int) =~= v@);
    }
    let w0: u16 = (bytes as u16) + 6;
    let w: u16 = if w0 <= 60 { w0 } else { 60 };
    let x: u16 = (if area_width >= w { area_width - w } else { 0 }) / 2;
    let y: u16 = (if area_height >= 3 { area_height - 3 } else { 0 }) / 2;
    (x, y, w, 3)
}

} // verus!
