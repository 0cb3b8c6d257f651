//! The non-interactive table view: which lines are printed around the table,
//! and what each table cell shows (text, alignment and color).

use vstd::prelude::*;
use crate::cell::{all_digits, digits_value, display_text, CellValue};
use crate::export::join;
use crate::sheet::{texts_view, SheetData, TableData};
use crate::text::{chars_of, decimal, push_char, push_decimal, push_str, string_of};

verus! {

/// Horizontal placement of a cell's text.
#[derive(Debug, Clone, Copy, PartialEq, Eq, Structural)]
pub enum Align {
    Left,
    Right,
    Center,
}

/// The color a cell's text is drawn in.
#[derive(Debug, Clone, Copy, PartialEq, Eq, Structural)]
pub enum Tint {
    /// The terminal's own color.
    Plain,
    /// Green: headers, and cells shown as formulas.
    Green,
    /// Red: error cells.
    Red,
}

/// One cell of the printed table.
pub struct PlannedCell {
    pub text: String,
    pub align: Align,
    pub tint: Tint,
}

/// The printed table: a bold header row, then the rows shown; when
/// `total_width` is set the table wraps to that width; no column is wider
/// than `column_limit`.
pub struct TablePlan {
    pub header: Vec<PlannedCell>,
    pub rows: Vec<Vec<PlannedCell>>,
    pub total_width: Option<u16>,
    pub column_limit: u16,
}

/// Everything the non-interactive view prints, in order: the heading lines,
/// the note on uncached formulas (if due), more lines, the table (if any),
/// and the lines after it.
pub struct Report {
    pub before: Vec<String>,
    pub blank_formula_note: bool,
    pub middle: Vec<String>,
    pub table: Option<TablePlan>,
    pub after: Vec<String>,
}

// ===== Cell text =====

/// Whether a character is a control character (`char::is_control`: the
/// Unicode `Cc` characters).
pub open spec fn is_control(c: char) -> bool {
    (c as u32) < 0x20 || (0x7F <= (c as u32) && (c as u32) <= 0x9F)
}

/// The text with each control character other than a line break replaced
/// by U+FFFD, so cell contents cannot send escape sequences to the terminal.
pub open spec fn sanitized(s: Seq<char>) -> Seq<char> {
    s.map_values(|c: char| if is_control(c) && c != '\n' { '\u{FFFD}' } else { c })
}

/// Replace control characters other than line breaks by U+FFFD.
pub fn sanitize(s: &str) -> (t: String)
    ensures
        t@ == sanitized(s@),
{
    let v = chars_of(s);
    let mut t = String::new();
    let mut i: usize = 0;
    while i < v.len()
        invariant
            v@ == s@,
            i <= v@.len(),
            t@ == sanitized(v@.subrange(0, i as int)),
        decreases v.len() - i,
    {
        let c = v[i];
        let u = c as u32;
        let control = u < 0x20 || (0x7F <= u && u <= 0x9F);
        if control && c != '\n' {
            push_char(&mut t, '\u{FFFD}');
        } else {
            push_char(&mut t, c);
        }
        i = i + 1;
        proof {
            assert(t@ =~= sanitized(v@.subrange(0, i as int)));
        }
    }
    proof {
        assert(v@.subrange(0, v@.len() as int) =~= v@);
    }
    t
}

/// A cell's text limited to `max_width` characters: kept whole when it fits
/// or when wrapping; otherwise cut to `max_width - 3` characters followed by
/// `...` (or just cut, for widths of 3 or less).
pub open spec fn formatted_cell(value: Seq<char>, max_width: nat, wrap: bool) -> Seq<char> {
    if value.len() <= max_width || wrap {
        value
    } else if max_width > 3 {
        value.take(max_width - 3) + "..."@
    } else {
        value.take(max_width as int)
    }
}

/// Format a cell value with width limiting (see `formatted_cell`).
pub fn format_cell_value(value: &str, max_width: usize, wrap: bool) -> (s: String)
    ensures
        s@ == formatted_cell(value@, max_width as nat, wrap),
{
    let v = chars_of(value);
    if v.len() <= max_width || wrap {
        return value.to_string();
    }
    let keep = if max_width > 3 { max_width - 3 } else { max_width };
    let mut s = String::new();
    let mut i: usize = 0;
    while i < keep
        invariant
            v@ == value@,
            keep < v@.len(),
            i <= keep,
            s@ == v@.take(i as int),
        decreases keep - i,
    {
        push_char(&mut s, v[i]);
        i = i + 1;
        proof {
            assert(s@ =~= v@.take(i as int));
        }
    }
    if max_width > 3 {
        push_str(&mut s, "...");
    }
    s
}

/// The text a table cell shows: its formula when formulas are shown and it
/// has one, else its display text, with control characters replaced and
/// limited to `max_width`.
pub open spec fn table_cell_text(cell: CellValue, formula: Option<String>, max_width: nat, wrap: bool, show_formulas: bool) -> Seq<char> {
    let value = if show_formulas && formula is Some { formula->0@ } else { display_text(cell) };
    formatted_cell(sanitized(value), max_width, wrap)
}

/// Where a value cell's text goes: numbers right, booleans and errors
/// centered, the rest left; formulas always left.
pub open spec fn cell_align(cell: CellValue, show_formulas: bool) -> Align {
    if show_formulas {
        Align::Left
    } else {
        match cell {
            CellValue::Int(_) | CellValue::Float(_) => Align::Right,
            CellValue::Bool(_) | CellValue::Error(_) => Align::Center,
            _ => Align::Left,
        }
    }
}

/// The color of a cell's text: with color on, formulas green and errors red.
pub open spec fn cell_tint(cell: CellValue, show_formulas: bool, use_color: bool) -> Tint {
    if !use_color {
        Tint::Plain
    } else if show_formulas {
        Tint::Green
    } else if cell is Error {
        Tint::Red
    } else {
        Tint::Plain
    }
}

fn plan_cell(cell: &CellValue, formula: &Option<String>, max_width: usize, wrap: bool, show_formulas: bool, use_color: bool) -> (p: PlannedCell)
    ensures
        p.text@ == table_cell_text(*cell, *formula, max_width as nat, wrap, show_formulas),
        p.align == cell_align(*cell, show_formulas),
        p.tint == cell_tint(*cell, show_formulas, use_color),
{
    let value = match formula {
        Some(f) if show_formulas => f.clone(),
        _ => cell.to_string(),
    };
    let text = format_cell_value(sanitize(value.as_str()).as_str(), max_width, wrap);
    let align = if show_formulas {
        Align::Left
    } else {
        match cell {
            CellValue::Int(_) | CellValue::Float(_) => Align::Right,
            CellValue::Bool(_) | CellValue::Error(_) => Align::Center,
            _ => Align::Left,
        }
    };
    let tint = if !use_color {
        Tint::Plain
    } else if show_formulas {
        Tint::Green
    } else {
        match cell {
            CellValue::Error(_) => Tint::Red,
            _ => Tint::Plain,
        }
    };
    PlannedCell { text, align, tint }
}

// ===== Counting =====

/// How many rows are shown: all of them when `max_rows` is 0, else at most
/// `max_rows`.
pub open spec fn rows_shown(max_rows: nat, total: nat) -> nat {
    if max_rows == 0 || total < max_rows { total } else { max_rows }
}

pub fn rows_to_show(max_rows: usize, total: usize) -> (n: usize)
    ensures
        n == rows_shown(max_rows as nat, total as nat),
{
    if max_rows == 0 || total < max_rows { total } else { max_rows }
}

/// A cell that shows nothing: empty, or empty text.
pub open spec fn is_blank(c: CellValue) -> bool {
    match c {
        CellValue::Empty => true,
        CellValue::String(s) => s@.len() == 0,
        _ => false,
    }
}

/// Blank cells with a formula among the first `n` cells of a row.
pub open spec fn blank_formulas_in_row(row: Seq<CellValue>, formulas: Seq<Option<String>>, n: int) -> nat
    decreases n,
{
    if n <= 0 {
        0
    } else {
        blank_formulas_in_row(row, formulas, n - 1)
            + if is_blank(row[n - 1]) && n - 1 < formulas.len() && formulas[n - 1] is Some { 1nat } else { 0nat }
    }
}

/// Blank cells with a formula among the first `n` rows.
pub open spec fn blank_formulas_upto(rows: Seq<Vec<CellValue>>, formulas: Seq<Vec<Option<String>>>, n: int) -> nat
    decreases n,
{
    if n <= 0 {
        0
    } else {
        blank_formulas_upto(rows, formulas, n - 1) + blank_formulas_in_row(
            rows[n - 1]@,
            if n - 1 < formulas.len() { formulas[n - 1]@ } else { Seq::empty() },
            rows[n - 1]@.len() as int,
        )
    }
}

/// The number of formula cells that show nothing (their value was not
/// cached by the program that saved the file), counted up to `cap`.
pub fn blank_formula_count(data: &SheetData, cap: usize) -> (n: usize)
    ensures
        n == if blank_formulas_upto(data.rows@, data.formulas@, data.rows@.len() as int) < cap {
            blank_formulas_upto(data.rows@, data.formulas@, data.rows@.len() as int)
        } else {
            cap as nat
        },
{
    let mut count: usize = 0;
    let mut r: usize = 0;
    while r < data.rows.len()
        invariant
            r <= data.rows@.len(),
            count == if blank_formulas_upto(data.rows@, data.formulas@, r as int) < cap {
                blank_formulas_upto(data.rows@, data.formulas@, r as int)
            } else {
                cap as nat
            },
        decreases data.rows.len() - r,
    {
        let row = &data.rows[r];
        let ghost before = blank_formulas_upto(data.rows@, data.formulas@, r as int);
        let ghost frow = if r < data.formulas@.len() { data.formulas@[r as int]@ } else { Seq::<Option<String>>::empty() };
        let mut c: usize = 0;
        while c < row.len()
            invariant
                r < data.rows@.len(),
                *row == data.rows@[r as int],
                c <= row@.len(),
                frow == if r < data.formulas@.len() { data.formulas@[r as int]@ } else { Seq::<Option<String>>::empty() },
                count == if before + blank_formulas_in_row(row@, frow, c as int) < cap {
                    before + blank_formulas_in_row(row@, frow, c as int)
                } else {
                    cap as nat
                },
            decreases row.len() - c,
        {
            let blank = match &row[c] {
                CellValue::Empty => true,
                CellValue::String(s) => s.as_str().is_empty(),
                _ => false,
            };
            let has_formula = r < data.formulas.len() && c < data.formulas[r].len() && data.formulas[r][c].is_some();
            if blank && has_formula && count < cap {
                count = count + 1;
            }
            c = c + 1;
        }
        r = r + 1;
    }
    count
}

// ===== Reports =====

/// `a * b`, or `u16::MAX` above it.
pub open spec fn sat_mul_u16(a: u16, b: u16) -> u16 {
    if a * b <= u16::MAX { (a * b) as u16 } else { u16::MAX }
}

/// The width a table of `columns` columns, each at most `max_width` wide,
/// wraps to: room for every column and its borders, but at least one column.
pub open spec fn wrap_width(columns: nat, max_width: nat) -> u16 {
    let m = max_width as u16;
    let w = sat_mul_u16(columns as u16, (m + 3) as u16);
    if w >= m { w } else { m }
}

fn table_wrap_width(columns: usize, max_width: usize) -> (w: u16)
    requires
        (max_width as u16) <= 65532,
    ensures
        w == wrap_width(columns as nat, max_width as nat),
{
    let m = max_width as u16;
    let c = columns as u16;
    let k: u16 = m + 3;
    assert((c as u64) * (k as u64) <= 65535 * 65535) by (nonlinear_arith)
        requires
            c <= 65535,
            k <= 65535,
    ;
    let p: u64 = (c as u64) * (k as u64);
    let w: u16 = if p > 65535 { 65535 } else { p as u16 };
    if w >= m { w } else { m }
}

/// The footer after the table: how many rows were left out, or the size of
/// the whole data.
pub open spec fn footer_text(shown: nat, rows: nat, height: nat, width: nat) -> Seq<char> {
    if shown < rows {
        "\u{26a0}\u{fe0f}  Showing "@ + decimal(shown) + " of "@ + decimal(rows) + " rows (use -n 0 to show all)"@
    } else {
        "Total: "@ + decimal(height) + " rows \u{d7} "@ + decimal(width) + " columns"@
    }
}

fn footer(shown: usize, rows: usize, height: usize, width: usize) -> (s: String)
    ensures
        s@ == footer_text(shown as nat, rows as nat, height as nat, width as nat),
{
    if shown < rows {
        let mut s = string_of("\u{26a0}\u{fe0f}  Showing ");
        push_decimal(&mut s, shown as u64);
        push_str(&mut s, " of ");
        push_decimal(&mut s, rows as u64);
        push_str(&mut s, " rows (use -n 0 to show all)");
        s
    } else {
        let mut s = string_of("Total: ");
        push_decimal(&mut s, height as u64);
        push_str(&mut s, " rows \u{d7} ");
        push_decimal(&mut s, width as u64);
        push_str(&mut s, " columns");
        s
    }
}

pub open spec fn banner_top() -> Seq<char> {
    "\u{2554}\u{2550}\u{2550}\u{2550}\u{2550}\u{2550}\u{2550}\u{2550}\u{2550}\u{2550}\u{2550}\u{2550}\u{2550}\u{2550}\u{2550}\u{2550}\u{2550}\u{2550}\u{2550}\u{2550}\u{2550}\u{2550}\u{2550}\u{2550}\u{2550}\u{2550}\u{2550}\u{2550}\u{2550}\u{2550}\u{2550}\u{2550}\u{2550}\u{2550}\u{2550}\u{2550}\u{2550}\u{2550}\u{2550}\u{2550}\u{2550}\u{2550}\u{2550}\u{2550}\u{2550}\u{2550}\u{2550}\u{2550}\u{2550}\u{2550}\u{2557}"@
}

pub open spec fn banner_bottom() -> Seq<char> {
    "\u{255a}\u{2550}\u{2550}\u{2550}\u{2550}\u{2550}\u{2550}\u{2550}\u{2550}\u{2550}\u{2550}\u{2550}\u{2550}\u{2550}\u{2550}\u{2550}\u{2550}\u{2550}\u{2550}\u{2550}\u{2550}\u{2550}\u{2550}\u{2550}\u{2550}\u{2550}\u{2550}\u{2550}\u{2550}\u{2550}\u{2550}\u{2550}\u{2550}\u{2550}\u{2550}\u{2550}\u{2550}\u{2550}\u{2550}\u{2550}\u{2550}\u{2550}\u{2550}\u{2550}\u{2550}\u{2550}\u{2550}\u{2550}\u{2550}\u{2550}\u{255d}"@
}

/// The lines above a sheet's table: a blank line, the banner, a blank line,
/// the sheet's name and size, and the other sheets when there are several.
pub open spec fn sheet_heading(name: Seq<char>, height: nat, width: nat, all_sheets: Seq<Seq<char>>) -> Seq<Seq<char>> {
    let base = seq![
        Seq::<char>::empty(),
        banner_top(),
        "\u{2551}  xleak - Excel File Viewer                      \u{2551}"@,
        banner_bottom(),
        Seq::<char>::empty(),
        "Sheet: "@ + name + " ("@ + decimal(height) + " rows \u{d7} "@ + decimal(width) + " columns)"@,
    ];
    if all_sheets.len() > 1 {
        base.push("Available sheets: "@ + join(all_sheets, ", "@))
    } else {
        base
    }
}

/// The sheet heading reports the sheet's size: after `Sheet: <name> (` come
/// the digits of the number of data rows, ` rows × `, the digits of the
/// number of columns and ` columns)`; and the part in brackets is what the
/// footer of a table shown in full says after `Total: `.
pub proof fn sheet_heading_reports_size(name: Seq<char>, height: nat, width: nat, all_sheets: Seq<Seq<char>>, shown: nat)
    ensures
        exists|rows: Seq<char>, cols: Seq<char>|
            #![trigger digits_value(rows), digits_value(cols)]
            {
                &&& all_digits(rows) && rows.len() > 0
                &&& all_digits(cols) && cols.len() > 0
                &&& digits_value(rows) == height
                &&& digits_value(cols) == width
                &&& sheet_heading(name, height, width, all_sheets)[5]
                    == "Sheet: "@ + name + " ("@ + rows + " rows \u{d7} "@ + cols + " columns)"@
            },
        sheet_heading(name, height, width, all_sheets)[5]
            == "Sheet: "@ + name + " ("@ + footer_text(shown, shown, height, width).skip(7) + ")"@,
{
    reveal_strlit("Total: ");
    let rows = decimal(height);
    let cols = decimal(width);
    crate::jump::lemma_decimal_digits(height);
    crate::jump::lemma_decimal_digits(width);
    crate::jump::lemma_digits_value_decimal(height);
    crate::jump::lemma_digits_value_decimal(width);
    assert(all_digits(rows));
    assert(all_digits(cols));
    let line = "Sheet: "@ + name + " ("@ + rows + " rows \u{d7} "@ + cols + " columns)"@;
    assert(sheet_heading(name, height, width, all_sheets)[5] == line);
    let f = footer_text(shown, shown, height, width);
    assert(f.skip(7) =~= rows + " rows \u{d7} "@ + cols + " columns"@);
    assert(line =~= "Sheet: "@ + name + " ("@ + f.skip(7) + ")"@) by {
        reveal_strlit(" columns)");
        reveal_strlit(" columns");
        reveal_strlit(")");
    }
}

/// A printed table cell holds `text`, placed and colored so.
pub open spec fn cell_is(p: PlannedCell, text: Seq<char>, align: Align, tint: Tint) -> bool {
    p.text@ == text && p.align == align && p.tint == tint
}

/// The formula of the cell at (`r`, `c`), if the sheet records one.
pub open spec fn formula_of(formulas: Seq<Vec<Option<String>>>, r: int, c: int) -> Option<String> {
    if 0 <= r < formulas.len() && 0 <= c < formulas[r]@.len() { formulas[r]@[c] } else { None }
}

fn planned_header(headers: &Vec<String>, max_width: usize, wrap: bool, limit: bool, use_color: bool) -> (h: Vec<PlannedCell>)
    ensures
        h@.len() == headers@.len(),
        forall|j: int| 0 <= j < h@.len() ==> cell_is(#[trigger] h@[j],
            if limit { formatted_cell(sanitized(headers@[j]@), max_width as nat, wrap) } else { sanitized(headers@[j]@) },
            Align::Left,
            if use_color { Tint::Green } else { Tint::Plain },
        ),
{
    let mut h: Vec<PlannedCell> = Vec::new();
    let mut j: usize = 0;
    while j < headers.len()
        invariant
            j <= headers@.len(),
            h@.len() == j,
            forall|k: int| 0 <= k < j ==> cell_is(#[trigger] h@[k],
                if limit { formatted_cell(sanitized(headers@[k]@), max_width as nat, wrap) } else { sanitized(headers@[k]@) },
                Align::Left,
                if use_color { Tint::Green } else { Tint::Plain },
            ),
        decreases headers.len() - j,
    {
        let clean = sanitize(headers[j].as_str());
        let text = if limit { format_cell_value(clean.as_str(), max_width, wrap) } else { clean };
        h.push(PlannedCell { text, align: Align::Left, tint: if use_color { Tint::Green } else { Tint::Plain } });
        j = j + 1;
    }
    h
}

/// The non-interactive view of a sheet: heading lines, the note on blank
/// formula cells (when values are shown and at least two formula cells are
/// blank), then the table of the first rows (see `rows_shown`) and a footer;
/// an empty sheet gets a warning line instead of the table.
pub fn display_table(
    data: &SheetData,
    sheet_name: &str,
    max_rows: usize,
    all_sheets: &Vec<String>,
    max_width: usize,
    wrap: bool,
    show_formulas: bool,
    use_color: bool,
) -> (r: Report)
    requires
        wrap ==> (max_width as u16) <= 65532,
    ensures
        texts_view(r.before@) == sheet_heading(sheet_name@, data.height as nat, data.width as nat, texts_view(all_sheets@)),
        r.blank_formula_note == (!show_formulas && blank_formulas_upto(data.rows@, data.formulas@, data.rows@.len() as int) >= 2),
        data.rows@.len() == 0 ==> {
            &&& texts_view(r.middle@) == seq![Seq::<char>::empty(), "\u{26a0}\u{fe0f}  Sheet is empty"@]
            &&& r.table is None
            &&& r.after@.len() == 0
        },
        data.rows@.len() > 0 ==> {
            let n = rows_shown(max_rows as nat, data.rows@.len());
            &&& texts_view(r.middle@) == seq![Seq::<char>::empty()]
            &&& texts_view(r.after@) == seq![
                Seq::<char>::empty(),
                footer_text(n, data.rows@.len(), data.height as nat, data.width as nat),
                Seq::<char>::empty(),
            ]
            &&& r.table matches Some(t) && {
                &&& t.total_width == if wrap { Some(wrap_width(data.width as nat, max_width as nat)) } else { None }
                &&& t.column_limit == max_width as u16
                &&& t.header@.len() == data.headers@.len()
                &&& forall|j: int| 0 <= j < t.header@.len() ==> cell_is(#[trigger] t.header@[j],
                    formatted_cell(sanitized(data.headers@[j]@), max_width as nat, wrap), Align::Left,
                    if use_color { Tint::Green } else { Tint::Plain })
                &&& t.rows@.len() == n
                &&& forall|i: int| 0 <= i < n ==> (#[trigger] t.rows@[i])@.len() == data.rows@[i]@.len()
                &&& forall|i: int, j: int| 0 <= i < n && 0 <= j < data.rows@[i]@.len() ==> {
                    let c = data.rows@[i]@[j];
                    cell_is(#[trigger] t.rows@[i]@[j],
                        table_cell_text(c, formula_of(data.formulas@, i, j), max_width as nat, wrap, show_formulas),
                        cell_align(c, show_formulas),
                        cell_tint(c, show_formulas, use_color))
                }
            }
        },
{
    let before = sheet_heading_lines(sheet_name, data.height, data.width, all_sheets);
    let note = !show_formulas && blank_formula_count(data, 2) >= 2;
    let mut middle: Vec<String> = Vec::new();
    middle.push(String::new());
    if data.rows.len() == 0 {
        middle.push(string_of("\u{26a0}\u{fe0f}  Sheet is empty"));
        proof {
            assert(texts_view(middle@) =~= seq![Seq::<char>::empty(), "\u{26a0}\u{fe0f}  Sheet is empty"@]);
        }
        return Report { before, blank_formula_note: note, middle, table: None, after: Vec::new() };
    }
    proof {
        assert(texts_view(middle@) =~= seq![Seq::<char>::empty()]);
    }
    let total_width = if wrap { Some(table_wrap_width(data.width, max_width)) } else { None };
    let header = planned_header(&data.headers, max_width, wrap, true, use_color);
    let n = rows_to_show(max_rows, data.rows.len());
    let mut rows: Vec<Vec<PlannedCell>> = Vec::new();
    let mut i: usize = 0;
    while i < n
        invariant
            n <= data.rows@.len(),
            i <= n,
            rows@.len() == i,
            forall|k: int| 0 <= k < i ==> (#[trigger] rows@[k])@.len() == data.rows@[k]@.len(),
            forall|k: int, j: int| 0 <= k < i && 0 <= j < data.rows@[k]@.len() ==> {
                let c = data.rows@[k]@[j];
                cell_is(#[trigger] rows@[k]@[j],
                    table_cell_text(c, formula_of(data.formulas@, k, j), max_width as nat, wrap, show_formulas),
                    cell_align(c, show_formulas),
                    cell_tint(c, show_formulas, use_color))
            },
        decreases n - i,
    {
        let row = &data.rows[i];
        let mut planned: Vec<PlannedCell> = Vec::new();
        let mut j: usize = 0;
        while j < row.len()
            invariant
                i < data.rows@.len(),
                *row == data.rows@[i as int],
                j <= row@.len(),
                planned@.len() == j,
                forall|m: int| 0 <= m < j ==> {
                    let c = data.rows@[i as int]@[m];
                    cell_is(#[trigger] planned@[m],
                        table_cell_text(c, formula_of(data.formulas@, i as int, m), max_width as nat, wrap, show_formulas),
                        cell_align(c, show_formulas),
                        cell_tint(c, show_formulas, use_color))
                },
            decreases row.len() - j,
        {
            let formula: Option<String> = if i < data.formulas.len() && j < data.formulas[i].len() {
                match &data.formulas[i][j] {
                    Some(f) => Some(f.clone()),
                    None => None,
                }
            } else {
                None
            };
            planned.push(plan_cell(&row[j], &formula, max_width, wrap, show_formulas, use_color));
            j = j + 1;
        }
        rows.push(planned);
        i = i + 1;
    }
    let mut after: Vec<String> = Vec::new();
    after.push(String::new());
    after.push(footer(n, data.rows.len(), data.height, data.width));
    after.push(String::new());
    proof {
        assert(texts_view(after@) =~= seq![
            Seq::<char>::empty(),
            footer_text(n as nat, data.rows@.len(), data.height as nat, data.width as nat),
            Seq::<char>::empty(),
        ]);
    }
    Report {
        before,
        blank_formula_note: note,
        middle,
        table: Some(TablePlan { header, rows, total_width, column_limit: max_width as u16 }),
        after,
    }
}

fn sheet_heading_lines(sheet_name: &str, height: usize, width: usize, all_sheets: &Vec<String>) -> (v: Vec<String>)
    ensures
        texts_view(v@) == sheet_heading(sheet_name@, height as nat, width as nat, texts_view(all_sheets@)),
{
    let mut v: Vec<String> = Vec::new();
    v.push(String::new());
    v.push(string_of("\u{2554}\u{2550}\u{2550}\u{2550}\u{2550}\u{2550}\u{2550}\u{2550}\u{2550}\u{2550}\u{2550}\u{2550}\u{2550}\u{2550}\u{2550}\u{2550}\u{2550}\u{2550}\u{2550}\u{2550}\u{2550}\u{2550}\u{2550}\u{2550}\u{2550}\u{2550}\u{2550}\u{2550}\u{2550}\u{2550}\u{2550}\u{2550}\u{2550}\u{2550}\u{2550}\u{2550}\u{2550}\u{2550}\u{2550}\u{2550}\u{2550}\u{2550}\u{2550}\u{2550}\u{2550}\u{2550}\u{2550}\u{2550}\u{2550}\u{2550}\u{2557}"));
    v.push(string_of("\u{2551}  xleak - Excel File Viewer                      \u{2551}"));
    v.push(string_of("\u{255a}\u{2550}\u{2550}\u{2550}\u{2550}\u{2550}\u{2550}\u{2550}\u{2550}\u{2550}\u{2550}\u{2550}\u{2550}\u{2550}\u{2550}\u{2550}\u{2550}\u{2550}\u{2550}\u{2550}\u{2550}\u{2550}\u{2550}\u{2550}\u{2550}\u{2550}\u{2550}\u{2550}\u{2550}\u{2550}\u{2550}\u{2550}\u{2550}\u{2550}\u{2550}\u{2550}\u{2550}\u{2550}\u{2550}\u{2550}\u{2550}\u{2550}\u{2550}\u{2550}\u{2550}\u{2550}\u{2550}\u{2550}\u{2550}\u{2550}\u{255d}"));
    v.push(String::new());
    let mut line = string_of("Sheet: ");
    push_str(&mut line, sheet_name);
    push_str(&mut line, " (");
    push_decimal(&mut line, height as u64);
    push_str(&mut line, " rows \u{d7} ");
    push_decimal(&mut line, width as u64);
    push_str(&mut line, " columns)");
    v.push(line);
    if all_sheets.len() > 1 {
        let mut a = string_of("Available sheets: ");
        crate::export::push_joined(&mut a, all_sheets, ", ");
        v.push(a);
    }
    proof {
        let base = seq![
            Seq::<char>::empty(),
            banner_top(),
            "\u{2551}  xleak - Excel File Viewer                      \u{2551}"@,
            banner_bottom(),
            Seq::<char>::empty(),
            "Sheet: "@ + sheet_name@ + " ("@ + decimal(height as nat) + " rows \u{d7} "@ + decimal(width as nat) + " columns)"@,
        ];
        if all_sheets@.len() > 1 {
            assert(texts_view(v@) =~= base.push("Available sheets: "@ + join(texts_view(all_sheets@), ", "@)));
        } else {
            assert(texts_view(v@) =~= base);
        }
    }
    v
}

/// The lines above a named table: a blank line, the banner, a blank line,
/// the table's name and sheet, its size, and a blank line.
pub open spec fn table_heading(name: Seq<char>, sheet: Seq<char>, rows: nat, columns: nat) -> Seq<Seq<char>> {
    seq![
        Seq::<char>::empty(),
        banner_top(),
        "\u{2551}  xleak - Excel Table Viewer                     \u{2551}"@,
        banner_bottom(),
        Seq::<char>::empty(),
        "Table: "@ + name + " (from sheet: "@ + sheet + ")"@,
        decimal(rows) + " rows \u{d7} "@ + decimal(columns) + " columns"@,
        Seq::<char>::empty(),
    ]
}

/// The text a named table's cell shows: its display text with control
/// characters replaced (the table wraps long texts itself).
pub open spec fn data_cell_text(c: CellValue) -> Seq<char> {
    sanitized(display_text(c))
}

/// The non-interactive view of a named table: heading lines, the table of
/// the first rows (see `rows_shown`), wrapping to room for all columns, and a
/// footer.
pub fn display_table_data(table: &TableData, max_rows: usize, max_width: usize, use_color: bool) -> (r: Report)
    requires
        (max_width as u16) <= 65532,
    ensures
        texts_view(r.before@) == table_heading(table.name@, table.sheet_name@, table.rows@.len(), table.headers@.len()),
        !r.blank_formula_note,
        ({
            let n = rows_shown(max_rows as nat, table.rows@.len());
            &&& r.middle@.len() == 0
            &&& texts_view(r.after@) == seq![
                Seq::<char>::empty(),
                footer_text(n, table.rows@.len(), table.rows@.len(), table.headers@.len()),
                Seq::<char>::empty(),
            ]
            &&& r.table matches Some(t) && {
                &&& t.total_width == Some(wrap_width(table.headers@.len(), max_width as nat))
                &&& t.column_limit == max_width as u16
                &&& t.header@.len() == table.headers@.len()
                &&& forall|j: int| 0 <= j < t.header@.len() ==> cell_is(#[trigger] t.header@[j],
                    sanitized(table.headers@[j]@), Align::Left, if use_color { Tint::Green } else { Tint::Plain })
                &&& t.rows@.len() == n
                &&& forall|i: int| 0 <= i < n ==> (#[trigger] t.rows@[i])@.len() == table.rows@[i]@.len()
                &&& forall|i: int, j: int| 0 <= i < n && 0 <= j < table.rows@[i]@.len() ==> {
                    let c = table.rows@[i]@[j];
                    cell_is(#[trigger] t.rows@[i]@[j], data_cell_text(c), cell_align(c, false), cell_tint(c, false, use_color))
                }
            }
        }),
{
    let mut before: Vec<String> = Vec::new();
    before.push(String::new());
    before.push(string_of("\u{2554}\u{2550}\u{2550}\u{2550}\u{2550}\u{2550}\u{2550}\u{2550}\u{2550}\u{2550}\u{2550}\u{2550}\u{2550}\u{2550}\u{2550}\u{2550}\u{2550}\u{2550}\u{2550}\u{2550}\u{2550}\u{2550}\u{2550}\u{2550}\u{2550}\u{2550}\u{2550}\u{2550}\u{2550}\u{2550}\u{2550}\u{2550}\u{2550}\u{2550}\u{2550}\u{2550}\u{2550}\u{2550}\u{2550}\u{2550}\u{2550}\u{2550}\u{2550}\u{2550}\u{2550}\u{2550}\u{2550}\u{2550}\u{2550}\u{2550}\u{2557}"));
    before.push(string_of("\u{2551}  xleak - Excel Table Viewer                     \u{2551}"));
    before.push(string_of("\u{255a}\u{2550}\u{2550}\u{2550}\u{2550}\u{2550}\u{2550}\u{2550}\u{2550}\u{2550}\u{2550}\u{2550}\u{2550}\u{2550}\u{2550}\u{2550}\u{2550}\u{2550}\u{2550}\u{2550}\u{2550}\u{2550}\u{2550}\u{2550}\u{2550}\u{2550}\u{2550}\u{2550}\u{2550}\u{2550}\u{2550}\u{2550}\u{2550}\u{2550}\u{2550}\u{2550}\u{2550}\u{2550}\u{2550}\u{2550}\u{2550}\u{2550}\u{2550}\u{2550}\u{2550}\u{2550}\u{2550}\u{2550}\u{2550}\u{2550}\u{255d}"));
    before.push(String::new());
    let mut title = string_of("Table: ");
    push_str(&mut title, table.name.as_str());
    push_str(&mut title, " (from sheet: ");
    push_str(&mut title, table.sheet_name.as_str());
    push_str(&mut title, ")");
    before.push(title);
    let mut size = String::new();
    push_decimal(&mut size, table.rows.len() as u64);
    push_str(&mut size, " rows \u{d7} ");
    push_decimal(&mut size, table.headers.len() as u64);
    push_str(&mut size, " columns");
    before.push(size);
    before.push(String::new());
    proof {
        assert(texts_view(before@) =~= table_heading(table.name@, table.sheet_name@, table.rows@.len(), table.headers@.len()));
    }
    let total_width = Some(table_wrap_width(table.headers.len(), max_width));
    let header = planned_header(&table.headers, max_width, false, false, use_color);
    let n = rows_to_show(max_rows, table.rows.len());
    let mut rows: Vec<Vec<PlannedCell>> = Vec::new();
    let mut i: usize = 0;
    while i < n
        invariant
            n <= table.rows@.len(),
            i <= n,
            rows@.len() == i,
            forall|k: int| 0 <= k < i ==> (#[trigger] rows@[k])@.len() == table.rows@[k]@.len(),
            forall|k: int, j: int| 0 <= k < i && 0 <= j < table.rows@[k]@.len() ==> {
                let c = table.rows@[k]@[j];
                cell_is(#[trigger] rows@[k]@[j], data_cell_text(c), cell_align(c, false), cell_tint(c, false, use_color))
            },
        decreases n - i,
    {
        let row = &table.rows[i];
        let mut planned: Vec<PlannedCell> = Vec::new();
        let mut j: usize = 0;
        while j < row.len()
            invariant
                i < table.rows@.len(),
                *row == table.rows@[i as int],
                j <= row@.len(),
                planned@.len() == j,
                forall|m: int| 0 <= m < j ==> {
                    let c = table.rows@[i as int]@[m];
                    cell_is(#[trigger] planned@[m], data_cell_text(c), cell_align(c, false), cell_tint(c, false, use_color))
                },
            decreases row.len() - j,
        {
            let cell = &row[j];
            let text = sanitize(cell.to_string().as_str());
            let align = match cell {
                CellValue::Int(_) | CellValue::Float(_) => Align::Right,
                CellValue::Bool(_) | CellValue::Error(_) => Align::Center,
                _ => Align::Left,
            };
            let tint = match cell {
                CellValue::Error(_) => if use_color { Tint::Red } else { Tint::Plain },
                _ => Tint::Plain,
            };
            planned.push(PlannedCell { text, align, tint });
            j = j + 1;
        }
        rows.push(planned);
        i = i + 1;
    }
    let mut after: Vec<String> = Vec::new();
    after.push(String::new());
    after.push(footer(n, table.rows.len(), table.rows.len(), table.headers.len()));
    after.push(String::new());
    proof {
        assert(texts_view(after@) =~= seq![
            Seq::<char>::empty(),
            footer_text(n as nat, table.rows@.len(), table.rows@.len(), table.headers@.len()),
            Seq::<char>::empty(),
        ]);
    }
    Report {
        before,
        blank_formula_note: false,
        middle: Vec::new(),
        table: Some(TablePlan { header, rows, total_width, column_limit: max_width as u16 }),
        after,
    }
}

} // verus!
