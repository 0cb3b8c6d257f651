//! Sheet and table data: headers, rows of cells, and the formulas parallel to them.

use vstd::prelude::*;
use crate::cell::{header_text, spec_from_csv_field, CellValue};
use crate::number::Number;
use crate::text::empty_string;
use crate::utils::{col_letters, column_index_to_letters};

verus! {

/// A rectangular block of cells as read from a spreadsheet (the first row may
/// be a header row).
pub struct CellRange {
    pub rows: Vec<Vec<CellValue>>,
    pub width: usize,
}

/// The formulas of a sheet: `rows[r][c]` is the formula text of the sheet cell
/// at (`start.0 + r`, `start.1 + c`); empty text means no formula.
pub struct FormulaRange {
    pub start: (u32, u32),
    pub rows: Vec<Vec<String>>,
}

/// One field of a CSV record: its text, and what the 64-bit float parser
/// makes of the trimmed text.
pub struct Field {
    pub text: String,
    pub number: Option<Number>,
}

/// Eagerly-loaded sheet data (loads all rows immediately).
pub struct SheetData {
    pub headers: Vec<String>,
    pub rows: Vec<Vec<CellValue>>,
    /// Parallel to `rows`: the formula of each cell, if any.
    pub formulas: Vec<Vec<Option<String>>>,
    pub width: usize,
    pub height: usize,
}

/// A named table of a workbook.
pub struct TableData {
    pub name: String,
    pub sheet_name: String,
    pub headers: Vec<String>,
    pub rows: Vec<Vec<CellValue>>,
}

// ===== Views =====

pub open spec fn rows_view(rows: Seq<Vec<CellValue>>) -> Seq<Seq<CellValue>> {
    rows.map_values(|r: Vec<CellValue>| r@)
}

pub open spec fn grid_view(g: Seq<Vec<Option<String>>>) -> Seq<Seq<Option<String>>> {
    g.map_values(|r: Vec<Option<String>>| r@)
}

pub open spec fn texts_view(t: Seq<String>) -> Seq<Seq<char>> {
    t.map_values(|s: String| s@)
}

impl CellRange {
    /// Every row has `width` cells.
    pub open spec fn wf(&self) -> bool {
        forall|i: int| 0 <= i < self.rows@.len() ==> (#[trigger] self.rows@[i])@.len() == self.width
    }
}

/// Default column headers `A`, `B`, ... for a sheet of `width` columns.
pub open spec fn default_header_texts(width: nat) -> Seq<Seq<char>> {
    Seq::new(width, |j: int| col_letters(j as nat))
}

/// The formula at sheet cell (`row`, `col`), if any.
pub open spec fn formula_at(f: FormulaRange, row: int, col: int) -> Option<String> {
    let r = row - f.start.0;
    let c = col - f.start.1;
    if 0 <= r < f.rows@.len() && 0 <= c < f.rows@[r]@.len() && f.rows@[r]@[c]@.len() > 0 {
        Some(f.rows@[r]@[c])
    } else {
        None
    }
}

/// The sheet row holding data row `i`: the header row comes first unless `no_header`.
pub open spec fn sheet_row_of(i: int, no_header: bool) -> int {
    if no_header { i } else { i + 1 }
}

/// Formulas of data row `i` across `width` columns.
pub open spec fn formula_row(f: Option<FormulaRange>, width: nat, i: int, no_header: bool) -> Seq<Option<String>> {
    Seq::new(width, |c: int| match f {
        Some(f) => formula_at(f, sheet_row_of(i, no_header), c),
        None => None,
    })
}

/// A grid of `n` rows starting at data row `start`.
pub open spec fn formula_grid(f: Option<FormulaRange>, width: nat, start: int, n: nat, no_header: bool) -> Seq<Seq<Option<String>>> {
    Seq::new(n, |i: int| formula_row(f, width, start + i, no_header))
}

impl SheetData {
    /// Shapes agree: `height` rows and formula rows, `width` headers and cells per row.
    pub open spec fn wf(&self) -> bool {
        &&& self.headers@.len() == self.width
        &&& self.rows@.len() == self.height
        &&& self.formulas@.len() == self.height
        &&& forall|i: int| 0 <= i < self.height ==> (#[trigger] self.rows@[i])@.len() == self.width
        &&& forall|i: int| 0 <= i < self.height ==> (#[trigger] self.formulas@[i])@.len() == self.width
    }
}

/// Without formulas, every grid of the same size is the same, wherever it starts.
pub proof fn lemma_empty_grid_shift(width: nat, s1: int, s2: int, n: nat, nh: bool)
    ensures
        formula_grid(None, width, s1, n, nh) == formula_grid(None, width, s2, n, nh),
{
    assert forall|i: int| 0 <= i < n implies formula_grid(None, width, s1, n, nh)[i] == formula_grid(None, width, s2, n, nh)[i] by {
        assert(formula_row(None, width, s1 + i, nh) =~= formula_row(None, width, s2 + i, nh));
    }
    assert(formula_grid(None, width, s1, n, nh) =~= formula_grid(None, width, s2, n, nh));
}

// ===== Helpers =====

fn clone_opt_string(o: &Option<String>) -> (r: Option<String>)
    ensures
        r == *o,
{
    match o {
        Some(s) => Some(s.clone()),
        None => None,
    }
}

/// An exact copy of a row of cells.
pub fn copy_row(row: &Vec<CellValue>) -> (r: Vec<CellValue>)
    ensures
        r@ == row@,
{
    let mut r: Vec<CellValue> = Vec::new();
    let mut j: usize = 0;
    while j < row.len()
        invariant
            j <= row@.len(),
            r@ == row@.subrange(0, j as int),
        decreases row.len() - j,
    {
        r.push(row[j].copy());
        j = j + 1;
        proof {
            assert(r@ =~= row@.subrange(0, j as int));
        }
    }
    proof {
        assert(r@ =~= row@);
    }
    r
}

/// An exact copy of a row of formulas.
pub fn copy_formula_row(row: &Vec<Option<String>>) -> (r: Vec<Option<String>>)
    ensures
        r@ == row@,
{
    let mut r: Vec<Option<String>> = Vec::new();
    let mut j: usize = 0;
    while j < row.len()
        invariant
            j <= row@.len(),
            r@ == row@.subrange(0, j as int),
        decreases row.len() - j,
    {
        r.push(clone_opt_string(&row[j]));
        j = j + 1;
        proof {
            assert(r@ =~= row@.subrange(0, j as int));
        }
    }
    proof {
        assert(r@ =~= row@);
    }
    r
}

/// Copies of `rows[from..to]`.
pub fn copy_rows(rows: &Vec<Vec<CellValue>>, from: usize, to: usize) -> (r: Vec<Vec<CellValue>>)
    requires
        from <= to <= rows@.len(),
    ensures
        rows_view(r@) == rows_view(rows@.subrange(from as int, to as int)),
        r@.len() == to - from,
{
    let mut r: Vec<Vec<CellValue>> = Vec::new();
    let mut i = from;
    while i < to
        invariant
            from <= i <= to <= rows@.len(),
            r@.len() == i - from,
            forall|k: int| 0 <= k < r@.len() ==> (#[trigger] r@[k])@ == rows@[from + k]@,
        decreases to - i,
    {
        r.push(copy_row(&rows[i]));
        i = i + 1;
    }
    proof {
        assert(rows_view(r@) =~= rows_view(rows@.subrange(from as int, to as int)));
    }
    r
}

/// Copies of `grid[from..to]`.
pub fn copy_formula_rows(grid: &Vec<Vec<Option<String>>>, from: usize, to: usize) -> (r: Vec<Vec<Option<String>>>)
    requires
        from <= to <= grid@.len(),
    ensures
        grid_view(r@) == grid_view(grid@.subrange(from as int, to as int)),
        r@.len() == to - from,
{
    let mut r: Vec<Vec<Option<String>>> = Vec::new();
    let mut i = from;
    while i < to
        invariant
            from <= i <= to <= grid@.len(),
            r@.len() == i - from,
            forall|k: int| 0 <= k < r@.len() ==> (#[trigger] r@[k])@ == grid@[from + k]@,
        decreases to - i,
    {
        r.push(copy_formula_row(&grid[i]));
        i = i + 1;
    }
    proof {
        assert(grid_view(r@) =~= grid_view(grid@.subrange(from as int, to as int)));
    }
    r
}

/// A grid of `n` rows of `width` empty formula slots.
pub fn empty_formula_grid(width: usize, n: usize, no_header: bool) -> (g: Vec<Vec<Option<String>>>)
    ensures
        grid_view(g@) == formula_grid(None, width as nat, 0, n as nat, no_header),
        g@.len() == n,
{
    let mut g: Vec<Vec<Option<String>>> = Vec::new();
    let mut i: usize = 0;
    while i < n
        invariant
            i <= n,
            g@.len() == i,
            forall|k: int| 0 <= k < i ==> (#[trigger] g@[k])@ == formula_row(None, width as nat, k, no_header),
        decreases n - i,
    {
        let mut row: Vec<Option<String>> = Vec::new();
        let mut j: usize = 0;
        while j < width
            invariant
                j <= width,
                row@ == Seq::new(j as nat, |c: int| None::<String>),
            decreases width - j,
        {
            row.push(None);
            j = j + 1;
            proof {
                assert(row@ =~= Seq::new(j as nat, |c: int| None::<String>));
            }
        }
        proof {
            assert(row@ =~= formula_row(None, width as nat, i as int, no_header));
        }
        g.push(row);
        i = i + 1;
    }
    proof {
        assert(grid_view(g@) =~= formula_grid(None, width as nat, 0, n as nat, no_header));
    }
    g
}

/// The formula row of data row `i` (sheet row `i`, or `i + 1` below a header row).
fn build_formula_row(f: &FormulaRange, width: usize, i: usize, no_header: bool) -> (row: Vec<Option<String>>)
    ensures
        row@ == formula_row(Some(*f), width as nat, i as int, no_header),
{
    let sheet_row: u128 = if no_header { i as u128 } else { i as u128 + 1 };
    let mut row: Vec<Option<String>> = Vec::new();
    let mut c: usize = 0;
    while c < width
        invariant
            c <= width,
            sheet_row == sheet_row_of(i as int, no_header),
            row@ == Seq::new(c as nat, |k: int| formula_at(*f, sheet_row as int, k)),
        decreases width - c,
    {
        let mut slot: Option<String> = None;
        if sheet_row >= f.start.0 as u128 && c >= f.start.1 as usize {
            let r = sheet_row - f.start.0 as u128;
            let rc = c - f.start.1 as usize;
            if r < f.rows.len() as u128 {
                let rr = r as usize;
                if rc < f.rows[rr].len() && !f.rows[rr][rc].as_str().is_empty() {
                    slot = Some(f.rows[rr][rc].clone());
                }
            }
        }
        proof {
            assert(slot == formula_at(*f, sheet_row as int, c as int));
        }
        row.push(slot);
        c = c + 1;
        proof {
            assert(row@ =~= Seq::new(c as nat, |k: int| formula_at(*f, sheet_row as int, k)));
        }
    }
    proof {
        assert(row@ =~= formula_row(Some(*f), width as nat, i as int, no_header));
    }
    row
}

impl SheetData {
    /// The formula grid for data rows `start_row..start_row + num_rows`,
    /// mapping formulas from their sheet positions.
    pub fn build_formula_grid(
        f: &FormulaRange,
        width: usize,
        start_row: usize,
        num_rows: usize,
        no_header: bool,
    ) -> (g: Vec<Vec<Option<String>>>)
        requires
            start_row + num_rows <= usize::MAX,
        ensures
            grid_view(g@) == formula_grid(Some(*f), width as nat, start_row as int, num_rows as nat, no_header),
            g@.len() == num_rows,
    {
        let mut g: Vec<Vec<Option<String>>> = Vec::new();
        let mut i: usize = 0;
        while i < num_rows
            invariant
                i <= num_rows,
                start_row + num_rows <= usize::MAX,
                g@.len() == i,
                forall|k: int| 0 <= k < i ==> (#[trigger] g@[k])@ == formula_row(Some(*f), width as nat, start_row + k, no_header),
            decreases num_rows - i,
        {
            g.push(build_formula_row(f, width, start_row + i, no_header));
            i = i + 1;
        }
        proof {
            assert(grid_view(g@) =~= formula_grid(Some(*f), width as nat, start_row as int, num_rows as nat, no_header));
        }
        g
    }

    /// Default spreadsheet-style column headers (A, B, C, ... Z, AA, ...).
    pub fn default_headers(width: usize) -> (h: Vec<String>)
        ensures
            texts_view(h@) == default_header_texts(width as nat),
    {
        let mut h: Vec<String> = Vec::new();
        let mut j: usize = 0;
        while j < width
            invariant
                j <= width,
                h@.len() == j,
                forall|k: int| 0 <= k < j ==> (#[trigger] h@[k])@ == col_letters(k as nat),
            decreases width - j,
        {
            h.push(column_index_to_letters(j));
            j = j + 1;
        }
        proof {
            assert(texts_view(h@) =~= default_header_texts(width as nat));
        }
        h
    }

    /// Header texts of a spreadsheet row.
    pub fn header_row(row: &Vec<CellValue>) -> (h: Vec<String>)
        ensures
            texts_view(h@) == row@.map_values(|c: CellValue| header_text(c)),
    {
        let mut h: Vec<String> = Vec::new();
        let mut j: usize = 0;
        while j < row.len()
            invariant
                j <= row@.len(),
                h@.len() == j,
                forall|k: int| 0 <= k < j ==> (#[trigger] h@[k])@ == header_text(row@[k]),
            decreases row.len() - j,
        {
            h.push(row[j].header_string());
            j = j + 1;
        }
        proof {
            assert(texts_view(h@) =~= row@.map_values(|c: CellValue| header_text(c)));
        }
        h
    }
}

// ===== Building sheets =====

/// Header texts of a range: its first row's cells unless `no_header` (or the
/// range is empty), else default letters.
pub open spec fn range_header_texts(range: CellRange, no_header: bool) -> Seq<Seq<char>> {
    if !no_header && range.rows@.len() > 0 {
        range.rows@[0]@.map_values(|c: CellValue| header_text(c))
    } else {
        default_header_texts(range.width as nat)
    }
}

/// The data rows of a range: all rows when `no_header`, else those after the first.
pub open spec fn range_data_rows(range: CellRange, no_header: bool) -> Seq<Vec<CellValue>> {
    if no_header || range.rows@.len() == 0 {
        range.rows@
    } else {
        range.rows@.subrange(1, range.rows@.len() as int)
    }
}

/// The widest row's length.
pub open spec fn max_width(rows: Seq<Vec<Field>>) -> nat
    decreases rows.len(),
{
    if rows.len() == 0 {
        0
    } else {
        let w = max_width(rows.drop_last());
        let l = rows.last()@.len();
        if w >= l { w } else { l }
    }
}

/// Whether a CSV's first record is its header row.
pub open spec fn csv_has_header(rows: Seq<Vec<Field>>, no_header: bool) -> bool {
    !no_header && rows.len() > 0
}

/// Header texts of CSV records: the first record padded with empty texts to
/// `width`, or default letters when there is no header row.
pub open spec fn csv_header_texts(rows: Seq<Vec<Field>>, no_header: bool) -> Seq<Seq<char>> {
    let width = max_width(rows);
    if csv_has_header(rows, no_header) {
        Seq::new(width, |j: int| if j < rows[0]@.len() { rows[0]@[j].text@ } else { Seq::<char>::empty() })
    } else {
        default_header_texts(width)
    }
}

/// The cells of a CSV record padded with empty cells to `width`.
pub open spec fn csv_cell_row(r: Seq<Field>, width: nat) -> Seq<CellValue> {
    Seq::new(width, |j: int| if j < r.len() { spec_from_csv_field(r[j].text, r[j].number) } else { CellValue::Empty })
}

/// The data rows of CSV records, each padded to the widest record.
pub open spec fn csv_data_rows(rows: Seq<Vec<Field>>, no_header: bool) -> Seq<Seq<CellValue>> {
    let width = max_width(rows);
    let first = if csv_has_header(rows, no_header) { 1int } else { 0int };
    Seq::new((rows.len() - first) as nat, |i: int| csv_cell_row(rows[i + first]@, width))
}

proof fn lemma_max_width(rows: Seq<Vec<Field>>)
    ensures
        forall|i: int| 0 <= i < rows.len() ==> (#[trigger] rows[i])@.len() <= max_width(rows),
    decreases rows.len(),
{
    if rows.len() > 0 {
        lemma_max_width(rows.drop_last());
        assert forall|i: int| 0 <= i < rows.len() implies (#[trigger] rows[i])@.len() <= max_width(rows) by {
            if i < rows.len() - 1 {
                assert(rows.drop_last()[i] == rows[i]);
            }
        }
    }
}

fn compute_max_width(rows: &Vec<Vec<Field>>) -> (w: usize)
    ensures
        w == max_width(rows@),
{
    let mut w: usize = 0;
    let mut i: usize = 0;
    while i < rows.len()
        invariant
            i <= rows@.len(),
            w == max_width(rows@.subrange(0, i as int)),
        decreases rows.len() - i,
    {
        let l = rows[i].len();
        proof {
            let p = rows@.subrange(0, i + 1);
            assert(p.drop_last() =~= rows@.subrange(0, i as int));
            assert(p.last() == rows@[i as int]);
        }
        if l > w {
            w = l;
        }
        i = i + 1;
    }
    proof {
        assert(rows@.subrange(0, rows@.len() as int) =~= rows@);
    }
    w
}

fn field_cell(f: &Field) -> (c: CellValue)
    ensures
        c == spec_from_csv_field(f.text, f.number),
{
    let n = match &f.number {
        Some(n) => Some(n.copy()),
        None => None,
    };
    CellValue::from_csv_field(f.text.clone(), n)
}

fn csv_row_cells(r: &Vec<Field>, width: usize) -> (row: Vec<CellValue>)
    requires
        r@.len() <= width,
    ensures
        row@ == csv_cell_row(r@, width as nat),
{
    let mut row: Vec<CellValue> = Vec::new();
    let mut j: usize = 0;
    while j < width
        invariant
            j <= width,
            r@.len() <= width,
            row@.len() == j,
            forall|k: int| 0 <= k < j ==> #[trigger] row@[k] == csv_cell_row(r@, width as nat)[k],
        decreases width - j,
    {
        if j < r.len() {
            row.push(field_cell(&r[j]));
        } else {
            row.push(CellValue::Empty);
        }
        j = j + 1;
    }
    proof {
        assert(row@ =~= csv_cell_row(r@, width as nat));
    }
    row
}

/// Headers, data rows and width of CSV records.
fn csv_parts(rows: &Vec<Vec<Field>>, no_header: bool) -> (r: (Vec<String>, Vec<Vec<CellValue>>, usize))
    ensures
        r.2 == max_width(rows@),
        texts_view(r.0@) == csv_header_texts(rows@, no_header),
        rows_view(r.1@) == csv_data_rows(rows@, no_header),
{
    let width = compute_max_width(rows);
    proof {
        lemma_max_width(rows@);
    }
    let has_header = !no_header && rows.len() > 0;
    let headers: Vec<String> = if has_header {
        let mut h: Vec<String> = Vec::new();
        let mut j: usize = 0;
        while j < width
            invariant
                j <= width,
                rows@.len() > 0,
                h@.len() == j,
                forall|k: int| 0 <= k < j ==> (#[trigger] h@[k])@ == csv_header_texts(rows@, no_header)[k],
                width == max_width(rows@),
                csv_has_header(rows@, no_header),
            decreases width - j,
        {
            if j < rows[0].len() {
                h.push(rows[0][j].text.clone());
            } else {
                h.push(empty_string());
            }
            j = j + 1;
        }
        proof {
            assert(texts_view(h@) =~= csv_header_texts(rows@, no_header));
        }
        h
    } else {
        SheetData::default_headers(width)
    };
    let first: usize = if has_header { 1 } else { 0 };
    let mut data: Vec<Vec<CellValue>> = Vec::new();
    let mut i = first;
    while i < rows.len()
        invariant
            first <= i <= rows@.len(),
            first == (if csv_has_header(rows@, no_header) { 1int } else { 0int }),
            width == max_width(rows@),
            forall|k: int| 0 <= k < rows@.len() ==> (#[trigger] rows@[k])@.len() <= width,
            data@.len() == i - first,
            forall|k: int| 0 <= k < data@.len() ==> (#[trigger] data@[k])@ == csv_cell_row(rows@[k + first]@, width as nat),
        decreases rows.len() - i,
    {
        data.push(csv_row_cells(&rows[i], width));
        i = i + 1;
    }
    proof {
        assert(rows_view(data@) =~= csv_data_rows(rows@, no_header));
    }
    (headers, data, width)
}

impl SheetData {
    /// Build sheet data from a spreadsheet range and its formulas: the first row
    /// gives the headers unless `no_header`, in which case every row is data and
    /// the headers are column letters.
    pub fn from_range_with_formulas(
        range: CellRange,
        formula_range: Option<FormulaRange>,
        no_header: bool,
    ) -> (d: SheetData)
        requires
            range.wf(),
        ensures
            d.wf(),
            d.width == range.width,
            d.height == range_data_rows(range, no_header).len(),
            texts_view(d.headers@) == range_header_texts(range, no_header),
            rows_view(d.rows@) == rows_view(range_data_rows(range, no_header)),
            grid_view(d.formulas@) == formula_grid(formula_range, range.width as nat, 0, d.height as nat, no_header),
    {
        let ghost r0 = range;
        let width = range.width;
        let headers = if !no_header && range.rows.len() > 0 {
            let h = Self::header_row(&range.rows[0]);
            proof {
                assert(texts_view(h@).len() == h@.len());
                assert(h@.len() == r0.rows@[0]@.len());
            }
            h
        } else {
            let h = Self::default_headers(width);
            proof {
                assert(texts_view(h@).len() == h@.len());
            }
            h
        };
        let mut rows = range.rows;
        if !no_header && rows.len() > 0 {
            rows.remove(0);
        }
        proof {
            assert(rows@ =~= range_data_rows(r0, no_header));
        }
        let row_count = rows.len();
        let formulas = match &formula_range {
            Some(f) => Self::build_formula_grid(f, width, 0, row_count, no_header),
            None => empty_formula_grid(width, row_count, no_header),
        };
        proof {
            assert(grid_view(formulas@) =~= formula_grid(formula_range, width as nat, 0, row_count as nat, no_header));
            assert forall|i: int| 0 <= i < row_count implies (#[trigger] formulas@[i])@.len() == width by {
                assert(grid_view(formulas@)[i] == formulas@[i]@);
            }
            assert forall|i: int| 0 <= i < row_count implies (#[trigger] rows@[i])@.len() == width by {
                if !no_header && r0.rows@.len() > 0 {
                    assert(rows@[i] == r0.rows@[i + 1]);
                }
            }

        }
        SheetData { headers, rows, formulas, width, height: row_count }
    }

    /// Build sheet data from CSV records: the first record gives the headers
    /// unless `no_header`; every row is padded to the widest record; fields
    /// become cells as `CellValue::from_csv_field` reads them; there are no formulas.
    pub fn from_string_rows(rows: Vec<Vec<Field>>, no_header: bool) -> (d: SheetData)
        ensures
            d.wf(),
            d.width == max_width(rows@),
            texts_view(d.headers@) == csv_header_texts(rows@, no_header),
            rows_view(d.rows@) == csv_data_rows(rows@, no_header),
            grid_view(d.formulas@) == formula_grid(None, d.width as nat, 0, d.height as nat, no_header),
    {
        let (headers, data, width) = csv_parts(&rows, no_header);
        let height = data.len();
        let formulas = empty_formula_grid(width, height, no_header);
        proof {
            assert(grid_view(formulas@) =~= formula_grid(None, width as nat, 0, height as nat, no_header));
            assert forall|i: int| 0 <= i < height implies (#[trigger] formulas@[i])@.len() == width by {
                assert(grid_view(formulas@)[i] == formulas@[i]@);
            }
            assert forall|i: int| 0 <= i < height implies (#[trigger] data@[i])@.len() == width by {
                assert(rows_view(data@)[i] == data@[i]@);
                let first = if csv_has_header(rows@, no_header) { 1int } else { 0int };
                assert(rows_view(data@).len() == data@.len());
                assert(csv_data_rows(rows@, no_header).len() == rows@.len() - first);
                assert(csv_data_rows(rows@, no_header)[i] == csv_cell_row(rows@[i + first]@, width as nat));
            }
            assert(texts_view(headers@).len() == headers@.len());
        }
        SheetData { headers, rows: data, formulas, width, height }
    }
}

// ===== Lazily served sheets =====

/// Backing source for lazily-served rows.
pub enum LazySource {
    /// A spreadsheet range and its formulas (rows taken on demand).
    Excel { range: CellRange, formula_range: Option<FormulaRange> },
    /// CSV/TSV data already fully parsed in memory.
    Csv { rows: Vec<Vec<CellValue>> },
}

/// Lazy-loaded sheet data (serves rows on demand).
pub struct LazySheetData {
    pub source: LazySource,
    pub headers: Vec<String>,
    pub width: usize,
    pub height: usize,
}

/// The smaller of two integers.
pub open spec fn min_int(a: int, b: int) -> int {
    if a <= b { a } else { b }
}

impl LazySheetData {
    /// The sheet's data rows, for a sheet read with or without a header row.
    pub open spec fn data_rows(&self, no_header: bool) -> Seq<Vec<CellValue>> {
        match self.source {
            LazySource::Excel { range, .. } => if no_header {
                range.rows@
            } else {
                range.rows@.subrange(min_int(1, range.rows@.len() as int), range.rows@.len() as int)
            },
            LazySource::Csv { rows } => rows@,
        }
    }

    /// The formulas behind the sheet, if any.
    pub open spec fn formula_source(&self) -> Option<FormulaRange> {
        match self.source {
            LazySource::Excel { formula_range, .. } => formula_range,
            LazySource::Csv { .. } => None,
        }
    }

    /// The sheet was built for reading with (`!no_header`) or without a header
    /// row: `height` data rows of `width` cells, `width` headers.
    pub open spec fn wf(&self, no_header: bool) -> bool {
        &&& self.headers@.len() == self.width
        &&& self.data_rows(no_header).len() == self.height
        &&& forall|i: int| 0 <= i < self.height ==> (#[trigger] self.data_rows(no_header)[i])@.len() == self.width
        &&& match self.source {
            LazySource::Excel { range, .. } => {
                &&& range.wf()
                &&& range.width == self.width
                &&& texts_view(self.headers@) == range_header_texts(range, no_header)
            },
            LazySource::Csv { .. } => true,
        }
    }

    /// Build a lazy sheet from CSV records (see `SheetData::from_string_rows`).
    pub fn from_string_rows(rows: Vec<Vec<Field>>, no_header: bool) -> (d: LazySheetData)
        ensures
            d.wf(no_header),
            d.width == max_width(rows@),
            texts_view(d.headers@) == csv_header_texts(rows@, no_header),
            rows_view(d.data_rows(no_header)) == csv_data_rows(rows@, no_header),
            d.formula_source() is None,
    {
        let (headers, data, width) = csv_parts(&rows, no_header);
        let height = data.len();
        proof {
            assert forall|i: int| 0 <= i < height implies (#[trigger] data@[i])@.len() == width by {
                assert(rows_view(data@)[i] == data@[i]@);
                let first = if csv_has_header(rows@, no_header) { 1int } else { 0int };
                assert(rows_view(data@).len() == data@.len());
                assert(csv_data_rows(rows@, no_header).len() == rows@.len() - first);
                assert(csv_data_rows(rows@, no_header)[i] == csv_cell_row(rows@[i + first]@, width as nat));
            }
            assert(texts_view(headers@).len() == headers@.len());
        }
        LazySheetData { source: LazySource::Csv { rows: data }, headers, width, height }
    }

    /// Extracts headers only; defers row loading.
    pub fn from_range_with_formulas(
        range: CellRange,
        formula_range: Option<FormulaRange>,
        no_header: bool,
    ) -> (d: LazySheetData)
        requires
            range.wf(),
        ensures
            d.wf(no_header),
            d.width == range.width,
            d.height == range_data_rows(range, no_header).len(),
            texts_view(d.headers@) == range_header_texts(range, no_header),
            rows_view(d.data_rows(no_header)) == rows_view(range_data_rows(range, no_header)),
            d.formula_source() == formula_range,
    {
        let width = range.width;
        let headers = if !no_header && range.rows.len() > 0 {
            let h = SheetData::header_row(&range.rows[0]);
            proof {
                assert(texts_view(h@).len() == h@.len());
            }
            h
        } else {
            let h = SheetData::default_headers(width);
            proof {
                assert(texts_view(h@).len() == h@.len());
            }
            h
        };
        let h = range.rows.len();
        let height = if no_header { h } else if h > 0 { h - 1 } else { 0 };
        let d = LazySheetData { source: LazySource::Excel { range, formula_range }, headers, width, height };
        proof {
            assert(d.data_rows(no_header) =~= range_data_rows(range, no_header));
            assert forall|i: int| 0 <= i < height implies (#[trigger] d.data_rows(no_header)[i])@.len() == width by {
                if !no_header && h > 0 {
                    assert(d.data_rows(no_header)[i] == range.rows@[i + 1]);
                }
            }
        }
        d
    }

    /// Zero-indexed data rows `start..start + count` (clamped to the sheet),
    /// with their formulas; empty when `start` is at or past the end.
    pub fn get_rows(&self, start: usize, count: usize, no_header: bool) -> (r: (Vec<Vec<CellValue>>, Vec<Vec<Option<String>>>))
        requires
            self.wf(no_header),
        ensures
            ({
                let end = min_int(start + count, self.height as int);
                if end <= start {
                    r.0@.len() == 0 && r.1@.len() == 0
                } else {
                    &&& rows_view(r.0@) == rows_view(self.data_rows(no_header).subrange(start as int, end))
                    &&& grid_view(r.1@) == formula_grid(self.formula_source(), self.width as nat, start as int, (end - start) as nat, no_header)
                }
            }),
    {
        let end: usize = if count >= self.height || start >= self.height - count { self.height } else { start + count };
        if end <= start {
            return (Vec::new(), Vec::new());
        }
        match &self.source {
            LazySource::Excel { range, formula_range } => {
                let total = range.rows.len();
                proof {
                    assert(self.data_rows(no_header).len() == self.height);
                    if !no_header {
                        assert(total >= 1);
                    }
                }
                let skip = if no_header { start } else { start + 1 };
                let rows = copy_rows(&range.rows, skip, skip + (end - start));
                let formulas = match formula_range {
                    Some(f) => SheetData::build_formula_grid(f, self.width, start, end - start, no_header),
                    None => empty_formula_grid(self.width, end - start, no_header),
                };
                proof {
                    lemma_empty_grid_shift(self.width as nat, 0, start as int, (end - start) as nat, no_header);
                    assert(range.rows@.subrange(skip as int, skip + (end - start)) =~= self.data_rows(no_header).subrange(start as int, end as int));
                    assert(grid_view(formulas@) == formula_grid(self.formula_source(), self.width as nat, start as int, (end - start) as nat, no_header));
                }
                (rows, formulas)
            },
            LazySource::Csv { rows } => {
                let slice = copy_rows(rows, start, end);
                let formulas = empty_formula_grid(self.width, end - start, no_header);
                proof {
                    lemma_empty_grid_shift(self.width as nat, 0, start as int, (end - start) as nat, no_header);
                    assert(rows_view(slice@) == rows_view(self.data_rows(no_header).subrange(start as int, end as int)));
                }
                (slice, formulas)
            },
        }
    }

    /// Consumes lazy data and loads all rows into memory.
    pub fn to_sheet_data(self, no_header: bool) -> (d: SheetData)
        requires
            self.wf(no_header),
        ensures
            d.wf(),
            d.width == self.width,
            d.height == self.height,
            texts_view(d.headers@) == texts_view(self.headers@),
            rows_view(d.rows@) == rows_view(self.data_rows(no_header)),
            grid_view(d.formulas@) == formula_grid(self.formula_source(), self.width as nat, 0, self.height as nat, no_header),
    {
        let ghost old_self = self;
        match self.source {
            LazySource::Excel { range, formula_range } => {
                let d = SheetData::from_range_with_formulas(range, formula_range, no_header);
                proof {
                    assert(old_self.data_rows(no_header) =~= range_data_rows(range, no_header));
                }
                d
            },
            LazySource::Csv { rows } => {
                let width = self.width;
                let height = rows.len();
                let formulas = empty_formula_grid(width, height, no_header);
                proof {
                    assert forall|i: int| 0 <= i < height implies (#[trigger] formulas@[i])@.len() == width by {
                        assert(grid_view(formulas@)[i] == formulas@[i]@);
                    }
                }
                SheetData { headers: self.headers, rows, formulas, width, height }
            },
        }
    }
}

/// The lazy and the eager readers of one range agree: built from the same
/// range, formulas and header setting (as their constructors state), they
/// have the same size and headers, and the rows and formulas the lazy one
/// serves for any window (see `LazySheetData::get_rows`) are the eager one's
/// rows and formulas there.
pub proof fn lazy_and_eager_sheets_agree(
    range: CellRange,
    formula_range: Option<FormulaRange>,
    no_header: bool,
    lazy: LazySheetData,
    eager: SheetData,
    start: int,
    end: int,
)
    requires
        range.wf(),
        eager.wf(),
        eager.width == range.width,
        eager.height == range_data_rows(range, no_header).len(),
        texts_view(eager.headers@) == range_header_texts(range, no_header),
        rows_view(eager.rows@) == rows_view(range_data_rows(range, no_header)),
        grid_view(eager.formulas@) == formula_grid(formula_range, range.width as nat, 0, eager.height as nat, no_header),
        lazy.wf(no_header),
        lazy.width == range.width,
        lazy.height == range_data_rows(range, no_header).len(),
        texts_view(lazy.headers@) == range_header_texts(range, no_header),
        rows_view(lazy.data_rows(no_header)) == rows_view(range_data_rows(range, no_header)),
        lazy.formula_source() == formula_range,
        0 <= start <= end <= eager.height,
    ensures
        lazy.height == eager.height,
        lazy.width == eager.width,
        texts_view(lazy.headers@) == texts_view(eager.headers@),
        rows_view(lazy.data_rows(no_header).subrange(start, end)) == rows_view(eager.rows@.subrange(start, end)),
        formula_grid(lazy.formula_source(), lazy.width as nat, start, (end - start) as nat, no_header)
            == grid_view(eager.formulas@.subrange(start, end)),
{
    let lr = lazy.data_rows(no_header);
    assert forall|i: int| 0 <= i < end - start implies
        #[trigger] rows_view(lr.subrange(start, end))[i] == rows_view(eager.rows@.subrange(start, end))[i] by {
        assert(rows_view(lr)[start + i] == rows_view(range_data_rows(range, no_header))[start + i]);
        assert(rows_view(eager.rows@)[start + i] == rows_view(range_data_rows(range, no_header))[start + i]);
    }
    assert(rows_view(lr.subrange(start, end)) =~= rows_view(eager.rows@.subrange(start, end)));
    let g = formula_grid(formula_range, range.width as nat, start, (end - start) as nat, no_header);
    assert forall|i: int| 0 <= i < end - start implies #[trigger] g[i] == grid_view(eager.formulas@.subrange(start, end))[i] by {
        assert(grid_view(eager.formulas@)[start + i] == formula_grid(formula_range, range.width as nat, 0, eager.height as nat, no_header)[start + i]);
    }
    assert(g =~= grid_view(eager.formulas@.subrange(start, end)));
}

} // verus!
