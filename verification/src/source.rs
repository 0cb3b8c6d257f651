//! The viewer's sheet source: small sheets fully loaded, large ones served
//! lazily through a row cache.

use vstd::prelude::*;
use crate::cell::CellValue;
use crate::sheet::{
    copy_formula_rows, copy_rows, formula_grid, grid_view, min_int, rows_view, texts_view,
    LazySheetData, SheetData,
};

verus! {

/// Cached row data for lazy loading.
pub struct RowCache {
    pub start_row: usize,
    pub rows: Vec<Vec<CellValue>>,
    pub formulas: Vec<Vec<Option<String>>>,
}

/// Sheet data source (either eager or lazy).
pub enum SheetDataSource {
    Eager(SheetData),
    Lazy {
        data: LazySheetData,
        cache: Option<RowCache>,
        /// Number of rows to cache at once.
        cache_size: usize,
        no_header: bool,
    },
}

/// Sheets taller than this are served lazily.
pub const LAZY_LOADING_THRESHOLD: usize = 1000;

/// Rows loaded into the cache at once.
pub const ROW_CACHE_SIZE: usize = 200;

impl SheetDataSource {
    pub open spec fn spec_height(&self) -> nat {
        match self {
            SheetDataSource::Eager(d) => d.height as nat,
            SheetDataSource::Lazy { data, .. } => data.height as nat,
        }
    }

    pub open spec fn spec_width(&self) -> nat {
        match self {
            SheetDataSource::Eager(d) => d.width as nat,
            SheetDataSource::Lazy { data, .. } => data.width as nat,
        }
    }

    pub open spec fn spec_headers(&self) -> Seq<Seq<char>> {
        match self {
            SheetDataSource::Eager(d) => texts_view(d.headers@),
            SheetDataSource::Lazy { data, .. } => texts_view(data.headers@),
        }
    }

    /// Every data row the source serves.
    pub open spec fn all_rows(&self) -> Seq<Seq<CellValue>> {
        match self {
            SheetDataSource::Eager(d) => rows_view(d.rows@),
            SheetDataSource::Lazy { data, no_header, .. } => rows_view(data.data_rows(*no_header)),
        }
    }

    /// The formulas of every data row the source serves.
    pub open spec fn all_formulas(&self) -> Seq<Seq<Option<String>>> {
        match self {
            SheetDataSource::Eager(d) => grid_view(d.formulas@),
            SheetDataSource::Lazy { data, no_header, .. } =>
                formula_grid(data.formula_source(), data.width as nat, 0, data.height as nat, *no_header),
        }
    }

    /// The cache holds a window of the sheet's rows and their formulas.
    pub open spec fn cache_ok(data: LazySheetData, c: RowCache, no_header: bool) -> bool {
        &&& c.start_row + c.rows@.len() <= data.height
        &&& rows_view(c.rows@) == rows_view(data.data_rows(no_header)).subrange(
            c.start_row as int,
            c.start_row + c.rows@.len(),
        )
        &&& grid_view(c.formulas@) == formula_grid(
            data.formula_source(),
            data.width as nat,
            c.start_row as int,
            c.rows@.len(),
            no_header,
        )
    }

    pub open spec fn wf(&self) -> bool {
        match self {
            SheetDataSource::Eager(d) => d.wf(),
            SheetDataSource::Lazy { data, cache, no_header, .. } => {
                &&& data.wf(*no_header)
                &&& (cache matches Some(c) ==> Self::cache_ok(*data, *c, *no_header))
            },
        }
    }

    /// Two sources serve the same sheet (they may differ in what they cache).
    pub open spec fn same_sheet(&self, other: &Self) -> bool {
        &&& self.spec_height() == other.spec_height()
        &&& self.spec_width() == other.spec_width()
        &&& self.spec_headers() == other.spec_headers()
        &&& self.all_rows() == other.all_rows()
        &&& self.all_formulas() == other.all_formulas()
        &&& (self is Eager <==> other is Eager)
    }

    /// The source serves the sheet held by `data`, read with or without a
    /// header row, lazily exactly when it has more than
    /// `LAZY_LOADING_THRESHOLD` rows.
    pub open spec fn serves(&self, data: LazySheetData, no_header: bool) -> bool {
        &&& self.spec_height() == data.height
        &&& self.spec_width() == data.width
        &&& self.spec_headers() == texts_view(data.headers@)
        &&& self.all_rows() == rows_view(data.data_rows(no_header))
        &&& self.all_formulas() == formula_grid(data.formula_source(), data.width as nat, 0, data.height as nat, no_header)
        &&& (*self is Lazy) == (data.height > LAZY_LOADING_THRESHOLD)
    }

    /// Choose the loading strategy by size: sheets of more than
    /// `LAZY_LOADING_THRESHOLD` rows stay lazy behind an empty row cache of
    /// `ROW_CACHE_SIZE` rows; smaller ones are loaded eagerly.
    pub fn from_lazy(data: LazySheetData, no_header: bool) -> (s: SheetDataSource)
        requires
            data.wf(no_header),
        ensures
            s.wf(),
            s.spec_height() == data.height,
            s.spec_width() == data.width,
            s.spec_headers() == texts_view(data.headers@),
            s.all_rows() == rows_view(data.data_rows(no_header)),
            s.all_formulas() == formula_grid(data.formula_source(), data.width as nat, 0, data.height as nat, no_header),
            (s is Lazy) == (data.height > LAZY_LOADING_THRESHOLD),
            s.serves(data, no_header),
    {
        if data.height > LAZY_LOADING_THRESHOLD {
            SheetDataSource::Lazy { data, cache: None, cache_size: ROW_CACHE_SIZE, no_header }
        } else {
            SheetDataSource::Eager(data.to_sheet_data(no_header))
        }
    }

    pub fn headers(&self) -> (h: &Vec<String>)
        ensures
            texts_view(h@) == self.spec_headers(),
    {
        match self {
            SheetDataSource::Eager(data) => &data.headers,
            SheetDataSource::Lazy { data, .. } => &data.headers,
        }
    }

    pub fn width(&self) -> (w: usize)
        ensures
            w == self.spec_width(),
    {
        match self {
            SheetDataSource::Eager(data) => data.width,
            SheetDataSource::Lazy { data, .. } => data.width,
        }
    }

    pub fn height(&self) -> (h: usize)
        ensures
            h == self.spec_height(),
    {
        match self {
            SheetDataSource::Eager(data) => data.height,
            SheetDataSource::Lazy { data, .. } => data.height,
        }
    }

    /// Data rows `start..start + count` (clamped to the sheet) and their formulas.
    /// A lazy source reloads its cache whenever the request is not fully covered
    /// by it, so every requested row comes back.
    pub fn get_rows(&mut self, start: usize, count: usize) -> (r: (Vec<Vec<CellValue>>, Vec<Vec<Option<String>>>))
        requires
            old(self).wf(),
            *old(self) is Eager ==> start <= old(self).spec_height(),
        ensures
            final(self).wf(),
            final(self).same_sheet(old(self)),
            ({
                let end = min_int(start + count, old(self).spec_height() as int);
                if end <= start {
                    r.0@.len() == 0 && r.1@.len() == 0
                } else {
                    &&& rows_view(r.0@) == old(self).all_rows().subrange(start as int, end)
                    &&& grid_view(r.1@) == old(self).all_formulas().subrange(start as int, end)
                }
            }),
    {
        match self {
            SheetDataSource::Eager(data) => {
                let end = if count >= data.rows.len() - start { data.rows.len() } else { start + count };
                let rows = copy_rows(&data.rows, start, end);
                let formulas = copy_formula_rows(&data.formulas, start, end);
                proof {
                    assert(rows_view(data.rows@.subrange(start as int, end as int)) =~= rows_view(data.rows@).subrange(start as int, end as int));
                    assert(grid_view(data.formulas@.subrange(start as int, end as int)) =~= grid_view(data.formulas@).subrange(start as int, end as int));
                }
                (rows, formulas)
            },
            SheetDataSource::Lazy { data, cache, cache_size, no_header } => {
                lazy_rows(data, cache, *cache_size, *no_header, start, count)
            },
        }
    }

    /// The cell at (`row`, `col`) and its formula, if the cell exists.
    pub fn get_cell(&mut self, row: usize, col: usize) -> (r: (Option<CellValue>, Option<String>))
        requires
            old(self).wf(),
        ensures
            final(self).wf(),
            final(self).same_sheet(old(self)),
            r.0 == (if row < old(self).spec_height() && col < old(self).spec_width() {
                Some(old(self).all_rows()[row as int][col as int])
            } else {
                None::<CellValue>
            }),
            r.1 == (if row < old(self).spec_height() && col < old(self).spec_width() {
                old(self).all_formulas()[row as int][col as int]
            } else {
                None::<String>
            }),
    {
        match self {
            SheetDataSource::Eager(data) => {
                if row < data.rows.len() && col < data.rows[row].len() {
                    let cell = data.rows[row][col].copy();
                    let formula = match &data.formulas[row][col] {
                        Some(f) => Some(f.clone()),
                        None => None,
                    };
                    proof {
                        assert(rows_view(data.rows@)[row as int] == data.rows@[row as int]@);
                        assert(grid_view(data.formulas@)[row as int] == data.formulas@[row as int]@);
                    }
                    (Some(cell), formula)
                } else {
                    proof {
                        if row < data.height {
                            assert(data.rows@[row as int]@.len() == data.width);
                        }
                    }
                    (None, None)
                }
            },
            SheetDataSource::Lazy { .. } => {
                let ghost before = *self;
                let (rows, formulas) = self.get_rows(row, 1);
                if rows.len() > 0 && col < rows[0].len() {
                    proof {
                        assert(rows_view(rows@)[0] == rows@[0]@);
                        assert(grid_view(formulas@).len() == formulas@.len());
                        assert(grid_view(formulas@)[0] == formulas@[0]@);
                        assert(before.all_formulas()[row as int].len() == before.spec_width());
                    }
                    let cell = rows[0][col].copy();
                    let formula = match &formulas[0][col] {
                        Some(f) => Some(f.clone()),
                        None => None,
                    };
                    (Some(cell), formula)
                } else {
                    proof {
                        if row < before.spec_height() {
                            assert(rows_view(rows@).len() == rows@.len());
                            assert(rows_view(rows@)[0] == rows@[0]@);
                            assert(before.all_rows()[row as int].len() == before.spec_width());
                        }
                    }
                    (None, None)
                }
            },
        }
    }
}

/// A formula grid's rows `a..b` are the grid that starts `a` rows later.
proof fn lemma_grid_window(f: Option<crate::sheet::FormulaRange>, w: nat, s: int, n: nat, nh: bool, a: int, b: int)
    requires
        0 <= a <= b <= n,
    ensures
        formula_grid(f, w, s, n, nh).subrange(a, b) == formula_grid(f, w, s + a, (b - a) as nat, nh),
{
    assert(formula_grid(f, w, s, n, nh).subrange(a, b) =~= formula_grid(f, w, s + a, (b - a) as nat, nh));
}

/// Load the cache window starting a quarter cache before `start` that covers
/// `start..start + count` and holds at least `cache_size` rows (as the sheet allows).
fn reload_cache(data: &LazySheetData, cache_size: usize, no_header: bool, start: usize, count: usize) -> (c: RowCache)
    requires
        data.wf(no_header),
        start + count <= data.height,
    ensures
        SheetDataSource::cache_ok(*data, c, no_header),
        c.start_row <= start,
        start + count <= c.start_row + c.rows@.len(),
{
    let back = cache_size / 4;
    let cache_start = if start >= back { start - back } else { 0 };
    let need = start + count - cache_start;
    let load = if cache_size > need { cache_size } else { need };
    let (rows, formulas) = data.get_rows(cache_start, load, no_header);
    proof {
        let end = min_int(cache_start + load, data.height as int);
        if end > cache_start {
            assert(rows_view(data.data_rows(no_header).subrange(cache_start as int, end)) =~= rows_view(data.data_rows(no_header)).subrange(cache_start as int, end));
        } else {
            assert(rows_view(rows@) =~= rows_view(data.data_rows(no_header)).subrange(cache_start as int, end));
            assert(grid_view(formulas@) =~= formula_grid(data.formula_source(), data.width as nat, cache_start as int, 0, no_header));
        }
        assert(rows_view(rows@).len() == rows@.len());
    }
    RowCache { start_row: cache_start, rows, formulas }
}

/// Rows `start..start + count` of a lazy sheet, reloading the cache when the
/// request is not fully covered by it.
fn lazy_rows(
    data: &LazySheetData,
    cache: &mut Option<RowCache>,
    cache_size: usize,
    no_header: bool,
    start: usize,
    count: usize,
) -> (r: (Vec<Vec<CellValue>>, Vec<Vec<Option<String>>>))
    requires
        data.wf(no_header),
        *old(cache) matches Some(c) ==> SheetDataSource::cache_ok(*data, c, no_header),
    ensures
        *final(cache) matches Some(c) ==> SheetDataSource::cache_ok(*data, c, no_header),
        ({
            let end = min_int(start + count, data.height as int);
            if end <= start {
                r.0@.len() == 0 && r.1@.len() == 0
            } else {
                &&& rows_view(r.0@) == rows_view(data.data_rows(no_header)).subrange(start as int, end)
                &&& grid_view(r.1@) == formula_grid(data.formula_source(), data.width as nat, 0, data.height as nat, no_header).subrange(start as int, end)
            }
        }),
{
    if start >= data.height {
        return (Vec::new(), Vec::new());
    }
    // Clamp to the rows that actually exist.
    let count = if count < data.height - start { count } else { data.height - start };
    let covered = match cache {
        None => false,
        Some(c) => c.start_row <= start && start - c.start_row <= c.rows.len()
            && count <= c.rows.len() - (start - c.start_row),
    };
    if !covered {
        *cache = Some(reload_cache(data, cache_size, no_header, start, count));
    }
    match cache {
        Some(c) => {
            let offset = start - c.start_row;
            let rows = copy_rows(&c.rows, offset, offset + count);
            proof {
                assert(grid_view(c.formulas@).len() == c.formulas@.len());
                assert(rows_view(c.rows@).len() == c.rows@.len());
            }
            let formulas = copy_formula_rows(&c.formulas, offset, offset + count);
            proof {
                let all = rows_view(data.data_rows(no_header));
                assert(rows_view(c.rows@.subrange(offset as int, offset + count)) =~= rows_view(c.rows@).subrange(offset as int, offset + count));
                assert(rows_view(c.rows@).subrange(offset as int, offset + count) =~= all.subrange(start as int, start + count));
                assert(grid_view(c.formulas@.subrange(offset as int, offset + count)) =~= grid_view(c.formulas@).subrange(offset as int, offset + count));
                lemma_grid_window(data.formula_source(), data.width as nat, c.start_row as int, c.rows@.len(), no_header, offset as int, offset + count);
                lemma_grid_window(data.formula_source(), data.width as nat, 0, data.height as nat, no_header, start as int, start + count);
            }
            (rows, formulas)
        },
        None => (Vec::new(), Vec::new()),
    }
}

} // verus!
