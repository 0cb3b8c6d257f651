//! CSV/TSV files, read as a single sheet.

use vstd::prelude::*;
use crate::number::Number;
use crate::sheet::{
    csv_data_rows, csv_header_texts, max_width, rows_view, texts_view, Field, LazySheetData, SheetData,
};
use crate::text::{ascii_lower_text, ascii_lowercase, chars_of, push_decimal, push_str, string_of};

verus! {

/// What the CSV reader makes of `contents` with fields split at `delimiter`,
/// reading every record as data and accepting records of any length: the
/// fields of each record, or the position of the first record it cannot
/// read.
pub uninterp spec fn csv_records(contents: Seq<u8>, delimiter: u8) -> Result<Seq<Seq<Seq<char>>>, nat>;

/// The texts of records of fields.
pub open spec fn records_view(rows: Seq<Vec<String>>) -> Seq<Seq<Seq<char>>> {
    rows.map_values(|r: Vec<String>| texts_view(r@))
}

/// Reads every record of `contents` with the `csv` crate (`ReaderBuilder`
/// with no header row, flexible record lengths and the given delimiter,
/// then `records()`), stopping at the first record that fails. Claimed: the
/// result is `csv_records` of the bytes and the delimiter.
#[verifier::external_body]
fn read_records(contents: &[u8], delimiter: u8) -> (r: Result<Vec<Vec<String>>, usize>)
    ensures
        match r {
            Ok(rows) => csv_records(contents@, delimiter) == Ok::<Seq<Seq<Seq<char>>>, nat>(records_view(rows@)),
            Err(i) => csv_records(contents@, delimiter) == Err::<Seq<Seq<Seq<char>>>, nat>(i as nat),
        },
{
    let mut reader = csv::ReaderBuilder::new().has_headers(false).flexible(true).delimiter(delimiter).from_reader(
        contents,
    );
    reader.records().enumerate().map(|(i, record)| record.map(|rec| rec.iter().map(String::from).collect()).map_err(
        |_| i,
    )).collect()
}

/// A path that is a bare file name on every platform: not empty, not `.` or
/// `..`, and without `/`, `\\` or `:` (so without separators or a drive
/// prefix).
pub open spec fn is_bare_file_name(p: Seq<char>) -> bool {
    &&& p.len() > 0
    &&& p != "."@
    &&& p != ".."@
    &&& !p.contains('/')
    &&& !p.contains('\\')
    &&& !p.contains(':')
}

/// The position of the last `.` among the first `n` characters (-1 if none).
pub open spec fn last_dot_before(p: Seq<char>, n: int) -> int
    decreases n,
{
    if n <= 0 {
        -1
    } else if p[n - 1] == '.' {
        n - 1
    } else {
        last_dot_before(p, n - 1)
    }
}

/// The extension of a bare file name: the part after its last `.`; none
/// when it has no `.`, or its only `.` is its first character.
pub open spec fn bare_extension(p: Seq<char>) -> Option<Seq<char>> {
    let d = last_dot_before(p, p.len() as int);
    if d <= 0 { None } else { Some(p.subrange(d + 1, p.len() as int)) }
}

/// The stem of a bare file name: the part before its last `.`; the whole
/// name when it has no `.`, or its only `.` is its first character.
pub open spec fn bare_stem(p: Seq<char>) -> Seq<char> {
    let d = last_dot_before(p, p.len() as int);
    if d <= 0 { p } else { p.subrange(0, d) }
}

/// The position of the last `/` among the first `n` characters (-1 if none).
pub open spec fn last_slash_before(p: Seq<char>, n: int) -> int
    decreases n,
{
    if n <= 0 {
        -1
    } else if p[n - 1] == '/' {
        n - 1
    } else {
        last_slash_before(p, n - 1)
    }
}

/// The text after a path's last `/` (the whole path when it has none).
pub open spec fn file_name_of(p: Seq<char>) -> Seq<char> {
    p.subrange(last_slash_before(p, p.len() as int) + 1, p.len() as int)
}

/// A path whose components are split at `/` alone on every platform and
/// whose last component is a file name: no `\\`, no `:` (so no drive or
/// other prefix), not starting with `//`, and the text after its last `/`
/// a bare file name (so no trailing `/`, and not `.` or `..`).
pub open spec fn is_plain_path(p: Seq<char>) -> bool {
    &&& !p.contains('\\')
    &&& !p.contains(':')
    &&& !(p.len() >= 2 && p[0] == '/' && p[1] == '/')
    &&& is_bare_file_name(file_name_of(p))
}

/// The extension of a plain path: that of its file name.
pub open spec fn plain_extension(p: Seq<char>) -> Option<Seq<char>> {
    bare_extension(file_name_of(p))
}

/// The file stem of a plain path: that of its file name.
pub open spec fn plain_stem(p: Seq<char>) -> Seq<char> {
    bare_stem(file_name_of(p))
}

/// `Path::extension` of a path, as text. Claimed, as its documentation
/// says: a path without a `.` has no extension, and an extension (the part of
/// the file name after its last `.`) holds no `.`; for a plain path (see
/// `is_plain_path`), whose file name is the text after its last `/` on every
/// platform, the extension is `plain_extension`. Nothing is claimed of other
/// paths: which characters separate a path's components, and which start a
/// prefix, depends on the platform.
#[verifier::external_body]
pub(crate) fn path_extension(path: &str) -> (e: Option<String>)
    ensures
        !path@.contains('.') ==> e is None,
        e matches Some(x) ==> !x@.contains('.'),
        is_plain_path(path@) ==> (e is None <==> plain_extension(path@) is None),
        is_plain_path(path@) ==> (e matches Some(x) ==> plain_extension(path@) == Some(x@)),
{
    std::path::Path::new(path).extension().and_then(|e| e.to_str()).map(|e| e.to_string())
}

/// `Path::file_stem` of a path, as text (lossily). Claimed, as its
/// documentation says: a plain path (see `is_plain_path`), whose file name
/// is the text after its last `/` on every platform, has the stem
/// `plain_stem`. Nothing is claimed of other paths: which characters
/// separate a path's components, and which start a prefix, depends on the
/// platform.
#[verifier::external_body]
fn path_file_stem(path: &str) -> (stem: Option<String>)
    ensures
        is_plain_path(path@) ==> stem is Some,
        stem matches Some(x) ==> (is_plain_path(path@) ==> x@ == plain_stem(path@)),
{
    std::path::Path::new(path).file_stem().map(|s| s.to_string_lossy().into_owned())
}

/// The field delimiter for a file extension: a tab for `tsv` (in any ASCII
/// case), a comma otherwise.
pub open spec fn delimiter_for(ext: Option<Seq<char>>) -> u8 {
    match ext {
        Some(e) => if ascii_lower_text(e) == "tsv"@ { 9 } else { 44 },
        None => 44,
    }
}

/// The field delimiter for a file extension (see `delimiter_for`).
pub fn delimiter_for_extension(ext: Option<&str>) -> (d: u8)
    ensures
        d == delimiter_for(match ext {
            Some(e) => Some(e@),
            None => None,
        }),
{
    match ext {
        Some(e) => {
            let lower = ascii_lowercase(&chars_of(e));
            let tsv = chars_of("tsv");
            if vec_eq(&lower, &tsv) {
                9
            } else {
                44
            }
        },
        None => 44,
    }
}

fn vec_eq(a: &Vec<char>, b: &Vec<char>) -> (r: bool)
    ensures
        r == (a@ == b@),
{
    if a.len() != b.len() {
        return false;
    }
    let mut i: usize = 0;
    while i < a.len()
        invariant
            a@.len() == b@.len(),
            i <= a@.len(),
            forall|k: int| 0 <= k < i ==> a@[k] == b@[k],
        decreases a.len() - i,
    {
        if a[i] != b[i] {
            return false;
        }
        i = i + 1;
    }
    proof {
        assert(a@ =~= b@);
    }
    true
}

/// Infer the field delimiter from a path's extension: a tab for `.tsv`
/// files, a comma otherwise (see `delimiter_for`; for a plain path the
/// extension is `plain_extension`).
pub fn default_delimiter(path: &str) -> (d: u8)
    ensures
        d == 9 || d == 44,
        !path@.contains('.') ==> d == 44,
        is_plain_path(path@) ==> d == delimiter_for(plain_extension(path@)),
{
    match path_extension(path) {
        Some(e) => delimiter_for_extension(Some(e.as_str())),
        None => delimiter_for_extension(None),
    }
}

/// The sheet name of a CSV file: its file stem, or `CSV` when it has none.
pub fn sheet_name_for(stem: Option<String>) -> (s: String)
    ensures
        s@ == match stem {
            Some(t) => t@,
            None => "CSV"@,
        },
{
    match stem {
        Some(t) => t,
        None => string_of("CSV"),
    }
}

/// A CSV record that could not be read.
pub struct CsvError {
    /// Position of the record (0-based).
    pub record: usize,
}

impl CsvError {
    /// `Failed to parse CSV record N`, N counting from 1.
    pub fn message(&self) -> (s: String)
        requires
            self.record < usize::MAX,
        ensures
            s@ == "Failed to parse CSV record "@ + crate::text::decimal((self.record + 1) as nat),
    {
        let mut s = string_of("Failed to parse CSV record ");
        push_decimal(&mut s, (self.record + 1) as u64);
        s
    }
}

/// A CSV/TSV file parsed fully into memory as one sheet.
pub struct CsvData {
    /// Display name for the single sheet (derived from the file name).
    pub sheet_name: String,
    /// The field delimiter the file was read with.
    pub delimiter: u8,
    /// All records, including the header row (if any), as raw strings.
    pub rows: Vec<Vec<String>>,
}

/// The fields `f` hold the records' texts with the float readings `numbers`
/// of their trimmed texts.
pub open spec fn fields_match(f: Seq<Vec<Field>>, rows: Seq<Vec<String>>, numbers: Seq<Vec<Option<Number>>>) -> bool {
    &&& f.len() == rows.len()
    &&& forall|i: int| 0 <= i < f.len() ==> (#[trigger] f[i])@.len() == rows[i]@.len()
    &&& forall|i: int, j: int| 0 <= i < f.len() && 0 <= j < f[i]@.len() ==> {
        &&& (#[trigger] f[i]@[j]).text@ == rows[i]@[j]@
        &&& f[i]@[j].number == numbers[i]@[j]
    }
}

/// `numbers` gives one reading per field of `rows`.
pub open spec fn numbers_fit(rows: Seq<Vec<String>>, numbers: Seq<Vec<Option<Number>>>) -> bool {
    &&& numbers.len() == rows.len()
    &&& forall|i: int| 0 <= i < rows.len() ==> (#[trigger] numbers[i])@.len() == rows[i]@.len()
}

impl CsvData {
    /// Parse the `contents` of the CSV/TSV file at `path`. Without a
    /// `delimiter`, it is inferred from the extension (see
    /// `default_delimiter`); the sheet is named after the file's stem.
    /// Fails at the first record that cannot be read.
    pub fn open(path: &str, contents: &[u8], delimiter: Option<u8>) -> (r: Result<CsvData, CsvError>)
        ensures
            match r {
                Ok(c) => {
                    &&& delimiter matches Some(d) ==> c.delimiter == d
                    &&& delimiter is None ==> c.delimiter == 9 || c.delimiter == 44
                    &&& delimiter is None && is_plain_path(path@) ==> c.delimiter == delimiter_for(plain_extension(path@))
                    &&& is_plain_path(path@) ==> c.sheet_name@ == plain_stem(path@)
                    &&& csv_records(contents@, c.delimiter) == Ok::<Seq<Seq<Seq<char>>>, nat>(records_view(c.rows@))
                },
                Err(e) => {
                    &&& delimiter matches Some(d) ==> csv_records(contents@, d) == Err::<Seq<Seq<Seq<char>>>, nat>(e.record as nat)
                    &&& delimiter is None ==> csv_records(contents@, 9) == Err::<Seq<Seq<Seq<char>>>, nat>(e.record as nat)
                        || csv_records(contents@, 44) == Err::<Seq<Seq<Seq<char>>>, nat>(e.record as nat)
                    &&& delimiter is None && is_plain_path(path@) ==> csv_records(contents@, delimiter_for(plain_extension(path@)))
                        == Err::<Seq<Seq<Seq<char>>>, nat>(e.record as nat)
                },
            },
    {
        let d = match delimiter {
            Some(d) => d,
            None => default_delimiter(path),
        };
        let sheet_name = sheet_name_for(path_file_stem(path));
        match read_records(contents, d) {
            Ok(rows) => Ok(CsvData { sheet_name, delimiter: d, rows }),
            Err(i) => Err(CsvError { record: i }),
        }
    }

    /// The records as fields, each with the float reading of its trimmed
    /// text from `numbers`.
    pub fn fields(&self, numbers: &Vec<Vec<Option<Number>>>) -> (f: Vec<Vec<Field>>)
        requires
            numbers_fit(self.rows@, numbers@),
        ensures
            fields_match(f@, self.rows@, numbers@),
    {
        let mut f: Vec<Vec<Field>> = Vec::new();
        let mut i: usize = 0;
        while i < self.rows.len()
            invariant
                i <= self.rows@.len(),
                numbers_fit(self.rows@, numbers@),
                f@.len() == i,
                forall|k: int| 0 <= k < i ==> (#[trigger] f@[k])@.len() == self.rows@[k]@.len(),
                forall|k: int, j: int| 0 <= k < i && 0 <= j < f@[k]@.len() ==> {
                    &&& (#[trigger] f@[k]@[j]).text@ == self.rows@[k]@[j]@
                    &&& f@[k]@[j].number == numbers@[k]@[j]
                },
            decreases self.rows.len() - i,
        {
            let row = &self.rows[i];
            let nums = &numbers[i];
            let mut out: Vec<Field> = Vec::new();
            let mut j: usize = 0;
            while j < row.len()
                invariant
                    i < self.rows@.len(),
                    *row == self.rows@[i as int],
                    *nums == numbers@[i as int],
                    nums@.len() == row@.len(),
                    j <= row@.len(),
                    out@.len() == j,
                    forall|m: int| 0 <= m < j ==> {
                        &&& (#[trigger] out@[m]).text@ == row@[m]@
                        &&& out@[m].number == nums@[m]
                    },
                decreases row.len() - j,
            {
                let number = match &nums[j] {
                    Some(n) => Some(n.copy()),
                    None => None,
                };
                out.push(Field { text: row[j].clone(), number });
                j = j + 1;
            }
            f.push(out);
            i = i + 1;
        }
        f
    }

    /// Materialize all rows into an eager sheet (see
    /// `SheetData::from_string_rows`), reading each field with its float
    /// reading from `numbers`.
    pub fn to_sheet_data(&self, numbers: &Vec<Vec<Option<Number>>>, no_header: bool) -> (d: SheetData)
        requires
            numbers_fit(self.rows@, numbers@),
        ensures
            d.wf(),
            exists|f: Seq<Vec<Field>>| #[trigger] fields_match(f, self.rows@, numbers@) && {
                &&& d.width == max_width(f)
                &&& texts_view(d.headers@) == csv_header_texts(f, no_header)
                &&& rows_view(d.rows@) == csv_data_rows(f, no_header)
            },
    {
        let f = self.fields(numbers);
        let ghost fv = f@;
        let d = SheetData::from_string_rows(f, no_header);
        proof {
            assert(fields_match(fv, self.rows@, numbers@));
        }
        d
    }

    /// Build a lazy sheet (the file is already in memory; see
    /// `LazySheetData::from_string_rows`), reading each field with its float
    /// reading from `numbers`.
    pub fn to_lazy_sheet_data(&self, numbers: &Vec<Vec<Option<Number>>>, no_header: bool) -> (d: LazySheetData)
        requires
            numbers_fit(self.rows@, numbers@),
        ensures
            d.wf(no_header),
            d.formula_source() is None,
            exists|f: Seq<Vec<Field>>| #[trigger] fields_match(f, self.rows@, numbers@) && {
                &&& d.width == max_width(f)
                &&& texts_view(d.headers@) == csv_header_texts(f, no_header)
                &&& rows_view(d.data_rows(no_header)) == csv_data_rows(f, no_header)
            },
    {
        let f = self.fields(numbers);
        let ghost fv = f@;
        let d = LazySheetData::from_string_rows(f, no_header);
        proof {
            assert(fields_match(fv, self.rows@, numbers@));
        }
        d
    }
}

} // verus!
