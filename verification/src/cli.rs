//! The command line's settings and the decisions made from them: colors,
//! delimiters, which sheet to show, and the export format.

use vstd::prelude::*;
use crate::cell::parse_usize_text;
use crate::export::join;
use crate::sheet::texts_view;
use crate::utils::FileType;
use crate::text::{chars_of, decimal, push_decimal, push_str, str_eq, string_of};

verus! {

/// The command line's settings.
pub struct Cli {
    /// Path to the spreadsheet file.
    pub file: String,
    /// Sheet name or 1-based index to display (default: first sheet).
    pub sheet: Option<String>,
    /// Export format: csv, json, text.
    pub export: Option<String>,
    /// Maximum number of rows to display (0 = all).
    pub max_rows: usize,
    /// Show formulas instead of values.
    pub formulas: bool,
    /// Maximum column width in characters.
    pub max_width: usize,
    /// Wrap long text instead of truncating.
    pub wrap: bool,
    /// Interactive mode.
    pub interactive: bool,
    /// Horizontal scrolling in interactive mode (auto-sized columns).
    pub horizontal_scroll: bool,
    /// Path to a custom config file.
    pub config: Option<String>,
    /// List all tables of the workbook.
    pub list_tables: bool,
    /// Extract a table by name.
    pub table: Option<String>,
    /// Treat the first row as data, not headers.
    pub no_header: bool,
    /// Hide the column-letter row in interactive mode.
    pub no_column_id: bool,
    /// Hide the row-number column in interactive mode.
    pub no_row_id: bool,
    /// Disable colored output.
    pub no_color: bool,
    /// Force colored output even when piped.
    pub color: bool,
    /// Delimiter for CSV/text export.
    pub delimiter: Option<String>,
    /// Field delimiter when reading CSV/TSV input.
    pub csv_delimiter: Option<String>,
}

/// Whether output is colored: `--no-color` turns it off, `--color` on,
/// otherwise it is on exactly when writing to a terminal.
pub open spec fn spec_use_color(no_color: bool, color: bool, is_terminal: bool) -> bool {
    if no_color { false } else if color { true } else { is_terminal }
}

pub fn use_color(no_color: bool, color: bool, is_terminal: bool) -> (b: bool)
    ensures
        b == spec_use_color(no_color, color, is_terminal),
{
    if no_color { false } else if color { true } else { is_terminal }
}

/// The message for a `--csv-delimiter` that is not one ASCII character.
pub open spec fn bad_delimiter_text(d: Seq<char>) -> Seq<char> {
    "Invalid --csv-delimiter '"@ + d + "': expected a single ASCII character or '\\t'"@
}

/// The byte a `--csv-delimiter` names: `\t` (escaped or not) is a tab; any
/// other single ASCII character is itself; anything else is refused.
pub open spec fn spec_delimiter_byte(d: Option<Seq<char>>) -> Result<Option<u8>, Seq<char>> {
    match d {
        None => Ok(None),
        Some(t) => if t == "\\t"@ || t == "\t"@ {
            Ok(Some(9u8))
        } else if t.len() == 1 && (t[0] as u32) < 128 {
            Ok(Some((t[0] as u32) as u8))
        } else {
            Err(bad_delimiter_text(t))
        },
    }
}

/// Parse a user-supplied CSV delimiter into a single byte (see
/// `spec_delimiter_byte`).
pub fn parse_delimiter_byte(delimiter: Option<&str>) -> (r: Result<Option<u8>, String>)
    ensures
        match r {
            Ok(b) => spec_delimiter_byte(match delimiter {
                Some(d) => Some(d@),
                None => None,
            }) == Ok::<Option<u8>, Seq<char>>(b),
            Err(m) => spec_delimiter_byte(match delimiter {
                Some(d) => Some(d@),
                None => None,
            }) == Err::<Option<u8>, Seq<char>>(m@),
        },
{
    match delimiter {
        None => Ok(None),
        Some(d) => {
            if str_eq(d, "\\t") || str_eq(d, "\t") {
                return Ok(Some(9u8));
            }
            let v = chars_of(d);
            if v.len() == 1 && (v[0] as u32) < 128 {
                let c: u32 = v[0] as u32;
                let b: u8 = c as u8;
                Ok(Some(b))
            } else {
                let mut m = string_of("Invalid --csv-delimiter '");
                push_str(&mut m, d);
                push_str(&mut m, "': expected a single ASCII character or '\\t'");
                Err(m)
            }
        },
    }
}

/// An export format.
#[derive(Debug, Clone, Copy, PartialEq, Eq, Structural)]
pub enum ExportFormat {
    Csv,
    Json,
    Text,
}

/// The export format a name selects: `csv`, `json` or `text`; anything
/// else is refused with a message.
pub open spec fn spec_export_format(name: Seq<char>) -> Result<ExportFormat, Seq<char>> {
    if name == "csv"@ {
        Ok(ExportFormat::Csv)
    } else if name == "json"@ {
        Ok(ExportFormat::Json)
    } else if name == "text"@ {
        Ok(ExportFormat::Text)
    } else {
        Err("Unknown export format: "@ + name + ". Use: csv, json, or text"@)
    }
}

pub fn parse_export_format(name: &str) -> (r: Result<ExportFormat, String>)
    ensures
        match r {
            Ok(f) => spec_export_format(name@) == Ok::<ExportFormat, Seq<char>>(f),
            Err(m) => spec_export_format(name@) == Err::<ExportFormat, Seq<char>>(m@),
        },
{
    if str_eq(name, "csv") {
        Ok(ExportFormat::Csv)
    } else if str_eq(name, "json") {
        Ok(ExportFormat::Json)
    } else if str_eq(name, "text") {
        Ok(ExportFormat::Text)
    } else {
        let mut m = string_of("Unknown export format: ");
        push_str(&mut m, name);
        push_str(&mut m, ". Use: csv, json, or text");
        Err(m)
    }
}

/// The delimiter of an export: the one given, else a tab for text exports
/// and a comma otherwise.
pub open spec fn spec_export_delimiter(given: Option<Seq<char>>, format: ExportFormat) -> Seq<char> {
    match given {
        Some(d) => d,
        None => if format == ExportFormat::Text { "\t"@ } else { ","@ },
    }
}

pub fn export_delimiter(given: &Option<String>, format: ExportFormat) -> (d: String)
    ensures
        d@ == spec_export_delimiter(match given {
            Some(g) => Some(g@),
            None => None,
        }, format),
{
    match given {
        Some(g) => g.clone(),
        None => if format == ExportFormat::Text { string_of("\t") } else { string_of(",") },
    }
}

/// The sheet a `--sheet` value selects among `names`: a sheet of that name,
/// else the sheet at that 1-based position; without a value, the first
/// sheet. Errors: no sheets, a position out of range, an unknown name.
pub open spec fn spec_select_sheet(names: Seq<Seq<char>>, requested: Option<Seq<char>>) -> Result<nat, Seq<char>> {
    if names.len() == 0 {
        Err("No sheets found in workbook"@)
    } else {
        match requested {
            None => Ok(0),
            Some(name) => if first_index(names, name, 0) < names.len() {
                Ok(first_index(names, name, 0) as nat)
            } else {
                match parse_usize_text(name) {
                    Some(idx) => if 0 < idx <= names.len() {
                        Ok((idx - 1) as nat)
                    } else {
                        Err("Sheet index "@ + decimal(idx as nat) + " out of range (1-"@ + decimal(names.len()) + ")"@)
                    },
                    None => Err("Sheet '"@ + name + "' not found. Available sheets: "@ + join(names, ", "@)),
                }
            },
        }
    }
}

/// The first position at or after `i` that holds `name` (or `names.len()`).
pub open spec fn first_index(names: Seq<Seq<char>>, name: Seq<char>, i: int) -> int
    decreases names.len() - i,
{
    if i < 0 || i >= names.len() {
        names.len() as int
    } else if names[i] == name {
        i
    } else {
        first_index(names, name, i + 1)
    }
}

/// The position of the sheet a `--sheet` value selects (see
/// `spec_select_sheet`).
#[verifier::loop_isolation(false)]
pub fn select_sheet(names: &Vec<String>, requested: Option<&str>) -> (r: Result<usize, String>)
    ensures
        match r {
            Ok(i) => spec_select_sheet(texts_view(names@), match requested {
                Some(n) => Some(n@),
                None => None,
            }) == Ok::<nat, Seq<char>>(i as nat),
            Err(m) => spec_select_sheet(texts_view(names@), match requested {
                Some(n) => Some(n@),
                None => None,
            }) == Err::<nat, Seq<char>>(m@),
        },
{
    let ghost tv = texts_view(names@);
    if names.len() == 0 {
        return Err(string_of("No sheets found in workbook"));
    }
    let name = match requested {
        None => return Ok(0),
        Some(n) => n,
    };
    let mut k: usize = 0;
    while k < names.len()
        invariant
            k <= names@.len(),
            tv == texts_view(names@),
            first_index(tv, name@, 0) == first_index(tv, name@, k as int),
        decreases names.len() - k,
    {
        if str_eq(names[k].as_str(), name) {
            proof {
                assert(tv[k as int] == names@[k as int]@);
                assert(tv.len() == names@.len());
                assert(first_index(tv, name@, k as int) == k);
            }
            return Ok(k);
        }
        proof {
            assert(tv[k as int] == names@[k as int]@);
        }
        k = k + 1;
    }
    let v = chars_of(name);
    proof {
        assert(v@.subrange(0, v@.len() as int) =~= v@);
    }
    match crate::cell::parse_usize(&v, 0, v.len()) {
        Some(idx) => {
            if idx > 0 && idx <= names.len() {
                Ok(idx - 1)
            } else {
                let mut m = string_of("Sheet index ");
                push_decimal(&mut m, idx as u64);
                push_str(&mut m, " out of range (1-");
                push_decimal(&mut m, names.len() as u64);
                push_str(&mut m, ")");
                Err(m)
            }
        },
        None => {
            let mut m = string_of("Sheet '");
            push_str(&mut m, name);
            push_str(&mut m, "' not found. Available sheets: ");
            crate::export::push_joined(&mut m, names, ", ");
            Err(m)
        },
    }
}

/// The message for `--interactive` together with `--table`.
pub fn interactive_table_message(table: &str, sheet: &str) -> (m: String)
    ensures
        m@ == "Interactive mode (-i) is not supported with --table.\n\nOptions:\n\u{2022} View table in terminal: xleak file.xlsx --table \""@
            + table@ + "\"\n\u{2022} View full sheet in TUI: xleak file.xlsx --sheet \""@ + sheet@ + "\" -i"@,
{
    let mut m = string_of("Interactive mode (-i) is not supported with --table.\n\nOptions:\n\u{2022} View table in terminal: xleak file.xlsx --table \"");
    push_str(&mut m, table);
    push_str(&mut m, "\"\n\u{2022} View full sheet in TUI: xleak file.xlsx --sheet \"");
    push_str(&mut m, sheet);
    push_str(&mut m, "\" -i");
    m
}

/// The lines listing a workbook's tables: a header, then for each table
/// (in order) the first sheet that holds it and its name, tab-separated;
/// tables no sheet holds are left out. A single line when there are none.
pub open spec fn table_listing(tables: Seq<Seq<char>>, sheets: Seq<(Seq<char>, Seq<Seq<char>>)>) -> Seq<Seq<char>> {
    if tables.len() == 0 {
        seq!["No tables found in workbook"@]
    } else {
        seq!["Sheet\tTable"@, "-----\t-----"@] + listing_rows(tables, sheets, tables.len() as int)
    }
}

/// The listing lines of the first `n` tables.
pub open spec fn listing_rows(tables: Seq<Seq<char>>, sheets: Seq<(Seq<char>, Seq<Seq<char>>)>, n: int) -> Seq<Seq<char>>
    decreases n,
{
    if n <= 0 {
        Seq::empty()
    } else {
        let t = tables[n - 1];
        let s = first_sheet_with(sheets, t, 0);
        listing_rows(tables, sheets, n - 1) + if s < sheets.len() {
            seq![sheets[s].0 + "\t"@ + t]
        } else {
            Seq::empty()
        }
    }
}

/// The first sheet at or after `i` that holds table `t` (or `sheets.len()`).
pub open spec fn first_sheet_with(sheets: Seq<(Seq<char>, Seq<Seq<char>>)>, t: Seq<char>, i: int) -> int
    decreases sheets.len() - i,
{
    if i < 0 || i >= sheets.len() {
        sheets.len() as int
    } else if sheets[i].1.contains(t) {
        i
    } else {
        first_sheet_with(sheets, t, i + 1)
    }
}

/// The texts of the sheets and the tables each holds.
pub open spec fn sheets_view(sheets: Seq<(String, Vec<String>)>) -> Seq<(Seq<char>, Seq<Seq<char>>)> {
    sheets.map_values(|p: (String, Vec<String>)| (p.0@, texts_view(p.1@)))
}

fn holds(tables: &Vec<String>, t: &str) -> (b: bool)
    ensures
        b == texts_view(tables@).contains(t@),
{
    let mut k: usize = 0;
    while k < tables.len()
        invariant
            k <= tables@.len(),
            forall|m: int| 0 <= m < k ==> tables@[m]@ != t@,
        decreases tables.len() - k,
    {
        if str_eq(tables[k].as_str(), t) {
            proof {
                assert(texts_view(tables@)[k as int] == t@);
            }
            return true;
        }
        k = k + 1;
    }
    proof {
        assert forall|m: int| 0 <= m < texts_view(tables@).len() implies texts_view(tables@)[m] != t@ by {
            assert(texts_view(tables@)[m] == tables@[m]@);
        }
    }
    false
}

/// The lines listing a workbook's tables (see `table_listing`), given the
/// table names and, per sheet, the tables it holds.
pub fn list_tables(tables: &Vec<String>, sheets: &Vec<(String, Vec<String>)>) -> (lines: Vec<String>)
    ensures
        texts_view(lines@) == table_listing(texts_view(tables@), sheets_view(sheets@)),
{
    let ghost tv = texts_view(tables@);
    let ghost sv = sheets_view(sheets@);
    let mut lines: Vec<String> = Vec::new();
    if tables.len() == 0 {
        lines.push(string_of("No tables found in workbook"));
        proof {
            assert(texts_view(lines@) =~= table_listing(tv, sv));
        }
        return lines;
    }
    lines.push(string_of("Sheet\tTable"));
    lines.push(string_of("-----\t-----"));
    let ghost head = texts_view(lines@);
    let mut i: usize = 0;
    while i < tables.len()
        invariant
            i <= tables@.len(),
            tv == texts_view(tables@),
            sv == sheets_view(sheets@),
            texts_view(lines@) == head + listing_rows(tv, sv, i as int),
        decreases tables.len() - i,
    {
        let t = tables[i].as_str();
        proof {
            assert(tv[i as int] == tables@[i as int]@);
        }
        let mut s: usize = 0;
        let mut found = false;
        while !found && s < sheets.len()
            invariant
                s <= sheets@.len(),
                i < tables@.len(),
                t@ == tv[i as int],
                sv == sheets_view(sheets@),
                found ==> s < sheets@.len() && first_sheet_with(sv, t@, 0) == s,
                !found ==> first_sheet_with(sv, t@, 0) == first_sheet_with(sv, t@, s as int),
            decreases sheets.len() - s, if found { 0int } else { 1int },
        {
            proof {
                assert(sv[s as int] == (sheets@[s as int].0@, texts_view(sheets@[s as int].1@)));
            }
            if holds(&sheets[s].1, t) {
                found = true;
            } else {
                s = s + 1;
            }
        }
        proof {
            if s < sheets@.len() {
                assert(sv[s as int] == (sheets@[s as int].0@, texts_view(sheets@[s as int].1@)));
            }
        }
        let ghost before = lines@;
        if found {
            let mut line = sheets[s].0.clone();
            push_str(&mut line, "\t");
            push_str(&mut line, t);
            lines.push(line);
            proof {
                assert(texts_view(lines@) =~= texts_view(before).push(sv[s as int].0 + "\t"@ + tv[i as int]));
            }
        }
        proof {
            let extra: Seq<Seq<char>> = if first_sheet_with(sv, tv[i as int], 0) < sv.len() {
                seq![sv[first_sheet_with(sv, tv[i as int], 0)].0 + "\t"@ + tv[i as int]]
            } else {
                Seq::empty()
            };
            assert(listing_rows(tv, sv, i + 1) == listing_rows(tv, sv, i as int) + extra);
            if !found {
                assert(s == sheets@.len());
                assert(sv.len() == sheets@.len());
                assert(texts_view(lines@) =~= head + listing_rows(tv, sv, i + 1));
            } else {
                assert(texts_view(lines@) =~= head + listing_rows(tv, sv, i + 1));
            }
        }
        i = i + 1;
    }
    proof {
        assert(texts_view(lines@) =~= table_listing(tv, sv));
    }
    lines
}

/// The check made before a file is opened: it has to exist.
pub fn check_file_exists(path: &str, exists: bool) -> (r: Result<(), String>)
    ensures
        r is Ok <==> exists,
        r matches Err(m) ==> m@ == "File not found: "@ + path@,
{
    if exists {
        Ok(())
    } else {
        let mut m = string_of("File not found: ");
        push_str(&mut m, path);
        Err(m)
    }
}

/// The message for a file of no format the viewer reads.
pub open spec fn unrecognized_format_text(path: Seq<char>) -> Seq<char> {
    "Unrecognized file format: '"@ + path
        + "'\n\nSupported formats: .xlsx, .xls, .xlsm, .xlsb, .ods, .csv, .tsv\n\nIf this is a valid Excel file, please report this as a bug."@
}

/// The check made on a detected file type: every type but `Unknown` is
/// read; an unknown one is refused with a message naming the path.
pub fn check_file_type(path: &str, file_type: FileType) -> (r: Result<(), String>)
    ensures
        r is Ok <==> file_type != FileType::Unknown,
        r matches Err(m) ==> m@ == unrecognized_format_text(path@),
{
    match file_type {
        FileType::Unknown => {
            let mut m = string_of("Unrecognized file format: '");
            push_str(&mut m, path);
            push_str(&mut m, "'\n\nSupported formats: .xlsx, .xls, .xlsm, .xlsb, .ods, .csv, .tsv\n\nIf this is a valid Excel file, please report this as a bug.");
            Err(m)
        },
        _ => Ok(()),
    }
}

/// The message for a table the workbook does not hold, with the reader's
/// own description of the failure.
pub fn table_not_found_message(table: &str, cause: &str) -> (m: String)
    ensures
        m@ == "Table '"@ + table@ + "' not found: "@ + cause@,
{
    let mut m = string_of("Table '");
    push_str(&mut m, table);
    push_str(&mut m, "' not found: ");
    push_str(&mut m, cause);
    m
}

/// What the program does, chosen from the command line.
#[derive(Debug, Clone, Copy, PartialEq, Eq, Structural)]
pub enum Mode {
    /// List the workbook's tables.
    ListTables,
    /// Export the named table.
    ExportTable,
    /// Refuse the interactive mode for a table (see `interactive_table_message`).
    TableInteractive,
    /// Show the named table.
    ShowTable,
    /// Open the interactive viewer on the selected sheet.
    Interactive,
    /// Export the selected sheet.
    ExportSheet,
    /// Show the selected sheet.
    ShowSheet,
}

/// The mode a command line selects, by precedence: listing tables; then,
/// with a table named, exporting it, else refusing the interactive mode,
/// else showing it; then, for a sheet, the interactive viewer (an export
/// format is ignored there), else exporting, else showing it.
pub open spec fn spec_mode(list_tables: bool, table: bool, export: bool, interactive: bool) -> Mode {
    if list_tables {
        Mode::ListTables
    } else if table {
        if export {
            Mode::ExportTable
        } else if interactive {
            Mode::TableInteractive
        } else {
            Mode::ShowTable
        }
    } else if interactive {
        Mode::Interactive
    } else if export {
        Mode::ExportSheet
    } else {
        Mode::ShowSheet
    }
}

/// The mode the command line selects (see `spec_mode`).
pub fn mode_of(cli: &Cli) -> (m: Mode)
    ensures
        m == spec_mode(cli.list_tables, cli.table is Some, cli.export is Some, cli.interactive),
{
    if cli.list_tables {
        Mode::ListTables
    } else if cli.table.is_some() {
        if cli.export.is_some() {
            Mode::ExportTable
        } else if cli.interactive {
            Mode::TableInteractive
        } else {
            Mode::ShowTable
        }
    } else if cli.interactive {
        Mode::Interactive
    } else if cli.export.is_some() {
        Mode::ExportSheet
    } else {
        Mode::ShowSheet
    }
}

} // verus!
