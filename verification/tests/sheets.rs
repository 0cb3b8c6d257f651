//! Sheet data built from ranges and CSV records, the exports, and the
//! non-interactive table view.

use xleak::cell::CellValue;
use xleak::display::{display_table, display_table_data, format_cell_value, Align, Tint};
use xleak::export::{csv_quote, export_csv, export_json, export_table_csv, export_table_json, export_table_text, export_text};
use xleak::sheet::{CellRange, Field, FormulaRange, LazySheetData, SheetData, TableData};

fn s(t: &str) -> CellValue {
    CellValue::String(t.to_string())
}

/// 3-row sheet with a formula on sheet rows 0 and 2 (0-indexed).
fn range_with_formulas() -> (CellRange, FormulaRange) {
    let range = CellRange { rows: vec![vec![s("head")], vec![CellValue::Int(10)], vec![CellValue::Int(20)]], width: 1 };
    let formulas = FormulaRange {
        start: (0, 0),
        rows: vec![vec!["=ROW0".to_string()], vec![String::new()], vec!["=ROW2".to_string()]],
    };
    (range, formulas)
}

fn people() -> SheetData {
    SheetData {
        headers: vec!["Name".to_string(), "Age".to_string()],
        rows: vec![vec![s("Alice"), CellValue::Int(30)], vec![s("Bob"), CellValue::Int(25)]],
        formulas: vec![vec![None, None], vec![None, None]],
        width: 2,
        height: 2,
    }
}

fn text_field(t: &str) -> Field {
    Field { text: t.to_string(), number: None }
}

#[test]
fn test_sheet_data_structure() {
    let sheet = people();
    assert_eq!(sheet.width, 2);
    assert_eq!(sheet.height, 2);
    assert_eq!(sheet.headers.len(), 2);
    assert_eq!(sheet.rows.len(), 2);
}

#[test]
fn test_no_header_row_and_formula_lengths_match() {
    let range = CellRange {
        rows: vec![vec![s("a"), s("b")], vec![CellValue::Int(1), CellValue::Int(2)], vec![CellValue::Int(3), CellValue::Int(4)]],
        width: 2,
    };
    let copy = CellRange { rows: range.rows.iter().map(|r| r.iter().map(|c| c.copy()).collect()).collect(), width: 2 };

    let sheet = SheetData::from_range_with_formulas(range, None, true);
    assert_eq!(sheet.height, 3);
    assert_eq!(sheet.rows.len(), 3);
    assert_eq!(sheet.formulas.len(), 3);

    let sheet = SheetData::from_range_with_formulas(copy, None, false);
    assert_eq!(sheet.height, 2);
    assert_eq!(sheet.rows.len(), 2);
    assert_eq!(sheet.formulas.len(), 2);
}

#[test]
fn test_formula_alignment_with_no_header() {
    let (range, formulas) = range_with_formulas();
    let sheet = SheetData::from_range_with_formulas(range, Some(formulas), true);
    assert_eq!(sheet.formulas[0][0].as_deref(), Some("=ROW0"));
    assert_eq!(sheet.formulas[1][0], None);
    assert_eq!(sheet.formulas[2][0].as_deref(), Some("=ROW2"));
}

#[test]
fn test_formula_alignment_with_header() {
    let (range, formulas) = range_with_formulas();
    let sheet = SheetData::from_range_with_formulas(range, Some(formulas), false);
    assert_eq!(sheet.formulas[0][0], None);
    assert_eq!(sheet.formulas[1][0].as_deref(), Some("=ROW2"));
}

#[test]
fn test_formula_alignment_lazy_no_header() {
    let (range, formulas) = range_with_formulas();
    let lazy = LazySheetData::from_range_with_formulas(range, Some(formulas), true);
    let (rows, grid) = lazy.get_rows(0, 3, true);
    assert_eq!(rows.len(), 3);
    assert_eq!(grid[0][0].as_deref(), Some("=ROW0"));
    assert_eq!(grid[1][0], None);
    assert_eq!(grid[2][0].as_deref(), Some("=ROW2"));
}

#[test]
fn headers_from_ranges() {
    let (range, _) = range_with_formulas();
    let sheet = SheetData::from_range_with_formulas(range, None, false);
    assert_eq!(sheet.headers, vec!["head".to_string()]);
    let (range, _) = range_with_formulas();
    let sheet = SheetData::from_range_with_formulas(range, None, true);
    assert_eq!(sheet.headers, vec!["A".to_string()]);
    assert_eq!(SheetData::default_headers(28)[27], "AB");
}

#[test]
fn lazy_and_eager_agree() {
    let (range, formulas) = range_with_formulas();
    let lazy = LazySheetData::from_range_with_formulas(range, Some(formulas), false);
    let eager = lazy.to_sheet_data(false);
    assert_eq!(eager.height, 2);
    assert_eq!(eager.rows[1][0].to_raw_string(), "20");
    assert_eq!(eager.formulas[1][0].as_deref(), Some("=ROW2"));
}

#[test]
fn csv_records_are_padded_to_the_widest() {
    let rows = vec![
        vec![text_field("a"), text_field("b")],
        vec![text_field("1")],
        vec![text_field("x"), text_field("y"), text_field("z")],
    ];
    let sheet = SheetData::from_string_rows(rows, false);
    assert_eq!(sheet.width, 3);
    assert_eq!(sheet.headers, vec!["a".to_string(), "b".to_string(), String::new()]);
    assert_eq!(sheet.height, 2);
    assert!(sheet.rows[0][2].is_empty());
    let no_header = SheetData::from_string_rows(vec![vec![text_field("1"), text_field("2")]], true);
    assert_eq!(no_header.headers, vec!["A".to_string(), "B".to_string()]);
    assert_eq!(no_header.height, 1);
}

#[test]
fn csv_export_quotes_headers_and_cells() {
    let sheet = SheetData {
        headers: vec!["Name, full".to_string(), "Note".to_string()],
        rows: vec![vec![s("Smith, J"), s("said \"hi\"")]],
        formulas: vec![vec![None, None]],
        width: 2,
        height: 1,
    };
    assert_eq!(export_csv(&sheet, ","), "\"Name, full\",Note\n\"Smith, J\",\"said \"\"hi\"\"\"\n");
    assert_eq!(export_text(&people(), "\t"), "Name\tAge\nAlice\t30\nBob\t25\n");
    assert_eq!(export_csv(&people(), ";"), "Name;Age\nAlice;30\nBob;25\n");
}

#[test]
fn json_export_escapes_text() {
    let sheet = SheetData {
        headers: vec!["q\"uote".to_string()],
        rows: vec![vec![s("line\nbreak\\")], vec![CellValue::Bool(true)], vec![CellValue::Empty]],
        formulas: vec![vec![None], vec![None], vec![None]],
        width: 1,
        height: 3,
    };
    let json = export_json(&sheet, "S");
    assert!(json.contains("\"sheet\": \"S\""));
    assert!(json.contains("\"q\\\"uote\""));
    assert!(json.contains("\"line\\nbreak\\\\\""));
    assert!(json.contains("true"));
    assert!(json.contains("null"));
}

#[test]
fn table_exports() {
    let table = TableData {
        name: "Products".to_string(),
        sheet_name: "Sheet1".to_string(),
        headers: vec!["Item".to_string(), "Qty".to_string()],
        rows: vec![vec![s("Pen"), CellValue::Int(3)]],
    };
    assert_eq!(export_table_csv(&table, ","), "Item,Qty\nPen,3\n");
    assert_eq!(export_table_text(&table, "|"), "Item|Qty\nPen|3\n");
    let json = export_table_json(&table);
    assert!(json.contains("\"table\": \"Products\""));
}

#[test]
fn format_cell_value_truncates_or_keeps() {
    assert_eq!(format_cell_value("hello", 10, false), "hello");
    assert_eq!(format_cell_value("hello world", 8, false), "hello...");
    assert_eq!(format_cell_value("hello world", 3, false), "hel");
    assert_eq!(format_cell_value("hello world", 3, true), "hello world");
    assert_eq!(format_cell_value("ééééé", 4, false), "é...");
}

#[test]
fn display_table_lines_and_cells() {
    let sheet = people();
    let names = vec!["People".to_string(), "Other".to_string()];
    let r = display_table(&sheet, "People", 1, &names, 30, false, false, true);
    assert_eq!(r.before[5], "Sheet: People (2 rows × 2 columns)");
    assert_eq!(r.before[6], "Available sheets: People, Other");
    assert!(!r.blank_formula_note);
    let t = r.table.unwrap();
    assert_eq!(t.rows.len(), 1);
    assert_eq!(t.rows[0][1].text, "30");
    assert_eq!(t.rows[0][1].align, Align::Right);
    assert_eq!(t.header[0].tint, Tint::Green);
    assert_eq!(r.after[1], "⚠️  Showing 1 of 2 rows (use -n 0 to show all)");
    let all = display_table(&sheet, "People", 0, &names, 30, false, false, false);
    assert_eq!(all.after[1], "Total: 2 rows × 2 columns");
}

#[test]
fn display_table_escapes_control_characters() {
    let sheet = SheetData {
        headers: vec!["H".to_string()],
        rows: vec![vec![s("a\u{1b}[31mb")], vec![CellValue::Error("REF!".to_string())]],
        formulas: vec![vec![None], vec![None]],
        width: 1,
        height: 2,
    };
    let r = display_table(&sheet, "S", 0, &vec!["S".to_string()], 30, false, false, true);
    let t = r.table.unwrap();
    assert_eq!(t.rows[0][0].text, "a\u{fffd}[31mb");
    assert_eq!(t.rows[1][0].tint, Tint::Red);
    assert_eq!(t.rows[1][0].align, Align::Center);
}

#[test]
fn display_table_notes_uncached_formulas() {
    let sheet = SheetData {
        headers: vec!["F".to_string()],
        rows: vec![vec![CellValue::Empty], vec![s("")], vec![CellValue::Int(1)]],
        formulas: vec![vec![Some("=A1".to_string())], vec![Some("=A2".to_string())], vec![Some("=A3".to_string())]],
        width: 1,
        height: 3,
    };
    let r = display_table(&sheet, "S", 0, &vec!["S".to_string()], 30, false, false, false);
    assert!(r.blank_formula_note);
    let shown = display_table(&sheet, "S", 0, &vec!["S".to_string()], 30, false, true, true);
    assert!(!shown.blank_formula_note);
    let t = shown.table.unwrap();
    assert_eq!(t.rows[2][0].text, "=A3");
    assert_eq!(t.rows[2][0].tint, Tint::Green);
}

#[test]
fn empty_sheet_display_has_no_table() {
    let sheet = SheetData { headers: vec![], rows: vec![], formulas: vec![], width: 0, height: 0 };
    let r = display_table(&sheet, "E", 50, &vec!["E".to_string()], 30, false, false, false);
    assert!(r.table.is_none());
    assert_eq!(r.middle[1], "⚠️  Sheet is empty");
}

#[test]
fn wrapped_table_width() {
    let r = display_table(&people(), "P", 0, &vec!["P".to_string()], 10, true, false, false);
    assert_eq!(r.table.unwrap().total_width, Some(26));
}

#[test]
fn display_table_data_lines() {
    let table = TableData {
        name: "T".to_string(),
        sheet_name: "S".to_string(),
        headers: vec!["A".to_string()],
        rows: vec![vec![CellValue::Bool(true)], vec![CellValue::Int(2)]],
    };
    let r = display_table_data(&table, 0, 30, false);
    assert_eq!(r.before[5], "Table: T (from sheet: S)");
    assert_eq!(r.before[6], "2 rows × 1 columns");
    let t = r.table.unwrap();
    assert_eq!(t.rows[0][0].align, Align::Center);
    assert_eq!(t.total_width, Some(33));
    assert_eq!(r.after[1], "Total: 2 rows × 1 columns");
}

/// A JSON string literal's text, escapes undone.
fn json_read_string(lit: &str) -> String {
    let inner: Vec<char> = lit[1..lit.len() - 1].chars().collect();
    let mut out = String::new();
    let mut i = 0;
    while i < inner.len() {
        if inner[i] == '\\' {
            match inner[i + 1] {
                'n' => out.push('\n'),
                'r' => out.push('\r'),
                't' => out.push('\t'),
                'u' => {
                    let hex: String = inner[i + 2..i + 6].iter().collect();
                    out.push(char::from_u32(u32::from_str_radix(&hex, 16).unwrap()).unwrap());
                    i += 4;
                }
                c => out.push(c),
            }
            i += 2;
        } else {
            out.push(inner[i]);
            i += 1;
        }
    }
    out
}

#[test]
fn json_strings_read_back() {
    let text = "a\"b\\c\nd\re\tf\u{1}g\u{1f}h é";
    let sheet = SheetData { headers: vec![text.to_string()], rows: vec![], formulas: vec![], width: 1, height: 0 };
    let json = export_json(&sheet, "S");
    let line = json.lines().find(|l| l.starts_with("    \"a")).unwrap();
    let lit = line.trim().trim_end_matches(',');
    assert!(lit.chars().all(|c| c as u32 >= 0x20));
    assert_eq!(json_read_string(lit), text);
}

/// A CSV field's text, quotes undone.
fn csv_read_field(field: &str) -> String {
    if field.len() >= 2 && field.starts_with('"') && field.ends_with('"') {
        field[1..field.len() - 1].replace("\"\"", "\"")
    } else {
        field.to_string()
    }
}

#[test]
fn csv_fields_read_back() {
    for value in ["plain", "a,b", "say \"hi\"", "two\nlines", "\"", "", "x;y"] {
        let q = csv_quote(value.to_string(), ",");
        assert_eq!(csv_read_field(&q), value);
        if q == value {
            assert!(!value.contains('"') && !value.contains('\n') && !value.contains(','));
        }
    }
    assert_eq!(csv_quote("x;y".to_string(), ";"), "\"x;y\"");
}
