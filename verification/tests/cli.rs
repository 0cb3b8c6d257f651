//! The command line's decisions: file checks and detection, delimiters,
//! sheet selection, export formats, table listings, and CSV input.

use xleak::cli::{
    check_file_exists, check_file_type, export_delimiter, interactive_table_message, list_tables,
    mode_of, parse_delimiter_byte, parse_export_format, select_sheet, table_not_found_message, use_color, Cli,
    ExportFormat, Mode,
};
use xleak::csv_file::{default_delimiter, delimiter_for_extension, sheet_name_for, CsvData, CsvError};
use xleak::number::Number;
use xleak::utils::{
    column_index_to_letters, file_type_for_extension, file_type_from_extension, file_type_from_header,
    FileType,
};

fn float_number(f: f64) -> Number {
    Number {
        bits: f.to_bits(),
        is_whole: f.fract() == 0.0,
        shortest: f.to_string(),
        fixed0: format!("{f:.0}"),
        fixed2: format!("{f:.2}"),
    }
}

/// The float reading of each field of `rows`, as the CSV reader makes it.
fn readings(rows: &[Vec<String>]) -> Vec<Vec<Option<Number>>> {
    rows.iter()
        .map(|r| r.iter().map(|t| t.trim().parse::<f64>().ok().map(float_number)).collect())
        .collect()
}

fn comprehensive_sheets() -> Vec<String> {
    ["DataTypes", "Formulas", "Internationalization", "EdgeCases", "MultilineCells", "DateEdgeCases"]
        .iter()
        .map(|s| s.to_string())
        .collect()
}

#[test]
fn test_default_delimiter_tsv() {
    assert_eq!(default_delimiter("data.tsv"), b'\t');
    assert_eq!(default_delimiter("data.csv"), b',');
    assert_eq!(default_delimiter("data.txt"), b',');
}

#[test]
fn test_default_delimiter_other_extensions() {
    assert_eq!(default_delimiter("data.TAB"), b',');
    assert_eq!(default_delimiter("data.tab"), b',');
    assert_eq!(default_delimiter("data.TSV"), b'\t');
    assert_eq!(default_delimiter("data"), b',');
    assert_eq!(delimiter_for_extension(Some("Tsv")), b'\t');
    assert_eq!(delimiter_for_extension(Some("xlsx")), b',');
    assert_eq!(delimiter_for_extension(None), b',');
}

#[test]
fn test_column_index_to_letters() {
    assert_eq!(column_index_to_letters(0), "A");
    assert_eq!(column_index_to_letters(25), "Z");
    assert_eq!(column_index_to_letters(26), "AA");
    assert_eq!(column_index_to_letters(27), "AB");
    assert_eq!(column_index_to_letters(51), "AZ");
    assert_eq!(column_index_to_letters(52), "BA");
    assert_eq!(column_index_to_letters(701), "ZZ");
    assert_eq!(column_index_to_letters(702), "AAA");
}

#[test]
fn test_detects_short_csv_without_extension() {
    assert_eq!(file_type_from_header(b"a,b\n"), FileType::Csv);
}

#[test]
fn test_detects_utf8_bom_csv_without_extension() {
    let contents = b"\xEF\xBB\xBFna,age\nAndre,30\n";
    assert_eq!(file_type_from_header(&contents[..8]), FileType::Csv);
}

#[test]
fn test_detects_binary_headers() {
    assert_eq!(file_type_from_header(&[0x50, 0x4B, 0x03, 0x04, 0, 0, 0, 0]), FileType::Xlsx);
    assert_eq!(file_type_from_header(&[0xD0, 0xCF, 0x11, 0xE0, 0xA1, 0xB1, 0x1A, 0xE1]), FileType::Xls);
    assert_eq!(file_type_from_header(&[0x41, 0x00, 0x42]), FileType::Unknown);
    assert_eq!(file_type_from_header(&[0xFF, 0xFE, 0x41]), FileType::Unknown);
    // A ZIP signature needs all four bytes.
    assert_eq!(file_type_from_header(&[0x50, 0x4B, 0x03]), FileType::Csv);
    assert_eq!(file_type_from_header(&[]), FileType::Csv);
}

#[test]
fn test_file_type_by_extension() {
    assert_eq!(file_type_for_extension(Some("CSV")), Some(FileType::Csv));
    assert_eq!(file_type_for_extension(Some("tab")), Some(FileType::Csv));
    assert_eq!(file_type_for_extension(Some("xlsm")), Some(FileType::Xlsx));
    assert_eq!(file_type_for_extension(Some("ods")), Some(FileType::Xlsx));
    assert_eq!(file_type_for_extension(Some("XLS")), Some(FileType::Xls));
    assert_eq!(file_type_for_extension(Some("bin")), None);
    assert_eq!(file_type_for_extension(None), None);
    assert_eq!(file_type_from_extension("book.xlsb"), Some(FileType::Xlsx));
    assert_eq!(file_type_from_extension("notes"), None);
    assert_eq!(file_type_from_extension("data.CSV"), Some(FileType::Csv));
    assert_eq!(file_type_from_extension("archive.tar.xls"), Some(FileType::Xls));
    assert_eq!(file_type_from_extension("..tsv"), Some(FileType::Csv));
    assert_eq!(file_type_from_extension(".csv"), None);
    assert_eq!(file_type_from_extension("report.pdf"), None);
    assert_eq!(file_type_from_extension("/tmp/x.csv"), Some(FileType::Csv));
    assert_eq!(file_type_from_extension("dir.xlsx/notes"), None);
    assert_eq!(default_delimiter("exports/data.tsv"), b'\t');
}

#[test]
fn test_file_not_found() {
    let r = check_file_exists("nonexistent_file.xlsx", false);
    let m = r.unwrap_err();
    assert!(m.contains("File not found"));
    assert_eq!(m, "File not found: nonexistent_file.xlsx");
    assert!(check_file_exists("book.xlsx", true).is_ok());
}

#[test]
fn test_unknown_format_rejected() {
    let m = check_file_type("xleak_test_temp.bin", FileType::Unknown).unwrap_err();
    assert!(m.contains("Unrecognized file format"));
    assert!(m.starts_with("Unrecognized file format: 'xleak_test_temp.bin'"));
    assert!(check_file_type("a.csv", FileType::Csv).is_ok());
    assert!(check_file_type("a.xls", FileType::Xls).is_ok());
    assert!(check_file_type("a.xlsx", FileType::Xlsx).is_ok());
}

#[test]
fn test_display_comprehensive_sheet() {
    let names = comprehensive_sheets();
    assert_eq!(select_sheet(&names, Some("DataTypes")), Ok(0));
    assert_eq!(select_sheet(&names, Some("Formulas")), Ok(1));
    assert_eq!(select_sheet(&names, None), Ok(0));
}

#[test]
fn test_display_sheet_by_index() {
    let names = comprehensive_sheets();
    assert_eq!(select_sheet(&names, Some("1")), Ok(0));
    assert_eq!(select_sheet(&names, Some("6")), Ok(5));
}

#[test]
fn test_display_invalid_sheet_index() {
    let names = comprehensive_sheets();
    let m = select_sheet(&names, Some("999")).unwrap_err();
    assert!(m.contains("out of range"));
    assert_eq!(m, "Sheet index 999 out of range (1-6)");
    assert_eq!(select_sheet(&names, Some("0")).unwrap_err(), "Sheet index 0 out of range (1-6)");
}

#[test]
fn test_display_nonexistent_sheet() {
    let names = comprehensive_sheets();
    let m = select_sheet(&names, Some("NonExistentSheet")).unwrap_err();
    assert!(m.contains("not found"));
    assert_eq!(
        m,
        "Sheet 'NonExistentSheet' not found. Available sheets: DataTypes, Formulas, Internationalization, EdgeCases, MultilineCells, DateEdgeCases"
    );
}

#[test]
fn test_sheet_name_wins_over_index() {
    let names = vec!["2".to_string(), "Other".to_string()];
    assert_eq!(select_sheet(&names, Some("2")), Ok(0));
    assert_eq!(select_sheet(&Vec::new(), None).unwrap_err(), "No sheets found in workbook");
}

#[test]
fn test_export_unknown_format() {
    let m = parse_export_format("xml").unwrap_err();
    assert!(m.contains("Unknown export format"));
    assert_eq!(m, "Unknown export format: xml. Use: csv, json, or text");
    assert_eq!(parse_export_format("csv"), Ok(ExportFormat::Csv));
    assert_eq!(parse_export_format("json"), Ok(ExportFormat::Json));
    assert_eq!(parse_export_format("text"), Ok(ExportFormat::Text));
}

#[test]
fn test_export_delimiters() {
    assert_eq!(export_delimiter(&None, ExportFormat::Csv), ",");
    assert_eq!(export_delimiter(&None, ExportFormat::Text), "\t");
    assert_eq!(export_delimiter(&None, ExportFormat::Json), ",");
    assert_eq!(export_delimiter(&Some(";".to_string()), ExportFormat::Csv), ";");
    assert_eq!(export_delimiter(&Some("|".to_string()), ExportFormat::Text), "|");
}

#[test]
fn test_table_nonexistent() {
    let m = table_not_found_message("NonExistentTable", "no such table");
    assert!(m.contains("not found"));
    assert_eq!(m, "Table 'NonExistentTable' not found: no such table");
}

#[test]
fn test_interactive_table_message() {
    let m = interactive_table_message("Products", "Sheet1");
    assert!(m.starts_with("Interactive mode (-i) is not supported with --table."));
    assert!(m.contains("--table \"Products\""));
    assert!(m.ends_with("--sheet \"Sheet1\" -i"));
}

#[test]
fn test_list_tables() {
    let tables = vec!["Products".to_string(), "Sales".to_string(), "Employees".to_string()];
    let sheets = vec![
        ("Sheet1".to_string(), vec!["Products".to_string(), "Sales".to_string()]),
        ("Sheet2".to_string(), vec!["Employees".to_string()]),
    ];
    let lines = list_tables(&tables, &sheets);
    assert_eq!(
        lines,
        vec!["Sheet\tTable", "-----\t-----", "Sheet1\tProducts", "Sheet1\tSales", "Sheet2\tEmployees"]
    );
    assert_eq!(list_tables(&Vec::new(), &sheets), vec!["No tables found in workbook"]);
}

#[test]
fn test_parse_delimiter_byte() {
    assert_eq!(parse_delimiter_byte(None), Ok(None));
    assert_eq!(parse_delimiter_byte(Some("\\t")), Ok(Some(b'\t')));
    assert_eq!(parse_delimiter_byte(Some("\t")), Ok(Some(b'\t')));
    assert_eq!(parse_delimiter_byte(Some(";")), Ok(Some(b';')));
    assert_eq!(
        parse_delimiter_byte(Some(";;")).unwrap_err(),
        "Invalid --csv-delimiter ';;': expected a single ASCII character or '\\t'"
    );
    assert!(parse_delimiter_byte(Some("é")).is_err());
    assert!(parse_delimiter_byte(Some("")).is_err());
}

#[test]
fn test_use_color() {
    assert!(!use_color(true, true, true));
    assert!(use_color(false, true, false));
    assert!(use_color(false, false, true));
    assert!(!use_color(false, false, false));
}

#[test]
fn test_csv_file_displayed() {
    let data = CsvData::open("xleak_test_temp.csv", b"Name,Age\nAlice,30\nBob,25\n", None).ok().unwrap();
    assert_eq!(data.sheet_name, "xleak_test_temp");
    assert_eq!(data.delimiter, b',');
    let numbers = readings(&data.rows);
    let sheet = data.to_sheet_data(&numbers, false);
    assert_eq!(sheet.headers, vec!["Name", "Age"]);
    assert_eq!(sheet.height, 2);
    assert_eq!(sheet.rows[0][0].to_string(), "Alice");
    assert_eq!(sheet.rows[1][0].to_string(), "Bob");
    assert_eq!(sheet.rows[0][1].to_string(), "30");
}

#[test]
fn test_csv_no_header_generates_columns() {
    let data = CsvData::open("xleak_test_noheader.csv", b"1,2,3\n4,5,6\n", None).ok().unwrap();
    let numbers = readings(&data.rows);
    let sheet = data.to_sheet_data(&numbers, true);
    assert_eq!(sheet.headers, vec!["A", "B", "C"]);
    assert_eq!(sheet.height, 2);
    assert_eq!(sheet.rows[1][2].to_string(), "6");
}

#[test]
fn test_tsv_custom_delimiter() {
    let data = CsvData::open("xleak_test_temp.tsv", b"col1\tcol2\nval1\tval2\n", None).ok().unwrap();
    assert_eq!(data.delimiter, b'\t');
    let numbers = readings(&data.rows);
    let sheet = data.to_sheet_data(&numbers, false);
    assert_eq!(sheet.headers, vec!["col1", "col2"]);
    assert_eq!(sheet.rows[0][1].to_string(), "val2");
    let semi = CsvData::open("data.txt", b"a;b\n1;2\n", Some(b';')).ok().unwrap();
    assert_eq!(semi.rows, vec![vec!["a", "b"], vec!["1", "2"]]);
}

#[test]
fn test_csv_lazy_sheet() {
    let data = CsvData::open("people.csv", b"Name,Age\nAlice,30\nBob,25\n", None).ok().unwrap();
    let numbers = readings(&data.rows);
    let lazy = data.to_lazy_sheet_data(&numbers, false);
    assert_eq!(lazy.headers, vec!["Name", "Age"]);
    assert_eq!(lazy.height, 2);
    let (rows, _) = lazy.get_rows(1, 5, false);
    assert_eq!(rows.len(), 1);
    assert_eq!(rows[0][0].to_string(), "Bob");
}

#[test]
fn test_csv_error_message() {
    assert_eq!(CsvError { record: 0 }.message(), "Failed to parse CSV record 1");
    assert_eq!(CsvError { record: 41 }.message(), "Failed to parse CSV record 42");
}

#[test]
fn test_csv_sheet_name_fallback() {
    assert_eq!(sheet_name_for(None), "CSV");
    assert_eq!(sheet_name_for(Some("data".to_string())), "data");
}

#[test]
fn csv_delimiter_follows_the_extension() {
    let contents = b"a,b\tc\n";
    let tsv = CsvData::open("x.tsv", contents, None).ok().unwrap();
    assert_eq!(tsv.rows, vec![vec!["a,b", "c"]]);
    for path in ["x.csv", "x.txt", "x.tab"] {
        let d = CsvData::open(path, contents, None).ok().unwrap();
        assert_eq!(d.rows, vec![vec!["a", "b\tc"]], "{path}");
        assert_eq!(d.sheet_name, "x");
    }
}

#[test]
fn csv_sheet_is_named_after_the_file_stem() {
    let d = CsvData::open("/tmp/people.csv", b"Name,Age\nAlice,30\nBob\n", None).ok().unwrap();
    assert_eq!(d.sheet_name, "people");
    assert_eq!(d.rows, vec![vec!["Name", "Age"], vec!["Alice", "30"], vec!["Bob"]]);
    assert_eq!(CsvData::open("archive.tar.csv", b"a\n", None).ok().unwrap().sheet_name, "archive.tar");
    assert_eq!(CsvData::open(".hidden", b"a\n", None).ok().unwrap().sheet_name, ".hidden");
}

fn command_line(list_tables: bool, table: Option<&str>, export: Option<&str>, interactive: bool) -> Cli {
    Cli {
        file: "book.xlsx".to_string(),
        sheet: None,
        export: export.map(|e| e.to_string()),
        max_rows: 50,
        formulas: false,
        max_width: 30,
        wrap: false,
        interactive,
        horizontal_scroll: false,
        config: None,
        list_tables,
        table: table.map(|t| t.to_string()),
        no_header: false,
        no_column_id: false,
        no_row_id: false,
        no_color: false,
        color: false,
        delimiter: None,
        csv_delimiter: None,
    }
}

#[test]
fn modes_follow_the_flags_by_precedence() {
    assert_eq!(mode_of(&command_line(true, Some("T"), Some("csv"), true)), Mode::ListTables);
    assert_eq!(mode_of(&command_line(false, Some("T"), Some("csv"), true)), Mode::ExportTable);
    assert_eq!(mode_of(&command_line(false, Some("T"), None, true)), Mode::TableInteractive);
    assert_eq!(mode_of(&command_line(false, Some("T"), None, false)), Mode::ShowTable);
    assert_eq!(mode_of(&command_line(false, None, Some("json"), true)), Mode::Interactive);
    assert_eq!(mode_of(&command_line(false, None, Some("json"), false)), Mode::ExportSheet);
    assert_eq!(mode_of(&command_line(false, None, None, false)), Mode::ShowSheet);
}
