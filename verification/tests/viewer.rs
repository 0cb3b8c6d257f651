//! The interactive viewer's state machine: addresses, jumps, search, keys,
//! sheet switching, and the lazily served rows behind it.

use xleak::cell::CellValue;
use xleak::event::Effect;
use xleak::keys::{KeyCode, Keymap, CONTROL, SHIFT};
use xleak::sheet::{CellRange, FormulaRange, LazySheetData};
use xleak::source::SheetDataSource;
use xleak::state::TuiState;
use xleak::theme::Theme;

/// A lazy source over `height` data rows (plus a header row), with a small
/// cache so requests can exceed it.
fn lazy_source(height: usize, cache_size: usize) -> SheetDataSource {
    let mut rows = vec![vec![CellValue::String("header".to_string())]];
    for r in 1..=height {
        rows.push(vec![CellValue::Int(r as i64)]);
    }
    SheetDataSource::Lazy {
        data: LazySheetData::from_range_with_formulas(CellRange { rows, width: 1 }, None, false),
        cache: None,
        cache_size,
        no_header: false,
    }
}

/// A sheet of `height` rows and `width` columns under a header row; cell
/// (r, c) holds the text `r:c`.
fn grid(height: usize, width: usize) -> LazySheetData {
    let mut rows = vec![(0..width).map(|c| CellValue::String(format!("H{c}"))).collect::<Vec<_>>()];
    for r in 0..height {
        rows.push((0..width).map(|c| CellValue::String(format!("{r}:{c}"))).collect());
    }
    LazySheetData::from_range_with_formulas(CellRange { rows, width }, None, false)
}

fn viewer(height: usize, width: usize) -> TuiState {
    TuiState::new(
        vec!["First".to_string(), "Second".to_string()],
        0,
        grid(height, width),
        Keymap::default_keymap(),
        "default",
        false,
        false,
        false,
        false,
    )
}

fn press(s: &mut TuiState, code: KeyCode) -> Effect {
    s.handle_event(code, 0)
}

fn type_text(s: &mut TuiState, text: &str) {
    for c in text.chars() {
        press(s, KeyCode::Char(c));
    }
}

#[test]
fn test_parse_cell_address_basic() {
    assert_eq!(TuiState::parse_cell_address("A1"), Some((0, 0)));
    assert_eq!(TuiState::parse_cell_address("B2"), Some((1, 1)));
    assert_eq!(TuiState::parse_cell_address("Z26"), Some((25, 25)));
}

#[test]
fn test_parse_cell_address_double_letter() {
    assert_eq!(TuiState::parse_cell_address("AA1"), Some((26, 0)));
    assert_eq!(TuiState::parse_cell_address("AB5"), Some((27, 4)));
    assert_eq!(TuiState::parse_cell_address("AZ100"), Some((51, 99)));
}

#[test]
fn test_parse_cell_address_lowercase() {
    assert_eq!(TuiState::parse_cell_address("a1"), Some((0, 0)));
    assert_eq!(TuiState::parse_cell_address("b2"), Some((1, 1)));
    assert_eq!(TuiState::parse_cell_address("aa10"), Some((26, 9)));
}

#[test]
fn test_parse_cell_address_invalid() {
    assert_eq!(TuiState::parse_cell_address(""), None);
    assert_eq!(TuiState::parse_cell_address("1"), None);
    assert_eq!(TuiState::parse_cell_address("A"), None);
    assert_eq!(TuiState::parse_cell_address("123"), None);
    assert_eq!(TuiState::parse_cell_address("!@#"), None);
    assert_eq!(TuiState::parse_cell_address("A-1"), None);
}

#[test]
fn test_parse_cell_address_large_column() {
    assert_eq!(TuiState::parse_cell_address("BA1"), Some((52, 0)));
    assert_eq!(TuiState::parse_cell_address("ZZ1"), Some((701, 0)));
}

#[test]
fn parse_cell_address_limits() {
    // Thirteen letters still fit; fourteen are refused rather than overflowing.
    assert!(TuiState::parse_cell_address("AAAAAAAAAAAAA1").is_some());
    assert_eq!(TuiState::parse_cell_address("AAAAAAAAAAAAAA1"), None);
    assert_eq!(TuiState::parse_cell_address("ZZZZZZZZZZZZZZ1"), None);
    // Row 0 names no cell.
    assert_eq!(TuiState::parse_cell_address("A0"), None);
    // A row beyond usize is refused.
    assert_eq!(TuiState::parse_cell_address("A99999999999999999999999"), None);
}

#[test]
fn test_first_data_sheet_row() {
    assert_eq!(TuiState::first_data_sheet_row_for(false), 2);
    assert_eq!(TuiState::first_data_sheet_row_for(true), 1);
}

#[test]
fn test_wrapped_line_count() {
    assert_eq!(TuiState::wrapped_line_count("hello", 80), 1);
    assert_eq!(TuiState::wrapped_line_count("", 80), 1);
    assert_eq!(TuiState::wrapped_line_count("aaa bbb", 4), 2);
    assert_eq!(TuiState::wrapped_line_count("aaaaaaaaaa", 5), 2);
    assert_eq!(TuiState::wrapped_line_count("aaaaaaaaaaaa", 5), 3);
    assert_eq!(TuiState::wrapped_line_count("a\nb\nc", 80), 3);
    assert!(TuiState::wrapped_line_count("ab", 0) >= 1);
}

#[test]
fn wrapped_line_count_more_cases() {
    assert_eq!(TuiState::wrapped_line_count("ab", 0), 2);
    assert_eq!(TuiState::wrapped_line_count("a\n\nb", 10), 3);
    assert_eq!(TuiState::wrapped_line_count("abc def ghi", 7), 2);
    assert_eq!(TuiState::wrapped_line_count("x aaaaaaaaaa", 5), 3);
}

#[test]
fn test_truncate_with_ellipsis() {
    assert_eq!(TuiState::truncate_with_ellipsis("hello", 10), "hello");
    assert_eq!(TuiState::truncate_with_ellipsis("hello", 5), "hello");
    assert_eq!(TuiState::truncate_with_ellipsis("hello", 4), "hel…");
    assert_eq!(TuiState::truncate_with_ellipsis("hello", 1), "…");
    assert_eq!(TuiState::truncate_with_ellipsis("hello", 0), "");
}

#[test]
fn test_lazy_get_rows_returns_full_request_beyond_cache_size() {
    let mut source = lazy_source(100, 10);
    let (rows, formulas) = source.get_rows(0, 50);
    assert_eq!(rows.len(), 50);
    assert_eq!(formulas.len(), 50);
    assert_eq!(rows[49][0].to_raw_string(), "50");
}

#[test]
fn test_lazy_get_rows_reloads_when_request_overruns_cache_tail() {
    let mut source = lazy_source(100, 20);
    source.get_rows(0, 20);
    let (rows, _) = source.get_rows(15, 20);
    assert_eq!(rows.len(), 20);
    assert_eq!(rows[0][0].to_raw_string(), "16");
    assert_eq!(rows[19][0].to_raw_string(), "35");
}

#[test]
fn test_lazy_get_rows_clamps_at_sheet_end_without_thrashing() {
    let mut source = lazy_source(30, 10);
    let (rows, _) = source.get_rows(25, 50);
    assert_eq!(rows.len(), 5);
    assert_eq!(rows[4][0].to_raw_string(), "30");
    let (rows, _) = source.get_rows(30, 10);
    assert!(rows.is_empty());
}

#[test]
fn test_search_style_chunked_scan_visits_every_row() {
    let mut source = lazy_source(1200, 200);
    let mut seen = Vec::new();
    const CHUNK: usize = 500;
    let total = source.height();
    for chunk_start in (0..total).step_by(CHUNK) {
        let chunk_size = CHUNK.min(total - chunk_start);
        let (rows, _) = source.get_rows(chunk_start, chunk_size);
        assert_eq!(rows.len(), chunk_size, "chunk at {chunk_start} truncated");
        for (i, row) in rows.iter().enumerate() {
            seen.push((chunk_start + i, row[0].to_raw_string()));
        }
    }
    assert_eq!(seen.len(), 1200);
    assert_eq!(seen[250], (250, "251".to_string()));
    assert_eq!(seen[1199], (1199, "1200".to_string()));
}

#[test]
fn get_cell_reads_through_the_cache() {
    let mut source = lazy_source(1500, 200);
    let (cell, formula) = source.get_cell(1234, 0);
    assert_eq!(cell.unwrap().to_raw_string(), "1235");
    assert_eq!(formula, None);
    let (cell, _) = source.get_cell(1500, 0);
    assert!(cell.is_none());
}

#[test]
fn moving_stays_inside_the_sheet() {
    let mut s = viewer(3, 2);
    press(&mut s, KeyCode::Up);
    press(&mut s, KeyCode::Left);
    assert_eq!((s.cursor_row, s.cursor_col), (0, 0));
    for _ in 0..5 {
        press(&mut s, KeyCode::Down);
        press(&mut s, KeyCode::Right);
    }
    assert_eq!((s.cursor_row, s.cursor_col), (2, 1));
    press(&mut s, KeyCode::PageUp);
    assert_eq!(s.cursor_row, 0);
    press(&mut s, KeyCode::PageDown);
    assert_eq!(s.cursor_row, 2);
    press(&mut s, KeyCode::Home);
    assert_eq!(s.cursor_col, 0);
    press(&mut s, KeyCode::End);
    assert_eq!(s.cursor_col, 1);
    s.handle_event(KeyCode::Home, CONTROL);
    assert_eq!(s.cursor_row, 0);
    s.handle_event(KeyCode::End, CONTROL);
    assert_eq!(s.cursor_row, 2);
}

#[test]
fn update_scroll_keeps_cursor_visible() {
    let mut s = viewer(100, 1);
    s.page_down(10);
    s.page_down(10);
    s.update_scroll(5);
    assert_eq!(s.cursor_row, 20);
    assert_eq!(s.scroll_offset, 16);
    s.move_to_top();
    s.update_scroll(5);
    assert_eq!(s.scroll_offset, 0);
}

#[test]
fn current_cell_address_uses_sheet_rows() {
    let mut s = viewer(10, 3);
    press(&mut s, KeyCode::Right);
    press(&mut s, KeyCode::Down);
    assert_eq!(s.current_cell_address(), "B3");
}

#[test]
fn jumping_to_rows_cells_and_pairs() {
    let mut s = viewer(10, 3);
    s.handle_event(KeyCode::Char('g'), CONTROL);
    assert!(s.jump_mode);
    type_text(&mut s, "5");
    press(&mut s, KeyCode::Enter);
    assert!(!s.jump_mode);
    assert_eq!(s.cursor_row, 3);
    assert_eq!(s.copy_feedback.as_deref(), Some("Jumped to row 5"));

    s.handle_event(KeyCode::Char('g'), CONTROL);
    type_text(&mut s, " c4 ");
    press(&mut s, KeyCode::Enter);
    assert_eq!((s.cursor_row, s.cursor_col), (2, 2));
    assert_eq!(s.copy_feedback.as_deref(), Some("Jumped to C4"));

    s.handle_event(KeyCode::Char('g'), CONTROL);
    type_text(&mut s, "7, 2");
    press(&mut s, KeyCode::Enter);
    assert_eq!((s.cursor_row, s.cursor_col), (5, 1));
    assert_eq!(s.copy_feedback.as_deref(), Some("Jumped to row 7, col 2"));
}

#[test]
fn jumping_to_the_header_row_lands_on_the_first_data_row() {
    let mut s = viewer(10, 3);
    for (input, at, message) in [
        ("1", (0, 2), "Jumped to row 1"),
        ("a1", (0, 0), "Jumped to A1"),
        ("1,2", (0, 1), "Jumped to row 1, col 2"),
    ] {
        s.cursor_row = 5;
        s.cursor_col = 2;
        s.handle_event(KeyCode::Char('g'), CONTROL);
        type_text(&mut s, input);
        press(&mut s, KeyCode::Enter);
        assert_eq!((s.cursor_row, s.cursor_col), at, "{input}");
        assert_eq!(s.copy_feedback.as_deref(), Some(message), "{input}");
    }
}

#[test]
fn refused_jumps_say_why() {
    let mut s = viewer(10, 3);
    let cases = [
        ("99", "Invalid row: 99 (max: 11)"),
        ("0", "Invalid row: 0 (max: 11)"),
        ("D2", "Cell address out of bounds: D2"),
        ("5,9", "Invalid row/column number"),
        ("x,y", "Invalid format. Use: row number, cell (A5), or row,col"),
        ("what?", "Invalid format. Use: row number, cell (A5), or row,col"),
    ];
    for (input, message) in cases {
        s.handle_event(KeyCode::Char('g'), CONTROL);
        type_text(&mut s, input);
        press(&mut s, KeyCode::Enter);
        assert_eq!((s.cursor_row, s.cursor_col), (0, 0), "{input}");
        assert_eq!(s.copy_feedback.as_deref(), Some(message), "{input}");
    }
}

#[test]
fn jump_input_editing_and_escape() {
    let mut s = viewer(10, 3);
    s.handle_event(KeyCode::Char('g'), CONTROL);
    type_text(&mut s, "12");
    press(&mut s, KeyCode::Backspace);
    assert_eq!(s.jump_input, "1");
    press(&mut s, KeyCode::Esc);
    assert!(!s.jump_mode);
    assert_eq!(s.jump_input, "");
    assert!(!s.should_quit);
}

#[test]
fn jumping_to_a_shown_address_returns_to_the_cell() {
    let mut s = viewer(20, 30);
    for _ in 0..27 {
        press(&mut s, KeyCode::Right);
    }
    for _ in 0..13 {
        press(&mut s, KeyCode::Down);
    }
    let address = s.current_cell_address();
    assert_eq!(address, "AB15");
    s.move_to_top();
    s.move_to_start_of_row();
    s.handle_event(KeyCode::Char('g'), CONTROL);
    type_text(&mut s, &address);
    press(&mut s, KeyCode::Enter);
    assert_eq!((s.cursor_row, s.cursor_col), (13, 27));
}

#[test]
fn searching_finds_matches_in_reading_order() {
    let mut s = viewer(5, 3);
    press(&mut s, KeyCode::Char('/'));
    assert!(s.search_mode);
    type_text(&mut s, ":1");
    assert_eq!(s.search_matches, vec![(0, 1), (1, 1), (2, 1), (3, 1), (4, 1)]);
    assert_eq!(s.current_match_index, Some(0));
    assert_eq!((s.cursor_row, s.cursor_col), (0, 1));
    press(&mut s, KeyCode::Enter);
    assert!(!s.search_mode);
    press(&mut s, KeyCode::Char('n'));
    assert_eq!(s.current_match_index, Some(1));
    assert_eq!((s.cursor_row, s.cursor_col), (1, 1));
    s.handle_event(KeyCode::Char('N'), SHIFT);
    s.handle_event(KeyCode::Char('N'), SHIFT);
    assert_eq!(s.current_match_index, Some(4));
    assert_eq!((s.cursor_row, s.cursor_col), (4, 1));
    press(&mut s, KeyCode::Char('n'));
    assert_eq!(s.current_match_index, Some(0));
    // Esc with results clears them; a second Esc quits.
    press(&mut s, KeyCode::Esc);
    assert!(s.search_matches.is_empty());
    assert!(!s.should_quit);
    press(&mut s, KeyCode::Esc);
    assert!(s.should_quit);
}

#[test]
fn search_ignores_case_and_backspace_searches_again() {
    let mut s = viewer(3, 2);
    press(&mut s, KeyCode::Char('/'));
    type_text(&mut s, "h");
    assert!(s.search_matches.is_empty());
    press(&mut s, KeyCode::Backspace);
    type_text(&mut s, "2:");
    assert_eq!(s.search_matches, vec![(2, 0), (2, 1)]);
    press(&mut s, KeyCode::Esc);
    assert!(!s.search_mode);
    assert!(s.search_matches.is_empty());
    assert_eq!(s.search_query, "");
}

#[test]
fn search_covers_lazy_sheets() {
    let mut rows = vec![vec![CellValue::String("n".to_string())]];
    for r in 0..2500 {
        rows.push(vec![CellValue::Int(r)]);
    }
    let data = LazySheetData::from_range_with_formulas(CellRange { rows, width: 1 }, None, false);
    let mut s = TuiState::new(vec!["S".to_string()], 0, data, Keymap::default_keymap(), "nord", false, false, false, false);
    assert!(matches!(s.sheet_data, SheetDataSource::Lazy { .. }));
    press(&mut s, KeyCode::Char('/'));
    type_text(&mut s, "2,49");
    assert_eq!(s.search_matches, vec![(2490, 0), (2491, 0), (2492, 0), (2493, 0), (2494, 0), (2495, 0), (2496, 0), (2497, 0), (2498, 0), (2499, 0)]);
    assert!(s.progress.is_none());
}

#[test]
fn help_popup_scrolls_and_closes() {
    let mut s = viewer(3, 2);
    s.handle_event(KeyCode::Char('?'), SHIFT);
    assert!(s.show_help);
    press(&mut s, KeyCode::PageDown);
    press(&mut s, KeyCode::Down);
    assert_eq!(s.help_scroll, 11);
    press(&mut s, KeyCode::Up);
    assert_eq!(s.help_scroll, 10);
    press(&mut s, KeyCode::Home);
    assert_eq!(s.help_scroll, 0);
    press(&mut s, KeyCode::Char('x'));
    assert!(!s.show_help);
    // Without Shift the `?` key still opens help (Shift is ignored for symbols).
    press(&mut s, KeyCode::Char('?'));
    assert!(s.show_help);
}

#[test]
fn cell_detail_popup_opens_and_closes() {
    let mut s = viewer(3, 2);
    press(&mut s, KeyCode::Enter);
    assert!(s.show_cell_detail);
    press(&mut s, KeyCode::PageDown);
    assert_eq!(s.cell_detail_scroll, 10);
    press(&mut s, KeyCode::Esc);
    assert!(!s.show_cell_detail);
    assert_eq!(s.cell_detail_scroll, 0);
}

#[test]
fn theme_key_cycles_through_all_six() {
    let mut s = viewer(1, 1);
    assert_eq!(s.current_theme, Theme::Default);
    press(&mut s, KeyCode::Char('t'));
    assert_eq!(s.current_theme, Theme::Dracula);
    for _ in 0..5 {
        press(&mut s, KeyCode::Char('t'));
    }
    assert_eq!(s.current_theme, Theme::Default);
}

#[test]
fn quit_key_and_letters_need_exact_modifiers() {
    let mut s = viewer(1, 1);
    s.handle_event(KeyCode::Char('q'), CONTROL);
    assert!(!s.should_quit);
    press(&mut s, KeyCode::Char('q'));
    assert!(s.should_quit);
}

#[test]
fn copy_keys_hand_back_the_text() {
    let mut s = viewer(3, 2);
    press(&mut s, KeyCode::Down);
    match press(&mut s, KeyCode::Char('c')) {
        Effect::CopyCell(t) => assert_eq!(t, "1:0"),
        other => panic!("unexpected {other:?}"),
    }
    s.cell_copied(Ok(()));
    assert_eq!(s.copy_feedback.as_deref(), Some("Copied cell A3"));
    match s.handle_event(KeyCode::Char('C'), SHIFT) {
        Effect::CopyRow(t) => assert_eq!(t, "1:0\t1:1"),
        other => panic!("unexpected {other:?}"),
    }
    s.row_copied(Ok(()));
    assert_eq!(s.copy_feedback.as_deref(), Some("Copied row 3 (2 cells)"));
    s.row_copied(Err("no clipboard".to_string()));
    assert_eq!(s.copy_feedback.as_deref(), Some("Copy failed: no clipboard"));
}

#[test]
fn switching_sheets_remembers_positions() {
    let mut s = viewer(10, 3);
    press(&mut s, KeyCode::Down);
    press(&mut s, KeyCode::Down);
    press(&mut s, KeyCode::Right);
    assert_eq!(press(&mut s, KeyCode::Tab), Effect::LoadSheet);
    assert_eq!(s.current_sheet_index, 1);
    s.finish_sheet_switch(grid(4, 1));
    assert_eq!((s.cursor_row, s.cursor_col), (0, 0));
    press(&mut s, KeyCode::Down);
    assert_eq!(s.handle_event(KeyCode::BackTab, 0), Effect::LoadSheet);
    assert_eq!(s.current_sheet_index, 0);
    s.finish_sheet_switch(grid(10, 3));
    assert_eq!((s.cursor_row, s.cursor_col), (2, 1));
    // Coming back to a smaller sheet clamps the remembered position.
    assert_eq!(press(&mut s, KeyCode::Tab), Effect::LoadSheet);
    s.finish_sheet_switch(grid(1, 1));
    assert_eq!((s.cursor_row, s.cursor_col), (0, 0));
}

#[test]
fn single_sheet_does_not_switch() {
    let mut s = TuiState::new(vec!["Only".to_string()], 0, grid(2, 2), Keymap::default_keymap(), "", false, false, false, false);
    assert_eq!(press(&mut s, KeyCode::Tab), Effect::Nothing);
    assert_eq!(s.current_sheet_index, 0);
}

#[test]
fn theme_names_select_themes() {
    assert_eq!(TuiState::parse_theme_name("Dracula"), Theme::Dracula);
    assert_eq!(TuiState::parse_theme_name("solarized dark"), Theme::SolarizedDark);
    assert_eq!(TuiState::parse_theme_name("SolarizedLight"), Theme::SolarizedLight);
    assert_eq!(TuiState::parse_theme_name("github dark"), Theme::GitHubDark);
    assert_eq!(TuiState::parse_theme_name("NORD"), Theme::Nord);
    assert_eq!(TuiState::parse_theme_name("unknown"), Theme::Default);
}

#[test]
fn every_theme_name_selects_its_theme() {
    let mut t = Theme::Default;
    for _ in 0..6 {
        let name = t.name();
        assert_eq!(TuiState::parse_theme_name(name), t);
        assert_eq!(TuiState::parse_theme_name(&name.to_uppercase()), t);
        assert_eq!(TuiState::parse_theme_name(&name.replace(' ', "")), t);
        t = t.next();
    }
    assert_eq!(TuiState::parse_theme_name("monokai"), Theme::Default);
    assert_eq!(TuiState::parse_theme_name(""), Theme::Default);
}

#[test]
fn column_widths_count_characters_and_clamp() {
    let rows = vec![
        vec![CellValue::String("id".to_string()), CellValue::String("naïve name".to_string())],
        vec![CellValue::Int(1), CellValue::String("x".repeat(50))],
        vec![CellValue::Int(1234567), CellValue::String("ééé".to_string())],
    ];
    let data = LazySheetData::from_range_with_formulas(CellRange { rows, width: 2 }, None, false);
    let s = TuiState::new(vec!["S".to_string()], 0, data, Keymap::default_keymap(), "", true, false, false, false);
    assert_eq!(s.column_widths, vec![9, 30]);
}

#[test]
fn horizontal_scroll_follows_the_cursor() {
    let mut rows = vec![(0..10).map(|c| CellValue::String(format!("col{c}xxxxx"))).collect::<Vec<_>>()];
    rows.push((0..10).map(|_| CellValue::Int(1)).collect());
    let data = LazySheetData::from_range_with_formulas(CellRange { rows, width: 10 }, None, false);
    let mut s = TuiState::new(vec!["S".to_string()], 0, data, Keymap::default_keymap(), "", true, false, false, false);
    assert_eq!(s.column_widths, vec![9; 10]);
    for _ in 0..5 {
        press(&mut s, KeyCode::Right);
        s.update_horizontal_scroll(25);
    }
    assert_eq!(s.cursor_col, 5);
    assert_eq!(s.horizontal_scroll_offset, 3);
    assert_eq!(s.visible_columns(25), (3, 6));
    press(&mut s, KeyCode::Home);
    s.update_horizontal_scroll(25);
    assert_eq!(s.horizontal_scroll_offset, 0);
}

#[test]
fn formulas_follow_their_rows_in_the_viewer() {
    let rows = vec![
        vec![CellValue::String("h".to_string())],
        vec![CellValue::Int(1)],
        vec![CellValue::Empty],
    ];
    let formulas = FormulaRange { start: (0, 0), rows: vec![vec![String::new()], vec![String::new()], vec!["=A2*2".to_string()]] };
    let data = LazySheetData::from_range_with_formulas(CellRange { rows, width: 1 }, Some(formulas), false);
    let mut s = TuiState::new(vec!["S".to_string()], 0, data, Keymap::default_keymap(), "", false, false, false, false);
    let (cell, formula) = s.sheet_data.get_cell(1, 0);
    assert!(cell.unwrap().is_empty());
    assert_eq!(formula.as_deref(), Some("=A2*2"));
}
