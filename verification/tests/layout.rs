//! The viewer's screen: parts, titles, info bar, popups, themes and progress.

use xleak::cell::CellValue;
use xleak::clipboard::osc52_sequence;
use xleak::keys::Keymap;
use xleak::layout::{
    border_titles, cell_detail_lines, feedback_popup, gutter, layout_screen, lines_of, popup_layout, viewport_of,
    ColumnSize, Highlight, Tone,
};
use xleak::progress::ProgressInfo;
use xleak::sheet::{CellRange, LazySheetData};
use xleak::state::TuiState;
use xleak::theme::{Color, ColorScheme, Theme};

fn text_grid(height: usize, width: usize) -> LazySheetData {
    let mut rows = vec![(0..width).map(|c| CellValue::String(format!("H{c}"))).collect::<Vec<_>>()];
    for r in 0..height {
        rows.push((0..width).map(|c| CellValue::String(format!("{r}:{c}"))).collect());
    }
    LazySheetData::from_range_with_formulas(CellRange { rows, width }, None, false)
}

fn viewer(names: &[&str], height: usize, width: usize, hscroll: bool) -> TuiState {
    TuiState::new(
        names.iter().map(|n| n.to_string()).collect(),
        0,
        text_grid(height, width),
        Keymap::default_keymap(),
        "default",
        hscroll,
        false,
        false,
        false,
    )
}

fn strings(v: &[&str]) -> Vec<String> {
    v.iter().map(|s| s.to_string()).collect()
}

#[test]
fn screen_layout_sizes_the_status_bar() {
    let l = layout_screen(80, 24, "hello", false, false);
    assert_eq!((l.header_rows, l.min_table_height, l.status_height, l.status_truncated), (2, 5, 1, false));
    let long = "a".repeat(50);
    let l = layout_screen(10, 8, &long, true, true);
    assert_eq!((l.header_rows, l.min_table_height, l.status_height, l.status_truncated), (0, 3, 4, true));
}

#[test]
fn viewport_leaves_out_borders_and_headers() {
    assert_eq!(viewport_of(20, 50, 2), (16, 48));
    assert_eq!(viewport_of(3, 1, 2), (0, 0));
}

#[test]
fn gutter_right_aligns_row_numbers() {
    assert_eq!(gutter(7), "   7 ");
    assert_eq!(gutter(1234), "1234 ");
    assert_eq!(gutter(12345), "12345 ");
}

#[test]
fn border_titles_fit_the_border() {
    assert_eq!(
        border_titles("Sheet1", "10\u{d7}3", 80, 78),
        (Some(" Sheet1 ".to_string()), Some(" 10\u{d7}3 ".to_string()))
    );
    assert_eq!(
        border_titles("VeryLongSheetName", "10\u{d7}3", 20, 12),
        (Some(" Ve\u{2026} ".to_string()), Some(" 10\u{d7}3 ".to_string()))
    );
    assert_eq!(border_titles("Name", "100\u{d7}20", 10, 5), (None, None));
}

#[test]
fn info_bar_and_titles() {
    let mut s = viewer(&["First", "Second"], 3, 2, false);
    assert_eq!(
        s.info_bar(),
        (" A2 ".to_string(), "Default | t:theme /:search ?:help q:quit ".to_string())
    );
    assert_eq!(s.sheet_title(), "First (1/2)");
    assert_eq!(s.sheet_dims(0, 2), "3\u{d7}2");
    s.jump_mode = true;
    s.jump_input = "B7".to_string();
    assert_eq!(s.info_bar(), (" Jump: B7 ".to_string(), String::new()));
    s.jump_mode = false;
    s.progress = Some(ProgressInfo { message: "Searching".to_string(), current: 1, total: 4 });
    assert_eq!(s.info_bar(), (" \u{23f3} Searching 25% (1/4) ".to_string(), String::new()));
    let single = viewer(&["Only"], 1, 1, false);
    assert_eq!(single.sheet_title(), "Only");
}

#[test]
fn info_bar_shows_the_current_match() {
    let mut s = viewer(&["First"], 3, 2, false);
    s.search_matches = vec![(0, 0), (2, 1)];
    s.current_match_index = Some(1);
    s.cursor_row = 2;
    s.cursor_col = 1;
    assert_eq!(
        s.info_bar(),
        (" Match 2/2 | B4 ".to_string(), "Default | n:next N:prev Esc:clear ?:help q:quit ".to_string())
    );
}

#[test]
fn highlights_follow_precedence() {
    let mut s = viewer(&["First"], 3, 3, false);
    assert_eq!(s.highlight(0, 0), Highlight::CurrentCell);
    assert_eq!(s.highlight(0, 2), Highlight::CurrentRow);
    assert_eq!(s.highlight(2, 0), Highlight::CurrentColumn);
    assert_eq!(s.highlight(1, 1), Highlight::Plain);
    s.search_matches = vec![(0, 0), (1, 1)];
    s.current_match_index = Some(0);
    assert_eq!(s.highlight(0, 0), Highlight::CurrentMatch);
    assert_eq!(s.highlight(1, 1), Highlight::SearchMatch);
}

#[test]
fn column_sizes_with_and_without_scrolling() {
    let s = viewer(&["First"], 2, 3, false);
    assert_eq!(s.visible_columns(40), (0, 3));
    assert_eq!(
        s.column_sizes(0, 3),
        vec![ColumnSize::Fixed(5), ColumnSize::Share(3), ColumnSize::Share(3), ColumnSize::Share(3)]
    );
    let h = viewer(&["First"], 2, 3, true);
    let (start, end) = h.visible_columns(400);
    assert_eq!((start, end), (0, 3));
    let sizes = h.column_sizes(start, end);
    assert_eq!(sizes.len(), 4);
    assert_eq!(sizes[0], ColumnSize::Fixed(5));
    assert_eq!(sizes[1], ColumnSize::Fixed(h.column_widths[0] as u16));
}

#[test]
fn popups_stay_inside_their_content() {
    let lines = strings(&["a", "b", "c", "d", "e"]);
    let p = popup_layout(&lines, 20, 80, 6, 10);
    assert_eq!((p.x, p.y, p.width, p.height, p.scroll), (30, 1, 20, 4, 3));
    assert_eq!(p.indicator, Some(" [4/4]".to_string()));
    let p = popup_layout(&strings(&["x"]), 20, 80, 24, 5);
    assert_eq!((p.x, p.y, p.width, p.height, p.scroll), (30, 10, 20, 3, 0));
    assert_eq!(p.indicator, None);
}

#[test]
fn help_popup_keeps_its_scroll_in_range() {
    let mut s = viewer(&["First"], 1, 1, false);
    s.help_scroll = 100;
    let lines = strings(&["1", "2", "3", "4", "5", "6", "7", "8"]);
    let p = s.help_popup(&lines, 30, 80, 7);
    assert_eq!(p.height, 5);
    assert_eq!(p.scroll, 5);
    assert_eq!(s.help_scroll, 5);
    assert_eq!(p.indicator, Some(" [6/6]".to_string()));
}

#[test]
fn feedback_popup_is_centered() {
    assert_eq!(feedback_popup("Copied!", 80, 24), (33, 10, 13, 3));
    assert_eq!(feedback_popup("\u{e9}\u{e9}", 80, 24), (35, 10, 10, 3));
    assert_eq!(feedback_popup(&"a".repeat(100), 80, 24), (10, 10, 60, 3));
}

#[test]
fn lines_split_on_newlines() {
    assert_eq!(lines_of("a\r\nb\nc\n"), vec!["a", "b", "c"]);
    assert_eq!(lines_of(""), Vec::<String>::new());
    assert_eq!(lines_of("\n\nx"), vec!["", "", "x"]);
}

#[test]
fn cell_detail_of_a_number() {
    let v = cell_detail_lines("B3", "Age", &Some(CellValue::Int(1234)), &None);
    let got: Vec<(String, String, Tone)> = v.into_iter().map(|d| (d.label, d.text, d.tone)).collect();
    let want: Vec<(&str, &str, Tone)> = vec![
        ("Cell: ", "B3", Tone::Address),
        ("Column: ", "Age", Tone::Plain),
        ("", "", Tone::Plain),
        ("Type: ", "Integer", Tone::Kind),
        ("Value: ", "1234", Tone::Plain),
        ("Display Value: ", "1,234", Tone::Plain),
        ("", "", Tone::Plain),
        ("Full Content:", "", Tone::Heading),
        ("", "", Tone::Plain),
        ("", "1234", Tone::Plain),
        ("", "", Tone::Plain),
        ("", "\u{2191}\u{2193} to scroll | Any other key to close", Tone::Hint),
    ];
    let want: Vec<(String, String, Tone)> =
        want.into_iter().map(|(a, b, t)| (a.to_string(), b.to_string(), t)).collect();
    assert_eq!(got, want);
}

#[test]
fn cell_detail_without_a_cell() {
    let v = cell_detail_lines("A1", "H", &None, &None);
    assert_eq!(v.len(), 6);
    assert_eq!(v[3].text, "No cell data");
    assert_eq!(v[3].tone, Tone::Note);
    let f = cell_detail_lines("A1", "H", &None, &Some("=SUM(A2:A3)".to_string()));
    assert_eq!(f[3].label, "Formula: ");
    assert_eq!(f[3].text, "=SUM(A2:A3)");
    assert_eq!(f[5].text, "(formula not evaluated by Excel reader)");
}

#[test]
fn cell_detail_summarizes_multiline_values() {
    let v = cell_detail_lines("C9", "Notes", &Some(CellValue::String("one\ntwo\nthree".to_string())), &None);
    assert_eq!(v[4].text, "one \u{2026} (+2 more lines)");
    let texts: Vec<&str> = v.iter().map(|d| d.text.as_str()).collect();
    assert!(texts.ends_with(&["one", "two", "three", "", "\u{2191}\u{2193} to scroll | Any other key to close"]));
}

#[test]
fn status_text_shows_the_cursor_value() {
    let mut s = viewer(&["First"], 3, 2, false);
    assert_eq!(s.status_text(), "0:0 ");
    let mut e = TuiState::new(
        vec!["E".to_string()],
        0,
        LazySheetData::from_range_with_formulas(
            CellRange { rows: vec![vec![CellValue::String("h".to_string())], vec![CellValue::Empty]], width: 1 },
            None,
            false,
        ),
        Keymap::default_keymap(),
        "default",
        false,
        false,
        false,
        false,
    );
    assert_eq!(e.status_text(), "(empty)");
}

#[test]
fn themes_cycle_and_color_cells() {
    assert_eq!(Theme::Default.next(), Theme::Dracula);
    assert_eq!(Theme::Nord.next(), Theme::Default);
    assert_eq!(Theme::SolarizedLight.name(), "Solarized Light");
    let d = Theme::Default.colors();
    assert_eq!(d.cell_color(&CellValue::Int(3)), Color::Cyan);
    assert_eq!(d.cell_color(&CellValue::Empty), Color::DarkGray);
    assert_eq!(d.cell_color(&CellValue::Bool(true)), Color::Magenta);
    assert_eq!(d.alternating_row_bg, Some(Color::Rgb(25, 25, 28)));
    let n = ColorScheme::nord();
    assert_eq!(Theme::Nord.colors().string_fg, n.string_fg);
    let mut t = Theme::Default;
    for _ in 0..6 {
        t = t.next();
    }
    assert_eq!(t, Theme::Default);
}

#[test]
fn progress_reads_as_a_percentage() {
    let mut p = ProgressInfo::new("Searching".to_string(), 200);
    assert_eq!(p.percentage(), 0);
    p.update(50);
    assert_eq!(p.percentage(), 25);
    assert_eq!(p.format(), "Searching 25% (50/200)");
    let empty = ProgressInfo::new("Nothing".to_string(), 0);
    assert_eq!(empty.percentage(), 100);
}

#[test]
fn osc52_sequences_carry_base64() {
    assert_eq!(osc52_sequence("Man"), "\x1b]52;c;TWFu\x07");
    assert_eq!(osc52_sequence("Ma"), "\x1b]52;c;TWE=\x07");
    assert_eq!(osc52_sequence("M"), "\x1b]52;c;TQ==\x07");
    assert_eq!(osc52_sequence(""), "\x1b]52;c;\x07");
    assert_eq!(osc52_sequence("\u{e9}"), "\x1b]52;c;w6k=\x07");
    assert_eq!(osc52_sequence("any carnal pleasure."), "\x1b]52;c;YW55IGNhcm5hbCBwbGVhc3VyZS4=\x07");
    assert_eq!(osc52_sequence("a\tb\n?>"), "\x1b]52;c;YQliCj8+\x07");
}

#[test]
fn highlight_finds_matches_among_many() {
    let mut s = viewer(&["First"], 40, 5, false);
    let mut matches = Vec::new();
    for r in (0..40).step_by(3) {
        for c in [1, 3] {
            matches.push((r, c));
        }
    }
    s.search_matches = matches;
    s.current_match_index = Some(0);
    s.cursor_row = 2;
    s.cursor_col = 2;
    assert_eq!(s.highlight(0, 1), Highlight::CurrentMatch);
    assert_eq!(s.highlight(0, 3), Highlight::SearchMatch);
    assert_eq!(s.highlight(39, 3), Highlight::SearchMatch);
    assert_eq!(s.highlight(21, 1), Highlight::SearchMatch);
    assert_eq!(s.highlight(21, 2), Highlight::CurrentColumn);
    assert_eq!(s.highlight(20, 1), Highlight::Plain);
    assert_eq!(s.highlight(2, 4), Highlight::CurrentRow);
    assert_eq!(s.highlight(3, 3), Highlight::SearchMatch);
}
