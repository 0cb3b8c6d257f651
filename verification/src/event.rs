//! What a key press does to the viewer: scrolling popups, typing a search
//! or a jump, and the bound commands. Work that needs the outside world
//! (loading a sheet, the clipboard) is handed back as an `Effect`.

use vstd::prelude::*;
use crate::cell::raw_text;
use crate::export::{csv_cells, join};
use crate::jump::{jump_outcome, upper_text};
use crate::cell::trim_text;
use crate::keys::{binding_matches, matches_binding, Action, KeyCode, Keymap};
use crate::state::{last_index, next_match_index, prev_match_index, all_matches, TuiState};
use crate::text::{chars_of, push_char, string_from};
use crate::theme::spec_next;
use crate::viewer::cell_at;

verus! {

/// Outside work a key press asks for.
#[derive(Debug, PartialEq, Eq)]
pub enum Effect {
    /// Nothing to do.
    Nothing,
    /// Load the data of the (new) current sheet and hand it to
    /// `finish_sheet_switch`.
    LoadSheet,
    /// Put this text on the clipboard, then report with `cell_copied`.
    CopyCell(String),
    /// Put this text on the clipboard, then report with `row_copied`.
    CopyRow(String),
}

/// `a - b`, or 0 below zero.
pub open spec fn sat_sub(a: usize, b: usize) -> usize {
    if a >= b { (a - b) as usize } else { 0 }
}

/// `a + b`, or `usize::MAX` above it.
pub open spec fn sat_add(a: usize, b: usize) -> usize {
    if a + b <= usize::MAX { (a + b) as usize } else { usize::MAX }
}

/// A popup's scroll offset after a key: Up/Down move one line, PageUp/PageDown
/// ten, Home goes to the top; `None` when the key closes the popup.
pub open spec fn popup_scroll(scroll: usize, code: KeyCode) -> Option<usize> {
    match code {
        KeyCode::Up => Some(sat_sub(scroll, 1)),
        KeyCode::Down => Some(sat_add(scroll, 1)),
        KeyCode::PageUp => Some(sat_sub(scroll, 10)),
        KeyCode::PageDown => Some(sat_add(scroll, 10)),
        KeyCode::Home => Some(0),
        _ => None,
    }
}

/// The command a key press triggers, trying the commands in this order:
/// quit, help, theme, search, next and previous match, copy cell and row,
/// jump, cell details, next and previous sheet (Shift+Tab always selects the
/// previous sheet), the four arrows, top, bottom, row start, row end, page up,
/// page down.
pub open spec fn command_for(k: Keymap, code: KeyCode, m: u8) -> Option<Action> {
    if binding_matches(k.quit, code, m) {
        Some(Action::Quit)
    } else if binding_matches(k.help, code, m) {
        Some(Action::Help)
    } else if binding_matches(k.theme_toggle, code, m) {
        Some(Action::ThemeToggle)
    } else if binding_matches(k.search, code, m) {
        Some(Action::Search)
    } else if binding_matches(k.next_match, code, m) {
        Some(Action::NextMatch)
    } else if binding_matches(k.prev_match, code, m) {
        Some(Action::PrevMatch)
    } else if binding_matches(k.copy_cell, code, m) {
        Some(Action::CopyCell)
    } else if binding_matches(k.copy_row, code, m) {
        Some(Action::CopyRow)
    } else if binding_matches(k.jump, code, m) {
        Some(Action::Jump)
    } else if binding_matches(k.show_cell_detail, code, m) {
        Some(Action::ShowCellDetail)
    } else if binding_matches(k.next_sheet, code, m) {
        Some(Action::NextSheet)
    } else if binding_matches(k.prev_sheet, code, m) || code == KeyCode::BackTab {
        Some(Action::PrevSheet)
    } else if binding_matches(k.up, code, m) {
        Some(Action::Up)
    } else if binding_matches(k.down, code, m) {
        Some(Action::Down)
    } else if binding_matches(k.left, code, m) {
        Some(Action::Left)
    } else if binding_matches(k.right, code, m) {
        Some(Action::Right)
    } else if binding_matches(k.jump_to_top, code, m) {
        Some(Action::JumpToTop)
    } else if binding_matches(k.jump_to_bottom, code, m) {
        Some(Action::JumpToBottom)
    } else if binding_matches(k.jump_to_row_start, code, m) {
        Some(Action::JumpToRowStart)
    } else if binding_matches(k.jump_to_row_end, code, m) {
        Some(Action::JumpToRowEnd)
    } else if binding_matches(k.page_up, code, m) {
        Some(Action::PageUp)
    } else if binding_matches(k.page_down, code, m) {
        Some(Action::PageDown)
    } else {
        None
    }
}

/// Cursor row, cursor column, vertical and horizontal scroll after a
/// movement command (pages are 10 rows).
pub open spec fn moved_view(s: TuiState, a: Action) -> (usize, usize, usize, usize) {
    let row = s.cursor_row;
    let col = s.cursor_col;
    let scroll = s.scroll_offset;
    let hscroll = s.horizontal_scroll_offset;
    let max_row = last_index(s.height());
    let max_col = last_index(s.width());
    match a {
        Action::Up => if row > 0 {
            let r = (row - 1) as usize;
            (r, col, if r < scroll { r } else { scroll }, hscroll)
        } else {
            (row, col, scroll, hscroll)
        },
        Action::Down => (if row < max_row { (row + 1) as usize } else { row }, col, scroll, hscroll),
        Action::Left => if col > 0 {
            let c = (col - 1) as usize;
            (row, c, scroll, if s.horizontal_scroll_enabled && c < hscroll { c } else { hscroll })
        } else {
            (row, col, scroll, hscroll)
        },
        Action::Right => (row, if col < max_col { (col + 1) as usize } else { col }, scroll, hscroll),
        Action::JumpToTop => (0, col, scroll, hscroll),
        Action::JumpToBottom => (max_row as usize, col, scroll, hscroll),
        Action::JumpToRowStart => (row, 0, scroll, if s.horizontal_scroll_enabled { 0 } else { hscroll }),
        Action::JumpToRowEnd => (row, max_col as usize, scroll, hscroll),
        Action::PageUp => (sat_sub(row, 10), col, scroll, hscroll),
        Action::PageDown => (if row + 10 <= max_row { (row + 10) as usize } else { max_row as usize }, col, scroll, hscroll),
        _ => (row, col, scroll, hscroll),
    }
}

/// Whether a command only moves the cursor.
pub open spec fn is_movement(a: Action) -> bool {
    match a {
        Action::Up | Action::Down | Action::Left | Action::Right | Action::JumpToTop | Action::JumpToBottom
        | Action::JumpToRowStart | Action::JumpToRowEnd | Action::PageUp | Action::PageDown => true,
        _ => false,
    }
}

/// Whether a command only moves the cursor.
fn is_movement_command(a: Action) -> (b: bool)
    ensures
        b == is_movement(a),
{
    match a {
        Action::Up | Action::Down | Action::Left | Action::Right | Action::JumpToTop | Action::JumpToBottom
        | Action::JumpToRowStart | Action::JumpToRowEnd | Action::PageUp | Action::PageDown => true,
        _ => false,
    }
}

/// `s` after a search for its own query: the matches (none for an empty
/// query), the first one current and under the cursor, the sheet's cache
/// possibly refilled.
pub open spec fn searched(s: TuiState, n: TuiState) -> bool {
    &&& n.sheet_data.same_sheet(&s.sheet_data)
    &&& s.search_query@.len() == 0 ==> n.search_matches@.len() == 0
    &&& s.search_query@.len() > 0 ==> n.search_matches@ == all_matches(s.sheet_data.all_rows(), s.search_query@)
    &&& n.current_match_index == if n.search_matches@.len() > 0 { Some(0usize) } else { None }
    &&& n.search_matches@.len() > 0 ==> n.cursor_row == n.search_matches@[0].0 && n.cursor_col == n.search_matches@[0].1
    &&& n.search_matches@.len() == 0 ==> n.cursor_row == s.cursor_row && n.cursor_col == s.cursor_col
    &&& n == (TuiState {
        sheet_data: n.sheet_data,
        search_matches: n.search_matches,
        current_match_index: n.current_match_index,
        cursor_row: n.cursor_row,
        cursor_col: n.cursor_col,
        progress: None,
        ..s
    })
}

/// `s` after the jump typed in it (see `perform_jump`).
pub open spec fn jumped(s: TuiState, n: TuiState) -> bool {
    &&& n.same_content(&s)
    &&& n.scroll_offset == s.scroll_offset
    &&& n.horizontal_scroll_offset == s.horizontal_scroll_offset
    &&& !n.jump_mode
    &&& n.jump_input@.len() == 0
    &&& s.jump_input@.len() == 0 ==> {
        &&& n.cursor_row == s.cursor_row
        &&& n.cursor_col == s.cursor_col
        &&& n.copy_feedback == s.copy_feedback
    }
    &&& s.jump_input@.len() > 0 ==> {
        let o = jump_outcome(s.jump_input@, upper_text(trim_text(s.jump_input@)), s.height(), s.width(), s.no_header);
        &&& n.copy_feedback matches Some(m) && m@ == o.1
        &&& match o.0 {
            Some((r, c)) => n.cursor_row == r && n.cursor_col == match c {
                Some(c) => c,
                None => s.cursor_col as nat,
            },
            None => n.cursor_row == s.cursor_row && n.cursor_col == s.cursor_col,
        }
    }
}

/// `t` without its last character (unchanged when empty).
pub open spec fn without_last(t: Seq<char>) -> Seq<char> {
    if t.len() == 0 { t } else { t.drop_last() }
}

/// The string without its last character (`String::pop`, result dropped).
fn pop_char(s: &String) -> (r: String)
    ensures
        r@ == without_last(s@),
{
    let v = chars_of(s.as_str());
    if v.len() == 0 {
        String::new()
    } else {
        string_from(&v, 0, v.len() - 1)
    }
}

impl TuiState {
    /// Whether a key press triggers the key bound to `action`.
    pub fn key_matches(&self, code: KeyCode, modifiers: u8, action: Action) -> (r: bool)
        ensures
            r == binding_matches(self.keymap.spec_binding(action), code, modifiers),
    {
        matches_binding(self.keymap.get_keybinding(action), code, modifiers)
    }

    /// The command a key press triggers (see `command_for`).
    pub fn command(&self, code: KeyCode, modifiers: u8) -> (a: Option<Action>)
        ensures
            a == command_for(self.keymap, code, modifiers),
    {
        if self.key_matches(code, modifiers, Action::Quit) {
            Some(Action::Quit)
        } else if self.key_matches(code, modifiers, Action::Help) {
            Some(Action::Help)
        } else if self.key_matches(code, modifiers, Action::ThemeToggle) {
            Some(Action::ThemeToggle)
        } else if self.key_matches(code, modifiers, Action::Search) {
            Some(Action::Search)
        } else if self.key_matches(code, modifiers, Action::NextMatch) {
            Some(Action::NextMatch)
        } else if self.key_matches(code, modifiers, Action::PrevMatch) {
            Some(Action::PrevMatch)
        } else if self.key_matches(code, modifiers, Action::CopyCell) {
            Some(Action::CopyCell)
        } else if self.key_matches(code, modifiers, Action::CopyRow) {
            Some(Action::CopyRow)
        } else if self.key_matches(code, modifiers, Action::Jump) {
            Some(Action::Jump)
        } else if self.key_matches(code, modifiers, Action::ShowCellDetail) {
            Some(Action::ShowCellDetail)
        } else if self.key_matches(code, modifiers, Action::NextSheet) {
            Some(Action::NextSheet)
        } else if self.key_matches(code, modifiers, Action::PrevSheet) || code == KeyCode::BackTab {
            Some(Action::PrevSheet)
        } else if self.key_matches(code, modifiers, Action::Up) {
            Some(Action::Up)
        } else if self.key_matches(code, modifiers, Action::Down) {
            Some(Action::Down)
        } else if self.key_matches(code, modifiers, Action::Left) {
            Some(Action::Left)
        } else if self.key_matches(code, modifiers, Action::Right) {
            Some(Action::Right)
        } else if self.key_matches(code, modifiers, Action::JumpToTop) {
            Some(Action::JumpToTop)
        } else if self.key_matches(code, modifiers, Action::JumpToBottom) {
            Some(Action::JumpToBottom)
        } else if self.key_matches(code, modifiers, Action::JumpToRowStart) {
            Some(Action::JumpToRowStart)
        } else if self.key_matches(code, modifiers, Action::JumpToRowEnd) {
            Some(Action::JumpToRowEnd)
        } else if self.key_matches(code, modifiers, Action::PageUp) {
            Some(Action::PageUp)
        } else if self.key_matches(code, modifiers, Action::PageDown) {
            Some(Action::PageDown)
        } else {
            None
        }
    }
}

/// The viewer after a key while the help popup is open.
pub open spec fn help_key_result(s: TuiState, n: TuiState, code: KeyCode) -> bool {
    n == match popup_scroll(s.help_scroll, code) {
        Some(h) => TuiState { help_scroll: h, ..s },
        None => TuiState { show_help: false, help_scroll: 0, ..s },
    }
}

/// The viewer after a key while the cell-detail popup is open.
pub open spec fn detail_key_result(s: TuiState, n: TuiState, code: KeyCode) -> bool {
    n == match popup_scroll(s.cell_detail_scroll, code) {
        Some(h) => TuiState { cell_detail_scroll: h, ..s },
        None => TuiState { show_cell_detail: false, cell_detail_scroll: 0, ..s },
    }
}

/// The viewer after a key while typing a search: characters extend the
/// query and Backspace shortens it, searching again each time; Enter keeps
/// the results, Esc drops them; other keys do nothing.
pub open spec fn search_key_result(s: TuiState, n: TuiState, code: KeyCode) -> bool {
    match code {
        KeyCode::Char(c) => n.search_query@ == s.search_query@.push(c)
            && searched(TuiState { search_query: n.search_query, ..s }, n),
        KeyCode::Backspace => n.search_query@ == without_last(s.search_query@)
            && searched(TuiState { search_query: n.search_query, ..s }, n),
        KeyCode::Enter => n == TuiState { search_mode: false, ..s },
        KeyCode::Esc => n.search_query@.len() == 0 && n.search_matches@.len() == 0 && n == (TuiState {
            search_mode: false,
            search_query: n.search_query,
            search_matches: n.search_matches,
            current_match_index: None,
            ..s
        }),
        _ => n == s,
    }
}

/// The viewer after a key while typing a jump: characters extend the input
/// and Backspace shortens it; Enter jumps, Esc gives up; other keys do
/// nothing.
pub open spec fn jump_key_result(s: TuiState, n: TuiState, code: KeyCode) -> bool {
    match code {
        KeyCode::Char(c) => n.jump_input@ == s.jump_input@.push(c) && n == TuiState { jump_input: n.jump_input, ..s },
        KeyCode::Backspace => n.jump_input@ == without_last(s.jump_input@) && n == TuiState { jump_input: n.jump_input, ..s },
        KeyCode::Enter => jumped(s, n),
        KeyCode::Esc => n.jump_input@.len() == 0 && n == TuiState { jump_mode: false, jump_input: n.jump_input, ..s },
        _ => n == s,
    }
}

/// The viewer and the outside work after a command.
pub open spec fn command_result(s: TuiState, n: TuiState, a: Action, e: Effect) -> bool {
    match a {
        Action::Quit => e is Nothing && n == TuiState { should_quit: true, ..s },
        Action::Help => e is Nothing && n == TuiState { show_help: true, help_scroll: 0, ..s },
        Action::ThemeToggle => e is Nothing && n == TuiState { current_theme: spec_next(s.current_theme), ..s },
        Action::Search => e is Nothing && n.search_query@.len() == 0 && n.search_matches@.len() == 0 && n == (TuiState {
            search_mode: true,
            search_query: n.search_query,
            search_matches: n.search_matches,
            current_match_index: None,
            ..s
        }),
        Action::NextMatch => e is Nothing && if s.search_matches@.len() == 0 {
            n == s
        } else {
            let i = next_match_index(s.current_match_index, s.search_matches@.len());
            n == TuiState {
                current_match_index: Some(i as usize),
                cursor_row: s.search_matches@[i as int].0,
                cursor_col: s.search_matches@[i as int].1,
                ..s
            }
        },
        Action::PrevMatch => e is Nothing && if s.search_matches@.len() == 0 {
            n == s
        } else {
            let i = prev_match_index(s.current_match_index, s.search_matches@.len());
            n == TuiState {
                current_match_index: Some(i as usize),
                cursor_row: s.search_matches@[i as int].0,
                cursor_col: s.search_matches@[i as int].1,
                ..s
            }
        },
        Action::CopyCell => {
            &&& n.sheet_data.same_sheet(&s.sheet_data)
            &&& n == TuiState { sheet_data: n.sheet_data, ..s }
            &&& e matches Effect::CopyCell(t) && t@ == match cell_at(s.sheet_data.all_rows(), s.cursor_row as int, s.cursor_col as int) {
                Some(c) => raw_text(c),
                None => Seq::<char>::empty(),
            }
        },
        Action::CopyRow => {
            &&& n.sheet_data.same_sheet(&s.sheet_data)
            &&& n == TuiState { sheet_data: n.sheet_data, ..s }
            &&& e matches Effect::CopyRow(t) && t@ == if s.cursor_row < s.height() {
                join(csv_cells(s.sheet_data.all_rows()[s.cursor_row as int], "\t"@), "\t"@)
            } else {
                Seq::<char>::empty()
            }
        },
        Action::Jump => e is Nothing && n.jump_input@.len() == 0 && n == TuiState { jump_mode: true, jump_input: n.jump_input, ..s },
        Action::ShowCellDetail => e is Nothing && n == TuiState { show_cell_detail: true, cell_detail_scroll: 0, ..s },
        Action::NextSheet => if s.sheet_names@.len() > 1 {
            &&& e is LoadSheet
            &&& n.current_sheet_index == (s.current_sheet_index + 1) % (s.sheet_names@.len() as int)
            &&& n.sheet_positions@ == s.sheet_positions@.insert(s.current_sheet_index,
                (s.cursor_row, s.cursor_col, s.scroll_offset, s.horizontal_scroll_offset))
            &&& n == TuiState { current_sheet_index: n.current_sheet_index, sheet_positions: n.sheet_positions, ..s }
        } else {
            e is Nothing && n == s
        },
        Action::PrevSheet => if s.sheet_names@.len() > 1 {
            &&& e is LoadSheet
            &&& n.current_sheet_index == if s.current_sheet_index == 0 {
                s.sheet_names@.len() - 1
            } else {
                s.current_sheet_index - 1
            }
            &&& n.sheet_positions@ == s.sheet_positions@.insert(s.current_sheet_index,
                (s.cursor_row, s.cursor_col, s.scroll_offset, s.horizontal_scroll_offset))
            &&& n == TuiState { current_sheet_index: n.current_sheet_index, sheet_positions: n.sheet_positions, ..s }
        } else {
            e is Nothing && n == s
        },
        _ => {
            let v = moved_view(s, a);
            e is Nothing && n == TuiState {
                cursor_row: v.0,
                cursor_col: v.1,
                scroll_offset: v.2,
                horizontal_scroll_offset: v.3,
                ..s
            }
        },
    }
}

/// The viewer after a key that triggers no command: Esc clears the search
/// results when there are any, and quits otherwise; other keys do nothing.
pub open spec fn unbound_key_result(s: TuiState, n: TuiState, code: KeyCode) -> bool {
    if code == KeyCode::Esc {
        if s.search_matches@.len() > 0 {
            n.search_query@.len() == 0 && n.search_matches@.len() == 0 && n == (TuiState {
                search_query: n.search_query,
                search_matches: n.search_matches,
                current_match_index: None,
                ..s
            })
        } else {
            n == TuiState { should_quit: true, ..s }
        }
    } else {
        n == s
    }
}

/// A popup's scroll offset after a key (see `popup_scroll`).
fn scroll_popup(scroll: usize, code: KeyCode) -> (r: Option<usize>)
    ensures
        r == popup_scroll(scroll, code),
{
    match code {
        KeyCode::Up => Some(if scroll >= 1 { scroll - 1 } else { 0 }),
        KeyCode::Down => Some(if scroll < usize::MAX { scroll + 1 } else { usize::MAX }),
        KeyCode::PageUp => Some(if scroll >= 10 { scroll - 10 } else { 0 }),
        KeyCode::PageDown => Some(if scroll <= usize::MAX - 10 { scroll + 10 } else { usize::MAX }),
        KeyCode::Home => Some(0),
        _ => None,
    }
}

impl TuiState {
    fn handle_help_key(&mut self, code: KeyCode)
        ensures
            help_key_result(*old(self), *final(self), code),
    {
        match scroll_popup(self.help_scroll, code) {
            Some(h) => {
                self.help_scroll = h;
            },
            None => {
                self.show_help = false;
                self.help_scroll = 0;
            },
        }
    }

    fn handle_detail_key(&mut self, code: KeyCode)
        ensures
            detail_key_result(*old(self), *final(self), code),
    {
        match scroll_popup(self.cell_detail_scroll, code) {
            Some(h) => {
                self.cell_detail_scroll = h;
            },
            None => {
                self.show_cell_detail = false;
                self.cell_detail_scroll = 0;
            },
        }
    }

    fn handle_search_key(&mut self, code: KeyCode)
        requires
            old(self).wf(),
        ensures
            final(self).wf(),
            search_key_result(*old(self), *final(self), code),
    {
        match code {
            KeyCode::Char(c) => {
                push_char(&mut self.search_query, c);
                self.perform_search();
            },
            KeyCode::Backspace => {
                self.search_query = pop_char(&self.search_query);
                self.perform_search();
            },
            KeyCode::Enter => {
                self.search_mode = false;
            },
            KeyCode::Esc => {
                self.search_mode = false;
                self.clear_search();
            },
            _ => {},
        }
    }

    fn handle_jump_key(&mut self, code: KeyCode)
        requires
            old(self).wf(),
        ensures
            final(self).wf(),
            jump_key_result(*old(self), *final(self), code),
    {
        match code {
            KeyCode::Char(c) => {
                push_char(&mut self.jump_input, c);
            },
            KeyCode::Backspace => {
                self.jump_input = pop_char(&self.jump_input);
            },
            KeyCode::Enter => {
                self.perform_jump();
            },
            KeyCode::Esc => {
                self.jump_mode = false;
                self.jump_input = String::new();
            },
            _ => {},
        }
    }
}

impl TuiState {
    /// Carry out a command; returns the outside work it needs.
    pub fn run_command(&mut self, action: Action) -> (e: Effect)
        requires
            old(self).wf(),
        ensures
            final(self).wf(),
            command_result(*old(self), *final(self), action, e),
    {
        if is_movement_command(action) {
            self.run_movement(action)
        } else {
            match action {
                Action::Quit | Action::Help | Action::ThemeToggle | Action::Jump | Action::ShowCellDetail => self.run_mode_command(action),
                Action::Search | Action::NextMatch | Action::PrevMatch => self.run_search_command(action),
                _ => self.run_sheet_command(action),
            }
        }
    }

    fn run_mode_command(&mut self, action: Action) -> (e: Effect)
        requires
            old(self).wf(),
            action is Quit || action is Help || action is ThemeToggle || action is Jump || action is ShowCellDetail,
        ensures
            final(self).wf(),
            command_result(*old(self), *final(self), action, e),
    {
        match action {
            Action::Quit => {
                self.should_quit = true;
            },
            Action::Help => {
                self.show_help = true;
                self.help_scroll = 0;
            },
            Action::ThemeToggle => {
                self.current_theme = self.current_theme.next();
            },
            Action::Jump => {
                self.enter_jump_mode();
            },
            _ => {
                self.show_cell_detail = true;
                self.cell_detail_scroll = 0;
            },
        }
        Effect::Nothing
    }

    fn run_search_command(&mut self, action: Action) -> (e: Effect)
        requires
            old(self).wf(),
            action is Search || action is NextMatch || action is PrevMatch,
        ensures
            final(self).wf(),
            command_result(*old(self), *final(self), action, e),
    {
        match action {
            Action::Search => {
                self.search_mode = true;
                self.clear_search();
            },
            Action::NextMatch => {
                self.jump_to_next_match();
            },
            _ => {
                self.jump_to_prev_match();
            },
        }
        Effect::Nothing
    }

    fn run_sheet_command(&mut self, action: Action) -> (e: Effect)
        requires
            old(self).wf(),
            action is CopyCell || action is CopyRow || action is NextSheet || action is PrevSheet,
        ensures
            final(self).wf(),
            command_result(*old(self), *final(self), action, e),
    {
        match action {
            Action::CopyCell => Effect::CopyCell(self.copy_current_cell()),
            Action::CopyRow => Effect::CopyRow(self.copy_current_row()),
            Action::NextSheet => if self.switch_to_next_sheet() {
                Effect::LoadSheet
            } else {
                Effect::Nothing
            },
            _ => if self.switch_to_prev_sheet() {
                Effect::LoadSheet
            } else {
                Effect::Nothing
            },
        }
    }

    fn run_movement(&mut self, action: Action) -> (e: Effect)
        requires
            old(self).wf(),
            is_movement(action),
        ensures
            final(self).wf(),
            command_result(*old(self), *final(self), action, e),
    {
        match action {
            Action::Up => self.move_up(),
            Action::Down => self.move_down(),
            Action::Left => self.move_left(),
            Action::Right => self.move_right(),
            Action::JumpToTop => self.move_to_top(),
            Action::JumpToBottom => self.move_to_bottom(),
            Action::JumpToRowStart => self.move_to_start_of_row(),
            Action::JumpToRowEnd => self.move_to_end_of_row(),
            Action::PageUp => self.page_up(10),
            _ => self.page_down(10),
        }
        Effect::Nothing
    }

    /// Handle a key press (with the `modifiers` bits held). An open popup
    /// takes the key first, then search input, then jump input; otherwise
    /// the key's command runs (see `command_for`), and an unbound Esc clears
    /// the search results or quits. Returns the outside work to do.
    pub fn handle_event(&mut self, code: KeyCode, modifiers: u8) -> (e: Effect)
        requires
            old(self).wf(),
        ensures
            final(self).wf(),
            old(self).show_help ==> e is Nothing && help_key_result(*old(self), *final(self), code),
            !old(self).show_help && old(self).show_cell_detail ==> e is Nothing
                && detail_key_result(*old(self), *final(self), code),
            !old(self).show_help && !old(self).show_cell_detail && old(self).search_mode ==> e is Nothing
                && search_key_result(*old(self), *final(self), code),
            !old(self).show_help && !old(self).show_cell_detail && !old(self).search_mode && old(self).jump_mode
                ==> e is Nothing && jump_key_result(*old(self), *final(self), code),
            !old(self).show_help && !old(self).show_cell_detail && !old(self).search_mode && !old(self).jump_mode
                ==> match command_for(old(self).keymap, code, modifiers) {
                    Some(a) => command_result(*old(self), *final(self), a, e),
                    None => e is Nothing && unbound_key_result(*old(self), *final(self), code),
                },
    {
        if self.show_help {
            self.handle_help_key(code);
            return Effect::Nothing;
        }
        if self.show_cell_detail {
            self.handle_detail_key(code);
            return Effect::Nothing;
        }
        if self.search_mode {
            self.handle_search_key(code);
            return Effect::Nothing;
        }
        if self.jump_mode {
            self.handle_jump_key(code);
            return Effect::Nothing;
        }
        match self.command(code, modifiers) {
            Some(a) => self.run_command(a),
            None => {
                if code == KeyCode::Esc {
                    if self.search_matches.len() > 0 {
                        self.clear_search();
                    } else {
                        self.should_quit = true;
                    }
                }
                Effect::Nothing
            },
        }
    }
}

} // verus!
