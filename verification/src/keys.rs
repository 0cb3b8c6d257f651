//! Key presses and the key bindings of the viewer's commands.

use vstd::prelude::*;
use crate::text::{is_alphabetic, unicode_alphabetic};

verus! {

/// A key, as the terminal reports it.
#[derive(Debug, Clone, Copy, PartialEq, Eq, Structural)]
pub enum KeyCode {
    Backspace,
    Enter,
    Left,
    Right,
    Up,
    Down,
    Home,
    End,
    PageUp,
    PageDown,
    Tab,
    BackTab,
    Delete,
    Insert,
    F(u8),
    Char(char),
    Null,
    Esc,
    /// Any other key (lock keys, media keys, lone modifiers, ...).
    Other,
}

/// Modifier bit of the Shift key.
pub const SHIFT: u8 = 0b0000_0001;
/// Modifier bit of the Control key.
pub const CONTROL: u8 = 0b0000_0010;
/// Modifier bit of the Alt key.
pub const ALT: u8 = 0b0000_0100;
/// Modifier bit of the Super key.
pub const SUPER: u8 = 0b0000_1000;
/// Modifier bit of the Hyper key.
pub const HYPER: u8 = 0b0001_0000;
/// Modifier bit of the Meta key.
pub const META: u8 = 0b0010_0000;

/// A key together with the modifiers that must be held.
#[derive(Debug, Clone, Copy, PartialEq, Eq, Structural)]
pub struct Binding {
    pub code: KeyCode,
    pub modifiers: u8,
}

/// The viewer's commands that keys can be bound to.
#[derive(Debug, Clone, Copy, PartialEq, Eq, Structural)]
pub enum Action {
    Quit,
    Help,
    ThemeToggle,
    Search,
    NextMatch,
    PrevMatch,
    CopyCell,
    CopyRow,
    Jump,
    ShowCellDetail,
    NextSheet,
    PrevSheet,
    Up,
    Down,
    Left,
    Right,
    JumpToTop,
    JumpToBottom,
    JumpToRowStart,
    JumpToRowEnd,
    PageUp,
    PageDown,
}

/// The key bound to each command (none when a command is unbound).
#[derive(Debug, Clone, Copy, PartialEq, Eq, Structural)]
pub struct Keymap {
    pub quit: Option<Binding>,
    pub help: Option<Binding>,
    pub theme_toggle: Option<Binding>,
    pub search: Option<Binding>,
    pub next_match: Option<Binding>,
    pub prev_match: Option<Binding>,
    pub copy_cell: Option<Binding>,
    pub copy_row: Option<Binding>,
    pub jump: Option<Binding>,
    pub show_cell_detail: Option<Binding>,
    pub next_sheet: Option<Binding>,
    pub prev_sheet: Option<Binding>,
    pub up: Option<Binding>,
    pub down: Option<Binding>,
    pub left: Option<Binding>,
    pub right: Option<Binding>,
    pub jump_to_top: Option<Binding>,
    pub jump_to_bottom: Option<Binding>,
    pub jump_to_row_start: Option<Binding>,
    pub jump_to_row_end: Option<Binding>,
    pub page_up: Option<Binding>,
    pub page_down: Option<Binding>,
}

impl Keymap {
    pub open spec fn spec_binding(&self, action: Action) -> Option<Binding> {
        match action {
            Action::Quit => self.quit,
            Action::Help => self.help,
            Action::ThemeToggle => self.theme_toggle,
            Action::Search => self.search,
            Action::NextMatch => self.next_match,
            Action::PrevMatch => self.prev_match,
            Action::CopyCell => self.copy_cell,
            Action::CopyRow => self.copy_row,
            Action::Jump => self.jump,
            Action::ShowCellDetail => self.show_cell_detail,
            Action::NextSheet => self.next_sheet,
            Action::PrevSheet => self.prev_sheet,
            Action::Up => self.up,
            Action::Down => self.down,
            Action::Left => self.left,
            Action::Right => self.right,
            Action::JumpToTop => self.jump_to_top,
            Action::JumpToBottom => self.jump_to_bottom,
            Action::JumpToRowStart => self.jump_to_row_start,
            Action::JumpToRowEnd => self.jump_to_row_end,
            Action::PageUp => self.page_up,
            Action::PageDown => self.page_down,
        }
    }

    /// The key bound to a command, if any.
    pub fn get_keybinding(&self, action: Action) -> (b: Option<Binding>)
        ensures
            b == self.spec_binding(action),
    {
        match action {
            Action::Quit => self.quit,
            Action::Help => self.help,
            Action::ThemeToggle => self.theme_toggle,
            Action::Search => self.search,
            Action::NextMatch => self.next_match,
            Action::PrevMatch => self.prev_match,
            Action::CopyCell => self.copy_cell,
            Action::CopyRow => self.copy_row,
            Action::Jump => self.jump,
            Action::ShowCellDetail => self.show_cell_detail,
            Action::NextSheet => self.next_sheet,
            Action::PrevSheet => self.prev_sheet,
            Action::Up => self.up,
            Action::Down => self.down,
            Action::Left => self.left,
            Action::Right => self.right,
            Action::JumpToTop => self.jump_to_top,
            Action::JumpToBottom => self.jump_to_bottom,
            Action::JumpToRowStart => self.jump_to_row_start,
            Action::JumpToRowEnd => self.jump_to_row_end,
            Action::PageUp => self.page_up,
            Action::PageDown => self.page_down,
        }
    }

    /// The default bindings: arrows move, PageUp/PageDown scroll, Home/End go
    /// to the row's ends, Ctrl+Home/Ctrl+End to the sheet's, Ctrl+G jumps,
    /// `/` `n` `N` search, `c` `C` copy, Tab/Shift+Tab switch sheets, Enter
    /// shows the cell, `t` cycles themes, `?` shows help, `q` quits.
    pub fn default_keymap() -> (k: Keymap)
        ensures
            k == spec_default_keymap(),
    {
        Keymap {
            quit: Some(Binding { code: KeyCode::Char('q'), modifiers: 0 }),
            help: Some(Binding { code: KeyCode::Char('?'), modifiers: SHIFT }),
            theme_toggle: Some(Binding { code: KeyCode::Char('t'), modifiers: 0 }),
            search: Some(Binding { code: KeyCode::Char('/'), modifiers: 0 }),
            next_match: Some(Binding { code: KeyCode::Char('n'), modifiers: 0 }),
            prev_match: Some(Binding { code: KeyCode::Char('N'), modifiers: SHIFT }),
            copy_cell: Some(Binding { code: KeyCode::Char('c'), modifiers: 0 }),
            copy_row: Some(Binding { code: KeyCode::Char('C'), modifiers: SHIFT }),
            jump: Some(Binding { code: KeyCode::Char('g'), modifiers: CONTROL }),
            show_cell_detail: Some(Binding { code: KeyCode::Enter, modifiers: 0 }),
            next_sheet: Some(Binding { code: KeyCode::Tab, modifiers: 0 }),
            prev_sheet: Some(Binding { code: KeyCode::BackTab, modifiers: SHIFT }),
            up: Some(Binding { code: KeyCode::Up, modifiers: 0 }),
            down: Some(Binding { code: KeyCode::Down, modifiers: 0 }),
            left: Some(Binding { code: KeyCode::Left, modifiers: 0 }),
            right: Some(Binding { code: KeyCode::Right, modifiers: 0 }),
            jump_to_top: Some(Binding { code: KeyCode::Home, modifiers: CONTROL }),
            jump_to_bottom: Some(Binding { code: KeyCode::End, modifiers: CONTROL }),
            jump_to_row_start: Some(Binding { code: KeyCode::Home, modifiers: 0 }),
            jump_to_row_end: Some(Binding { code: KeyCode::End, modifiers: 0 }),
            page_up: Some(Binding { code: KeyCode::PageUp, modifiers: 0 }),
            page_down: Some(Binding { code: KeyCode::PageDown, modifiers: 0 }),
        }
    }
}

pub open spec fn spec_default_keymap() -> Keymap {
    Keymap {
        quit: Some(Binding { code: KeyCode::Char('q'), modifiers: 0 }),
        help: Some(Binding { code: KeyCode::Char('?'), modifiers: SHIFT }),
        theme_toggle: Some(Binding { code: KeyCode::Char('t'), modifiers: 0 }),
        search: Some(Binding { code: KeyCode::Char('/'), modifiers: 0 }),
        next_match: Some(Binding { code: KeyCode::Char('n'), modifiers: 0 }),
        prev_match: Some(Binding { code: KeyCode::Char('N'), modifiers: SHIFT }),
        copy_cell: Some(Binding { code: KeyCode::Char('c'), modifiers: 0 }),
        copy_row: Some(Binding { code: KeyCode::Char('C'), modifiers: SHIFT }),
        jump: Some(Binding { code: KeyCode::Char('g'), modifiers: CONTROL }),
        show_cell_detail: Some(Binding { code: KeyCode::Enter, modifiers: 0 }),
        next_sheet: Some(Binding { code: KeyCode::Tab, modifiers: 0 }),
        prev_sheet: Some(Binding { code: KeyCode::BackTab, modifiers: SHIFT }),
        up: Some(Binding { code: KeyCode::Up, modifiers: 0 }),
        down: Some(Binding { code: KeyCode::Down, modifiers: 0 }),
        left: Some(Binding { code: KeyCode::Left, modifiers: 0 }),
        right: Some(Binding { code: KeyCode::Right, modifiers: 0 }),
        jump_to_top: Some(Binding { code: KeyCode::Home, modifiers: CONTROL }),
        jump_to_bottom: Some(Binding { code: KeyCode::End, modifiers: CONTROL }),
        jump_to_row_start: Some(Binding { code: KeyCode::Home, modifiers: 0 }),
        jump_to_row_end: Some(Binding { code: KeyCode::End, modifiers: 0 }),
        page_up: Some(Binding { code: KeyCode::PageUp, modifiers: 0 }),
        page_down: Some(Binding { code: KeyCode::PageDown, modifiers: 0 }),
    }
}

/// Whether a key press (`code` with the `modifiers` bits held) triggers a
/// binding. For a non-alphabetic character, Shift is ignored on both sides,
/// since terminals differ in whether they report it for shifted symbols
/// (`?`, `$`); otherwise the modifiers must be exactly those bound.
pub open spec fn binding_matches(b: Option<Binding>, code: KeyCode, modifiers: u8) -> bool {
    match b {
        None => false,
        Some(b) => code == b.code && match code {
            KeyCode::Char(c) => if !unicode_alphabetic(c) {
                modifiers / 2 == b.modifiers / 2
            } else {
                modifiers == b.modifiers
            },
            _ => modifiers == b.modifiers,
        },
    }
}

/// Whether a key press triggers a binding (see `binding_matches`).
pub fn matches_binding(b: Option<Binding>, code: KeyCode, modifiers: u8) -> (r: bool)
    ensures
        r == binding_matches(b, code, modifiers),
{
    match b {
        None => false,
        Some(b) => {
            if code != b.code {
                return false;
            }
            match code {
                KeyCode::Char(c) => {
                    if !is_alphabetic(c) {
                        let m = b.modifiers;
                        let same = (modifiers & 0xFE) == (m & 0xFE);
                        assert(same == (modifiers / 2 == m / 2)) by (bit_vector)
                            requires
                                same == ((modifiers & 0xFE) == (m & 0xFE)),
                        ;
                        same
                    } else {
                        modifiers == b.modifiers
                    }
                },
                _ => modifiers == b.modifiers,
            }
        },
    }
}

} // verus!
