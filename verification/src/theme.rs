//! Color themes of the interactive viewer.

use vstd::prelude::*;
use crate::cell::CellValue;

verus! {

/// Available themes.
#[derive(Debug, Clone, Copy, PartialEq, Eq, Structural)]
pub enum Theme {
    Default,
    Dracula,
    SolarizedDark,
    SolarizedLight,
    GitHubDark,
    Nord,
}

/// A terminal color (the palette of the terminal UI library).
#[derive(Debug, Clone, Copy, PartialEq, Eq, Structural)]
pub enum Color {
    Reset,
    Black,
    Red,
    Green,
    Yellow,
    Blue,
    Magenta,
    Cyan,
    Gray,
    DarkGray,
    LightRed,
    LightGreen,
    LightYellow,
    LightBlue,
    LightMagenta,
    LightCyan,
    White,
    Rgb(u8, u8, u8),
    Indexed(u8),
}

/// Position of a theme in the cycle `Default, Dracula, SolarizedDark,
/// SolarizedLight, GitHubDark, Nord`.
pub open spec fn theme_index(t: Theme) -> nat {
    match t {
        Theme::Default => 0,
        Theme::Dracula => 1,
        Theme::SolarizedDark => 2,
        Theme::SolarizedLight => 3,
        Theme::GitHubDark => 4,
        Theme::Nord => 5,
    }
}

/// The theme at a position of the cycle.
pub open spec fn theme_at(i: nat) -> Theme {
    if i == 0 {
        Theme::Default
    } else if i == 1 {
        Theme::Dracula
    } else if i == 2 {
        Theme::SolarizedDark
    } else if i == 3 {
        Theme::SolarizedLight
    } else if i == 4 {
        Theme::GitHubDark
    } else {
        Theme::Nord
    }
}

pub open spec fn theme_name(t: Theme) -> Seq<char> {
    match t {
        Theme::Default => "Default"@,
        Theme::Dracula => "Dracula"@,
        Theme::SolarizedDark => "Solarized Dark"@,
        Theme::SolarizedLight => "Solarized Light"@,
        Theme::GitHubDark => "GitHub Dark"@,
        Theme::Nord => "Nord"@,
    }
}

impl Theme {
    /// Get all available themes, in cycle order.
    pub fn all() -> (a: [Theme; 6])
        ensures
            forall|i: int| 0 <= i < 6 ==> #[trigger] a@[i] == theme_at(i as nat),
    {
        [Theme::Default, Theme::Dracula, Theme::SolarizedDark, Theme::SolarizedLight, Theme::GitHubDark, Theme::Nord]
    }

    /// Get the next theme in the cycle.
    pub fn next(&self) -> (t: Theme)
        ensures
            t == spec_next(*self),
    {
        let themes = Self::all();
        let mut idx: usize = 0;
        while idx < 6 && themes[idx] != *self
            invariant
                idx <= 6,
                forall|i: int| 0 <= i < 6 ==> #[trigger] themes@[i] == theme_at(i as nat),
                forall|i: int| 0 <= i < idx ==> #[trigger] themes@[i] != *self,
            decreases 6 - idx,
        {
            idx = idx + 1;
        }
        proof {
            assert(theme_at(theme_index(*self)) == *self);
            if idx == 6 {
                assert(theme_at(theme_index(*self)) != *self);
            }
            assert(idx == theme_index(*self)) by {
                if idx < theme_index(*self) {
                    assert(themes@[idx as int] == theme_at(idx as nat));
                    assert(theme_at(idx as nat) == *self);
                }
                if idx > theme_index(*self) {
                    assert(themes@[theme_index(*self) as int] != *self);
                }
            }
        }
        themes[(idx + 1) % 6]
    }

    /// Get theme name for display.
    pub fn name(&self) -> (s: &'static str)
        ensures
            s@ == theme_name(*self),
    {
        match self {
            Theme::Default => "Default",
            Theme::Dracula => "Dracula",
            Theme::SolarizedDark => "Solarized Dark",
            Theme::SolarizedLight => "Solarized Light",
            Theme::GitHubDark => "GitHub Dark",
            Theme::Nord => "Nord",
        }
    }
}

/// The theme after `t` in the cycle.
pub open spec fn spec_next(t: Theme) -> Theme {
    theme_at((theme_index(t) + 1) % 6)
}

/// `t` advanced `k` times.
pub open spec fn advance(t: Theme, k: nat) -> Theme
    decreases k,
{
    if k == 0 { t } else { spec_next(advance(t, (k - 1) as nat)) }
}

/// Toggling the theme cycles through all six themes: after six toggles the
/// theme is back where it started, and no earlier toggle returns to it.
pub proof fn theme_cycle_returns(t: Theme)
    ensures
        advance(t, 6) == t,
        forall|k: nat| 1 <= k < 6 ==> #[trigger] advance(t, k) != t,
{
    assert forall|k: nat| k <= 6 implies #[trigger] advance(t, k) == theme_at((theme_index(t) + k) % 6) by {
        lemma_advance(t, k);
    }
    assert(advance(t, 6) == theme_at((theme_index(t) + 6) % 6));
    assert forall|k: nat| 1 <= k < 6 implies #[trigger] advance(t, k) != t by {
        assert(advance(t, k) == theme_at((theme_index(t) + k) % 6));
        assert(theme_index(theme_at((theme_index(t) + k) % 6)) == (theme_index(t) + k) % 6);
    }
}

proof fn lemma_advance(t: Theme, k: nat)
    requires
        k <= 6,
    ensures
        advance(t, k) == theme_at((theme_index(t) + k) % 6),
    decreases k,
{
    if k > 0 {
        lemma_advance(t, (k - 1) as nat);
        let p = ((theme_index(t) + k - 1) % 6) as nat;
        assert(theme_index(theme_at(p)) == p);
        assert((p + 1) % 6 == (theme_index(t) + k) % 6);
    }
}

/// Colors of the viewer's parts under one theme.
#[derive(Debug, Clone, Copy, PartialEq, Eq, Structural)]
pub struct ColorScheme {
    /// Text cells.
    pub string_fg: Color,
    /// Number cells.
    pub number_fg: Color,
    /// Boolean cells.
    pub bool_fg: Color,
    /// Date/time cells.
    pub datetime_fg: Color,
    /// Error cells.
    pub error_fg: Color,
    /// Empty cells and the row-number gutter.
    pub empty_fg: Color,
    pub header_fg: Color,
    pub header_bg: Option<Color>,
    pub current_cell_fg: Color,
    pub current_cell_bg: Color,
    pub current_row_bg: Color,
    pub current_col_fg: Color,
    pub alternating_row_bg: Option<Color>,
    pub search_match_fg: Color,
    pub search_match_bg: Color,
    pub current_search_fg: Color,
    pub current_search_bg: Color,
    pub border_fg: Color,
    pub status_bar_fg: Color,
    pub status_bar_bg: Option<Color>,
}

/// The foreground of a cell of each type.
pub open spec fn spec_cell_color(s: ColorScheme, cell: CellValue) -> Color {
    match cell {
        CellValue::Empty => s.empty_fg,
        CellValue::String(_) => s.string_fg,
        CellValue::Int(_) | CellValue::Float(_) => s.number_fg,
        CellValue::Bool(_) => s.bool_fg,
        CellValue::Error(_) => s.error_fg,
        CellValue::DateTime(_) => s.datetime_fg,
    }
}

/// Default theme (current behavior with enhancements).
pub open spec fn scheme_default_theme() -> ColorScheme {
    ColorScheme {
        string_fg: Color::White,
        number_fg: Color::Cyan,
        bool_fg: Color::Magenta,
        datetime_fg: Color::Green,
        error_fg: Color::Red,
        empty_fg: Color::DarkGray,
        header_fg: Color::Yellow,
        header_bg: None,
        current_cell_fg: Color::White,
        current_cell_bg: Color::Blue,
        current_row_bg: Color::DarkGray,
        current_col_fg: Color::Cyan,
        alternating_row_bg: Some(Color::Rgb(25, 25, 28)),
        search_match_fg: Color::Black,
        search_match_bg: Color::LightYellow,
        current_search_fg: Color::Black,
        current_search_bg: Color::Yellow,
        border_fg: Color::White,
        status_bar_fg: Color::White,
        status_bar_bg: None,
    }
}

/// Dracula theme (purple/pink aesthetic).
pub open spec fn scheme_dracula() -> ColorScheme {
    ColorScheme {
        string_fg: Color::Rgb(248, 248, 242),
        number_fg: Color::Rgb(189, 147, 249),
        bool_fg: Color::Rgb(255, 121, 198),
        datetime_fg: Color::Rgb(80, 250, 123),
        error_fg: Color::Rgb(255, 85, 85),
        empty_fg: Color::Rgb(98, 114, 164),
        header_fg: Color::Rgb(139, 233, 253),
        header_bg: Some(Color::Rgb(68, 71, 90)),
        current_cell_fg: Color::Rgb(248, 248, 242),
        current_cell_bg: Color::Rgb(98, 114, 164),
        current_row_bg: Color::Rgb(68, 71, 90),
        current_col_fg: Color::Rgb(139, 233, 253),
        alternating_row_bg: Some(Color::Rgb(50, 52, 65)),
        search_match_fg: Color::Rgb(40, 42, 54),
        search_match_bg: Color::Rgb(241, 250, 140),
        current_search_fg: Color::Rgb(40, 42, 54),
        current_search_bg: Color::Rgb(255, 184, 108),
        border_fg: Color::Rgb(98, 114, 164),
        status_bar_fg: Color::Rgb(248, 248, 242),
        status_bar_bg: Some(Color::Rgb(68, 71, 90)),
    }
}

/// Solarized Dark theme.
pub open spec fn scheme_solarized_dark() -> ColorScheme {
    ColorScheme {
        string_fg: Color::Rgb(131, 148, 150),
        number_fg: Color::Rgb(38, 139, 210),
        bool_fg: Color::Rgb(211, 54, 130),
        datetime_fg: Color::Rgb(133, 153, 0),
        error_fg: Color::Rgb(220, 50, 47),
        empty_fg: Color::Rgb(88, 110, 117),
        header_fg: Color::Rgb(181, 137, 0),
        header_bg: Some(Color::Rgb(7, 54, 66)),
        current_cell_fg: Color::Rgb(253, 246, 227),
        current_cell_bg: Color::Rgb(88, 110, 117),
        current_row_bg: Color::Rgb(7, 54, 66),
        current_col_fg: Color::Rgb(42, 161, 152),
        alternating_row_bg: Some(Color::Rgb(0, 43, 54)),
        search_match_fg: Color::Rgb(0, 43, 54),
        search_match_bg: Color::Rgb(181, 137, 0),
        current_search_fg: Color::Rgb(0, 43, 54),
        current_search_bg: Color::Rgb(203, 75, 22),
        border_fg: Color::Rgb(88, 110, 117),
        status_bar_fg: Color::Rgb(131, 148, 150),
        status_bar_bg: Some(Color::Rgb(7, 54, 66)),
    }
}

/// Solarized Light theme.
pub open spec fn scheme_solarized_light() -> ColorScheme {
    ColorScheme {
        string_fg: Color::Rgb(101, 123, 131),
        number_fg: Color::Rgb(38, 139, 210),
        bool_fg: Color::Rgb(211, 54, 130),
        datetime_fg: Color::Rgb(133, 153, 0),
        error_fg: Color::Rgb(220, 50, 47),
        empty_fg: Color::Rgb(147, 161, 161),
        header_fg: Color::Rgb(181, 137, 0),
        header_bg: Some(Color::Rgb(238, 232, 213)),
        current_cell_fg: Color::Rgb(0, 43, 54),
        current_cell_bg: Color::Rgb(147, 161, 161),
        current_row_bg: Color::Rgb(238, 232, 213),
        current_col_fg: Color::Rgb(42, 161, 152),
        alternating_row_bg: Some(Color::Rgb(253, 246, 227)),
        search_match_fg: Color::Rgb(0, 43, 54),
        search_match_bg: Color::Rgb(181, 137, 0),
        current_search_fg: Color::Rgb(253, 246, 227),
        current_search_bg: Color::Rgb(203, 75, 22),
        border_fg: Color::Rgb(147, 161, 161),
        status_bar_fg: Color::Rgb(101, 123, 131),
        status_bar_bg: Some(Color::Rgb(238, 232, 213)),
    }
}

/// GitHub Dark theme.
pub open spec fn scheme_github_dark() -> ColorScheme {
    ColorScheme {
        string_fg: Color::Rgb(201, 209, 217),
        number_fg: Color::Rgb(121, 192, 255),
        bool_fg: Color::Rgb(255, 125, 163),
        datetime_fg: Color::Rgb(127, 219, 202),
        error_fg: Color::Rgb(248, 81, 73),
        empty_fg: Color::Rgb(110, 118, 129),
        header_fg: Color::Rgb(255, 199, 119),
        header_bg: Some(Color::Rgb(33, 38, 45)),
        current_cell_fg: Color::Rgb(201, 209, 217),
        current_cell_bg: Color::Rgb(56, 139, 253),
        current_row_bg: Color::Rgb(33, 38, 45),
        current_col_fg: Color::Rgb(121, 192, 255),
        alternating_row_bg: Some(Color::Rgb(22, 27, 34)),
        search_match_fg: Color::Rgb(13, 17, 23),
        search_match_bg: Color::Rgb(187, 128, 9),
        current_search_fg: Color::Rgb(13, 17, 23),
        current_search_bg: Color::Rgb(242, 130, 33),
        border_fg: Color::Rgb(48, 54, 61),
        status_bar_fg: Color::Rgb(201, 209, 217),
        status_bar_bg: Some(Color::Rgb(33, 38, 45)),
    }
}

/// Nord theme (cool blue/cyan palette).
pub open spec fn scheme_nord() -> ColorScheme {
    ColorScheme {
        string_fg: Color::Rgb(216, 222, 233),
        number_fg: Color::Rgb(136, 192, 208),
        bool_fg: Color::Rgb(180, 142, 173),
        datetime_fg: Color::Rgb(163, 190, 140),
        error_fg: Color::Rgb(191, 97, 106),
        empty_fg: Color::Rgb(76, 86, 106),
        header_fg: Color::Rgb(235, 203, 139),
        header_bg: Some(Color::Rgb(59, 66, 82)),
        current_cell_fg: Color::Rgb(236, 239, 244),
        current_cell_bg: Color::Rgb(94, 129, 172),
        current_row_bg: Color::Rgb(59, 66, 82),
        current_col_fg: Color::Rgb(136, 192, 208),
        alternating_row_bg: Some(Color::Rgb(46, 52, 64)),
        search_match_fg: Color::Rgb(46, 52, 64),
        search_match_bg: Color::Rgb(235, 203, 139),
        current_search_fg: Color::Rgb(46, 52, 64),
        current_search_bg: Color::Rgb(208, 135, 112),
        border_fg: Color::Rgb(76, 86, 106),
        status_bar_fg: Color::Rgb(216, 222, 233),
        status_bar_bg: Some(Color::Rgb(59, 66, 82)),
    }
}

/// The color scheme of a theme.
pub open spec fn scheme_of(t: Theme) -> ColorScheme {
    match t {
        Theme::Default => scheme_default_theme(),
        Theme::Dracula => scheme_dracula(),
        Theme::SolarizedDark => scheme_solarized_dark(),
        Theme::SolarizedLight => scheme_solarized_light(),
        Theme::GitHubDark => scheme_github_dark(),
        Theme::Nord => scheme_nord(),
    }
}

impl ColorScheme {
    /// Default theme (current behavior with enhancements).
    pub fn default_theme() -> (s: ColorScheme)
        ensures
            s == scheme_default_theme(),
    {
        ColorScheme {
            string_fg: Color::White,
            number_fg: Color::Cyan,
            bool_fg: Color::Magenta,
            datetime_fg: Color::Green,
            error_fg: Color::Red,
            empty_fg: Color::DarkGray,
            header_fg: Color::Yellow,
            header_bg: None,
            current_cell_fg: Color::White,
            current_cell_bg: Color::Blue,
            current_row_bg: Color::DarkGray,
            current_col_fg: Color::Cyan,
            alternating_row_bg: Some(Color::Rgb(25, 25, 28)),
            search_match_fg: Color::Black,
            search_match_bg: Color::LightYellow,
            current_search_fg: Color::Black,
            current_search_bg: Color::Yellow,
            border_fg: Color::White,
            status_bar_fg: Color::White,
            status_bar_bg: None,
        }
    }

    /// Dracula theme (purple/pink aesthetic).
    pub fn dracula() -> (s: ColorScheme)
        ensures
            s == scheme_dracula(),
    {
        ColorScheme {
            string_fg: Color::Rgb(248, 248, 242),
            number_fg: Color::Rgb(189, 147, 249),
            bool_fg: Color::Rgb(255, 121, 198),
            datetime_fg: Color::Rgb(80, 250, 123),
            error_fg: Color::Rgb(255, 85, 85),
            empty_fg: Color::Rgb(98, 114, 164),
            header_fg: Color::Rgb(139, 233, 253),
            header_bg: Some(Color::Rgb(68, 71, 90)),
            current_cell_fg: Color::Rgb(248, 248, 242),
            current_cell_bg: Color::Rgb(98, 114, 164),
            current_row_bg: Color::Rgb(68, 71, 90),
            current_col_fg: Color::Rgb(139, 233, 253),
            alternating_row_bg: Some(Color::Rgb(50, 52, 65)),
            search_match_fg: Color::Rgb(40, 42, 54),
            search_match_bg: Color::Rgb(241, 250, 140),
            current_search_fg: Color::Rgb(40, 42, 54),
            current_search_bg: Color::Rgb(255, 184, 108),
            border_fg: Color::Rgb(98, 114, 164),
            status_bar_fg: Color::Rgb(248, 248, 242),
            status_bar_bg: Some(Color::Rgb(68, 71, 90)),
        }
    }

    /// Solarized Dark theme.
    pub fn solarized_dark() -> (s: ColorScheme)
        ensures
            s == scheme_solarized_dark(),
    {
        ColorScheme {
            string_fg: Color::Rgb(131, 148, 150),
            number_fg: Color::Rgb(38, 139, 210),
            bool_fg: Color::Rgb(211, 54, 130),
            datetime_fg: Color::Rgb(133, 153, 0),
            error_fg: Color::Rgb(220, 50, 47),
            empty_fg: Color::Rgb(88, 110, 117),
            header_fg: Color::Rgb(181, 137, 0),
            header_bg: Some(Color::Rgb(7, 54, 66)),
            current_cell_fg: Color::Rgb(253, 246, 227),
            current_cell_bg: Color::Rgb(88, 110, 117),
            current_row_bg: Color::Rgb(7, 54, 66),
            current_col_fg: Color::Rgb(42, 161, 152),
            alternating_row_bg: Some(Color::Rgb(0, 43, 54)),
            search_match_fg: Color::Rgb(0, 43, 54),
            search_match_bg: Color::Rgb(181, 137, 0),
            current_search_fg: Color::Rgb(0, 43, 54),
            current_search_bg: Color::Rgb(203, 75, 22),
            border_fg: Color::Rgb(88, 110, 117),
            status_bar_fg: Color::Rgb(131, 148, 150),
            status_bar_bg: Some(Color::Rgb(7, 54, 66)),
        }
    }

    /// Solarized Light theme.
    pub fn solarized_light() -> (s: ColorScheme)
        ensures
            s == scheme_solarized_light(),
    {
        ColorScheme {
            string_fg: Color::Rgb(101, 123, 131),
            number_fg: Color::Rgb(38, 139, 210),
            bool_fg: Color::Rgb(211, 54, 130),
            datetime_fg: Color::Rgb(133, 153, 0),
            error_fg: Color::Rgb(220, 50, 47),
            empty_fg: Color::Rgb(147, 161, 161),
            header_fg: Color::Rgb(181, 137, 0),
            header_bg: Some(Color::Rgb(238, 232, 213)),
            current_cell_fg: Color::Rgb(0, 43, 54),
            current_cell_bg: Color::Rgb(147, 161, 161),
            current_row_bg: Color::Rgb(238, 232, 213),
            current_col_fg: Color::Rgb(42, 161, 152),
            alternating_row_bg: Some(Color::Rgb(253, 246, 227)),
            search_match_fg: Color::Rgb(0, 43, 54),
            search_match_bg: Color::Rgb(181, 137, 0),
            current_search_fg: Color::Rgb(253, 246, 227),
            current_search_bg: Color::Rgb(203, 75, 22),
            border_fg: Color::Rgb(147, 161, 161),
            status_bar_fg: Color::Rgb(101, 123, 131),
            status_bar_bg: Some(Color::Rgb(238, 232, 213)),
        }
    }

    /// GitHub Dark theme.
    pub fn github_dark() -> (s: ColorScheme)
        ensures
            s == scheme_github_dark(),
    {
        ColorScheme {
            string_fg: Color::Rgb(201, 209, 217),
            number_fg: Color::Rgb(121, 192, 255),
            bool_fg: Color::Rgb(255, 125, 163),
            datetime_fg: Color::Rgb(127, 219, 202),
            error_fg: Color::Rgb(248, 81, 73),
            empty_fg: Color::Rgb(110, 118, 129),
            header_fg: Color::Rgb(255, 199, 119),
            header_bg: Some(Color::Rgb(33, 38, 45)),
            current_cell_fg: Color::Rgb(201, 209, 217),
            current_cell_bg: Color::Rgb(56, 139, 253),
            current_row_bg: Color::Rgb(33, 38, 45),
            current_col_fg: Color::Rgb(121, 192, 255),
            alternating_row_bg: Some(Color::Rgb(22, 27, 34)),
            search_match_fg: Color::Rgb(13, 17, 23),
            search_match_bg: Color::Rgb(187, 128, 9),
            current_search_fg: Color::Rgb(13, 17, 23),
            current_search_bg: Color::Rgb(242, 130, 33),
            border_fg: Color::Rgb(48, 54, 61),
            status_bar_fg: Color::Rgb(201, 209, 217),
            status_bar_bg: Some(Color::Rgb(33, 38, 45)),
        }
    }

    /// Nord theme (cool blue/cyan palette).
    pub fn nord() -> (s: ColorScheme)
        ensures
            s == scheme_nord(),
    {
        ColorScheme {
            string_fg: Color::Rgb(216, 222, 233),
            number_fg: Color::Rgb(136, 192, 208),
            bool_fg: Color::Rgb(180, 142, 173),
            datetime_fg: Color::Rgb(163, 190, 140),
            error_fg: Color::Rgb(191, 97, 106),
            empty_fg: Color::Rgb(76, 86, 106),
            header_fg: Color::Rgb(235, 203, 139),
            header_bg: Some(Color::Rgb(59, 66, 82)),
            current_cell_fg: Color::Rgb(236, 239, 244),
            current_cell_bg: Color::Rgb(94, 129, 172),
            current_row_bg: Color::Rgb(59, 66, 82),
            current_col_fg: Color::Rgb(136, 192, 208),
            alternating_row_bg: Some(Color::Rgb(46, 52, 64)),
            search_match_fg: Color::Rgb(46, 52, 64),
            search_match_bg: Color::Rgb(235, 203, 139),
            current_search_fg: Color::Rgb(46, 52, 64),
            current_search_bg: Color::Rgb(208, 135, 112),
            border_fg: Color::Rgb(76, 86, 106),
            status_bar_fg: Color::Rgb(216, 222, 233),
            status_bar_bg: Some(Color::Rgb(59, 66, 82)),
        }
    }

    /// The foreground color of a cell, by its type.
    pub fn cell_color(&self, cell: &CellValue) -> (c: Color)
        ensures
            c == spec_cell_color(*self, *cell),
    {
        match cell {
            CellValue::Empty => self.empty_fg,
            CellValue::String(_) => self.string_fg,
            CellValue::Int(_) | CellValue::Float(_) => self.number_fg,
            CellValue::Bool(_) => self.bool_fg,
            CellValue::Error(_) => self.error_fg,
            CellValue::DateTime(_) => self.datetime_fg,
        }
    }
}

impl Theme {
    /// The color scheme of this theme.
    pub fn colors(&self) -> (s: ColorScheme)
        ensures
            s == scheme_of(*self),
    {
        match self {
            Theme::Default => ColorScheme::default_theme(),
            Theme::Dracula => ColorScheme::dracula(),
            Theme::SolarizedDark => ColorScheme::solarized_dark(),
            Theme::SolarizedLight => ColorScheme::solarized_light(),
            Theme::GitHubDark => ColorScheme::github_dark(),
            Theme::Nord => ColorScheme::nord(),
        }
    }
}

} // verus!
