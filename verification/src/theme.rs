//! Colour themes.
use vstd::prelude::*;

use crate::text::str_eq;

verus! {

/// A terminal colour.
#[derive(Debug, Clone, Copy, PartialEq, Eq, Structural)]
pub enum Color {
    Black,
    Red,
    Green,
    Yellow,
    Blue,
    Magenta,
    Cyan,
    Gray,
    DarkGray,
    LightRed,
    White,
    Rgb(u8, u8, u8),
}

/// The colours of the panel's parts.
#[derive(Debug, Clone, Copy, PartialEq, Eq, Structural)]
pub struct Theme {
    pub title_fg: Color,
    pub title_border: Color,
    pub status_fg: Color,
    pub border_selected: Color,
    pub border_default: Color,
    pub highlight: Color,
    pub dim: Color,
    pub error: Color,
    pub accent: Color,
    pub bg: Color,
    pub text: Color,
}

/// A theme with its name.
#[derive(Debug, Clone, Copy)]
pub struct ThemeDef {
    pub name: &'static str,
    pub theme: Theme,
}

pub fn rgb(r: u8, g: u8, b: u8) -> (c: Color)
    ensures
        c == Color::Rgb(r, g, b),
{
    Color::Rgb(r, g, b)
}

/// The colours of the Default Dark theme.
pub open spec fn dark_colors() -> Theme {
    Theme {
        title_fg: Color::Cyan,
        title_border: Color::Cyan,
        status_fg: Color::Gray,
        border_selected: Color::Yellow,
        border_default: Color::DarkGray,
        highlight: Color::Yellow,
        dim: Color::DarkGray,
        error: Color::Red,
        accent: Color::Cyan,
        bg: Color::Black,
        text: Color::White,
    }
}

/// Default Dark.
pub fn dark() -> (r: Theme)
    ensures
        r == dark_colors(),
{
    Theme {
        title_fg: Color::Cyan,
        title_border: Color::Cyan,
        status_fg: Color::Gray,
        border_selected: Color::Yellow,
        border_default: Color::DarkGray,
        highlight: Color::Yellow,
        dim: Color::DarkGray,
        error: Color::Red,
        accent: Color::Cyan,
        bg: Color::Black,
        text: Color::White,
    }
}

/// The colours of the Default Light theme.
pub open spec fn light_colors() -> Theme {
    Theme {
        title_fg: Color::Blue,
        title_border: Color::Blue,
        status_fg: Color::DarkGray,
        border_selected: Color::Blue,
        border_default: Color::Gray,
        highlight: Color::Blue,
        dim: Color::Gray,
        error: Color::Red,
        accent: Color::Blue,
        bg: Color::White,
        text: Color::Black,
    }
}

/// Default Light.
pub fn light() -> (r: Theme)
    ensures
        r == light_colors(),
{
    Theme {
        title_fg: Color::Blue,
        title_border: Color::Blue,
        status_fg: Color::DarkGray,
        border_selected: Color::Blue,
        border_default: Color::Gray,
        highlight: Color::Blue,
        dim: Color::Gray,
        error: Color::Red,
        accent: Color::Blue,
        bg: Color::White,
        text: Color::Black,
    }
}

/// The colours of the Dracula theme.
pub open spec fn dracula_colors() -> Theme {
    Theme {
        title_fg: Color::Rgb(189, 147, 249),
        title_border: Color::Rgb(189, 147, 249),
        status_fg: Color::Rgb(98, 114, 164),
        border_selected: Color::Rgb(80, 250, 123),
        border_default: Color::Rgb(68, 71, 90),
        highlight: Color::Rgb(80, 250, 123),
        dim: Color::Rgb(98, 114, 164),
        error: Color::Rgb(255, 85, 85),
        accent: Color::Rgb(139, 233, 253),
        bg: Color::Rgb(40, 42, 54),
        text: Color::Rgb(248, 248, 242),
    }
}

/// Dracula.
pub fn dracula() -> (r: Theme)
    ensures
        r == dracula_colors(),
{
    Theme {
        title_fg: rgb(189, 147, 249),
        title_border: rgb(189, 147, 249),
        status_fg: rgb(98, 114, 164),
        border_selected: rgb(80, 250, 123),
        border_default: rgb(68, 71, 90),
        highlight: rgb(80, 250, 123),
        dim: rgb(98, 114, 164),
        error: rgb(255, 85, 85),
        accent: rgb(139, 233, 253),
        bg: rgb(40, 42, 54),
        text: rgb(248, 248, 242),
    }
}

/// The colours of the Solarized Light theme.
pub open spec fn solarized_light_colors() -> Theme {
    Theme {
        title_fg: Color::Rgb(38, 139, 210),
        title_border: Color::Rgb(38, 139, 210),
        status_fg: Color::Rgb(88, 110, 117),
        border_selected: Color::Rgb(203, 75, 22),
        border_default: Color::Rgb(147, 161, 161),
        highlight: Color::Rgb(203, 75, 22),
        dim: Color::Rgb(147, 161, 161),
        error: Color::Rgb(220, 50, 47),
        accent: Color::Rgb(42, 161, 152),
        bg: Color::Rgb(253, 246, 227),
        text: Color::Rgb(88, 110, 117),
    }
}

/// Solarized Light.
pub fn solarized_light() -> (r: Theme)
    ensures
        r == solarized_light_colors(),
{
    Theme {
        title_fg: rgb(38, 139, 210),
        title_border: rgb(38, 139, 210),
        status_fg: rgb(88, 110, 117),
        border_selected: rgb(203, 75, 22),
        border_default: rgb(147, 161, 161),
        highlight: rgb(203, 75, 22),
        dim: rgb(147, 161, 161),
        error: rgb(220, 50, 47),
        accent: rgb(42, 161, 152),
        bg: rgb(253, 246, 227),
        text: rgb(88, 110, 117),
    }
}

/// The colours of the Nord theme.
pub open spec fn nord_colors() -> Theme {
    Theme {
        title_fg: Color::Rgb(136, 192, 208),
        title_border: Color::Rgb(136, 192, 208),
        status_fg: Color::Rgb(76, 86, 106),
        border_selected: Color::Rgb(163, 190, 140),
        border_default: Color::Rgb(59, 66, 82),
        highlight: Color::Rgb(163, 190, 140),
        dim: Color::Rgb(76, 86, 106),
        error: Color::Rgb(191, 97, 106),
        accent: Color::Rgb(143, 188, 187),
        bg: Color::Rgb(46, 52, 64),
        text: Color::Rgb(216, 222, 233),
    }
}

/// Nord.
pub fn nord() -> (r: Theme)
    ensures
        r == nord_colors(),
{
    Theme {
        title_fg: rgb(136, 192, 208),
        title_border: rgb(136, 192, 208),
        status_fg: rgb(76, 86, 106),
        border_selected: rgb(163, 190, 140),
        border_default: rgb(59, 66, 82),
        highlight: rgb(163, 190, 140),
        dim: rgb(76, 86, 106),
        error: rgb(191, 97, 106),
        accent: rgb(143, 188, 187),
        bg: rgb(46, 52, 64),
        text: rgb(216, 222, 233),
    }
}

/// The colours of the Catppuccin Mocha theme.
pub open spec fn mocha_colors() -> Theme {
    Theme {
        title_fg: Color::Rgb(137, 180, 250),
        title_border: Color::Rgb(137, 180, 250),
        status_fg: Color::Rgb(147, 153, 178),
        border_selected: Color::Rgb(245, 194, 231),
        border_default: Color::Rgb(69, 71, 90),
        highlight: Color::Rgb(245, 194, 231),
        dim: Color::Rgb(147, 153, 178),
        error: Color::Rgb(243, 139, 168),
        accent: Color::Rgb(166, 227, 161),
        bg: Color::Rgb(30, 30, 46),
        text: Color::Rgb(205, 214, 244),
    }
}

/// Catppuccin Mocha.
pub fn mocha() -> (r: Theme)
    ensures
        r == mocha_colors(),
{
    Theme {
        title_fg: rgb(137, 180, 250),
        title_border: rgb(137, 180, 250),
        status_fg: rgb(147, 153, 178),
        border_selected: rgb(245, 194, 231),
        border_default: rgb(69, 71, 90),
        highlight: rgb(245, 194, 231),
        dim: rgb(147, 153, 178),
        error: rgb(243, 139, 168),
        accent: rgb(166, 227, 161),
        bg: rgb(30, 30, 46),
        text: rgb(205, 214, 244),
    }
}

/// The colours of the Catppuccin Latte theme.
pub open spec fn latte_colors() -> Theme {
    Theme {
        title_fg: Color::Rgb(30, 102, 245),
        title_border: Color::Rgb(30, 102, 245),
        status_fg: Color::Rgb(156, 160, 176),
        border_selected: Color::Rgb(221, 120, 120),
        border_default: Color::Rgb(204, 196, 194),
        highlight: Color::Rgb(221, 120, 120),
        dim: Color::Rgb(156, 160, 176),
        error: Color::Rgb(210, 15, 57),
        accent: Color::Rgb(64, 160, 43),
        bg: Color::Rgb(239, 241, 245),
        text: Color::Rgb(76, 79, 105),
    }
}

/// Catppuccin Latte.
pub fn latte() -> (r: Theme)
    ensures
        r == latte_colors(),
{
    Theme {
        title_fg: rgb(30, 102, 245),
        title_border: rgb(30, 102, 245),
        status_fg: rgb(156, 160, 176),
        border_selected: rgb(221, 120, 120),
        border_default: rgb(204, 196, 194),
        highlight: rgb(221, 120, 120),
        dim: rgb(156, 160, 176),
        error: rgb(210, 15, 57),
        accent: rgb(64, 160, 43),
        bg: rgb(239, 241, 245),
        text: rgb(76, 79, 105),
    }
}

/// The names of the selectable themes, in order.
pub open spec fn theme_names() -> Seq<Seq<char>> {
    seq!["Dracula"@, "Solarized Light"@, "Nord"@, "Catppuccin Mocha"@]
}

/// The colours of the selectable themes, in order.
pub open spec fn theme_colors() -> Seq<Theme> {
    seq![dracula_colors(), solarized_light_colors(), nord_colors(), mocha_colors()]
}

/// The selectable themes: Dracula, Solarized Light, Nord, Catppuccin Mocha.
pub fn themes() -> (r: Vec<ThemeDef>)
    ensures
        r@.len() == theme_names().len(),
        forall|i: int|
            0 <= i < r@.len() ==> (#[trigger] r@[i]).name@ == theme_names()[i] && r@[i].theme
                == theme_colors()[i],
{
    let mut r: Vec<ThemeDef> = Vec::new();
    r.push(ThemeDef { name: "Dracula", theme: dracula() });
    r.push(ThemeDef { name: "Solarized Light", theme: solarized_light() });
    r.push(ThemeDef { name: "Nord", theme: nord() });
    r.push(ThemeDef { name: "Catppuccin Mocha", theme: mocha() });
    r
}

/// The index of the theme named `name`; the old names "dark", "Default Dark"
/// and "Default Light" select the first theme.
pub open spec fn theme_index_spec(name: Seq<char>) -> Option<usize> {
    if name == "dark"@ || name == "Default Dark"@ || name == "Default Light"@ {
        Some(0)
    } else if exists|i: int| 0 <= i < theme_names().len() && theme_names()[i] == name {
        Some(
            (choose|i: int|
                0 <= i < theme_names().len() && theme_names()[i] == name && forall|j: int|
                    0 <= j < i ==> theme_names()[j] != name) as usize,
        )
    } else {
        None
    }
}

pub fn theme_index_by_name(name: &str) -> (r: Option<usize>)
    ensures
        r == theme_index_spec(name@),
{
    if str_eq(name, "dark") || str_eq(name, "Default Dark") || str_eq(name, "Default Light") {
        return Some(0);
    }
    let defs = themes();
    let mut i: usize = 0;
    while i < defs.len()
        invariant
            i <= defs.len(),
            defs@.len() == theme_names().len(),
            forall|k: int| 0 <= k < defs@.len() ==> (#[trigger] defs@[k]).name@ == theme_names()[k],
            forall|j: int| 0 <= j < i ==> theme_names()[j] != name@,
            !(name@ == "dark"@ || name@ == "Default Dark"@ || name@ == "Default Light"@),
        decreases defs.len() - i,
    {
        if str_eq(defs[i].name, name) {
            proof {
                let c = choose|k: int|
                    0 <= k < theme_names().len() && theme_names()[k] == name@ && forall|j: int|
                        0 <= j < k ==> theme_names()[j] != name@;
                assert(0 <= i < theme_names().len() && theme_names()[i as int] == name@);
                assert(c == i) by {
                    if c < i {
                    } else if c > i {
                        assert(theme_names()[i as int] != name@);
                    }
                }
            }
            return Some(i);
        }
        i = i + 1;
    }
    None
}

/// Looking up a theme's own name gives its index.
pub proof fn law_theme_name_lookup(i: int)
    requires
        0 <= i < theme_names().len(),
    ensures
        theme_index_spec(theme_names()[i]) == Some(i as usize),
{
    reveal_strlit("Dracula");
    reveal_strlit("Solarized Light");
    reveal_strlit("Nord");
    reveal_strlit("Catppuccin Mocha");
    reveal_strlit("dark");
    reveal_strlit("Default Dark");
    reveal_strlit("Default Light");
    let names = theme_names();
    let aliases = seq!["dark"@, "Default Dark"@, "Default Light"@];
    assert forall|a: int, b: int| 0 <= a < names.len() && 0 <= b < names.len() && a != b implies names[a]
        != names[b] by {
        assert(names[a].len() != names[b].len() || names[a][0] != names[b][0]);
    }
    assert forall|a: int, b: int| 0 <= a < names.len() && 0 <= b < aliases.len() implies names[a]
        != aliases[b] by {
        assert(names[a].len() != aliases[b].len() || names[a][0] != aliases[b][0]);
    }
    let name = names[i];
    assert(name != aliases[0] && name != aliases[1] && name != aliases[2]);
    let c = choose|k: int|
        0 <= k < names.len() && names[k] == name && forall|j: int| 0 <= j < k ==> names[j] != name;
    assert(0 <= i < names.len() && names[i] == name && forall|j: int| 0 <= j < i ==> names[j] != name);
    assert(c == i);
}

} // verus!
