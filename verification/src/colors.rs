use crate::settings::{spec_to_lowercase, to_lowercase};
use crate::text::str_eq;
use vstd::prelude::*;

verus! {

/// A terminal color: the named colors, the terminal's default (`Reset`), a 24-bit color and
/// an entry of the 256-color palette.
#[derive(Debug, Clone, Copy, PartialEq, Eq, Structural)]
pub enum Color {
    Reset,
    Black,
    DarkGrey,
    Red,
    DarkRed,
    Green,
    DarkGreen,
    Yellow,
    DarkYellow,
    Blue,
    DarkBlue,
    Magenta,
    DarkMagenta,
    Cyan,
    DarkCyan,
    White,
    Grey,
    Rgb { r: u8, g: u8, b: u8 },
    AnsiValue(u8),
}

/// The color a lower-case name denotes; `White` for any other text.
pub open spec fn color_named(lower: Seq<char>) -> Color {
    if lower == "black"@ {
        Color::Black
    } else if lower == "dark_grey"@ {
        Color::DarkGrey
    } else if lower == "red"@ {
        Color::Red
    } else if lower == "dark_red"@ {
        Color::DarkRed
    } else if lower == "green"@ {
        Color::Green
    } else if lower == "dark_green"@ {
        Color::DarkGreen
    } else if lower == "yellow"@ {
        Color::Yellow
    } else if lower == "dark_yellow"@ {
        Color::DarkYellow
    } else if lower == "blue"@ {
        Color::Blue
    } else if lower == "dark_blue"@ {
        Color::DarkBlue
    } else if lower == "magenta"@ {
        Color::Magenta
    } else if lower == "dark_magenta"@ {
        Color::DarkMagenta
    } else if lower == "cyan"@ {
        Color::Cyan
    } else if lower == "dark_cyan"@ {
        Color::DarkCyan
    } else if lower == "grey"@ {
        Color::Grey
    } else {
        Color::White
    }
}

/// Reads a color name in any case, as `crossterm`'s `Color::from_str` does: one of the
/// named colors, and `White` for anything else.
pub fn color_from_name(name: &str) -> (c: Color)
    ensures
        c == color_named(spec_to_lowercase(name@)),
{
    let lower = to_lowercase(name);
    let l = lower.as_str();
    if str_eq(l, "black") {
        Color::Black
    } else if str_eq(l, "dark_grey") {
        Color::DarkGrey
    } else if str_eq(l, "red") {
        Color::Red
    } else if str_eq(l, "dark_red") {
        Color::DarkRed
    } else if str_eq(l, "green") {
        Color::Green
    } else if str_eq(l, "dark_green") {
        Color::DarkGreen
    } else if str_eq(l, "yellow") {
        Color::Yellow
    } else if str_eq(l, "dark_yellow") {
        Color::DarkYellow
    } else if str_eq(l, "blue") {
        Color::Blue
    } else if str_eq(l, "dark_blue") {
        Color::DarkBlue
    } else if str_eq(l, "magenta") {
        Color::Magenta
    } else if str_eq(l, "dark_magenta") {
        Color::DarkMagenta
    } else if str_eq(l, "cyan") {
        Color::Cyan
    } else if str_eq(l, "dark_cyan") {
        Color::DarkCyan
    } else if str_eq(l, "grey") {
        Color::Grey
    } else {
        Color::White
    }
}

/// The colors of the interface on a dark terminal.
#[derive(Debug, Clone, Copy, PartialEq, Eq, Structural)]
pub struct DarkModeColors {
    pub prompt: Color,
    pub timing: Color,
    pub results_fg: Color,
    pub results_bg: Color,
    pub results_hl: Color,
    pub results_selection_fg: Color,
    pub results_selection_bg: Color,
    pub results_selection_hl: Color,
}

/// The colors of the interface on a light terminal.
#[derive(Debug, Clone, Copy, PartialEq, Eq, Structural)]
pub struct LightModeColors {
    pub prompt: Color,
    pub timing: Color,
    pub results_fg: Color,
    pub results_bg: Color,
    pub results_hl: Color,
    pub results_selection_fg: Color,
    pub results_selection_bg: Color,
    pub results_selection_hl: Color,
}

/// All colors of the interface.
#[derive(Debug, Clone, Copy, PartialEq, Eq, Structural)]
pub struct Colors {
    pub menubar_bg: Color,
    pub menubar_fg: Color,
    pub darkmode_colors: DarkModeColors,
    pub lightmode_colors: LightModeColors,
}

impl Default for Colors {
    fn default() -> (c: Colors)
        ensures
            c == (Colors {
                menubar_bg: Color::Blue,
                menubar_fg: Color::White,
                darkmode_colors: DarkModeColors {
                    prompt: Color::White,
                    timing: Color::Blue,
                    results_fg: Color::White,
                    results_bg: Color::Black,
                    results_hl: Color::Blue,
                    results_selection_fg: Color::Black,
                    results_selection_bg: Color::White,
                    results_selection_hl: Color::DarkGreen,
                },
                lightmode_colors: LightModeColors {
                    prompt: Color::Black,
                    timing: Color::DarkBlue,
                    results_fg: Color::Black,
                    results_bg: Color::White,
                    results_hl: Color::Blue,
                    results_selection_fg: Color::White,
                    results_selection_bg: Color::DarkGrey,
                    results_selection_hl: Color::Grey,
                },
            }),
    {
        Colors {
            menubar_bg: Color::Blue,
            menubar_fg: Color::White,
            darkmode_colors: DarkModeColors {
                prompt: Color::White,
                timing: Color::Blue,
                results_fg: Color::White,
                results_bg: Color::Black,
                results_hl: Color::Blue,
                results_selection_fg: Color::Black,
                results_selection_bg: Color::White,
                results_selection_hl: Color::DarkGreen,
            },
            lightmode_colors: LightModeColors {
                prompt: Color::Black,
                timing: Color::DarkBlue,
                results_fg: Color::Black,
                results_bg: Color::White,
                results_hl: Color::Blue,
                results_selection_fg: Color::White,
                results_selection_bg: Color::DarkGrey,
                results_selection_hl: Color::Grey,
            },
        }
    }
}

/// A key of a color section of the configuration file, with its value as text when it
/// has one.
pub struct ColorEntry {
    pub key: String,
    pub text: Option<String>,
}

/// A section of the `colors` table of the configuration file (`menubar`, `darkmode`,
/// `lightmode`), with its entries when it is a table.
pub struct ColorSection {
    pub name: String,
    pub entries: Option<Vec<ColorEntry>>,
}

/// The entries of the first section named `name`, if it is a table.
pub open spec fn section_entries(sections: Seq<ColorSection>, name: Seq<char>) -> Option<
    Seq<ColorEntry>,
>
    decreases sections.len(),
{
    if sections.len() == 0 {
        None
    } else if sections[0].name@ == name {
        match sections[0].entries {
            Some(v) => Some(v@),
            None => None,
        }
    } else {
        section_entries(sections.drop_first(), name)
    }
}

/// The text of the first entry with key `key`: `None` when there is no such entry, and
/// `Some(None)` when its value is not text.
pub open spec fn entry_text(entries: Seq<ColorEntry>, key: Seq<char>) -> Option<Option<Seq<char>>>
    decreases entries.len(),
{
    if entries.len() == 0 {
        None
    } else if entries[0].key@ == key {
        match entries[0].text {
            Some(t) => Some(Some(t@)),
            None => Some(None),
        }
    } else {
        entry_text(entries.drop_first(), key)
    }
}

/// A color after the configuration: the color named by the entry `key` of `table` when it
/// has text, else `current`.
pub open spec fn configured(current: Color, table: Option<Seq<ColorEntry>>, key: Seq<char>) -> Color {
    match table {
        Some(t) => match entry_text(t, key) {
            Some(Some(text)) => color_named(spec_to_lowercase(text)),
            _ => current,
        },
        None => current,
    }
}

fn find_section<'a>(sections: &'a Vec<ColorSection>, name: &str) -> (r: Option<&'a Vec<ColorEntry>>)
    ensures
        section_entries(sections@, name@) == match r {
            Some(v) => Some(v@),
            None => None::<Seq<ColorEntry>>,
        },
{
    let mut i: usize = 0;
    assert(sections@.skip(0) =~= sections@);
    while i < sections.len()
        invariant
            0 <= i <= sections.len(),
            section_entries(sections@.skip(i as int), name@) == section_entries(sections@, name@),
        decreases sections.len() - i,
    {
        let ghost rest = sections@.skip(i as int);
        assert(rest[0] == sections@[i as int]);
        if str_eq(sections[i].name.as_str(), name) {
            return match &sections[i].entries {
                Some(v) => Some(v),
                None => None,
            };
        }
        assert(rest.drop_first() =~= sections@.skip(i + 1));
        i = i + 1;
    }
    None
}

/// The color set by the entry `key` of `table` (see `configured`).
fn configured_color(current: Color, table: Option<&Vec<ColorEntry>>, key: &str) -> (c: Color)
    ensures
        c == configured(
            current,
            match table {
                Some(v) => Some(v@),
                None => None,
            },
            key@,
        ),
{
    match table {
        None => current,
        Some(entries) => {
            let mut i: usize = 0;
            assert(entries@.skip(0) =~= entries@);
            while i < entries.len()
                invariant
                    0 <= i <= entries.len(),
                    entry_text(entries@.skip(i as int), key@) == entry_text(entries@, key@),
                    table == Some(entries),
                decreases entries.len() - i,
            {
                let ghost rest = entries@.skip(i as int);
                assert(rest[0] == entries@[i as int]);
                if str_eq(entries[i].key.as_str(), key) {
                    assert(rest.len() > 0 && rest[0].key@ == key@);
                    return match &entries[i].text {
                        Some(t) => {
                            assert(entry_text(rest, key@) == Some(Some(t@)));
                            color_from_name(t.as_str())
                        },
                        None => {
                            assert(entry_text(rest, key@) == Some(None::<Seq<char>>));
                            current
                        },
                    };
                }
                assert(rest.drop_first() =~= entries@.skip(i + 1));
                i = i + 1;
            }
            current
        },
    }
}

/// The section `name` of an optional `colors` table.
pub open spec fn colors_section(colors: Option<Seq<ColorSection>>, name: Seq<char>) -> Option<
    Seq<ColorEntry>,
> {
    match colors {
        Some(s) => section_entries(s, name),
        None => None,
    }
}

impl Colors {
    /// Applies the `colors` table of the configuration file (`None` when the file has none,
    /// or it is not a table): each entry of `menubar`, `darkmode` and `lightmode` whose value
    /// is text sets the color of that name; the others keep their colors.
    pub fn merge_config(&mut self, colors: Option<&Vec<ColorSection>>)
        ensures
            ({
                let c = match colors {
                    Some(v) => Some(v@),
                    None => None,
                };
                let m = colors_section(c, "menubar"@);
                let d = colors_section(c, "darkmode"@);
                let l = colors_section(c, "lightmode"@);
                let o = *old(self);
                let n = *final(self);
                &&& n.menubar_bg == configured(o.menubar_bg, m, "bg"@)
                &&& n.menubar_fg == configured(o.menubar_fg, m, "fg"@)
                &&& n.darkmode_colors.prompt == configured(o.darkmode_colors.prompt, d, "prompt"@)
                &&& n.darkmode_colors.timing == configured(o.darkmode_colors.timing, d, "timing"@)
                &&& n.darkmode_colors.results_fg == configured(
                    o.darkmode_colors.results_fg,
                    d,
                    "results_fg"@,
                )
                &&& n.darkmode_colors.results_bg == configured(
                    o.darkmode_colors.results_bg,
                    d,
                    "results_bg"@,
                )
                &&& n.darkmode_colors.results_hl == configured(
                    o.darkmode_colors.results_hl,
                    d,
                    "results_hl"@,
                )
                &&& n.darkmode_colors.results_selection_fg == configured(
                    o.darkmode_colors.results_selection_fg,
                    d,
                    "results_selection_fg"@,
                )
                &&& n.darkmode_colors.results_selection_bg == configured(
                    o.darkmode_colors.results_selection_bg,
                    d,
                    "results_selection_bg"@,
                )
                &&& n.darkmode_colors.results_selection_hl == configured(
                    o.darkmode_colors.results_selection_hl,
                    d,
                    "results_selection_hl"@,
                )
                &&& n.lightmode_colors.prompt == configured(o.lightmode_colors.prompt, l, "prompt"@)
                &&& n.lightmode_colors.timing == configured(o.lightmode_colors.timing, l, "timing"@)
                &&& n.lightmode_colors.results_fg == configured(
                    o.lightmode_colors.results_fg,
                    l,
                    "results_fg"@,
                )
                &&& n.lightmode_colors.results_bg == configured(
                    o.lightmode_colors.results_bg,
                    l,
                    "results_bg"@,
                )
                &&& n.lightmode_colors.results_hl == configured(
                    o.lightmode_colors.results_hl,
                    l,
                    "results_hl"@,
                )
                &&& n.lightmode_colors.results_selection_fg == configured(
                    o.lightmode_colors.results_selection_fg,
                    l,
                    "results_selection_fg"@,
                )
                &&& n.lightmode_colors.results_selection_bg == configured(
                    o.lightmode_colors.results_selection_bg,
                    l,
                    "results_selection_bg"@,
                )
                &&& n.lightmode_colors.results_selection_hl == configured(
                    o.lightmode_colors.results_selection_hl,
                    l,
                    "results_selection_hl"@,
                )
            }),
    {
        let (m, d, l) = match colors {
            Some(sections) => (
                find_section(sections, "menubar"),
                find_section(sections, "darkmode"),
                find_section(sections, "lightmode"),
            ),
            None => (None, None, None),
        };
        self.menubar_bg = configured_color(self.menubar_bg, m, "bg");
        self.menubar_fg = configured_color(self.menubar_fg, m, "fg");
        let dc = &mut self.darkmode_colors;
        dc.prompt = configured_color(dc.prompt, d, "prompt");
        dc.timing = configured_color(dc.timing, d, "timing");
        dc.results_fg = configured_color(dc.results_fg, d, "results_fg");
        dc.results_bg = configured_color(dc.results_bg, d, "results_bg");
        dc.results_hl = configured_color(dc.results_hl, d, "results_hl");
        dc.results_selection_fg = configured_color(dc.results_selection_fg, d, "results_selection_fg");
        dc.results_selection_bg = configured_color(dc.results_selection_bg, d, "results_selection_bg");
        dc.results_selection_hl = configured_color(dc.results_selection_hl, d, "results_selection_hl");
        let lc = &mut self.lightmode_colors;
        lc.prompt = configured_color(lc.prompt, l, "prompt");
        lc.timing = configured_color(lc.timing, l, "timing");
        lc.results_fg = configured_color(lc.results_fg, l, "results_fg");
        lc.results_bg = configured_color(lc.results_bg, l, "results_bg");
        lc.results_hl = configured_color(lc.results_hl, l, "results_hl");
        lc.results_selection_fg = configured_color(lc.results_selection_fg, l, "results_selection_fg");
        lc.results_selection_bg = configured_color(lc.results_selection_bg, l, "results_selection_bg");
        lc.results_selection_hl = configured_color(lc.results_selection_hl, l, "results_selection_hl");
    }
}

} // verus!
