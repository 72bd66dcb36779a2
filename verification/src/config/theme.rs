//! Color theme configuration
//!
//! Theme types: RGB colors with hex conversion, the ANSI palette, the
//! built-in themes and the theme choice of the configuration file.
use vstd::prelude::*;
use vstd::utf8::{encode_utf8, is_ascii_chars, is_ascii_chars_encode_utf8, is_continuation_byte};
use crate::strings::{hex_pair_value, hex_value, push_char, str_eq};

verus! {

/// RGB color representation
#[derive(Debug, Clone, Copy, PartialEq, Eq, Structural)]
pub struct Color {
    /// Red component (0-255)
    pub r: u8,
    /// Green component (0-255)
    pub g: u8,
    /// Blue component (0-255)
    pub b: u8,
}

/// The lower-case hexadecimal digit for `d` (0..=15).
pub open spec fn lower_hex_digit(d: nat) -> char {
    if d < 10 {
        ((48 + d) as u32) as char
    } else {
        ((87 + d) as u32) as char
    }
}

/// Two lower-case hexadecimal digits for a byte, zero-padded.
pub open spec fn hex_byte(v: u8) -> Seq<char> {
    seq![lower_hex_digit((v / 16) as nat), lower_hex_digit((v % 16) as nat)]
}

/// `#rrggbb` in lower case.
pub open spec fn hex_of(c: Color) -> Seq<char> {
    seq!['#'] + hex_byte(c.r) + hex_byte(c.g) + hex_byte(c.b)
}

/// Whether the slices `[0..2]`, `[2..4]` and `[4..6]` taken after a leading
/// `#` fall on character boundaries (slicing inside a character panics).
pub open spec fn hex_fields_on_boundaries(bytes: Seq<u8>) -> bool {
    (bytes.len() == 7 && bytes[0] == 35) ==> (!is_continuation_byte(bytes[3])
        && !is_continuation_byte(bytes[5]))
}

/// The color that `#rrggbb`, given as UTF-8 bytes, denotes: a `#`, then six
/// bytes read in pairs as base-16 bytes.
pub open spec fn color_from_hex_bytes(bytes: Seq<u8>) -> Option<Color> {
    if bytes.len() == 7 && bytes[0] == 35 {
        match (
            hex_pair_value(bytes[1] as char, bytes[2] as char),
            hex_pair_value(bytes[3] as char, bytes[4] as char),
            hex_pair_value(bytes[5] as char, bytes[6] as char),
        ) {
            (Some(r), Some(g), Some(b)) => Some(Color { r, g, b }),
            _ => None,
        }
    } else {
        None
    }
}

fn lower_hex_char(d: u8) -> (c: char)
    requires
        d < 16,
    ensures
        c == lower_hex_digit(d as nat),
{
    if d < 10 {
        ((48 + d) as u8) as char
    } else {
        ((87 + d) as u8) as char
    }
}

fn push_hex_byte(s: &mut String, v: u8)
    ensures
        final(s)@ == old(s)@ + hex_byte(v),
{
    push_char(s, lower_hex_char(v / 16));
    push_char(s, lower_hex_char(v % 16));
    proof {
        assert(final(s)@ =~= old(s)@ + hex_byte(v));
    }
}

impl Color {
    /// Create a new color from RGB values
    pub fn new(r: u8, g: u8, b: u8) -> (c: Self)
        ensures
            c == (Color { r, g, b }),
    {
        Self { r, g, b }
    }

    /// Create a color from a hex string (e.g., "#1e1e2e")
    pub fn from_hex(hex: &str) -> (c: Option<Self>)
        requires
            hex_fields_on_boundaries(encode_utf8(hex@)),
        ensures
            c == color_from_hex_bytes(encode_utf8(hex@)),
    {
        let bytes = hex.as_bytes();
        if bytes.len() != 7 || bytes[0] != 35u8 {
            return None;
        }
        let r = crate::strings::hex_pair(bytes[1] as char, bytes[2] as char);
        let g = crate::strings::hex_pair(bytes[3] as char, bytes[4] as char);
        let b = crate::strings::hex_pair(bytes[5] as char, bytes[6] as char);
        match (r, g, b) {
            (Some(r), Some(g), Some(b)) => Some(Self { r, g, b }),
            _ => None,
        }
    }

    /// Convert to hex string
    pub fn to_hex(&self) -> (s: String)
        ensures
            s@ == hex_of(*self),
    {
        let mut s = String::new();
        push_char(&mut s, '#');
        push_hex_byte(&mut s, self.r);
        push_hex_byte(&mut s, self.g);
        push_hex_byte(&mut s, self.b);
        proof {
            assert(s@ =~= hex_of(*self));
        }
        s
    }
}

/// ANSI 16-color palette
#[derive(Debug, Clone, Copy, PartialEq, Eq, Structural)]
pub struct AnsiColors {
    /// Black (color 0)
    pub black: Color,
    /// Red (color 1)
    pub red: Color,
    /// Green (color 2)
    pub green: Color,
    /// Yellow (color 3)
    pub yellow: Color,
    /// Blue (color 4)
    pub blue: Color,
    /// Magenta (color 5)
    pub magenta: Color,
    /// Cyan (color 6)
    pub cyan: Color,
    /// White (color 7)
    pub white: Color,
    /// Bright black (color 8)
    pub bright_black: Color,
    /// Bright red (color 9)
    pub bright_red: Color,
    /// Bright green (color 10)
    pub bright_green: Color,
    /// Bright yellow (color 11)
    pub bright_yellow: Color,
    /// Bright blue (color 12)
    pub bright_blue: Color,
    /// Bright magenta (color 13)
    pub bright_magenta: Color,
    /// Bright cyan (color 14)
    pub bright_cyan: Color,
    /// Bright white (color 15)
    pub bright_white: Color,
}

/// Complete theme definition
#[derive(Debug, Clone, PartialEq, Eq)]
pub struct Theme {
    /// Theme name
    pub name: String,
    /// Background color
    pub background: Color,
    /// Foreground (text) color
    pub foreground: Color,
    /// Cursor color
    pub cursor: Color,
    /// Selection background color
    pub selection_background: Color,
    /// Selection foreground color
    pub selection_foreground: Color,
    /// ANSI 16-color palette
    pub colors: AnsiColors,
}

/// A [`Theme`] as plain values.
pub struct ThemeView {
    pub name: Seq<char>,
    pub background: Color,
    pub foreground: Color,
    pub cursor: Color,
    pub selection_background: Color,
    pub selection_foreground: Color,
    pub colors: AnsiColors,
}

impl View for Theme {
    type V = ThemeView;

    open spec fn view(&self) -> ThemeView {
        ThemeView {
            name: self.name@,
            background: self.background,
            foreground: self.foreground,
            cursor: self.cursor,
            selection_background: self.selection_background,
            selection_foreground: self.selection_foreground,
            colors: self.colors,
        }
    }
}

/// Selection background used when a theme file leaves it out.
pub open spec fn default_selection_bg_spec() -> Color {
    Color { r: 0x44, g: 0x44, b: 0x44 }
}

/// Selection foreground used when a theme file leaves it out.
pub open spec fn default_selection_fg_spec() -> Color {
    Color { r: 0xff, g: 0xff, b: 0xff }
}

/// Selection background used when a theme file leaves it out.
pub fn default_selection_bg() -> (c: Color)
    ensures
        c == default_selection_bg_spec(),
{
    Color::new(0x44, 0x44, 0x44)
}

/// Selection foreground used when a theme file leaves it out.
pub fn default_selection_fg() -> (c: Color)
    ensures
        c == default_selection_fg_spec(),
{
    Color::new(0xff, 0xff, 0xff)
}

/// The default dark theme.
pub open spec fn default_dark_view() -> ThemeView {
    ThemeView {
        name: "default"@,
        background: Color { r: 0x1e, g: 0x1e, b: 0x2e },
        foreground: Color { r: 0xc6, g: 0xd0, b: 0xf5 },
        cursor: Color { r: 0xf5, g: 0xe0, b: 0xdc },
        selection_background: Color { r: 0x45, g: 0x47, b: 0x5a },
        selection_foreground: Color { r: 0xc6, g: 0xd0, b: 0xf5 },
        colors: AnsiColors {
            black: Color { r: 0x18, g: 0x18, b: 0x1a },
            red: Color { r: 0xf3, g: 0x8b, b: 0xa8 },
            green: Color { r: 0xa6, g: 0xda, b: 0x95 },
            yellow: Color { r: 0xee, g: 0xd4, b: 0x9f },
            blue: Color { r: 0x8b, g: 0xa4, b: 0xbe },
            magenta: Color { r: 0xf5, g: 0xb2, b: 0xe6 },
            cyan: Color { r: 0x8b, g: 0xd5, b: 0xca },
            white: Color { r: 0xb5, g: 0xbf, b: 0xeb },
            bright_black: Color { r: 0x51, g: 0x52, b: 0x5d },
            bright_red: Color { r: 0xf3, g: 0x8b, b: 0xa8 },
            bright_green: Color { r: 0xa6, g: 0xda, b: 0x95 },
            bright_yellow: Color { r: 0xee, g: 0xd4, b: 0x9f },
            bright_blue: Color { r: 0x8b, g: 0xa4, b: 0xbe },
            bright_magenta: Color { r: 0xf5, g: 0xb2, b: 0xe6 },
            bright_cyan: Color { r: 0x8b, g: 0xd5, b: 0xca },
            bright_white: Color { r: 0xa5, g: 0xb0, b: 0xe8 },
        },
    }
}

/// The Dracula theme.
pub open spec fn dracula_view() -> ThemeView {
    ThemeView {
        name: "dracula"@,
        background: Color { r: 0x28, g: 0x2a, b: 0x36 },
        foreground: Color { r: 0xf8, g: 0xf8, b: 0xf2 },
        cursor: Color { r: 0xbd, g: 0x93, b: 0xf9 },
        selection_background: Color { r: 0x44, g: 0x47, b: 0x5a },
        selection_foreground: Color { r: 0xf8, g: 0xf8, b: 0xf2 },
        colors: AnsiColors {
            black: Color { r: 0x00, g: 0x00, b: 0x00 },
            red: Color { r: 0xff, g: 0x55, b: 0x55 },
            green: Color { r: 0x50, g: 0xfa, b: 0x7b },
            yellow: Color { r: 0xf1, g: 0xfa, b: 0x8c },
            blue: Color { r: 0xbd, g: 0x93, b: 0xf9 },
            magenta: Color { r: 0xff, g: 0x79, b: 0xc6 },
            cyan: Color { r: 0x8b, g: 0xe9, b: 0xfd },
            white: Color { r: 0xbf, g: 0xbf, b: 0xbf },
            bright_black: Color { r: 0x4d, g: 0x4d, b: 0x4d },
            bright_red: Color { r: 0xff, g: 0x6e, b: 0x67 },
            bright_green: Color { r: 0x5a, g: 0xf7, b: 0x8e },
            bright_yellow: Color { r: 0xf4, g: 0xf9, b: 0x9d },
            bright_blue: Color { r: 0xca, g: 0xa9, b: 0xfa },
            bright_magenta: Color { r: 0xff, g: 0x92, b: 0xd0 },
            bright_cyan: Color { r: 0x9a, g: 0xed, b: 0xfe },
            bright_white: Color { r: 0xe6, g: 0xe6, b: 0xe6 },
        },
    }
}

/// The Gruvbox theme.
pub open spec fn gruvbox_view() -> ThemeView {
    ThemeView {
        name: "gruvbox"@,
        background: Color { r: 0x28, g: 0x28, b: 0x28 },
        foreground: Color { r: 0xeb, g: 0xdb, b: 0xb2 },
        cursor: Color { r: 0xeb, g: 0xdb, b: 0xb2 },
        selection_background: Color { r: 0x66, g: 0x5c, b: 0x54 },
        selection_foreground: Color { r: 0xeb, g: 0xdb, b: 0xb2 },
        colors: AnsiColors {
            black: Color { r: 0x28, g: 0x28, b: 0x28 },
            red: Color { r: 0xcc, g: 0x24, b: 0x1d },
            green: Color { r: 0x98, g: 0x97, b: 0x1a },
            yellow: Color { r: 0xd7, g: 0x99, b: 0x21 },
            blue: Color { r: 0x45, g: 0x85, b: 0x88 },
            magenta: Color { r: 0xb1, g: 0x62, b: 0x86 },
            cyan: Color { r: 0x68, g: 0x9d, b: 0x6a },
            white: Color { r: 0xa8, g: 0x99, b: 0x84 },
            bright_black: Color { r: 0x92, g: 0x83, b: 0x74 },
            bright_red: Color { r: 0xfb, g: 0x49, b: 0x34 },
            bright_green: Color { r: 0xb8, g: 0xbb, b: 0x26 },
            bright_yellow: Color { r: 0xfa, g: 0xbd, b: 0x2f },
            bright_blue: Color { r: 0x83, g: 0xa5, b: 0x98 },
            bright_magenta: Color { r: 0xd3, g: 0x86, b: 0x9b },
            bright_cyan: Color { r: 0x8e, g: 0xc0, b: 0x7c },
            bright_white: Color { r: 0xeb, g: 0xdb, b: 0xb2 },
        },
    }
}

/// The built-in theme called `name`, if there is one.
pub open spec fn builtin_view(name: Seq<char>) -> Option<ThemeView> {
    if name == "default"@ {
        Some(default_dark_view())
    } else if name == "dracula"@ {
        Some(dracula_view())
    } else if name == "gruvbox"@ {
        Some(gruvbox_view())
    } else {
        None
    }
}

impl Theme {
    /// Get the default dark theme
    pub fn default_dark() -> (t: Self)
        ensures
            t@ == default_dark_view(),
    {
        Self {
            name: "default".to_owned(),
            background: Color { r: 0x1e, g: 0x1e, b: 0x2e },
            foreground: Color { r: 0xc6, g: 0xd0, b: 0xf5 },
            cursor: Color { r: 0xf5, g: 0xe0, b: 0xdc },
            selection_background: Color { r: 0x45, g: 0x47, b: 0x5a },
            selection_foreground: Color { r: 0xc6, g: 0xd0, b: 0xf5 },
            colors: AnsiColors {
                black: Color { r: 0x18, g: 0x18, b: 0x1a },
                red: Color { r: 0xf3, g: 0x8b, b: 0xa8 },
                green: Color { r: 0xa6, g: 0xda, b: 0x95 },
                yellow: Color { r: 0xee, g: 0xd4, b: 0x9f },
                blue: Color { r: 0x8b, g: 0xa4, b: 0xbe },
                magenta: Color { r: 0xf5, g: 0xb2, b: 0xe6 },
                cyan: Color { r: 0x8b, g: 0xd5, b: 0xca },
                white: Color { r: 0xb5, g: 0xbf, b: 0xeb },
                bright_black: Color { r: 0x51, g: 0x52, b: 0x5d },
                bright_red: Color { r: 0xf3, g: 0x8b, b: 0xa8 },
                bright_green: Color { r: 0xa6, g: 0xda, b: 0x95 },
                bright_yellow: Color { r: 0xee, g: 0xd4, b: 0x9f },
                bright_blue: Color { r: 0x8b, g: 0xa4, b: 0xbe },
                bright_magenta: Color { r: 0xf5, g: 0xb2, b: 0xe6 },
                bright_cyan: Color { r: 0x8b, g: 0xd5, b: 0xca },
                bright_white: Color { r: 0xa5, g: 0xb0, b: 0xe8 },
            },
        }
    }

    /// Get the Dracula theme
    pub fn dracula() -> (t: Self)
        ensures
            t@ == dracula_view(),
    {
        Self {
            name: "dracula".to_owned(),
            background: Color { r: 0x28, g: 0x2a, b: 0x36 },
            foreground: Color { r: 0xf8, g: 0xf8, b: 0xf2 },
            cursor: Color { r: 0xbd, g: 0x93, b: 0xf9 },
            selection_background: Color { r: 0x44, g: 0x47, b: 0x5a },
            selection_foreground: Color { r: 0xf8, g: 0xf8, b: 0xf2 },
            colors: AnsiColors {
                black: Color { r: 0x00, g: 0x00, b: 0x00 },
                red: Color { r: 0xff, g: 0x55, b: 0x55 },
                green: Color { r: 0x50, g: 0xfa, b: 0x7b },
                yellow: Color { r: 0xf1, g: 0xfa, b: 0x8c },
                blue: Color { r: 0xbd, g: 0x93, b: 0xf9 },
                magenta: Color { r: 0xff, g: 0x79, b: 0xc6 },
                cyan: Color { r: 0x8b, g: 0xe9, b: 0xfd },
                white: Color { r: 0xbf, g: 0xbf, b: 0xbf },
                bright_black: Color { r: 0x4d, g: 0x4d, b: 0x4d },
                bright_red: Color { r: 0xff, g: 0x6e, b: 0x67 },
                bright_green: Color { r: 0x5a, g: 0xf7, b: 0x8e },
                bright_yellow: Color { r: 0xf4, g: 0xf9, b: 0x9d },
                bright_blue: Color { r: 0xca, g: 0xa9, b: 0xfa },
                bright_magenta: Color { r: 0xff, g: 0x92, b: 0xd0 },
                bright_cyan: Color { r: 0x9a, g: 0xed, b: 0xfe },
                bright_white: Color { r: 0xe6, g: 0xe6, b: 0xe6 },
            },
        }
    }

    /// Get the Gruvbox theme
    pub fn gruvbox() -> (t: Self)
        ensures
            t@ == gruvbox_view(),
    {
        Self {
            name: "gruvbox".to_owned(),
            background: Color { r: 0x28, g: 0x28, b: 0x28 },
            foreground: Color { r: 0xeb, g: 0xdb, b: 0xb2 },
            cursor: Color { r: 0xeb, g: 0xdb, b: 0xb2 },
            selection_background: Color { r: 0x66, g: 0x5c, b: 0x54 },
            selection_foreground: Color { r: 0xeb, g: 0xdb, b: 0xb2 },
            colors: AnsiColors {
                black: Color { r: 0x28, g: 0x28, b: 0x28 },
                red: Color { r: 0xcc, g: 0x24, b: 0x1d },
                green: Color { r: 0x98, g: 0x97, b: 0x1a },
                yellow: Color { r: 0xd7, g: 0x99, b: 0x21 },
                blue: Color { r: 0x45, g: 0x85, b: 0x88 },
                magenta: Color { r: 0xb1, g: 0x62, b: 0x86 },
                cyan: Color { r: 0x68, g: 0x9d, b: 0x6a },
                white: Color { r: 0xa8, g: 0x99, b: 0x84 },
                bright_black: Color { r: 0x92, g: 0x83, b: 0x74 },
                bright_red: Color { r: 0xfb, g: 0x49, b: 0x34 },
                bright_green: Color { r: 0xb8, g: 0xbb, b: 0x26 },
                bright_yellow: Color { r: 0xfa, g: 0xbd, b: 0x2f },
                bright_blue: Color { r: 0x83, g: 0xa5, b: 0x98 },
                bright_magenta: Color { r: 0xd3, g: 0x86, b: 0x9b },
                bright_cyan: Color { r: 0x8e, g: 0xc0, b: 0x7c },
                bright_white: Color { r: 0xeb, g: 0xdb, b: 0xb2 },
            },
        }
    }

    /// Get a built-in theme by name
    pub fn builtin(name: &str) -> (t: Option<Self>)
        ensures
            match builtin_view(name@) {
                Some(v) => t matches Some(th) && th@ == v,
                None => t is None,
            },
    {
        if str_eq(name, "default") {
            Some(Self::default_dark())
        } else if str_eq(name, "dracula") {
            Some(Self::dracula())
        } else if str_eq(name, "gruvbox") {
            Some(Self::gruvbox())
        } else {
            None
        }
    }

    /// Get all built-in theme names
    pub fn builtin_names() -> (names: &'static [&'static str])
        ensures
            names@.len() == builtin_theme_names().len(),
            forall|i: int| 0 <= i < names@.len() ==> #[trigger] names@[i]@ == builtin_theme_names()[i],
    {
        &["default", "dracula", "gruvbox"]
    }

    /// A copy of this theme.
    fn duplicate(&self) -> (t: Self)
        ensures
            t@ == self@,
    {
        Theme {
            name: self.name.clone(),
            background: self.background,
            foreground: self.foreground,
            cursor: self.cursor,
            selection_background: self.selection_background,
            selection_foreground: self.selection_foreground,
            colors: self.colors,
        }
    }
}

/// Theme configuration - either a built-in theme name or custom colors
#[derive(Debug, Clone)]
pub struct ThemeConfig {
    /// Name of a built-in theme (default, dracula, gruvbox)
    pub name: String,
    /// Custom theme (overrides built-in if present)
    pub custom: Option<Theme>,
}

/// The theme name used when the configuration names none.
pub fn default_theme_name() -> (s: String)
    ensures
        s@ == "default"@,
{
    "default".to_owned()
}

impl Default for ThemeConfig {
    fn default() -> (c: Self)
        ensures
            c.name@ == "default"@,
            c.custom is None,
    {
        Self { name: default_theme_name(), custom: None }
    }
}

/// The theme a configuration stands for: its custom theme if it has one,
/// else the built-in theme it names, else the default dark theme.
pub open spec fn resolved_view(name: Seq<char>, custom: Option<ThemeView>) -> ThemeView {
    match custom {
        Some(t) => t,
        None => match builtin_view(name) {
            Some(t) => t,
            None => default_dark_view(),
        },
    }
}

impl ThemeConfig {
    /// Get the effective theme (custom or built-in)
    pub fn resolve(&self) -> (t: Theme)
        ensures
            t@ == resolved_view(
                self.name@,
                match self.custom {
                    Some(c) => Some(c@),
                    None => None,
                },
            ),
    {
        match &self.custom {
            Some(custom) => custom.duplicate(),
            None => match Theme::builtin(self.name.as_str()) {
                Some(t) => t,
                None => Theme::default_dark(),
            },
        }
    }
}

proof fn lemma_hex_byte_reads_back(v: u8)
    ensures
        is_ascii_chars(hex_byte(v)),
        hex_pair_value(hex_byte(v)[0], hex_byte(v)[1]) == Some(v),
{
    let hi = (v / 16) as nat;
    let lo = (v % 16) as nat;
    assert(hex_value(lower_hex_digit(hi)) == Some(hi));
    assert(hex_value(lower_hex_digit(lo)) == Some(lo));
    assert(16 * hi + lo == v);
}

/// Hex text round-trips: reading back what [`Color::to_hex`] writes gives
/// the same color.
pub proof fn lemma_color_hex_roundtrip(c: Color)
    ensures
        hex_fields_on_boundaries(encode_utf8(hex_of(c))),
        color_from_hex_bytes(encode_utf8(hex_of(c))) == Some(c),
{
    let s = hex_of(c);
    lemma_hex_byte_reads_back(c.r);
    lemma_hex_byte_reads_back(c.g);
    lemma_hex_byte_reads_back(c.b);
    assert(s.len() == 7);
    assert(is_ascii_chars(s)) by {
        assert forall|i: int| 0 <= i < s.len() implies '\0' <= #[trigger] s[i] <= '\u{7f}' by {
            if i == 0 {
            } else if i < 3 {
                assert(s[i] == hex_byte(c.r)[i - 1]);
            } else if i < 5 {
                assert(s[i] == hex_byte(c.g)[i - 3]);
            } else {
                assert(s[i] == hex_byte(c.b)[i - 5]);
            }
        }
    }
    is_ascii_chars_encode_utf8(s);
    let bytes = encode_utf8(s);
    assert forall|i: int| 0 <= i < 7 implies (#[trigger] bytes[i]) as char == s[i] by {
        assert(s[i] as u8 == bytes[i]);
    }
    assert(s[1] == hex_byte(c.r)[0] && s[2] == hex_byte(c.r)[1]);
    assert(s[3] == hex_byte(c.g)[0] && s[4] == hex_byte(c.g)[1]);
    assert(s[5] == hex_byte(c.b)[0] && s[6] == hex_byte(c.b)[1]);
    assert(bytes[0] == 35);
}

/// The names [`Theme::builtin_names`] lists.
pub open spec fn builtin_theme_names() -> Seq<Seq<char>> {
    seq!["default"@, "dracula"@, "gruvbox"@]
}

/// Every listed built-in name resolves to a built-in theme of that name.
pub proof fn lemma_builtin_names_resolve(i: int)
    requires
        0 <= i < builtin_theme_names().len(),
    ensures
        builtin_view(builtin_theme_names()[i]) matches Some(t) && t.name == builtin_theme_names()[i],
{
}

} // verus!
