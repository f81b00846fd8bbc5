//! Loading the game's appearance from a user configuration: glyphs are
//! parsed into codepage 437 codes and colors from `#rrggbb` strings.

use vstd::prelude::*;

use crate::color::Rgb;
use crate::components::Renderable;

verus! {

/// The codepage 437 code of a character, or 0 when the codepage has no
/// glyph for it. Printable ASCII maps to itself; the box-drawing,
/// dingbat and accented characters map to their classic positions.
pub open spec fn cp437_code(c: char) -> u16 {
    if 32 <= c as u32 <= 126 {
        c as u16
    } else {
        match c {
            '☺' => 1,
            '☻' => 2,
            '♥' => 3,
            '♦' => 4,
            '♣' => 5,
            '♠' => 6,
            '•' => 7,
            '◘' => 8,
            '○' => 9,
            '◙' => 10,
            '♂' => 11,
            '♀' => 12,
            '♪' => 13,
            '♫' => 14,
            '☼' => 15,
            '►' => 16,
            '◄' => 17,
            '↕' => 18,
            '‼' => 19,
            '¶' => 20,
            '§' => 21,
            '▬' => 22,
            '↨' => 23,
            '↑' => 24,
            '↓' => 25,
            '→' => 26,
            '←' => 27,
            '∟' => 28,
            '↔' => 29,
            '▲' => 30,
            '▼' => 31,
            '⌂' => 127,
            'Ç' => 128,
            'ü' => 129,
            'é' => 130,
            'â' => 131,
            'ä' => 132,
            'à' => 133,
            'å' => 134,
            'ç' => 135,
            'ê' => 136,
            'ë' => 137,
            'è' => 138,
            'ï' => 139,
            'î' => 140,
            'ì' => 141,
            'Ä' => 142,
            'Å' => 143,
            'É' => 144,
            'æ' => 145,
            'Æ' => 146,
            'ô' => 147,
            'ö' => 148,
            'ò' => 149,
            'û' => 150,
            'ù' => 151,
            'ÿ' => 152,
            'Ö' => 153,
            'Ü' => 154,
            '¢' => 155,
            '£' => 156,
            '¥' => 157,
            '₧' => 158,
            'ƒ' => 159,
            'á' => 160,
            'í' => 161,
            'ó' => 162,
            'ú' => 163,
            'ñ' => 164,
            'Ñ' => 165,
            'ª' => 166,
            'º' => 167,
            '¿' => 168,
            '⌐' => 169,
            '¬' => 170,
            '½' => 171,
            '¼' => 172,
            '¡' => 173,
            '«' => 174,
            '»' => 175,
            '░' => 176,
            '▒' => 177,
            '▓' => 178,
            '│' => 179,
            '┤' => 180,
            '╡' => 181,
            '╢' => 182,
            '╖' => 183,
            '╕' => 184,
            '╣' => 185,
            '║' => 186,
            '╗' => 187,
            '╝' => 188,
            '╜' => 189,
            '╛' => 190,
            '┐' => 191,
            '└' => 192,
            '┴' => 193,
            '┬' => 194,
            '├' => 195,
            '─' => 196,
            '┼' => 197,
            '╞' => 198,
            '╟' => 199,
            '╚' => 200,
            '╔' => 201,
            '╩' => 202,
            '╦' => 203,
            '╠' => 204,
            '═' => 205,
            '╬' => 206,
            '╧' => 207,
            '╨' => 208,
            '╤' => 209,
            '╥' => 210,
            '╙' => 211,
            '╘' => 212,
            '╒' => 213,
            '╓' => 214,
            '╫' => 215,
            '╪' => 216,
            '┘' => 217,
            '┌' => 218,
            '█' => 219,
            '▄' => 220,
            '▌' => 221,
            '▐' => 222,
            '▀' => 223,
            'α' => 224,
            'ß' => 225,
            'Γ' => 226,
            'π' => 227,
            'Σ' => 228,
            'σ' => 229,
            'µ' => 230,
            'τ' => 231,
            'Φ' => 232,
            'Θ' => 233,
            'Ω' => 234,
            'δ' => 235,
            '∞' => 236,
            'φ' => 237,
            'ε' => 238,
            '∩' => 239,
            '≡' => 240,
            '±' => 241,
            '≥' => 242,
            '≤' => 243,
            '⌠' => 244,
            '⌡' => 245,
            '÷' => 246,
            '≈' => 247,
            '°' => 248,
            '∙' => 249,
            '·' => 250,
            '√' => 251,
            'ⁿ' => 252,
            '²' => 253,
            '■' => 254,
            _ => 0,
        }
    }
}

/// Convert a character to its codepage 437 code, 0 when it has none.
#[verifier::rlimit(60)]
pub fn to_cp437(c: char) -> (r: u16)
    ensures
        r == cp437_code(c),
{
    let u = c as u32;
    if 32 <= u && u <= 126 {
        u as u16
    } else {
        match c {
                '☺' => 1,
                '☻' => 2,
                '♥' => 3,
                '♦' => 4,
                '♣' => 5,
                '♠' => 6,
                '•' => 7,
                '◘' => 8,
                '○' => 9,
                '◙' => 10,
                '♂' => 11,
                '♀' => 12,
                '♪' => 13,
                '♫' => 14,
                '☼' => 15,
                '►' => 16,
                '◄' => 17,
                '↕' => 18,
                '‼' => 19,
                '¶' => 20,
                '§' => 21,
                '▬' => 22,
                '↨' => 23,
                '↑' => 24,
                '↓' => 25,
                '→' => 26,
                '←' => 27,
                '∟' => 28,
                '↔' => 29,
                '▲' => 30,
                '▼' => 31,
                '⌂' => 127,
                'Ç' => 128,
                'ü' => 129,
                'é' => 130,
                'â' => 131,
                'ä' => 132,
                'à' => 133,
                'å' => 134,
                'ç' => 135,
                'ê' => 136,
                'ë' => 137,
                'è' => 138,
                'ï' => 139,
                'î' => 140,
                'ì' => 141,
                'Ä' => 142,
                'Å' => 143,
                'É' => 144,
                'æ' => 145,
                'Æ' => 146,
                'ô' => 147,
                'ö' => 148,
                'ò' => 149,
                'û' => 150,
                'ù' => 151,
                'ÿ' => 152,
                'Ö' => 153,
                'Ü' => 154,
                '¢' => 155,
                '£' => 156,
                '¥' => 157,
                '₧' => 158,
                'ƒ' => 159,
                'á' => 160,
                'í' => 161,
                'ó' => 162,
                'ú' => 163,
                'ñ' => 164,
                'Ñ' => 165,
                'ª' => 166,
                'º' => 167,
                '¿' => 168,
                '⌐' => 169,
                '¬' => 170,
                '½' => 171,
                '¼' => 172,
                '¡' => 173,
                '«' => 174,
                '»' => 175,
                '░' => 176,
                '▒' => 177,
                '▓' => 178,
                '│' => 179,
                '┤' => 180,
                '╡' => 181,
                '╢' => 182,
                '╖' => 183,
                '╕' => 184,
                '╣' => 185,
                '║' => 186,
                '╗' => 187,
                '╝' => 188,
                '╜' => 189,
                '╛' => 190,
                '┐' => 191,
                '└' => 192,
                '┴' => 193,
                '┬' => 194,
                '├' => 195,
                '─' => 196,
                '┼' => 197,
                '╞' => 198,
                '╟' => 199,
                '╚' => 200,
                '╔' => 201,
                '╩' => 202,
                '╦' => 203,
                '╠' => 204,
                '═' => 205,
                '╬' => 206,
                '╧' => 207,
                '╨' => 208,
                '╤' => 209,
                '╥' => 210,
                '╙' => 211,
                '╘' => 212,
                '╒' => 213,
                '╓' => 214,
                '╫' => 215,
                '╪' => 216,
                '┘' => 217,
                '┌' => 218,
                '█' => 219,
                '▄' => 220,
                '▌' => 221,
                '▐' => 222,
                '▀' => 223,
                'α' => 224,
                'ß' => 225,
                'Γ' => 226,
                'π' => 227,
                'Σ' => 228,
                'σ' => 229,
                'µ' => 230,
                'τ' => 231,
                'Φ' => 232,
                'Θ' => 233,
                'Ω' => 234,
                'δ' => 235,
                '∞' => 236,
                'φ' => 237,
                'ε' => 238,
                '∩' => 239,
                '≡' => 240,
                '±' => 241,
                '≥' => 242,
                '≤' => 243,
                '⌠' => 244,
                '⌡' => 245,
                '÷' => 246,
                '≈' => 247,
                '°' => 248,
                '∙' => 249,
                '·' => 250,
                '√' => 251,
                'ⁿ' => 252,
                '²' => 253,
                '■' => 254,
            _ => 0,
        }
    }
}

impl crate::tilemap::TileType {
    /// The foreground color a tile is drawn with, in or out of view.
    pub fn fg(&self, config: &Config, is_visible: bool) -> (r: Rgb)
        ensures
            r == match (*self, is_visible) {
                (crate::tilemap::TileType::Wall, true) => config.wall.fg,
                (crate::tilemap::TileType::Wall, false) => config.wall.fog_fg,
                (crate::tilemap::TileType::Floor, true) => config.floor.fg,
                (crate::tilemap::TileType::Floor, false) => config.floor.fog_fg,
            },
    {
        match (self, is_visible) {
            (crate::tilemap::TileType::Wall, true) => config.wall.fg,
            (crate::tilemap::TileType::Wall, false) => config.wall.fog_fg,
            (crate::tilemap::TileType::Floor, true) => config.floor.fg,
            (crate::tilemap::TileType::Floor, false) => config.floor.fog_fg,
        }
    }

    /// The background color a tile is drawn with, in or out of view.
    pub fn bg(&self, config: &Config, is_visible: bool) -> (r: Rgb)
        ensures
            r == match (*self, is_visible) {
                (crate::tilemap::TileType::Wall, true) => config.wall.bg,
                (crate::tilemap::TileType::Wall, false) => config.wall.fog_bg,
                (crate::tilemap::TileType::Floor, true) => config.floor.bg,
                (crate::tilemap::TileType::Floor, false) => config.floor.fog_bg,
            },
    {
        match (self, is_visible) {
            (crate::tilemap::TileType::Wall, true) => config.wall.bg,
            (crate::tilemap::TileType::Wall, false) => config.wall.fog_bg,
            (crate::tilemap::TileType::Floor, true) => config.floor.bg,
            (crate::tilemap::TileType::Floor, false) => config.floor.fog_bg,
        }
    }

    /// The glyph code a tile is drawn with.
    pub fn glyph(&self, config: &Config) -> (r: u16)
        ensures
            r == match *self {
                crate::tilemap::TileType::Wall => config.wall.glyph,
                crate::tilemap::TileType::Floor => config.floor.glyph,
            },
    {
        match self {
            crate::tilemap::TileType::Wall => config.wall.glyph,
            crate::tilemap::TileType::Floor => config.floor.glyph,
        }
    }
}

/// Is `c` a hexadecimal digit?
pub open spec fn is_hex_digit(c: char) -> bool {
    (48 <= c as u32 <= 57) || (97 <= c as u32 <= 102) || (65 <= c as u32 <= 70)
}

/// The value of a hexadecimal digit; 0 for other characters.
pub open spec fn hex_digit_value(c: char) -> int {
    if 48 <= c as u32 <= 57 {
        c as u32 - 48
    } else if 97 <= c as u32 <= 102 {
        c as u32 - 87
    } else if 65 <= c as u32 <= 70 {
        c as u32 - 55
    } else {
        0
    }
}

/// A well-formed color code: a `#` followed by six hexadecimal digits.
pub open spec fn is_valid_color_code(s: Seq<char>) -> bool {
    s.len() == 7 && s[0] == '#' && forall|k: int| 1 <= k < 7 ==> is_hex_digit(#[trigger] s[k])
}

/// The color a well-formed `#rrggbb` code names.
pub open spec fn color_of(s: Seq<char>) -> Rgb
    recommends
        is_valid_color_code(s),
{
    Rgb {
        r: (hex_digit_value(s[1]) * 16 + hex_digit_value(s[2])) as u8,
        g: (hex_digit_value(s[3]) * 16 + hex_digit_value(s[4])) as u8,
        b: (hex_digit_value(s[5]) * 16 + hex_digit_value(s[6])) as u8,
    }
}

/// An absent color code is fine; a present one must be well formed.
pub open spec fn opt_code_valid(o: Option<String>) -> bool {
    match o {
        Some(s) => is_valid_color_code(s@),
        None => true,
    }
}

/// The color an optional code resolves to, with a fallback default.
pub open spec fn opt_color_value(o: Option<String>, default: Rgb) -> Rgb {
    match o {
        Some(s) => color_of(s@),
        None => default,
    }
}

/// What can go wrong while resolving a user configuration.
#[derive(Debug)]
pub enum ConfigParseError {
    /// The character has no codepage 437 glyph.
    UnrecognizedGlyph(char),
    /// The string is not a `#rrggbb` color code.
    BadColorCode(String),
}

/// A tile's appearance as the user writes it.
#[derive(Debug, Clone)]
pub struct TileUserConfig {
    pub glyph: char,
    pub fg: Option<String>,
    pub fog_fg: Option<String>,
    pub bg: Option<String>,
    pub fog_bg: Option<String>,
}

/// A text element's colors as the user writes them.
#[derive(Debug, Clone)]
pub struct TextUserConfig {
    pub fg: Option<String>,
    pub bg: Option<String>,
}

/// The whole configuration as the user writes it.
#[derive(Debug, Clone)]
pub struct UserConfig {
    pub post_scanlines: bool,
    pub post_burnin: Option<String>,
    pub default_fg: String,
    pub default_fog_fg: String,
    pub default_bg: String,
    pub default_fog_bg: String,
    pub ui: Option<TextUserConfig>,
    pub ui_title: Option<TextUserConfig>,
    pub ui_hp_bar: Option<TextUserConfig>,
    pub ui_tooltip: Option<TextUserConfig>,
    pub player: TileUserConfig,
    pub wall: TileUserConfig,
    pub floor: TileUserConfig,
    pub orc: TileUserConfig,
    pub goblin: TileUserConfig,
    pub health_potion: TileUserConfig,
}

/// A tile's resolved appearance.
#[derive(Debug, Clone, Copy, PartialEq, Eq, Structural)]
pub struct TileConfig {
    pub glyph: u16,
    pub fg: Rgb,
    pub fog_fg: Rgb,
    pub bg: Rgb,
    pub fog_bg: Rgb,
}

/// A text element's resolved colors.
#[derive(Debug, Clone, Copy, PartialEq, Eq, Structural)]
pub struct TextConfig {
    pub fg: Rgb,
    pub bg: Rgb,
}

/// The fully resolved configuration.
#[derive(Debug, Clone)]
pub struct Config {
    pub post_scanlines: bool,
    pub post_burnin: Option<Rgb>,
    pub bg: Rgb,
    pub ui: TextConfig,
    pub ui_title: TextConfig,
    pub ui_hp_bar: TextConfig,
    pub ui_tooltip: TextConfig,
    pub player: TileConfig,
    pub wall: TileConfig,
    pub floor: TileConfig,
    pub orc: TileConfig,
    pub goblin: TileConfig,
    pub health_potion: TileConfig,
}

/// The hexadecimal value of a digit character.
fn hex_digit(c: char) -> (r: Option<u8>)
    ensures
        match r {
            Some(v) => is_hex_digit(c) && v == hex_digit_value(c) && v <= 15,
            None => !is_hex_digit(c),
        },
{
    let u = c as u32;
    if 48 <= u && u <= 57 {
        Some((u - 48) as u8)
    } else if 97 <= u && u <= 102 {
        Some((u - 87) as u8)
    } else if 65 <= u && u <= 70 {
        Some((u - 55) as u8)
    } else {
        None
    }
}

/// Parse a character into its glyph code; characters outside codepage
/// 437 are rejected.
pub fn parse_glyph(glyph: char) -> (r: Result<u16, ConfigParseError>)
    ensures
        match r {
            Ok(g) => cp437_code(glyph) != 0 && g == cp437_code(glyph),
            Err(e) => cp437_code(glyph) == 0 && (e matches ConfigParseError::UnrecognizedGlyph(c)
                && c == glyph),
        },
{
    match to_cp437(glyph) {
        0 => Err(ConfigParseError::UnrecognizedGlyph(glyph)),
        x => Ok(x),
    }
}

/// Parse a `#rrggbb` color code; succeeds exactly on well-formed codes
/// and returns the code itself inside the error otherwise.
pub fn parse_color_code(code: String) -> (r: Result<Rgb, ConfigParseError>)
    ensures
        match r {
            Ok(c) => is_valid_color_code(code@) && c == color_of(code@),
            Err(e) => !is_valid_color_code(code@) && (e matches ConfigParseError::BadColorCode(s)
                && s@ == code@),
        },
{
    let s = code.as_str();
    if s.unicode_len() != 7 {
        return Err(ConfigParseError::BadColorCode(code));
    }
    if s.get_char(0) != '#' {
        return Err(ConfigParseError::BadColorCode(code));
    }
    let d1 = hex_digit(s.get_char(1));
    let d2 = hex_digit(s.get_char(2));
    let d3 = hex_digit(s.get_char(3));
    let d4 = hex_digit(s.get_char(4));
    let d5 = hex_digit(s.get_char(5));
    let d6 = hex_digit(s.get_char(6));
    match (d1, d2, d3, d4, d5, d6) {
        (Some(r1), Some(r2), Some(g1), Some(g2), Some(b1), Some(b2)) => {
            proof {
                assert forall|k: int| 1 <= k < 7 implies is_hex_digit(#[trigger] code@[k]) by {
                    assert(is_hex_digit(code@[1]) && is_hex_digit(code@[2]) && is_hex_digit(
                        code@[3],
                    ) && is_hex_digit(code@[4]) && is_hex_digit(code@[5]) && is_hex_digit(
                        code@[6],
                    ));
                }
            }
            Ok(Rgb { r: r1 * 16 + r2, g: g1 * 16 + g2, b: b1 * 16 + b2 })
        },
        _ => Err(ConfigParseError::BadColorCode(code)),
    }
}

/// Parse an optional color code, falling back to a default when absent.
pub fn parse_color_code_option(code_option: Option<String>, default: Rgb) -> (r: Result<
    Rgb,
    ConfigParseError,
>)
    ensures
        match r {
            Ok(c) => opt_code_valid(code_option) && c == opt_color_value(code_option, default),
            Err(e) => !opt_code_valid(code_option) && (e matches ConfigParseError::BadColorCode(s)
                && (code_option matches Some(orig) && s@ == orig@)),
        },
{
    match code_option {
        Some(code) => parse_color_code(code),
        None => Ok(default),
    }
}

/// All color codes of a tile entry are well formed and its glyph is in
/// the codepage.
pub open spec fn tile_user_valid(t: TileUserConfig) -> bool {
    &&& cp437_code(t.glyph) != 0
    &&& opt_code_valid(t.fg)
    &&& opt_code_valid(t.fog_fg)
    &&& opt_code_valid(t.bg)
    &&& opt_code_valid(t.fog_bg)
}

/// The tile configuration a valid user entry resolves to.
pub open spec fn tile_config_of(t: TileUserConfig, defaults: TileConfig) -> TileConfig {
    TileConfig {
        glyph: cp437_code(t.glyph),
        fg: opt_color_value(t.fg, defaults.fg),
        fog_fg: opt_color_value(t.fog_fg, defaults.fog_fg),
        bg: opt_color_value(t.bg, defaults.bg),
        fog_bg: opt_color_value(t.fog_bg, defaults.fog_bg),
    }
}

/// All color codes of an optional text entry are well formed.
pub open spec fn text_user_valid(o: Option<TextUserConfig>) -> bool {
    match o {
        Some(t) => opt_code_valid(t.fg) && opt_code_valid(t.bg),
        None => true,
    }
}

/// The text configuration an optional user entry resolves to.
pub open spec fn text_config_of(o: Option<TextUserConfig>, defaults: TextConfig) -> TextConfig {
    match o {
        Some(t) => TextConfig {
            fg: opt_color_value(t.fg, defaults.fg),
            bg: opt_color_value(t.bg, defaults.bg),
        },
        None => defaults,
    }
}

impl TileConfig {
    /// Resolve one tile entry against the defaults; fails exactly when
    /// the glyph or one of the color codes is bad.
    pub fn try_from_user_config(value: TileUserConfig, defaults: &TileConfig) -> (r: Result<
        TileConfig,
        ConfigParseError,
    >)
        ensures
            match r {
                Ok(tc) => tile_user_valid(value) && tc == tile_config_of(value, *defaults),
                Err(e) => !tile_user_valid(value) && match e {
                    ConfigParseError::UnrecognizedGlyph(g) => cp437_code(g) == 0,
                    ConfigParseError::BadColorCode(s) => !is_valid_color_code(s@),
                },
            },
    {
        let TileUserConfig { glyph, fg, fog_fg, bg, fog_bg } = value;
        let glyph = match parse_glyph(glyph) {
            Ok(g) => g,
            Err(e) => {
                return Err(e);
            },
        };
        let fg = match parse_color_code_option(fg, defaults.fg) {
            Ok(c) => c,
            Err(e) => {
                return Err(e);
            },
        };
        let fog_fg = match parse_color_code_option(fog_fg, defaults.fog_fg) {
            Ok(c) => c,
            Err(e) => {
                return Err(e);
            },
        };
        let bg = match parse_color_code_option(bg, defaults.bg) {
            Ok(c) => c,
            Err(e) => {
                return Err(e);
            },
        };
        let fog_bg = match parse_color_code_option(fog_bg, defaults.fog_bg) {
            Ok(c) => c,
            Err(e) => {
                return Err(e);
            },
        };
        Ok(TileConfig { glyph, fg, fog_fg, bg, fog_bg })
    }

    /// The renderable component drawn for this tile, at a given draw
    /// order.
    pub fn to_renderable_with_render_order(&self, render_order: i32) -> (r: Renderable)
        ensures
            r.glyph == self.glyph,
            r.fg == self.fg,
            r.bg == self.bg,
            r.render_order == render_order,
    {
        Renderable { glyph: self.glyph, fg: self.fg, bg: self.bg, render_order }
    }
}

impl TextConfig {
    /// Resolve one optional text entry against the defaults; fails
    /// exactly when a present color code is bad.
    pub fn try_from_option_user_config(value: Option<TextUserConfig>, defaults: &TextConfig) -> (r:
        Result<TextConfig, ConfigParseError>)
        ensures
            match r {
                Ok(tc) => text_user_valid(value) && tc == text_config_of(value, *defaults),
                Err(e) => !text_user_valid(value) && (e matches ConfigParseError::BadColorCode(s)
                    && !is_valid_color_code(s@)),
            },
    {
        match value {
            Some(value) => {
                let TextUserConfig { fg, bg } = value;
                let fg = match parse_color_code_option(fg, defaults.fg) {
                    Ok(c) => c,
                    Err(e) => {
                        return Err(e);
                    },
                };
                let bg = match parse_color_code_option(bg, defaults.bg) {
                    Ok(c) => c,
                    Err(e) => {
                        return Err(e);
                    },
                };
                Ok(TextConfig { fg, bg })
            },
            None => Ok(defaults.clone()),
        }
    }
}

/// Every part of the user configuration resolves.
pub open spec fn user_config_valid(u: UserConfig) -> bool {
    &&& is_valid_color_code(u.default_fg@)
    &&& is_valid_color_code(u.default_fog_fg@)
    &&& is_valid_color_code(u.default_bg@)
    &&& is_valid_color_code(u.default_fog_bg@)
    &&& opt_code_valid(u.post_burnin)
    &&& text_user_valid(u.ui)
    &&& text_user_valid(u.ui_title)
    &&& text_user_valid(u.ui_hp_bar)
    &&& text_user_valid(u.ui_tooltip)
    &&& tile_user_valid(u.player)
    &&& tile_user_valid(u.wall)
    &&& tile_user_valid(u.floor)
    &&& tile_user_valid(u.orc)
    &&& tile_user_valid(u.goblin)
    &&& tile_user_valid(u.health_potion)
}

/// The tile defaults implied by the top-level default colors: a zero
/// glyph and the four default colors.
pub open spec fn tile_defaults_of(u: UserConfig) -> TileConfig {
    TileConfig {
        glyph: 0,
        fg: color_of(u.default_fg@),
        fog_fg: color_of(u.default_fog_fg@),
        bg: color_of(u.default_bg@),
        fog_bg: color_of(u.default_fog_bg@),
    }
}

/// The text defaults implied by the top-level default colors.
pub open spec fn text_defaults_of(u: UserConfig) -> TextConfig {
    TextConfig { fg: color_of(u.default_fg@), bg: color_of(u.default_bg@) }
}

/// The configuration a valid user configuration resolves to.
pub open spec fn config_of(u: UserConfig) -> Config {
    Config {
        post_scanlines: u.post_scanlines,
        post_burnin: match u.post_burnin {
            Some(s) => Some(color_of(s@)),
            None => None,
        },
        bg: color_of(u.default_bg@),
        ui: text_config_of(u.ui, text_defaults_of(u)),
        ui_title: text_config_of(u.ui_title, text_defaults_of(u)),
        ui_hp_bar: text_config_of(u.ui_hp_bar, text_defaults_of(u)),
        ui_tooltip: text_config_of(u.ui_tooltip, text_defaults_of(u)),
        player: tile_config_of(u.player, tile_defaults_of(u)),
        wall: tile_config_of(u.wall, tile_defaults_of(u)),
        floor: tile_config_of(u.floor, tile_defaults_of(u)),
        orc: tile_config_of(u.orc, tile_defaults_of(u)),
        goblin: tile_config_of(u.goblin, tile_defaults_of(u)),
        health_potion: tile_config_of(u.health_potion, tile_defaults_of(u)),
    }
}

impl Config {
    /// Resolve a whole user configuration: succeeds exactly when every
    /// glyph is in the codepage and every color code is well formed, and
    /// then yields exactly the resolved configuration.
    pub fn try_from_user_config(value: UserConfig) -> (r: Result<Config, ConfigParseError>)
        ensures
            match r {
                Ok(c) => user_config_valid(value) && c == config_of(value),
                Err(e) => !user_config_valid(value) && match e {
                    ConfigParseError::UnrecognizedGlyph(g) => cp437_code(g) == 0,
                    ConfigParseError::BadColorCode(s) => !is_valid_color_code(s@),
                },
            },
    {
        let UserConfig {
            post_scanlines,
            post_burnin,
            default_fg,
            default_fog_fg,
            default_bg,
            default_fog_bg,
            ui,
            ui_title,
            ui_hp_bar,
            ui_tooltip,
            player,
            wall,
            floor,
            orc,
            goblin,
            health_potion,
        } = value;

        let fg = match parse_color_code(default_fg) {
            Ok(c) => c,
            Err(e) => {
                return Err(e);
            },
        };
        let fog_fg = match parse_color_code(default_fog_fg) {
            Ok(c) => c,
            Err(e) => {
                return Err(e);
            },
        };
        let bg = match parse_color_code(default_bg) {
            Ok(c) => c,
            Err(e) => {
                return Err(e);
            },
        };
        let fog_bg = match parse_color_code(default_fog_bg) {
            Ok(c) => c,
            Err(e) => {
                return Err(e);
            },
        };
        let tile_defaults = TileConfig { glyph: 0, fg, fog_fg, bg, fog_bg };
        let text_defaults = TextConfig { fg: tile_defaults.fg, bg: tile_defaults.bg };

        let post_burnin = match post_burnin {
            Some(s) => match parse_color_code(s) {
                Ok(c) => Some(c),
                Err(e) => {
                    return Err(e);
                },
            },
            None => None,
        };

        let ui = match TextConfig::try_from_option_user_config(ui, &text_defaults) {
            Ok(c) => c,
            Err(e) => {
                return Err(e);
            },
        };
        let ui_title = match TextConfig::try_from_option_user_config(ui_title, &text_defaults) {
            Ok(c) => c,
            Err(e) => {
                return Err(e);
            },
        };
        let ui_hp_bar = match TextConfig::try_from_option_user_config(ui_hp_bar, &text_defaults) {
            Ok(c) => c,
            Err(e) => {
                return Err(e);
            },
        };
        let ui_tooltip = match TextConfig::try_from_option_user_config(ui_tooltip, &text_defaults) {
            Ok(c) => c,
            Err(e) => {
                return Err(e);
            },
        };
        let player = match TileConfig::try_from_user_config(player, &tile_defaults) {
            Ok(c) => c,
            Err(e) => {
                return Err(e);
            },
        };
        let wall = match TileConfig::try_from_user_config(wall, &tile_defaults) {
            Ok(c) => c,
            Err(e) => {
                return Err(e);
            },
        };
        let floor = match TileConfig::try_from_user_config(floor, &tile_defaults) {
            Ok(c) => c,
            Err(e) => {
                return Err(e);
            },
        };
        let orc = match TileConfig::try_from_user_config(orc, &tile_defaults) {
            Ok(c) => c,
            Err(e) => {
                return Err(e);
            },
        };
        let goblin = match TileConfig::try_from_user_config(goblin, &tile_defaults) {
            Ok(c) => c,
            Err(e) => {
                return Err(e);
            },
        };
        let health_potion = match TileConfig::try_from_user_config(health_potion, &tile_defaults) {
            Ok(c) => c,
            Err(e) => {
                return Err(e);
            },
        };

        Ok(
            Config {
                post_scanlines,
                post_burnin,
                bg: tile_defaults.bg,
                ui,
                ui_title,
                ui_hp_bar,
                ui_tooltip,
                player,
                wall,
                floor,
                orc,
                goblin,
                health_potion,
            },
        )
    }
}

/// The built-in appearance: the palette and glyphs the game uses when no
/// configuration file overrides them.
pub fn default_user_config() -> (r: UserConfig)
    ensures
        !r.post_scanlines,
        r.post_burnin matches Some(s) && s@ == "#8d6268"@,
        r.default_fg@ == "#c5ccb8"@,
        r.default_fog_fg@ == "#9a9a97"@,
        r.default_bg@ == "#0c0c0c"@,
        r.default_fog_bg@ == "#0c0c0c"@,
        r.ui matches None,
        r.ui_title matches Some(t) && (t.fg matches Some(s) && s@ == "#be955c"@) && (t.bg matches None),
        r.ui_hp_bar matches Some(t) && (t.fg matches Some(s) && s@ == "#9a4f50"@) && (t.bg matches None),
        r.ui_tooltip matches Some(t) && (t.fg matches Some(s) && s@ == "#c5ccb8"@) && (t.bg matches Some(s2) && s2@ == "#433455"@),
        r.player.glyph == '@' && (r.player.fg matches Some(s) && s@ == "#c28d75"@)
            && (r.player.fog_fg matches None) && (r.player.bg matches None)
            && (r.player.fog_bg matches None),
        r.wall.glyph == '#' && (r.wall.fg matches Some(s) && s@ == "#387080"@) && (
        r.wall.fog_fg matches Some(s2) && s2@ == "#5d6872"@) && (r.wall.bg matches None)
            && (r.wall.fog_bg matches None),
        r.floor.glyph == '.' && (r.floor.fg matches Some(s) && s@ == "#be955c"@) && (
        r.floor.fog_fg matches Some(s2) && s2@ == "#6f6776"@) && (r.floor.bg matches None)
            && (r.floor.fog_bg matches None),
        r.orc.glyph == 'o' && (r.orc.fg matches Some(s) && s@ == "#9a4f50"@)
            && (r.orc.fog_fg matches None) && (r.orc.bg matches None) && (r.orc.fog_bg matches None),
        r.goblin.glyph == 'g' && (r.goblin.fg matches Some(s) && s@ == "#9a4f50"@)
            && (r.goblin.fog_fg matches None) && (r.goblin.bg matches None)
            && (r.goblin.fog_bg matches None),
        r.health_potion.glyph == '\u{a1}' && (r.health_potion.fg matches Some(s) && s@
            == "#8b5580"@) && (r.health_potion.fog_fg matches None)
            && (r.health_potion.bg matches None) && (r.health_potion.fog_bg matches None),
{
    UserConfig {
        post_scanlines: false,
        post_burnin: Some(String::from_str("#8d6268")),

        default_fg: String::from_str("#c5ccb8"),
        default_fog_fg: String::from_str("#9a9a97"),
        default_bg: String::from_str("#0c0c0c"),
        default_fog_bg: String::from_str("#0c0c0c"),

        ui: None,
        ui_title: Some(TextUserConfig { fg: Some(String::from_str("#be955c")), bg: None }),
        ui_hp_bar: Some(TextUserConfig { fg: Some(String::from_str("#9a4f50")), bg: None }),
        ui_tooltip: Some(
            TextUserConfig {
                fg: Some(String::from_str("#c5ccb8")),
                bg: Some(String::from_str("#433455")),
            },
        ),

        player: TileUserConfig {
            glyph: '@',
            fg: Some(String::from_str("#c28d75")),
            fog_fg: None,
            bg: None,
            fog_bg: None,
        },
        wall: TileUserConfig {
            glyph: '#',
            fg: Some(String::from_str("#387080")),
            fog_fg: Some(String::from_str("#5d6872")),
            bg: None,
            fog_bg: None,
        },
        floor: TileUserConfig {
            glyph: '.',
            fg: Some(String::from_str("#be955c")),
            fog_fg: Some(String::from_str("#6f6776")),
            bg: None,
            fog_bg: None,
        },
        orc: TileUserConfig {
            glyph: 'o',
            fg: Some(String::from_str("#9a4f50")),
            fog_fg: None,
            bg: None,
            fog_bg: None,
        },
        goblin: TileUserConfig {
            glyph: 'g',
            fg: Some(String::from_str("#9a4f50")),
            fog_fg: None,
            bg: None,
            fog_bg: None,
        },

        health_potion: TileUserConfig {
            glyph: '\u{a1}',
            fg: Some(String::from_str("#8b5580")),
            fog_fg: None,
            bg: None,
            fog_bg: None,
        },
    }
}

} // verus!
