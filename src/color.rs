//! Terminal colours: their hexadecimal and grayscale forms and their ANSI
//! escape codes, computed in integers.

use vstd::prelude::*;
use vstd::string::StringSliceAdditionalSpecFns;
use crate::text::{decimal, decimal_text, hex_byte, hex_digit, hex_text};
use vstd::utf8::{encode_utf8, is_ascii_chars, is_ascii_chars_encode_utf8};

verus! {

/// A colour for terminal output.
#[derive(Clone, Copy, Debug, PartialEq)]
pub enum Color {
    Red,
    Green,
    Yellow,
    Blue,
    Magenta,
    Cyan,
    White,
    Black,
    BrightRed,
    BrightGreen,
    BrightYellow,
    BrightBlue,
    BrightMagenta,
    BrightCyan,
    BrightWhite,
    BrightBlack,
    Orange,
    Pink,
    Teal,
    Violet,
    Indigo,
    Lime,
    Turquoise,
    Coral,
    Crimson,
    Mint,
    Gold,
    Silver,
    Bronze,
    LightGray,
    DarkGray,
    SlateGray,
    Charcoal,
    /// Red, green and blue channels.
    Rgb(u8, u8, u8),
    /// Red, green, blue and alpha channels.
    Rgba(u8, u8, u8, u8),
    /// A hexadecimal colour code such as `#1A2B3C`.
    Hex(&'static str),
    /// An entry of the 256-colour ANSI palette.
    Indexed(u8),
    /// A shade of the palette's gray ramp, from 0 to 23.
    Gray(u8),
}

impl Default for Color {
    fn default() -> (r: Color)
        ensures
            r == Color::White,
    {
        Color::White
    }
}

// ---------------------------------------------------------------------------
// Digits.

/// The value of an ASCII hexadecimal digit, of either case.
pub open spec fn digit_value(b: u8) -> Option<u8> {
    if 48 <= b <= 57 {
        Some((b - 48) as u8)
    } else if 65 <= b <= 70 {
        Some((b - 55) as u8)
    } else if 97 <= b <= 102 {
        Some((b - 87) as u8)
    } else {
        None
    }
}

/// What `u8::from_str_radix(_, 16)` gives for the two bytes `a`, `b`: an
/// optional `+` sign followed by digits.
pub open spec fn pair_value(a: u8, b: u8) -> Option<u8> {
    if a == 43 {
        digit_value(b)
    } else {
        match (digit_value(a), digit_value(b)) {
            (Some(x), Some(y)) => Some((16 * x + y) as u8),
            _ => None,
        }
    }
}

fn digit_of(b: u8) -> (r: Option<u8>)
    ensures
        r == digit_value(b),
{
    if 48 <= b && b <= 57 {
        Some(b - 48)
    } else if 65 <= b && b <= 70 {
        Some(b - 55)
    } else if 97 <= b && b <= 102 {
        Some(b - 87)
    } else {
        None
    }
}

/// Parses two bytes as a hexadecimal number, as `u8::from_str_radix` would.
pub fn parse_pair(a: u8, b: u8) -> (r: Option<u8>)
    ensures
        r == pair_value(a, b),
{
    if a == 43 {
        return digit_of(b);
    }
    match (digit_of(a), digit_of(b)) {
        (Some(x), Some(y)) => Some(16 * x + y),
        _ => None,
    }
}

// ---------------------------------------------------------------------------
// Forms of a colour.

/// The bytes of a hexadecimal colour code.
pub open spec fn code_bytes(h: &str) -> Seq<u8> {
    h.spec_bytes()
}

/// The channels that a `#RRGGBB` or `#RRGGBBAA` code spells, the alpha being
/// present only for the longer form.
pub open spec fn code_channels(b: Seq<u8>) -> Option<(u8, u8, u8, Option<u8>)> {
    if b.len() == 7 || b.len() == 9 {
        match (pair_value(b[1], b[2]), pair_value(b[3], b[4]), pair_value(b[5], b[6])) {
            (Some(r), Some(g), Some(bl)) => if b.len() == 9 {
                match pair_value(b[7], b[8]) {
                    Some(a) => Some((r, g, bl, Some(a))),
                    None => None,
                }
            } else {
                Some((r, g, bl, None))
            },
            _ => None,
        }
    } else {
        None
    }
}

/// The colour that a hexadecimal code spells, if it spells one.
pub open spec fn color_of_code(b: Seq<u8>) -> Option<Color> {
    match code_channels(b) {
        Some((r, g, bl, Some(a))) => Some(Color::Rgba(r, g, bl, a)),
        Some((r, g, bl, None)) => Some(Color::Rgb(r, g, bl)),
        None => None,
    }
}

/// The mean of three channels, rounded down.
pub open spec fn mean3(r: u8, g: u8, b: u8) -> u8 {
    ((r as int + g as int + b as int) / 3) as u8
}

/// Eleven times a gray step, wrapped to a byte.
pub open spec fn gray_level(g: u8) -> u8 {
    ((g as int * 11) % 256) as u8
}

/// `#RRGGBB` for three channels.
pub open spec fn rgb_code(r: u8, g: u8, b: u8) -> Seq<char> {
    "#"@ + hex_text(r) + hex_text(g) + hex_text(b)
}

/// The hexadecimal code of a colour, where it has one.
pub open spec fn hex_of(c: Color) -> Option<Seq<char>> {
    match c {
        Color::Rgb(r, g, b) => Some(rgb_code(r, g, b)),
        Color::Rgba(r, g, b, a) => Some(rgb_code(r, g, b) + hex_text(a)),
        Color::Hex(h) => Some(h@),
        Color::Indexed(n) => if n < 8 {
            Some(palette_code(n))
        } else if n >= 232 {
            Some(rgb_code(((n - 232) * 11) as u8, ((n - 232) * 11) as u8, ((n - 232) * 11) as u8))
        } else {
            None
        },
        Color::Gray(g) => Some(rgb_code(gray_level(g), gray_level(g), gray_level(g))),
        Color::Red => Some("#FF0000"@),
        Color::Green => Some("#00FF00"@),
        Color::Yellow => Some("#FFFF00"@),
        Color::Blue => Some("#0000FF"@),
        Color::Magenta => Some("#FF00FF"@),
        Color::Cyan => Some("#00FFFF"@),
        Color::White => Some("#FFFFFF"@),
        Color::Black => Some("#000000"@),
        Color::BrightRed => Some("#FF6666"@),
        Color::BrightGreen => Some("#66FF66"@),
        Color::BrightYellow => Some("#FFFF66"@),
        Color::BrightBlue => Some("#6666FF"@),
        Color::BrightMagenta => Some("#FF66FF"@),
        Color::BrightCyan => Some("#66FFFF"@),
        Color::BrightWhite => Some("#FFFFFF"@),
        Color::BrightBlack => Some("#333333"@),
        Color::Orange => Some("#FFA500"@),
        Color::Pink => Some("#FFC0CB"@),
        Color::Teal => Some("#008080"@),
        Color::Violet => Some("#EE82EE"@),
        Color::Indigo => Some("#4B0082"@),
        Color::Lime => Some("#00FF00"@),
        Color::Turquoise => Some("#40E0D0"@),
        Color::Coral => Some("#FF7F50"@),
        Color::Crimson => Some("#DC143C"@),
        Color::Mint => Some("#98FF98"@),
        Color::Gold => Some("#FFD700"@),
        Color::Silver => Some("#C0C0C0"@),
        Color::Bronze => Some("#CD7F32"@),
        Color::LightGray => Some("#CCCCCC"@),
        Color::DarkGray => Some("#404040"@),
        Color::SlateGray => Some("#708090"@),
        Color::Charcoal => Some("#333333"@),
    }
}

/// The hexadecimal code of one of the eight basic palette entries.
pub open spec fn palette_code(n: u8) -> Seq<char> {
    if n == 0 {
        "#000000"@
    } else if n == 1 {
        "#FF0000"@
    } else if n == 2 {
        "#00FF00"@
    } else if n == 3 {
        "#FFFF00"@
    } else if n == 4 {
        "#0000FF"@
    } else if n == 5 {
        "#FF00FF"@
    } else if n == 6 {
        "#00FFFF"@
    } else {
        "#FFFFFF"@
    }
}

/// The gray of one of the eight basic palette entries.
pub open spec fn palette_gray(n: u8) -> u8 {
    if n == 0 {
        0
    } else if n == 1 {
        76
    } else if n == 2 {
        149
    } else if n == 3 {
        225
    } else if n == 4 {
        29
    } else if n == 5 {
        102
    } else if n == 6 {
        178
    } else {
        255
    }
}

/// The grayscale intensity of a colour, where it has one.
pub open spec fn gray_of(c: Color) -> Option<u8> {
    match c {
        Color::Rgb(r, g, b) => Some(mean3(r, g, b)),
        Color::Rgba(r, g, b, _) => Some(mean3(r, g, b)),
        Color::Gray(g) => Some(gray_level(g)),
        Color::Indexed(n) => if n < 8 {
            Some(palette_gray(n))
        } else if n >= 232 {
            Some(((n - 232) * 11) as u8)
        } else {
            Some(128)
        },
        Color::Hex(h) => match code_channels(code_bytes(h)) {
            Some((r, g, b, _)) => Some(mean3(r, g, b)),
            None => None,
        },
        Color::Red => Some(76),
        Color::Green => Some(149),
        Color::Yellow => Some(225),
        Color::Blue => Some(29),
        Color::Magenta => Some(102),
        Color::Cyan => Some(178),
        Color::White => Some(255),
        Color::Black => Some(0),
        Color::BrightRed => Some(100),
        Color::BrightGreen => Some(170),
        Color::BrightYellow => Some(240),
        Color::BrightBlue => Some(60),
        Color::BrightMagenta => Some(130),
        Color::BrightCyan => Some(200),
        Color::BrightWhite => Some(255),
        Color::BrightBlack => Some(30),
        Color::Orange => Some(140),
        Color::Pink => Some(180),
        Color::Teal => Some(100),
        Color::Violet => Some(130),
        Color::Indigo => Some(60),
        Color::Lime => Some(149),
        Color::Turquoise => Some(140),
        Color::Coral => Some(120),
        Color::Crimson => Some(80),
        Color::Mint => Some(160),
        Color::Gold => Some(200),
        Color::Silver => Some(190),
        Color::Bronze => Some(110),
        Color::LightGray => Some(200),
        Color::DarkGray => Some(70),
        Color::SlateGray => Some(120),
        Color::Charcoal => Some(50),
    }
}

/// An ANSI sequence `ESC [ <prefix> <n> m`.
pub open spec fn sgr(prefix: Seq<char>, n: u8) -> Seq<char> {
    prefix + decimal_text(n) + "m"@
}

/// An ANSI true-colour sequence `ESC [ <prefix> r ; g ; b m`.
pub open spec fn sgr_rgb(prefix: Seq<char>, r: u8, g: u8, b: u8) -> Seq<char> {
    prefix + decimal_text(r) + ";"@ + decimal_text(g) + ";"@ + decimal_text(b) + "m"@
}

/// The smaller of a gray step and 23, moved onto the palette's gray ramp.
pub open spec fn ramp_index(g: u8) -> u8 {
    if g < 23 {
        (232 + g) as u8
    } else {
        255
    }
}

/// The channel that two hexadecimal bytes spell, zero where they spell none.
pub open spec fn channel_or_zero(a: u8, b: u8) -> u8 {
    match pair_value(a, b) {
        Some(v) => v,
        None => 0,
    }
}

/// The ANSI code that sets a colour as foreground, for every colour but a
/// hexadecimal code.
pub open spec fn foreground_of(c: Color) -> Option<Seq<char>> {
    match c {
        Color::Rgb(r, g, b) => Some(sgr_rgb("\x1b[38;2;"@, r, g, b)),
        Color::Rgba(r, g, b, _) => Some(sgr_rgb("\x1b[38;2;"@, r, g, b)),
        Color::Indexed(n) => Some(sgr("\x1b[38;5;"@, n)),
        Color::Gray(g) => Some(sgr("\x1b[38;5;"@, ramp_index(g))),
        Color::Hex(_) => None,
        Color::Red => Some("\x1b[31m"@),
        Color::Green => Some("\x1b[32m"@),
        Color::Yellow => Some("\x1b[33m"@),
        Color::Blue => Some("\x1b[34m"@),
        Color::Magenta => Some("\x1b[35m"@),
        Color::Cyan => Some("\x1b[36m"@),
        Color::White => Some("\x1b[37m"@),
        Color::Black => Some("\x1b[30m"@),
        Color::BrightRed => Some("\x1b[91m"@),
        Color::BrightGreen => Some("\x1b[92m"@),
        Color::BrightYellow => Some("\x1b[93m"@),
        Color::BrightBlue => Some("\x1b[94m"@),
        Color::BrightMagenta => Some("\x1b[95m"@),
        Color::BrightCyan => Some("\x1b[96m"@),
        Color::BrightWhite => Some("\x1b[97m"@),
        Color::BrightBlack => Some("\x1b[90m"@),
        Color::Orange => Some("\x1b[38;5;208m"@),
        Color::Pink => Some("\x1b[38;5;213m"@),
        Color::Teal => Some("\x1b[38;5;37m"@),
        Color::Violet => Some("\x1b[38;5;177m"@),
        Color::Indigo => Some("\x1b[38;5;54m"@),
        Color::Lime => Some("\x1b[38;5;154m"@),
        Color::Turquoise => Some("\x1b[38;5;80m"@),
        Color::Coral => Some("\x1b[38;5;203m"@),
        Color::Crimson => Some("\x1b[38;5;161m"@),
        Color::Mint => Some("\x1b[38;5;121m"@),
        Color::Gold => Some("\x1b[38;5;220m"@),
        Color::Silver => Some("\x1b[38;5;250m"@),
        Color::Bronze => Some("\x1b[38;5;136m"@),
        Color::LightGray => Some("\x1b[38;5;250m"@),
        Color::DarkGray => Some("\x1b[38;5;238m"@),
        Color::SlateGray => Some("\x1b[38;5;241m"@),
        Color::Charcoal => Some("\x1b[38;5;232m"@),
    }
}

/// The ANSI code that sets a colour as background.
pub open spec fn background_of(c: Color) -> Seq<char> {
    match c {
        Color::Rgb(r, g, b) => sgr_rgb("\x1b[48;2;"@, r, g, b),
        Color::Rgba(r, g, b, _) => sgr_rgb("\x1b[48;2;"@, r, g, b),
        Color::Indexed(n) => sgr("\x1b[48;5;"@, n),
        Color::Gray(g) => sgr("\x1b[48;5;"@, ramp_index(g)),
        Color::Hex(h) => if code_bytes(h).len() == 6 {
            sgr_rgb(
                "\x1b[48;2;"@,
                channel_or_zero(code_bytes(h)[0], code_bytes(h)[1]),
                channel_or_zero(code_bytes(h)[2], code_bytes(h)[3]),
                channel_or_zero(code_bytes(h)[4], code_bytes(h)[5]),
            )
        } else {
            "\x1b[49m"@
        },
        Color::Red => "\x1b[41m"@,
        Color::Green => "\x1b[42m"@,
        Color::Yellow => "\x1b[43m"@,
        Color::Blue => "\x1b[44m"@,
        Color::Magenta => "\x1b[45m"@,
        Color::Cyan => "\x1b[46m"@,
        Color::White => "\x1b[47m"@,
        Color::Black => "\x1b[40m"@,
        Color::BrightRed => "\x1b[101m"@,
        Color::BrightGreen => "\x1b[102m"@,
        Color::BrightYellow => "\x1b[103m"@,
        Color::BrightBlue => "\x1b[104m"@,
        Color::BrightMagenta => "\x1b[105m"@,
        Color::BrightCyan => "\x1b[106m"@,
        Color::BrightWhite => "\x1b[107m"@,
        Color::BrightBlack => "\x1b[100m"@,
        Color::Orange => "\x1b[48;5;208m"@,
        Color::Pink => "\x1b[48;5;213m"@,
        Color::Teal => "\x1b[48;5;37m"@,
        Color::Violet => "\x1b[48;5;177m"@,
        Color::Indigo => "\x1b[48;5;54m"@,
        Color::Lime => "\x1b[48;5;154m"@,
        Color::Turquoise => "\x1b[48;5;80m"@,
        Color::Coral => "\x1b[48;5;203m"@,
        Color::Crimson => "\x1b[48;5;161m"@,
        Color::Mint => "\x1b[48;5;121m"@,
        Color::Gold => "\x1b[48;5;220m"@,
        Color::Silver => "\x1b[48;5;250m"@,
        Color::Bronze => "\x1b[48;5;136m"@,
        Color::LightGray => "\x1b[48;5;250m"@,
        Color::DarkGray => "\x1b[48;5;238m"@,
        Color::SlateGray => "\x1b[48;5;241m"@,
        Color::Charcoal => "\x1b[48;5;232m"@,
    }
}

fn rgb_text(r: u8, g: u8, b: u8) -> (s: String)
    ensures
        s@ == rgb_code(r, g, b),
{
    "#".to_owned().concat(hex_byte(r).as_str()).concat(hex_byte(g).as_str()).concat(
        hex_byte(b).as_str(),
    )
}

fn sgr_text(prefix: &str, n: u8) -> (s: String)
    ensures
        s@ == sgr(prefix@, n),
{
    prefix.to_owned().concat(decimal(n).as_str()).concat("m")
}

fn sgr_rgb_text(prefix: &str, r: u8, g: u8, b: u8) -> (s: String)
    ensures
        s@ == sgr_rgb(prefix@, r, g, b),
{
    prefix.to_owned().concat(decimal(r).as_str()).concat(";").concat(decimal(g).as_str()).concat(
        ";",
    ).concat(decimal(b).as_str()).concat("m")
}

/// The channels spelled by a `#RRGGBB` or `#RRGGBBAA` code.
fn parse_code(hex: &str) -> (r: Option<(u8, u8, u8, Option<u8>)>)
    ensures
        r == code_channels(code_bytes(hex)),
{
    let b = hex.as_bytes();
    if b.len() != 7 && b.len() != 9 {
        return None;
    }
    let r = match parse_pair(b[1], b[2]) {
        Some(v) => v,
        None => return None,
    };
    let g = match parse_pair(b[3], b[4]) {
        Some(v) => v,
        None => return None,
    };
    let bl = match parse_pair(b[5], b[6]) {
        Some(v) => v,
        None => return None,
    };
    if b.len() == 9 {
        match parse_pair(b[7], b[8]) {
            Some(a) => Some((r, g, bl, Some(a))),
            None => None,
        }
    } else {
        Some((r, g, bl, None))
    }
}

fn palette_text(n: u8) -> (s: String)
    requires
        n < 8,
    ensures
        s@ == palette_code(n),
{
    if n == 0 {
        "#000000".to_owned()
    } else if n == 1 {
        "#FF0000".to_owned()
    } else if n == 2 {
        "#00FF00".to_owned()
    } else if n == 3 {
        "#FFFF00".to_owned()
    } else if n == 4 {
        "#0000FF".to_owned()
    } else if n == 5 {
        "#FF00FF".to_owned()
    } else if n == 6 {
        "#00FFFF".to_owned()
    } else {
        "#FFFFFF".to_owned()
    }
}

fn palette_gray_of(n: u8) -> (g: u8)
    requires
        n < 8,
    ensures
        g == palette_gray(n),
{
    if n == 0 {
        0
    } else if n == 1 {
        76
    } else if n == 2 {
        149
    } else if n == 3 {
        225
    } else if n == 4 {
        29
    } else if n == 5 {
        102
    } else if n == 6 {
        178
    } else {
        255
    }
}

fn mean_of(r: u8, g: u8, b: u8) -> (m: u8)
    ensures
        m == mean3(r, g, b),
{
    ((r as u16 + g as u16 + b as u16) / 3) as u8
}

impl Color {
    /// The hexadecimal code of this colour, where it has one.
    pub fn to_hex(&self) -> (r: Option<String>)
        ensures
            match r {
                Some(s) => hex_of(*self) == Some(s@),
                None => hex_of(*self) is None,
            },
    {
        match *self {
            Color::Rgb(r, g, b) => Some(rgb_text(r, g, b)),
            Color::Rgba(r, g, b, a) => Some(rgb_text(r, g, b).concat(hex_byte(a).as_str())),
            Color::Hex(h) => Some(h.to_owned()),
            Color::Indexed(n) => {
                if n < 8 {
                    Some(palette_text(n))
                } else if n >= 232 {
                    let i = (n - 232) * 11;
                    Some(rgb_text(i, i, i))
                } else {
                    None
                }
            },
            Color::Gray(g) => {
                let i = g.wrapping_mul(11);
                Some(rgb_text(i, i, i))
            },
            Color::Red => Some("#FF0000".to_owned()),
            Color::Green => Some("#00FF00".to_owned()),
            Color::Yellow => Some("#FFFF00".to_owned()),
            Color::Blue => Some("#0000FF".to_owned()),
            Color::Magenta => Some("#FF00FF".to_owned()),
            Color::Cyan => Some("#00FFFF".to_owned()),
            Color::White => Some("#FFFFFF".to_owned()),
            Color::Black => Some("#000000".to_owned()),
            Color::BrightRed => Some("#FF6666".to_owned()),
            Color::BrightGreen => Some("#66FF66".to_owned()),
            Color::BrightYellow => Some("#FFFF66".to_owned()),
            Color::BrightBlue => Some("#6666FF".to_owned()),
            Color::BrightMagenta => Some("#FF66FF".to_owned()),
            Color::BrightCyan => Some("#66FFFF".to_owned()),
            Color::BrightWhite => Some("#FFFFFF".to_owned()),
            Color::BrightBlack => Some("#333333".to_owned()),
            Color::Orange => Some("#FFA500".to_owned()),
            Color::Pink => Some("#FFC0CB".to_owned()),
            Color::Teal => Some("#008080".to_owned()),
            Color::Violet => Some("#EE82EE".to_owned()),
            Color::Indigo => Some("#4B0082".to_owned()),
            Color::Lime => Some("#00FF00".to_owned()),
            Color::Turquoise => Some("#40E0D0".to_owned()),
            Color::Coral => Some("#FF7F50".to_owned()),
            Color::Crimson => Some("#DC143C".to_owned()),
            Color::Mint => Some("#98FF98".to_owned()),
            Color::Gold => Some("#FFD700".to_owned()),
            Color::Silver => Some("#C0C0C0".to_owned()),
            Color::Bronze => Some("#CD7F32".to_owned()),
            Color::LightGray => Some("#CCCCCC".to_owned()),
            Color::DarkGray => Some("#404040".to_owned()),
            Color::SlateGray => Some("#708090".to_owned()),
            Color::Charcoal => Some("#333333".to_owned()),
        }
    }

    /// The grayscale intensity of this colour, where it has one.
    pub fn to_grayscale(&self) -> (r: Option<u8>)
        ensures
            r == gray_of(*self),
    {
        match *self {
            Color::Rgb(r, g, b) => Some(mean_of(r, g, b)),
            Color::Rgba(r, g, b, _) => Some(mean_of(r, g, b)),
            Color::Gray(g) => Some(g.wrapping_mul(11)),
            Color::Indexed(n) => {
                if n < 8 {
                    Some(palette_gray_of(n))
                } else if n >= 232 {
                    Some((n - 232) * 11)
                } else {
                    Some(128)
                }
            },
            Color::Hex(h) => match parse_code(h) {
                Some((r, g, b, _)) => Some(mean_of(r, g, b)),
                None => None,
            },
            Color::Red => Some(76),
            Color::Green => Some(149),
            Color::Yellow => Some(225),
            Color::Blue => Some(29),
            Color::Magenta => Some(102),
            Color::Cyan => Some(178),
            Color::White => Some(255),
            Color::Black => Some(0),
            Color::BrightRed => Some(100),
            Color::BrightGreen => Some(170),
            Color::BrightYellow => Some(240),
            Color::BrightBlue => Some(60),
            Color::BrightMagenta => Some(130),
            Color::BrightCyan => Some(200),
            Color::BrightWhite => Some(255),
            Color::BrightBlack => Some(30),
            Color::Orange => Some(140),
            Color::Pink => Some(180),
            Color::Teal => Some(100),
            Color::Violet => Some(130),
            Color::Indigo => Some(60),
            Color::Lime => Some(149),
            Color::Turquoise => Some(140),
            Color::Coral => Some(120),
            Color::Crimson => Some(80),
            Color::Mint => Some(160),
            Color::Gold => Some(200),
            Color::Silver => Some(190),
            Color::Bronze => Some(110),
            Color::LightGray => Some(200),
            Color::DarkGray => Some(70),
            Color::SlateGray => Some(120),
            Color::Charcoal => Some(50),
        }
    }

    /// The colour that a `#RRGGBB` or `#RRGGBBAA` code spells, if it spells one.
    pub fn from_hex(hex: &str) -> (r: Option<Color>)
        ensures
            r == color_of_code(code_bytes(hex)),
    {
        match parse_code(hex) {
            Some((r, g, b, Some(a))) => Some(Color::Rgba(r, g, b, a)),
            Some((r, g, b, None)) => Some(Color::Rgb(r, g, b)),
            None => None,
        }
    }

    /// The ANSI code that sets this colour as foreground. A hexadecimal code
    /// has none here: its code is written from its fractional channels.
    pub fn to_ansi_code(&self) -> (r: Option<String>)
        ensures
            match r {
                Some(s) => foreground_of(*self) == Some(s@),
                None => foreground_of(*self) is None,
            },
    {
        match *self {
            Color::Rgb(r, g, b) => Some(sgr_rgb_text("\x1b[38;2;", r, g, b)),
            Color::Rgba(r, g, b, _) => Some(sgr_rgb_text("\x1b[38;2;", r, g, b)),
            Color::Indexed(n) => Some(sgr_text("\x1b[38;5;", n)),
            Color::Gray(g) => Some(sgr_text("\x1b[38;5;", if g < 23 { 232 + g } else { 255 })),
            Color::Hex(_) => None,
            Color::Red => Some("\x1b[31m".to_owned()),
            Color::Green => Some("\x1b[32m".to_owned()),
            Color::Yellow => Some("\x1b[33m".to_owned()),
            Color::Blue => Some("\x1b[34m".to_owned()),
            Color::Magenta => Some("\x1b[35m".to_owned()),
            Color::Cyan => Some("\x1b[36m".to_owned()),
            Color::White => Some("\x1b[37m".to_owned()),
            Color::Black => Some("\x1b[30m".to_owned()),
            Color::BrightRed => Some("\x1b[91m".to_owned()),
            Color::BrightGreen => Some("\x1b[92m".to_owned()),
            Color::BrightYellow => Some("\x1b[93m".to_owned()),
            Color::BrightBlue => Some("\x1b[94m".to_owned()),
            Color::BrightMagenta => Some("\x1b[95m".to_owned()),
            Color::BrightCyan => Some("\x1b[96m".to_owned()),
            Color::BrightWhite => Some("\x1b[97m".to_owned()),
            Color::BrightBlack => Some("\x1b[90m".to_owned()),
            Color::Orange => Some("\x1b[38;5;208m".to_owned()),
            Color::Pink => Some("\x1b[38;5;213m".to_owned()),
            Color::Teal => Some("\x1b[38;5;37m".to_owned()),
            Color::Violet => Some("\x1b[38;5;177m".to_owned()),
            Color::Indigo => Some("\x1b[38;5;54m".to_owned()),
            Color::Lime => Some("\x1b[38;5;154m".to_owned()),
            Color::Turquoise => Some("\x1b[38;5;80m".to_owned()),
            Color::Coral => Some("\x1b[38;5;203m".to_owned()),
            Color::Crimson => Some("\x1b[38;5;161m".to_owned()),
            Color::Mint => Some("\x1b[38;5;121m".to_owned()),
            Color::Gold => Some("\x1b[38;5;220m".to_owned()),
            Color::Silver => Some("\x1b[38;5;250m".to_owned()),
            Color::Bronze => Some("\x1b[38;5;136m".to_owned()),
            Color::LightGray => Some("\x1b[38;5;250m".to_owned()),
            Color::DarkGray => Some("\x1b[38;5;238m".to_owned()),
            Color::SlateGray => Some("\x1b[38;5;241m".to_owned()),
            Color::Charcoal => Some("\x1b[38;5;232m".to_owned()),
        }
    }

    /// The ANSI code that sets this colour as background.
    pub fn to_background_ansi_code(&self) -> (r: String)
        ensures
            r@ == background_of(*self),
    {
        match *self {
            Color::Rgb(r, g, b) => sgr_rgb_text("\x1b[48;2;", r, g, b),
            Color::Rgba(r, g, b, _) => sgr_rgb_text("\x1b[48;2;", r, g, b),
            Color::Indexed(n) => sgr_text("\x1b[48;5;", n),
            Color::Gray(g) => sgr_text("\x1b[48;5;", if g < 23 { 232 + g } else { 255 }),
            Color::Hex(h) => {
                let b = h.as_bytes();
                if b.len() == 6 {
                    let r = match parse_pair(b[0], b[1]) {
                        Some(v) => v,
                        None => 0,
                    };
                    let g = match parse_pair(b[2], b[3]) {
                        Some(v) => v,
                        None => 0,
                    };
                    let bl = match parse_pair(b[4], b[5]) {
                        Some(v) => v,
                        None => 0,
                    };
                    sgr_rgb_text("\x1b[48;2;", r, g, bl)
                } else {
                    "\x1b[49m".to_owned()
                }
            },
            Color::Red => "\x1b[41m".to_owned(),
            Color::Green => "\x1b[42m".to_owned(),
            Color::Yellow => "\x1b[43m".to_owned(),
            Color::Blue => "\x1b[44m".to_owned(),
            Color::Magenta => "\x1b[45m".to_owned(),
            Color::Cyan => "\x1b[46m".to_owned(),
            Color::White => "\x1b[47m".to_owned(),
            Color::Black => "\x1b[40m".to_owned(),
            Color::BrightRed => "\x1b[101m".to_owned(),
            Color::BrightGreen => "\x1b[102m".to_owned(),
            Color::BrightYellow => "\x1b[103m".to_owned(),
            Color::BrightBlue => "\x1b[104m".to_owned(),
            Color::BrightMagenta => "\x1b[105m".to_owned(),
            Color::BrightCyan => "\x1b[106m".to_owned(),
            Color::BrightWhite => "\x1b[107m".to_owned(),
            Color::BrightBlack => "\x1b[100m".to_owned(),
            Color::Orange => "\x1b[48;5;208m".to_owned(),
            Color::Pink => "\x1b[48;5;213m".to_owned(),
            Color::Teal => "\x1b[48;5;37m".to_owned(),
            Color::Violet => "\x1b[48;5;177m".to_owned(),
            Color::Indigo => "\x1b[48;5;54m".to_owned(),
            Color::Lime => "\x1b[48;5;154m".to_owned(),
            Color::Turquoise => "\x1b[48;5;80m".to_owned(),
            Color::Coral => "\x1b[48;5;203m".to_owned(),
            Color::Crimson => "\x1b[48;5;161m".to_owned(),
            Color::Mint => "\x1b[48;5;121m".to_owned(),
            Color::Gold => "\x1b[48;5;220m".to_owned(),
            Color::Silver => "\x1b[48;5;250m".to_owned(),
            Color::Bronze => "\x1b[48;5;136m".to_owned(),
            Color::LightGray => "\x1b[48;5;250m".to_owned(),
            Color::DarkGray => "\x1b[48;5;238m".to_owned(),
            Color::SlateGray => "\x1b[48;5;241m".to_owned(),
            Color::Charcoal => "\x1b[48;5;232m".to_owned(),
        }
    }

    /// Resets all attributes.
    pub fn reset() -> (r: &'static str)
        ensures
            r@ == "\x1b[0m"@,
    {
        "\x1b[0m"
    }

    /// Turns on bold.
    pub fn bold() -> (r: &'static str)
        ensures
            r@ == "\x1b[1m"@,
    {
        "\x1b[1m"
    }

    /// Turns on italics.
    pub fn italic() -> (r: &'static str)
        ensures
            r@ == "\x1b[3m"@,
    {
        "\x1b[3m"
    }

    /// Turns on underlining.
    pub fn underline() -> (r: &'static str)
        ensures
            r@ == "\x1b[4m"@,
    {
        "\x1b[4m"
    }

    /// Turns on strike-through.
    pub fn strikethrough() -> (r: &'static str)
        ensures
            r@ == "\x1b[9m"@,
    {
        "\x1b[9m"
    }

    /// Turns off bold and faint.
    pub fn reset_style() -> (r: &'static str)
        ensures
            r@ == "\x1b[22m"@,
    {
        "\x1b[22m"
    }
}

proof fn lemma_hex_digit_value(d: int)
    requires
        0 <= d < 16,
    ensures
        (hex_digit(d) as u32) < 128,
        hex_digit(d) as u8 != 43,
        digit_value(hex_digit(d) as u8) == Some(d as u8),
{
}

proof fn lemma_pair_of_hex_text(n: u8)
    ensures
        pair_value(hex_text(n)[0] as u8, hex_text(n)[1] as u8) == Some(n),
        (hex_text(n)[0] as u32) < 128 && (hex_text(n)[1] as u32) < 128,
{
    lemma_hex_digit_value(n as int / 16);
    lemma_hex_digit_value(n as int % 16);
}

/// The code `#` followed by the hexadecimal digits of the channels `ch` is
/// ASCII, so its bytes are its characters.
proof fn lemma_code_bytes(ch: Seq<u8>, code: Seq<char>)
    requires
        code.len() == 1 + 2 * ch.len(),
        code[0] == '#',
        forall|k: int|
            0 <= k < ch.len() ==> code[1 + 2 * k] == hex_text(#[trigger] ch[k])[0] && code[2 + 2
                * k] == hex_text(ch[k])[1],
    ensures
        encode_utf8(code).len() == code.len(),
        forall|i: int| 0 <= i < code.len() ==> #[trigger] encode_utf8(code)[i] == code[i] as u8,
{
    assert forall|i: int| 0 <= i < code.len() implies '\0' <= #[trigger] code[i] <= '\u{7f}' by {
        if i > 0 {
            let k = (i - 1) / 2;
            assert(0 <= k < ch.len());
            lemma_pair_of_hex_text(ch[k]);
            assert(i == 1 + 2 * k || i == 2 + 2 * k);
        }
    }
    assert(is_ascii_chars(code));
    is_ascii_chars_encode_utf8(code);
}

/// The hexadecimal code of a colour given by channels spells that colour
/// again: `from_hex` undoes `to_hex` for `Rgb` and `Rgba`.
pub proof fn lemma_hex_round_trip(c: Color)
    requires
        c is Rgb || c is Rgba,
    ensures
        hex_of(c) matches Some(code) && color_of_code(encode_utf8(code)) == Some(c),
{
    reveal_strlit("#");
    match c {
        Color::Rgb(r, g, b) => {
            let code = rgb_code(r, g, b);
            let ch = seq![r, g, b];
            assert forall|k: int| 0 <= k < ch.len() implies code[1 + 2 * k] == hex_text(
                #[trigger] ch[k],
            )[0] && code[2 + 2 * k] == hex_text(ch[k])[1] by {}
            lemma_code_bytes(ch, code);
            lemma_pair_of_hex_text(r);
            lemma_pair_of_hex_text(g);
            lemma_pair_of_hex_text(b);
            assert(encode_utf8(code)[1] == code[1] as u8 && encode_utf8(code)[2] == code[2] as u8);
            assert(encode_utf8(code)[3] == code[3] as u8 && encode_utf8(code)[4] == code[4] as u8);
            assert(encode_utf8(code)[5] == code[5] as u8 && encode_utf8(code)[6] == code[6] as u8);
        },
        Color::Rgba(r, g, b, a) => {
            let code = rgb_code(r, g, b) + hex_text(a);
            let ch = seq![r, g, b, a];
            assert forall|k: int| 0 <= k < ch.len() implies code[1 + 2 * k] == hex_text(
                #[trigger] ch[k],
            )[0] && code[2 + 2 * k] == hex_text(ch[k])[1] by {}
            lemma_code_bytes(ch, code);
            lemma_pair_of_hex_text(r);
            lemma_pair_of_hex_text(g);
            lemma_pair_of_hex_text(b);
            lemma_pair_of_hex_text(a);
            assert(encode_utf8(code)[1] == code[1] as u8 && encode_utf8(code)[2] == code[2] as u8);
            assert(encode_utf8(code)[3] == code[3] as u8 && encode_utf8(code)[4] == code[4] as u8);
            assert(encode_utf8(code)[5] == code[5] as u8 && encode_utf8(code)[6] == code[6] as u8);
            assert(encode_utf8(code)[7] == code[7] as u8 && encode_utf8(code)[8] == code[8] as u8);
        },
        _ => {},
    }
}

} // verus!
