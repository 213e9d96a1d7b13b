//! The sixteen terminal colors, their names and their escape sequences.

use vstd::prelude::*;

use crate::ansi::{
    BLACK_ANSI_CODE,
    RED_ANSI_CODE,
    GREEN_ANSI_CODE,
    YELLOW_ANSI_CODE,
    BLUE_ANSI_CODE,
    MAGENTA_ANSI_CODE,
    CYAN_ANSI_CODE,
    WHITE_ANSI_CODE,
    BRIGHT_BLACK_ANSI_CODE,
    BRIGHT_RED_ANSI_CODE,
    BRIGHT_GREEN_ANSI_CODE,
    BRIGHT_YELLOW_ANSI_CODE,
    BRIGHT_BLUE_ANSI_CODE,
    BRIGHT_MAGENTA_ANSI_CODE,
    BRIGHT_CYAN_ANSI_CODE,
    BRIGHT_WHITE_ANSI_CODE,
    ON_BLACK_ANSI_CODE,
    ON_RED_ANSI_CODE,
    ON_GREEN_ANSI_CODE,
    ON_YELLOW_ANSI_CODE,
    ON_BLUE_ANSI_CODE,
    ON_MAGENTA_ANSI_CODE,
    ON_CYAN_ANSI_CODE,
    ON_WHITE_ANSI_CODE,
    ON_BRIGHT_BLACK_ANSI_CODE,
    ON_BRIGHT_RED_ANSI_CODE,
    ON_BRIGHT_GREEN_ANSI_CODE,
    ON_BRIGHT_YELLOW_ANSI_CODE,
    ON_BRIGHT_BLUE_ANSI_CODE,
    ON_BRIGHT_MAGENTA_ANSI_CODE,
    ON_BRIGHT_CYAN_ANSI_CODE,
    ON_BRIGHT_WHITE_ANSI_CODE,
};
use crate::text::str_eq;

verus! {
pub const BLACK: &'static str = "black";
pub const RED: &'static str = "red";
pub const GREEN: &'static str = "green";
pub const YELLOW: &'static str = "yellow";
pub const BLUE: &'static str = "blue";
pub const MAGENTA: &'static str = "magenta";
pub const CYAN: &'static str = "cyan";
pub const WHITE: &'static str = "white";
pub const BRIGHT_BLACK: &'static str = "bright black";
pub const BRIGHT_RED: &'static str = "bright red";
pub const BRIGHT_GREEN: &'static str = "bright green";
pub const BRIGHT_YELLOW: &'static str = "bright yellow";
pub const BRIGHT_BLUE: &'static str = "bright blue";
pub const BRIGHT_MAGENTA: &'static str = "bright magenta";
pub const BRIGHT_CYAN: &'static str = "bright cyan";
pub const BRIGHT_WHITE: &'static str = "bright white";

/// A terminal color, usable as foreground or background.
#[derive(Debug, Clone, Copy, PartialEq, Eq, Structural)]
pub enum Color {
    Black,
    Red,
    Green,
    Yellow,
    Blue,
    Magenta,
    Cyan,
    White,
    BrightBlack,
    BrightRed,
    BrightGreen,
    BrightYellow,
    BrightBlue,
    BrightMagenta,
    BrightCyan,
    BrightWhite,
}

/// The color that a name denotes, if any.
pub open spec fn color_named(s: Seq<char>) -> Option<Color> {
    if s == BLACK@ {
        Some(Color::Black)
    } else if s == RED@ {
        Some(Color::Red)
    } else if s == GREEN@ {
        Some(Color::Green)
    } else if s == YELLOW@ {
        Some(Color::Yellow)
    } else if s == BLUE@ {
        Some(Color::Blue)
    } else if s == MAGENTA@ {
        Some(Color::Magenta)
    } else if s == CYAN@ {
        Some(Color::Cyan)
    } else if s == WHITE@ {
        Some(Color::White)
    } else if s == BRIGHT_BLACK@ {
        Some(Color::BrightBlack)
    } else if s == BRIGHT_RED@ {
        Some(Color::BrightRed)
    } else if s == BRIGHT_GREEN@ {
        Some(Color::BrightGreen)
    } else if s == BRIGHT_YELLOW@ {
        Some(Color::BrightYellow)
    } else if s == BRIGHT_BLUE@ {
        Some(Color::BrightBlue)
    } else if s == BRIGHT_MAGENTA@ {
        Some(Color::BrightMagenta)
    } else if s == BRIGHT_CYAN@ {
        Some(Color::BrightCyan)
    } else if s == BRIGHT_WHITE@ {
        Some(Color::BrightWhite)
    } else {
        None
    }
}

impl Color {
    /// The escape sequence that selects this color as foreground.
    pub open spec fn fg_code(self) -> Seq<char> {
        match self {
            Color::Black => BLACK_ANSI_CODE@,
            Color::Red => RED_ANSI_CODE@,
            Color::Green => GREEN_ANSI_CODE@,
            Color::Yellow => YELLOW_ANSI_CODE@,
            Color::Blue => BLUE_ANSI_CODE@,
            Color::Magenta => MAGENTA_ANSI_CODE@,
            Color::Cyan => CYAN_ANSI_CODE@,
            Color::White => WHITE_ANSI_CODE@,
            Color::BrightBlack => BRIGHT_BLACK_ANSI_CODE@,
            Color::BrightRed => BRIGHT_RED_ANSI_CODE@,
            Color::BrightGreen => BRIGHT_GREEN_ANSI_CODE@,
            Color::BrightYellow => BRIGHT_YELLOW_ANSI_CODE@,
            Color::BrightBlue => BRIGHT_BLUE_ANSI_CODE@,
            Color::BrightMagenta => BRIGHT_MAGENTA_ANSI_CODE@,
            Color::BrightCyan => BRIGHT_CYAN_ANSI_CODE@,
            Color::BrightWhite => BRIGHT_WHITE_ANSI_CODE@,
        }
    }

    /// The escape sequence that selects this color as background.
    pub open spec fn bg_code(self) -> Seq<char> {
        match self {
            Color::Black => ON_BLACK_ANSI_CODE@,
            Color::Red => ON_RED_ANSI_CODE@,
            Color::Green => ON_GREEN_ANSI_CODE@,
            Color::Yellow => ON_YELLOW_ANSI_CODE@,
            Color::Blue => ON_BLUE_ANSI_CODE@,
            Color::Magenta => ON_MAGENTA_ANSI_CODE@,
            Color::Cyan => ON_CYAN_ANSI_CODE@,
            Color::White => ON_WHITE_ANSI_CODE@,
            Color::BrightBlack => ON_BRIGHT_BLACK_ANSI_CODE@,
            Color::BrightRed => ON_BRIGHT_RED_ANSI_CODE@,
            Color::BrightGreen => ON_BRIGHT_GREEN_ANSI_CODE@,
            Color::BrightYellow => ON_BRIGHT_YELLOW_ANSI_CODE@,
            Color::BrightBlue => ON_BRIGHT_BLUE_ANSI_CODE@,
            Color::BrightMagenta => ON_BRIGHT_MAGENTA_ANSI_CODE@,
            Color::BrightCyan => ON_BRIGHT_CYAN_ANSI_CODE@,
            Color::BrightWhite => ON_BRIGHT_WHITE_ANSI_CODE@,
        }
    }

    /// Parses a color name; unknown names give `None`.
    pub fn from_str(color: &str) -> (r: Option<Color>)
        ensures
            r == color_named(color@),
    {
        if str_eq(color, BLACK) {
            Some(Color::Black)
        } else if str_eq(color, RED) {
            Some(Color::Red)
        } else if str_eq(color, GREEN) {
            Some(Color::Green)
        } else if str_eq(color, YELLOW) {
            Some(Color::Yellow)
        } else if str_eq(color, BLUE) {
            Some(Color::Blue)
        } else if str_eq(color, MAGENTA) {
            Some(Color::Magenta)
        } else if str_eq(color, CYAN) {
            Some(Color::Cyan)
        } else if str_eq(color, WHITE) {
            Some(Color::White)
        } else if str_eq(color, BRIGHT_BLACK) {
            Some(Color::BrightBlack)
        } else if str_eq(color, BRIGHT_RED) {
            Some(Color::BrightRed)
        } else if str_eq(color, BRIGHT_GREEN) {
            Some(Color::BrightGreen)
        } else if str_eq(color, BRIGHT_YELLOW) {
            Some(Color::BrightYellow)
        } else if str_eq(color, BRIGHT_BLUE) {
            Some(Color::BrightBlue)
        } else if str_eq(color, BRIGHT_MAGENTA) {
            Some(Color::BrightMagenta)
        } else if str_eq(color, BRIGHT_CYAN) {
            Some(Color::BrightCyan)
        } else if str_eq(color, BRIGHT_WHITE) {
            Some(Color::BrightWhite)
        } else {
            None
        }
    }

    pub fn as_fg_ansi_code(&self) -> (r: &'static str)
        ensures
            r@ == self.fg_code(),
    {
        match self {
            Color::Black => BLACK_ANSI_CODE,
            Color::Red => RED_ANSI_CODE,
            Color::Green => GREEN_ANSI_CODE,
            Color::Yellow => YELLOW_ANSI_CODE,
            Color::Blue => BLUE_ANSI_CODE,
            Color::Magenta => MAGENTA_ANSI_CODE,
            Color::Cyan => CYAN_ANSI_CODE,
            Color::White => WHITE_ANSI_CODE,
            Color::BrightBlack => BRIGHT_BLACK_ANSI_CODE,
            Color::BrightRed => BRIGHT_RED_ANSI_CODE,
            Color::BrightGreen => BRIGHT_GREEN_ANSI_CODE,
            Color::BrightYellow => BRIGHT_YELLOW_ANSI_CODE,
            Color::BrightBlue => BRIGHT_BLUE_ANSI_CODE,
            Color::BrightMagenta => BRIGHT_MAGENTA_ANSI_CODE,
            Color::BrightCyan => BRIGHT_CYAN_ANSI_CODE,
            Color::BrightWhite => BRIGHT_WHITE_ANSI_CODE,
        }
    }

    pub fn as_bg_ansi_code(&self) -> (r: &'static str)
        ensures
            r@ == self.bg_code(),
    {
        match self {
            Color::Black => ON_BLACK_ANSI_CODE,
            Color::Red => ON_RED_ANSI_CODE,
            Color::Green => ON_GREEN_ANSI_CODE,
            Color::Yellow => ON_YELLOW_ANSI_CODE,
            Color::Blue => ON_BLUE_ANSI_CODE,
            Color::Magenta => ON_MAGENTA_ANSI_CODE,
            Color::Cyan => ON_CYAN_ANSI_CODE,
            Color::White => ON_WHITE_ANSI_CODE,
            Color::BrightBlack => ON_BRIGHT_BLACK_ANSI_CODE,
            Color::BrightRed => ON_BRIGHT_RED_ANSI_CODE,
            Color::BrightGreen => ON_BRIGHT_GREEN_ANSI_CODE,
            Color::BrightYellow => ON_BRIGHT_YELLOW_ANSI_CODE,
            Color::BrightBlue => ON_BRIGHT_BLUE_ANSI_CODE,
            Color::BrightMagenta => ON_BRIGHT_MAGENTA_ANSI_CODE,
            Color::BrightCyan => ON_BRIGHT_CYAN_ANSI_CODE,
            Color::BrightWhite => ON_BRIGHT_WHITE_ANSI_CODE,
        }
    }
}

} // verus!
