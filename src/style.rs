//! Font styles and the set of them that a cell carries.

use vstd::prelude::*;

use crate::ansi::{
    BLINK_ANSI_CODE,
    BOLD_ANSI_CODE,
    DIM_ANSI_CODE,
    HIDDEN_ANSI_CODE,
    ITALIC_ANSI_CODE,
    REVERSE_ANSI_CODE,
    STRIKE_ANSI_CODE,
    UNDERLINE_ANSI_CODE,
};
use crate::text::str_eq;

verus! {

/// The style vocabulary accepted by `Cell::set_style`.
#[derive(Debug, Clone, Copy, PartialEq, Eq, Structural)]
pub struct Style;

impl Style {
    pub const BOLD: &'static str = "bold";
    pub const DIM: &'static str = "dim";
    pub const ITALIC: &'static str = "italic";
    pub const UNDERLINE: &'static str = "underline";
    pub const BLINK: &'static str = "blink";
    pub const REVERSE: &'static str = "reverse";
    pub const HIDDEN: &'static str = "hidden";
    pub const STRIKE: &'static str = "strike";
}

/// One text attribute. The declaration order is the order in which a set of
/// them is emitted.
#[derive(Debug, Clone, Copy, PartialEq, Eq, Structural)]
pub enum FontStyle {
    Bold,
    Dim,
    Italic,
    Underline,
    Blink,
    Reverse,
    Hidden,
    Strike,
}

/// The number of font styles.
pub const STYLE_COUNT: usize = 8;

/// The font style at position `i` of the declaration order.
pub open spec fn style_at(i: int) -> FontStyle {
    if i == 0 {
        FontStyle::Bold
    } else if i == 1 {
        FontStyle::Dim
    } else if i == 2 {
        FontStyle::Italic
    } else if i == 3 {
        FontStyle::Underline
    } else if i == 4 {
        FontStyle::Blink
    } else if i == 5 {
        FontStyle::Reverse
    } else if i == 6 {
        FontStyle::Hidden
    } else {
        FontStyle::Strike
    }
}

/// Whether `flag` is the bit of exactly one font style.
pub open spec fn is_style_flag(flag: u8) -> bool {
    flag == 1 || flag == 2 || flag == 4 || flag == 8 || flag == 16 || flag == 32 || flag == 64
        || flag == 128
}

/// The font style that a word denotes, if any.
pub open spec fn style_named(s: Seq<char>) -> Option<FontStyle> {
    if s == Style::BOLD@ {
        Some(FontStyle::Bold)
    } else if s == Style::DIM@ {
        Some(FontStyle::Dim)
    } else if s == Style::ITALIC@ {
        Some(FontStyle::Italic)
    } else if s == Style::UNDERLINE@ {
        Some(FontStyle::Underline)
    } else if s == Style::BLINK@ {
        Some(FontStyle::Blink)
    } else if s == Style::REVERSE@ {
        Some(FontStyle::Reverse)
    } else if s == Style::HIDDEN@ {
        Some(FontStyle::Hidden)
    } else if s == Style::STRIKE@ {
        Some(FontStyle::Strike)
    } else {
        None
    }
}

/// The styles of `set` at positions `i` and later, in declaration order.
pub open spec fn styles_from(set: Set<FontStyle>, i: nat) -> Seq<FontStyle>
    decreases 8 - i,
{
    if i >= 8 {
        Seq::empty()
    } else if set.contains(style_at(i as int)) {
        seq![style_at(i as int)] + styles_from(set, i + 1)
    } else {
        styles_from(set, i + 1)
    }
}

/// The styles of `set` in declaration order.
pub open spec fn in_order(set: Set<FontStyle>) -> Seq<FontStyle> {
    styles_from(set, 0)
}

/// The styles whose bits are set in `bits`.
pub open spec fn styles_of_bits(bits: u8) -> Set<FontStyle> {
    Set::new(|s: FontStyle| bits & s.flag() != 0)
}

impl FontStyle {
    /// The bit of this style in a `FontStyleFlag`.
    pub open spec fn flag(self) -> u8 {
        match self {
            FontStyle::Bold => 1,
            FontStyle::Dim => 2,
            FontStyle::Italic => 4,
            FontStyle::Underline => 8,
            FontStyle::Blink => 16,
            FontStyle::Reverse => 32,
            FontStyle::Hidden => 64,
            FontStyle::Strike => 128,
        }
    }

    /// The escape sequence that switches this style on.
    pub open spec fn code(self) -> Seq<char> {
        match self {
            FontStyle::Bold => BOLD_ANSI_CODE@,
            FontStyle::Dim => DIM_ANSI_CODE@,
            FontStyle::Italic => ITALIC_ANSI_CODE@,
            FontStyle::Underline => UNDERLINE_ANSI_CODE@,
            FontStyle::Blink => BLINK_ANSI_CODE@,
            FontStyle::Reverse => REVERSE_ANSI_CODE@,
            FontStyle::Hidden => HIDDEN_ANSI_CODE@,
            FontStyle::Strike => STRIKE_ANSI_CODE@,
        }
    }

    /// The bit flag of this style.
    pub fn as_flag(&self) -> (r: u8)
        ensures
            r == self.flag(),
    {
        match self {
            FontStyle::Bold => FontStyleFlag::BOLD,
            FontStyle::Dim => FontStyleFlag::DIM,
            FontStyle::Italic => FontStyleFlag::ITALIC,
            FontStyle::Underline => FontStyleFlag::UNDERLINE,
            FontStyle::Blink => FontStyleFlag::BLINK,
            FontStyle::Reverse => FontStyleFlag::REVERSE,
            FontStyle::Hidden => FontStyleFlag::HIDDEN,
            FontStyle::Strike => FontStyleFlag::STRIKE,
        }
    }

    /// The style whose bit is `flag`.
    pub fn from_flag(flag: u8) -> (r: FontStyle)
        requires
            is_style_flag(flag),
        ensures
            r.flag() == flag,
    {
        if flag == FontStyleFlag::BOLD {
            FontStyle::Bold
        } else if flag == FontStyleFlag::DIM {
            FontStyle::Dim
        } else if flag == FontStyleFlag::ITALIC {
            FontStyle::Italic
        } else if flag == FontStyleFlag::UNDERLINE {
            FontStyle::Underline
        } else if flag == FontStyleFlag::BLINK {
            FontStyle::Blink
        } else if flag == FontStyleFlag::REVERSE {
            FontStyle::Reverse
        } else if flag == FontStyleFlag::HIDDEN {
            FontStyle::Hidden
        } else {
            FontStyle::Strike
        }
    }

    /// Parses a style word; unknown words give `None`.
    pub fn from_str(style: &str) -> (r: Option<FontStyle>)
        ensures
            r == style_named(style@),
    {
        if str_eq(style, Style::BOLD) {
            Some(FontStyle::Bold)
        } else if str_eq(style, Style::DIM) {
            Some(FontStyle::Dim)
        } else if str_eq(style, Style::ITALIC) {
            Some(FontStyle::Italic)
        } else if str_eq(style, Style::UNDERLINE) {
            Some(FontStyle::Underline)
        } else if str_eq(style, Style::BLINK) {
            Some(FontStyle::Blink)
        } else if str_eq(style, Style::REVERSE) {
            Some(FontStyle::Reverse)
        } else if str_eq(style, Style::HIDDEN) {
            Some(FontStyle::Hidden)
        } else if str_eq(style, Style::STRIKE) {
            Some(FontStyle::Strike)
        } else {
            None
        }
    }

    /// The escape sequence of this style.
    pub fn as_style_ansi_code(&self) -> (r: &'static str)
        ensures
            r@ == self.code(),
    {
        match self {
            FontStyle::Bold => BOLD_ANSI_CODE,
            FontStyle::Dim => DIM_ANSI_CODE,
            FontStyle::Italic => ITALIC_ANSI_CODE,
            FontStyle::Underline => UNDERLINE_ANSI_CODE,
            FontStyle::Blink => BLINK_ANSI_CODE,
            FontStyle::Reverse => REVERSE_ANSI_CODE,
            FontStyle::Hidden => HIDDEN_ANSI_CODE,
            FontStyle::Strike => STRIKE_ANSI_CODE,
        }
    }

    /// The style at position `i` of the declaration order.
    fn at(i: usize) -> (r: FontStyle)
        requires
            i < STYLE_COUNT,
        ensures
            r == style_at(i as int),
    {
        if i == 0 {
            FontStyle::Bold
        } else if i == 1 {
            FontStyle::Dim
        } else if i == 2 {
            FontStyle::Italic
        } else if i == 3 {
            FontStyle::Underline
        } else if i == 4 {
            FontStyle::Blink
        } else if i == 5 {
            FontStyle::Reverse
        } else if i == 6 {
            FontStyle::Hidden
        } else {
            FontStyle::Strike
        }
    }
}

proof fn lemma_bit_of_or(a: u8, b: u8, m: u8)
    ensures
        ((a | b) & m != 0) == (a & m != 0 || b & m != 0),
{
    assert(((a | b) & m != 0) == (a & m != 0 || b & m != 0)) by (bit_vector);
}

proof fn lemma_bit_of_zero(m: u8)
    ensures
        0u8 & m == 0,
{
    assert(0u8 & m == 0) by (bit_vector);
}

/// A set of font styles, one bit each.
#[derive(Debug, Clone, Copy, PartialEq, Eq, Structural)]
pub struct FontStyleFlag {
    flag: u8,
}

impl View for FontStyleFlag {
    type V = Set<FontStyle>;

    closed spec fn view(&self) -> Set<FontStyle> {
        styles_of_bits(self.flag)
    }
}

impl FontStyleFlag {
    pub const BOLD: u8 = 1;
    pub const DIM: u8 = 2;
    pub const ITALIC: u8 = 4;
    pub const UNDERLINE: u8 = 8;
    pub const BLINK: u8 = 16;
    pub const REVERSE: u8 = 32;
    pub const HIDDEN: u8 = 64;
    pub const STRIKE: u8 = 128;

    /// The empty set.
    pub fn new() -> (r: FontStyleFlag)
        ensures
            r@ == Set::<FontStyle>::empty(),
    {
        let r = FontStyleFlag { flag: 0 };
        proof {
            assert forall|s: FontStyle| !r@.contains(s) by {
                lemma_bit_of_zero(s.flag());
            }
            assert(r@ =~= Set::<FontStyle>::empty());
        }
        r
    }

    /// Adds every style whose bit is set in `flag`.
    pub fn set(&mut self, flag: u8)
        ensures
            final(self)@ == old(self)@.union(styles_of_bits(flag)),
    {
        self.flag = self.flag | flag;
        proof {
            assert forall|s: FontStyle|
                #![auto]
                final(self)@.contains(s) == old(self)@.union(styles_of_bits(flag)).contains(s) by {
                lemma_bit_of_or(old(self).flag, flag, s.flag());
            }
            assert(final(self)@ =~= old(self)@.union(styles_of_bits(flag)));
        }
    }

    /// Removes every style.
    pub fn reset(&mut self)
        ensures
            final(self)@ == Set::<FontStyle>::empty(),
    {
        *self = FontStyleFlag::new();
    }

    /// The styles of this set, one at a time, in declaration order.
    pub fn iter(&self) -> (r: FontStyleIter)
        ensures
            r.remaining() == in_order(self@),
    {
        FontStyleIter { flag: self.flag, index: 0 }
    }
}

/// Hands out the styles of a `FontStyleFlag` in declaration order.
pub struct FontStyleIter {
    flag: u8,
    index: usize,
}

impl FontStyleIter {
    /// The styles still to come.
    pub closed spec fn remaining(&self) -> Seq<FontStyle> {
        styles_from(styles_of_bits(self.flag), self.index as nat)
    }

    /// The next style, or `None` once all have been handed out.
    pub fn next(&mut self) -> (r: Option<FontStyle>)
        ensures
            old(self).remaining().len() == 0 ==> r is None && final(self).remaining().len() == 0,
            old(self).remaining().len() > 0 ==> r == Some(old(self).remaining()[0])
                && final(self).remaining() == old(self).remaining().drop_first(),
    {
        while self.index < STYLE_COUNT
            invariant
                self.flag == old(self).flag,
                self.remaining() == old(self).remaining(),
            decreases STYLE_COUNT - self.index,
        {
            let style = FontStyle::at(self.index);
            self.index = self.index + 1;
            if self.flag & style.as_flag() != 0 {
                assert(old(self).remaining() == seq![style] + self.remaining());
                assert(self.remaining() =~= old(self).remaining().drop_first());
                return Some(style);
            }
        }
        None
    }
}

} // verus!
