//! Horizontal and vertical alignment, and the words that name them.

use vstd::prelude::*;

use crate::text::str_eq;

verus! {

/// The alignment vocabulary accepted by `Cell::set_align`.
#[derive(Debug, Clone, Copy, PartialEq, Eq, Structural)]
pub struct Align;

impl Align {
    pub const TOP: &'static str = "top";
    pub const BOTTOM: &'static str = "bottom";
    pub const MIDDLE: &'static str = "middle";
    pub const LEFT: &'static str = "left";
    pub const RIGHT: &'static str = "right";
    pub const CENTER: &'static str = "center";
}

/// Where a line sits inside a wider column. Unset means `Left`.
#[derive(Debug, Clone, Copy, PartialEq, Eq, Structural)]
pub enum HAlign {
    Left,
    Right,
    Center,
}

/// Where the lines of a cell sit inside a taller row. Unset means `Top`.
#[derive(Debug, Clone, Copy, PartialEq, Eq, Structural)]
pub enum VAlign {
    Top,
    Bottom,
    Middle,
}

/// An alignment on one of the two axes.
#[derive(Debug, Clone, Copy, PartialEq, Eq, Structural)]
pub enum Alignment {
    Horizontal(HAlign),
    Vertical(VAlign),
}

/// The alignment that a word denotes, if any.
pub open spec fn alignment_named(s: Seq<char>) -> Option<Alignment> {
    if s == Align::TOP@ {
        Some(Alignment::Vertical(VAlign::Top))
    } else if s == Align::BOTTOM@ {
        Some(Alignment::Vertical(VAlign::Bottom))
    } else if s == Align::MIDDLE@ {
        Some(Alignment::Vertical(VAlign::Middle))
    } else if s == Align::LEFT@ {
        Some(Alignment::Horizontal(HAlign::Left))
    } else if s == Align::RIGHT@ {
        Some(Alignment::Horizontal(HAlign::Right))
    } else if s == Align::CENTER@ {
        Some(Alignment::Horizontal(HAlign::Center))
    } else {
        None
    }
}

impl Align {
    /// Parses an alignment word; unknown words give `None`.
    pub fn from_str(align: &str) -> (r: Option<Alignment>)
        ensures
            r == alignment_named(align@),
    {
        if str_eq(align, Align::TOP) {
            Some(Alignment::Vertical(VAlign::Top))
        } else if str_eq(align, Align::BOTTOM) {
            Some(Alignment::Vertical(VAlign::Bottom))
        } else if str_eq(align, Align::MIDDLE) {
            Some(Alignment::Vertical(VAlign::Middle))
        } else if str_eq(align, Align::LEFT) {
            Some(Alignment::Horizontal(HAlign::Left))
        } else if str_eq(align, Align::RIGHT) {
            Some(Alignment::Horizontal(HAlign::Right))
        } else if str_eq(align, Align::CENTER) {
            Some(Alignment::Horizontal(HAlign::Center))
        } else {
            None
        }
    }
}

} // verus!
