//! Box-drawing borders around and between the rows of a grid.

use vstd::prelude::*;

use crate::text::{join, join_strs, repeat, repeat_str, views};

verus! {

/// The glyphs that frame a grid, and the lines made of them.
#[derive(Debug, Clone)]
pub struct Border {}

/// A border line: `left`, then for each column `fill` as wide as the column,
/// with `middle` between two columns, then `right`.
pub open spec fn border_line(
    widths: Seq<usize>,
    fill: Seq<char>,
    right: Seq<char>,
    middle: Seq<char>,
    left: Seq<char>,
) -> Seq<char> {
    left + join(widths.map_values(|w: usize| repeat(fill, w as nat)), middle) + right
}

/// The top line of a grid whose columns have the given widths.
pub open spec fn top_border(widths: Seq<usize>) -> Seq<char> {
    border_line(widths, Border::HORIZONTAL@, Border::TOP_RIGHT@, Border::TOP_MIDDLE@, Border::TOP_LEFT@)
}

/// The line between two rows of a grid whose columns have the given widths.
pub open spec fn mid_border(widths: Seq<usize>) -> Seq<char> {
    border_line(
        widths,
        Border::HORIZONTAL@,
        Border::MIDDLE_RIGHT@,
        Border::MIDDLE_MIDDLE@,
        Border::MIDDLE_LEFT@,
    )
}

/// The bottom line of a grid whose columns have the given widths.
pub open spec fn bot_border(widths: Seq<usize>) -> Seq<char> {
    border_line(
        widths,
        Border::HORIZONTAL@,
        Border::BOTTOM_RIGHT@,
        Border::BOTTOM_MIDDLE@,
        Border::BOTTOM_LEFT@,
    )
}

/// A content line: the pieces of one line of each column, framed and separated
/// by vertical glyphs.
pub open spec fn row_line(pieces: Seq<Seq<char>>) -> Seq<char> {
    Border::VERTICAL@ + join(pieces, Border::VERTICAL@) + Border::VERTICAL@
}

impl Border {
    pub const TOP_LEFT: &'static str = " ┌─";
    pub const TOP_MIDDLE: &'static str = "─┬─";
    pub const TOP_RIGHT: &'static str = "─┐ ";
    pub const MIDDLE_LEFT: &'static str = " ├─";
    pub const MIDDLE_MIDDLE: &'static str = "─┼─";
    pub const MIDDLE_RIGHT: &'static str = "─┤ ";
    pub const BOTTOM_LEFT: &'static str = " └─";
    pub const BOTTOM_MIDDLE: &'static str = "─┴─";
    pub const BOTTOM_RIGHT: &'static str = "─┘ ";
    pub const VERTICAL: &'static str = " │ ";
    pub const HORIZONTAL: &'static str = "─";

    fn render_border(
        column_widths: &Vec<usize>,
        horizontal_fill: &str,
        rightmost: &str,
        middle: &str,
        leftmost: &str,
    ) -> (r: String)
        ensures
            r@ == border_line(column_widths@, horizontal_fill@, rightmost@, middle@, leftmost@),
    {
        let mut fills: Vec<String> = Vec::new();
        let mut i: usize = 0;
        while i < column_widths.len()
            invariant
                i <= column_widths@.len(),
                fills@.len() == i,
                forall|k: int|
                    0 <= k < i ==> #[trigger] fills@[k]@ == repeat(
                        horizontal_fill@,
                        column_widths@[k] as nat,
                    ),
            decreases column_widths.len() - i,
        {
            fills.push(repeat_str(horizontal_fill, column_widths[i]));
            i = i + 1;
        }
        assert(views(fills@) =~= column_widths@.map_values(
            |w: usize| repeat(horizontal_fill@, w as nat),
        ));
        let mut r = String::from_str(leftmost);
        r.append(join_strs(&fills, middle).as_str());
        r.append(rightmost);
        r
    }

    pub fn render_top_border(column_widths: &Vec<usize>) -> (r: String)
        ensures
            r@ == top_border(column_widths@),
    {
        Border::render_border(
            column_widths,
            Border::HORIZONTAL,
            Border::TOP_RIGHT,
            Border::TOP_MIDDLE,
            Border::TOP_LEFT,
        )
    }

    pub fn render_mid_border(column_widths: &Vec<usize>) -> (r: String)
        ensures
            r@ == mid_border(column_widths@),
    {
        Border::render_border(
            column_widths,
            Border::HORIZONTAL,
            Border::MIDDLE_RIGHT,
            Border::MIDDLE_MIDDLE,
            Border::MIDDLE_LEFT,
        )
    }

    pub fn render_bot_border(column_widths: &Vec<usize>) -> (r: String)
        ensures
            r@ == bot_border(column_widths@),
    {
        Border::render_border(
            column_widths,
            Border::HORIZONTAL,
            Border::BOTTOM_RIGHT,
            Border::BOTTOM_MIDDLE,
            Border::BOTTOM_LEFT,
        )
    }

    /// Frames one line of each column of a row.
    pub fn render_row_lines(lines: Vec<String>) -> (r: String)
        ensures
            r@ == row_line(views(lines@)),
    {
        let mut r = String::from_str(Border::VERTICAL);
        r.append(join_strs(&lines, Border::VERTICAL).as_str());
        r.append(Border::VERTICAL);
        r
    }
}

} // verus!
