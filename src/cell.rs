//! One cell of a grid: its text, its formatting, and how it renders.

use vstd::prelude::*;

use crate::align::{Align, Alignment, HAlign, VAlign, alignment_named};
use crate::color::{Color, color_named};
use crate::format::{apply_ansi_formatting, decorate};
use crate::style::{FontStyle, FontStyleFlag, style_named};
use crate::text::{lines_of, repeat_str, spaces, split_lines};

verus! {

/// What a cell holds: its text, and the formatting set on it. `None` means unset.
pub struct CellView {
    pub data: Seq<char>,
    pub h_align: Option<HAlign>,
    pub v_align: Option<VAlign>,
    pub fg_color: Option<Color>,
    pub bg_color: Option<Color>,
    pub style: Set<FontStyle>,
    pub width: Option<usize>,
    pub height: Option<usize>,
}

/// The longest length among `lines`, 0 for none.
pub open spec fn max_len(lines: Seq<Seq<char>>) -> nat
    decreases lines.len(),
{
    if lines.len() == 0 {
        0
    } else {
        let rest = max_len(lines.drop_last());
        if lines.last().len() > rest {
            lines.last().len()
        } else {
            rest
        }
    }
}

impl CellView {
    /// A cell holding `data`, with nothing set.
    pub open spec fn plain(data: Seq<char>) -> CellView {
        CellView {
            data,
            h_align: None,
            v_align: None,
            fg_color: None,
            bg_color: None,
            style: Set::empty(),
            width: None,
            height: None,
        }
    }

    pub open spec fn lines(self) -> Seq<Seq<char>> {
        lines_of(self.data)
    }

    /// The height the cell asks for: the one set on it, else its line count.
    pub open spec fn height(self) -> nat {
        match self.height {
            Some(h) => h as nat,
            None => self.lines().len(),
        }
    }

    /// The width the cell asks for: the one set on it, else its longest line.
    pub open spec fn width(self) -> nat {
        match self.width {
            Some(w) => w as nat,
            None => max_len(self.lines()),
        }
    }

    /// `line` cut to `w` characters, padded to `w` by the horizontal alignment,
    /// with the decoration around the visible text only.
    pub open spec fn fit_line(self, line: Seq<char>, w: nat) -> Seq<char> {
        let visible = if line.len() > w {
            line.take(w as int)
        } else {
            line
        };
        let pad = (w - visible.len()) as nat;
        let before: nat = match self.h_align {
            Some(HAlign::Right) => pad,
            Some(HAlign::Center) => pad / 2,
            _ => 0,
        };
        spaces(before) + decorate(visible, self.fg_color, self.bg_color, self.style) + spaces(
            (pad - before) as nat,
        )
    }

    /// The number of content lines shown in `h` lines.
    pub open spec fn shown(self, h: nat) -> nat {
        if self.lines().len() > h {
            h
        } else {
            self.lines().len()
        }
    }

    /// The number of blank lines above the content in `h` lines.
    pub open spec fn blank_before(self, h: nat) -> nat {
        let pad = (h - self.shown(h)) as nat;
        match self.v_align {
            Some(VAlign::Bottom) => pad,
            Some(VAlign::Middle) => pad / 2,
            _ => 0,
        }
    }

    /// The cell as exactly `h` lines of `w` visible characters: the first `h`
    /// content lines fitted to `w`, with blank lines placed by the vertical
    /// alignment.
    pub open spec fn rendered(self, h: nat, w: nat) -> Seq<Seq<char>> {
        let before = self.blank_before(h);
        Seq::new(
            h,
            |i: int|
                if before <= i < before + self.shown(h) {
                    self.fit_line(self.lines()[i - before], w)
                } else {
                    spaces(w)
                },
        )
    }
}

/// A piece of text with its alignment, colors, styles and size overrides.
#[derive(Debug, Clone)]
pub struct Cell {
    data: String,
    h_align: Option<HAlign>,
    v_align: Option<VAlign>,
    fg_color: Option<Color>,
    bg_color: Option<Color>,
    font_style: FontStyleFlag,
    width: Option<usize>,
    height: Option<usize>,
}

impl Default for Cell {
    /// An empty cell with nothing set.
    fn default() -> (r: Cell)
        ensures
            r@ == CellView::plain(Seq::empty()),
    {
        Cell::new(String::new())
    }
}

impl View for Cell {
    type V = CellView;

    closed spec fn view(&self) -> CellView {
        CellView {
            data: self.data@,
            h_align: self.h_align,
            v_align: self.v_align,
            fg_color: self.fg_color,
            bg_color: self.bg_color,
            style: self.font_style@,
            width: self.width,
            height: self.height,
        }
    }
}

proof fn lemma_flags_disjoint(a: u8, b: u8)
    requires
        a == 1 || a == 2 || a == 4 || a == 8 || a == 16 || a == 32 || a == 64 || a == 128,
        b == 1 || b == 2 || b == 4 || b == 8 || b == 16 || b == 32 || b == 64 || b == 128,
    ensures
        (a & b != 0) == (a == b),
{
    assert((a & b != 0) == (a == b)) by (bit_vector)
        requires
            a == 1 || a == 2 || a == 4 || a == 8 || a == 16 || a == 32 || a == 64 || a == 128,
            b == 1 || b == 2 || b == 4 || b == 8 || b == 16 || b == 32 || b == 64 || b == 128,
    ;
}

proof fn lemma_single_style(s: FontStyle)
    ensures
        crate::style::styles_of_bits(s.flag()) == set![s],
{
    assert forall|t: FontStyle| #[trigger]
        crate::style::styles_of_bits(s.flag()).contains(t) == set![s].contains(t) by {
        lemma_flags_disjoint(s.flag(), t.flag());
    }
    assert(crate::style::styles_of_bits(s.flag()) =~= set![s]);
}

impl Cell {
    pub fn new(data: String) -> (r: Cell)
        ensures
            r@ == CellView::plain(data@),
    {
        Cell {
            data,
            h_align: None,
            v_align: None,
            fg_color: None,
            bg_color: None,
            font_style: FontStyleFlag::new(),
            width: None,
            height: None,
        }
    }

    /// The content, to change in place.
    pub fn get_data_mut(&mut self) -> (r: &mut String)
        ensures
            r@ == old(self)@.data,
            final(self)@ == (CellView { data: final(r)@, ..old(self)@ }),
    {
        &mut self.data
    }

    pub fn get_data(&self) -> (r: &String)
        ensures
            r@ == self@.data,
    {
        &self.data
    }

    /// The height this cell asks for in a row.
    pub fn height(&self) -> (r: usize)
        ensures
            r == self@.height(),
    {
        match self.height {
            Some(h) => h,
            None => split_lines(self.data.as_str()).len(),
        }
    }

    pub fn set_height(&mut self, height: usize)
        ensures
            final(self)@ == (CellView { height: Some(height), ..old(self)@ }),
    {
        self.height = Some(height);
    }

    /// Goes back to measuring the height from the content.
    pub fn clear_height(&mut self)
        ensures
            final(self)@ == (CellView { height: None, ..old(self)@ }),
    {
        self.height = None;
    }

    /// The width this cell asks for in a column.
    pub fn width(&self) -> (r: usize)
        ensures
            r == self@.width(),
    {
        match self.width {
            Some(w) => w,
            None => {
                let lines = split_lines(self.data.as_str());
                let ghost ls = lines_of(self@.data);
                let mut widest: usize = 0;
                let mut i: usize = 0;
                while i < lines.len()
                    invariant
                        i <= lines@.len(),
                        lines@.len() == ls.len(),
                        forall|k: int| 0 <= k < lines@.len() ==> #[trigger] lines@[k]@ == ls[k],
                        widest == max_len(ls.take(i as int)),
                    decreases lines.len() - i,
                {
                    let len = lines[i].as_str().unicode_len();
                    assert(ls.take(i + 1).drop_last() =~= ls.take(i as int));
                    if len > widest {
                        widest = len;
                    }
                    i = i + 1;
                }
                assert(ls.take(i as int) =~= ls);
                widest
            },
        }
    }

    pub fn set_width(&mut self, width: usize)
        ensures
            final(self)@ == (CellView { width: Some(width), ..old(self)@ }),
    {
        self.width = Some(width);
    }

    /// Goes back to measuring the width from the content.
    pub fn clear_width(&mut self)
        ensures
            final(self)@ == (CellView { width: None, ..old(self)@ }),
    {
        self.width = None;
    }

    /// Sets the alignment on the axis that the word names; the other axis
    /// keeps its value, and an unknown word changes nothing.
    pub fn set_align(&mut self, align: &str)
        ensures
            final(self)@ == match alignment_named(align@) {
                Some(Alignment::Horizontal(h)) => CellView { h_align: Some(h), ..old(self)@ },
                Some(Alignment::Vertical(v)) => CellView { v_align: Some(v), ..old(self)@ },
                None => old(self)@,
            },
    {
        match Align::from_str(align) {
            Some(Alignment::Horizontal(h_align)) => {
                self.h_align = Some(h_align);
            },
            Some(Alignment::Vertical(v_align)) => {
                self.v_align = Some(v_align);
            },
            None => {},
        }
    }

    /// Sets the foreground color; an unknown name changes nothing.
    pub fn set_color(&mut self, color: &str)
        ensures
            final(self)@ == match color_named(color@) {
                Some(c) => CellView { fg_color: Some(c), ..old(self)@ },
                None => old(self)@,
            },
    {
        if let Some(c) = Color::from_str(color) {
            self.fg_color = Some(c);
        }
    }

    /// Sets the background color; an unknown name changes nothing.
    pub fn set_highlight(&mut self, color: &str)
        ensures
            final(self)@ == match color_named(color@) {
                Some(c) => CellView { bg_color: Some(c), ..old(self)@ },
                None => old(self)@,
            },
    {
        if let Some(c) = Color::from_str(color) {
            self.bg_color = Some(c);
        }
    }

    /// Adds a style to those already set; an unknown word changes nothing.
    pub fn set_style(&mut self, style: &str)
        ensures
            final(self)@ == match style_named(style@) {
                Some(s) => CellView { style: old(self)@.style.insert(s), ..old(self)@ },
                None => old(self)@,
            },
    {
        if let Some(s) = FontStyle::from_str(style) {
            self.font_style.set(s.as_flag());
            proof {
                lemma_single_style(s);
                assert(old(self)@.style.union(set![s]) =~= old(self)@.style.insert(s));
            }
        }
    }

    /// `line` fitted to `width` visible characters.
    fn fit_line(&self, line: &str, width: usize) -> (r: String)
        ensures
            r@ == self@.fit_line(line@, width as nat),
    {
        let len = line.unicode_len();
        let visible = if len > width {
            line.substring_char(0, width)
        } else {
            line
        };
        let visible_len = if len > width {
            width
        } else {
            len
        };
        let pad = width - visible_len;
        let before = match self.h_align {
            Some(HAlign::Right) => pad,
            Some(HAlign::Center) => pad / 2,
            _ => 0,
        };
        proof {
            reveal_strlit(" ");
            assert(" "@ =~= seq![' ']);
        }
        let mut r = repeat_str(" ", before);
        r.append(
            apply_ansi_formatting(visible, self.fg_color, self.bg_color, self.font_style).as_str(),
        );
        r.append(repeat_str(" ", pad - before).as_str());
        r
    }

    /// The cell as exactly `target_cell_height` lines, each of
    /// `target_cell_width` visible characters.
    pub fn render_lines(&self, target_cell_height: usize, target_cell_width: usize) -> (r: Vec<
        String,
    >)
        ensures
            r@.len() == target_cell_height,
            forall|i: int|
                0 <= i < target_cell_height ==> #[trigger] r@[i]@ == self@.rendered(
                    target_cell_height as nat,
                    target_cell_width as nat,
                )[i],
    {
        let ghost h = target_cell_height as nat;
        let ghost w = target_cell_width as nat;
        let lines = split_lines(self.data.as_str());
        let shown = if lines.len() > target_cell_height {
            target_cell_height
        } else {
            lines.len()
        };
        let pad = target_cell_height - shown;
        let before = match self.v_align {
            Some(VAlign::Bottom) => pad,
            Some(VAlign::Middle) => pad / 2,
            _ => 0,
        };
        proof {
            reveal_strlit(" ");
            assert(" "@ =~= seq![' ']);
        }
        let blank = repeat_str(" ", target_cell_width);
        let mut out: Vec<String> = Vec::new();
        let mut i: usize = 0;
        while i < target_cell_height
            invariant
                i <= target_cell_height,
                h == target_cell_height as nat,
                w == target_cell_width as nat,
                shown == self@.shown(h),
                before == self@.blank_before(h),
                lines@.len() == self@.lines().len(),
                forall|k: int| 0 <= k < lines@.len() ==> #[trigger] lines@[k]@ == self@.lines()[k],
                blank@ == spaces(w),
                out@.len() == i,
                forall|k: int| 0 <= k < i ==> #[trigger] out@[k]@ == self@.rendered(h, w)[k],
            decreases target_cell_height - i,
        {
            let ghost rendered = self@.rendered(h, w);
            if i < before || i - before >= shown {
                out.push(blank.clone());
            } else {
                out.push(self.fit_line(lines[i - before].as_str(), target_cell_width));
            }
            assert(out@[i as int]@ == rendered[i as int]);
            i = i + 1;
        }
        out
    }

    /// Unsets alignment, colors and styles. Content and size overrides stay.
    pub fn remove_format(&mut self)
        ensures
            final(self)@ == (CellView {
                h_align: None,
                v_align: None,
                fg_color: None,
                bg_color: None,
                style: Set::empty(),
                ..old(self)@
            }),
    {
        self.h_align = None;
        self.v_align = None;
        self.fg_color = None;
        self.bg_color = None;
        self.font_style.reset();
    }
}

} // verus!
