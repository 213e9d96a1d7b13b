//! Wrapping text in the escape sequences of its colors and styles.

use vstd::prelude::*;

use crate::ansi::RESET_ANSI_CODE;
use crate::color::Color;
use crate::style::{in_order, FontStyle, FontStyleFlag};

verus! {

/// The escape sequences of `styles`, one after another.
pub open spec fn style_codes(styles: Seq<FontStyle>) -> Seq<char>
    decreases styles.len(),
{
    if styles.len() == 0 {
        Seq::empty()
    } else {
        style_codes(styles.drop_last()) + styles.last().code()
    }
}

/// The escape sequence of an optional foreground color.
pub open spec fn fg_prefix(fg: Option<Color>) -> Seq<char> {
    match fg {
        Some(c) => c.fg_code(),
        None => Seq::empty(),
    }
}

/// The escape sequence of an optional background color.
pub open spec fn bg_prefix(bg: Option<Color>) -> Seq<char> {
    match bg {
        Some(c) => c.bg_code(),
        None => Seq::empty(),
    }
}

/// Whether any decoration is active.
pub open spec fn is_decorated(fg: Option<Color>, bg: Option<Color>, style: Set<FontStyle>) -> bool {
    fg is Some || bg is Some || in_order(style).len() > 0
}

/// `text` opened by the foreground, background and style sequences and closed by
/// one reset; `text` itself where nothing is active.
pub open spec fn decorate(
    text: Seq<char>,
    fg: Option<Color>,
    bg: Option<Color>,
    style: Set<FontStyle>,
) -> Seq<char> {
    if is_decorated(fg, bg, style) {
        fg_prefix(fg) + bg_prefix(bg) + style_codes(in_order(style)) + text + RESET_ANSI_CODE@
    } else {
        text
    }
}

/// Applies colors and styles to `text` with terminal escape sequences.
pub fn apply_ansi_formatting(
    text: &str,
    fg_color: Option<Color>,
    bg_color: Option<Color>,
    style: FontStyleFlag,
) -> (r: String)
    ensures
        r@ == decorate(text@, fg_color, bg_color, style@),
{
    let mut formatted_text = String::new();
    let mut is_formatted = false;

    if let Some(color) = fg_color {
        formatted_text.append(color.as_fg_ansi_code());
        is_formatted = true;
    }
    if let Some(color) = bg_color {
        formatted_text.append(color.as_bg_ansi_code());
        is_formatted = true;
    }
    let ghost colors = formatted_text@;
    assert(colors =~= fg_prefix(fg_color) + bg_prefix(bg_color));

    let mut styles = style.iter();
    let ghost all = styles.remaining();
    let ghost done: Seq<FontStyle> = Seq::empty();
    loop
        invariant
            all == in_order(style@),
            all == done + styles.remaining(),
            formatted_text@ == colors + style_codes(done),
            is_formatted == (fg_color is Some || bg_color is Some || done.len() > 0),
        ensures
            done == in_order(style@),
            formatted_text@ == colors + style_codes(done),
            is_formatted == (fg_color is Some || bg_color is Some || done.len() > 0),
        decreases styles.remaining().len(),
    {
        let next = styles.next();
        match next {
            Some(s) => {
                proof {
                    assert((done + seq![s]).drop_last() =~= done);
                    assert(all =~= (done + seq![s]) + styles.remaining());
                    done = done + seq![s];
                }
                formatted_text.append(s.as_style_ansi_code());
                is_formatted = true;
            },
            None => {
                assert(done =~= all);
                break ;
            },
        }
    }

    formatted_text.append(text);
    if is_formatted {
        formatted_text.append(RESET_ANSI_CODE);
        assert(formatted_text@ =~= fg_prefix(fg_color) + bg_prefix(bg_color) + style_codes(
            in_order(style@),
        ) + text@ + RESET_ANSI_CODE@);
    } else {
        assert(formatted_text@ =~= text@);
    }
    formatted_text
}

} // verus!
