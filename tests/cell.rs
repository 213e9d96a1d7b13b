use textgrid::Cell;

fn cell(s: &str) -> Cell {
    Cell::new(s.to_string())
}

#[test]
fn default_cell_is_empty() {
    let c = Cell::default();
    assert_eq!(c.get_data(), "");
    assert_eq!(c.height(), 0);
    assert_eq!(c.width(), 0);
}

#[test]
fn measures_lines() {
    let c = cell("ab\nabcd\n");
    assert_eq!(c.height(), 2);
    assert_eq!(c.width(), 4);
}

#[test]
fn measures_characters_not_bytes() {
    let c = cell("héllo");
    assert_eq!(c.width(), 5);
}

#[test]
fn explicit_sizes_override_and_clear() {
    let mut c = cell("abc");
    c.set_width(7);
    c.set_height(4);
    assert_eq!(c.width(), 7);
    assert_eq!(c.height(), 4);
    c.clear_width();
    c.clear_height();
    assert_eq!(c.width(), 3);
    assert_eq!(c.height(), 1);
}

#[test]
fn middle_alignment_splits_padding() {
    let mut c = cell("l1\nl2\nl3");
    c.set_align("middle");
    assert_eq!(c.render_lines(5, 2), vec!["  ", "l1", "l2", "l3", "  "]);
}

#[test]
fn middle_alignment_odd_padding_goes_below() {
    let mut c = cell("x");
    c.set_align("middle");
    assert_eq!(c.render_lines(4, 1), vec![" ", "x", " ", " "]);
}

#[test]
fn bottom_and_top_alignment() {
    let mut c = cell("x");
    assert_eq!(c.render_lines(3, 2), vec!["x ", "  ", "  "]);
    c.set_align("bottom");
    assert_eq!(c.render_lines(3, 2), vec!["  ", "  ", "x "]);
}

#[test]
fn long_line_is_truncated() {
    let c = cell("abcdefghij");
    assert_eq!(c.render_lines(1, 6), vec!["abcdef"]);
}

#[test]
fn truncation_keeps_whole_characters() {
    let c = cell("ééééé");
    assert_eq!(c.render_lines(1, 3), vec!["ééé"]);
}

#[test]
fn horizontal_alignment_pads() {
    let mut c = cell("ab");
    assert_eq!(c.render_lines(1, 5), vec!["ab   "]);
    c.set_align("right");
    assert_eq!(c.render_lines(1, 5), vec!["   ab"]);
    c.set_align("center");
    assert_eq!(c.render_lines(1, 5), vec![" ab  "]);
}

#[test]
fn setting_one_axis_keeps_the_other() {
    let mut c = cell("x");
    c.set_align("right");
    c.set_align("bottom");
    assert_eq!(c.render_lines(2, 3), vec!["   ", "  x"]);
}

#[test]
fn unknown_alignment_is_ignored() {
    let mut c = cell("x");
    c.set_align("right");
    c.set_align("sideways");
    assert_eq!(c.render_lines(1, 2), vec![" x"]);
}

#[test]
fn extra_content_lines_are_cut() {
    let c = cell("a\nb\nc");
    assert_eq!(c.render_lines(2, 1), vec!["a", "b"]);
}

#[test]
fn decoration_wraps_visible_text_only() {
    let mut c = cell("ab");
    c.set_color("red");
    c.set_align("right");
    assert_eq!(c.render_lines(2, 4), vec!["  \x1b[31mab\x1b[0m", "    "]);
}

#[test]
fn unknown_color_keeps_previous() {
    let mut c = cell("a");
    c.set_color("green");
    c.set_color("octarine");
    c.set_highlight("bright blue");
    c.set_highlight("nope");
    assert_eq!(c.render_lines(1, 1), vec!["\x1b[32m\x1b[104ma\x1b[0m"]);
}

#[test]
fn styles_accumulate_in_declaration_order() {
    let mut c = cell("a");
    c.set_style("underline");
    c.set_style("bold");
    c.set_style("bold");
    c.set_style("shiny");
    assert_eq!(c.render_lines(1, 1), vec!["\x1b[1m\x1b[4ma\x1b[0m"]);
}

#[test]
fn remove_format_keeps_content_and_sizes() {
    let mut c = cell("a");
    c.set_color("red");
    c.set_highlight("blue");
    c.set_style("dim");
    c.set_align("right");
    c.set_width(3);
    c.remove_format();
    assert_eq!(c.get_data(), "a");
    assert_eq!(c.width(), 3);
    assert_eq!(c.render_lines(1, 3), vec!["a  "]);
}

#[test]
fn get_data_mut_edits_content() {
    let mut c = cell("a");
    c.get_data_mut().push_str("\nb");
    assert_eq!(c.height(), 2);
}
