use textgrid::{
    apply_ansi_formatting, repeat_str, split_lines, str_eq, Align, Alignment, Border, Color,
    FontStyle, FontStyleFlag, HAlign, Style, VAlign,
};

#[test]
fn color_names() {
    assert_eq!(Color::from_str("red"), Some(Color::Red));
    assert_eq!(Color::from_str("bright white"), Some(Color::BrightWhite));
    assert_eq!(Color::from_str("Red"), None);
    assert_eq!(Color::from_str(""), None);
}

#[test]
fn color_codes() {
    assert_eq!(Color::Black.as_fg_ansi_code(), "\x1b[30m");
    assert_eq!(Color::BrightCyan.as_fg_ansi_code(), "\x1b[96m");
    assert_eq!(Color::Yellow.as_bg_ansi_code(), "\x1b[43m");
    assert_eq!(Color::BrightMagenta.as_bg_ansi_code(), "\x1b[105m");
}

#[test]
fn alignment_words() {
    assert_eq!(Align::from_str(Align::TOP), Some(Alignment::Vertical(VAlign::Top)));
    assert_eq!(Align::from_str("middle"), Some(Alignment::Vertical(VAlign::Middle)));
    assert_eq!(Align::from_str("center"), Some(Alignment::Horizontal(HAlign::Center)));
    assert_eq!(Align::from_str("centre"), None);
}

#[test]
fn style_words_and_flags() {
    assert_eq!(FontStyle::from_str(Style::STRIKE), Some(FontStyle::Strike));
    assert_eq!(FontStyle::from_str("bolder"), None);
    assert_eq!(FontStyle::Reverse.as_flag(), 32);
    assert_eq!(FontStyle::from_flag(64), FontStyle::Hidden);
    assert_eq!(FontStyle::Italic.as_style_ansi_code(), "\x1b[3m");
    assert_eq!(FontStyle::Reverse.as_style_ansi_code(), "\x1b[7m");
}

#[test]
fn flag_iterates_in_declaration_order() {
    let mut f = FontStyleFlag::new();
    f.set(FontStyleFlag::STRIKE | FontStyleFlag::BOLD);
    f.set(FontStyleFlag::BLINK);
    let mut it = f.iter();
    assert_eq!(it.next(), Some(FontStyle::Bold));
    assert_eq!(it.next(), Some(FontStyle::Blink));
    assert_eq!(it.next(), Some(FontStyle::Strike));
    assert_eq!(it.next(), None);
    assert_eq!(it.next(), None);
    f.reset();
    assert_eq!(f.iter().next(), None);
}

#[test]
fn formatting_without_decoration_is_plain() {
    assert_eq!(apply_ansi_formatting("hi", None, None, FontStyleFlag::new()), "hi");
}

#[test]
fn formatting_orders_codes() {
    let mut f = FontStyleFlag::new();
    f.set(FontStyleFlag::ITALIC);
    f.set(FontStyleFlag::DIM);
    assert_eq!(
        apply_ansi_formatting("hi", Some(Color::Red), Some(Color::White), f),
        "\x1b[31m\x1b[47m\x1b[2m\x1b[3mhi\x1b[0m"
    );
}

#[test]
fn borders() {
    let w = vec![1, 2];
    assert_eq!(Border::render_top_border(&w), " ┌───┬────┐ ");
    assert_eq!(Border::render_mid_border(&w), " ├───┼────┤ ");
    assert_eq!(Border::render_bot_border(&w), " └───┴────┘ ");
    assert_eq!(Border::render_top_border(&vec![]), " ┌──┐ ");
    assert_eq!(
        Border::render_row_lines(vec!["a".to_string(), "bc".to_string()]),
        " │ a │ bc │ "
    );
}

#[test]
fn line_splitting() {
    assert_eq!(split_lines("a\r\nb\n"), vec!["a", "b"]);
    assert_eq!(split_lines(""), Vec::<String>::new());
    assert_eq!(split_lines("\n"), vec![""]);
    assert_eq!(split_lines("a\n\nb"), vec!["a", "", "b"]);
    assert_eq!(split_lines("a\r"), vec!["a\r"]);
    let text = "x\ny\r\nz";
    assert_eq!(split_lines(text), text.lines().collect::<Vec<_>>());
}

#[test]
fn string_helpers() {
    assert!(str_eq("abc", "abc"));
    assert!(!str_eq("abc", "abd"));
    assert!(!str_eq("ab", "abc"));
    assert_eq!(repeat_str("ab", 3), "ababab");
    assert_eq!(repeat_str("x", 0), "");
}
