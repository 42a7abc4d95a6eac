use textual_widgets::content_box::{apply_content_alignment, content_area, render_content_box, trim_end, RenderedLine};
use textual_widgets::style::{Alignment, BorderKind, Color, HorizontalAlign, Spacing, Style, VerticalAlign};

fn lines(items: &[&str]) -> Vec<String> {
    items.iter().map(|s| s.to_string()).collect()
}

fn rendered(items: &[&str]) -> Vec<RenderedLine> {
    items.iter().map(|s| RenderedLine::plain(s)).collect()
}

#[test]
fn trim_end_drops_trailing_whitespace_only() {
    assert_eq!(trim_end("  ab \t "), "  ab");
    assert_eq!(trim_end("   "), "");
    assert_eq!(trim_end(""), "");
}

#[test]
fn content_alignment_centers_and_right_aligns_lines() {
    let centered = apply_content_alignment(&rendered(&["ab", "abcd"]), 8, 2, HorizontalAlign::Center, VerticalAlign::Top);
    assert_eq!(centered, lines(&["   ab   ", "  abcd  "]));
    let right = apply_content_alignment(&rendered(&["ab  "]), 6, 1, HorizontalAlign::Right, VerticalAlign::Top);
    assert_eq!(right, lines(&["    ab"]));
}

#[test]
fn content_alignment_pads_rows_vertically() {
    let middle = apply_content_alignment(&rendered(&["x"]), 3, 4, HorizontalAlign::Left, VerticalAlign::Middle);
    assert_eq!(middle, lines(&["   ", "x  ", "   ", "   "]));
    let bottom = apply_content_alignment(&rendered(&["x"]), 3, 3, HorizontalAlign::Right, VerticalAlign::Bottom);
    assert_eq!(bottom, lines(&["   ", "   ", "  x"]));
    let cut = apply_content_alignment(&rendered(&["a", "b", "c"]), 2, 2, HorizontalAlign::Left, VerticalAlign::Bottom);
    assert_eq!(cut, lines(&["a ", "b "]));
}

#[test]
fn content_area_subtracts_border_line_pad_and_padding() {
    let mut style = Style::new();
    style.border_left = Some(BorderKind::Solid);
    style.border_right = Some(BorderKind::Solid);
    style.border_top = Some(BorderKind::Solid);
    style.padding = Some(Spacing { top: 1, right: 2, bottom: 0, left: 1 });
    assert_eq!(content_area(20, 10, &style, 1), (20 - 2 - 2 - 3, 10 - 1 - 1));
    assert_eq!(content_area(2, 1, &style, 4), (1, 1));
}

#[test]
fn content_box_fills_area_and_padding() {
    let mut style = Style::new();
    style.padding = Some(Spacing { top: 1, right: 1, bottom: 0, left: 2 });
    let out = render_content_box(&rendered(&["hello"]), 10, 4, &style, 0, false);
    assert_eq!(out, lines(&["          ", "  hello   ", "          ", "          "]));
}

#[test]
fn content_box_applies_line_pad_and_alignment() {
    let mut style = Style::new();
    style.bg = Some(Color::rgb(1, 2, 3));
    style.content_align = Some(Alignment { horizontal: HorizontalAlign::Right, vertical: VerticalAlign::Bottom });
    let out = render_content_box(&rendered(&["ab"]), 8, 2, &style, 1, false);
    assert_eq!(out, lines(&["        ", " ab     "]));
    style.padding = None;
    let plain = render_content_box(&rendered(&["ab"]), 6, 1, &style, 0, false);
    assert_eq!(plain, lines(&["    ab"]));
}

#[test]
fn content_box_keeps_underlay_for_empty_unpainted_widgets() {
    let style = Style::new();
    assert!(render_content_box(&Vec::new(), 5, 2, &style, 0, false).is_empty());
    let kept = render_content_box(&rendered(&["toolongtext"]), 4, 3, &style, 0, true);
    assert_eq!(kept, lines(&["tool"]));
}

#[test]
fn synthetic_padding_counts_toward_the_aligned_width() {
    let padded = vec![RenderedLine::padded("ab  ")];
    let out = apply_content_alignment(&padded, 6, 1, HorizontalAlign::Right, VerticalAlign::Top);
    assert_eq!(out, lines(&["  ab  "]));
}
