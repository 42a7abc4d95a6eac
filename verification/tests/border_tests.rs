use textual_widgets::border::{
    apply_border_edges, border_chars, border_horizontal_row, edge_type_name, overlay_border_text, render_widget_box,
    EdgeRow,
};
use textual_widgets::content_box::RenderedLine;
use textual_widgets::style::{BorderKind, HorizontalAlign, Spacing, Style};

fn lines(items: &[&str]) -> Vec<String> {
    items.iter().map(|s| s.to_string()).collect()
}

fn boxed(kind: BorderKind) -> Style {
    let mut style = Style::new();
    style.border_top = Some(kind);
    style.border_bottom = Some(kind);
    style.border_left = Some(kind);
    style.border_right = Some(kind);
    style
}

#[test]
fn border_glyphs_follow_the_table() {
    let solid = border_chars("solid", false, false);
    assert_eq!((solid.top.left, solid.top.fill, solid.top.right), ('\u{250c}', '\u{2500}', '\u{2510}'));
    assert_eq!((solid.left, solid.right), ('\u{2502}', '\u{2502}'));
    let ascii = border_chars(edge_type_name(BorderKind::Ascii), false, false);
    assert_eq!((ascii.bottom.left, ascii.bottom.fill, ascii.bottom.right), ('+', '-', '+'));
    let block_on_windows = border_chars("block", true, true);
    assert_eq!(block_on_windows, solid);
    let unknown = border_chars("zigzag", false, false);
    assert_eq!(unknown.top.fill, ' ');
}

#[test]
fn horizontal_rows_have_corners_and_fill() {
    let row = EdgeRow { left: '+', fill: '-', right: '+' };
    assert_eq!(border_horizontal_row(row, 6, true, true), "+----+");
    assert_eq!(border_horizontal_row(row, 3, false, true), "--+");
    assert_eq!(border_horizontal_row(row, 0, true, true), "+");
}

#[test]
fn titles_sit_in_the_border_row() {
    let row = EdgeRow { left: '+', fill: '-', right: '+' };
    assert_eq!(overlay_border_text(row, 12, true, true, "Hi", HorizontalAlign::Left), "+- Hi -----+");
    assert_eq!(overlay_border_text(row, 12, true, true, "Hi", HorizontalAlign::Right), "+----- Hi -+");
    assert_eq!(overlay_border_text(row, 12, true, true, "Hi", HorizontalAlign::Center), "+--- Hi ---+");
    assert_eq!(overlay_border_text(row, 8, true, true, "Title", HorizontalAlign::Left), "+ Titl +");
    assert_eq!(overlay_border_text(row, 4, true, true, "Hi", HorizontalAlign::Left), "+--+");
}

#[test]
fn borders_frame_the_content() {
    let out = apply_border_edges(
        &lines(&["ab", "cdefgh"]),
        4,
        &boxed(BorderKind::Ascii),
        6,
        5,
        Some("T"),
        None,
        HorizontalAlign::Left,
        HorizontalAlign::Right,
        false,
        false,
    );
    assert_eq!(out, lines(&["+- T +", "|ab  |", "|cdef|", "|    |", "+----+"]));
    let none = apply_border_edges(&lines(&["x"]), 4, &Style::new(), 6, 5, None, None, HorizontalAlign::Left, HorizontalAlign::Right, false, false);
    assert_eq!(none, lines(&["x"]));
}

#[test]
fn widget_box_combines_padding_and_border() {
    let mut style = boxed(BorderKind::Round);
    style.padding = Some(Spacing { top: 0, right: 1, bottom: 0, left: 1 });
    let rendered = vec![RenderedLine::plain("hi")];
    let out = render_widget_box(&rendered, 8, 3, &style, 0, false, None, Some("s"), HorizontalAlign::Left, HorizontalAlign::Right, false, false);
    assert_eq!(out, lines(&["\u{256d}\u{2500}\u{2500}\u{2500}\u{2500}\u{2500}\u{2500}\u{256e}", "\u{2502} hi   \u{2502}", "\u{2570}\u{2500}\u{2500} s \u{2500}\u{256f}"]));
    assert!(render_widget_box(&Vec::new(), 8, 3, &Style::new(), 0, false, None, None, HorizontalAlign::Left, HorizontalAlign::Right, false, false).is_empty());
}
