use textual_widgets::style::{Color, Display, Layout, Overflow, Scalar, Spacing, Style, Visibility};
use textual_widgets::widget_core::{
    classify_style_change, fixed_height_from_constraints, set_class_flag, LayoutConstraints, StyleChangeKind,
    WidgetStyles,
};

#[test]
fn classify_identical_styles_returns_none() {
    let s = Style::default();
    assert_eq!(classify_style_change(&s, &s), StyleChangeKind::Unchanged);
}

#[test]
fn classify_visual_only_change_returns_visual() {
    let old = Style::default();
    let mut new = old.clone();
    new.fg = Some(Color::rgb(255, 0, 0));
    assert_eq!(classify_style_change(&old, &new), StyleChangeKind::Visual);
}

#[test]
fn classify_bg_change_returns_visual() {
    let old = Style::default();
    let mut new = old.clone();
    new.bg = Some(Color::rgb(0, 0, 255));
    assert_eq!(classify_style_change(&old, &new), StyleChangeKind::Visual);
}

#[test]
fn classify_bold_change_returns_visual() {
    let old = Style::default();
    let mut new = old.clone();
    new.bold = Some(true);
    assert_eq!(classify_style_change(&old, &new), StyleChangeKind::Visual);
}

#[test]
fn classify_border_change_returns_layout() {
    let old = Style::default();
    let mut new = old.clone();
    new.border = Some(true);
    assert_eq!(classify_style_change(&old, &new), StyleChangeKind::Layout);
}

#[test]
fn classify_opacity_change_returns_visual() {
    let old = Style::default();
    let mut new = old.clone();
    new.opacity = Some(128);
    assert_eq!(classify_style_change(&old, &new), StyleChangeKind::Visual);
}

#[test]
fn classify_display_change_returns_layout() {
    let old = Style::default();
    let mut new = old.clone();
    new.display = Some(Display::Collapsed);
    assert_eq!(classify_style_change(&old, &new), StyleChangeKind::Layout);
}

#[test]
fn classify_visibility_change_returns_layout() {
    let old = Style::default();
    let mut new = old.clone();
    new.visibility = Some(Visibility::Hidden);
    assert_eq!(classify_style_change(&old, &new), StyleChangeKind::Layout);
}

#[test]
fn classify_overflow_change_returns_layout() {
    let old = Style::default();
    let mut new = old.clone();
    new.overflow = Some(Overflow::Hidden);
    assert_eq!(classify_style_change(&old, &new), StyleChangeKind::Layout);
}

#[test]
fn classify_layout_change_returns_layout() {
    let old = Style::default();
    let mut new = old.clone();
    new.layout = Some(Layout::Horizontal);
    assert_eq!(classify_style_change(&old, &new), StyleChangeKind::Layout);
}

#[test]
fn classify_width_change_returns_layout() {
    let old = Style::default();
    let mut new = old.clone();
    new.width = Some(Scalar::Cells(42));
    assert_eq!(classify_style_change(&old, &new), StyleChangeKind::Layout);
}

#[test]
fn classify_margin_change_returns_layout() {
    let old = Style::default();
    let mut new = old.clone();
    new.margin = Some(Spacing { top: 1, right: 1, bottom: 1, left: 1 });
    assert_eq!(classify_style_change(&old, &new), StyleChangeKind::Layout);
}

#[test]
fn classify_padding_change_returns_layout() {
    let old = Style::default();
    let mut new = old.clone();
    new.padding = Some(Spacing { top: 2, right: 0, bottom: 2, left: 0 });
    assert_eq!(classify_style_change(&old, &new), StyleChangeKind::Layout);
}

#[test]
fn classify_mixed_changes_returns_layout() {
    let old = Style::default();
    let mut new = old.clone();
    new.fg = Some(Color::rgb(255, 0, 0));
    new.display = Some(Display::Collapsed);
    assert_eq!(classify_style_change(&old, &new), StyleChangeKind::Layout);
}

#[test]
fn classify_layer_change_returns_visual() {
    let old = Style::default();
    let mut new = old.clone();
    new.layer = Some("overlay".to_string());
    assert_eq!(classify_style_change(&old, &new), StyleChangeKind::Visual);
}

#[test]
fn widget_styles_invalidation_kind_delegates() {
    let a = WidgetStyles::default();
    let mut b = WidgetStyles::default();
    b.style.bg = Some(Color::rgb(0, 255, 0));
    assert_eq!(a.invalidation_kind(&b), StyleChangeKind::Visual);
}

#[test]
fn identical_widget_styles_need_no_invalidation() {
    let a = WidgetStyles::default().height(3);
    let b = a.clone();
    assert_eq!(a.invalidation_kind(&b), StyleChangeKind::Unchanged);
}

#[test]
fn fixed_height_requires_equal_bounds() {
    let fixed = LayoutConstraints::new().min_height(4).max_height(4);
    assert_eq!(fixed_height_from_constraints(&fixed), Some(4));
    let loose = LayoutConstraints::new().min_height(2).max_height(4);
    assert_eq!(fixed_height_from_constraints(&loose), None);
}

#[test]
fn class_flag_adds_once_and_removes_all() {
    let mut classes = vec!["a".to_string()];
    set_class_flag(&mut classes, "b", true);
    set_class_flag(&mut classes, "b", true);
    assert_eq!(classes, vec!["a".to_string(), "b".to_string()]);
    classes.push("b".to_string());
    set_class_flag(&mut classes, "b", false);
    assert_eq!(classes, vec!["a".to_string()]);
}
