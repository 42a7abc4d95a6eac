//! The style properties a widget carries, as plain values.

use vstd::prelude::*;

verus! {

/// An opaque RGB colour.
#[derive(Debug, Clone, Copy, PartialEq, Eq, Structural)]
pub struct Color {
    pub r: u8,
    pub g: u8,
    pub b: u8,
}

impl Color {
    pub fn rgb(r: u8, g: u8, b: u8) -> (c: Color)
        ensures
            c == (Color { r, g, b }),
    {
        Color { r, g, b }
    }
}

#[derive(Debug, Clone, Copy, PartialEq, Eq, Structural)]
pub enum Display {
    Block,
    /// The widget takes no space and is not drawn (`display: none`).
    Collapsed,
}

#[derive(Debug, Clone, Copy, PartialEq, Eq, Structural)]
pub enum Visibility {
    Visible,
    Hidden,
}

#[derive(Debug, Clone, Copy, PartialEq, Eq, Structural)]
pub enum Overflow {
    Auto,
    Hidden,
    Scroll,
}

#[derive(Debug, Clone, Copy, PartialEq, Eq, Structural)]
pub enum Layout {
    Vertical,
    Horizontal,
    Grid,
}

#[derive(Debug, Clone, Copy, PartialEq, Eq, Structural)]
pub enum DockEdge {
    Top,
    Right,
    Bottom,
    Left,
}

/// A length: a number of cells, a percentage, a fraction of the free space, or `auto`.
#[derive(Debug, Clone, Copy, PartialEq, Eq, Structural)]
pub enum Scalar {
    Cells(u32),
    Percent(u32),
    Fraction(u32),
    Auto,
}

/// Four-sided spacing (margin or padding), in cells.
#[derive(Debug, Clone, Copy, PartialEq, Eq, Structural)]
pub struct Spacing {
    pub top: u16,
    pub right: u16,
    pub bottom: u16,
    pub left: u16,
}

#[derive(Debug, Clone, Copy, PartialEq, Eq, Structural)]
pub enum HorizontalAlign {
    Left,
    Center,
    Right,
}

#[derive(Debug, Clone, Copy, PartialEq, Eq, Structural)]
pub enum VerticalAlign {
    Top,
    Middle,
    Bottom,
}

/// Two-axis alignment.
#[derive(Debug, Clone, Copy, PartialEq, Eq, Structural)]
pub struct Alignment {
    pub horizontal: HorizontalAlign,
    pub vertical: VerticalAlign,
}

/// Text alignment within a line.
#[derive(Debug, Clone, Copy, PartialEq, Eq, Structural)]
pub enum TextAlign {
    Left,
    Center,
    Right,
    Justify,
}

/// Offset of a widget from its laid-out position.
#[derive(Debug, Clone, Copy, PartialEq, Eq, Structural)]
pub struct Offset {
    pub x: i32,
    pub y: i32,
}

#[derive(Debug, Clone, Copy, PartialEq, Eq, Structural)]
pub enum Constrain {
    Unconstrained,
    Inflect,
    Inside,
}

/// Kind of line drawn on one edge of a border.
#[derive(Debug, Clone, Copy, PartialEq, Eq, Structural)]
pub enum BorderKind {
    Solid,
    Heavy,
    Round,
    Double,
    Ascii,
    Blank,
    Block,
    Tall,
    Outer,
    Hkey,
    Vkey,
    Dashed,
    Inner,
    Thick,
    Panel,
    Tab,
    Wide,
}

/// Whether a widget's width and height count its padding and border.
#[derive(Debug, Clone, Copy, PartialEq, Eq, Structural)]
pub enum BoxSizing {
    ContentBox,
    BorderBox,
}

/// A widget's style: every property is optional (`None` = unset).
#[derive(Debug, Clone, PartialEq, Eq)]
pub struct Style {
    pub display: Option<Display>,
    pub visibility: Option<Visibility>,
    pub overflow: Option<Overflow>,
    pub layout: Option<Layout>,
    pub dock: Option<DockEdge>,
    pub width: Option<Scalar>,
    pub height: Option<Scalar>,
    pub min_width: Option<Scalar>,
    pub max_width: Option<Scalar>,
    pub min_height: Option<Scalar>,
    pub max_height: Option<Scalar>,
    pub margin: Option<Spacing>,
    pub padding: Option<Spacing>,
    pub align: Option<Alignment>,
    pub content_align: Option<Alignment>,
    pub offset: Option<Offset>,
    pub constrain: Option<Constrain>,
    pub grid_size_columns: Option<u16>,
    pub grid_size_rows: Option<u16>,
    pub grid_columns: Option<Scalar>,
    pub grid_rows: Option<Scalar>,
    pub grid_gutter_horizontal: Option<u16>,
    pub grid_gutter_vertical: Option<u16>,
    pub border: Option<bool>,
    pub border_top: Option<BorderKind>,
    pub border_right: Option<BorderKind>,
    pub border_bottom: Option<BorderKind>,
    pub border_left: Option<BorderKind>,
    pub fg: Option<Color>,
    pub bg: Option<Color>,
    pub tint: Option<Color>,
    pub opacity: Option<u8>,
    pub bold: Option<bool>,
    pub dim: Option<bool>,
    pub italic: Option<bool>,
    pub underline: Option<bool>,
    pub reverse: Option<bool>,
    pub text_align: Option<TextAlign>,
    pub layer: Option<String>,
    pub box_sizing: Option<BoxSizing>,
}

/// Equality of two optional texts, by their characters.
pub open spec fn same_opt_text(a: Option<String>, b: Option<String>) -> bool {
    match (a, b) {
        (Some(x), Some(y)) => x@ == y@,
        (None, None) => true,
        _ => false,
    }
}

/// Compares two optional texts by their characters.
pub fn opt_text_eq(a: &Option<String>, b: &Option<String>) -> (eq: bool)
    ensures
        eq == same_opt_text(*a, *b),
{
    match (a, b) {
        (Some(x), Some(y)) => *x == *y,
        (None, None) => true,
        _ => false,
    }
}

impl Style {
    /// The properties whose change alters the size or position of a widget.
    pub open spec fn layout_props_differ(&self, other: &Style) -> bool {
        ||| self.display != other.display
        ||| self.visibility != other.visibility
        ||| self.overflow != other.overflow
        ||| self.layout != other.layout
        ||| self.dock != other.dock
        ||| self.width != other.width
        ||| self.height != other.height
        ||| self.min_width != other.min_width
        ||| self.max_width != other.max_width
        ||| self.min_height != other.min_height
        ||| self.max_height != other.max_height
        ||| self.margin != other.margin
        ||| self.padding != other.padding
        ||| self.align != other.align
        ||| self.content_align != other.content_align
        ||| self.offset != other.offset
        ||| self.constrain != other.constrain
        ||| self.grid_size_columns != other.grid_size_columns
        ||| self.grid_size_rows != other.grid_size_rows
        ||| self.grid_columns != other.grid_columns
        ||| self.grid_rows != other.grid_rows
        ||| self.grid_gutter_horizontal != other.grid_gutter_horizontal
        ||| self.grid_gutter_vertical != other.grid_gutter_vertical
        ||| self.border != other.border
        ||| self.border_top != other.border_top
        ||| self.border_right != other.border_right
        ||| self.border_bottom != other.border_bottom
        ||| self.border_left != other.border_left
    }

    /// The properties that only change how a widget is painted.
    pub open spec fn visual_props_equal(&self, other: &Style) -> bool {
        &&& self.fg == other.fg
        &&& self.bg == other.bg
        &&& self.tint == other.tint
        &&& self.opacity == other.opacity
        &&& self.bold == other.bold
        &&& self.dim == other.dim
        &&& self.italic == other.italic
        &&& self.underline == other.underline
        &&& self.reverse == other.reverse
        &&& self.text_align == other.text_align
        &&& same_opt_text(self.layer, other.layer)
        &&& self.box_sizing == other.box_sizing
    }

    /// Two styles agree on every property.
    pub open spec fn same_as(&self, other: &Style) -> bool {
        !self.layout_props_differ(other) && self.visual_props_equal(other)
    }

    /// The style with every property unset.
    pub open spec fn spec_new() -> Style {
        Style {
            display: None,
            visibility: None,
            overflow: None,
            layout: None,
            dock: None,
            width: None,
            height: None,
            min_width: None,
            max_width: None,
            min_height: None,
            max_height: None,
            margin: None,
            padding: None,
            align: None,
            content_align: None,
            offset: None,
            constrain: None,
            grid_size_columns: None,
            grid_size_rows: None,
            grid_columns: None,
            grid_rows: None,
            grid_gutter_horizontal: None,
            grid_gutter_vertical: None,
            border: None,
            border_top: None,
            border_right: None,
            border_bottom: None,
            border_left: None,
            fg: None,
            bg: None,
            tint: None,
            opacity: None,
            bold: None,
            dim: None,
            italic: None,
            underline: None,
            reverse: None,
            text_align: None,
            layer: None,
            box_sizing: None,
        }
    }

    /// The style with no property set.
    pub fn new() -> (s: Style)
        ensures
            s.is_unset(),
            s == Style::spec_new(),
    {
        Style {
            display: None,
            visibility: None,
            overflow: None,
            layout: None,
            dock: None,
            width: None,
            height: None,
            min_width: None,
            max_width: None,
            min_height: None,
            max_height: None,
            margin: None,
            padding: None,
            align: None,
            content_align: None,
            offset: None,
            constrain: None,
            grid_size_columns: None,
            grid_size_rows: None,
            grid_columns: None,
            grid_rows: None,
            grid_gutter_horizontal: None,
            grid_gutter_vertical: None,
            border: None,
            border_top: None,
            border_right: None,
            border_bottom: None,
            border_left: None,
            fg: None,
            bg: None,
            tint: None,
            opacity: None,
            bold: None,
            dim: None,
            italic: None,
            underline: None,
            reverse: None,
            text_align: None,
            layer: None,
            box_sizing: None,
        }
    }

    /// No property is set.
    pub open spec fn is_unset(&self) -> bool {
        &&& self.display is None
        &&& self.visibility is None
        &&& self.overflow is None
        &&& self.layout is None
        &&& self.dock is None
        &&& self.width is None
        &&& self.height is None
        &&& self.min_width is None
        &&& self.max_width is None
        &&& self.min_height is None
        &&& self.max_height is None
        &&& self.margin is None
        &&& self.padding is None
        &&& self.align is None
        &&& self.content_align is None
        &&& self.offset is None
        &&& self.constrain is None
        &&& self.grid_size_columns is None
        &&& self.grid_size_rows is None
        &&& self.grid_columns is None
        &&& self.grid_rows is None
        &&& self.grid_gutter_horizontal is None
        &&& self.grid_gutter_vertical is None
        &&& self.border is None
        &&& self.border_top is None
        &&& self.border_right is None
        &&& self.border_bottom is None
        &&& self.border_left is None
        &&& self.fg is None
        &&& self.bg is None
        &&& self.tint is None
        &&& self.opacity is None
        &&& self.bold is None
        &&& self.dim is None
        &&& self.italic is None
        &&& self.underline is None
        &&& self.reverse is None
        &&& self.text_align is None
        &&& self.layer is None
        &&& self.box_sizing is None
    }

    /// Compares every layout-affecting property of two styles.
    pub fn layout_props_differ_exec(&self, other: &Style) -> (d: bool)
        ensures
            d == self.layout_props_differ(other),
    {
        self.display != other.display || self.visibility != other.visibility || self.overflow
            != other.overflow || self.layout != other.layout || self.dock != other.dock
            || self.width != other.width || self.height != other.height || self.min_width
            != other.min_width || self.max_width != other.max_width || self.min_height
            != other.min_height || self.max_height != other.max_height || self.margin
            != other.margin || self.padding != other.padding || self.align != other.align
            || self.content_align != other.content_align || self.offset != other.offset
            || self.constrain != other.constrain || self.grid_size_columns
            != other.grid_size_columns || self.grid_size_rows != other.grid_size_rows
            || self.grid_columns != other.grid_columns || self.grid_rows != other.grid_rows
            || self.grid_gutter_horizontal != other.grid_gutter_horizontal
            || self.grid_gutter_vertical != other.grid_gutter_vertical || self.border
            != other.border || self.border_top != other.border_top || self.border_right
            != other.border_right || self.border_bottom != other.border_bottom
            || self.border_left != other.border_left
    }

    /// Compares every property of two styles.
    pub fn equals(&self, other: &Style) -> (eq: bool)
        ensures
            eq == self.same_as(other),
    {
        if self.layout_props_differ_exec(other) {
            return false;
        }
        self.fg == other.fg && self.bg == other.bg && self.tint == other.tint && self.opacity
            == other.opacity && self.bold == other.bold && self.dim == other.dim && self.italic
            == other.italic && self.underline == other.underline && self.reverse == other.reverse
            && self.text_align == other.text_align && opt_text_eq(&self.layer, &other.layer)
            && self.box_sizing == other.box_sizing
    }

    /// Copies a style property by property.
    pub fn duplicate(&self) -> (s: Style)
        ensures
            s.same_as(self),
            !s.layout_props_differ(self),
    {
        let layer = match &self.layer {
            Some(l) => Some(l.clone()),
            None => None,
        };
        Style { layer, ..*self }
    }
}

impl Default for Style {
    fn default() -> (s: Style)
        ensures
            s.is_unset(),
    {
        Style::new()
    }
}

} // verus!
