//! Borders drawn around a widget's box, as text: the glyphs of each border
//! type, the top and bottom rows with their titles, and the side glyphs.

use vstd::prelude::*;
use crate::cells::{cell_len, cell_width, fit_cells, set_cell_size};
use crate::helpers::effective_border_edge_type;
use crate::style::{BorderKind, HorizontalAlign, Style};
use crate::text::{space_string, spaces, text_eq, text_of};
use crate::widget_core::texts;
use crate::content_box::{
    blank_rows, content_area, content_box_lines, content_size, crop_line, cropped, fit_fn, has_surface_paint, lines_view, padding_of, push_blanks,
    render_content_box, RenderedLine,
};

verus! {

/// The name of a border type, as the glyph table knows it.
pub open spec fn edge_name(kind: BorderKind) -> Seq<char> {
    match kind {
        BorderKind::Solid => "solid"@,
        BorderKind::Heavy => "heavy"@,
        BorderKind::Round => "round"@,
        BorderKind::Double => "double"@,
        BorderKind::Ascii => "ascii"@,
        BorderKind::Blank => "blank"@,
        BorderKind::Block => "block"@,
        BorderKind::Tall => "tall"@,
        BorderKind::Outer => "outer"@,
        BorderKind::Hkey => "hkey"@,
        BorderKind::Vkey => "vkey"@,
        BorderKind::Dashed => "dashed"@,
        BorderKind::Inner => "inner"@,
        BorderKind::Thick => "thick"@,
        BorderKind::Panel => "panel"@,
        BorderKind::Tab => "tab"@,
        BorderKind::Wide => "wide"@,
    }
}

pub fn edge_type_name(kind: BorderKind) -> (s: &'static str)
    ensures
        s@ == edge_name(kind),
{
    match kind {
        BorderKind::Solid => "solid",
        BorderKind::Heavy => "heavy",
        BorderKind::Round => "round",
        BorderKind::Double => "double",
        BorderKind::Ascii => "ascii",
        BorderKind::Blank => "blank",
        BorderKind::Block => "block",
        BorderKind::Tall => "tall",
        BorderKind::Outer => "outer",
        BorderKind::Hkey => "hkey",
        BorderKind::Vkey => "vkey",
        BorderKind::Dashed => "dashed",
        BorderKind::Inner => "inner",
        BorderKind::Thick => "thick",
        BorderKind::Panel => "panel",
        BorderKind::Tab => "tab",
        BorderKind::Wide => "wide",
    }
}

/// A horizontal border row's glyphs: left corner, fill, right corner.
#[derive(Debug, Clone, Copy, PartialEq, Eq, Structural)]
pub struct EdgeRow {
    pub left: char,
    pub fill: char,
    pub right: char,
}

/// The glyphs of a border: the top row, the side glyphs, and the bottom row.
#[derive(Debug, Clone, Copy, PartialEq, Eq, Structural)]
pub struct BorderChars {
    pub top: EdgeRow,
    pub left: char,
    pub right: char,
    pub bottom: EdgeRow,
}

pub open spec fn glyphs(t0: char, t1: char, t2: char, l: char, r: char, b0: char, b1: char, b2: char) -> BorderChars {
    BorderChars {
        top: EdgeRow { left: t0, fill: t1, right: t2 },
        left: l,
        right: r,
        bottom: EdgeRow { left: b0, fill: b1, right: b2 },
    }
}

/// The glyph table, by border type name; an unknown name draws blanks.
#[verifier::opaque]
pub open spec fn border_table(t: Seq<char>) -> BorderChars {
    if t == "solid"@ {
        glyphs('┌', '─', '┐', '│', '│', '└', '─', '┘')
    } else if t == "heavy"@ {
        glyphs('┏', '━', '┓', '┃', '┃', '┗', '━', '┛')
    } else if t == "block"@ {
        glyphs('▄', '▄', '▄', '█', '█', '▀', '▀', '▀')
    } else if t == "tall"@ {
        glyphs('▊', '▔', '▎', '▊', '▎', '▊', '▁', '▎')
    } else if t == "outer"@ {
        glyphs('▛', '▀', '▜', '▌', '▐', '▙', '▄', '▟')
    } else if t == "hkey"@ {
        glyphs('▔', '▔', '▔', ' ', ' ', '▁', '▁', '▁')
    } else if t == "vkey"@ {
        glyphs('▏', ' ', '▕', '▏', '▕', '▏', ' ', '▕')
    } else if t == "ascii"@ {
        glyphs('+', '-', '+', '|', '|', '+', '-', '+')
    } else if t == "blank"@ {
        glyphs(' ', ' ', ' ', ' ', ' ', ' ', ' ', ' ')
    } else if t == "round"@ {
        glyphs('╭', '─', '╮', '│', '│', '╰', '─', '╯')
    } else if t == "double"@ {
        glyphs('╔', '═', '╗', '║', '║', '╚', '═', '╝')
    } else if t == "dashed"@ {
        glyphs('┏', '╍', '┓', '╏', '╏', '┗', '╍', '┛')
    } else if t == "inner"@ {
        glyphs('▗', '▄', '▖', '▐', '▌', '▝', '▀', '▘')
    } else if t == "thick"@ {
        glyphs('█', '▀', '█', '█', '█', '█', '▄', '█')
    } else if t == "panel"@ {
        glyphs('▊', '█', '▎', '▊', '▎', '▊', '▁', '▎')
    } else if t == "tab"@ || t == "wide"@ {
        glyphs('▁', '▁', '▁', '▎', '▊', '▔', '▔', '▔')
    } else {
        glyphs(' ', ' ', ' ', ' ', ' ', ' ', ' ', ' ')
    }
}

/// The glyphs a border type draws with: on Windows with the safe-border
/// fallback on, a block border draws as a solid one.
pub open spec fn border_glyphs(t: Seq<char>, on_windows: bool, fallback: bool) -> BorderChars {
    border_table(if on_windows && fallback && t == "block"@ { "solid"@ } else { t })
}

fn g(t0: char, t1: char, t2: char, l: char, r: char, b0: char, b1: char, b2: char) -> (c: BorderChars)
    ensures
        c == glyphs(t0, t1, t2, l, r, b0, b1, b2),
{
    BorderChars {
        top: EdgeRow { left: t0, fill: t1, right: t2 },
        left: l,
        right: r,
        bottom: EdgeRow { left: b0, fill: b1, right: b2 },
    }
}

/// The glyphs a border type draws with, as [`border_glyphs`] states.
pub fn border_chars(edge_type: &str, on_windows: bool, fallback: bool) -> (c: BorderChars)
    ensures
        c == border_glyphs(edge_type@, on_windows, fallback),
{
    reveal(border_table);
    let t = effective_border_edge_type(edge_type, on_windows, fallback);
    if text_eq(t, "solid") {
        g('┌', '─', '┐', '│', '│', '└', '─', '┘')
    } else if text_eq(t, "heavy") {
        g('┏', '━', '┓', '┃', '┃', '┗', '━', '┛')
    } else if text_eq(t, "block") {
        g('▄', '▄', '▄', '█', '█', '▀', '▀', '▀')
    } else if text_eq(t, "tall") {
        g('▊', '▔', '▎', '▊', '▎', '▊', '▁', '▎')
    } else if text_eq(t, "outer") {
        g('▛', '▀', '▜', '▌', '▐', '▙', '▄', '▟')
    } else if text_eq(t, "hkey") {
        g('▔', '▔', '▔', ' ', ' ', '▁', '▁', '▁')
    } else if text_eq(t, "vkey") {
        g('▏', ' ', '▕', '▏', '▕', '▏', ' ', '▕')
    } else if text_eq(t, "ascii") {
        g('+', '-', '+', '|', '|', '+', '-', '+')
    } else if text_eq(t, "blank") {
        g(' ', ' ', ' ', ' ', ' ', ' ', ' ', ' ')
    } else if text_eq(t, "round") {
        g('╭', '─', '╮', '│', '│', '╰', '─', '╯')
    } else if text_eq(t, "double") {
        g('╔', '═', '╗', '║', '║', '╚', '═', '╝')
    } else if text_eq(t, "dashed") {
        g('┏', '╍', '┓', '╏', '╏', '┗', '╍', '┛')
    } else if text_eq(t, "inner") {
        g('▗', '▄', '▖', '▐', '▌', '▝', '▀', '▘')
    } else if text_eq(t, "thick") {
        g('█', '▀', '█', '█', '█', '█', '▄', '█')
    } else if text_eq(t, "panel") {
        g('▊', '█', '▎', '▊', '▎', '▊', '▁', '▎')
    } else if text_eq(t, "tab") || text_eq(t, "wide") {
        g('▁', '▁', '▁', '▎', '▊', '▔', '▔', '▔')
    } else {
        g(' ', ' ', ' ', ' ', ' ', ' ', ' ', ' ')
    }
}


/// `n` copies of `c`.
pub open spec fn repeat_char(c: char, n: int) -> Seq<char> {
    Seq::new(n as nat, |_i: int| c)
}

/// `c` where `present`, else nothing.
pub open spec fn opt_char(present: bool, c: char) -> Seq<char> {
    if present { seq![c] } else { seq![] }
}

/// `n`, or 1 where `n` is 0.
pub open spec fn one_or_more(n: usize) -> usize {
    if n < 1 { 1 } else { n }
}

/// A horizontal border row `width` cells wide (at least 1): the corners
/// where the sides have borders, the fill between.
pub open spec fn horizontal_row(row: EdgeRow, width: usize, has_left: bool, has_right: bool) -> Seq<char> {
    let w = one_or_more(width);
    let lw: int = if has_left { 1 } else { 0 };
    let rw: int = if has_right { 1 } else { 0 };
    let mid: int = if w - lw - rw > 0 { w - lw - rw } else { 0 };
    fit_cells(opt_char(has_left, row.left) + repeat_char(row.fill, mid) + opt_char(has_right, row.right), w)
}

/// Fill cells before and after a title with `space` cells to spare: one
/// before a left-aligned title, one after a right-aligned one, the rest on
/// the other side; a centred title splits them.
pub open spec fn title_fill(align: HorizontalAlign, space: int) -> (int, int) {
    match align {
        HorizontalAlign::Left => (if space < 1 { space } else { 1 }, if space > 1 { space - 1 } else { 0 }),
        HorizontalAlign::Right => (if space > 1 { space - 1 } else { 0 }, if space < 1 { space } else { 1 }),
        HorizontalAlign::Center => (space / 2, space - space / 2),
    }
}

/// A horizontal border row with a title laid over it: the title, cut to
/// the room between the corners less a blank beside each corner, is framed
/// by those blanks and placed by `align` among fill glyphs. With no room, or
/// an empty title, the row stays plain.
pub open spec fn titled_row(row: EdgeRow, width: usize, has_left: bool, has_right: bool, title: Seq<char>, align: HorizontalAlign) -> Seq<char> {
    let plain = horizontal_row(row, width, has_left, has_right);
    let w = one_or_more(width) as int;
    let lw: int = if has_left { 1 } else { 0 };
    let rw: int = if has_right { 1 } else { 0 };
    if w <= lw + rw {
        plain
    } else {
        let inner = w - lw - rw;
        let max_t = if inner - (lw + rw) > 0 { inner - (lw + rw) } else { 0 };
        if max_t == 0 {
            plain
        } else {
            let shown = if cell_width(title) > max_t { fit_cells(title, max_t as usize) } else { title };
            let tw = cell_width(shown) as int;
            if tw == 0 {
                plain
            } else {
                let space = if inner - (tw + lw + rw) > 0 { inner - (tw + lw + rw) } else { 0 };
                let (before, after) = title_fill(align, space);
                fit_cells(
                    opt_char(has_left, row.left) + repeat_char(row.fill, before) + spaces(lw as nat) + shown + spaces(rw as nat)
                        + repeat_char(row.fill, after) + opt_char(has_right, row.right),
                    w as usize,
                )
            }
        }
    }
}

/// `n` copies of `c`, as text.
fn repeat_string(c: char, n: usize) -> (r: String)
    ensures
        r@ == repeat_char(c, n as int),
{
    let mut s = String::new();
    let mut i: usize = 0;
    while i < n
        invariant
            i <= n,
            s@ == repeat_char(c, i as int),
        decreases n - i,
    {
        let one = char_string(c);
        s.append(one.as_str());
        assert(s@ =~= repeat_char(c, i + 1));
        i = i + 1;
    }
    s
}

/// The one-character text `c`.
fn char_string(c: char) -> (r: String)
    ensures
        r@ == seq![c],
{
    let mut s = String::new();
    s.push(c);
    s
}

fn opt_char_string(present: bool, c: char) -> (r: String)
    ensures
        r@ == opt_char(present, c),
{
    if present {
        char_string(c)
    } else {
        String::new()
    }
}

/// A horizontal border row, as [`horizontal_row`] states.
pub fn border_horizontal_row(row: EdgeRow, width: usize, has_left: bool, has_right: bool) -> (r: String)
    ensures
        r@ == horizontal_row(row, width, has_left, has_right),
{
    let w = if width < 1 {
        1
    } else {
        width
    };
    let lw: usize = if has_left { 1 } else { 0 };
    let rw: usize = if has_right { 1 } else { 0 };
    let mid = w.saturating_sub(lw + rw);
    let mut t = opt_char_string(has_left, row.left);
    let fill = repeat_string(row.fill, mid);
    t.append(fill.as_str());
    let right = opt_char_string(has_right, row.right);
    t.append(right.as_str());
    set_cell_size(t.as_str(), w)
}

/// A horizontal border row with a title over it, as [`titled_row`] states.
#[verifier::rlimit(40)]
pub fn overlay_border_text(row: EdgeRow, width: usize, has_left: bool, has_right: bool, title: &str, align: HorizontalAlign) -> (r: String)
    ensures
        r@ == titled_row(row, width, has_left, has_right, title@, align),
{
    let plain = border_horizontal_row(row, width, has_left, has_right);
    let w = if width < 1 {
        1
    } else {
        width
    };
    let lw: usize = if has_left { 1 } else { 0 };
    let rw: usize = if has_right { 1 } else { 0 };
    if w <= lw + rw {
        return plain;
    }
    let inner = w - lw - rw;
    let max_t = inner.saturating_sub(lw + rw);
    if max_t == 0 {
        return plain;
    }
    let shown = if cell_len(title) > max_t {
        set_cell_size(title, max_t)
    } else {
        text_of(title)
    };
    let tw = cell_len(shown.as_str());
    if tw == 0 {
        return plain;
    }
    let space = inner.saturating_sub(tw.saturating_add(lw + rw));
    assert(space == (if inner - (tw + lw + rw) > 0 { inner - (tw + lw + rw) } else { 0 }));
    let (before, after) = title_fill_exec(align, space);
    title_row_text(row, has_left, has_right, before, shown.as_str(), after, w)
}

fn title_fill_exec(align: HorizontalAlign, space: usize) -> (r: (usize, usize))
    ensures
        (r.0 as int, r.1 as int) == title_fill(align, space as int),
{
    match align {
        HorizontalAlign::Left => (if space < 1 { space } else { 1 }, space.saturating_sub(1)),
        HorizontalAlign::Right => (space.saturating_sub(1), if space < 1 { space } else { 1 }),
        HorizontalAlign::Center => (space / 2, space - space / 2),
    }
}

/// Corner, fill, the title framed by a blank beside each corner, fill,
/// corner, fitted to `w` cells.
fn title_row_text(row: EdgeRow, has_left: bool, has_right: bool, before: usize, shown: &str, after: usize, w: usize) -> (r: String)
    ensures
        r@ == fit_cells(
            opt_char(has_left, row.left) + repeat_char(row.fill, before as int) + spaces((if has_left { 1nat } else { 0nat }))
                + shown@ + spaces((if has_right { 1nat } else { 0nat })) + repeat_char(row.fill, after as int) + opt_char(
                has_right,
                row.right,
            ),
            w,
        ),
{
    let lw: usize = if has_left { 1 } else { 0 };
    let rw: usize = if has_right { 1 } else { 0 };
    let mut t = opt_char_string(has_left, row.left);
    let f1 = repeat_string(row.fill, before);
    t.append(f1.as_str());
    let p1 = space_string(lw);
    t.append(p1.as_str());
    t.append(shown);
    let p2 = space_string(rw);
    t.append(p2.as_str());
    let f2 = repeat_string(row.fill, after);
    t.append(f2.as_str());
    let right = opt_char_string(has_right, row.right);
    t.append(right.as_str());
    set_cell_size(t.as_str(), w)
}


/// Lines shaped to a `w` by `h` rectangle: the first `h` lines fitted to
/// `w` cells, blank rows below.
pub open spec fn shaped_lines(lines: Seq<Seq<char>>, w: usize, h: usize) -> Seq<Seq<char>> {
    let shown = if lines.len() < h { lines.len() as int } else { h as int };
    lines.take(shown).map_values(fit_fn(w)) + blank_rows(h - shown, w as int)
}

/// Lines shaped to a `w` by `h` rectangle, as [`shaped_lines`] states.
pub fn shape_lines(lines: &Vec<String>, w: usize, h: usize) -> (out: Vec<String>)
    ensures
        texts(out@) == shaped_lines(texts(lines@), w, h),
{
    let ghost ls = texts(lines@);
    let shown = if lines.len() < h {
        lines.len()
    } else {
        h
    };
    let mut out: Vec<String> = Vec::new();
    let mut k: usize = 0;
    while k < shown
        invariant
            k <= shown <= lines@.len(),
            ls == texts(lines@),
            texts(out@) == ls.take(k as int).map_values(fit_fn(w)),
        decreases shown - k,
    {
        let ghost before = texts(out@);
        let row = set_cell_size(lines[k].as_str(), w);
        out.push(row);
        assert(texts(out@) =~= before.push(row@));
        assert(ls.take(k + 1) =~= ls.take(k as int).push(ls[k as int]));
        assert(texts(out@) =~= ls.take(k + 1).map_values(fit_fn(w)));
        k = k + 1;
    }
    let blank = space_string(w);
    let ghost top = texts(out@);
    push_blanks(&mut out, &blank, h - shown);
    assert(Seq::new((h - shown) as nat, |_i: int| blank@) =~= blank_rows(h - shown, w as int));
    out
}

pub open spec fn crop_fn(w: usize) -> spec_fn(Seq<char>) -> Seq<char> {
    |l: Seq<char>| cropped(l, w)
}

/// A content row between the side glyphs, fitted to `w` cells.
pub open spec fn side_fn(left: Option<char>, right: Option<char>, w: usize) -> spec_fn(Seq<char>) -> Seq<char> {
    |l: Seq<char>| fit_cells(opt_char(left is Some, left->0) + l + opt_char(right is Some, right->0), w)
}

/// Some edge of the style has a border.
pub open spec fn has_border(style: Style) -> bool {
    style.border_top is Some || style.border_right is Some || style.border_bottom is Some || style.border_left is Some
}

/// The glyph set an edge of the style draws with.
pub open spec fn edge_glyphs(kind: BorderKind, on_windows: bool, fallback: bool) -> BorderChars {
    border_glyphs(edge_name(kind), on_windows, fallback)
}

/// A top or bottom border row: with its title laid over it where there is a
/// non-empty one.
pub open spec fn edge_row(row: EdgeRow, w: usize, has_left: bool, has_right: bool, title: Option<Seq<char>>, align: HorizontalAlign) -> Seq<char> {
    match title {
        Some(t) => if t.len() > 0 {
            titled_row(row, w, has_left, has_right, t, align)
        } else {
            horizontal_row(row, w, has_left, has_right)
        },
        None => horizontal_row(row, w, has_left, has_right),
    }
}

/// A box's lines with its border drawn round them. Without a border the
/// lines are unchanged. Otherwise the content, cut to the inner width,
/// fills the rows between the top and bottom borders; each row gets the
/// left and right side glyphs; the top row carries the title and the bottom
/// row the subtitle; and the whole is shaped to the full size (each size at
/// least one cell).
pub open spec fn bordered_lines(
    content: Seq<Seq<char>>,
    inner_width: usize,
    style: Style,
    full_width: usize,
    full_height: usize,
    title: Option<Seq<char>>,
    subtitle: Option<Seq<char>>,
    title_align: HorizontalAlign,
    subtitle_align: HorizontalAlign,
    on_windows: bool,
    fallback: bool,
) -> Seq<Seq<char>> {
    if !has_border(style) {
        content
    } else {
        let iw = one_or_more(inner_width);
        let fw = one_or_more(full_width);
        let fh = one_or_more(full_height);
        let rows: int = (if style.border_top is Some { 1int } else { 0int }) + (if style.border_bottom is Some { 1int } else { 0int });
        let ih: int = if fh - rows > 0 { fh - rows } else { 0 };
        let interior = shaped_lines(content.map_values(crop_fn(iw)), iw, ih as usize);
        shaped_lines(framed(interior, style, fw, title, subtitle, title_align, subtitle_align, on_windows, fallback), fw, fh)
    }
}

fn edge_row_exec(row: EdgeRow, w: usize, has_left: bool, has_right: bool, title: Option<&str>, align: HorizontalAlign) -> (r: String)
    ensures
        r@ == edge_row(row, w, has_left, has_right, match title { Some(t) => Some(t@), None => None }, align),
{
    match title {
        Some(t) => if t.unicode_len() > 0 {
            overlay_border_text(row, w, has_left, has_right, t, align)
        } else {
            border_horizontal_row(row, w, has_left, has_right)
        },
        None => border_horizontal_row(row, w, has_left, has_right),
    }
}

/// The content rows between the side glyphs.
fn side_rows(interior: &Vec<String>, left: Option<char>, right: Option<char>, w: usize) -> (out: Vec<String>)
    ensures
        texts(out@) == texts(interior@).map_values(side_fn(left, right, w)),
{
    let ghost ls = texts(interior@);
    let mut out: Vec<String> = Vec::new();
    let mut k: usize = 0;
    while k < interior.len()
        invariant
            k <= interior@.len(),
            ls == texts(interior@),
            texts(out@) == ls.take(k as int).map_values(side_fn(left, right, w)),
        decreases interior@.len() - k,
    {
        let mut t = match left {
            Some(c) => char_string(c),
            None => String::new(),
        };
        t.append(interior[k].as_str());
        let r = match right {
            Some(c) => char_string(c),
            None => String::new(),
        };
        t.append(r.as_str());
        let row = set_cell_size(t.as_str(), w);
        let ghost before = texts(out@);
        out.push(row);
        assert(texts(out@) =~= before.push(row@));
        assert(ls.take(k + 1) =~= ls.take(k as int).push(ls[k as int]));
        assert(texts(out@) =~= ls.take(k + 1).map_values(side_fn(left, right, w)));
        k = k + 1;
    }
    assert(ls.take(ls.len() as int) =~= ls);
    out
}

/// Each line cut to `w` cells.
fn crop_all(lines: &Vec<String>, w: usize) -> (out: Vec<String>)
    ensures
        texts(out@) == texts(lines@).map_values(crop_fn(w)),
{
    let ghost ls = texts(lines@);
    let mut out: Vec<String> = Vec::new();
    let mut k: usize = 0;
    while k < lines.len()
        invariant
            k <= lines@.len(),
            ls == texts(lines@),
            texts(out@) == ls.take(k as int).map_values(crop_fn(w)),
        decreases lines@.len() - k,
    {
        let row = crop_line(lines[k].as_str(), w);
        let ghost before = texts(out@);
        out.push(row);
        assert(texts(out@) =~= before.push(row@));
        assert(ls.take(k + 1) =~= ls.take(k as int).push(ls[k as int]));
        assert(texts(out@) =~= ls.take(k + 1).map_values(crop_fn(w)));
        k = k + 1;
    }
    assert(ls.take(ls.len() as int) =~= ls);
    out
}

/// A copy of the lines.
fn copy_lines(lines: &Vec<String>) -> (out: Vec<String>)
    ensures
        texts(out@) == texts(lines@),
{
    let ghost ls = texts(lines@);
    let mut out: Vec<String> = Vec::new();
    let mut k: usize = 0;
    while k < lines.len()
        invariant
            k <= lines@.len(),
            ls == texts(lines@),
            texts(out@) == ls.take(k as int),
        decreases lines@.len() - k,
    {
        let ghost before = texts(out@);
        out.push(lines[k].clone());
        assert(texts(out@) =~= before.push(ls[k as int]));
        assert(ls.take(k + 1) =~= ls.take(k as int).push(ls[k as int]));
        k = k + 1;
    }
    assert(ls.take(ls.len() as int) =~= ls);
    out
}

/// The top border row, the content rows between the side glyphs, and the
/// bottom border row, each `fw` cells wide.
pub open spec fn framed(
    interior: Seq<Seq<char>>,
    style: Style,
    fw: usize,
    title: Option<Seq<char>>,
    subtitle: Option<Seq<char>>,
    title_align: HorizontalAlign,
    subtitle_align: HorizontalAlign,
    on_windows: bool,
    fallback: bool,
) -> Seq<Seq<char>> {
    let has_left = style.border_left is Some;
    let has_right = style.border_right is Some;
    let lc = side_glyph(style.border_left, true, on_windows, fallback);
    let rc = side_glyph(style.border_right, false, on_windows, fallback);
    edge_lines(style.border_top, true, fw, has_left, has_right, title, title_align, on_windows, fallback)
        + interior.map_values(side_fn(lc, rc, fw))
        + edge_lines(style.border_bottom, false, fw, has_left, has_right, subtitle, subtitle_align, on_windows, fallback)
}

/// The border row for an edge: none without a border; else its glyph row,
/// with the title laid over it.
pub open spec fn edge_lines(
    kind: Option<BorderKind>,
    top: bool,
    fw: usize,
    has_left: bool,
    has_right: bool,
    title: Option<Seq<char>>,
    align: HorizontalAlign,
    on_windows: bool,
    fallback: bool,
) -> Seq<Seq<char>> {
    match kind {
        Some(k) => {
            let g = edge_glyphs(k, on_windows, fallback);
            seq![edge_row(if top { g.top } else { g.bottom }, fw, has_left, has_right, title, align)]
        },
        None => seq![],
    }
}

fn edge_lines_exec(
    kind: Option<BorderKind>,
    top: bool,
    fw: usize,
    has_left: bool,
    has_right: bool,
    title: Option<&str>,
    align: HorizontalAlign,
    on_windows: bool,
    fallback: bool,
) -> (out: Vec<String>)
    ensures
        texts(out@) == edge_lines(kind, top, fw, has_left, has_right, match title { Some(t) => Some(t@), None => None }, align, on_windows, fallback),
{
    let mut out: Vec<String> = Vec::new();
    match kind {
        Some(k) => {
            let g = border_chars(edge_type_name(k), on_windows, fallback);
            let row = if top { g.top } else { g.bottom };
            let r = edge_row_exec(row, fw, has_left, has_right, title, align);
            out.push(r);
            assert(texts(out@) =~= seq![r@]);
        },
        None => {
            assert(texts(out@) =~= Seq::<Seq<char>>::empty());
        },
    }
    out
}

/// The side glyph an edge draws: none without a border.
pub open spec fn side_glyph(kind: Option<BorderKind>, left: bool, on_windows: bool, fallback: bool) -> Option<char> {
    match kind {
        Some(k) => Some(if left { edge_glyphs(k, on_windows, fallback).left } else { edge_glyphs(k, on_windows, fallback).right }),
        None => None,
    }
}

fn side_glyph_exec(kind: Option<BorderKind>, left: bool, on_windows: bool, fallback: bool) -> (c: Option<char>)
    ensures
        c == side_glyph(kind, left, on_windows, fallback),
{
    match kind {
        Some(k) => {
            let g = border_chars(edge_type_name(k), on_windows, fallback);
            Some(if left { g.left } else { g.right })
        },
        None => None,
    }
}

/// `a` followed by `b`.
fn join_lines(a: Vec<String>, b: &Vec<String>) -> (out: Vec<String>)
    ensures
        texts(out@) == texts(a@) + texts(b@),
{
    let mut out = a;
    let ghost first = texts(out@);
    let mut k: usize = 0;
    while k < b.len()
        invariant
            k <= b@.len(),
            texts(out@) == first + texts(b@).take(k as int),
        decreases b@.len() - k,
    {
        let ghost before = texts(out@);
        out.push(b[k].clone());
        assert(texts(out@) =~= before.push(texts(b@)[k as int]));
        assert(texts(b@).take(k + 1) =~= texts(b@).take(k as int).push(texts(b@)[k as int]));
        k = k + 1;
    }
    assert(texts(b@).take(b@.len() as int) =~= texts(b@));
    out
}

fn frame_rows(
    interior: &Vec<String>,
    style: &Style,
    fw: usize,
    title: Option<&str>,
    subtitle: Option<&str>,
    title_align: HorizontalAlign,
    subtitle_align: HorizontalAlign,
    on_windows: bool,
    fallback: bool,
) -> (out: Vec<String>)
    ensures
        texts(out@) == framed(
            texts(interior@),
            *style,
            fw,
            match title { Some(t) => Some(t@), None => None },
            match subtitle { Some(t) => Some(t@), None => None },
            title_align,
            subtitle_align,
            on_windows,
            fallback,
        ),
{
    let has_left = style.border_left.is_some();
    let has_right = style.border_right.is_some();
    let lc = side_glyph_exec(style.border_left, true, on_windows, fallback);
    let rc = side_glyph_exec(style.border_right, false, on_windows, fallback);
    let top = edge_lines_exec(style.border_top, true, fw, has_left, has_right, title, title_align, on_windows, fallback);
    let sides = side_rows(interior, lc, rc, fw);
    let bottom = edge_lines_exec(style.border_bottom, false, fw, has_left, has_right, subtitle, subtitle_align, on_windows, fallback);
    let upper = join_lines(top, &sides);
    join_lines(upper, &bottom)
}

/// Draw the border round a box's lines, as [`bordered_lines`] states.
pub fn apply_border_edges(
    content: &Vec<String>,
    inner_width: usize,
    style: &Style,
    full_width: usize,
    full_height: usize,
    title: Option<&str>,
    subtitle: Option<&str>,
    title_align: HorizontalAlign,
    subtitle_align: HorizontalAlign,
    on_windows: bool,
    fallback: bool,
) -> (out: Vec<String>)
    ensures
        texts(out@) == bordered_lines(
            texts(content@),
            inner_width,
            *style,
            full_width,
            full_height,
            match title { Some(t) => Some(t@), None => None },
            match subtitle { Some(t) => Some(t@), None => None },
            title_align,
            subtitle_align,
            on_windows,
            fallback,
        ),
{
    if !(style.border_top.is_some() || style.border_right.is_some() || style.border_bottom.is_some() || style.border_left.is_some()) {
        return copy_lines(content);
    }
    let iw = if inner_width < 1 {
        1
    } else {
        inner_width
    };
    let fw = if full_width < 1 {
        1
    } else {
        full_width
    };
    let fh = if full_height < 1 {
        1
    } else {
        full_height
    };
    let rows: usize = (if style.border_top.is_some() { 1 } else { 0 }) + (if style.border_bottom.is_some() { 1 } else { 0 });
    let ih = fh.saturating_sub(rows);
    let cut = crop_all(content, iw);
    let interior = shape_lines(&cut, iw, ih);
    let all = frame_rows(&interior, style, fw, title, subtitle, title_align, subtitle_align, on_windows, fallback);
    shape_lines(&all, fw, fh)
}


/// The width inside the border: the content area, the line pad on both
/// sides and the side padding, at least one cell.
pub open spec fn inner_box_width(full_width: usize, full_height: usize, style: Style, line_pad: u16) -> int {
    let p = padding_of(style);
    let w = content_size(full_width, full_height, style, line_pad).0 + 2 * line_pad + p.left + p.right;
    if w < 1 { 1 } else { w }
}

/// A widget's whole box, for the lines it rendered into its content area:
/// nothing where it keeps what lies under it and drew nothing; else its
/// content box (see `content_box_lines`) with the border drawn round it.
pub open spec fn widget_box_lines(
    rendered: Seq<(Seq<char>, bool)>,
    full_width: usize,
    full_height: usize,
    style: Style,
    line_pad: u16,
    keeps_underlay: bool,
    title: Option<Seq<char>>,
    subtitle: Option<Seq<char>>,
    title_align: HorizontalAlign,
    subtitle_align: HorizontalAlign,
    on_windows: bool,
    fallback: bool,
) -> Seq<Seq<char>> {
    let preserve = keeps_underlay || (!has_surface_paint(style) && rendered.len() == 0);
    if preserve && rendered.len() == 0 {
        seq![]
    } else {
        bordered_lines(
            content_box_lines(rendered, full_width, full_height, style, line_pad, keeps_underlay),
            inner_box_width(full_width, full_height, style, line_pad) as usize,
            style,
            full_width,
            full_height,
            title,
            subtitle,
            title_align,
            subtitle_align,
            on_windows,
            fallback,
        )
    }
}

/// A widget's whole box, as [`widget_box_lines`] states.
pub fn render_widget_box(
    rendered: &Vec<RenderedLine>,
    full_width: usize,
    full_height: usize,
    style: &Style,
    line_pad: u16,
    keeps_underlay: bool,
    title: Option<&str>,
    subtitle: Option<&str>,
    title_align: HorizontalAlign,
    subtitle_align: HorizontalAlign,
    on_windows: bool,
    fallback: bool,
) -> (out: Vec<String>)
    ensures
        texts(out@) == widget_box_lines(
            lines_view(rendered@),
            full_width,
            full_height,
            *style,
            line_pad,
            keeps_underlay,
            match title { Some(t) => Some(t@), None => None },
            match subtitle { Some(t) => Some(t@), None => None },
            title_align,
            subtitle_align,
            on_windows,
            fallback,
        ),
{
    let surface = style.bg.is_some() || style.border_top.is_some() || style.border_right.is_some()
        || style.border_bottom.is_some() || style.border_left.is_some();
    let empty = rendered.len() == 0;
    if (keeps_underlay || (!surface && empty)) && empty {
        let none: Vec<String> = Vec::new();
        assert(texts(none@) =~= Seq::<Seq<char>>::empty());
        return none;
    }
    let inner = render_content_box(rendered, full_width, full_height, style, line_pad, keeps_underlay);
    let (cw, _ch) = content_area(full_width, full_height, style, line_pad);
    let (pl, pr): (usize, usize) = match style.padding {
        Some(p) => (p.left as usize, p.right as usize),
        None => (0, 0),
    };
    proof {
        crate::content_box::lemma_box_width_fits(full_width, full_height, *style, line_pad);
    }
    let iw0 = cw + 2 * (line_pad as usize) + pl + pr;
    let iw = if iw0 < 1 {
        1
    } else {
        iw0
    };
    apply_border_edges(
        &inner,
        iw,
        style,
        full_width,
        full_height,
        title,
        subtitle,
        title_align,
        subtitle_align,
        on_windows,
        fallback,
    )
}


/// Shaping gives exactly the asked number of rows.
pub proof fn law_shaped_lines_height(lines: Seq<Seq<char>>, w: usize, h: usize)
    ensures
        shaped_lines(lines, w, h).len() == h,
{
}

/// A box with a border is exactly as tall as the widget (at least one row).
pub proof fn law_bordered_box_has_full_height(
    content: Seq<Seq<char>>,
    inner_width: usize,
    style: Style,
    full_width: usize,
    full_height: usize,
    title: Option<Seq<char>>,
    subtitle: Option<Seq<char>>,
    title_align: HorizontalAlign,
    subtitle_align: HorizontalAlign,
    on_windows: bool,
    fallback: bool,
)
    requires
        has_border(style),
    ensures
        bordered_lines(content, inner_width, style, full_width, full_height, title, subtitle, title_align, subtitle_align, on_windows, fallback).len()
            == one_or_more(full_height),
{
}

} // verus!
