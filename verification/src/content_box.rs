//! The box a widget's rendered text is placed in: the content area left inside
//! the border, the line pad and the padding; content alignment within it; and
//! the padded, filled lines that the border is then drawn around.

use vstd::prelude::*;
use crate::cells::{cell_len, cell_width, fit_cells, set_cell_size};
use crate::helpers::{border_cells, border_spacing_from_style};
use crate::style::{HorizontalAlign, Spacing, Style, VerticalAlign};
use crate::text::{is_whitespace, space_string, spaces, text_of, trim_back, unicode_whitespace};
use crate::widget_core::texts;

verus! {

/// `n`, or 1 where `n` is 0.
pub open spec fn one_or_more(n: int) -> int {
    if n < 1 { 1 } else { n }
}

/// `a - b`, or 0 where `b` exceeds `a`.
pub open spec fn minus(a: int, b: int) -> int {
    if a > b { a - b } else { 0 }
}

/// The padding a style gives, zero on every side where unset.
pub open spec fn padding_of(style: Style) -> Spacing {
    match style.padding {
        Some(p) => p,
        None => Spacing { top: 0, right: 0, bottom: 0, left: 0 },
    }
}

/// A line a widget rendered: its text, and whether padding that carries no
/// text style was appended to it (the widgets' own width-fitting adds such
/// padding, and the line pad is made of it).
#[derive(Debug, Clone)]
pub struct RenderedLine {
    pub text: String,
    pub synthetic_padding: bool,
}

impl RenderedLine {
    /// A line of text with no synthetic padding.
    pub fn plain(text: &str) -> (l: RenderedLine)
        ensures
            l.text@ == text@,
            !l.synthetic_padding,
    {
        RenderedLine { text: text_of(text), synthetic_padding: false }
    }

    /// A line whose trailing padding was added without a text style.
    pub fn padded(text: &str) -> (l: RenderedLine)
        ensures
            l.text@ == text@,
            l.synthetic_padding,
    {
        RenderedLine { text: text_of(text), synthetic_padding: true }
    }
}

/// A rendered line as its text and its synthetic-padding flag.
pub open spec fn line_view(l: RenderedLine) -> (Seq<char>, bool) {
    (l.text@, l.synthetic_padding)
}

pub open spec fn lines_view(ls: Seq<RenderedLine>) -> Seq<(Seq<char>, bool)> {
    ls.map_values(|l: RenderedLine| line_view(l))
}

/// The content area's `(width, height)` for a widget `full_width` by
/// `full_height` cells (each at least 1): what the border, the line pad on
/// both sides and the padding leave, at least one cell each way.
pub open spec fn content_size(full_width: usize, full_height: usize, style: Style, line_pad: u16) -> (int, int) {
    let (bt, bb, bl, br) = border_cells(style);
    let p = padding_of(style);
    let w = minus(minus(minus(one_or_more(full_width as int), bl + br), 2 * line_pad), p.left + p.right);
    let h = minus(minus(one_or_more(full_height as int), bt + bb), p.top + p.bottom);
    (one_or_more(w), one_or_more(h))
}

/// Cells a line is shifted right to align it horizontally in `width` cells,
/// given the width its text takes.
pub open spec fn left_pad(horizontal: HorizontalAlign, width: int, used: int) -> int {
    match horizontal {
        HorizontalAlign::Left => 0,
        HorizontalAlign::Center => minus(width, used) / 2,
        HorizontalAlign::Right => minus(width, used),
    }
}

/// Blank rows above the lines to align them vertically, given `extra` rows to spare.
pub open spec fn top_pad(vertical: VerticalAlign, extra: int) -> int {
    match vertical {
        VerticalAlign::Top => 0,
        VerticalAlign::Middle => extra / 2,
        VerticalAlign::Bottom => extra,
    }
}

/// One line aligned in `width` cells: the width its text takes (without
/// trailing whitespace, unless the line carries synthetic padding, which then
/// counts; at most `width`) decides the shift; the shifted line is then padded
/// or cut to `width` cells.
pub open spec fn aligned_line(line: (Seq<char>, bool), width: usize, horizontal: HorizontalAlign) -> Seq<char> {
    let used = if line.1 { cell_width(line.0) } else { cell_width(trim_back(line.0)) };
    let used_in = if used < width { used as int } else { width as int };
    fit_cells(spaces(left_pad(horizontal, width as int, used_in) as nat) + line.0, width)
}

pub open spec fn aligned_line_fn(width: usize, horizontal: HorizontalAlign) -> spec_fn((Seq<char>, bool)) -> Seq<char> {
    |l: (Seq<char>, bool)| aligned_line(l, width, horizontal)
}

/// `n` blank rows `width` cells wide.
pub open spec fn blank_rows(n: int, width: int) -> Seq<Seq<char>> {
    Seq::new(n as nat, |_i: int| spaces(width as nat))
}

/// Lines aligned in a `width` by `height` area: each line aligned
/// horizontally; then cut to `height` rows, or given blank rows above and
/// below as the vertical alignment asks.
pub open spec fn aligned_lines(
    lines: Seq<(Seq<char>, bool)>,
    width: usize,
    height: usize,
    horizontal: HorizontalAlign,
    vertical: VerticalAlign,
) -> Seq<Seq<char>> {
    let a = lines.map_values(aligned_line_fn(width, horizontal));
    if a.len() >= height {
        a.take(height as int)
    } else {
        let extra = height - a.len();
        let top = top_pad(vertical, extra);
        blank_rows(top, width as int) + a + blank_rows(extra - top, width as int)
    }
}

/// The text without its trailing whitespace.
pub fn trim_end(s: &str) -> (r: String)
    ensures
        r@ == trim_back(s@),
{
    let n = s.unicode_len();
    let mut j: usize = n;
    assert(s@.subrange(0, n as int) =~= s@);
    while j > 0 && is_whitespace(s.get_char(j - 1))
        invariant
            n == s@.len(),
            j <= n,
            trim_back(s@) == trim_back(s@.subrange(0, j as int)),
        decreases j,
    {
        assert(s@.subrange(0, j as int).drop_last() =~= s@.subrange(0, j as int - 1));
        j = j - 1;
    }
    assert(trim_back(s@.subrange(0, j as int)) == s@.subrange(0, j as int));
    text_of(s.substring_char(0, j))
}

/// Align rendered lines within a `width` by `height` content area.
pub fn apply_content_alignment(
    lines: &Vec<RenderedLine>,
    width: usize,
    height: usize,
    horizontal: HorizontalAlign,
    vertical: VerticalAlign,
) -> (out: Vec<String>)
    ensures
        texts(out@) == aligned_lines(lines_view(lines@), width, height, horizontal, vertical),
{
    let ghost ls = lines_view(lines@);
    let mut aligned: Vec<String> = Vec::new();
    let mut i: usize = 0;
    while i < lines.len()
        invariant
            i <= lines@.len(),
            ls == lines_view(lines@),
            texts(aligned@) == ls.subrange(0, i as int).map_values(aligned_line_fn(width, horizontal)),
        decreases lines@.len() - i,
    {
        let line = lines[i].text.as_str();
        let used_all = if lines[i].synthetic_padding {
            cell_len(line)
        } else {
            let trimmed = trim_end(line);
            cell_len(trimmed.as_str())
        };
        let used = if used_all < width {
            used_all
        } else {
            width
        };
        let shift = match horizontal {
            HorizontalAlign::Left => 0,
            HorizontalAlign::Center => width.saturating_sub(used) / 2,
            HorizontalAlign::Right => width.saturating_sub(used),
        };
        let mut shifted = space_string(shift);
        shifted.append(line);
        let fitted = set_cell_size(shifted.as_str(), width);
        let ghost before = texts(aligned@);
        aligned.push(fitted);
        assert(texts(aligned@) =~= before.push(fitted@));
        assert(ls.subrange(0, i + 1).map_values(aligned_line_fn(width, horizontal)) =~= ls.subrange(0, i as int).map_values(
            aligned_line_fn(width, horizontal),
        ).push(aligned_line(ls[i as int], width, horizontal)));
        i = i + 1;
    }
    assert(ls.subrange(0, lines@.len() as int) =~= ls);
    let ghost a = texts(aligned@);
    if aligned.len() >= height {
        let mut out: Vec<String> = Vec::new();
        let mut k: usize = 0;
        while k < height
            invariant
                k <= height <= aligned@.len(),
                a == texts(aligned@),
                texts(out@) == a.take(k as int),
            decreases height - k,
        {
            let ghost before = texts(out@);
            out.push(aligned[k].clone());
            assert(texts(out@) =~= before.push(a[k as int]));
            assert(a.take(k + 1) =~= a.take(k as int).push(a[k as int]));
            k = k + 1;
        }
        return out;
    }
    let extra = height - aligned.len();
    let top = match vertical {
        VerticalAlign::Top => 0,
        VerticalAlign::Middle => extra / 2,
        VerticalAlign::Bottom => extra,
    };
    let blank = space_string(width);
    let mut out: Vec<String> = Vec::new();
    push_blanks(&mut out, &blank, top);
    assert(Seq::<Seq<char>>::empty() + Seq::new(top as nat, |_i: int| blank@) =~= blank_rows(top as int, width as int) + a.take(0));
    let mut k: usize = 0;
    while k < aligned.len()
        invariant
            k <= aligned@.len(),
            a == texts(aligned@),
            texts(out@) == blank_rows(top as int, width as int) + a.take(k as int),
        decreases aligned@.len() - k,
    {
        let ghost before = texts(out@);
        out.push(aligned[k].clone());
        assert(texts(out@) =~= before.push(a[k as int]));
        assert(a.take(k + 1) =~= a.take(k as int).push(a[k as int]));
        k = k + 1;
    }
    assert(a.take(a.len() as int) =~= a);
    push_blanks(&mut out, &blank, extra - top);
    assert(Seq::new((extra - top) as nat, |_i: int| blank@) =~= blank_rows((extra - top) as int, width as int));
    out
}

/// Append `n` copies of the blank row `blank`.
pub(crate) fn push_blanks(out: &mut Vec<String>, blank: &String, n: usize)
    ensures
        texts(final(out)@) == texts(old(out)@) + Seq::new(n as nat, |_i: int| blank@),
{
    let ghost base = texts(out@);
    let mut k: usize = 0;
    while k < n
        invariant
            k <= n,
            texts(out@) == base + Seq::new(k as nat, |_i: int| blank@),
        decreases n - k,
    {
        let ghost before = texts(out@);
        out.push(blank.clone());
        assert(texts(out@) =~= before.push(blank@));
        assert(texts(out@) =~= base + Seq::new((k + 1) as nat, |_i: int| blank@));
        k = k + 1;
    }
}

/// The content area's size, as [`content_size`] states it.
pub fn content_area(full_width: usize, full_height: usize, style: &Style, line_pad: u16) -> (r: (usize, usize))
    ensures
        r.0 as int == content_size(full_width, full_height, *style, line_pad).0,
        r.1 as int == content_size(full_width, full_height, *style, line_pad).1,
{
    let (bt, bb, bl, br) = border_spacing_from_style(style);
    let p = match style.padding {
        Some(p) => p,
        None => Spacing { top: 0, right: 0, bottom: 0, left: 0 },
    };
    let fw = if full_width < 1 {
        1
    } else {
        full_width
    };
    let fh = if full_height < 1 {
        1
    } else {
        full_height
    };
    let lp2 = 2 * (line_pad as usize);
    let w = fw.saturating_sub(bl + br).saturating_sub(lp2).saturating_sub(p.left as usize + p.right as usize);
    let h = fh.saturating_sub(bt + bb).saturating_sub(p.top as usize + p.bottom as usize);
    (if w < 1 {
        1
    } else {
        w
    }, if h < 1 {
        1
    } else {
        h
    })
}

/// A background or a border edge: surface the widget's style paints itself.
pub open spec fn has_surface_paint(style: Style) -> bool {
    ||| style.bg is Some
    ||| style.border_top is Some
    ||| style.border_right is Some
    ||| style.border_bottom is Some
    ||| style.border_left is Some
}

/// The line cut to `width` cells where it is wider; else unchanged.
pub open spec fn cropped(line: Seq<char>, width: usize) -> Seq<char> {
    if cell_width(line) > width { fit_cells(line, width) } else { line }
}

/// A rendered line in the content area `width` cells wide with `pad` cells
/// of line pad on each side: fitted to the width, wrapped in the pad (which
/// is synthetic padding), fitted to the padded width, and cut to it; with no
/// line pad, cut to the width.
pub open spec fn body_line(line: (Seq<char>, bool), width: usize, pad: u16) -> (Seq<char>, bool) {
    let full = (width + 2 * pad) as usize;
    if pad > 0 {
        (cropped(fit_cells(spaces(pad as nat) + fit_cells(line.0, width) + spaces(pad as nat), full), full), true)
    } else {
        (cropped(line.0, width), line.1)
    }
}

pub open spec fn body_line_fn(width: usize, pad: u16) -> spec_fn((Seq<char>, bool)) -> (Seq<char>, bool) {
    |l: (Seq<char>, bool)| body_line(l, width, pad)
}

pub open spec fn text_part_fn() -> spec_fn((Seq<char>, bool)) -> Seq<char> {
    |l: (Seq<char>, bool)| l.0
}

pub open spec fn fit_fn(width: usize) -> spec_fn(Seq<char>) -> Seq<char> {
    |l: Seq<char>| fit_cells(l, width)
}

pub open spec fn side_pad_fn(left: u16, right: u16) -> spec_fn(Seq<char>) -> Seq<char> {
    |l: Seq<char>| spaces(left as nat) + l + spaces(right as nat)
}

/// A content alignment other than the default left/top.
pub open spec fn moves_content(style: Style) -> bool {
    match style.content_align {
        Some(ca) => !(ca.horizontal == HorizontalAlign::Left && ca.vertical == VerticalAlign::Top),
        None => false,
    }
}

/// Lines the widget's box holds inside its border, for the lines the widget
/// rendered into its content area. The area's lines are the rendered lines
/// in the line pad, aligned where the style moves content. A widget that
/// keeps what lies under it (by its own choice, or having neither surface
/// paint nor output) gets those lines alone, or nothing where it drew
/// nothing. Any other widget fills the area: its first rows fitted to the
/// area's width, blank rows below, the side padding around each row and
/// blank padding rows above and below.
pub open spec fn content_box_lines(
    rendered: Seq<(Seq<char>, bool)>,
    full_width: usize,
    full_height: usize,
    style: Style,
    line_pad: u16,
    keeps_underlay: bool,
) -> Seq<Seq<char>> {
    let (cw, ch) = content_size(full_width, full_height, style, line_pad);
    let fw = cw + 2 * line_pad;
    let body = rendered.map_values(body_line_fn(cw as usize, line_pad));
    let area = if moves_content(style) {
        let ca = style.content_align->0;
        aligned_lines(body, fw as usize, ch as usize, ca.horizontal, ca.vertical)
    } else {
        body.map_values(text_part_fn())
    };
    let preserve = keeps_underlay || (!has_surface_paint(style) && rendered.len() == 0);
    if preserve && rendered.len() == 0 {
        seq![]
    } else if preserve {
        area
    } else {
        filled_area(area, fw as usize, ch as usize, padding_of(style))
    }
}

/// Cut a line to `width` cells where it is wider.
pub(crate) fn crop_line(line: &str, width: usize) -> (r: String)
    ensures
        r@ == cropped(line@, width),
{
    if cell_len(line) > width {
        set_cell_size(line, width)
    } else {
        text_of(line)
    }
}

/// The area's width plus line pad and side padding never exceeds the
/// widget's width, but where the area was widened to one cell.
pub proof fn lemma_box_width_fits(full_width: usize, full_height: usize, style: Style, line_pad: u16)
    ensures
        ({
            let cw = content_size(full_width, full_height, style, line_pad).0;
            let p = padding_of(style);
            &&& cw >= 1
            &&& cw + 2 * line_pad + p.left + p.right <= one_or_more(full_width as int)
                || cw + 2 * line_pad + p.left + p.right <= 1 + 4 * 65535
        }),
{
}

/// Each rendered line placed in the line pad, as [`body_line`] states.
fn body_lines(rendered: &Vec<RenderedLine>, width: usize, line_pad: u16) -> (body: Vec<RenderedLine>)
    requires
        width + 2 * line_pad <= usize::MAX,
    ensures
        lines_view(body@) == lines_view(rendered@).map_values(body_line_fn(width, line_pad)),
{
    let ghost rs = lines_view(rendered@);
    let lp = line_pad as usize;
    let fw = width + 2 * lp;
    let mut body: Vec<RenderedLine> = Vec::new();
    let mut i: usize = 0;
    while i < rendered.len()
        invariant
            i <= rendered@.len(),
            rs == lines_view(rendered@),
            lp == line_pad,
            fw == width + 2 * line_pad,
            lines_view(body@) == rs.subrange(0, i as int).map_values(body_line_fn(width, line_pad)),
        decreases rendered@.len() - i,
    {
        let line = rendered[i].text.as_str();
        let row = if lp > 0 {
            let inner = set_cell_size(line, width);
            let mut t = space_string(lp);
            t.append(inner.as_str());
            let right = space_string(lp);
            t.append(right.as_str());
            let f = set_cell_size(t.as_str(), fw);
            RenderedLine { text: crop_line(f.as_str(), fw), synthetic_padding: true }
        } else {
            RenderedLine { text: crop_line(line, width), synthetic_padding: rendered[i].synthetic_padding }
        };
        let ghost before = lines_view(body@);
        body.push(row);
        assert(lines_view(body@) =~= before.push(line_view(row)));
        assert(rs.subrange(0, i + 1).map_values(body_line_fn(width, line_pad)) =~= rs.subrange(0, i as int).map_values(
            body_line_fn(width, line_pad),
        ).push(body_line(rs[i as int], width, line_pad)));
        i = i + 1;
    }
    assert(rs.subrange(0, rendered@.len() as int) =~= rs);
    body
}

/// The texts of the lines.
fn line_texts(lines: Vec<RenderedLine>) -> (out: Vec<String>)
    ensures
        texts(out@) == lines_view(lines@).map_values(text_part_fn()),
{
    let mut out: Vec<String> = Vec::new();
    let mut i: usize = 0;
    while i < lines.len()
        invariant
            i <= lines@.len(),
            texts(out@) == lines_view(lines@).subrange(0, i as int).map_values(text_part_fn()),
        decreases lines@.len() - i,
    {
        let ghost before = texts(out@);
        out.push(lines[i].text.clone());
        assert(texts(out@) =~= before.push(lines@[i as int].text@));
        assert(lines_view(lines@).subrange(0, i + 1).map_values(text_part_fn()) =~= lines_view(lines@).subrange(
            0,
            i as int,
        ).map_values(text_part_fn()).push(lines@[i as int].text@));
        i = i + 1;
    }
    assert(lines_view(lines@).subrange(0, lines@.len() as int) =~= lines_view(lines@));
    out
}

/// The filled area of a box: the first `height` lines fitted to `width`,
/// blank rows below, side padding around each row and blank padding rows
/// above and below.
pub open spec fn filled_area(area: Seq<Seq<char>>, width: usize, height: usize, p: Spacing) -> Seq<Seq<char>> {
    let shown = if area.len() < height { area.len() as int } else { height as int };
    let shaped = area.take(shown).map_values(fit_fn(width)) + blank_rows(height - shown, width as int);
    let pw = width + p.left + p.right;
    blank_rows(p.top as int, pw) + shaped.map_values(side_pad_fn(p.left, p.right)) + blank_rows(p.bottom as int, pw)
}

fn fill_area(area: &Vec<String>, width: usize, height: usize, p: Spacing) -> (out: Vec<String>)
    requires
        width + p.left + p.right <= usize::MAX,
    ensures
        texts(out@) == filled_area(texts(area@), width, height, p),
{
    let ghost av = texts(area@);
    let shown = if area.len() < height {
        area.len()
    } else {
        height
    };
    let pl = p.left as usize;
    let pr = p.right as usize;
    let pw = width + pl + pr;
    let left = space_string(pl);
    let right = space_string(pr);
    let blank_w = space_string(width);
    let blank_pw = space_string(pw);
    let mut out: Vec<String> = Vec::new();
    push_blanks(&mut out, &blank_pw, p.top as usize);
    let ghost top_rows = texts(out@);
    assert(top_rows =~= blank_rows(p.top as int, pw as int));
    let ghost shaped = av.take(shown as int).map_values(fit_fn(width)) + blank_rows(height - shown, width as int);
    let mut k: usize = 0;
    while k < height
        invariant
            k <= height,
            shown <= height,
            shown <= av.len(),
            av == texts(area@),
            left@ == spaces(pl as nat),
            right@ == spaces(pr as nat),
            blank_w@ == spaces(width as nat),
            pl == p.left,
            pr == p.right,
            shaped == av.take(shown as int).map_values(fit_fn(width)) + blank_rows(height - shown, width as int),
            shaped.len() == height,
            texts(out@) == top_rows + shaped.take(k as int).map_values(side_pad_fn(p.left, p.right)),
        decreases height - k,
    {
        let row = if k < shown {
            set_cell_size(area[k].as_str(), width)
        } else {
            blank_w.clone()
        };
        assert(row@ == shaped[k as int]);
        let mut t = left.clone();
        t.append(row.as_str());
        t.append(right.as_str());
        let ghost before = texts(out@);
        out.push(t);
        assert(texts(out@) =~= before.push(t@));
        assert(shaped.take(k + 1).map_values(side_pad_fn(p.left, p.right)) =~= shaped.take(k as int).map_values(
            side_pad_fn(p.left, p.right),
        ).push(side_pad_fn(p.left, p.right)(shaped[k as int])));
        k = k + 1;
    }
    assert(shaped.take(height as int) =~= shaped);
    push_blanks(&mut out, &blank_pw, p.bottom as usize);
    assert(Seq::new(p.bottom as nat, |_i: int| blank_pw@) =~= blank_rows(p.bottom as int, pw as int));
    out
}

/// Place the lines a widget rendered into its content area in its box, as
/// [`content_box_lines`] states.
pub fn render_content_box(
    rendered: &Vec<RenderedLine>,
    full_width: usize,
    full_height: usize,
    style: &Style,
    line_pad: u16,
    keeps_underlay: bool,
) -> (out: Vec<String>)
    ensures
        texts(out@) == content_box_lines(lines_view(rendered@), full_width, full_height, *style, line_pad, keeps_underlay),
{
    let (cw, ch) = content_area(full_width, full_height, style, line_pad);
    proof {
        lemma_box_width_fits(full_width, full_height, *style, line_pad);
    }
    let fw = cw + 2 * (line_pad as usize);
    let body = body_lines(rendered, cw, line_pad);
    let area = match style.content_align {
        Some(ca) => if !(ca.horizontal == HorizontalAlign::Left && ca.vertical == VerticalAlign::Top) {
            apply_content_alignment(&body, fw, ch, ca.horizontal, ca.vertical)
        } else {
            line_texts(body)
        },
        None => line_texts(body),
    };
    let surface = style.bg.is_some() || style.border_top.is_some() || style.border_right.is_some()
        || style.border_bottom.is_some() || style.border_left.is_some();
    let empty = rendered.len() == 0;
    let preserve = keeps_underlay || (!surface && empty);
    if preserve && empty {
        return Vec::new();
    }
    if preserve {
        return area;
    }
    let p = match style.padding {
        Some(p) => p,
        None => Spacing { top: 0, right: 0, bottom: 0, left: 0 },
    };
    fill_area(&area, fw, ch, p)
}

} // verus!
