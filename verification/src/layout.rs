//! Layout of container widgets: how a row shares its width among fixed and
//! flexible children, aligns children of different heights and composes
//! their lines; how a dock hands out bands to its items and composes their
//! lines around the fill area; and how a grid sizes its tracks and joins its
//! cells' lines with gaps.

use vstd::prelude::*;
use crate::style::{BoxSizing, DockEdge, Scalar, Style};
use crate::event::Action;
use crate::widget_core::{texts, LayoutConstraints};
use crate::cells::{fit_cells, set_cell_size};
use crate::text::{concat, space_string, spaces};

verus! {

/// Vertical alignment of the children of a row.
#[derive(Debug, Clone, Copy, PartialEq, Eq, Structural)]
pub enum RowAlign {
    Top,
    Center,
    Bottom,
}

/// Blank lines above and below a child `height` lines tall in a row whose
/// tallest child is `max_child_height` lines: all below when top-aligned, all
/// above when bottom-aligned, split (the odd line below) when centred.
pub open spec fn row_padding(align: RowAlign, max_child_height: usize, height: usize) -> (usize, usize) {
    let total: usize = if max_child_height > height { (max_child_height - height) as usize } else { 0 };
    match align {
        RowAlign::Top => (0, total),
        RowAlign::Center => ((total / 2) as usize, (total - total / 2) as usize),
        RowAlign::Bottom => (total, 0),
    }
}

/// A row pads a shorter child with exactly the lines it is missing: the
/// blank lines above and below add up to how much shorter the child is than
/// the tallest (none when it is not shorter). A top-aligned child has none
/// above, a bottom-aligned one none below, and a centred one is split
/// evenly, the odd line going below.
pub proof fn law_row_padding_fills_the_row(align: RowAlign, max_child_height: usize, height: usize)
    ensures
        ({
            let (top, bottom) = row_padding(align, max_child_height, height);
            let missing: int = if max_child_height > height { max_child_height - height } else { 0 };
            &&& top + bottom == missing
            &&& align == RowAlign::Top ==> top == 0
            &&& align == RowAlign::Bottom ==> bottom == 0
            &&& align == RowAlign::Center ==> top <= bottom <= top + 1
        }),
{
}

pub fn row_align_padding(align: RowAlign, max_child_height: usize, height: usize) -> (r: (usize, usize))
    ensures
        r == row_padding(align, max_child_height, height),
{
    let total = max_child_height.saturating_sub(height);
    match align {
        RowAlign::Top => (0, total),
        RowAlign::Center => (total / 2, total - total / 2),
        RowAlign::Bottom => (total, 0),
    }
}

/// Where a dock places an item.
#[derive(Debug, Clone, Copy, PartialEq, Eq, Structural)]
pub enum DockKind {
    Top,
    Bottom,
    Left,
    Right,
    Fill,
}

/// The size a dock band gets in a style, in cells: the requested size as a
/// 16-bit cell count.
pub open spec fn band_cells(size: usize) -> Scalar {
    Scalar::Cells((size % 65536) as u32)
}

/// The inline style a docked item gets: docked at its edge, with the band's
/// height (top, bottom) or width (left, right) when a size is given, that
/// size counting the item's padding and border (border-box sizing); nothing
/// for a fill item.
pub open spec fn dock_style(kind: DockKind, size: Option<usize>) -> Option<Style> {
    let base = Style::spec_new();
    match kind {
        DockKind::Top => Some(Style {
            dock: Some(DockEdge::Top),
            height: match size { Some(h) => Some(band_cells(h)), None => None },
            box_sizing: match size { Some(_) => Some(BoxSizing::BorderBox), None => None },
            ..base
        }),
        DockKind::Bottom => Some(Style {
            dock: Some(DockEdge::Bottom),
            height: match size { Some(h) => Some(band_cells(h)), None => None },
            box_sizing: match size { Some(_) => Some(BoxSizing::BorderBox), None => None },
            ..base
        }),
        DockKind::Left => Some(Style {
            dock: Some(DockEdge::Left),
            width: match size { Some(w) => Some(band_cells(w)), None => None },
            box_sizing: match size { Some(_) => Some(BoxSizing::BorderBox), None => None },
            ..base
        }),
        DockKind::Right => Some(Style {
            dock: Some(DockEdge::Right),
            width: match size { Some(w) => Some(band_cells(w)), None => None },
            box_sizing: match size { Some(_) => Some(BoxSizing::BorderBox), None => None },
            ..base
        }),
        DockKind::Fill => None,
    }
}

fn band_cells_exec(size: usize) -> (s: Scalar)
    ensures
        s == band_cells(size),
{
    Scalar::Cells((size % 65536) as u32)
}

/// The inline style to give a docked item, if any.
pub fn dock_item_style(kind: DockKind, size: Option<usize>) -> (s: Option<Style>)
    ensures
        s == dock_style(kind, size),
{
    let mut style = Style::new();
    assert(style == Style::spec_new());
    let band = match size {
        Some(n) => Some(band_cells_exec(n)),
        None => None,
    };
    // Band sizes are absolute: they include the item's padding and border.
    let sizing = match size {
        Some(_) => Some(BoxSizing::BorderBox),
        None => None,
    };
    match kind {
        DockKind::Top => {
            style.dock = Some(DockEdge::Top);
            style.height = band;
            style.box_sizing = sizing;
        },
        DockKind::Bottom => {
            style.dock = Some(DockEdge::Bottom);
            style.height = band;
            style.box_sizing = sizing;
        },
        DockKind::Left => {
            style.dock = Some(DockEdge::Left);
            style.width = band;
            style.box_sizing = sizing;
        },
        DockKind::Right => {
            style.dock = Some(DockEdge::Right);
            style.width = band;
            style.box_sizing = sizing;
        },
        DockKind::Fill => {
            return None;
        },
    }
    Some(style)
}


// ── Splitting space evenly ──────────────────────────────────────────────

/// Part `i` of `total` cells split into `parts` near-equal parts: the
/// remainder goes one cell each to the first parts.
pub open spec fn even_part(total: nat, parts: nat, i: int) -> nat {
    total / parts + if i < (total % parts) as int { 1nat } else { 0nat }
}

/// The sum of the first `k` even parts.
pub open spec fn even_sum(total: nat, parts: nat, k: int) -> nat
    decreases k,
{
    if k <= 0 { 0 } else { even_sum(total, parts, k - 1) + even_part(total, parts, k - 1) }
}

proof fn lemma_even_sum(total: nat, parts: nat, k: int)
    requires
        parts > 0,
        0 <= k <= parts,
    ensures
        even_sum(total, parts, k) == k * (total / parts) + (if k < (total % parts) as int { k } else { (total % parts) as int }),
    decreases k,
{
    let q = (total / parts) as int;
    let r = (total % parts) as int;
    if k == 0 {
        assert(0 * q == 0);
    } else {
        lemma_even_sum(total, parts, k - 1);
        assert((k - 1) * q + q == k * q) by (nonlinear_arith);
        let prev = even_sum(total, parts, k - 1) as int;
        assert(prev == (k - 1) * q + (if k - 1 < r { k - 1 } else { r }));
        assert(even_sum(total, parts, k) as int == prev + even_part(total, parts, k - 1) as int);
        if k - 1 < r {
            assert(even_part(total, parts, k - 1) as int == q + 1);
        } else {
            assert(even_part(total, parts, k - 1) as int == q);
        }
    }
}

/// The even parts add up to the whole.
pub proof fn law_even_split_sums_to_total(total: nat, parts: nat)
    requires
        parts > 0,
    ensures
        even_sum(total, parts, parts as int) == total,
{
    lemma_even_sum(total, parts, parts as int);
    assert(parts * (total / parts) + total % parts == total) by (nonlinear_arith)
        requires
            parts > 0,
    ;
    assert(total % parts < parts) by (nonlinear_arith)
        requires
            parts > 0,
    ;
}

/// `total` cells split into `parts` near-equal parts, the first ones a cell wider.
pub fn even_split(total: usize, parts: usize) -> (sizes: Vec<usize>)
    requires
        parts > 0,
    ensures
        sizes@.len() == parts,
        forall|i: int| 0 <= i < parts ==> #[trigger] sizes@[i] == even_part(total as nat, parts as nat, i),
{
    let base = total / parts;
    let rem = total % parts;
    let mut sizes: Vec<usize> = Vec::new();
    let mut i: usize = 0;
    assert(base * parts + rem == total && rem < parts) by (nonlinear_arith)
        requires
            parts > 0,
            base == total / parts,
            rem == total % parts,
    ;
    assert(base < usize::MAX || rem == 0) by (nonlinear_arith)
        requires
            parts > 0,
            base * parts + rem == total,
            rem < parts,
            total <= usize::MAX,
    ;
    while i < parts
        invariant
            i <= parts,
            base == total / parts,
            rem == total % parts,
            base < usize::MAX || rem == 0,
            rem < parts,
            sizes@.len() == i,
            forall|k: int| 0 <= k < i ==> #[trigger] sizes@[k] == even_part(total as nat, parts as nat, k),
        decreases parts - i,
    {
        let extra: usize = if i < rem { 1 } else { 0 };
        sizes.push(base + extra);
        i = i + 1;
    }
    sizes
}

/// The sizes of a grid's tracks (columns or rows): those given, else the
/// room left by the gaps (at least one cell) split evenly.
pub open spec fn track_sizes(given: Option<Seq<usize>>, total: usize, gap: usize, count: usize) -> Seq<nat> {
    match given {
        Some(sizes) => sizes.map_values(|v: usize| v as nat),
        None => {
            let gaps: int = gap * (if count > 0 { count - 1 } else { 0 });
            let inner: int = if total as int - gaps > 1 { total as int - gaps } else { 1 };
            Seq::new(count as nat, |i: int| even_part(inner as nat, count as nat, i))
        },
    }
}

/// A grid's track sizes, as [`track_sizes`] states.
pub fn grid_track_sizes(given: &Option<Vec<usize>>, total: usize, gap: usize, count: usize) -> (sizes: Vec<usize>)
    requires
        count > 0,
    ensures
        sizes@.map_values(|v: usize| v as nat) == track_sizes(
            match given { Some(v) => Some(v@), None => None },
            total,
            gap,
            count,
        ),
{
    match given {
        Some(v) => {
            let mut out: Vec<usize> = Vec::new();
            let mut i: usize = 0;
            while i < v.len()
                invariant
                    i <= v@.len(),
                    out@ == v@.take(i as int),
                decreases v@.len() - i,
            {
                out.push(v[i]);
                assert(out@ =~= v@.take(i + 1));
                i = i + 1;
            }
            assert(v@.take(v@.len() as int) =~= v@);
            out
        },
        None => {
            let gaps = match gap.checked_mul(count - 1) {
                Some(g) => g,
                None => usize::MAX,
            };
            let inner0 = total.saturating_sub(gaps);
            let inner = if inner0 < 1 {
                1
            } else {
                inner0
            };
            assert(inner as int == (if total as int - gap * (count - 1) > 1 { total as int - gap * (count - 1) } else { 1 })) by (nonlinear_arith)
                requires
                    gaps == (if gap * (count - 1) > usize::MAX { usize::MAX as int } else { gap * (count - 1) }),
                    inner0 == (if total >= gaps { total - gaps } else { 0 }),
                    inner == (if inner0 < 1 { 1 } else { inner0 }),
            ;
            let sizes = even_split(inner, count);
            assert(sizes@.map_values(|v: usize| v as nat) =~= Seq::new(count as nat, |i: int| even_part(inner as nat, count as nat, i)));
            sizes
        },
    }
}

// ── Hit testing ─────────────────────────────────────────────────────────

/// The child of a row of `count` children under column `x`, and the column
/// within it: the row spans its laid-out width (widened to reach `x`), split
/// evenly, each child at least one cell wide; past the children, the last
/// child at column 0.
pub open spec fn row_hit_from(total: nat, count: nat, x: nat, idx: nat, cursor: nat) -> Option<(nat, nat)>
    decreases count - idx,
{
    if idx >= count {
        Some(((count - 1) as nat, 0))
    } else {
        let p = even_part(total, count, idx as int);
        let w: nat = if p < 1 { 1 } else { p };
        if x < cursor + w {
            Some((idx, (x - cursor) as nat))
        } else {
            row_hit_from(total, count, x, idx + 1, cursor + w)
        }
    }
}

pub open spec fn row_hit(count: nat, last_width: u16, x: u16) -> Option<(nat, nat)> {
    if count == 0 {
        None
    } else {
        let reach: nat = if x as nat + 1 > last_width as nat { x as nat + 1 } else { last_width as nat };
        row_hit_from(reach, count, x as nat, 0, 0)
    }
}

/// The child of a row under column `x`, as [`row_hit`] states.
pub fn row_child_at_x(count: usize, last_width: u16, x: u16) -> (r: Option<(usize, u16)>)
    ensures
        match r {
            Some((i, dx)) => row_hit(count as nat, last_width, x) == Some((i as nat, dx as nat)),
            None => row_hit(count as nat, last_width, x) is None,
        },
{
    if count == 0 {
        return None;
    }
    let x1: usize = x as usize + 1;
    let total: usize = if x1 > last_width as usize { x1 } else { last_width as usize };
    let widths = even_split(total, count);
    let mut cursor: usize = 0;
    let mut idx: usize = 0;
    while idx < count
        invariant
            count > 0,
            widths@.len() == count,
            forall|k: int| 0 <= k < count ==> #[trigger] widths@[k] == even_part(total as nat, count as nat, k),
            total == (if x as nat + 1 > last_width as nat { x as nat + 1 } else { last_width as nat }),
            idx <= count,
            cursor <= x,
            row_hit(count as nat, last_width, x) == row_hit_from(total as nat, count as nat, x as nat, idx as nat, cursor as nat),
        decreases count - idx,
    {
        let w = if widths[idx] < 1 {
            1
        } else {
            widths[idx]
        };
        if (x as usize) < cursor + w {
            return Some((idx, (x as usize - cursor) as u16));
        }
        cursor = cursor + w;
        idx = idx + 1;
    }
    Some((count - 1, 0))
}

/// The child that focus moves to among children with the given focusable
/// flags, from the focused child (if any): the next focusable one (wrapping
/// round) or the previous one (wrapping round; the last where none is
/// focused). `None` where no child is focusable, where focus would stay put,
/// or for another action.
pub open spec fn focus_target(focusable: Seq<bool>, focused: Option<usize>, action: Action) -> Option<int> {
    let order = focus_order(focusable, focusable.len() as int);
    let pos = match focused {
        Some(f) => position_in(order, f as int),
        None => -1,
    };
    if order.len() == 0 {
        None
    } else {
        let next = match action {
            Action::FocusNext => if pos >= 0 { Some((pos + 1) % order.len() as int) } else { Some(0int) },
            Action::FocusPrevious => if pos <= 0 { Some(order.len() - 1) } else { Some(pos - 1) },
            _ => None,
        };
        match next {
            Some(n) => if focused == Some(order[n] as usize) { None } else { Some(order[n]) },
            None => None,
        }
    }
}

/// The positions of the focusable children among the first `k`.
pub open spec fn focus_order(focusable: Seq<bool>, k: int) -> Seq<int>
    decreases k,
{
    if k <= 0 {
        seq![]
    } else if focusable[k - 1] {
        focus_order(focusable, k - 1).push(k - 1)
    } else {
        focus_order(focusable, k - 1)
    }
}

/// Where `v` stands in `s`; -1 where absent.
pub open spec fn position_in(s: Seq<int>, v: int) -> int
    decreases s.len(),
{
    if s.len() == 0 {
        -1
    } else if s.last() == v {
        s.len() - 1
    } else {
        position_in(s.drop_last(), v)
    }
}

proof fn lemma_focus_order(focusable: Seq<bool>, k: int)
    requires
        0 <= k <= focusable.len(),
    ensures
        focus_order(focusable, k).len() <= k,
        forall|t: int| 0 <= t < focus_order(focusable, k).len() ==> 0 <= #[trigger] focus_order(focusable, k)[t] < k,
    decreases k,
{
    if k > 0 {
        lemma_focus_order(focusable, k - 1);
    }
}

proof fn lemma_position_in(s: Seq<int>, v: int)
    ensures
        -1 <= position_in(s, v) < s.len(),
        position_in(s, v) >= 0 ==> s[position_in(s, v)] == v,
        position_in(s, v) < 0 ==> !s.contains(v),
    decreases s.len(),
{
    if s.len() > 0 && s.last() != v {
        lemma_position_in(s.drop_last(), v);
        if s.contains(v) {
            let i = choose|i: int| 0 <= i < s.len() && s[i] == v;
            assert(s.drop_last()[i] == v);
        }
    }
}

/// Where focus moves, as [`focus_target`] states.
pub fn next_focus(focusable: &Vec<bool>, focused: Option<usize>, action: Action) -> (r: Option<usize>)
    ensures
        match r {
            Some(i) => focus_target(focusable@, focused, action) == Some(i as int),
            None => focus_target(focusable@, focused, action) is None,
        },
{
    let ghost fs = focusable@;
    let mut order: Vec<usize> = Vec::new();
    let mut pos: Option<usize> = None;
    let mut k: usize = 0;
    while k < focusable.len()
        invariant
            k <= fs.len(),
            fs == focusable@,
            order@.map_values(|v: usize| v as int) == focus_order(fs, k as int),
            match pos {
                Some(p) => focused is Some && p < order@.len() && p as int == position_in(focus_order(fs, k as int), focused->0 as int),
                None => focused is None || position_in(focus_order(fs, k as int), focused->0 as int) < 0,
            },
        decreases fs.len() - k,
    {
        proof {
            lemma_focus_order(fs, k as int);
        }
        if focusable[k] {
            let ghost before = focus_order(fs, k as int);
            let is_focused = match focused {
                Some(f) => f == k,
                None => false,
            };
            if is_focused {
                pos = Some(order.len());
            } else {
                proof {
                    if let Some(f) = focused {
                        let o = before.push(k as int);
                        assert(o.drop_last() =~= before);
                    }
                }
            }
            order.push(k);
            assert(order@.map_values(|v: usize| v as int) =~= focus_order(fs, k as int).push(k as int));
        }
        k = k + 1;
    }
    proof {
        lemma_focus_order(fs, fs.len() as int);
    }
    if order.len() == 0 {
        return None;
    }
    let ghost ord = focus_order(fs, fs.len() as int);
    assert(order@.len() == ord.len());
    let next_pos = match (action, pos) {
        (Action::FocusNext, Some(p)) => (p + 1) % order.len(),
        (Action::FocusPrevious, Some(p)) => if p == 0 {
            order.len() - 1
        } else {
            p - 1
        },
        (Action::FocusPrevious, None) => order.len() - 1,
        (Action::FocusNext, None) => 0,
        _ => {
            return None;
        },
    };
    assert(order@.map_values(|v: usize| v as int)[next_pos as int] == order@[next_pos as int] as int);
    let next_idx = order[next_pos];
    let same = match focused {
        Some(f) => f == next_idx,
        None => false,
    };
    if same {
        None
    } else {
        Some(next_idx)
    }
}

/// A dock item for hit testing: where it docks, and its band size (for top
/// and bottom items, the size asked for, else the height the child wants).
#[derive(Debug, Clone, Copy, PartialEq, Eq, Structural)]
pub struct DockBand {
    pub kind: DockKind,
    pub size: Option<usize>,
}

/// The band size an item takes from `room` cells: its size (default 1), at
/// least 1 and at most the room left.
pub open spec fn band_size(size: Option<usize>, room: u16) -> u16 {
    let s: nat = match size { Some(v) => if v < 1 { 1 } else { v as nat }, None => 1 };
    if s < room as nat { s as u16 } else { room }
}

/// A dock's free area while bands are taken off it: origin and size.
pub type DockArea = (u16, u16, u16, u16);

/// A fill item's index and area, where one was seen.
pub type FillSeen = Option<(int, u16, u16, u16, u16)>;

/// Whether `(x, y)` lies in the area at `(x0, y0)`, `w` by `h` cells.
pub open spec fn in_area(x: u16, y: u16, x0: u16, y0: u16, w: u16, h: u16) -> bool {
    x >= x0 && (x as int) < x0 as int + w as int && y >= y0 && (y as int) < y0 as int + h as int
}

/// `a + b`, saturating at `u16::MAX`.
pub open spec fn sat_add(a: u16, b: u16) -> u16 {
    if a as int + b as int > u16::MAX { u16::MAX } else { (a + b) as u16 }
}

/// One dock item taken off the free area: a hit on it, or the area left and
/// the fill item seen so far.
pub open spec fn dock_step(b: DockBand, k: int, x: u16, y: u16, a: DockArea, fill: FillSeen) -> (Option<(int, u16, u16, u16, u16)>, DockArea, FillSeen) {
    let (x0, y0, w, h) = a;
    match b.kind {
        DockKind::Top => {
            let bh = band_size(b.size, h);
            if in_area(x, y, x0, y0, w, bh) {
                (Some((k, (x - x0) as u16, (y - y0) as u16, w, bh)), a, fill)
            } else {
                (None, (x0, sat_add(y0, bh), w, (h - bh) as u16), fill)
            }
        },
        DockKind::Bottom => {
            let bh = band_size(b.size, h);
            let by = sat_add(y0, (h - bh) as u16);
            if in_area(x, y, x0, by, w, bh) {
                (Some((k, (x - x0) as u16, (y - by) as u16, w, bh)), a, fill)
            } else {
                (None, (x0, y0, w, (h - bh) as u16), fill)
            }
        },
        DockKind::Left => {
            let bw = band_size(b.size, w);
            if in_area(x, y, x0, y0, bw, h) {
                (Some((k, (x - x0) as u16, (y - y0) as u16, bw, h)), a, fill)
            } else {
                (None, (sat_add(x0, bw), y0, (w - bw) as u16, h), fill)
            }
        },
        DockKind::Right => {
            let bw = band_size(b.size, w);
            let bx = sat_add(x0, (w - bw) as u16);
            if in_area(x, y, bx, y0, bw, h) {
                (Some((k, (x - bx) as u16, (y - y0) as u16, bw, h)), a, fill)
            } else {
                (None, (x0, y0, (w - bw) as u16, h), fill)
            }
        },
        DockKind::Fill => (None, a, Some((k, x0, y0, if w < 1 { 1 } else { w }, if h < 1 { 1 } else { h }))),
    }
}

/// The item hit at `(x, y)` from item `k` on, in the free area `a`.
pub open spec fn dock_hit_from(bands: Seq<DockBand>, x: u16, y: u16, k: int, a: DockArea, fill: FillSeen) -> Option<(int, u16, u16, u16, u16)>
    decreases bands.len() - k,
{
    if k < 0 || k >= bands.len() {
        match fill {
            Some((i, fx, fy, fw, fh)) => if in_area(x, y, fx, fy, fw, fh) {
                Some((i, (x - fx) as u16, (y - fy) as u16, fw, fh))
            } else {
                None
            },
            None => None,
        }
    } else {
        let r = dock_step(bands[k], k, x, y, a, fill);
        match r.0 {
            Some(hit) => Some(hit),
            None => dock_hit_from(bands, x, y, k + 1, r.1, r.2),
        }
    }
}

/// The dock item under `(x, y)` in a dock `width` by `height` cells (each at
/// least 1), as the index, the column and row within it, and its width and
/// height: bands are taken off the free area in order, top and bottom bands
/// off its height, left and right bands off its width; the last fill item
/// gets what is left.
pub open spec fn dock_hit(bands: Seq<DockBand>, width: usize, height: usize, x: u16, y: u16) -> Option<(int, u16, u16, u16, u16)> {
    let w: u16 = if width < 1 { 1 } else { (width % 65536) as u16 };
    let h: u16 = if height < 1 { 1 } else { (height % 65536) as u16 };
    dock_hit_from(bands, x, y, 0, (0, 0, w, h), None)
}

fn band_size_exec(size: Option<usize>, room: u16) -> (r: u16)
    ensures
        r == band_size(size, room),
{
    let s: usize = match size {
        Some(v) => if v < 1 {
            1
        } else {
            v
        },
        None => 1,
    };
    if s < room as usize {
        s as u16
    } else {
        room
    }
}

pub open spec fn fill_view(f: Option<(usize, u16, u16, u16, u16)>) -> FillSeen {
    match f {
        Some((i, a, b, c, d)) => Some((i as int, a, b, c, d)),
        None => None,
    }
}

pub open spec fn hit_view(h: Option<(usize, u16, u16, u16, u16)>) -> Option<(int, u16, u16, u16, u16)> {
    match h {
        Some((i, a, b, c, d)) => Some((i as int, a, b, c, d)),
        None => None,
    }
}

fn in_area_exec(x: u16, y: u16, x0: u16, y0: u16, w: u16, h: u16) -> (r: bool)
    ensures
        r == in_area(x, y, x0, y0, w, h),
{
    x >= x0 && (x as u32) < x0 as u32 + w as u32 && y >= y0 && (y as u32) < y0 as u32 + h as u32
}

/// One dock item taken off the free area, as [`dock_step`] states.
fn dock_step_exec(b: DockBand, k: usize, x: u16, y: u16, a: DockArea, fill: Option<(usize, u16, u16, u16, u16)>) -> (r: (
    Option<(usize, u16, u16, u16, u16)>,
    DockArea,
    Option<(usize, u16, u16, u16, u16)>,
))
    ensures
        (hit_view(r.0), r.1, fill_view(r.2)) == dock_step(b, k as int, x, y, a, fill_view(fill)),
{
    let (x0, y0, w, h) = a;
    match b.kind {
        DockKind::Top => {
            let bh = band_size_exec(b.size, h);
            if in_area_exec(x, y, x0, y0, w, bh) {
                (Some((k, x - x0, y - y0, w, bh)), a, fill)
            } else {
                (None, (x0, y0.saturating_add(bh), w, h - bh), fill)
            }
        },
        DockKind::Bottom => {
            let bh = band_size_exec(b.size, h);
            let by = y0.saturating_add(h - bh);
            if in_area_exec(x, y, x0, by, w, bh) {
                (Some((k, x - x0, y - by, w, bh)), a, fill)
            } else {
                (None, (x0, y0, w, h - bh), fill)
            }
        },
        DockKind::Left => {
            let bw = band_size_exec(b.size, w);
            if in_area_exec(x, y, x0, y0, bw, h) {
                (Some((k, x - x0, y - y0, bw, h)), a, fill)
            } else {
                (None, (x0.saturating_add(bw), y0, w - bw, h), fill)
            }
        },
        DockKind::Right => {
            let bw = band_size_exec(b.size, w);
            let bx = x0.saturating_add(w - bw);
            if in_area_exec(x, y, bx, y0, bw, h) {
                (Some((k, x - bx, y - y0, bw, h)), a, fill)
            } else {
                (None, (x0, y0, w - bw, h), fill)
            }
        },
        DockKind::Fill => (None, a, Some((k, x0, y0, if w < 1 {
            1
        } else {
            w
        }, if h < 1 {
            1
        } else {
            h
        }))),
    }
}

/// The dock item under `(x, y)`, as [`dock_hit`] states.
pub fn dock_child_at(bands: &Vec<DockBand>, width: usize, height: usize, x: u16, y: u16) -> (r: Option<(usize, u16, u16, u16, u16)>)
    ensures
        hit_view(r) == dock_hit(bands@, width, height, x, y),
{
    let w: u16 = if width < 1 {
        1
    } else {
        (width % 65536) as u16
    };
    let h: u16 = if height < 1 {
        1
    } else {
        (height % 65536) as u16
    };
    let mut a: DockArea = (0, 0, w, h);
    let mut fill: Option<(usize, u16, u16, u16, u16)> = None;
    let mut k: usize = 0;
    while k < bands.len()
        invariant
            k <= bands@.len(),
            dock_hit(bands@, width, height, x, y) == dock_hit_from(bands@, x, y, k as int, a, fill_view(fill)),
        decreases bands@.len() - k,
    {
        let (hit, next, f) = dock_step_exec(bands[k], k, x, y, a, fill);
        if hit.is_some() {
            return hit;
        }
        a = next;
        fill = f;
        k = k + 1;
    }
    match fill {
        Some((i, fx, fy, fw, fh)) => {
            if in_area_exec(x, y, fx, fy, fw, fh) {
                Some((i, x - fx, y - fy, fw, fh))
            } else {
                None
            }
        },
        None => None,
    }
}


// ── Sharing a row's width ───────────────────────────────────────────────

/// `x` capped at the largest `usize`.
pub open spec fn cap(x: int) -> int {
    if x > usize::MAX { usize::MAX as int } else { x }
}

/// The cells a fixed child takes: its width and its left and right margins.
pub open spec fn fixed_outer(w: usize, margin: (u16, u16)) -> int {
    w + margin.0 + margin.1
}

/// The cells the fixed children among the first `k` take, summed with the
/// sum capped at the largest `usize` after each child.
pub open spec fn fixed_total(fixed: Seq<Option<usize>>, margins: Seq<(u16, u16)>, k: int) -> int
    decreases k,
{
    if k <= 0 {
        0
    } else {
        let prev = fixed_total(fixed, margins, k - 1);
        match fixed[k - 1] {
            Some(w) => cap(prev + fixed_outer(w, margins[k - 1])),
            None => prev,
        }
    }
}

/// The number of flexible children (no fixed width) among the first `k`.
pub open spec fn flex_before(fixed: Seq<Option<usize>>, k: int) -> int
    decreases k,
{
    if k <= 0 {
        0
    } else {
        flex_before(fixed, k - 1) + if fixed[k - 1] is None { 1int } else { 0int }
    }
}

/// The widths of a row's children in a row `width` cells wide (at least
/// one): a fixed child gets its width plus its margins; the width the fixed
/// children leave is split evenly among the flexible ones, the remainder one
/// cell each to the first of them; every child gets at least one cell. A
/// row without children counts as one flexible child.
pub open spec fn row_widths(fixed: Seq<Option<usize>>, margins: Seq<(u16, u16)>, width: usize) -> Seq<usize> {
    let w: int = if width == 0 { 1 } else { width as int };
    let n = fixed.len() as int;
    if n == 0 {
        seq![w as usize]
    } else {
        let total = fixed_total(fixed, margins, n);
        let remaining = if w > total { w - total } else { 0 };
        let flex = flex_before(fixed, n);
        let base = if flex == 0 { 0 } else { remaining / flex };
        let rem = if flex == 0 { 0 } else { remaining % flex };
        Seq::new(fixed.len(), |i: int| match fixed[i] {
            Some(f) => {
                let o = fixed_outer(f, margins[i]);
                (if o < 1 { 1 } else { o }) as usize
            },
            None => {
                let v = base + if flex_before(fixed, i) < rem { 1int } else { 0int };
                (if v < 1 { 1 } else { v }) as usize
            },
        })
    }
}

proof fn lemma_flex_before_bounds(fixed: Seq<Option<usize>>, k: int)
    requires
        0 <= k <= fixed.len(),
    ensures
        0 <= flex_before(fixed, k) <= k,
    decreases k,
{
    if k > 0 {
        lemma_flex_before_bounds(fixed, k - 1);
    }
}

proof fn lemma_flex_before_mono(fixed: Seq<Option<usize>>, a: int, b: int)
    requires
        0 <= a <= b <= fixed.len(),
    ensures
        flex_before(fixed, a) <= flex_before(fixed, b),
    decreases b - a,
{
    if a < b {
        lemma_flex_before_mono(fixed, a, b - 1);
    }
}

/// The widths of a row's children, as [`row_widths`] states. `fixed` holds
/// each child's fixed width, if any, and `margins` its left and right
/// margins.
pub fn row_child_widths(fixed: &Vec<Option<usize>>, margins: &Vec<(u16, u16)>, width: usize) -> (widths: Vec<usize>)
    requires
        margins@.len() == fixed@.len(),
        forall|i: int| 0 <= i < fixed@.len() && fixed@[i] is Some ==> fixed_outer(fixed@[i]->0, margins@[i]) <= usize::MAX,
    ensures
        widths@ == row_widths(fixed@, margins@, width),
{
    let w: usize = if width == 0 { 1 } else { width };
    let n = fixed.len();
    if n == 0 {
        let mut one: Vec<usize> = Vec::new();
        one.push(w);
        assert(one@ =~= row_widths(fixed@, margins@, width));
        return one;
    }
    let mut total: usize = 0;
    let mut flex: usize = 0;
    let mut k: usize = 0;
    while k < n
        invariant
            n == fixed@.len(),
            margins@.len() == n,
            k <= n,
            total as int == fixed_total(fixed@, margins@, k as int),
            flex as int == flex_before(fixed@, k as int),
            flex <= k,
            forall|i: int| 0 <= i < fixed@.len() && fixed@[i] is Some ==> fixed_outer(fixed@[i]->0, margins@[i]) <= usize::MAX,
        decreases n - k,
    {
        match fixed[k] {
            Some(f) => {
                let outer = f + margins[k].0 as usize + margins[k].1 as usize;
                total = total.saturating_add(outer);
            },
            None => {
                flex = flex + 1;
            },
        }
        k = k + 1;
    }
    let remaining = w.saturating_sub(total);
    let base = if flex == 0 { 0 } else { remaining / flex };
    let rem = if flex == 0 { 0 } else { remaining % flex };
    let ghost spec_w = row_widths(fixed@, margins@, width);
    let mut widths: Vec<usize> = Vec::new();
    let mut seen: usize = 0;
    let mut i: usize = 0;
    while i < n
        invariant
            n == fixed@.len(),
            margins@.len() == n,
            n > 0,
            i <= n,
            spec_w == row_widths(fixed@, margins@, width),
            spec_w.len() == n,
            widths@ == spec_w.take(i as int),
            seen as int == flex_before(fixed@, i as int),
            flex as int == flex_before(fixed@, n as int),
            total as int == fixed_total(fixed@, margins@, n as int),
            remaining as int == (if w > total { w - total } else { 0 }),
            w as int == (if width == 0 { 1 } else { width as int }),
            base as int == (if flex == 0 { 0 } else { remaining as int / flex as int }),
            rem as int == (if flex == 0 { 0 } else { remaining as int % flex as int }),
            forall|j: int| 0 <= j < fixed@.len() && fixed@[j] is Some ==> fixed_outer(fixed@[j]->0, margins@[j]) <= usize::MAX,
        decreases n - i,
    {
        proof {
            lemma_flex_before_mono(fixed@, i as int, n as int);
            lemma_flex_before_mono(fixed@, i as int + 1, n as int);
        }
        let v = match fixed[i] {
            Some(f) => {
                let o = f + margins[i].0 as usize + margins[i].1 as usize;
                if o < 1 { 1 } else { o }
            },
            None => {
                let extra: usize = if seen < rem { 1 } else { 0 };
                proof {
                    if extra == 1 {
                        assert(flex > 0);
                        assert(base as int * flex as int + rem as int == remaining as int) by (nonlinear_arith)
                            requires
                                flex > 0,
                                base as int == remaining as int / flex as int,
                                rem as int == remaining as int % flex as int,
                        ;
                        assert(base as int + 1 <= remaining as int) by (nonlinear_arith)
                            requires
                                base as int * flex as int + rem as int == remaining as int,
                                flex >= 1,
                                rem >= 1,
                                base >= 0,
                        ;
                    }
                }
                let v = base + extra;
                seen = seen + 1;
                if v < 1 { 1 } else { v }
            },
        };
        widths.push(v);
        assert(widths@ =~= spec_w.take(i as int + 1));
        i = i + 1;
    }
    assert(spec_w.take(n as int) =~= spec_w);
    widths
}


/// The sum of the first `k` widths.
pub open spec fn width_sum(ws: Seq<usize>, k: int) -> int
    decreases k,
{
    if k <= 0 {
        0
    } else {
        width_sum(ws, k - 1) + ws[k - 1]
    }
}

/// Below the largest `usize`, the capped total of the fixed children is
/// their exact total, step by step.
proof fn lemma_fixed_total_uncapped(fixed: Seq<Option<usize>>, margins: Seq<(u16, u16)>, k: int, n: int)
    requires
        margins.len() == fixed.len(),
        0 <= k <= n <= fixed.len(),
        fixed_total(fixed, margins, n) < usize::MAX,
    ensures
        fixed_total(fixed, margins, k) <= fixed_total(fixed, margins, n),
        0 <= fixed_total(fixed, margins, k),
        k < n && fixed[k] is Some ==> fixed_total(fixed, margins, k + 1) == fixed_total(fixed, margins, k)
            + fixed_outer(fixed[k]->0, margins[k]),
    decreases n - k,
{
    lemma_fixed_total_nonneg(fixed, margins, k);
    if k < n {
        lemma_fixed_total_uncapped(fixed, margins, k + 1, n);
    }
}

proof fn lemma_fixed_total_nonneg(fixed: Seq<Option<usize>>, margins: Seq<(u16, u16)>, k: int)
    ensures
        0 <= fixed_total(fixed, margins, k) <= usize::MAX,
    decreases k,
{
    if k > 0 {
        lemma_fixed_total_nonneg(fixed, margins, k - 1);
    }
}

/// The first `k` widths of a row add up to the fixed children's total, plus
/// the even share of each flexible child and one cell for each of those
/// that get part of the remainder.
proof fn lemma_width_sum_prefix(fixed: Seq<Option<usize>>, margins: Seq<(u16, u16)>, width: usize, k: int)
    requires
        margins.len() == fixed.len(),
        fixed.len() > 0,
        0 <= k <= fixed.len(),
        forall|i: int| 0 <= i < fixed.len() && fixed[i] is Some ==> fixed_outer(fixed[i]->0, margins[i]) >= 1,
        flex_before(fixed, fixed.len() as int) >= 1,
        fixed_total(fixed, margins, fixed.len() as int) + flex_before(fixed, fixed.len() as int) <= width,
    ensures ({
        let n = fixed.len() as int;
        let total = fixed_total(fixed, margins, n);
        let flex = flex_before(fixed, n);
        let base = (width - total) / flex;
        let rem = (width - total) % flex;
        let fb = flex_before(fixed, k);
        width_sum(row_widths(fixed, margins, width), k) == fixed_total(fixed, margins, k) + fb * base
            + (if fb < rem { fb } else { rem })
    }),
    decreases k,
{
    let n = fixed.len() as int;
    let total = fixed_total(fixed, margins, n);
    let flex = flex_before(fixed, n);
    let remaining = width - total;
    let base = remaining / flex;
    let rem = remaining % flex;
    assert(base >= 1) by (nonlinear_arith)
        requires
            remaining >= flex,
            flex >= 1,
            base == remaining / flex,
    ;
    assert(flex * base + rem == remaining && 0 <= rem < flex) by (nonlinear_arith)
        requires
            flex >= 1,
            base == remaining / flex,
            rem == remaining % flex,
    ;
    assert(base <= flex * base) by (nonlinear_arith)
        requires
            flex >= 1,
            base >= 0,
    ;
    if k > 0 {
        lemma_width_sum_prefix(fixed, margins, width, k - 1);
        lemma_fixed_total_uncapped(fixed, margins, k - 1, n);
        lemma_flex_before_bounds(fixed, k - 1);
        let fb = flex_before(fixed, k - 1);
        if fixed[k - 1] is None {
            assert((fb + 1) * base == fb * base + base) by (nonlinear_arith);
        }
    }
}

/// When every fixed child takes at least one cell and the fixed children
/// leave at least one cell for each flexible child, the widths of a row's
/// children add up to the row's width exactly.
pub proof fn law_row_widths_fill_the_row(fixed: Seq<Option<usize>>, margins: Seq<(u16, u16)>, width: usize)
    requires
        margins.len() == fixed.len(),
        forall|i: int| 0 <= i < fixed.len() && fixed[i] is Some ==> fixed_outer(fixed[i]->0, margins[i]) >= 1,
        flex_before(fixed, fixed.len() as int) >= 1,
        fixed_total(fixed, margins, fixed.len() as int) + flex_before(fixed, fixed.len() as int) <= width,
    ensures
        width_sum(row_widths(fixed, margins, width), fixed.len() as int) == width,
{
    let n = fixed.len() as int;
    lemma_flex_before_bounds(fixed, n);
    lemma_width_sum_prefix(fixed, margins, width, n);
    let total = fixed_total(fixed, margins, n);
    let flex = flex_before(fixed, n);
    let remaining = width - total;
    let base = remaining / flex;
    let rem = remaining % flex;
    assert(flex * base + rem == remaining) by (nonlinear_arith)
        requires
            flex >= 1,
            base == remaining / flex,
            rem == remaining % flex,
    ;
    assert(rem < flex) by (nonlinear_arith)
        requires
            flex >= 1,
            rem == remaining % flex,
    ;
}

// ── Sizing and composing a row's children ───────────────────────────────

/// `value` (at least one) raised to `min` and lowered to `max` where given,
/// and at most `limit` (at least one).
pub open spec fn clamped(value: usize, min: Option<usize>, max: Option<usize>, limit: usize) -> usize {
    let v0: usize = if value < 1 { 1 } else { value };
    let v1: usize = match min { Some(m) => if v0 < m { m } else { v0 }, None => v0 };
    let v2: usize = match max { Some(m) => if v1 > m { m } else { v1 }, None => v1 };
    let l: usize = if limit < 1 { 1 } else { limit };
    if v2 > l { l } else { v2 }
}

/// A size clamped by optional bounds and a limit, as [`clamped`] states.
pub fn clamp_with_constraints(value: usize, min: Option<usize>, max: Option<usize>, limit: usize) -> (r: usize)
    ensures
        r == clamped(value, min, max, limit),
{
    let mut out = if value < 1 { 1 } else { value };
    match min {
        Some(m) => if out < m { out = m; },
        None => {},
    }
    match max {
        Some(m) => if out > m { out = m; },
        None => {},
    }
    let l = if limit < 1 { 1 } else { limit };
    if out > l { l } else { out }
}

/// `a - b`, or 0 where `b` is larger.
pub open spec fn sat_sub(a: usize, b: int) -> usize {
    if a > b { (a - b) as usize } else { 0 }
}

/// The size a row renders a child at, given the cells it got
/// (`child_width`), its margins (left, right, top, bottom), its size bounds,
/// the row's height and the height the child asks for: the width inside the
/// margins, and the height inside the margins, both clamped by the bounds,
/// the height also no taller than the child asks (at least one line).
pub open spec fn row_child_size(
    child_width: usize,
    margin: (u16, u16, u16, u16),
    c: LayoutConstraints,
    height_limit: usize,
    layout_height: Option<usize>,
) -> (usize, usize) {
    let cw: usize = if child_width < 1 { 1 } else { child_width };
    let hl: usize = if height_limit < 1 { 1 } else { height_limit };
    let iw0 = sat_sub(cw, margin.0 + margin.1);
    let iw: usize = if iw0 < 1 { 1 } else { iw0 };
    let ih0 = sat_sub(hl, margin.2 + margin.3);
    let ih: usize = if ih0 < 1 { 1 } else { ih0 };
    let rw = clamped(iw, c.min_width, c.max_width, iw);
    let rh = clamped(ih, c.min_height, c.max_height, ih);
    let h = match layout_height {
        Some(t) => {
            let t1: usize = if t < 1 { 1 } else { t };
            if rh < t1 { rh } else { t1 }
        },
        None => rh,
    };
    (rw, h)
}

/// The render size of a row's child, as [`row_child_size`] states.
pub fn row_child_render_size(
    child_width: usize,
    margin: (u16, u16, u16, u16),
    c: LayoutConstraints,
    height_limit: usize,
    layout_height: Option<usize>,
) -> (r: (usize, usize))
    ensures
        r == row_child_size(child_width, margin, c, height_limit, layout_height),
{
    let cw = if child_width < 1 { 1 } else { child_width };
    let hl = if height_limit < 1 { 1 } else { height_limit };
    let iw0 = cw.saturating_sub(margin.0 as usize + margin.1 as usize);
    let iw = if iw0 < 1 { 1 } else { iw0 };
    let ih0 = hl.saturating_sub(margin.2 as usize + margin.3 as usize);
    let ih = if ih0 < 1 { 1 } else { ih0 };
    let rw = clamp_with_constraints(iw, c.min_width, c.max_width, iw);
    let rh = clamp_with_constraints(ih, c.min_height, c.max_height, ih);
    let h = match layout_height {
        Some(t) => {
            let t1 = if t < 1 { 1 } else { t };
            if rh < t1 { rh } else { t1 }
        },
        None => rh,
    };
    (rw, h)
}

/// The number of lines a row's child is shaped to: the height it asks for,
/// or else as many lines as it rendered (at least one), clamped by its
/// height bounds and the row's height.
pub open spec fn row_child_lines(layout_height: Option<usize>, rendered: usize, c: LayoutConstraints, height_limit: usize) -> usize {
    let t = match layout_height { Some(h) => h, None => if rendered < 1 { 1 } else { rendered } };
    clamped(t, c.min_height, c.max_height, height_limit)
}

/// The number of lines a row's child is shaped to, as [`row_child_lines`] states.
pub fn row_child_target_height(layout_height: Option<usize>, rendered: usize, c: LayoutConstraints, height_limit: usize) -> (r: usize)
    ensures
        r == row_child_lines(layout_height, rendered, c, height_limit),
{
    let t = match layout_height {
        Some(h) => h,
        None => if rendered < 1 { 1 } else { rendered },
    };
    clamp_with_constraints(t, c.min_height, c.max_height, height_limit)
}

/// The most lines any of the first `k` children has.
pub open spec fn longest(children: Seq<Seq<Seq<char>>>, k: int) -> int
    decreases k,
{
    if k <= 0 {
        0
    } else {
        let prev = longest(children, k - 1);
        if children[k - 1].len() > prev { children[k - 1].len() as int } else { prev }
    }
}

/// The height of a row's lines: its tallest child (at least one line), no
/// taller than the row's height (at least one).
pub open spec fn row_height(children: Seq<Seq<Seq<char>>>, height_limit: usize) -> int {
    let m = longest(children, children.len() as int);
    let m1 = if m < 1 { 1 } else { m };
    let hl: int = if height_limit < 1 { 1 } else { height_limit as int };
    if m1 > hl { hl } else { m1 }
}

/// Line `r` of a child in a row `mh` lines tall: blank lines pad it above
/// and below as the alignment says; past its padded lines it shows `w`
/// spaces.
pub open spec fn aligned_child_line(child: Seq<Seq<char>>, align: RowAlign, mh: usize, w: usize, r: int) -> Seq<char> {
    let h: usize = if child.len() < 1 { 1 } else { child.len() as usize };
    let (top, bottom) = row_padding(align, mh, h);
    if r < top {
        Seq::empty()
    } else if r < top + child.len() {
        child[r - top]
    } else if r < top + child.len() + bottom {
        Seq::empty()
    } else {
        spaces(w as nat)
    }
}

/// Line `r` of a row, over its first `k` children: each child's aligned
/// line fitted to the child's width (at least one cell), side by side.
pub open spec fn row_text(children: Seq<Seq<Seq<char>>>, widths: Seq<usize>, align: RowAlign, mh: usize, r: int, k: int) -> Seq<char>
    decreases k,
{
    if k <= 0 {
        Seq::empty()
    } else {
        let w: usize = if widths[k - 1] < 1 { 1 } else { widths[k - 1] };
        row_text(children, widths, align, mh, r, k - 1) + fit_cells(aligned_child_line(children[k - 1], align, mh, w, r), w)
    }
}

/// The lines of a row `width` cells wide (at least one) and at most
/// `height_limit` lines tall, from its children's lines and widths: as many
/// lines as [`row_height`], each the children's aligned lines side by side
/// ([`row_text`]) fitted to the row's width.
pub open spec fn row_lines(children: Seq<Seq<Seq<char>>>, widths: Seq<usize>, align: RowAlign, height_limit: usize, width: usize) -> Seq<Seq<char>> {
    let mh = row_height(children, height_limit);
    let w: usize = if width < 1 { 1 } else { width };
    Seq::new(mh as nat, |r: int| fit_cells(row_text(children, widths, align, mh as usize, r, children.len() as int), w))
}

/// The lines of the children, as text.
pub open spec fn children_text(children: Seq<Vec<String>>) -> Seq<Seq<Seq<char>>> {
    children.map_values(|c: Vec<String>| texts(c@))
}

/// Line `r` of one child, as [`aligned_child_line`] states.
fn aligned_line_exec(child: &Vec<String>, align: RowAlign, mh: usize, w: usize, r: usize) -> (line: String)
    ensures
        line@ == aligned_child_line(texts(child@), align, mh, w, r as int),
{
    let h: usize = if child.len() < 1 { 1 } else { child.len() };
    let (top, bottom) = row_align_padding(align, mh, h);
    if r < top {
        String::new()
    } else if r - top < child.len() {
        crate::text::text_of(child[r - top].as_str())
    } else if r - top - child.len() < bottom {
        String::new()
    } else {
        space_string(w)
    }
}

/// The lines of a row, as [`row_lines`] states, from its children's
/// (shaped) lines and the widths [`row_child_widths`] gave them.
pub fn compose_row_lines(
    children: &Vec<Vec<String>>,
    widths: &Vec<usize>,
    align: RowAlign,
    height_limit: usize,
    width: usize,
) -> (out: Vec<String>)
    requires
        widths@.len() == children@.len(),
    ensures
        texts(out@) == row_lines(children_text(children@), widths@, align, height_limit, width),
{
    let ghost cs = children_text(children@);
    let mut m: usize = 0;
    let mut k: usize = 0;
    while k < children.len()
        invariant
            cs == children_text(children@),
            k <= children@.len(),
            m as int == longest(cs, k as int),
        decreases children@.len() - k,
    {
        assert(cs[k as int].len() == children@[k as int]@.len());
        if children[k].len() > m {
            m = children[k].len();
        }
        k = k + 1;
    }
    let m1 = if m < 1 { 1 } else { m };
    let hl = if height_limit < 1 { 1 } else { height_limit };
    let mh = if m1 > hl { hl } else { m1 };
    let w = if width < 1 { 1 } else { width };
    let ghost spec_lines = row_lines(cs, widths@, align, height_limit, width);
    let mut out: Vec<String> = Vec::new();
    let mut r: usize = 0;
    while r < mh
        invariant
            cs == children_text(children@),
            widths@.len() == children@.len(),
            mh as int == row_height(cs, height_limit),
            w as int == (if width < 1 { 1 } else { width as int }),
            spec_lines == row_lines(cs, widths@, align, height_limit, width),
            r <= mh,
            texts(out@) == spec_lines.take(r as int),
        decreases mh - r,
    {
        let mut acc = String::new();
        let mut j: usize = 0;
        while j < children.len()
            invariant
                cs == children_text(children@),
                widths@.len() == children@.len(),
                j <= children@.len(),
                acc@ == row_text(cs, widths@, align, mh, r as int, j as int),
            decreases children@.len() - j,
        {
            let cw = if widths[j] < 1 { 1 } else { widths[j] };
            let line = aligned_line_exec(&children[j], align, mh, cw, r);
            assert(cs[j as int] == texts(children@[j as int]@));
            let seg = set_cell_size(line.as_str(), cw);
            acc = concat(acc.as_str(), seg.as_str());
            j = j + 1;
        }
        let fitted = set_cell_size(acc.as_str(), w);
        let ghost before = out@;
        out.push(fitted);
        assert(texts(out@) =~= texts(before).push(fitted@));
        assert(spec_lines.take(r as int + 1) =~= spec_lines.take(r as int).push(spec_lines[r as int]));
        r = r + 1;
    }
    assert(spec_lines.take(mh as int) =~= spec_lines);
    out
}


// ── Planning and composing a dock ───────────────────────────────────────

/// What a dock item gets: its band (lines of a top or bottom item, columns
/// of a left or right one) and the extent across it (the width a top or
/// bottom band spans, the height a side column spans), both taken from what
/// was left when the item came. A fill item gets what is left at the end.
#[derive(Debug, Clone, Copy, PartialEq, Eq, Structural)]
pub struct DockSlot {
    pub band: usize,
    pub across: usize,
}

/// The slots of the first `k` items, and the width and height then left,
/// in a dock `width` cells wide (at least one) and `height` lines tall. A
/// top or bottom item takes its size, else the height it asks for, else
/// one line, at most what height is left; a left or right item takes its
/// size, else one column, at most what width is left.
pub open spec fn dock_plan(
    kinds: Seq<DockKind>,
    sizes: Seq<Option<usize>>,
    heights: Seq<Option<usize>>,
    width: usize,
    height: usize,
    k: int,
) -> (Seq<DockSlot>, usize, usize)
    decreases k,
{
    if k <= 0 {
        (Seq::empty(), if width < 1 { 1 } else { width }, height)
    } else {
        let (prev, rw, rh) = dock_plan(kinds, sizes, heights, width, height, k - 1);
        match kinds[k - 1] {
            DockKind::Top | DockKind::Bottom => {
                let want: usize = match sizes[k - 1] {
                    Some(v) => v,
                    None => match heights[k - 1] { Some(h) => h, None => 1 },
                };
                let h: usize = if want < rh { want } else { rh };
                (prev.push(DockSlot { band: h, across: rw }), rw, (rh - h) as usize)
            },
            DockKind::Left | DockKind::Right => {
                let want: usize = match sizes[k - 1] { Some(v) => v, None => 1 };
                let w: usize = if want < rw { want } else { rw };
                (prev.push(DockSlot { band: w, across: rh }), (rw - w) as usize, rh)
            },
            DockKind::Fill => (prev.push(DockSlot { band: 0, across: 0 }), rw, rh),
        }
    }
}

/// The lines (`sideways` false: top and bottom items) or columns
/// (`sideways` true: left and right items) the first `k` slots take.
pub open spec fn bands_taken(kinds: Seq<DockKind>, slots: Seq<DockSlot>, sideways: bool, k: int) -> int
    decreases k,
{
    if k <= 0 {
        0
    } else {
        let taken = match kinds[k - 1] {
            DockKind::Top | DockKind::Bottom => if sideways { 0 } else { slots[k - 1].band as int },
            DockKind::Left | DockKind::Right => if sideways { slots[k - 1].band as int } else { 0 },
            DockKind::Fill => 0,
        };
        bands_taken(kinds, slots, sideways, k - 1) + taken
    }
}

/// A dock's bands share it out without overlap or overflow: the lines the
/// top and bottom bands take and the height left for the middle add up to
/// the dock's height, and the columns the side bands take and the width
/// left for the fill item add up to its width (at least one).
pub proof fn law_dock_bands_share_the_area(
    kinds: Seq<DockKind>,
    sizes: Seq<Option<usize>>,
    heights: Seq<Option<usize>>,
    width: usize,
    height: usize,
    k: int,
)
    requires
        sizes.len() == kinds.len(),
        heights.len() == kinds.len(),
        0 <= k <= kinds.len(),
    ensures ({
        let (slots, rw, rh) = dock_plan(kinds, sizes, heights, width, height, k);
        &&& slots.len() == k
        &&& bands_taken(kinds, slots, false, k) + rh == height
        &&& bands_taken(kinds, slots, true, k) + rw == (if width < 1 { 1 } else { width as int })
    }),
    decreases k,
{
    if k > 0 {
        law_dock_bands_share_the_area(kinds, sizes, heights, width, height, k - 1);
        let (prev, _rw, _rh) = dock_plan(kinds, sizes, heights, width, height, k - 1);
        let (slots, _rw2, _rh2) = dock_plan(kinds, sizes, heights, width, height, k);
        assert(slots.take(k - 1) =~= prev);
        lemma_bands_taken_prefix(kinds, slots, prev, false, k - 1);
        lemma_bands_taken_prefix(kinds, slots, prev, true, k - 1);
    }
}

proof fn lemma_bands_taken_prefix(kinds: Seq<DockKind>, slots: Seq<DockSlot>, prev: Seq<DockSlot>, sideways: bool, k: int)
    requires
        0 <= k <= prev.len(),
        k <= slots.len(),
        forall|i: int| 0 <= i < k ==> slots[i] == prev[i],
    ensures
        bands_taken(kinds, slots, sideways, k) == bands_taken(kinds, prev, sideways, k),
    decreases k,
{
    if k > 0 {
        lemma_bands_taken_prefix(kinds, slots, prev, sideways, k - 1);
    }
}

/// The slots of a dock's items and the width and height left for the fill
/// item, as [`dock_plan`] states. `sizes` holds each item's size, `heights`
/// the height each item's child asks for.
pub fn dock_layout(
    kinds: &Vec<DockKind>,
    sizes: &Vec<Option<usize>>,
    heights: &Vec<Option<usize>>,
    width: usize,
    height: usize,
) -> (r: (Vec<DockSlot>, usize, usize))
    requires
        sizes@.len() == kinds@.len(),
        heights@.len() == kinds@.len(),
    ensures
        (r.0@, r.1, r.2) == dock_plan(kinds@, sizes@, heights@, width, height, kinds@.len() as int),
{
    let mut slots: Vec<DockSlot> = Vec::new();
    let mut rw: usize = if width < 1 { 1 } else { width };
    let mut rh: usize = height;
    let mut k: usize = 0;
    while k < kinds.len()
        invariant
            sizes@.len() == kinds@.len(),
            heights@.len() == kinds@.len(),
            k <= kinds@.len(),
            (slots@, rw, rh) == dock_plan(kinds@, sizes@, heights@, width, height, k as int),
        decreases kinds@.len() - k,
    {
        match kinds[k] {
            DockKind::Top | DockKind::Bottom => {
                let want = match sizes[k] {
                    Some(v) => v,
                    None => match heights[k] { Some(h) => h, None => 1 },
                };
                let h = if want < rh { want } else { rh };
                slots.push(DockSlot { band: h, across: rw });
                rh = rh - h;
            },
            DockKind::Left | DockKind::Right => {
                let want = match sizes[k] { Some(v) => v, None => 1 };
                let w = if want < rw { want } else { rw };
                slots.push(DockSlot { band: w, across: rh });
                rw = rw - w;
            },
            DockKind::Fill => {
                slots.push(DockSlot { band: 0, across: 0 });
            },
        }
        k = k + 1;
    }
    (slots, rw, rh)
}


/// `w`, at least one.
pub open spec fn at_least_one_cell(w: usize) -> usize {
    if w < 1 { 1 } else { w }
}

/// Each line fitted to `w` cells.
pub open spec fn fit_all(ls: Seq<Seq<char>>, w: usize) -> Seq<Seq<char>> {
    Seq::new(ls.len(), |i: int| fit_cells(ls[i], w))
}

/// The lines of the items of kind `kind` among the first `k`, in order,
/// each fitted to the width its band spans.
pub open spec fn band_lines(kinds: Seq<DockKind>, lines: Seq<Seq<Seq<char>>>, slots: Seq<DockSlot>, kind: DockKind, k: int) -> Seq<Seq<char>>
    decreases k,
{
    if k <= 0 {
        Seq::empty()
    } else {
        let prev = band_lines(kinds, lines, slots, kind, k - 1);
        if kinds[k - 1] == kind {
            prev + fit_all(lines[k - 1], at_least_one_cell(slots[k - 1].across))
        } else {
            prev
        }
    }
}

/// Line `r` of a column `w` cells wide whose lines are `col`: the line, or
/// `w` spaces past its end, fitted to `w` cells.
pub open spec fn column_line(col: Seq<Seq<char>>, w: usize, r: int) -> Seq<char> {
    fit_cells(if r < col.len() { col[r] } else { spaces(w as nat) }, w)
}

/// Line `r` of the side columns of kind `kind` among the first `k` items,
/// side by side in order.
pub open spec fn side_text(kinds: Seq<DockKind>, lines: Seq<Seq<Seq<char>>>, slots: Seq<DockSlot>, kind: DockKind, r: int, k: int) -> Seq<char>
    decreases k,
{
    if k <= 0 {
        Seq::empty()
    } else {
        let prev = side_text(kinds, lines, slots, kind, r, k - 1);
        if kinds[k - 1] == kind {
            let w = slots[k - 1].band;
            prev + column_line(fit_all(lines[k - 1], at_least_one_cell(w)), w, r)
        } else {
            prev
        }
    }
}

/// The last fill item among the first `k`.
pub open spec fn last_fill(kinds: Seq<DockKind>, k: int) -> Option<int>
    decreases k,
{
    if k <= 0 {
        None
    } else if kinds[k - 1] == DockKind::Fill {
        Some(k - 1)
    } else {
        last_fill(kinds, k - 1)
    }
}

/// Line `r` of the middle area `rw` cells wide: the last fill item's line,
/// or `rw` spaces where there is no fill item.
pub open spec fn fill_text(kinds: Seq<DockKind>, lines: Seq<Seq<Seq<char>>>, rw: usize, r: int) -> Seq<char> {
    match last_fill(kinds, kinds.len() as int) {
        Some(i) => column_line(fit_all(lines[i], at_least_one_cell(rw)), rw, r),
        None => spaces(rw as nat),
    }
}

/// The lines of a dock, from its items' (shaped) lines and the plan
/// [`dock_plan`] gave: the top bands in order, then `rh` middle lines (the
/// left columns, the fill area `rw` cells wide, the right columns), then
/// the bottom bands in order.
pub open spec fn dock_lines(kinds: Seq<DockKind>, lines: Seq<Seq<Seq<char>>>, slots: Seq<DockSlot>, rw: usize, rh: usize) -> Seq<Seq<char>> {
    let n = kinds.len() as int;
    band_lines(kinds, lines, slots, DockKind::Top, n)
        + Seq::new(rh as nat, |r: int| side_text(kinds, lines, slots, DockKind::Left, r, n) + fill_text(kinds, lines, rw, r)
            + side_text(kinds, lines, slots, DockKind::Right, r, n))
        + band_lines(kinds, lines, slots, DockKind::Bottom, n)
}

/// Lines fitted to `w` cells, as [`fit_all`] states.
fn fit_lines(ls: &Vec<String>, w: usize) -> (r: Vec<String>)
    ensures
        texts(r@) == fit_all(texts(ls@), w),
{
    let mut r: Vec<String> = Vec::new();
    let mut i: usize = 0;
    while i < ls.len()
        invariant
            i <= ls@.len(),
            texts(r@) == fit_all(texts(ls@), w).take(i as int),
        decreases ls@.len() - i,
    {
        let f = set_cell_size(ls[i].as_str(), w);
        let ghost before = r@;
        r.push(f);
        assert(texts(r@) =~= texts(before).push(f@));
        assert(fit_all(texts(ls@), w).take(i as int + 1) =~= fit_all(texts(ls@), w).take(i as int).push(f@));
        i = i + 1;
    }
    assert(fit_all(texts(ls@), w).take(i as int) =~= fit_all(texts(ls@), w));
    r
}

/// Line `r` of a column, as [`column_line`] states.
fn column_line_exec(col: &Vec<String>, w: usize, r: usize) -> (line: String)
    ensures
        line@ == column_line(texts(col@), w, r as int),
{
    if r < col.len() {
        set_cell_size(col[r].as_str(), w)
    } else {
        let sp = space_string(w);
        set_cell_size(sp.as_str(), w)
    }
}

/// The lines of a dock, as [`dock_lines`] states, from each item's lines
/// and the slots and remaining width and height [`dock_layout`] gave.
pub fn compose_dock_lines(
    kinds: &Vec<DockKind>,
    lines: &Vec<Vec<String>>,
    slots: &Vec<DockSlot>,
    rw: usize,
    rh: usize,
) -> (out: Vec<String>)
    requires
        lines@.len() == kinds@.len(),
        slots@.len() == kinds@.len(),
    ensures
        texts(out@) == dock_lines(kinds@, children_text(lines@), slots@, rw, rh),
{
    let ghost ls = children_text(lines@);
    let n = kinds.len();
    let mut out: Vec<String> = Vec::new();
    // Top bands, in order.
    let mut k: usize = 0;
    while k < n
        invariant
            n == kinds@.len(),
            lines@.len() == n,
            slots@.len() == n,
            ls == children_text(lines@),
            k <= n,
            texts(out@) == band_lines(kinds@, ls, slots@, DockKind::Top, k as int),
        decreases n - k,
    {
        if kinds[k] == DockKind::Top {
            let w = if slots[k].across < 1 { 1 } else { slots[k].across };
            let f = fit_lines(&lines[k], w);
            assert(ls[k as int] == texts(lines@[k as int]@));
            let ghost before = out@;
            let mut i: usize = 0;
            while i < f.len()
                invariant
                    i <= f@.len(),
                    texts(out@) == texts(before) + texts(f@).take(i as int),
                decreases f@.len() - i,
            {
                let ghost b2 = out@;
                out.push(crate::text::text_of(f[i].as_str()));
                assert(texts(out@) =~= texts(b2).push(f@[i as int]@));
                assert(texts(f@).take(i as int + 1) =~= texts(f@).take(i as int).push(f@[i as int]@));
                i = i + 1;
            }
            assert(texts(f@).take(i as int) =~= texts(f@));
        }
        k = k + 1;
    }
    let ghost top = texts(out@);
    // Where the fill item's lines come from, if any.
    let mut fill: Option<usize> = None;
    let mut k: usize = 0;
    while k < n
        invariant
            n == kinds@.len(),
            k <= n,
            fill matches Some(i) ==> i < k,
            (match fill { Some(i) => Some(i as int), None => None::<int> }) == last_fill(kinds@, k as int),
        decreases n - k,
    {
        if kinds[k] == DockKind::Fill {
            fill = Some(k);
        }
        k = k + 1;
    }
    let fill_col: Option<Vec<String>> = match fill {
        Some(i) => {
            let w = if rw < 1 { 1 } else { rw };
            assert(ls[i as int] == texts(lines@[i as int]@));
            Some(fit_lines(&lines[i], w))
        },
        None => None,
    };
    // Middle lines.
    let ghost mid = Seq::new(rh as nat, |r: int| side_text(kinds@, ls, slots@, DockKind::Left, r, n as int)
        + fill_text(kinds@, ls, rw, r) + side_text(kinds@, ls, slots@, DockKind::Right, r, n as int));
    let mut r: usize = 0;
    while r < rh
        invariant
            n == kinds@.len(),
            lines@.len() == n,
            slots@.len() == n,
            ls == children_text(lines@),
            r <= rh,
            (match fill { Some(i) => Some(i as int), None => None::<int> }) == last_fill(kinds@, n as int),
            fill is Some ==> fill_col is Some && fill->0 < n
                && texts(fill_col->0@) == fit_all(ls[fill->0 as int], at_least_one_cell(rw)),
            fill is None ==> fill_col is None,
            mid == Seq::new(rh as nat, |r: int| side_text(kinds@, ls, slots@, DockKind::Left, r, n as int)
                + fill_text(kinds@, ls, rw, r) + side_text(kinds@, ls, slots@, DockKind::Right, r, n as int)),
            texts(out@) == top + mid.take(r as int),
        decreases rh - r,
    {
        let left = side_line(kinds, lines, slots, DockKind::Left, r);
        let middle = match &fill_col {
            Some(col) => column_line_exec(col, rw, r),
            None => space_string(rw),
        };
        let right = side_line(kinds, lines, slots, DockKind::Right, r);
        let lm = concat(left.as_str(), middle.as_str());
        let line = concat(lm.as_str(), right.as_str());
        let ghost before = out@;
        out.push(line);
        assert(texts(out@) =~= texts(before).push(line@));
        assert(mid.take(r as int + 1) =~= mid.take(r as int).push(mid[r as int]));
        r = r + 1;
    }
    assert(mid.take(rh as int) =~= mid);
    let ghost upper = texts(out@);
    // Bottom bands, in order.
    let mut k: usize = 0;
    proof {
        assert(upper + band_lines(kinds@, ls, slots@, DockKind::Bottom, 0) =~= upper);
    }
    while k < n
        invariant
            n == kinds@.len(),
            lines@.len() == n,
            slots@.len() == n,
            ls == children_text(lines@),
            k <= n,
            texts(out@) == upper + band_lines(kinds@, ls, slots@, DockKind::Bottom, k as int),
        decreases n - k,
    {
        if kinds[k] == DockKind::Bottom {
            let w = if slots[k].across < 1 { 1 } else { slots[k].across };
            let f = fit_lines(&lines[k], w);
            assert(ls[k as int] == texts(lines@[k as int]@));
            let ghost before = out@;
            let mut i: usize = 0;
            while i < f.len()
                invariant
                    i <= f@.len(),
                    texts(out@) == texts(before) + texts(f@).take(i as int),
                decreases f@.len() - i,
            {
                let ghost b2 = out@;
                out.push(crate::text::text_of(f[i].as_str()));
                assert(texts(out@) =~= texts(b2).push(f@[i as int]@));
                assert(texts(f@).take(i as int + 1) =~= texts(f@).take(i as int).push(f@[i as int]@));
                i = i + 1;
            }
            assert(texts(f@).take(i as int) =~= texts(f@));
            assert(upper + band_lines(kinds@, ls, slots@, DockKind::Bottom, k as int + 1)
                =~= texts(before) + texts(f@));
        } else {
            assert(band_lines(kinds@, ls, slots@, DockKind::Bottom, k as int + 1)
                == band_lines(kinds@, ls, slots@, DockKind::Bottom, k as int));
        }
        k = k + 1;
    }
    out
}

/// Line `r` of the side columns of kind `kind`, as [`side_text`] states.
fn side_line(kinds: &Vec<DockKind>, lines: &Vec<Vec<String>>, slots: &Vec<DockSlot>, kind: DockKind, r: usize) -> (line: String)
    requires
        lines@.len() == kinds@.len(),
        slots@.len() == kinds@.len(),
    ensures
        line@ == side_text(kinds@, children_text(lines@), slots@, kind, r as int, kinds@.len() as int),
{
    let ghost ls = children_text(lines@);
    let mut acc = String::new();
    let mut k: usize = 0;
    while k < kinds.len()
        invariant
            lines@.len() == kinds@.len(),
            slots@.len() == kinds@.len(),
            ls == children_text(lines@),
            k <= kinds@.len(),
            acc@ == side_text(kinds@, ls, slots@, kind, r as int, k as int),
        decreases kinds@.len() - k,
    {
        if kinds[k] == kind {
            let w = slots[k].band;
            let one = if w < 1 { 1 } else { w };
            let col = fit_lines(&lines[k], one);
            assert(ls[k as int] == texts(lines@[k as int]@));
            let cell = column_line_exec(&col, w, r);
            acc = concat(acc.as_str(), cell.as_str());
        }
        k = k + 1;
    }
    acc
}


// ── Composing a grid ────────────────────────────────────────────────────

/// Line `l` of grid row `r`, over its first `c` columns: each cell's line
/// ([`column_line`]) as wide as its column (at least one cell), the columns
/// `gap` spaces apart. The cells are held row by row.
pub open spec fn grid_row_text(cells: Seq<Seq<Seq<char>>>, widths: Seq<usize>, gap: usize, r: int, l: int, c: int) -> Seq<char>
    decreases c,
{
    if c <= 0 {
        Seq::empty()
    } else {
        let cols = widths.len() as int;
        let w = at_least_one_cell(widths[c - 1]);
        let sep = if c < cols { spaces(gap as nat) } else { Seq::empty() };
        grid_row_text(cells, widths, gap, r, l, c - 1) + column_line(cells[r * cols + c - 1], w, l) + sep
    }
}

/// The lines of a grid's first `k` rows: each row as many lines as its
/// height (at least one), every row but the last followed by `row_gap`
/// blank lines `width` cells wide (at least one).
pub open spec fn grid_lines(
    cells: Seq<Seq<Seq<char>>>,
    widths: Seq<usize>,
    heights: Seq<usize>,
    col_gap: usize,
    row_gap: usize,
    width: usize,
    k: int,
) -> Seq<Seq<char>>
    decreases k,
{
    if k <= 0 {
        Seq::empty()
    } else {
        let r = k - 1;
        let body = Seq::new(
            at_least_one_cell(heights[r]) as nat,
            |l: int| grid_row_text(cells, widths, col_gap, r, l, widths.len() as int),
        );
        let gaps = if k < heights.len() {
            Seq::new(row_gap as nat, |_i: int| spaces(at_least_one_cell(width) as nat))
        } else {
            Seq::empty()
        };
        grid_lines(cells, widths, heights, col_gap, row_gap, width, k - 1) + body + gaps
    }
}

/// The lines of a grid, as [`grid_lines`] states, from its cells' (shaped)
/// lines, row by row, and the track sizes [`grid_track_sizes`] gave. A cell
/// renders at the size [`row_child_render_size`] gives for its column's
/// width and its row's height, asking for no height of its own.
pub fn compose_grid_lines(
    cells: &Vec<Vec<String>>,
    widths: &Vec<usize>,
    heights: &Vec<usize>,
    col_gap: usize,
    row_gap: usize,
    width: usize,
) -> (out: Vec<String>)
    requires
        cells@.len() == widths@.len() * heights@.len(),
    ensures
        texts(out@) == grid_lines(children_text(cells@), widths@, heights@, col_gap, row_gap, width, heights@.len() as int),
{
    let ghost cs = children_text(cells@);
    let cols = widths.len();
    let rows = heights.len();
    let total = cells.len();
    let w1 = if width < 1 { 1 } else { width };
    let mut out: Vec<String> = Vec::new();
    let mut r: usize = 0;
    while r < rows
        invariant
            cs == children_text(cells@),
            cols == widths@.len(),
            rows == heights@.len(),
            cells@.len() == cols * rows,
            total == cells@.len(),
            w1 == at_least_one_cell(width),
            r <= rows,
            texts(out@) == grid_lines(cs, widths@, heights@, col_gap, row_gap, width, r as int),
        decreases rows - r,
    {
        let h = if heights[r] < 1 { 1 } else { heights[r] };
        let ghost before = texts(out@);
        let ghost body = Seq::new(h as nat, |l: int| grid_row_text(cs, widths@, col_gap, r as int, l, cols as int));
        let mut l: usize = 0;
        while l < h
            invariant
                cs == children_text(cells@),
                cols == widths@.len(),
                rows == heights@.len(),
                cells@.len() == cols * rows,
                total == cells@.len(),
                r < rows,
                l <= h,
                body == Seq::new(h as nat, |l: int| grid_row_text(cs, widths@, col_gap, r as int, l, cols as int)),
                texts(out@) == before + body.take(l as int),
            decreases h - l,
        {
            let mut acc = String::new();
            let mut c: usize = 0;
            while c < cols
                invariant
                    cs == children_text(cells@),
                    cols == widths@.len(),
                    rows == heights@.len(),
                    cells@.len() == cols * rows,
                    total == cells@.len(),
                    r < rows,
                    c <= cols,
                    acc@ == grid_row_text(cs, widths@, col_gap, r as int, l as int, c as int),
                decreases cols - c,
            {
                assert(r * cols + c < cols * rows) by (nonlinear_arith)
                    requires
                        r < rows,
                        c < cols,
                ;
                let idx = r * cols + c;
                let w = if widths[c] < 1 { 1 } else { widths[c] };
                assert(cs[idx as int] == texts(cells@[idx as int]@));
                let cell = column_line_exec(&cells[idx], w, l);
                acc = concat(acc.as_str(), cell.as_str());
                if c + 1 < cols {
                    let sp = space_string(col_gap);
                    acc = concat(acc.as_str(), sp.as_str());
                } else {
                    assert(acc@ =~= acc@ + Seq::<char>::empty());
                }
                c = c + 1;
            }
            let ghost b2 = out@;
            out.push(acc);
            assert(texts(out@) =~= texts(b2).push(body[l as int]));
            assert(body.take(l as int + 1) =~= body.take(l as int).push(body[l as int]));
            l = l + 1;
        }
        assert(body.take(h as int) =~= body);
        let ghost mid = texts(out@);
        let ghost gaps = if r + 1 < rows {
            Seq::new(row_gap as nat, |_i: int| spaces(w1 as nat))
        } else {
            Seq::<Seq<char>>::empty()
        };
        if r + 1 < rows {
            let mut g: usize = 0;
            while g < row_gap
                invariant
                    g <= row_gap,
                    gaps == Seq::new(row_gap as nat, |_i: int| spaces(w1 as nat)),
                    texts(out@) == mid + gaps.take(g as int),
                decreases row_gap - g,
            {
                let line = space_string(w1);
                let ghost b3 = out@;
                out.push(line);
                assert(texts(out@) =~= texts(b3).push(line@));
                assert(gaps.take(g as int + 1) =~= gaps.take(g as int).push(gaps[g as int]));
                g = g + 1;
            }
            assert(gaps.take(row_gap as int) =~= gaps);
        } else {
            assert(mid + gaps =~= mid);
        }
        assert(grid_lines(cs, widths@, heights@, col_gap, row_gap, width, r as int + 1)
            =~= before + body + gaps);
        r = r + 1;
    }
    out
}

} // verus!
