//! Small layout and border helpers shared by the widgets: merging and
//! applying size constraints, the cells borders take, and the switch for
//! terminals that draw block borders badly.

use vstd::prelude::*;
use crate::style::{Scalar, Style};
use crate::text::{trim, trimmed};
use crate::widget_core::LayoutConstraints;

verus! {

/// Each bound of `primary`, falling back to `fallback`'s where unset.
pub open spec fn merged(primary: LayoutConstraints, fallback: LayoutConstraints) -> LayoutConstraints {
    LayoutConstraints {
        min_width: if primary.min_width is Some { primary.min_width } else { fallback.min_width },
        max_width: if primary.max_width is Some { primary.max_width } else { fallback.max_width },
        min_height: if primary.min_height is Some { primary.min_height } else { fallback.min_height },
        max_height: if primary.max_height is Some { primary.max_height } else { fallback.max_height },
    }
}

fn or_else(a: Option<usize>, b: Option<usize>) -> (r: Option<usize>)
    ensures
        r == (if a is Some { a } else { b }),
{
    match a {
        Some(v) => Some(v),
        None => b,
    }
}

pub fn merge_constraints(primary: LayoutConstraints, fallback: LayoutConstraints) -> (c: LayoutConstraints)
    ensures
        c == merged(primary, fallback),
{
    LayoutConstraints {
        min_width: or_else(primary.min_width, fallback.min_width),
        max_width: or_else(primary.max_width, fallback.max_width),
        min_height: or_else(primary.min_height, fallback.min_height),
        max_height: or_else(primary.max_height, fallback.max_height),
    }
}

/// `value` (at least 1) raised to `min`, lowered to `max`, then to `limit` (at least 1).
pub open spec fn clamped(value: usize, min: Option<usize>, max: Option<usize>, limit: usize) -> usize {
    let a: usize = if value < 1 { 1 } else { value };
    let b: usize = match min {
        Some(m) => if a < m { m } else { a },
        None => a,
    };
    let c: usize = match max {
        Some(m) => if m < b { m } else { b },
        None => b,
    };
    let l: usize = if limit < 1 { 1 } else { limit };
    if l < c { l } else { c }
}

pub fn clamp_with_constraints(value: usize, min: Option<usize>, max: Option<usize>, limit: usize) -> (r: usize)
    ensures
        r == clamped(value, min, max, limit),
        r <= (if limit < 1 { 1 } else { limit }),
{
    let mut out = if value < 1 {
        1
    } else {
        value
    };
    if let Some(m) = min {
        if out < m {
            out = m;
        }
    }
    if let Some(m) = max {
        if m < out {
            out = m;
        }
    }
    let l = if limit < 1 {
        1
    } else {
        limit
    };
    if l < out {
        l
    } else {
        out
    }
}

/// A cell count, when the scalar is one.
pub open spec fn cells_of(scalar: Option<Scalar>) -> Option<usize> {
    match scalar {
        Some(Scalar::Cells(n)) => Some(n as usize),
        _ => None,
    }
}

pub fn scalar_cells_or(scalar: Option<Scalar>) -> (r: Option<usize>)
    ensures
        r == cells_of(scalar),
{
    match scalar {
        Some(Scalar::Cells(n)) => Some(n as usize),
        _ => None,
    }
}

/// The size constraints a style sets with cell counts.
pub fn constraints_from_style(style: &Style) -> (c: LayoutConstraints)
    ensures
        c == (LayoutConstraints {
            min_width: cells_of(style.min_width),
            max_width: cells_of(style.max_width),
            min_height: cells_of(style.min_height),
            max_height: cells_of(style.max_height),
        }),
{
    LayoutConstraints {
        min_width: scalar_cells_or(style.min_width),
        max_width: scalar_cells_or(style.max_width),
        min_height: scalar_cells_or(style.min_height),
        max_height: scalar_cells_or(style.max_height),
    }
}

/// Cells the border takes on each edge, as `(top, bottom, left, right)`: one
/// where the edge has a border.
pub open spec fn border_cells(style: Style) -> (usize, usize, usize, usize) {
    (
        if style.border_top is Some { 1 } else { 0 },
        if style.border_bottom is Some { 1 } else { 0 },
        if style.border_left is Some { 1 } else { 0 },
        if style.border_right is Some { 1 } else { 0 },
    )
}

pub fn border_spacing_from_style(style: &Style) -> (r: (usize, usize, usize, usize))
    ensures
        r == border_cells(*style),
{
    let top = if style.border_top.is_some() {
        1
    } else {
        0
    };
    let right = if style.border_right.is_some() {
        1
    } else {
        0
    };
    let bottom = if style.border_bottom.is_some() {
        1
    } else {
        0
    };
    let left = if style.border_left.is_some() {
        1
    } else {
        0
    };
    (top, bottom, left, right)
}

/// Rows the border takes above and below the content.
pub fn border_vertical_padding(style: &Style) -> (r: usize)
    ensures
        r == border_cells(*style).0 + border_cells(*style).1,
{
    let (top, bottom, _, _) = border_spacing_from_style(style);
    top + bottom
}

/// Whether a border's title and subtitle render with colours swapped:
/// `panel` flips the title, `tab` both.
pub fn border_title_flip(edge_type: &str) -> (r: (bool, bool))
    ensures
        r == (if edge_type@ == "panel"@ {
            (true, false)
        } else if edge_type@ == "tab"@ {
            (true, true)
        } else {
            (false, false)
        }),
{
    if crate::text::text_eq(edge_type, "panel") {
        (true, false)
    } else if crate::text::text_eq(edge_type, "tab") {
        (true, true)
    } else {
        (false, false)
    }
}

/// The setting of the fallback for terminals that draw block borders badly.
#[derive(Debug, Clone, Copy, PartialEq, Eq, Structural)]
pub enum WindowsSafeBordersMode {
    Off,
    On,
    Auto,
}

/// The code of a character with ASCII upper case folded to lower case.
pub open spec fn ascii_lower_code(c: char) -> int {
    if 'A' <= c && c <= 'Z' {
        c as int + 32
    } else {
        c as int
    }
}

/// `s` equals the lower-case word `word` ignoring ASCII case.
pub open spec fn ascii_ci_eq(s: Seq<char>, word: Seq<char>) -> bool {
    &&& s.len() == word.len()
    &&& forall|i: int| 0 <= i < s.len() ==> ascii_lower_code(#[trigger] s[i]) == word[i] as int
}

fn ascii_ci_eq_exec(s: &str, word: &str) -> (r: bool)
    ensures
        r == ascii_ci_eq(s@, word@),
{
    let n = s.unicode_len();
    if n != word.unicode_len() {
        return false;
    }
    let mut i: usize = 0;
    while i < n
        invariant
            n == s@.len(),
            n == word@.len(),
            i <= n,
            forall|j: int| 0 <= j < i ==> ascii_lower_code(#[trigger] s@[j]) == word@[j] as int,
        decreases n - i,
    {
        let c = s.get_char(i);
        let code: u32 = if 'A' <= c && c <= 'Z' {
            c as u32 + 32
        } else {
            c as u32
        };
        if code != word.get_char(i) as u32 {
            return false;
        }
        i = i + 1;
    }
    true
}

/// The mode a setting names, trimmed and ignoring ASCII case: `1`, `true`,
/// `yes`, `on` switch the fallback on; `0`, `false`, `no`, `off` off; anything
/// else, or no setting, leaves it automatic.
pub open spec fn mode_of(value: Option<Seq<char>>) -> WindowsSafeBordersMode {
    match value {
        None => WindowsSafeBordersMode::Auto,
        Some(v) => {
            let t = trimmed(v);
            if ascii_ci_eq(t, "1"@) || ascii_ci_eq(t, "true"@) || ascii_ci_eq(t, "yes"@) || ascii_ci_eq(t, "on"@) {
                WindowsSafeBordersMode::On
            } else if ascii_ci_eq(t, "0"@) || ascii_ci_eq(t, "false"@) || ascii_ci_eq(t, "no"@) || ascii_ci_eq(
                t,
                "off"@,
            ) {
                WindowsSafeBordersMode::Off
            } else {
                WindowsSafeBordersMode::Auto
            }
        },
    }
}

pub fn parse_windows_safe_borders_mode(value: Option<&str>) -> (m: WindowsSafeBordersMode)
    ensures
        m == mode_of(crate::header::opt_str(value)),
{
    match value {
        None => WindowsSafeBordersMode::Auto,
        Some(v) => {
            let t = trim(v);
            let s = t.as_str();
            if ascii_ci_eq_exec(s, "1") || ascii_ci_eq_exec(s, "true") || ascii_ci_eq_exec(s, "yes")
                || ascii_ci_eq_exec(s, "on") {
                WindowsSafeBordersMode::On
            } else if ascii_ci_eq_exec(s, "0") || ascii_ci_eq_exec(s, "false") || ascii_ci_eq_exec(s, "no")
                || ascii_ci_eq_exec(s, "off") {
                WindowsSafeBordersMode::Off
            } else {
                WindowsSafeBordersMode::Auto
            }
        },
    }
}

/// The fallback is used only when switched on; automatic stays off.
pub fn fallback_enabled(mode: WindowsSafeBordersMode) -> (b: bool)
    ensures
        b == (mode == WindowsSafeBordersMode::On),
{
    match mode {
        WindowsSafeBordersMode::On => true,
        WindowsSafeBordersMode::Off => false,
        WindowsSafeBordersMode::Auto => false,
    }
}

/// The border type drawn: `block` becomes `solid` on Windows with the
/// fallback on; every other type is drawn as asked.
pub fn effective_border_edge_type<'a>(edge_type: &'a str, on_windows: bool, fallback: bool) -> (r: &'a str)
    ensures
        r@ == (if on_windows && fallback && edge_type@ == "block"@ { "solid"@ } else { edge_type@ }),
{
    if on_windows && fallback && crate::text::text_eq(edge_type, "block") {
        return "solid";
    }
    edge_type
}

} // verus!
