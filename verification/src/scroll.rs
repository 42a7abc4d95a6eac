//! Line-based scrolling arithmetic shared by scrollable widgets.

use vstd::prelude::*;

verus! {

/// Largest offset at which a viewport of `viewport` lines still shows content
/// of `content` lines: `content - viewport`, or 0.
pub open spec fn max_offset_spec(content: usize, viewport: usize) -> usize {
    if content > viewport { (content - viewport) as usize } else { 0 }
}

pub fn line_max_offset(content: usize, viewport: usize) -> (m: usize)
    ensures
        m == max_offset_spec(content, viewport),
{
    content.saturating_sub(viewport)
}

/// `offset`, clamped into `0..=max_offset`.
pub open spec fn clamp_offset_spec(offset: usize, content: usize, viewport: usize) -> usize {
    if offset < max_offset_spec(content, viewport) { offset } else { max_offset_spec(content, viewport) }
}

pub fn line_clamp_offset(offset: usize, content: usize, viewport: usize) -> (o: usize)
    ensures
        o == clamp_offset_spec(offset, content, viewport),
{
    let max = line_max_offset(content, viewport);
    if offset < max { offset } else { max }
}

/// `offset + delta`, clamped into `0..=max_offset`.
pub open spec fn scroll_by_spec(offset: usize, delta: int, content: usize, viewport: usize) -> usize {
    let target = offset + delta;
    let max = max_offset_spec(content, viewport);
    if target <= 0 { 0 } else if target >= max { max } else { target as usize }
}

pub fn line_scroll_by(offset: usize, delta: i32, content: usize, viewport: usize) -> (o: usize)
    ensures
        o == scroll_by_spec(offset, delta as int, content, viewport),
{
    let max = line_max_offset(content, viewport);
    if delta < 0 {
        let back: usize = if delta == i32::MIN { 2147483648usize } else { (-delta) as usize };
        if back >= offset { 0 } else if offset - back >= max { max } else { offset - back }
    } else {
        let fwd: usize = delta as usize;
        if offset >= max || fwd >= max - offset { max } else { offset + fwd }
    }
}

} // verus!
