//! Cell-width measurement of text, as the `rich_rs` renderer measures it.

use vstd::prelude::*;

verus! {

/// Display width, in terminal cells, that `rich_rs` assigns to a text.
pub uninterp spec fn cell_width(text: Seq<char>) -> usize;

/// A character that occupies exactly one terminal cell: printable ASCII.
pub open spec fn is_narrow_ascii(c: char) -> bool {
    ' ' <= c && c <= '~'
}

/// Calls `rich_rs::cell_len`, which sums the Unicode display widths of the
/// text. The contract names the result (it depends on the text alone), and
/// states the two facts the widgets rely on: the empty text is zero cells
/// wide, and printable ASCII occupies one cell per character.
#[verifier::external_body]
pub(crate) fn cell_len(text: &str) -> (width: usize)
    ensures
        width == cell_width(text@),
        text@.len() == 0 ==> width == 0,
        (forall|i: int| 0 <= i < text@.len() ==> is_narrow_ascii(#[trigger] text@[i]))
            ==> width == text@.len(),
{
    rich_rs::cell_len(text)
}


/// The text `rich_rs::set_cell_size` produces for `text` fitted to `width` cells.
pub uninterp spec fn fit_cells(text: Seq<char>, width: usize) -> Seq<char>;

/// Calls `rich_rs::set_cell_size`, which pads the text with spaces or truncates
/// it to exactly `width` cells. The result is named; its source shows that a
/// text already `width` cells wide comes back unchanged, a narrower one gets
/// `width - cell_len` spaces appended, and width 0 gives the empty text.
#[verifier::external_body]
pub(crate) fn set_cell_size(text: &str, width: usize) -> (out: String)
    ensures
        out@ == fit_cells(text@, width),
        width == 0 ==> out@.len() == 0,
        width > 0 && cell_width(text@) == width ==> out@ == text@,
        width > 0 && cell_width(text@) < width ==> out@ == text@ + crate::text::spaces((width - cell_width(text@)) as nat),
{
    rich_rs::set_cell_size(text, width)
}

} // verus!
