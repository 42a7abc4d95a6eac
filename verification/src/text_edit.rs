//! Text-editing primitives for single-line inputs. A text is held as its
//! characters; positions are character indices. Cursor movement goes by
//! extended grapheme clusters (as `unicode_segmentation` splits a text) or by
//! words (runs of non-whitespace).

use vstd::prelude::*;
use unicode_segmentation::UnicodeSegmentation;
use crate::text::{unicode_whitespace, is_whitespace};
use crate::widget_core::texts;
use crate::event::{KeyCode, KeyEvent};
use crate::cells::{cell_len, cell_width};

verus! {

/// The parts of a sequence of texts, joined in order.
pub open spec fn joined(parts: Seq<Seq<char>>) -> Seq<char>
    decreases parts.len(),
{
    if parts.len() == 0 {
        Seq::empty()
    } else {
        joined(parts.drop_last()) + parts.last()
    }
}

/// The extended grapheme clusters of a text, as `unicode_segmentation`
/// splits it.
pub uninterp spec fn grapheme_clusters(text: Seq<char>) -> Seq<Seq<char>>;

/// Calls `UnicodeSegmentation::graphemes` for extended clusters and copies
/// each cluster out. The result is named: it depends on the text alone. The
/// crate's iterator yields consecutive slices, each from the end of the
/// previous one to the next cluster boundary, from the start of the text to
/// its end; so every cluster is non-empty and the clusters join to the text.
#[verifier::external_body]
pub(crate) fn graphemes_of(text: &str) -> (r: Vec<String>)
    ensures
        texts(r@) == grapheme_clusters(text@),
        forall|i: int| 0 <= i < r@.len() ==> (#[trigger] r@[i])@.len() > 0,
        joined(texts(r@)) == text@,
{
    text.graphemes(true).map(|g| g.to_string()).collect()
}

/// The text of a sequence of characters.
pub fn string_of(chars: &Vec<char>) -> (s: String)
    ensures
        s@ == chars@,
{
    let mut s = String::new();
    let mut i: usize = 0;
    while i < chars.len()
        invariant
            i <= chars@.len(),
            s@ == chars@.subrange(0, i as int),
        decreases chars@.len() - i,
    {
        s.push(chars[i]);
        assert(s@ =~= chars@.subrange(0, i as int + 1));
        i = i + 1;
    }
    assert(chars@.subrange(0, chars@.len() as int) =~= chars@);
    s
}

/// The characters of a text.
pub fn chars_of(s: &str) -> (v: Vec<char>)
    ensures
        v@ == s@,
{
    let n = s.unicode_len();
    let mut v: Vec<char> = Vec::new();
    let mut i: usize = 0;
    while i < n
        invariant
            n == s@.len(),
            i <= n,
            v@ == s@.subrange(0, i as int),
        decreases n - i,
    {
        v.push(s.get_char(i));
        assert(v@ =~= s@.subrange(0, i as int + 1));
        i = i + 1;
    }
    assert(s@.subrange(0, n as int) =~= s@);
    v
}

/// Where the `k`-th part starts in the joined text.
pub open spec fn part_start(parts: Seq<Seq<char>>, k: int) -> int {
    joined(parts.take(k)).len() as int
}

/// The grapheme-cluster boundaries of a text: 0, then the end of each
/// cluster, in increasing order.
pub open spec fn grapheme_bounds(text: Seq<char>) -> Seq<int> {
    let gs = grapheme_clusters(text);
    Seq::new((gs.len() + 1) as nat, |k: int| part_start(gs, k))
}

/// The last of the increasing boundaries `bs` that lies before `i`; 0 where
/// none does.
pub open spec fn last_bound_below(bs: Seq<int>, i: int) -> int
    decreases bs.len(),
{
    if bs.len() == 0 {
        0
    } else if bs.last() < i {
        bs.last()
    } else {
        last_bound_below(bs.drop_last(), i)
    }
}

/// The last of the boundaries `bs` at or before `i`; 0 where none is.
pub open spec fn last_bound_at_most(bs: Seq<int>, i: int) -> int
    decreases bs.len(),
{
    if bs.len() == 0 {
        0
    } else if bs.last() <= i {
        bs.last()
    } else {
        last_bound_at_most(bs.drop_last(), i)
    }
}

/// The first of the boundaries `bs` after `i`; `i` itself where none is.
pub open spec fn first_bound_above(bs: Seq<int>, i: int) -> int
    decreases bs.len(),
{
    if bs.len() == 0 {
        i
    } else if bs[0] > i {
        bs[0]
    } else {
        first_bound_above(bs.drop_first(), i)
    }
}

/// The grapheme boundary before position `i` (0 at the start).
pub open spec fn prev_grapheme(text: Seq<char>, i: int) -> int {
    last_bound_below(grapheme_bounds(text), i)
}

/// The grapheme boundary after position `i` (`i` itself at the end).
pub open spec fn next_grapheme(text: Seq<char>, i: int) -> int {
    first_bound_above(grapheme_bounds(text), i)
}

/// Position `i` moved back to the nearest grapheme boundary at or before it.
pub open spec fn clamp_grapheme(text: Seq<char>, i: int) -> int {
    last_bound_at_most(grapheme_bounds(text), i)
}

pub proof fn lemma_part_start_step(parts: Seq<Seq<char>>, k: int)
    requires
        0 <= k < parts.len(),
    ensures
        part_start(parts, k + 1) == part_start(parts, k) + parts[k].len(),
{
    assert(parts.take(k + 1).drop_last() =~= parts.take(k));
    assert(parts.take(k + 1).last() == parts[k]);
}

pub proof fn lemma_part_start_all(parts: Seq<Seq<char>>)
    ensures
        part_start(parts, parts.len() as int) == joined(parts).len(),
{
    assert(parts.take(parts.len() as int) =~= parts);
}

/// The grapheme boundaries of a text, as [`grapheme_bounds`] states; the
/// last one is the text's length.
pub fn grapheme_boundaries(text: &Vec<char>) -> (bs: Vec<usize>)
    ensures
        bs@.len() == grapheme_bounds(text@).len(),
        forall|k: int| 0 <= k < bs@.len() ==> bs@[k] as int == #[trigger] grapheme_bounds(text@)[k],
        bs@.len() >= 1,
        bs@[0] == 0,
        bs@.last() == text@.len(),
        forall|a: int, b: int| 0 <= a < b < bs@.len() ==> bs@[a] < bs@[b],
{
    let n = text.len();
    let s = string_of(text);
    let gs = graphemes_of(s.as_str());
    let ghost parts = texts(gs@);
    let mut bs: Vec<usize> = Vec::new();
    bs.push(0);
    let mut acc: usize = 0;
    let mut k: usize = 0;
    proof {
        assert(parts.take(0) =~= Seq::<Seq<char>>::empty());
        lemma_part_start_all(parts);
    }
    while k < gs.len()
        invariant
            parts == texts(gs@),
            parts == grapheme_clusters(text@),
            joined(parts) == text@,
            forall|i: int| 0 <= i < gs@.len() ==> (#[trigger] gs@[i])@.len() > 0,
            part_start(parts, parts.len() as int) == text@.len(),
            n == text@.len(),
            k <= gs@.len(),
            bs@.len() == k + 1,
            bs@[0] == 0,
            acc == part_start(parts, k as int),
            forall|j: int| 0 <= j <= k ==> bs@[j] as int == #[trigger] part_start(parts, j),
            forall|a: int, b: int| 0 <= a < b <= k ==> bs@[a] < bs@[b],
            forall|j: int| 0 <= j <= k ==> bs@[j] <= acc,
        decreases gs@.len() - k,
    {
        proof {
            lemma_part_start_step(parts, k as int);
            assert(parts[k as int] == gs@[k as int]@);
            assert(gs@[k as int]@.len() > 0);
            lemma_part_start_mono(parts, k as int + 1, parts.len() as int);
        }
        let w = gs[k].unicode_len();
        acc = acc + w;
        bs.push(acc);
        k = k + 1;
    }
    proof {
        assert forall|j: int| 0 <= j < bs@.len() implies bs@[j] as int == #[trigger] grapheme_bounds(text@)[j] by {
            assert(bs@[j] as int == part_start(parts, j));
        }
    }
    bs
}

pub proof fn lemma_part_start_mono(parts: Seq<Seq<char>>, a: int, b: int)
    requires
        0 <= a <= b <= parts.len(),
    ensures
        part_start(parts, a) <= part_start(parts, b),
    decreases b - a,
{
    if a < b {
        lemma_part_start_step(parts, b - 1);
        lemma_part_start_mono(parts, a, b - 1);
    }
}

/// The boundary search over increasing boundaries: the last one before
/// `i` (0 where none is).
fn search_below(bs: &Vec<usize>, i: usize) -> (r: usize)
    ensures
        r as int == last_bound_below(bs@.map_values(|b: usize| b as int), i as int),
{
    let ghost all = bs@.map_values(|b: usize| b as int);
    let mut k: usize = bs.len();
    proof {
        assert(all.take(k as int) =~= all);
    }
    while k > 0 && bs[k - 1] >= i
        invariant
            k <= bs@.len(),
            all == bs@.map_values(|b: usize| b as int),
            last_bound_below(all, i as int) == last_bound_below(all.take(k as int), i as int),
        decreases k,
    {
        proof {
            let t = all.take(k as int);
            assert(t.last() == bs@[k - 1] as int);
            assert(t.drop_last() =~= all.take(k - 1));
        }
        k = k - 1;
    }
    if k == 0 {
        proof {
            assert(all.take(0).len() == 0);
        }
        0
    } else {
        proof {
            assert(all.take(k as int).last() == bs@[k - 1] as int);
        }
        bs[k - 1]
    }
}

/// The last boundary at or before `i` (0 where none is).
fn search_at_most(bs: &Vec<usize>, i: usize) -> (r: usize)
    ensures
        r as int == last_bound_at_most(bs@.map_values(|b: usize| b as int), i as int),
{
    let ghost all = bs@.map_values(|b: usize| b as int);
    let mut k: usize = bs.len();
    proof {
        assert(all.take(k as int) =~= all);
    }
    while k > 0 && bs[k - 1] > i
        invariant
            k <= bs@.len(),
            all == bs@.map_values(|b: usize| b as int),
            last_bound_at_most(all, i as int) == last_bound_at_most(all.take(k as int), i as int),
        decreases k,
    {
        proof {
            let t = all.take(k as int);
            assert(t.last() == bs@[k - 1] as int);
            assert(t.drop_last() =~= all.take(k - 1));
        }
        k = k - 1;
    }
    if k == 0 {
        proof {
            assert(all.take(0).len() == 0);
        }
        0
    } else {
        proof {
            assert(all.take(k as int).last() == bs@[k - 1] as int);
        }
        bs[k - 1]
    }
}

/// The first boundary after `i` (`i` itself where none is).
fn search_above(bs: &Vec<usize>, i: usize) -> (r: usize)
    ensures
        r as int == first_bound_above(bs@.map_values(|b: usize| b as int), i as int),
{
    let ghost all = bs@.map_values(|b: usize| b as int);
    let mut k: usize = 0;
    proof {
        assert(all.skip(0) =~= all);
    }
    while k < bs.len() && bs[k] <= i
        invariant
            k <= bs@.len(),
            all == bs@.map_values(|b: usize| b as int),
            first_bound_above(all, i as int) == first_bound_above(all.skip(k as int), i as int),
        decreases bs@.len() - k,
    {
        proof {
            let t = all.skip(k as int);
            assert(t[0] == bs@[k as int] as int);
            assert(t.drop_first() =~= all.skip(k + 1));
        }
        k = k + 1;
    }
    if k == bs.len() {
        proof {
            assert(all.skip(k as int).len() == 0);
        }
        i
    } else {
        proof {
            assert(all.skip(k as int)[0] == bs@[k as int] as int);
        }
        bs[k]
    }
}

proof fn lemma_bounds_view(bs: Seq<usize>, text: Seq<char>)
    requires
        bs.len() == grapheme_bounds(text).len(),
        forall|k: int| 0 <= k < bs.len() ==> bs[k] as int == #[trigger] grapheme_bounds(text)[k],
    ensures
        bs.map_values(|b: usize| b as int) == grapheme_bounds(text),
{
    assert(bs.map_values(|b: usize| b as int) =~= grapheme_bounds(text));
}

proof fn lemma_below_range(bs: Seq<int>, i: int, n: int)
    requires
        forall|k: int| 0 <= k < bs.len() ==> 0 <= #[trigger] bs[k] <= n,
        0 <= n,
    ensures
        0 <= last_bound_below(bs, i) <= n,
        i > 0 ==> last_bound_below(bs, i) < i,
    decreases bs.len(),
{
    if bs.len() > 0 {
        assert(bs.last() == bs[bs.len() - 1]);
        if !(bs.last() < i) {
            lemma_below_range(bs.drop_last(), i, n);
        }
    }
}

proof fn lemma_at_most_range(bs: Seq<int>, i: int, n: int)
    requires
        forall|k: int| 0 <= k < bs.len() ==> 0 <= #[trigger] bs[k] <= n,
        0 <= n,
        0 <= i,
    ensures
        0 <= last_bound_at_most(bs, i) <= n,
        last_bound_at_most(bs, i) <= i,
    decreases bs.len(),
{
    if bs.len() > 0 {
        assert(bs.last() == bs[bs.len() - 1]);
        if !(bs.last() <= i) {
            lemma_at_most_range(bs.drop_last(), i, n);
        }
    }
}

proof fn lemma_above_range(bs: Seq<int>, i: int, n: int)
    requires
        forall|k: int| 0 <= k < bs.len() ==> 0 <= #[trigger] bs[k] <= n,
        0 <= i <= n,
    ensures
        i <= first_bound_above(bs, i) <= n,
        (exists|k: int| 0 <= k < bs.len() && bs[k] > i) ==> first_bound_above(bs, i) > i,
    decreases bs.len(),
{
    if bs.len() > 0 {
        if !(bs[0] > i) {
            assert forall|k: int| 0 <= k < bs.drop_first().len() implies 0 <= #[trigger] bs.drop_first()[k] <= n by {
                assert(bs.drop_first()[k] == bs[k + 1]);
            }
            if exists|k: int| 0 <= k < bs.len() && bs[k] > i {
                let k = choose|k: int| 0 <= k < bs.len() && bs[k] > i;
                assert(k > 0);
                assert(bs.drop_first()[k - 1] == bs[k]);
            }
            lemma_above_range(bs.drop_first(), i, n);
        }
    }
}

proof fn lemma_bounds_in_text(text: Seq<char>)
    ensures
        forall|k: int| 0 <= k < grapheme_bounds(text).len() ==> 0 <= #[trigger] grapheme_bounds(text)[k] <= grapheme_bounds(text).last(),
{
    let gs = grapheme_clusters(text);
    assert forall|k: int| 0 <= k < grapheme_bounds(text).len() implies 0 <= #[trigger] grapheme_bounds(text)[k] <= grapheme_bounds(text).last() by {
        lemma_part_start_mono(gs, k, gs.len() as int);
    }
}

/// The grapheme boundary before position `i`, as [`prev_grapheme`] states.
pub fn prev_grapheme_boundary(text: &Vec<char>, i: usize) -> (r: usize)
    ensures
        r as int == prev_grapheme(text@, i as int),
        r <= text@.len(),
        i > 0 ==> r < i,
{
    let bs = grapheme_boundaries(text);
    proof {
        lemma_bounds_view(bs@, text@);
        lemma_bounds_in_text(text@);
        lemma_below_range(grapheme_bounds(text@), i as int, text@.len() as int);
    }
    search_below(&bs, i)
}

/// The grapheme boundary after position `i`, as [`next_grapheme`] states.
pub fn next_grapheme_boundary(text: &Vec<char>, i: usize) -> (r: usize)
    ensures
        r as int == next_grapheme(text@, i as int),
        i <= text@.len() ==> i <= r <= text@.len(),
        i < text@.len() ==> i < r,
{
    let bs = grapheme_boundaries(text);
    proof {
        lemma_bounds_view(bs@, text@);
        lemma_bounds_in_text(text@);
        if i <= text@.len() {
            let b = grapheme_bounds(text@);
            if i < text@.len() {
                assert(b[b.len() - 1] > i);
            }
            lemma_above_range(b, i as int, text@.len() as int);
        }
    }
    search_above(&bs, i)
}

/// Position `i` moved back to a grapheme boundary, as [`clamp_grapheme`]
/// states.
pub fn clamp_grapheme_boundary(text: &Vec<char>, i: usize) -> (r: usize)
    ensures
        r as int == clamp_grapheme(text@, i as int),
        r <= i,
        r <= text@.len(),
{
    let bs = grapheme_boundaries(text);
    proof {
        lemma_bounds_view(bs@, text@);
        lemma_bounds_in_text(text@);
        lemma_at_most_range(grapheme_bounds(text@), i as int, text@.len() as int);
    }
    search_at_most(&bs, i)
}

/// From position `i`, back over the characters that are whitespace (`ws`)
/// or are not (`!ws`).
pub open spec fn skip_back(text: Seq<char>, i: int, ws: bool) -> int
    decreases i,
{
    if i <= 0 || i > text.len() {
        i
    } else if unicode_whitespace(text[i - 1]) == ws {
        skip_back(text, i - 1, ws)
    } else {
        i
    }
}

/// From position `i`, forward over the characters that are whitespace
/// (`ws`) or are not (`!ws`).
pub open spec fn skip_forward(text: Seq<char>, i: int, ws: bool) -> int
    decreases text.len() - i,
{
    if i < 0 || i >= text.len() {
        i
    } else if unicode_whitespace(text[i]) == ws {
        skip_forward(text, i + 1, ws)
    } else {
        i
    }
}

/// The word boundary before position `i`: back over whitespace, then over
/// the word before it.
pub open spec fn prev_word(text: Seq<char>, i: int) -> int {
    skip_back(text, skip_back(text, i, true), false)
}

/// The word boundary after position `i`: forward over whitespace, then over
/// the word after it.
pub open spec fn next_word(text: Seq<char>, i: int) -> int {
    skip_forward(text, skip_forward(text, i, true), false)
}

fn skip_back_exec(text: &Vec<char>, i: usize, ws: bool) -> (r: usize)
    requires
        i <= text@.len(),
    ensures
        r as int == skip_back(text@, i as int, ws),
        r <= i,
{
    let mut j: usize = i;
    while j > 0 && is_whitespace(text[j - 1]) == ws
        invariant
            j <= i <= text@.len(),
            skip_back(text@, i as int, ws) == skip_back(text@, j as int, ws),
        decreases j,
    {
        j = j - 1;
    }
    j
}

fn skip_forward_exec(text: &Vec<char>, i: usize, ws: bool) -> (r: usize)
    requires
        i <= text@.len(),
    ensures
        r as int == skip_forward(text@, i as int, ws),
        i <= r <= text@.len(),
{
    let mut j: usize = i;
    while j < text.len() && is_whitespace(text[j]) == ws
        invariant
            i <= j <= text@.len(),
            skip_forward(text@, i as int, ws) == skip_forward(text@, j as int, ws),
        decreases text@.len() - j,
    {
        j = j + 1;
    }
    j
}

/// The word boundary before position `i`, as [`prev_word`] states.
pub fn prev_word_boundary(text: &Vec<char>, i: usize) -> (r: usize)
    requires
        i <= text@.len(),
    ensures
        r as int == prev_word(text@, i as int),
        r <= i,
{
    let j = skip_back_exec(text, i, true);
    skip_back_exec(text, j, false)
}

/// The word boundary after position `i`, as [`next_word`] states.
pub fn next_word_boundary(text: &Vec<char>, i: usize) -> (r: usize)
    requires
        i <= text@.len(),
    ensures
        r as int == next_word(text@, i as int),
        i <= r <= text@.len(),
{
    let j = skip_forward_exec(text, i, true);
    skip_forward_exec(text, j, false)
}

/// `text` with the characters in `start..end` replaced by `ins`.
pub open spec fn spliced(text: Seq<char>, start: int, end: int, ins: Seq<char>) -> Seq<char> {
    text.subrange(0, start) + ins + text.subrange(end, text.len() as int)
}

/// `text` with `start..end` replaced by `ins`, as [`spliced`] states.
pub fn splice(text: &Vec<char>, start: usize, end: usize, ins: &Vec<char>) -> (r: Vec<char>)
    requires
        start <= end <= text@.len(),
    ensures
        r@ == spliced(text@, start as int, end as int, ins@),
{
    let mut r: Vec<char> = Vec::new();
    let mut i: usize = 0;
    while i < start
        invariant
            i <= start <= end <= text@.len(),
            r@ == text@.subrange(0, i as int),
        decreases start - i,
    {
        r.push(text[i]);
        assert(r@ =~= text@.subrange(0, i as int + 1));
        i = i + 1;
    }
    let mut j: usize = 0;
    while j < ins.len()
        invariant
            i == start,
            j <= ins@.len(),
            r@ == text@.subrange(0, start as int) + ins@.subrange(0, j as int),
        decreases ins@.len() - j,
    {
        r.push(ins[j]);
        assert(r@ =~= text@.subrange(0, start as int) + ins@.subrange(0, j as int + 1));
        j = j + 1;
    }
    assert(ins@.subrange(0, ins@.len() as int) =~= ins@);
    let mut k: usize = end;
    while k < text.len()
        invariant
            end <= k <= text@.len(),
            r@ == text@.subrange(0, start as int) + ins@ + text@.subrange(end as int, k as int),
        decreases text@.len() - k,
    {
        r.push(text[k]);
        assert(r@ =~= text@.subrange(0, start as int) + ins@ + text@.subrange(end as int, k as int + 1));
        k = k + 1;
    }
    r
}

/// The characters of `text` in `start..end`.
pub fn slice_of(text: &Vec<char>, start: usize, end: usize) -> (r: Vec<char>)
    requires
        start <= end <= text@.len(),
    ensures
        r@ == text@.subrange(start as int, end as int),
{
    let mut r: Vec<char> = Vec::new();
    let mut i: usize = start;
    while i < end
        invariant
            start <= i <= end <= text@.len(),
            r@ == text@.subrange(start as int, i as int),
        decreases end - i,
    {
        r.push(text[i]);
        assert(r@ =~= text@.subrange(start as int, i as int + 1));
        i = i + 1;
    }
    r
}

/// The number of bytes `c` takes in UTF-8, as `char::len_utf8` documents.
pub open spec fn utf8_len(c: char) -> int {
    if (c as u32) < 0x80 {
        1
    } else if (c as u32) < 0x800 {
        2
    } else if (c as u32) < 0x10000 {
        3
    } else {
        4
    }
}

/// The number of bytes a text takes in UTF-8.
pub open spec fn byte_len(text: Seq<char>) -> int
    decreases text.len(),
{
    if text.len() == 0 {
        0
    } else {
        byte_len(text.drop_last()) + utf8_len(text.last())
    }
}

pub proof fn lemma_byte_len_bound(text: Seq<char>)
    ensures
        0 <= byte_len(text) <= 4 * text.len(),
    decreases text.len(),
{
    if text.len() > 0 {
        lemma_byte_len_bound(text.drop_last());
    }
}

/// The UTF-8 length of one character, as [`utf8_len`] states.
pub fn char_byte_len(c: char) -> (n: u128)
    ensures
        n as int == utf8_len(c),
{
    let v = c as u32;
    if v < 0x80 {
        1
    } else if v < 0x800 {
        2
    } else if v < 0x10000 {
        3
    } else {
        4
    }
}

/// The UTF-8 length of a text, as [`byte_len`] states (it never exceeds
/// four bytes per character, so it fits a `u128`).
pub fn text_byte_len(text: &Vec<char>) -> (n: u128)
    ensures
        n as int == byte_len(text@),
{
    let mut n: u128 = 0;
    let mut i: usize = 0;
    while i < text.len()
        invariant
            i <= text@.len(),
            n as int == byte_len(text@.subrange(0, i as int)),
            n as int <= 4 * i,
        decreases text@.len() - i,
    {
        proof {
            let s = text@.subrange(0, i as int + 1);
            assert(s.drop_last() =~= text@.subrange(0, i as int));
        }
        let c = char_byte_len(text[i]);
        n = n + c;
        i = i + 1;
    }
    assert(text@.subrange(0, text@.len() as int) =~= text@);
    n
}

/// The first line of a clipboard text: everything before the first line
/// break (`\n` or `\r`).
pub open spec fn first_line(text: Seq<char>) -> Seq<char> {
    text.take(line_end(text, 0))
}

/// The position of the first line break at or after `i`, or the length.
pub open spec fn line_end(text: Seq<char>, i: int) -> int
    decreases text.len() - i,
{
    if i < 0 || i >= text.len() {
        i
    } else if text[i] == '\n' || text[i] == '\r' {
        i
    } else {
        line_end(text, i + 1)
    }
}

/// The first line of a clipboard text, as [`first_line`] states.
pub fn first_clipboard_line(text: &str) -> (r: Vec<char>)
    ensures
        r@ == first_line(text@),
{
    let chars = chars_of(text);
    let mut i: usize = 0;
    while i < chars.len() && chars[i] != '\n' && chars[i] != '\r'
        invariant
            chars@ == text@,
            i <= chars@.len(),
            line_end(text@, 0) == line_end(text@, i as int),
        decreases chars@.len() - i,
    {
        i = i + 1;
    }
    slice_of(&chars, 0, i)
}

/// The unit a cursor movement or deletion goes by.
#[derive(Debug, Clone, Copy, PartialEq, Eq, Structural)]
pub enum MoveUnit {
    Grapheme,
    Word,
}

/// What a key asks of a text editor.
#[derive(Debug, Clone, Copy, PartialEq, Eq, Structural)]
pub enum EditCommand {
    InsertChar(char),
    InsertNewline,
    Submit,
    Copy,
    Cut,
    Paste,
    Backspace { unit: MoveUnit },
    Delete { unit: MoveUnit },
    DeleteToStart,
    DeleteToEnd,
    DeleteLine,
    MoveLeft { select: bool, unit: MoveUnit },
    MoveRight { select: bool, unit: MoveUnit },
    MoveUp { select: bool },
    MoveDown { select: bool },
    MoveHome { select: bool },
    MoveEnd { select: bool },
    SelectAll,
    SelectLine,
    Undo,
    Redo,
}

/// The editing command of a key in a single-line editor. With Alt held no
/// key edits. A character types itself, or with Ctrl: `a` selects all, `c`
/// copies, `x` cuts, `v` pastes, `u` and `k` delete to the start and end,
/// `z` and `y` undo and redo. Enter submits; Backspace and Delete delete a
/// grapheme, a word with Ctrl; the arrows, Home and End move, selecting with
/// Shift, Left and Right by words with Ctrl. Other keys do not edit.
pub open spec fn key_command(key: KeyEvent) -> Option<EditCommand> {
    let ctrl = key.modifiers.control;
    let shift = key.modifiers.shift;
    let unit = if ctrl { MoveUnit::Word } else { MoveUnit::Grapheme };
    if key.modifiers.alt {
        None
    } else {
        match key.code {
            KeyCode::Char(c) => if !ctrl {
                Some(EditCommand::InsertChar(c))
            } else if c == 'a' {
                Some(EditCommand::SelectAll)
            } else if c == 'c' {
                Some(EditCommand::Copy)
            } else if c == 'x' {
                Some(EditCommand::Cut)
            } else if c == 'v' {
                Some(EditCommand::Paste)
            } else if c == 'u' {
                Some(EditCommand::DeleteToStart)
            } else if c == 'k' {
                Some(EditCommand::DeleteToEnd)
            } else if c == 'z' {
                Some(EditCommand::Undo)
            } else if c == 'y' {
                Some(EditCommand::Redo)
            } else {
                None
            },
            KeyCode::Enter => Some(EditCommand::Submit),
            KeyCode::Backspace => Some(EditCommand::Backspace { unit }),
            KeyCode::Delete => Some(EditCommand::Delete { unit }),
            KeyCode::Left => Some(EditCommand::MoveLeft { select: shift, unit }),
            KeyCode::Right => Some(EditCommand::MoveRight { select: shift, unit }),
            KeyCode::Up => Some(EditCommand::MoveUp { select: shift }),
            KeyCode::Down => Some(EditCommand::MoveDown { select: shift }),
            KeyCode::Home => Some(EditCommand::MoveHome { select: shift }),
            KeyCode::End => Some(EditCommand::MoveEnd { select: shift }),
            _ => None,
        }
    }
}

/// The editing command of a key, as [`key_command`] states.
pub fn edit_command_from_key(key: &KeyEvent) -> (r: Option<EditCommand>)
    ensures
        r == key_command(*key),
{
    let ctrl = key.modifiers.control;
    let shift = key.modifiers.shift;
    let unit = if ctrl { MoveUnit::Word } else { MoveUnit::Grapheme };
    if key.modifiers.alt {
        return None;
    }
    match key.code {
        KeyCode::Char(c) => {
            if !ctrl {
                Some(EditCommand::InsertChar(c))
            } else if c == 'a' {
                Some(EditCommand::SelectAll)
            } else if c == 'c' {
                Some(EditCommand::Copy)
            } else if c == 'x' {
                Some(EditCommand::Cut)
            } else if c == 'v' {
                Some(EditCommand::Paste)
            } else if c == 'u' {
                Some(EditCommand::DeleteToStart)
            } else if c == 'k' {
                Some(EditCommand::DeleteToEnd)
            } else if c == 'z' {
                Some(EditCommand::Undo)
            } else if c == 'y' {
                Some(EditCommand::Redo)
            } else {
                None
            }
        },
        KeyCode::Enter => Some(EditCommand::Submit),
        KeyCode::Backspace => Some(EditCommand::Backspace { unit }),
        KeyCode::Delete => Some(EditCommand::Delete { unit }),
        KeyCode::Left => Some(EditCommand::MoveLeft { select: shift, unit }),
        KeyCode::Right => Some(EditCommand::MoveRight { select: shift, unit }),
        KeyCode::Up => Some(EditCommand::MoveUp { select: shift }),
        KeyCode::Down => Some(EditCommand::MoveDown { select: shift }),
        KeyCode::Home => Some(EditCommand::MoveHome { select: shift }),
        KeyCode::End => Some(EditCommand::MoveEnd { select: shift }),
        _ => None,
    }
}

/// The position of the cluster under cell `x` of `clusters` laid out from
/// cell 0, each as wide as `rich_rs` measures it; the end of the text where
/// `x` lies past the last cluster.
pub open spec fn position_at_cell(clusters: Seq<Seq<char>>, x: int) -> int
    decreases clusters.len(),
{
    if clusters.len() == 0 {
        0
    } else if x < cell_width(clusters[0]) {
        0
    } else {
        clusters[0].len() + position_at_cell(clusters.drop_first(), x - cell_width(clusters[0]))
    }
}

pub proof fn lemma_joined_front(parts: Seq<Seq<char>>)
    requires
        parts.len() > 0,
    ensures
        joined(parts) == parts[0] + joined(parts.drop_first()),
    decreases parts.len(),
{
    if parts.len() == 1 {
        assert(parts.drop_first().len() == 0);
        assert(parts.drop_last().len() == 0);
        assert(joined(parts.drop_last()) == Seq::<char>::empty());
        assert(joined(parts.drop_first()) == Seq::<char>::empty());
        assert(parts.last() == parts[0]);
        assert(joined(parts) =~= parts[0] + joined(parts.drop_first()));
    } else {
        let a = parts.drop_last();
        let b = parts.drop_first();
        lemma_joined_front(a);
        assert(a[0] == parts[0]);
        assert(a.drop_first() =~= b.drop_last());
        assert(b.last() == parts.last());
        assert(joined(parts) == joined(a) + parts.last());
        assert(joined(b) == joined(b.drop_last()) + b.last());
        assert(joined(parts) =~= parts[0] + joined(b));
    }
}

proof fn lemma_position_at_cell_bound(clusters: Seq<Seq<char>>, x: int)
    ensures
        0 <= position_at_cell(clusters, x) <= joined(clusters).len(),
    decreases clusters.len(),
{
    if clusters.len() > 0 {
        lemma_joined_front(clusters);
        lemma_position_at_cell_bound(clusters.drop_first(), x - cell_width(clusters[0]));
    }
}

/// The text position under cell `x`, as [`position_at_cell`] states over the
/// text's grapheme clusters.
pub fn index_from_cell_x(text: &Vec<char>, x: u16) -> (r: usize)
    ensures
        r as int == position_at_cell(grapheme_clusters(text@), x as int),
        r <= text@.len(),
{
    let n = text.len();
    let s = string_of(text);
    let gs = graphemes_of(s.as_str());
    let ghost all = texts(gs@);
    let mut rest: usize = x as usize;
    let mut pos: usize = 0;
    let mut k: usize = 0;
    proof {
        assert(all.skip(0) =~= all);
        assert(all.take(0) =~= Seq::<Seq<char>>::empty());
        lemma_position_at_cell_bound(all, x as int);
    }
    while k < gs.len()
        invariant
            all == texts(gs@),
            all == grapheme_clusters(text@),
            joined(all) == text@,
            n == text@.len(),
            k <= gs@.len(),
            pos as int == joined(all.take(k as int)).len(),
            position_at_cell(all, x as int) == pos + position_at_cell(all.skip(k as int), rest as int),
        decreases gs@.len() - k,
    {
        let ghost tail = all.skip(k as int);
        proof {
            assert(tail[0] == gs@[k as int]@);
            assert(tail.drop_first() =~= all.skip(k + 1));
            lemma_part_start_step(all, k as int);
            lemma_part_start_mono(all, k as int + 1, all.len() as int);
            lemma_part_start_all(all);
        }
        let w = cell_len(gs[k].as_str());
        if rest < w {
            return pos;
        }
        rest = rest - w;
        pos = pos + gs[k].unicode_len();
        k = k + 1;
    }
    proof {
        assert(all.skip(k as int).len() == 0);
        lemma_part_start_all(all);
    }
    pos
}

} // verus!
