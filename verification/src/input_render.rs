//! What an input shows on its one line: the value (or a bullet per cluster
//! for a password), the cursor and the selection over it, the placeholder
//! when empty, and the rest of a suggestion as ghost text, as runs of text
//! tagged with the role that decides their style.

use vstd::prelude::*;
use crate::cells::{cell_len, cell_width};
use crate::input::{Input, Suggester};
use crate::text_edit::{
    byte_len, char_byte_len, chars_of, grapheme_clusters, graphemes_of, joined, lemma_joined_front, part_start,
    lemma_part_start_step, slice_of, string_of, text_byte_len,
};
use crate::cells::{fit_cells, set_cell_size};
use crate::text::spaces;
use crate::widget_core::texts;

verus! {

/// What a run of an input's line is drawn as.
#[derive(Debug, Clone, Copy, PartialEq, Eq, Structural)]
pub enum InputRole {
    /// Value text with no highlight, and the padding after it.
    Plain,
    Cursor,
    Selection,
    Placeholder,
    Suggestion,
}

/// A run of an input's line.
#[derive(Debug, Clone)]
pub struct InputRun {
    pub text: String,
    pub role: InputRole,
}

/// A run, as text and role.
pub type RunView = (Seq<char>, InputRole);

/// The character masking each cluster of a password.
pub open spec fn bullet() -> Seq<char> {
    seq!['\u{2022}']
}

/// Adjacent pieces with the same role, merged.
pub open spec fn coalesce(items: Seq<RunView>) -> Seq<RunView>
    decreases items.len(),
{
    if items.len() == 0 {
        Seq::empty()
    } else {
        let prev = coalesce(items.drop_last());
        let x = items.last();
        if prev.len() > 0 && prev.last().1 == x.1 {
            prev.drop_last().push((prev.last().0 + x.0, x.1))
        } else {
            prev.push(x)
        }
    }
}

/// The total width, in cells, of some pieces.
pub open spec fn pieces_cells(items: Seq<RunView>) -> int
    decreases items.len(),
{
    if items.len() == 0 {
        0
    } else {
        pieces_cells(items.drop_last()) + cell_width(items.last().0) as int
    }
}

/// The pieces of the value's clusters from `k` on that fit in `room` cells:
/// each shown as itself (or a bullet for a password), as the cursor where
/// it starts at `cursor_at`, as selected where it starts in `lo..hi`, and
/// plain otherwise; laying out stops at the first that does not fit.
pub open spec fn value_pieces(
    cl: Seq<Seq<char>>,
    k: int,
    room: int,
    password: bool,
    cursor_at: Option<int>,
    lo: int,
    hi: int,
) -> Seq<RunView>
    decreases cl.len() - k,
{
    if k < 0 || k >= cl.len() {
        Seq::empty()
    } else {
        let display = if password { bullet() } else { cl[k] };
        let w = cell_width(display) as int;
        if w > room {
            Seq::empty()
        } else {
            let pos = part_start(cl, k);
            let role = if cursor_at == Some(pos) {
                InputRole::Cursor
            } else if lo <= pos && pos < hi {
                InputRole::Selection
            } else {
                InputRole::Plain
            };
            seq![(display, role)] + value_pieces(cl, k + 1, room - w, password, cursor_at, lo, hi)
        }
    }
}

/// The view of built runs.
pub open spec fn built(acc: Seq<(Vec<char>, InputRole)>) -> Seq<RunView> {
    acc.map_values(|p: (Vec<char>, InputRole)| (p.0@, p.1))
}

/// Add a piece to coalesced runs.
fn add_piece(acc: &mut Vec<(Vec<char>, InputRole)>, text: Vec<char>, role: InputRole, Ghost(done): Ghost<Seq<RunView>>)
    requires
        built(old(acc)@) == coalesce(done),
    ensures
        built(final(acc)@) == coalesce(done.push((text@, role))),
{
    proof {
        assert(done.push((text@, role)).drop_last() =~= done);
    }
    let n = acc.len();
    if n > 0 && acc[n - 1].1 == role {
        let (mut t, r) = acc.pop().unwrap();
        let mut i: usize = 0;
        let ghost t0 = t@;
        while i < text.len()
            invariant
                i <= text@.len(),
                t@ == t0 + text@.subrange(0, i as int),
            decreases text@.len() - i,
        {
            t.push(text[i]);
            assert(t@ =~= t0 + text@.subrange(0, i as int + 1));
            i = i + 1;
        }
        assert(text@.subrange(0, text@.len() as int) =~= text@);
        acc.push((t, r));
        proof {
            let prev = coalesce(done);
            assert(built(acc@) =~= prev.drop_last().push((prev.last().0 + text@, role)));
        }
    } else {
        acc.push((text, role));
        proof {
            assert(built(acc@) =~= coalesce(done).push((text@, role)));
        }
    }
}

proof fn lemma_pieces_cells_push(items: Seq<RunView>, x: RunView)
    ensures
        pieces_cells(items.push(x)) == pieces_cells(items) + cell_width(x.0) as int,
{
    assert(items.push(x).drop_last() =~= items);
}

impl<S: Suggester> Input<S> {
    /// The value's pieces, coalesced into runs by role, and the cells they
    /// take, within `width` cells.
    pub fn value_runs(&self, width: usize, cursor_at: Option<usize>, lo: usize, hi: usize) -> (r: (Vec<(Vec<char>, InputRole)>, usize))
        ensures
            ({
                let pieces = value_pieces(
                    grapheme_clusters(self.text@), 0, width as int, self.password,
                    match cursor_at { Some(c) => Some(c as int), None => None }, lo as int, hi as int,
                );
                &&& built(r.0@) == coalesce(pieces)
                &&& r.1 as int == pieces_cells(pieces)
                &&& r.1 <= width
            }),
    {
        let ghost ca = match cursor_at { Some(c) => Some(c as int), None => None::<int> };
        let s = string_of(&self.text);
        let gs = graphemes_of(s.as_str());
        let ghost cl = texts(gs@);
        let mut acc: Vec<(Vec<char>, InputRole)> = Vec::new();
        let mut used: usize = 0;
        let mut pos: usize = 0;
        let mut k: usize = 0;
        let ghost mut done: Seq<RunView> = Seq::empty();
        let n = self.text.len();
        proof {
            assert(cl.take(0) =~= Seq::<Seq<char>>::empty());
            if gs@.len() == 0 {
                assert(value_pieces(cl, 0, width as int, self.password, ca, lo as int, hi as int) =~= Seq::<RunView>::empty());
            }
            assert(done + value_pieces(cl, 0, width as int, self.password, ca, lo as int, hi as int)
                =~= value_pieces(cl, 0, width as int, self.password, ca, lo as int, hi as int));
            assert(built(acc@) =~= Seq::<RunView>::empty());
        }
        while k < gs.len()
            invariant
                ca == (match cursor_at { Some(c) => Some(c as int), None => None::<int> }),
                cl == texts(gs@),
                cl == grapheme_clusters(self.text@),
                joined(cl) == self.text@,
                n == self.text@.len(),
                k <= gs@.len(),
                used <= width,
                pos as int == part_start(cl, k as int),
                pos <= n,
                built(acc@) == coalesce(done),
                used as int == pieces_cells(done),
                value_pieces(cl, 0, width as int, self.password, ca, lo as int, hi as int)
                    == done + value_pieces(cl, k as int, width - used, self.password, ca, lo as int, hi as int),
                k == gs@.len() ==> value_pieces(cl, 0, width as int, self.password, ca, lo as int, hi as int) == done,
            ensures
                built(acc@) == coalesce(done),
                used as int == pieces_cells(done),
                used <= width,
                value_pieces(cl, 0, width as int, self.password, ca, lo as int, hi as int) == done,
            decreases gs@.len() - k,
        {
            let display: Vec<char> = if self.password {
                let mut b: Vec<char> = Vec::new();
                b.push('\u{2022}');
                b
            } else {
                crate::text_edit::chars_of(gs[k].as_str())
            };
            proof {
                assert(cl[k as int] == gs@[k as int]@);
                if self.password {
                    assert(display@ =~= bullet());
                }
            }
            let ds = string_of(&display);
            let w = cell_len(ds.as_str());
            if w > width - used {
                proof {
                    assert(value_pieces(cl, k as int, width - used, self.password, ca, lo as int, hi as int) =~= Seq::<RunView>::empty());
                    assert(done + Seq::<RunView>::empty() =~= done);
                }
                break;
            }
            let is_cursor = match cursor_at {
                Some(c) => c == pos,
                None => false,
            };
            let role = if is_cursor {
                InputRole::Cursor
            } else if lo <= pos && pos < hi {
                InputRole::Selection
            } else {
                InputRole::Plain
            };
            let ghost piece = (display@, role);
            proof {
                assert(display@ == (if self.password { bullet() } else { cl[k as int] }));
                assert(w == cell_width(display@));
                assert(ca == Some(pos as int) <==> is_cursor);
                assert(!(w > width - used));
            }
            add_piece(&mut acc, display, role, Ghost(done));
            proof {
                lemma_pieces_cells_push(done, piece);
                let rest = value_pieces(cl, k as int + 1, width - used - w, self.password, ca, lo as int, hi as int);
                assert(value_pieces(cl, k as int, width - used, self.password, ca, lo as int, hi as int) == seq![piece] + rest);
                assert(done + (seq![piece] + rest) =~= done.push(piece) + rest);
                done = done.push(piece);
                lemma_part_start_step(cl, k as int);
                crate::text_edit::lemma_part_start_mono(cl, k as int + 1, cl.len() as int);
                crate::text_edit::lemma_part_start_all(cl);
            }
            used = used + w;
            pos = pos + gs[k].unicode_len();
            k = k + 1;
            proof {
                if k == gs@.len() {
                    assert(value_pieces(cl, k as int, width - used, self.password, ca, lo as int, hi as int) =~= Seq::<RunView>::empty());
                    assert(done + Seq::<RunView>::empty() =~= done);
                }
            }
        }
        (acc, used)
    }
}

/// The clusters from `k` on that fit, one after another, in `room` cells:
/// their joined text and the cells they take.
pub open spec fn fitting(cl: Seq<Seq<char>>, k: int, room: int) -> (Seq<char>, int)
    decreases cl.len() - k,
{
    if k < 0 || k >= cl.len() {
        (Seq::empty(), 0)
    } else {
        let w = cell_width(cl[k]) as int;
        if w > room {
            (Seq::empty(), 0)
        } else {
            let (t, u) = fitting(cl, k + 1, room - w);
            (cl[k] + t, w + u)
        }
    }
}

/// The character position in `s` where its first `n` bytes end, searching
/// from `k`; none where `n` falls inside a character or past the end.
pub open spec fn char_at_byte(s: Seq<char>, n: int, k: int) -> Option<int>
    decreases s.len() - k,
{
    if k < 0 || k > s.len() {
        None
    } else if byte_len(s.take(k)) == n {
        Some(k)
    } else if byte_len(s.take(k)) > n || k == s.len() {
        None
    } else {
        char_at_byte(s, n, k + 1)
    }
}

/// The clusters of `gs` from `k` on that fit in `room` cells, as
/// [`fitting`] states.
fn fit_clusters(gs: &Vec<String>, k: usize, room: usize) -> (r: (Vec<char>, usize))
    requires
        k <= gs@.len(),
    ensures
        r.0@ == fitting(texts(gs@), k as int, room as int).0,
        r.1 as int == fitting(texts(gs@), k as int, room as int).1,
        r.1 <= room,
{
    let ghost cl = texts(gs@);
    let mut out: Vec<char> = Vec::new();
    let mut used: usize = 0;
    let mut j: usize = k;
    proof {
        assert(Seq::<char>::empty() + fitting(cl, k as int, room as int).0 =~= fitting(cl, k as int, room as int).0);
    }
    while j < gs.len()
        invariant
            cl == texts(gs@),
            k <= j <= gs@.len(),
            used <= room,
            fitting(cl, k as int, room as int).0 == out@ + fitting(cl, j as int, room - used).0,
            fitting(cl, k as int, room as int).1 == used + fitting(cl, j as int, room - used).1,
        ensures
            fitting(cl, k as int, room as int).0 == out@,
            fitting(cl, k as int, room as int).1 == used,
            used <= room,
        decreases gs@.len() - j,
    {
        proof {
            assert(cl[j as int] == gs@[j as int]@);
        }
        let w = cell_len(gs[j].as_str());
        if w > room - used {
            proof {
                assert(out@ + Seq::<char>::empty() =~= out@);
            }
            break;
        }
        let piece = chars_of(gs[j].as_str());
        let mut i: usize = 0;
        let ghost o0 = out@;
        while i < piece.len()
            invariant
                i <= piece@.len(),
                out@ == o0 + piece@.subrange(0, i as int),
            decreases piece@.len() - i,
        {
            out.push(piece[i]);
            assert(out@ =~= o0 + piece@.subrange(0, i as int + 1));
            i = i + 1;
        }
        proof {
            assert(piece@.subrange(0, piece@.len() as int) =~= piece@);
            let rest = fitting(cl, j as int + 1, room - used - w);
            assert(o0 + (cl[j as int] + rest.0) =~= out@ + rest.0);
        }
        used = used + w;
        j = j + 1;
        proof {
            if j == gs@.len() {
                assert(out@ + Seq::<char>::empty() =~= out@);
            }
        }
    }
    (out, used)
}

/// Where the first `n` bytes of `s` end, as [`char_at_byte`] states.
fn char_index_at_byte(s: &Vec<char>, n: u128) -> (r: Option<usize>)
    ensures
        char_at_byte(s@, n as int, 0) == (match r { Some(k) => Some(k as int), None => None::<int> }),
        r matches Some(k) ==> k <= s@.len(),
{
    let mut k: usize = 0;
    let mut b: u128 = 0;
    proof {
        assert(s@.take(0) =~= Seq::<char>::empty());
        crate::text_edit::lemma_byte_len_bound(s@.take(0));
    }
    while k <= s.len()
        invariant
            k <= s@.len(),
            b as int == byte_len(s@.take(k as int)),
            b as int <= 4 * k,
            char_at_byte(s@, n as int, 0) == char_at_byte(s@, n as int, k as int),
        decreases s@.len() - k,
    {
        if b == n {
            return Some(k);
        }
        if b > n || k == s.len() {
            return None;
        }
        proof {
            assert(s@.take(k as int + 1).drop_last() =~= s@.take(k as int));
            assert(s@.take(k as int + 1).last() == s@[k as int]);
        }
        b = b + char_byte_len(s[k]);
        k = k + 1;
    }
    None
}

impl<S: Suggester> Input<S> {
    /// Where the ghost text starts in the suggestion: shown while focused,
    /// for a suggestion longer (in bytes) than the value, after as many of
    /// its bytes as the value has, where that falls between characters.
    pub open spec fn ghost_start(&self) -> Option<int> {
        let sug = self.suggestion@;
        if self.chrome.focused && sug.len() > 0 && byte_len(sug) > byte_len(self.text@) {
            char_at_byte(sug, byte_len(self.text@), 0)
        } else {
            None
        }
    }

    /// What follows the value within `room` cells, and the cells it takes.
    /// With ghost text: where the cursor (showing) is at the end, the first
    /// ghost cluster as the cursor if it fits, then the next clusters of the
    /// rest that fit, as suggestion; otherwise the ghost clusters that fit.
    /// Without: a cursor cell at the end of the value where the cursor shows
    /// there and a cell is left.
    pub open spec fn ghost_pieces(&self, room: int) -> (Seq<RunView>, int) {
        let at_end_showing = self.cursor == self.text@.len() && self.chrome.cursor_visible;
        match self.ghost_start() {
            None => if self.chrome.focused && at_end_showing && room > 0 {
                (seq![(seq![' '], InputRole::Cursor)], 1)
            } else {
                (Seq::empty(), 0)
            },
            Some(k) => {
                let tail = self.suggestion@.skip(k);
                let gcl = grapheme_clusters(tail);
                if at_end_showing {
                    let fits = gcl.len() > 0 && cell_width(gcl[0]) as int <= room;
                    let first = if fits { seq![(gcl[0], InputRole::Cursor)] } else { Seq::empty() };
                    let w0 = if fits { cell_width(gcl[0]) as int } else { 0 };
                    let rest = if gcl.len() > 0 { tail.skip(gcl[0].len() as int) } else { tail };
                    let (rt, ru) = if rest.len() > 0 && room - w0 > 0 {
                        fitting(grapheme_clusters(rest), 0, room - w0)
                    } else {
                        (Seq::empty(), 0)
                    };
                    (first + (if rt.len() > 0 { seq![(rt, InputRole::Suggestion)] } else { Seq::empty() }), w0 + ru)
                } else {
                    let (t, u) = fitting(gcl, 0, room);
                    (if t.len() > 0 { seq![(t, InputRole::Suggestion)] } else { Seq::empty() }, u)
                }
            },
        }
    }
}

impl<S: Suggester> Input<S> {
    /// What follows the value within `room` cells, as
    /// [`Input::ghost_pieces`] states.
    pub fn ghost_runs(&self, room: usize) -> (r: (Vec<(Vec<char>, InputRole)>, usize))
        requires
            self.wf(),
        ensures
            built(r.0@) == self.ghost_pieces(room as int).0,
            r.1 as int == self.ghost_pieces(room as int).1,
            r.1 <= room,
    {
        let at_end_showing = self.cursor == self.text.len() && self.chrome.cursor_visible;
        let mut start: Option<usize> = None;
        if self.chrome.focused && self.suggestion.len() > 0 {
            let sb = text_byte_len(&self.suggestion);
            let tb = text_byte_len(&self.text);
            if sb > tb {
                start = char_index_at_byte(&self.suggestion, tb);
            }
        }
        assert(self.ghost_start() == (match start { Some(k) => Some(k as int), None => None::<int> }));
        let mut out: Vec<(Vec<char>, InputRole)> = Vec::new();
        match start {
            None => {
                if self.chrome.focused && at_end_showing && room > 0 {
                    let mut sp: Vec<char> = Vec::new();
                    sp.push(' ');
                    out.push((sp, InputRole::Cursor));
                    proof {
                        assert(built(out@) =~= seq![(seq![' '], InputRole::Cursor)]);
                    }
                    (out, 1)
                } else {
                    proof {
                        assert(built(out@) =~= Seq::<RunView>::empty());
                    }
                    (out, 0)
                }
            },
            Some(k) => {
                let tail = slice_of(&self.suggestion, k, self.suggestion.len());
                let ts = string_of(&tail);
                let gs = graphemes_of(ts.as_str());
                let ghost gcl = texts(gs@);
                if at_end_showing {
                    let mut w0: usize = 0;
                    if gs.len() > 0 {
                        let w = cell_len(gs[0].as_str());
                        if w <= room {
                            out.push((chars_of(gs[0].as_str()), InputRole::Cursor));
                            w0 = w;
                        }
                    }
                    proof {
                        if gs@.len() > 0 {
                            assert(gcl[0] == gs@[0]@);
                        }
                    }
                    let ghost first = if gcl.len() > 0 && cell_width(gcl[0]) as int <= room { seq![(gcl[0], InputRole::Cursor)] } else { Seq::<RunView>::empty() };
                    proof {
                        assert(built(out@) =~= first);
                    }
                    let rest = if gs.len() > 0 {
                        proof {
                            lemma_joined_front(gcl);
                        }
                        let l0 = gs[0].unicode_len();
                        slice_of(&tail, l0, tail.len())
                    } else {
                        slice_of(&tail, 0, tail.len())
                    };
                    proof {
                        assert(tail@.subrange(0, tail@.len() as int) =~= tail@);
                    }
                    if rest.len() > 0 && room - w0 > 0 {
                        let rs = string_of(&rest);
                        let rgs = graphemes_of(rs.as_str());
                        let (rt, ru) = fit_clusters(&rgs, 0, room - w0);
                        if rt.len() > 0 {
                            out.push((rt, InputRole::Suggestion));
                        }
                        proof {
                            assert(built(out@) =~= first + (if rt@.len() > 0 { seq![(rt@, InputRole::Suggestion)] } else { Seq::<RunView>::empty() }));
                        }
                        (out, w0 + ru)
                    } else {
                        proof {
                            assert(first + Seq::<RunView>::empty() =~= first);
                        }
                        (out, w0)
                    }
                } else {
                    let (t, u) = fit_clusters(&gs, 0, room);
                    if t.len() > 0 {
                        out.push((t, InputRole::Suggestion));
                    }
                    proof {
                        assert(built(out@) =~= (if t@.len() > 0 { seq![(t@, InputRole::Suggestion)] } else { Seq::<RunView>::empty() }));
                    }
                    (out, u)
                }
            },
        }
    }
}

/// The view of rendered runs.
pub open spec fn runs_view(rs: Seq<InputRun>) -> Seq<RunView> {
    rs.map_values(|r: InputRun| (r.text@, r.role))
}

impl<S: Suggester> Input<S> {
    /// The line of an empty input, `w` cells wide: the placeholder fitted to
    /// the width; where the cursor shows, its first character (a space where
    /// there is none) as the cursor.
    pub open spec fn placeholder_pieces(&self, w: int) -> Seq<RunView> {
        let p = match self.placeholder { Some(p) => p@, None => Seq::empty() };
        let line = fit_cells(p, w as usize);
        if self.chrome.focused && self.chrome.cursor_visible {
            let first = if line.len() > 0 { seq![line[0]] } else { seq![' '] };
            let rest = if line.len() > 0 { line.skip(1) } else { Seq::empty() };
            seq![(first, InputRole::Cursor)] + (if rest.len() > 0 { seq![(rest, InputRole::Placeholder)] } else { Seq::empty() })
        } else {
            seq![(line, InputRole::Placeholder)]
        }
    }

    /// The runs of the input's line, `width` cells wide (at least one): the
    /// placeholder for an empty value; otherwise the value's pieces (see
    /// [`value_pieces`]; the cursor marked where it shows, the selection
    /// where focused), merged by role, then what follows the value
    /// ([`Input::ghost_pieces`]), then plain spaces to the full width.
    pub open spec fn line_pieces(&self, width: usize) -> Seq<RunView> {
        let w = if width == 0 { 1 } else { width as int };
        if self.text@.len() == 0 {
            self.placeholder_pieces(w)
        } else {
            let len = self.text@.len() as int;
            let lim = |v: int| if v <= len { v } else { len };
            let (a, b) = if self.chrome.focused && self.has_selection() {
                (lim(self.selection.start as int), lim(self.selection.end as int))
            } else {
                (lim(self.cursor as int), lim(self.cursor as int))
            };
            let lo = if a <= b { a } else { b };
            let hi = if a <= b { b } else { a };
            let ca = if self.chrome.focused && self.chrome.cursor_visible { Some(self.cursor as int) } else { None };
            let pieces = value_pieces(grapheme_clusters(self.text@), 0, w, self.password, ca, lo, hi);
            let used = pieces_cells(pieces);
            let (gp, gu) = self.ghost_pieces(w - used);
            coalesce(pieces) + gp + (if used + gu < w { seq![(spaces((w - used - gu) as nat), InputRole::Plain)] } else { Seq::empty() })
        }
    }

    fn placeholder_runs(&self, w: usize) -> (r: Vec<(Vec<char>, InputRole)>)
        requires
            w >= 1,
        ensures
            built(r@) == self.placeholder_pieces(w as int),
    {
        let p = match &self.placeholder {
            Some(p) => p.clone(),
            None => String::new(),
        };
        proof {
            assert(p@ == (match self.placeholder { Some(q) => q@, None => Seq::<char>::empty() }));
        }
        let line = set_cell_size(p.as_str(), w);
        let lc = chars_of(line.as_str());
        let mut out: Vec<(Vec<char>, InputRole)> = Vec::new();
        if self.chrome.focused && self.chrome.cursor_visible {
            let mut first: Vec<char> = Vec::new();
            if lc.len() > 0 {
                first.push(lc[0]);
            } else {
                first.push(' ');
            }
            let rest = if lc.len() > 0 { slice_of(&lc, 1, lc.len()) } else { Vec::new() };
            let ghost rv = rest@;
            out.push((first, InputRole::Cursor));
            if rest.len() > 0 {
                out.push((rest, InputRole::Placeholder));
            }
            proof {
                let line_v = lc@;
                assert(first@ =~= (if line_v.len() > 0 { seq![line_v[0]] } else { seq![' '] }));
                assert(rv =~= (if line_v.len() > 0 { line_v.skip(1) } else { Seq::<char>::empty() }));
                assert(built(out@) =~= seq![(first@, InputRole::Cursor)] + (if rv.len() > 0 { seq![(rv, InputRole::Placeholder)] } else { Seq::<RunView>::empty() }));
            }
        } else {
            out.push((lc, InputRole::Placeholder));
            proof {
                assert(built(out@) =~= seq![(line@, InputRole::Placeholder)]);
            }
        }
        out
    }

    /// The runs of the input's line, as [`Input::line_pieces`] states.
    pub fn render_runs(&self, width: usize) -> (r: Vec<InputRun>)
        requires
            self.wf(),
        ensures
            runs_view(r@) == self.line_pieces(width),
    {
        let w: usize = if width == 0 { 1 } else { width };
        let mut parts: Vec<(Vec<char>, InputRole)>;
        if self.text.len() == 0 {
            parts = self.placeholder_runs(w);
        } else {
            let len = self.text.len();
            let (a, b) = if self.chrome.focused && self.selection.start != self.selection.end {
                (if self.selection.start <= len { self.selection.start } else { len },
                 if self.selection.end <= len { self.selection.end } else { len })
            } else {
                let c = if self.cursor <= len { self.cursor } else { len };
                (c, c)
            };
            let lo = if a <= b { a } else { b };
            let hi = if a <= b { b } else { a };
            let ca = if self.chrome.focused && self.chrome.cursor_visible { Some(self.cursor) } else { None };
            let (mut vr, used) = self.value_runs(w, ca, lo, hi);
            let (gr, gu) = self.ghost_runs(w - used);
            let ghost v0 = built(vr@);
            let mut i: usize = 0;
            while i < gr.len()
                invariant
                    i <= gr@.len(),
                    built(vr@) == v0 + built(gr@).take(i as int),
                decreases gr@.len() - i,
            {
                let tc = slice_of(&gr[i].0, 0, gr[i].0.len());
                let role = gr[i].1;
                proof {
                    assert(gr@[i as int].0@.subrange(0, gr@[i as int].0@.len() as int) =~= gr@[i as int].0@);
                    assert(built(gr@)[i as int] == (tc@, role));
                }
                let ghost before = vr@;
                vr.push((tc, role));
                proof {
                    assert(built(vr@) =~= built(before).push((tc@, role)));
                }
                proof {
                    assert(built(gr@).take(i as int + 1) =~= built(gr@).take(i as int).push(built(gr@)[i as int]));
                    assert(built(vr@) =~= v0 + built(gr@).take(i as int + 1));
                }
                i = i + 1;
            }
            proof {
                assert(built(gr@).take(gr@.len() as int) =~= built(gr@));
            }
            if used + gu < w {
                let pad = crate::text::space_string(w - used - gu);
                let pc = chars_of(pad.as_str());
                vr.push((pc, InputRole::Plain));
                proof {
                    assert(built(vr@) =~= v0 + built(gr@) + seq![(spaces((w - used - gu) as nat), InputRole::Plain)]);
                }
            } else {
                proof {
                    assert(built(vr@) =~= v0 + built(gr@) + Seq::<RunView>::empty());
                }
            }
            parts = vr;
        }
        let mut out: Vec<InputRun> = Vec::new();
        let mut j: usize = 0;
        while j < parts.len()
            invariant
                j <= parts@.len(),
                runs_view(out@) == built(parts@).take(j as int),
            decreases parts@.len() - j,
        {
            let text = string_of(&parts[j].0);
            let role = parts[j].1;
            let ghost before = out@;
            proof {
                assert(built(parts@)[j as int] == (text@, role));
            }
            out.push(InputRun { text, role });
            proof {
                assert(runs_view(out@) =~= runs_view(before).push(built(parts@)[j as int]));
                assert(runs_view(out@) =~= built(parts@).take(j as int + 1));
            }
            j = j + 1;
        }
        proof {
            assert(built(parts@).take(parts@.len() as int) =~= built(parts@));
        }
        out
    }
}

/// In password mode every piece of the value is shown as a bullet: no
/// character of the value itself reaches the line.
pub proof fn law_password_shows_only_bullets(
    cl: Seq<Seq<char>>,
    k: int,
    room: int,
    cursor_at: Option<int>,
    lo: int,
    hi: int,
)
    ensures
        forall|i: int| 0 <= i < value_pieces(cl, k, room, true, cursor_at, lo, hi).len()
            ==> (#[trigger] value_pieces(cl, k, room, true, cursor_at, lo, hi)[i]).0 == bullet(),
    decreases cl.len() - k,
{
    if 0 <= k < cl.len() {
        let w = cell_width(bullet()) as int;
        if w <= room {
            law_password_shows_only_bullets(cl, k + 1, room - w, cursor_at, lo, hi);
            let rest = value_pieces(cl, k + 1, room - w, true, cursor_at, lo, hi);
            let all = value_pieces(cl, k, room, true, cursor_at, lo, hi);
            assert forall|i: int| 0 <= i < all.len() implies (#[trigger] all[i]).0 == bullet() by {
                if i > 0 {
                    assert(all[i] == rest[i - 1]);
                }
            }
        }
    }
}

} // verus!
