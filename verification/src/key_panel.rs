//! The key panel: a scrollable table of the active key bindings. Binding
//! announcements are turned into table rows (system bindings hidden, repeats
//! dropped); scrolling keeps the offset within the content.

use vstd::prelude::*;
use crate::event::{Action, BindingHint, Event, EventCtx, Message, MessageEvent, ScrollbarAxis};
use crate::footer::{bindings_same, opt_text, same_bindings, FooterBinding};
use crate::scroll::{clamp_offset_spec, line_clamp_offset, line_max_offset, line_scroll_by, max_offset_spec, scroll_by_spec};
use crate::cells::{cell_len, cell_width};
use crate::style::Style;
use crate::text::{has_prefix, opt_text_copy, starts_with, text_eq, text_of, trim, trimmed};
use crate::widget_core::{texts, NodeSeed, WidgetStyles};

verus! {

// ── Key display ─────────────────────────────────────────────────────────

/// The parts of a text between occurrences of a separator (`str::split`).
pub open spec fn split_parts(s: Seq<char>, sep: char) -> Seq<Seq<char>>
    decreases s.len(),
{
    if s.len() == 0 {
        seq![seq![]]
    } else {
        let p = split_parts(s.drop_last(), sep);
        if s.last() == sep {
            p.push(seq![])
        } else {
            p.update(p.len() - 1, p.last().push(s.last()))
        }
    }
}

pub proof fn lemma_split_parts_nonempty(s: Seq<char>, sep: char)
    ensures
        split_parts(s, sep).len() >= 1,
    decreases s.len(),
{
    if s.len() > 0 {
        lemma_split_parts_nonempty(s.drop_last(), sep);
    }
}

/// The display glyph of one key: a `ctrl+` prefix shows as `^`; other keys show as written.
pub open spec fn key_glyph(part: Seq<char>) -> Seq<char> {
    if has_prefix(part, "ctrl+"@) {
        seq!['^'] + part.skip(5)
    } else {
        part
    }
}

/// One key of a binding as the panel shows it: `tab` and `shift+tab` verbatim,
/// others by their glyph.
pub open spec fn part_display(part: Seq<char>) -> Seq<char> {
    if part == "tab"@ || part == "shift+tab"@ {
        part
    } else {
        key_glyph(part)
    }
}

/// Texts joined with single spaces.
pub open spec fn join_spaced(parts: Seq<Seq<char>>) -> Seq<char>
    decreases parts.len(),
{
    if parts.len() == 0 {
        seq![]
    } else if parts.len() == 1 {
        parts[0]
    } else {
        join_spaced(parts.drop_last()) + seq![' '] + parts.last()
    }
}

pub open spec fn nonempty_pred() -> spec_fn(Seq<char>) -> bool {
    |p: Seq<char>| p.len() > 0
}

pub open spec fn trimmed_fn() -> spec_fn(Seq<char>) -> Seq<char> {
    |p: Seq<char>| trimmed(p)
}

pub open spec fn part_display_fn() -> spec_fn(Seq<char>) -> Seq<char> {
    |p: Seq<char>| part_display(p)
}

/// A binding's keys (comma-separated) as the panel shows them: each key
/// trimmed, empty ones dropped, shown by its display form, joined by spaces.
pub open spec fn key_display_text(key: Seq<char>) -> Seq<char> {
    join_spaced(split_parts(key, ',').map_values(trimmed_fn()).filter(nonempty_pred()).map_values(part_display_fn()))
}

/// The display glyph of one key.
fn format_key_display(part: &str) -> (r: String)
    ensures
        r@ == key_glyph(part@),
{
    if starts_with(part, "ctrl+") {
        proof {
            reveal_strlit("ctrl+");
            reveal_strlit("^");
        }
        let n = part.unicode_len();
        let mut r = text_of("^");
        r.append(part.substring_char(5, n));
        assert(r@ =~= seq!['^'] + part@.skip(5));
        r
    } else {
        text_of(part)
    }
}

/// The parts of a text between occurrences of `sep`.
fn split_on(s: &str, sep: char) -> (parts: Vec<String>)
    ensures
        texts(parts@) == split_parts(s@, sep),
{
    let n = s.unicode_len();
    let mut parts: Vec<String> = Vec::new();
    let mut current = String::new();
    let mut i: usize = 0;
    assert(s@.subrange(0, 0) =~= Seq::<char>::empty());
    while i < n
        invariant
            n == s@.len(),
            i <= n,
            texts(parts@).push(current@) == split_parts(s@.subrange(0, i as int), sep),
        decreases n - i,
    {
        let c = s.get_char(i);
        let ghost pre = s@.subrange(0, i as int);
        assert(s@.subrange(0, i as int + 1).drop_last() =~= pre);
        assert(s@.subrange(0, i as int + 1).last() == c);
        proof {
            lemma_split_parts_nonempty(pre, sep);
        }
        if c == sep {
            let ghost before = texts(parts@);
            let ghost cur = current@;
            let done = current;
            parts.push(done);
            assert(texts(parts@) =~= before.push(cur));
            current = String::new();
            assert(split_parts(s@.subrange(0, i as int + 1), sep) == split_parts(pre, sep).push(seq![]));
            assert(current@ =~= Seq::<char>::empty());
            assert(before.push(cur) == split_parts(pre, sep));
            assert(texts(parts@).push(current@) =~= before.push(cur).push(seq![]));
            assert(texts(parts@).push(current@) =~= split_parts(
                s@.subrange(0, i as int + 1),
                sep,
            ));
        } else {
            let ghost before = texts(parts@);
            let ghost cur = current@;
            current.append(s.substring_char(i, i + 1));
            assert(s@.subrange(i as int, i as int + 1) =~= seq![c]);
            assert(current@ =~= cur.push(c));
            assert(before.push(cur) == split_parts(pre, sep));
            assert(split_parts(s@.subrange(0, i as int + 1), sep) == split_parts(pre, sep).update(
                split_parts(pre, sep).len() - 1,
                split_parts(pre, sep).last().push(c),
            ));
            assert(before.push(cur).update(before.len() as int, cur.push(c)) =~= before.push(cur.push(c)));
            assert(texts(parts@).push(current@) =~= split_parts(
                s@.subrange(0, i as int + 1),
                sep,
            ));
        }
        i = i + 1;
    }
    assert(s@.subrange(0, n as int) =~= s@);
    parts.push(current);
    parts
}

/// A binding's key spec as the panel shows it.
pub fn format_binding_key_display(binding_key: &str) -> (r: String)
    ensures
        r@ == key_display_text(binding_key@),
{
    let parts = split_on(binding_key, ',');
    let ghost all = texts(parts@);
    let ghost trimmed_all = all.map_values(trimmed_fn());
    let mut out = String::new();
    let ghost mut shown: Seq<Seq<char>> = seq![];
    let mut any = false;
    let mut i: usize = 0;
    while i < parts.len()
        invariant
            all == texts(parts@),
            trimmed_all == all.map_values(trimmed_fn()),
            i <= parts@.len(),
            shown == trimmed_all.subrange(0, i as int).filter(nonempty_pred()).map_values(part_display_fn()),
            out@ == join_spaced(shown),
            any == (shown.len() > 0),
        decreases parts@.len() - i,
    {
        let part = trim(parts[i].as_str());
        let ghost pre = trimmed_all.subrange(0, i as int);
        proof {
            assert(trimmed_all.subrange(0, i as int + 1) =~= pre.push(trimmed_all[i as int]));
            pre.lemma_filter_push(trimmed_all[i as int], nonempty_pred());
            assert(part@ == trimmed_all[i as int]);
        }
        if part.unicode_len() > 0 {
            let shown_part = if text_eq(part.as_str(), "tab") || text_eq(part.as_str(), "shift+tab") {
                part
            } else {
                format_key_display(part.as_str())
            };
            let ghost old_shown = shown;
            if any {
                out.append(" ");
            }
            out.append(shown_part.as_str());
            any = true;
            proof {
                shown = old_shown.push(part_display(trimmed_all[i as int]));
                assert(shown =~= pre.filter(nonempty_pred()).push(trimmed_all[i as int]).map_values(part_display_fn()));
                reveal_strlit(" ");
                if old_shown.len() > 0 {
                    assert(shown.drop_last() =~= old_shown);
                    assert(out@ =~= join_spaced(shown));
                } else {
                    assert(out@ =~= join_spaced(shown));
                }
            }
        }
        i = i + 1;
    }
    assert(trimmed_all.subrange(0, i as int) =~= trimmed_all);
    out
}

// ── Word wrapping ───────────────────────────────────────────────────────

/// A line without one trailing carriage return.
pub open spec fn strip_cr(line: Seq<char>) -> Seq<char> {
    if line.len() > 0 && line.last() == '\r' {
        line.drop_last()
    } else {
        line
    }
}

pub open spec fn strip_cr_fn() -> spec_fn(Seq<char>) -> Seq<char> {
    |p: Seq<char>| strip_cr(p)
}

/// The lines of a text as `str::lines` gives them: split at newlines, a
/// trailing carriage return dropped from each, and no empty last line after a
/// final newline.
pub open spec fn text_lines(text: Seq<char>) -> Seq<Seq<char>> {
    let parts = split_parts(text, '\n');
    let kept = if parts.last().len() == 0 { parts.drop_last() } else { parts };
    kept.map_values(strip_cr_fn())
}

/// The words of a text as `str::split_whitespace` gives them, and the word
/// being read after the first `k` characters.
pub open spec fn word_state(s: Seq<char>, k: nat) -> (Seq<Seq<char>>, Seq<char>)
    decreases k,
{
    if k == 0 {
        (seq![], seq![])
    } else {
        let (done, cur) = word_state(s, (k - 1) as nat);
        let c = s[k - 1];
        if crate::text::unicode_whitespace(c) {
            if cur.len() > 0 { (done.push(cur), seq![]) } else { (done, cur) }
        } else {
            (done, cur.push(c))
        }
    }
}

/// The whitespace-separated words of a text.
pub open spec fn words_of(s: Seq<char>) -> Seq<Seq<char>> {
    let (done, cur) = word_state(s, s.len());
    if cur.len() > 0 { done.push(cur) } else { done }
}

/// Greedy wrapping of the first `k` words to `width` cells: the finished
/// lines and the line being filled. A word joins the line (after a space)
/// while the line stays within the width.
pub open spec fn wrap_state(words: Seq<Seq<char>>, width: usize, k: nat) -> (Seq<Seq<char>>, Seq<char>)
    decreases k,
{
    if k == 0 {
        (seq![], seq![])
    } else {
        let (done, cur) = wrap_state(words, width, (k - 1) as nat);
        let w = words[k - 1];
        if cur.len() == 0 {
            (done, w)
        } else if cell_width(cur) + 1 + cell_width(w) <= width {
            (done, cur + seq![' '] + w)
        } else {
            (done.push(cur), w)
        }
    }
}

/// The wrapped lines of one paragraph; an empty paragraph is one empty line,
/// a blank one none.
pub open spec fn paragraph_lines(p: Seq<char>, width: usize) -> Seq<Seq<char>> {
    let ws = words_of(p);
    let (done, cur) = wrap_state(ws, width, ws.len());
    if cur.len() > 0 {
        done.push(cur)
    } else if p.len() == 0 {
        done.push(seq![])
    } else {
        done
    }
}

/// The wrapped lines of the first `k` paragraphs.
pub open spec fn paragraphs_lines(ps: Seq<Seq<char>>, width: usize, k: nat) -> Seq<Seq<char>>
    decreases k,
{
    if k == 0 {
        seq![]
    } else {
        paragraphs_lines(ps, width, (k - 1) as nat) + paragraph_lines(ps[k - 1], width)
    }
}

/// A text wrapped to `width` cells, paragraph by paragraph; at least one line.
pub open spec fn wrapped(text: Seq<char>, width: usize) -> Seq<Seq<char>> {
    if width == 0 {
        seq![seq![]]
    } else {
        let ps = text_lines(text);
        let all = paragraphs_lines(ps, width, ps.len());
        if all.len() == 0 { seq![seq![]] } else { all }
    }
}

/// The lines of a text (`str::lines`).
fn split_lines(text: &str) -> (lines: Vec<String>)
    ensures
        texts(lines@) == text_lines(text@),
{
    let parts = split_on(text, '\n');
    proof {
        lemma_split_parts_nonempty(text@, '\n');
    }
    let ghost pv = texts(parts@);
    let n = parts.len();
    let keep = if parts[n - 1].unicode_len() == 0 {
        n - 1
    } else {
        n
    };
    let ghost kept = if pv.last().len() == 0 { pv.drop_last() } else { pv };
    assert(kept.len() == keep);
    let mut out: Vec<String> = Vec::new();
    let mut i: usize = 0;
    while i < keep
        invariant
            keep <= parts@.len(),
            pv == texts(parts@),
            kept.len() == keep,
            forall|j: int| 0 <= j < keep ==> #[trigger] kept[j] == pv[j],
            i <= keep,
            texts(out@) == kept.subrange(0, i as int).map_values(strip_cr_fn()),
        decreases keep - i,
    {
        let part = &parts[i];
        let m = part.unicode_len();
        let line = if m > 0 && part.get_char(m - 1) == '\r' {
            text_of(part.as_str().substring_char(0, m - 1))
        } else {
            part.clone()
        };
        assert(kept[i as int] == part@);
        if m > 0 {
            assert(part@.drop_last() =~= part@.subrange(0, m - 1));
        }
        let ghost before = texts(out@);
        out.push(line);
        assert(line@ == strip_cr(kept[i as int]));
        assert(kept.subrange(0, i as int + 1) =~= kept.subrange(0, i as int).push(kept[i as int]));
        assert(texts(out@) =~= before.push(line@));
        assert(texts(out@) =~= kept.subrange(0, i as int + 1).map_values(strip_cr_fn()));
        i = i + 1;
    }
    assert(kept.subrange(0, keep as int) =~= kept);
    out
}

/// The whitespace-separated words of a text (`str::split_whitespace`).
fn split_words(s: &str) -> (words: Vec<String>)
    ensures
        texts(words@) == words_of(s@),
{
    let n = s.unicode_len();
    let mut done: Vec<String> = Vec::new();
    let mut cur = String::new();
    let mut i: usize = 0;
    while i < n
        invariant
            n == s@.len(),
            i <= n,
            texts(done@) == word_state(s@, i as nat).0,
            cur@ == word_state(s@, i as nat).1,
        decreases n - i,
    {
        let c = s.get_char(i);
        if crate::text::is_whitespace(c) {
            if cur.unicode_len() > 0 {
                let ghost before = texts(done@);
                let ghost cv = cur@;
                let w = cur;
                done.push(w);
                assert(texts(done@) =~= before.push(cv));
                cur = String::new();
                assert(cur@ =~= Seq::<char>::empty());
            }
        } else {
            let ghost cv = cur@;
            cur.append(s.substring_char(i, i + 1));
            assert(s@.subrange(i as int, i as int + 1) =~= seq![c]);
            assert(cur@ =~= cv.push(c));
        }
        i = i + 1;
    }
    if cur.unicode_len() > 0 {
        let ghost before = texts(done@);
        let ghost cv = cur@;
        done.push(cur);
        assert(texts(done@) =~= before.push(cv));
    }
    done
}

/// Text wrapped to a width, paragraph by paragraph, greedily by words.
pub fn wrap_text_for_width(text: &str, width: usize) -> (lines: Vec<String>)
    ensures
        texts(lines@) == wrapped(text@, width),
{
    if width == 0 {
        let mut one: Vec<String> = Vec::new();
        one.push(String::new());
        assert(texts(one@) =~= seq![Seq::<char>::empty()]);
        return one;
    }
    let paragraphs = split_lines(text);
    let ghost ps = texts(paragraphs@);
    let mut lines: Vec<String> = Vec::new();
    let mut p: usize = 0;
    while p < paragraphs.len()
        invariant
            ps == texts(paragraphs@),
            ps == text_lines(text@),
            width > 0,
            p <= ps.len(),
            texts(lines@) == paragraphs_lines(ps, width, p as nat),
        decreases ps.len() - p,
    {
        let paragraph = &paragraphs[p];
        assert(ps[p as int] == paragraph@);
        let words = split_words(paragraph.as_str());
        let ghost wv = texts(words@);
        let ghost base = texts(lines@);
        let mut done: Vec<String> = Vec::new();
        let mut current = String::new();
        let mut k: usize = 0;
        while k < words.len()
            invariant
                wv == texts(words@),
                k <= wv.len(),
                texts(done@) == wrap_state(wv, width, k as nat).0,
                current@ == wrap_state(wv, width, k as nat).1,
            decreases wv.len() - k,
        {
            let word = &words[k];
            assert(wv[k as int] == word@);
            if current.unicode_len() == 0 {
                current = word.clone();
            } else {
                let cw = cell_len(current.as_str());
                let ww = cell_len(word.as_str());
                let fits = match cw.checked_add(1) {
                    Some(a) => match a.checked_add(ww) {
                        Some(b) => b <= width,
                        None => false,
                    },
                    None => false,
                };
                if fits {
                    proof {
                        reveal_strlit(" ");
                    }
                    let ghost cv = current@;
                    current.append(" ");
                    current.append(word.as_str());
                    assert(current@ =~= cv + seq![' '] + word@);
                } else {
                    let ghost before = texts(done@);
                    let ghost cv = current@;
                    let finished = current;
                    done.push(finished);
                    assert(texts(done@) =~= before.push(cv));
                    current = word.clone();
                }
            }
            k = k + 1;
        }
        let ghost before = texts(done@);
        if current.unicode_len() > 0 {
            let ghost cv = current@;
            done.push(current);
            assert(texts(done@) =~= before.push(cv));
        } else if paragraph.unicode_len() == 0 {
            done.push(String::new());
            assert(texts(done@) =~= before.push(Seq::<char>::empty()));
        }
        assert(texts(done@) == paragraph_lines(ps[p as int], width));
        let mut q: usize = 0;
        let ghost dv = texts(done@);
        while q < done.len()
            invariant
                dv == texts(done@),
                q <= dv.len(),
                texts(lines@) == base + dv.subrange(0, q as int),
            decreases dv.len() - q,
        {
            let ghost lb = texts(lines@);
            lines.push(done[q].clone());
            assert(texts(lines@) =~= lb.push(dv[q as int]));
            assert(dv.subrange(0, q as int + 1) =~= dv.subrange(0, q as int).push(dv[q as int]));
            q = q + 1;
        }
        assert(dv.subrange(0, dv.len() as int) =~= dv);
        p = p + 1;
    }
    if lines.len() == 0 {
        lines.push(String::new());
        assert(texts(lines@) =~= seq![Seq::<char>::empty()]);
    }
    lines
}

// ── The bindings table ──────────────────────────────────────────────────

/// The table of bindings inside the key panel.
#[derive(Debug, Clone)]
pub struct BindingsTable {
    pub bindings: Vec<FooterBinding>,
    pub seed: NodeSeed,
}

impl BindingsTable {
    pub fn new() -> (t: BindingsTable)
        ensures
            t.bindings@.len() == 0,
            t.seed.css_id is None,
            t.seed.classes@.len() == 0,
    {
        BindingsTable { bindings: Vec::new(), seed: NodeSeed::new() }
    }

    pub fn with_id(self, id: &str) -> (t: BindingsTable)
        ensures
            t.bindings == self.bindings,
            t.seed == (NodeSeed { css_id: t.seed.css_id, ..self.seed }),
            opt_text(t.seed.css_id) == Some(id@),
    {
        let mut t = self;
        t.seed.css_id = Some(text_of(id));
        t
    }

    pub fn with_bindings(self, bindings: Vec<FooterBinding>) -> (t: BindingsTable)
        ensures
            t == (BindingsTable { bindings, ..self }),
    {
        BindingsTable { bindings, ..self }
    }

    pub fn set_bindings(&mut self, bindings: Vec<FooterBinding>)
        ensures
            *final(self) == (BindingsTable { bindings, ..*old(self) }),
    {
        self.bindings = bindings;
    }

    /// Lines the table needs at least: one per binding, at least one.
    pub fn line_count(&self) -> (n: usize)
        ensures
            n == (if self.bindings@.len() > 0 { self.bindings@.len() } else { 1 }),
    {
        if self.bindings.len() > 0 {
            self.bindings.len()
        } else {
            1
        }
    }

    /// The table sets its own height: its line count.
    pub fn layout_height(&self) -> (h: Option<usize>)
        ensures
            h == Some(if self.bindings@.len() > 0 { self.bindings@.len() as usize } else { 1usize }),
    {
        Some(self.line_count())
    }

    pub fn set_inline_style(&mut self, style: Style)
        ensures
            final(self).bindings == old(self).bindings,
            final(self).seed == (NodeSeed {
                styles: WidgetStyles { style, ..old(self).seed.styles },
                ..old(self).seed
            }),
    {
        self.seed.styles.style = style;
    }

    /// Hand over the mount seed, leaving an empty one.
    pub fn take_node_seed(&mut self) -> (seed: NodeSeed)
        ensures
            seed == old(self).seed,
            final(self).bindings == old(self).bindings,
            final(self).seed.css_id is None,
            final(self).seed.classes@.len() == 0,
    {
        let mut seed = NodeSeed::new();
        std::mem::swap(&mut seed, &mut self.seed);
        seed
    }
}

// ── Table text ──────────────────────────────────────────────────────────

/// The widest key among the first `k` bindings, in cells.
pub open spec fn widest_key(bs: Seq<FooterBinding>, k: nat) -> usize
    decreases k,
{
    if k == 0 {
        0
    } else {
        let m = widest_key(bs, (k - 1) as nat);
        let w = cell_width(bs[k - 1].key@);
        if w > m { w } else { m }
    }
}

/// The key column's width: the widest key, at least 3 and at most 24 cells.
pub open spec fn key_column_width(bs: Seq<FooterBinding>) -> usize {
    let m = widest_key(bs, bs.len());
    let a: usize = if m < 24 { m } else { 24 };
    if a < 3 { 3 } else { a }
}

/// Cells left for descriptions: what the key column and its two-space gap
/// leave of the width, at least 1.
pub open spec fn description_width(width: usize, key_width: usize) -> usize {
    let r = width.saturating_sub(key_width.saturating_add(2));
    if r < 1 { 1 } else { r }
}

/// A continuation line: blank under the key column, then the text.
pub open spec fn indented_fn(key_width: usize, width: usize) -> spec_fn(Seq<char>) -> Seq<char> {
    |l: Seq<char>| crate::cells::fit_cells(crate::text::spaces(key_width as nat) + seq![' ', ' '] + l, width)
}

/// The lines of one binding: the key right-aligned in the key column, two
/// spaces and the first line of the wrapped description; the description's
/// other lines and the wrapped tooltip below, indented past the key column.
pub open spec fn binding_lines(b: FooterBinding, width: usize, key_width: usize, desc_width: usize) -> Seq<Seq<char>> {
    let key = crate::text::spaces(key_width.saturating_sub(cell_width(b.key@)) as nat) + b.key@;
    let d = wrapped(b.description@, desc_width);
    let first = crate::cells::fit_cells(key + seq![' ', ' '] + d[0], width);
    let tips: Seq<Seq<char>> = match b.tooltip {
        Some(t) => wrapped(t@, desc_width).map_values(indented_fn(key_width, width)),
        None => seq![],
    };
    seq![first] + d.skip(1).map_values(indented_fn(key_width, width)) + tips
}

/// The table's lines for the first `k` bindings, and the last group seen: a
/// blank line separates bindings of different named groups.
pub open spec fn table_state(bs: Seq<FooterBinding>, width: usize, k: nat) -> (Seq<Seq<char>>, Option<Seq<char>>)
    decreases k,
{
    if k == 0 {
        (seq![], None)
    } else {
        let (ls, prev) = table_state(bs, width, (k - 1) as nat);
        let b = bs[k - 1];
        let kw = key_column_width(bs);
        let dw = description_width(width, kw);
        match b.group {
            Some(g) => {
                let sep: Seq<Seq<char>> = if prev is Some && prev != Some(g@) {
                    seq![crate::cells::fit_cells(seq![], width)]
                } else {
                    seq![]
                };
                (ls + sep + binding_lines(b, width, kw, dw), Some(g@))
            },
            None => (ls + binding_lines(b, width, kw, dw), prev),
        }
    }
}

/// The table's lines `width` cells wide; `(no bindings)` when empty.
pub open spec fn table_lines(bs: Seq<FooterBinding>, width: usize) -> Seq<Seq<char>> {
    if bs.len() == 0 {
        seq![crate::cells::fit_cells("(no bindings)"@, width)]
    } else {
        table_state(bs, width, bs.len()).0
    }
}

/// Append `lines` (mapped by `indented_fn`) to `out`.
fn push_indented(out: &mut Vec<String>, lines: &Vec<String>, from: usize, key_width: usize, width: usize)
    requires
        from <= lines@.len(),
    ensures
        texts(final(out)@) == texts(old(out)@) + texts(lines@).skip(from as int).map_values(
            indented_fn(key_width, width),
        ),
{
    let ghost base = texts(out@);
    let ghost lv = texts(lines@);
    let blank = crate::text::space_string(key_width);
    proof {
        reveal_strlit("  ");
    }
    assert("  "@ =~= seq![' ', ' ']);
    let mut i = from;
    assert(lv.skip(from as int).subrange(0, 0) =~= Seq::<Seq<char>>::empty());
    while i < lines.len()
        invariant
            from <= i <= lines@.len(),
            lv == texts(lines@),
            blank@ == crate::text::spaces(key_width as nat),
            "  "@ == seq![' ', ' '],
            texts(out@) == base + lv.skip(from as int).subrange(0, i - from).map_values(indented_fn(key_width, width)),
        decreases lines@.len() - i,
    {
        let mut t = blank.clone();
        t.append("  ");
        t.append(lines[i].as_str());
        let fitted = crate::cells::set_cell_size(t.as_str(), width);
        assert(t@ =~= crate::text::spaces(key_width as nat) + seq![' ', ' '] + lv[i as int]);
        let ghost before = texts(out@);
        out.push(fitted);
        assert(lv.skip(from as int).subrange(0, i + 1 - from) =~= lv.skip(from as int).subrange(0, i - from).push(
            lv[i as int],
        ));
        assert(texts(out@) =~= before.push(fitted@));
        i = i + 1;
    }
    assert(lv.skip(from as int).subrange(0, lines@.len() - from) =~= lv.skip(from as int));
}

impl BindingsTable {
    /// The key column's width.
    pub fn key_column_width_exec(&self) -> (w: usize)
        ensures
            w == key_column_width(self.bindings@),
    {
        let mut m: usize = 0;
        let mut i: usize = 0;
        while i < self.bindings.len()
            invariant
                i <= self.bindings@.len(),
                m == widest_key(self.bindings@, i as nat),
            decreases self.bindings@.len() - i,
        {
            let w = cell_len(self.bindings[i].key.as_str());
            if w > m {
                m = w;
            }
            i = i + 1;
        }
        let a = if m < 24 {
            m
        } else {
            24
        };
        if a < 3 {
            3
        } else {
            a
        }
    }

    /// The lines of one binding.
    fn binding_lines_exec(b: &FooterBinding, width: usize, key_width: usize, desc_width: usize) -> (lines: Vec<String>)
        ensures
            texts(lines@) == binding_lines(*b, width, key_width, desc_width),
    {
        let key_len = cell_len(b.key.as_str());
        let mut key = crate::text::space_string(key_width.saturating_sub(key_len));
        key.append(b.key.as_str());
        let description_lines = wrap_text_for_width(b.description.as_str(), desc_width);
        let ghost d = texts(description_lines@);
        proof {
            reveal_strlit("  ");
            if desc_width == 0 {
            } else {
                let ps = text_lines(b.description@);
            }
        }
        assert("  "@ =~= seq![' ', ' ']);
        assert(d.len() >= 1) by {
            if desc_width > 0 {
                let ps = text_lines(b.description@);
                let all = paragraphs_lines(ps, desc_width, ps.len());
                assert(d == (if all.len() == 0 { seq![seq![]] } else { all }));
            }
        }
        let mut first = key;
        first.append("  ");
        first.append(description_lines[0].as_str());
        let fitted = crate::cells::set_cell_size(first.as_str(), width);
        let mut out: Vec<String> = Vec::new();
        out.push(fitted);
        assert(texts(out@) =~= seq![crate::cells::fit_cells(
            crate::text::spaces(key_width.saturating_sub(cell_width(b.key@)) as nat) + b.key@ + seq![' ', ' '] + d[0],
            width,
        )]);
        push_indented(&mut out, &description_lines, 1, key_width, width);
        match &b.tooltip {
            Some(t) => {
                let tips = wrap_text_for_width(t.as_str(), desc_width);
                let ghost before = texts(out@);
                push_indented(&mut out, &tips, 0, key_width, width);
                assert(texts(tips@).skip(0) =~= texts(tips@));
            },
            None => {
                assert(texts(out@) =~= texts(out@) + Seq::<Seq<char>>::empty());
            },
        }
        out
    }

    /// The table's text lines, `width` cells wide.
    pub fn lines(&self, width: usize) -> (lines: Vec<String>)
        ensures
            texts(lines@) == table_lines(self.bindings@, width),
    {
        if self.bindings.len() == 0 {
            let mut one: Vec<String> = Vec::new();
            one.push(crate::cells::set_cell_size("(no bindings)", width));
            assert(texts(one@) =~= table_lines(self.bindings@, width));
            return one;
        }
        let kw = self.key_column_width_exec();
        let dw0 = width.saturating_sub(kw.saturating_add(2));
        let dw = if dw0 < 1 {
            1
        } else {
            dw0
        };
        let mut out: Vec<String> = Vec::new();
        let mut previous: Option<String> = None;
        let mut i: usize = 0;
        while i < self.bindings.len()
            invariant
                i <= self.bindings@.len(),
                kw == key_column_width(self.bindings@),
                dw == description_width(width, kw),
                texts(out@) == table_state(self.bindings@, width, i as nat).0,
                opt_text(previous) == table_state(self.bindings@, width, i as nat).1,
            decreases self.bindings@.len() - i,
        {
            let b = &self.bindings[i];
            let ghost before = texts(out@);
            match &b.group {
                Some(g) => {
                    let differs = match &previous {
                        Some(p) => !text_eq(p.as_str(), g.as_str()),
                        None => false,
                    };
                    if differs {
                        proof {
                            reveal_strlit("");
                        }
                        out.push(crate::cells::set_cell_size("", width));
                        assert(""@ =~= Seq::<char>::empty());
                    }
                    let ghost mid = texts(out@);
                    let ghost sep: Seq<Seq<char>> = if differs { seq![crate::cells::fit_cells(seq![], width)] } else { seq![] };
                    assert(mid =~= before + sep);
                    previous = Some(g.clone());
                },
                None => {},
            }
            let ghost mid = texts(out@);
            let more = BindingsTable::binding_lines_exec(b, width, kw, dw);
            let mut j: usize = 0;
            while j < more.len()
                invariant
                    j <= more@.len(),
                    texts(out@) == mid + texts(more@).subrange(0, j as int),
                decreases more@.len() - j,
            {
                let ghost lb = texts(out@);
                out.push(more[j].clone());
                assert(texts(out@) =~= lb.push(texts(more@)[j as int]));
                assert(texts(more@).subrange(0, j as int + 1) =~= texts(more@).subrange(0, j as int).push(
                    texts(more@)[j as int],
                ));
                j = j + 1;
            }
            assert(texts(more@).subrange(0, more@.len() as int) =~= texts(more@));
            i = i + 1;
        }
        out
    }
}

/// Fit each line to `width` cells.
fn fit_all(lines: &Vec<String>, width: usize) -> (out: Vec<String>)
    ensures
        texts(out@) == texts(lines@).map_values(fit_fn(width)),
{
    let mut out: Vec<String> = Vec::new();
    let mut i: usize = 0;
    while i < lines.len()
        invariant
            i <= lines@.len(),
            texts(out@) == texts(lines@).subrange(0, i as int).map_values(fit_fn(width)),
        decreases lines@.len() - i,
    {
        let line = crate::cells::set_cell_size(lines[i].as_str(), width);
        let ghost before = texts(out@);
        out.push(line);
        assert(texts(out@) =~= before.push(line@));
        assert(texts(lines@).subrange(0, i + 1).map_values(fit_fn(width)) =~= texts(lines@).subrange(0, i as int).map_values(
            fit_fn(width),
        ).push(fit_fn(width)(texts(lines@)[i as int])));
        i = i + 1;
    }
    assert(texts(lines@).subrange(0, lines@.len() as int) =~= texts(lines@));
    out
}

impl BindingsTable {
    /// Render at `width` cells (at least 1): every table line, fitted to the width.
    pub fn render_lines(&self, width: usize) -> (lines: Vec<String>)
        ensures
            texts(lines@) == table_lines(self.bindings@, at_least_one(width)).map_values(fit_fn(at_least_one(width))),
    {
        let w = if width < 1 {
            1
        } else {
            width
        };
        let all = self.lines(w);
        fit_all(&all, w)
    }
}

// ── Panel rows from binding hints ───────────────────────────────────────

/// The key a hint shows in the panel: its display form, else its formatted key spec.
pub open spec fn panel_key(h: BindingHint) -> Seq<char> {
    match h.key_display {
        Some(d) => d@,
        None => key_display_text(h.key@),
    }
}

/// What makes two panel rows the same: namespace, shown key and description.
pub open spec fn signature(h: BindingHint) -> (Option<Seq<char>>, Seq<char>, Seq<char>) {
    (opt_text(h.namespace), panel_key(h), h.description@)
}

pub open spec fn signature_fn() -> spec_fn(BindingHint) -> (Option<Seq<char>>, Seq<char>, Seq<char>) {
    |h: BindingHint| signature(h)
}

/// The hints the panel lists: not system bindings, and not repeating the
/// signature of an earlier listed hint.
pub open spec fn kept_hints(hs: Seq<BindingHint>) -> Seq<BindingHint>
    decreases hs.len(),
{
    if hs.len() == 0 {
        seq![]
    } else {
        let k = kept_hints(hs.drop_last());
        let h = hs.last();
        if h.system || k.map_values(signature_fn()).contains(signature(h)) {
            k
        } else {
            k.push(h)
        }
    }
}

/// The panel row for a hint: the shown key, the description and tooltip, and
/// the namespace as its group.
pub open spec fn panel_binding_of(b: FooterBinding, h: BindingHint) -> bool {
    &&& b.key@ == panel_key(h)
    &&& b.description == h.description
    &&& b.tooltip == h.tooltip
    &&& b.group == h.namespace
    &&& b.action_key is None
    &&& b.enabled == Some(true)
}

/// The rows listed for a list of hints, in order.
pub open spec fn panel_rows(bs: Seq<FooterBinding>, hs: Seq<BindingHint>) -> bool {
    &&& bs.len() == kept_hints(hs).len()
    &&& forall|i: int| 0 <= i < bs.len() ==> panel_binding_of(#[trigger] bs[i], kept_hints(hs)[i])
}

/// The signature recorded for a listed row.
pub open spec fn seen_sig(t: (Option<String>, String, String)) -> (Option<Seq<char>>, Seq<char>, Seq<char>) {
    (opt_text(t.0), t.1@, t.2@)
}

pub open spec fn seen_sig_fn() -> spec_fn((Option<String>, String, String)) -> (Option<Seq<char>>, Seq<char>, Seq<char>) {
    |t: (Option<String>, String, String)| seen_sig(t)
}

/// A step scroll in lines as a signed delta (saturating at `i32::MAX`).
pub open spec fn step_delta(step: usize) -> int {
    if step > 0x7fff_ffff {
        0x7fff_ffff
    } else {
        step as int
    }
}

fn step_delta_exec(step: usize) -> (d: i32)
    ensures
        d == step_delta(step),
{
    if step > 0x7fff_ffff {
        0x7fff_ffff
    } else {
        step as i32
    }
}

/// `a * b`, saturated into the `i32` range.
pub open spec fn saturating_product(a: int, b: int) -> int {
    let p = a * b;
    if p > 0x7fff_ffff {
        0x7fff_ffff
    } else if p < -0x8000_0000 {
        -0x8000_0000
    } else {
        p
    }
}

/// `n`, or 1 where `n` is 0.
pub open spec fn at_least_one(n: usize) -> usize {
    if n < 1 { 1 } else { n }
}

/// Fit a line to `width` cells.
pub open spec fn fit_fn(width: usize) -> spec_fn(Seq<char>) -> Seq<char> {
    |l: Seq<char>| crate::cells::fit_cells(l, width)
}

/// What a viewport of `viewport` lines, `width` cells wide, shows of `all`
/// scrolled to `offset`: the offset is clamped so that the viewport stays
/// within the content; the lines shown are fitted to the width, and blank
/// lines fill what the content leaves of the viewport.
pub open spec fn viewport_view(all: Seq<Seq<char>>, offset: usize, viewport: usize, width: usize) -> Seq<Seq<char>> {
    let content = at_least_one(all.len() as usize);
    let start = clamp_offset_spec(offset, content, viewport);
    let end_raw = if start + viewport < content { start + viewport } else { content as int };
    let end = if end_raw < all.len() { end_raw } else { all.len() as int };
    let start2 = if start < end { start as int } else { end };
    let shown = all.subrange(start2, end).map_values(fit_fn(width));
    let fill = if shown.len() < viewport { (viewport - shown.len()) as nat } else { 0 };
    shown + Seq::new(fill, |_j: int| crate::text::spaces(width as nat))
}

/// The key panel widget.
#[derive(Debug, Clone)]
pub struct KeyPanel {
    pub title: String,
    pub table: BindingsTable,
    pub offset_y: usize,
    pub scroll_step: usize,
    /// Lines of content at the last render.
    pub content_height: usize,
    /// Lines of viewport at the last render.
    pub viewport_height: usize,
    pub widget_width: usize,
    pub widget_height: usize,
    pub scrollbar_extracted: bool,
    pub seed: NodeSeed,
}

/// The css id of the panel's vertical scrollbar.
pub open spec fn scrollbar_id() -> Seq<char> {
    "__key_panel_vscrollbar"@
}

impl KeyPanel {
    /// Titled `Key Bindings`, empty, scrolled to the top one line per step, 1x1.
    pub fn new() -> (p: KeyPanel)
        ensures
            p.title@ == "Key Bindings"@,
            p.table.bindings@.len() == 0,
            opt_text(p.table.seed.css_id) == Some("bindings-table"@),
            p.offset_y == 0,
            p.scroll_step == 1,
            p.content_height == 1,
            p.viewport_height == 1,
            p.widget_width == 1,
            p.widget_height == 1,
            !p.scrollbar_extracted,
            p.seed.css_id is None,
    {
        KeyPanel {
            title: text_of("Key Bindings"),
            table: BindingsTable::new().with_id("bindings-table"),
            offset_y: 0,
            scroll_step: 1,
            content_height: 1,
            viewport_height: 1,
            widget_width: 1,
            widget_height: 1,
            scrollbar_extracted: false,
            seed: NodeSeed::new(),
        }
    }

    pub fn title(self, title: &str) -> (p: KeyPanel)
        ensures
            p == (KeyPanel { title: p.title, ..self }),
            p.title@ == title@,
    {
        KeyPanel { title: text_of(title), ..self }
    }

    pub fn with_id(self, id: &str) -> (p: KeyPanel)
        ensures
            p == (KeyPanel { seed: p.seed, ..self }),
            p.seed == (NodeSeed { css_id: p.seed.css_id, ..self.seed }),
            opt_text(p.seed.css_id) == Some(id@),
    {
        let mut p = self;
        p.seed.css_id = Some(text_of(id));
        p
    }

    pub fn with_bindings(self, bindings: Vec<FooterBinding>) -> (p: KeyPanel)
        ensures
            p == (KeyPanel { table: BindingsTable { bindings, ..self.table }, ..self }),
    {
        let mut p = self;
        p.table.set_bindings(bindings);
        p
    }

    /// The content and viewport heights scrolling works with (each at least 1).
    pub open spec fn content_lines(&self) -> usize {
        if self.content_height == 0 { 1 } else { self.content_height }
    }

    pub open spec fn viewport_lines(&self) -> usize {
        if self.viewport_height == 0 { 1 } else { self.viewport_height }
    }

    /// Largest scroll offset.
    pub open spec fn max_offset_of(&self) -> usize {
        max_offset_spec(self.content_lines(), self.viewport_lines())
    }

    fn content_lines_exec(&self) -> (n: usize)
        ensures
            n == self.content_lines(),
    {
        if self.content_height == 0 {
            1
        } else {
            self.content_height
        }
    }

    fn viewport_lines_exec(&self) -> (n: usize)
        ensures
            n == self.viewport_lines(),
    {
        if self.viewport_height == 0 {
            1
        } else {
            self.viewport_height
        }
    }

    /// Replace the rows, keeping the offset within the content.
    pub fn set_bindings(&mut self, bindings: Vec<FooterBinding>)
        ensures
            *final(self) == (KeyPanel {
                table: BindingsTable { bindings, ..old(self).table },
                offset_y: clamp_offset_spec(old(self).offset_y, old(self).content_lines(), old(self).viewport_lines()),
                ..*old(self)
            }),
    {
        self.table.set_bindings(bindings);
        self.clamp_offset();
    }

    /// Rows for the active bindings: system bindings are left out, and a hint
    /// repeating the namespace, shown key and description of an earlier one is
    /// dropped.
    pub fn set_binding_hints(&mut self, bindings: &Vec<BindingHint>)
        ensures
            panel_rows(final(self).table.bindings@, bindings@),
            *final(self) == (KeyPanel {
                table: BindingsTable { bindings: final(self).table.bindings, ..old(self).table },
                offset_y: clamp_offset_spec(old(self).offset_y, old(self).content_lines(), old(self).viewport_lines()),
                ..*old(self)
            }),
    {
        let mut seen: Vec<(Option<String>, String, String)> = Vec::new();
        let mut mapped: Vec<FooterBinding> = Vec::new();
        let mut i: usize = 0;
        while i < bindings.len()
            invariant
                i <= bindings@.len(),
                panel_rows(mapped@, bindings@.subrange(0, i as int)),
                seen@.map_values(seen_sig_fn()) == kept_hints(bindings@.subrange(0, i as int)).map_values(
                    signature_fn(),
                ),
            decreases bindings@.len() - i,
        {
            let hint = &bindings[i];
            let ghost pre = bindings@.subrange(0, i as int);
            let ghost kept = kept_hints(pre);
            assert(bindings@.subrange(0, i as int + 1).drop_last() =~= pre);
            assert(bindings@.subrange(0, i as int + 1).last() == *hint);
            if !hint.system {
                let key = match &hint.key_display {
                    Some(d) => d.clone(),
                    None => format_binding_key_display(hint.key.as_str()),
                };
                let namespace = opt_text_copy(&hint.namespace);
                let mut found = false;
                let mut k: usize = 0;
                while k < seen.len()
                    invariant
                        k <= seen@.len(),
                        found == (exists|j: int| 0 <= j < k && #[trigger] seen_sig(seen@[j]) == signature(*hint)),
                        seen@.map_values(seen_sig_fn()) == kept.map_values(signature_fn()),
                        key@ == panel_key(*hint),
                        opt_text(namespace) == opt_text(hint.namespace),
                    decreases seen@.len() - k,
                {
                    let entry = &seen[k];
                    if crate::footer::opt_text_eq(&entry.0, &namespace) && text_eq(entry.1.as_str(), key.as_str())
                        && text_eq(entry.2.as_str(), hint.description.as_str()) {
                        assert(seen_sig(seen@[k as int]) == signature(*hint));
                        found = true;
                    }
                    k = k + 1;
                }
                proof {
                    let sigs = kept.map_values(signature_fn());
                    assert(seen@.map_values(seen_sig_fn()) == sigs);
                    if found {
                        let j = choose|j: int| 0 <= j < seen@.len() && #[trigger] seen_sig(seen@[j]) == signature(*hint);
                        assert(sigs[j] == signature(*hint));
                    } else if sigs.contains(signature(*hint)) {
                        let j = choose|j: int| 0 <= j < sigs.len() && sigs[j] == signature(*hint);
                        assert(seen@.map_values(seen_sig_fn())[j] == seen_sig(seen@[j]));
                    }
                }
                if !found {
                    let ghost old_seen = seen@;
                    seen.push((opt_text_copy(&hint.namespace), text_of(key.as_str()), hint.description.clone()));
                    let b = FooterBinding {
                        key,
                        description: hint.description.clone(),
                        tooltip: opt_text_copy(&hint.tooltip),
                        group: namespace,
                        action_key: None,
                        enabled: Some(true),
                    };
                    let ghost old_mapped = mapped@;
                    mapped.push(b);
                    proof {
                        assert(kept_hints(bindings@.subrange(0, i as int + 1)) == kept.push(*hint));
                        assert(seen@.map_values(seen_sig_fn()) =~= old_seen.map_values(seen_sig_fn()).push(signature(*hint)));
                        assert(kept.push(*hint).map_values(signature_fn()) =~= kept.map_values(signature_fn()).push(
                            signature(*hint),
                        ));
                        assert forall|j: int| 0 <= j < mapped@.len() implies panel_binding_of(
                            #[trigger] mapped@[j],
                            kept.push(*hint)[j],
                        ) by {
                            if j < old_mapped.len() {
                                assert(mapped@[j] == old_mapped[j]);
                            }
                        }
                    }
                } else {
                    assert(kept_hints(bindings@.subrange(0, i as int + 1)) == kept);
                }
            } else {
                assert(kept_hints(bindings@.subrange(0, i as int + 1)) == kept);
            }
            i = i + 1;
        }
        assert(bindings@.subrange(0, i as int) =~= bindings@);
        self.set_bindings(mapped);
    }

    /// Builder form of the scroll step (at least 1).
    pub fn scroll_step(self, step: usize) -> (p: KeyPanel)
        ensures
            p == (KeyPanel { scroll_step: if step == 0 { 1 } else { step }, ..self }),
    {
        KeyPanel {
            scroll_step: if step == 0 {
                1
            } else {
                step
            },
            ..self
        }
    }

    fn max_offset(&self) -> (m: usize)
        ensures
            m == self.max_offset_of(),
    {
        line_max_offset(self.content_lines_exec(), self.viewport_lines_exec())
    }

    fn clamp_offset(&mut self)
        ensures
            *final(self) == (KeyPanel {
                offset_y: clamp_offset_spec(old(self).offset_y, old(self).content_lines(), old(self).viewport_lines()),
                ..*old(self)
            }),
    {
        let c = self.content_lines_exec();
        let v = self.viewport_lines_exec();
        self.offset_y = line_clamp_offset(self.offset_y, c, v);
    }

    fn scroll_by(&mut self, delta: i32)
        ensures
            *final(self) == (KeyPanel {
                offset_y: scroll_by_spec(old(self).offset_y, delta as int, old(self).content_lines(), old(self).viewport_lines()),
                ..*old(self)
            }),
    {
        let c = self.content_lines_exec();
        let v = self.viewport_lines_exec();
        self.offset_y = line_scroll_by(self.offset_y, delta, c, v);
    }

    /// Scrolling is possible when the content is taller than the viewport.
    pub fn can_scroll(&self) -> (b: bool)
        ensures
            b == (self.content_height > self.viewport_height),
    {
        self.content_height > self.viewport_height
    }

    fn emit_scroll_changed_message(&self, ctx: &mut EventCtx)
        ensures
            *final(ctx) == (EventCtx { messages: final(ctx).messages, ..*old(ctx) }),
            final(ctx).messages@ == old(ctx).messages@.push(
                MessageEvent {
                    sender: old(ctx).node,
                    message: Message::KeyPanelScrolled { offset: self.offset_y, max_offset: self.max_offset_of() },
                },
            ),
    {
        let max_offset = self.max_offset();
        ctx.post_message(Message::KeyPanelScrolled { offset: self.offset_y, max_offset });
    }

    /// The scroll delta of an action, if it scrolls the panel.
    pub open spec fn action_delta(&self, action: Action) -> Option<int> {
        match action {
            Action::ScrollUp => Some(-step_delta(self.scroll_step)),
            Action::ScrollDown => Some(step_delta(self.scroll_step)),
            Action::ScrollPageUp => Some(-step_delta(self.viewport_lines())),
            Action::ScrollPageDown => Some(step_delta(self.viewport_lines())),
            _ => None,
        }
    }

    /// A panel scrolled by `delta` and the context after it: a moved offset
    /// repaints, announces the new offset and marks the event handled.
    pub open spec fn scrolled(old: KeyPanel, new: KeyPanel, delta: int, c0: EventCtx, c1: EventCtx) -> bool {
        let off = scroll_by_spec(old.offset_y, delta, old.content_lines(), old.viewport_lines());
        &&& new == (KeyPanel { offset_y: off, ..old })
        &&& if off == old.offset_y {
            c1 == c0
        } else {
            &&& c1 == (EventCtx { messages: c1.messages, repaint: true, handled: true, ..c0 })
            &&& c1.messages@ == c0.messages@.push(
                MessageEvent {
                    sender: c0.node,
                    message: Message::KeyPanelScrolled { offset: off, max_offset: old.max_offset_of() },
                },
            )
        }
    }

    /// What handling `event` does to the panel and the dispatch context.
    pub open spec fn event_effect(old: KeyPanel, new: KeyPanel, event: Event, c0: EventCtx, c1: EventCtx) -> bool {
        match event {
            Event::BindingsChanged(hints) => {
                &&& panel_rows(new.table.bindings@, hints@)
                &&& new == (KeyPanel {
                    table: BindingsTable { bindings: new.table.bindings, ..old.table },
                    offset_y: clamp_offset_spec(old.offset_y, old.content_lines(), old.viewport_lines()),
                    ..old
                })
                &&& if same_bindings(new.table.bindings@, old.table.bindings@) {
                    c1 == c0
                } else {
                    &&& c1 == (EventCtx { messages: c1.messages, repaint: true, ..c0 })
                    &&& c1.messages@ == c0.messages@.push(
                        MessageEvent {
                            sender: c0.node,
                            message: Message::KeyPanelBindingsUpdated { count: new.table.bindings@.len() as usize },
                        },
                    )
                }
            },
            Event::Action(a) => if old.content_height > old.viewport_height && old.action_delta(a) is Some {
                KeyPanel::scrolled(old, new, old.action_delta(a)->0, c0, c1)
            } else {
                new == old && c1 == c0
            },
            _ => new == old && c1 == c0,
        }
    }

    /// Binding announcements refill the table (announcing a changed row count);
    /// scroll actions move the offset while the content overflows.
    pub fn on_event(&mut self, event: &Event, ctx: &mut EventCtx)
        ensures
            KeyPanel::event_effect(*old(self), *final(self), *event, *old(ctx), *final(ctx)),
    {
        if let Event::BindingsChanged(bindings) = event {
            let previous = crate::footer::copy_bindings(&self.table.bindings);
            self.set_binding_hints(bindings);
            if !bindings_same(&self.table.bindings, &previous) {
                ctx.post_message(Message::KeyPanelBindingsUpdated { count: self.table.bindings.len() });
                ctx.request_repaint();
            }
            return;
        }
        if let Event::Action(action) = event {
            if !self.can_scroll() {
                return;
            }
            let before = self.offset_y;
            let delta: i32 = match action {
                Action::ScrollUp => -step_delta_exec(self.scroll_step),
                Action::ScrollDown => step_delta_exec(self.scroll_step),
                Action::ScrollPageUp => -step_delta_exec(self.viewport_lines_exec()),
                Action::ScrollPageDown => step_delta_exec(self.viewport_lines_exec()),
                _ => return,
            };
            let ghost mid = *self;
            self.scroll_by(delta);
            if self.offset_y != before {
                ctx.request_repaint();
                let max_offset = self.max_offset();
                ctx.post_message(Message::KeyPanelScrolled { offset: self.offset_y, max_offset });
                ctx.set_handled();
            }
        }
    }

    /// A wheel scroll of `delta_y` notches moves the offset by that many steps.
    pub fn on_mouse_scroll(&mut self, delta_x: i32, delta_y: i32, ctx: &mut EventCtx)
        ensures
            if delta_y == 0 || !(old(self).content_height > old(self).viewport_height) {
                *final(self) == *old(self) && *final(ctx) == *old(ctx)
            } else {
                KeyPanel::scrolled(
                    *old(self),
                    *final(self),
                    saturating_product(delta_y as int, step_delta(old(self).scroll_step)),
                    *old(ctx),
                    *final(ctx),
                )
            },
    {
        if delta_y == 0 || !self.can_scroll() {
            return;
        }
        let before = self.offset_y;
        let step = step_delta_exec(self.scroll_step);
        let delta: i32 = match delta_y.checked_mul(step) {
            Some(p) => p,
            None => if (delta_y < 0) == (step < 0) {
                0x7fff_ffff
            } else {
                -0x8000_0000
            },
        };
        proof {
            let p = delta_y as int * step as int;
            if delta_y < 0 {
                assert(p <= 0) by (nonlinear_arith)
                    requires
                        delta_y < 0,
                        step >= 0,
                        p == delta_y as int * step as int,
                ;
            } else {
                assert(p >= 0) by (nonlinear_arith)
                    requires
                        delta_y >= 0,
                        step >= 0,
                        p == delta_y as int * step as int,
                ;
            }
        }
        self.scroll_by(delta);
        if self.offset_y != before {
            ctx.request_repaint();
            let max_offset = self.max_offset();
            ctx.post_message(Message::KeyPanelScrolled { offset: self.offset_y, max_offset });
            ctx.set_handled();
        }
    }

    /// The panel does not track the pointer.
    pub fn on_mouse_move(&mut self, x: u16, y: u16) -> (changed: bool)
        ensures
            !changed,
            *final(self) == *old(self),
    {
        false
    }

    /// Render at `width` by `height` cells: records the widget size, the
    /// viewport (the height, at least 1) and the content height (the table's
    /// line count), and returns the viewport's lines: the table's lines from
    /// the clamped offset, each fitted to the width, then blank lines.
    pub fn render_lines(&mut self, width: usize, height: usize) -> (lines: Vec<String>)
        ensures
            final(self).widget_width == at_least_one(width),
            final(self).widget_height == at_least_one(height),
            final(self).viewport_height == at_least_one(height),
            final(self).content_height == at_least_one(
                table_lines(old(self).table.bindings@, at_least_one(width)).len() as usize,
            ),
            *final(self) == (KeyPanel {
                widget_width: final(self).widget_width,
                widget_height: final(self).widget_height,
                viewport_height: final(self).viewport_height,
                content_height: final(self).content_height,
                ..*old(self)
            }),
            texts(lines@) == viewport_view(
                table_lines(old(self).table.bindings@, at_least_one(width)),
                old(self).offset_y,
                at_least_one(height),
                at_least_one(width),
            ),
    {
        let w = if width < 1 {
            1
        } else {
            width
        };
        let h = if height < 1 {
            1
        } else {
            height
        };
        self.widget_width = w;
        self.widget_height = h;
        let table_text = self.table.lines(w);
        let content = if table_text.len() < 1 {
            1
        } else {
            table_text.len()
        };
        self.viewport_height = h;
        self.content_height = content;
        let max_offset = content.saturating_sub(h);
        let offset = if self.offset_y < max_offset {
            self.offset_y
        } else {
            max_offset
        };
        let start = if offset < content {
            offset
        } else {
            content
        };
        let end = if h < content - start {
            start + h
        } else {
            content
        };
        let ghost all = texts(table_text@);
        let end = if end < table_text.len() {
            end
        } else {
            table_text.len()
        };
        let start = if start < end {
            start
        } else {
            end
        };
        let mut out: Vec<String> = Vec::new();
        let mut i = start;
        while i < end
            invariant
                start <= i <= end <= table_text@.len(),
                all == texts(table_text@),
                texts(out@) == all.subrange(start as int, i as int).map_values(fit_fn(w)),
            decreases end - i,
        {
            let line = crate::cells::set_cell_size(table_text[i].as_str(), w);
            let ghost before = texts(out@);
            out.push(line);
            assert(texts(out@) =~= before.push(line@));
            assert(all.subrange(start as int, i + 1).map_values(fit_fn(w)) =~= all.subrange(start as int, i as int).map_values(
                fit_fn(w),
            ).push(fit_fn(w)(all[i as int])));
            i = i + 1;
        }
        let ghost shown = texts(out@);
        let blank = crate::text::space_string(w);
        while out.len() < h
            invariant
                shown.len() <= out@.len() <= h,
                blank@ == crate::text::spaces(w as nat),
                texts(out@) == shown + Seq::new((out@.len() - shown.len()) as nat, |_j: int| crate::text::spaces(w as nat)),
            decreases h - out@.len(),
        {
            let ghost before = texts(out@);
            out.push(blank.clone());
            assert(texts(out@) =~= before.push(blank@));
            assert(texts(out@) =~= shown + Seq::new((out@.len() - shown.len()) as nat, |_j: int| crate::text::spaces(w as nat)));
        }
        out
    }

    /// The panel fills what its container gives it.
    pub fn layout_height(&self) -> (h: Option<usize>)
        ensures
            h is None,
    {
        None
    }

    /// A vertical scrollbar drag scrolls to the dragged offset, clamped; the
    /// message is handled whether or not the offset moved.
    pub fn on_message(&mut self, message: &MessageEvent, ctx: &mut EventCtx)
        ensures
            match message.message {
                Message::ScrollbarScrollTo { axis: ScrollbarAxis::Vertical, offset } => {
                    let next = clamp_offset_spec(offset, old(self).content_lines(), old(self).viewport_lines());
                    &&& *final(self) == (KeyPanel { offset_y: next, ..*old(self) })
                    &&& if next == old(self).offset_y {
                        *final(ctx) == (EventCtx { handled: true, ..*old(ctx) })
                    } else {
                        &&& *final(ctx) == (EventCtx {
                            messages: final(ctx).messages,
                            handled: true,
                            repaint: true,
                            ..*old(ctx)
                        })
                        &&& final(ctx).messages@ == old(ctx).messages@.push(
                            MessageEvent {
                                sender: old(ctx).node,
                                message: Message::KeyPanelScrolled { offset: next, max_offset: old(self).max_offset_of() },
                            },
                        )
                    }
                },
                _ => *final(self) == *old(self) && *final(ctx) == *old(ctx),
            },
    {
        if let Message::ScrollbarScrollTo { axis, offset } = &message.message {
            if *axis != ScrollbarAxis::Vertical {
                return;
            }
            let c = self.content_lines_exec();
            let v = self.viewport_lines_exec();
            let next = line_clamp_offset(*offset, c, v);
            if next != self.offset_y {
                self.offset_y = next;
                ctx.request_repaint();
                self.emit_scroll_changed_message(ctx);
            }
            ctx.set_handled();
        }
    }

    /// The scroll position: no horizontal scrolling.
    pub fn scroll_offset(&self) -> (o: (usize, usize))
        ensures
            o == (0usize, self.offset_y),
    {
        (0, self.offset_y)
    }

    /// The size of the scrolled content: the widget width by the table's line count.
    pub fn scroll_virtual_content_size(&self) -> (s: Option<(usize, usize)>)
        ensures
            s == Some(
                (
                    if self.widget_width == 0 { 1usize } else { self.widget_width },
                    if self.table.bindings@.len() > 0 { self.table.bindings@.len() as usize } else { 1usize },
                ),
            ),
    {
        let width = if self.widget_width == 0 {
            1
        } else {
            self.widget_width
        };
        Some((width, self.table.line_count()))
    }

    /// The panel's scrollbar child, once; later calls give none.
    pub fn take_composed_children(&mut self) -> (children: Vec<NodeSeed>)
        ensures
            old(self).scrollbar_extracted ==> children@.len() == 0 && *final(self) == *old(self),
            !old(self).scrollbar_extracted ==> {
                &&& *final(self) == (KeyPanel { scrollbar_extracted: true, ..*old(self) })
                &&& children@.len() == 1
                &&& opt_text(children@[0].css_id) == Some(scrollbar_id())
            },
    {
        if self.scrollbar_extracted {
            return Vec::new();
        }
        self.scrollbar_extracted = true;
        let mut bar = NodeSeed::new();
        bar.css_id = Some(text_of("__key_panel_vscrollbar"));
        let mut children = Vec::new();
        children.push(bar);
        children
    }

    pub fn set_inline_style(&mut self, style: Style)
        ensures
            *final(self) == (KeyPanel {
                seed: NodeSeed { styles: WidgetStyles { style, ..old(self).seed.styles }, ..old(self).seed },
                ..*old(self)
            }),
    {
        self.seed.styles.style = style;
    }

    /// Hand over the mount seed, leaving an empty one.
    pub fn take_node_seed(&mut self) -> (seed: NodeSeed)
        ensures
            seed == old(self).seed,
            *final(self) == (KeyPanel { seed: final(self).seed, ..*old(self) }),
            final(self).seed.css_id is None,
            final(self).seed.classes@.len() == 0,
    {
        let mut seed = NodeSeed::new();
        std::mem::swap(&mut seed, &mut self.seed);
        seed
    }
}

} // verus!
