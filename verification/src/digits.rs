//! Digits: text drawn in a 3x3 box-drawing font, three rows tall. Known
//! characters are three cells wide; others keep their own width on the bottom
//! row. Rows are padded to the available width by the text alignment.

use vstd::prelude::*;
use crate::cells::{cell_len, cell_width};
use crate::style::{Style, TextAlign};
use crate::text::{replace_all, replaced, space_string, spaces, text_of};
use crate::widget_core::WidgetStyles;

verus! {

/// The position of a character in the digit font
/// (` 0123456789+-^x:ABCDEF$£€()`), or -1.
pub open spec fn font_pos(c: char) -> int {
    if c == ' ' {
        0
    } else if '0' <= c && c <= '9' {
        (c as int) - ('0' as int) + 1
    } else if c == '+' {
        11
    } else if c == '-' {
        12
    } else if c == '^' {
        13
    } else if c == 'x' {
        14
    } else if c == ':' {
        15
    } else if 'A' <= c && c <= 'F' {
        (c as int) - ('A' as int) + 16
    } else if c == '$' {
        22
    } else if c == '\u{a3}' {
        23
    } else if c == '\u{20ac}' {
        24
    } else if c == '(' {
        25
    } else if c == ')' {
        26
    } else {
        -1
    }
}

fn font_pos_exec(c: char) -> (p: i32)
    ensures
        p == font_pos(c),
{
    if c == ' ' {
        0
    } else if '0' <= c && c <= '9' {
        (c as u32 - '0' as u32) as i32 + 1
    } else if c == '+' {
        11
    } else if c == '-' {
        12
    } else if c == '^' {
        13
    } else if c == 'x' {
        14
    } else if c == ':' {
        15
    } else if 'A' <= c && c <= 'F' {
        (c as u32 - 'A' as u32) as i32 + 16
    } else if c == '$' {
        22
    } else if c == '\u{a3}' {
        23
    } else if c == '\u{20ac}' {
        24
    } else if c == '(' {
        25
    } else if c == ')' {
        26
    } else {
        -1
    }
}

/// Row `row` of the normal-weight glyph at font position `pos`.
pub open spec fn normal_glyph(pos: int, row: int) -> Seq<char> {
    if pos == 0 && row == 0 {
        "   "@
    } else if pos == 0 && row == 1 {
        "   "@
    } else if pos == 0 && row == 2 {
        "   "@
    } else if pos == 1 && row == 0 {
        "\u{256d}\u{2500}\u{256e}"@
    } else if pos == 1 && row == 1 {
        "\u{2502} \u{2502}"@
    } else if pos == 1 && row == 2 {
        "\u{2570}\u{2500}\u{256f}"@
    } else if pos == 2 && row == 0 {
        "\u{2576}\u{256e} "@
    } else if pos == 2 && row == 1 {
        " \u{2502} "@
    } else if pos == 2 && row == 2 {
        "\u{2576}\u{2534}\u{2574}"@
    } else if pos == 3 && row == 0 {
        "\u{2576}\u{2500}\u{256e}"@
    } else if pos == 3 && row == 1 {
        "\u{250c}\u{2500}\u{2518}"@
    } else if pos == 3 && row == 2 {
        "\u{2570}\u{2500}\u{2574}"@
    } else if pos == 4 && row == 0 {
        "\u{2576}\u{2500}\u{256e}"@
    } else if pos == 4 && row == 1 {
        " \u{2500}\u{2524}"@
    } else if pos == 4 && row == 2 {
        "\u{2576}\u{2500}\u{256f}"@
    } else if pos == 5 && row == 0 {
        "\u{2577} \u{2577}"@
    } else if pos == 5 && row == 1 {
        "\u{2570}\u{2500}\u{2524}"@
    } else if pos == 5 && row == 2 {
        "  \u{2575}"@
    } else if pos == 6 && row == 0 {
        "\u{256d}\u{2500}\u{2574}"@
    } else if pos == 6 && row == 1 {
        "\u{2570}\u{2500}\u{256e}"@
    } else if pos == 6 && row == 2 {
        "\u{2576}\u{2500}\u{256f}"@
    } else if pos == 7 && row == 0 {
        "\u{256d}\u{2500}\u{2574}"@
    } else if pos == 7 && row == 1 {
        "\u{251c}\u{2500}\u{256e}"@
    } else if pos == 7 && row == 2 {
        "\u{2570}\u{2500}\u{256f}"@
    } else if pos == 8 && row == 0 {
        "\u{2576}\u{2500}\u{2510}"@
    } else if pos == 8 && row == 1 {
        "  \u{2502}"@
    } else if pos == 8 && row == 2 {
        "  \u{2575}"@
    } else if pos == 9 && row == 0 {
        "\u{256d}\u{2500}\u{256e}"@
    } else if pos == 9 && row == 1 {
        "\u{251c}\u{2500}\u{2524}"@
    } else if pos == 9 && row == 2 {
        "\u{2570}\u{2500}\u{256f}"@
    } else if pos == 10 && row == 0 {
        "\u{256d}\u{2500}\u{256e}"@
    } else if pos == 10 && row == 1 {
        "\u{2570}\u{2500}\u{2524}"@
    } else if pos == 10 && row == 2 {
        "\u{2576}\u{2500}\u{256f}"@
    } else if pos == 11 && row == 0 {
        "   "@
    } else if pos == 11 && row == 1 {
        "\u{2576}\u{253c}\u{2574}"@
    } else if pos == 11 && row == 2 {
        "   "@
    } else if pos == 12 && row == 0 {
        "   "@
    } else if pos == 12 && row == 1 {
        "\u{2576}\u{2500}\u{2574}"@
    } else if pos == 12 && row == 2 {
        "   "@
    } else if pos == 13 && row == 0 {
        " ^ "@
    } else if pos == 13 && row == 1 {
        "   "@
    } else if pos == 13 && row == 2 {
        "   "@
    } else if pos == 14 && row == 0 {
        "   "@
    } else if pos == 14 && row == 1 {
        " \u{d7} "@
    } else if pos == 14 && row == 2 {
        "   "@
    } else if pos == 15 && row == 0 {
        "   "@
    } else if pos == 15 && row == 1 {
        " : "@
    } else if pos == 15 && row == 2 {
        "   "@
    } else if pos == 16 && row == 0 {
        "\u{256d}\u{2500}\u{256e}"@
    } else if pos == 16 && row == 1 {
        "\u{251c}\u{2500}\u{2524}"@
    } else if pos == 16 && row == 2 {
        "\u{2575} \u{2575}"@
    } else if pos == 17 && row == 0 {
        "\u{250c}\u{2500}\u{256e}"@
    } else if pos == 17 && row == 1 {
        "\u{251c}\u{2500}\u{2524}"@
    } else if pos == 17 && row == 2 {
        "\u{2514}\u{2500}\u{256f}"@
    } else if pos == 18 && row == 0 {
        "\u{256d}\u{2500}\u{256e}"@
    } else if pos == 18 && row == 1 {
        "\u{2502}  "@
    } else if pos == 18 && row == 2 {
        "\u{2570}\u{2500}\u{256f}"@
    } else if pos == 19 && row == 0 {
        "\u{250c}\u{2500}\u{256e}"@
    } else if pos == 19 && row == 1 {
        "\u{2502} \u{2502}"@
    } else if pos == 19 && row == 2 {
        "\u{2514}\u{2500}\u{256f}"@
    } else if pos == 20 && row == 0 {
        "\u{256d}\u{2500}\u{2574}"@
    } else if pos == 20 && row == 1 {
        "\u{251c}\u{2500} "@
    } else if pos == 20 && row == 2 {
        "\u{2570}\u{2500}\u{2574}"@
    } else if pos == 21 && row == 0 {
        "\u{256d}\u{2500}\u{2574}"@
    } else if pos == 21 && row == 1 {
        "\u{251c}\u{2500} "@
    } else if pos == 21 && row == 2 {
        "\u{2575}  "@
    } else if pos == 22 && row == 0 {
        "\u{256d}\u{256b}\u{256e}"@
    } else if pos == 22 && row == 1 {
        "\u{2570}\u{256b}\u{256e}"@
    } else if pos == 22 && row == 2 {
        "\u{2570}\u{256b}\u{256f}"@
    } else if pos == 23 && row == 0 {
        "\u{256d}\u{2500}\u{256e}"@
    } else if pos == 23 && row == 1 {
        "\u{256a}\u{2550} "@
    } else if pos == 23 && row == 2 {
        "\u{2537}\u{2501}\u{2578}"@
    } else if pos == 24 && row == 0 {
        "\u{256d}\u{2500}\u{256e}"@
    } else if pos == 24 && row == 1 {
        "\u{256a}\u{2550} "@
    } else if pos == 24 && row == 2 {
        "\u{2570}\u{2500}\u{256f}"@
    } else if pos == 25 && row == 0 {
        "\u{256d}\u{2574} "@
    } else if pos == 25 && row == 1 {
        "\u{2502}  "@
    } else if pos == 25 && row == 2 {
        "\u{2570}\u{2574} "@
    } else if pos == 26 && row == 0 {
        " \u{2576}\u{256e}"@
    } else if pos == 26 && row == 1 {
        "  \u{2502}"@
    } else {
        " \u{2576}\u{256f}"@
    }
}

/// Row `row` of the bold glyph at font position `pos` (digits, `+` and `-`).
pub open spec fn bold_glyph(pos: int, row: int) -> Seq<char> {
    if pos == 1 && row == 0 {
        "\u{250f}\u{2501}\u{2513}"@
    } else if pos == 1 && row == 1 {
        "\u{2503} \u{2503}"@
    } else if pos == 1 && row == 2 {
        "\u{2517}\u{2501}\u{251b}"@
    } else if pos == 2 && row == 0 {
        "\u{257a}\u{2513} "@
    } else if pos == 2 && row == 1 {
        " \u{2503} "@
    } else if pos == 2 && row == 2 {
        "\u{257a}\u{253b}\u{2578}"@
    } else if pos == 3 && row == 0 {
        "\u{257a}\u{2501}\u{2513}"@
    } else if pos == 3 && row == 1 {
        "\u{250f}\u{2501}\u{251b}"@
    } else if pos == 3 && row == 2 {
        "\u{2517}\u{2501}\u{2578}"@
    } else if pos == 4 && row == 0 {
        "\u{257a}\u{2501}\u{2513}"@
    } else if pos == 4 && row == 1 {
        " \u{2501}\u{252b}"@
    } else if pos == 4 && row == 2 {
        "\u{257a}\u{2501}\u{251b}"@
    } else if pos == 5 && row == 0 {
        "\u{257b} \u{257b}"@
    } else if pos == 5 && row == 1 {
        "\u{2517}\u{2501}\u{252b}"@
    } else if pos == 5 && row == 2 {
        "  \u{2579}"@
    } else if pos == 6 && row == 0 {
        "\u{250f}\u{2501}\u{2578}"@
    } else if pos == 6 && row == 1 {
        "\u{2517}\u{2501}\u{2513}"@
    } else if pos == 6 && row == 2 {
        "\u{257a}\u{2501}\u{251b}"@
    } else if pos == 7 && row == 0 {
        "\u{250f}\u{2501}\u{2578}"@
    } else if pos == 7 && row == 1 {
        "\u{2523}\u{2501}\u{2513}"@
    } else if pos == 7 && row == 2 {
        "\u{2517}\u{2501}\u{251b}"@
    } else if pos == 8 && row == 0 {
        "\u{257a}\u{2501}\u{2513}"@
    } else if pos == 8 && row == 1 {
        "  \u{2503}"@
    } else if pos == 8 && row == 2 {
        "  \u{2579}"@
    } else if pos == 9 && row == 0 {
        "\u{250f}\u{2501}\u{2513}"@
    } else if pos == 9 && row == 1 {
        "\u{2523}\u{2501}\u{252b}"@
    } else if pos == 9 && row == 2 {
        "\u{2517}\u{2501}\u{251b}"@
    } else if pos == 10 && row == 0 {
        "\u{250f}\u{2501}\u{2513}"@
    } else if pos == 10 && row == 1 {
        "\u{2517}\u{2501}\u{252b}"@
    } else if pos == 10 && row == 2 {
        "\u{257a}\u{2501}\u{251b}"@
    } else if pos == 11 && row == 0 {
        "   "@
    } else if pos == 11 && row == 1 {
        "\u{257a}\u{254b}\u{2578}"@
    } else if pos == 11 && row == 2 {
        "   "@
    } else if pos == 12 && row == 0 {
        "   "@
    } else if pos == 12 && row == 1 {
        "\u{257a}\u{2501}\u{2578}"@
    } else {
        "   "@
    }
}

/// Row `row` of the glyph at font position `pos`; bold digits and signs have their own glyphs.
pub open spec fn glyph(pos: int, row: int, bold: bool) -> Seq<char> {
    if bold && 1 <= pos <= 12 {
        bold_glyph(pos, row)
    } else {
        normal_glyph(pos, row)
    }
}

fn normal_glyph_str(pos: i32, row: usize) -> (s: &'static str)
    ensures
        s@ == normal_glyph(pos as int, row as int),
{
    if pos == 0 && row == 0 {
        "   "
    } else if pos == 0 && row == 1 {
        "   "
    } else if pos == 0 && row == 2 {
        "   "
    } else if pos == 1 && row == 0 {
        "\u{256d}\u{2500}\u{256e}"
    } else if pos == 1 && row == 1 {
        "\u{2502} \u{2502}"
    } else if pos == 1 && row == 2 {
        "\u{2570}\u{2500}\u{256f}"
    } else if pos == 2 && row == 0 {
        "\u{2576}\u{256e} "
    } else if pos == 2 && row == 1 {
        " \u{2502} "
    } else if pos == 2 && row == 2 {
        "\u{2576}\u{2534}\u{2574}"
    } else if pos == 3 && row == 0 {
        "\u{2576}\u{2500}\u{256e}"
    } else if pos == 3 && row == 1 {
        "\u{250c}\u{2500}\u{2518}"
    } else if pos == 3 && row == 2 {
        "\u{2570}\u{2500}\u{2574}"
    } else if pos == 4 && row == 0 {
        "\u{2576}\u{2500}\u{256e}"
    } else if pos == 4 && row == 1 {
        " \u{2500}\u{2524}"
    } else if pos == 4 && row == 2 {
        "\u{2576}\u{2500}\u{256f}"
    } else if pos == 5 && row == 0 {
        "\u{2577} \u{2577}"
    } else if pos == 5 && row == 1 {
        "\u{2570}\u{2500}\u{2524}"
    } else if pos == 5 && row == 2 {
        "  \u{2575}"
    } else if pos == 6 && row == 0 {
        "\u{256d}\u{2500}\u{2574}"
    } else if pos == 6 && row == 1 {
        "\u{2570}\u{2500}\u{256e}"
    } else if pos == 6 && row == 2 {
        "\u{2576}\u{2500}\u{256f}"
    } else if pos == 7 && row == 0 {
        "\u{256d}\u{2500}\u{2574}"
    } else if pos == 7 && row == 1 {
        "\u{251c}\u{2500}\u{256e}"
    } else if pos == 7 && row == 2 {
        "\u{2570}\u{2500}\u{256f}"
    } else if pos == 8 && row == 0 {
        "\u{2576}\u{2500}\u{2510}"
    } else if pos == 8 && row == 1 {
        "  \u{2502}"
    } else if pos == 8 && row == 2 {
        "  \u{2575}"
    } else if pos == 9 && row == 0 {
        "\u{256d}\u{2500}\u{256e}"
    } else if pos == 9 && row == 1 {
        "\u{251c}\u{2500}\u{2524}"
    } else if pos == 9 && row == 2 {
        "\u{2570}\u{2500}\u{256f}"
    } else if pos == 10 && row == 0 {
        "\u{256d}\u{2500}\u{256e}"
    } else if pos == 10 && row == 1 {
        "\u{2570}\u{2500}\u{2524}"
    } else if pos == 10 && row == 2 {
        "\u{2576}\u{2500}\u{256f}"
    } else if pos == 11 && row == 0 {
        "   "
    } else if pos == 11 && row == 1 {
        "\u{2576}\u{253c}\u{2574}"
    } else if pos == 11 && row == 2 {
        "   "
    } else if pos == 12 && row == 0 {
        "   "
    } else if pos == 12 && row == 1 {
        "\u{2576}\u{2500}\u{2574}"
    } else if pos == 12 && row == 2 {
        "   "
    } else if pos == 13 && row == 0 {
        " ^ "
    } else if pos == 13 && row == 1 {
        "   "
    } else if pos == 13 && row == 2 {
        "   "
    } else if pos == 14 && row == 0 {
        "   "
    } else if pos == 14 && row == 1 {
        " \u{d7} "
    } else if pos == 14 && row == 2 {
        "   "
    } else if pos == 15 && row == 0 {
        "   "
    } else if pos == 15 && row == 1 {
        " : "
    } else if pos == 15 && row == 2 {
        "   "
    } else if pos == 16 && row == 0 {
        "\u{256d}\u{2500}\u{256e}"
    } else if pos == 16 && row == 1 {
        "\u{251c}\u{2500}\u{2524}"
    } else if pos == 16 && row == 2 {
        "\u{2575} \u{2575}"
    } else if pos == 17 && row == 0 {
        "\u{250c}\u{2500}\u{256e}"
    } else if pos == 17 && row == 1 {
        "\u{251c}\u{2500}\u{2524}"
    } else if pos == 17 && row == 2 {
        "\u{2514}\u{2500}\u{256f}"
    } else if pos == 18 && row == 0 {
        "\u{256d}\u{2500}\u{256e}"
    } else if pos == 18 && row == 1 {
        "\u{2502}  "
    } else if pos == 18 && row == 2 {
        "\u{2570}\u{2500}\u{256f}"
    } else if pos == 19 && row == 0 {
        "\u{250c}\u{2500}\u{256e}"
    } else if pos == 19 && row == 1 {
        "\u{2502} \u{2502}"
    } else if pos == 19 && row == 2 {
        "\u{2514}\u{2500}\u{256f}"
    } else if pos == 20 && row == 0 {
        "\u{256d}\u{2500}\u{2574}"
    } else if pos == 20 && row == 1 {
        "\u{251c}\u{2500} "
    } else if pos == 20 && row == 2 {
        "\u{2570}\u{2500}\u{2574}"
    } else if pos == 21 && row == 0 {
        "\u{256d}\u{2500}\u{2574}"
    } else if pos == 21 && row == 1 {
        "\u{251c}\u{2500} "
    } else if pos == 21 && row == 2 {
        "\u{2575}  "
    } else if pos == 22 && row == 0 {
        "\u{256d}\u{256b}\u{256e}"
    } else if pos == 22 && row == 1 {
        "\u{2570}\u{256b}\u{256e}"
    } else if pos == 22 && row == 2 {
        "\u{2570}\u{256b}\u{256f}"
    } else if pos == 23 && row == 0 {
        "\u{256d}\u{2500}\u{256e}"
    } else if pos == 23 && row == 1 {
        "\u{256a}\u{2550} "
    } else if pos == 23 && row == 2 {
        "\u{2537}\u{2501}\u{2578}"
    } else if pos == 24 && row == 0 {
        "\u{256d}\u{2500}\u{256e}"
    } else if pos == 24 && row == 1 {
        "\u{256a}\u{2550} "
    } else if pos == 24 && row == 2 {
        "\u{2570}\u{2500}\u{256f}"
    } else if pos == 25 && row == 0 {
        "\u{256d}\u{2574} "
    } else if pos == 25 && row == 1 {
        "\u{2502}  "
    } else if pos == 25 && row == 2 {
        "\u{2570}\u{2574} "
    } else if pos == 26 && row == 0 {
        " \u{2576}\u{256e}"
    } else if pos == 26 && row == 1 {
        "  \u{2502}"
    } else {
        " \u{2576}\u{256f}"
    }
}

fn bold_glyph_str(pos: i32, row: usize) -> (s: &'static str)
    ensures
        s@ == bold_glyph(pos as int, row as int),
{
    if pos == 1 && row == 0 {
        "\u{250f}\u{2501}\u{2513}"
    } else if pos == 1 && row == 1 {
        "\u{2503} \u{2503}"
    } else if pos == 1 && row == 2 {
        "\u{2517}\u{2501}\u{251b}"
    } else if pos == 2 && row == 0 {
        "\u{257a}\u{2513} "
    } else if pos == 2 && row == 1 {
        " \u{2503} "
    } else if pos == 2 && row == 2 {
        "\u{257a}\u{253b}\u{2578}"
    } else if pos == 3 && row == 0 {
        "\u{257a}\u{2501}\u{2513}"
    } else if pos == 3 && row == 1 {
        "\u{250f}\u{2501}\u{251b}"
    } else if pos == 3 && row == 2 {
        "\u{2517}\u{2501}\u{2578}"
    } else if pos == 4 && row == 0 {
        "\u{257a}\u{2501}\u{2513}"
    } else if pos == 4 && row == 1 {
        " \u{2501}\u{252b}"
    } else if pos == 4 && row == 2 {
        "\u{257a}\u{2501}\u{251b}"
    } else if pos == 5 && row == 0 {
        "\u{257b} \u{257b}"
    } else if pos == 5 && row == 1 {
        "\u{2517}\u{2501}\u{252b}"
    } else if pos == 5 && row == 2 {
        "  \u{2579}"
    } else if pos == 6 && row == 0 {
        "\u{250f}\u{2501}\u{2578}"
    } else if pos == 6 && row == 1 {
        "\u{2517}\u{2501}\u{2513}"
    } else if pos == 6 && row == 2 {
        "\u{257a}\u{2501}\u{251b}"
    } else if pos == 7 && row == 0 {
        "\u{250f}\u{2501}\u{2578}"
    } else if pos == 7 && row == 1 {
        "\u{2523}\u{2501}\u{2513}"
    } else if pos == 7 && row == 2 {
        "\u{2517}\u{2501}\u{251b}"
    } else if pos == 8 && row == 0 {
        "\u{257a}\u{2501}\u{2513}"
    } else if pos == 8 && row == 1 {
        "  \u{2503}"
    } else if pos == 8 && row == 2 {
        "  \u{2579}"
    } else if pos == 9 && row == 0 {
        "\u{250f}\u{2501}\u{2513}"
    } else if pos == 9 && row == 1 {
        "\u{2523}\u{2501}\u{252b}"
    } else if pos == 9 && row == 2 {
        "\u{2517}\u{2501}\u{251b}"
    } else if pos == 10 && row == 0 {
        "\u{250f}\u{2501}\u{2513}"
    } else if pos == 10 && row == 1 {
        "\u{2517}\u{2501}\u{252b}"
    } else if pos == 10 && row == 2 {
        "\u{257a}\u{2501}\u{251b}"
    } else if pos == 11 && row == 0 {
        "   "
    } else if pos == 11 && row == 1 {
        "\u{257a}\u{254b}\u{2578}"
    } else if pos == 11 && row == 2 {
        "   "
    } else if pos == 12 && row == 0 {
        "   "
    } else if pos == 12 && row == 1 {
        "\u{257a}\u{2501}\u{2578}"
    } else {
        "   "
    }
}

fn glyph_str(pos: i32, row: usize, bold: bool) -> (s: &'static str)
    ensures
        s@ == glyph(pos as int, row as int, bold),
{
    if bold && 1 <= pos && pos <= 12 {
        bold_glyph_str(pos, row)
    } else {
        normal_glyph_str(pos, row)
    }
}

/// Cells one character takes: three for a font character, else its own width (at least 1).
pub open spec fn char_cells(c: char) -> usize {
    if font_pos(c) >= 0 {
        3
    } else if cell_width(seq![c]) == 0 {
        1
    } else {
        cell_width(seq![c])
    }
}

/// Cells a text takes in the digit font (saturating).
pub open spec fn digits_width(text: Seq<char>) -> usize
    decreases text.len(),
{
    if text.len() == 0 {
        0
    } else {
        digits_width(text.drop_last()).saturating_add(char_cells(text.last()))
    }
}

/// The part of row `row` one character draws: a font glyph row padded to
/// three cells, or, for other characters, a space on the top rows and the
/// character itself on the bottom row.
pub open spec fn row_piece(c: char, row: int, bold: bool) -> Seq<char> {
    if font_pos(c) >= 0 {
        let g = glyph(font_pos(c), row, bold);
        g + spaces(if cell_width(g) < 3 { (3 - cell_width(g)) as nat } else { 0 })
    } else if row < 2 {
        seq![' ']
    } else {
        seq![c]
    }
}

/// Row `row` of a text in the digit font.
pub open spec fn digit_row(text: Seq<char>, row: int, bold: bool) -> Seq<char>
    decreases text.len(),
{
    if text.len() == 0 {
        seq![]
    } else {
        digit_row(text.drop_last(), row, bold) + row_piece(text.last(), row, bold)
    }
}

/// The text as drawn: periods shown as bullets.
pub open spec fn shown_text(value: Seq<char>) -> Seq<char> {
    replaced(value, "."@, "\u{2022}"@)
}

/// Spaces left and right of rows `content` cells wide in `available` cells.
pub open spec fn align_pads(content: usize, available: usize, align: TextAlign) -> (usize, usize) {
    if available <= content {
        (0, 0)
    } else {
        let pad = (available - content) as usize;
        match align {
            TextAlign::Left | TextAlign::Justify => (0, pad),
            TextAlign::Right => (pad, 0),
            TextAlign::Center => ((pad / 2) as usize, (pad - pad / 2) as usize),
        }
    }
}

/// A row aligned: unchanged when it fills the width, else padded on the sides.
pub open spec fn aligned_row(row: Seq<char>, content: usize, available: usize, align: TextAlign) -> Seq<char> {
    if available <= content {
        row
    } else {
        spaces(align_pads(content, available, align).0 as nat) + row + spaces(
            align_pads(content, available, align).1 as nat,
        )
    }
}

/// The digits widget.
#[derive(Debug, Clone)]
pub struct Digits {
    pub value: String,
    pub styles: WidgetStyles,
}

impl Digits {
    pub fn new(value: &str) -> (d: Digits)
        ensures
            d.value@ == value@,
            d.styles.style.is_unset(),
    {
        Digits { value: text_of(value), styles: WidgetStyles::new() }
    }

    pub fn value(&self) -> (v: &str)
        ensures
            v@ == self.value@,
    {
        self.value.as_str()
    }

    pub fn set_value(&mut self, value: &str)
        ensures
            final(self).value@ == value@,
            final(self).styles == old(self).styles,
    {
        self.value = text_of(value);
    }

    /// Another name for `set_value`.
    pub fn update(&mut self, value: &str)
        ensures
            final(self).value@ == value@,
            final(self).styles == old(self).styles,
    {
        self.set_value(value);
    }

    /// Cells a text takes: three per font character, the character's own
    /// width (at least 1) for others.
    pub fn get_width(text: &str) -> (w: usize)
        ensures
            w == digits_width(text@),
    {
        let n = text.unicode_len();
        let mut total: usize = 0;
        let mut i: usize = 0;
        assert(text@.subrange(0, 0) =~= Seq::<char>::empty());
        while i < n
            invariant
                n == text@.len(),
                i <= n,
                total == digits_width(text@.subrange(0, i as int)),
            decreases n - i,
        {
            let c = text.get_char(i);
            assert(text@.subrange(0, i as int + 1).drop_last() =~= text@.subrange(0, i as int));
            assert(text@.subrange(0, i as int + 1).last() == c);
            let cells: usize = if font_pos_exec(c) >= 0 {
                3
            } else {
                let piece = text.substring_char(i, i + 1);
                assert(piece@ =~= seq![c]);
                let w = cell_len(piece);
                if w == 0 {
                    1
                } else {
                    w
                }
            };
            total = total.saturating_add(cells);
            i = i + 1;
        }
        assert(text@.subrange(0, n as int) =~= text@);
        total
    }

    /// The three rows of the value in the digit font.
    pub fn render_rows(&self, bold: bool) -> (rows: [String; 3])
        ensures
            rows[0]@ == digit_row(shown_text(self.value@), 0, bold),
            rows[1]@ == digit_row(shown_text(self.value@), 1, bold),
            rows[2]@ == digit_row(shown_text(self.value@), 2, bold),
    {
        proof {
            reveal_strlit(".");
        }
        let text = replace_all(self.value.as_str(), ".", "\u{2022}");
        let n = text.unicode_len();
        let mut r0 = String::new();
        let mut r1 = String::new();
        let mut r2 = String::new();
        let mut i: usize = 0;
        assert(text@.subrange(0, 0) =~= Seq::<char>::empty());
        while i < n
            invariant
                n == text@.len(),
                text@ == shown_text(self.value@),
                i <= n,
                r0@ == digit_row(text@.subrange(0, i as int), 0, bold),
                r1@ == digit_row(text@.subrange(0, i as int), 1, bold),
                r2@ == digit_row(text@.subrange(0, i as int), 2, bold),
            decreases n - i,
        {
            let c = text.get_char(i);
            assert(text@.subrange(0, i as int + 1).drop_last() =~= text@.subrange(0, i as int));
            assert(text@.subrange(0, i as int + 1).last() == c);
            let pos = font_pos_exec(c);
            if pos >= 0 {
                let g0 = glyph_str(pos, 0, bold);
                let g1 = glyph_str(pos, 1, bold);
                let g2 = glyph_str(pos, 2, bold);
                Digits::push_padded(&mut r0, g0);
                Digits::push_padded(&mut r1, g1);
                Digits::push_padded(&mut r2, g2);
            } else {
                proof {
                    reveal_strlit(" ");
                }
                r0.append(" ");
                r1.append(" ");
                let piece = text.substring_char(i, i + 1);
                assert(piece@ =~= seq![c]);
                r2.append(piece);
            }
            i = i + 1;
        }
        assert(text@.subrange(0, n as int) =~= text@);
        [r0, r1, r2]
    }

    /// Append a glyph row, padded with spaces to three cells.
    fn push_padded(row: &mut String, glyph_row: &str)
        ensures
            final(row)@ == old(row)@ + glyph_row@ + spaces(
                if cell_width(glyph_row@) < 3 { (3 - cell_width(glyph_row@)) as nat } else { 0 },
            ),
    {
        row.append(glyph_row);
        let w = cell_len(glyph_row);
        if w < 3 {
            let pad = space_string(3 - w);
            row.append(pad.as_str());
        } else {
            assert(spaces(0) =~= Seq::<char>::empty());
        }
    }

    /// Pad the rows to the available width by the alignment: justified and
    /// left-aligned rows are padded on the right, right-aligned on the left,
    /// centred ones on both sides (the odd space on the right).
    pub fn align_rows(rows: [String; 3], content_width: usize, available_width: usize, align: TextAlign) -> (out: [String; 3])
        ensures
            out[0]@ == aligned_row(rows[0]@, content_width, available_width, align),
            out[1]@ == aligned_row(rows[1]@, content_width, available_width, align),
            out[2]@ == aligned_row(rows[2]@, content_width, available_width, align),
    {
        if available_width <= content_width {
            return rows;
        }
        let pad = available_width - content_width;
        let (left_pad, right_pad): (usize, usize) = match align {
            TextAlign::Left | TextAlign::Justify => (0, pad),
            TextAlign::Right => (pad, 0),
            TextAlign::Center => (pad / 2, pad - pad / 2),
        };
        let left = space_string(left_pad);
        let right = space_string(right_pad);
        let mut o0 = left.clone();
        o0.append(rows[0].as_str());
        o0.append(right.as_str());
        let mut o1 = left.clone();
        o1.append(rows[1].as_str());
        o1.append(right.as_str());
        let mut o2 = left.clone();
        o2.append(rows[2].as_str());
        o2.append(right.as_str());
        [o0, o1, o2]
    }

    /// The rows drawn `width` cells wide (at least 1): bold glyphs when the
    /// style is bold, aligned by the style's text alignment (left by default).
    pub fn render_lines(&self, width: usize) -> (rows: [String; 3])
        ensures
            ({
                let bold = self.styles.style.bold == Some(true);
                let align = match self.styles.style.text_align {
                    Some(a) => a,
                    None => TextAlign::Left,
                };
                let available: usize = if width == 0 { 1 } else { width };
                let content = digits_width(self.value@);
                &&& rows[0]@ == aligned_row(digit_row(shown_text(self.value@), 0, bold), content, available, align)
                &&& rows[1]@ == aligned_row(digit_row(shown_text(self.value@), 1, bold), content, available, align)
                &&& rows[2]@ == aligned_row(digit_row(shown_text(self.value@), 2, bold), content, available, align)
            }),
    {
        let bold = self.styles.style.bold == Some(true);
        let align = match self.styles.style.text_align {
            Some(a) => a,
            None => TextAlign::Left,
        };
        let rows = self.render_rows(bold);
        let content_width = Digits::get_width(self.value.as_str());
        let available = if width == 0 {
            1
        } else {
            width
        };
        Digits::align_rows(rows, content_width, available, align)
    }

    /// Always three rows tall.
    pub fn layout_height(&self) -> (h: Option<usize>)
        ensures
            h == Some(3usize),
    {
        Some(3)
    }

    /// The value's width in the digit font, at least 1.
    pub fn content_width(&self) -> (w: Option<usize>)
        ensures
            w == Some(if digits_width(self.value@) == 0 { 1usize } else { digits_width(self.value@) }),
    {
        let width = Digits::get_width(self.value.as_str());
        Some(if width == 0 {
            1
        } else {
            width
        })
    }

    pub fn style_type(&self) -> (s: &'static str)
        ensures
            s@ == "Digits"@,
    {
        "Digits"
    }

    pub fn styles(&self) -> (s: &WidgetStyles)
        ensures
            *s == self.styles,
    {
        &self.styles
    }
}

} // verus!
