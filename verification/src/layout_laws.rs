//! How wide the lines of a frame are, whatever they say.
//!
//! A line that is wider than the window takes two rows of it, and everything
//! below is painted over.
use crate::ansi;
use crate::columns;
use crate::library;
use crate::library::{ArtistV, FoldState, VisibleRow};
use crate::text;
use crate::theme;
use crate::theme::{Palette, ThemeKind};
use crate::ui_hifi;
use vstd::prelude::*;

verus! {

/// Whether a palette is made of changes of colour alone; the tint of the cursor
/// may be missing.
pub open spec fn is_palette(p: Palette) -> bool {
    &&& columns::is_colour(p.fg@)
    &&& columns::is_colour(p.dim@)
    &&& columns::is_colour(p.rule@)
    &&& columns::is_colour(p.accent@)
    &&& columns::is_colour(p.good@)
    &&& columns::is_colour(p.warn@)
    &&& columns::is_colour(p.danger@)
    &&& columns::is_colour(p.bold@)
    &&& columns::is_colour(p.reset@)
    &&& p.cursor_bg@.len() == 0 || columns::is_colour(p.cursor_bg@)
}

/// The colours of every theme draw nothing themselves.
pub proof fn palettes_draw_nothing(kind: ThemeKind)
    ensures
        is_palette(theme::palette_of(kind)),
{
    reveal_strlit("");
    reveal_strlit("\x1B[0m");
    reveal_strlit("\x1B[1m");
    reveal_strlit("\x1B[2m");
    match kind {
        ThemeKind::Classic => {
            reveal_strlit("\x1B[2;90m");
            reveal_strlit("\x1B[31m");
            reveal_strlit("\x1B[32m");
            reveal_strlit("\x1B[33m");
        },
        ThemeKind::Minimal => {
            reveal_strlit("\x1B[38;2;35;38;42m");
            reveal_strlit("\x1B[38;2;154;220;208m");
            reveal_strlit("\x1B[38;2;233;196;106m");
            reveal_strlit("\x1B[38;2;224;122;122m");
            reveal_strlit("\x1B[48;2;24;27;28m");
        },
        ThemeKind::HiFi => {
            reveal_strlit("\x1B[38;2;240;200;120m");
            reveal_strlit("\x1B[38;2;122;94;58m");
            reveal_strlit("\x1B[38;2;58;42;20m");
            reveal_strlit("\x1B[1;38;2;255;179;71m");
            reveal_strlit("\x1B[38;2;168;200;122m");
            reveal_strlit("\x1B[38;2;224;122;74m");
            reveal_strlit("\x1B[1;38;2;224;122;74m");
            reveal_strlit("\x1B[48;2;31;20;8m");
        },
    }
}

proof fn lemma_edge(p: Palette, left: Seq<char>, c: char, right: Seq<char>, n: int)
    requires
        is_palette(p),
        0 <= n,
        left.len() == 1 && ansi::is_narrow(left[0]),
        right.len() == 1 && ansi::is_narrow(right[0]),
        ansi::is_narrow(c),
    ensures
        columns::columns(ui_hifi::edge(p, left, c, right, n)) == n + 4,
{
    let bar = text::rep(c, n as nat);
    reveal_strlit("  ");
    columns::narrow_text_is_counted("  "@);
    columns::narrow_text_is_counted(left);
    columns::narrow_text_is_counted(right);
    columns::repeated_is_counted(c, n as nat);
    columns::colour_has_no_columns(p.fg@);
    columns::colour_has_no_columns(p.reset@);
    let s1 = "  "@ + p.fg@;
    columns::joined_texts_are_closed("  "@, p.fg@);
    columns::joined_texts_are_closed(s1, left);
    columns::joined_texts_are_closed(s1 + left, bar);
    columns::joined_texts_are_closed(s1 + left + bar, right);
    columns::joined_texts_are_closed(s1 + left + bar + right, p.reset@);
}

proof fn lemma_side(p: Palette, side: Seq<char>)
    requires
        is_palette(p),
        side.len() == 1 && ansi::is_narrow(side[0]),
    ensures
        columns::is_closed("  "@ + p.fg@ + side + p.reset@),
        columns::columns("  "@ + p.fg@ + side + p.reset@) == 3,
{
    reveal_strlit("  ");
    columns::narrow_text_is_counted("  "@);
    columns::narrow_text_is_counted(side);
    columns::colour_has_no_columns(p.fg@);
    columns::colour_has_no_columns(p.reset@);
    columns::joined_texts_are_closed("  "@, p.fg@);
    columns::joined_texts_are_closed("  "@ + p.fg@, side);
    columns::joined_texts_are_closed("  "@ + p.fg@ + side, p.reset@);
}

/// The boxes of the hi-fi theme line up: their edges are as wide as any row
/// between them that fills the inside.
pub proof fn boxes_line_up(content: Seq<char>, n: int)
    requires
        0 <= n,
        columns::is_closed(content),
        columns::columns(content) == n,
    ensures
        ({
            let p = theme::palette_of(ThemeKind::HiFi);
            &&& columns::columns(ui_hifi::box_top(p, n)) == n + 4
            &&& columns::columns(ui_hifi::box_row(p, content)) == n + 4
            &&& columns::columns(ui_hifi::box_bottom(p, n)) == n + 4
        }),
{
    let p = theme::palette_of(ThemeKind::HiFi);
    palettes_draw_nothing(ThemeKind::HiFi);
    reveal_strlit("\u{250c}");
    reveal_strlit("\u{2510}");
    reveal_strlit("\u{2514}");
    reveal_strlit("\u{2518}");
    reveal_strlit("\u{2502}");
    lemma_edge(p, "\u{250c}"@, '\u{2500}', "\u{2510}"@, n);
    lemma_edge(p, "\u{2514}"@, '\u{2500}', "\u{2518}"@, n);
    let bar = "\u{2502}"@;
    lemma_side(p, bar);
    columns::narrow_text_is_counted(bar);
    columns::colour_has_no_columns(p.fg@);
    columns::colour_has_no_columns(p.reset@);
    let a = "  "@ + p.fg@ + bar + p.reset@;
    columns::joined_texts_are_closed(a, content);
    columns::joined_texts_are_closed(a + content, p.fg@);
    columns::joined_texts_are_closed(a + content + p.fg@, bar);
    columns::joined_texts_are_closed(a + content + p.fg@ + bar, p.reset@);
}

/// The header of the hi-fi theme lines up, where what it says leaves two columns
/// between left and right.
pub proof fn header_lines_up(left: Seq<char>, right: Seq<char>, n: int)
    requires
        4 <= n,
        columns::is_closed(left),
        columns::is_closed(right),
        columns::columns(left) + columns::columns(right) <= n - 4,
    ensures
        ({
            let p = theme::palette_of(ThemeKind::HiFi);
            &&& columns::columns(ui_hifi::header_top(p, n)) == n + 4
            &&& columns::columns(ui_hifi::header_row(p, left, right, n)) == n + 4
            &&& columns::columns(ui_hifi::header_bottom(p, n)) == n + 4
        }),
{
    let p = theme::palette_of(ThemeKind::HiFi);
    palettes_draw_nothing(ThemeKind::HiFi);
    reveal_strlit("\u{2554}");
    reveal_strlit("\u{2557}");
    reveal_strlit("\u{255a}");
    reveal_strlit("\u{255d}");
    reveal_strlit("\u{2551}");
    reveal_strlit(" ");
    lemma_edge(p, "\u{2554}"@, '\u{2550}', "\u{2557}"@, n);
    lemma_edge(p, "\u{255a}"@, '\u{2550}', "\u{255d}"@, n);
    let bar = "\u{2551}"@;
    let gap = n - 2 - columns::columns(left) - columns::columns(right);
    let pad = text::spaces(gap);
    lemma_side(p, bar);
    columns::narrow_text_is_counted(bar);
    columns::narrow_text_is_counted(" "@);
    columns::repeated_is_counted(' ', gap as nat);
    columns::colour_has_no_columns(p.fg@);
    columns::colour_has_no_columns(p.reset@);
    let a = "  "@ + p.fg@ + bar + p.reset@;
    columns::joined_texts_are_closed(a, " "@);
    let b = a + " "@;
    columns::joined_texts_are_closed(b, left);
    columns::joined_texts_are_closed(b + left, pad);
    let c = b + left + pad;
    columns::joined_texts_are_closed(c, right);
    columns::joined_texts_are_closed(c + right, " "@);
    let d = c + right + " "@;
    columns::joined_texts_are_closed(d, p.fg@);
    columns::joined_texts_are_closed(d + p.fg@, bar);
    columns::joined_texts_are_closed(d + p.fg@ + bar, p.reset@);
}

/// Whether a text holds no escape.
pub open spec fn is_plain(s: Seq<char>) -> bool {
    forall|i: int| 0 <= i < s.len() ==> s[i] != '\x1B'
}

/// Whether no name in a tree holds an escape.
pub open spec fn names_are_plain(tree: Seq<ArtistV>) -> bool {
    forall|a: int|
        0 <= a < tree.len() ==> {
            &&& is_plain((#[trigger] tree[a]).name)
            &&& forall|b: int|
                0 <= b < tree[a].albums.len() ==> {
                    &&& is_plain((#[trigger] tree[a].albums[b]).name)
                    &&& forall|t: int|
                        0 <= t < tree[a].albums[b].tracks.len() ==> is_plain(
                            (#[trigger] tree[a].albums[b].tracks[t]).title,
                        )
                }
        }
}

proof fn lemma_dec_is_plain(n: nat)
    ensures
        is_plain(text::dec(n)),
    decreases n,
{
    if n >= 10 {
        lemma_dec_is_plain(n / 10);
    }
}

proof fn lemma_row_is_plain(tree: Seq<ArtistV>, fold: FoldState, row: VisibleRow, now: Option<usize>)
    requires
        names_are_plain(tree),
        library::row_in(tree, row),
    ensures
        is_plain(library::row_plain(tree, fold, row, now)),
{
    reveal_strlit("  ");
    reveal_strlit("    ");
    reveal_strlit("      ");
    reveal_strlit("··");
    match row {
        VisibleRow::Artist { artist } => {
            assert(is_plain(tree[artist as int].name));
        },
        VisibleRow::Album { artist, album } => {
            assert(is_plain(tree[artist as int].albums[album as int].name));
        },
        VisibleRow::Track { artist, album, track } => {
            let t = tree[artist as int].albums[album as int].tracks[track as int];
            assert(is_plain(t.title));
            match t.track {
                Some(n) => lemma_dec_is_plain(n as nat),
                None => {},
            }
            assert(is_plain(library::track_number(t.track)));
        },
    }
}

/// No row of the library tree is wider than it is given room, and the one under
/// the cursor is highlighted over all of it.
pub proof fn tree_rows_fit(
    tree: Seq<ArtistV>,
    fold: FoldState,
    row: VisibleRow,
    under_cursor: bool,
    width: int,
    kind: ThemeKind,
    now: Option<usize>,
)
    requires
        1 <= width,
        names_are_plain(tree),
        library::row_in(tree, row),
    ensures
        ({
            let line = library::row_line(tree, fold, row, under_cursor, width, theme::palette_of(kind), now);
            &&& ansi::visible_columns(line) <= width
            &&& under_cursor ==> ansi::visible_columns(line) == width
        }),
{
    let p = theme::palette_of(kind);
    if under_cursor {
        let plain = library::row_plain(tree, fold, row, now);
        lemma_row_is_plain(tree, fold, row, now);
        ansi::visible_cut_stays_in_budget(plain, width);
        let cut = ansi::visible_cut(plain, width);
        assert(is_plain(cut)) by {
            let c = ansi::cut(plain, width - 1);
            ansi::lemma_cut_from(plain, 0, width - 1);
            assert(forall|i: int| 0 <= i < c.len() ==> c[i] == plain[i]);
        }
        columns::plain_text_is_closed(cut);
        let n = width - columns::columns(cut);
        let pad = text::rep(' ', n as nat);
        columns::repeated_is_counted(' ', n as nat);
        palettes_draw_nothing(kind);
        reveal_strlit("\x1B[7m");
        reveal_strlit("\x1B[27m");
        let (a, b) = if p.cursor_bg@.len() == 0 {
            ("\x1B[7m"@, "\x1B[27m"@)
        } else {
            (p.cursor_bg@, p.reset@)
        };
        columns::colour_has_no_columns(a);
        columns::colour_has_no_columns(b);
        columns::joined_texts_are_closed(a, cut);
        columns::joined_texts_are_closed(a + cut, pad);
        columns::joined_texts_are_closed(a + cut + pad, b);
    } else {
        ansi::visible_cut_stays_in_budget(library::row_colored(tree, fold, row, now, p), width);
    }
}

} // verus!
