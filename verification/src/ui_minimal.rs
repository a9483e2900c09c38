//! The minimal theme's screens.
use crate::ansi;
use crate::ansi::{truncate_ansi, truncate_plain, visible_len};
use crate::columns;
use crate::cover;
use crate::cover::{empty_slot_lines, image_is_sticky, passive_lines, render, CoverSize};
use crate::eq_ui;
use crate::eq_ui::push_tinted;
use crate::frame;
use crate::frame::{
    balance_text, block_char, format_minutes, khz_text, offset_text, path_of, position_of, progress_parts, row_track,
    scroll_list, scroll_lyrics, search_active, FrameWriter, Scene,
};
use crate::list_view;
use crate::lyrics::Lyrics;
use crate::metadata;
use crate::metadata::MetadataCache;
use crate::state::{InputMode, PlayerState, VizMode};
use crate::text;
use crate::text::{char_count, dec_string, is_blank, min_usize, push_dec, push_dec2, push_rep, push_spaces};
use crate::theme;
use crate::theme::{palette, Palette, ThemeKind};
use crate::ui;
use crate::ui::{lyrics_synced, number_of, push_unusual, write_tree};
use crate::ui_state::{CoverPane, LyricsPane, UiState};
use vstd::prelude::*;

verus! {

/// Width of the column of signal values.
pub const SIGNAL_W: usize = 30;

/// Widest the identity block gets. Its width depends on the window alone, so
/// that nothing in it moves when the cover and the signal values come and go.
pub const IDENT_W_MAX: usize = 61;

/// The wordmark.
pub open spec fn wordmark(p: Palette) -> Seq<char> {
    "  "@ + p.bold@ + p.fg@ + "K  E  E  T"@ + p.reset@ + "   "@ + p.dim@ + "music for terminals"@ + p.reset@
}

/// The wordmark, which every frame starts with.
pub fn wordmark_anchor(p: &Palette) -> (s: String)
    ensures
        s@ == wordmark(*p),
{
    let mut s: String = "  ".to_owned();
    s.push_str(p.bold);
    s.push_str(p.fg);
    s.push_str("K  E  E  T");
    s.push_str(p.reset);
    s.push_str("   ");
    s.push_str(p.dim);
    s.push_str("music for terminals");
    s.push_str(p.reset);
    s
}

/// A rule across the window.
pub open spec fn rule(p: Palette, w: int) -> Seq<char> {
    "  "@ + p.rule@ + text::rep('\u{2500}', text::minus(w, 4) as nat) + p.reset@
}

fn rule_of(p: &Palette, w: usize) -> (s: String)
    ensures
        s@ == rule(*p, w as int),
{
    let mut s: String = "  ".to_owned();
    s.push_str(p.rule);
    push_rep(&mut s, '\u{2500}', w.saturating_sub(4));
    s.push_str(p.reset);
    s
}

/// A cell of the identity block: cut to its width, or padded out to it.
pub open spec fn cell(content: Seq<char>, visible: int, width: int) -> Seq<char> {
    if visible > width {
        ansi::cut(content, width)
    } else {
        content + text::spaces(width - visible)
    }
}

/// A cell of the identity block: cut to its width, or padded out to it.
pub fn ident_cell(content: &str, visible: usize, width: usize) -> (s: String)
    ensures
        s@ == cell(content@, visible as int, width as int),
{
    if visible > width {
        truncate_ansi(content, width)
    } else {
        let mut s: String = content.to_owned();
        push_spaces(&mut s, width - visible);
        s
    }
}

/// A cell is as wide as its column, and never wider. Where something is cut
/// off, it may fall short by a character that did not fit.
pub proof fn cells_never_exceed_their_column(content: Seq<char>, width: int)
    requires
        columns::is_closed(content),
        0 <= width,
    ensures
        columns::columns(cell(content, ansi::visible_columns(content) as int, width)) <= width,
        columns::columns(content) <= width ==> columns::columns(
            cell(content, ansi::visible_columns(content) as int, width),
        ) == width,
{
    if ansi::visible_columns(content) > width {
        columns::cut_is_closed(content, width);
    } else {
        let pad = (width - columns::columns(content)) as nat;
        columns::repeated_is_counted(' ', pad);
        columns::joined_texts_are_closed(content, text::rep(' ', pad));
    }
}

/// Columns of the progress bar: what the times on both sides leave, and no more
/// than sixty.
pub open spec fn bar_room(ident: int, cur: Seq<char>, tot: Seq<char>) -> int {
    text::least(text::minus(ident, (cur.len() + 3 + 3 + tot.len()) as int), 60)
}

/// Columns of the progress bar: what the times on both sides leave, and no more
/// than sixty.
pub fn progress_bar_width(ident_w: usize, cur: &str, tot: &str) -> (r: usize)
    ensures
        r == bar_room(ident_w as int, cur@, tot@),
{
    let fixed: u128 = char_count(cur) as u128 + 6 + char_count(tot) as u128;
    if ident_w as u128 > fixed {
        min_usize((ident_w as u128 - fixed) as usize, 60)
    } else {
        0
    }
}

/// The row of the progress bar fits into its column, as soon as the times do.
pub proof fn progress_row_fits(ident: int, cur: Seq<char>, tot: Seq<char>)
    requires
        0 <= ident,
    ensures
        cur.len() + 3 + bar_room(ident, cur, tot) + 3 + tot.len() <= text::most(
            ident,
            (cur.len() + 3 + 3 + tot.len()) as int,
        ),
{
}

/// What stands on the player's screen.
pub struct Layout {
    pub ident: int,
    pub signal: bool,
    pub cover: bool,
    /// Columns between the identity block and what is right of it.
    pub gap: int,
}

/// What stands on the player's screen. Nothing is squeezed: the cover and the
/// signal values are there as soon as the identity block leaves room for them.
pub open spec fn layout(w: int, cover_enabled: bool) -> Layout {
    let ident = text::least(text::minus(w, 4), IDENT_W_MAX as int);
    let beside_signal = w - (ident + SIGNAL_W + 7);
    let beside_both = beside_signal - (18 + 1);
    if cover_enabled && beside_both >= 2 {
        Layout { ident, signal: true, cover: true, gap: beside_both }
    } else if beside_signal >= 2 {
        Layout { ident, signal: true, cover: false, gap: beside_signal }
    } else {
        Layout { ident, signal: false, cover: false, gap: 0 }
    }
}

/// What stands on the player's screen: the width of the identity block, whether
/// the signal values are there, whether the cover is, and the gap.
pub fn minimal_layout(term_w: usize, cover_enabled: bool) -> (r: (usize, bool, bool, usize))
    ensures
        (Layout { ident: r.0 as int, signal: r.1, cover: r.2, gap: r.3 as int }) == layout(
            term_w as int,
            cover_enabled,
        ),
        r.0 <= IDENT_W_MAX,
        r.3 <= term_w,
{
    let ident: usize = min_usize(term_w.saturating_sub(4), IDENT_W_MAX);
    let used: usize = ident + SIGNAL_W + 7;
    if cover_enabled && term_w >= used + 21 {
        return (ident, true, true, term_w - (used + 19));
    }
    if term_w >= used + 2 {
        (ident, true, false, term_w - used)
    } else {
        (ident, false, false, 0)
    }
}

/// The identity block is as wide with the cover as without it, and does not
/// change any more from a window on that leaves room for its full width.
pub proof fn identity_column_never_moves(w: int, v: int)
    requires
        IDENT_W_MAX + 4 <= v,
    ensures
        layout(w, true).ident == layout(w, false).ident,
        layout(v, true).ident == IDENT_W_MAX,
{
}

/// What is right of the identity block stands in the room that is left, to the
/// last column, with a gap of two at least; and the cover never comes without
/// the signal values.
pub proof fn extras_stay_in_spare_room(w: int, cover_enabled: bool)
    requires
        0 <= w,
    ensures
        ({
            let l = layout(w, cover_enabled);
            &&& l.cover ==> l.signal && cover_enabled && l.ident + l.gap + (18 + 1) + SIGNAL_W + 7 == w
            &&& l.signal ==> l.gap >= 2
            &&& l.signal && !l.cover ==> l.ident + l.gap + SIGNAL_W + 7 == w
            &&& l.ident <= w
        }),
{
}

/// A signal value: its name on the left, the value on the right.
pub open spec fn signal_row(p: Palette, key: Seq<char>, value: Seq<char>, good: bool, width: int) -> Seq<char> {
    p.dim@ + key + p.reset@ + text::spaces(text::most(text::minus(width, (key.len() + value.len()) as int), 1)) + (if good {
        p.accent@
    } else {
        p.fg@
    }) + value + p.reset@
}

/// A signal value: its name on the left, the value on the right.
pub fn render_signal_row(p: &Palette, key: &str, value: &str, good: bool, width: usize) -> (s: String)
    ensures
        s@ == signal_row(*p, key@, value@, good, width as int),
{
    let used: u128 = char_count(key) as u128 + char_count(value) as u128;
    let gap: usize = if width as u128 > used {
        (width as u128 - used) as usize
    } else {
        1
    };
    let mut s: String = p.dim.to_owned();
    s.push_str(key);
    s.push_str(p.reset);
    push_spaces(&mut s, gap);
    if good {
        s.push_str(p.accent);
    } else {
        s.push_str(p.fg);
    }
    s.push_str(value);
    s.push_str(p.reset);
    s
}

/// `s` where it fits into `max` columns, else cut.
pub open spec fn fitted(s: Seq<char>, max: int) -> Seq<char> {
    if ansi::visible_columns(s) <= max {
        s
    } else {
        ansi::cut(s, max)
    }
}

/// `s` where it fits into `max_width` columns, else cut.
pub fn truncate_plain_ansi_aware(s: &str, max_width: usize) -> (r: String)
    ensures
        r@ == fitted(s@, max_width as int),
{
    if visible_len(s) <= max_width {
        s.to_owned()
    } else {
        truncate_ansi(s, max_width)
    }
}

/// A key and what it does.
pub open spec fn hint(p: Palette, key: Seq<char>, label: Seq<char>) -> Seq<char> {
    eq_ui::tinted(p.fg@, key, p) + " "@ + eq_ui::tinted(p.dim@, label, p)
}

/// The first `n` hints, apart from one another.
pub open spec fn hints(p: Palette, pairs: Seq<(&str, &str)>, n: int) -> Seq<char>
    decreases n,
{
    if n <= 0 {
        Seq::empty()
    } else if n == 1 {
        hint(p, pairs[0].0@, pairs[0].1@)
    } else {
        hints(p, pairs, n - 1) + "   "@ + hint(p, pairs[n - 1].0@, pairs[n - 1].1@)
    }
}

/// A key and what it does.
pub fn hint_of(p: &Palette, key: &str, label: &str) -> (s: String)
    ensures
        s@ == hint(*p, key@, label@),
{
    let mut s: String = String::new();
    push_tinted(&mut s, p.fg, key, p);
    s.push_str(" ");
    push_tinted(&mut s, p.dim, label, p);
    assert(s@ =~= hint(*p, key@, label@));
    s
}

fn hints_of(p: &Palette, pairs: &Vec<(&str, &str)>) -> (s: String)
    ensures
        s@ == hints(*p, pairs@, pairs@.len() as int),
{
    let mut s: String = String::new();
    let mut i: usize = 0;
    assert(s@ =~= hints(*p, pairs@, 0));
    while i < pairs.len()
        invariant
            i <= pairs@.len(),
            s@ == hints(*p, pairs@, i as int),
        decreases pairs@.len() - i,
    {
        let one: String = hint_of(p, pairs[i].0, pairs[i].1);
        if i > 0 {
            s.push_str("   ");
        }
        s.push_str(one.as_str());
        i = i + 1;
        assert(s@ =~= hints(*p, pairs@, i as int));
    }
    s
}

/// The keys of the player's screen.
pub open spec fn player_keys() -> Seq<(&'static str, &'static str)> {
    seq![
        ("\u{2423}", "play"),
        ("\u{2190}\u{2192}", "seek"),
        ("\u{2191}\u{2193}", "track"),
        ("V", "viz"),
        ("L", "library"),
        ("Y", "lyrics"),
        ("E", "eq"),
        ("T", "theme"),
    ]
}

/// The keys of the player's screen, on one line.
pub open spec fn key_bar(p: Palette) -> Seq<char> {
    hints(p, player_keys(), 8)
}

/// The keys of the player's screen, on one line.
pub fn slim_cmd_bar_inner(p: &Palette) -> (s: String)
    ensures
        s@ == key_bar(*p),
{
    let mut pairs: Vec<(&str, &str)> = Vec::new();
    pairs.push(("\u{2423}", "play"));
    pairs.push(("\u{2190}\u{2192}", "seek"));
    pairs.push(("\u{2191}\u{2193}", "track"));
    pairs.push(("V", "viz"));
    pairs.push(("L", "library"));
    pairs.push(("Y", "lyrics"));
    pairs.push(("E", "eq"));
    pairs.push(("T", "theme"));
    assert(pairs@ =~= player_keys());
    hints_of(p, &pairs)
}

/// An edge of the box of keys.
pub open spec fn box_edge(p: Palette, w: int, left: Seq<char>, right: Seq<char>) -> Seq<char> {
    "  "@ + p.rule@ + left + text::rep('\u{2500}', text::minus(text::minus(w, 4), 2) as nat) + right + p.reset@
}

/// The row of the box of keys that holds them.
pub open spec fn box_row(p: Palette, w: int) -> Seq<char> {
    let room = text::minus(text::minus(w, 4), 4);
    let bar = ansi::cut(key_bar(p), room);
    "  "@ + p.rule@ + "\u{2502}"@ + p.reset@ + " "@ + bar + text::spaces(
        text::minus(room, ansi::visible_columns(bar) as int),
    ) + " "@ + p.rule@ + "\u{2502}"@ + p.reset@
}

/// The box of keys: its upper edge, the keys, its lower edge.
pub open spec fn key_box(p: Palette, w: int) -> Seq<Seq<char>> {
    seq![box_edge(p, w, "\u{250c}"@, "\u{2510}"@), box_row(p, w), box_edge(p, w, "\u{2514}"@, "\u{2518}"@)]
}

fn box_edge_of(p: &Palette, w: usize, left: &str, right: &str) -> (s: String)
    ensures
        s@ == box_edge(*p, w as int, left@, right@),
{
    let mut s: String = "  ".to_owned();
    s.push_str(p.rule);
    s.push_str(left);
    push_rep(&mut s, '\u{2500}', w.saturating_sub(4).saturating_sub(2));
    s.push_str(right);
    s.push_str(p.reset);
    s
}

/// The box of keys: its upper edge, the keys, its lower edge.
pub fn slim_cmd_box(p: &Palette, term_w: usize) -> (r: [String; 3])
    ensures
        r@.len() == 3,
        text::texts(r@) == key_box(*p, term_w as int),
{
    let room: usize = term_w.saturating_sub(4).saturating_sub(4);
    let keys: String = slim_cmd_bar_inner(p);
    let bar: String = truncate_ansi(keys.as_str(), room);
    let seen: usize = visible_len(bar.as_str());
    let mut row: String = "  ".to_owned();
    row.push_str(p.rule);
    row.push_str("\u{2502}");
    row.push_str(p.reset);
    row.push_str(" ");
    row.push_str(bar.as_str());
    push_spaces(&mut row, room.saturating_sub(seen));
    row.push_str(" ");
    row.push_str(p.rule);
    row.push_str("\u{2502}");
    row.push_str(p.reset);
    let top: String = box_edge_of(p, term_w, "\u{250c}", "\u{2510}");
    let bottom: String = box_edge_of(p, term_w, "\u{2514}", "\u{2518}");
    let r: [String; 3] = [top, row, bottom];
    assert(text::texts(r@) =~= key_box(*p, term_w as int));
    r
}

/// Whether the colours of a palette are all that they should be: changes of
/// colour.
pub open spec fn is_tinting(p: Palette) -> bool {
    columns::is_colour(p.fg@) && columns::is_colour(p.dim@) && columns::is_colour(p.rule@) && columns::is_colour(
        p.reset@,
    )
}

/// A piece of text in a colour is as wide as the text.
proof fn lemma_tinted(color: Seq<char>, s: Seq<char>, p: Palette)
    requires
        columns::is_colour(color),
        columns::is_colour(p.reset@),
        columns::is_closed(s),
    ensures
        columns::is_closed(eq_ui::tinted(color, s, p)),
        columns::columns(eq_ui::tinted(color, s, p)) == columns::columns(s),
{
    columns::colour_has_no_columns(color);
    columns::colour_has_no_columns(p.reset@);
    columns::joined_texts_are_closed(color, s);
    columns::joined_texts_are_closed(color + s, p.reset@);
}

proof fn lemma_hints(p: Palette, pairs: Seq<(&str, &str)>, n: int)
    requires
        is_tinting(p),
        0 <= n <= pairs.len(),
        forall|i: int|
            0 <= i < pairs.len() ==> columns::is_closed((#[trigger] pairs[i]).0@) && columns::is_closed(pairs[i].1@),
    ensures
        columns::is_closed(hints(p, pairs, n)),
    decreases n,
{
    columns::nothing_is_closed();
    if n > 0 {
        lemma_hints(p, pairs, n - 1);
        let k = pairs[n - 1].0@;
        let l = pairs[n - 1].1@;
        lemma_tinted(p.fg@, k, p);
        lemma_tinted(p.dim@, l, p);
        reveal_strlit(" ");
        reveal_strlit("   ");
        columns::plain_text_is_closed(" "@);
        columns::plain_text_is_closed("   "@);
        columns::joined_texts_are_closed(eq_ui::tinted(p.fg@, k, p), " "@);
        columns::joined_texts_are_closed(eq_ui::tinted(p.fg@, k, p) + " "@, eq_ui::tinted(p.dim@, l, p));
        columns::joined_texts_are_closed(hints(p, pairs, n - 1), "   "@);
        columns::joined_texts_are_closed(hints(p, pairs, n - 1) + "   "@, hint(p, k, l));
    }
}

proof fn lemma_key_bar(p: Palette)
    requires
        is_tinting(p),
    ensures
        columns::is_closed(key_bar(p)),
{
    reveal_strlit("\u{2423}");
    reveal_strlit("play");
    reveal_strlit("\u{2190}\u{2192}");
    reveal_strlit("seek");
    reveal_strlit("\u{2191}\u{2193}");
    reveal_strlit("track");
    reveal_strlit("V");
    reveal_strlit("viz");
    reveal_strlit("L");
    reveal_strlit("library");
    reveal_strlit("Y");
    reveal_strlit("lyrics");
    reveal_strlit("E");
    reveal_strlit("eq");
    reveal_strlit("T");
    reveal_strlit("theme");
    let pairs = player_keys();
    assert forall|i: int| 0 <= i < pairs.len() implies columns::is_closed((#[trigger] pairs[i]).0@)
        && columns::is_closed(pairs[i].1@) by {
        columns::plain_text_is_closed(pairs[i].0@);
        columns::plain_text_is_closed(pairs[i].1@);
    }
    lemma_hints(p, pairs, 8);
}

/// The palette's colours are changes of colour.
pub proof fn minimal_palette_tints()
    ensures
        is_tinting(theme::palette_of(ThemeKind::Minimal)),
{
    reveal_strlit("\x1B[0m");
    reveal_strlit("\x1B[2m");
    reveal_strlit("\x1B[38;2;35;38;42m");
}

proof fn lemma_box_edge(p: Palette, w: int, left: Seq<char>, right: Seq<char>)
    requires
        is_tinting(p),
        8 <= w,
        left.len() == 1 && ansi::is_narrow(left[0]),
        right.len() == 1 && ansi::is_narrow(right[0]),
    ensures
        columns::columns(box_edge(p, w, left, right)) == w - 2,
{
    let bar = text::rep('\u{2500}', (w - 6) as nat);
    reveal_strlit("  ");
    columns::narrow_text_is_counted("  "@);
    columns::narrow_text_is_counted(left);
    columns::narrow_text_is_counted(right);
    columns::repeated_is_counted('\u{2500}', (w - 6) as nat);
    columns::colour_has_no_columns(p.rule@);
    columns::colour_has_no_columns(p.reset@);
    columns::joined_texts_are_closed("  "@, p.rule@);
    columns::joined_texts_are_closed("  "@ + p.rule@, left);
    columns::joined_texts_are_closed("  "@ + p.rule@ + left, bar);
    columns::joined_texts_are_closed("  "@ + p.rule@ + left + bar, right);
    columns::joined_texts_are_closed("  "@ + p.rule@ + left + bar + right, p.reset@);
}

proof fn lemma_box_row(p: Palette, w: int)
    requires
        is_tinting(p),
        8 <= w,
    ensures
        columns::columns(box_row(p, w)) == w - 2,
{
    let room = w - 8;
    let bar = ansi::cut(key_bar(p), room);
    lemma_key_bar(p);
    columns::cut_is_closed(key_bar(p), room);
    let pad = text::spaces(room - ansi::visible_columns(bar));
    columns::repeated_is_counted(' ', (room - ansi::visible_columns(bar)) as nat);
    reveal_strlit("  ");
    reveal_strlit(" ");
    reveal_strlit("\u{2502}");
    columns::narrow_text_is_counted("  "@);
    columns::narrow_text_is_counted(" "@);
    columns::narrow_text_is_counted("\u{2502}"@);
    columns::colour_has_no_columns(p.rule@);
    columns::colour_has_no_columns(p.reset@);
    let a = "  "@ + p.rule@;
    columns::joined_texts_are_closed("  "@, p.rule@);
    let b = a + "\u{2502}"@;
    columns::joined_texts_are_closed(a, "\u{2502}"@);
    let c = b + p.reset@;
    columns::joined_texts_are_closed(b, p.reset@);
    let d = c + " "@;
    columns::joined_texts_are_closed(c, " "@);
    let e = d + bar;
    columns::joined_texts_are_closed(d, bar);
    let f = e + pad;
    columns::joined_texts_are_closed(e, pad);
    let g = f + " "@;
    columns::joined_texts_are_closed(f, " "@);
    let h = g + p.rule@;
    columns::joined_texts_are_closed(g, p.rule@);
    let i = h + "\u{2502}"@;
    columns::joined_texts_are_closed(h, "\u{2502}"@);
    columns::joined_texts_are_closed(i, p.reset@);
}

/// The edges of the box of keys and the row between them are of one width, and
/// the window holds them.
pub proof fn command_box_borders_line_up(w: int)
    requires
        8 <= w,
    ensures
        ({
            let lines = key_box(theme::palette_of(ThemeKind::Minimal), w);
            forall|i: int| 0 <= i < 3 ==> columns::columns(#[trigger] lines[i]) == w - 2
        }),
{
    let p = theme::palette_of(ThemeKind::Minimal);
    minimal_palette_tints();
    reveal_strlit("\u{250c}");
    reveal_strlit("\u{2510}");
    reveal_strlit("\u{2514}");
    reveal_strlit("\u{2518}");
    lemma_box_edge(p, w, "\u{250c}"@, "\u{2510}"@);
    lemma_box_edge(p, w, "\u{2514}"@, "\u{2518}"@);
    lemma_box_row(p, w);
}

/// What the section of the visualiser is called.
pub open spec fn section_label(m: VizMode) -> Seq<char> {
    match m {
        VizMode::Off => ""@,
        VizMode::VuMeter => "VU"@,
        VizMode::SpectrumHorizontal => "SPECTRUM"@,
        VizMode::SpectrumVertical => "SPECTRUM"@,
        VizMode::Oscilloscope => "OSCILLOSCOPE"@,
        VizMode::Lissajous => "VECTOR"@,
        VizMode::Spectrogram => "SPECTROGRAM"@,
        VizMode::SpectrogramAnalysis => "SPECTROGRAM"@,
    }
}

/// What the section of the visualiser is called.
pub fn viz_section_label(mode: VizMode) -> (r: &'static str)
    ensures
        r@ == section_label(mode),
{
    match mode {
        VizMode::Off => "",
        VizMode::VuMeter => "VU",
        VizMode::SpectrumHorizontal => "SPECTRUM",
        VizMode::SpectrumVertical => "SPECTRUM",
        VizMode::Oscilloscope => "OSCILLOSCOPE",
        VizMode::Lissajous => "VECTOR",
        VizMode::Spectrogram => "SPECTROGRAM",
        VizMode::SpectrogramAnalysis => "SPECTROGRAM",
    }
}

/// A bar filled by eighths of a column, on a rail.
pub open spec fn bar(parts: int, width: int, fg: Seq<char>, rule: Seq<char>, reset: Seq<char>) -> Seq<char> {
    let full = parts / 8;
    let part = parts % 8;
    fg + text::rep('\u{2588}', text::least(full, width) as nat) + (if full < width && part > 0 {
        seq![frame::block_part(part - 1)]
    } else {
        Seq::empty()
    }) + rule + text::rep(
        '\u{2500}',
        text::minus(
            width,
            full + (if part > 0 {
                1int
            } else {
                0int
            }),
        ) as nat,
    ) + reset
}

/// A bar filled by eighths of a column, on a rail.
pub fn render_progress_bar(parts: u32, width: u32, fg: &str, rule: &str, reset: &str) -> (s: String)
    ensures
        s@ == bar(parts as int, width as int, fg@, rule@, reset@),
{
    let full: u32 = parts / 8;
    let part: u32 = parts % 8;
    let mut s: String = fg.to_owned();
    push_rep(
        &mut s,
        '\u{2588}',
        if full < width {
            full as usize
        } else {
            width as usize
        },
    );
    let ghost head = s@;
    if full < width && part > 0 {
        s.push(block_char(part - 1));
    }
    assert(s@ =~= head + (if full < width && part > 0 {
        seq![frame::block_part(part - 1)]
    } else {
        Seq::empty()
    }));
    s.push_str(rule);
    let used: u32 = full + (if part > 0 {
        1
    } else {
        0
    });
    push_rep(
        &mut s,
        '\u{2500}',
        if width > used {
            (width - used) as usize
        } else {
            0
        },
    );
    s.push_str(reset);
    s
}

/// The bar takes its width, and no more.
pub proof fn bar_fills_its_width(parts: int, width: int, fg: Seq<char>, rule: Seq<char>, reset: Seq<char>)
    requires
        0 <= parts <= 8 * width,
    ensures
        bar(parts, width, fg, rule, reset).len() == fg.len() + width + rule.len() + reset.len(),
{
}

/// What the player's screen calls the track that plays.
pub open spec fn heading(cache: Seq<metadata::TrackMetaV>, current: int, name: Seq<char>) -> Seq<char> {
    match metadata::entry_at(cache, current).title {
        Some(t) => t,
        None => name,
    }
}

/// Artist and album on one line.
pub open spec fn by_line(e: metadata::TrackMetaV) -> Seq<char> {
    let artist = metadata::text_or_empty(e.artist);
    match e.album {
        Some(album) => if artist.len() > 0 {
            artist + "  \u{b7}  "@ + album
        } else {
            album
        },
        None => artist,
    }
}

/// The times and the bar between them.
pub open spec fn time_row(s: PlayerState, p: Palette, ident: int) -> Seq<char> {
    let cur = frame::minutes(PlayerState::seconds(s.track.samples_played, s.track.output_rate) as nat);
    let tot = frame::minutes(PlayerState::seconds(s.track.total_samples, s.track.sample_rate) as nat);
    let room = bar_room(ident, cur, tot);
    p.accent@ + cur + p.reset@ + "   "@ + bar(frame::progress(s, 8 * room), room, p.accent@, p.rule@, p.reset@)
        + "   "@ + p.dim@ + tot + p.reset@
}

/// Columns of the times and the bar between them.
pub open spec fn time_columns(s: PlayerState, ident: int) -> int {
    let cur = frame::minutes(PlayerState::seconds(s.track.samples_played, s.track.output_rate) as nat);
    let tot = frame::minutes(PlayerState::seconds(s.track.total_samples, s.track.sample_rate) as nat);
    cur.len() + 3 + bar_room(ident, cur, tot) + 3 + tot.len()
}

/// How the channels are called.
pub open spec fn channel_words(n: usize) -> Seq<char> {
    if n == 1 {
        "mono"@
    } else if n == 2 {
        "stereo"@
    } else {
        "multi"@
    }
}

/// The rate of the file, and that of the output where it is another.
pub open spec fn rate_words(s: PlayerState) -> Seq<char> {
    if s.track.sample_rate == s.track.output_rate {
        frame::khz(s.track.sample_rate) + "k"@
    } else {
        frame::khz(s.track.sample_rate) + "k \u{2192} "@ + frame::khz(s.track.output_rate) + "k"@
    }
}

/// The line below the bar: what the track is, and what shapes its sound.
pub open spec fn meta_line(s: PlayerState, c: Scene, p: Palette) -> Seq<char> {
    "track "@ + text::dec(ui::track_number(s)) + " of "@ + text::dec(s.track.total_tracks as nat) + "  \u{b7}  "@
        + text::dec(s.track.bits_per_sample as nat) + "-bit "@ + channel_words(s.track.channels) + "  \u{b7}  "@
        + rate_words(s) + ui::unusual("  \u{b7}  eq "@, c.eq_name@, "Flat"@) + ui::unusual(
        "  \u{b7}  fx "@,
        c.fx_name@,
        "None"@,
    ) + ui::unusual("  \u{b7}  cf "@, c.cf_name@, "Off"@) + "  \u{b7}  "@ + (if s.clipping {
        p.danger@
    } else {
        p.good@
    }) + "\u{25cf}"@ + p.reset@
}

/// The identity block: what plays, by whom, and how far it is.
pub open spec fn ident_cells(
    s: PlayerState,
    cache: Seq<metadata::TrackMetaV>,
    c: Scene,
    p: Palette,
    w: int,
) -> Seq<Seq<char>> {
    let current = s.track.current_track as int;
    let title = ansi::plain_cut(heading(cache, current, c.name@), w);
    let sub = ansi::plain_cut(by_line(metadata::entry_at(cache, current)), w);
    let now = if s.transport.paused {
        "PAUSED"@
    } else {
        "NOW PLAYING"@
    };
    let meta = meta_line(s, c, p);
    seq![
        cell(p.bold@ + p.fg@ + title + p.reset@, title.len() as int, w),
        cell(p.dim@ + sub + p.reset@, sub.len() as int, w),
        cell(Seq::empty(), 0, w),
        cell(p.dim@ + now + p.reset@, now.len() as int, w),
        cell(time_row(s, p, w), time_columns(s, w), w),
        cell(
            p.dim@ + fitted(meta, w) + p.reset@,
            text::least(ansi::visible_columns(meta) as int, w),
            w,
        ),
    ]
}

/// The signal column: its label, and the values below it. It starts one row
/// below the title.
pub open spec fn signal_column(s: PlayerState, c: Scene, p: Palette) -> Seq<Seq<char>> {
    let w = SIGNAL_W as int;
    seq![
        Seq::empty(),
        p.dim@ + "SIGNAL"@ + p.reset@,
        signal_row(p, "output"@, frame::khz(s.track.output_rate) + "k"@, false, w),
        signal_row(p, "volume"@, text::dec(s.volume as nat) + "%"@, false, w),
        signal_row(p, "buffer"@, text::dec(c.stats.buf_pct as nat) + "%"@, c.stats.buf_pct >= 60, w),
        signal_row(
            p,
            "fader"@,
            if s.look.pre_fader {
                "pre"@
            } else {
                "post"@
            },
            false,
            w,
        ),
        signal_row(p, "balance"@, frame::balance_words(s.balance as int), false, w),
        signal_row(p, "cpu"@, c.stats.cpu@ + "%"@, c.stats.cpu_high, w),
        signal_row(p, "mem"@, c.stats.mem@ + "M"@, false, w),
    ]
}

/// Whether the cover has to be drawn: an image that stays in its cells is drawn
/// only where it is not there, or not the right one.
pub open spec fn must_draw(pane: CoverPane, c: Scene) -> bool {
    c.protocol is HalfBlock || c.prev is None || !pane.block_intact || pane.dirty_frame
}

/// The lines of the cover's slot.
pub open spec fn slot_lines(pane: CoverPane, c: Scene) -> Seq<Seq<char>> {
    if !must_draw(pane, c) {
        Seq::new(8, |i: int| cover::skip(18))
    } else {
        match pane.cover {
            Some(img) => cover::drawn(img),
            None => cover::block(
                (if c.protocol is Kitty {
                    "\x1B_Ga=d,d=i,i=1,q=2\x1B\\"@
                } else {
                    Seq::empty()
                }) + text::spaces(18),
                text::spaces(18),
                8,
            ),
        }
    }
}

/// The cover's part of a row of the block: the slot starts beside the label of
/// the signal column, and is as high as that column.
pub open spec fn slot_part(slot: Seq<Seq<char>>, shown: bool, i: int) -> Seq<char> {
    if !shown {
        Seq::empty()
    } else if 1 <= i < 9 && i - 1 < slot.len() {
        slot[i - 1] + " "@
    } else {
        text::spaces(18) + " "@
    }
}

/// A row of the identity block; empty below it.
pub open spec fn cell_at(cells: Seq<Seq<char>>, i: int, w: int) -> Seq<char> {
    if i < cells.len() {
        cells[i]
    } else {
        text::spaces(w)
    }
}

/// The identity block, and what stands right of it.
pub open spec fn block_lines(s: PlayerState, ui: UiState, c: Scene, p: Palette) -> Seq<(bool, Seq<char>)> {
    let l = layout(c.term_w as int, ui.cover.enabled);
    let cells = ident_cells(s, ui.cache@, c, p, l.ident);
    let slot = slot_lines(ui.cover, c);
    let signal = signal_column(s, c, p);
    if l.signal {
        Seq::new(
            9,
            |i: int|
                (
                    l.cover && !(c.protocol is HalfBlock),
                    "  "@ + cell_at(cells, i, l.ident) + text::spaces(l.gap) + slot_part(slot, l.cover, i) + p.rule@
                        + "\u{2502}"@ + p.reset@ + " "@ + signal[i],
                ),
        )
    } else {
        Seq::new(6, |i: int| frame::plain("  "@ + cells[i]))
    }
}

/// The cover's place after the block was painted.
pub open spec fn pane_after(pane: CoverPane, l: Layout) -> CoverPane {
    CoverPane {
        block_intact: l.signal && l.cover,
        dirty_frame: pane.dirty_frame && !(l.signal && l.cover),
        ..pane
    }
}

/// The message, or else the box of keys.
pub open spec fn tray_lines(ui: UiState, p: Palette, w: int) -> Seq<(bool, Seq<char>)> {
    match ui.message() {
        Some(m) => seq![frame::plain("  "@ + p.accent@ + m + p.reset@)],
        None => frame::lines_of(false, key_box(p, w)),
    }
}

/// The visualiser below its label.
pub open spec fn viz_lines(s: PlayerState, c: Scene, p: Palette) -> Seq<(bool, Seq<char>)> {
    if s.look.viz_mode is Off {
        Seq::empty()
    } else {
        seq![frame::blank(), frame::plain("  "@ + p.dim@ + section_label(s.look.viz_mode) + p.reset@)]
            + frame::lines_of(c.viz_raw && s.look.viz_mode is SpectrogramAnalysis, text::texts(c.viz@))
    }
}

/// The player's frame.
pub open spec fn player_frame(s: PlayerState, ui: UiState, c: Scene) -> Seq<(bool, Seq<char>)> {
    let p = theme::palette_of(ThemeKind::Minimal);
    let w = c.term_w as int;
    seq![frame::plain(wordmark(p)), frame::plain(rule(p, w))] + block_lines(s, ui, c, p) + seq![frame::blank()]
        + tray_lines(ui, p, w) + viz_lines(s, c, p)
}

fn heading_of(cache: &MetadataCache, current: usize, name: &str) -> (r: String)
    ensures
        r@ == heading(cache@, current as int, name@),
{
    match cache.title(current) {
        Some(t) => t,
        None => name.to_owned(),
    }
}

fn by_line_of(cache: &MetadataCache, current: usize) -> (r: String)
    ensures
        r@ == by_line(metadata::entry_at(cache@, current as int)),
{
    let (artist, album) = cache.artist_album(current);
    let mut r: String = match artist {
        Some(a) => a,
        None => String::new(),
    };
    let ghost head = r@;
    assert(head =~= metadata::text_or_empty(metadata::entry_at(cache@, current as int).artist));
    match album {
        Some(a) => {
            if !is_blank(r.as_str()) {
                r.push_str("  \u{b7}  ");
            }
            r.push_str(a.as_str());
            assert(r@ =~= (if head.len() > 0 {
                head + "  \u{b7}  "@ + a@
            } else {
                a@
            }));
        },
        None => {},
    }
    r
}

fn time_cell(state: &PlayerState, p: &Palette, ident: usize) -> (r: String)
    ensures
        r@ == cell(time_row(*state, *p, ident as int), time_columns(*state, ident as int), ident as int),
{
    let cur: String = format_minutes(state.time_secs());
    let tot: String = format_minutes(state.total_secs());
    let room: u32 = progress_bar_width(ident, cur.as_str(), tot.as_str()) as u32;
    let fill: String = render_progress_bar(progress_parts(state, 8 * room), room, p.accent, p.rule, p.reset);
    let mut s: String = p.accent.to_owned();
    s.push_str(cur.as_str());
    s.push_str(p.reset);
    s.push_str("   ");
    s.push_str(fill.as_str());
    s.push_str("   ");
    s.push_str(p.dim);
    s.push_str(tot.as_str());
    s.push_str(p.reset);
    let seen: u128 = char_count(cur.as_str()) as u128 + 6 + room as u128 + char_count(tot.as_str()) as u128;
    if seen > ident as u128 {
        truncate_ansi(s.as_str(), ident)
    } else {
        push_spaces(&mut s, ident - seen as usize);
        s
    }
}

fn rate_words_of(state: &PlayerState) -> (s: String)
    ensures
        s@ == rate_words(*state),
{
    let mut s: String = khz_text(state.track.sample_rate);
    if state.track.sample_rate == state.track.output_rate {
        s.push_str("k");
    } else {
        s.push_str("k \u{2192} ");
        s.push_str(khz_text(state.track.output_rate).as_str());
        s.push_str("k");
    }
    s
}

fn meta_line_of(state: &PlayerState, c: &Scene, p: &Palette) -> (s: String)
    ensures
        s@ == meta_line(*state, *c, *p),
{
    let rate: String = rate_words_of(state);
    let mut s: String = "track ".to_owned();
    push_dec(&mut s, number_of(state));
    s.push_str(" of ");
    push_dec(&mut s, state.track.total_tracks as u64);
    s.push_str("  \u{b7}  ");
    push_dec(&mut s, state.track.bits_per_sample as u64);
    s.push_str("-bit ");
    if state.track.channels == 1 {
        s.push_str("mono");
    } else if state.track.channels == 2 {
        s.push_str("stereo");
    } else {
        s.push_str("multi");
    }
    s.push_str("  \u{b7}  ");
    s.push_str(rate.as_str());
    push_unusual(&mut s, "  \u{b7}  eq ", c.eq_name.as_str(), "Flat");
    push_unusual(&mut s, "  \u{b7}  fx ", c.fx_name.as_str(), "None");
    push_unusual(&mut s, "  \u{b7}  cf ", c.cf_name.as_str(), "Off");
    s.push_str("  \u{b7}  ");
    if state.clipping {
        s.push_str(p.danger);
    } else {
        s.push_str(p.good);
    }
    s.push_str("\u{25cf}");
    s.push_str(p.reset);
    s
}

fn tinted_cell(color: &str, s: &str, p: &Palette, visible: usize, w: usize) -> (r: String)
    ensures
        r@ == cell(color@ + s@ + p.reset@, visible as int, w as int),
{
    let mut t: String = color.to_owned();
    t.push_str(s);
    t.push_str(p.reset);
    ident_cell(t.as_str(), visible, w)
}

fn title_cell(state: &PlayerState, cache: &MetadataCache, c: &Scene, p: &Palette, w: usize) -> (r: String)
    ensures
        r@ == ident_cells(*state, cache@, *c, *p, w as int)[0],
{
    let full: String = heading_of(cache, state.track.current_track, c.name.as_str());
    let title: String = truncate_plain(full.as_str(), w);
    let mut t: String = p.bold.to_owned();
    t.push_str(p.fg);
    t.push_str(title.as_str());
    t.push_str(p.reset);
    ident_cell(t.as_str(), char_count(title.as_str()), w)
}

fn meta_cell(state: &PlayerState, cache: &MetadataCache, c: &Scene, p: &Palette, w: usize) -> (r: String)
    ensures
        r@ == ident_cells(*state, cache@, *c, *p, w as int)[5],
{
    let meta: String = meta_line_of(state, c, p);
    let shown: String = truncate_plain_ansi_aware(meta.as_str(), w);
    let seen: usize = min_usize(visible_len(meta.as_str()), w);
    tinted_cell(p.dim, shown.as_str(), p, seen, w)
}

fn ident_cells_of(state: &PlayerState, cache: &MetadataCache, c: &Scene, p: &Palette, w: usize) -> (cells: Vec<
    String,
>)
    ensures
        cells@.len() == 6,
        text::texts(cells@) == ident_cells(*state, cache@, *c, *p, w as int),
{
    let by: String = by_line_of(cache, state.track.current_track);
    let sub: String = truncate_plain(by.as_str(), w);
    let now: &str = if state.transport.paused {
        "PAUSED"
    } else {
        "NOW PLAYING"
    };
    proof {
        reveal_strlit("");
    }
    assert(""@ =~= Seq::<char>::empty());
    let mut cells: Vec<String> = Vec::new();
    cells.push(title_cell(state, cache, c, p, w));
    cells.push(tinted_cell(p.dim, sub.as_str(), p, char_count(sub.as_str()), w));
    cells.push(ident_cell("", 0, w));
    cells.push(tinted_cell(p.dim, now, p, char_count(now), w));
    cells.push(time_cell(state, p, w));
    cells.push(meta_cell(state, cache, c, p, w));
    assert(text::texts(cells@) =~= ident_cells(*state, cache@, *c, *p, w as int));
    cells
}

fn with_unit(head: &str, unit: &str) -> (s: String)
    ensures
        s@ == head@ + unit@,
{
    let mut s: String = head.to_owned();
    s.push_str(unit);
    s
}

fn signal_column_of(state: &PlayerState, c: &Scene, p: &Palette) -> (lines: Vec<String>)
    ensures
        lines@.len() == 9,
        text::texts(lines@) == signal_column(*state, *c, *p),
{
    let mut label: String = p.dim.to_owned();
    label.push_str("SIGNAL");
    label.push_str(p.reset);
    let fader: &str = if state.look.pre_fader {
        "pre"
    } else {
        "post"
    };
    let vol: String = dec_string(state.volume as u64);
    let buf: String = dec_string(c.stats.buf_pct as u64);
    let output: String = with_unit(khz_text(state.track.output_rate).as_str(), "k");
    let volume: String = with_unit(vol.as_str(), "%");
    let buffer: String = with_unit(buf.as_str(), "%");
    let balance: String = balance_text(state.balance);
    let cpu: String = with_unit(c.stats.cpu.as_str(), "%");
    let mem: String = with_unit(c.stats.mem.as_str(), "M");
    let mut lines: Vec<String> = Vec::new();
    lines.push(String::new());
    lines.push(label);
    lines.push(render_signal_row(p, "output", output.as_str(), false, SIGNAL_W));
    lines.push(render_signal_row(p, "volume", volume.as_str(), false, SIGNAL_W));
    lines.push(render_signal_row(p, "buffer", buffer.as_str(), c.stats.buf_pct >= 60, SIGNAL_W));
    lines.push(render_signal_row(p, "fader", fader, false, SIGNAL_W));
    lines.push(render_signal_row(p, "balance", balance.as_str(), false, SIGNAL_W));
    lines.push(render_signal_row(p, "cpu", cpu.as_str(), c.stats.cpu_high, SIGNAL_W));
    lines.push(render_signal_row(p, "mem", mem.as_str(), false, SIGNAL_W));
    assert(text::texts(lines@) =~= signal_column(*state, *c, *p));
    lines
}

fn slot_lines_of(pane: &CoverPane, c: &Scene) -> (lines: Vec<String>)
    requires
        pane.cover matches Some(img) ==> cover::is_whole(img),
    ensures
        text::texts(lines@) == slot_lines(*pane, *c),
{
    let size: CoverSize = CoverSize::minimal();
    let draw: bool = !image_is_sticky(c.protocol) || c.prev.is_none() || !pane.block_intact || pane.dirty_frame;
    let lines: Vec<String> = if draw {
        match &pane.cover {
            Some(img) => render(img),
            None => empty_slot_lines(c.protocol, size),
        }
    } else {
        passive_lines(size)
    };
    assert(text::texts(lines@) =~= slot_lines(*pane, *c));
    lines
}

fn block_row(
    cells: &Vec<String>,
    slot: &Vec<String>,
    signal: &Vec<String>,
    p: &Palette,
    l: (usize, bool, bool, usize),
    i: usize,
) -> (s: String)
    requires
        i < 9,
        signal@.len() == 9,
        cells@.len() == 6,
    ensures
        s@ == "  "@ + cell_at(text::texts(cells@), i as int, l.0 as int) + text::spaces(l.3 as int) + slot_part(
            text::texts(slot@),
            l.2,
            i as int,
        ) + p.rule@ + "\u{2502}"@ + p.reset@ + " "@ + text::texts(signal@)[i as int],
{
    let (ident, _signal, cover, gap) = l;
    let mut mid: String = String::new();
    if cover {
        if i >= 1 && i - 1 < slot.len() {
            assert(text::texts(slot@)[i - 1] == slot@[i - 1]@);
            mid.push_str(slot[i - 1].as_str());
        } else {
            push_spaces(&mut mid, 18);
        }
        mid.push_str(" ");
    }
    assert(mid@ =~= slot_part(text::texts(slot@), l.2, i as int));
    let mut cell_text: String = String::new();
    if i < cells.len() {
        assert(text::texts(cells@)[i as int] == cells@[i as int]@);
        cell_text.push_str(cells[i].as_str());
    } else {
        push_spaces(&mut cell_text, ident);
    }
    assert(cell_text@ =~= cell_at(text::texts(cells@), i as int, l.0 as int));
    let mut s: String = "  ".to_owned();
    s.push_str(cell_text.as_str());
    push_spaces(&mut s, gap);
    s.push_str(mid.as_str());
    s.push_str(p.rule);
    s.push_str("\u{2502}");
    s.push_str(p.reset);
    s.push_str(" ");
    s.push_str(signal[i].as_str());
    s
}

fn write_block(w: &mut FrameWriter, state: &PlayerState, ui: &mut UiState, c: &Scene, p: &Palette)
    requires
        old(ui).cover.cover matches Some(img) ==> cover::is_whole(img),
    ensures
        final(w)@ == old(w)@ + block_lines(*state, *old(ui), *c, *p),
        *final(ui) == (UiState {
            cover: pane_after(old(ui).cover, layout(c.term_w as int, old(ui).cover.enabled)),
            ..*old(ui)
        }),
{
    let ghost before = w@;
    let l: (usize, bool, bool, usize) = minimal_layout(c.term_w as usize, ui.cover.enabled);
    let cells: Vec<String> = ident_cells_of(state, &ui.cache, c, p, l.0);
    let ghost all = block_lines(*state, *ui, *c, *p);
    assert(w@ =~= before + all.take(0));
    if l.1 {
        let signal: Vec<String> = signal_column_of(state, c, p);
        let slot: Vec<String> = slot_lines_of(&ui.cover, c);
        let raw: bool = l.2 && image_is_sticky(c.protocol);
        let mut i: usize = 0;
        while i < 9
            invariant
                i <= 9,
                l.1,
                cells@.len() == 6,
                signal@.len() == 9,
                all.len() == 9,
                forall|k: int|
                    0 <= k < 9 ==> #[trigger] all[k] == (
                        raw,
                        "  "@ + cell_at(text::texts(cells@), k, l.0 as int) + text::spaces(l.3 as int) + slot_part(
                            text::texts(slot@),
                            l.2,
                            k,
                        ) + p.rule@ + "\u{2502}"@ + p.reset@ + " "@ + text::texts(signal@)[k],
                    ),
                w@ == before + all.take(i as int),
            decreases 9 - i,
        {
            let row: String = block_row(&cells, &slot, &signal, p, l, i);
            if raw {
                w.line_raw(row.as_str());
            } else {
                w.line(row.as_str());
            }
            assert(all[i as int] == (raw, row@));
            i = i + 1;
            assert(w@ =~= before + all.take(i as int));
        }
        ui.cover.block_intact = l.2;
        if l.2 {
            ui.cover.dirty_frame = false;
        }
    } else {
        let mut i: usize = 0;
        while i < 6
            invariant
                i <= 6,
                cells@.len() == 6,
                all.len() == 6,
                forall|k: int| 0 <= k < 6 ==> #[trigger] all[k] == frame::plain("  "@ + text::texts(cells@)[k]),
                w@ == before + all.take(i as int),
            decreases 6 - i,
        {
            let mut row: String = "  ".to_owned();
            row.push_str(cells[i].as_str());
            w.line(row.as_str());
            assert(text::texts(cells@)[i as int] == cells@[i as int]@);
            assert(all[i as int] == frame::plain(row@));
            i = i + 1;
            assert(w@ =~= before + all.take(i as int));
        }
        ui.cover.block_intact = false;
    }
    assert(all.take(all.len() as int) =~= all);
}

fn write_tray(w: &mut FrameWriter, ui: &UiState, p: &Palette, cols: usize)
    ensures
        final(w)@ == old(w)@ + tray_lines(*ui, *p, cols as int),
{
    let ghost before = w@;
    match ui.active_status() {
        Some(m) => {
            let mut s: String = "  ".to_owned();
            s.push_str(p.accent);
            s.push_str(m.as_str());
            s.push_str(p.reset);
            w.line(s.as_str());
        },
        None => {
            let lines: [String; 3] = slim_cmd_box(p, cols);
            w.line(lines[0].as_str());
            w.line(lines[1].as_str());
            w.line(lines[2].as_str());
            proof {
                let t = text::texts(lines@);
                assert(t[0] == lines@[0]@ && t[1] == lines@[1]@ && t[2] == lines@[2]@);
            }
        },
    }
    assert(w@ =~= before + tray_lines(*ui, *p, cols as int));
}

fn write_viz(w: &mut FrameWriter, state: &PlayerState, c: &Scene, p: &Palette)
    ensures
        final(w)@ == old(w)@ + viz_lines(*state, *c, *p),
{
    let ghost before = w@;
    let analysis: bool = state.look.viz_mode == VizMode::SpectrogramAnalysis;
    if state.look.viz_mode != VizMode::Off {
        w.blank();
        let mut s: String = "  ".to_owned();
        s.push_str(p.dim);
        s.push_str(viz_section_label(state.look.viz_mode));
        s.push_str(p.reset);
        w.line(s.as_str());
        w.all(c.viz_raw && analysis, &c.viz);
    }
    assert(w@ =~= before + viz_lines(*state, *c, *p));
}

/// Makes the player's frame. The keys stand above the visualiser, whose height
/// changes with its mode.
pub fn print_status_minimal(state: &mut PlayerState, ui: &mut UiState, c: &Scene) -> (w: FrameWriter)
    requires
        old(ui).cover.cover matches Some(img) ==> cover::is_whole(img),
    ensures
        w@ == player_frame(*old(state), *old(ui), *c),
        *final(ui) == (UiState {
            spectro_block_intact: old(state).look.viz_mode is SpectrogramAnalysis,
            cover: pane_after(old(ui).cover, layout(c.term_w as int, old(ui).cover.enabled)),
            ..*old(ui)
        }),
        *final(state) == ui::clip_taken(*old(state)),
{
    let p: Palette = palette(ThemeKind::Minimal);
    let cols: usize = c.term_w as usize;
    let mut w: FrameWriter = FrameWriter::new();
    let mark: String = wordmark_anchor(&p);
    w.first_line(mark.as_str());
    let line: String = rule_of(&p, cols);
    w.line(line.as_str());
    let ghost head = w@;
    assert(head =~= seq![frame::plain(wordmark(p)), frame::plain(rule(p, cols as int))]);
    write_block(&mut w, state, ui, c, &p);
    let ghost block = w@;
    w.blank();
    assert(w@ =~= block + seq![frame::blank()]);
    write_tray(&mut w, ui, &p, cols);
    write_viz(&mut w, state, c, &p);
    ui.spectro_block_intact = state.look.viz_mode == VizMode::SpectrogramAnalysis;
    state.clipping = false;
    w
}

/// Rows above the picture of the visualiser: the wordmark, the rule, the block,
/// a gap, the message or the keys, a gap and the label.
pub fn rows_above_viz(ui: &UiState, term_w: u16) -> (r: usize)
    ensures
        r == 2 + (if layout(term_w as int, ui.cover.enabled).signal {
            9int
        } else {
            6int
        }) + 1 + (if ui.message() is Some {
            1int
        } else {
            3int
        }) + 2,
{
    let (_ident, signal, _cover, _gap) = minimal_layout(term_w as usize, ui.cover.enabled);
    let block: usize = if signal {
        9
    } else {
        6
    };
    let tray: usize = if ui.active_status().is_some() {
        1
    } else {
        3
    };
    2 + block + 1 + tray + 2
}

/// The picture of the visualiser starts where it is expected, and the block
/// keeps its height whatever stands in it: the slot of the cover ends level with
/// the signal values.
pub proof fn block_height_is_fixed(s: PlayerState, ui: UiState, c: Scene)
    ensures
        ({
            let p = theme::palette_of(ThemeKind::Minimal);
            let l = layout(c.term_w as int, ui.cover.enabled);
            &&& block_lines(s, ui, c, p).len() == (if l.signal {
                signal_column(s, c, p).len()
            } else {
                6
            })
            &&& !(s.look.viz_mode is Off) ==> player_frame(s, ui, c).len() == 2 + block_lines(s, ui, c, p).len() + 1
                + (if ui.message() is Some {
                1int
            } else {
                3int
            }) + 2 + c.viz@.len()
        }),
{
}

/// A time summed up in hours and minutes.
pub open spec fn total_words(total: nat) -> Seq<char> {
    if total / 3600 > 0 {
        "~"@ + text::dec(total / 3600) + "h "@ + frame::dec2(total % 3600 / 60) + "m"@
    } else {
        text::dec(total % 3600 / 60) + "m"@
    }
}

/// A time summed up in hours and minutes.
pub fn format_duration_total(total: u64) -> (s: String)
    ensures
        s@ == total_words(total as nat),
{
    if total / 3600 > 0 {
        let mut s: String = "~".to_owned();
        push_dec(&mut s, total / 3600);
        s.push_str("h ");
        push_dec2(&mut s, total % 3600 / 60);
        s.push_str("m");
        s
    } else {
        let mut s: String = dec_string(total % 3600 / 60);
        s.push_str("m");
        s
    }
}

/// Length of the first `n` tracks, as far as it is known, in billionths of a
/// second.
pub open spec fn length_of(cache: Seq<metadata::TrackMetaV>, n: int) -> int
    decreases n,
{
    if n <= 0 {
        0
    } else {
        length_of(cache, n - 1) + (match metadata::entry_at(cache, n - 1).duration {
            Some(d) => d as int,
            None => 0,
        })
    }
}

/// Whole seconds of a list, as far as 64 bits hold them.
pub open spec fn total_seconds(cache: Seq<metadata::TrackMetaV>, n: int) -> int {
    text::least(length_of(cache, n) / 1_000_000_000, u64::MAX as int)
}

/// Whole seconds of a list.
pub fn total_of(cache: &MetadataCache, n: usize) -> (r: u64)
    ensures
        r == total_seconds(cache@, n as int),
{
    let mut sum: u128 = 0;
    let mut i: usize = 0;
    while i < n
        invariant
            i <= n,
            sum == length_of(cache@, i as int),
            sum <= i * 0xffff_ffff_ffff_ffff,
        decreases n - i,
    {
        proof {
            assert((i + 1) * 0xffff_ffff_ffff_ffff == i * 0xffff_ffff_ffff_ffff + 0xffff_ffff_ffff_ffff)
                by (nonlinear_arith);
        }
        match cache.duration(i) {
            Some(d) => {
                sum = sum + d as u128;
            },
            None => {},
        }
        i = i + 1;
    }
    let secs: u128 = sum / 1_000_000_000;
    if secs < 0xffff_ffff_ffff_ffff {
        secs as u64
    } else {
        0xffff_ffff_ffff_ffff
    }
}

/// A text on the left, one on the right, and the window's width between them,
/// `min` spaces at least.
pub open spec fn apart(left: Seq<char>, right: Seq<char>, w: int, min: int) -> Seq<char> {
    "  "@ + left + text::spaces(
        text::most(
            text::minus(w, (2 + ansi::visible_columns(left) + ansi::visible_columns(right) + 2) as int),
            min,
        ),
    ) + right
}

fn apart_of(left: &str, right: &str, w: usize, min: usize) -> (s: String)
    ensures
        s@ == apart(left@, right@, w as int, min as int),
{
    let used: u128 = visible_len(left) as u128 + visible_len(right) as u128 + 4;
    let room: usize = if w as u128 > used {
        (w as u128 - used) as usize
    } else {
        0
    };
    let mut s: String = "  ".to_owned();
    s.push_str(left);
    push_spaces(
        &mut s,
        if room > min {
            room
        } else {
            min
        },
    );
    s.push_str(right);
    s
}

/// The line below the wordmark: how many tracks there are, and how long they
/// are.
pub open spec fn library_head(cache: Seq<metadata::TrackMetaV>, n: int, p: Palette, w: int) -> Seq<char> {
    apart(
        p.bold@ + p.fg@ + "Library"@ + p.reset@ + "  "@ + p.dim@ + text::dec(n as nat) + " tracks \u{b7} "@
            + total_words(total_seconds(cache, n) as nat) + p.reset@,
        p.fg@ + "/"@ + p.reset@ + " "@ + p.dim@ + "search"@ + p.reset@ + "   "@ + p.fg@ + "S"@ + p.reset@ + " "@
            + p.dim@ + "save"@ + p.reset@,
        w,
        1,
    )
}

fn library_head_of(cache: &MetadataCache, n: usize, p: &Palette, w: usize) -> (s: String)
    ensures
        s@ == library_head(cache@, n as int, *p, w as int),
{
    let length: String = format_duration_total(total_of(cache, n));
    let mut left: String = p.bold.to_owned();
    left.push_str(p.fg);
    left.push_str("Library");
    left.push_str(p.reset);
    left.push_str("  ");
    left.push_str(p.dim);
    push_dec(&mut left, n as u64);
    left.push_str(" tracks \u{b7} ");
    left.push_str(length.as_str());
    left.push_str(p.reset);
    let mut right: String = p.fg.to_owned();
    right.push_str("/");
    right.push_str(p.reset);
    right.push_str(" ");
    right.push_str(p.dim);
    right.push_str("search");
    right.push_str(p.reset);
    right.push_str("   ");
    right.push_str(p.fg);
    right.push_str("S");
    right.push_str(p.reset);
    right.push_str(" ");
    right.push_str(p.dim);
    right.push_str("save");
    right.push_str(p.reset);
    apart_of(left.as_str(), right.as_str(), w, 1)
}

/// Columns of the album in a row of the list.
pub open spec fn album_room(w: int) -> int {
    text::least(text::minus(w, 17) * 22 / 100, 28)
}

/// Columns of the title in a row of the list.
pub open spec fn title_room(w: int) -> int {
    text::minus(
        text::minus(w, 17),
        album_room(w) + (if album_room(w) > 0 {
            2int
        } else {
            0int
        }),
    )
}

fn rooms(w: u16) -> (r: (usize, usize))
    ensures
        r.0 == title_room(w as int),
        r.1 == album_room(w as int),
        r.0 <= 65535,
        r.1 <= 28,
{
    let avail: usize = (w as usize).saturating_sub(17);
    let album: usize = min_usize(avail * 22 / 100, 28);
    let title: usize = if album > 0 {
        avail.saturating_sub(album + 2)
    } else {
        avail
    };
    (title, album)
}

/// The line of the columns' names.
pub open spec fn column_names(p: Palette, w: int) -> Seq<char> {
    ansi::cut(
        "  "@ + p.dim@ + "#   "@ + "  "@ + text::pad_right("TITLE"@, ' ', title_room(w) as nat) + "  "@
            + text::pad_right("ALBUM"@, ' ', text::most(album_room(w), 1) as nat) + "  "@ + " TIME"@ + p.reset@,
        w,
    )
}

fn push_padded(s: &mut String, t: &str, w: usize)
    ensures
        final(s)@ == old(s)@ + text::pad_right(t@, ' ', w as nat),
{
    let ghost before = s@;
    let n: usize = char_count(t);
    s.push_str(t);
    if n < w {
        push_rep(s, ' ', w - n);
    }
    assert(s@ =~= before + text::pad_right(t@, ' ', w as nat));
}

fn column_names_of(p: &Palette, w: u16) -> (r: String)
    ensures
        r@ == column_names(*p, w as int),
{
    let (title, album) = rooms(w);
    let mut s: String = "  ".to_owned();
    s.push_str(p.dim);
    s.push_str("#   ");
    s.push_str("  ");
    push_padded(&mut s, "TITLE", title);
    s.push_str("  ");
    push_padded(
        &mut s,
        "ALBUM",
        if album > 1 {
            album
        } else {
            1
        },
    );
    s.push_str("  ");
    s.push_str(" TIME");
    s.push_str(p.reset);
    truncate_ansi(s.as_str(), w as usize)
}

/// What a row of the list calls a track: its title with the artist behind it.
pub open spec fn row_title(e: metadata::TrackMetaV, path: Seq<char>, p: Palette) -> Seq<char> {
    let title = match e.title {
        Some(t) => t,
        None => metadata::display_of(e, path),
    };
    let artist = metadata::text_or_empty(e.artist);
    if artist.len() > 0 {
        title + "  "@ + p.dim@ + artist + p.reset@
    } else {
        title
    }
}

/// A track's time in the list.
pub open spec fn row_time(e: metadata::TrackMetaV) -> Seq<char> {
    match e.duration {
        Some(d) => frame::minutes((d / 1_000_000_000) as nat),
        None => "  :  "@,
    }
}

/// The first column of a row: a mark on the track that plays, or the number.
pub open spec fn row_number(track: int, playing: bool) -> Seq<char> {
    if playing {
        "\u{25b6}   "@
    } else {
        frame::dec2((track + 1) as nat) + "  "@
    }
}

/// A row of the list, without its margin.
pub open spec fn row_body(
    e: metadata::TrackMetaV,
    path: Seq<char>,
    track: int,
    playing: bool,
    w: int,
    p: Palette,
) -> Seq<char> {
    let title = fitted(row_title(e, path, p), title_room(w));
    let album = ansi::plain_cut(metadata::text_or_empty(e.album), album_room(w));
    let time = row_time(e);
    (if playing {
        p.accent@
    } else {
        p.dim@
    }) + row_number(track, playing) + p.reset@ + "  "@ + (if playing {
        p.accent@
    } else {
        p.fg@
    }) + title + p.reset@ + text::spaces(text::minus(title_room(w), ansi::visible_columns(title) as int)) + "  "@
        + p.dim@ + album + p.reset@ + text::spaces(
        text::minus(album_room(w), ansi::visible_columns(album) as int),
    ) + "  "@ + text::spaces(text::minus(5, time.len() as int)) + p.dim@ + time + p.reset@
}

/// A row of the list: the track at a place, playing or not, under the cursor or
/// not.
pub open spec fn list_row(
    e: metadata::TrackMetaV,
    path: Seq<char>,
    track: int,
    playing: bool,
    cursor: bool,
    w: int,
    p: Palette,
) -> Seq<char> {
    let body = row_body(e, path, track, playing, w, p);
    let inner = 4 + 2 + title_room(w) + 2 + album_room(w) + (if album_room(w) > 0 {
        2int
    } else {
        0int
    }) + 5;
    ansi::cut(
        if cursor && p.cursor_bg@.len() > 0 {
            p.cursor_bg@ + "  "@ + body + text::spaces(text::minus(w, 2 + inner)) + p.reset@
        } else {
            "  "@ + body
        },
        w,
    )
}

fn row_title_of(cache: &MetadataCache, path: &str, track: usize, p: &Palette) -> (s: String)
    ensures
        s@ == row_title(metadata::entry_at(cache@, track as int), path@, *p),
{
    let mut s: String = match cache.title(track) {
        Some(t) => t,
        None => cache.display_name(track, path),
    };
    let (artist, _album) = cache.artist_album(track);
    match artist {
        Some(a) => {
            if !is_blank(a.as_str()) {
                s.push_str("  ");
                s.push_str(p.dim);
                s.push_str(a.as_str());
                s.push_str(p.reset);
            }
        },
        None => {},
    }
    s
}

fn row_time_of(cache: &MetadataCache, track: usize) -> (s: String)
    ensures
        s@ == row_time(metadata::entry_at(cache@, track as int)),
{
    match cache.duration(track) {
        Some(d) => format_minutes(d / 1_000_000_000),
        None => "  :  ".to_owned(),
    }
}

fn row_album_of(cache: &MetadataCache, track: usize, room: usize) -> (s: String)
    ensures
        s@ == ansi::plain_cut(
            metadata::text_or_empty(metadata::entry_at(cache@, track as int).album),
            room as int,
        ),
{
    let (_artist, album) = cache.artist_album(track);
    let full: String = match album {
        Some(a) => a,
        None => String::new(),
    };
    assert(full@ =~= metadata::text_or_empty(metadata::entry_at(cache@, track as int).album));
    truncate_plain(full.as_str(), room)
}

fn row_number_of(track: usize, playing: bool) -> (s: String)
    ensures
        s@ == row_number(text::least(track as int, u64::MAX - 1), playing),
{
    if playing {
        "\u{25b6}   ".to_owned()
    } else {
        let n: u64 = (track as u64).saturating_add(1);
        let mut s: String = String::new();
        push_dec2(&mut s, n);
        assert(s@ =~= frame::dec2(n as nat));
        s.push_str("  ");
        s
    }
}

fn row_body_of(cache: &MetadataCache, path: &str, track: usize, playing: bool, w: u16, p: &Palette) -> (s: String)
    ensures
        s@ == row_body(
            metadata::entry_at(cache@, track as int),
            path@,
            text::least(track as int, u64::MAX - 1),
            playing,
            w as int,
            *p,
        ),
{
    let (title_w, album_w) = rooms(w);
    let full: String = row_title_of(cache, path, track, p);
    let title: String = truncate_plain_ansi_aware(full.as_str(), title_w);
    let title_pad: usize = title_w.saturating_sub(visible_len(title.as_str()));
    let album: String = row_album_of(cache, track, album_w);
    let album_pad: usize = album_w.saturating_sub(visible_len(album.as_str()));
    let time: String = row_time_of(cache, track);
    let time_pad: usize = 5usize.saturating_sub(char_count(time.as_str()));
    let number: String = row_number_of(track, playing);
    let mut s: String = if playing {
        p.accent.to_owned()
    } else {
        p.dim.to_owned()
    };
    s.push_str(number.as_str());
    s.push_str(p.reset);
    s.push_str("  ");
    if playing {
        s.push_str(p.accent);
    } else {
        s.push_str(p.fg);
    }
    s.push_str(title.as_str());
    s.push_str(p.reset);
    push_spaces(&mut s, title_pad);
    s.push_str("  ");
    s.push_str(p.dim);
    s.push_str(album.as_str());
    s.push_str(p.reset);
    push_spaces(&mut s, album_pad);
    s.push_str("  ");
    push_spaces(&mut s, time_pad);
    s.push_str(p.dim);
    s.push_str(time.as_str());
    s.push_str(p.reset);
    s
}

fn list_row_of(
    cache: &MetadataCache,
    path: &str,
    track: usize,
    playing: bool,
    cursor: bool,
    w: u16,
    p: &Palette,
) -> (r: String)
    ensures
        r@ == list_row(
            metadata::entry_at(cache@, track as int),
            path@,
            text::least(track as int, u64::MAX - 1),
            playing,
            cursor,
            w as int,
            *p,
        ),
{
    let body: String = row_body_of(cache, path, track, playing, w, p);
    let (title_w, album_w) = rooms(w);
    let inner: usize = 4 + 2 + title_w + 2 + album_w + (if album_w > 0 {
        2
    } else {
        0
    }) + 5;
    if cursor && !is_blank(p.cursor_bg) {
        let mut s: String = p.cursor_bg.to_owned();
        s.push_str("  ");
        s.push_str(body.as_str());
        push_spaces(&mut s, (w as usize).saturating_sub(2 + inner));
        s.push_str(p.reset);
        truncate_ansi(s.as_str(), w as usize)
    } else {
        let mut s: String = "  ".to_owned();
        s.push_str(body.as_str());
        truncate_ansi(s.as_str(), w as usize)
    }
}

/// The rows of the list on the screen, `n` of them.
pub open spec fn list_rows(
    cache: Seq<metadata::TrackMetaV>,
    paths: Seq<Seq<char>>,
    l: list_view::ListV,
    current: int,
    w: int,
    n: int,
    p: Palette,
) -> Seq<(bool, Seq<char>)> {
    Seq::new(
        n as nat,
        |r: int|
            {
                let track = frame::track_at(l, l.scroll + r);
                frame::plain(
                    list_row(
                        metadata::entry_at(cache, track),
                        frame::path_at(paths, track),
                        text::least(track, u64::MAX - 1),
                        track == current,
                        l.scroll + r == l.cursor,
                        w,
                        p,
                    ),
                )
            },
    )
}

/// What the list shows: its rows, and empty ones below them; or that nothing was
/// found.
pub open spec fn list_body(ui: UiState, paths: Seq<Seq<char>>, w: int, rows: int, p: Palette) -> Seq<
    (bool, Seq<char>),
> {
    let n = paths.len() as int;
    let active = frame::searching(ui.input_mode);
    if active && frame::item_count(ui.list@, active, n) == 0 {
        seq![frame::plain("  "@ + p.dim@ + "(no matches)"@ + p.reset@)] + frame::blanks(rows - 1)
    } else {
        let count = frame::shown_count(ui.list@, active, n, rows);
        list_rows(
            ui.cache@,
            paths,
            frame::shown_list(ui.list@, active, n, rows),
            ui.queue.current as int,
            w,
            count,
            p,
        ) + frame::blanks(rows - count)
    }
}

fn write_list(w: &mut FrameWriter, ui: &mut UiState, playlist: &Vec<String>, cols: u16, rows: usize, p: &Palette)
    requires
        rows > 0,
    ensures
        final(w)@ == old(w)@ + list_body(*old(ui), text::texts(playlist@), cols as int, rows as int, *p),
        final(ui).list@ == frame::shown_list(
            old(ui).list@,
            frame::searching(old(ui).input_mode),
            playlist@.len() as int,
            rows as int,
        ),
        *final(ui) == (UiState { list: final(ui).list, ..*old(ui) }),
{
    let ghost before = w@;
    let ghost paths = text::texts(playlist@);
    assert(paths.len() == playlist@.len());
    let active: bool = search_active(&ui.input_mode);
    let count: usize = scroll_list(&mut ui.list, active, playlist.len(), rows);
    if active && ui.list.filtered_indices.len() == 0 {
        let mut s: String = "  ".to_owned();
        s.push_str(p.dim);
        s.push_str("(no matches)");
        s.push_str(p.reset);
        w.line(s.as_str());
        w.blanks(rows - 1);
        assert(w@ =~= before + list_body(*old(ui), paths, cols as int, rows as int, *p));
        return;
    }
    let ghost l = ui.list@;
    let ghost all = list_rows(ui.cache@, paths, l, ui.queue.current as int, cols as int, count as int, *p);
    let found: usize = ui.list.filtered_indices.len();
    assert(l.filtered.len() == found);
    let mut r: usize = 0;
    assert(w@ =~= before + all.take(0));
    while r < count
        invariant
            l.len(paths.len() as int) <= usize::MAX,
            paths == text::texts(playlist@),
            l == ui.list@,
            all == list_rows(ui.cache@, paths, l, ui.queue.current as int, cols as int, count as int, *p),
            r <= count,
            count <= text::minus(l.len(paths.len() as int), l.scroll),
            paths.len() == playlist@.len(),
            w@ == before + all.take(r as int),
        decreases count - r,
    {
        assert(l.scroll + r < l.len(paths.len() as int));
        let pos: usize = ui.list.scroll_offset + r;
        let track: usize = row_track(&ui.list, pos);
        let path: String = path_of(playlist, track);
        let line: String = list_row_of(
            &ui.cache,
            path.as_str(),
            track,
            track == ui.queue.current,
            pos == ui.list.cursor,
            cols,
            p,
        );
        w.line(line.as_str());
        assert(all[r as int] == frame::plain(line@));
        r = r + 1;
        assert(w@ =~= before + all.take(r as int));
    }
    assert(all.take(count as int) =~= all);
    w.blanks(rows - count);
    assert(w@ =~= before + list_body(*old(ui), paths, cols as int, rows as int, *p));
}

/// The keys of the library.
pub open spec fn library_keys() -> Seq<(&'static str, &'static str)> {
    seq![
        ("\u{21b5}", "play"),
        ("\u{2191}\u{2193}", "nav"),
        ("/", "search"),
        ("A", "queue"),
        ("D", "remove"),
        ("S", "save"),
        ("L", "close"),
    ]
}

/// The keys of the library, on one line.
pub open spec fn library_bar(p: Palette, w: int) -> Seq<char> {
    apart(hints(p, library_keys(), 7), hint(p, "?"@, "all commands"@), w, 2)
}

/// The keys of the library, on one line.
pub fn library_hint_bar(p: &Palette, term_w: usize) -> (s: String)
    ensures
        s@ == library_bar(*p, term_w as int),
{
    let mut pairs: Vec<(&str, &str)> = Vec::new();
    pairs.push(("\u{21b5}", "play"));
    pairs.push(("\u{2191}\u{2193}", "nav"));
    pairs.push(("/", "search"));
    pairs.push(("A", "queue"));
    pairs.push(("D", "remove"));
    pairs.push(("S", "save"));
    pairs.push(("L", "close"));
    assert(pairs@ =~= library_keys());
    let left: String = hints_of(p, &pairs);
    let right: String = hint_of(p, "?", "all commands");
    apart_of(left.as_str(), right.as_str(), term_w, 2)
}

/// The last line of the library: a prompt, a message, or the keys.
pub open spec fn library_footer(ui: UiState, p: Palette, w: int) -> Seq<char> {
    match ui.input_mode {
        InputMode::Search(q) => "  "@ + p.accent@ + "/"@ + p.reset@ + " "@ + q@ + p.dim@ + "_"@ + p.reset@,
        InputMode::SavePlaylist(n) => "  "@ + p.dim@ + "save as:"@ + p.reset@ + " "@ + n@ + p.dim@ + "_"@ + p.reset@,
        InputMode::Normal => match ui.message() {
            Some(m) => "  "@ + p.accent@ + m + p.reset@,
            None => if ui.tree.mode {
                "  "@ + p.dim@
                    + "[Tab] list  [\u{2190}\u{2192}] fold  [Enter] play  [/] filter  [D] remove  [L] close"@
                    + p.reset@
            } else {
                library_bar(p, w)
            },
        },
    }
}

fn library_footer_of(ui: &UiState, p: &Palette, w: usize) -> (r: String)
    ensures
        r@ == library_footer(*ui, *p, w as int),
{
    let mut s: String = "  ".to_owned();
    match &ui.input_mode {
        InputMode::Search(q) => {
            s.push_str(p.accent);
            s.push_str("/");
            s.push_str(p.reset);
            s.push_str(" ");
            s.push_str(q.as_str());
            s.push_str(p.dim);
            s.push_str("_");
            s.push_str(p.reset);
            s
        },
        InputMode::SavePlaylist(n) => {
            s.push_str(p.dim);
            s.push_str("save as:");
            s.push_str(p.reset);
            s.push_str(" ");
            s.push_str(n.as_str());
            s.push_str(p.dim);
            s.push_str("_");
            s.push_str(p.reset);
            s
        },
        InputMode::Normal => match ui.active_status() {
            Some(m) => {
                s.push_str(p.accent);
                s.push_str(m.as_str());
                s.push_str(p.reset);
                s
            },
            None => if ui.tree.mode {
                s.push_str(p.dim);
                s.push_str(
                    "[Tab] list  [\u{2190}\u{2192}] fold  [Enter] play  [/] filter  [D] remove  [L] close",
                );
                s.push_str(p.reset);
                s
            } else {
                library_hint_bar(p, w)
            },
        },
    }
}

/// Rows of the list on the screen.
pub open spec fn library_rows(ui: UiState, c: Scene) -> int {
    text::most(text::minus(c.term_h as int, 6 + ui.banner.lines), 1)
}

/// The library's frame.
pub open spec fn library_frame(ui: UiState, c: Scene, paths: Seq<Seq<char>>) -> Seq<(bool, Seq<char>)> {
    let p = theme::palette_of(ThemeKind::Minimal);
    let w = c.term_w as int;
    let rows = library_rows(ui, c);
    seq![
        frame::plain(wordmark(p)),
        frame::plain(library_head(ui.cache@, paths.len() as int, p, w)),
        frame::plain(rule(p, w)),
        frame::plain(column_names(p, w)),
    ] + (if ui.tree.mode {
        ui::tree_body(ui.tree, ui.queue.current, p, w, rows)
    } else {
        list_body(ui, paths, w, rows, p)
    }) + seq![frame::plain(rule(p, w)), frame::plain(ansi::cut(library_footer(ui, p, w), w))]
}

/// Makes the library's frame.
pub fn print_status_minimal_library(ui: &mut UiState, c: &Scene, playlist: &Vec<String>) -> (w: FrameWriter)
    requires
        old(ui).tree.wf(),
    ensures
        w@ == library_frame(*old(ui), *c, text::texts(playlist@)),
        ui::library_shown(*final(ui), *old(ui), playlist@.len() as int, library_rows(*old(ui), *c)),
        final(ui).spectro_block_intact == old(ui).spectro_block_intact,
        final(ui).tree.wf(),
{
    let p: Palette = palette(ThemeKind::Minimal);
    let cols: usize = c.term_w as usize;
    let used: u128 = 6 + ui.banner.lines as u128;
    let rows: usize = if c.term_h as u128 > used {
        (c.term_h as u128 - used) as usize
    } else {
        1
    };
    assert(text::texts(playlist@).len() == playlist@.len());
    let mut w: FrameWriter = FrameWriter::new();
    let mark: String = wordmark_anchor(&p);
    w.first_line(mark.as_str());
    let head: String = library_head_of(&ui.cache, playlist.len(), &p, cols);
    w.line(head.as_str());
    let line: String = rule_of(&p, cols);
    w.line(line.as_str());
    let names: String = column_names_of(&p, c.term_w);
    w.line(names.as_str());
    let ghost top = w@;
    assert(top =~= seq![frame::plain(mark@), frame::plain(head@), frame::plain(line@), frame::plain(names@)]);
    if ui.tree.mode {
        ui.list.last_visible_rows = rows;
        write_tree(&mut w, &mut ui.tree, ui.queue.current, &p, cols, rows);
    } else {
        write_list(&mut w, ui, playlist, c.term_w, rows, &p);
    }
    let ghost body = w@;
    let foot: String = library_footer_of(ui, &p, cols);
    let cut: String = truncate_ansi(foot.as_str(), cols);
    w.line(line.as_str());
    w.line(cut.as_str());
    assert(w@ =~= body + seq![frame::plain(line@), frame::plain(cut@)]);
    w
}

/// The library's frame is as high as the window, less the banner, where that
/// leaves room for a row.
pub proof fn library_frame_fills_the_window(ui: UiState, c: Scene, paths: Seq<Seq<char>>)
    requires
        ui.tree.wf(),
        c.term_h > 6 + ui.banner.lines,
    ensures
        library_frame(ui, c, paths).len() + ui.banner.lines == c.term_h,
{
    let p = theme::palette_of(ThemeKind::Minimal);
    let rows = library_rows(ui, c);
    if ui.tree.mode {
        assert(ui::tree_body(ui.tree, ui.queue.current, p, c.term_w as int, rows).len() == rows);
    } else {
        assert(list_body(ui, paths, c.term_w as int, rows, p).len() == rows);
    }
}

/// Whose lyrics they are, and of what kind.
pub open spec fn lyrics_by(e: metadata::TrackMetaV, pane: LyricsPane) -> Seq<char> {
    let artist = metadata::text_or_empty(e.artist);
    if pane.lyrics is None {
        artist
    } else {
        artist + (if artist.len() > 0 {
            "  \u{b7}  "@
        } else {
            Seq::empty()
        }) + (if ui::are_synced(pane) {
            "synced"@
        } else {
            "plain"@
        })
    }
}

/// The times on the right of the lyrics' heading.
pub open spec fn lyrics_times(s: PlayerState) -> Seq<char> {
    frame::minutes(PlayerState::seconds(s.track.samples_played, s.track.output_rate) as nat) + "  /  "@
        + frame::minutes(PlayerState::seconds(s.track.total_samples, s.track.sample_rate) as nat)
}

/// The line below the wordmark: the title, whose lyrics they are, and the times.
pub open spec fn lyrics_head(s: PlayerState, ui: UiState, name: Seq<char>, p: Palette, w: int) -> Seq<char> {
    let e = metadata::entry_at(ui.cache@, s.track.current_track as int);
    let by = lyrics_by(e, ui.lyrics);
    let times = lyrics_times(s);
    let title = ansi::plain_cut(
        heading(ui.cache@, s.track.current_track as int, name),
        text::most(text::minus(w, (2 + by.len() + 4 + times.len() + 2) as int), 8),
    );
    let left = p.bold@ + p.fg@ + title + p.reset@ + (if by.len() == 0 {
        Seq::empty()
    } else {
        "  "@
    }) + p.dim@ + by + p.reset@;
    "  "@ + left + text::spaces(
        text::most(text::minus(w, (2 + ansi::visible_columns(left) + times.len() + 2) as int), 1),
    ) + (p.accent@ + times + p.reset@)
}

fn lyrics_by_of(cache: &MetadataCache, current: usize, pane: &LyricsPane) -> (s: String)
    ensures
        s@ == lyrics_by(metadata::entry_at(cache@, current as int), *pane),
{
    let (artist, _album) = cache.artist_album(current);
    let mut s: String = match artist {
        Some(a) => a,
        None => String::new(),
    };
    let ghost head = s@;
    assert(head =~= metadata::text_or_empty(metadata::entry_at(cache@, current as int).artist));
    if pane.lyrics.is_some() {
        if !is_blank(s.as_str()) {
            s.push_str("  \u{b7}  ");
        }
        assert(s@ =~= head + (if head.len() > 0 {
            "  \u{b7}  "@
        } else {
            Seq::empty()
        }));
        if lyrics_synced(pane) {
            s.push_str("synced");
        } else {
            s.push_str("plain");
        }
    }
    s
}

fn lyrics_times_of(state: &PlayerState) -> (s: String)
    ensures
        s@ == lyrics_times(*state),
{
    let mut s: String = format_minutes(state.time_secs());
    let tot: String = format_minutes(state.total_secs());
    s.push_str("  /  ");
    s.push_str(tot.as_str());
    s
}

fn lyrics_head_of(state: &PlayerState, ui: &UiState, name: &str, p: &Palette, w: usize) -> (s: String)
    ensures
        s@ == lyrics_head(*state, *ui, name@, *p, w as int),
{
    let by: String = lyrics_by_of(&ui.cache, state.track.current_track, &ui.lyrics);
    let times: String = lyrics_times_of(state);
    let full: String = heading_of(&ui.cache, state.track.current_track, name);
    let used: u128 = char_count(by.as_str()) as u128 + char_count(times.as_str()) as u128 + 8;
    let mut room: usize = if w as u128 > used {
        (w as u128 - used) as usize
    } else {
        0
    };
    if room < 8 {
        room = 8;
    }
    let title: String = truncate_plain(full.as_str(), room);
    let mut left: String = p.bold.to_owned();
    left.push_str(p.fg);
    left.push_str(title.as_str());
    left.push_str(p.reset);
    let ghost start = left@;
    if !is_blank(by.as_str()) {
        left.push_str("  ");
    }
    assert(left@ =~= start + (if by@.len() == 0 {
        Seq::empty()
    } else {
        "  "@
    }));
    left.push_str(p.dim);
    left.push_str(by.as_str());
    left.push_str(p.reset);
    let taken: u128 = visible_len(left.as_str()) as u128 + char_count(times.as_str()) as u128 + 4;
    let gap: usize = if w as u128 > taken {
        (w as u128 - taken) as usize
    } else {
        1
    };
    let mut right: String = p.accent.to_owned();
    right.push_str(times.as_str());
    right.push_str(p.reset);
    let mut s: String = "  ".to_owned();
    s.push_str(left.as_str());
    push_spaces(&mut s, gap);
    s.push_str(right.as_str());
    s
}

/// A line of lyrics in the middle of the window.
pub open spec fn lyric_line(l: Lyrics, i: int, sung: Option<int>, w: int, p: Palette) -> (bool, Seq<char>) {
    if i < l.count() {
        let t = l.text_at(i);
        let room = text::minus(w, 4);
        frame::plain(
            ansi::cut(
                text::spaces(text::minus(w, text::least(t.len() as int, room)) / 2) + (if sung == Some(i) {
                    p.bold@ + p.accent@
                } else {
                    p.fg@
                }) + ansi::plain_cut(t, room) + p.reset@,
                w,
            ),
        )
    } else {
        frame::blank()
    }
}

/// What the lyrics view shows.
pub open spec fn lyrics_body(pane: LyricsPane, position: int, w: int, rows: int, p: Palette) -> Seq<
    (bool, Seq<char>),
> {
    match pane.lyrics {
        Some(l) => Seq::new(
            rows as nat,
            |r: int|
                lyric_line(l, frame::shown_lyrics(pane, position, rows).scroll + r, l.line_at(position), w, p),
        ),
        None => seq![
            frame::plain(
                text::spaces(text::minus(w, 21) / 2) + p.dim@ + "(no lyrics available)"@ + p.reset@,
            ),
        ] + frame::blanks(rows - 1),
    }
}

fn lyric_line_of(l: &Lyrics, i: usize, sung: Option<usize>, w: usize, p: &Palette) -> (r: String)
    requires
        i < l.count(),
    ensures
        frame::plain(r@) == lyric_line(
            *l,
            i as int,
            match sung {
                Some(k) => Some(k as int),
                None => None,
            },
            w as int,
            *p,
        ),
{
    let here: bool = match sung {
        Some(k) => k == i,
        None => false,
    };
    let t: &str = l.line_text(i);
    let room: usize = w.saturating_sub(4);
    let seen: usize = min_usize(char_count(t), room);
    let cut: String = truncate_plain(t, room);
    let mut color: String = String::new();
    if here {
        color = p.bold.to_owned();
        color.push_str(p.accent);
    } else {
        color = p.fg.to_owned();
    }
    let mut s: String = String::new();
    push_spaces(&mut s, (w - seen) / 2);
    assert(s@ =~= text::spaces((w - seen) / 2));
    s.push_str(color.as_str());
    s.push_str(cut.as_str());
    s.push_str(p.reset);
    truncate_ansi(s.as_str(), w)
}

fn write_lyrics_body(
    w: &mut FrameWriter,
    pane: &mut LyricsPane,
    position: i128,
    cols: usize,
    rows: usize,
    p: &Palette,
)
    requires
        rows > 0,
    ensures
        final(w)@ == old(w)@ + lyrics_body(*old(pane), position as int, cols as int, rows as int, *p),
        *final(pane) == frame::shown_lyrics(*old(pane), position as int, rows as int),
{
    let ghost before = w@;
    let sung: Option<usize> = scroll_lyrics(pane, position, rows);
    let ghost all = lyrics_body(*old(pane), position as int, cols as int, rows as int, *p);
    match &pane.lyrics {
        Some(l) => {
            let total: usize = l.line_count();
            let mut r: usize = 0;
            assert(w@ =~= before + all.take(0));
            while r < rows
                invariant
                    r <= rows,
                    total == l.count(),
                    pane.lyrics == Some(*l),
                    all.len() == rows,
                    forall|k: int|
                        0 <= k < rows ==> #[trigger] all[k] == lyric_line(
                            *l,
                            pane.scroll + k,
                            l.line_at(position as int),
                            cols as int,
                            *p,
                        ),
                    match sung {
                        Some(i) => l.line_at(position as int) == Some(i as int),
                        None => l.line_at(position as int) is None,
                    },
                    w@ == before + all.take(r as int),
                decreases rows - r,
            {
                let i: u128 = pane.scroll as u128 + r as u128;
                if i < total as u128 {
                    let line: String = lyric_line_of(l, i as usize, sung, cols, p);
                    w.line(line.as_str());
                    assert(all[r as int] == frame::plain(line@));
                } else {
                    w.blank();
                    assert(all[r as int] == frame::blank());
                }
                r = r + 1;
                assert(w@ =~= before + all.take(r as int));
            }
            assert(all.take(rows as int) =~= all);
        },
        None => {
            let mut s: String = String::new();
            push_spaces(&mut s, cols.saturating_sub(21) / 2);
            assert(s@ =~= text::spaces(text::minus(cols as int, 21) / 2));
            s.push_str(p.dim);
            s.push_str("(no lyrics available)");
            s.push_str(p.reset);
            w.line(s.as_str());
            w.blanks(rows - 1);
            assert(w@ =~= before + all);
        },
    }
}

/// What stands between two hints of the lyrics view.
pub open spec fn dot(p: Palette) -> Seq<char> {
    " "@ + p.dim@ + "\u{b7}"@ + p.reset@ + " "@
}

/// The keys of the lyrics view, on one line.
pub open spec fn lyrics_keys(pane: LyricsPane, p: Palette) -> Seq<char> {
    hint(p, "W/S"@, "scroll"@) + (if ui::are_synced(pane) {
        dot(p) + hint(p, "A/D"@, "sync \u{b1}0.5s"@)
    } else {
        Seq::empty()
    }) + (dot(p) + hint(p, "Y"@, "back"@)) + (if ui::are_synced(pane) && pane.offset != 0 {
        dot(p) + (p.dim@ + "offset "@ + frame::offset_words(pane.offset as int) + "s"@ + p.reset@)
    } else {
        Seq::empty()
    })
}

/// Columns that the keys of the lyrics view are taken to have, where they are
/// brought to the middle.
pub open spec fn lyrics_key_columns(pane: LyricsPane, p: Palette) -> int {
    hint_columns(p, "W/S"@, "scroll"@) + (if ui::are_synced(pane) {
        3 + hint_columns(p, "A/D"@, "sync \u{b1}0.5s"@)
    } else {
        0
    }) + 3 + hint_columns(p, "Y"@, "back"@) + (if ui::are_synced(pane) && pane.offset != 0 {
        3 + 8 + frame::offset_words(pane.offset as int).len() + 2
    } else {
        0
    })
}

/// Columns of a hint.
pub open spec fn hint_columns(p: Palette, key: Seq<char>, label: Seq<char>) -> int {
    (ansi::visible_columns(eq_ui::tinted(p.fg@, key, p)) + 1 + ansi::visible_columns(
        eq_ui::tinted(p.dim@, label, p),
    )) as int
}

fn hint_columns_of(p: &Palette, key: &str, label: &str) -> (n: u128)
    ensures
        n == hint_columns(*p, key@, label@),
        n <= 2 * usize::MAX + 1,
{
    let mut k: String = String::new();
    push_tinted(&mut k, p.fg, key, p);
    assert(k@ =~= eq_ui::tinted(p.fg@, key@, *p));
    let mut l: String = String::new();
    push_tinted(&mut l, p.dim, label, p);
    assert(l@ =~= eq_ui::tinted(p.dim@, label@, *p));
    visible_len(k.as_str()) as u128 + 1 + visible_len(l.as_str()) as u128
}

fn dotted_hint(p: &Palette, key: &str, label: &str) -> (s: String)
    ensures
        s@ == dot(*p) + hint(*p, key@, label@),
{
    let mut s: String = " ".to_owned();
    s.push_str(p.dim);
    s.push_str("\u{b7}");
    s.push_str(p.reset);
    s.push_str(" ");
    let h: String = hint_of(p, key, label);
    s.push_str(h.as_str());
    s
}

fn dotted_offset(p: &Palette, offset: i64) -> (s: String)
    ensures
        s@ == dot(*p) + (p.dim@ + "offset "@ + frame::offset_words(offset as int) + "s"@ + p.reset@),
{
    let words: String = offset_text(offset);
    let mut t: String = p.dim.to_owned();
    t.push_str("offset ");
    t.push_str(words.as_str());
    t.push_str("s");
    t.push_str(p.reset);
    let mut s: String = " ".to_owned();
    s.push_str(p.dim);
    s.push_str("\u{b7}");
    s.push_str(p.reset);
    s.push_str(" ");
    s.push_str(t.as_str());
    s
}

fn lyrics_keys_of(pane: &LyricsPane, p: &Palette) -> (s: String)
    ensures
        s@ == lyrics_keys(*pane, *p),
{
    let synced: bool = lyrics_synced(pane);
    let mut s: String = hint_of(p, "W/S", "scroll");
    let ghost a = s@;
    if synced {
        let sync: String = dotted_hint(p, "A/D", "sync \u{b1}0.5s");
        s.push_str(sync.as_str());
    }
    let ghost b = s@;
    assert(b =~= a + (if synced {
        dot(*p) + hint(*p, "A/D"@, "sync \u{b1}0.5s"@)
    } else {
        Seq::empty()
    }));
    let back: String = dotted_hint(p, "Y", "back");
    s.push_str(back.as_str());
    if synced && pane.offset != 0 {
        let offset: String = dotted_offset(p, pane.offset);
        s.push_str(offset.as_str());
    }
    assert(s@ =~= lyrics_keys(*pane, *p));
    s
}

fn lyrics_key_columns_of(pane: &LyricsPane, p: &Palette) -> (n: u128)
    ensures
        n == lyrics_key_columns(*pane, *p),
{
    let synced: bool = lyrics_synced(pane);
    let mut n: u128 = hint_columns_of(p, "W/S", "scroll") + 3 + hint_columns_of(p, "Y", "back");
    if synced {
        n = n + 3 + hint_columns_of(p, "A/D", "sync \u{b1}0.5s");
        if pane.offset != 0 {
            let words: String = offset_text(pane.offset);
            n = n + 13 + char_count(words.as_str()) as u128;
        }
    }
    n
}

/// The last line of the lyrics view: the keys, in the middle.
pub open spec fn lyrics_footer(pane: LyricsPane, p: Palette, w: int) -> Seq<char> {
    text::spaces(text::minus(w, lyrics_key_columns(pane, p)) / 2) + lyrics_keys(pane, p)
}

fn lyrics_footer_of(pane: &LyricsPane, p: &Palette, w: usize) -> (s: String)
    ensures
        s@ == lyrics_footer(*pane, *p, w as int),
{
    let n: u128 = lyrics_key_columns_of(pane, p);
    let room: usize = if w as u128 > n {
        (w as u128 - n) as usize
    } else {
        0
    };
    let keys: String = lyrics_keys_of(pane, p);
    let mut s: String = String::new();
    push_spaces(&mut s, room / 2);
    s.push_str(keys.as_str());
    assert(s@ =~= lyrics_footer(*pane, *p, w as int));
    s
}

/// Rows of the lyrics on the screen.
pub open spec fn lyrics_rows(ui: UiState, c: Scene) -> int {
    text::most(text::minus(text::most(text::minus(c.term_h as int, 5 + ui.banner.lines), 1), 1), 1)
}

/// The lyrics view's frame.
pub open spec fn lyrics_frame(s: PlayerState, ui: UiState, c: Scene) -> Seq<(bool, Seq<char>)> {
    let p = theme::palette_of(ThemeKind::Minimal);
    let w = c.term_w as int;
    seq![
        frame::plain(wordmark(p)),
        frame::plain(lyrics_head(s, ui, c.name@, p, w)),
        frame::plain(rule(p, w)),
        frame::blank(),
    ] + lyrics_body(
        ui.lyrics,
        frame::lyrics_position(s, ui.lyrics.offset as int),
        w,
        lyrics_rows(ui, c),
        p,
    ) + seq![frame::blank(), frame::plain(lyrics_footer(ui.lyrics, p, w))]
}

/// Makes the lyrics view's frame.
pub fn print_status_minimal_lyrics(state: &PlayerState, ui: &mut UiState, c: &Scene) -> (w: FrameWriter)
    ensures
        w@ == lyrics_frame(*state, *old(ui), *c),
        *final(ui) == (UiState {
            lyrics: frame::shown_lyrics(
                old(ui).lyrics,
                frame::lyrics_position(*state, old(ui).lyrics.offset as int),
                lyrics_rows(*old(ui), *c),
            ),
            ..*old(ui)
        }),
{
    let p: Palette = palette(ThemeKind::Minimal);
    let cols: usize = c.term_w as usize;
    let used: u128 = 6 + ui.banner.lines as u128;
    let rows: usize = if c.term_h as u128 > used {
        (c.term_h as u128 - used) as usize
    } else {
        1
    };
    let position: i128 = position_of(state, ui.lyrics.offset);
    let mut w: FrameWriter = FrameWriter::new();
    let mark: String = wordmark_anchor(&p);
    w.first_line(mark.as_str());
    let head: String = lyrics_head_of(state, ui, c.name.as_str(), &p, cols);
    w.line(head.as_str());
    let line: String = rule_of(&p, cols);
    w.line(line.as_str());
    w.blank();
    let ghost top = w@;
    assert(top =~= seq![frame::plain(mark@), frame::plain(head@), frame::plain(line@), frame::blank()]);
    write_lyrics_body(&mut w, &mut ui.lyrics, position, cols, rows, &p);
    let ghost body = w@;
    let foot: String = lyrics_footer_of(&ui.lyrics, &p, cols);
    w.blank();
    w.line(foot.as_str());
    assert(w@ =~= body + seq![frame::blank(), frame::plain(foot@)]);
    w
}

} // verus!
