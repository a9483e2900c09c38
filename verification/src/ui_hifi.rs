//! The hi-fi theme's screens: boxes in the manner of a studio monitor.
use crate::ansi;
use crate::ansi::{truncate_ansi, visible_len};
use crate::frame;
use crate::frame::{
    block_char, format_minutes, khz_text, offset_text, path_of, position_of, progress_parts, row_track, scroll_list,
    scroll_lyrics, search_active, FrameWriter, Level, Scene,
};
use crate::list_view;
use crate::lyrics::Lyrics;
use crate::metadata;
use crate::metadata::MetadataCache;
use crate::state::{InputMode, PlayerState, RepeatMode};
use crate::text;
use crate::text::{char_count, chars_of, dec_string, is_blank, max_usize, min_usize, push_dec, push_dec2, push_rep, push_spaces, string_of};
use crate::theme;
use crate::theme::{palette, Palette, ThemeKind};
use crate::tree_view;
use crate::tree_view::{render_tree_body, TreeView};
use crate::ui;
use crate::ui::{lyrics_synced, number_of};
use crate::ui_minimal;
use crate::ui_minimal::total_of;
use crate::ui_state::{LyricsPane, UiState};
use vstd::prelude::*;

verus! {

/// Rows that a list or the lyrics take at most.
pub const BODY_CAP: usize = 20;

/// Columns inside the boxes.
pub open spec fn inner(w: int) -> int {
    text::most(text::least(text::minus(w, 4), 110), 60)
}

/// Columns inside the boxes.
pub fn inner_of(w: u16) -> (r: usize)
    ensures
        r == inner(w as int),
        60 <= r <= 110,
{
    let room: usize = (w as usize).saturating_sub(4);
    if room < 60 {
        60
    } else if room > 110 {
        110
    } else {
        room
    }
}

/// An edge of a box.
pub open spec fn edge(p: Palette, left: Seq<char>, c: char, right: Seq<char>, n: int) -> Seq<char> {
    "  "@ + p.fg@ + left + text::rep(c, n as nat) + right + p.reset@
}

fn edge_of(p: &Palette, left: &str, c: char, right: &str, n: usize) -> (s: String)
    ensures
        s@ == edge(*p, left@, c, right@, n as int),
{
    let mut s: String = "  ".to_owned();
    s.push_str(p.fg);
    s.push_str(left);
    push_rep(&mut s, c, n);
    s.push_str(right);
    s.push_str(p.reset);
    s
}

/// Upper edge of the header.
pub open spec fn header_top(p: Palette, n: int) -> Seq<char> {
    edge(p, "\u{2554}"@, '\u{2550}', "\u{2557}"@, n)
}

/// Lower edge of the header.
pub open spec fn header_bottom(p: Palette, n: int) -> Seq<char> {
    edge(p, "\u{255a}"@, '\u{2550}', "\u{255d}"@, n)
}

/// Upper edge of a box.
pub open spec fn box_top(p: Palette, n: int) -> Seq<char> {
    edge(p, "\u{250c}"@, '\u{2500}', "\u{2510}"@, n)
}

/// Lower edge of a box.
pub open spec fn box_bottom(p: Palette, n: int) -> Seq<char> {
    edge(p, "\u{2514}"@, '\u{2500}', "\u{2518}"@, n)
}

/// A row of the header: something on the left, something on the right.
pub open spec fn header_row(p: Palette, left: Seq<char>, right: Seq<char>, n: int) -> Seq<char> {
    "  "@ + p.fg@ + "\u{2551}"@ + p.reset@ + " "@ + left + text::spaces(
        text::most(
            text::minus(n - 2, (ansi::visible_columns(left) + ansi::visible_columns(right)) as int),
            2,
        ),
    ) + right + " "@ + p.fg@ + "\u{2551}"@ + p.reset@
}

fn header_row_of(p: &Palette, left: &str, right: &str, n: usize) -> (s: String)
    requires
        n >= 2,
    ensures
        s@ == header_row(*p, left@, right@, n as int),
{
    let used: u128 = visible_len(left) as u128 + visible_len(right) as u128;
    let gap: usize = if (n - 2) as u128 > used + 2 {
        ((n - 2) as u128 - used) as usize
    } else {
        2
    };
    let mut s: String = "  ".to_owned();
    s.push_str(p.fg);
    s.push_str("\u{2551}");
    s.push_str(p.reset);
    s.push_str(" ");
    s.push_str(left);
    push_spaces(&mut s, gap);
    s.push_str(right);
    s.push_str(" ");
    s.push_str(p.fg);
    s.push_str("\u{2551}");
    s.push_str(p.reset);
    s
}

/// A row of a box.
pub open spec fn box_row(p: Palette, content: Seq<char>) -> Seq<char> {
    "  "@ + p.fg@ + "\u{2502}"@ + p.reset@ + content + p.fg@ + "\u{2502}"@ + p.reset@
}

fn box_row_of(p: &Palette, content: &str) -> (s: String)
    ensures
        s@ == box_row(*p, content@),
{
    let mut s: String = "  ".to_owned();
    s.push_str(p.fg);
    s.push_str("\u{2502}");
    s.push_str(p.reset);
    s.push_str(content);
    s.push_str(p.fg);
    s.push_str("\u{2502}");
    s.push_str(p.reset);
    s
}

/// `s` padded out with spaces to `w` characters, or cut to them with an
/// ellipsis.
pub open spec fn sized(s: Seq<char>, w: int) -> Seq<char> {
    if s.len() <= w {
        s + text::spaces(w - s.len())
    } else if w > 1 {
        s.take(w - 1).push('\u{2026}')
    } else {
        s.take(w)
    }
}

/// `s` padded out with spaces to `width` characters, or cut to them with an
/// ellipsis.
pub fn pad_or_truncate(s: &str, width: usize) -> (r: String)
    ensures
        r@ == sized(s@, width as int),
{
    let v: Vec<char> = chars_of(s);
    if v.len() <= width {
        let mut r: String = s.to_owned();
        push_spaces(&mut r, width - v.len());
        r
    } else if width > 1 {
        let mut r: String = string_of(&v, 0, width - 1);
        r.push('\u{2026}');
        assert(r@ =~= sized(s@, width as int));
        r
    } else {
        let r: String = string_of(&v, 0, width);
        assert(r@ =~= sized(s@, width as int));
        r
    }
}

/// A sized text has as many characters as it was asked for.
pub proof fn sized_text_has_its_size(s: Seq<char>, w: int)
    requires
        0 <= w,
    ensures
        sized(s, w).len() == w,
        s.len() <= w ==> sized(s, w).take(s.len() as int) == s,
{
    assert(s.len() <= w ==> sized(s, w).take(s.len() as int) =~= s);
}

/// How the header calls the way a playlist is repeated.
pub open spec fn repeat_words(m: RepeatMode) -> Seq<char> {
    match m {
        RepeatMode::Off => "RPT-OFF"@,
        RepeatMode::One => "RPT-ONE"@,
        RepeatMode::All => "RPT-ALL"@,
    }
}

/// How the header calls the way a playlist is repeated.
pub fn repeat_short(mode: RepeatMode) -> (r: &'static str)
    ensures
        r@ == repeat_words(mode),
{
    match mode {
        RepeatMode::Off => "RPT-OFF",
        RepeatMode::One => "RPT-ONE",
        RepeatMode::All => "RPT-ALL",
    }
}

/// The marks of the scale: where they stand, in hundredths of the meter.
pub open spec fn scale_marks() -> Seq<(&'static str, usize)> {
    seq![("-\u{221e}", 0usize), ("-30", 20usize), ("-20", 40usize), ("-12", 60usize), ("-6", 75usize), ("-3", 85usize), ("0dB", 100usize)]
}

/// Column of a mark: the last one ends with the meter.
pub open spec fn mark_column(i: int, w: int) -> int {
    if i == 6 {
        text::minus(w, scale_marks()[6].0@.len() as int)
    } else {
        scale_marks()[i].1 * w / 100
    }
}

/// Columns that the first `n` marks take.
pub open spec fn scale_columns(n: int, w: int) -> int
    decreases n,
{
    if n <= 0 {
        0
    } else {
        text::most(scale_columns(n - 1, w), mark_column(n - 1, w)) + scale_marks()[n - 1].0@.len()
    }
}

/// The first `n` marks of the scale, each at its column or right behind the one
/// before.
pub open spec fn scale(n: int, w: int, p: Palette) -> Seq<char>
    decreases n,
{
    if n <= 0 {
        Seq::empty()
    } else {
        scale(n - 1, w, p) + text::spaces(
            text::minus(mark_column(n - 1, w), scale_columns(n - 1, w)),
        ) + (if n == 7 {
            p.danger@
        } else {
            p.dim@
        }) + scale_marks()[n - 1].0@ + p.reset@
    }
}

/// The scale below the meters.
pub fn render_db_scale(meter_w: usize, p: &Palette) -> (out: String)
    requires
        meter_w <= 0xffff,
    ensures
        out@ == scale(7, meter_w as int, *p),
{
    let mut marks: Vec<(&str, usize)> = Vec::new();
    marks.push(("-\u{221e}", 0));
    marks.push(("-30", 20));
    marks.push(("-20", 40));
    marks.push(("-12", 60));
    marks.push(("-6", 75));
    marks.push(("-3", 85));
    marks.push(("0dB", 100));
    assert(marks@ =~= scale_marks());
    let mut out: String = String::new();
    let mut placed: u128 = 0;
    let mut i: usize = 0;
    assert(out@ =~= scale(0, meter_w as int, *p));
    while i < 7
        invariant
            i <= 7,
            meter_w <= 0xffff,
            marks@ == scale_marks(),
            placed == scale_columns(i as int, meter_w as int),
            placed <= 0xffff + i * 0x1_0000_0000_0000_0000,
            out@ == scale(i as int, meter_w as int, *p),
        decreases 7 - i,
    {
        let label: &str = marks[i].0;
        let len: usize = char_count(label);
        let at: usize = marks[i].1;
        let col: usize = if i == 6 {
            meter_w.saturating_sub(len)
        } else {
            assert(at <= 100);
            assert(at * meter_w <= 100 * 0xffff) by (nonlinear_arith)
                requires
                    0 <= at <= 100,
                    0 <= meter_w <= 0xffff,
            ;
            at * meter_w / 100
        };
        assert(col == mark_column(i as int, meter_w as int));
        let ghost start = out@;
        if col as u128 > placed {
            push_spaces(&mut out, (col as u128 - placed) as usize);
            placed = col as u128;
        }
        assert(out@ =~= start + text::spaces(
            text::minus(mark_column(i as int, meter_w as int), scale_columns(i as int, meter_w as int)),
        ));
        if i == 6 {
            out.push_str(p.danger);
        } else {
            out.push_str(p.dim);
        }
        out.push_str(label);
        out.push_str(p.reset);
        placed = placed + len as u128;
        i = i + 1;
    }
    out
}

/// The glyph and the colour of a column of a meter.
pub open spec fn meter_cell(level: Level, w: int, i: int, p: Palette) -> Seq<char> {
    let hot = i >= w * 85 / 100;
    if i < level.filled {
        (if hot {
            p.danger@
        } else {
            p.accent@
        }).push('\u{2588}')
    } else if i == level.peak && level.peak >= level.filled {
        (if hot {
            p.danger@
        } else {
            p.fg@
        }).push('\u{2588}')
    } else {
        p.rule@.push('\u{b7}')
    }
}

/// The first `n` columns of a meter.
pub open spec fn meter_cells(level: Level, w: int, n: int, p: Palette) -> Seq<char>
    decreases n,
{
    if n <= 0 {
        Seq::empty()
    } else {
        meter_cells(level, w, n - 1, p) + meter_cell(level, w, n - 1, p)
    }
}

/// A meter of eight columns at least.
pub open spec fn meter(level: Level, width: int, p: Palette) -> Seq<char> {
    meter_cells(level, text::most(width, 8), text::most(width, 8), p) + p.reset@
}

/// A meter of eight columns at least: what is filled, a mark at the peak, and
/// from 85 hundredths on the colour of danger.
pub fn vu_bar(level: Level, width: usize, p: &Palette) -> (bar: String)
    requires
        width <= 0xffff,
    ensures
        bar@ == meter(level, width as int, *p),
{
    let w: usize = if width > 8 {
        width
    } else {
        8
    };
    let hot_from: usize = w * 85 / 100;
    let mut bar: String = String::new();
    let mut i: usize = 0;
    assert(bar@ =~= meter_cells(level, w as int, 0, *p));
    while i < w
        invariant
            i <= w,
            hot_from == w * 85 / 100,
            bar@ == meter_cells(level, w as int, i as int, *p),
        decreases w - i,
    {
        let ghost start = bar@;
        if i < level.filled {
            if i >= hot_from {
                bar.push_str(p.danger);
            } else {
                bar.push_str(p.accent);
            }
            bar.push('\u{2588}');
        } else if i == level.peak && level.peak >= level.filled {
            if i >= hot_from {
                bar.push_str(p.danger);
            } else {
                bar.push_str(p.fg);
            }
            bar.push('\u{2588}');
        } else {
            bar.push_str(p.rule);
            bar.push('\u{b7}');
        }
        assert(bar@ =~= start + meter_cell(level, w as int, i as int, *p));
        i = i + 1;
    }
    bar.push_str(p.reset);
    bar
}

/// A bar filled by eighths of a column on a solid rail. The part of the cell
/// between them that is not filled has the rail's colour.
pub open spec fn solid_bar(parts: int, width: int) -> Seq<char> {
    let full = parts / 8;
    let part = parts % 8;
    let split = full < width && part > 0;
    let rail = text::minus(
        width,
        full + (if split {
            1int
        } else {
            0int
        }),
    );
    text::rep('\u{2588}', text::least(full, width) as nat) + (if split {
        "\x1B[48;2;122;94;58m"@ + seq![frame::block_part(part - 1)] + "\x1B[49m"@
    } else {
        Seq::empty()
    }) + (if rail > 0 {
        "\x1B[38;2;122;94;58m"@ + text::rep('\u{2588}', rail as nat)
    } else {
        Seq::empty()
    })
}

/// A bar filled by eighths of a column on a solid rail.
pub fn render_solid_bar(parts: u32, width: u32) -> (s: String)
    ensures
        s@ == solid_bar(parts as int, width as int),
{
    let full: u32 = parts / 8;
    let part: u32 = parts % 8;
    let split: bool = full < width && part > 0;
    let mut s: String = String::new();
    push_rep(
        &mut s,
        '\u{2588}',
        if full < width {
            full as usize
        } else {
            width as usize
        },
    );
    if split {
        s.push_str("\x1B[48;2;122;94;58m");
        s.push(block_char(part - 1));
        s.push_str("\x1B[49m");
    }
    let used: u32 = full + (if split {
        1
    } else {
        0
    });
    if width > used {
        s.push_str("\x1B[38;2;122;94;58m");
        push_rep(&mut s, '\u{2588}', (width - used) as usize);
    }
    assert(s@ =~= solid_bar(parts as int, width as int));
    s
}

/// A key and what it does.
pub open spec fn key_hint(p: Palette, key: Seq<char>, label: Seq<char>) -> Seq<char> {
    p.accent@ + key + p.reset@ + " "@ + p.dim@ + label + p.reset@
}

/// What stands between two hints.
pub open spec fn dot(p: Palette) -> Seq<char> {
    " "@ + p.dim@ + "\u{b7}"@ + p.reset@ + " "@
}

/// The first `n` hints, with dots between them.
pub open spec fn marquee(p: Palette, pairs: Seq<(&str, &str)>, n: int) -> Seq<char>
    decreases n,
{
    if n <= 0 {
        "  "@
    } else if n == 1 {
        "  "@ + key_hint(p, pairs[0].0@, pairs[0].1@)
    } else {
        marquee(p, pairs, n - 1) + dot(p) + key_hint(p, pairs[n - 1].0@, pairs[n - 1].1@)
    }
}

fn key_hint_of(p: &Palette, key: &str, label: &str) -> (s: String)
    ensures
        s@ == key_hint(*p, key@, label@),
{
    let mut s: String = p.accent.to_owned();
    s.push_str(key);
    s.push_str(p.reset);
    s.push_str(" ");
    s.push_str(p.dim);
    s.push_str(label);
    s.push_str(p.reset);
    s
}

fn dot_of(p: &Palette) -> (s: String)
    ensures
        s@ == dot(*p),
{
    let mut s: String = " ".to_owned();
    s.push_str(p.dim);
    s.push_str("\u{b7}");
    s.push_str(p.reset);
    s.push_str(" ");
    s
}

fn marquee_of(p: &Palette, pairs: &Vec<(&str, &str)>) -> (s: String)
    ensures
        s@ == marquee(*p, pairs@, pairs@.len() as int),
{
    let between: String = dot_of(p);
    let mut s: String = "  ".to_owned();
    let mut i: usize = 0;
    while i < pairs.len()
        invariant
            i <= pairs@.len(),
            between@ == dot(*p),
            s@ == marquee(*p, pairs@, i as int),
        decreases pairs@.len() - i,
    {
        let one: String = key_hint_of(p, pairs[i].0, pairs[i].1);
        if i > 0 {
            s.push_str(between.as_str());
        }
        s.push_str(one.as_str());
        i = i + 1;
    }
    s
}

/// The keys of the player's screen.
pub open spec fn player_keys() -> Seq<(&'static str, &'static str)> {
    seq![
        ("\u{2423}", "PLAY"),
        ("\u{2190}\u{2192}", "SEEK"),
        ("\u{2191}\u{2193}", "TRACK"),
        ("+/\u{2212}", "VOL"),
        ("E", "EQ"),
        ("X", "FX"),
        ("V", "VIZ"),
        ("L", "LIB"),
        ("Y", "LYRICS"),
        ("T", "THEME"),
    ]
}

/// The keys of the player's screen, on one line.
pub fn hifi_marquee_keys(p: &Palette) -> (s: String)
    ensures
        s@ == marquee(*p, player_keys(), 10),
{
    let mut pairs: Vec<(&str, &str)> = Vec::new();
    pairs.push(("\u{2423}", "PLAY"));
    pairs.push(("\u{2190}\u{2192}", "SEEK"));
    pairs.push(("\u{2191}\u{2193}", "TRACK"));
    pairs.push(("+/\u{2212}", "VOL"));
    pairs.push(("E", "EQ"));
    pairs.push(("X", "FX"));
    pairs.push(("V", "VIZ"));
    pairs.push(("L", "LIB"));
    pairs.push(("Y", "LYRICS"));
    pairs.push(("T", "THEME"));
    assert(pairs@ =~= player_keys());
    marquee_of(p, &pairs)
}

/// The keys of the library.
pub open spec fn library_keys() -> Seq<(&'static str, &'static str)> {
    seq![
        ("\u{21b5}", "PLAY"),
        ("\u{2191}\u{2193}", "NAV"),
        ("/", "SEARCH"),
        ("A", "QUEUE"),
        ("D", "REMOVE"),
        ("S", "SAVE"),
        ("L", "CLOSE"),
    ]
}

/// The keys of the library, on one line.
pub fn hifi_library_marquee(p: &Palette) -> (s: String)
    ensures
        s@ == marquee(*p, library_keys(), 7),
{
    let mut pairs: Vec<(&str, &str)> = Vec::new();
    pairs.push(("\u{21b5}", "PLAY"));
    pairs.push(("\u{2191}\u{2193}", "NAV"));
    pairs.push(("/", "SEARCH"));
    pairs.push(("A", "QUEUE"));
    pairs.push(("D", "REMOVE"));
    pairs.push(("S", "SAVE"));
    pairs.push(("L", "CLOSE"));
    assert(pairs@ =~= library_keys());
    marquee_of(p, &pairs)
}

/// The header's left side: the name, whether it plays, in which order, and what
/// is repeated.
pub open spec fn player_left(s: PlayerState, shuffle: bool, p: Palette) -> Seq<char> {
    p.accent@ + p.bold@ + "K E E T"@ + p.reset@ + "  "@ + p.dim@ + "\u{2502}"@ + p.reset@ + "  "@ + p.accent@
        + (if s.transport.paused {
        "\u{23f8} PAUSE"@
    } else {
        "\u{25b6} PLAY"@
    }) + p.reset@ + "  "@ + p.dim@ + "\u{b7}"@ + p.reset@ + "  "@ + (if shuffle {
        p.fg@
    } else {
        p.dim@
    }) + "SHUFFLE"@ + p.reset@ + "  "@ + p.dim@ + "\u{b7}"@ + p.reset@ + "  "@ + (if s.transport.repeat_mode is Off {
        p.dim@
    } else {
        p.fg@
    }) + repeat_words(s.transport.repeat_mode) + p.reset@
}

/// The header's right side: the track's place in the list.
pub open spec fn player_right(s: PlayerState, p: Palette) -> Seq<char> {
    p.dim@ + "TRACK"@ + p.reset@ + " "@ + p.fg@ + frame::dec2(ui::track_number(s)) + p.reset@ + " "@ + p.dim@
        + "/ "@ + text::dec(s.track.total_tracks as nat) + p.reset@
}

fn player_left_of(state: &PlayerState, shuffle: bool, p: &Palette) -> (s: String)
    ensures
        s@ == player_left(*state, shuffle, *p),
{
    let mut s: String = p.accent.to_owned();
    s.push_str(p.bold);
    s.push_str("K E E T");
    s.push_str(p.reset);
    s.push_str("  ");
    s.push_str(p.dim);
    s.push_str("\u{2502}");
    s.push_str(p.reset);
    s.push_str("  ");
    s.push_str(p.accent);
    if state.transport.paused {
        s.push_str("\u{23f8} PAUSE");
    } else {
        s.push_str("\u{25b6} PLAY");
    }
    s.push_str(p.reset);
    s.push_str("  ");
    s.push_str(p.dim);
    s.push_str("\u{b7}");
    s.push_str(p.reset);
    s.push_str("  ");
    if shuffle {
        s.push_str(p.fg);
    } else {
        s.push_str(p.dim);
    }
    s.push_str("SHUFFLE");
    s.push_str(p.reset);
    s.push_str("  ");
    s.push_str(p.dim);
    s.push_str("\u{b7}");
    s.push_str(p.reset);
    s.push_str("  ");
    if state.transport.repeat_mode == RepeatMode::Off {
        s.push_str(p.dim);
    } else {
        s.push_str(p.fg);
    }
    s.push_str(repeat_short(state.transport.repeat_mode));
    s.push_str(p.reset);
    s
}

fn player_right_of(state: &PlayerState, p: &Palette) -> (s: String)
    ensures
        s@ == player_right(*state, *p),
{
    let mut s: String = p.dim.to_owned();
    s.push_str("TRACK");
    s.push_str(p.reset);
    s.push_str(" ");
    s.push_str(p.fg);
    push_dec2(&mut s, number_of(state));
    s.push_str(p.reset);
    s.push_str(" ");
    s.push_str(p.dim);
    s.push_str("/ ");
    push_dec(&mut s, state.track.total_tracks as u64);
    s.push_str(p.reset);
    s
}

/// A part in capitals, with a separator where something stands before it.
pub open spec fn with_part(s: Seq<char>, part: Seq<char>) -> Seq<char> {
    if s.len() > 0 {
        s + "  \u{b7}  "@ + part
    } else {
        part
    }
}

/// What the track is: artist, album, depth and rates.
pub open spec fn track_words(s: PlayerState, e: metadata::TrackMetaV) -> Seq<char> {
    let artist = match e.artist {
        Some(a) => text::uppercase(a),
        None => Seq::empty(),
    };
    let album = match e.album {
        Some(a) => with_part(artist, text::uppercase(a)),
        None => artist,
    };
    with_part(album, rate_words(s))
}

/// Depth and rates.
pub open spec fn rate_words(s: PlayerState) -> Seq<char> {
    text::dec(s.track.bits_per_sample as nat) + "-BIT "@ + frame::khz(s.track.sample_rate) + (if s.track.sample_rate
        == s.track.output_rate {
        Seq::empty()
    } else {
        "\u{2192}"@ + frame::khz(s.track.output_rate)
    }) + "K"@
}

fn push_part(s: &mut String, part: &str)
    ensures
        final(s)@ == with_part(old(s)@, part@),
{
    let ghost before = s@;
    if !is_blank(s.as_str()) {
        s.push_str("  \u{b7}  ");
    }
    s.push_str(part);
    assert(s@ =~= with_part(before, part@));
}

fn track_words_of(state: &PlayerState, cache: &MetadataCache) -> (s: String)
    ensures
        s@ == track_words(*state, metadata::entry_at(cache@, state.track.current_track as int)),
{
    let (artist, album) = cache.artist_album(state.track.current_track);
    let mut s: String = match artist {
        Some(a) => a.as_str().to_uppercase(),
        None => String::new(),
    };
    let ghost e = metadata::entry_at(cache@, state.track.current_track as int);
    assert(s@ =~= match e.artist {
        Some(a) => text::uppercase(a),
        None => Seq::empty(),
    });
    match album {
        Some(a) => {
            let up: String = a.as_str().to_uppercase();
            push_part(&mut s, up.as_str());
        },
        None => {},
    }
    let mut rate: String = dec_string(state.track.bits_per_sample as u64);
    rate.push_str("-BIT ");
    rate.push_str(khz_text(state.track.sample_rate).as_str());
    let ghost half = rate@;
    if state.track.sample_rate != state.track.output_rate {
        rate.push_str("\u{2192}");
        rate.push_str(khz_text(state.track.output_rate).as_str());
    }
    assert(rate@ =~= half + (if state.track.sample_rate == state.track.output_rate {
        Seq::empty()
    } else {
        "\u{2192}"@ + frame::khz(state.track.output_rate)
    }));
    rate.push_str("K");
    push_part(&mut s, rate.as_str());
    s
}

/// The transport: a box with the time, and beside it what plays and how far it
/// is.
pub open spec fn transport_lines(
    s: PlayerState,
    cache: Seq<metadata::TrackMetaV>,
    c: Scene,
    p: Palette,
    n: int,
) -> Seq<Seq<char>> {
    let current = s.track.current_track as int;
    let cur = frame::minutes(PlayerState::seconds(s.track.samples_played, s.track.output_rate) as nat);
    let tot = frame::minutes(PlayerState::seconds(s.track.total_samples, s.track.sample_rate) as nat);
    let room = text::most(text::minus(n, 15), 20);
    let width = text::most(text::minus(room, (tot.len() + 4) as int), 20);
    seq![
        "  "@ + p.fg@ + "\u{250c}"@ + text::rep('\u{2500}', 9) + "\u{2510}"@ + p.reset@ + "    "@ + p.accent@ + p.bold@
            + sized(text::uppercase(ui_minimal::heading(cache, current, c.name@)), room) + p.reset@,
        "  "@ + p.fg@ + "\u{2502}"@ + p.reset@ + p.accent@ + p.bold@ + sized(" "@ + cur + " "@, 9) + p.reset@ + p.fg@
            + "\u{2502}"@ + p.reset@ + "    "@ + p.dim@ + sized(
            track_words(s, metadata::entry_at(cache, current)),
            room,
        ) + p.reset@,
        "  "@ + p.fg@ + "\u{2514}"@ + text::rep('\u{2500}', 9) + "\u{2518}"@ + p.reset@ + "    "@ + p.accent@ + solid_bar(
            frame::progress(s, 8 * width),
            width,
        ) + p.reset@ + "  "@ + p.dim@ + "/ "@ + tot + p.reset@,
    ]
}

fn title_line(state: &PlayerState, cache: &MetadataCache, c: &Scene, p: &Palette, n: usize) -> (s: String)
    requires
        n <= 1000,
    ensures
        s@ == transport_lines(*state, cache@, *c, *p, n as int)[0],
{
    let room: usize = max_usize(n.saturating_sub(15), 20);
    let title: String = match cache.title(state.track.current_track) {
        Some(t) => t,
        None => c.name.clone(),
    };
    let up: String = title.as_str().to_uppercase();
    let shown: String = pad_or_truncate(up.as_str(), room);
    let mut s: String = "  ".to_owned();
    s.push_str(p.fg);
    s.push_str("\u{250c}");
    push_rep(&mut s, '\u{2500}', 9);
    s.push_str("\u{2510}");
    s.push_str(p.reset);
    s.push_str("    ");
    s.push_str(p.accent);
    s.push_str(p.bold);
    s.push_str(shown.as_str());
    s.push_str(p.reset);
    s
}

fn words_line(state: &PlayerState, cache: &MetadataCache, c: &Scene, p: &Palette, n: usize) -> (s: String)
    requires
        n <= 1000,
    ensures
        s@ == transport_lines(*state, cache@, *c, *p, n as int)[1],
{
    let room: usize = max_usize(n.saturating_sub(15), 20);
    let cur: String = format_minutes(state.time_secs());
    let mut spaced: String = " ".to_owned();
    spaced.push_str(cur.as_str());
    spaced.push_str(" ");
    let time: String = pad_or_truncate(spaced.as_str(), 9);
    let words: String = track_words_of(state, cache);
    let shown: String = pad_or_truncate(words.as_str(), room);
    let mut s: String = "  ".to_owned();
    s.push_str(p.fg);
    s.push_str("\u{2502}");
    s.push_str(p.reset);
    s.push_str(p.accent);
    s.push_str(p.bold);
    s.push_str(time.as_str());
    s.push_str(p.reset);
    s.push_str(p.fg);
    s.push_str("\u{2502}");
    s.push_str(p.reset);
    s.push_str("    ");
    s.push_str(p.dim);
    s.push_str(shown.as_str());
    s.push_str(p.reset);
    s
}

fn bar_line(state: &PlayerState, cache: &MetadataCache, c: &Scene, p: &Palette, n: usize) -> (s: String)
    requires
        n <= 1000,
    ensures
        s@ == transport_lines(*state, cache@, *c, *p, n as int)[2],
{
    let room: usize = max_usize(n.saturating_sub(15), 20);
    let tot: String = format_minutes(state.total_secs());
    let width: u32 = max_usize(room.saturating_sub(char_count(tot.as_str())).saturating_sub(4), 20) as u32;
    let fill: String = render_solid_bar(progress_parts(state, 8 * width), width);
    let mut s: String = "  ".to_owned();
    s.push_str(p.fg);
    s.push_str("\u{2514}");
    push_rep(&mut s, '\u{2500}', 9);
    s.push_str("\u{2518}");
    s.push_str(p.reset);
    s.push_str("    ");
    s.push_str(p.accent);
    s.push_str(fill.as_str());
    s.push_str(p.reset);
    s.push_str("  ");
    s.push_str(p.dim);
    s.push_str("/ ");
    s.push_str(tot.as_str());
    s.push_str(p.reset);
    s
}

/// Columns of the meters.
pub open spec fn meter_columns(n: int) -> int {
    text::most(text::minus(n, 8), 24)
}

/// Columns of the meters in a window.
pub fn meter_width(term_w: u16) -> (r: usize)
    ensures
        r == meter_columns(inner(term_w as int)),
{
    inner_of(term_w) - 8
}

/// The row of a meter inside its box.
pub open spec fn meter_row(name: Seq<char>, level: Level, p: Palette, n: int) -> Seq<char> {
    let w = meter_columns(n);
    box_row(
        p,
        " "@ + p.dim@ + name + p.reset@ + " "@ + meter(level, w, p) + text::spaces(text::minus(n, w + 4)) + " "@,
    )
}

/// The row of the scale inside its box.
pub open spec fn scale_row(p: Palette, n: int) -> Seq<char> {
    let marks = scale(7, meter_columns(n), p);
    box_row(
        p,
        "   "@ + marks + text::spaces(text::minus(n, (ansi::visible_columns(marks) + 4) as int)) + " "@,
    )
}

/// The panel of the meters.
pub open spec fn meter_panel(c: Scene, p: Palette, n: int) -> Seq<Seq<char>> {
    seq![
        box_top(p, n),
        box_row(p, " "@ + p.dim@ + sized("VU METER"@, n - 2) + p.reset@ + " "@),
        meter_row("L"@, c.left, p, n),
        meter_row("R"@, c.right, p, n),
        scale_row(p, n),
        box_bottom(p, n),
    ]
}

fn meter_row_of(name: &str, level: Level, p: &Palette, n: usize) -> (s: String)
    requires
        60 <= n <= 110,
    ensures
        s@ == meter_row(name@, level, *p, n as int),
{
    let fill: String = vu_bar(level, n - 8, p);
    let mut s: String = " ".to_owned();
    s.push_str(p.dim);
    s.push_str(name);
    s.push_str(p.reset);
    s.push_str(" ");
    s.push_str(fill.as_str());
    push_spaces(&mut s, 4);
    s.push_str(" ");
    box_row_of(p, s.as_str())
}

fn label_row_of(p: &Palette, n: usize) -> (s: String)
    requires
        60 <= n <= 110,
    ensures
        s@ == box_row(*p, " "@ + p.dim@ + sized("VU METER"@, n - 2) + p.reset@ + " "@),
{
    let label: String = pad_or_truncate("VU METER", n - 2);
    let mut s: String = " ".to_owned();
    s.push_str(p.dim);
    s.push_str(label.as_str());
    s.push_str(p.reset);
    s.push_str(" ");
    box_row_of(p, s.as_str())
}

fn scale_row_of(p: &Palette, n: usize) -> (s: String)
    requires
        60 <= n <= 110,
    ensures
        s@ == scale_row(*p, n as int),
{
    let marks: String = render_db_scale(n - 8, p);
    let seen: usize = visible_len(marks.as_str());
    let mut s: String = "   ".to_owned();
    s.push_str(marks.as_str());
    push_spaces(&mut s, n.saturating_sub(seen).saturating_sub(4));
    s.push_str(" ");
    box_row_of(p, s.as_str())
}

/// A value of the rack.
pub struct Knob {
    pub label: &'static str,
    pub value: String,
    /// Empty where the value has no unit.
    pub unit: &'static str,
    pub good: bool,
}

/// A value of the rack, as it is shown.
pub struct KnobV {
    pub label: Seq<char>,
    pub value: Seq<char>,
    pub unit: Seq<char>,
    pub good: bool,
}

impl View for Knob {
    type V = KnobV;

    open spec fn view(&self) -> KnobV {
        KnobV { label: self.label@, value: self.value@, unit: self.unit@, good: self.good }
    }
}

/// A row of the rack.
#[derive(Clone, Copy)]
pub enum RackRow {
    Top,
    Label,
    Value,
    Bottom,
}

/// Something in the middle of a cell, `visible` characters long, between the
/// cell's borders.
pub open spec fn cell_row(content: Seq<char>, visible: int, room: int, p: Palette) -> Seq<char> {
    let before = text::minus(room, visible) / 2;
    p.fg@ + "\u{2502}"@ + p.reset@ + text::spaces(before) + content + text::spaces(
        text::minus(room, visible + before),
    ) + p.fg@ + "\u{2502}"@ + p.reset@
}

/// A knob's value, with its unit.
pub open spec fn knob_value(k: KnobV, p: Palette) -> Seq<char> {
    p.bold@ + (if k.good {
        p.good@
    } else {
        p.accent@
    }) + k.value + p.reset@ + (if k.unit.len() == 0 {
        Seq::empty()
    } else {
        " "@ + p.dim@ + k.unit + p.reset@
    })
}

/// A row of a knob's cell.
pub open spec fn knob_cell(row: RackRow, k: KnobV, w: int, p: Palette) -> Seq<char> {
    let room = text::minus(w, 2);
    match row {
        RackRow::Top => p.fg@ + "\u{250c}"@ + text::rep('\u{2500}', room as nat) + "\u{2510}"@ + p.reset@,
        RackRow::Label => cell_row(p.dim@ + k.label + p.reset@, k.label.len() as int, room, p),
        RackRow::Value => cell_row(
            knob_value(k, p),
            k.value.len() + (if k.unit.len() == 0 {
                0int
            } else {
                (1 + k.unit.len()) as int
            }),
            room,
            p,
        ),
        RackRow::Bottom => p.fg@ + "\u{2514}"@ + text::rep('\u{2500}', room as nat) + "\u{2518}"@ + p.reset@,
    }
}

/// Columns of a knob's cell, with six of them side by side.
pub open spec fn knob_columns(n: int) -> int {
    text::least(text::most(text::minus(n, 5) / 6, 8), 14)
}

/// Columns left of the rack.
pub open spec fn rack_lead(n: int) -> int {
    2 + text::minus(n, knob_columns(n) * 6 + 5) / 2
}

/// The first `m` cells of a row of the rack.
pub open spec fn rack_row(row: RackRow, knobs: Seq<KnobV>, m: int, n: int, p: Palette) -> Seq<char>
    decreases m,
{
    if m <= 0 {
        text::spaces(rack_lead(n))
    } else {
        rack_row(row, knobs, m - 1, n, p) + (if m > 1 {
            " "@
        } else {
            Seq::empty()
        }) + knob_cell(row, knobs[m - 1], knob_columns(n), p)
    }
}

/// A balance in short.
pub open spec fn balance_short(b: int) -> Seq<char> {
    if b == 0 {
        "C"@
    } else if b < 0 {
        "L"@ + text::dec((-b) as nat)
    } else {
        "R"@ + text::dec(b as nat)
    }
}

/// The values of the rack.
pub open spec fn knobs(s: PlayerState, c: Scene) -> Seq<KnobV> {
    seq![
        KnobV { label: "VOL"@, value: text::dec(s.volume as nat), unit: "%"@, good: false },
        KnobV { label: "EQ"@, value: text::uppercase(c.eq_name@), unit: Seq::empty(), good: false },
        KnobV { label: "FX"@, value: text::uppercase(c.fx_name@), unit: Seq::empty(), good: false },
        KnobV { label: "XFEED"@, value: text::uppercase(c.cf_name@), unit: Seq::empty(), good: false },
        KnobV { label: "BAL"@, value: balance_short(s.balance as int), unit: Seq::empty(), good: false },
        KnobV {
            label: "BUF"@,
            value: text::dec(c.stats.buf_pct as nat),
            unit: "%"@,
            good: c.stats.buf_pct >= 60,
        },
    ]
}

fn balance_short_of(b: i32) -> (s: String)
    ensures
        s@ == balance_short(b as int),
{
    if b == 0 {
        "C".to_owned()
    } else if b < 0 {
        let mut s: String = "L".to_owned();
        push_dec(&mut s, (0 - b as i64) as u64);
        s
    } else {
        let mut s: String = "R".to_owned();
        push_dec(&mut s, b as u64);
        s
    }
}

/// The views of some knobs.
pub open spec fn knob_views(v: Seq<Knob>) -> Seq<KnobV> {
    v.map_values(|k: Knob| k@)
}

fn knobs_of(state: &PlayerState, c: &Scene) -> (v: Vec<Knob>)
    ensures
        v@.len() == 6,
        knob_views(v@) == knobs(*state, *c),
{
    proof {
        reveal_strlit("");
    }
    assert(""@ =~= Seq::<char>::empty());
    let mut v: Vec<Knob> = Vec::new();
    v.push(Knob { label: "VOL", value: dec_string(state.volume as u64), unit: "%", good: false });
    v.push(Knob { label: "EQ", value: c.eq_name.as_str().to_uppercase(), unit: "", good: false });
    v.push(Knob { label: "FX", value: c.fx_name.as_str().to_uppercase(), unit: "", good: false });
    v.push(Knob { label: "XFEED", value: c.cf_name.as_str().to_uppercase(), unit: "", good: false });
    v.push(Knob { label: "BAL", value: balance_short_of(state.balance), unit: "", good: false });
    v.push(
        Knob {
            label: "BUF",
            value: dec_string(c.stats.buf_pct as u64),
            unit: "%",
            good: c.stats.buf_pct >= 60,
        },
    );
    assert(knob_views(v@) =~= knobs(*state, *c));
    v
}

fn cell_row_of(content: &str, visible: u128, room: usize, p: &Palette) -> (s: String)
    requires
        visible <= 0x3_0000_0000_0000_0000,
    ensures
        s@ == cell_row(content@, visible as int, room as int, *p),
{
    let before: usize = if room as u128 > visible {
        (room as u128 - visible) as usize / 2
    } else {
        0
    };
    let taken: u128 = visible + before as u128;
    let after: usize = if room as u128 > taken {
        (room as u128 - taken) as usize
    } else {
        0
    };
    let mut s: String = p.fg.to_owned();
    s.push_str("\u{2502}");
    s.push_str(p.reset);
    push_spaces(&mut s, before);
    s.push_str(content);
    push_spaces(&mut s, after);
    s.push_str(p.fg);
    s.push_str("\u{2502}");
    s.push_str(p.reset);
    s
}

fn knob_value_of(k: &Knob, p: &Palette) -> (s: String)
    ensures
        s@ == knob_value(k@, *p),
{
    let mut s: String = p.bold.to_owned();
    if k.good {
        s.push_str(p.good);
    } else {
        s.push_str(p.accent);
    }
    s.push_str(k.value.as_str());
    s.push_str(p.reset);
    if !is_blank(k.unit) {
        s.push_str(" ");
        s.push_str(p.dim);
        s.push_str(k.unit);
        s.push_str(p.reset);
    }
    assert(s@ =~= knob_value(k@, *p));
    s
}

fn knob_cell_of(row: RackRow, k: &Knob, w: usize, p: &Palette) -> (r: String)
    ensures
        r@ == knob_cell(row, k@, w as int, *p),
{
    let room: usize = w.saturating_sub(2);
    match row {
        RackRow::Top => {
            let mut s: String = p.fg.to_owned();
            s.push_str("\u{250c}");
            push_rep(&mut s, '\u{2500}', room);
            s.push_str("\u{2510}");
            s.push_str(p.reset);
            s
        },
        RackRow::Label => {
            let mut s: String = p.dim.to_owned();
            s.push_str(k.label);
            s.push_str(p.reset);
            cell_row_of(s.as_str(), char_count(k.label) as u128, room, p)
        },
        RackRow::Value => {
            let s: String = knob_value_of(k, p);
            let unit: usize = char_count(k.unit);
            let mut seen: u128 = char_count(k.value.as_str()) as u128;
            if unit > 0 {
                seen = seen + 1 + unit as u128;
            }
            cell_row_of(s.as_str(), seen, room, p)
        },
        RackRow::Bottom => {
            let mut s: String = p.fg.to_owned();
            s.push_str("\u{2514}");
            push_rep(&mut s, '\u{2500}', room);
            s.push_str("\u{2518}");
            s.push_str(p.reset);
            s
        },
    }
}

fn rack_row_of(row: RackRow, v: &Vec<Knob>, n: usize, p: &Palette) -> (s: String)
    requires
        60 <= n <= 110,
        v@.len() == 6,
    ensures
        s@ == rack_row(row, knob_views(v@), 6, n as int, *p),
{
    let per: usize = (n - 5) / 6;
    let w: usize = if per < 8 {
        8
    } else if per > 14 {
        14
    } else {
        per
    };
    let lead: usize = 2 + n.saturating_sub(w * 6 + 5) / 2;
    let ghost kv = knob_views(v@);
    let mut s: String = String::new();
    push_spaces(&mut s, lead);
    assert(s@ =~= rack_row(row, kv, 0, n as int, *p));
    let mut i: usize = 0;
    while i < 6
        invariant
            i <= 6,
            v@.len() == 6,
            kv == knob_views(v@),
            w == knob_columns(n as int),
            s@ == rack_row(row, kv, i as int, n as int, *p),
        decreases 6 - i,
    {
        let ghost start = s@;
        if i > 0 {
            s.push_str(" ");
        }
        assert(s@ =~= start + (if i > 0 {
            " "@
        } else {
            Seq::empty()
        }));
        let one: String = knob_cell_of(row, &v[i], w, p);
        s.push_str(one.as_str());
        assert(kv[i as int] == v@[i as int]@);
        i = i + 1;
    }
    s
}

/// The last line of the player's screen: a message, or the keys.
pub open spec fn player_footer(ui: UiState, p: Palette) -> Seq<char> {
    match ui.message() {
        Some(m) => "  "@ + p.accent@ + m + p.reset@,
        None => marquee(p, player_keys(), 10),
    }
}

/// The three lines of the header.
pub open spec fn header(p: Palette, left: Seq<char>, right: Seq<char>, n: int) -> Seq<Seq<char>> {
    seq![header_top(p, n), header_row(p, left, right, n), header_bottom(p, n)]
}

/// The four lines of the rack.
pub open spec fn rack(s: PlayerState, c: Scene, p: Palette, n: int) -> Seq<Seq<char>> {
    let kv = knobs(s, c);
    seq![
        rack_row(RackRow::Top, kv, 6, n, p),
        rack_row(RackRow::Label, kv, 6, n, p),
        rack_row(RackRow::Value, kv, 6, n, p),
        rack_row(RackRow::Bottom, kv, 6, n, p),
    ]
}

/// The player's frame.
pub open spec fn player_frame(s: PlayerState, ui: UiState, c: Scene) -> Seq<(bool, Seq<char>)> {
    let p = theme::palette_of(ThemeKind::HiFi);
    let n = inner(c.term_w as int);
    let top = frame::lines_of(false, header(p, player_left(s, ui.queue.shuffle, p), player_right(s, p), n)).push(
        frame::blank(),
    );
    let deck = (top + frame::lines_of(false, transport_lines(s, ui.cache@, c, p, n))).push(frame::blank());
    let panel = (deck + frame::lines_of(false, meter_panel(c, p, n))).push(frame::blank());
    (panel + frame::lines_of(false, rack(s, c, p, n))).push(frame::blank()).push(
        frame::plain(ansi::cut(player_footer(ui, p), c.term_w as int)),
    )
}

fn write_transport(w: &mut FrameWriter, state: &PlayerState, cache: &MetadataCache, c: &Scene, p: &Palette, n: usize)
    requires
        n <= 1000,
    ensures
        final(w)@ == old(w)@ + frame::lines_of(false, transport_lines(*state, cache@, *c, *p, n as int)),
{
    let ghost before = w@;
    let a: String = title_line(state, cache, c, p, n);
    w.line(a.as_str());
    let b: String = words_line(state, cache, c, p, n);
    w.line(b.as_str());
    let d: String = bar_line(state, cache, c, p, n);
    w.line(d.as_str());
    assert(w@ =~= before + frame::lines_of(false, transport_lines(*state, cache@, *c, *p, n as int)));
}

fn write_panel(w: &mut FrameWriter, c: &Scene, p: &Palette, n: usize)
    requires
        60 <= n <= 110,
    ensures
        final(w)@ == old(w)@ + frame::lines_of(false, meter_panel(*c, *p, n as int)),
{
    let ghost before = w@;
    let top: String = edge_of(p, "\u{250c}", '\u{2500}', "\u{2510}", n);
    let label: String = label_row_of(p, n);
    let left: String = meter_row_of("L", c.left, p, n);
    let right: String = meter_row_of("R", c.right, p, n);
    let marks: String = scale_row_of(p, n);
    let bottom: String = edge_of(p, "\u{2514}", '\u{2500}', "\u{2518}", n);
    w.line(top.as_str());
    w.line(label.as_str());
    w.line(left.as_str());
    w.line(right.as_str());
    w.line(marks.as_str());
    w.line(bottom.as_str());
    assert(w@ =~= before + frame::lines_of(false, meter_panel(*c, *p, n as int)));
}

fn write_header(w: &mut FrameWriter, p: &Palette, left: &str, right: &str, n: usize)
    requires
        60 <= n <= 110,
    ensures
        final(w)@ == old(w)@ + frame::lines_of(false, header(*p, left@, right@, n as int)),
{
    let ghost before = w@;
    let top: String = edge_of(p, "\u{2554}", '\u{2550}', "\u{2557}", n);
    let row: String = header_row_of(p, left, right, n);
    let bottom: String = edge_of(p, "\u{255a}", '\u{2550}', "\u{255d}", n);
    w.first_line(top.as_str());
    w.line(row.as_str());
    w.line(bottom.as_str());
    assert(w@ =~= before + frame::lines_of(false, header(*p, left@, right@, n as int)));
}

fn write_rack(w: &mut FrameWriter, state: &PlayerState, c: &Scene, p: &Palette, n: usize)
    requires
        60 <= n <= 110,
    ensures
        final(w)@ == old(w)@ + frame::lines_of(false, rack(*state, *c, *p, n as int)),
{
    let ghost before = w@;
    let v: Vec<Knob> = knobs_of(state, c);
    let a: String = rack_row_of(RackRow::Top, &v, n, p);
    let b: String = rack_row_of(RackRow::Label, &v, n, p);
    let d: String = rack_row_of(RackRow::Value, &v, n, p);
    let e: String = rack_row_of(RackRow::Bottom, &v, n, p);
    w.line(a.as_str());
    w.line(b.as_str());
    w.line(d.as_str());
    w.line(e.as_str());
    assert(w@ =~= before + frame::lines_of(false, seq![a@, b@, d@, e@]));
}

fn player_footer_of(ui: &UiState, p: &Palette) -> (r: String)
    ensures
        r@ == player_footer(*ui, *p),
{
    match ui.active_status() {
        Some(m) => {
            let mut s: String = "  ".to_owned();
            s.push_str(p.accent);
            s.push_str(m.as_str());
            s.push_str(p.reset);
            s
        },
        None => hifi_marquee_keys(p),
    }
}

/// Makes the player's frame.
pub fn print_status_hifi(state: &PlayerState, ui: &UiState, c: &Scene) -> (w: FrameWriter)
    ensures
        w@ == player_frame(*state, *ui, *c),
{
    let p: Palette = palette(ThemeKind::HiFi);
    let n: usize = inner_of(c.term_w);
    let left: String = player_left_of(state, ui.queue.shuffle, &p);
    let right: String = player_right_of(state, &p);
    let mut w: FrameWriter = FrameWriter::new();
    write_header(&mut w, &p, left.as_str(), right.as_str(), n);
    assert(w@ =~= frame::lines_of(false, header(p, left@, right@, n as int)));
    w.blank();
    write_transport(&mut w, state, &ui.cache, c, &p, n);
    w.blank();
    write_panel(&mut w, c, &p, n);
    w.blank();
    write_rack(&mut w, state, c, &p, n);
    w.blank();
    let foot: String = player_footer_of(ui, &p);
    let cut: String = truncate_ansi(foot.as_str(), c.term_w as usize);
    w.line(cut.as_str());
    w
}

/// A time summed up in hours and minutes.
pub open spec fn total_words(total: nat) -> Seq<char> {
    if total / 3600 > 0 {
        text::dec(total / 3600) + "H "@ + frame::dec2(total % 3600 / 60) + "M"@
    } else {
        text::dec(total % 3600 / 60) + "M"@
    }
}

/// A time summed up in hours and minutes.
pub fn format_dur_short(total: u64) -> (s: String)
    ensures
        s@ == total_words(total as nat),
{
    if total / 3600 > 0 {
        let mut s: String = dec_string(total / 3600);
        s.push_str("H ");
        push_dec2(&mut s, total % 3600 / 60);
        s.push_str("M");
        s
    } else {
        let mut s: String = dec_string(total % 3600 / 60);
        s.push_str("M");
        s
    }
}

/// The left side of the library's header.
pub open spec fn library_left(p: Palette) -> Seq<char> {
    p.accent@ + p.bold@ + "L I B R A R Y"@ + p.reset@
}

/// The right side of the library's header: how many tracks there are, and how
/// long they are.
pub open spec fn library_right(cache: Seq<metadata::TrackMetaV>, n: int, p: Palette) -> Seq<char> {
    p.dim@ + text::dec(n as nat) + " TRK \u{b7} "@ + total_words(ui_minimal::total_seconds(cache, n) as nat) + p.reset@
}

/// What a row of the list calls a track, in capitals.
pub open spec fn row_title(e: metadata::TrackMetaV, path: Seq<char>) -> Seq<char> {
    text::uppercase(
        match e.title {
            Some(t) => t,
            None => metadata::display_of(e, path),
        },
    )
}

/// Characters of a track's name in a row of the list.
pub open spec fn name_room(n: int) -> int {
    text::most(text::minus(n, 15), 10)
}

/// A row of the list, without its borders.
pub open spec fn row_body(
    e: metadata::TrackMetaV,
    path: Seq<char>,
    track: int,
    playing: bool,
    n: int,
    p: Palette,
) -> Seq<char> {
    "  "@ + (if playing {
        p.accent@
    } else {
        p.dim@
    }) + (if playing {
        "\u{25b6}"@
    } else {
        " "@
    }) + p.reset@ + " "@ + p.dim@ + frame::dec2((track + 1) as nat) + p.reset@ + " "@ + (if playing {
        p.accent@
    } else {
        p.fg@
    }) + sized(row_title(e, path), name_room(n)) + p.reset@ + " "@ + p.dim@ + text::pad_left(
        ui_minimal::row_time(e),
        ' ',
        5,
    ) + p.reset@ + "  "@
}

/// A row of the list: the track at a place, playing or not, under the cursor or
/// not.
pub open spec fn list_row(
    e: metadata::TrackMetaV,
    path: Seq<char>,
    track: int,
    playing: bool,
    cursor: bool,
    n: int,
    p: Palette,
) -> Seq<char> {
    let body = row_body(e, path, track, playing, n, p);
    box_row(
        p,
        if cursor && p.cursor_bg@.len() > 0 {
            p.cursor_bg@ + body + p.reset@
        } else {
            body
        },
    )
}

fn padded_time(cache: &MetadataCache, track: usize) -> (s: String)
    ensures
        s@ == text::pad_left(ui_minimal::row_time(metadata::entry_at(cache@, track as int)), ' ', 5),
{
    let time: String = match cache.duration(track) {
        Some(d) => format_minutes(d / 1_000_000_000),
        None => "  :  ".to_owned(),
    };
    let len: usize = char_count(time.as_str());
    let mut s: String = String::new();
    if len < 5 {
        push_rep(&mut s, ' ', 5 - len);
    }
    s.push_str(time.as_str());
    assert(s@ =~= text::pad_left(time@, ' ', 5));
    s
}

fn row_body_of(cache: &MetadataCache, path: &str, track: usize, playing: bool, n: usize, p: &Palette) -> (s: String)
    ensures
        s@ == row_body(
            metadata::entry_at(cache@, track as int),
            path@,
            text::least(track as int, u64::MAX - 1),
            playing,
            n as int,
            *p,
        ),
{
    let title: String = match cache.title(track) {
        Some(t) => t,
        None => cache.display_name(track, path),
    };
    let up: String = title.as_str().to_uppercase();
    let name: String = pad_or_truncate(up.as_str(), max_usize(n.saturating_sub(15), 10));
    let time: String = padded_time(cache, track);
    let mut s: String = "  ".to_owned();
    if playing {
        s.push_str(p.accent);
        s.push_str("\u{25b6}");
    } else {
        s.push_str(p.dim);
        s.push_str(" ");
    }
    s.push_str(p.reset);
    s.push_str(" ");
    s.push_str(p.dim);
    push_dec2(&mut s, (track as u64).saturating_add(1));
    s.push_str(p.reset);
    s.push_str(" ");
    if playing {
        s.push_str(p.accent);
    } else {
        s.push_str(p.fg);
    }
    s.push_str(name.as_str());
    s.push_str(p.reset);
    s.push_str(" ");
    s.push_str(p.dim);
    s.push_str(time.as_str());
    s.push_str(p.reset);
    s.push_str("  ");
    s
}

fn list_row_of(
    cache: &MetadataCache,
    path: &str,
    track: usize,
    playing: bool,
    cursor: bool,
    n: usize,
    p: &Palette,
) -> (r: String)
    ensures
        r@ == list_row(
            metadata::entry_at(cache@, track as int),
            path@,
            text::least(track as int, u64::MAX - 1),
            playing,
            cursor,
            n as int,
            *p,
        ),
{
    let body: String = row_body_of(cache, path, track, playing, n, p);
    if cursor && !is_blank(p.cursor_bg) {
        let mut s: String = p.cursor_bg.to_owned();
        s.push_str(body.as_str());
        s.push_str(p.reset);
        box_row_of(p, s.as_str())
    } else {
        box_row_of(p, body.as_str())
    }
}

/// An empty row of a box.
pub open spec fn empty_row(p: Palette, n: int) -> Seq<char> {
    box_row(p, text::spaces(n))
}

/// Some empty rows of a box.
pub open spec fn empty_rows(p: Palette, n: int, rows: int) -> Seq<(bool, Seq<char>)> {
    Seq::new(rows as nat, |i: int| frame::plain(empty_row(p, n)))
}

fn write_empty_rows(w: &mut FrameWriter, p: &Palette, n: usize, rows: usize)
    ensures
        final(w)@ == old(w)@ + empty_rows(*p, n as int, rows as int),
{
    let ghost before = w@;
    let mut blank: String = String::new();
    push_spaces(&mut blank, n);
    assert(blank@ =~= text::spaces(n as int));
    let row: String = box_row_of(p, blank.as_str());
    let mut i: usize = 0;
    assert(w@ =~= before + empty_rows(*p, n as int, 0));
    while i < rows
        invariant
            i <= rows,
            row@ == empty_row(*p, n as int),
            w@ == before + empty_rows(*p, n as int, i as int),
        decreases rows - i,
    {
        w.line(row.as_str());
        i = i + 1;
        assert(w@ =~= before + empty_rows(*p, n as int, i as int));
    }
}

/// The rows of the list on the screen, `m` of them.
pub open spec fn list_rows(
    cache: Seq<metadata::TrackMetaV>,
    paths: Seq<Seq<char>>,
    l: list_view::ListV,
    current: int,
    n: int,
    m: int,
    p: Palette,
) -> Seq<(bool, Seq<char>)> {
    Seq::new(
        m as nat,
        |r: int|
            {
                let track = frame::track_at(l, l.scroll + r);
                frame::plain(
                    list_row(
                        metadata::entry_at(cache, track),
                        frame::path_at(paths, track),
                        text::least(track, u64::MAX - 1),
                        track == current,
                        l.scroll + r == l.cursor,
                        n,
                        p,
                    ),
                )
            },
    )
}

/// What the list shows: its rows, and empty ones below them; or that nothing was
/// found.
pub open spec fn list_body(ui: UiState, paths: Seq<Seq<char>>, n: int, rows: int, p: Palette) -> Seq<
    (bool, Seq<char>),
> {
    let total = paths.len() as int;
    let active = frame::searching(ui.input_mode);
    if active && frame::item_count(ui.list@, active, total) == 0 {
        seq![frame::plain(box_row(p, p.dim@ + sized("  (no matches)"@, n) + p.reset@))] + empty_rows(p, n, rows - 1)
    } else {
        let count = frame::shown_count(ui.list@, active, total, rows);
        list_rows(
            ui.cache@,
            paths,
            frame::shown_list(ui.list@, active, total, rows),
            ui.queue.current as int,
            n,
            count,
            p,
        ) + empty_rows(p, n, rows - count)
    }
}

fn write_list(w: &mut FrameWriter, ui: &mut UiState, playlist: &Vec<String>, n: usize, rows: usize, p: &Palette)
    requires
        rows > 0,
    ensures
        final(w)@ == old(w)@ + list_body(*old(ui), text::texts(playlist@), n as int, rows as int, *p),
        final(ui).list@ == frame::shown_list(
            old(ui).list@,
            frame::searching(old(ui).input_mode),
            playlist@.len() as int,
            rows as int,
        ),
        *final(ui) == (UiState { list: final(ui).list, ..*old(ui) }),
{
    let ghost before = w@;
    let ghost paths = text::texts(playlist@);
    assert(paths.len() == playlist@.len());
    let active: bool = search_active(&ui.input_mode);
    let count: usize = scroll_list(&mut ui.list, active, playlist.len(), rows);
    if active && ui.list.filtered_indices.len() == 0 {
        let label: String = pad_or_truncate("  (no matches)", n);
        let mut s: String = p.dim.to_owned();
        s.push_str(label.as_str());
        s.push_str(p.reset);
        let row: String = box_row_of(p, s.as_str());
        w.line(row.as_str());
        write_empty_rows(w, p, n, rows - 1);
        assert(w@ =~= before + list_body(*old(ui), paths, n as int, rows as int, *p));
        return;
    }
    let ghost l = ui.list@;
    let ghost all = list_rows(ui.cache@, paths, l, ui.queue.current as int, n as int, count as int, *p);
    let found: usize = ui.list.filtered_indices.len();
    assert(l.filtered.len() == found);
    let mut r: usize = 0;
    assert(w@ =~= before + all.take(0));
    while r < count
        invariant
            l.len(paths.len() as int) <= usize::MAX,
            paths == text::texts(playlist@),
            l == ui.list@,
            all == list_rows(ui.cache@, paths, l, ui.queue.current as int, n as int, count as int, *p),
            r <= count,
            count <= text::minus(l.len(paths.len() as int), l.scroll),
            paths.len() == playlist@.len(),
            w@ == before + all.take(r as int),
        decreases count - r,
    {
        assert(l.scroll + r < l.len(paths.len() as int));
        let pos: usize = ui.list.scroll_offset + r;
        let track: usize = row_track(&ui.list, pos);
        let path: String = path_of(playlist, track);
        let line: String = list_row_of(
            &ui.cache,
            path.as_str(),
            track,
            track == ui.queue.current,
            pos == ui.list.cursor,
            n,
            p,
        );
        w.line(line.as_str());
        assert(all[r as int] == frame::plain(line@));
        r = r + 1;
        assert(w@ =~= before + all.take(r as int));
    }
    assert(all.take(count as int) =~= all);
    write_empty_rows(w, p, n, rows - count);
    assert(w@ =~= before + list_body(*old(ui), paths, n as int, rows as int, *p));
}

/// A row of the tree in its box.
pub open spec fn tree_row(shown: TreeView, i: int, current: usize, p: Palette, n: int) -> Seq<char> {
    let line = tree_view::tree_line(shown, i, n, p, current);
    box_row(p, line + text::spaces(text::minus(n, ansi::visible_columns(line) as int)))
}

/// What the tree shows: its rows, and empty ones below them.
pub open spec fn tree_body(t: TreeView, current: usize, p: Palette, n: int, rows: int) -> Seq<(bool, Seq<char>)> {
    let shown = ui::tree_shown(t, rows);
    let m = text::least(rows, shown.rows@.len() - shown.scroll);
    Seq::new(m as nat, |i: int| frame::plain(tree_row(shown, i, current, p, n))) + empty_rows(p, n, rows - m)
}

fn write_tree(w: &mut FrameWriter, t: &mut TreeView, current: usize, p: &Palette, n: usize, rows: usize)
    requires
        old(t).wf(),
    ensures
        final(w)@ == old(w)@ + tree_body(*old(t), current, *p, n as int, rows as int),
        *final(t) == ui::tree_shown(*old(t), rows as int),
        final(t).wf(),
{
    let ghost before = w@;
    let lines: Vec<String> = render_tree_body(t, rows, n, p, current);
    let m: usize = lines.len();
    let ghost all = Seq::new(m as nat, |i: int| frame::plain(tree_row(*t, i, current, *p, n as int)));
    let mut i: usize = 0;
    assert(w@ =~= before + all.take(0));
    while i < m
        invariant
            i <= m,
            m == lines@.len(),
            all.len() == m,
            forall|k: int| 0 <= k < m ==> #[trigger] all[k] == frame::plain(tree_row(*t, k, current, *p, n as int)),
            forall|k: int|
                0 <= k < lines@.len() ==> (#[trigger] lines@[k])@ == tree_view::tree_line(*t, k, n as int, *p, current),
            w@ == before + all.take(i as int),
        decreases m - i,
    {
        let line: &str = lines[i].as_str();
        let mut s: String = line.to_owned();
        push_spaces(&mut s, n.saturating_sub(visible_len(line)));
        let row: String = box_row_of(p, s.as_str());
        w.line(row.as_str());
        assert(all[i as int] == frame::plain(row@));
        i = i + 1;
        assert(w@ =~= before + all.take(i as int));
    }
    assert(all.take(m as int) =~= all);
    write_empty_rows(w, p, n, rows - m);
    assert(w@ =~= before + tree_body(*old(t), current, *p, n as int, rows as int));
}

/// The last line of the library: a prompt, a message, or the keys.
pub open spec fn library_footer(ui: UiState, p: Palette) -> Seq<char> {
    match ui.input_mode {
        InputMode::Search(q) => "  "@ + p.accent@ + "/"@ + p.reset@ + " "@ + q@ + p.dim@ + "_"@ + p.reset@,
        InputMode::SavePlaylist(n) => "  "@ + p.dim@ + "SAVE AS:"@ + p.reset@ + " "@ + n@ + p.dim@ + "_"@ + p.reset@,
        InputMode::Normal => match ui.message() {
            Some(m) => "  "@ + p.accent@ + m + p.reset@,
            None => if ui.tree.mode {
                "  "@ + p.dim@
                    + "[TAB] LIST \u{b7} [\u{2190}\u{2192}] FOLD \u{b7} [\u{21b5}] PLAY \u{b7} [/] FILTER \u{b7} [D] REMOVE \u{b7} [L] CLOSE"@
                    + p.reset@
            } else {
                marquee(p, library_keys(), 7)
            },
        },
    }
}

fn library_footer_of(ui: &UiState, p: &Palette) -> (r: String)
    ensures
        r@ == library_footer(*ui, *p),
{
    let mut s: String = "  ".to_owned();
    match &ui.input_mode {
        InputMode::Search(q) => {
            s.push_str(p.accent);
            s.push_str("/");
            s.push_str(p.reset);
            s.push_str(" ");
            s.push_str(q.as_str());
            s.push_str(p.dim);
            s.push_str("_");
            s.push_str(p.reset);
            s
        },
        InputMode::SavePlaylist(n) => {
            s.push_str(p.dim);
            s.push_str("SAVE AS:");
            s.push_str(p.reset);
            s.push_str(" ");
            s.push_str(n.as_str());
            s.push_str(p.dim);
            s.push_str("_");
            s.push_str(p.reset);
            s
        },
        InputMode::Normal => match ui.active_status() {
            Some(m) => {
                s.push_str(p.accent);
                s.push_str(m.as_str());
                s.push_str(p.reset);
                s
            },
            None => if ui.tree.mode {
                s.push_str(p.dim);
                s.push_str(
                    "[TAB] LIST \u{b7} [\u{2190}\u{2192}] FOLD \u{b7} [\u{21b5}] PLAY \u{b7} [/] FILTER \u{b7} [D] REMOVE \u{b7} [L] CLOSE",
                );
                s.push_str(p.reset);
                s
            } else {
                hifi_library_marquee(p)
            },
        },
    }
}

/// Rows of the list on the screen.
pub open spec fn library_rows(ui: UiState, c: Scene) -> int {
    text::least(text::most(text::minus(c.term_h as int, 6 + ui.banner.lines), 1), BODY_CAP as int)
}

/// Rows of the lyrics on the screen.
pub open spec fn lyrics_rows(ui: UiState, c: Scene) -> int {
    text::least(text::most(text::minus(c.term_h as int, 7 + ui.banner.lines), 1), BODY_CAP as int)
}

fn rows_within(term_h: u16, used: u128) -> (r: usize)
    ensures
        r == text::least(text::most(text::minus(term_h as int, used as int), 1), BODY_CAP as int),
        r > 0,
{
    let room: usize = if term_h as u128 > used {
        (term_h as u128 - used) as usize
    } else {
        1
    };
    min_usize(room, BODY_CAP)
}

/// The library's frame.
pub open spec fn library_frame(ui: UiState, c: Scene, paths: Seq<Seq<char>>) -> Seq<(bool, Seq<char>)> {
    let p = theme::palette_of(ThemeKind::HiFi);
    let n = inner(c.term_w as int);
    let rows = library_rows(ui, c);
    let top = frame::lines_of(
        false,
        header(p, library_left(p), library_right(ui.cache@, paths.len() as int, p), n),
    ).push(frame::plain(box_top(p, n)));
    (top + (if ui.tree.mode {
        tree_body(ui.tree, ui.queue.current, p, n, rows)
    } else {
        list_body(ui, paths, n, rows, p)
    })).push(frame::plain(box_bottom(p, n))).push(frame::blank()).push(
        frame::plain(ansi::cut(library_footer(ui, p), c.term_w as int)),
    )
}

fn library_right_of(cache: &MetadataCache, n: usize, p: &Palette) -> (s: String)
    ensures
        s@ == library_right(cache@, n as int, *p),
{
    let length: String = format_dur_short(total_of(cache, n));
    let mut s: String = p.dim.to_owned();
    push_dec(&mut s, n as u64);
    s.push_str(" TRK \u{b7} ");
    s.push_str(length.as_str());
    s.push_str(p.reset);
    s
}

/// Makes the library's frame.
pub fn print_status_hifi_library(ui: &mut UiState, c: &Scene, playlist: &Vec<String>) -> (w: FrameWriter)
    requires
        old(ui).tree.wf(),
    ensures
        w@ == library_frame(*old(ui), *c, text::texts(playlist@)),
        ui::library_shown(*final(ui), *old(ui), playlist@.len() as int, library_rows(*old(ui), *c)),
        final(ui).spectro_block_intact == old(ui).spectro_block_intact,
        final(ui).tree.wf(),
{
    let p: Palette = palette(ThemeKind::HiFi);
    let n: usize = inner_of(c.term_w);
    let rows: usize = rows_within(c.term_h, 6 + ui.banner.lines as u128);
    assert(text::texts(playlist@).len() == playlist@.len());
    let mut left: String = p.accent.to_owned();
    left.push_str(p.bold);
    left.push_str("L I B R A R Y");
    left.push_str(p.reset);
    let right: String = library_right_of(&ui.cache, playlist.len(), &p);
    let mut w: FrameWriter = FrameWriter::new();
    write_header(&mut w, &p, left.as_str(), right.as_str(), n);
    assert(w@ =~= frame::lines_of(false, header(p, left@, right@, n as int)));
    let top: String = edge_of(&p, "\u{250c}", '\u{2500}', "\u{2510}", n);
    w.line(top.as_str());
    if ui.tree.mode {
        ui.list.last_visible_rows = rows;
        write_tree(&mut w, &mut ui.tree, ui.queue.current, &p, n, rows);
    } else {
        write_list(&mut w, ui, playlist, n, rows, &p);
    }
    let bottom: String = edge_of(&p, "\u{2514}", '\u{2500}', "\u{2518}", n);
    w.line(bottom.as_str());
    w.blank();
    let foot: String = library_footer_of(ui, &p);
    let cut: String = truncate_ansi(foot.as_str(), c.term_w as usize);
    w.line(cut.as_str());
    w
}

/// The right side of the lyrics' header: of what kind they are, and the times.
pub open spec fn lyrics_right(s: PlayerState, pane: LyricsPane, p: Palette) -> Seq<char> {
    p.dim@ + (if pane.lyrics is None {
        Seq::empty()
    } else if ui::are_synced(pane) {
        "SYNC  \u{b7}  "@
    } else {
        "PLAIN  \u{b7}  "@
    }) + ui_minimal::lyrics_times(s) + p.reset@
}

/// The left side of the lyrics' header: the title, as far as there is room.
pub open spec fn lyrics_left(title: Seq<char>, right: Seq<char>, n: int, p: Palette) -> Seq<char> {
    let full = p.accent@ + p.bold@ + title + p.reset@;
    let room = text::minus(n - 2, (ansi::visible_columns(right) + 4) as int);
    if ansi::visible_columns(full) > room {
        p.accent@ + p.bold@ + sized(title, room) + p.reset@
    } else {
        full
    }
}

fn lyrics_right_of(state: &PlayerState, pane: &LyricsPane, p: &Palette) -> (s: String)
    ensures
        s@ == lyrics_right(*state, *pane, *p),
{
    let cur: String = format_minutes(state.time_secs());
    let tot: String = format_minutes(state.total_secs());
    let mut times: String = cur;
    times.push_str("  /  ");
    times.push_str(tot.as_str());
    let mut s: String = p.dim.to_owned();
    let ghost head = s@;
    if pane.lyrics.is_some() {
        if lyrics_synced(pane) {
            s.push_str("SYNC  \u{b7}  ");
        } else {
            s.push_str("PLAIN  \u{b7}  ");
        }
    }
    assert(s@ =~= head + (if pane.lyrics is None {
        Seq::empty()
    } else if ui::are_synced(*pane) {
        "SYNC  \u{b7}  "@
    } else {
        "PLAIN  \u{b7}  "@
    }));
    s.push_str(times.as_str());
    s.push_str(p.reset);
    s
}

fn bright(title: &str, p: &Palette) -> (s: String)
    ensures
        s@ == p.accent@ + p.bold@ + title@ + p.reset@,
{
    let mut s: String = p.accent.to_owned();
    s.push_str(p.bold);
    s.push_str(title);
    s.push_str(p.reset);
    s
}

fn lyrics_left_of(title: &str, right: &str, n: usize, p: &Palette) -> (s: String)
    requires
        60 <= n <= 110,
    ensures
        s@ == lyrics_left(title@, right@, n as int, *p),
{
    let full: String = bright(title, p);
    let room: usize = (n - 2).saturating_sub(visible_len(right)).saturating_sub(4);
    if visible_len(full.as_str()) > room {
        let cut: String = pad_or_truncate(title, room);
        bright(cut.as_str(), p)
    } else {
        full
    }
}

/// A line of lyrics in its box, in capitals.
pub open spec fn lyric_line(l: Lyrics, i: int, sung: Option<int>, n: int, p: Palette) -> Seq<char> {
    if i < l.count() {
        let t = sized(text::uppercase(l.text_at(i)), text::minus(n, 10));
        box_row(
            p,
            "    "@ + (if sung == Some(i) {
                p.accent@ + p.bold@ + "\u{25b8} "@
            } else {
                p.dim@ + "  "@
            }) + t + p.reset@ + "    "@,
        )
    } else {
        empty_row(p, n)
    }
}

/// What the lyrics view shows.
pub open spec fn lyrics_body(pane: LyricsPane, position: int, n: int, rows: int, p: Palette) -> Seq<
    (bool, Seq<char>),
> {
    match pane.lyrics {
        Some(l) => Seq::new(
            rows as nat,
            |r: int|
                frame::plain(
                    lyric_line(l, frame::shown_lyrics(pane, position, rows).scroll + r, l.line_at(position), n, p),
                ),
        ),
        None => seq![frame::plain(box_row(p, p.dim@ + sized("  (NO LYRICS AVAILABLE)"@, n) + p.reset@))] + empty_rows(
            p,
            n,
            rows - 1,
        ),
    }
}

fn lyric_line_of(l: &Lyrics, i: usize, sung: Option<usize>, n: usize, p: &Palette) -> (r: String)
    requires
        i < l.count(),
    ensures
        r@ == lyric_line(
            *l,
            i as int,
            match sung {
                Some(k) => Some(k as int),
                None => None,
            },
            n as int,
            *p,
        ),
{
    let here: bool = match sung {
        Some(k) => k == i,
        None => false,
    };
    let up: String = l.line_text(i).to_uppercase();
    let t: String = pad_or_truncate(up.as_str(), n.saturating_sub(10));
    let mut lead: String = String::new();
    if here {
        lead = p.accent.to_owned();
        lead.push_str(p.bold);
        lead.push_str("\u{25b8} ");
    } else {
        lead = p.dim.to_owned();
        lead.push_str("  ");
    }
    let mut s: String = "    ".to_owned();
    s.push_str(lead.as_str());
    s.push_str(t.as_str());
    s.push_str(p.reset);
    s.push_str("    ");
    box_row_of(p, s.as_str())
}

fn write_lyrics_body(w: &mut FrameWriter, pane: &mut LyricsPane, position: i128, n: usize, rows: usize, p: &Palette)
    requires
        rows > 0,
    ensures
        final(w)@ == old(w)@ + lyrics_body(*old(pane), position as int, n as int, rows as int, *p),
        *final(pane) == frame::shown_lyrics(*old(pane), position as int, rows as int),
{
    let ghost before = w@;
    let sung: Option<usize> = scroll_lyrics(pane, position, rows);
    let ghost all = lyrics_body(*old(pane), position as int, n as int, rows as int, *p);
    let mut blank: String = String::new();
    push_spaces(&mut blank, n);
    assert(blank@ =~= text::spaces(n as int));
    let gap: String = box_row_of(p, blank.as_str());
    match &pane.lyrics {
        Some(l) => {
            let total: usize = l.line_count();
            let mut r: usize = 0;
            assert(w@ =~= before + all.take(0));
            while r < rows
                invariant
                    r <= rows,
                    total == l.count(),
                    gap@ == empty_row(*p, n as int),
                    pane.lyrics == Some(*l),
                    all.len() == rows,
                    forall|k: int|
                        0 <= k < rows ==> #[trigger] all[k] == frame::plain(
                            lyric_line(*l, pane.scroll + k, l.line_at(position as int), n as int, *p),
                        ),
                    match sung {
                        Some(i) => l.line_at(position as int) == Some(i as int),
                        None => l.line_at(position as int) is None,
                    },
                    w@ == before + all.take(r as int),
                decreases rows - r,
            {
                let i: u128 = pane.scroll as u128 + r as u128;
                if i < total as u128 {
                    let line: String = lyric_line_of(l, i as usize, sung, n, p);
                    w.line(line.as_str());
                    assert(all[r as int] == frame::plain(line@));
                } else {
                    w.line(gap.as_str());
                    assert(all[r as int] == frame::plain(gap@));
                }
                r = r + 1;
                assert(w@ =~= before + all.take(r as int));
            }
            assert(all.take(rows as int) =~= all);
        },
        None => {
            let label: String = pad_or_truncate("  (NO LYRICS AVAILABLE)", n);
            let mut s: String = p.dim.to_owned();
            s.push_str(label.as_str());
            s.push_str(p.reset);
            let row: String = box_row_of(p, s.as_str());
            w.line(row.as_str());
            write_empty_rows(w, p, n, rows - 1);
            assert(w@ =~= before + all);
        },
    }
}

/// The last line of the lyrics view.
pub open spec fn lyrics_footer(pane: LyricsPane, p: Palette) -> Seq<char> {
    "  "@ + key_hint(p, "W/S"@, "SCROLL"@) + (if ui::are_synced(pane) {
        dot(p) + key_hint(p, "A/D"@, "SYNC \u{b1}0.5s"@)
    } else {
        Seq::empty()
    }) + dot(p) + key_hint(p, "Y"@, "BACK"@) + (if ui::are_synced(pane) && pane.offset != 0 {
        dot(p) + (p.dim@ + "OFFSET "@ + frame::offset_words(pane.offset as int) + "s"@ + p.reset@)
    } else {
        Seq::empty()
    })
}

fn dotted_offset(p: &Palette, offset: i64) -> (s: String)
    ensures
        s@ == dot(*p) + (p.dim@ + "OFFSET "@ + frame::offset_words(offset as int) + "s"@ + p.reset@),
{
    let words: String = offset_text(offset);
    let mut t: String = p.dim.to_owned();
    t.push_str("OFFSET ");
    t.push_str(words.as_str());
    t.push_str("s");
    t.push_str(p.reset);
    let mut s: String = dot_of(p);
    s.push_str(t.as_str());
    s
}

fn lyrics_footer_of(pane: &LyricsPane, p: &Palette) -> (s: String)
    ensures
        s@ == lyrics_footer(*pane, *p),
{
    let synced: bool = lyrics_synced(pane);
    let between: String = dot_of(p);
    let scroll: String = key_hint_of(p, "W/S", "SCROLL");
    let back: String = key_hint_of(p, "Y", "BACK");
    let mut s: String = "  ".to_owned();
    s.push_str(scroll.as_str());
    let ghost a = s@;
    if synced {
        let mut sync: String = dot_of(p);
        let hint: String = key_hint_of(p, "A/D", "SYNC \u{b1}0.5s");
        sync.push_str(hint.as_str());
        s.push_str(sync.as_str());
    }
    assert(s@ =~= a + (if synced {
        dot(*p) + key_hint(*p, "A/D"@, "SYNC \u{b1}0.5s"@)
    } else {
        Seq::empty()
    }));
    s.push_str(between.as_str());
    s.push_str(back.as_str());
    if synced && pane.offset != 0 {
        let offset: String = dotted_offset(p, pane.offset);
        s.push_str(offset.as_str());
    }
    assert(s@ =~= lyrics_footer(*pane, *p));
    s
}

/// The lyrics view's frame.
pub open spec fn lyrics_frame(s: PlayerState, ui: UiState, c: Scene) -> Seq<(bool, Seq<char>)> {
    let p = theme::palette_of(ThemeKind::HiFi);
    let n = inner(c.term_w as int);
    let title = text::uppercase(ui_minimal::heading(ui.cache@, s.track.current_track as int, c.name@));
    let right = lyrics_right(s, ui.lyrics, p);
    let top = frame::lines_of(false, header(p, lyrics_left(title, right, n, p), right, n)).push(
        frame::plain(box_top(p, n)),
    );
    (top + lyrics_body(
        ui.lyrics,
        frame::lyrics_position(s, ui.lyrics.offset as int),
        n,
        lyrics_rows(ui, c),
        p,
    )).push(frame::plain(box_bottom(p, n))).push(frame::blank()).push(
        frame::plain(ansi::cut(lyrics_footer(ui.lyrics, p), c.term_w as int)),
    )
}

/// Makes the lyrics view's frame.
pub fn print_status_hifi_lyrics(state: &PlayerState, ui: &mut UiState, c: &Scene) -> (w: FrameWriter)
    ensures
        w@ == lyrics_frame(*state, *old(ui), *c),
        *final(ui) == (UiState {
            lyrics: frame::shown_lyrics(
                old(ui).lyrics,
                frame::lyrics_position(*state, old(ui).lyrics.offset as int),
                lyrics_rows(*old(ui), *c),
            ),
            ..*old(ui)
        }),
{
    let p: Palette = palette(ThemeKind::HiFi);
    let n: usize = inner_of(c.term_w);
    let rows: usize = rows_within(c.term_h, 7 + ui.banner.lines as u128);
    let position: i128 = position_of(state, ui.lyrics.offset);
    let heading: String = match ui.cache.title(state.track.current_track) {
        Some(t) => t,
        None => c.name.clone(),
    };
    let title: String = heading.as_str().to_uppercase();
    let right: String = lyrics_right_of(state, &ui.lyrics, &p);
    let left: String = lyrics_left_of(title.as_str(), right.as_str(), n, &p);
    let foot: String = lyrics_footer_of(&ui.lyrics, &p);
    let mut w: FrameWriter = FrameWriter::new();
    write_header(&mut w, &p, left.as_str(), right.as_str(), n);
    assert(w@ =~= frame::lines_of(false, header(p, left@, right@, n as int)));
    let top: String = edge_of(&p, "\u{250c}", '\u{2500}', "\u{2510}", n);
    w.line(top.as_str());
    write_lyrics_body(&mut w, &mut ui.lyrics, position, n, rows, &p);
    let bottom: String = edge_of(&p, "\u{2514}", '\u{2500}', "\u{2518}", n);
    w.line(bottom.as_str());
    w.blank();
    let cut: String = truncate_ansi(foot.as_str(), c.term_w as usize);
    w.line(cut.as_str());
    w
}

} // verus!
