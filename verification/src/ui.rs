//! The classic theme's screens, the equaliser's screen, and which screen is
//! painted.
use crate::ansi;
use crate::ansi::{truncate_ansi, truncate_plain, visible_len};
use crate::cover;
use crate::eq_ui;
use crate::eq_ui::render_eq_screen;
use crate::equalizer::BandSettings;
use crate::frame;
use crate::frame::{
    balance_text, block_char, format_time, offset_text, path_of, position_of, progress_parts, row_track,
    scroll_list, scroll_lyrics, search_active, FrameWriter, Scene,
};
use crate::list_view;
use crate::lyrics::Lyrics;
use crate::metadata;
use crate::metadata::MetadataCache;
use crate::path;
use crate::state;
use crate::state::{
    InputMode, PlayerState, RgMode, ViewMode, VizMode, VizStyle, C_BOLD, C_CYAN, C_DIM, C_GREEN, C_MAGENTA, C_RED,
    C_RESET, C_YELLOW,
};
use crate::text;
use crate::text::{byte_len, char_count, is_blank, min_usize, push_dec, push_rep, push_spaces};
use crate::theme;
use crate::theme::{palette, Palette, ThemeKind};
use crate::tree_view;
use crate::tree_view::{render_tree_body, TreeView};
use crate::ui_hifi;
use crate::ui_hifi::{print_status_hifi, print_status_hifi_library, print_status_hifi_lyrics};
use crate::ui_minimal;
use crate::ui_minimal::{print_status_minimal, print_status_minimal_library, print_status_minimal_lyrics};
use crate::ui_state::{LyricsPane, UiState};
use vstd::prelude::*;

verus! {

/// Colour of the note by the kind of file.
pub open spec fn note_color(ext: Seq<char>) -> Seq<char> {
    if ext == "ogg"@ {
        C_MAGENTA@
    } else if ext == "aac"@ || ext == "m4a"@ {
        C_RED@
    } else if ext == "flac"@ || ext == "alac"@ || ext == "aiff"@ || ext == "aif"@ {
        C_CYAN@
    } else if ext == "wav"@ {
        C_YELLOW@
    } else {
        C_GREEN@
    }
}

/// Colour of the note by the kind of file.
pub fn icon_color_for_ext(ext: &str) -> (r: &'static str)
    ensures
        r@ == note_color(ext@),
{
    if ext.eq("ogg") {
        C_MAGENTA
    } else if ext.eq("aac") || ext.eq("m4a") {
        C_RED
    } else if ext.eq("flac") || ext.eq("alac") || ext.eq("aiff") || ext.eq("aif") {
        C_CYAN
    } else if ext.eq("wav") {
        C_YELLOW
    } else {
        C_GREEN
    }
}

/// The number of the track that plays, counted from one.
pub open spec fn track_number(s: PlayerState) -> nat {
    text::least(s.track.current_track + 1, u64::MAX as int) as nat
}

/// The number of the track that plays, counted from one.
pub fn number_of(state: &PlayerState) -> (n: u64)
    ensures
        n == track_number(*state),
{
    (state.track.current_track as u64).saturating_add(1)
}

/// Partial dots at the end of a bar of dots.
pub open spec fn dot_part(i: int) -> char {
    if i <= 0 {
        '\u{28c0}'
    } else if i == 1 {
        '\u{28c4}'
    } else if i == 2 {
        '\u{28e4}'
    } else if i == 3 {
        '\u{28e6}'
    } else if i == 4 {
        '\u{28f6}'
    } else {
        '\u{28f7}'
    }
}

fn dot_char(i: u32) -> (c: char)
    ensures
        c == dot_part(i as int),
{
    if i == 0 {
        '\u{28c0}'
    } else if i == 1 {
        '\u{28c4}'
    } else if i == 2 {
        '\u{28e4}'
    } else if i == 3 {
        '\u{28e6}'
    } else if i == 4 {
        '\u{28f6}'
    } else {
        '\u{28f7}'
    }
}

/// A bar of dots over twenty columns, six steps to a column.
pub open spec fn dots_bar(t: int) -> Seq<char> {
    let full = t / 6;
    text::rep('\u{28ff}', full as nat) + (if full < 20 {
        seq![dot_part(t % 6)]
    } else {
        Seq::empty()
    }) + text::rep('\u{28c0}', text::minus(20, full + 1) as nat)
}

/// A bar of blocks over twenty columns, eight steps to a column.
pub open spec fn blocks_bar(t: int) -> Seq<char> {
    let full = t / 8;
    text::rep('\u{2588}', full as nat) + (if full >= 20 {
        Seq::empty()
    } else if t % 8 > 0 {
        seq![frame::block_part(t % 8 - 1)] + C_DIM@ + text::rep('\u{258f}', (20 - full - 1) as nat)
    } else {
        C_DIM@ + text::rep('\u{258f}', (20 - full) as nat)
    })
}

/// The bar that shows how far the track is.
pub open spec fn bar(s: PlayerState) -> Seq<char> {
    match s.look.viz_style {
        VizStyle::Dots => dots_bar(frame::progress(s, 120)),
        VizStyle::Bars => blocks_bar(frame::progress(s, 160)),
    }
}

fn bar_of(state: &PlayerState) -> (s: String)
    ensures
        s@ == bar(*state),
{
    let mut s: String = String::new();
    match state.look.viz_style {
        VizStyle::Dots => {
            let t: u32 = progress_parts(state, 120);
            let full: u32 = t / 6;
            push_rep(&mut s, '\u{28ff}', full as usize);
            if full < 20 {
                s.push(dot_char(t % 6));
            }
            let rest: usize = if full + 1 < 20 {
                (20 - (full + 1)) as usize
            } else {
                0
            };
            push_rep(&mut s, '\u{28c0}', rest);
            assert(s@ =~= dots_bar(t as int));
        },
        VizStyle::Bars => {
            let t: u32 = progress_parts(state, 160);
            let full: u32 = t / 8;
            push_rep(&mut s, '\u{2588}', full as usize);
            if full < 20 {
                if t % 8 > 0 {
                    s.push(block_char(t % 8 - 1));
                    s.push_str(C_DIM);
                    push_rep(&mut s, '\u{258f}', (20 - full - 1) as usize);
                } else {
                    s.push_str(C_DIM);
                    push_rep(&mut s, '\u{258f}', (20 - full) as usize);
                }
            }
            assert(s@ =~= blocks_bar(t as int));
        },
    }
    s
}

/// The track's place in the list, ahead of its name.
pub open spec fn counter(s: PlayerState) -> Seq<char> {
    "["@ + text::dec(track_number(s)) + "/"@ + text::dec(s.track.total_tracks as nat) + "]"@
}

/// Columns for the track's name: what the rest of the line leaves, and no more
/// than thirty-five.
pub open spec fn name_room(s: PlayerState, info: Seq<char>, w: int) -> int {
    let overhead = vstd::utf8::encode_utf8(counter(s) + " \u{266a}  "@).len() + vstd::utf8::encode_utf8(info).len()
        + 1;
    text::least(text::minus(w, overhead as int), 35)
}

/// The first line: what plays.
pub open spec fn track_line(s: PlayerState, c: Scene) -> Seq<char> {
    ansi::cut(
        C_DIM@ + counter(s) + C_RESET@ + " "@ + note_color(c.ext@) + "\u{266a}"@ + C_RESET@ + " "@ + C_BOLD@ + C_CYAN@
            + ansi::plain_cut(c.name@, name_room(s, c.track_info@, c.term_w as int)) + C_RESET@ + " "@ + C_DIM@
            + c.track_info@ + C_RESET@,
        c.term_w as int,
    )
}

fn counter_of(state: &PlayerState) -> (s: String)
    ensures
        s@ == counter(*state),
{
    let mut s: String = "[".to_owned();
    push_dec(&mut s, number_of(state));
    s.push_str("/");
    push_dec(&mut s, state.track.total_tracks as u64);
    s.push_str("]");
    s
}

fn track_line_of(state: &PlayerState, c: &Scene) -> (r: String)
    ensures
        r@ == track_line(*state, *c),
{
    let w: usize = c.term_w as usize;
    let count: String = counter_of(state);
    let mut head: String = count.clone();
    head.push_str(" \u{266a}  ");
    let overhead: u128 = byte_len(head.as_str()) as u128 + byte_len(c.track_info.as_str()) as u128 + 1;
    let room: usize = if w as u128 > overhead {
        (w as u128 - overhead) as usize
    } else {
        0
    };
    let name: String = truncate_plain(c.name.as_str(), min_usize(room, 35));
    let mut s: String = C_DIM.to_owned();
    s.push_str(count.as_str());
    s.push_str(C_RESET);
    s.push_str(" ");
    s.push_str(icon_color_for_ext(c.ext.as_str()));
    s.push_str("\u{266a}");
    s.push_str(C_RESET);
    s.push_str(" ");
    s.push_str(C_BOLD);
    s.push_str(C_CYAN);
    s.push_str(name.as_str());
    s.push_str(C_RESET);
    s.push_str(" ");
    s.push_str(C_DIM);
    s.push_str(c.track_info.as_str());
    s.push_str(C_RESET);
    truncate_ansi(s.as_str(), w)
}

/// A setting, where it is not the usual one.
pub open spec fn unusual(tag: Seq<char>, name: Seq<char>, usual: Seq<char>) -> Seq<char> {
    if name == usual {
        Seq::empty()
    } else {
        tag + name
    }
}

/// Appends a setting, where it is not the usual one.
pub fn push_unusual(s: &mut String, tag: &str, name: &str, usual: &str)
    ensures
        final(s)@ == old(s)@ + unusual(tag@, name@, usual@),
{
    let ghost start = s@;
    if !name.eq(usual) {
        s.push_str(tag);
        s.push_str(name);
    }
    assert(s@ =~= start + unusual(tag@, name@, usual@));
}

/// The next visualisation, as the line of keys calls it.
pub open spec fn viz_key(m: VizMode) -> Seq<char> {
    match m {
        VizMode::Off => "Off"@,
        VizMode::VuMeter => "VU"@,
        VizMode::SpectrumHorizontal => "SpecH"@,
        VizMode::SpectrumVertical => "SpecV"@,
        VizMode::Oscilloscope => "Scope"@,
        VizMode::Lissajous => "Vector"@,
        VizMode::Spectrogram => "SpecGram"@,
        VizMode::SpectrogramAnalysis => "SpecAna"@,
    }
}

fn viz_key_of(m: VizMode) -> (r: &'static str)
    ensures
        r@ == viz_key(m),
{
    match m {
        VizMode::Off => "Off",
        VizMode::VuMeter => "VU",
        VizMode::SpectrumHorizontal => "SpecH",
        VizMode::SpectrumVertical => "SpecV",
        VizMode::Oscilloscope => "Scope",
        VizMode::Lissajous => "Vector",
        VizMode::Spectrogram => "SpecGram",
        VizMode::SpectrogramAnalysis => "SpecAna",
    }
}

/// The other style, as the line of keys calls it: of the analysis it is the
/// frequency axis.
pub open spec fn style_key(m: VizMode, v: VizStyle) -> Seq<char> {
    if m is SpectrogramAnalysis {
        if v is Dots {
            "Linear"@
        } else {
            "Log"@
        }
    } else if v is Dots {
        "Bars"@
    } else {
        "Dots"@
    }
}

fn style_key_of(m: VizMode, v: VizStyle) -> (r: &'static str)
    ensures
        r@ == style_key(m, v),
{
    let dots: bool = match v {
        VizStyle::Dots => true,
        VizStyle::Bars => false,
    };
    match m {
        VizMode::SpectrogramAnalysis => if dots {
            "Linear"
        } else {
            "Log"
        },
        _ => if dots {
            "Bars"
        } else {
            "Dots"
        },
    }
}

/// A balance, where it is not in the middle.
pub open spec fn balance_part(b: int) -> Seq<char> {
    if b == 0 {
        Seq::empty()
    } else {
        " BAL:"@ + frame::balance_words(b)
    }
}

/// The machine's figures, where they are shown.
pub open spec fn stats_part(s: PlayerState, c: Scene) -> Seq<char> {
    if s.look.show_stats {
        " cpu:"@ + c.stats.cpu@ + "% mem:"@ + c.stats.mem@ + "M"@
    } else {
        Seq::empty()
    }
}

/// The second line, as far as the track is concerned.
pub open spec fn time_part(s: PlayerState) -> Seq<char> {
    "  "@ + (if s.transport.paused {
        C_YELLOW@
    } else {
        C_GREEN@
    }) + (if s.transport.paused {
        "\u{23f8}"@
    } else {
        "\u{25b6}"@
    }) + C_RESET@ + " "@ + C_BOLD@ + "["@ + frame::clock(
        PlayerState::seconds(s.track.samples_played, s.track.output_rate) as nat,
    ) + "/"@ + frame::clock(PlayerState::seconds(s.track.total_samples, s.track.sample_rate) as nat) + "]"@
        + C_RESET@ + " "@ + C_GREEN@ + bar(s) + C_RESET@ + " "@ + C_DIM@
}

/// The second line, as far as the sound is concerned.
pub open spec fn sound_part(s: PlayerState, c: Scene) -> Seq<char> {
    "vol:"@ + text::dec(s.volume as nat) + "%"@ + unusual(" eq:"@, c.eq_name@, "Flat"@) + unusual(
        " fx:"@,
        c.fx_name@,
        "None"@,
    ) + unusual(" cf:"@, c.cf_name@, "Off"@) + (" "@ + (if s.clipping {
        C_RED@
    } else {
        C_GREEN@
    }) + "\u{25cf}"@ + C_RESET@) + balance_part(s.balance as int) + " "@ + (if s.look.pre_fader {
        "pre"@
    } else {
        "post"@
    }) + " buf:"@ + text::dec(c.stats.buf_pct as nat) + "%"@ + stats_part(s, c) + " {V}:"@ + viz_key(
        s.look.viz_mode.succ(),
    ) + " {B}:"@ + style_key(s.look.viz_mode, s.look.viz_style) + C_RESET@
}

/// The second line: how far the track is, and what shapes the sound.
pub open spec fn progress_line(s: PlayerState, c: Scene) -> Seq<char> {
    ansi::cut(time_part(s) + sound_part(s, c), c.term_w as int)
}

fn time_part_of(state: &PlayerState) -> (s: String)
    ensures
        s@ == time_part(*state),
{
    let cur: String = format_time(state.time_secs());
    let tot: String = format_time(state.total_secs());
    let fill: String = bar_of(state);
    let mut s: String = "  ".to_owned();
    if state.transport.paused {
        s.push_str(C_YELLOW);
        s.push_str("\u{23f8}");
    } else {
        s.push_str(C_GREEN);
        s.push_str("\u{25b6}");
    }
    s.push_str(C_RESET);
    s.push_str(" ");
    s.push_str(C_BOLD);
    s.push_str("[");
    s.push_str(cur.as_str());
    s.push_str("/");
    s.push_str(tot.as_str());
    s.push_str("]");
    s.push_str(C_RESET);
    s.push_str(" ");
    s.push_str(C_GREEN);
    s.push_str(fill.as_str());
    s.push_str(C_RESET);
    s.push_str(" ");
    s.push_str(C_DIM);
    s
}

fn balance_part_of(b: i32) -> (s: String)
    ensures
        s@ == balance_part(b as int),
{
    if b == 0 {
        String::new()
    } else {
        let mut s: String = " BAL:".to_owned();
        let words: String = balance_text(b);
        s.push_str(words.as_str());
        s
    }
}

fn stats_part_of(state: &PlayerState, c: &Scene) -> (s: String)
    ensures
        s@ == stats_part(*state, *c),
{
    if state.look.show_stats {
        let mut s: String = " cpu:".to_owned();
        s.push_str(c.stats.cpu.as_str());
        s.push_str("% mem:");
        s.push_str(c.stats.mem.as_str());
        s.push_str("M");
        s
    } else {
        String::new()
    }
}

fn clip_dot(clipping: bool) -> (s: String)
    ensures
        s@ == " "@ + (if clipping {
            C_RED@
        } else {
            C_GREEN@
        }) + "\u{25cf}"@ + C_RESET@,
{
    let mut s: String = " ".to_owned();
    if clipping {
        s.push_str(C_RED);
    } else {
        s.push_str(C_GREEN);
    }
    s.push_str("\u{25cf}");
    s.push_str(C_RESET);
    s
}

fn sound_part_of(state: &PlayerState, c: &Scene) -> (s: String)
    ensures
        s@ == sound_part(*state, *c),
{
    let dot: String = clip_dot(state.clipping);
    let balance: String = balance_part_of(state.balance);
    let stats: String = stats_part_of(state, c);
    let mut s: String = "vol:".to_owned();
    push_dec(&mut s, state.volume as u64);
    s.push_str("%");
    push_unusual(&mut s, " eq:", c.eq_name.as_str(), "Flat");
    push_unusual(&mut s, " fx:", c.fx_name.as_str(), "None");
    push_unusual(&mut s, " cf:", c.cf_name.as_str(), "Off");
    s.push_str(dot.as_str());
    s.push_str(balance.as_str());
    s.push_str(" ");
    if state.look.pre_fader {
        s.push_str("pre");
    } else {
        s.push_str("post");
    }
    s.push_str(" buf:");
    push_dec(&mut s, c.stats.buf_pct as u64);
    s.push_str("%");
    s.push_str(stats.as_str());
    s.push_str(" {V}:");
    s.push_str(viz_key_of(state.look.viz_mode.next()));
    s.push_str(" {B}:");
    s.push_str(style_key_of(state.look.viz_mode, state.look.viz_style));
    s.push_str(C_RESET);
    s
}

fn progress_line_of(state: &PlayerState, c: &Scene) -> (r: String)
    ensures
        r@ == progress_line(*state, *c),
{
    let mut s: String = time_part_of(state);
    let sound: String = sound_part_of(state, c);
    s.push_str(sound.as_str());
    truncate_ansi(s.as_str(), c.term_w as usize)
}

/// The lines above what the view shows.
pub open spec fn head_lines(s: PlayerState, c: Scene) -> Seq<(bool, Seq<char>)> {
    let head = seq![frame::plain(track_line(s, c)), frame::plain(progress_line(s, c))];
    if c.eq_curve@.len() > 0 {
        head.push(frame::plain(c.eq_curve@))
    } else {
        head
    }
}

/// A line across.
pub open spec fn rule_line(w: int) -> Seq<char> {
    "  "@ + C_DIM@ + text::rep('\u{2500}', text::minus(w, 2) as nat) + C_RESET@
}

fn rule_line_of(w: usize) -> (s: String)
    ensures
        s@ == rule_line(w as int),
{
    let mut s: String = "  ".to_owned();
    s.push_str(C_DIM);
    push_rep(
        &mut s,
        '\u{2500}',
        if w > 2 {
            w - 2
        } else {
            0
        },
    );
    s.push_str(C_RESET);
    s
}

fn write_head(state: &PlayerState, c: &Scene) -> (w: FrameWriter)
    ensures
        w@ == head_lines(*state, *c),
{
    let mut w: FrameWriter = FrameWriter::new();
    let first: String = track_line_of(state, c);
    w.first_line(first.as_str());
    let second: String = progress_line_of(state, c);
    w.line(second.as_str());
    if !is_blank(c.eq_curve.as_str()) {
        w.line(c.eq_curve.as_str());
    }
    assert(w@ =~= head_lines(*state, *c));
    w
}

/// Rows between the head and the footer.
pub open spec fn body_rows(ui: UiState, c: Scene) -> int {
    let head = if c.eq_curve@.len() > 0 {
        3int
    } else {
        2int
    };
    text::most(text::minus(c.term_h as int, head + 2 + ui.banner.lines), 1)
}

fn body_rows_of(ui: &UiState, c: &Scene) -> (r: usize)
    ensures
        r == body_rows(*ui, *c),
        r > 0,
        r <= 65535,
{
    let head: u128 = if is_blank(c.eq_curve.as_str()) {
        4
    } else {
        5
    };
    let used: u128 = head + ui.banner.lines as u128;
    if c.term_h as u128 > used {
        (c.term_h as u128 - used) as usize
    } else {
        1
    }
}

/// How a row of the list is divided.
pub struct RowPlan {
    pub name: int,
    pub album: int,
}

/// How a row is divided between name and album, after the number and the time.
/// The album gets some three tenths, where the row is wide enough for both.
pub open spec fn row_plan(w: int, time: int) -> RowPlan {
    let room = text::minus(
        w,
        10 + (if time == 0 {
            0
        } else {
            time + 2
        }),
    );
    let album = if room >= 50 {
        text::least(text::most(room * 30 / 100, 12), 32)
    } else {
        0
    };
    RowPlan {
        name: text::minus(
            room,
            if album > 0 {
                album + 2
            } else {
                0
            },
        ),
        album,
    }
}

/// A track's time in the list.
pub open spec fn time_text(e: metadata::TrackMetaV) -> Seq<char> {
    match e.duration {
        Some(d) => frame::clock((d / 1_000_000_000) as nat),
        None => Seq::empty(),
    }
}

/// The album in a row, with the space around it.
pub open spec fn album_part(e: metadata::TrackMetaV, plan: RowPlan, pad: int) -> Seq<char> {
    if plan.album > 0 {
        let cut = ansi::plain_cut(metadata::text_or_empty(e.album), plan.album);
        text::spaces(pad + 2) + C_DIM@ + cut + C_RESET@ + text::spaces(
            text::minus(plan.album, ansi::visible_columns(cut) as int),
        )
    } else {
        text::spaces(pad)
    }
}

/// The time in a row.
pub open spec fn time_part_in(t: Seq<char>) -> Seq<char> {
    if t.len() == 0 {
        Seq::empty()
    } else {
        " "@ + C_DIM@ + t + C_RESET@
    }
}

/// A row of the list: the track at a place, playing or not, under the cursor or
/// not.
pub open spec fn list_row(
    e: metadata::TrackMetaV,
    p: Seq<char>,
    track: int,
    playing: bool,
    cursor: bool,
    w: int,
) -> Seq<char> {
    let t = time_text(e);
    let plan = row_plan(w, t.len() as int);
    let name = ansi::plain_cut(metadata::display_of(e, p), plan.name);
    let pad = text::minus(plan.name, ansi::visible_columns(name) as int);
    let num = text::pad_left(text::dec((track + 1) as nat), ' ', 4);
    let mark = if playing {
        " \u{25b6} "@
    } else {
        "   "@
    };
    let tail = album_part(e, plan, pad) + time_part_in(t);
    if cursor && playing {
        mark + "\x1B[7m"@ + C_GREEN@ + num + "  "@ + name + C_RESET@ + "\x1B[7m"@ + tail + "\x1B[27m"@
    } else if cursor {
        mark + "\x1B[7m"@ + num + "  "@ + name + tail + "\x1B[27m"@
    } else if playing {
        mark + C_GREEN@ + num + "  "@ + name + C_RESET@ + tail
    } else {
        mark + C_DIM@ + num + C_RESET@ + "  "@ + name + tail
    }
}

fn row_plan_of(w: u16, time: usize) -> (r: (usize, usize))
    ensures
        r.0 == row_plan(w as int, time as int).name,
        r.1 == row_plan(w as int, time as int).album,
        r.0 <= 65535,
        r.1 <= 32,
{
    let used: u128 = 10 + (if time == 0 {
        0
    } else {
        time as u128 + 2
    });
    let room: usize = if w as u128 > used {
        (w as u128 - used) as usize
    } else {
        0
    };
    let album: usize = if room >= 50 {
        let third: usize = room * 30 / 100;
        if third < 12 {
            12
        } else if third > 32 {
            32
        } else {
            third
        }
    } else {
        0
    };
    let name: usize = if album > 0 {
        room - (album + 2)
    } else {
        room
    };
    (name, album)
}

fn album_part_of(e: &Option<String>, name: usize, album: usize, pad: usize) -> (s: String)
    requires
        pad <= 65535,
    ensures
        forall|m: metadata::TrackMetaV|
            m.album == path::opt_text(*e) ==> s@ == #[trigger] album_part(
                m,
                RowPlan { name: name as int, album: album as int },
                pad as int,
            ),
{
    let mut s: String = String::new();
    if album > 0 {
        let cut: String = match e {
            Some(a) => truncate_plain(a.as_str(), album),
            None => {
                proof {
                    reveal_strlit("");
                }
                assert(""@ =~= Seq::<char>::empty());
                truncate_plain("", album)
            },
        };
        let seen: usize = visible_len(cut.as_str());
        push_spaces(&mut s, pad + 2);
        s.push_str(C_DIM);
        s.push_str(cut.as_str());
        s.push_str(C_RESET);
        push_spaces(
            &mut s,
            if album > seen {
                album - seen
            } else {
                0
            },
        );
        assert(cut@ == ansi::plain_cut(
            metadata::text_or_empty(path::opt_text(*e)),
            album as int,
        ));
        assert(s@ =~= text::spaces(pad + 2) + C_DIM@ + cut@ + C_RESET@ + text::spaces(
            text::minus(album as int, ansi::visible_columns(cut@) as int),
        ));
    } else {
        push_spaces(&mut s, pad);
        assert(s@ =~= text::spaces(pad as int));
    }
    s
}

fn list_row_of(cache: &MetadataCache, p: &str, track: usize, playing: bool, cursor: bool, w: u16) -> (s: String)
    ensures
        s@ == list_row(
            metadata::entry_at(cache@, track as int),
            p@,
            text::least(track as int, u64::MAX - 1),
            playing,
            cursor,
            w as int,
        ),
{
    let ghost e = metadata::entry_at(cache@, track as int);
    let time: String = match cache.duration(track) {
        Some(d) => format_time(d / 1_000_000_000),
        None => String::new(),
    };
    assert(time@ =~= time_text(e));
    let (name_room, album_room) = row_plan_of(w, char_count(time.as_str()));
    let full: String = cache.display_name(track, p);
    let name: String = truncate_plain(full.as_str(), name_room);
    let seen: usize = visible_len(name.as_str());
    let pad: usize = if name_room > seen {
        name_room - seen
    } else {
        0
    };
    let (_artist, album) = cache.artist_album(track);
    let mut tail: String = album_part_of(&album, name_room, album_room, pad);
    if !is_blank(time.as_str()) {
        tail.push_str(" ");
        tail.push_str(C_DIM);
        tail.push_str(time.as_str());
        tail.push_str(C_RESET);
    }
    let ghost plan = row_plan(w as int, time@.len() as int);
    assert(plan == (RowPlan { name: name_room as int, album: album_room as int }));
    assert(tail@ =~= album_part(e, plan, pad as int) + time_part_in(time@));
    let n: u64 = (track as u64).saturating_add(1);
    let num: String = padded_number(n);
    let mut s: String = if playing {
        " \u{25b6} ".to_owned()
    } else {
        "   ".to_owned()
    };
    if cursor && playing {
        s.push_str("\x1B[7m");
        s.push_str(C_GREEN);
        s.push_str(num.as_str());
        s.push_str("  ");
        s.push_str(name.as_str());
        s.push_str(C_RESET);
        s.push_str("\x1B[7m");
        s.push_str(tail.as_str());
        s.push_str("\x1B[27m");
    } else if cursor {
        s.push_str("\x1B[7m");
        s.push_str(num.as_str());
        s.push_str("  ");
        s.push_str(name.as_str());
        s.push_str(tail.as_str());
        s.push_str("\x1B[27m");
    } else if playing {
        s.push_str(C_GREEN);
        s.push_str(num.as_str());
        s.push_str("  ");
        s.push_str(name.as_str());
        s.push_str(C_RESET);
        s.push_str(tail.as_str());
    } else {
        s.push_str(C_DIM);
        s.push_str(num.as_str());
        s.push_str(C_RESET);
        s.push_str("  ");
        s.push_str(name.as_str());
        s.push_str(tail.as_str());
    }
    s
}

/// A number on the right of four columns.
fn padded_number(n: u64) -> (s: String)
    ensures
        s@ == text::pad_left(text::dec(n as nat), ' ', 4),
{
    let mut digits: String = String::new();
    push_dec(&mut digits, n);
    assert(digits@ =~= text::dec(n as nat));
    let len: usize = char_count(digits.as_str());
    let mut s: String = String::new();
    if len < 4 {
        push_rep(&mut s, ' ', 4 - len);
    }
    s.push_str(digits.as_str());
    assert(s@ =~= text::pad_left(text::dec(n as nat), ' ', 4));
    s
}

/// The rows of the list on the screen, `n` of them.
pub open spec fn list_rows(
    cache: Seq<metadata::TrackMetaV>,
    paths: Seq<Seq<char>>,
    l: list_view::ListV,
    current: int,
    w: int,
    n: int,
) -> Seq<(bool, Seq<char>)> {
    Seq::new(
        n as nat,
        |r: int|
            {
                let track = frame::track_at(l, l.scroll + r);
                frame::plain(
                    list_row(
                        metadata::entry_at(cache, track),
                        frame::path_at(paths, track),
                        text::least(track, u64::MAX - 1),
                        track == current,
                        l.scroll + r == l.cursor,
                        w,
                    ),
                )
            },
    )
}

/// What the list shows: its rows, and empty ones below them; or that nothing was
/// found.
pub open spec fn list_body(ui: UiState, paths: Seq<Seq<char>>, w: int, rows: int) -> Seq<(bool, Seq<char>)> {
    let n = paths.len() as int;
    let active = frame::searching(ui.input_mode);
    if active && frame::item_count(ui.list@, active, n) == 0 {
        seq![frame::plain("  "@ + C_DIM@ + "(no matches)"@ + C_RESET@)] + frame::blanks(rows - 1)
    } else {
        let count = frame::shown_count(ui.list@, active, n, rows);
        list_rows(
            ui.cache@,
            paths,
            frame::shown_list(ui.list@, active, n, rows),
            ui.queue.current as int,
            w,
            count,
        ) + frame::blanks(rows - count)
    }
}

fn write_list(w: &mut FrameWriter, ui: &mut UiState, playlist: &Vec<String>, cols: u16, rows: usize)
    requires
        rows > 0,
    ensures
        final(w)@ == old(w)@ + list_body(*old(ui), text::texts(playlist@), cols as int, rows as int),
        final(ui).list@ == frame::shown_list(
            old(ui).list@,
            frame::searching(old(ui).input_mode),
            playlist@.len() as int,
            rows as int,
        ),
        *final(ui) == (UiState { list: final(ui).list, ..*old(ui) }),
{
    let ghost before = w@;
    let ghost paths = text::texts(playlist@);
    assert(paths.len() == playlist@.len());
    let active: bool = search_active(&ui.input_mode);
    let count: usize = scroll_list(&mut ui.list, active, playlist.len(), rows);
    if active && ui.list.filtered_indices.len() == 0 {
        let mut s: String = "  ".to_owned();
        s.push_str(C_DIM);
        s.push_str("(no matches)");
        s.push_str(C_RESET);
        w.line(s.as_str());
        w.blanks(rows - 1);
        assert(w@ =~= before + list_body(*old(ui), paths, cols as int, rows as int));
        return;
    }
    let ghost l = ui.list@;
    let ghost all = list_rows(ui.cache@, paths, l, ui.queue.current as int, cols as int, count as int);
    let found: usize = ui.list.filtered_indices.len();
    assert(l.filtered.len() == found);
    let mut r: usize = 0;
    assert(w@ =~= before + all.take(0));
    while r < count
        invariant
            l.len(paths.len() as int) <= usize::MAX,
            paths == text::texts(playlist@),
            l == ui.list@,
            all == list_rows(ui.cache@, paths, l, ui.queue.current as int, cols as int, count as int),
            r <= count,
            count <= text::minus(l.len(paths.len() as int), l.scroll),
            paths.len() == playlist@.len(),
            w@ == before + all.take(r as int),
        decreases count - r,
    {
        assert(l.scroll + r < l.len(paths.len() as int));
        let pos: usize = ui.list.scroll_offset + r;
        let track: usize = row_track(&ui.list, pos);
        let p: String = path_of(playlist, track);
        let line: String = list_row_of(
            &ui.cache,
            p.as_str(),
            track,
            track == ui.queue.current,
            pos == ui.list.cursor,
            cols,
        );
        w.line(line.as_str());
        assert(all[r as int] == frame::plain(line@));
        r = r + 1;
        assert(w@ =~= before + all.take(r as int));
    }
    assert(all.take(count as int) =~= all);
    w.blanks(rows - count);
    assert(w@ =~= before + list_body(*old(ui), paths, cols as int, rows as int));
}

/// What the tree shows: its rows, and empty ones below them.
pub open spec fn tree_body(t: TreeView, current: usize, p: Palette, w: int, rows: int) -> Seq<(bool, Seq<char>)> {
    let shown = tree_shown(t, rows);
    let n = text::least(rows, shown.rows@.len() - shown.scroll);
    Seq::new(n as nat, |i: int| frame::plain(tree_view::tree_line(shown, i, w, p, current))) + frame::blanks(
        rows - n,
    )
}

/// The tree with the screen moved to the cursor.
pub open spec fn tree_shown(t: TreeView, rows: int) -> TreeView {
    TreeView {
        cursor: tree_view::clamped(t.cursor as int, t.rows@.len() as int) as usize,
        scroll: tree_view::scrolled(
            tree_view::clamped(t.cursor as int, t.rows@.len() as int),
            t.scroll as int,
            rows,
            t.rows@.len() as int,
        ) as usize,
        view_height: rows as usize,
        ..t
    }
}

/// Writes what the tree shows.
pub fn write_tree(w: &mut FrameWriter, t: &mut TreeView, current: usize, p: &Palette, cols: usize, rows: usize)
    requires
        old(t).wf(),
    ensures
        final(w)@ == old(w)@ + tree_body(*old(t), current, *p, cols as int, rows as int),
        *final(t) == tree_shown(*old(t), rows as int),
        final(t).wf(),
{
    let ghost before = w@;
    let lines: Vec<String> = render_tree_body(t, rows, cols, p, current);
    let n: usize = lines.len();
    w.all(false, &lines);
    w.blanks(rows - n);
    proof {
        let a = frame::lines_of(false, text::texts(lines@));
        let b = Seq::new(
            n as nat,
            |i: int| frame::plain(tree_view::tree_line(*t, i, cols as int, *p, current)),
        );
        assert(a.len() == b.len());
        assert forall|i: int| 0 <= i < a.len() implies a[i] == b[i] by {
            assert(text::texts(lines@)[i] == lines@[i]@);
        }
        assert(a =~= b);
        assert(w@ =~= before + tree_body(*old(t), current, *p, cols as int, rows as int));
    }
}

/// The last line of the library: a prompt, a message, or the keys.
pub open spec fn library_footer(ui: UiState) -> Seq<char> {
    match ui.input_mode {
        InputMode::Search(q) => "  / "@ + q@ + C_DIM@ + "_"@ + C_RESET@,
        InputMode::SavePlaylist(n) => "  Save playlist as: "@ + n@ + C_DIM@ + "_"@ + C_RESET@,
        InputMode::Normal => match ui.message() {
            Some(m) => "  "@ + C_GREEN@ + m + C_RESET@,
            None => if ui.tree.mode {
                "  "@ + C_DIM@
                    + "[Tab] list  [\u{2190}\u{2192}] fold  [Enter] play  [/] filter  [D] remove  [L] close"@
                    + C_RESET@
            } else {
                "  "@ + C_DIM@
                    + "[Tab] tree  [\u{2191}\u{2193}] scroll  [Enter] play  [A] enqueue  [/] search  [D] remove  [S] save"@
                    + C_RESET@
            },
        },
    }
}

fn library_footer_of(ui: &UiState) -> (r: String)
    ensures
        r@ == library_footer(*ui),
{
    match &ui.input_mode {
        InputMode::Search(q) => {
            let mut s: String = "  / ".to_owned();
            s.push_str(q.as_str());
            s.push_str(C_DIM);
            s.push_str("_");
            s.push_str(C_RESET);
            s
        },
        InputMode::SavePlaylist(n) => {
            let mut s: String = "  Save playlist as: ".to_owned();
            s.push_str(n.as_str());
            s.push_str(C_DIM);
            s.push_str("_");
            s.push_str(C_RESET);
            s
        },
        InputMode::Normal => {
            let mut s: String = "  ".to_owned();
            match ui.active_status() {
                Some(m) => {
                    s.push_str(C_GREEN);
                    s.push_str(m.as_str());
                },
                None => {
                    s.push_str(C_DIM);
                    if ui.tree.mode {
                        s.push_str(
                            "[Tab] list  [\u{2190}\u{2192}] fold  [Enter] play  [/] filter  [D] remove  [L] close",
                        );
                    } else {
                        s.push_str(
                            "[Tab] tree  [\u{2191}\u{2193}] scroll  [Enter] play  [A] enqueue  [/] search  [D] remove  [S] save",
                        );
                    }
                },
            }
            s.push_str(C_RESET);
            s
        },
    }
}

/// The library's frame.
pub open spec fn library_frame(s: PlayerState, ui: UiState, c: Scene, paths: Seq<Seq<char>>) -> Seq<
    (bool, Seq<char>),
> {
    let w = c.term_w as int;
    let rows = body_rows(ui, c);
    head_lines(s, c).push(frame::plain(rule_line(w))) + (if ui.tree.mode {
        tree_body(ui.tree, ui.queue.current, theme::palette_of(ThemeKind::Classic), w, rows)
    } else {
        list_body(ui, paths, w, rows)
    }) + seq![frame::plain(ansi::cut(library_footer(ui), w))]
}

/// The screen after the library's frame: it knows its height, and is moved to
/// the cursor.
pub open spec fn library_shown(ui: UiState, was: UiState, n: int, rows: int) -> bool {
    &&& was.tree.mode ==> ui.tree == tree_shown(was.tree, rows) && ui.list@ == (list_view::ListV {
        rows,
        ..was.list@
    })
    &&& !was.tree.mode ==> ui.tree == was.tree && ui.list@ == frame::shown_list(
        was.list@,
        frame::searching(was.input_mode),
        n,
        rows,
    )
    &&& ui == (UiState { list: ui.list, tree: ui.tree, spectro_block_intact: ui.spectro_block_intact, ..was })
}

fn write_library(w: &mut FrameWriter, ui: &mut UiState, c: &Scene, playlist: &Vec<String>)
    requires
        old(ui).tree.wf(),
    ensures
        final(w)@ == old(w)@.push(frame::plain(rule_line(c.term_w as int))) + (if old(ui).tree.mode {
            tree_body(
                old(ui).tree,
                old(ui).queue.current,
                theme::palette_of(ThemeKind::Classic),
                c.term_w as int,
                body_rows(*old(ui), *c),
            )
        } else {
            list_body(*old(ui), text::texts(playlist@), c.term_w as int, body_rows(*old(ui), *c))
        }) + seq![frame::plain(ansi::cut(library_footer(*old(ui)), c.term_w as int))],
        library_shown(*final(ui), *old(ui), playlist@.len() as int, body_rows(*old(ui), *c)),
        final(ui).spectro_block_intact == old(ui).spectro_block_intact,
        final(ui).tree.wf(),
{
    let cols: usize = c.term_w as usize;
    let rows: usize = body_rows_of(ui, c);
    let rule: String = rule_line_of(cols);
    w.line(rule.as_str());
    if ui.tree.mode {
        let p: Palette = palette(ThemeKind::Classic);
        ui.list.last_visible_rows = rows;
        write_tree(w, &mut ui.tree, ui.queue.current, &p, cols, rows);
    } else {
        write_list(w, ui, playlist, c.term_w, rows);
    }
    let ghost body = w@;
    let foot: String = library_footer_of(ui);
    let cut: String = truncate_ansi(foot.as_str(), cols);
    w.line(cut.as_str());
    assert(w@ =~= body + seq![frame::plain(cut@)]);
}

/// A line of lyrics.
pub open spec fn lyric_line(l: Lyrics, i: int, sung: Option<int>, w: int) -> (bool, Seq<char>) {
    if i < l.count() {
        frame::plain(
            ansi::cut(
                if sung == Some(i) {
                    "  "@ + C_BOLD@ + C_CYAN@ + l.text_at(i) + C_RESET@
                } else {
                    "  "@ + C_DIM@ + l.text_at(i) + C_RESET@
                },
                w,
            ),
        )
    } else {
        frame::blank()
    }
}

/// What the lyrics view shows.
pub open spec fn lyrics_body(p: LyricsPane, position: int, w: int, rows: int) -> Seq<(bool, Seq<char>)> {
    match p.lyrics {
        Some(l) => Seq::new(
            rows as nat,
            |r: int|
                lyric_line(l, frame::shown_lyrics(p, position, rows).scroll + r, l.line_at(position), w),
        ),
        None => seq![frame::plain("  "@ + C_DIM@ + "(no lyrics available)"@ + C_RESET@)] + frame::blanks(rows - 1),
    }
}

/// Whether there are lyrics with times.
pub open spec fn are_synced(p: LyricsPane) -> bool {
    p.lyrics matches Some(l) && l is Synced
}

/// The last line of the lyrics view.
pub open spec fn lyrics_footer(p: LyricsPane) -> Seq<char> {
    "  "@ + C_DIM@ + "[Y] close  [W/S] scroll"@ + (if are_synced(p) {
        "  [A/D] sync"@
    } else {
        Seq::empty()
    }) + (if are_synced(p) && p.offset != 0 {
        "  offset:"@ + frame::offset_words(p.offset as int) + "s"@
    } else {
        Seq::empty()
    }) + C_RESET@
}

/// Whether there are lyrics with times.
pub fn lyrics_synced(p: &LyricsPane) -> (r: bool)
    ensures
        r == are_synced(*p),
{
    match &p.lyrics {
        Some(l) => l.is_synced(),
        None => false,
    }
}

fn lyrics_footer_of(p: &LyricsPane) -> (s: String)
    ensures
        s@ == lyrics_footer(*p),
{
    let synced: bool = lyrics_synced(p);
    let mut s: String = "  ".to_owned();
    s.push_str(C_DIM);
    s.push_str("[Y] close  [W/S] scroll");
    let ghost a = s@;
    if synced {
        s.push_str("  [A/D] sync");
    }
    let ghost b = s@;
    assert(b =~= a + (if synced {
        "  [A/D] sync"@
    } else {
        Seq::empty()
    }));
    if synced && p.offset != 0 {
        s.push_str("  offset:");
        let t: String = offset_text(p.offset);
        s.push_str(t.as_str());
        s.push_str("s");
    }
    assert(s@ =~= b + (if are_synced(*p) && p.offset != 0 {
        "  offset:"@ + frame::offset_words(p.offset as int) + "s"@
    } else {
        Seq::empty()
    }));
    s.push_str(C_RESET);
    s
}

fn lyric_line_of(l: &Lyrics, i: usize, sung: Option<usize>, w: usize) -> (s: String)
    requires
        i < l.count(),
    ensures
        frame::plain(s@) == lyric_line(
            *l,
            i as int,
            match sung {
                Some(k) => Some(k as int),
                None => None,
            },
            w as int,
        ),
{
    let here: bool = match sung {
        Some(k) => k == i,
        None => false,
    };
    let mut s: String = "  ".to_owned();
    if here {
        s.push_str(C_BOLD);
        s.push_str(C_CYAN);
    } else {
        s.push_str(C_DIM);
    }
    s.push_str(l.line_text(i));
    s.push_str(C_RESET);
    truncate_ansi(s.as_str(), w)
}

fn write_lyrics_body(w: &mut FrameWriter, p: &mut LyricsPane, position: i128, cols: usize, rows: usize)
    requires
        rows > 0,
    ensures
        final(w)@ == old(w)@ + lyrics_body(*old(p), position as int, cols as int, rows as int),
        *final(p) == frame::shown_lyrics(*old(p), position as int, rows as int),
{
    let ghost before = w@;
    let sung: Option<usize> = scroll_lyrics(p, position, rows);
    match &p.lyrics {
        Some(l) => {
            let ghost all = lyrics_body(*old(p), position as int, cols as int, rows as int);
            let total: usize = l.line_count();
            let mut r: usize = 0;
            assert(w@ =~= before + all.take(0));
            while r < rows
                invariant
                    r <= rows,
                    total == l.count(),
                    p.lyrics == Some(*l),
                    all.len() == rows,
                    forall|k: int|
                        0 <= k < rows ==> #[trigger] all[k] == lyric_line(
                            *l,
                            p.scroll + k,
                            l.line_at(position as int),
                            cols as int,
                        ),
                    match sung {
                        Some(i) => l.line_at(position as int) == Some(i as int),
                        None => l.line_at(position as int) is None,
                    },
                    w@ == before + all.take(r as int),
                decreases rows - r,
            {
                let i: u128 = p.scroll as u128 + r as u128;
                if i < total as u128 {
                    let line: String = lyric_line_of(l, i as usize, sung, cols);
                    w.line(line.as_str());
                    assert(all[r as int] == frame::plain(line@));
                } else {
                    w.blank();
                    assert(all[r as int] == frame::blank());
                }
                r = r + 1;
                assert(w@ =~= before + all.take(r as int));
            }
            assert(all.take(rows as int) =~= all);
        },
        None => {
            let mut s: String = "  ".to_owned();
            s.push_str(C_DIM);
            s.push_str("(no lyrics available)");
            s.push_str(C_RESET);
            w.line(s.as_str());
            w.blanks(rows - 1);
            assert(w@ =~= before + lyrics_body(*old(p), position as int, cols as int, rows as int));
        },
    }
}

/// The lyrics view's frame.
pub open spec fn lyrics_frame(s: PlayerState, ui: UiState, c: Scene) -> Seq<(bool, Seq<char>)> {
    let w = c.term_w as int;
    head_lines(s, c).push(frame::plain(rule_line(w))) + lyrics_body(
        ui.lyrics,
        frame::lyrics_position(s, ui.lyrics.offset as int),
        w,
        body_rows(ui, c),
    ) + seq![frame::plain(ansi::cut(lyrics_footer(ui.lyrics), w))]
}

/// The message on the player's frame.
pub open spec fn message_lines(ui: UiState, color: Seq<char>, reset: Seq<char>) -> Seq<(bool, Seq<char>)> {
    match ui.message() {
        Some(m) => seq![frame::plain("  "@ + color + m + reset)],
        None => Seq::empty(),
    }
}

/// The player's frame: the visualiser below the head, and a message below that.
pub open spec fn player_frame(s: PlayerState, ui: UiState, c: Scene) -> Seq<(bool, Seq<char>)> {
    head_lines(s, c) + (if s.look.viz_mode is Off {
        Seq::empty()
    } else {
        seq![frame::plain(rule_line(c.term_w as int))] + frame::lines_of(
            c.viz_raw && s.look.viz_mode is SpectrogramAnalysis,
            text::texts(c.viz@),
        )
    }) + message_lines(ui, C_GREEN@, C_RESET@)
}

/// The classic theme's frame.
pub open spec fn classic_frame(s: PlayerState, ui: UiState, c: Scene, paths: Seq<Seq<char>>) -> Seq<
    (bool, Seq<char>),
> {
    match ui.view_mode {
        ViewMode::Playlist => library_frame(s, ui, c, paths),
        ViewMode::Lyrics => lyrics_frame(s, ui, c),
        _ => player_frame(s, ui, c),
    }
}

/// The screen after a frame of the classic theme.
pub open spec fn classic_shown(ui: UiState, was: UiState, s: PlayerState, c: Scene, n: int) -> bool {
    match was.view_mode {
        ViewMode::Playlist => library_shown(ui, was, n, body_rows(was, c)) && !ui.spectro_block_intact,
        ViewMode::Lyrics => ui == (UiState {
            spectro_block_intact: false,
            ..lyrics_shown(was, s, body_rows(was, c))
        }),
        _ => ui == (UiState { spectro_block_intact: s.look.viz_mode is SpectrogramAnalysis, ..was }),
    }
}

/// `s` with the note taken that the output clipped.
pub open spec fn clip_taken(s: PlayerState) -> PlayerState {
    PlayerState { clipping: false, ..s }
}

/// Makes a frame of the classic theme.
pub fn print_status_classic(state: &mut PlayerState, ui: &mut UiState, c: &Scene, playlist: &Vec<String>) -> (w:
    FrameWriter)
    requires
        old(ui).tree.wf(),
    ensures
        w@ == classic_frame(*old(state), *old(ui), *c, text::texts(playlist@)),
        classic_shown(*final(ui), *old(ui), *old(state), *c, playlist@.len() as int),
        *final(state) == clip_taken(*old(state)),
        final(ui).tree.wf(),
{
    let mut w: FrameWriter = write_head(state, c);
    ui.spectro_block_intact = false;
    match ui.view_mode {
        ViewMode::Playlist => {
            write_library(&mut w, ui, c, playlist);
        },
        ViewMode::Lyrics => {
            let cols: usize = c.term_w as usize;
            let rows: usize = body_rows_of(ui, c);
            let position: i128 = position_of(state, ui.lyrics.offset);
            let rule: String = rule_line_of(cols);
            w.line(rule.as_str());
            write_lyrics_body(&mut w, &mut ui.lyrics, position, cols, rows);
            let ghost body = w@;
            let foot: String = lyrics_footer_of(&ui.lyrics);
            let cut: String = truncate_ansi(foot.as_str(), cols);
            w.line(cut.as_str());
            assert(w@ =~= body + seq![frame::plain(cut@)]);
        },
        _ => {
            let analysis: bool = match state.look.viz_mode {
                VizMode::SpectrogramAnalysis => true,
                _ => false,
            };
            match state.look.viz_mode {
                VizMode::Off => {},
                _ => {
                    let rule: String = rule_line_of(c.term_w as usize);
                    w.line(rule.as_str());
                    w.all(c.viz_raw && analysis, &c.viz);
                },
            }
            ui.spectro_block_intact = analysis;
            match ui.active_status() {
                Some(m) => {
                    let mut s: String = "  ".to_owned();
                    s.push_str(C_GREEN);
                    s.push_str(m.as_str());
                    s.push_str(C_RESET);
                    w.line(s.as_str());
                },
                None => {},
            }
            assert(w@ =~= player_frame(*old(state), *old(ui), *c));
        },
    }
    state.clipping = false;
    w
}

/// The glyph of a slider's knob.
pub open spec fn knob_glyph(kind: ThemeKind) -> char {
    match kind {
        ThemeKind::Minimal => '\u{25cf}',
        ThemeKind::HiFi => '\u{25c6}',
        ThemeKind::Classic => '\u{2588}',
    }
}

/// What else shapes the sound, beside the equaliser.
pub open spec fn eq_readouts(r: Seq<(String, String)>, s: PlayerState, c: Scene) -> bool {
    &&& r.len() == 4
    &&& r[0].0@ == "FX"@ && r[0].1@ == c.fx_name@
    &&& r[1].0@ == "XFEED"@ && r[1].1@ == c.cf_name@
    &&& r[2].0@ == "BAL"@ && r[2].1@ == frame::balance_words(s.balance as int)
    &&& r[3].0@ == "RG"@ && r[3].1@ == (match s.rg_mode {
        RgMode::Album => "album"@,
        RgMode::Off => "off"@,
        RgMode::Track => "track"@,
    })
}

/// The title of the equaliser's screen.
pub open spec fn eq_title(s: PlayerState, c: Scene) -> Seq<char> {
    if s.eq_custom {
        "Custom"@
    } else {
        c.eq_name@
    }
}

/// The keys of the equaliser's screen.
pub open spec fn eq_keys(p: Palette) -> Seq<char> {
    "  "@ + p.dim@
        + "[\u{2190}\u{2192}] band   [\u{2191}\u{2193}] \u{b1}1 dB   [ [ / ] ] preset   [0] flatten band   [E/L/Esc] close"@
        + p.reset@
}

/// Whether a frame is the equaliser's.
pub open spec fn is_eq_frame(
    lines: Seq<(bool, Seq<char>)>,
    s: PlayerState,
    ui: UiState,
    c: Scene,
    bands: Seq<BandSettings>,
) -> bool {
    let p = theme::palette_of(s.look.theme);
    exists|r: Seq<(String, String)>|
        #[trigger] eq_readouts(r, s, c) && lines == frame::lines_of(
            false,
            eq_ui::eq_screen(
                bands,
                ui.eq_band as int,
                eq_title(s, c),
                r,
                knob_glyph(s.look.theme),
                p,
                text::minus(c.term_h as int, 2),
            ),
        ).push(frame::plain(eq_keys(p)))
}

/// Makes the equaliser's frame, which all themes share.
pub fn print_status_eq_view(state: &PlayerState, ui: &UiState, c: &Scene, bands: &Vec<BandSettings>) -> (w:
    FrameWriter)
    requires
        bands@.len() == state::EQ_BANDS,
        ui.eq_band < state::EQ_BANDS,
    ensures
        is_eq_frame(w@, *state, *ui, *c, bands@),
{
    let p: Palette = palette(state.look.theme);
    let knob: char = match state.look.theme {
        ThemeKind::Minimal => '\u{25cf}',
        ThemeKind::HiFi => '\u{25c6}',
        ThemeKind::Classic => '\u{2588}',
    };
    let title: &str = if state.eq_custom {
        "Custom"
    } else {
        c.eq_name.as_str()
    };
    let rg: &str = match state.rg_mode {
        RgMode::Album => "album",
        RgMode::Off => "off",
        RgMode::Track => "track",
    };
    let mut readouts: Vec<(String, String)> = Vec::new();
    readouts.push(("FX".to_owned(), c.fx_name.clone()));
    readouts.push(("XFEED".to_owned(), c.cf_name.clone()));
    readouts.push(("BAL".to_owned(), balance_text(state.balance)));
    readouts.push(("RG".to_owned(), rg.to_owned()));
    assert(eq_readouts(readouts@, *state, *c));
    let height: usize = if c.term_h > 2 {
        (c.term_h - 2) as usize
    } else {
        0
    };
    let body: Vec<String> = render_eq_screen(bands, ui.eq_band, title, &readouts, knob, &p, height);
    let mut w: FrameWriter = FrameWriter::new();
    w.all(false, &body);
    assert(w@ =~= frame::lines_of(false, text::texts(body@)));
    let mut keys: String = "  ".to_owned();
    keys.push_str(p.dim);
    keys.push_str(
        "[\u{2190}\u{2192}] band   [\u{2191}\u{2193}] \u{b1}1 dB   [ [ / ] ] preset   [0] flatten band   [E/L/Esc] close",
    );
    keys.push_str(p.reset);
    w.line(keys.as_str());
    w
}

/// Every frame of the library is as tall as the window allows: head, rule, body
/// and footer come to the window's height less the banner, where that leaves
/// room for a row.
pub proof fn library_frame_fills_the_window(s: PlayerState, ui: UiState, c: Scene, paths: Seq<Seq<char>>)
    requires
        ui.tree.wf(),
        c.term_h > 5 + ui.banner.lines,
    ensures
        library_frame(s, ui, c, paths).len() + ui.banner.lines == c.term_h,
{
    let rows = body_rows(ui, c);
    if ui.tree.mode {
        let p = theme::palette_of(ThemeKind::Classic);
        assert(tree_body(ui.tree, ui.queue.current, p, c.term_w as int, rows).len() == rows);
    } else {
        assert(list_body(ui, paths, c.term_w as int, rows).len() == rows);
    }
}

/// The player with the preset's gains, unless the bands were set by hand: the
/// curve shows them, and editing starts from them.
pub open spec fn with_preset(s: PlayerState, gains: [i32; state::EQ_BANDS]) -> PlayerState {
    if s.eq_custom {
        s
    } else {
        PlayerState { eq_gains: gains, ..s }
    }
}

/// Whether a frame is what the view and the theme ask for, and the player and
/// the screen are as they are after it.
pub open spec fn is_frame(
    lines: Seq<(bool, Seq<char>)>,
    s: PlayerState,
    ui: UiState,
    s0: PlayerState,
    ui0: UiState,
    c: Scene,
    bands: Seq<BandSettings>,
    paths: Seq<Seq<char>>,
) -> bool {
    let n = paths.len() as int;
    if ui0.view_mode is Eq {
        is_eq_frame(lines, s0, ui0, c, bands) && s == s0 && ui == ui0
    } else {
        match s0.look.theme {
            ThemeKind::Classic => lines == classic_frame(s0, ui0, c, paths) && classic_shown(ui, ui0, s0, c, n) && s
                == clip_taken(s0),
            ThemeKind::Minimal => match ui0.view_mode {
                ViewMode::Playlist => {
                    &&& lines == ui_minimal::library_frame(ui0, c, paths)
                    &&& library_shown(ui, ui0, n, ui_minimal::library_rows(ui0, c))
                    &&& ui.spectro_block_intact == ui0.spectro_block_intact
                    &&& s == s0
                },
                ViewMode::Lyrics => {
                    &&& lines == ui_minimal::lyrics_frame(s0, ui0, c)
                    &&& ui == lyrics_shown(ui0, s0, ui_minimal::lyrics_rows(ui0, c))
                    &&& s == s0
                },
                _ => {
                    &&& lines == ui_minimal::player_frame(s0, ui0, c)
                    &&& ui == (UiState {
                        spectro_block_intact: s0.look.viz_mode is SpectrogramAnalysis,
                        cover: ui_minimal::pane_after(
                            ui0.cover,
                            ui_minimal::layout(c.term_w as int, ui0.cover.enabled),
                        ),
                        ..ui0
                    })
                    &&& s == clip_taken(s0)
                },
            },
            ThemeKind::HiFi => s == s0 && match ui0.view_mode {
                ViewMode::Playlist => {
                    &&& lines == ui_hifi::library_frame(ui0, c, paths)
                    &&& library_shown(ui, ui0, n, ui_hifi::library_rows(ui0, c))
                    &&& ui.spectro_block_intact == ui0.spectro_block_intact
                },
                ViewMode::Lyrics => {
                    &&& lines == ui_hifi::lyrics_frame(s0, ui0, c)
                    &&& ui == lyrics_shown(ui0, s0, ui_hifi::lyrics_rows(ui0, c))
                },
                _ => lines == ui_hifi::player_frame(s0, ui0, c) && ui == ui0,
            },
        }
    }
}

/// The screen with the lyrics moved to the line that is sung.
pub open spec fn lyrics_shown(ui: UiState, s: PlayerState, rows: int) -> UiState {
    UiState {
        lyrics: frame::shown_lyrics(ui.lyrics, frame::lyrics_position(s, ui.lyrics.offset as int), rows),
        ..ui
    }
}

/// Makes the frame that the view and the theme ask for.
pub fn print_status(
    state: &mut PlayerState,
    ui: &mut UiState,
    c: &Scene,
    gains: [i32; state::EQ_BANDS],
    bands: &Vec<BandSettings>,
    playlist: &Vec<String>,
) -> (w: FrameWriter)
    requires
        old(ui).tree.wf(),
        bands@.len() == state::EQ_BANDS,
        old(ui).eq_band < state::EQ_BANDS,
        old(ui).cover.cover matches Some(img) ==> cover::is_whole(img),
    ensures
        is_frame(
            w@,
            *final(state),
            *final(ui),
            with_preset(*old(state), gains),
            *old(ui),
            *c,
            bands@,
            text::texts(playlist@),
        ),
        final(ui).tree.wf(),
{
    assert(text::texts(playlist@).len() == playlist@.len());
    if !state.eq_custom {
        state.set_eq_gains(gains);
    }
    match ui.view_mode {
        ViewMode::Eq => {
            return print_status_eq_view(state, ui, c, bands);
        },
        _ => {},
    }
    match state.look.theme {
        ThemeKind::Classic => print_status_classic(state, ui, c, playlist),
        ThemeKind::Minimal => match ui.view_mode {
            ViewMode::Playlist => print_status_minimal_library(ui, c, playlist),
            ViewMode::Lyrics => print_status_minimal_lyrics(state, ui, c),
            _ => print_status_minimal(state, ui, c),
        },
        ThemeKind::HiFi => match ui.view_mode {
            ViewMode::Playlist => print_status_hifi_library(ui, c, playlist),
            ViewMode::Lyrics => print_status_hifi_lyrics(state, ui, c),
            _ => print_status_hifi(state, ui, c),
        },
    }
}

} // verus!
