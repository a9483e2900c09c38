//! What a listener can count on of the screen: what the words and numbers on it say.
use crate::ansi;
use crate::banner;
use crate::banner::Shown;
use crate::cover;
use crate::cover::GraphicsProtocol;
use crate::eq_ui;
use crate::equalizer;
use crate::equalizer::{BandSettings, BandType};
use crate::frame;
use crate::frame::{FrameLine, FrameWriter, Level, Scene};
use crate::library;
use crate::library::{FoldState, VisibleRow};
use crate::list_view;
use crate::list_view::ListView;
use crate::lyrics::Lyrics;
use crate::metadata;
use crate::metadata::MetadataCache;
use crate::state::{
    InputMode, PlayerState, RepeatMode, Transport, VizMode, VizStyle, C_BOLD, C_CYAN, C_DIM, C_GREEN, C_RESET, C_YELLOW, EQ_BANDS,
};
use crate::text;
use crate::theme;
use crate::theme::{Borders, Palette, ThemeKind};
use crate::tree_view;
use crate::ui;
use crate::ui_hifi;
use crate::ui_minimal;
use crate::ui_state::{LyricsPane, UiState};
use vstd::prelude::*;

verus! {

/// A number below a hundred in two digits.
pub open spec fn two(n: int) -> Seq<char> {
    seq![text::digit((n / 10) as nat), text::digit((n % 10) as nat)]
}

proof fn lemma_two(n: int)
    requires
        0 <= n < 100,
    ensures
        frame::dec2(n as nat) == two(n),
{
    if n < 10 {
        assert(text::dec(n as nat).len() == 1);
        assert(text::rep('0', 1) =~= seq!['0']);
        assert(frame::dec2(n as nat) =~= two(n));
    } else {
        assert(text::dec((n / 10) as nat) =~= seq![text::digit((n / 10) as nat)]);
        assert(text::dec(n as nat) =~= two(n));
    }
}

/// A time reads as minutes and seconds, and as hours too from an hour on: sixty
/// seconds to the minute, sixty minutes to the hour.
pub proof fn times_read_as_a_clock(h: u32, m: int, s: int, total: u64, r: String)
    requires
        0 <= m < 60,
        0 <= s < 60,
        total == (h * 60 + m) * 60 + s,
        call_ensures(frame::format_time, (total,), r),
    ensures
        h == 0 ==> r@ == two(m) + ":"@ + two(s),
        h > 0 ==> r@ == text::dec(h as nat) + ":"@ + two(m) + ":"@ + two(s),
{
    lemma_two(m);
    lemma_two(s);
    assert(total / 3600 == h);
    assert(total % 3600 / 60 == m);
    assert(total % 60 == s);
    if h == 0 {
        assert(total / 60 == m);
    }
}

/// Where hours are not shown, minutes go on beyond sixty.
pub proof fn minutes_go_on(m: int, s: int, total: u64, r: String)
    requires
        0 <= m < 100,
        0 <= s < 60,
        total == m * 60 + s,
        call_ensures(frame::format_minutes, (total,), r),
    ensures
        r@ == two(m) + ":"@ + two(s),
{
    lemma_two(m);
    lemma_two(s);
}

/// The balance is named by its side.
pub proof fn the_balance_is_named_by_its_side(b: i32, r: String)
    requires
        -100 <= b <= 100,
        call_ensures(frame::balance_text, (b,), r),
    ensures
        b == 0 ==> r@ == "centred"@,
        b < 0 ==> r@ == "L"@ + text::dec((-b) as nat) + "%"@,
        b > 0 ==> r@ == "R"@ + text::dec(b as nat) + "%"@,
{
}

/// The lyrics' offset reads in seconds, a half for every odd step.
pub proof fn offsets_read_in_seconds(k: i32, whole: i64, half: i64, r: String, s: String)
    requires
        whole == 2 * k,
        half == 2 * k + 1,
        call_ensures(frame::offset_text, (whole,), r),
        call_ensures(frame::offset_text, (half,), s),
    ensures
        k >= 0 ==> r@ == "+"@ + text::dec(k as nat) + ".0"@ && s@ == "+"@ + text::dec(k as nat) + ".5"@,
        k < 0 ==> r@ == "-"@ + text::dec((-k) as nat) + ".0"@,
        k < 0 ==> s@ == "-"@ + text::dec((-k - 1) as nat) + ".5"@,
{
}

/// The bar is as long as the part of the track that was heard: empty at its start,
/// full at its end, and never shorter later on.
pub proof fn progress_follows_the_track(s: PlayerState, later: PlayerState, n: u32, a: u32, b: u32)
    requires
        call_ensures(frame::progress_parts, (&s, n), a),
        call_ensures(frame::progress_parts, (&later, n), b),
        later.track.total_samples == s.track.total_samples,
        later.track.sample_rate == s.track.sample_rate,
        later.track.output_rate == s.track.output_rate,
        s.track.samples_played <= later.track.samples_played,
        s.track.total_samples > 0,
        s.track.output_rate > 0,
        s.track.sample_rate == s.track.output_rate,
    ensures
        a <= b <= n,
        s.track.samples_played == 0 ==> a == 0,
        s.track.samples_played <= s.track.total_samples ==> a * s.track.total_samples <= n * s.track.samples_played < (a
            + 1) * s.track.total_samples,
        s.track.samples_played >= s.track.total_samples ==> a == n,
{
    let t = s.track.total_samples as int;
    let o = s.track.output_rate as int;
    lemma_share(n as int, s.track.samples_played as int, t, o);
    lemma_share(n as int, later.track.samples_played as int, t, o);
    let p = s.track.samples_played as int;
    let q = later.track.samples_played as int;
    let x = n * (p * o) / (t * o);
    let y = n * (q * o) / (t * o);
    assert(x <= y) by (nonlinear_arith)
        requires
            x * t <= n * p < (x + 1) * t,
            y * t <= n * q < (y + 1) * t,
            p <= q,
            n >= 0,
            t > 0,
    ;
    if p >= t {
        assert(x >= n) by (nonlinear_arith)
            requires
                n * p < (x + 1) * t,
                p >= t,
                n >= 0,
                t > 0,
        ;
    }
    if p <= t {
        assert(x <= n) by (nonlinear_arith)
            requires
                x * t <= n * p,
                p <= t,
                n >= 0,
                t > 0,
        ;
    }
}

proof fn lemma_share(n: int, p: int, t: int, o: int)
    requires
        n >= 0,
        p >= 0,
        t > 0,
        o > 0,
    ensures
        t * o > 0,
        n * (p * o) / (t * o) >= 0,
        n * (p * o) / (t * o) * t <= n * p < (n * (p * o) / (t * o) + 1) * t,
        p == 0 ==> n * (p * o) / (t * o) == 0,
{
    assert(t * o > 0) by (nonlinear_arith)
        requires
            t > 0,
            o > 0,
    ;
    let all = t * o;
    let x = n * (p * o) / all;
    assert(n * (p * o) == n * p * o) by (nonlinear_arith);
    let v = n * p * o;
    assert(v >= 0) by (nonlinear_arith)
        requires
            n >= 0,
            p >= 0,
            o > 0,
            v == n * p * o,
    ;
    assert(x >= 0 && x * all <= v < (x + 1) * all) by (nonlinear_arith)
        requires
            all > 0,
            v >= 0,
            x == v / all,
    ;
    let w = n * p;
    assert(x * t <= w < (x + 1) * t) by (nonlinear_arith)
        requires
            x * all <= v < (x + 1) * all,
            all == t * o,
            v == w * o,
            o > 0,
    ;
    if p == 0 {
        assert(n * (0 * o) == 0) by (nonlinear_arith);
    }
}

/// The eighths of a block grow with the number they stand for.
pub proof fn blocks_grow(i: u32, a: char, b: char)
    requires
        i < 7,
        call_ensures(frame::block_char, (i,), a),
        call_ensures(frame::block_char, ((i + 1) as u32,), b),
    ensures
        a as u32 == b as u32 + 1,
        i == 6 ==> b == '\u{2588}',
{
}

/// One more line of a frame is painted below the others, on a line of its own.
pub proof fn lines_are_painted_in_their_order(w: FrameWriter, more: FrameWriter, l: FrameLine, a: String, b: String)
    requires
        w.lines@.len() > 0,
        more.lines@ == w.lines@.push(l),
        call_ensures(FrameWriter::emit, (&w, None), a),
        call_ensures(FrameWriter::emit, (&more, None), b),
    ensures
        exists|up: Seq<char>|
            a@ == #[trigger] (up + "\x1B[J"@) && (l.raw ==> b@ == up + "\n\r"@ + l.text@ + "\x1B[J"@) && (!l.raw ==> b@
                == up + "\n\r\x1B[K"@ + l.text@ + "\x1B[J"@),
{
    let x = w@;
    let y = more@;
    let n = x.len() as int;
    assert(y =~= x.push(l@));
    lemma_painted(x, y, n);
    let up = frame::painted(x, n);
    assert(a@ =~= up + "\x1B[J"@);
    assert(b@ =~= up + (if l.raw {
        "\n\r"@
    } else {
        "\n\r\x1B[K"@
    }) + l.text@ + "\x1B[J"@);
}

proof fn lemma_painted(x: Seq<(bool, Seq<char>)>, y: Seq<(bool, Seq<char>)>, n: int)
    requires
        0 <= n <= x.len() <= y.len(),
        forall|i: int| 0 <= i < x.len() ==> x[i] == #[trigger] y[i],
    ensures
        frame::painted(x, n) == frame::painted(y, n),
    decreases n,
{
    if n > 0 {
        lemma_painted(x, y, n - 1);
        assert(x[n - 1] == y[n - 1]);
    }
}

/// The position for the lyrics is the time that was heard, shifted by half a second
/// for every step of the offset.
pub proof fn lyrics_follow_the_clock(s: PlayerState, secs: u32, offset: i64, r: i128)
    requires
        call_ensures(frame::position_of, (&s, offset), r),
        s.track.output_rate > 0,
        s.track.samples_played == secs * s.track.output_rate,
    ensures
        r == secs * 1_000_000_000 + offset * 500_000_000,
{
    let o = s.track.output_rate as int;
    let k = secs as int;
    assert(k * o * 1_000_000_000 / o == k * 1_000_000_000) by (nonlinear_arith)
        requires
            o > 0,
    ;
}

/// However the list is scrolled, the cursor is on the screen.
pub proof fn the_cursor_is_on_the_screen(l: &mut ListView, n: usize, rows: usize, count: usize)
    requires
        rows > 0,
        call_ensures(frame::scroll_list, (l, false, n, rows), count),
        old(l)@.filtered.len() == 0,
        old(l)@.cursor < n,
    ensures
        final(l)@.cursor == old(l)@.cursor,
        final(l)@.scroll <= final(l)@.cursor < final(l)@.scroll + rows,
        final(l)@.scroll + count <= n,
        count <= rows,
        count == rows || final(l)@.scroll + count == n,
{
    frame::list_cursor_is_on_the_screen(old(l)@.cursor, old(l)@.scroll, rows as int, n as int);
}

/// While the lyrics follow the song, the line that is sung is on the screen.
pub proof fn the_sung_line_is_on_the_screen(
    p: &mut LyricsPane,
    position: i128,
    rows: usize,
    sung: Option<usize>,
    l: Lyrics,
    now: Option<usize>,
)
    requires
        call_ensures(frame::scroll_lyrics, (p, position, rows), sung),
        old(p).lyrics == Some(l),
        call_ensures(Lyrics::current_line, (&l, position), now),
        rows > 0,
    ensures
        sung == now,
        l is Synced && old(p).auto_scroll && now is Some && now->0 < l.count() ==> final(p).scroll <= now->0
            < final(p).scroll + rows,
        final(p).offset == old(p).offset && final(p).auto_scroll == old(p).auto_scroll,
        l.count() <= rows ==> final(p).scroll == 0,
{
    match l {
        Lyrics::Synced(v) => {
            assert(v@.len() == v.len());
        },
        Lyrics::Plain(v) => {
            assert(v@.len() == v.len());
        },
    }
}

/// A rate reads in kilohertz with one decimal.
pub proof fn rates_read_in_kilohertz(rate: u32, r: String)
    requires
        rate % 100 == 0,
        call_ensures(frame::khz_text, (rate,), r),
    ensures
        r@ == text::dec((rate / 1000) as nat) + "."@ + seq![text::digit((rate % 1000 / 100) as nat)],
{
    assert(frame::khz_tenths(rate as int) == rate / 100);
    let t = (rate / 100) as nat;
    assert(t / 10 == rate / 1000);
    assert(t % 10 == rate % 1000 / 100);
    assert(text::dec(t % 10) =~= seq![text::digit(t % 10)]);
    assert(equalizer::tenths(t) =~= text::dec(t / 10) + "."@ + text::dec(t % 10));
}

/// How tracks follow one another, in words.
pub open spec fn order_words(shuffle: bool, repeat: RepeatMode) -> Seq<char> {
    let order = if shuffle {
        "shuffle"@
    } else {
        "sequential"@
    };
    match repeat {
        RepeatMode::Off => order,
        RepeatMode::All => order + " | repeat"@,
        RepeatMode::One => order + " | repeat-1"@,
    }
}

/// The banner says whether tracks are shuffled and what is repeated. It is shown in
/// the classic theme alone.
pub proof fn the_banner_says_how_tracks_follow(
    shuffle: bool,
    repeat: RepeatMode,
    s: PlayerState,
    b: Shown,
    r: String,
)
    requires
        call_ensures(banner::build_banner_box, (shuffle, repeat, &s, &b), r),
    ensures
        s.look.theme !is Classic ==> r@.len() == 0,
        s.look.theme is Classic ==> exists|x: Seq<char>, y: Seq<char>|
            r@ == #[trigger] (x + order_words(shuffle, repeat) + y),
{
    if s.look.theme is Classic {
        reveal_strlit("");
        assert(""@ =~= Seq::<char>::empty());
        let bar = text::rep('\u{2550}', banner::BANNER_W as nat);
        let x = "\u{2554}"@ + bar + "\u{2557}\n"@ + "\u{2551}"@ + text::spaces(26) + "Keet"@ + text::spaces(27)
            + "\u{2551}\n"@ + "\u{2560}"@ + bar + "\u{2563}\n"@ + "\u{2551}  "@;
        let head = (if shuffle {
            "shuffle"@
        } else {
            "sequential"@
        }) + repeat.banner();
        let info = banner::settings_line(
            shuffle,
            repeat,
            b.hq,
            s,
            b.crossfade_secs,
            b.eq_name@,
            b.fx_name@,
            b.cf_name@,
        );
        assert(head =~= order_words(shuffle, repeat));
        let rest = lemma_seven(
            head,
            if b.hq {
                " | HQ"@
            } else {
                Seq::empty()
            },
            ui::unusual(" | EQ: "@, b.eq_name@, "Flat"@),
            ui::unusual(" | FX: "@, b.fx_name@, "None"@),
            if b.crossfade_secs > 0 {
                " | xfade: "@ + text::dec(b.crossfade_secs as nat) + "s"@
            } else {
                Seq::empty()
            },
            ui::unusual(" | crossfeed: "@, b.cf_name@, "Off"@),
            banner::balance_part(s.balance as int),
        );
        assert(info == head + rest);
        let pad = text::spaces(text::minus(banner::BANNER_W as int, (info.len() + 2) as int));
        let behind = lemma_seven(x + info, pad, "\u{2551}\n"@, "\u{255a}"@, bar, "\u{255d}\n"@, Seq::empty());
        assert(r@ =~= x + info + pad + "\u{2551}\n"@ + "\u{255a}"@ + bar + "\u{255d}\n"@ + Seq::empty());
        lemma_part_within(x, head, rest, behind);
        assert(r@ == x + order_words(shuffle, repeat) + (rest + behind));
    }
}

proof fn lemma_part_within(x: Seq<char>, head: Seq<char>, rest: Seq<char>, behind: Seq<char>)
    ensures
        x + (head + rest) + behind == x + head + (rest + behind),
{
    assert(x + (head + rest) + behind =~= x + head + (rest + behind));
}

proof fn lemma_seven(
    a: Seq<char>,
    b: Seq<char>,
    c: Seq<char>,
    d: Seq<char>,
    e: Seq<char>,
    f: Seq<char>,
    g: Seq<char>,
) -> (rest: Seq<char>)
    ensures
        a + b + c + d + e + f + g == a + rest,
{
    let rest = b + c + d + e + f + g;
    assert(a + b + c + d + e + f + g =~= a + rest);
    rest
}

/// What a track is like, in words.
pub open spec fn sound_words(s: PlayerState, rate: u32) -> Seq<char> {
    let channels = if s.track.channels == 1 {
        "mono"@
    } else if s.track.channels == 2 {
        "stereo"@
    } else {
        text::dec(s.track.channels as nat) + "ch"@
    };
    let rates = if s.track.sample_rate == rate {
        text::dec(rate as nat) + "Hz"@
    } else {
        text::dec(s.track.sample_rate as nat) + "\u{2192}"@ + text::dec(rate as nat) + "Hz"@
    };
    text::dec(s.track.bits_per_sample as nat) + "bit "@ + channels + " \u{2022} "@ + rates
}

/// What is said of a track: how many bits, how many channels, and whether its rate is
/// changed on the way.
pub proof fn the_track_is_described(s: PlayerState, rate: u32, r: String)
    requires
        call_ensures(banner::track_info, (&s, rate), r),
    ensures
        exists|time: Seq<char>| r@ == #[trigger] (time + " \u{2022} "@ + sound_words(s, rate)),
{
    let time = frame::clock(PlayerState::seconds(s.track.total_samples, s.track.sample_rate) as nat);
    assert(r@ =~= time + " \u{2022} "@ + sound_words(s, rate));
}

/// A frame comes every fiftieth of a thousand milliseconds, but for the analysis,
/// which comes with its columns.
pub proof fn frames_come_in_time(s: PlayerState, r: u64)
    requires
        call_ensures(banner::frame_interval, (&s,), r),
    ensures
        s.look.viz_mode !is SpectrogramAnalysis ==> r * 20 == 1000,
{
}

/// Pipes that are closed are no crash worth noting, and everything else is.
pub proof fn closed_pipes_are_no_crash(info: &str, r: bool)
    requires
        call_ensures(banner::should_log_crash, (info,), r),
    ensures
        text::has_text(info@, "Broken pipe"@) ==> !r,
        text::has_text(info@, "The pipe has been ended"@) ==> !r,
        text::has_text(info@, "The pipe is being closed"@) ==> !r,
        info@.len() == 0 ==> r,
{
    reveal_strlit("Broken pipe");
    reveal_strlit("The pipe has been ended");
    reveal_strlit("The pipe is being closed");
}

/// A message is on the screen for two seconds, and then no more.
pub proof fn messages_come_and_go(ui: &mut UiState, m: String, later: &mut UiState, taken: Option<String>)
    requires
        call_ensures(UiState::set_status, (ui, m), ()),
        final(ui).status_message == old(later).status_message,
        final(ui).now <= old(later).now,
        call_ensures(UiState::take_status, (later,), taken),
    ensures
        final(ui).status_message matches Some((t, at)) && t@ == m@ && at == old(ui).now,
        old(later).now < final(ui).now + 2000 ==> taken is Some && taken->0@ == m@,
        old(later).now >= final(ui).now + 2000 ==> taken is None,
        final(ui).view_mode == old(ui).view_mode && final(ui).now == old(ui).now,
{
}

/// The classic screen shows whether it plays: a sign and a colour, and nothing else
/// changes on a pause.
pub proof fn a_pause_is_shown(s: PlayerState, paused: PlayerState)
    requires
        !s.transport.paused,
        paused == (PlayerState { transport: Transport { paused: true, ..s.transport }, ..s }),
    ensures
        exists|rest: Seq<char>|
            ui::time_part(s) == #[trigger] ("  "@ + C_GREEN@ + "\u{25b6}"@ + rest) && ui::time_part(paused) == "  "@
                + C_YELLOW@ + "\u{23f8}"@ + rest,
{
    let times = frame::clock(PlayerState::seconds(s.track.samples_played, s.track.output_rate) as nat);
    let total = frame::clock(PlayerState::seconds(s.track.total_samples, s.track.sample_rate) as nat);
    let rest = C_RESET@ + " "@ + C_BOLD@ + "["@ + times + "/"@ + total + "]"@ + C_RESET@ + " "@ + C_GREEN@ + ui::bar(s)
        + C_RESET@ + " "@ + C_DIM@;
    assert(ui::bar(paused) == ui::bar(s));
    lemma_time_part(s, "  "@ + C_GREEN@ + "\u{25b6}"@, times, total, rest);
    lemma_time_part(paused, "  "@ + C_YELLOW@ + "\u{23f8}"@, times, total, rest);
}

proof fn lemma_time_part(s: PlayerState, head: Seq<char>, times: Seq<char>, total: Seq<char>, rest: Seq<char>)
    requires
        head == "  "@ + (if s.transport.paused {
            C_YELLOW@
        } else {
            C_GREEN@
        }) + (if s.transport.paused {
            "\u{23f8}"@
        } else {
            "\u{25b6}"@
        }),
        times == frame::clock(PlayerState::seconds(s.track.samples_played, s.track.output_rate) as nat),
        total == frame::clock(PlayerState::seconds(s.track.total_samples, s.track.sample_rate) as nat),
        rest == C_RESET@ + " "@ + C_BOLD@ + "["@ + times + "/"@ + total + "]"@ + C_RESET@ + " "@ + C_GREEN@ + ui::bar(s)
            + C_RESET@ + " "@ + C_DIM@,
    ensures
        ui::time_part(s) == head + rest,
{
    assert(ui::time_part(s) =~= head + rest);
}

/// It shows the time that was heard and that of the whole track, in this order.
pub proof fn the_times_are_shown(s: PlayerState, t: u64, total: u64, a: String, b: String)
    requires
        call_ensures(PlayerState::time_secs, (&s,), t),
        call_ensures(PlayerState::total_secs, (&s,), total),
        call_ensures(frame::format_time, (t,), a),
        call_ensures(frame::format_time, (total,), b),
    ensures
        exists|before: Seq<char>, behind: Seq<char>|
            ui::time_part(s) == #[trigger] (before + ("["@ + a@ + "/"@ + b@ + "]"@) + behind),
{
    let before = "  "@ + (if s.transport.paused {
        C_YELLOW@
    } else {
        C_GREEN@
    }) + (if s.transport.paused {
        "\u{23f8}"@
    } else {
        "\u{25b6}"@
    }) + C_RESET@ + " "@ + C_BOLD@;
    let behind = C_RESET@ + " "@ + C_GREEN@ + ui::bar(s) + C_RESET@ + " "@ + C_DIM@;
    assert(ui::time_part(s) =~= before + ("["@ + a@ + "/"@ + b@ + "]"@) + behind);
}

/// It shows how loud it is, first of all of the sound.
pub proof fn the_volume_is_shown(s: PlayerState, c: Scene)
    ensures
        text::opens_with(ui::sound_part(s, c), "vol:"@ + text::dec(s.volume as nat) + "%"@),
{
    let head = "vol:"@ + text::dec(s.volume as nat) + "%"@;
    assert(ui::sound_part(s, c).take(head.len() as int) =~= head);
}

/// The count of tracks starts at one.
pub proof fn tracks_are_counted_from_one(s: PlayerState)
    requires
        s.track.current_track < u64::MAX,
    ensures
        ui::counter(s) == "["@ + text::dec((s.track.current_track + 1) as nat) + "/"@ + text::dec(
            s.track.total_tracks as nat,
        ) + "]"@,
{
}

/// In the list the track that plays, and no other, has a mark in front; the one under
/// the cursor, and no other, is shown reversed.
pub proof fn rows_are_marked(e: metadata::TrackMetaV, p: Seq<char>, track: int, playing: bool, cursor: bool, w: int)
    ensures
        text::opens_with(ui::list_row(e, p, track, playing, cursor, w), " \u{25b6} "@) <==> playing,
        text::opens_with(ui::list_row(e, p, track, playing, cursor, w).skip(3), "\x1B[7m"@) <==> cursor,
{
    reveal_strlit(" \u{25b6} ");
    reveal_strlit("   ");
    reveal_strlit("\x1B[7m");
    reveal_strlit("\x1B[32m");
    reveal_strlit("\x1B[2m");
    let r = ui::list_row(e, p, track, playing, cursor, w);
    let mark = if playing {
        " \u{25b6} "@
    } else {
        "   "@
    };
    assert(r.take(3) =~= mark);
    assert(" \u{25b6} "@[1] == '\u{25b6}' && "   "@[1] == ' ');
    assert("\x1B[7m"@[2] == '7' && "\x1B[32m"@[2] == '3' && "\x1B[2m"@[2] == '2');
    let d = r.skip(3);
    if cursor {
        assert(d.take(4) =~= "\x1B[7m"@);
    } else {
        let color = if playing {
            C_GREEN@
        } else {
            C_DIM@
        };
        assert(d[2] == color[2]);
        if text::opens_with(d, "\x1B[7m"@) {
            assert(d.take(4)[2] == d[2]);
        }
    }
}

/// In the lyrics the line that is sung stands out, and every line has its own text.
pub proof fn the_sung_line_stands_out(l: Lyrics, i: int, sung: Option<int>, w: int)
    requires
        0 <= i < l.count(),
    ensures
        sung == Some(i) ==> ui::lyric_line(l, i, sung, w) == (
            false,
            ansi::cut("  "@ + C_BOLD@ + C_CYAN@ + l.text_at(i) + C_RESET@, w),
        ),
        sung != Some(i) ==> ui::lyric_line(l, i, sung, w) == (
            false,
            ansi::cut("  "@ + C_DIM@ + l.text_at(i) + C_RESET@, w),
        ),
{
}

/// What is typed is shown, and else a message, where there is one.
pub proof fn what_is_typed_is_shown(ui: UiState)
    ensures
        ui.input_mode matches InputMode::Search(q) ==> text::opens_with(ui::library_footer(ui), "  / "@ + q@),
        ui.input_mode matches InputMode::SavePlaylist(n) ==> text::opens_with(
            ui::library_footer(ui),
            "  Save playlist as: "@ + n@,
        ),
        ui.input_mode is Normal && ui.message() is Some ==> text::opens_with(
            ui::library_footer(ui),
            "  "@ + C_GREEN@ + ui.message()->0,
        ),
{
    let f = ui::library_footer(ui);
    match ui.input_mode {
        InputMode::Search(q) => {
            let head = "  / "@ + q@;
            assert(f.take(head.len() as int) =~= head);
        },
        InputMode::SavePlaylist(n) => {
            let head = "  Save playlist as: "@ + n@;
            assert(f.take(head.len() as int) =~= head);
        },
        InputMode::Normal => {
            if ui.message() is Some {
                let head = "  "@ + C_GREEN@ + ui.message()->0;
                assert(f.take(head.len() as int) =~= head);
            }
        },
    }
}

/// Each view of the classic theme is shown with the head on top; that the sound was
/// cut off is shown once.
pub proof fn the_classic_screen_has_its_head_on_top(
    s: &mut PlayerState,
    ui: &mut UiState,
    c: Scene,
    list: Vec<String>,
    w: FrameWriter,
)
    requires
        old(ui).tree.wf(),
        call_ensures(ui::print_status_classic, (s, ui, &c, &list), w),
    ensures
        w@.len() >= 2,
        w@[0] == (false, ui::track_line(*old(s), c)),
        w@[1] == (false, ansi::cut(ui::time_part(*old(s)) + ui::sound_part(*old(s), c), c.term_w as int)),
        !final(s).clipping,
        final(s).volume == old(s).volume && final(s).transport == old(s).transport,
        old(ui).view_mode is Player && old(ui).message() is Some ==> w@.last() == (
            false,
            "  "@ + C_GREEN@ + old(ui).message()->0 + C_RESET@,
        ),
        old(ui).view_mode is Player && old(s).look.viz_mode is Off && c.eq_curve@.len() == 0 && old(ui).message() is None
            ==> w@.len() == 2,
{
    let head = ui::head_lines(*old(s), c);
    assert(head[0] == frame::plain(ui::track_line(*old(s), c)));
    assert(head[1] == frame::plain(ui::progress_line(*old(s), c)));
    assert(w@[0] == head[0]);
    assert(w@[1] == head[1]);
}

/// A bar is filled by eighths of a column: after whole columns the rest is a rail.
pub proof fn bars_are_filled_by_eighths(k: u32, width: u32, fg: &str, rule: &str, reset: &str, r: String, solid: String)
    requires
        k <= width <= 0xffff,
        call_ensures(ui_minimal::render_progress_bar, ((8 * k) as u32, width, fg, rule, reset), r),
        call_ensures(ui_hifi::render_solid_bar, ((8 * k) as u32, width), solid),
    ensures
        r@ == fg@ + text::rep('\u{2588}', k as nat) + rule@ + text::rep('\u{2500}', (width - k) as nat) + reset@,
        k < width ==> solid@ == text::rep('\u{2588}', k as nat) + "\x1B[38;2;122;94;58m"@ + text::rep(
            '\u{2588}',
            (width - k) as nat,
        ),
        k == width ==> solid@ == text::rep('\u{2588}', k as nat),
{
    assert(r@ =~= fg@ + text::rep('\u{2588}', k as nat) + rule@ + text::rep('\u{2500}', (width - k) as nat) + reset@);
    if k < width {
        assert(solid@ =~= text::rep('\u{2588}', k as nat) + "\x1B[38;2;122;94;58m"@ + text::rep(
            '\u{2588}',
            (width - k) as nat,
        ));
    } else {
        assert(solid@ =~= text::rep('\u{2588}', k as nat));
    }
}

/// The heading is the title, where the track has one, and else its name; below it are
/// artist and album, as far as they are known.
pub proof fn the_track_is_headed_by_its_title(cache: Seq<metadata::TrackMetaV>, i: int, name: Seq<char>)
    requires
        0 <= i < cache.len(),
    ensures
        cache[i].title is Some ==> ui_minimal::heading(cache, i, name) == cache[i].title->0,
        cache[i].title is None ==> ui_minimal::heading(cache, i, name) == name,
        cache[i].artist is None && cache[i].album is Some ==> ui_minimal::by_line(cache[i]) == cache[i].album->0,
        cache[i].artist is Some && cache[i].album is None ==> ui_minimal::by_line(cache[i]) == cache[i].artist->0,
        cache[i].artist is Some && cache[i].artist->0.len() > 0 && cache[i].album is Some ==> ui_minimal::by_line(
            cache[i],
        ) == cache[i].artist->0 + "  \u{b7}  "@ + cache[i].album->0,
{
}

/// The minimal screen says whether it plays, and how loud.
pub proof fn the_minimal_screen_says_what_it_does(
    s: PlayerState,
    cache: Seq<metadata::TrackMetaV>,
    c: Scene,
    p: Palette,
    w: int,
)
    ensures
        s.transport.paused ==> ui_minimal::ident_cells(s, cache, c, p, w)[3] == ui_minimal::cell(
            p.dim@ + "PAUSED"@ + p.reset@,
            6,
            w,
        ),
        !s.transport.paused ==> ui_minimal::ident_cells(s, cache, c, p, w)[3] == ui_minimal::cell(
            p.dim@ + "NOW PLAYING"@ + p.reset@,
            11,
            w,
        ),
        ui_minimal::signal_column(s, c, p)[3] == ui_minimal::signal_row(
            p,
            "volume"@,
            text::dec(s.volume as nat) + "%"@,
            false,
            30,
        ),
        s.look.pre_fader ==> ui_minimal::signal_column(s, c, p)[5] == ui_minimal::signal_row(
            p,
            "fader"@,
            "pre"@,
            false,
            30,
        ),
{
    reveal_strlit("PAUSED");
    reveal_strlit("NOW PLAYING");
}

/// A row of signal has its name on the left and its value on the right, and fills its
/// width where both fit.
pub proof fn signals_fill_their_width(p: Palette, key: &str, value: &str, good: bool, width: usize, r: String)
    requires
        call_ensures(ui_minimal::render_signal_row, (&p, key, value, good, width), r),
        key@.len() + value@.len() < width,
    ensures
        text::opens_with(r@, p.dim@ + key@ + p.reset@),
        good ==> r@ == p.dim@ + key@ + p.reset@ + text::spaces(width - key@.len() - value@.len()) + p.accent@ + value@
            + p.reset@,
        !good ==> r@ == p.dim@ + key@ + p.reset@ + text::spaces(width - key@.len() - value@.len()) + p.fg@ + value@
            + p.reset@,
{
    let head = p.dim@ + key@ + p.reset@;
    assert(r@.take(head.len() as int) =~= head);
}

/// The numbers of a list start at one; the track that plays has a mark in their place.
pub proof fn the_minimal_list_marks_what_plays(track: int)
    requires
        0 <= track < 99,
    ensures
        ui_minimal::row_number(track, false) == two(track + 1) + "  "@,
        ui_minimal::row_number(track, true) == "\u{25b6}   "@,
{
    lemma_two(track + 1);
}

proof fn lemma_length(cache: Seq<metadata::TrackMetaV>, n: int)
    ensures
        ui_minimal::length_of(cache, n) >= 0,
    decreases n,
{
    if n > 0 {
        lemma_length(cache, n - 1);
    }
}

/// The length of a list is that of its tracks together: one more track adds its own.
pub proof fn lengths_are_added(cache: MetadataCache, n: usize, d: u64)
    requires
        n < cache@.len(),
        cache@[n as int].duration == Some(d),
    ensures
        ui_minimal::length_of(cache@, n + 1) == ui_minimal::length_of(cache@, n as int) + d,
        ui_minimal::length_of(cache@, 0) == 0,
{
}

/// And reads in seconds.
pub proof fn lengths_read_in_seconds(cache: MetadataCache, n: usize, r: u64)
    requires
        call_ensures(ui_minimal::total_of, (&cache, n), r),
        ui_minimal::length_of(cache@, n as int) < 1_000_000_000_000_000_000,
    ensures
        r * 1_000_000_000 <= ui_minimal::length_of(cache@, n as int) < (r + 1) * 1_000_000_000,
{
    lemma_length(cache@, n as int);
}

/// How long a list plays reads in hours and minutes.
pub proof fn totals_read_in_hours(h: u32, m: int, s: int, total: u64, r: String)
    requires
        0 <= m < 60,
        0 <= s < 60,
        total == (h * 60 + m) * 60 + s,
        call_ensures(ui_minimal::format_duration_total, (total,), r),
    ensures
        h == 0 ==> r@ == text::dec(m as nat) + "m"@,
        h > 0 ==> r@ == "~"@ + text::dec(h as nat) + "h "@ + two(m) + "m"@,
{
    lemma_two(m);
    assert(total / 3600 == h);
    assert(total % 3600 / 60 == m);
}

/// The meters: the left level in the row of the left side, and the right one below.
pub proof fn meters_keep_their_sides(c: Scene, p: Palette, n: int)
    ensures
        ui_hifi::meter_panel(c, p, n)[2] == ui_hifi::meter_row("L"@, c.left, p, n),
        ui_hifi::meter_panel(c, p, n)[3] == ui_hifi::meter_row("R"@, c.right, p, n),
{
}

/// A cell of a meter is lit up to the level, and at the peak; near the end in the
/// colour of danger.
pub proof fn meters_are_lit_up_to_the_level(level: Level, w: int, i: int, p: Palette)
    requires
        0 <= i < w,
    ensures
        i < level.filled ==> ui_hifi::meter_cell(level, w, i, p).last() == '\u{2588}',
        i == level.peak && level.peak >= level.filled ==> ui_hifi::meter_cell(level, w, i, p).last() == '\u{2588}',
        i >= level.filled && i != level.peak ==> ui_hifi::meter_cell(level, w, i, p).last() == '\u{b7}',
        i < level.filled && i * 100 >= w * 85 ==> ui_hifi::meter_cell(level, w, i, p) == p.danger@ + seq!['\u{2588}'],
        i < level.filled && (i + 1) * 100 <= w * 85 ==> ui_hifi::meter_cell(level, w, i, p) == p.accent@ + seq![
            '\u{2588}',
        ],
{
    if i < level.filled {
        assert(p.danger@.push('\u{2588}') =~= p.danger@ + seq!['\u{2588}']);
        assert(p.accent@.push('\u{2588}') =~= p.accent@ + seq!['\u{2588}']);
    }
}

/// The big screen says whether it plays, which track of how many, and what is repeated.
pub proof fn the_big_screen_says_what_it_does(s: PlayerState, shuffle: bool, p: Palette, m: RepeatMode, r: &'static str)
    requires
        call_ensures(ui_hifi::repeat_short, (m,), r),
    ensures
        m is Off ==> r@ == "RPT-OFF"@,
        m is One ==> r@ == "RPT-ONE"@,
        m is All ==> r@ == "RPT-ALL"@,
        s.transport.paused ==> text::opens_with(
            ui_hifi::player_left(s, shuffle, p),
            big_head(p) + "\u{23f8} PAUSE"@,
        ),
        !s.transport.paused ==> text::opens_with(
            ui_hifi::player_left(s, shuffle, p),
            big_head(p) + "\u{25b6} PLAY"@,
        ),
{
    let l = ui_hifi::player_left(s, shuffle, p);
    let head = big_head(p) + (if s.transport.paused {
        "\u{23f8} PAUSE"@
    } else {
        "\u{25b6} PLAY"@
    });
    assert(l.take(head.len() as int) =~= head);
}

/// What the big screen begins with.
pub open spec fn big_head(p: Palette) -> Seq<char> {
    p.accent@ + p.bold@ + "K E E T"@ + p.reset@ + "  "@ + p.dim@ + "\u{2502}"@ + p.reset@ + "  "@ + p.accent@
}

/// The rack has a knob for each level, by its name.
pub proof fn knobs_show_their_levels(s: PlayerState, c: Scene)
    requires
        -100 <= s.balance <= 100,
    ensures
        ui_hifi::knobs(s, c)[0].label == "VOL"@ && ui_hifi::knobs(s, c)[0].value == text::dec(s.volume as nat),
        ui_hifi::knobs(s, c)[1].label == "EQ"@ && ui_hifi::knobs(s, c)[1].value == text::uppercase(c.eq_name@),
        ui_hifi::knobs(s, c)[2].label == "FX"@ && ui_hifi::knobs(s, c)[2].value == text::uppercase(c.fx_name@),
        ui_hifi::knobs(s, c)[4].label == "BAL"@,
        s.balance == 0 ==> ui_hifi::knobs(s, c)[4].value == "C"@,
        s.balance < 0 ==> ui_hifi::knobs(s, c)[4].value == "L"@ + text::dec((-s.balance) as nat),
        s.balance > 0 ==> ui_hifi::knobs(s, c)[4].value == "R"@ + text::dec(s.balance as nat),
{
}

/// A text is filled up with space, or cut with three dots in the last column.
pub proof fn texts_are_brought_to_size(t: &str, w: usize, r: String)
    requires
        call_ensures(ui_hifi::pad_or_truncate, (t, w), r),
        w > 1,
    ensures
        r@.len() == w,
        t@.len() <= w ==> r@ == t@ + text::spaces(w - t@.len()),
        t@.len() > w ==> r@.last() == '\u{2026}' && r@.drop_last() == t@.take(w - 1),
{
    if t@.len() > w {
        assert(r@.drop_last() =~= t@.take(w - 1));
    }
}

/// In the equaliser a knob is at the top at twelve decibels, in the middle at none and
/// at the bottom at twelve below; more gain is never lower.
pub proof fn knobs_rise_with_the_gain(g: int, more: int, h: int)
    requires
        5 <= h <= 15,
        h % 2 == 1,
        -12000 <= g <= more <= 12000,
    ensures
        eq_ui::gain_row(12000, h) == 0,
        eq_ui::gain_row(0, h) == h / 2,
        eq_ui::gain_row(-12000, h) == h - 1,
        eq_ui::gain_row(more, h) <= eq_ui::gain_row(g, h),
{
    lemma_gain_row(g, more, h);
    lemma_gain_row(0, 12000, h);
    lemma_gain_row(-12000, 0, h);
    assert((12000 - 12000) * (h - 1) * 2 == 0) by (nonlinear_arith);
    assert((12000 - 0) * (h - 1) * 2 == 24000 * (h - 1)) by (nonlinear_arith);
    assert((12000 - (-12000)) * (h - 1) * 2 == 48000 * (h - 1)) by (nonlinear_arith);
}

proof fn lemma_gain_row(g: int, more: int, h: int)
    requires
        5 <= h <= 15,
        -12000 <= g <= more <= 12000,
    ensures
        eq_ui::gain_row(more, h) <= eq_ui::gain_row(g, h),
{
    let x = (12000 - g) * (h - 1) * 2;
    let y = (12000 - more) * (h - 1) * 2;
    assert(y <= x) by (nonlinear_arith)
        requires
            x == (12000 - g) * (h - 1) * 2,
            y == (12000 - more) * (h - 1) * 2,
            g <= more,
            h >= 5,
    ;
    assert((y + 24000) / 48000 <= (x + 24000) / 48000);
}

/// The words of the equaliser: gains and frequencies as they are.
pub proof fn bands_are_named_as_they_are(db: int, tenth: int, hertz: int)
    requires
        0 <= db <= 12,
        0 <= tenth < 10,
        0 < db || 0 < tenth,
        20 <= hertz < 1000,
    ensures
        eq_ui::gain_words(1000 * db + 100 * tenth) == "+"@ + (text::dec(db as nat) + "."@ + text::dec(tenth as nat)),
        eq_ui::gain_words(-(1000 * db + 100 * tenth)) == "-"@ + (text::dec(db as nat) + "."@ + text::dec(tenth as nat)),
        eq_ui::freq_words(1000 * hertz) == text::dec(hertz as nat) + " Hz"@,
        eq_ui::freq_words(1_000_000 * (db + 1)) == text::dec((db + 1) as nat) + "."@ + text::dec(0) + " kHz"@,
        eq_ui::signed(db) == "+"@ + text::dec(db as nat),
        db > 0 ==> eq_ui::signed(-db) == "-"@ + text::dec(db as nat),
        eq_ui::whole_db(1000 * db) == db && eq_ui::whole_db(-1000 * db) == -db,
        eq_ui::kind_words(BandType::LowCut) == "LOW CUT"@ && eq_ui::kind_words(BandType::HighCut) == "HIGH CUT"@
            && eq_ui::kind_words(BandType::LowShelf) == "LOW SHELF"@ && eq_ui::kind_words(BandType::HighShelf)
            == "HIGH SHELF"@ && eq_ui::kind_words(BandType::Peak) == "PEAK"@,
{
}

/// In the tree a node that is open points down and a closed one to the side; the track
/// that plays has a mark, and no other.
pub proof fn tree_rows_show_what_is_open(
    tree: Seq<library::ArtistV>,
    fold: FoldState,
    row: VisibleRow,
    now: Option<usize>,
)
    requires
        library::row_in(tree, row),
    ensures
        row matches VisibleRow::Artist { artist } ==> {
            let line = library::row_plain(tree, fold, row, now);
            &&& fold.expanded_artists@.contains(tree[artist as int].name) <==> line[2] == '\u{25be}'
            &&& !fold.expanded_artists@.contains(tree[artist as int].name) <==> line[2] == '\u{25b8}'
            &&& line.skip(4) == tree[artist as int].name
        },
        row matches VisibleRow::Album { artist, album } ==> {
            let line = library::row_plain(tree, fold, row, now);
            let al = tree[artist as int].albums[album as int];
            &&& fold.expanded_albums@.contains((tree[artist as int].name, al.name)) <==> line[4] == '\u{25be}'
            &&& !fold.expanded_albums@.contains((tree[artist as int].name, al.name)) <==> line[4] == '\u{25b8}'
            &&& line.skip(6) == al.name
        },
        row matches VisibleRow::Track { artist, album, track } ==> {
            let line = library::row_plain(tree, fold, row, now);
            let t = tree[artist as int].albums[album as int].tracks[track as int];
            let n = line.len() - t.title.len();
            &&& n >= 3 && line.skip(n) == t.title
            &&& line[n - 2] == '\u{25b6}' <==> now is Some && now->0 == t.index
        },
{
    reveal_strlit("  ");
    reveal_strlit("    ");
    reveal_strlit("      ");
    let line = library::row_plain(tree, fold, row, now);
    match row {
        VisibleRow::Artist { artist } => {
            assert(line.skip(4) =~= tree[artist as int].name);
        },
        VisibleRow::Album { artist, album } => {
            assert(line.skip(6) =~= tree[artist as int].albums[album as int].name);
        },
        VisibleRow::Track { artist, album, track } => {
            let t = tree[artist as int].albums[album as int].tracks[track as int];
            let n = line.len() - t.title.len();
            assert(line.skip(n) =~= t.title);
        },
    }
}

/// Kinds of files have their colours: one for Ogg, one for AAC, one for what is kept
/// without loss, one for plain waves, and one for all others.
pub proof fn kinds_of_files_have_their_colours(ext: &str, r: &'static str)
    requires
        call_ensures(ui::icon_color_for_ext, (ext,), r),
    ensures
        ext@ == "ogg"@ ==> r@ == "\x1B[35m"@,
        ext@ == "aac"@ || ext@ == "m4a"@ ==> r@ == "\x1B[31m"@,
        ext@ == "flac"@ || ext@ == "alac"@ || ext@ == "aiff"@ || ext@ == "aif"@ ==> r@ == "\x1B[36m"@,
        ext@ == "wav"@ ==> r@ == "\x1B[33m"@,
        ext@ == "mp3"@ ==> r@ == "\x1B[32m"@,
{
    reveal_strlit("ogg");
    reveal_strlit("aac");
    reveal_strlit("m4a");
    reveal_strlit("flac");
    reveal_strlit("alac");
    reveal_strlit("aiff");
    reveal_strlit("aif");
    reveal_strlit("wav");
    reveal_strlit("mp3");
    assert("ogg"@[0] == 'o' && "aac"@[0] == 'a' && "m4a"@[0] == 'm' && "flac"@[0] == 'f' && "alac"@[0] == 'a'
        && "aiff"@[0] == 'a' && "aif"@[0] == 'a' && "wav"@[0] == 'w' && "mp3"@[0] == 'm');
    assert("aac"@[1] == 'a' && "alac"@[1] == 'l' && "aiff"@[1] == 'i' && "aif"@[1] == 'i' && "m4a"@[1] == '4'
        && "mp3"@[1] == 'p');
}

/// The keys that the screens name are those that do it.
pub proof fn keys_are_named_for_what_they_do()
    ensures
        banner::transport_help() == seq![
            ("Space", "Pause"),
            ("\u{2191}/\u{2193}", "Track"),
            ("\u{2190}/\u{2192}", "Seek"),
            ("+/-", "Vol"),
            ("[/]", "Bal"),
            ("Q", "Quit"),
        ],
        banner::sound_help().len() == 7 && banner::sound_help()[0] == ("E", "EQ") && banner::sound_help()[1] == ("X", "FX")
            && banner::sound_help()[2] == ("C", "Crossfeed") && banner::sound_help()[3] == ("F", "Fader")
            && banner::sound_help()[6] == ("Y", "Lyrics"),
        banner::list_help().len() == 6 && banner::list_help()[0] == ("L", "List") && banner::list_help()[1] == (
            "R",
            "Rescan",
        ) && banner::list_help()[3] == ("Z", "Shuffle") && banner::list_help()[4] == ("O", "Open")
            && banner::list_help()[5] == ("P", "Pick"),
        ui_minimal::player_keys()[1] == ("\u{2190}\u{2192}", "seek") && ui_minimal::player_keys()[2] == (
            "\u{2191}\u{2193}",
            "track",
        ),
        ui_hifi::player_keys()[1] == ("\u{2190}\u{2192}", "SEEK") && ui_hifi::player_keys()[2] == (
            "\u{2191}\u{2193}",
            "TRACK",
        ),
{
}

/// The key for the style names the style that it leads to, and the one for the
/// visualisation the next one.
pub proof fn keys_name_where_they_lead(m: VizMode, v: VizStyle)
    ensures
        m !is SpectrogramAnalysis && v is Dots ==> ui::style_key(m, v) == "Bars"@,
        m !is SpectrogramAnalysis && v is Bars ==> ui::style_key(m, v) == "Dots"@,
        m is SpectrogramAnalysis && v is Dots ==> ui::style_key(m, v) == "Linear"@,
        m is SpectrogramAnalysis && v is Bars ==> ui::style_key(m, v) == "Log"@,
        m is Off ==> ui::viz_key(m) == "Off"@,
        m is VuMeter ==> ui::viz_key(m) == "VU"@,
        m is SpectrumHorizontal ==> ui::viz_key(m) == "SpecH"@,
        m is SpectrumVertical ==> ui::viz_key(m) == "SpecV"@,
        m is Oscilloscope ==> ui::viz_key(m) == "Scope"@,
        m is Lissajous ==> ui::viz_key(m) == "Vector"@,
        m is Spectrogram ==> ui::viz_key(m) == "SpecGram"@,
        m is SpectrogramAnalysis ==> ui::viz_key(m) == "SpecAna"@,
{
}

/// A window too narrow for a cover shows the banner as it is.
pub proof fn narrow_windows_have_the_banner_alone(t: &str, w: usize, r: (String, usize))
    requires
        call_ensures(banner::compose_banner, (t, None, w), r),
        w < 81,
    ensures
        ({
            let (shown, lines) = r;
            &&& shown@ == t@
            &&& lines == text::lines_from(t@, 0).len()
        }),
{
}

/// The screen is painted anew where it has to be, once; the banner then is as long as
/// it was painted.
pub proof fn the_screen_is_painted_once(
    ui: &mut UiState,
    s: PlayerState,
    protocol: GraphicsProtocol,
    w: u16,
    r: Option<String>,
)
    requires
        old(ui).cover.cover matches Some(img) ==> cover::is_whole(img),
        call_ensures(banner::repaint, (ui, &s, protocol, w), r),
    ensures
        r is Some <==> old(ui).terminal_resized,
        !final(ui).terminal_resized,
        final(ui).view_mode == old(ui).view_mode && final(ui).queue == old(ui).queue,
{
}

/// The banner is written anew where something on it has changed, and only there.
pub proof fn the_banner_is_kept_up(ui: &mut UiState, s: PlayerState, b: Shown, now: String)
    requires
        call_ensures(banner::refresh_banner, (ui, &s, &b), ()),
        call_ensures(
            banner::build_banner_box,
            (old(ui).queue.shuffle, old(ui).queue.repeat_mode, &s, &b),
            now,
        ),
    ensures
        !old(ui).banner.dirty ==> *final(ui) == *old(ui),
        old(ui).banner.dirty ==> !final(ui).banner.dirty && final(ui).terminal_resized && text::opens_with(
            final(ui).banner.text@,
            now@,
        ),
{
    if old(ui).banner.dirty {
        assert(final(ui).banner.text@.take(now@.len() as int) =~= now@);
    }
}

/// Going to a row of the list shows it: the list scrolls up to it where it is above the
/// screen, and else stays.
pub proof fn going_to_a_row_shows_it(l: &mut ListView, track: usize)
    requires
        call_ensures(list_view::cursor_to, (l, track), ()),
    ensures
        final(l)@.cursor == track,
        final(l)@.scroll <= track,
        track >= old(l)@.scroll ==> final(l)@.scroll == old(l)@.scroll,
        track < old(l)@.scroll ==> final(l)@.scroll == track,
        final(l)@.filtered == old(l)@.filtered,
{
}

/// Characters of ASCII take a column, and controls none.
pub proof fn plain_characters_take_a_column(c: char, r: usize)
    requires
        call_ensures(ansi::char_width, (c,), r),
    ensures
        ' ' <= c && c <= '~' ==> r == 1,
        c == '\n' || c == '\r' || c == '\t' || c == '\x1B' ==> r == 0,
        '\u{2500}' <= c && c <= '\u{259f}' ==> r == 1,
        r <= 3,
{
}

/// Each theme resets all colours the same way; the classic one has no colour for the
/// cursor, and the others have.
pub proof fn themes_reset_their_colours(kind: ThemeKind, p: Palette, b: Borders)
    requires
        call_ensures(theme::palette, (kind,), p),
        call_ensures(theme::borders, (kind,), b),
    ensures
        p.reset@ == "\x1B[0m"@ && p.bold@ == "\x1B[1m"@,
        kind is Classic <==> p.cursor_bg@.len() == 0,
        kind is Classic ==> p.accent@ == "\x1B[32m"@ && p.danger@ == "\x1B[31m"@ && p.warn@ == "\x1B[33m"@,
        kind is Minimal || kind is HiFi ==> p.accent@ != p.danger@,
        kind is HiFi ==> b.h == '\u{2550}' && b.v == '\u{2551}' && b.tl == '\u{2554}' && b.tr == '\u{2557}' && b.bl
            == '\u{255a}' && b.br == '\u{255d}',
{
    reveal_strlit("");
    reveal_strlit("\x1B[48;2;24;27;28m");
    reveal_strlit("\x1B[48;2;31;20;8m");
    reveal_strlit("\x1B[38;2;154;220;208m");
    reveal_strlit("\x1B[38;2;224;122;122m");
    reveal_strlit("\x1B[1;38;2;255;179;71m");
    reveal_strlit("\x1B[1;38;2;224;122;74m");
    assert("\x1B[38;2;154;220;208m"@[7] == '1' && "\x1B[38;2;224;122;122m"@[7] == '2');
    assert("\x1B[1;38;2;255;179;71m"@[10] == '5' && "\x1B[1;38;2;224;122;74m"@[10] == '2');
}

/// A frame is painted over the last one: from as many lines up as that went down.
pub proof fn frames_are_painted_over_the_last(w: FrameWriter, n: usize, a: String, b: String)
    requires
        n > 0,
        call_ensures(FrameWriter::emit, (&w, Some(n)), a),
        call_ensures(FrameWriter::emit, (&w, None), b),
    ensures
        a@ == "\x1B["@ + text::dec(n as nat) + "F"@ + b@,
{
    assert(a@ =~= "\x1B["@ + text::dec(n as nat) + "F"@ + b@);
}

/// A frame goes down by one line less than it has.
pub proof fn frames_go_down_by_their_lines(w: FrameWriter, n: usize)
    requires
        call_ensures(FrameWriter::count, (&w,), n),
    ensures
        w.lines@.len() > 0 ==> n + 1 == w.lines@.len(),
        w.lines@.len() == 0 ==> n == 0,
{
    assert(w@.len() == w.lines@.len());
}

/// What is as usual is not shown, and everything else is named.
pub proof fn what_is_usual_is_not_shown(tag: Seq<char>, name: Seq<char>, usual: Seq<char>)
    ensures
        name == usual ==> ui::unusual(tag, name, usual).len() == 0,
        name != usual ==> ui::unusual(tag, name, usual) == tag + name,
{
}

/// The frame of an equaliser set by hand says so, and else names the preset.
pub proof fn the_equaliser_is_named(s: PlayerState, c: Scene)
    ensures
        s.eq_custom ==> ui::eq_title(s, c) == "Custom"@,
        !s.eq_custom ==> ui::eq_title(s, c) == c.eq_name@,
{
}

/// The spectrogram is sent again where its image is gone.
pub proof fn lost_images_are_sent_again(theme: ThemeKind, prev: Option<usize>, intact: bool, below: usize, r: bool)
    requires
        call_ensures(frame::spectrogram_is_stale, (theme, prev, intact, below), r),
        theme !is HiFi,
    ensures
        prev is None ==> r,
        !intact ==> r,
        intact && prev == Some(below) ==> !r,
{
}

/// The cursor of a list keeps four rows from the edges of the screen, as far as the list
/// goes.
pub proof fn the_cursor_keeps_from_the_edges(l: &mut ListView, n: usize, rows: usize, count: usize)
    requires
        rows >= 9,
        call_ensures(frame::scroll_list, (l, false, n, rows), count),
        old(l)@.filtered.len() == 0,
        old(l)@.cursor < n,
    ensures
        final(l)@.scroll == 0 || final(l)@.scroll + 4 <= final(l)@.cursor,
        final(l)@.scroll + rows >= n || final(l)@.cursor + 4 < final(l)@.scroll + rows,
        old(l)@.scroll + 4 <= old(l)@.cursor && old(l)@.cursor + 4 < old(l)@.scroll + rows && old(l)@.scroll + rows <= n
            ==> final(l)@.scroll == old(l)@.scroll,
{
}

/// So does that of a tree.
pub proof fn the_tree_cursor_keeps_from_the_edges(cursor: int, scroll: int, height: int, n: int)
    requires
        height >= 9,
        0 <= cursor < n,
        0 <= scroll,
    ensures
        ({
            let to = tree_view::scrolled(cursor, scroll, height, n);
            &&& to == 0 || to + 4 <= cursor
            &&& to + height >= n || cursor + 4 < to + height
            &&& to <= cursor < to + height
            &&& scroll + 4 <= cursor && cursor + 4 < scroll + height && scroll + height <= n ==> to == scroll
        }),
{
}

/// The line that is sung stands in the middle of the screen, as far as the lyrics go.
pub proof fn the_sung_line_is_in_the_middle(
    p: &mut LyricsPane,
    position: i128,
    rows: usize,
    sung: Option<usize>,
    l: Lyrics,
)
    requires
        call_ensures(frame::scroll_lyrics, (p, position, rows), sung),
        old(p).lyrics == Some(l),
        l is Synced,
        old(p).auto_scroll,
        sung is Some,
        rows > 0,
        sung->0 >= rows / 2,
        sung->0 + rows <= l.count(),
    ensures
        final(p).scroll + rows / 2 == sung->0,
{
    match l {
        Lyrics::Synced(v) => {
            assert(v@.len() == v.len());
        },
        _ => {},
    }
}

/// In the equaliser the knob of a band stands at its gain, and that of a cut in the
/// middle; the selected one stands out.
pub proof fn knobs_stand_at_their_gains(b: BandSettings, selected: bool, r: int, h: int, knob: char, p: Palette)
    requires
        5 <= h <= 15,
        0 <= r < h,
    ensures
        b.kind is LowCut || b.kind is HighCut ==> eq_ui::knob_row(b, h) == h / 2,
        b.kind is Peak || b.kind is LowShelf || b.kind is HighShelf ==> eq_ui::knob_row(b, h) == eq_ui::gain_row(
            b.gain as int,
            h,
        ),
        r == eq_ui::knob_row(b, h) && selected ==> eq_ui::slider_cell(b, selected, r, h, knob, p) == p.accent@ + seq![knob]
            + p.reset@,
        r == eq_ui::knob_row(b, h) && !selected && b.kind is Peak ==> eq_ui::slider_cell(b, selected, r, h, knob, p)
            == p.fg@ + seq![knob] + p.reset@,
        r != eq_ui::knob_row(b, h) && r == h / 2 ==> eq_ui::slider_cell(b, selected, r, h, knob, p) == p.rule@
            + "\u{2500}"@ + p.reset@,
        eq_ui::knob_row(b, h) < r < h / 2 ==> eq_ui::slider_cell(b, true, r, h, knob, p) == p.accent@ + "\u{2502}"@
            + p.reset@,
        r < eq_ui::knob_row(b, h) && r < h / 2 ==> eq_ui::slider_cell(b, selected, r, h, knob, p) == " "@,
        eq_ui::scale_mark(0, h) == " 12"@ && eq_ui::scale_mark(h / 2, h) == "  0"@ && eq_ui::scale_mark(h - 1, h) == "-12"@,
{
}

/// Below each slider stand its frequency, its kind and its gain; a cut has none.
pub proof fn sliders_have_their_legends(b: BandSettings)
    ensures
        eq_ui::legend_text(eq_ui::Legend::Freq, b) == equalizer::freq_label(b.freq as int),
        eq_ui::legend_text(eq_ui::Legend::Kind, b) == b.kind.tag(),
        b.kind is LowCut || b.kind is HighCut ==> eq_ui::legend_text(eq_ui::Legend::Gain, b) == "cut"@,
        b.kind is Peak && b.gain == 3000 ==> eq_ui::legend_text(eq_ui::Legend::Gain, b) == "+"@ + text::dec(3),
        b.kind is Peak && b.gain == -3000 ==> eq_ui::legend_text(eq_ui::Legend::Gain, b) == "-"@ + text::dec(3),
{
}

/// The equaliser has a line for its title, one for each row of its sliders, and below
/// them its legends and readouts.
pub proof fn the_equaliser_has_its_lines(
    bands: Vec<BandSettings>,
    selected: usize,
    title: &str,
    readouts: Vec<(String, String)>,
    knob: char,
    p: Palette,
    height: usize,
    out: Vec<String>,
)
    requires
        bands@.len() == EQ_BANDS,
        selected < EQ_BANDS,
        call_ensures(eq_ui::render_eq_screen, (&bands, selected, title, &readouts, knob, &p, height), out),
    ensures
        out@.len() == eq_ui::slider_rows(height as int) + 9,
        out@[0]@ == eq_ui::title_line(title@, p),
        out@[2]@ == eq_ui::slider_line(bands@, selected as int, 0, eq_ui::slider_rows(height as int), knob, p),
        out@[eq_ui::slider_rows(height as int) + 2]@ == eq_ui::legend_line(
            eq_ui::Legend::Freq,
            bands@,
            selected as int,
            p,
            bands@.len() as int,
        ),
        out@[eq_ui::slider_rows(height as int) + 6]@ == eq_ui::readout(selected as int, bands@[selected as int], p),
{
    let t = text::texts(out@);
    let n = eq_ui::slider_rows(height as int);
    assert(t.len() == out@.len());
    assert(t.len() == n + 9);
    assert(t[0] == out@[0]@);
    assert(t[2] == out@[2]@);
    assert(t[n + 2] == out@[n + 2]@);
    assert(t[n + 6] == out@[n + 6]@);
}

/// Each theme has its own screen, and the equaliser one for all of them.
pub proof fn each_theme_has_its_screen(
    s: &mut PlayerState,
    ui: &mut UiState,
    c: Scene,
    gains: [i32; EQ_BANDS],
    bands: Vec<BandSettings>,
    list: Vec<String>,
    w: FrameWriter,
)
    requires
        old(ui).tree.wf(),
        bands@.len() == EQ_BANDS,
        old(ui).eq_band < EQ_BANDS,
        old(ui).cover.cover matches Some(img) ==> cover::is_whole(img),
        old(s).eq_custom,
        call_ensures(ui::print_status, (s, ui, &c, gains, &bands, &list), w),
    ensures
        old(ui).view_mode is Player && old(s).look.theme is Classic ==> w@ == ui::player_frame(*old(s), *old(ui), c),
        old(ui).view_mode is Player && old(s).look.theme is Minimal ==> w@ == ui_minimal::player_frame(*old(s), *old(ui), c),
        old(ui).view_mode is Player && old(s).look.theme is HiFi ==> w@ == ui_hifi::player_frame(*old(s), *old(ui), c),
        old(ui).view_mode is Lyrics && old(s).look.theme is Classic ==> w@ == ui::lyrics_frame(*old(s), *old(ui), c),
        old(ui).view_mode is Playlist && old(s).look.theme is Classic ==> w@ == ui::library_frame(
            *old(s),
            *old(ui),
            c,
            text::texts(list@),
        ),
        old(ui).view_mode is Playlist && old(s).look.theme is Minimal ==> w@ == ui_minimal::library_frame(
            *old(ui),
            c,
            text::texts(list@),
        ),
        old(ui).view_mode is Eq ==> ui::is_eq_frame(w@, *old(s), *old(ui), c, bands@),
        final(s).transport == old(s).transport && final(s).volume == old(s).volume,
{
}

/// The keys that leave: the cursor is shown again, and what was on the screen goes.
pub proof fn the_screen_is_left_as_it_was(n: usize, a: String, b: String, c: String)
    requires
        n < usize::MAX,
        call_ensures(banner::restore_cursor, (), a),
        call_ensures(banner::leave_frame, (Some(n),), b),
        call_ensures(banner::leave_frame, (None,), c),
    ensures
        a@ == "\x1B[?25h"@,
        b@ == a@ + ("\x1B["@ + text::dec((n + 1) as nat) + "F"@) + "\x1B[J"@,
        c@ == a@ + "\x1B[J"@,
{
    assert(b@ =~= a@ + ("\x1B["@ + text::dec((n + 1) as nat) + "F"@) + "\x1B[J"@);
    assert(c@ =~= a@ + "\x1B[J"@);
}

/// The device and its rate are named below the banner of the classic theme.
pub proof fn the_device_is_named(device: &str, rate: u32, channels: u16, r: String, other: String)
    requires
        call_ensures(banner::banner_tail, (ThemeKind::Classic, device, None, rate, channels), r),
        call_ensures(banner::banner_tail, (ThemeKind::Minimal, device, None, rate, channels), other),
    ensures
        text::opens_with(
            r@,
            "\nDevice: "@ + device@ + "\n"@ + "Initial output: "@ + text::dec(rate as nat) + "Hz (device default: "@
                + text::dec(channels as nat) + "ch)\n"@,
        ),
        other@.len() == 0,
{
    let head = "\nDevice: "@ + device@ + "\n"@ + "Initial output: "@ + text::dec(rate as nat) + "Hz (device default: "@
        + text::dec(channels as nat) + "ch)\n"@;
    assert(r@.take(head.len() as int) =~= head);
}

/// A row of the list shows the track of its place, marked where it plays, and reversed
/// where the cursor is, in every theme.
pub proof fn rows_show_their_tracks(
    cache: Seq<metadata::TrackMetaV>,
    paths: Seq<Seq<char>>,
    l: list_view::ListV,
    current: int,
    w: int,
    n: int,
    p: Palette,
    r: int,
)
    requires
        0 <= r < n,
        l.filtered.len() == 0,
        0 <= l.scroll,
        l.scroll + r < paths.len(),
        l.scroll + r < cache.len(),
        paths.len() < u64::MAX,
    ensures
        ({
            let i = l.scroll + r;
            &&& ui::list_rows(cache, paths, l, current, w, n)[r] == (
                false,
                ui::list_row(cache[i], paths[i], i, i == current, i == l.cursor, w),
            )
            &&& ui_minimal::list_rows(cache, paths, l, current, w, n, p)[r] == (
                false,
                ui_minimal::list_row(cache[i], paths[i], i, i == current, i == l.cursor, w, p),
            )
            &&& ui_hifi::list_rows(cache, paths, l, current, w, n, p)[r] == (
                false,
                ui_hifi::list_row(cache[i], paths[i], i, i == current, i == l.cursor, w, p),
            )
        }),
{
}

/// Of a search the rows show what was found.
pub proof fn rows_show_what_was_found(l: ListView, pos: usize, r: usize)
    requires
        l.filtered_indices@.len() == 0 || pos < l.filtered_indices@.len(),
        call_ensures(frame::row_track, (&l, pos), r),
    ensures
        l.filtered_indices@.len() == 0 ==> r == pos,
        l.filtered_indices@.len() > 0 ==> r == l.filtered_indices@[pos as int],
{
    assert(l@.filtered.len() == l.filtered_indices@.len());
    if l.filtered_indices@.len() > 0 {
        assert(l@.filtered[pos as int] == l.filtered_indices@[pos as int]);
    }
}

/// The visualisation is an image in the player's analysis alone, and where the terminal
/// keeps it.
pub proof fn the_analysis_is_an_image(ui: UiState, s: PlayerState, protocol: GraphicsProtocol, r: bool)
    requires
        call_ensures(banner::viz_image_shown, (&ui, &s, protocol), r),
    ensures
        r <==> ui.view_mode is Player && s.look.viz_mode is SpectrogramAnalysis && protocol is Kitty,
{
}

/// A message is shown as long as it is new.
pub proof fn new_messages_are_shown(ui: UiState, r: Option<String>, m: String, at: u64)
    requires
        call_ensures(UiState::active_status, (&ui,), r),
        ui.status_message == Some((m, at)),
        at <= ui.now,
    ensures
        ui.now < at + 2000 ==> r is Some && r->0@ == m@,
        ui.now >= at + 2000 ==> r is None,
{
}

/// How long the list of the big screen plays reads in hours and minutes too.
pub proof fn short_totals_read_in_hours(h: u32, m: int, s: int, total: u64, r: String)
    requires
        0 <= m < 60,
        0 <= s < 60,
        total == (h * 60 + m) * 60 + s,
        call_ensures(ui_hifi::format_dur_short, (total,), r),
    ensures
        h == 0 ==> r@ == text::dec(m as nat) + "M"@,
        h > 0 ==> r@ == text::dec(h as nat) + "H "@ + two(m) + "M"@,
{
    lemma_two(m);
    assert(total / 3600 == h);
    assert(total % 3600 / 60 == m);
}

/// The names of what is visualised.
pub proof fn visualisations_are_named(m: VizMode, r: &'static str)
    requires
        call_ensures(ui_minimal::viz_section_label, (m,), r),
    ensures
        m is VuMeter ==> r@ == "VU"@,
        m is SpectrumHorizontal || m is SpectrumVertical ==> r@ == "SPECTRUM"@,
        m is Oscilloscope ==> r@ == "OSCILLOSCOPE"@,
        m is Lissajous ==> r@ == "VECTOR"@,
        m is Spectrogram || m is SpectrogramAnalysis ==> r@ == "SPECTROGRAM"@,
{
}

/// The big screen's list has a mark for what plays, then the number from one on; its
/// lyrics have one for the line that is sung.
pub proof fn the_big_list_marks_what_plays(
    e: metadata::TrackMetaV,
    path: Seq<char>,
    track: int,
    n: int,
    p: Palette,
)
    requires
        0 <= track < 99,
    ensures
        text::opens_with(
            ui_hifi::row_body(e, path, track, true, n, p),
            "  "@ + p.accent@ + "\u{25b6}"@ + p.reset@ + " "@ + p.dim@ + two(track + 1),
        ),
        text::opens_with(
            ui_hifi::row_body(e, path, track, false, n, p),
            "  "@ + p.dim@ + " "@ + p.reset@ + " "@ + p.dim@ + two(track + 1),
        ),
{
    lemma_two(track + 1);
    let a = "  "@ + p.accent@ + "\u{25b6}"@ + p.reset@ + " "@ + p.dim@ + two(track + 1);
    let b = "  "@ + p.dim@ + " "@ + p.reset@ + " "@ + p.dim@ + two(track + 1);
    assert(ui_hifi::row_body(e, path, track, true, n, p).take(a.len() as int) =~= a);
    assert(ui_hifi::row_body(e, path, track, false, n, p).take(b.len() as int) =~= b);
}

/// The time of a row is that of its track, in minutes and seconds.
pub proof fn rows_have_their_times(e: metadata::TrackMetaV, m: int, s: int, part: int)
    requires
        0 <= m < 100,
        0 <= s < 60,
        0 <= part < 1_000_000_000,
        e.duration is Some,
        e.duration->0 == (m * 60 + s) * 1_000_000_000 + part,
    ensures
        ui_minimal::row_time(e) == two(m) + ":"@ + two(s),
        m < 60 ==> ui::time_text(e) == two(m) + ":"@ + two(s),
{
    lemma_two(m);
    lemma_two(s);
    let total = e.duration->0 as int / 1_000_000_000;
    assert(total == m * 60 + s);
    assert(total / 60 == m && total % 60 == s);
}

} // verus!
