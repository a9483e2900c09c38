//! What stands above the frames, and what is said when they begin and end.
use crate::cover;
use crate::cover::{kitty_clear_escape, placeholder_lines, render, viz_image_clear_escape, CoverImage, CoverSize, GraphicsProtocol};
use crate::frame;
use crate::frame::{balance_text, format_time};
use crate::state;
use crate::state::{spectro_frame_ms, PlayerState, RepeatMode, ViewMode, VizMode};
use crate::text;
use crate::text::{
    char_count, chars_of, contains_text, dec_string, lines_of, push_dec, push_rep, push_spaces, split_text, string_of,
};
use crate::theme::ThemeKind;
use crate::ui;
use crate::ui::push_unusual;
use crate::ui_state::{Banner, UiState};
use vstd::prelude::*;

verus! {

/// Columns inside the box of the banner.
pub const BANNER_W: usize = 57;

/// Columns of the window from which the cover stands beside the banner: its
/// slot, a gap, and the box with its borders.
pub const BESIDE_COVER_W: usize = 81;

/// The lines of the cover's slot while there is no cover.
pub open spec fn placeholder() -> Seq<Seq<char>> {
    Seq::new(
        cover::COVER_ROWS as nat,
        |i: int| "\x1B[48;2;0;0;0m"@ + text::rep(' ', cover::COVER_COLS as nat) + "\x1B[0m"@,
    )
}

/// A line, or `other` beyond the last one.
pub open spec fn line_or(lines: Seq<Seq<char>>, i: int, other: Seq<char>) -> Seq<char> {
    if 0 <= i < lines.len() {
        lines[i]
    } else {
        other
    }
}

/// The first `n` of `total` lines, left and right of a gap, with a newline
/// between any two.
pub open spec fn side_by_side(left: Seq<Seq<char>>, right: Seq<Seq<char>>, n: int, total: int) -> Seq<char>
    decreases n,
{
    if n <= 0 {
        Seq::empty()
    } else {
        side_by_side(left, right, n - 1, total) + line_or(
            left,
            n - 1,
            text::rep(' ', cover::COVER_COLS as nat),
        ) + "  "@ + line_or(right, n - 1, Seq::empty()) + (if n < total {
            "\n"@
        } else {
            Seq::empty()
        })
    }
}

/// The banner with the cover on its left, where the window is wide enough. The
/// slot is filled while there is no cover, so that nothing moves when one comes.
pub open spec fn composed(banner: Seq<char>, slot: Seq<Seq<char>>, w: int) -> Seq<char> {
    if w < BESIDE_COVER_W {
        banner
    } else {
        let ends = banner.len() > 0 && banner.last() == '\n';
        let content = if ends {
            banner.drop_last()
        } else {
            banner
        };
        let lines = text::split_from(content, '\n', 0);
        let total = text::most(lines.len() as int, slot.len() as int);
        let all = side_by_side(slot, lines, total, total);
        if ends {
            all + "\n"@
        } else {
            all
        }
    }
}

/// The lines of the cover's slot.
pub open spec fn slot_of(cover: Option<&CoverImage>) -> Seq<Seq<char>> {
    match cover {
        Some(img) => cover::drawn(*img),
        None => placeholder(),
    }
}

fn line_or_of(lines: &Vec<String>, i: usize, other: &str) -> (s: String)
    ensures
        s@ == line_or(text::texts(lines@), i as int, other@),
{
    if i < lines.len() {
        assert(text::texts(lines@)[i as int] == lines@[i as int]@);
        lines[i].clone()
    } else {
        other.to_owned()
    }
}

fn join_sides(left: &Vec<String>, right: &Vec<String>, total: usize) -> (out: String)
    ensures
        out@ == side_by_side(text::texts(left@), text::texts(right@), total as int, total as int),
{
    let mut pad: String = String::new();
    push_spaces(&mut pad, cover::COVER_COLS as usize);
    assert(pad@ =~= text::rep(' ', cover::COVER_COLS as nat));
    proof {
        reveal_strlit("");
    }
    assert(""@ =~= Seq::<char>::empty());
    let mut out: String = String::new();
    let mut i: usize = 0;
    assert(out@ =~= side_by_side(text::texts(left@), text::texts(right@), 0, total as int));
    while i < total
        invariant
            i <= total,
            pad@ == text::rep(' ', cover::COVER_COLS as nat),
            ""@ == Seq::<char>::empty(),
            out@ == side_by_side(text::texts(left@), text::texts(right@), i as int, total as int),
        decreases total - i,
    {
        let l: String = line_or_of(left, i, pad.as_str());
        let r: String = line_or_of(right, i, "");
        out.push_str(l.as_str());
        out.push_str("  ");
        out.push_str(r.as_str());
        let ghost before = out@;
        if i + 1 < total {
            out.push_str("\n");
        }
        assert(out@ =~= before + (if i + 1 < total {
            "\n"@
        } else {
            Seq::empty()
        }));
        i = i + 1;
    }
    out
}

/// The banner with the cover on its left, and how many lines that has.
pub fn compose_banner(banner_text: &str, cover: Option<&CoverImage>, term_w: usize) -> (r: (String, usize))
    requires
        cover matches Some(img) ==> cover::is_whole(*img),
    ensures
        r.0@ == composed(banner_text@, slot_of(cover), term_w as int),
        r.1 == text::lines_from(r.0@, 0).len(),
{
    if term_w < BESIDE_COVER_W {
        let lines: Vec<String> = lines_of(banner_text);
        assert(text::texts(lines@).len() == lines@.len());
        return (banner_text.to_owned(), lines.len());
    }
    let slot: Vec<String> = match cover {
        Some(img) => render(img),
        None => placeholder_lines(CoverSize::classic()),
    };
    assert(text::texts(slot@) =~= slot_of(cover));
    let v: Vec<char> = chars_of(banner_text);
    let ends: bool = v.len() > 0 && v[v.len() - 1] == '\n';
    let content: String = if ends {
        string_of(&v, 0, v.len() - 1)
    } else {
        banner_text.to_owned()
    };
    assert(content@ =~= (if ends {
        banner_text@.drop_last()
    } else {
        banner_text@
    }));
    let right: Vec<String> = split_text(content.as_str(), '\n');
    assert(text::texts(right@).len() == right@.len());
    assert(text::texts(slot@).len() == slot@.len());
    let total: usize = if right.len() > slot.len() {
        right.len()
    } else {
        slot.len()
    };
    let mut out: String = join_sides(&slot, &right, total);
    if ends {
        out.push_str("\n");
    }
    let lines: Vec<String> = lines_of(out.as_str());
    assert(text::texts(lines@).len() == lines@.len());
    (out, lines.len())
}

/// A balance in the banner, where it is not in the middle.
pub open spec fn balance_part(b: int) -> Seq<char> {
    if b == 0 {
        Seq::empty()
    } else {
        " | bal: "@ + frame::balance_words(b)
    }
}

/// What the banner says of the settings.
pub open spec fn settings_line(
    shuffle: bool,
    repeat: RepeatMode,
    hq: bool,
    s: PlayerState,
    crossfade_secs: u32,
    eq: Seq<char>,
    fx: Seq<char>,
    cf: Seq<char>,
) -> Seq<char> {
    (if shuffle {
        "shuffle"@
    } else {
        "sequential"@
    }) + repeat.banner() + (if hq {
        " | HQ"@
    } else {
        Seq::empty()
    }) + ui::unusual(" | EQ: "@, eq, "Flat"@) + ui::unusual(" | FX: "@, fx, "None"@) + (if crossfade_secs > 0 {
        " | xfade: "@ + text::dec(crossfade_secs as nat) + "s"@
    } else {
        Seq::empty()
    }) + ui::unusual(" | crossfeed: "@, cf, "Off"@) + balance_part(s.balance as int)
}

/// The box of the banner around a line.
pub open spec fn boxed(info: Seq<char>) -> Seq<char> {
    let bar = text::rep('\u{2550}', BANNER_W as nat);
    "\u{2554}"@ + bar + "\u{2557}\n"@ + "\u{2551}"@ + text::spaces(26) + "Keet"@ + text::spaces(27) + "\u{2551}\n"@
        + "\u{2560}"@ + bar + "\u{2563}\n"@ + "\u{2551}  "@ + info + text::spaces(
        text::minus(BANNER_W as int, (info.len() + 2) as int),
    ) + "\u{2551}\n"@ + "\u{255a}"@ + bar + "\u{255d}\n"@
}

/// The settings that the banner shows beside those of the player.
pub struct Shown {
    pub hq: bool,
    pub crossfade_secs: u32,
    pub eq_name: String,
    pub fx_name: String,
    pub cf_name: String,
}

/// The box of the banner. Only the classic theme has one.
pub open spec fn banner_box(shuffle: bool, repeat: RepeatMode, s: PlayerState, b: Shown) -> Seq<char> {
    match s.look.theme {
        ThemeKind::Classic => boxed(
            settings_line(shuffle, repeat, b.hq, s, b.crossfade_secs, b.eq_name@, b.fx_name@, b.cf_name@),
        ),
        _ => Seq::empty(),
    }
}

fn settings_line_of(shuffle: bool, repeat: RepeatMode, state: &PlayerState, b: &Shown) -> (s: String)
    ensures
        s@ == settings_line(shuffle, repeat, b.hq, *state, b.crossfade_secs, b.eq_name@, b.fx_name@, b.cf_name@),
{
    let mut s: String = if shuffle {
        "shuffle".to_owned()
    } else {
        "sequential".to_owned()
    };
    s.push_str(repeat.label());
    let ghost a = s@;
    if b.hq {
        s.push_str(" | HQ");
    }
    assert(s@ =~= a + (if b.hq {
        " | HQ"@
    } else {
        Seq::empty()
    }));
    push_unusual(&mut s, " | EQ: ", b.eq_name.as_str(), "Flat");
    push_unusual(&mut s, " | FX: ", b.fx_name.as_str(), "None");
    let ghost c = s@;
    if b.crossfade_secs > 0 {
        s.push_str(" | xfade: ");
        push_dec(&mut s, b.crossfade_secs as u64);
        s.push_str("s");
    }
    assert(s@ =~= c + (if b.crossfade_secs > 0 {
        " | xfade: "@ + text::dec(b.crossfade_secs as nat) + "s"@
    } else {
        Seq::empty()
    }));
    push_unusual(&mut s, " | crossfeed: ", b.cf_name.as_str(), "Off");
    let ghost d = s@;
    if state.balance != 0 {
        let words: String = balance_text(state.balance);
        s.push_str(" | bal: ");
        s.push_str(words.as_str());
    }
    assert(s@ =~= d + balance_part(state.balance as int));
    s
}

/// The box of the banner. Only the classic theme has one.
pub fn build_banner_box(shuffle: bool, repeat: RepeatMode, state: &PlayerState, b: &Shown) -> (s: String)
    ensures
        s@ == banner_box(shuffle, repeat, *state, *b),
{
    match state.look.theme {
        ThemeKind::Classic => {},
        _ => {
            return String::new();
        },
    }
    let info: String = settings_line_of(shuffle, repeat, state, b);
    let room: usize = BANNER_W.saturating_sub(char_count(info.as_str())).saturating_sub(2);
    let mut s: String = "\u{2554}".to_owned();
    push_rep(&mut s, '\u{2550}', BANNER_W);
    s.push_str("\u{2557}\n");
    s.push_str("\u{2551}");
    push_spaces(&mut s, 26);
    s.push_str("Keet");
    push_spaces(&mut s, 27);
    s.push_str("\u{2551}\n");
    s.push_str("\u{2560}");
    push_rep(&mut s, '\u{2550}', BANNER_W);
    s.push_str("\u{2563}\n");
    s.push_str("\u{2551}  ");
    s.push_str(info.as_str());
    push_spaces(&mut s, room);
    s.push_str("\u{2551}\n");
    s.push_str("\u{255a}");
    push_rep(&mut s, '\u{2550}', BANNER_W);
    s.push_str("\u{255d}\n");
    s
}

/// A key in the banner's help.
pub open spec fn key_help(key: Seq<char>, label: Seq<char>) -> Seq<char> {
    "\x1B[2m{"@ + key + "}\x1B[0m "@ + label
}

/// The first `n` keys of a line of help.
pub open spec fn help_line(pairs: Seq<(&str, &str)>, n: int) -> Seq<char>
    decreases n,
{
    if n <= 0 {
        Seq::empty()
    } else {
        help_line(pairs, n - 1) + (if n > 1 {
            "  "@
        } else {
            Seq::empty()
        }) + key_help(pairs[n - 1].0@, pairs[n - 1].1@)
    }
}

/// The keys in the first line of help.
pub open spec fn transport_help() -> Seq<(&'static str, &'static str)> {
    seq![
        ("Space", "Pause"),
        ("\u{2191}/\u{2193}", "Track"),
        ("\u{2190}/\u{2192}", "Seek"),
        ("+/-", "Vol"),
        ("[/]", "Bal"),
        ("Q", "Quit"),
    ]
}

/// The keys in the second line of help.
pub open spec fn sound_help() -> Seq<(&'static str, &'static str)> {
    seq![
        ("E", "EQ"),
        ("X", "FX"),
        ("C", "Crossfeed"),
        ("F", "Fader"),
        ("V/B", "Viz"),
        ("I", "Info"),
        ("Y", "Lyrics"),
    ]
}

/// The keys in the third line of help.
pub open spec fn list_help() -> Seq<(&'static str, &'static str)> {
    seq![
        ("L", "List"),
        ("R", "Rescan"),
        ("Shift+R", "Repeat"),
        ("Z", "Shuffle"),
        ("O", "Open"),
        ("P", "Pick"),
    ]
}

/// What stands below the box: the device, its rate, and the keys. Only the
/// classic theme shows it.
pub open spec fn tail_of(
    theme: ThemeKind,
    device: Seq<char>,
    bluetooth: Option<u32>,
    rate: u32,
    channels: u16,
) -> Seq<char> {
    if theme is Classic {
        "\nDevice: "@ + device + "\n"@ + (match bluetooth {
            Some(r) => "Bluetooth device detected, using native "@ + text::dec(r as nat) + "Hz\n"@,
            None => Seq::empty(),
        }) + "Initial output: "@ + text::dec(rate as nat) + "Hz (device default: "@ + text::dec(channels as nat)
            + "ch)\n"@ + "\n"@ + help_line(transport_help(), 6) + "\n"@ + help_line(sound_help(), 7) + "\n"@
            + help_line(list_help(), 6) + "\n\n"@
    } else {
        Seq::empty()
    }
}

fn help_line_of(pairs: &Vec<(&str, &str)>) -> (s: String)
    ensures
        s@ == help_line(pairs@, pairs@.len() as int),
{
    let mut s: String = String::new();
    let mut i: usize = 0;
    assert(s@ =~= help_line(pairs@, 0));
    while i < pairs.len()
        invariant
            i <= pairs@.len(),
            s@ == help_line(pairs@, i as int),
        decreases pairs@.len() - i,
    {
        let ghost before = s@;
        if i > 0 {
            s.push_str("  ");
        }
        assert(s@ =~= before + (if i > 0 {
            "  "@
        } else {
            Seq::empty()
        }));
        let mut one: String = "\x1B[2m{".to_owned();
        one.push_str(pairs[i].0);
        one.push_str("}\x1B[0m ");
        one.push_str(pairs[i].1);
        s.push_str(one.as_str());
        i = i + 1;
    }
    s
}

fn transport_help_of() -> (s: String)
    ensures
        s@ == help_line(transport_help(), 6),
{
    let mut v: Vec<(&str, &str)> = Vec::new();
    v.push(("Space", "Pause"));
    v.push(("\u{2191}/\u{2193}", "Track"));
    v.push(("\u{2190}/\u{2192}", "Seek"));
    v.push(("+/-", "Vol"));
    v.push(("[/]", "Bal"));
    v.push(("Q", "Quit"));
    assert(v@ =~= transport_help());
    help_line_of(&v)
}

fn sound_help_of() -> (s: String)
    ensures
        s@ == help_line(sound_help(), 7),
{
    let mut v: Vec<(&str, &str)> = Vec::new();
    v.push(("E", "EQ"));
    v.push(("X", "FX"));
    v.push(("C", "Crossfeed"));
    v.push(("F", "Fader"));
    v.push(("V/B", "Viz"));
    v.push(("I", "Info"));
    v.push(("Y", "Lyrics"));
    assert(v@ =~= sound_help());
    help_line_of(&v)
}

fn list_help_of() -> (s: String)
    ensures
        s@ == help_line(list_help(), 6),
{
    let mut v: Vec<(&str, &str)> = Vec::new();
    v.push(("L", "List"));
    v.push(("R", "Rescan"));
    v.push(("Shift+R", "Repeat"));
    v.push(("Z", "Shuffle"));
    v.push(("O", "Open"));
    v.push(("P", "Pick"));
    assert(v@ =~= list_help());
    help_line_of(&v)
}

/// What stands below the box: the device, its rate, and the keys.
pub fn banner_tail(theme: ThemeKind, device: &str, bluetooth: Option<u32>, rate: u32, channels: u16) -> (s: String)
    ensures
        s@ == tail_of(theme, device@, bluetooth, rate, channels),
{
    match theme {
        ThemeKind::Classic => {},
        _ => {
            return String::new();
        },
    }
    let first: String = transport_help_of();
    let second: String = sound_help_of();
    let third: String = list_help_of();
    let mut s: String = "\nDevice: ".to_owned();
    s.push_str(device);
    s.push_str("\n");
    let ghost head = s@;
    match bluetooth {
        Some(r) => {
            s.push_str("Bluetooth device detected, using native ");
            push_dec(&mut s, r as u64);
            s.push_str("Hz\n");
        },
        None => {},
    }
    assert(s@ =~= head + (match bluetooth {
        Some(r) => "Bluetooth device detected, using native "@ + text::dec(r as nat) + "Hz\n"@,
        None => Seq::empty(),
    }));
    s.push_str("Initial output: ");
    push_dec(&mut s, rate as u64);
    s.push_str("Hz (device default: ");
    push_dec(&mut s, channels as u64);
    s.push_str("ch)\n");
    s.push_str("\n");
    s.push_str(first.as_str());
    s.push_str("\n");
    s.push_str(second.as_str());
    s.push_str("\n");
    s.push_str(third.as_str());
    s.push_str("\n\n");
    s
}

/// The screen with the banner written anew, and to be painted as a whole.
pub open spec fn is_rewritten(ui: UiState, was: UiState, s: PlayerState, b: Shown) -> bool {
    &&& ui == (UiState { banner: ui.banner, terminal_resized: true, ..was })
    &&& ui.banner == (Banner { text: ui.banner.text, dirty: false, ..was.banner })
    &&& ui.banner.text@ == banner_box(was.queue.shuffle, was.queue.repeat_mode, s, b) + (if s.look.theme is Classic {
        was.banner.tail@
    } else {
        Seq::empty()
    })
}

/// Writes the banner anew where something in it has changed.
pub fn refresh_banner(ui: &mut UiState, state: &PlayerState, b: &Shown)
    ensures
        old(ui).banner.dirty ==> is_rewritten(*final(ui), *old(ui), *state, *b),
        !old(ui).banner.dirty ==> *final(ui) == *old(ui),
{
    if !ui.banner.dirty {
        return;
    }
    let mut s: String = build_banner_box(ui.queue.shuffle, ui.queue.repeat_mode, state, b);
    let ghost head = s@;
    if state.look.theme == ThemeKind::Classic {
        s.push_str(ui.banner.tail.as_str());
    }
    assert(s@ =~= head + (if state.look.theme is Classic {
        ui.banner.tail@
    } else {
        Seq::empty()
    }));
    ui.banner.text = s;
    ui.banner.dirty = false;
    ui.terminal_resized = true;
}

/// The first `n` characters with a carriage return in front of each newline.
pub open spec fn raw_lines(s: Seq<char>, n: int) -> Seq<char>
    decreases n,
{
    if n <= 0 {
        Seq::empty()
    } else if s[n - 1] == '\n' {
        raw_lines(s, n - 1).push('\r').push('\n')
    } else {
        raw_lines(s, n - 1).push(s[n - 1])
    }
}

fn raw_lines_of(s: &str) -> (r: String)
    ensures
        r@ == raw_lines(s@, s@.len() as int),
{
    let v: Vec<char> = chars_of(s);
    let mut r: String = String::new();
    let mut i: usize = 0;
    assert(r@ =~= raw_lines(s@, 0));
    while i < v.len()
        invariant
            v@ == s@,
            i <= v@.len(),
            r@ == raw_lines(s@, i as int),
        decreases v@.len() - i,
    {
        if v[i] == '\n' {
            r.push('\r');
        }
        r.push(v[i]);
        i = i + 1;
    }
    r
}

/// The escapes that take all images off the screen.
pub open spec fn images_off(protocol: GraphicsProtocol) -> Seq<char> {
    if protocol is Kitty {
        "\x1B_Ga=d,d=i,i=1,q=2\x1B\\"@ + "\x1B_Ga=d,d=i,i=2,q=2\x1B\\"@
    } else {
        Seq::empty()
    }
}

fn images_off_of(protocol: GraphicsProtocol) -> (s: String)
    ensures
        s@ == images_off(protocol),
{
    if protocol == GraphicsProtocol::Kitty {
        let mut s: String = kitty_clear_escape();
        let viz: String = viz_image_clear_escape();
        s.push_str(viz.as_str());
        s
    } else {
        String::new()
    }
}

/// The banner as it is painted: only the classic theme has the cover beside it.
pub open spec fn painted_banner(ui: UiState, s: PlayerState, w: int) -> Seq<char> {
    if s.look.theme is Classic {
        composed(
            ui.banner.text@,
            match ui.cover.cover {
                Some(img) => cover::drawn(img),
                None => placeholder(),
            },
            w,
        )
    } else {
        ui.banner.text@
    }
}

/// Paints the screen as a whole, but for the frame: `None` where that is not
/// asked for. Erasing from the first cell on keeps terminals from scrolling the
/// screen away.
pub fn repaint(ui: &mut UiState, state: &PlayerState, protocol: GraphicsProtocol, term_w: u16) -> (r: Option<String>)
    requires
        old(ui).cover.cover matches Some(img) ==> cover::is_whole(img),
    ensures
        r is Some <==> old(ui).terminal_resized,
        r matches Some(out) ==> {
            let banner = painted_banner(*old(ui), *state, term_w as int);
            &&& out@ == images_off(protocol) + "\x1B[0m\x1B[H\x1B[J"@ + raw_lines(banner, banner.len() as int)
            &&& *final(ui) == (UiState {
                terminal_resized: false,
                banner: Banner { lines: text::lines_from(banner, 0).len() as usize, ..old(ui).banner },
                ..*old(ui)
            })
        },
        r is None ==> *final(ui) == *old(ui),
{
    if !ui.terminal_resized {
        return None;
    }
    let (banner, lines): (String, usize) = if state.look.theme == ThemeKind::Classic {
        let slot: Option<&CoverImage> = match &ui.cover.cover {
            Some(img) => Some(img),
            None => None,
        };
        compose_banner(ui.banner.text.as_str(), slot, term_w as usize)
    } else {
        let all: Vec<String> = lines_of(ui.banner.text.as_str());
        assert(text::texts(all@).len() == all@.len());
        (ui.banner.text.clone(), all.len())
    };
    assert(banner@ == painted_banner(*ui, *state, term_w as int));
    ui.terminal_resized = false;
    ui.banner.lines = lines;
    let mut out: String = images_off_of(protocol);
    out.push_str("\x1B[0m\x1B[H\x1B[J");
    let body: String = raw_lines_of(banner.as_str());
    out.push_str(body.as_str());
    Some(out)
}

/// Whether the image of the analysis is on the screen: it lies over the text,
/// and is not painted over by another view.
pub fn viz_image_shown(ui: &UiState, state: &PlayerState, protocol: GraphicsProtocol) -> (r: bool)
    ensures
        r == (ui.view_mode is Player && state.look.viz_mode is SpectrogramAnalysis && protocol is Kitty),
{
    let player: bool = match ui.view_mode {
        ViewMode::Player => true,
        _ => false,
    };
    player && state.look.viz_mode == VizMode::SpectrogramAnalysis && protocol == GraphicsProtocol::Kitty
}

/// Milliseconds between two frames: one column of the analysis each, or twenty
/// frames a second.
pub fn frame_interval(state: &PlayerState) -> (r: u64)
    ensures
        r == (if state.look.viz_mode is SpectrogramAnalysis {
            state::frame_ms(state.track.output_rate as nat)
        } else {
            50
        }),
{
    if state.look.viz_mode == VizMode::SpectrogramAnalysis {
        spectro_frame_ms(state.track.output_rate as u64)
    } else {
        50
    }
}

/// The first line's words on a track: its length, depth, channels and rates.
pub open spec fn track_words(s: PlayerState, stream_rate: u32) -> Seq<char> {
    frame::clock(PlayerState::seconds(s.track.total_samples, s.track.sample_rate) as nat) + " \u{2022} "@ + text::dec(
        s.track.bits_per_sample as nat,
    ) + "bit "@ + (if s.track.channels == 1 {
        "mono"@
    } else if s.track.channels == 2 {
        "stereo"@
    } else {
        text::dec(s.track.channels as nat) + "ch"@
    }) + " \u{2022} "@ + (if s.track.sample_rate != stream_rate {
        text::dec(s.track.sample_rate as nat) + "\u{2192}"@ + text::dec(stream_rate as nat) + "Hz"@
    } else {
        text::dec(s.track.sample_rate as nat) + "Hz"@
    })
}

/// The first line's words on a track.
pub fn track_info(state: &PlayerState, stream_rate: u32) -> (s: String)
    ensures
        s@ == track_words(*state, stream_rate),
{
    let mut channels: String = String::new();
    if state.track.channels == 1 {
        channels = "mono".to_owned();
    } else if state.track.channels == 2 {
        channels = "stereo".to_owned();
    } else {
        channels = dec_string(state.track.channels as u64);
        channels.push_str("ch");
    }
    let mut rate: String = dec_string(state.track.sample_rate as u64);
    if state.track.sample_rate != stream_rate {
        rate.push_str("\u{2192}");
        push_dec(&mut rate, stream_rate as u64);
    }
    rate.push_str("Hz");
    let mut s: String = format_time(state.total_secs());
    s.push_str(" \u{2022} ");
    push_dec(&mut s, state.track.bits_per_sample as u64);
    s.push_str("bit ");
    s.push_str(channels.as_str());
    s.push_str(" \u{2022} ");
    s.push_str(rate.as_str());
    s
}

/// The escape that shows the cursor again.
pub fn restore_cursor() -> (s: String)
    ensures
        s@ == "\x1B[?25h"@,
{
    "\x1B[?25h".to_owned()
}

/// What is sent when the player is left: the cursor is shown, and the frame and
/// the row above it are erased.
pub fn leave_frame(prev: Option<usize>) -> (s: String)
    requires
        prev matches Some(n) ==> n < usize::MAX,
    ensures
        s@ == "\x1B[?25h"@ + (match prev {
            Some(n) => "\x1B["@ + text::dec((n + 1) as nat) + "F"@,
            None => Seq::empty(),
        }) + "\x1B[J"@,
{
    let mut s: String = restore_cursor();
    let ghost head = s@;
    match prev {
        Some(n) => {
            let mut up: String = "\x1B[".to_owned();
            push_dec(&mut up, n as u64 + 1);
            up.push_str("F");
            s.push_str(up.as_str());
        },
        None => {},
    }
    assert(s@ =~= head + (match prev {
        Some(n) => "\x1B["@ + text::dec((n + 1) as nat) + "F"@,
        None => Seq::empty(),
    }));
    s.push_str("\x1B[J");
    s
}

/// What is sent at the very end: images and text are gone but for a farewell.
pub fn farewell(protocol: GraphicsProtocol) -> (s: String)
    ensures
        s@ == "\x1B[?25h"@ + images_off(protocol) + "\x1B[H\x1B[J"@ + "\u{2713} Done\n"@,
{
    let mut s: String = restore_cursor();
    let images: String = images_off_of(protocol);
    s.push_str(images.as_str());
    s.push_str("\x1B[H\x1B[J");
    s.push_str("\u{2713} Done\n");
    s
}

/// Whether a panic is worth a note: output that nobody reads any more is not.
pub fn should_log_crash(info: &str) -> (r: bool)
    ensures
        r == !(text::has_text(info@, "Broken pipe"@) || text::has_text(info@, "The pipe has been ended"@)
            || text::has_text(info@, "The pipe is being closed"@)),
{
    !(contains_text(info, "Broken pipe") || contains_text(info, "The pipe has been ended") || contains_text(
        info,
        "The pipe is being closed",
    ))
}

/// A cover made for the banner's slot is as high as the box that fills the slot
/// without one: the banner does not move when a cover comes.
pub proof fn cover_keeps_the_banner_in_place(img: CoverImage)
    requires
        img.fits_slot(),
        img.slot().cols == cover::COVER_COLS,
        img.slot().rows == cover::COVER_ROWS,
    ensures
        slot_of(Some(&img)).len() == slot_of(None).len(),
{
}

} // verus!
