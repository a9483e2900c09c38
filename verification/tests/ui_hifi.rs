use keet::ansi::visible_len;
use keet::cover::GraphicsProtocol;
use keet::frame::{FrameWriter, Level, Scene, Stats};
use keet::lyrics::parse_lyrics;
use keet::metadata::{MetadataCache, TrackMeta};
use keet::state::{InputMode, PlayerState, RepeatMode};
use keet::theme::{palette, ThemeKind};
use keet::ui_hifi::{
    format_dur_short, hifi_library_marquee, hifi_marquee_keys, meter_width, pad_or_truncate, print_status_hifi,
    print_status_hifi_library, print_status_hifi_lyrics, render_db_scale, render_solid_bar, repeat_short, vu_bar,
};
use keet::ui_state::UiState;

#[test]
fn solid_bar_partial_meets_rail_seamlessly_no_black_notch() {
    // width=20, progress=0.51: full=10, frac=1, one partial cell.
    let bar = render_solid_bar((0.51f64 * 20.0 * 8.0) as u32, 20);
    let has_partial = "▏▎▍▌▋▊▉".chars().any(|c| bar.contains(c));
    assert!(has_partial, "expected a partial block char, got: {bar:?}");

    // The rail is drawn solid in a dim truecolor foreground (\x1B[38;2;R;G;Bm).
    let rail_rgb = bar
        .split("\x1B[38;2;")
        .nth(1)
        .and_then(|s| s.split('m').next())
        .expect("rail must be drawn in a truecolor foreground");

    // The boundary cell's background must be that SAME colour.
    assert!(
        bar.contains(&format!("\x1B[48;2;{rail_rgb}m")),
        "boundary background must equal the rail colour {rail_rgb:?} (seamless), got: {bar:?}"
    );
    // Background reset after the partial so the rail cells aren't tinted.
    assert!(bar.contains("\x1B[49m"), "background not reset after partial: {bar:?}");
}

fn p(s: &str) -> String {
    s.to_string()
}

fn scene(w: u16, h: u16) -> Scene {
    Scene {
        name: p("Song"),
        track_info: String::new(),
        ext: p("flac"),
        eq_name: p("Flat"),
        eq_curve: String::new(),
        fx_name: p("None"),
        cf_name: p("Off"),
        stats: Stats { buf_pct: 76, cpu: p("0.4"), mem: p("17"), cpu_high: false },
        prev: None,
        term_w: w,
        term_h: h,
        viz: Vec::new(),
        viz_raw: false,
        left: Level { filled: 10, peak: 12 },
        right: Level { filled: 0, peak: 0 },
        protocol: GraphicsProtocol::HalfBlock,
    }
}

fn ui_with(n: usize) -> UiState {
    let mut ui = UiState::new(vec![p("/src")], MetadataCache::new(n));
    ui.cache.entries[0] = TrackMeta {
        artist: Some(p("Artist")),
        album: None,
        title: Some(p("Title")),
        disc: None,
        track: None,
        duration: Some(3_700_000_000_000),
    };
    ui
}

fn text_of(w: &FrameWriter) -> Vec<String> {
    w.lines.iter().map(|l| l.text.clone()).collect()
}

#[test]
fn the_player_is_made_of_boxes() {
    let mut s = PlayerState::new();
    s.track.total_tracks = 34;
    s.track.current_track = 0;
    s.track.samples_played = 44100 * 5;
    s.track.total_samples = 44100 * 10;
    s.balance = -20;
    let ui = ui_with(1);
    let lines = text_of(&print_status_hifi(&s, &ui, &scene(84, 40)));
    assert_eq!(lines.len(), 21);
    // The boxes are of one width.
    for i in [0usize, 1, 2, 8, 9, 13] {
        assert_eq!(visible_len(&lines[i]), 84, "line {i}: {:?}", lines[i]);
    }
    assert!(lines[1].contains("RPT-OFF") && lines[1].contains("TRACK") && lines[1].contains("01"));
    assert!(lines[4].contains("TITLE"));
    assert!(lines[5].contains(" 00:05 ") && lines[5].contains("ARTIST  \u{b7}  16-BIT 44.1K"));
    assert!(lines[6].contains("/ 00:10"));
    assert!(lines[16].contains("XFEED") && lines[16].contains("BUF"));
    assert!(lines[17].contains("FLAT") && lines[17].contains("L20") && lines[17].contains("76"));
    assert!(lines[20].contains("PLAY"));
}

#[test]
fn the_library_is_boxed() {
    let mut ui = ui_with(2);
    ui.list.cursor = 1;
    let lines = text_of(&print_status_hifi_library(&mut ui, &scene(84, 14), &vec![p("/a.mp3"), p("/b.mp3")]));
    assert_eq!(lines.len(), 3 + 1 + 8 + 3);
    assert!(lines[1].contains("2 TRK \u{b7} 1H 01M"));
    assert!(lines[4].contains("TITLE") && lines[4].contains("61:40"));
    assert!(lines[5].contains("\x1B[48;2;31;20;8m") && lines[5].contains("B.MP3"));
    for l in &lines[3..13] {
        assert_eq!(visible_len(l), 84, "{l:?}");
    }
    // The list is capped on a tall terminal.
    let tall = text_of(&print_status_hifi_library(&mut ui, &scene(84, 90), &vec![p("/a.mp3"), p("/b.mp3")]));
    assert_eq!(tall.len(), 3 + 1 + 20 + 3);
    ui.input_mode = InputMode::Search(p("q"));
    let none = text_of(&print_status_hifi_library(&mut ui, &scene(84, 14), &vec![p("/a.mp3"), p("/b.mp3")]));
    assert!(none[4].contains("  (no matches)"));
    assert!(none.last().unwrap().contains("q"));
}

#[test]
fn lyrics_are_boxed_and_in_capitals() {
    let mut s = PlayerState::new();
    s.track.samples_played = 44100 * 12;
    let mut ui = ui_with(1);
    ui.lyrics.lyrics = Some(parse_lyrics("[00:10.00]hello\n[00:20.00]world"));
    let lines = text_of(&print_status_hifi_lyrics(&s, &mut ui, &scene(84, 14)));
    assert!(lines[1].contains("SYNC"));
    assert!(lines[4].contains("\u{25b8} HELLO"));
    assert!(lines[5].contains("  WORLD"));
    for l in &lines[0..6] {
        assert_eq!(visible_len(l), 84);
    }
    ui.lyrics.lyrics = None;
    let lines = text_of(&print_status_hifi_lyrics(&s, &mut ui, &scene(84, 14)));
    assert!(lines[4].contains("(NO LYRICS AVAILABLE)"));
}

#[test]
fn meters_turn_red_at_the_top() {
    let pal = palette(ThemeKind::HiFi);
    let bar = vu_bar(Level { filled: 10, peak: 10 }, 10, &pal);
    assert_eq!(bar.matches(pal.danger).count(), 2);
    assert_eq!(bar.matches('\u{2588}').count(), 10);
    let low = vu_bar(Level { filled: 2, peak: 5 }, 10, &pal);
    assert_eq!(low.matches('\u{2588}').count(), 3);
    assert_eq!(low.matches('\u{b7}').count(), 7);
    assert_eq!(vu_bar(Level { filled: 0, peak: 9 }, 3, &pal).matches('\u{b7}').count(), 8);
    assert_eq!(meter_width(84), 72);
}

#[test]
fn the_scale_ends_with_the_meter() {
    let pal = palette(ThemeKind::HiFi);
    let s = render_db_scale(60, &pal);
    assert_eq!(visible_len(&s), 60);
    assert!(s.ends_with(&format!("{}0dB\x1B[0m", pal.danger)));
}

#[test]
fn texts_are_made_to_fit() {
    assert_eq!(pad_or_truncate("abc", 5), "abc  ");
    assert_eq!(pad_or_truncate("abc", 3), "abc");
    assert_eq!(pad_or_truncate("abcdef", 4), "abc\u{2026}");
    assert_eq!(pad_or_truncate("abc", 1), "a");
    assert_eq!(format_dur_short(61 * 60), "1H 01M");
    assert_eq!(format_dur_short(60), "1M");
    assert_eq!(repeat_short(RepeatMode::One), "RPT-ONE");
    let pal = palette(ThemeKind::HiFi);
    assert!(hifi_marquee_keys(&pal).contains("LYRICS"));
    assert!(hifi_library_marquee(&pal).contains("CLOSE"));
}
