use keet::equalizer::BandSettings;
use keet::frame::{
    balance_text, format_minutes, format_time, khz_text, offset_text, scroll_list, spectrogram_is_stale, FrameWriter, Level,
    Scene, Stats,
};
use keet::cover::GraphicsProtocol;
use keet::input::{handle_text_input, Flow, KeyCode, KeyPress};
use keet::library::{build, TrackTags};
use keet::list_view::ListView;
use keet::lyrics::parse_lyrics;
use keet::metadata::{MetadataCache, TrackMeta};
use keet::queue::{
    auto_sort_should_run, enqueue_track, remove_track, restore_order, source_is_sortable, toggle_shuffle,
    tree_scan_refresh_due,
};
use keet::state::{InputMode, PlayerState, ViewMode, VizMode, VizStyle};
use keet::theme::ThemeKind;
use keet::tree_view::{rebuild_tree_filter, refresh_tree_rows, tree_expand_under_cursor};
use keet::ui::{icon_color_for_ext, print_status, print_status_classic, print_status_eq_view};
use keet::ui_state::UiState;

fn p(s: &str) -> String {
    s.to_string()
}

fn test_ui(playlist_len: usize) -> UiState {
    UiState::new(vec![p("/nonexistent-src")], MetadataCache::new(playlist_len))
}

fn key(c: char, ctrl: bool) -> KeyPress {
    KeyPress { code: KeyCode::Char(c), ctrl, shift: false, other: false }
}

#[test]
fn frame_writer_derives_count_from_emission() {
    let mut w = FrameWriter::new();
    w.first_line("anchor");
    assert_eq!(w.count(), 0, "the first line is the anchor row, not counted");
    w.line("progress");
    w.line_raw("sixel transmit");
    w.line("");
    assert_eq!(w.count(), 3, "count must equal the lines actually emitted");
}

#[test]
fn format_time_under_an_hour_keeps_mm_ss() {
    assert_eq!(format_time(59), "00:59");
    assert_eq!(format_time(125), "02:05");
}

#[test]
fn format_time_above_an_hour_shows_h_mm_ss() {
    assert_eq!(format_time(3600), "1:00:00");
    assert_eq!(format_time(3725), "1:02:05");
    assert_eq!(format_time(2 * 3600 + 59 * 60 + 59), "2:59:59");
}

#[test]
fn restore_order_keeps_saved_order_and_appends_new() {
    let saved = vec![p("a"), p("b"), p("c")];
    // b removed, d added, rest shuffled
    let current = vec![p("c"), p("d"), p("a")];
    assert_eq!(restore_order(&saved, &current), vec![p("a"), p("c"), p("d")]);
}

#[test]
fn source_is_sortable_false_when_any_m3u_present_or_empty() {
    // Folder / file sources are sortable.
    assert!(source_is_sortable(&vec![p("/music/rock"), p("/music/song.flac")]));
    // Any .m3u / .m3u8 source is a curated order, not sortable (case-insensitive).
    assert!(!source_is_sortable(&vec![p("/music/mix.m3u")]));
    assert!(!source_is_sortable(&vec![p("/music/rock"), p("/lists/set.M3U8")]));
    // No sources: nothing to auto-sort.
    assert!(!source_is_sortable(&vec![]));
}

#[test]
fn auto_sort_should_run_only_when_pending_scanned_and_not_shuffling() {
    assert!(auto_sort_should_run(true, true, false)); // armed, scan done, not shuffling
    assert!(!auto_sort_should_run(false, true, false)); // not armed
    assert!(!auto_sort_should_run(true, false, false)); // scan not finished
    assert!(!auto_sort_should_run(true, true, true)); // shuffling
}

#[test]
fn ctrl_c_quits_from_text_input_instead_of_typing_c() {
    let mut state = PlayerState::new();
    let mut ui = test_ui(2);
    ui.input_mode = InputMode::Search(String::new());
    let playlist = vec![p("/a.mp3"), p("/b.mp3")];

    let out = handle_text_input(&mut state, &mut ui, &playlist, key('c', true));
    assert!(matches!(out.flow, Flow::Quit) && state.should_quit(), "Ctrl+C in text input must quit");
    if let InputMode::Search(q) = &ui.input_mode {
        assert!(q.is_empty(), "Ctrl+C must not type into the query: {q:?}");
    }

    // A plain 'c' (no modifier) still types.
    let mut state = PlayerState::new();
    let mut ui = test_ui(2);
    ui.input_mode = InputMode::Search(String::new());
    handle_text_input(&mut state, &mut ui, &playlist, key('c', false));
    assert!(matches!(&ui.input_mode, InputMode::Search(q) if q == "c"));
    assert!(!state.should_quit());
}

#[test]
fn tree_scan_refresh_due_first_time_then_every_half_second() {
    // Never refreshed: due immediately.
    assert!(tree_scan_refresh_due(None));
    // Refreshed recently: wait.
    assert!(!tree_scan_refresh_due(Some(100)));
    // Half a second on: due again.
    assert!(tree_scan_refresh_due(Some(600)));
}

#[test]
fn tree_rows_cache_refreshes_on_expand_and_filter() {
    let tag = |artist: &str, title: &str| TrackTags {
        artist: Some(artist.into()),
        album: Some("Album".into()),
        disc: None,
        track: Some(1),
        title: title.into(),
    };
    let mut ui = test_ui(2);
    ui.tree.tree = build(&vec![tag("A", "t1"), tag("B", "t2")]);
    refresh_tree_rows(&mut ui.tree);
    assert_eq!(ui.tree.rows.len(), 2, "two collapsed artist rows");

    // Expanding must refresh the cache.
    ui.tree.cursor = 0;
    tree_expand_under_cursor(&mut ui.tree);
    assert_eq!(ui.tree.rows.len(), 3, "expand must refresh the cached rows");

    // Filter change must refresh too.
    rebuild_tree_filter(&mut ui.tree, "t2");
    assert_eq!(
        ui.tree.rows.len(),
        3, // artist B + album + track t2
        "filter must refresh the cached rows: {:?}",
        ui.tree.rows
    );
}

#[test]
fn shuffle_off_with_mismatched_snapshot_falls_back_instead_of_panicking() {
    // A duplicate path makes restore_order return FEWER entries than the live
    // playlist.
    let mut ui = test_ui(3);
    ui.queue.shuffle = true;
    ui.queue.pre_shuffle_order = Some(vec![p("/a.mp3")]);
    let mut playlist = vec![p("/b.mp3"), p("/a.mp3"), p("/a.mp3")];

    toggle_shuffle(&mut ui, &mut playlist, 1);

    assert!(!ui.queue.shuffle);
    assert_eq!(playlist.len(), 3, "fallback must keep every track");
    let mut sorted = playlist.clone();
    sorted.sort();
    assert_eq!(playlist, sorted, "mismatch falls back to the path sort");
}

#[test]
fn remove_track_restarts_scan_and_marks_tree_dirty() {
    let mut state = PlayerState::new();
    let mut ui = test_ui(3);
    let mut playlist = vec![p("/a.mp3"), p("/b.mp3"), p("/c.mp3")];
    ui.tree.dirty = false;
    ui.list.cursor = 1; // not the playing track (current = 0)

    remove_track(&mut state, &mut ui, &mut playlist, None);

    assert_eq!(playlist, vec![p("/a.mp3"), p("/c.mp3")]);
    assert!(ui.tree.dirty, "remove must reindex via the scan-safe path");
    assert!(ui.scan_handle.is_some(), "scan must be restarted after reindex");
}

#[test]
fn enqueue_track_restarts_scan_and_marks_tree_dirty() {
    let mut state = PlayerState::new();
    let mut ui = test_ui(3);
    let mut playlist = vec![p("/a.mp3"), p("/b.mp3"), p("/c.mp3")];
    ui.tree.dirty = false;
    ui.list.cursor = 2; // enqueue /c.mp3 to play right after current (index 0)

    enqueue_track(&mut state, &mut ui, &mut playlist);

    assert_eq!(playlist, vec![p("/a.mp3"), p("/c.mp3"), p("/b.mp3")]);
    assert!(ui.tree.dirty, "enqueue must reindex via the scan-safe path");
    assert!(ui.scan_handle.is_some(), "scan must be restarted after reindex");
}

#[test]
fn ctrl_c_quits_from_save_playlist_and_tree_filter_input() {
    // SavePlaylist prompt.
    let mut state = PlayerState::new();
    let mut ui = test_ui(2);
    ui.input_mode = InputMode::SavePlaylist(String::new());
    let playlist = vec![p("/a.mp3"), p("/b.mp3")];
    let out = handle_text_input(&mut state, &mut ui, &playlist, key('c', true));
    assert!(matches!(out.flow, Flow::Quit) && state.should_quit());

    // Tree-filter search (`/` in the tree view).
    let mut state = PlayerState::new();
    let mut ui = test_ui(2);
    ui.tree.mode = true;
    ui.input_mode = InputMode::Search(String::new());
    let out = handle_text_input(&mut state, &mut ui, &playlist, key('c', true));
    assert!(matches!(out.flow, Flow::Quit) && state.should_quit());
    assert!(ui.tree.filter.is_empty(), "Ctrl+C must not type into the tree filter");
}

fn scene(w: u16, h: u16) -> Scene {
    Scene {
        name: p("Song"),
        track_info: p("03:20 \u{2022} 16bit stereo"),
        ext: p("flac"),
        eq_name: p("Flat"),
        eq_curve: String::new(),
        fx_name: p("None"),
        cf_name: p("Off"),
        stats: Stats { buf_pct: 76, cpu: p("0.4"), mem: p("17"), cpu_high: false },
        prev: None,
        term_w: w,
        term_h: h,
        viz: Vec::new(),
        viz_raw: false,
        left: Level { filled: 0, peak: 0 },
        right: Level { filled: 0, peak: 0 },
        protocol: GraphicsProtocol::HalfBlock,
    }
}

fn playing(secs: u64, of: u64) -> PlayerState {
    let mut s = PlayerState::new();
    s.track.total_tracks = 3;
    s.track.samples_played = secs * 44100;
    s.track.total_samples = of * 44100;
    s
}

fn text_of(w: &FrameWriter) -> Vec<String> {
    w.lines.iter().map(|l| l.text.clone()).collect()
}

#[test]
fn the_first_two_lines_say_what_plays() {
    let mut s = playing(50, 200);
    let mut ui = test_ui(3);
    let w = print_status_classic(&mut s, &mut ui, &scene(200, 40), &vec![p("/a"), p("/b"), p("/c")]);
    let lines = text_of(&w);
    assert_eq!(lines.len(), 2);
    assert_eq!(
        lines[0],
        "\x1B[2m[1/3]\x1B[0m \x1B[36m\u{266a}\x1B[0m \x1B[1m\x1B[36mSong\x1B[0m \x1B[2m03:20 \u{2022} 16bit stereo\x1B[0m"
    );
    let bar = format!("{}{}{}", "\u{28ff}".repeat(5), "\u{28c0}", "\u{28c0}".repeat(14));
    assert_eq!(
        lines[1],
        format!(
            "  \x1B[32m\u{25b6}\x1B[0m \x1B[1m[00:50/03:20]\x1B[0m \x1B[32m{bar}\x1B[0m \x1B[2mvol:100% \x1B[32m\u{25cf}\x1B[0m post buf:76% {{V}}:VU {{B}}:Bars\x1B[0m"
        )
    );
    assert_eq!(w.emit(Some(1)), format!("\x1B[1F\r\x1B[K{}\n\r\x1B[K{}\x1B[J", lines[0], lines[1]));
    assert_eq!(w.emit(None), format!("\r\x1B[K{}\n\r\x1B[K{}\x1B[J", lines[0], lines[1]));
}

#[test]
fn clipping_is_shown_once() {
    let mut s = playing(0, 200);
    s.clipping = true;
    let mut ui = test_ui(1);
    let c = scene(200, 40);
    let first = text_of(&print_status_classic(&mut s, &mut ui, &c, &vec![p("/a")]));
    assert!(first[1].contains("\x1B[31m\u{25cf}"));
    let second = text_of(&print_status_classic(&mut s, &mut ui, &c, &vec![p("/a")]));
    assert!(second[1].contains("\x1B[32m\u{25cf}"));
}

#[test]
fn bars_are_filled_by_eighths() {
    let mut s = playing(1, 160);
    s.look.viz_style = VizStyle::Bars;
    let mut ui = test_ui(1);
    let lines = text_of(&print_status_classic(&mut s, &mut ui, &scene(200, 40), &vec![p("/a")]));
    assert!(lines[1].contains(&format!("\x1B[32m\u{258f}\x1B[2m{}\x1B[0m", "\u{258f}".repeat(19))));
}

#[test]
fn the_library_fills_the_window() {
    let mut s = playing(0, 200);
    let mut ui = test_ui(3);
    ui.view_mode = ViewMode::Playlist;
    ui.list.cursor = 1;
    ui.cache.entries[1] = TrackMeta {
        artist: Some(p("Artist")),
        album: Some(p("Album")),
        title: Some(p("Title")),
        disc: None,
        track: None,
        duration: Some(185_900_000_000),
    };
    let w = print_status_classic(&mut s, &mut ui, &scene(80, 12), &vec![p("/x/a.mp3"), p("/b.mp3"), p("/c.mp3")]);
    let lines = text_of(&w);
    assert_eq!(lines.len(), 12);
    assert_eq!(lines[2], format!("  \x1B[2m{}\x1B[0m", "\u{2500}".repeat(78)));
    assert!(lines[3].starts_with(" \u{25b6} \x1B[32m   1  a.mp3"));
    assert!(lines[4].starts_with("   \x1B[7m   2  Artist - Title"));
    assert!(lines[4].contains("\x1B[2mAlbum\x1B[0m"));
    assert!(lines[4].ends_with(" \x1B[2m03:05\x1B[0m\x1B[27m"));
    assert_eq!(lines[6], "");
    assert!(lines[11].contains("[Tab] tree"));
    assert_eq!(ui.list.last_visible_rows, 8);
}

#[test]
fn a_search_that_finds_nothing_says_so() {
    let mut s = playing(0, 200);
    let mut ui = test_ui(3);
    ui.view_mode = ViewMode::Playlist;
    ui.input_mode = InputMode::Search(p("zzz"));
    let lines = text_of(&print_status_classic(&mut s, &mut ui, &scene(80, 10), &vec![p("/a"), p("/b"), p("/c")]));
    assert_eq!(lines.len(), 10);
    assert_eq!(lines[3], "  \x1B[2m(no matches)\x1B[0m");
    assert_eq!(lines[9], "  / zzz\x1B[2m_\x1B[0m");
}

#[test]
fn lyrics_follow_the_song() {
    let mut s = playing(15, 200);
    let mut ui = test_ui(1);
    ui.view_mode = ViewMode::Lyrics;
    ui.lyrics.lyrics = Some(parse_lyrics("[00:10.00]first\n[00:20.00]second"));
    let lines = text_of(&print_status_classic(&mut s, &mut ui, &scene(80, 10), &vec![p("/a")]));
    assert_eq!(lines[3], "  \x1B[1m\x1B[36mfirst\x1B[0m");
    assert_eq!(lines[4], "  \x1B[2msecond\x1B[0m");
    assert_eq!(lines[9], "  \x1B[2m[Y] close  [W/S] scroll  [A/D] sync\x1B[0m");
    ui.lyrics.offset = 11;
    let lines = text_of(&print_status_classic(&mut s, &mut ui, &scene(80, 10), &vec![p("/a")]));
    assert_eq!(lines[4], "  \x1B[1m\x1B[36msecond\x1B[0m");
    assert!(lines[9].contains("offset:+5.5s"));
    ui.lyrics.lyrics = None;
    let lines = text_of(&print_status_classic(&mut s, &mut ui, &scene(80, 10), &vec![p("/a")]));
    assert_eq!(lines[3], "  \x1B[2m(no lyrics available)\x1B[0m");
}

#[test]
fn the_visualiser_and_a_message_stand_below() {
    let mut s = playing(0, 200);
    s.look.viz_mode = VizMode::SpectrogramAnalysis;
    let mut ui = test_ui(1);
    ui.set_status(p("hello"));
    let mut c = scene(200, 40);
    c.viz = vec![p("one"), p("two")];
    c.viz_raw = true;
    let w = print_status_classic(&mut s, &mut ui, &c, &vec![p("/a")]);
    let lines = text_of(&w);
    assert_eq!(&lines[3..], &[p("one"), p("two"), p("  \x1B[32mhello\x1B[0m")]);
    assert!(w.lines[3].raw && !w.lines[5].raw);
    assert!(ui.spectro_block_intact);
    assert!(lines[1].contains("{B}:Linear"));
    ui.view_mode = ViewMode::Playlist;
    print_status_classic(&mut s, &mut ui, &c, &vec![p("/a")]);
    assert!(!ui.spectro_block_intact);
}

#[test]
fn notes_are_coloured_by_kind() {
    assert_eq!(icon_color_for_ext("mp3"), "\x1B[32m");
    assert_eq!(icon_color_for_ext("ogg"), "\x1B[35m");
    assert_eq!(icon_color_for_ext("m4a"), "\x1B[31m");
    assert_eq!(icon_color_for_ext("aif"), "\x1B[36m");
    assert_eq!(icon_color_for_ext("wav"), "\x1B[33m");
    assert_eq!(icon_color_for_ext("xyz"), "\x1B[32m");
}

#[test]
fn the_equaliser_has_one_screen_for_all_themes() {
    let mut s = playing(0, 200);
    let ui = test_ui(1);
    let bands: Vec<BandSettings> = (0..10).map(BandSettings::inert).collect();
    for (theme, knob) in [(ThemeKind::Classic, '█'), (ThemeKind::Minimal, '●'), (ThemeKind::HiFi, '◆')] {
        s.look.theme = theme;
        let lines = text_of(&print_status_eq_view(&s, &ui, &scene(80, 30), &bands));
        assert!(lines.iter().any(|l| l.contains(knob)), "{theme:?}");
        assert!(lines.last().unwrap().contains("[E/L/Esc] close"));
    }
    s.eq_custom = true;
    let lines = text_of(&print_status_eq_view(&s, &ui, &scene(80, 30), &bands));
    assert!(lines[0].contains("Custom"));
}

#[test]
fn the_theme_and_the_view_choose_the_frame() {
    let bands: Vec<BandSettings> = (0..10).map(BandSettings::inert).collect();
    let list = vec![p("/a.mp3")];
    let gains = [1000i32; 10];
    for theme in [ThemeKind::Classic, ThemeKind::Minimal, ThemeKind::HiFi] {
        for view in [ViewMode::Player, ViewMode::Playlist, ViewMode::Lyrics, ViewMode::Eq] {
            let mut s = playing(0, 200);
            s.look.theme = theme;
            let mut ui = test_ui(1);
            ui.view_mode = view;
            let w = print_status(&mut s, &mut ui, &scene(100, 30), gains, &bands, &list);
            assert!(w.count() >= 1, "{theme:?} {view:?}");
            assert_eq!(s.eq_gains, gains, "the preset's gains are taken over");
            s.eq_custom = true;
            print_status(&mut s, &mut ui, &scene(100, 30), [0; 10], &bands, &list);
            assert_eq!(s.eq_gains, gains, "gains set by hand stay");
        }
    }
}

#[test]
fn the_cursor_stays_on_the_screen() {
    let mut l = ListView::new();
    for cursor in [0usize, 3, 50, 99, 40, 2] {
        l.cursor = cursor;
        let shown = scroll_list(&mut l, false, 100, 10);
        assert_eq!(shown, 10);
        assert!(l.scroll_offset <= cursor && cursor < l.scroll_offset + 10);
    }
}

#[test]
fn small_words() {
    assert_eq!(balance_text(0), "centred");
    assert_eq!(balance_text(-15), "L15%");
    assert_eq!(balance_text(40), "R40%");
    assert_eq!(offset_text(1), "+0.5");
    assert_eq!(offset_text(-4), "-2.0");
    assert_eq!(format_minutes(3725), "62:05");
    assert!(spectrogram_is_stale(ThemeKind::Classic, None, true, 3));
    assert!(spectrogram_is_stale(ThemeKind::Classic, Some(3), false, 3));
    assert!(spectrogram_is_stale(ThemeKind::Classic, Some(4), true, 3));
    assert!(!spectrogram_is_stale(ThemeKind::Classic, Some(3), true, 3));
    assert!(!spectrogram_is_stale(ThemeKind::Minimal, Some(4), true, 3));
    assert!(spectrogram_is_stale(ThemeKind::Minimal, Some(3), false, 3));
    assert!(spectrogram_is_stale(ThemeKind::Minimal, None, true, 3));
    assert!(!spectrogram_is_stale(ThemeKind::HiFi, None, false, 3));
}

#[test]
fn rates_are_shown_as_single_precision_shows_them() {
    assert_eq!(khz_text(44100), "44.1");
    assert_eq!(khz_text(22050), "22.0");
    assert_eq!(khz_text(11025), "11.0");
    assert_eq!(khz_text(192000), "192.0");
    assert_eq!(khz_text(0), "0.0");
    for rate in (0u32..400_000).step_by(10) {
        assert_eq!(khz_text(rate), format!("{:.1}", rate as f32 / 1000.0), "{rate}");
    }
}
