use keet::ansi::visible_len;
use keet::cover::{CoverImage, CoverSize, GraphicsProtocol};
use keet::frame::{FrameWriter, Level, Scene, Stats};
use keet::lyrics::parse_lyrics;
use keet::metadata::{MetadataCache, TrackMeta};
use keet::state::{PlayerState, ViewMode, VizMode};
use keet::theme::{palette, ThemeKind};
use keet::ui_minimal::{
    format_duration_total, ident_cell, library_hint_bar, minimal_layout, print_status_minimal,
    print_status_minimal_library, print_status_minimal_lyrics, progress_bar_width, render_progress_bar,
    render_signal_row, rows_above_viz, slim_cmd_box, truncate_plain_ansi_aware, viz_section_label, wordmark_anchor,
    IDENT_W_MAX, SIGNAL_W,
};
use keet::ui_state::UiState;

#[test]
fn command_box_borders_line_up_with_its_content_row() {
    let p = palette(ThemeKind::Minimal);
    for term_w in [60usize, 80, 100, 140] {
        let [top, mid, bot] = slim_cmd_box(&p, term_w);
        assert_eq!(
            visible_len(&top),
            visible_len(&mid),
            "term_w={term_w}: content row does not match the top border"
        );
        assert_eq!(visible_len(&top), visible_len(&bot));
        assert!(visible_len(&top) <= term_w, "term_w={term_w}: box exceeds the terminal");
    }
}

#[test]
fn identity_cells_never_exceed_their_column() {
    let plain = "0:42   ████████████████████████   3:01";
    let cell = ident_cell(plain, visible_len(plain), 20);
    assert_eq!(visible_len(&cell), 20, "over-long cell must be cut to the column");

    // Short content is padded out to the full column.
    let cell = ident_cell("hi", 2, 20);
    assert_eq!(visible_len(&cell), 20);

    // Colour codes survive truncation and don't count toward the width.
    let styled = "\x1B[1mFireside and a very long album title here\x1B[0m";
    let cell = ident_cell(styled, visible_len(styled), 12);
    assert_eq!(visible_len(&cell), 12);
    assert!(cell.contains("\x1B[1m"));

    // Degenerate widths must not panic.
    assert_eq!(visible_len(&ident_cell("abc", 3, 0)), 0);
}

#[test]
fn progress_row_fits_the_column_it_is_given() {
    const FIXED: usize = 5 + 3 + 3 + 5;
    for ident_w in [0usize, 8, 16, 20, 30, 36, 63, 200] {
        let w = progress_bar_width(ident_w, "00:42", "03:01");
        let row = FIXED + w;
        assert!(
            row <= ident_w.max(FIXED),
            "ident_w={ident_w}: row {row} overflows its column (bar {w})"
        );
    }
    // Narrower than the timestamps: the bar vanishes rather than forcing width.
    assert_eq!(progress_bar_width(10, "00:42", "03:01"), 0);
    // Longer h:mm:ss stamps take their room from the bar, not the column.
    assert_eq!(progress_bar_width(60, "1:02:03", "1:59:59"), 60 - (7 + 3 + 3 + 7));
    // Wide columns still cap the bar rather than stretching forever.
    assert_eq!(progress_bar_width(400, "00:42", "03:01"), 60);
}

#[test]
fn identity_column_never_moves_as_extras_come_and_go() {
    let widths = [70usize, 99, 100, 118, 119, 140, 200];
    let mut seen = std::collections::BTreeSet::new();
    for w in widths {
        let (ident_w, _, _, _) = minimal_layout(w, true);
        let (ident_no_cover, _, _, _) = minimal_layout(w, false);
        assert_eq!(
            ident_w, ident_no_cover,
            "term_w={w}: identity width must not depend on the cover"
        );
        seen.insert(ident_w);
    }
    // Above the cap it is completely stable, whatever else is drawn.
    assert_eq!(minimal_layout(119, true).0, minimal_layout(200, true).0);
    assert_eq!(minimal_layout(200, true).0, IDENT_W_MAX);
    assert!(seen.contains(&IDENT_W_MAX));
}

#[test]
fn extras_appear_only_in_spare_room() {
    let cover_w = CoverSize::minimal().cols as usize;

    // Too narrow for either: identity only, full width.
    let (ident_w, sig, cov, _) = minimal_layout(90, true);
    assert!(!sig && !cov);
    assert_eq!(ident_w, IDENT_W_MAX);

    // SIGNAL arrives at 100, still no cover.
    let (_, sig, cov, gap) = minimal_layout(100, true);
    assert!(sig && !cov, "SIGNAL at 100, cover must wait");
    assert!(gap >= 2);

    // The cover needs its own width plus a gap on top of that.
    assert!(!minimal_layout(118, true).2, "118 is one short for the cover");
    let (ident_w, sig, cov, gap) = minimal_layout(119, true);
    assert!(sig && cov, "cover fits at 119");
    assert_eq!(ident_w, IDENT_W_MAX, "and it did NOT come out of the identity block");
    // 2 margin + ident + gap + cover + space + │ + space + signal + 2 margin,
    // leaving a column of slack so nothing ever sits on the last cell.
    assert_eq!(ident_w + gap + cover_w + SIGNAL_W + 7, 119 - 1);

    // Without covers SIGNAL stays and the gap simply widens.
    let (_, sig, cov, gap_nc) = minimal_layout(119, false);
    assert!(sig && !cov);
    assert_eq!(gap_nc, gap + cover_w + 1);

    // Degenerate widths must not panic or underflow.
    assert_eq!(minimal_layout(1, true).0, 0);
}

#[test]
fn minimal_cover_slot_matches_the_signal_panel_height() {
    let m = CoverSize::minimal();
    let c = CoverSize::classic();
    assert!(m.cols < c.cols && m.rows < c.rows, "Minimal slot is the smaller one");
    // SIGNAL is a label plus seven values (output, volume, buffer, fader,
    // balance, cpu, mem), and the cover is aligned to exactly that block.
    assert_eq!(m.rows, 8);
    // Cells are roughly 1:2, so keep the slot near square rather than wide.
    let aspect = m.cols as f32 / (m.rows as f32 * 2.0);
    assert!((0.9..=1.25).contains(&aspect), "slot aspect {aspect} is distorted");
}

#[test]
fn signal_block_and_identity_block_end_level() {
    const SIGNAL_TOP: usize = 1;
    const SIGNAL_ROWS: usize = 8; // label + 7 values
    assert_eq!(SIGNAL_TOP + SIGNAL_ROWS, 9);
    assert_eq!(
        CoverSize::minimal().rows as usize,
        SIGNAL_ROWS,
        "cover must span exactly the SIGNAL block"
    );
}

fn p(s: &str) -> String {
    s.to_string()
}

fn scene(w: u16, h: u16) -> Scene {
    Scene {
        name: p("Song"),
        track_info: String::new(),
        ext: p("flac"),
        eq_name: p("Flat"),
        eq_curve: String::new(),
        fx_name: p("Hall"),
        cf_name: p("Off"),
        stats: Stats { buf_pct: 76, cpu: p("0.4"), mem: p("17"), cpu_high: false },
        prev: None,
        term_w: w,
        term_h: h,
        viz: vec![p("viz")],
        viz_raw: false,
        left: Level { filled: 0, peak: 0 },
        right: Level { filled: 0, peak: 0 },
        protocol: GraphicsProtocol::Sixel,
    }
}

fn meta() -> TrackMeta {
    TrackMeta {
        artist: Some(p("Artist")),
        album: Some(p("Album")),
        title: Some(p("Title")),
        disc: None,
        track: None,
        duration: Some(61_000_000_000),
    }
}

fn ui_with(n: usize) -> UiState {
    let mut ui = UiState::new(vec![p("/src")], MetadataCache::new(n));
    ui.cache.entries[0] = meta();
    ui
}

fn playing() -> PlayerState {
    let mut s = PlayerState::new();
    s.track.total_tracks = 2;
    s.track.output_rate = 48000;
    s.track.samples_played = 48000 * 10;
    s.track.total_samples = 44100 * 40;
    s
}

fn text_of(w: &FrameWriter) -> Vec<String> {
    w.lines.iter().map(|l| l.text.clone()).collect()
}

#[test]
fn the_player_shows_identity_signal_and_cover() {
    let mut s = playing();
    let mut ui = ui_with(2);
    let w = print_status_minimal(&mut s, &mut ui, &scene(119, 40));
    let lines = text_of(&w);
    assert_eq!(lines[0], wordmark_anchor(&palette(ThemeKind::Minimal)));
    assert_eq!(lines.len(), 2 + 9 + 1 + 3);
    assert!(lines[2].starts_with("  \x1B[1m\x1B[0mTitle\x1B[0m"));
    assert!(lines[3].contains("Artist  \u{b7}  Album"));
    assert!(lines[3].contains("SIGNAL"));
    assert!(lines[5].contains("NOW PLAYING"));
    assert!(lines[6].contains("00:10") && lines[6].contains("00:40"));
    assert!(lines[7].contains("track 1 of 2  \u{b7}  16-bit stereo  \u{b7}  44.1k \u{2192} 48.0k"));
    assert!(lines[10].contains("mem"));
    // Every row of the block is as wide as the window, but for its margin and a
    // column of slack.
    for l in &lines[4..11] {
        assert_eq!(visible_len(l), 119 - 3, "{l:?}");
    }
    assert!(w.lines[3].raw, "a placed image must not be erased");
    assert!(ui.cover.block_intact);
    // A second frame steps past the image.
    let mut c = scene(119, 40);
    c.prev = Some(14);
    let again = text_of(&print_status_minimal(&mut s, &mut ui, &c));
    assert!(again[3].contains("\x1B[18C"));
    // A narrow window has the identity block alone.
    let narrow = text_of(&print_status_minimal(&mut s, &mut ui, &scene(70, 40)));
    assert_eq!(narrow.len(), 2 + 6 + 1 + 3);
    assert!(!ui.cover.block_intact);
}

#[test]
fn a_cover_is_drawn_in_its_slot() {
    let mut s = playing();
    let mut ui = ui_with(2);
    ui.cover.cover = Some(CoverImage::HalfBlock {
        width: 18,
        height: 16,
        pixels: vec![5; 18 * 16 * 3],
        size: CoverSize::minimal(),
    });
    let mut c = scene(130, 40);
    c.protocol = GraphicsProtocol::HalfBlock;
    let w = print_status_minimal(&mut s, &mut ui, &c);
    assert!(w.lines[3].text.contains("\x1B[38;2;5;5;5m"));
    assert!(!w.lines[3].raw);
}

#[test]
fn the_picture_of_the_visualiser_starts_where_it_is_expected() {
    for w in [70u16, 100, 119] {
        let mut s = playing();
        s.look.viz_mode = VizMode::Oscilloscope;
        let mut ui = ui_with(2);
        let above = rows_above_viz(&ui, w);
        let lines = text_of(&print_status_minimal(&mut s, &mut ui, &scene(w, 40)));
        assert_eq!(lines[above], "viz");
        assert!(lines[above - 1].contains("OSCILLOSCOPE"));
        ui.set_status(p("note"));
        let above = rows_above_viz(&ui, w);
        let lines = text_of(&print_status_minimal(&mut s, &mut ui, &scene(w, 40)));
        assert_eq!(lines[above], "viz");
    }
}

#[test]
fn the_library_is_a_table() {
    let mut ui = ui_with(2);
    ui.view_mode = ViewMode::Playlist;
    ui.list.cursor = 1;
    let w = print_status_minimal_library(&mut ui, &scene(100, 14), &vec![p("/a.mp3"), p("/b.mp3")]);
    let lines = text_of(&w);
    assert_eq!(lines.len(), 14);
    assert!(lines[1].contains("2 tracks \u{b7} 1m"));
    assert!(lines[3].contains("TITLE") && lines[3].contains("TIME"));
    assert!(lines[4].contains("\u{25b6}") && lines[4].contains("Title") && lines[4].contains("01:01"));
    assert!(lines[5].starts_with("\x1B[48;2;24;27;28m"));
    assert!(lines[5].contains("02") && lines[5].contains("b.mp3"));
    assert!(lines[13].contains("all commands"));
}

#[test]
fn lyrics_stand_in_the_middle() {
    let s = playing();
    let mut ui = ui_with(2);
    ui.lyrics.lyrics = Some(parse_lyrics("[00:05.00]abcd\n[00:30.00]later"));
    ui.lyrics.offset = -2;
    let lines = text_of(&print_status_minimal_lyrics(&s, &mut ui, &scene(40, 12)));
    assert_eq!(lines.len(), 4 + 6 + 2);
    assert_eq!(lines[4], format!("{}\x1B[1m\x1B[38;2;154;220;208mabcd\x1B[0m", " ".repeat(18)));
    assert!(lines[1].contains("synced"));
    assert!(lines.last().unwrap().contains("offset -1.0s"));
    ui.lyrics.lyrics = None;
    let lines = text_of(&print_status_minimal_lyrics(&s, &mut ui, &scene(41, 12)));
    assert_eq!(lines[4], format!("{}\x1B[2m(no lyrics available)\x1B[0m", " ".repeat(10)));
}

#[test]
fn pieces_of_the_minimal_screens() {
    let pal = palette(ThemeKind::Minimal);
    assert_eq!(format_duration_total(59), "0m");
    assert_eq!(format_duration_total(2 * 3600 + 14 * 60 + 5), "~2h 14m");
    assert_eq!(viz_section_label(VizMode::Lissajous), "VECTOR");
    assert_eq!(truncate_plain_ansi_aware("abcdef", 3), "abc");
    assert_eq!(render_signal_row(&pal, "k", "v", false, 5), "\x1B[2mk\x1B[0m   \x1B[0mv\x1B[0m");
    assert_eq!(render_progress_bar(12, 4, "F", "R", "X"), "F\u{2588}\u{258c}R\u{2500}\u{2500}X");
    assert!(library_hint_bar(&pal, 100).contains("close"));
}
