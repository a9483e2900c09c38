use keet::ansi::visible_len;
use keet::banner::{
    banner_tail, build_banner_box, compose_banner, farewell, frame_interval, leave_frame, refresh_banner, repaint,
    restore_cursor, should_log_crash, track_info, viz_image_shown, Shown,
};
use keet::cover::{CoverImage, CoverSize, GraphicsProtocol};
use keet::metadata::MetadataCache;
use keet::state::{PlayerState, RepeatMode, ViewMode, VizMode};
use keet::theme::ThemeKind;
use keet::ui_state::UiState;
use std::io::{self, Write};

/// A stdout whose every write fails, like the read end of a pipe that the other
/// process already closed (`keet --help | head`).
struct DeadPipe;

impl Write for DeadPipe {
    fn write(&mut self, _: &[u8]) -> io::Result<usize> {
        Err(io::Error::new(io::ErrorKind::BrokenPipe, "closed"))
    }
    fn flush(&mut self) -> io::Result<()> {
        Err(io::Error::new(io::ErrorKind::BrokenPipe, "closed"))
    }
}

#[test]
fn restore_cursor_survives_a_dead_stdout() {
    // What shows the cursor again is only handed out; a write that fails is the
    // writer's to pass over.
    let bytes = restore_cursor().into_bytes();
    assert!(DeadPipe.write_all(&bytes).is_err());
    assert!(DeadPipe.flush().is_err());
    assert_eq!(restore_cursor().into_bytes(), bytes);
}

#[test]
fn restore_cursor_emits_the_show_cursor_sequence() {
    let buf: Vec<u8> = restore_cursor().into_bytes();
    assert_eq!(buf, b"\x1B[?25h");
}

#[test]
fn closed_pipe_panics_are_not_logged_as_crashes() {
    assert!(!should_log_crash("panicked at 'failed printing to stdout: Broken pipe (os error 32)'"));
    assert!(!should_log_crash("failed printing to stdout: The pipe has been ended. (os error 109)"));
    // Real crashes still get logged.
    assert!(should_log_crash("panicked at 'index out of bounds: len is 3'"));
    assert!(should_log_crash("called `Option::unwrap()` on a `None` value"));
}

fn shown() -> Shown {
    Shown {
        hq: true,
        crossfade_secs: 3,
        eq_name: "Rock".to_string(),
        fx_name: "None".to_string(),
        cf_name: "Off".to_string(),
    }
}

fn ui() -> UiState {
    UiState::new(vec!["/src".to_string()], MetadataCache::new(1))
}

#[test]
fn the_banner_names_what_is_unusual() {
    let mut s = PlayerState::new();
    s.balance = -10;
    let b = build_banner_box(true, RepeatMode::All, &s, &shown());
    let lines: Vec<&str> = b.lines().collect();
    assert_eq!(lines.len(), 5);
    assert!(lines[3].starts_with("\u{2551}  shuffle | repeat | HQ | EQ: Rock | xfade: 3s | bal: L10%"));
    assert_eq!(visible_len(lines[0]), 59);
    assert_eq!(visible_len(lines[1]), 59);
    assert_eq!(visible_len(lines[4]), 59);
    s.look.theme = ThemeKind::HiFi;
    assert_eq!(build_banner_box(true, RepeatMode::All, &s, &shown()), "");
}

#[test]
fn the_cover_stands_beside_the_banner() {
    let text = "one\ntwo\n";
    // Too narrow: the banner alone.
    assert_eq!(compose_banner(text, None, 80), (text.to_string(), 2));
    let (out, lines) = compose_banner(text, None, 81);
    assert_eq!(lines, 10);
    assert!(out.ends_with('\n'));
    let rows: Vec<&str> = out.lines().collect();
    assert_eq!(visible_len(rows[0]), 20 + 2 + 3);
    assert!(rows[1].ends_with("  two"));
    let img = CoverImage::HalfBlock {
        width: 20,
        height: 20,
        pixels: vec![3; 20 * 20 * 3],
        size: CoverSize::classic(),
    };
    let (with, n) = compose_banner(text, Some(&img), 81);
    assert_eq!(n, lines, "nothing moves when a cover comes");
    assert!(with.contains("\x1B[38;2;3;3;3m"));
}

#[test]
fn the_tail_is_classic_only() {
    let t = banner_tail(ThemeKind::Classic, "DAC", Some(48000), 48000, 2);
    assert!(t.starts_with("\nDevice: DAC\nBluetooth device detected, using native 48000Hz\n"));
    assert!(t.contains("Initial output: 48000Hz (device default: 2ch)\n"));
    assert!(t.contains("\x1B[2m{Space}\x1B[0m Pause  \x1B[2m{"));
    assert!(t.ends_with("Pick\n\n"));
    assert_eq!(banner_tail(ThemeKind::Minimal, "DAC", None, 48000, 2), "");
}

#[test]
fn a_dirty_banner_is_written_anew() {
    let s = PlayerState::new();
    let mut u = ui();
    u.banner.tail = "tail\n".to_string();
    refresh_banner(&mut u, &s, &shown());
    assert_eq!(u.banner.text, "");
    u.banner.dirty = true;
    refresh_banner(&mut u, &s, &shown());
    assert!(u.banner.text.ends_with("tail\n"));
    assert!(!u.banner.dirty && u.terminal_resized);
    let out = repaint(&mut u, &s, GraphicsProtocol::Kitty, 120).unwrap();
    assert!(out.starts_with("\x1B_Ga=d,d=i,i=1,q=2\x1B\\\x1B_Ga=d,d=i,i=2,q=2\x1B\\\x1B[0m\x1B[H\x1B[J"));
    assert!(out.contains("\r\n"));
    assert_eq!(u.banner.lines, 10);
    assert!(repaint(&mut u, &s, GraphicsProtocol::Kitty, 120).is_none());
}

#[test]
fn frames_come_at_the_pace_of_the_analysis() {
    let mut s = PlayerState::new();
    assert_eq!(frame_interval(&s), 50);
    s.look.viz_mode = VizMode::SpectrogramAnalysis;
    s.track.output_rate = 44100;
    assert_eq!(frame_interval(&s), 46);
    let mut u = ui();
    assert!(viz_image_shown(&u, &s, GraphicsProtocol::Kitty));
    u.view_mode = ViewMode::Lyrics;
    assert!(!viz_image_shown(&u, &s, GraphicsProtocol::Kitty));
}

#[test]
fn tracks_are_described() {
    let mut s = PlayerState::new();
    s.track.total_samples = 44100 * 200;
    assert_eq!(track_info(&s, 44100), "03:20 \u{2022} 16bit stereo \u{2022} 44100Hz");
    s.track.channels = 6;
    assert_eq!(track_info(&s, 48000), "03:20 \u{2022} 16bit 6ch \u{2022} 44100\u{2192}48000Hz");
}

#[test]
fn the_screen_is_left_clean() {
    assert_eq!(leave_frame(Some(4)), "\x1B[?25h\x1B[5F\x1B[J");
    assert_eq!(leave_frame(None), "\x1B[?25h\x1B[J");
    assert_eq!(farewell(GraphicsProtocol::Sixel), "\x1B[?25h\x1B[H\x1B[J\u{2713} Done\n");
}
