use keet::list_view::{
    cursor_to, playlist_cursor_down, playlist_cursor_end, playlist_cursor_home, playlist_cursor_page_down,
    playlist_cursor_page_up, playlist_cursor_up, rebuild_filter, ListView,
};
use keet::lyrics::{
    lrclib_url, lyrics_in_reply, parse_billionths, parse_lrc_line, parse_lrc_time, parse_lyrics, pick_lyrics, urlencod,
    Lyrics,
};
use keet::metadata::{MetadataCache, TrackMeta};
use keet::order::{sort_places, text_part, Part};
use keet::path::{extension, file_name, join, parent, sort_paths};
use keet::playlist::{
    build_playlist, dedup_playlist, is_supported, m3u_text, read_metadata, shuffle_behind, shuffle_list, without_removed,
    PlaylistError, Source, TagKind, TagText,
};
use keet::library::NameSet;
use keet::state::{
    ring_capacity_for, spectro_frame_ms, spectro_hops_per_col, PlayerState, RepeatMode, RgMode, VizMode, VizStyle,
};
use keet::text::{
    ascii_lower, byte_len, contains_text, dec_string, lines_of, parse_u32, replace_first, split_text, trim_text,
};
use keet::theme::ThemeKind;

fn list(s: &[&str]) -> Vec<String> {
    s.iter().map(|x| x.to_string()).collect()
}

#[test]
fn timed_lines_are_sorted_and_sung() {
    let l = parse_lyrics("[00:20.50]b\n[00:10]a\n[ar:someone]\nplain");
    assert!(l.is_synced());
    assert_eq!(l.line_count(), 2);
    assert_eq!((l.line_text(0), l.line_text(1)), ("a", "b"));
    assert_eq!(l.current_line(9_999_999_999), None);
    assert_eq!(l.current_line(10_000_000_000), Some(0));
    assert_eq!(l.current_line(20_500_000_000), Some(1));
    let p = parse_lyrics("one\ntwo");
    assert!(!p.is_synced());
    assert_eq!(p.current_line(5), None);
    match p {
        Lyrics::Plain(v) => assert_eq!(v, list(&["one", "two"])),
        _ => panic!("plain expected"),
    }
}

#[test]
fn a_line_may_have_several_times() {
    let v = parse_lrc_line("[00:01.00][00:02.00]x");
    assert_eq!(v.len(), 2);
    assert_eq!((v[0].time, v[1].time), (1_000_000_000, 2_000_000_000));
    assert_eq!(v[1].text, "x");
    assert_eq!(parse_lrc_time("01:02.5"), Some(62_500_000_000));
    assert_eq!(parse_lrc_time("ti:x"), None);
    assert_eq!(parse_billionths("1.25"), Some(1_250_000_000));
    assert_eq!(parse_billionths("x"), None);
    assert_eq!(parse_billionths("1e1"), Some(10_000_000_000));
    assert_eq!(parse_billionths("-1.5E-2"), Some(-15_000_000));
    assert_eq!(parse_billionths("2500e-3"), Some(2_500_000_000));
    assert_eq!(parse_billionths(".5"), Some(500_000_000));
    assert_eq!(parse_billionths("5."), Some(5_000_000_000));
    assert_eq!(parse_billionths("10000000000000000"), Some(10_000_000_000_000_000_000_000_000));
    assert_eq!(parse_billionths("0e99999999999999999999999999999999999999999"), Some(0));
    assert_eq!(parse_billionths("7e-99999999999999999999999999999999999999999"), Some(0));
    assert_eq!(parse_billionths("1e99"), None);
    assert_eq!(parse_billionths("1e"), None);
    assert_eq!(parse_billionths("1e+"), None);
    assert_eq!(parse_billionths("e5"), None);
    assert_eq!(parse_billionths("."), None);
}

#[test]
fn the_service_is_asked_and_answers() {
    assert_eq!(urlencod("a/b c~"), "a%2Fb%20c~");
    let url = lrclib_url("A B", "C&D", Some(200));
    assert!(url.contains("A%20B") && url.contains("C%26D") && url.contains("200"), "{url}");
    assert_eq!(
        lyrics_in_reply(r#"{"syncedLyrics":"[00:01]x","plainLyrics":"x"}"#),
        Some("[00:01]x".to_string())
    );
    assert_eq!(lyrics_in_reply(r#"{"syncedLyrics":null,"plainLyrics":"x"}"#), Some("x".to_string()));
    assert_eq!(lyrics_in_reply("{}"), None);
    assert_eq!(lyrics_in_reply("oops"), None);
    assert_eq!(pick_lyrics(None, None), None);
}

#[test]
fn playable_files_are_known_by_extension() {
    assert!(is_supported("/x/a.MP3") && is_supported("b.flac") && !is_supported("c.txt") && !is_supported("mp3"));
}

#[test]
fn playlists_are_sorted_or_shuffled() {
    let folder = Source::Folder(list(&["/m/b.mp3", "/m/a.txt", "/m/a.mp3"]));
    assert_eq!(build_playlist(&folder, false, 1), Ok(list(&["/m/a.mp3", "/m/b.mp3"])));
    let mut s = build_playlist(&folder, true, 5).unwrap();
    s.sort();
    assert_eq!(s, list(&["/m/a.mp3", "/m/b.mp3"]));
    assert_eq!(build_playlist(&Source::Missing, false, 1), Err(PlaylistError::NoAudio));
    assert_eq!(build_playlist(&Source::Folder(vec![]), false, 1), Err(PlaylistError::NoAudio));
    assert_eq!(build_playlist(&Source::File("/m/x.bin".to_string()), false, 1), Ok(list(&["/m/x.bin"])));
}

#[test]
fn a_shuffle_keeps_every_track_and_its_seed() {
    let mut a: Vec<String> = (0..50).map(|i| i.to_string()).collect();
    let before = a.clone();
    let mut b = a.clone();
    shuffle_list(&mut a, 12345);
    shuffle_list(&mut b, 12345);
    assert_eq!(a, b);
    assert_ne!(a, before);
    a.sort();
    let mut sorted = before.clone();
    sorted.sort();
    assert_eq!(a, sorted);
    let mut c = before.clone();
    shuffle_behind(&mut c, 10, 7);
    assert_eq!(&c[..11], &before[..11]);
    // The generator, by hand.
    let mut d = list(&["a", "b", "c"]);
    shuffle_list(&mut d, 1);
    let mut e = list(&["a", "b", "c"]);
    let mut rng: u64 = 1;
    for i in (1..3usize).rev() {
        rng = rng.wrapping_mul(6364136223846793005).wrapping_add(1);
        e.swap(i, rng as usize % (i + 1));
    }
    assert_eq!(d, e);
}

#[test]
fn names_come_from_tags() {
    let t = |kind, s: &str| TagText { kind, text: s.to_string() };
    let title = || t(TagKind::Title, "T");
    let artist = || t(TagKind::Artist, "A");
    assert_eq!(read_metadata(&vec![title(), artist()], &vec![]), Some("A - T".to_string()));
    assert_eq!(read_metadata(&vec![title()], &vec![artist()]), Some("A - T".to_string()));
    assert_eq!(read_metadata(&vec![title()], &vec![]), Some("T".to_string()));
    assert_eq!(read_metadata(&vec![artist()], &vec![]), None);
}

#[test]
fn doubles_and_removed_files_are_left_out() {
    let mut gone = NameSet::new();
    gone.insert("/b".to_string());
    let l = list(&["1", "2", "3", "4"]);
    let k = list(&["/a", "/b", "/a", "/c"]);
    assert_eq!(dedup_playlist(&l, &k, &gone), list(&["1", "4"]));
    assert_eq!(without_removed(&l, &k, &gone), list(&["1", "3", "4"]));
}

#[test]
fn paths_are_taken_apart() {
    assert_eq!(file_name("/a/b.c"), Some("b.c".to_string()));
    assert_eq!(file_name("/"), None);
    assert_eq!(parent("/a/b.c"), Some("/a".to_string()));
    assert_eq!(extension("/a/b.tar.gz"), Some("gz".to_string()));
    assert_eq!(extension("/a/.hidden"), None);
    assert_eq!(join("/a", "b"), "/a/b");
    // By components, as paths are ordered.
    assert_eq!(sort_paths(&list(&["/a b/x", "/a/y"])), list(&["/a/y", "/a b/x"]));
}

#[test]
fn sorting_is_stable() {
    let keys: Vec<Vec<Part>> = ["b", "a", "b", "a"].iter().map(|s| vec![text_part(s)]).collect();
    assert_eq!(sort_places(&keys), vec![1, 3, 0, 2]);
}

#[test]
fn tracks_are_named_and_found() {
    let mut c = MetadataCache::new(2);
    c.entries[0] = TrackMeta {
        artist: Some("Artist".to_string()),
        album: None,
        title: Some("Title".to_string()),
        disc: Some(1),
        track: Some(7),
        duration: Some(5),
    };
    assert_eq!(c.display_name(0, "/x/a.mp3"), "Artist - Title");
    assert_eq!(c.display_name(1, "/x/a.mp3"), "a.mp3");
    assert_eq!(c.display_name(9, "/x/z.mp3"), "z.mp3");
    assert!(c.search_matches(0, "/x/a.mp3", "title") && c.search_matches(0, "/x/a.mp3", "a.mp3"));
    assert!(!c.search_matches(1, "/x/a.mp3", "title"));
    assert_eq!((c.disc_number(0), c.track_number(0), c.duration(0)), (Some(1), Some(7), Some(5)));
    c.reindex(&list(&["/new", "/x/a.mp3"]), &list(&["/x/a.mp3", "/y"]));
    assert_eq!(c.title(0), None);
    assert_eq!(c.title(1), Some("Title".to_string()));
}

#[test]
fn the_cursor_stays_on_the_list() {
    let mut l = ListView::new();
    l.last_visible_rows = 5;
    playlist_cursor_up(&mut l);
    assert_eq!(l.cursor, 0);
    playlist_cursor_down(&mut l, 10);
    playlist_cursor_page_down(&mut l, 10);
    assert_eq!(l.cursor, 5);
    playlist_cursor_end(&mut l, 10);
    playlist_cursor_down(&mut l, 10);
    assert_eq!(l.cursor, 9);
    playlist_cursor_page_up(&mut l);
    assert_eq!(l.cursor, 5);
    playlist_cursor_home(&mut l);
    assert_eq!(l.cursor, 0);
    rebuild_filter(&mut l, "B", &MetadataCache::new(3), &list(&["/a", "/b", "/ab"]));
    assert_eq!(l.filtered_indices, vec![1, 2]);
    l.cursor = 1;
    assert_eq!(l.cursor_track(), Some(2));
    l.clear_search();
    assert!(l.filtered_indices.is_empty());
    cursor_to(&mut l, 2);
    assert_eq!(l.cursor, 2);
}

#[test]
fn modes_go_around() {
    let mut m = VizMode::Off;
    let mut seen = 0;
    loop {
        m = m.next();
        seen += 1;
        if m == VizMode::Off {
            break;
        }
    }
    assert_eq!(seen, 8);
    assert_eq!(VizMode::from_str("Scope"), Some(VizMode::Oscilloscope));
    assert_eq!(VizMode::from_str("nope"), None);
    assert_eq!(VizMode::from_u8(200), VizMode::Off);
    assert_eq!(RepeatMode::from_u8(RepeatMode::One.to_u8()), RepeatMode::One);
    assert_eq!(RepeatMode::Off.next().next().next(), RepeatMode::Off);
    assert_eq!(RgMode::from_str("ALBUM"), Some(RgMode::Album));
    assert_eq!(RgMode::from_u8(2).name(), "Off");
    assert_eq!((VizStyle::from_u8(0), VizStyle::from_u8(1)), (VizStyle::Bars, VizStyle::Dots));
}

#[test]
fn the_player_is_driven_by_its_keys() {
    let mut s = PlayerState::new();
    for _ in 0..40 {
        s.volume_up();
    }
    assert_eq!(s.volume, 150);
    for _ in 0..40 {
        s.volume_down();
    }
    assert_eq!(s.volume, 0);
    for _ in 0..30 {
        s.balance_left();
    }
    assert_eq!(s.balance_value(), -100);
    s.balance_right();
    assert_eq!(s.balance_value(), -95);
    s.seek(10);
    s.seek(-5);
    assert_eq!(s.take_seek(), -5, "the last request counts");
    assert_eq!(s.take_seek(), 0);
    s.jump_to(3);
    assert_eq!(s.take_jump(), Some(3));
    assert_eq!(s.take_jump(), None);
    s.eq.count = 3;
    s.step_eq_preset(-1);
    assert_eq!(s.eq_index(), 2);
    assert!(s.take_eq_changed() && !s.take_eq_changed());
    assert_eq!(s.nudge_eq_gain(0, 20_000), 12_000);
    assert!(s.is_eq_custom());
    s.set_theme(ThemeKind::HiFi);
    assert_eq!(s.viz_mode(), VizMode::VuMeter, "the meter needs something to feed it");
    s.clipping = true;
    assert!(s.is_clipping() && !s.is_clipping());
}

#[test]
fn columns_keep_their_pace_at_every_rate() {
    assert_eq!(ring_capacity_for(48000), 384000);
    assert_eq!((spectro_hops_per_col(44100), spectro_frame_ms(44100)), (1, 46));
    assert_eq!((spectro_hops_per_col(96000), spectro_frame_ms(96000)), (2, 43));
    assert_eq!(spectro_frame_ms(0), 45);
}

#[test]
fn texts() {
    assert_eq!(dec_string(0), "0");
    assert_eq!(dec_string(u64::MAX), u64::MAX.to_string());
    assert_eq!(parse_u32("+42"), Some(42));
    assert_eq!(parse_u32("4294967296"), None);
    assert_eq!(parse_u32(""), None);
    assert_eq!(trim_text(" \ta b\n"), "a b");
    assert_eq!(split_text("a,,b", ','), list(&["a", "", "b"]));
    assert_eq!(lines_of("a\r\n\nb"), list(&["a", "", "b"]));
    assert_eq!(replace_first("aXbX", "X", "-"), "a-bX");
    assert_eq!(ascii_lower("AÉz"), "aÉz");
    assert_eq!(byte_len("é"), 2);
    assert!(contains_text("hello", "ell") && contains_text("x", "") && !contains_text("x", "y"));
}

#[test]
fn playlists_are_written_a_track_to_a_line() {
    assert_eq!(m3u_text(&vec!["/a b.mp3".to_string(), "/c.flac".to_string()]), "#EXTM3U\n/a b.mp3\n/c.flac\n");
    assert_eq!(m3u_text(&Vec::new()), "#EXTM3U\n");
}
