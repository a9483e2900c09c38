use keet::ansi::visible_len;
use keet::cover::{render, sanitize_fs, CoverImage, CoverSize};
use keet::equalizer::{BandSettings, BandType, EqPreset};
use keet::library::{build, expand, render_library_tree, visible_rows, FoldState, NameSet, PairSet, TrackTags, VisibleRow};
use keet::lyrics::urlencod;
use keet::metadata::{MetadataCache, TrackMeta};
use keet::path::{file_name, find_path, from_system};
use keet::queue::{remove_track, sort_playlist_by_tags, toggle_shuffle, tree_remove_indices};
use keet::state::{PlayerState, SPECTRUM_BANDS};
use keet::theme::{palette, ThemeKind};
use keet::ui_state::UiState;

fn list(s: &[&str]) -> Vec<String> {
    s.iter().map(|x| x.to_string()).collect()
}

fn ui(n: usize) -> UiState {
    UiState::new(list(&["/src"]), MetadataCache::new(n))
}

fn titled(artist: &str, title: &str) -> TrackMeta {
    let mut m = TrackMeta::unknown();
    m.artist = Some(artist.to_string());
    m.title = Some(title.to_string());
    m
}

#[test]
fn shuffle_on_and_off_gives_everything_back() {
    let was = list(&["/e", "/b", "/d", "/a", "/c", "/f"]);
    for current in 0..6 {
        let mut u = ui(6);
        u.queue.current = current;
        let mut l = was.clone();
        toggle_shuffle(&mut u, &mut l, 7);
        assert_eq!(l[..=current], was[..=current], "what was heard stays where it is");
        assert_eq!(u.queue.current, current);
        toggle_shuffle(&mut u, &mut l, 99);
        assert_eq!(l, was);
        assert_eq!(u.queue.current, current);
        assert!(!u.queue.shuffle);
    }
}

#[test]
fn sorting_follows_the_track_that_plays_and_its_tags() {
    let mut s = PlayerState::new();
    let mut u = ui(3);
    u.cache.entries[0] = titled("Zappa", "z");
    u.cache.entries[1] = titled("abba", "a");
    u.cache.entries[2] = titled("Muse", "m");
    u.queue.current = 0;
    let mut l = list(&["/z", "/a", "/m"]);
    sort_playlist_by_tags(&mut s, &mut u, &mut l);
    assert_eq!(l, list(&["/a", "/m", "/z"]));
    assert_eq!(u.queue.current, 2);
    assert_eq!(s.track.current_track, 2);
    assert_eq!(u.cache.title(2).as_deref(), Some("z"));
}

#[test]
fn removing_follows_the_track_that_plays() {
    let mut s = PlayerState::new();
    let mut u = ui(5);
    u.queue.current = 3;
    let mut l = list(&["/a", "/b", "/c", "/d", "/e"]);
    let keys = l.clone();
    tree_remove_indices(&mut s, &mut u, &mut l, &vec![4, 0, 0, 2, 77], &keys);
    assert_eq!(l, list(&["/b", "/d"]));
    assert_eq!(u.queue.current, 1, "/d goes on playing");
    assert_eq!(u.active_status().unwrap(), "removed 4 track(s)");
    assert!(u.queue.removed_paths.contains("/a") && !u.queue.removed_paths.contains("/b"));
    u.list.cursor = 0;
    remove_track(&mut s, &mut u, &mut l, Some("/b".to_string()));
    assert_eq!(l, list(&["/d"]));
    assert_eq!(u.queue.current, 0);
}

#[test]
fn presets_stay_in_their_ranges() {
    let wild = EqPreset {
        name: "wild".to_string(),
        gains: vec![99_000, -99_000],
        bands: Vec::new(),
        preamp: 0,
    };
    let b = wild.bands_10();
    assert_eq!(b.len(), 10);
    assert_eq!((b[0].gain, b[1].gain, b[2].gain), (12_000, -12_000, 0));
    assert_eq!((b[0].freq, b[9].freq), (31_000, 16_000_000));
    let shaped = EqPreset {
        name: "shaped".to_string(),
        gains: Vec::new(),
        bands: vec![BandSettings { kind: BandType::LowCut, freq: 1, gain: 50_000, q: 99_000 }],
        preamp: 0,
    };
    let b = shaped.bands_10();
    assert_eq!((b[0].freq, b[0].gain, b[0].q), (20_000, 12_000, 10_000));
    assert!(!b[1].is_effective());
}

#[test]
fn names_and_queries_are_safe() {
    assert_eq!(sanitize_fs("../../etc/passwd"), ".._.._etc_passwd");
    assert_eq!(sanitize_fs(" a:b*c?. . "), "a_b_c_");
    assert_eq!(urlencod("a&b=c#d é"), "a%26b%3Dc%23d%20%C3%A9");
    assert!(urlencod("\n\"<>%").chars().all(|c| c.is_ascii_alphanumeric() || c == '%'));
}

#[test]
fn covers_have_a_line_for_each_row() {
    let size = CoverSize { cols: 3, rows: 2 };
    let pixels = vec![7u8; 3 * 4 * 3];
    for img in [
        CoverImage::HalfBlock { width: 3, height: 4, pixels, size },
        CoverImage::Kitty { png: vec![1, 2, 3], size },
        CoverImage::Iterm2 { png: vec![1, 2, 3], size },
        CoverImage::Sixel { data: "q".to_string(), size },
    ] {
        assert_eq!(render(&img).len(), 2);
    }
}

#[test]
fn tree_rows_never_exceed_their_width() {
    let tag = |artist: &str, title: &str| TrackTags {
        artist: Some(artist.to_string()),
        album: Some("A very long album name indeed".to_string()),
        disc: None,
        track: Some(123),
        title: title.to_string(),
    };
    let tree = build(&vec![tag("広島のアーティスト", "a rather long title"), tag("B", "t")]);
    let mut fold = FoldState { expanded_artists: NameSet::new(), expanded_albums: PairSet::new() };
    expand(&tree, &mut fold, VisibleRow::Artist { artist: 0 });
    expand(&tree, &mut fold, VisibleRow::Artist { artist: 1 });
    expand(&tree, &mut fold, VisibleRow::Album { artist: 1, album: 0 });
    let rows = visible_rows(&tree, &fold);
    for kind in [ThemeKind::Classic, ThemeKind::Minimal, ThemeKind::HiFi] {
        for width in 1..40 {
            for cursor in 0..rows.len() {
                let lines =
                    render_library_tree(&tree, &fold, &rows, cursor, 0, 10, width, &palette(kind), Some(0));
                for (i, l) in lines.iter().enumerate() {
                    assert!(visible_len(l) <= width);
                    assert!(i != cursor || visible_len(l) == width);
                }
            }
        }
    }
}

#[test]
fn meters_and_presets_read_back() {
    let mut s = PlayerState::new();
    s.set_peaks(1, 2);
    s.set_vu_dots(3, 4);
    let mut bands = [0u32; SPECTRUM_BANDS];
    bands[5] = 9;
    s.set_spectrum(bands);
    bands[6] = 8;
    s.set_spectrum_r(bands);
    bands[7] = 7;
    s.set_dots(bands);
    assert_eq!(s.get_peaks(), (1, 2));
    assert_eq!(s.get_vu_dots(), (3, 4));
    assert_eq!((s.get_spectrum()[5], s.get_spectrum()[6]), (9, 0));
    assert_eq!((s.get_spectrum_r()[6], s.get_spectrum_r()[7]), (8, 0));
    assert_eq!(s.get_dots()[7], 7);
    s.effects.count = 2;
    s.cycle_effects();
    assert!(s.take_effects_changed() && !s.take_effects_changed());
    s.crossfeed.count = 2;
    s.cycle_crossfeed();
    assert!(s.take_crossfeed_changed() && !s.take_crossfeed_changed());
}

#[test]
fn a_message_is_gone_after_two_seconds() {
    let mut u = ui(0);
    u.set_status("hello".to_string());
    assert_eq!(u.take_status().as_deref(), Some("hello"));
    u.now += 2_000;
    assert_eq!(u.take_status(), None);
    assert!(u.status_message.is_none());
}

#[test]
fn paths_are_one_by_their_components() {
    let paths = list(&["a/b", "/a/b", "./a"]);
    assert_eq!(find_path(&paths, "/a//b/"), Some(1));
    assert_eq!(find_path(&paths, "a/./b"), Some(0));
    assert_eq!(find_path(&paths, "a"), None);
    assert_eq!(file_name(&from_system("a\\b", '\\')).as_deref(), Some("b"));
    assert_eq!(from_system("C:\\m/x.mp3", '\\'), "C:/m/x.mp3");
    assert_eq!(from_system("a\\b", '/'), "a\\b");
}
