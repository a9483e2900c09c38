use keet::input::{
    first_launch_choice, is_split_escape, key_command, note_resize, poll_input, prompt_path_key, Ask, Command,
    FirstChoice, Flow, KeyCode, KeyPress, PromptStep,
};
use keet::library::{build, TrackTags};
use keet::metadata::MetadataCache;
use keet::playlist::Source;
use keet::queue::{
    playlist_saved, poll_auto_sort, poll_library_tree, rescan, sort_playlist_by_tags, source_chosen, source_found,
    switch_source_paths, toggle_repeat, toggle_shuffle, tree_remove_indices, SourceFound,
};
use keet::state::{InputMode, PlayerState, RepeatMode, ViewMode};
use keet::theme::ThemeKind;
use keet::tree_view::{
    refresh_tree_rows, render_tree_body, tree_collapse_under_cursor, tree_cursor_play_index, tree_move, tree_page,
    tree_visible_len, TreeView,
};
use keet::theme::palette;
use keet::ui_state::{ScanHandle, UiState};

fn list(s: &[&str]) -> Vec<String> {
    s.iter().map(|x| x.to_string()).collect()
}

fn ui(n: usize) -> UiState {
    UiState::new(list(&["/src"]), MetadataCache::new(n))
}

fn key(code: KeyCode) -> KeyPress {
    KeyPress { code, ctrl: false, shift: false, other: false }
}

fn ch(c: char) -> KeyPress {
    key(KeyCode::Char(c))
}

struct Deck {
    s: PlayerState,
    u: UiState,
    l: Vec<String>,
}

impl Deck {
    fn new() -> Deck {
        let mut s = PlayerState::new();
        s.eq.count = 4;
        s.effects.count = 2;
        s.crossfeed.count = 2;
        Deck { s, u: ui(3), l: list(&["/a.mp3", "/b.mp3", "/c.mp3"]) }
    }

    fn press(&mut self, k: KeyPress) -> Flow {
        poll_input(&mut self.s, &mut self.u, &mut self.l, k, 1, true).flow
    }
}

#[test]
fn keys_do_what_they_say() {
    let mut d = Deck::new();
    assert_eq!(d.press(ch(' ')), Flow::More);
    assert!(d.s.is_paused());
    d.press(ch('v'));
    d.press(ch('b'));
    d.press(ch('+'));
    assert_eq!(d.s.volume, 105);
    d.press(ch(']'));
    assert_eq!(d.s.balance, 5);
    d.press(ch('i'));
    assert!(d.s.show_stats());
    d.press(ch('l'));
    assert_eq!(d.u.view_mode, ViewMode::Playlist);
    d.press(key(KeyCode::Down));
    assert_eq!(d.u.list.cursor, 1);
    d.press(key(KeyCode::Enter));
    assert_eq!(d.s.transport.jump_to_track, Some(1));
    d.press(ch('t'));
    assert_eq!(d.s.theme_kind(), ThemeKind::Minimal);
    assert_eq!(d.press(ch('q')), Flow::Quit);
    assert!(d.s.should_quit());
}

#[test]
fn ctrl_c_quits_everywhere() {
    for view in [ViewMode::Player, ViewMode::Playlist, ViewMode::Lyrics, ViewMode::Eq] {
        let mut d = Deck::new();
        d.u.view_mode = view;
        let k = KeyPress { code: KeyCode::Char('c'), ctrl: true, shift: false, other: false };
        assert_eq!(d.press(k), Flow::Quit, "{view:?}");
    }
}

#[test]
fn searching_narrows_the_list() {
    let mut d = Deck::new();
    d.u.view_mode = ViewMode::Playlist;
    d.press(ch('/'));
    d.press(ch('b'));
    assert_eq!(d.u.list.filtered_indices, vec![1]);
    d.press(key(KeyCode::Esc));
    assert!(d.u.list.filtered_indices.is_empty());
    assert!(matches!(d.u.input_mode, InputMode::Normal));
}

#[test]
fn saving_asks_for_a_name() {
    let mut d = Deck::new();
    d.u.view_mode = ViewMode::Playlist;
    d.press(ch('s'));
    d.press(ch('m'));
    let out = poll_input(&mut d.s, &mut d.u, &mut d.l, key(KeyCode::Enter), 1, true);
    match out.ask {
        Ask::Save(n) => assert_eq!(n, "m"),
        _ => panic!("a name expected"),
    }
}

#[test]
fn the_bands_are_edited() {
    let mut d = Deck::new();
    d.u.view_mode = ViewMode::Eq;
    d.press(key(KeyCode::Right));
    d.press(key(KeyCode::Up));
    assert_eq!((d.u.eq_band, d.s.eq_gains[1]), (1, 1000));
    d.press(ch('0'));
    assert_eq!(d.s.eq_gains[1], 0);
    d.press(ch(']'));
    assert_eq!(d.s.eq_index(), 1);
    d.press(key(KeyCode::Esc));
    assert_eq!(d.u.view_mode, ViewMode::Player);
}

#[test]
fn keys_mean_different_things_in_different_views() {
    assert_eq!(key_command(ViewMode::Lyrics, false, false, ch('a')), Command::LyricsEarlier);
    assert_eq!(key_command(ViewMode::Playlist, false, false, ch('a')), Command::Enqueue);
    assert_eq!(key_command(ViewMode::Player, false, false, key(KeyCode::Other)), Command::Nothing);
    assert!(is_split_escape(key(KeyCode::Esc), true));
    assert!(!is_split_escape(key(KeyCode::Esc), false));
    assert!(!is_split_escape(ch('x'), true));
}

#[test]
fn paths_are_typed() {
    let mut b = String::new();
    assert!(matches!(prompt_path_key(&mut b, ch('x')), PromptStep::Typed('x')));
    assert!(matches!(prompt_path_key(&mut b, ch('y')), PromptStep::Typed('y')));
    assert!(matches!(prompt_path_key(&mut b, key(KeyCode::Backspace)), PromptStep::Erased));
    match prompt_path_key(&mut b, key(KeyCode::Enter)) {
        PromptStep::Submit(p) => assert_eq!(p, "x"),
        _ => panic!("a path expected"),
    }
    assert!(matches!(prompt_path_key(&mut b, key(KeyCode::Esc)), PromptStep::Cancel));
    assert_eq!(first_launch_choice(ch('q'), true), FirstChoice::Quit);
    assert_eq!(first_launch_choice(ch('z'), true), FirstChoice::Again);
    let mut u = ui(1);
    note_resize(&mut u);
    assert!(u.terminal_resized);
}

#[test]
fn a_shuffle_can_be_undone() {
    let mut u = ui(5);
    u.queue.current = 1;
    let before = list(&["/a", "/b", "/c", "/d", "/e"]);
    let mut l = before.clone();
    toggle_shuffle(&mut u, &mut l, 42);
    assert!(u.queue.shuffle);
    assert_eq!(&l[..2], &before[..2], "what was heard and what plays stays");
    toggle_shuffle(&mut u, &mut l, 42);
    assert_eq!(l, before);
    assert_eq!(u.queue.current, 1);
    let mut s = PlayerState::new();
    toggle_repeat(&mut u, &mut s);
    assert_eq!((u.queue.repeat_mode, s.repeat_mode()), (RepeatMode::All, RepeatMode::All));
}

#[test]
fn tags_sort_the_list_once_they_are_there() {
    let mut s = PlayerState::new();
    let mut u = ui(2);
    u.cache.entries[0].artist = Some("Z".to_string());
    u.cache.entries[1].artist = Some("A".to_string());
    let mut l = list(&["/1", "/2"]);
    u.queue.auto_sort_pending = true;
    poll_auto_sort(&mut s, &mut u, &mut l);
    assert_eq!(l, list(&["/1", "/2"]), "the scan is not over");
    u.scan_handle = Some(ScanHandle { generation: 0, finished: true });
    poll_auto_sort(&mut s, &mut u, &mut l);
    assert_eq!(l, list(&["/2", "/1"]));
    assert!(!u.queue.auto_sort_pending);
    assert_eq!(u.queue.current, 1, "the track that plays is followed");
    sort_playlist_by_tags(&mut s, &mut u, &mut l);
    assert_eq!(l, list(&["/2", "/1"]));
}

#[test]
fn sources_are_switched_and_read_again() {
    let mut s = PlayerState::new();
    let mut u = ui(2);
    let mut l = list(&["/a", "/b"]);
    u.queue.current = 1;
    rescan(&mut s, &mut u, &mut l, &list(&["/a", "/b"]), &list(&["/c", "/b"]), &list(&["/c", "/b"]), false);
    assert_eq!(l, list(&["/b", "/c"]));
    assert_eq!(u.queue.current, 0, "the track that plays is followed");
    assert_eq!(u.active_status().unwrap(), "+1 added, -1 removed");
    switch_source_paths(&mut s, &mut u, &mut l, "/nowhere".to_string(), SourceFound::Missing);
    assert_eq!(l, list(&["/b", "/c"]));
    tree_remove_indices(&mut s, &mut u, &mut l, &vec![0], &list(&["/b", "/c"]));
    assert_eq!(l, list(&["/c"]));
    rescan(&mut s, &mut u, &mut l, &list(&["/c"]), &list(&["/b", "/c"]), &list(&["/b", "/c"]), false);
    assert_eq!(l, list(&["/c"]), "what was removed by hand stays away");
    assert_eq!(u.active_status().unwrap(), "No changes found");
}

#[test]
fn a_rescan_keeps_what_plays_and_what_cannot_be_read() {
    let mut s = PlayerState::new();
    let mut u = ui(2);
    u.queue.current = 1;
    let mut l = list(&["/a", "/b"]);
    let keys = l.clone();
    rescan(&mut s, &mut u, &mut l, &keys, &Vec::new(), &Vec::new(), true);
    assert_eq!(l, keys);
    assert_eq!(u.active_status().unwrap(), "Rescan failed for some sources");
    rescan(&mut s, &mut u, &mut l, &keys, &Vec::new(), &Vec::new(), false);
    assert_eq!(l, list(&["/b"]));
    assert_eq!(u.queue.current, 0);
    assert_eq!(u.active_status().unwrap(), "All files removed, finishing current track");
    rescan(&mut s, &mut u, &mut l, &list(&["/b"]), &list(&["//b", "/z/../z"]), &list(&["/b", "/z"]), false);
    assert_eq!(l, list(&["/b", "/z/../z"]), "a path is one however it is written");
    assert_eq!(u.active_status().unwrap(), "+1 added, -0 removed");
}

#[test]
fn a_new_source_is_shuffled_where_the_session_is() {
    let files: Vec<String> = (0..9).map(|i| format!("/m/{i}.mp3")).collect();
    let source = Source::Folder(files.clone());
    let mut u = ui(0);
    match source_found(true, &source, &u, 5) {
        SourceFound::Listed(l) => assert_eq!(l, files),
        _ => panic!("there are tracks"),
    }
    u.queue.shuffle = true;
    match source_found(true, &source, &u, 5) {
        SourceFound::Listed(mut l) => {
            assert_ne!(l, files);
            l.sort();
            assert_eq!(l, files);
        }
        _ => panic!("there are tracks"),
    }
    assert!(matches!(source_found(false, &source, &u, 5), SourceFound::Missing));
    match source_found(true, &Source::Missing, &u, 5) {
        SourceFound::Unreadable(why) => assert_eq!(why, "No audio files found"),
        _ => panic!("there is nothing to play"),
    }
}

#[test]
fn outcomes_are_told() {
    let mut s = PlayerState::new();
    let mut u = ui(2);
    let mut l = list(&["/a", "/b"]);
    source_chosen(&mut s, &mut u, &mut l, None);
    assert_eq!(u.active_status().unwrap(), "Cancelled");
    source_chosen(&mut s, &mut u, &mut l, Some(("/x".to_string(), SourceFound::Missing)));
    assert_eq!(u.active_status().unwrap(), "Path not found: /x");
    playlist_saved(&mut u, &l, Ok("/conf/playlists/mix.m3u".to_string()));
    assert_eq!(u.active_status().unwrap(), "Saved 2 tracks to mix.m3u");
    playlist_saved(&mut u, &l, Err("disk full".to_string()));
    assert_eq!(u.active_status().unwrap(), "Save failed: disk full");
}

fn tag(artist: &str, title: &str) -> TrackTags {
    TrackTags {
        artist: Some(artist.into()),
        album: Some("Album".into()),
        disc: None,
        track: Some(1),
        title: title.into(),
    }
}

#[test]
fn the_tree_is_walked() {
    let mut t = TreeView::new();
    t.tree = build(&vec![tag("A", "t1"), tag("B", "t2")]);
    refresh_tree_rows(&mut t);
    assert_eq!(tree_visible_len(&t), 2);
    tree_move(&mut t, 5);
    assert_eq!(t.cursor, 1);
    assert_eq!(tree_cursor_play_index(&t), Some(1));
    tree_page(&mut t, false);
    assert_eq!(t.cursor, 0);
    tree_collapse_under_cursor(&mut t);
    let lines = render_tree_body(&mut t, 1, 40, &palette(ThemeKind::Classic), 0);
    assert_eq!(lines.len(), 1);
    let mut u = ui(2);
    u.tree.mode = true;
    u.view_mode = ViewMode::Playlist;
    poll_library_tree(&mut u, &list(&["/a", "/b"]));
    assert!(!u.tree.rows.is_empty());
}
