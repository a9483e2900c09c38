use keet::audio::Platform;
use keet::media_keys::{handle, MediaEvent};
use keet::metadata::MetadataCache;
use keet::session::{
    all_heard, await_device, begin_track, cover_query, exclusive_refused, failed_to_open, flush_ring, follow_decoder,
    go_where_asked, go_where_decoder_is, lyrics_source, must_drain, must_respawn, next_cycle, opening_list, pass_over,
    playback_due, rate_wanted, seconds_known, start_cover, start_lyrics, still_filling, still_opening, take_cover,
    take_lyrics, Found, LyricsSource, Moved,
};
use keet::state::{PlayerState, RepeatMode, ViewMode};
use keet::ui_state::UiState;

fn list(s: &[&str]) -> Vec<String> {
    s.iter().map(|x| x.to_string()).collect()
}

fn ui(n: usize) -> UiState {
    UiState::new(list(&["/src"]), MetadataCache::new(n))
}

#[test]
fn the_opening_list_holds_each_file_once() {
    let found = list(&["/a", "/b", "/link"]);
    let keys = list(&["/a", "/b", "/a"]);
    assert_eq!(opening_list(&found, &keys, false, 1), Some(list(&["/a", "/b"])));
    assert_eq!(opening_list(&list(&[]), &list(&[]), false, 1), None);
    let mut shuffled = opening_list(&found, &list(&["/a", "/b", "/c"]), true, 9).unwrap();
    shuffled.sort();
    assert_eq!(shuffled, list(&["/a", "/b", "/link"]));
}

#[test]
fn a_list_that_is_not_repeated_ends() {
    let mut s = PlayerState::new();
    let mut u = ui(1);
    let mut l = list(&["/a"]);
    let found = Found::Files { keys: list(&["/a"]) };
    assert!(next_cycle(&mut s, &mut u, &mut l, &found, 1), "the list is not over yet");
    u.queue.current = 1;
    assert!(!next_cycle(&mut s, &mut u, &mut l, &found, 1));
    u.queue.repeat_mode = RepeatMode::All;
    assert!(next_cycle(&mut s, &mut u, &mut l, &found, 1));
    assert_eq!(u.queue.current, 0);
    assert!(u.queue.auto_sort_pending);
}

#[test]
fn what_was_removed_stays_out_of_the_next_cycle() {
    let mut s = PlayerState::new();
    let mut u = ui(3);
    u.queue.repeat_mode = RepeatMode::All;
    u.queue.current = 3;
    u.queue.removed_paths.insert("/b".to_string());
    let mut l = list(&["/a", "/b", "/c"]);
    let found = Found::Files { keys: list(&["/a", "/b", "/c"]) };
    assert!(next_cycle(&mut s, &mut u, &mut l, &found, 1));
    assert_eq!(l, list(&["/a", "/c"]));
    assert_eq!(s.track.total_tracks, 2);

    u.queue.current = 2;
    let found = Found::Folders { tracks: list(&["/a", "/b", "/d"]), keys: list(&["/a", "/b", "/d"]) };
    assert!(next_cycle(&mut s, &mut u, &mut l, &found, 1));
    assert_eq!(l, list(&["/a", "/d"]));

    u.queue.current = 2;
    u.queue.removed_paths.insert("/a".to_string());
    u.queue.removed_paths.insert("/d".to_string());
    let found = Found::Files { keys: list(&["/a", "/d"]) };
    assert!(!next_cycle(&mut s, &mut u, &mut l, &found, 1), "nothing is left to play");
}

#[test]
fn a_track_begins_afresh() {
    let mut s = PlayerState::new();
    s.producer.producer_done = true;
    s.producer.buffer_level = 5;
    s.transport.skip_next = true;
    s.producer.decode_error = Some("x".to_string());
    begin_track(&mut s, 4);
    assert_eq!(s.track.current_track, 4);
    assert!(!s.producer.producer_done && !s.transport.skip_next);
    assert!(s.producer.decode_error.is_none());
    assert!(still_opening(&s) && !failed_to_open(&s));
    s.producer.track_info_ready = true;
    assert!(!still_opening(&s));
    assert!(still_filling(&s, 44100));
    s.producer.buffer_level = 88200;
    assert!(!still_filling(&s, 44100));
    s.producer.producer_done = true;
    assert!(!all_heard(&s));
    s.producer.buffer_level = 0;
    assert!(all_heard(&s));
    s.producer.track_info_ready = false;
    assert!(failed_to_open(&s));
}

#[test]
fn a_broken_track_is_passed_over() {
    let mut s = PlayerState::new();
    s.producer.decode_error = Some("no codec".to_string());
    let mut u = ui(2);
    pass_over(&mut s, &mut u);
    assert_eq!(u.queue.current, 1);
    assert!(u.terminal_resized);
    assert_eq!(u.active_status(), Some("Skip: no codec".to_string()));
    assert!(s.producer.decode_error.is_none());
}

#[test]
fn the_screen_follows_the_decoder() {
    let mut s = PlayerState::new();
    let mut u = ui(5);
    s.producer.producer_track_index = 3;
    u.view_mode = ViewMode::Playlist;
    u.queue.enqueue_count = 2;
    u.lyrics.scroll = 9;
    assert!(matches!(follow_decoder(&mut s, &mut u, 5), Moved::On));
    assert_eq!((u.queue.current, u.list.cursor, u.queue.enqueue_count), (3, 3, 0));
    assert_eq!((s.track.current_track, u.lyrics.scroll), (3, 0));
    assert!(matches!(follow_decoder(&mut s, &mut u, 3), Moved::Nowhere));
    // A changed list is handed over again.
    u.queue.dirty = true;
    assert!(matches!(follow_decoder(&mut s, &mut u, 5), Moved::Jump));
    assert_eq!(s.transport.jump_to_track, Some(4));
    u.queue.dirty = true;
    u.queue.current_track_removed = true;
    assert!(matches!(follow_decoder(&mut s, &mut u, 5), Moved::Jump));
    assert_eq!(s.transport.jump_to_track, Some(3));
    assert!(must_respawn(&s));
}

#[test]
fn jumps_and_steps_back_lead_somewhere() {
    let mut s = PlayerState::new();
    let mut u = ui(9);
    u.queue.current = 5;
    s.prev();
    go_where_asked(&mut s, &mut u);
    assert_eq!(u.queue.current, 4);
    s.jump_to(7);
    go_where_asked(&mut s, &mut u);
    assert_eq!(u.queue.current, 7);
    assert!(!must_respawn(&s));
    s.producer.ring_capacity = 10;
    assert!(!flush_ring(&mut s, 10));
    assert!(flush_ring(&mut s, 9));
    assert!(s.producer.reset_consumer_counter);
}

#[test]
fn devices_come_and_go() {
    let mut s = PlayerState::new();
    let mut u = ui(2);
    s.device.next_track_rate = 192000;
    assert_eq!(rate_wanted(&s, 96000), 96000);
    assert_eq!(rate_wanted(&s, 400000), 192000);
    s.producer.buffer_level = 1;
    assert!(must_drain(&s));
    s.quit();
    assert!(!must_drain(&s));
    s.producer.producer_track_index = 1;
    go_where_decoder_is(&mut u, &s, 2);
    assert_eq!(u.queue.current, 1);
    await_device(&mut s, &mut u);
    assert!(s.device.stream_error);
    assert_eq!(u.active_status().unwrap(), "audio device lost \u{2014} waiting for an output device");
    s.device.exclusive = true;
    exclusive_refused(&mut s, Platform::MacOs);
    assert!(s.device.exclusive);
    exclusive_refused(&mut s, Platform::Linux);
    assert!(!s.device.exclusive);
}

#[test]
fn lyrics_and_covers_are_looked_for_once() {
    let mut s = PlayerState::new();
    let mut u = ui(2);
    assert_eq!(start_lyrics(&mut u, Some("words")), None);
    assert!(u.lyrics.lyrics.is_some());
    assert_eq!(start_lyrics(&mut u, None), Some(1));
    assert!(u.lyrics.lyrics.is_none());
    take_lyrics(&mut u, None);
    assert!(u.lyrics.lyrics.is_none());
    let t = |x: &str| Some(x.to_string());
    assert!(matches!(lyrics_source(t("e"), t("a"), t("t"), 1, 2), LyricsSource::File(_)));
    assert!(matches!(lyrics_source(None, t("a"), t("t"), 1, 1), LyricsSource::Service(_, _)));
    assert!(matches!(lyrics_source(None, t("a"), t("t"), 1, 2), LyricsSource::Nowhere));
    assert!(matches!(lyrics_source(None, None, t("t"), 1, 1), LyricsSource::Nowhere));

    assert_eq!(start_cover(&mut u), Some(1));
    assert_eq!(cover_query(t("a"), t("b"), 1, 1), Some(("a".to_string(), "b".to_string())));
    assert_eq!(cover_query(t("a"), t("b"), 1, 2), None);
    assert_eq!(cover_query(t("a"), None, 1, 1), None);
    u.banner.dirty = false;
    take_cover(&mut u, &s, None);
    assert!(u.banner.dirty && u.cover.dirty_frame);
    u.cover.enabled = false;
    assert_eq!(start_cover(&mut u), None);
    s.track.total_samples = 44100 * 9;
    assert_eq!(seconds_known(&s), Some(9));
    s.track.total_samples = 0;
    assert_eq!(seconds_known(&s), None);
    assert!(playback_due(true, false, 0) && playback_due(true, true, 1000) && !playback_due(true, true, 999));
}

#[test]
fn media_keys_drive_the_player() {
    let mut s = PlayerState::new();
    handle(&mut s, MediaEvent::Play);
    assert!(!s.is_paused());
    handle(&mut s, MediaEvent::Pause);
    handle(&mut s, MediaEvent::Pause);
    assert!(s.is_paused());
    handle(&mut s, MediaEvent::Toggle);
    assert!(!s.is_paused());
    handle(&mut s, MediaEvent::Next);
    handle(&mut s, MediaEvent::Previous);
    assert!(s.transport.skip_next && s.transport.skip_prev);
    handle(&mut s, MediaEvent::Other);
    assert!(!s.should_quit());
    handle(&mut s, MediaEvent::Stop);
    assert!(s.should_quit());
}
