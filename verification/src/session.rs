//! The course of a session: from one track to the next, and through the list
//! again.
use crate::audio::Platform;
use crate::cover::CoverImage;
use crate::library::NameSet;
use crate::list_view::ListView;
use crate::lyrics;
use crate::lyrics::{parse_lyrics, Lyrics};
use crate::playlist;
use crate::playlist::{dedup_playlist, shuffle_list, without_removed};
use crate::queue;
use crate::queue::{arm_auto_sort, copy_list, reindex_and_restart_scan};
use crate::state::{Device, PlayerState, Feed, RepeatMode, TrackInfo, Transport, ViewMode};
use crate::text;
use crate::text::min_usize;
use crate::theme::ThemeKind;
use crate::tree_view::TreeView;
use crate::ui_state;
use crate::ui_state::{Banner, CoverPane, LyricsPane, Queue, UiState};
use vstd::prelude::*;

verus! {

/// The list to begin with: what the sources hold, each file once, shuffled where
/// that is asked for. `None` where they hold nothing. `keys` holds what each
/// path really leads to.
pub fn opening_list(found: &Vec<String>, keys: &Vec<String>, shuffle: bool, seed: u64) -> (r: Option<Vec<String>>)
    requires
        found@.len() == keys@.len(),
    ensures
        r is None <==> found@.len() == 0,
        r matches Some(list) ==> {
            let once = playlist::kept(
                text::texts(found@),
                text::texts(keys@),
                Set::empty(),
                found@.len() as int,
            );
            text::texts(list@) == (if shuffle {
                playlist::shuffled(once, 0, seed)
            } else {
                once
            })
        },
{
    if found.len() == 0 {
        return None;
    }
    let none: NameSet = NameSet::new();
    let mut list: Vec<String> = dedup_playlist(found, keys, &none);
    if shuffle {
        proof {
            playlist::lemma_texts_shuffled(list@, 0, seed);
        }
        shuffle_list(&mut list, seed);
    }
    Some(list)
}

/// What the sources hold when the list has come to its end.
pub enum Found {
    /// Some source is a folder: what all of them hold now, and where each path
    /// really leads.
    Folders { tracks: Vec<String>, keys: Vec<String> },
    /// No source is a folder: where each path of the list really leads.
    Files { keys: Vec<String> },
}

/// Whether there is a key to each path.
pub open spec fn is_matched(found: Found, n: int) -> bool {
    match found {
        Found::Folders { tracks, keys } => tracks@.len() == keys@.len(),
        Found::Files { keys } => keys@.len() == n,
    }
}

/// The list for the next time through: folders are read anew, what was removed
/// stays out, and a shuffled list is shuffled again.
pub open spec fn next_list(
    found: Found,
    was: Seq<Seq<char>>,
    removed: Set<Seq<char>>,
    shuffle: bool,
    seed: u64,
) -> Seq<Seq<char>> {
    match found {
        Found::Folders { tracks, keys } => if tracks@.len() == 0 {
            was
        } else {
            let once = playlist::kept(text::texts(tracks@), text::texts(keys@), removed, tracks@.len() as int);
            if shuffle {
                playlist::shuffled(once, 0, seed)
            } else {
                once
            }
        },
        Found::Files { keys } => {
            let left = playlist::left_over(was, text::texts(keys@), removed, was.len() as int);
            if shuffle {
                playlist::shuffled(left, 0, seed)
            } else {
                left
            }
        },
    }
}

/// Whether the list is counted anew.
pub open spec fn is_recounted(found: Found, removed: Set<Seq<char>>) -> bool {
    match found {
        Found::Folders { tracks, keys } => tracks@.len() > 0,
        Found::Files { keys } => removed != Set::<Seq<char>>::empty(),
    }
}

fn remake_list(state: &mut PlayerState, ui: &UiState, playlist: &mut Vec<String>, found: &Found, seed: u64)
    requires
        is_matched(*found, old(playlist)@.len() as int),
    ensures
        text::texts(final(playlist)@) == next_list(
            *found,
            text::texts(old(playlist)@),
            ui.queue.removed_paths@,
            ui.queue.shuffle,
            seed,
        ),
        *final(state) == (if is_recounted(*found, ui.queue.removed_paths@) {
            queue::with_total(*old(state), final(playlist)@.len())
        } else {
            *old(state)
        }),
{
    assert(text::texts(playlist@).len() == playlist@.len());
    match found {
        Found::Folders { tracks, keys } => {
            if tracks.len() > 0 {
                let mut list: Vec<String> = dedup_playlist(tracks, keys, &ui.queue.removed_paths);
                if ui.queue.shuffle {
                    proof {
                        playlist::lemma_texts_shuffled(list@, 0, seed);
                    }
                    shuffle_list(&mut list, seed);
                }
                state.track.total_tracks = list.len();
                *playlist = list;
            }
        },
        Found::Files { keys } => {
            let mut list: Vec<String> = without_removed(playlist, keys, &ui.queue.removed_paths);
            let n: usize = list.len();
            if ui.queue.shuffle {
                proof {
                    playlist::lemma_texts_shuffled(list@, 0, seed);
                    playlist::shuffle_keeps_every_track(list@, 0, seed);
                }
                shuffle_list(&mut list, seed);
            }
            if !ui.queue.removed_paths.is_empty() {
                state.track.total_tracks = list.len();
            }
            *playlist = list;
        },
    }
}

/// Goes through the list again where it has come to its end and is repeated.
/// Says whether there is something to play.
pub fn next_cycle(
    state: &mut PlayerState,
    ui: &mut UiState,
    playlist: &mut Vec<String>,
    found: &Found,
    seed: u64,
) -> (more: bool)
    requires
        is_matched(*found, old(playlist)@.len() as int),
    ensures
        old(ui).queue.current < old(playlist)@.len() ==> more && *final(state) == *old(state) && *final(ui) == *old(ui)
            && final(playlist)@ == old(playlist)@,
        old(ui).queue.current >= old(playlist)@.len() && old(ui).queue.repeat_mode is Off ==> !more && *final(state)
            == *old(state) && *final(ui) == *old(ui) && final(playlist)@ == old(playlist)@,
        old(ui).queue.current >= old(playlist)@.len() && !(old(ui).queue.repeat_mode is Off) ==> {
            let was = text::texts(old(playlist)@);
            let now = next_list(*found, was, old(ui).queue.removed_paths@, old(ui).queue.shuffle, seed);
            &&& text::texts(final(playlist)@) == now
            &&& *final(state) == (if is_recounted(*found, old(ui).queue.removed_paths@) {
                queue::with_total(*old(state), now.len())
            } else {
                *old(state)
            })
            &&& more == (now.len() > 0)
            &&& !more ==> *final(ui) == *old(ui)
            &&& more ==> {
                &&& queue::followed_up(*final(ui), *old(ui), now, was)
                &&& *final(ui) == (UiState {
                    cache: final(ui).cache,
                    scan_handle: final(ui).scan_handle,
                    tree: TreeView { dirty: true, ..old(ui).tree },
                    queue: Queue {
                        current: 0,
                        auto_sort_pending: queue::sortable(text::texts(old(ui).queue.source_paths@))
                            && !old(ui).queue.shuffle,
                        ..old(ui).queue
                    },
                    ..*old(ui)
                })
            }
        },
{
    if ui.queue.current < playlist.len() {
        return true;
    }
    if ui.queue.repeat_mode == RepeatMode::Off {
        return false;
    }
    let was: Vec<String> = copy_list(playlist);
    remake_list(state, ui, playlist, found, seed);
    assert(text::texts(playlist@).len() == playlist@.len());
    if playlist.len() == 0 {
        return false;
    }
    reindex_and_restart_scan(ui, playlist, &was);
    arm_auto_sort(ui);
    ui.queue.current = 0;
    true
}

/// The player ready for a new decoder, at a track.
pub open spec fn begun(s: PlayerState, current: usize) -> PlayerState {
    PlayerState {
        track: TrackInfo { current_track: current, ..s.track },
        transport: Transport { skip_next: false, skip_prev: false, ..s.transport },
        producer: Feed {
            producer_done: false,
            track_info_ready: false,
            buffer_level: 0,
            decode_error: None,
            ..s.producer
        },
        ..s
    }
}

/// Makes the player ready for a new decoder, at a track.
pub fn begin_track(state: &mut PlayerState, current: usize)
    ensures
        *final(state) == begun(*old(state), current),
{
    state.track.current_track = current;
    state.producer.producer_done = false;
    state.producer.track_info_ready = false;
    state.transport.skip_next = false;
    state.transport.skip_prev = false;
    state.producer.buffer_level = 0;
    state.producer.decode_error = None;
}

/// Whether the decoder is still opening the file.
pub fn still_opening(state: &PlayerState) -> (r: bool)
    ensures
        r == (!state.producer.track_info_ready && !state.producer.producer_done && !state.transport.quit),
{
    !state.producer.track_info_ready && !state.producer.producer_done && !state.transport.quit
}

/// Whether the decoder is still filling the ring: a second of sound has to be
/// there before the track is heard.
pub fn still_filling(state: &PlayerState, stream_rate: u32) -> (r: bool)
    ensures
        r == (state.producer.buffer_level < stream_rate * 2 && !state.producer.producer_done
            && !state.transport.quit),
{
    (state.producer.buffer_level as u128) < stream_rate as u128 * 2 && !state.producer.producer_done
        && !state.transport.quit
}

/// Whether the decoder gave up before it knew what the file holds.
pub fn failed_to_open(state: &PlayerState) -> (r: bool)
    ensures
        r == (state.producer.producer_done && !state.producer.track_info_ready),
{
    state.producer.producer_done && !state.producer.track_info_ready
}

/// Whether the decoder is done and all of it has been heard.
pub fn all_heard(state: &PlayerState) -> (r: bool)
    ensures
        r == (state.producer.producer_done && state.producer.buffer_level == 0),
{
    state.producer.producer_done && state.producer.buffer_level == 0
}

/// The player with the note of a broken file taken.
pub open spec fn error_taken(s: PlayerState) -> PlayerState {
    PlayerState { producer: Feed { decode_error: None, ..s.producer }, ..s }
}

/// Whether the screen says which file was passed over, where one was.
pub open spec fn is_told_of(ui: UiState, was: UiState, s: PlayerState) -> bool {
    match s.producer.decode_error {
        Some(m) => ui_state::told(ui.status_message, "Skip: "@ + m@, was.now),
        None => ui.status_message == was.status_message,
    }
}

fn tell_error(state: &mut PlayerState, ui: &mut UiState)
    ensures
        *final(state) == error_taken(*old(state)),
        is_told_of(*final(ui), *old(ui), *old(state)),
        *final(ui) == (UiState { status_message: final(ui).status_message, ..*old(ui) }),
{
    match &state.producer.decode_error {
        Some(m) => {
            let mut msg: String = "Skip: ".to_owned();
            msg.push_str(m.as_str());
            ui.set_status(msg);
        },
        None => {},
    }
    state.producer.decode_error = None;
}

/// Passes over a track that could not be opened: the next one is up, and the
/// screen is painted as a whole.
pub fn pass_over(state: &mut PlayerState, ui: &mut UiState)
    requires
        old(ui).queue.current < usize::MAX,
    ensures
        *final(state) == error_taken(*old(state)),
        is_told_of(*final(ui), *old(ui), *old(state)),
        *final(ui) == (UiState {
            status_message: final(ui).status_message,
            queue: Queue { current: (old(ui).queue.current + 1) as usize, ..old(ui).queue },
            terminal_resized: true,
            ..*old(ui)
        }),
{
    tell_error(state, ui);
    ui.queue.current = ui.queue.current + 1;
    ui.terminal_resized = true;
}

/// What follows from the decoder having gone on to another track.
pub enum Moved {
    /// The list has changed since the decoder was given it: it has to be given
    /// the list again, at another place.
    Jump,
    /// Another track plays.
    On,
    /// Nothing: there is no such track.
    Nowhere,
}

/// The place to go on at in a list that has changed.
pub open spec fn place_after(q: Queue, n: int) -> int {
    if q.current_track_removed {
        q.current as int
    } else {
        text::least(q.current + 1, text::minus(n, 1))
    }
}

/// Follows the decoder to the track it has gone on to.
pub fn follow_decoder(state: &mut PlayerState, ui: &mut UiState, n: usize) -> (r: Moved)
    ensures
        is_told_of(*final(ui), *old(ui), *old(state)),
        old(ui).queue.dirty ==> {
            &&& r is Jump
            &&& *final(state) == (PlayerState {
                transport: Transport {
                    jump_to_track: Some(place_after(old(ui).queue, n as int) as usize),
                    ..old(state).transport
                },
                ..error_taken(*old(state))
            })
            &&& *final(ui) == (UiState {
                status_message: final(ui).status_message,
                queue: Queue { dirty: false, current_track_removed: false, ..old(ui).queue },
                ..*old(ui)
            })
        },
        !old(ui).queue.dirty && old(state).producer.producer_track_index < n ==> {
            let to = old(state).producer.producer_track_index;
            &&& r is On
            &&& *final(state) == (PlayerState {
                track: TrackInfo { current_track: to, ..old(state).track },
                ..error_taken(*old(state))
            })
            &&& *final(ui) == (UiState {
                status_message: final(ui).status_message,
                queue: Queue { current: to, enqueue_count: 0, ..old(ui).queue },
                list: ListView {
                    cursor: if old(ui).view_mode is Playlist && old(ui).list.filtered_indices@.len() == 0 {
                        to
                    } else {
                        old(ui).list.cursor
                    },
                    ..old(ui).list
                },
                lyrics: LyricsPane { scroll: 0, auto_scroll: true, ..old(ui).lyrics },
                ..*old(ui)
            })
        },
        !old(ui).queue.dirty && old(state).producer.producer_track_index >= n ==> {
            &&& r is Nowhere
            &&& *final(state) == error_taken(*old(state))
            &&& *final(ui) == (UiState { status_message: final(ui).status_message, ..*old(ui) })
        },
{
    tell_error(state, ui);
    let to: usize = state.producer.producer_track_index;
    if ui.queue.dirty {
        let target: usize = if ui.queue.current_track_removed || (ui.queue.current as u128) + 1 > usize::MAX as u128 {
            if ui.queue.current_track_removed {
                ui.queue.current
            } else {
                n.saturating_sub(1)
            }
        } else {
            min_usize(ui.queue.current + 1, n.saturating_sub(1))
        };
        ui.queue.dirty = false;
        ui.queue.current_track_removed = false;
        state.jump_to(target);
        return Moved::Jump;
    }
    if to < n {
        ui.queue.current = to;
        ui.queue.enqueue_count = 0;
        state.track.current_track = to;
        let playlist_view: bool = match ui.view_mode {
            ViewMode::Playlist => true,
            _ => false,
        };
        if playlist_view && ui.list.filtered_indices.len() == 0 {
            ui.list.cursor = to;
        }
        ui.lyrics.scroll = 0;
        ui.lyrics.auto_scroll = true;
        return Moved::On;
    }
    Moved::Nowhere
}

/// Whether the decoder has to be stopped and started at another place.
pub fn must_respawn(state: &PlayerState) -> (r: bool)
    ensures
        r == (state.transport.skip_prev || state.transport.jump_to_track is Some),
{
    state.transport.skip_prev || state.transport.jump_to_track.is_some()
}

/// Asks for what is left in the ring to be dropped, where something is left.
/// Says whether that has to be waited for.
pub fn flush_ring(state: &mut PlayerState, free: usize) -> (wait: bool)
    ensures
        wait == (old(state).producer.ring_capacity > free),
        *final(state) == (if wait {
            PlayerState { producer: Feed { reset_consumer_counter: true, ..old(state).producer }, ..*old(state) }
        } else {
            *old(state)
        }),
{
    if state.producer.ring_capacity > free {
        state.producer.reset_consumer_counter = true;
        true
    } else {
        false
    }
}

/// Where a jump or a step back leads.
pub open spec fn place_asked(t: Transport, current: usize) -> usize {
    match t.jump_to_track {
        Some(i) => i,
        None => if t.skip_prev {
            text::minus(current as int, 1) as usize
        } else {
            current
        },
    }
}

/// Goes where a jump or a step back leads.
pub fn go_where_asked(state: &mut PlayerState, ui: &mut UiState)
    ensures
        *final(ui) == (UiState {
            queue: Queue {
                current: place_asked(old(state).transport, old(ui).queue.current),
                enqueue_count: 0,
                ..old(ui).queue
            },
            ..*old(ui)
        }),
        *final(state) == (PlayerState {
            transport: Transport {
                jump_to_track: None,
                skip_prev: old(state).transport.jump_to_track is Some && old(state).transport.skip_prev,
                ..old(state).transport
            },
            ..*old(state)
        }),
{
    match state.take_jump() {
        Some(i) => {
            ui.queue.current = i;
        },
        None => {
            if state.take_skip_prev() {
                ui.queue.current = ui.queue.current.saturating_sub(1);
            }
        },
    }
    ui.queue.enqueue_count = 0;
}

/// Whether what is left in the ring has to be heard before the device's rate is
/// changed. It is not heard while the player is paused.
pub fn must_drain(state: &PlayerState) -> (r: bool)
    ensures
        r == (!state.transport.quit && (state.transport.paused || state.producer.buffer_level > 0)),
{
    !state.transport.quit && (state.transport.paused || state.producer.buffer_level > 0)
}

/// The rate to set the device to: the next track's, as far as the device goes.
pub fn rate_wanted(state: &PlayerState, max_rate: u32) -> (r: u32)
    ensures
        r == text::least(state.device.next_track_rate as int, max_rate as int),
{
    if state.device.next_track_rate < max_rate {
        state.device.next_track_rate
    } else {
        max_rate
    }
}

/// Goes to the track that the decoder stopped at, where there is such a track.
pub fn go_where_decoder_is(ui: &mut UiState, state: &PlayerState, n: usize)
    ensures
        *final(ui) == (if state.producer.producer_track_index < n {
            UiState { queue: Queue { current: state.producer.producer_track_index, ..old(ui).queue }, ..*old(ui) }
        } else {
            *old(ui)
        }),
{
    if state.producer.producer_track_index < n {
        ui.queue.current = state.producer.producer_track_index;
    }
}

/// Waits for another device: the loss of the last one is noted again, so that it
/// is looked for in the next frame too.
pub fn await_device(state: &mut PlayerState, ui: &mut UiState)
    ensures
        *final(state) == (PlayerState { device: Device { stream_error: true, ..old(state).device }, ..*old(state) }),
        ui_state::told(
            final(ui).status_message,
            "audio device lost \u{2014} waiting for an output device"@,
            old(ui).now,
        ),
        *final(ui) == (UiState { status_message: final(ui).status_message, ..*old(ui) }),
{
    state.device.stream_error = true;
    ui.set_status("audio device lost \u{2014} waiting for an output device".to_owned());
}

/// Goes on without the device alone where it cannot be had. On macOS its rate
/// can still be changed, and is.
pub fn exclusive_refused(state: &mut PlayerState, platform: Platform)
    ensures
        *final(state) == (if platform is MacOs {
            *old(state)
        } else {
            PlayerState { device: Device { exclusive: false, ..old(state).device }, ..*old(state) }
        }),
{
    match platform {
        Platform::MacOs => {},
        _ => {
            state.device.exclusive = false;
        },
    }
}

/// The generation after another.
pub open spec fn next_generation(g: u64) -> u64 {
    if g == u64::MAX {
        0
    } else {
        (g + 1) as u64
    }
}

/// Starts on the lyrics of a track: what is known already is shown; or else they
/// are looked for, under a new generation.
pub fn start_lyrics(ui: &mut UiState, known: Option<&str>) -> (look: Option<u64>)
    ensures
        match known {
            Some(t) => {
                &&& look is None
                &&& final(ui).lyrics.lyrics matches Some(l) && lyrics::is_parsed(l, t@)
                &&& *final(ui) == (UiState {
                    lyrics: LyricsPane { lyrics: final(ui).lyrics.lyrics, ..old(ui).lyrics },
                    ..*old(ui)
                })
            },
            None => {
                let g = next_generation(old(ui).lyrics.generation);
                &&& look == Some(g)
                &&& *final(ui) == (UiState {
                    lyrics: LyricsPane { lyrics: None, generation: g, ..old(ui).lyrics },
                    ..*old(ui)
                })
            },
        },
{
    match known {
        Some(t) => {
            ui.lyrics.lyrics = Some(parse_lyrics(t));
            None
        },
        None => {
            ui.lyrics.lyrics = None;
            ui.lyrics.generation = ui.lyrics.generation.wrapping_add(1);
            Some(ui.lyrics.generation)
        },
    }
}

/// Where lyrics are taken from.
pub enum LyricsSource {
    /// The file itself.
    File(String),
    /// The service, asked by artist and title.
    Service(String, String),
    Nowhere,
}

/// Where lyrics are taken from: the file comes first, and the service is not
/// asked where another track was chosen in the meantime.
pub fn lyrics_source(
    embedded: Option<String>,
    artist: Option<String>,
    title: Option<String>,
    generation: u64,
    latest: u64,
) -> (r: LyricsSource)
    ensures
        match embedded {
            Some(t) => r == LyricsSource::File(t),
            None => match (artist, title) {
                (Some(a), Some(t)) => if generation == latest {
                    r == LyricsSource::Service(a, t)
                } else {
                    r is Nowhere
                },
                _ => r is Nowhere,
            },
        },
{
    match embedded {
        Some(t) => LyricsSource::File(t),
        None => match artist {
            Some(a) => match title {
                Some(t) => if generation == latest {
                    LyricsSource::Service(a, t)
                } else {
                    LyricsSource::Nowhere
                },
                None => LyricsSource::Nowhere,
            },
            None => LyricsSource::Nowhere,
        },
    }
}

/// Shows lyrics that were found; where none were, what is shown stays.
pub fn take_lyrics(ui: &mut UiState, found: Option<Lyrics>)
    ensures
        *final(ui) == (if found is Some {
            UiState { lyrics: LyricsPane { lyrics: found, ..old(ui).lyrics }, ..*old(ui) }
        } else {
            *old(ui)
        }),
{
    if found.is_some() {
        ui.lyrics.lyrics = found;
    }
}

/// Starts on the cover of a track: it is looked for under a new generation,
/// unless covers are not shown.
pub fn start_cover(ui: &mut UiState) -> (look: Option<u64>)
    ensures
        match look {
            Some(g) => {
                &&& old(ui).cover.enabled
                &&& g == next_generation(old(ui).cover.generation)
                &&& *final(ui) == (UiState {
                    cover: CoverPane { cover: None, generation: g, dirty_frame: true, ..old(ui).cover },
                    ..*old(ui)
                })
            },
            None => !old(ui).cover.enabled && *final(ui) == (UiState {
                cover: CoverPane { cover: None, dirty_frame: true, ..old(ui).cover },
                ..*old(ui)
            }),
        },
{
    ui.cover.cover = None;
    ui.cover.dirty_frame = true;
    if !ui.cover.enabled {
        return None;
    }
    ui.cover.generation = ui.cover.generation.wrapping_add(1);
    Some(ui.cover.generation)
}

/// The artist and the album to ask the service for, where the cover was not found
/// nearer by: not where another track was chosen in the meantime, and not where
/// one of them is not known.
pub fn cover_query(
    artist: Option<String>,
    album: Option<String>,
    generation: u64,
    latest: u64,
) -> (r: Option<(String, String)>)
    ensures
        r == (match (artist, album) {
            (Some(a), Some(b)) => if generation == latest {
                Some((a, b))
            } else {
                None
            },
            _ => None,
        }),
{
    if generation != latest {
        return None;
    }
    match artist {
        Some(a) => match album {
            Some(b) => Some((a, b)),
            None => None,
        },
        None => None,
    }
}

/// Shows the cover that was found, or that there is none. Under the classic
/// theme it is part of the banner.
pub fn take_cover(ui: &mut UiState, state: &PlayerState, found: Option<CoverImage>)
    ensures
        *final(ui) == (UiState {
            cover: CoverPane { cover: found, dirty_frame: true, ..old(ui).cover },
            banner: Banner { dirty: old(ui).banner.dirty || state.look.theme is Classic, ..old(ui).banner },
            ..*old(ui)
        }),
{
    ui.cover.cover = found;
    ui.cover.dirty_frame = true;
    if state.look.theme == ThemeKind::Classic {
        ui.banner.dirty = true;
    }
}

/// Whether the system is told of the position: at once when the player is paused
/// or goes on, and once a second otherwise.
pub fn playback_due(paused: bool, last_paused: bool, elapsed_ms: u64) -> (r: bool)
    ensures
        r == (paused != last_paused || elapsed_ms >= 1000),
{
    paused != last_paused || elapsed_ms >= 1000
}

/// Whole seconds of the track, for the service that is asked for lyrics: none
/// where its length is not known.
pub fn seconds_known(state: &PlayerState) -> (r: Option<u32>)
    ensures
        r == (if state.track.total_samples == 0 || state.track.sample_rate == 0 {
            None
        } else {
            Some(
                text::least(
                    PlayerState::seconds(state.track.total_samples, state.track.sample_rate),
                    u32::MAX as int,
                ) as u32,
            )
        }),
{
    if state.track.total_samples == 0 || state.track.sample_rate == 0 {
        return None;
    }
    let n: u64 = state.total_secs();
    if n < 0xffff_ffff {
        Some(n as u32)
    } else {
        Some(0xffff_ffff)
    }
}

/// A list of files that is repeated loses nothing but what was removed, shuffled
/// or not.
pub proof fn cycle_loses_only_what_was_removed(
    keys: Vec<String>,
    was: Seq<Seq<char>>,
    removed: Set<Seq<char>>,
    shuffle: bool,
    seed: u64,
    i: int,
)
    requires
        keys@.len() == was.len(),
        0 <= i < was.len(),
        !removed.contains(text::texts(keys@)[i]),
    ensures
        next_list(Found::Files { keys }, was, removed, shuffle, seed).contains(was[i]),
{
    let left = playlist::left_over(was, text::texts(keys@), removed, was.len() as int);
    lemma_left_over(was, text::texts(keys@), removed, was.len() as int, i);
    if shuffle {
        playlist::shuffle_keeps_every_track(left, 0, seed);
        left.to_multiset_ensures();
        let out = playlist::shuffled(left, 0, seed);
        out.to_multiset_ensures();
        assert(left.to_multiset().count(was[i]) > 0);
        assert(out.to_multiset().count(was[i]) > 0);
        assert(out.contains(was[i]));
    }
}

proof fn lemma_left_over(items: Seq<Seq<char>>, keys: Seq<Seq<char>>, removed: Set<Seq<char>>, n: int, i: int)
    requires
        0 <= i < n <= items.len(),
        keys.len() == items.len(),
        !removed.contains(keys[i]),
    ensures
        playlist::left_over(items, keys, removed, n).contains(items[i]),
    decreases n,
{
    let rest = playlist::left_over(items, keys, removed, n - 1);
    let all = playlist::left_over(items, keys, removed, n);
    if i == n - 1 {
        assert(all.last() == items[i]);
    } else {
        lemma_left_over(items, keys, removed, n - 1, i);
        let k = rest.index_of(items[i]);
        assert(all[k] == items[i]);
    }
}

} // verus!
