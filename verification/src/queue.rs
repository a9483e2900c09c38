//! Changes of the playlist: sorting, shuffling, queueing, removing.
//!
//! Every change moves what is known of the tracks along with them and starts
//! the scan of the tags anew, so that no result of an older scan ends up at a
//! wrong place.
use crate::library;
use crate::library::{build, subtree_track_indices, NameSet, TrackTags, VisibleRow};
use crate::list_view;
use crate::list_view::{cursor_to, keep_cursor_in, rebuild_filter, ListView};
use crate::metadata;
use crate::metadata::{base_name_of, sort_keys, tags_of, MetadataCache};
use crate::order;
use crate::order::{sort_places, Part};
use crate::path;
use crate::path::{extension, file_name, find_parts, find_path, parts_of_all, pick_strings, sort_paths};
use crate::playlist;
use crate::playlist::{build_playlist, dedup_playlist, shuffle_behind, Source};
use crate::state::{InputMode, PlayerState, RepeatMode, TrackInfo, Transport};
use crate::text;
use crate::text::{ascii_lower, push_dec};
use crate::tree_view;
use crate::tree_view::{refresh_tree_rows, tree_row_at_cursor, TreeView};
use crate::ui_state;
use crate::ui_state::{Banner, Queue, ScanHandle, UiState};
use vstd::prelude::*;

verus! {

/// A copy of a list.
pub fn copy_list(list: &Vec<String>) -> (out: Vec<String>)
    ensures
        out@ == list@,
{
    let mut out: Vec<String> = Vec::new();
    let mut i: usize = 0;
    while i < list.len()
        invariant
            i <= list@.len(),
            out@ == list@.take(i as int),
        decreases list@.len() - i,
    {
        out.push(list[i].clone());
        i = i + 1;
        assert(out@ =~= list@.take(i as int));
    }
    assert(list@.take(list@.len() as int) =~= list@);
    out
}

/// The next generation of scans.
pub open spec fn next_scan(h: Option<ScanHandle>) -> Option<ScanHandle> {
    Some(
        ScanHandle {
            generation: match h {
                Some(s) => if s.generation == u64::MAX {
                    0
                } else {
                    (s.generation + 1) as u64
                },
                None => 0,
            },
            finished: false,
        },
    )
}

/// Whether a reordering has been followed up: what is known of the tracks has
/// moved along with them, a scan has been started, and the tree is to be built
/// anew.
pub open spec fn followed_up(ui: UiState, was: UiState, now: Seq<Seq<char>>, before: Seq<Seq<char>>) -> bool {
    &&& ui.cache@ == metadata::reindexed(was.cache@, now, before)
    &&& ui.scan_handle == next_scan(was.scan_handle)
    &&& ui.tree.dirty
}

/// Follows a reordering of the playlist up.
pub fn reindex_and_restart_scan(ui: &mut UiState, playlist: &Vec<String>, old_playlist: &Vec<String>)
    ensures
        followed_up(*final(ui), *old(ui), text::texts(playlist@), text::texts(old_playlist@)),
        *final(ui) == (UiState {
            cache: final(ui).cache,
            scan_handle: final(ui).scan_handle,
            tree: TreeView { dirty: true, ..old(ui).tree },
            ..*old(ui)
        }),
{
    ui.cache.reindex(playlist, old_playlist);
    let generation: u64 = match ui.scan_handle {
        Some(h) => h.generation.wrapping_add(1),
        None => 0,
    };
    ui.scan_handle = Some(ScanHandle { generation, finished: false });
    ui.tree.dirty = true;
}

/// Only what is named here may have changed.
pub open spec fn only_lists_changed(ui: UiState, was: UiState) -> bool {
    ui == (UiState {
        list: ui.list,
        tree: ui.tree,
        queue: ui.queue,
        cache: ui.cache,
        scan_handle: ui.scan_handle,
        banner: ui.banner,
        status_message: ui.status_message,
        ..was
    })
}

/// Only the message has changed: nothing was done.
pub open spec fn only_told(ui: UiState, was: UiState, text: Seq<char>) -> bool {
    &&& ui == (UiState { status_message: ui.status_message, ..was })
    &&& ui_state::told(ui.status_message, text, was.now)
}

/// Where a path went, or where it was if it is gone.
pub open spec fn place_or(paths: Seq<Seq<char>>, was: Seq<Seq<char>>, i: usize) -> usize {
    if i < was.len() {
        match path::place_of(paths, was[i as int], 0) {
            Some(k) => k as usize,
            None => i,
        }
    } else {
        i
    }
}

fn new_place(playlist: &Vec<String>, was: &Vec<String>, i: usize) -> (r: usize)
    ensures
        r == place_or(text::texts(playlist@), text::texts(was@), i),
{
    if i < was.len() {
        assert(text::texts(was@)[i as int] == was@[i as int]@);
        match find_path(playlist, was[i].as_str()) {
            Some(k) => k,
            None => i,
        }
    } else {
        i
    }
}

/// The list sorted by tags.
pub open spec fn by_tags(cache: Seq<metadata::TrackMetaV>, paths: Seq<Seq<char>>) -> Seq<Seq<char>> {
    path::picked(paths, order::order_of(metadata::tag_keys(cache, paths)))
}

/// The player, told which track of how many plays.
pub open spec fn at_track(s: PlayerState, current: usize) -> PlayerState {
    PlayerState { track: TrackInfo { current_track: current, ..s.track }, ..s }
}

/// The player, told how many tracks there are.
pub open spec fn with_total(s: PlayerState, total: nat) -> PlayerState {
    PlayerState { track: TrackInfo { total_tracks: total as usize, ..s.track }, ..s }
}

/// Whether the playlist was sorted by tags, as [`sort_playlist_by_tags`] does.
pub open spec fn sorted_by_tags(
    s: PlayerState,
    ui: UiState,
    now: Seq<String>,
    s0: PlayerState,
    ui0: UiState,
    was: Seq<String>,
) -> bool {
    &&& was.len() < 2 ==> {
            &&& now == was
            &&& s == s0
            &&& only_told(ui, ui0, "Nothing to sort"@)
        }
    &&& was.len() >= 2 ==> {
            let before = text::texts(was);
            let current = place_or(text::texts(now), before, ui0.queue.current);
            &&& text::texts(now) == by_tags(ui0.cache@, before)
            &&& followed_up(ui, ui0, text::texts(now), before)
            &&& ui.queue == (Queue {
                current,
                enqueue_count: 0,
                dirty: true,
                shuffle: false,
                pre_shuffle_order: None,
                ..ui0.queue
            })
            &&& ui.list@ == ui0.list@.at(current as int)
            &&& ui.tree == (TreeView { dirty: true, ..ui0.tree })
            &&& ui.banner == (Banner { dirty: true, ..ui0.banner })
            &&& ui_state::told(
                ui.status_message,
                if ui0.queue.shuffle {
                    "Sorted by tags (shuffle off)"@
                } else {
                    "Sorted by tags"@
                },
                ui0.now,
            )
            &&& only_lists_changed(ui, ui0)
            &&& s == at_track(s0, current)
        }
}

/// Sorts the playlist by tags: artist, album, disc, track, title, file. Tracks
/// without tags come last. The track that plays goes on playing.
pub fn sort_playlist_by_tags(state: &mut PlayerState, ui: &mut UiState, playlist: &mut Vec<String>)
    ensures
        sorted_by_tags(*final(state), *final(ui), final(playlist)@, *old(state), *old(ui), old(playlist)@),
{
    if playlist.len() < 2 {
        ui.set_status("Nothing to sort".to_owned());
        return;
    }
    let was: Vec<String> = copy_list(playlist);
    let keys: Vec<Vec<Part>> = sort_keys(&ui.cache, &was);
    let rows: Vec<usize> = sort_places(&keys);
    assert forall|r: int| 0 <= r < rows@.len() implies #[trigger] rows@[r] < was@.len() by {
        assert(order::places(rows@)[r] == rows@[r]);
    }
    *playlist = pick_strings(&was, &rows);
    ui.queue.current = new_place(playlist, &was, ui.queue.current);
    ui.queue.enqueue_count = 0;
    reindex_and_restart_scan(ui, playlist, &was);
    state.track.current_track = ui.queue.current;
    cursor_to(&mut ui.list, ui.queue.current);
    ui.queue.dirty = true;
    ui.banner.dirty = true;
    let was_shuffled: bool = ui.queue.shuffle;
    ui.queue.shuffle = false;
    ui.queue.pre_shuffle_order = None;
    if was_shuffled {
        ui.set_status("Sorted by tags (shuffle off)".to_owned());
    } else {
        ui.set_status("Sorted by tags".to_owned());
    }
}

/// Those of the first `n` paths that are, or are not, among others.
pub open spec fn sifted(paths: Seq<Seq<char>>, others: Seq<Seq<char>>, among: bool, n: int) -> Seq<Seq<char>>
    decreases n,
{
    if n <= 0 {
        Seq::empty()
    } else if (path::place_of(others, paths[n - 1], 0) is Some) == among {
        sifted(paths, others, among, n - 1).push(paths[n - 1])
    } else {
        sifted(paths, others, among, n - 1)
    }
}

/// The tracks of `current` in the order of `saved`; those that are new come
/// last, in the order they have.
pub open spec fn restored(saved: Seq<Seq<char>>, current: Seq<Seq<char>>) -> Seq<Seq<char>> {
    sifted(saved, current, true, saved.len() as int) + sifted(current, saved, false, current.len() as int)
}

fn push_sifted(out: &mut Vec<String>, paths: &Vec<String>, others: &Vec<String>, among: bool)
    ensures
        text::texts(final(out)@) == text::texts(old(out)@) + sifted(
            text::texts(paths@),
            text::texts(others@),
            among,
            paths@.len() as int,
        ),
{
    let ghost start = text::texts(out@);
    let ghost pv = text::texts(paths@);
    let ghost ov = text::texts(others@);
    let keys: Vec<Vec<Part>> = parts_of_all(others);
    let mut i: usize = 0;
    assert(text::texts(out@) =~= start + sifted(pv, ov, among, 0));
    while i < paths.len()
        invariant
            order::keys_view(keys@) == path::path_keys(ov),
            pv == text::texts(paths@),
            ov == text::texts(others@),
            i <= paths@.len(),
            text::texts(out@) == start + sifted(pv, ov, among, i as int),
        decreases paths@.len() - i,
    {
        assert(pv[i as int] == paths@[i as int]@);
        let there: bool = find_parts(others, &keys, paths[i].as_str()).is_some();
        if there == among {
            let ghost prev = out@;
            out.push(paths[i].clone());
            assert(text::texts(out@) =~= text::texts(prev).push(pv[i as int]));
        }
        i = i + 1;
        assert(text::texts(out@) =~= start + sifted(pv, ov, among, i as int));
    }
}

/// Puts the tracks into the order they had before they were shuffled.
pub fn restore_order(saved: &Vec<String>, current: &Vec<String>) -> (out: Vec<String>)
    ensures
        text::texts(out@) == restored(text::texts(saved@), text::texts(current@)),
{
    let mut out: Vec<String> = Vec::new();
    push_sifted(&mut out, saved, current, true);
    push_sifted(&mut out, current, saved, false);
    assert(text::texts(Seq::<String>::empty()) =~= Seq::<Seq<char>>::empty());
    assert(text::texts(out@) =~= restored(text::texts(saved@), text::texts(current@)));
    out
}

proof fn lemma_sifted_all(paths: Seq<Seq<char>>, others: Seq<Seq<char>>, among: bool, n: int)
    requires
        0 <= n <= paths.len(),
        forall|i: int| 0 <= i < n ==> others.contains(#[trigger] paths[i]),
    ensures
        sifted(paths, others, among, n) == (if among {
            paths.take(n)
        } else {
            Seq::empty()
        }),
    decreases n,
{
    if n > 0 {
        lemma_sifted_all(paths, others, among, n - 1);
        assert(others.contains(paths[n - 1]));
        let k = choose|k: int| 0 <= k < others.len() && others[k] == paths[n - 1];
        assert(path::same(others[k], paths[n - 1]));
        path::lemma_place_of(others, paths[n - 1], 0);
        assert(paths.take(n) =~= paths.take(n - 1).push(paths[n - 1]));
    } else {
        assert(paths.take(0) =~= Seq::<Seq<char>>::empty());
    }
}

/// Turning the shuffle off undoes it: where the same tracks are there as before
/// it, they get the order back that they had.
pub proof fn unshuffling_gives_the_order_back(saved: Seq<Seq<char>>, current: Seq<Seq<char>>)
    requires
        saved.to_multiset() == current.to_multiset(),
    ensures
        restored(saved, current) == saved,
{
    broadcast use vstd::seq_lib::group_to_multiset_ensures;

    assert forall|i: int| 0 <= i < saved.len() implies current.contains(#[trigger] saved[i]) by {
        assert(saved.to_multiset().contains(saved[i]));
        assert(current.to_multiset().contains(saved[i]));
    }
    assert forall|i: int| 0 <= i < current.len() implies saved.contains(#[trigger] current[i]) by {
        assert(current.to_multiset().contains(current[i]));
        assert(saved.to_multiset().contains(current[i]));
    }
    lemma_sifted_all(saved, current, true, saved.len() as int);
    lemma_sifted_all(current, saved, false, current.len() as int);
    assert(saved.take(saved.len() as int) =~= saved);
    assert(restored(saved, current) =~= saved);
}

/// The order after the shuffle is turned off: the one before it, or, where that
/// is not known or not of these tracks, that of the paths.
pub open spec fn unshuffled(saved: Option<Vec<String>>, current: Seq<Seq<char>>) -> Seq<Seq<char>> {
    match saved {
        Some(s) => if restored(text::texts(s@), current).len() == current.len() {
            restored(text::texts(s@), current)
        } else {
            path::sorted_paths(current)
        },
        None => path::sorted_paths(current),
    }
}

/// Whether the shuffle was turned on or off, as [`toggle_shuffle`] does.
pub open spec fn shuffle_toggled(
    ui: UiState,
    now: Seq<String>,
    ui0: UiState,
    was: Seq<String>,
    seed: u64,
) -> bool {
    &&& !ui0.queue.shuffle ==> {
            &&& now == (if ui0.queue.current + 1 < was.len() {
                playlist::shuffled(was, ui0.queue.current + 1, seed)
            } else {
                was
            })
            &&& ui.queue.shuffle
            &&& ui.queue.pre_shuffle_order matches Some(s) && s@ == was
            &&& ui.queue.current == ui0.queue.current
            &&& ui_state::told(ui.status_message, "Shuffle ON"@, ui0.now)
        }
    &&& ui0.queue.shuffle ==> {
            let before = text::texts(was);
            &&& text::texts(now) == unshuffled(ui0.queue.pre_shuffle_order, before)
            &&& !ui.queue.shuffle
            &&& ui.queue.pre_shuffle_order is None
            &&& ui.queue.current == place_or(
                text::texts(now),
                before,
                ui0.queue.current,
            )
            &&& ui_state::told(ui.status_message, "Shuffle OFF"@, ui0.now)
        }
    &&& now.len() == was.len()
    &&& ui.queue == (Queue {
            shuffle: ui.queue.shuffle,
            pre_shuffle_order: ui.queue.pre_shuffle_order,
            current: ui.queue.current,
            dirty: true,
            ..ui0.queue
        })
    &&& followed_up(
            ui,
            ui0,
            text::texts(now),
            text::texts(was),
        )
    &&& ui.list == ui0.list
    &&& ui.tree == (TreeView { dirty: true, ..ui0.tree })
    &&& ui.banner == (Banner { dirty: true, ..ui0.banner })
    &&& only_lists_changed(ui, ui0)
}

/// Turns the shuffle on or off. On, the tracks behind the one that plays are
/// shuffled. Off, the order before comes back. The track that plays goes on
/// playing.
pub fn toggle_shuffle(ui: &mut UiState, playlist: &mut Vec<String>, seed: u64)
    ensures
        shuffle_toggled(*final(ui), final(playlist)@, *old(ui), old(playlist)@, seed),
{
    let was: Vec<String> = copy_list(playlist);
    ui.queue.shuffle = !ui.queue.shuffle;
    if ui.queue.shuffle {
        ui.queue.pre_shuffle_order = Some(copy_list(&was));
        shuffle_behind(playlist, ui.queue.current, seed);
        proof {
            if ui.queue.current + 1 < was@.len() {
                playlist::shuffle_keeps_every_track(was@, ui.queue.current + 1, seed);
            }
        }
        ui.set_status("Shuffle ON".to_owned());
    } else {
        let saved: Option<Vec<String>> = ui.queue.pre_shuffle_order.take();
        let out: Vec<String> = match &saved {
            Some(s) => {
                let back: Vec<String> = restore_order(s, playlist);
                assert(text::texts(back@).len() == back@.len());
                if back.len() == playlist.len() {
                    back
                } else {
                    sort_paths(playlist)
                }
            },
            None => sort_paths(playlist),
        };
        assert(text::texts(out@).len() == out@.len());
        *playlist = out;
        ui.queue.current = new_place(playlist, &was, ui.queue.current);
        ui.set_status("Shuffle OFF".to_owned());
    }
    reindex_and_restart_scan(ui, playlist, &was);
    ui.queue.dirty = true;
    ui.banner.dirty = true;
}

/// What is said of a repeat mode.
pub open spec fn repeat_message(m: RepeatMode) -> Seq<char> {
    match m {
        RepeatMode::Off => "Repeat OFF"@,
        RepeatMode::All => "Repeat ALL"@,
        RepeatMode::One => "Repeat ONE"@,
    }
}

/// Whether the next repeat mode was taken, as [`toggle_repeat`] does.
pub open spec fn repeat_toggled(
    s: PlayerState,
    ui: UiState,
    s0: PlayerState,
    ui0: UiState,
) -> bool {
    &&& ui.queue == (Queue { repeat_mode: ui0.queue.repeat_mode.succ(), ..ui0.queue })
    &&& ui.banner == (Banner { dirty: true, ..ui0.banner })
    &&& ui_state::told(
            ui.status_message,
            repeat_message(ui0.queue.repeat_mode.succ()),
            ui0.now,
        )
    &&& ui == (UiState {
            queue: ui.queue,
            banner: ui.banner,
            status_message: ui.status_message,
            ..ui0
        })
    &&& s == (PlayerState {
            transport: Transport { repeat_mode: ui0.queue.repeat_mode.succ(), ..s0.transport },
            ..s0
        })
}

/// Goes to the next repeat mode.
pub fn toggle_repeat(ui: &mut UiState, state: &mut PlayerState)
    ensures
        repeat_toggled(*final(state), *final(ui), *old(state), *old(ui)),
{
    let mode: RepeatMode = ui.queue.repeat_mode.next();
    ui.queue.repeat_mode = mode;
    state.transport.repeat_mode = mode;
    let msg: &str = match mode {
        RepeatMode::Off => "Repeat OFF",
        RepeatMode::All => "Repeat ALL",
        RepeatMode::One => "Repeat ONE",
    };
    ui.set_status(msg.to_owned());
    ui.banner.dirty = true;
}

/// Where a place goes when the item at `from` moves to `to`.
pub open spec fn moved_place(i: int, from: int, to: int) -> int {
    if i == from {
        to
    } else if from < i && to >= i {
        i - 1
    } else if from > i && to <= i {
        i + 1
    } else {
        i
    }
}

/// `s` with the item at `from` moved to `to`.
pub open spec fn moved<T>(s: Seq<T>, from: int, to: int) -> Seq<T> {
    s.remove(from).insert(to, s[from])
}

/// An item that is moved takes its place along, and so does every other: what
/// stood at a place stands where [`moved_place`] says.
pub proof fn moving_keeps_track_of_places<T>(s: Seq<T>, from: int, to: int, i: int)
    requires
        0 <= from < s.len(),
        0 <= to < s.len(),
        0 <= i < s.len(),
    ensures
        0 <= moved_place(i, from, to) < s.len(),
        moved(s, from, to)[moved_place(i, from, to)] == s[i],
        moved(s, from, to).len() == s.len(),
{
}

/// Where the track under the cursor goes when it is queued: behind the one that
/// plays and those queued before, as far as the list goes. `None` where it is
/// there, or where nothing is to be queued.
pub open spec fn queue_move(l: list_view::ListV, current: int, queued: int, n: int) -> Option<(int, int)> {
    match l.track() {
        Some(i) => {
            let goal = text::least(current + 1 + queued, text::minus(n, 1));
            if i >= n || i == current || i == goal {
                None
            } else if i < goal {
                Some((i, goal - 1))
            } else {
                Some((i, goal))
            }
        },
        None => None,
    }
}

/// Whether the track under the cursor was queued, as [`enqueue_track`] does.
pub open spec fn enqueued(
    s: PlayerState,
    ui: UiState,
    now: Seq<String>,
    s0: PlayerState,
    ui0: UiState,
    was: Seq<String>,
) -> bool {
    &&& match queue_move(
            ui0.list@,
            ui0.queue.current as int,
            ui0.queue.enqueue_count as int,
            was.len() as int,
        ) {
            Some((from, to)) => {
                &&& now == moved(was, from, to)
                &&& ui.queue == (Queue {
                    current: moved_place(ui0.queue.current as int, from, to) as usize,
                    enqueue_count: text::least(ui0.queue.enqueue_count + 1, usize::MAX as int) as usize,
                    dirty: true,
                    ..ui0.queue
                })
                &&& ui.list@ == (list_view::ListV {
                    cursor: moved_place(ui0.list@.cursor, from, to),
                    ..ui0.list@
                })
                &&& ui.tree == (TreeView { dirty: true, ..ui0.tree })
                &&& ui.banner == ui0.banner
                &&& followed_up(
                    ui,
                    ui0,
                    text::texts(now),
                    text::texts(was),
                )
                &&& ui_state::told(
                    ui.status_message,
                    "Queued: "@ + metadata::display_of(
                        metadata::entry_at(ui0.cache@, from),
                        was[from]@,
                    ),
                    ui0.now,
                )
                &&& only_lists_changed(ui, ui0)
                &&& s == with_total(s0, was.len())
            },
            None => ui == ui0 && now == was && s == s0,
        }
}

/// Queues the track under the cursor behind the one that plays. The cursor stays
/// on it, and the track that plays goes on playing.
pub fn enqueue_track(state: &mut PlayerState, ui: &mut UiState, playlist: &mut Vec<String>)
    ensures
        enqueued(*final(state), *final(ui), final(playlist)@, *old(state), *old(ui), old(playlist)@),
{
    match queue_goal(ui, playlist.len()) {
        Some((from, to)) => {
            let was: Vec<String> = copy_list(playlist);
            let mut msg: String = "Queued: ".to_owned();
            let name: String = ui.cache.display_name(from, playlist[from].as_str());
            msg.push_str(name.as_str());
            let track: String = playlist.remove(from);
            playlist.insert(to, track);
            ui.queue.current = place_after_move(ui.queue.current, from, to);
            ui.list.cursor = place_after_move(ui.list.cursor, from, to);
            ui.queue.enqueue_count = ui.queue.enqueue_count.saturating_add(1);
            ui.queue.dirty = true;
            state.track.total_tracks = playlist.len();
            reindex_and_restart_scan(ui, playlist, &was);
            ui.set_status(msg);
        },
        None => {},
    }
}

/// Where a place goes when an item moves.
fn place_after_move(i: usize, from: usize, to: usize) -> (r: usize)
    ensures
        r == moved_place(i as int, from as int, to as int),
{
    if i == from {
        to
    } else if from < i && to >= i {
        i - 1
    } else if from > i && to <= i {
        i + 1
    } else {
        i
    }
}

/// Where the track under the cursor goes when it is queued.
fn queue_goal(ui: &UiState, n: usize) -> (r: Option<(usize, usize)>)
    ensures
        match r {
            Some((from, to)) => from < n && to < n && queue_move(
                ui.list@,
                ui.queue.current as int,
                ui.queue.enqueue_count as int,
                n as int,
            ) == Some((from as int, to as int)),
            None => queue_move(
                ui.list@,
                ui.queue.current as int,
                ui.queue.enqueue_count as int,
                n as int,
            ) is None,
        },
{
    let from: usize = match ui.list.cursor_track() {
        Some(i) => i,
        None => {
            return None;
        },
    };
    let current: usize = ui.queue.current;
    if from >= n || from == current {
        return None;
    }
    let wish: u128 = current as u128 + 1 + ui.queue.enqueue_count as u128;
    let goal: usize = if wish < n as u128 - 1 {
        wish as usize
    } else {
        n - 1
    };
    if from == goal {
        None
    } else if from < goal {
        Some((from, goal - 1))
    } else {
        Some((from, goal))
    }
}

/// The track that the cursor would remove.
pub open spec fn removal(l: list_view::ListV, n: int) -> Option<int> {
    match l.track() {
        Some(i) => if i < n {
            Some(i)
        } else {
            None
        },
        None => None,
    }
}

/// The track that the cursor would remove.
pub fn removal_target(ui: &UiState, n: usize) -> (r: Option<usize>)
    ensures
        match r {
            Some(i) => n > 1 && removal(ui.list@, n as int) == Some(i as int),
            None => n <= 1 || removal(ui.list@, n as int) is None,
        },
{
    if n <= 1 {
        return None;
    }
    match ui.list.cursor_track() {
        Some(i) => if i < n {
            Some(i)
        } else {
            None
        },
        None => None,
    }
}

/// Where the track that plays is after one was removed. Where it was that one,
/// the next in the list takes its place.
pub open spec fn current_after(current: int, gone: int, n: int) -> int {
    if gone == current {
        text::least(current, text::minus(n - 1, 1))
    } else if gone < current {
        current - 1
    } else {
        current
    }
}

/// A list after one of its tracks was removed: a search is made again, and the
/// cursor stays on a row.
pub open spec fn list_after(
    l: list_view::ListV,
    mode: InputMode,
    cache: Seq<metadata::TrackMetaV>,
    paths: Seq<Seq<char>>,
) -> list_view::ListV {
    let again = match mode {
        InputMode::Search(q) => if l.filtered.len() > 0 {
            l.searched(q@, cache, paths)
        } else {
            l
        },
        _ => l,
    };
    list_view::ListV { cursor: text::least(again.cursor, again.last(paths.len() as int)), ..again }
}

/// Removes the track under the cursor, and makes sure that it does not come
/// back. `key` is where its path really leads, as far as that is known. The last
/// track cannot be removed. Where it is the one that plays, the next is played.
pub fn remove_track(state: &mut PlayerState, ui: &mut UiState, playlist: &mut Vec<String>, key: Option<String>)
    ensures
        old(playlist)@.len() <= 1 ==> {
            &&& only_told(*final(ui), *old(ui), "Can't remove the last track"@)
            &&& final(playlist)@ == old(playlist)@
            &&& *final(state) == *old(state)
        },
        old(playlist)@.len() > 1 ==> match removal(old(ui).list@, old(playlist)@.len() as int) {
            Some(i) => removed_at(
                *final(state),
                *final(ui),
                final(playlist)@,
                *old(state),
                *old(ui),
                old(playlist)@,
                i,
                key,
            ),
            None => *final(ui) == *old(ui) && final(playlist)@ == old(playlist)@ && *final(state) == *old(state),
        },
{
    let n: usize = playlist.len();
    if n <= 1 {
        ui.set_status("Can't remove the last track".to_owned());
        return;
    }
    match removal_target(ui, n) {
        Some(i) => remove_at(state, ui, playlist, key, i),
        None => {},
    }
}

/// Where the track that plays is after one was removed.
fn place_after_removal(current: usize, gone: usize, n: usize) -> (r: usize)
    requires
        n > 1,
    ensures
        r == current_after(current as int, gone as int, n as int),
{
    if gone == current {
        if current > n - 2 {
            n - 2
        } else {
            current
        }
    } else if gone < current {
        current - 1
    } else {
        current
    }
}

/// Makes a search again, and keeps the cursor on a row.
fn follow_removal(l: &mut ListView, mode: &InputMode, cache: &MetadataCache, playlist: &Vec<String>)
    ensures
        final(l)@ == list_after(old(l)@, *mode, cache@, text::texts(playlist@)),
{
    assert(text::texts(playlist@).len() == playlist@.len());
    if l.filtered_indices.len() > 0 {
        match mode {
            InputMode::Search(q) => {
                rebuild_filter(l, q.as_str(), cache, playlist);
            },
            _ => {},
        }
    }
    keep_cursor_in(l, playlist.len());
}

/// Whether a track was removed, as [`remove_track`] says.
pub open spec fn removed_at(
    s: PlayerState,
    ui: UiState,
    now: Seq<String>,
    s0: PlayerState,
    was: UiState,
    before: Seq<String>,
    i: int,
    key: Option<String>,
) -> bool {
    let n = before.len() as int;
    let current = current_after(was.queue.current as int, i, n);
    &&& now == before.remove(i)
    &&& ui.queue.removed_paths@ == was.queue.removed_paths@.insert(
        match key {
            Some(k) => k@,
            None => before[i]@,
        },
    )
    &&& ui.queue == (Queue {
        current: current as usize,
        removed_paths: ui.queue.removed_paths,
        dirty: true,
        current_track_removed: was.queue.current_track_removed || i == was.queue.current,
        ..was.queue
    })
    &&& followed_up(ui, was, text::texts(now), text::texts(before))
    &&& ui.list@ == list_after(was.list@, was.input_mode, ui.cache@, text::texts(now))
    &&& ui.tree == (TreeView { dirty: true, ..was.tree })
    &&& ui.banner == was.banner
    &&& ui_state::told(
        ui.status_message,
        "Removed: "@ + metadata::display_of(metadata::entry_at(was.cache@, i), before[i]@),
        was.now,
    )
    &&& only_lists_changed(ui, was)
    &&& s == (PlayerState {
        transport: Transport {
            skip_next: s0.transport.skip_next || i == was.queue.current,
            ..s0.transport
        },
        ..at_track(with_total(s0, (n - 1) as nat), current as usize)
    })
}

fn remove_at(
    state: &mut PlayerState,
    ui: &mut UiState,
    playlist: &mut Vec<String>,
    key: Option<String>,
    i: usize,
)
    requires
        i < old(playlist)@.len(),
        old(playlist)@.len() > 1,
    ensures
        removed_at(
            *final(state),
            *final(ui),
            final(playlist)@,
            *old(state),
            *old(ui),
            old(playlist)@,
            i as int,
            key,
        ),
{
    let n: usize = playlist.len();
    let mut msg: String = "Removed: ".to_owned();
    let name: String = ui.cache.display_name(i, playlist[i].as_str());
    msg.push_str(name.as_str());
    let gone: String = match key {
        Some(k) => k,
        None => playlist[i].clone(),
    };
    ui.queue.removed_paths.insert(gone);
    let was: Vec<String> = copy_list(playlist);
    playlist.remove(i);
    let plays: bool = i == ui.queue.current;
    ui.queue.current = place_after_removal(ui.queue.current, i, n);
    ui.queue.current_track_removed = ui.queue.current_track_removed || plays;
    ui.queue.dirty = true;
    state.transport.skip_next = state.transport.skip_next || plays;
    state.track.total_tracks = playlist.len();
    state.track.current_track = ui.queue.current;
    reindex_and_restart_scan(ui, playlist, &was);
    follow_removal(&mut ui.list, &ui.input_mode, &ui.cache, playlist);
    ui.set_status(msg);
}

/// Removing another track than the one that plays keeps that one playing: it is
/// found at its new place.
pub proof fn removing_another_keeps_the_current<T>(s: Seq<T>, current: int, gone: int)
    requires
        0 <= current < s.len(),
        0 <= gone < s.len(),
        gone != current,
    ensures
        0 <= current_after(current, gone, s.len() as int) < s.len() - 1,
        s.remove(gone)[current_after(current, gone, s.len() as int)] == s[current],
{
}

/// Whether sources are folders and files whose order is not someone's choice:
/// there is one, and none is a written-down playlist.
pub open spec fn sortable(paths: Seq<Seq<char>>) -> bool {
    paths.len() > 0 && forall|i: int|
        0 <= i < paths.len() ==> match path::extension_in(#[trigger] paths[i]) {
            Some(e) => text::lowered(e) != "m3u"@ && text::lowered(e) != "m3u8"@,
            None => true,
        }
}

/// Whether sources are folders and files whose order is not someone's choice.
pub fn source_is_sortable(paths: &Vec<String>) -> (r: bool)
    ensures
        r == sortable(text::texts(paths@)),
{
    let ghost pv = text::texts(paths@);
    if paths.len() == 0 {
        return false;
    }
    let mut i: usize = 0;
    while i < paths.len()
        invariant
            pv == text::texts(paths@),
            i <= paths@.len(),
            forall|k: int|
                0 <= k < i ==> match path::extension_in(#[trigger] pv[k]) {
                    Some(e) => text::lowered(e) != "m3u"@ && text::lowered(e) != "m3u8"@,
                    None => true,
                },
        decreases paths@.len() - i,
    {
        assert(pv[i as int] == paths@[i as int]@);
        match extension(paths[i].as_str()) {
            Some(e) => {
                let low: String = ascii_lower(e.as_str());
                let l: &str = low.as_str();
                if l.eq("m3u") || l.eq("m3u8") {
                    assert(match path::extension_in(pv[i as int]) {
                        Some(e) => !(text::lowered(e) != "m3u"@ && text::lowered(e) != "m3u8"@),
                        None => false,
                    });
                    return false;
                }
            },
            None => {},
        }
        i = i + 1;
    }
    true
}

/// Whether the list is to be sorted now: it was asked for, the tags are there,
/// and the order is not a shuffle.
pub fn auto_sort_should_run(pending: bool, scan_finished: bool, shuffle: bool) -> (r: bool)
    ensures
        r == (pending && scan_finished && !shuffle),
{
    pending && scan_finished && !shuffle
}

/// Whether the scan has come to its end.
pub open spec fn scan_done(h: Option<ScanHandle>) -> bool {
    h matches Some(s) && s.finished
}

/// Sorts by tags, once: after the scan has come to its end. The wish is spent
/// then, even where the tracks are shuffled and stay as they are.
pub fn poll_auto_sort(state: &mut PlayerState, ui: &mut UiState, playlist: &mut Vec<String>)
    ensures
        !(old(ui).queue.auto_sort_pending && scan_done(old(ui).scan_handle)) ==> *final(ui) == *old(ui)
            && final(playlist)@ == old(playlist)@ && *final(state) == *old(state),
        old(ui).queue.auto_sort_pending && scan_done(old(ui).scan_handle) ==> {
            let spent = UiState {
                queue: Queue { auto_sort_pending: false, ..old(ui).queue },
                ..*old(ui)
            };
            if old(ui).queue.shuffle {
                final(playlist)@ == old(playlist)@ && *final(state) == *old(state) && *final(ui) == spent
            } else {
                sorted_by_tags(*final(state), *final(ui), final(playlist)@, *old(state), spent, old(playlist)@)
            }
        },
{
    if !ui.queue.auto_sort_pending {
        return;
    }
    let finished: bool = match ui.scan_handle {
        Some(h) => h.finished,
        None => false,
    };
    if !finished {
        return;
    }
    let run: bool = auto_sort_should_run(ui.queue.auto_sort_pending, finished, ui.queue.shuffle);
    ui.queue.auto_sort_pending = false;
    if run {
        sort_playlist_by_tags(state, ui, playlist);
    }
}

/// Asks for the list to be sorted by tags once they are there, unless its order
/// is someone's choice or a shuffle.
pub fn arm_auto_sort(ui: &mut UiState)
    ensures
        *final(ui) == (UiState {
            queue: Queue {
                auto_sort_pending: sortable(text::texts(old(ui).queue.source_paths@)) && !old(ui).queue.shuffle,
                ..old(ui).queue
            },
            ..*old(ui)
        }),
{
    ui.queue.auto_sort_pending = source_is_sortable(&ui.queue.source_paths) && !ui.queue.shuffle;
}

/// Whether a tree is the one of some tracks.
pub open spec fn is_tree_of(
    tree: Seq<library::ArtistV>,
    cache: Seq<metadata::TrackMetaV>,
    paths: Seq<String>,
) -> bool {
    exists|tags: Seq<TrackTags>|
        tags.len() == paths.len() && (forall|i: int|
            0 <= i < tags.len() ==> metadata::is_tags(
                #[trigger] tags[i],
                metadata::entry_at(cache, i),
                paths[i]@,
            )) && tree == #[trigger] library::tree_of(tags)
}

/// Builds the tree from the playlist and its tags. What is open stays open, and
/// the cursor stays on a row.
pub fn rebuild_library_tree(ui: &mut UiState, playlist: &Vec<String>)
    ensures
        is_tree_of(final(ui).tree.tree@, old(ui).cache@, playlist@),
        final(ui).tree.fresh(),
        final(ui).tree.wf(),
        *final(ui) == (UiState {
            tree: TreeView {
                tree: final(ui).tree.tree,
                rows: final(ui).tree.rows,
                cursor: tree_view::clamped(
                    old(ui).tree.cursor as int,
                    final(ui).tree.rows@.len() as int,
                ) as usize,
                dirty: false,
                ..old(ui).tree
            },
            ..*old(ui)
        }),
{
    let tags: Vec<TrackTags> = tags_of(&ui.cache, playlist);
    ui.tree.tree = build(&tags);
    assert(ui.tree.tree@ == library::tree_of(tags@));
    refresh_tree_rows(&mut ui.tree);
    let n: usize = ui.tree.rows.len();
    if ui.tree.cursor >= n {
        ui.tree.cursor = if n == 0 {
            0
        } else {
            n - 1
        };
    }
    ui.tree.dirty = false;
}

/// Whether the tree is due for a rebuild while tags come in, so long after the
/// last: at first, and then every half second.
pub fn tree_scan_refresh_due(elapsed_ms: Option<u64>) -> (r: bool)
    ensures
        r == (elapsed_ms matches Some(e) ==> e >= 500),
{
    match elapsed_ms {
        Some(e) => e >= 500,
        None => true,
    }
}

/// Whether the tree is to be built anew.
pub open spec fn tree_is_due(ui: UiState) -> bool {
    let running = ui.scan_handle matches Some(s) && !s.finished;
    ui.tree.dirty || (ui.tree.scan_was_running && !running) || (running && match ui.tree.scan_refreshed_at {
        Some(t) => text::minus(ui.now as int, t as int) >= 500,
        None => true,
    })
}

/// Keeps the tree up to date while it is shown: it is built anew after a change
/// of the playlist, from time to time while tags come in, and once when they
/// have all come in.
pub fn poll_library_tree(ui: &mut UiState, playlist: &Vec<String>)
    ensures
        !old(ui).tree.mode ==> *final(ui) == *old(ui),
        old(ui).tree.mode ==> {
            let running = old(ui).scan_handle matches Some(s) && !s.finished;
            &&& final(ui).tree.scan_was_running == running
            &&& !tree_is_due(*old(ui)) ==> *final(ui) == (UiState {
                tree: TreeView { scan_was_running: running, ..old(ui).tree },
                ..*old(ui)
            })
            &&& tree_is_due(*old(ui)) ==> {
                &&& is_tree_of(final(ui).tree.tree@, old(ui).cache@, playlist@)
                &&& final(ui).tree.fresh()
                &&& final(ui).tree.wf()
                &&& !final(ui).tree.dirty
                &&& final(ui).tree.scan_refreshed_at == Some(old(ui).now)
                &&& *final(ui) == (UiState { tree: final(ui).tree, ..*old(ui) })
                &&& final(ui).tree == (TreeView {
                    tree: final(ui).tree.tree,
                    rows: final(ui).tree.rows,
                    cursor: tree_view::clamped(
                        old(ui).tree.cursor as int,
                        final(ui).tree.rows@.len() as int,
                    ) as usize,
                    dirty: false,
                    scan_was_running: running,
                    scan_refreshed_at: Some(old(ui).now),
                    ..old(ui).tree
                })
            }
        },
        old(ui).tree.wf() ==> final(ui).tree.wf(),
{
    if !ui.tree.mode {
        return;
    }
    let running: bool = match ui.scan_handle {
        Some(h) => !h.finished,
        None => false,
    };
    let due: bool = if running {
        match ui.tree.scan_refreshed_at {
            Some(t) => tree_scan_refresh_due(Some(ui.now.saturating_sub(t))),
            None => tree_scan_refresh_due(None),
        }
    } else {
        ui.tree.scan_was_running
    };
    ui.tree.scan_was_running = running;
    if ui.tree.dirty || due {
        rebuild_library_tree(ui, playlist);
        ui.tree.scan_refreshed_at = Some(ui.now);
    }
}

/// Whether one of some places is `i`.
pub open spec fn listed(indices: Seq<usize>, i: int) -> bool {
    exists|k: int| 0 <= k < indices.len() && #[trigger] indices[k] as int == i
}

/// Those of the first `n` items whose places are not listed.
pub open spec fn unlisted<T>(s: Seq<T>, indices: Seq<usize>, n: int) -> Seq<T>
    decreases n,
{
    if n <= 0 {
        Seq::empty()
    } else if listed(indices, n - 1) {
        unlisted(s, indices, n - 1)
    } else {
        unlisted(s, indices, n - 1).push(s[n - 1])
    }
}

/// How many of the places below `n` are listed.
pub open spec fn listed_below(indices: Seq<usize>, n: int) -> int
    decreases n,
{
    if n <= 0 {
        0
    } else {
        listed_below(indices, n - 1) + (if listed(indices, n - 1) {
            1int
        } else {
            0int
        })
    }
}

/// How many different places below `bound` are among the first `n` listed ones.
pub open spec fn different_below(indices: Seq<usize>, n: int, bound: int) -> int
    decreases n,
{
    if n <= 0 {
        0
    } else {
        different_below(indices, n - 1, bound) + (if indices[n - 1] < bound && !listed(
            indices.take(n - 1),
            indices[n - 1] as int,
        ) {
            1int
        } else {
            0int
        })
    }
}

/// How many different places there are.
pub open spec fn different(indices: Seq<usize>) -> int {
    different_below(indices, indices.len() as int, usize::MAX + 1)
}

fn count_different(indices: &Vec<usize>, bound: u128) -> (r: usize)
    ensures
        r == different_below(indices@, indices@.len() as int, bound as int),
{
    let mut count: usize = 0;
    let mut k: usize = 0;
    while k < indices.len()
        invariant
            k <= indices@.len(),
            count <= k,
            count == different_below(indices@, k as int, bound as int),
        decreases indices@.len() - k,
    {
        let mut j: usize = 0;
        while j < k && indices[j] != indices[k]
            invariant
                j <= k < indices@.len(),
                forall|i: int| 0 <= i < j ==> indices@[i] != indices@[k as int],
            decreases k - j,
        {
            j += 1;
        }
        proof {
            let head = indices@.take(k as int);
            if j < k {
                assert(head[j as int] as int == indices@[k as int]);
            }
            assert(listed(head, indices@[k as int] as int) == (j < k));
        }
        if j == k && (indices[k] as u128) < bound {
            count += 1;
        }
        k += 1;
    }
    count
}

/// The keys of the listed ones among the first `n` items, put into a set.
pub open spec fn keys_listed(set: Set<Seq<char>>, keys: Seq<String>, indices: Seq<usize>, n: int) -> Set<Seq<char>>
    decreases n,
{
    if n <= 0 {
        set
    } else if listed(indices, n - 1) {
        keys_listed(set, keys, indices, n - 1).insert(keys[n - 1]@)
    } else {
        keys_listed(set, keys, indices, n - 1)
    }
}

fn is_listed(indices: &Vec<usize>, i: usize) -> (r: bool)
    ensures
        r == listed(indices@, i as int),
{
    let mut k: usize = 0;
    while k < indices.len()
        invariant
            k <= indices@.len(),
            forall|j: int| 0 <= j < k ==> #[trigger] indices@[j] as int != i,
        decreases indices@.len() - k,
    {
        if indices[k] == i {
            assert(indices@[k as int] as int == i);
            return true;
        }
        k = k + 1;
    }
    false
}

/// Removes the tracks at some places, and makes sure that they do not come back.
/// `keys` holds where each path of the playlist really leads. The track that
/// plays keeps its place among those that stay. There may be places that are on
/// the list no more.
pub fn tree_remove_indices(
    state: &mut PlayerState,
    ui: &mut UiState,
    playlist: &mut Vec<String>,
    indices: &Vec<usize>,
    keys: &Vec<String>,
)
    requires
        keys@.len() == old(playlist)@.len(),
    ensures
        final(playlist)@ == unlisted(old(playlist)@, indices@, old(playlist)@.len() as int),
        final(ui).queue.removed_paths@ == keys_listed(
            old(ui).queue.removed_paths@,
            keys@,
            indices@,
            keys@.len() as int,
        ),
        final(ui).queue == (Queue {
            current: text::least(
                text::minus(
                    old(ui).queue.current as int,
                    different_below(indices@, indices@.len() as int, old(ui).queue.current as int),
                ),
                text::minus(final(playlist)@.len() as int, 1),
            ) as usize,
            removed_paths: final(ui).queue.removed_paths,
            ..old(ui).queue
        }),
        final(ui).tree == (TreeView { cursor: 0, scroll: 0, dirty: true, ..old(ui).tree }),
        final(ui).list == old(ui).list,
        final(ui).banner == old(ui).banner,
        followed_up(
            *final(ui),
            *old(ui),
            text::texts(final(playlist)@),
            text::texts(old(playlist)@),
        ),
        ui_state::told(
            final(ui).status_message,
            "removed "@ + text::dec(different(indices@) as nat) + " track(s)"@,
            old(ui).now,
        ),
        only_lists_changed(*final(ui), *old(ui)),
        *final(state) == with_total(*old(state), final(playlist)@.len()),
{
    let was: Vec<String> = copy_list(playlist);
    let current: usize = ui.queue.current;
    let mut left: Vec<String> = Vec::new();
    let mut i: usize = 0;
    let ghost set = ui.queue.removed_paths@;
    let ghost start = *ui;
    assert(left@ =~= unlisted(was@, indices@, 0));
    while i < was.len()
        invariant
            i <= was@.len(),
            keys@.len() == was@.len(),
            left@ == unlisted(was@, indices@, i as int),
            ui.queue.removed_paths@ == keys_listed(set, keys@, indices@, i as int),
            *ui == (UiState {
                queue: Queue { removed_paths: ui.queue.removed_paths, ..start.queue },
                ..start
            }),
        decreases was@.len() - i,
    {
        if is_listed(indices, i) {
            ui.queue.removed_paths.insert(keys[i].clone());
        } else {
            left.push(was[i].clone());
        }
        i = i + 1;
    }
    *playlist = left;
    let n: usize = playlist.len();
    let last: usize = if n == 0 {
        0
    } else {
        n - 1
    };
    let shifted: usize = current.saturating_sub(count_different(indices, current as u128));
    ui.queue.current = if shifted < last {
        shifted
    } else {
        last
    };
    ui.tree.cursor = 0;
    ui.tree.scroll = 0;
    state.track.total_tracks = n;
    reindex_and_restart_scan(ui, playlist, &was);
    let mut msg: String = "removed ".to_owned();
    push_dec(&mut msg, count_different(indices, usize::MAX as u128 + 1) as u64);
    msg.push_str(" track(s)");
    ui.set_status(msg);
}

/// What a removal in the tree is called.
pub open spec fn removal_label(tree: Seq<library::ArtistV>, row: VisibleRow) -> Seq<char> {
    match row {
        VisibleRow::Artist { artist } => "artist "@ + tree[artist as int].name,
        VisibleRow::Album { artist, album } => "album "@ + tree[artist as int].albums[album as int].name,
        VisibleRow::Track { .. } => Seq::empty(),
    }
}

/// Whether the removal of everything under a row has been put to the listener.
pub open spec fn asked_to_remove(ui: UiState, was: UiState, row: VisibleRow) -> bool {
    let label = removal_label(was.tree.tree@, row);
    let places = library::places_under(was.tree.tree@, row);
    &&& ui.tree.pending_remove matches Some((l, idx)) && l@ == label && order::places(idx@) == places
    &&& ui_state::told(
        ui.status_message,
        "remove "@ + label + " \u{2014} "@ + text::dec(places.len()) + " tracks?  [y/n]"@,
        was.now,
    )
    &&& ui == (UiState {
        tree: TreeView { pending_remove: ui.tree.pending_remove, ..was.tree },
        status_message: ui.status_message,
        ..was
    })
}

/// Starts a removal in the tree. A track can go at once: its places are given
/// back. An album or an artist first waits for a yes.
pub fn tree_remove_under_cursor(ui: &mut UiState) -> (r: Option<Vec<usize>>)
    requires
        old(ui).tree.wf(),
    ensures
        match old(ui).tree.row() {
            Some(row) => if library::places_under(old(ui).tree.tree@, row).len() == 0 {
                r is None && *final(ui) == *old(ui)
            } else if row is Track {
                &&& *final(ui) == *old(ui)
                &&& r matches Some(idx) && order::places(idx@) == library::places_under(
                    old(ui).tree.tree@,
                    row,
                )
            } else {
                r is None && asked_to_remove(*final(ui), *old(ui), row)
            },
            None => r is None && *final(ui) == *old(ui),
        },
{
    let row: VisibleRow = match tree_row_at_cursor(&ui.tree) {
        Some(row) => row,
        None => {
            return None;
        },
    };
    assert(library::row_in(ui.tree.tree@, ui.tree.rows@[ui.tree.cursor as int]));
    let indices: Vec<usize> = subtree_track_indices(&ui.tree.tree, row);
    assert(order::places(indices@).len() == indices@.len());
    if indices.len() == 0 {
        return None;
    }
    let mut label: String = String::new();
    let ghost tree = ui.tree.tree@;
    match row {
        VisibleRow::Track { .. } => {
            return Some(indices);
        },
        VisibleRow::Album { artist, album } => {
            assert(tree[artist as int] == ui.tree.tree.artists@[artist as int]@);
            assert(tree[artist as int].albums[album as int]
                == ui.tree.tree.artists@[artist as int].albums@[album as int]@);
            label = "album ".to_owned();
            label.push_str(ui.tree.tree.artists[artist].albums[album].name.as_str());
        },
        VisibleRow::Artist { artist } => {
            assert(tree[artist as int] == ui.tree.tree.artists@[artist as int]@);
            label = "artist ".to_owned();
            label.push_str(ui.tree.tree.artists[artist].name.as_str());
        },
    }
    let mut msg: String = "remove ".to_owned();
    msg.push_str(label.as_str());
    msg.push_str(" \u{2014} ");
    push_dec(&mut msg, indices.len() as u64);
    msg.push_str(" tracks?  [y/n]");
    ui.set_status(msg);
    ui.tree.pending_remove = Some((label, indices));
    None
}

/// What became of a new source.
pub enum SourceFound {
    /// There is nothing at its path.
    Missing,
    /// It could not be read, for this reason.
    Unreadable(String),
    /// Its tracks.
    Listed(Vec<String>),
}

/// What a new source turned out to hold. `exists` says whether there is anything
/// at its path. A folder's tracks are shuffled where the session is.
pub fn source_found(exists: bool, source: &Source, ui: &UiState, seed: u64) -> (r: SourceFound)
    ensures
        !exists ==> r is Missing,
        exists ==> {
            let tracks = playlist::tracks_of(*source);
            match r {
                SourceFound::Missing => false,
                SourceFound::Unreadable(why) => tracks.len() == 0 && why@ == "No audio files found"@,
                SourceFound::Listed(list) => tracks.len() > 0 && text::texts(list@) == (if ui.queue.shuffle
                    && source is Folder {
                    playlist::shuffled(tracks, 0, seed)
                } else {
                    tracks
                }),
            }
        },
{
    if !exists {
        return SourceFound::Missing;
    }
    match build_playlist(source, ui.queue.shuffle, seed) {
        Ok(list) => SourceFound::Listed(list),
        Err(_) => SourceFound::Unreadable("No audio files found".to_owned()),
    }
}

/// Whether another source was gone over to, as [`switch_source_paths`] does.
pub open spec fn switched(
    s: PlayerState,
    ui: UiState,
    now: Seq<String>,
    s0: PlayerState,
    ui0: UiState,
    was: Seq<String>,
    new_path: Seq<char>,
    found: SourceFound,
) -> bool {
    match found {
        SourceFound::Missing => {
            &&& only_told(ui, ui0, "Path not found: "@ + new_path)
            &&& now == was
            &&& s == s0
        },
        SourceFound::Unreadable(why) => {
            &&& only_told(ui, ui0, "Failed to read source: "@ + why@)
            &&& now == was
            &&& s == s0
        },
        SourceFound::Listed(list) => {
            &&& now == list@
            &&& text::texts(ui.queue.source_paths@) == seq![new_path]
            &&& ui.queue == (Queue {
                current: 0,
                source_paths: ui.queue.source_paths,
                pre_shuffle_order: None,
                auto_sort_pending: sortable(seq![new_path]) && !ui0.queue.shuffle,
                ..ui0.queue
            })
            &&& ui.list@ == (list_view::ListV { cursor: 0, scroll: 0, ..ui0.list@ })
            &&& ui.tree == (TreeView { dirty: true, ..ui0.tree })
            &&& ui.banner == ui0.banner
            &&& followed_up(ui, ui0, text::texts(list@), text::texts(was))
            &&& ui_state::told(
                ui.status_message,
                "Source: "@ + metadata::base_name(new_path) + " ("@ + text::dec(list@.len())
                    + " tracks)"@,
                ui0.now,
            )
            &&& only_lists_changed(ui, ui0)
            &&& s == (PlayerState {
                transport: Transport { jump_to_track: Some(0), ..s0.transport },
                ..at_track(with_total(s0, list@.len()), 0)
            })
        },
    }
}

/// Goes over to another source: its tracks become the playlist, and the first of
/// them is played. Nothing changes where there are none.
pub fn switch_source_paths(
    state: &mut PlayerState,
    ui: &mut UiState,
    playlist: &mut Vec<String>,
    new_path: String,
    found: SourceFound,
)
    ensures
        switched(
            *final(state),
            *final(ui),
            final(playlist)@,
            *old(state),
            *old(ui),
            old(playlist)@,
            new_path@,
            found,
        ),
{
    match found {
        SourceFound::Missing => {
            let mut msg: String = "Path not found: ".to_owned();
            msg.push_str(new_path.as_str());
            ui.set_status(msg);
        },
        SourceFound::Unreadable(why) => {
            let mut msg: String = "Failed to read source: ".to_owned();
            msg.push_str(why.as_str());
            ui.set_status(msg);
        },
        SourceFound::Listed(list) => {
            let was: Vec<String> = copy_list(playlist);
            *playlist = list;
            let name: String = base_name_of(new_path.as_str());
            let mut sources: Vec<String> = Vec::new();
            sources.push(new_path);
            assert(text::texts(sources@) =~= seq![new_path@]);
            ui.queue.source_paths = sources;
            ui.queue.pre_shuffle_order = None;
            ui.queue.current = 0;
            ui.list.cursor = 0;
            ui.list.scroll_offset = 0;
            state.track.total_tracks = playlist.len();
            state.track.current_track = 0;
            reindex_and_restart_scan(ui, playlist, &was);
            arm_auto_sort(ui);
            state.jump_to(0);
            let mut msg: String = "Source: ".to_owned();
            msg.push_str(name.as_str());
            msg.push_str(" (");
            push_dec(&mut msg, playlist.len() as u64);
            msg.push_str(" tracks)");
            ui.set_status(msg);
        },
    }
}

/// Takes the answer to the question for another source: a path and what is there,
/// or none where the question was left.
pub fn source_chosen(
    state: &mut PlayerState,
    ui: &mut UiState,
    playlist: &mut Vec<String>,
    choice: Option<(String, SourceFound)>,
)
    ensures
        match choice {
            Some((new_path, found)) => switched(
                *final(state),
                *final(ui),
                final(playlist)@,
                *old(state),
                *old(ui),
                old(playlist)@,
                new_path@,
                found,
            ),
            None => {
                &&& only_told(*final(ui), *old(ui), "Cancelled"@)
                &&& final(playlist)@ == old(playlist)@
                &&& *final(state) == *old(state)
            },
        },
{
    match choice {
        Some((new_path, found)) => switch_source_paths(state, ui, playlist, new_path, found),
        None => ui.set_status("Cancelled".to_owned()),
    }
}

/// What is said when a playlist of `n` tracks was written down at a path, or could
/// not be for some reason.
pub open spec fn save_message(n: nat, outcome: Result<Seq<char>, Seq<char>>) -> Seq<char> {
    match outcome {
        Ok(p) => "Saved "@ + text::dec(n) + " tracks to "@ + (match path::name_in(p) {
            Some(name) => name,
            None => Seq::empty(),
        }),
        Err(why) => "Save failed: "@ + why,
    }
}

/// Says what became of writing the playlist down.
pub fn playlist_saved(ui: &mut UiState, playlist: &Vec<String>, outcome: Result<String, String>)
    ensures
        only_told(
            *final(ui),
            *old(ui),
            save_message(
                playlist@.len(),
                (match outcome {
                    Ok(p) => Ok(p@),
                    Err(why) => Err(why@),
                }),
            ),
        ),
{
    let msg: String = match outcome {
        Ok(p) => {
            let mut msg: String = "Saved ".to_owned();
            push_dec(&mut msg, playlist.len() as u64);
            msg.push_str(" tracks to ");
            let ghost head = msg@;
            match file_name(p.as_str()) {
                Some(name) => msg.push_str(name.as_str()),
                None => {
                    assert(head + Seq::<char>::empty() =~= head);
                },
            }
            msg
        },
        Err(why) => {
            let mut msg: String = "Save failed: ".to_owned();
            msg.push_str(why.as_str());
            msg
        },
    };
    ui.set_status(msg);
}

/// What is said of a rescan.
pub open spec fn rescan_message(left: nat, had_current: bool, added: nat, removed: nat, failed: bool) -> Seq<char> {
    if left == 0 || (left == 1 && removed > 0 && had_current) {
        "All files removed, finishing current track"@
    } else if added == 0 && removed == 0 && !failed {
        "No changes found"@
    } else if failed && added == 0 && removed == 0 {
        "Rescan failed for some sources"@
    } else {
        "+"@ + text::dec(added) + " added, -"@ + text::dec(removed) + " removed"@
    }
}

/// Where the track that plays is after a rescan: where its path is now, or as
/// near as the list goes.
pub open spec fn rescanned_place(now: Seq<Seq<char>>, was: Seq<Seq<char>>, current: usize) -> usize {
    if current >= was.len() {
        current
    } else {
        match path::place_of(now, was[current as int], 0) {
            Some(k) => k as usize,
            None => text::least(current as int, text::minus(now.len() as int, 1)) as usize,
        }
    }
}

/// Whether track `i` stays on the list in a rescan: it is still found, it plays,
/// or a source could not be read and nothing is known to be gone.
pub open spec fn stays_listed(
    was: Seq<Seq<char>>,
    found: Seq<Seq<char>>,
    current: int,
    failed: bool,
    i: int,
) -> bool {
    failed || i == current || path::place_of(found, was[i], 0) is Some
}

/// Those of the first `n` items whose tracks stay on the list.
pub open spec fn staying<T>(
    items: Seq<T>,
    was: Seq<Seq<char>>,
    found: Seq<Seq<char>>,
    current: int,
    failed: bool,
    n: int,
) -> Seq<T>
    decreases n,
{
    if n <= 0 {
        Seq::empty()
    } else if stays_listed(was, found, current, failed, n - 1) {
        staying(items, was, found, current, failed, n - 1).push(items[n - 1])
    } else {
        staying(items, was, found, current, failed, n - 1)
    }
}

/// Whether a track that was found is new: it is not on the list, and was not
/// removed from it by hand.
pub open spec fn is_new(
    was: Seq<Seq<char>>,
    found: Seq<Seq<char>>,
    keys: Seq<Seq<char>>,
    removed: Set<Seq<char>>,
    i: int,
) -> bool {
    path::place_of(was, found[i], 0) is None && !removed.contains(keys[i])
}

/// Those of the first `n` items whose tracks are new.
pub open spec fn fresh<T>(
    items: Seq<T>,
    was: Seq<Seq<char>>,
    found: Seq<Seq<char>>,
    keys: Seq<Seq<char>>,
    removed: Set<Seq<char>>,
    n: int,
) -> Seq<T>
    decreases n,
{
    if n <= 0 {
        Seq::empty()
    } else if is_new(was, found, keys, removed, n - 1) {
        fresh(items, was, found, keys, removed, n - 1).push(items[n - 1])
    } else {
        fresh(items, was, found, keys, removed, n - 1)
    }
}

/// The list after a rescan: what stays, in its order, and what is new behind it,
/// each track once.
pub open spec fn rescanned(
    was: Seq<Seq<char>>,
    was_keys: Seq<Seq<char>>,
    found: Seq<Seq<char>>,
    keys: Seq<Seq<char>>,
    removed: Set<Seq<char>>,
    current: int,
    failed: bool,
) -> Seq<Seq<char>> {
    let n = was.len() as int;
    let m = found.len() as int;
    let list = staying(was, was, found, current, failed, n) + fresh(found, was, found, keys, removed, m);
    let list_keys = staying(was_keys, was, found, current, failed, n) + fresh(keys, was, found, keys, removed, m);
    playlist::kept(list, list_keys, Set::empty(), list.len() as int)
}

/// Appends the tracks that stay on the list, and their keys.
fn push_staying(
    list: &mut Vec<String>,
    list_keys: &mut Vec<String>,
    was: &Vec<String>,
    was_keys: &Vec<String>,
    found: &Vec<String>,
    current: usize,
    failed: bool,
)
    requires
        was@.len() == was_keys@.len(),
    ensures
        ({
            let wv = text::texts(was@);
            let n = was@.len() as int;
            let fv = text::texts(found@);
            &&& text::texts(final(list)@) == text::texts(old(list)@) + staying(wv, wv, fv, current as int, failed, n)
            &&& text::texts(final(list_keys)@) == text::texts(old(list_keys)@) + staying(
                text::texts(was_keys@),
                wv,
                fv,
                current as int,
                failed,
                n,
            )
        }),
{
    let ghost wv = text::texts(was@);
    let ghost kv = text::texts(was_keys@);
    let ghost fv = text::texts(found@);
    let ghost l0 = text::texts(list@);
    let ghost k0 = text::texts(list_keys@);
    let parts: Vec<Vec<Part>> = parts_of_all(found);
    let mut i: usize = 0;
    assert(l0 =~= l0 + staying(wv, wv, fv, current as int, failed, 0));
    assert(k0 =~= k0 + staying(kv, wv, fv, current as int, failed, 0));
    while i < was.len()
        invariant
            was@.len() == was_keys@.len(),
            wv == text::texts(was@),
            kv == text::texts(was_keys@),
            fv == text::texts(found@),
            order::keys_view(parts@) == path::path_keys(fv),
            i <= was@.len(),
            text::texts(list@) == l0 + staying(wv, wv, fv, current as int, failed, i as int),
            text::texts(list_keys@) == k0 + staying(kv, wv, fv, current as int, failed, i as int),
        decreases was@.len() - i,
    {
        assert(wv[i as int] == was@[i as int]@);
        assert(kv[i as int] == was_keys@[i as int]@);
        let ghost l = list@;
        let ghost k = list_keys@;
        if failed || i == current || find_parts(found, &parts, was[i].as_str()).is_some() {
            list.push(was[i].clone());
            list_keys.push(was_keys[i].clone());
            assert(text::texts(list@) =~= text::texts(l).push(wv[i as int]));
            assert(text::texts(list_keys@) =~= text::texts(k).push(kv[i as int]));
        }
        i = i + 1;
        assert(text::texts(list@) =~= l0 + staying(wv, wv, fv, current as int, failed, i as int));
        assert(text::texts(list_keys@) =~= k0 + staying(kv, wv, fv, current as int, failed, i as int));
    }
}

/// Appends the tracks that are new, and their keys.
fn push_fresh(
    list: &mut Vec<String>,
    list_keys: &mut Vec<String>,
    was: &Vec<String>,
    found: &Vec<String>,
    keys: &Vec<String>,
    removed: &NameSet,
)
    requires
        found@.len() == keys@.len(),
    ensures
        ({
            let wv = text::texts(was@);
            let fv = text::texts(found@);
            let kv = text::texts(keys@);
            let m = found@.len() as int;
            &&& text::texts(final(list)@) == text::texts(old(list)@) + fresh(fv, wv, fv, kv, removed@, m)
            &&& text::texts(final(list_keys)@) == text::texts(old(list_keys)@) + fresh(kv, wv, fv, kv, removed@, m)
        }),
{
    let ghost wv = text::texts(was@);
    let ghost kv = text::texts(keys@);
    let ghost fv = text::texts(found@);
    let ghost l0 = text::texts(list@);
    let ghost k0 = text::texts(list_keys@);
    let parts: Vec<Vec<Part>> = parts_of_all(was);
    let mut i: usize = 0;
    assert(l0 =~= l0 + fresh(fv, wv, fv, kv, removed@, 0));
    assert(k0 =~= k0 + fresh(kv, wv, fv, kv, removed@, 0));
    while i < found.len()
        invariant
            found@.len() == keys@.len(),
            wv == text::texts(was@),
            kv == text::texts(keys@),
            fv == text::texts(found@),
            order::keys_view(parts@) == path::path_keys(wv),
            i <= found@.len(),
            text::texts(list@) == l0 + fresh(fv, wv, fv, kv, removed@, i as int),
            text::texts(list_keys@) == k0 + fresh(kv, wv, fv, kv, removed@, i as int),
        decreases found@.len() - i,
    {
        assert(fv[i as int] == found@[i as int]@);
        assert(kv[i as int] == keys@[i as int]@);
        let ghost l = list@;
        let ghost k = list_keys@;
        if find_parts(was, &parts, found[i].as_str()).is_none() && !removed.contains(keys[i].as_str()) {
            list.push(found[i].clone());
            list_keys.push(keys[i].clone());
            assert(text::texts(list@) =~= text::texts(l).push(fv[i as int]));
            assert(text::texts(list_keys@) =~= text::texts(k).push(kv[i as int]));
        }
        i = i + 1;
        assert(text::texts(list@) =~= l0 + fresh(fv, wv, fv, kv, removed@, i as int));
        assert(text::texts(list_keys@) =~= k0 + fresh(kv, wv, fv, kv, removed@, i as int));
    }
}

/// What stays or is new of one list stays or is new of a list beside it.
pub proof fn lemma_parallel<A, B>(
    a: Seq<A>,
    b: Seq<B>,
    was: Seq<Seq<char>>,
    found: Seq<Seq<char>>,
    keys: Seq<Seq<char>>,
    removed: Set<Seq<char>>,
    current: int,
    failed: bool,
    n: int,
)
    ensures
        staying(a, was, found, current, failed, n).len() == staying(b, was, found, current, failed, n).len(),
        fresh(a, was, found, keys, removed, n).len() == fresh(b, was, found, keys, removed, n).len(),
    decreases n,
{
    if n > 0 {
        lemma_parallel(a, b, was, found, keys, removed, current, failed, n - 1);
    }
}

proof fn lemma_staying_len<T>(
    items: Seq<T>,
    was: Seq<Seq<char>>,
    found: Seq<Seq<char>>,
    current: int,
    failed: bool,
    n: int,
)
    requires
        0 <= n,
    ensures
        staying(items, was, found, current, failed, n).len() <= n,
    decreases n,
{
    if n > 0 {
        lemma_staying_len(items, was, found, current, failed, n - 1);
    }
}

/// The list after a rescan, and how many tracks came and went.
fn merge_found(
    was: &Vec<String>,
    was_keys: &Vec<String>,
    found: &Vec<String>,
    keys: &Vec<String>,
    removed: &NameSet,
    current: usize,
    failed: bool,
) -> (r: (Vec<String>, usize, usize))
    requires
        was@.len() == was_keys@.len(),
        found@.len() == keys@.len(),
    ensures
        ({
            let wv = text::texts(was@);
            let fv = text::texts(found@);
            let kv = text::texts(keys@);
            &&& text::texts(r.0@) == rescanned(
                wv,
                text::texts(was_keys@),
                fv,
                kv,
                removed@,
                current as int,
                failed,
            )
            &&& r.1 == fresh(fv, wv, fv, kv, removed@, fv.len() as int).len()
            &&& r.2 == wv.len() - staying(wv, wv, fv, current as int, failed, wv.len() as int).len()
        }),
{
    let ghost wv = text::texts(was@);
    let ghost fv = text::texts(found@);
    let ghost kv = text::texts(keys@);
    let mut list: Vec<String> = Vec::new();
    let mut list_keys: Vec<String> = Vec::new();
    let ghost empty = text::texts(list@);
    assert(empty =~= Seq::<Seq<char>>::empty());
    push_staying(&mut list, &mut list_keys, was, was_keys, found, current, failed);
    let ghost stay = staying(wv, wv, fv, current as int, failed, wv.len() as int);
    let ghost stay_keys = staying(text::texts(was_keys@), wv, fv, current as int, failed, wv.len() as int);
    assert(empty + stay =~= stay);
    assert(empty + stay_keys =~= stay_keys);
    assert(text::texts(list@).len() == list@.len());
    proof {
        lemma_staying_len(wv, wv, fv, current as int, failed, wv.len() as int);
        lemma_parallel(wv, text::texts(was_keys@), wv, fv, kv, removed@, current as int, failed, wv.len() as int);
        lemma_parallel(fv, kv, wv, fv, kv, removed@, current as int, failed, fv.len() as int);
    }
    let left: usize = list.len();
    push_fresh(&mut list, &mut list_keys, was, found, keys, removed);
    assert(text::texts(list@).len() == list@.len());
    assert(text::texts(list_keys@).len() == list_keys@.len());
    let none: NameSet = NameSet::new();
    let out: Vec<String> = dedup_playlist(&list, &list_keys, &none);
    (out, list.len() - left, was.len() - left)
}

/// Takes over what the sources hold now. `found` is what they hold, `keys` where
/// each of its paths really leads, and `was_keys` where those of the playlist do;
/// `failed` says that a source could not be read. Tracks that are gone leave the
/// list, but for the one that plays; new ones come behind the others, but for
/// those that were removed by hand.
pub fn rescan(
    state: &mut PlayerState,
    ui: &mut UiState,
    playlist: &mut Vec<String>,
    was_keys: &Vec<String>,
    found: &Vec<String>,
    keys: &Vec<String>,
    failed: bool,
)
    requires
        old(playlist)@.len() == was_keys@.len(),
        found@.len() == keys@.len(),
    ensures
        ({
            let was = text::texts(old(playlist)@);
            let fv = text::texts(found@);
            let kv = text::texts(keys@);
            let removed = old(ui).queue.removed_paths@;
            let place = old(ui).queue.current as int;
            let now = rescanned(was, text::texts(was_keys@), fv, kv, removed, place, failed);
            let current = rescanned_place(now, was, old(ui).queue.current);
            &&& text::texts(final(playlist)@) == now
            &&& final(ui).queue == (Queue {
                current,
                auto_sort_pending: sortable(text::texts(old(ui).queue.source_paths@))
                    && !old(ui).queue.shuffle,
                ..old(ui).queue
            })
            &&& final(ui).list == old(ui).list
            &&& final(ui).tree == (TreeView { dirty: true, ..old(ui).tree })
            &&& final(ui).banner == old(ui).banner
            &&& followed_up(*final(ui), *old(ui), now, was)
            &&& ui_state::told(
                final(ui).status_message,
                rescan_message(
                    now.len(),
                    old(ui).queue.current < was.len(),
                    fresh(fv, was, fv, kv, removed, fv.len() as int).len(),
                    (was.len() - staying(was, was, fv, place, failed, was.len() as int).len()) as nat,
                    failed,
                ),
                old(ui).now,
            )
            &&& only_lists_changed(*final(ui), *old(ui))
            &&& *final(state) == at_track(with_total(*old(state), now.len()), current)
        }),
{
    let was: Vec<String> = copy_list(playlist);
    let (list, added, removed) = merge_found(
        &was,
        was_keys,
        found,
        keys,
        &ui.queue.removed_paths,
        ui.queue.current,
        failed,
    );
    *playlist = list;
    let ghost now = text::texts(playlist@);
    assert(now.len() == playlist@.len());
    let n: usize = playlist.len();
    let had_current: bool = ui.queue.current < was.len();
    ui.queue.current = place_after_rescan(playlist, &was, ui.queue.current);
    state.track.total_tracks = n;
    state.track.current_track = ui.queue.current;
    reindex_and_restart_scan(ui, playlist, &was);
    arm_auto_sort(ui);
    let msg: String = rescan_report(n, had_current, added, removed, failed);
    ui.set_status(msg);
}

/// Where the track that plays is after a rescan.
fn place_after_rescan(playlist: &Vec<String>, was: &Vec<String>, current: usize) -> (r: usize)
    ensures
        r == rescanned_place(text::texts(playlist@), text::texts(was@), current),
{
    assert(text::texts(playlist@).len() == playlist@.len());
    if current >= was.len() {
        return current;
    }
    assert(text::texts(was@)[current as int] == was@[current as int]@);
    match find_path(playlist, was[current].as_str()) {
        Some(k) => k,
        None => {
            let last: usize = if playlist.len() == 0 {
                0
            } else {
                playlist.len() - 1
            };
            if current > last {
                last
            } else {
                current
            }
        },
    }
}

/// What is said of a rescan.
fn rescan_report(left: usize, had_current: bool, added: usize, removed: usize, failed: bool) -> (msg: String)
    ensures
        msg@ == rescan_message(left as nat, had_current, added as nat, removed as nat, failed),
{
    if left == 0 || (left == 1 && removed > 0 && had_current) {
        "All files removed, finishing current track".to_owned()
    } else if added == 0 && removed == 0 && !failed {
        "No changes found".to_owned()
    } else if failed && added == 0 && removed == 0 {
        "Rescan failed for some sources".to_owned()
    } else {
        let mut msg: String = "+".to_owned();
        push_dec(&mut msg, added as u64);
        msg.push_str(" added, -");
        push_dec(&mut msg, removed as u64);
        msg.push_str(" removed");
        msg
    }
}

} // verus!
