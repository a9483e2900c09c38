//! What the screen shows and what the keys have changed.
use crate::cover::CoverImage;
use crate::library;
use crate::library::NameSet;
use crate::list_view;
use crate::list_view::ListView;
use crate::lyrics::Lyrics;
use crate::metadata::MetadataCache;
use crate::path;
use crate::state::{InputMode, RepeatMode, ViewMode};
use crate::tree_view::TreeView;
use vstd::prelude::*;

verus! {

/// Milliseconds that a message stays on the screen.
pub const STATUS_MS: u64 = 2000;

/// A scan of the tags. Results of an older generation are of no use: the
/// playlist has been reordered since.
#[derive(Clone, Copy, Debug, PartialEq, Eq, Structural)]
pub struct ScanHandle {
    pub generation: u64,
    pub finished: bool,
}

/// The banner above the player.
pub struct Banner {
    pub lines: usize,
    pub text: String,
    pub tail: String,
    pub dirty: bool,
}

/// The lyrics view.
pub struct LyricsPane {
    pub lyrics: Option<Lyrics>,
    pub scroll: usize,
    pub auto_scroll: bool,
    /// Half seconds by which the lines come later.
    pub offset: i64,
    /// Counts the tracks whose lyrics were asked for; an older answer is late.
    pub generation: u64,
}

/// The cover.
pub struct CoverPane {
    pub cover: Option<CoverImage>,
    pub enabled: bool,
    /// Counts the tracks whose covers were asked for; an older answer is late.
    pub generation: u64,
    /// The last frame left the cover's image as it was.
    pub block_intact: bool,
    /// Another cover has come in since it was last painted.
    pub dirty_frame: bool,
}

/// The playlist's place and order.
pub struct Queue {
    pub current: usize,
    pub source_paths: Vec<String>,
    pub shuffle: bool,
    /// The order before the tracks were shuffled.
    pub pre_shuffle_order: Option<Vec<String>>,
    pub repeat_mode: RepeatMode,
    /// Tracks that were queued to play next.
    pub enqueue_count: usize,
    /// What was removed by hand and is not to come back.
    pub removed_paths: NameSet,
    pub dirty: bool,
    pub current_track_removed: bool,
    /// Sort by tags once the scan is done.
    pub auto_sort_pending: bool,
}

/// What the screen shows and what the keys have changed.
pub struct UiState {
    pub view_mode: ViewMode,
    pub input_mode: InputMode,
    /// Milliseconds on a clock that only goes forward.
    pub now: u64,
    /// A message, and when it was put up.
    pub status_message: Option<(String, u64)>,
    pub list: ListView,
    pub tree: TreeView,
    pub queue: Queue,
    pub cache: MetadataCache,
    pub scan_handle: Option<ScanHandle>,
    /// Selected band of the equaliser.
    pub eq_band: usize,
    pub banner: Banner,
    /// The whole screen has to be painted.
    pub terminal_resized: bool,
    /// The last frame left the spectrogram's image as it was.
    pub spectro_block_intact: bool,
    pub lyrics: LyricsPane,
    pub cover: CoverPane,
}

/// Whether a message was put up at some time.
pub open spec fn told(m: Option<(String, u64)>, text: Seq<char>, when: u64) -> bool {
    m matches Some((t, at)) && t@ == text && at == when
}

impl UiState {
    /// The message on the screen.
    pub open spec fn message(self) -> Option<Seq<char>> {
        match self.status_message {
            Some((m, at)) => if self.now - at < STATUS_MS {
                Some(m@)
            } else {
                None
            },
            None => None,
        }
    }

    /// A screen for a playlist from some sources.
    pub fn new(source_paths: Vec<String>, cache: MetadataCache) -> (ui: Self)
        ensures
            ui.view_mode is Player,
            ui.input_mode is Normal,
            ui.now == 0 && ui.status_message is None,
            ui.list@ == (list_view::ListV { cursor: 0, scroll: 0, filtered: Seq::empty(), rows: 20 }),
            !ui.tree.mode && ui.tree.dirty && ui.tree.wf() && ui.tree.filter@.len() == 0,
            ui.tree.cursor == 0 && ui.tree.scroll == 0 && ui.tree.rows@.len() == 0,
            ui.tree.pending_remove is None && ui.tree.view_height == 0,
            ui.tree.tree@ == Seq::<library::ArtistV>::empty(),
            ui.tree.fold.expanded_artists@ == Set::<Seq<char>>::empty(),
            ui.tree.fold.expanded_albums@ == Set::<(Seq<char>, Seq<char>)>::empty(),
            !ui.tree.scan_was_running && ui.tree.scan_refreshed_at is None,
            ui.queue.current == 0 && ui.queue.enqueue_count == 0,
            ui.queue.source_paths == source_paths,
            !ui.queue.shuffle && ui.queue.pre_shuffle_order is None,
            ui.queue.repeat_mode is Off,
            ui.queue.removed_paths@ == Set::<Seq<char>>::empty(),
            !ui.queue.dirty && !ui.queue.current_track_removed && !ui.queue.auto_sort_pending,
            ui.cache == cache,
            ui.scan_handle is None,
            ui.eq_band == 0,
            ui.banner.lines == 0 && !ui.banner.dirty && ui.banner.text@.len() == 0 && ui.banner.tail@.len() == 0,
            !ui.terminal_resized && !ui.spectro_block_intact,
            ui.lyrics.lyrics is None && ui.lyrics.scroll == 0 && ui.lyrics.auto_scroll && ui.lyrics.offset == 0,
            ui.lyrics.generation == 0 && ui.cover.generation == 0,
            ui.cover.cover is None && ui.cover.enabled && !ui.cover.block_intact && !ui.cover.dirty_frame,
    {
        UiState {
            view_mode: ViewMode::Player,
            input_mode: InputMode::Normal,
            now: 0,
            status_message: None,
            list: ListView::new(),
            tree: TreeView::new(),
            queue: Queue {
                current: 0,
                source_paths,
                shuffle: false,
                pre_shuffle_order: None,
                repeat_mode: RepeatMode::Off,
                enqueue_count: 0,
                removed_paths: NameSet::new(),
                dirty: false,
                current_track_removed: false,
                auto_sort_pending: false,
            },
            cache,
            scan_handle: None,
            eq_band: 0,
            banner: Banner { lines: 0, text: String::new(), tail: String::new(), dirty: false },
            terminal_resized: false,
            spectro_block_intact: false,
            lyrics: LyricsPane { lyrics: None, scroll: 0, auto_scroll: true, offset: 0, generation: 0 },
            cover: CoverPane {
                cover: None,
                enabled: true,
                generation: 0,
                block_intact: false,
                dirty_frame: false,
            },
        }
    }

    /// Puts a message up.
    pub fn set_status(&mut self, msg: String)
        ensures
            *final(self) == (UiState { status_message: Some((msg, old(self).now)), ..*old(self) }),
    {
        self.status_message = Some((msg, self.now));
    }

    /// The message on the screen.
    pub fn active_status(&self) -> (r: Option<String>)
        ensures
            path::opt_text(r) == self.message(),
    {
        match &self.status_message {
            Some((m, at)) => {
                if self.now < *at || self.now - *at < STATUS_MS {
                    Some(m.clone())
                } else {
                    None
                }
            },
            None => None,
        }
    }

    /// The message on the screen; one that has been there long enough is taken
    /// down.
    pub fn take_status(&mut self) -> (r: Option<String>)
        ensures
            path::opt_text(r) == old(self).message(),
            *final(self) == (if old(self).message() is None {
                UiState { status_message: None, ..*old(self) }
            } else {
                *old(self)
            }),
    {
        let r: Option<String> = self.active_status();
        if r.is_none() {
            self.status_message = None;
        }
        r
    }
}

/// A message is on the screen when it was put up, and for two seconds; then no
/// more.
pub proof fn message_stays_two_seconds(ui: UiState, later: UiState, m: String)
    requires
        ui.status_message == Some((m, ui.now)),
        later.status_message == ui.status_message,
        later.now >= ui.now,
    ensures
        ui.message() == Some(m@),
        later.message() is Some <==> later.now < ui.now + 2000,
{
}

} // verus!
