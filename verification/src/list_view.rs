//! The playlist as a flat list on the screen: its cursor and its search.
use crate::metadata;
use crate::metadata::{find_tracks, MetadataCache};
use crate::order;
use crate::text;
use crate::text::is_blank;
use vstd::prelude::*;

verus! {

/// The list presentation of the library.
pub struct ListView {
    pub cursor: usize,
    /// The first row on the screen.
    pub scroll_offset: usize,
    /// Places of the tracks that a search found; empty without a search, and
    /// where it found nothing.
    pub filtered_indices: Vec<usize>,
    /// Rows that were last on the screen.
    pub last_visible_rows: usize,
}

/// The list presentation, as a value.
#[verifier::ext_equal]
pub struct ListV {
    pub cursor: int,
    pub scroll: int,
    pub filtered: Seq<int>,
    pub rows: int,
}

impl View for ListView {
    type V = ListV;

    open spec fn view(&self) -> ListV {
        ListV {
            cursor: self.cursor as int,
            scroll: self.scroll_offset as int,
            filtered: order::places(self.filtered_indices@),
            rows: self.last_visible_rows as int,
        }
    }
}

impl ListV {
    /// Rows of the list, with `n` tracks in all.
    pub open spec fn len(self, n: int) -> int {
        if self.filtered.len() == 0 {
            n
        } else {
            self.filtered.len() as int
        }
    }

    /// The last row.
    pub open spec fn last(self, n: int) -> int {
        text::minus(self.len(n), 1)
    }

    /// Rows that a page moves by: one less than are on the screen, so that one
    /// stays in sight.
    pub open spec fn page(self) -> int {
        text::most(text::minus(self.rows, 1), 1)
    }

    /// With the cursor at a row, which is not above the screen.
    pub open spec fn at(self, cursor: int) -> ListV {
        ListV { cursor, scroll: text::least(self.scroll, cursor), ..self }
    }

    /// The track under the cursor. Where a search found some, none may be.
    pub open spec fn track(self) -> Option<int> {
        if self.filtered.len() == 0 {
            Some(self.cursor)
        } else if self.cursor < self.filtered.len() {
            Some(self.filtered[self.cursor])
        } else {
            None
        }
    }

    /// With nothing searched for, at the first row.
    pub open spec fn plain(self) -> ListV {
        ListV { cursor: 0, scroll: 0, filtered: Seq::empty(), rows: self.rows }
    }

    /// Narrowed to what a search finds, at the first row.
    pub open spec fn searched(
        self,
        query: Seq<char>,
        cache: Seq<metadata::TrackMetaV>,
        paths: Seq<Seq<char>>,
    ) -> ListV {
        let low = text::folded(query);
        if low.len() == 0 {
            self.plain()
        } else {
            ListV {
                cursor: 0,
                scroll: 0,
                filtered: metadata::found(cache, paths, low, paths.len() as int),
                rows: self.rows,
            }
        }
    }
}

impl ListView {
    /// A list at its first row.
    pub fn new() -> (l: ListView)
        ensures
            l@ == (ListV { cursor: 0, scroll: 0, filtered: Seq::empty(), rows: 20 }),
    {
        let l: ListView = ListView {
            cursor: 0,
            scroll_offset: 0,
            filtered_indices: Vec::new(),
            last_visible_rows: 20,
        };
        assert(l@.filtered =~= Seq::<int>::empty());
        l
    }

    fn last_row(&self, n: usize) -> (r: usize)
        ensures
            r == self@.last(n as int),
    {
        let rows: usize = if self.filtered_indices.len() == 0 {
            n
        } else {
            self.filtered_indices.len()
        };
        if rows == 0 {
            0
        } else {
            rows - 1
        }
    }

    fn page(&self) -> (r: usize)
        ensures
            r == self@.page(),
    {
        if self.last_visible_rows < 2 {
            1
        } else {
            self.last_visible_rows - 1
        }
    }

    /// The track under the cursor.
    pub fn cursor_track(&self) -> (r: Option<usize>)
        ensures
            match r {
                Some(i) => self@.track() == Some(i as int),
                None => self@.track() is None,
            },
    {
        if self.filtered_indices.len() == 0 {
            Some(self.cursor)
        } else if self.cursor < self.filtered_indices.len() {
            assert(self@.filtered[self.cursor as int] == self.filtered_indices@[self.cursor as int] as int);
            Some(self.filtered_indices[self.cursor])
        } else {
            None
        }
    }

    /// Forgets the search, and goes to the first row.
    pub fn clear_search(&mut self)
        ensures
            final(self)@ == old(self)@.plain(),
    {
        self.filtered_indices = Vec::new();
        self.cursor = 0;
        self.scroll_offset = 0;
        assert(self@.filtered =~= Seq::<int>::empty());
    }
}

/// One row up.
pub fn playlist_cursor_up(l: &mut ListView)
    ensures
        final(l)@ == (if old(l)@.cursor > 0 {
            old(l)@.at(old(l)@.cursor - 1)
        } else {
            old(l)@
        }),
{
    if l.cursor > 0 {
        l.cursor = l.cursor - 1;
        if l.cursor < l.scroll_offset {
            l.scroll_offset = l.cursor;
        }
    }
}

/// One row down, with `n` tracks in all.
pub fn playlist_cursor_down(l: &mut ListView, n: usize)
    ensures
        final(l)@ == (if old(l)@.cursor < old(l)@.last(n as int) {
            ListV { cursor: old(l)@.cursor + 1, ..old(l)@ }
        } else {
            old(l)@
        }),
{
    if l.cursor < l.last_row(n) {
        l.cursor = l.cursor + 1;
    }
}

/// To the first row.
pub fn playlist_cursor_home(l: &mut ListView)
    ensures
        final(l)@ == (ListV { cursor: 0, scroll: 0, ..old(l)@ }),
{
    l.cursor = 0;
    l.scroll_offset = 0;
}

/// To the last row.
pub fn playlist_cursor_end(l: &mut ListView, n: usize)
    ensures
        final(l)@ == (ListV { cursor: old(l)@.last(n as int), ..old(l)@ }),
{
    l.cursor = l.last_row(n);
}

/// A page up.
pub fn playlist_cursor_page_up(l: &mut ListView)
    ensures
        final(l)@ == old(l)@.at(text::minus(old(l)@.cursor, old(l)@.page())),
{
    let page: usize = l.page();
    l.cursor = if l.cursor < page {
        0
    } else {
        l.cursor - page
    };
    if l.cursor < l.scroll_offset {
        l.scroll_offset = l.cursor;
    }
}

/// A page down.
pub fn playlist_cursor_page_down(l: &mut ListView, n: usize)
    ensures
        final(l)@ == (ListV {
            cursor: text::least(old(l)@.cursor + old(l)@.page(), old(l)@.last(n as int)),
            ..old(l)@
        }),
{
    let page: usize = l.page();
    let max: usize = l.last_row(n);
    l.cursor = if l.cursor as u128 + page as u128 > max as u128 {
        max
    } else {
        l.cursor + page
    };
}

/// Brings the cursor to a track, and not above the screen.
pub fn cursor_to(l: &mut ListView, track: usize)
    ensures
        final(l)@ == old(l)@.at(track as int),
{
    l.cursor = track;
    if l.cursor < l.scroll_offset {
        l.scroll_offset = l.cursor;
    }
}

/// Keeps the cursor on a row.
pub fn keep_cursor_in(l: &mut ListView, n: usize)
    ensures
        final(l)@ == (ListV { cursor: text::least(old(l)@.cursor, old(l)@.last(n as int)), ..old(l)@ }),
{
    let max: usize = l.last_row(n);
    if l.cursor > max {
        l.cursor = max;
    }
}

/// Narrows the list to what a search finds. An empty search finds all.
pub fn rebuild_filter(l: &mut ListView, query: &str, cache: &MetadataCache, playlist: &Vec<String>)
    ensures
        final(l)@ == old(l)@.searched(query@, cache@, text::texts(playlist@)),
{
    let low: String = query.to_lowercase();
    if is_blank(low.as_str()) {
        l.clear_search();
        return;
    }
    assert(text::texts(playlist@).len() == playlist@.len());
    l.filtered_indices = find_tracks(cache, playlist, low.as_str());
    l.cursor = 0;
    l.scroll_offset = 0;
}

/// Where the cursor was on a row, it is on one after every move.
pub proof fn moves_stay_on_the_list(l: ListV, n: int)
    requires
        n > 0,
        0 <= l.cursor <= l.last(n),
        0 <= l.scroll,
        0 <= l.rows,
    ensures
        0 <= l.last(n),
        l.cursor > 0 ==> 0 <= l.at(l.cursor - 1).cursor <= l.last(n),
        0 <= text::least(l.cursor + l.page(), l.last(n)) <= l.last(n),
        0 <= text::minus(l.cursor, l.page()) <= l.last(n),
{
}

} // verus!
