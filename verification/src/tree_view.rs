//! The library tree on the screen: its rows, its cursor, its filter.
use crate::library;
use crate::library::{
    collapse, expand, first_track_index, render_library_tree, visible_rows, visible_rows_filtered, FoldState,
    LibraryTree, VisibleRow,
};
use crate::library_laws;
use crate::text;
use crate::text::is_blank;
use crate::theme::Palette;
use vstd::prelude::*;

verus! {

/// The tree presentation of the library. Its cursor and its scroll are its own:
/// the flat list keeps others.
pub struct TreeView {
    /// The library is shown as a tree rather than as a list.
    pub mode: bool,
    pub tree: LibraryTree,
    pub fold: FoldState,
    /// The rows as they were last worked out.
    pub rows: Vec<VisibleRow>,
    pub cursor: usize,
    pub scroll: usize,
    /// Rows that were last on the screen.
    pub view_height: usize,
    /// The tree has to be built anew.
    pub dirty: bool,
    /// Empty is no filter.
    pub filter: String,
    /// A removal that waits for a yes: what is removed, and its places in the
    /// playlist.
    pub pending_remove: Option<(String, Vec<usize>)>,
    pub scan_was_running: bool,
    pub scan_refreshed_at: Option<u64>,
}

/// The rows of a tree: those a filter leaves, or without one those that the
/// open nodes show.
pub open spec fn shown_rows(tree: Seq<library::ArtistV>, fold: FoldState, filter: Seq<char>) -> Seq<VisibleRow> {
    if filter.len() == 0 {
        library::rows_of(tree, fold)
    } else {
        library::filtered_rows(tree, filter)
    }
}

/// `x`, moved into `0..n`; 0 where that is empty.
pub open spec fn clamped(x: int, n: int) -> int {
    text::most(text::least(x, n - 1), 0)
}

/// The first place from `i` on of a row.
pub open spec fn row_place(rows: Seq<VisibleRow>, row: VisibleRow, i: int) -> Option<int>
    decreases rows.len() - i,
{
    if i >= rows.len() {
        None
    } else if rows[i] == row {
        Some(i)
    } else {
        row_place(rows, row, i + 1)
    }
}

impl TreeView {
    /// The rows stand for nodes of the tree.
    pub open spec fn wf(self) -> bool {
        library_laws::rows_in(self.tree@, self.rows@)
    }

    /// The rows are those of the tree as it is now.
    pub open spec fn fresh(self) -> bool {
        self.rows@ == shown_rows(self.tree@, self.fold, self.filter@)
    }

    /// The row under the cursor.
    pub open spec fn row(self) -> Option<VisibleRow> {
        if self.cursor < self.rows@.len() {
            Some(self.rows@[self.cursor as int])
        } else {
            None
        }
    }

    /// An empty tree, not yet built.
    pub fn new() -> (t: TreeView)
        ensures
            !t.mode,
            t.tree@ == Seq::<library::ArtistV>::empty(),
            t.fold.expanded_artists@ == Set::<Seq<char>>::empty(),
            t.fold.expanded_albums@ == Set::<(Seq<char>, Seq<char>)>::empty(),
            t.rows@.len() == 0,
            t.cursor == 0 && t.scroll == 0 && t.view_height == 0,
            t.dirty,
            t.filter@.len() == 0,
            t.pending_remove is None,
            !t.scan_was_running,
            t.scan_refreshed_at is None,
            t.wf(),
    {
        TreeView {
            mode: false,
            tree: LibraryTree::default(),
            fold: FoldState::default(),
            rows: Vec::new(),
            cursor: 0,
            scroll: 0,
            view_height: 0,
            dirty: true,
            filter: String::new(),
            pending_remove: None,
            scan_was_running: false,
            scan_refreshed_at: None,
        }
    }
}

/// Works the rows out anew. Has to be called after every change of the tree, of
/// what is open, or of the filter: moving and painting read the rows.
pub fn refresh_tree_rows(t: &mut TreeView)
    ensures
        final(t).fresh(),
        final(t).wf(),
        *final(t) == (TreeView { rows: final(t).rows, ..*old(t) }),
{
    proof {
        library_laws::trees_are_countable(&t.tree);
        library_laws::visible_rows_are_nodes(t.tree@, t.fold);
        library_laws::filtered_rows_are_nodes(t.tree@, t.filter@);
    }
    t.rows = if is_blank(t.filter.as_str()) {
        visible_rows(&t.tree, &t.fold)
    } else {
        visible_rows_filtered(&t.tree, t.filter.as_str())
    };
}

/// Rows that can be moved over.
pub fn tree_visible_len(t: &TreeView) -> (r: usize)
    ensures
        r == t.rows@.len(),
{
    t.rows.len()
}

/// The row under the cursor.
pub fn tree_row_at_cursor(t: &TreeView) -> (r: Option<VisibleRow>)
    ensures
        r == t.row(),
{
    if t.cursor < t.rows.len() {
        Some(t.rows[t.cursor])
    } else {
        None
    }
}

fn clamp_cursor(t: &mut TreeView)
    ensures
        *final(t) == (TreeView { cursor: clamped(old(t).cursor as int, old(t).rows@.len() as int) as usize, ..*old(t) }),
{
    let n: usize = t.rows.len();
    if t.cursor >= n {
        t.cursor = if n == 0 {
            0
        } else {
            n - 1
        };
    }
}

/// Makes a text the filter. The cursor stays on a row, and the rows are shown
/// from the first on.
pub fn rebuild_tree_filter(t: &mut TreeView, query: &str)
    ensures
        final(t).filter@ == query@,
        final(t).fresh(),
        final(t).wf(),
        final(t).cursor == clamped(old(t).cursor as int, final(t).rows@.len() as int),
        final(t).scroll == 0,
        *final(t) == (TreeView {
            filter: final(t).filter,
            rows: final(t).rows,
            cursor: final(t).cursor,
            scroll: 0,
            ..*old(t)
        }),
{
    t.filter = query.to_owned();
    refresh_tree_rows(t);
    clamp_cursor(t);
    t.scroll = 0;
}

/// Takes the filter away, and goes to the first row.
pub fn clear_tree_filter(t: &mut TreeView)
    ensures
        final(t).filter@.len() == 0,
        final(t).fresh(),
        final(t).wf(),
        *final(t) == (TreeView {
            filter: final(t).filter,
            rows: final(t).rows,
            cursor: 0,
            scroll: 0,
            ..*old(t)
        }),
{
    t.filter = String::new();
    refresh_tree_rows(t);
    t.cursor = 0;
    t.scroll = 0;
}

/// Moves the cursor by some rows, as far as there are any.
pub fn tree_move(t: &mut TreeView, delta: i128)
    requires
        -0x1_0000_0000_0000_0000 <= delta <= 0x1_0000_0000_0000_0000,
    ensures
        *final(t) == (TreeView {
            cursor: clamped(old(t).cursor + delta, old(t).rows@.len() as int) as usize,
            ..*old(t)
        }),
{
    let n: usize = t.rows.len();
    let to: i128 = t.cursor as i128 + delta;
    t.cursor = if n == 0 || to < 0 {
        0
    } else if to >= n as i128 {
        n - 1
    } else {
        to as usize
    };
}

/// Moves the cursor by a screenful, up or down.
pub fn tree_page(t: &mut TreeView, down: bool)
    ensures
        *final(t) == (TreeView {
            cursor: clamped(
                if down {
                    old(t).cursor + text::most(old(t).view_height as int, 1)
                } else {
                    old(t).cursor - text::most(old(t).view_height as int, 1)
                },
                old(t).rows@.len() as int,
            ) as usize,
            ..*old(t)
        }),
{
    let page: i128 = if t.view_height > 1 {
        t.view_height as i128
    } else {
        1
    };
    if down {
        tree_move(t, page);
    } else {
        tree_move(t, 0 - page);
    }
}

/// Opens the node under the cursor.
pub fn tree_expand_under_cursor(t: &mut TreeView)
    requires
        old(t).wf(),
    ensures
        final(t).wf(),
        match old(t).row() {
            Some(row) => {
                &&& library::opened(old(t).tree@, old(t).fold, final(t).fold, row)
                &&& final(t).fresh()
                &&& *final(t) == (TreeView { fold: final(t).fold, rows: final(t).rows, ..*old(t) })
            },
            None => *final(t) == *old(t),
        },
{
    match tree_row_at_cursor(t) {
        Some(row) => {
            assert(library::row_in(t.tree@, t.rows@[t.cursor as int]));
            expand(&t.tree, &mut t.fold, row);
            refresh_tree_rows(t);
        },
        None => {},
    }
}

/// The node that closes under the cursor: of a track its album.
pub open spec fn closing_row(row: VisibleRow) -> VisibleRow {
    match row {
        VisibleRow::Track { artist, album, .. } => VisibleRow::Album { artist, album },
        _ => row,
    }
}

/// Where the cursor stands after a node was closed: on the album that a track
/// was closed into, as far as that is shown; else where it was.
pub open spec fn closed_cursor(cursor: int, row: VisibleRow, rows: Seq<VisibleRow>) -> int {
    match (row, row_place(rows, closing_row(row), 0)) {
        (VisibleRow::Track { .. }, Some(p)) => p,
        _ => clamped(cursor, rows.len() as int),
    }
}

fn find_row(rows: &Vec<VisibleRow>, row: VisibleRow) -> (r: Option<usize>)
    ensures
        match r {
            Some(i) => i < rows@.len() && row_place(rows@, row, 0) == Some(i as int),
            None => row_place(rows@, row, 0) is None,
        },
{
    let mut i: usize = 0;
    while i < rows.len()
        invariant
            i <= rows@.len(),
            row_place(rows@, row, i as int) == row_place(rows@, row, 0),
        decreases rows@.len() - i,
    {
        if rows[i] == row {
            return Some(i);
        }
        i = i + 1;
    }
    None
}

/// Closes the node under the cursor. On a track its album closes, and the cursor
/// goes to it.
pub fn tree_collapse_under_cursor(t: &mut TreeView)
    requires
        old(t).wf(),
    ensures
        final(t).wf(),
        match old(t).row() {
            Some(row) => {
                &&& library::closed_at(old(t).tree@, old(t).fold, final(t).fold, closing_row(row))
                &&& final(t).fresh()
                &&& final(t).cursor == closed_cursor(old(t).cursor as int, row, final(t).rows@)
                &&& *final(t) == (TreeView {
                    fold: final(t).fold,
                    rows: final(t).rows,
                    cursor: final(t).cursor,
                    ..*old(t)
                })
            },
            None => *final(t) == (TreeView {
                cursor: clamped(old(t).cursor as int, old(t).rows@.len() as int) as usize,
                ..*old(t)
            }),
        },
{
    match tree_row_at_cursor(t) {
        Some(row) => {
            assert(library::row_in(t.tree@, t.rows@[t.cursor as int]));
            match row {
                VisibleRow::Track { artist, album, .. } => {
                    let album_row: VisibleRow = VisibleRow::Album { artist, album };
                    collapse(&t.tree, &mut t.fold, album_row);
                    refresh_tree_rows(t);
                    match find_row(&t.rows, album_row) {
                        Some(p) => {
                            t.cursor = p;
                            return;
                        },
                        None => {},
                    }
                },
                _ => {
                    collapse(&t.tree, &mut t.fold, row);
                    refresh_tree_rows(t);
                },
            }
        },
        None => {},
    }
    clamp_cursor(t);
}

/// The playlist place that is played from the row under the cursor: the first
/// track under it.
pub fn tree_cursor_play_index(t: &TreeView) -> (r: Option<usize>)
    requires
        t.wf(),
    ensures
        match t.row() {
            Some(row) => match r {
                Some(i) => library::first_place(library::places_under(t.tree@, row)) == Some(i as int),
                None => library::first_place(library::places_under(t.tree@, row)) is None,
            },
            None => r is None,
        },
{
    match tree_row_at_cursor(t) {
        Some(row) => {
            assert(library::row_in(t.tree@, t.rows@[t.cursor as int]));
            first_track_index(&t.tree, row)
        },
        None => None,
    }
}

/// Rows that are kept between the cursor and the edge of the screen.
pub open spec fn margin_of(height: int) -> int {
    text::least(4, height / 2)
}

/// The first row on the screen, so that the cursor is on it with a margin, and
/// no room is left behind the last row.
pub open spec fn scrolled(cursor: int, scroll: int, height: int, n: int) -> int {
    let m = margin_of(height);
    let to = if cursor < scroll + m {
        text::minus(cursor, m)
    } else if cursor + m + 1 > scroll + height {
        text::minus(cursor + m + 1, height)
    } else {
        scroll
    };
    text::least(to, text::minus(n, height))
}

/// Moves the screen with the cursor, and notes its height.
fn scroll_tree(t: &mut TreeView, height: usize)
    ensures
        *final(t) == (TreeView {
            cursor: clamped(old(t).cursor as int, old(t).rows@.len() as int) as usize,
            scroll: scrolled(
                clamped(old(t).cursor as int, old(t).rows@.len() as int),
                old(t).scroll as int,
                height as int,
                old(t).rows@.len() as int,
            ) as usize,
            view_height: height,
            ..*old(t)
        }),
        final(t).scroll <= final(t).rows@.len(),
{
    clamp_cursor(t);
    t.view_height = height;
    let n: u128 = t.rows.len() as u128;
    let h: u128 = height as u128;
    let m: u128 = if h / 2 < 4 {
        h / 2
    } else {
        4
    };
    let c: u128 = t.cursor as u128;
    let s: u128 = t.scroll as u128;
    let mut to: u128 = s;
    if c < s + m {
        to = if c < m {
            0
        } else {
            c - m
        };
    } else if c + m + 1 > s + h {
        to = if c + m + 1 < h {
            0
        } else {
            c + m + 1 - h
        };
    }
    let max: u128 = if n < h {
        0
    } else {
        n - h
    };
    if to > max {
        to = max;
    }
    t.scroll = to as usize;
}

/// The lines of the tree for a screen of some height: the cursor is brought onto
/// it first.
pub fn render_tree_body(t: &mut TreeView, height: usize, width: usize, p: &Palette, current: usize) -> (lines: Vec<
    String,
>)
    requires
        old(t).wf(),
    ensures
        final(t).wf(),
        *final(t) == (TreeView {
            cursor: clamped(old(t).cursor as int, old(t).rows@.len() as int) as usize,
            scroll: scrolled(
                clamped(old(t).cursor as int, old(t).rows@.len() as int),
                old(t).scroll as int,
                height as int,
                old(t).rows@.len() as int,
            ) as usize,
            view_height: height,
            ..*old(t)
        }),
        lines@.len() == text::least(height as int, final(t).rows@.len() - final(t).scroll),
        forall|i: int|
            0 <= i < lines@.len() ==> (#[trigger] lines@[i])@ == tree_line(*final(t), i, width as int, *p, current),
{
    scroll_tree(t, height);
    render_library_tree(&t.tree, &t.fold, &t.rows, t.cursor, t.scroll, height, width, p, Some(current))
}

/// Line `i` of the tree on the screen.
pub open spec fn tree_line(t: TreeView, i: int, width: int, p: Palette, current: usize) -> Seq<char> {
    library::row_line(
        t.tree@,
        t.fold,
        t.rows@[t.scroll + i],
        t.scroll + i == t.cursor,
        width,
        p,
        Some(current),
    )
}

/// The row under the cursor is always on the screen, where the screen has any
/// rows.
pub proof fn cursor_is_on_the_screen(cursor: int, scroll: int, height: int, n: int)
    requires
        0 <= cursor < n,
        0 <= scroll,
        0 < height,
    ensures
        scrolled(cursor, scroll, height, n) <= cursor < scrolled(cursor, scroll, height, n) + height,
{
}

} // verus!
