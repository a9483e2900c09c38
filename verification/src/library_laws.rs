//! What holds of the library tree as a whole.
use crate::library;
use crate::library::{AlbumV, ArtistV, FoldState, LibraryTree, TrackTags, TrackV, VisibleRow};
use crate::order;
use crate::text;
use vstd::prelude::*;

verus! {

/// The playlist places of the tracks of the first `n` artists.
pub open spec fn artists_places(tree: Seq<ArtistV>, n: int) -> Seq<int>
    decreases n,
{
    if n <= 0 {
        Seq::empty()
    } else {
        artists_places(tree, n - 1) + library::albums_places(tree[n - 1], tree[n - 1].albums.len() as int)
    }
}

/// The playlist places of all tracks of the tree, from top to bottom.
pub open spec fn all_places(tree: Seq<ArtistV>) -> Seq<int> {
    artists_places(tree, tree.len() as int)
}

proof fn lemma_artists_prefix(t: Seq<ArtistV>, u: Seq<ArtistV>, n: int)
    requires
        n <= t.len(),
        n <= u.len(),
        forall|i: int| 0 <= i < n ==> t[i] == u[i],
    ensures
        artists_places(t, n) == artists_places(u, n),
    decreases n,
{
    if n > 0 {
        lemma_artists_prefix(t, u, n - 1);
    }
}

proof fn lemma_albums_prefix(a: ArtistV, b: ArtistV, n: int)
    requires
        n <= a.albums.len(),
        n <= b.albums.len(),
        forall|i: int| 0 <= i < n ==> a.albums[i] == b.albums[i],
    ensures
        library::albums_places(a, n) == library::albums_places(b, n),
    decreases n,
{
    if n > 0 {
        lemma_albums_prefix(a, b, n - 1);
    }
}

/// A track added to the tree comes behind all others.
proof fn lemma_with_track_places(tree: Seq<ArtistV>, tag: TrackTags, index: int)
    ensures
        all_places(library::with_track(tree, tag, index)) == all_places(tree).push(index),
{
    let r = library::with_track(tree, tag, index);
    let artist = tag.filed_artist();
    let album = tag.filed_album();
    let fresh_artist = tree.len() == 0 || text::folded(tree.last().name) != text::folded(artist);
    let artists = if fresh_artist {
        tree.push(ArtistV { name: artist, albums: Seq::empty() })
    } else {
        tree
    };
    let a = artists.last();
    let fresh_album = a.albums.len() == 0 || text::folded(a.albums.last().name) != text::folded(album);
    let albums = if fresh_album {
        a.albums.push(AlbumV { name: album, tracks: Seq::empty() })
    } else {
        a.albums
    };
    let al = albums.last();
    let track = TrackV { index, title: tag.title@, track: tag.track };
    let al2 = AlbumV { name: al.name, tracks: al.tracks.push(track) };
    let a2 = ArtistV { name: a.name, albums: albums.drop_last().push(al2) };
    assert(r == artists.drop_last().push(a2));
    let k = artists.len() - 1;
    let m = albums.len() - 1;
    assert(library::album_places(al2) =~= library::album_places(al).push(index));
    lemma_albums_prefix(a2, a, m);
    let under = library::albums_places(a, a.albums.len() as int);
    assert(library::albums_places(a2, m + 1) =~= under.push(index)) by {
        if fresh_album {
            assert(m == a.albums.len());
            assert(library::album_places(al) =~= Seq::<int>::empty());
        } else {
            assert(m + 1 == a.albums.len());
        }
    }
    lemma_artists_prefix(r, tree, k);
    if fresh_artist {
        assert(under =~= Seq::<int>::empty());
        assert(all_places(r) =~= all_places(tree).push(index));
    } else {
        assert(all_places(r) =~= all_places(tree).push(index));
    }
}

pub proof fn lemma_tree_places(tags: Seq<TrackTags>, p: Seq<int>)
    ensures
        all_places(library::tree_in_order(tags, p)) == p,
    decreases p.len(),
{
    if p.len() > 0 {
        lemma_tree_places(tags, p.drop_last());
        lemma_with_track_places(library::tree_in_order(tags, p.drop_last()), tags[p.last()], p.last());
        assert(p.drop_last().push(p.last()) =~= p);
    } else {
        assert(all_places(library::tree_in_order(tags, p)) =~= p);
    }
}

/// Read from top to bottom, the tree holds every track of the playlist once, in
/// the order of artist, album, disc, number and title.
pub proof fn tree_holds_every_track_once(tags: Seq<TrackTags>)
    ensures
        order::is_order(library::sort_keys(tags), all_places(library::tree_of(tags))),
        all_places(library::tree_of(tags)).len() == tags.len(),
        forall|i: int| 0 <= i < tags.len() ==> #[trigger] all_places(library::tree_of(tags)).contains(i),
{
    let keys = library::sort_keys(tags);
    lemma_tree_places(tags, order::order_of(keys));
    order::order_exists(keys);
}

/// Names in a strict order, letter case left out.
pub open spec fn artists_sorted(tree: Seq<ArtistV>) -> bool {
    forall|i: int, j: int|
        0 <= i < j < tree.len() ==> order::text_less(
            text::folded(#[trigger] tree[i].name),
            text::folded(#[trigger] tree[j].name),
            0,
        )
}

/// Album names in a strict order, letter case left out.
pub open spec fn albums_sorted(a: ArtistV) -> bool {
    forall|i: int, j: int|
        0 <= i < j < a.albums.len() ==> order::text_less(
            text::folded(#[trigger] a.albums[i].name),
            text::folded(#[trigger] a.albums[j].name),
            0,
        )
}

/// Whether every node of the tree holds a track.
pub open spec fn no_empty_node(tree: Seq<ArtistV>) -> bool {
    forall|i: int|
        0 <= i < tree.len() ==> (#[trigger] tree[i]).albums.len() > 0 && forall|j: int|
            0 <= j < tree[i].albums.len() ==> (#[trigger] tree[i].albums[j]).tracks.len() > 0
}

spec fn shaped(tags: Seq<TrackTags>, p: Seq<int>) -> bool {
    let tree = library::tree_in_order(tags, p);
    &&& no_empty_node(tree)
    &&& artists_sorted(tree)
    &&& forall|i: int| 0 <= i < tree.len() ==> albums_sorted(#[trigger] tree[i])
    &&& p.len() > 0 ==> {
        &&& tree.len() > 0
        &&& text::folded(tree.last().name) == text::folded(tags[p.last()].filed_artist())
        &&& text::folded(tree.last().albums.last().name) == text::folded(
            tags[p.last()].filed_album(),
        )
    }
}

proof fn lemma_key_parts(a: TrackTags, b: TrackTags)
    requires
        order::key_less(a.sort_key(), b.sort_key(), 0) || a.sort_key() == b.sort_key(),
    ensures
        ({
            let x = text::folded(a.filed_artist());
            let y = text::folded(b.filed_artist());
            let u = text::folded(a.filed_album());
            let v = text::folded(b.filed_album());
            &&& x == y || order::text_less(x, y, 0)
            &&& x == y ==> u == v || order::text_less(u, v, 0)
        }),
{
    let ka = a.sort_key();
    let kb = b.sort_key();
    reveal_with_fuel(order::key_less, 3);
    assert(ka[0] == order::PartView::Text(text::folded(a.filed_artist())));
    assert(kb[0] == order::PartView::Text(text::folded(b.filed_artist())));
    assert(ka[1] == order::PartView::Text(text::folded(a.filed_album())));
    assert(kb[1] == order::PartView::Text(text::folded(b.filed_album())));
}

proof fn lemma_shaped(tags: Seq<TrackTags>, p: Seq<int>)
    requires
        forall|r: int| 0 <= r < p.len() ==> 0 <= #[trigger] p[r] < tags.len(),
        forall|r: int, s: int|
            0 <= r < s < p.len() ==> order::before(
                library::sort_keys(tags),
                #[trigger] p[r],
                #[trigger] p[s],
            ),
    ensures
        shaped(tags, p),
    decreases p.len(),
{
    if p.len() > 0 {
        let q = p.drop_last();
        lemma_shaped(tags, q);
        let tree = library::tree_in_order(tags, q);
        let tag = tags[p.last()];
        let r = library::tree_in_order(tags, p);
        let artist = tag.filed_artist();
        let album = tag.filed_album();
        let fresh_artist = tree.len() == 0 || text::folded(tree.last().name) != text::folded(artist);
        let artists = if fresh_artist {
            tree.push(ArtistV { name: artist, albums: Seq::empty() })
        } else {
            tree
        };
        let a = artists.last();
        let fresh_album = a.albums.len() == 0 || text::folded(a.albums.last().name) != text::folded(
            album,
        );
        if q.len() > 0 {
            let n = p.len() as int;
            assert(p[n - 2] == q.last());
            assert(order::before(library::sort_keys(tags), p[n - 2], p[n - 1]));
            assert(library::sort_keys(tags)[p[n - 2]] == tags[p[n - 2]].sort_key());
            assert(library::sort_keys(tags)[p[n - 1]] == tags[p[n - 1]].sort_key());
            lemma_key_parts(tags[p[n - 2]], tags[p[n - 1]]);
        }
        let k = artists.len() - 1;
        assert(r.len() == artists.len());
        assert(forall|i: int| 0 <= i < k ==> r[i] == tree[i]);
        assert(r[k].name == a.name);
        assert(artists_sorted(r)) by {
            assert forall|i: int, j: int| 0 <= i < j < r.len() implies order::text_less(
                text::folded(#[trigger] r[i].name),
                text::folded(#[trigger] r[j].name),
                0,
            ) by {
                if j == k && fresh_artist {
                    let last = tree.len() - 1;
                    if i < last {
                        assert(order::text_less(
                            text::folded(tree[i].name),
                            text::folded(tree[last].name),
                            0,
                        ));
                        order::lemma_text_trans(
                            text::folded(tree[i].name),
                            text::folded(tree[last].name),
                            text::folded(artist),
                            0,
                        );
                    }
                } else {
                    assert(tree[i].name == r[i].name && tree[j].name == r[j].name);
                }
            }
        }
        let m = r[k].albums.len() - 1;
        assert(albums_sorted(r[k])) by {
            if fresh_artist {
                assert(r[k].albums.len() == 1);
            } else {
                assert(albums_sorted(tree[k]));
                assert forall|i: int, j: int| 0 <= i < j < r[k].albums.len() implies order::text_less(
                    text::folded(#[trigger] r[k].albums[i].name),
                    text::folded(#[trigger] r[k].albums[j].name),
                    0,
                ) by {
                    if j == m && fresh_album {
                        let last = a.albums.len() - 1;
                        if i < last {
                            assert(order::text_less(
                                text::folded(tree[k].albums[i].name),
                                text::folded(tree[k].albums[last].name),
                                0,
                            ));
                            order::lemma_text_trans(
                                text::folded(a.albums[i].name),
                                text::folded(a.albums[last].name),
                                text::folded(album),
                                0,
                            );
                        }
                    } else {
                        assert(tree[k].albums[i].name == r[k].albums[i].name);
                        assert(tree[k].albums[j].name == r[k].albums[j].name);
                    }
                }
            }
        }
        assert(no_empty_node(r)) by {
            assert forall|i: int| 0 <= i < r.len() implies (#[trigger] r[i]).albums.len() > 0 && forall|j: int|
                0 <= j < r[i].albums.len() ==> (#[trigger] r[i].albums[j]).tracks.len() > 0 by {
                if i < k {
                    assert(r[i] == tree[i]);
                } else {
                    assert forall|j: int| 0 <= j < r[i].albums.len() implies (#[trigger] r[i].albums[j]).tracks.len()
                        > 0 by {
                        if j < m {
                            assert(r[k].albums[j] == tree[k].albums[j]);
                        }
                    }
                }
            }
        }
    }
}

/// The tree is sorted: artists by name, and the albums of each by name, with
/// letter case left out. Names that differ only in case are one node.
pub proof fn tree_is_sorted_and_merged(tags: Seq<TrackTags>)
    ensures
        artists_sorted(library::tree_of(tags)),
        forall|i: int|
            0 <= i < library::tree_of(tags).len() ==> albums_sorted(#[trigger] library::tree_of(tags)[i]),
{
    let keys = library::sort_keys(tags);
    order::order_exists(keys);
    lemma_shaped(tags, order::order_of(keys));
}

/// Every node of the tree holds a track, so playing or removing it does
/// something.
pub proof fn tree_has_no_empty_node(tags: Seq<TrackTags>)
    ensures
        no_empty_node(library::tree_of(tags)),
{
    let keys = library::sort_keys(tags);
    order::order_exists(keys);
    lemma_shaped(tags, order::order_of(keys));
}

/// Whether rows stand for nodes of the tree.
pub open spec fn rows_in(tree: Seq<ArtistV>, rows: Seq<VisibleRow>) -> bool {
    forall|i: int| 0 <= i < rows.len() ==> library::row_in(tree, #[trigger] rows[i])
}

/// Whether places in the tree can be counted by a `usize`, as those of a tree in
/// memory can.
pub open spec fn countable(tree: Seq<ArtistV>) -> bool {
    &&& tree.len() <= usize::MAX
    &&& forall|i: int| 0 <= i < tree.len() ==> (#[trigger] tree[i]).albums.len() <= usize::MAX && forall|j: int|
        0 <= j < tree[i].albums.len() ==> (#[trigger] tree[i].albums[j]).tracks.len() <= usize::MAX
}

/// A tree in memory can be counted.
pub proof fn trees_are_countable(tree: &LibraryTree)
    ensures
        countable(tree@),
{
    assert(tree.artists.len() == tree.artists@.len());
    assert forall|i: int| 0 <= i < tree@.len() implies (#[trigger] tree@[i]).albums.len() <= usize::MAX && forall|
        j: int,
    |
        0 <= j < tree@[i].albums.len() ==> (#[trigger] tree@[i].albums[j]).tracks.len() <= usize::MAX by {
        let a = tree.artists@[i];
        assert(tree@[i] == a@);
        assert(a.albums.len() == a.albums@.len());
        assert forall|j: int| 0 <= j < tree@[i].albums.len() implies (#[trigger] tree@[i].albums[j]).tracks.len()
            <= usize::MAX by {
            let al = a.albums@[j];
            assert(a@.albums[j] == al@);
            assert(al.tracks.len() == al.tracks@.len());
        }
    }
}

proof fn lemma_albums_rows_in(tree: Seq<ArtistV>, fold: FoldState, ai: int, n: int)
    requires
        countable(tree),
        0 <= ai < tree.len(),
        0 <= n <= tree[ai].albums.len(),
    ensures
        rows_in(tree, library::albums_rows(tree, fold, ai, n)),
    decreases n,
{
    if n > 0 {
        lemma_albums_rows_in(tree, fold, ai, n - 1);
        assert(tree[ai].albums[n - 1].tracks.len() <= usize::MAX);
    }
}

proof fn lemma_artists_rows_in(tree: Seq<ArtistV>, fold: FoldState, n: int)
    requires
        countable(tree),
        0 <= n <= tree.len(),
    ensures
        rows_in(tree, library::artists_rows(tree, fold, n)),
    decreases n,
{
    if n > 0 {
        lemma_artists_rows_in(tree, fold, n - 1);
        lemma_albums_rows_in(tree, fold, n - 1, tree[n - 1].albums.len() as int);
    }
}

/// Every row on the screen stands for a node of the tree.
pub proof fn visible_rows_are_nodes(tree: Seq<ArtistV>, fold: FoldState)
    requires
        countable(tree),
    ensures
        rows_in(tree, library::rows_of(tree, fold)),
{
    lemma_artists_rows_in(tree, fold, tree.len() as int);
}

proof fn lemma_shown_tracks_in(tree: Seq<ArtistV>, q: Seq<char>, ai: int, bi: int, n: int)
    requires
        countable(tree),
        0 <= ai < tree.len(),
        0 <= bi < tree[ai].albums.len(),
        0 <= n <= tree[ai].albums[bi].tracks.len(),
    ensures
        rows_in(tree, library::shown_tracks(tree, q, ai, bi, n)),
        forall|ti: int|
            0 <= ti < n ==> (#[trigger] library::shows(tree, q, ai, bi, ti)
                <==> library::shown_tracks(tree, q, ai, bi, n).contains(
                VisibleRow::Track { artist: ai as usize, album: bi as usize, track: ti as usize },
            )),
        forall|k: int|
            0 <= k < library::shown_tracks(tree, q, ai, bi, n).len() ==> {
                let row = #[trigger] library::shown_tracks(tree, q, ai, bi, n)[k];
                row matches VisibleRow::Track { artist, album, track } && artist == ai && album == bi
                    && track < n
            },
    decreases n,
{
    if n > 0 {
        lemma_shown_tracks_in(tree, q, ai, bi, n - 1);
        let prev = library::shown_tracks(tree, q, ai, bi, n - 1);
        let cur = library::shown_tracks(tree, q, ai, bi, n);
        assert(tree[ai].albums[bi].tracks.len() <= usize::MAX);
        let last = VisibleRow::Track { artist: ai as usize, album: bi as usize, track: (n - 1) as usize };
        assert forall|ti: int| 0 <= ti < n implies (#[trigger] library::shows(tree, q, ai, bi, ti)
            <==> cur.contains(
            VisibleRow::Track { artist: ai as usize, album: bi as usize, track: ti as usize },
        )) by {
            let row = VisibleRow::Track { artist: ai as usize, album: bi as usize, track: ti as usize };
            if ti < n - 1 {
                if prev.contains(row) {
                    let k = choose|k: int| 0 <= k < prev.len() && prev[k] == row;
                    assert(cur[k] == row);
                }
                if cur.contains(row) {
                    let k = choose|k: int| 0 <= k < cur.len() && cur[k] == row;
                    assert(row != last);
                    assert(prev[k] == row);
                }
            } else {
                if library::shows(tree, q, ai, bi, n - 1) {
                    assert(cur[cur.len() - 1] == last);
                } else if cur.contains(row) {
                    let k = choose|k: int| 0 <= k < cur.len() && cur[k] == row;
                    assert(prev[k] == row);
                }
            }
        }
    }
}

/// Within an album, the filter shows the tracks it matches and no others.
pub proof fn filter_shows_what_it_matches(tree: Seq<ArtistV>, q: Seq<char>, ai: int, bi: int, ti: int)
    requires
        countable(tree),
        0 <= ai < tree.len(),
        0 <= bi < tree[ai].albums.len(),
        0 <= ti < tree[ai].albums[bi].tracks.len(),
    ensures
        library::shows(tree, q, ai, bi, ti) <==> library::shown_tracks(
            tree,
            q,
            ai,
            bi,
            tree[ai].albums[bi].tracks.len() as int,
        ).contains(VisibleRow::Track { artist: ai as usize, album: bi as usize, track: ti as usize }),
{
    lemma_shown_tracks_in(tree, q, ai, bi, tree[ai].albums[bi].tracks.len() as int);
}

proof fn lemma_shown_albums_in(tree: Seq<ArtistV>, q: Seq<char>, ai: int, n: int)
    requires
        countable(tree),
        0 <= ai < tree.len(),
        0 <= n <= tree[ai].albums.len(),
    ensures
        rows_in(tree, library::shown_albums(tree, q, ai, n)),
    decreases n,
{
    if n > 0 {
        lemma_shown_albums_in(tree, q, ai, n - 1);
        lemma_shown_tracks_in(tree, q, ai, n - 1, tree[ai].albums[n - 1].tracks.len() as int);
    }
}

proof fn lemma_shown_artists_in(tree: Seq<ArtistV>, q: Seq<char>, n: int)
    requires
        countable(tree),
        0 <= n <= tree.len(),
    ensures
        rows_in(tree, library::shown_artists(tree, q, n)),
    decreases n,
{
    if n > 0 {
        lemma_shown_artists_in(tree, q, n - 1);
        lemma_shown_albums_in(tree, q, n - 1, tree[n - 1].albums.len() as int);
    }
}

/// Every row that a filter leaves stands for a node of the tree.
pub proof fn filtered_rows_are_nodes(tree: Seq<ArtistV>, query: Seq<char>)
    requires
        countable(tree),
    ensures
        rows_in(tree, library::filtered_rows(tree, query)),
{
    lemma_shown_artists_in(tree, text::folded(query), tree.len() as int);
}

/// With nothing open, the tree shows its artists and nothing else.
pub proof fn closed_tree_shows_artists(tree: Seq<ArtistV>, fold: FoldState)
    requires
        fold.expanded_artists@ == Set::<Seq<char>>::empty(),
    ensures
        library::rows_of(tree, fold) == Seq::new(
            tree.len(),
            |i: int| VisibleRow::Artist { artist: i as usize },
        ),
{
    lemma_closed_rows(tree, fold, tree.len() as int);
}

proof fn lemma_closed_rows(tree: Seq<ArtistV>, fold: FoldState, n: int)
    requires
        fold.expanded_artists@ == Set::<Seq<char>>::empty(),
        0 <= n <= tree.len(),
    ensures
        library::artists_rows(tree, fold, n) == Seq::new(
            n as nat,
            |i: int| VisibleRow::Artist { artist: i as usize },
        ),
    decreases n,
{
    if n > 0 {
        lemma_closed_rows(tree, fold, n - 1);
    }
    assert(library::artists_rows(tree, fold, n) =~= Seq::new(
        n as nat,
        |i: int| VisibleRow::Artist { artist: i as usize },
    ));
}

/// Whether two fold states have the same nodes open.
pub open spec fn same_folds(a: FoldState, b: FoldState) -> bool {
    a.expanded_artists@ == b.expanded_artists@ && a.expanded_albums@ == b.expanded_albums@
}

/// Whether the node of a row is open; a track is never open.
pub open spec fn node_open(tree: Seq<ArtistV>, fold: FoldState, row: VisibleRow) -> bool {
    match row {
        VisibleRow::Artist { artist } => fold.artist_open(tree[artist as int]),
        VisibleRow::Album { artist, album } => fold.album_open(
            tree[artist as int],
            tree[artist as int].albums[album as int],
        ),
        VisibleRow::Track { .. } => false,
    }
}

/// Closing what was just opened brings back what was.
pub proof fn closing_undoes_opening(
    tree: Seq<ArtistV>,
    fold: FoldState,
    open: FoldState,
    after: FoldState,
    row: VisibleRow,
)
    requires
        !node_open(tree, fold, row),
        library::opened(tree, fold, open, row),
        library::closed_at(tree, open, after, row),
    ensures
        same_folds(after, fold),
        !(row is Track) ==> node_open(tree, open, row),
{
    assert(after.expanded_artists@ =~= fold.expanded_artists@);
    assert(after.expanded_albums@ =~= fold.expanded_albums@);
}

/// Opening an open node, or closing a closed one, changes nothing.
pub proof fn folding_is_idempotent(
    tree: Seq<ArtistV>,
    fold: FoldState,
    after: FoldState,
    row: VisibleRow,
)
    ensures
        library::opened(tree, fold, after, row) && node_open(tree, fold, row) ==> same_folds(after, fold),
        library::closed_at(tree, fold, after, row) && !node_open(tree, fold, row) ==> same_folds(after, fold),
{
    if library::opened(tree, fold, after, row) && node_open(tree, fold, row) {
        assert(after.expanded_artists@ =~= fold.expanded_artists@);
        assert(after.expanded_albums@ =~= fold.expanded_albums@);
    }
    if library::closed_at(tree, fold, after, row) && !node_open(tree, fold, row) {
        assert(after.expanded_artists@ =~= fold.expanded_artists@);
        assert(after.expanded_albums@ =~= fold.expanded_albums@);
    }
}

} // verus!
