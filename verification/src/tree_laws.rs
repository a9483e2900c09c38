//! What a listener can count on of the library's tree: where a track stands in it,
//! and which rows are shown.
use crate::library;
use crate::library::{AlbumV, ArtistV, FoldState, LibraryTree, TrackTags, TrackV, VisibleRow};
use crate::library_laws;
use crate::list_laws;
use crate::order;
use crate::text;
use crate::tree_view;
use crate::tree_view::TreeView;
use vstd::prelude::*;

verus! {

/// The artist that a track is filed under.
pub open spec fn artist_of(t: TrackTags) -> Seq<char> {
    match t.artist {
        Some(a) => a@,
        None => "Unknown Artist"@,
    }
}

/// The album that a track is filed under.
pub open spec fn album_of(t: TrackTags) -> Seq<char> {
    match t.album {
        Some(a) => a@,
        None => "Unknown Album"@,
    }
}

/// Whether a track stands for one of the playlist, under its artist and its album.
pub open spec fn is_filed(tags: Seq<TrackTags>, a: ArtistV, al: AlbumV, t: TrackV) -> bool {
    &&& 0 <= t.index < tags.len()
    &&& t.title == tags[t.index].title@
    &&& t.track == tags[t.index].track
    &&& text::folded(a.name) == text::folded(artist_of(tags[t.index]))
    &&& text::folded(al.name) == text::folded(album_of(tags[t.index]))
}

spec fn all_filed(tags: Seq<TrackTags>, tree: Seq<ArtistV>) -> bool {
    forall|ai: int, bi: int, ti: int|
        0 <= ai < tree.len() && 0 <= bi < tree[ai].albums.len() && 0 <= ti < tree[ai].albums[bi].tracks.len()
            ==> is_filed(tags, tree[ai], tree[ai].albums[bi], #[trigger] tree[ai].albums[bi].tracks[ti])
}

proof fn lemma_with_track(tags: Seq<TrackTags>, tree: Seq<ArtistV>, index: int)
    requires
        all_filed(tags, tree),
        0 <= index < tags.len(),
    ensures
        all_filed(tags, library::with_track(tree, tags[index], index)),
{
    let r = library::with_track(tree, tags[index], index);
    assert forall|ai: int, bi: int, ti: int|
        0 <= ai < r.len() && 0 <= bi < r[ai].albums.len() && 0 <= ti < r[ai].albums[bi].tracks.len() implies is_filed(
        tags,
        r[ai],
        r[ai].albums[bi],
        #[trigger] r[ai].albums[bi].tracks[ti],
    ) by {
        if ai < tree.len() && bi < tree[ai].albums.len() && ti < tree[ai].albums[bi].tracks.len() {
            assert(is_filed(tags, tree[ai], tree[ai].albums[bi], tree[ai].albums[bi].tracks[ti]));
        }
    }
}

proof fn lemma_tree_filed(tags: Seq<TrackTags>, p: Seq<int>)
    requires
        forall|i: int| 0 <= i < p.len() ==> 0 <= #[trigger] p[i] < tags.len(),
    ensures
        all_filed(tags, library::tree_in_order(tags, p)),
    decreases p.len(),
{
    if p.len() > 0 {
        lemma_tree_filed(tags, p.drop_last());
        assert(0 <= p[p.len() - 1] < tags.len());
        lemma_with_track(tags, library::tree_in_order(tags, p.drop_last()), p.last());
    }
}

/// Every track of the tree is one of the playlist, with its title and its number,
/// and stands under its artist and its album, or under the unknown ones.
pub proof fn tracks_stand_under_their_albums(tags: Vec<TrackTags>, tree: LibraryTree, ai: int, bi: int, ti: int)
    requires
        call_ensures(library::build, (&tags,), tree),
        0 <= ai < tree@.len(),
        0 <= bi < tree@[ai].albums.len(),
        0 <= ti < tree@[ai].albums[bi].tracks.len(),
    ensures
        is_filed(tags@, tree@[ai], tree@[ai].albums[bi], tree@[ai].albums[bi].tracks[ti]),
{
    order::order_exists(library::sort_keys(tags@));
    lemma_tree_filed(tags@, order::order_of(library::sort_keys(tags@)));
}

proof fn lemma_albums_offset(a: ArtistV, n: int, bi: int) -> (off: int)
    requires
        0 <= bi < n <= a.albums.len(),
    ensures
        0 <= off,
        off + a.albums[bi].tracks.len() <= library::albums_places(a, n).len(),
        forall|ti: int|
            0 <= ti < a.albums[bi].tracks.len() ==> library::albums_places(a, n)[off + ti] == (
            #[trigger] a.albums[bi].tracks[ti]).index,
    decreases n,
{
    let head = library::albums_places(a, n - 1);
    let last = library::album_places(a.albums[n - 1]);
    if bi < n - 1 {
        lemma_albums_offset(a, n - 1, bi)
    } else {
        assert forall|ti: int| 0 <= ti < a.albums[bi].tracks.len() implies library::albums_places(
            a,
            n,
        )[head.len() + ti] == (#[trigger] a.albums[bi].tracks[ti]).index by {
            assert(last[ti] == a.albums[bi].tracks[ti].index);
        }
        head.len() as int
    }
}

proof fn lemma_offset(tree: Seq<ArtistV>, n: int, ai: int, bi: int) -> (off: int)
    requires
        0 <= ai < n <= tree.len(),
        0 <= bi < tree[ai].albums.len(),
    ensures
        0 <= off,
        off + tree[ai].albums[bi].tracks.len() <= library_laws::artists_places(tree, n).len(),
        forall|ti: int|
            0 <= ti < tree[ai].albums[bi].tracks.len() ==> library_laws::artists_places(tree, n)[off + ti] == (
            #[trigger] tree[ai].albums[bi].tracks[ti]).index,
    decreases n,
{
    let head = library_laws::artists_places(tree, n - 1);
    if ai < n - 1 {
        lemma_offset(tree, n - 1, ai, bi)
    } else {
        let a = tree[n - 1];
        let last = library::albums_places(a, a.albums.len() as int);
        let off = lemma_albums_offset(a, a.albums.len() as int, bi);
        assert forall|ti: int| 0 <= ti < tree[ai].albums[bi].tracks.len() implies library_laws::artists_places(
            tree,
            n,
        )[head.len() + off + ti] == (#[trigger] tree[ai].albums[bi].tracks[ti]).index by {
            assert(last[off + ti] == a.albums[bi].tracks[ti].index);
        }
        head.len() + off
    }
}

/// The number of a tag, or 0.
pub open spec fn numbered(n: Option<u32>) -> int {
    match n {
        Some(n) => n as int,
        None => 0,
    }
}

/// Within an album the tracks stand by disc, those of a disc by number, and only
/// those with one number by title.
pub proof fn albums_are_in_order(tags: Vec<TrackTags>, tree: LibraryTree, ai: int, bi: int, ti: int, tj: int)
    requires
        call_ensures(library::build, (&tags,), tree),
        0 <= ai < tree@.len(),
        0 <= bi < tree@[ai].albums.len(),
        0 <= ti < tj < tree@[ai].albums[bi].tracks.len(),
    ensures
        ({
            let x = tags@[tree@[ai].albums[bi].tracks[ti].index];
            let y = tags@[tree@[ai].albums[bi].tracks[tj].index];
            &&& numbered(x.disc) <= numbered(y.disc)
            &&& numbered(x.disc) == numbered(y.disc) ==> numbered(x.track) <= numbered(y.track)
            &&& numbered(x.disc) == numbered(y.disc) && numbered(x.track) == numbered(y.track)
                ==> !list_laws::comes_first(text::folded(y.title@), text::folded(x.title@))
        }),
{
    let keys = library::sort_keys(tags@);
    order::order_exists(keys);
    let p = order::order_of(keys);
    library_laws::lemma_tree_places(tags@, p);
    let off = lemma_offset(tree@, tree@.len() as int, ai, bi);
    let tracks = tree@[ai].albums[bi].tracks;
    assert(library_laws::all_places(tree@) == p);
    assert(p[off + ti] == tracks[ti].index);
    assert(p[off + tj] == tracks[tj].index);
    tracks_stand_under_their_albums(tags, tree, ai, bi, ti);
    tracks_stand_under_their_albums(tags, tree, ai, bi, tj);
    let i = tracks[ti].index;
    let j = tracks[tj].index;
    assert(order::before(keys, p[off + ti], p[off + tj]));
    let x = tags@[i].sort_key();
    let y = tags@[j].sort_key();
    assert(keys[i] == x && keys[j] == y);
    assert(x[0] == y[0] && x[1] == y[1]);
    reveal_with_fuel(order::key_less, 6);
    if list_laws::comes_first(text::folded(tags@[j].title@), text::folded(tags@[i].title@)) {
        list_laws::lemma_text_first(text::folded(tags@[j].title@), text::folded(tags@[i].title@));
        order::order_goes_one_way(keys, i, j);
        if numbered(tags@[i].disc) == numbered(tags@[j].disc) && numbered(tags@[i].track) == numbered(tags@[j].track) {
            assert(order::key_less(y, x, 0));
            assert(order::before(keys, j, i));
        }
    }
}

/// The row of an artist.
pub open spec fn artist_row(ai: int) -> VisibleRow {
    VisibleRow::Artist { artist: ai as usize }
}

/// The row of an album.
pub open spec fn album_row(ai: int, bi: int) -> VisibleRow {
    VisibleRow::Album { artist: ai as usize, album: bi as usize }
}

/// The row of a track.
pub open spec fn track_row(ai: int, bi: int, ti: int) -> VisibleRow {
    VisibleRow::Track { artist: ai as usize, album: bi as usize, track: ti as usize }
}

proof fn lemma_contains_sum(a: Seq<VisibleRow>, b: Seq<VisibleRow>, x: VisibleRow)
    ensures
        (a + b).contains(x) <==> a.contains(x) || b.contains(x),
{
    let s = a + b;
    if a.contains(x) {
        let k = choose|k: int| 0 <= k < a.len() && a[k] == x;
        assert(s[k] == x);
    }
    if b.contains(x) {
        let k = choose|k: int| 0 <= k < b.len() && b[k] == x;
        assert(s[a.len() + k] == x);
    }
    if s.contains(x) {
        let k = choose|k: int| 0 <= k < s.len() && s[k] == x;
        if k < a.len() {
            assert(a[k] == x);
        } else {
            assert(b[k - a.len()] == x);
        }
    }
}

proof fn lemma_track_rows(ai: int, bi: int, n: int, x: VisibleRow)
    requires
        0 <= n <= usize::MAX,
    ensures
        library::track_rows(ai, bi, n).contains(x) <==> exists|ti: int| 0 <= ti < n && x == #[trigger] track_row(ai, bi, ti),
{
    let r = library::track_rows(ai, bi, n);
    if r.contains(x) {
        let k = choose|k: int| 0 <= k < r.len() && r[k] == x;
        assert(x == track_row(ai, bi, k));
    }
    if exists|ti: int| 0 <= ti < n && x == #[trigger] track_row(ai, bi, ti) {
        let ti = choose|ti: int| 0 <= ti < n && x == #[trigger] track_row(ai, bi, ti);
        assert(r[ti] == x);
    }
}

spec fn album_shown(tree: Seq<ArtistV>, fold: FoldState, ai: int, bi: int, x: VisibleRow) -> bool {
    x == album_row(ai, bi) || (fold.album_open(tree[ai], tree[ai].albums[bi]) && exists|ti: int|
        0 <= ti < tree[ai].albums[bi].tracks.len() && x == #[trigger] track_row(ai, bi, ti))
}

proof fn lemma_albums_rows(tree: Seq<ArtistV>, fold: FoldState, ai: int, n: int, x: VisibleRow)
    requires
        library_laws::countable(tree),
        0 <= ai < tree.len(),
        0 <= n <= tree[ai].albums.len(),
    ensures
        library::albums_rows(tree, fold, ai, n).contains(x) <==> exists|bi: int|
            0 <= bi < n && #[trigger] album_shown(tree, fold, ai, bi, x),
    decreases n,
{
    if n > 0 {
        lemma_albums_rows(tree, fold, ai, n - 1, x);
        let head = library::albums_rows(tree, fold, ai, n - 1);
        let one = library::album_rows(tree, fold, ai, n - 1);
        lemma_contains_sum(head, one, x);
        let al = tree[ai].albums[n - 1];
        let first = seq![album_row(ai, n - 1)];
        assert(al.tracks.len() <= usize::MAX);
        lemma_track_rows(ai, n - 1, al.tracks.len() as int, x);
        assert(first[0] == album_row(ai, n - 1));
        assert(first.contains(x) <==> x == album_row(ai, n - 1));
        if fold.album_open(tree[ai], al) {
            lemma_contains_sum(first, library::track_rows(ai, n - 1, al.tracks.len() as int), x);
        } else {
            lemma_contains_sum(first, Seq::empty(), x);
            assert(!Seq::<VisibleRow>::empty().contains(x));
        }
        assert(one.contains(x) <==> album_shown(tree, fold, ai, n - 1, x));
        if exists|bi: int| 0 <= bi < n && #[trigger] album_shown(tree, fold, ai, bi, x) {
            let bi = choose|bi: int| 0 <= bi < n && #[trigger] album_shown(tree, fold, ai, bi, x);
            if bi < n - 1 {
                assert(head.contains(x));
            }
        }
    }
}

spec fn artist_shown(tree: Seq<ArtistV>, fold: FoldState, ai: int, x: VisibleRow) -> bool {
    x == artist_row(ai) || (fold.artist_open(tree[ai]) && exists|bi: int|
        0 <= bi < tree[ai].albums.len() && #[trigger] album_shown(tree, fold, ai, bi, x))
}

proof fn lemma_artists_rows(tree: Seq<ArtistV>, fold: FoldState, n: int, x: VisibleRow)
    requires
        library_laws::countable(tree),
        0 <= n <= tree.len(),
    ensures
        library::artists_rows(tree, fold, n).contains(x) <==> exists|ai: int|
            0 <= ai < n && #[trigger] artist_shown(tree, fold, ai, x),
    decreases n,
{
    if n > 0 {
        lemma_artists_rows(tree, fold, n - 1, x);
        let head = library::artists_rows(tree, fold, n - 1);
        let one = library::artist_rows(tree, fold, n - 1);
        lemma_contains_sum(head, one, x);
        let a = tree[n - 1];
        let first = seq![artist_row(n - 1)];
        lemma_albums_rows(tree, fold, n - 1, a.albums.len() as int, x);
        assert(first[0] == artist_row(n - 1));
        assert(first.contains(x) <==> x == artist_row(n - 1));
        if fold.artist_open(a) {
            lemma_contains_sum(first, library::albums_rows(tree, fold, n - 1, a.albums.len() as int), x);
        } else {
            lemma_contains_sum(first, Seq::empty(), x);
            assert(!Seq::<VisibleRow>::empty().contains(x));
        }
        assert(one.contains(x) <==> artist_shown(tree, fold, n - 1, x));
        if exists|ai: int| 0 <= ai < n && #[trigger] artist_shown(tree, fold, ai, x) {
            let ai = choose|ai: int| 0 <= ai < n && #[trigger] artist_shown(tree, fold, ai, x);
            if ai < n - 1 {
                assert(head.contains(x));
            }
        }
    }
}

/// Every artist has a row; an album has one where its artist is open, and a track
/// where its album is open too.
pub proof fn open_nodes_show_what_they_hold(
    tree: LibraryTree,
    fold: FoldState,
    rows: Vec<VisibleRow>,
    ai: usize,
    bi: usize,
    ti: usize,
)
    requires
        call_ensures(library::visible_rows, (&tree, &fold), rows),
        ai < tree@.len(),
        bi < tree@[ai as int].albums.len(),
        ti < tree@[ai as int].albums[bi as int].tracks.len(),
    ensures
        ({
            let a = tree@[ai as int];
            let open = fold.expanded_artists@.contains(a.name);
            &&& rows@.contains(VisibleRow::Artist { artist: ai })
            &&& rows@.contains(VisibleRow::Album { artist: ai, album: bi }) <==> open
            &&& rows@.contains(VisibleRow::Track { artist: ai, album: bi, track: ti }) <==> open
                && fold.expanded_albums@.contains((a.name, a.albums[bi as int].name))
        }),
{
    library_laws::trees_are_countable(&tree);
    let t = tree@;
    let n = t.len() as int;
    let (i, j, k) = (ai as int, bi as int, ti as int);
    let x = artist_row(i);
    let y = album_row(i, j);
    let z = track_row(i, j, k);
    lemma_artists_rows(t, fold, n, x);
    lemma_artists_rows(t, fold, n, y);
    lemma_artists_rows(t, fold, n, z);
    assert(artist_shown(t, fold, i, x));
    if fold.artist_open(t[i]) {
        assert(album_shown(t, fold, i, j, y));
        assert(artist_shown(t, fold, i, y));
        if fold.album_open(t[i], t[i].albums[j]) {
            assert(album_shown(t, fold, i, j, z));
            assert(artist_shown(t, fold, i, z));
        }
    }
    if rows@.contains(y) {
        let m = choose|m: int| 0 <= m < n && #[trigger] artist_shown(t, fold, m, y);
        let b = choose|b: int| 0 <= b < t[m].albums.len() && #[trigger] album_shown(t, fold, m, b, y);
        assert(m == i);
    }
    if rows@.contains(z) {
        let m = choose|m: int| 0 <= m < n && #[trigger] artist_shown(t, fold, m, z);
        let b = choose|b: int| 0 <= b < t[m].albums.len() && #[trigger] album_shown(t, fold, m, b, z);
        assert(t[m].albums.len() <= usize::MAX);
        assert(m == i && b == j);
    }
}

/// Whether a search meets a track: in the name of its artist or its album, or in its
/// title, whatever their capitals.
pub open spec fn meets(t: Seq<ArtistV>, query: Seq<char>, ai: int, bi: int, ti: int) -> bool {
    let q = text::folded(query);
    ||| text::has_text(text::folded(t[ai].name), q)
    ||| text::has_text(text::folded(t[ai].albums[bi].name), q)
    ||| text::has_text(text::folded(t[ai].albums[bi].tracks[ti].title), q)
}

proof fn lemma_headed(head: VisibleRow, rows: Seq<VisibleRow>, x: VisibleRow)
    ensures
        library::headed(head, rows).contains(x) <==> rows.contains(x) || (x == head && rows.len() > 0),
{
    let first = seq![head];
    assert(first[0] == head);
    assert(first.contains(x) <==> x == head);
    lemma_contains_sum(first, rows, x);
    if rows.contains(x) {
        let k = choose|k: int| 0 <= k < rows.len() && rows[k] == x;
        assert(rows.len() > 0);
    }
    if rows.len() == 0 {
        assert(!library::headed(head, rows).contains(x));
    }
}

proof fn lemma_shown_tracks(t: Seq<ArtistV>, q: Seq<char>, ai: int, bi: int, n: int, x: VisibleRow)
    requires
        0 <= n <= usize::MAX,
    ensures
        library::shown_tracks(t, q, ai, bi, n).contains(x) <==> exists|ti: int|
            0 <= ti < n && x == #[trigger] track_row(ai, bi, ti) && library::shows(t, q, ai, bi, ti),
    decreases n,
{
    if n > 0 {
        lemma_shown_tracks(t, q, ai, bi, n - 1, x);
        let head = library::shown_tracks(t, q, ai, bi, n - 1);
        let y = track_row(ai, bi, n - 1);
        let one = seq![y];
        assert(one[0] == y);
        assert(one.contains(x) <==> x == y);
        lemma_contains_sum(head, one, x);
        assert(head.push(y) =~= head + one);
        if exists|ti: int| 0 <= ti < n && x == #[trigger] track_row(ai, bi, ti) && library::shows(t, q, ai, bi, ti) {
            let ti = choose|ti: int|
                0 <= ti < n && x == #[trigger] track_row(ai, bi, ti) && library::shows(t, q, ai, bi, ti);
            if ti < n - 1 {
                assert(head.contains(x));
            }
        }
    }
}

proof fn lemma_shown_albums(t: Seq<ArtistV>, q: Seq<char>, ai: int, n: int, bi: int, ti: int)
    requires
        library_laws::countable(t),
        0 <= ai < t.len(),
        0 <= n <= t[ai].albums.len(),
        0 <= bi < t[ai].albums.len(),
        0 <= ti < t[ai].albums[bi].tracks.len(),
    ensures
        library::shown_albums(t, q, ai, n).contains(track_row(ai, bi, ti)) <==> bi < n && library::shows(
            t,
            q,
            ai,
            bi,
            ti,
        ),
    decreases n,
{
    if n > 0 {
        lemma_shown_albums(t, q, ai, n - 1, bi, ti);
        let x = track_row(ai, bi, ti);
        let m = t[ai].albums[n - 1].tracks.len() as int;
        let rows = library::shown_tracks(t, q, ai, n - 1, m);
        assert(m <= usize::MAX);
        assert(t[ai].albums[bi].tracks.len() <= usize::MAX);
        assert(t[ai].albums.len() <= usize::MAX);
        lemma_shown_tracks(t, q, ai, n - 1, m, x);
        lemma_headed(album_row(ai, n - 1), rows, x);
        lemma_contains_sum(
            library::shown_albums(t, q, ai, n - 1),
            library::headed(album_row(ai, n - 1), rows),
            x,
        );
        if bi == n - 1 && library::shows(t, q, ai, bi, ti) {
            assert(x == track_row(ai, n - 1, ti));
        }
        if rows.contains(x) {
            let k = choose|k: int|
                0 <= k < m && x == #[trigger] track_row(ai, n - 1, k) && library::shows(t, q, ai, n - 1, k);
            assert(bi == n - 1 && k == ti);
        }
    }
}

proof fn lemma_albums_of_another(t: Seq<ArtistV>, q: Seq<char>, ai: int, n: int, other: int, bi: int, ti: int)
    requires
        library_laws::countable(t),
        0 <= ai < t.len(),
        0 <= n <= t[ai].albums.len(),
        0 <= other < t.len(),
        other != ai,
    ensures
        !library::shown_albums(t, q, ai, n).contains(track_row(other, bi, ti)),
    decreases n,
{
    if n > 0 {
        lemma_albums_of_another(t, q, ai, n - 1, other, bi, ti);
        let x = track_row(other, bi, ti);
        let m = t[ai].albums[n - 1].tracks.len() as int;
        let rows = library::shown_tracks(t, q, ai, n - 1, m);
        assert(m <= usize::MAX);
        lemma_shown_tracks(t, q, ai, n - 1, m, x);
        lemma_headed(album_row(ai, n - 1), rows, x);
        lemma_contains_sum(
            library::shown_albums(t, q, ai, n - 1),
            library::headed(album_row(ai, n - 1), rows),
            x,
        );
    } else {
        assert(!Seq::<VisibleRow>::empty().contains(track_row(other, bi, ti)));
    }
}

proof fn lemma_shown_artists(t: Seq<ArtistV>, q: Seq<char>, n: int, ai: int, bi: int, ti: int)
    requires
        library_laws::countable(t),
        0 <= n <= t.len(),
        0 <= ai < t.len(),
        0 <= bi < t[ai].albums.len(),
        0 <= ti < t[ai].albums[bi].tracks.len(),
    ensures
        library::shown_artists(t, q, n).contains(track_row(ai, bi, ti)) <==> ai < n && library::shows(
            t,
            q,
            ai,
            bi,
            ti,
        ),
    decreases n,
{
    if n > 0 {
        lemma_shown_artists(t, q, n - 1, ai, bi, ti);
        let x = track_row(ai, bi, ti);
        let m = t[n - 1].albums.len() as int;
        let rows = library::shown_albums(t, q, n - 1, m);
        if ai == n - 1 {
            lemma_shown_albums(t, q, n - 1, m, bi, ti);
        } else {
            lemma_albums_of_another(t, q, n - 1, m, ai, bi, ti);
        }
        lemma_headed(artist_row(n - 1), rows, x);
        lemma_contains_sum(
            library::shown_artists(t, q, n - 1),
            library::headed(artist_row(n - 1), rows),
            x,
        );
    }
}

/// A search in the tree shows every track that it meets, and no other.
pub proof fn a_search_shows_what_it_meets(
    tree: LibraryTree,
    query: &str,
    rows: Vec<VisibleRow>,
    ai: usize,
    bi: usize,
    ti: usize,
)
    requires
        call_ensures(library::visible_rows_filtered, (&tree, query), rows),
        ai < tree@.len(),
        bi < tree@[ai as int].albums.len(),
        ti < tree@[ai as int].albums[bi as int].tracks.len(),
    ensures
        rows@.contains(VisibleRow::Track { artist: ai, album: bi, track: ti }) <==> meets(
            tree@,
            query@,
            ai as int,
            bi as int,
            ti as int,
        ),
{
    library_laws::trees_are_countable(&tree);
    lemma_shown_artists(tree@, text::folded(query@), tree@.len() as int, ai as int, bi as int, ti as int);
}

/// Under a track there is that track; under an album there are its tracks, in their
/// order.
pub proof fn albums_hold_their_tracks(tree: LibraryTree, row: VisibleRow, r: Vec<usize>, first: Option<usize>, i: int)
    requires
        library::row_in(tree@, row),
        call_ensures(library::subtree_track_indices, (&tree, row), r),
        call_ensures(library::first_track_index, (&tree, row), first),
    ensures
        row matches VisibleRow::Track { artist, album, track } ==> r@.len() == 1 && r@[0]
            == tree@[artist as int].albums[album as int].tracks[track as int].index,
        row matches VisibleRow::Album { artist, album } ==> {
            let al = tree@[artist as int].albums[album as int];
            &&& r@.len() == al.tracks.len()
            &&& 0 <= i < al.tracks.len() ==> r@[i] == al.tracks[i].index
        },
        r@.len() > 0 ==> first == Some(r@[0]),
        r@.len() == 0 ==> first is None,
{
    let p = order::places(r@);
    assert(p.len() == r@.len());
    if 0 <= i < r@.len() {
        assert(p[i] == r@[i]);
    }
    if r@.len() > 0 {
        assert(p[0] == r@[0]);
    }
}

/// Under an artist there are the tracks of all their albums.
pub proof fn artists_hold_their_albums(tree: LibraryTree, artist: usize, r: Vec<usize>, bi: int, ti: int)
    requires
        artist < tree@.len(),
        call_ensures(library::subtree_track_indices, (&tree, VisibleRow::Artist { artist }), r),
        0 <= bi < tree@[artist as int].albums.len(),
        0 <= ti < tree@[artist as int].albums[bi].tracks.len(),
    ensures
        exists|k: int|
            0 <= k < r@.len() && #[trigger] r@[k] == tree@[artist as int].albums[bi].tracks[ti].index,
{
    let a = tree@[artist as int];
    let off = lemma_albums_offset(a, a.albums.len() as int, bi);
    let p = order::places(r@);
    assert(p.len() == r@.len());
    assert(p[off + ti] == a.albums[bi].tracks[ti].index);
    assert(p[off + ti] == r@[off + ti]);
}

/// The rows are those of the tree as it is folded, or those that a filter leaves where
/// there is one.
pub proof fn rows_follow_folds_and_filter(
    t: &mut TreeView,
    filter: &str,
    whole: Vec<VisibleRow>,
    narrowed: Vec<VisibleRow>,
)
    requires
        call_ensures(tree_view::refresh_tree_rows, (t,), ()),
        filter@ == old(t).filter@,
        call_ensures(library::visible_rows, (&old(t).tree, &old(t).fold), whole),
        call_ensures(library::visible_rows_filtered, (&old(t).tree, filter), narrowed),
    ensures
        old(t).filter@.len() == 0 ==> final(t).rows@ == whole@,
        old(t).filter@.len() > 0 ==> final(t).rows@ == narrowed@,
        final(t).cursor == old(t).cursor && final(t).filter@ == old(t).filter@,
{
}

/// A filter that is typed is in force at once, and the cursor stays on the tree; taken
/// away, the tree is whole again, from its top.
pub proof fn filters_are_in_force_at_once(
    t: &mut TreeView,
    query: &str,
    narrowed: Vec<VisibleRow>,
    u: &mut TreeView,
    whole: Vec<VisibleRow>,
)
    requires
        call_ensures(tree_view::rebuild_tree_filter, (t, query), ()),
        query@.len() > 0,
        call_ensures(library::visible_rows_filtered, (&old(t).tree, query), narrowed),
        call_ensures(tree_view::clear_tree_filter, (u,), ()),
        call_ensures(library::visible_rows, (&old(u).tree, &old(u).fold), whole),
    ensures
        final(t).rows@ == narrowed@,
        final(t).filter@ == query@,
        narrowed@.len() > 0 ==> final(t).cursor < narrowed@.len(),
        old(t).cursor < narrowed@.len() ==> final(t).cursor == old(t).cursor,
        final(u).rows@ == whole@,
        final(u).filter@.len() == 0 && final(u).cursor == 0,
{
    assert(narrowed@.len() == narrowed.len());
}

proof fn lemma_row_place(rows: Seq<VisibleRow>, row: VisibleRow, i: int)
    requires
        0 <= i <= rows.len(),
    ensures
        tree_view::row_place(rows, row, i) matches Some(p) ==> i <= p < rows.len() && rows[p] == row,
        tree_view::row_place(rows, row, i) is None ==> forall|k: int| i <= k < rows.len() ==> #[trigger] rows[k] != row,
    decreases rows.len() - i,
{
    if i < rows.len() && rows[i] != row {
        lemma_row_place(rows, row, i + 1);
    }
}

/// Closing on a track closes its album, and the cursor goes to the album's row; on an
/// artist or an album it stays where it is, as far as there is such a row.
pub proof fn closing_leads_to_what_was_closed(t: &mut TreeView, artist: usize, album: usize, track: usize)
    requires
        old(t).wf(),
        call_ensures(tree_view::tree_collapse_under_cursor, (t,), ()),
        old(t).cursor < old(t).rows@.len(),
        final(t).rows@.contains(VisibleRow::Album { artist, album }),
    ensures
        old(t).rows@[old(t).cursor as int] == (VisibleRow::Track { artist, album, track })
            ==> final(t).cursor < final(t).rows@.len()
            && final(t).rows@[final(t).cursor as int] == (VisibleRow::Album { artist, album }),
        !(old(t).rows@[old(t).cursor as int] is Track) && old(t).cursor < final(t).rows@.len() ==> final(t).cursor
            == old(t).cursor,
{
    let rows = final(t).rows@;
    let row = VisibleRow::Album { artist, album };
    lemma_row_place(rows, row, 0);
    let k = choose|k: int| 0 <= k < rows.len() && rows[k] == row;
    assert(rows[k] == row);
    assert(final(t).rows@.len() == final(t).rows.len());
}

} // verus!
