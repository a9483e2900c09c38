//! What a listener can count on of their tracks: how they are named and found, and
//! what queueing, removing and saving them does.
use crate::library::{NameSet, TrackTags};
use crate::list_laws;
use crate::list_view;
use crate::list_view::ListView;
use crate::metadata;
use crate::metadata::MetadataCache;
use crate::order;
use crate::path;
use crate::playlist;
use crate::playlist::{PlaylistError, Source, TagKind, TagText};
use crate::queue;
use crate::queue::SourceFound;
use crate::state::PlayerState;
use crate::text;
use crate::ui_state;
use crate::ui_state::UiState;
use vstd::prelude::*;

verus! {

/// Whether places go up.
pub open spec fn ascending(p: Seq<int>) -> bool {
    forall|a: int, b: int| 0 <= a < b < p.len() ==> #[trigger] p[a] < #[trigger] p[b]
}

/// A track goes by its artist and its title, else by its title alone, else by the
/// name of its file.
pub proof fn tracks_go_by_their_tags(cache: MetadataCache, i: usize, p: &str, r: String)
    requires
        call_ensures(MetadataCache::display_name, (&cache, i, p), r),
        i < cache@.len(),
    ensures
        cache@[i as int].artist is Some && cache@[i as int].title is Some ==> r@ == cache@[i as int].artist->0 + " - "@
            + cache@[i as int].title->0,
        cache@[i as int].artist is None && cache@[i as int].title is Some ==> r@ == cache@[i as int].title->0,
        cache@[i as int].title is None && path::name_in(p@) is Some ==> r@ == path::name_in(p@)->0,
{
}

/// Every tag is that of the track it is asked of.
pub proof fn tags_are_those_of_the_track(
    cache: MetadataCache,
    i: usize,
    who: (Option<String>, Option<String>),
    title: Option<String>,
    disc: Option<u32>,
    track: Option<u32>,
    duration: Option<u64>,
)
    requires
        i < cache.entries@.len(),
        call_ensures(MetadataCache::artist_album, (&cache, i), who),
        call_ensures(MetadataCache::title, (&cache, i), title),
        call_ensures(MetadataCache::disc_number, (&cache, i), disc),
        call_ensures(MetadataCache::track_number, (&cache, i), track),
        call_ensures(MetadataCache::duration, (&cache, i), duration),
    ensures
        ({
            let e = cache.entries@[i as int];
            &&& path::opt_text(who.0) == path::opt_text(e.artist)
            &&& path::opt_text(who.1) == path::opt_text(e.album)
            &&& path::opt_text(title) == path::opt_text(e.title)
            &&& disc == e.disc
            &&& track == e.track
            &&& duration == e.duration
        }),
{
    assert(cache@[i as int] == cache.entries@[i as int]@);
}

/// A search finds a track by any part of its name or of its file's name, in small
/// letters, and by nothing else.
pub proof fn a_search_looks_at_names(
    cache: MetadataCache,
    i: usize,
    p: &str,
    query: &str,
    name: String,
    file: String,
    r: bool,
)
    requires
        call_ensures(MetadataCache::search_matches, (&cache, i, p, query), r),
        call_ensures(MetadataCache::display_name, (&cache, i, p), name),
        call_ensures(metadata::base_name_of, (p,), file),
    ensures
        r <==> (exists|a: Seq<char>, b: Seq<char>| text::folded(name@) == #[trigger] (a + query@ + b)) || (exists|
            a: Seq<char>,
            b: Seq<char>,
        | text::folded(file@) == #[trigger] (a + query@ + b)),
{
    lemma_has_text(text::folded(name@), query@);
    lemma_has_text(text::folded(file@), query@);
}

proof fn lemma_has_text(s: Seq<char>, q: Seq<char>)
    ensures
        text::has_text(s, q) <==> exists|a: Seq<char>, b: Seq<char>| s == #[trigger] (a + q + b),
{
    if text::has_text(s, q) {
        let i = choose|i: int| text::stands_at(s, q, i);
        assert(s =~= s.take(i) + q + s.skip(i + q.len()));
    }
    if exists|a: Seq<char>, b: Seq<char>| s == #[trigger] (a + q + b) {
        let (a, b) = choose|a: Seq<char>, b: Seq<char>| s == #[trigger] (a + q + b);
        assert(s.subrange(a.len() as int, a.len() as int + q.len()) =~= q);
        assert(text::stands_at(s, q, a.len() as int));
    }
}

proof fn lemma_found(cache: Seq<metadata::TrackMetaV>, paths: Seq<Seq<char>>, query: Seq<char>, n: int)
    requires
        0 <= n <= paths.len(),
    ensures
        ascending(metadata::found(cache, paths, query, n)),
        forall|k: int|
            0 <= k < metadata::found(cache, paths, query, n).len() ==> 0 <= #[trigger] metadata::found(
                cache,
                paths,
                query,
                n,
            )[k] < n,
        forall|i: int|
            0 <= i < n ==> (#[trigger] metadata::found(cache, paths, query, n).contains(i) <==> metadata::is_match(
                metadata::entry_at(cache, i),
                paths[i],
                query,
            )),
    decreases n,
{
    let f = metadata::found(cache, paths, query, n);
    if n > 0 {
        lemma_found(cache, paths, query, n - 1);
        let g = metadata::found(cache, paths, query, n - 1);
        assert forall|i: int| 0 <= i < n implies (#[trigger] f.contains(i) <==> metadata::is_match(
            metadata::entry_at(cache, i),
            paths[i],
            query,
        )) by {
            if f.contains(i) {
                let k = choose|k: int| 0 <= k < f.len() && f[k] == i;
                if k < g.len() {
                    assert(g[k] == i);
                    assert(g.contains(i));
                }
            }
            if i < n - 1 && g.contains(i) {
                let k = choose|k: int| 0 <= k < g.len() && g[k] == i;
                assert(f[k] == i);
            }
            if i == n - 1 && metadata::is_match(metadata::entry_at(cache, i), paths[i], query) {
                assert(f[f.len() - 1] == i);
            }
        }
    }
}

/// A search finds every track that matches and no other, each once, in their order.
pub proof fn a_search_finds_all_that_matches(
    cache: MetadataCache,
    paths: Vec<String>,
    query: &str,
    r: Vec<usize>,
    i: usize,
    p: &str,
    m: bool,
)
    requires
        call_ensures(metadata::find_tracks, (&cache, &paths, query), r),
        call_ensures(MetadataCache::search_matches, (&cache, i, p, query), m),
        i < paths@.len(),
        p@ == paths@[i as int]@,
    ensures
        r@.contains(i) <==> m,
        forall|a: int, b: int| 0 <= a < b < r@.len() ==> #[trigger] r@[a] < #[trigger] r@[b],
        forall|a: int| 0 <= a < r@.len() ==> #[trigger] r@[a] < paths@.len(),
{
    let t = text::texts(paths@);
    lemma_found(cache@, t, query@, paths@.len() as int);
    let f = order::places(r@);
    assert(t[i as int] == paths@[i as int]@);
    assert(f.contains(i as int) <==> m);
    if r@.contains(i) {
        let k = choose|k: int| 0 <= k < r@.len() && r@[k] == i;
        assert(f[k] == i);
    }
    if f.contains(i as int) {
        let k = choose|k: int| 0 <= k < f.len() && f[k] == i as int;
        assert(r@[k] == i);
    }
    assert forall|a: int, b: int| 0 <= a < b < r@.len() implies #[trigger] r@[a] < #[trigger] r@[b] by {
        assert(f[a] < f[b]);
    }
    assert forall|a: int| 0 <= a < r@.len() implies #[trigger] r@[a] < paths@.len() by {
        assert(f[a] == r@[a]);
    }
}

/// What is typed narrows the list to what is found, whatever its capitals, with the
/// cursor on the first; typing nothing shows the list whole.
pub proof fn a_search_narrows_the_list(
    l: &mut ListView,
    query: &str,
    cache: MetadataCache,
    paths: Vec<String>,
    low: &str,
    found: Vec<usize>,
)
    requires
        call_ensures(list_view::rebuild_filter, (l, query, &cache, &paths), ()),
        low@ == text::folded(query@),
        call_ensures(metadata::find_tracks, (&cache, &paths, low), found),
    ensures
        query@.len() > 0 && text::is_ascii(query@) ==> final(l)@.filtered == order::places(found@),
        query@.len() == 0 ==> final(l)@.filtered.len() == 0,
        final(l)@.cursor == 0 && final(l)@.scroll == 0,
        final(l)@.rows == old(l)@.rows,
{
}

/// Whether a key occurs for the first time.
pub open spec fn is_first(keys: Seq<String>, i: int) -> bool {
    forall|k: int| 0 <= k < i ==> (#[trigger] keys[k])@ != keys[i]@
}

proof fn lemma_kept(items: Seq<Seq<char>>, keys: Seq<Seq<char>>, removed: Set<Seq<char>>, n: int) -> (idx: Seq<int>)
    requires
        0 <= n <= keys.len(),
        items.len() == keys.len(),
    ensures
        ascending(idx),
        forall|k: int| 0 <= k < idx.len() ==> 0 <= #[trigger] idx[k] < n,
        forall|i: int|
            0 <= i < n ==> (#[trigger] idx.contains(i) <==> !playlist::seen(keys, i, keys[i]) && !removed.contains(
                keys[i],
            )),
        playlist::kept(items, keys, removed, n) == path::picked(items, idx),
    decreases n,
{
    if n <= 0 {
        let idx = Seq::<int>::empty();
        assert(playlist::kept(items, keys, removed, n) =~= path::picked(items, idx));
        idx
    } else {
        let rest = lemma_kept(items, keys, removed, n - 1);
        if playlist::seen(keys, n - 1, keys[n - 1]) || removed.contains(keys[n - 1]) {
            assert(!rest.contains(n - 1));
            rest
        } else {
            let idx = rest.push(n - 1);
            lemma_pushed(rest, n - 1);
            assert(playlist::kept(items, keys, removed, n) =~= path::picked(items, idx));
            idx
        }
    }
}

proof fn lemma_pushed(rest: Seq<int>, n: int)
    ensures
        forall|i: int| #[trigger] rest.push(n).contains(i) <==> rest.contains(i) || i == n,
{
    let idx = rest.push(n);
    assert(idx[rest.len() as int] == n);
    assert forall|i: int| #[trigger] idx.contains(i) <==> rest.contains(i) || i == n by {
        if rest.contains(i) {
            let k = choose|k: int| 0 <= k < rest.len() && rest[k] == i;
            assert(idx[k] == i);
        }
        if idx.contains(i) {
            let k = choose|k: int| 0 <= k < idx.len() && idx[k] == i;
            if k < rest.len() {
                assert(rest[k] == i);
            }
        }
    }
}

/// Of tracks that lead to the same file the first stays, and what the listener has
/// removed does not come back; all others stay, in their order.
pub proof fn nothing_is_listed_twice(list: Vec<String>, keys: Vec<String>, removed: NameSet, out: Vec<String>)
    requires
        list@.len() == keys@.len(),
        call_ensures(playlist::dedup_playlist, (&list, &keys, &removed), out),
    ensures
        exists|idx: Seq<int>|
            {
                &&& #[trigger] ascending(idx)
                &&& idx.len() == out@.len()
                &&& forall|k: int|
                    0 <= k < idx.len() ==> 0 <= #[trigger] idx[k] < list@.len() && out@[k]@ == list@[idx[k]]@
                &&& forall|i: int|
                    0 <= i < list@.len() ==> (#[trigger] idx.contains(i) <==> is_first(keys@, i)
                        && !removed@.contains(keys@[i]@))
            },
{
    let t = text::texts(list@);
    let u = text::texts(keys@);
    let idx = lemma_kept(t, u, removed@, list@.len() as int);
    let o = text::texts(out@);
    assert(o.len() == out@.len());
    assert forall|k: int| 0 <= k < idx.len() implies 0 <= #[trigger] idx[k] < list@.len() && out@[k]@
        == list@[idx[k]]@ by {
        assert(o[k] == t[idx[k]]);
        assert(o[k] == out@[k]@);
    }
    assert forall|i: int| 0 <= i < list@.len() implies (#[trigger] idx.contains(i) <==> is_first(keys@, i)
        && !removed@.contains(keys@[i]@)) by {
        assert(u[i] == keys@[i]@);
        assert(playlist::seen(u, i, u[i]) <==> !is_first(keys@, i)) by {
            if playlist::seen(u, i, u[i]) {
                let k = choose|k: int| 0 <= k < i && #[trigger] u[k] == u[i];
                assert(keys@[k]@ == u[k]);
            }
            if !is_first(keys@, i) {
                let k = choose|k: int| 0 <= k < i && (#[trigger] keys@[k])@ == keys@[i]@;
                assert(u[k] == keys@[k]@);
            }
        }
    }
    assert(ascending(idx));
}

proof fn lemma_left_over(
    items: Seq<Seq<char>>,
    keys: Seq<Seq<char>>,
    removed: Set<Seq<char>>,
    n: int,
) -> (idx: Seq<int>)
    requires
        0 <= n <= keys.len(),
        items.len() == keys.len(),
    ensures
        ascending(idx),
        forall|k: int| 0 <= k < idx.len() ==> 0 <= #[trigger] idx[k] < n,
        forall|i: int| 0 <= i < n ==> (#[trigger] idx.contains(i) <==> !removed.contains(keys[i])),
        playlist::left_over(items, keys, removed, n) == path::picked(items, idx),
    decreases n,
{
    if n <= 0 {
        let idx = Seq::<int>::empty();
        assert(playlist::left_over(items, keys, removed, n) =~= path::picked(items, idx));
        idx
    } else {
        let rest = lemma_left_over(items, keys, removed, n - 1);
        if removed.contains(keys[n - 1]) {
            assert(!rest.contains(n - 1));
            rest
        } else {
            let idx = rest.push(n - 1);
            lemma_pushed(rest, n - 1);
            assert(playlist::left_over(items, keys, removed, n) =~= path::picked(items, idx));
            idx
        }
    }
}

/// What the listener has removed is left out; everything else stays, in its order.
pub proof fn what_was_removed_is_left_out(list: Vec<String>, keys: Vec<String>, removed: NameSet, out: Vec<String>)
    requires
        list@.len() == keys@.len(),
        call_ensures(playlist::without_removed, (&list, &keys, &removed), out),
    ensures
        exists|idx: Seq<int>|
            {
                &&& #[trigger] ascending(idx)
                &&& idx.len() == out@.len()
                &&& forall|k: int|
                    0 <= k < idx.len() ==> 0 <= #[trigger] idx[k] < list@.len() && out@[k]@ == list@[idx[k]]@
                &&& forall|i: int|
                    0 <= i < list@.len() ==> (#[trigger] idx.contains(i) <==> !removed@.contains(keys@[i]@))
            },
{
    let t = text::texts(list@);
    let u = text::texts(keys@);
    let idx = lemma_left_over(t, u, removed@, list@.len() as int);
    let o = text::texts(out@);
    assert(o.len() == out@.len());
    assert forall|k: int| 0 <= k < idx.len() implies 0 <= #[trigger] idx[k] < list@.len() && out@[k]@
        == list@[idx[k]]@ by {
        assert(o[k] == t[idx[k]]);
        assert(o[k] == out@[k]@);
    }
    assert forall|i: int| 0 <= i < list@.len() implies (#[trigger] idx.contains(i) <==> !removed@.contains(
        keys@[i]@,
    )) by {
        assert(u[i] == keys@[i]@);
    }
    assert(ascending(idx));
}

proof fn lemma_path_lines(a: Seq<Seq<char>>, b: Seq<Seq<char>>, n: int)
    requires
        0 <= n <= a.len(),
        n <= b.len(),
        forall|i: int| 0 <= i < n ==> #[trigger] a[i] == b[i],
    ensures
        playlist::path_lines(a, n) == playlist::path_lines(b, n),
    decreases n,
{
    if n > 0 {
        lemma_path_lines(a, b, n - 1);
        assert(a[n - 1] == b[n - 1]);
    }
}

/// A playlist is saved with its tracks line by line, in their order: one more track
/// is one more line at the end.
pub proof fn playlists_are_saved_line_by_line(list: Vec<String>, more: Vec<String>, a: String, b: String)
    requires
        call_ensures(playlist::m3u_text, (&list,), a),
        call_ensures(playlist::m3u_text, (&more,), b),
        more@.len() == list@.len() + 1,
        more@.drop_last() == list@,
    ensures
        b@ == a@ + more@.last()@ + "\n"@,
        list@.len() == 0 ==> a@ == "#EXTM3U\n"@,
{
    let n = list@.len() as int;
    let t = text::texts(list@);
    let u = text::texts(more@);
    assert forall|i: int| 0 <= i < n implies #[trigger] t[i] == u[i] by {
        assert(list@[i] == more@[i]);
    }
    lemma_path_lines(t, u, n);
    assert(u[n] == more@.last()@);
}

proof fn lemma_last_tag(tags: Seq<TagText>, kind: TagKind, n: int, k: int)
    requires
        0 <= k < n <= tags.len(),
        tags[k].kind == kind,
        forall|i: int| k < i < n ==> (#[trigger] tags[i]).kind != kind,
    ensures
        playlist::last_tag(tags, kind, n) == Some(tags[k].text@),
    decreases n,
{
    if n - 1 > k {
        assert(tags[n - 1].kind != kind);
        lemma_last_tag(tags, kind, n - 1, k);
    }
}

proof fn lemma_no_tag(tags: Seq<TagText>, kind: TagKind, n: int)
    requires
        0 <= n <= tags.len(),
        forall|i: int| 0 <= i < n ==> (#[trigger] tags[i]).kind != kind,
    ensures
        playlist::last_tag(tags, kind, n) is None,
    decreases n,
{
    if n > 0 {
        assert(tags[n - 1].kind != kind);
        lemma_no_tag(tags, kind, n - 1);
    }
}

proof fn lemma_first_tag(tags: Seq<TagText>, kind: TagKind, i: int, k: int)
    requires
        0 <= i <= k < tags.len(),
        tags[k].kind == kind,
        forall|m: int| i <= m < k ==> (#[trigger] tags[m]).kind != kind,
    ensures
        playlist::first_tag(tags, kind, i) == Some(tags[k].text@),
    decreases k - i,
{
    if i < k {
        assert(tags[i].kind != kind);
        lemma_first_tag(tags, kind, i + 1, k);
    }
}

/// A track is named by the last title and the last artist among the tags of its
/// container.
pub proof fn the_last_tag_of_a_container_counts(
    container: Vec<TagText>,
    probed: Vec<TagText>,
    r: Option<String>,
    t: int,
    a: int,
)
    requires
        call_ensures(playlist::read_metadata, (&container, &probed), r),
        0 <= t < container@.len(),
        container@[t].kind == TagKind::Title,
        forall|i: int| t < i < container@.len() ==> (#[trigger] container@[i]).kind != TagKind::Title,
        0 <= a < container@.len(),
        container@[a].kind == TagKind::Artist,
        forall|i: int| a < i < container@.len() ==> (#[trigger] container@[i]).kind != TagKind::Artist,
    ensures
        r matches Some(s) && s@ == container@[a].text@ + " - "@ + container@[t].text@,
{
    lemma_last_tag(container@, TagKind::Title, container@.len() as int, t);
    lemma_last_tag(container@, TagKind::Artist, container@.len() as int, a);
}

/// Where the container has none, the first that was found on probing counts.
pub proof fn probed_tags_count_where_the_container_has_none(
    container: Vec<TagText>,
    probed: Vec<TagText>,
    r: Option<String>,
    t: int,
    a: int,
)
    requires
        call_ensures(playlist::read_metadata, (&container, &probed), r),
        container@.len() == 0,
        0 <= t < probed@.len(),
        probed@[t].kind == TagKind::Title,
        forall|i: int| 0 <= i < t ==> (#[trigger] probed@[i]).kind != TagKind::Title,
        0 <= a < probed@.len(),
        probed@[a].kind == TagKind::Artist,
        forall|i: int| 0 <= i < a ==> (#[trigger] probed@[i]).kind != TagKind::Artist,
    ensures
        r matches Some(s) && s@ == probed@[a].text@ + " - "@ + probed@[t].text@,
{
    lemma_no_tag(container@, TagKind::Title, 0);
    lemma_no_tag(container@, TagKind::Artist, 0);
    lemma_first_tag(probed@, TagKind::Title, 0, t);
    lemma_first_tag(probed@, TagKind::Artist, 0, a);
}

/// A track without a title has no name of its own, whoever its artist is.
pub proof fn without_a_title_there_is_no_name(container: Vec<TagText>, probed: Vec<TagText>, r: Option<String>)
    requires
        call_ensures(playlist::read_metadata, (&container, &probed), r),
        probed@.len() == 0,
        forall|i: int| 0 <= i < container@.len() ==> (#[trigger] container@[i]).kind != TagKind::Title,
    ensures
        r is None,
{
    lemma_no_tag(container@, TagKind::Title, container@.len() as int);
}

/// A track that is queued comes behind the one that plays and those queued before
/// it; the one that plays goes on, and the cursor stays on the queued one.
pub proof fn queued_tracks_come_next(s: &mut PlayerState, ui: &mut UiState, list: &mut Vec<String>)
    requires
        call_ensures(queue::enqueue_track, (s, ui, list), ()),
        old(ui).list@.filtered.len() == 0,
        old(ui).list.cursor < old(list)@.len(),
        old(ui).queue.current < old(list)@.len(),
        old(ui).list.cursor < old(ui).queue.current || old(ui).list.cursor > old(ui).queue.current + 1
            + old(ui).queue.enqueue_count,
        old(ui).queue.current + 1 + old(ui).queue.enqueue_count < old(list)@.len(),
    ensures
        ({
            let now = final(ui).queue.current as int;
            let track = old(list)@[old(ui).list.cursor as int];
            &&& final(list)@.len() == old(list)@.len()
            &&& now + 1 + old(ui).queue.enqueue_count < final(list)@.len()
            &&& final(list)@[now + 1 + old(ui).queue.enqueue_count] == track
            &&& final(list)@[now] == old(list)@[old(ui).queue.current as int]
            &&& final(ui).list@.cursor == now + 1 + old(ui).queue.enqueue_count
            &&& final(ui).queue.enqueue_count == old(ui).queue.enqueue_count + 1
            &&& final(list)@.remove(now + 1 + old(ui).queue.enqueue_count) == old(list)@.remove(
                old(ui).list.cursor as int,
            )
        }),
        final(s).transport == old(s).transport,
{
    let was = old(list)@;
    let from = old(ui).list.cursor as int;
    let c = old(ui).queue.current as int;
    let goal = c + 1 + old(ui).queue.enqueue_count;
    let to = if from < goal {
        goal - 1
    } else {
        goal
    };
    assert(final(list)@ == queue::moved(was, from, to));
    queue::moving_keeps_track_of_places(was, from, to, from);
    queue::moving_keeps_track_of_places(was, from, to, c);
    assert(was.remove(from).insert(to, was[from]).remove(to) =~= was.remove(from));
}

/// The track that plays, and the one that would come next anyway, are not queued.
pub proof fn what_plays_is_not_queued(s: &mut PlayerState, ui: &mut UiState, list: &mut Vec<String>)
    requires
        call_ensures(queue::enqueue_track, (s, ui, list), ()),
        old(ui).list@.filtered.len() == 0,
        old(ui).list.cursor == old(ui).queue.current || old(ui).list.cursor >= old(list)@.len(),
    ensures
        final(list)@ == old(list)@,
        *final(ui) == *old(ui),
        *final(s) == *old(s),
{
}

/// Removing takes the track under the cursor off the list and no other, and goes on
/// with the one that plays; where that was it, with the one that follows. It is
/// remembered, so that it does not come back. The last track stays.
pub proof fn one_track_is_removed(s: &mut PlayerState, ui: &mut UiState, list: &mut Vec<String>, key: String)
    requires
        call_ensures(queue::remove_track, (s, ui, list, Some(key)), ()),
        old(ui).list@.filtered.len() == 0,
        old(ui).list.cursor < old(list)@.len(),
        old(ui).queue.current < old(list)@.len(),
    ensures
        old(list)@.len() > 1 ==> {
            let gone = old(ui).list.cursor as int;
            let c = old(ui).queue.current as int;
            &&& final(list)@ == old(list)@.remove(gone)
            &&& gone != c ==> final(list)@[final(ui).queue.current as int] == old(list)@[c]
            &&& gone == c && c + 1 < old(list)@.len() ==> final(list)@[final(ui).queue.current as int]
                == old(list)@[c + 1]
            &&& final(ui).queue.current < final(list)@.len()
            &&& gone == c ==> final(s).transport.skip_next
            &&& gone != c ==> final(s).transport == old(s).transport
            &&& final(ui).queue.removed_paths@ == old(ui).queue.removed_paths@.insert(key@)
        },
        old(list)@.len() <= 1 ==> final(list)@ == old(list)@ && *final(s) == *old(s) && ui_state::told(
            final(ui).status_message,
            "Can't remove the last track"@,
            old(ui).now,
        ),
{
    if old(list)@.len() > 1 {
        let gone = old(ui).list.cursor as int;
        let c = old(ui).queue.current as int;
        if gone != c {
            queue::removing_another_keeps_the_current(old(list)@, c, gone);
        }
    }
}

proof fn lemma_unlisted(items: Seq<String>, indices: Seq<usize>, n: int) -> (idx: Seq<int>)
    requires
        0 <= n <= items.len(),
    ensures
        ascending(idx),
        forall|k: int| 0 <= k < idx.len() ==> 0 <= #[trigger] idx[k] < n,
        forall|i: int| 0 <= i < n ==> (#[trigger] idx.contains(i) <==> !queue::listed(indices, i)),
        queue::unlisted(items, indices, n) == path::picked(items, idx),
    decreases n,
{
    if n <= 0 {
        let idx = Seq::<int>::empty();
        assert(queue::unlisted(items, indices, n) =~= path::picked(items, idx));
        idx
    } else {
        let rest = lemma_unlisted(items, indices, n - 1);
        if queue::listed(indices, n - 1) {
            assert(!rest.contains(n - 1));
            rest
        } else {
            let idx = rest.push(n - 1);
            lemma_pushed(rest, n - 1);
            assert(queue::unlisted(items, indices, n) =~= path::picked(items, idx));
            idx
        }
    }
}

proof fn lemma_keys_listed(set: Set<Seq<char>>, keys: Seq<String>, indices: Seq<usize>, n: int, i: int)
    requires
        0 <= i < n <= keys.len(),
        queue::listed(indices, i),
    ensures
        queue::keys_listed(set, keys, indices, n).contains(keys[i]@),
    decreases n,
{
    if i < n - 1 {
        lemma_keys_listed(set, keys, indices, n - 1, i);
    }
}

/// Removing several tracks takes just these off the list, and leaves the others in
/// their order; none of them comes back.
pub proof fn several_tracks_are_removed(
    s: &mut PlayerState,
    ui: &mut UiState,
    list: &mut Vec<String>,
    indices: Vec<usize>,
    keys: Vec<String>,
    k: int,
)
    requires
        keys@.len() == old(list)@.len(),
        call_ensures(queue::tree_remove_indices, (s, ui, list, &indices, &keys), ()),
    ensures
        exists|idx: Seq<int>|
            {
                &&& #[trigger] ascending(idx)
                &&& idx.len() == final(list)@.len()
                &&& forall|m: int|
                    0 <= m < idx.len() ==> 0 <= #[trigger] idx[m] < old(list)@.len() && final(list)@[m]
                        == old(list)@[idx[m]]
                &&& forall|i: int|
                    0 <= i < old(list)@.len() ==> (#[trigger] idx.contains(i) <==> !(exists|m: int|
                        0 <= m < indices@.len() && #[trigger] indices@[m] == i))
            },
        0 <= k < indices@.len() && indices@[k] < keys@.len() ==> final(ui).queue.removed_paths@.contains(
            keys@[indices@[k] as int]@,
        ),
        final(s).transport == old(s).transport,
{
    let was = old(list)@;
    let idx = lemma_unlisted(was, indices@, was.len() as int);
    assert(final(list)@ == path::picked(was, idx));
    assert forall|m: int| 0 <= m < idx.len() implies 0 <= #[trigger] idx[m] < was.len() && final(list)@[m]
        == was[idx[m]] by {
        assert(path::picked(was, idx)[m] == was[idx[m]]);
    }
    assert(ascending(idx));
    if 0 <= k < indices@.len() && indices@[k] < keys@.len() {
        assert(queue::listed(indices@, indices@[k] as int));
        lemma_keys_listed(
            old(ui).queue.removed_paths@,
            keys@,
            indices@,
            keys@.len() as int,
            indices@[k] as int,
        );
    }
}

/// Sources whose order is someone's choice are not sorted: a playlist among them, in
/// any case. Folders are.
pub proof fn chosen_orders_are_kept(paths: Vec<String>, r: bool, k: int)
    requires
        call_ensures(queue::source_is_sortable, (&paths,), r),
    ensures
        paths@.len() == 0 ==> !r,
        0 <= k < paths@.len() && (path::extension_in(paths@[k]@) matches Some(e) && (list_laws::alike(e, "m3u"@)
            || list_laws::alike(e, "m3u8"@))) ==> !r,
        paths@.len() > 0 && (forall|i: int| 0 <= i < paths@.len() ==> path::extension_in((#[trigger] paths@[i])@) is None)
            ==> r,
{
    reveal_strlit("m3u");
    reveal_strlit("m3u8");
    let t = text::texts(paths@);
    assert(t.len() == paths@.len());
    assert forall|i: int| 0 <= i < t.len() implies #[trigger] t[i] == paths@[i]@ by {}
    if 0 <= k < paths@.len() {
        assert(t[k] == paths@[k]@);
        match path::extension_in(paths@[k]@) {
            Some(e) => {
                if list_laws::alike(e, "m3u"@) {
                    list_laws::lemma_alike(e, "m3u"@);
                }
                if list_laws::alike(e, "m3u8"@) {
                    list_laws::lemma_alike(e, "m3u8"@);
                }
            },
            None => {},
        }
    }
}

/// The list is sorted once, when every tag has been read, and not while it is
/// shuffled.
pub proof fn the_list_is_sorted_when_tags_are_read(s: &mut PlayerState, ui: &mut UiState, list: &mut Vec<String>)
    requires
        call_ensures(queue::poll_auto_sort, (s, ui, list), ()),
    ensures
        !old(ui).queue.auto_sort_pending ==> final(list)@ == old(list)@ && *final(ui) == *old(ui),
        old(ui).scan_handle is None ==> final(list)@ == old(list)@ && *final(ui) == *old(ui),
        old(ui).queue.shuffle ==> final(list)@ == old(list)@,
        old(ui).queue.auto_sort_pending && (old(ui).scan_handle matches Some(h) && h.finished)
            ==> !final(ui).queue.auto_sort_pending,
        *final(s) != *old(s) ==> !old(ui).queue.shuffle && old(ui).queue.auto_sort_pending,
{
}

/// A source that is chosen takes the place of the list, and its first track is played.
/// Where there is nothing to play, all stays as it is.
pub proof fn a_chosen_source_is_played(
    s: &mut PlayerState,
    ui: &mut UiState,
    list: &mut Vec<String>,
    p: String,
    found: SourceFound,
)
    requires
        call_ensures(queue::source_chosen, (s, ui, list, Some((p, found))), ()),
    ensures
        found matches SourceFound::Listed(tracks) ==> {
            &&& final(list)@ == tracks@
            &&& final(ui).queue.current == 0
            &&& final(s).transport.jump_to_track == Some(0usize)
            &&& final(ui).queue.source_paths@.len() == 1 && final(ui).queue.source_paths@[0]@ == p@
            &&& final(ui).queue.shuffle == old(ui).queue.shuffle
        },
        found !is Listed ==> final(list)@ == old(list)@ && *final(s) == *old(s) && final(ui).queue == old(ui).queue
            && final(ui).status_message is Some,
        found is Missing ==> ui_state::told(final(ui).status_message, "Path not found: "@ + p@, old(ui).now),
{
    match found {
        SourceFound::Listed(tracks) => {
            let t = text::texts(final(ui).queue.source_paths@);
            assert(t.len() == final(ui).queue.source_paths@.len());
            assert(t[0] == final(ui).queue.source_paths@[0]@);
        },
        _ => {},
    }
}

/// What a source holds is what a playlist of it holds.
pub proof fn a_source_is_listed_as_it_is(
    source: Source,
    ui: UiState,
    seed: u64,
    r: SourceFound,
    list: Result<Vec<String>, PlaylistError>,
    gone: SourceFound,
)
    requires
        call_ensures(queue::source_found, (true, &source, &ui, seed), r),
        call_ensures(queue::source_found, (false, &source, &ui, seed), gone),
        call_ensures(playlist::build_playlist, (&source, ui.queue.shuffle, seed), list),
    ensures
        gone is Missing,
        list matches Ok(l) ==> (r matches SourceFound::Listed(v) && text::texts(v@) == text::texts(l@)),
        list is Err ==> r is Unreadable,
{
}

/// Saving is answered with how many tracks went where, or with why it failed.
pub proof fn saving_is_answered(ui: &mut UiState, list: Vec<String>, why: String)
    requires
        call_ensures(queue::playlist_saved, (ui, &list, Err(why)), ()),
    ensures
        ui_state::told(final(ui).status_message, "Save failed: "@ + why@, old(ui).now),
        final(ui).queue == old(ui).queue,
{
}

/// Turning the shuffle on keeps what has been heard and what plays in place, and every
/// track on the list.
pub proof fn the_shuffle_keeps_what_was_heard(ui: &mut UiState, list: &mut Vec<String>, seed: u64, i: int)
    requires
        call_ensures(queue::toggle_shuffle, (ui, list, seed), ()),
        !old(ui).queue.shuffle,
        old(ui).queue.current < old(list)@.len(),
        0 <= i <= old(ui).queue.current,
    ensures
        final(list)@[i] == old(list)@[i],
        final(list)@.to_multiset() == old(list)@.to_multiset(),
        final(ui).queue.current == old(ui).queue.current,
        final(ui).queue.shuffle,
{
    let was = old(list)@;
    let start = old(ui).queue.current + 1;
    if start < was.len() {
        playlist::shuffle_keeps_every_track(was, start, seed);
        assert(final(list)@.take(start)[i] == was.take(start)[i]);
    }
}

/// Whether something is among the first of some items.
spec fn is_among<T>(x: T, items: Seq<T>, n: int) -> bool {
    exists|j: int| 0 <= j < n && #[trigger] items[j] == x
}

/// Whether something is among the items that stay.
spec fn is_among_staying<T>(
    x: T,
    items: Seq<T>,
    was: Seq<Seq<char>>,
    found: Seq<Seq<char>>,
    current: int,
    failed: bool,
    n: int,
) -> bool {
    exists|j: int| 0 <= j < n && queue::stays_listed(was, found, current, failed, j) && #[trigger] items[j] == x
}

proof fn lemma_fresh_at(
    was: Seq<Seq<char>>,
    found: Seq<Seq<char>>,
    keys: Seq<Seq<char>>,
    removed: Set<Seq<char>>,
    m: int,
    i: int,
) -> (p: int)
    requires
        0 <= i < m <= found.len(),
        found.len() == keys.len(),
        queue::is_new(was, found, keys, removed, i),
    ensures
        0 <= p < queue::fresh(found, was, found, keys, removed, m).len(),
        queue::fresh(found, was, found, keys, removed, m).len() == queue::fresh(keys, was, found, keys, removed, m).len(),
        queue::fresh(found, was, found, keys, removed, m)[p] == found[i],
        queue::fresh(keys, was, found, keys, removed, m)[p] == keys[i],
        forall|q: int|
            0 <= q < p ==> is_among(#[trigger] queue::fresh(keys, was, found, keys, removed, m)[q], keys, i),
    decreases m,
{
    queue::lemma_parallel(found, keys, was, found, keys, removed, 0, false, m);
    queue::lemma_parallel(found, keys, was, found, keys, removed, 0, false, m - 1);
    let a = queue::fresh(found, was, found, keys, removed, m - 1);
    let b = queue::fresh(keys, was, found, keys, removed, m - 1);
    if i < m - 1 {
        let p = lemma_fresh_at(was, found, keys, removed, m - 1, i);
        assert forall|q: int| 0 <= q < p implies is_among(
            #[trigger] queue::fresh(keys, was, found, keys, removed, m)[q],
            keys,
            i,
        ) by {
            assert(queue::fresh(keys, was, found, keys, removed, m)[q] == b[q]);
        }
        p
    } else {
        let p = a.len() as int;
        lemma_fresh_keys(was, found, keys, removed, m - 1);
        assert forall|q: int| 0 <= q < p implies is_among(
            #[trigger] queue::fresh(keys, was, found, keys, removed, m)[q],
            keys,
            i,
        ) by {
            assert(queue::fresh(keys, was, found, keys, removed, m)[q] == b[q]);
        }
        p
    }
}

proof fn lemma_fresh_keys(
    was: Seq<Seq<char>>,
    found: Seq<Seq<char>>,
    keys: Seq<Seq<char>>,
    removed: Set<Seq<char>>,
    m: int,
)
    requires
        0 <= m <= found.len(),
        found.len() == keys.len(),
    ensures
        forall|q: int|
            0 <= q < queue::fresh(keys, was, found, keys, removed, m).len() ==> is_among(
                #[trigger] queue::fresh(keys, was, found, keys, removed, m)[q],
                keys,
                m,
            ),
        forall|q: int|
            0 <= q < queue::fresh(found, was, found, keys, removed, m).len() ==> is_among(
                #[trigger] queue::fresh(found, was, found, keys, removed, m)[q],
                found,
                m,
            ),
    decreases m,
{
    if m > 0 {
        lemma_fresh_keys(was, found, keys, removed, m - 1);
        let b = queue::fresh(keys, was, found, keys, removed, m - 1);
        let c = queue::fresh(keys, was, found, keys, removed, m);
        assert forall|q: int| 0 <= q < c.len() implies is_among(#[trigger] c[q], keys, m) by {
            if q < b.len() {
                assert(c[q] == b[q]);
                let j = choose|j: int| 0 <= j < m - 1 && #[trigger] keys[j] == b[q];
                assert(keys[j] == c[q]);
            } else {
                assert(keys[m - 1] == c[q]);
            }
        }
        let d = queue::fresh(found, was, found, keys, removed, m - 1);
        let e = queue::fresh(found, was, found, keys, removed, m);
        assert forall|q: int| 0 <= q < e.len() implies is_among(#[trigger] e[q], found, m) by {
            if q < d.len() {
                assert(e[q] == d[q]);
                let j = choose|j: int| 0 <= j < m - 1 && #[trigger] found[j] == d[q];
                assert(found[j] == e[q]);
            } else {
                assert(found[m - 1] == e[q]);
            }
        }
    }
}

proof fn lemma_staying<T>(
    items: Seq<T>,
    was: Seq<Seq<char>>,
    found: Seq<Seq<char>>,
    current: int,
    failed: bool,
    n: int,
)
    requires
        0 <= n <= items.len(),
    ensures
        forall|q: int|
            0 <= q < queue::staying(items, was, found, current, failed, n).len() ==> is_among_staying(
                #[trigger] queue::staying(items, was, found, current, failed, n)[q],
                items,
                was,
                found,
                current,
                failed,
                n,
            ),
    decreases n,
{
    if n > 0 {
        lemma_staying(items, was, found, current, failed, n - 1);
        let b = queue::staying(items, was, found, current, failed, n - 1);
        let c = queue::staying(items, was, found, current, failed, n);
        assert forall|q: int| 0 <= q < c.len() implies is_among_staying(
            #[trigger] c[q],
            items,
            was,
            found,
            current,
            failed,
            n,
        ) by {
            if q < b.len() {
                assert(c[q] == b[q]);
                let j = choose|j: int|
                    0 <= j < n - 1 && queue::stays_listed(was, found, current, failed, j) && #[trigger] items[j] == b[q];
                assert(items[j] == c[q]);
            } else {
                assert(items[n - 1] == c[q]);
            }
        }
    }
}

/// A rescan brings every file that is new and was not removed by the listener.
pub proof fn a_rescan_brings_what_is_new(
    s: &mut PlayerState,
    ui: &mut UiState,
    list: &mut Vec<String>,
    was_keys: Vec<String>,
    found: Vec<String>,
    keys: Vec<String>,
    failed: bool,
    i: int,
)
    requires
        old(list)@.len() == was_keys@.len(),
        found@.len() == keys@.len(),
        call_ensures(queue::rescan, (s, ui, list, &was_keys, &found, &keys, failed), ()),
        0 <= i < found@.len(),
        forall|j: int| 0 <= j < old(list)@.len() ==> !path::same((#[trigger] old(list)@[j])@, found@[i]@),
        forall|j: int| 0 <= j < was_keys@.len() ==> (#[trigger] was_keys@[j])@ != keys@[i]@,
        forall|j: int| 0 <= j < i ==> (#[trigger] keys@[j])@ != keys@[i]@,
        !old(ui).queue.removed_paths@.contains(keys@[i]@),
    ensures
        text::texts(final(list)@).contains(found@[i]@),
{
    let was = text::texts(old(list)@);
    let wk = text::texts(was_keys@);
    let fv = text::texts(found@);
    let kv = text::texts(keys@);
    let removed = old(ui).queue.removed_paths@;
    let current = old(ui).queue.current as int;
    let n = was.len() as int;
    let m = fv.len() as int;
    assert(fv[i] == found@[i]@ && kv[i] == keys@[i]@);
    path::lemma_place_of(was, fv[i], 0);
    assert forall|j: int| 0 <= j < was.len() implies !path::same(#[trigger] was[j], fv[i]) by {
        assert(was[j] == old(list)@[j]@);
    }
    assert(queue::is_new(was, fv, kv, removed, i));
    let p = lemma_fresh_at(was, fv, kv, removed, m, i);
    let a = queue::staying(was, was, fv, current, failed, n);
    let b = queue::fresh(fv, was, fv, kv, removed, m);
    let c = queue::staying(wk, was, fv, current, failed, n);
    let d = queue::fresh(kv, was, fv, kv, removed, m);
    queue::lemma_parallel(was, wk, was, fv, kv, removed, current, failed, n);
    lemma_staying(wk, was, fv, current, failed, n);
    let items = a + b;
    let all = c + d;
    let k = a.len() + p;
    assert(items[k] == fv[i]);
    assert(all[k] == kv[i]);
    assert(!playlist::seen(all, k, all[k])) by {
        if playlist::seen(all, k, all[k]) {
            let q = choose|q: int| 0 <= q < k && #[trigger] all[q] == all[k];
            if q < c.len() {
                assert(all[q] == c[q]);
                assert(is_among_staying(c[q], wk, was, fv, current, failed, n));
                let j = choose|j: int|
                    0 <= j < n && queue::stays_listed(was, fv, current, failed, j) && #[trigger] wk[j] == c[q];
                assert(wk[j] == was_keys@[j]@);
            } else {
                assert(all[q] == d[q - c.len()]);
                assert(is_among(d[q - c.len()], kv, i));
                let j = choose|j: int| 0 <= j < i && #[trigger] kv[j] == d[q - c.len()];
                assert(kv[j] == keys@[j]@);
            }
        }
    }
    let idx = lemma_kept(items, all, Set::empty(), items.len() as int);
    assert(idx.contains(k));
    let r = choose|r: int| 0 <= r < idx.len() && idx[r] == k;
    let now = text::texts(final(list)@);
    assert(now == path::picked(items, idx));
    assert(now[r] == items[k]);
}

/// A rescan takes off what is no longer there, but for the track that plays.
pub proof fn a_rescan_takes_off_what_is_gone(
    s: &mut PlayerState,
    ui: &mut UiState,
    list: &mut Vec<String>,
    was_keys: Vec<String>,
    found: Vec<String>,
    keys: Vec<String>,
    i: int,
)
    requires
        old(list)@.len() == was_keys@.len(),
        found@.len() == keys@.len(),
        call_ensures(queue::rescan, (s, ui, list, &was_keys, &found, &keys, false), ()),
        0 <= i < old(list)@.len(),
        forall|j: int| 0 <= j < found@.len() ==> !path::same((#[trigger] found@[j])@, old(list)@[i]@),
        old(ui).queue.current < old(list)@.len() ==> old(list)@[old(ui).queue.current as int]@ != old(list)@[i]@,
    ensures
        !text::texts(final(list)@).contains(old(list)@[i]@),
{
    let was = text::texts(old(list)@);
    let wk = text::texts(was_keys@);
    let fv = text::texts(found@);
    let kv = text::texts(keys@);
    let removed = old(ui).queue.removed_paths@;
    let current = old(ui).queue.current as int;
    let n = was.len() as int;
    let m = fv.len() as int;
    let x = old(list)@[i]@;
    assert(was[i] == x);
    assert forall|j: int| 0 <= j < fv.len() implies !path::same(#[trigger] fv[j], x) by {
        assert(fv[j] == found@[j]@);
    }
    path::lemma_place_of(fv, x, 0);
    let a = queue::staying(was, was, fv, current, false, n);
    let b = queue::fresh(fv, was, fv, kv, removed, m);
    lemma_staying(was, was, fv, current, false, n);
    lemma_fresh_keys(was, fv, kv, removed, m);
    queue::lemma_parallel(was, wk, was, fv, kv, removed, current, false, n);
    queue::lemma_parallel(fv, kv, was, fv, kv, removed, current, false, m);
    let items = a + b;
    let all = queue::staying(wk, was, fv, current, false, n) + queue::fresh(kv, was, fv, kv, removed, m);
    let idx = lemma_kept(items, all, Set::empty(), items.len() as int);
    let now = text::texts(final(list)@);
    assert(now == path::picked(items, idx));
    if now.contains(x) {
        let r = choose|r: int| 0 <= r < now.len() && now[r] == x;
        let k = idx[r];
        assert(items[k] == x);
        if k < a.len() {
            assert(a[k] == x);
            assert(is_among_staying(a[k], was, was, fv, current, false, n));
            let j = choose|j: int|
                0 <= j < n && queue::stays_listed(was, fv, current, false, j) && #[trigger] was[j] == a[k];
            assert(was[j] == x);
            if j == current {
                assert(was[j] == old(list)@[j]@);
            }
        } else {
            assert(b[k - a.len()] == x);
            assert(is_among(b[k - a.len()], fv, m));
            let j = choose|j: int| 0 <= j < m && #[trigger] fv[j] == b[k - a.len()];
            assert(path::same(fv[j], x));
        }
    }
}

/// The tags that the tree is built from are those that are known of each track; a track
/// without a title goes by the name of its file.
pub proof fn the_tree_is_built_from_tags(cache: MetadataCache, paths: Vec<String>, tags: Vec<TrackTags>, i: int)
    requires
        call_ensures(metadata::tags_of, (&cache, &paths), tags),
        0 <= i < paths@.len(),
        i < cache@.len(),
    ensures
        tags@.len() == paths@.len(),
        path::opt_text(tags@[i].artist) == cache@[i].artist,
        path::opt_text(tags@[i].album) == cache@[i].album,
        tags@[i].disc == cache@[i].disc,
        tags@[i].track == cache@[i].track,
        cache@[i].title is Some ==> tags@[i].title@ == cache@[i].title->0,
        cache@[i].title is None && path::name_in(paths@[i]@) is Some ==> tags@[i].title@ == path::name_in(paths@[i]@)->0,
{
    assert(metadata::is_tags(tags@[i], metadata::entry_at(cache@, i), paths@[i]@));
}

/// Tags stay with their tracks when the list changes; a track that was not there has
/// none yet.
pub proof fn tags_stay_with_their_tracks(
    cache: &mut MetadataCache,
    now: Vec<String>,
    was: Vec<String>,
    i: int,
    k: int,
)
    requires
        call_ensures(MetadataCache::reindex, (cache, &now, &was), ()),
        0 <= i < now@.len(),
        0 <= k < was@.len(),
        k < old(cache)@.len(),
        now@[i]@ == was@[k]@,
        forall|m: int| 0 <= m < k ==> !path::same((#[trigger] was@[m])@, now@[i]@),
    ensures
        final(cache)@.len() == now@.len(),
        final(cache)@[i] == old(cache)@[k],
{
    let w = text::texts(was@);
    let n = text::texts(now@);
    assert(n[i] == now@[i]@);
    assert(w[k] == was@[k]@);
    assert forall|m: int| 0 <= m < k implies !path::same(#[trigger] w[m], n[i]) by {
        assert(w[m] == was@[m]@);
    }
    lemma_place(w, n[i], 0, k);
}

proof fn lemma_place(paths: Seq<Seq<char>>, p: Seq<char>, i: int, k: int)
    requires
        0 <= i <= k < paths.len(),
        path::same(paths[k], p),
        forall|m: int| i <= m < k ==> !path::same(#[trigger] paths[m], p),
    ensures
        path::place_of(paths, p, i) == Some(k),
    decreases k - i,
{
    if i < k {
        assert(!path::same(paths[i], p));
        lemma_place(paths, p, i + 1, k);
    }
}

proof fn lemma_staying_at(
    was: Seq<Seq<char>>,
    keys: Seq<Seq<char>>,
    found: Seq<Seq<char>>,
    current: int,
    failed: bool,
    n: int,
    i: int,
) -> (p: int)
    requires
        0 <= i < n <= was.len(),
        was.len() == keys.len(),
        queue::stays_listed(was, found, current, failed, i),
    ensures
        0 <= p < queue::staying(was, was, found, current, failed, n).len(),
        p < queue::staying(keys, was, found, current, failed, n).len(),
        queue::staying(was, was, found, current, failed, n)[p] == was[i],
        queue::staying(keys, was, found, current, failed, n)[p] == keys[i],
        forall|q: int|
            0 <= q < p ==> is_among(#[trigger] queue::staying(keys, was, found, current, failed, n)[q], keys, i),
    decreases n,
{
    let none = Set::<Seq<char>>::empty();
    queue::lemma_parallel(was, keys, was, found, found, none, current, failed, n);
    queue::lemma_parallel(was, keys, was, found, found, none, current, failed, n - 1);
    let b = queue::staying(keys, was, found, current, failed, n - 1);
    let c = queue::staying(keys, was, found, current, failed, n);
    if i < n - 1 {
        let p = lemma_staying_at(was, keys, found, current, failed, n - 1, i);
        assert forall|q: int| 0 <= q < p implies is_among(#[trigger] c[q], keys, i) by {
            assert(c[q] == b[q]);
        }
        p
    } else {
        let p = b.len() as int;
        lemma_staying(keys, was, found, current, failed, n - 1);
        assert forall|q: int| 0 <= q < p implies is_among(#[trigger] c[q], keys, i) by {
            assert(c[q] == b[q]);
            assert(is_among_staying(b[q], keys, was, found, current, failed, n - 1));
            let j = choose|j: int|
                0 <= j < n - 1 && queue::stays_listed(was, found, current, failed, j) && #[trigger] keys[j] == b[q];
            assert(keys[j] == c[q]);
        }
        p
    }
}

/// A rescan leaves what is still there, and the track that plays; where a source could
/// not be read it leaves everything.
pub proof fn a_rescan_leaves_what_is_there(
    s: &mut PlayerState,
    ui: &mut UiState,
    list: &mut Vec<String>,
    was_keys: Vec<String>,
    found: Vec<String>,
    keys: Vec<String>,
    failed: bool,
    i: int,
    k: int,
)
    requires
        old(list)@.len() == was_keys@.len(),
        found@.len() == keys@.len(),
        call_ensures(queue::rescan, (s, ui, list, &was_keys, &found, &keys, failed), ()),
        0 <= i < old(list)@.len(),
        failed || i == old(ui).queue.current || (0 <= k < found@.len() && found@[k]@ == old(list)@[i]@),
        forall|j: int| 0 <= j < i ==> (#[trigger] was_keys@[j])@ != was_keys@[i]@,
    ensures
        text::texts(final(list)@).contains(old(list)@[i]@),
{
    let was = text::texts(old(list)@);
    let wk = text::texts(was_keys@);
    let fv = text::texts(found@);
    let kv = text::texts(keys@);
    let removed = old(ui).queue.removed_paths@;
    let current = old(ui).queue.current as int;
    let n = was.len() as int;
    let m = fv.len() as int;
    assert(was[i] == old(list)@[i]@ && wk[i] == was_keys@[i]@);
    path::lemma_place_of(fv, was[i], 0);
    if 0 <= k < found@.len() && found@[k]@ == old(list)@[i]@ {
        assert(fv[k] == found@[k]@);
        assert(path::same(fv[k], was[i]));
    }
    assert(queue::stays_listed(was, fv, current, failed, i));
    let p = lemma_staying_at(was, wk, fv, current, failed, n, i);
    let a = queue::staying(was, was, fv, current, failed, n);
    let b = queue::fresh(fv, was, fv, kv, removed, m);
    let c = queue::staying(wk, was, fv, current, failed, n);
    let d = queue::fresh(kv, was, fv, kv, removed, m);
    queue::lemma_parallel(was, wk, was, fv, kv, removed, current, failed, n);
    queue::lemma_parallel(fv, kv, was, fv, kv, removed, current, failed, m);
    let items = a + b;
    let all = c + d;
    assert(items[p] == was[i]);
    assert(all[p] == wk[i]);
    assert(!playlist::seen(all, p, all[p])) by {
        if playlist::seen(all, p, all[p]) {
            let q = choose|q: int| 0 <= q < p && #[trigger] all[q] == all[p];
            assert(all[q] == c[q]);
            assert(is_among(c[q], wk, i));
            let j = choose|j: int| 0 <= j < i && #[trigger] wk[j] == c[q];
            assert(wk[j] == was_keys@[j]@);
        }
    }
    let idx = lemma_kept(items, all, Set::empty(), items.len() as int);
    assert(idx.contains(p));
    let r = choose|r: int| 0 <= r < idx.len() && idx[r] == p;
    let now = text::texts(final(list)@);
    assert(now == path::picked(items, idx));
    assert(now[r] == items[p]);
}

/// A list is sorted by tags where its sources can be, and it is not shuffled; the tree is
/// built anew every half second while tags are read.
pub proof fn sorting_is_waited_for(
    ui: &mut UiState,
    sources: Vec<String>,
    can: bool,
    pending: bool,
    read: bool,
    shuffle: bool,
    run: bool,
    ms: u64,
    due: bool,
    first: bool,
)
    requires
        call_ensures(queue::arm_auto_sort, (ui,), ()),
        sources@ == old(ui).queue.source_paths@,
        call_ensures(queue::source_is_sortable, (&sources,), can),
        call_ensures(queue::auto_sort_should_run, (pending, read, shuffle), run),
        call_ensures(queue::tree_scan_refresh_due, (Some(ms),), due),
        call_ensures(queue::tree_scan_refresh_due, (None,), first),
    ensures
        final(ui).queue.auto_sort_pending <==> can && !old(ui).queue.shuffle,
        final(ui).queue.current == old(ui).queue.current && final(ui).view_mode == old(ui).view_mode,
        run <==> pending && read && !shuffle,
        due <==> ms >= 500,
        first,
{
}

/// What would be removed is the track under the cursor, where more than one is left.
pub proof fn the_track_under_the_cursor_is_removed(ui: UiState, n: usize, r: Option<usize>)
    requires
        call_ensures(queue::removal_target, (&ui, n), r),
        ui.list.filtered_indices@.len() == 0,
    ensures
        n <= 1 ==> r is None,
        n > 1 && ui.list.cursor < n ==> r == Some(ui.list.cursor),
        n > 1 && ui.list.cursor >= n ==> r is None,
{
    assert(ui.list@.filtered.len() == ui.list.filtered_indices@.len());
}

/// Repeating goes from off to all to one and back, for the list and for the decoder.
pub proof fn repeating_goes_round(ui: &mut UiState, s: &mut PlayerState)
    requires
        call_ensures(queue::toggle_repeat, (ui, s), ()),
    ensures
        old(ui).queue.repeat_mode is Off ==> final(ui).queue.repeat_mode is All,
        old(ui).queue.repeat_mode is All ==> final(ui).queue.repeat_mode is One,
        old(ui).queue.repeat_mode is One ==> final(ui).queue.repeat_mode is Off,
        final(s).transport.repeat_mode == final(ui).queue.repeat_mode,
        final(ui).banner.dirty,
{
}

/// The tree is built from the tags of the list as it is, and the cursor stays on it.
pub proof fn the_tree_is_kept_up(ui: &mut UiState, list: Vec<String>)
    requires
        call_ensures(queue::poll_library_tree, (ui, &list), ()),
        old(ui).tree.mode,
        old(ui).tree.dirty,
    ensures
        !final(ui).tree.dirty,
        final(ui).tree.fresh(),
        final(ui).tree.rows@.len() > 0 ==> final(ui).tree.cursor < final(ui).tree.rows@.len(),
        queue::is_tree_of(final(ui).tree.tree@, old(ui).cache@, list@),
        final(ui).queue == old(ui).queue && final(ui).list == old(ui).list,
{
    assert(final(ui).tree.rows@.len() == final(ui).tree.rows.len());
}

/// Where the list is shown as such, the tree is not looked at.
pub proof fn a_hidden_tree_is_left_alone(ui: &mut UiState, list: Vec<String>)
    requires
        call_ensures(queue::poll_library_tree, (ui, &list), ()),
        !old(ui).tree.mode,
    ensures
        *final(ui) == *old(ui),
{
}

/// An order that is restored has the tracks that are still there as they were, and those
/// that came since behind them.
pub proof fn an_order_is_restored(saved: Vec<String>, now: Vec<String>, out: Vec<String>, k: int)
    requires
        call_ensures(queue::restore_order, (&saved, &now), out),
        saved@.len() == 1,
        0 <= k < now@.len(),
        now@[k]@ == saved@[0]@,
    ensures
        out@.len() > 0 && out@[0]@ == saved@[0]@,
{
    let s = text::texts(saved@);
    let n = text::texts(now@);
    let o = text::texts(out@);
    assert(s[0] == saved@[0]@ && n[k] == now@[k]@);
    path::lemma_place_of(n, s[0], 0);
    assert(path::same(n[k], s[0]));
    assert(queue::sifted(s, n, true, 0) =~= Seq::<Seq<char>>::empty());
    assert(queue::sifted(s, n, true, 1) == queue::sifted(s, n, true, 0).push(s[0]));
    assert(o.len() == out@.len());
    assert(o[0] == s[0]);
    assert(o[0] == out@[0]@);
}

} // verus!
