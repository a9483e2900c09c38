//! What holds of the playlist however it is rearranged.
use crate::metadata;
use crate::metadata::TrackMetaV;
use crate::order;
use crate::path;
use crate::playlist;
use crate::queue;
use crate::text;
use crate::ui_state::UiState;
use vstd::prelude::*;

verus! {

/// The track that plays is found again wherever it is on the list now.
pub proof fn current_track_is_followed(now: Seq<Seq<char>>, was: Seq<Seq<char>>, current: usize)
    requires
        current < was.len(),
        now.len() <= usize::MAX,
        path::place_of(now, was[current as int], 0) is Some,
    ensures
        queue::place_or(now, was, current) < now.len(),
        path::same(now[queue::place_or(now, was, current) as int], was[current as int]),
        queue::rescanned_place(now, was, current) < now.len(),
        path::same(now[queue::rescanned_place(now, was, current) as int], was[current as int]),
{
    path::lemma_place_of(now, was[current as int], 0);
}

/// Whether all places of a list of `n` are among the first `n` of `p`, each once.
pub open spec fn is_rearrangement(p: Seq<int>, n: int) -> bool {
    &&& p.len() == n
    &&& forall|r: int| 0 <= r < n ==> 0 <= #[trigger] p[r] < n
    &&& forall|i: int| 0 <= i < n ==> #[trigger] p.contains(i)
    &&& p.no_duplicates()
}

/// Items picked in another order are the same items.
pub proof fn lemma_rearranged<T>(items: Seq<T>, p: Seq<int>)
    requires
        is_rearrangement(p, items.len() as int),
    ensures
        path::picked(items, p).to_multiset() == items.to_multiset(),
    decreases items.len(),
{
    broadcast use vstd::seq_lib::group_to_multiset_ensures;

    let n = items.len() as int;
    let out = path::picked(items, p);
    if n == 0 {
        assert(out =~= items);
    } else {
        assert(p.contains(n - 1));
        let r = choose|r: int| 0 <= r < p.len() && p[r] == n - 1;
        let q = p.remove(r);
        let rest = items.drop_last();
        assert forall|k: int| 0 <= k < n - 1 implies 0 <= #[trigger] q[k] < n - 1 by {
            let j = if k < r {
                k
            } else {
                k + 1
            };
            assert(q[k] == p[j]);
            assert(p[j] != p[r]);
        }
        assert forall|i: int| 0 <= i < n - 1 implies #[trigger] q.contains(i) by {
            assert(p.contains(i));
            let j = choose|j: int| 0 <= j < p.len() && p[j] == i;
            assert(j != r);
            let k = if j < r {
                j
            } else {
                j - 1
            };
            assert(q[k] == i);
        }
        lemma_rearranged(rest, q);
        assert(out.remove(r) =~= path::picked(rest, q));
        assert(items =~= rest.push(items[n - 1]));
        assert(out[r] == items[n - 1]);
        assert(out.contains(out[r]));
        assert(out.to_multiset() =~= out.remove(r).to_multiset().insert(out[r]));
    }
}

/// Sorting keeps every track, and as often as it was there, and the track that
/// plays goes on playing.
pub proof fn sorting_keeps_every_track(cache: Seq<TrackMetaV>, paths: Seq<Seq<char>>, current: usize)
    requires
        current < paths.len() <= usize::MAX,
    ensures
        ({
            let now = queue::by_tags(cache, paths);
            &&& now.to_multiset() == paths.to_multiset()
            &&& now.len() == paths.len()
            &&& path::same(now[queue::place_or(now, paths, current) as int], paths[current as int])
        }),
{
    let keys = metadata::tag_keys(cache, paths);
    let p = order::order_of(keys);
    order::order_exists(keys);
    assert forall|r: int, s: int| 0 <= r < s < p.len() implies p[r] != p[s] by {
        assert(order::before(keys, p[r], p[s]));
        if p[r] == p[s] {
            order::order_is_strict(keys, p[r]);
        }
    }
    lemma_rearranged(paths, p);
    let now = queue::by_tags(cache, paths);
    assert(p.contains(current as int));
    let r = choose|r: int| 0 <= r < p.len() && p[r] == current as int;
    assert(path::same(now[r], paths[current as int]));
    path::lemma_place_of(now, paths[current as int], 0);
    current_track_is_followed(now, paths, current);
}

/// Turning the shuffle on and off again changes nothing: the tracks are in the
/// order they had, and the same one plays.
pub proof fn shuffling_on_and_off_changes_nothing(
    ui0: UiState,
    was: Seq<String>,
    seed: u64,
    ui1: UiState,
    shuffled: Seq<String>,
    later: u64,
    ui2: UiState,
    now: Seq<String>,
)
    requires
        !ui0.queue.shuffle,
        ui0.queue.current < was.len() <= usize::MAX,
        path::all_differ(text::texts(was)),
        queue::shuffle_toggled(ui1, shuffled, ui0, was, seed),
        queue::shuffle_toggled(ui2, now, ui1, shuffled, later),
    ensures
        text::texts(now) == text::texts(was),
        ui2.queue.current == ui0.queue.current,
        !ui2.queue.shuffle,
{
    broadcast use vstd::seq_lib::group_to_multiset_ensures;

    let current = ui0.queue.current;
    let start = current + 1;
    let a = text::texts(was);
    let b = text::texts(shuffled);
    if start < was.len() {
        playlist::lemma_texts_shuffled(was, start, seed);
        playlist::shuffle_keeps_every_track(a, start, seed);
        assert(b == playlist::shuffled(a, start, seed));
        assert(b.take(start)[current as int] == a.take(start)[current as int]);
    }
    assert(b.to_multiset() == a.to_multiset());
    assert(b[current as int] == a[current as int]);
    queue::unshuffling_gives_the_order_back(a, b);
    assert(text::texts(now) == a);
    assert(path::same(a[current as int], b[current as int]));
    path::lemma_place_of(a, b[current as int], 0);
    current_track_is_followed(a, b, current);
    let k = queue::place_or(a, b, current) as int;
    if k < current {
        assert(!path::same(a[k], a[current as int]));
    } else if k > current {
        assert(!path::same(a[current as int], a[k]));
    }
}

proof fn lemma_different(indices: Seq<usize>, n: int, bound: int)
    requires
        0 <= n <= indices.len(),
        0 <= bound,
    ensures
        queue::different_below(indices, n, bound + 1) == queue::different_below(indices, n, bound) + (if queue::listed(
            indices.take(n),
            bound,
        ) {
            1int
        } else {
            0int
        }),
    decreases n,
{
    if n > 0 {
        lemma_different(indices, n - 1, bound);
        let head = indices.take(n - 1);
        let full = indices.take(n);
        assert(full[n - 1] == indices[n - 1]);
        if queue::listed(head, bound) {
            let k = choose|k: int| 0 <= k < head.len() && #[trigger] head[k] as int == bound;
            assert(full[k] as int == bound);
        }
        if queue::listed(full, bound) && indices[n - 1] != bound {
            let k = choose|k: int| 0 <= k < full.len() && #[trigger] full[k] as int == bound;
            assert(head[k] as int == bound);
        }
    }
}

proof fn lemma_different_is_listed(indices: Seq<usize>, bound: int)
    requires
        0 <= bound,
    ensures
        queue::different_below(indices, indices.len() as int, bound) == queue::listed_below(indices, bound),
    decreases bound,
{
    if bound > 0 {
        lemma_different_is_listed(indices, bound - 1);
        lemma_different(indices, indices.len() as int, bound - 1);
        assert(indices.take(indices.len() as int) =~= indices);
    } else {
        lemma_none_below(indices, indices.len() as int);
    }
}

proof fn lemma_none_below(indices: Seq<usize>, n: int)
    requires
        0 <= n <= indices.len(),
    ensures
        queue::different_below(indices, n, 0) == 0,
    decreases n,
{
    if n > 0 {
        lemma_none_below(indices, n - 1);
    }
}

proof fn lemma_unlisted<T>(s: Seq<T>, indices: Seq<usize>, n: int, i: int)
    requires
        0 <= i <= n <= s.len(),
    ensures
        queue::unlisted(s, indices, n).len() == n - queue::listed_below(indices, n),
        0 <= queue::listed_below(indices, i) <= i,
        i < n && !queue::listed(indices, i) ==> i - queue::listed_below(indices, i) < queue::unlisted(
            s,
            indices,
            n,
        ).len() && queue::unlisted(s, indices, n)[i - queue::listed_below(indices, i)] == s[i],
    decreases n,
{
    if n > 0 {
        if i < n {
            lemma_unlisted(s, indices, n - 1, i);
        } else {
            lemma_unlisted(s, indices, n - 1, n - 1);
        }
    }
}

/// Removing other tracks than the one that plays keeps that one playing: it is
/// found at its new place.
pub proof fn removing_others_keeps_the_current<T>(s: Seq<T>, indices: Seq<usize>, current: int)
    requires
        0 <= current < s.len(),
        !queue::listed(indices, current),
    ensures
        ({
            let left = queue::unlisted(s, indices, s.len() as int);
            let place = text::least(
                text::minus(current, queue::different_below(indices, indices.len() as int, current)),
                text::minus(left.len() as int, 1),
            );
            &&& 0 <= place < left.len()
            &&& left[place] == s[current]
        }),
{
    lemma_different_is_listed(indices, current);
    lemma_unlisted(s, indices, s.len() as int, current);
}

/// Whether a path is one of the first `n` that were found, is not removed, and is
/// the first that leads where it leads.
pub open spec fn comes_from(
    p: Seq<char>,
    found: Seq<Seq<char>>,
    keys: Seq<Seq<char>>,
    removed: Set<Seq<char>>,
    n: int,
) -> bool {
    exists|i: int|
        0 <= i < n && found[i] == p && !removed.contains(keys[i]) && !playlist::seen(keys, i, keys[i])
}

/// What was removed by hand stays away: reading the sources again brings only
/// tracks that were not removed, and each of them once.
pub proof fn removed_tracks_stay_away(
    found: Seq<Seq<char>>,
    keys: Seq<Seq<char>>,
    removed: Set<Seq<char>>,
    n: int,
)
    requires
        0 <= n <= found.len() == keys.len(),
    ensures
        forall|j: int|
            0 <= j < playlist::kept(found, keys, removed, n).len() ==> comes_from(
                #[trigger] playlist::kept(found, keys, removed, n)[j],
                found,
                keys,
                removed,
                n,
            ),
    decreases n,
{
    if n > 0 {
        removed_tracks_stay_away(found, keys, removed, n - 1);
        let before = playlist::kept(found, keys, removed, n - 1);
        let now = playlist::kept(found, keys, removed, n);
        assert forall|j: int| 0 <= j < now.len() implies comes_from(#[trigger] now[j], found, keys, removed, n) by {
            if j < before.len() {
                assert(before[j] == now[j]);
                let i = choose|i: int|
                    0 <= i < n - 1 && found[i] == now[j] && !removed.contains(keys[i]) && !playlist::seen(
                        keys,
                        i,
                        keys[i],
                    );
                assert(found[i] == now[j]);
            } else {
                assert(found[n - 1] == now[j]);
            }
        }
    }
}

/// Whether a path is one of the first `n` that were found, and is new.
pub open spec fn came_new(
    p: Seq<char>,
    was: Seq<Seq<char>>,
    found: Seq<Seq<char>>,
    keys: Seq<Seq<char>>,
    removed: Set<Seq<char>>,
    n: int,
) -> bool {
    exists|i: int| 0 <= i < n && found[i] == p && #[trigger] queue::is_new(was, found, keys, removed, i)
}

/// A rescan does not bring back what was removed by hand: every track that is new
/// on the list was found, was not on the list, and was not removed.
pub proof fn rescan_brings_nothing_back(
    was: Seq<Seq<char>>,
    found: Seq<Seq<char>>,
    keys: Seq<Seq<char>>,
    removed: Set<Seq<char>>,
    n: int,
)
    requires
        0 <= n <= found.len() == keys.len(),
    ensures
        forall|j: int|
            0 <= j < queue::fresh(found, was, found, keys, removed, n).len() ==> came_new(
                #[trigger] queue::fresh(found, was, found, keys, removed, n)[j],
                was,
                found,
                keys,
                removed,
                n,
            ),
    decreases n,
{
    if n > 0 {
        rescan_brings_nothing_back(was, found, keys, removed, n - 1);
        let before = queue::fresh(found, was, found, keys, removed, n - 1);
        let now = queue::fresh(found, was, found, keys, removed, n);
        assert forall|j: int| 0 <= j < now.len() implies came_new(#[trigger] now[j], was, found, keys, removed, n) by {
            if j < before.len() {
                assert(before[j] == now[j]);
                assert(came_new(before[j], was, found, keys, removed, n - 1));
            } else {
                assert(queue::is_new(was, found, keys, removed, n - 1));
                assert(found[n - 1] == now[j]);
            }
        }
    }
}

proof fn lemma_staying_at<T>(
    items: Seq<T>,
    was: Seq<Seq<char>>,
    found: Seq<Seq<char>>,
    current: int,
    failed: bool,
    i: int,
    n: int,
)
    requires
        0 <= i < n <= items.len(),
        queue::stays_listed(was, found, current, failed, i),
    ensures
        ({
            let before = queue::staying(items, was, found, current, failed, i);
            let now = queue::staying(items, was, found, current, failed, n);
            &&& before.len() < now.len()
            &&& now.take(before.len() as int) == before
            &&& now[before.len() as int] == items[i]
        }),
    decreases n,
{
    let before = queue::staying(items, was, found, current, failed, i);
    let now = queue::staying(items, was, found, current, failed, n);
    if i < n - 1 {
        lemma_staying_at(items, was, found, current, failed, i, n - 1);
        let mid = queue::staying(items, was, found, current, failed, n - 1);
        assert(now.take(before.len() as int) =~= mid.take(before.len() as int));
    } else {
        assert(now.take(before.len() as int) =~= before);
    }
}

proof fn lemma_staying_from(
    keys: Seq<Seq<char>>,
    was: Seq<Seq<char>>,
    found: Seq<Seq<char>>,
    current: int,
    failed: bool,
    n: int,
    key: Seq<char>,
)
    requires
        0 <= n <= keys.len(),
        !playlist::seen(keys, n, key),
    ensures
        !queue::staying(keys, was, found, current, failed, n).contains(key),
    decreases n,
{
    if n > 0 {
        assert(keys[n - 1] != key);
        assert(!playlist::seen(keys, n - 1, key)) by {
            if playlist::seen(keys, n - 1, key) {
                let i = choose|i: int| 0 <= i < n - 1 && #[trigger] keys[i] == key;
                assert(keys[i] == key && i < n);
            }
        }
        lemma_staying_from(keys, was, found, current, failed, n - 1, key);
        let before = queue::staying(keys, was, found, current, failed, n - 1);
        let now = queue::staying(keys, was, found, current, failed, n);
        if now.contains(key) {
            let j = choose|j: int| 0 <= j < now.len() && now[j] == key;
            assert(before[j] == key);
        }
    }
}

proof fn lemma_kept_first(list: Seq<Seq<char>>, keys: Seq<Seq<char>>, n: int, m: int)
    requires
        0 <= m < n <= list.len() == keys.len(),
        !playlist::seen(keys, m, keys[m]),
    ensures
        playlist::kept(list, keys, Set::empty(), n).contains(list[m]),
    decreases n,
{
    let now = playlist::kept(list, keys, Set::empty(), n);
    let before = playlist::kept(list, keys, Set::empty(), n - 1);
    if m < n - 1 {
        lemma_kept_first(list, keys, n - 1, m);
        let j = choose|j: int| 0 <= j < before.len() && before[j] == list[m];
        assert(now[j] == list[m]);
    } else {
        assert(now[before.len() as int] == list[m]);
    }
}

/// A rescan keeps the track that plays on the list, even where its file is gone,
/// and goes on with it.
pub proof fn rescan_keeps_what_plays(
    was: Seq<Seq<char>>,
    was_keys: Seq<Seq<char>>,
    found: Seq<Seq<char>>,
    keys: Seq<Seq<char>>,
    removed: Set<Seq<char>>,
    current: usize,
    failed: bool,
)
    requires
        current < was.len() == was_keys.len(),
        found.len() == keys.len(),
        !playlist::seen(was_keys, current as int, was_keys[current as int]),
        queue::rescanned(was, was_keys, found, keys, removed, current as int, failed).len() <= usize::MAX,
    ensures
        ({
            let now = queue::rescanned(was, was_keys, found, keys, removed, current as int, failed);
            let place = queue::rescanned_place(now, was, current);
            &&& place < now.len()
            &&& path::same(now[place as int], was[current as int])
        }),
{
    let c = current as int;
    let n = was.len() as int;
    let f = found.len() as int;
    let a = queue::staying(was, was, found, c, failed, n);
    let b = queue::staying(was_keys, was, found, c, failed, n);
    let m = queue::staying(was, was, found, c, failed, c).len() as int;
    let list = a + queue::fresh(found, was, found, keys, removed, f);
    let list_keys = b + queue::fresh(keys, was, found, keys, removed, f);
    lemma_staying_at(was, was, found, c, failed, c, n);
    lemma_staying_at(was_keys, was, found, c, failed, c, n);
    queue::lemma_parallel(was, was_keys, was, found, keys, removed, c, failed, c);
    queue::lemma_parallel(was, was_keys, was, found, keys, removed, c, failed, n);
    queue::lemma_parallel(found, keys, was, found, keys, removed, c, failed, f);
    lemma_staying_from(was_keys, was, found, c, failed, c, was_keys[c]);
    let head = queue::staying(was_keys, was, found, c, failed, c);
    assert(list_keys[m] == was_keys[c]);
    assert(!playlist::seen(list_keys, m, list_keys[m])) by {
        if playlist::seen(list_keys, m, list_keys[m]) {
            let i = choose|i: int| 0 <= i < m && #[trigger] list_keys[i] == list_keys[m];
            assert(b.take(m)[i] == b[i]);
            assert(head[i] == was_keys[c]);
            assert(head.contains(was_keys[c]));
        }
    }
    lemma_kept_first(list, list_keys, list.len() as int, m);
    let now = queue::rescanned(was, was_keys, found, keys, removed, c, failed);
    let j = choose|j: int| 0 <= j < now.len() && now[j] == list[m];
    assert(list[m] == was[c]);
    assert(path::same(now[j], was[c]));
    path::lemma_place_of(now, was[c], 0);
    current_track_is_followed(now, was, current);
}

} // verus!
