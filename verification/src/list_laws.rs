//! What a listener can count on of the playlist: what is on it, in which order,
//! and what is found in it.
use crate::metadata;
use crate::metadata::TrackMetaV;
use crate::order;
use crate::order::PartView;
use crate::path;
use crate::playlist;
use crate::playlist::{PlaylistError, Source};
use crate::queue;
use crate::queue_laws;
use crate::state::PlayerState;
use crate::text;
use crate::text_laws;
use crate::ui_state::UiState;
use vstd::prelude::*;

verus! {

/// Whether a text is a word in small letters, each letter small or capital.
pub open spec fn alike(s: Seq<char>, word: Seq<char>) -> bool {
    &&& s.len() == word.len()
    &&& forall|i: int|
        0 <= i < s.len() ==> #[trigger] s[i] == word[i] || ('A' <= s[i] && s[i] <= 'Z' && s[i] as u32 + 32
            == word[i] as u32)
}

/// Whether a word is made of small letters and digits.
pub open spec fn is_small(word: Seq<char>) -> bool {
    forall|i: int|
        0 <= i < word.len() ==> ('a' <= #[trigger] word[i] && word[i] <= 'z') || ('0' <= word[i] && word[i] <= '9')
}

pub proof fn lemma_alike(s: Seq<char>, word: Seq<char>)
    requires
        alike(s, word),
        is_small(word),
    ensures
        text::is_ascii(s),
        text::lowered(s) == word,
{
    assert forall|i: int| 0 <= i < s.len() implies (#[trigger] s[i]) as u32 <= 0x7f && text::lower_char(s[i])
        == word[i] by {
        assert(s[i] == word[i] || ('A' <= s[i] && s[i] <= 'Z' && s[i] as u32 + 32 == word[i] as u32));
        assert(('a' <= word[i] && word[i] <= 'z') || ('0' <= word[i] && word[i] <= '9'));
        lemma_small_char(s[i], word[i]);
    }
    assert(text::lowered(s) =~= word);
}

proof fn lemma_small_char(c: char, w: char)
    requires
        c == w || ('A' <= c && c <= 'Z' && c as u32 + 32 == w as u32),
        ('a' <= w && w <= 'z') || ('0' <= w && w <= '9'),
    ensures
        c as u32 <= 0x7f,
        text::lower_char(c) == w,
{
}

/// Every file of a kind that can be played is: MP3, FLAC, WAV, Ogg, AAC, M4A, MP4,
/// M4B and AIFF, however its extension is written.
pub proof fn every_kind_of_audio_is_played(p: &str, r: bool, ext: Seq<char>)
    requires
        call_ensures(playlist::is_supported, (p,), r),
        path::extension_in(p@) == Some(ext),
        alike(ext, "mp3"@) || alike(ext, "flac"@) || alike(ext, "wav"@) || alike(ext, "ogg"@) || alike(ext, "aac"@)
            || alike(ext, "m4a"@) || alike(ext, "mp4"@) || alike(ext, "m4b"@) || alike(ext, "aiff"@) || alike(
            ext,
            "aif"@,
        ),
    ensures
        r,
{
    lemma_words_are_small();
    lemma_audio(ext);
}

proof fn lemma_words_are_small()
    ensures
        is_small("mp3"@) && is_small("flac"@) && is_small("wav"@) && is_small("ogg"@) && is_small("aac"@),
        is_small("m4a"@) && is_small("mp4"@) && is_small("m4b"@) && is_small("aiff"@) && is_small("aif"@),
{
    reveal_strlit("mp3");
    reveal_strlit("flac");
    reveal_strlit("wav");
    reveal_strlit("ogg");
    reveal_strlit("aac");
    reveal_strlit("m4a");
    reveal_strlit("mp4");
    reveal_strlit("m4b");
    reveal_strlit("aiff");
    reveal_strlit("aif");
}

proof fn lemma_audio(ext: Seq<char>)
    requires
        alike(ext, "mp3"@) || alike(ext, "flac"@) || alike(ext, "wav"@) || alike(ext, "ogg"@) || alike(ext, "aac"@)
            || alike(ext, "m4a"@) || alike(ext, "mp4"@) || alike(ext, "m4b"@) || alike(ext, "aiff"@) || alike(
            ext,
            "aif"@,
        ),
    ensures
        text::is_ascii(ext),
        playlist::is_playable(text::lowered(ext)),
{
    lemma_words_are_small();
    if alike(ext, "mp3"@) {
        lemma_alike(ext, "mp3"@);
    } else if alike(ext, "flac"@) {
        lemma_alike(ext, "flac"@);
    } else if alike(ext, "wav"@) {
        lemma_alike(ext, "wav"@);
    } else if alike(ext, "ogg"@) {
        lemma_alike(ext, "ogg"@);
    } else if alike(ext, "aac"@) {
        lemma_alike(ext, "aac"@);
    } else if alike(ext, "m4a"@) {
        lemma_alike(ext, "m4a"@);
    } else if alike(ext, "mp4"@) {
        lemma_alike(ext, "mp4"@);
    } else if alike(ext, "m4b"@) {
        lemma_alike(ext, "m4b"@);
    } else if alike(ext, "aiff"@) {
        lemma_alike(ext, "aiff"@);
    } else {
        lemma_alike(ext, "aif"@);
    }
}

/// Nothing else is taken for audio: of a file whose extension is ASCII it has to be
/// one of those, and a file without an extension is none.
pub proof fn nothing_else_is_played(p: &str, r: bool)
    requires
        call_ensures(playlist::is_supported, (p,), r),
        r,
        path::extension_in(p@) matches Some(e) ==> text::is_ascii(e),
    ensures
        path::extension_in(p@) matches Some(e) && {
            let w = text::lowered(e);
            w == "mp3"@ || w == "flac"@ || w == "wav"@ || w == "ogg"@ || w == "aac"@ || w == "m4a"@ || w == "mp4"@
                || w == "m4b"@ || w == "aiff"@ || w == "aif"@
        },
{
}

proof fn lemma_playable(paths: Seq<Seq<char>>, n: int)
    requires
        0 <= n <= paths.len(),
    ensures
        forall|i: int|
            0 <= i < n && playlist::is_audio(#[trigger] paths[i]) ==> playlist::playable(paths, n).contains(paths[i]),
        forall|j: int|
            0 <= j < playlist::playable(paths, n).len() ==> playlist::is_audio(
                #[trigger] playlist::playable(paths, n)[j],
            ) && paths.contains(playlist::playable(paths, n)[j]),
    decreases n,
{
    if n > 0 {
        lemma_playable(paths, n - 1);
        let a = playlist::playable(paths, n - 1);
        let b = playlist::playable(paths, n);
        assert forall|i: int| 0 <= i < n && playlist::is_audio(#[trigger] paths[i]) implies b.contains(paths[i]) by {
            if i < n - 1 {
                assert(a.contains(paths[i]));
                let j = choose|j: int| 0 <= j < a.len() && a[j] == paths[i];
                assert(b[j] == paths[i]);
            } else {
                assert(b[b.len() - 1] == paths[i]);
            }
        }
        assert forall|j: int| 0 <= j < b.len() implies playlist::is_audio(#[trigger] b[j]) && paths.contains(b[j]) by {
            if j < a.len() {
                assert(b[j] == a[j]);
            } else {
                assert(paths[n - 1] == b[j]);
            }
        }
    }
}

proof fn lemma_sorted_paths(paths: Seq<Seq<char>>)
    ensures
        path::sorted_paths(paths).to_multiset() == paths.to_multiset(),
        path::sorted_paths(paths).len() == paths.len(),
        forall|a: int, b: int|
            0 <= a < b < paths.len() ==> !order::key_less(
                path::sort_parts(#[trigger] path::sorted_paths(paths)[b]),
                path::sort_parts(#[trigger] path::sorted_paths(paths)[a]),
                0,
            ),
{
    let keys = path::path_keys(paths);
    let p = order::order_of(keys);
    order::order_exists(keys);
    assert forall|r: int, s: int| 0 <= r < s < p.len() implies p[r] != p[s] by {
        assert(order::before(keys, p[r], p[s]));
        if p[r] == p[s] {
            order::order_is_strict(keys, p[r]);
        }
    }
    queue_laws::lemma_rearranged(paths, p);
    let now = path::sorted_paths(paths);
    assert forall|a: int, b: int| 0 <= a < b < paths.len() implies !order::key_less(
        path::sort_parts(#[trigger] now[b]),
        path::sort_parts(#[trigger] now[a]),
        0,
    ) by {
        assert(order::before(keys, p[a], p[b]));
        order::order_goes_one_way(keys, p[a], p[b]);
        assert(keys[p[a]] == path::sort_parts(now[a]));
        assert(keys[p[b]] == path::sort_parts(now[b]));
    }
}

/// A folder's playlist holds every audio file of the folder, and nothing but those,
/// each as often as it is there; it fails exactly where there is none. A shuffle
/// changes the order alone.
pub proof fn a_folder_is_played_in_full(
    files: Vec<String>,
    shuffle: bool,
    seed: u64,
    r: Result<Vec<String>, PlaylistError>,
)
    requires
        call_ensures(playlist::build_playlist, (&Source::Folder(files), shuffle, seed), r),
    ensures
        r is Ok <==> exists|i: int| 0 <= i < files@.len() && playlist::is_audio((#[trigger] files@[i])@),
        r matches Ok(list) ==> {
            &&& forall|i: int|
                0 <= i < files@.len() && playlist::is_audio((#[trigger] files@[i])@) ==> text::texts(
                    list@,
                ).contains(files@[i]@)
            &&& forall|j: int|
                0 <= j < list@.len() ==> playlist::is_audio((#[trigger] list@[j])@) && text::texts(files@).contains(
                    list@[j]@,
                )
        },
{
    broadcast use vstd::seq_lib::group_to_multiset_ensures;

    let fv = text::texts(files@);
    let found = playlist::playable(fv, fv.len() as int);
    lemma_playable(fv, fv.len() as int);
    lemma_sorted_paths(found);
    let sorted = path::sorted_paths(found);
    playlist::shuffle_keeps_every_track(sorted, 0, seed);
    assert forall|i: int| 0 <= i < files@.len() implies fv[i] == (#[trigger] files@[i])@ by {}
    match r {
        Ok(list) => {
            let lv = text::texts(list@);
            assert(lv.to_multiset() == found.to_multiset());
            assert forall|i: int| 0 <= i < files@.len() && playlist::is_audio((#[trigger] files@[i])@) implies lv.contains(
                files@[i]@,
            ) by {
                assert(fv[i] == files@[i]@);
                assert(found.contains(fv[i]));
                assert(found.to_multiset().count(fv[i]) > 0);
            }
            assert forall|j: int| 0 <= j < list@.len() implies playlist::is_audio((#[trigger] list@[j])@)
                && fv.contains(list@[j]@) by {
                assert(lv[j] == list@[j]@);
                assert(lv.contains(lv[j]));
                assert(found.to_multiset().count(lv[j]) > 0);
                assert(found.contains(lv[j]));
                let m = choose|m: int| 0 <= m < found.len() && found[m] == lv[j];
                assert(playlist::is_audio(found[m]));
            }
            assert(lv.len() > 0);
            assert(playlist::is_audio(list@[0]@) && fv.contains(list@[0]@));
            let i = choose|i: int| 0 <= i < fv.len() && fv[i] == list@[0]@;
            assert(playlist::is_audio(files@[i]@));
        },
        Err(_) => {
            assert(found.len() == 0);
            if exists|i: int| 0 <= i < files@.len() && playlist::is_audio((#[trigger] files@[i])@) {
                let i = choose|i: int| 0 <= i < files@.len() && playlist::is_audio((#[trigger] files@[i])@);
                assert(fv[i] == files@[i]@);
                assert(found.contains(fv[i]));
            }
        },
    }
}

/// Unshuffled, no file of a folder's playlist is ahead of one whose folders and
/// name come first.
pub proof fn a_folder_is_played_in_order(files: Vec<String>, seed: u64, list: Vec<String>, a: int, b: int)
    requires
        call_ensures(
            playlist::build_playlist,
            (&Source::Folder(files), false, seed),
            Ok::<Vec<String>, PlaylistError>(list),
        ),
        0 <= a < b < list@.len(),
    ensures
        !order::key_less(path::sort_parts(list@[b]@), path::sort_parts(list@[a]@), 0),
{
    let fv = text::texts(files@);
    lemma_sorted_paths(playlist::playable(fv, fv.len() as int));
    let lv = text::texts(list@);
    assert(lv[a] == list@[a]@ && lv[b] == list@[b]@);
}

/// A single file is played whatever it is called, and what is not there is not.
pub proof fn a_file_is_played_as_it_is(
    p: String,
    shuffle: bool,
    seed: u64,
    r: Result<Vec<String>, PlaylistError>,
    none: Result<Vec<String>, PlaylistError>,
)
    requires
        call_ensures(playlist::build_playlist, (&Source::File(p), shuffle, seed), r),
        call_ensures(playlist::build_playlist, (&Source::Missing, shuffle, seed), none),
    ensures
        r matches Ok(list) && list@.len() == 1 && list@[0]@ == p@,
        none is Err,
{
    match r {
        Ok(list) => {
            assert(text::texts(list@)[0] == list@[0]@);
        },
        Err(_) => {},
    }
}

/// Whether a text comes first of two: at the first character that differs it has
/// the lesser one, or it ends there.
pub open spec fn comes_first(a: Seq<char>, b: Seq<char>) -> bool {
    exists|k: int|
        0 <= k < b.len() && k <= a.len() && #[trigger] a.take(k) == b.take(k) && (k == a.len() || a[k] < b[k])
}

proof fn lemma_comes_first(a: Seq<char>, b: Seq<char>, k: int, i: int)
    requires
        0 <= i <= k < b.len(),
        k <= a.len(),
        a.take(k) == b.take(k),
        k == a.len() || a[k] < b[k],
    ensures
        order::text_less(a, b, i),
        a != b,
    decreases k - i,
{
    if i == k && k < a.len() {
        assert(a[i] != b[i]);
    }
    if i < k {
        assert(a.take(k)[i] == a[i]);
        assert(b.take(k)[i] == b[i]);
        assert(a[i] == b[i]);
        lemma_comes_first(a, b, k, i + 1);
    }
}

pub proof fn lemma_text_first(a: Seq<char>, b: Seq<char>)
    requires
        comes_first(a, b),
    ensures
        order::part_less(PartView::Text(a), PartView::Text(b)),
        a != b,
{
    let k = choose|k: int|
        0 <= k < b.len() && k <= a.len() && #[trigger] a.take(k) == b.take(k) && (k == a.len() || a[k] < b[k]);
    lemma_comes_first(a, b, k, 0);
}

proof fn lemma_parts_joined(s: Seq<char>, dir: Seq<char>, name: Seq<char>, i: int)
    requires
        s == dir.push('/') + name,
        name.len() > 0,
        forall|k: int| 0 <= k < name.len() ==> #[trigger] name[k] != '/',
        name != seq!['.'],
        name != seq!['.', '.'],
        0 <= i <= dir.len(),
    ensures
        path::parts_from(s, i) == path::parts_from(dir, i).push(PartView::Text(name)),
    decreases dir.len() - i,
{
    let n = dir.len() as int;
    assert(s[n] == '/');
    assert forall|k: int| n + 1 <= k < s.len() implies #[trigger] s[k] != '/' by {
        assert(s[k] == name[k - n - 1]);
    }
    text_laws::lemma_find_first(s, '/', n + 1, s.len() as int);
    assert(s.subrange(n + 1, s.len() as int) =~= name);
    assert(path::parts_from(s, n + 1) =~= seq![PartView::Text(name)]);
    if i == n {
        text_laws::lemma_find_first(s, '/', n, n);
        assert(s.subrange(n, n).len() == 0);
        assert(path::parts_from(s, i) =~= path::parts_from(dir, i).push(PartView::Text(name)));
    } else {
        let j = text::find_from(dir, '/', i);
        text::lemma_find_from(dir, '/', i);
        lemma_find_before(dir, '/', i);
        assert forall|k: int| i <= k < j implies #[trigger] s[k] != '/' by {
            assert(s[k] == dir[k]);
        }
        if j < n {
            assert(s[j] == dir[j]);
        }
        text_laws::lemma_find_first(s, '/', i, j);
        assert(s.subrange(i, j) =~= dir.subrange(i, j));
        if j < n {
            lemma_parts_joined(s, dir, name, j + 1);
        }
        assert(path::parts_from(s, i) =~= path::parts_from(dir, i).push(PartView::Text(name)));
    }
}

proof fn lemma_find_before(s: Seq<char>, c: char, i: int)
    requires
        0 <= i <= s.len(),
    ensures
        forall|k: int| i <= k < text::find_from(s, c, i) ==> #[trigger] s[k] != c,
    decreases s.len() - i,
{
    if i < s.len() && s[i] != c {
        lemma_find_before(s, c, i + 1);
    }
}

proof fn lemma_last_part_decides(p: Seq<PartView>, x: PartView, y: PartView, i: int)
    requires
        0 <= i <= p.len(),
        x != y,
        order::part_less(x, y),
    ensures
        order::key_less(p.push(x), p.push(y), i),
    decreases p.len() - i,
{
    if i < p.len() {
        assert(p.push(x)[i] == p.push(y)[i]);
        lemma_last_part_decides(p, x, y, i + 1);
    }
}

/// Whether a text can be the name of a file.
pub open spec fn is_name(name: Seq<char>) -> bool {
    &&& name.len() > 0
    &&& forall|k: int| 0 <= k < name.len() ==> #[trigger] name[k] != '/'
    &&& name != seq!['.']
    &&& name != seq!['.', '.']
}

/// Of two files of one folder the one whose name comes first is played first.
pub proof fn files_of_a_folder_are_in_order(
    files: Vec<String>,
    seed: u64,
    list: Vec<String>,
    dir: Seq<char>,
    x: Seq<char>,
    y: Seq<char>,
    a: int,
    b: int,
)
    requires
        call_ensures(
            playlist::build_playlist,
            (&Source::Folder(files), false, seed),
            Ok::<Vec<String>, PlaylistError>(list),
        ),
        is_name(x) && is_name(y),
        comes_first(x, y),
        0 <= a < list@.len(),
        0 <= b < list@.len(),
        list@[a]@ == dir.push('/') + x,
        list@[b]@ == dir.push('/') + y,
    ensures
        a < b,
{
    let s = dir.push('/') + x;
    let t = dir.push('/') + y;
    lemma_parts_joined(s, dir, x, 0);
    lemma_parts_joined(t, dir, y, 0);
    lemma_text_first(x, y);
    let head = if s[0] == '/' {
        seq![PartView::Num(1)]
    } else {
        Seq::empty()
    };
    assert(s[0] == t[0]);
    let p = head + path::parts_from(dir, 0);
    assert(path::sort_parts(s) =~= p.push(PartView::Text(x)));
    assert(path::sort_parts(t) =~= p.push(PartView::Text(y)));
    lemma_last_part_decides(p, PartView::Text(x), PartView::Text(y), 0);
    if b < a {
        a_folder_is_played_in_order(files, seed, list, b, a);
    }
    if a == b {
        assert(s.skip(dir.len() as int + 1) =~= x);
        assert(t.skip(dir.len() as int + 1) =~= y);
    }
}

/// The text of a tag in small letters; nothing where there is no such tag.
pub open spec fn small(t: Option<Seq<char>>) -> Seq<char> {
    match t {
        Some(t) => text::folded(t),
        None => text::folded(Seq::empty()),
    }
}

/// The number of a tag, or 0.
pub open spec fn numbered(n: Option<u32>) -> int {
    match n {
        Some(n) => n as int,
        None => 0,
    }
}

/// Whether anything is known of a track.
pub open spec fn has_tags(e: TrackMetaV) -> bool {
    e.artist is Some || e.album is Some || e.title is Some
}

/// Whether a track belongs ahead of another: it has tags and the other none; or its
/// artist comes first, or of one artist its album, or of one album its disc, or of
/// one disc its number; or, with all that the same, its title.
pub open spec fn belongs_ahead(a: TrackMetaV, b: TrackMetaV) -> bool {
    ||| has_tags(a) && !has_tags(b)
    ||| has_tags(a) == has_tags(b) && {
        ||| comes_first(small(a.artist), small(b.artist))
        ||| small(a.artist) == small(b.artist) && {
            ||| comes_first(small(a.album), small(b.album))
            ||| small(a.album) == small(b.album) && {
                ||| numbered(a.disc) < numbered(b.disc)
                ||| numbered(a.disc) == numbered(b.disc) && {
                    ||| numbered(a.track) < numbered(b.track)
                    ||| numbered(a.track) == numbered(b.track) && comes_first(small(a.title), small(b.title))
                }
            }
        }
    }
}

proof fn lemma_key_first(a: TrackMetaV, p: Seq<char>, b: TrackMetaV, q: Seq<char>)
    requires
        belongs_ahead(a, b),
    ensures
        order::key_less(metadata::tag_key(a, p), metadata::tag_key(b, q), 0),
{
    reveal_with_fuel(order::key_less, 7);
    if comes_first(small(a.artist), small(b.artist)) {
        lemma_text_first(small(a.artist), small(b.artist));
    }
    if comes_first(small(a.album), small(b.album)) {
        lemma_text_first(small(a.album), small(b.album));
    }
    if comes_first(small(a.title), small(b.title)) {
        lemma_text_first(small(a.title), small(b.title));
    }
}

/// Sorted by tags, a track stands ahead of every track that it belongs ahead of: of
/// two tracks of one album and disc the one with the lower number, whatever their
/// titles are.
pub proof fn albums_are_in_order(
    state: &mut PlayerState,
    ui: &mut UiState,
    list: &mut Vec<String>,
    i: int,
    j: int,
    a: int,
    b: int,
)
    requires
        call_ensures(queue::sort_playlist_by_tags, (state, ui, list), ()),
        text::texts(old(list)@).no_duplicates(),
        0 <= i < old(list)@.len(),
        0 <= j < old(list)@.len(),
        belongs_ahead(metadata::entry_at(old(ui).cache@, i), metadata::entry_at(old(ui).cache@, j)),
        0 <= a < final(list)@.len(),
        0 <= b < final(list)@.len(),
        final(list)@[a]@ == old(list)@[i]@,
        final(list)@[b]@ == old(list)@[j]@,
    ensures
        a < b,
{
    let cache = old(ui).cache@;
    let was = text::texts(old(list)@);
    let now = text::texts(final(list)@);
    lemma_key_first(metadata::entry_at(cache, i), was[i], metadata::entry_at(cache, j), was[j]);
    let keys = metadata::tag_keys(cache, was);
    assert(order::before(keys, i, j));
    order::order_goes_one_way(keys, i, j);
    order::order_is_strict(keys, i);
    if old(list)@.len() >= 2 {
        let p = order::order_of(keys);
        order::order_exists(keys);
        assert(now == queue::by_tags(cache, was));
        assert(now[a] == final(list)@[a]@ && now[b] == final(list)@[b]@);
        assert(was[i] == old(list)@[i]@ && was[j] == old(list)@[j]@);
        assert(now[a] == was[p[a]] && now[b] == was[p[b]]);
        assert(p[a] == i && p[b] == j);
        if b < a {
            assert(order::before(keys, p[b], p[a]));
        }
    }
}

/// In particular, by its number within a disc.
pub proof fn tracks_of_a_disc_are_in_order(
    state: &mut PlayerState,
    ui: &mut UiState,
    list: &mut Vec<String>,
    i: int,
    j: int,
    a: int,
    b: int,
)
    requires
        call_ensures(queue::sort_playlist_by_tags, (state, ui, list), ()),
        text::texts(old(list)@).no_duplicates(),
        0 <= i < old(list)@.len(),
        0 <= j < old(list)@.len(),
        ({
            let x = metadata::entry_at(old(ui).cache@, i);
            let y = metadata::entry_at(old(ui).cache@, j);
            &&& x.artist is Some && y.artist is Some && text::folded(x.artist->0) == text::folded(y.artist->0)
            &&& x.album is Some && y.album is Some && text::folded(x.album->0) == text::folded(y.album->0)
            &&& x.disc == y.disc
            &&& x.track is Some && y.track is Some && x.track->0 < y.track->0
        }),
        0 <= a < final(list)@.len(),
        0 <= b < final(list)@.len(),
        final(list)@[a]@ == old(list)@[i]@,
        final(list)@[b]@ == old(list)@[j]@,
    ensures
        a < b,
{
    albums_are_in_order(state, ui, list, i, j, a, b);
}

} // verus!
