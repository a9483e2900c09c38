//! The playlist: which files are in it, and in which order.
use crate::library::NameSet;
use crate::path;
use crate::path::{extension, sort_paths};
use crate::text;
use vstd::prelude::*;

verus! {

/// Whether an extension, in lower case, is that of a file that can be played.
pub open spec fn is_playable(ext: Seq<char>) -> bool {
    ext == "mp3"@ || ext == "flac"@ || ext == "wav"@ || ext == "ogg"@ || ext == "aac"@ || ext == "m4a"@ || ext
        == "mp4"@ || ext == "m4b"@ || ext == "aiff"@ || ext == "aif"@
}

/// Whether a path has the extension of a file that can be played, in any case.
pub open spec fn is_audio(path: Seq<char>) -> bool {
    match path::extension_in(path) {
        Some(e) => is_playable(text::folded(e)),
        None => false,
    }
}

/// Whether a path has the extension of a file that can be played.
pub fn is_supported(path: &str) -> (r: bool)
    ensures
        r == is_audio(path@),
{
    match extension(path) {
        Some(e) => {
            let low: String = e.to_lowercase();
            let l: &str = low.as_str();
            l.eq("mp3") || l.eq("flac") || l.eq("wav") || l.eq("ogg") || l.eq("aac") || l.eq("m4a") || l.eq(
                "mp4",
            ) || l.eq("m4b") || l.eq("aiff") || l.eq("aif")
        },
        None => false,
    }
}

/// The random numbers of a shuffle.
pub open spec fn next_random(rng: u64) -> u64 {
    ((rng as int * 6364136223846793005 + 1) % 0x1_0000_0000_0000_0000) as u64
}

/// `s` with two of its items exchanged.
pub open spec fn swapped<T>(s: Seq<T>, i: int, j: int) -> Seq<T> {
    s.update(i, s[j]).update(j, s[i])
}

/// `s` shuffled up to place `i`, from there down: each place gets one of those
/// not behind it.
pub open spec fn shuffled_to<T>(s: Seq<T>, i: int, rng: u64) -> Seq<T>
    decreases i,
{
    if i <= 0 {
        s
    } else {
        let r = next_random(rng);
        shuffled_to(swapped(s, i, r as int % (i + 1)), i - 1, r)
    }
}

/// `s` shuffled, from `start` on.
pub open spec fn shuffled<T>(s: Seq<T>, start: int, seed: u64) -> Seq<T> {
    let tail = s.subrange(start, s.len() as int);
    s.take(start) + shuffled_to(tail, tail.len() - 1, seed)
}

/// A step of the generator.
fn step_random(rng: u64) -> (r: u64)
    ensures
        r == next_random(rng),
{
    let x: u128 = rng as u128 * 6364136223846793005u128 + 1;
    (x % 0x1_0000_0000_0000_0000u128) as u64
}

/// Exchanges two items.
fn swap_strings(list: &mut Vec<String>, i: usize, j: usize)
    requires
        i < old(list)@.len(),
        j < old(list)@.len(),
    ensures
        final(list)@ == swapped(old(list)@, i as int, j as int),
{
    let a: String = list[i].clone();
    let b: String = list[j].clone();
    list.set(i, b);
    list.set(j, a);
}

/// Shuffles the items from `start` on.
fn shuffle_from(list: &mut Vec<String>, start: usize, seed: u64)
    requires
        start <= old(list)@.len(),
    ensures
        final(list)@ == shuffled(old(list)@, start as int, seed),
{
    let ghost first = list@;
    let ghost head = first.take(start as int);
    let ghost tail = first.subrange(start as int, first.len() as int);
    let n: usize = list.len() - start;
    if n == 0 {
        assert(shuffled(first, start as int, seed) =~= first);
        return;
    }
    let mut rng: u64 = seed;
    let mut i: usize = n - 1;
    assert(list@ =~= head + tail);
    let ghost mut cur = tail;
    while i > 0
        invariant
            n == first.len() - start,
            0 <= start <= first.len() <= usize::MAX,
            head == first.take(start as int),
            tail == first.subrange(start as int, first.len() as int),
            i < n,
            cur.len() == n,
            list@ == head + cur,
            shuffled_to(cur, i as int, rng) == shuffled_to(tail, n - 1, seed),
        decreases i,
    {
        rng = step_random(rng);
        let j: usize = (rng % (i as u64 + 1)) as usize;
        let ghost next = swapped(cur, i as int, j as int);
        swap_strings(list, start + i, start + j);
        assert(list@ =~= head + next);
        proof {
            cur = next;
        }
        i = i - 1;
    }
}

/// Shuffles a list, every item among those not behind it. The seed decides the
/// order.
pub fn shuffle_list(list: &mut Vec<String>, seed: u64)
    ensures
        final(list)@ == shuffled(old(list)@, 0, seed),
{
    shuffle_from(list, 0, seed);
}

/// Shuffles the tracks behind a place and leaves those up to it alone.
pub fn shuffle_behind(list: &mut Vec<String>, current: usize, seed: u64)
    ensures
        current + 1 < old(list)@.len() ==> final(list)@ == shuffled(old(list)@, current + 1, seed),
        current + 1 >= old(list)@.len() ==> final(list)@ == old(list)@,
{
    if current < list.len() && list.len() - current > 1 {
        shuffle_from(list, current + 1, seed);
    }
}

proof fn lemma_swap_keeps<T>(s: Seq<T>, i: int, j: int)
    requires
        0 <= i < s.len(),
        0 <= j < s.len(),
    ensures
        swapped(s, i, j).to_multiset() == s.to_multiset(),
        swapped(s, i, j).len() == s.len(),
{
    broadcast use vstd::seq_lib::group_to_multiset_ensures;

    let m = s.to_multiset();
    let u = s.update(i, s[j]);
    assert(u.to_multiset() =~= m.insert(s[j]).remove(s[i]));
    let v = u.update(j, s[i]);
    assert(v.to_multiset() =~= u.to_multiset().insert(s[i]).remove(u[j]));
    assert(u[j] == s[j]);
    assert(v.to_multiset() =~= m);
}

proof fn lemma_shuffle_keeps<T>(s: Seq<T>, i: int, rng: u64)
    requires
        i < s.len(),
    ensures
        shuffled_to(s, i, rng).to_multiset() == s.to_multiset(),
        shuffled_to(s, i, rng).len() == s.len(),
    decreases i,
{
    if i > 0 {
        let r = next_random(rng);
        lemma_swap_keeps(s, i, r as int % (i + 1));
        lemma_shuffle_keeps(swapped(s, i, r as int % (i + 1)), i - 1, r);
    }
}

/// A shuffle keeps every track, and as often as it was there. Tracks ahead of
/// where it starts stay where they are.
pub proof fn shuffle_keeps_every_track<T>(s: Seq<T>, start: int, seed: u64)
    requires
        0 <= start <= s.len(),
    ensures
        shuffled(s, start, seed).to_multiset() == s.to_multiset(),
        shuffled(s, start, seed).len() == s.len(),
        shuffled(s, start, seed).take(start) == s.take(start),
{
    let tail = s.subrange(start, s.len() as int);
    lemma_shuffle_keeps(tail, tail.len() - 1, seed);
    let out = shuffled_to(tail, tail.len() - 1, seed);
    vstd::seq_lib::lemma_multiset_commutative(s.take(start), out);
    vstd::seq_lib::lemma_multiset_commutative(s.take(start), tail);
    assert(s.take(start) + tail =~= s);
    assert(shuffled(s, start, seed).take(start) =~= s.take(start));
}

/// What a source turned out to be, and the files in it.
pub enum Source {
    /// One file.
    File(String),
    /// A folder, and every file under it.
    Folder(Vec<String>),
    /// Neither.
    Missing,
}

/// Why there is no playlist.
#[derive(Clone, Copy, Debug, PartialEq, Eq, Structural)]
pub enum PlaylistError {
    /// There is no file that can be played.
    NoAudio,
}

/// Those of the first `n` paths that can be played.
pub open spec fn playable(paths: Seq<Seq<char>>, n: int) -> Seq<Seq<char>>
    decreases n,
{
    if n <= 0 {
        Seq::empty()
    } else if is_audio(paths[n - 1]) {
        playable(paths, n - 1).push(paths[n - 1])
    } else {
        playable(paths, n - 1)
    }
}

/// The tracks of a source in order: a file as it is, whatever it is called; of a
/// folder the files that can be played, sorted by path.
pub open spec fn tracks_of(source: Source) -> Seq<Seq<char>> {
    match source {
        Source::File(p) => seq![p@],
        Source::Folder(files) => path::sorted_paths(
            playable(text::texts(files@), files@.len() as int),
        ),
        Source::Missing => Seq::empty(),
    }
}

/// Makes a playlist of a source. A folder's files are shuffled where that is
/// asked for; a single file is not.
pub fn build_playlist(source: &Source, shuffle: bool, seed: u64) -> (r: Result<
    Vec<String>,
    PlaylistError,
>)
    ensures
        match r {
            Ok(list) => {
                &&& tracks_of(*source).len() > 0
                &&& text::texts(list@) == (if shuffle && source is Folder {
                    shuffled(tracks_of(*source), 0, seed)
                } else {
                    tracks_of(*source)
                })
            },
            Err(e) => tracks_of(*source).len() == 0 && e == PlaylistError::NoAudio,
        },
{
    match source {
        Source::File(p) => {
            let mut list: Vec<String> = Vec::new();
            list.push(p.clone());
            assert(text::texts(list@) =~= seq![p@]);
            Ok(list)
        },
        Source::Folder(files) => {
            let ghost fv = text::texts(files@);
            let mut found: Vec<String> = Vec::new();
            let mut i: usize = 0;
            assert(text::texts(found@) =~= playable(fv, 0));
            while i < files.len()
                invariant
                    fv == text::texts(files@),
                    i <= files@.len(),
                    text::texts(found@) == playable(fv, i as int),
                decreases files@.len() - i,
            {
                assert(fv[i as int] == files@[i as int]@);
                if is_supported(files[i].as_str()) {
                    let ghost prev = found@;
                    found.push(files[i].clone());
                    assert(text::texts(found@) =~= text::texts(prev).push(fv[i as int]));
                }
                i = i + 1;
            }
            let mut list: Vec<String> = sort_paths(&found);
            assert(text::texts(list@).len() == list@.len());
            if list.len() == 0 {
                return Err(PlaylistError::NoAudio);
            }
            if shuffle {
                let ghost before = list@;
                shuffle_list(&mut list, seed);
                proof {
                    lemma_texts_shuffled(before, 0, seed);
                }
            }
            Ok(list)
        },
        Source::Missing => Err(PlaylistError::NoAudio),
    }
}

proof fn lemma_texts_shuffled_to(s: Seq<String>, i: int, rng: u64)
    requires
        i < s.len(),
    ensures
        text::texts(shuffled_to(s, i, rng)) == shuffled_to(text::texts(s), i, rng),
    decreases i,
{
    if i > 0 {
        let r = next_random(rng);
        let j = r as int % (i + 1);
        assert(text::texts(swapped(s, i, j)) =~= swapped(text::texts(s), i, j));
        lemma_texts_shuffled_to(swapped(s, i, j), i - 1, r);
    }
}

/// Shuffling strings shuffles their texts.
pub proof fn lemma_texts_shuffled(s: Seq<String>, start: int, seed: u64)
    requires
        0 <= start <= s.len(),
    ensures
        text::texts(shuffled(s, start, seed)) == shuffled(text::texts(s), start, seed),
{
    let tail = s.subrange(start, s.len() as int);
    lemma_texts_shuffled_to(tail, tail.len() - 1, seed);
    assert(text::texts(tail) =~= text::texts(s).subrange(start, s.len() as int));
    lemma_shuffle_keeps(tail, tail.len() - 1, seed);
    assert(text::texts(shuffled(s, start, seed)) =~= shuffled(text::texts(s), start, seed));
}

/// What a tag is about.
#[derive(Clone, Copy, Debug, PartialEq, Eq, Structural)]
pub enum TagKind {
    Title,
    Artist,
    Other,
}

/// A tag whose value is a text.
pub struct TagText {
    pub kind: TagKind,
    pub text: String,
}

/// The last of the first `n` tags of a kind.
pub open spec fn last_tag(tags: Seq<TagText>, kind: TagKind, n: int) -> Option<Seq<char>>
    decreases n,
{
    if n <= 0 {
        None
    } else if tags[n - 1].kind == kind {
        Some(tags[n - 1].text@)
    } else {
        last_tag(tags, kind, n - 1)
    }
}

/// The first tag of a kind from `i` on.
pub open spec fn first_tag(tags: Seq<TagText>, kind: TagKind, i: int) -> Option<Seq<char>>
    decreases tags.len() - i,
{
    if i >= tags.len() {
        None
    } else if tags[i].kind == kind {
        Some(tags[i].text@)
    } else {
        first_tag(tags, kind, i + 1)
    }
}

/// The tag of a kind: the last one in the container, else the first one that was
/// found ahead of it.
pub open spec fn tag_of(container: Seq<TagText>, probed: Seq<TagText>, kind: TagKind) -> Option<Seq<char>> {
    match last_tag(container, kind, container.len() as int) {
        Some(t) => Some(t),
        None => first_tag(probed, kind, 0),
    }
}

/// What a track is called by its tags: artist and title, or the title alone.
pub open spec fn tagged_name(artist: Option<Seq<char>>, title: Option<Seq<char>>) -> Option<Seq<char>> {
    match (artist, title) {
        (Some(a), Some(t)) => Some(a + " - "@ + t),
        (None, Some(t)) => Some(t),
        _ => None,
    }
}

fn find_tag(container: &Vec<TagText>, probed: &Vec<TagText>, kind: TagKind) -> (r: Option<String>)
    ensures
        path::opt_text(r) == tag_of(container@, probed@, kind),
{
    let mut n: usize = container.len();
    while n > 0
        invariant
            n <= container@.len(),
            last_tag(container@, kind, n as int) == last_tag(container@, kind, container@.len() as int),
        decreases n,
    {
        if container[n - 1].kind == kind {
            return Some(container[n - 1].text.clone());
        }
        n = n - 1;
    }
    let mut i: usize = 0;
    while i < probed.len()
        invariant
            i <= probed@.len(),
            last_tag(container@, kind, container@.len() as int) is None,
            first_tag(probed@, kind, i as int) == first_tag(probed@, kind, 0),
        decreases probed@.len() - i,
    {
        if probed[i].kind == kind {
            return Some(probed[i].text.clone());
        }
        i = i + 1;
    }
    None
}

/// What a track is called by its tags. Tags of the container come first; where
/// one is missing, those found ahead of the container stand in.
pub fn read_metadata(container: &Vec<TagText>, probed: &Vec<TagText>) -> (r: Option<String>)
    ensures
        path::opt_text(r) == tagged_name(
            tag_of(container@, probed@, TagKind::Artist),
            tag_of(container@, probed@, TagKind::Title),
        ),
{
    let artist: Option<String> = find_tag(container, probed, TagKind::Artist);
    let title: Option<String> = find_tag(container, probed, TagKind::Title);
    match title {
        Some(t) => match artist {
            Some(a) => {
                let mut s: String = a;
                s.push_str(" - ");
                s.push_str(t.as_str());
                Some(s)
            },
            None => Some(t),
        },
        None => None,
    }
}

/// Whether a key stands among the first `n`.
pub open spec fn seen(keys: Seq<Seq<char>>, n: int, key: Seq<char>) -> bool {
    exists|i: int| 0 <= i < n && #[trigger] keys[i] == key
}

/// Those of the first `n` items whose key is the first of its kind and is not
/// among the removed ones.
pub open spec fn kept<T>(items: Seq<T>, keys: Seq<Seq<char>>, removed: Set<Seq<char>>, n: int) -> Seq<T>
    decreases n,
{
    if n <= 0 {
        Seq::empty()
    } else if seen(keys, n - 1, keys[n - 1]) || removed.contains(keys[n - 1]) {
        kept(items, keys, removed, n - 1)
    } else {
        kept(items, keys, removed, n - 1).push(items[n - 1])
    }
}

fn is_seen(keys: &Vec<String>, n: usize) -> (r: bool)
    requires
        n < keys@.len(),
    ensures
        r == seen(text::texts(keys@), n as int, keys@[n as int]@),
{
    let ghost kv = text::texts(keys@);
    let mut i: usize = 0;
    while i < n
        invariant
            kv == text::texts(keys@),
            i <= n < keys@.len(),
            forall|k: int| 0 <= k < i ==> #[trigger] kv[k] != keys@[n as int]@,
        decreases n - i,
    {
        assert(kv[i as int] == keys@[i as int]@);
        if keys[i] == keys[n] {
            return true;
        }
        i = i + 1;
    }
    false
}

/// Leaves out what was removed and what stands there a second time. `keys` holds
/// what each path really leads to.
pub fn dedup_playlist(
    list: &Vec<String>,
    keys: &Vec<String>,
    removed: &NameSet,
) -> (out: Vec<String>)
    requires
        list@.len() == keys@.len(),
    ensures
        text::texts(out@) == kept(
            text::texts(list@),
            text::texts(keys@),
            removed@,
            list@.len() as int,
        ),
{
    let ghost lv = text::texts(list@);
    let ghost kv = text::texts(keys@);
    let mut out: Vec<String> = Vec::new();
    let mut i: usize = 0;
    assert(text::texts(out@) =~= kept(lv, kv, removed@, 0));
    while i < list.len()
        invariant
            lv == text::texts(list@),
            kv == text::texts(keys@),
            list@.len() == keys@.len(),
            i <= list@.len(),
            text::texts(out@) == kept(lv, kv, removed@, i as int),
        decreases list@.len() - i,
    {
        assert(kv[i as int] == keys@[i as int]@);
        assert(lv[i as int] == list@[i as int]@);
        if !is_seen(keys, i) && !removed.contains(keys[i].as_str()) {
            let ghost prev = out@;
            out.push(list[i].clone());
            assert(text::texts(out@) =~= text::texts(prev).push(lv[i as int]));
        }
        i = i + 1;
    }
    out
}


/// Those of the first `n` items whose key is not among the removed ones.
pub open spec fn left_over<T>(items: Seq<T>, keys: Seq<Seq<char>>, removed: Set<Seq<char>>, n: int) -> Seq<T>
    decreases n,
{
    if n <= 0 {
        Seq::empty()
    } else if removed.contains(keys[n - 1]) {
        left_over(items, keys, removed, n - 1)
    } else {
        left_over(items, keys, removed, n - 1).push(items[n - 1])
    }
}

/// Leaves out what was removed. `keys` holds what each path really leads to.
pub fn without_removed(list: &Vec<String>, keys: &Vec<String>, removed: &NameSet) -> (out: Vec<String>)
    requires
        list@.len() == keys@.len(),
    ensures
        text::texts(out@) == left_over(text::texts(list@), text::texts(keys@), removed@, list@.len() as int),
{
    let ghost lv = text::texts(list@);
    let ghost kv = text::texts(keys@);
    let mut out: Vec<String> = Vec::new();
    let mut i: usize = 0;
    assert(text::texts(out@) =~= left_over(lv, kv, removed@, 0));
    while i < list.len()
        invariant
            lv == text::texts(list@),
            kv == text::texts(keys@),
            list@.len() == keys@.len(),
            i <= list@.len(),
            text::texts(out@) == left_over(lv, kv, removed@, i as int),
        decreases list@.len() - i,
    {
        assert(lv[i as int] == list@[i as int]@);
        assert(kv[i as int] == keys@[i as int]@);
        if !removed.contains(keys[i].as_str()) {
            let ghost prev = out@;
            out.push(list[i].clone());
            assert(text::texts(out@) =~= text::texts(prev).push(lv[i as int]));
        }
        i = i + 1;
    }
    out
}

/// The first `n` paths, each on a line of its own.
pub open spec fn path_lines(paths: Seq<Seq<char>>, n: int) -> Seq<char>
    decreases n,
{
    if n <= 0 {
        "#EXTM3U\n"@
    } else {
        path_lines(paths, n - 1) + paths[n - 1] + "\n"@
    }
}

/// A playlist as it is written down: a header, and a line for each track.
pub fn m3u_text(list: &Vec<String>) -> (s: String)
    ensures
        s@ == path_lines(text::texts(list@), list@.len() as int),
{
    let ghost lv = text::texts(list@);
    let mut s: String = "#EXTM3U\n".to_owned();
    let mut i: usize = 0;
    while i < list.len()
        invariant
            lv == text::texts(list@),
            i <= list@.len(),
            s@ == path_lines(lv, i as int),
        decreases list@.len() - i,
    {
        assert(lv[i as int] == list@[i as int]@);
        s.push_str(list[i].as_str());
        s.push_str("\n");
        i = i + 1;
    }
    s
}

} // verus!
