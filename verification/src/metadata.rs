//! What is known of the tracks of a playlist, one entry per place.
use crate::library::TrackTags;
use crate::order;
use crate::order::{text_part, Part};
use crate::path;
use crate::path::{file_name, find_parts, parts_of_all};
use crate::playlist;
use crate::text;
use crate::text::contains_text;
use vstd::prelude::*;

verus! {

/// What is known of a track; nothing, until its tags have been read.
pub struct TrackMeta {
    pub artist: Option<String>,
    pub album: Option<String>,
    pub title: Option<String>,
    pub disc: Option<u32>,
    pub track: Option<u32>,
    /// Billionths of a second.
    pub duration: Option<u64>,
}

/// What is known of a track, as a value.
pub struct TrackMetaV {
    pub artist: Option<Seq<char>>,
    pub album: Option<Seq<char>>,
    pub title: Option<Seq<char>>,
    pub disc: Option<u32>,
    pub track: Option<u32>,
    pub duration: Option<u64>,
}

impl View for TrackMeta {
    type V = TrackMetaV;

    open spec fn view(&self) -> TrackMetaV {
        TrackMetaV {
            artist: path::opt_text(self.artist),
            album: path::opt_text(self.album),
            title: path::opt_text(self.title),
            disc: self.disc,
            track: self.track,
            duration: self.duration,
        }
    }
}

/// Nothing is known.
pub open spec fn unknown() -> TrackMetaV {
    TrackMetaV { artist: None, album: None, title: None, disc: None, track: None, duration: None }
}

/// A copy of a text that may be there.
pub fn copy_text(s: &Option<String>) -> (r: Option<String>)
    ensures
        path::opt_text(r) == path::opt_text(*s),
{
    match s {
        Some(t) => Some(t.clone()),
        None => None,
    }
}

impl TrackMeta {
    /// An entry of which nothing is known.
    pub fn unknown() -> (r: TrackMeta)
        ensures
            r@ == unknown(),
    {
        TrackMeta { artist: None, album: None, title: None, disc: None, track: None, duration: None }
    }

    /// A copy of the entry.
    pub fn copy(&self) -> (r: TrackMeta)
        ensures
            r@ == self@,
    {
        TrackMeta {
            artist: copy_text(&self.artist),
            album: copy_text(&self.album),
            title: copy_text(&self.title),
            disc: self.disc,
            track: self.track,
            duration: self.duration,
        }
    }
}

/// What is known of the tracks of a playlist.
pub struct MetadataCache {
    pub entries: Vec<TrackMeta>,
}

impl View for MetadataCache {
    type V = Seq<TrackMetaV>;

    open spec fn view(&self) -> Seq<TrackMetaV> {
        self.entries@.map_values(|e: TrackMeta| e@)
    }
}

/// What is known of the track at a place; nothing beyond the entries.
pub open spec fn entry_at(cache: Seq<TrackMetaV>, i: int) -> TrackMetaV {
    if 0 <= i < cache.len() {
        cache[i]
    } else {
        unknown()
    }
}

/// The name of a file in a path, or the whole path where it names none.
pub open spec fn base_name(p: Seq<char>) -> Seq<char> {
    match path::name_in(p) {
        Some(n) => n,
        None => p,
    }
}

/// What a track is called: by its tags, or by its file.
pub open spec fn display_of(e: TrackMetaV, p: Seq<char>) -> Seq<char> {
    match playlist::tagged_name(e.artist, e.title) {
        Some(n) => n,
        None => base_name(p),
    }
}

/// Whether a track is found by a text in lower case: it stands in what the track
/// is called, or in the name of its file.
pub open spec fn is_match(e: TrackMetaV, p: Seq<char>, query: Seq<char>) -> bool {
    text::has_text(text::folded(display_of(e, p)), query) || text::has_text(
        text::folded(base_name(p)),
        query,
    )
}

/// The entries moved along with their paths; nothing is known of a new path.
pub open spec fn reindexed(cache: Seq<TrackMetaV>, now: Seq<Seq<char>>, was: Seq<Seq<char>>) -> Seq<TrackMetaV> {
    now.map_values(
        |p: Seq<char>|
            match path::place_of(was, p, 0) {
                Some(i) => entry_at(cache, i),
                None => unknown(),
            },
    )
}

/// The name of a file in a path, or the whole path where it names none.
pub fn base_name_of(p: &str) -> (r: String)
    ensures
        r@ == base_name(p@),
{
    match file_name(p) {
        Some(n) => n,
        None => p.to_owned(),
    }
}

impl MetadataCache {
    /// A cache for so many tracks, of which nothing is known.
    pub fn new(len: usize) -> (r: MetadataCache)
        ensures
            r@.len() == len,
            forall|i: int| 0 <= i < len ==> #[trigger] r@[i] == unknown(),
    {
        let mut entries: Vec<TrackMeta> = Vec::new();
        let mut i: usize = 0;
        while i < len
            invariant
                i <= len,
                entries@.len() == i,
                forall|k: int| 0 <= k < i ==> (#[trigger] entries@[k])@ == unknown(),
            decreases len - i,
        {
            entries.push(TrackMeta::unknown());
            i = i + 1;
        }
        MetadataCache { entries }
    }

    /// Artist and album of a track.
    pub fn artist_album(&self, i: usize) -> (r: (Option<String>, Option<String>))
        ensures
            path::opt_text(r.0) == entry_at(self@, i as int).artist,
            path::opt_text(r.1) == entry_at(self@, i as int).album,
    {
        if i < self.entries.len() {
            assert(self@[i as int] == self.entries@[i as int]@);
            (copy_text(&self.entries[i].artist), copy_text(&self.entries[i].album))
        } else {
            (None, None)
        }
    }

    /// Title of a track.
    pub fn title(&self, i: usize) -> (r: Option<String>)
        ensures
            path::opt_text(r) == entry_at(self@, i as int).title,
    {
        if i < self.entries.len() {
            assert(self@[i as int] == self.entries@[i as int]@);
            copy_text(&self.entries[i].title)
        } else {
            None
        }
    }

    /// Disc number of a track.
    pub fn disc_number(&self, i: usize) -> (r: Option<u32>)
        ensures
            r == entry_at(self@, i as int).disc,
    {
        if i < self.entries.len() {
            assert(self@[i as int] == self.entries@[i as int]@);
            self.entries[i].disc
        } else {
            None
        }
    }

    /// Track number of a track.
    pub fn track_number(&self, i: usize) -> (r: Option<u32>)
        ensures
            r == entry_at(self@, i as int).track,
    {
        if i < self.entries.len() {
            assert(self@[i as int] == self.entries@[i as int]@);
            self.entries[i].track
        } else {
            None
        }
    }

    /// Length of a track, in billionths of a second.
    pub fn duration(&self, i: usize) -> (r: Option<u64>)
        ensures
            r == entry_at(self@, i as int).duration,
    {
        if i < self.entries.len() {
            assert(self@[i as int] == self.entries@[i as int]@);
            self.entries[i].duration
        } else {
            None
        }
    }

    /// What a track is called.
    pub fn display_name(&self, i: usize, p: &str) -> (r: String)
        ensures
            r@ == display_of(entry_at(self@, i as int), p@),
    {
        if i < self.entries.len() {
            assert(self@[i as int] == self.entries@[i as int]@);
            match &self.entries[i].title {
                Some(t) => {
                    match &self.entries[i].artist {
                        Some(a) => {
                            let mut s: String = a.clone();
                            s.push_str(" - ");
                            s.push_str(t.as_str());
                            return s;
                        },
                        None => {
                            return t.clone();
                        },
                    }
                },
                None => {},
            }
        }
        base_name_of(p)
    }

    /// Whether a track is found by a text in lower case.
    pub fn search_matches(&self, i: usize, p: &str, query: &str) -> (r: bool)
        ensures
            r == is_match(entry_at(self@, i as int), p@, query@),
    {
        let name: String = self.display_name(i, p);
        let low: String = name.as_str().to_lowercase();
        if contains_text(low.as_str(), query) {
            return true;
        }
        let base: String = base_name_of(p);
        let low_base: String = base.as_str().to_lowercase();
        contains_text(low_base.as_str(), query)
    }

    /// Moves the entries along with their paths.
    pub fn reindex(&mut self, now: &Vec<String>, was: &Vec<String>)
        ensures
            final(self)@ == reindexed(old(self)@, text::texts(now@), text::texts(was@)),
    {
        let ghost cache = self@;
        let ghost nv = text::texts(now@);
        let ghost wv = text::texts(was@);
        let keys: Vec<Vec<Part>> = parts_of_all(was);
        let mut entries: Vec<TrackMeta> = Vec::new();
        let mut i: usize = 0;
        while i < now.len()
            invariant
                order::keys_view(keys@) == path::path_keys(text::texts(was@)),
                nv == text::texts(now@),
                wv == text::texts(was@),
                cache == self@,
                i <= now@.len(),
                entries@.len() == i,
                forall|k: int| 0 <= k < i ==> (#[trigger] entries@[k])@ == reindexed(cache, nv, wv)[k],
            decreases now@.len() - i,
        {
            assert(nv[i as int] == now@[i as int]@);
            let e: TrackMeta = match find_parts(was, &keys, now[i].as_str()) {
                Some(k) => if k < self.entries.len() {
                    assert(self@[k as int] == self.entries@[k as int]@);
                    self.entries[k].copy()
                } else {
                    TrackMeta::unknown()
                },
                None => TrackMeta::unknown(),
            };
            entries.push(e);
            i = i + 1;
        }
        self.entries = entries;
        assert(self@ =~= reindexed(cache, nv, wv));
    }
}

/// The places of the first `n` tracks that are found by a text in lower case.
pub open spec fn found(cache: Seq<TrackMetaV>, paths: Seq<Seq<char>>, query: Seq<char>, n: int) -> Seq<int>
    decreases n,
{
    if n <= 0 {
        Seq::empty()
    } else if is_match(entry_at(cache, n - 1), paths[n - 1], query) {
        found(cache, paths, query, n - 1).push(n - 1)
    } else {
        found(cache, paths, query, n - 1)
    }
}

/// The places of the tracks that are found by a text in lower case.
pub fn find_tracks(cache: &MetadataCache, paths: &Vec<String>, query: &str) -> (r: Vec<usize>)
    ensures
        order::places(r@) == found(cache@, text::texts(paths@), query@, paths@.len() as int),
{
    let ghost pv = text::texts(paths@);
    let mut r: Vec<usize> = Vec::new();
    let mut i: usize = 0;
    assert(order::places(r@) =~= found(cache@, pv, query@, 0));
    while i < paths.len()
        invariant
            pv == text::texts(paths@),
            i <= paths@.len(),
            order::places(r@) == found(cache@, pv, query@, i as int),
        decreases paths@.len() - i,
    {
        assert(pv[i as int] == paths@[i as int]@);
        if cache.search_matches(i, paths[i].as_str(), query) {
            let ghost prev = r@;
            r.push(i);
            assert(order::places(r@) =~= order::places(prev).push(i as int));
        }
        i = i + 1;
    }
    r
}

/// Only places of the list are found.
pub proof fn found_are_places(cache: Seq<TrackMetaV>, paths: Seq<Seq<char>>, query: Seq<char>, n: int)
    requires
        0 <= n <= paths.len(),
    ensures
        found(cache, paths, query, n).len() <= n,
        forall|k: int|
            0 <= k < found(cache, paths, query, n).len() ==> 0 <= #[trigger] found(cache, paths, query, n)[k] < n
                && is_match(
                entry_at(cache, found(cache, paths, query, n)[k]),
                paths[found(cache, paths, query, n)[k]],
                query,
            ),
    decreases n,
{
    if n > 0 {
        found_are_places(cache, paths, query, n - 1);
    }
}

/// A text, or nothing.
pub open spec fn text_or_empty(s: Option<Seq<char>>) -> Seq<char> {
    match s {
        Some(t) => t,
        None => Seq::empty(),
    }
}

/// A number, or 0.
pub open spec fn number_or_zero(n: Option<u32>) -> i128 {
    match n {
        Some(k) => k as i128,
        None => 0,
    }
}

/// What a track is sorted by: tracks with tags ahead of those without, then
/// artist, album, disc, track number, title and file.
pub open spec fn tag_key(e: TrackMetaV, p: Seq<char>) -> Seq<order::PartView> {
    seq![
        order::PartView::Num(
            if e.artist is Some || e.album is Some || e.title is Some {
                0
            } else {
                1
            },
        ),
        order::PartView::Text(text::folded(text_or_empty(e.artist))),
        order::PartView::Text(text::folded(text_or_empty(e.album))),
        order::PartView::Num(number_or_zero(e.disc)),
        order::PartView::Num(number_or_zero(e.track)),
        order::PartView::Text(text::folded(text_or_empty(e.title))),
        order::PartView::Text(text::folded(text_or_empty(path::name_in(p)))),
    ]
}

/// What the tracks of a list are sorted by.
pub open spec fn tag_keys(cache: Seq<TrackMetaV>, paths: Seq<Seq<char>>) -> Seq<Seq<order::PartView>> {
    Seq::new(paths.len(), |i: int| tag_key(entry_at(cache, i), paths[i]))
}

fn lower_part(s: &Option<String>) -> (p: Part)
    ensures
        p@ == order::PartView::Text(text::folded(text_or_empty(path::opt_text(*s)))),
{
    match s {
        Some(t) => {
            let low: String = t.as_str().to_lowercase();
            text_part(low.as_str())
        },
        None => {
            proof {
                reveal_strlit("");
            }
            let low: String = "".to_lowercase();
            assert(""@ =~= Seq::<char>::empty());
            text_part(low.as_str())
        },
    }
}

fn number_part(n: Option<u32>) -> (p: Part)
    ensures
        p@ == order::PartView::Num(number_or_zero(n)),
{
    match n {
        Some(k) => Part::Num(k as i128),
        None => Part::Num(0),
    }
}

/// What the tracks of a list are sorted by.
pub fn sort_keys(cache: &MetadataCache, paths: &Vec<String>) -> (keys: Vec<Vec<Part>>)
    ensures
        order::keys_view(keys@) == tag_keys(cache@, text::texts(paths@)),
        keys@.len() == paths@.len(),
{
    let ghost pv = text::texts(paths@);
    let mut keys: Vec<Vec<Part>> = Vec::new();
    let mut i: usize = 0;
    while i < paths.len()
        invariant
            pv == text::texts(paths@),
            i <= paths@.len(),
            keys@.len() == i,
            forall|k: int| 0 <= k < i ==> order::key_view(#[trigger] keys@[k]) == tag_keys(cache@, pv)[k],
        decreases paths@.len() - i,
    {
        assert(pv[i as int] == paths@[i as int]@);
        let (artist, album) = cache.artist_album(i);
        let title: Option<String> = cache.title(i);
        let file: Option<String> = file_name(paths[i].as_str());
        let tagged: bool = artist.is_some() || album.is_some() || title.is_some();
        let mut k: Vec<Part> = Vec::new();
        k.push(
            if tagged {
                Part::Num(0)
            } else {
                Part::Num(1)
            },
        );
        k.push(lower_part(&artist));
        k.push(lower_part(&album));
        k.push(number_part(cache.disc_number(i)));
        k.push(number_part(cache.track_number(i)));
        k.push(lower_part(&title));
        k.push(lower_part(&file));
        assert(order::key_view(k) =~= tag_key(entry_at(cache@, i as int), pv[i as int]));
        keys.push(k);
        i = i + 1;
    }
    assert(order::keys_view(keys@) =~= tag_keys(cache@, pv));
    keys
}

/// The tags the tree is built from; a track without a title is shown by its
/// file.
pub open spec fn is_tags(t: TrackTags, e: TrackMetaV, p: Seq<char>) -> bool {
    &&& path::opt_text(t.artist) == e.artist
    &&& path::opt_text(t.album) == e.album
    &&& t.disc == e.disc
    &&& t.track == e.track
    &&& t.title@ == (match e.title {
        Some(n) => n,
        None => text_or_empty(path::name_in(p)),
    })
}

/// The tags of the tracks of a list.
pub fn tags_of(cache: &MetadataCache, paths: &Vec<String>) -> (tags: Vec<TrackTags>)
    ensures
        tags@.len() == paths@.len(),
        forall|i: int|
            0 <= i < tags@.len() ==> is_tags(#[trigger] tags@[i], entry_at(cache@, i), paths@[i]@),
{
    let mut tags: Vec<TrackTags> = Vec::new();
    let mut i: usize = 0;
    while i < paths.len()
        invariant
            i <= paths@.len(),
            tags@.len() == i,
            forall|k: int| 0 <= k < i ==> is_tags(#[trigger] tags@[k], entry_at(cache@, k), paths@[k]@),
        decreases paths@.len() - i,
    {
        let (artist, album) = cache.artist_album(i);
        let title: String = match cache.title(i) {
            Some(t) => t,
            None => match file_name(paths[i].as_str()) {
                Some(n) => n,
                None => String::new(),
            },
        };
        tags.push(
            TrackTags {
                artist,
                album,
                disc: cache.disc_number(i),
                track: cache.track_number(i),
                title,
            },
        );
        i = i + 1;
    }
    tags
}

proof fn lemma_place_of_first(paths: Seq<Seq<char>>, k: int, p: Seq<char>, i: int)
    requires
        0 <= i <= k < paths.len(),
        path::all_differ(paths),
        path::same(paths[k], p),
    ensures
        path::place_of(paths, p, i) == Some(k),
    decreases k - i,
{
    if i < k {
        assert(!path::same(paths[i], paths[k]));
        lemma_place_of_first(paths, k, p, i + 1);
    }
}

/// What is known of a track goes where the track goes.
pub proof fn tags_follow_their_tracks(
    cache: Seq<TrackMetaV>,
    now: Seq<Seq<char>>,
    was: Seq<Seq<char>>,
    i: int,
    k: int,
)
    requires
        path::all_differ(was),
        0 <= i < was.len(),
        0 <= k < now.len(),
        path::same(was[i], now[k]),
    ensures
        entry_at(reindexed(cache, now, was), k) == entry_at(cache, i),
{
    lemma_place_of_first(was, i, now[k], 0);
}

} // verus!
