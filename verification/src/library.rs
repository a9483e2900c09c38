//! The library tree: artists, their albums, and their tracks.
//!
//! A second presentation of the playlist. The tree is a projection of the
//! playlist by tags; the playlist itself keeps its own order. Which nodes are
//! open is kept by name, so that it survives a rebuild of the tree.
use crate::ansi;
use crate::ansi::{truncate_visible, visible_len};
use crate::order;
use crate::order::{sort_places, text_part, Part};
use crate::text;
use crate::text::{contains_text, push_dec2, push_rep};
use crate::theme::Palette;
use vstd::prelude::*;

verus! {

/// A track's tags. `title` is what is shown: the tagged title, or the name of
/// the file. The place in a list of these is the track's place in the playlist.
#[derive(Debug)]
pub struct TrackTags {
    pub artist: Option<String>,
    pub album: Option<String>,
    pub disc: Option<u32>,
    pub track: Option<u32>,
    pub title: String,
}

/// A track in the tree.
#[derive(Debug)]
pub struct TrackRef {
    pub playlist_index: usize,
    pub title: String,
    pub track: Option<u32>,
}

/// An album in the tree.
#[derive(Debug)]
pub struct AlbumNode {
    pub name: String,
    pub tracks: Vec<TrackRef>,
}

/// An artist in the tree.
#[derive(Debug)]
pub struct ArtistNode {
    pub name: String,
    pub albums: Vec<AlbumNode>,
}

/// The tree.
#[derive(Debug)]
pub struct LibraryTree {
    pub artists: Vec<ArtistNode>,
}

/// A track in the tree, as a value.
pub struct TrackV {
    pub index: int,
    pub title: Seq<char>,
    pub track: Option<u32>,
}

/// An album in the tree, as a value.
pub struct AlbumV {
    pub name: Seq<char>,
    pub tracks: Seq<TrackV>,
}

/// An artist in the tree, as a value.
pub struct ArtistV {
    pub name: Seq<char>,
    pub albums: Seq<AlbumV>,
}

impl View for TrackRef {
    type V = TrackV;

    open spec fn view(&self) -> TrackV {
        TrackV { index: self.playlist_index as int, title: self.title@, track: self.track }
    }
}

impl View for AlbumNode {
    type V = AlbumV;

    open spec fn view(&self) -> AlbumV {
        AlbumV { name: self.name@, tracks: self.tracks@.map_values(|t: TrackRef| t@) }
    }
}

impl View for ArtistNode {
    type V = ArtistV;

    open spec fn view(&self) -> ArtistV {
        ArtistV { name: self.name@, albums: self.albums@.map_values(|a: AlbumNode| a@) }
    }
}

impl View for LibraryTree {
    type V = Seq<ArtistV>;

    open spec fn view(&self) -> Seq<ArtistV> {
        self.artists@.map_values(|a: ArtistNode| a@)
    }
}

/// What a tag says, or a stand-in for a tag that is missing.
pub open spec fn name_or(s: Option<String>, other: Seq<char>) -> Seq<char> {
    match s {
        Some(n) => n@,
        None => other,
    }
}

/// A number tag, or 0 for one that is missing.
pub open spec fn num_or_zero(n: Option<u32>) -> u32 {
    match n {
        Some(n) => n,
        None => 0,
    }
}

impl TrackTags {
    /// The artist a track is filed under.
    pub open spec fn filed_artist(self) -> Seq<char> {
        name_or(self.artist, "Unknown Artist"@)
    }

    /// The album a track is filed under.
    pub open spec fn filed_album(self) -> Seq<char> {
        name_or(self.album, "Unknown Album"@)
    }

    /// What a track is sorted by: artist, album, disc, number and title, with
    /// letter case left out.
    pub open spec fn sort_key(self) -> Seq<order::PartView> {
        seq![
            order::PartView::Text(text::folded(self.filed_artist())),
            order::PartView::Text(text::folded(self.filed_album())),
            order::PartView::Num(num_or_zero(self.disc) as i128),
            order::PartView::Num(num_or_zero(self.track) as i128),
            order::PartView::Text(text::folded(self.title@)),
        ]
    }
}

/// What the tracks are sorted by.
pub open spec fn sort_keys(tags: Seq<TrackTags>) -> Seq<Seq<order::PartView>> {
    tags.map_values(|t: TrackTags| t.sort_key())
}

/// The artists with a track added behind all others: to the last artist where
/// the name is the same but for case, else to a new one, and so for albums.
pub open spec fn with_track(tree: Seq<ArtistV>, tag: TrackTags, index: int) -> Seq<ArtistV> {
    let artist = tag.filed_artist();
    let album = tag.filed_album();
    let artists = if tree.len() == 0 || text::folded(tree.last().name) != text::folded(artist) {
        tree.push(ArtistV { name: artist, albums: Seq::empty() })
    } else {
        tree
    };
    let a = artists.last();
    let albums = if a.albums.len() == 0 || text::folded(a.albums.last().name)
        != text::folded(album) {
        a.albums.push(AlbumV { name: album, tracks: Seq::empty() })
    } else {
        a.albums
    };
    let al = albums.last();
    let track = TrackV { index, title: tag.title@, track: tag.track };
    artists.drop_last().push(
        ArtistV {
            name: a.name,
            albums: albums.drop_last().push(AlbumV { name: al.name, tracks: al.tracks.push(track) }),
        },
    )
}

/// The tree of the tracks at some places, taken in that order.
pub open spec fn tree_in_order(tags: Seq<TrackTags>, p: Seq<int>) -> Seq<ArtistV>
    decreases p.len(),
{
    if p.len() == 0 {
        Seq::empty()
    } else {
        with_track(tree_in_order(tags, p.drop_last()), tags[p.last()], p.last())
    }
}

/// The tree of some tracks: sorted by artist, album, disc, number and title, and
/// gathered under their artists and albums.
pub open spec fn tree_of(tags: Seq<TrackTags>) -> Seq<ArtistV> {
    tree_in_order(tags, order::order_of(sort_keys(tags)))
}

fn name_of<'a>(s: &'a Option<String>, other: &'a str) -> (r: &'a str)
    ensures
        r@ == name_or(*s, other@),
{
    match s {
        Some(n) => n.as_str(),
        None => other,
    }
}

fn num_of(n: Option<u32>) -> (r: u32)
    ensures
        r == num_or_zero(n),
{
    match n {
        Some(n) => n,
        None => 0,
    }
}

fn sort_key_of(t: &TrackTags) -> (k: Vec<Part>)
    ensures
        order::key_view(k) == t.sort_key(),
{
    let mut k: Vec<Part> = Vec::new();
    k.push(text_part(name_of(&t.artist, "Unknown Artist").to_lowercase().as_str()));
    k.push(text_part(name_of(&t.album, "Unknown Album").to_lowercase().as_str()));
    k.push(Part::Num(num_of(t.disc) as i128));
    k.push(Part::Num(num_of(t.track) as i128));
    k.push(text_part(t.title.to_lowercase().as_str()));
    assert(order::key_view(k) =~= t.sort_key());
    k
}

/// Adds a track behind all others.
fn add_track(artists: &mut Vec<ArtistNode>, t: &TrackTags, index: usize)
    ensures
        final(artists)@.map_values(|a: ArtistNode| a@) == with_track(
            old(artists)@.map_values(|a: ArtistNode| a@),
            *t,
            index as int,
        ),
{
    let ghost view = |a: ArtistNode| a@;
    let ghost tree = artists@.map_values(view);
    let artist: &str = name_of(&t.artist, "Unknown Artist");
    let album: &str = name_of(&t.album, "Unknown Album");
    let same_artist: bool = match artists.last() {
        Some(a) => a.name.to_lowercase() == artist.to_lowercase(),
        None => false,
    };
    if artists.len() > 0 {
        assert(tree.last() == artists@.last()@);
    }
    let mut node: ArtistNode = if same_artist {
        artists.pop().unwrap()
    } else {
        ArtistNode { name: artist.to_owned(), albums: Vec::new() }
    };
    let ghost base = if same_artist {
        tree
    } else {
        tree.push(ArtistV { name: artist@, albums: Seq::empty() })
    };
    assert(node@ == base.last()) by {
        assert(node@.albums =~= base.last().albums);
    }
    assert(artists@.map_values(view) =~= base.drop_last());
    let same_album: bool = match node.albums.last() {
        Some(a) => a.name.to_lowercase() == album.to_lowercase(),
        None => false,
    };
    let ghost albums0 = node@.albums;
    if node.albums.len() > 0 {
        assert(albums0.last() == node.albums@.last()@);
    }
    let mut leaf: AlbumNode = if same_album {
        node.albums.pop().unwrap()
    } else {
        AlbumNode { name: album.to_owned(), tracks: Vec::new() }
    };
    let ghost albums1 = if same_album {
        albums0
    } else {
        albums0.push(AlbumV { name: album@, tracks: Seq::empty() })
    };
    assert(leaf@ == albums1.last()) by {
        assert(leaf@.tracks =~= albums1.last().tracks);
    }
    assert(node.albums@.map_values(|a: AlbumNode| a@) =~= albums1.drop_last());
    let ghost leaf0 = leaf@;
    let track: TrackRef = TrackRef { playlist_index: index, title: t.title.clone(), track: t.track };
    let ghost trackv = track@;
    leaf.tracks.push(track);
    assert(leaf@.tracks =~= leaf0.tracks.push(trackv));
    let ghost leafv = leaf@;
    node.albums.push(leaf);
    assert(node@.albums =~= albums1.drop_last().push(leafv));
    let ghost nodev = node@;
    artists.push(node);
    assert(artists@.map_values(view) =~= base.drop_last().push(nodev));
}

/// Gathers tracks under their artists and albums, sorted by artist, album, disc,
/// number and title. Names that differ only in case are one node, spelt as the
/// first of its tracks spells it. A track without an artist or album tag goes
/// under "Unknown Artist" or "Unknown Album".
pub fn build(tags: &Vec<TrackTags>) -> (r: LibraryTree)
    ensures
        r@ == tree_of(tags@),
{
    let mut keys: Vec<Vec<Part>> = Vec::new();
    let mut i: usize = 0;
    while i < tags.len()
        invariant
            i <= tags@.len(),
            order::keys_view(keys@) == sort_keys(tags@.take(i as int)),
        decreases tags@.len() - i,
    {
        let ghost prev = keys@;
        let key: Vec<Part> = sort_key_of(&tags[i]);
        keys.push(key);
        assert(order::keys_view(keys@) =~= order::keys_view(prev).push(order::key_view(key)));
        assert(sort_keys(tags@.take(i + 1)) =~= sort_keys(tags@.take(i as int)).push(
            tags@[i as int].sort_key(),
        ));
        i = i + 1;
    }
    assert(tags@.take(tags@.len() as int) =~= tags@);
    let rows: Vec<usize> = sort_places(&keys);
    let ghost p = order::places(rows@);
    let mut artists: Vec<ArtistNode> = Vec::new();
    let mut r: usize = 0;
    assert(artists@.map_values(|a: ArtistNode| a@) =~= tree_in_order(tags@, p.take(0)));
    while r < rows.len()
        invariant
            r <= rows@.len(),
            p == order::places(rows@),
            order::is_order(sort_keys(tags@), p),
            artists@.map_values(|a: ArtistNode| a@) == tree_in_order(tags@, p.take(r as int)),
        decreases rows@.len() - r,
    {
        assert(p[r as int] == rows@[r as int]);
        let idx: usize = rows[r];
        add_track(&mut artists, &tags[idx], idx);
        assert(p.take(r + 1).drop_last() =~= p.take(r as int));
        assert(p.take(r + 1).last() == idx);
        r = r + 1;
    }
    assert(p.take(p.len() as int) =~= p);
    LibraryTree { artists }
}

/// A set of names.
#[derive(Debug, PartialEq, Eq)]
pub struct NameSet {
    names: Vec<String>,
}

impl View for NameSet {
    type V = Set<Seq<char>>;

    closed spec fn view(&self) -> Set<Seq<char>> {
        Set::new(|s: Seq<char>| exists|i: int| 0 <= i < self.names@.len() && #[trigger] self.names@[i]@ == s)
    }
}

impl NameSet {
    /// The empty set.
    pub fn new() -> (r: NameSet)
        ensures
            r@ == Set::<Seq<char>>::empty(),
    {
        let r: NameSet = NameSet { names: Vec::new() };
        assert(r@ =~= Set::<Seq<char>>::empty());
        r
    }

    /// Whether there is no name in the set.
    pub fn is_empty(&self) -> (r: bool)
        ensures
            r == (self@ == Set::<Seq<char>>::empty()),
    {
        let r: bool = self.names.len() == 0;
        proof {
            if r {
                assert(self@ =~= Set::<Seq<char>>::empty());
            } else {
                assert(self@.contains(self.names@[0]@));
            }
        }
        r
    }

    /// Whether a name is in the set.
    pub fn contains(&self, name: &str) -> (r: bool)
        ensures
            r == self@.contains(name@),
    {
        let mut i: usize = 0;
        while i < self.names.len()
            invariant
                i <= self.names@.len(),
                forall|k: int| 0 <= k < i ==> (#[trigger] self.names@[k])@ != name@,
            decreases self.names@.len() - i,
        {
            if self.names[i].as_str().eq(name) {
                return true;
            }
            i = i + 1;
        }
        false
    }

    /// Puts a name in.
    pub fn insert(&mut self, name: String)
        ensures
            final(self)@ == old(self)@.insert(name@),
    {
        if self.contains(name.as_str()) {
            assert(self@.insert(name@) =~= self@);
            return;
        }
        let ghost before = self.names@;
        let ghost s = name@;
        self.names.push(name);
        proof {
            assert forall|x: Seq<char>| self@.contains(x) == old(self)@.insert(s).contains(x) by {
                if self@.contains(x) {
                    let i = choose|i: int| 0 <= i < self.names@.len() && #[trigger] self.names@[i]@ == x;
                    if i < before.len() {
                        assert(before[i]@ == x);
                    }
                }
                if old(self)@.contains(x) {
                    let i = choose|i: int| 0 <= i < before.len() && #[trigger] before[i]@ == x;
                    assert(self.names@[i]@ == x);
                }
                if x == s {
                    assert(self.names@[before.len() as int]@ == x);
                }
            }
            assert(self@ =~= old(self)@.insert(s));
        }
    }

    /// Takes a name out.
    pub fn remove(&mut self, name: &str)
        ensures
            final(self)@ == old(self)@.remove(name@),
    {
        let ghost before = self.names@;
        let mut kept: Vec<String> = Vec::new();
        let mut i: usize = 0;
        while i < self.names.len()
            invariant
                before == self.names@,
                i <= before.len(),
                forall|k: int| 0 <= k < kept@.len() ==> (#[trigger] kept@[k])@ != name@,
                forall|k: int|
                    0 <= k < kept@.len() ==> exists|m: int|
                        0 <= m < i && #[trigger] before[m]@ == (#[trigger] kept@[k])@,
                forall|m: int|
                    0 <= m < i && (#[trigger] before[m])@ != name@ ==> exists|k: int|
                        0 <= k < kept@.len() && #[trigger] kept@[k]@ == before[m]@,
            decreases before.len() - i,
        {
            let ghost prev = kept@;
            if !self.names[i].as_str().eq(name) {
                kept.push(self.names[i].clone());
                assert(kept@[prev.len() as int]@ == before[i as int]@);
            }
            assert forall|m: int| 0 <= m < i && (#[trigger] before[m])@ != name@ implies exists|k: int|
                0 <= k < kept@.len() && #[trigger] kept@[k]@ == before[m]@ by {
                let k = choose|k: int| 0 <= k < prev.len() && #[trigger] prev[k]@ == before[m]@;
                assert(kept@[k]@ == before[m]@);
            }
            i = i + 1;
        }
        self.names = kept;
        proof {
            assert forall|x: Seq<char>| self@.contains(x) == old(self)@.remove(name@).contains(x) by {
                if self@.contains(x) {
                    let k = choose|k: int| 0 <= k < kept@.len() && #[trigger] kept@[k]@ == x;
                    let m = choose|m: int| 0 <= m < before.len() && #[trigger] before[m]@ == kept@[k]@;
                    assert(before[m]@ == x);
                }
                if old(self)@.remove(name@).contains(x) {
                    let m = choose|m: int| 0 <= m < before.len() && #[trigger] before[m]@ == x;
                    let k = choose|k: int| 0 <= k < kept@.len() && #[trigger] kept@[k]@ == before[m]@;
                    assert(kept@[k]@ == x);
                }
            }
            assert(self@ =~= old(self)@.remove(name@));
        }
    }
}

/// A pair of names, as a value.
pub open spec fn pair_view(p: (String, String)) -> (Seq<char>, Seq<char>) {
    (p.0@, p.1@)
}

/// A set of pairs of names.
#[derive(Debug, PartialEq, Eq)]
pub struct PairSet {
    pairs: Vec<(String, String)>,
}

impl View for PairSet {
    type V = Set<(Seq<char>, Seq<char>)>;

    closed spec fn view(&self) -> Set<(Seq<char>, Seq<char>)> {
        Set::new(
            |s: (Seq<char>, Seq<char>)|
                exists|i: int| 0 <= i < self.pairs@.len() && pair_view(#[trigger] self.pairs@[i]) == s,
        )
    }
}

impl PairSet {
    /// The empty set.
    pub fn new() -> (r: PairSet)
        ensures
            r@ == Set::<(Seq<char>, Seq<char>)>::empty(),
    {
        let r: PairSet = PairSet { pairs: Vec::new() };
        assert(r@ =~= Set::<(Seq<char>, Seq<char>)>::empty());
        r
    }

    /// Whether a pair is in the set.
    pub fn contains(&self, first: &str, second: &str) -> (r: bool)
        ensures
            r == self@.contains((first@, second@)),
    {
        let mut i: usize = 0;
        while i < self.pairs.len()
            invariant
                i <= self.pairs@.len(),
                forall|k: int| 0 <= k < i ==> pair_view(#[trigger] self.pairs@[k]) != (first@, second@),
            decreases self.pairs@.len() - i,
        {
            if self.pairs[i].0.as_str().eq(first) && self.pairs[i].1.as_str().eq(second) {
                assert(pair_view(self.pairs@[i as int]) == (first@, second@));
                return true;
            }
            i = i + 1;
        }
        false
    }

    /// Puts a pair in.
    pub fn insert(&mut self, pair: (String, String))
        ensures
            final(self)@ == old(self)@.insert(pair_view(pair)),
    {
        let ghost s = pair_view(pair);
        if self.contains(pair.0.as_str(), pair.1.as_str()) {
            assert(self@.insert(s) =~= self@);
            return;
        }
        let ghost before = self.pairs@;
        self.pairs.push(pair);
        proof {
            assert forall|x: (Seq<char>, Seq<char>)| self@.contains(x) == old(self)@.insert(s).contains(x) by {
                if self@.contains(x) {
                    let i = choose|i: int| 0 <= i < self.pairs@.len() && pair_view(#[trigger] self.pairs@[i]) == x;
                    if i < before.len() {
                        assert(pair_view(before[i]) == x);
                    }
                }
                if old(self)@.contains(x) {
                    let i = choose|i: int| 0 <= i < before.len() && pair_view(#[trigger] before[i]) == x;
                    assert(pair_view(self.pairs@[i]) == x);
                }
                if x == s {
                    assert(pair_view(self.pairs@[before.len() as int]) == x);
                }
            }
            assert(self@ =~= old(self)@.insert(s));
        }
    }

    /// Takes a pair out.
    pub fn remove(&mut self, first: &str, second: &str)
        ensures
            final(self)@ == old(self)@.remove((first@, second@)),
    {
        let ghost before = self.pairs@;
        let ghost gone = (first@, second@);
        let mut kept: Vec<(String, String)> = Vec::new();
        let mut i: usize = 0;
        while i < self.pairs.len()
            invariant
                before == self.pairs@,
                gone == (first@, second@),
                i <= before.len(),
                forall|k: int| 0 <= k < kept@.len() ==> pair_view(#[trigger] kept@[k]) != gone,
                forall|k: int|
                    0 <= k < kept@.len() ==> exists|m: int|
                        0 <= m < i && pair_view(#[trigger] before[m]) == pair_view(#[trigger] kept@[k]),
                forall|m: int|
                    0 <= m < i && pair_view(#[trigger] before[m]) != gone ==> exists|k: int|
                        0 <= k < kept@.len() && pair_view(#[trigger] kept@[k]) == pair_view(before[m]),
            decreases before.len() - i,
        {
            let ghost prev = kept@;
            if !(self.pairs[i].0.as_str().eq(first) && self.pairs[i].1.as_str().eq(second)) {
                kept.push((self.pairs[i].0.clone(), self.pairs[i].1.clone()));
                assert(pair_view(kept@[prev.len() as int]) == pair_view(before[i as int]));
            }
            assert forall|m: int| 0 <= m < i && pair_view(#[trigger] before[m]) != gone implies exists|k: int|
                0 <= k < kept@.len() && pair_view(#[trigger] kept@[k]) == pair_view(before[m]) by {
                let k = choose|k: int| 0 <= k < prev.len() && pair_view(#[trigger] prev[k]) == pair_view(before[m]);
                assert(pair_view(kept@[k]) == pair_view(before[m]));
            }
            i = i + 1;
        }
        self.pairs = kept;
        proof {
            assert forall|x: (Seq<char>, Seq<char>)| self@.contains(x) == old(self)@.remove(gone).contains(x) by {
                if self@.contains(x) {
                    let k = choose|k: int| 0 <= k < kept@.len() && pair_view(#[trigger] kept@[k]) == x;
                    let m = choose|m: int| 0 <= m < before.len() && pair_view(#[trigger] before[m]) == pair_view(kept@[k]);
                    assert(pair_view(before[m]) == x);
                }
                if old(self)@.remove(gone).contains(x) {
                    let m = choose|m: int| 0 <= m < before.len() && pair_view(#[trigger] before[m]) == x;
                    let k = choose|k: int| 0 <= k < kept@.len() && pair_view(#[trigger] kept@[k]) == pair_view(before[m]);
                    assert(pair_view(kept@[k]) == x);
                }
            }
            assert(self@ =~= old(self)@.remove(gone));
        }
    }
}

/// Which artists and albums are open, by name.
#[derive(Debug, PartialEq, Eq)]
pub struct FoldState {
    pub expanded_artists: NameSet,
    pub expanded_albums: PairSet,
}

impl Default for FoldState {
    fn default() -> (r: Self)
        ensures
            r.expanded_artists@ == Set::<Seq<char>>::empty(),
            r.expanded_albums@ == Set::<(Seq<char>, Seq<char>)>::empty(),
    {
        FoldState { expanded_artists: NameSet::new(), expanded_albums: PairSet::new() }
    }
}

impl Default for LibraryTree {
    fn default() -> (r: Self)
        ensures
            r@ == Seq::<ArtistV>::empty(),
    {
        let r: LibraryTree = LibraryTree { artists: Vec::new() };
        assert(r@ =~= Seq::<ArtistV>::empty());
        r
    }
}

/// One row of the tree on the screen. The numbers are places in the tree.
#[derive(Clone, Copy, Debug, PartialEq, Eq, Structural)]
pub enum VisibleRow {
    Artist { artist: usize },
    Album { artist: usize, album: usize },
    Track { artist: usize, album: usize, track: usize },
}

/// Whether a row stands for a node of the tree.
pub open spec fn row_in(tree: Seq<ArtistV>, row: VisibleRow) -> bool {
    match row {
        VisibleRow::Artist { artist } => artist < tree.len(),
        VisibleRow::Album { artist, album } => artist < tree.len() && album < tree[artist as int].albums.len(),
        VisibleRow::Track { artist, album, track } => artist < tree.len() && album
            < tree[artist as int].albums.len() && track < tree[artist as int].albums[album as int].tracks.len(),
    }
}

impl FoldState {
    /// Whether an artist is open.
    pub open spec fn artist_open(self, a: ArtistV) -> bool {
        self.expanded_artists@.contains(a.name)
    }

    /// Whether an album is open.
    pub open spec fn album_open(self, a: ArtistV, al: AlbumV) -> bool {
        self.expanded_albums@.contains((a.name, al.name))
    }
}

/// The rows of the first `n` tracks of an album.
pub open spec fn track_rows(ai: int, bi: int, n: int) -> Seq<VisibleRow> {
    Seq::new(
        n as nat,
        |ti: int| VisibleRow::Track { artist: ai as usize, album: bi as usize, track: ti as usize },
    )
}

/// The rows of an album: its own, and those of its tracks where it is open.
pub open spec fn album_rows(tree: Seq<ArtistV>, fold: FoldState, ai: int, bi: int) -> Seq<VisibleRow> {
    let al = tree[ai].albums[bi];
    seq![VisibleRow::Album { artist: ai as usize, album: bi as usize }] + if fold.album_open(tree[ai], al) {
        track_rows(ai, bi, al.tracks.len() as int)
    } else {
        Seq::empty()
    }
}

/// The rows of the first `n` albums of an artist.
pub open spec fn albums_rows(tree: Seq<ArtistV>, fold: FoldState, ai: int, n: int) -> Seq<VisibleRow>
    decreases n,
{
    if n <= 0 {
        Seq::empty()
    } else {
        albums_rows(tree, fold, ai, n - 1) + album_rows(tree, fold, ai, n - 1)
    }
}

/// The rows of an artist: their own, and those of their albums where they are
/// open.
pub open spec fn artist_rows(tree: Seq<ArtistV>, fold: FoldState, ai: int) -> Seq<VisibleRow> {
    seq![VisibleRow::Artist { artist: ai as usize }] + if fold.artist_open(tree[ai]) {
        albums_rows(tree, fold, ai, tree[ai].albums.len() as int)
    } else {
        Seq::empty()
    }
}

/// The rows of the first `n` artists.
pub open spec fn artists_rows(tree: Seq<ArtistV>, fold: FoldState, n: int) -> Seq<VisibleRow>
    decreases n,
{
    if n <= 0 {
        Seq::empty()
    } else {
        artists_rows(tree, fold, n - 1) + artist_rows(tree, fold, n - 1)
    }
}

/// The rows of the tree from top to bottom, closed nodes left closed.
pub open spec fn rows_of(tree: Seq<ArtistV>, fold: FoldState) -> Seq<VisibleRow> {
    artists_rows(tree, fold, tree.len() as int)
}

/// The rows of the tree from top to bottom: every artist, the albums of an open
/// artist, and the tracks of an open album.
pub fn visible_rows(tree: &LibraryTree, fold: &FoldState) -> (rows: Vec<VisibleRow>)
    ensures
        rows@ == rows_of(tree@, *fold),
{
    let ghost tv = tree@;
    let mut rows: Vec<VisibleRow> = Vec::new();
    let mut ai: usize = 0;
    while ai < tree.artists.len()
        invariant
            tv == tree@,
            ai <= tree.artists@.len(),
            rows@ == artists_rows(tv, *fold, ai as int),
        decreases tree.artists@.len() - ai,
    {
        let artist: &ArtistNode = &tree.artists[ai];
        assert(tv[ai as int] == artist@);
        let ghost rows0 = rows@;
        rows.push(VisibleRow::Artist { artist: ai });
        let ghost head = seq![VisibleRow::Artist { artist: ai }];
        if fold.expanded_artists.contains(artist.name.as_str()) {
            let mut bi: usize = 0;
            assert(rows@ =~= rows0 + (head + albums_rows(tv, *fold, ai as int, 0)));
            while bi < artist.albums.len()
                invariant
                    tv == tree@,
                    ai < tv.len(),
                    tv[ai as int] == artist@,
                    bi <= artist.albums@.len(),
                    rows@ == rows0 + (head + albums_rows(tv, *fold, ai as int, bi as int)),
                decreases artist.albums@.len() - bi,
            {
                let album: &AlbumNode = &artist.albums[bi];
                assert(tv[ai as int].albums[bi as int] == album@);
                let ghost rows1 = rows@;
                let ghost top = seq![VisibleRow::Album { artist: ai, album: bi }];
                rows.push(VisibleRow::Album { artist: ai, album: bi });
                if fold.expanded_albums.contains(artist.name.as_str(), album.name.as_str()) {
                    let mut ti: usize = 0;
                    assert(rows@ =~= rows1 + (top + track_rows(ai as int, bi as int, 0)));
                    while ti < album.tracks.len()
                        invariant
                            ti <= album.tracks@.len(),
                            rows@ == rows1 + (top + track_rows(ai as int, bi as int, ti as int)),
                        decreases album.tracks@.len() - ti,
                    {
                        rows.push(VisibleRow::Track { artist: ai, album: bi, track: ti });
                        ti = ti + 1;
                        assert(rows@ =~= rows1 + (top + track_rows(ai as int, bi as int, ti as int)));
                    }
                } else {
                    assert(rows@ =~= rows1 + (top + Seq::<VisibleRow>::empty()));
                }
                assert(rows@ == rows1 + album_rows(tv, *fold, ai as int, bi as int));
                bi = bi + 1;
                assert(rows@ =~= rows0 + (head + albums_rows(tv, *fold, ai as int, bi as int)));
            }
        } else {
            assert(rows@ =~= rows0 + (head + Seq::<VisibleRow>::empty()));
        }
        assert(rows@ == rows0 + artist_rows(tv, *fold, ai as int));
        ai = ai + 1;
    }
    rows
}

/// The fold state with a row's node open; a track has nothing to open.
pub open spec fn opened(tree: Seq<ArtistV>, fold: FoldState, after: FoldState, row: VisibleRow) -> bool {
    match row {
        VisibleRow::Artist { artist } => {
            &&& after.expanded_artists@ == fold.expanded_artists@.insert(tree[artist as int].name)
            &&& after.expanded_albums@ == fold.expanded_albums@
        },
        VisibleRow::Album { artist, album } => {
            &&& after.expanded_artists@ == fold.expanded_artists@
            &&& after.expanded_albums@ == fold.expanded_albums@.insert(
                (tree[artist as int].name, tree[artist as int].albums[album as int].name),
            )
        },
        VisibleRow::Track { .. } => after == fold,
    }
}

/// The fold state with a row's node closed; a track has nothing to close.
pub open spec fn closed_at(tree: Seq<ArtistV>, fold: FoldState, after: FoldState, row: VisibleRow) -> bool {
    match row {
        VisibleRow::Artist { artist } => {
            &&& after.expanded_artists@ == fold.expanded_artists@.remove(tree[artist as int].name)
            &&& after.expanded_albums@ == fold.expanded_albums@
        },
        VisibleRow::Album { artist, album } => {
            &&& after.expanded_artists@ == fold.expanded_artists@
            &&& after.expanded_albums@ == fold.expanded_albums@.remove(
                (tree[artist as int].name, tree[artist as int].albums[album as int].name),
            )
        },
        VisibleRow::Track { .. } => after == fold,
    }
}

/// Opens the node of a row. Nothing happens on a track, or on an open node.
pub fn expand(tree: &LibraryTree, fold: &mut FoldState, row: VisibleRow)
    requires
        row_in(tree@, row),
    ensures
        opened(tree@, *old(fold), *final(fold), row),
{
    match row {
        VisibleRow::Artist { artist } => {
            assert(tree@[artist as int] == tree.artists@[artist as int]@);
            let name: String = tree.artists[artist].name.clone();
            fold.expanded_artists.insert(name);
        },
        VisibleRow::Album { artist, album } => {
            assert(tree@[artist as int] == tree.artists@[artist as int]@);
            let a: &ArtistNode = &tree.artists[artist];
            assert(a@.albums[album as int] == a.albums@[album as int]@);
            let key: (String, String) = (a.name.clone(), a.albums[album].name.clone());
            fold.expanded_albums.insert(key);
        },
        VisibleRow::Track { .. } => {},
    }
}

/// Closes the node of a row. Nothing happens on a track, or on a closed node.
pub fn collapse(tree: &LibraryTree, fold: &mut FoldState, row: VisibleRow)
    requires
        row_in(tree@, row),
    ensures
        closed_at(tree@, *old(fold), *final(fold), row),
{
    match row {
        VisibleRow::Artist { artist } => {
            assert(tree@[artist as int] == tree.artists@[artist as int]@);
            fold.expanded_artists.remove(tree.artists[artist].name.as_str());
        },
        VisibleRow::Album { artist, album } => {
            assert(tree@[artist as int] == tree.artists@[artist as int]@);
            let a: &ArtistNode = &tree.artists[artist];
            assert(a@.albums[album as int] == a.albums@[album as int]@);
            fold.expanded_albums.remove(a.name.as_str(), a.albums[album].name.as_str());
        },
        VisibleRow::Track { .. } => {},
    }
}

/// The playlist places of an album's tracks.
pub open spec fn album_places(al: AlbumV) -> Seq<int> {
    al.tracks.map_values(|t: TrackV| t.index)
}

/// The playlist places of the tracks of an artist's first `n` albums.
pub open spec fn albums_places(a: ArtistV, n: int) -> Seq<int>
    decreases n,
{
    if n <= 0 {
        Seq::empty()
    } else {
        albums_places(a, n - 1) + album_places(a.albums[n - 1])
    }
}

/// The playlist places of the tracks under a row, in the order of the tree.
pub open spec fn places_under(tree: Seq<ArtistV>, row: VisibleRow) -> Seq<int> {
    match row {
        VisibleRow::Artist { artist } => albums_places(
            tree[artist as int],
            tree[artist as int].albums.len() as int,
        ),
        VisibleRow::Album { artist, album } => album_places(tree[artist as int].albums[album as int]),
        VisibleRow::Track { artist, album, track } => seq![
            tree[artist as int].albums[album as int].tracks[track as int].index,
        ],
    }
}

/// Appends the playlist places of an album's tracks.
fn push_album_places(al: &AlbumNode, out: &mut Vec<usize>)
    ensures
        order::places(final(out)@) == order::places(old(out)@) + album_places(al@),
{
    let ghost start = order::places(out@);
    let mut i: usize = 0;
    assert(album_places(al@).take(0) =~= Seq::<int>::empty());
    assert(order::places(out@) =~= start + album_places(al@).take(0));
    while i < al.tracks.len()
        invariant
            i <= al.tracks@.len(),
            order::places(out@) == start + album_places(al@).take(i as int),
        decreases al.tracks@.len() - i,
    {
        let ghost prev = out@;
        out.push(al.tracks[i].playlist_index);
        assert(al@.tracks[i as int] == al.tracks@[i as int]@);
        assert(album_places(al@)[i as int] == al.tracks@[i as int].playlist_index as int);
        assert(order::places(out@) =~= order::places(prev).push(al.tracks@[i as int].playlist_index as int));
        assert(album_places(al@).take(i + 1) =~= album_places(al@).take(i as int).push(
            al.tracks@[i as int].playlist_index as int,
        ));
        i = i + 1;
        assert(order::places(out@) =~= start + album_places(al@).take(i as int));
    }
    assert(album_places(al@).take(al.tracks@.len() as int) =~= album_places(al@));
}

/// The playlist places of all tracks under a row, in the order of the tree: of a
/// track itself, of an album its tracks, of an artist all of theirs.
pub fn subtree_track_indices(tree: &LibraryTree, row: VisibleRow) -> (r: Vec<usize>)
    requires
        row_in(tree@, row),
    ensures
        order::places(r@) == places_under(tree@, row),
{
    let mut out: Vec<usize> = Vec::new();
    match row {
        VisibleRow::Track { artist, album, track } => {
            assert(tree@[artist as int] == tree.artists@[artist as int]@);
            let a: &ArtistNode = &tree.artists[artist];
            assert(a@.albums[album as int] == a.albums@[album as int]@);
            let al: &AlbumNode = &a.albums[album];
            assert(al@.tracks[track as int] == al.tracks@[track as int]@);
            out.push(al.tracks[track].playlist_index);
            assert(order::places(out@) =~= places_under(tree@, row));
        },
        VisibleRow::Album { artist, album } => {
            assert(tree@[artist as int] == tree.artists@[artist as int]@);
            let a: &ArtistNode = &tree.artists[artist];
            assert(a@.albums[album as int] == a.albums@[album as int]@);
            push_album_places(&a.albums[album], &mut out);
            assert(order::places(out@) =~= places_under(tree@, row));
        },
        VisibleRow::Artist { artist } => {
            assert(tree@[artist as int] == tree.artists@[artist as int]@);
            let a: &ArtistNode = &tree.artists[artist];
            let mut i: usize = 0;
            assert(order::places(out@) =~= albums_places(a@, 0));
            while i < a.albums.len()
                invariant
                    i <= a.albums@.len(),
                    order::places(out@) == albums_places(a@, i as int),
                decreases a.albums@.len() - i,
            {
                assert(a@.albums[i as int] == a.albums@[i as int]@);
                push_album_places(&a.albums[i], &mut out);
                i = i + 1;
            }
        },
    }
    out
}

/// The first of some places.
pub open spec fn first_place(p: Seq<int>) -> Option<int> {
    if p.len() > 0 {
        Some(p[0])
    } else {
        None
    }
}

/// The playlist place that is played from a row: the first track under it.
/// `None` only where there is no track under it.
pub fn first_track_index(tree: &LibraryTree, row: VisibleRow) -> (r: Option<usize>)
    requires
        row_in(tree@, row),
    ensures
        (match r {
            Some(i) => Some(i as int),
            None => None::<int>,
        }) == first_place(places_under(tree@, row)),
{
    match row {
        VisibleRow::Track { artist, album, track } => {
            assert(tree@[artist as int] == tree.artists@[artist as int]@);
            let a: &ArtistNode = &tree.artists[artist];
            assert(a@.albums[album as int] == a.albums@[album as int]@);
            let al: &AlbumNode = &a.albums[album];
            assert(al@.tracks[track as int] == al.tracks@[track as int]@);
            Some(al.tracks[track].playlist_index)
        },
        VisibleRow::Album { artist, album } => {
            assert(tree@[artist as int] == tree.artists@[artist as int]@);
            let a: &ArtistNode = &tree.artists[artist];
            assert(a@.albums[album as int] == a.albums@[album as int]@);
            let al: &AlbumNode = &a.albums[album];
            if al.tracks.len() > 0 {
                assert(al@.tracks[0] == al.tracks@[0]@);
                Some(al.tracks[0].playlist_index)
            } else {
                None
            }
        },
        VisibleRow::Artist { artist } => {
            assert(tree@[artist as int] == tree.artists@[artist as int]@);
            let a: &ArtistNode = &tree.artists[artist];
            let mut i: usize = 0;
            while i < a.albums.len()
                invariant
                    i <= a.albums@.len(),
                    tree@[artist as int] == a@,
                    row == (VisibleRow::Artist { artist }),
                    albums_places(a@, i as int) == Seq::<int>::empty(),
                decreases a.albums@.len() - i,
            {
                let al: &AlbumNode = &a.albums[i];
                assert(a@.albums[i as int] == a.albums@[i as int]@);
                if al.tracks.len() > 0 {
                    assert(al@.tracks[0] == al.tracks@[0]@);
                    proof {
                        lemma_albums_places_prefix(a@, i + 1, a.albums@.len() as int);
                        assert(albums_places(a@, i + 1) =~= album_places(al@));
                    }
                    return Some(al.tracks[0].playlist_index);
                }
                i = i + 1;
                assert(albums_places(a@, i as int) =~= Seq::<int>::empty());
            }
            None
        },
    }
}

/// More albums only add places behind those of fewer.
proof fn lemma_albums_places_prefix(a: ArtistV, m: int, n: int)
    requires
        0 <= m <= n,
    ensures
        albums_places(a, m).len() <= albums_places(a, n).len(),
        forall|i: int| 0 <= i < albums_places(a, m).len() ==> albums_places(a, n)[i] == albums_places(a, m)[i],
    decreases n,
{
    if m < n {
        lemma_albums_places_prefix(a, m, n - 1);
    }
}

/// Whether the filter shows a track: the query stands in its title, or in the
/// name of its album or artist, with letter case left out.
pub open spec fn shows(tree: Seq<ArtistV>, q: Seq<char>, ai: int, bi: int, ti: int) -> bool {
    let a = tree[ai];
    let al = a.albums[bi];
    text::has_text(text::folded(a.name), q) || text::has_text(text::folded(al.name), q)
        || text::has_text(text::folded(al.tracks[ti].title), q)
}

/// The rows of those among the first `n` tracks of an album that are shown.
pub open spec fn shown_tracks(tree: Seq<ArtistV>, q: Seq<char>, ai: int, bi: int, n: int) -> Seq<VisibleRow>
    decreases n,
{
    if n <= 0 {
        Seq::empty()
    } else if shows(tree, q, ai, bi, n - 1) {
        shown_tracks(tree, q, ai, bi, n - 1).push(
            VisibleRow::Track { artist: ai as usize, album: bi as usize, track: (n - 1) as usize },
        )
    } else {
        shown_tracks(tree, q, ai, bi, n - 1)
    }
}

/// A header and the rows under it, or nothing where there are no rows under it.
pub open spec fn headed(head: VisibleRow, rows: Seq<VisibleRow>) -> Seq<VisibleRow> {
    if rows.len() == 0 {
        Seq::empty()
    } else {
        seq![head] + rows
    }
}

/// The shown rows of the first `n` albums of an artist.
pub open spec fn shown_albums(tree: Seq<ArtistV>, q: Seq<char>, ai: int, n: int) -> Seq<VisibleRow>
    decreases n,
{
    if n <= 0 {
        Seq::empty()
    } else {
        shown_albums(tree, q, ai, n - 1) + headed(
            VisibleRow::Album { artist: ai as usize, album: (n - 1) as usize },
            shown_tracks(tree, q, ai, n - 1, tree[ai].albums[n - 1].tracks.len() as int),
        )
    }
}

/// The shown rows of the first `n` artists.
pub open spec fn shown_artists(tree: Seq<ArtistV>, q: Seq<char>, n: int) -> Seq<VisibleRow>
    decreases n,
{
    if n <= 0 {
        Seq::empty()
    } else {
        shown_artists(tree, q, n - 1) + headed(
            VisibleRow::Artist { artist: (n - 1) as usize },
            shown_albums(tree, q, n - 1, tree[n - 1].albums.len() as int),
        )
    }
}

/// The rows a query leaves: every track it matches, under its album and artist.
pub open spec fn filtered_rows(tree: Seq<ArtistV>, query: Seq<char>) -> Seq<VisibleRow> {
    shown_artists(tree, text::folded(query), tree.len() as int)
}

fn push_rows(rows: &mut Vec<VisibleRow>, head: VisibleRow, under: &Vec<VisibleRow>)
    ensures
        final(rows)@ == old(rows)@ + headed(head, under@),
{
    let ghost start = rows@;
    if under.len() == 0 {
        assert(rows@ =~= start + headed(head, under@));
        return;
    }
    rows.push(head);
    let mut i: usize = 0;
    assert(rows@ =~= start + (seq![head] + under@.take(0)));
    while i < under.len()
        invariant
            i <= under@.len(),
            rows@ == start + (seq![head] + under@.take(i as int)),
        decreases under@.len() - i,
    {
        rows.push(under[i]);
        i = i + 1;
        assert(rows@ =~= start + (seq![head] + under@.take(i as int)));
    }
    assert(under@.take(under@.len() as int) =~= under@);
}

/// The rows of the tree that a query leaves. A track is shown where the query
/// stands in its title, album or artist; the nodes above a shown track are
/// shown and open, all others are left out. The empty query leaves every node
/// that holds a track.
pub fn visible_rows_filtered(tree: &LibraryTree, query: &str) -> (rows: Vec<VisibleRow>)
    ensures
        rows@ == filtered_rows(tree@, query@),
{
    let ghost tv = tree@;
    let q: String = query.to_lowercase();
    let mut rows: Vec<VisibleRow> = Vec::new();
    let mut ai: usize = 0;
    while ai < tree.artists.len()
        invariant
            tv == tree@,
            ai <= tree.artists@.len(),
            rows@ == shown_artists(tv, q@, ai as int),
        decreases tree.artists@.len() - ai,
    {
        let artist: &ArtistNode = &tree.artists[ai];
        assert(tv[ai as int] == artist@);
        let artist_match: bool = contains_text(artist.name.to_lowercase().as_str(), q.as_str());
        let mut artist_rows: Vec<VisibleRow> = Vec::new();
        let mut bi: usize = 0;
        while bi < artist.albums.len()
            invariant
                tv == tree@,
                ai < tv.len(),
                tv[ai as int] == artist@,
                artist_match == text::has_text(text::folded(artist.name@), q@),
                bi <= artist.albums@.len(),
                artist_rows@ == shown_albums(tv, q@, ai as int, bi as int),
            decreases artist.albums@.len() - bi,
        {
            let album: &AlbumNode = &artist.albums[bi];
            assert(tv[ai as int].albums[bi as int] == album@);
            let album_match: bool = artist_match || contains_text(
                album.name.to_lowercase().as_str(),
                q.as_str(),
            );
            let mut album_rows: Vec<VisibleRow> = Vec::new();
            let mut ti: usize = 0;
            while ti < album.tracks.len()
                invariant
                    ai < tv.len(),
                    tv[ai as int] == artist@,
                    bi < artist.albums@.len(),
                    tv[ai as int].albums[bi as int] == album@,
                    album_match == (text::has_text(text::folded(artist.name@), q@) || text::has_text(
                        text::folded(album.name@),
                        q@,
                    )),
                    ti <= album.tracks@.len(),
                    album_rows@ == shown_tracks(tv, q@, ai as int, bi as int, ti as int),
                decreases album.tracks@.len() - ti,
            {
                assert(album@.tracks[ti as int] == album.tracks@[ti as int]@);
                if album_match || contains_text(
                    album.tracks[ti].title.to_lowercase().as_str(),
                    q.as_str(),
                ) {
                    album_rows.push(VisibleRow::Track { artist: ai, album: bi, track: ti });
                }
                ti = ti + 1;
            }
            push_rows(&mut artist_rows, VisibleRow::Album { artist: ai, album: bi }, &album_rows);
            bi = bi + 1;
        }
        push_rows(&mut rows, VisibleRow::Artist { artist: ai }, &artist_rows);
        ai = ai + 1;
    }
    rows
}

/// The glyph of an open or closed node.
pub open spec fn fold_glyph(open: bool) -> char {
    if open {
        '▾'
    } else {
        '▸'
    }
}

/// A track's number as the tree shows it.
pub open spec fn track_number(n: Option<u32>) -> Seq<char> {
    match n {
        Some(n) => text::pad_left(text::dec(n as nat), '0', 2),
        None => "··"@,
    }
}

/// What a row says, without colour.
pub open spec fn row_plain(tree: Seq<ArtistV>, fold: FoldState, row: VisibleRow, now: Option<usize>) -> Seq<char> {
    match row {
        VisibleRow::Artist { artist } => {
            let a = tree[artist as int];
            "  "@.push(fold_glyph(fold.artist_open(a))).push(' ') + a.name
        },
        VisibleRow::Album { artist, album } => {
            let a = tree[artist as int];
            let al = a.albums[album as int];
            "    "@.push(fold_glyph(fold.album_open(a, al))).push(' ') + al.name
        },
        VisibleRow::Track { artist, album, track } => {
            let t = tree[artist as int].albums[album as int].tracks[track as int];
            let marker = if now is Some && now->0 == t.index {
                '▶'
            } else {
                ' '
            };
            ("      "@ + track_number(t.track)).push(' ').push(marker).push(' ') + t.title
        },
    }
}

/// What a row says, in the colours of a palette.
pub open spec fn row_colored(
    tree: Seq<ArtistV>,
    fold: FoldState,
    row: VisibleRow,
    now: Option<usize>,
    p: Palette,
) -> Seq<char> {
    match row {
        VisibleRow::Artist { artist } => {
            let a = tree[artist as int];
            ("  "@ + p.fg@).push(fold_glyph(fold.artist_open(a))).push(' ') + a.name + p.reset@
        },
        VisibleRow::Album { artist, album } => {
            let a = tree[artist as int];
            let al = a.albums[album as int];
            ("    "@ + p.dim@).push(fold_glyph(fold.album_open(a, al))).push(' ') + al.name + p.reset@
        },
        VisibleRow::Track { artist, album, track } => {
            let t = tree[artist as int].albums[album as int].tracks[track as int];
            let playing = now is Some && now->0 == t.index;
            let marker = if playing {
                '▶'
            } else {
                ' '
            };
            let color = if playing {
                p.accent@
            } else {
                p.fg@
            };
            (("      "@ + p.dim@ + track_number(t.track)).push(' ') + color).push(marker).push(' ')
                + t.title + p.reset@
        },
    }
}

/// A row highlighted over its whole width: with the palette's cursor tint, or in
/// reverse video where it has none.
pub open spec fn highlighted(plain: Seq<char>, width: int, p: Palette) -> Seq<char> {
    let cut = ansi::visible_cut(plain, width);
    let pad = text::rep(' ', text::minus(width, ansi::visible_columns(cut) as int) as nat);
    if p.cursor_bg@.len() == 0 {
        "\x1B[7m"@ + cut + pad + "\x1B[27m"@
    } else {
        p.cursor_bg@ + cut + pad + p.reset@
    }
}

/// The line of a row.
pub open spec fn row_line(
    tree: Seq<ArtistV>,
    fold: FoldState,
    row: VisibleRow,
    under_cursor: bool,
    width: int,
    p: Palette,
    now: Option<usize>,
) -> Seq<char> {
    if under_cursor {
        highlighted(row_plain(tree, fold, row, now), width, p)
    } else {
        ansi::visible_cut(row_colored(tree, fold, row, now, p), width)
    }
}

/// Appends a track's number.
fn push_track_number(s: &mut String, n: Option<u32>)
    ensures
        final(s)@ == old(s)@ + track_number(n),
{
    match n {
        Some(n) => push_dec2(s, n as u64),
        None => s.push_str("··"),
    }
}

fn render_row(
    tree: &LibraryTree,
    fold: &FoldState,
    row: VisibleRow,
    under_cursor: bool,
    width: usize,
    p: &Palette,
    now: Option<usize>,
) -> (line: String)
    requires
        row_in(tree@, row),
    ensures
        line@ == row_line(tree@, *fold, row, under_cursor, width as int, *p, now),
{
    let mut s: String = String::new();
    match row {
        VisibleRow::Artist { artist } => {
            assert(tree@[artist as int] == tree.artists@[artist as int]@);
            let a: &ArtistNode = &tree.artists[artist];
            let g: char = if fold.expanded_artists.contains(a.name.as_str()) {
                '▾'
            } else {
                '▸'
            };
            s = "  ".to_owned();
            if !under_cursor {
                s.push_str(p.fg);
            }
            s.push(g);
            s.push(' ');
            s.push_str(a.name.as_str());
        },
        VisibleRow::Album { artist, album } => {
            assert(tree@[artist as int] == tree.artists@[artist as int]@);
            let a: &ArtistNode = &tree.artists[artist];
            assert(a@.albums[album as int] == a.albums@[album as int]@);
            let al: &AlbumNode = &a.albums[album];
            let g: char = if fold.expanded_albums.contains(a.name.as_str(), al.name.as_str()) {
                '▾'
            } else {
                '▸'
            };
            s = "    ".to_owned();
            if !under_cursor {
                s.push_str(p.dim);
            }
            s.push(g);
            s.push(' ');
            s.push_str(al.name.as_str());
        },
        VisibleRow::Track { artist, album, track } => {
            assert(tree@[artist as int] == tree.artists@[artist as int]@);
            let a: &ArtistNode = &tree.artists[artist];
            assert(a@.albums[album as int] == a.albums@[album as int]@);
            let al: &AlbumNode = &a.albums[album];
            assert(al@.tracks[track as int] == al.tracks@[track as int]@);
            let t: &TrackRef = &al.tracks[track];
            let playing: bool = match now {
                Some(n) => n == t.playlist_index,
                None => false,
            };
            let marker: char = if playing {
                '▶'
            } else {
                ' '
            };
            s = "      ".to_owned();
            if !under_cursor {
                s.push_str(p.dim);
            }
            push_track_number(&mut s, t.track);
            s.push(' ');
            if !under_cursor {
                s.push_str(
                    if playing {
                        p.accent
                    } else {
                        p.fg
                    },
                );
            }
            s.push(marker);
            s.push(' ');
            s.push_str(t.title.as_str());
        },
    }
    if under_cursor {
        assert(s@ == row_plain(tree@, *fold, row, now));
        let cut: String = truncate_visible(s.as_str(), width);
        let pad: usize = width.saturating_sub(visible_len(cut.as_str()));
        if p.cursor_bg.is_empty() {
            let mut line: String = "\x1B[7m".to_owned();
            line.push_str(cut.as_str());
            push_rep(&mut line, ' ', pad);
            line.push_str("\x1B[27m");
            line
        } else {
            let mut line: String = p.cursor_bg.to_owned();
            line.push_str(cut.as_str());
            push_rep(&mut line, ' ', pad);
            line.push_str(p.reset);
            line
        }
    } else {
        s.push_str(p.reset);
        assert(s@ == row_colored(tree@, *fold, row, now, *p));
        truncate_visible(s.as_str(), width)
    }
}

/// The lines of the tree between `scroll` and `scroll + height`, one per row.
/// Shared by all themes: only colours and the cursor tint differ. The row under
/// the cursor is highlighted over its whole width.
pub fn render_library_tree(
    tree: &LibraryTree,
    fold: &FoldState,
    visible: &Vec<VisibleRow>,
    cursor: usize,
    scroll: usize,
    height: usize,
    width: usize,
    p: &Palette,
    now_playing: Option<usize>,
) -> (lines: Vec<String>)
    requires
        scroll <= visible@.len(),
        forall|i: int| 0 <= i < visible@.len() ==> row_in(tree@, #[trigger] visible@[i]),
    ensures
        lines@.len() == text::least(height as int, visible@.len() - scroll),
        forall|i: int|
            0 <= i < lines@.len() ==> (#[trigger] lines@[i])@ == row_line(
                tree@,
                *fold,
                visible@[scroll + i],
                scroll + i == cursor,
                width as int,
                *p,
                now_playing,
            ),
{
    let left: usize = visible.len() - scroll;
    let n: usize = if height < left {
        height
    } else {
        left
    };
    let mut lines: Vec<String> = Vec::new();
    let mut i: usize = 0;
    while i < n
        invariant
            i <= n <= visible@.len() - scroll,
            visible@.len() <= usize::MAX,
            lines@.len() == i,
            forall|i: int| 0 <= i < visible@.len() ==> row_in(tree@, #[trigger] visible@[i]),
            forall|k: int|
                0 <= k < i ==> (#[trigger] lines@[k])@ == row_line(
                    tree@,
                    *fold,
                    visible@[scroll + k],
                    scroll + k == cursor,
                    width as int,
                    *p,
                    now_playing,
                ),
        decreases n - i,
    {
        let at: usize = scroll + i;
        let line: String = render_row(tree, fold, visible[at], at == cursor, width, p, now_playing);
        lines.push(line);
        i = i + 1;
    }
    lines
}

} // verus!
