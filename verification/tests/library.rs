use keet::library::{
    build, collapse, expand, first_track_index, render_library_tree, subtree_track_indices, visible_rows,
    visible_rows_filtered, FoldState, LibraryTree, NameSet, PairSet, TrackTags, VisibleRow,
};
use keet::theme::{palette, ThemeKind};

fn tag(
    artist: Option<&str>,
    album: Option<&str>,
    disc: Option<u32>,
    track: Option<u32>,
    title: &str,
) -> TrackTags {
    TrackTags {
        artist: artist.map(String::from),
        album: album.map(String::from),
        disc,
        track,
        title: title.into(),
    }
}

#[test]
fn build_groups_by_artist_then_album_sorted_with_unknown_bucket() {
    let tags = vec![
        tag(Some("Radiohead"), Some("OK Computer"), None, Some(2), "Paranoid Android"), // 0
        tag(Some("Arctic Monkeys"), Some("AM"), None, Some(1), "Do I Wanna Know?"),      // 1
        tag(Some("Radiohead"), Some("OK Computer"), None, Some(1), "Airbag"),            // 2
        tag(None, None, None, None, "field_recording.wav"),                              // 3
        tag(Some("arctic monkeys"), Some("AM"), None, Some(2), "R U Mine?"),             // 4
    ];
    let tree = build(&tags);

    // Artists sorted case-insensitively, Unknown last (u > r > a alphabetically).
    let names: Vec<&str> = tree.artists.iter().map(|a| a.name.as_str()).collect();
    assert_eq!(names, vec!["Arctic Monkeys", "Radiohead", "Unknown Artist"]);

    // "arctic monkeys" merges into "Arctic Monkeys" (first-seen spelling), both
    // tracks under AM in track order: playlist indices 1 then 4.
    let am = &tree.artists[0].albums[0];
    assert_eq!(am.name, "AM");
    assert_eq!(am.tracks.iter().map(|t| t.playlist_index).collect::<Vec<_>>(), vec![1, 4]);

    // OK Computer sorted by track number: Airbag before Paranoid Android.
    let okc = &tree.artists[1].albums[0];
    assert_eq!(okc.tracks.iter().map(|t| t.playlist_index).collect::<Vec<_>>(), vec![2, 0]);

    // Untagged: Unknown Artist / Unknown Album.
    assert_eq!(tree.artists[2].name, "Unknown Artist");
    assert_eq!(tree.artists[2].albums[0].name, "Unknown Album");
    assert_eq!(tree.artists[2].albums[0].tracks[0].playlist_index, 3);
}

fn sample_tree() -> LibraryTree {
    build(&vec![
        tag(Some("Arctic Monkeys"), Some("AM"), None, Some(1), "Do I Wanna Know?"),
        tag(Some("Arctic Monkeys"), Some("AM"), None, Some(2), "R U Mine?"),
        tag(Some("Radiohead"), Some("OK Computer"), None, Some(1), "Airbag"),
        tag(Some("Radiohead"), Some("OK Computer"), None, Some(2), "Paranoid Android"),
    ])
}

#[test]
fn visible_rows_collapsed_shows_only_artists() {
    let tree = sample_tree();
    let rows = visible_rows(&tree, &FoldState::default());
    assert_eq!(rows, vec![VisibleRow::Artist { artist: 0 }, VisibleRow::Artist { artist: 1 }]);
}

#[test]
fn visible_rows_expanding_artist_reveals_albums_only() {
    let tree = sample_tree();
    let mut fold = FoldState::default();
    fold.expanded_artists.insert("Arctic Monkeys".into());
    let rows = visible_rows(&tree, &fold);
    assert_eq!(
        rows,
        vec![
            VisibleRow::Artist { artist: 0 },
            VisibleRow::Album { artist: 0, album: 0 },
            VisibleRow::Artist { artist: 1 },
        ]
    );
}

#[test]
fn visible_rows_expanding_album_reveals_its_tracks() {
    let tree = sample_tree();
    let mut fold = FoldState::default();
    fold.expanded_artists.insert("Arctic Monkeys".into());
    fold.expanded_albums.insert(("Arctic Monkeys".into(), "AM".into()));
    let rows = visible_rows(&tree, &fold);
    assert_eq!(
        rows,
        vec![
            VisibleRow::Artist { artist: 0 },
            VisibleRow::Album { artist: 0, album: 0 },
            VisibleRow::Track { artist: 0, album: 0, track: 0 },
            VisibleRow::Track { artist: 0, album: 0, track: 1 },
            VisibleRow::Artist { artist: 1 },
        ]
    );
}

#[test]
fn expand_then_collapse_a_header() {
    let tree = sample_tree();
    let mut fold = FoldState::default();
    let artist_row = VisibleRow::Artist { artist: 0 };

    expand(&tree, &mut fold, artist_row);
    assert!(fold.expanded_artists.contains("Arctic Monkeys"));
    assert_eq!(visible_rows(&tree, &fold).len(), 3); // artist0 + its album + artist1

    collapse(&tree, &mut fold, artist_row);
    assert!(!fold.expanded_artists.contains("Arctic Monkeys"));
    assert_eq!(visible_rows(&tree, &fold).len(), 2); // back to just artists
}

#[test]
fn expand_collapse_on_track_is_noop() {
    let tree = sample_tree();
    let mut fold = FoldState::default();
    fold.expanded_artists.insert("Arctic Monkeys".into());
    let mut a = NameSet::new();
    a.insert("Arctic Monkeys".into());
    let b = PairSet::new();
    let track = VisibleRow::Track { artist: 0, album: 0, track: 0 };
    expand(&tree, &mut fold, track);
    collapse(&tree, &mut fold, track);
    assert_eq!(fold.expanded_artists, a);
    assert_eq!(fold.expanded_albums, b);
}

#[test]
fn render_shows_fold_glyphs_indented_names_and_windows_correctly() {
    let tree = sample_tree();
    let mut fold = FoldState::default();
    fold.expanded_artists.insert("Arctic Monkeys".into());
    let vis = visible_rows(&tree, &fold); // [AM artist, AM album, Radiohead artist]
    let p = palette(ThemeKind::Classic);
    let lines = render_library_tree(&tree, &fold, &vis, 0, 0, 10, 40, &p, None);

    assert_eq!(lines.len(), vis.len()); // one line per visible row within the window
    // Expanded artist shows ▾, collapsed shows ▸; names present.
    assert!(lines[0].contains('▾') && lines[0].contains("Arctic Monkeys"));
    assert!(lines[2].contains('▸') && lines[2].contains("Radiohead"));
    // Album row indented deeper than the artist row.
    assert!(lines[1].find("AM").unwrap() > lines[0].find("Arctic Monkeys").unwrap());

    // Windowing: height 1 from scroll 1 yields just the album row.
    let one = render_library_tree(&tree, &fold, &vis, 1, 1, 1, 40, &p, None);
    assert_eq!(one.len(), 1);
    assert!(one[0].contains("AM"));
}

#[test]
fn first_track_index_for_each_row_type() {
    let tree = sample_tree();
    // Track: itself (AM track 1 = playlist idx 1).
    assert_eq!(first_track_index(&tree, VisibleRow::Track { artist: 0, album: 0, track: 1 }), Some(1));
    // Album: its first track (AM first = idx 0).
    assert_eq!(first_track_index(&tree, VisibleRow::Album { artist: 0, album: 0 }), Some(0));
    // Artist: first album's first track (Radiohead, OK Computer, Airbag = idx 2).
    assert_eq!(first_track_index(&tree, VisibleRow::Artist { artist: 1 }), Some(2));
}

#[test]
fn subtree_track_indices_for_each_row_type() {
    let tree = sample_tree();
    assert_eq!(subtree_track_indices(&tree, VisibleRow::Track { artist: 0, album: 0, track: 1 }), vec![1]);
    assert_eq!(subtree_track_indices(&tree, VisibleRow::Album { artist: 0, album: 0 }), vec![0, 1]);
    assert_eq!(subtree_track_indices(&tree, VisibleRow::Artist { artist: 1 }), vec![2, 3]);
}

#[test]
fn filter_matches_at_each_level_keeps_ancestors_prunes_rest() {
    let tree = sample_tree();
    // Artist-level: "arctic" gives Arctic Monkeys + AM + both tracks.
    assert_eq!(
        visible_rows_filtered(&tree, "arctic"),
        vec![
            VisibleRow::Artist { artist: 0 },
            VisibleRow::Album { artist: 0, album: 0 },
            VisibleRow::Track { artist: 0, album: 0, track: 0 },
            VisibleRow::Track { artist: 0, album: 0, track: 1 },
        ]
    );
    // Album-level: "ok computer" gives Radiohead + OK Computer + both tracks.
    assert_eq!(
        visible_rows_filtered(&tree, "OK Computer"),
        vec![
            VisibleRow::Artist { artist: 1 },
            VisibleRow::Album { artist: 1, album: 0 },
            VisibleRow::Track { artist: 1, album: 0, track: 0 },
            VisibleRow::Track { artist: 1, album: 0, track: 1 },
        ]
    );
    // Track-level: "airbag" gives just Radiohead, OK Computer, Airbag.
    assert_eq!(
        visible_rows_filtered(&tree, "airbag"),
        vec![
            VisibleRow::Artist { artist: 1 },
            VisibleRow::Album { artist: 1, album: 0 },
            VisibleRow::Track { artist: 1, album: 0, track: 0 },
        ]
    );
    // No match: empty.
    assert!(visible_rows_filtered(&tree, "zzzz").is_empty());
}

#[test]
fn cursor_row_is_highlighted_in_every_theme() {
    let tree = sample_tree();
    let fold = FoldState::default();
    let vis = visible_rows(&tree, &fold);
    for kind in [ThemeKind::Classic, ThemeKind::Minimal, ThemeKind::HiFi] {
        let p = palette(kind);
        let lines = render_library_tree(&tree, &fold, &vis, 0, 0, 5, 40, &p, None);
        // Row 0 is the cursor: it must carry a highlight, reverse-video when
        // the theme has no cursor tint (Classic), or the tint otherwise.
        let highlighted =
            lines[0].contains("\x1B[7m") || (!p.cursor_bg.is_empty() && lines[0].contains(p.cursor_bg));
        assert!(highlighted, "{kind:?}: cursor row not highlighted: {:?}", lines[0]);
        // A non-cursor row must not be reverse-video highlighted.
        assert!(!lines[1].contains("\x1B[7m"), "{kind:?}: non-cursor row highlighted");
    }
}

#[test]
fn every_track_is_in_the_tree_once() {
    let tags: Vec<TrackTags> = (0..20u32)
        .map(|i| tag(Some(["B", "a", "C"][i as usize % 3]), Some(["x", "Y"][i as usize % 2]), None, Some(i % 5), "t"))
        .collect();
    let tree = build(&tags);
    let mut all: Vec<usize> = Vec::new();
    for a in 0..tree.artists.len() {
        all.extend(subtree_track_indices(&tree, VisibleRow::Artist { artist: a }));
    }
    all.sort();
    assert_eq!(all, (0..20).collect::<Vec<usize>>());
}

#[test]
fn sets_of_names_forget_what_is_removed() {
    let mut s = NameSet::new();
    assert!(s.is_empty());
    s.insert("a".into());
    s.insert("a".into());
    assert!(!s.is_empty());
    s.remove("a");
    assert!(!s.contains("a"));
    let mut p = PairSet::new();
    p.insert(("a".into(), "b".into()));
    assert!(p.contains("a", "b") && !p.contains("b", "a"));
    p.remove("a", "b");
    assert!(!p.contains("a", "b"));
}
