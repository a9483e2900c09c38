//! What is kept of a session, and how it is taken up again.
use crate::config;
use crate::equalizer;
use crate::equalizer::{BandSettings, BandType};
use crate::frame;
use crate::frame::{path_of, position_of};
use crate::path;
use crate::queue::copy_list;
use crate::state::{PlayerState, Preset, RepeatMode, RgMode, EQ_BANDS};
use crate::text;
use crate::text::ascii_lower;
use crate::theme;
use crate::theme::{resolve_theme, ThemeKind};
use crate::ui_state::UiState;
use vstd::prelude::*;

verus! {

/// What is kept of a session. What an older version did not keep is `None`.
pub struct ResumeState {
    pub source_paths: Vec<String>,
    pub track_path: String,
    /// Billionths of a second into the track.
    pub position: i128,
    pub shuffle: bool,
    /// Whether the list is repeated, as older versions kept it. No longer kept.
    pub repeat: bool,
    pub volume: u32,
    pub eq_preset: String,
    pub effects_preset: String,
    pub repeat_mode: Option<String>,
    pub rg_mode: Option<String>,
    pub device: Option<String>,
    pub exclusive: Option<bool>,
    pub crossfeed_preset: Option<String>,
    pub balance: Option<i32>,
    pub theme: Option<String>,
    /// Gains of the bands, in thousandths of a decibel.
    pub eq_gains: Option<Vec<i32>>,
    pub eq_custom: Option<bool>,
    pub eq_types: Option<Vec<String>>,
    /// Frequencies of the bands, in thousandths of a hertz.
    pub eq_freqs: Option<Vec<u32>>,
    /// Qualities of the bands, in thousandths.
    pub eq_qs: Option<Vec<u32>>,
    /// Gain ahead of the bands, in thousandths of a decibel.
    pub eq_preamp: Option<i32>,
}

/// What is in force but not part of the player: names of the presets, bands of
/// the equaliser, and the device that was asked for.
pub struct Setup {
    pub eq_name: String,
    pub fx_name: String,
    pub cf_name: String,
    pub bands: Vec<BandSettings>,
    pub preamp: i32,
    pub device: Option<String>,
}

/// How a way of repeating is kept.
pub open spec fn repeat_word(m: RepeatMode) -> Seq<char> {
    match m {
        RepeatMode::Off => "off"@,
        RepeatMode::All => "all"@,
        RepeatMode::One => "one"@,
    }
}

/// How a loudness mode is kept.
pub open spec fn rg_word(m: RgMode) -> Seq<char> {
    match m {
        RgMode::Track => "track"@,
        RgMode::Album => "album"@,
        RgMode::Off => "off"@,
    }
}

fn rg_word_of(m: RgMode) -> (s: String)
    ensures
        s@ == rg_word(m),
{
    let s: String = m.name().to_lowercase();
    proof {
        reveal_strlit("Track");
        reveal_strlit("Album");
        reveal_strlit("Off");
        reveal_strlit("track");
        reveal_strlit("album");
        reveal_strlit("off");
    }
    assert(text::lowered(m.label()) =~= rg_word(m));
    s
}

/// Whether `rs` is what is kept of a session.
pub open spec fn is_kept(rs: ResumeState, ui: UiState, paths: Seq<Seq<char>>, s: PlayerState, b: Setup) -> bool {
    &&& text::texts(rs.source_paths@) == text::texts(ui.queue.source_paths@)
    &&& rs.track_path@ == frame::path_at(paths, ui.queue.current as int)
    &&& rs.position == frame::lyrics_position(s, 0)
    &&& rs.shuffle == ui.queue.shuffle
    &&& !rs.repeat
    &&& rs.volume == s.volume
    &&& rs.eq_preset@ == b.eq_name@
    &&& rs.effects_preset@ == b.fx_name@
    &&& path::opt_text(rs.repeat_mode) == Some(repeat_word(ui.queue.repeat_mode))
    &&& path::opt_text(rs.rg_mode) == Some(rg_word(s.rg_mode))
    &&& path::opt_text(rs.device) == path::opt_text(b.device)
    &&& rs.exclusive == Some(s.device.exclusive)
    &&& path::opt_text(rs.crossfeed_preset) == Some(b.cf_name@)
    &&& rs.balance == Some(s.balance)
    &&& path::opt_text(rs.theme) == Some(s.look.theme.label())
    &&& rs.eq_custom == Some(s.eq_custom)
    &&& rs.eq_preamp == Some(b.preamp)
    &&& rs.eq_gains matches Some(g) && g@ == s.eq_gains@
    &&& rs.eq_types matches Some(t) && text::texts(t@) == b.bands@.map_values(|x: BandSettings| x.kind.label())
    &&& rs.eq_freqs matches Some(f) && f@ == b.bands@.map_values(|x: BandSettings| x.freq)
    &&& rs.eq_qs matches Some(q) && q@ == b.bands@.map_values(|x: BandSettings| x.q)
}

fn kinds_of(bands: &Vec<BandSettings>) -> (v: Vec<String>)
    ensures
        text::texts(v@) == bands@.map_values(|x: BandSettings| x.kind.label()),
{
    let ghost all = bands@.map_values(|x: BandSettings| x.kind.label());
    let mut v: Vec<String> = Vec::new();
    let mut i: usize = 0;
    assert(text::texts(v@) =~= all.take(0));
    while i < bands.len()
        invariant
            i <= bands@.len(),
            all == bands@.map_values(|x: BandSettings| x.kind.label()),
            text::texts(v@) == all.take(i as int),
        decreases bands@.len() - i,
    {
        let ghost before = v@;
        v.push(bands[i].kind.name().to_owned());
        assert(text::texts(v@) =~= text::texts(before).push(all[i as int]));
        i = i + 1;
        assert(text::texts(v@) =~= all.take(i as int));
    }
    assert(all.take(all.len() as int) =~= all);
    v
}

fn freqs_of(bands: &Vec<BandSettings>) -> (v: Vec<u32>)
    ensures
        v@ == bands@.map_values(|x: BandSettings| x.freq),
{
    let mut v: Vec<u32> = Vec::new();
    let mut i: usize = 0;
    while i < bands.len()
        invariant
            i <= bands@.len(),
            v@.len() == i,
            forall|k: int| 0 <= k < i ==> #[trigger] v@[k] == bands@[k].freq,
        decreases bands@.len() - i,
    {
        v.push(bands[i].freq);
        i = i + 1;
    }
    assert(v@ =~= bands@.map_values(|x: BandSettings| x.freq));
    v
}

fn qualities_of(bands: &Vec<BandSettings>) -> (v: Vec<u32>)
    ensures
        v@ == bands@.map_values(|x: BandSettings| x.q),
{
    let mut v: Vec<u32> = Vec::new();
    let mut i: usize = 0;
    while i < bands.len()
        invariant
            i <= bands@.len(),
            v@.len() == i,
            forall|k: int| 0 <= k < i ==> #[trigger] v@[k] == bands@[k].q,
        decreases bands@.len() - i,
    {
        v.push(bands[i].q);
        i = i + 1;
    }
    assert(v@ =~= bands@.map_values(|x: BandSettings| x.q));
    v
}

fn gains_of(gains: &[i32; EQ_BANDS]) -> (v: Vec<i32>)
    ensures
        v@ == gains@,
{
    let mut v: Vec<i32> = Vec::new();
    let mut i: usize = 0;
    while i < EQ_BANDS
        invariant
            i <= EQ_BANDS,
            v@.len() == i,
            forall|k: int| 0 <= k < i ==> #[trigger] v@[k] == gains@[k],
        decreases EQ_BANDS - i,
    {
        v.push(gains[i]);
        i = i + 1;
    }
    assert(v@ =~= gains@);
    v
}

/// What is kept of a session.
pub fn build_resume_state(ui: &UiState, playlist: &Vec<String>, state: &PlayerState, b: &Setup) -> (rs: ResumeState)
    ensures
        is_kept(rs, *ui, text::texts(playlist@), *state, *b),
{
    let repeat: &str = match ui.queue.repeat_mode {
        RepeatMode::Off => "off",
        RepeatMode::All => "all",
        RepeatMode::One => "one",
    };
    let device: Option<String> = match &b.device {
        Some(d) => Some(d.clone()),
        None => None,
    };
    ResumeState {
        source_paths: copy_list(&ui.queue.source_paths),
        track_path: path_of(playlist, ui.queue.current),
        position: position_of(state, 0),
        shuffle: ui.queue.shuffle,
        repeat: false,
        volume: state.volume,
        eq_preset: b.eq_name.clone(),
        effects_preset: b.fx_name.clone(),
        repeat_mode: Some(repeat.to_owned()),
        rg_mode: Some(rg_word_of(state.rg_mode)),
        device,
        exclusive: Some(state.device.exclusive),
        crossfeed_preset: Some(b.cf_name.clone()),
        balance: Some(state.balance),
        theme: Some(state.look.theme.name().to_owned()),
        eq_gains: Some(gains_of(&state.eq_gains)),
        eq_custom: Some(state.eq_custom),
        eq_types: Some(kinds_of(&b.bands)),
        eq_freqs: Some(freqs_of(&b.bands)),
        eq_qs: Some(qualities_of(&b.bands)),
        eq_preamp: Some(b.preamp),
    }
}

/// How the list is repeated in the session that is taken up.
pub open spec fn repeat_kept(rs: ResumeState) -> RepeatMode {
    match path::opt_text(rs.repeat_mode) {
        Some(s) => if s == "one"@ {
            RepeatMode::One
        } else if s == "all"@ {
            RepeatMode::All
        } else if s == "off"@ {
            RepeatMode::Off
        } else {
            older_repeat(rs)
        },
        None => older_repeat(rs),
    }
}

/// How an older version kept that the list is repeated.
pub open spec fn older_repeat(rs: ResumeState) -> RepeatMode {
    if rs.repeat {
        RepeatMode::All
    } else {
        RepeatMode::Off
    }
}

/// How the list is repeated in the session that is taken up.
pub fn resumed_repeat(rs: &ResumeState) -> (r: RepeatMode)
    ensures
        r == repeat_kept(*rs),
{
    let older: RepeatMode = if rs.repeat {
        RepeatMode::All
    } else {
        RepeatMode::Off
    };
    match &rs.repeat_mode {
        Some(s) => {
            let w: &str = s.as_str();
            if w.eq("one") {
                RepeatMode::One
            } else if w.eq("all") {
                RepeatMode::All
            } else if w.eq("off") {
                RepeatMode::Off
            } else {
                older
            }
        },
        None => older,
    }
}

/// Seconds to seek to in the first track: the nearest to where it was left, none
/// where that is its start.
pub open spec fn seek_kept(position: int) -> Option<int> {
    let n = text::least((position + 500_000_000) / 1_000_000_000, i64::MAX as int);
    if n > 0 {
        Some(n)
    } else {
        None
    }
}

/// Seconds to seek to in the first track.
pub fn resumed_seek(rs: &ResumeState) -> (r: Option<i64>)
    ensures
        match r {
            Some(n) => seek_kept(rs.position as int) == Some(n as int),
            None => seek_kept(rs.position as int) is None,
        },
{
    if rs.position < 500_000_000 {
        return None;
    }
    let n: i128 = rs.position / 1_000_000_000 + (if rs.position % 1_000_000_000 >= 500_000_000 {
        1
    } else {
        0
    });
    if n >= 0x7fff_ffff_ffff_ffff {
        Some(0x7fff_ffff_ffff_ffff)
    } else {
        Some(n as i64)
    }
}

/// The first place from `i` on of a name.
pub open spec fn first_named(names: Seq<Seq<char>>, name: Seq<char>, i: int) -> int
    decreases names.len() - i,
{
    if i >= names.len() || names[i] == name {
        i
    } else {
        first_named(names, name, i + 1)
    }
}

/// The first place from `i` on of a name, in capitals or not.
pub open spec fn first_alike(names: Seq<Seq<char>>, name: Seq<char>, i: int) -> int
    decreases names.len() - i,
{
    if i >= names.len() || text::lowered(names[i]) == text::lowered(name) {
        i
    } else {
        first_alike(names, name, i + 1)
    }
}

/// The first place of a name; the number of names where it is none of them.
pub fn find_named(names: &Vec<String>, name: &str) -> (r: usize)
    ensures
        r == first_named(text::texts(names@), name@, 0),
        r <= names@.len(),
{
    let ghost nv = text::texts(names@);
    let mut i: usize = 0;
    while i < names.len()
        invariant
            nv == text::texts(names@),
            i <= names@.len(),
            first_named(nv, name@, i as int) == first_named(nv, name@, 0),
        decreases names@.len() - i,
    {
        assert(nv[i as int] == names@[i as int]@);
        if names[i].as_str().eq(name) {
            return i;
        }
        i = i + 1;
    }
    i
}

/// The first place of a name, in capitals or not; the number of names where it
/// is none of them.
pub fn find_alike(names: &Vec<String>, name: &str) -> (r: usize)
    ensures
        r == first_alike(text::texts(names@), name@, 0),
        r <= names@.len(),
{
    let ghost nv = text::texts(names@);
    let low: String = ascii_lower(name);
    let mut i: usize = 0;
    while i < names.len()
        invariant
            nv == text::texts(names@),
            low@ == text::lowered(name@),
            i <= names@.len(),
            first_alike(nv, name@, i as int) == first_alike(nv, name@, 0),
        decreases names@.len() - i,
    {
        assert(nv[i as int] == names@[i as int]@);
        let one: String = ascii_lower(names[i].as_str());
        if one.as_str().eq(low.as_str()) {
            return i;
        }
        i = i + 1;
    }
    i
}

/// A selection moved to a place, where there is such a place.
pub open spec fn at_index(p: Preset, i: int, n: int) -> Preset {
    if i < n {
        Preset { index: i as usize, ..p }
    } else {
        p
    }
}

/// Moves a selection to a place, where there is such a place.
pub fn with_index(p: &mut Preset, i: usize, n: usize)
    ensures
        *final(p) == at_index(*old(p), i as int, n as int),
{
    if i < n {
        p.index = i;
    }
}

/// Selects the preset that was asked for at the start: by its name, or else the
/// one read from a file of that name, which then stands behind the others. Says
/// whether that one is taken.
pub fn choose_preset(p: &mut Preset, names: &Vec<String>, asked: &str, in_file: bool) -> (taken: bool)
    requires
        names@.len() < usize::MAX,
    ensures
        ({
            let i = first_alike(text::texts(names@), asked@, 0);
            &&& taken == (i >= names@.len() && in_file)
            &&& *final(p) == (if taken {
                Preset { index: names@.len() as usize, count: (names@.len() + 1) as usize, ..*old(p) }
            } else {
                at_index(*old(p), i, names@.len() as int)
            })
        }),
{
    let i: usize = find_alike(names, asked);
    if i < names.len() {
        p.index = i;
        false
    } else if in_file {
        p.index = names.len();
        p.count = names.len() + 1;
        true
    } else {
        false
    }
}

/// A value of a list that may be there, or another one.
pub open spec fn item_or(v: Option<Vec<u32>>, i: int, other: u32) -> u32 {
    match v {
        Some(l) => if i < l@.len() {
            l@[i]
        } else {
            other
        },
        None => other,
    }
}

/// The kind of a band, where a known one was kept.
pub open spec fn kind_or(v: Option<Vec<String>>, i: int, other: BandType) -> BandType {
    match v {
        Some(l) => if i < l@.len() {
            match BandType::of_name(l@[i]@) {
                Some(k) => k,
                None => other,
            }
        } else {
            other
        },
        None => other,
    }
}

/// A band of the equaliser as it was kept. What was not kept of it is as in a
/// plain equaliser.
pub open spec fn band_kept(rs: ResumeState, gains: Seq<i32>, i: int) -> BandSettings {
    let plain = BandSettings::idle(i);
    (BandSettings {
        kind: kind_or(rs.eq_types, i, plain.kind),
        freq: item_or(rs.eq_freqs, i, plain.freq),
        gain: if i < gains.len() {
            gains[i]
        } else {
            0
        },
        q: item_or(rs.eq_qs, i, plain.q),
    }).bounded()
}

fn pick_item(v: &Option<Vec<u32>>, i: usize, other: u32) -> (r: u32)
    ensures
        r == item_or(*v, i as int, other),
{
    match v {
        Some(l) => if i < l.len() {
            l[i]
        } else {
            other
        },
        None => other,
    }
}

fn pick_kind(v: &Option<Vec<String>>, i: usize, other: BandType) -> (r: BandType)
    ensures
        r == kind_or(*v, i as int, other),
{
    match v {
        Some(l) => if i < l.len() {
            match BandType::from_name(l[i].as_str()) {
                Some(k) => k,
                None => other,
            }
        } else {
            other
        },
        None => other,
    }
}

/// The bands of the equaliser, where they were set by hand and kept.
pub fn resumed_bands(rs: &ResumeState) -> (r: Option<Vec<BandSettings>>)
    ensures
        r is Some <==> rs.eq_custom == Some(true) && rs.eq_gains is Some,
        r matches Some(v) ==> v@.len() == EQ_BANDS && forall|i: int|
            0 <= i < EQ_BANDS ==> #[trigger] v@[i] == band_kept(*rs, rs.eq_gains->0@, i),
{
    let custom: bool = match rs.eq_custom {
        Some(c) => c,
        None => false,
    };
    if !custom {
        return None;
    }
    match &rs.eq_gains {
        Some(gains) => {
            let mut v: Vec<BandSettings> = Vec::new();
            let mut i: usize = 0;
            while i < EQ_BANDS
                invariant
                    i <= EQ_BANDS,
                    v@.len() == i,
                    forall|k: int| 0 <= k < i ==> #[trigger] v@[k] == band_kept(*rs, gains@, k),
                decreases EQ_BANDS - i,
            {
                let plain: BandSettings = BandSettings::inert(i);
                let gain: i32 = if i < gains.len() {
                    gains[i]
                } else {
                    0
                };
                let band: BandSettings = BandSettings {
                    kind: pick_kind(&rs.eq_types, i, plain.kind),
                    freq: pick_item(&rs.eq_freqs, i, plain.freq),
                    gain,
                    q: pick_item(&rs.eq_qs, i, plain.q),
                };
                v.push(band.clamped());
                i = i + 1;
            }
            Some(v)
        },
        None => None,
    }
}

/// The loudness mode that was kept.
pub open spec fn rg_kept(s: Option<Seq<char>>, now: RgMode) -> RgMode {
    match s {
        Some(n) => if n == "album"@ {
            RgMode::Album
        } else if n == "off"@ {
            RgMode::Off
        } else {
            RgMode::Track
        },
        None => now,
    }
}

/// A balance within its range.
pub open spec fn balance_within(b: i32) -> i32 {
    if b < -100 {
        (-100) as i32
    } else if b > 100 {
        100
    } else {
        b
    }
}

/// Whether the player has taken a session up. The gains are those of the bands
/// that were set by hand.
pub open spec fn is_resumed(
    s: PlayerState,
    was: PlayerState,
    rs: ResumeState,
    eq_names: Seq<Seq<char>>,
    fx_names: Seq<Seq<char>>,
    cf_names: Seq<Seq<char>>,
) -> bool {
    let by_hand = rs.eq_custom == Some(true) && rs.eq_gains is Some;
    &&& s == (PlayerState {
        volume: rs.volume,
        eq: at_index(was.eq, first_named(eq_names, rs.eq_preset@, 0), eq_names.len() as int),
        effects: at_index(was.effects, first_named(fx_names, rs.effects_preset@, 0), fx_names.len() as int),
        rg_mode: rg_kept(path::opt_text(rs.rg_mode), was.rg_mode),
        crossfeed: match path::opt_text(rs.crossfeed_preset) {
            Some(n) => at_index(was.crossfeed, first_alike(cf_names, n, 0), cf_names.len() as int),
            None => was.crossfeed,
        },
        balance: match rs.balance {
            Some(b) => balance_within(b),
            None => was.balance,
        },
        eq_custom: was.eq_custom || by_hand,
        eq_gains: s.eq_gains,
        ..was
    })
    &&& !by_hand ==> s.eq_gains == was.eq_gains
    &&& by_hand ==> forall|i: int|
        0 <= i < EQ_BANDS ==> #[trigger] s.eq_gains@[i] == band_kept(rs, rs.eq_gains->0@, i).gain
}

/// Takes a session up: what is not kept in it stays as it is. Gives the bands of
/// the equaliser, where they were set by hand.
pub fn resume(
    state: &mut PlayerState,
    rs: &ResumeState,
    eq_names: &Vec<String>,
    fx_names: &Vec<String>,
    cf_names: &Vec<String>,
) -> (bands: Option<Vec<BandSettings>>)
    ensures
        is_resumed(
            *final(state),
            *old(state),
            *rs,
            text::texts(eq_names@),
            text::texts(fx_names@),
            text::texts(cf_names@),
        ),
        bands is Some <==> rs.eq_custom == Some(true) && rs.eq_gains is Some,
        bands matches Some(v) ==> v@.len() == EQ_BANDS && forall|i: int|
            0 <= i < EQ_BANDS ==> #[trigger] v@[i] == band_kept(*rs, rs.eq_gains->0@, i),
{
    assert(text::texts(eq_names@).len() == eq_names@.len());
    assert(text::texts(fx_names@).len() == fx_names@.len());
    assert(text::texts(cf_names@).len() == cf_names@.len());
    state.volume = rs.volume;
    let eq: usize = find_named(eq_names, rs.eq_preset.as_str());
    with_index(&mut state.eq, eq, eq_names.len());
    let fx: usize = find_named(fx_names, rs.effects_preset.as_str());
    with_index(&mut state.effects, fx, fx_names.len());
    match &rs.rg_mode {
        Some(n) => {
            state.rg_mode = if n.as_str().eq("album") {
                RgMode::Album
            } else if n.as_str().eq("off") {
                RgMode::Off
            } else {
                RgMode::Track
            };
        },
        None => {},
    }
    match &rs.crossfeed_preset {
        Some(n) => {
            let cf: usize = find_alike(cf_names, n.as_str());
            with_index(&mut state.crossfeed, cf, cf_names.len());
        },
        None => {},
    }
    match rs.balance {
        Some(b) => {
            state.balance = if b < -100 {
                -100
            } else if b > 100 {
                100
            } else {
                b
            };
        },
        None => {},
    }
    let bands: Option<Vec<BandSettings>> = resumed_bands(rs);
    match &bands {
        Some(v) => {
            state.eq_gains = gains_in(v);
            state.eq_custom = true;
        },
        None => {},
    }
    bands
}

fn gains_in(v: &Vec<BandSettings>) -> (g: [i32; EQ_BANDS])
    requires
        v@.len() == EQ_BANDS,
    ensures
        forall|i: int| 0 <= i < EQ_BANDS ==> #[trigger] g@[i] == v@[i].gain,
{
    let mut g: [i32; EQ_BANDS] = [0i32; EQ_BANDS];
    let mut i: usize = 0;
    while i < EQ_BANDS
        invariant
            i <= EQ_BANDS,
            v@.len() == EQ_BANDS,
            forall|k: int| 0 <= k < i ==> #[trigger] g@[k] == v@[k].gain,
        decreases EQ_BANDS - i,
    {
        g[i] = v[i].gain;
        i = i + 1;
    }
    g
}

/// The theme to start with: what is asked for, then what is preferred, then what
/// was kept, then the classic one.
pub fn launch_theme(asked: &Option<String>, preferred: Option<ThemeKind>, rs: &Option<ResumeState>) -> (r: ThemeKind)
    ensures
        r == theme::resolved(
            config::theme_named(path::opt_text(*asked)),
            preferred,
            match *rs {
                Some(k) => config::theme_named(path::opt_text(k.theme)),
                None => None,
            },
        ),
{
    let flag: Option<ThemeKind> = match asked {
        Some(s) => ThemeKind::from_str(s.as_str()),
        None => None,
    };
    let kept: Option<ThemeKind> = match rs {
        Some(k) => match &k.theme {
            Some(s) => ThemeKind::from_str(s.as_str()),
            None => None,
        },
        None => None,
    };
    resolve_theme(flag, preferred, kept)
}

/// The device to start with: the one asked for, then the one that was kept.
pub fn launch_device(asked: Option<String>, rs: &Option<ResumeState>) -> (r: Option<String>)
    ensures
        path::opt_text(r) == (match path::opt_text(asked) {
            Some(d) => Some(d),
            None => match *rs {
                Some(k) => path::opt_text(k.device),
                None => None,
            },
        }),
{
    match asked {
        Some(d) => Some(d),
        None => match rs {
            Some(k) => match &k.device {
                Some(d) => Some(d.clone()),
                None => None,
            },
            None => None,
        },
    }
}

/// Whether the device is to be had alone: asked for, or kept.
pub fn launch_exclusive(asked: bool, rs: &Option<ResumeState>) -> (r: bool)
    ensures
        r == (asked || (*rs matches Some(k) && k.exclusive == Some(true))),
{
    if asked {
        return true;
    }
    match rs {
        Some(k) => match k.exclusive {
            Some(e) => e,
            None => false,
        },
        None => false,
    }
}

/// The place of the track that was kept; `current` where it is not in the list.
pub fn resumed_track(playlist: &Vec<String>, rs: &ResumeState, current: usize) -> (r: usize)
    ensures
        ({
            let i = first_named(text::texts(playlist@), rs.track_path@, 0);
            r == (if i < playlist@.len() {
                i
            } else {
                current as int
            })
        }),
{
    let i: usize = find_named(playlist, rs.track_path.as_str());
    if i < playlist.len() {
        i
    } else {
        current
    }
}

/// A session is taken up as it was left: the order, the way it is repeated, the
/// track, the sound.
pub proof fn session_is_taken_up_as_it_was_left(
    rs: ResumeState,
    ui: UiState,
    paths: Seq<Seq<char>>,
    s: PlayerState,
    b: Setup,
    fresh: PlayerState,
    again: PlayerState,
    eq_names: Seq<Seq<char>>,
    fx_names: Seq<Seq<char>>,
    cf_names: Seq<Seq<char>>,
)
    requires
        is_kept(rs, ui, paths, s, b),
        is_resumed(again, fresh, rs, eq_names, fx_names, cf_names),
        s.eq.index < eq_names.len() && eq_names[s.eq.index as int] == b.eq_name@,
        s.effects.index < fx_names.len() && fx_names[s.effects.index as int] == b.fx_name@,
        forall|i: int| 0 <= i < s.eq.index ==> #[trigger] eq_names[i] != b.eq_name@,
        forall|i: int| 0 <= i < s.effects.index ==> #[trigger] fx_names[i] != b.fx_name@,
        -100 <= s.balance <= 100,
        b.bands@.len() == EQ_BANDS,
        forall|i: int|
            0 <= i < EQ_BANDS ==> (#[trigger] b.bands@[i]).gain == s.eq_gains@[i] && b.bands@[i].bounded() == b.bands@[i],
    ensures
        repeat_kept(rs) == ui.queue.repeat_mode,
        rs.shuffle == ui.queue.shuffle,
        again.volume == s.volume,
        again.eq.index == s.eq.index,
        again.effects.index == s.effects.index,
        again.balance == s.balance,
        again.rg_mode == s.rg_mode,
        s.eq_custom ==> again.eq_gains@ == s.eq_gains@,
        s.eq_custom ==> forall|i: int|
            0 <= i < EQ_BANDS ==> #[trigger] band_kept(rs, rs.eq_gains->0@, i) == b.bands@[i],
{
    reveal_strlit("one");
    reveal_strlit("all");
    reveal_strlit("off");
    reveal_strlit("track");
    reveal_strlit("album");
    assert("track"@.len() == 5 && "album"@.len() == 5 && "off"@.len() == 3);
    assert("track"@[0] == 't' && "album"@[0] == 'a');
    assert("one"@[0] == 'o' && "all"@[0] == 'a' && "off"@[0] == 'o');
    assert("one"@[1] == 'n' && "off"@[1] == 'f');
    lemma_first_named(eq_names, b.eq_name@, 0, s.eq.index as int);
    lemma_first_named(fx_names, b.fx_name@, 0, s.effects.index as int);
    assert forall|i: int| 0 <= i < EQ_BANDS implies #[trigger] band_kept(rs, rs.eq_gains->0@, i) == b.bands@[i] by {
        let t = rs.eq_types->0;
        let kinds = b.bands@.map_values(|x: BandSettings| x.kind.label());
        assert(text::texts(t@).len() == t@.len());
        assert(kinds.len() == b.bands@.len());
        assert(text::texts(t@)[i] == t@[i]@);
        assert(kinds[i] == b.bands@[i].kind.label());
        let f = rs.eq_freqs->0;
        assert(f@[i] == b.bands@.map_values(|x: BandSettings| x.freq)[i]);
        let q = rs.eq_qs->0;
        assert(q@[i] == b.bands@.map_values(|x: BandSettings| x.q)[i]);
        equalizer::band_type_reads_back(b.bands@[i].kind);
    }
    if s.eq_custom {
        assert forall|i: int| 0 <= i < EQ_BANDS implies again.eq_gains@[i] == s.eq_gains@[i] by {
            assert(band_kept(rs, rs.eq_gains->0@, i) == b.bands@[i]);
        }
        assert(again.eq_gains@ =~= s.eq_gains@);
    }
}

proof fn lemma_first_named(names: Seq<Seq<char>>, name: Seq<char>, i: int, k: int)
    requires
        0 <= i <= k < names.len(),
        names[k] == name,
        forall|j: int| i <= j < k ==> #[trigger] names[j] != name,
    ensures
        first_named(names, name, i) == k,
    decreases k - i,
{
    if i < k {
        lemma_first_named(names, name, i + 1, k);
    }
}

} // verus!
