//! What a listener can count on across tracks and sessions: what plays next, what is
//! kept, and whose wish counts where several are there.
use crate::audio::Platform;
use crate::config;
use crate::config::Config;
use crate::cover::CoverImage;
use crate::equalizer::{BandSettings, BandType};
use crate::launch;
use crate::launch::{Options, Start};
use crate::library::NameSet;
use crate::list_laws;
use crate::lyrics;
use crate::lyrics::Lyrics;
use crate::media_keys;
use crate::media_keys::MediaEvent;
use crate::path;
use crate::playlist;
use crate::resume;
use crate::resume::{ResumeState, Setup};
use crate::session;
use crate::session::{Found, LyricsSource, Moved};
use crate::state;
use crate::state::{PlayerState, Preset, RepeatMode, RgMode, VizMode, VizStyle, EQ_BANDS};
use crate::text;
use crate::theme;
use crate::theme::ThemeKind;
use crate::ui_state;
use crate::ui_state::UiState;
use vstd::prelude::*;

verus! {

/// The keys of the system do what they are called.
pub proof fn media_keys_do_what_they_are_called(s: &mut PlayerState, e: MediaEvent)
    requires
        call_ensures(media_keys::handle, (s, e), ()),
    ensures
        e is Play ==> !final(s).transport.paused,
        e is Pause ==> final(s).transport.paused,
        e is Toggle ==> final(s).transport.paused == !old(s).transport.paused,
        e is Next ==> final(s).transport.skip_next && final(s).transport.skip_prev == old(s).transport.skip_prev,
        e is Previous ==> final(s).transport.skip_prev && final(s).transport.skip_next == old(s).transport.skip_next,
        e is Stop ==> final(s).transport.quit,
        e is Other ==> *final(s) == *old(s),
        e !is Stop ==> final(s).transport.quit == old(s).transport.quit,
        e !is Next && e !is Previous ==> final(s).transport.skip_next == old(s).transport.skip_next
            && final(s).transport.skip_prev == old(s).transport.skip_prev,
        e is Next || e is Previous || e is Stop ==> final(s).transport.paused == old(s).transport.paused,
        final(s).volume == old(s).volume && final(s).transport.seek_request == old(s).transport.seek_request
            && final(s).transport.jump_to_track == old(s).transport.jump_to_track,
{
}

/// At the end of the list playing ends where nothing is repeated; else it starts
/// again at the first track. Before the end nothing happens.
pub proof fn the_list_starts_again_where_it_is_repeated(
    s: &mut PlayerState,
    ui: &mut UiState,
    list: &mut Vec<String>,
    keys: Vec<String>,
    seed: u64,
    more: bool,
)
    requires
        call_ensures(session::next_cycle, (s, ui, list, &Found::Files { keys }, seed), more),
        keys@.len() == old(list)@.len(),
    ensures
        old(ui).queue.current < old(list)@.len() ==> more && *final(ui) == *old(ui) && final(list)@ == old(list)@,
        old(ui).queue.current >= old(list)@.len() && old(ui).queue.repeat_mode is Off ==> !more && final(list)@
            == old(list)@,
        old(ui).queue.current >= old(list)@.len() && old(ui).queue.repeat_mode !is Off && more
            ==> final(ui).queue.current == 0,
        more ==> final(ui).queue.current < final(list)@.len(),
{
    assert(text::texts(final(list)@).len() == final(list)@.len());
}

/// A jump leads where it was asked to, and going back one track back, to the first
/// at most; a jump comes ahead of that.
pub proof fn the_listener_is_followed(s: &mut PlayerState, ui: &mut UiState)
    requires
        call_ensures(session::go_where_asked, (s, ui), ()),
    ensures
        old(s).transport.jump_to_track matches Some(i) ==> final(ui).queue.current == i,
        old(s).transport.jump_to_track is None && old(s).transport.skip_prev && old(ui).queue.current > 0
            ==> final(ui).queue.current == old(ui).queue.current - 1,
        old(s).transport.jump_to_track is None && old(s).transport.skip_prev && old(ui).queue.current == 0
            ==> final(ui).queue.current == 0,
        final(s).transport.jump_to_track is None,
        old(s).transport.jump_to_track is None ==> !final(s).transport.skip_prev,
        final(ui).queue.enqueue_count == 0,
        final(s).transport.skip_next == old(s).transport.skip_next,
{
}

/// Going back and jumping need another decoder; nothing else does.
pub proof fn who_needs_another_decoder(s: PlayerState, r: bool)
    requires
        call_ensures(session::must_respawn, (&s,), r),
    ensures
        s.transport.skip_prev ==> r,
        s.transport.jump_to_track is Some ==> r,
        r ==> s.transport.skip_prev || s.transport.jump_to_track is Some,
{
}

/// When the decoder goes on to a track, that is the one that plays. Where the list
/// has changed meanwhile, the decoder is asked to jump behind the track that played,
/// or to what took its place where it was removed.
pub proof fn the_decoder_is_followed(s: &mut PlayerState, ui: &mut UiState, n: usize, r: Moved)
    requires
        call_ensures(session::follow_decoder, (s, ui, n), r),
        old(ui).queue.current < n,
    ensures
        r is On ==> final(ui).queue.current == old(s).producer.producer_track_index && final(ui).queue.current < n
            && final(s).track.current_track == final(ui).queue.current && final(ui).queue.enqueue_count == 0,
        r is On && old(ui).view_mode is Playlist && old(ui).list.filtered_indices@.len() == 0 ==> final(ui).list.cursor
            == final(ui).queue.current,
        r is On ==> final(ui).lyrics.auto_scroll && final(ui).lyrics.scroll == 0,
        r is Jump && !old(ui).queue.current_track_removed && old(ui).queue.current + 1 < n
            ==> final(s).transport.jump_to_track == Some((old(ui).queue.current + 1) as usize),
        r is Jump && old(ui).queue.current_track_removed ==> final(s).transport.jump_to_track == Some(
            old(ui).queue.current,
        ),
        r is Jump ==> !final(ui).queue.dirty && !final(ui).queue.current_track_removed,
        r is Jump <==> old(ui).queue.dirty,
        r is On <==> !old(ui).queue.dirty && old(s).producer.producer_track_index < n,
        r is Nowhere ==> final(ui).queue == old(ui).queue && final(s).transport == old(s).transport,
        old(s).producer.decode_error matches Some(m) ==> ui_state::told(
            final(ui).status_message,
            "Skip: "@ + m@,
            old(ui).now,
        ),
        final(s).producer.decode_error is None,
{
}

/// A track that cannot be opened is passed over: the next comes, and the listener is
/// told why.
pub proof fn broken_tracks_are_passed_over(s: &mut PlayerState, ui: &mut UiState)
    requires
        call_ensures(session::pass_over, (s, ui), ()),
        old(ui).queue.current < usize::MAX,
    ensures
        final(ui).queue.current == old(ui).queue.current + 1,
        old(s).producer.decode_error matches Some(m) ==> ui_state::told(
            final(ui).status_message,
            "Skip: "@ + m@,
            old(ui).now,
        ),
        final(s).producer.decode_error is None,
        final(s).transport == old(s).transport,
{
}

/// A new track starts with nothing of the last one asked for, heard or broken.
pub proof fn a_track_begins_afresh(s: &mut PlayerState, current: usize)
    requires
        call_ensures(session::begin_track, (s, current), ()),
    ensures
        final(s).track.current_track == current,
        !final(s).transport.skip_next && !final(s).transport.skip_prev,
        !final(s).producer.producer_done && !final(s).producer.track_info_ready && final(s).producer.buffer_level == 0
            && final(s).producer.decode_error is None,
        final(s).transport.paused == old(s).transport.paused && final(s).transport.quit == old(s).transport.quit
            && final(s).transport.seek_request == old(s).transport.seek_request,
        final(s).volume == old(s).volume,
{
}

/// What is waited for when a track starts, and when it has been heard.
pub proof fn a_track_is_waited_for(
    s: PlayerState,
    rate: u32,
    opening: bool,
    filling: bool,
    failed: bool,
    heard: bool,
    drain: bool,
)
    requires
        call_ensures(session::still_opening, (&s,), opening),
        call_ensures(session::still_filling, (&s, rate), filling),
        call_ensures(session::failed_to_open, (&s,), failed),
        call_ensures(session::all_heard, (&s,), heard),
        call_ensures(session::must_drain, (&s,), drain),
    ensures
        s.transport.quit ==> !opening && !filling && !drain,
        s.producer.producer_done ==> !opening && !filling,
        s.producer.track_info_ready ==> !opening && !failed,
        failed ==> s.producer.producer_done,
        s.producer.producer_done && !s.producer.track_info_ready ==> failed,
        !s.transport.quit && !s.producer.producer_done && !s.producer.track_info_ready ==> opening,
        heard <==> s.producer.producer_done && s.producer.buffer_level == 0,
        filling ==> s.producer.buffer_level < 2 * rate,
        !s.transport.quit && !s.producer.producer_done && s.producer.buffer_level < 2 * rate ==> filling,
        !s.transport.quit && s.producer.buffer_level > 0 ==> drain,
        !s.transport.quit && s.transport.paused ==> drain,
        !s.transport.paused && s.producer.buffer_level == 0 ==> !drain,
{
}

/// Lyrics in the file come ahead of the service, which is asked only for a track
/// with artist and title, and only while that track plays.
pub proof fn lyrics_come_from_the_file_first(
    embedded: Option<String>,
    artist: Option<String>,
    title: Option<String>,
    generation: u64,
    latest: u64,
    r: LyricsSource,
)
    requires
        call_ensures(session::lyrics_source, (embedded, artist, title, generation, latest), r),
    ensures
        embedded matches Some(t) ==> r == LyricsSource::File(t),
        r is File ==> embedded is Some,
        r is Service ==> generation == latest && embedded is None,
        r matches LyricsSource::Service(a, t) ==> artist == Some(a) && title == Some(t),
        embedded is None && artist is Some && title is Some && generation == latest ==> r is Service,
{
}

/// A cover is asked for by artist and album, while the track that needs it plays.
pub proof fn covers_are_asked_for_by_album(
    artist: Option<String>,
    album: Option<String>,
    generation: u64,
    latest: u64,
    r: Option<(String, String)>,
)
    requires
        call_ensures(session::cover_query, (artist, album, generation, latest), r),
    ensures
        r matches Some((a, b)) ==> artist == Some(a) && album == Some(b) && generation == latest,
        artist is Some && album is Some && generation == latest ==> r is Some,
{
}

/// The device is asked for the next track's rate, as far as it goes.
pub proof fn rates_stay_within_the_device(s: PlayerState, max: u32, r: u32)
    requires
        call_ensures(session::rate_wanted, (&s, max), r),
    ensures
        r <= max && r <= s.device.next_track_rate,
        r == max || r == s.device.next_track_rate,
{
}

/// The system's controls are told at once when playing stops or goes on, and every
/// second else.
pub proof fn controls_are_told_in_time(paused: bool, last: bool, elapsed: u64, r: bool)
    requires
        call_ensures(session::playback_due, (paused, last, elapsed), r),
    ensures
        paused != last ==> r,
        elapsed >= 1000 ==> r,
        paused == last && elapsed < 1000 ==> !r,
{
}

/// What was asked for counts ahead of what is preferred, and that ahead of what was
/// kept; without any of them the theme is the classic one.
pub proof fn themes_are_asked_for_first(
    asked: Option<ThemeKind>,
    preferred: Option<ThemeKind>,
    kept: Option<ThemeKind>,
    r: ThemeKind,
)
    requires
        call_ensures(theme::resolve_theme, (asked, preferred, kept), r),
    ensures
        asked matches Some(t) ==> r == t,
        asked is None ==> (preferred matches Some(t) ==> r == t),
        asked is None && preferred is None ==> (kept matches Some(t) ==> r == t),
        asked is None && preferred is None && kept is None ==> r is Classic,
{
}

/// A device that was asked for counts ahead of the one that was kept.
pub proof fn devices_are_asked_for_first(asked: Option<String>, rs: Option<ResumeState>, r: Option<String>)
    requires
        call_ensures(resume::launch_device, (asked, &rs), r),
    ensures
        asked matches Some(d) ==> r is Some && r->0@ == d@,
        asked is None ==> (rs matches Some(k) ==> path::opt_text(r) == path::opt_text(k.device)),
        asked is None && rs is None ==> r is None,
{
}

/// The device is taken alone where that was asked for, or was so last time.
pub proof fn exclusive_mode_is_kept(asked: bool, rs: Option<ResumeState>, r: bool)
    requires
        call_ensures(resume::launch_exclusive, (asked, &rs), r),
    ensures
        asked ==> r,
        rs matches Some(k) ==> (k.exclusive == Some(true) ==> r),
        !asked && rs is None ==> !r,
        !asked ==> (rs matches Some(k) ==> (k.exclusive != Some(true) ==> !r)),
{
}

proof fn lemma_first_named(names: Seq<Seq<char>>, name: Seq<char>, i: int, k: int)
    requires
        0 <= i <= k <= names.len(),
        k < names.len() ==> names[k] == name,
        forall|m: int| i <= m < k ==> #[trigger] names[m] != name,
    ensures
        resume::first_named(names, name, i) == k,
    decreases k - i,
{
    if i < k {
        assert(names[i] != name);
        lemma_first_named(names, name, i + 1, k);
    }
}

/// A session goes on with the track it was left at, wherever that is now; where it is
/// gone, with the one at the place that was given.
pub proof fn a_session_goes_on_with_its_track(list: Vec<String>, rs: ResumeState, current: usize, r: usize, k: int)
    requires
        call_ensures(resume::resumed_track, (&list, &rs, current), r),
        0 <= k <= list@.len(),
        k < list@.len() ==> list@[k]@ == rs.track_path@,
        forall|m: int| 0 <= m < k ==> (#[trigger] list@[m])@ != rs.track_path@,
    ensures
        k < list@.len() ==> r == k,
        k == list@.len() ==> r == current,
{
    let t = text::texts(list@);
    assert forall|m: int| 0 <= m < k implies #[trigger] t[m] != rs.track_path@ by {
        assert(t[m] == list@[m]@);
    }
    if k < list@.len() {
        assert(t[k] == list@[k]@);
    }
    lemma_first_named(t, rs.track_path@, 0, k);
}

/// A session goes on at the second it was left at; from the start where that is half
/// a second or less in.
pub proof fn a_session_goes_on_at_its_second(rs: ResumeState, r: Option<i64>, n: int)
    requires
        call_ensures(resume::resumed_seek, (&rs,), r),
        0 <= n < 1_000_000_000_000,
        n * 1_000_000_000 - 500_000_000 <= rs.position < n * 1_000_000_000 + 500_000_000,
    ensures
        n > 0 ==> r == Some(n as i64),
        n == 0 ==> r is None,
{
}

/// How the list is repeated is kept from session to session.
pub proof fn repeating_is_kept(
    ui: UiState,
    list: Vec<String>,
    s: PlayerState,
    b: Setup,
    rs: ResumeState,
    r: RepeatMode,
)
    requires
        call_ensures(resume::build_resume_state, (&ui, &list, &s, &b), rs),
        call_ensures(resume::resumed_repeat, (&rs,), r),
    ensures
        r == ui.queue.repeat_mode,
{
    reveal_strlit("off");
    reveal_strlit("all");
    reveal_strlit("one");
    assert("off"@[1] == 'f' && "all"@[1] == 'l' && "one"@[1] == 'n');
}

/// What is kept of a session: the sources, the track that plays and where in it, and
/// every setting.
pub proof fn a_session_is_kept(ui: UiState, list: Vec<String>, s: PlayerState, b: Setup, rs: ResumeState)
    requires
        call_ensures(resume::build_resume_state, (&ui, &list, &s, &b), rs),
        ui.queue.current < list@.len(),
    ensures
        rs.track_path@ == list@[ui.queue.current as int]@,
        text::texts(rs.source_paths@) == text::texts(ui.queue.source_paths@),
        rs.shuffle == ui.queue.shuffle,
        rs.volume == s.volume,
        rs.balance == Some(s.balance),
        rs.exclusive == Some(s.device.exclusive),
        rs.eq_preset@ == b.eq_name@ && rs.effects_preset@ == b.fx_name@,
        rs.crossfeed_preset is Some && rs.crossfeed_preset->0@ == b.cf_name@,
        s.rg_mode is Album ==> rs.rg_mode is Some && rs.rg_mode->0@ == "album"@,
        s.rg_mode is Off ==> rs.rg_mode is Some && rs.rg_mode->0@ == "off"@,
        s.rg_mode is Track ==> rs.rg_mode is Some && rs.rg_mode->0@ == "track"@,
        s.look.theme is Minimal ==> rs.theme is Some && rs.theme->0@ == "minimal"@,
        s.look.theme is HiFi ==> rs.theme is Some && rs.theme->0@ == "hifi"@,
        s.look.theme is Classic ==> rs.theme is Some && rs.theme->0@ == "classic"@,
{
    assert(text::texts(list@)[ui.queue.current as int] == list@[ui.queue.current as int]@);
}

/// The loudness mode is kept from session to session.
pub proof fn loudness_mode_is_kept(
    ui: UiState,
    list: Vec<String>,
    s: PlayerState,
    b: Setup,
    rs: ResumeState,
    again: &mut PlayerState,
    eq: Vec<String>,
    fx: Vec<String>,
    cf: Vec<String>,
    bands: Option<Vec<BandSettings>>,
)
    requires
        call_ensures(resume::build_resume_state, (&ui, &list, &s, &b), rs),
        call_ensures(resume::resume, (again, &rs, &eq, &fx, &cf), bands),
    ensures
        final(again).rg_mode == s.rg_mode,
        final(again).volume == s.volume,
        -100 <= s.balance <= 100 ==> final(again).balance == s.balance,
        bands is Some <==> s.eq_custom,
        s.eq_custom ==> final(again).eq_custom,
        final(again).transport == old(again).transport,
{
    reveal_strlit("off");
    reveal_strlit("album");
    reveal_strlit("track");
    assert("off"@[0] == 'o' && "album"@[0] == 'a' && "track"@[0] == 't');
}

/// Settings of a file are taken where nothing was asked for at the start, and only
/// those that are known; what the file does not speak of stays.
pub proof fn settings_are_taken_from_the_file(
    s: &mut PlayerState,
    c: Config,
    rg_given: bool,
    eq_given: bool,
    eq: Vec<String>,
    cf: Vec<String>,
)
    requires
        call_ensures(config::apply_config, (s, &c, rg_given, eq_given, &eq, &cf), ()),
    ensures
        c.viz is None ==> final(s).look.viz_mode == old(s).look.viz_mode,
        c.rg_mode is None || rg_given ==> final(s).rg_mode == old(s).rg_mode,
        c.eq is None || eq_given ==> final(s).eq == old(s).eq && final(s).eq_custom == old(s).eq_custom,
        c.crossfeed is None ==> final(s).crossfeed == old(s).crossfeed,
        final(s).volume == old(s).volume && final(s).transport == old(s).transport && final(s).balance
            == old(s).balance,
        !rg_given && c.rg_mode is Some && list_laws::alike(c.rg_mode->0@, "album"@) ==> final(s).rg_mode is Album,
        !rg_given && c.rg_mode is Some && list_laws::alike(c.rg_mode->0@, "off"@) ==> final(s).rg_mode is Off,
        !rg_given && c.rg_mode is Some && list_laws::alike(c.rg_mode->0@, "track"@) ==> final(s).rg_mode is Track,
        c.viz is Some && list_laws::alike(c.viz->0@, "vu"@) ==> final(s).look.viz_mode is VuMeter,
        c.viz is Some && list_laws::alike(c.viz->0@, "off"@) ==> final(s).look.viz_mode is Off,
{
    if c.rg_mode is Some {
        lemma_mode_words(c.rg_mode->0@);
    }
    if c.viz is Some {
        lemma_viz_words(c.viz->0@);
    }
}

proof fn lemma_mode_words(s: Seq<char>)
    ensures
        list_laws::alike(s, "album"@) ==> RgMode::of_name(s) == Some(RgMode::Album),
        list_laws::alike(s, "off"@) ==> RgMode::of_name(s) == Some(RgMode::Off),
        list_laws::alike(s, "track"@) ==> RgMode::of_name(s) == Some(RgMode::Track),
{
    reveal_strlit("off");
    reveal_strlit("album");
    reveal_strlit("track");
    assert("off"@[0] == 'o' && "album"@[0] == 'a' && "track"@[0] == 't');
    if list_laws::alike(s, "album"@) {
        list_laws::lemma_alike(s, "album"@);
    }
    if list_laws::alike(s, "off"@) {
        list_laws::lemma_alike(s, "off"@);
    }
    if list_laws::alike(s, "track"@) {
        list_laws::lemma_alike(s, "track"@);
    }
}

proof fn lemma_viz_words(s: Seq<char>)
    ensures
        list_laws::alike(s, "vu"@) ==> VizMode::of_name(s) == Some(VizMode::VuMeter),
        list_laws::alike(s, "off"@) ==> VizMode::of_name(s) == Some(VizMode::Off),
{
    reveal_strlit("off");
    reveal_strlit("vu");
    reveal_strlit("none");
    assert("off"@[0] == 'o' && "vu"@[0] == 'v' && "none"@[0] == 'n');
    if list_laws::alike(s, "vu"@) {
        list_laws::lemma_alike(s, "vu"@);
    }
    if list_laws::alike(s, "off"@) {
        list_laws::lemma_alike(s, "off"@);
    }
}

proof fn lemma_first_of(args: Seq<Seq<char>>, a: Seq<char>, b: Seq<char>, i: int, k: int)
    requires
        0 <= i <= k <= args.len(),
        k < args.len() ==> args[k] == a || args[k] == b,
        forall|m: int| i <= m < k ==> #[trigger] args[m] != a && args[m] != b,
    ensures
        launch::first_of(args, a, b, i) == k,
    decreases k - i,
{
    if i < k {
        assert(args[i] != a && args[i] != b);
        lemma_first_of(args, a, b, i + 1, k);
    }
}

/// A flag is there where one of its two forms is among the arguments.
pub proof fn flags_are_found(args: Vec<String>, a: &str, b: &str, r: bool, k: int)
    requires
        call_ensures(launch::has_flag, (&args, a, b), r),
    ensures
        0 <= k < args@.len() && (args@[k]@ == a@ || args@[k]@ == b@) ==> r,
        r ==> exists|i: int| 0 <= i < args@.len() && ((#[trigger] args@[i])@ == a@ || args@[i]@ == b@),
{
    let t = text::texts(args@);
    if 0 <= k < args@.len() {
        assert(t[k] == args@[k]@);
    }
    if r {
        let i = choose|i: int| 0 <= i < t.len() && (#[trigger] t[i] == a@ || t[i] == b@);
        assert(t[i] == args@[i]@);
    }
}

/// The value of a flag is the argument behind it; of two such flags the first counts.
pub proof fn values_stand_behind_their_flags(args: Vec<String>, a: &str, b: &str, r: Option<String>, k: int)
    requires
        call_ensures(launch::flag_value, (&args, a, b), r),
        0 <= k <= args@.len(),
        k < args@.len() ==> args@[k]@ == a@ || args@[k]@ == b@,
        forall|m: int| 0 <= m < k ==> (#[trigger] args@[m])@ != a@ && args@[m]@ != b@,
    ensures
        k + 1 < args@.len() ==> r is Some && r->0@ == args@[k + 1]@,
        k + 1 >= args@.len() ==> r is None,
{
    let t = text::texts(args@);
    assert forall|m: int| 0 <= m < k implies #[trigger] t[m] != a@ && t[m] != b@ by {
        assert(t[m] == args@[m]@);
    }
    if k < args@.len() {
        assert(t[k] == args@[k]@);
    }
    lemma_first_of(t, a@, b@, 0, k);
    if k + 1 < args@.len() {
        assert(t[k + 1] == args@[k + 1]@);
    }
}

/// Help comes ahead of everything, the list of devices ahead of playing; without an
/// argument the last session goes on.
pub proof fn help_comes_first(args: Vec<String>, r: Start, k: int)
    requires
        call_ensures(launch::start, (&args,), r),
    ensures
        0 <= k < args@.len() && (args@[k]@ == "--help"@ || args@[k]@ == "-h"@) ==> r is Help,
        r is Help ==> exists|i: int|
            0 <= i < args@.len() && ((#[trigger] args@[i])@ == "--help"@ || args@[i]@ == "-h"@),
        0 <= k < args@.len() && args@[k]@ == "--list-devices"@ ==> r is Help || r is Devices,
        args@.len() == 0 ==> r is Resume,
        r is Resume ==> args@.len() < 2,
{
    let t = text::texts(args@);
    assert(t.len() == args@.len());
    if 0 <= k < args@.len() {
        assert(t[k] == args@[k]@);
    }
    if r is Help {
        let i = choose|i: int| 0 <= i < t.len() && (#[trigger] t[i] == "--help"@ || t[i] == "-h"@);
        assert(t[i] == args@[i]@);
    }
}

/// The names of a theme are known however they are written.
pub proof fn theme_names_are_known_in_any_case(s: &str, r: Option<ThemeKind>)
    requires
        call_ensures(ThemeKind::from_str, (s,), r),
    ensures
        list_laws::alike(s@, "classic"@) ==> r == Some(ThemeKind::Classic),
        list_laws::alike(s@, "minimal"@) || list_laws::alike(s@, "min"@) ==> r == Some(ThemeKind::Minimal),
        list_laws::alike(s@, "hifi"@) || list_laws::alike(s@, "retro"@) ==> r == Some(ThemeKind::HiFi),
{
    reveal_strlit("classic");
    reveal_strlit("minimal");
    reveal_strlit("min");
    reveal_strlit("hifi");
    reveal_strlit("retro");
    assert("classic"@[0] == 'c' && "minimal"@[0] == 'm' && "min"@[0] == 'm' && "hifi"@[0] == 'h' && "retro"@[0] == 'r');
    if list_laws::alike(s@, "classic"@) {
        list_laws::lemma_alike(s@, "classic"@);
    }
    if list_laws::alike(s@, "minimal"@) {
        list_laws::lemma_alike(s@, "minimal"@);
    }
    if list_laws::alike(s@, "min"@) {
        list_laws::lemma_alike(s@, "min"@);
    }
    if list_laws::alike(s@, "hifi"@) {
        list_laws::lemma_alike(s@, "hifi"@);
    }
    if list_laws::alike(s@, "retro"@) {
        list_laws::lemma_alike(s@, "retro"@);
    }
}

/// The numbers that modes are stored as: an unknown one is the usual mode.
pub proof fn stored_numbers_are_known(n: u8, rep: RepeatMode, viz: VizMode, style: VizStyle, rg: RgMode, t: ThemeKind)
    requires
        call_ensures(RepeatMode::from_u8, (n,), rep),
        call_ensures(VizMode::from_u8, (n,), viz),
        call_ensures(VizStyle::from_u8, (n,), style),
        call_ensures(RgMode::from_u8, (n,), rg),
        call_ensures(ThemeKind::from_u8, (n,), t),
    ensures
        n == 1 ==> rep is All && viz is VuMeter && style is Dots && rg is Album && t is Minimal,
        n == 2 ==> rep is One && viz is SpectrumHorizontal && rg is Off && t is HiFi,
        n == 3 ==> viz is SpectrumVertical,
        n == 4 ==> viz is Oscilloscope,
        n == 5 ==> viz is Lissajous,
        n == 6 ==> viz is Spectrogram,
        n == 7 ==> viz is SpectrogramAnalysis,
        n == 0 || n > 2 ==> rep is Off && rg is Track && t is Classic,
        n == 0 || n > 7 ==> viz is Off,
        n != 1 ==> style is Bars,
{
}

/// A preset is found by its whole name; where none has it nothing is changed.
pub proof fn presets_are_found_by_name(names: Vec<String>, name: &str, r: usize, k: int)
    requires
        call_ensures(resume::find_named, (&names, name), r),
        0 <= k < names@.len(),
        names@[k]@ == name@,
        forall|m: int| 0 <= m < k ==> (#[trigger] names@[m])@ != name@,
    ensures
        r == k,
{
    let t = text::texts(names@);
    assert forall|m: int| 0 <= m < k implies #[trigger] t[m] != name@ by {
        assert(t[m] == names@[m]@);
    }
    assert(t[k] == names@[k]@);
    lemma_first_named(t, name@, 0, k);
}

/// A preset that is asked for is taken by its name in any case; a file of that name
/// is taken behind the others, where no preset has it.
pub proof fn asked_presets_are_chosen(
    p: &mut Preset,
    names: Vec<String>,
    asked: &str,
    in_file: bool,
    taken: bool,
    k: int,
)
    requires
        names@.len() < usize::MAX,
        call_ensures(resume::choose_preset, (p, &names, asked, in_file), taken),
        0 <= k <= names@.len(),
        k < names@.len() ==> text::lowered(names@[k]@) == text::lowered(asked@),
        forall|m: int| 0 <= m < k ==> text::lowered((#[trigger] names@[m])@) != text::lowered(asked@),
    ensures
        k < names@.len() ==> final(p).index == k && !taken,
        k == names@.len() && in_file ==> final(p).index == names@.len() && final(p).count == names@.len() + 1 && taken,
        k == names@.len() && !in_file ==> *final(p) == *old(p) && !taken,
{
    let t = text::texts(names@);
    assert forall|m: int| 0 <= m < k implies text::lowered(#[trigger] t[m]) != text::lowered(asked@) by {
        assert(t[m] == names@[m]@);
    }
    if k < names@.len() {
        assert(t[k] == names@[k]@);
    }
    lemma_first_alike(t, asked@, 0, k);
}

proof fn lemma_first_alike(names: Seq<Seq<char>>, name: Seq<char>, i: int, k: int)
    requires
        0 <= i <= k <= names.len(),
        k < names.len() ==> text::lowered(names[k]) == text::lowered(name),
        forall|m: int| i <= m < k ==> text::lowered(#[trigger] names[m]) != text::lowered(name),
    ensures
        resume::first_alike(names, name, i) == k,
    decreases k - i,
{
    if i < k {
        assert(text::lowered(names[i]) != text::lowered(name));
        lemma_first_alike(names, name, i + 1, k);
    }
}

/// Each option is switched by its own flags.
pub proof fn options_follow_their_flags(
    args: Vec<String>,
    o: Options,
    shuffle: bool,
    repeat: bool,
    hq: bool,
    rg: bool,
    exclusive: bool,
    bare: bool,
)
    requires
        call_ensures(launch::options, (&args,), o),
        call_ensures(launch::has_flag, (&args, "--shuffle", "-s"), shuffle),
        call_ensures(launch::has_flag, (&args, "--repeat", "-r"), repeat),
        call_ensures(launch::has_flag, (&args, "--quality", "-q"), hq),
        call_ensures(launch::has_flag, (&args, "--rg-mode", "--rg-mode"), rg),
        call_ensures(launch::has_flag, (&args, "--exclusive", "--exclusive"), exclusive),
        call_ensures(launch::has_flag, (&args, "--no-cover", "--no-cover"), bare),
    ensures
        o.shuffle == shuffle,
        o.repeat == repeat,
        o.hq == hq,
        o.rg_given == rg,
        o.exclusive == exclusive,
        o.cover == !bare,
{
}

/// Each value is that of its own flag; a crossfade that is no number is none, and a
/// loudness mode is known in any case.
pub proof fn values_follow_their_flags(
    args: Vec<String>,
    o: Options,
    eq: Option<String>,
    fx: Option<String>,
    fade: Option<String>,
    rg: Option<String>,
    device: Option<String>,
    theme: Option<String>,
    secs: &str,
    n: Option<u32>,
)
    requires
        call_ensures(launch::options, (&args,), o),
        call_ensures(launch::flag_value, (&args, "--eq", "-e"), eq),
        call_ensures(launch::flag_value, (&args, "--fx", "--fx"), fx),
        call_ensures(launch::flag_value, (&args, "--crossfade", "-x"), fade),
        call_ensures(launch::flag_value, (&args, "--rg-mode", "--rg-mode"), rg),
        call_ensures(launch::flag_value, (&args, "--device", "--device"), device),
        call_ensures(launch::flag_value, (&args, "--theme", "--theme"), theme),
        call_ensures(text::parse_u32, (secs,), n),
        fade is Some ==> secs@ == fade->0@,
    ensures
        path::opt_text(o.eq) == path::opt_text(eq),
        path::opt_text(o.fx) == path::opt_text(fx),
        path::opt_text(o.device) == path::opt_text(device),
        path::opt_text(o.theme) == path::opt_text(theme),
        fade is None ==> o.crossfade_secs == 0,
        fade is Some && n is Some ==> o.crossfade_secs == n->0,
        fade is Some && n is None ==> o.crossfade_secs == 0,
        rg is None ==> o.rg_mode is Track,
        rg is Some && list_laws::alike(rg->0@, "album"@) ==> o.rg_mode is Album,
        rg is Some && list_laws::alike(rg->0@, "off"@) ==> o.rg_mode is Off,
        rg is Some && list_laws::alike(rg->0@, "track"@) ==> o.rg_mode is Track,
{
    reveal_strlit("off");
    reveal_strlit("album");
    reveal_strlit("track");
    assert("off"@[0] == 'o' && "album"@[0] == 'a' && "track"@[0] == 't');
    if rg is Some {
        let s = rg->0@;
        if list_laws::alike(s, "album"@) {
            list_laws::lemma_alike(s, "album"@);
        }
        if list_laws::alike(s, "off"@) {
            list_laws::lemma_alike(s, "off"@);
        }
        if list_laws::alike(s, "track"@) {
            list_laws::lemma_alike(s, "track"@);
        }
    }
}

/// Whether an argument is no option: it does not begin with a dash.
pub open spec fn is_plain(a: Seq<char>) -> bool {
    a.len() > 0 && a[0] != '-'
}

proof fn lemma_plain(a: Seq<char>)
    requires
        is_plain(a),
    ensures
        !launch::is_any_option(a),
{
    reveal_strlit("--");
    reveal_strlit("--eq");
    reveal_strlit("-e");
    reveal_strlit("--fx");
    reveal_strlit("--crossfade");
    reveal_strlit("-x");
    reveal_strlit("--rg-mode");
    reveal_strlit("--device");
    reveal_strlit("--theme");
    reveal_strlit("--shuffle");
    reveal_strlit("-s");
    reveal_strlit("--repeat");
    reveal_strlit("-r");
    reveal_strlit("--quality");
    reveal_strlit("-q");
    reveal_strlit("--list-devices");
    reveal_strlit("--exclusive");
    reveal_strlit("--no-cover");
    reveal_strlit("--help");
    reveal_strlit("-h");
    if text::opens_with(a, "--"@) {
        assert(a.take(2)[0] == a[0]);
    }
}

proof fn lemma_sources_of_plain(args: Seq<Seq<char>>, i: int, k: int, found: Seq<Seq<char>>)
    requires
        0 <= i <= k <= args.len(),
        forall|m: int| i <= m < k ==> is_plain(#[trigger] args[m]),
    ensures
        launch::sources(args, i, found) == launch::sources(args, k, found + args.subrange(i, k)),
    decreases k - i,
{
    if i < k {
        lemma_plain(args[i]);
        lemma_sources_of_plain(args, i + 1, k, found.push(args[i]));
        assert(found.push(args[i]) + args.subrange(i + 1, k) =~= found + args.subrange(i, k));
    } else {
        assert(found + args.subrange(i, k) =~= found);
    }
}

/// Arguments that are no options are what is played, in their order.
pub proof fn sources_are_played_in_their_order(args: Vec<String>, r: Start)
    requires
        call_ensures(launch::start, (&args,), r),
        args@.len() >= 2,
        forall|m: int| 0 <= m < args@.len() ==> is_plain((#[trigger] args@[m])@),
    ensures
        r matches Start::Play(v) && v@.len() == args@.len() - 1 && forall|i: int|
            0 <= i < v@.len() ==> (#[trigger] v@[i])@ == args@[i + 1]@,
{
    let t = text::texts(args@);
    assert(t.len() == args@.len());
    assert forall|m: int| 0 <= m < t.len() implies is_plain(#[trigger] t[m]) by {
        assert(t[m] == args@[m]@);
    }
    lemma_no_flag(t, "--help"@, "-h"@);
    lemma_no_flag(t, "--list-devices"@, "--list-devices"@);
    lemma_sources_of_plain(t, 1, t.len() as int, Seq::empty());
    match r {
        Start::Play(v) => {
            let w = text::texts(v@);
            assert(w =~= t.subrange(1, t.len() as int));
            assert(w.len() == v@.len());
            assert forall|i: int| 0 <= i < v@.len() implies (#[trigger] v@[i])@ == args@[i + 1]@ by {
                assert(w[i] == v@[i]@);
                assert(t[i + 1] == args@[i + 1]@);
            }
        },
        _ => {},
    }
}

proof fn lemma_no_flag(t: Seq<Seq<char>>, a: Seq<char>, b: Seq<char>)
    requires
        forall|m: int| 0 <= m < t.len() ==> is_plain(#[trigger] t[m]),
        a.len() > 0 && a[0] == '-' || a == "--help"@ || a == "--list-devices"@,
        b.len() > 0 && b[0] == '-' || b == "-h"@ || b == "--list-devices"@,
    ensures
        !launch::has_any(t, a, b),
{
    reveal_strlit("--help");
    reveal_strlit("-h");
    reveal_strlit("--list-devices");
}

/// An option that stands alone is no source and hides none; one with a value takes
/// that along. What looks like an option and is none ends it all.
pub proof fn options_are_no_sources(args: Vec<String>, r: Start, k: int)
    requires
        call_ensures(launch::start, (&args,), r),
        args@.len() >= 2,
        1 <= k < args@.len(),
        forall|m: int| 0 <= m < args@.len() && m != k ==> is_plain((#[trigger] args@[m])@),
    ensures
        args@[k]@ == "--shuffle"@ || args@[k]@ == "-s"@ || args@[k]@ == "--repeat"@ || args@[k]@ == "-r"@ || args@[k]@
            == "--quality"@ || args@[k]@ == "-q"@ || args@[k]@ == "--exclusive"@ || args@[k]@ == "--no-cover"@ ==> (
        match r {
            Start::Play(v) => text::texts(v@) == text::texts(args@).remove(k).skip(1) && args@.len() > 2,
            _ => r is NoInput && args@.len() == 2,
        }),
        args@[k]@ == "--eq"@ || args@[k]@ == "-e"@ || args@[k]@ == "--fx"@ || args@[k]@ == "--crossfade"@
            || args@[k]@ == "-x"@ || args@[k]@ == "--rg-mode"@ || args@[k]@ == "--device"@ || args@[k]@ == "--theme"@ ==> (
        match r {
            Start::Play(v) => text::texts(v@) == text::texts(args@).subrange(1, k) + text::texts(args@).skip(
                if k + 2 <= args@.len() {
                    k + 2
                } else {
                    args@.len() as int
                },
            ),
            _ => r is NoInput && k == 1 && args@.len() <= 3,
        }),
        r matches Start::UnknownOption(s) ==> s@ == args@[k]@,
{
    let t = text::texts(args@);
    let n = t.len() as int;
    assert(n == args@.len());
    assert forall|m: int| 0 <= m < n && m != k implies is_plain(#[trigger] t[m]) by {
        assert(t[m] == args@[m]@);
    }
    assert(t[k] == args@[k]@);
    reveal_strlit("--help");
    reveal_strlit("-h");
    reveal_strlit("--list-devices");
    reveal_strlit("--eq");
    reveal_strlit("-e");
    reveal_strlit("--fx");
    reveal_strlit("--crossfade");
    reveal_strlit("-x");
    reveal_strlit("--rg-mode");
    reveal_strlit("--device");
    reveal_strlit("--theme");
    reveal_strlit("--shuffle");
    reveal_strlit("-s");
    reveal_strlit("--repeat");
    reveal_strlit("-r");
    reveal_strlit("--quality");
    reveal_strlit("-q");
    reveal_strlit("--exclusive");
    reveal_strlit("--no-cover");
    let e = Seq::<Seq<char>>::empty();
    lemma_sources_of_plain(t, 1, k, e);
    let head = e + t.subrange(1, k);
    assert(head =~= t.subrange(1, k));
    lemma_sources_of_plain(t, k + 1, n, head);
    assert(head + t.subrange(k + 1, n) =~= t.remove(k).skip(1));
    if k + 2 <= n {
        lemma_sources_of_plain(t, k + 2, n, head);
        assert(t.subrange(k + 2, n) =~= t.skip(k + 2));
    } else {
        assert(head + t.skip(n) =~= head);
    }
    lemma_sources_of_plain(t, k + 1, n, head.push(t[k]));
    lemma_known_flags(t[k]);
}

proof fn lemma_known_flags(a: Seq<char>)
    ensures
        a == "--shuffle"@ || a == "-s"@ || a == "--repeat"@ || a == "-r"@ || a == "--quality"@ || a == "-q"@ || a
            == "--exclusive"@ || a == "--no-cover"@ ==> !launch::takes_value(a) && launch::stands_alone(a) && a
            != "--help"@ && a != "-h"@ && a != "--list-devices"@,
        a == "--eq"@ || a == "-e"@ || a == "--fx"@ || a == "--crossfade"@ || a == "-x"@ || a == "--rg-mode"@ || a
            == "--device"@ || a == "--theme"@ ==> launch::takes_value(a) && a != "--help"@ && a != "-h"@ && a
            != "--list-devices"@,
{
    reveal_strlit("--help");
    reveal_strlit("-h");
    reveal_strlit("--list-devices");
    reveal_strlit("--eq");
    reveal_strlit("-e");
    reveal_strlit("--fx");
    reveal_strlit("--crossfade");
    reveal_strlit("-x");
    reveal_strlit("--rg-mode");
    reveal_strlit("--device");
    reveal_strlit("--theme");
    reveal_strlit("--shuffle");
    reveal_strlit("-s");
    reveal_strlit("--repeat");
    reveal_strlit("-r");
    reveal_strlit("--quality");
    reveal_strlit("-q");
    reveal_strlit("--exclusive");
    reveal_strlit("--no-cover");
    assert("--help"@[2] == 'h' && "--list-devices"@[2] == 'l' && "-h"@[1] == 'h');
    assert("--eq"@[2] == 'e' && "--fx"@[2] == 'f' && "--crossfade"@[2] == 'c' && "--rg-mode"@[2] == 'r'
        && "--device"@[2] == 'd' && "--theme"@[2] == 't' && "--shuffle"@[2] == 's' && "--repeat"@[2] == 'r'
        && "--quality"@[2] == 'q' && "--exclusive"@[2] == 'e' && "--no-cover"@[2] == 'n');
    assert("--repeat"@[3] == 'e' && "--rg-mode"@[3] == 'g' && "--exclusive"@[3] == 'x' && "--eq"@[3] == 'q');
    assert("-e"@[1] == 'e' && "-x"@[1] == 'x' && "-s"@[1] == 's' && "-r"@[1] == 'r' && "-q"@[1] == 'q');
    assert("-e"@.len() == 2 && "-x"@.len() == 2 && "-s"@.len() == 2 && "-r"@.len() == 2 && "-q"@.len() == 2);
}

/// A run starts with everything that was found, once, in its order; shuffled, with the
/// same tracks in another order.
pub proof fn a_run_starts_with_all_that_was_found(
    found: Vec<String>,
    keys: Vec<String>,
    none: NameSet,
    once: Vec<String>,
    seed: u64,
    plain: Option<Vec<String>>,
    mixed: Option<Vec<String>>,
)
    requires
        found@.len() == keys@.len(),
        call_ensures(NameSet::new, (), none),
        call_ensures(playlist::dedup_playlist, (&found, &keys, &none), once),
        call_ensures(session::opening_list, (&found, &keys, false, seed), plain),
        call_ensures(session::opening_list, (&found, &keys, true, seed), mixed),
    ensures
        found@.len() == 0 ==> plain is None && mixed is None,
        found@.len() > 0 ==> {
            &&& plain matches Some(p) && text::texts(p@) == text::texts(once@)
            &&& mixed matches Some(m) && text::texts(m@).to_multiset() == text::texts(once@).to_multiset()
        },
{
    playlist::shuffle_keeps_every_track(text::texts(once@), 0, seed);
}

/// A list that starts again holds what its folders hold by then, without what the
/// listener has removed; in its order, unless it is shuffled.
pub proof fn a_list_starts_again_with_what_is_there(
    s: &mut PlayerState,
    ui: &mut UiState,
    list: &mut Vec<String>,
    tracks: Vec<String>,
    keys: Vec<String>,
    once: Vec<String>,
    seed: u64,
    more: bool,
)
    requires
        tracks@.len() == keys@.len(),
        tracks@.len() > 0,
        call_ensures(playlist::dedup_playlist, (&tracks, &keys, &old(ui).queue.removed_paths), once),
        call_ensures(session::next_cycle, (s, ui, list, &Found::Folders { tracks, keys }, seed), more),
        old(ui).queue.current >= old(list)@.len(),
        old(ui).queue.repeat_mode !is Off,
    ensures
        !old(ui).queue.shuffle ==> text::texts(final(list)@) == text::texts(once@),
        text::texts(final(list)@).to_multiset() == text::texts(once@).to_multiset(),
        more <==> once@.len() > 0,
{
    assert(text::texts(once@).len() == once@.len());
    playlist::shuffle_keeps_every_track(text::texts(once@), 0, seed);
}

/// A list of files starts again as it was, without what the listener has removed.
pub proof fn a_list_of_files_starts_again_as_it_was(
    s: &mut PlayerState,
    ui: &mut UiState,
    list: &mut Vec<String>,
    keys: Vec<String>,
    left: Vec<String>,
    seed: u64,
    more: bool,
)
    requires
        keys@.len() == old(list)@.len(),
        call_ensures(playlist::without_removed, (old(list), &keys, &old(ui).queue.removed_paths), left),
        call_ensures(session::next_cycle, (s, ui, list, &Found::Files { keys }, seed), more),
        old(ui).queue.current >= old(list)@.len(),
        old(ui).queue.repeat_mode !is Off,
    ensures
        !old(ui).queue.shuffle ==> text::texts(final(list)@) == text::texts(left@),
        text::texts(final(list)@).to_multiset() == text::texts(left@).to_multiset(),
{
    playlist::shuffle_keeps_every_track(text::texts(left@), 0, seed);
}

/// Sessions that were kept without a repeat mode say only whether the list is repeated.
pub proof fn older_sessions_are_taken_up(rs: ResumeState, r: RepeatMode)
    requires
        call_ensures(resume::resumed_repeat, (&rs,), r),
        rs.repeat_mode is None,
    ensures
        rs.repeat ==> r is All,
        !rs.repeat ==> r is Off,
{
}

/// A preset that the settings name is chosen, whatever its capitals, and takes the
/// curve set by hand out of force.
pub proof fn presets_are_taken_from_the_file(
    s: &mut PlayerState,
    c: Config,
    rg_given: bool,
    eq: Vec<String>,
    cf: Vec<String>,
    k: int,
)
    requires
        call_ensures(config::apply_config, (s, &c, rg_given, false, &eq, &cf), ()),
        c.eq is Some,
        0 <= k < eq@.len(),
        text::lowered(eq@[k]@) == text::lowered(c.eq->0@),
        forall|m: int| 0 <= m < k ==> text::lowered((#[trigger] eq@[m])@) != text::lowered(c.eq->0@),
    ensures
        final(s).eq.index == k,
        !final(s).eq_custom,
{
    let t = text::texts(eq@);
    assert forall|m: int| 0 <= m < k implies text::lowered(#[trigger] t[m]) != text::lowered(c.eq->0@) by {
        assert(t[m] == eq@[m]@);
    }
    assert(t[k] == eq@[k]@);
    assert(eq@.len() == eq.len());
    lemma_first_alike(t, c.eq->0@, 0, k);
}

/// The lyrics of a new track are asked for anew, unless they are known; an answer that
/// brings none changes nothing.
pub proof fn lyrics_are_asked_for_with_each_track(
    ui: &mut UiState,
    look: Option<u64>,
    after: &mut UiState,
    found: Option<Lyrics>,
)
    requires
        call_ensures(session::start_lyrics, (ui, None), look),
        call_ensures(session::take_lyrics, (after, found), ()),
    ensures
        final(ui).lyrics.lyrics is None,
        look == Some(final(ui).lyrics.generation) && final(ui).lyrics.generation != old(ui).lyrics.generation,
        found is Some ==> final(after).lyrics.lyrics == found,
        found is None ==> *final(after) == *old(after),
        final(ui).lyrics.offset == old(ui).lyrics.offset,
{
}

/// Lyrics that are known are shown at once, as they are written.
pub proof fn known_lyrics_are_shown_at_once(ui: &mut UiState, t: &str, look: Option<u64>)
    requires
        call_ensures(session::start_lyrics, (ui, Some(t)), look),
    ensures
        look is None,
        final(ui).lyrics.lyrics matches Some(l) && lyrics::is_parsed(l, t@),
{
}

/// The cover of a new track is asked for anew where covers are shown, and the last one
/// taken off; the answer is shown.
pub proof fn covers_are_asked_for_with_each_track(
    ui: &mut UiState,
    look: Option<u64>,
    after: &mut UiState,
    s: PlayerState,
    found: Option<CoverImage>,
)
    requires
        call_ensures(session::start_cover, (ui,), look),
        call_ensures(session::take_cover, (after, &s, found), ()),
    ensures
        final(ui).cover.cover is None && final(ui).cover.dirty_frame,
        look is Some <==> old(ui).cover.enabled,
        look matches Some(g) ==> g == final(ui).cover.generation && g != old(ui).cover.generation,
        final(after).cover.cover == found && final(after).cover.dirty_frame,
        s.look.theme is Classic ==> final(after).banner.dirty,
{
}

/// What is queued is dropped where there is anything, and waited for.
pub proof fn what_is_queued_is_dropped(s: &mut PlayerState, free: usize, wait: bool)
    requires
        call_ensures(session::flush_ring, (s, free), wait),
        free <= old(s).producer.ring_capacity,
    ensures
        wait <==> free != old(s).producer.ring_capacity,
        wait ==> final(s).producer.reset_consumer_counter,
        !wait ==> *final(s) == *old(s),
        final(s).transport == old(s).transport,
{
}

/// A device that is gone is waited for, and the listener told; one that cannot be had
/// alone is shared, but on macOS.
pub proof fn lost_devices_are_waited_for(s: &mut PlayerState, ui: &mut UiState, t: &mut PlayerState, platform: Platform)
    requires
        call_ensures(session::await_device, (s, ui), ()),
        call_ensures(session::exclusive_refused, (t, platform), ()),
    ensures
        final(s).device.stream_error,
        final(ui).status_message is Some && final(ui).queue == old(ui).queue,
        platform is MacOs ==> *final(t) == *old(t),
        platform !is MacOs ==> !final(t).device.exclusive && final(t).transport == old(t).transport,
{
}

/// After the stream was built anew, playing goes on with the track that the decoder had
/// come to.
pub proof fn a_new_stream_goes_on_with_its_track(ui: &mut UiState, s: PlayerState, n: usize)
    requires
        call_ensures(session::go_where_decoder_is, (ui, &s, n), ()),
    ensures
        s.producer.producer_track_index < n ==> final(ui).queue.current == s.producer.producer_track_index,
        s.producer.producer_track_index >= n ==> *final(ui) == *old(ui),
        final(ui).queue.shuffle == old(ui).queue.shuffle,
{
}

/// How long a track is, is known where its samples are counted.
pub proof fn lengths_are_known_in_seconds(s: PlayerState, r: Option<u32>)
    requires
        call_ensures(session::seconds_known, (&s,), r),
        s.track.total_samples <= u32::MAX,
    ensures
        s.track.total_samples == 0 || s.track.sample_rate == 0 ==> r is None,
        s.track.total_samples > 0 && s.track.sample_rate > 0 ==> (r matches Some(n) && n * s.track.sample_rate
            <= s.track.total_samples < (n + 1) * s.track.sample_rate),
{
    let a = s.track.total_samples as int;
    let b = s.track.sample_rate as int;
    if b > 0 {
        let q = a / b;
        assert(q * b <= a < (q + 1) * b && 0 <= q <= a) by (nonlinear_arith)
            requires
                a >= 0,
                b > 0,
                q == a / b,
        ;
    }
}

/// The names of the visualisations are known however they are written.
pub proof fn visualisations_are_known_by_name(s: &str, r: Option<VizMode>)
    requires
        call_ensures(VizMode::from_str, (s,), r),
    ensures
        text::lowered(s@) == "none"@ || text::lowered(s@) == "off"@ ==> r == Some(VizMode::Off),
        text::lowered(s@) == "vu"@ || text::lowered(s@) == "vumeter"@ || text::lowered(s@) == "vu-meter"@ ==> r == Some(
            VizMode::VuMeter,
        ),
        text::lowered(s@) == "spectrum"@ || text::lowered(s@) == "spectrum-horizontal"@ ==> r == Some(
            VizMode::SpectrumHorizontal,
        ),
        text::lowered(s@) == "spectrum-vertical"@ || text::lowered(s@) == "vertical"@ ==> r == Some(
            VizMode::SpectrumVertical,
        ),
        text::lowered(s@) == "oscilloscope"@ || text::lowered(s@) == "scope"@ ==> r == Some(VizMode::Oscilloscope),
        text::lowered(s@) == "lissajous"@ || text::lowered(s@) == "vector"@ ==> r == Some(VizMode::Lissajous),
        text::lowered(s@) == "spectrogram"@ ==> r == Some(VizMode::Spectrogram),
        text::lowered(s@) == "analysis"@ || text::lowered(s@) == "analysis-spectrogram"@ ==> r == Some(
            VizMode::SpectrogramAnalysis,
        ),
{
    reveal_strlit("none");
    reveal_strlit("off");
    reveal_strlit("vu");
    reveal_strlit("vumeter");
    reveal_strlit("vu-meter");
    reveal_strlit("spectrum");
    reveal_strlit("spectrum-horizontal");
    reveal_strlit("spectrum-vertical");
    reveal_strlit("vertical");
    reveal_strlit("oscilloscope");
    reveal_strlit("scope");
    reveal_strlit("lissajous");
    reveal_strlit("vector");
    reveal_strlit("spectrogram");
    reveal_strlit("analysis");
    reveal_strlit("analysis-spectrogram");
    assert("none"@[0] == 'n' && "off"@[0] == 'o' && "vu"@[1] == 'u' && "vumeter"@[1] == 'u' && "vu-meter"@[1] == 'u');
    assert("spectrum"@[1] == 'p' && "spectrum-horizontal"@[1] == 'p' && "spectrum-vertical"@[1] == 'p');
    assert("vertical"@[1] == 'e' && "vector"@[1] == 'e' && "vertical"@[2] == 'r' && "vector"@[2] == 'c');
    assert("oscilloscope"@[1] == 's' && "off"@[1] == 'f' && "scope"@[1] == 'c' && "lissajous"@[0] == 'l');
    assert("spectrogram"@[6] == 'o' && "spectrum"@[6] == 'u' && "spectrum-horizontal"@[6] == 'u'
        && "spectrum-vertical"@[6] == 'u');
    assert("spectrum-vertical"@[9] == 'v' && "spectrum-horizontal"@[9] == 'h');
    assert("vertical"@[0] == 'v' && "spectrum"@[0] == 's' && "spectrum-horizontal"@[0] == 's');
    assert("spectrum-vertical"@.len() == 17 && "spectrum-horizontal"@.len() == 19 && "spectrum"@.len() == 8);
    assert("spectrum-vertical"@ != "spectrum"@);
    assert("spectrum-vertical"@ != "spectrum-horizontal"@);
    assert("vertical"@ != "vu"@ && "vertical"@ != "vumeter"@ && "vertical"@ != "vu-meter"@);
    assert("vertical"@ != "none"@ && "vertical"@ != "off"@ && "vertical"@ != "spectrum"@);
    assert("analysis"@[0] == 'a' && "analysis-spectrogram"@[0] == 'a');
}

/// Kinds of bands are known by their names, and shortened by two letters.
pub proof fn bands_are_known_by_name(s: &str, r: Option<BandType>, k: BandType, short: &'static str)
    requires
        call_ensures(BandType::from_name, (s,), r),
        call_ensures(BandType::short_label, (k,), short),
    ensures
        s@ == "peak"@ ==> r == Some(BandType::Peak),
        s@ == "low_shelf"@ ==> r == Some(BandType::LowShelf),
        s@ == "high_shelf"@ ==> r == Some(BandType::HighShelf),
        s@ == "low_cut"@ ==> r == Some(BandType::LowCut),
        s@ == "high_cut"@ ==> r == Some(BandType::HighCut),
        k is Peak ==> short@ == "PK"@,
        k is LowShelf ==> short@ == "LS"@,
        k is HighShelf ==> short@ == "HS"@,
        k is LowCut ==> short@ == "LC"@,
        k is HighCut ==> short@ == "HC"@,
{
    reveal_strlit("peak");
    reveal_strlit("low_shelf");
    reveal_strlit("high_shelf");
    reveal_strlit("low_cut");
    reveal_strlit("high_cut");
    assert("peak"@[0] == 'p' && "low_shelf"@[0] == 'l' && "high_shelf"@[0] == 'h' && "low_cut"@[0] == 'l'
        && "high_cut"@[0] == 'h');
    assert("low_shelf"@[4] == 's' && "low_cut"@[4] == 'c' && "high_shelf"@[5] == 's' && "high_cut"@[5] == 'c');
}

/// A ring holds four seconds of stereo.
pub proof fn rings_hold_four_seconds(rate: u32, r: usize)
    requires
        rate * 8 <= usize::MAX,
        call_ensures(state::ring_capacity_for, (rate,), r),
    ensures
        r == 4 * (2 * rate),
{
}

/// The theme at the start: the one asked for by its name, else the preferred one, else
/// the one that was kept.
pub proof fn the_theme_at_the_start(
    asked: Option<String>,
    preferred: Option<ThemeKind>,
    rs: Option<ResumeState>,
    r: ThemeKind,
    c: Config,
    k: Option<ThemeKind>,
)
    requires
        call_ensures(resume::launch_theme, (&asked, preferred, &rs), r),
        call_ensures(Config::theme_kind, (&c,), k),
    ensures
        asked matches Some(n) ==> (ThemeKind::of_name(n@) matches Some(t) ==> r == t),
        asked is None ==> (preferred matches Some(t) ==> r == t),
        asked is None && preferred is None && rs is None ==> r is Classic,
        c.theme is None ==> k is None,
        c.theme matches Some(n) ==> k == ThemeKind::of_name(n@),
{
}

/// Bands set by hand are taken up as they were kept, within their bounds.
pub proof fn bands_set_by_hand_are_taken_up(rs: ResumeState, r: Option<Vec<BandSettings>>, gains: Vec<i32>, i: int)
    requires
        call_ensures(resume::resumed_bands, (&rs,), r),
        rs.eq_custom == Some(true),
        rs.eq_gains == Some(gains),
        0 <= i < EQ_BANDS,
        i < gains@.len(),
        -12000 <= gains@[i] <= 12000,
    ensures
        r matches Some(v) && v@.len() == EQ_BANDS && v@[i].gain == gains@[i],
        rs.eq_freqs matches Some(f) ==> (i < f@.len() && 20_000 <= f@[i] <= 20_000_000 ==> r->0@[i].freq == f@[i]),
{
    assert(r->0@[i] == resume::band_kept(rs, gains@, i));
}

/// Nothing set by hand is taken up where nothing was.
pub proof fn bands_of_presets_are_not_kept(rs: ResumeState, r: Option<Vec<BandSettings>>)
    requires
        call_ensures(resume::resumed_bands, (&rs,), r),
        rs.eq_custom != Some(true) || rs.eq_gains is None,
    ensures
        r is None,
{
}

} // verus!
