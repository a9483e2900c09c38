//! What can be counted on of the player's state: what is set is what is read, and what
//! changes leaves everything else alone.
use crate::list_view;
use crate::list_view::ListView;
use crate::state;
use crate::state::{PlayerState, RepeatMode, RgMode, VizMode, VizStyle, EQ_BANDS, SPECTRUM_BANDS};
use crate::theme::ThemeKind;
use vstd::prelude::*;

verus! {

/// The levels that are set are those that are read, left and right each for itself.
pub proof fn levels_read_back(s: &mut PlayerState, left: u32, right: u32, t: PlayerState, r: (u32, u32))
    requires
        call_ensures(PlayerState::set_peaks, (s, left, right), ()),
        t == *final(s),
        call_ensures(PlayerState::get_peaks, (&t,), r),
    ensures
        r == (left, right),
        final(s).volume == old(s).volume && final(s).transport == old(s).transport && final(s).meters.spectrum
            == old(s).meters.spectrum,
{
}

/// So are the marks of their peaks.
pub proof fn peaks_read_back(s: &mut PlayerState, left: u32, right: u32, t: PlayerState, r: (u32, u32))
    requires
        call_ensures(PlayerState::set_vu_dots, (s, left, right), ()),
        t == *final(s),
        call_ensures(PlayerState::get_vu_dots, (&t,), r),
    ensures
        r == (left, right),
        final(s).meters.peak_left == old(s).meters.peak_left && final(s).transport == old(s).transport,
{
}

/// And the spectra of both sides.
pub proof fn spectra_read_back(
    s: &mut PlayerState,
    a: [u32; SPECTRUM_BANDS],
    t: &mut PlayerState,
    b: [u32; SPECTRUM_BANDS],
    u: &mut PlayerState,
    c: [u32; SPECTRUM_BANDS],
    v: PlayerState,
    x: [u32; SPECTRUM_BANDS],
    y: [u32; SPECTRUM_BANDS],
    z: [u32; SPECTRUM_BANDS],
)
    requires
        call_ensures(PlayerState::set_spectrum, (s, a), ()),
        *old(t) == *final(s),
        call_ensures(PlayerState::set_spectrum_r, (t, b), ()),
        *old(u) == *final(t),
        call_ensures(PlayerState::set_dots, (u, c), ()),
        v == *final(u),
        call_ensures(PlayerState::get_spectrum, (&v,), x),
        call_ensures(PlayerState::get_spectrum_r, (&v,), y),
        call_ensures(PlayerState::get_dots, (&v,), z),
    ensures
        x == a && y == b && z == c,
        v.transport == old(s).transport && v.volume == old(s).volume,
{
}

/// What is read of a player is what it is.
pub proof fn a_player_reads_as_it_is(
    s: PlayerState,
    paused: bool,
    quit: bool,
    repeat: RepeatMode,
    theme: ThemeKind,
    viz: VizMode,
    style: VizStyle,
    eq: usize,
    fx: usize,
    cf: usize,
    custom: bool,
    gains: [i32; EQ_BANDS],
    pre: bool,
    stats: bool,
    rg: RgMode,
    balance: i32,
)
    requires
        call_ensures(PlayerState::is_paused, (&s,), paused),
        call_ensures(PlayerState::should_quit, (&s,), quit),
        call_ensures(PlayerState::repeat_mode, (&s,), repeat),
        call_ensures(PlayerState::theme_kind, (&s,), theme),
        call_ensures(PlayerState::viz_mode, (&s,), viz),
        call_ensures(PlayerState::viz_style, (&s,), style),
        call_ensures(PlayerState::eq_index, (&s,), eq),
        call_ensures(PlayerState::effects_index, (&s,), fx),
        call_ensures(PlayerState::crossfeed_index, (&s,), cf),
        call_ensures(PlayerState::is_eq_custom, (&s,), custom),
        call_ensures(PlayerState::eq_gains_array, (&s,), gains),
        call_ensures(PlayerState::is_pre_fader, (&s,), pre),
        call_ensures(PlayerState::show_stats, (&s,), stats),
        call_ensures(PlayerState::rg_mode, (&s,), rg),
        call_ensures(PlayerState::balance_value, (&s,), balance),
    ensures
        paused == s.transport.paused && quit == s.transport.quit && repeat == s.transport.repeat_mode,
        theme == s.look.theme && viz == s.look.viz_mode && style == s.look.viz_style,
        eq == s.eq.index && fx == s.effects.index && cf == s.crossfeed.index,
        custom == s.eq_custom && gains == s.eq_gains && pre == s.look.pre_fader && stats == s.look.show_stats,
        rg == s.rg_mode && balance == s.balance,
{
}

/// A switch that is turned twice is where it was, and nothing else has changed.
pub proof fn switches_turn_back(
    a: &mut PlayerState,
    b: &mut PlayerState,
    c: &mut PlayerState,
    d: &mut PlayerState,
    e: &mut PlayerState,
    f: &mut PlayerState,
    g: &mut PlayerState,
    h: &mut PlayerState,
)
    requires
        call_ensures(PlayerState::toggle_pause, (a,), ()),
        *old(b) == *final(a),
        call_ensures(PlayerState::toggle_pause, (b,), ()),
        call_ensures(PlayerState::toggle_pre_fader, (c,), ()),
        *old(d) == *final(c),
        call_ensures(PlayerState::toggle_pre_fader, (d,), ()),
        call_ensures(PlayerState::toggle_stats, (e,), ()),
        *old(f) == *final(e),
        call_ensures(PlayerState::toggle_stats, (f,), ()),
        call_ensures(PlayerState::toggle_viz_style, (g,), ()),
        *old(h) == *final(g),
        call_ensures(PlayerState::toggle_viz_style, (h,), ()),
    ensures
        final(a).transport.paused != old(a).transport.paused && *final(b) == *old(a),
        final(c).look.pre_fader != old(c).look.pre_fader && *final(d) == *old(c),
        final(e).look.show_stats != old(e).look.show_stats && *final(f) == *old(e),
        final(g).look.viz_style != old(g).look.viz_style && *final(h) == *old(g),
{
}

/// A change is told once.
pub proof fn changes_are_told_once(
    a: &mut PlayerState,
    x: bool,
    b: &mut PlayerState,
    y: bool,
    c: &mut PlayerState,
    z: bool,
    d: &mut PlayerState,
    w: bool,
)
    requires
        call_ensures(PlayerState::take_eq_changed, (a,), x),
        call_ensures(PlayerState::take_effects_changed, (b,), y),
        call_ensures(PlayerState::take_crossfeed_changed, (c,), z),
        call_ensures(PlayerState::is_clipping, (d,), w),
    ensures
        x == old(a).eq.changed && !final(a).eq.changed && final(a).eq.index == old(a).eq.index,
        y == old(b).effects.changed && !final(b).effects.changed && final(b).effects.index == old(b).effects.index,
        z == old(c).crossfeed.changed && !final(c).crossfeed.changed && final(c).crossfeed.index
            == old(c).crossfeed.index,
        w == old(d).clipping && !final(d).clipping && final(d).volume == old(d).volume,
{
}

/// Another theme is chosen one after the other; one that shows a meter always shows one.
pub proof fn themes_are_chosen_in_turn(s: &mut PlayerState, r: ThemeKind, t: &mut PlayerState, kind: ThemeKind)
    requires
        call_ensures(PlayerState::cycle_theme, (s,), r),
        call_ensures(PlayerState::set_theme, (t, kind), ()),
    ensures
        old(s).look.theme is Classic ==> r is Minimal,
        old(s).look.theme is Minimal ==> r is HiFi,
        old(s).look.theme is HiFi ==> r is Classic,
        final(s).look.theme == r,
        final(t).look.theme == kind,
        kind is HiFi ==> final(t).look.viz_mode !is Off,
        kind !is HiFi ==> final(t).look.viz_mode == old(t).look.viz_mode,
        final(t).volume == old(t).volume && final(t).transport == old(t).transport,
{
}

/// A track that starts is signalled with its place, and counted.
pub proof fn tracks_are_signalled(s: &mut PlayerState, i: usize)
    requires
        call_ensures(PlayerState::signal_next_track, (s, i), ()),
    ensures
        final(s).producer.producer_track_index == i,
        old(s).producer.track_transition_count < usize::MAX ==> final(s).producer.track_transition_count
            == old(s).producer.track_transition_count + 1,
        final(s).producer.track_transition_count != old(s).producer.track_transition_count,
        final(s).track == old(s).track,
{
}

/// Gains that are set are in force as they are.
pub proof fn gains_read_back(s: &mut PlayerState, g: [i32; EQ_BANDS])
    requires
        call_ensures(PlayerState::set_eq_gains, (s, g), ()),
    ensures
        final(s).eq_gains == g,
        final(s).eq == old(s).eq && final(s).eq_custom == old(s).eq_custom,
{
}

/// A column of the analysis covers about as much time at every rate: what its hops
/// cover, to the millisecond.
pub proof fn columns_cover_their_hops(rate: u64, hops: usize, ms: u64)
    requires
        0 < rate <= 0xffff_ffff,
        call_ensures(state::spectro_hops_per_col, (rate,), hops),
        call_ensures(state::spectro_frame_ms, (rate,), ms),
        hops < usize::MAX,
        hops * 2_048_000 >= rate,
    ensures
        hops >= 1,
        2 * (ms * rate) <= 2 * (hops * 2_048_000) + rate,
        2 * (ms * rate) + rate >= 2 * (hops * 2_048_000),
{
    let a = hops * 2_048_000;
    let b = rate as int;
    let q = (2 * a + b) / (2 * b);
    assert(q * (2 * b) <= 2 * a + b < (q + 1) * (2 * b)) by (nonlinear_arith)
        requires
            a >= 0,
            b > 0,
            q == (2 * a + b) / (2 * b),
    ;
    assert(q >= 1) by (nonlinear_arith)
        requires
            2 * a + b < (q + 1) * (2 * b),
            a >= b,
            b > 0,
    ;
    assert(q * (2 * b) == 2 * (q * b)) by (nonlinear_arith);
    assert((q + 1) * (2 * b) == 2 * (q * b) + 2 * b) by (nonlinear_arith);
}

/// In a list the cursor goes by one row and by a page, to the first and the last, and
/// never off the list.
pub proof fn the_cursor_goes_by_rows(
    a: &mut ListView,
    b: &mut ListView,
    c: &mut ListView,
    d: &mut ListView,
    e: &mut ListView,
    f: &mut ListView,
    n: usize,
)
    requires
        call_ensures(list_view::playlist_cursor_up, (a,), ()),
        call_ensures(list_view::playlist_cursor_down, (b, n), ()),
        call_ensures(list_view::playlist_cursor_home, (c,), ()),
        call_ensures(list_view::playlist_cursor_end, (d, n), ()),
        call_ensures(list_view::playlist_cursor_page_up, (e,), ()),
        call_ensures(list_view::playlist_cursor_page_down, (f, n), ()),
        n > 0,
        old(b)@.filtered.len() == 0 && old(d)@.filtered.len() == 0 && old(f)@.filtered.len() == 0,
        old(b)@.cursor < n && old(f)@.cursor < n,
        old(e)@.rows >= 2 && old(f)@.rows >= 2,
    ensures
        old(a)@.cursor > 0 ==> final(a)@.cursor == old(a)@.cursor - 1,
        old(a)@.cursor == 0 ==> final(a)@.cursor == 0,
        old(b)@.cursor + 1 < n ==> final(b)@.cursor == old(b)@.cursor + 1,
        old(b)@.cursor + 1 == n ==> final(b)@.cursor == old(b)@.cursor,
        final(c)@.cursor == 0 && final(c)@.scroll == 0,
        final(d)@.cursor == n - 1,
        old(e)@.cursor >= old(e)@.rows - 1 ==> final(e)@.cursor == old(e)@.cursor - (old(e)@.rows - 1),
        old(e)@.cursor < old(e)@.rows - 1 ==> final(e)@.cursor == 0,
        old(f)@.cursor + old(f)@.rows - 1 < n ==> final(f)@.cursor == old(f)@.cursor + old(f)@.rows - 1,
        old(f)@.cursor + old(f)@.rows - 1 >= n ==> final(f)@.cursor == n - 1,
{
}

/// The track under the cursor is that of its row; of a search one of what it found. A
/// list that became shorter takes the cursor along.
pub proof fn the_cursor_is_on_a_track(l: ListView, r: Option<usize>, m: &mut ListView, n: usize, c: &mut ListView)
    requires
        call_ensures(ListView::cursor_track, (&l,), r),
        call_ensures(list_view::keep_cursor_in, (m, n), ()),
        old(m)@.filtered.len() == 0,
        call_ensures(ListView::clear_search, (c,), ()),
    ensures
        l.filtered_indices@.len() == 0 ==> r == Some(l.cursor),
        l.cursor < l.filtered_indices@.len() ==> r == Some(l.filtered_indices@[l.cursor as int]),
        l.filtered_indices@.len() > 0 && l.cursor >= l.filtered_indices@.len() ==> r is None,
        old(m)@.cursor < n ==> final(m)@.cursor == old(m)@.cursor,
        old(m)@.cursor >= n && n > 0 ==> final(m)@.cursor == n - 1,
        final(c)@.filtered.len() == 0 && final(c)@.cursor == 0,
{
    assert(l@.filtered.len() == l.filtered_indices@.len());
    if l.cursor < l.filtered_indices@.len() {
        assert(l@.filtered[l.cursor as int] == l.filtered_indices@[l.cursor as int]);
    }
}

/// Modes read back from the numbers they are stored as.
pub proof fn modes_read_back(m: RepeatMode, n: u8, r: RepeatMode, t: ThemeKind, k: u8, u: ThemeKind)
    requires
        call_ensures(RepeatMode::to_u8, (m,), n),
        call_ensures(RepeatMode::from_u8, (n,), r),
        call_ensures(ThemeKind::to_u8, (t,), k),
        call_ensures(ThemeKind::from_u8, (k,), u),
    ensures
        r == m,
        u == t,
        m is One ==> n == 2,
        t is Minimal ==> k == 1,
{
}

} // verus!
