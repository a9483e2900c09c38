//! What a listener can count on of the sound: how loud it is, from which side it
//! comes, and through which device.
use crate::audio;
use crate::audio::{ExclusiveError, Output, OutputConfig, Platform, RateCaps, RateGroup, RateSwitch, Tap};
use crate::decode;
use crate::decode::{ChainPlan, Flush, Push, RgSlot, RgTag, RgTags, Route, Wait};
use crate::equalizer;
use crate::equalizer::{BandSettings, BandType, EqPreset};
use crate::lyrics_laws;
use crate::ring;
use crate::state::{PlayerState, RgMode, EQ_BANDS};
use crate::text;
use std::collections::VecDeque;
use vstd::prelude::*;

verus! {

/// In album mode the album's gain and peak are gone by wherever the file has them,
/// and the track's only where it lacks them.
pub proof fn album_mode_goes_by_the_album(tags: RgTags, r: (Option<u32>, Option<u32>))
    requires
        call_ensures(decode::rg_choice, (RgMode::Album, tags), r),
    ensures
        tags.album_gain is Some ==> r.0 == tags.album_gain,
        tags.album_peak is Some ==> r.1 == tags.album_peak,
        tags.album_gain is None ==> r.0 == tags.track_gain,
        tags.album_peak is None ==> r.1 == tags.track_peak,
{
}

/// In track mode the track's gain and peak are gone by wherever the file has them,
/// and the album's only where it lacks them.
pub proof fn track_mode_goes_by_the_track(tags: RgTags, r: (Option<u32>, Option<u32>))
    requires
        call_ensures(decode::rg_choice, (RgMode::Track, tags), r),
    ensures
        tags.track_gain is Some ==> r.0 == tags.track_gain,
        tags.track_peak is Some ==> r.1 == tags.track_peak,
        tags.track_gain is None ==> r.0 == tags.album_gain,
        tags.track_peak is None ==> r.1 == tags.album_peak,
{
}

/// Turned off, loudness tags change nothing. Where a file has the tags of one kind
/// alone, both modes agree.
pub proof fn loudness_modes_agree_where_they_must(
    tags: RgTags,
    off: (Option<u32>, Option<u32>),
    album: (Option<u32>, Option<u32>),
    track: (Option<u32>, Option<u32>),
)
    requires
        call_ensures(decode::rg_choice, (RgMode::Off, tags), off),
        call_ensures(decode::rg_choice, (RgMode::Album, tags), album),
        call_ensures(decode::rg_choice, (RgMode::Track, tags), track),
    ensures
        off.0 is None && off.1 is None,
        album.0 != track.0 ==> tags.album_gain is Some && tags.track_gain is Some,
        album.0 is Some <==> tags.album_gain is Some || tags.track_gain is Some,
        track.0 is Some <==> tags.album_gain is Some || tags.track_gain is Some,
        album.1 is Some <==> tags.album_peak is Some || tags.track_peak is Some,
        track.1 is Some <==> tags.album_peak is Some || tags.track_peak is Some,
{
}

/// The keys of loudness tags are known however they are written, each for what it
/// says.
pub proof fn loudness_keys_are_known_in_any_case(key: &str, r: Option<RgSlot>)
    requires
        call_ensures(decode::rg_slot_of_key, (key,), r),
    ensures
        text::is_ascii(key@) && text::lowered(key@) == "replaygain_track_gain"@ ==> r == Some(RgSlot::TrackGain),
        text::is_ascii(key@) && text::lowered(key@) == "replaygain_track_peak"@ ==> r == Some(RgSlot::TrackPeak),
        text::is_ascii(key@) && text::lowered(key@) == "replaygain_album_gain"@ ==> r == Some(RgSlot::AlbumGain),
        text::is_ascii(key@) && text::lowered(key@) == "replaygain_album_peak"@ ==> r == Some(RgSlot::AlbumPeak),
        text::is_ascii(key@) && r is Some ==> {
            let w = text::lowered(key@);
            w == "replaygain_track_gain"@ || w == "replaygain_track_peak"@ || w == "replaygain_album_gain"@ || w
                == "replaygain_album_peak"@
        },
{
    reveal_strlit("replaygain_track_gain");
    reveal_strlit("replaygain_track_peak");
    reveal_strlit("replaygain_album_gain");
    reveal_strlit("replaygain_album_peak");
    let a = "replaygain_track_gain"@;
    let b = "replaygain_track_peak"@;
    let c = "replaygain_album_gain"@;
    let d = "replaygain_album_peak"@;
    assert(a[17] == 'g' && b[17] == 'p' && c[17] == 'g' && d[17] == 'p');
    assert(a[11] == 't' && b[11] == 't' && c[11] == 'a' && d[11] == 'a');
}

proof fn lemma_first_value(tags: Seq<RgTag>, slot: RgSlot, i: int, k: int)
    requires
        0 <= i <= k < tags.len(),
        tags[k].slot == slot && tags[k].value is Some,
        forall|m: int| i <= m < k ==> !((#[trigger] tags[m]).slot == slot && tags[m].value is Some),
    ensures
        decode::first_value(tags, slot, i) == tags[k].value,
    decreases k - i,
{
    if i < k {
        assert(!(tags[i].slot == slot && tags[i].value is Some));
        lemma_first_value(tags, slot, i + 1, k);
    }
}

/// Of several tags for one thing the first that is a number counts, and goes where
/// it belongs.
pub proof fn the_first_number_counts(tags: Vec<RgTag>, r: RgTags, slot: RgSlot, k: int)
    requires
        call_ensures(decode::extract_rg_from_tags, (&tags,), r),
        0 <= k < tags@.len(),
        tags@[k].slot == slot && tags@[k].value is Some,
        forall|m: int| 0 <= m < k ==> !((#[trigger] tags@[m]).slot == slot && tags@[m].value is Some),
    ensures
        slot is TrackGain ==> r.track_gain == tags@[k].value,
        slot is TrackPeak ==> r.track_peak == tags@[k].value,
        slot is AlbumGain ==> r.album_gain == tags@[k].value,
        slot is AlbumPeak ==> r.album_peak == tags@[k].value,
{
    lemma_first_value(tags@, slot, 0, k);
    assert(r.at(slot) == decode::first_value(tags@, slot, 0));
}

/// Left stays left and right stays right: the first two channels go to their sides
/// alone and at full level, and a single one to both.
pub proof fn the_front_keeps_its_sides(channels: usize, l: Route, r: Route, m: Route)
    requires
        channels >= 2,
        call_ensures(decode::stereo_route, (channels, 0usize), l),
        call_ensures(decode::stereo_route, (channels, 1usize), r),
        call_ensures(decode::stereo_route, (1usize, 0usize), m),
    ensures
        l is Left,
        r is Right,
        m is Both,
{
}

/// Of four channels the rear ones go to their own sides, softer. With more, or
/// three or five, the third is the centre and goes to both sides, and the others
/// come in pairs of left and right. From six on the fourth is the bass, and is left
/// out; nothing else is.
pub proof fn surrounds_go_to_their_sides(channels: usize, i: usize, r: Route)
    requires
        i < channels,
        2 <= i,
        call_ensures(decode::stereo_route, (channels, i), r),
    ensures
        channels == 4 && i == 2 ==> r is SoftLeft,
        channels == 4 && i == 3 ==> r is SoftRight,
        channels != 4 && i == 2 ==> r is SoftBoth,
        r is Dropped <==> channels >= 6 && i == 3,
        channels >= 6 && i >= 4 && i % 2 == 0 ==> r is SoftLeft,
        channels >= 6 && i >= 4 && i % 2 == 1 ==> r is SoftRight,
        channels == 5 && i == 3 ==> r is SoftLeft,
        channels == 5 && i == 4 ==> r is SoftRight,
{
}

proof fn lemma_doubled(s: Seq<u32>, n: int, i: int)
    requires
        0 <= i < n <= s.len(),
    ensures
        decode::doubled(s, n).len() == 2 * n,
        decode::doubled(s, n)[2 * i] == s[i],
        decode::doubled(s, n)[2 * i + 1] == s[i],
    decreases n,
{
    lemma_doubled_len(s, n);
    lemma_doubled_len(s, n - 1);
    if i < n - 1 {
        lemma_doubled(s, n - 1, i);
    }
}

proof fn lemma_doubled_len(s: Seq<u32>, n: int)
    requires
        0 <= n <= s.len(),
    ensures
        decode::doubled(s, n).len() == 2 * n,
    decreases n,
{
    if n > 0 {
        lemma_doubled_len(s, n - 1);
    }
}

/// Stereo passes as it is, and mono goes to both sides, sample by sample.
pub proof fn stereo_and_mono_lose_nothing(input: Vec<u32>, stereo: &mut Vec<u32>, mono: &mut Vec<u32>, i: int)
    requires
        call_ensures(decode::interleaved_to_stereo, (&input, 2usize, stereo), true),
        call_ensures(decode::interleaved_to_stereo, (&input, 1usize, mono), true),
        0 <= i < input@.len(),
        old(mono)@.len() == 0,
    ensures
        final(stereo)@ == old(stereo)@ + input@,
        final(mono)@.len() == 2 * input@.len(),
        final(mono)@[2 * i] == input@[i],
        final(mono)@[2 * i + 1] == input@[i],
{
    lemma_doubled(input@, input@.len() as int, i);
}

/// Moving the balance to one side turns the other down, by as much, and leaves that
/// side at its full level; moved the other way, the sides change places.
pub proof fn balance_turns_the_other_side_down(b: i32, r: (u32, u32), mirrored: (u32, u32))
    requires
        -100 <= b <= 100,
        call_ensures(decode::balance_levels, (b,), r),
        call_ensures(decode::balance_levels, ((-b) as i32,), mirrored),
    ensures
        b >= 0 ==> r.1 == 100 && r.0 + b == 100,
        b <= 0 ==> r.0 == 100 && r.1 - b == 100,
        mirrored == (r.1, r.0),
{
}

/// A chunk passes exactly the stages that are on, and the balance where it is not
/// in the middle; no more of it is mixed with a fading track than is left of the
/// crossfade.
pub proof fn stages_that_are_off_are_left_out(
    len: usize,
    eq: bool,
    effects: bool,
    unity: bool,
    crossfeed: bool,
    balance: i32,
    pos: usize,
    total: usize,
    p: ChainPlan,
)
    requires
        len > 0,
        pos <= total,
        call_ensures(
            decode::apply_chain,
            (len, eq, effects, unity, crossfeed, balance, Some((pos, total))),
            Some(p),
        ),
    ensures
        p.eq == eq,
        p.effects == effects,
        p.gain == !unity,
        p.crossfeed == crossfeed,
        p.balance is None <==> balance == 0,
        p.fade <= len,
        pos + p.fade <= total,
        p.fade == len || pos + p.fade == total,
        balance > 0 ==> (p.balance matches Some((l, r)) && r == 100 && l < 100),
        balance < 0 ==> (p.balance matches Some((l, r)) && l == 100 && r < 100),
{
}

/// Paused, the callback puts out silence and takes nothing; asked to drain, it does
/// that first; else it plays as much as there is, and no more than the buffer has
/// room for, two samples to a frame.
pub proof fn the_callback_plays_what_it_can(
    state: &mut PlayerState,
    available: usize,
    len: usize,
    channels: usize,
    r: Output,
)
    requires
        len * 2 <= usize::MAX,
        call_ensures(audio::callback_plan, (state, available, len, channels), r),
    ensures
        old(state).producer.reset_consumer_counter ==> r is Drain && !final(state).producer.reset_consumer_counter,
        !old(state).producer.reset_consumer_counter ==> {
            &&& final(state).producer.buffer_level == available
            &&& old(state).transport.paused ==> r is Silence
            &&& available == 0 ==> r is Silence
            &&& !old(state).transport.paused && available > 0 && channels > 0 ==> {
                &&& r matches Output::Play(n) && n <= available && (n == available || n == len as int
                    / channels as int * 2) && n <= len as int / channels as int * 2
            }
        },
{
}

/// Louder is five per cent more, up to half again; softer is five less, down to
/// nothing. Away from the ends one undoes the other.
pub proof fn volume_goes_in_steps(up: &mut PlayerState, down: &mut PlayerState)
    requires
        old(up).volume <= 150,
        old(down).volume <= 150,
        call_ensures(PlayerState::volume_up, (up,), ()),
        call_ensures(PlayerState::volume_down, (down,), ()),
    ensures
        final(up).volume <= 150,
        old(up).volume <= 145 ==> final(up).volume == old(up).volume + 5,
        old(up).volume > 145 ==> final(up).volume == 150,
        old(down).volume >= 5 ==> final(down).volume == old(down).volume - 5,
        old(down).volume < 5 ==> final(down).volume == 0,
        old(down).volume == final(up).volume && old(up).volume <= 145 ==> final(down).volume == old(up).volume,
        final(up).balance == old(up).balance && final(down).balance == old(down).balance,
{
}

/// The balance goes in steps of five from side to side: left is less, right is
/// more.
pub proof fn balance_goes_in_steps(left: &mut PlayerState, right: &mut PlayerState)
    requires
        -100 <= old(left).balance <= 100,
        -100 <= old(right).balance <= 100,
        call_ensures(PlayerState::balance_left, (left,), ()),
        call_ensures(PlayerState::balance_right, (right,), ()),
    ensures
        -100 <= final(left).balance,
        final(right).balance <= 100,
        old(left).balance >= -95 ==> final(left).balance == old(left).balance - 5,
        old(right).balance <= 95 ==> final(right).balance == old(right).balance + 5,
        final(left).volume == old(left).volume && final(right).volume == old(right).volume,
{
}

/// Turning a band up or down changes that band alone, by what was asked for, within
/// twelve decibels either way; the curve is the listener's own from then on, and is
/// loaded.
pub proof fn a_nudge_moves_one_band(s: &mut PlayerState, band: usize, delta: i64, r: i32, other: int)
    requires
        band < EQ_BANDS,
        0 <= other < EQ_BANDS,
        other != band,
        call_ensures(PlayerState::nudge_eq_gain, (s, band, delta), r),
    ensures
        ({
            let want = old(s).eq_gains@[band as int] + delta;
            &&& -12000 <= want <= 12000 ==> r == want
            &&& want > 12000 ==> r == 12000
            &&& want < -12000 ==> r == -12000
        }),
        final(s).eq_gains@[band as int] == r,
        final(s).eq_gains@[other] == old(s).eq_gains@[other],
        final(s).eq_custom,
        final(s).eq.changed,
        final(s).volume == old(s).volume,
{
}

/// Stepping through the presets of the equaliser goes to the next or the one
/// before, round the ends, and takes the listener's own curve out of force.
pub proof fn presets_go_round(s: &mut PlayerState)
    requires
        old(s).eq.index < old(s).eq.count <= i32::MAX,
        call_ensures(PlayerState::step_eq_preset, (s, 1i32), ()),
    ensures
        old(s).eq.index + 1 < old(s).eq.count ==> final(s).eq.index == old(s).eq.index + 1,
        old(s).eq.index + 1 == old(s).eq.count ==> final(s).eq.index == 0,
        !final(s).eq_custom,
        final(s).eq.changed,
{
    let i = old(s).eq.index as int;
    let n = old(s).eq.count as int;
    assert((i + 1) % n == (if i + 1 < n {
        i + 1
    } else {
        0
    })) by (nonlinear_arith)
        requires
            0 <= i < n,
    ;
}

/// And back.
pub proof fn presets_go_round_the_other_way(s: &mut PlayerState)
    requires
        old(s).eq.index < old(s).eq.count <= i32::MAX,
        call_ensures(PlayerState::step_eq_preset, (s, -1i32), ()),
    ensures
        old(s).eq.index > 0 ==> final(s).eq.index == old(s).eq.index - 1,
        old(s).eq.index == 0 ==> final(s).eq.index == old(s).eq.count - 1,
        !final(s).eq_custom,
        final(s).eq.changed,
{
    let i = old(s).eq.index as int;
    let n = old(s).eq.count as int;
    assert((i - 1) % n == (if i > 0 {
        i - 1
    } else {
        n - 1
    })) by (nonlinear_arith)
        requires
            0 <= i < n,
    ;
}

/// A device is found by its whole name first, in any case, and the first of that
/// name; only where none has it, by a part of the name. No name finds nothing.
pub proof fn a_device_is_found_by_its_name(devices: Vec<(u32, String)>, wanted: &str, r: Option<u32>, k: int)
    requires
        call_ensures(audio::pick_device_id, (&devices, wanted), r),
        0 <= k < devices@.len(),
        text::folded(wanted@).len() > 0,
        text::folded(devices@[k].1@) == text::folded(wanted@),
        forall|i: int| 0 <= i < k ==> text::folded((#[trigger] devices@[i]).1@) != text::folded(wanted@),
    ensures
        r == Some(devices@[k].0),
{
    lemma_first_called(devices@, text::folded(wanted@), 0, k);
}

proof fn lemma_first_called(devices: Seq<(u32, String)>, want: Seq<char>, i: int, k: int)
    requires
        0 <= i <= k < devices.len(),
        text::folded(devices[k].1@) == want,
        forall|m: int| i <= m < k ==> text::folded((#[trigger] devices[m]).1@) != want,
    ensures
        audio::first_called(devices, want, i) == Some(devices[k].0),
    decreases k - i,
{
    if i < k {
        assert(text::folded(devices[i].1@) != want);
        lemma_first_called(devices, want, i + 1, k);
    }
}

proof fn lemma_none_called(devices: Seq<(u32, String)>, want: Seq<char>, i: int)
    requires
        0 <= i <= devices.len(),
        forall|m: int| i <= m < devices.len() ==> text::folded((#[trigger] devices[m]).1@) != want,
    ensures
        audio::first_called(devices, want, i) is None,
    decreases devices.len() - i,
{
    if i < devices.len() {
        assert(text::folded(devices[i].1@) != want);
        lemma_none_called(devices, want, i + 1);
    }
}

proof fn lemma_first_resembling(devices: Seq<(u32, String)>, want: Seq<char>, i: int, k: int)
    requires
        0 <= i <= k < devices.len(),
        text::has_text(text::folded(devices[k].1@), want),
        forall|m: int| i <= m < k ==> !text::has_text(text::folded((#[trigger] devices[m]).1@), want),
    ensures
        audio::first_resembling(devices, want, i) == Some(devices[k].0),
    decreases k - i,
{
    if i < k {
        assert(!text::has_text(text::folded(devices[i].1@), want));
        lemma_first_resembling(devices, want, i + 1, k);
    }
}

/// Where no device has the whole name, the first whose name holds it is taken.
pub proof fn a_part_of_the_name_will_do(devices: Vec<(u32, String)>, wanted: &str, r: Option<u32>, k: int)
    requires
        call_ensures(audio::pick_device_id, (&devices, wanted), r),
        0 <= k < devices@.len(),
        text::folded(wanted@).len() > 0,
        forall|i: int| 0 <= i < devices@.len() ==> text::folded((#[trigger] devices@[i]).1@) != text::folded(wanted@),
        text::has_text(text::folded(devices@[k].1@), text::folded(wanted@)),
        forall|i: int|
            0 <= i < k ==> !text::has_text(text::folded((#[trigger] devices@[i]).1@), text::folded(wanted@)),
    ensures
        r == Some(devices@[k].0),
{
    lemma_none_called(devices@, text::folded(wanted@), 0);
    lemma_first_resembling(devices@, text::folded(wanted@), 0, k);
}

proof fn lemma_largest(rates: Seq<u32>, n: int)
    requires
        0 <= n <= rates.len(),
    ensures
        forall|i: int| 0 <= i < n ==> #[trigger] rates[i] <= audio::largest(rates, n),
        n > 0 ==> exists|i: int| 0 <= i < n && #[trigger] rates[i] == audio::largest(rates, n) || audio::largest(
            rates,
            n,
        ) == 0,
    decreases n,
{
    if n > 0 {
        lemma_largest(rates, n - 1);
        assert(rates[n - 1] <= audio::largest(rates, n));
        if audio::largest(rates, n) == audio::largest(rates, n - 1) && n > 1 {
            let i = choose|i: int|
                0 <= i < n - 1 && #[trigger] rates[i] == audio::largest(rates, n - 1) || audio::largest(rates, n - 1) == 0;
            assert(rates[i] == audio::largest(rates, n) || audio::largest(rates, n) == 0);
        }
    }
}

/// The highest rate of a device is not below any that it has; without any it is
/// taken for 48 kHz.
pub proof fn the_highest_rate_is_the_highest(maxima: Vec<u32>, r: u32, i: int)
    requires
        call_ensures(audio::max_supported_rate, (&maxima,), r),
    ensures
        0 <= i < maxima@.len() ==> maxima@[i] <= r,
        maxima@.len() == 0 ==> r == 48000,
{
    lemma_largest(maxima@, maxima@.len() as int);
}

/// The device is brought to a file's rate only where it can be: on Windows it stays
/// where it is, on Linux the rate is simply used, and on macOS a device that has
/// the rate, and is no Bluetooth one, is asked for it.
pub proof fn devices_are_switched_where_they_can_be(
    platform: Platform,
    desired: u32,
    current: u32,
    bluetooth: bool,
    ranges: Vec<(u32, u32)>,
    r: RateSwitch,
    k: int,
)
    requires
        call_ensures(audio::set_output_sample_rate, (platform, desired, current, Some((bluetooth, ranges))), r),
        desired != current,
    ensures
        platform is Windows ==> r == RateSwitch::Stay(current),
        platform is Linux ==> r == RateSwitch::Use(desired),
        platform is MacOs && bluetooth ==> r == RateSwitch::Stay(current),
        platform is MacOs && !bluetooth && 0 <= k < ranges@.len() && ranges@[k].0 <= desired <= ranges@[k].1 ==> r
            == RateSwitch::Ask(desired),
        r == RateSwitch::Ask(desired) ==> exists|m: int|
            0 <= m < ranges@.len() && (#[trigger] ranges@[m]).0 <= desired <= ranges@[m].1,
{
}

/// A rate is gone on with only where the device says that it got there.
pub proof fn a_switch_is_believed_where_it_worked(desired: u32, current: u32, got: Option<u32>, r: u32)
    requires
        call_ensures(audio::rate_after_switch, (desired, current, got), r),
    ensures
        got == Some(desired) ==> r == desired,
        got != Some(desired) ==> r == current,
{
}

/// In exclusive mode a file's rate is reached where the device has it, and its highest
/// where the file's is above that; a device that is fixed stays where it is.
pub proof fn exclusive_mode_follows_the_file(caps: RateCaps, desired: u32, current: u32, r: u32, k: int)
    requires
        call_ensures(RateCaps::exclusive_target_rate, (&caps, desired, current), r),
    ensures
        caps.fixed ==> r == current,
        !caps.fixed && desired <= caps.max && caps.any ==> r == desired,
        !caps.fixed && desired <= caps.max && 0 <= k < caps.ranges@.len() && caps.ranges@[k].0 <= desired
            <= caps.ranges@[k].1 ==> r == desired,
        !caps.fixed && desired > caps.max && caps.any ==> r == caps.max,
        r != current ==> r <= caps.max && r <= desired,
{
}

/// A preset's gains are taken band by band, none where it has none, and never more
/// than twelve decibels; its own bands come ahead of gains.
pub proof fn presets_are_taken_band_by_band(preset: EqPreset, b: Vec<BandSettings>, i: int)
    requires
        call_ensures(EqPreset::bands_10, (&preset,), b),
        0 <= i < EQ_BANDS,
    ensures
        b@.len() == EQ_BANDS,
        -12000 <= b@[i].gain <= 12000,
        preset.bands@.len() == 0 && i < preset.gains@.len() && -12000 <= preset.gains@[i] <= 12000 ==> b@[i].gain
            == preset.gains@[i] && b@[i].kind is Peak,
        preset.bands@.len() == 0 && i >= preset.gains@.len() ==> b@[i].gain == 0,
        i < preset.bands@.len() ==> b@[i].kind == preset.bands@[i].kind,
        i < preset.bands@.len() && 20_000 <= preset.bands@[i].freq <= 20_000_000 ==> b@[i].freq
            == preset.bands@[i].freq,
        preset.bands@.len() > 0 && i >= preset.bands@.len() ==> b@[i].gain == 0 && b@[i].kind is Peak,
{
}

/// The usual bands stand an octave apart, each twice as high as the one before, to
/// the nearest round number.
pub proof fn bands_stand_an_octave_apart(i: usize, low: u32, high: u32)
    requires
        i + 1 < EQ_BANDS,
        call_ensures(equalizer::eq_freq, (i,), low),
        call_ensures(equalizer::eq_freq, ((i + 1) as usize,), high),
    ensures
        2 * low <= high <= 2 * low + low / 32,
{
}

/// The presets that are always there: the first is flat, a boost of the bass or the
/// treble raises those bands and lowers none.
pub proof fn built_in_presets_do_what_they_are_called(r: Vec<EqPreset>, i: int, k: int)
    requires
        call_ensures(equalizer::builtin_presets, (), r),
        0 <= i < r@.len(),
        0 <= k < EQ_BANDS,
    ensures
        r@.len() > 0 && r@[0].name@ == "Flat"@,
        r@[i].gains@.len() == EQ_BANDS,
        r@[i].name@ == "Flat"@ ==> r@[i].gains@[k] == 0,
        r@[i].name@ == "Bass Boost"@ ==> r@[i].gains@[k] >= 0 && (k < 4 <==> r@[i].gains@[k] > 0),
        r@[i].name@ == "Treble Boost"@ ==> r@[i].gains@[k] >= 0 && (k >= 7 <==> r@[i].gains@[k] > 0),
        r@[i].name@ == "Vocal"@ ==> (5 <= k <= 8 <==> r@[i].gains@[k] > 0),
        r@[i].name@ == "Loudness"@ ==> r@[i].gains@[k] >= 0 && r@[i].gains@[0] > 0 && r@[i].gains@[9] > 0
            && r@[i].gains@[5] == 0,
{
    reveal_strlit("Flat");
    reveal_strlit("Bass Boost");
    reveal_strlit("Treble Boost");
    reveal_strlit("Vocal");
    reveal_strlit("Loudness");
    assert(r@[i].name@ == equalizer::builtin(i).0);
    assert(r@[0].name@ == equalizer::builtin(0).0);
    assert("Vocal"@[0] == 'V' && "Bass Boost"@[0] == 'B' && "Treble Boost"@[0] == 'T' && "Flat"@[0] == 'F'
        && "Loudness"@[0] == 'L');
}

/// A band does something where it cuts off a side of the spectrum, or where it has
/// a gain that can be heard.
pub proof fn bands_that_do_nothing_are_known(b: BandSettings, r: bool)
    requires
        call_ensures(BandSettings::is_effective, (&b,), r),
    ensures
        b.kind is LowCut || b.kind is HighCut ==> r,
        (b.kind is Peak || b.kind is LowShelf || b.kind is HighShelf) && b.gain == 0 ==> !r,
        b.gain >= 10 || b.gain <= -10 ==> r,
{
}

/// Frequencies read as they are spoken: whole hertz below a kilohertz, kilohertz
/// with a `k` from there on.
pub proof fn frequencies_read_as_they_are_spoken(hertz: u32, s: String)
    requires
        hertz <= 20_000,
        call_ensures(equalizer::format_freq, ((hertz * 1000) as u32,), s),
    ensures
        hertz < 1000 ==> s@ == text::dec(hertz as nat),
        hertz >= 1000 && hertz % 1000 == 0 ==> s@ == text::dec((hertz / 1000) as nat) + "k"@,
{
}

/// What is pushed next is as much as there is room for and as is left; nothing once
/// someone waits for the decoder, and a short sleep where there is no room.
pub proof fn pushing_goes_by_the_room(s: PlayerState, free: usize, left: usize, r: Push)
    requires
        call_ensures(decode::push_all, (&s, free, left), r),
    ensures
        s.transport.quit || s.transport.skip_prev || s.transport.jump_to_track is Some ==> r is Over,
        left == 0 ==> r is Over,
        r matches Push::Take(n) ==> 0 < n <= free && n <= left && (n == free || n == left),
        left > 0 && free == 0 && !s.transport.quit && !s.transport.skip_prev && s.transport.jump_to_track is None
            ==> r is Sleep,
        left > 0 && free > 0 && !s.transport.quit && !s.transport.skip_prev && s.transport.jump_to_track is None
            ==> r is Take,
{
}

/// The wait for the ring to be drained ends with the drain, or after a quarter of a
/// second, or where someone waits for the decoder.
pub proof fn the_wait_for_a_drain_ends(s: PlayerState, looks: u32, r: Wait)
    requires
        call_ensures(decode::await_consumer_drain, (&s, looks), r),
    ensures
        !s.producer.reset_consumer_counter ==> r is Over,
        looks >= 50 ==> r is Over,
        s.transport.quit || s.transport.skip_prev || s.transport.jump_to_track is Some ==> r is Over,
        r matches Wait::Sleep(ms) ==> 50 * ms == 250,
        s.producer.reset_consumer_counter && looks < 50 && !s.transport.quit && !s.transport.skip_prev
            && s.transport.jump_to_track is None ==> r is Sleep,
{
}

/// What comes out of a resampler at the end is used until nothing is owed any more,
/// and never more than is owed.
pub proof fn a_resampler_gives_what_it_owes(wanted: u128, came: usize, r: Flush)
    requires
        call_ensures(decode::flush_resampler, (wanted, came), r),
    ensures
        wanted == 0 || came == 0 ==> r is Over,
        r matches Flush::Use { take, left } ==> take + left == wanted && 0 < take <= came && (left == 0 || take == came),
        wanted > 0 && came > 0 ==> r is Use,
{
}

/// Kinds of bands come round after five steps, and a step back undoes a step.
pub proof fn kinds_of_bands_come_round(k: BandType, up: BandType, back: BandType)
    requires
        call_ensures(BandType::cycled, (k, 1i32), up),
        call_ensures(BandType::cycled, (up, -1i32), back),
    ensures
        back == k,
        up != k,
{
}

/// The time that is shown is the number of whole seconds that were heard, and that of
/// a track the number that it has.
pub proof fn time_goes_by_seconds(s: PlayerState, t: u64, total: u64)
    requires
        call_ensures(PlayerState::time_secs, (&s,), t),
        call_ensures(PlayerState::total_secs, (&s,), total),
    ensures
        s.track.output_rate > 0 ==> t * s.track.output_rate <= s.track.samples_played < (t + 1) * s.track.output_rate,
        s.track.sample_rate > 0 ==> total * s.track.sample_rate <= s.track.total_samples < (total + 1)
            * s.track.sample_rate,
        s.track.output_rate == 0 ==> t == 0,
        s.track.sample_rate == 0 ==> total == 0,
{
    if s.track.output_rate > 0 {
        lemma_whole(s.track.samples_played as int, s.track.output_rate as int);
    }
    if s.track.sample_rate > 0 {
        lemma_whole(s.track.total_samples as int, s.track.sample_rate as int);
    }
}

proof fn lemma_whole(a: int, b: int)
    requires
        a >= 0,
        b > 0,
    ensures
        a / b * b <= a < (a / b + 1) * b,
{
    let q = a / b;
    assert(q * b <= a < (q + 1) * b) by (nonlinear_arith)
        requires
            a >= 0,
            b > 0,
            q == a / b,
    ;
}

/// What is asked for is handed over once, as it was asked for.
pub proof fn requests_are_handed_over_once(
    s: &mut PlayerState,
    secs: i64,
    t: &mut PlayerState,
    a: i64,
    u: &mut PlayerState,
    b: i64,
)
    requires
        call_ensures(PlayerState::seek, (s, secs), ()),
        *final(s) == *old(t),
        call_ensures(PlayerState::take_seek, (t,), a),
        *final(t) == *old(u),
        call_ensures(PlayerState::take_seek, (u,), b),
    ensures
        a == secs,
        b == 0,
        final(u).transport.skip_next == old(s).transport.skip_next && final(u).volume == old(s).volume,
{
}

/// So is a jump.
pub proof fn jumps_are_handed_over_once(
    s: &mut PlayerState,
    i: usize,
    t: &mut PlayerState,
    a: Option<usize>,
    u: &mut PlayerState,
    b: Option<usize>,
)
    requires
        call_ensures(PlayerState::jump_to, (s, i), ()),
        *final(s) == *old(t),
        call_ensures(PlayerState::take_jump, (t,), a),
        *final(t) == *old(u),
        call_ensures(PlayerState::take_jump, (u,), b),
    ensures
        a == Some(i),
        b is None,
        final(u).transport.seek_request == old(s).transport.seek_request,
{
}

/// And so are skips, each way for itself.
pub proof fn skips_are_handed_over_once(
    s: &mut PlayerState,
    t: &mut PlayerState,
    a: bool,
    u: &mut PlayerState,
    b: bool,
)
    requires
        call_ensures(PlayerState::next, (s,), ()),
        *final(s) == *old(t),
        call_ensures(PlayerState::take_skip_next, (t,), a),
        *final(t) == *old(u),
        call_ensures(PlayerState::take_skip_prev, (u,), b),
    ensures
        a,
        b == old(s).transport.skip_prev,
        !final(u).transport.skip_next && !final(u).transport.skip_prev,
{
}

/// A player starts with everything as it is usual: nothing asked for, at full volume,
/// from both sides, with nothing repeated.
pub proof fn a_player_starts_as_usual(s: PlayerState)
    requires
        call_ensures(PlayerState::new, (), s),
    ensures
        s.volume == 100 && s.balance == 0,
        !s.transport.paused && !s.transport.quit && !s.transport.skip_next && !s.transport.skip_prev,
        s.transport.seek_request == 0 && s.transport.jump_to_track is None && s.transport.repeat_mode is Off,
        s.rg_mode is Track && s.crossfade_secs == 0 && !s.eq_custom && s.eq.index == 0,
        s.look.theme is Classic && s.look.viz_mode is Off,
{
}

/// A device is found by a part of its name, whatever its capitals, and the first such.
pub proof fn outputs_are_found_by_name(names: Vec<Option<String>>, name: &str, r: Option<usize>, k: int)
    requires
        call_ensures(audio::find_device_by_name, (&names, name), r),
        0 <= k < names@.len(),
        names@[k] matches Some(n) && text::has_text(text::folded(n@), text::folded(name@)),
        forall|i: int|
            0 <= i < k ==> !((#[trigger] names@[i]) matches Some(n) && text::has_text(
                text::folded(n@),
                text::folded(name@),
            )),
    ensures
        r == Some(k as usize),
{
    lemma_first_holding(names@, text::folded(name@), 0, k);
}

proof fn lemma_first_holding(names: Seq<Option<String>>, want: Seq<char>, i: int, k: int)
    requires
        0 <= i <= k < names.len(),
        names[k] matches Some(n) && text::has_text(text::folded(n@), want),
        forall|m: int|
            i <= m < k ==> !((#[trigger] names[m]) matches Some(n) && text::has_text(text::folded(n@), want)),
    ensures
        audio::first_holding(names, want, i) == Some(k),
    decreases k - i,
{
    if i < k {
        assert(!(names[i] matches Some(n) && text::has_text(text::folded(n@), want)));
        lemma_first_holding(names, want, i + 1, k);
    }
}

/// Bluetooth on macOS runs at its own rate, and nothing is fixed elsewhere.
pub proof fn bluetooth_has_its_rate(
    platform: Platform,
    bluetooth: bool,
    ranges: Vec<(u32, u32)>,
    max: u32,
    r: Option<u32>,
    caps: RateCaps,
)
    requires
        call_ensures(audio::fix_bluetooth_sample_rate, (platform, bluetooth), r),
        call_ensures(RateCaps::probe, (platform, ranges, max, bluetooth), caps),
    ensures
        platform is MacOs && bluetooth ==> r == Some(48000u32) && caps.fixed,
        !(platform is MacOs && bluetooth) ==> r is None,
        platform is MacOs && !bluetooth ==> !caps.fixed,
        platform is Windows ==> caps.fixed,
        platform is Linux ==> caps.any && !caps.fixed,
        caps.any ==> platform is Linux,
        caps.max == max,
{
}

/// Only macOS hands a device over, and only one that it knows.
pub proof fn devices_are_taken_alone_on_macos(
    platform: Platform,
    id: u32,
    some: Result<u32, ExclusiveError>,
    none: Result<u32, ExclusiveError>,
    back: Option<u32>,
)
    requires
        call_ensures(audio::set_exclusive_mode, (platform, Some(id)), some),
        call_ensures(audio::set_exclusive_mode, (platform, None), none),
        call_ensures(audio::release_exclusive_mode, (platform, id), back),
    ensures
        platform is MacOs ==> some == Ok::<u32, ExclusiveError>(id) && none == Err::<u32, ExclusiveError>(
            ExclusiveError::NoDevice,
        ) && back == Some(id),
        platform !is MacOs ==> some == Err::<u32, ExclusiveError>(ExclusiveError::NotSupported) && back is None,
{
}

/// The clock goes on by a frame for every two samples, once what was queued before the
/// track has been heard.
pub proof fn the_clock_counts_frames(s: &mut PlayerState, samples: usize)
    requires
        call_ensures(audio::count_played, (s, samples), ()),
        old(s).track.samples_played + samples <= u64::MAX,
    ensures
        old(s).producer.clock_preroll == 0 ==> final(s).track.samples_played == old(s).track.samples_played + samples
            / 2,
        samples / 2 <= old(s).producer.clock_preroll ==> final(s).track.samples_played == old(s).track.samples_played
            && final(s).producer.clock_preroll == old(s).producer.clock_preroll - samples / 2,
        samples / 2 > old(s).producer.clock_preroll ==> final(s).track.samples_played + old(s).producer.clock_preroll
            == old(s).track.samples_played + samples / 2 && final(s).producer.clock_preroll == 0,
        final(s).transport == old(s).transport,
{
}

/// A frame is taken from the first piece of the ring as long as that lasts, then from
/// the second; none is taken twice.
pub proof fn frames_come_one_after_another(f: usize, first: usize, r: (bool, usize), n: (bool, usize))
    requires
        f < usize::MAX / 2,
        first % 2 == 0,
        call_ensures(audio::frame_source, (f, first), r),
        call_ensures(audio::frame_source, ((f + 1) as usize, first), n),
    ensures
        r.0 <==> 2 * f >= first,
        f == 0 && first > 0 ==> r == (false, 0usize),
        r.0 == n.0 ==> n.1 == r.1 + 2,
        r.0 != n.0 ==> !r.0 && n.0 && n.1 == 0 && r.1 + 2 == first,
{
}

/// In the list of what a device offers each kind stands once, with all its rates from
/// low to high.
pub proof fn offers_are_grouped(configs: Vec<OutputConfig>, groups: Vec<RateGroup>, i: int, g: int, h: int)
    requires
        call_ensures(audio::group_configs, (&configs,), groups),
        0 <= i < configs@.len(),
        0 <= g < h < groups@.len(),
    ensures
        groups@[g].channels != groups@[h].channels || groups@[g].format@ != groups@[h].format@,
        groups@[g].channels == configs@[i].channels && groups@[g].format@ == configs@[i].format@
            ==> groups@[g].rates@.contains(configs@[i].low) && groups@[g].rates@.contains(configs@[i].high),
        forall|a: int, b: int|
            0 <= a < b < groups@[g].rates@.len() ==> #[trigger] groups@[g].rates@[a] < #[trigger] groups@[g].rates@[b],
{
    let n = configs@.len() as int;
    lemma_kinds(configs@, n, g, h);
    let r = groups@[g];
    let t = groups@[h];
    assert((r.channels, r.format@) == audio::kinds(configs@, n)[g]);
    assert((t.channels, t.format@) == audio::kinds(configs@, n)[h]);
    if groups@[g].channels == configs@[i].channels && groups@[g].format@ == configs@[i].format@ {
        assert(audio::of_kind(configs@[i], r.channels, r.format@));
        assert(audio::kind_has_rate(configs@, n, r.channels, r.format@, configs@[i].low));
        assert(audio::kind_has_rate(configs@, n, r.channels, r.format@, configs@[i].high));
    }
}

proof fn lemma_kinds_seen(configs: Seq<OutputConfig>, n: int, g: int)
    requires
        0 <= n <= configs.len(),
        0 <= g < audio::kinds(configs, n).len(),
    ensures
        exists|i: int|
            0 <= i < n && (configs[i].channels, (#[trigger] configs[i]).format@) == audio::kinds(configs, n)[g],
    decreases n,
{
    let c = configs[n - 1];
    let head = audio::kinds(configs, n - 1);
    if g < head.len() {
        lemma_kinds_seen(configs, n - 1, g);
        let i = choose|i: int| 0 <= i < n - 1 && (configs[i].channels, (#[trigger] configs[i]).format@) == head[g];
        assert((configs[i].channels, configs[i].format@) == audio::kinds(configs, n)[g]);
    } else {
        assert((configs[n - 1].channels, configs[n - 1].format@) == audio::kinds(configs, n)[g]);
    }
}

proof fn lemma_kinds(configs: Seq<OutputConfig>, n: int, g: int, h: int)
    requires
        0 <= n <= configs.len(),
        0 <= g < h < audio::kinds(configs, n).len(),
    ensures
        audio::kinds(configs, n)[g] != audio::kinds(configs, n)[h],
    decreases n,
{
    let c = configs[n - 1];
    let head = audio::kinds(configs, n - 1);
    if h < head.len() {
        lemma_kinds(configs, n - 1, g, h);
    } else {
        lemma_kinds_seen(configs, n - 1, g);
        let i = choose|i: int| 0 <= i < n - 1 && (configs[i].channels, (#[trigger] configs[i]).format@) == head[g];
        if head[g] == (c.channels, c.format@) {
            assert(audio::of_kind(configs[i], c.channels, c.format@));
        }
    }
}

/// A gain reads without its unit, in any case and with space before it; a peak has no
/// unit.
pub proof fn gains_read_without_their_unit(slot: RgSlot, s: &str, num: Seq<char>, d: char, b: char, r: String)
    requires
        call_ensures(decode::rg_text, (slot, s), r),
        num.len() > 0,
        '!' <= num.first() && num.first() <= '~',
        '!' <= num.last() && num.last() <= '~',
        d == 'd' || d == 'D',
        b == 'b' || b == 'B',
        s@ == num + seq![' ', d, b],
    ensures
        slot is TrackGain || slot is AlbumGain ==> r@ == num,
        slot is TrackPeak || slot is AlbumPeak ==> r@ == s@,
{
    let t = s@;
    let n = t.len() as int;
    assert(t.first() == num.first());
    assert(t.last() == b);
    lyrics_laws::lemma_plain_is_trimmed(t);
    assert(t[n - 2] == d && t[n - 1] == b);
    let head = t.take(n - 2);
    assert(head =~= num.push(' '));
    lemma_trim_behind(num);
}

proof fn lemma_trim_behind(num: Seq<char>)
    requires
        num.len() > 0,
        '!' <= num.first() && num.first() <= '~',
        '!' <= num.last() && num.last() <= '~',
    ensures
        text::trimmed(num.push(' ')) == num,
{
    let s = num.push(' ');
    let n = s.len() as int;
    assert(s[n - 1] == ' ');
    assert(s[n - 2] == num.last());
    assert(s[0] == num.first());
    lyrics_laws::lemma_not_white(num.last());
    lyrics_laws::lemma_not_white(num.first());
    assert(text::white_end(s, n - 1) == n - 1);
    assert(text::is_white(' '));
    assert(text::white_end(s, n) == n - 1);
    assert(text::white_start(s, 0, n - 1) == 0);
    assert(s.subrange(0, n - 1) =~= num);
}

/// A number without a unit reads as it is.
pub proof fn bare_gains_read_as_they_are(slot: RgSlot, s: &str, r: String)
    requires
        call_ensures(decode::rg_text, (slot, s), r),
        s@.len() > 0,
        '!' <= s@.first() && s@.first() <= '~',
        '0' <= s@.last() && s@.last() <= '9',
    ensures
        r@ == s@,
{
    lyrics_laws::lemma_plain_is_trimmed(s@);
}

proof fn lemma_plane(samples: Seq<u32>, ch: int, c: int, k: int)
    requires
        0 <= c < ch,
        0 <= k,
        k * ch <= samples.len(),
    ensures
        decode::plane(samples, ch, c, k * ch).len() == k,
        forall|i: int|
            0 <= i < k ==> #[trigger] decode::plane(samples, ch, c, k * ch)[i] == samples[i * ch + c],
    decreases k,
{
    if k > 0 {
        assert((k - 1) * ch + ch == k * ch) by (nonlinear_arith);
        assert((k - 1) * ch >= 0) by (nonlinear_arith)
            requires
                k > 0,
                ch > 0,
        ;
        lemma_plane(samples, ch, c, k - 1);
        lemma_plane_part(samples, ch, c, k - 1, ch);
    } else {
        assert(0 * ch == 0) by (nonlinear_arith);
    }
}

proof fn lemma_plane_part(samples: Seq<u32>, ch: int, c: int, k: int, m: int)
    requires
        0 <= c < ch,
        0 <= k,
        0 <= m <= ch,
        k * ch >= 0,
        k * ch + m <= samples.len(),
    ensures
        decode::plane(samples, ch, c, k * ch + m) == (if m > c {
            decode::plane(samples, ch, c, k * ch).push(samples[k * ch + c])
        } else {
            decode::plane(samples, ch, c, k * ch)
        }),
    decreases m,
{
    if m > 0 {
        lemma_plane_part(samples, ch, c, k, m - 1);
        assert((k * ch + (m - 1)) % ch == m - 1) by {
            vstd::arithmetic::div_mod::lemma_fundamental_div_mod_converse(k * ch + (m - 1), ch, k, m - 1);
        }
    }
}

/// Interleaved samples are taken apart channel by channel, each in its order.
pub proof fn channels_are_taken_apart(samples: Vec<u32>, ch: usize, out: Vec<Vec<u32>>, c: int, i: int, frames: int)
    requires
        ch > 0,
        call_ensures(decode::deinterleave_into, (&samples, ch), out),
        samples@.len() == frames * ch,
        0 <= c < ch,
        0 <= i < frames,
    ensures
        out@.len() == ch,
        out@[c]@.len() == frames,
        out@[c]@[i] == samples@[i * ch + c],
{
    lemma_plane(samples@, ch as int, c, frames);
    assert(out@[c]@ == decode::plane(samples@, ch as int, c, samples@.len() as int));
}

/// What is held back is the newest, as much as was asked for; what falls off its front
/// is played, and nothing is lost.
pub proof fn the_newest_is_held_back(tail: &mut VecDeque<u32>, fresh: Vec<u32>, hold: usize, out: Vec<u32>)
    requires
        call_ensures(decode::hold_back, (tail, &fresh, hold), out),
    ensures
        out@ + final(tail)@ == old(tail)@ + fresh@,
        final(tail)@.len() <= hold,
        out@.len() > 0 ==> final(tail)@.len() == hold,
{
    assert((out@ + final(tail)@).len() == (old(tail)@ + fresh@).len());
}

/// A resampler owes its delay and every frame of its input at the rate it comes out.
pub proof fn a_resampler_owes_every_frame(pending: usize, out_rate: u32, in_rate: u32, delay: usize, r: u128)
    requires
        in_rate > 0,
        call_ensures(decode::frames_to_flush, (pending, out_rate, in_rate, delay), r),
    ensures
        (r - delay) * in_rate >= pending * out_rate,
        (r - delay) * in_rate < pending * out_rate + in_rate,
        pending == 0 ==> r == delay,
{
    let p = pending * out_rate;
    assert(p >= 0) by (nonlinear_arith)
        requires
            p == pending * out_rate,
            pending >= 0,
            out_rate >= 0,
    ;
    let q = (p + in_rate - 1) / (in_rate as int);
    lemma_whole(p + in_rate - 1, in_rate as int);
    assert((q + 1) * in_rate == q * in_rate + in_rate) by (nonlinear_arith);
    if pending == 0 {
        assert(0 * out_rate == 0) by (nonlinear_arith);
        let n = in_rate as int;
        assert((n - 1) / n == 0) by (nonlinear_arith)
            requires
                n > 0,
        ;
    }
}

/// Bands are kept within what can be heard and what the filters bear: from 20 hertz to
/// 20 kilohertz, twelve decibels either way, and a width from three tenths to ten.
pub proof fn bands_are_kept_within_bounds(b: BandSettings, r: BandSettings)
    requires
        call_ensures(BandSettings::clamped, (b,), r),
    ensures
        20_000 <= r.freq <= 20_000_000,
        -12_000 <= r.gain <= 12_000,
        300 <= r.q <= 10_000,
        r.kind == b.kind,
        20_000 <= b.freq <= 20_000_000 ==> r.freq == b.freq,
        -12_000 <= b.gain <= 12_000 ==> r.gain == b.gain,
        300 <= b.q <= 10_000 ==> r.q == b.q,
        b.gain > 12_000 ==> r.gain == 12_000,
        b.gain < -12_000 ==> r.gain == -12_000,
{
}

/// The bands that are in force are those set by hand where they are, with the gains
/// that are shown, and else those of the preset that is chosen.
pub proof fn bands_in_force_are_the_chosen_ones(
    s: PlayerState,
    presets: Vec<EqPreset>,
    custom: Vec<BandSettings>,
    preamp: i32,
    r: (Vec<BandSettings>, i32),
    chosen: EqPreset,
    b: Vec<BandSettings>,
    i: int,
)
    requires
        call_ensures(equalizer::bands_in_force, (&s, &presets, &custom, preamp), r),
        s.eq.index < presets@.len(),
        chosen == presets@[s.eq.index as int],
        call_ensures(EqPreset::bands_10, (&chosen,), b),
        0 <= i < EQ_BANDS,
    ensures
        ({
            let (bands, gain) = r;
            &&& bands@.len() == EQ_BANDS
            &&& !s.eq_custom ==> bands@[i] == b@[i]
            &&& s.eq_custom ==> bands@[i].gain == s.eq_gains@[i]
            &&& s.eq_custom && i < custom@.len() ==> bands@[i].kind == custom@[i].kind && bands@[i].freq == custom@[i].freq
            &&& s.eq_custom ==> gain == preamp
            &&& !s.eq_custom && -12_000 <= chosen.preamp <= 12_000 ==> gain == chosen.preamp
        }),
{
    let (bands, gain) = r;
    assert(bands@[i] == equalizer::band_in_force(s, presets@, custom@, i));
    assert(b@[i] == chosen.band_at(i));
}

/// A curve does something where a band does, or where the whole is louder or softer.
pub proof fn flat_curves_are_known(bands: Vec<BandSettings>, preamp: i32, r: bool, k: int)
    requires
        call_ensures(equalizer::preset_is_active, (&bands, preamp), r),
    ensures
        preamp >= 10 || preamp <= -10 ==> r,
        0 <= k < bands@.len() && (bands@[k].gain >= 10 || bands@[k].gain <= -10) ==> r,
        0 <= k < bands@.len() && (bands@[k].kind is LowCut || bands@[k].kind is HighCut) ==> r,
        preamp == 0 && (forall|i: int| 0 <= i < bands@.len() ==> (#[trigger] bands@[i]).gain == 0 && bands@[i].kind is Peak)
            ==> !r,
{
    if 0 <= k < bands@.len() && (bands@[k].gain >= 10 || bands@[k].gain <= -10 || bands@[k].kind is LowCut
        || bands@[k].kind is HighCut) {
        assert(bands@[k].effective());
    }
}

/// As many frames are written as both pieces of the ring hold, and as fit.
pub proof fn frames_are_written_as_far_as_they_fit(first: usize, second: usize, len: usize, channels: usize, r: usize)
    requires
        first + second <= usize::MAX,
        len + channels <= usize::MAX,
        call_ensures(audio::frames_written, (first, second, len, channels), r),
    ensures
        r <= first / 2 + second / 2,
        channels == 0 ==> r == 0,
        channels == 1 ==> r <= len,
        channels == 2 && len % 2 == 0 ==> 2 * r <= len,
        channels == 1 && len >= first / 2 + second / 2 ==> r == first / 2 + second / 2,
        channels == 2 && len % 2 == 0 && len / 2 >= first / 2 + second / 2 ==> r == first / 2 + second / 2,
{
}

/// What is shown is taken off what is heard: as it is in stereo, and else its first two
/// channels, where there is room.
pub proof fn what_is_shown_is_what_is_heard(
    frames: usize,
    channels: usize,
    plain: bool,
    len: usize,
    free: usize,
    r: Tap,
)
    requires
        frames <= usize::MAX / 2,
        call_ensures(audio::tap_plan, (frames, channels, plain, len, free), r),
    ensures
        frames == 0 ==> r is Nothing,
        frames > 0 && channels == 2 && plain && 2 * frames <= len ==> r == Tap::Copy((2 * frames) as usize),
        frames > 0 && channels != 2 && free >= 2 * frames ==> r == Tap::Scale((2 * frames) as usize),
        frames > 0 && channels != 2 && free < 2 * frames ==> r is Nothing,
        r is Copy ==> channels == 2 && plain,
{
}

/// Gains of a preset come band by band, none where it has none, within twelve decibels;
/// so does the gain ahead of them.
pub proof fn gains_come_band_by_band(p: EqPreset, g: Vec<i32>, pre: i32, i: int, slot: usize, idle: BandSettings)
    requires
        call_ensures(EqPreset::gains_10, (&p,), g),
        call_ensures(EqPreset::preamp_clamped, (&p,), pre),
        call_ensures(BandSettings::inert, (slot,), idle),
        0 <= i < EQ_BANDS,
    ensures
        g@.len() == EQ_BANDS,
        i < p.gains@.len() && -12000 <= p.gains@[i] <= 12000 ==> g@[i] == p.gains@[i],
        i >= p.gains@.len() ==> g@[i] == 0,
        -12000 <= g@[i] <= 12000 && -12000 <= pre <= 12000,
        -12000 <= p.preamp <= 12000 ==> pre == p.preamp,
        idle.gain == 0 && idle.kind is Peak,
{
    assert(g@[i] == equalizer::gain_at(p.gains@, i));
}

/// Cuts have no gain, and everything else has; kinds read back from their numbers.
pub proof fn cuts_have_no_gain(k: BandType, gain: bool, n: u8, back: BandType)
    requires
        call_ensures(BandType::uses_gain, (k,), gain),
        call_ensures(BandType::as_u8, (k,), n),
        call_ensures(BandType::from_u8, (n,), back),
    ensures
        gain <==> k is Peak || k is LowShelf || k is HighShelf,
        back == k,
        k is Peak ==> n == 0,
{
}

/// The curve has a point for every band, the higher the more it is turned up or down:
/// up in warm colours, down in a cold one, and a dot where nothing is done.
pub proof fn the_curve_rises_with_the_gain(g: int)
    ensures
        -100 <= g <= 100 ==> equalizer::curve_point(g).last() == '\u{b7}',
        1000 <= g <= 8000 && g % 1000 == 0 ==> equalizer::curve_point(g).last() as int == 0x2580 + g / 1000,
        -8000 <= g <= -1000 && g % 1000 == 0 ==> equalizer::curve_point(g).last() as int == 0x2580 + (-g) / 1000,
        g > 5000 ==> text::opens_with(equalizer::curve_point(g), "\x1B[31m"@),
        3000 < g <= 5000 ==> text::opens_with(equalizer::curve_point(g), "\x1B[33m"@),
        100 < g <= 3000 ==> text::opens_with(equalizer::curve_point(g), "\x1B[32m"@),
        g < -100 ==> text::opens_with(equalizer::curve_point(g), "\x1B[36m"@),
{
    let p = equalizer::curve_point(g);
    if g > 5000 {
        assert(p.take("\x1B[31m"@.len() as int) =~= "\x1B[31m"@);
    } else if g > 3000 {
        assert(p.take("\x1B[33m"@.len() as int) =~= "\x1B[33m"@);
    } else if g > 100 {
        assert(p.take("\x1B[32m"@.len() as int) =~= "\x1B[32m"@);
    } else if g < -100 {
        assert(p.take("\x1B[36m"@.len() as int) =~= "\x1B[36m"@);
    }
}

/// A curve that does nothing is not drawn.
pub proof fn flat_curves_are_not_drawn(bands: Vec<BandSettings>, gains: Vec<i32>, active: bool, r: String)
    requires
        call_ensures(equalizer::preset_is_active, (&bands, 0i32), active),
        call_ensures(equalizer::render_eq_curve, (&bands, &gains), r),
    ensures
        !active ==> r@.len() == 0,
        active ==> r@ == equalizer::curve(gains@, gains@.len() as int) + "\x1B[0m"@,
{
}

/// Chunks are taken whole; what is left of them waits. A tail that is released is given
/// back whole. Division rounds to the nearest.
pub proof fn chunks_are_taken_whole(
    pending: usize,
    chunk: usize,
    r: usize,
    tail: &mut VecDeque<u32>,
    out: Vec<u32>,
    s: PlayerState,
    leave: bool,
)
    requires
        chunk > 0,
        call_ensures(decode::whole_chunks, (pending, chunk), r),
        call_ensures(decode::release_tail, (tail,), out),
        call_ensures(decode::producer_should_unstick, (&s,), leave),
    ensures
        r <= pending < r + chunk,
        r as int % (chunk as int) == 0,
        out@ == old(tail)@ && final(tail)@.len() == 0,
        leave <==> s.transport.quit || s.transport.skip_prev || s.transport.jump_to_track is Some,
{
    let q = pending as int / chunk as int;
    vstd::arithmetic::div_mod::lemma_mod_multiples_basic(q, chunk as int);
}

/// Samples are queued in their order, as far as there is room, and none twice; none while
/// someone waits for the decoder.
pub proof fn samples_are_queued_in_order(
    ring: &mut rtrb::Producer<u32>,
    s: PlayerState,
    samples: Vec<u32>,
    done: usize,
    r: Push,
)
    requires
        done <= samples@.len(),
        call_ensures(ring::push_some, (ring, &s, &samples, done), r),
    ensures
        r matches Push::Take(n) ==> ring::pushed(*final(ring)) == ring::pushed(*old(ring)) + samples@.subrange(
            done as int,
            done + n,
        ) && n > 0,
        !(r is Take) ==> ring::pushed(*final(ring)) == ring::pushed(*old(ring)),
        s.transport.quit || s.transport.skip_prev || s.transport.jump_to_track is Some ==> r is Over,
        done == samples@.len() ==> r is Over,
{
    assert(ring::pushed(*old(ring)) + Seq::<u32>::empty() =~= ring::pushed(*old(ring)));
}

/// What is played comes from the ring in its order; paused, nothing does, and the clock
/// counts what was played.
pub proof fn samples_are_played_in_order(
    ring: &mut rtrb::Consumer<u32>,
    s: &mut PlayerState,
    len: usize,
    channels: usize,
    out: &mut Vec<u32>,
    first: usize,
)
    requires
        len * 2 <= usize::MAX,
        call_ensures(ring::next_samples, (ring, s, len, channels, out), first),
        !old(s).producer.reset_consumer_counter,
    ensures
        ring::taken(*final(ring)) == ring::taken(*old(ring)) + final(out)@,
        old(s).transport.paused ==> final(out)@.len() == 0 && final(s).track.samples_played
            == old(s).track.samples_played,
        channels > 0 ==> final(out)@.len() <= len as int / channels as int * 2,
        final(s).transport == old(s).transport,
{
    if old(s).transport.paused {
        assert((old(s).track.samples_played + 0) % 0x1_0000_0000_0000_0000 == old(s).track.samples_played);
    }
}

/// A crossfade reaches as far as the chunk and as what is left of it.
pub proof fn crossfades_end_in_time(pos: usize, total: usize, len: usize, r: usize)
    requires
        call_ensures(decode::crossfade_span, (pos, total, len), r),
    ensures
        r <= len,
        pos >= total ==> r == 0,
        pos < total ==> pos + r <= total && (r == len || pos + r == total),
{
}

} // verus!
