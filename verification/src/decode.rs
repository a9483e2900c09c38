//! What the decoder does with samples: when it waits for room, which stages a
//! chunk passes, how channels are mixed down, what is held back for a crossfade,
//! and which loudness tags count. What it does next is decided in
//! [`crate::producer`].
use crate::state::{PlayerState, RgMode};
use crate::text;
use crate::text::{chars_of, string_of, trim_text};
use std::collections::VecDeque;
use vstd::prelude::*;

verus! {

/// Whether the decoder must stop waiting and leave: someone is about to wait
/// for its thread to end.
pub open spec fn must_leave(s: PlayerState) -> bool {
    s.transport.quit || s.transport.skip_prev || s.transport.jump_to_track is Some
}

/// Whether the decoder must stop waiting and leave. Every wait of the decoder
/// asks this: where only the ring is looked at, a dead stream that never drains
/// it would hold up whoever waits for the decoder.
pub fn producer_should_unstick(state: &PlayerState) -> (r: bool)
    ensures
        r == must_leave(*state),
{
    state.transport.quit || state.transport.skip_prev || state.transport.jump_to_track.is_some()
}

/// A step of a wait for the audio callback to drain the ring.
#[derive(Clone, Copy, Debug, PartialEq, Eq, Structural)]
pub enum Wait {
    /// There is nothing left to wait for.
    Over,
    /// Look again after some milliseconds.
    Sleep(u64),
}

/// What to do while the audio callback has not drained the ring yet, after
/// `looks` looks. No sample may be pushed before it has, or it would be drained
/// too. A stream that has died does not hold the decoder up for more than fifty
/// looks.
pub fn await_consumer_drain(state: &PlayerState, looks: u32) -> (r: Wait)
    ensures
        r == (if looks >= 50 || !state.producer.reset_consumer_counter || must_leave(*state) {
            Wait::Over
        } else {
            Wait::Sleep(5)
        }),
{
    if looks >= 50 || !state.producer.reset_consumer_counter || producer_should_unstick(state) {
        Wait::Over
    } else {
        Wait::Sleep(5)
    }
}

/// A step of pushing samples into the ring.
#[derive(Clone, Copy, Debug, PartialEq, Eq, Structural)]
pub enum Push {
    /// All is pushed, or the rest is of no use any more.
    Over,
    /// Push so many.
    Take(usize),
    /// The ring is full: look again after some milliseconds.
    Sleep(u64),
}

/// What to push next, with `free` places in the ring and `left` samples to go.
/// A push takes all of a slice or nothing, so it is never asked for more than
/// there is room for.
pub fn push_all(state: &PlayerState, free: usize, left: usize) -> (r: Push)
    ensures
        r == (if left == 0 || must_leave(*state) {
            Push::Over
        } else if free == 0 {
            Push::Sleep(5)
        } else {
            Push::Take(text::least(free as int, left as int) as usize)
        }),
{
    if left == 0 || producer_should_unstick(state) {
        Push::Over
    } else if free == 0 {
        Push::Sleep(5)
    } else if free < left {
        Push::Take(free)
    } else {
        Push::Take(left)
    }
}

/// Pushing ends: every push leaves fewer samples to go, and none is pushed
/// beyond the room there is.
pub proof fn pushing_makes_headway(s: PlayerState, free: usize, left: usize)
    requires
        left > 0,
        free > 0,
        !must_leave(s),
    ensures
        0 < text::least(free as int, left as int) <= free,
        left - text::least(free as int, left as int) < left,
{
}

/// Puts fresh samples behind the held-back tail, and gives back what falls off
/// its front: all but the newest `hold`. They are what plays under the next
/// track, so each sample is heard once.
pub fn hold_back(tail: &mut VecDeque<u32>, fresh: &Vec<u32>, hold: usize) -> (out: Vec<u32>)
    ensures
        out@ + final(tail)@ == old(tail)@ + fresh@,
        final(tail)@.len() == text::least((old(tail)@.len() + fresh@.len()) as int, hold as int),
{
    let ghost start = tail@;
    let mut out: Vec<u32> = Vec::new();
    let mut i: usize = 0;
    assert(out@ + tail@ =~= start + fresh@.take(0));
    while i < fresh.len()
        invariant
            i <= fresh@.len(),
            out@ + tail@ == start + fresh@.take(i as int),
            out@.len() == 0,
        decreases fresh@.len() - i,
    {
        let ghost before = tail@;
        tail.push_back(fresh[i]);
        i = i + 1;
        assert(out@ + tail@ =~= (out@ + before).push(fresh@[i - 1]));
        assert(start + fresh@.take(i as int) =~= (start + fresh@.take(i - 1)).push(fresh@[i - 1]));
    }
    assert(fresh@.take(i as int) =~= fresh@);
    while tail.len() > hold
        invariant
            out@ + tail@ == start + fresh@,
            out@.len() > 0 ==> tail@.len() >= hold,
        decreases tail@.len(),
    {
        let ghost gone = out@;
        let ghost before = tail@;
        match tail.pop_front() {
            Some(sample) => {
                out.push(sample);
                assert(out@ + tail@ =~= gone + before);
            },
            None => {},
        }
    }
    assert((out@ + tail@).len() == out@.len() + tail@.len());
    out
}

/// Gives the whole held-back tail back: nothing is going to fade in over it.
pub fn release_tail(tail: &mut VecDeque<u32>) -> (out: Vec<u32>)
    ensures
        out@ == old(tail)@,
        final(tail)@.len() == 0,
{
    let none: Vec<u32> = Vec::new();
    let out: Vec<u32> = hold_back(tail, &none, 0);
    assert(out@ + tail@ =~= out@);
    assert(old(tail)@ + none@ =~= old(tail)@);
    out
}

/// Holding back loses no sample and repeats none: what two chunks give off, and
/// what is then left, are the samples that went in.
pub proof fn nothing_is_lost_to_the_tail(
    tail: Seq<u32>,
    a: Seq<u32>,
    out_a: Seq<u32>,
    tail_a: Seq<u32>,
    b: Seq<u32>,
    out_b: Seq<u32>,
    tail_b: Seq<u32>,
)
    requires
        out_a + tail_a == tail + a,
        out_b + tail_b == tail_a + b,
    ensures
        out_a + out_b + tail_b == tail + a + b,
{
    assert(out_a + out_b + tail_b =~= out_a + (out_b + tail_b));
    assert(out_a + (tail_a + b) =~= out_a + tail_a + b);
}

/// Frames that a resampler still owes at the end of its input: those of the
/// `pending` ones, rounded up, and its delay.
pub fn frames_to_flush(pending: usize, output_rate: u32, src_rate: u32, delay: usize) -> (r: u128)
    requires
        src_rate > 0,
    ensures
        r == (pending * output_rate + src_rate - 1) / (src_rate as int) + delay,
{
    proof {
        assert(0 <= pending * output_rate <= 0xffff_ffff_ffff_ffff * 0xffff_ffff) by (nonlinear_arith)
            requires
                0 <= pending <= 0xffff_ffff_ffff_ffff,
                0 <= output_rate <= 0xffff_ffff,
        ;
    }
    let whole: u128 = pending as u128 * output_rate as u128 + src_rate as u128 - 1;
    proof {
        assert(whole / (src_rate as u128) <= whole) by (nonlinear_arith)
            requires
                src_rate > 0,
        ;
    }
    whole / src_rate as u128 + delay as u128
}

/// Level of each side at a balance, in per cent: moving away from a side turns
/// that side down and leaves the other alone.
pub open spec fn side_levels(balance: int) -> (int, int) {
    (
        text::most(text::least(100 - balance, 100), 0),
        text::most(text::least(100 + balance, 100), 0),
    )
}

/// Level of each side at a balance, in per cent.
pub fn balance_levels(balance: i32) -> (r: (u32, u32))
    ensures
        (r.0 as int, r.1 as int) == side_levels(balance as int),
{
    let left: u32 = if balance <= 0 {
        100
    } else if balance >= 100 {
        0
    } else {
        (100 - balance) as u32
    };
    let right: u32 = if balance >= 0 {
        100
    } else if balance <= -100 {
        0
    } else {
        (100 + balance) as u32
    };
    (left, right)
}

/// At any balance one side at least is at its full level, and in the middle both
/// are.
pub proof fn one_side_stays_full(balance: int)
    ensures
        side_levels(balance).0 == 100 || side_levels(balance).1 == 100,
        balance == 0 <==> side_levels(balance) == (100int, 100int),
{
}

/// How many of `len` samples are mixed with the fading track, at place `pos` of
/// a crossfade of `total` samples.
pub fn crossfade_span(pos: usize, total: usize, len: usize) -> (r: usize)
    ensures
        r == text::least(len as int, text::minus(total as int, pos as int)),
        pos + r <= total || r == 0,
{
    if pos >= total {
        0
    } else if total - pos < len {
        total - pos
    } else {
        len
    }
}

/// What the chain does with a chunk. A stage that would change nothing is left
/// out.
#[derive(Clone, Copy, Debug, PartialEq, Eq)]
pub struct ChainPlan {
    pub eq: bool,
    pub effects: bool,
    pub gain: bool,
    pub crossfeed: bool,
    /// Levels of the two sides in per cent.
    pub balance: Option<(u32, u32)>,
    /// Samples to mix with the fading track.
    pub fade: usize,
}

/// The stages a chunk of `len` samples passes, in this order: equaliser,
/// effects, loudness, crossfeed, balance, crossfade. Without samples there is
/// nothing to do. `fading` gives the place in the crossfade and its length,
/// where a track fades out under this one.
pub fn apply_chain(
    len: usize,
    eq: bool,
    effects: bool,
    unity_gain: bool,
    crossfeed: bool,
    balance: i32,
    fading: Option<(usize, usize)>,
) -> (r: Option<ChainPlan>)
    ensures
        len == 0 <==> r is None,
        r matches Some(p) ==> {
            &&& p.eq == eq && p.effects == effects && p.gain == !unity_gain && p.crossfeed == crossfeed
            &&& p.balance is Some <==> balance != 0
            &&& p.balance matches Some(b) ==> (b.0 as int, b.1 as int) == side_levels(balance as int)
            &&& p.fade == (match fading {
                Some((pos, total)) => text::least(len as int, text::minus(total as int, pos as int)),
                None => 0,
            })
        },
{
    if len == 0 {
        return None;
    }
    let levels: Option<(u32, u32)> = if balance != 0 {
        Some(balance_levels(balance))
    } else {
        None
    };
    let fade: usize = match fading {
        Some((pos, total)) => crossfade_span(pos, total, len),
        None => 0,
    };
    Some(ChainPlan { eq, effects, gain: !unity_gain, crossfeed, balance: levels, fade })
}

/// A step of emptying a resampler.
#[derive(Clone, Copy, Debug, PartialEq, Eq, Structural)]
pub enum Flush {
    /// Everything it owed has come out, or nothing more comes.
    Over,
    /// Use so many of the frames that came out; so many are still owed.
    Use { take: usize, left: u128 },
}

/// What to do with the frames that came out of a resampler being emptied, while
/// it still owed `wanted`. What it puts out beyond that is silence.
pub fn flush_resampler(wanted: u128, came: usize) -> (r: Flush)
    ensures
        r == (if wanted == 0 || came == 0 {
            Flush::Over
        } else {
            Flush::Use {
                take: text::least(wanted as int, came as int) as usize,
                left: (wanted - text::least(wanted as int, came as int)) as u128,
            }
        }),
{
    if wanted == 0 || came == 0 {
        Flush::Over
    } else if wanted < came as u128 {
        Flush::Use { take: wanted as usize, left: 0 }
    } else {
        Flush::Use { take: came, left: wanted - came as u128 }
    }
}

/// How many of `pending` samples make whole chunks of `chunk` samples.
pub fn whole_chunks(pending: usize, chunk: usize) -> (r: usize)
    requires
        chunk > 0,
    ensures
        r == pending as int / chunk as int * chunk,
        r <= pending < r + chunk,
{
    proof {
        vstd::arithmetic::div_mod::lemma_fundamental_div_mod(pending as int, chunk as int);
        vstd::arithmetic::mul::lemma_mul_is_commutative(chunk as int, pending as int / chunk as int);
    }
    pending - pending % chunk
}

/// Where the sample of one input channel goes in a stereo frame.
#[derive(Clone, Copy, Debug, PartialEq, Eq, Structural)]
pub enum Route {
    Left,
    Right,
    /// To both sides at full level.
    Both,
    /// To the left, 3 dB down.
    SoftLeft,
    /// To the right, 3 dB down.
    SoftRight,
    /// To both sides, 3 dB down.
    SoftBoth,
    /// To neither.
    Dropped,
}

/// Where channel `i` of `channels` goes. Mono goes to both sides. The rears of
/// four channels go to their own sides. Else the channels are front left, front
/// right, centre, from six on the bass, and then surrounds that alternate; the
/// centre goes to both sides, and the bass to none.
pub open spec fn route(channels: int, i: int) -> Route {
    if channels == 1 {
        Route::Both
    } else if i == 0 {
        Route::Left
    } else if i == 1 {
        Route::Right
    } else if channels == 4 {
        if i == 2 {
            Route::SoftLeft
        } else {
            Route::SoftRight
        }
    } else if i == 2 {
        Route::SoftBoth
    } else if channels >= 6 && i == 3 {
        Route::Dropped
    } else if (i - (if channels >= 6 {
        4int
    } else {
        3int
    })) % 2 == 0 {
        Route::SoftLeft
    } else {
        Route::SoftRight
    }
}

/// Where channel `i` of `channels` goes in a stereo frame.
pub fn stereo_route(channels: usize, i: usize) -> (r: Route)
    requires
        i < channels,
    ensures
        r == route(channels as int, i as int),
{
    if channels == 1 {
        Route::Both
    } else if i == 0 {
        Route::Left
    } else if i == 1 {
        Route::Right
    } else if channels == 4 {
        if i == 2 {
            Route::SoftLeft
        } else {
            Route::SoftRight
        }
    } else if i == 2 {
        Route::SoftBoth
    } else if channels >= 6 && i == 3 {
        Route::Dropped
    } else {
        let base: usize = if channels >= 6 {
            4
        } else {
            3
        };
        if (i - base) % 2 == 0 {
            Route::SoftLeft
        } else {
            Route::SoftRight
        }
    }
}

/// The first two channels of any layout but mono keep their sides and their
/// level, and no channel but the bass is lost.
pub proof fn no_channel_but_the_bass_is_lost(channels: int, i: int)
    requires
        0 <= i < channels,
    ensures
        channels >= 2 ==> route(channels, 0) == Route::Left && route(channels, 1) == Route::Right,
        route(channels, i) == Route::Dropped <==> (channels >= 6 && i == 3),
{
}

/// Frame `f` of mono samples as stereo.
pub open spec fn doubled(input: Seq<u32>, n: int) -> Seq<u32>
    decreases n,
{
    if n <= 0 {
        Seq::empty()
    } else {
        doubled(input, n - 1).push(input[n - 1]).push(input[n - 1])
    }
}

/// Appends samples that need no mixing to interleaved stereo: mono goes to both
/// sides, stereo stays as it is. Samples are bit patterns. Says whether the
/// layout is one of these; nothing is appended where it is not, nor where there
/// is no channel at all.
pub fn interleaved_to_stereo(input: &Vec<u32>, channels: usize, out: &mut Vec<u32>) -> (r: bool)
    ensures
        r == (channels <= 2),
        final(out)@ == old(out)@ + (if channels == 2 {
            input@
        } else if channels == 1 {
            doubled(input@, input@.len() as int)
        } else {
            Seq::empty()
        }),
{
    let ghost before = out@;
    if channels == 2 {
        let mut i: usize = 0;
        while i < input.len()
            invariant
                i <= input@.len(),
                out@ == before + input@.take(i as int),
            decreases input@.len() - i,
        {
            out.push(input[i]);
            i = i + 1;
            assert(out@ =~= before + input@.take(i as int));
        }
        assert(input@.take(input@.len() as int) =~= input@);
        true
    } else if channels == 1 {
        let mut i: usize = 0;
        assert(out@ =~= before + doubled(input@, 0));
        while i < input.len()
            invariant
                i <= input@.len(),
                out@ == before + doubled(input@, i as int),
            decreases input@.len() - i,
        {
            out.push(input[i]);
            out.push(input[i]);
            i = i + 1;
            assert(out@ =~= before + doubled(input@, i as int));
        }
        true
    } else {
        assert(out@ =~= before + Seq::<u32>::empty());
        channels == 0
    }
}

/// The samples of channel `c` among the first `n` interleaved ones.
pub open spec fn plane(samples: Seq<u32>, ch: int, c: int, n: int) -> Seq<u32>
    decreases n,
{
    if n <= 0 {
        Seq::empty()
    } else if (n - 1) % ch == c {
        plane(samples, ch, c, n - 1).push(samples[n - 1])
    } else {
        plane(samples, ch, c, n - 1)
    }
}

/// Takes interleaved samples apart into one sequence per channel.
pub fn deinterleave_into(samples: &Vec<u32>, ch: usize) -> (out: Vec<Vec<u32>>)
    requires
        ch > 0,
    ensures
        out@.len() == ch,
        forall|c: int|
            0 <= c < ch ==> (#[trigger] out@[c])@ == plane(samples@, ch as int, c, samples@.len() as int),
{
    let mut out: Vec<Vec<u32>> = Vec::new();
    let mut k: usize = 0;
    while k < ch
        invariant
            k <= ch,
            out@.len() == k,
            forall|c: int| 0 <= c < k ==> (#[trigger] out@[c])@ == Seq::<u32>::empty(),
        decreases ch - k,
    {
        out.push(Vec::new());
        k = k + 1;
    }
    let mut i: usize = 0;
    while i < samples.len()
        invariant
            ch > 0,
            i <= samples@.len(),
            out@.len() == ch,
            forall|c: int|
                0 <= c < ch ==> (#[trigger] out@[c])@ == plane(samples@, ch as int, c, i as int),
        decreases samples@.len() - i,
    {
        let c: usize = i % ch;
        let ghost before = out@;
        out[c].push(samples[i]);
        i = i + 1;
        assert forall|d: int| 0 <= d < ch implies (#[trigger] out@[d])@ == plane(
            samples@,
            ch as int,
            d,
            i as int,
        ) by {
            assert(before[d]@ == plane(samples@, ch as int, d, i - 1));
        }
    }
    out
}

/// The loudness values a track can carry.
#[derive(Clone, Copy, Debug, PartialEq, Eq, Structural)]
pub enum RgSlot {
    TrackGain,
    TrackPeak,
    AlbumGain,
    AlbumPeak,
}

/// The loudness values of a track, as bit patterns.
#[derive(Clone, Copy, Debug, PartialEq, Eq, Structural)]
pub struct RgTags {
    pub track_gain: Option<u32>,
    pub track_peak: Option<u32>,
    pub album_gain: Option<u32>,
    pub album_peak: Option<u32>,
}

impl RgTags {
    /// The value in a slot.
    pub open spec fn at(self, slot: RgSlot) -> Option<u32> {
        match slot {
            RgSlot::TrackGain => self.track_gain,
            RgSlot::TrackPeak => self.track_peak,
            RgSlot::AlbumGain => self.album_gain,
            RgSlot::AlbumPeak => self.album_peak,
        }
    }
}

/// The slot that a tag's key names, in any case.
pub open spec fn slot_of(key: Seq<char>) -> Option<RgSlot> {
    let low = text::folded(key);
    if low == "replaygain_track_gain"@ {
        Some(RgSlot::TrackGain)
    } else if low == "replaygain_track_peak"@ {
        Some(RgSlot::TrackPeak)
    } else if low == "replaygain_album_gain"@ {
        Some(RgSlot::AlbumGain)
    } else if low == "replaygain_album_peak"@ {
        Some(RgSlot::AlbumPeak)
    } else {
        None
    }
}

/// The slot that a tag's key names.
pub fn rg_slot_of_key(key: &str) -> (r: Option<RgSlot>)
    ensures
        r == slot_of(key@),
{
    let low: String = key.to_lowercase();
    let l: &str = low.as_str();
    if l.eq("replaygain_track_gain") {
        Some(RgSlot::TrackGain)
    } else if l.eq("replaygain_track_peak") {
        Some(RgSlot::TrackPeak)
    } else if l.eq("replaygain_album_gain") {
        Some(RgSlot::AlbumGain)
    } else if l.eq("replaygain_album_peak") {
        Some(RgSlot::AlbumPeak)
    } else {
        None
    }
}

/// Whether a text ends in the unit of a gain, in any case.
pub open spec fn ends_in_db(s: Seq<char>) -> bool {
    s.len() >= 2 && (s[s.len() - 2] == 'd' || s[s.len() - 2] == 'D') && (s.last() == 'b' || s.last() == 'B')
}

/// The numeral in a loudness tag: of a gain without its unit, of a peak all.
pub open spec fn rg_numeral(slot: RgSlot, s: Seq<char>) -> Seq<char> {
    let t = text::trimmed(s);
    if (slot is TrackGain || slot is AlbumGain) && ends_in_db(t) {
        text::trimmed(t.take(t.len() - 2))
    } else {
        t
    }
}

/// The numeral in a loudness tag.
pub fn rg_text(slot: RgSlot, s: &str) -> (r: String)
    ensures
        r@ == rg_numeral(slot, s@),
{
    let t: String = trim_text(s);
    let gain: bool = match slot {
        RgSlot::TrackGain => true,
        RgSlot::AlbumGain => true,
        _ => false,
    };
    let v: Vec<char> = chars_of(t.as_str());
    let n: usize = v.len();
    if gain && n >= 2 && (v[n - 2] == 'd' || v[n - 2] == 'D') && (v[n - 1] == 'b' || v[n - 1] == 'B') {
        let head: String = string_of(&v, 0, n - 2);
        assert(head@ =~= t@.take(n - 2));
        trim_text(head.as_str())
    } else {
        t
    }
}

/// A loudness tag: where it goes, and its number where it is one.
#[derive(Clone, Copy, Debug, PartialEq, Eq, Structural)]
pub struct RgTag {
    pub slot: RgSlot,
    pub value: Option<u32>,
}

/// The first number given for a slot among tags from `i` on.
pub open spec fn first_value(tags: Seq<RgTag>, slot: RgSlot, i: int) -> Option<u32>
    decreases tags.len() - i,
{
    if i >= tags.len() {
        None
    } else if tags[i].slot == slot && tags[i].value is Some {
        tags[i].value
    } else {
        first_value(tags, slot, i + 1)
    }
}

/// `a`, or `b` where there is no `a`.
pub open spec fn first_of(a: Option<u32>, b: Option<u32>) -> Option<u32> {
    if a is Some {
        a
    } else {
        b
    }
}

fn either(a: Option<u32>, b: Option<u32>) -> (r: Option<u32>)
    ensures
        r == first_of(a, b),
{
    match a {
        Some(v) => Some(v),
        None => b,
    }
}

/// The loudness values that some tags give: of each slot the first that is a
/// number.
pub fn extract_rg_from_tags(tags: &Vec<RgTag>) -> (r: RgTags)
    ensures
        forall|slot: RgSlot| #[trigger] r.at(slot) == first_value(tags@, slot, 0),
{
    let mut r: RgTags = RgTags { track_gain: None, track_peak: None, album_gain: None, album_peak: None };
    let mut i: usize = 0;
    while i < tags.len()
        invariant
            i <= tags@.len(),
            forall|slot: RgSlot|
                first_of(#[trigger] r.at(slot), first_value(tags@, slot, i as int)) == first_value(tags@, slot, 0),
        decreases tags@.len() - i,
    {
        let t: RgTag = tags[i];
        let ghost before = r;
        match t.slot {
            RgSlot::TrackGain => {
                r.track_gain = either(r.track_gain, t.value);
            },
            RgSlot::TrackPeak => {
                r.track_peak = either(r.track_peak, t.value);
            },
            RgSlot::AlbumGain => {
                r.album_gain = either(r.album_gain, t.value);
            },
            RgSlot::AlbumPeak => {
                r.album_peak = either(r.album_peak, t.value);
            },
        }
        i = i + 1;
        assert forall|slot: RgSlot|
            first_of(#[trigger] r.at(slot), first_value(tags@, slot, i as int)) == first_value(tags@, slot, 0) by {
            assert(first_of(before.at(slot), first_value(tags@, slot, i - 1)) == first_value(tags@, slot, 0));
        }
    }
    r
}

/// The gain and the peak that a mode goes by: the track's or the album's, and
/// each falls back to the other's. With the mode off there is no gain.
pub open spec fn gain_and_peak(mode: RgMode, tags: RgTags) -> (Option<u32>, Option<u32>) {
    match mode {
        RgMode::Off => (None, None),
        RgMode::Album => (
            first_of(tags.album_gain, tags.track_gain),
            first_of(tags.album_peak, tags.track_peak),
        ),
        RgMode::Track => (
            first_of(tags.track_gain, tags.album_gain),
            first_of(tags.track_peak, tags.album_peak),
        ),
    }
}

/// The gain and the peak that a mode goes by.
pub fn rg_choice(mode: RgMode, tags: RgTags) -> (r: (Option<u32>, Option<u32>))
    ensures
        r == gain_and_peak(mode, tags),
{
    match mode {
        RgMode::Off => (None, None),
        RgMode::Album => (either(tags.album_gain, tags.track_gain), either(tags.album_peak, tags.track_peak)),
        RgMode::Track => (either(tags.track_gain, tags.album_gain), either(tags.track_peak, tags.album_peak)),
    }
}

} // verus!
