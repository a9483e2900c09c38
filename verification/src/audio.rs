//! The output device: which one, at which rate, and what its callback plays.
use crate::state::{PlayerState, Feed, TrackInfo};
use crate::text;
use crate::text::{contains_text, is_blank};
use vstd::prelude::*;

verus! {

/// The systems that differ in how a device is asked for a rate.
#[derive(Clone, Copy, Debug, PartialEq, Eq, Structural)]
pub enum Platform {
    MacOs,
    Windows,
    Linux,
    Other,
}

/// Whether device `i` is called `want`, in lower case.
pub open spec fn called(devices: Seq<(u32, String)>, i: int, want: Seq<char>) -> bool {
    text::folded(devices[i].1@) == want
}

/// Whether the name of device `i` holds `want`, in lower case.
pub open spec fn resembles(devices: Seq<(u32, String)>, i: int, want: Seq<char>) -> bool {
    text::has_text(text::folded(devices[i].1@), want)
}

/// The first device from `i` on that is called `want`.
pub open spec fn first_called(devices: Seq<(u32, String)>, want: Seq<char>, i: int) -> Option<u32>
    decreases devices.len() - i,
{
    if i >= devices.len() {
        None
    } else if called(devices, i, want) {
        Some(devices[i].0)
    } else {
        first_called(devices, want, i + 1)
    }
}

/// The first device from `i` on whose name holds `want`.
pub open spec fn first_resembling(devices: Seq<(u32, String)>, want: Seq<char>, i: int) -> Option<u32>
    decreases devices.len() - i,
{
    if i >= devices.len() {
        None
    } else if resembles(devices, i, want) {
        Some(devices[i].0)
    } else {
        first_resembling(devices, want, i + 1)
    }
}

/// The device that a name stands for: the first that is called so, in any case;
/// else the first whose name holds it. An empty name stands for none.
pub open spec fn picked_device(devices: Seq<(u32, String)>, wanted: Seq<char>) -> Option<u32> {
    let want = text::folded(wanted);
    if want.len() == 0 {
        None
    } else if first_called(devices, want, 0) is Some {
        first_called(devices, want, 0)
    } else {
        first_resembling(devices, want, 0)
    }
}

/// Picks the device that a name stands for. A device that is called so comes
/// ahead of one whose name only holds it.
pub fn pick_device_id(devices: &Vec<(u32, String)>, wanted: &str) -> (r: Option<u32>)
    ensures
        r == picked_device(devices@, wanted@),
{
    let want: String = wanted.to_lowercase();
    if is_blank(want.as_str()) {
        return None;
    }
    let mut i: usize = 0;
    while i < devices.len()
        invariant
            i <= devices@.len(),
            want@.len() > 0,
            want@ == text::folded(wanted@),
            first_called(devices@, want@, i as int) == first_called(devices@, want@, 0),
        decreases devices@.len() - i,
    {
        let name: String = devices[i].1.as_str().to_lowercase();
        if name.as_str().eq(want.as_str()) {
            return Some(devices[i].0);
        }
        i = i + 1;
    }
    i = 0;
    while i < devices.len()
        invariant
            i <= devices@.len(),
            want@.len() > 0,
            want@ == text::folded(wanted@),
            first_called(devices@, want@, 0) is None,
            first_resembling(devices@, want@, i as int) == first_resembling(devices@, want@, 0),
        decreases devices@.len() - i,
    {
        let name: String = devices[i].1.as_str().to_lowercase();
        if contains_text(name.as_str(), want.as_str()) {
            return Some(devices[i].0);
        }
        i = i + 1;
    }
    None
}

/// The first device from `i` on whose name is known and holds `want`.
pub open spec fn first_holding(names: Seq<Option<String>>, want: Seq<char>, i: int) -> Option<int>
    decreases names.len() - i,
{
    if i >= names.len() {
        None
    } else if names[i] matches Some(n) && text::has_text(text::folded(n@), want) {
        Some(i)
    } else {
        first_holding(names, want, i + 1)
    }
}

/// The place of the first device whose name holds a text, in any case.
pub fn find_device_by_name(names: &Vec<Option<String>>, name: &str) -> (r: Option<usize>)
    ensures
        match r {
            Some(i) => first_holding(names@, text::folded(name@), 0) == Some(i as int),
            None => first_holding(names@, text::folded(name@), 0) is None,
        },
{
    let want: String = name.to_lowercase();
    let mut i: usize = 0;
    while i < names.len()
        invariant
            i <= names@.len(),
            want@ == text::folded(name@),
            first_holding(names@, want@, i as int) == first_holding(names@, want@, 0),
        decreases names@.len() - i,
    {
        match &names[i] {
            Some(n) => {
                let low: String = n.as_str().to_lowercase();
                if contains_text(low.as_str(), want.as_str()) {
                    return Some(i);
                }
            },
            None => {},
        }
        i = i + 1;
    }
    None
}

/// The largest of the first `n` numbers, and at least 0.
pub open spec fn largest(rates: Seq<u32>, n: int) -> u32
    decreases n,
{
    if n <= 0 {
        0
    } else if rates[n - 1] > largest(rates, n - 1) {
        rates[n - 1]
    } else {
        largest(rates, n - 1)
    }
}

/// The highest rate a device supports, given the highest of each of its
/// configurations; 48 kHz where none is known.
pub fn max_supported_rate(maxima: &Vec<u32>) -> (r: u32)
    ensures
        r == (if maxima@.len() == 0 {
            48000
        } else {
            largest(maxima@, maxima@.len() as int)
        }),
{
    if maxima.len() == 0 {
        return 48000;
    }
    let mut best: u32 = 0;
    let mut i: usize = 0;
    while i < maxima.len()
        invariant
            i <= maxima@.len(),
            best == largest(maxima@, i as int),
        decreases maxima@.len() - i,
    {
        if maxima[i] > best {
            best = maxima[i];
        }
        i = i + 1;
    }
    best
}

/// What rates an output device can be brought to.
pub struct RateCaps {
    /// The lowest and the highest rate of each configuration.
    pub ranges: Vec<(u32, u32)>,
    pub max: u32,
    /// The device stays at the rate it has.
    pub fixed: bool,
    /// The sound server takes any rate.
    pub any: bool,
}

/// Whether one of some ranges holds a rate.
pub open spec fn in_ranges(ranges: Seq<(u32, u32)>, rate: u32) -> bool {
    exists|i: int| 0 <= i < ranges.len() && (#[trigger] ranges[i]).0 <= rate <= ranges[i].1
}

/// Whether one of some ranges holds a rate.
pub fn supports_rate(ranges: &Vec<(u32, u32)>, rate: u32) -> (r: bool)
    ensures
        r == in_ranges(ranges@, rate),
{
    let mut i: usize = 0;
    while i < ranges.len()
        invariant
            i <= ranges@.len(),
            forall|k: int| 0 <= k < i ==> !((#[trigger] ranges@[k]).0 <= rate <= ranges@[k].1),
        decreases ranges@.len() - i,
    {
        if ranges[i].0 <= rate && rate <= ranges[i].1 {
            assert(ranges@[i as int].0 <= rate <= ranges@[i as int].1);
            return true;
        }
        i = i + 1;
    }
    false
}

/// The rate a switch to `desired` would reach from `current`: the desired one,
/// not above the highest, where the device follows it; else the current one.
pub open spec fn reached_rate(caps: RateCaps, desired: u32, current: u32) -> u32 {
    let goal = if desired > caps.max {
        caps.max
    } else {
        desired
    };
    if goal == current || caps.fixed {
        current
    } else if caps.any || in_ranges(caps.ranges@, goal) {
        goal
    } else {
        current
    }
}

impl RateCaps {
    /// What is known of a device on a system. Windows keeps the rate of its
    /// mixer, and a Bluetooth device its own; under Linux the sound server
    /// switches by itself.
    pub fn probe(platform: Platform, ranges: Vec<(u32, u32)>, max: u32, bluetooth: bool) -> (r: Self)
        ensures
            r.ranges == ranges,
            r.max == max,
            r.fixed == (platform is Windows || (platform is MacOs && bluetooth)),
            r.any == (platform is Linux),
    {
        let fixed: bool = match platform {
            Platform::Windows => true,
            Platform::MacOs => bluetooth,
            _ => false,
        };
        let any: bool = match platform {
            Platform::Linux => true,
            _ => false,
        };
        RateCaps { ranges, max, fixed, any }
    }

    /// The rate a switch to a file's rate would reach.
    pub fn exclusive_target_rate(&self, desired: u32, current: u32) -> (r: u32)
        ensures
            r == reached_rate(*self, desired, current),
    {
        let goal: u32 = if desired > self.max {
            self.max
        } else {
            desired
        };
        if goal == current || self.fixed {
            current
        } else if self.any || supports_rate(&self.ranges, goal) {
            goal
        } else {
            current
        }
    }
}

/// A device that cannot follow a file's rate is left alone: the rate that a
/// switch would reach is then the current one, and one that it does reach is
/// neither above the device's highest nor outside its ranges.
pub proof fn switch_reaches_a_rate_the_device_has(caps: RateCaps, desired: u32, current: u32)
    ensures
        reached_rate(caps, desired, current) == current || (reached_rate(caps, desired, current) <= caps.max
            && !caps.fixed && (caps.any || in_ranges(caps.ranges@, reached_rate(caps, desired, current)))),
        caps.fixed ==> reached_rate(caps, desired, current) == current,
{
}

/// How a device gets to a rate.
#[derive(Clone, Copy, Debug, PartialEq, Eq, Structural)]
pub enum RateSwitch {
    /// It stays at this rate.
    Stay(u32),
    /// It is simply used at this rate.
    Use(u32),
    /// It has to be asked for this rate, and then for the rate it has got to.
    Ask(u32),
}

/// Decides how to bring a device to a file's rate. `device` holds, where the
/// system knows the device, whether it is a Bluetooth one and its ranges.
pub fn set_output_sample_rate(
    platform: Platform,
    desired: u32,
    current: u32,
    device: Option<(bool, Vec<(u32, u32)>)>,
) -> (r: RateSwitch)
    ensures
        r == (if desired == current {
            RateSwitch::Stay(current)
        } else if platform is Linux {
            RateSwitch::Use(desired)
        } else if platform is MacOs && (device matches Some(d) && !d.0 && in_ranges(d.1@, desired)) {
            RateSwitch::Ask(desired)
        } else {
            RateSwitch::Stay(current)
        }),
{
    if desired == current {
        return RateSwitch::Stay(current);
    }
    match platform {
        Platform::Linux => RateSwitch::Use(desired),
        Platform::MacOs => match device {
            Some(d) => {
                if !d.0 && supports_rate(&d.1, desired) {
                    RateSwitch::Ask(desired)
                } else {
                    RateSwitch::Stay(current)
                }
            },
            None => RateSwitch::Stay(current),
        },
        _ => RateSwitch::Stay(current),
    }
}

/// The rate to go on with after a device was asked for one: that rate only
/// where the device says it got there.
pub fn rate_after_switch(desired: u32, current: u32, got: Option<u32>) -> (r: u32)
    ensures
        r == (if got == Some(desired) {
            desired
        } else {
            current
        }),
{
    match got {
        Some(g) => {
            if g == desired {
                desired
            } else {
                current
            }
        },
        None => current,
    }
}

/// The rate a Bluetooth device is set back to: macOS can be stuck at another
/// that an earlier run asked for.
pub fn fix_bluetooth_sample_rate(platform: Platform, bluetooth: bool) -> (r: Option<u32>)
    ensures
        r == (if platform is MacOs && bluetooth {
            Some(48000u32)
        } else {
            None
        }),
{
    match platform {
        Platform::MacOs => if bluetooth {
            Some(48000)
        } else {
            None
        },
        _ => None,
    }
}

/// Why a device cannot be had exclusively.
#[derive(Clone, Copy, Debug, PartialEq, Eq, Structural)]
pub enum ExclusiveError {
    /// Only macOS knows exclusive devices.
    NotSupported,
    /// The system does not know the device.
    NoDevice,
}

impl ExclusiveError {
    /// The error in words.
    pub fn message(self) -> (r: &'static str)
        ensures
            r@ == (match self {
                ExclusiveError::NotSupported => "Exclusive mode not supported on this platform"@,
                ExclusiveError::NoDevice => "Could not find CoreAudio device ID"@,
            }),
    {
        match self {
            ExclusiveError::NotSupported => "Exclusive mode not supported on this platform",
            ExclusiveError::NoDevice => "Could not find CoreAudio device ID",
        }
    }
}

/// The device to take for oneself.
pub fn set_exclusive_mode(platform: Platform, device: Option<u32>) -> (r: Result<u32, ExclusiveError>)
    ensures
        r == (match (platform, device) {
            (Platform::MacOs, Some(id)) => Ok::<u32, ExclusiveError>(id),
            (Platform::MacOs, None) => Err(ExclusiveError::NoDevice),
            _ => Err(ExclusiveError::NotSupported),
        }),
{
    match platform {
        Platform::MacOs => match device {
            Some(id) => Ok(id),
            None => Err(ExclusiveError::NoDevice),
        },
        _ => Err(ExclusiveError::NotSupported),
    }
}

/// The device to give back: that one on macOS, and none where no device can be
/// taken.
pub fn release_exclusive_mode(platform: Platform, device_id: u32) -> (r: Option<u32>)
    ensures
        r == (if platform is MacOs {
            Some(device_id)
        } else {
            None
        }),
{
    match platform {
        Platform::MacOs => Some(device_id),
        _ => None,
    }
}

/// What the audio callback has to do.
#[derive(Clone, Copy, Debug, PartialEq, Eq, Structural)]
pub enum Output {
    /// Throw away what is queued, and put out silence.
    Drain,
    /// Put out silence.
    Silence,
    /// Play so many queued samples.
    Play(usize),
}

/// What the audio callback does for a buffer of `len` samples on `channels`
/// channels, with `available` samples queued. The queue is always stereo.
pub open spec fn output_for(s: PlayerState, available: int, len: int, channels: int) -> Output {
    if s.producer.reset_consumer_counter {
        Output::Drain
    } else if s.transport.paused || available == 0 || channels == 0 {
        Output::Silence
    } else {
        Output::Play(text::least(len / channels * 2, available) as usize)
    }
}

/// Decides what the audio callback does. A request to drain is taken; else the
/// level of the queue is noted.
pub fn callback_plan(state: &mut PlayerState, available: usize, len: usize, channels: usize) -> (r: Output)
    requires
        len * 2 <= usize::MAX,
    ensures
        r == output_for(*old(state), available as int, len as int, channels as int),
        *final(state) == (PlayerState {
            producer: if old(state).producer.reset_consumer_counter {
                Feed { reset_consumer_counter: false, ..old(state).producer }
            } else {
                Feed { buffer_level: available, ..old(state).producer }
            },
            ..*old(state)
        }),
{
    if state.producer.reset_consumer_counter {
        state.producer.reset_consumer_counter = false;
        return Output::Drain;
    }
    state.producer.buffer_level = available;
    if state.transport.paused || available == 0 || channels == 0 {
        return Output::Silence;
    }
    proof {
        assert(len as int / channels as int <= len) by (nonlinear_arith)
            requires
                len >= 0,
                channels > 0,
        ;
    }
    let wanted: usize = len / channels * 2;
    if wanted < available {
        Output::Play(wanted)
    } else {
        Output::Play(available)
    }
}

/// Frames that fit a buffer of `len` samples: of a frame on more than one
/// channel the first two samples have to fit.
pub open spec fn frames_that_fit(len: int, channels: int) -> int {
    if channels <= 0 {
        0
    } else if channels == 1 {
        len
    } else {
        (len + channels - 2) / channels
    }
}

/// Frames that the callback writes from a queue that comes in two pieces: whole
/// stereo frames of each piece, as far as they fit.
pub fn frames_written(first: usize, second: usize, len: usize, channels: usize) -> (r: usize)
    requires
        first + second <= usize::MAX,
        len + channels <= usize::MAX,
    ensures
        r == text::least(first as int / 2 + second as int / 2, frames_that_fit(len as int, channels as int)),
{
    let have: usize = first / 2 + second / 2;
    let fit: usize = if channels == 0 {
        0
    } else if channels == 1 {
        len
    } else {
        (len + channels - 2) / channels
    };
    if have < fit {
        have
    } else {
        fit
    }
}

/// Where frame `f` comes from: the piece, and the place of its left sample.
pub fn frame_source(f: usize, first: usize) -> (r: (bool, usize))
    requires
        f <= usize::MAX / 2,
    ensures
        f < first / 2 ==> r == (false, (2 * f) as usize),
        f >= first / 2 ==> r == (true, (2 * (f - first / 2)) as usize),
{
    if f < first / 2 {
        (false, 2 * f)
    } else {
        (true, 2 * (f - first / 2))
    }
}

/// Both samples of every frame that is written lie inside the piece it comes
/// from, and the frame starts inside the buffer with room for both.
pub proof fn written_frames_are_in_bounds(first: int, second: int, len: int, channels: int, f: int)
    requires
        0 <= first,
        0 <= second,
        0 <= len,
        channels > 0,
        0 <= f < text::least(first / 2 + second / 2, frames_that_fit(len, channels)),
    ensures
        f < first / 2 ==> 2 * f + 1 < first,
        f >= first / 2 ==> 0 <= 2 * (f - first / 2) && 2 * (f - first / 2) + 1 < second,
        channels == 1 ==> f < len,
        channels >= 2 ==> f * channels + 1 < len,
{
    if channels >= 2 {
        let n = frames_that_fit(len, channels);
        assert(f * channels + 1 < len) by (nonlinear_arith)
            requires
                0 <= f < n,
                n == (len + channels - 2) / channels,
                channels >= 2,
        ;
    }
}

/// The player, after so many frames were played: those that were still queued
/// from the previous track pass first, and the clock counts the others.
pub open spec fn clocked(s: PlayerState, frames: int) -> PlayerState {
    let counted = text::minus(frames, s.producer.clock_preroll as int);
    PlayerState {
        track: TrackInfo {
            samples_played: ((s.track.samples_played + counted) % 0x1_0000_0000_0000_0000) as u64,
            ..s.track
        },
        producer: Feed { clock_preroll: text::minus(s.producer.clock_preroll as int, frames) as u64, ..s.producer },
        ..s
    }
}

/// Notes that queued samples were played.
pub fn count_played(state: &mut PlayerState, samples: usize)
    ensures
        *final(state) == clocked(*old(state), samples as int / 2),
{
    let frames: u64 = (samples / 2) as u64;
    let preroll: u64 = state.producer.clock_preroll;
    let counted: u64 = frames.saturating_sub(preroll);
    state.producer.clock_preroll = preroll.saturating_sub(frames);
    state.track.samples_played = state.track.samples_played.wrapping_add(counted);
}

/// The clock starts with its track: while frames of the previous one are queued it
/// stands still, and from then on it counts every frame, however they are dealt
/// out to the buffers.
pub proof fn clock_waits_for_its_track(s: PlayerState, a: int, b: int)
    requires
        0 <= a,
        0 <= b,
    ensures
        a <= s.producer.clock_preroll ==> clocked(s, a).track.samples_played == s.track.samples_played,
        clocked(clocked(s, a), b) == clocked(s, a + b),
{
    let p = s.producer.clock_preroll as int;
    let c = text::minus(a, p);
    let d = text::minus(b, text::minus(p, a));
    assert(text::minus(a + b, p) == c + d);
    let m = 0x1_0000_0000_0000_0000int;
    let n = s.track.samples_played as int;
    assert(((n + c) % m + d) % m == (n + c + d) % m) by {
        vstd::arithmetic::div_mod::lemma_add_mod_noop(n + c, d, m);
        vstd::arithmetic::div_mod::lemma_add_mod_noop((n + c) % m, d, m);
        vstd::arithmetic::div_mod::lemma_mod_twice(n + c, m);
    }
}

/// What the visualiser gets of a buffer.
#[derive(Clone, Copy, Debug, PartialEq, Eq, Structural)]
pub enum Tap {
    Nothing,
    /// The first so many samples, as far as they fit, as they are.
    Copy(usize),
    /// The first two channels of so many samples' frames, scaled.
    Scale(usize),
}

/// What the visualiser gets of `frames` frames. `plain` says that they are not
/// to be scaled; `free` is the room in its queue. What does not fit is dropped.
pub fn tap_plan(frames: usize, channels: usize, plain: bool, len: usize, free: usize) -> (r: Tap)
    requires
        frames <= usize::MAX / 2,
    ensures
        r == (if frames == 0 {
            Tap::Nothing
        } else if channels == 2 && plain && frames * 2 <= len {
            Tap::Copy((frames * 2) as usize)
        } else if free >= frames * 2 {
            Tap::Scale((frames * 2) as usize)
        } else {
            Tap::Nothing
        }),
{
    let samples: usize = frames * 2;
    if samples == 0 {
        Tap::Nothing
    } else if channels == 2 && plain && samples <= len {
        Tap::Copy(samples)
    } else if free >= samples {
        Tap::Scale(samples)
    } else {
        Tap::Nothing
    }
}

/// A configuration of a device: its channels, its sample format by name, and
/// its lowest and highest rate.
pub struct OutputConfig {
    pub channels: u16,
    pub format: String,
    pub low: u32,
    pub high: u32,
}

/// The rates of the configurations that share channels and format.
pub struct RateGroup {
    pub channels: u16,
    pub format: String,
    pub rates: Vec<u32>,
}

/// Whether a configuration is of a kind.
pub open spec fn of_kind(c: OutputConfig, channels: u16, format: Seq<char>) -> bool {
    c.channels == channels && c.format@ == format
}

/// Whether one of the first `n` configurations of a kind has a rate as its
/// lowest or its highest.
pub open spec fn kind_has_rate(
    configs: Seq<OutputConfig>,
    n: int,
    channels: u16,
    format: Seq<char>,
    rate: u32,
) -> bool {
    exists|i: int|
        0 <= i < n && of_kind(#[trigger] configs[i], channels, format) && (configs[i].low == rate
            || configs[i].high == rate)
}

/// Whether one of the first `n` configurations is of a kind.
pub open spec fn kind_seen(configs: Seq<OutputConfig>, n: int, channels: u16, format: Seq<char>) -> bool {
    exists|i: int| 0 <= i < n && of_kind(#[trigger] configs[i], channels, format)
}

/// The kinds among the first `n` configurations, each once, as they come.
pub open spec fn kinds(configs: Seq<OutputConfig>, n: int) -> Seq<(u16, Seq<char>)>
    decreases n,
{
    if n <= 0 {
        Seq::empty()
    } else {
        let c = configs[n - 1];
        if kind_seen(configs, n - 1, c.channels, c.format@) {
            kinds(configs, n - 1)
        } else {
            kinds(configs, n - 1).push((c.channels, c.format@))
        }
    }
}

/// Whether numbers come in order, each once.
pub open spec fn ascending(rates: Seq<u32>) -> bool {
    forall|i: int, j: int| 0 <= i < j < rates.len() ==> #[trigger] rates[i] < #[trigger] rates[j]
}

/// Puts a number into its place, unless it is there.
fn insert_rate(rates: &mut Vec<u32>, rate: u32)
    requires
        ascending(old(rates)@),
    ensures
        ascending(final(rates)@),
        forall|x: u32| #[trigger] final(rates)@.contains(x) <==> old(rates)@.contains(x) || x == rate,
{
    let ghost before = rates@;
    let mut i: usize = 0;
    while i < rates.len() && rates[i] < rate
        invariant
            rates@ == before,
            i <= rates@.len(),
            forall|k: int| 0 <= k < i ==> #[trigger] rates@[k] < rate,
        decreases rates@.len() - i,
    {
        i = i + 1;
    }
    if i < rates.len() && rates[i] == rate {
        assert(before.contains(rate)) by {
            assert(before[i as int] == rate);
        }
        return;
    }
    rates.insert(i, rate);
    let after = Ghost(rates@);
    assert forall|x: u32| #[trigger] after@.contains(x) <==> before.contains(x) || x == rate by {
        if before.contains(x) {
            let k = choose|k: int| 0 <= k < before.len() && before[k] == x;
            if k < i {
                assert(after@[k] == x);
            } else {
                assert(after@[k + 1] == x);
            }
        }
        if x == rate {
            assert(after@[i as int] == rate);
        }
        if after@.contains(x) && x != rate {
            let k = choose|k: int| 0 <= k < after@.len() && after@[k] == x;
            if k < i {
                assert(before[k] == x);
            } else {
                assert(before[k - 1] == x);
            }
        }
    }
}

/// Whether the groups are those of the first `n` configurations.
pub open spec fn grouped(configs: Seq<OutputConfig>, n: int, groups: Seq<RateGroup>) -> bool {
    &&& groups.len() == kinds(configs, n).len()
    &&& forall|g: int|
        0 <= g < groups.len() ==> {
            let r = #[trigger] groups[g];
            &&& (r.channels, r.format@) == kinds(configs, n)[g]
            &&& ascending(r.rates@)
            &&& forall|x: u32| #[trigger] r.rates@.contains(x) <==> kind_has_rate(
                configs,
                n,
                r.channels,
                r.format@,
                x,
            )
        }
}

proof fn lemma_kinds(configs: Seq<OutputConfig>, n: int)
    requires
        0 <= n <= configs.len(),
    ensures
        forall|a: int, b: int|
            0 <= a < b < kinds(configs, n).len() ==> #[trigger] kinds(configs, n)[a] != #[trigger] kinds(configs, n)[b],
        forall|a: int|
            0 <= a < kinds(configs, n).len() ==> kind_seen(
                configs,
                n,
                (#[trigger] kinds(configs, n)[a]).0,
                kinds(configs, n)[a].1,
            ),
        forall|channels: u16, format: Seq<char>|
            kind_seen(configs, n, channels, format) ==> #[trigger] kinds(configs, n).contains((channels, format)),
    decreases n,
{
    if n > 0 {
        lemma_kinds(configs, n - 1);
        let c = configs[n - 1];
        let was = kinds(configs, n - 1);
        let now = kinds(configs, n);
        assert forall|a: int| 0 <= a < now.len() implies kind_seen(
            configs,
            n,
            (#[trigger] now[a]).0,
            now[a].1,
        ) by {
            if a < was.len() {
                assert(kind_seen(configs, n - 1, was[a].0, was[a].1));
            } else {
                assert(of_kind(configs[n - 1], now[a].0, now[a].1));
            }
        }
        assert forall|channels: u16, format: Seq<char>| kind_seen(configs, n, channels, format) implies
            #[trigger] now.contains((channels, format)) by {
            let i = choose|i: int| 0 <= i < n && of_kind(#[trigger] configs[i], channels, format);
            if i < n - 1 {
                assert(kind_seen(configs, n - 1, channels, format));
                assert(was.contains((channels, format)));
                let k = choose|k: int| 0 <= k < was.len() && was[k] == (channels, format);
                assert(now[k] == (channels, format));
            } else if kind_seen(configs, n - 1, c.channels, c.format@) {
                assert(was.contains((c.channels, c.format@)));
            } else {
                assert(now[now.len() - 1] == (channels, format));
            }
        }
    }
}

/// Gathers the rates that a device supports by channels and format, so that they
/// can be listed in a few lines: kinds in the order they come, rates in order
/// and each once.
pub fn group_configs(configs: &Vec<OutputConfig>) -> (groups: Vec<RateGroup>)
    ensures
        grouped(configs@, configs@.len() as int, groups@),
{
    let mut groups: Vec<RateGroup> = Vec::new();
    let mut n: usize = 0;
    while n < configs.len()
        invariant
            n <= configs@.len(),
            grouped(configs@, n as int, groups@),
        decreases configs@.len() - n,
    {
        let ghost was = groups@;
        let ghost cs = configs@;
        let c: &OutputConfig = &configs[n];
        proof {
            lemma_kinds(cs, n as int);
        }
        let mut g: usize = 0;
        while g < groups.len() && !(groups[g].channels == c.channels && groups[g].format == c.format)
            invariant
                g <= groups@.len(),
                groups@ == was,
                *c == cs[n as int],
                forall|k: int|
                    0 <= k < g ==> !((#[trigger] was[k]).channels == c.channels && was[k].format@ == c.format@),
            decreases groups@.len() - g,
        {
            g = g + 1;
        }
        if g < groups.len() {
            proof {
                assert(kinds(cs, n as int)[g as int] == (c.channels, c.format@));
                assert(kind_seen(cs, n as int, c.channels, c.format@));
            }
            let ghost old_rates = was[g as int].rates@;
            let mut rates: Vec<u32> = Vec::new();
            let mut k: usize = 0;
            while k < groups[g].rates.len()
                invariant
                    g < groups@.len(),
                    groups@ == was,
                    old_rates == was[g as int].rates@,
                    k <= old_rates.len(),
                    rates@ == old_rates.take(k as int),
                decreases old_rates.len() - k,
            {
                rates.push(groups[g].rates[k]);
                k = k + 1;
                assert(rates@ =~= old_rates.take(k as int));
            }
            assert(rates@ =~= old_rates);
            insert_rate(&mut rates, c.low);
            insert_rate(&mut rates, c.high);
            let fresh: RateGroup = RateGroup { channels: c.channels, format: c.format.clone(), rates };
            groups.set(g, fresh);
        } else {
            assert(!kind_seen(cs, n as int, c.channels, c.format@)) by {
                if kind_seen(cs, n as int, c.channels, c.format@) {
                    assert(kinds(cs, n as int).contains((c.channels, c.format@)));
                    let k = choose|k: int|
                        0 <= k < kinds(cs, n as int).len() && kinds(cs, n as int)[k] == (c.channels, c.format@);
                    assert(was[k].channels == c.channels);
                }
            }
            let mut rates: Vec<u32> = Vec::new();
            insert_rate(&mut rates, c.low);
            insert_rate(&mut rates, c.high);
            groups.push(RateGroup { channels: c.channels, format: c.format.clone(), rates });
        }
        proof {
            lemma_kinds(cs, n + 1);
            assert forall|q: int| 0 <= q < groups@.len() implies ({
                let r = #[trigger] groups@[q];
                &&& (r.channels, r.format@) == kinds(cs, n + 1)[q]
                &&& ascending(r.rates@)
                &&& forall|x: u32| #[trigger] r.rates@.contains(x) <==> kind_has_rate(
                    cs,
                    n + 1,
                    r.channels,
                    r.format@,
                    x,
                )
            }) by {
                let r = groups@[q];
                assert forall|x: u32| #[trigger] r.rates@.contains(x) <==> kind_has_rate(
                    cs,
                    n + 1,
                    r.channels,
                    r.format@,
                    x,
                ) by {
                    lemma_kind_rate_grows(cs, n as int, r.channels, r.format@, x);
                    if q < was.len() {
                        assert(was[q].rates@.contains(x) <==> kind_has_rate(
                            cs,
                            n as int,
                            was[q].channels,
                            was[q].format@,
                            x,
                        ));
                        assert(kinds(cs, n as int)[q] == (was[q].channels, was[q].format@));
                        if q != g {
                            assert(kinds(cs, n + 1)[q] == kinds(cs, n as int)[q]);
                            assert(!of_kind(cs[n as int], r.channels, r.format@));
                        }
                    } else {
                        assert(!kind_has_rate(cs, n as int, r.channels, r.format@, x)) by {
                            if kind_has_rate(cs, n as int, r.channels, r.format@, x) {
                                let i = choose|i: int|
                                    0 <= i < n && of_kind(#[trigger] cs[i], r.channels, r.format@) && (
                                    cs[i].low == x || cs[i].high == x);
                                assert(of_kind(cs[i], r.channels, r.format@));
                                assert(kind_seen(cs, n as int, r.channels, r.format@));
                            }
                        }
                    }
                }
            }
        }
        n = n + 1;
    }
    groups
}

proof fn lemma_kind_rate_grows(cs: Seq<OutputConfig>, n: int, channels: u16, format: Seq<char>, x: u32)
    requires
        0 <= n < cs.len(),
    ensures
        kind_has_rate(cs, n + 1, channels, format, x) <==> kind_has_rate(cs, n, channels, format, x) || (of_kind(
            cs[n],
            channels,
            format,
        ) && (cs[n].low == x || cs[n].high == x)),
{
    if kind_has_rate(cs, n, channels, format, x) {
        let i = choose|i: int|
            0 <= i < n && of_kind(#[trigger] cs[i], channels, format) && (cs[i].low == x || cs[i].high == x);
        assert(of_kind(cs[i], channels, format));
    }
    if of_kind(cs[n], channels, format) && (cs[n].low == x || cs[n].high == x) {
        assert(kind_has_rate(cs, n + 1, channels, format, x));
    }
}

} // verus!
