//! What the player is doing: modes, requests, levels and counters.
//!
//! The decoder, the audio callback and the screen share one [`PlayerState`].
//! A request is a field that one side sets and another takes: taking it reads
//! the field and clears it.
use crate::equalizer;
use crate::text;
use crate::text::ascii_lower;
use crate::theme::ThemeKind;
use vstd::prelude::*;

verus! {

/// Samples the visualiser's tap can hold.
pub const VIZ_BUFFER_SIZE: usize = 8192;

/// Samples one spectrum is computed from.
pub const FFT_SIZE: usize = 4096;

/// Bands of the spectrum display.
pub const SPECTRUM_BANDS: usize = 31;

/// Bands of the equaliser.
pub const EQ_BANDS: usize = 10;

/// Aim for the time between two columns of the analysis spectrogram, in
/// milliseconds.
pub const SPECTRO_TARGET_FRAME_MS: u64 = 45;

/// Frames a peak dot hangs before it falls.
pub const HOLD_TIME: u8 = 10;

pub const C_RESET: &'static str = "\x1B[0m";

pub const C_BOLD: &'static str = "\x1B[1m";

pub const C_DIM: &'static str = "\x1B[2m";

pub const C_CYAN: &'static str = "\x1B[36m";

pub const C_GREEN: &'static str = "\x1B[32m";

pub const C_YELLOW: &'static str = "\x1B[33m";

pub const C_MAGENTA: &'static str = "\x1B[35m";

pub const C_RED: &'static str = "\x1B[31m";

/// Ring buffer capacity for an output rate: four seconds of stereo samples.
pub fn ring_capacity_for(output_rate: u32) -> (r: usize)
    requires
        output_rate * 8 <= usize::MAX,
    ensures
        r == output_rate * 2 * 4,
{
    output_rate as usize * 2 * 4
}

/// `a / b` rounded to the nearest whole number, halves up.
pub open spec fn rounded(a: int, b: int) -> int {
    (2 * a + b) / (2 * b)
}

/// Spectrum hops that make one column of the analysis spectrogram at a rate:
/// as many as fill the target frame time best, and at least one. A hop is half
/// an FFT window.
pub open spec fn hops_per_col(output_rate: nat) -> int {
    if output_rate == 0 {
        1
    } else {
        text::most(rounded(45 * (output_rate as int), 2048000), 1)
    }
}

/// Milliseconds one such column covers, at least one.
pub open spec fn frame_ms(output_rate: nat) -> int {
    if output_rate == 0 {
        45
    } else {
        text::most(rounded(hops_per_col(output_rate) * 2048000, output_rate as int), 1)
    }
}

fn count_hops(output_rate: u64) -> (n: u128)
    ensures
        n == hops_per_col(output_rate as nat),
        1 <= n <= text::most(output_rate as int, 1),
{
    if output_rate == 0 {
        return 1;
    }
    let n: u128 = (90 * (output_rate as u128) + 2048000) / 4096000;
    if n < 1 {
        1
    } else {
        n
    }
}

/// Hops that are gathered into one column, so that columns come at about the
/// same pace at every rate.
pub fn spectro_hops_per_col(output_rate: u64) -> (r: usize)
    ensures
        r == text::least(hops_per_col(output_rate as nat), usize::MAX as int),
{
    let n: u128 = count_hops(output_rate);
    if n > usize::MAX as u128 {
        usize::MAX
    } else {
        n as usize
    }
}

/// The time one column takes, which is also the time between two frames while
/// the analysis spectrogram scrolls: one column per frame.
pub fn spectro_frame_ms(output_rate: u64) -> (r: u64)
    ensures
        r == frame_ms(output_rate as nat),
{
    if output_rate == 0 {
        return SPECTRO_TARGET_FRAME_MS;
    }
    let hops: u128 = count_hops(output_rate);
    let rate: u128 = output_rate as u128;
    let n: u128 = (4096000 * hops + rate) / (2 * rate);
    assert(n <= 4096000 + 1) by (nonlinear_arith)
        requires
            n == (4096000 * hops + rate) / (2 * rate),
            1 <= rate,
            1 <= hops,
            hops <= rate,
    ;
    if n < 1 {
        1
    } else {
        n as u64
    }
}

/// What happens at the end of a track.
#[derive(Clone, Copy, Debug, PartialEq, Eq, Structural)]
pub enum RepeatMode {
    Off,
    All,
    One,
}

impl RepeatMode {
    /// The mode a stored number stands for; Off for an unknown one.
    pub open spec fn of_u8(v: u8) -> RepeatMode {
        if v == 1 {
            RepeatMode::All
        } else if v == 2 {
            RepeatMode::One
        } else {
            RepeatMode::Off
        }
    }

    /// The number a mode is stored as.
    pub open spec fn number(self) -> u8 {
        match self {
            RepeatMode::Off => 0,
            RepeatMode::All => 1,
            RepeatMode::One => 2,
        }
    }

    /// The mode that follows in the cycle.
    pub open spec fn succ(self) -> RepeatMode {
        match self {
            RepeatMode::Off => RepeatMode::All,
            RepeatMode::All => RepeatMode::One,
            RepeatMode::One => RepeatMode::Off,
        }
    }

    /// What the banner says of a mode.
    pub open spec fn banner(self) -> Seq<char> {
        match self {
            RepeatMode::Off => ""@,
            RepeatMode::All => " | repeat"@,
            RepeatMode::One => " | repeat-1"@,
        }
    }

    /// Reads a stored number.
    pub fn from_u8(value: u8) -> (r: Self)
        ensures
            r == RepeatMode::of_u8(value),
    {
        match value {
            1 => RepeatMode::All,
            2 => RepeatMode::One,
            _ => RepeatMode::Off,
        }
    }

    /// The number to store.
    pub fn to_u8(self) -> (r: u8)
        ensures
            r == self.number(),
    {
        match self {
            RepeatMode::Off => 0,
            RepeatMode::All => 1,
            RepeatMode::One => 2,
        }
    }

    /// The mode the next press of the repeat key selects.
    pub fn next(self) -> (r: Self)
        ensures
            r == self.succ(),
    {
        match self {
            RepeatMode::Off => RepeatMode::All,
            RepeatMode::All => RepeatMode::One,
            RepeatMode::One => RepeatMode::Off,
        }
    }

    /// The mode's part of the banner.
    pub fn label(self) -> (r: &'static str)
        ensures
            r@ == self.banner(),
    {
        match self {
            RepeatMode::Off => "",
            RepeatMode::All => " | repeat",
            RepeatMode::One => " | repeat-1",
        }
    }
}

/// How a visualisation draws.
#[derive(Clone, Copy, Debug, PartialEq, Eq, Structural)]
pub enum VizStyle {
    Bars,
    Dots,
}

impl VizStyle {
    /// The style a stored number stands for; Bars for an unknown one.
    pub open spec fn of_u8(v: u8) -> VizStyle {
        if v == 1 {
            VizStyle::Dots
        } else {
            VizStyle::Bars
        }
    }

    /// The other style.
    pub open spec fn other(self) -> VizStyle {
        match self {
            VizStyle::Bars => VizStyle::Dots,
            VizStyle::Dots => VizStyle::Bars,
        }
    }

    /// Reads a stored number.
    pub fn from_u8(value: u8) -> (r: Self)
        ensures
            r == VizStyle::of_u8(value),
    {
        match value {
            1 => VizStyle::Dots,
            _ => VizStyle::Bars,
        }
    }
}

/// Which loudness tags playback follows.
#[derive(Clone, Copy, Debug, PartialEq, Eq, Structural)]
pub enum RgMode {
    Track,
    Album,
    Off,
}

impl RgMode {
    /// The mode a stored number stands for; Track for an unknown one.
    pub open spec fn of_u8(v: u8) -> RgMode {
        if v == 1 {
            RgMode::Album
        } else if v == 2 {
            RgMode::Off
        } else {
            RgMode::Track
        }
    }

    /// The name a mode goes by.
    pub open spec fn label(self) -> Seq<char> {
        match self {
            RgMode::Track => "Track"@,
            RgMode::Album => "Album"@,
            RgMode::Off => "Off"@,
        }
    }

    /// The mode that a name, in any ASCII case, stands for.
    pub open spec fn of_name(s: Seq<char>) -> Option<RgMode> {
        let low = text::lowered(s);
        if low == "track"@ {
            Some(RgMode::Track)
        } else if low == "album"@ {
            Some(RgMode::Album)
        } else if low == "off"@ {
            Some(RgMode::Off)
        } else {
            None
        }
    }

    /// Reads a stored number.
    pub fn from_u8(value: u8) -> (r: Self)
        ensures
            r == RgMode::of_u8(value),
    {
        match value {
            1 => RgMode::Album,
            2 => RgMode::Off,
            _ => RgMode::Track,
        }
    }

    /// The mode's name.
    pub fn name(self) -> (r: &'static str)
        ensures
            r@ == self.label(),
    {
        match self {
            RgMode::Track => "Track",
            RgMode::Album => "Album",
            RgMode::Off => "Off",
        }
    }

    /// Reads a mode's name.
    pub fn from_str(s: &str) -> (r: Option<Self>)
        ensures
            r == RgMode::of_name(s@),
    {
        let low: String = ascii_lower(s);
        let l: &str = low.as_str();
        if l.eq("track") {
            Some(RgMode::Track)
        } else if l.eq("album") {
            Some(RgMode::Album)
        } else if l.eq("off") {
            Some(RgMode::Off)
        } else {
            None
        }
    }
}

/// What the visualiser shows.
#[derive(Clone, Copy, Debug, PartialEq, Eq, Structural)]
pub enum VizMode {
    Off,
    VuMeter,
    SpectrumHorizontal,
    SpectrumVertical,
    Oscilloscope,
    Lissajous,
    Spectrogram,
    SpectrogramAnalysis,
}

impl VizMode {
    /// The number a mode is stored as: its place in the cycle.
    pub open spec fn number(self) -> u8 {
        match self {
            VizMode::Off => 0,
            VizMode::VuMeter => 1,
            VizMode::SpectrumHorizontal => 2,
            VizMode::SpectrumVertical => 3,
            VizMode::Oscilloscope => 4,
            VizMode::Lissajous => 5,
            VizMode::Spectrogram => 6,
            VizMode::SpectrogramAnalysis => 7,
        }
    }

    /// The mode a stored number stands for; Off for an unknown one.
    pub open spec fn of_u8(v: u8) -> VizMode {
        if v == 1 {
            VizMode::VuMeter
        } else if v == 2 {
            VizMode::SpectrumHorizontal
        } else if v == 3 {
            VizMode::SpectrumVertical
        } else if v == 4 {
            VizMode::Oscilloscope
        } else if v == 5 {
            VizMode::Lissajous
        } else if v == 6 {
            VizMode::Spectrogram
        } else if v == 7 {
            VizMode::SpectrogramAnalysis
        } else {
            VizMode::Off
        }
    }

    /// The mode that follows in the cycle.
    pub open spec fn succ(self) -> VizMode {
        match self {
            VizMode::Off => VizMode::VuMeter,
            VizMode::VuMeter => VizMode::SpectrumHorizontal,
            VizMode::SpectrumHorizontal => VizMode::SpectrumVertical,
            VizMode::SpectrumVertical => VizMode::Oscilloscope,
            VizMode::Oscilloscope => VizMode::Lissajous,
            VizMode::Lissajous => VizMode::Spectrogram,
            VizMode::Spectrogram => VizMode::SpectrogramAnalysis,
            VizMode::SpectrogramAnalysis => VizMode::Off,
        }
    }

    /// The mode that a name or alias, in any ASCII case, stands for.
    pub open spec fn of_name(s: Seq<char>) -> Option<VizMode> {
        let low = text::lowered(s);
        if low == "none"@ || low == "off"@ {
            Some(VizMode::Off)
        } else if low == "vu"@ || low == "vumeter"@ || low == "vu-meter"@ {
            Some(VizMode::VuMeter)
        } else if low == "spectrum"@ || low == "spectrum-horizontal"@ {
            Some(VizMode::SpectrumHorizontal)
        } else if low == "spectrum-vertical"@ || low == "vertical"@ {
            Some(VizMode::SpectrumVertical)
        } else if low == "oscilloscope"@ || low == "scope"@ {
            Some(VizMode::Oscilloscope)
        } else if low == "lissajous"@ || low == "vector"@ {
            Some(VizMode::Lissajous)
        } else if low == "spectrogram"@ {
            Some(VizMode::Spectrogram)
        } else if low == "analysis"@ || low == "analysis-spectrogram"@ {
            Some(VizMode::SpectrogramAnalysis)
        } else {
            None
        }
    }

    /// The mode the next press of the visualiser key selects.
    pub fn next(self) -> (r: Self)
        ensures
            r == self.succ(),
    {
        match self {
            VizMode::Off => VizMode::VuMeter,
            VizMode::VuMeter => VizMode::SpectrumHorizontal,
            VizMode::SpectrumHorizontal => VizMode::SpectrumVertical,
            VizMode::SpectrumVertical => VizMode::Oscilloscope,
            VizMode::Oscilloscope => VizMode::Lissajous,
            VizMode::Lissajous => VizMode::Spectrogram,
            VizMode::Spectrogram => VizMode::SpectrogramAnalysis,
            VizMode::SpectrogramAnalysis => VizMode::Off,
        }
    }

    /// Reads a stored number.
    pub fn from_u8(value: u8) -> (r: Self)
        ensures
            r == VizMode::of_u8(value),
    {
        match value {
            1 => VizMode::VuMeter,
            2 => VizMode::SpectrumHorizontal,
            3 => VizMode::SpectrumVertical,
            4 => VizMode::Oscilloscope,
            5 => VizMode::Lissajous,
            6 => VizMode::Spectrogram,
            7 => VizMode::SpectrogramAnalysis,
            _ => VizMode::Off,
        }
    }

    /// Reads a mode's name or an alias of it.
    pub fn from_str(s: &str) -> (r: Option<Self>)
        ensures
            r == VizMode::of_name(s@),
    {
        let low: String = ascii_lower(s);
        let l: &str = low.as_str();
        if l.eq("none") || l.eq("off") {
            Some(VizMode::Off)
        } else if l.eq("vu") || l.eq("vumeter") || l.eq("vu-meter") {
            Some(VizMode::VuMeter)
        } else if l.eq("spectrum") || l.eq("spectrum-horizontal") {
            Some(VizMode::SpectrumHorizontal)
        } else if l.eq("spectrum-vertical") || l.eq("vertical") {
            Some(VizMode::SpectrumVertical)
        } else if l.eq("oscilloscope") || l.eq("scope") {
            Some(VizMode::Oscilloscope)
        } else if l.eq("lissajous") || l.eq("vector") {
            Some(VizMode::Lissajous)
        } else if l.eq("spectrogram") {
            Some(VizMode::Spectrogram)
        } else if l.eq("analysis") || l.eq("analysis-spectrogram") {
            Some(VizMode::SpectrogramAnalysis)
        } else {
            None
        }
    }
}

/// What was asked of playback, and not yet done.
pub struct Transport {
    pub paused: bool,
    pub quit: bool,
    pub skip_next: bool,
    pub skip_prev: bool,
    /// Seconds to move by; 0 asks for nothing.
    pub seek_request: i64,
    pub jump_to_track: Option<usize>,
    pub repeat_mode: RepeatMode,
}

/// The track that plays.
pub struct TrackInfo {
    pub current_track: usize,
    pub total_tracks: usize,
    /// Sample rate of the file.
    pub sample_rate: u32,
    /// Sample rate of the output stream.
    pub output_rate: u32,
    /// Frames in the file, at the file's rate.
    pub total_samples: u64,
    /// Frames played, at the output rate.
    pub samples_played: u64,
    pub channels: usize,
    pub bits_per_sample: usize,
}

/// What the decoder says of itself, and of the ring it fills.
pub struct Feed {
    pub producer_done: bool,
    pub track_info_ready: bool,
    pub buffer_level: usize,
    pub ring_capacity: usize,
    /// Asks the audio callback to drain the ring at once.
    pub reset_consumer_counter: bool,
    pub track_transition_count: usize,
    pub producer_track_index: usize,
    /// The track that is being decoded.
    pub producer_decoding: usize,
    /// Frames still queued from the previous track, which the clock lets pass.
    pub clock_preroll: u64,
    pub decode_error: Option<String>,
}

/// Levels of the meters, as bit patterns of floating-point numbers.
pub struct Meters {
    pub peak_left: u32,
    pub peak_right: u32,
    pub spectrum: [u32; SPECTRUM_BANDS],
    pub spectrum_r: [u32; SPECTRUM_BANDS],
    pub peak_dots: [u32; SPECTRUM_BANDS],
    pub vu_peak_dot_l: u32,
    pub vu_peak_dot_r: u32,
}

/// What the output device was asked for.
pub struct Device {
    pub exclusive: bool,
    pub rate_change_needed: bool,
    pub next_track_rate: u32,
    pub stream_error: bool,
}

/// How the player looks.
pub struct Look {
    pub viz_mode: VizMode,
    pub viz_style: VizStyle,
    pub theme: ThemeKind,
    pub pre_fader: bool,
    pub show_stats: bool,
}

/// A selection among some presets, and whether it changed since it was taken
/// note of.
pub struct Preset {
    pub index: usize,
    pub count: usize,
    pub changed: bool,
}

impl Preset {
    /// The selection moved by `dir`, wrapping at both ends.
    pub open spec fn stepped(self, dir: int) -> Preset {
        Preset {
            index: ((self.index + dir) % (self.count as int)) as usize,
            count: self.count,
            changed: true,
        }
    }
}

/// The state the decoder, the audio callback and the screen share.
pub struct PlayerState {
    pub transport: Transport,
    pub track: TrackInfo,
    pub producer: Feed,
    pub meters: Meters,
    /// Per cent; 100 is unity gain.
    pub volume: u32,
    /// From -100 (left) to 100 (right).
    pub balance: i32,
    pub eq: Preset,
    /// Live gains of the equaliser, in thousandths of a decibel.
    pub eq_gains: [i32; EQ_BANDS],
    /// The gains were edited away from the named preset.
    pub eq_custom: bool,
    pub effects: Preset,
    pub crossfeed: Preset,
    /// Seconds; 0 is no crossfade.
    pub crossfade_secs: u32,
    pub rg_mode: RgMode,
    pub clipping: bool,
    pub device: Device,
    pub look: Look,
}

impl PlayerState {
    /// A player that has just been started.
    pub fn new() -> (s: Self)
        ensures
            !s.transport.paused && !s.transport.quit && !s.transport.skip_next && !s.transport.skip_prev,
            s.transport.seek_request == 0,
            s.transport.jump_to_track is None,
            s.track.current_track == 0 && s.track.total_tracks == 0,
            s.track.sample_rate == 44100 && s.track.output_rate == 44100,
            s.track.total_samples == 0 && s.track.samples_played == 0,
            s.track.channels == 2 && s.track.bits_per_sample == 16,
            !s.producer.producer_done && !s.producer.track_info_ready,
            s.producer.buffer_level == 0,
            s.producer.ring_capacity == 48_000 * 2 * 4,
            !s.producer.reset_consumer_counter,
            s.look.viz_mode is Off,
            s.meters.peak_left == 0 && s.meters.peak_right == 0,
            forall|i: int| 0 <= i < SPECTRUM_BANDS ==> #[trigger] s.meters.spectrum@[i] == 0,
            forall|i: int| 0 <= i < SPECTRUM_BANDS ==> #[trigger] s.meters.spectrum_r@[i] == 0,
            forall|i: int| 0 <= i < SPECTRUM_BANDS ==> #[trigger] s.meters.peak_dots@[i] == 0,
            s.meters.vu_peak_dot_l == 0 && s.meters.vu_peak_dot_r == 0,
            s.volume == 100,
            s.eq.index == 0 && s.eq.count == 0,
            !s.eq.changed && !s.eq_custom,
            forall|i: int| 0 <= i < EQ_BANDS ==> #[trigger] s.eq_gains@[i] == 0,
            s.effects.index == 0 && s.effects.count == 0 && !s.effects.changed,
            !s.look.pre_fader && !s.look.show_stats,
            s.crossfade_secs == 0,
            s.look.viz_style is Dots,
            s.producer.decode_error is None,
            s.producer.track_transition_count == 0 && s.producer.producer_track_index == 0,
            s.producer.producer_decoding == 0 && s.producer.clock_preroll == 0,
            s.rg_mode is Track,
            !s.clipping,
            s.crossfeed.index == 0 && s.crossfeed.count == 0 && !s.crossfeed.changed,
            s.balance == 0,
            !s.device.exclusive && !s.device.rate_change_needed,
            s.device.next_track_rate == 0,
            !s.device.stream_error,
            s.transport.repeat_mode is Off,
            s.look.theme is Classic,
    {
        PlayerState { volume: 100, eq_gains: [0i32; EQ_BANDS], eq_custom: false, crossfade_secs: 0, rg_mode: RgMode::Track, clipping: false, balance: 0, transport: Transport { paused: false, quit: false, skip_next: false, skip_prev: false, seek_request: 0, jump_to_track: None, repeat_mode: RepeatMode::Off }, track: TrackInfo { current_track: 0, total_tracks: 0, sample_rate: 44100, output_rate: 44100, total_samples: 0, samples_played: 0, channels: 2, bits_per_sample: 16 }, producer: Feed { producer_done: false, track_info_ready: false, buffer_level: 0, ring_capacity: ring_capacity_for(48_000), reset_consumer_counter: false, decode_error: None, track_transition_count: 0, producer_track_index: 0, producer_decoding: 0, clock_preroll: 0 }, look: Look { viz_mode: VizMode::Off, pre_fader: false, show_stats: false, viz_style: VizStyle::Dots, theme: ThemeKind::Classic }, meters: Meters { peak_left: 0, peak_right: 0, spectrum: [0u32; SPECTRUM_BANDS], spectrum_r: [0u32; SPECTRUM_BANDS], peak_dots: [0u32; SPECTRUM_BANDS], vu_peak_dot_l: 0, vu_peak_dot_r: 0 }, eq: Preset { index: 0, count: 0, changed: false }, effects: Preset { index: 0, count: 0, changed: false }, crossfeed: Preset { index: 0, count: 0, changed: false }, device: Device { exclusive: false, rate_change_needed: false, next_track_rate: 0, stream_error: false } }
    }

    /// The active theme.
    pub fn theme_kind(&self) -> (r: ThemeKind)
        ensures
            r == self.look.theme,
    {
        self.look.theme
    }

    /// `self` under a theme. HiFi's meter needs a visualiser to feed it, so
    /// entering HiFi with none turns the VU meter on.
    pub open spec fn with_theme(self, kind: ThemeKind) -> PlayerState {
        PlayerState { look: Look { theme: kind, viz_mode: if kind is HiFi && self.look.viz_mode is Off {
                VizMode::VuMeter
            } else {
                self.look.viz_mode
            }, ..self.look }, ..self }
    }

    /// Selects a theme.
    pub fn set_theme(&mut self, kind: ThemeKind)
        ensures
            *final(self) == old(self).with_theme(kind),
    {
        let viz: VizMode = if kind == ThemeKind::HiFi && self.look.viz_mode == VizMode::Off {
            VizMode::VuMeter
        } else {
            self.look.viz_mode
        };
        self.look.theme = kind;
        self.look.viz_mode = viz;
    }

    /// Selects the next theme and returns it.
    pub fn cycle_theme(&mut self) -> (r: ThemeKind)
        ensures
            r == old(self).look.theme.succ(),
            *final(self) == old(self).with_theme(r),
    {
        let next: ThemeKind = self.look.theme.next();
        self.set_theme(next);
        next
    }

    /// The repeat mode.
    pub fn repeat_mode(&self) -> (r: RepeatMode)
        ensures
            r == self.transport.repeat_mode,
    {
        self.transport.repeat_mode
    }

    /// Pauses, or resumes.
    pub fn toggle_pause(&mut self)
        ensures
            *final(self) == (PlayerState { transport: Transport { paused: !old(self).transport.paused, ..old(self).transport }, ..*old(self) }),
    {
        self.transport.paused = !self.transport.paused;
    }

    /// Whether playback is paused.
    pub fn is_paused(&self) -> (r: bool)
        ensures
            r == self.transport.paused,
    {
        self.transport.paused
    }

    /// Asks everything to stop.
    pub fn quit(&mut self)
        ensures
            *final(self) == (PlayerState { transport: Transport { quit: true, ..old(self).transport }, ..*old(self) }),
    {
        self.transport.quit = true;
    }

    /// Whether everything was asked to stop.
    pub fn should_quit(&self) -> (r: bool)
        ensures
            r == self.transport.quit,
    {
        self.transport.quit
    }

    /// Asks for the next track.
    pub fn next(&mut self)
        ensures
            *final(self) == (PlayerState { transport: Transport { skip_next: true, ..old(self).transport }, ..*old(self) }),
    {
        self.transport.skip_next = true;
    }

    /// Asks for the previous track.
    pub fn prev(&mut self)
        ensures
            *final(self) == (PlayerState { transport: Transport { skip_prev: true, ..old(self).transport }, ..*old(self) }),
    {
        self.transport.skip_prev = true;
    }

    /// Asks for a track by its place in the playlist.
    pub fn jump_to(&mut self, index: usize)
        ensures
            *final(self) == (PlayerState { transport: Transport { jump_to_track: Some(index), ..old(self).transport }, ..*old(self) }),
    {
        self.transport.jump_to_track = Some(index);
    }

    /// Takes the requested track, if there is one.
    pub fn take_jump(&mut self) -> (r: Option<usize>)
        ensures
            r == old(self).transport.jump_to_track,
            *final(self) == (PlayerState { transport: Transport { jump_to_track: None, ..old(self).transport }, ..*old(self) }),
    {
        let r: Option<usize> = self.transport.jump_to_track;
        self.transport.jump_to_track = None;
        r
    }

    /// Takes a request for the next track.
    pub fn take_skip_next(&mut self) -> (r: bool)
        ensures
            r == old(self).transport.skip_next,
            *final(self) == (PlayerState { transport: Transport { skip_next: false, ..old(self).transport }, ..*old(self) }),
    {
        let r: bool = self.transport.skip_next;
        self.transport.skip_next = false;
        r
    }

    /// Takes a request for the previous track.
    pub fn take_skip_prev(&mut self) -> (r: bool)
        ensures
            r == old(self).transport.skip_prev,
            *final(self) == (PlayerState { transport: Transport { skip_prev: false, ..old(self).transport }, ..*old(self) }),
    {
        let r: bool = self.transport.skip_prev;
        self.transport.skip_prev = false;
        r
    }

    /// Asks to move by some seconds; a later request replaces an earlier one.
    pub fn seek(&mut self, secs: i64)
        ensures
            *final(self) == (PlayerState { transport: Transport { seek_request: secs, ..old(self).transport }, ..*old(self) }),
    {
        self.transport.seek_request = secs;
    }

    /// Takes the seconds to move by.
    pub fn take_seek(&mut self) -> (r: i64)
        ensures
            r == old(self).transport.seek_request,
            *final(self) == (PlayerState { transport: Transport { seek_request: 0, ..old(self).transport }, ..*old(self) }),
    {
        let r: i64 = self.transport.seek_request;
        self.transport.seek_request = 0;
        r
    }

    /// Five per cent louder, up to 150.
    pub fn volume_up(&mut self)
        ensures
            *final(self) == (PlayerState { volume: text::least(old(self).volume + 5, 150) as u32, ..*old(self) }),
    {
        let volume: u32 = if self.volume >= 145 {
            150
        } else {
            self.volume + 5
        };
        self.volume = volume;
    }

    /// Five per cent softer, down to 0.
    pub fn volume_down(&mut self)
        ensures
            *final(self) == (PlayerState { volume: text::minus(old(self).volume as int, 5) as u32, ..*old(self) }),
    {
        self.volume = self.volume.saturating_sub(5);
    }

    /// Whole seconds that `frames` at `rate` take; none at an unknown rate.
    pub open spec fn seconds(frames: u64, rate: u32) -> int {
        if rate > 0 {
            frames as int / rate as int
        } else {
            0
        }
    }

    /// Whole seconds played.
    pub fn time_secs(&self) -> (r: u64)
        ensures
            r == PlayerState::seconds(self.track.samples_played, self.track.output_rate),
    {
        if self.track.output_rate > 0 {
            self.track.samples_played / self.track.output_rate as u64
        } else {
            0
        }
    }

    /// Whole seconds of the track.
    pub fn total_secs(&self) -> (r: u64)
        ensures
            r == PlayerState::seconds(self.track.total_samples, self.track.sample_rate),
    {
        if self.track.sample_rate > 0 {
            self.track.total_samples / self.track.sample_rate as u64
        } else {
            0
        }
    }

    /// What the visualiser shows.
    pub fn viz_mode(&self) -> (r: VizMode)
        ensures
            r == self.look.viz_mode,
    {
        self.look.viz_mode
    }

    /// Selects the next visualisation.
    pub fn cycle_viz_mode(&mut self)
        ensures
            *final(self) == (PlayerState { look: Look { viz_mode: old(self).look.viz_mode.succ(), ..old(self).look }, ..*old(self) }),
    {
        self.look.viz_mode = self.look.viz_mode.next();
    }

    /// Moves the selected equaliser preset by `dir`, wrapping at both ends.
    /// Selecting a preset leaves the custom curve. Without presets nothing
    /// happens.
    pub fn step_eq_preset(&mut self, dir: i32)
        ensures
            old(self).eq.count == 0 ==> *final(self) == *old(self),
            old(self).eq.count > 0 ==> *final(self) == (PlayerState { eq_custom: false, eq: old(self).eq.stepped(dir as int), ..*old(self) }),
    {
        let count: usize = self.eq.count;
        if count == 0 {
            return;
        }
        self.eq.index = step_around(self.eq.index, dir, count);
        self.eq_custom = false;
        self.eq.changed = true;
    }

    /// The selected equaliser preset.
    pub fn eq_index(&self) -> (r: usize)
        ensures
            r == self.eq.index,
    {
        self.eq.index
    }

    /// Takes the note that the equaliser changed.
    pub fn take_eq_changed(&mut self) -> (r: bool)
        ensures
            r == old(self).eq.changed,
            *final(self) == (PlayerState { eq: Preset { changed: false, ..old(self).eq }, ..*old(self) }),
    {
        let r: bool = self.eq.changed;
        self.eq.changed = false;
        r
    }

    /// The live gains.
    pub fn eq_gains_array(&self) -> (r: [i32; EQ_BANDS])
        ensures
            r == self.eq_gains,
    {
        self.eq_gains
    }

    /// Sets all live gains.
    pub fn set_eq_gains(&mut self, gains: [i32; EQ_BANDS])
        ensures
            *final(self) == (PlayerState { eq_gains: gains, ..*old(self) }),
    {
        self.eq_gains = gains;
    }

    /// Whether the gains were edited away from the named preset.
    pub fn is_eq_custom(&self) -> (r: bool)
        ensures
            r == self.eq_custom,
    {
        self.eq_custom
    }

    /// Whether one band's gain was moved, within its limits: the curve is then a
    /// custom one, and the decoder is told. Without such a band nothing happens.
    pub open spec fn nudged(self, was: PlayerState, band: int, delta: int) -> bool {
        if 0 <= band < EQ_BANDS {
            &&& self.eq_gains@ == was.eq_gains@.update(
                band,
                equalizer::within(was.eq_gains@[band] + delta, -equalizer::EQ_GAIN_LIMIT, equalizer::EQ_GAIN_LIMIT as int) as i32,
            )
            &&& self == (PlayerState {
                eq_gains: self.eq_gains,
                eq_custom: true,
                eq: Preset { changed: true, ..was.eq },
                ..was
            })
        } else {
            self == was
        }
    }

    /// Moves one band's gain, within its limits, marks the curve custom and tells
    /// the decoder. Returns the gain; without such a band nothing happens.
    pub fn nudge_eq_gain(&mut self, band: usize, delta: i64) -> (r: i32)
        ensures
            final(self).nudged(*old(self), band as int, delta as int),
            band < EQ_BANDS ==> r == final(self).eq_gains@[band as int],
            band >= EQ_BANDS ==> r == 0,
    {
        if band >= EQ_BANDS {
            return 0;
        }
        let next: i128 = self.eq_gains[band] as i128 + delta as i128;
        let gain: i32 = if next < -12000 {
            -12000
        } else if next > 12000 {
            12000
        } else {
            next as i32
        };
        self.eq_gains[band] = gain;
        self.eq_custom = true;
        self.eq.changed = true;
        gain
    }

    /// Selects the next effects preset, wrapping. Without presets nothing
    /// happens.
    pub fn cycle_effects(&mut self)
        ensures
            old(self).effects.count == 0 ==> *final(self) == *old(self),
            old(self).effects.count > 0 ==> *final(self) == (PlayerState { effects: old(self).effects.stepped(1), ..*old(self) }),
    {
        let count: usize = self.effects.count;
        if count == 0 {
            return;
        }
        self.effects.index = step_around(self.effects.index, 1, count);
        self.effects.changed = true;
    }

    /// The selected effects preset.
    pub fn effects_index(&self) -> (r: usize)
        ensures
            r == self.effects.index,
    {
        self.effects.index
    }

    /// Takes the note that the effects changed.
    pub fn take_effects_changed(&mut self) -> (r: bool)
        ensures
            r == old(self).effects.changed,
            *final(self) == (PlayerState { effects: Preset { changed: false, ..old(self).effects }, ..*old(self) }),
    {
        let r: bool = self.effects.changed;
        self.effects.changed = false;
        r
    }

    /// Meters before the fader, or behind it.
    pub fn toggle_pre_fader(&mut self)
        ensures
            *final(self) == (PlayerState { look: Look { pre_fader: !old(self).look.pre_fader, ..old(self).look }, ..*old(self) }),
    {
        self.look.pre_fader = !self.look.pre_fader;
    }

    /// Whether the meters sit before the fader.
    pub fn is_pre_fader(&self) -> (r: bool)
        ensures
            r == self.look.pre_fader,
    {
        self.look.pre_fader
    }

    /// Shows the processor and memory figures, or hides them.
    pub fn toggle_stats(&mut self)
        ensures
            *final(self) == (PlayerState { look: Look { show_stats: !old(self).look.show_stats, ..old(self).look }, ..*old(self) }),
    {
        self.look.show_stats = !self.look.show_stats;
    }

    /// Whether the processor and memory figures are shown.
    pub fn show_stats(&self) -> (r: bool)
        ensures
            r == self.look.show_stats,
    {
        self.look.show_stats
    }

    /// How the visualiser draws.
    pub fn viz_style(&self) -> (r: VizStyle)
        ensures
            r == self.look.viz_style,
    {
        self.look.viz_style
    }

    /// Selects the other drawing style.
    pub fn toggle_viz_style(&mut self)
        ensures
            *final(self) == (PlayerState { look: Look { viz_style: old(self).look.viz_style.other(), ..old(self).look }, ..*old(self) }),
    {
        self.look.viz_style = match self.look.viz_style {
            VizStyle::Bars => VizStyle::Dots,
            VizStyle::Dots => VizStyle::Bars,
        };
    }

    /// Says that the decoder went on to a track. The count of transitions wraps.
    pub fn signal_next_track(&mut self, index: usize)
        ensures
            *final(self) == (PlayerState { producer: Feed { producer_track_index: index, track_transition_count: if old(self).producer.track_transition_count == usize::MAX {
                    0
                } else {
                    (old(self).producer.track_transition_count + 1) as usize
                }, ..old(self).producer }, ..*old(self) }),
    {
        self.producer.producer_track_index = index;
        self.producer.track_transition_count = self.producer.track_transition_count.wrapping_add(1);
    }

    /// The loudness mode.
    pub fn rg_mode(&self) -> (r: RgMode)
        ensures
            r == self.rg_mode,
    {
        self.rg_mode
    }

    /// Takes the note that the output clipped.
    pub fn is_clipping(&mut self) -> (r: bool)
        ensures
            r == old(self).clipping,
            *final(self) == (PlayerState { clipping: false, ..*old(self) }),
    {
        let r: bool = self.clipping;
        self.clipping = false;
        r
    }

    /// Selects the next crossfeed preset, wrapping. Without presets nothing
    /// happens.
    pub fn cycle_crossfeed(&mut self)
        ensures
            old(self).crossfeed.count == 0 ==> *final(self) == *old(self),
            old(self).crossfeed.count > 0 ==> *final(self) == (PlayerState { crossfeed: old(self).crossfeed.stepped(1), ..*old(self) }),
    {
        let count: usize = self.crossfeed.count;
        if count == 0 {
            return;
        }
        self.crossfeed.index = step_around(self.crossfeed.index, 1, count);
        self.crossfeed.changed = true;
    }

    /// The selected crossfeed preset.
    pub fn crossfeed_index(&self) -> (r: usize)
        ensures
            r == self.crossfeed.index,
    {
        self.crossfeed.index
    }

    /// Takes the note that the crossfeed changed.
    pub fn take_crossfeed_changed(&mut self) -> (r: bool)
        ensures
            r == old(self).crossfeed.changed,
            *final(self) == (PlayerState { crossfeed: Preset { changed: false, ..old(self).crossfeed }, ..*old(self) }),
    {
        let r: bool = self.crossfeed.changed;
        self.crossfeed.changed = false;
        r
    }

    /// Five to the left, down to -100.
    pub fn balance_left(&mut self)
        ensures
            *final(self) == (PlayerState { balance: text::most(old(self).balance - 5, -100) as i32, ..*old(self) }),
    {
        let balance: i32 = if self.balance <= -95 {
            -100
        } else {
            self.balance - 5
        };
        self.balance = balance;
    }

    /// Five to the right, up to 100.
    pub fn balance_right(&mut self)
        ensures
            *final(self) == (PlayerState { balance: text::least(old(self).balance + 5, 100) as i32, ..*old(self) }),
    {
        let balance: i32 = if self.balance >= 95 {
            100
        } else {
            self.balance + 5
        };
        self.balance = balance;
    }

    /// The stereo balance.
    pub fn balance_value(&self) -> (r: i32)
        ensures
            r == self.balance,
    {
        self.balance
    }

    /// Stores the peak levels.
    pub fn set_peaks(&mut self, left: u32, right: u32)
        ensures
            *final(self) == (PlayerState { meters: Meters { peak_left: left, peak_right: right, ..old(self).meters }, ..*old(self) }),
    {
        self.meters.peak_left = left;
        self.meters.peak_right = right;
    }

    /// The peak levels.
    pub fn get_peaks(&self) -> (r: (u32, u32))
        ensures
            r == (self.meters.peak_left, self.meters.peak_right),
    {
        (self.meters.peak_left, self.meters.peak_right)
    }

    /// Stores the left spectrum.
    pub fn set_spectrum(&mut self, bands: [u32; SPECTRUM_BANDS])
        ensures
            *final(self) == (PlayerState { meters: Meters { spectrum: bands, ..old(self).meters }, ..*old(self) }),
    {
        self.meters.spectrum = bands;
    }

    /// The left spectrum.
    pub fn get_spectrum(&self) -> (r: [u32; SPECTRUM_BANDS])
        ensures
            r == self.meters.spectrum,
    {
        self.meters.spectrum
    }

    /// Stores the right spectrum.
    pub fn set_spectrum_r(&mut self, bands: [u32; SPECTRUM_BANDS])
        ensures
            *final(self) == (PlayerState { meters: Meters { spectrum_r: bands, ..old(self).meters }, ..*old(self) }),
    {
        self.meters.spectrum_r = bands;
    }

    /// The right spectrum.
    pub fn get_spectrum_r(&self) -> (r: [u32; SPECTRUM_BANDS])
        ensures
            r == self.meters.spectrum_r,
    {
        self.meters.spectrum_r
    }

    /// Stores the peak dots of the spectrum.
    pub fn set_dots(&mut self, dots: [u32; SPECTRUM_BANDS])
        ensures
            *final(self) == (PlayerState { meters: Meters { peak_dots: dots, ..old(self).meters }, ..*old(self) }),
    {
        self.meters.peak_dots = dots;
    }

    /// The peak dots of the spectrum.
    pub fn get_dots(&self) -> (r: [u32; SPECTRUM_BANDS])
        ensures
            r == self.meters.peak_dots,
    {
        self.meters.peak_dots
    }

    /// Stores the peak dots of the VU meter.
    pub fn set_vu_dots(&mut self, left: u32, right: u32)
        ensures
            *final(self) == (PlayerState { meters: Meters { vu_peak_dot_l: left, vu_peak_dot_r: right, ..old(self).meters }, ..*old(self) }),
    {
        self.meters.vu_peak_dot_l = left;
        self.meters.vu_peak_dot_r = right;
    }

    /// The peak dots of the VU meter.
    pub fn get_vu_dots(&self) -> (r: (u32, u32))
        ensures
            r == (self.meters.vu_peak_dot_l, self.meters.vu_peak_dot_r),
    {
        (self.meters.vu_peak_dot_l, self.meters.vu_peak_dot_r)
    }
}

/// `cur` moved by `dir` around a circle of `count` places.
fn step_around(cur: usize, dir: i32, count: usize) -> (r: usize)
    requires
        count > 0,
    ensures
        r == (cur + dir) % (count as int),
        r < count,
{
    let c: usize = cur % count;
    if dir >= 0 {
        let d: usize = (dir as u32 as usize) % count;
        proof {
            vstd::arithmetic::div_mod::lemma_add_mod_noop(cur as int, dir as int, count as int);
        }
        if d >= count - c {
            proof {
                vstd::arithmetic::div_mod::lemma_small_mod((d - (count - c)) as nat, count as nat);
                vstd::arithmetic::div_mod::lemma_mod_multiples_vanish(1, c + d - count, count as int);
            }
            d - (count - c)
        } else {
            proof {
                vstd::arithmetic::div_mod::lemma_small_mod((c + d) as nat, count as nat);
            }
            c + d
        }
    } else {
        let k: u64 = (-(dir as i64)) as u64;
        let d: usize = (k % count as u64) as usize;
        proof {
            vstd::arithmetic::div_mod::lemma_sub_mod_noop(cur as int, k as int, count as int);
        }
        if c >= d {
            proof {
                vstd::arithmetic::div_mod::lemma_small_mod((c - d) as nat, count as nat);
            }
            c - d
        } else {
            proof {
                vstd::arithmetic::div_mod::lemma_small_mod((count - (d - c)) as nat, count as nat);
                vstd::arithmetic::div_mod::lemma_mod_multiples_vanish(1, c - d, count as int);
            }
            count - (d - c)
        }
    }
}

/// The view that fills the screen.
#[derive(Clone, Copy, Debug, PartialEq, Eq, Structural)]
pub enum ViewMode {
    Player,
    Playlist,
    Lyrics,
    Eq,
}

/// Where typed characters go.
#[derive(Debug)]
pub enum InputMode {
    Normal,
    Search(String),
    SavePlaylist(String),
}

/// A repeat mode is read back from the number it is stored as.
pub proof fn repeat_number_reads_back(m: RepeatMode)
    ensures
        RepeatMode::of_u8(m.number()) == m,
{
}

/// The repeat key comes back to where it started after three presses.
pub proof fn repeat_cycle_has_three_steps(m: RepeatMode)
    ensures
        m.succ().succ().succ() == m,
        m.succ() != m,
        m.succ().succ() != m,
{
}

/// A visualisation is read back from the number it is stored as.
pub proof fn viz_number_reads_back(m: VizMode)
    ensures
        VizMode::of_u8(m.number()) == m,
{
}

/// The visualiser key passes every mode once and comes back after eight
/// presses.
pub proof fn viz_cycle_passes_all(m: VizMode)
    ensures
        m.succ().succ().succ().succ().succ().succ().succ().succ() == m,
        m.succ().number() == (m.number() + 1) % 8,
{
}

/// The style key undoes itself.
pub proof fn style_toggle_undoes_itself(s: VizStyle)
    ensures
        s.other().other() == s,
        s.other() != s,
{
}

/// A loudness mode is read back from its name.
pub proof fn rg_name_reads_back(m: RgMode)
    ensures
        RgMode::of_name(m.label()) == Some(m),
{
    reveal_strlit("Track");
    reveal_strlit("Album");
    reveal_strlit("Off");
    reveal_strlit("track");
    reveal_strlit("album");
    reveal_strlit("off");
    assert(text::lowered("Track"@) =~= "track"@);
    assert(text::lowered("Album"@) =~= "album"@);
    assert(text::lowered("Off"@) =~= "off"@);
    assert("album"@ != "track"@) by {
        assert("album"@[0] != "track"@[0]);
    }
}

/// A theme change keeps the visualisation a user picked, and never leaves HiFi
/// without one.
pub proof fn theme_keeps_a_picked_visualisation(s: PlayerState, kind: ThemeKind)
    ensures
        s.with_theme(kind).look.theme == kind,
        !(s.look.viz_mode is Off) ==> s.with_theme(kind).look.viz_mode == s.look.viz_mode,
        !(s.with_theme(kind).look.theme is HiFi && s.with_theme(kind).look.viz_mode is Off),
{
}

/// The column time follows the column: at any rate one column is drawn in the
/// time it takes to produce it, to the nearest millisecond.
pub proof fn frame_time_is_column_time(rate: nat)
    requires
        rate > 0,
    ensures
        frame_ms(rate) >= 1,
        hops_per_col(rate) >= 1,
        rounded(hops_per_col(rate) * 2048000, rate as int) >= 1 ==> frame_ms(rate) == rounded(
            hops_per_col(rate) * 2048000,
            rate as int,
        ),
{
}

} // verus!
