//! The equaliser's bands and presets.
//!
//! Frequencies, gains and qualities are counted in thousandths: of a hertz, of a
//! decibel, of one. Numbers are rounded to the nearest, halves to the even one,
//! where fewer digits are shown.
use crate::state::{PlayerState, C_CYAN, C_DIM, C_GREEN, C_RED, C_RESET, C_YELLOW, EQ_BANDS};
use crate::text;
use crate::text::push_dec;
use vstd::prelude::*;

verus! {

/// Quality of a band that is not said otherwise: about an octave wide.
pub const EQ_Q: u32 = 1410;

/// Limit of the gains, up and down.
pub const EQ_GAIN_LIMIT: i32 = 12000;

pub const EQ_FREQ_MIN: u32 = 20000;

pub const EQ_FREQ_MAX: u32 = 20000000;

pub const EQ_Q_MIN: u32 = 300;

pub const EQ_Q_MAX: u32 = 10000;

/// The filter of a band.
#[derive(Clone, Copy, Debug, PartialEq, Eq, Structural)]
pub enum BandType {
    Peak,
    LowShelf,
    HighShelf,
    /// Takes away everything below the band's frequency.
    LowCut,
    /// Takes away everything above the band's frequency.
    HighCut,
}

impl BandType {
    /// The number of a filter.
    pub open spec fn number(self) -> u8 {
        match self {
            BandType::Peak => 0,
            BandType::LowShelf => 1,
            BandType::HighShelf => 2,
            BandType::LowCut => 3,
            BandType::HighCut => 4,
        }
    }

    /// The filter a number stands for; a peak for an unknown one.
    pub open spec fn of_u8(v: u8) -> BandType {
        if v == 1 {
            BandType::LowShelf
        } else if v == 2 {
            BandType::HighShelf
        } else if v == 3 {
            BandType::LowCut
        } else if v == 4 {
            BandType::HighCut
        } else {
            BandType::Peak
        }
    }

    /// What a filter is called in presets.
    pub open spec fn label(self) -> Seq<char> {
        match self {
            BandType::Peak => "peak"@,
            BandType::LowShelf => "low_shelf"@,
            BandType::HighShelf => "high_shelf"@,
            BandType::LowCut => "low_cut"@,
            BandType::HighCut => "high_cut"@,
        }
    }

    /// Two letters for a filter.
    pub open spec fn tag(self) -> Seq<char> {
        match self {
            BandType::Peak => "PK"@,
            BandType::LowShelf => "LS"@,
            BandType::HighShelf => "HS"@,
            BandType::LowCut => "LC"@,
            BandType::HighCut => "HC"@,
        }
    }

    /// Whether a filter has a gain; cuts have none.
    pub open spec fn has_gain(self) -> bool {
        !(self is LowCut || self is HighCut)
    }

    /// The filter `dir` steps further, around.
    pub open spec fn stepped(self, dir: int) -> BandType {
        BandType::of_u8(((self.number() + dir) % 5) as u8)
    }

    /// The number of a filter.
    pub fn as_u8(self) -> (r: u8)
        ensures
            r == self.number(),
    {
        match self {
            BandType::Peak => 0,
            BandType::LowShelf => 1,
            BandType::HighShelf => 2,
            BandType::LowCut => 3,
            BandType::HighCut => 4,
        }
    }

    /// The filter a number stands for; a peak for an unknown one.
    pub fn from_u8(v: u8) -> (r: Self)
        ensures
            r == BandType::of_u8(v),
    {
        match v {
            1 => BandType::LowShelf,
            2 => BandType::HighShelf,
            3 => BandType::LowCut,
            4 => BandType::HighCut,
            _ => BandType::Peak,
        }
    }

    /// The filter `dir` steps further, around.
    pub fn cycled(self, dir: i32) -> (r: Self)
        ensures
            r == self.stepped(dir as int),
    {
        let n: i64 = self.as_u8() as i64 + dir as i64;
        let shifted: u64 = (n + 4294967300) as u64;
        assert((n + 4294967300) % 5 == n % 5);
        BandType::from_u8((shifted % 5) as u8)
    }

    /// Whether a filter has a gain.
    pub fn uses_gain(self) -> (r: bool)
        ensures
            r == self.has_gain(),
    {
        match self {
            BandType::LowCut | BandType::HighCut => false,
            _ => true,
        }
    }

    /// What a filter is called in presets.
    pub fn name(self) -> (r: &'static str)
        ensures
            r@ == self.label(),
    {
        match self {
            BandType::Peak => "peak",
            BandType::LowShelf => "low_shelf",
            BandType::HighShelf => "high_shelf",
            BandType::LowCut => "low_cut",
            BandType::HighCut => "high_cut",
        }
    }

    /// The filter of a name.
    pub open spec fn of_name(s: Seq<char>) -> Option<BandType> {
        if s == "peak"@ {
            Some(BandType::Peak)
        } else if s == "low_shelf"@ {
            Some(BandType::LowShelf)
        } else if s == "high_shelf"@ {
            Some(BandType::HighShelf)
        } else if s == "low_cut"@ {
            Some(BandType::LowCut)
        } else if s == "high_cut"@ {
            Some(BandType::HighCut)
        } else {
            None
        }
    }

    /// The filter of a name.
    pub fn from_name(name: &str) -> (r: Option<Self>)
        ensures
            r == BandType::of_name(name@),
    {
        if name.eq("peak") {
            Some(BandType::Peak)
        } else if name.eq("low_shelf") {
            Some(BandType::LowShelf)
        } else if name.eq("high_shelf") {
            Some(BandType::HighShelf)
        } else if name.eq("low_cut") {
            Some(BandType::LowCut)
        } else if name.eq("high_cut") {
            Some(BandType::HighCut)
        } else {
            None
        }
    }

    /// Two letters for a filter.
    pub fn short_label(self) -> (r: &'static str)
        ensures
            r@ == self.tag(),
    {
        match self {
            BandType::Peak => "PK",
            BandType::LowShelf => "LS",
            BandType::HighShelf => "HS",
            BandType::LowCut => "LC",
            BandType::HighCut => "HC",
        }
    }
}

/// A filter is read back from its number and from its name.
pub proof fn band_type_reads_back(k: BandType)
    ensures
        BandType::of_u8(k.number()) == k,
        BandType::of_name(k.label()) == Some(k),
{
    reveal_strlit("peak");
    reveal_strlit("low_shelf");
    reveal_strlit("high_shelf");
    reveal_strlit("low_cut");
    reveal_strlit("high_cut");
    assert("peak"@.len() == 4 && "low_shelf"@.len() == 9 && "high_shelf"@.len() == 10);
    assert("low_cut"@.len() == 7 && "high_cut"@.len() == 8);
}

/// Five steps lead around, and a step back undoes a step.
pub proof fn band_types_go_around(k: BandType)
    ensures
        k.stepped(5) == k,
        k.stepped(1).stepped(-1) == k,
        k.stepped(1) != k,
{
}

/// One band of the equaliser.
#[derive(Clone, Copy, Debug, PartialEq, Eq, Structural)]
pub struct BandSettings {
    pub kind: BandType,
    pub freq: u32,
    pub gain: i32,
    pub q: u32,
}

/// Centre of a band that is not said otherwise: octaves from 31 Hz on.
pub open spec fn centre(slot: int) -> u32 {
    if slot <= 0 {
        31000
    } else if slot == 1 {
        62000
    } else if slot == 2 {
        125000
    } else if slot == 3 {
        250000
    } else if slot == 4 {
        500000
    } else if slot == 5 {
        1000000
    } else if slot == 6 {
        2000000
    } else if slot == 7 {
        4000000
    } else if slot == 8 {
        8000000
    } else {
        16000000
    }
}

/// Centre of a band that is not said otherwise.
pub fn eq_freq(slot: usize) -> (r: u32)
    ensures
        r == centre(slot as int),
{
    if slot == 0 {
        31000
    } else if slot == 1 {
        62000
    } else if slot == 2 {
        125000
    } else if slot == 3 {
        250000
    } else if slot == 4 {
        500000
    } else if slot == 5 {
        1000000
    } else if slot == 6 {
        2000000
    } else if slot == 7 {
        4000000
    } else if slot == 8 {
        8000000
    } else {
        16000000
    }
}

/// `x` moved into a range.
pub open spec fn within(x: int, low: int, high: int) -> int {
    if x < low {
        low
    } else if x > high {
        high
    } else {
        x
    }
}

fn clamp_u32(x: u32, low: u32, high: u32) -> (r: u32)
    ensures
        r == within(x as int, low as int, high as int),
{
    if x < low {
        low
    } else if x > high {
        high
    } else {
        x
    }
}

fn clamp_gain(x: i32) -> (r: i32)
    ensures
        r == within(x as int, -EQ_GAIN_LIMIT, EQ_GAIN_LIMIT as int),
{
    if x < -12000 {
        -12000
    } else if x > 12000 {
        12000
    } else {
        x
    }
}

impl BandSettings {
    /// A band that does nothing.
    pub open spec fn idle(slot: int) -> BandSettings {
        BandSettings { kind: BandType::Peak, freq: centre(slot), gain: 0, q: EQ_Q }
    }

    /// The band with everything in its range.
    pub open spec fn bounded(self) -> BandSettings {
        BandSettings {
            kind: self.kind,
            freq: within(self.freq as int, EQ_FREQ_MIN as int, EQ_FREQ_MAX as int) as u32,
            gain: within(self.gain as int, -EQ_GAIN_LIMIT, EQ_GAIN_LIMIT as int) as i32,
            q: within(self.q as int, EQ_Q_MIN as int, EQ_Q_MAX as int) as u32,
        }
    }

    /// Whether the band changes the sound: cuts always do, others with a gain.
    pub open spec fn effective(self) -> bool {
        !self.kind.has_gain() || self.gain >= 10 || self.gain <= -10
    }

    /// A band that does nothing.
    pub fn inert(slot: usize) -> (r: Self)
        ensures
            r == BandSettings::idle(slot as int),
    {
        BandSettings { kind: BandType::Peak, freq: eq_freq(slot), gain: 0, q: EQ_Q }
    }

    /// The band with everything in its range.
    pub fn clamped(self) -> (r: Self)
        ensures
            r == self.bounded(),
    {
        BandSettings {
            kind: self.kind,
            freq: clamp_u32(self.freq, EQ_FREQ_MIN, EQ_FREQ_MAX),
            gain: clamp_gain(self.gain),
            q: clamp_u32(self.q, EQ_Q_MIN, EQ_Q_MAX),
        }
    }

    /// Whether the band changes the sound.
    pub fn is_effective(&self) -> (r: bool)
        ensures
            r == self.effective(),
    {
        !self.kind.uses_gain() || self.gain >= 10 || self.gain <= -10
    }
}

/// Clamping twice is clamping once, and a band that does nothing stays so.
pub proof fn clamping_is_idempotent(b: BandSettings, slot: int)
    ensures
        b.bounded().bounded() == b.bounded(),
        BandSettings::idle(slot).bounded() == BandSettings::idle(slot),
        !BandSettings::idle(slot).effective(),
{
}

/// A preset: a gain per band, or whole bands, which come first.
pub struct EqPreset {
    pub name: String,
    pub gains: Vec<i32>,
    pub bands: Vec<BandSettings>,
    /// Gain ahead of all bands.
    pub preamp: i32,
}

/// The gain of band `i` in a list that may be too short.
pub open spec fn gain_at(gains: Seq<i32>, i: int) -> int {
    if 0 <= i < gains.len() {
        within(gains[i] as int, -EQ_GAIN_LIMIT, EQ_GAIN_LIMIT as int)
    } else {
        0
    }
}

impl EqPreset {
    /// Band `i` of the preset.
    pub open spec fn band_at(self, i: int) -> BandSettings {
        if self.bands@.len() == 0 {
            BandSettings { gain: gain_at(self.gains@, i) as i32, ..BandSettings::idle(i) }
        } else if i < self.bands@.len() {
            self.bands@[i].bounded()
        } else {
            BandSettings::idle(i)
        }
    }

    /// The gains of all bands: what is missing is no gain, what is too much is
    /// left out, and each is in its range.
    pub fn gains_10(&self) -> (g: Vec<i32>)
        ensures
            g@.len() == EQ_BANDS,
            forall|i: int| 0 <= i < EQ_BANDS ==> #[trigger] g@[i] == gain_at(self.gains@, i),
    {
        let mut g: Vec<i32> = Vec::new();
        let mut i: usize = 0;
        while i < EQ_BANDS
            invariant
                i <= EQ_BANDS,
                g@.len() == i,
                forall|k: int| 0 <= k < i ==> #[trigger] g@[k] == gain_at(self.gains@, k),
            decreases EQ_BANDS - i,
        {
            if i < self.gains.len() {
                g.push(clamp_gain(self.gains[i]));
            } else {
                g.push(0);
            }
            i = i + 1;
        }
        g
    }

    /// All bands of the preset: those it has, in their ranges, and bands that do
    /// nothing behind them; or its gains at the usual centres.
    pub fn bands_10(&self) -> (b: Vec<BandSettings>)
        ensures
            b@.len() == EQ_BANDS,
            forall|i: int| 0 <= i < EQ_BANDS ==> #[trigger] b@[i] == self.band_at(i),
    {
        let gains: Vec<i32> = self.gains_10();
        let mut b: Vec<BandSettings> = Vec::new();
        let mut i: usize = 0;
        while i < EQ_BANDS
            invariant
                i <= EQ_BANDS,
                gains@.len() == EQ_BANDS,
                forall|k: int| 0 <= k < EQ_BANDS ==> #[trigger] gains@[k] == gain_at(self.gains@, k),
                b@.len() == i,
                forall|k: int| 0 <= k < i ==> #[trigger] b@[k] == self.band_at(k),
            decreases EQ_BANDS - i,
        {
            if self.bands.len() == 0 {
                let mut band: BandSettings = BandSettings::inert(i);
                band.gain = gains[i];
                b.push(band);
            } else if i < self.bands.len() {
                b.push(self.bands[i].clamped());
            } else {
                b.push(BandSettings::inert(i));
            }
            i = i + 1;
        }
        b
    }

    /// The gain ahead of all bands, in its range.
    pub fn preamp_clamped(&self) -> (r: i32)
        ensures
            r == within(self.preamp as int, -EQ_GAIN_LIMIT, EQ_GAIN_LIMIT as int),
    {
        clamp_gain(self.preamp)
    }
}

/// Whether one of some bands does anything.
pub open spec fn any_effective(bands: Seq<BandSettings>) -> bool {
    exists|i: int| 0 <= i < bands.len() && (#[trigger] bands[i]).effective()
}

/// Whether a preset does anything: one of its bands does, or there is a gain
/// ahead of them.
pub fn preset_is_active(bands: &Vec<BandSettings>, preamp: i32) -> (r: bool)
    ensures
        r == (any_effective(bands@) || preamp >= 10 || preamp <= -10),
{
    let mut i: usize = 0;
    while i < bands.len()
        invariant
            i <= bands@.len(),
            forall|k: int| 0 <= k < i ==> !(#[trigger] bands@[k]).effective(),
        decreases bands@.len() - i,
    {
        if bands[i].is_effective() {
            assert(bands@[i as int].effective());
            return true;
        }
        i = i + 1;
    }
    preamp >= 10 || preamp <= -10
}

/// Gains of the built-in presets.
pub open spec fn builtin(i: int) -> (Seq<char>, Seq<i32>) {
    if i == 0 {
        ("Flat"@, seq![0i32, 0, 0, 0, 0, 0, 0, 0, 0, 0])
    } else if i == 1 {
        ("Bass Boost"@, seq![6000i32, 5000, 3000, 1000, 0, 0, 0, 0, 0, 0])
    } else if i == 2 {
        ("Treble Boost"@, seq![0i32, 0, 0, 0, 0, 0, 0, 2000, 4000, 5000])
    } else if i == 3 {
        ("Vocal"@, seq![0i32, 0, (-2000) as i32, 0, 0, 3000, 4000, 3000, 1000, 0])
    } else {
        ("Loudness"@, seq![4000i32, 3000, 1000, 0, 0, 0, 0, 0, 2000, 3000])
    }
}

fn shape(name: &str, gains: Vec<i32>) -> (p: EqPreset)
    ensures
        p.name@ == name@,
        p.gains == gains,
        p.bands@.len() == 0,
        p.preamp == 0,
{
    EqPreset { name: name.to_owned(), gains, bands: Vec::new(), preamp: 0 }
}

/// The built-in presets.
pub fn builtin_presets() -> (r: Vec<EqPreset>)
    ensures
        r@.len() == 5,
        forall|i: int|
            0 <= i < 5 ==> {
                let p = #[trigger] r@[i];
                p.name@ == builtin(i).0 && p.gains@ == builtin(i).1 && p.bands@.len() == 0 && p.preamp == 0
            },
{
    let mut r: Vec<EqPreset> = Vec::new();
    let flat: Vec<i32> = vec![0, 0, 0, 0, 0, 0, 0, 0, 0, 0];
    assert(flat@ =~= builtin(0).1);
    r.push(shape("Flat", flat));
    let bass: Vec<i32> = vec![6000, 5000, 3000, 1000, 0, 0, 0, 0, 0, 0];
    assert(bass@ =~= builtin(1).1);
    r.push(shape("Bass Boost", bass));
    let treble: Vec<i32> = vec![0, 0, 0, 0, 0, 0, 0, 2000, 4000, 5000];
    assert(treble@ =~= builtin(2).1);
    r.push(shape("Treble Boost", treble));
    let vocal: Vec<i32> = vec![0, 0, -2000, 0, 0, 3000, 4000, 3000, 1000, 0];
    assert(vocal@ =~= builtin(3).1);
    r.push(shape("Vocal", vocal));
    let loud: Vec<i32> = vec![4000, 3000, 1000, 0, 0, 0, 0, 0, 2000, 3000];
    assert(loud@ =~= builtin(4).1);
    r.push(shape("Loudness", loud));
    r
}

/// `a / b` rounded to the nearest whole number, halves to the even one.
pub open spec fn nearest(a: int, b: int) -> int {
    let q = a / b;
    let r = a % b;
    if 2 * r > b || (2 * r == b && q % 2 == 1) {
        q + 1
    } else {
        q
    }
}

/// `a / b` rounded to the nearest whole number, halves to the even one.
pub fn round_div(a: u32, b: u32) -> (r: u32)
    requires
        1 < b,
    ensures
        r == nearest(a as int, b as int),
{
    let q: u32 = a / b;
    let rest: u64 = (a % b) as u64;
    proof {
        assert(q <= a / 2) by (nonlinear_arith)
            requires
                q == a / b,
                b >= 2,
        ;
    }
    if 2 * rest > b as u64 || (2 * rest == b as u64 && q % 2 == 1) {
        q + 1
    } else {
        q
    }
}

/// A number of tenths, with one decimal.
pub open spec fn tenths(n: nat) -> Seq<char> {
    text::dec(n / 10) + "."@ + text::dec(n % 10)
}

/// Appends a number of tenths, with one decimal.
pub fn push_tenths(s: &mut String, n: u32)
    ensures
        final(s)@ == old(s)@ + tenths(n as nat),
{
    let ghost start = s@;
    push_dec(s, (n / 10) as u64);
    s.push_str(".");
    push_dec(s, (n % 10) as u64);
    assert(s@ =~= start + tenths(n as nat));
}

/// A short label for a frequency: 31, 250, 1k, 3.3k, 16k.
pub open spec fn freq_label(f: int) -> Seq<char> {
    if f >= 10_000_000 {
        text::dec(nearest(f, 1_000_000) as nat) + "k"@
    } else if f >= 1_000_000 {
        let near = f % 1_000_000;
        if near < 50_000 || near > 950_000 {
            text::dec(nearest(f, 1_000_000) as nat) + "k"@
        } else {
            tenths(nearest(f, 100_000) as nat) + "k"@
        }
    } else {
        text::dec(nearest(f, 1000) as nat)
    }
}

/// A short label for a frequency.
pub fn format_freq(freq: u32) -> (s: String)
    ensures
        s@ == freq_label(freq as int),
{
    let mut s: String = String::new();
    if freq >= 10_000_000 {
        push_dec(&mut s, round_div(freq, 1_000_000) as u64);
        s.push_str("k");
    } else if freq >= 1_000_000 {
        let near: u32 = freq % 1_000_000;
        if near < 50_000 || near > 950_000 {
            push_dec(&mut s, round_div(freq, 1_000_000) as u64);
        } else {
            push_tenths(&mut s, round_div(freq, 100_000));
        }
        s.push_str("k");
    } else {
        push_dec(&mut s, round_div(freq, 1000) as u64);
    }
    assert(s@ =~= freq_label(freq as int));
    s
}


/// The eighths of a block, from the ground up.
pub open spec fn rise(i: int) -> char {
    if i <= 1 {
        '\u{2581}'
    } else if i == 2 {
        '\u{2582}'
    } else if i == 3 {
        '\u{2583}'
    } else if i == 4 {
        '\u{2584}'
    } else if i == 5 {
        '\u{2585}'
    } else if i == 6 {
        '\u{2586}'
    } else if i == 7 {
        '\u{2587}'
    } else {
        '\u{2588}'
    }
}

/// A point of the curve: an eighth for each decibel up or down, its colour by
/// the gain, and a dot where there is next to none.
pub open spec fn curve_point(gain: int) -> Seq<char> {
    if gain > 100 {
        (if gain > 5000 {
            C_RED@
        } else if gain > 3000 {
            C_YELLOW@
        } else {
            C_GREEN@
        }).push(rise(within(gain, 1000, 8000) / 1000))
    } else if gain < -100 {
        C_CYAN@.push(rise(within(-gain, 1000, 8000) / 1000))
    } else {
        C_DIM@.push('\u{b7}')
    }
}

/// The first `n` points of the curve, behind its label.
pub open spec fn curve(gains: Seq<i32>, n: int) -> Seq<char>
    decreases n,
{
    if n <= 0 {
        "  "@ + C_DIM@ + "EQ:"@ + C_RESET@ + " "@
    } else {
        curve(gains, n - 1) + curve_point(gains[n - 1] as int)
    }
}

fn rise_char(i: i64) -> (c: char)
    ensures
        c == rise(i as int),
{
    if i <= 1 {
        '\u{2581}'
    } else if i == 2 {
        '\u{2582}'
    } else if i == 3 {
        '\u{2583}'
    } else if i == 4 {
        '\u{2584}'
    } else if i == 5 {
        '\u{2585}'
    } else if i == 6 {
        '\u{2586}'
    } else if i == 7 {
        '\u{2587}'
    } else {
        '\u{2588}'
    }
}

fn push_point(s: &mut String, gain: i32)
    ensures
        final(s)@ == old(s)@ + curve_point(gain as int),
{
    let ghost start = s@;
    let g: i64 = gain as i64;
    let size: i64 = if g < 0 {
        0 - g
    } else {
        g
    };
    let steps: i64 = if size < 1000 {
        1
    } else if size > 8000 {
        8
    } else {
        size / 1000
    };
    if g > 100 {
        if g > 5000 {
            s.push_str(C_RED);
        } else if g > 3000 {
            s.push_str(C_YELLOW);
        } else {
            s.push_str(C_GREEN);
        }
        s.push(rise_char(steps));
    } else if g < -100 {
        s.push_str(C_CYAN);
        s.push(rise_char(steps));
    } else {
        s.push_str(C_DIM);
        s.push('\u{b7}');
    }
    assert(s@ =~= start + curve_point(gain as int));
}

/// The curve of the equaliser on one line, from the gains that the bands come to
/// at some frequencies; empty where no band does anything.
pub fn render_eq_curve(bands: &Vec<BandSettings>, gains: &Vec<i32>) -> (r: String)
    ensures
        r@ == (if any_effective(bands@) {
            curve(gains@, gains@.len() as int) + C_RESET@
        } else {
            Seq::empty()
        }),
{
    if !preset_is_active(bands, 0) {
        return String::new();
    }
    let mut s: String = "  ".to_owned();
    s.push_str(C_DIM);
    s.push_str("EQ:");
    s.push_str(C_RESET);
    s.push_str(" ");
    let mut i: usize = 0;
    while i < gains.len()
        invariant
            i <= gains@.len(),
            s@ == curve(gains@, i as int),
        decreases gains@.len() - i,
    {
        push_point(&mut s, gains[i]);
        i = i + 1;
    }
    s.push_str(C_RESET);
    s
}

/// Whatever a preset says, each of its bands is in its range; where it names no
/// bands, they are peaks at the usual centres.
pub proof fn presets_are_legal(preset: EqPreset, i: int)
    requires
        0 <= i < EQ_BANDS,
    ensures
        ({
            let b = preset.band_at(i);
            &&& b.bounded() == b
            &&& preset.bands@.len() == 0 ==> b.kind is Peak && b.freq == centre(i) && b.q == EQ_Q
        }),
{
}

/// Band `i` that is in force: the one kept by hand with the gain that is set now,
/// or the chosen preset's; where there is no such preset, one that does nothing.
pub open spec fn band_in_force(
    s: PlayerState,
    presets: Seq<EqPreset>,
    custom: Seq<BandSettings>,
    i: int,
) -> BandSettings {
    if s.eq_custom {
        if i < custom.len() {
            BandSettings { gain: s.eq_gains@[i], ..custom[i] }
        } else {
            BandSettings { gain: s.eq_gains@[i], ..BandSettings::idle(i) }
        }
    } else if s.eq.index < presets.len() {
        presets[s.eq.index as int].band_at(i)
    } else {
        BandSettings::idle(i)
    }
}

/// The gain ahead of the bands that is in force.
pub open spec fn preamp_in_force(s: PlayerState, presets: Seq<EqPreset>, custom: i32) -> int {
    if s.eq_custom {
        custom as int
    } else if s.eq.index < presets.len() {
        within(presets[s.eq.index as int].preamp as int, -EQ_GAIN_LIMIT, EQ_GAIN_LIMIT as int)
    } else {
        0
    }
}

/// The bands in force and the gain ahead of them. `custom` and `custom_preamp` are
/// what was kept by hand.
pub fn bands_in_force(
    state: &PlayerState,
    presets: &Vec<EqPreset>,
    custom: &Vec<BandSettings>,
    custom_preamp: i32,
) -> (r: (Vec<BandSettings>, i32))
    ensures
        r.0@.len() == EQ_BANDS,
        forall|i: int|
            0 <= i < EQ_BANDS ==> #[trigger] r.0@[i] == band_in_force(*state, presets@, custom@, i),
        r.1 == preamp_in_force(*state, presets@, custom_preamp),
{
    if !state.eq_custom && state.eq.index < presets.len() {
        let p: &EqPreset = &presets[state.eq.index];
        return (p.bands_10(), p.preamp_clamped());
    }
    let mut bands: Vec<BandSettings> = Vec::new();
    let mut i: usize = 0;
    while i < EQ_BANDS
        invariant
            i <= EQ_BANDS,
            !(!state.eq_custom && state.eq.index < presets@.len()),
            bands@.len() == i,
            forall|k: int|
                0 <= k < i ==> #[trigger] bands@[k] == band_in_force(*state, presets@, custom@, k),
        decreases EQ_BANDS - i,
    {
        let kept: BandSettings = if state.eq_custom && i < custom.len() {
            custom[i]
        } else {
            BandSettings::inert(i)
        };
        let gain: i32 = if state.eq_custom {
            state.eq_gains[i]
        } else {
            0
        };
        bands.push(BandSettings { kind: kept.kind, freq: kept.freq, gain, q: kept.q });
        i = i + 1;
    }
    let preamp: i32 = if state.eq_custom {
        custom_preamp
    } else {
        0
    };
    (bands, preamp)
}

} // verus!
