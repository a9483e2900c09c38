//! The equaliser's screen: ten sliders, what is written below them, and what
//! else shapes the sound. All themes share it.
use crate::equalizer;
use crate::equalizer::{format_freq, push_tenths, round_div, BandSettings, BandType};
use crate::state::EQ_BANDS;
use crate::text;
use crate::text::{char_count, push_dec, push_dec2, push_spaces};
use crate::theme::Palette;
use vstd::prelude::*;

verus! {

/// Columns of a band.
pub const BAND_W: usize = 6;

/// `s`, of which `vis` columns are seen, in the middle of `w` columns.
pub open spec fn centred(s: Seq<char>, vis: int, w: int) -> Seq<char> {
    let pad = text::minus(w, vis);
    text::spaces(pad / 2) + s + text::spaces(pad - pad / 2)
}

/// `s`, of which `vis` columns are seen, in the middle of `w` columns.
pub fn center_cell(s: &str, vis: usize, w: usize) -> (r: String)
    ensures
        r@ == centred(s@, vis as int, w as int),
{
    let pad: usize = if w > vis {
        w - vis
    } else {
        0
    };
    let mut r: String = String::new();
    push_spaces(&mut r, pad / 2);
    r.push_str(s);
    push_spaces(&mut r, pad - pad / 2);
    assert(r@ =~= centred(s@, vis as int, w as int));
    r
}

/// Rows of a slider: an odd number, so that one is in the middle.
pub open spec fn slider_rows(height: int) -> int {
    let n = equalizer::within(text::minus(height, 9), 5, 15);
    if n % 2 == 0 {
        n + 1
    } else {
        n
    }
}

/// The row of a gain on a slider of `h` rows: the first is the highest.
pub open spec fn gain_row(gain: int, h: int) -> int {
    equalizer::within(((12000 - gain) * (h - 1) * 2 + 24000) / 48000, 0, h - 1)
}

/// The row of a band's knob. A cut has no gain, and its knob is in the middle.
pub open spec fn knob_row(b: BandSettings, h: int) -> int {
    if b.kind.has_gain() {
        gain_row(b.gain as int, h)
    } else {
        h / 2
    }
}

/// A piece of text in a colour.
pub open spec fn tinted(color: Seq<char>, s: Seq<char>, p: Palette) -> Seq<char> {
    color + s + p.reset@
}

/// One cell of a slider.
pub open spec fn slider_cell(b: BandSettings, selected: bool, r: int, h: int, knob: char, p: Palette) -> Seq<char> {
    let k = knob_row(b, h);
    let mid = h / 2;
    if r == k {
        tinted(
            if selected {
                p.accent@
            } else if b.kind.has_gain() {
                p.fg@
            } else {
                p.warn@
            },
            seq![knob],
            p,
        )
    } else if r == mid {
        tinted(p.rule@, "\u{2500}"@, p)
    } else if (r > mid && r < k) || (r < mid && r > k) {
        tinted(
            if selected {
                p.accent@
            } else {
                p.dim@
            },
            "\u{2502}"@,
            p,
        )
    } else {
        " "@
    }
}

/// The scale beside row `r`.
pub open spec fn scale_mark(r: int, h: int) -> Seq<char> {
    if r == 0 {
        " 12"@
    } else if r == h / 2 {
        "  0"@
    } else if r == h - 1 {
        "-12"@
    } else {
        "   "@
    }
}

/// The cells of the first `n` bands in row `r`.
pub open spec fn slider_cells(
    bands: Seq<BandSettings>,
    selected: int,
    r: int,
    h: int,
    knob: char,
    p: Palette,
    n: int,
) -> Seq<char>
    decreases n,
{
    if n <= 0 {
        Seq::empty()
    } else {
        slider_cells(bands, selected, r, h, knob, p, n - 1) + centred(
            slider_cell(bands[n - 1], n - 1 == selected, r, h, knob, p),
            1,
            6,
        )
    }
}

/// Row `r` of the sliders.
pub open spec fn slider_line(
    bands: Seq<BandSettings>,
    selected: int,
    r: int,
    h: int,
    knob: char,
    p: Palette,
) -> Seq<char> {
    "  "@ + p.dim@ + scale_mark(r, h) + p.reset@ + " "@ + slider_cells(
        bands,
        selected,
        r,
        h,
        knob,
        p,
        bands.len() as int,
    )
}

/// The gain of a band in whole decibels, halves away from nothing.
pub open spec fn whole_db(gain: int) -> int {
    if gain < 0 {
        -((-gain + 500) / 1000)
    } else {
        (gain + 500) / 1000
    }
}

/// A whole number with its sign.
pub open spec fn signed(n: int) -> Seq<char> {
    if n < 0 {
        "-"@ + text::dec((-n) as nat)
    } else {
        "+"@ + text::dec(n as nat)
    }
}

/// What is written below a slider.
#[derive(Clone, Copy, Debug, PartialEq, Eq, Structural)]
pub enum Legend {
    Freq,
    Kind,
    Gain,
}

/// What is written below a band.
pub open spec fn legend_text(l: Legend, b: BandSettings) -> Seq<char> {
    match l {
        Legend::Freq => equalizer::freq_label(b.freq as int),
        Legend::Kind => b.kind.tag(),
        Legend::Gain => if b.kind.has_gain() {
            signed(whole_db(b.gain as int))
        } else {
            "cut"@
        },
    }
}

/// In which colour. What is usual is dim.
pub open spec fn legend_color(l: Legend, b: BandSettings, selected: bool, p: Palette) -> Seq<char> {
    if selected {
        p.accent@
    } else {
        match l {
            Legend::Freq => p.dim@,
            Legend::Kind => if b.kind is Peak {
                p.dim@
            } else {
                p.warn@
            },
            Legend::Gain => if !b.kind.has_gain() || whole_db(b.gain as int) != 0 {
                p.fg@
            } else {
                p.dim@
            },
        }
    }
}

/// What is written below the first `n` bands.
pub open spec fn legend_line(l: Legend, bands: Seq<BandSettings>, selected: int, p: Palette, n: int) -> Seq<char>
    decreases n,
{
    if n <= 0 {
        "      "@
    } else {
        let b = bands[n - 1];
        legend_line(l, bands, selected, p, n - 1) + centred(
            tinted(legend_color(l, b, n - 1 == selected, p), legend_text(l, b), p),
            legend_text(l, b).len() as int,
            6,
        )
    }
}

/// A filter in words.
pub open spec fn kind_words(k: BandType) -> Seq<char> {
    match k {
        BandType::Peak => "PEAK"@,
        BandType::LowShelf => "LOW SHELF"@,
        BandType::HighShelf => "HIGH SHELF"@,
        BandType::LowCut => "LOW CUT"@,
        BandType::HighCut => "HIGH CUT"@,
    }
}

/// A frequency with its unit.
pub open spec fn freq_words(f: int) -> Seq<char> {
    if f >= 1_000_000 {
        equalizer::tenths(equalizer::nearest(f, 100_000) as nat) + " kHz"@
    } else {
        text::dec(equalizer::nearest(f, 1000) as nat) + " Hz"@
    }
}

/// A gain with its sign and one decimal.
pub open spec fn gain_words(g: int) -> Seq<char> {
    if g < 0 {
        "-"@ + equalizer::tenths(equalizer::nearest(-g, 100) as nat)
    } else {
        "+"@ + equalizer::tenths(equalizer::nearest(g, 100) as nat)
    }
}

/// A quality with two decimals.
pub open spec fn quality_words(q: int) -> Seq<char> {
    let n = equalizer::nearest(q, 10);
    text::dec((n / 100) as nat) + "."@ + text::pad_left(text::dec((n % 100) as nat), '0', 2)
}

/// Between two entries of a line.
pub open spec fn separator(p: Palette) -> Seq<char> {
    " "@ + p.rule@ + "\u{b7}"@ + p.reset@ + " "@
}

/// Everything about the selected band.
pub open spec fn readout(selected: int, b: BandSettings, p: Palette) -> Seq<char> {
    let head = "  "@ + p.dim@ + "BAND"@ + p.reset@ + " "@ + p.accent@ + text::dec((selected + 1) as nat) + p.reset@
        + separator(p) + p.fg@ + kind_words(b.kind) + p.reset@ + separator(p) + p.fg@ + freq_words(
        b.freq as int,
    ) + p.reset@;
    let with_gain = if b.kind.has_gain() {
        head + separator(p) + p.fg@ + gain_words(b.gain as int) + " dB"@ + p.reset@
    } else {
        head
    };
    with_gain + separator(p) + p.fg@ + "Q "@ + quality_words(b.q as int) + p.reset@
}

/// The first `n` of the other settings.
pub open spec fn readouts_line(readouts: Seq<(String, String)>, p: Palette, n: int) -> Seq<char>
    decreases n,
{
    if n <= 0 {
        "  "@
    } else {
        readouts_line(readouts, p, n - 1) + (if n > 1 {
            "  "@ + p.rule@ + "\u{b7}"@ + p.reset@ + "  "@
        } else {
            Seq::empty()
        }) + (p.dim@ + readouts[n - 1].0@ + p.reset@ + " "@ + p.fg@ + readouts[n - 1].1@ + p.reset@)
    }
}

/// The first line.
pub open spec fn title_line(title: Seq<char>, p: Palette) -> Seq<char> {
    "  "@ + p.accent@ + p.bold@ + "E Q U A L I Z E R"@ + p.reset@ + "   "@ + p.dim@ + title + p.reset@
}

/// The rows of the sliders.
pub open spec fn slider_lines(
    bands: Seq<BandSettings>,
    selected: int,
    h: int,
    knob: char,
    p: Palette,
) -> Seq<Seq<char>> {
    Seq::new(h as nat, |r: int| slider_line(bands, selected, r, h, knob, p))
}

/// The whole screen.
pub open spec fn eq_screen(
    bands: Seq<BandSettings>,
    selected: int,
    title: Seq<char>,
    readouts: Seq<(String, String)>,
    knob: char,
    p: Palette,
    height: int,
) -> Seq<Seq<char>> {
    let n = bands.len() as int;
    seq![title_line(title, p), Seq::empty()] + slider_lines(bands, selected, slider_rows(height), knob, p) + seq![
        legend_line(Legend::Freq, bands, selected, p, n),
        legend_line(Legend::Kind, bands, selected, p, n),
        legend_line(Legend::Gain, bands, selected, p, n),
        Seq::empty(),
        readout(selected, bands[selected], p),
        Seq::empty(),
        readouts_line(readouts, p, readouts.len() as int),
    ]
}

/// Appends a piece of text in a colour.
pub fn push_tinted(out: &mut String, color: &str, s: &str, p: &Palette)
    ensures
        final(out)@ == old(out)@ + tinted(color@, s@, *p),
{
    let ghost start = out@;
    out.push_str(color);
    out.push_str(s);
    out.push_str(p.reset);
    assert(out@ =~= start + tinted(color@, s@, *p));
}

fn gain_row_of(gain: i32, h: usize) -> (r: usize)
    requires
        5 <= h <= 15,
    ensures
        r == gain_row(gain as int, h as int),
{
    proof {
        assert(-0x1_0000_0000 * 14 <= (12000 - gain) * (h - 1) <= 0x1_0000_0000 * 14) by (nonlinear_arith)
            requires
                -0x8000_0000 <= gain <= 0x7fff_ffff,
                5 <= h <= 15,
        ;
    }
    let n: i64 = (12000 - gain as i64) * (h as i64 - 1) * 2 + 24000;
    if n < 0 {
        assert(((12000 - gain) * (h - 1) * 2 + 24000) / 48000 < 0);
        0
    } else {
        let row: i64 = n / 48000;
        if row > h as i64 - 1 {
            h - 1
        } else {
            row as usize
        }
    }
}

fn knob_row_of(b: &BandSettings, h: usize) -> (r: usize)
    requires
        5 <= h <= 15,
    ensures
        r == knob_row(*b, h as int),
{
    if b.kind.uses_gain() {
        gain_row_of(b.gain, h)
    } else {
        h / 2
    }
}

fn slider_cell_of(b: &BandSettings, selected: bool, r: usize, h: usize, knob: char, p: &Palette) -> (s: String)
    requires
        5 <= h <= 15,
    ensures
        s@ == slider_cell(*b, selected, r as int, h as int, knob, *p),
{
    let k: usize = knob_row_of(b, h);
    let mid: usize = h / 2;
    let mut s: String = String::new();
    if r == k {
        let color: &str = if selected {
            p.accent
        } else if b.kind.uses_gain() {
            p.fg
        } else {
            p.warn
        };
        let mut glyph: String = String::new();
        glyph.push(knob);
        assert(glyph@ =~= seq![knob]);
        push_tinted(&mut s, color, glyph.as_str(), p);
    } else if r == mid {
        push_tinted(&mut s, p.rule, "\u{2500}", p);
    } else if (r > mid && r < k) || (r < mid && r > k) {
        let color: &str = if selected {
            p.accent
        } else {
            p.dim
        };
        push_tinted(&mut s, color, "\u{2502}", p);
    } else {
        s = " ".to_owned();
    }
    assert(s@ =~= slider_cell(*b, selected, r as int, h as int, knob, *p));
    s
}

fn slider_line_of(bands: &Vec<BandSettings>, selected: usize, r: usize, h: usize, knob: char, p: &Palette) -> (line:
    String)
    requires
        5 <= h <= 15,
    ensures
        line@ == slider_line(bands@, selected as int, r as int, h as int, knob, *p),
{
    let mut line: String = "  ".to_owned();
    line.push_str(p.dim);
    let mark: &str = if r == 0 {
        " 12"
    } else if r == h / 2 {
        "  0"
    } else if r == h - 1 {
        "-12"
    } else {
        "   "
    };
    line.push_str(mark);
    line.push_str(p.reset);
    line.push_str(" ");
    let ghost head = line@;
    let mut b: usize = 0;
    assert(line@ =~= head + slider_cells(bands@, selected as int, r as int, h as int, knob, *p, 0));
    while b < bands.len()
        invariant
            5 <= h <= 15,
            b <= bands@.len(),
            line@ == head + slider_cells(bands@, selected as int, r as int, h as int, knob, *p, b as int),
        decreases bands@.len() - b,
    {
        let cell: String = slider_cell_of(&bands[b], b == selected, r, h, knob, p);
        let wide: String = center_cell(cell.as_str(), 1, BAND_W);
        line.push_str(wide.as_str());
        b = b + 1;
        assert(line@ =~= head + slider_cells(bands@, selected as int, r as int, h as int, knob, *p, b as int));
    }
    line
}

fn whole_db_of(gain: i32) -> (r: i64)
    ensures
        r == whole_db(gain as int),
{
    let g: i64 = gain as i64;
    if g < 0 {
        0 - ((0 - g + 500) / 1000)
    } else {
        (g + 500) / 1000
    }
}

fn legend_text_of(l: Legend, b: &BandSettings) -> (s: String)
    ensures
        s@ == legend_text(l, *b),
{
    match l {
        Legend::Freq => format_freq(b.freq),
        Legend::Kind => b.kind.short_label().to_owned(),
        Legend::Gain => {
            if b.kind.uses_gain() {
                let n: i64 = whole_db_of(b.gain);
                let mut s: String = if n < 0 {
                    "-".to_owned()
                } else {
                    "+".to_owned()
                };
                push_dec(
                    &mut s,
                    if n < 0 {
                        (0 - n) as u64
                    } else {
                        n as u64
                    },
                );
                s
            } else {
                "cut".to_owned()
            }
        },
    }
}

fn legend_line_of(l: Legend, bands: &Vec<BandSettings>, selected: usize, p: &Palette) -> (line: String)
    ensures
        line@ == legend_line(l, bands@, selected as int, *p, bands@.len() as int),
{
    let mut line: String = "      ".to_owned();
    let mut i: usize = 0;
    while i < bands.len()
        invariant
            i <= bands@.len(),
            line@ == legend_line(l, bands@, selected as int, *p, i as int),
        decreases bands@.len() - i,
    {
        let b: BandSettings = bands[i];
        let label: String = legend_text_of(l, &b);
        let color: &str = if i == selected {
            p.accent
        } else {
            match l {
                Legend::Freq => p.dim,
                Legend::Kind => if b.kind == BandType::Peak {
                    p.dim
                } else {
                    p.warn
                },
                Legend::Gain => if !b.kind.uses_gain() || whole_db_of(b.gain) != 0 {
                    p.fg
                } else {
                    p.dim
                },
            }
        };
        let mut cell: String = String::new();
        push_tinted(&mut cell, color, label.as_str(), p);
        assert(cell@ =~= tinted(color@, label@, *p));
        let wide: String = center_cell(cell.as_str(), char_count(label.as_str()), BAND_W);
        line.push_str(wide.as_str());
        i = i + 1;
    }
    line
}

fn push_separator(s: &mut String, p: &Palette)
    ensures
        final(s)@ == old(s)@ + separator(*p),
{
    let ghost start = s@;
    s.push_str(" ");
    s.push_str(p.rule);
    s.push_str("\u{b7}");
    s.push_str(p.reset);
    s.push_str(" ");
    assert(s@ =~= start + separator(*p));
}

fn push_freq_words(s: &mut String, f: u32)
    ensures
        final(s)@ == old(s)@ + freq_words(f as int),
{
    let ghost start = s@;
    if f >= 1_000_000 {
        push_tenths(s, round_div(f, 100_000));
        s.push_str(" kHz");
    } else {
        push_dec(s, round_div(f, 1000) as u64);
        s.push_str(" Hz");
    }
    assert(s@ =~= start + freq_words(f as int));
}

fn push_gain_words(s: &mut String, g: i32)
    ensures
        final(s)@ == old(s)@ + gain_words(g as int),
{
    let ghost start = s@;
    let n: u32 = if g < 0 {
        s.push_str("-");
        (0 - g as i64) as u32
    } else {
        s.push_str("+");
        g as u32
    };
    push_tenths(s, round_div(n, 100));
    assert(s@ =~= start + gain_words(g as int));
}

fn push_quality_words(s: &mut String, q: u32)
    ensures
        final(s)@ == old(s)@ + quality_words(q as int),
{
    let ghost start = s@;
    let n: u32 = round_div(q, 10);
    push_dec(s, (n / 100) as u64);
    s.push_str(".");
    push_dec2(s, (n % 100) as u64);
    assert(s@ =~= start + quality_words(q as int));
}

fn band_readout(selected: usize, b: &BandSettings, p: &Palette) -> (s: String)
    requires
        selected < EQ_BANDS,
    ensures
        s@ == readout(selected as int, *b, *p),
{
    let mut s: String = "  ".to_owned();
    s.push_str(p.dim);
    s.push_str("BAND");
    s.push_str(p.reset);
    s.push_str(" ");
    s.push_str(p.accent);
    push_dec(&mut s, selected as u64 + 1);
    s.push_str(p.reset);
    push_separator(&mut s, p);
    s.push_str(p.fg);
    let kind: &str = match b.kind {
        BandType::Peak => "PEAK",
        BandType::LowShelf => "LOW SHELF",
        BandType::HighShelf => "HIGH SHELF",
        BandType::LowCut => "LOW CUT",
        BandType::HighCut => "HIGH CUT",
    };
    s.push_str(kind);
    s.push_str(p.reset);
    push_separator(&mut s, p);
    s.push_str(p.fg);
    push_freq_words(&mut s, b.freq);
    s.push_str(p.reset);
    if b.kind.uses_gain() {
        push_separator(&mut s, p);
        s.push_str(p.fg);
        push_gain_words(&mut s, b.gain);
        s.push_str(" dB");
        s.push_str(p.reset);
    }
    push_separator(&mut s, p);
    s.push_str(p.fg);
    s.push_str("Q ");
    push_quality_words(&mut s, b.q);
    s.push_str(p.reset);
    s
}

fn readouts_line_of(readouts: &Vec<(String, String)>, p: &Palette) -> (s: String)
    ensures
        s@ == readouts_line(readouts@, *p, readouts@.len() as int),
{
    let mut s: String = "  ".to_owned();
    let mut i: usize = 0;
    while i < readouts.len()
        invariant
            i <= readouts@.len(),
            s@ == readouts_line(readouts@, *p, i as int),
        decreases readouts@.len() - i,
    {
        if i > 0 {
            s.push_str("  ");
            s.push_str(p.rule);
            s.push_str("\u{b7}");
            s.push_str(p.reset);
            s.push_str("  ");
        }
        s.push_str(p.dim);
        s.push_str(readouts[i].0.as_str());
        s.push_str(p.reset);
        s.push_str(" ");
        s.push_str(p.fg);
        s.push_str(readouts[i].1.as_str());
        s.push_str(p.reset);
        i = i + 1;
        assert(s@ =~= readouts_line(readouts@, *p, i as int));
    }
    s
}

/// The lines of the equaliser's screen. `knob` is the theme's glyph for a
/// slider's knob, `readouts` holds labels and values of what else shapes the
/// sound.
pub fn render_eq_screen(
    bands: &Vec<BandSettings>,
    selected: usize,
    title: &str,
    readouts: &Vec<(String, String)>,
    knob: char,
    p: &Palette,
    height: usize,
) -> (out: Vec<String>)
    requires
        bands@.len() == EQ_BANDS,
        selected < EQ_BANDS,
    ensures
        text::texts(out@) == eq_screen(
            bands@,
            selected as int,
            title@,
            readouts@,
            knob,
            *p,
            height as int,
        ),
        out@.len() == slider_rows(height as int) + 9,
{
    let room: usize = if height > 9 {
        height - 9
    } else {
        0
    };
    let n: usize = if room < 5 {
        5
    } else if room > 15 {
        15
    } else {
        room
    };
    let h: usize = if n % 2 == 0 {
        n + 1
    } else {
        n
    };
    let mut out: Vec<String> = Vec::new();
    let mut head: String = "  ".to_owned();
    head.push_str(p.accent);
    head.push_str(p.bold);
    head.push_str("E Q U A L I Z E R");
    head.push_str(p.reset);
    head.push_str("   ");
    head.push_str(p.dim);
    head.push_str(title);
    head.push_str(p.reset);
    out.push(head);
    out.push(String::new());
    let ghost top = seq![title_line(title@, *p), Seq::<char>::empty()];
    let ghost rows = slider_lines(bands@, selected as int, h as int, knob, *p);
    assert(text::texts(out@) =~= top + rows.take(0));
    let mut r: usize = 0;
    while r < h
        invariant
            5 <= h <= 15,
            r <= h,
            rows == slider_lines(bands@, selected as int, h as int, knob, *p),
            text::texts(out@) == top + rows.take(r as int),
        decreases h - r,
    {
        let line: String = slider_line_of(bands, selected, r, h, knob, p);
        let ghost lv = line@;
        let ghost prev = out@;
        out.push(line);
        assert(text::texts(out@) =~= text::texts(prev).push(lv));
        assert(rows[r as int] == lv);
        r = r + 1;
        assert(text::texts(out@) =~= top + rows.take(r as int));
    }
    assert(rows.take(h as int) =~= rows);
    let freq: String = legend_line_of(Legend::Freq, bands, selected, p);
    let kind: String = legend_line_of(Legend::Kind, bands, selected, p);
    let gain: String = legend_line_of(Legend::Gain, bands, selected, p);
    let detail: String = band_readout(selected, &bands[selected], p);
    let others: String = readouts_line_of(readouts, p);
    let ghost before = out@;
    let ghost tail = seq![freq@, kind@, gain@, Seq::<char>::empty(), detail@, Seq::<char>::empty(), others@];
    out.push(freq);
    out.push(kind);
    out.push(gain);
    out.push(String::new());
    out.push(detail);
    out.push(String::new());
    out.push(others);
    assert(text::texts(out@) =~= text::texts(before) + tail);
    assert(text::texts(out@).len() == out@.len());
    out
}

/// Every knob is on its slider, and a higher gain is never lower on it. Without a
/// gain the knob is in the middle.
pub proof fn knobs_follow_gains(a: int, b: int, h: int)
    requires
        h >= 5,
        h % 2 == 1,
        a <= b,
    ensures
        0 <= gain_row(a, h) <= h - 1,
        gain_row(b, h) <= gain_row(a, h),
        gain_row(0, h) == h / 2,
{
    assert((12000 - b) * (h - 1) <= (12000 - a) * (h - 1)) by (nonlinear_arith)
        requires
            a <= b,
            h >= 5,
    ;
    let x = (12000 - b) * (h - 1);
    let y = (12000 - a) * (h - 1);
    assert((x * 2 + 24000) / 48000 <= (y * 2 + 24000) / 48000);
    assert((12000 - 0) * (h - 1) == 12000 * (h - 1));
    assert((12000 * (h - 1) * 2 + 24000) / 48000 == h / 2) by {
        let k = h / 2;
        assert(h - 1 == 2 * k);
        assert(12000 * (2 * k) * 2 == 48000 * k);
        assert((48000 * k + 24000) / 48000 == k);
    }
}

/// A taller window never shows shorter sliders.
pub proof fn sliders_grow_with_the_window(a: int, b: int)
    requires
        0 <= a <= b,
    ensures
        slider_rows(a) <= slider_rows(b),
        5 <= slider_rows(a) <= 15,
        slider_rows(a) % 2 == 1,
{
}

} // verus!
