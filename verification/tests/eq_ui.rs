use keet::eq_ui::{center_cell, render_eq_screen};
use keet::equalizer::{BandSettings, BandType};
use keet::theme::{palette, ThemeKind};

fn flat_bands() -> Vec<BandSettings> {
    (0..10).map(BandSettings::inert).collect()
}

fn pairs(p: &[(&str, &str)]) -> Vec<(String, String)> {
    p.iter().map(|(a, b)| (a.to_string(), b.to_string())).collect()
}

#[test]
fn eq_screen_has_header_labels_knobs_and_readouts() {
    let mut bands = flat_bands();
    bands[0].gain = 6000; // boost the 31 Hz band
    bands[9].gain = -6000; // cut the 16k band
    let p = palette(ThemeKind::HiFi);
    let readouts = pairs(&[("FX", "None"), ("XFEED", "Off"), ("BAL", "C"), ("RG", "Track")]);
    let lines = render_eq_screen(&bands, 0, "Custom", &readouts, '◆', &p, 24);

    let joined = lines.join("\n");
    assert!(joined.contains("E Q U A L I Z E R"));
    assert!(joined.contains('◆')); // a knob rendered
    assert!(joined.contains("16k")); // freq labels present
    assert!(joined.contains("+6")); // boosted band's dB value
    assert!(joined.contains("-6")); // cut band's dB value
    assert!(joined.contains("XFEED") && joined.contains("Track")); // readouts
}

#[test]
fn eq_screen_shows_parametric_band_details() {
    let mut bands = flat_bands();
    bands[2] = BandSettings { kind: BandType::LowShelf, freq: 105_000, gain: 5_500, q: 710 };
    bands[5] = BandSettings { kind: BandType::HighCut, freq: 10_000_000, gain: 0, q: 710 };
    let p = palette(ThemeKind::Classic);
    let lines = render_eq_screen(&bands, 2, "Custom", &pairs(&[]), '█', &p, 26);
    let joined = lines.join("\n");

    // Selected-band readout: full parametric detail.
    assert!(joined.contains("BAND"), "readout line present");
    assert!(joined.contains("LOW SHELF"), "type spelled out");
    assert!(joined.contains("105 Hz"), "frequency shown");
    assert!(joined.contains("+5.5 dB"), "fractional gain shown");
    assert!(joined.contains("Q 0.71"), "Q shown");
    // Type row markers and the moved band's freq label.
    assert!(joined.contains("LS"), "type row shows shelf marker");
    assert!(joined.contains("HC"), "type row shows cut marker");
    assert!(joined.contains("10k"), "moved band labels its own freq");
    // Cut bands display "cut" instead of a dB value.
    assert!(joined.contains("cut"), "cut band has no dB value");
}

#[test]
fn eq_screen_line_count_scales_with_height() {
    let bands = flat_bands();
    let p = palette(ThemeKind::Classic);
    let short = render_eq_screen(&bands, 0, "Flat", &pairs(&[]), '█', &p, 16);
    let tall = render_eq_screen(&bands, 0, "Flat", &pairs(&[]), '█', &p, 30);
    assert!(tall.len() > short.len());
}

#[test]
fn a_higher_gain_is_a_higher_knob() {
    let p = palette(ThemeKind::HiFi);
    let row_of = |gain: i32| {
        let mut bands = flat_bands();
        for b in bands.iter_mut() {
            b.gain = gain;
        }
        let lines = render_eq_screen(&bands, 0, "x", &pairs(&[]), '◆', &p, 30);
        lines.iter().position(|l| l.contains('◆')).unwrap()
    };
    assert!(row_of(12_000) < row_of(6_000));
    assert!(row_of(6_000) < row_of(0));
    assert!(row_of(0) < row_of(-12_000));
}

#[test]
fn cells_are_centred() {
    assert_eq!(center_cell("ab", 2, 6), "  ab  ");
    assert_eq!(center_cell("abc", 3, 6), " abc  ");
    assert_eq!(center_cell("abcdefg", 7, 6), "abcdefg");
}
