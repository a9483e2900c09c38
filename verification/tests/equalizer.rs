use keet::equalizer::{
    bands_in_force, builtin_presets, eq_freq, format_freq, preset_is_active, render_eq_curve, BandSettings, BandType, EqPreset, EQ_FREQ_MAX,
    EQ_FREQ_MIN, EQ_GAIN_LIMIT, EQ_Q, EQ_Q_MAX,
};
use keet::state::PlayerState;

/// Thousandths of a number.
fn milli(x: f64) -> i32 {
    (x * 1000.0).round() as i32
}

fn gains_preset(gains: Vec<f64>) -> EqPreset {
    EqPreset {
        name: "x".into(),
        gains: gains.into_iter().map(milli).collect(),
        bands: Vec::new(),
        preamp: 0,
    }
}

fn band(kind: BandType, freq: f64, gain: f64, q: f64) -> BandSettings {
    BandSettings { kind, freq: milli(freq) as u32, gain: milli(gain), q: milli(q) as u32 }
}

/// A preset as it stands in a file: what is left out has its usual value.
fn preset_in(json: &str) -> EqPreset {
    let v: serde_json::Value = serde_json::from_str(json).unwrap();
    let mut p = EqPreset {
        name: v["name"].as_str().unwrap().to_string(),
        gains: Vec::new(),
        bands: Vec::new(),
        preamp: milli(v["preamp"].as_f64().unwrap_or(0.0)),
    };
    if let Some(g) = v["gains"].as_array() {
        p.gains = g.iter().map(|x| milli(x.as_f64().unwrap())).collect();
    }
    if let Some(b) = v["bands"].as_array() {
        for x in b {
            p.bands.push(BandSettings {
                kind: BandType::from_name(x["type"].as_str().unwrap()).unwrap(),
                freq: milli(x["freq"].as_f64().unwrap()) as u32,
                gain: milli(x["gain"].as_f64().unwrap_or(0.0)),
                q: x["q"].as_f64().map(|q| milli(q) as u32).unwrap_or(EQ_Q),
            });
        }
    }
    p
}

#[test]
fn gains_10_pads_truncates_and_clamps() {
    // Short list zero-pads to 10.
    let p = gains_preset(vec![3.0, -2.0]);
    assert_eq!(p.gains_10(), [3000, -2000, 0, 0, 0, 0, 0, 0, 0, 0]);
    // Long list truncates to 10.
    let p = gains_preset(vec![1.0; 12]);
    assert_eq!(p.gains_10().len(), 10);
    // Out-of-range clamps to the limit.
    let p = gains_preset(vec![99.0, -99.0]);
    assert_eq!(p.gains_10()[0], EQ_GAIN_LIMIT);
    assert_eq!(p.gains_10()[1], -EQ_GAIN_LIMIT);
}

#[test]
fn builtin_presets_are_ten_band_shapes() {
    let presets = builtin_presets();
    let by = |n: &str| presets.iter().find(|p| p.name == n).unwrap().gains_10();
    // Flat is silent.
    assert_eq!(by("Flat"), [0; 10]);
    // Bass Boost lifts the low bands, leaves the top flat.
    let bass = by("Bass Boost");
    assert!(bass[0] > 0 && bass[1] > 0);
    assert_eq!(bass[9], 0);
    // Treble Boost lifts the top, leaves the bottom flat.
    let treble = by("Treble Boost");
    assert!(treble[8] > 0 && treble[9] > 0);
    assert_eq!(treble[0], 0);
}

#[test]
fn legacy_preset_active_only_when_a_gain_is_nonzero() {
    let p = gains_preset(vec![0.0; 10]);
    assert!(!preset_is_active(&p.bands_10(), p.preamp_clamped()));
    let mut g = vec![0.0; 10];
    g[3] = 6.0;
    let p = gains_preset(g);
    assert!(preset_is_active(&p.bands_10(), p.preamp_clamped()));
}

#[test]
fn band_type_cycles_through_all_five_and_wraps() {
    let mut k = BandType::Peak;
    for _ in 0..5 {
        k = k.cycled(1);
    }
    assert_eq!(k, BandType::Peak, "5 steps must wrap to start");
    assert_eq!(BandType::Peak.cycled(-1), BandType::HighCut);
    for v in 0..=255u8 {
        let _ = BandType::from_u8(v); // total: no panic on any byte
    }
    assert_eq!(BandType::from_u8(BandType::LowShelf.as_u8()), BandType::LowShelf);
    assert_eq!(BandType::from_name(BandType::HighCut.name()), Some(BandType::HighCut));
}

#[test]
fn preset_bands_json_parses_pads_and_clamps() {
    let p = preset_in(
        r#"{
            "name": "AutoEq",
            "bands": [
                {"type": "low_shelf", "freq": 105.0, "gain": 5.5, "q": 0.71},
                {"type": "peak", "freq": 3300.0, "gain": -2.0},
                {"type": "high_cut", "freq": 10000.0},
                {"type": "peak", "freq": 5.0, "gain": 99.0, "q": 100.0}
            ]
        }"#,
    );
    let b = p.bands_10();
    assert_eq!(b[0].kind, BandType::LowShelf);
    assert_eq!(b[0].freq, 105000);
    assert_eq!(b[0].gain, 5500);
    assert_eq!(b[0].q, 710);
    // Omitted q falls back to the graphic default.
    assert_eq!(b[1].kind, BandType::Peak);
    assert_eq!(b[1].q, EQ_Q);
    // Cuts parse with gain defaulting to 0.
    assert_eq!(b[2].kind, BandType::HighCut);
    assert_eq!(b[2].gain, 0);
    // Out-of-range values clamp.
    assert_eq!(b[3].freq, EQ_FREQ_MIN);
    assert_eq!(b[3].gain, EQ_GAIN_LIMIT);
    assert_eq!(b[3].q, EQ_Q_MAX);
    // Unused slots load inert: Peak at the slot's ISO centre, 0 dB.
    assert_eq!(b[7].kind, BandType::Peak);
    assert_eq!(b[7].freq, eq_freq(7));
    assert_eq!(b[7].gain, 0);
}

#[test]
fn legacy_gains_preset_maps_to_peak_iso_bands() {
    let p = preset_in(r#"{"name": "old", "gains": [3.0, -2.0]}"#);
    let b = p.bands_10();
    for (i, band) in b.iter().enumerate() {
        assert_eq!(band.kind, BandType::Peak);
        assert_eq!(band.freq, eq_freq(i));
        assert_eq!(band.q, EQ_Q);
    }
    assert_eq!(b[0].gain, 3000);
    assert_eq!(b[1].gain, -2000);
    assert_eq!(b[2].gain, 0);
}

#[test]
fn load_bands_flat_is_inactive_but_a_cut_band_is_always_active() {
    let flat: Vec<BandSettings> = (0..10).map(BandSettings::inert).collect();
    assert!(!preset_is_active(&flat, 0), "all-flat peak bands must be inactive");

    let mut with_cut = flat;
    with_cut[0] = band(BandType::LowCut, 100.0, 0.0, 0.707);
    assert!(preset_is_active(&with_cut, 0), "a cut filters regardless of gain");
}

#[test]
fn a_preamp_alone_is_active() {
    let p = preset_in(r#"{"name": "pre only", "preamp": -6.02}"#);
    assert_eq!(p.preamp_clamped(), -6020);
    assert!(preset_is_active(&p.bands_10(), p.preamp_clamped()));
    let p = preset_in(r#"{"name": "no pre", "gains": [0.0]}"#);
    assert_eq!(p.preamp, 0);
    assert!(!preset_is_active(&p.bands_10(), p.preamp_clamped()));
}

#[test]
fn format_freq_is_compact_for_editor_labels() {
    assert_eq!(format_freq(31_000), "31");
    assert_eq!(format_freq(250_000), "250");
    assert_eq!(format_freq(1_000_000), "1k");
    assert_eq!(format_freq(3_300_000), "3.3k");
    assert_eq!(format_freq(16_000_000), "16k");
}

#[test]
fn render_eq_curve_draws_cuts_not_just_gains() {
    let flat: Vec<BandSettings> = (0..10).map(BandSettings::inert).collect();
    assert!(render_eq_curve(&flat, &vec![0; 20]).is_empty(), "flat set renders nothing");

    // A lone cut band has zero gain everywhere, and is drawn all the same.
    let mut cut_only = flat;
    cut_only[0] = band(BandType::LowCut, 200.0, 0.0, 0.707);
    assert!(!render_eq_curve(&cut_only, &vec![-9000; 20]).is_empty(), "cut-only set must draw a curve");
    assert_eq!(
        render_eq_curve(&cut_only, &vec![-9000, 0, 100, 101, 2500, 3001, 5001]),
        "  \x1B[2mEQ:\x1B[0m \x1B[36m█\x1B[2m·\x1B[2m·\x1B[32m▁\x1B[32m▂\x1B[33m▃\x1B[31m▅\x1B[0m"
    );
}

#[test]
fn clamping_twice_is_clamping_once() {
    let b = band(BandType::Peak, 90000.0, -40.0, 0.01).clamped();
    assert_eq!(b.clamped(), b);
    assert_eq!(b.freq, EQ_FREQ_MAX);
    assert_eq!(b.gain, -EQ_GAIN_LIMIT);
    assert!(b.is_effective());
    assert!(!BandSettings::inert(3).is_effective());
    assert_eq!(BandType::HighShelf.short_label(), "HS");
    assert!(BandType::Peak.uses_gain() && !BandType::LowCut.uses_gain());
}

#[test]
fn bands_in_force_are_the_presets_or_those_kept_by_hand() {
    let mut s = PlayerState::new();
    let presets = vec![EqPreset { name: "a".to_string(), gains: vec![3000, -20000], bands: Vec::new(), preamp: -30000 }];
    let kept = vec![BandSettings { kind: BandType::LowCut, freq: 80_000, gain: 1, q: 700 }];
    let (b, preamp) = bands_in_force(&s, &presets, &kept, 5);
    assert_eq!((b[0].gain, b[1].gain, preamp), (3000, -12000, -12000));
    s.eq.index = 9;
    let (b, preamp) = bands_in_force(&s, &presets, &kept, 5);
    assert!(b.len() == 10 && b.iter().all(|b| !b.is_effective()) && preamp == 0);
    s.eq_custom = true;
    s.eq_gains[0] = 4000;
    s.eq_gains[1] = 2000;
    let (b, preamp) = bands_in_force(&s, &presets, &kept, 5);
    assert_eq!((b[0].kind, b[0].freq, b[0].gain, b[0].q), (BandType::LowCut, 80_000, 4000, 700));
    assert_eq!((b[1].kind, b[1].freq, b[1].gain), (BandType::Peak, 62_000, 2000));
    assert_eq!(preamp, 5);
}
