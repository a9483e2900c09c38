use keet::config::{apply_config, Config};
use keet::equalizer::{BandSettings, BandType};
use keet::launch::{flag_value, has_flag, options, start, Start};
use keet::metadata::MetadataCache;
use keet::resume::{
    build_resume_state, choose_preset, find_alike, find_named, launch_device, launch_exclusive, launch_theme, resume,
    resumed_bands, resumed_repeat, resumed_seek, resumed_track, ResumeState, Setup,
};
use keet::state::{PlayerState, Preset, RepeatMode, RgMode, VizMode};
use keet::theme::ThemeKind;
use keet::ui_state::UiState;

fn list(s: &[&str]) -> Vec<String> {
    s.iter().map(|x| x.to_string()).collect()
}

fn kept() -> ResumeState {
    ResumeState {
        source_paths: list(&["/music"]),
        track_path: "/music/a.flac".to_string(),
        position: 1_500_000_000,
        shuffle: false,
        repeat: false,
        volume: 90,
        eq_preset: "Flat".to_string(),
        effects_preset: "None".to_string(),
        repeat_mode: None,
        rg_mode: None,
        device: None,
        exclusive: None,
        crossfeed_preset: None,
        balance: None,
        theme: None,
        eq_gains: Some(vec![1000, -2000]),
        eq_custom: Some(true),
        eq_types: None,
        eq_freqs: None,
        eq_qs: None,
        eq_preamp: None,
    }
}

#[test]
fn older_sessions_have_plain_bands() {
    let mut rs = kept();
    let b = resumed_bands(&rs).unwrap();
    assert_eq!(b.len(), 10);
    assert_eq!((b[0].gain, b[1].gain, b[2].gain), (1000, -2000, 0));
    assert_eq!(b[0].kind, BandType::Peak);
    rs.eq_types = Some(list(&["low_shelf", "nonsense"]));
    rs.eq_freqs = Some(vec![105_000, 3_300_000]);
    rs.eq_qs = Some(vec![710, 2_000]);
    let b = resumed_bands(&rs).unwrap();
    assert_eq!(b[0], BandSettings { kind: BandType::LowShelf, freq: 105_000, gain: 1000, q: 710 });
    assert_eq!(b[1].kind, BandType::Peak);
    assert_eq!(b[2], BandSettings::inert(2));
    rs.eq_custom = None;
    assert!(resumed_bands(&rs).is_none());
}

#[test]
fn sessions_are_taken_up_as_they_were_left() {
    let eq = list(&["Flat", "Rock", "Vocal"]);
    let fx = list(&["None", "Hall"]);
    let cf = list(&["Off", "Light"]);
    let mut s = PlayerState::new();
    s.volume = 55;
    s.balance = -30;
    s.rg_mode = RgMode::Album;
    s.eq.index = 2;
    s.effects.index = 1;
    s.eq_custom = true;
    s.eq_gains[3] = 4000;
    s.look.theme = ThemeKind::HiFi;
    s.device.exclusive = true;
    s.track.samples_played = 44100 * 7 + 30000;
    let mut u = UiState::new(list(&["/music"]), MetadataCache::new(2));
    u.queue.shuffle = true;
    u.queue.repeat_mode = RepeatMode::One;
    u.queue.current = 1;
    let mut bands: Vec<BandSettings> = (0..10).map(BandSettings::inert).collect();
    bands[3].gain = 4000;
    bands[3].kind = BandType::HighShelf;
    let setup = Setup {
        eq_name: "Vocal".to_string(),
        fx_name: "Hall".to_string(),
        cf_name: "Light".to_string(),
        bands: bands.clone(),
        preamp: -500,
        device: Some("DAC".to_string()),
    };
    let playlist = list(&["/a", "/b"]);
    let rs = build_resume_state(&u, &playlist, &s, &setup);
    assert_eq!(rs.track_path, "/b");
    assert_eq!(rs.rg_mode.as_deref(), Some("album"));
    assert_eq!(rs.theme.as_deref(), Some("hifi"));
    assert_eq!(rs.position, 7_680_272_108);
    assert_eq!(resumed_seek(&rs), Some(8));
    assert_eq!(resumed_repeat(&rs), RepeatMode::One);
    assert_eq!(resumed_track(&playlist, &rs, 0), 1);
    let mut again = PlayerState::new();
    let b = resume(&mut again, &rs, &eq, &fx, &cf).unwrap();
    assert_eq!(b, bands);
    assert_eq!((again.volume, again.balance, again.rg_mode), (55, -30, RgMode::Album));
    assert_eq!((again.eq.index, again.effects.index, again.crossfeed.index), (2, 1, 1));
    assert_eq!(again.eq_gains, s.eq_gains);
    assert!(again.eq_custom);
    let rs = Some(rs);
    assert_eq!(launch_theme(&None, None, &rs), ThemeKind::HiFi);
    assert_eq!(launch_theme(&None, Some(ThemeKind::Minimal), &rs), ThemeKind::Minimal);
    assert_eq!(launch_theme(&Some("classic".to_string()), Some(ThemeKind::Minimal), &rs), ThemeKind::Classic);
    assert_eq!(launch_device(None, &rs), Some("DAC".to_string()));
    assert_eq!(launch_device(Some("USB".to_string()), &rs), Some("USB".to_string()));
    assert!(launch_exclusive(false, &rs) && !launch_exclusive(false, &None) && launch_exclusive(true, &None));
}

#[test]
fn older_ways_of_repeating_are_understood() {
    let mut rs = kept();
    assert_eq!(resumed_repeat(&rs), RepeatMode::Off);
    rs.repeat = true;
    assert_eq!(resumed_repeat(&rs), RepeatMode::All);
    rs.repeat_mode = Some("off".to_string());
    assert_eq!(resumed_repeat(&rs), RepeatMode::Off);
    rs.repeat_mode = Some("what".to_string());
    assert_eq!(resumed_repeat(&rs), RepeatMode::All);
    rs.position = 400_000_000;
    assert_eq!(resumed_seek(&rs), None);
    rs.position = -5;
    assert_eq!(resumed_seek(&rs), None);
    rs.balance = Some(-250);
    let mut s = PlayerState::new();
    resume(&mut s, &rs, &list(&["Flat"]), &list(&["None"]), &list(&["Off"]));
    assert_eq!(s.balance, -100);
}

#[test]
fn presets_are_found_by_name() {
    let names = list(&["Flat", "Rock"]);
    assert_eq!(find_named(&names, "rock"), 2);
    assert_eq!(find_alike(&names, "rOcK"), 1);
    let mut p = Preset { index: 0, count: 2, changed: false };
    assert!(!choose_preset(&mut p, &names, "ROCK", true));
    assert_eq!((p.index, p.count), (1, 2));
    assert!(choose_preset(&mut p, &names, "mine.json", true));
    assert_eq!((p.index, p.count), (2, 3));
    let mut p = Preset { index: 0, count: 2, changed: false };
    assert!(!choose_preset(&mut p, &names, "mine.json", false));
    assert_eq!((p.index, p.count), (0, 2));
}

#[test]
fn preferences_yield_to_what_is_asked_for() {
    let eq = list(&["Flat", "Vocal"]);
    let cf = list(&["Off", "Light", "Medium"]);
    let t = |x: &str| Some(x.to_string());
    let c = Config { theme: t("hifi"), viz: t("analysis"), rg_mode: t("album"), eq: t("Vocal"), crossfeed: t("medium") };
    assert_eq!(c.theme_kind(), Some(ThemeKind::HiFi));
    let mut s = PlayerState::new();
    apply_config(&mut s, &c, false, false, &eq, &cf);
    assert_eq!(s.look.viz_mode, VizMode::SpectrogramAnalysis);
    assert_eq!((s.rg_mode, s.eq.index, s.crossfeed.index), (RgMode::Album, 1, 2));
    let mut s = PlayerState::new();
    apply_config(&mut s, &c, true, true, &eq, &cf);
    assert_eq!((s.rg_mode, s.eq.index, s.crossfeed.index), (RgMode::Track, 0, 2));
    let mut s = PlayerState::new();
    s.eq_custom = true;
    apply_config(&mut s, &c, false, true, &eq, &cf);
    assert!(s.eq_custom, "what was asked for comes first");
    apply_config(&mut s, &c, false, false, &eq, &cf);
    assert!(!s.eq_custom, "a preferred preset comes before what was kept");
    let mut s = PlayerState::new();
    apply_config(&mut s, &Config::none(), false, false, &eq, &cf);
    assert_eq!((s.rg_mode, s.eq.index, s.crossfeed.index), (RgMode::Track, 0, 0));
    assert_eq!(Config::none().theme_kind(), None);
}

#[test]
fn arguments_are_told_apart() {
    let a = |s: &[&str]| list(s);
    assert!(matches!(start(&a(&["keet"])), Start::Resume));
    assert!(matches!(start(&a(&["keet", "x", "--help"])), Start::Help));
    assert!(matches!(start(&a(&["keet", "--list-devices"])), Start::Devices));
    assert!(matches!(start(&a(&["keet", "--shuffle"])), Start::NoInput));
    match start(&a(&["keet", "-s", "/a", "--eq", "Rock", "/b"])) {
        Start::Play(p) => assert_eq!(p, list(&["/a", "/b"])),
        _ => panic!("sources expected"),
    }
    match start(&a(&["keet", "/a", "--what"])) {
        Start::UnknownOption(o) => assert_eq!(o, "--what"),
        _ => panic!("an error expected"),
    }
    match start(&a(&["keet", "-z"])) {
        Start::UnknownOption(o) => assert_eq!(o, "-z"),
        _ => panic!("an error expected"),
    }
    // A hyphen and more is a file.
    assert!(matches!(start(&a(&["keet", "-abc"])), Start::Play(_)));
    // A value that is missing is no source.
    assert!(matches!(start(&a(&["keet", "--eq"])), Start::NoInput));
}

#[test]
fn settings_are_read_from_arguments() {
    let args = list(&[
        "keet", "/a", "-s", "-r", "-q", "-e", "Rock", "--fx", "Hall", "-x", "4", "--rg-mode", "ALBUM", "--device", "dac",
        "--exclusive", "--no-cover", "--theme", "minimal",
    ]);
    let o = options(&args);
    assert!(o.shuffle && o.repeat && o.hq && o.exclusive && !o.cover && o.rg_given);
    assert_eq!((o.eq.as_deref(), o.fx.as_deref(), o.device.as_deref()), (Some("Rock"), Some("Hall"), Some("dac")));
    assert_eq!((o.crossfade_secs, o.rg_mode, o.theme.as_deref()), (4, RgMode::Album, Some("minimal")));
    let none = options(&list(&["keet", "/a", "-x", "many"]));
    assert_eq!((none.crossfade_secs, none.rg_mode, none.cover), (0, RgMode::Track, true));
    assert!(has_flag(&args, "--repeat", "-r") && !has_flag(&args, "--help", "-h"));
    assert_eq!(flag_value(&args, "--theme", "-t"), Some("minimal".to_string()));
    assert_eq!(flag_value(&list(&["keet", "--eq"]), "--eq", "-e"), None);
}
