use keet::theme::{borders, palette, resolve_theme, ThemeKind};

#[test]
fn resolve_theme_priority_flag_then_config_then_resume_then_classic() {
    let c = || ThemeKind::Classic;
    let m = || ThemeKind::Minimal;
    let h = || ThemeKind::HiFi;

    // The flag beats everything.
    assert_eq!(resolve_theme(Some(h()), Some(m()), Some(c())), ThemeKind::HiFi);
    // No flag: config default (beats the resumed last-session theme).
    assert_eq!(resolve_theme(None, Some(m()), Some(h())), ThemeKind::Minimal);
    // No flag, no config: resumed last-session theme.
    assert_eq!(resolve_theme(None, None, Some(h())), ThemeKind::HiFi);
    // Nothing set: Classic.
    assert_eq!(resolve_theme(None, None, None), ThemeKind::Classic);
}

#[test]
fn from_str_accepts_known_names_and_aliases() {
    assert_eq!(ThemeKind::from_str("minimal"), Some(ThemeKind::Minimal));
    assert_eq!(ThemeKind::from_str("HIFI"), Some(ThemeKind::HiFi));
    assert_eq!(ThemeKind::from_str("retro"), Some(ThemeKind::HiFi));
    assert_eq!(ThemeKind::from_str("nope"), None);
}

#[test]
fn themes_read_back_and_go_around() {
    for t in [ThemeKind::Classic, ThemeKind::Minimal, ThemeKind::HiFi] {
        assert_eq!(ThemeKind::from_u8(t.to_u8()), t);
        assert_eq!(ThemeKind::from_str(t.name()), Some(t));
        assert_eq!(t.next().next().next(), t);
    }
    assert_eq!(ThemeKind::Classic.next(), ThemeKind::Minimal);
    assert_eq!(ThemeKind::from_u8(99), ThemeKind::Classic);
}

#[test]
fn palettes_and_borders_belong_to_themes() {
    assert_eq!(palette(ThemeKind::Minimal).accent, "\x1B[38;2;154;220;208m");
    assert_eq!(palette(ThemeKind::Classic).cursor_bg, "");
    assert_eq!(borders(ThemeKind::HiFi).h, '═');
    assert_eq!(borders(ThemeKind::Classic).h, borders(ThemeKind::Classic).h);
}
