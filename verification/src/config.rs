//! Preferences that hold at every start.
use crate::path;
use crate::resume;
use crate::resume::{find_alike, with_index};
use crate::state::{Look, PlayerState, Preset, RgMode, VizMode};
use crate::text;
use crate::theme::ThemeKind;
use vstd::prelude::*;

verus! {

/// Preferences. Each may be left out; what is left out is as it would be
/// otherwise.
#[derive(Debug)]
pub struct Config {
    pub theme: Option<String>,
    pub viz: Option<String>,
    pub rg_mode: Option<String>,
    pub eq: Option<String>,
    pub crossfeed: Option<String>,
}

impl Config {
    /// No preferences.
    pub fn none() -> (c: Config)
        ensures
            c.theme is None && c.viz is None && c.rg_mode is None && c.eq is None && c.crossfeed is None,
    {
        Config { theme: None, viz: None, rg_mode: None, eq: None, crossfeed: None }
    }

    /// The theme that is preferred, where there is such a theme.
    pub fn theme_kind(&self) -> (r: Option<ThemeKind>)
        ensures
            r == theme_named(path::opt_text(self.theme)),
    {
        match &self.theme {
            Some(s) => ThemeKind::from_str(s.as_str()),
            None => None,
        }
    }
}

/// The theme of a name that may be there.
pub open spec fn theme_named(s: Option<Seq<char>>) -> Option<ThemeKind> {
    match s {
        Some(n) => ThemeKind::of_name(n),
        None => None,
    }
}

/// The visualisation that is preferred, or else the present one.
pub open spec fn preferred_viz(s: Option<Seq<char>>, now: VizMode) -> VizMode {
    match s {
        Some(n) => match VizMode::of_name(n) {
            Some(v) => v,
            None => now,
        },
        None => now,
    }
}

/// The loudness mode that is preferred, or else the present one.
pub open spec fn preferred_rg(s: Option<Seq<char>>, now: RgMode) -> RgMode {
    match s {
        Some(n) => match RgMode::of_name(n) {
            Some(m) => m,
            None => now,
        },
        None => now,
    }
}

/// The preset that is preferred, or else the present one.
pub open spec fn preferred_preset(s: Option<Seq<char>>, names: Seq<Seq<char>>, now: Preset) -> Preset {
    match s {
        Some(n) => resume::at_index(now, resume::first_alike(names, n, 0), names.len() as int),
        None => now,
    }
}

/// Whether a preset is preferred that there is.
pub open spec fn prefers_preset(s: Option<Seq<char>>, names: Seq<Seq<char>>) -> bool {
    s matches Some(n) && resume::first_alike(names, n, 0) < names.len()
}

/// The player with the preferences in force. What was asked for at the start
/// comes before them; they come before what was kept of the last session, so a
/// preferred preset also takes the place of bands that were set by hand.
pub open spec fn preferred(
    s: PlayerState,
    c: Config,
    rg_given: bool,
    eq_given: bool,
    eq_names: Seq<Seq<char>>,
    cf_names: Seq<Seq<char>>,
) -> PlayerState {
    PlayerState {
        look: Look { viz_mode: preferred_viz(path::opt_text(c.viz), s.look.viz_mode), ..s.look },
        rg_mode: if rg_given {
            s.rg_mode
        } else {
            preferred_rg(path::opt_text(c.rg_mode), s.rg_mode)
        },
        eq: if eq_given {
            s.eq
        } else {
            preferred_preset(path::opt_text(c.eq), eq_names, s.eq)
        },
        eq_custom: s.eq_custom && (eq_given || !prefers_preset(path::opt_text(c.eq), eq_names)),
        crossfeed: preferred_preset(path::opt_text(c.crossfeed), cf_names, s.crossfeed),
        ..s
    }
}

fn viz_or(s: &Option<String>, now: VizMode) -> (r: VizMode)
    ensures
        r == preferred_viz(path::opt_text(*s), now),
{
    match s {
        Some(s) => match VizMode::from_str(s.as_str()) {
            Some(v) => v,
            None => now,
        },
        None => now,
    }
}

fn rg_or(s: &Option<String>, now: RgMode) -> (r: RgMode)
    ensures
        r == preferred_rg(path::opt_text(*s), now),
{
    match s {
        Some(s) => match RgMode::from_str(s.as_str()) {
            Some(m) => m,
            None => now,
        },
        None => now,
    }
}

/// Selects a preset that is preferred; whether there is such a preset.
fn choose_preferred(p: &mut Preset, s: &Option<String>, names: &Vec<String>) -> (found: bool)
    ensures
        *final(p) == preferred_preset(path::opt_text(*s), text::texts(names@), *old(p)),
        found == prefers_preset(path::opt_text(*s), text::texts(names@)),
{
    assert(text::texts(names@).len() == names@.len());
    match s {
        Some(s) => {
            let i: usize = find_alike(names, s.as_str());
            with_index(p, i, names.len());
            i < names.len()
        },
        None => false,
    }
}

/// Puts the preferences in force, but for the theme. What was asked for at the
/// start comes before them.
pub fn apply_config(
    state: &mut PlayerState,
    c: &Config,
    rg_given: bool,
    eq_given: bool,
    eq_names: &Vec<String>,
    cf_names: &Vec<String>,
)
    ensures
        *final(state) == preferred(
            *old(state),
            *c,
            rg_given,
            eq_given,
            text::texts(eq_names@),
            text::texts(cf_names@),
        ),
{
    assert(text::texts(eq_names@).len() == eq_names@.len());
    assert(text::texts(cf_names@).len() == cf_names@.len());
    state.look.viz_mode = viz_or(&c.viz, state.look.viz_mode);
    if !rg_given {
        state.rg_mode = rg_or(&c.rg_mode, state.rg_mode);
    }
    if !eq_given && choose_preferred(&mut state.eq, &c.eq, eq_names) {
        state.eq_custom = false;
    }
    let _found: bool = choose_preferred(&mut state.crossfeed, &c.crossfeed, cf_names);
}

} // verus!
