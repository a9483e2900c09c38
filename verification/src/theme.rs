//! Theme palettes and selection.
//!
//! Three themes: Classic (green on the terminal's default), Minimal (warm-cyan,
//! editorial) and HiFi (amber studio monitor). The renderers read the active
//! theme once per frame and take every colour from its palette.
use crate::text;
use crate::text::ascii_lower;
use vstd::prelude::*;

verus! {

/// The themes.
#[derive(Clone, Copy, Debug, PartialEq, Eq, Structural)]
pub enum ThemeKind {
    Classic,
    Minimal,
    HiFi,
}

impl ThemeKind {
    /// The theme a stored number stands for; Classic for an unknown one.
    pub open spec fn of_u8(v: u8) -> ThemeKind {
        if v == 1 {
            ThemeKind::Minimal
        } else if v == 2 {
            ThemeKind::HiFi
        } else {
            ThemeKind::Classic
        }
    }

    /// The number a theme is stored as.
    pub open spec fn number(self) -> u8 {
        match self {
            ThemeKind::Classic => 0,
            ThemeKind::Minimal => 1,
            ThemeKind::HiFi => 2,
        }
    }

    /// The theme that a name, in any ASCII case, stands for.
    pub open spec fn of_name(s: Seq<char>) -> Option<ThemeKind> {
        let low = text::lowered(s);
        if low == "classic"@ {
            Some(ThemeKind::Classic)
        } else if low == "minimal"@ || low == "min"@ {
            Some(ThemeKind::Minimal)
        } else if low == "hifi"@ || low == "retro"@ {
            Some(ThemeKind::HiFi)
        } else {
            None
        }
    }

    /// The name a theme goes by.
    pub open spec fn label(self) -> Seq<char> {
        match self {
            ThemeKind::Classic => "classic"@,
            ThemeKind::Minimal => "minimal"@,
            ThemeKind::HiFi => "hifi"@,
        }
    }

    /// The theme that follows in the cycle.
    pub open spec fn succ(self) -> ThemeKind {
        match self {
            ThemeKind::Classic => ThemeKind::Minimal,
            ThemeKind::Minimal => ThemeKind::HiFi,
            ThemeKind::HiFi => ThemeKind::Classic,
        }
    }

    /// Reads a stored number.
    pub fn from_u8(v: u8) -> (r: Self)
        ensures
            r == ThemeKind::of_u8(v),
    {
        match v {
            1 => ThemeKind::Minimal,
            2 => ThemeKind::HiFi,
            _ => ThemeKind::Classic,
        }
    }

    /// The number to store.
    pub fn to_u8(self) -> (r: u8)
        ensures
            r == self.number(),
    {
        match self {
            ThemeKind::Classic => 0,
            ThemeKind::Minimal => 1,
            ThemeKind::HiFi => 2,
        }
    }

    /// Reads a theme's name or an alias of it.
    pub fn from_str(s: &str) -> (r: Option<Self>)
        ensures
            r == ThemeKind::of_name(s@),
    {
        let low: String = ascii_lower(s);
        let l: &str = low.as_str();
        if l.eq("classic") {
            Some(ThemeKind::Classic)
        } else if l.eq("minimal") || l.eq("min") {
            Some(ThemeKind::Minimal)
        } else if l.eq("hifi") || l.eq("retro") {
            Some(ThemeKind::HiFi)
        } else {
            None
        }
    }

    /// The theme's name.
    pub fn name(self) -> (r: &'static str)
        ensures
            r@ == self.label(),
    {
        match self {
            ThemeKind::Classic => "classic",
            ThemeKind::Minimal => "minimal",
            ThemeKind::HiFi => "hifi",
        }
    }

    /// The theme the next press of the theme key selects.
    pub fn next(self) -> (r: Self)
        ensures
            r == self.succ(),
    {
        match self {
            ThemeKind::Classic => ThemeKind::Minimal,
            ThemeKind::Minimal => ThemeKind::HiFi,
            ThemeKind::HiFi => ThemeKind::Classic,
        }
    }
}

/// The launch theme by priority: an explicit flag wins, then the configured
/// default, then the theme of the resumed session, and finally Classic.
pub open spec fn resolved(
    flag: Option<ThemeKind>,
    config: Option<ThemeKind>,
    resume: Option<ThemeKind>,
) -> ThemeKind {
    match (flag, config, resume) {
        (Some(t), _, _) => t,
        (None, Some(t), _) => t,
        (None, None, Some(t)) => t,
        (None, None, None) => ThemeKind::Classic,
    }
}

/// Resolves the launch theme.
pub fn resolve_theme(
    flag: Option<ThemeKind>,
    config: Option<ThemeKind>,
    resume: Option<ThemeKind>,
) -> (r: ThemeKind)
    ensures
        r == resolved(flag, config, resume),
{
    match flag {
        Some(t) => t,
        None => match config {
            Some(t) => t,
            None => match resume {
                Some(t) => t,
                None => ThemeKind::Classic,
            },
        },
    }
}

/// Colour escapes of one theme. Every string is a whole escape sequence and can
/// be put directly into a line; `reset` clears them all.
#[derive(Clone, Copy)]
pub struct Palette {
    pub fg: &'static str,
    pub dim: &'static str,
    /// Very dim separator colour.
    pub rule: &'static str,
    pub accent: &'static str,
    pub good: &'static str,
    pub warn: &'static str,
    pub danger: &'static str,
    pub bold: &'static str,
    pub reset: &'static str,
    /// Background of the cursor row in lists. Empty means no tint.
    pub cursor_bg: &'static str,
}

/// Box-drawing glyphs.
#[derive(Clone, Copy, PartialEq, Eq, Structural)]
pub struct Borders {
    pub h: char,
    pub v: char,
    pub tl: char,
    pub tr: char,
    pub bl: char,
    pub br: char,
}

impl Borders {
    /// The single-line glyphs.
    pub open spec fn single() -> Borders {
        Borders { h: '─', v: '│', tl: '┌', tr: '┐', bl: '└', br: '┘' }
    }

    /// The double-line glyphs.
    pub open spec fn double() -> Borders {
        Borders { h: '═', v: '║', tl: '╔', tr: '╗', bl: '╚', br: '╝' }
    }
}

/// The palette of a theme. Classic keeps to the terminal's own colours; Minimal
/// and HiFi name theirs outright, so that they do not depend on the terminal's
/// colour table.
pub open spec fn palette_of(kind: ThemeKind) -> Palette {
    match kind {
        ThemeKind::Classic => Palette {
            fg: "\x1B[0m",
            dim: "\x1B[2m",
            rule: "\x1B[2;90m",
            accent: "\x1B[32m",
            good: "\x1B[32m",
            warn: "\x1B[33m",
            danger: "\x1B[31m",
            bold: "\x1B[1m",
            reset: "\x1B[0m",
            cursor_bg: "",
        },
        ThemeKind::Minimal => Palette {
            fg: "\x1B[0m",
            dim: "\x1B[2m",
            rule: "\x1B[38;2;35;38;42m",
            accent: "\x1B[38;2;154;220;208m",
            good: "\x1B[38;2;154;220;208m",
            warn: "\x1B[38;2;233;196;106m",
            danger: "\x1B[38;2;224;122;122m",
            bold: "\x1B[1m",
            reset: "\x1B[0m",
            cursor_bg: "\x1B[48;2;24;27;28m",
        },
        ThemeKind::HiFi => Palette {
            fg: "\x1B[38;2;240;200;120m",
            dim: "\x1B[38;2;122;94;58m",
            rule: "\x1B[38;2;58;42;20m",
            accent: "\x1B[1;38;2;255;179;71m",
            good: "\x1B[38;2;168;200;122m",
            warn: "\x1B[38;2;224;122;74m",
            danger: "\x1B[1;38;2;224;122;74m",
            bold: "\x1B[1m",
            reset: "\x1B[0m",
            cursor_bg: "\x1B[48;2;31;20;8m",
        },
    }
}

/// The palette of a theme. Classic keeps to the terminal's own colours; Minimal
/// and HiFi name theirs outright, so that they do not depend on the terminal's
/// colour table.
pub fn palette(kind: ThemeKind) -> (p: Palette)
    ensures
        p == palette_of(kind),
{
    match kind {
        ThemeKind::Classic => Palette {
            fg: "\x1B[0m",
            dim: "\x1B[2m",
            rule: "\x1B[2;90m",
            accent: "\x1B[32m",
            good: "\x1B[32m",
            warn: "\x1B[33m",
            danger: "\x1B[31m",
            bold: "\x1B[1m",
            reset: "\x1B[0m",
            cursor_bg: "",
        },
        ThemeKind::Minimal => Palette {
            fg: "\x1B[0m",
            dim: "\x1B[2m",
            rule: "\x1B[38;2;35;38;42m",
            accent: "\x1B[38;2;154;220;208m",
            good: "\x1B[38;2;154;220;208m",
            warn: "\x1B[38;2;233;196;106m",
            danger: "\x1B[38;2;224;122;122m",
            bold: "\x1B[1m",
            reset: "\x1B[0m",
            cursor_bg: "\x1B[48;2;24;27;28m",
        },
        ThemeKind::HiFi => Palette {
            fg: "\x1B[38;2;240;200;120m",
            dim: "\x1B[38;2;122;94;58m",
            rule: "\x1B[38;2;58;42;20m",
            accent: "\x1B[1;38;2;255;179;71m",
            good: "\x1B[38;2;168;200;122m",
            warn: "\x1B[38;2;224;122;74m",
            danger: "\x1B[1;38;2;224;122;74m",
            bold: "\x1B[1m",
            reset: "\x1B[0m",
            cursor_bg: "\x1B[48;2;31;20;8m",
        },
    }
}

/// The border glyphs of a theme: double lines for HiFi, single ones otherwise.
pub fn borders(kind: ThemeKind) -> (b: Borders)
    ensures
        b == (if kind is HiFi { Borders::double() } else { Borders::single() }),
{
    match kind {
        ThemeKind::HiFi => Borders { h: '═', v: '║', tl: '╔', tr: '╗', bl: '╚', br: '╝' },
        _ => Borders { h: '─', v: '│', tl: '┌', tr: '┐', bl: '└', br: '┘' },
    }
}

/// A theme is read back from the number it is stored as.
pub proof fn theme_number_reads_back(t: ThemeKind)
    ensures
        ThemeKind::of_u8(t.number()) == t,
{
}

/// A theme is read back from its name.
pub proof fn theme_name_reads_back(t: ThemeKind)
    ensures
        ThemeKind::of_name(t.label()) == Some(t),
{
    reveal_strlit("classic");
    reveal_strlit("minimal");
    reveal_strlit("min");
    reveal_strlit("hifi");
    reveal_strlit("retro");
    assert(text::lowered("classic"@) =~= "classic"@);
    assert(text::lowered("minimal"@) =~= "minimal"@);
    assert(text::lowered("hifi"@) =~= "hifi"@);
    assert("minimal"@ != "classic"@) by {
        assert("minimal"@[0] != "classic"@[0]);
    }
    assert("hifi"@.len() == 4);
    assert("hifi"@ != "classic"@);
    assert("hifi"@ != "minimal"@);
    assert("hifi"@ != "min"@);
}

/// The theme key comes back to where it started after three presses, and never
/// sooner.
pub proof fn theme_cycle_has_three_steps(t: ThemeKind)
    ensures
        t.succ().succ().succ() == t,
        t.succ() != t,
        t.succ().succ() != t,
{
}

} // verus!
