//! What is asked for on the command line.
use crate::path;
use crate::state::RgMode;
use crate::text;
use crate::text::{byte_len, chars_of, parse_u32, starts_with_text};
use vstd::prelude::*;

verus! {

/// Whether `a` or `b` is among the arguments.
pub open spec fn has_any(args: Seq<Seq<char>>, a: Seq<char>, b: Seq<char>) -> bool {
    exists|i: int| 0 <= i < args.len() && (#[trigger] args[i] == a || args[i] == b)
}

/// The first place from `i` on of `a` or `b`.
pub open spec fn first_of(args: Seq<Seq<char>>, a: Seq<char>, b: Seq<char>, i: int) -> int
    decreases args.len() - i,
{
    if i >= args.len() || args[i] == a || args[i] == b {
        i
    } else {
        first_of(args, a, b, i + 1)
    }
}

/// What stands behind the first `a` or `b`.
pub open spec fn value_of(args: Seq<Seq<char>>, a: Seq<char>, b: Seq<char>) -> Option<Seq<char>> {
    let i = first_of(args, a, b, 0);
    if i + 1 < args.len() {
        Some(args[i + 1])
    } else {
        None
    }
}

proof fn lemma_first_of(args: Seq<Seq<char>>, a: Seq<char>, b: Seq<char>, i: int)
    requires
        0 <= i <= args.len(),
    ensures
        i <= first_of(args, a, b, i) <= args.len(),
        first_of(args, a, b, i) < args.len() ==> args[first_of(args, a, b, i)] == a || args[first_of(args, a, b, i)]
            == b,
        forall|k: int| i <= k < first_of(args, a, b, i) ==> #[trigger] args[k] != a && args[k] != b,
    decreases args.len() - i,
{
    if i < args.len() && args[i] != a && args[i] != b {
        lemma_first_of(args, a, b, i + 1);
    }
}

fn find_first(args: &Vec<String>, a: &str, b: &str) -> (r: usize)
    ensures
        r == first_of(text::texts(args@), a@, b@, 0),
        r <= args@.len(),
{
    let ghost av = text::texts(args@);
    let mut i: usize = 0;
    while i < args.len()
        invariant
            av == text::texts(args@),
            i <= args@.len(),
            first_of(av, a@, b@, i as int) == first_of(av, a@, b@, 0),
        decreases args@.len() - i,
    {
        assert(av[i as int] == args@[i as int]@);
        if args[i].as_str().eq(a) || args[i].as_str().eq(b) {
            return i;
        }
        i = i + 1;
    }
    i
}

/// Whether `a` or `b` is among the arguments.
pub fn has_flag(args: &Vec<String>, a: &str, b: &str) -> (r: bool)
    ensures
        r == has_any(text::texts(args@), a@, b@),
{
    let ghost av = text::texts(args@);
    proof {
        lemma_first_of(av, a@, b@, 0);
    }
    assert(av.len() == args@.len());
    let i: usize = find_first(args, a, b);
    i < args.len()
}

/// What stands behind the first `a` or `b`.
pub fn flag_value(args: &Vec<String>, a: &str, b: &str) -> (r: Option<String>)
    ensures
        path::opt_text(r) == value_of(text::texts(args@), a@, b@),
{
    let ghost av = text::texts(args@);
    let i: usize = find_first(args, a, b);
    if i < args.len() && i + 1 < args.len() {
        assert(av[i + 1] == args@[i + 1]@);
        Some(args[i + 1].clone())
    } else {
        None
    }
}

/// Whether an option is followed by a value.
pub open spec fn takes_value(a: Seq<char>) -> bool {
    a == "--eq"@ || a == "-e"@ || a == "--fx"@ || a == "--crossfade"@ || a == "-x"@ || a == "--rg-mode"@ || a
        == "--device"@ || a == "--theme"@
}

/// Whether an option stands alone.
pub open spec fn stands_alone(a: Seq<char>) -> bool {
    a == "--shuffle"@ || a == "-s"@ || a == "--repeat"@ || a == "-r"@ || a == "--quality"@ || a == "-q"@ || a
        == "--list-devices"@ || a == "--exclusive"@ || a == "--no-cover"@ || a == "--help"@ || a == "-h"@
}

/// Whether an argument has the shape of an option: two hyphens, or one and a
/// byte.
pub open spec fn looks_like_option(a: Seq<char>) -> bool {
    text::opens_with(a, "--"@) || (a.len() > 0 && a[0] == '-' && vstd::utf8::encode_utf8(a).len() == 2)
}

/// The sources among the arguments from `i` on, put behind `found`; or the first
/// option that there is not.
pub open spec fn sources(args: Seq<Seq<char>>, i: int, found: Seq<Seq<char>>) -> Result<Seq<Seq<char>>, Seq<char>>
    decreases args.len() + 1 - i,
{
    if i >= args.len() {
        Ok(found)
    } else if takes_value(args[i]) {
        sources(args, i + 2, found)
    } else if stands_alone(args[i]) {
        sources(args, i + 1, found)
    } else if looks_like_option(args[i]) {
        Err(args[i])
    } else {
        sources(args, i + 1, found.push(args[i]))
    }
}

/// What to do first.
pub enum Start {
    Help,
    Devices,
    /// Nothing is asked for: go on with the last session.
    Resume,
    /// Play these sources.
    Play(Vec<String>),
    UnknownOption(String),
    NoInput,
}

/// Whether `r` is what the arguments ask for first. The first argument is the
/// program's own name.
pub open spec fn starts(r: Start, args: Seq<Seq<char>>) -> bool {
    if has_any(args, "--help"@, "-h"@) {
        r is Help
    } else if has_any(args, "--list-devices"@, "--list-devices"@) {
        r is Devices
    } else if args.len() < 2 {
        r is Resume
    } else {
        match sources(args, 1, Seq::empty()) {
            Ok(paths) => if paths.len() == 0 {
                r is NoInput
            } else {
                r matches Start::Play(v) && text::texts(v@) == paths
            },
            Err(o) => r matches Start::UnknownOption(s) && s@ == o,
        }
    }
}

fn value_follows(a: &str) -> (r: bool)
    ensures
        r == takes_value(a@),
{
    a.eq("--eq") || a.eq("-e") || a.eq("--fx") || a.eq("--crossfade") || a.eq("-x") || a.eq("--rg-mode") || a.eq(
        "--device",
    ) || a.eq("--theme")
}

fn is_flag(a: &str) -> (r: bool)
    ensures
        r == stands_alone(a@),
{
    a.eq("--shuffle") || a.eq("-s") || a.eq("--repeat") || a.eq("-r") || a.eq("--quality") || a.eq("-q") || a.eq(
        "--list-devices",
    ) || a.eq("--exclusive") || a.eq("--no-cover") || a.eq("--help") || a.eq("-h")
}

fn is_option(a: &str) -> (r: bool)
    ensures
        r == looks_like_option(a@),
{
    if starts_with_text(a, "--") {
        return true;
    }
    let v: Vec<char> = chars_of(a);
    v.len() > 0 && v[0] == '-' && byte_len(a) == 2
}

/// What the arguments ask for first.
pub fn start(args: &Vec<String>) -> (r: Start)
    ensures
        starts(r, text::texts(args@)),
{
    let ghost av = text::texts(args@);
    assert(av.len() == args@.len());
    if has_flag(args, "--help", "-h") {
        return Start::Help;
    }
    if has_flag(args, "--list-devices", "--list-devices") {
        return Start::Devices;
    }
    if args.len() < 2 {
        return Start::Resume;
    }
    let mut found: Vec<String> = Vec::new();
    let mut i: usize = 1;
    assert(text::texts(found@) =~= Seq::<Seq<char>>::empty());
    while i < args.len()
        invariant
            av == text::texts(args@),
            av.len() == args@.len(),
            2 <= args@.len(),
            !has_any(av, "--help"@, "-h"@),
            !has_any(av, "--list-devices"@, "--list-devices"@),
            1 <= i,
            sources(av, i as int, text::texts(found@)) == sources(av, 1, Seq::empty()),
        decreases args@.len() - i,
    {
        assert(av[i as int] == args@[i as int]@);
        let a: &str = args[i].as_str();
        if value_follows(a) {
            assert(sources(av, i as int, text::texts(found@)) == sources(av, i + 2, text::texts(found@)));
            if args.len() - i < 2 {
                assert(sources(av, i + 2, text::texts(found@)) == sources(av, i + 1, text::texts(found@)));
                i = i + 1;
            } else {
                i = i + 2;
            }
        } else if is_flag(a) {
            i = i + 1;
        } else if is_option(a) {
            return Start::UnknownOption(args[i].clone());
        } else {
            let ghost before = found@;
            found.push(args[i].clone());
            assert(text::texts(found@) =~= text::texts(before).push(av[i as int]));
            i = i + 1;
        }
    }
    assert(text::texts(found@).len() == found@.len());
    if found.len() == 0 {
        Start::NoInput
    } else {
        Start::Play(found)
    }
}

/// The settings among the arguments.
pub struct Options {
    pub shuffle: bool,
    pub repeat: bool,
    pub hq: bool,
    pub eq: Option<String>,
    pub fx: Option<String>,
    pub crossfade_secs: u32,
    pub rg_mode: RgMode,
    /// The mode was asked for, and does not only stand there because there has
    /// to be one.
    pub rg_given: bool,
    pub device: Option<String>,
    pub exclusive: bool,
    pub cover: bool,
    /// The name of a theme, whether there is such a theme or not.
    pub theme: Option<String>,
}

/// The mode that a name asks for; anything else is the usual one.
pub open spec fn rg_asked(name: Option<Seq<char>>) -> RgMode {
    match name {
        Some(s) => if text::folded(s) == "album"@ {
            RgMode::Album
        } else if text::folded(s) == "off"@ {
            RgMode::Off
        } else {
            RgMode::Track
        },
        None => RgMode::Track,
    }
}

/// The settings among the arguments.
pub fn options(args: &Vec<String>) -> (o: Options)
    ensures
        ({
            let a = text::texts(args@);
            &&& o.shuffle == has_any(a, "--shuffle"@, "-s"@)
            &&& o.repeat == has_any(a, "--repeat"@, "-r"@)
            &&& o.hq == has_any(a, "--quality"@, "-q"@)
            &&& path::opt_text(o.eq) == value_of(a, "--eq"@, "-e"@)
            &&& path::opt_text(o.fx) == value_of(a, "--fx"@, "--fx"@)
            &&& o.crossfade_secs == (match value_of(a, "--crossfade"@, "-x"@) {
                Some(s) => match text::u32_in(s) {
                    Some(n) => n,
                    None => 0,
                },
                None => 0,
            })
            &&& o.rg_mode == rg_asked(value_of(a, "--rg-mode"@, "--rg-mode"@))
            &&& o.rg_given == has_any(a, "--rg-mode"@, "--rg-mode"@)
            &&& path::opt_text(o.device) == value_of(a, "--device"@, "--device"@)
            &&& o.exclusive == has_any(a, "--exclusive"@, "--exclusive"@)
            &&& o.cover == !has_any(a, "--no-cover"@, "--no-cover"@)
            &&& path::opt_text(o.theme) == value_of(a, "--theme"@, "--theme"@)
        }),
{
    let crossfade_secs: u32 = match flag_value(args, "--crossfade", "-x") {
        Some(s) => match parse_u32(s.as_str()) {
            Some(n) => n,
            None => 0,
        },
        None => 0,
    };
    let rg_mode: RgMode = match flag_value(args, "--rg-mode", "--rg-mode") {
        Some(s) => {
            let low: String = s.as_str().to_lowercase();
            if low.as_str().eq("album") {
                RgMode::Album
            } else if low.as_str().eq("off") {
                RgMode::Off
            } else {
                RgMode::Track
            }
        },
        None => RgMode::Track,
    };
    Options {
        shuffle: has_flag(args, "--shuffle", "-s"),
        repeat: has_flag(args, "--repeat", "-r"),
        hq: has_flag(args, "--quality", "-q"),
        eq: flag_value(args, "--eq", "-e"),
        fx: flag_value(args, "--fx", "--fx"),
        crossfade_secs,
        rg_mode,
        rg_given: has_flag(args, "--rg-mode", "--rg-mode"),
        device: flag_value(args, "--device", "--device"),
        exclusive: has_flag(args, "--exclusive", "--exclusive"),
        cover: !has_flag(args, "--no-cover", "--no-cover"),
        theme: flag_value(args, "--theme", "--theme"),
    }
}

/// Whether an argument is an option of any kind.
pub open spec fn is_any_option(a: Seq<char>) -> bool {
    takes_value(a) || stands_alone(a) || looks_like_option(a)
}

/// No option is ever taken for a source.
pub proof fn sources_are_no_options(args: Seq<Seq<char>>, i: int, found: Seq<Seq<char>>)
    requires
        0 <= i,
        forall|k: int| 0 <= k < found.len() ==> !is_any_option(#[trigger] found[k]),
    ensures
        sources(args, i, found) matches Ok(paths) ==> forall|k: int|
            0 <= k < paths.len() ==> !is_any_option(#[trigger] paths[k]),
    decreases args.len() + 1 - i,
{
    if i < args.len() {
        if takes_value(args[i]) {
            sources_are_no_options(args, i + 2, found);
        } else if stands_alone(args[i]) {
            sources_are_no_options(args, i + 1, found);
        } else if !looks_like_option(args[i]) {
            sources_are_no_options(args, i + 1, found.push(args[i]));
        }
    }
}

} // verus!
