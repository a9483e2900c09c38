//! Lyrics, plain or synced to playback.
//!
//! Synced lyrics come as LRC: lines that open with one or more time tags such as
//! `[01:23.45]`. Times are kept in nanoseconds.
use crate::json;
use crate::json::text_under;
use crate::order;
use crate::order::{sort_places, Part};
use crate::path;
use crate::text;
use crate::text::{chars_of, digit_of, find_char, lines_of, min_usize, push_dec, split_text, string_of, trim_text};
use vstd::prelude::*;

verus! {

/// A line of synced lyrics, and when it is sung.
#[derive(Debug)]
pub struct LrcLine {
    /// Nanoseconds from the start of the track.
    pub time: i128,
    pub text: String,
}

/// Lyrics with times, or without.
#[derive(Debug)]
pub enum Lyrics {
    Synced(Vec<LrcLine>),
    Plain(Vec<String>),
}

impl View for LrcLine {
    type V = (int, Seq<char>);

    open spec fn view(&self) -> (int, Seq<char>) {
        (self.time as int, self.text@)
    }
}

/// The lines of synced lyrics, as values.
pub open spec fn synced_view(lines: Seq<LrcLine>) -> Seq<(int, Seq<char>)> {
    lines.map_values(|l: LrcLine| l@)
}

/// How many lines, from `i` on, are sung by `position` without one between them
/// that is not.
pub open spec fn sung_from(lines: Seq<LrcLine>, position: int, i: int) -> int
    decreases lines.len() - i,
{
    if i < lines.len() && lines[i].time <= position {
        sung_from(lines, position, i + 1)
    } else {
        i
    }
}

impl Lyrics {
    /// How many lines there are.
    pub open spec fn count(self) -> nat {
        match self {
            Lyrics::Synced(lines) => lines@.len(),
            Lyrics::Plain(lines) => lines@.len(),
        }
    }

    /// The text of a line, empty where there is none.
    pub open spec fn text_at(self, i: int) -> Seq<char> {
        match self {
            Lyrics::Synced(lines) => if 0 <= i < lines@.len() {
                lines@[i].text@
            } else {
                Seq::empty()
            },
            Lyrics::Plain(lines) => if 0 <= i < lines@.len() {
                lines@[i]@
            } else {
                Seq::empty()
            },
        }
    }

    /// The line that is sung at `position`: the last that was reached. Plain
    /// lyrics know of none.
    pub open spec fn line_at(self, position: int) -> Option<int> {
        match self {
            Lyrics::Synced(lines) => {
                let n = sung_from(lines@, position, 0);
                if n > 0 {
                    Some(n - 1)
                } else {
                    None
                }
            },
            Lyrics::Plain(_) => None,
        }
    }

    /// How many lines there are.
    pub fn line_count(&self) -> (r: usize)
        ensures
            r == self.count(),
    {
        match self {
            Lyrics::Synced(lines) => lines.len(),
            Lyrics::Plain(lines) => lines.len(),
        }
    }

    /// The text of a line, empty where there is none.
    pub fn line_text(&self, index: usize) -> (r: &str)
        ensures
            r@ == self.text_at(index as int),
    {
        match self {
            Lyrics::Synced(lines) => if index < lines.len() {
                lines[index].text.as_str()
            } else {
                proof {
                    reveal_strlit("");
                }
                assert(""@ =~= Seq::<char>::empty());
                ""
            },
            Lyrics::Plain(lines) => if index < lines.len() {
                lines[index].as_str()
            } else {
                proof {
                    reveal_strlit("");
                }
                assert(""@ =~= Seq::<char>::empty());
                ""
            },
        }
    }

    /// The line that is sung at a position in nanoseconds.
    pub fn current_line(&self, position: i128) -> (r: Option<usize>)
        ensures
            (match r {
                Some(i) => Some(i as int),
                None => None::<int>,
            }) == self.line_at(position as int),
    {
        match self {
            Lyrics::Synced(lines) => {
                let mut i: usize = 0;
                while i < lines.len() && lines[i].time <= position
                    invariant
                        i <= lines@.len(),
                        sung_from(lines@, position as int, i as int) == sung_from(
                            lines@,
                            position as int,
                            0,
                        ),
                    decreases lines@.len() - i,
                {
                    i = i + 1;
                }
                if i > 0 {
                    Some(i - 1)
                } else {
                    None
                }
            },
            Lyrics::Plain(_) => None,
        }
    }

    /// Whether the lyrics have times.
    pub fn is_synced(&self) -> (r: bool)
        ensures
            r == (self is Synced),
    {
        match self {
            Lyrics::Synced(_) => true,
            Lyrics::Plain(_) => false,
        }
    }
}

/// The number that the first `n` digits stand for; where there are no more digits,
/// zeros follow.
pub open spec fn leading(digits: Seq<char>, n: int) -> int
    decreases n,
{
    if n <= 0 {
        0
    } else {
        leading(digits, n - 1) * 10 + (if n <= digits.len() {
            text::digit_value(digits[n - 1])
        } else {
            0
        })
    }
}

/// The most billionths that a part of a time may be.
pub open spec fn part_limit() -> int {
    10_000_000_000_000_000_000_000_000_000_000_000
}

/// Where the exponent of a number starts: at an `e` of either case, or at the end.
pub open spec fn exponent_at(s: Seq<char>, i: int) -> int {
    text::least(text::find_from(s, 'e', i), text::find_from(s, 'E', i))
}

/// The exponent that starts at `x`: none at the end, else a sign or none, and
/// digits.
pub open spec fn exponent(s: Seq<char>, x: int) -> Option<int> {
    let n = s.len() as int;
    if x >= n {
        Some(0)
    } else {
        let negative = x + 1 < n && s[x + 1] == '-';
        let j: int = if negative || (x + 1 < n && s[x + 1] == '+') {
            x + 2
        } else {
            x + 1
        };
        if j < n && text::all_digits(s, j) {
            if negative {
                Some(-text::digits_value(s, j, n))
            } else {
                Some(text::digits_value(s, j, n))
            }
        } else {
            None
        }
    }
}

/// The digits of `s[i..x]` around a point at `d`, or without one.
pub open spec fn digits_around(s: Seq<char>, i: int, d: int, x: int) -> Seq<char> {
    s.subrange(i, d) + s.subrange(text::least(d + 1, x), x)
}

/// The billionths in a decimal number: a sign or none, digits, digits behind a
/// point or none, and an exponent or none. Billionths are as fine as it goes.
pub open spec fn billionths(s: Seq<char>) -> Option<int> {
    let i: int = if s.len() > 0 && (s[0] == '+' || s[0] == '-') {
        1
    } else {
        0
    };
    let x = exponent_at(s, i);
    let d = text::least(text::find_from(s, '.', i), x);
    let digits = digits_around(s, i, d, x);
    match exponent(s, x) {
        Some(e) => {
            let value = leading(digits, d - i + e + 9);
            if digits.len() > 0 && text::all_digits(digits, 0) && value <= part_limit() {
                if s[0] == '-' {
                    Some(-value)
                } else {
                    Some(value)
                }
            } else {
                None
            }
        },
        None => None,
    }
}

/// The time in a tag: `MM:SS`, `MM:SS.xx` or `HH:MM:SS.xx`.
pub open spec fn tag_time(inside: Seq<char>) -> Option<int> {
    let p = text::split_from(inside, ':', 0);
    if p.len() == 2 {
        match (billionths(p[0]), billionths(p[1])) {
            (Some(m), Some(s)) => Some(m * 60 + s),
            _ => None,
        }
    } else if p.len() == 3 {
        match (billionths(p[0]), billionths(p[1]), billionths(p[2])) {
            (Some(h), Some(m), Some(s)) => Some(h * 3600 + m * 60 + s),
            _ => None,
        }
    } else {
        None
    }
}

/// The times in the tags that open `s[i..]`. What is no time ends them.
pub open spec fn tag_times(s: Seq<char>, i: int) -> Seq<int>
    decreases s.len() - i,
{
    if 0 <= i < s.len() && s[i] == '[' {
        let c = text::find_from(s, ']', i + 1);
        proof {
            text::lemma_find_from(s, ']', i + 1);
        }
        if c < s.len() && tag_time(s.subrange(i + 1, c)) is Some {
            seq![tag_time(s.subrange(i + 1, c))->0] + tag_times(s, c + 1)
        } else {
            Seq::empty()
        }
    } else {
        Seq::empty()
    }
}

/// Where the tags that open `s[i..]` end.
pub open spec fn tags_end(s: Seq<char>, i: int) -> int
    decreases s.len() - i,
{
    if 0 <= i < s.len() && s[i] == '[' {
        let c = text::find_from(s, ']', i + 1);
        proof {
            text::lemma_find_from(s, ']', i + 1);
        }
        if c < s.len() && tag_time(s.subrange(i + 1, c)) is Some {
            tags_end(s, c + 1)
        } else {
            i
        }
    } else {
        i
    }
}

/// What a line gives: its text once for each of its times.
pub open spec fn line_entries(line: Seq<char>) -> Seq<(int, Seq<char>)> {
    let s = text::trimmed(line);
    let text = s.subrange(tags_end(s, 0), s.len() as int);
    tag_times(s, 0).map_values(|t: int| (t, text))
}

/// What the first `n` lines give.
pub open spec fn entries(lines: Seq<Seq<char>>, n: int) -> Seq<(int, Seq<char>)>
    decreases n,
{
    if n <= 0 {
        Seq::empty()
    } else {
        entries(lines, n - 1) + line_entries(lines[n - 1])
    }
}

/// What entries are sorted by.
pub open spec fn time_keys(e: Seq<(int, Seq<char>)>) -> Seq<Seq<order::PartView>> {
    e.map_values(|x: (int, Seq<char>)| seq![order::PartView::Num(x.0 as i128)])
}

/// Entries in the order of their times; equal times keep their order.
pub open spec fn by_time(e: Seq<(int, Seq<char>)>) -> Seq<(int, Seq<char>)> {
    order::order_of(time_keys(e)).map_values(|i: int| e[i])
}

proof fn lemma_leading_grows(digits: Seq<char>, m: int, n: int)
    requires
        text::all_digits(digits, 0),
        m <= n,
    ensures
        0 <= leading(digits, m) <= leading(digits, n),
    decreases n,
{
    if n > 0 {
        if n <= digits.len() {
            assert(text::is_digit(digits[n - 1]));
        }
        if m < n {
            lemma_leading_grows(digits, m, n - 1);
        } else {
            lemma_leading_grows(digits, n - 1, n - 1);
        }
    }
}

/// Behind the last digit a number other than zero grows and grows; zero stays.
proof fn lemma_leading_behind(digits: Seq<char>, n: int)
    requires
        text::all_digits(digits, 0),
        digits.len() <= n,
    ensures
        leading(digits, digits.len() as int) == 0 ==> leading(digits, n) == 0,
        leading(digits, digits.len() as int) > 0 ==> leading(digits, n) > n - digits.len(),
    decreases n,
{
    if n > digits.len() {
        lemma_leading_behind(digits, n - 1);
    } else {
        lemma_leading_grows(digits, n, n);
    }
}

/// Reads the first `n` digits as a number; `None` where it is too large.
fn leading_of(digits: &Vec<char>, n: i128) -> (r: Option<i128>)
    requires
        text::all_digits(digits@, 0),
    ensures
        match r {
            Some(v) => v == leading(digits@, n as int) && 0 <= v <= part_limit(),
            None => leading(digits@, n as int) > part_limit(),
        },
{
    let mut v: i128 = 0;
    let mut k: i128 = 0;
    while k < n
        invariant
            text::all_digits(digits@, 0),
            0 <= k,
            k <= n || n < 0 && k == 0,
            v == leading(digits@, k as int),
            0 <= v <= part_limit(),
        decreases n - k,
    {
        if k >= digits.len() as i128 {
            if v == 0 {
                proof {
                    lemma_leading_grows(digits@, digits@.len() as int, k as int);
                    lemma_leading_behind(digits@, n as int);
                }
                return Some(0);
            }
            v = v * 10;
        } else {
            assert(text::is_digit(digits@[k as int]));
            v = v * 10 + digit_of(digits[k as usize]) as i128;
        }
        k = k + 1;
        if v > 10_000_000_000_000_000_000_000_000_000_000_000 {
            proof {
                lemma_leading_grows(digits@, k as int, n as int);
            }
            return None;
        }
    }
    Some(v)
}

/// An exponent that no number needs.
const FAR: i128 = 10_000_000_000_000_000_000_000_000_000_000_000_000;

/// `e`, or as near to it as exponents go.
spec fn near(e: int) -> int {
    if e > FAR {
        FAR as int
    } else if e < -FAR {
        -FAR
    } else {
        e
    }
}

/// Reads the exponent that starts at `x`.
fn read_exponent(v: &Vec<char>, x: usize) -> (r: Option<i128>)
    requires
        x <= v@.len(),
    ensures
        match r {
            Some(e) => exponent(v@, x as int) matches Some(f) && e == near(f),
            None => exponent(v@, x as int) is None,
        },
{
    let n: usize = v.len();
    if x >= n {
        return Some(0);
    }
    let negative: bool = n - x > 1 && v[x + 1] == '-';
    let j: usize = if negative || (n - x > 1 && v[x + 1] == '+') {
        x + 2
    } else {
        x + 1
    };
    if j >= n {
        return None;
    }
    let mut e: i128 = 0;
    let mut k: usize = j;
    while k < n
        invariant
            n == v@.len(),
            x < j <= k <= n,
            j < n,
            negative == (x + 1 < n && v@[x + 1] == '-'),
            j == (if negative || (x + 1 < n && v@[x + 1] == '+') {
                x + 2
            } else {
                x + 1
            }),
            forall|m: int| j <= m < k ==> text::is_digit(#[trigger] v@[m]),
            0 <= text::digits_value(v@, j as int, k as int),
            e == near(text::digits_value(v@, j as int, k as int)),
        decreases n - k,
    {
        let c: char = v[k];
        if !('0' <= c && c <= '9') {
            assert(!text::is_digit(v@[k as int]));
            assert(!text::all_digits(v@, j as int));
            return None;
        }
        if e < FAR {
            e = e * 10 + digit_of(c) as i128;
            if e > FAR {
                e = FAR;
            }
        }
        k = k + 1;
    }
    assert(text::all_digits(v@, j as int));
    if negative {
        Some(-e)
    } else {
        Some(e)
    }
}

/// Far exponents do not matter: the number is nothing, or too large to hold.
proof fn lemma_near(digits: Seq<char>, places: int, e: int)
    requires
        text::all_digits(digits, 0),
        digits.len() <= 0x1_0000_0000_0000_0000,
        0 <= places <= 0x1_0000_0000_0000_0000,
    ensures
        leading(digits, places + near(e) + 9) <= part_limit() || leading(digits, places + e + 9) <= part_limit()
            ==> leading(digits, places + near(e) + 9) == leading(digits, places + e + 9),
{
    if e > FAR {
        let m = digits.len() as int;
        lemma_leading_grows(digits, m, m);
        lemma_leading_behind(digits, places + near(e) + 9);
        lemma_leading_behind(digits, places + e + 9);
    }
}

/// Copies `v[from..to]` behind `out`; whether all of it is digits.
fn push_digits(out: &mut Vec<char>, v: &Vec<char>, from: usize, to: usize) -> (ok: bool)
    requires
        from <= to <= v@.len(),
        text::all_digits(old(out)@, 0),
    ensures
        ok == text::all_digits(v@.subrange(from as int, to as int), 0),
        ok ==> final(out)@ == old(out)@ + v@.subrange(from as int, to as int) && text::all_digits(final(out)@, 0),
{
    let ghost part = v@.subrange(from as int, to as int);
    let ghost start = out@;
    let mut k: usize = from;
    while k < to
        invariant
            from <= k <= to <= v@.len(),
            part == v@.subrange(from as int, to as int),
            out@ == start + v@.subrange(from as int, k as int),
            forall|m: int| 0 <= m < k - from ==> text::is_digit(#[trigger] part[m]),
            text::all_digits(out@, 0),
        decreases to - k,
    {
        let c: char = v[k];
        assert(part[k - from] == c);
        if !('0' <= c && c <= '9') {
            assert(!text::is_digit(part[k - from]));
            return false;
        }
        out.push(c);
        k = k + 1;
        assert(out@ =~= start + v@.subrange(from as int, k as int));
    }
    true
}

/// Reads a decimal number, in billionths.
pub fn parse_billionths(s: &str) -> (r: Option<i128>)
    ensures
        (match r {
            Some(v) => Some(v as int),
            None => None::<int>,
        }) == billionths(s@),
        r matches Some(v) ==> -part_limit() <= v <= part_limit(),
{
    let v: Vec<char> = chars_of(s);
    let negative: bool = v.len() > 0 && v[0] == '-';
    let start: usize = if v.len() > 0 && (v[0] == '+' || v[0] == '-') {
        1
    } else {
        0
    };
    let x: usize = min_usize(find_char(&v, 'e', start), find_char(&v, 'E', start));
    let d: usize = min_usize(find_char(&v, '.', start), x);
    let e: i128 = match read_exponent(&v, x) {
        Some(e) => e,
        None => return None,
    };
    let behind: usize = if d < x {
        d + 1
    } else {
        x
    };
    let ghost all = digits_around(s@, start as int, d as int, x as int);
    let ghost first = s@.subrange(start as int, d as int);
    let ghost second = s@.subrange(behind as int, x as int);
    assert(all == first + second);
    proof {
        if text::all_digits(all, 0) {
            assert forall|k: int| 0 <= k < first.len() implies text::is_digit(#[trigger] first[k]) by {
                assert(all[k] == first[k]);
            }
            assert forall|k: int| 0 <= k < second.len() implies text::is_digit(#[trigger] second[k]) by {
                assert(all[first.len() + k] == second[k]);
            }
        }
    }
    let mut digits: Vec<char> = Vec::new();
    if !push_digits(&mut digits, &v, start, d) || !push_digits(&mut digits, &v, behind, x) {
        return None;
    }
    assert(digits@ =~= all);
    if digits.len() == 0 {
        return None;
    }
    proof {
        lemma_near(all, d - start, exponent(s@, x as int)->Some_0);
    }
    match leading_of(&digits, (d - start) as i128 + e + 9) {
        Some(value) => if negative {
            Some(-value)
        } else {
            Some(value)
        },
        None => None,
    }
}

/// Reads the time in a tag, in nanoseconds.
pub fn parse_lrc_time(inside: &str) -> (r: Option<i128>)
    ensures
        (match r {
            Some(v) => Some(v as int),
            None => None::<int>,
        }) == tag_time(inside@),
{
    let parts: Vec<String> = split_text(inside, ':');
    let ghost p = text::texts(parts@);
    if parts.len() == 2 {
        assert(p[0] == parts@[0]@ && p[1] == parts@[1]@);
        match parse_billionths(parts[0].as_str()) {
            Some(m) => match parse_billionths(parts[1].as_str()) {
                Some(s) => Some(m * 60 + s),
                None => None,
            },
            None => None,
        }
    } else if parts.len() == 3 {
        assert(p[0] == parts@[0]@ && p[1] == parts@[1]@ && p[2] == parts@[2]@);
        match parse_billionths(parts[0].as_str()) {
            Some(h) => match parse_billionths(parts[1].as_str()) {
                Some(m) => match parse_billionths(parts[2].as_str()) {
                    Some(s) => Some(h * 3600 + m * 60 + s),
                    None => None,
                },
                None => None,
            },
            None => None,
        }
    } else {
        None
    }
}

/// The times that open a line, and the text behind them: one entry for each
/// time, all with the same text. A line without a time, such as `[ar:Artist]`,
/// gives nothing.
pub fn parse_lrc_line(line: &str) -> (r: Vec<LrcLine>)
    ensures
        synced_view(r@) == line_entries(line@),
{
    let s: String = trim_text(line);
    let v: Vec<char> = chars_of(s.as_str());
    let mut times: Vec<i128> = Vec::new();
    let mut i: usize = 0;
    let ghost all = tag_times(s@, 0);
    assert(times@.map_values(|t: i128| t as int) + tag_times(s@, 0) =~= all);
    loop
        invariant_except_break
            v@ == s@,
            i <= v@.len(),
            times@.map_values(|t: i128| t as int) + tag_times(s@, i as int) == all,
            tags_end(s@, i as int) == tags_end(s@, 0),
        ensures
            v@ == s@,
            i <= v@.len(),
            i == tags_end(s@, 0),
            times@.map_values(|t: i128| t as int) == all,
        decreases v@.len() - i,
    {
        if !(i < v.len() && v[i] == '[') {
            assert(times@.map_values(|t: i128| t as int) + tag_times(s@, i as int) =~= times@.map_values(
                |t: i128| t as int,
            ));
            break;
        }
        let c: usize = find_char(&v, ']', i + 1);
        if c >= v.len() {
            assert(times@.map_values(|t: i128| t as int) + tag_times(s@, i as int) =~= times@.map_values(
                |t: i128| t as int,
            ));
            break;
        }
        let inside: String = string_of(&v, i + 1, c);
        match parse_lrc_time(inside.as_str()) {
            Some(t) => {
                let ghost prev = times@.map_values(|t: i128| t as int);
                times.push(t);
                assert(times@.map_values(|t: i128| t as int) =~= prev.push(t as int));
                assert(times@.map_values(|t: i128| t as int) + tag_times(s@, c + 1) =~= prev + tag_times(
                    s@,
                    i as int,
                ));
                i = c + 1;
            },
            None => {
                assert(times@.map_values(|t: i128| t as int) + tag_times(s@, i as int)
                    =~= times@.map_values(|t: i128| t as int));
                break;
            },
        }
    }
    let rest: String = string_of(&v, i, v.len());
    let mut out: Vec<LrcLine> = Vec::new();
    let mut k: usize = 0;
    while k < times.len()
        invariant
            k <= times@.len(),
            out@.len() == k,
            forall|m: int|
                0 <= m < k ==> (#[trigger] out@[m]).time == times@[m] && out@[m].text@ == rest@,
        decreases times@.len() - k,
    {
        out.push(LrcLine { time: times[k], text: rest.clone() });
        k = k + 1;
    }
    proof {
        let e = line_entries(line@);
        let o = synced_view(out@);
        assert(all.len() == times@.len());
        assert forall|m: int| 0 <= m < o.len() implies o[m] == e[m] by {
            assert(all[m] == times@[m] as int);
            assert(out@[m].time == times@[m]);
        }
        assert(o =~= e);
    }
    out
}

/// A copy of the entry at a place.
fn copy_line(lines: &Vec<LrcLine>, i: usize) -> (r: LrcLine)
    requires
        i < lines@.len(),
    ensures
        r@ == lines@[i as int]@,
{
    LrcLine { time: lines[i].time, text: lines[i].text.clone() }
}

/// Whether `l` is what a text holds: lines with times where it has any, sorted
/// by them, and plain lines otherwise.
pub open spec fn is_parsed(l: Lyrics, raw: Seq<char>) -> bool {
    let lines = text::lines_from(raw, 0);
    let e = entries(lines, lines.len() as int);
    if e.len() > 0 {
        l matches Lyrics::Synced(v) && synced_view(v@) == by_time(e)
    } else {
        l matches Lyrics::Plain(v) && text::texts(v@) == lines
    }
}

/// Reads lyrics. Where any line has a time they are synced: every entry of every
/// line, in the order of their times. Else they are plain: every line as it is.
pub fn parse_lyrics(raw: &str) -> (r: Lyrics)
    ensures
        is_parsed(r, raw@),
{
    let lines: Vec<String> = lines_of(raw);
    let ghost lv = text::texts(lines@);
    let mut found: Vec<LrcLine> = Vec::new();
    let mut i: usize = 0;
    assert(synced_view(found@) =~= entries(lv, 0));
    while i < lines.len()
        invariant
            lv == text::texts(lines@),
            i <= lines@.len(),
            synced_view(found@) == entries(lv, i as int),
        decreases lines@.len() - i,
    {
        let mut more: Vec<LrcLine> = parse_lrc_line(lines[i].as_str());
        let ghost prev = found@;
        let ghost mv = more@;
        found.append(&mut more);
        assert(lv[i as int] == lines@[i as int]@);
        assert(synced_view(found@) =~= synced_view(prev) + synced_view(mv));
        i = i + 1;
    }
    if found.len() == 0 {
        return Lyrics::Plain(lines);
    }
    let ghost e = entries(lv, lv.len() as int);
    let mut keys: Vec<Vec<Part>> = Vec::new();
    let mut k: usize = 0;
    while k < found.len()
        invariant
            k <= found@.len(),
            synced_view(found@) == e,
            order::keys_view(keys@) == time_keys(e).take(k as int),
        decreases found@.len() - k,
    {
        let mut key: Vec<Part> = Vec::new();
        key.push(Part::Num(found[k].time));
        assert(e[k as int] == found@[k as int]@);
        assert(order::key_view(key) =~= seq![order::PartView::Num(e[k as int].0 as i128)]);
        let ghost prev = keys@;
        let ghost kv = order::key_view(key);
        keys.push(key);
        assert(order::keys_view(keys@) =~= order::keys_view(prev).push(kv));
        assert(time_keys(e)[k as int] == kv);
        k = k + 1;
        assert(order::keys_view(keys@) =~= time_keys(e).take(k as int));
    }
    assert(time_keys(e).take(e.len() as int) =~= time_keys(e));
    let rows: Vec<usize> = sort_places(&keys);
    let ghost p = order::places(rows@);
    let mut sorted: Vec<LrcLine> = Vec::new();
    let mut r: usize = 0;
    while r < rows.len()
        invariant
            r <= rows@.len(),
            p == order::places(rows@),
            order::is_order(time_keys(e), p),
            synced_view(found@) == e,
            sorted@.len() == r,
            forall|m: int| 0 <= m < r ==> (#[trigger] sorted@[m])@ == e[p[m]],
        decreases rows@.len() - r,
    {
        assert(p[r as int] == rows@[r as int]);
        let at: usize = rows[r];
        assert(e[at as int] == found@[at as int]@);
        sorted.push(copy_line(&found, at));
        r = r + 1;
    }
    assert(synced_view(sorted@) =~= by_time(e));
    Lyrics::Synced(sorted)
}

/// Whether a byte stands for itself in a URL.
pub open spec fn is_unreserved(b: u8) -> bool {
    (65 <= b <= 90) || (97 <= b <= 122) || (48 <= b <= 57) || b == 45 || b == 95 || b == 46 || b == 126
}

/// A hexadecimal digit, in capitals.
pub open spec fn hex_digit(n: int) -> char {
    if n < 10 {
        (48 + n) as u8 as char
    } else {
        (55 + n) as u8 as char
    }
}

/// A byte in a URL's query: itself, or its percent escape.
pub open spec fn url_byte(b: u8) -> Seq<char> {
    if is_unreserved(b) {
        seq![b as char]
    } else {
        seq!['%', hex_digit(b as int / 16), hex_digit(b as int % 16)]
    }
}

/// Some bytes in a URL's query.
pub open spec fn url_bytes(s: Seq<u8>, n: int) -> Seq<char>
    decreases n,
{
    if n <= 0 {
        Seq::empty()
    } else {
        url_bytes(s, n - 1) + url_byte(s[n - 1])
    }
}

/// A text in a URL's query.
pub open spec fn url_text(s: Seq<char>) -> Seq<char> {
    url_bytes(vstd::utf8::encode_utf8(s), vstd::utf8::encode_utf8(s).len() as int)
}

fn hex(n: u8) -> (c: char)
    requires
        n < 16,
    ensures
        c == hex_digit(n as int),
{
    if n < 10 {
        (48 + n) as char
    } else {
        (55 + n) as char
    }
}

/// Percent-encodes a text for a URL's query.
pub fn urlencod(s: &str) -> (out: String)
    ensures
        out@ == url_text(s@),
{
    let bytes: &[u8] = s.as_bytes();
    let mut out: String = String::new();
    let mut i: usize = 0;
    while i < bytes.len()
        invariant
            bytes@ == vstd::utf8::encode_utf8(s@),
            i <= bytes@.len(),
            out@ == url_bytes(bytes@, i as int),
        decreases bytes@.len() - i,
    {
        let b: u8 = bytes[i];
        let ghost prev = out@;
        if (65 <= b && b <= 90) || (97 <= b && b <= 122) || (48 <= b && b <= 57) || b == 45 || b == 95 || b
            == 46 || b == 126 {
            out.push(b as char);
            assert(out@ =~= prev + url_byte(b));
        } else {
            out.push('%');
            out.push(hex(b / 16));
            out.push(hex(b % 16));
            assert(out@ =~= prev + url_byte(b));
        }
        i = i + 1;
    }
    out
}

/// The address that is asked for a track's lyrics.
pub fn lrclib_url(artist: &str, title: &str, duration_secs: Option<u32>) -> (r: String)
    ensures
        r@ == "https://lrclib.net/api/get?artist_name="@ + url_text(artist@) + "&track_name="@ + url_text(title@)
            + (match duration_secs {
            Some(d) => "&duration="@ + text::dec(d as nat),
            None => Seq::empty(),
        }),
{
    let mut url: String = "https://lrclib.net/api/get?artist_name=".to_owned();
    url.push_str(urlencod(artist).as_str());
    url.push_str("&track_name=");
    url.push_str(urlencod(title).as_str());
    let ghost base = url@;
    match duration_secs {
        Some(d) => {
            url.push_str("&duration=");
            push_dec(&mut url, d as u64);
            assert(url@ =~= base + ("&duration="@ + text::dec(d as nat)));
        },
        None => {
            assert(url@ =~= base + Seq::<char>::empty());
        },
    }
    url
}

/// The better of two lyrics: the synced ones where they say anything, else the
/// plain ones where those do.
pub open spec fn better(synced: Option<Seq<char>>, plain: Option<Seq<char>>) -> Option<Seq<char>> {
    if synced is Some && synced->0.len() > 0 {
        synced
    } else if plain is Some && plain->0.len() > 0 {
        plain
    } else {
        None
    }
}

/// Picks the synced lyrics of a reply over the plain ones; empty ones count as
/// none.
pub fn pick_lyrics(synced: Option<String>, plain: Option<String>) -> (r: Option<String>)
    ensures
        path::opt_text(r) == better(path::opt_text(synced), path::opt_text(plain)),
{
    if let Some(s) = synced {
        if !s.as_str().is_empty() {
            return Some(s);
        }
    }
    if let Some(s) = plain {
        if !s.as_str().is_empty() {
            return Some(s);
        }
    }
    None
}

/// The lyrics in a reply of LRCLIB.
pub fn lyrics_in_reply(body: &str) -> (r: Option<String>)
    ensures
        path::opt_text(r) == better(
            json::json_text(body@, "syncedLyrics"@),
            json::json_text(body@, "plainLyrics"@),
        ),
{
    pick_lyrics(text_under(body, "syncedLyrics"), text_under(body, "plainLyrics"))
}

/// Synced lyrics come in the order of their times.
pub proof fn synced_lines_are_in_order(e: Seq<(int, Seq<char>)>, i: int, j: int)
    requires
        0 <= i < j < e.len(),
        forall|k: int| 0 <= k < e.len() ==> i128::MIN <= (#[trigger] e[k]).0 <= i128::MAX,
    ensures
        by_time(e).len() == e.len(),
        by_time(e)[i].0 <= by_time(e)[j].0,
{
    let keys = time_keys(e);
    order::order_exists(keys);
    let p = order::order_of(keys);
    assert(order::before(keys, p[i], p[j]));
    assert(keys[p[i]] == seq![order::PartView::Num(e[p[i]].0 as i128)]);
    assert(keys[p[j]] == seq![order::PartView::Num(e[p[j]].0 as i128)]);
    reveal_with_fuel(order::key_less, 3);
    assert(keys[p[i]][0] == order::PartView::Num(e[p[i]].0 as i128));
    assert(keys[p[j]][0] == order::PartView::Num(e[p[j]].0 as i128));
}

/// In synced lyrics the line at a position is the last one whose time has come.
pub proof fn line_at_is_last_reached(lines: Seq<LrcLine>, position: int, i: int)
    requires
        forall|a: int, b: int| 0 <= a <= b < lines.len() ==> #[trigger] lines[a].time <= #[trigger] lines[b].time,
        0 <= i < lines.len(),
    ensures
        lines[i].time <= position <==> i < sung_from(lines, position, 0),
{
    lemma_sung(lines, position, 0, i);
}

proof fn lemma_sung(lines: Seq<LrcLine>, position: int, from: int, i: int)
    requires
        forall|a: int, b: int| 0 <= a <= b < lines.len() ==> #[trigger] lines[a].time <= #[trigger] lines[b].time,
        0 <= from <= lines.len(),
        0 <= i < lines.len(),
        forall|k: int| 0 <= k < from ==> (#[trigger] lines[k]).time <= position,
    ensures
        lines[i].time <= position <==> i < sung_from(lines, position, from),
    decreases lines.len() - from,
{
    if from < lines.len() && lines[from].time <= position {
        lemma_sung(lines, position, from + 1, i);
    } else if from < lines.len() && i >= from {
        assert(lines[from].time <= lines[i].time);
    }
}

/// Text in a query holds nothing that ends or parts the query: unreserved
/// characters and percent signs, and nothing else.
pub proof fn encoded_text_stays_in_the_query(bytes: Seq<u8>, n: int)
    requires
        0 <= n <= bytes.len(),
    ensures
        forall|i: int|
            0 <= i < url_bytes(bytes, n).len() ==> {
                let c = #[trigger] url_bytes(bytes, n)[i];
                c == '%' || exists|b: u8| is_unreserved(b) && c == b as char
            },
    decreases n,
{
    if n > 0 {
        encoded_text_stays_in_the_query(bytes, n - 1);
        let before = url_bytes(bytes, n - 1);
        let b = bytes[n - 1];
        assert forall|i: int| 0 <= i < url_bytes(bytes, n).len() implies ({
            let c = #[trigger] url_bytes(bytes, n)[i];
            c == '%' || exists|b: u8| is_unreserved(b) && c == b as char
        }) by {
            let c = url_bytes(bytes, n)[i];
            if i < before.len() {
                assert(c == before[i]);
            } else if is_unreserved(b) {
                assert(c == b as char);
            } else {
                assert(c == url_byte(b)[i - before.len()]);
                let d = if i == before.len() + 1 {
                    b as int / 16
                } else {
                    b as int % 16
                };
                if i > before.len() {
                    let x: u8 = if d < 10 {
                        (48 + d) as u8
                    } else {
                        (55 + d) as u8
                    };
                    assert(is_unreserved(x) && c == x as char);
                }
            }
        }
    }
}

} // verus!
