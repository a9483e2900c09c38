//! What a listener can count on of the lyrics: when a line is sung, and where the
//! lines come from.
use crate::json;
use crate::lyrics;
use crate::lyrics::{LrcLine, Lyrics};
use crate::order;
use crate::path;
use crate::text;
use crate::text_laws;
use vstd::prelude::*;

verus! {

/// Whether a character does not occur in a text.
pub open spec fn free_of(s: Seq<char>, c: char) -> bool {
    forall|i: int| 0 <= i < s.len() ==> #[trigger] s[i] != c
}

pub proof fn lemma_split_two(s: Seq<char>, a: Seq<char>, b: Seq<char>, c: char)
    requires
        s == a.push(c) + b,
        free_of(a, c),
        free_of(b, c),
    ensures
        text::split_from(s, c, 0) == seq![a, b],
{
    let n = a.len() as int;
    assert(s[n] == c);
    assert forall|m: int| 0 <= m < n implies #[trigger] s[m] != c by {
        assert(s[m] == a[m]);
    }
    text_laws::lemma_find_first(s, c, 0, n);
    assert forall|m: int| n + 1 <= m < s.len() implies #[trigger] s[m] != c by {
        assert(s[m] == b[m - n - 1]);
    }
    text_laws::lemma_find_first(s, c, n + 1, s.len() as int);
    assert(s.subrange(0, n) =~= a);
    assert(s.subrange(n + 1, s.len() as int) =~= b);
    assert(text::split_from(s, c, n + 1) =~= seq![b]);
    assert(text::split_from(s, c, 0) =~= seq![a, b]);
}

/// A time of two parts is minutes and seconds.
pub proof fn two_parts_are_minutes_and_seconds(
    inside: &str,
    minutes: &str,
    seconds: &str,
    r: Option<i128>,
    m: Option<i128>,
    s: Option<i128>,
)
    requires
        call_ensures(lyrics::parse_lrc_time, (inside,), r),
        call_ensures(lyrics::parse_billionths, (minutes,), m),
        call_ensures(lyrics::parse_billionths, (seconds,), s),
        inside@ == minutes@.push(':') + seconds@,
        free_of(minutes@, ':'),
        free_of(seconds@, ':'),
    ensures
        m is Some && s is Some ==> r is Some && r->0 == m->0 * 60 + s->0,
        m is None || s is None ==> r is None,
{
    lemma_split_two(inside@, minutes@, seconds@, ':');
}

/// A time of three parts is hours, minutes and seconds: sixty minutes to the hour.
pub proof fn three_parts_are_hours_too(
    inside: &str,
    hours: &str,
    minutes: &str,
    seconds: &str,
    r: Option<i128>,
    h: Option<i128>,
    m: Option<i128>,
    s: Option<i128>,
)
    requires
        call_ensures(lyrics::parse_lrc_time, (inside,), r),
        call_ensures(lyrics::parse_billionths, (hours,), h),
        call_ensures(lyrics::parse_billionths, (minutes,), m),
        call_ensures(lyrics::parse_billionths, (seconds,), s),
        inside@ == hours@.push(':') + (minutes@.push(':') + seconds@),
        free_of(hours@, ':'),
        free_of(minutes@, ':'),
        free_of(seconds@, ':'),
    ensures
        h is Some && m is Some && s is Some ==> r is Some && r->0 == (h->0 * 60 + m->0) * 60 + s->0,
        h is None || m is None || s is None ==> r is None,
{
    let t = inside@;
    let rest = minutes@.push(':') + seconds@;
    let n = hours@.len() as int;
    assert(t[n] == ':');
    assert forall|k: int| 0 <= k < n implies #[trigger] t[k] != ':' by {
        assert(t[k] == hours@[k]);
    }
    text_laws::lemma_find_first(t, ':', 0, n);
    assert(t.skip(n + 1) =~= rest);
    text_laws::lemma_split_shift(t, rest, ':', n + 1, 0);
    lemma_split_two(rest, minutes@, seconds@, ':');
    assert(t.subrange(0, n) =~= hours@);
    assert(text::split_from(t, ':', 0) =~= seq![hours@, minutes@, seconds@]);
}

/// What has no colon is no time.
pub proof fn a_time_has_a_colon(inside: &str, r: Option<i128>)
    requires
        call_ensures(lyrics::parse_lrc_time, (inside,), r),
        free_of(inside@, ':'),
    ensures
        r is None,
{
    text_laws::lemma_find_first(inside@, ':', 0, inside@.len() as int);
}

/// Ten to a power.
pub open spec fn tens(k: int) -> int
    decreases k,
{
    if k <= 0 {
        1
    } else {
        10 * tens(k - 1)
    }
}

proof fn lemma_leading(d: Seq<char>, n: int)
    requires
        0 <= n,
    ensures
        n <= d.len() ==> lyrics::leading(d, n) == text::digits_value(d, 0, n),
        n > d.len() ==> lyrics::leading(d, n) == text::digits_value(d, 0, d.len() as int) * tens(n - d.len()),
    decreases n,
{
    if n > 0 {
        lemma_leading(d, n - 1);
        if n > d.len() {
            let v = text::digits_value(d, 0, d.len() as int);
            let k = n - d.len();
            assert(tens(k) == 10 * tens(k - 1));
            assert(v * tens(k - 1) * 10 == v * (10 * tens(k - 1))) by (nonlinear_arith);
            if n - 1 == d.len() {
                assert(tens(0) == 1);
            }
        }
    }
}

proof fn lemma_nine()
    ensures
        tens(9) == 1_000_000_000,
{
    assert(tens(0) == 1);
    assert(tens(1) == 10);
    assert(tens(2) == 100);
    assert(tens(3) == 1000);
    assert(tens(4) == 10_000);
    assert(tens(5) == 100_000);
    assert(tens(6) == 1_000_000);
    assert(tens(7) == 10_000_000);
    assert(tens(8) == 100_000_000);
}

proof fn lemma_digit_is_plain(c: char)
    requires
        text::is_digit(c),
    ensures
        c != 'e' && c != 'E' && c != '.' && c != '+' && c != '-',
{
}

/// Whole numbers are read as they stand.
pub proof fn whole_numbers_are_read(s: &str, r: Option<i128>)
    requires
        call_ensures(lyrics::parse_billionths, (s,), r),
        0 < s@.len(),
        text::all_digits(s@, 0),
        text::digits_value(s@, 0, s@.len() as int) <= 1_000_000_000,
    ensures
        r is Some && r->0 == text::digits_value(s@, 0, s@.len() as int) * 1_000_000_000,
{
    let n = s@.len() as int;
    assert forall|m: int| 0 <= m < n implies (#[trigger] s@[m] != 'e' && s@[m] != 'E' && s@[m] != '.') by {
        lemma_digit_is_plain(s@[m]);
    }
    lemma_digit_is_plain(s@[0]);
    text_laws::lemma_find_first(s@, 'e', 0, n);
    text_laws::lemma_find_first(s@, 'E', 0, n);
    text_laws::lemma_find_first(s@, '.', 0, n);
    let d = lyrics::digits_around(s@, 0, n, n);
    assert(d =~= s@);
    lemma_leading(s@, n + 9);
    lemma_nine();
    text::lemma_digits_grow(s@, 0, 0, n);
}

/// What stands behind the point is tenths, hundredths and so on.
pub proof fn fractions_are_read(s: &str, whole: Seq<char>, part: Seq<char>, r: Option<i128>)
    requires
        call_ensures(lyrics::parse_billionths, (s,), r),
        s@ == whole.push('.') + part,
        0 < whole.len(),
        text::all_digits(whole, 0),
        text::all_digits(part, 0),
        part.len() < 9,
        text::digits_value(whole + part, 0, (whole.len() + part.len()) as int) <= 1_000_000_000,
    ensures
        r is Some && r->0 * tens(part.len() as int) == text::digits_value(
            whole + part,
            0,
            (whole.len() + part.len()) as int,
        ) * 1_000_000_000,
{
    let n = s@.len() as int;
    let w = whole.len() as int;
    let p = part.len() as int;
    let all = whole + part;
    assert forall|m: int| 0 <= m < n implies (#[trigger] s@[m] != 'e' && s@[m] != 'E') by {
        if m < w {
            assert(s@[m] == whole[m]);
            lemma_digit_is_plain(whole[m]);
        } else if m > w {
            assert(s@[m] == part[m - w - 1]);
            lemma_digit_is_plain(part[m - w - 1]);
        }
    }
    assert forall|m: int| 0 <= m < w implies #[trigger] s@[m] != '.' by {
        assert(s@[m] == whole[m]);
        lemma_digit_is_plain(whole[m]);
    }
    assert(s@[w] == '.');
    assert(s@[0] == whole[0]);
    lemma_digit_is_plain(whole[0]);
    text_laws::lemma_find_first(s@, 'e', 0, n);
    text_laws::lemma_find_first(s@, 'E', 0, n);
    text_laws::lemma_find_first(s@, '.', 0, w);
    let d = lyrics::digits_around(s@, 0, w, n);
    assert(d =~= all);
    assert forall|k: int| 0 <= k < all.len() implies text::is_digit(#[trigger] all[k]) by {
        if k < w {
            assert(all[k] == whole[k]);
        } else {
            assert(all[k] == part[k - w]);
        }
    }
    lemma_leading(all, w + 9);
    lemma_nine();
    text::lemma_digits_grow(all, 0, 0, all.len() as int);
    lemma_tens(p, 9 - p);
    let v = text::digits_value(all, 0, w + p);
    let t = tens(9 - p);
    let u = tens(p);
    assert(t <= 1_000_000_000) by {
        lemma_tens_grow(9 - p, 9);
    }
    assert(0 <= v * t <= 1_000_000_000_000_000_000) by (nonlinear_arith)
        requires
            0 <= v <= 1_000_000_000,
            0 < t <= 1_000_000_000,
    ;
    assert(v * t * u == v * (u * t)) by (nonlinear_arith);
}

proof fn lemma_tens(a: int, b: int)
    requires
        0 <= a,
        0 <= b,
    ensures
        tens(a) * tens(b) == tens(a + b),
        tens(a) > 0,
        tens(b) > 0,
    decreases a,
{
    if a > 0 {
        lemma_tens(a - 1, b);
        let x = tens(a - 1);
        let y = tens(b);
        assert(10 * x * y == 10 * (x * y)) by (nonlinear_arith);
    } else {
        lemma_tens_positive(b);
    }
}

proof fn lemma_tens_positive(a: int)
    ensures
        tens(a) > 0,
    decreases a,
{
    if a > 0 {
        lemma_tens_positive(a - 1);
    }
}

proof fn lemma_tens_grow(a: int, b: int)
    requires
        a <= b,
    ensures
        0 < tens(a) <= tens(b),
    decreases b - a,
{
    lemma_tens_positive(a);
    if a < b {
        lemma_tens_grow(a, b - 1);
    }
}

/// Whether a text begins and ends with something that is printed.
pub open spec fn plain_ends(s: Seq<char>) -> bool {
    s.len() > 0 ==> '!' <= s.first() && s.first() <= '~' && '!' <= s.last() && s.last() <= '~'
}

pub proof fn lemma_plain_is_trimmed(s: Seq<char>)
    requires
        plain_ends(s),
    ensures
        text::trimmed(s) == s,
{
    if s.len() > 0 {
        lemma_not_white(s.last());
        lemma_not_white(s.first());
    }
    assert(s.subrange(0, s.len() as int) =~= s);
}

pub proof fn lemma_not_white(c: char)
    requires
        '!' <= c && c <= '~',
    ensures
        !text::is_white(c),
{
}

proof fn lemma_tags_shift(s: Seq<char>, rest: Seq<char>, d: int, i: int)
    requires
        0 <= d <= s.len(),
        rest == s.skip(d),
        0 <= i <= rest.len(),
    ensures
        lyrics::tag_times(s, d + i) == lyrics::tag_times(rest, i),
        lyrics::tags_end(s, d + i) == d + lyrics::tags_end(rest, i),
    decreases rest.len() - i,
{
    if i < rest.len() {
        assert(rest[i] == s[d + i]);
        if rest[i] == '[' {
            text_laws::lemma_find_shift(s, rest, ']', d, i + 1);
            let c = text::find_from(rest, ']', i + 1);
            text::lemma_find_from(rest, ']', i + 1);
            if c < rest.len() {
                assert(s.subrange(d + i + 1, d + c) =~= rest.subrange(i + 1, c));
                lemma_tags_shift(s, rest, d, c + 1);
            }
        }
    }
}

/// A line is sung at the time in front of it. Where several times stand there, it is
/// sung at each of them.
pub proof fn a_line_is_sung_at_its_times(
    line: &str,
    inside: &str,
    rest: &str,
    r: Vec<LrcLine>,
    time: Option<i128>,
    others: Vec<LrcLine>,
)
    requires
        call_ensures(lyrics::parse_lrc_line, (line,), r),
        call_ensures(lyrics::parse_lrc_time, (inside,), time),
        call_ensures(lyrics::parse_lrc_line, (rest,), others),
        line@ == seq!['['] + inside@ + seq![']'] + rest@,
        free_of(inside@, ']'),
        plain_ends(rest@),
    ensures
        time is None ==> r@.len() == 0,
        time is Some ==> r@.len() == others@.len() + 1 && r@[0].time == time->0,
        time is Some && others@.len() == 0 && (rest@.len() == 0 || rest@[0] != '[') ==> r@[0].text@ == rest@,
        time is Some && others@.len() > 0 ==> r@[0].text@ == others@[0].text@ && forall|i: int|
            0 <= i < others@.len() ==> (#[trigger] r@[i + 1]).time == others@[i].time && r@[i + 1].text@
                == others@[i].text@,
{
    let s = line@;
    let n = inside@.len() as int;
    assert(s[0] == '[');
    assert(s[n + 1] == ']');
    if rest@.len() > 0 {
        assert(s.last() == rest@.last());
    } else {
        assert(s.last() == ']');
    }
    lemma_plain_is_trimmed(s);
    lemma_plain_is_trimmed(rest@);
    assert forall|m: int| 1 <= m < n + 1 implies #[trigger] s[m] != ']' by {
        assert(s[m] == inside@[m - 1]);
    }
    text_laws::lemma_find_first(s, ']', 1, n + 1);
    assert(s.subrange(1, n + 1) =~= inside@);
    assert(s.skip(n + 2) =~= rest@);
    lemma_tags_shift(s, rest@, n + 2, 0);
    let a = lyrics::synced_view(r@);
    let b = lyrics::synced_view(others@);
    assert(a.len() == r@.len());
    assert(b.len() == others@.len());
    if time is Some {
        let e = lyrics::tags_end(s, 0);
        let f = lyrics::tags_end(rest@, 0);
        lemma_tags_end(rest@, 0);
        assert(e == n + 2 + f);
        assert(s.subrange(e, s.len() as int) =~= rest@.subrange(f, rest@.len() as int));
        assert(lyrics::tag_times(s, 0) =~= seq![time->0 as int] + lyrics::tag_times(rest@, 0));
        assert(a[0] == r@[0]@);
        if others@.len() == 0 && (rest@.len() == 0 || rest@[0] != '[') {
            assert(rest@.subrange(0, rest@.len() as int) =~= rest@);
        }
        if others@.len() > 0 {
            assert(b[0] == others@[0]@);
            assert forall|i: int| 0 <= i < others@.len() implies (#[trigger] r@[i + 1]).time == others@[i].time
                && r@[i + 1].text@ == others@[i].text@ by {
                assert(a[i + 1] == r@[i + 1]@);
                assert(b[i] == others@[i]@);
                assert(a[i + 1] == b[i]);
            }
        }
    } else {
        assert(lyrics::tag_times(s, 0).len() == 0);
    }
}

proof fn lemma_tags_end(s: Seq<char>, i: int)
    requires
        0 <= i <= s.len(),
    ensures
        i <= lyrics::tags_end(s, i) <= s.len(),
    decreases s.len() - i,
{
    if i < s.len() && s[i] == '[' {
        text::lemma_find_from(s, ']', i + 1);
        let c = text::find_from(s, ']', i + 1);
        if c < s.len() {
            lemma_tags_end(s, c + 1);
        }
    }
}

/// A line with no time in front of it is not sung at any.
pub proof fn a_line_without_a_time_is_not_timed(line: &str, r: Vec<LrcLine>)
    requires
        call_ensures(lyrics::parse_lrc_line, (line,), r),
        plain_ends(line@),
        line@.len() == 0 || line@[0] != '[',
    ensures
        r@.len() == 0,
{
    lemma_plain_is_trimmed(line@);
    assert(lyrics::synced_view(r@).len() == r@.len());
}

proof fn lemma_entries(lines: Seq<Seq<char>>, n: int, i: int, k: int)
    requires
        0 <= i < n <= lines.len(),
        0 <= k < lyrics::line_entries(lines[i]).len(),
    ensures
        lyrics::entries(lines, n).contains(lyrics::line_entries(lines[i])[k]),
    decreases n,
{
    let head = lyrics::entries(lines, n - 1);
    let last = lyrics::line_entries(lines[n - 1]);
    let all = lyrics::entries(lines, n);
    assert(all == head + last);
    if i < n - 1 {
        lemma_entries(lines, n - 1, i, k);
        let j = choose|j: int| 0 <= j < head.len() && head[j] == lyrics::line_entries(lines[i])[k];
        assert(all[j] == head[j]);
    } else {
        assert(all[head.len() + k] == last[k]);
    }
}

proof fn lemma_no_entries(lines: Seq<Seq<char>>, n: int)
    requires
        0 <= n <= lines.len(),
        forall|i: int| 0 <= i < n ==> lyrics::line_entries(#[trigger] lines[i]).len() == 0,
    ensures
        lyrics::entries(lines, n).len() == 0,
    decreases n,
{
    if n > 0 {
        lemma_no_entries(lines, n - 1);
        assert(lyrics::line_entries(lines[n - 1]).len() == 0);
    }
}

/// Lyrics with a timed line follow the song.
pub proof fn timed_lines_make_timed_lyrics(
    raw: &str,
    r: Lyrics,
    lines: Vec<String>,
    i: int,
    line: &str,
    sung: Vec<LrcLine>,
)
    requires
        call_ensures(lyrics::parse_lyrics, (raw,), r),
        call_ensures(text::lines_of, (raw,), lines),
        0 <= i < lines@.len(),
        line@ == lines@[i]@,
        call_ensures(lyrics::parse_lrc_line, (line,), sung),
        sung@.len() > 0,
    ensures
        r is Synced,
{
    let t = text::texts(lines@);
    assert(t[i] == lines@[i]@);
    assert(lyrics::synced_view(sung@).len() == sung@.len());
    lemma_entries(t, t.len() as int, i, 0);
    let e = lyrics::entries(t, t.len() as int);
    assert(e.contains(lyrics::line_entries(t[i])[0]));
    assert(e.len() > 0);
}

/// Lyrics without a timed line are shown line by line as they are written.
pub proof fn untimed_lines_stay_as_they_are(raw: &str, r: Lyrics, lines: Vec<String>)
    requires
        call_ensures(lyrics::parse_lyrics, (raw,), r),
        call_ensures(text::lines_of, (raw,), lines),
        forall|i: int|
            0 <= i < lines@.len() ==> plain_ends((#[trigger] lines@[i])@) && (lines@[i]@.len() == 0 || lines@[i]@[0]
                != '['),
    ensures
        r matches Lyrics::Plain(v) && text::texts(v@) == text::texts(lines@),
{
    let t = text::texts(lines@);
    assert forall|i: int| 0 <= i < t.len() implies lyrics::line_entries(#[trigger] t[i]).len() == 0 by {
        assert(t[i] == lines@[i]@);
        lemma_plain_is_trimmed(t[i]);
    }
    lemma_no_entries(t, t.len() as int);
}

/// Timed lyrics come in the order of their times, and every line at each of its
/// times is among them.
pub proof fn timed_lyrics_are_in_order(
    raw: &str,
    r: Lyrics,
    lines: Vec<String>,
    i: int,
    line: &str,
    sung: Vec<LrcLine>,
    k: int,
)
    requires
        call_ensures(lyrics::parse_lyrics, (raw,), r),
        call_ensures(text::lines_of, (raw,), lines),
        0 <= i < lines@.len(),
        line@ == lines@[i]@,
        call_ensures(lyrics::parse_lrc_line, (line,), sung),
        0 <= k < sung@.len(),
    ensures
        r matches Lyrics::Synced(v) && (forall|a: int, b: int|
            0 <= a < b < v@.len() ==> (#[trigger] v@[a]).time <= (#[trigger] v@[b]).time) && exists|m: int|
            0 <= m < v@.len() && (#[trigger] v@[m]).time == sung@[k].time && v@[m].text@ == sung@[k].text@,
{
    timed_lines_make_timed_lyrics(raw, r, lines, i, line, sung);
    let t = text::texts(lines@);
    let e = lyrics::entries(t, t.len() as int);
    let one = lyrics::line_entries(t[i]);
    assert(t[i] == lines@[i]@);
    assert(lyrics::synced_view(sung@)[k] == sung@[k]@);
    lemma_entries(t, t.len() as int, i, k);
    let j = choose|j: int| 0 <= j < e.len() && e[j] == one[k];
    let keys = lyrics::time_keys(e);
    order::order_exists(keys);
    let p = order::order_of(keys);
    match r {
        Lyrics::Synced(v) => {
            let w = lyrics::synced_view(v@);
            assert(w == lyrics::by_time(e));
            assert(w.len() == v@.len());
            assert(w.len() == p.len());
            assert(keys.len() == e.len());
            assert(p.contains(j));
            let m = choose|m: int| 0 <= m < p.len() && p[m] == j;
            assert(w[m] == v@[m]@);
            assert(v@[m].time == sung@[k].time && v@[m].text@ == sung@[k].text@);
            assert forall|x: int| 0 <= x < e.len() implies i128::MIN <= (#[trigger] e[x]).0 <= i128::MAX by {
                assert(p.contains(x));
                let y = choose|y: int| 0 <= y < p.len() && p[y] == x;
                assert(w[y] == v@[y]@);
            }
            assert forall|a: int, b: int| 0 <= a < b < v@.len() implies (#[trigger] v@[a]).time
                <= (#[trigger] v@[b]).time by {
                lyrics::synced_lines_are_in_order(e, a, b);
                assert(w[a] == v@[a]@);
                assert(w[b] == v@[b]@);
            }
        },
        _ => {},
    }
}

proof fn lemma_sung(lines: Seq<LrcLine>, position: int, i: int)
    requires
        0 <= i <= lines.len(),
    ensures
        i <= lyrics::sung_from(lines, position, i) <= lines.len(),
        forall|k: int| i <= k < lyrics::sung_from(lines, position, i) ==> (#[trigger] lines[k]).time <= position,
        lyrics::sung_from(lines, position, i) < lines.len() ==> lines[lyrics::sung_from(lines, position, i)].time
            > position,
    decreases lines.len() - i,
{
    if i < lines.len() && lines[i].time <= position {
        lemma_sung(lines, position, i + 1);
    }
}

/// The line that is sung has begun, and the one behind it has not; before the first
/// none is. Lyrics without times never say.
pub proof fn the_line_that_is_sung(l: Lyrics, position: i128, r: Option<usize>)
    requires
        call_ensures(Lyrics::current_line, (&l, position), r),
    ensures
        l is Plain ==> r is None,
        l matches Lyrics::Synced(lines) ==> {
            &&& r matches Some(i) ==> i < lines@.len() && lines@[i as int].time <= position
            &&& r matches Some(i) ==> i + 1 < lines@.len() ==> lines@[i + 1].time > position
            &&& r is None ==> lines@.len() == 0 || lines@[0].time > position
        },
{
    match l {
        Lyrics::Synced(lines) => lemma_sung(lines@, position as int, 0),
        _ => {},
    }
}

/// Timed lyrics are taken ahead of plain ones, and plain ones where there are no
/// others; empty ones are none.
pub proof fn timed_lyrics_come_first(synced: Option<String>, plain: Option<String>, r: Option<String>)
    requires
        call_ensures(lyrics::pick_lyrics, (synced, plain), r),
    ensures
        synced is Some && synced->0@.len() > 0 ==> r is Some && r->0@ == synced->0@,
        !(synced is Some && synced->0@.len() > 0) && plain is Some && plain->0@.len() > 0 ==> r is Some && r->0@
            == plain->0@,
        r is Some ==> r->0@.len() > 0,
        r is Some ==> (synced is Some && r->0@ == synced->0@) || (plain is Some && r->0@ == plain->0@),
{
}

/// The number that a hexadecimal digit stands for.
pub open spec fn hex_value(c: char) -> int {
    if '0' <= c && c <= '9' {
        c as int - '0' as int
    } else {
        c as int - 'A' as int + 10
    }
}

/// The bytes that an encoded text stands for, up to a character.
pub open spec fn unescaped(s: Seq<char>, i: int) -> Seq<int>
    decreases s.len() - i,
{
    if i < 0 || i >= s.len() {
        Seq::empty()
    } else if s[i] == '%' && i + 2 < s.len() {
        seq![hex_value(s[i + 1]) * 16 + hex_value(s[i + 2])] + unescaped(s, i + 3)
    } else {
        seq![s[i] as int] + unescaped(s, i + 1)
    }
}

proof fn lemma_hex(n: int)
    requires
        0 <= n < 16,
    ensures
        hex_value(lyrics::hex_digit(n)) == n,
{
}

proof fn lemma_plain_byte(b: u8)
    requires
        lyrics::is_unreserved(b),
    ensures
        b as char as int == b,
        b as char != '%',
{
}

proof fn lemma_url_bytes(bytes: Seq<u8>, n: int)
    requires
        0 <= n <= bytes.len(),
    ensures
        forall|tail: Seq<char>|
            unescaped(#[trigger] (lyrics::url_bytes(bytes, n) + tail), 0) == Seq::new(n as nat, |i: int| bytes[i] as int)
                + unescaped(tail, 0),
    decreases n,
{
    assert forall|tail: Seq<char>|
        unescaped(#[trigger] (lyrics::url_bytes(bytes, n) + tail), 0) == Seq::new(
            n as nat,
            |i: int| bytes[i] as int,
        ) + unescaped(tail, 0) by {
        if n > 0 {
            lemma_url_bytes(bytes, n - 1);
            let b = bytes[n - 1];
            let u = lyrics::url_byte(b);
            let more = u + tail;
            assert(lyrics::url_bytes(bytes, n) + tail =~= lyrics::url_bytes(bytes, n - 1) + more);
            if lyrics::is_unreserved(b) {
                lemma_plain_byte(b);
                assert(more[0] == b as char);
                assert(more.skip(1) =~= tail);
                lemma_unescaped_shift(more, tail, 1, 0);
            } else {
                assert(more[0] == '%');
                assert(more[1] == lyrics::hex_digit(b as int / 16));
                assert(more[2] == lyrics::hex_digit(b as int % 16));
                lemma_hex(b as int / 16);
                lemma_hex(b as int % 16);
                assert(more.skip(3) =~= tail);
                lemma_unescaped_shift(more, tail, 3, 0);
            }
            assert(unescaped(more, 0) =~= seq![b as int] + unescaped(tail, 0));
            assert(Seq::new(n as nat, |i: int| bytes[i] as int) + unescaped(tail, 0) =~= Seq::new(
                (n - 1) as nat,
                |i: int| bytes[i] as int,
            ) + unescaped(more, 0));
        } else {
            assert(lyrics::url_bytes(bytes, n) + tail =~= tail);
            assert(Seq::new(n as nat, |i: int| bytes[i] as int) + unescaped(tail, 0) =~= unescaped(tail, 0));
        }
    }
}

proof fn lemma_unescaped_shift(s: Seq<char>, rest: Seq<char>, d: int, i: int)
    requires
        0 <= d <= s.len(),
        rest == s.skip(d),
        0 <= i <= rest.len(),
    ensures
        unescaped(s, d + i) == unescaped(rest, i),
    decreases rest.len() - i,
{
    if i < rest.len() {
        assert(rest[i] == s[d + i]);
        if rest[i] == '%' && i + 2 < rest.len() {
            assert(rest[i + 1] == s[d + i + 1]);
            assert(rest[i + 2] == s[d + i + 2]);
            lemma_unescaped_shift(s, rest, d, i + 3);
        } else {
            lemma_unescaped_shift(s, rest, d, i + 1);
        }
    }
}

/// What is encoded for a query decodes to what it was, byte by byte.
pub proof fn encoded_text_decodes_to_itself(s: &str, out: String)
    requires
        call_ensures(lyrics::urlencod, (s,), out),
    ensures
        unescaped(out@, 0) == Seq::new(
            vstd::utf8::encode_utf8(s@).len(),
            |i: int| vstd::utf8::encode_utf8(s@)[i] as int,
        ),
{
    let b = vstd::utf8::encode_utf8(s@);
    lemma_url_bytes(b, b.len() as int);
    let e = Seq::<char>::empty();
    assert(out@ + e =~= out@);
    assert(unescaped(out@ + e, 0) == Seq::new(b.len(), |i: int| b[i] as int) + unescaped(e, 0));
    assert(unescaped(out@, 0) =~= Seq::new(b.len(), |i: int| b[i] as int));
}

/// The service is asked for the artist as the artist and for the title as the track,
/// each encoded, and for the length where that is known.
pub proof fn the_service_is_asked_for_the_track(
    artist: &str,
    title: &str,
    duration: u32,
    a: String,
    t: String,
    bare: String,
    timed: String,
)
    requires
        call_ensures(lyrics::urlencod, (artist,), a),
        call_ensures(lyrics::urlencod, (title,), t),
        call_ensures(lyrics::lrclib_url, (artist, title, None), bare),
        call_ensures(lyrics::lrclib_url, (artist, title, Some(duration)), timed),
    ensures
        bare@ == "https://lrclib.net/api/get?artist_name="@ + a@ + "&track_name="@ + t@,
        timed@ == bare@ + "&duration="@ + text::dec(duration as nat),
{
    assert(bare@ =~= "https://lrclib.net/api/get?artist_name="@ + a@ + "&track_name="@ + t@);
    assert(timed@ =~= bare@ + "&duration="@ + text::dec(duration as nat));
}

/// A line of the lyrics is read at its place, and there are as many as there are.
pub proof fn lines_are_read_at_their_place(l: Lyrics, i: usize, n: usize, t: &str)
    requires
        call_ensures(Lyrics::line_count, (&l,), n),
        call_ensures(Lyrics::line_text, (&l, i), t),
    ensures
        l matches Lyrics::Synced(v) ==> n == v@.len() && (i < v@.len() ==> t@ == v@[i as int].text@),
        l matches Lyrics::Plain(v) ==> n == v@.len() && (i < v@.len() ==> t@ == v@[i as int]@),
        i >= n ==> t@.len() == 0,
{
}

/// Of what the service answers the timed lyrics are taken ahead of the plain ones.
pub proof fn answers_are_taken_timed_first(
    body: &str,
    r: Option<String>,
    synced: Option<String>,
    plain: Option<String>,
    best: Option<String>,
)
    requires
        call_ensures(lyrics::lyrics_in_reply, (body,), r),
        path::opt_text(synced) == json::json_text(body@, "syncedLyrics"@),
        path::opt_text(plain) == json::json_text(body@, "plainLyrics"@),
        call_ensures(lyrics::pick_lyrics, (synced, plain), best),
    ensures
        path::opt_text(r) == path::opt_text(best),
{
}

/// A minus turns a time round.
pub proof fn a_minus_turns_a_time_round(s: &str, negative: &str, a: Option<i128>, b: Option<i128>)
    requires
        call_ensures(lyrics::parse_billionths, (s,), a),
        call_ensures(lyrics::parse_billionths, (negative,), b),
        0 < s@.len(),
        text::all_digits(s@, 0),
        text::digits_value(s@, 0, s@.len() as int) <= 1_000_000_000,
        negative@ == seq!['-'] + s@,
    ensures
        a is Some && b is Some && b->0 == -a->0,
{
    whole_numbers_are_read(s, a);
    let t = negative@;
    let n = t.len() as int;
    assert(t[0] == '-');
    assert forall|m: int| 1 <= m < n implies (#[trigger] t[m] != 'e' && t[m] != 'E' && t[m] != '.') by {
        assert(t[m] == s@[m - 1]);
        lemma_digit_is_plain(s@[m - 1]);
    }
    text_laws::lemma_find_first(t, 'e', 1, n);
    text_laws::lemma_find_first(t, 'E', 1, n);
    text_laws::lemma_find_first(t, '.', 1, n);
    let d = lyrics::digits_around(t, 1, n, n);
    assert(d =~= s@);
    lemma_leading(s@, n - 1 + 9);
    lemma_nine();
    text::lemma_digits_grow(s@, 0, 0, n - 1);
}

/// An exponent moves the point.
pub proof fn exponents_move_the_point(s: &str, whole: Seq<char>, power: Seq<char>, e: char, r: Option<i128>)
    requires
        call_ensures(lyrics::parse_billionths, (s,), r),
        e == 'e' || e == 'E',
        s@ == whole.push(e) + power,
        0 < whole.len(),
        0 < power.len(),
        text::all_digits(whole, 0),
        text::all_digits(power, 0),
        text::digits_value(whole, 0, whole.len() as int) <= 1_000_000_000,
        text::digits_value(power, 0, power.len() as int) <= 9,
    ensures
        r is Some && r->0 == text::digits_value(whole, 0, whole.len() as int) * tens(
            text::digits_value(power, 0, power.len() as int) + 9,
        ),
{
    let t = s@;
    let n = t.len() as int;
    let w = whole.len() as int;
    assert(t[w] == e);
    assert(t[0] == whole[0]);
    lemma_digit_is_plain(whole[0]);
    assert forall|m: int| 0 <= m < n && m != w implies (#[trigger] t[m] != 'e' && t[m] != 'E' && t[m] != '.') by {
        if m < w {
            assert(t[m] == whole[m]);
            lemma_digit_is_plain(whole[m]);
        } else {
            assert(t[m] == power[m - w - 1]);
            lemma_digit_is_plain(power[m - w - 1]);
        }
    }
    if e == 'e' {
        text_laws::lemma_find_first(t, 'e', 0, w);
        text_laws::lemma_find_first(t, 'E', 0, n);
    } else {
        text_laws::lemma_find_first(t, 'E', 0, w);
        text_laws::lemma_find_first(t, 'e', 0, n);
    }
    text_laws::lemma_find_first(t, '.', 0, n);
    assert(t[w + 1] == power[0]);
    lemma_digit_is_plain(power[0]);
    assert forall|k: int| w + 1 <= k < n implies text::is_digit(#[trigger] t[k]) by {
        assert(t[k] == power[k - w - 1]);
    }
    lemma_digits_shift(t, power, w + 1, power.len() as int);
    let v = text::digits_value(power, 0, power.len() as int);
    text::lemma_digits_grow(power, 0, 0, power.len() as int);
    assert(lyrics::exponent(t, w) == Some(v));
    let d = lyrics::digits_around(t, 0, w, w);
    assert(d =~= whole);
    lemma_leading(whole, w + v + 9);
    text::lemma_digits_grow(whole, 0, 0, w);
    let x = text::digits_value(whole, 0, w);
    lemma_tens_grow(v + 9, 18);
    lemma_nine();
    lemma_tens(9, 9);
    assert(0 <= x * tens(v + 9) <= 1_000_000_000_000_000_000_000_000_000) by (nonlinear_arith)
        requires
            0 <= x <= 1_000_000_000,
            0 < tens(v + 9) <= tens(18),
            tens(18) == 1_000_000_000 * 1_000_000_000,
    ;
}

proof fn lemma_digits_shift(t: Seq<char>, power: Seq<char>, d: int, n: int)
    requires
        0 <= d,
        0 <= n <= power.len(),
        d + power.len() <= t.len(),
        forall|k: int| 0 <= k < power.len() ==> #[trigger] power[k] == t[d + k],
    ensures
        text::digits_value(t, d, d + n) == text::digits_value(power, 0, n),
    decreases n,
{
    if n > 0 {
        lemma_digits_shift(t, power, d, n - 1);
        assert(power[n - 1] == t[d + (n - 1)]);
    }
}

} // verus!
