//! Measuring and cutting text that carries terminal escape sequences.
//!
//! A frame line is wider in characters than it looks: colour changes, image
//! placements and titles ride inside it as escape sequences that draw nothing.
//! Everything here counts terminal columns, and never parts a sequence.
use crate::columns;
use crate::text;
use crate::text::{byte_len, chars_of, string_of};
use vstd::prelude::*;

verus! {

/// Columns the width table of `unicode_width` gives to a character.
pub uninterp spec fn table_columns(c: char) -> nat;

/// A control character: C0, DEL or C1.
pub open spec fn is_control_char(c: char) -> bool {
    let n: int = c as int;
    n < 0x20 || 0x7f <= n < 0xa0
}

/// A character that is known to take one column: printable ASCII, the ellipsis,
/// and the box-drawing and block elements (U+2500 to U+259F).
pub open spec fn is_narrow(c: char) -> bool {
    let n: int = c as int;
    0x20 <= n < 0x7f || n == 0x2026 || 0x2500 <= n < 0x25a0
}

/// Terminal columns one character occupies: none for a control character, one
/// for a narrow one, and what the width table says otherwise.
pub open spec fn char_columns(c: char) -> nat {
    if is_control_char(c) {
        0
    } else if is_narrow(c) {
        1
    } else {
        table_columns(c)
    }
}

/// Calls `unicode_width::UnicodeWidthChar::width`, which gives `None` on the
/// control characters, `Some(1)` on printable ASCII, and a table entry from
/// U+00A0 on. The table holds 1 for the ellipsis and for U+2500 to U+259F, 3 for
/// U+17D8, and nothing above 2 anywhere else.
#[verifier::external_body]
fn table_width(c: char) -> (r: Option<usize>)
    ensures
        r is None <==> is_control_char(c),
        r matches Some(n) ==> n == table_columns(c) && n <= 3 && (n <= 2 || c == '\u{17d8}'),
        r is Some && is_narrow(c) ==> r == Some(1usize),
{
    unicode_width::UnicodeWidthChar::width(c)
}

/// Terminal columns one character occupies: two for CJK and most emoji, none
/// for combining marks and control characters, one otherwise.
pub fn char_width(c: char) -> (r: usize)
    ensures
        r == char_columns(c),
        r <= 3,
        r <= 2 || c == '\u{17d8}',
{
    match table_width(c) {
        Some(n) => n,
        None => 0,
    }
}

/// The final byte of a control sequence: `@` to `~`.
pub open spec fn is_final(c: char) -> bool {
    '@' <= c && c <= '~'
}

/// Where the control sequence whose parameters start at `j` ends: behind its
/// final byte, or at the end of the text.
pub open spec fn csi_end(s: Seq<char>, j: int) -> int
    decreases s.len() - j,
{
    if j >= s.len() {
        s.len() as int
    } else if is_final(s[j]) {
        j + 1
    } else {
        csi_end(s, j + 1)
    }
}

/// Where the string-terminated sequence whose payload starts at `j` ends:
/// behind a BEL or an `ESC \`, or at the end of the text.
pub open spec fn payload_end(s: Seq<char>, j: int) -> int
    decreases s.len() - j,
{
    if j >= s.len() {
        s.len() as int
    } else if s[j] == '\u{7}' {
        j + 1
    } else if s[j] == '\x1B' && j + 1 < s.len() && s[j + 1] == '\\' {
        j + 2
    } else {
        payload_end(s, j + 1)
    }
}

/// Where the escape sequence that starts at `i` ends.
///
/// - CSI (`ESC [`) ends behind a final byte
/// - OSC, APC, DCS and PM (`ESC ] _ P ^`) are string-terminated
/// - anything else is a two-character sequence
pub open spec fn escape_end(s: Seq<char>, i: int) -> int {
    if i + 1 >= s.len() {
        i + 1
    } else if s[i + 1] == '[' {
        csi_end(s, i + 2)
    } else if s[i + 1] == ']' || s[i + 1] == '_' || s[i + 1] == 'P' || s[i + 1] == '^' {
        payload_end(s, i + 2)
    } else {
        i + 2
    }
}

/// A control sequence ends behind where it starts, and inside the text.
pub proof fn lemma_csi_end(s: Seq<char>, j: int)
    requires
        0 <= j <= s.len(),
    ensures
        j <= csi_end(s, j) <= s.len(),
        j < s.len() ==> j < csi_end(s, j),
    decreases s.len() - j,
{
    if j < s.len() && !is_final(s[j]) {
        lemma_csi_end(s, j + 1);
    }
}

/// A string-terminated sequence ends behind where it starts, and inside the
/// text.
pub proof fn lemma_payload_end(s: Seq<char>, j: int)
    requires
        0 <= j <= s.len(),
    ensures
        j <= payload_end(s, j) <= s.len(),
        j < s.len() ==> j < payload_end(s, j),
    decreases s.len() - j,
{
    if j < s.len() {
        lemma_payload_end(s, j + 1);
    }
}

/// An escape sequence holds at least its introducer, and ends inside the text.
pub proof fn lemma_escape_end(s: Seq<char>, i: int)
    requires
        0 <= i < s.len(),
    ensures
        i < escape_end(s, i) <= s.len(),
{
    if i + 1 < s.len() {
        lemma_csi_end(s, i + 2);
        lemma_payload_end(s, i + 2);
    }
}

/// The columns `s[i..]` occupies, escape sequences left out.
pub open spec fn columns_from(s: Seq<char>, i: int) -> nat
    decreases s.len() - i,
{
    if i < 0 || i >= s.len() {
        0
    } else if s[i] == '\x1B' {
        proof {
            lemma_escape_end(s, i);
        }
        columns_from(s, escape_end(s, i))
    } else {
        char_columns(s[i]) + columns_from(s, i + 1)
    }
}

/// The columns `s` occupies.
pub open spec fn visible_columns(s: Seq<char>) -> nat {
    columns_from(s, 0)
}

/// How many characters of `s[i..]` and all before it stand in front of the
/// first printable character that does not fit, where `room` columns are left.
pub open spec fn cut_from(s: Seq<char>, i: int, room: int) -> int
    decreases s.len() - i,
{
    if i < 0 || i >= s.len() {
        s.len() as int
    } else if s[i] == '\x1B' {
        proof {
            lemma_escape_end(s, i);
        }
        cut_from(s, escape_end(s, i), room)
    } else if char_columns(s[i]) > room {
        i
    } else {
        cut_from(s, i + 1, room - char_columns(s[i]))
    }
}

/// Where `s` is cut to fit into `max` columns: in front of the first printable
/// character that would cross the edge, or at the end.
pub open spec fn cut_point(s: Seq<char>, max: int) -> int {
    cut_from(s, 0, max)
}

/// `s` cut to at most `max` columns.
pub open spec fn cut(s: Seq<char>, max: int) -> Seq<char> {
    s.take(cut_point(s, max))
}

/// `s` where it fits into `max` columns, else a cut that leaves room for a
/// trailing ellipsis and that ellipsis, or the bare cut where there is no room
/// for one.
pub open spec fn plain_cut(s: Seq<char>, max: int) -> Seq<char> {
    if visible_columns(s) <= max {
        s
    } else if max > 1 {
        cut(s, max - 1).push('…')
    } else {
        cut(s, max)
    }
}

/// `s` where it fits into `max` columns, else a cut and a trailing ellipsis.
pub open spec fn visible_cut(s: Seq<char>, max: int) -> Seq<char> {
    if visible_columns(s) <= max {
        s
    } else {
        cut(s, text::minus(max, 1)).push('…')
    }
}

/// How many characters the escape sequence that starts at `chars[i]` occupies,
/// its introducer included.
pub fn escape_len(chars: &Vec<char>, i: usize) -> (n: usize)
    requires
        i < chars@.len(),
    ensures
        i + n == escape_end(chars@, i as int),
        n >= 1,
        i + n <= chars@.len(),
{
    proof {
        lemma_escape_end(chars@, i as int);
    }
    let len: usize = chars.len();
    if len - i < 2 {
        return 1;
    }
    let next: char = chars[i + 1];
    if next == '[' {
        let mut j: usize = i + 2;
        while j < len && !('@' <= chars[j] && chars[j] <= '~')
            invariant
                len == chars@.len(),
                i + 2 <= j <= len,
                csi_end(chars@, i + 2) == csi_end(chars@, j as int),
            decreases len - j,
        {
            j = j + 1;
        }
        if j < len {
            j + 1 - i
        } else {
            len - i
        }
    } else if next == ']' || next == '_' || next == 'P' || next == '^' {
        let mut j: usize = i + 2;
        while j < len
            invariant
                len == chars@.len(),
                i + 2 <= j <= len,
                payload_end(chars@, i + 2) == payload_end(chars@, j as int),
                escape_end(chars@, i as int) == payload_end(chars@, i + 2),
            decreases len - j,
        {
            if chars[j] == '\u{7}' {
                return j + 1 - i;
            }
            if chars[j] == '\x1B' && len - j > 1 && chars[j + 1] == '\\' {
                return j + 2 - i;
            }
            j = j + 1;
        }
        len - i
    } else {
        2
    }
}

/// Bytes that `s[i..]` takes in memory.
spec fn bytes_from(s: Seq<char>, i: int) -> nat {
    vstd::utf8::encode_utf8(s.skip(i)).len()
}

/// A character takes one byte at least, two from U+0080 on, three from U+0800 on.
proof fn lemma_bytes_of_char(s: Seq<char>, i: int)
    requires
        0 <= i < s.len(),
    ensures
        bytes_from(s, i) >= bytes_from(s, i + 1) + 1,
        s[i] as u32 >= 0x80 ==> bytes_from(s, i) >= bytes_from(s, i + 1) + 2,
        s[i] as u32 >= 0x800 ==> bytes_from(s, i) >= bytes_from(s, i + 1) + 3,
{
    let rest = s.skip(i);
    assert(rest[0] == s[i]);
    assert(rest.drop_first() =~= s.skip(i + 1));
}

proof fn lemma_columns_of_ascii(c: char)
    ensures
        (c as u32) < 0x80 ==> char_columns(c) <= 1,
        c == '\u{17d8}' ==> c as u32 >= 0x800,
{
}

proof fn lemma_bytes_shrink(s: Seq<char>, i: int, j: int)
    requires
        0 <= i <= j <= s.len(),
    ensures
        bytes_from(s, j) <= bytes_from(s, i),
    decreases j - i,
{
    if i < j {
        lemma_bytes_of_char(s, i);
        lemma_bytes_shrink(s, i + 1, j);
    }
}

/// Terminal columns a string occupies, escape sequences of every family
/// skipped.
pub fn visible_len(s: &str) -> (n: usize)
    ensures
        n == visible_columns(s@),
{
    let chars: Vec<char> = chars_of(s);
    let bytes: usize = byte_len(s);
    let mut n: usize = 0;
    let mut i: usize = 0;
    assert(s@.skip(0) =~= s@);
    while i < chars.len()
        invariant
            chars@ == s@,
            i <= chars@.len(),
            n + columns_from(s@, i as int) == columns_from(s@, 0),
            n + bytes_from(s@, i as int) <= bytes,
        decreases chars@.len() - i,
    {
        if chars[i] == '\x1B' {
            let len: usize = escape_len(&chars, i);
            proof {
                lemma_escape_end(s@, i as int);
                lemma_bytes_shrink(s@, i as int, i + len);
            }
            i = i + len;
        } else {
            let c: char = chars[i];
            let w: usize = char_width(c);
            proof {
                lemma_bytes_of_char(s@, i as int);
                lemma_columns_of_ascii(c);
            }
            n = n + w;
            i = i + 1;
        }
    }
    n
}

/// Core of every truncation: keeps escape sequences whole, keeps printable
/// characters while they fit into `max_cols`, and leaves out a wide character
/// that would straddle the edge. Also says whether anything printable was
/// dropped.
pub fn cut_to_width(s: &str, max_cols: usize) -> (r: (String, bool))
    ensures
        r.0@ == cut(s@, max_cols as int),
        r.1 == (cut_point(s@, max_cols as int) < s@.len()),
        r.1 == (visible_columns(s@) > max_cols),
{
    proof {
        cut_is_the_longest_that_fits(s@, max_cols as int);
    }
    let chars: Vec<char> = chars_of(s);
    let mut cols: usize = 0;
    let mut i: usize = 0;
    while i < chars.len()
        invariant
            chars@ == s@,
            i <= chars@.len(),
            cols <= max_cols,
            cut_from(s@, i as int, max_cols - cols) == cut_point(s@, max_cols as int),
            (cut_point(s@, max_cols as int) < s@.len()) == (visible_columns(s@) > max_cols),
        decreases chars@.len() - i,
    {
        if chars[i] == '\x1B' {
            i = i + escape_len(&chars, i);
        } else {
            let w: usize = char_width(chars[i]);
            if w > max_cols - cols {
                let out: String = string_of(&chars, 0, i);
                return (out, true);
            }
            cols = cols + w;
            i = i + 1;
        }
    }
    let out: String = string_of(&chars, 0, i);
    (out, false)
}

/// Truncates to at most `max_width` columns, with every escape sequence in
/// front of the cut kept. No ellipsis: the caller pads or frames the result.
pub fn truncate_ansi(s: &str, max_width: usize) -> (r: String)
    ensures
        r@ == cut(s@, max_width as int),
{
    cut_to_width(s, max_width).0
}

/// Plain-text truncation to `max_width` columns, with a trailing ellipsis when
/// it actually cuts.
pub fn truncate_plain(s: &str, max_width: usize) -> (r: String)
    ensures
        r@ == plain_cut(s@, max_width as int),
{
    if visible_len(s) <= max_width {
        s.to_owned()
    } else if max_width > 1 {
        let mut out: String = cut_to_width(s, max_width - 1).0;
        out.push('…');
        out
    } else {
        cut_to_width(s, max_width).0
    }
}

/// Truncation with a trailing ellipsis when it actually cuts: escape sequences
/// pass through, only printable columns count against `max`.
pub fn truncate_visible(s: &str, max: usize) -> (r: String)
    ensures
        r@ == visible_cut(s@, max as int),
{
    if visible_len(s) <= max {
        return s.to_owned();
    }
    let mut out: String = cut_to_width(s, max.saturating_sub(1)).0;
    out.push('…');
    out
}

/// `s` with every control character replaced by a space.
pub open spec fn sanitized(s: Seq<char>) -> Seq<char> {
    s.map_values(|c: char| if is_control_char(c) { ' ' } else { c })
}

/// Makes untrusted text safe to put in a frame line: every control character
/// becomes a space. Printed raw, a newline would add a row nobody counted and
/// an escape would be executed.
pub fn sanitize_display(s: &str) -> (r: String)
    ensures
        r@ == sanitized(s@),
{
    let chars: Vec<char> = chars_of(s);
    let mut out: String = String::new();
    let mut i: usize = 0;
    assert(out@ =~= sanitized(s@.take(0)));
    while i < chars.len()
        invariant
            chars@ == s@,
            i <= chars@.len(),
            out@ == sanitized(s@.take(i as int)),
        decreases chars@.len() - i,
    {
        let c: char = chars[i];
        if c < '\u{20}' || ('\u{7f}' <= c && c < '\u{a0}') {
            out.push(' ');
        } else {
            out.push(c);
        }
        i = i + 1;
        assert(out@ =~= sanitized(s@.take(i as int)));
    }
    assert(s@.take(s@.len() as int) =~= s@);
    out
}

/// Whether a walk over `s` in whole characters and whole escape sequences that
/// starts at `from` comes past `to`.
pub open spec fn is_boundary(s: Seq<char>, from: int, to: int) -> bool
    decreases s.len() - from,
{
    if from < 0 || from >= s.len() || from == to {
        from == to
    } else if s[from] == '\x1B' {
        proof {
            lemma_escape_end(s, from);
        }
        is_boundary(s, escape_end(s, from), to)
    } else {
        is_boundary(s, from + 1, to)
    }
}

/// A control sequence that ends inside a common prefix of two texts ends at the
/// same place in both.
proof fn lemma_same_csi_end(s: Seq<char>, t: Seq<char>, k: int, j: int)
    requires
        0 <= j <= k <= s.len(),
        k <= t.len(),
        s.take(k) == t.take(k),
        k < s.len() || k == t.len(),
        csi_end(s, j) <= k,
    ensures
        csi_end(t, j) == csi_end(s, j),
    decreases s.len() - j,
{
    if j < k {
        assert(s[j] == s.take(k)[j] && t[j] == t.take(k)[j]);
        if !is_final(s[j]) {
            lemma_same_csi_end(s, t, k, j + 1);
        }
    } else {
        lemma_csi_end(s, j);
    }
}

/// A string-terminated sequence that ends inside a common prefix of two texts
/// ends at the same place in both.
proof fn lemma_same_payload_end(s: Seq<char>, t: Seq<char>, k: int, j: int)
    requires
        0 <= j <= k <= s.len(),
        k <= t.len(),
        s.take(k) == t.take(k),
        k < s.len() || k == t.len(),
        payload_end(s, j) <= k,
    ensures
        payload_end(t, j) == payload_end(s, j),
    decreases s.len() - j,
{
    if j < k {
        assert(s[j] == s.take(k)[j] && t[j] == t.take(k)[j]);
        if j + 1 < k {
            assert(s[j + 1] == s.take(k)[j + 1] && t[j + 1] == t.take(k)[j + 1]);
        }
        if s[j] == '\u{7}' || (s[j] == '\x1B' && j + 1 < s.len() && s[j + 1] == '\\') {
        } else {
            lemma_payload_end(s, j + 1);
            lemma_same_payload_end(s, t, k, j + 1);
        }
    } else {
        lemma_payload_end(s, j);
    }
}

/// An escape sequence that ends inside a common prefix of two texts ends at the
/// same place in both.
proof fn lemma_same_escape_end(s: Seq<char>, t: Seq<char>, k: int, i: int)
    requires
        0 <= i < k <= s.len(),
        k <= t.len(),
        s.take(k) == t.take(k),
        k < s.len() || k == t.len(),
        escape_end(s, i) <= k,
    ensures
        escape_end(t, i) == escape_end(s, i),
{
    if i + 1 < s.len() {
        lemma_csi_end(s, i + 2);
        lemma_payload_end(s, i + 2);
        assert(s[i + 1] == s.take(k)[i + 1] && t[i + 1] == t.take(k)[i + 1]);
        if s[i + 1] == '[' {
            lemma_same_csi_end(s, t, k, i + 2);
        } else if s[i + 1] == ']' || s[i + 1] == '_' || s[i + 1] == 'P' || s[i + 1] == '^' {
            lemma_same_payload_end(s, t, k, i + 2);
        }
    }
}

/// What a cut from `i` on keeps, stops at and measures.
pub proof fn lemma_cut_from(s: Seq<char>, i: int, room: int)
    requires
        0 <= i <= s.len(),
        0 <= room,
    ensures
        i <= cut_from(s, i, room) <= s.len(),
        is_boundary(s, i, cut_from(s, i, room)),
        columns_from(s.take(cut_from(s, i, room)), i) <= room,
        cut_from(s, i, room) < s.len() ==> {
            let k = cut_from(s, i, room);
            &&& s[k] != '\x1B'
            &&& columns_from(s.take(k), i) + char_columns(s[k]) > room
        },
    decreases s.len() - i,
{
    let k = cut_from(s, i, room);
    let p = s.take(k);
    if i < s.len() {
        if s[i] == '\x1B' {
            lemma_escape_end(s, i);
            let e = escape_end(s, i);
            lemma_cut_from(s, e, room);
            assert(p.take(k) =~= s.take(k));
            lemma_same_escape_end(s, p, k, i);
            assert(p[i] == s[i]);
        } else if char_columns(s[i]) <= room {
            lemma_cut_from(s, i + 1, room - char_columns(s[i]));
            assert(p[i] == s[i]);
        }
    }
}

/// A cut that drops something leaves no escape sequence open: the columns of
/// what is put behind it are added to its own.
pub proof fn lemma_cut_append(s: Seq<char>, i: int, room: int, t: Seq<char>)
    requires
        0 <= i <= s.len(),
        0 <= room,
        cut_from(s, i, room) < s.len(),
    ensures
        columns_from(s.take(cut_from(s, i, room)) + t, i) == columns_from(
            s.take(cut_from(s, i, room)),
            i,
        ) + columns_from(t, 0),
    decreases s.len() - i,
{
    let k = cut_from(s, i, room);
    let p = s.take(k);
    let q = p + t;
    lemma_cut_from(s, i, room);
    if i == k {
        columns::lemma_shift(p, t, 0);
    } else if s[i] == '\x1B' {
        lemma_escape_end(s, i);
        let e = escape_end(s, i);
        lemma_cut_from(s, e, room);
        lemma_cut_append(s, e, room, t);
        assert(p.take(k) =~= s.take(k));
        assert(q.take(k) =~= s.take(k));
        lemma_same_escape_end(s, p, k, i);
        lemma_same_escape_end(s, q, k, i);
        assert(p[i] == s[i] && q[i] == s[i]);
    } else {
        lemma_cut_from(s, i + 1, room - char_columns(s[i]));
        lemma_cut_append(s, i + 1, room - char_columns(s[i]), t);
        assert(p[i] == s[i] && q[i] == s[i]);
    }
}

/// A printable character behind a cut adds its own columns to it, and no more.
proof fn lemma_cut_push(s: Seq<char>, max: int, c: char)
    requires
        0 <= max,
        c != '\x1B',
        cut_point(s, max) < s.len(),
    ensures
        columns_from(cut(s, max).push(c), 0) == columns_from(cut(s, max), 0) + char_columns(c),
{
    let one = seq![c];
    assert(cut(s, max).push(c) =~= cut(s, max) + one);
    lemma_cut_append(s, 0, max, one);
    assert(columns_from(one, 1) == 0);
    assert(columns_from(one, 0) == char_columns(c));
}

/// A cut never draws more columns than it was given.
pub proof fn cut_stays_in_budget(s: Seq<char>, max: int)
    requires
        0 <= max,
    ensures
        visible_columns(cut(s, max)) <= max,
{
    lemma_cut_from(s, 0, max);
}

/// A cut keeps escape sequences whole: it is a prefix that ends between two
/// characters or sequences.
pub proof fn cut_parts_no_escape(s: Seq<char>, max: int)
    requires
        0 <= max,
    ensures
        0 <= cut_point(s, max) <= s.len(),
        cut(s, max) == s.take(cut_point(s, max)),
        is_boundary(s, 0, cut_point(s, max)),
{
    lemma_cut_from(s, 0, max);
}

/// A cut drops nothing that fits: what is dropped starts with a printable
/// character that would have crossed the edge.
pub proof fn cut_keeps_what_fits(s: Seq<char>, max: int)
    requires
        0 <= max,
        cut_point(s, max) < s.len(),
    ensures
        s[cut_point(s, max)] != '\x1B',
        columns_from(cut(s, max), 0) + char_columns(s[cut_point(s, max)]) > max,
{
    lemma_cut_from(s, 0, max);
}

/// Where the columns of `s[i..]` fit, a cut keeps all of it.
proof fn lemma_cut_all(s: Seq<char>, i: int, room: int)
    requires
        0 <= i <= s.len(),
        columns_from(s, i) <= room,
    ensures
        cut_from(s, i, room) == s.len(),
    decreases s.len() - i,
{
    if i < s.len() {
        if s[i] == '\x1B' {
            lemma_escape_end(s, i);
            lemma_cut_all(s, escape_end(s, i), room);
        } else {
            lemma_cut_all(s, i + 1, room - char_columns(s[i]));
        }
    }
}

/// Text that fits is left as it is.
pub proof fn cut_leaves_what_fits(s: Seq<char>, max: int)
    requires
        columns_from(s, 0) <= max,
    ensures
        cut(s, max) == s,
{
    lemma_cut_all(s, 0, max);
    assert(s.take(s.len() as int) =~= s);
}

/// A cut is the longest that fits. Something is dropped where the text has more
/// columns than it is given, and only there. What is left then is a prefix that
/// parts no escape sequence and stays in its columns, and the next character
/// would have crossed the edge.
pub proof fn cut_is_the_longest_that_fits(s: Seq<char>, max: int)
    requires
        0 <= max,
    ensures
        ({
            let k = cut_point(s, max);
            let dropped = k < s.len();
            &&& dropped <==> visible_columns(s) > max
            &&& !dropped ==> cut(s, max) == s
            &&& dropped ==> {
                &&& 0 <= k
                &&& cut(s, max) == s.take(k)
                &&& is_boundary(s, 0, k)
                &&& visible_columns(cut(s, max)) <= max
                &&& s[k] != '\x1B'
                &&& visible_columns(cut(s, max)) + char_columns(s[k]) > max
            }
        }),
{
    lemma_cut_from(s, 0, max);
    assert(s.take(s.len() as int) =~= s);
    if columns_from(s, 0) <= max {
        lemma_cut_all(s, 0, max);
    }
}

/// Plain truncation never draws more columns than it was given.
pub proof fn plain_cut_stays_in_budget(s: Seq<char>, max: int)
    requires
        0 <= max,
    ensures
        visible_columns(plain_cut(s, max)) <= max,
{
    if visible_columns(s) > max {
        if max > 1 {
            lemma_ellipsis(s, max - 1);
        } else {
            lemma_cut_from(s, 0, max);
        }
    }
}

/// The ellipsis takes one column behind a cut of text that did not fit, or is
/// swallowed by nothing.
proof fn lemma_ellipsis(s: Seq<char>, max: int)
    requires
        0 <= max,
        visible_columns(s) > max,
    ensures
        visible_columns(cut(s, max).push('…')) <= max + 1,
{
    lemma_cut_from(s, 0, max);
    if cut_point(s, max) < s.len() {
        lemma_cut_push(s, max, '…');
    } else {
        assert(cut(s, max) =~= s);
    }
}

/// Truncation with an ellipsis draws at most its budget, or one column where
/// the budget is none.
pub proof fn visible_cut_stays_in_budget(s: Seq<char>, max: int)
    requires
        0 <= max,
    ensures
        visible_columns(visible_cut(s, max)) <= text::most(max, 1),
{
    if visible_columns(s) > max {
        lemma_ellipsis(s, text::minus(max, 1));
    }
}

/// Sanitized text holds no control character, and loses no character.
pub proof fn sanitized_holds_no_control(s: Seq<char>)
    ensures
        sanitized(s).len() == s.len(),
        forall|i: int| 0 <= i < s.len() ==> !is_control_char(#[trigger] sanitized(s)[i]),
        forall|i: int|
            0 <= i < s.len() && !is_control_char(s[i]) ==> #[trigger] sanitized(s)[i] == s[i],
{
}

/// Sanitizing twice is sanitizing once.
pub proof fn sanitizing_is_idempotent(s: Seq<char>)
    ensures
        sanitized(sanitized(s)) == sanitized(s),
{
    assert(sanitized(sanitized(s)) =~= sanitized(s));
}

} // verus!
