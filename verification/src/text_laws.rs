//! What can be counted on of text and paths: how they are put together and taken
//! apart.
use crate::ansi;
use crate::path;
use crate::text;
use vstd::prelude::*;

verus! {

/// A text is found in another exactly where it stands in it, with something or
/// nothing before and behind.
pub proof fn a_part_is_found(hay: &str, needle: &str, before: Seq<char>, behind: Seq<char>, r: bool)
    requires
        call_ensures(text::contains_text, (hay, needle), r),
    ensures
        hay@ == before + needle@ + behind ==> r,
        r ==> exists|i: int|
            0 <= i && i + needle@.len() <= hay@.len() && #[trigger] hay@.subrange(i, i + needle@.len()) == needle@,
{
    if hay@ == before + needle@ + behind {
        let i = before.len() as int;
        assert(hay@.subrange(i, i + needle@.len()) =~= needle@);
        assert(text::stands_at(hay@, needle@, i));
    }
    if r {
        let i = choose|i: int| text::stands_at(hay@, needle@, i);
        assert(hay@.subrange(i, i + needle@.len()) == needle@);
    }
}

/// A text starts with another exactly where that stands at its start.
pub proof fn a_start_is_found(s: &str, head: &str, behind: Seq<char>, r: bool)
    requires
        call_ensures(text::starts_with_text, (s, head), r),
    ensures
        s@ == head@ + behind ==> r,
        r ==> s@ == head@ + s@.skip(head@.len() as int),
{
    if s@ == head@ + behind {
        assert(s@.take(head@.len() as int) =~= head@);
    }
    if r {
        assert(s@ =~= s@.take(head@.len() as int) + s@.skip(head@.len() as int));
    }
}

/// Space, tabs and the ends of lines are white, and nothing that is printed in
/// ASCII is.
pub proof fn space_is_white(c: char, r: bool)
    requires
        call_ensures(text::white_char, (c,), r),
    ensures
        c == ' ' || c == '\t' || c == '\n' || c == '\r' ==> r,
        '!' <= c && c <= '~' ==> !r,
{
}

proof fn lemma_white_ends(s: Seq<char>, n: int)
    requires
        0 <= n <= s.len(),
    ensures
        0 <= text::white_end(s, n) <= n,
        forall|i: int| text::white_end(s, n) <= i < n ==> text::is_white(#[trigger] s[i]),
        text::white_end(s, n) > 0 ==> !text::is_white(s[text::white_end(s, n) - 1]),
    decreases n,
{
    if n > 0 && text::is_white(s[n - 1]) {
        lemma_white_ends(s, n - 1);
    }
}

proof fn lemma_white_starts(s: Seq<char>, i: int, n: int)
    requires
        0 <= i <= n <= s.len(),
    ensures
        i <= text::white_start(s, i, n) <= n,
        forall|k: int| i <= k < text::white_start(s, i, n) ==> text::is_white(#[trigger] s[k]),
        text::white_start(s, i, n) < n ==> !text::is_white(s[text::white_start(s, i, n)]),
    decreases n - i,
{
    if i < n && text::is_white(s[i]) {
        lemma_white_starts(s, i + 1, n);
    }
}

/// What is trimmed off is the white at both ends and nothing else.
pub proof fn trimming_takes_the_white_at_the_ends(s: &str, r: String, head: Seq<char>, core: Seq<char>, tail: Seq<char>)
    requires
        call_ensures(text::trim_text, (s,), r),
        s@ == head + core + tail,
        forall|i: int| 0 <= i < head.len() ==> #[trigger] head[i] == ' ',
        forall|i: int| 0 <= i < tail.len() ==> #[trigger] tail[i] == ' ',
        core.len() > 0 ==> '!' <= core.first() && core.first() <= '~' && '!' <= core.last() && core.last() <= '~',
    ensures
        r@ == core,
{
    let n = s@.len() as int;
    let e = text::white_end(s@, n);
    lemma_white_ends(s@, n);
    let b = text::white_start(s@, 0, e);
    lemma_white_starts(s@, 0, e);
    let h = head.len() as int;
    let t = h + core.len();
    if core.len() > 0 {
        assert(s@[h] == core.first());
        assert(s@[t - 1] == core.last());
        assert(!text::is_white(s@[h]));
        assert(!text::is_white(s@[t - 1]));
        assert(e >= t);
        if e > t {
            assert(s@[e - 1] == tail[e - 1 - t]);
        }
        assert(e == t);
        assert(b <= h);
        if b < h {
            assert(s@[b] == head[b]);
        }
        assert(s@.subrange(b, e) =~= core);
    } else {
        if e > 0 {
            if e - 1 < h {
                assert(s@[e - 1] == head[e - 1]);
            } else {
                assert(s@[e - 1] == tail[e - 1 - t]);
            }
        }
        assert(s@.subrange(b, e) =~= core);
    }
}

pub proof fn lemma_find_first(s: Seq<char>, c: char, i: int, k: int)
    requires
        0 <= i <= k <= s.len(),
        forall|m: int| i <= m < k ==> #[trigger] s[m] != c,
        k == s.len() || s[k] == c,
    ensures
        text::find_from(s, c, i) == k,
    decreases k - i,
{
    if i < k {
        lemma_find_first(s, c, i + 1, k);
    }
}

pub proof fn lemma_find_shift(s: Seq<char>, rest: Seq<char>, c: char, d: int, i: int)
    requires
        0 <= d <= s.len(),
        rest == s.skip(d),
        0 <= i <= rest.len(),
    ensures
        text::find_from(s, c, d + i) == d + text::find_from(rest, c, i),
    decreases rest.len() - i,
{
    if i < rest.len() {
        assert(rest[i] == s[d + i]);
        lemma_find_shift(s, rest, c, d, i + 1);
    }
}

proof fn lemma_lines_shift(s: Seq<char>, rest: Seq<char>, d: int, i: int)
    requires
        0 <= d <= s.len(),
        rest == s.skip(d),
        0 <= i <= rest.len(),
    ensures
        text::lines_from(s, d + i) == text::lines_from(rest, i),
    decreases rest.len() - i,
{
    if i < rest.len() {
        lemma_find_shift(s, rest, '\n', d, i);
        let j = text::find_from(rest, '\n', i);
        text::lemma_find_from(rest, '\n', i);
        if j < rest.len() {
            assert(rest[j] == s[d + j]);
            if j > i {
                assert(rest[j - 1] == s[d + j - 1]);
                assert(s.subrange(d + i, d + j - 1) =~= rest.subrange(i, j - 1));
            }
            assert(s.subrange(d + i, d + j) =~= rest.subrange(i, j));
            lemma_lines_shift(s, rest, d, j + 1);
        } else {
            assert(s.subrange(d + i, d + j) =~= rest.subrange(i, j));
        }
    }
}

/// The first line of a text is what stands before its first line end, and the
/// others are the lines of what follows. A carriage return before the line end is
/// no part of the line.
pub proof fn lines_end_at_line_ends(s: &str, first: Seq<char>, rest: &str, a: Vec<String>, b: Vec<String>)
    requires
        call_ensures(text::lines_of, (s,), a),
        call_ensures(text::lines_of, (rest,), b),
        forall|i: int| 0 <= i < first.len() ==> #[trigger] first[i] != '\n',
        s@ == first.push('\n') + rest@,
    ensures
        first.len() == 0 || first.last() != '\r' ==> text::texts(a@) == seq![first] + text::texts(b@),
        first.len() > 0 && first.last() == '\r' ==> text::texts(a@) == seq![first.drop_last()] + text::texts(b@),
{
    let n = first.len() as int;
    assert(s@[n] == '\n');
    assert forall|m: int| 0 <= m < n implies #[trigger] s@[m] != '\n' by {
        assert(s@[m] == first[m]);
    }
    lemma_find_first(s@, '\n', 0, n);
    assert(s@.skip(n + 1) =~= rest@);
    lemma_lines_shift(s@, rest@, n + 1, 0);
    if n > 0 {
        assert(s@[n - 1] == first.last());
        assert(s@.subrange(0, n - 1) =~= first.drop_last());
    }
    assert(s@.subrange(0, n) =~= first);
}

/// A text without a line end is one line, and nothing is none.
pub proof fn the_last_line_needs_no_end(s: &str, a: Vec<String>)
    requires
        call_ensures(text::lines_of, (s,), a),
        forall|i: int| 0 <= i < s@.len() ==> #[trigger] s@[i] != '\n',
    ensures
        s@.len() > 0 ==> text::texts(a@) == seq![s@],
        s@.len() == 0 ==> a@.len() == 0,
{
    lemma_find_first(s@, '\n', 0, s@.len() as int);
    assert(s@.subrange(0, s@.len() as int) =~= s@);
    assert(text::texts(a@).len() == a@.len());
}

pub proof fn lemma_split_shift(s: Seq<char>, rest: Seq<char>, c: char, d: int, i: int)
    requires
        0 <= d <= s.len(),
        rest == s.skip(d),
        0 <= i <= rest.len(),
    ensures
        text::split_from(s, c, d + i) == text::split_from(rest, c, i),
    decreases rest.len() - i,
{
    lemma_find_shift(s, rest, c, d, i);
    let j = text::find_from(rest, c, i);
    text::lemma_find_from(rest, c, i);
    if j < rest.len() {
        assert(s.subrange(d + i, d + j) =~= rest.subrange(i, j));
        lemma_split_shift(s, rest, c, d, j + 1);
    } else {
        assert(s.subrange(d + i, s.len() as int) =~= rest.subrange(i, rest.len() as int));
    }
}

/// A text is split at each separator: what stands before the first is the first
/// part, and the others are those of what follows. Without a separator it is whole.
pub proof fn texts_are_split_at_separators(
    s: &str,
    c: char,
    first: Seq<char>,
    rest: &str,
    a: Vec<String>,
    b: Vec<String>,
)
    requires
        call_ensures(text::split_text, (s, c), a),
        call_ensures(text::split_text, (rest, c), b),
        forall|i: int| 0 <= i < first.len() ==> #[trigger] first[i] != c,
    ensures
        s@ == first.push(c) + rest@ ==> text::texts(a@) == seq![first] + text::texts(b@),
        s@ == first ==> text::texts(a@) == seq![first],
{
    let n = first.len() as int;
    if s@ == first.push(c) + rest@ {
        assert(s@[n] == c);
        assert forall|m: int| 0 <= m < n implies #[trigger] s@[m] != c by {
            assert(s@[m] == first[m]);
        }
        lemma_find_first(s@, c, 0, n);
        assert(s@.skip(n + 1) =~= rest@);
        lemma_split_shift(s@, rest@, c, n + 1, 0);
        assert(s@.subrange(0, n) =~= first);
    }
    if s@ == first {
        lemma_find_first(s@, c, 0, n);
        assert(s@.subrange(0, n) =~= first);
    }
}

pub proof fn lemma_dec_digits(n: nat)
    ensures
        text::dec(n).len() > 0,
        text::all_digits(text::dec(n), 0),
        text::digits_value(text::dec(n), 0, text::dec(n).len() as int) == n,
        text::dec(n)[0] != '+',
        n > 0 ==> text::dec(n)[0] != '0',
        n == 0 ==> text::dec(n) == seq!['0'],
    decreases n,
{
    let d = text::dec(n);
    if n < 10 {
        assert(text::digits_value(d, 0, 0) == 0);
        lemma_digit(n);
        assert(text::digits_value(d, 0, 1) == text::digits_value(d, 0, 0) * 10 + text::digit_value(d[0]));
    } else {
        let m = text::dec(n / 10);
        lemma_dec_digits(n / 10);
        lemma_digit(n % 10);
        lemma_digits_prefix(m, d, m.len() as int);
        assert forall|k: int| 0 <= k < d.len() implies text::is_digit(#[trigger] d[k]) by {
            if k < m.len() {
                assert(d[k] == m[k]);
            }
        }
        assert(d[0] == m[0]);
        assert(d[d.len() - 1] == text::digit(n % 10));
        assert(n == (n / 10) * 10 + n % 10);
    }
}

proof fn lemma_digit(n: nat)
    requires
        n < 10,
    ensures
        text::is_digit(text::digit(n)),
        text::digit_value(text::digit(n)) == n,
        text::digit(n) != '+',
        text::digit(n) == '0' <==> n == 0,
{
}

proof fn lemma_digits_prefix(m: Seq<char>, d: Seq<char>, n: int)
    requires
        0 <= n <= m.len() <= d.len(),
        forall|k: int| 0 <= k < m.len() ==> m[k] == #[trigger] d[k],
    ensures
        text::digits_value(m, 0, n) == text::digits_value(d, 0, n),
    decreases n,
{
    if n > 0 {
        lemma_digits_prefix(m, d, n - 1);
        assert(m[n - 1] == d[n - 1]);
    }
}

/// A number that is written down reads back as it was, and is written without
/// zeros in front.
pub proof fn numbers_read_back(n: u64, s: String, text: &str, r: Option<u32>)
    requires
        call_ensures(text::dec_string, (n,), s),
        call_ensures(text::parse_u32, (text,), r),
        text@ == s@,
    ensures
        n <= u32::MAX ==> r == Some(n as u32),
        n > u32::MAX ==> r is None,
        s@.len() > 1 ==> s@[0] != '0',
{
    lemma_dec_digits(n as nat);
}

/// Each digit that follows makes ten of what stands before it and adds itself; what
/// holds anything but digits is no number, and neither is nothing.
pub proof fn numbers_are_read_by_tens(head: &str, whole: &str, a: Option<u32>, b: Option<u32>)
    requires
        call_ensures(text::parse_u32, (head,), a),
        call_ensures(text::parse_u32, (whole,), b),
        whole@.len() == head@.len() + 1,
        whole@.take(head@.len() as int) == head@,
    ensures
        ({
            let c = whole@.last();
            &&& '0' <= c && c <= '9' && a is Some ==> (b is Some <==> a->0 * 10 + (c as u32 - '0' as u32) <= u32::MAX)
            &&& '0' <= c && c <= '9' && a is Some && b is Some ==> b->0 == a->0 * 10 + (c as u32 - '0' as u32)
            &&& !('0' <= c && c <= '9') ==> b is None
        }),
        head@.len() == 0 ==> a is None,
        head@.len() == 0 && '0' <= whole@[0] && whole@[0] <= '9' ==> b == Some(
            (whole@[0] as u32 - '0' as u32) as u32,
        ),
{
    let n = head@.len() as int;
    let w = whole@;
    let h = head@;
    let c = w.last();
    assert(w[n] == c);
    assert forall|k: int| 0 <= k < n implies h[k] == #[trigger] w[k] by {
        assert(w.take(n)[k] == w[k]);
    }
    if n == 0 {
        assert(text::digits_value(w, 0, 0) == 0);
        assert(text::digits_value(w, 0, 1) == text::digits_value(w, 0, 0) * 10 + text::digit_value(w[0]));
    } else {
        assert(h[0] == w[0]);
        let i: int = if h[0] == '+' {
            1
        } else {
            0
        };
        lemma_digits_prefix_from(h, w, i, n);
        if a is Some && '0' <= c && c <= '9' {
            assert forall|k: int| i <= k < w.len() implies text::is_digit(#[trigger] w[k]) by {
                if k < n {
                    assert(w[k] == h[k]);
                }
            }
            text::lemma_digits_grow(h, i, i, n);
            assert(text::digits_value(w, i, n + 1) == text::digits_value(w, i, n) * 10 + text::digit_value(w[n]));
        }
    }
    if !('0' <= c && c <= '9') {
        assert(!text::is_digit(w[n]));
    }
}

proof fn lemma_digits_prefix_from(m: Seq<char>, d: Seq<char>, i: int, n: int)
    requires
        0 <= i,
        n <= m.len() <= d.len(),
        forall|k: int| 0 <= k < m.len() ==> m[k] == #[trigger] d[k],
    ensures
        text::digits_value(m, i, n) == text::digits_value(d, i, n),
    decreases n,
{
    if n > i {
        lemma_digits_prefix_from(m, d, i, n - 1);
        assert(m[n - 1] == d[n - 1]);
    }
}

pub proof fn lemma_first_at(s: Seq<char>, needle: Seq<char>, i: int, k: int)
    requires
        0 <= i <= k,
        text::stands_at(s, needle, k),
        forall|m: int| i <= m < k ==> !text::stands_at(s, needle, m),
    ensures
        text::first_at(s, needle, i) == k,
    decreases k - i,
{
    if i < k {
        assert(!text::stands_at(s, needle, i));
        lemma_first_at(s, needle, i + 1, k);
    }
}

proof fn lemma_nowhere(s: Seq<char>, needle: Seq<char>, i: int)
    requires
        0 <= i,
        !text::has_text(s, needle),
    ensures
        text::first_at(s, needle, i) == -1,
    decreases s.len() + 1 - i,
{
    if i <= s.len() - needle.len() {
        assert(!text::stands_at(s, needle, i));
        lemma_nowhere(s, needle, i + 1);
    }
}

/// A replacement takes the place of the first that is replaced; everything else
/// stays. Where there is none the text stays as it is.
pub proof fn the_first_is_replaced(s: &str, from: &str, to: &str, r: String, k: int)
    requires
        call_ensures(text::replace_first, (s, from, to), r),
    ensures
        text::stands_at(s@, from@, k) && (forall|m: int| 0 <= m < k ==> !text::stands_at(s@, from@, m)) ==> r@
            == s@.take(k) + to@ + s@.skip(k + from@.len()),
        !text::has_text(s@, from@) ==> r@ == s@,
{
    if text::stands_at(s@, from@, k) && (forall|m: int| 0 <= m < k ==> !text::stands_at(s@, from@, m)) {
        lemma_first_at(s@, from@, 0, k);
        assert(s@.skip(k + from@.len()) =~= s@.subrange(k + from@.len(), s@.len() as int));
    }
    if !text::has_text(s@, from@) {
        lemma_nowhere(s@, from@, 0);
    }
}

/// Capitals of ASCII become small letters, and nothing else changes.
pub proof fn capitals_become_small(s: &str, r: String, i: int)
    requires
        call_ensures(text::ascii_lower, (s,), r),
        0 <= i < s@.len(),
    ensures
        r@.len() == s@.len(),
        'A' <= s@[i] && s@[i] <= 'Z' ==> r@[i] as u32 == s@[i] as u32 + 32,
        !('A' <= s@[i] && s@[i] <= 'Z') ==> r@[i] == s@[i],
{
    lemma_lower(s@[i]);
}

proof fn lemma_lower(c: char)
    ensures
        'A' <= c && c <= 'Z' ==> text::lower_char(c) as u32 == c as u32 + 32,
        !('A' <= c && c <= 'Z') ==> text::lower_char(c) == c,
{
}

proof fn lemma_last_dot(s: Seq<char>, n: int, k: int)
    requires
        0 <= k < n <= s.len(),
        s[k] == '.',
        forall|i: int| k < i < n ==> #[trigger] s[i] != '.',
    ensures
        path::last_dot(s, n) == k,
    decreases n,
{
    if n - 1 > k {
        assert(s[n - 1] != '.');
        lemma_last_dot(s, n - 1, k);
    }
}

proof fn lemma_last_start(s: Seq<char>, n: int, k: int)
    requires
        0 <= k <= n <= s.len(),
        k == 0 || s[k - 1] == '/',
        forall|i: int| k <= i < n ==> #[trigger] s[i] != '/',
    ensures
        path::last_start(s, n) == k,
    decreases n,
{
    if n > k {
        assert(s[n - 1] != '/');
        lemma_last_start(s, n - 1, k);
    }
}

/// The name of a file is what stands behind the last slash of its path.
pub proof fn a_name_stands_behind_the_slash(p: &str, dir: Seq<char>, name: Seq<char>, r: Option<String>)
    requires
        call_ensures(path::file_name, (p,), r),
        p@ == dir.push('/') + name || p@ == name,
        name.len() > 0,
        forall|i: int| 0 <= i < name.len() ==> #[trigger] name[i] != '/',
        name != seq!['.'],
        name != seq!['.', '.'],
    ensures
        r matches Some(n) && n@ == name,
{
    lemma_name(p@, dir, name);
}

proof fn lemma_name(p: Seq<char>, dir: Seq<char>, name: Seq<char>)
    requires
        p == dir.push('/') + name || p == name,
        name.len() > 0,
        forall|i: int| 0 <= i < name.len() ==> #[trigger] name[i] != '/',
        name != seq!['.'],
        name != seq!['.', '.'],
    ensures
        path::name_in(p) == Some(name),
{
    let n = p.len() as int;
    let k = n - name.len();
    assert forall|i: int| k <= i < n implies #[trigger] p[i] != '/' by {
        assert(p[i] == name[i - k]);
    }
    assert(p[n - 1] == name.last());
    if n > 1 && p[n - 1] == '.' && p[n - 2] == '/' {
        assert(name.len() == 1);
        assert(name =~= seq!['.']);
    }
    assert(path::last_end(p, n) == n);
    lemma_last_start(p, n, k);
    assert(p.subrange(k, n) =~= name);
}

/// The extension of a file is what stands behind the last dot of its name, where
/// something stands before it.
pub proof fn an_extension_stands_behind_the_dot(
    p: &str,
    dir: Seq<char>,
    stem: Seq<char>,
    ext: Seq<char>,
    r: Option<String>,
)
    requires
        call_ensures(path::extension, (p,), r),
        p@ == dir.push('/') + (stem.push('.') + ext) || p@ == stem.push('.') + ext,
        stem != seq!['.'] || ext.len() > 0,
        stem.len() > 0 || ext.len() > 0,
        forall|i: int| 0 <= i < stem.len() ==> #[trigger] stem[i] != '/',
        forall|i: int| 0 <= i < ext.len() ==> #[trigger] ext[i] != '/' && ext[i] != '.',
    ensures
        stem.len() > 0 ==> (r matches Some(e) && e@ == ext),
        stem.len() == 0 ==> r is None,
{
    let name = stem.push('.') + ext;
    let d = stem.len() as int;
    assert(name[d] == '.');
    assert forall|i: int| 0 <= i < name.len() implies #[trigger] name[i] != '/' by {
        if i < d {
            assert(name[i] == stem[i]);
        } else if i > d {
            assert(name[i] == ext[i - d - 1]);
        }
    }
    assert forall|i: int| d < i < name.len() implies #[trigger] name[i] != '.' by {
        assert(name[i] == ext[i - d - 1]);
    }
    if name == seq!['.', '.'] {
        assert(name.len() == 2);
        if d == 1 {
            assert(name[0] == stem[0]);
            assert(stem =~= seq!['.']);
            assert(ext.len() == 0);
        } else {
            assert(d == 0);
            assert(name[1] == ext[0]);
        }
    }
    if name == seq!['.'] {
        assert(name.len() == 1);
    }
    lemma_name(p@, dir, name);
    lemma_last_dot(name, name.len() as int, d);
    assert(name.subrange(d + 1, name.len() as int) =~= ext);
}

/// A name without a dot has no extension.
pub proof fn without_a_dot_there_is_no_extension(p: &str, dir: Seq<char>, name: Seq<char>, r: Option<String>)
    requires
        call_ensures(path::extension, (p,), r),
        p@ == dir.push('/') + name || p@ == name,
        name.len() > 0,
        forall|i: int| 0 <= i < name.len() ==> #[trigger] name[i] != '/' && name[i] != '.',
    ensures
        r is None,
{
    assert(name[0] != '.');
    assert(seq!['.', '.'][0] == '.');
    assert(seq!['.'][0] == '.');
    lemma_name(p@, dir, name);
    lemma_no_dot(name, name.len() as int);
}

proof fn lemma_no_dot(s: Seq<char>, n: int)
    requires
        0 <= n <= s.len(),
        forall|i: int| 0 <= i < n ==> #[trigger] s[i] != '.',
    ensures
        path::last_dot(s, n) == -1,
    decreases n,
{
    if n > 0 {
        assert(s[n - 1] != '.');
        lemma_no_dot(s, n - 1);
    }
}

/// A path is found in a list where it stands there, at the first such place.
pub proof fn paths_are_found(paths: Vec<String>, p: &str, r: Option<usize>, k: int)
    requires
        call_ensures(path::find_path, (&paths, p), r),
        0 <= k < paths@.len(),
        paths@[k]@ == p@,
    ensures
        r matches Some(i) && i <= k,
        (forall|m: int| 0 <= m < k ==> !path::same(#[trigger] paths@[m]@, p@)) ==> r == Some(k as usize),
{
    let t = text::texts(paths@);
    lemma_found(t, p@, 0, k);
    if forall|m: int| 0 <= m < k ==> !path::same(#[trigger] paths@[m]@, p@) {
        path::lemma_place_of(t, p@, 0);
        let i = r->0 as int;
        assert(path::same(t[i], p@));
        assert(t[i] == paths@[i]@);
    }
}

proof fn lemma_found(t: Seq<Seq<char>>, p: Seq<char>, i: int, k: int)
    requires
        0 <= i <= k < t.len(),
        path::same(t[k], p),
    ensures
        path::place_of(t, p, i) matches Some(m) && m <= k,
    decreases k - i,
{
    if i < k && !path::same(t[i], p) {
        lemma_found(t, p, i + 1, k);
    }
}

/// The system's separators become slashes; nothing else changes.
pub proof fn separators_become_slashes(p: &str, separator: char, r: String, i: int)
    requires
        call_ensures(path::from_system, (p, separator), r),
        0 <= i < p@.len(),
    ensures
        r@.len() == p@.len(),
        p@[i] == separator ==> r@[i] == '/',
        p@[i] != separator ==> r@[i] == p@[i],
{
}

/// Names are joined to folders with one slash.
pub proof fn names_are_joined_to_folders(dir: &str, name: &str, r: String)
    requires
        call_ensures(path::join, (dir, name), r),
    ensures
        dir@.len() > 0 && dir@.last() != '/' ==> r@ == dir@ + seq!['/'] + name@,
        dir@.len() > 0 && dir@.last() == '/' ==> r@ == dir@ + name@,
        dir@.len() == 0 ==> r@ == name@,
{
    if dir@.len() > 0 && dir@.last() != '/' {
        assert(r@ =~= dir@ + seq!['/'] + name@);
    }
    if dir@.len() == 0 {
        assert(r@ =~= name@);
    }
}

/// What is cut to a width is the start of what it was, and all of it where that fits.
pub proof fn cuts_keep_the_start(s: &str, w: usize, r: String)
    requires
        call_ensures(ansi::truncate_ansi, (s, w), r),
    ensures
        r@.len() <= s@.len(),
        r@ == s@.take(r@.len() as int),
        ansi::visible_columns(s@) <= w ==> r@ == s@,
{
    ansi::lemma_cut_from(s@, 0, w as int);
    if ansi::visible_columns(s@) <= w {
        ansi::cut_leaves_what_fits(s@, w as int);
    }
}

/// Nothing that is shown of a tag or a name can steer the terminal.
pub proof fn what_is_shown_steers_nothing(s: &str, r: String, i: int)
    requires
        call_ensures(ansi::sanitize_display, (s,), r),
        0 <= i < r@.len(),
    ensures
        r@[i] as int >= 0x20,
        r@[i] != '\x1B' && r@[i] != '\n' && r@[i] as int != 0x7f,
{
    ansi::sanitized_holds_no_control(s@);
}

} // verus!
