//! Building text one piece at a time.
//!
//! A frame line is a concatenation of literals, numbers and padding. The spec
//! functions here say what each piece is; the executable ones append it.
use vstd::prelude::*;
use vstd::string::StringExecFns;

verus! {

/// `String::push` appends one character.
pub assume_specification[ String::push ](s: &mut String, c: char)
    ensures
        final(s)@ == old(s)@.push(c),
;

/// `String::push_str` appends a whole string slice.
pub assume_specification[ String::push_str ](s: &mut String, t: &str)
    ensures
        final(s)@ == old(s)@ + t@,
;

/// `String::pop` removes the last character and returns it, or `None` on the
/// empty string.
pub assume_specification[ String::pop ](s: &mut String) -> (r: Option<char>)
    ensures
        old(s)@.len() == 0 ==> r is None && final(s)@ == old(s)@,
        old(s)@.len() > 0 ==> r == Some(old(s)@.last()) && final(s)@ == old(s)@.drop_last(),
;

/// `String::clear` leaves the empty string.
pub assume_specification[ String::clear ](s: &mut String)
    ensures
        final(s)@ == Seq::<char>::empty(),
;

/// `==` on string slices compares their contents.
pub assume_specification[ <str as PartialEq<str>>::eq ](a: &str, b: &str) -> (r: bool)
    ensures
        r == (a@ == b@),
;

/// `c` repeated `n` times.
pub open spec fn rep(c: char, n: nat) -> Seq<char> {
    Seq::new(n, |i: int| c)
}

/// The decimal digit `d`.
pub open spec fn digit(d: nat) -> char {
    seq!['0', '1', '2', '3', '4', '5', '6', '7', '8', '9'][d as int]
}

/// The decimal numeral of `n`, with no sign and no leading zeros.
pub open spec fn dec(n: nat) -> Seq<char>
    decreases n,
{
    if n < 10 {
        seq![digit(n)]
    } else {
        dec(n / 10).push(digit(n % 10))
    }
}

/// `s` with `c`s put before it until it is `w` characters long.
pub open spec fn pad_left(s: Seq<char>, c: char, w: nat) -> Seq<char> {
    if s.len() < w {
        rep(c, (w - s.len()) as nat) + s
    } else {
        s
    }
}

/// `s` with `c`s put after it until it is `w` characters long.
pub open spec fn pad_right(s: Seq<char>, c: char, w: nat) -> Seq<char> {
    if s.len() < w {
        s + rep(c, (w - s.len()) as nat)
    } else {
        s
    }
}

/// `a - b`, or 0 where that would be negative.
pub open spec fn minus(a: int, b: int) -> int {
    if a > b {
        a - b
    } else {
        0
    }
}

/// The smaller of two numbers.
pub open spec fn least(a: int, b: int) -> int {
    if a <= b {
        a
    } else {
        b
    }
}

/// The larger of two numbers.
pub open spec fn most(a: int, b: int) -> int {
    if a >= b {
        a
    } else {
        b
    }
}

/// The smaller of two counts.
pub fn min_usize(a: usize, b: usize) -> (r: usize)
    ensures
        r == least(a as int, b as int),
{
    if a <= b {
        a
    } else {
        b
    }
}

/// The larger of two counts.
pub fn max_usize(a: usize, b: usize) -> (r: usize)
    ensures
        r == most(a as int, b as int),
{
    if a >= b {
        a
    } else {
        b
    }
}

/// The characters of `s`.
pub fn chars_of(s: &str) -> (v: Vec<char>)
    ensures
        v@ == s@,
{
    let mut v: Vec<char> = Vec::new();
    for c in it: s.chars()
        invariant
            v@ == s@.take(it.index()),
            it.seq() == s@,
    {
        v.push(c);
        assert(v@ =~= s@.take(it.index() + 1));
    }
    assert(s@.take(s@.len() as int) =~= s@);
    v
}

/// The string made of the characters `v[from..to]`.
pub fn string_of(v: &Vec<char>, from: usize, to: usize) -> (s: String)
    requires
        from <= to <= v@.len(),
    ensures
        s@ == v@.subrange(from as int, to as int),
{
    let mut s: String = String::new();
    let mut i: usize = from;
    while i < to
        invariant
            from <= i <= to <= v@.len(),
            s@ == v@.subrange(from as int, i as int),
        decreases to - i,
    {
        s.push(v[i]);
        i = i + 1;
        assert(s@ =~= v@.subrange(from as int, i as int));
    }
    s
}

/// Appends `n` copies of `c`.
pub fn push_rep(s: &mut String, c: char, n: usize)
    ensures
        final(s)@ == old(s)@ + rep(c, n as nat),
{
    let ghost start = s@;
    let mut i: usize = 0;
    assert(s@ =~= start + rep(c, 0));
    while i < n
        invariant
            i <= n,
            s@ == start + rep(c, i as nat),
        decreases n - i,
    {
        s.push(c);
        i = i + 1;
        assert(s@ =~= start + rep(c, i as nat));
    }
}

/// `n` copies of `c`.
pub fn repeat_char(c: char, n: usize) -> (s: String)
    ensures
        s@ == rep(c, n as nat),
{
    let mut s: String = String::new();
    push_rep(&mut s, c, n);
    assert(s@ =~= rep(c, n as nat));
    s
}

/// The decimal digit `d`.
pub fn digit_char(d: u64) -> (c: char)
    requires
        d < 10,
    ensures
        c == digit(d as nat),
{
    match d {
        0 => '0',
        1 => '1',
        2 => '2',
        3 => '3',
        4 => '4',
        5 => '5',
        6 => '6',
        7 => '7',
        8 => '8',
        _ => '9',
    }
}

/// Appends the decimal numeral of `n`.
pub fn push_dec(s: &mut String, n: u64)
    ensures
        final(s)@ == old(s)@ + dec(n as nat),
    decreases n,
{
    let ghost start = s@;
    if n >= 10 {
        push_dec(s, n / 10);
    }
    s.push(digit_char(n % 10));
    assert(s@ =~= start + dec(n as nat));
}

/// The decimal numeral of `n`.
pub fn dec_string(n: u64) -> (s: String)
    ensures
        s@ == dec(n as nat),
{
    let mut s: String = String::new();
    push_dec(&mut s, n);
    assert(s@ =~= dec(n as nat));
    s
}

/// Appends the decimal numeral of `n`, padded with zeros to two digits.
pub fn push_dec2(s: &mut String, n: u64)
    ensures
        final(s)@ == old(s)@ + pad_left(dec(n as nat), '0', 2),
{
    let ghost start = s@;
    if n < 10 {
        s.push('0');
        s.push(digit_char(n));
        assert(s@ =~= start + pad_left(dec(n as nat), '0', 2));
    } else {
        push_dec(s, n);
        proof {
            lemma_dec_len(n as nat);
        }
    }
}

/// A numeral has at least one digit, and at least two from ten on.
pub proof fn lemma_dec_len(n: nat)
    ensures
        dec(n).len() >= 1,
        n >= 10 ==> dec(n).len() >= 2,
    decreases n,
{
    if n >= 10 {
        lemma_dec_len(n / 10);
    }
}

/// The lower-case letter of an ASCII capital, and any other character itself.
pub open spec fn lower_char(c: char) -> char {
    if 'A' <= c && c <= 'Z' {
        ((c as u8) + 32) as u8 as char
    } else {
        c
    }
}

/// `s` with its ASCII capitals made lower-case.
pub open spec fn lowered(s: Seq<char>) -> Seq<char> {
    s.map_values(|c: char| lower_char(c))
}

/// Makes the ASCII capitals of `s` lower-case.
pub fn ascii_lower(s: &str) -> (r: String)
    ensures
        r@ == lowered(s@),
{
    let chars: Vec<char> = chars_of(s);
    let mut out: String = String::new();
    let mut i: usize = 0;
    assert(out@ =~= lowered(s@.take(0)));
    while i < chars.len()
        invariant
            chars@ == s@,
            i <= chars@.len(),
            out@ == lowered(s@.take(i as int)),
        decreases chars@.len() - i,
    {
        let c: char = chars[i];
        if 'A' <= c && c <= 'Z' {
            out.push((c as u8 + 32) as char);
        } else {
            out.push(c);
        }
        i = i + 1;
        assert(out@ =~= lowered(s@.take(i as int)));
    }
    assert(s@.take(s@.len() as int) =~= s@);
    out
}

/// What `str::to_lowercase` makes of a text.
pub uninterp spec fn lowercase(s: Seq<char>) -> Seq<char>;

/// Whether a text is made of ASCII characters alone.
pub open spec fn is_ascii(s: Seq<char>) -> bool {
    forall|i: int| 0 <= i < s.len() ==> (#[trigger] s[i]) as u32 <= 0x7f
}

/// `str::to_lowercase` maps a text to its lower-case form by the Unicode tables.
/// Of ASCII text it makes the capitals lower-case and keeps the rest.
pub assume_specification[ str::to_lowercase ](s: &str) -> (r: String)
    ensures
        r@ == lowercase(s@),
        is_ascii(s@) ==> r@ == lowered(s@),
;

/// A text in small letters: of ASCII text the capitals made small, else what
/// `str::to_lowercase` makes of it.
pub open spec fn folded(s: Seq<char>) -> Seq<char> {
    if is_ascii(s) {
        lowered(s)
    } else {
        lowercase(s)
    }
}

/// Whether `needle` stands in `hay` at place `i`.
pub open spec fn stands_at(hay: Seq<char>, needle: Seq<char>, i: int) -> bool {
    0 <= i <= hay.len() - needle.len() && hay.subrange(i, i + needle.len()) == needle
}

/// Whether `needle` stands anywhere in `hay`.
pub open spec fn has_text(hay: Seq<char>, needle: Seq<char>) -> bool {
    exists|i: int| stands_at(hay, needle, i)
}

/// Whether `needle` stands in `hay` at place `i`.
fn match_at(hay: &Vec<char>, needle: &Vec<char>, i: usize) -> (r: bool)
    requires
        i + needle@.len() <= hay@.len(),
    ensures
        r == stands_at(hay@, needle@, i as int),
{
    let len: usize = hay.len();
    let mut k: usize = 0;
    while k < needle.len()
        invariant
            len == hay@.len(),
            i + needle@.len() <= len,
            k <= needle@.len(),
            forall|m: int| 0 <= m < k ==> hay@[i + m] == needle@[m],
        decreases needle@.len() - k,
    {
        if hay[i + k] != needle[k] {
            assert(hay@.subrange(i as int, i + needle@.len())[k as int] == hay@[i + k]);
            return false;
        }
        k = k + 1;
    }
    assert(hay@.subrange(i as int, i + needle@.len()) =~= needle@);
    true
}

/// Whether `needle` stands anywhere in `hay`.
pub fn contains_text(hay: &str, needle: &str) -> (r: bool)
    ensures
        r == has_text(hay@, needle@),
{
    let h: Vec<char> = chars_of(hay);
    let n: Vec<char> = chars_of(needle);
    if n.len() > h.len() {
        return false;
    }
    let last: usize = h.len() - n.len();
    let mut i: usize = 0;
    while i <= last
        invariant
            h@ == hay@,
            n@ == needle@,
            last == h@.len() - n@.len(),
            i <= last + 1,
            forall|k: int| 0 <= k < i ==> !stands_at(hay@, needle@, k),
        decreases last + 1 - i,
    {
        if match_at(&h, &n, i) {
            return true;
        }
        if i == last {
            return false;
        }
        i = i + 1;
    }
    false
}

/// Whether `head` opens `s`.
pub open spec fn opens_with(s: Seq<char>, head: Seq<char>) -> bool {
    head.len() <= s.len() && s.take(head.len() as int) == head
}

/// Whether `head` opens `s`.
pub fn starts_with_text(s: &str, head: &str) -> (r: bool)
    ensures
        r == opens_with(s@, head@),
{
    let h: Vec<char> = chars_of(s);
    let n: Vec<char> = chars_of(head);
    if n.len() > h.len() {
        return false;
    }
    assert(s@.subrange(0, head@.len() as int) =~= s@.take(head@.len() as int));
    match_at(&h, &n, 0)
}

/// White space, as Unicode has it.
pub open spec fn is_white(c: char) -> bool {
    let n: int = c as int;
    9 <= n <= 13 || n == 0x20 || n == 0x85 || n == 0xa0 || n == 0x1680 || 0x2000 <= n <= 0x200a || n
        == 0x2028 || n == 0x2029 || n == 0x202f || n == 0x205f || n == 0x3000
}

/// Where `s[..n]` ends without the white space at its end.
pub open spec fn white_end(s: Seq<char>, n: int) -> int
    decreases n,
{
    if n > 0 && is_white(s[n - 1]) {
        white_end(s, n - 1)
    } else {
        n
    }
}

/// Where `s[i..n]` starts without the white space at its start.
pub open spec fn white_start(s: Seq<char>, i: int, n: int) -> int
    decreases n - i,
{
    if i < n && is_white(s[i]) {
        white_start(s, i + 1, n)
    } else {
        i
    }
}

/// White space, as Unicode has it.
pub fn white_char(c: char) -> (r: bool)
    ensures
        r == is_white(c),
{
    ('\u{9}' <= c && c <= '\u{d}') || c == ' ' || c == '\u{85}' || c == '\u{a0}' || c == '\u{1680}' || (
    '\u{2000}' <= c && c <= '\u{200a}') || c == '\u{2028}' || c == '\u{2029}' || c == '\u{202f}' || c
        == '\u{205f}' || c == '\u{3000}'
}

/// `s` without the white space at either end.
pub open spec fn trimmed(s: Seq<char>) -> Seq<char> {
    let e = white_end(s, s.len() as int);
    s.subrange(white_start(s, 0, e), e)
}

/// White space at the end leaves a text that is no longer.
pub proof fn lemma_white_end(s: Seq<char>, n: int)
    requires
        0 <= n <= s.len(),
    ensures
        0 <= white_end(s, n) <= n,
    decreases n,
{
    if n > 0 && is_white(s[n - 1]) {
        lemma_white_end(s, n - 1);
    }
}

/// White space at the start ends within the text.
pub proof fn lemma_white_start(s: Seq<char>, i: int, n: int)
    requires
        0 <= i <= n <= s.len(),
    ensures
        i <= white_start(s, i, n) <= n,
    decreases n - i,
{
    if i < n && is_white(s[i]) {
        lemma_white_start(s, i + 1, n);
    }
}

/// Takes the white space off both ends.
pub fn trim_text(s: &str) -> (r: String)
    ensures
        r@ == trimmed(s@),
{
    let v: Vec<char> = chars_of(s);
    let mut n: usize = v.len();
    while n > 0 && white_char(v[n - 1])
        invariant
            v@ == s@,
            n <= v@.len(),
            white_end(s@, n as int) == white_end(s@, s@.len() as int),
        decreases n,
    {
        n = n - 1;
    }
    let mut k: usize = 0;
    while k < n && white_char(v[k])
        invariant
            v@ == s@,
            k <= n <= v@.len(),
            white_start(s@, k as int, n as int) == white_start(s@, 0, n as int),
        decreases n - k,
    {
        k = k + 1;
    }
    string_of(&v, k, n)
}

/// The first place from `i` on at which `c` stands in `s`, or the end.
pub open spec fn find_from(s: Seq<char>, c: char, i: int) -> int
    decreases s.len() - i,
{
    if i >= s.len() {
        s.len() as int
    } else if s[i] == c {
        i
    } else {
        find_from(s, c, i + 1)
    }
}

/// The first place from `i` on at which `c` stands, or the end.
pub fn find_char(v: &Vec<char>, c: char, i: usize) -> (r: usize)
    requires
        i <= v@.len(),
    ensures
        r == find_from(v@, c, i as int),
        i <= r <= v@.len(),
        r < v@.len() ==> v@[r as int] == c,
{
    let mut k: usize = i;
    while k < v.len() && v[k] != c
        invariant
            i <= k <= v@.len(),
            find_from(v@, c, k as int) == find_from(v@, c, i as int),
        decreases v@.len() - k,
    {
        k = k + 1;
    }
    k
}

pub proof fn lemma_find_from(s: Seq<char>, c: char, i: int)
    requires
        0 <= i <= s.len(),
    ensures
        i <= find_from(s, c, i) <= s.len(),
        find_from(s, c, i) < s.len() ==> s[find_from(s, c, i)] == c,
    decreases s.len() - i,
{
    if i < s.len() && s[i] != c {
        lemma_find_from(s, c, i + 1);
    }
}

/// The texts of some strings.
pub open spec fn texts(v: Seq<String>) -> Seq<Seq<char>> {
    v.map_values(|s: String| s@)
}

/// The line of `s` that starts at `i` and ends at the newline at `j`, or at the
/// end of the text: a carriage return in front of the newline does not count.
pub open spec fn line_at(s: Seq<char>, i: int, j: int) -> Seq<char> {
    if j < s.len() && j > i && s[j - 1] == '\r' {
        s.subrange(i, j - 1)
    } else {
        s.subrange(i, j)
    }
}

/// The lines of `s[i..]`. A newline at the very end opens no further line.
pub open spec fn lines_from(s: Seq<char>, i: int) -> Seq<Seq<char>>
    decreases s.len() - i,
{
    if i < 0 || i >= s.len() {
        Seq::empty()
    } else {
        let j = find_from(s, '\n', i);
        proof {
            lemma_find_from(s, '\n', i);
        }
        if j >= s.len() {
            seq![line_at(s, i, j)]
        } else {
            seq![line_at(s, i, j)] + lines_from(s, j + 1)
        }
    }
}

/// The lines of a text.
pub fn lines_of(s: &str) -> (r: Vec<String>)
    ensures
        texts(r@) == lines_from(s@, 0),
{
    let v: Vec<char> = chars_of(s);
    let mut out: Vec<String> = Vec::new();
    let mut i: usize = 0;
    assert(texts(out@) + lines_from(s@, 0) =~= lines_from(s@, 0));
    while i < v.len()
        invariant
            v@ == s@,
            i <= v@.len(),
            texts(out@) + lines_from(s@, i as int) == lines_from(s@, 0),
        decreases v@.len() - i,
    {
        let j: usize = find_char(&v, '\n', i);
        let e: usize = if j < v.len() && j > i && v[j - 1] == '\r' {
            j - 1
        } else {
            j
        };
        let line: String = string_of(&v, i, e);
        let ghost prev = out@;
        let ghost lv = line@;
        out.push(line);
        assert(texts(out@) =~= texts(prev).push(lv));
        assert(lv == line_at(s@, i as int, j as int));
        if j < v.len() {
            assert(texts(out@) + lines_from(s@, j + 1) =~= texts(prev) + lines_from(s@, i as int));
            i = j + 1;
        } else {
            assert(lines_from(s@, j as int) =~= Seq::<Seq<char>>::empty());
            assert(texts(out@) + lines_from(s@, j as int) =~= texts(prev) + lines_from(s@, i as int));
            i = j;
        }
    }
    assert(texts(out@) + lines_from(s@, i as int) =~= texts(out@));
    out
}

/// The parts of `s[i..]` between occurrences of `c`.
pub open spec fn split_from(s: Seq<char>, c: char, i: int) -> Seq<Seq<char>>
    decreases s.len() - i,
{
    if i < 0 || i > s.len() {
        Seq::empty()
    } else {
        let j = find_from(s, c, i);
        proof {
            lemma_find_from(s, c, i);
        }
        if j >= s.len() {
            seq![s.subrange(i, s.len() as int)]
        } else {
            seq![s.subrange(i, j)] + split_from(s, c, j + 1)
        }
    }
}

/// The parts of a text between occurrences of `c`.
pub fn split_text(s: &str, c: char) -> (r: Vec<String>)
    ensures
        texts(r@) == split_from(s@, c, 0),
        r@.len() >= 1,
{
    let v: Vec<char> = chars_of(s);
    let mut out: Vec<String> = Vec::new();
    let mut i: usize = 0;
    assert(texts(out@) + split_from(s@, c, 0) =~= split_from(s@, c, 0));
    loop
        invariant
            v@ == s@,
            i <= v@.len(),
            texts(out@) + split_from(s@, c, i as int) == split_from(s@, c, 0),
        decreases v@.len() - i,
    {
        let j: usize = find_char(&v, c, i);
        let part: String = string_of(&v, i, j);
        let ghost prev = out@;
        let ghost pv = part@;
        out.push(part);
        assert(texts(out@) =~= texts(prev).push(pv));
        if j >= v.len() {
            assert(texts(out@) =~= texts(prev) + split_from(s@, c, i as int));
            return out;
        }
        assert(texts(out@) + split_from(s@, c, j + 1) =~= texts(prev) + split_from(s@, c, i as int));
        i = j + 1;
    }
}

/// Whether a character is a decimal digit.
pub open spec fn is_digit(c: char) -> bool {
    '0' <= c && c <= '9'
}

/// What a decimal digit stands for.
pub open spec fn digit_value(c: char) -> int {
    c as int - '0' as int
}

/// Whether `s[i..]` is all digits.
pub open spec fn all_digits(s: Seq<char>, i: int) -> bool {
    forall|k: int| i <= k < s.len() ==> is_digit(#[trigger] s[k])
}

/// The number that the digits `s[i..n]` stand for.
pub open spec fn digits_value(s: Seq<char>, i: int, n: int) -> int
    decreases n - i,
{
    if n <= i {
        0
    } else {
        digits_value(s, i, n - 1) * 10 + digit_value(s[n - 1])
    }
}

/// The number a text stands for: digits, with a plus sign in front or without,
/// that a `u32` can hold.
pub open spec fn u32_in(s: Seq<char>) -> Option<u32> {
    let i: int = if s.len() > 0 && s[0] == '+' {
        1
    } else {
        0
    };
    if s.len() > i && all_digits(s, i) && digits_value(s, i, s.len() as int) <= u32::MAX {
        Some(digits_value(s, i, s.len() as int) as u32)
    } else {
        None
    }
}

/// What a decimal digit stands for.
pub fn digit_of(c: char) -> (r: u64)
    requires
        is_digit(c),
    ensures
        r == digit_value(c),
        r <= 9,
{
    match c {
        '0' => 0,
        '1' => 1,
        '2' => 2,
        '3' => 3,
        '4' => 4,
        '5' => 5,
        '6' => 6,
        '7' => 7,
        '8' => 8,
        _ => 9,
    }
}

/// More digits never make a number smaller.
pub proof fn lemma_digits_grow(s: Seq<char>, i: int, m: int, n: int)
    requires
        0 <= i <= m <= n <= s.len(),
        forall|k: int| i <= k < n ==> is_digit(#[trigger] s[k]),
    ensures
        0 <= digits_value(s, i, m) <= digits_value(s, i, n),
    decreases n - i,
{
    if n > i {
        if m < n {
            lemma_digits_grow(s, i, m, n - 1);
        } else {
            lemma_digits_grow(s, i, n - 1, n - 1);
        }
        assert(is_digit(s[n - 1]));
    }
}

/// Reads a number.
pub fn parse_u32(s: &str) -> (r: Option<u32>)
    ensures
        r == u32_in(s@),
{
    let v: Vec<char> = chars_of(s);
    let start: usize = if v.len() > 0 && v[0] == '+' {
        1
    } else {
        0
    };
    if v.len() <= start {
        return None;
    }
    let mut n: u64 = 0;
    let mut k: usize = start;
    while k < v.len()
        invariant
            v@ == s@,
            start <= k <= v@.len(),
            start == (if s@.len() > 0 && s@[0] == '+' {
                1int
            } else {
                0int
            }),
            forall|m: int| start <= m < k ==> is_digit(#[trigger] v@[m]),
            n == digits_value(s@, start as int, k as int),
            n <= u32::MAX,
        decreases v@.len() - k,
    {
        let c: char = v[k];
        if !('0' <= c && c <= '9') {
            assert(!is_digit(s@[k as int]));
            return None;
        }
        n = n * 10 + digit_of(c);
        k = k + 1;
        if n > 0xffff_ffff {
            proof {
                if all_digits(s@, start as int) {
                    lemma_digits_grow(s@, start as int, k as int, s@.len() as int);
                }
            }
            return None;
        }
    }
    Some(n as u32)
}

/// The first place from `i` on at which `needle` stands in `s`, or -1.
pub open spec fn first_at(s: Seq<char>, needle: Seq<char>, i: int) -> int
    decreases s.len() + 1 - i,
{
    if i < 0 || i > s.len() - needle.len() {
        -1
    } else if stands_at(s, needle, i) {
        i
    } else {
        first_at(s, needle, i + 1)
    }
}

/// `s` with the first `from` in it replaced by `to`.
pub open spec fn replaced_first(s: Seq<char>, from: Seq<char>, to: Seq<char>) -> Seq<char> {
    let i = first_at(s, from, 0);
    if i < 0 {
        s
    } else {
        s.take(i) + to + s.subrange(i + from.len(), s.len() as int)
    }
}

/// Replaces the first `from` in `s` by `to`.
pub fn replace_first(s: &str, from: &str, to: &str) -> (r: String)
    ensures
        r@ == replaced_first(s@, from@, to@),
{
    let v: Vec<char> = chars_of(s);
    let n: Vec<char> = chars_of(from);
    let mut i: usize = 0;
    while n.len() <= v.len() && i <= v.len() - n.len()
        invariant
            v@ == s@,
            n@ == from@,
            i <= v@.len() + 1,
            first_at(s@, from@, i as int) == first_at(s@, from@, 0),
        decreases v@.len() + 1 - i,
    {
        if match_at(&v, &n, i) {
            let mut out: String = string_of(&v, 0, i);
            assert(out@ =~= s@.take(i as int));
            out.push_str(to);
            let rest: String = string_of(&v, i + n.len(), v.len());
            out.push_str(rest.as_str());
            return out;
        }
        assert(i < v@.len()) by {
            if i == v@.len() {
                assert(s@.subrange(i as int, i as int) =~= from@);
            }
        }
        i = i + 1;
    }
    s.to_owned()
}

/// Whether a text is empty.
pub fn is_blank(s: &str) -> (r: bool)
    ensures
        r == (s@.len() == 0),
{
    proof {
        reveal_strlit("");
    }
    let r: bool = s.eq("");
    assert(s@.len() == 0 ==> s@ =~= ""@);
    r
}

/// What [`str::to_uppercase`] makes of a text.
pub uninterp spec fn uppercase(s: Seq<char>) -> Seq<char>;

/// `str::to_uppercase` depends on nothing but the text.
pub assume_specification[ str::to_uppercase ](s: &str) -> (r: String)
    ensures
        r@ == uppercase(s@),
;

/// Bytes that a text takes.
pub fn byte_len(s: &str) -> (n: usize)
    ensures
        n == vstd::utf8::encode_utf8(s@).len(),
{
    s.as_bytes().len()
}

/// Characters of a text.
pub fn char_count(s: &str) -> (n: usize)
    ensures
        n == s@.len(),
{
    chars_of(s).len()
}

/// Some spaces.
pub open spec fn spaces(n: int) -> Seq<char> {
    rep(' ', n as nat)
}

/// Appends some spaces.
pub fn push_spaces(s: &mut String, n: usize)
    ensures
        final(s)@ == old(s)@ + spaces(n as int),
{
    push_rep(s, ' ', n);
}

} // verus!
