//! How the columns of texts add up when the texts are put together.
use crate::ansi;
use crate::text;
use vstd::prelude::*;

verus! {

/// A text whose columns add to those of any text behind it: none of its escape
/// sequences is left open.
pub open spec fn is_closed(s: Seq<char>) -> bool {
    forall|t: Seq<char>| #[trigger]
        ansi::columns_from(s + t, 0) == ansi::columns_from(s, 0) + ansi::columns_from(t, 0)
}

/// Columns of a text, however many.
pub open spec fn columns(s: Seq<char>) -> int {
    ansi::columns_from(s, 0) as int
}

/// Closed texts behind one another are closed, and their columns add up.
pub proof fn joined_texts_are_closed(a: Seq<char>, b: Seq<char>)
    requires
        is_closed(a),
        is_closed(b),
    ensures
        is_closed(a + b),
        columns(a + b) == columns(a) + columns(b),
{
    assert forall|t: Seq<char>| #[trigger]
        ansi::columns_from((a + b) + t, 0) == ansi::columns_from(a + b, 0) + ansi::columns_from(t, 0) by {
        assert((a + b) + t =~= a + (b + t));
    }
}

proof fn lemma_shift_csi(a: Seq<char>, t: Seq<char>, j: int)
    requires
        0 <= j <= t.len(),
    ensures
        ansi::csi_end(a + t, a.len() + j) == a.len() + ansi::csi_end(t, j),
    decreases t.len() - j,
{
    if j < t.len() {
        assert((a + t)[a.len() + j] == t[j]);
        if !ansi::is_final(t[j]) {
            lemma_shift_csi(a, t, j + 1);
        }
    }
}

proof fn lemma_shift_payload(a: Seq<char>, t: Seq<char>, j: int)
    requires
        0 <= j <= t.len(),
    ensures
        ansi::payload_end(a + t, a.len() + j) == a.len() + ansi::payload_end(t, j),
    decreases t.len() - j,
{
    if j < t.len() {
        assert((a + t)[a.len() + j] == t[j]);
        if j + 1 < t.len() {
            assert((a + t)[a.len() + j + 1] == t[j + 1]);
        }
        lemma_shift_payload(a, t, j + 1);
    }
}

/// The columns of a text do not depend on what stands in front of it.
pub proof fn lemma_shift(a: Seq<char>, t: Seq<char>, j: int)
    requires
        0 <= j <= t.len(),
    ensures
        ansi::columns_from(a + t, a.len() + j) == ansi::columns_from(t, j),
    decreases t.len() - j,
{
    if j < t.len() {
        assert((a + t)[a.len() + j] == t[j]);
        if t[j] == '\x1B' {
            ansi::lemma_escape_end(t, j);
            if j + 1 < t.len() {
                assert((a + t)[a.len() + j + 1] == t[j + 1]);
                lemma_shift_csi(a, t, j + 2);
                lemma_shift_payload(a, t, j + 2);
            }
            lemma_shift(a, t, ansi::escape_end(t, j));
        } else {
            lemma_shift(a, t, j + 1);
        }
    }
}

/// Nothing is closed.
pub proof fn nothing_is_closed()
    ensures
        is_closed(Seq::<char>::empty()),
        columns(Seq::<char>::empty()) == 0,
{
    assert forall|t: Seq<char>| #[trigger]
        ansi::columns_from(Seq::<char>::empty() + t, 0) == ansi::columns_from(Seq::<char>::empty(), 0)
            + ansi::columns_from(t, 0) by {
        assert(Seq::<char>::empty() + t =~= t);
    }
}

/// A text without escapes is closed.
pub proof fn plain_text_is_closed(s: Seq<char>)
    requires
        forall|i: int| 0 <= i < s.len() ==> s[i] != '\x1B',
    ensures
        is_closed(s),
{
    assert forall|t: Seq<char>| #[trigger]
        ansi::columns_from(s + t, 0) == ansi::columns_from(s, 0) + ansi::columns_from(t, 0) by {
        lemma_plain(s, t, 0);
    }
}

proof fn lemma_plain(s: Seq<char>, t: Seq<char>, i: int)
    requires
        forall|k: int| 0 <= k < s.len() ==> s[k] != '\x1B',
        0 <= i <= s.len(),
    ensures
        ansi::columns_from(s + t, i) == ansi::columns_from(s, i) + ansi::columns_from(t, 0),
    decreases s.len() - i,
{
    if i < s.len() {
        assert((s + t)[i] == s[i]);
        lemma_plain(s, t, i + 1);
    } else {
        lemma_shift(s, t, 0);
    }
}

/// A text of narrow characters has a column to each.
pub proof fn narrow_text_is_counted(s: Seq<char>)
    requires
        forall|i: int| 0 <= i < s.len() ==> ansi::is_narrow(#[trigger] s[i]),
    ensures
        is_closed(s),
        columns(s) == s.len(),
{
    assert forall|i: int| 0 <= i < s.len() implies s[i] != '\x1B' by {
        assert(ansi::is_narrow(s[i]));
    }
    plain_text_is_closed(s);
    lemma_narrow(s, 0);
}

proof fn lemma_narrow(s: Seq<char>, i: int)
    requires
        forall|k: int| 0 <= k < s.len() ==> ansi::is_narrow(#[trigger] s[k]),
        0 <= i <= s.len(),
    ensures
        ansi::columns_from(s, i) == s.len() - i,
    decreases s.len() - i,
{
    if i < s.len() {
        assert(ansi::is_narrow(s[i]));
        lemma_narrow(s, i + 1);
    }
}

/// A narrow character over and over has a column to each.
pub proof fn repeated_is_counted(c: char, n: nat)
    requires
        ansi::is_narrow(c),
    ensures
        is_closed(text::rep(c, n)),
        columns(text::rep(c, n)) == n,
{
    narrow_text_is_counted(text::rep(c, n));
}

/// A change of colour is closed and has no columns.
pub open spec fn is_colour(s: Seq<char>) -> bool {
    &&& s.len() >= 3
    &&& s[0] == '\x1B'
    &&& s[1] == '['
    &&& forall|i: int| 2 <= i < s.len() - 1 ==> !ansi::is_final(#[trigger] s[i])
    &&& ansi::is_final(s.last())
}

/// A change of colour is closed and has no columns.
pub proof fn colour_has_no_columns(s: Seq<char>)
    requires
        is_colour(s),
    ensures
        is_closed(s),
        columns(s) == 0,
{
    assert forall|t: Seq<char>| #[trigger]
        ansi::columns_from(s + t, 0) == ansi::columns_from(t, 0) by {
        lemma_colour_end(s, t, 2);
        assert((s + t)[0] == s[0] && (s + t)[1] == s[1]);
        lemma_shift(s, t, 0);
    }
    assert(s + Seq::<char>::empty() =~= s);
    assert(ansi::columns_from(s + Seq::<char>::empty(), 0) == ansi::columns_from(Seq::<char>::empty(), 0));
}

proof fn lemma_colour_end(s: Seq<char>, t: Seq<char>, j: int)
    requires
        is_colour(s),
        2 <= j < s.len(),
    ensures
        ansi::csi_end(s + t, j) == s.len(),
    decreases s.len() - j,
{
    assert((s + t)[j] == s[j]);
    if j < s.len() - 1 {
        lemma_colour_end(s, t, j + 1);
    }
}

/// A cut of a closed text is closed.
pub proof fn cut_is_closed(s: Seq<char>, max: int)
    requires
        0 <= max,
        is_closed(s),
    ensures
        is_closed(ansi::cut(s, max)),
        columns(ansi::cut(s, max)) <= max,
{
    ansi::lemma_cut_from(s, 0, max);
    let k = ansi::cut_point(s, max);
    if k < s.len() {
        let p = ansi::cut(s, max);
        assert forall|t: Seq<char>| #[trigger]
            ansi::columns_from(p + t, 0) == ansi::columns_from(p, 0) + ansi::columns_from(t, 0) by {
            ansi::lemma_cut_append(s, 0, max, t);
        }
    } else {
        assert(ansi::cut(s, max) =~= s);
    }
}

} // verus!
