//! Stable sorting by composite keys.
//!
//! A key is a list of numbers and texts that is compared part by part. Sorting
//! gives back the places of the keys in their new order; keys that are equal
//! keep the order they came in.
use crate::text::chars_of;
use vstd::prelude::*;

verus! {

/// One part of a key, as a value.
pub enum PartView {
    Num(i128),
    Text(Seq<char>),
}

/// One part of a key.
pub enum Part {
    Num(i128),
    Text(Vec<char>),
}

impl View for Part {
    type V = PartView;

    open spec fn view(&self) -> PartView {
        match self {
            Part::Num(n) => PartView::Num(*n),
            Part::Text(v) => PartView::Text(v@),
        }
    }
}

/// The value of a key.
pub open spec fn key_view(k: Vec<Part>) -> Seq<PartView> {
    k@.map_values(|p: Part| p@)
}

/// The values of some keys.
pub open spec fn keys_view(ks: Seq<Vec<Part>>) -> Seq<Seq<PartView>> {
    ks.map_values(|k: Vec<Part>| key_view(k))
}

/// Whether `a[i..]` comes before `b[i..]`, character by character.
pub open spec fn text_less(a: Seq<char>, b: Seq<char>, i: int) -> bool
    decreases b.len() - i,
{
    if i >= b.len() {
        false
    } else if i >= a.len() {
        true
    } else if a[i] != b[i] {
        a[i] < b[i]
    } else {
        text_less(a, b, i + 1)
    }
}

/// Whether a part comes before another; numbers come before texts.
pub open spec fn part_less(a: PartView, b: PartView) -> bool {
    match (a, b) {
        (PartView::Num(x), PartView::Num(y)) => x < y,
        (PartView::Num(_), PartView::Text(_)) => true,
        (PartView::Text(_), PartView::Num(_)) => false,
        (PartView::Text(x), PartView::Text(y)) => text_less(x, y, 0),
    }
}

/// Whether `a[i..]` comes before `b[i..]`, part by part.
pub open spec fn key_less(a: Seq<PartView>, b: Seq<PartView>, i: int) -> bool
    decreases b.len() - i,
{
    if i >= b.len() {
        false
    } else if i >= a.len() {
        true
    } else if a[i] != b[i] {
        part_less(a[i], b[i])
    } else {
        key_less(a, b, i + 1)
    }
}

/// Whether the key at place `i` comes before the one at place `j`: by its value,
/// and by its place where the values are equal.
pub open spec fn before(keys: Seq<Seq<PartView>>, i: int, j: int) -> bool {
    key_less(keys[i], keys[j], 0) || (keys[i] == keys[j] && i < j)
}

/// Whether `p` lists all places of `keys` in their order.
pub open spec fn is_order(keys: Seq<Seq<PartView>>, p: Seq<int>) -> bool {
    &&& p.len() == keys.len()
    &&& forall|r: int| 0 <= r < p.len() ==> 0 <= #[trigger] p[r] < keys.len()
    &&& forall|i: int| 0 <= i < keys.len() ==> #[trigger] p.contains(i)
    &&& forall|r: int, s: int| 0 <= r < s < p.len() ==> before(keys, #[trigger] p[r], #[trigger] p[s])
}

/// The places of `keys` in their order.
pub open spec fn order_of(keys: Seq<Seq<PartView>>) -> Seq<int> {
    choose|p: Seq<int>| is_order(keys, p)
}

/// The places in a vector, as whole numbers.
pub open spec fn places(v: Seq<usize>) -> Seq<int> {
    v.map_values(|x: usize| x as int)
}

proof fn lemma_text_less(a: Seq<char>, b: Seq<char>, i: int)
    requires
        0 <= i,
    ensures
        !(text_less(a, b, i) && text_less(b, a, i)),
        !text_less(a, a, i),
        i <= a.len() && i <= b.len() && !text_less(a, b, i) && !text_less(b, a, i) ==> {
            &&& a.len() == b.len()
            &&& forall|k: int| i <= k < a.len() ==> a[k] == b[k]
        },
    decreases a.len() + b.len() - i,
{
    if i < a.len() || i < b.len() {
        lemma_text_less(a, b, i + 1);
        if i < a.len() {
            lemma_text_irreflexive(a, i);
        }
    }
}

proof fn lemma_text_irreflexive(a: Seq<char>, i: int)
    requires
        0 <= i,
    ensures
        !text_less(a, a, i),
    decreases a.len() - i,
{
    if i < a.len() {
        lemma_text_irreflexive(a, i + 1);
    }
}

/// The order of texts carries across a third.
pub proof fn lemma_text_trans(a: Seq<char>, b: Seq<char>, c: Seq<char>, i: int)
    requires
        0 <= i,
        text_less(a, b, i),
        text_less(b, c, i),
    ensures
        text_less(a, c, i),
    decreases c.len() - i,
{
    if i < a.len() && i < b.len() && i < c.len() && a[i] == b[i] && b[i] == c[i] {
        lemma_text_trans(a, b, c, i + 1);
    }
}

/// Parts are ordered: never both ways, always one way unless equal, and across
/// a third.
proof fn lemma_part_less(a: PartView, b: PartView, c: PartView)
    ensures
        !(part_less(a, b) && part_less(b, a)),
        !part_less(a, a),
        !part_less(a, b) && !part_less(b, a) ==> a == b,
        part_less(a, b) && part_less(b, c) ==> part_less(a, c),
{
    match (a, b) {
        (PartView::Text(x), PartView::Text(y)) => {
            lemma_text_less(x, y, 0);
            lemma_text_irreflexive(x, 0);
            if !part_less(a, b) && !part_less(b, a) {
                assert(x =~= y);
            }
            if let PartView::Text(z) = c {
                if text_less(x, y, 0) && text_less(y, z, 0) {
                    lemma_text_trans(x, y, z, 0);
                }
            }
        },
        (PartView::Text(x), _) => {
            lemma_text_irreflexive(x, 0);
        },
        _ => {},
    }
}

proof fn lemma_key_less(a: Seq<PartView>, b: Seq<PartView>, i: int)
    requires
        0 <= i,
    ensures
        !(key_less(a, b, i) && key_less(b, a, i)),
        i <= a.len() && i <= b.len() && !key_less(a, b, i) && !key_less(b, a, i) ==> {
            &&& a.len() == b.len()
            &&& forall|k: int| i <= k < a.len() ==> a[k] == b[k]
        },
    decreases a.len() + b.len() - i,
{
    if i < a.len() || i < b.len() {
        lemma_key_less(a, b, i + 1);
        if i < a.len() && i < b.len() {
            lemma_part_less(a[i], b[i], a[i]);
        }
    }
}

proof fn lemma_key_irreflexive(a: Seq<PartView>, i: int)
    requires
        0 <= i,
    ensures
        !key_less(a, a, i),
    decreases a.len() - i,
{
    if i < a.len() {
        lemma_key_irreflexive(a, i + 1);
    }
}

proof fn lemma_key_trans(a: Seq<PartView>, b: Seq<PartView>, c: Seq<PartView>, i: int)
    requires
        0 <= i,
        key_less(a, b, i),
        key_less(b, c, i),
    ensures
        key_less(a, c, i),
    decreases c.len() - i,
{
    if i < a.len() && i < b.len() && i < c.len() {
        lemma_part_less(a[i], b[i], c[i]);
        if a[i] == b[i] && b[i] == c[i] {
            lemma_key_trans(a, b, c, i + 1);
        } else if a[i] != b[i] && b[i] != c[i] {
            if a[i] == c[i] {
                lemma_part_less(b[i], c[i], b[i]);
            }
        }
    }
}

/// The order of places is strict.
proof fn lemma_before_strict(keys: Seq<Seq<PartView>>, i: int, j: int)
    ensures
        !(before(keys, i, j) && before(keys, j, i)),
        !before(keys, i, i),
{
    lemma_key_less(keys[i], keys[j], 0);
    lemma_key_irreflexive(keys[i], 0);
}

/// Of two places one comes first.
proof fn lemma_before_total(keys: Seq<Seq<PartView>>, i: int, j: int)
    requires
        i != j,
    ensures
        before(keys, i, j) || before(keys, j, i),
{
    lemma_key_less(keys[i], keys[j], 0);
    if !key_less(keys[i], keys[j], 0) && !key_less(keys[j], keys[i], 0) {
        assert(keys[i] =~= keys[j]);
    }
}

/// The order of places carries across a third.
proof fn lemma_before_trans(keys: Seq<Seq<PartView>>, i: int, j: int, k: int)
    requires
        before(keys, i, j),
        before(keys, j, k),
    ensures
        before(keys, i, k),
{
    if key_less(keys[i], keys[j], 0) && key_less(keys[j], keys[k], 0) {
        lemma_key_trans(keys[i], keys[j], keys[k], 0);
    }
}

/// No place comes before itself.
pub proof fn order_is_strict(keys: Seq<Seq<PartView>>, i: int)
    ensures
        !before(keys, i, i),
{
    lemma_key_irreflexive(keys[i], 0);
}

/// Of two places only one comes before the other.
pub proof fn order_goes_one_way(keys: Seq<Seq<PartView>>, i: int, j: int)
    requires
        before(keys, i, j),
    ensures
        !before(keys, j, i),
{
    lemma_key_less(keys[i], keys[j], 0);
    lemma_key_irreflexive(keys[i], 0);
}

/// Keys have one order only.
pub proof fn lemma_order_unique(keys: Seq<Seq<PartView>>, p: Seq<int>, q: Seq<int>)
    requires
        is_order(keys, p),
        is_order(keys, q),
    ensures
        p == q,
{
    lemma_order_agrees(keys, p, q, keys.len() as int);
    assert(p =~= q);
}

proof fn lemma_order_agrees(keys: Seq<Seq<PartView>>, p: Seq<int>, q: Seq<int>, n: int)
    requires
        is_order(keys, p),
        is_order(keys, q),
        0 <= n <= keys.len(),
    ensures
        forall|r: int| 0 <= r < n ==> p[r] == q[r],
    decreases n,
{
    if n > 0 {
        lemma_order_agrees(keys, p, q, n - 1);
        let r = n - 1;
        if p[r] != q[r] {
            assert(q.contains(p[r]));
            assert(p.contains(q[r]));
            let m = choose|m: int| 0 <= m < q.len() && q[m] == p[r];
            let k = choose|k: int| 0 <= k < p.len() && p[k] == q[r];
            if m < r {
                assert(p[m] == q[m]);
                lemma_before_strict(keys, p[m], p[m]);
                assert(before(keys, p[m], p[r]));
            }
            if k < r {
                assert(p[k] == q[k]);
                lemma_before_strict(keys, q[k], q[k]);
                assert(before(keys, q[k], q[r]));
            }
            assert(before(keys, q[r], q[m]));
            assert(before(keys, p[r], p[k]));
            lemma_before_strict(keys, p[r], q[r]);
            assert(false);
        }
    }
}

/// Where the place `m` belongs among the ordered places `p`, from `r` on.
spec fn slot(keys: Seq<Seq<PartView>>, p: Seq<int>, m: int, r: int) -> int
    decreases p.len() - r,
{
    if r >= p.len() || before(keys, m, p[r]) {
        r
    } else {
        slot(keys, p, m, r + 1)
    }
}

proof fn lemma_slot(keys: Seq<Seq<PartView>>, p: Seq<int>, m: int, r: int)
    requires
        0 <= r <= p.len(),
    ensures
        r <= slot(keys, p, m, r) <= p.len(),
        forall|i: int| r <= i < slot(keys, p, m, r) ==> !before(keys, m, #[trigger] p[i]),
        slot(keys, p, m, r) < p.len() ==> before(keys, m, p[slot(keys, p, m, r)]),
    decreases p.len() - r,
{
    if r < p.len() && !before(keys, m, p[r]) {
        lemma_slot(keys, p, m, r + 1);
    }
}

/// Any keys have an order.
pub proof fn order_exists(keys: Seq<Seq<PartView>>)
    ensures
        is_order(keys, order_of(keys)),
    decreases keys.len(),
{
    if keys.len() == 0 {
        assert(is_order(keys, Seq::<int>::empty()));
    } else {
        let ks = keys.drop_last();
        let m = keys.len() - 1;
        order_exists(ks);
        let p = order_of(ks);
        assert forall|i: int, j: int| 0 <= i < m && 0 <= j < m implies before(ks, i, j) == #[trigger] before(
            keys,
            i,
            j,
        ) by {}
        let k = slot(keys, p, m, 0);
        lemma_slot(keys, p, m, 0);
        let q = p.insert(k, m);
        assert(forall|i: int| 0 <= i < k ==> q[i] == p[i]);
        assert(q[k] == m);
        assert(forall|i: int| k < i < q.len() ==> q[i] == p[i - 1]);
        assert forall|i: int| 0 <= i < keys.len() implies #[trigger] q.contains(i) by {
            if i < m {
                assert(p.contains(i));
                let r = choose|r: int| 0 <= r < p.len() && p[r] == i;
                if r < k {
                    assert(q[r] == i);
                } else {
                    assert(q[r + 1] == i);
                }
            }
        }
        assert forall|r: int, s: int| 0 <= r < s < q.len() implies before(
            keys,
            #[trigger] q[r],
            #[trigger] q[s],
        ) by {
            if s < k {
                assert(before(ks, p[r], p[s]));
            } else if s == k {
                assert(!before(keys, m, p[r]));
                lemma_before_total(keys, p[r], m);
            } else if r < k {
                assert(before(ks, p[r], p[s - 1]));
            } else if r == k {
                if s - 1 > k {
                    assert(before(ks, p[k], p[s - 1]));
                    lemma_before_trans(keys, m, p[k], p[s - 1]);
                }
            } else {
                assert(before(ks, p[r - 1], p[s - 1]));
            }
        }
        assert(is_order(keys, q));
    }
}

/// How two keys stand to each other.
#[derive(Clone, Copy, PartialEq, Eq, Structural)]
pub enum Rank {
    Before,
    Same,
    After,
}

/// Compares two texts.
pub fn text_rank(a: &Vec<char>, b: &Vec<char>) -> (r: Rank)
    ensures
        (r is Before) == text_less(a@, b@, 0),
        (r is After) == text_less(b@, a@, 0),
        (r is Same) == (a@ == b@),
{
    proof {
        lemma_text_less(a@, b@, 0);
        lemma_text_irreflexive(a@, 0);
    }
    let mut i: usize = 0;
    while i < a.len() && i < b.len()
        invariant
            i <= a@.len(),
            i <= b@.len(),
            forall|k: int| 0 <= k < i ==> a@[k] == b@[k],
            text_less(a@, b@, 0) == text_less(a@, b@, i as int),
            text_less(b@, a@, 0) == text_less(b@, a@, i as int),
        decreases a@.len() - i,
    {
        if a[i] < b[i] {
            return Rank::Before;
        }
        if b[i] < a[i] {
            return Rank::After;
        }
        i = i + 1;
    }
    if i < b.len() {
        Rank::Before
    } else if i < a.len() {
        Rank::After
    } else {
        assert(a@ =~= b@);
        Rank::Same
    }
}

fn part_rank(a: &Part, b: &Part) -> (r: Rank)
    ensures
        (r is Before) == part_less(a@, b@),
        (r is After) == part_less(b@, a@),
        (r is Same) == (a@ == b@),
{
    match (a, b) {
        (Part::Num(x), Part::Num(y)) => if *x < *y {
            Rank::Before
        } else if *y < *x {
            Rank::After
        } else {
            Rank::Same
        },
        (Part::Num(_), Part::Text(_)) => Rank::Before,
        (Part::Text(_), Part::Num(_)) => Rank::After,
        (Part::Text(x), Part::Text(y)) => text_rank(x, y),
    }
}

/// Compares two keys.
pub fn key_rank(a: &Vec<Part>, b: &Vec<Part>) -> (r: Rank)
    ensures
        (r is Before) == key_less(key_view(*a), key_view(*b), 0),
        (r is After) == key_less(key_view(*b), key_view(*a), 0),
        (r is Same) == (key_view(*a) == key_view(*b)),
{
    let ghost ka = key_view(*a);
    let ghost kb = key_view(*b);
    proof {
        lemma_key_less(ka, kb, 0);
        lemma_key_irreflexive(ka, 0);
    }
    let mut i: usize = 0;
    while i < a.len() && i < b.len()
        invariant
            ka == key_view(*a),
            kb == key_view(*b),
            i <= ka.len(),
            i <= kb.len(),
            forall|k: int| 0 <= k < i ==> ka[k] == kb[k],
            key_less(ka, kb, 0) == key_less(ka, kb, i as int),
            key_less(kb, ka, 0) == key_less(kb, ka, i as int),
            !(key_less(ka, kb, 0) && key_less(kb, ka, 0)),
            ka == kb ==> !key_less(ka, kb, 0),
        decreases a@.len() - i,
    {
        let r: Rank = part_rank(&a[i], &b[i]);
        assert(a@[i as int]@ == ka[i as int] && b@[i as int]@ == kb[i as int]);
        proof {
            lemma_part_less(ka[i as int], kb[i as int], ka[i as int]);
        }
        if r != Rank::Same {
            return r;
        }
        i = i + 1;
    }
    if i < b.len() {
        Rank::Before
    } else if i < a.len() {
        Rank::After
    } else {
        assert(ka =~= kb);
        Rank::Same
    }
}

/// Whether `v` lists the places from `lo` up to `hi` in the order of `keys`.
spec fn is_run(keys: Seq<Seq<PartView>>, v: Seq<usize>, lo: int, hi: int) -> bool {
    &&& v.len() == hi - lo
    &&& forall|r: int| 0 <= r < v.len() ==> lo <= #[trigger] v[r] < hi
    &&& forall|i: usize| lo <= i < hi ==> #[trigger] v.contains(i)
    &&& forall|r: int, s: int|
        0 <= r < s < v.len() ==> before(keys, #[trigger] v[r] as int, #[trigger] v[s] as int)
}

/// Whether everything in `out` comes before `x`.
spec fn all_before(keys: Seq<Seq<PartView>>, out: Seq<usize>, x: usize) -> bool {
    forall|r: int| 0 <= r < out.len() ==> before(keys, #[trigger] out[r] as int, x as int)
}

proof fn lemma_all_before_push(keys: Seq<Seq<PartView>>, out: Seq<usize>, y: usize, x: usize)
    requires
        all_before(keys, out, y),
        before(keys, y as int, x as int),
    ensures
        all_before(keys, out.push(y), x),
{
    assert forall|r: int| 0 <= r < out.push(y).len() implies before(
        keys,
        #[trigger] out.push(y)[r] as int,
        x as int,
    ) by {
        if r < out.len() {
            assert(before(keys, out[r] as int, y as int));
            lemma_before_trans(keys, out[r] as int, y as int, x as int);
        }
    }
}

/// Merges two runs that stand side by side.
fn merge(keys: &Vec<Vec<Part>>, a: &Vec<usize>, b: &Vec<usize>, lo: usize, mid: usize, hi: usize) -> (out:
    Vec<usize>)
    requires
        lo <= mid <= hi <= keys@.len(),
        is_run(keys_view(keys@), a@, lo as int, mid as int),
        is_run(keys_view(keys@), b@, mid as int, hi as int),
    ensures
        is_run(keys_view(keys@), out@, lo as int, hi as int),
{
    let ghost ks = keys_view(keys@);
    let mut out: Vec<usize> = Vec::new();
    let mut i: usize = 0;
    let mut j: usize = 0;
    while i < a.len() || j < b.len()
        invariant
            ks == keys_view(keys@),
            lo <= mid <= hi <= keys@.len(),
            is_run(ks, a@, lo as int, mid as int),
            is_run(ks, b@, mid as int, hi as int),
            i <= a@.len(),
            j <= b@.len(),
            out@.len() == i + j,
            forall|r: int| 0 <= r < out@.len() ==> lo <= #[trigger] out@[r] < hi,
            forall|k: int| 0 <= k < i ==> out@.contains(#[trigger] a@[k]),
            forall|k: int| 0 <= k < j ==> out@.contains(#[trigger] b@[k]),
            forall|r: int, s: int|
                0 <= r < s < out@.len() ==> before(
                    ks,
                    #[trigger] out@[r] as int,
                    #[trigger] out@[s] as int,
                ),
            i < a@.len() ==> all_before(ks, out@, a@[i as int]),
            j < b@.len() ==> all_before(ks, out@, b@[j as int]),
        decreases a@.len() - i + b@.len() - j,
    {
        let left: bool = if i >= a.len() {
            false
        } else if j >= b.len() {
            true
        } else {
            let x: usize = a[i];
            let y: usize = b[j];
            assert(ks[x as int] == key_view(keys@[x as int]));
            assert(ks[y as int] == key_view(keys@[y as int]));
            proof {
                lemma_before_total(ks, x as int, y as int);
                lemma_before_strict(ks, x as int, y as int);
                lemma_key_less(ks[x as int], ks[y as int], 0);
            }
            key_rank(&keys[x], &keys[y]) != Rank::After
        };
        let ghost prev = out@;
        if left {
            let x: usize = a[i];
            proof {
                assert(a@[i as int] == x);
                if i + 1 < a@.len() {
                    lemma_all_before_push(ks, prev, x, a@[i + 1]);
                }
                if j < b@.len() {
                    assert(before(ks, x as int, b@[j as int] as int));
                    lemma_all_before_push(ks, prev, x, b@[j as int]);
                }
            }
            out.push(x);
            assert(out@.contains(x)) by {
                assert(out@[out@.len() - 1] == x);
            }
            i = i + 1;
        } else {
            let y: usize = b[j];
            proof {
                assert(b@[j as int] == y);
                if j + 1 < b@.len() {
                    lemma_all_before_push(ks, prev, y, b@[j + 1]);
                }
                if i < a@.len() {
                    lemma_before_total(ks, a@[i as int] as int, y as int);
                    assert(before(ks, y as int, a@[i as int] as int));
                    lemma_all_before_push(ks, prev, y, a@[i as int]);
                }
            }
            out.push(y);
            assert(out@.contains(y)) by {
                assert(out@[out@.len() - 1] == y);
            }
            j = j + 1;
        }
        assert forall|x: usize| prev.contains(x) implies out@.contains(x) by {
            let k = choose|k: int| 0 <= k < prev.len() && prev[k] == x;
            assert(out@[k] == x);
        }
    }
    assert forall|x: usize| lo <= x < hi implies #[trigger] out@.contains(x) by {
        if x < mid {
            assert(a@.contains(x));
            let k = choose|k: int| 0 <= k < a@.len() && a@[k] == x;
            assert(out@.contains(a@[k]));
        } else {
            assert(b@.contains(x));
            let k = choose|k: int| 0 <= k < b@.len() && b@[k] == x;
            assert(out@.contains(b@[k]));
        }
    }
    out
}

/// Sorts the places from `lo` up to `hi`.
fn sort_range(keys: &Vec<Vec<Part>>, lo: usize, hi: usize) -> (out: Vec<usize>)
    requires
        lo <= hi <= keys@.len(),
    ensures
        is_run(keys_view(keys@), out@, lo as int, hi as int),
    decreases hi - lo,
{
    if hi - lo == 0 {
        Vec::new()
    } else if hi - lo == 1 {
        let mut out: Vec<usize> = Vec::new();
        out.push(lo);
        assert(out@[0] == lo);
        out
    } else {
        let mid: usize = lo + (hi - lo) / 2;
        let a: Vec<usize> = sort_range(keys, lo, mid);
        let b: Vec<usize> = sort_range(keys, mid, hi);
        merge(keys, &a, &b, lo, mid, hi)
    }
}

/// The places of `keys` in their order. Equal keys keep the order they came in.
pub fn sort_places(keys: &Vec<Vec<Part>>) -> (out: Vec<usize>)
    ensures
        places(out@) == order_of(keys_view(keys@)),
        is_order(keys_view(keys@), places(out@)),
{
    let out: Vec<usize> = sort_range(keys, 0, keys.len());
    proof {
        let ks = keys_view(keys@);
        let p = places(out@);
        assert forall|i: int| 0 <= i < ks.len() implies #[trigger] p.contains(i) by {
            assert(out@.contains(i as usize));
            let k = choose|k: int| 0 <= k < out@.len() && out@[k] == i as usize;
            assert(p[k] == i);
        }
        assert(is_order(ks, p));
        lemma_order_unique(ks, p, order_of(ks));
    }
    out
}

/// A text as a part of a key.
pub fn text_part(s: &str) -> (p: Part)
    ensures
        p@ == PartView::Text(s@),
{
    Part::Text(chars_of(s))
}

} // verus!
