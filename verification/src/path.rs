//! Names and folders of slash-separated paths.
//!
//! A path is a text whose components stand between slashes. Empty components
//! and single dots behind the first do not count. Where a system separates
//! components by another character too, [`from_system`] makes it a slash.
use crate::order;
use crate::order::{sort_places, text_rank, Part, Rank};
use crate::text;
use crate::text::{chars_of, find_char, string_of};
use vstd::prelude::*;

verus! {

/// Where the last component of `s[..n]` ends: in front of any slashes and
/// single-dot components behind it.
pub open spec fn last_end(s: Seq<char>, n: int) -> int
    decreases n,
{
    if n > 0 && s[n - 1] == '/' {
        last_end(s, n - 1)
    } else if n > 1 && s[n - 1] == '.' && s[n - 2] == '/' {
        last_end(s, n - 1)
    } else {
        n
    }
}

/// Where the component that ends at `n` starts: behind the last slash.
pub open spec fn last_start(s: Seq<char>, n: int) -> int
    decreases n,
{
    if n > 0 && s[n - 1] != '/' {
        last_start(s, n - 1)
    } else {
        n
    }
}

/// The last component of a path, where it is a name: not empty, and neither `.`
/// nor `..`.
pub open spec fn name_in(s: Seq<char>) -> Option<Seq<char>> {
    let n = last_end(s, s.len() as int);
    let name = s.subrange(last_start(s, n), n);
    if n <= 0 || name == seq!['.'] || name == seq!['.', '.'] {
        None
    } else {
        Some(name)
    }
}

/// The path without its last component. The root and the empty path have none
/// to lose.
pub open spec fn folder_of(s: Seq<char>) -> Option<Seq<char>> {
    let n = last_end(s, s.len() as int);
    let m = last_end(s, last_start(s, n));
    if n <= 0 {
        None
    } else if m <= 0 && s[0] == '/' {
        Some(seq!['/'])
    } else {
        Some(s.take(m))
    }
}

/// The place of the last dot in `s[..n]`, or -1.
pub open spec fn last_dot(s: Seq<char>, n: int) -> int
    decreases n,
{
    if n <= 0 {
        -1
    } else if s[n - 1] == '.' {
        n - 1
    } else {
        last_dot(s, n - 1)
    }
}

/// What stands behind the last dot of a path's name, where there is a dot that
/// does not open the name.
pub open spec fn extension_in(s: Seq<char>) -> Option<Seq<char>> {
    match name_in(s) {
        Some(name) => {
            let d = last_dot(name, name.len() as int);
            if d > 0 {
                Some(name.subrange(d + 1, name.len() as int))
            } else {
                None
            }
        },
        None => None,
    }
}

/// A name put behind a folder.
pub open spec fn joined(dir: Seq<char>, name: Seq<char>) -> Seq<char> {
    if dir.len() == 0 || dir.last() == '/' {
        dir + name
    } else {
        dir.push('/') + name
    }
}

/// The text in an optional string.
pub open spec fn opt_text(s: Option<String>) -> Option<Seq<char>> {
    match s {
        Some(s) => Some(s@),
        None => None,
    }
}

fn find_last_end(v: &Vec<char>, from: usize) -> (n: usize)
    requires
        from <= v@.len(),
    ensures
        n == last_end(v@, from as int),
        n <= from,
{
    let mut n: usize = from;
    while n > 0 && (v[n - 1] == '/' || (n > 1 && v[n - 1] == '.' && v[n - 2] == '/'))
        invariant
            n <= from <= v@.len(),
            last_end(v@, n as int) == last_end(v@, from as int),
        decreases n,
    {
        n = n - 1;
    }
    n
}

fn find_last_start(v: &Vec<char>, from: usize) -> (n: usize)
    requires
        from <= v@.len(),
    ensures
        n == last_start(v@, from as int),
        n <= from,
{
    let mut n: usize = from;
    while n > 0 && v[n - 1] != '/'
        invariant
            n <= from <= v@.len(),
            last_start(v@, n as int) == last_start(v@, from as int),
        decreases n,
    {
        n = n - 1;
    }
    n
}

/// The last component of a path, where it is a name.
pub fn file_name(path: &str) -> (r: Option<String>)
    ensures
        opt_text(r) == name_in(path@),
{
    let v: Vec<char> = chars_of(path);
    let n: usize = find_last_end(&v, v.len());
    if n == 0 {
        return None;
    }
    let k: usize = find_last_start(&v, n);
    let ghost name = path@.subrange(k as int, n as int);
    if n - k == 1 && v[k] == '.' {
        assert(name =~= seq!['.']);
        return None;
    }
    if n - k == 2 && v[k] == '.' && v[k + 1] == '.' {
        assert(name =~= seq!['.', '.']);
        return None;
    }
    proof {
        if name == seq!['.'] {
            assert(name[0] == '.');
        }
        if name == seq!['.', '.'] {
            assert(name[0] == '.' && name[1] == '.');
        }
    }
    Some(string_of(&v, k, n))
}

/// The path without its last component.
pub fn parent(path: &str) -> (r: Option<String>)
    ensures
        opt_text(r) == folder_of(path@),
{
    let v: Vec<char> = chars_of(path);
    let n: usize = find_last_end(&v, v.len());
    if n == 0 {
        return None;
    }
    let k: usize = find_last_start(&v, n);
    let m: usize = find_last_end(&v, k);
    if m == 0 && v[0] == '/' {
        let mut root: String = String::new();
        root.push('/');
        assert(root@ =~= seq!['/']);
        return Some(root);
    }
    let dir: String = string_of(&v, 0, m);
    assert(dir@ =~= path@.take(m as int));
    Some(dir)
}

/// What stands behind the last dot of a path's name.
pub fn extension(path: &str) -> (r: Option<String>)
    ensures
        opt_text(r) == extension_in(path@),
{
    match file_name(path) {
        Some(name) => {
            let v: Vec<char> = chars_of(name.as_str());
            let mut n: usize = v.len();
            while n > 0 && v[n - 1] != '.'
                invariant
                    n <= v@.len(),
                    last_dot(v@, n as int) == last_dot(v@, v@.len() as int),
                decreases n,
            {
                n = n - 1;
            }
            if n > 1 {
                Some(string_of(&v, n, v.len()))
            } else {
                None
            }
        },
        None => None,
    }
}

/// Puts a name behind a folder.
pub fn join(dir: &str, name: &str) -> (r: String)
    ensures
        r@ == joined(dir@, name@),
{
    let v: Vec<char> = chars_of(dir);
    let mut s: String = dir.to_owned();
    if v.len() > 0 && v[v.len() - 1] != '/' {
        s.push('/');
    }
    s.push_str(name);
    s
}

/// A name put behind a folder is that path's name, and the folder is its folder.
pub proof fn join_is_taken_apart(dir: Seq<char>, name: Seq<char>)
    requires
        dir.len() > 0,
        dir.last() != '/',
        !(dir.len() > 1 && dir.last() == '.' && dir[dir.len() - 2] == '/'),
        name.len() > 0,
        forall|i: int| 0 <= i < name.len() ==> name[i] != '/',
        name != seq!['.'],
        name != seq!['.', '.'],
    ensures
        name_in(joined(dir, name)) == Some(name),
        folder_of(joined(dir, name)) == Some(dir),
{
    let s = joined(dir, name);
    let d = dir.len() as int;
    assert(s.len() == d + 1 + name.len());
    assert(s[d] == '/');
    assert(forall|i: int| 0 <= i < name.len() ==> s[d + 1 + i] == name[i]);
    let n = s.len() as int;
    assert(s[n - 1] == name[name.len() - 1]);
    if s[n - 1] == '.' && s[n - 2] == '/' {
        if name.len() == 1 {
            assert(name =~= seq!['.']);
        } else {
            assert(s[n - 2] == name[name.len() - 2]);
        }
    }
    assert(last_end(s, n) == n);
    lemma_start_behind_slash(s, d, n);
    assert(s.subrange(d + 1, n) =~= name);
    assert(s[d - 1] == dir[d - 1]);
    if d > 1 {
        assert(s[d - 2] == dir[d - 2]);
    }
    assert(last_end(s, d + 1) == last_end(s, d));
    assert(last_end(s, d) == d);
    assert(s.take(d) =~= dir);
}

proof fn lemma_start_behind_slash(s: Seq<char>, d: int, n: int)
    requires
        0 <= d < n <= s.len(),
        s[d] == '/',
        forall|i: int| d < i < n ==> s[i] != '/',
    ensures
        last_start(s, n) == d + 1,
    decreases n,
{
    if n > d + 1 {
        lemma_start_behind_slash(s, d, n - 1);
    }
}

/// What a component of a path is sorted by. Ahead of all names come the root, a
/// leading dot, and a step up.
pub open spec fn part_of(c: Seq<char>) -> order::PartView {
    if c == seq!['.'] {
        order::PartView::Num(2)
    } else if c == seq!['.', '.'] {
        order::PartView::Num(3)
    } else {
        order::PartView::Text(c)
    }
}

/// The components of `s[i..]`: what stands between slashes, but for what is empty
/// and for single dots behind the first.
pub open spec fn parts_from(s: Seq<char>, i: int) -> Seq<order::PartView>
    decreases s.len() - i,
{
    if i < 0 || i >= s.len() {
        Seq::empty()
    } else {
        let j = text::find_from(s, '/', i);
        proof {
            text::lemma_find_from(s, '/', i);
        }
        let c = s.subrange(i, j);
        let head = if c.len() == 0 || (c == seq!['.'] && i > 0) {
            Seq::empty()
        } else {
            seq![part_of(c)]
        };
        if j >= s.len() {
            head
        } else {
            head + parts_from(s, j + 1)
        }
    }
}

/// What a path is sorted by: its components, the root ahead of all.
pub open spec fn sort_parts(s: Seq<char>) -> Seq<order::PartView> {
    (if s.len() > 0 && s[0] == '/' {
        seq![order::PartView::Num(1)]
    } else {
        Seq::empty()
    }) + parts_from(s, 0)
}

/// The components of a path.
pub fn path_parts(path: &str) -> (k: Vec<Part>)
    ensures
        order::key_view(k) == sort_parts(path@),
{
    let v: Vec<char> = chars_of(path);
    let mut k: Vec<Part> = Vec::new();
    if v.len() > 0 && v[0] == '/' {
        k.push(Part::Num(1));
    }
    let ghost root = order::key_view(k);
    assert(root =~= (if path@.len() > 0 && path@[0] == '/' {
        seq![order::PartView::Num(1)]
    } else {
        Seq::empty()
    }));
    let mut i: usize = 0;
    while i < v.len()
        invariant
            v@ == path@,
            i <= v@.len(),
            order::key_view(k) + parts_from(path@, i as int) == root + parts_from(path@, 0),
        decreases v@.len() - i,
    {
        let j: usize = find_char(&v, '/', i);
        let ghost c = path@.subrange(i as int, j as int);
        let ghost kv = order::key_view(k);
        if j == i {
            assert(c.len() == 0);
        } else if j - i == 1 && v[i] == '.' {
            assert(c =~= seq!['.']);
            if i == 0 {
                k.push(Part::Num(2));
                assert(order::key_view(k) =~= kv.push(part_of(c)));
            }
        } else if j - i == 2 && v[i] == '.' && v[i + 1] == '.' {
            assert(c =~= seq!['.', '.']);
            assert(c != seq!['.']);
            k.push(Part::Num(3));
            assert(order::key_view(k) =~= kv.push(part_of(c)));
        } else {
            proof {
                if c == seq!['.'] {
                    assert(c[0] == '.');
                }
                if c == seq!['.', '.'] {
                    assert(c[0] == '.' && c[1] == '.');
                }
            }
            let mut word: Vec<char> = Vec::new();
            let mut m: usize = i;
            while m < j
                invariant
                    v@ == path@,
                    i <= m <= j <= v@.len(),
                    word@ == path@.subrange(i as int, m as int),
                decreases j - m,
            {
                word.push(v[m]);
                m = m + 1;
                assert(word@ =~= path@.subrange(i as int, m as int));
            }
            k.push(Part::Text(word));
            assert(order::key_view(k) =~= kv.push(part_of(c)));
        }
        if j < v.len() {
            assert(order::key_view(k) + parts_from(path@, j + 1) =~= kv + parts_from(path@, i as int));
            i = j + 1;
        } else {
            assert(order::key_view(k) + parts_from(path@, j as int) =~= kv + parts_from(path@, i as int));
            i = j;
        }
    }
    assert(order::key_view(k) + parts_from(path@, i as int) =~= order::key_view(k));
    k
}

/// What some paths are sorted by.
pub open spec fn path_keys(paths: Seq<Seq<char>>) -> Seq<Seq<order::PartView>> {
    paths.map_values(|p: Seq<char>| sort_parts(p))
}

/// The items at some places, in that order.
pub open spec fn picked<T>(items: Seq<T>, p: Seq<int>) -> Seq<T> {
    p.map_values(|i: int| items[i])
}

/// Paths sorted by their components; equal ones keep their order.
pub open spec fn sorted_paths(paths: Seq<Seq<char>>) -> Seq<Seq<char>> {
    picked(paths, order::order_of(path_keys(paths)))
}

/// Copies of the items at some places, in that order.
pub fn pick_strings(items: &Vec<String>, rows: &Vec<usize>) -> (out: Vec<String>)
    requires
        forall|i: int| 0 <= i < rows@.len() ==> #[trigger] rows@[i] < items@.len(),
    ensures
        text::texts(out@) == picked(text::texts(items@), order::places(rows@)),
{
    let mut out: Vec<String> = Vec::new();
    let mut r: usize = 0;
    while r < rows.len()
        invariant
            r <= rows@.len(),
            forall|i: int| 0 <= i < rows@.len() ==> #[trigger] rows@[i] < items@.len(),
            out@.len() == r,
            forall|i: int| 0 <= i < r ==> (#[trigger] out@[i])@ == items@[rows@[i] as int]@,
        decreases rows@.len() - r,
    {
        let s: String = items[rows[r]].clone();
        out.push(s);
        r = r + 1;
    }
    proof {
        let a = text::texts(out@);
        let b = picked(text::texts(items@), order::places(rows@));
        assert forall|i: int| 0 <= i < a.len() implies a[i] == b[i] by {
            assert(out@[i]@ == items@[rows@[i] as int]@);
            assert(order::places(rows@)[i] == rows@[i] as int);
        }
        assert(a =~= b);
    }
    out
}

/// The components of each path.
pub fn parts_of_all(paths: &Vec<String>) -> (keys: Vec<Vec<Part>>)
    ensures
        order::keys_view(keys@) == path_keys(text::texts(paths@)),
{
    let ghost tv = text::texts(paths@);
    let mut keys: Vec<Vec<Part>> = Vec::new();
    let mut i: usize = 0;
    while i < paths.len()
        invariant
            tv == text::texts(paths@),
            i <= paths@.len(),
            order::keys_view(keys@) == path_keys(tv).take(i as int),
        decreases paths@.len() - i,
    {
        let k: Vec<Part> = path_parts(paths[i].as_str());
        let ghost kv = order::key_view(k);
        let ghost prev = keys@;
        keys.push(k);
        assert(order::keys_view(keys@) =~= order::keys_view(prev).push(kv));
        assert(tv[i as int] == paths@[i as int]@);
        assert(path_keys(tv)[i as int] == kv);
        i = i + 1;
        assert(order::keys_view(keys@) =~= path_keys(tv).take(i as int));
    }
    assert(path_keys(tv).take(tv.len() as int) =~= path_keys(tv));
    keys
}

/// Sorts paths by their components.
pub fn sort_paths(paths: &Vec<String>) -> (out: Vec<String>)
    ensures
        text::texts(out@) == sorted_paths(text::texts(paths@)),
        out@.len() == paths@.len(),
{
    let keys: Vec<Vec<Part>> = parts_of_all(paths);
    let rows: Vec<usize> = sort_places(&keys);
    assert(order::keys_view(keys@).len() == paths@.len());
    assert forall|r: int| 0 <= r < rows@.len() implies #[trigger] rows@[r] < paths@.len() by {
        assert(order::places(rows@)[r] == rows@[r]);
    }
    let out: Vec<String> = pick_strings(paths, &rows);
    assert(text::texts(out@).len() == out@.len());
    out
}

/// Whether two paths are one: they have the same components, however they are
/// written.
pub open spec fn same(a: Seq<char>, b: Seq<char>) -> bool {
    sort_parts(a) == sort_parts(b)
}

/// Whether all paths of a list are different.
pub open spec fn all_differ(paths: Seq<Seq<char>>) -> bool {
    forall|i: int, j: int| 0 <= i < j < paths.len() ==> !same(#[trigger] paths[i], #[trigger] paths[j])
}

/// The first place from `i` on that holds a path.
pub open spec fn place_of(paths: Seq<Seq<char>>, p: Seq<char>, i: int) -> Option<int>
    decreases paths.len() - i,
{
    if i >= paths.len() {
        None
    } else if same(paths[i], p) {
        Some(i)
    } else {
        place_of(paths, p, i + 1)
    }
}

/// Compares components from the last on, since paths mostly differ there.
fn same_parts(a: &Vec<Part>, b: &Vec<Part>) -> (r: bool)
    ensures
        r == (order::key_view(*a) == order::key_view(*b)),
{
    if a.len() != b.len() {
        assert(order::key_view(*a).len() != order::key_view(*b).len());
        return false;
    }
    let mut n: usize = a.len();
    while n > 0
        invariant
            n <= a@.len() == b@.len(),
            forall|k: int| n <= k < a@.len() ==> (#[trigger] a@[k])@ == b@[k]@,
        decreases n,
    {
        let one: bool = match (&a[n - 1], &b[n - 1]) {
            (Part::Num(x), Part::Num(y)) => *x == *y,
            (Part::Text(x), Part::Text(y)) => text_rank(x, y) == Rank::Same,
            _ => false,
        };
        assert(one == (a@[n - 1]@ == b@[n - 1]@));
        if !one {
            assert(order::key_view(*a)[n - 1] != order::key_view(*b)[n - 1]);
            return false;
        }
        n = n - 1;
    }
    assert(order::key_view(*a) =~= order::key_view(*b));
    true
}

/// The first place that holds a path, in a list whose components are known.
pub fn find_parts(paths: &Vec<String>, keys: &Vec<Vec<Part>>, p: &str) -> (r: Option<usize>)
    requires
        order::keys_view(keys@) == path_keys(text::texts(paths@)),
    ensures
        match r {
            Some(i) => i < paths@.len() && place_of(text::texts(paths@), p@, 0) == Some(i as int),
            None => place_of(text::texts(paths@), p@, 0) is None,
        },
{
    let ghost pv = text::texts(paths@);
    let k: Vec<Part> = path_parts(p);
    let mut i: usize = 0;
    assert(order::keys_view(keys@).len() == keys@.len());
    assert(path_keys(pv).len() == paths@.len());
    while i < keys.len()
        invariant
            pv == text::texts(paths@),
            order::keys_view(keys@) == path_keys(pv),
            keys@.len() == paths@.len() == pv.len(),
            order::key_view(k) == sort_parts(p@),
            i <= keys@.len(),
            place_of(pv, p@, i as int) == place_of(pv, p@, 0),
        decreases keys@.len() - i,
    {
        assert(order::keys_view(keys@)[i as int] == order::key_view(keys@[i as int]));
        assert(path_keys(pv)[i as int] == sort_parts(pv[i as int]));
        if same_parts(&keys[i], &k) {
            return Some(i);
        }
        i = i + 1;
    }
    None
}

/// The first place that holds a path.
pub fn find_path(paths: &Vec<String>, p: &str) -> (r: Option<usize>)
    ensures
        match r {
            Some(i) => i < paths@.len() && place_of(text::texts(paths@), p@, 0) == Some(i as int),
            None => place_of(text::texts(paths@), p@, 0) is None,
        },
{
    let keys: Vec<Vec<Part>> = parts_of_all(paths);
    find_parts(paths, &keys, p)
}

/// A path is on a list where the list holds it, however it is written.
pub proof fn lemma_place_of(paths: Seq<Seq<char>>, p: Seq<char>, i: int)
    requires
        0 <= i <= paths.len(),
    ensures
        place_of(paths, p, i) is Some <==> exists|k: int| i <= k < paths.len() && same(#[trigger] paths[k], p),
        place_of(paths, p, i) matches Some(k) ==> i <= k < paths.len() && same(paths[k], p),
    decreases paths.len() - i,
{
    if i < paths.len() {
        lemma_place_of(paths, p, i + 1);
    }
}

/// A path as it is written in this library: the system's separator made a slash.
pub open spec fn slashed(p: Seq<char>, separator: char) -> Seq<char> {
    p.map_values(
        |c: char|
            if c == separator {
                '/'
            } else {
                c
            },
    )
}

/// Takes a path over from a system that separates components by `separator` as
/// well as by slashes.
pub fn from_system(p: &str, separator: char) -> (r: String)
    ensures
        r@ == slashed(p@, separator),
{
    let v: Vec<char> = chars_of(p);
    let mut r: String = String::new();
    let mut i: usize = 0;
    assert(r@ =~= slashed(p@, separator).take(0));
    while i < v.len()
        invariant
            v@ == p@,
            i <= v@.len(),
            r@ == slashed(p@, separator).take(i as int),
        decreases v@.len() - i,
    {
        if v[i] == separator {
            r.push('/');
        } else {
            r.push(v[i]);
        }
        i = i + 1;
        assert(r@ =~= slashed(p@, separator).take(i as int));
    }
    assert(slashed(p@, separator).take(i as int) =~= slashed(p@, separator));
    r
}

} // verus!
