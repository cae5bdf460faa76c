use vstd::prelude::*;
use crate::utf8_text::chars_of;

verus! {

/// A part between separators, kept unless it is empty or `.`.
pub open spec fn kept_part(p: Seq<char>) -> Seq<Seq<char>> {
    if p.len() == 0 || p == seq!['.'] { Seq::empty() } else { seq![p] }
}

/// The kept parts of `s` from character `i` on, the current part having
/// started at `start`.
pub open spec fn parts_from(s: Seq<char>, i: int, start: int) -> Seq<Seq<char>>
    decreases s.len() - i,
{
    if i >= s.len() {
        kept_part(s.subrange(start, s.len() as int))
    } else if s[i] == '/' {
        kept_part(s.subrange(start, i)) + parts_from(s, i + 1, i + 1)
    } else {
        parts_from(s, i + 1, start)
    }
}

/// The components of a path written with `/` separators: `/` for a root, `.`
/// for a leading current directory, then each part between separators that is
/// neither empty nor `.` (so repeated and trailing separators and inner `.`
/// parts do not count).
pub open spec fn path_components(s: Seq<char>) -> Seq<Seq<char>> {
    let head: Seq<Seq<char>> = if s.len() > 0 && s[0] == '/' {
        seq![seq!['/']]
    } else if s.len() > 0 && s[0] == '.' && (s.len() == 1 || s[1] == '/') {
        seq![seq!['.']]
    } else {
        Seq::empty()
    };
    head + parts_from(s, 0, 0)
}

/// Two paths name the same file path: they have the same components.
pub open spec fn same_path_spec(a: Seq<char>, b: Seq<char>) -> bool {
    path_components(a) == path_components(b)
}

spec fn parts_view(r: Seq<Vec<char>>) -> Seq<Seq<char>> {
    r.map_values(|p: Vec<char>| p@)
}

/// Adds `v[lo..hi]` as a part when it is kept.
fn push_part(r: &mut Vec<Vec<char>>, v: &Vec<char>, lo: usize, hi: usize)
    requires
        lo <= hi <= v@.len(),
    ensures
        parts_view(final(r)@) == parts_view(old(r)@) + kept_part(v@.subrange(lo as int, hi as int)),
{
    let ghost before = parts_view(r@);
    let mut part: Vec<char> = Vec::new();
    let mut k = lo;
    while k < hi
        invariant
            lo <= k <= hi <= v@.len(),
            part@ == v@.subrange(lo as int, k as int),
        decreases hi - k,
    {
        part.push(v[k]);
        k = k + 1;
        assert(part@ =~= v@.subrange(lo as int, k as int));
    }
    if part.len() == 0 || (part.len() == 1 && part[0] == '.') {
        proof {
            if part@.len() == 1 {
                assert(part@ =~= seq!['.']);
            }
        }
        assert(parts_view(r@) =~= before + kept_part(v@.subrange(lo as int, hi as int)));
    } else {
        assert(part@ != seq!['.']) by {
            if part@.len() == 1 {
                assert(part@[0] == seq!['.'][0] ==> part@ =~= seq!['.']);
            }
        }
        r.push(part);
        assert(parts_view(r@) =~= before + kept_part(v@.subrange(lo as int, hi as int)));
    }
}

/// The components of a path, one character vector each.
fn components_of(text: &str) -> (r: Vec<Vec<char>>)
    ensures
        parts_view(r@) == path_components(text@),
{
    let v = chars_of(text);
    let n = v.len();
    let mut r: Vec<Vec<char>> = Vec::new();
    if n > 0 && v[0] == '/' {
        let mut root: Vec<char> = Vec::new();
        root.push('/');
        r.push(root);
    } else if n > 0 && v[0] == '.' && (n == 1 || v[1] == '/') {
        let mut cur: Vec<char> = Vec::new();
        cur.push('.');
        r.push(cur);
    }
    let ghost head = parts_view(r@);
    assert(path_components(v@) == head + parts_from(v@, 0, 0));
    let mut i: usize = 0;
    let mut start: usize = 0;
    while i < n
        invariant
            start <= i <= n,
            n == v@.len(),
            path_components(v@) == parts_view(r@) + parts_from(v@, i as int, start as int),
        decreases n - i,
    {
        if v[i] == '/' {
            let ghost prev = parts_view(r@);
            push_part(&mut r, &v, start, i);
            assert(parts_from(v@, i as int, start as int)
                == kept_part(v@.subrange(start as int, i as int)) + parts_from(v@, i + 1, i + 1));
            assert(prev + parts_from(v@, i as int, start as int)
                =~= parts_view(r@) + parts_from(v@, i + 1, i + 1));
            start = i + 1;
        }
        i = i + 1;
    }
    let ghost prev = parts_view(r@);
    push_part(&mut r, &v, start, n);
    assert(prev + parts_from(v@, n as int, start as int) =~= parts_view(r@));
    r
}

/// Whether two character vectors are equal.
fn chars_equal(a: &Vec<char>, b: &Vec<char>) -> (r: bool)
    ensures
        r == (a@ == b@),
{
    if a.len() != b.len() {
        return false;
    }
    let mut k: usize = 0;
    while k < a.len()
        invariant
            k <= a@.len(),
            a@.len() == b@.len(),
            a@.subrange(0, k as int) == b@.subrange(0, k as int),
        decreases a@.len() - k,
    {
        if a[k] != b[k] {
            assert(a@[k as int] != b@[k as int]);
            return false;
        }
        k = k + 1;
        assert(a@.subrange(0, k as int) =~= a@.subrange(0, k - 1).push(a@[k - 1]));
        assert(b@.subrange(0, k as int) =~= b@.subrange(0, k - 1).push(b@[k - 1]));
    }
    assert(a@ =~= a@.subrange(0, a@.len() as int));
    assert(b@ =~= b@.subrange(0, b@.len() as int));
    true
}

/// Whether two paths name the same file path, compared by components as
/// `Path` equality compares them.
pub fn same_path(a: &str, b: &str) -> (r: bool)
    ensures
        r == same_path_spec(a@, b@),
{
    let ca = components_of(a);
    let cb = components_of(b);
    if ca.len() != cb.len() {
        assert(parts_view(ca@).len() != parts_view(cb@).len());
        return false;
    }
    let mut k: usize = 0;
    while k < ca.len()
        invariant
            k <= ca@.len(),
            ca@.len() == cb@.len(),
            parts_view(ca@) == path_components(a@),
            parts_view(cb@) == path_components(b@),
            forall|j: int| 0 <= j < k ==> ca@[j]@ == cb@[j]@,
        decreases ca@.len() - k,
    {
        if !chars_equal(&ca[k], &cb[k]) {
            assert(parts_view(ca@)[k as int] == ca@[k as int]@);
            assert(parts_view(cb@)[k as int] == cb@[k as int]@);
            assert(parts_view(ca@) != parts_view(cb@));
            return false;
        }
        k = k + 1;
    }
    assert(parts_view(ca@) =~= parts_view(cb@));
    true
}

} // verus!
