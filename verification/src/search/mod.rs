pub mod regex_search_matcher;
pub mod simple_search_case_sensitive;
pub mod simple_search_matcher;
pub mod simple_search_matcher_case_insensitive;

use vstd::prelude::*;

verus! {

/// `n` occurs in `h` at byte `p`.
pub open spec fn occurs_at(h: Seq<u8>, n: Seq<u8>, p: int) -> bool {
    0 <= p && p + n.len() <= h.len() && h.subrange(p, p + n.len()) == n
}

/// The first place at or after `i` where `n` occurs in `h`.
pub open spec fn first_from(h: Seq<u8>, n: Seq<u8>, i: int) -> Option<usize>
    decreases h.len() + 1 - i,
{
    if i < 0 || i + n.len() > h.len() {
        None
    } else if occurs_at(h, n, i) {
        Some(i as usize)
    } else {
        first_from(h, n, i + 1)
    }
}

/// The first place where `n` occurs in `h`.
pub open spec fn first_occurrence(h: Seq<u8>, n: Seq<u8>) -> Option<usize> {
    first_from(h, n, 0)
}

/// ASCII lower case of a byte.
pub open spec fn lower_byte(b: u8) -> u8 {
    if 65 <= b <= 90 { (b + 32) as u8 } else { b }
}

/// ASCII upper case of a byte.
pub open spec fn upper_byte(b: u8) -> u8 {
    if 97 <= b <= 122 { (b - 32) as u8 } else { b }
}

/// `n` occurs in `h` at byte `p`, ignoring ASCII case.
pub open spec fn ci_occurs_at(h: Seq<u8>, n: Seq<u8>, p: int) -> bool {
    0 <= p && p + n.len() <= h.len()
        && forall|i: int| 0 <= i < n.len() ==> lower_byte(#[trigger] h[p + i]) == lower_byte(n[i])
}

/// The first place at or after `i` where `n` occurs in `h`, ignoring ASCII case.
pub open spec fn first_ci_from(h: Seq<u8>, n: Seq<u8>, i: int) -> Option<usize>
    decreases h.len() + 1 - i,
{
    if i < 0 || i + n.len() > h.len() {
        None
    } else if ci_occurs_at(h, n, i) {
        Some(i as usize)
    } else {
        first_ci_from(h, n, i + 1)
    }
}

/// The first place where `n` occurs in `h`, ignoring ASCII case (0 for an empty `n`).
pub open spec fn first_ci_occurrence(h: Seq<u8>, n: Seq<u8>) -> Option<usize> {
    if n.len() == 0 { Some(0) } else { first_ci_from(h, n, 0) }
}

pub proof fn lemma_first_from_bound(h: Seq<u8>, n: Seq<u8>, i: int)
    requires
        0 <= i,
        h.len() <= usize::MAX,
    ensures
        first_from(h, n, i) matches Some(p) ==> i <= p && p + n.len() <= h.len() && occurs_at(h, n, p as int),
    decreases h.len() + 1 - i,
{
    if i + n.len() <= h.len() && !occurs_at(h, n, i) {
        lemma_first_from_bound(h, n, i + 1);
    }
}

/// Nothing occurs before the first place found, and nowhere when none is found.
pub proof fn lemma_first_from_first(h: Seq<u8>, n: Seq<u8>, i: int)
    requires
        0 <= i,
    ensures
        match first_from(h, n, i) {
            Some(p) => forall|q: int| i <= q < p ==> !occurs_at(h, n, q),
            None => forall|q: int| i <= q ==> !occurs_at(h, n, q),
        },
    decreases h.len() + 1 - i,
{
    if i + n.len() <= h.len() && !occurs_at(h, n, i) {
        lemma_first_from_first(h, n, i + 1);
    }
}

pub proof fn lemma_first_ci_from_bound(h: Seq<u8>, n: Seq<u8>, i: int)
    requires
        0 <= i,
        h.len() <= usize::MAX,
    ensures
        first_ci_from(h, n, i) matches Some(p) ==> i <= p && p + n.len() <= h.len(),
    decreases h.len() + 1 - i,
{
    if i + n.len() <= h.len() && !ci_occurs_at(h, n, i) {
        lemma_first_ci_from_bound(h, n, i + 1);
    }
}

/// The first place where `n` occurs in `h`, as `str::find` reports it for texts.
pub fn find_bytes(h: &[u8], n: &[u8]) -> (r: Option<usize>)
    ensures
        r == first_occurrence(h@, n@),
{
    let hl = h.len();
    let nl = n.len();
    if nl > hl {
        return None;
    }
    let last = hl - nl;
    let mut i: usize = 0;
    loop
        invariant
            hl == h@.len(),
            nl == n@.len(),
            nl <= hl,
            last == hl - nl,
            i <= last,
            first_from(h@, n@, 0) == first_from(h@, n@, i as int),
        decreases last - i,
    {
        let mut j: usize = 0;
        let mut same = true;
        while j < nl
            invariant
                j <= nl,
                i + nl <= hl,
                hl == h@.len(),
                nl == n@.len(),
                same ==> forall|k: int| 0 <= k < j ==> h@[i + k] == n@[k],
                !same ==> !occurs_at(h@, n@, i as int),
            decreases nl - j,
        {
            if h[i + j] != n[j] {
                same = false;
                assert(h@.subrange(i as int, i + nl)[j as int] != n@[j as int]);
            }
            j = j + 1;
        }
        if same {
            assert(h@.subrange(i as int, i + nl) =~= n@);
            return Some(i);
        }
        if i == last {
            assert(first_from(h@, n@, i + 1) == None::<usize>);
            return None;
        }
        i = i + 1;
    }
}

/// Whether two bytes are equal ignoring ASCII case (`u8::eq_ignore_ascii_case`).
pub fn eq_ignore_ascii_case(a: u8, b: u8) -> (r: bool)
    ensures
        r == (lower_byte(a) == lower_byte(b)),
{
    to_ascii_lowercase(a) == to_ascii_lowercase(b)
}

/// ASCII lower case of a byte (`u8::to_ascii_lowercase`).
pub fn to_ascii_lowercase(b: u8) -> (r: u8)
    ensures
        r == lower_byte(b),
{
    if 65 <= b && b <= 90 { b + 32 } else { b }
}

/// ASCII upper case of a byte (`u8::to_ascii_uppercase`).
pub fn to_ascii_uppercase(b: u8) -> (r: u8)
    ensures
        r == upper_byte(b),
{
    if 97 <= b && b <= 122 { b - 32 } else { b }
}

/// Finds a query in one line of text. Positions are byte offsets in the line.
pub trait SearchMatcher {
    /// The inputs on which `search` is defined.
    spec fn search_defined(&self, line: Seq<char>, from_col: int) -> bool;

    /// `r` is an answer `search` may give.
    spec fn search_ok(&self, line: Seq<char>, from_col: int, r: Option<(usize, usize)>) -> bool;

    /// Whether `search` is defined on these inputs.
    fn defined(&self, line_text: &str, from_col: usize) -> (b: bool)
        ensures
            b == self.search_defined(line_text@, from_col as int),
    ;

    /// The first match starting at byte `from_col` or later: its start and end offsets.
    fn search(&self, line_text: &str, from_col: usize) -> (r: Option<(usize, usize)>)
        requires
            self.search_defined(line_text@, from_col as int),
        ensures
            self.search_ok(line_text@, from_col as int, r),
            r matches Some((s, e)) ==> s <= e,
    ;
}

} // verus!
