//! Small operations on text, stated over the character sequence of a string.
use vstd::prelude::*;
use vstd::string::*;

verus! {

/// `p` is a prefix of `s`.
pub open spec fn has_prefix(s: Seq<char>, p: Seq<char>) -> bool {
    p.len() <= s.len() && s.subrange(0, p.len() as int) == p
}

/// `p` is a suffix of `s`.
pub open spec fn has_suffix(s: Seq<char>, p: Seq<char>) -> bool {
    p.len() <= s.len() && s.subrange(s.len() - p.len(), s.len() as int) == p
}

/// `p` stands in `s` starting at position `i`.
pub open spec fn occurs_at(s: Seq<char>, p: Seq<char>, i: int) -> bool {
    0 <= i && i + p.len() <= s.len() && s.subrange(i, i + p.len()) == p
}

/// `p` stands somewhere in `s`.
pub open spec fn has_infix(s: Seq<char>, p: Seq<char>) -> bool {
    exists|i: int| occurs_at(s, p, i)
}

/// Where the last `c`-separated segment of `s` starts.
pub open spec fn segment_start(s: Seq<char>, c: char) -> int
    decreases s.len(),
{
    if s.len() == 0 {
        0
    } else if s.last() == c {
        s.len() as int
    } else {
        segment_start(s.drop_last(), c)
    }
}

/// Position just after the last `c` of `s`, or 0 where `s` has none.
pub fn last_segment_start(s: &str, c: char) -> (r: usize)
    ensures
        r == segment_start(s@, c),
        r <= s@.len(),
        r > 0 ==> s@[r - 1] == c,
        forall|j: int| r <= j < s@.len() ==> s@[j] != c,
{
    let ghost t = s@;
    let mut k = s.unicode_len();
    assert(t.take(k as int) =~= t);
    while k > 0 && s.get_char(k - 1) != c
        invariant
            t == s@,
            k <= t.len(),
            segment_start(t, c) == segment_start(t.take(k as int), c),
            forall|j: int| k <= j < t.len() ==> t[j] != c,
        decreases k,
    {
        assert(t.take(k as int).drop_last() =~= t.take(k - 1));
        k = k - 1;
    }
    assert(k == 0 ==> t.take(k as int).len() == 0);
    k
}

/// The characters of each string of a list of pairs.
pub open spec fn pairs_view(v: Seq<(String, String)>) -> Seq<(Seq<char>, Seq<char>)> {
    v.map_values(|e: (String, String)| (e.0@, e.1@))
}

/// The keys of a list of string-keyed pairs.
pub open spec fn keys_of<V>(s: Seq<(String, V)>) -> Seq<Seq<char>> {
    s.map_values(|x: (String, V)| x.0@)
}

/// Position of the first pair of `v` keyed `k`.
pub fn key_position<V>(v: &Vec<(String, V)>, k: &str) -> (r: Option<usize>)
    ensures
        r is Some ==> r->Some_0 < v@.len() && keys_of(v@)[r->Some_0 as int] == k@,
        r is Some ==> forall|j: int| 0 <= j < r->Some_0 ==> keys_of(v@)[j] != k@,
        r is None ==> forall|j: int| 0 <= j < v@.len() ==> keys_of(v@)[j] != k@,
{
    let ghost ks = keys_of(v@);
    let mut i: usize = 0;
    while i < v.len()
        invariant
            ks == keys_of(v@),
            i <= v@.len(),
            forall|j: int| 0 <= j < i ==> ks[j] != k@,
        decreases v.len() - i,
    {
        if same_text(v[i].0.as_str(), k) {
            return Some(i);
        }
        i = i + 1;
    }
    None
}

/// Whether no two pairs of `v` share a key.
pub fn keys_distinct<V>(v: &Vec<(String, V)>) -> (r: bool)
    ensures
        r == keys_of(v@).no_duplicates(),
{
    let ghost ks = keys_of(v@);
    let mut j: usize = 1;
    while j < v.len()
        invariant
            ks == keys_of(v@),
            1 <= j,
            j <= v@.len() || v@.len() == 0,
            forall|a: int, b: int| 0 <= a < b < j && b < ks.len() ==> ks[a] != ks[b],
        decreases v.len() - j,
    {
        let mut i: usize = 0;
        while i < j
            invariant
                ks == keys_of(v@),
                1 <= j < v@.len(),
                i <= j,
                forall|a: int, b: int| 0 <= a < b < j ==> ks[a] != ks[b],
                forall|a: int| 0 <= a < i ==> ks[a] != ks[j as int],
            decreases j - i,
        {
            if same_text(v[i].0.as_str(), v[j].0.as_str()) {
                assert(ks[i as int] == ks[j as int]);
                return false;
            }
            i = i + 1;
        }
        j = j + 1;
    }
    assert forall|a: int, b: int| 0 <= a < ks.len() && 0 <= b < ks.len() && a != b implies ks[a]
        != ks[b] by {
        if a > b {
        }
    }
    true
}

/// Character-wise equality of two strings.
pub fn same_text(a: &str, b: &str) -> (r: bool)
    ensures
        r == (a@ == b@),
{
    a.to_owned() == b.to_owned()
}

pub fn starts_with(s: &str, p: &str) -> (r: bool)
    ensures
        r == has_prefix(s@, p@),
{
    let n = s.unicode_len();
    let m = p.unicode_len();
    if m > n {
        return false;
    }
    same_text(s.substring_char(0, m), p)
}

pub fn ends_with(s: &str, p: &str) -> (r: bool)
    ensures
        r == has_suffix(s@, p@),
{
    let n = s.unicode_len();
    let m = p.unicode_len();
    if m > n {
        return false;
    }
    same_text(s.substring_char(n - m, n), p)
}

pub fn contains(s: &str, p: &str) -> (r: bool)
    ensures
        r == has_infix(s@, p@),
{
    let n = s.unicode_len();
    let m = p.unicode_len();
    if m > n {
        assert(!has_infix(s@, p@));
        return false;
    }
    let last = n - m;
    let mut i: usize = 0;
    while i < last
        invariant
            n == s@.len(),
            m == p@.len(),
            last == n - m,
            i <= last,
            forall|j: int| 0 <= j < i ==> !occurs_at(s@, p@, j),
        decreases last - i,
    {
        if same_text(s.substring_char(i, i + m), p) {
            assert(occurs_at(s@, p@, i as int));
            return true;
        }
        i = i + 1;
    }
    if same_text(s.substring_char(last, n), p) {
        assert(occurs_at(s@, p@, last as int));
        return true;
    }
    assert forall|j: int| !occurs_at(s@, p@, j) by {
        if 0 <= j <= last {
        }
    }
    false
}

} // verus!
