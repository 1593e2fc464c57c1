//! Normalization and containment of repository-relative paths.
use vstd::prelude::*;

use crate::text::{chars_of, lemma_trim_end_shape, string_range, trim_end_slashes};

verus! {

/// `s` with every '\\' turned into '/'.
pub open spec fn unify_separators(s: Seq<char>) -> Seq<char> {
    s.map_values(|c: char| if c == '\\' { '/' } else { c })
}

/// `s` without its leading run of "./" and "/" pieces.
pub open spec fn strip_leading(s: Seq<char>) -> Seq<char>
    decreases s.len(),
{
    if s.len() >= 2 && s[0] == '.' && s[1] == '/' {
        strip_leading(s.skip(2))
    } else if s.len() > 0 && s[0] == '/' {
        strip_leading(s.drop_first())
    } else {
        s
    }
}

/// The normal form of a path: one separator, no leading "./" or '/', no
/// trailing '/'. This is the only key under which paths are compared.
pub open spec fn normalize(s: Seq<char>) -> Seq<char> {
    trim_end_slashes(strip_leading(unify_separators(s)))
}

/// `s` starts with neither '/' nor "./".
pub open spec fn clean_start(s: Seq<char>) -> bool {
    &&& (s.len() > 0 ==> s[0] != '/')
    &&& !(s.len() >= 2 && s[0] == '.' && s[1] == '/')
}

pub proof fn lemma_strip_leading_shape(s: Seq<char>)
    ensures
        strip_leading(s).len() <= s.len(),
        strip_leading(s) == s.skip(s.len() - strip_leading(s).len()),
        clean_start(strip_leading(s)),
    decreases s.len(),
{
    if s.len() >= 2 && s[0] == '.' && s[1] == '/' {
        lemma_strip_leading_shape(s.skip(2));
        let t = strip_leading(s);
        assert(s.skip(2).skip(s.len() - 2 - t.len()) =~= s.skip(s.len() - t.len()));
    } else if s.len() > 0 && s[0] == '/' {
        lemma_strip_leading_shape(s.drop_first());
        let t = strip_leading(s);
        assert(s.drop_first().skip(s.len() - 1 - t.len()) =~= s.skip(s.len() - t.len()));
    } else {
        assert(s.skip(0) =~= s);
    }
}

/// Normalizing twice is normalizing once.
pub proof fn lemma_normalize_idempotent(s: Seq<char>)
    ensures
        normalize(normalize(s)) == normalize(s),
{
    let u = unify_separators(s);
    let w = strip_leading(u);
    let t = trim_end_slashes(w);
    lemma_strip_leading_shape(u);
    lemma_trim_end_shape(w);
    assert forall|k: int| 0 <= k < t.len() implies t[k] != '\\' by {
        assert(t[k] == w[k]);
        assert(w[k] == u[u.len() - w.len() + k]);
    }
    assert(unify_separators(t) =~= t);
    assert(clean_start(t)) by {
        if t.len() > 0 {
            assert(t[0] == w[0]);
        }
        if t.len() >= 2 {
            assert(t[1] == w[1]);
        }
    }
    assert(strip_leading(t) == t);
    assert(trim_end_slashes(t) == t) by {
        if t.len() > 0 {
            assert(t.last() != '/');
        }
    }
}

/// Normalizes a path (see [`normalize`]).
pub fn normalize_path(p: &str) -> (r: String)
    ensures
        r@ == normalize(p@),
{
    let src = chars_of(p);
    let mut v: Vec<char> = Vec::new();
    let mut i: usize = 0;
    while i < src.len()
        invariant
            i <= src.len(),
            src@ == p@,
            v@ == unify_separators(p@).take(i as int),
        decreases src.len() - i,
    {
        let c = src[i];
        v.push(if c == '\\' { '/' } else { c });
        assert(v@ =~= unify_separators(p@).take(i + 1));
        i = i + 1;
    }
    assert(v@ =~= unify_separators(p@));
    let mut a: usize = 0;
    while a < v.len() && (v[a] == '/' || (a + 1 < v.len() && v[a] == '.' && v[a + 1] == '/'))
        invariant
            a <= v.len(),
            strip_leading(v@) == strip_leading(v@.skip(a as int)),
        decreases v.len() - a,
    {
        if v[a] == '.' {
            assert(v@.skip(a as int).skip(2) =~= v@.skip(a + 2));
            a = a + 2;
        } else {
            assert(v@.skip(a as int).drop_first() =~= v@.skip(a + 1));
            a = a + 1;
        }
    }
    let mut b: usize = v.len();
    while b > a && v[b - 1] == '/'
        invariant
            a <= b <= v.len(),
            trim_end_slashes(v@.skip(a as int)) == trim_end_slashes(v@.subrange(a as int, b as int)),
        decreases b - a,
    {
        assert(v@.subrange(a as int, b as int).drop_last() =~= v@.subrange(a as int, b - 1));
        b = b - 1;
    }
    assert(v@.skip(a as int) =~= v@.subrange(a as int, v.len() as int));
    string_range(&v, a, b)
}

/// The final '/'-separated segment of `s`.
pub open spec fn last_segment(s: Seq<char>) -> Seq<char>
    decreases s.len(),
{
    if s.len() == 0 {
        s
    } else if s.last() == '/' {
        Seq::empty()
    } else {
        last_segment(s.drop_last()).push(s.last())
    }
}

/// Returns the final '/'-separated segment of `p`.
pub fn final_segment(p: &str) -> (r: String)
    ensures
        r@ == last_segment(p@),
{
    let v = chars_of(p);
    let n = v.len();
    let mut k: usize = n;
    assert(v@.take(n as int) =~= v@);
    assert(v@.subrange(n as int, n as int) =~= Seq::<char>::empty());
    while k > 0 && v[k - 1] != '/'
        invariant
            k <= n == v.len(),
            v@ == p@,
            last_segment(v@) == last_segment(v@.take(k as int)) + v@.subrange(k as int, n as int),
        decreases k,
    {
        assert(v@.take(k as int).drop_last() =~= v@.take(k - 1));
        assert(v@.subrange(k - 1, n as int) =~= seq![v@[k - 1]] + v@.subrange(k as int, n as int));
        assert(last_segment(v@.take(k - 1)).push(v@[k - 1]) + v@.subrange(k as int, n as int)
            =~= last_segment(v@.take(k - 1)) + v@.subrange(k - 1, n as int));
        k = k - 1;
    }
    assert(v@.take(n as int) =~= v@);
    assert(last_segment(v@.take(k as int)) =~= Seq::<char>::empty());
    string_range(&v, k, n)
}

/// The patch at `owner` owns `path`: the two are equal, or `owner` followed
/// by '/' starts `path`.
pub open spec fn owns(owner: Seq<char>, path: Seq<char>) -> bool {
    owner == path || (owner.len() < path.len() && path.take(owner.len() as int) == owner
        && path[owner.len() as int] == '/')
}

/// Decides [`owns`].
pub fn path_owns(owner: &Vec<char>, path: &Vec<char>) -> (r: bool)
    ensures
        r == owns(owner@, path@),
{
    if owner.len() > path.len() {
        return false;
    }
    let mut k: usize = 0;
    while k < owner.len()
        invariant
            k <= owner.len() <= path.len(),
            forall|j: int| 0 <= j < k ==> owner@[j] == path@[j],
        decreases owner.len() - k,
    {
        if owner[k] != path[k] {
            assert(path@.take(owner.len() as int)[k as int] != owner@[k as int]);
            return false;
        }
        k = k + 1;
    }
    assert(path@.take(owner.len() as int) =~= owner@);
    if owner.len() == path.len() {
        assert(owner@ =~= path@);
        true
    } else {
        path[owner.len()] == '/'
    }
}

} // verus!
