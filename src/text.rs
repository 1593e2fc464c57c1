//! Character-sequence helpers shared by the parsers and renderers.
use vstd::prelude::*;

verus! {

/// Index of the first occurrence of `c` in `s`, or -1 when `c` does not occur.
pub open spec fn char_index(s: Seq<char>, c: char) -> int
    decreases s.len(),
{
    if s.len() == 0 {
        -1
    } else if s[0] == c {
        0
    } else {
        let k = char_index(s.drop_first(), c);
        if k < 0 {
            -1
        } else {
            k + 1
        }
    }
}

/// `p` is a prefix of `s`.
pub open spec fn has_prefix(s: Seq<char>, p: Seq<char>) -> bool {
    p.len() <= s.len() && s.take(p.len() as int) == p
}

/// `p` occurs somewhere in `s` as a contiguous run.
pub open spec fn has_infix(s: Seq<char>, p: Seq<char>) -> bool {
    exists|i: int| 0 <= i && i + p.len() <= s.len() && #[trigger] s.subrange(i, i + p.len()) == p
}

/// Pieces of `s` between occurrences of `c` (always at least one piece).
pub open spec fn split_on(s: Seq<char>, c: char) -> Seq<Seq<char>>
    decreases s.len(),
{
    if s.len() == 0 {
        seq![Seq::<char>::empty()]
    } else {
        let rest = split_on(s.drop_last(), c);
        if s.last() == c {
            rest.push(Seq::<char>::empty())
        } else {
            rest.update(rest.len() - 1, rest.last().push(s.last()))
        }
    }
}

pub proof fn lemma_char_index(s: Seq<char>, c: char)
    ensures
        -1 <= char_index(s, c) < s.len(),
        char_index(s, c) == -1 <==> !s.contains(c),
        char_index(s, c) >= 0 ==> s[char_index(s, c)] == c,
        forall|j: int| 0 <= j < char_index(s, c) ==> s[j] != c,
    decreases s.len(),
{
    if s.len() > 0 {
        lemma_char_index(s.drop_first(), c);
        if s[0] != c {
            assert forall|j: int| 0 <= j < s.len() - 1 implies s.drop_first()[j] == s[j + 1] by {}
            if s.contains(c) {
                let w = choose|w: int| 0 <= w < s.len() && s[w] == c;
                assert(s.drop_first()[w - 1] == c);
            }
            if s.drop_first().contains(c) {
                let w = choose|w: int| 0 <= w < s.len() - 1 && s.drop_first()[w] == c;
                assert(s[w + 1] == c);
            }
            assert forall|j: int| 0 <= j < char_index(s, c) implies s[j] != c by {
                if j > 0 {
                    assert(s[j] == s.drop_first()[j - 1]);
                }
            }
        }
    }
}

/// The first index of `c` is determined by the characters before it.
pub proof fn lemma_char_index_at(s: Seq<char>, c: char, k: int)
    requires
        0 <= k < s.len(),
        s[k] == c,
        forall|j: int| 0 <= j < k ==> s[j] != c,
    ensures
        char_index(s, c) == k,
{
    lemma_char_index(s, c);
    assert(s.contains(c));
}

pub proof fn lemma_char_index_absent(s: Seq<char>, c: char)
    requires
        forall|j: int| 0 <= j < s.len() ==> s[j] != c,
    ensures
        char_index(s, c) == -1,
{
    lemma_char_index(s, c);
}

/// Relies on `String`'s `FromIterator<char>`: the string holds exactly the
/// characters given, in order.
#[verifier::external_body]
pub(crate) fn string_of(cs: &[char]) -> (r: String)
    ensures
        r@ == cs@,
{
    cs.iter().collect()
}

/// The characters of `s`, in order.
pub fn chars_of(s: &str) -> (r: Vec<char>)
    ensures
        r@ == s@,
{
    let mut r: Vec<char> = Vec::new();
    for c in it: s.chars()
        invariant
            r@ == it.seq().take(it.index() as int),
            it.seq() == s@,
    {
        r.push(c);
    }
    r
}

/// The characters `v[lo..hi]` as a string.
pub fn string_range(v: &Vec<char>, lo: usize, hi: usize) -> (r: String)
    requires
        lo <= hi <= v.len(),
    ensures
        r@ == v@.subrange(lo as int, hi as int),
{
    let mut out: Vec<char> = Vec::new();
    let mut i: usize = lo;
    while i < hi
        invariant
            lo <= i <= hi <= v.len(),
            out@ == v@.subrange(lo as int, i as int),
        decreases hi - i,
    {
        out.push(v[i]);
        i = i + 1;
    }
    string_of(out.as_slice())
}

/// First index `>= from` at which `c` occurs in `v`, if any.
pub fn find_char_from(v: &Vec<char>, c: char, from: usize) -> (r: Option<usize>)
    requires
        from <= v.len(),
    ensures
        match r {
            Some(k) => from <= k < v.len() && v@[k as int] == c && char_index(
                v@.skip(from as int),
                c,
            ) == k - from,
            None => char_index(v@.skip(from as int), c) == -1,
        },
{
    let ghost s = v@.skip(from as int);
    let mut i: usize = from;
    while i < v.len()
        invariant
            from <= i <= v.len(),
            s == v@.skip(from as int),
            forall|j: int| from <= j < i ==> v@[j] != c,
        decreases v.len() - i,
    {
        if v[i] == c {
            proof {
                lemma_char_index_at(s, c, i - from);
            }
            return Some(i);
        }
        i = i + 1;
    }
    proof {
        lemma_char_index_absent(s, c);
    }
    None
}

/// Whether `v` holds `p` at position `at`.
pub fn matches_at(v: &Vec<char>, at: usize, p: &Vec<char>) -> (r: bool)
    requires
        at <= v.len(),
    ensures
        r == (at + p.len() <= v.len() && v@.subrange(at as int, at + p.len()) == p@),
{
    if p.len() > v.len() - at {
        return false;
    }
    let mut k: usize = 0;
    while k < p.len()
        invariant
            k <= p.len(),
            at + p.len() <= v.len(),
            forall|j: int| 0 <= j < k ==> v@[at + j] == p@[j],
        decreases p.len() - k,
    {
        if v[at + k] != p[k] {
            assert(v@.subrange(at as int, at + p.len())[k as int] != p@[k as int]);
            return false;
        }
        k = k + 1;
    }
    assert(v@.subrange(at as int, at + p.len()) =~= p@);
    true
}

/// Whether two character vectors are equal.
pub fn same_chars(a: &Vec<char>, b: &Vec<char>) -> (r: bool)
    ensures
        r == (a@ == b@),
{
    if a.len() != b.len() {
        return false;
    }
    let r = matches_at(a, 0, b);
    assert(a@.subrange(0, a@.len() as int) =~= a@);
    r
}

} // verus!

verus! {

/// `s` without its leading '/' characters.
pub open spec fn trim_start_slashes(s: Seq<char>) -> Seq<char>
    decreases s.len(),
{
    if s.len() > 0 && s[0] == '/' {
        trim_start_slashes(s.drop_first())
    } else {
        s
    }
}

/// `s` without its trailing '/' characters.
pub open spec fn trim_end_slashes(s: Seq<char>) -> Seq<char>
    decreases s.len(),
{
    if s.len() > 0 && s.last() == '/' {
        trim_end_slashes(s.drop_last())
    } else {
        s
    }
}

/// `s` without leading and trailing '/' characters.
pub open spec fn trim_slashes(s: Seq<char>) -> Seq<char> {
    trim_end_slashes(trim_start_slashes(s))
}

/// Neither end of `s` is a '/'.
pub open spec fn slash_free_ends(s: Seq<char>) -> bool {
    s.len() > 0 ==> s[0] != '/' && s.last() != '/'
}

pub proof fn lemma_trim_start_shape(s: Seq<char>)
    ensures
        trim_start_slashes(s).len() > 0 ==> trim_start_slashes(s)[0] != '/',
    decreases s.len(),
{
    if s.len() > 0 && s[0] == '/' {
        lemma_trim_start_shape(s.drop_first());
    }
}

pub proof fn lemma_trim_end_shape(s: Seq<char>)
    ensures
        trim_end_slashes(s).len() <= s.len(),
        trim_end_slashes(s) == s.take(trim_end_slashes(s).len() as int),
        trim_end_slashes(s).len() > 0 ==> trim_end_slashes(s).last() != '/',
    decreases s.len(),
{
    if s.len() > 0 && s.last() == '/' {
        lemma_trim_end_shape(s.drop_last());
        let k = trim_end_slashes(s).len() as int;
        assert(s.drop_last().take(k) =~= s.take(k));
    } else {
        assert(s.take(s.len() as int) =~= s);
    }
}

/// What trimming leaves has no '/' at either end.
pub proof fn lemma_trim_slashes_shape(s: Seq<char>)
    ensures
        slash_free_ends(trim_slashes(s)),
{
    lemma_trim_start_shape(s);
    lemma_trim_end_shape(trim_start_slashes(s));
}

/// Trimming a sequence with no '/' at either end leaves it as it is.
pub proof fn lemma_trim_slashes_id(s: Seq<char>)
    requires
        slash_free_ends(s),
    ensures
        trim_slashes(s) == s,
{
}

/// Bounds `(a, b)` such that `v[a..b]` is `v[from..]` trimmed of '/' at both ends.
pub fn trim_slashes_bounds(v: &Vec<char>, from: usize, to: usize) -> (r: (usize, usize))
    requires
        from <= to <= v.len(),
    ensures
        from <= r.0 <= r.1 <= to,
        v@.subrange(r.0 as int, r.1 as int) == trim_slashes(v@.subrange(from as int, to as int)),
{
    let mut a: usize = from;
    while a < to && v[a] == '/'
        invariant
            from <= a <= to <= v.len(),
            trim_start_slashes(v@.subrange(from as int, to as int)) == trim_start_slashes(
                v@.subrange(a as int, to as int),
            ),
        decreases to - a,
    {
        assert(v@.subrange(a as int, to as int).drop_first() =~= v@.subrange(a + 1, to as int));
        a = a + 1;
    }
    let mut b: usize = to;
    while b > a && v[b - 1] == '/'
        invariant
            from <= a <= b <= to <= v.len(),
            a == to || v@[a as int] != '/',
            trim_end_slashes(v@.subrange(a as int, to as int)) == trim_end_slashes(
                v@.subrange(a as int, b as int),
            ),
        decreases b - a,
    {
        assert(v@.subrange(a as int, b as int).drop_last() =~= v@.subrange(a as int, b - 1));
        b = b - 1;
    }
    (a, b)
}

} // verus!

verus! {

/// `c` has the Unicode `White_Space` property (what `char::is_whitespace` tests).
pub open spec fn is_ws(c: char) -> bool {
    ('\u{9}' <= c && c <= '\u{d}') || c == ' ' || c == '\u{85}' || c == '\u{a0}'
        || c == '\u{1680}' || ('\u{2000}' <= c && c <= '\u{200a}') || c == '\u{2028}'
        || c == '\u{2029}' || c == '\u{202f}' || c == '\u{205f}' || c == '\u{3000}'
}

/// `s` without its leading whitespace.
pub open spec fn trim_start_ws(s: Seq<char>) -> Seq<char>
    decreases s.len(),
{
    if s.len() > 0 && is_ws(s[0]) {
        trim_start_ws(s.drop_first())
    } else {
        s
    }
}

/// `s` without its trailing whitespace.
pub open spec fn trim_end_ws(s: Seq<char>) -> Seq<char>
    decreases s.len(),
{
    if s.len() > 0 && is_ws(s.last()) {
        trim_end_ws(s.drop_last())
    } else {
        s
    }
}

/// `s` without leading and trailing whitespace.
pub open spec fn trim_ws(s: Seq<char>) -> Seq<char> {
    trim_start_ws(trim_end_ws(s))
}

/// What `str::to_lowercase` yields for `s`.
pub uninterp spec fn lowered(s: Seq<char>) -> Seq<char>;

/// Relies on `str::trim`: leading and trailing characters with the Unicode
/// `White_Space` property are removed, as its documentation states.
#[verifier::external_body]
pub(crate) fn trim_str(s: &str) -> (r: &str)
    ensures
        r@ == trim_ws(s@),
{
    s.trim()
}

/// Relies on `str::to_lowercase`: the result depends on the characters
/// alone, and the empty string stays empty.
#[verifier::external_body]
pub(crate) fn lowercase(s: &str) -> (r: String)
    ensures
        r@ == lowered(s@),
        s@.len() == 0 ==> r@.len() == 0,
{
    s.to_lowercase()
}

} // verus!

verus! {

/// `s` without one trailing '\r'.
pub open spec fn strip_cr(s: Seq<char>) -> Seq<char> {
    if s.len() > 0 && s.last() == '\r' {
        s.drop_last()
    } else {
        s
    }
}

/// The lines of `s` as `str::lines` gives them: pieces between '\n', a
/// final empty piece dropped, and a '\r' before each '\n' removed.
pub open spec fn lines_of(s: Seq<char>) -> Seq<Seq<char>> {
    let c = split_on(s, '\n');
    let body = c.drop_last().map_values(|l: Seq<char>| strip_cr(l));
    if c.last().len() == 0 {
        body
    } else {
        body.push(c.last())
    }
}

/// A split always has at least one piece.
pub proof fn lemma_split_on_nonempty(s: Seq<char>, c: char)
    ensures
        split_on(s, c).len() >= 1,
    decreases s.len(),
{
    if s.len() > 0 {
        lemma_split_on_nonempty(s.drop_last(), c);
    }
}

/// Appending characters other than `c` extends the last piece of a split.
pub proof fn lemma_split_on_extend(s: Seq<char>, t: Seq<char>, c: char)
    requires
        !t.contains(c),
    ensures
        split_on(s + t, c).len() == split_on(s, c).len(),
        split_on(s + t, c).last() == split_on(s, c).last() + t,
    decreases t.len(),
{
    lemma_split_on_nonempty(s, c);
    if t.len() == 0 {
        assert(s + t =~= s);
        assert(split_on(s, c).last() + t =~= split_on(s, c).last());
    } else {
        let u = t.drop_last();
        assert(!u.contains(c)) by {
            if u.contains(c) {
                let w = choose|w: int| 0 <= w < u.len() && u[w] == c;
                assert(t[w] == c);
            }
        }
        lemma_split_on_extend(s, u, c);
        lemma_split_on_nonempty(s + u, c);
        assert((s + t).drop_last() =~= s + u);
        assert((s + t).last() == t.last());
        assert(t.last() != c) by {
            assert(t[t.len() - 1] == t.last());
        }
        assert(split_on(s, c).last() + t =~= (split_on(s, c).last() + u).push(t.last()));
    }
}

/// The lines of `p + line + "\n"`, where `p` is empty or ends in a newline and
/// `line` holds none, end with `line` (less a final '\r').
pub proof fn lemma_last_line(p: Seq<char>, line: Seq<char>)
    requires
        p.len() == 0 || p.last() == '\n',
        !line.contains('\n'),
    ensures
        lines_of(p + line + seq!['\n']).len() > 0,
        lines_of(p + line + seq!['\n']).last() == strip_cr(line),
{
    lemma_split_on_extend(p, line, '\n');
    lemma_split_on_nonempty(p, '\n');
    lemma_split_on_nonempty(p + line, '\n');
    let s = p + line + seq!['\n'];
    assert(s.drop_last() =~= p + line);
    assert(split_on(p, '\n').last() =~= Seq::<char>::empty()) by {
        if p.len() > 0 {
            assert(split_on(p, '\n') == split_on(p.drop_last(), '\n').push(Seq::<char>::empty()));
        }
    }
    assert(split_on(p + line, '\n').last() =~= line);
    let c = split_on(s, '\n');
    assert(c == split_on(p + line, '\n').push(Seq::<char>::empty()));
    assert(c.drop_last() =~= split_on(p + line, '\n'));
}

/// Splits `s` into its lines (see [`lines_of`]).
pub fn split_lines(s: &str) -> (r: Vec<Vec<char>>)
    ensures
        r@.map_values(|l: Vec<char>| l@) == lines_of(s@),
{
    let v = chars_of(s);
    let mut done: Vec<Vec<char>> = Vec::new();
    let mut cur: Vec<char> = Vec::new();
    let mut i: usize = 0;
    proof {
        assert(v@.take(0) =~= Seq::<char>::empty());
    }
    while i < v.len()
        invariant
            i <= v.len(),
            v@ == s@,
            split_on(v@.take(i as int), '\n').len() >= 1,
            done@.map_values(|l: Vec<char>| l@) == split_on(v@.take(i as int), '\n').drop_last().map_values(
                |l: Seq<char>| strip_cr(l),
            ),
            cur@ == split_on(v@.take(i as int), '\n').last(),
        decreases v.len() - i,
    {
        let ghost old_c = split_on(v@.take(i as int), '\n');
        let c = v[i];
        assert(v@.take(i + 1).drop_last() =~= v@.take(i as int));
        assert(v@.take(i + 1).last() == c);
        let ghost new_c = split_on(v@.take(i + 1), '\n');
        if c == '\n' {
            let mut line = cur;
            if line.len() > 0 && line[line.len() - 1] == '\r' {
                line.pop();
            }
            assert(line@ == strip_cr(old_c.last()));
            let ghost old_done = done@.map_values(|l: Vec<char>| l@);
            let ghost line_v = line@;
            done.push(line);
            assert(done@.map_values(|l: Vec<char>| l@) =~= old_done.push(line_v));
            cur = Vec::new();
            assert(new_c == old_c.push(Seq::<char>::empty()));
            assert(new_c.drop_last() =~= old_c);
            assert(old_c =~= old_c.drop_last().push(old_c.last()));
            assert(old_c.map_values(|l: Seq<char>| strip_cr(l)) =~= old_c.drop_last().map_values(
                |l: Seq<char>| strip_cr(l),
            ).push(strip_cr(old_c.last())));
            assert(done@.map_values(|l: Vec<char>| l@) =~= new_c.drop_last().map_values(
                |l: Seq<char>| strip_cr(l),
            ));
        } else {
            cur.push(c);
            assert(new_c.drop_last() =~= old_c.drop_last());
        }
        i = i + 1;
    }
    assert(v@.take(v.len() as int) =~= v@);
    let ghost c = split_on(v@, '\n');
    if cur.len() > 0 {
        done.push(cur);
        assert(done@.map_values(|l: Vec<char>| l@) =~= lines_of(s@));
    } else {
        assert(done@.map_values(|l: Vec<char>| l@) =~= lines_of(s@));
    }
    done
}

} // verus!
