//! Remotes: the URL of a fixture remote, and reading a remote's default
//! branch out of what `ls-remote` or a remote listing reports.
use vstd::prelude::*;

use crate::text::{
    char_index, chars_of, find_char_from, has_infix, has_prefix, lines_of, matches_at,
    split_lines, string_range,
};

verus! {

/// `rel` appended to `base` with separator `sep`: the separator is added
/// only when `base` is non-empty and does not end in '/'.
pub open spec fn joined(base: Seq<char>, rel: Seq<char>, sep: char) -> Seq<char> {
    if base.len() == 0 || base.last() == '/' {
        base + rel
    } else {
        base + seq![sep] + rel
    }
}

/// Neither '\\' nor ':' occurs in `s`: no drive prefix, root or separator
/// that one platform reads differently from another.
pub open spec fn portable_path(s: Seq<char>) -> bool {
    !s.contains('\\') && !s.contains(':')
}

/// Relies on camino's `Utf8Path::join`, which adjoins through std's
/// `PathBuf::push`. For a relative path holding no '\\' or ':' onto such a
/// base, the path is appended after the platform's main separator ('/' on
/// Unix, '\\' on Windows), added only when the base is non-empty and does
/// not already end in '/'.
#[verifier::external_body]
fn join_path(base: &str, rel: &str) -> (r: String)
    requires
        rel@.len() == 0 || rel@[0] != '/',
        portable_path(base@),
        portable_path(rel@),
    ensures
        r@ == joined(base@, rel@, '/') || r@ == joined(base@, rel@, '\\'),
{
    camino::Utf8Path::new(base).join(rel).into_string()
}

/// `file://` URL of the fixture remote `name` under the repository at `root`,
/// with `sep` as the path separator.
pub open spec fn remote_url_of(root: Seq<char>, name: Seq<char>, sep: char) -> Seq<char> {
    "file://"@ + joined(root, "test/fixtures/remotes/"@ + name + ".git"@, sep)
}

/// The `file://` URL of the fixture remote `name` of the repository at
/// `root` ('/' joins them on Unix, '\\' on Windows).
pub fn remote_url(root: &str, name: &str) -> (r: String)
    requires
        portable_path(root@),
        portable_path(name@),
    ensures
        r@ == remote_url_of(root@, name@, '/') || r@ == remote_url_of(root@, name@, '\\'),
{
    proof {
        reveal_strlit("test/fixtures/remotes/");
        reveal_strlit(".git");
    }
    let rel = String::from_str("test/fixtures/remotes/").concat(name).concat(".git");
    proof {
        let lit = "test/fixtures/remotes/"@;
        assert(rel@ == lit + name@ + ".git"@);
        assert(rel@[0] == 't');
        assert forall|k: int| 0 <= k < rel@.len() implies rel@[k] != '\\' && rel@[k] != ':' by {
            if k >= lit.len() && k < lit.len() + name@.len() {
                assert(rel@[k] == name@[k - lit.len()]);
            }
        }
    }
    let joined = join_path(root, rel.as_str());
    String::from_str("file://").concat(joined.as_str())
}

/// `s` with every leading copy of `p` removed.
pub open spec fn strip_all(s: Seq<char>, p: Seq<char>) -> Seq<char>
    decreases s.len(),
{
    if p.len() > 0 && has_prefix(s, p) {
        strip_all(s.skip(p.len() as int), p)
    } else {
        s
    }
}

/// Prefix of branch refs.
pub const REFS_HEADS: &'static str = "refs/heads/";

/// The branch a `ls-remote --symref` line names as the target of `HEAD`:
/// the line reads `ref: <ref>\tHEAD[\t...]` with `<ref>` under `refs/heads/`
/// and a non-empty name left once the `refs/heads/` prefixes are removed.
pub open spec fn symref_branch(l: Seq<char>) -> Option<Seq<char>> {
    if !has_prefix(l, "ref: "@) {
        None
    } else {
        let rest = l.skip(5);
        let t = char_index(rest, '\t');
        if t < 0 {
            None
        } else {
            let refname = rest.take(t);
            let after = rest.skip(t + 1);
            let u = char_index(after, '\t');
            let target = if u < 0 {
                after
            } else {
                after.take(u)
            };
            if target == "HEAD"@ && has_prefix(refname, REFS_HEADS@) && strip_all(
                refname,
                REFS_HEADS@,
            ).len() > 0 {
                Some(strip_all(refname, REFS_HEADS@))
            } else {
                None
            }
        }
    }
}

/// The first branch that one of `ls` names as `HEAD`'s target.
pub open spec fn first_symref(ls: Seq<Seq<char>>) -> Option<Seq<char>>
    decreases ls.len(),
{
    if ls.len() == 0 {
        None
    } else {
        match symref_branch(ls[0]) {
            Some(b) => Some(b),
            None => first_symref(ls.drop_first()),
        }
    }
}

fn strip_all_from(v: &Vec<char>, from: usize, to: usize, p: &Vec<char>) -> (r: usize)
    requires
        from <= to <= v.len(),
        p.len() > 0,
    ensures
        from <= r <= to,
        v@.subrange(r as int, to as int) == strip_all(v@.subrange(from as int, to as int), p@),
{
    let mut pos: usize = from;
    while p.len() <= to - pos && matches_at(v, pos, p)
        invariant
            from <= pos <= to <= v.len(),
            p.len() > 0,
            strip_all(v@.subrange(from as int, to as int), p@) == strip_all(
                v@.subrange(pos as int, to as int),
                p@,
            ),
        decreases to - pos,
    {
        let ghost s = v@.subrange(pos as int, to as int);
        assert(s.take(p.len() as int) =~= v@.subrange(pos as int, pos + p.len()));
        assert(s.skip(p.len() as int) =~= v@.subrange(pos + p.len(), to as int));
        pos = pos + p.len();
    }
    proof {
        let s = v@.subrange(pos as int, to as int);
        if p.len() <= s.len() {
            assert(s.take(p.len() as int) =~= v@.subrange(pos as int, pos + p.len()));
        }
    }
    pos
}

fn prefix_at(v: &Vec<char>, at: usize, to: usize, p: &Vec<char>) -> (r: bool)
    requires
        at <= to <= v.len(),
    ensures
        r == has_prefix(v@.subrange(at as int, to as int), p@),
{
    let ghost s = v@.subrange(at as int, to as int);
    if p.len() > to - at {
        return false;
    }
    let r = matches_at(v, at, p);
    assert(s.take(p.len() as int) =~= v@.subrange(at as int, at + p.len()));
    r
}

/// The branch that line `v` names as `HEAD`'s target (see [`symref_branch`]).
fn symref_branch_of(v: &Vec<char>) -> (r: Option<String>)
    ensures
        match r {
            Some(b) => symref_branch(v@) == Some(b@),
            None => symref_branch(v@) is None,
        },
{
    proof {
        reveal_strlit("ref: ");
        reveal_strlit("HEAD");
        reveal_strlit("refs/heads/");
    }
    let n = v.len();
    assert(v@.subrange(0, n as int) =~= v@);
    let lead = chars_of("ref: ");
    if !prefix_at(v, 0, n, &lead) {
        return None;
    }
    let ghost rest = v@.skip(5);
    let t = match find_char_from(v, '\t', 5) {
        Some(t) => t,
        None => return None,
    };
    assert(rest.take(t - 5) =~= v@.subrange(5, t as int));
    let ghost after = rest.skip(t - 5 + 1);
    assert(after =~= v@.skip(t + 1));
    let end = match find_char_from(v, '\t', t + 1) {
        Some(u) => {
            assert(after.take(u - t - 1) =~= v@.subrange(t + 1, u as int));
            u
        },
        None => {
            assert(after =~= v@.subrange(t + 1, n as int));
            n
        },
    };
    let target = string_range(v, t + 1, end);
    let head = String::from_str("HEAD");
    let heads = chars_of(REFS_HEADS);
    if target == head && prefix_at(v, 5, t, &heads) {
        let start = strip_all_from(v, 5, t, &heads);
        if start < t {
            Some(string_range(v, start, t))
        } else {
            None
        }
    } else {
        None
    }
}

/// The default branch named by `ls-remote --symref <url> HEAD` output: the
/// first line naming `HEAD`'s target branch.
pub fn branch_from_symref(output: &str) -> (r: Option<String>)
    ensures
        match r {
            Some(b) => first_symref(lines_of(output@)) == Some(b@),
            None => first_symref(lines_of(output@)) is None,
        },
{
    let lines = split_lines(output);
    let ghost ls = lines_of(output@);
    let mut i: usize = 0;
    assert(ls.skip(0) =~= ls);
    while i < lines.len()
        invariant
            i <= lines.len(),
            lines@.map_values(|l: Vec<char>| l@) == ls,
            ls == lines_of(output@),
            first_symref(ls) == first_symref(ls.skip(i as int)),
        decreases lines.len() - i,
    {
        assert(ls.skip(i as int)[0] == lines@[i as int]@);
        assert(ls.skip(i as int).drop_first() =~= ls.skip(i + 1));
        if let Some(b) = symref_branch_of(&lines[i]) {
            assert(first_symref(ls.skip(i as int)) == Some(b@));
            return Some(b);
        }
        i = i + 1;
    }
    assert(ls.skip(i as int).len() == 0);
    None
}

/// The branch a `ls-remote --heads` line `<hash>\t<ref>` names, when its
/// ref is a non-empty name under `refs/heads/`.
pub open spec fn head_line_branch(l: Seq<char>) -> Option<Seq<char>> {
    let t = char_index(l, '\t');
    if t < 0 {
        None
    } else {
        let refname = l.skip(t + 1);
        if has_prefix(refname, REFS_HEADS@) && refname.len() > REFS_HEADS@.len() {
            Some(refname.skip(REFS_HEADS@.len() as int))
        } else {
            None
        }
    }
}

pub open spec fn first_head_line(ls: Seq<Seq<char>>) -> Option<Seq<char>>
    decreases ls.len(),
{
    if ls.len() == 0 {
        None
    } else {
        match head_line_branch(ls[0]) {
            Some(b) => Some(b),
            None => first_head_line(ls.drop_first()),
        }
    }
}

/// The default branch guessed from `ls-remote --heads <url>` output: `main`
/// if listed, else `master` if listed, else the first branch listed.
pub open spec fn heads_branch(out: Seq<char>) -> Option<Seq<char>> {
    if has_infix(out, "\trefs/heads/main"@) {
        Some("main"@)
    } else if has_infix(out, "\trefs/heads/master"@) {
        Some("master"@)
    } else {
        first_head_line(lines_of(out))
    }
}

/// Whether `p` occurs in `v`.
fn infix_in(v: &Vec<char>, p: &Vec<char>) -> (r: bool)
    ensures
        r == has_infix(v@, p@),
{
    if p.len() > v.len() {
        return false;
    }
    if p.len() == 0 {
        assert(v@.subrange(0int, 0int + p@.len()) =~= p@);
        return true;
    }
    let mut i: usize = 0;
    while i <= v.len() - p.len()
        invariant
            0 < p.len() <= v.len(),
            i <= v.len() - p.len() + 1,
            forall|j: int| 0 <= j < i ==> #[trigger] v@.subrange(j, j + p.len()) != p@,
        decreases v.len() - i,
    {
        if matches_at(v, i, p) {
            return true;
        }
        i = i + 1;
    }
    false
}

fn head_line_branch_of(v: &Vec<char>) -> (r: Option<String>)
    ensures
        match r {
            Some(b) => head_line_branch(v@) == Some(b@),
            None => head_line_branch(v@) is None,
        },
{
    proof {
        reveal_strlit("refs/heads/");
    }
    let n = v.len();
    let t = match find_char_from(v, '\t', 0) {
        Some(t) => t,
        None => {
            assert(v@.skip(0) =~= v@);
            return None;
        },
    };
    assert(v@.skip(0) =~= v@);
    assert(v@.skip(t + 1) =~= v@.subrange(t + 1, n as int));
    let heads = chars_of(REFS_HEADS);
    if prefix_at(v, t + 1, n, &heads) && n - (t + 1) > heads.len() {
        assert(v@.skip(t + 1).skip(11) =~= v@.subrange(t + 12, n as int));
        Some(string_range(v, t + 1 + heads.len(), n))
    } else {
        None
    }
}

/// The default branch guessed from `ls-remote --heads` output (see
/// [`heads_branch`]).
pub fn branch_from_heads(output: &str) -> (r: Option<String>)
    ensures
        match r {
            Some(b) => heads_branch(output@) == Some(b@),
            None => heads_branch(output@) is None,
        },
{
    proof {
        reveal_strlit("main");
        reveal_strlit("master");
    }
    let v = chars_of(output);
    if infix_in(&v, &chars_of("\trefs/heads/main")) {
        return Some(String::from_str("main"));
    }
    if infix_in(&v, &chars_of("\trefs/heads/master")) {
        return Some(String::from_str("master"));
    }
    let lines = split_lines(output);
    let ghost ls = lines_of(output@);
    let mut i: usize = 0;
    assert(ls.skip(0) =~= ls);
    while i < lines.len()
        invariant
            i <= lines.len(),
            lines@.map_values(|l: Vec<char>| l@) == ls,
            ls == lines_of(output@),
            !has_infix(output@, "\trefs/heads/main"@),
            !has_infix(output@, "\trefs/heads/master"@),
            first_head_line(ls) == first_head_line(ls.skip(i as int)),
        decreases lines.len() - i,
    {
        assert(ls.skip(i as int)[0] == lines@[i as int]@);
        assert(ls.skip(i as int).drop_first() =~= ls.skip(i + 1));
        if let Some(b) = head_line_branch_of(&lines[i]) {
            assert(first_head_line(ls.skip(i as int)) == Some(b@));
            return Some(b);
        }
        i = i + 1;
    }
    assert(ls.skip(i as int).len() == 0);
    None
}

/// The branch to use when every probe of a remote came up empty: `main` if
/// the remote lists it, else `master` if it lists that, else `main`.
pub open spec fn fallback_of(main_listed: bool, master_listed: bool) -> Seq<char> {
    if !main_listed && master_listed {
        "master"@
    } else {
        "main"@
    }
}

/// Picks the fallback branch (see [`fallback_of`]).
pub fn fallback_branch(main_listed: bool, master_listed: bool) -> (r: String)
    ensures
        r@ == fallback_of(main_listed, master_listed),
{
    if !main_listed && master_listed {
        String::from_str("master")
    } else {
        String::from_str("main")
    }
}

} // verus!

verus! {

/// One ref of a remote's listing.
#[derive(Debug, Clone)]
pub struct RemoteHead {
    pub name: String,
    /// The ref this one points to, for a symbolic ref such as `HEAD`.
    pub symref_target: Option<String>,
}

/// A ref name without its leading `refs/heads/` copies, when something is left.
pub open spec fn nonempty_branch(s: Seq<char>) -> Option<Seq<char>> {
    let t = strip_all(s, REFS_HEADS@);
    if t.len() > 0 {
        Some(t)
    } else {
        None
    }
}

/// The branch that the first `HEAD` entry of a listing points to.
pub open spec fn head_target(heads: Seq<RemoteHead>) -> Option<Seq<char>>
    decreases heads.len(),
{
    if heads.len() == 0 {
        None
    } else if heads[0].name@ == "HEAD"@ {
        match heads[0].symref_target {
            Some(t) => nonempty_branch(t@),
            None => None,
        }
    } else {
        head_target(heads.drop_first())
    }
}

/// The first non-empty branch name under `refs/heads/` in a listing.
pub open spec fn first_branch_head(heads: Seq<RemoteHead>) -> Option<Seq<char>>
    decreases heads.len(),
{
    if heads.len() == 0 {
        None
    } else if has_prefix(heads[0].name@, REFS_HEADS@) && heads[0].name@.len() > REFS_HEADS@.len() {
        Some(heads[0].name@.skip(REFS_HEADS@.len() as int))
    } else {
        first_branch_head(heads.drop_first())
    }
}

/// The default branch read from a connected remote: the branch of its
/// reported default ref, else the target of its `HEAD`, else the first
/// branch it lists.
pub open spec fn listing_branch(default_ref: Option<Seq<char>>, heads: Seq<RemoteHead>) -> Option<
    Seq<char>,
> {
    let from_default = match default_ref {
        Some(d) => nonempty_branch(d),
        None => None,
    };
    match from_default {
        Some(b) => Some(b),
        None => match head_target(heads) {
            Some(b) => Some(b),
            None => first_branch_head(heads),
        },
    }
}

fn nonempty_branch_of(s: &str) -> (r: Option<String>)
    ensures
        match r {
            Some(b) => nonempty_branch(s@) == Some(b@),
            None => nonempty_branch(s@) is None,
        },
{
    proof {
        reveal_strlit("refs/heads/");
    }
    let v = chars_of(s);
    let n = v.len();
    let heads = chars_of(REFS_HEADS);
    let start = strip_all_from(&v, 0, n, &heads);
    assert(v@.subrange(0, n as int) =~= v@);
    if start < n {
        Some(string_range(&v, start, n))
    } else {
        None
    }
}

/// The default branch read from a connected remote (see [`listing_branch`]).
pub fn branch_from_listing(default_ref: Option<&str>, heads: &Vec<RemoteHead>) -> (r: Option<
    String,
>)
    ensures
        match r {
            Some(b) => listing_branch(
                match default_ref {
                    Some(d) => Some(d@),
                    None => None,
                },
                heads@,
            ) == Some(b@),
            None => listing_branch(
                match default_ref {
                    Some(d) => Some(d@),
                    None => None,
                },
                heads@,
            ) is None,
        },
{
    proof {
        reveal_strlit("HEAD");
        reveal_strlit("refs/heads/");
    }
    if let Some(d) = default_ref {
        if let Some(b) = nonempty_branch_of(d) {
            return Some(b);
        }
    }
    let ghost hs = heads@;
    let head = String::from_str("HEAD");
    let mut i: usize = 0;
    assert(hs.skip(0) =~= hs);
    while i < heads.len()
        invariant
            i <= heads.len(),
            hs == heads@,
            head@ == "HEAD"@,
            match default_ref {
                Some(d) => nonempty_branch(d@) is None,
                None => true,
            },
            head_target(hs) == head_target(hs.skip(i as int)),
        decreases heads.len() - i,
    {
        assert(hs.skip(i as int)[0] == heads@[i as int]);
        assert(hs.skip(i as int).drop_first() =~= hs.skip(i + 1));
        if heads[i].name == head {
            let found = match &heads[i].symref_target {
                Some(t) => {
                    assert(head_target(hs) == nonempty_branch(t@));
                    let f = nonempty_branch_of(t.as_str());
                    assert(match f {
                        Some(b) => head_target(hs) == Some(b@),
                        None => head_target(hs) is None,
                    });
                    f
                },
                None => {
                    assert(head_target(hs) is None);
                    None
                },
            };
            assert(match found {
                Some(b) => head_target(hs) == Some(b@),
                None => head_target(hs) is None,
            });
            return match found {
                Some(b) => Some(b),
                None => first_branch_head_of(heads),
            };
        }
        i = i + 1;
    }
    first_branch_head_of(heads)
}

fn first_branch_head_of(heads: &Vec<RemoteHead>) -> (r: Option<String>)
    ensures
        match r {
            Some(b) => first_branch_head(heads@) == Some(b@),
            None => first_branch_head(heads@) is None,
        },
{
    proof {
        reveal_strlit("refs/heads/");
    }
    let ghost hs = heads@;
    let prefix = chars_of(REFS_HEADS);
    let mut k: usize = 0;
    assert(hs.skip(0) =~= hs);
    while k < heads.len()
        invariant
            k <= heads.len(),
            hs == heads@,
            prefix@ == REFS_HEADS@,
            REFS_HEADS@.len() == 11,
            first_branch_head(hs) == first_branch_head(hs.skip(k as int)),
        decreases heads.len() - k,
    {
        assert(hs.skip(k as int)[0] == heads@[k as int]);
        assert(hs.skip(k as int).drop_first() =~= hs.skip(k + 1));
        let name = chars_of(heads[k].name.as_str());
        let n = name.len();
        assert(name@.subrange(0, n as int) =~= name@);
        if prefix_at(&name, 0, n, &prefix) && n > prefix.len() {
            assert(name@.skip(11) =~= name@.subrange(11, n as int));
            return Some(string_range(&name, prefix.len(), n));
        }
        k = k + 1;
    }
    assert(hs.skip(k as int).len() == 0);
    None
}

} // verus!
