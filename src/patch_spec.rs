//! Source-location specs of the form `remote[:branch]:remote_path`.
use vstd::prelude::*;

use crate::error::CrossError;
use crate::text::{
    char_index, chars_of, find_char_from, lemma_char_index, lemma_char_index_absent,
    lemma_char_index_at, lemma_trim_slashes_id, lemma_trim_slashes_shape, slash_free_ends,
    string_range, trim_slashes, trim_slashes_bounds,
};

verus! {

/// A parsed source location: remote, optional branch, remote path.
pub struct PatchSpec {
    pub remote: String,
    pub remote_path: String,
    pub branch: Option<String>,
    /// Whether the branch was written in the spec (autodetection runs otherwise).
    pub branch_provided: bool,
}

/// The abstract content of a spec: remote, branch, remote path.
pub type SpecModel = (Seq<char>, Option<Seq<char>>, Seq<char>);

pub open spec fn opt_view(o: Option<String>) -> Option<Seq<char>> {
    match o {
        Some(s) => Some(s@),
        None => None,
    }
}

impl View for PatchSpec {
    type V = SpecModel;

    open spec fn view(&self) -> SpecModel {
        (self.remote@, opt_view(self.branch), self.remote_path@)
    }
}

/// The meaning of a spec string. The remote is the text before the first ':'.
/// If the rest holds another ':', the text up to it is the branch (absent when
/// empty) and everything after it, further colons included, is the remote
/// path; otherwise the whole rest is the remote path. The remote path is
/// trimmed of '/' at both ends and must not be empty.
pub open spec fn parse_spec(s: Seq<char>) -> Option<SpecModel> {
    let i = char_index(s, ':');
    if i < 0 {
        None
    } else {
        let remote = s.take(i);
        let rest = s.skip(i + 1);
        let j = char_index(rest, ':');
        let branch = if j <= 0 {
            None
        } else {
            Some(rest.take(j))
        };
        let raw_path = if j < 0 {
            rest
        } else {
            rest.skip(j + 1)
        };
        let path = trim_slashes(raw_path);
        if path.len() == 0 {
            None
        } else {
            Some((remote, branch, path))
        }
    }
}

/// The canonical text of a spec: `remote:branch:path`, or `remote:path`
/// when no branch is known.
pub open spec fn canonical_of(m: SpecModel) -> Seq<char> {
    match m.1 {
        Some(b) => m.0 + seq![':'] + b + seq![':'] + m.2,
        None => m.0 + seq![':'] + m.2,
    }
}

/// A spec model in the shape that parsing produces.
pub open spec fn spec_model_ok(m: SpecModel) -> bool {
    &&& !m.0.contains(':')
    &&& m.2.len() > 0
    &&& slash_free_ends(m.2)
    &&& match m.1 {
        Some(b) => b.len() > 0 && !b.contains(':'),
        None => true,
    }
}

pub proof fn lemma_parse_shape(s: Seq<char>)
    requires
        parse_spec(s) is Some,
    ensures
        spec_model_ok(parse_spec(s)->0),
{
    let i = char_index(s, ':');
    lemma_char_index(s, ':');
    let rest = s.skip(i + 1);
    let j = char_index(rest, ':');
    lemma_char_index(rest, ':');
    let m = parse_spec(s)->0;
    assert(!m.0.contains(':')) by {
        if m.0.contains(':') {
            let w = choose|w: int| 0 <= w < m.0.len() && m.0[w] == ':';
            assert(s[w] == ':');
        }
    }
    if j > 0 {
        let b = rest.take(j);
        assert(!b.contains(':')) by {
            if b.contains(':') {
                let w = choose|w: int| 0 <= w < b.len() && b[w] == ':';
                assert(rest[w] == ':');
            }
        }
    }
    let raw_path = if j < 0 {
        rest
    } else {
        rest.skip(j + 1)
    };
    lemma_trim_slashes_shape(raw_path);
}

/// Parsing the canonical text of a parsed spec yields that same spec, so
/// canonicalization is idempotent. This holds for every spec that names a
/// branch, and for every spec without one whose remote path holds no ':'
/// (without a branch, such a path's first colon would be read as one).
pub proof fn lemma_canonical_reparses(s: Seq<char>)
    requires
        parse_spec(s) is Some,
        (parse_spec(s)->0).1 is None ==> !(parse_spec(s)->0).2.contains(':'),
    ensures
        parse_spec(canonical_of(parse_spec(s)->0)) == parse_spec(s),
{
    let m = parse_spec(s)->0;
    lemma_parse_shape(s);
    let c = canonical_of(m);
    let r = m.0;
    let tail = c.skip(r.len() as int + 1);
    assert(c.take(r.len() as int) =~= r);
    assert forall|j: int| 0 <= j < r.len() implies c[j] != ':' by {
        assert(c[j] == r[j]);
    }
    lemma_char_index_at(c, ':', r.len() as int);
    lemma_trim_slashes_id(m.2);
    match m.1 {
        Some(b) => {
            assert(tail =~= b + seq![':'] + m.2);
            assert forall|j: int| 0 <= j < b.len() implies tail[j] != ':' by {
                assert(tail[j] == b[j]);
            }
            lemma_char_index_at(tail, ':', b.len() as int);
            assert(tail.take(b.len() as int) =~= b);
            assert(tail.skip(b.len() as int + 1) =~= m.2);
        },
        None => {
            assert(tail =~= m.2);
            lemma_char_index_absent(tail, ':');
        },
    }
}

/// Parses `remote[:branch]:remote_path`.
pub fn parse_patch_spec(spec: &str) -> (r: Result<PatchSpec, CrossError>)
    ensures
        match parse_spec(spec@) {
            None => r == Err::<PatchSpec, CrossError>(CrossError::InvalidSpec),
            Some(m) => r is Ok && r->Ok_0@ == m && r->Ok_0.branch_provided == (m.1 is Some),
        },
{
    let v = chars_of(spec);
    let ghost s = v@;
    let i = match find_char_from(&v, ':', 0) {
        Some(i) => i,
        None => {
            assert(s.skip(0) =~= s);
            return Err(CrossError::InvalidSpec);
        },
    };
    assert(s.skip(0) =~= s);
    let ghost rest = s.skip(i + 1);
    let remote = string_range(&v, 0, i);
    assert(s.subrange(0, i as int) =~= s.take(i as int));
    let (branch, path_start) = match find_char_from(&v, ':', i + 1) {
        Some(j) => {
            assert(rest.take(j - i - 1) =~= s.subrange(i + 1, j as int));
            assert(rest.skip(j - i) =~= s.skip(j + 1));
            if j > i + 1 {
                (Some(string_range(&v, i + 1, j)), j + 1)
            } else {
                (None, j + 1)
            }
        },
        None => (None, i + 1),
    };
    let (a, b) = trim_slashes_bounds(&v, path_start, v.len());
    assert(s.subrange(path_start as int, v.len() as int) =~= s.skip(path_start as int));
    if a == b {
        return Err(CrossError::InvalidSpec);
    }
    let remote_path = string_range(&v, a, b);
    let branch_provided = branch.is_some();
    Ok(PatchSpec { remote, remote_path, branch, branch_provided })
}

/// Renders the canonical text of a spec.
pub fn canonical_spec(spec: &PatchSpec) -> (r: String)
    ensures
        r@ == canonical_of(spec@),
{
    proof {
        reveal_strlit(":");
    }
    let head = spec.remote.clone().concat(":");
    match &spec.branch {
        Some(b) => head.concat(b.as_str()).concat(":").concat(spec.remote_path.as_str()),
        None => head.concat(spec.remote_path.as_str()),
    }
}

impl PatchSpec {
    /// The same spec with `branch` as its branch (as after autodetection).
    pub fn with_branch(self, branch: String) -> (r: PatchSpec)
        ensures
            r@ == (self@.0, Some(branch@), self@.2),
            r.branch_provided == self.branch_provided,
    {
        PatchSpec {
            remote: self.remote,
            remote_path: self.remote_path,
            branch: Some(branch),
            branch_provided: self.branch_provided,
        }
    }
}

} // verus!
