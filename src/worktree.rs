//! Naming of worktrees and construction of the patch a `patch` command
//! registers.
use vstd::prelude::*;

use crate::error::CrossError;
use crate::patch_spec::{canonical_of, canonical_spec, PatchSpec, SpecModel};
use crate::paths::{final_segment, last_segment, normalize, normalize_path};
use crate::registry::{Patch, PatchModel};

verus! {

/// What std's `DefaultHasher` yields for a canonical spec followed by a branch name.
pub uninterp spec fn spec_hash(canonical: Seq<char>, branch: Seq<char>) -> u64;

/// Relies on std's `DefaultHasher::new` (a hasher with fixed keys, unlike a
/// `RandomState` one): for a given std, hashing the canonical spec and then
/// the branch name yields a value that depends on the two strings alone.
#[verifier::external_body]
fn content_hash(canonical: &str, branch: &str) -> (r: u64)
    ensures
        r == spec_hash(canonical@, branch@),
{
    let mut hasher = std::collections::hash_map::DefaultHasher::new();
    std::hash::Hash::hash(canonical, &mut hasher);
    std::hash::Hash::hash(branch, &mut hasher);
    std::hash::Hasher::finish(&hasher)
}

/// The lowercase hexadecimal digit of `d` (for `d < 16`).
pub open spec fn hex_digit(d: int) -> char {
    if d == 0 { '0' } else if d == 1 { '1' } else if d == 2 { '2' } else if d == 3 { '3' }
    else if d == 4 { '4' } else if d == 5 { '5' } else if d == 6 { '6' } else if d == 7 { '7' }
    else if d == 8 { '8' } else if d == 9 { '9' } else if d == 10 { 'a' } else if d == 11 { 'b' }
    else if d == 12 { 'c' } else if d == 13 { 'd' } else if d == 14 { 'e' } else { 'f' }
}

/// The lowest `n` hexadecimal digits of `v`, most significant first,
/// zero-padded.
pub open spec fn hex_fixed(v: nat, n: nat) -> Seq<char>
    decreases n,
{
    if n == 0 {
        Seq::empty()
    } else {
        hex_fixed(v / 16, (n - 1) as nat).push(hex_digit((v % 16) as int))
    }
}

/// The short fingerprint taken from a 64-bit hash: the first eight of its
/// sixteen zero-padded hexadecimal digits.
pub open spec fn id_of(h: u64) -> Seq<char> {
    hex_fixed(h as nat / 0x1_0000_0000, 8)
}

/// Directory under which every worktree lives, relative to the host repository.
pub const WORKTREE_ROOT: &'static str = ".git/cross/worktrees/";

/// The worktree directory for a remote and a spec hash: `<root><remote>_<id>`.
pub open spec fn worktree_of(remote: Seq<char>, h: u64) -> Seq<char> {
    WORKTREE_ROOT@ + remote + seq!['_'] + id_of(h)
}

/// The branch a spec tracks: its own, or `main` when none is known.
pub open spec fn branch_of(m: SpecModel) -> Seq<char> {
    match m.1 {
        Some(b) => b,
        None => seq!['m', 'a', 'i', 'n'],
    }
}

/// The local path a patch lands at: the one given, else the final segment
/// of the remote path; normalized either way.
pub open spec fn target_of(m: SpecModel, local: Option<Seq<char>>) -> Seq<char> {
    normalize(
        match local {
            Some(l) => l,
            None => last_segment(m.2),
        },
    )
}

/// The patch registered for spec `m` at local path `local`, given the hash
/// of its canonical spec and branch.
pub open spec fn plan_model(m: SpecModel, local: Seq<char>, h: u64) -> PatchModel {
    PatchModel {
        id: id_of(h),
        remote: m.0,
        remote_path: m.2,
        local_path: local,
        worktree: worktree_of(m.0, h),
        branch: branch_of(m),
    }
}

/// The hash that names the worktree of spec `m`.
pub open spec fn hash_of(m: SpecModel) -> u64 {
    spec_hash(canonical_of(m), branch_of(m))
}

/// The worktree of a patch is a function of its spec alone: two patches of
/// one spec at different local paths share their worktree.
pub proof fn lemma_worktree_shared(m: SpecModel, l1: Seq<char>, l2: Seq<char>)
    ensures
        plan_model(m, l1, hash_of(m)).worktree == plan_model(m, l2, hash_of(m)).worktree,
        plan_model(m, l1, hash_of(m)).id == plan_model(m, l2, hash_of(m)).id,
{
}

fn hex_char(d: u64) -> (c: char)
    requires
        d < 16,
    ensures
        c == hex_digit(d as int),
{
    if d == 0 { '0' } else if d == 1 { '1' } else if d == 2 { '2' } else if d == 3 { '3' }
    else if d == 4 { '4' } else if d == 5 { '5' } else if d == 6 { '6' } else if d == 7 { '7' }
    else if d == 8 { '8' } else if d == 9 { '9' } else if d == 10 { 'a' } else if d == 11 { 'b' }
    else if d == 12 { 'c' } else if d == 13 { 'd' } else if d == 14 { 'e' } else { 'f' }
}

fn push_hex(v: u64, n: usize, out: &mut Vec<char>)
    ensures
        final(out)@ == old(out)@ + hex_fixed(v as nat, n as nat),
    decreases n,
{
    if n == 0 {
        assert(old(out)@ + hex_fixed(v as nat, 0) =~= old(out)@);
    } else {
        push_hex(v / 16, n - 1, out);
        out.push(hex_char(v % 16));
        assert(final(out)@ =~= old(out)@ + hex_fixed(v as nat, n as nat));
    }
}

/// The short fingerprint of a spec hash (see [`id_of`]).
pub fn patch_id(h: u64) -> (r: String)
    ensures
        r@ == id_of(h),
{
    let mut out: Vec<char> = Vec::new();
    push_hex(h / 0x1_0000_0000, 8, &mut out);
    assert(out@ =~= id_of(h));
    crate::text::string_of(out.as_slice())
}

/// The worktree directory of `remote` for a spec hash.
pub fn worktree_dir(remote: &str, h: u64) -> (r: String)
    ensures
        r@ == worktree_of(remote@, h),
{
    proof {
        reveal_strlit("_");
    }
    let id = patch_id(h);
    String::from_str(WORKTREE_ROOT).concat(remote).concat("_").concat(id.as_str())
}

/// The branch name a spec tracks (`main` when it names none).
pub fn spec_branch(spec: &PatchSpec) -> (r: String)
    ensures
        r@ == branch_of(spec@),
{
    proof {
        reveal_strlit("main");
    }
    match &spec.branch {
        Some(b) => b.clone(),
        None => String::from_str("main"),
    }
}

/// A `patch` command may only name a registered remote: the spec comes back
/// unchanged when its remote is known, `RemoteNotFound` otherwise.
pub fn require_remote(spec: PatchSpec, remote_known: bool) -> (r: Result<PatchSpec, CrossError>)
    ensures
        remote_known ==> r is Ok && r->Ok_0@ == spec@ && r->Ok_0.branch_provided
            == spec.branch_provided,
        !remote_known ==> r == Err::<PatchSpec, CrossError>(CrossError::RemoteNotFound),
{
    if remote_known {
        Ok(spec)
    } else {
        Err(CrossError::RemoteNotFound)
    }
}

/// The patch to register for `spec` at `local_path` (or at the final segment
/// of the remote path), given the hash of the canonical spec and branch.
/// Fails with `InvalidSpec` when the local path normalizes to nothing.
pub fn patch_for_hash(spec: &PatchSpec, local_path: Option<&str>, h: u64) -> (r: Result<
    Patch,
    CrossError,
>)
    ensures
        ({
            let local = target_of(
                spec@,
                match local_path {
                    Some(l) => Some(l@),
                    None => None,
                },
            );
            &&& local.len() == 0 ==> r == Err::<Patch, CrossError>(CrossError::InvalidSpec)
            &&& local.len() > 0 ==> r is Ok && r->Ok_0@ == plan_model(spec@, local, h)
        }),
{
    let local = match local_path {
        Some(l) => normalize_path(l),
        None => {
            let seg = final_segment(spec.remote_path.as_str());
            normalize_path(seg.as_str())
        },
    };
    if local.as_str().is_empty() {
        return Err(CrossError::InvalidSpec);
    }
    let p = Patch {
        id: patch_id(h),
        remote: spec.remote.clone(),
        remote_path: spec.remote_path.clone(),
        local_path: local,
        worktree: worktree_dir(spec.remote.as_str(), h),
        branch: spec_branch(spec),
    };
    Ok(p)
}

/// The patch to register for `spec` at `local_path` (or at the final segment
/// of the remote path); its worktree is named by hashing the canonical spec
/// and the branch. Fails with `InvalidSpec` when the local path normalizes to
/// nothing.
pub fn plan_patch(spec: &PatchSpec, local_path: Option<&str>) -> (r: Result<Patch, CrossError>)
    ensures
        ({
            let local = target_of(
                spec@,
                match local_path {
                    Some(l) => Some(l@),
                    None => None,
                },
            );
            &&& local.len() == 0 ==> r == Err::<Patch, CrossError>(CrossError::InvalidSpec)
            &&& local.len() > 0 ==> r is Ok && r->Ok_0@ == plan_model(spec@, local, hash_of(spec@))
        }),
{
    let canonical = canonical_spec(spec);
    let branch = spec_branch(spec);
    let h = content_hash(canonical.as_str(), branch.as_str());
    patch_for_hash(spec, local_path, h)
}

} // verus!
