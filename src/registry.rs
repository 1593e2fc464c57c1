//! The patch registry: an ordered collection of patches keyed by their
//! normalized local path.
use vstd::prelude::*;

use crate::error::CrossError;
use crate::paths::{lemma_normalize_idempotent, normalize, normalize_path, owns, path_owns};
use crate::text::chars_of;

verus! {

/// A vendoring mapping from a remote branch subtree to a local directory.
#[derive(Debug, Clone)]
pub struct Patch {
    /// Short fingerprint of (remote, branch, remote path).
    pub id: String,
    pub remote: String,
    pub remote_path: String,
    /// Destination directory relative to the host repository root.
    pub local_path: String,
    /// The isolated working copy serving this (remote, branch, remote path).
    pub worktree: String,
    pub branch: String,
}

/// The abstract content of a [`Patch`].
pub struct PatchModel {
    pub id: Seq<char>,
    pub remote: Seq<char>,
    pub remote_path: Seq<char>,
    pub local_path: Seq<char>,
    pub worktree: Seq<char>,
    pub branch: Seq<char>,
}

impl View for Patch {
    type V = PatchModel;

    open spec fn view(&self) -> PatchModel {
        PatchModel {
            id: self.id@,
            remote: self.remote@,
            remote_path: self.remote_path@,
            local_path: self.local_path@,
            worktree: self.worktree@,
            branch: self.branch@,
        }
    }
}

/// `m` with its local path replaced by `l`.
pub open spec fn with_local(m: PatchModel, l: Seq<char>) -> PatchModel {
    PatchModel { local_path: l, ..m }
}

/// A registry's entries are well formed: every local path is non-empty and
/// normalized, and no two entries share one.
pub open spec fn registry_ok(s: Seq<PatchModel>) -> bool {
    &&& forall|i: int|
        0 <= i < s.len() ==> (#[trigger] s[i]).local_path.len() > 0 && normalize(s[i].local_path)
            == s[i].local_path
    &&& forall|i: int, j: int|
        0 <= i < s.len() && 0 <= j < s.len() && i != j ==> (#[trigger] s[i]).local_path != (
        #[trigger] s[j]).local_path
}

/// Some entry has local path `key`.
pub open spec fn has_local(s: Seq<PatchModel>, key: Seq<char>) -> bool {
    exists|i: int| 0 <= i < s.len() && (#[trigger] s[i]).local_path == key
}

/// Registering `p` (whose local path is already normalized): the entry with
/// the same local path is replaced in place, or `p` is appended.
pub open spec fn spec_upsert(s: Seq<PatchModel>, p: PatchModel) -> Seq<PatchModel> {
    if has_local(s, p.local_path) {
        let i = choose|i: int| 0 <= i < s.len() && (#[trigger] s[i]).local_path == p.local_path;
        s.update(i, p)
    } else {
        s.push(p)
    }
}

/// Entry `i` is the most specific owner of `key`: it owns `key` and no
/// owner of `key` has a longer local path.
pub open spec fn best_owner(s: Seq<PatchModel>, key: Seq<char>, i: int) -> bool {
    &&& 0 <= i < s.len()
    &&& owns(s[i].local_path, key)
    &&& forall|j: int|
        0 <= j < s.len() && owns(#[trigger] s[j].local_path, key) ==> s[j].local_path.len()
            <= s[i].local_path.len()
}

/// In a well-formed registry, the entry holding a local path is unique.
pub proof fn lemma_local_unique(s: Seq<PatchModel>, i: int, j: int)
    requires
        registry_ok(s),
        0 <= i < s.len(),
        0 <= j < s.len(),
        s[i].local_path == s[j].local_path,
    ensures
        i == j,
{
}

/// In a well-formed registry at most one entry is the most specific owner of
/// a path, so resolving a nested path has a single answer: with patches at
/// `a/b` and `a/b/c`, only the `a/b/c` entry owns `a/b/c/d.txt` most
/// specifically.
pub proof fn lemma_best_owner_unique(s: Seq<PatchModel>, key: Seq<char>, i: int, j: int)
    requires
        registry_ok(s),
        best_owner(s, key, i),
        best_owner(s, key, j),
    ensures
        i == j,
{
    let a = s[i].local_path;
    let b = s[j].local_path;
    assert(a.len() == b.len());
    if a != key {
        assert(key.take(a.len() as int) == a);
    }
    if b != key {
        assert(key.take(b.len() as int) == b);
    }
    assert(a == b) by {
        if a == key && b != key {
            assert(b.len() < key.len());
        } else if b == key && a != key {
            assert(a.len() < key.len());
        }
    }
}

/// Registering a patch keeps the registry well formed: no two entries ever
/// share a normalized local path.
pub proof fn lemma_upsert_keeps_registry_ok(s: Seq<PatchModel>, p: PatchModel)
    requires
        registry_ok(s),
        p.local_path.len() > 0,
        normalize(p.local_path) == p.local_path,
    ensures
        registry_ok(spec_upsert(s, p)),
        spec_upsert(s, p).len() == if has_local(s, p.local_path) {
            s.len()
        } else {
            s.len() + 1
        },
{
    let t = spec_upsert(s, p);
    if has_local(s, p.local_path) {
        let i = choose|i: int| 0 <= i < s.len() && (#[trigger] s[i]).local_path == p.local_path;
        assert forall|a: int, b: int|
            0 <= a < t.len() && 0 <= b < t.len() && a != b implies (#[trigger] t[a]).local_path
            != (#[trigger] t[b]).local_path by {
            if a != i && b != i {
                assert(s[a].local_path != s[b].local_path);
            } else if a == i {
                assert(s[b].local_path != s[i].local_path);
            } else {
                assert(s[a].local_path != s[i].local_path);
            }
        }
    } else {
        assert forall|a: int, b: int|
            0 <= a < t.len() && 0 <= b < t.len() && a != b implies (#[trigger] t[a]).local_path
            != (#[trigger] t[b]).local_path by {
            if a < s.len() && b < s.len() {
                assert(s[a].local_path != s[b].local_path);
            } else if a == s.len() {
                assert(t[b] == s[b]);
            } else {
                assert(t[a] == s[a]);
            }
        }
    }
}

/// Registering two patches with the same local path, one after the other,
/// leaves exactly one entry at that path, and it holds the second patch.
pub proof fn lemma_repatch_single_entry(s: Seq<PatchModel>, a: PatchModel, b: PatchModel)
    requires
        registry_ok(s),
        a.local_path.len() > 0,
        normalize(a.local_path) == a.local_path,
        b.local_path == a.local_path,
    ensures
        ({
            let t = spec_upsert(spec_upsert(s, a), b);
            &&& registry_ok(t)
            &&& exists|i: int| 0 <= i < t.len() && t[i] == b
            &&& forall|i: int, j: int|
                0 <= i < t.len() && 0 <= j < t.len() && t[i].local_path == a.local_path
                    && t[j].local_path == a.local_path ==> i == j
        }),
{
    let m = spec_upsert(s, a);
    lemma_upsert_keeps_registry_ok(s, a);
    lemma_upsert_keeps_registry_ok(m, b);
    let t = spec_upsert(m, b);
    if has_local(s, a.local_path) {
        let i = choose|i: int| 0 <= i < s.len() && (#[trigger] s[i]).local_path == a.local_path;
        assert(m[i].local_path == a.local_path);
    } else {
        assert(m[s.len() as int].local_path == a.local_path);
    }
    assert(has_local(m, b.local_path));
    let k = choose|k: int| 0 <= k < m.len() && (#[trigger] m[k]).local_path == b.local_path;
    assert(t[k] == b);
}

/// The persistent collection of patches, in registration order.
pub struct PatchRegistry {
    patches: Vec<Patch>,
}

impl View for PatchRegistry {
    type V = Seq<PatchModel>;

    closed spec fn view(&self) -> Seq<PatchModel> {
        self.patches@.map_values(|p: Patch| p@)
    }
}

impl PatchRegistry {
    /// The registry is well formed.
    pub open spec fn wf(&self) -> bool {
        registry_ok(self@)
    }

    /// An empty registry (what loading yields when nothing was persisted).
    pub fn new() -> (r: PatchRegistry)
        ensures
            r@ == Seq::<PatchModel>::empty(),
            r.wf(),
    {
        let r = PatchRegistry { patches: Vec::new() };
        assert(r@ =~= Seq::<PatchModel>::empty());
        r
    }

    /// Rebuilds a registry from persisted entries; entries that are not well
    /// formed make the document corrupt.
    pub fn from_entries(entries: Vec<Patch>) -> (r: Result<PatchRegistry, CrossError>)
        ensures
            registry_ok(entries@.map_values(|p: Patch| p@)) <==> r is Ok,
            r is Ok ==> r->Ok_0@ == entries@.map_values(|p: Patch| p@) && r->Ok_0.wf(),
            r is Err ==> r->Err_0 == CrossError::CorruptRegistry,
    {
        let ghost s = entries@.map_values(|p: Patch| p@);
        let mut i: usize = 0;
        while i < entries.len()
            invariant
                i <= entries.len(),
                s == entries@.map_values(|p: Patch| p@),
                forall|a: int|
                    0 <= a < i ==> (#[trigger] s[a]).local_path.len() > 0 && normalize(
                        s[a].local_path,
                    ) == s[a].local_path,
                forall|a: int, b: int|
                    0 <= a < i && 0 <= b < s.len() && a != b ==> (#[trigger] s[a]).local_path != (
                    #[trigger] s[b]).local_path,
            decreases entries.len() - i,
        {
            let l = &entries[i].local_path;
            let n = normalize_path(l.as_str());
            if l.as_str().is_empty() || n != *l {
                assert(s[i as int].local_path == l@);
                return Err(CrossError::CorruptRegistry);
            }
            let mut j: usize = 0;
            while j < entries.len()
                invariant
                    i < entries.len(),
                    j <= entries.len(),
                    s == entries@.map_values(|p: Patch| p@),
                    l@ == s[i as int].local_path,
                    forall|b: int| 0 <= b < j && b != i ==> (#[trigger] s[b]).local_path != l@,
                decreases entries.len() - j,
            {
                if j != i && entries[j].local_path == *l {
                    assert(s[j as int].local_path == l@);
                    return Err(CrossError::CorruptRegistry);
                }
                j = j + 1;
            }
            i = i + 1;
        }
        Ok(PatchRegistry { patches: entries })
    }

    /// The entries, for persisting.
    pub fn into_entries(self) -> (r: Vec<Patch>)
        ensures
            r@.map_values(|p: Patch| p@) == self@,
    {
        self.patches
    }

    pub fn len(&self) -> (r: usize)
        ensures
            r == self@.len(),
    {
        self.patches.len()
    }

    pub fn get(&self, i: usize) -> (r: &Patch)
        requires
            i < self@.len(),
        ensures
            r@ == self@[i as int],
    {
        &self.patches[i]
    }

    fn find_local(&self, key: &String) -> (r: Option<usize>)
        ensures
            match r {
                Some(i) => i < self@.len() && self@[i as int].local_path == key@,
                None => !has_local(self@, key@),
            },
    {
        let mut i: usize = 0;
        while i < self.patches.len()
            invariant
                i <= self.patches.len(),
                forall|a: int| 0 <= a < i ==> (#[trigger] self@[a]).local_path != key@,
            decreases self.patches.len() - i,
        {
            if self.patches[i].local_path == *key {
                return Some(i);
            }
            i = i + 1;
        }
        None
    }

    /// The entry whose local path equals `path` once both are normalized.
    pub fn find_exact(&self, path: &str) -> (r: Option<usize>)
        ensures
            match r {
                Some(i) => i < self@.len() && self@[i as int].local_path == normalize(path@),
                None => !has_local(self@, normalize(path@)),
            },
    {
        let key = normalize_path(path);
        self.find_local(&key)
    }

    /// The entry owning `path` with the longest local path: the most specific
    /// patch owns a nested file or directory.
    pub fn find_by_prefix(&self, path: &str) -> (r: Option<usize>)
        ensures
            match r {
                Some(i) => best_owner(self@, normalize(path@), i as int),
                None => forall|j: int|
                    0 <= j < self@.len() ==> !owns(#[trigger] self@[j].local_path, normalize(path@)),
            },
    {
        let key_s = normalize_path(path);
        let key = chars_of(key_s.as_str());
        let mut best: Option<usize> = None;
        let mut best_len: usize = 0;
        let mut i: usize = 0;
        while i < self.patches.len()
            invariant
                i <= self.patches.len(),
                key@ == normalize(path@),
                match best {
                    Some(b) => b < i && owns(self@[b as int].local_path, key@)
                        && best_len == self@[b as int].local_path.len() && forall|j: int|
                        0 <= j < i && owns(#[trigger] self@[j].local_path, key@)
                            ==> self@[j].local_path.len() <= best_len,
                    None => forall|j: int|
                        0 <= j < i ==> !owns(#[trigger] self@[j].local_path, key@),
                },
            decreases self.patches.len() - i,
        {
            let owner = chars_of(self.patches[i].local_path.as_str());
            if path_owns(&owner, &key) {
                match best {
                    Some(_) => {
                        if owner.len() > best_len {
                            best = Some(i);
                            best_len = owner.len();
                        }
                    },
                    None => {
                        best = Some(i);
                        best_len = owner.len();
                    },
                }
            }
            i = i + 1;
        }
        best
    }

    /// Registers `patch` under its normalized local path: an entry with that
    /// path is updated in place, otherwise the patch is appended.
    pub fn upsert(&mut self, patch: Patch)
        requires
            old(self).wf(),
            normalize(patch.local_path@).len() > 0,
        ensures
            final(self)@ == spec_upsert(
                old(self)@,
                with_local(patch@, normalize(patch.local_path@)),
            ),
            final(self).wf(),
    {
        let ghost s = self@;
        let key = normalize_path(patch.local_path.as_str());
        let p = Patch { local_path: key, ..patch };
        let ghost pm = with_local(patch@, normalize(patch.local_path@));
        assert(p@ == pm);
        proof {
            lemma_normalize_idempotent(patch.local_path@);
            lemma_upsert_keeps_registry_ok(s, pm);
        }
        match self.find_local(&p.local_path) {
            Some(i) => {
                proof {
                    let c = choose|c: int|
                        0 <= c < s.len() && (#[trigger] s[c]).local_path == pm.local_path;
                    lemma_local_unique(s, c, i as int);
                }
                self.patches.set(i, p);
                assert(self@ =~= s.update(i as int, pm));
            },
            None => {
                self.patches.push(p);
                assert(self@ =~= s.push(pm));
            },
        }
    }

    /// Removes the entry whose local path equals `path` once normalized.
    pub fn remove(&mut self, path: &str) -> (r: Result<Patch, CrossError>)
        requires
            old(self).wf(),
        ensures
            final(self).wf(),
            has_local(old(self)@, normalize(path@)) <==> r is Ok,
            r is Err ==> r->Err_0 == CrossError::PatchNotFound && final(self)@ == old(self)@,
            forall|i: int|
                0 <= i < old(self)@.len() && (#[trigger] old(self)@[i]).local_path == normalize(
                    path@,
                ) ==> r is Ok && r->Ok_0@ == old(self)@[i] && final(self)@ == old(self)@.remove(i),
    {
        let ghost s = self@;
        match self.find_exact(path) {
            Some(i) => {
                let p = self.patches.remove(i);
                assert(self@ =~= s.remove(i as int));
                proof {
                    assert forall|a: int|
                        0 <= a < s.len() && (#[trigger] s[a]).local_path == normalize(
                            path@,
                        ) implies a == i by {
                        lemma_local_unique(s, a, i as int);
                    }
                    let t = s.remove(i as int);
                    assert forall|a: int, b: int|
                        0 <= a < t.len() && 0 <= b < t.len() && a != b implies (
                        #[trigger] t[a]).local_path != (#[trigger] t[b]).local_path by {
                        let a2 = if a < i { a } else { a + 1 };
                        let b2 = if b < i { b } else { b + 1 };
                        assert(t[a] == s[a2] && t[b] == s[b2]);
                    }
                    assert forall|a: int| 0 <= a < t.len() implies (#[trigger] t[a]).local_path.len()
                        > 0 && normalize(t[a].local_path) == t[a].local_path by {
                        let a2 = if a < i { a } else { a + 1 };
                        assert(t[a] == s[a2]);
                    }
                }
                Ok(p)
            },
            None => Err(CrossError::PatchNotFound),
        }
    }

    /// The entries a sync covers: all of them, in order, for an empty path;
    /// otherwise the entry owning `path` most specifically, if any.
    pub fn select_for_sync(&self, path: &str) -> (r: Vec<usize>)
        requires
            self.wf(),
        ensures
            path@.len() == 0 ==> r@ == Seq::new(self@.len(), |i: int| i as usize),
            path@.len() > 0 ==> (match self.owner_spec(path@) {
                Some(i) => r@ == seq![i as usize],
                None => r@ == Seq::<usize>::empty(),
            }),
    {
        let mut r: Vec<usize> = Vec::new();
        if path.is_empty() {
            let mut i: usize = 0;
            while i < self.patches.len()
                invariant
                    i <= self.patches.len(),
                    self@.len() == self.patches.len(),
                    r@ == Seq::new(i as nat, |k: int| k as usize),
                decreases self.patches.len() - i,
            {
                r.push(i);
                assert(r@ =~= Seq::new((i + 1) as nat, |k: int| k as usize));
                i = i + 1;
            }
        } else {
            if let Some(i) = self.find_owner(path) {
                r.push(i);
            }
        }
        r
    }

    /// The index of the entry owning `path` (normalized) most specifically,
    /// if any: the one [`find_by_prefix`](Self::find_by_prefix) returns.
    pub open spec fn owner_spec(&self, path: Seq<char>) -> Option<int> {
        if exists|i: int| best_owner(self@, normalize(path), i) {
            Some(choose|i: int| best_owner(self@, normalize(path), i))
        } else {
            None
        }
    }

    fn find_owner(&self, path: &str) -> (r: Option<usize>)
        requires
            self.wf(),
        ensures
            match self.owner_spec(path@) {
                Some(i) => r == Some(i as usize),
                None => r is None,
            },
    {
        let r = self.find_by_prefix(path);
        proof {
            let key = normalize(path@);
            match r {
                Some(i) => {
                    let c = choose|c: int| best_owner(self@, key, c);
                    lemma_best_owner_unique(self@, key, c, i as int);
                },
                None => {
                    assert(!exists|i: int| best_owner(self@, key, i));
                },
            }
        }
        r
    }

    /// The patch a push acts on: the first entry for an empty path, otherwise
    /// the entry owning `path` most specifically.
    pub fn resolve_push_target(&self, path: &str) -> (r: Result<usize, CrossError>)
        requires
            self.wf(),
        ensures
            path@.len() == 0 ==> (if self@.len() > 0 {
                r == Ok::<usize, CrossError>(0)
            } else {
                r == Err::<usize, CrossError>(CrossError::PatchNotFound)
            }),
            path@.len() > 0 ==> (match self.owner_spec(path@) {
                Some(i) => r == Ok::<usize, CrossError>(i as usize),
                None => r == Err::<usize, CrossError>(CrossError::PatchNotFound),
            }),
    {
        if path.is_empty() {
            if self.patches.len() > 0 {
                Ok(0)
            } else {
                Err(CrossError::PatchNotFound)
            }
        } else {
            match self.find_owner(path) {
                Some(i) => {
                    Ok(i)
                },
                None => Err(CrossError::PatchNotFound),
            }
        }
    }
}

} // verus!
