use std::collections::hash_map::DefaultHasher;
use std::hash::{Hash, Hasher};

use git_cross::error::CrossError;
use git_cross::patch_spec::{canonical_spec, parse_patch_spec};
use git_cross::paths::{final_segment, normalize_path};
use git_cross::registry::{Patch, PatchRegistry};
use git_cross::worktree::{patch_for_hash, patch_id, plan_patch, worktree_dir};

fn patch(local: &str, remote_path: &str) -> Patch {
    Patch {
        id: "00000000".to_string(),
        remote: "origin".to_string(),
        remote_path: remote_path.to_string(),
        local_path: local.to_string(),
        worktree: ".git/cross/worktrees/origin_00000000".to_string(),
        branch: "main".to_string(),
    }
}

#[test]
fn normalize_examples() {
    assert_eq!(normalize_path("./a/b/"), "a/b");
    assert_eq!(normalize_path("a\\b\\c"), "a/b/c");
    assert_eq!(normalize_path("/x//"), "x");
    assert_eq!(normalize_path("././y"), "y");
    assert_eq!(normalize_path("./"), "");
    assert_eq!(normalize_path("."), ".");
    assert_eq!(final_segment("lib/shared"), "shared");
    assert_eq!(final_segment("single"), "single");
}

#[test]
fn repatch_same_local_path_keeps_one_entry() {
    let mut r = PatchRegistry::new();
    r.upsert(patch("vendor/lib", "lib"));
    let mut second = patch("vendor/lib", "lib2");
    second.branch = "dev".to_string();
    r.upsert(second);
    assert_eq!(r.len(), 1);
    assert_eq!(r.get(0).remote_path, "lib2");
    assert_eq!(r.get(0).branch, "dev");
}

#[test]
fn equal_normalized_paths_share_one_entry() {
    let mut r = PatchRegistry::new();
    r.upsert(patch("./a/b/", "one"));
    r.upsert(patch("a\\b", "two"));
    r.upsert(patch("c", "three"));
    assert_eq!(r.len(), 2);
    assert_eq!(r.get(0).local_path, "a/b");
    assert_eq!(r.get(0).remote_path, "two");
    assert_eq!(r.get(1).local_path, "c");
}

#[test]
fn longest_prefix_wins() {
    let mut r = PatchRegistry::new();
    r.upsert(patch("a/b", "x"));
    r.upsert(patch("a/b/c", "y"));
    assert_eq!(r.find_by_prefix("a/b/c/d.txt"), Some(1));
    assert_eq!(r.find_by_prefix("a/b/d.txt"), Some(0));
    assert_eq!(r.find_by_prefix("a/b"), Some(0));
    assert_eq!(r.find_by_prefix("a/bc"), None);
    assert_eq!(r.find_by_prefix("q"), None);
}

#[test]
fn exact_lookup_and_remove() {
    let mut r = PatchRegistry::new();
    r.upsert(patch("deploy/metal", "metal"));
    r.upsert(patch("deploy/flux", "setup/flux"));
    assert_eq!(r.find_exact("./deploy/flux/"), Some(1));
    assert_eq!(r.find_exact("deploy"), None);
    assert_eq!(r.remove("deploy/none").err(), Some(CrossError::PatchNotFound));
    let gone = r.remove("deploy/metal/").unwrap();
    assert_eq!(gone.remote_path, "metal");
    assert_eq!(r.len(), 1);
    assert_eq!(r.get(0).local_path, "deploy/flux");
}

#[test]
fn sync_and_push_selection() {
    let mut r = PatchRegistry::new();
    assert_eq!(r.resolve_push_target("").err(), Some(CrossError::PatchNotFound));
    r.upsert(patch("a", "x"));
    r.upsert(patch("b", "y"));
    assert_eq!(r.select_for_sync(""), vec![0, 1]);
    assert_eq!(r.select_for_sync("b/"), vec![1]);
    assert_eq!(r.select_for_sync("zzz"), Vec::<usize>::new());
    assert_eq!(r.resolve_push_target(""), Ok(0));
    assert_eq!(r.resolve_push_target("./b"), Ok(1));
    assert_eq!(r.resolve_push_target("c"), Err(CrossError::PatchNotFound));
}

#[test]
fn nested_paths_resolve_to_their_owner() {
    let mut r = PatchRegistry::new();
    r.upsert(patch("a/b", "x"));
    r.upsert(patch("a/b/c", "y"));
    assert_eq!(r.select_for_sync("a/b/c/d.txt"), vec![1]);
    assert_eq!(r.select_for_sync("./a/b/e/"), vec![0]);
    assert_eq!(r.select_for_sync("a/bc"), Vec::<usize>::new());
    assert_eq!(r.resolve_push_target("a/b/c/d.txt"), Ok(1));
    assert_eq!(r.resolve_push_target("a/b"), Ok(0));
    assert_eq!(r.resolve_push_target("a"), Err(CrossError::PatchNotFound));
}

#[test]
fn persisted_entries_are_checked() {
    let ok = PatchRegistry::from_entries(vec![patch("a", "x"), patch("b", "y")]).unwrap();
    assert_eq!(ok.len(), 2);
    assert_eq!(ok.into_entries().len(), 2);
    let dup = PatchRegistry::from_entries(vec![patch("a", "x"), patch("a", "y")]);
    assert_eq!(dup.err(), Some(CrossError::CorruptRegistry));
    let raw = PatchRegistry::from_entries(vec![patch("./a/", "x")]);
    assert_eq!(raw.err(), Some(CrossError::CorruptRegistry));
    let empty = PatchRegistry::from_entries(vec![patch("", "x")]);
    assert_eq!(empty.err(), Some(CrossError::CorruptRegistry));
}

#[test]
fn worktree_names() {
    assert_eq!(patch_id(0x0123_4567_89ab_cdef), "01234567");
    assert_eq!(patch_id(0xfff), "00000000");
    assert_eq!(patch_id(u64::MAX), "ffffffff");
    assert_eq!(worktree_dir("origin", 0xdead_beef_0000_0001), ".git/cross/worktrees/origin_deadbeef");
}

fn default_hash(canonical: &str, branch: &str) -> u64 {
    let mut h = DefaultHasher::new();
    canonical.to_string().hash(&mut h);
    branch.to_string().hash(&mut h);
    h.finish()
}

#[test]
fn patch_without_local_path_uses_final_segment() {
    let mut r = PatchRegistry::new();
    let spec = parse_patch_spec("origin:lib/shared").unwrap().with_branch("main".to_string());
    let p = plan_patch(&spec, None).unwrap();
    assert_eq!(p.local_path, "shared");
    assert_eq!(p.remote_path, "lib/shared");
    assert_eq!(p.branch, "main");
    let h = default_hash(&canonical_spec(&spec), "main");
    assert_eq!(p.id, patch_id(h));
    assert_eq!(p.worktree, worktree_dir("origin", h));
    r.upsert(p);
    assert_eq!(r.len(), 1);
    assert_eq!(r.get(0).local_path, "shared");
}

#[test]
fn different_remote_paths_get_different_worktrees() {
    let a = parse_patch_spec("origin:main:pkg/a").unwrap();
    let b = parse_patch_spec("origin:main:pkg/b").unwrap();
    let pa = plan_patch(&a, Some("x")).unwrap();
    let pb = plan_patch(&b, Some("y")).unwrap();
    assert_ne!(pa.worktree, pb.worktree);
    let mut r = PatchRegistry::new();
    r.upsert(pa);
    r.upsert(pb);
    assert_eq!(r.len(), 2);
}

#[test]
fn same_spec_shares_worktree() {
    let a = parse_patch_spec("origin:main:pkg/a").unwrap();
    let p1 = plan_patch(&a, Some("x")).unwrap();
    let p2 = plan_patch(&a, Some("z")).unwrap();
    assert_eq!(p1.worktree, p2.worktree);
    assert_ne!(p1.local_path, p2.local_path);
}

#[test]
fn plan_rejects_empty_local_path() {
    let a = parse_patch_spec("origin:pkg").unwrap();
    assert_eq!(plan_patch(&a, Some("./")).err(), Some(CrossError::InvalidSpec));
    let p = patch_for_hash(&a, Some("./vendor/pkg/"), 0x1234_5678_0000_0000).unwrap();
    assert_eq!(p.local_path, "vendor/pkg");
    assert_eq!(p.branch, "main");
    assert_eq!(p.id, "12345678");
    assert_eq!(p.worktree, ".git/cross/worktrees/origin_12345678");
}

#[test]
fn unknown_remote_is_refused() {
    let spec = parse_patch_spec("ghost:lib").unwrap();
    assert_eq!(git_cross::worktree::require_remote(spec, false).err(), Some(CrossError::RemoteNotFound));
    let spec = parse_patch_spec("origin:main:lib").unwrap();
    let kept = git_cross::worktree::require_remote(spec, true).unwrap();
    assert_eq!(kept.remote, "origin");
    assert_eq!(kept.branch.as_deref(), Some("main"));
}
