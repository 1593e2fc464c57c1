use git_cross::error::CrossError;
use git_cross::patch_spec::{canonical_spec, parse_patch_spec};

#[test]
fn parse_two_parts_has_no_branch() {
    let s = parse_patch_spec("origin:lib/shared").unwrap();
    assert_eq!(s.remote, "origin");
    assert_eq!(s.remote_path, "lib/shared");
    assert_eq!(s.branch, None);
    assert!(!s.branch_provided);
}

#[test]
fn parse_three_parts_reads_branch() {
    let s = parse_patch_spec("origin:main:pkg/a").unwrap();
    assert_eq!(s.remote, "origin");
    assert_eq!(s.branch.as_deref(), Some("main"));
    assert_eq!(s.remote_path, "pkg/a");
    assert!(s.branch_provided);
}

#[test]
fn parse_empty_middle_means_no_branch() {
    let s = parse_patch_spec("origin::pkg/a").unwrap();
    assert_eq!(s.branch, None);
    assert!(!s.branch_provided);
    assert_eq!(s.remote_path, "pkg/a");
}

#[test]
fn parse_rejoins_colons_in_remote_path() {
    let s = parse_patch_spec("r:dev:x:y:z/").unwrap();
    assert_eq!(s.branch.as_deref(), Some("dev"));
    assert_eq!(s.remote_path, "x:y:z");
    let t = parse_patch_spec("r::a:b").unwrap();
    assert_eq!(t.branch, None);
    assert_eq!(t.remote_path, "a:b");
}

#[test]
fn parse_trims_slashes() {
    let s = parse_patch_spec("khue://metal//").unwrap();
    assert_eq!(s.remote, "khue");
    assert_eq!(s.remote_path, "metal");
}

#[test]
fn parse_rejects_bad_specs() {
    assert_eq!(parse_patch_spec("nocolon").err(), Some(CrossError::InvalidSpec));
    assert_eq!(parse_patch_spec("").err(), Some(CrossError::InvalidSpec));
    assert_eq!(parse_patch_spec("r:///").err(), Some(CrossError::InvalidSpec));
    assert_eq!(parse_patch_spec("r:main:").err(), Some(CrossError::InvalidSpec));
}

#[test]
fn canonical_forms() {
    let s = parse_patch_spec("origin:/lib/").unwrap();
    assert_eq!(canonical_spec(&s), "origin:lib");
    let t = parse_patch_spec("origin:main:pkg/a/").unwrap();
    assert_eq!(canonical_spec(&t), "origin:main:pkg/a");
    let u = parse_patch_spec("core:asciinema").unwrap().with_branch("dev".to_string());
    assert_eq!(canonical_spec(&u), "core:dev:asciinema");
    assert!(!u.branch_provided);
}

#[test]
fn canonical_reparse_is_fixed_point() {
    for text in ["origin:/lib/shared/", "a:b:c:d", "bill:setup/flux", "x::y/"] {
        let first = parse_patch_spec(text).unwrap();
        let again = parse_patch_spec(&canonical_spec(&first)).unwrap();
        assert_eq!(again.remote, first.remote);
        assert_eq!(again.branch, first.branch);
        assert_eq!(again.remote_path, first.remote_path);
        assert_eq!(again.branch_provided, first.branch_provided);
        assert_eq!(canonical_spec(&again), canonical_spec(&first));
    }
}

#[test]
fn canonical_without_branch_rereads_colon_path_as_branch() {
    let first = parse_patch_spec("r::a:b").unwrap();
    let again = parse_patch_spec(&canonical_spec(&first)).unwrap();
    assert_eq!(again.branch.as_deref(), Some("a"));
    assert_eq!(again.remote_path, "b");
}
