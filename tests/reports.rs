use git_cross::crossfile::{
    append_line, command_patch, command_use, contains_line, crossfile_line, crossfile_update,
};
use git_cross::remotes::{
    branch_from_heads, branch_from_listing, branch_from_symref, fallback_branch, remote_url,
    RemoteHead,
};
use git_cross::status::{decimal_string, parse_count, status_row, DiffState, UpstreamState};

#[test]
fn counts_are_read_in_decimal() {
    assert_eq!(parse_count("0"), Some(0));
    assert_eq!(parse_count("42"), Some(42));
    assert_eq!(parse_count("18446744073709551615"), Some(u64::MAX));
    assert_eq!(parse_count("18446744073709551616"), None);
    assert_eq!(parse_count(""), None);
    assert_eq!(parse_count("4a"), None);
    assert_eq!(parse_count("-1"), None);
    assert_eq!(decimal_string(0), "0");
    assert_eq!(decimal_string(1207), "1207");
    assert_eq!(decimal_string(u64::MAX), "18446744073709551615");
}

#[test]
fn status_rows() {
    let missing = status_row("a".to_string(), false, Some(false), Some("3"), None, Some("x"));
    assert_eq!(missing.diff, DiffState::MissingWorktree);
    assert_eq!(missing.upstream, UpstreamState::Synced);
    assert!(!missing.conflicts);
    assert_eq!(missing.diff.label(), "Missing WT");
    let behind = status_row("b".to_string(), true, Some(false), Some("3"), Some("2"), Some(""));
    assert_eq!(behind.path, "b");
    assert_eq!(behind.diff, DiffState::Modified);
    assert_eq!(behind.upstream, UpstreamState::Behind(3));
    assert_eq!(behind.upstream.label(), "3 behind");
    assert_eq!(behind.conflicts_label(), "No");
    let ahead = status_row("c".to_string(), true, Some(true), Some("0"), Some("5"), Some("100644 x 1\tf"));
    assert_eq!(ahead.diff.label(), "Clean");
    assert_eq!(ahead.upstream.label(), "5 ahead");
    assert_eq!(ahead.conflicts_label(), "Yes");
    let failed = status_row("d".to_string(), true, None, None, Some("junk"), None);
    assert_eq!(failed.diff, DiffState::Clean);
    assert_eq!(failed.upstream.label(), "Synced");
    assert!(!failed.conflicts);
}

#[test]
fn command_lines() {
    assert_eq!(command_use("khue", "file:///r/khue.git"), "use khue file:///r/khue.git");
    assert_eq!(command_patch("khue:metal", "deploy/metal"), "patch khue:metal deploy/metal");
    assert_eq!(crossfile_line(&command_use("a", "b")), "cross use a b");
    assert_eq!(remote_url("/repo", "khue"), "file:///repo/test/fixtures/remotes/khue.git");
    assert_eq!(remote_url("/repo/", "bill"), "file:///repo/test/fixtures/remotes/bill.git");
    assert_eq!(remote_url("", "core"), "file://test/fixtures/remotes/core.git");
}

#[test]
fn appended_line_counts_as_recorded() {
    for line in ["cross patch o:lib lib\r", "  cross use a b", "cross use a b"] {
        for content in ["", "x", "x\n", "a\r\nb"] {
            let once = crossfile_update(content, line).unwrap();
            assert_eq!(crossfile_update(&once, line), None);
        }
    }
    assert_eq!(crossfile_update("a\u{3000}\n", "\u{a0}a"), None);
}

#[test]
fn crossfile_records_each_line_once() {
    assert_eq!(crossfile_update("", "cross use a b"), Some("cross use a b\n".to_string()));
    assert_eq!(crossfile_update("# c", "cross use a b"), Some("# c\ncross use a b\n".to_string()));
    assert_eq!(crossfile_update("x\n  cross use a b \r\ny\n", "cross use a b"), None);
    assert_eq!(crossfile_update("x\n", " cross use a b"), Some("x\n cross use a b\n".to_string()));
    assert_eq!(crossfile_update("cross use a bc\n", "cross use a b"), Some("cross use a bc\ncross use a b\n".to_string()));
    assert_eq!(append_line("a\n", "b"), "a\nb\n");
    assert!(contains_line(&vec!["p".to_string(), "q".to_string()], "q"));
    assert!(!contains_line(&vec!["p".to_string()], " p"));
}

#[test]
fn default_branch_from_symref_output() {
    let out = "ref: refs/heads/develop\tHEAD\n4a1b\tHEAD";
    assert_eq!(branch_from_symref(out), Some("develop".to_string()));
    assert_eq!(branch_from_symref("4a1b\tHEAD"), None);
    assert_eq!(branch_from_symref("ref: refs/tags/x\tHEAD"), None);
    assert_eq!(branch_from_symref("ref: refs/heads/x\tnotHEAD\nref: refs/heads/y\tHEAD"), Some("y".to_string()));
    assert_eq!(branch_from_symref("ref: refs/heads/refs/heads/z\tHEAD\textra"), Some("z".to_string()));
    assert_eq!(branch_from_symref("ref: refs/heads/\tHEAD"), None);
    assert_eq!(branch_from_symref("ref: refs/heads/refs/heads/\tHEAD\nref: refs/heads/b\tHEAD"), Some("b".to_string()));
}

#[test]
fn default_branch_from_heads_output() {
    assert_eq!(branch_from_heads("aa\trefs/heads/dev\nbb\trefs/heads/master"), Some("master".to_string()));
    assert_eq!(branch_from_heads("aa\trefs/heads/master\nbb\trefs/heads/main"), Some("main".to_string()));
    assert_eq!(branch_from_heads("aa\trefs/tags/v1\nbb\trefs/heads/topic\n"), Some("topic".to_string()));
    assert_eq!(branch_from_heads("aa\trefs/heads/\n"), None);
    assert_eq!(branch_from_heads(""), None);
    assert_eq!(fallback_branch(false, true), "master");
    assert_eq!(fallback_branch(true, true), "main");
    assert_eq!(fallback_branch(false, false), "main");
}

#[test]
fn default_branch_from_listing() {
    let heads = vec![
        RemoteHead { name: "refs/tags/v1".to_string(), symref_target: None },
        RemoteHead { name: "HEAD".to_string(), symref_target: Some("refs/heads/trunk".to_string()) },
        RemoteHead { name: "refs/heads/alpha".to_string(), symref_target: None },
    ];
    assert_eq!(branch_from_listing(Some("refs/heads/stable"), &heads), Some("stable".to_string()));
    assert_eq!(branch_from_listing(Some("refs/heads/"), &heads), Some("trunk".to_string()));
    assert_eq!(branch_from_listing(None, &heads), Some("trunk".to_string()));
    let plain = vec![
        RemoteHead { name: "HEAD".to_string(), symref_target: None },
        RemoteHead { name: "refs/heads/alpha".to_string(), symref_target: None },
    ];
    assert_eq!(branch_from_listing(None, &plain), Some("alpha".to_string()));
    assert_eq!(branch_from_listing(None, &vec![]), None);
}
