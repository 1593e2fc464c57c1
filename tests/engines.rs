use git_cross::error::CrossError;
use git_cross::push::{
    commit_message, confirms, is_yes, push_refspec, push_start, push_step, PushAction, PushConfig,
    PushEvent, PushOutcome, PushStage,
};
use git_cross::sync::{
    sync_start, sync_step, upstream_deletions, SyncAction, SyncBatch, SyncEvent, SyncOutcome,
    SyncStage,
};

fn strings(v: &[&str]) -> Vec<String> {
    v.iter().map(|s| s.to_string()).collect()
}

fn run_sync(events: Vec<SyncEvent>) -> Vec<SyncAction> {
    let (mut st, first) = sync_start();
    let mut actions = vec![first];
    for ev in events {
        let (next, action) = sync_step(st, ev);
        st = next;
        let done = matches!(action, SyncAction::Finish(_));
        actions.push(action);
        if done {
            break;
        }
    }
    actions
}

#[test]
fn quiet_sync_only_mirrors() {
    let actions = run_sync(vec![
        SyncEvent::Answer(true),
        SyncEvent::Answer(false),
        SyncEvent::Answer(false),
        SyncEvent::Done,
        SyncEvent::Listed { local: strings(&["a.txt", "b/c.txt"]), worktree: strings(&["b/c.txt", "a.txt"]) },
        SyncEvent::Done,
    ]);
    assert_eq!(
        actions,
        vec![
            SyncAction::CheckWorktree,
            SyncAction::CheckDirty,
            SyncAction::Replicate,
            SyncAction::PullRebase,
            SyncAction::ListTracked,
            SyncAction::MirrorToLocal,
            SyncAction::Finish(SyncOutcome::Synced),
        ]
    );
}

#[test]
fn upstream_deletion_reaches_local_tree() {
    let actions = run_sync(vec![
        SyncEvent::Answer(true),
        SyncEvent::Answer(false),
        SyncEvent::Answer(false),
        SyncEvent::Done,
        SyncEvent::Listed { local: strings(&["keep.txt", "gone.txt"]), worktree: strings(&["keep.txt", "new.txt"]) },
        SyncEvent::Done,
        SyncEvent::Done,
    ]);
    assert_eq!(actions[5], SyncAction::DeleteLocal(strings(&["gone.txt"])));
    assert_eq!(actions[6], SyncAction::MirrorToLocal);
    assert_eq!(actions[7], SyncAction::Finish(SyncOutcome::Synced));
}

#[test]
fn deletions_spare_local_only_and_kept_files() {
    let gone = upstream_deletions(&strings(&["x", "y", "z"]), &strings(&["y", "w"]));
    assert_eq!(gone, strings(&["x", "z"]));
    assert!(upstream_deletions(&strings(&[]), &strings(&["y"])).is_empty());
}

#[test]
fn dirty_tree_is_stashed_committed_and_restored() {
    let actions = run_sync(vec![
        SyncEvent::Answer(true),
        SyncEvent::Answer(true),
        SyncEvent::Done,
        SyncEvent::Answer(true),
        SyncEvent::Done,
        SyncEvent::Done,
        SyncEvent::Listed { local: strings(&["a"]), worktree: strings(&["a"]) },
        SyncEvent::Done,
        SyncEvent::Restored(strings(&["a"])),
    ]);
    assert_eq!(actions[2], SyncAction::Stash);
    assert_eq!(actions[4], SyncAction::CommitWorktree);
    assert_eq!(actions[8], SyncAction::RestoreStash);
    assert_eq!(actions[9], SyncAction::Finish(SyncOutcome::RestoreConflict(strings(&["a"]))));
}

#[test]
fn missing_worktree_and_conflict_stop_the_patch() {
    let missing = run_sync(vec![SyncEvent::Answer(false)]);
    assert_eq!(missing[1], SyncAction::Finish(SyncOutcome::Failed(CrossError::WorktreeMissing)));
    let conflict = run_sync(vec![
        SyncEvent::Answer(true),
        SyncEvent::Answer(true),
        SyncEvent::Done,
        SyncEvent::Answer(false),
        SyncEvent::Conflict,
    ]);
    assert_eq!(conflict[5], SyncAction::Finish(SyncOutcome::Failed(CrossError::RebaseConflict)));
    let stash_failed = run_sync(vec![SyncEvent::Answer(true), SyncEvent::Answer(true), SyncEvent::Failed]);
    assert_eq!(stash_failed[3], SyncAction::Finish(SyncOutcome::Failed(CrossError::SubprocessFailure)));
    let (st, _) = sync_step(sync_start().0, SyncEvent::Conflict);
    assert_eq!(st.stage, SyncStage::Failed(CrossError::SubprocessFailure));
}

#[test]
fn batch_goes_on_after_a_conflict() {
    let mut batch = SyncBatch::new(vec![0, 1]);
    assert_eq!(batch.current(), Some(0));
    batch.record(&SyncOutcome::Failed(CrossError::RebaseConflict));
    assert_eq!(batch.current(), Some(1));
    assert!(!batch.is_done());
    let actions = run_sync(vec![
        SyncEvent::Answer(true),
        SyncEvent::Answer(false),
        SyncEvent::Answer(false),
        SyncEvent::Done,
        SyncEvent::Listed { local: strings(&["f"]), worktree: strings(&["f"]) },
        SyncEvent::Done,
    ]);
    let outcome = match actions.last().unwrap() {
        SyncAction::Finish(o) => o.clone(),
        other => panic!("unexpected {:?}", other),
    };
    assert_eq!(outcome, SyncOutcome::Synced);
    batch.record(&outcome);
    assert!(batch.is_done());
    assert_eq!(batch.current(), None);
    assert_eq!(batch.failures, 1);
}

fn config(yes: bool, message: Option<&str>) -> PushConfig {
    PushConfig { target: "main".to_string(), force: false, yes, message: message.map(|m| m.to_string()) }
}

fn run_push(cfg: &PushConfig, events: Vec<PushEvent>) -> Vec<PushAction> {
    let (mut st, first) = push_start();
    let mut actions = vec![first];
    for ev in events {
        let (next, action) = push_step(cfg, st, ev);
        st = next;
        let done = matches!(action, PushAction::Finish(_));
        actions.push(action);
        if done {
            break;
        }
    }
    actions
}

#[test]
fn push_without_confirmation_commits_nothing() {
    let cfg = config(false, Some("msg"));
    let actions = run_push(&cfg, vec![PushEvent::Done, PushEvent::Done, PushEvent::Reply("n\n".to_string())]);
    assert_eq!(
        actions,
        vec![
            PushAction::MirrorToWorktree,
            PushAction::ShowStatus,
            PushAction::AskConfirmation,
            PushAction::Finish(PushOutcome::Cancelled),
        ]
    );
    let empty = run_push(&cfg, vec![PushEvent::Done, PushEvent::Done, PushEvent::Reply(String::new())]);
    assert_eq!(empty[3], PushAction::Finish(PushOutcome::Cancelled));
    let yes_word = run_push(&cfg, vec![PushEvent::Done, PushEvent::Done, PushEvent::Reply("yes".to_string())]);
    assert_eq!(yes_word[3], PushAction::Finish(PushOutcome::Cancelled));
}

#[test]
fn confirmed_push_commits_and_pushes() {
    let cfg = PushConfig { target: "feature".to_string(), force: true, yes: false, message: None };
    let actions = run_push(
        &cfg,
        vec![
            PushEvent::Done,
            PushEvent::Done,
            PushEvent::Reply(" Y \n".to_string()),
            PushEvent::Subject(Some("Fix docs".to_string())),
            PushEvent::Failed,
            PushEvent::Done,
        ],
    );
    assert_eq!(actions[3], PushAction::QueryLastSubject);
    assert_eq!(actions[4], PushAction::Commit("Fix docs".to_string()));
    assert_eq!(actions[5], PushAction::Push { refspec: "HEAD:refs/heads/feature".to_string(), force: true });
    assert_eq!(actions[6], PushAction::Finish(PushOutcome::Pushed));
}

#[test]
fn override_skips_the_question() {
    let cfg = config(true, Some("explicit"));
    let actions = run_push(&cfg, vec![PushEvent::Done, PushEvent::Done, PushEvent::Done, PushEvent::Failed]);
    assert_eq!(actions[2], PushAction::Commit("explicit".to_string()));
    assert_eq!(actions[3], PushAction::Push { refspec: "HEAD:refs/heads/main".to_string(), force: false });
    assert_eq!(actions[4], PushAction::Finish(PushOutcome::Failed(CrossError::SubprocessFailure)));
    let (st, _) = push_step(&cfg, PushStage::AwaitMirror, PushEvent::Failed);
    assert_eq!(st, PushStage::Failed(CrossError::SubprocessFailure));
}

#[test]
fn push_helpers() {
    assert_eq!(push_refspec("refs/tags/v1"), "HEAD:refs/tags/v1");
    assert_eq!(push_refspec("dev"), "HEAD:refs/heads/dev");
    assert_eq!(push_refspec("ref"), "HEAD:refs/heads/ref");
    assert_eq!(commit_message(&Some("m".to_string()), &Some("s".to_string())), "m");
    assert_eq!(commit_message(&None, &Some("s".to_string())), "s");
    assert_eq!(commit_message(&None, &Some(String::new())), "Update from git-cross");
    assert_eq!(commit_message(&None, &None), "Update from git-cross");
    assert!(confirms("y"));
    assert!(confirms("  Y\r\n"));
    assert!(confirms("\u{2003}y\u{a0}"));
    assert!(!confirms("yy"));
    assert!(!confirms("no"));
    assert!(is_yes("y"));
    assert!(!is_yes("Y"));
    assert!(!is_yes(" y"));
}

#[test]
fn outcomes_report_their_errors() {
    assert_eq!(SyncOutcome::Synced.error(), None);
    assert_eq!(
        SyncOutcome::RestoreConflict(strings(&["f"])).error(),
        Some(CrossError::StashRestoreConflict)
    );
    assert_eq!(
        SyncOutcome::Failed(CrossError::RebaseConflict).error(),
        Some(CrossError::RebaseConflict)
    );
}
