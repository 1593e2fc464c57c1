//! The four-stage reconciliation of one patch (quiesce local edits, replicate
//! them into the worktree, integrate upstream, reconcile deletions and
//! restore edits), as a state machine, and the batch that runs it over
//! several patches.
//!
//! The machine decides; the caller performs each [`SyncAction`] and reports
//! what happened as a [`SyncEvent`].
use vstd::prelude::*;

use crate::error::CrossError;

verus! {

/// Where the reconciliation of one patch stands.
#[derive(Debug, Clone, Copy, PartialEq, Eq, Structural)]
pub enum SyncStage {
    /// Waiting to learn whether the worktree directory exists.
    AwaitWorktree,
    /// Waiting to learn whether the local tree has uncommitted edits.
    AwaitDirty,
    /// Waiting for the checkpoint of local edits.
    AwaitStash,
    /// Waiting for local files to be replicated into the worktree.
    AwaitReplicate,
    /// Waiting for the worktree commit of replicated edits.
    AwaitCommit,
    /// Waiting for the rebase pull of upstream.
    AwaitPull,
    /// Waiting for the tracked file lists of both sides.
    AwaitTracked,
    /// Waiting for upstream deletions to be applied locally.
    AwaitDelete,
    /// Waiting for the worktree to be mirrored onto the local tree.
    AwaitMirror,
    /// Waiting for the checkpoint to be restored.
    AwaitRestore,
    /// Done: local tree and worktree agree.
    Synced,
    /// Done: restoring the checkpoint left unmerged files.
    RestoreConflict,
    /// Stopped on an error; the rest of this patch's stages are skipped.
    Failed(CrossError),
}

/// State of one patch's reconciliation.
#[derive(Debug, Clone, Copy, PartialEq, Eq, Structural)]
pub struct SyncState {
    pub stage: SyncStage,
    /// A checkpoint of local edits was taken and awaits restoring.
    pub stashed: bool,
}

/// What happened when the caller performed the last action.
#[derive(Debug, Clone)]
pub enum SyncEvent {
    /// The answer to a yes/no action: the worktree exists, the local tree
    /// is dirty, or replication left uncommitted worktree changes.
    Answer(bool),
    /// The action succeeded.
    Done,
    /// The external tool of the action failed.
    Failed,
    /// The rebase pull stopped on a conflict; the worktree is left as it is.
    Conflict,
    /// Files tracked under the local path before integrating, and under the
    /// worktree's remote path after it, relative to those roots.
    Listed { local: Vec<String>, worktree: Vec<String> },
    /// Files left unmerged after restoring the checkpoint (empty when clean).
    Restored(Vec<String>),
}

/// How one patch's reconciliation ended.
#[derive(Debug, Clone, PartialEq, Eq)]
pub enum SyncOutcome {
    Synced,
    /// Restoring the checkpoint left these files unmerged; the batch goes on.
    RestoreConflict(Vec<String>),
    Failed(CrossError),
}

/// The error an outcome reports, if any.
pub open spec fn outcome_error(o: SyncOutcome) -> Option<CrossError> {
    match o {
        SyncOutcome::Synced => None,
        SyncOutcome::RestoreConflict(_) => Some(CrossError::StashRestoreConflict),
        SyncOutcome::Failed(e) => Some(e),
    }
}

impl SyncOutcome {
    /// The error this outcome reports: `StashRestoreConflict` for unmerged
    /// files after restoring, the stage's error for a failure, none when synced.
    pub fn error(&self) -> (r: Option<CrossError>)
        ensures
            r == outcome_error(*self),
    {
        match self {
            SyncOutcome::Synced => None,
            SyncOutcome::RestoreConflict(_) => Some(CrossError::StashRestoreConflict),
            SyncOutcome::Failed(e) => Some(*e),
        }
    }
}

/// The next thing the caller must do.
#[derive(Debug, Clone, PartialEq, Eq)]
pub enum SyncAction {
    /// Report whether the worktree directory exists.
    CheckWorktree,
    /// Report whether the local tree has uncommitted edits.
    CheckDirty,
    /// Take a checkpoint (stash) of the local edits.
    Stash,
    /// Copy tracked local files into the worktree's remote path, deleting
    /// nothing, and report whether the worktree then has uncommitted changes.
    Replicate,
    /// Commit the worktree's changes with an automatic message.
    CommitWorktree,
    /// Pull the tracked branch into the worktree, rebasing local commits.
    PullRebase,
    /// Report the tracked files of both sides.
    ListTracked,
    /// Delete these files (relative to the local path) from the local tree.
    DeleteLocal(Vec<String>),
    /// Copy the worktree's remote path onto the local tree, creating and
    /// updating only: never deleting.
    MirrorToLocal,
    /// Restore the checkpoint and report unmerged files.
    RestoreStash,
    /// The patch is done.
    Finish(SyncOutcome),
}

/// Files tracked locally that the worktree no longer tracks: upstream
/// deletions, in local order.
pub open spec fn deletions(local: Seq<Seq<char>>, worktree: Seq<Seq<char>>) -> Seq<Seq<char>> {
    local.filter(|f: Seq<char>| !worktree.contains(f))
}

pub open spec fn views(v: Vec<String>) -> Seq<Seq<char>> {
    v@.map_values(|s: String| s@)
}

/// The reconciliation is over.
pub open spec fn finished(st: SyncState) -> bool {
    st.stage is Synced || st.stage is RestoreConflict || st.stage is Failed
}

/// The state in which every patch's reconciliation starts.
pub open spec fn sync_initial() -> SyncState {
    SyncState { stage: SyncStage::AwaitWorktree, stashed: false }
}

/// The stage after `st` when event `ev` arrives.
pub open spec fn sync_next(st: SyncState, ev: SyncEvent) -> SyncState {
    let fail = SyncState { stage: SyncStage::Failed(CrossError::SubprocessFailure), ..st };
    let go = |s: SyncStage| SyncState { stage: s, ..st };
    match (st.stage, ev) {
        (SyncStage::AwaitWorktree, SyncEvent::Answer(true)) => go(SyncStage::AwaitDirty),
        (SyncStage::AwaitWorktree, SyncEvent::Answer(false)) => go(
            SyncStage::Failed(CrossError::WorktreeMissing),
        ),
        (SyncStage::AwaitDirty, SyncEvent::Answer(true)) => go(SyncStage::AwaitStash),
        (SyncStage::AwaitDirty, SyncEvent::Answer(false)) => go(SyncStage::AwaitReplicate),
        (SyncStage::AwaitStash, SyncEvent::Done) => SyncState {
            stage: SyncStage::AwaitReplicate,
            stashed: true,
        },
        (SyncStage::AwaitReplicate, SyncEvent::Answer(true)) => go(SyncStage::AwaitCommit),
        (SyncStage::AwaitReplicate, SyncEvent::Answer(false)) => go(SyncStage::AwaitPull),
        (SyncStage::AwaitCommit, SyncEvent::Done) => go(SyncStage::AwaitPull),
        (SyncStage::AwaitPull, SyncEvent::Done) => go(SyncStage::AwaitTracked),
        (SyncStage::AwaitPull, SyncEvent::Conflict) => go(
            SyncStage::Failed(CrossError::RebaseConflict),
        ),
        (SyncStage::AwaitTracked, SyncEvent::Listed { local, worktree }) => if deletions(
            views(local),
            views(worktree),
        ).len() == 0 {
            go(SyncStage::AwaitMirror)
        } else {
            go(SyncStage::AwaitDelete)
        },
        (SyncStage::AwaitDelete, SyncEvent::Done) => go(SyncStage::AwaitMirror),
        (SyncStage::AwaitMirror, SyncEvent::Done) => if st.stashed {
            go(SyncStage::AwaitRestore)
        } else {
            go(SyncStage::Synced)
        },
        (SyncStage::AwaitRestore, SyncEvent::Restored(files)) => if files@.len() == 0 {
            SyncState { stage: SyncStage::Synced, stashed: false }
        } else {
            SyncState { stage: SyncStage::RestoreConflict, stashed: false }
        },
        _ => fail,
    }
}

/// The action that state `st` asks for.
pub open spec fn action_fits(st: SyncState, a: SyncAction) -> bool {
    match st.stage {
        SyncStage::AwaitWorktree => a is CheckWorktree,
        SyncStage::AwaitDirty => a is CheckDirty,
        SyncStage::AwaitStash => a is Stash,
        SyncStage::AwaitReplicate => a is Replicate,
        SyncStage::AwaitCommit => a is CommitWorktree,
        SyncStage::AwaitPull => a is PullRebase,
        SyncStage::AwaitTracked => a is ListTracked,
        SyncStage::AwaitDelete => a is DeleteLocal,
        SyncStage::AwaitMirror => a is MirrorToLocal,
        SyncStage::AwaitRestore => a is RestoreStash,
        SyncStage::Synced => a is Finish && a->Finish_0 is Synced,
        SyncStage::RestoreConflict => a is Finish && a->Finish_0 is RestoreConflict,
        SyncStage::Failed(e) => a is Finish && a->Finish_0 is Failed && a->Finish_0->Failed_0 == e,
    }
}

/// Every file in the deletion list is tracked locally and no longer tracked
/// in the worktree; every such file is in it. So a file deleted upstream is
/// deleted locally, while a file the worktree still tracks, or one that was
/// never tracked locally, is never touched.
pub proof fn lemma_deletions_exact(
    local: Seq<Seq<char>>,
    worktree: Seq<Seq<char>>,
    f: Seq<char>,
)
    ensures
        deletions(local, worktree).contains(f) <==> (local.contains(f) && !worktree.contains(f)),
    decreases local.len(),
{
    let pred = |g: Seq<char>| !worktree.contains(g);
    if local.contains(f) && !worktree.contains(f) {
        let i = choose|i: int| 0 <= i < local.len() && local[i] == f;
        local.lemma_filter_contains(pred, i);
    }
    if deletions(local, worktree).contains(f) {
        let d = deletions(local, worktree);
        let k = choose|k: int| 0 <= k < d.len() && d[k] == f;
        local.lemma_filter_pred(pred, k);
        lemma_filter_subset(local, pred, f);
    }
}

proof fn lemma_filter_subset(s: Seq<Seq<char>>, pred: spec_fn(Seq<char>) -> bool, f: Seq<char>)
    requires
        s.filter(pred).contains(f),
    ensures
        s.contains(f),
    decreases s.len(),
{
    reveal(Seq::filter);
    if s.len() > 0 {
        let t = s.drop_last().filter(pred);
        if t.contains(f) {
            lemma_filter_subset(s.drop_last(), pred, f);
            let i = choose|i: int| 0 <= i < s.len() - 1 && s.drop_last()[i] == f;
            assert(s[i] == f);
        } else {
            assert(s.filter(pred) == t.push(s.last()));
            let k = choose|k: int| 0 <= k < s.filter(pred).len() && s.filter(pred)[k] == f;
            assert(k == t.len());
            assert(s[s.len() - 1] == f);
        }
    }
}

/// Computes the upstream deletions: the local files the worktree no longer
/// tracks, in local order.
pub fn upstream_deletions(local: &Vec<String>, worktree: &Vec<String>) -> (r: Vec<String>)
    ensures
        views(r) == deletions(views(*local), views(*worktree)),
{
    let ghost l = views(*local);
    let ghost w = views(*worktree);
    let mut r: Vec<String> = Vec::new();
    let mut i: usize = 0;
    while i < local.len()
        invariant
            i <= local.len(),
            l == views(*local),
            w == views(*worktree),
            views(r) == deletions(l.take(i as int), w),
        decreases local.len() - i,
    {
        let f = &local[i];
        let mut found = false;
        let mut j: usize = 0;
        while j < worktree.len()
            invariant
                i < local.len(),
                j <= worktree.len(),
                w == views(*worktree),
                f@ == l[i as int],
                found <==> exists|k: int| 0 <= k < j && w[k] == f@,
            decreases worktree.len() - j,
        {
            assert(w[j as int] == worktree@[j as int]@);
            if worktree[j] == *f {
                found = true;
            }
            j = j + 1;
        }
        proof {
            reveal(Seq::filter);
            assert(l.take(i + 1).drop_last() =~= l.take(i as int));
            assert(l.take(i + 1).last() == f@);
            if found {
                let k = choose|k: int| 0 <= k < j && w[k] == f@;
                assert(w.contains(f@));
            } else {
                assert(!w.contains(f@));
            }
        }
        if !found {
            r.push(f.clone());
            assert(views(r) =~= deletions(l.take(i as int), w).push(f@));
        }
        i = i + 1;
    }
    assert(l.take(local.len() as int) =~= l);
    r
}

/// Starts the reconciliation of one patch: it first asks whether the
/// worktree exists.
pub fn sync_start() -> (r: (SyncState, SyncAction))
    ensures
        r.0 == sync_initial(),
        action_fits(r.0, r.1),
{
    (SyncState { stage: SyncStage::AwaitWorktree, stashed: false }, SyncAction::CheckWorktree)
}

/// Advances the reconciliation of one patch by the event that the last
/// action produced, and says what to do next. A failed tool, or an event
/// that does not answer the last action, stops the patch with
/// `SubprocessFailure`.
pub fn sync_step(st: SyncState, ev: SyncEvent) -> (r: (SyncState, SyncAction))
    requires
        !finished(st),
    ensures
        r.0 == sync_next(st, ev),
        action_fits(r.0, r.1),
        r.1 is DeleteLocal ==> (ev matches SyncEvent::Listed { local, worktree } && views(
            r.1->DeleteLocal_0,
        ) == deletions(views(local), views(worktree))),
        r.1 is Finish && r.1->Finish_0 is RestoreConflict ==> ev is Restored
            && r.1->Finish_0->RestoreConflict_0 == ev->Restored_0,
{
    let ghost ev0 = ev;
    let fail = (
        SyncState { stage: SyncStage::Failed(CrossError::SubprocessFailure), stashed: st.stashed },
        SyncAction::Finish(SyncOutcome::Failed(CrossError::SubprocessFailure)),
    );
    let stashed = st.stashed;
    match st.stage {
        SyncStage::AwaitWorktree => match ev {
            SyncEvent::Answer(true) => (
                SyncState { stage: SyncStage::AwaitDirty, stashed },
                SyncAction::CheckDirty,
            ),
            SyncEvent::Answer(false) => (
                SyncState { stage: SyncStage::Failed(CrossError::WorktreeMissing), stashed },
                SyncAction::Finish(SyncOutcome::Failed(CrossError::WorktreeMissing)),
            ),
            _ => fail,
        },
        SyncStage::AwaitDirty => match ev {
            SyncEvent::Answer(true) => (
                SyncState { stage: SyncStage::AwaitStash, stashed },
                SyncAction::Stash,
            ),
            SyncEvent::Answer(false) => (
                SyncState { stage: SyncStage::AwaitReplicate, stashed },
                SyncAction::Replicate,
            ),
            _ => fail,
        },
        SyncStage::AwaitStash => match ev {
            SyncEvent::Done => (
                SyncState { stage: SyncStage::AwaitReplicate, stashed: true },
                SyncAction::Replicate,
            ),
            _ => fail,
        },
        SyncStage::AwaitReplicate => match ev {
            SyncEvent::Answer(true) => (
                SyncState { stage: SyncStage::AwaitCommit, stashed },
                SyncAction::CommitWorktree,
            ),
            SyncEvent::Answer(false) => (
                SyncState { stage: SyncStage::AwaitPull, stashed },
                SyncAction::PullRebase,
            ),
            _ => fail,
        },
        SyncStage::AwaitCommit => match ev {
            SyncEvent::Done => (
                SyncState { stage: SyncStage::AwaitPull, stashed },
                SyncAction::PullRebase,
            ),
            _ => fail,
        },
        SyncStage::AwaitPull => match ev {
            SyncEvent::Done => (
                SyncState { stage: SyncStage::AwaitTracked, stashed },
                SyncAction::ListTracked,
            ),
            SyncEvent::Conflict => (
                SyncState { stage: SyncStage::Failed(CrossError::RebaseConflict), stashed },
                SyncAction::Finish(SyncOutcome::Failed(CrossError::RebaseConflict)),
            ),
            _ => fail,
        },
        SyncStage::AwaitTracked => match ev {
            SyncEvent::Listed { local, worktree } => {
                let gone = upstream_deletions(&local, &worktree);
                if gone.len() == 0 {
                    (
                        SyncState { stage: SyncStage::AwaitMirror, stashed },
                        SyncAction::MirrorToLocal,
                    )
                } else {
                    (
                        SyncState { stage: SyncStage::AwaitDelete, stashed },
                        SyncAction::DeleteLocal(gone),
                    )
                }
            },
            _ => fail,
        },
        SyncStage::AwaitDelete => match ev {
            SyncEvent::Done => (
                SyncState { stage: SyncStage::AwaitMirror, stashed },
                SyncAction::MirrorToLocal,
            ),
            _ => fail,
        },
        SyncStage::AwaitMirror => match ev {
            SyncEvent::Done => if stashed {
                (SyncState { stage: SyncStage::AwaitRestore, stashed }, SyncAction::RestoreStash)
            } else {
                (
                    SyncState { stage: SyncStage::Synced, stashed },
                    SyncAction::Finish(SyncOutcome::Synced),
                )
            },
            _ => fail,
        },
        SyncStage::AwaitRestore => match ev {
            SyncEvent::Restored(files) => if files.len() == 0 {
                (
                    SyncState { stage: SyncStage::Synced, stashed: false },
                    SyncAction::Finish(SyncOutcome::Synced),
                )
            } else {
                (
                    SyncState { stage: SyncStage::RestoreConflict, stashed: false },
                    SyncAction::Finish(SyncOutcome::RestoreConflict(files)),
                )
            },
            _ => fail,
        },
        _ => fail,
    }
}

} // verus!

verus! {

/// With no local edits, nothing new to commit after replication, a clean
/// rebase pull, and every locally tracked file still tracked upstream, a
/// sync takes no checkpoint, makes no commit, deletes nothing and restores
/// nothing: it only mirrors the worktree onto the local tree and ends synced.
pub proof fn lemma_quiet_sync(listing: SyncEvent)
    requires
        listing matches SyncEvent::Listed { local, worktree } && forall|k: int|
            0 <= k < views(local).len() ==> views(worktree).contains(#[trigger] views(local)[k]),
    ensures
        ({
            let s1 = sync_next(sync_initial(), SyncEvent::Answer(true));
            let s2 = sync_next(s1, SyncEvent::Answer(false));
            let s3 = sync_next(s2, SyncEvent::Answer(false));
            let s4 = sync_next(s3, SyncEvent::Done);
            let s5 = sync_next(s4, listing);
            let s6 = sync_next(s5, SyncEvent::Done);
            &&& s1.stage == SyncStage::AwaitDirty
            &&& s2.stage == SyncStage::AwaitReplicate && !s2.stashed
            &&& s3.stage == SyncStage::AwaitPull
            &&& s4.stage == SyncStage::AwaitTracked
            &&& s5.stage == SyncStage::AwaitMirror
            &&& s6.stage == SyncStage::Synced
        }),
{
    let l = views(listing->local);
    let w = views(listing->worktree);
    let d = deletions(l, w);
    if d.len() > 0 {
        lemma_deletions_exact(l, w, d[0]);
        assert(d.contains(d[0]));
        let k = choose|k: int| 0 <= k < l.len() && l[k] == d[0];
        assert(w.contains(l[k]));
    }
}

/// Progress of a batch sync over selected registry entries, in order.
pub struct SyncBatch {
    /// Registry indices of the patches to sync, in registry order.
    pub selected: Vec<usize>,
    /// How many of them are done.
    pub position: usize,
    /// How many of those ended in failure.
    pub failures: usize,
}

/// Whether an outcome counts as a failed patch.
pub open spec fn outcome_failed(o: SyncOutcome) -> bool {
    o is Failed
}

/// Position and failure count after one more patch ended with `o`: the
/// batch always moves on to the next patch, whatever the outcome.
pub open spec fn batch_record(position: nat, failures: nat, o: SyncOutcome) -> (nat, nat) {
    (position + 1, if outcome_failed(o) {
        failures + 1
    } else {
        failures
    })
}

/// A patch whose rebase conflicts does not stop the batch: the next patch
/// in order becomes current, and its reconciliation starts afresh.
pub proof fn lemma_conflict_does_not_stop_batch(
    selected: Seq<usize>,
    position: nat,
    failures: nat,
)
    requires
        position + 1 < selected.len(),
    ensures
        ({
            let after = batch_record(
                position,
                failures,
                SyncOutcome::Failed(CrossError::RebaseConflict),
            );
            &&& after.0 < selected.len()
            &&& selected[after.0 as int] == selected[position as int + 1]
            &&& after.1 == failures + 1
        }),
        !finished(sync_initial()),
{
}

impl SyncBatch {
    /// A batch over `selected`, none of them done yet.
    pub fn new(selected: Vec<usize>) -> (r: SyncBatch)
        ensures
            r.selected@ == selected@,
            r.position == 0,
            r.failures == 0,
    {
        SyncBatch { selected, position: 0, failures: 0 }
    }

    /// The registry index of the patch to sync now, if any is left.
    pub fn current(&self) -> (r: Option<usize>)
        ensures
            self.position < self.selected@.len() ==> r == Some(self.selected@[self.position as int]),
            self.position >= self.selected@.len() ==> r is None,
    {
        if self.position < self.selected.len() {
            Some(self.selected[self.position])
        } else {
            None
        }
    }

    /// Records how the current patch ended and moves on to the next one.
    pub fn record(&mut self, outcome: &SyncOutcome)
        requires
            old(self).position < old(self).selected@.len(),
            old(self).failures <= old(self).position,
        ensures
            final(self).selected@ == old(self).selected@,
            (final(self).position as nat, final(self).failures as nat) == batch_record(
                old(self).position as nat,
                old(self).failures as nat,
                *outcome,
            ),
            final(self).failures <= final(self).position,
    {
        let n = self.selected.len();
        assert(self.position < n);
        self.position = self.position + 1;
        if let SyncOutcome::Failed(_) = outcome {
            self.failures = self.failures + 1;
        }
    }

    /// Whether every selected patch has been handled.
    pub fn is_done(&self) -> (r: bool)
        ensures
            r == (self.position >= self.selected@.len()),
    {
        self.position >= self.selected.len()
    }
}

} // verus!
