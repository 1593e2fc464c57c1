//! Propagation of local edits back to upstream, as a state machine: mirror
//! the local tree into the worktree (deleting), show what changed, ask for
//! confirmation, commit, push.
use vstd::prelude::*;

use crate::error::CrossError;
use crate::patch_spec::opt_view;
use crate::text::{chars_of, lowercase, lowered, trim_str, trim_ws};

verus! {

/// The operator's reply is affirmative: trimmed and lowercased, it is `y`.
pub open spec fn affirmative(reply: Seq<char>) -> bool {
    lowered(trim_ws(reply)) == seq!['y']
}

/// Whether an already trimmed and lowercased reply is the affirmative `y`.
pub fn is_yes(folded: &str) -> (r: bool)
    ensures
        r == (folded@ == seq!['y']),
{
    let v = chars_of(folded);
    let r = v.len() == 1 && v[0] == 'y';
    assert(r ==> v@ =~= seq!['y']);
    r
}

/// Whether the operator's reply confirms the push.
pub fn confirms(reply: &str) -> (r: bool)
    ensures
        r == affirmative(reply@),
{
    let folded = lowercase(trim_str(reply));
    is_yes(folded.as_str())
}

/// The commit message used when none is given and no history subject is found.
pub const DEFAULT_MESSAGE: &'static str = "Update from git-cross";

/// The message of the push commit: the explicit one, else the subject of the
/// latest history entry touching the local path (when there is a non-empty
/// one), else [`DEFAULT_MESSAGE`].
pub open spec fn chosen_message(explicit: Option<Seq<char>>, subject: Option<Seq<char>>) -> Seq<
    char,
> {
    match explicit {
        Some(m) => m,
        None => match subject {
            Some(s) => if s.len() > 0 {
                s
            } else {
                DEFAULT_MESSAGE@
            },
            None => DEFAULT_MESSAGE@,
        },
    }
}

/// Picks the commit message (see [`chosen_message`]).
pub fn commit_message(explicit: &Option<String>, subject: &Option<String>) -> (r: String)
    ensures
        r@ == chosen_message(opt_view(*explicit), opt_view(*subject)),
{
    match explicit {
        Some(m) => m.clone(),
        None => match subject {
            Some(s) => if s.as_str().is_empty() {
                String::from_str(DEFAULT_MESSAGE)
            } else {
                s.clone()
            },
            None => String::from_str(DEFAULT_MESSAGE),
        },
    }
}

/// The destination ref of a push: a target already written as a full ref
/// (starting with `refs/`) is kept, any other is a branch under `refs/heads/`.
pub open spec fn target_ref(target: Seq<char>) -> Seq<char> {
    if target.len() >= 5 && target.take(5) == seq!['r', 'e', 'f', 's', '/'] {
        target
    } else {
        seq!['r', 'e', 'f', 's', '/', 'h', 'e', 'a', 'd', 's', '/'] + target
    }
}

/// The refspec that pushes the worktree head to `target`.
pub open spec fn refspec_of(target: Seq<char>) -> Seq<char> {
    seq!['H', 'E', 'A', 'D', ':'] + target_ref(target)
}

/// Builds the refspec that pushes the worktree head to `target`.
pub fn push_refspec(target: &str) -> (r: String)
    ensures
        r@ == refspec_of(target@),
{
    proof {
        reveal_strlit("refs/");
        reveal_strlit("HEAD:");
        reveal_strlit("HEAD:refs/heads/");
    }
    let v = chars_of(target);
    let prefix = chars_of("refs/");
    assert(prefix@ =~= seq!['r', 'e', 'f', 's', '/']);
    let full = crate::text::matches_at(&v, 0, &prefix);
    assert(full == (v@.len() >= 5 && v@.take(5) == seq!['r', 'e', 'f', 's', '/'])) by {
        if v@.len() >= 5 {
            assert(v@.subrange(0, 5) =~= v@.take(5));
        }
    }
    if full {
        String::from_str("HEAD:").concat(target)
    } else {
        String::from_str("HEAD:refs/heads/").concat(target)
    }
}

/// What a push was asked to do.
pub struct PushConfig {
    /// The branch or ref to push to (the patch's branch unless overridden).
    pub target: String,
    pub force: bool,
    /// Skip the confirmation (non-interactive override).
    pub yes: bool,
    pub message: Option<String>,
}

/// Where a push stands.
#[derive(Debug, Clone, Copy, PartialEq, Eq, Structural)]
pub enum PushStage {
    AwaitMirror,
    AwaitStatus,
    AwaitAnswer,
    AwaitSubject,
    AwaitCommit,
    AwaitPush,
    Pushed,
    Cancelled,
    Failed(CrossError),
}

/// What happened when the caller performed the last action.
#[derive(Debug, Clone)]
pub enum PushEvent {
    Done,
    Failed,
    /// The operator's reply to the confirmation question.
    Reply(String),
    /// The subject of the latest history entry touching the local path;
    /// `None` when the query failed.
    Subject(Option<String>),
}

/// How a push ended.
#[derive(Debug, Clone, Copy, PartialEq, Eq, Structural)]
pub enum PushOutcome {
    Pushed,
    /// The operator did not confirm; nothing was committed or pushed.
    Cancelled,
    Failed(CrossError),
}

/// The next thing the caller must do.
#[derive(Debug, Clone, PartialEq, Eq)]
pub enum PushAction {
    /// Copy the local tree onto the worktree's remote path, deleting what
    /// the local tree no longer has.
    MirrorToWorktree,
    /// Show a short status of the worktree's changes.
    ShowStatus,
    /// Ask the operator to confirm the push.
    AskConfirmation,
    /// Report the subject of the latest history entry touching the local path.
    QueryLastSubject,
    /// Commit all worktree changes with this message (a failure here, such
    /// as nothing to commit, does not stop the push).
    Commit(String),
    /// Push the worktree head with this refspec to the patch's remote.
    Push { refspec: String, force: bool },
    Finish(PushOutcome),
}

pub open spec fn push_finished(st: PushStage) -> bool {
    st is Pushed || st is Cancelled || st is Failed
}

/// The stage after `st` when event `ev` arrives, for a push that skips the
/// confirmation when `yes` holds and has an explicit message when
/// `has_message` holds.
pub open spec fn push_next(yes: bool, has_message: bool, st: PushStage, ev: PushEvent) -> PushStage {
    let confirmed = if has_message {
        PushStage::AwaitCommit
    } else {
        PushStage::AwaitSubject
    };
    match (st, ev) {
        (PushStage::AwaitMirror, PushEvent::Done) => PushStage::AwaitStatus,
        (PushStage::AwaitStatus, PushEvent::Done) => if yes {
            confirmed
        } else {
            PushStage::AwaitAnswer
        },
        (PushStage::AwaitAnswer, PushEvent::Reply(text)) => if affirmative(text@) {
            confirmed
        } else {
            PushStage::Cancelled
        },
        (PushStage::AwaitSubject, PushEvent::Subject(_)) => PushStage::AwaitCommit,
        (PushStage::AwaitCommit, PushEvent::Done) => PushStage::AwaitPush,
        (PushStage::AwaitCommit, PushEvent::Failed) => PushStage::AwaitPush,
        (PushStage::AwaitPush, PushEvent::Done) => PushStage::Pushed,
        _ => PushStage::Failed(CrossError::SubprocessFailure),
    }
}

/// The action that stage `st` asks for.
pub open spec fn push_action_fits(st: PushStage, a: PushAction) -> bool {
    match st {
        PushStage::AwaitMirror => a is MirrorToWorktree,
        PushStage::AwaitStatus => a is ShowStatus,
        PushStage::AwaitAnswer => a is AskConfirmation,
        PushStage::AwaitSubject => a is QueryLastSubject,
        PushStage::AwaitCommit => a is Commit,
        PushStage::AwaitPush => a is Push,
        PushStage::Pushed => a == PushAction::Finish(PushOutcome::Pushed),
        PushStage::Cancelled => a == PushAction::Finish(PushOutcome::Cancelled),
        PushStage::Failed(e) => a == PushAction::Finish(PushOutcome::Failed(e)),
    }
}

/// The stages a push passes through from `st` as `evs` arrive, until it ends.
pub open spec fn push_trace(yes: bool, has_message: bool, st: PushStage, evs: Seq<PushEvent>) -> Seq<
    PushStage,
>
    decreases evs.len(),
{
    if evs.len() == 0 || push_finished(st) {
        seq![st]
    } else {
        seq![st] + push_trace(yes, has_message, push_next(yes, has_message, st, evs[0]), evs.drop_first())
    }
}

/// A stage from which nothing has been committed or pushed yet.
pub open spec fn before_commit(st: PushStage) -> bool {
    st is AwaitMirror || st is AwaitStatus || st is AwaitAnswer || st is Cancelled || st is Failed
}

/// Without the non-interactive override, a push whose operator never
/// replies affirmatively never reaches the commit or push stages (the only
/// ones whose actions commit or push), whatever else happens.
pub proof fn lemma_no_confirmation_no_push(
    has_message: bool,
    st: PushStage,
    evs: Seq<PushEvent>,
)
    requires
        before_commit(st),
        forall|i: int|
            0 <= i < evs.len() && (#[trigger] evs[i]) is Reply ==> !affirmative(evs[i]->Reply_0@),
    ensures
        forall|k: int|
            0 <= k < push_trace(false, has_message, st, evs).len() ==> before_commit(
                #[trigger] push_trace(false, has_message, st, evs)[k],
            ),
    decreases evs.len(),
{
    if evs.len() > 0 && !push_finished(st) {
        let next = push_next(false, has_message, st, evs[0]);
        assert(before_commit(next));
        assert forall|i: int|
            0 <= i < evs.drop_first().len() && (#[trigger] evs.drop_first()[i]) is Reply implies !affirmative(
            evs.drop_first()[i]->Reply_0@,
        ) by {
            assert(evs.drop_first()[i] == evs[i + 1]);
        }
        lemma_no_confirmation_no_push(has_message, next, evs.drop_first());
        let t = push_trace(false, has_message, st, evs);
        let rest = push_trace(false, has_message, next, evs.drop_first());
        assert forall|k: int| 0 <= k < t.len() implies before_commit(#[trigger] t[k]) by {
            if k > 0 {
                assert(t[k] == rest[k - 1]);
            }
        }
    }
}

/// Starts a push: it first mirrors the local tree into the worktree.
pub fn push_start() -> (r: (PushStage, PushAction))
    ensures
        r.0 == PushStage::AwaitMirror,
        push_action_fits(r.0, r.1),
{
    (PushStage::AwaitMirror, PushAction::MirrorToWorktree)
}

/// The stage a confirmed push goes to, with its action.
fn confirmed_step(cfg: &PushConfig) -> (r: (PushStage, PushAction))
    ensures
        r.0 == (if cfg.message is Some {
            PushStage::AwaitCommit
        } else {
            PushStage::AwaitSubject
        }),
        push_action_fits(r.0, r.1),
        r.1 is Commit ==> r.1->Commit_0@ == chosen_message(opt_view(cfg.message), None),
{
    match &cfg.message {
        Some(m) => (PushStage::AwaitCommit, PushAction::Commit(m.clone())),
        None => (PushStage::AwaitSubject, PushAction::QueryLastSubject),
    }
}

/// Advances a push by the event the last action produced, and says what to
/// do next. A failed tool, or an event that does not answer the last action,
/// stops the push with `SubprocessFailure` (a failed commit excepted).
pub fn push_step(cfg: &PushConfig, st: PushStage, ev: PushEvent) -> (r: (PushStage, PushAction))
    requires
        !push_finished(st),
    ensures
        r.0 == push_next(cfg.yes, cfg.message is Some, st, ev),
        push_action_fits(r.0, r.1),
        r.1 is Commit ==> r.1->Commit_0@ == chosen_message(
            opt_view(cfg.message),
            match ev {
                PushEvent::Subject(s) => opt_view(s),
                _ => None,
            },
        ),
        r.1 is Push ==> r.1->refspec@ == refspec_of(cfg.target@) && r.1->force == cfg.force,
{
    let fail = (
        PushStage::Failed(CrossError::SubprocessFailure),
        PushAction::Finish(PushOutcome::Failed(CrossError::SubprocessFailure)),
    );
    match st {
        PushStage::AwaitMirror => match ev {
            PushEvent::Done => (PushStage::AwaitStatus, PushAction::ShowStatus),
            _ => fail,
        },
        PushStage::AwaitStatus => match ev {
            PushEvent::Done => if cfg.yes {
                confirmed_step(cfg)
            } else {
                (PushStage::AwaitAnswer, PushAction::AskConfirmation)
            },
            _ => fail,
        },
        PushStage::AwaitAnswer => match ev {
            PushEvent::Reply(text) => if confirms(text.as_str()) {
                confirmed_step(cfg)
            } else {
                (PushStage::Cancelled, PushAction::Finish(PushOutcome::Cancelled))
            },
            _ => fail,
        },
        PushStage::AwaitSubject => match ev {
            PushEvent::Subject(s) => {
                let msg = commit_message(&cfg.message, &s);
                (PushStage::AwaitCommit, PushAction::Commit(msg))
            },
            _ => fail,
        },
        PushStage::AwaitCommit => match ev {
            PushEvent::Done | PushEvent::Failed => (
                PushStage::AwaitPush,
                PushAction::Push { refspec: push_refspec(cfg.target.as_str()), force: cfg.force },
            ),
            _ => fail,
        },
        PushStage::AwaitPush => match ev {
            PushEvent::Done => (PushStage::Pushed, PushAction::Finish(PushOutcome::Pushed)),
            _ => fail,
        },
        _ => fail,
    }
}

} // verus!
