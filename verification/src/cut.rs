//! Cutting: the entries of a directory go up into its parent, and the
//! directory, then empty, is removed.
//!
//! The working directory is never cut, however its path is spelled. The
//! target is scanned once and its entries are moved in the order of the
//! scan. The first move that fails ends the run: what was moved stays moved,
//! and the target, not empty, stays too. It is removed only after every
//! move was made.

use vstd::prelude::*;
use crate::entry::{listing, scan, DirectoryEntry, EntryView};
use crate::mover::{describe_move_failure, move_failure_text, moves_to, sequence_from, settled,
    MoveCount, MoveError, MoveSequencer, Sequenced, SequencedView, SequencerView};
use crate::path::{denotes_cwd, is_cwd, parent_of, parent_text};
use crate::request::{Reply, ReplyView, Request, RequestView, Trouble};

verus! {

/// Why a cut failed.
#[derive(Clone, Debug, PartialEq, Eq)]
pub enum CutError {
    /// The target could not be listed. Nothing was touched.
    DirectoryUnreadable { dir: String },
    /// The move of `entry` failed. The first `moved` entries are in the
    /// parent and stay there; `entry` and the entries behind it are still in
    /// the target, which was not removed.
    MoveFailed { entry: DirectoryEntry, cause: MoveError, moved: MoveCount },
    /// All `moved` entries are in the parent, yet the target was found not
    /// empty and is still there.
    DirectoryNotEmpty { dir: String, moved: MoveCount },
    /// All `moved` entries are in the parent, but the target could not be
    /// removed and is still there.
    DirectoryRemovalFailed { dir: String, moved: MoveCount },
}

/// What a [`CutError`] stands for.
pub enum CutErrorView {
    DirectoryUnreadable { dir: Seq<char> },
    MoveFailed { entry: EntryView, cause: MoveError, moved: nat },
    DirectoryNotEmpty { dir: Seq<char>, moved: nat },
    DirectoryRemovalFailed { dir: Seq<char>, moved: nat },
}

impl View for CutError {
    type V = CutErrorView;

    open spec fn view(&self) -> CutErrorView {
        match self {
            CutError::DirectoryUnreadable { dir } => CutErrorView::DirectoryUnreadable { dir: dir@ },
            CutError::MoveFailed { entry, cause, moved } => CutErrorView::MoveFailed {
                entry: entry@,
                cause: *cause,
                moved: *moved as nat,
            },
            CutError::DirectoryNotEmpty { dir, moved } => CutErrorView::DirectoryNotEmpty {
                dir: dir@,
                moved: *moved as nat,
            },
            CutError::DirectoryRemovalFailed { dir, moved } => CutErrorView::DirectoryRemovalFailed {
                dir: dir@,
                moved: *moved as nat,
            },
        }
    }
}

/// What to tell the user of a failed cut: what could not be done, and to
/// which path.
pub open spec fn cut_error_text(error: CutErrorView) -> Seq<char> {
    match error {
        CutErrorView::DirectoryUnreadable { dir } => "cannot list the directory "@ + dir,
        CutErrorView::MoveFailed { entry, cause, moved } => move_failure_text(entry, cause),
        CutErrorView::DirectoryNotEmpty { dir, moved } => "cannot remove the directory "@ + dir
            + ": it is not empty"@,
        CutErrorView::DirectoryRemovalFailed { dir, moved } => "cannot remove the directory "@
            + dir,
    }
}

impl CutError {
    /// Words the failure for the user.
    pub fn describe(&self) -> (text: String)
        ensures
            text@ == cut_error_text(self@),
    {
        match self {
            CutError::DirectoryUnreadable { dir } => String::from_str(
                "cannot list the directory ",
            ).concat(dir.as_str()),
            CutError::MoveFailed { entry, cause, moved } => describe_move_failure(entry, *cause),
            CutError::DirectoryNotEmpty { dir, moved } => String::from_str(
                "cannot remove the directory ",
            ).concat(dir.as_str()).concat(": it is not empty"),
            CutError::DirectoryRemovalFailed { dir, moved } => String::from_str(
                "cannot remove the directory ",
            ).concat(dir.as_str()),
        }
    }
}

#[derive(Debug)]
enum Phase {
    Scanning { target_dir: String, new_parent: String },
    Moving { target_dir: String, sequencer: MoveSequencer },
    Removing { target_dir: String, moved: MoveCount },
}

/// A cut under way, between a request and its reply.
#[derive(Debug)]
pub struct Extractor {
    phase: Phase,
}

/// What an [`Extractor`] stands for: the request that is out, and what is
/// known so far.
pub enum ExtractorView {
    /// The scan of `target_dir` is out; its entries are to go to
    /// `new_parent`.
    Scanning { target_dir: Seq<char>, new_parent: Seq<char> },
    /// A move out of `target_dir` is out.
    Moving { target_dir: Seq<char>, sequencer: SequencerView },
    /// All `moved` entries are out of `target_dir`, and its removal is out.
    Removing { target_dir: Seq<char>, moved: nat },
}

impl View for Extractor {
    type V = ExtractorView;

    closed spec fn view(&self) -> ExtractorView {
        match self.phase {
            Phase::Scanning { target_dir, new_parent } => ExtractorView::Scanning {
                target_dir: target_dir@,
                new_parent: new_parent@,
            },
            Phase::Moving { target_dir, sequencer } => ExtractorView::Moving {
                target_dir: target_dir@,
                sequencer: sequencer@,
            },
            Phase::Removing { target_dir, moved } => ExtractorView::Removing {
                target_dir: target_dir@,
                moved: moved as nat,
            },
        }
    }
}

/// Where a cut stands: refused, at a request to carry out, or at its end.
#[derive(Debug)]
pub enum CutStep {
    /// The target is the working directory. Nothing was asked for and
    /// nothing is to be done; this is no failure.
    Refused,
    /// Carry out the request and hand the reply to [`Extractor::step`].
    Continue(Extractor, Request),
    /// The cut is over. `Ok` holds the number of entries moved; the target
    /// is gone.
    Finished(Result<MoveCount, CutError>),
}

/// What a [`CutStep`] stands for.
pub enum CutStepView {
    Refused,
    Continue(ExtractorView, RequestView),
    Finished(Result<nat, CutErrorView>),
}

impl View for CutStep {
    type V = CutStepView;

    open spec fn view(&self) -> CutStepView {
        match self {
            CutStep::Refused => CutStepView::Refused,
            CutStep::Continue(extractor, request) => CutStepView::Continue(extractor@, request@),
            CutStep::Finished(Ok(moved)) => CutStepView::Finished(Ok(*moved as nat)),
            CutStep::Finished(Err(error)) => CutStepView::Finished(Err(error@)),
        }
    }
}

/// Where the entries of `target_dir` go: to what its path has in front of
/// its last name, or to the working directory if that is nothing.
pub open spec fn new_parent_of(target_dir: Seq<char>, cwd: Seq<char>) -> Seq<char> {
    if parent_text(target_dir).len() == 0 {
        cwd
    } else {
        parent_text(target_dir)
    }
}

/// How a cut starts: refused if the target is the working directory, else
/// with the scan of the target.
pub open spec fn cut_begun(target_dir: Seq<char>, cwd: Seq<char>) -> CutStepView {
    if denotes_cwd(target_dir, cwd) {
        CutStepView::Refused
    } else {
        CutStepView::Continue(
            ExtractorView::Scanning { target_dir, new_parent: new_parent_of(target_dir, cwd) },
            RequestView::Scan { dir: target_dir },
        )
    }
}

/// A sequence of moves, seen as a step of the cut that makes them: once
/// every entry is moved, the target is to be removed.
pub open spec fn cut_moves(target_dir: Seq<char>, moves: SequencedView) -> CutStepView {
    match moves {
        SequencedView::Next(sequencer, request) => CutStepView::Continue(
            ExtractorView::Moving { target_dir, sequencer },
            request,
        ),
        SequencedView::AllMoved { moved } => CutStepView::Continue(
            ExtractorView::Removing { target_dir, moved },
            RequestView::RemoveDir { path: target_dir },
        ),
        SequencedView::Stopped { entry, cause, moved } => CutStepView::Finished(
            Err(CutErrorView::MoveFailed { entry, cause, moved }),
        ),
    }
}

/// How a cut ends when `reply` answers the removal of the target, after
/// `moved` entries were moved out of it. Only `Done` is a success.
pub open spec fn removal_result(target_dir: Seq<char>, moved: nat, reply: ReplyView) -> Result<
    nat,
    CutErrorView,
> {
    match reply {
        ReplyView::Done => Ok(moved),
        ReplyView::Failed(Trouble::NotEmpty) => Err(
            CutErrorView::DirectoryNotEmpty { dir: target_dir, moved },
        ),
        _ => Err(CutErrorView::DirectoryRemovalFailed { dir: target_dir, moved }),
    }
}

/// How a cut goes on when `reply` answers the request that is out.
pub open spec fn cut_step(extractor: ExtractorView, reply: ReplyView) -> CutStepView {
    match extractor {
        ExtractorView::Scanning { target_dir, new_parent } => match reply {
            ReplyView::Listed(names) => cut_moves(
                target_dir,
                sequence_from(listing(target_dir, names), new_parent, 0),
            ),
            _ => CutStepView::Finished(Err(CutErrorView::DirectoryUnreadable { dir: target_dir })),
        },
        ExtractorView::Moving { target_dir, sequencer } => cut_moves(
            target_dir,
            settled(sequencer, reply),
        ),
        ExtractorView::Removing { target_dir, moved } => CutStepView::Finished(
            removal_result(target_dir, moved, reply),
        ),
    }
}

/// Where a cut that stands at `step` gets as `replies` come in, one for each
/// request. Replies behind the end of the cut are not looked at.
pub open spec fn cut_run(step: CutStepView, replies: Seq<ReplyView>) -> CutStepView
    decreases replies.len(),
{
    match step {
        CutStepView::Continue(extractor, _) if replies.len() > 0 => cut_run(
            cut_step(extractor, replies.first()),
            replies.drop_first(),
        ),
        _ => step,
    }
}

/// The requests that a cut makes from `step` on as `replies` come in: those
/// that were answered and, last, the one still out.
pub open spec fn cut_issued(step: CutStepView, replies: Seq<ReplyView>) -> Seq<RequestView>
    decreases replies.len(),
{
    match step {
        CutStepView::Continue(extractor, request) => if replies.len() > 0 {
            seq![request] + cut_issued(cut_step(extractor, replies.first()), replies.drop_first())
        } else {
            seq![request]
        },
        _ => Seq::empty(),
    }
}

/// Everything that a cut of a directory other than the working directory
/// asks for when nothing fails, in order: the scan, the move of each entry
/// found into the parent, and the removal of the target.
pub open spec fn cut_plan(target_dir: Seq<char>, cwd: Seq<char>, names: Seq<Seq<char>>) -> Seq<
    RequestView,
> {
    seq![RequestView::Scan { dir: target_dir }] + moves_to(
        listing(target_dir, names),
        new_parent_of(target_dir, cwd),
    ) + seq![RequestView::RemoveDir { path: target_dir }]
}

/// Starts cutting `target_dir` out, with `cwd` as the working directory: the
/// one directory that is never cut, and the place where the entries go when
/// the target's path names no parent.
pub fn cut(target_dir: &str, cwd: &str) -> (first: CutStep)
    ensures
        first@ == cut_begun(target_dir@, cwd@),
{
    if is_cwd(target_dir, cwd) {
        return CutStep::Refused;
    }
    let parent = parent_of(target_dir);
    let new_parent = if parent.as_str().is_empty() {
        String::from_str(cwd)
    } else {
        parent
    };
    let phase = Phase::Scanning { target_dir: String::from_str(target_dir), new_parent };
    CutStep::Continue(Extractor { phase }, Request::Scan { dir: String::from_str(target_dir) })
}

fn after_move(target_dir: String, moves: Sequenced) -> (next: CutStep)
    ensures
        next@ == cut_moves(target_dir@, moves@),
{
    match moves {
        Sequenced::Next(sequencer, request) => CutStep::Continue(
            Extractor { phase: Phase::Moving { target_dir, sequencer } },
            request,
        ),
        Sequenced::AllMoved { moved } => {
            let request = Request::RemoveDir { path: target_dir.clone() };
            CutStep::Continue(Extractor { phase: Phase::Removing { target_dir, moved } }, request)
        },
        Sequenced::Stopped { entry, cause, moved } => CutStep::Finished(
            Err(CutError::MoveFailed { entry, cause, moved }),
        ),
    }
}

impl Extractor {
    /// Takes the reply to the request that is out and says how the cut goes
    /// on.
    pub fn step(self, reply: Reply) -> (next: CutStep)
        ensures
            next@ == cut_step(self@, reply@),
    {
        match self.phase {
            Phase::Scanning { target_dir, new_parent } => match reply {
                Reply::Listed(names) => {
                    let entries = scan(target_dir.as_str(), &names);
                    after_move(target_dir, MoveSequencer::begin(entries, new_parent))
                },
                _ => CutStep::Finished(Err(CutError::DirectoryUnreadable { dir: target_dir })),
            },
            Phase::Moving { target_dir, sequencer } => after_move(
                target_dir,
                sequencer.settle(&reply),
            ),
            Phase::Removing { target_dir, moved } => match reply {
                Reply::Done => CutStep::Finished(Ok(moved)),
                Reply::Failed(Trouble::NotEmpty) => CutStep::Finished(
                    Err(CutError::DirectoryNotEmpty { dir: target_dir, moved }),
                ),
                _ => CutStep::Finished(
                    Err(CutError::DirectoryRemovalFailed { dir: target_dir, moved }),
                ),
            },
        }
    }
}

} // verus!
