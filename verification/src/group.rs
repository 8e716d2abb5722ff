//! Grouping: the entries of a directory whose names a pattern selects go
//! into a new subdirectory of it.
//!
//! The source directory is scanned once. If nothing is selected, that is the
//! end, and nothing was touched. Otherwise the destination is created and
//! the selected entries are moved into it, in the order of the scan. The
//! first move that fails ends the run; nothing is rolled back.

use vstd::prelude::*;
use crate::entry::{listing, scan, select, selected, DirectoryEntry, EntryView};
use crate::mover::{describe_move_failure, move_failure_text, moves_to, sequence_from, settled,
    MoveCount, MoveError, MoveSequencer, Sequenced, SequencedView, SequencerView};
use crate::path::{join, joined};
use crate::request::{Reply, ReplyView, Request, RequestView, Trouble};

verus! {

/// Why a grouping failed.
#[derive(Clone, Debug, PartialEq, Eq)]
pub enum GroupError {
    /// The source directory could not be listed. Nothing was touched.
    DirectoryUnreadable { dir: String },
    /// Something already has the destination's path. Nothing was moved.
    DestinationExists { path: String },
    /// The destination could not be created. Nothing was moved.
    DestinationUnwritable { path: String },
    /// The move of `entry` failed. The first `moved` selected entries are in
    /// the destination and stay there; `entry` and the selected entries
    /// behind it are still in the source directory.
    MoveFailed { entry: DirectoryEntry, cause: MoveError, moved: MoveCount },
}

/// What a [`GroupError`] stands for.
pub enum GroupErrorView {
    DirectoryUnreadable { dir: Seq<char> },
    DestinationExists { path: Seq<char> },
    DestinationUnwritable { path: Seq<char> },
    MoveFailed { entry: EntryView, cause: MoveError, moved: nat },
}

impl View for GroupError {
    type V = GroupErrorView;

    open spec fn view(&self) -> GroupErrorView {
        match self {
            GroupError::DirectoryUnreadable { dir } => GroupErrorView::DirectoryUnreadable {
                dir: dir@,
            },
            GroupError::DestinationExists { path } => GroupErrorView::DestinationExists {
                path: path@,
            },
            GroupError::DestinationUnwritable { path } => GroupErrorView::DestinationUnwritable {
                path: path@,
            },
            GroupError::MoveFailed { entry, cause, moved } => GroupErrorView::MoveFailed {
                entry: entry@,
                cause: *cause,
                moved: *moved as nat,
            },
        }
    }
}

/// What to tell the user of a failed grouping: what could not be done, and
/// to which path.
pub open spec fn group_error_text(error: GroupErrorView) -> Seq<char> {
    match error {
        GroupErrorView::DirectoryUnreadable { dir } => "cannot list the directory "@ + dir,
        GroupErrorView::DestinationExists { path } => "cannot create the directory "@ + path
            + ": it already exists"@,
        GroupErrorView::DestinationUnwritable { path } => "cannot create the directory "@ + path,
        GroupErrorView::MoveFailed { entry, cause, moved } => move_failure_text(entry, cause),
    }
}

impl GroupError {
    /// Words the failure for the user.
    pub fn describe(&self) -> (text: String)
        ensures
            text@ == group_error_text(self@),
    {
        match self {
            GroupError::DirectoryUnreadable { dir } => String::from_str(
                "cannot list the directory ",
            ).concat(dir.as_str()),
            GroupError::DestinationExists { path } => String::from_str(
                "cannot create the directory ",
            ).concat(path.as_str()).concat(": it already exists"),
            GroupError::DestinationUnwritable { path } => String::from_str(
                "cannot create the directory ",
            ).concat(path.as_str()),
            GroupError::MoveFailed { entry, cause, moved } => describe_move_failure(entry, *cause),
        }
    }
}

#[derive(Debug)]
enum Phase {
    Scanning { source_dir: String, pattern: String, dest_path: String },
    Creating { dest_path: String, picked: Vec<DirectoryEntry> },
    Moving { sequencer: MoveSequencer },
}

/// A grouping under way, between a request and its reply.
#[derive(Debug)]
pub struct Grouper {
    phase: Phase,
}

/// What a [`Grouper`] stands for: the request that is out, and what is known
/// so far.
pub enum GrouperView {
    /// The scan of `source_dir` is out.
    Scanning { source_dir: Seq<char>, pattern: Seq<char>, dest_path: Seq<char> },
    /// The creation of `dest_path` is out; `picked` are to go there.
    Creating { dest_path: Seq<char>, picked: Seq<EntryView> },
    /// A move into the destination is out.
    Moving { sequencer: SequencerView },
}

impl View for Grouper {
    type V = GrouperView;

    closed spec fn view(&self) -> GrouperView {
        match self.phase {
            Phase::Scanning { source_dir, pattern, dest_path } => GrouperView::Scanning {
                source_dir: source_dir@,
                pattern: pattern@,
                dest_path: dest_path@,
            },
            Phase::Creating { dest_path, picked } => GrouperView::Creating {
                dest_path: dest_path@,
                picked: picked.deep_view(),
            },
            Phase::Moving { sequencer } => GrouperView::Moving { sequencer: sequencer@ },
        }
    }
}

/// Where a grouping stands: at a request to carry out, or at its end.
#[derive(Debug)]
pub enum GroupStep {
    /// Carry out the request and hand the reply to [`Grouper::step`].
    Continue(Grouper, Request),
    /// The grouping is over. `Ok` holds the number of entries moved, which
    /// is 0 exactly when the pattern selected nothing.
    Finished(Result<MoveCount, GroupError>),
}

/// What a [`GroupStep`] stands for.
pub enum GroupStepView {
    Continue(GrouperView, RequestView),
    Finished(Result<nat, GroupErrorView>),
}

impl View for GroupStep {
    type V = GroupStepView;

    open spec fn view(&self) -> GroupStepView {
        match self {
            GroupStep::Continue(grouper, request) => GroupStepView::Continue(grouper@, request@),
            GroupStep::Finished(Ok(moved)) => GroupStepView::Finished(Ok(*moved as nat)),
            GroupStep::Finished(Err(error)) => GroupStepView::Finished(Err(error@)),
        }
    }
}

/// The name of the destination: the one given, or the pattern itself.
pub open spec fn destination_name(pattern: Seq<char>, destination: Option<Seq<char>>) -> Seq<
    char,
> {
    match destination {
        Some(name) => name,
        None => pattern,
    }
}

/// How a grouping starts: with the scan of the source directory.
pub open spec fn group_begun(
    pattern: Seq<char>,
    source_dir: Seq<char>,
    destination: Option<Seq<char>>,
) -> GroupStepView {
    GroupStepView::Continue(
        GrouperView::Scanning {
            source_dir,
            pattern,
            dest_path: joined(source_dir, destination_name(pattern, destination)),
        },
        RequestView::Scan { dir: source_dir },
    )
}

/// A sequence of moves, seen as a step of the grouping that makes them.
pub open spec fn group_moves(moves: SequencedView) -> GroupStepView {
    match moves {
        SequencedView::Next(sequencer, request) => GroupStepView::Continue(
            GrouperView::Moving { sequencer },
            request,
        ),
        SequencedView::AllMoved { moved } => GroupStepView::Finished(Ok(moved)),
        SequencedView::Stopped { entry, cause, moved } => GroupStepView::Finished(
            Err(GroupErrorView::MoveFailed { entry, cause, moved }),
        ),
    }
}

/// How a grouping goes on when `reply` answers the request that is out.
pub open spec fn group_step(grouper: GrouperView, reply: ReplyView) -> GroupStepView {
    match grouper {
        GrouperView::Scanning { source_dir, pattern, dest_path } => match reply {
            ReplyView::Listed(names) => {
                let picked = selected(listing(source_dir, names), pattern);
                if picked.len() == 0 {
                    GroupStepView::Finished(Ok(0))
                } else {
                    GroupStepView::Continue(
                        GrouperView::Creating { dest_path, picked },
                        RequestView::CreateDir { path: dest_path },
                    )
                }
            },
            _ => GroupStepView::Finished(
                Err(GroupErrorView::DirectoryUnreadable { dir: source_dir }),
            ),
        },
        GrouperView::Creating { dest_path, picked } => match reply {
            ReplyView::Done => group_moves(sequence_from(picked, dest_path, 0)),
            ReplyView::Failed(Trouble::AlreadyExists) => GroupStepView::Finished(
                Err(GroupErrorView::DestinationExists { path: dest_path }),
            ),
            _ => GroupStepView::Finished(
                Err(GroupErrorView::DestinationUnwritable { path: dest_path }),
            ),
        },
        GrouperView::Moving { sequencer } => group_moves(settled(sequencer, reply)),
    }
}

/// Where a grouping that stands at `step` gets as `replies` come in, one for
/// each request. Replies behind the end of the grouping are not looked at.
pub open spec fn group_run(step: GroupStepView, replies: Seq<ReplyView>) -> GroupStepView
    decreases replies.len(),
{
    match step {
        GroupStepView::Continue(grouper, _) if replies.len() > 0 => group_run(
            group_step(grouper, replies.first()),
            replies.drop_first(),
        ),
        _ => step,
    }
}

/// The requests that a grouping makes from `step` on as `replies` come in:
/// those that were answered and, last, the one still out.
pub open spec fn group_issued(step: GroupStepView, replies: Seq<ReplyView>) -> Seq<RequestView>
    decreases replies.len(),
{
    match step {
        GroupStepView::Continue(grouper, request) => if replies.len() > 0 {
            seq![request] + group_issued(group_step(grouper, replies.first()), replies.drop_first())
        } else {
            seq![request]
        },
        GroupStepView::Finished(_) => Seq::empty(),
    }
}

/// Everything that a grouping asks for when nothing fails, in order: the
/// scan and, if `names` holds a selected one, the creation of the
/// destination and the move of each selected entry into it.
pub open spec fn group_plan(
    pattern: Seq<char>,
    source_dir: Seq<char>,
    destination: Option<Seq<char>>,
    names: Seq<Seq<char>>,
) -> Seq<RequestView> {
    let picked = selected(listing(source_dir, names), pattern);
    let dest_path = joined(source_dir, destination_name(pattern, destination));
    if picked.len() == 0 {
        seq![RequestView::Scan { dir: source_dir }]
    } else {
        seq![RequestView::Scan { dir: source_dir }, RequestView::CreateDir { path: dest_path }]
            + moves_to(picked, dest_path)
    }
}

/// How many entries a grouping has moved when it stands at `step`.
pub open spec fn group_moved(step: GroupStepView) -> nat {
    match step {
        GroupStepView::Continue(GrouperView::Moving { sequencer }, _) => sequencer.moved,
        GroupStepView::Finished(Ok(moved)) => moved,
        GroupStepView::Finished(Err(GroupErrorView::MoveFailed { moved, .. })) => moved,
        _ => 0,
    }
}

/// Starts grouping the entries of `source_dir` whose names `pattern`
/// selects. They are to go into the subdirectory of `source_dir` that
/// `destination` names, or that the pattern names if none is given.
pub fn group(pattern: &str, source_dir: &str, destination: Option<&str>) -> (first: GroupStep)
    ensures
        first@ == group_begun(
            pattern@,
            source_dir@,
            match destination {
                Some(name) => Some(name@),
                None => None,
            },
        ),
{
    let dest_path = match destination {
        Some(name) => join(source_dir, name),
        None => join(source_dir, pattern),
    };
    let phase = Phase::Scanning {
        source_dir: String::from_str(source_dir),
        pattern: String::from_str(pattern),
        dest_path,
    };
    GroupStep::Continue(Grouper { phase }, Request::Scan { dir: String::from_str(source_dir) })
}

fn after_move(moves: Sequenced) -> (next: GroupStep)
    ensures
        next@ == group_moves(moves@),
{
    match moves {
        Sequenced::Next(sequencer, request) => GroupStep::Continue(
            Grouper { phase: Phase::Moving { sequencer } },
            request,
        ),
        Sequenced::AllMoved { moved } => GroupStep::Finished(Ok(moved)),
        Sequenced::Stopped { entry, cause, moved } => GroupStep::Finished(
            Err(GroupError::MoveFailed { entry, cause, moved }),
        ),
    }
}

impl Grouper {
    /// Takes the reply to the request that is out and says how the grouping
    /// goes on.
    pub fn step(self, reply: Reply) -> (next: GroupStep)
        ensures
            next@ == group_step(self@, reply@),
    {
        match self.phase {
            Phase::Scanning { source_dir, pattern, dest_path } => match reply {
                Reply::Listed(names) => {
                    let picked = select(scan(source_dir.as_str(), &names), pattern.as_str());
                    if picked.len() == 0 {
                        GroupStep::Finished(Ok(0))
                    } else {
                        let request = Request::CreateDir { path: dest_path.clone() };
                        GroupStep::Continue(
                            Grouper { phase: Phase::Creating { dest_path, picked } },
                            request,
                        )
                    }
                },
                _ => GroupStep::Finished(Err(GroupError::DirectoryUnreadable { dir: source_dir })),
            },
            Phase::Creating { dest_path, picked } => match reply {
                Reply::Done => after_move(MoveSequencer::begin(picked, dest_path)),
                Reply::Failed(Trouble::AlreadyExists) => GroupStep::Finished(
                    Err(GroupError::DestinationExists { path: dest_path }),
                ),
                _ => GroupStep::Finished(Err(GroupError::DestinationUnwritable { path: dest_path })),
            },
            Phase::Moving { sequencer } => after_move(sequencer.settle(&reply)),
        }
    }
}

} // verus!
