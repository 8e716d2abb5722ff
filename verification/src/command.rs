//! The two commands, as they come in from outside, and how each one starts.

use vstd::prelude::*;
use crate::cut::{cut, cut_begun, CutStep, CutStepView};
use crate::group::{group, group_begun, GroupStep, GroupStepView};
use crate::path::{resolve, resolved};

verus! {

/// One command. It is made once, from what the user asked for, and not
/// changed after.
#[derive(Clone, Debug, PartialEq, Eq)]
pub enum Command {
    /// Group the entries of `source_dir` whose names `pattern` selects into
    /// its subdirectory `dest_dir`; without a `dest_dir`, into the
    /// subdirectory that the pattern names.
    Group { pattern: String, source_dir: String, dest_dir: Option<String> },
    /// Cut `target_dir` out. The target is given relative to `source_dir`,
    /// unless its path is absolute.
    Cut { target_dir: String, source_dir: String },
}

/// What a [`Command`] stands for.
pub enum CommandView {
    Group { pattern: Seq<char>, source_dir: Seq<char>, dest_dir: Option<Seq<char>> },
    Cut { target_dir: Seq<char>, source_dir: Seq<char> },
}

impl View for Command {
    type V = CommandView;

    open spec fn view(&self) -> CommandView {
        match self {
            Command::Group { pattern, source_dir, dest_dir } => CommandView::Group {
                pattern: pattern@,
                source_dir: source_dir@,
                dest_dir: match dest_dir {
                    Some(name) => Some(name@),
                    None => None,
                },
            },
            Command::Cut { target_dir, source_dir } => CommandView::Cut {
                target_dir: target_dir@,
                source_dir: source_dir@,
            },
        }
    }
}

/// A command that has started: the first step of the operation it asks for.
#[derive(Debug)]
pub enum Started {
    Group(GroupStep),
    Cut(CutStep),
}

/// What a [`Started`] stands for.
pub enum StartedView {
    Group(GroupStepView),
    Cut(CutStepView),
}

impl View for Started {
    type V = StartedView;

    open spec fn view(&self) -> StartedView {
        match self {
            Started::Group(step) => StartedView::Group(step@),
            Started::Cut(step) => StartedView::Cut(step@),
        }
    }
}

/// How a command starts when `cwd` is the working directory: a grouping as
/// its three parts say, a cut with its target resolved against its source
/// directory.
pub open spec fn started(command: CommandView, cwd: Seq<char>) -> StartedView {
    match command {
        CommandView::Group { pattern, source_dir, dest_dir } => StartedView::Group(
            group_begun(pattern, source_dir, dest_dir),
        ),
        CommandView::Cut { target_dir, source_dir } => StartedView::Cut(
            cut_begun(resolved(source_dir, target_dir), cwd),
        ),
    }
}

impl Command {
    /// Starts the operation that the command asks for, with `cwd` as the
    /// working directory.
    pub fn start(&self, cwd: &str) -> (first: Started)
        ensures
            first@ == started(self@, cwd@),
    {
        match self {
            Command::Group { pattern, source_dir, dest_dir } => {
                let destination = match dest_dir {
                    Some(name) => Some(name.as_str()),
                    None => None,
                };
                Started::Group(group(pattern.as_str(), source_dir.as_str(), destination))
            },
            Command::Cut { target_dir, source_dir } => {
                let target = resolve(source_dir.as_str(), target_dir.as_str());
                Started::Cut(cut(target.as_str(), cwd))
            },
        }
    }
}

} // verus!
