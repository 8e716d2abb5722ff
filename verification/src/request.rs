//! What passes between the library and whoever touches the filesystem for
//! it: one request at a time, answered by one reply.

use vstd::prelude::*;

verus! {

/// One thing to do to the filesystem. Each is a single blocking call; none is
/// retried.
#[derive(Clone, Debug, PartialEq, Eq)]
pub enum Request {
    /// List the immediate entries of `dir`, files and subdirectories alike.
    Scan { dir: String },
    /// Create the directory `path`, which must not exist yet.
    CreateDir { path: String },
    /// Rename `from` to `to`, in one step.
    Move { from: String, to: String },
    /// Remove the directory `path`, which must be empty.
    RemoveDir { path: String },
}

/// What a [`Request`] stands for.
pub enum RequestView {
    Scan { dir: Seq<char> },
    CreateDir { path: Seq<char> },
    Move { from: Seq<char>, to: Seq<char> },
    RemoveDir { path: Seq<char> },
}

impl View for Request {
    type V = RequestView;

    open spec fn view(&self) -> RequestView {
        match self {
            Request::Scan { dir } => RequestView::Scan { dir: dir@ },
            Request::CreateDir { path } => RequestView::CreateDir { path: path@ },
            Request::Move { from, to } => RequestView::Move { from: from@, to: to@ },
            Request::RemoveDir { path } => RequestView::RemoveDir { path: path@ },
        }
    }
}

/// Why the filesystem refused a request, as far as the library tells causes
/// apart.
#[derive(Clone, Copy, Debug, PartialEq, Eq)]
pub enum Trouble {
    /// Something already has the name that was to be taken.
    AlreadyExists,
    /// The directory to remove still has entries.
    NotEmpty,
    /// Anything else: permissions, a missing path, another volume.
    Other,
}

/// How a request went. A reply of a form that does not fit the request it
/// answers, such as `Done` for a scan, counts as the failure of that request.
#[derive(Clone, Debug, PartialEq, Eq)]
pub enum Reply {
    /// The scan found these names, in this order.
    Listed(Vec<String>),
    /// The request was carried out.
    Done,
    /// The request failed and changed nothing.
    Failed(Trouble),
}

/// What a [`Reply`] stands for.
pub enum ReplyView {
    Listed(Seq<Seq<char>>),
    Done,
    Failed(Trouble),
}

impl View for Reply {
    type V = ReplyView;

    open spec fn view(&self) -> ReplyView {
        match self {
            Reply::Listed(names) => ReplyView::Listed(names.deep_view()),
            Reply::Done => ReplyView::Done,
            Reply::Failed(trouble) => ReplyView::Failed(*trouble),
        }
    }
}

} // verus!
