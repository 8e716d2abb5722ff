//! Moving entries to a new parent, one rename at a time.
//!
//! Both operations of the library route their moves through here. The moves
//! go out in the order of the entries; the first one that fails ends the
//! sequence, and what was moved before it stays moved.

use vstd::prelude::*;
use crate::entry::{DirectoryEntry, EntryView};
use crate::path::{join, joined};
use crate::request::{Reply, ReplyView, Request, RequestView, Trouble};

verus! {

/// How many entries were moved.
pub type MoveCount = usize;

/// Why one move failed.
#[derive(Clone, Copy, Debug, PartialEq, Eq)]
pub enum MoveError {
    /// The new parent already has an entry of that name.
    NameCollision,
    /// The filesystem refused for another reason.
    MoveFailed,
}

/// What to tell the user of a move that failed: the path that could not be
/// moved, and that its name was taken if that was the cause.
pub open spec fn move_failure_text(entry: EntryView, cause: MoveError) -> Seq<char> {
    match cause {
        MoveError::NameCollision => "cannot move "@ + entry.path + ": the name is taken"@,
        MoveError::MoveFailed => "cannot move "@ + entry.path,
    }
}

/// Words the failure of a move for the user.
pub fn describe_move_failure(entry: &DirectoryEntry, cause: MoveError) -> (text: String)
    ensures
        text@ == move_failure_text(entry@, cause),
{
    let start = String::from_str("cannot move ").concat(entry.path.as_str());
    match cause {
        MoveError::NameCollision => start.concat(": the name is taken"),
        MoveError::MoveFailed => start,
    }
}

/// The request that moves `entry` to `new_parent`, keeping its name.
pub open spec fn move_request(entry: EntryView, new_parent: Seq<char>) -> RequestView {
    RequestView::Move { from: entry.path, to: joined(new_parent, entry.name) }
}

/// What a reply says of the move that it answers. Only `Done` is a success.
pub open spec fn move_result(reply: ReplyView) -> Result<(), MoveError> {
    match reply {
        ReplyView::Done => Ok(()),
        ReplyView::Failed(Trouble::AlreadyExists) => Err(MoveError::NameCollision),
        _ => Err(MoveError::MoveFailed),
    }
}

/// A sequence of moves under way: `entries` are to go to `new_parent`, the
/// first `moved` of them are there, and the move of the next one is out.
#[derive(Debug)]
pub struct MoveSequencer {
    entries: Vec<DirectoryEntry>,
    new_parent: String,
    moved: usize,
}

/// What a [`MoveSequencer`] stands for.
pub struct SequencerView {
    pub entries: Seq<EntryView>,
    pub new_parent: Seq<char>,
    pub moved: nat,
}

/// Where a sequence of moves stands after a step.
#[derive(Debug)]
pub enum Sequenced {
    /// This move is to be made next.
    Next(MoveSequencer, Request),
    /// Every entry was moved.
    AllMoved { moved: MoveCount },
    /// The move of `entry` failed. The `moved` entries before it stay where
    /// they were moved to; `entry` and those behind it stay where they were.
    Stopped { entry: DirectoryEntry, cause: MoveError, moved: MoveCount },
}

/// What a [`Sequenced`] stands for.
pub enum SequencedView {
    Next(SequencerView, RequestView),
    AllMoved { moved: nat },
    Stopped { entry: EntryView, cause: MoveError, moved: nat },
}

impl View for Sequenced {
    type V = SequencedView;

    open spec fn view(&self) -> SequencedView {
        match self {
            Sequenced::Next(sequencer, request) => SequencedView::Next(sequencer@, request@),
            Sequenced::AllMoved { moved } => SequencedView::AllMoved { moved: *moved as nat },
            Sequenced::Stopped { entry, cause, moved } => SequencedView::Stopped {
                entry: entry@,
                cause: *cause,
                moved: *moved as nat,
            },
        }
    }
}

/// The sequence once the first `moved` of `entries` are at `new_parent`: the
/// move of the next entry, or the end when none is left.
pub open spec fn sequence_from(
    entries: Seq<EntryView>,
    new_parent: Seq<char>,
    moved: nat,
) -> SequencedView {
    if moved < entries.len() {
        SequencedView::Next(
            SequencerView { entries, new_parent, moved },
            move_request(entries[moved as int], new_parent),
        )
    } else {
        SequencedView::AllMoved { moved: entries.len() }
    }
}

/// The sequence after `reply` has answered the move that was out.
pub open spec fn settled(sequencer: SequencerView, reply: ReplyView) -> SequencedView {
    match move_result(reply) {
        Ok(()) => sequence_from(sequencer.entries, sequencer.new_parent, sequencer.moved + 1),
        Err(cause) => SequencedView::Stopped {
            entry: sequencer.entries[sequencer.moved as int],
            cause,
            moved: sequencer.moved,
        },
    }
}

/// The moves that bring all of `entries` to `new_parent`, in their order.
pub open spec fn moves_to(entries: Seq<EntryView>, new_parent: Seq<char>) -> Seq<RequestView> {
    Seq::new(entries.len(), |i: int| move_request(entries[i], new_parent))
}

/// How many replies at the front are `Done`: how far a sequence of moves
/// gets before something fails or the replies run out.
pub open spec fn leading_done(replies: Seq<ReplyView>) -> nat
    decreases replies.len(),
{
    if replies.len() > 0 && replies.first() == ReplyView::Done {
        1 + leading_done(replies.drop_first())
    } else {
        0
    }
}

/// The leading `Done` replies are `Done`, and what follows them, if anything,
/// is not.
pub proof fn lemma_leading_done(replies: Seq<ReplyView>)
    ensures
        leading_done(replies) <= replies.len(),
        forall|i: int| 0 <= i < leading_done(replies) ==> replies[i] == ReplyView::Done,
        leading_done(replies) < replies.len() ==> replies[leading_done(replies) as int]
            != ReplyView::Done,
    decreases replies.len(),
{
    if replies.len() > 0 && replies.first() == ReplyView::Done {
        let rest = replies.drop_first();
        lemma_leading_done(rest);
        assert forall|i: int| 0 <= i < leading_done(replies) implies replies[i]
            == ReplyView::Done by {
            if i > 0 {
                assert(replies[i] == rest[i - 1]);
            }
        }
    }
}

/// Replies that are `Done` up to position `count` lead with at least `count`
/// of them.
pub proof fn lemma_done_up_to(replies: Seq<ReplyView>, count: nat)
    requires
        count <= replies.len(),
        forall|i: int| 0 <= i < count ==> replies[i] == ReplyView::Done,
    ensures
        leading_done(replies) >= count,
    decreases count,
{
    if count > 0 {
        let rest = replies.drop_first();
        assert forall|i: int| 0 <= i < count - 1 implies rest[i] == ReplyView::Done by {
            assert(rest[i] == replies[i + 1]);
        }
        lemma_done_up_to(rest, (count - 1) as nat);
    }
}

/// Reads off a reply whether the move that it answers was made.
pub fn judge_move(reply: &Reply) -> (result: Result<(), MoveError>)
    ensures
        result == move_result(reply@),
{
    match reply {
        Reply::Done => Ok(()),
        Reply::Failed(Trouble::AlreadyExists) => Err(MoveError::NameCollision),
        _ => Err(MoveError::MoveFailed),
    }
}

impl View for MoveSequencer {
    type V = SequencerView;

    closed spec fn view(&self) -> SequencerView {
        SequencerView {
            entries: self.entries.deep_view(),
            new_parent: self.new_parent@,
            moved: self.moved as nat,
        }
    }
}

impl MoveSequencer {
    #[verifier::type_invariant]
    spec fn pending(&self) -> bool {
        self.moved < self.entries.len()
    }

    /// Starts moving `entries` to `new_parent`.
    pub fn begin(entries: Vec<DirectoryEntry>, new_parent: String) -> (first: Sequenced)
        ensures
            first@ == sequence_from(entries.deep_view(), new_parent@, 0),
    {
        Self::proceed(entries, new_parent, 0)
    }

    /// Takes the reply to the move that is out, and goes on to the next move
    /// or stops.
    pub fn settle(self, reply: &Reply) -> (next: Sequenced)
        ensures
            next@ == settled(self@, reply@),
    {
        proof {
            use_type_invariant(&self);
        }
        let MoveSequencer { mut entries, new_parent, moved } = self;
        match judge_move(reply) {
            Ok(()) => Self::proceed(entries, new_parent, moved + 1),
            Err(cause) => {
                let entry = entries.remove(moved);
                Sequenced::Stopped { entry, cause, moved }
            },
        }
    }

    fn proceed(entries: Vec<DirectoryEntry>, new_parent: String, moved: usize) -> (next: Sequenced)
        requires
            moved <= entries.len(),
        ensures
            next@ == sequence_from(entries.deep_view(), new_parent@, moved as nat),
    {
        if moved < entries.len() {
            let request = Request::Move {
                from: entries[moved].path.clone(),
                to: join(new_parent.as_str(), entries[moved].name.as_str()),
            };
            Sequenced::Next(MoveSequencer { entries, new_parent, moved }, request)
        } else {
            Sequenced::AllMoved { moved: entries.len() }
        }
    }
}

} // verus!
