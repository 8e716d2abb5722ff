//! What holds of every cut, whatever the filesystem answers.
//!
//! A cut is followed here from its first request on, through a sequence of
//! replies: `replies[0]` answers the scan, `replies[1 + i]` the move of the
//! entry number `i`, and the reply behind those the removal of the target.

use vstd::prelude::*;
use crate::cut::{cut_begun, cut_issued, cut_plan, cut_run, cut_step, new_parent_of,
    removal_result, CutErrorView, CutStepView, ExtractorView};
use crate::entry::listing;
use crate::mover::{leading_done, lemma_done_up_to, lemma_leading_done, move_request, move_result,
    moves_to, SequencerView};
use crate::path::denotes_cwd;
use crate::request::{ReplyView, RequestView};

verus! {

/// A cut with the move of the entry number `sequencer.moved` out.
spec fn moving(target_dir: Seq<char>, sequencer: SequencerView) -> CutStepView {
    CutStepView::Continue(
        ExtractorView::Moving { target_dir, sequencer },
        move_request(sequencer.entries[sequencer.moved as int], sequencer.new_parent),
    )
}

/// A cut with the removal of the target out.
spec fn removing(target_dir: Seq<char>, moved: nat) -> CutStepView {
    CutStepView::Continue(
        ExtractorView::Removing { target_dir, moved },
        RequestView::RemoveDir { path: target_dir },
    )
}

/// The failure that ends a cut when `reply` refuses the move of the entry
/// number `at`.
spec fn stopped(sequencer: SequencerView, at: nat, reply: ReplyView) -> CutStepView {
    CutStepView::Finished(
        Err(
            CutErrorView::MoveFailed {
                entry: sequencer.entries[at as int],
                cause: move_result(reply)->Err_0,
                moved: at,
            },
        ),
    )
}

/// Where a cut stands once all `moved` entries are out of the target and
/// `replies` are left for the removal.
spec fn removal(target_dir: Seq<char>, moved: nat, replies: Seq<ReplyView>) -> CutStepView {
    if replies.len() > 0 {
        CutStepView::Finished(removal_result(target_dir, moved, replies.first()))
    } else {
        removing(target_dir, moved)
    }
}

/// The removal is the last request of a cut.
proof fn lemma_removing_run(target_dir: Seq<char>, moved: nat, replies: Seq<ReplyView>)
    ensures
        cut_run(removing(target_dir, moved), replies) == removal(target_dir, moved, replies),
        cut_issued(removing(target_dir, moved), replies) == seq![
            RequestView::RemoveDir { path: target_dir },
        ],
{
    if replies.len() > 0 {
        let end = CutStepView::Finished(removal_result(target_dir, moved, replies.first()));
        assert(cut_run(end, replies.drop_first()) == end);
        assert(cut_issued(end, replies.drop_first()) =~= Seq::<RequestView>::empty());
    }
}

/// From a move on, a cut gets as far as the replies lead with `Done`: to
/// the removal of the target if that covers every entry left, else to the
/// first move that is refused or not answered yet.
proof fn lemma_moving_run(target_dir: Seq<char>, sequencer: SequencerView, replies: Seq<ReplyView>)
    requires
        sequencer.moved < sequencer.entries.len(),
    ensures
        ({
            let total = sequencer.entries.len();
            let from = sequencer.moved as int;
            let reached = sequencer.moved + leading_done(replies);
            let moves = moves_to(sequencer.entries, sequencer.new_parent);
            let end = cut_run(moving(target_dir, sequencer), replies);
            let issued = cut_issued(moving(target_dir, sequencer), replies);
            if reached >= total {
                &&& end == removal(target_dir, total, replies.skip(total - from))
                &&& issued == moves.subrange(from, total as int) + seq![
                    RequestView::RemoveDir { path: target_dir },
                ]
            } else {
                &&& issued == moves.subrange(from, reached as int + 1)
                &&& leading_done(replies) < replies.len() ==> end == stopped(
                    sequencer,
                    reached,
                    replies[leading_done(replies) as int],
                )
                &&& leading_done(replies) == replies.len() ==> end == moving(
                    target_dir,
                    SequencerView { moved: reached, ..sequencer },
                )
            }
        }),
    decreases replies.len(),
{
    lemma_leading_done(replies);
    if replies.len() > 0 {
        let rest = replies.drop_first();
        if replies.first() != ReplyView::Done {
            let end = stopped(sequencer, sequencer.moved, replies.first());
            assert(cut_run(end, rest) == end);
            assert(cut_issued(end, rest) =~= Seq::<RequestView>::empty());
        } else if sequencer.moved + 1 < sequencer.entries.len() {
            lemma_leading_done(rest);
            lemma_moving_run(
                target_dir,
                SequencerView { moved: sequencer.moved + 1, ..sequencer },
                rest,
            );
        } else {
            lemma_removing_run(target_dir, sequencer.entries.len(), rest);
        }
    }
}

/// Once the scan is answered, a cut goes on as the sequence of its moves
/// does, or with the removal if the target was empty.
proof fn lemma_run_reaches_moves(
    target_dir: Seq<char>,
    cwd: Seq<char>,
    names: Seq<Seq<char>>,
    replies: Seq<ReplyView>,
)
    requires
        !denotes_cwd(target_dir, cwd),
        replies.len() >= 1,
        replies[0] == ReplyView::Listed(names),
    ensures
        ({
            let first = cut_begun(target_dir, cwd);
            let start = SequencerView {
                entries: listing(target_dir, names),
                new_parent: new_parent_of(target_dir, cwd),
                moved: 0,
            };
            let next = if names.len() > 0 {
                moving(target_dir, start)
            } else {
                removing(target_dir, 0)
            };
            &&& cut_run(first, replies) == cut_run(next, replies.skip(1))
            &&& cut_issued(first, replies) == seq![RequestView::Scan { dir: target_dir }]
                + cut_issued(next, replies.skip(1))
        }),
{
}

/// The working directory is never cut: a target that denotes it is refused
/// at once, and nothing is asked of the filesystem, whatever replies come.
pub proof fn law_cut_refuses_the_working_directory(
    target_dir: Seq<char>,
    cwd: Seq<char>,
    replies: Seq<ReplyView>,
)
    requires
        denotes_cwd(target_dir, cwd),
    ensures
        cut_begun(target_dir, cwd) == CutStepView::Refused,
        cut_run(cut_begun(target_dir, cwd), replies) == CutStepView::Refused,
        cut_issued(cut_begun(target_dir, cwd), replies) == Seq::<RequestView>::empty(),
{
}

/// Whatever the replies, a cut asks for nothing outside its plan and
/// nothing out of order: what it asks for is a front part of the plan.
pub proof fn law_cut_follows_its_plan(
    target_dir: Seq<char>,
    cwd: Seq<char>,
    names: Seq<Seq<char>>,
    replies: Seq<ReplyView>,
)
    requires
        !denotes_cwd(target_dir, cwd),
        replies.len() > 0 && replies[0] is Listed ==> replies[0] == ReplyView::Listed(names),
    ensures
        cut_issued(cut_begun(target_dir, cwd), replies).is_prefix_of(
            cut_plan(target_dir, cwd, names),
        ),
{
    let new_parent = new_parent_of(target_dir, cwd);
    let entries = listing(target_dir, names);
    if replies.len() > 0 && !(replies[0] is Listed) {
        let scanning = ExtractorView::Scanning { target_dir, new_parent };
        let end = cut_step(scanning, replies.first());
        assert(cut_issued(end, replies.drop_first()) =~= Seq::<RequestView>::empty());
    } else if replies.len() > 0 {
        let rest = replies.skip(1);
        lemma_run_reaches_moves(target_dir, cwd, names, replies);
        if names.len() == 0 {
            lemma_removing_run(target_dir, 0, rest);
        } else {
            lemma_leading_done(rest);
            lemma_moving_run(target_dir, SequencerView { entries, new_parent, moved: 0 }, rest);
        }
    }
}

/// When nothing fails, a cut carries out its whole plan: each entry found in
/// the target goes from its path there to the parent, under its own name,
/// then the target is removed, and every entry is reported as moved.
pub proof fn law_cut_lifts_every_entry(
    target_dir: Seq<char>,
    cwd: Seq<char>,
    names: Seq<Seq<char>>,
    replies: Seq<ReplyView>,
)
    requires
        !denotes_cwd(target_dir, cwd),
        replies.len() >= names.len() + 2,
        replies[0] == ReplyView::Listed(names),
        forall|i: int| 1 <= i < replies.len() ==> replies[i] == ReplyView::Done,
    ensures
        cut_run(cut_begun(target_dir, cwd), replies) == CutStepView::Finished(Ok(names.len())),
        cut_issued(cut_begun(target_dir, cwd), replies) == cut_plan(target_dir, cwd, names),
{
    let new_parent = new_parent_of(target_dir, cwd);
    let entries = listing(target_dir, names);
    let rest = replies.skip(1);
    lemma_run_reaches_moves(target_dir, cwd, names, replies);
    if names.len() == 0 {
        lemma_removing_run(target_dir, 0, rest);
    } else {
        lemma_done_up_to(rest, names.len());
        lemma_moving_run(target_dir, SequencerView { entries, new_parent, moved: 0 }, rest);
    }
}

/// The first move that fails ends a cut, and the target stays. When the
/// moves of the first `failing` entries are made and the next one is
/// refused, the cut names that entry and its cause, reports `failing`
/// entries as moved, and has asked neither for a move behind the refused
/// one nor for the removal of the target.
pub proof fn law_cut_stops_at_first_failure(
    target_dir: Seq<char>,
    cwd: Seq<char>,
    names: Seq<Seq<char>>,
    replies: Seq<ReplyView>,
    failing: nat,
)
    requires
        !denotes_cwd(target_dir, cwd),
        failing < names.len(),
        replies.len() > failing + 1,
        replies[0] == ReplyView::Listed(names),
        forall|i: int| 1 <= i < failing + 1 ==> replies[i] == ReplyView::Done,
        replies[failing as int + 1] != ReplyView::Done,
    ensures
        cut_run(cut_begun(target_dir, cwd), replies) == CutStepView::Finished(
            Err(
                CutErrorView::MoveFailed {
                    entry: listing(target_dir, names)[failing as int],
                    cause: move_result(replies[failing as int + 1])->Err_0,
                    moved: failing,
                },
            ),
        ),
        cut_issued(cut_begun(target_dir, cwd), replies) == cut_plan(target_dir, cwd, names).take(
            failing as int + 2,
        ),
        !cut_issued(cut_begun(target_dir, cwd), replies).contains(
            RequestView::RemoveDir { path: target_dir },
        ),
{
    let new_parent = new_parent_of(target_dir, cwd);
    let entries = listing(target_dir, names);
    let rest = replies.skip(1);
    lemma_run_reaches_moves(target_dir, cwd, names, replies);
    lemma_done_up_to(rest, failing);
    lemma_leading_done(rest);
    assert(rest[failing as int] == replies[failing as int + 1]);
    lemma_moving_run(target_dir, SequencerView { entries, new_parent, moved: 0 }, rest);
}

/// A cut asks for the removal of its target if and only if every entry
/// found there was moved, and it ends well, with every entry counted, if
/// and only if the removal was carried out too.
pub proof fn law_cut_removes_iff_all_moved(
    target_dir: Seq<char>,
    cwd: Seq<char>,
    names: Seq<Seq<char>>,
    replies: Seq<ReplyView>,
)
    requires
        !denotes_cwd(target_dir, cwd),
        replies.len() > 0,
        replies[0] == ReplyView::Listed(names),
    ensures
        ({
            let end = cut_run(cut_begun(target_dir, cwd), replies);
            let issued = cut_issued(cut_begun(target_dir, cwd), replies);
            let all_moved = replies.len() > names.len() && forall|i: int|
                1 <= i <= names.len() ==> replies[i] == ReplyView::Done;
            let removed = replies.len() > names.len() + 1 && replies[names.len() as int + 1]
                == ReplyView::Done;
            &&& issued.contains(RequestView::RemoveDir { path: target_dir }) <==> all_moved
            &&& end == CutStepView::Finished(Ok(names.len())) <==> all_moved && removed
            &&& end matches CutStepView::Finished(Ok(moved)) ==> moved == names.len()
        }),
{
    let new_parent = new_parent_of(target_dir, cwd);
    let entries = listing(target_dir, names);
    let total = names.len() as int;
    let rest = replies.skip(1);
    let remove = RequestView::RemoveDir { path: target_dir };
    let issued = cut_issued(cut_begun(target_dir, cwd), replies);
    lemma_run_reaches_moves(target_dir, cwd, names, replies);
    lemma_leading_done(rest);
    if total == 0 {
        lemma_removing_run(target_dir, 0, rest);
    } else {
        lemma_moving_run(target_dir, SequencerView { entries, new_parent, moved: 0 }, rest);
        if leading_done(rest) >= total {
            assert(issued[total + 1] == remove);
            assert forall|i: int| 1 <= i <= total implies replies[i] == ReplyView::Done by {
                assert(rest[i - 1] == replies[i]);
            }
        }
    }
}

} // verus!
