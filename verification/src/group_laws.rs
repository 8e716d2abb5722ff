//! What holds of every grouping, whatever the filesystem answers.
//!
//! A grouping is followed here from its first request on, through a sequence
//! of replies: `replies[0]` answers the scan, `replies[1]` the creation of
//! the destination, and `replies[2 + i]` the move of the selected entry
//! number `i`.

use vstd::prelude::*;
use crate::entry::{entry_under, law_selection_is_exact, listing, selected, EntryView};
use crate::group::{destination_name, group_begun, group_issued, group_moved, group_plan,
    group_run, group_step, GroupErrorView, GroupStepView, GrouperView};
use crate::mover::{leading_done, lemma_done_up_to, lemma_leading_done, move_request, move_result,
    moves_to, SequencerView};
use crate::path::joined;
use crate::path_laws::law_joined_tells_names_apart;
use crate::request::{ReplyView, RequestView, Trouble};
use crate::text::name_matches;

verus! {

/// A grouping with the move of the entry number `sequencer.moved` out.
spec fn moving(sequencer: SequencerView) -> GroupStepView {
    GroupStepView::Continue(
        GrouperView::Moving { sequencer },
        move_request(sequencer.entries[sequencer.moved as int], sequencer.new_parent),
    )
}

/// The failure that ends a grouping when `reply` refuses the move of the
/// entry number `at`.
spec fn stopped(sequencer: SequencerView, at: nat, reply: ReplyView) -> GroupStepView {
    GroupStepView::Finished(
        Err(
            GroupErrorView::MoveFailed {
                entry: sequencer.entries[at as int],
                cause: move_result(reply)->Err_0,
                moved: at,
            },
        ),
    )
}

/// From a move on, a grouping gets as far as the replies lead with `Done`:
/// to the end if that covers every entry left, else to the first move that
/// is refused or not answered yet.
proof fn lemma_moving_run(sequencer: SequencerView, replies: Seq<ReplyView>)
    requires
        sequencer.moved < sequencer.entries.len(),
    ensures
        ({
            let total = sequencer.entries.len();
            let from = sequencer.moved as int;
            let reached = sequencer.moved + leading_done(replies);
            let moves = moves_to(sequencer.entries, sequencer.new_parent);
            let end = group_run(moving(sequencer), replies);
            let issued = group_issued(moving(sequencer), replies);
            if reached >= total {
                &&& end == GroupStepView::Finished(Ok(total))
                &&& issued == moves.subrange(from, total as int)
            } else {
                &&& issued == moves.subrange(from, reached as int + 1)
                &&& leading_done(replies) < replies.len() ==> end == stopped(
                    sequencer,
                    reached,
                    replies[leading_done(replies) as int],
                )
                &&& leading_done(replies) == replies.len() ==> end == moving(
                    SequencerView { moved: reached, ..sequencer },
                )
            }
        }),
    decreases replies.len(),
{
    lemma_leading_done(replies);
    if replies.len() > 0 {
        let rest = replies.drop_first();
        if replies.first() != ReplyView::Done {
            let end = stopped(sequencer, sequencer.moved, replies.first());
            assert(group_run(end, rest) == end);
            assert(group_issued(end, rest) =~= Seq::<RequestView>::empty());
        } else if sequencer.moved + 1 < sequencer.entries.len() {
            lemma_leading_done(rest);
            lemma_moving_run(SequencerView { moved: sequencer.moved + 1, ..sequencer }, rest);
        } else {
            let end = GroupStepView::Finished(Ok(sequencer.entries.len()));
            assert(group_run(end, rest) == end);
            assert(group_issued(end, rest) =~= Seq::<RequestView>::empty());
        }
    }
}

/// Once the scan has found a selected name and the destination is created,
/// a grouping goes on as the sequence of its moves does.
proof fn lemma_run_reaches_moves(
    pattern: Seq<char>,
    source_dir: Seq<char>,
    destination: Option<Seq<char>>,
    names: Seq<Seq<char>>,
    replies: Seq<ReplyView>,
)
    requires
        replies.len() >= 2,
        replies[0] == ReplyView::Listed(names),
        replies[1] == ReplyView::Done,
        selected(listing(source_dir, names), pattern).len() > 0,
    ensures
        ({
            let first = group_begun(pattern, source_dir, destination);
            let dest_path = joined(source_dir, destination_name(pattern, destination));
            let start = SequencerView {
                entries: selected(listing(source_dir, names), pattern),
                new_parent: dest_path,
                moved: 0,
            };
            &&& group_run(first, replies) == group_run(moving(start), replies.skip(2))
            &&& group_issued(first, replies) == seq![
                RequestView::Scan { dir: source_dir },
                RequestView::CreateDir { path: dest_path },
            ] + group_issued(moving(start), replies.skip(2))
        }),
{
    let dest_path = joined(source_dir, destination_name(pattern, destination));
    let picked = selected(listing(source_dir, names), pattern);
    let start = SequencerView { entries: picked, new_parent: dest_path, moved: 0 };
    let create = RequestView::CreateDir { path: dest_path };
    let created = GroupStepView::Continue(GrouperView::Creating { dest_path, picked }, create);
    let after_scan = replies.drop_first();
    assert(after_scan.drop_first() =~= replies.skip(2));
    assert(group_run(created, after_scan) == group_run(moving(start), replies.skip(2)));
    assert(group_issued(created, after_scan) == seq![create] + group_issued(
        moving(start),
        replies.skip(2),
    ));
}

/// Whatever the replies, a grouping asks for nothing outside its plan and
/// nothing out of order: what it asks for is a front part of the plan.
pub proof fn law_group_follows_its_plan(
    pattern: Seq<char>,
    source_dir: Seq<char>,
    destination: Option<Seq<char>>,
    names: Seq<Seq<char>>,
    replies: Seq<ReplyView>,
)
    requires
        replies.len() > 0 && replies[0] is Listed ==> replies[0] == ReplyView::Listed(names),
    ensures
        group_issued(group_begun(pattern, source_dir, destination), replies).is_prefix_of(
            group_plan(pattern, source_dir, destination, names),
        ),
{
    let dest_path = joined(source_dir, destination_name(pattern, destination));
    let picked = selected(listing(source_dir, names), pattern);
    let scanning = GrouperView::Scanning { source_dir, pattern, dest_path };
    let creating = GrouperView::Creating { dest_path, picked };
    let create = RequestView::CreateDir { path: dest_path };
    let created = GroupStepView::Continue(creating, create);
    if replies.len() > 0 && (!(replies[0] is Listed) || picked.len() == 0) {
        let end = group_step(scanning, replies.first());
        assert(group_issued(end, replies.drop_first()) =~= Seq::<RequestView>::empty());
    } else if replies.len() > 0 {
        let after_scan = replies.drop_first();
        if after_scan.len() == 0 {
            assert(group_issued(created, after_scan) =~= seq![create]);
        } else if after_scan.first() != ReplyView::Done {
            let end = group_step(creating, after_scan.first());
            assert(group_issued(end, after_scan.drop_first()) =~= Seq::<RequestView>::empty());
            assert(group_issued(created, after_scan) =~= seq![create]);
        } else {
            lemma_run_reaches_moves(pattern, source_dir, destination, names, replies);
            lemma_moving_run(
                SequencerView { entries: picked, new_parent: dest_path, moved: 0 },
                replies.skip(2),
            );
        }
    }
}

/// When the scan is answered and nothing fails, a grouping carries out its
/// whole plan and reports every selected entry as moved: each entry whose
/// name the pattern selects goes from its path in the source directory to
/// the destination, under its own name, and no other entry is touched.
pub proof fn law_group_moves_exactly_the_selected(
    pattern: Seq<char>,
    source_dir: Seq<char>,
    destination: Option<Seq<char>>,
    names: Seq<Seq<char>>,
    replies: Seq<ReplyView>,
)
    requires
        replies.len() >= group_plan(pattern, source_dir, destination, names).len(),
        replies[0] == ReplyView::Listed(names),
        forall|i: int| 1 <= i < replies.len() ==> replies[i] == ReplyView::Done,
    ensures
        ({
            let first = group_begun(pattern, source_dir, destination);
            let picked = selected(listing(source_dir, names), pattern);
            &&& group_run(first, replies) == GroupStepView::Finished(Ok(picked.len()))
            &&& group_issued(first, replies) == group_plan(pattern, source_dir, destination, names)
        }),
{
    let dest_path = joined(source_dir, destination_name(pattern, destination));
    let picked = selected(listing(source_dir, names), pattern);
    if picked.len() == 0 {
        let end = GroupStepView::Finished(Ok(0));
        assert(group_run(end, replies.drop_first()) == end);
        assert(group_issued(end, replies.drop_first()) =~= Seq::<RequestView>::empty());
    } else {
        let rest = replies.skip(2);
        lemma_run_reaches_moves(pattern, source_dir, destination, names, replies);
        lemma_done_up_to(rest, picked.len());
        lemma_moving_run(SequencerView { entries: picked, new_parent: dest_path, moved: 0 }, rest);
    }
}

/// When the pattern selects none of the names found, a grouping ends with
/// the scan: it reports that nothing was moved, and creates and moves
/// nothing, whatever replies follow.
pub proof fn law_group_without_match_touches_nothing(
    pattern: Seq<char>,
    source_dir: Seq<char>,
    destination: Option<Seq<char>>,
    names: Seq<Seq<char>>,
    replies: Seq<ReplyView>,
)
    requires
        replies.len() > 0,
        replies[0] == ReplyView::Listed(names),
        forall|i: int| 0 <= i < names.len() ==> !name_matches(#[trigger] names[i], pattern),
    ensures
        ({
            let first = group_begun(pattern, source_dir, destination);
            &&& group_run(first, replies) == GroupStepView::Finished(Ok(0))
            &&& group_issued(first, replies) == seq![RequestView::Scan { dir: source_dir }]
        }),
{
    let entries = listing(source_dir, names);
    let picked = selected(entries, pattern);
    if picked.len() > 0 {
        law_selection_is_exact(entries, pattern, picked[0]);
        let i = choose|i: int| 0 <= i < entries.len() && entries[i] == picked[0];
        assert(name_matches(names[i], pattern));
    }
    let end = GroupStepView::Finished(Ok(0));
    assert(group_run(end, replies.drop_first()) == end);
    assert(group_issued(end, replies.drop_first()) =~= Seq::<RequestView>::empty());
}

/// When the destination cannot be created, a grouping ends there: it says
/// whether something was in the way, and moves nothing.
pub proof fn law_group_failed_creation_moves_nothing(
    pattern: Seq<char>,
    source_dir: Seq<char>,
    destination: Option<Seq<char>>,
    names: Seq<Seq<char>>,
    replies: Seq<ReplyView>,
)
    requires
        replies.len() >= 2,
        replies[0] == ReplyView::Listed(names),
        replies[1] != ReplyView::Done,
        selected(listing(source_dir, names), pattern).len() > 0,
    ensures
        ({
            let first = group_begun(pattern, source_dir, destination);
            let dest_path = joined(source_dir, destination_name(pattern, destination));
            &&& group_run(first, replies) == GroupStepView::Finished(
                Err(
                    if replies[1] == ReplyView::Failed(Trouble::AlreadyExists) {
                        GroupErrorView::DestinationExists { path: dest_path }
                    } else {
                        GroupErrorView::DestinationUnwritable { path: dest_path }
                    },
                ),
            )
            &&& group_issued(first, replies) == seq![
                RequestView::Scan { dir: source_dir },
                RequestView::CreateDir { path: dest_path },
            ]
        }),
{
    let dest_path = joined(source_dir, destination_name(pattern, destination));
    let picked = selected(listing(source_dir, names), pattern);
    let creating = GrouperView::Creating { dest_path, picked };
    let create = RequestView::CreateDir { path: dest_path };
    let created = GroupStepView::Continue(creating, create);
    let after_scan = replies.drop_first();
    let end = group_step(creating, after_scan.first());
    assert(group_run(created, after_scan) == group_run(end, after_scan.drop_first()));
    assert(group_issued(end, after_scan.drop_first()) =~= Seq::<RequestView>::empty());
    assert(group_issued(created, after_scan) =~= seq![create]);
}

/// The first move that fails ends a grouping. When the moves of the first
/// `failing` selected entries are made and the next one is refused, the
/// grouping names that entry and its cause, reports `failing` entries as
/// moved, and has asked for no move behind the refused one.
pub proof fn law_group_stops_at_first_failure(
    pattern: Seq<char>,
    source_dir: Seq<char>,
    destination: Option<Seq<char>>,
    names: Seq<Seq<char>>,
    replies: Seq<ReplyView>,
    failing: nat,
)
    requires
        failing < selected(listing(source_dir, names), pattern).len(),
        replies.len() > failing + 2,
        replies[0] == ReplyView::Listed(names),
        forall|i: int| 1 <= i < failing + 2 ==> replies[i] == ReplyView::Done,
        replies[failing as int + 2] != ReplyView::Done,
    ensures
        ({
            let first = group_begun(pattern, source_dir, destination);
            let picked = selected(listing(source_dir, names), pattern);
            &&& group_run(first, replies) == GroupStepView::Finished(
                Err(
                    GroupErrorView::MoveFailed {
                        entry: picked[failing as int],
                        cause: move_result(replies[failing as int + 2])->Err_0,
                        moved: failing,
                    },
                ),
            )
            &&& group_issued(first, replies) == group_plan(
                pattern,
                source_dir,
                destination,
                names,
            ).take(failing as int + 3)
        }),
{
    let dest_path = joined(source_dir, destination_name(pattern, destination));
    let picked = selected(listing(source_dir, names), pattern);
    let rest = replies.skip(2);
    lemma_run_reaches_moves(pattern, source_dir, destination, names, replies);
    lemma_done_up_to(rest, failing);
    lemma_leading_done(rest);
    assert(rest[failing as int] == replies[failing as int + 2]);
    lemma_moving_run(SequencerView { entries: picked, new_parent: dest_path, moved: 0 }, rest);
}

/// Every move that a grouping asks for takes an entry that the scan found
/// and the pattern selects from its path in the source directory to the
/// destination, under the same name.
pub proof fn law_group_moves_come_from_the_listing(
    pattern: Seq<char>,
    source_dir: Seq<char>,
    destination: Option<Seq<char>>,
    names: Seq<Seq<char>>,
    replies: Seq<ReplyView>,
    at: int,
)
    requires
        replies.len() > 0 && replies[0] is Listed ==> replies[0] == ReplyView::Listed(names),
        0 <= at < group_issued(group_begun(pattern, source_dir, destination), replies).len(),
        group_issued(group_begun(pattern, source_dir, destination), replies)[at] is Move,
    ensures
        exists|j: int|
            0 <= j < names.len() && name_matches(#[trigger] names[j], pattern) && group_issued(
                group_begun(pattern, source_dir, destination),
                replies,
            )[at] == move_request(
                entry_under(source_dir, names[j]),
                joined(source_dir, destination_name(pattern, destination)),
            ),
{
    let entries = listing(source_dir, names);
    let picked = selected(entries, pattern);
    law_group_follows_its_plan(pattern, source_dir, destination, names, replies);
    let entry = picked[at - 2];
    law_selection_is_exact(entries, pattern, entry);
    let j = choose|j: int| 0 <= j < entries.len() && entries[j] == entry;
    assert(name_matches(names[j], pattern));
}

/// A grouping leaves alone what the pattern does not select: whatever the
/// replies, it asks for no move of an entry whose name lacks the pattern.
pub proof fn law_group_leaves_the_others(
    pattern: Seq<char>,
    source_dir: Seq<char>,
    destination: Option<Seq<char>>,
    names: Seq<Seq<char>>,
    replies: Seq<ReplyView>,
    other: Seq<char>,
)
    requires
        replies.len() > 0 && replies[0] is Listed ==> replies[0] == ReplyView::Listed(names),
        !name_matches(other, pattern),
    ensures
        forall|k: int|
            #![trigger group_issued(group_begun(pattern, source_dir, destination), replies)[k]]
            {
                let issued = group_issued(group_begun(pattern, source_dir, destination), replies);
                0 <= k < issued.len() && issued[k] is Move ==> issued[k]->from != joined(
                    source_dir,
                    other,
                )
            },
{
    let issued = group_issued(group_begun(pattern, source_dir, destination), replies);
    let dest_path = joined(source_dir, destination_name(pattern, destination));
    assert forall|k: int| 0 <= k < issued.len() && (#[trigger] issued[k]) is Move implies issued[k]->from
        != joined(source_dir, other) by {
        law_group_moves_come_from_the_listing(pattern, source_dir, destination, names, replies, k);
        let j = choose|j: int|
            0 <= j < names.len() && name_matches(#[trigger] names[j], pattern) && issued[k]
                == move_request(entry_under(source_dir, names[j]), dest_path);
        if issued[k]->from == joined(source_dir, other) {
            law_joined_tells_names_apart(source_dir, names[j], other);
        }
    }
}

/// The entries that a grouping has moved into the destination when
/// `replies` have come in: those at the front of the selection whose moves
/// were made.
pub open spec fn moved_by(
    pattern: Seq<char>,
    source_dir: Seq<char>,
    destination: Option<Seq<char>>,
    names: Seq<Seq<char>>,
    replies: Seq<ReplyView>,
) -> Seq<EntryView> {
    selected(listing(source_dir, names), pattern).take(
        group_moved(group_run(group_begun(pattern, source_dir, destination), replies)) as int,
    )
}

/// A grouping does not move twice what an earlier grouping moved. Once the
/// entries that a first run moved out of the source directory are gone from
/// its listing, a second run with the same pattern asks for no move of any
/// of them, whatever the replies.
pub proof fn law_group_again_skips_the_moved(
    pattern: Seq<char>,
    source_dir: Seq<char>,
    destination: Option<Seq<char>>,
    names: Seq<Seq<char>>,
    replies: Seq<ReplyView>,
    names_after: Seq<Seq<char>>,
    replies_after: Seq<ReplyView>,
)
    requires
        replies.len() > 0,
        replies[0] == ReplyView::Listed(names),
        replies_after.len() > 0 && replies_after[0] is Listed ==> replies_after[0]
            == ReplyView::Listed(names_after),
        forall|j: int|
            0 <= j < names_after.len() ==> !moved_by(
                pattern,
                source_dir,
                destination,
                names,
                replies,
            ).contains(entry_under(source_dir, #[trigger] names_after[j])),
    ensures
        ({
            let moved = moved_by(pattern, source_dir, destination, names, replies);
            let again = group_issued(group_begun(pattern, source_dir, destination), replies_after);
            forall|i: int, k: int|
                0 <= i < moved.len() && 0 <= k < again.len() && (#[trigger] again[k]) is Move
                    ==> again[k]->from != (#[trigger] moved[i]).path
        }),
{
    let dest_path = joined(source_dir, destination_name(pattern, destination));
    let entries = listing(source_dir, names);
    let picked = selected(entries, pattern);
    let moved = moved_by(pattern, source_dir, destination, names, replies);
    let again = group_issued(group_begun(pattern, source_dir, destination), replies_after);
    law_group_moved_were_selected(pattern, source_dir, destination, names, replies);
    assert forall|i: int, k: int|
        0 <= i < moved.len() && 0 <= k < again.len() && (#[trigger] again[k]) is Move implies again[k]->from
            != (#[trigger] moved[i]).path by {
        law_group_moves_come_from_the_listing(
            pattern,
            source_dir,
            destination,
            names_after,
            replies_after,
            k,
        );
        let j = choose|j: int|
            0 <= j < names_after.len() && name_matches(#[trigger] names_after[j], pattern)
                && again[k] == move_request(entry_under(source_dir, names_after[j]), dest_path);
        law_selection_is_exact(entries, pattern, picked[i]);
        let h = choose|h: int| 0 <= h < entries.len() && entries[h] == picked[i];
        if again[k]->from == moved[i].path {
            law_joined_tells_names_apart(source_dir, names_after[j], names[h]);
        }
    }
}

/// The entries that a grouping has moved are entries that it selected: it
/// never counts more entries as moved than the pattern selects.
pub proof fn law_group_moved_were_selected(
    pattern: Seq<char>,
    source_dir: Seq<char>,
    destination: Option<Seq<char>>,
    names: Seq<Seq<char>>,
    replies: Seq<ReplyView>,
)
    requires
        replies.len() > 0,
        replies[0] == ReplyView::Listed(names),
    ensures
        group_moved(group_run(group_begun(pattern, source_dir, destination), replies))
            <= selected(listing(source_dir, names), pattern).len(),
        moved_by(pattern, source_dir, destination, names, replies).is_prefix_of(
            selected(listing(source_dir, names), pattern),
        ),
{
    let dest_path = joined(source_dir, destination_name(pattern, destination));
    let picked = selected(listing(source_dir, names), pattern);
    let creating = GrouperView::Creating { dest_path, picked };
    let created = GroupStepView::Continue(creating, RequestView::CreateDir { path: dest_path });
    let after_scan = replies.drop_first();
    if picked.len() == 0 {
        let end = GroupStepView::Finished(Ok(0));
        assert(group_run(end, after_scan) == end);
    } else if after_scan.len() > 0 && after_scan.first() != ReplyView::Done {
        let end = group_step(creating, after_scan.first());
        assert(group_run(created, after_scan) == group_run(end, after_scan.drop_first()));
    } else if after_scan.len() > 0 {
        let rest = replies.skip(2);
        lemma_run_reaches_moves(pattern, source_dir, destination, names, replies);
        lemma_leading_done(rest);
        lemma_moving_run(SequencerView { entries: picked, new_parent: dest_path, moved: 0 }, rest);
    }
}

} // verus!
