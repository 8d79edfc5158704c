//! What holds of the selector across its operations.
//!
//! The laws speak of the states before and after an operation in the words of the operations'
//! own contracts.
use vstd::prelude::*;

#[allow(unused_imports)]
use crate::announce::{AnnounceActionView, AnnounceEvent};
#[allow(unused_imports)]
use crate::state::SelectorView;
#[allow(unused_imports)]
use crate::types::{CollectedParentView, CollectedPieceView, PeerView, PieceView};

verus! {

// Merging reports

/// A merge keeps the known parents, in order and at the front, and lists the ids of both
/// reports. Where no id was listed twice, none is afterwards.
pub proof fn law_merge_adds_what_is_missing(
    existing: Seq<CollectedParentView>,
    incoming: Seq<CollectedParentView>,
)
    ensures
        existing.is_prefix_of(crate::parents::merged_parents(existing, incoming)),
        forall|id: Seq<char>| #[trigger]
            crate::parents::lists(crate::parents::merged_parents(existing, incoming), id)
                <==> crate::parents::lists(existing, id) || crate::parents::lists(incoming, id),
        crate::parents::distinct_ids(existing) ==> crate::parents::distinct_ids(
            crate::parents::merged_parents(existing, incoming),
        ),
    decreases incoming.len(),
{
    let merged = crate::parents::merged_parents(existing, incoming);
    if incoming.len() > 0 {
        let rest = incoming.drop_last();
        let last = incoming.last();
        let before = crate::parents::merged_parents(existing, rest);
        law_merge_adds_what_is_missing(existing, rest);
        assert forall|id: Seq<char>|
            crate::parents::lists(incoming, id) <==> crate::parents::lists(rest, id) || id
                == last.id by {
            crate::lemmas::lemma_push_lists(rest, last, id);
            assert(rest.push(last) =~= incoming);
        }
        if !crate::parents::lists(before, last.id) {
            assert forall|id: Seq<char>|
                crate::parents::lists(merged, id) <==> crate::parents::lists(before, id) || id
                    == last.id by {
                crate::lemmas::lemma_push_lists(before, last, id);
            }
            assert forall|i: int| 0 <= i < before.len() implies (#[trigger] before[i]).id
                != last.id by {}
        }
    }
}

/// A merge with a report whose ids are all listed already adds no parent.
pub proof fn law_merge_of_known_parents_adds_none(
    existing: Seq<CollectedParentView>,
    incoming: Seq<CollectedParentView>,
)
    requires
        forall|i: int|
            0 <= i < incoming.len() ==> crate::parents::lists(
                existing,
                (#[trigger] incoming[i]).id,
            ),
    ensures
        crate::parents::merged_parents(existing, incoming) == existing,
    decreases incoming.len(),
{
    if incoming.len() > 0 {
        let rest = incoming.drop_last();
        assert forall|i: int| 0 <= i < rest.len() implies crate::parents::lists(
            existing,
            (#[trigger] rest[i]).id,
        ) by {
            assert(rest[i] == incoming[i]);
        }
        law_merge_of_known_parents_adds_none(existing, rest);
        assert(incoming.last() == incoming[incoming.len() - 1]);
    }
}

/// Merging one report twice is merging it once.
pub proof fn law_merge_twice_is_once(existing: CollectedPieceView, incoming: CollectedPieceView)
    ensures
        existing.merged(incoming).merged(incoming) == existing.merged(incoming),
{
    let merged = existing.merged(incoming).parents;
    law_merge_adds_what_is_missing(existing.parents, incoming.parents);
    assert forall|i: int| 0 <= i < incoming.parents.len() implies crate::parents::lists(
        merged,
        (#[trigger] incoming.parents[i]).id,
    ) by {
        assert(crate::parents::lists(incoming.parents, incoming.parents[i].id));
    }
    law_merge_of_known_parents_adds_none(merged, incoming.parents);
}

/// A report by a parent that was taken in twice counts once.
pub proof fn law_parent_report_counts_once(state: SelectorView, piece: CollectedPieceView)
    ensures
        state.with_parent_piece(piece).with_parent_piece(piece) == state.with_parent_piece(piece),
        !state.with_parent_piece(piece).is_new_parent_piece(piece.number),
{
    crate::lemmas::lemma_merge_with_itself(piece);
    if state.parent_pieces.contains_key(piece.number) {
        law_merge_twice_is_once(state.parent_pieces[piece.number], piece);
    }
    let once = state.with_parent_piece(piece);
    assert(once.with_parent_piece(piece).parent_pieces =~= once.parent_pieces);
}

/// A report by a child that was taken in twice counts once.
pub proof fn law_child_report_counts_once(state: SelectorView, piece: CollectedPieceView)
    ensures
        state.with_child_piece(piece).with_child_piece(piece) == state.with_child_piece(piece),
{
    crate::lemmas::lemma_merge_with_itself(piece);
    if state.child_pieces.contains_key(piece.number) {
        law_merge_twice_is_once(state.child_pieces[piece.number], piece);
    }
    let once = state.with_child_piece(piece);
    assert(once.with_child_piece(piece).child_pieces =~= once.child_pieces);
}

/// Two reports leave the same pieces with the same parents in either order. Reports of two pieces
/// leave the same pieces altogether; of two reports of one piece the latest length is kept.
pub proof fn law_reports_merge_in_either_order(
    pieces: Map<u32, CollectedPieceView>,
    a: CollectedPieceView,
    b: CollectedPieceView,
    number: u32,
    id: Seq<char>,
)
    ensures
        ({
            let left = crate::parents::pieces_with(crate::parents::pieces_with(pieces, a), b);
            let right = crate::parents::pieces_with(crate::parents::pieces_with(pieces, b), a);
            &&& left.dom() == right.dom()
            &&& left.contains_key(number) ==> {
                crate::parents::lists(left[number].parents, id) <==> crate::parents::lists(
                    right[number].parents,
                    id,
                )
            }
            &&& a.number != b.number ==> left == right
            &&& left[b.number].length == b.length
            &&& right[a.number].length == a.length
        }),
{
    let left = crate::parents::pieces_with(crate::parents::pieces_with(pieces, a), b);
    let right = crate::parents::pieces_with(crate::parents::pieces_with(pieces, b), a);
    assert(left.dom() =~= right.dom());
    if a.number != b.number {
        assert(left =~= right);
    } else if pieces.contains_key(a.number) {
        let known = pieces[a.number].parents;
        law_merge_adds_what_is_missing(known, a.parents);
        law_merge_adds_what_is_missing(known, b.parents);
        law_merge_adds_what_is_missing(
            crate::parents::merged_parents(known, a.parents),
            b.parents,
        );
        law_merge_adds_what_is_missing(
            crate::parents::merged_parents(known, b.parents),
            a.parents,
        );
    } else {
        law_merge_adds_what_is_missing(a.parents, b.parents);
        law_merge_adds_what_is_missing(b.parents, a.parents);
    }
}

/// Two reports by parents, or two by children, come to the same in either order, but for the order
/// of the available numbers and of the parents of one piece, and for the length of a piece that
/// both report.
pub proof fn law_reports_in_either_order(
    state: SelectorView,
    a: CollectedPieceView,
    b: CollectedPieceView,
    number: u32,
    id: Seq<char>,
)
    ensures
        ({
            let left = state.with_parent_piece(a).with_parent_piece(b);
            let right = state.with_parent_piece(b).with_parent_piece(a);
            &&& left.parent_pieces.dom() == right.parent_pieces.dom()
            &&& left.parent_pieces.contains_key(number) ==> {
                crate::parents::lists(left.parent_pieces[number].parents, id)
                    <==> crate::parents::lists(right.parent_pieces[number].parents, id)
            }
            &&& a.number != b.number ==> left.parent_pieces == right.parent_pieces
            &&& left.available.contains(number) <==> right.available.contains(number)
            &&& left == (SelectorView {
                parent_pieces: left.parent_pieces,
                available: left.available,
                ..right
            })
        }),
        ({
            let left = state.with_child_piece(a).with_child_piece(b);
            let right = state.with_child_piece(b).with_child_piece(a);
            &&& left.child_pieces.dom() == right.child_pieces.dom()
            &&& left.child_pieces.contains_key(number) ==> {
                crate::parents::lists(left.child_pieces[number].parents, id)
                    <==> crate::parents::lists(right.child_pieces[number].parents, id)
            }
            &&& a.number != b.number ==> left.child_pieces == right.child_pieces
            &&& left == (SelectorView { child_pieces: left.child_pieces, ..right })
        }),
{
    law_reports_merge_in_either_order(state.parent_pieces, a, b, number, id);
    law_reports_merge_in_either_order(state.child_pieces, a, b, number, id);
    crate::lemmas::lemma_push_contains(state.available, a.number);
    crate::lemmas::lemma_push_contains(state.available, b.number);
    crate::lemmas::lemma_push_contains(state.available.push(a.number), b.number);
    crate::lemmas::lemma_push_contains(state.available.push(b.number), a.number);
}

/// A piece that a parent reports is selectable afterwards with the latest length and with every
/// parent that the report lists or that was known before, unless it was selected already.
pub proof fn law_report_is_kept(state: SelectorView, piece: CollectedPieceView, id: Seq<char>)
    requires
        state.settled(),
        !state.selected.contains(piece.number),
    ensures
        ({
            let after = state.with_parent_piece(piece);
            let kept = after.parent_pieces[piece.number];
            &&& after.selectable(piece.number)
            &&& kept.length == piece.length
            &&& crate::parents::lists(kept.parents, id) <==> {
                ||| crate::parents::lists(piece.parents, id)
                ||| state.parent_pieces.contains_key(piece.number) && crate::parents::lists(
                    state.parent_pieces[piece.number].parents,
                    id,
                )
            }
        }),
{
    let number = piece.number;
    if state.parent_pieces.contains_key(number) {
        law_merge_adds_what_is_missing(state.parent_pieces[number].parents, piece.parents);
        assert(state.available.contains(number));
    } else if !state.available.contains(number) {
        crate::lemmas::lemma_push_contains(state.available, number);
    }
}

/// Nothing is kept of a report of a piece that was selected.
pub proof fn law_report_after_selection_is_dropped(state: SelectorView, piece: CollectedPieceView)
    requires
        state.selected.contains(piece.number),
    ensures
        state.with_parent_piece(piece) == state,
        !state.is_new_parent_piece(piece.number),
{
}

// Selection

/// Drawing the number at any index, and claiming its piece, either selects that piece or passes
/// over a number that could not be selected.
pub proof fn law_every_draw_selects_or_passes_over(state: SelectorView, index: int)
    requires
        state.valid(),
        state.remaining > 0,
        0 <= index < state.available.len(),
    ensures
        ({
            let number = state.available[index];
            let after = state.after_draw(index);
            &&& if state.selectable(number) {
                state.selects(number, after)
            } else {
                state.passed_over(after)
            }
        }),
{
    let number = state.available[index];
    crate::lemmas::lemma_swap_removed(state.available, index);
    assert(state.available.contains(number));
    if !state.parent_pieces.contains_key(number) {
        assert(state.parent_pieces.remove(number) =~= state.parent_pieces);
    }
    crate::lemmas::lemma_no_draw(state);
    crate::lemmas::lemma_one_more_draw(state, Seq::empty(), index);
}

/// Where every available number can be selected, a selection is one draw: the selected number
/// leaves its place to the last one, and the other numbers stay in order. An attempt to select
/// that has to wait then changes nothing.
pub proof fn law_selection_is_one_draw(state: SelectorView, number: u32, after: SelectorView)
    requires
        forall|n: u32| #[trigger] state.available.contains(n) ==> state.is_claimable(n),
    ensures
        state.selects(number, after) ==> exists|index: int|
            0 <= index < state.available.len() && #[trigger] state.available[index] == number
                && after == state.after_draw(index),
        state.passed_over(after) ==> after == state,
{
    if state.selects(number, after) {
        let indexes = choose|indexes: Seq<int>| #[trigger]
            state.draws_piece(indexes, number) && after == state.after_draws(indexes);
        crate::lemmas::lemma_every_draw_selects(state, indexes.drop_last());
        assert(state.available[indexes.last()] == number);
    }
    if state.passed_over(after) {
        let indexes = choose|indexes: Seq<int>| #[trigger]
            state.draws_nothing(indexes) && after == state.after_draws(indexes);
        crate::lemmas::lemma_every_draw_selects(state, indexes);
    }
}

/// A new selector is settled.
pub proof fn law_fresh_is_settled(
    host_id: Seq<char>,
    peer_id: Seq<char>,
    task_id: Seq<char>,
    interested_pieces: Seq<PieceView>,
    parents: Seq<PeerView>,
)
    ensures
        SelectorView::fresh(host_id, peer_id, task_id, interested_pieces, parents).settled(),
        SelectorView::fresh(host_id, peer_id, task_id, interested_pieces, parents).valid(),
{
}

/// A report by a parent leaves a settled selector settled.
pub proof fn law_parent_piece_keeps_settled(state: SelectorView, piece: CollectedPieceView)
    requires
        state.settled(),
    ensures
        state.with_parent_piece(piece).settled(),
{
    crate::lemmas::lemma_push_contains(state.available, piece.number);
}

/// A selection leaves a settled selector settled.
pub proof fn law_selection_keeps_settled(state: SelectorView, number: u32, after: SelectorView)
    requires
        state.settled(),
        state.selects(number, after),
    ensures
        after.settled(),
{
    assert forall|n: u32| #[trigger]
        after.available.contains(n) <==> after.parent_pieces.contains_key(n) by {
        if state.available.contains(n) && n != number {
            assert(state.selectable(n));
        }
    }
    assert forall|n: u32| #[trigger] after.parent_pieces.contains_key(n) implies !after.selected.contains(
        n,
    ) by {
        assert(state.parent_pieces.contains_key(n));
        assert(after.available.contains(n));
    }
}

/// An attempt to select that has to wait leaves a settled selector settled.
pub proof fn law_waiting_keeps_settled(state: SelectorView, after: SelectorView)
    requires
        state.settled(),
        state.passed_over(after),
    ensures
        after.settled(),
        after.selected == state.selected,
{
    assert forall|n: u32| #[trigger]
        after.available.contains(n) <==> after.parent_pieces.contains_key(n) by {
        if state.available.contains(n) {
            assert(state.selectable(n));
        }
    }
    assert(after.selected =~= state.selected) by {
        assert forall|n: u32| state.available.contains(n) implies after.available.contains(n) by {
            assert(state.selectable(n));
        }
    }
}

/// Whatever happens to children, collectors and pipelines leaves a settled selector settled.
pub proof fn law_other_operations_keep_settled(
    state: SelectorView,
    peer: PeerView,
    piece: CollectedPieceView,
    ids: Set<Seq<char>>,
    desired: Map<Seq<char>, PeerView>,
)
    requires
        state.settled(),
    ensures
        state.with_parent_collector(peer).settled(),
        state.with_child_collector(peer).settled(),
        state.with_child_piece(piece).settled(),
        state.with_child(peer).settled(),
        state.without_children(ids).settled(),
        state.synced(desired).settled(),
        state.running().settled(),
        state.shut_down().settled(),
{
}

/// In a settled selector the pieces that can be selected are those that parents reported and
/// that are kept. So as long as pieces remain, a selection waits only where none is kept.
pub proof fn law_settled_selects_what_is_kept(state: SelectorView, number: u32)
    requires
        state.settled(),
    ensures
        state.selectable(number) <==> state.parent_pieces.contains_key(number),
        state.selectable(number) <==> state.available.contains(number),
{
    assert(state.available.contains(number) <==> state.parent_pieces.contains_key(number));
}

/// A selection from a settled selector takes the selected piece and nothing else.
pub proof fn law_settled_selection_takes_one_piece(
    state: SelectorView,
    number: u32,
    after: SelectorView,
)
    requires
        state.settled(),
        state.selects(number, after),
    ensures
        after.selected == state.selected.insert(number),
        forall|n: u32| #[trigger]
            after.available.contains(n) <==> state.available.contains(n) && n != number,
        after == (SelectorView {
            selected: state.selected.insert(number),
            parent_pieces: state.parent_pieces.remove(number),
            remaining: (state.remaining - 1) as nat,
            available: after.available,
            ..state
        }),
{
    assert forall|n: u32| #[trigger]
        after.available.contains(n) <==> state.available.contains(n) && n != number by {
        if state.available.contains(n) && n != number {
            law_settled_selects_what_is_kept(state, n);
            assert(state.selectable(n));
        }
    }
    assert(after.selected =~= state.selected.insert(number));
}

/// A selected number stays selected, whatever happens.
pub proof fn law_selected_only_grows(
    state: SelectorView,
    peer: PeerView,
    piece: CollectedPieceView,
    ids: Set<Seq<char>>,
    desired: Map<Seq<char>, PeerView>,
    number: u32,
    after: SelectorView,
)
    ensures
        state.selected.subset_of(state.with_parent_piece(piece).selected),
        state.selected.subset_of(state.with_child_piece(piece).selected),
        state.selected.subset_of(state.with_parent_collector(peer).selected),
        state.selected.subset_of(state.with_child_collector(peer).selected),
        state.selected.subset_of(state.with_child(peer).selected),
        state.selected.subset_of(state.without_children(ids).selected),
        state.selected.subset_of(state.synced(desired).selected),
        state.selected.subset_of(state.running().selected),
        state.selected.subset_of(state.shut_down().selected),
        state.selected.subset_of(state.claimed(number).selected),
        state.passed_over(after) ==> state.selected.subset_of(after.selected),
        state.selects(number, after) ==> state.selected.subset_of(after.selected),
{
}

/// No piece is selected twice: whatever happened in between, a later selection hands out another
/// piece.
pub proof fn law_no_piece_is_selected_twice(
    state: SelectorView,
    number: u32,
    after: SelectorView,
    later: SelectorView,
    other: u32,
    last: SelectorView,
)
    requires
        state.selects(number, after),
        after.selected.subset_of(later.selected),
        later.selects(other, last),
    ensures
        other != number,
{
    assert(after.selected.contains(number));
}

/// As long as the selector is settled and not shut down, the pieces that remain and those that
/// were selected add up to the interesting ones: a new selector is counted, and every operation
/// but the shutdown keeps it so.
pub open spec fn counted(state: SelectorView) -> bool {
    &&& state.selected.finite()
    &&& state.remaining + state.selected.len() == state.interested_pieces.len()
}

/// A new selector is counted.
pub proof fn law_fresh_is_counted(
    host_id: Seq<char>,
    peer_id: Seq<char>,
    task_id: Seq<char>,
    interested_pieces: Seq<PieceView>,
    parents: Seq<PeerView>,
)
    ensures
        counted(SelectorView::fresh(host_id, peer_id, task_id, interested_pieces, parents)),
{
}

/// Each selection lowers by one how many pieces remain, so that no more pieces are handed out
/// than are interesting.
pub proof fn law_selection_keeps_count(state: SelectorView, number: u32, after: SelectorView)
    requires
        state.settled(),
        counted(state),
        state.remaining > 0,
        state.selects(number, after),
    ensures
        counted(after),
        after.selected.len() == state.selected.len() + 1,
        after.selected.len() <= after.interested_pieces.len(),
{
    law_settled_selection_takes_one_piece(state, number, after);
}

/// The operations that select nothing leave the count as it is.
pub proof fn law_other_operations_keep_count(
    state: SelectorView,
    after: SelectorView,
    peer: PeerView,
    piece: CollectedPieceView,
    ids: Set<Seq<char>>,
    desired: Map<Seq<char>, PeerView>,
)
    requires
        counted(state),
    ensures
        counted(state.with_parent_piece(piece)),
        counted(state.with_child_piece(piece)),
        counted(state.with_parent_collector(peer)),
        counted(state.with_child_collector(peer)),
        counted(state.with_child(peer)),
        counted(state.without_children(ids)),
        counted(state.synced(desired)),
        counted(state.running()),
        state.settled() && state.passed_over(after) ==> counted(after),
{
    if state.settled() && state.passed_over(after) {
        law_waiting_keeps_settled(state, after);
    }
}

/// How many pieces remain never grows. So once nothing remains, which is when a selection comes
/// to nothing, it stays that way.
pub proof fn law_remaining_never_grows(
    state: SelectorView,
    peer: PeerView,
    piece: CollectedPieceView,
    ids: Set<Seq<char>>,
    desired: Map<Seq<char>, PeerView>,
    number: u32,
    after: SelectorView,
)
    ensures
        state.with_parent_piece(piece).remaining == state.remaining,
        state.with_child_piece(piece).remaining == state.remaining,
        state.with_parent_collector(peer).remaining == state.remaining,
        state.with_child_collector(peer).remaining == state.remaining,
        state.with_child(peer).remaining == state.remaining,
        state.without_children(ids).remaining == state.remaining,
        state.synced(desired).remaining == state.remaining,
        state.running().remaining == state.remaining,
        state.shut_down().remaining == 0,
        state.claimed(number).remaining <= state.remaining,
        state.passed_over(after) ==> after.remaining == state.remaining,
        state.selects(number, after) ==> after.remaining == state.remaining - 1,
{
}

// The two pipelines

/// Whether two states agree on everything that concerns parents and the selection.
pub open spec fn same_parent_side(left: SelectorView, right: SelectorView) -> bool {
    &&& left.parents == right.parents
    &&& left.parent_collectors == right.parent_collectors
    &&& left.parent_pieces == right.parent_pieces
    &&& left.remaining == right.remaining
    &&& left.selected == right.selected
    &&& left.available == right.available
}

/// Whether two states agree on everything that concerns children.
pub open spec fn same_child_side(left: SelectorView, right: SelectorView) -> bool {
    &&& left.children == right.children
    &&& left.child_collectors == right.child_collectors
    &&& left.child_pieces == right.child_pieces
}

/// What happens to children does not touch the parents' side.
pub proof fn law_children_do_not_touch_parents(
    state: SelectorView,
    peer: PeerView,
    piece: CollectedPieceView,
    ids: Set<Seq<char>>,
    desired: Map<Seq<char>, PeerView>,
)
    ensures
        same_parent_side(state.with_child_piece(piece), state),
        same_parent_side(state.with_child_collector(peer), state),
        same_parent_side(state.with_child(peer), state),
        same_parent_side(state.without_children(ids), state),
        same_parent_side(state.synced(desired), state),
{
}

/// What happens to parents, and a selection, does not touch the children's side.
pub proof fn law_parents_do_not_touch_children(
    state: SelectorView,
    peer: PeerView,
    piece: CollectedPieceView,
    number: u32,
    after: SelectorView,
)
    ensures
        same_child_side(state.with_parent_piece(piece), state),
        same_child_side(state.with_parent_collector(peer), state),
        same_child_side(state.running(), state),
        same_child_side(state.claimed(number), state),
        state.passed_over(after) ==> same_child_side(after, state),
        state.selects(number, after) ==> same_child_side(after, state),
{
}

/// Pieces are selected only from what parents reported: selectors that differ only in what
/// concerns children offer the same pieces and hand out the same ones.
pub proof fn law_selection_is_from_parents_only(left: SelectorView, right: SelectorView, number: u32)
    requires
        same_parent_side(left, right),
    ensures
        left.selectable(number) == right.selectable(number),
        left.is_claimable(number) == right.is_claimable(number),
        left.parent_pieces[number] == right.parent_pieces[number],
        same_parent_side(left.claimed(number), right.claimed(number)),
{
}

// Runs and shutdowns

/// A run gives every parent a collector, under its own id, and keeps the collectors that ran.
pub proof fn law_run_covers_every_parent(state: SelectorView, i: int)
    requires
        state.valid(),
        0 <= i < state.parents.len(),
    ensures
        state.running().parent_collectors.contains_key(state.parents[i].id),
        forall|id: Seq<char>| #[trigger]
            state.parent_collectors.contains_key(id)
                ==> state.running().parent_collectors.contains_key(id)
                && state.running().parent_collectors[id] == state.parent_collectors[id],
        state.running().valid(),
{
    crate::lemmas::lemma_registered(state.parent_collectors, state.parents);
}

/// A second run starts nothing.
pub proof fn law_second_run_starts_nothing(state: SelectorView)
    ensures
        state.running().running() == state.running(),
        crate::state::newly_registered(state.running().parent_collectors, state.parents).len()
            == 0,
        state.running().parent_pipeline_started,
        state.running().child_pipeline_started,
        state.running().announce_manager_started,
{
    crate::lemmas::lemma_registered(state.parent_collectors, state.parents);
    crate::lemmas::lemma_nothing_to_register(state.running().parent_collectors, state.parents);
}

/// A run starts at most one collector for an id, and none for an id that has one.
pub proof fn law_run_starts_each_collector_once(state: SelectorView, i: int, j: int)
    requires
        0 <= i < j < crate::state::newly_registered(
            state.parent_collectors,
            state.parents,
        ).len(),
    ensures
        ({
            let started = crate::state::newly_registered(state.parent_collectors, state.parents);
            &&& started[i].id != started[j].id
            &&& !state.parent_collectors.contains_key(started[i].id)
            &&& !state.parent_collectors.contains_key(started[j].id)
        }),
{
    crate::lemmas::lemma_newly_registered(state.parent_collectors, state.parents);
}

/// After a shutdown nothing can be selected any more, and no collector is registered.
pub proof fn law_shutdown_ends_everything(state: SelectorView, piece: CollectedPieceView)
    ensures
        state.shut_down().remaining == 0,
        state.shut_down().with_parent_piece(piece).remaining == 0,
        state.shut_down().parent_collectors == Map::<Seq<char>, PeerView>::empty(),
        state.shut_down().child_collectors == Map::<Seq<char>, PeerView>::empty(),
        state.shut_down().shut_down() == state.shut_down(),
{
}

// Children

/// After a sync the children are the desired peers. Those that were children before stay as
/// they were, with their collectors, and the others come in as desired.
pub proof fn law_sync_matches_desired(state: SelectorView, desired: Map<Seq<char>, PeerView>)
    ensures
        state.synced(desired).children.dom() == desired.dom(),
        forall|id: Seq<char>| #[trigger]
            desired.contains_key(id) ==> state.synced(desired).children[id] == (
            if state.children.contains_key(id) {
                state.children[id]
            } else {
                desired[id]
            }),
        forall|id: Seq<char>|
            desired.contains_key(id) && #[trigger] state.children.contains_key(id) ==> (
            state.synced(desired).child_collectors.contains_key(id)
                <==> state.child_collectors.contains_key(id)),
        forall|id: Seq<char>|
            desired.contains_key(id) && #[trigger] state.child_collectors.contains_key(id)
                ==> state.synced(desired).child_collectors[id] == state.child_collectors[id],
{
    assert(state.synced(desired).children.dom() =~= desired.dom());
}

/// A sync starts a collector for every new child, where the child pipeline is started and none
/// runs, and a sync stops the collector of every child that is gone.
pub proof fn law_sync_keeps_collectors_in_line(
    state: SelectorView,
    desired: Map<Seq<char>, PeerView>,
    id: Seq<char>,
)
    ensures
        state.new_children(desired).contains(id) && state.child_pipeline_started
            ==> state.synced(desired).child_collectors.contains_key(id),
        state.stale_children(desired).contains(id) ==> !state.synced(
            desired,
        ).child_collectors.contains_key(id),
        state.sync_starts(desired).contains(id) ==> !state.child_collectors.contains_key(id)
            && state.synced(desired).child_collectors.contains_key(id),
        state.sync_stops(desired).contains(id) ==> state.child_collectors.contains_key(id)
            && !state.synced(desired).child_collectors.contains_key(id),
{
}

/// A second sync with peers of the same ids changes nothing, whatever else it says of them, and
/// neither starts nor stops a collector.
pub proof fn law_second_sync_does_nothing(
    state: SelectorView,
    desired: Map<Seq<char>, PeerView>,
    again: Map<Seq<char>, PeerView>,
)
    requires
        again.dom() == desired.dom(),
    ensures
        state.synced(desired).synced(again) == state.synced(desired),
        state.synced(desired).sync_stops(again) == Set::<Seq<char>>::empty(),
        state.synced(desired).sync_starts(again) == Set::<Seq<char>>::empty(),
{
    let once = state.synced(desired);
    law_sync_matches_desired(state, desired);
    assert forall|id: Seq<char>| #[trigger] again.contains_key(id) <==> once.children.contains_key(
        id,
    ) by {
        assert(again.dom().contains(id) <==> once.children.dom().contains(id));
    }
    assert(once.stale_children(again) =~= Set::empty());
    crate::lemmas::lemma_without_no_children(once);
    let twice = once.with_children(again, again.dom());
    assert(twice.children =~= once.children);
    assert(twice.child_collectors =~= once.child_collectors);
    assert(once.sync_stops(again) =~= Set::empty());
    assert(once.sync_starts(again) =~= Set::empty());
}

/// A removed child leaves no trace: it is not registered, it has no collector, and no piece
/// lists it. A piece is dropped exactly where it listed parents and all of them were removed, and
/// the other parents of a piece stay.
pub proof fn law_removed_child_leaves_no_trace(
    state: SelectorView,
    ids: Set<Seq<char>>,
    id: Seq<char>,
    number: u32,
)
    ensures
        ({
            let after = state.without_children(ids);
            &&& ids.contains(id) ==> !after.children.contains_key(id)
            &&& ids.contains(id) ==> !after.child_collectors.contains_key(id)
            &&& after.child_pieces.contains_key(number) <==> state.child_pieces.contains_key(number)
                && !state.child_pieces[number].emptied_by(ids)
            &&& after.child_pieces.contains_key(number) ==> {
                &&& crate::parents::lists(after.child_pieces[number].parents, id)
                    <==> crate::parents::lists(state.child_pieces[number].parents, id)
                    && !ids.contains(id)
                &&& after.child_pieces[number].parents.len() == 0
                    ==> state.child_pieces[number].parents.len() == 0
            }
        }),
{
    if state.child_pieces.contains_key(number) {
        crate::parents::lemma_parents_without(state.child_pieces[number].parents, ids);
        crate::parents::lemma_emptied(state.child_pieces[number], ids);
    }
}

/// Cleaning up after a child twice is cleaning up once.
pub proof fn law_cleanup_twice_is_once(
    pieces: Map<u32, CollectedPieceView>,
    ids: Set<Seq<char>>,
)
    ensures
        crate::parents::pieces_without(crate::parents::pieces_without(pieces, ids), ids)
            == crate::parents::pieces_without(pieces, ids),
{
    crate::parents::lemma_pieces_without_twice(pieces, ids, ids);
    assert(ids.union(ids) =~= ids);
}

/// Cleaning up after some children and then after others comes to the same in either order, and
/// so does removing them.
pub proof fn law_cleanups_in_either_order(
    state: SelectorView,
    first: Set<Seq<char>>,
    second: Set<Seq<char>>,
)
    ensures
        ({
            let pieces = state.child_pieces;
            crate::parents::pieces_without(crate::parents::pieces_without(pieces, first), second)
                == crate::parents::pieces_without(
                crate::parents::pieces_without(pieces, second),
                first,
            )
        }),
        state.without_children(first).without_children(second) == state.without_children(
            second,
        ).without_children(first),
{
    crate::parents::lemma_pieces_without_twice(state.child_pieces, first, second);
    crate::parents::lemma_pieces_without_twice(state.child_pieces, second, first);
    assert(first.union(second) =~= second.union(first));
    let left = state.without_children(first).without_children(second);
    let right = state.without_children(second).without_children(first);
    assert(left.children =~= right.children);
    assert(left.child_collectors =~= right.child_collectors);
}

/// Removing a child undoes its insertion and what it reported in between, where nothing was known
/// of it before: the same pieces are kept, with the same parents. Where the child reported no
/// other length than was known, nothing at all is left of it.
///
/// Left out are reports that list no parent or one besides the child, which stay when the child
/// goes, and reports of a piece that was kept with no parent, which goes with the child.
pub proof fn law_removal_undoes_insertion(
    state: SelectorView,
    peer: PeerView,
    reports: Seq<CollectedPieceView>,
)
    requires
        !state.children.contains_key(peer.id),
        !state.child_collectors.contains_key(peer.id),
        crate::state::keyed_by_number(state.child_pieces),
        forall|n: u32| #[trigger]
            state.child_pieces.contains_key(n) ==> !crate::parents::lists(
                state.child_pieces[n].parents,
                peer.id,
            ),
        forall|k: int|
            0 <= k < reports.len() ==> (#[trigger] reports[k]).emptied_by(set![peer.id]),
        forall|k: int|
            0 <= k < reports.len() && state.child_pieces.contains_key(
                (#[trigger] reports[k]).number,
            ) ==> state.child_pieces[reports[k].number].parents.len() > 0,
    ensures
        ({
            let after = state.with_child(peer).with_child_pieces(reports).without_children(
                set![peer.id],
            );
            &&& after == (SelectorView { child_pieces: after.child_pieces, ..state })
            &&& after.child_pieces.dom() == state.child_pieces.dom()
            &&& forall|n: u32| #[trigger]
                state.child_pieces.contains_key(n) ==> {
                    &&& after.child_pieces[n].number == state.child_pieces[n].number
                    &&& after.child_pieces[n].parents == state.child_pieces[n].parents
                }
            &&& (forall|k: int|
                0 <= k < reports.len() && state.child_pieces.contains_key(
                    (#[trigger] reports[k]).number,
                ) ==> reports[k].length == state.child_pieces[reports[k].number].length) ==> after
                == state
        }),
{
    let ids = set![peer.id];
    let inserted = state.with_child(peer);
    let reported = inserted.with_child_pieces(reports);
    let after = reported.without_children(ids);
    assert(inserted.child_pieces == state.child_pieces);
    assert forall|n: u32, id: Seq<char>|
        state.child_pieces.contains_key(n) && ids.contains(id) implies !#[trigger] crate::parents::lists(
        state.child_pieces[n].parents,
        id,
    ) by {
        assert(id == peer.id);
    }
    crate::lemmas::lemma_reports_touch_pieces_only(inserted, reports);
    crate::lemmas::lemma_reports_of_one(inserted, ids, reports);
    assert(after.children =~= state.children);
    assert(after.child_collectors =~= state.child_collectors);
    assert forall|n: u32| #[trigger]
        after.child_pieces.contains_key(n) <==> state.child_pieces.contains_key(n) by {
        if reported.child_pieces.contains_key(n) && !state.child_pieces.contains_key(n) {
            assert(reported.child_pieces[n].emptied_by(ids));
        }
    }
    assert(after.child_pieces.dom() =~= state.child_pieces.dom());
    if forall|k: int|
        0 <= k < reports.len() && state.child_pieces.contains_key((#[trigger] reports[k]).number)
            ==> reports[k].length == state.child_pieces[reports[k].number].length {
        assert forall|n: u32| #[trigger] state.child_pieces.contains_key(n) implies after.child_pieces[n]
            == state.child_pieces[n] by {
            assert(reported.child_pieces[n].length == state.child_pieces[n].length);
            assert(after.child_pieces[n] == reported.child_pieces[n].without(ids));
        }
        assert(after.child_pieces =~= state.child_pieces);
        assert(after == state);
    }
}

/// Inserting a registered child again keeps its collector and starts none.
pub proof fn law_second_insertion_starts_nothing(state: SelectorView, peer: PeerView)
    ensures
        state.with_child(peer).with_child(peer) == state.with_child(peer),
        state.with_child(peer).children.contains_key(peer.id),
{
    let once = state.with_child(peer);
    assert(once.children.insert(peer.id, peer) =~= once.children);
}

// Announcements

/// After a connection the delays grow by powers of two, up to the longest.
pub proof fn law_backoff_doubles(failures: nat)
    ensures
        crate::announce::backoff_after(crate::announce::MIN_BACKOFF as nat, failures) == (
        if vstd::arithmetic::power2::pow2(failures) < crate::announce::MAX_BACKOFF {
            vstd::arithmetic::power2::pow2(failures)
        } else {
            crate::announce::MAX_BACKOFF as nat
        }),
    decreases failures,
{
    if failures == 0 {
        vstd::arithmetic::power2::lemma2_to64();
    } else {
        law_backoff_doubles((failures - 1) as nat);
        vstd::arithmetic::power2::lemma_pow2_unfold(failures);
    }
}

/// The delays stay between the shortest and the longest, and never shrink before the next
/// connection.
pub proof fn law_backoff_is_bounded(backoff: nat, failures: nat)
    requires
        crate::announce::MIN_BACKOFF <= backoff <= crate::announce::MAX_BACKOFF,
    ensures
        backoff <= crate::announce::backoff_after(backoff, failures)
            <= crate::announce::MAX_BACKOFF,
    decreases failures,
{
    if failures > 0 {
        law_backoff_is_bounded(backoff, (failures - 1) as nat);
    }
}

/// A cancelled manager opens no stream and reads from none; it leaves when it would connect
/// again, and only then.
pub proof fn law_cancelled_manager_leaves(backoff: u64, event: AnnounceEvent, cancelled: bool)
    ensures
        cancelled ==> !(crate::announce::announce_action(backoff, event, cancelled) is Connect),
        cancelled ==> !(crate::announce::announce_action(backoff, event, cancelled) is Receive),
        crate::announce::announce_action(backoff, event, cancelled) is Stop <==> cancelled
            && event is Ready,
{
}

} // verus!
