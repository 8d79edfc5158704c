//! What holds of a selector throughout its life, from the first operation to the last.
use vstd::prelude::*;

#[allow(unused_imports)]
use crate::state::SelectorView;
#[allow(unused_imports)]
use crate::types::{CollectedPieceView, PeerView};

verus! {

/// An operation on a selector and, where chance has a say in it, what it came to.
#[verifier::ext_equal]
pub enum Operation {
    Run,
    StartParentPipeline,
    StartChildPipeline,
    StartAnnounceManager,
    StartParentCollector(PeerView),
    StartChildCollector(PeerView),
    InsertParentPiece(CollectedPieceView),
    InsertChildPiece(CollectedPieceView),
    InsertChild(PeerView),
    RemoveChild(Seq<char>),
    CleanupChildPieces(Seq<char>),
    SyncChildren(Map<Seq<char>, PeerView>),
    /// A selection that handed out the piece of that number.
    Selected(u32),
    /// A draw that handed out nothing.
    PassedOver,
    /// A selection that has to wait.
    Waited,
    /// A selection with nothing left to select.
    Exhausted,
    Shutdown,
}

/// Whether the operation leads from the state `before` to the state `after`.
pub open spec fn leads(before: SelectorView, operation: Operation, after: SelectorView) -> bool {
    match operation {
        Operation::Run => after == before.running(),
        Operation::StartParentPipeline => after == (SelectorView {
            parent_pipeline_started: true,
            ..before
        }),
        Operation::StartChildPipeline => after == (SelectorView {
            child_pipeline_started: true,
            ..before
        }),
        Operation::StartAnnounceManager => after == (SelectorView {
            announce_manager_started: true,
            ..before
        }),
        Operation::StartParentCollector(peer) => after == before.with_parent_collector(peer),
        Operation::StartChildCollector(peer) => after == before.with_child_collector(peer),
        Operation::InsertParentPiece(piece) => after == before.with_parent_piece(piece),
        Operation::InsertChildPiece(piece) => after == before.with_child_piece(piece),
        Operation::InsertChild(peer) => after == before.with_child(peer),
        Operation::RemoveChild(id) => after == before.without_children(set![id]),
        Operation::CleanupChildPieces(id) => after == (SelectorView {
            child_pieces: crate::parents::pieces_without(before.child_pieces, set![id]),
            ..before
        }),
        Operation::SyncChildren(desired) => crate::state::keyed_by_id(desired) && after
            == before.synced(desired),
        Operation::Selected(number) => before.remaining > 0 && before.selects(number, after),
        Operation::PassedOver => before.remaining > 0 && before.passed_over(after),
        Operation::Waited => {
            &&& before.remaining > 0
            &&& forall|n: u32| !before.selectable(n)
            &&& before.passed_over(after)
        },
        Operation::Exhausted => before.remaining == 0 && after == before,
        Operation::Shutdown => after == before.shut_down(),
    }
}

/// The life of a selector: the states that it went through and the operations between them.
pub struct History {
    pub states: Seq<SelectorView>,
    pub operations: Seq<Operation>,
}

impl History {
    /// The first state is that of a new selector, and each operation leads to the next state.
    pub open spec fn holds(self) -> bool {
        &&& self.states.len() == self.operations.len() + 1
        &&& self.states[0] == SelectorView::fresh(
            self.states[0].host_id,
            self.states[0].peer_id,
            self.states[0].task_id,
            self.states[0].interested_pieces,
            self.states[0].parents,
        )
        &&& forall|i: int|
            0 <= i < self.operations.len() ==> leads(
                self.states[i],
                #[trigger] self.operations[i],
                self.states[i + 1],
            )
    }

    /// Whether the operation `i` reported the piece `number`.
    pub open spec fn reports(self, i: int, number: u32) -> bool {
        self.operations[i] matches Operation::InsertParentPiece(piece) && piece.number == number
    }

    /// Whether the operation `i` reported the piece `number` with a parent of that id.
    pub open spec fn reports_parent(self, i: int, number: u32, id: Seq<char>) -> bool {
        self.operations[i] matches Operation::InsertParentPiece(piece) && piece.number == number
            && crate::parents::lists(piece.parents, id)
    }
}

/// A life begins with a new selector, and every operation on its last state makes it longer.
pub proof fn law_history_grows(history: History, operation: Operation, after: SelectorView)
    ensures
        (History {
            states: seq![
                SelectorView::fresh(
                    after.host_id,
                    after.peer_id,
                    after.task_id,
                    after.interested_pieces,
                    after.parents,
                ),
            ],
            operations: Seq::empty(),
        }).holds(),
        history.holds() && leads(history.states.last(), operation, after) ==> (History {
            states: history.states.push(after),
            operations: history.operations.push(operation),
        }).holds(),
{
    if history.holds() && leads(history.states.last(), operation, after) {
        let longer = History {
            states: history.states.push(after),
            operations: history.operations.push(operation),
        };
        assert forall|i: int| 0 <= i < longer.operations.len() implies leads(
            longer.states[i],
            #[trigger] longer.operations[i],
            longer.states[i + 1],
        ) by {
            if i < history.operations.len() {
                assert(longer.operations[i] == history.operations[i]);
            }
        }
    }
}

/// A selector stays who it was made as, with the same interesting pieces and the same parents. So
/// every collector that it ever starts is made from its host id and task id, and from all of the
/// pieces that it was made with, in order.
pub proof fn law_identity_never_changes(history: History, i: int, peer: PeerView)
    requires
        history.holds(),
        0 <= i < history.states.len(),
    ensures
        history.states[i].host_id == history.states[0].host_id,
        history.states[i].peer_id == history.states[0].peer_id,
        history.states[i].task_id == history.states[0].task_id,
        history.states[i].interested_pieces == history.states[0].interested_pieces,
        history.states[i].parents == history.states[0].parents,
        history.states[i].collector_start(peer).host_id == history.states[0].host_id,
        history.states[i].collector_start(peer).task_id == history.states[0].task_id,
        history.states[i].collector_start(peer).interested_pieces
            == history.states[0].interested_pieces,
    decreases i,
{
    if i > 0 {
        law_identity_never_changes(history, i - 1, peer);
        assert(leads(history.states[i - 1], history.operations[i - 1], history.states[i]));
    }
}

/// Every state is valid and settled.
pub proof fn law_every_state_is_settled(history: History, i: int)
    requires
        history.holds(),
        0 <= i < history.states.len(),
    ensures
        history.states[i].valid(),
        history.states[i].settled(),
    decreases i,
{
    if i > 0 {
        law_every_state_is_settled(history, i - 1);
        let before = history.states[i - 1];
        let after = history.states[i];
        let operation = history.operations[i - 1];
        assert(leads(before, operation, after));
        match operation {
            Operation::Run => {
                crate::lemmas::lemma_registered(before.parent_collectors, before.parents);
            },
            Operation::InsertParentPiece(piece) => {
                crate::laws::law_parent_piece_keeps_settled(before, piece);
                crate::lemmas::lemma_push_contains(before.available, piece.number);
            },
            Operation::Selected(number) => {
                crate::laws::law_selection_keeps_settled(before, number, after);
            },
            Operation::PassedOver | Operation::Waited => {
                crate::laws::law_waiting_keeps_settled(before, after);
            },
            _ => {},
        }
    }
}

/// The pieces that count as selected are those that were handed out.
pub proof fn law_selected_pieces_are_those_handed_out(history: History, i: int, number: u32)
    requires
        history.holds(),
        0 <= i < history.states.len(),
    ensures
        history.states[i].selected.contains(number) <==> exists|j: int|
            0 <= j < i && #[trigger] history.operations[j] == Operation::Selected(number),
    decreases i,
{
    if i > 0 {
        law_selected_pieces_are_those_handed_out(history, i - 1, number);
        law_every_state_is_settled(history, i - 1);
        let before = history.states[i - 1];
        let after = history.states[i];
        let operation = history.operations[i - 1];
        assert(leads(before, operation, after));
        if let Operation::Selected(n) = operation {
            crate::laws::law_settled_selection_takes_one_piece(before, n, after);
        }
        if operation is PassedOver || operation is Waited {
            crate::laws::law_waiting_keeps_settled(before, after);
        }
        assert(after.selected.contains(number) <==> before.selected.contains(number) || operation
            == Operation::Selected(number));
        if before.selected.contains(number) {
            let j = choose|j: int|
                0 <= j < i - 1 && #[trigger] history.operations[j] == Operation::Selected(number);
            assert(0 <= j < i && history.operations[j] == Operation::Selected(number));
        }
    }
}

/// No piece is handed out twice.
pub proof fn law_no_piece_is_handed_out_twice(history: History, i: int, j: int, number: u32)
    requires
        history.holds(),
        0 <= i < j < history.operations.len(),
        history.operations[i] == Operation::Selected(number),
    ensures
        history.operations[j] != Operation::Selected(number),
{
    law_selected_pieces_are_those_handed_out(history, j, number);
    assert(leads(history.states[j], history.operations[j], history.states[j + 1]));
}

/// Every selection is one draw: the number of the piece handed out leaves its place to the last
/// one, and the other numbers stay in order. An attempt that hands out nothing changes nothing.
pub proof fn law_every_selection_is_one_draw(history: History, i: int)
    requires
        history.holds(),
        0 <= i < history.operations.len(),
    ensures
        history.operations[i] matches Operation::Selected(number) ==> exists|index: int|
            0 <= index < history.states[i].available.len()
                && #[trigger] history.states[i].available[index] == number
                && history.states[i + 1] == history.states[i].after_draw(index),
        history.operations[i] is PassedOver || history.operations[i] is Waited
            || history.operations[i] is Exhausted ==> history.states[i + 1] == history.states[i],
{
    let before = history.states[i];
    let after = history.states[i + 1];
    assert(leads(before, history.operations[i], after));
    law_every_state_is_settled(history, i);
    if let Operation::Selected(number) = history.operations[i] {
        crate::laws::law_selection_is_one_draw(before, number, after);
    } else {
        crate::laws::law_selection_is_one_draw(before, 0, after);
    }
}

/// Together with those that remain, no more pieces are handed out than are interesting, and
/// exactly as many before the first shutdown.
pub proof fn law_pieces_add_up(history: History, i: int)
    requires
        history.holds(),
        0 <= i < history.states.len(),
    ensures
        history.states[i].interested_pieces == history.states[0].interested_pieces,
        history.states[i].selected.finite(),
        history.states[i].remaining + history.states[i].selected.len()
            <= history.states[0].interested_pieces.len(),
        (forall|j: int| 0 <= j < i ==> !(#[trigger] history.operations[j] is Shutdown))
            ==> history.states[i].remaining + history.states[i].selected.len()
            == history.states[0].interested_pieces.len(),
    decreases i,
{
    if i > 0 {
        law_pieces_add_up(history, i - 1);
        law_every_state_is_settled(history, i - 1);
        let before = history.states[i - 1];
        let after = history.states[i];
        let operation = history.operations[i - 1];
        assert(leads(before, operation, after));
        if let Operation::Selected(n) = operation {
            crate::laws::law_settled_selection_takes_one_piece(before, n, after);
        }
        if operation is PassedOver || operation is Waited {
            crate::laws::law_waiting_keeps_settled(before, after);
        }
    }
}

/// Once nothing remains, as after a shutdown, nothing is handed out any more, and no selection
/// waits.
pub proof fn law_exhausted_for_good(history: History, i: int, j: int)
    requires
        history.holds(),
        0 <= i <= j < history.states.len(),
        history.states[i].remaining == 0,
    ensures
        history.states[j].remaining == 0,
        j < history.operations.len() ==> {
            &&& !(history.operations[j] is Selected)
            &&& !(history.operations[j] is PassedOver)
            &&& !(history.operations[j] is Waited)
        },
    decreases j,
{
    if i < j {
        law_exhausted_for_good(history, i, j - 1);
        assert(leads(history.states[j - 1], history.operations[j - 1], history.states[j]));
    }
    if j < history.operations.len() {
        assert(leads(history.states[j], history.operations[j], history.states[j + 1]));
    }
}

/// A piece that a parent reported is kept until it is handed out.
pub proof fn law_reported_piece_is_kept(history: History, i: int, j: int, number: u32)
    requires
        history.holds(),
        0 <= j < i < history.states.len(),
        history.reports(j, number),
    ensures
        history.states[i].selected.contains(number) || history.states[i].parent_pieces.contains_key(
            number,
        ),
    decreases i,
{
    let before = history.states[i - 1];
    let after = history.states[i];
    assert(leads(before, history.operations[i - 1], after));
    if j < i - 1 {
        law_reported_piece_is_kept(history, i - 1, j, number);
        law_every_state_is_settled(history, i - 1);
        if let Operation::Selected(n) = history.operations[i - 1] {
            crate::laws::law_settled_selection_takes_one_piece(before, n, after);
        }
        if history.operations[i - 1] is PassedOver || history.operations[i - 1] is Waited {
            crate::laws::law_waiting_keeps_settled(before, after);
        }
    }
}

/// A piece is kept for selection with the parents that were reported for it, and no others.
pub proof fn law_kept_piece_is_what_parents_reported(
    history: History,
    i: int,
    number: u32,
    id: Seq<char>,
)
    requires
        history.holds(),
        0 <= i < history.states.len(),
        history.states[i].parent_pieces.contains_key(number),
    ensures
        exists|j: int| 0 <= j < i && #[trigger] history.reports(j, number),
        crate::parents::lists(history.states[i].parent_pieces[number].parents, id) <==> exists|
            j: int,
        | 0 <= j < i && #[trigger] history.reports_parent(j, number, id),
    decreases i,
{
    if i > 0 {
        let before = history.states[i - 1];
        let after = history.states[i];
        let operation = history.operations[i - 1];
        assert(leads(before, operation, after));
        law_every_state_is_settled(history, i - 1);
        law_every_state_is_settled(history, i);
        if before.parent_pieces.contains_key(number) {
            law_kept_piece_is_what_parents_reported(history, i - 1, number, id);
            let j = choose|j: int| 0 <= j < i - 1 && #[trigger] history.reports(j, number);
            assert(0 <= j < i && history.reports(j, number));
            let known = before.parent_pieces[number].parents;
            let kept = after.parent_pieces[number].parents;
            if history.reports(i - 1, number) {
                crate::laws::law_merge_adds_what_is_missing(
                    known,
                    operation->InsertParentPiece_0.parents,
                );
            } else {
                assert(kept == known);
            }
            assert(crate::parents::lists(kept, id) <==> crate::parents::lists(known, id)
                || history.reports_parent(i - 1, number, id));
            if crate::parents::lists(known, id) {
                let k = choose|k: int|
                    0 <= k < i - 1 && #[trigger] history.reports_parent(k, number, id);
                assert(0 <= k < i && history.reports_parent(k, number, id));
            }
        } else {
            assert(history.reports(i - 1, number));
            assert forall|j: int| 0 <= j < i && #[trigger] history.reports_parent(j, number, id)
                implies j == i - 1 by {
                if j < i - 1 {
                    assert(history.reports(j, number));
                    law_reported_piece_is_kept(history, i - 1, j, number);
                }
            }
            assert(crate::parents::lists(after.parent_pieces[number].parents, id)
                <==> history.reports_parent(i - 1, number, id));
        }
    }
}

/// A piece is kept for selection with the length that was reported for it last.
pub proof fn law_kept_piece_has_latest_length(history: History, i: int, j: int, number: u32)
    requires
        history.holds(),
        0 <= j < i < history.states.len(),
        history.reports(j, number),
        forall|k: int| j < k < i ==> !#[trigger] history.reports(k, number),
        history.states[i].parent_pieces.contains_key(number),
    ensures
        history.states[i].parent_pieces[number].length
            == history.operations[j]->InsertParentPiece_0.length,
    decreases i,
{
    let before = history.states[i - 1];
    let after = history.states[i];
    assert(leads(before, history.operations[i - 1], after));
    law_every_state_is_settled(history, i);
    if j < i - 1 {
        assert(!history.reports(i - 1, number));
        law_kept_piece_has_latest_length(history, i - 1, j, number);
    }
}

/// Pieces are handed out only from what parents reported: a piece that is handed out was
/// reported by a parent before, and it lists the parents that were reported for it, and no
/// others.
pub proof fn law_handed_out_piece_is_what_parents_reported(
    history: History,
    i: int,
    number: u32,
    id: Seq<char>,
)
    requires
        history.holds(),
        0 <= i < history.operations.len(),
        history.operations[i] == Operation::Selected(number),
    ensures
        exists|j: int| 0 <= j < i && #[trigger] history.reports(j, number),
        crate::parents::lists(history.states[i].parent_pieces[number].parents, id) <==> exists|
            j: int,
        | 0 <= j < i && #[trigger] history.reports_parent(j, number, id),
{
    assert(leads(history.states[i], history.operations[i], history.states[i + 1]));
    law_kept_piece_is_what_parents_reported(history, i, number, id);
}

/// A selection waits only where every piece that parents reported was handed out before.
pub proof fn law_waits_only_where_nothing_is_kept(history: History, i: int, number: u32)
    requires
        history.holds(),
        0 <= i < history.operations.len(),
        history.operations[i] is Waited,
    ensures
        !history.states[i].parent_pieces.contains_key(number),
        (exists|j: int| 0 <= j < i && #[trigger] history.reports(j, number)) ==> (exists|j: int|
            0 <= j < i && #[trigger] history.operations[j] == Operation::Selected(number)),
{
    law_every_state_is_settled(history, i);
    assert(leads(history.states[i], history.operations[i], history.states[i + 1]));
    crate::laws::law_settled_selects_what_is_kept(history.states[i], number);
    assert(!history.states[i].selectable(number));
    if exists|j: int| 0 <= j < i && #[trigger] history.reports(j, number) {
        let j = choose|j: int| 0 <= j < i && #[trigger] history.reports(j, number);
        law_reported_piece_is_kept(history, i, j, number);
        law_selected_pieces_are_those_handed_out(history, i, number);
    }
}

/// Only children are collected from on the children's side, unless a collector is started for a
/// peer that is none.
pub proof fn law_child_collectors_are_children(history: History, i: int, id: Seq<char>)
    requires
        history.holds(),
        0 <= i < history.states.len(),
        forall|k: int|
            0 <= k < i ==> ((#[trigger] history.operations[k]) matches Operation::StartChildCollector(
                peer,
            ) ==> history.states[k].children.contains_key(peer.id)),
    ensures
        history.states[i].child_collectors.contains_key(id)
            ==> history.states[i].children.contains_key(id),
    decreases i,
{
    if i > 0 {
        law_child_collectors_are_children(history, i - 1, id);
        assert(leads(history.states[i - 1], history.operations[i - 1], history.states[i]));
    }
}

/// Once the child pipeline is started, a peer that is collected from if it is a child stays so,
/// unless the selector is shut down while it is one.
pub proof fn law_children_stay_collected(history: History, i: int, j: int, id: Seq<char>)
    requires
        history.holds(),
        0 <= i <= j < history.states.len(),
        history.states[i].child_pipeline_started,
        history.states[i].children.contains_key(id)
            ==> history.states[i].child_collectors.contains_key(id),
        forall|k: int|
            i <= k < j && (#[trigger] history.operations[k]) is Shutdown
                ==> !history.states[k].children.contains_key(id),
    ensures
        history.states[j].child_pipeline_started,
        history.states[j].children.contains_key(id)
            ==> history.states[j].child_collectors.contains_key(id),
    decreases j,
{
    if i < j {
        law_children_stay_collected(history, i, j - 1, id);
        assert(leads(history.states[j - 1], history.operations[j - 1], history.states[j]));
    }
}

/// After a run before which every child was collected from, as where there was none, the children
/// and the peers that are collected from on their side are the same, for the rest of a life
/// without a shutdown that leaves children, and without collectors for peers that are no children.
pub proof fn law_collectors_match_children_after_run(history: History, i: int, j: int)
    requires
        history.holds(),
        0 <= i < j < history.states.len(),
        history.operations[i] is Run,
        history.states[i].children.dom().subset_of(history.states[i].child_collectors.dom()),
        forall|k: int|
            i <= k < j && (#[trigger] history.operations[k]) is Shutdown
                ==> history.states[k].children == Map::<Seq<char>, PeerView>::empty(),
        forall|k: int|
            0 <= k < j ==> ((#[trigger] history.operations[k]) matches Operation::StartChildCollector(
                peer,
            ) ==> history.states[k].children.contains_key(peer.id)),
    ensures
        history.states[j].child_collectors.dom() == history.states[j].children.dom(),
{
    assert(leads(history.states[i], history.operations[i], history.states[i + 1]));
    assert forall|id: Seq<char>|
        history.states[j].child_collectors.dom().contains(id) <==> history.states[j].children.dom().contains(
            id,
        ) by {
        law_child_collectors_are_children(history, j, id);
        assert(history.states[i].children.dom().contains(id)
            ==> history.states[i].child_collectors.dom().contains(id));
        law_children_stay_collected(history, i + 1, j, id);
    }
    assert(history.states[j].child_collectors.dom() =~= history.states[j].children.dom());
}

} // verus!
