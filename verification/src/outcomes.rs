//! What each operation comes to, said of every piece, peer and number on its own.
//!
//! These laws speak of fields, keys and places alone, so that each of them can be read without
//! the definitions in `state.rs` and `parents.rs`.
use vstd::prelude::*;

#[allow(unused_imports)]
use crate::announce::{AnnounceActionView, AnnounceEvent, AnnounceResponse};
#[allow(unused_imports)]
use crate::state::SelectorView;
#[allow(unused_imports)]
use crate::types::{
    CollectedParentView, CollectedPieceView, CollectorStartView, PeerView, PieceView,
};

verus! {

// Parents of a piece

/// What it means that a list of parents lists an id, that its ids are distinct, and that striking
/// out peers empties a piece.
pub proof fn law_words_on_parents(
    parents: Seq<CollectedParentView>,
    piece: CollectedPieceView,
    ids: Set<Seq<char>>,
    id: Seq<char>,
)
    ensures
        crate::parents::lists(parents, id) <==> exists|i: int|
            0 <= i < parents.len() && (#[trigger] parents[i]).id == id,
        crate::parents::distinct_ids(parents) <==> forall|i: int, j: int|
            0 <= i < j < parents.len() ==> (#[trigger] parents[i]).id != (#[trigger] parents[j]).id,
        piece.emptied_by(ids) <==> piece.parents.len() > 0 && forall|i: int|
            0 <= i < piece.parents.len() ==> ids.contains((#[trigger] piece.parents[i]).id),
{
}

/// A merge keeps the known parents as they are and appends, in order and each as a whole, exactly
/// those reported parents whose id is neither known nor reported before: `picked` are their
/// places in the report.
pub proof fn law_merge_appends_first_reports(
    existing: Seq<CollectedParentView>,
    incoming: Seq<CollectedParentView>,
) -> (picked: Seq<int>)
    ensures
        crate::parents::merged_parents(existing, incoming).len() == existing.len() + picked.len(),
        forall|k: int|
            0 <= k < existing.len() ==> #[trigger] crate::parents::merged_parents(
                existing,
                incoming,
            )[k] == existing[k],
        forall|k: int|
            0 <= k < picked.len() ==> 0 <= #[trigger] picked[k] < incoming.len()
                && crate::parents::merged_parents(existing, incoming)[existing.len() + k]
                == incoming[picked[k]],
        forall|k: int, l: int|
            0 <= k < l < picked.len() ==> #[trigger] picked[k] < #[trigger] picked[l],
        forall|i: int|
            0 <= i < incoming.len() ==> (#[trigger] picked.contains(i) <==> {
                &&& forall|j: int|
                    0 <= j < existing.len() ==> (#[trigger] existing[j]).id != incoming[i].id
                &&& forall|j: int| 0 <= j < i ==> (#[trigger] incoming[j]).id != incoming[i].id
            }),
    decreases incoming.len(),
{
    if incoming.len() == 0 {
        Seq::empty()
    } else {
        let rest = incoming.drop_last();
        let last = incoming.len() - 1;
        let before = crate::parents::merged_parents(existing, rest);
        let picked = law_merge_appends_first_reports(existing, rest);
        crate::laws::law_merge_adds_what_is_missing(existing, rest);
        assert forall|i: int| 0 <= i < rest.len() implies #[trigger] rest[i] == incoming[i] by {}
        assert(crate::parents::lists(rest, incoming[last].id) <==> exists|j: int|
            0 <= j < last && (#[trigger] incoming[j]).id == incoming[last].id) by {
            if crate::parents::lists(rest, incoming[last].id) {
                let j = choose|j: int|
                    0 <= j < rest.len() && (#[trigger] rest[j]).id == incoming[last].id;
                assert(incoming[j].id == incoming[last].id);
            }
            if exists|j: int| 0 <= j < last && (#[trigger] incoming[j]).id == incoming[last].id {
                let j = choose|j: int|
                    0 <= j < last && (#[trigger] incoming[j]).id == incoming[last].id;
                assert(rest[j].id == incoming[last].id);
            }
        }
        assert(!picked.contains(last));
        if crate::parents::lists(before, incoming[last].id) {
            assert forall|i: int| 0 <= i < incoming.len() implies (#[trigger] picked.contains(i)
                <==> {
                &&& forall|j: int|
                    0 <= j < existing.len() ==> (#[trigger] existing[j]).id != incoming[i].id
                &&& forall|j: int| 0 <= j < i ==> (#[trigger] incoming[j]).id != incoming[i].id
            }) by {
                if i < last {
                    assert(rest[i] == incoming[i]);
                    assert forall|j: int| 0 <= j < i implies rest[j] == #[trigger] incoming[j] by {}
                }
            }
            picked
        } else {
            let more = picked.push(last);
            crate::lemmas::lemma_push_contains(picked, last);
            assert forall|i: int| 0 <= i < incoming.len() implies (#[trigger] more.contains(i)
                <==> {
                &&& forall|j: int|
                    0 <= j < existing.len() ==> (#[trigger] existing[j]).id != incoming[i].id
                &&& forall|j: int| 0 <= j < i ==> (#[trigger] incoming[j]).id != incoming[i].id
            }) by {
                if i < last {
                    assert(rest[i] == incoming[i]);
                    assert forall|j: int| 0 <= j < i implies rest[j] == #[trigger] incoming[j] by {}
                }
            }
            more
        }
    }
}

/// A merged piece keeps its number, takes the reported length, and appends the reported parents
/// that are new, each as a whole.
pub proof fn law_merged_piece(existing: CollectedPieceView, incoming: CollectedPieceView) -> (picked:
    Seq<int>)
    ensures
        existing.merged(incoming).number == existing.number,
        existing.merged(incoming).length == incoming.length,
        existing.merged(incoming).parents.len() == existing.parents.len() + picked.len(),
        forall|k: int|
            0 <= k < existing.parents.len() ==> #[trigger] existing.merged(incoming).parents[k]
                == existing.parents[k],
        forall|k: int|
            0 <= k < picked.len() ==> 0 <= #[trigger] picked[k] < incoming.parents.len()
                && existing.merged(incoming).parents[existing.parents.len() + k]
                == incoming.parents[picked[k]],
        forall|k: int, l: int|
            0 <= k < l < picked.len() ==> #[trigger] picked[k] < #[trigger] picked[l],
        forall|i: int|
            0 <= i < incoming.parents.len() ==> (#[trigger] picked.contains(i) <==> {
                &&& forall|j: int|
                    0 <= j < existing.parents.len() ==> (#[trigger] existing.parents[j]).id
                        != incoming.parents[i].id
                &&& forall|j: int|
                    0 <= j < i ==> (#[trigger] incoming.parents[j]).id != incoming.parents[i].id
            }),
{
    law_merge_appends_first_reports(existing.parents, incoming.parents)
}

/// A report changes nothing but the piece of its number: a new piece is kept as it is reported,
/// and a known one is merged with the report.
pub proof fn law_report_changes_one_piece(
    pieces: Map<u32, CollectedPieceView>,
    piece: CollectedPieceView,
    n: u32,
)
    ensures
        ({
            let after = crate::parents::pieces_with(pieces, piece);
            &&& after.contains_key(n) <==> pieces.contains_key(n) || n == piece.number
            &&& n != piece.number && pieces.contains_key(n) ==> after[n] == pieces[n]
            &&& n == piece.number && !pieces.contains_key(n) ==> after[n] == piece
            &&& n == piece.number && pieces.contains_key(n) ==> after[n] == pieces[n].merged(piece)
        }),
{
}

/// Striking out peers leaves, in order and each as a whole, exactly the parents of other ids:
/// `kept` are their places in the list.
pub proof fn law_strike_keeps_the_others(piece: CollectedPieceView, ids: Set<Seq<char>>) -> (kept:
    Seq<int>)
    ensures
        piece.without(ids).number == piece.number,
        piece.without(ids).length == piece.length,
        piece.without(ids).parents.len() == kept.len(),
        forall|k: int|
            0 <= k < kept.len() ==> 0 <= #[trigger] kept[k] < piece.parents.len()
                && piece.without(ids).parents[k] == piece.parents[kept[k]],
        forall|k: int, l: int|
            0 <= k < l < kept.len() ==> #[trigger] kept[k] < #[trigger] kept[l],
        forall|i: int|
            0 <= i < piece.parents.len() ==> (#[trigger] kept.contains(i) <==> !ids.contains(
                piece.parents[i].id,
            )),
    decreases piece.parents.len(),
{
    reveal(Seq::filter);
    if piece.parents.len() == 0 {
        Seq::empty()
    } else {
        let last = piece.parents.len() - 1;
        let rest = CollectedPieceView { parents: piece.parents.drop_last(), ..piece };
        let kept = law_strike_keeps_the_others(rest, ids);
        assert(!kept.contains(last));
        assert forall|i: int| 0 <= i < last implies #[trigger] rest.parents[i] == piece.parents[i] by {}
        if ids.contains(piece.parents[last].id) {
            assert forall|i: int| 0 <= i < piece.parents.len() implies (#[trigger] kept.contains(i)
                <==> !ids.contains(piece.parents[i].id)) by {
                if i < last {
                    assert(rest.parents[i] == piece.parents[i]);
                }
            }
            kept
        } else {
            crate::lemmas::lemma_push_contains(kept, last);
            let more = kept.push(last);
            assert forall|i: int| 0 <= i < piece.parents.len() implies (#[trigger] more.contains(i)
                <==> !ids.contains(piece.parents[i].id)) by {
                if i < last {
                    assert(rest.parents[i] == piece.parents[i]);
                }
            }
            more
        }
    }
}

/// Cleaning up after peers keeps a piece, with these peers struck out, unless it listed parents
/// and all of them go; and it brings in none.
pub proof fn law_cleanup_drops_emptied_pieces(
    pieces: Map<u32, CollectedPieceView>,
    ids: Set<Seq<char>>,
    n: u32,
)
    ensures
        ({
            let after = crate::parents::pieces_without(pieces, ids);
            &&& after.contains_key(n) <==> pieces.contains_key(n) && (pieces[n].parents.len() == 0
                || exists|i: int|
                0 <= i < pieces[n].parents.len() && !ids.contains(
                    (#[trigger] pieces[n].parents[i]).id,
                ))
            &&& after.contains_key(n) ==> after[n] == pieces[n].without(ids)
        }),
{
}

// States

/// What it means that a state is valid.
pub proof fn law_words_on_valid(state: SelectorView)
    ensures
        state.valid() <==> {
            &&& forall|i: int, j: int|
                0 <= i < state.available.len() && 0 <= j < state.available.len() && i != j
                    ==> state.available[i] != state.available[j]
            &&& forall|id: Seq<char>| #[trigger]
                state.children.contains_key(id) ==> state.children[id].id == id
            &&& forall|id: Seq<char>| #[trigger]
                state.parent_collectors.contains_key(id) ==> state.parent_collectors[id].id == id
            &&& forall|id: Seq<char>| #[trigger]
                state.child_collectors.contains_key(id) ==> state.child_collectors[id].id == id
            &&& forall|n: u32| #[trigger]
                state.parent_pieces.contains_key(n) ==> state.parent_pieces[n].number == n
            &&& forall|n: u32| #[trigger]
                state.child_pieces.contains_key(n) ==> state.child_pieces[n].number == n
        },
{
}

/// What it means that a state is settled, and that its pieces are counted.
pub proof fn law_words_on_settled(state: SelectorView)
    ensures
        state.settled() <==> {
            &&& forall|n: u32| #[trigger]
                state.available.contains(n) <==> state.parent_pieces.contains_key(n)
            &&& forall|n: u32| #[trigger]
                state.parent_pieces.contains_key(n) ==> !state.selected.contains(n)
        },
        crate::laws::counted(state) <==> state.selected.finite() && state.remaining
            + state.selected.len() == state.interested_pieces.len(),
{
}

/// What it means that two states agree on the parents' or on the children's side.
pub proof fn law_words_on_sides(left: SelectorView, right: SelectorView)
    ensures
        crate::laws::same_parent_side(left, right) <==> right == (SelectorView {
            host_id: right.host_id,
            peer_id: right.peer_id,
            task_id: right.task_id,
            interested_pieces: right.interested_pieces,
            children: right.children,
            child_collectors: right.child_collectors,
            child_pieces: right.child_pieces,
            parent_pipeline_started: right.parent_pipeline_started,
            child_pipeline_started: right.child_pipeline_started,
            announce_manager_started: right.announce_manager_started,
            ..left
        }),
        crate::laws::same_child_side(left, right) <==> left.children == right.children
            && left.child_collectors == right.child_collectors && left.child_pieces
            == right.child_pieces,
{
}

/// A new selector knows who it is, its interesting pieces and its parents. All the pieces remain,
/// and nothing was registered, collected, selected or started.
pub proof fn law_new_selector(
    host_id: Seq<char>,
    peer_id: Seq<char>,
    task_id: Seq<char>,
    interested_pieces: Seq<PieceView>,
    parents: Seq<PeerView>,
    id: Seq<char>,
    n: u32,
)
    ensures
        ({
            let state = SelectorView::fresh(host_id, peer_id, task_id, interested_pieces, parents);
            &&& state.host_id == host_id
            &&& state.peer_id == peer_id
            &&& state.task_id == task_id
            &&& state.interested_pieces == interested_pieces
            &&& state.parents == parents
            &&& state.remaining == interested_pieces.len()
            &&& state.available.len() == 0
            &&& !state.selected.contains(n)
            &&& !state.parent_pieces.contains_key(n)
            &&& !state.child_pieces.contains_key(n)
            &&& !state.children.contains_key(id)
            &&& !state.parent_collectors.contains_key(id)
            &&& !state.child_collectors.contains_key(id)
            &&& !state.parent_pipeline_started
            &&& !state.child_pipeline_started
            &&& !state.announce_manager_started
        }),
{
}

// Collectors

/// Every collector is made from the selector's own host id and task id, from all of its
/// interesting pieces, in order, and from the id and the host of its peer.
pub proof fn law_collector_is_made_for_every_piece(state: SelectorView, peer: PeerView)
    ensures
        state.collector_start(peer).host_id == state.host_id,
        state.collector_start(peer).task_id == state.task_id,
        state.collector_start(peer).interested_pieces == state.interested_pieces,
        state.collector_start(peer).parent.id == peer.id,
        state.collector_start(peer).parent.host == peer.host,
        state.collector_start(peer).parent.download_ip is None,
        state.collector_start(peer).parent.download_tcp_port is None,
        state.collector_start(peer).parent.download_quic_port is None,
{
}

/// A request to collect from a parent starts a collector exactly where the parent pipeline is
/// started and none is registered under that id. The peer is registered then, and else nothing
/// happens; nothing besides changes.
pub proof fn law_parent_collector_request(state: SelectorView, peer: PeerView, id: Seq<char>)
    ensures
        ({
            let after = state.with_parent_collector(peer);
            &&& state.starts_parent_collector(id) <==> state.parent_pipeline_started
                && !state.parent_collectors.contains_key(id)
            &&& after.parent_collectors.contains_key(id) <==> {
                ||| state.parent_collectors.contains_key(id)
                ||| id == peer.id && state.parent_pipeline_started
            }
            &&& state.parent_collectors.contains_key(id) ==> after.parent_collectors[id]
                == state.parent_collectors[id]
            &&& !state.parent_collectors.contains_key(id) && after.parent_collectors.contains_key(
                id,
            ) ==> after.parent_collectors[id] == peer
            &&& after == (SelectorView { parent_collectors: after.parent_collectors, ..state })
        }),
{
}

/// A request to collect from a child starts a collector exactly where the child pipeline is
/// started and none is registered under that id. The peer is registered then, and else nothing
/// happens; nothing besides changes.
pub proof fn law_child_collector_request(state: SelectorView, peer: PeerView, id: Seq<char>)
    ensures
        ({
            let after = state.with_child_collector(peer);
            &&& state.starts_child_collector(id) <==> state.child_pipeline_started
                && !state.child_collectors.contains_key(id)
            &&& after.child_collectors.contains_key(id) <==> {
                ||| state.child_collectors.contains_key(id)
                ||| id == peer.id && state.child_pipeline_started
            }
            &&& state.child_collectors.contains_key(id) ==> after.child_collectors[id]
                == state.child_collectors[id]
            &&& !state.child_collectors.contains_key(id) && after.child_collectors.contains_key(id)
                ==> after.child_collectors[id] == peer
            &&& after == (SelectorView { child_collectors: after.child_collectors, ..state })
        }),
{
}

/// Registering peers in order keeps what is registered, and registers the first peer of every
/// other id, and no others.
pub proof fn law_first_of_each_id_is_registered(
    registry: Map<Seq<char>, PeerView>,
    peers: Seq<PeerView>,
    id: Seq<char>,
    i: int,
)
    ensures
        ({
            let after = crate::state::registered(registry, peers);
            &&& after.contains_key(id) <==> registry.contains_key(id) || exists|k: int|
                0 <= k < peers.len() && (#[trigger] peers[k]).id == id
            &&& registry.contains_key(id) ==> after[id] == registry[id]
            &&& 0 <= i < peers.len() && peers[i].id == id && !registry.contains_key(id) && (forall|
                j: int,
            |
                0 <= j < i ==> (#[trigger] peers[j]).id != id) ==> after[id] == peers[i]
        }),
    decreases peers.len(),
{
    if peers.len() > 0 {
        let rest = peers.drop_last();
        let last = peers.len() - 1;
        let before = crate::state::registered(registry, rest);
        let after = crate::state::registered(registry, peers);
        law_first_of_each_id_is_registered(registry, rest, id, i);
        assert(peers.last() == peers[last]);
        if before.contains_key(id) {
            assert(after.contains_key(id) && after[id] == before[id]);
            if !registry.contains_key(id) {
                let k = choose|k: int| 0 <= k < rest.len() && (#[trigger] rest[k]).id == id;
                assert(peers[k].id == id);
                if 0 <= i < peers.len() && peers[i].id == id && (forall|j: int|
                    0 <= j < i ==> (#[trigger] peers[j]).id != id) {
                    assert(i <= k);
                    assert(rest[i] == peers[i]);
                    assert forall|j: int| 0 <= j < i implies (#[trigger] rest[j]).id != id by {
                        assert(rest[j] == peers[j]);
                    }
                }
            }
        } else {
            assert forall|k: int| 0 <= k < last implies (#[trigger] peers[k]).id != id by {
                assert(rest[k].id == peers[k].id);
            }
        }
    }
}

/// The peers that are registered anew are, in order, exactly the first peers of every id that was
/// not registered: `picked` are their places.
pub proof fn law_first_of_each_new_id_is_started(
    registry: Map<Seq<char>, PeerView>,
    peers: Seq<PeerView>,
) -> (picked: Seq<int>)
    ensures
        crate::state::newly_registered(registry, peers).len() == picked.len(),
        forall|k: int|
            0 <= k < picked.len() ==> 0 <= #[trigger] picked[k] < peers.len()
                && crate::state::newly_registered(registry, peers)[k] == peers[picked[k]],
        forall|k: int, l: int|
            0 <= k < l < picked.len() ==> #[trigger] picked[k] < #[trigger] picked[l],
        forall|i: int|
            0 <= i < peers.len() ==> (#[trigger] picked.contains(i) <==> {
                &&& !registry.contains_key(peers[i].id)
                &&& forall|j: int| 0 <= j < i ==> (#[trigger] peers[j]).id != peers[i].id
            }),
    decreases peers.len(),
{
    if peers.len() == 0 {
        Seq::empty()
    } else {
        let rest = peers.drop_last();
        let last = peers.len() - 1;
        let picked = law_first_of_each_new_id_is_started(registry, rest);
        law_first_of_each_id_is_registered(registry, rest, peers[last].id, 0);
        assert(!picked.contains(last));
        assert forall|i: int| 0 <= i < last implies #[trigger] rest[i] == peers[i] by {}
        let known = crate::state::registered(registry, rest).contains_key(peers[last].id);
        assert(known <==> registry.contains_key(peers[last].id) || exists|j: int|
            0 <= j < last && (#[trigger] peers[j]).id == peers[last].id) by {
            if exists|j: int| 0 <= j < last && (#[trigger] peers[j]).id == peers[last].id {
                let j = choose|j: int| 0 <= j < last && (#[trigger] peers[j]).id == peers[last].id;
                assert(rest[j].id == peers[last].id);
            }
            if exists|j: int| 0 <= j < rest.len() && (#[trigger] rest[j]).id == peers[last].id {
                let j = choose|j: int|
                    0 <= j < rest.len() && (#[trigger] rest[j]).id == peers[last].id;
                assert(peers[j].id == peers[last].id);
            }
        }
        let all = if known {
            picked
        } else {
            crate::lemmas::lemma_push_contains(picked, last);
            picked.push(last)
        };
        assert forall|i: int| 0 <= i < peers.len() implies (#[trigger] all.contains(i) <==> {
            &&& !registry.contains_key(peers[i].id)
            &&& forall|j: int| 0 <= j < i ==> (#[trigger] peers[j]).id != peers[i].id
        }) by {
            if i < last {
                assert(rest[i] == peers[i]);
                assert(all.contains(i) <==> picked.contains(i));
                assert forall|j: int| 0 <= j < i implies rest[j] == #[trigger] peers[j] by {}
            }
        }
        all
    }
}

/// A run starts both pipelines and the announce manager, registers a collector for every parent,
/// keeps the collectors that ran, and changes nothing else.
pub proof fn law_run_starts_everything(state: SelectorView, id: Seq<char>, i: int)
    ensures
        ({
            let after = state.running();
            &&& after.parent_pipeline_started
            &&& after.child_pipeline_started
            &&& after.announce_manager_started
            &&& after.parent_collectors.contains_key(id) <==> state.parent_collectors.contains_key(
                id,
            ) || exists|k: int| 0 <= k < state.parents.len() && (#[trigger] state.parents[k]).id
                == id
            &&& state.parent_collectors.contains_key(id) ==> after.parent_collectors[id]
                == state.parent_collectors[id]
            &&& 0 <= i < state.parents.len() && state.parents[i].id == id
                && !state.parent_collectors.contains_key(id) && (forall|j: int|
                0 <= j < i ==> (#[trigger] state.parents[j]).id != id)
                ==> after.parent_collectors[id] == state.parents[i]
            &&& after == (SelectorView {
                parent_pipeline_started: true,
                child_pipeline_started: true,
                announce_manager_started: true,
                parent_collectors: after.parent_collectors,
                ..state
            })
        }),
{
    law_first_of_each_id_is_registered(state.parent_collectors, state.parents, id, i);
}

/// A run starts a collector for an id exactly where one is registered afterwards and none was
/// before.
pub proof fn law_run_starts_what_it_registers(state: SelectorView, id: Seq<char>)
    ensures
        (exists|k: int|
            0 <= k < crate::state::newly_registered(state.parent_collectors, state.parents).len()
                && (#[trigger] crate::state::newly_registered(
                state.parent_collectors,
                state.parents,
            )[k]).id == id) <==> state.running().parent_collectors.contains_key(id)
            && !state.parent_collectors.contains_key(id),
        forall|k: int|
            0 <= k < crate::state::newly_registered(state.parent_collectors, state.parents).len()
                && (#[trigger] crate::state::newly_registered(
                state.parent_collectors,
                state.parents,
            )[k]).id == id ==> state.running().parent_collectors[id]
                == crate::state::newly_registered(state.parent_collectors, state.parents)[k],
    decreases state.parents.len(),
{
    let registry = state.parent_collectors;
    let peers = state.parents;
    if peers.len() > 0 {
        let rest = peers.drop_last();
        let before = crate::state::newly_registered(registry, rest);
        let after = crate::state::newly_registered(registry, peers);
        law_run_starts_what_it_registers(SelectorView { parents: rest, ..state }, id);
        crate::lemmas::lemma_registered(registry, rest);
        assert forall|k: int| 0 <= k < before.len() implies before[k] == #[trigger] after[k] by {}
        if exists|k: int| 0 <= k < before.len() && (#[trigger] before[k]).id == id {
            let k = choose|k: int| 0 <= k < before.len() && (#[trigger] before[k]).id == id;
            assert(after[k].id == id);
        }
        if after.len() > before.len() {
            assert(after[before.len() as int] == peers.last());
        }
    }
}

/// After a shutdown nothing remains and no collector is registered; nothing else changes.
pub proof fn law_shutdown_clears_collectors(state: SelectorView, id: Seq<char>)
    ensures
        ({
            let after = state.shut_down();
            &&& after.remaining == 0
            &&& !after.parent_collectors.contains_key(id)
            &&& !after.child_collectors.contains_key(id)
            &&& after == (SelectorView {
                remaining: 0,
                parent_collectors: after.parent_collectors,
                child_collectors: after.child_collectors,
                ..state
            })
        }),
{
}

// Reports

/// A report by a parent of a piece that was selected changes nothing. Any other report keeps the
/// piece of its number: as reported where it is new, and else merged as `picked` says. The piece
/// becomes available by that exactly where it is new; its number then comes last, unless it is
/// in the list. Nothing else changes.
pub proof fn law_parent_report(state: SelectorView, piece: CollectedPieceView, n: u32) -> (picked: Seq<
    int,
>)
    ensures
        ({
            let after = state.with_parent_piece(piece);
            let known = state.parent_pieces.contains_key(piece.number);
            &&& state.is_new_parent_piece(n) <==> !state.selected.contains(n)
                && !state.parent_pieces.contains_key(n)
            &&& state.selected.contains(piece.number) ==> after == state
            &&& !state.selected.contains(piece.number) ==> {
                &&& after.parent_pieces.contains_key(n) <==> state.parent_pieces.contains_key(n) || n
                    == piece.number
                &&& n != piece.number && state.parent_pieces.contains_key(n)
                    ==> after.parent_pieces[n] == state.parent_pieces[n]
                &&& !known ==> after.parent_pieces[piece.number] == piece
                &&& known ==> after.parent_pieces[piece.number].number
                    == state.parent_pieces[piece.number].number
                &&& after.parent_pieces[piece.number].length == piece.length
                &&& known ==> {
                    let before = state.parent_pieces[piece.number].parents;
                    let merged = after.parent_pieces[piece.number].parents;
                    &&& merged.len() == before.len() + picked.len()
                    &&& forall|k: int| 0 <= k < before.len() ==> #[trigger] merged[k] == before[k]
                    &&& forall|k: int|
                        0 <= k < picked.len() ==> 0 <= #[trigger] picked[k] < piece.parents.len()
                            && merged[before.len() + k] == piece.parents[picked[k]]
                    &&& forall|k: int, l: int|
                        0 <= k < l < picked.len() ==> #[trigger] picked[k] < #[trigger] picked[l]
                    &&& forall|i: int|
                        0 <= i < piece.parents.len() ==> (#[trigger] picked.contains(i) <==> {
                            &&& forall|j: int|
                                0 <= j < before.len() ==> (#[trigger] before[j]).id
                                    != piece.parents[i].id
                            &&& forall|j: int|
                                0 <= j < i ==> (#[trigger] piece.parents[j]).id
                                    != piece.parents[i].id
                        })
                }
                &&& known || state.available.contains(piece.number) ==> after.available
                    == state.available
                &&& !known && !state.available.contains(piece.number) ==> {
                    &&& after.available.len() == state.available.len() + 1
                    &&& after.available[state.available.len() as int] == piece.number
                    &&& forall|k: int|
                        0 <= k < state.available.len() ==> #[trigger] after.available[k]
                            == state.available[k]
                }
            }
            &&& after == (SelectorView {
                parent_pieces: after.parent_pieces,
                available: after.available,
                ..state
            })
        }),
{
    if state.parent_pieces.contains_key(piece.number) {
        law_merged_piece(state.parent_pieces[piece.number], piece)
    } else {
        Seq::empty()
    }
}

/// A report by a child keeps the piece of its number: as reported where it is new, and else
/// merged as `picked` says. Nothing else changes.
pub proof fn law_child_report(state: SelectorView, piece: CollectedPieceView, n: u32) -> (picked: Seq<
    int,
>)
    ensures
        ({
            let after = state.with_child_piece(piece);
            let known = state.child_pieces.contains_key(piece.number);
            &&& after.child_pieces.contains_key(n) <==> state.child_pieces.contains_key(n) || n
                == piece.number
            &&& n != piece.number && state.child_pieces.contains_key(n) ==> after.child_pieces[n]
                == state.child_pieces[n]
            &&& !known ==> after.child_pieces[piece.number] == piece
            &&& known ==> after.child_pieces[piece.number].number
                == state.child_pieces[piece.number].number
            &&& after.child_pieces[piece.number].length == piece.length
            &&& known ==> {
                let before = state.child_pieces[piece.number].parents;
                let merged = after.child_pieces[piece.number].parents;
                &&& merged.len() == before.len() + picked.len()
                &&& forall|k: int| 0 <= k < before.len() ==> #[trigger] merged[k] == before[k]
                &&& forall|k: int|
                    0 <= k < picked.len() ==> 0 <= #[trigger] picked[k] < piece.parents.len()
                        && merged[before.len() + k] == piece.parents[picked[k]]
                &&& forall|k: int, l: int|
                    0 <= k < l < picked.len() ==> #[trigger] picked[k] < #[trigger] picked[l]
                &&& forall|i: int|
                    0 <= i < piece.parents.len() ==> (#[trigger] picked.contains(i) <==> {
                        &&& forall|j: int|
                            0 <= j < before.len() ==> (#[trigger] before[j]).id
                                != piece.parents[i].id
                        &&& forall|j: int|
                            0 <= j < i ==> (#[trigger] piece.parents[j]).id != piece.parents[i].id
                    })
            }
            &&& after == (SelectorView { child_pieces: after.child_pieces, ..state })
        }),
{
    if state.child_pieces.contains_key(piece.number) {
        law_merged_piece(state.child_pieces[piece.number], piece)
    } else {
        Seq::empty()
    }
}

/// Reports by children are taken in one after the other.
pub proof fn law_child_reports_in_turn(
    state: SelectorView,
    pieces: Seq<CollectedPieceView>,
    piece: CollectedPieceView,
)
    ensures
        state.with_child_pieces(Seq::empty()) == state,
        state.with_child_pieces(pieces.push(piece)) == state.with_child_pieces(
            pieces,
        ).with_child_piece(piece),
{
    assert(pieces.push(piece).drop_last() =~= pieces);
}

// Selection

/// A piece can be claimed where a parent reported it and it was not selected, and be selected
/// where it is available besides. A claim marks its number as selected and takes the piece; where
/// there was one, one less remains. A second claim changes nothing.
pub proof fn law_claim_takes_one_piece(state: SelectorView, number: u32, n: u32)
    ensures
        ({
            let after = state.claimed(number);
            &&& state.is_claimable(n) <==> !state.selected.contains(n)
                && state.parent_pieces.contains_key(n)
            &&& state.selectable(n) <==> !state.selected.contains(n)
                && state.parent_pieces.contains_key(n) && state.available.contains(n)
            &&& state.selected.contains(number) ==> after == state
            &&& !state.selected.contains(number) ==> {
                &&& after.selected.contains(n) <==> state.selected.contains(n) || n == number
                &&& after.parent_pieces.contains_key(n) <==> state.parent_pieces.contains_key(n) && n
                    != number
                &&& after.parent_pieces.contains_key(n) ==> after.parent_pieces[n]
                    == state.parent_pieces[n]
                &&& state.parent_pieces.contains_key(number) && state.remaining > 0
                    ==> after.remaining == state.remaining - 1
                &&& !state.parent_pieces.contains_key(number) || state.remaining == 0
                    ==> after.remaining == state.remaining
            }
            &&& after == (SelectorView {
                selected: after.selected,
                parent_pieces: after.parent_pieces,
                remaining: after.remaining,
                ..state
            })
            &&& after.claimed(number) == after
        }),
{
}

/// A draw takes one number out of the list: the last one takes its place, and the others stay
/// where they are. Its piece is claimed, and nothing else changes.
pub proof fn law_draw_takes_one_number(state: SelectorView, index: int, k: int)
    requires
        0 <= index < state.available.len(),
    ensures
        ({
            let after = state.after_draw(index);
            let last = state.available.len() - 1;
            &&& after.available.len() == last
            &&& 0 <= k < last ==> after.available[k] == (if k == index {
                state.available[last]
            } else {
                state.available[k]
            })
            &&& after == (SelectorView {
                available: after.available,
                ..state.claimed(state.available[index])
            })
        }),
        ({
            let left = crate::index::swap_removed(state.available, index);
            let last = state.available.len() - 1;
            &&& left.len() == last
            &&& 0 <= k < last ==> left[k] == (if k == index {
                state.available[last]
            } else {
                state.available[k]
            })
        }),
{
}

/// Numbers are drawn one after the other. Draws hand out nothing as long as none of the numbers
/// can be selected, and hand out a piece with the first number that can.
pub proof fn law_draws_in_turn(state: SelectorView, indexes: Seq<int>, index: int, number: u32)
    ensures
        ({
            let before = state.after_draws(indexes);
            let can_draw = 0 <= index < before.available.len();
            &&& state.after_draws(Seq::empty()) == state
            &&& state.after_draws(indexes.push(index)) == before.after_draw(index)
            &&& state.draws_nothing(Seq::empty())
            &&& state.draws_nothing(indexes.push(index)) <==> state.draws_nothing(indexes)
                && can_draw && !before.selectable(before.available[index])
            &&& !state.draws_piece(Seq::empty(), number)
            &&& state.draws_piece(indexes.push(index), number) <==> state.draws_nothing(indexes)
                && can_draw && before.available[index] == number && before.selectable(number)
        }),
{
    assert(indexes.push(index).drop_last() =~= indexes);
}

/// A selection hands out a piece that a parent reported, that is available and that was not
/// selected before. It takes that piece and no other; one less remains. Of the numbers, only
/// those leave the list that count as selected from then on, and none that could be selected
/// but the one handed out. Nothing else changes.
pub proof fn law_selection_comes_to_one_piece(
    state: SelectorView,
    number: u32,
    after: SelectorView,
    n: u32,
)
    requires
        state.selects(number, after),
    ensures
        !state.selected.contains(number),
        state.parent_pieces.contains_key(number),
        state.available.contains(number),
        after.selected.contains(number),
        after.remaining == state.remaining - 1,
        after.parent_pieces.contains_key(n) <==> state.parent_pieces.contains_key(n) && n != number,
        after.parent_pieces.contains_key(n) ==> after.parent_pieces[n] == state.parent_pieces[n],
        after.selected.contains(n) <==> state.selected.contains(n) || (state.available.contains(n)
            && !after.available.contains(n)),
        after.available.contains(n) ==> state.available.contains(n) && n != number,
        state.available.contains(n) && !after.available.contains(n) && n != number
            ==> state.selected.contains(n) || !state.parent_pieces.contains_key(n),
        after == (SelectorView {
            available: after.available,
            selected: after.selected,
            parent_pieces: after.parent_pieces,
            remaining: after.remaining,
            ..state
        }),
{
    if state.available.contains(n) && !after.available.contains(n) && n != number {
        assert(!state.selectable(n));
    }
}

/// Draws that hand out nothing take no piece. Only numbers leave the list that could not be
/// selected, and they count as selected from then on. Nothing else changes.
pub proof fn law_passing_over_takes_no_piece(state: SelectorView, after: SelectorView, n: u32)
    requires
        state.passed_over(after),
    ensures
        after.available.contains(n) ==> state.available.contains(n),
        after.selected.contains(n) <==> state.selected.contains(n) || (state.available.contains(n)
            && !after.available.contains(n)),
        state.available.contains(n) && !after.available.contains(n) ==> state.selected.contains(n)
            || !state.parent_pieces.contains_key(n),
        after == (SelectorView { available: after.available, selected: after.selected, ..state }),
{
    if state.available.contains(n) && !after.available.contains(n) {
        assert(!state.selectable(n));
    }
}

/// Where every available number has a piece that was not selected, as it has throughout the life
/// of a selector, a selection takes one number out of the list: the last one takes its place,
/// and the others stay where they are.
pub proof fn law_selection_takes_one_number(
    state: SelectorView,
    number: u32,
    after: SelectorView,
) -> (index: int)
    requires
        forall|n: u32| #[trigger]
            state.available.contains(n) ==> state.parent_pieces.contains_key(n)
                && !state.selected.contains(n),
        state.selects(number, after),
    ensures
        0 <= index < state.available.len(),
        state.available[index] == number,
        after.available.len() == state.available.len() - 1,
        forall|k: int|
            0 <= k < after.available.len() ==> #[trigger] after.available[k] == (if k == index {
                state.available[state.available.len() - 1]
            } else {
                state.available[k]
            }),
        forall|n: u32|
            after.selected.contains(n) <==> state.selected.contains(n) || n == number,
{
    crate::laws::law_selection_is_one_draw(state, number, after);
    let index = choose|index: int|
        0 <= index < state.available.len() && #[trigger] state.available[index] == number && after
            == state.after_draw(index);
    assert forall|k: int| 0 <= k < after.available.len() implies #[trigger] after.available[k] == (
    if k == index {
        state.available[state.available.len() - 1]
    } else {
        state.available[k]
    }) by {
        law_draw_takes_one_number(state, index, k);
    }
    index
}

// Children

/// Removing children takes away exactly these children and their collectors, strikes them from
/// what children reported, and changes nothing else.
pub proof fn law_removal_takes_away_children(
    state: SelectorView,
    ids: Set<Seq<char>>,
    id: Seq<char>,
    n: u32,
)
    ensures
        ({
            let after = state.without_children(ids);
            &&& after.children.contains_key(id) <==> state.children.contains_key(id)
                && !ids.contains(id)
            &&& after.children.contains_key(id) ==> after.children[id] == state.children[id]
            &&& after.child_collectors.contains_key(id) <==> state.child_collectors.contains_key(id)
                && !ids.contains(id)
            &&& after.child_collectors.contains_key(id) ==> after.child_collectors[id]
                == state.child_collectors[id]
            &&& after.child_pieces.contains_key(n) <==> state.child_pieces.contains_key(n) && (
            state.child_pieces[n].parents.len() == 0 || exists|i: int|
                0 <= i < state.child_pieces[n].parents.len() && !ids.contains(
                    (#[trigger] state.child_pieces[n].parents[i]).id,
                ))
            &&& after.child_pieces.contains_key(n) ==> after.child_pieces[n]
                == state.child_pieces[n].without(ids)
            &&& after == (SelectorView {
                children: after.children,
                child_collectors: after.child_collectors,
                child_pieces: after.child_pieces,
                ..state
            })
        }),
{
    law_cleanup_drops_emptied_pieces(state.child_pieces, ids, n);
}

/// An inserted child is registered with what was said of it last. A collector is registered for
/// it where it was no child before, the child pipeline is started and none is registered under
/// its id. Nothing else changes.
pub proof fn law_insertion_registers_the_child(state: SelectorView, peer: PeerView, id: Seq<char>)
    ensures
        ({
            let after = state.with_child(peer);
            &&& after.children.contains_key(id) <==> state.children.contains_key(id) || id
                == peer.id
            &&& after.children[peer.id] == peer
            &&& id != peer.id && state.children.contains_key(id) ==> after.children[id]
                == state.children[id]
            &&& after.child_collectors.contains_key(id) <==> {
                ||| state.child_collectors.contains_key(id)
                ||| id == peer.id && !state.children.contains_key(id)
                    && state.child_pipeline_started
            }
            &&& state.child_collectors.contains_key(id) ==> after.child_collectors[id]
                == state.child_collectors[id]
            &&& !state.child_collectors.contains_key(id) && after.child_collectors.contains_key(id)
                ==> after.child_collectors[id] == peer
            &&& after == (SelectorView {
                children: after.children,
                child_collectors: after.child_collectors,
                ..state
            })
        }),
{
}

/// The peers by id are those announced. Of several that share an id, the last one counts.
pub proof fn law_last_of_each_id_counts(peers: Seq<PeerView>, id: Seq<char>, i: int)
    ensures
        ({
            let by_id = crate::state::peers_by_id(peers);
            &&& by_id.contains_key(id) <==> exists|k: int|
                0 <= k < peers.len() && (#[trigger] peers[k]).id == id
            &&& 0 <= i < peers.len() && peers[i].id == id && (forall|j: int|
                i < j < peers.len() ==> (#[trigger] peers[j]).id != id) ==> by_id[id] == peers[i]
        }),
    decreases peers.len(),
{
    if peers.len() > 0 {
        let rest = peers.drop_last();
        let last = peers.len() - 1;
        let before = crate::state::peers_by_id(rest);
        let after = crate::state::peers_by_id(peers);
        law_last_of_each_id_counts(rest, id, i);
        assert(peers.last() == peers[last]);
        if peers[last].id == id {
            assert(after.contains_key(id) && after[id] == peers[last]);
        } else if before.contains_key(id) {
            assert(after.contains_key(id) && after[id] == before[id]);
            let k = choose|k: int| 0 <= k < rest.len() && (#[trigger] rest[k]).id == id;
            assert(peers[k].id == id);
            if 0 <= i < last && peers[i].id == id && (forall|j: int|
                i < j < peers.len() ==> (#[trigger] peers[j]).id != id) {
                assert(rest[i] == peers[i]);
                assert forall|j: int| i < j < rest.len() implies (#[trigger] rest[j]).id != id by {
                    assert(rest[j] == peers[j]);
                }
            }
        } else {
            assert forall|k: int| 0 <= k < peers.len() implies (#[trigger] peers[k]).id != id by {
                if k < last {
                    assert(rest[k].id == peers[k].id);
                }
            }
        }
    }
}

/// A sync makes the desired peers the children. Those that were children stay as they were, with
/// their collectors; the others come in as desired, with a collector where the child pipeline is
/// started and none is registered. The children that are not desired go, with their collectors,
/// and are struck from what children reported. Nothing else changes.
pub proof fn law_sync_comes_to_desired(
    state: SelectorView,
    desired: Map<Seq<char>, PeerView>,
    id: Seq<char>,
    n: u32,
    gone: Set<Seq<char>>,
)
    requires
        forall|other: Seq<char>| #[trigger]
            gone.contains(other) <==> state.children.contains_key(other) && !desired.contains_key(
                other,
            ),
    ensures
        ({
            let after = state.synced(desired);
            &&& after.children.contains_key(id) <==> desired.contains_key(id)
            &&& desired.contains_key(id) && state.children.contains_key(id) ==> after.children[id]
                == state.children[id]
            &&& desired.contains_key(id) && !state.children.contains_key(id) ==> after.children[id]
                == desired[id]
            &&& after.child_collectors.contains_key(id) <==> {
                ||| state.child_collectors.contains_key(id) && !gone.contains(id)
                ||| desired.contains_key(id) && !state.children.contains_key(id)
                    && state.child_pipeline_started
            }
            &&& after.child_collectors.contains_key(id) && state.child_collectors.contains_key(id)
                ==> after.child_collectors[id] == state.child_collectors[id]
            &&& after.child_collectors.contains_key(id) && !state.child_collectors.contains_key(id)
                ==> after.child_collectors[id] == desired[id]
            &&& after.child_pieces.contains_key(n) <==> state.child_pieces.contains_key(n) && (
            state.child_pieces[n].parents.len() == 0 || exists|i: int|
                0 <= i < state.child_pieces[n].parents.len() && !gone.contains(
                    (#[trigger] state.child_pieces[n].parents[i]).id,
                ))
            &&& after.child_pieces.contains_key(n) ==> after.child_pieces[n]
                == state.child_pieces[n].without(gone)
            &&& after == (SelectorView {
                children: after.children,
                child_collectors: after.child_collectors,
                child_pieces: after.child_pieces,
                ..state
            })
        }),
{
    assert(gone =~= state.stale_children(desired));
    law_removal_takes_away_children(state, gone, id, n);
}

/// A sync stops exactly the collectors that ran before it and do not afterwards, which are those
/// of the children that are not desired. It starts exactly those that run afterwards and did not
/// before, which are those of the new children, where the child pipeline is started.
pub proof fn law_sync_stops_and_starts(
    state: SelectorView,
    desired: Map<Seq<char>, PeerView>,
    id: Seq<char>,
)
    ensures
        state.stale_children(desired).contains(id) <==> state.children.contains_key(id)
            && !desired.contains_key(id),
        state.new_children(desired).contains(id) <==> !state.children.contains_key(id)
            && desired.contains_key(id),
        state.sync_stops(desired).contains(id) <==> state.child_collectors.contains_key(id)
            && state.children.contains_key(id) && !desired.contains_key(id),
        state.sync_stops(desired).contains(id) <==> state.child_collectors.contains_key(id)
            && !state.synced(desired).child_collectors.contains_key(id),
        state.sync_starts(desired).contains(id) <==> !state.child_collectors.contains_key(id)
            && !state.children.contains_key(id) && desired.contains_key(id)
            && state.child_pipeline_started,
        state.sync_starts(desired).contains(id) <==> !state.child_collectors.contains_key(id)
            && state.synced(desired).child_collectors.contains_key(id),
{
}

/// A sync with a list of announced peers stops the collectors of exactly the children that the
/// list does not name, as far as they have one, and starts one for exactly the peers that it
/// names and that are no children, where the child pipeline is started and none is registered.
pub proof fn law_sync_follows_the_list(state: SelectorView, peers: Seq<PeerView>, id: Seq<char>)
    ensures
        ({
            let desired = crate::state::peers_by_id(peers);
            let named = exists|i: int| 0 <= i < peers.len() && (#[trigger] peers[i]).id == id;
            &&& state.sync_stops(desired).contains(id) <==> state.child_collectors.contains_key(id)
                && state.children.contains_key(id) && !named
            &&& state.sync_starts(desired).contains(id) <==> named && !state.children.contains_key(
                id,
            ) && state.child_pipeline_started && !state.child_collectors.contains_key(id)
            &&& state.synced(desired).children.contains_key(id) <==> named
        }),
{
    law_last_of_each_id_counts(peers, id, 0);
    law_sync_stops_and_starts(state, crate::state::peers_by_id(peers), id);
}

/// Collectors to start for some desired peers: one for each of them and for no other, each made
/// from the selector's own host id and task id, from all of its interesting pieces, and from the
/// id and the host of its peer.
pub proof fn law_starts_are_for_the_desired(
    state: SelectorView,
    starts: Seq<CollectorStartView>,
    desired: Map<Seq<char>, PeerView>,
    ids: Set<Seq<char>>,
)
    requires
        state.starts_for(starts, desired, ids),
    ensures
        forall|k: int, l: int|
            0 <= k < l < starts.len() ==> (#[trigger] starts[k]).parent.id != (
            #[trigger] starts[l]).parent.id,
        forall|id: Seq<char>| #[trigger]
            ids.contains(id) <==> exists|k: int|
                0 <= k < starts.len() && (#[trigger] starts[k]).parent.id == id,
        forall|k: int|
            0 <= k < starts.len() ==> {
                let start = #[trigger] starts[k];
                &&& start.host_id == state.host_id
                &&& start.task_id == state.task_id
                &&& start.interested_pieces == state.interested_pieces
                &&& start.parent.host == desired[start.parent.id].host
                &&& start.parent.download_ip is None
                &&& start.parent.download_tcp_port is None
                &&& start.parent.download_quic_port is None
            },
{
    let started = starts.map_values(|s: CollectorStartView| s.parent.id);
    assert forall|k: int| 0 <= k < starts.len() implies started[k] == (
    #[trigger] starts[k]).parent.id by {}
    assert forall|id: Seq<char>| #[trigger]
        ids.contains(id) implies exists|k: int|
        0 <= k < starts.len() && (#[trigger] starts[k]).parent.id == id by {
        assert(started.contains(id));
        let k = choose|k: int| 0 <= k < started.len() && started[k] == id;
        assert(starts[k].parent.id == id);
    }
    assert forall|id: Seq<char>|
        (exists|k: int|
            0 <= k < starts.len() && (#[trigger] starts[k]).parent.id == id) implies #[trigger] ids.contains(
    id) by {
        let k = choose|k: int| 0 <= k < starts.len() && (#[trigger] starts[k]).parent.id == id;
        assert(started[k] == id);
        assert(started.contains(id));
    }
}

// Announcements

/// The announced peers are synced, all of them in order, whether the manager is cancelled or not,
/// and nothing else asks for a sync.
pub proof fn law_announced_peers_are_synced(backoff: u64, event: AnnounceEvent, cancelled: bool)
    ensures
        crate::announce::announce_action(backoff, event, cancelled) is SyncChildren <==> (
        event matches AnnounceEvent::Received(Some(AnnounceResponse::NormalTask(_)))),
        event matches AnnounceEvent::Received(Some(AnnounceResponse::NormalTask(peers))) ==> {
            let synced = crate::announce::announce_action(
                backoff,
                event,
                cancelled,
            )->SyncChildren_0;
            &&& synced.len() == peers@.len()
            &&& forall|i: int| 0 <= i < peers@.len() ==> #[trigger] synced[i] == peers@[i]@
        },
{
}

/// A manager that is not cancelled connects when it is ready, and reads on after a connection, a
/// sync, a timeout and any message without peers. A cancelled one leaves when it is ready, and
/// gives up its stream in the other cases. Either gives up a stream that could not be opened,
/// ended or broke. It then waits for the current delay, which a connection makes one second.
pub proof fn law_actions_on_events(backoff: u64, event: AnnounceEvent, cancelled: bool)
    ensures
        ({
            let action = crate::announce::announce_action(backoff, event, cancelled);
            let reads = {
                ||| event is Connected
                ||| event is Synced
                ||| event is ReadTimedOut
                ||| (event matches AnnounceEvent::Received(None))
                ||| (event matches AnnounceEvent::Received(Some(AnnounceResponse::Other)))
            };
            let broken = event is ConnectFailed || event is StreamEnded || event is StreamFailed;
            &&& action is Connect <==> event is Ready && !cancelled
            &&& action is Stop <==> event is Ready && cancelled
            &&& action is Receive <==> reads && !cancelled
            &&& action is Wait <==> broken || (reads && cancelled)
            &&& action is Wait && event is Connected ==> action->Wait_0 == 1
            &&& action is Wait && !(event is Connected) ==> action->Wait_0 == backoff
        }),
{
}

/// Each delay is twice the one before it, up to thirty seconds; the first one is one second, and
/// the scheduler is asked every second.
pub proof fn law_delays(backoff: nat, failures: nat)
    ensures
        crate::announce::MIN_BACKOFF == 1,
        crate::announce::MAX_BACKOFF == 30,
        crate::announce::REQUEST_INTERVAL == 1,
        backoff <= 15 ==> crate::announce::next_backoff(backoff) == 2 * backoff,
        backoff >= 15 ==> crate::announce::next_backoff(backoff) == 30,
        crate::announce::backoff_after(backoff, 0) == backoff,
        crate::announce::backoff_after(backoff, failures + 1) == crate::announce::next_backoff(
            crate::announce::backoff_after(backoff, failures),
        ),
{
}

} // verus!
