//! What a piece selector holds, and what each of its operations makes of that.
use vstd::prelude::*;

use crate::types::{CollectedPieceView, CollectorStartView, PeerView, PieceView};

verus! {

/// Every peer is registered under its own id.
pub open spec fn keyed_by_id(peers: Map<Seq<char>, PeerView>) -> bool {
    forall|id: Seq<char>| #[trigger] peers.contains_key(id) ==> peers[id].id == id
}

/// Every piece is kept under its own number.
pub open spec fn keyed_by_number(pieces: Map<u32, CollectedPieceView>) -> bool {
    forall|n: u32| #[trigger] pieces.contains_key(n) ==> pieces[n].number == n
}

/// The peers by id. Of several peers that share an id, the last one counts.
pub open spec fn peers_by_id(peers: Seq<PeerView>) -> Map<Seq<char>, PeerView>
    decreases peers.len(),
{
    if peers.len() == 0 {
        Map::empty()
    } else {
        peers_by_id(peers.drop_last()).insert(peers.last().id, peers.last())
    }
}

/// The registry after `peers` were registered in order, each one only where its id was not
/// registered before.
pub open spec fn registered(
    registry: Map<Seq<char>, PeerView>,
    peers: Seq<PeerView>,
) -> Map<Seq<char>, PeerView>
    decreases peers.len(),
{
    if peers.len() == 0 {
        registry
    } else {
        let before = registered(registry, peers.drop_last());
        if before.contains_key(peers.last().id) {
            before
        } else {
            before.insert(peers.last().id, peers.last())
        }
    }
}

/// Those of `peers`, in order, whose id is neither in the registry nor among the peers before.
pub open spec fn newly_registered(
    registry: Map<Seq<char>, PeerView>,
    peers: Seq<PeerView>,
) -> Seq<PeerView>
    decreases peers.len(),
{
    if peers.len() == 0 {
        Seq::empty()
    } else {
        let before = newly_registered(registry, peers.drop_last());
        if registered(registry, peers.drop_last()).contains_key(peers.last().id) {
            before
        } else {
            before.push(peers.last())
        }
    }
}

/// What a piece selector holds.
#[verifier::ext_equal]
pub struct SelectorView {
    pub host_id: Seq<char>,
    pub peer_id: Seq<char>,
    pub task_id: Seq<char>,
    pub interested_pieces: Seq<PieceView>,
    /// The parents that the selector was made with.
    pub parents: Seq<PeerView>,
    /// The children by id.
    pub children: Map<Seq<char>, PeerView>,
    /// The parents whose collectors run, by id.
    pub parent_collectors: Map<Seq<char>, PeerView>,
    /// The children whose collectors run, by id.
    pub child_collectors: Map<Seq<char>, PeerView>,
    /// The pieces collected from parents that were not selected yet, by number.
    pub parent_pieces: Map<u32, CollectedPieceView>,
    /// The pieces collected from children, by number.
    pub child_pieces: Map<u32, CollectedPieceView>,
    /// How many pieces remain to be selected.
    pub remaining: nat,
    /// The numbers of the pieces that were selected.
    pub selected: Set<u32>,
    /// The numbers from which the next selection is drawn.
    pub available: Seq<u32>,
    pub parent_pipeline_started: bool,
    pub child_pipeline_started: bool,
    pub announce_manager_started: bool,
}

impl SelectorView {
    /// What holds of every selector.
    pub open spec fn valid(self) -> bool {
        &&& self.available.no_duplicates()
        &&& keyed_by_id(self.children)
        &&& keyed_by_id(self.parent_collectors)
        &&& keyed_by_id(self.child_collectors)
        &&& keyed_by_number(self.parent_pieces)
        &&& keyed_by_number(self.child_pieces)
    }

    /// The numbers to draw from are those of the pieces to select, and none of them was selected.
    pub open spec fn settled(self) -> bool {
        &&& forall|n: u32| #[trigger]
            self.available.contains(n) <==> self.parent_pieces.contains_key(n)
        &&& forall|n: u32| #[trigger]
            self.parent_pieces.contains_key(n) ==> !self.selected.contains(n)
    }

    /// A selector of which nothing has happened yet.
    pub open spec fn fresh(
        host_id: Seq<char>,
        peer_id: Seq<char>,
        task_id: Seq<char>,
        interested_pieces: Seq<PieceView>,
        parents: Seq<PeerView>,
    ) -> Self {
        SelectorView {
            host_id,
            peer_id,
            task_id,
            interested_pieces,
            parents,
            children: Map::empty(),
            parent_collectors: Map::empty(),
            child_collectors: Map::empty(),
            parent_pieces: Map::empty(),
            child_pieces: Map::empty(),
            remaining: interested_pieces.len(),
            selected: Set::empty(),
            available: Seq::empty(),
            parent_pipeline_started: false,
            child_pipeline_started: false,
            announce_manager_started: false,
        }
    }

    /// What a collector for `peer` is made from.
    pub open spec fn collector_start(self, peer: PeerView) -> CollectorStartView {
        CollectorStartView {
            host_id: self.host_id,
            task_id: self.task_id,
            interested_pieces: self.interested_pieces,
            parent: peer.as_parent(),
        }
    }

    // Collectors

    /// Whether a request to collect from the parent `id` starts a collector.
    pub open spec fn starts_parent_collector(self, id: Seq<char>) -> bool {
        self.parent_pipeline_started && !self.parent_collectors.contains_key(id)
    }

    /// After a request to collect from the parent `peer`.
    pub open spec fn with_parent_collector(self, peer: PeerView) -> Self {
        if self.starts_parent_collector(peer.id) {
            SelectorView {
                parent_collectors: self.parent_collectors.insert(peer.id, peer),
                ..self
            }
        } else {
            self
        }
    }

    /// Whether a request to collect from the child `id` starts a collector.
    pub open spec fn starts_child_collector(self, id: Seq<char>) -> bool {
        self.child_pipeline_started && !self.child_collectors.contains_key(id)
    }

    /// After a request to collect from the child `peer`.
    pub open spec fn with_child_collector(self, peer: PeerView) -> Self {
        if self.starts_child_collector(peer.id) {
            SelectorView {
                child_collectors: self.child_collectors.insert(peer.id, peer),
                ..self
            }
        } else {
            self
        }
    }

    /// After a run: both pipelines and the announce manager are started, and every parent has a
    /// collector.
    pub open spec fn running(self) -> Self {
        SelectorView {
            parent_pipeline_started: true,
            child_pipeline_started: true,
            announce_manager_started: true,
            parent_collectors: registered(self.parent_collectors, self.parents),
            ..self
        }
    }

    /// After a shutdown: nothing remains to be selected and no collector runs.
    pub open spec fn shut_down(self) -> Self {
        SelectorView {
            remaining: 0,
            parent_collectors: Map::empty(),
            child_collectors: Map::empty(),
            ..self
        }
    }

    // Collected pieces

    /// Whether a report of the piece `number` by a parent makes it available for selection.
    pub open spec fn is_new_parent_piece(self, number: u32) -> bool {
        !self.selected.contains(number) && !self.parent_pieces.contains_key(number)
    }

    /// After a parent reported `piece`.
    pub open spec fn with_parent_piece(self, piece: CollectedPieceView) -> Self {
        if self.selected.contains(piece.number) {
            self
        } else {
            SelectorView {
                parent_pieces: crate::parents::pieces_with(self.parent_pieces, piece),
                available: if self.parent_pieces.contains_key(piece.number)
                    || self.available.contains(piece.number) {
                    self.available
                } else {
                    self.available.push(piece.number)
                },
                ..self
            }
        }
    }

    /// After a child reported `piece`.
    pub open spec fn with_child_piece(self, piece: CollectedPieceView) -> Self {
        SelectorView {
            child_pieces: crate::parents::pieces_with(self.child_pieces, piece),
            ..self
        }
    }

    /// After children reported `pieces` in turn.
    pub open spec fn with_child_pieces(self, pieces: Seq<CollectedPieceView>) -> Self
        decreases pieces.len(),
    {
        if pieces.len() == 0 {
            self
        } else {
            self.with_child_pieces(pieces.drop_last()).with_child_piece(pieces.last())
        }
    }

    // Selection

    /// Whether claiming the piece `number` hands it out.
    pub open spec fn is_claimable(self, number: u32) -> bool {
        !self.selected.contains(number) && self.parent_pieces.contains_key(number)
    }

    /// After the piece `number` was claimed.
    pub open spec fn claimed(self, number: u32) -> Self {
        if self.selected.contains(number) {
            self
        } else {
            SelectorView {
                selected: self.selected.insert(number),
                parent_pieces: self.parent_pieces.remove(number),
                remaining: if self.parent_pieces.contains_key(number) && self.remaining > 0 {
                    (self.remaining - 1) as nat
                } else {
                    self.remaining
                },
                ..self
            }
        }
    }

    /// After the number at `index` was drawn and its piece was claimed.
    pub open spec fn after_draw(self, index: int) -> Self {
        SelectorView {
            available: crate::index::swap_removed(self.available, index),
            ..self
        }.claimed(self.available[index])
    }

    /// After the numbers at `indexes` were drawn in turn, each from what the draws before it left,
    /// and their pieces were claimed.
    pub open spec fn after_draws(self, indexes: Seq<int>) -> Self
        decreases indexes.len(),
    {
        if indexes.len() == 0 {
            self
        } else {
            self.after_draws(indexes.drop_last()).after_draw(indexes.last())
        }
    }

    /// Whether a selection may hand out the piece `number`.
    pub open spec fn selectable(self, number: u32) -> bool {
        self.available.contains(number) && self.is_claimable(number)
    }

    /// Whether `after` differs from this only by numbers that were drawn: they are not available
    /// any more and count as selected.
    pub open spec fn drawn(self, after: Self) -> bool {
        &&& after.available.no_duplicates()
        &&& forall|n: u32| after.available.contains(n) ==> self.available.contains(n)
        &&& forall|n: u32| #[trigger]
            after.selected.contains(n) <==> self.selected.contains(n) || (self.available.contains(n)
                && !after.available.contains(n))
        &&& after == SelectorView { available: after.available, selected: after.selected, ..self }
    }

    /// Whether drawing at `indexes` in turn hands out nothing: each index is within the list that
    /// it is drawn from, and the number there cannot be selected.
    pub open spec fn draws_nothing(self, indexes: Seq<int>) -> bool
        decreases indexes.len(),
    {
        indexes.len() > 0 ==> {
            let before = self.after_draws(indexes.drop_last());
            &&& self.draws_nothing(indexes.drop_last())
            &&& 0 <= indexes.last() < before.available.len()
            &&& !before.selectable(before.available[indexes.last()])
        }
    }

    /// Whether drawing at `indexes` in turn hands out the piece `number` with the last draw, and
    /// nothing before.
    pub open spec fn draws_piece(self, indexes: Seq<int>, number: u32) -> bool {
        let before = self.after_draws(indexes.drop_last());
        &&& indexes.len() > 0
        &&& self.draws_nothing(indexes.drop_last())
        &&& 0 <= indexes.last() < before.available.len()
        &&& before.available[indexes.last()] == number
        &&& before.selectable(number)
    }

    /// Whether `after` comes from draws that handed out nothing: it differs from this only by
    /// drawn numbers, none of which could be selected.
    pub open spec fn passed_over(self, after: Self) -> bool {
        &&& exists|indexes: Seq<int>| #[trigger]
            self.draws_nothing(indexes) && after == self.after_draws(indexes)
        &&& self.drawn(after)
        &&& forall|n: u32| #[trigger] self.selectable(n) ==> after.available.contains(n)
    }

    /// Whether `after` comes from selecting the piece `number`: a draw handed it out, after draws
    /// that handed out nothing. Other numbers were drawn only where they could not be selected.
    pub open spec fn selects(self, number: u32, after: Self) -> bool {
        &&& exists|indexes: Seq<int>| #[trigger]
            self.draws_piece(indexes, number) && after == self.after_draws(indexes)
        &&& self.selectable(number)
        &&& !after.available.contains(number)
        &&& forall|n: u32| #[trigger]
            self.selectable(n) && n != number ==> after.available.contains(n)
        &&& after.parent_pieces == self.parent_pieces.remove(number)
        &&& after.remaining == self.remaining - 1
        &&& self.drawn(
            SelectorView {
                parent_pieces: self.parent_pieces,
                remaining: self.remaining,
                ..after
            },
        )
    }

    // Children

    /// After the children `ids` were removed, with their collectors and what they reported.
    pub open spec fn without_children(self, ids: Set<Seq<char>>) -> Self {
        SelectorView {
            children: self.children.remove_keys(ids),
            child_collectors: self.child_collectors.remove_keys(ids),
            child_pieces: crate::parents::pieces_without(self.child_pieces, ids),
            ..self
        }
    }

    /// After the child `peer` was inserted: it is registered, and collected from where it was
    /// not registered before.
    pub open spec fn with_child(self, peer: PeerView) -> Self {
        let registered = SelectorView { children: self.children.insert(peer.id, peer), ..self };
        if self.children.contains_key(peer.id) {
            registered
        } else {
            registered.with_child_collector(peer)
        }
    }

    /// The children that are not among `desired`.
    pub open spec fn stale_children(self, desired: Map<Seq<char>, PeerView>) -> Set<Seq<char>> {
        Set::new(|id: Seq<char>| self.children.contains_key(id) && !desired.contains_key(id))
    }

    /// Those of `desired` that are no children yet.
    pub open spec fn new_children(self, desired: Map<Seq<char>, PeerView>) -> Set<Seq<char>> {
        Set::new(|id: Seq<char>| desired.contains_key(id) && !self.children.contains_key(id))
    }

    /// After the peers `ids` of `desired` became children, where they were none before.
    pub open spec fn with_children(self, desired: Map<Seq<char>, PeerView>, ids: Set<Seq<char>>) -> Self {
        SelectorView {
            children: Map::new(
                |id: Seq<char>| self.children.contains_key(id) || ids.contains(id),
                |id: Seq<char>|
                    if self.children.contains_key(id) {
                        self.children[id]
                    } else {
                        desired[id]
                    },
            ),
            child_collectors: Map::new(
                |id: Seq<char>|
                    self.child_collectors.contains_key(id) || (ids.contains(id)
                        && !self.children.contains_key(id) && self.starts_child_collector(id)),
                |id: Seq<char>|
                    if self.child_collectors.contains_key(id) {
                        self.child_collectors[id]
                    } else {
                        desired[id]
                    },
            ),
            ..self
        }
    }

    /// After the children were brought in line with `desired`: those missing from it were
    /// removed, and those new in it were inserted.
    pub open spec fn synced(self, desired: Map<Seq<char>, PeerView>) -> Self {
        self.without_children(self.stale_children(desired)).with_children(desired, desired.dom())
    }

    /// The children whose collectors a sync with `desired` stops.
    pub open spec fn sync_stops(self, desired: Map<Seq<char>, PeerView>) -> Set<Seq<char>> {
        self.stale_children(desired).intersect(self.child_collectors.dom())
    }

    /// The children whose collectors a sync with `desired` starts.
    pub open spec fn sync_starts(self, desired: Map<Seq<char>, PeerView>) -> Set<Seq<char>> {
        self.new_children(desired).filter(|id: Seq<char>| self.starts_child_collector(id))
    }

    /// Whether `starts` are the collectors for the peers `ids` of `desired`, each of them once.
    pub open spec fn starts_for(
        self,
        starts: Seq<CollectorStartView>,
        desired: Map<Seq<char>, PeerView>,
        ids: Set<Seq<char>>,
    ) -> bool {
        let started = starts.map_values(|s: CollectorStartView| s.parent.id);
        &&& started.no_duplicates()
        &&& forall|id: Seq<char>| #[trigger] started.contains(id) <==> ids.contains(id)
        &&& forall|k: int|
            0 <= k < starts.len() ==> (#[trigger] starts[k]) == self.collector_start(
                desired[starts[k].parent.id],
            )
    }
}

} // verus!
