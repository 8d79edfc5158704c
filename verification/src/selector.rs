//! The piece selector: what it knows of parents, children and pieces, and what it decides.
use dashmap::{DashMap, DashSet};
use vstd::prelude::*;

use crate::announce::{AnnounceRequest, GetChildPeerRequest};
use crate::collected::{strike_peer, upsert_piece};
#[allow(unused_imports)]
use crate::history::Operation;
use crate::index::AvailableIndex;
#[allow(unused_imports)]
use crate::state::SelectorView;
use crate::store::{
    contains_number, contains_peer, insert_number, insert_peer, new_number_set, new_peer_map,
    new_piece_map, peer_ids, remove_peer, remove_piece,
};
use crate::types::{CollectedPiece, CollectorStart, Peer, Piece};
#[allow(unused_imports)]
use crate::types::PeerView;

verus! {

/// What a run asks its caller to start.
#[derive(Debug, PartialEq, Eq)]
pub struct RunPlan {
    pub start_parent_pipeline: bool,
    pub start_child_pipeline: bool,
    pub start_announce_manager: bool,
    pub start_collectors: Vec<CollectorStart>,
}

/// What a sync of the children asks its caller to do: first stop the collectors of these
/// children, then start these.
#[derive(Debug, PartialEq, Eq)]
pub struct SyncPlan {
    pub stop_collectors: Vec<String>,
    pub start_collectors: Vec<CollectorStart>,
}

/// The collectors that a shutdown asks its caller to stop.
#[derive(Debug, PartialEq, Eq)]
pub struct ShutdownPlan {
    pub stop_parent_collectors: Vec<String>,
    pub stop_child_collectors: Vec<String>,
}

/// What an attempt to select a piece came to.
#[derive(Debug, PartialEq, Eq)]
pub enum Selection {
    /// Every piece was selected, or the selector was shut down.
    Exhausted,
    /// No piece is available now; one may be after a parent reports it.
    Wait,
    /// The piece to download next.
    Selected(CollectedPiece),
}

/// What drawing a number came to.
#[derive(Debug, PartialEq, Eq)]
pub enum Draw {
    /// Nothing remains to be selected; nothing was drawn.
    Exhausted,
    /// The piece was selected before, or is not there.
    PassedOver,
    /// The piece to download next.
    Selected(CollectedPiece),
}

/// Holds what parents and children report of the pieces of a task, and selects the pieces to
/// download.
///
/// There are two independent pipelines. The collectors of the parent pipeline are started by a
/// run; those of the child pipeline come and go with the children. Pieces are selected only
/// from what parents reported.
pub struct PieceSelector {
    host_id: String,
    peer_id: String,
    task_id: String,
    interested_pieces: Vec<Piece>,
    parents: Vec<Peer>,
    children: DashMap<String, Peer>,
    parent_collectors: DashMap<String, Peer>,
    child_collectors: DashMap<String, Peer>,
    collected_pieces_parents: DashMap<u32, CollectedPiece>,
    collected_pieces_children: DashMap<u32, CollectedPiece>,
    remaining_pieces: usize,
    selected_pieces: DashSet<u32>,
    available: AvailableIndex,
    parent_pipeline_started: bool,
    child_pipeline_started: bool,
    announce_manager_started: bool,
}

impl View for PieceSelector {
    type V = SelectorView;

    closed spec fn view(&self) -> SelectorView {
        SelectorView {
            host_id: self.host_id@,
            peer_id: self.peer_id@,
            task_id: self.task_id@,
            interested_pieces: crate::types::piece_views(self.interested_pieces@),
            parents: crate::types::peer_views(self.parents@),
            children: crate::store::peers_in(self.children),
            parent_collectors: crate::store::peers_in(self.parent_collectors),
            child_collectors: crate::store::peers_in(self.child_collectors),
            parent_pieces: crate::store::pieces_in(self.collected_pieces_parents),
            child_pieces: crate::store::pieces_in(self.collected_pieces_children),
            remaining: self.remaining_pieces as nat,
            selected: crate::store::numbers_in(self.selected_pieces),
            available: self.available@,
            parent_pipeline_started: self.parent_pipeline_started,
            child_pipeline_started: self.child_pipeline_started,
            announce_manager_started: self.announce_manager_started,
        }
    }
}

impl PieceSelector {
    /// What holds of every selector.
    pub closed spec fn wf(&self) -> bool {
        &&& self.available.wf()
        &&& self@.valid()
    }

    /// What holds of every selector shows in its view.
    pub proof fn lemma_valid(&self)
        requires
            self.wf(),
        ensures
            self@.valid(),
            self@.remaining <= usize::MAX,
    {
    }

    /// A selector for the pieces of a task, with a fixed set of parents.
    pub fn new(
        host_id: &str,
        peer_id: &str,
        task_id: &str,
        interested_pieces: Vec<Piece>,
        parents: Vec<Peer>,
    ) -> (selector: Self)
        ensures
            selector.wf(),
            selector@ == SelectorView::fresh(
                host_id@,
                peer_id@,
                task_id@,
                crate::types::piece_views(interested_pieces@),
                crate::types::peer_views(parents@),
            ),
    {
        let remaining_pieces = interested_pieces.len();
        PieceSelector {
            host_id: host_id.to_owned(),
            peer_id: peer_id.to_owned(),
            task_id: task_id.to_owned(),
            interested_pieces,
            parents,
            children: new_peer_map(),
            parent_collectors: new_peer_map(),
            child_collectors: new_peer_map(),
            collected_pieces_parents: new_piece_map(),
            collected_pieces_children: new_piece_map(),
            remaining_pieces,
            selected_pieces: new_number_set(),
            available: AvailableIndex::new(),
            parent_pipeline_started: false,
            child_pipeline_started: false,
            announce_manager_started: false,
        }
    }

    /// What a collector for `peer` is made from.
    fn collector_start(&self, peer: Peer) -> (start: CollectorStart)
        ensures
            start@ == self@.collector_start(peer@),
    {
        let interested_pieces = self.interested_pieces.clone();
        assert(crate::types::piece_views(interested_pieces@) =~= crate::types::piece_views(
            self.interested_pieces@,
        ));
        CollectorStart {
            host_id: self.host_id.clone(),
            task_id: self.task_id.clone(),
            interested_pieces,
            parent: peer.into_parent(),
        }
    }

    /// Takes in a piece that a parent reported: keeps it where it is new, and merges its parents
    /// where it is not. Of a piece that was already selected nothing is kept.
    ///
    /// Returns whether the piece became available for selection by this.
    pub fn insert_parent_piece(&mut self, piece: CollectedPiece) -> (became_available: bool)
        requires
            old(self).wf(),
        ensures
            final(self).wf(),
            crate::history::leads(old(self)@, Operation::InsertParentPiece(piece@), final(self)@),
            final(self)@ == old(self)@.with_parent_piece(piece@),
            became_available == old(self)@.is_new_parent_piece(piece.number),
    {
        let number = piece.number;
        if contains_number(&self.selected_pieces, number) {
            return false;
        }
        let is_new = upsert_piece(&mut self.collected_pieces_parents, piece);
        if is_new {
            self.available.add_number(number);
            proof {
                self.available.lemma_no_duplicates();
            }
        }
        is_new
    }

    /// Takes in a piece that a child reported: keeps it where it is new, and merges its parents
    /// where it is not.
    pub fn insert_child_piece(&mut self, piece: CollectedPiece)
        requires
            old(self).wf(),
        ensures
            final(self).wf(),
            crate::history::leads(old(self)@, Operation::InsertChildPiece(piece@), final(self)@),
            final(self)@ == old(self)@.with_child_piece(piece@),
    {
        let _ = upsert_piece(&mut self.collected_pieces_children, piece);
    }

    /// Hands out the piece `number`, unless it was selected before. From then on it counts as
    /// selected, also where no parent reported it.
    fn claim_piece(&mut self, number: u32) -> (piece: Option<CollectedPiece>)
        requires
            old(self).wf(),
        ensures
            final(self).wf(),
            final(self)@ == old(self)@.claimed(number),
            piece is Some <==> old(self)@.is_claimable(number),
            piece matches Some(p) ==> p@ == old(self)@.parent_pieces[number],
    {
        if contains_number(&self.selected_pieces, number) {
            return None;
        }
        let _ = insert_number(&mut self.selected_pieces, number);
        match remove_piece(&mut self.collected_pieces_parents, number) {
            Some(piece) => {
                if self.remaining_pieces > 0 {
                    self.remaining_pieces = self.remaining_pieces - 1;
                }
                Some(piece)
            },
            None => {
                assert(self@.parent_pieces =~= old(self)@.parent_pieces.remove(number));
                None
            },
        }
    }

    /// Draws the number at `index`, which the last one takes the place of, and hands out its
    /// piece, unless nothing remains to be selected or the number is to be passed over.
    pub fn select_piece_at(&mut self, index: usize) -> (draw: Draw)
        requires
            old(self).wf(),
            index < old(self)@.available.len(),
        ensures
            final(self).wf(),
            crate::history::leads(
                old(self)@,
                match draw {
                    Draw::Exhausted => Operation::Exhausted,
                    Draw::PassedOver => Operation::PassedOver,
                    Draw::Selected(piece) => Operation::Selected(piece.number),
                },
                final(self)@,
            ),
            match draw {
                Draw::Exhausted => {
                    &&& old(self)@.remaining == 0
                    &&& final(self)@ == old(self)@
                },
                Draw::PassedOver => {
                    &&& old(self)@.remaining > 0
                    &&& !old(self)@.selectable(old(self)@.available[index as int])
                    &&& final(self)@ == old(self)@.after_draw(index as int)
                },
                Draw::Selected(piece) => {
                    &&& old(self)@.remaining > 0
                    &&& old(self)@.selectable(old(self)@.available[index as int])
                    &&& final(self)@ == old(self)@.after_draw(index as int)
                    &&& piece@ == old(self)@.parent_pieces[old(self)@.available[index as int]]
                },
            },
    {
        if self.remaining_pieces == 0 {
            return Draw::Exhausted;
        }
        let number = self.available.pop_number_at(index);
        proof {
            self.available.lemma_no_duplicates();
            crate::laws::law_every_draw_selects_or_passes_over(old(self)@, index as int);
        }
        match self.claim_piece(number) {
            Some(piece) => Draw::Selected(piece),
            None => Draw::PassedOver,
        }
    }

    /// Selects one of the available pieces at random.
    ///
    /// It is drawn from what parents reported and was not selected before. There is nothing to
    /// select where no piece remains; where pieces remain and none is available, the caller has
    /// to wait for one.
    pub fn select_piece(&mut self) -> (selection: Selection)
        requires
            old(self).wf(),
        ensures
            final(self).wf(),
            crate::history::leads(
                old(self)@,
                match selection {
                    Selection::Exhausted => Operation::Exhausted,
                    Selection::Wait => Operation::Waited,
                    Selection::Selected(piece) => Operation::Selected(piece.number),
                },
                final(self)@,
            ),
            match selection {
                Selection::Exhausted => {
                    &&& old(self)@.remaining == 0
                    &&& final(self)@ == old(self)@
                },
                Selection::Wait => {
                    &&& old(self)@.remaining > 0
                    &&& forall|n: u32| !old(self)@.selectable(n)
                    &&& old(self)@.passed_over(final(self)@)
                    &&& final(self)@.available.len() == 0
                },
                Selection::Selected(piece) => {
                    &&& old(self)@.remaining > 0
                    &&& old(self)@.selects(piece.number, final(self)@)
                    &&& piece@ == old(self)@.parent_pieces[piece.number]
                },
            },
    {
        let ghost mut drawn: Seq<int> = Seq::empty();
        proof {
            crate::lemmas::lemma_no_draw(self@);
        }
        loop
            invariant
                self.wf(),
                old(self)@.valid(),
                old(self)@.draws_nothing(drawn),
                self@ == old(self)@.after_draws(drawn),
                old(self)@.passed_over(self@),
                old(self)@.remaining == 0 ==> self@ == old(self)@,
            decreases self@.available.len(),
        {
            if self.remaining_pieces == 0 {
                return Selection::Exhausted;
            }
            let ghost before = self@;
            match self.available.draw() {
                None => {
                    assert forall|n: u32| !old(self)@.selectable(n) by {
                        if old(self)@.selectable(n) {
                            assert(before.available.contains(n));
                        }
                    }
                    return Selection::Wait;
                },
                Some(index) => {
                    let draw = self.select_piece_at(index);
                    proof {
                        crate::laws::law_every_draw_selects_or_passes_over(before, index as int);
                        crate::lemmas::lemma_swap_removed(before.available, index as int);
                        crate::lemmas::lemma_one_more_draw(old(self)@, drawn, index as int);
                        drawn = drawn.push(index as int);
                    }
                    if let Draw::Selected(piece) = draw {
                        return Selection::Selected(piece);
                    }
                },
            }
        }
    }

    /// Starts the parent pipeline. Returns whether it was not started before, so that the caller
    /// has to set it up.
    pub fn start_parent_pipeline(&mut self) -> (start: bool)
        requires
            old(self).wf(),
        ensures
            final(self).wf(),
            crate::history::leads(old(self)@, Operation::StartParentPipeline, final(self)@),
            start == !old(self)@.parent_pipeline_started,
            final(self)@ == (SelectorView { parent_pipeline_started: true, ..old(self)@ }),
    {
        let start = !self.parent_pipeline_started;
        self.parent_pipeline_started = true;
        start
    }

    /// Starts the child pipeline. Returns whether it was not started before, so that the caller
    /// has to set it up.
    pub fn start_child_pipeline(&mut self) -> (start: bool)
        requires
            old(self).wf(),
        ensures
            final(self).wf(),
            crate::history::leads(old(self)@, Operation::StartChildPipeline, final(self)@),
            start == !old(self)@.child_pipeline_started,
            final(self)@ == (SelectorView { child_pipeline_started: true, ..old(self)@ }),
    {
        let start = !self.child_pipeline_started;
        self.child_pipeline_started = true;
        start
    }

    /// Starts the announce manager, once. Returns whether it was not started before, so that the
    /// caller has to set it up.
    pub fn start_announce_manager_once(&mut self) -> (start: bool)
        requires
            old(self).wf(),
        ensures
            final(self).wf(),
            crate::history::leads(old(self)@, Operation::StartAnnounceManager, final(self)@),
            start == !old(self)@.announce_manager_started,
            final(self)@ == (SelectorView { announce_manager_started: true, ..old(self)@ }),
    {
        let start = !self.announce_manager_started;
        self.announce_manager_started = true;
        start
    }

    /// Registers a collector for the parent `peer` and returns what it is to be made from.
    /// Nothing is started before the parent pipeline is, nor where a collector for a parent of
    /// that id runs.
    pub fn start_parent_collector(&mut self, peer: Peer) -> (start: Option<CollectorStart>)
        requires
            old(self).wf(),
        ensures
            final(self).wf(),
            crate::history::leads(old(self)@, Operation::StartParentCollector(peer@), final(self)@),
            final(self)@ == old(self)@.with_parent_collector(peer@),
            start is Some <==> old(self)@.starts_parent_collector(peer.id@),
            start matches Some(s) ==> s@ == old(self)@.collector_start(peer@),
    {
        if !self.parent_pipeline_started {
            return None;
        }
        if contains_peer(&self.parent_collectors, &peer.id) {
            return None;
        }
        let _ = insert_peer(&mut self.parent_collectors, peer.id.clone(), peer.clone());
        Some(self.collector_start(peer))
    }

    /// Registers a collector for the child `peer` and returns what it is to be made from.
    /// Nothing is started before the child pipeline is, nor where a collector for a child of
    /// that id runs.
    pub fn start_child_collector(&mut self, peer: Peer) -> (start: Option<CollectorStart>)
        requires
            old(self).wf(),
        ensures
            final(self).wf(),
            crate::history::leads(old(self)@, Operation::StartChildCollector(peer@), final(self)@),
            final(self)@ == old(self)@.with_child_collector(peer@),
            start is Some <==> old(self)@.starts_child_collector(peer.id@),
            start matches Some(s) ==> s@ == old(self)@.collector_start(peer@),
    {
        if !self.child_pipeline_started {
            return None;
        }
        if contains_peer(&self.child_collectors, &peer.id) {
            return None;
        }
        let _ = insert_peer(&mut self.child_collectors, peer.id.clone(), peer.clone());
        Some(self.collector_start(peer))
    }

    /// Starts both pipelines, the announce manager and a collector for each parent, as far as
    /// they were not started before.
    pub fn run(&mut self) -> (plan: RunPlan)
        requires
            old(self).wf(),
        ensures
            final(self).wf(),
            crate::history::leads(old(self)@, Operation::Run, final(self)@),
            final(self)@ == old(self)@.running(),
            plan.start_parent_pipeline == !old(self)@.parent_pipeline_started,
            plan.start_child_pipeline == !old(self)@.child_pipeline_started,
            plan.start_announce_manager == !old(self)@.announce_manager_started,
            crate::types::start_views(plan.start_collectors@)
                == crate::state::newly_registered(
                old(self)@.parent_collectors,
                old(self)@.parents,
            ).map_values(|p: PeerView| old(self)@.collector_start(p)),
    {
        let start_parent_pipeline = self.start_parent_pipeline();
        let start_child_pipeline = self.start_child_pipeline();
        let start_announce_manager = self.start_announce_manager_once();
        let mut start_collectors: Vec<CollectorStart> = Vec::new();
        let ghost registry = old(self)@.parent_collectors;
        let ghost parents = old(self)@.parents;
        let ghost make = |p: PeerView| old(self)@.collector_start(p);
        let mut i: usize = 0;
        proof {
            assert(parents.take(0) =~= Seq::empty());
            assert(crate::types::start_views(start_collectors@)
                =~= crate::state::newly_registered(registry, parents.take(0)).map_values(make));
        }
        let count = self.parents.len();
        while i < count
            invariant
                i <= count,
                count == parents.len(),
                self.wf(),
                parents == crate::types::peer_views(self.parents@),
                parents == old(self)@.parents,
                registry == old(self)@.parent_collectors,
                make == (|p: PeerView| old(self)@.collector_start(p)),
                self@ == (SelectorView {
                    parent_pipeline_started: true,
                    child_pipeline_started: true,
                    announce_manager_started: true,
                    parent_collectors: crate::state::registered(registry, parents.take(i as int)),
                    ..old(self)@
                }),
                crate::types::start_views(start_collectors@) == crate::state::newly_registered(
                    registry,
                    parents.take(i as int),
                ).map_values(make),
            decreases count - i,
        {
            let ghost started = start_collectors@;
            let peer = self.parents[i].clone();
            proof {
                assert(parents[i as int] == peer@);
                assert(parents.take(i + 1).drop_last() =~= parents.take(i as int));
                assert(parents.take(i + 1).last() == peer@);
            }
            match self.start_parent_collector(peer) {
                Some(start) => {
                    start_collectors.push(start);
                    proof {
                        assert(crate::types::start_views(start_collectors@)
                            =~= crate::types::start_views(started).push(start@));
                        assert(start@ == make(peer@));
                        assert(crate::types::start_views(start_collectors@)
                            =~= crate::state::newly_registered(
                            registry,
                            parents.take(i + 1),
                        ).map_values(make));
                    }
                },
                None => {},
            }
            i += 1;
        }
        assert(parents.take(parents.len() as int) =~= parents);
        RunPlan { start_parent_pipeline, start_child_pipeline, start_announce_manager, start_collectors }
    }

    /// Registers the child and, where no child of that id was registered before, a collector for
    /// it. Returns what the collector is to be made from, where one is to be started.
    pub fn insert_child(&mut self, child: Peer) -> (start: Option<CollectorStart>)
        requires
            old(self).wf(),
        ensures
            final(self).wf(),
            crate::history::leads(old(self)@, Operation::InsertChild(child@), final(self)@),
            final(self)@ == old(self)@.with_child(child@),
            start is Some <==> !old(self)@.children.contains_key(child.id@)
                && old(self)@.starts_child_collector(child.id@),
            start matches Some(s) ==> s@ == old(self)@.collector_start(child@),
    {
        let previous = insert_peer(&mut self.children, child.id.clone(), child.clone());
        if previous.is_some() {
            return None;
        }
        self.start_child_collector(child)
    }

    /// Brings the children in line with `peers`: removes those that are not among them, and
    /// inserts those of them that are no children yet. A child that stays keeps its registration
    /// and its collector.
    pub fn sync_children(&mut self, peers: Vec<Peer>) -> (plan: SyncPlan)
        requires
            old(self).wf(),
        ensures
            final(self).wf(),
            crate::history::leads(
                old(self)@,
                Operation::SyncChildren(
                    crate::state::peers_by_id(crate::types::peer_views(peers@)),
                ),
                final(self)@,
            ),
            final(self)@ == old(self)@.synced(
                crate::state::peers_by_id(crate::types::peer_views(peers@)),
            ),
            crate::types::string_views(plan.stop_collectors@).no_duplicates(),
            forall|id: Seq<char>| #[trigger]
                crate::types::string_views(plan.stop_collectors@).contains(id)
                    <==> old(self)@.sync_stops(
                    crate::state::peers_by_id(crate::types::peer_views(peers@)),
                ).contains(id),
            old(self)@.starts_for(
                crate::types::start_views(plan.start_collectors@),
                crate::state::peers_by_id(crate::types::peer_views(peers@)),
                old(self)@.sync_starts(
                    crate::state::peers_by_id(crate::types::peer_views(peers@)),
                ),
            ),
    {
        let ghost views = crate::types::peer_views(peers@);
        let mut desired = new_peer_map();
        assert(views.take(0) =~= Seq::empty());
        for peer in it: peers
            invariant
                it.seq() == peers@,
                views == crate::types::peer_views(peers@),
                crate::store::peers_in(desired) == crate::state::peers_by_id(
                    views.take(it.index() as int),
                ),
        {
            let ghost index = it.index();
            proof {
                assert(views.take(index + 1).drop_last() =~= views.take(index as int));
                assert(views.take(index + 1).last() == peer@);
            }
            let _ = insert_peer(&mut desired, peer.id.clone(), peer);
        }
        proof {
            assert(views.take(views.len() as int) =~= views);
            crate::lemmas::lemma_peers_by_id(views);
        }
        let ghost wanted = crate::state::peers_by_id(views);
        let stop_collectors = self.remove_children_except(&desired);
        let ghost kept = self@;
        let start_collectors = self.insert_children(desired);
        proof {
            let before = old(self)@;
            assert forall|id: Seq<char>| #[trigger]
                kept.sync_starts(wanted).contains(id) <==> before.sync_starts(wanted).contains(
                    id,
                ) by {}
            let starts = crate::types::start_views(start_collectors@);
            assert(before.starts_for(starts, wanted, before.sync_starts(wanted)));
        }
        SyncPlan { stop_collectors, start_collectors }
    }

    /// Removes the children that are not among `desired`. Returns those that had a collector.
    fn remove_children_except(&mut self, desired: &DashMap<String, Peer>) -> (stop: Vec<String>)
        requires
            old(self).wf(),
        ensures
            final(self).wf(),
            final(self)@ == old(self)@.without_children(
                old(self)@.stale_children(crate::store::peers_in(*desired)),
            ),
            crate::types::string_views(stop@).no_duplicates(),
            forall|id: Seq<char>| #[trigger]
                crate::types::string_views(stop@).contains(id) <==> old(self)@.sync_stops(
                    crate::store::peers_in(*desired),
                ).contains(id),
    {
        let ghost before = self@;
        let ghost wanted = crate::store::peers_in(*desired);
        let ghost stale = before.stale_children(wanted);
        let ghost mut removed: Set<Seq<char>> = Set::empty();
        let mut stop: Vec<String> = Vec::new();
        let current = peer_ids(&self.children);
        let ghost ids = crate::types::string_views(current@);
        let mut i: usize = 0;
        proof {
            crate::lemmas::lemma_without_no_children(before);
            assert(crate::types::string_views(stop@) =~= Seq::empty());
        }
        while i < current.len()
            invariant
                i <= current.len(),
                self.wf(),
                before == old(self)@,
                before.valid(),
                wanted == crate::store::peers_in(*desired),
                stale == before.stale_children(wanted),
                ids == crate::types::string_views(current@),
                ids.no_duplicates(),
                forall|id: Seq<char>| ids.contains(id) <==> before.children.contains_key(id),
                self@ == before.without_children(removed),
                forall|id: Seq<char>| #[trigger]
                    removed.contains(id) <==> stale.contains(id) && ids.take(i as int).contains(id),
                crate::types::string_views(stop@).no_duplicates(),
                forall|id: Seq<char>| #[trigger]
                    crate::types::string_views(stop@).contains(id) <==> removed.contains(id)
                        && before.child_collectors.contains_key(id),
            decreases current.len() - i,
        {
            let id = current[i].clone();
            proof {
                assert(ids[i as int] == id@);
                crate::lemmas::lemma_take_contains(ids, i as int);
            }
            if !contains_peer(desired, &id) {
                let ghost stopped = crate::types::string_views(stop@);
                let had_collector = self.remove_child_of_id(&id);
                proof {
                    assert(ids.contains(id@));
                    crate::lemmas::lemma_without_one_more_child(before, removed, id@);
                    removed = removed.insert(id@);
                }
                if had_collector {
                    stop.push(id);
                    proof {
                        let after = crate::types::string_views(stop@);
                        assert(after =~= stopped.push(id@));
                        crate::lemmas::lemma_push_contains(stopped, id@);
                    }
                }
            }
            i += 1;
        }
        proof {
            assert(ids.take(ids.len() as int) =~= ids);
            assert(removed =~= stale);
        }
        stop
    }

    /// Inserts those of `desired` that are no children yet. Returns what their collectors are
    /// to be made from.
    fn insert_children(&mut self, desired: DashMap<String, Peer>) -> (starts: Vec<CollectorStart>)
        requires
            old(self).wf(),
            crate::state::keyed_by_id(crate::store::peers_in(desired)),
        ensures
            final(self).wf(),
            final(self)@ == old(self)@.with_children(
                crate::store::peers_in(desired),
                crate::store::peers_in(desired).dom(),
            ),
            old(self)@.starts_for(
                crate::types::start_views(starts@),
                crate::store::peers_in(desired),
                old(self)@.sync_starts(crate::store::peers_in(desired)),
            ),
    {
        let mut desired = desired;
        let ghost before = self@;
        let ghost wanted = crate::store::peers_in(desired);
        let ghost mut inserted: Set<Seq<char>> = Set::empty();
        let mut starts: Vec<CollectorStart> = Vec::new();
        let listed = peer_ids(&desired);
        let ghost ids = crate::types::string_views(listed@);
        let mut i: usize = 0;
        proof {
            crate::lemmas::lemma_with_no_children(before, wanted);
            assert(crate::types::start_views(starts@) =~= Seq::empty());
        }
        while i < listed.len()
            invariant
                i <= listed.len(),
                self.wf(),
                before == old(self)@,
                before.valid(),
                crate::state::keyed_by_id(wanted),
                ids == crate::types::string_views(listed@),
                ids.no_duplicates(),
                forall|id: Seq<char>| ids.contains(id) <==> wanted.contains_key(id),
                forall|k: int|
                    i <= k < ids.len() ==> {
                        &&& crate::store::peers_in(desired).contains_key(#[trigger] ids[k])
                        &&& crate::store::peers_in(desired)[ids[k]] == wanted[ids[k]]
                    },
                self@ == before.with_children(wanted, inserted),
                forall|id: Seq<char>| #[trigger]
                    inserted.contains(id) <==> ids.take(i as int).contains(id),
                before.starts_for(
                    crate::types::start_views(starts@),
                    wanted,
                    before.sync_starts(wanted).intersect(inserted),
                ),
            decreases listed.len() - i,
        {
            let ghost id = ids[i as int];
            let ghost earlier = inserted;
            proof {
                assert(id == listed@[i as int]@);
                assert(ids.contains(id));
                crate::lemmas::lemma_take_contains(ids, i as int);
            }
            if let Some(peer) = remove_peer(&mut desired, &listed[i]) {
                let ghost started = crate::types::start_views(starts@);
                proof {
                    assert(peer@ == wanted[id]);
                    crate::lemmas::lemma_with_one_more_child(before, wanted, inserted, id);
                    inserted = inserted.insert(id);
                }
                if !contains_peer(&self.children, &peer.id) {
                    match self.insert_child(peer) {
                        Some(start) => {
                            starts.push(start);
                            proof {
                                assert(crate::types::start_views(starts@) =~= started.push(start@));
                                crate::lemmas::lemma_one_more_start(
                                    before,
                                    started,
                                    wanted,
                                    before.sync_starts(wanted).intersect(earlier),
                                    id,
                                );
                                assert(before.sync_starts(wanted).intersect(earlier).insert(id)
                                    =~= before.sync_starts(wanted).intersect(inserted));
                            }
                        },
                        None => {
                            assert(before.sync_starts(wanted).intersect(earlier)
                                =~= before.sync_starts(wanted).intersect(inserted));
                        },
                    }
                } else {
                    assert(before.sync_starts(wanted).intersect(earlier)
                        =~= before.sync_starts(wanted).intersect(inserted));
                }
            }
            i += 1;
        }
        proof {
            assert(ids.take(ids.len() as int) =~= ids);
            assert(inserted =~= wanted.dom());
            assert(before.sync_starts(wanted).intersect(inserted) =~= before.sync_starts(wanted));
        }
        starts
    }

    /// Unregisters the child and its collector, and drops what it reported. Returns whether it
    /// had a collector, which the caller has to stop.
    pub fn remove_child(&mut self, child: Peer) -> (stop: bool)
        requires
            old(self).wf(),
        ensures
            final(self).wf(),
            crate::history::leads(old(self)@, Operation::RemoveChild(child.id@), final(self)@),
            final(self)@ == old(self)@.without_children(set![child.id@]),
            stop == old(self)@.child_collectors.contains_key(child.id@),
    {
        self.remove_child_of_id(&child.id)
    }

    /// Unregisters the child of that id and its collector, and drops what it reported. Returns
    /// whether it had a collector.
    fn remove_child_of_id(&mut self, id: &String) -> (stop: bool)
        requires
            old(self).wf(),
        ensures
            final(self).wf(),
            final(self)@ == old(self)@.without_children(set![id@]),
            stop == old(self)@.child_collectors.contains_key(id@),
    {
        let _ = remove_peer(&mut self.children, id);
        let collector = remove_peer(&mut self.child_collectors, id);
        proof {
            assert(self@.children =~= old(self)@.without_children(set![id@]).children);
            assert(self@.child_collectors =~= old(self)@.without_children(
                set![id@],
            ).child_collectors);
        }
        self.cleanup_child_pieces(id.as_str());
        collector.is_some()
    }

    /// Strikes the child from every piece that children reported, and drops the pieces that are
    /// left with no parent by that.
    pub fn cleanup_child_pieces(&mut self, child_id: &str)
        requires
            old(self).wf(),
        ensures
            final(self).wf(),
            crate::history::leads(old(self)@, Operation::CleanupChildPieces(child_id@), final(self)@),
            final(self)@ == (SelectorView {
                child_pieces: crate::parents::pieces_without(
                    old(self)@.child_pieces,
                    set![child_id@],
                ),
                ..old(self)@
            }),
    {
        strike_peer(&mut self.collected_pieces_children, child_id);
    }

    /// Stops everything: nothing remains to be selected, and no collector stays registered.
    /// Returns the collectors that the caller has to stop.
    pub fn shutdown(&mut self) -> (plan: ShutdownPlan)
        requires
            old(self).wf(),
        ensures
            final(self).wf(),
            crate::history::leads(old(self)@, Operation::Shutdown, final(self)@),
            final(self)@ == old(self)@.shut_down(),
            crate::types::string_views(plan.stop_parent_collectors@).no_duplicates(),
            forall|id: Seq<char>| #[trigger]
                crate::types::string_views(plan.stop_parent_collectors@).contains(id)
                    <==> old(self)@.parent_collectors.contains_key(id),
            crate::types::string_views(plan.stop_child_collectors@).no_duplicates(),
            forall|id: Seq<char>| #[trigger]
                crate::types::string_views(plan.stop_child_collectors@).contains(id)
                    <==> old(self)@.child_collectors.contains_key(id),
    {
        self.remaining_pieces = 0;
        let stop_parent_collectors = unregister_all(&mut self.parent_collectors);
        let stop_child_collectors = unregister_all(&mut self.child_collectors);
        ShutdownPlan { stop_parent_collectors, stop_child_collectors }
    }

    /// The request by which this peer asks the scheduler for its children.
    pub fn announce_request(&self) -> (request: AnnounceRequest)
        ensures
            request.host_id@ == self@.host_id,
            request.task_id@ == self@.task_id,
            request.peer_id@ == self@.peer_id,
            request.request.description is None,
    {
        AnnounceRequest {
            host_id: self.host_id.clone(),
            task_id: self.task_id.clone(),
            peer_id: self.peer_id.clone(),
            request: GetChildPeerRequest { description: None },
        }
    }

    /// How many pieces remain to be selected.
    pub fn remaining(&self) -> (count: usize)
        ensures
            count == self@.remaining,
    {
        self.remaining_pieces
    }
}

/// Removes every peer from the registry and returns their ids.
fn unregister_all(registry: &mut DashMap<String, Peer>) -> (ids: Vec<String>)
    ensures
        crate::store::peers_in(*final(registry)) == Map::<Seq<char>, PeerView>::empty(),
        crate::types::string_views(ids@).no_duplicates(),
        forall|id: Seq<char>| #[trigger]
            crate::types::string_views(ids@).contains(id) <==> crate::store::peers_in(
                *old(registry),
            ).contains_key(id),
{
    let ids = peer_ids(registry);
    let ghost keys = crate::types::string_views(ids@);
    let ghost before = crate::store::peers_in(*registry);
    let mut i: usize = 0;
    while i < ids.len()
        invariant
            i <= ids.len(),
            keys == crate::types::string_views(ids@),
            before == crate::store::peers_in(*old(registry)),
            forall|id: Seq<char>| keys.contains(id) <==> before.contains_key(id),
            forall|id: Seq<char>| #[trigger]
                crate::store::peers_in(*registry).contains_key(id) ==> before.contains_key(id),
            forall|j: int|
                0 <= j < i ==> !crate::store::peers_in(*registry).contains_key(#[trigger] keys[j]),
        decreases ids.len() - i,
    {
        let _ = remove_peer(registry, &ids[i]);
        assert(keys[i as int] == ids@[i as int]@);
        i += 1;
    }
    proof {
        assert forall|id: Seq<char>| !crate::store::peers_in(*registry).contains_key(id) by {
            if crate::store::peers_in(*registry).contains_key(id) {
                assert(keys.contains(id));
                let j = choose|j: int| 0 <= j < keys.len() && keys[j] == id;
                assert(!crate::store::peers_in(*registry).contains_key(keys[j]));
            }
        }
        assert(crate::store::peers_in(*registry) =~= Map::<Seq<char>, PeerView>::empty());
    }
    ids
}

} // verus!
