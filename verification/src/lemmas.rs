//! Facts that the proofs of the selector use.
use vstd::prelude::*;

#[allow(unused_imports)]
use crate::state::SelectorView;
#[allow(unused_imports)]
use crate::types::{CollectedParentView, CollectedPieceView, CollectorStartView, PeerView};

verus! {

/// Taking a number out of a list without duplicates takes out that number and no other.
pub(crate) proof fn lemma_swap_removed(numbers: Seq<u32>, index: int)
    requires
        0 <= index < numbers.len(),
        numbers.no_duplicates(),
    ensures
        crate::index::swap_removed(numbers, index).len() == numbers.len() - 1,
        crate::index::swap_removed(numbers, index).no_duplicates(),
        forall|n: u32| #[trigger]
            crate::index::swap_removed(numbers, index).contains(n) <==> numbers.contains(n) && n
                != numbers[index],
{
    let rest = crate::index::swap_removed(numbers, index);
    let last = numbers.len() - 1;
    assert forall|n: u32| #[trigger] rest.contains(n) implies numbers.contains(n) && n
        != numbers[index] by {
        let i = choose|i: int| 0 <= i < rest.len() && rest[i] == n;
        if i == index {
            assert(n == numbers[last]);
        } else {
            assert(n == numbers[i]);
        }
    }
    assert forall|n: u32| numbers.contains(n) && n != numbers[index] implies #[trigger] rest.contains(
        n,
    ) by {
        let i = choose|i: int| 0 <= i < numbers.len() && numbers[i] == n;
        if i == last {
            assert(rest[index] == n);
        } else {
            assert(rest[i] == n);
        }
    }
}

/// No draw changes nothing and hands out nothing.
pub(crate) proof fn lemma_no_draw(state: SelectorView)
    ensures
        state.draws_nothing(Seq::empty()),
        state.after_draws(Seq::empty()) == state,
{
}

/// Draws and one more draw.
pub(crate) proof fn lemma_one_more_draw(state: SelectorView, indexes: Seq<int>, index: int)
    requires
        state.draws_nothing(indexes),
        0 <= index < state.after_draws(indexes).available.len(),
    ensures
        state.after_draws(indexes.push(index)) == state.after_draws(indexes).after_draw(index),
        ({
            let before = state.after_draws(indexes);
            let number = before.available[index];
            if before.selectable(number) {
                state.draws_piece(indexes.push(index), number)
            } else {
                state.draws_nothing(indexes.push(index))
            }
        }),
{
    assert(indexes.push(index).drop_last() =~= indexes);
}

/// Where every available number can be selected, none but no draw hands out nothing.
pub(crate) proof fn lemma_every_draw_selects(state: SelectorView, indexes: Seq<int>)
    requires
        forall|n: u32| #[trigger] state.available.contains(n) ==> state.is_claimable(n),
        state.draws_nothing(indexes),
    ensures
        indexes.len() == 0,
        state.after_draws(indexes) == state,
    decreases indexes.len(),
{
    if indexes.len() > 0 {
        lemma_every_draw_selects(state, indexes.drop_last());
        assert(state.available.contains(state.available[indexes.last()]));
    }
}

/// The first elements and one more.
pub(crate) proof fn lemma_take_contains<A>(s: Seq<A>, i: int)
    requires
        0 <= i < s.len(),
        s.no_duplicates(),
    ensures
        !s.take(i).contains(s[i]),
        forall|a: A| #[trigger] s.take(i + 1).contains(a) <==> s.take(i).contains(a) || a == s[i],
{
    lemma_push_contains(s.take(i), s[i]);
    assert(s.take(i + 1) =~= s.take(i).push(s[i]));
}

/// A sequence and one more element.
pub(crate) proof fn lemma_push_contains<A>(s: Seq<A>, last: A)
    ensures
        forall|a: A| #[trigger] s.push(last).contains(a) <==> s.contains(a) || a == last,
        s.no_duplicates() && !s.contains(last) ==> s.push(last).no_duplicates(),
{
    assert forall|a: A| s.contains(a) || a == last implies #[trigger] s.push(last).contains(a) by {
        if s.contains(a) {
            let i = choose|i: int| 0 <= i < s.len() && s[i] == a;
            assert(s.push(last)[i] == a);
        } else {
            assert(s.push(last)[s.len() as int] == a);
        }
    }
}

/// Every peer stands under its own id.
pub(crate) proof fn lemma_peers_by_id(peers: Seq<PeerView>)
    ensures
        crate::state::keyed_by_id(crate::state::peers_by_id(peers)),
    decreases peers.len(),
{
    if peers.len() > 0 {
        lemma_peers_by_id(peers.drop_last());
    }
}

/// Removing no child changes nothing.
pub(crate) proof fn lemma_without_no_children(state: SelectorView)
    ensures
        state.without_children(Set::empty()) == state,
{
    let none = Set::<Seq<char>>::empty();
    assert(state.children.remove_keys(none) =~= state.children);
    assert(state.child_collectors.remove_keys(none) =~= state.child_collectors);
    assert forall|n: u32| state.child_pieces.contains_key(n) implies {
        &&& state.child_pieces[n].without(none) == state.child_pieces[n]
        &&& !state.child_pieces[n].emptied_by(none)
    } by {
        crate::parents::lemma_without_unlisted(state.child_pieces[n], none);
    }
    assert(crate::parents::pieces_without(state.child_pieces, none) =~= state.child_pieces);
}

/// Removing children and then one more is removing all of them.
pub(crate) proof fn lemma_without_one_more_child(
    state: SelectorView,
    removed: Set<Seq<char>>,
    id: Seq<char>,
)
    ensures
        state.without_children(removed).without_children(set![id]) == state.without_children(
            removed.insert(id),
        ),
{
    let one = set![id];
    let all = removed.insert(id);
    assert(removed.union(one) =~= all);
    assert(state.children.remove_keys(removed).remove_keys(one) =~= state.children.remove_keys(all));
    assert(state.child_collectors.remove_keys(removed).remove_keys(one)
        =~= state.child_collectors.remove_keys(all));
    crate::parents::lemma_pieces_without_twice(state.child_pieces, removed, one);
}

/// Inserting no child changes nothing.
pub(crate) proof fn lemma_with_no_children(state: SelectorView, desired: Map<Seq<char>, PeerView>)
    ensures
        state.with_children(desired, Set::empty()) == state,
{
    let after = state.with_children(desired, Set::empty());
    assert(after.children =~= state.children);
    assert(after.child_collectors =~= state.child_collectors);
}

/// Inserting children and then one more, where it is none yet, is inserting all of them.
pub(crate) proof fn lemma_with_one_more_child(
    state: SelectorView,
    desired: Map<Seq<char>, PeerView>,
    ids: Set<Seq<char>>,
    id: Seq<char>,
)
    requires
        desired.contains_key(id),
        desired[id].id == id,
        !ids.contains(id),
    ensures
        ({
            let before = state.with_children(desired, ids);
            let after = state.with_children(desired, ids.insert(id));
            if before.children.contains_key(id) {
                after == before
            } else {
                after == before.with_child(desired[id])
            }
        }),
{
    let before = state.with_children(desired, ids);
    let after = state.with_children(desired, ids.insert(id));
    if before.children.contains_key(id) {
        assert(after.children =~= before.children);
        assert(after.child_collectors =~= before.child_collectors);
    } else {
        assert(after.children =~= before.with_child(desired[id]).children);
        assert(after.child_collectors =~= before.with_child(desired[id]).child_collectors);
    }
}

/// Collectors for some peers and one more are the collectors for all of them.
pub(crate) proof fn lemma_one_more_start(
    state: SelectorView,
    starts: Seq<CollectorStartView>,
    desired: Map<Seq<char>, PeerView>,
    ids: Set<Seq<char>>,
    id: Seq<char>,
)
    requires
        state.starts_for(starts, desired, ids),
        desired.contains_key(id),
        desired[id].id == id,
        !ids.contains(id),
    ensures
        state.starts_for(
            starts.push(state.collector_start(desired[id])),
            desired,
            ids.insert(id),
        ),
{
    let last = state.collector_start(desired[id]);
    let more = starts.push(last);
    let to_id = |s: CollectorStartView| s.parent.id;
    lemma_push_contains(starts.map_values(to_id), id);
    assert(more.map_values(to_id) =~= starts.map_values(to_id).push(id));
    assert(!starts.map_values(to_id).contains(id));
    assert forall|k: int| 0 <= k < more.len() implies (#[trigger] more[k])
        == state.collector_start(desired[more[k].parent.id]) by {
        if k < starts.len() {
            assert(more[k] == starts[k]);
        }
    }
}

/// A list of parents and one more parent.
pub(crate) proof fn lemma_push_lists(
    parents: Seq<CollectedParentView>,
    last: CollectedParentView,
    id: Seq<char>,
)
    ensures
        crate::parents::lists(parents.push(last), id) <==> crate::parents::lists(parents, id) || id
            == last.id,
{
    let more = parents.push(last);
    if crate::parents::lists(parents, id) {
        let i = choose|i: int| 0 <= i < parents.len() && (#[trigger] parents[i]).id == id;
        assert(more[i].id == id);
    }
    if id == last.id {
        assert(more[parents.len() as int].id == id);
    }
    if crate::parents::lists(more, id) && id != last.id {
        let i = choose|i: int| 0 <= i < more.len() && (#[trigger] more[i]).id == id;
        assert(parents[i].id == id);
    }
}

/// Merging a piece with itself adds nothing.
pub(crate) proof fn lemma_merge_with_itself(piece: CollectedPieceView)
    ensures
        piece.merged(piece) == piece,
{
    assert forall|i: int| 0 <= i < piece.parents.len() implies crate::parents::lists(
        piece.parents,
        (#[trigger] piece.parents[i]).id,
    ) by {}
    crate::laws::law_merge_of_known_parents_adds_none(piece.parents, piece.parents);
}

/// Reports by children touch nothing but the children's pieces.
pub(crate) proof fn lemma_reports_touch_pieces_only(
    state: SelectorView,
    reports: Seq<CollectedPieceView>,
)
    ensures
        state.with_child_pieces(reports) == (SelectorView {
            child_pieces: state.with_child_pieces(reports).child_pieces,
            ..state
        }),
    decreases reports.len(),
{
    if reports.len() > 0 {
        lemma_reports_touch_pieces_only(state, reports.drop_last());
    }
}

/// Merging parents that are struck out afterwards adds nothing to what is left.
pub(crate) proof fn lemma_merge_of_struck_parents(
    existing: Seq<CollectedParentView>,
    incoming: Seq<CollectedParentView>,
    ids: Set<Seq<char>>,
)
    requires
        forall|i: int| 0 <= i < incoming.len() ==> ids.contains((#[trigger] incoming[i]).id),
    ensures
        crate::parents::parents_without(
            crate::parents::merged_parents(existing, incoming),
            ids,
        ) == crate::parents::parents_without(existing, ids),
    decreases incoming.len(),
{
    if incoming.len() > 0 {
        let rest = incoming.drop_last();
        assert forall|i: int| 0 <= i < rest.len() implies ids.contains((#[trigger] rest[i]).id) by {
            assert(rest[i] == incoming[i]);
        }
        lemma_merge_of_struck_parents(existing, rest, ids);
        let before = crate::parents::merged_parents(existing, rest);
        let last = incoming[incoming.len() - 1];
        reveal(Seq::filter);
        assert(before.push(last).drop_last() =~= before);
    }
}

/// Of what only the children `ids` reported, striking them out leaves nothing, and of the pieces
/// that were kept before it leaves what they were.
pub(crate) proof fn lemma_reports_of_one(
    state: SelectorView,
    ids: Set<Seq<char>>,
    reports: Seq<CollectedPieceView>,
)
    requires
        crate::state::keyed_by_number(state.child_pieces),
        forall|n: u32, id: Seq<char>|
            state.child_pieces.contains_key(n) && ids.contains(id) ==> !#[trigger] crate::parents::lists(
                state.child_pieces[n].parents,
                id,
            ),
        forall|k: int| 0 <= k < reports.len() ==> (#[trigger] reports[k]).emptied_by(ids),
        forall|k: int|
            0 <= k < reports.len() && state.child_pieces.contains_key(
                (#[trigger] reports[k]).number,
            ) ==> state.child_pieces[reports[k].number].parents.len() > 0,
    ensures
        ({
            let known = state.child_pieces;
            let reported = state.with_child_pieces(reports).child_pieces;
            &&& forall|n: u32| #[trigger]
                known.contains_key(n) ==> {
                    &&& reported.contains_key(n)
                    &&& reported[n].number == n
                    &&& reported[n].without(ids).parents == known[n].parents
                    &&& !reported[n].emptied_by(ids)
                }
            &&& forall|n: u32| #[trigger]
                reported.contains_key(n) && !known.contains_key(n) ==> reported[n].emptied_by(ids)
            &&& (forall|k: int|
                0 <= k < reports.len() && known.contains_key((#[trigger] reports[k]).number)
                    ==> reports[k].length == known[reports[k].number].length) ==> (forall|n: u32|
             #[trigger]
                known.contains_key(n) ==> reported[n].length == known[n].length)
        }),
    decreases reports.len(),
{
    let known = state.child_pieces;
    let reported = state.with_child_pieces(reports).child_pieces;
    if reports.len() == 0 {
        assert forall|n: u32| #[trigger] known.contains_key(n) implies {
            &&& known[n].without(ids) == known[n]
            &&& !known[n].emptied_by(ids)
        } by {
            crate::parents::lemma_without_unlisted(known[n], ids);
        }
    } else {
        let rest = reports.drop_last();
        let last = reports[reports.len() - 1];
        let before = state.with_child_pieces(rest).child_pieces;
        assert forall|k: int| 0 <= k < rest.len() implies (#[trigger] rest[k]).emptied_by(ids) by {
            assert(rest[k] == reports[k]);
        }
        assert forall|k: int|
            0 <= k < rest.len() && known.contains_key((#[trigger] rest[k]).number) implies known[
        rest[k].number].parents.len() > 0 by {
            assert(rest[k] == reports[k]);
        }
        lemma_reports_of_one(state, ids, rest);
        assert(reported == crate::parents::pieces_with(before, last));
        if before.contains_key(last.number) {
            let existing = before[last.number];
            let merged = existing.merged(last);
            lemma_merge_of_struck_parents(existing.parents, last.parents, ids);
            crate::laws::law_merge_adds_what_is_missing(existing.parents, last.parents);
            crate::parents::lemma_emptied(existing, ids);
            crate::parents::lemma_emptied(merged, ids);
        }
        if forall|k: int|
            0 <= k < reports.len() && known.contains_key((#[trigger] reports[k]).number)
                ==> reports[k].length == known[reports[k].number].length {
            assert forall|k: int|
                0 <= k < rest.len() && known.contains_key((#[trigger] rest[k]).number) implies rest[k].length
                == known[rest[k].number].length by {
                assert(rest[k] == reports[k]);
            }
        }
    }
}

/// Registering peers covers each of them and keeps what was registered.
pub(crate) proof fn lemma_registered(registry: Map<Seq<char>, PeerView>, peers: Seq<PeerView>)
    ensures
        forall|i: int|
            0 <= i < peers.len() ==> crate::state::registered(registry, peers).contains_key(
                (#[trigger] peers[i]).id,
            ),
        forall|id: Seq<char>| #[trigger]
            registry.contains_key(id) ==> crate::state::registered(registry, peers).contains_key(id)
                && crate::state::registered(registry, peers)[id] == registry[id],
        crate::state::keyed_by_id(registry) ==> crate::state::keyed_by_id(
            crate::state::registered(registry, peers),
        ),
    decreases peers.len(),
{
    if peers.len() > 0 {
        let rest = peers.drop_last();
        lemma_registered(registry, rest);
        assert forall|i: int| 0 <= i < peers.len() implies crate::state::registered(
            registry,
            peers,
        ).contains_key((#[trigger] peers[i]).id) by {
            if i < rest.len() {
                assert(rest[i] == peers[i]);
            }
        }
    }
}

/// Where every peer is registered, registering them again changes nothing.
pub(crate) proof fn lemma_nothing_to_register(
    registry: Map<Seq<char>, PeerView>,
    peers: Seq<PeerView>,
)
    requires
        forall|i: int| 0 <= i < peers.len() ==> registry.contains_key((#[trigger] peers[i]).id),
    ensures
        crate::state::registered(registry, peers) == registry,
        crate::state::newly_registered(registry, peers).len() == 0,
    decreases peers.len(),
{
    if peers.len() > 0 {
        let rest = peers.drop_last();
        assert forall|i: int| 0 <= i < rest.len() implies registry.contains_key(
            (#[trigger] rest[i]).id,
        ) by {
            assert(rest[i] == peers[i]);
        }
        lemma_nothing_to_register(registry, rest);
        assert(peers.last() == peers[peers.len() - 1]);
    }
}

/// The newly registered peers are registered, were not so before, and share no id.
pub(crate) proof fn lemma_newly_registered(registry: Map<Seq<char>, PeerView>, peers: Seq<PeerView>)
    ensures
        forall|i: int|
            0 <= i < crate::state::newly_registered(registry, peers).len() ==> {
                let id = (#[trigger] crate::state::newly_registered(registry, peers)[i]).id;
                &&& !registry.contains_key(id)
                &&& crate::state::registered(registry, peers).contains_key(id)
            },
        forall|i: int, j: int|
            0 <= i < j < crate::state::newly_registered(registry, peers).len() ==> (
            #[trigger] crate::state::newly_registered(registry, peers)[i]).id != (
            #[trigger] crate::state::newly_registered(registry, peers)[j]).id,
    decreases peers.len(),
{
    if peers.len() > 0 {
        let rest = peers.drop_last();
        lemma_newly_registered(registry, rest);
        lemma_registered(registry, rest);
        let before = crate::state::newly_registered(registry, rest);
        let after = crate::state::newly_registered(registry, peers);
        assert forall|i: int| 0 <= i < before.len() implies #[trigger] after[i] == before[i] by {}
        if !crate::state::registered(registry, rest).contains_key(peers.last().id) {
            assert(after[before.len() as int] == peers.last());
        }
    }
}

} // verus!
