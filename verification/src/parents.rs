//! The parents that a collected piece lists: merging two reports of one piece, and striking
//! peers from a piece.
use vstd::prelude::*;

use crate::types::{CollectedParent, CollectedPiece};
#[allow(unused_imports)]
use crate::types::{CollectedParentView, CollectedPieceView};

verus! {

/// Whether a parent of that id is among `parents`.
pub open spec fn lists(parents: Seq<CollectedParentView>, id: Seq<char>) -> bool {
    exists|i: int| 0 <= i < parents.len() && (#[trigger] parents[i]).id == id
}

/// No two of `parents` share an id.
pub open spec fn distinct_ids(parents: Seq<CollectedParentView>) -> bool {
    forall|i: int, j: int|
        0 <= i < j < parents.len() ==> (#[trigger] parents[i]).id != (#[trigger] parents[j]).id
}

/// `existing`, followed by each of `incoming`, in order, whose id is not listed before it.
pub open spec fn merged_parents(
    existing: Seq<CollectedParentView>,
    incoming: Seq<CollectedParentView>,
) -> Seq<CollectedParentView>
    decreases incoming.len(),
{
    if incoming.len() == 0 {
        existing
    } else {
        let merged = merged_parents(existing, incoming.drop_last());
        if lists(merged, incoming.last().id) {
            merged
        } else {
            merged.push(incoming.last())
        }
    }
}

/// Those of `parents`, in order, whose id is none of `ids`.
pub open spec fn parents_without(parents: Seq<CollectedParentView>, ids: Set<Seq<char>>) -> Seq<
    CollectedParentView,
> {
    parents.filter(|p: CollectedParentView| !ids.contains(p.id))
}

impl CollectedPieceView {
    /// This piece after another report of it: the reported parents are added, and the reported
    /// length replaces the one known so far.
    pub open spec fn merged(self, incoming: CollectedPieceView) -> CollectedPieceView {
        CollectedPieceView {
            number: self.number,
            length: incoming.length,
            parents: merged_parents(self.parents, incoming.parents),
        }
    }

    /// This piece with the parents `ids` struck out.
    pub open spec fn without(self, ids: Set<Seq<char>>) -> CollectedPieceView {
        CollectedPieceView { parents: parents_without(self.parents, ids), ..self }
    }

    /// Whether striking out `ids` takes the last parent from this piece: it lists parents, and
    /// each of them is one of `ids`.
    pub open spec fn emptied_by(self, ids: Set<Seq<char>>) -> bool {
        &&& self.parents.len() > 0
        &&& forall|i: int|
            0 <= i < self.parents.len() ==> ids.contains((#[trigger] self.parents[i]).id)
    }
}

/// `pieces` after a report of `piece`: it is kept as it is where it is new, and merged where it
/// is not.
pub open spec fn pieces_with(
    pieces: Map<u32, CollectedPieceView>,
    piece: CollectedPieceView,
) -> Map<u32, CollectedPieceView> {
    pieces.insert(
        piece.number,
        if pieces.contains_key(piece.number) {
            pieces[piece.number].merged(piece)
        } else {
            piece
        },
    )
}

/// `pieces` with the parents `ids` struck out of every piece, and without the pieces that are
/// left with no parent by that.
pub open spec fn pieces_without(
    pieces: Map<u32, CollectedPieceView>,
    ids: Set<Seq<char>>,
) -> Map<u32, CollectedPieceView> {
    Map::new(
        |n: u32| pieces.contains_key(n) && !pieces[n].emptied_by(ids),
        |n: u32| pieces[n].without(ids),
    )
}

/// Whether a parent of that id is among `parents`.
pub fn lists_parent(parents: &Vec<CollectedParent>, id: &String) -> (found: bool)
    ensures
        found == lists(crate::types::parent_views(parents@), id@),
{
    let ghost views = crate::types::parent_views(parents@);
    let mut i: usize = 0;
    while i < parents.len()
        invariant
            i <= parents.len(),
            views == crate::types::parent_views(parents@),
            forall|j: int| 0 <= j < i ==> (#[trigger] views[j]).id != id@,
        decreases parents.len() - i,
    {
        assert(views[i as int] == parents@[i as int]@);
        if parents[i].id == *id {
            return true;
        }
        i += 1;
    }
    false
}

impl CollectedPiece {
    /// Takes in another report of this piece: adds the parents whose ids are not listed yet and
    /// keeps the latest length.
    pub fn merge(&mut self, incoming: CollectedPiece)
        ensures
            final(self)@ == old(self)@.merged(incoming@),
    {
        let ghost first = self@.parents;
        let ghost reported = incoming@.parents;
        let length = incoming.length;
        assert(reported.take(0) =~= Seq::empty());
        for parent in it: incoming.parents
            invariant
                it.seq() == incoming.parents@,
                reported == crate::types::parent_views(incoming.parents@),
                self.number == old(self).number,
                crate::types::parent_views(self.parents@) == merged_parents(
                    first,
                    reported.take(it.index() as int),
                ),
        {
            let ghost index = it.index();
            let ghost known = self.parents@;
            proof {
                assert(reported.take(index + 1).drop_last() =~= reported.take(index as int));
                assert(reported.take(index + 1).last() == parent@);
            }
            if !lists_parent(&self.parents, &parent.id) {
                self.parents.push(parent);
                assert(crate::types::parent_views(self.parents@) =~= crate::types::parent_views(
                    known,
                ).push(parent@));
            }
        }
        assert(reported.take(reported.len() as int) =~= reported);
        self.length = length;
    }

    /// Strikes the parent of that id from this piece.
    pub fn strike(&mut self, id: &String)
        ensures
            final(self)@ == old(self)@.without(set![id@]),
    {
        let ghost listed = self@.parents;
        let ghost ids = set![id@];
        let ghost keep = |p: CollectedParentView| !ids.contains(p.id);
        let mut parents: Vec<CollectedParent> = Vec::new();
        std::mem::swap(&mut parents, &mut self.parents);
        let ghost before = parents@;
        proof {
            assert(listed == crate::types::parent_views(before));
            assert(listed.take(0) =~= Seq::empty());
            reveal(Seq::filter);
            assert(crate::types::parent_views(self.parents@) =~= listed.take(0).filter(keep));
        }
        for parent in it: parents
            invariant
                it.seq() == before,
                listed == crate::types::parent_views(before),
                ids == set![id@],
                keep == (|p: CollectedParentView| !ids.contains(p.id)),
                self.number == old(self).number,
                self.length == old(self).length,
                crate::types::parent_views(self.parents@) == listed.take(
                    it.index() as int,
                ).filter(keep),
        {
            let ghost index = it.index();
            let ghost kept = self.parents@;
            proof {
                lemma_take_filter(listed, index as int, keep);
                assert(listed[index as int] == parent@);
            }
            if parent.id != *id {
                self.parents.push(parent);
                assert(crate::types::parent_views(self.parents@) =~= crate::types::parent_views(
                    kept,
                ).push(parent@));
            }
        }
        assert(listed.take(listed.len() as int) =~= listed);
    }
}

/// Filtering one element more keeps that element or leaves it out.
proof fn lemma_take_filter<A>(s: Seq<A>, i: int, keep: spec_fn(A) -> bool)
    requires
        0 <= i < s.len(),
    ensures
        s.take(i + 1).filter(keep) == (if keep(s[i]) {
            s.take(i).filter(keep).push(s[i])
        } else {
            s.take(i).filter(keep)
        }),
{
    reveal(Seq::filter);
    assert(s.take(i + 1).drop_last() =~= s.take(i));
}

/// Filtering twice is filtering by both.
proof fn lemma_filter_twice<A>(
    s: Seq<A>,
    f: spec_fn(A) -> bool,
    g: spec_fn(A) -> bool,
    both: spec_fn(A) -> bool,
)
    requires
        forall|a: A| #[trigger] both(a) <==> f(a) && g(a),
    ensures
        s.filter(f).filter(g) == s.filter(both),
    decreases s.len(),
{
    reveal(Seq::filter);
    if s.len() > 0 {
        lemma_filter_twice(s.drop_last(), f, g, both);
        let a = s.last();
        let rest = s.drop_last().filter(f);
        if f(a) {
            assert(rest.push(a).drop_last() =~= rest);
            assert(rest.push(a).last() == a);
        }
    }
}

/// A filter leaves nothing exactly where it keeps none of the elements.
proof fn lemma_filter_empty<A>(s: Seq<A>, keep: spec_fn(A) -> bool)
    ensures
        s.filter(keep).len() == 0 <==> forall|i: int| 0 <= i < s.len() ==> !keep(#[trigger] s[i]),
    decreases s.len(),
{
    reveal(Seq::filter);
    if s.len() > 0 {
        lemma_filter_empty(s.drop_last(), keep);
        assert forall|i: int| 0 <= i < s.len() - 1 implies s[i] == #[trigger] s.drop_last()[i] by {}
        if s.filter(keep).len() == 0 {
            assert forall|i: int| 0 <= i < s.len() implies !keep(#[trigger] s[i]) by {
                if i < s.len() - 1 {
                    assert(s[i] == s.drop_last()[i]);
                }
            }
        }
    }
}

/// A filter that keeps every element changes nothing.
proof fn lemma_filter_all<A>(s: Seq<A>, keep: spec_fn(A) -> bool)
    requires
        forall|i: int| 0 <= i < s.len() ==> keep(#[trigger] s[i]),
    ensures
        s.filter(keep) == s,
    decreases s.len(),
{
    reveal(Seq::filter);
    if s.len() > 0 {
        assert forall|i: int| 0 <= i < s.len() - 1 implies keep(#[trigger] s.drop_last()[i]) by {
            assert(s[i] == s.drop_last()[i]);
        }
        lemma_filter_all(s.drop_last(), keep);
        assert(s.drop_last().push(s.last()) =~= s);
    }
}

/// What is left of a list of parents holds none of the parents struck out, and each of the
/// others that it held.
pub(crate) proof fn lemma_parents_without(parents: Seq<CollectedParentView>, ids: Set<Seq<char>>)
    ensures
        forall|id: Seq<char>|
            lists(parents_without(parents, ids), id) <==> lists(parents, id) && !ids.contains(id),
{
    let keep = |p: CollectedParentView| !ids.contains(p.id);
    let kept = parents.filter(keep);
    assert forall|id: Seq<char>| lists(kept, id) implies lists(parents, id) && !ids.contains(id) by {
        let i = choose|i: int| 0 <= i < kept.len() && (#[trigger] kept[i]).id == id;
        parents.lemma_filter_contains_rev(keep, kept[i]);
    }
    assert forall|id: Seq<char>| lists(parents, id) && !ids.contains(id) implies lists(kept, id) by {
        let i = choose|i: int| 0 <= i < parents.len() && (#[trigger] parents[i]).id == id;
        assert(keep(parents[i]));
        parents.lemma_filter_contains(keep, i);
        let j = choose|j: int| 0 <= j < kept.len() && kept[j] == parents[i];
        assert(kept[j].id == id);
    }
}

/// A piece is left with no parent exactly where it is emptied or had none.
pub(crate) proof fn lemma_emptied(piece: CollectedPieceView, ids: Set<Seq<char>>)
    ensures
        piece.without(ids).parents.len() == 0 <==> piece.emptied_by(ids) || piece.parents.len()
            == 0,
{
    lemma_filter_empty(piece.parents, |p: CollectedParentView| !ids.contains(p.id));
    if piece.emptied_by(ids) {
        assert forall|i: int| 0 <= i < piece.parents.len() implies ids.contains(
            (#[trigger] piece.parents[i]).id,
        ) by {}
    }
}

/// A piece that lists none of the parents struck out stays as it is.
pub(crate) proof fn lemma_without_unlisted(piece: CollectedPieceView, ids: Set<Seq<char>>)
    requires
        forall|id: Seq<char>| ids.contains(id) ==> !lists(piece.parents, id),
    ensures
        piece.without(ids) == piece,
        !piece.emptied_by(ids),
{
    let keep = |p: CollectedParentView| !ids.contains(p.id);
    assert forall|i: int| 0 <= i < piece.parents.len() implies keep(#[trigger] piece.parents[i]) by {
        assert(lists(piece.parents, piece.parents[i].id));
    }
    lemma_filter_all(piece.parents, keep);
    if piece.parents.len() > 0 {
        assert(lists(piece.parents, piece.parents[0].id));
    }
}

/// Striking out some peers and then others is striking out all of them.
pub(crate) proof fn lemma_pieces_without_twice(
    pieces: Map<u32, CollectedPieceView>,
    first: Set<Seq<char>>,
    second: Set<Seq<char>>,
)
    ensures
        pieces_without(pieces_without(pieces, first), second) == pieces_without(
            pieces,
            first.union(second),
        ),
{
    let all = first.union(second);
    let once = pieces_without(pieces, first);
    assert forall|n: u32| pieces.contains_key(n) implies pieces[n].without(first).without(second)
        == pieces[n].without(all) by {
        lemma_filter_twice(
            pieces[n].parents,
            |p: CollectedParentView| !first.contains(p.id),
            |p: CollectedParentView| !second.contains(p.id),
            |p: CollectedParentView| !all.contains(p.id),
        );
    }
    assert forall|n: u32| pieces.contains_key(n) implies (pieces[n].emptied_by(all) <==> (
    pieces[n].emptied_by(first) || pieces[n].without(first).emptied_by(second))) by {
        let p = pieces[n];
        lemma_emptied(p, first);
        lemma_emptied(p, all);
        lemma_emptied(p.without(first), second);
    }
    assert(pieces_without(once, second) =~= pieces_without(pieces, all));
}

} // verus!
