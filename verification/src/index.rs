//! The numbers of the pieces that wait to be selected, in a list from which one is drawn at
//! random and taken in constant time.
use dashmap::DashMap;
use rand::Rng;
use vstd::prelude::*;

use crate::store::{contains_position, insert_position, new_position_map, remove_position};

verus! {

/// `numbers` without the one at `index`, whose place the last one takes.
pub open spec fn swap_removed(numbers: Seq<u32>, index: int) -> Seq<u32> {
    numbers.update(index, numbers.last()).drop_last()
}

/// `rand::Rng::random_range` on `rand::rng()`: some index below `len`. Which one is left to
/// chance. Where the system gives the generator of the thread no seed, the call panics.
#[verifier::external_body]
fn random_index(len: usize) -> (index: usize)
    requires
        len > 0,
    ensures
        index < len,
{
    rand::rng().random_range(0..len)
}

/// The available piece numbers, each of them once.
pub struct AvailableIndex {
    numbers: Vec<u32>,
    positions: DashMap<u32, usize>,
}

impl View for AvailableIndex {
    type V = Seq<u32>;

    closed spec fn view(&self) -> Seq<u32> {
        self.numbers@
    }
}

impl AvailableIndex {
    /// Every number is mapped to its place in the list, and nothing else is mapped.
    pub closed spec fn wf(&self) -> bool {
        let positions = crate::store::positions_in(self.positions);
        &&& forall|i: int|
            0 <= i < self.numbers@.len() ==> {
                &&& positions.contains_key(#[trigger] self.numbers@[i])
                &&& positions[self.numbers@[i]] == i
            }
        &&& forall|n: u32| #[trigger]
            positions.contains_key(n) ==> {
                &&& positions[n] < self.numbers@.len()
                &&& self.numbers@[positions[n] as int] == n
            }
    }

    /// No number is available twice.
    pub proof fn lemma_no_duplicates(&self)
        requires
            self.wf(),
        ensures
            self@.no_duplicates(),
    {
    }

    /// An index with no available number.
    pub fn new() -> (index: Self)
        ensures
            index.wf(),
            index@ == Seq::<u32>::empty(),
    {
        AvailableIndex { numbers: Vec::new(), positions: new_position_map() }
    }

    /// Makes a number available, unless it is so already.
    pub fn add_number(&mut self, number: u32)
        requires
            old(self).wf(),
        ensures
            final(self).wf(),
            final(self)@ == (if old(self)@.contains(number) {
                old(self)@
            } else {
                old(self)@.push(number)
            }),
    {
        if contains_position(&self.positions, number) {
            proof {
                let i = crate::store::positions_in(self.positions)[number] as int;
                assert(self.numbers@[i] == number);
            }
            return;
        }
        let position = self.numbers.len();
        self.numbers.push(number);
        let _ = insert_position(&mut self.positions, number, position);
        proof {
            let before = old(self).numbers@;
            let after = self.numbers@;
            assert(after[position as int] == number);
            assert forall|i: int| 0 <= i < before.len() implies before[i] != number && after[i]
                == before[i] by {
                assert(crate::store::positions_in(old(self).positions).contains_key(before[i]));
            }
            assert forall|n: u32| #[trigger]
                crate::store::positions_in(self.positions).contains_key(n) implies after[crate::store::positions_in(
                self.positions,
            )[n] as int] == n by {
                if n != number {
                    assert(crate::store::positions_in(old(self).positions).contains_key(n));
                }
            }
        }
    }

    /// Takes out the number at `index`; the last number moves to its place.
    pub fn pop_number_at(&mut self, index: usize) -> (number: u32)
        requires
            old(self).wf(),
            index < old(self)@.len(),
        ensures
            final(self).wf(),
            number == old(self)@[index as int],
            final(self)@ == swap_removed(old(self)@, index as int),
    {
        let number = self.numbers.swap_remove(index);
        let _ = remove_position(&mut self.positions, number);
        if index < self.numbers.len() {
            let moved = self.numbers[index];
            let _ = insert_position(&mut self.positions, moved, index);
        }
        proof {
            let before = old(self).numbers@;
            let after = self.numbers@;
            let old_positions = crate::store::positions_in(old(self).positions);
            let positions = crate::store::positions_in(self.positions);
            assert forall|i: int| 0 <= i < after.len() implies {
                &&& positions.contains_key(#[trigger] after[i])
                &&& positions[after[i]] == i
            } by {
                if i == index {
                    assert(after[i] == before[before.len() - 1]);
                } else {
                    assert(after[i] == before[i]);
                    assert(old_positions[before[i]] == i);
                    assert(old_positions[before[before.len() - 1]] == before.len() - 1);
                    assert(old_positions[before[index as int]] == index);
                }
            }
            assert forall|n: u32| #[trigger] positions.contains_key(n) implies {
                &&& positions[n] < after.len()
                &&& after[positions[n] as int] == n
            } by {
                assert(old_positions[before[before.len() - 1]] == before.len() - 1);
                assert(old_positions[before[index as int]] == index);
                assert(old_positions.contains_key(n));
            }
        }
        number
    }

    /// The place of a number drawn at random; nothing where none is available.
    pub fn draw(&self) -> (index: Option<usize>)
        ensures
            index is None <==> self@.len() == 0,
            index matches Some(i) ==> i < self@.len(),
    {
        if self.numbers.is_empty() {
            None
        } else {
            Some(random_index(self.numbers.len()))
        }
    }
}

} // verus!
