//! The filtered projection of the store: the positions of the rows that
//! pass the current search predicate, in store order, with the mapping from
//! a position in the view back to a row handle of the store.

use vstd::prelude::*;
use crate::column::SIZE;
use crate::search::SearchEngine;
use crate::search::lemma_empty_needle_matches_all;
use crate::search::row_matches;
use crate::store::RecordStore;
use crate::store::RowHandle;

verus! {

/// The positions (in store order) of the rows of `rows` that match
/// `needle`.
pub open spec fn matching_indices(rows: Seq<Seq<Seq<char>>>, needle: Seq<char>) -> Seq<int>
    decreases rows.len(),
{
    if rows.len() == 0 {
        Seq::<int>::empty()
    } else {
        let prefix = matching_indices(rows.drop_last(), needle);
        if row_matches(rows.last(), needle) {
            prefix.push(rows.len() - 1)
        } else {
            prefix
        }
    }
}

/// What `matching_indices` yields: exactly the positions of the matching
/// rows, each in range, in strictly increasing store order.
pub proof fn lemma_matching_indices(rows: Seq<Seq<Seq<char>>>, needle: Seq<char>)
    ensures
        forall|k: int|
            0 <= k < matching_indices(rows, needle).len() ==> 0 <= #[trigger] matching_indices(
                rows,
                needle,
            )[k] < rows.len(),
        forall|k: int|
            0 <= k < matching_indices(rows, needle).len() ==> row_matches(
                rows[#[trigger] matching_indices(rows, needle)[k]],
                needle,
            ),
        forall|k1: int, k2: int|
            0 <= k1 < k2 < matching_indices(rows, needle).len() ==> #[trigger] matching_indices(
                rows,
                needle,
            )[k1] < #[trigger] matching_indices(rows, needle)[k2],
        forall|i: int|
            0 <= i < rows.len() && row_matches(#[trigger] rows[i], needle)
                ==> matching_indices(rows, needle).contains(i),
    decreases rows.len(),
{
    if rows.len() > 0 {
        lemma_matching_indices(rows.drop_last(), needle);
        let prefix = matching_indices(rows.drop_last(), needle);
        let whole = matching_indices(rows, needle);
        assert forall|i: int|
            0 <= i < rows.len() && row_matches(#[trigger] rows[i], needle) implies whole.contains(
            i,
        ) by {
            if i < rows.len() - 1 {
                assert(rows.drop_last()[i] == rows[i]);
                assert(prefix.contains(i));
                let k = choose|k: int| 0 <= k < prefix.len() && prefix[k] == i;
                assert(whole[k] == i);
            } else {
                assert(whole.last() == i);
            }
        }
    }
}

/// With an empty needle every well-formed row is visible: the view holds
/// every store position, in order. This is the state a fresh load leaves
/// the view in.
pub proof fn lemma_empty_needle_shows_everything(rows: Seq<Seq<Seq<char>>>)
    requires
        forall|i: int| 0 <= i < rows.len() ==> (#[trigger] rows[i]).len() == SIZE,
    ensures
        matching_indices(rows, Seq::<char>::empty()) == Seq::new(rows.len(), |i: int| i),
    decreases rows.len(),
{
    let empty = Seq::<char>::empty();
    if rows.len() == 0 {
        assert(matching_indices(rows, empty) =~= Seq::new(rows.len(), |i: int| i));
    } else {
        assert forall|i: int| 0 <= i < rows.drop_last().len() implies (#[trigger] rows.drop_last()[
            i
        ]).len() == SIZE by {
            assert(rows.drop_last()[i] == rows[i]);
        }
        lemma_empty_needle_shows_everything(rows.drop_last());
        lemma_empty_needle_matches_all(rows.last());
        assert(matching_indices(rows, empty) =~= Seq::new(rows.len(), |i: int| i));
    }
}

/// The rows currently passing the search predicate, in store order.
pub struct FilteredView {
    pub visible: Vec<usize>,
}

impl FilteredView {
    /// The store positions this view holds, in view order.
    pub open spec fn positions(&self) -> Seq<int> {
        self.visible@.map_values(|u: usize| u as int)
    }

    /// Whether every position of the view addresses a row of a store with
    /// `store_len` rows.
    pub open spec fn valid_for(&self, store_len: int) -> bool {
        forall|k: int| 0 <= k < self.positions().len() ==> 0 <= #[trigger] self.positions()[k]
            < store_len
    }

    /// Creates a view of nothing.
    pub fn new() -> (v: FilteredView)
        ensures
            v.positions() == Seq::<int>::empty(),
    {
        let v = FilteredView { visible: Vec::new() };
        proof {
            assert(v.positions() =~= Seq::<int>::empty());
        }
        v
    }

    /// Recomputes the view: afterwards it holds exactly the rows of the
    /// store for which the engine's predicate is true, in store order.
    pub fn refresh(&mut self, store: &RecordStore, engine: &SearchEngine)
        ensures
            final(self).positions() == matching_indices(store@, engine@),
            final(self).valid_for(store@.len() as int),
    {
        let n = store.len();
        let mut visible: Vec<usize> = Vec::new();
        let mut i: usize = 0;
        while i < n
            invariant
                i <= n,
                n == store@.len(),
                visible@.map_values(|u: usize| u as int) == matching_indices(
                    store@.subrange(0, i as int),
                    engine@,
                ),
                forall|k: int| 0 <= k < visible@.len() ==> #[trigger] visible@[k] < i,
            decreases n - i,
        {
            let h = RowHandle { index: i };
            let ghost prev = visible@;
            proof {
                assert(store@.subrange(0, i + 1).drop_last() =~= store@.subrange(0, i as int));
                assert(store@.subrange(0, i + 1).last() == store@[i as int]);
            }
            if engine.matches(store, h) {
                visible.push(i);
                proof {
                    assert(visible@.map_values(|u: usize| u as int) =~= prev.map_values(
                        |u: usize| u as int,
                    ).push(i as int));
                }
            }
            i = i + 1;
        }
        proof {
            assert(store@.subrange(0, n as int) =~= store@);
        }
        self.visible = visible;
    }

    /// The number of rows the view currently holds.
    pub fn count(&self) -> (n: usize)
        ensures
            n == self.positions().len(),
    {
        self.visible.len()
    }

    /// Resolves a position in the view to the handle of the underlying
    /// row of the store. Positions are relative to the last refresh.
    pub fn to_store_handle(&self, position: usize) -> (h: RowHandle)
        requires
            position < self.positions().len(),
        ensures
            h.index == self.positions()[position as int],
    {
        RowHandle { index: self.visible[position] }
    }

    /// The handles of all rows the view currently holds, in view order.
    pub fn current_handles(&self) -> (hs: Vec<RowHandle>)
        ensures
            hs@.len() == self.positions().len(),
            forall|k: int| 0 <= k < hs@.len() ==> #[trigger] hs@[k].index == self.positions()[k],
    {
        let n = self.visible.len();
        let mut hs: Vec<RowHandle> = Vec::new();
        let mut i: usize = 0;
        while i < n
            invariant
                i <= n,
                n == self.visible@.len(),
                hs@.len() == i,
                forall|k: int| 0 <= k < i ==> #[trigger] hs@[k].index == self.positions()[k],
            decreases n - i,
        {
            hs.push(RowHandle { index: self.visible[i] });
            i = i + 1;
        }
        hs
    }
}

} // verus!
