//! The ordered, mutable collection of records, addressed through stable row
//! handles. Rows are only ever appended, so a handle stays valid for the
//! lifetime of the store and its position equals its append rank.

use vstd::prelude::*;
use crate::column::Column;
use crate::column::SIZE;
use crate::record::Record;
use crate::record::empty_record;

verus! {

/// A stable reference to one row of a [`RecordStore`].
#[derive(Clone, Copy, PartialEq, Eq, Structural, Debug)]
pub struct RowHandle {
    pub index: usize,
}

/// An append-only sequence of records.
pub struct RecordStore {
    pub rows: Vec<Record>,
}

impl View for RecordStore {
    type V = Seq<Seq<Seq<char>>>;

    open spec fn view(&self) -> Seq<Seq<Seq<char>>> {
        Seq::new(self.rows@.len(), |i: int| self.rows@[i]@)
    }
}

impl RecordStore {
    /// A store is well-formed when every row holds one field per column.
    pub open spec fn wf(&self) -> bool {
        forall|i: int| 0 <= i < self.rows@.len() ==> (#[trigger] self.rows@[i]).wf()
    }

    /// Whether the handle addresses a row of this store.
    pub open spec fn valid_handle(&self, h: RowHandle) -> bool {
        h.index < self@.len()
    }

    /// Creates an empty store.
    pub fn new() -> (s: RecordStore)
        ensures
            s.wf(),
            s@ == Seq::<Seq<Seq<char>>>::empty(),
    {
        let s = RecordStore { rows: Vec::new() };
        proof {
            assert(s@ =~= Seq::<Seq<Seq<char>>>::empty());
        }
        s
    }

    /// The number of rows.
    pub fn len(&self) -> (n: usize)
        ensures
            n == self@.len(),
    {
        self.rows.len()
    }

    /// Appends a row with every field empty and returns its handle.
    pub fn append(&mut self) -> (h: RowHandle)
        requires
            old(self).wf(),
        ensures
            final(self).wf(),
            final(self)@ == old(self)@.push(empty_record()),
            h.index == old(self)@.len(),
            final(self).valid_handle(h),
    {
        let h = RowHandle { index: self.rows.len() };
        self.rows.push(Record::new());
        proof {
            assert(self@ =~= old(self)@.push(empty_record()));
        }
        h
    }

    /// Reads one field. The result carries a value exactly when the column
    /// addresses a field the row actually holds, which tolerates rows
    /// shorter than `SIZE` even though no constructor of this crate makes
    /// one.
    pub fn get_field(&self, h: RowHandle, col: Column) -> (r: Option<String>)
        requires
            self.valid_handle(h),
        ensures
            r is Some <==> col.as_index() < self@[h.index as int].len(),
            r is Some ==> r->Some_0@ == self@[h.index as int][col.as_index()],
    {
        let row = &self.rows[h.index];
        let ci = col.index();
        if ci < row.fields.len() {
            Some(row.fields[ci].clone())
        } else {
            None
        }
    }

    /// Overwrites one field of one row.
    pub fn set_field(&mut self, h: RowHandle, col: Column, value: String)
        requires
            old(self).wf(),
            old(self).valid_handle(h),
        ensures
            final(self).wf(),
            final(self)@ == old(self)@.update(
                h.index as int,
                old(self)@[h.index as int].update(col.as_index(), value@),
            ),
    {
        let ci = col.index();
        let row = &mut self.rows[h.index];
        row.fields.set(ci, value);
        proof {
            assert(self@ =~~= old(self)@.update(
                h.index as int,
                old(self)@[h.index as int].update(col.as_index(), value@),
            ));
        }
    }

    /// Overwrites every field of one row at once.
    pub fn set_all_fields(&mut self, h: RowHandle, values: Vec<String>)
        requires
            old(self).wf(),
            old(self).valid_handle(h),
            values@.len() == SIZE,
        ensures
            final(self).wf(),
            final(self)@ == old(self)@.update(
                h.index as int,
                Seq::new(SIZE as nat, |i: int| values@[i]@),
            ),
    {
        let row = &mut self.rows[h.index];
        row.fields = values;
        proof {
            assert(self@ =~= old(self)@.update(
                h.index as int,
                Seq::new(SIZE as nat, |i: int| values@[i]@),
            ));
        }
    }

    /// The current position of the row a handle addresses: its append rank.
    pub fn path(&self, h: RowHandle) -> (p: usize)
        requires
            self.valid_handle(h),
        ensures
            p == h.index,
    {
        h.index
    }

    /// The handle of the row at a position, if the position is in range.
    pub fn handle(&self, position: usize) -> (r: Option<RowHandle>)
        ensures
            r is Some <==> position < self@.len(),
            r is Some ==> r->Some_0.index == position,
    {
        if position < self.rows.len() {
            Some(RowHandle { index: position })
        } else {
            None
        }
    }

    /// The handle of the first row, or nothing if the store is empty.
    pub fn first_handle(&self) -> (r: Option<RowHandle>)
        ensures
            r is Some <==> self@.len() > 0,
            r is Some ==> r->Some_0.index == 0,
    {
        if self.rows.len() > 0 {
            Some(RowHandle { index: 0 })
        } else {
            None
        }
    }

    /// The handle of the row after the given one, or nothing at the end of
    /// the store.
    pub fn next(&self, h: RowHandle) -> (r: Option<RowHandle>)
        requires
            self.valid_handle(h),
        ensures
            r is Some <==> h.index + 1 < self@.len(),
            r is Some ==> r->Some_0.index == h.index + 1,
    {
        let n = self.rows.len();
        if h.index + 1 < n {
            Some(RowHandle { index: h.index + 1 })
        } else {
            None
        }
    }

    /// Clones the fields of one row, in column order.
    pub fn row_fields(&self, h: RowHandle) -> (r: Vec<String>)
        requires
            self.wf(),
            self.valid_handle(h),
        ensures
            r@.len() == SIZE,
            Seq::new(SIZE as nat, |i: int| r@[i]@) == self@[h.index as int],
    {
        let row = &self.rows[h.index];
        let mut r: Vec<String> = Vec::new();
        let mut i: usize = 0;
        while i < SIZE
            invariant
                i <= SIZE,
                row.fields@.len() == SIZE,
                row@ == self@[h.index as int],
                r@.len() == i,
                forall|j: int| 0 <= j < i ==> r@[j]@ == row@[j],
            decreases SIZE - i,
        {
            r.push(row.fields[i].clone());
            i = i + 1;
        }
        proof {
            assert(Seq::new(SIZE as nat, |i: int| r@[i]@) =~= self@[h.index as int]);
        }
        r
    }
}

} // verus!
