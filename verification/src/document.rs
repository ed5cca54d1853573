//! The single owning session object: the record store, the search engine
//! and the filtered view, together with the unsaved-changes flag and the
//! operations the surrounding interface layer drives — load, save, search,
//! inline edits and row insertion.

use vstd::prelude::*;
use vstd::string::*;
use crate::codec::csv_bytes;
use crate::codec::csv_records;
use crate::codec::encode_csv;
use crate::codec::load_model;
use crate::codec::pad_record;
use crate::codec::parse_csv;
use crate::codec::save_model;
use crate::codec::strings_view;
use crate::codec::table_view;
use crate::column::Column;
use crate::column::SIZE;
use crate::record::empty_record;
use crate::search::SearchEngine;
use crate::store::RecordStore;
use crate::store::RowHandle;
use crate::text::chars_of;
use crate::text::dec_str;
use crate::text::is_i32_numeral;
use crate::text::lower_of;
use crate::text::numeral_value;
use crate::text::parse_i32;
use crate::text::str_eq;
use crate::text::u64_dec_string;
use crate::view::FilteredView;
use crate::view::matching_indices;

verus! {

/// The number the next inserted row receives: one more than the largest
/// Number field that parses as an integer, and at least one.
pub open spec fn next_number(rows: Seq<Seq<Seq<char>>>) -> int
    decreases rows.len(),
{
    if rows.len() == 0 {
        1
    } else {
        let prev = next_number(rows.drop_last());
        let last = rows.last();
        if Column::Number.as_index() < last.len() && is_i32_numeral(
            last[Column::Number.as_index()],
        ) && numeral_value(last[Column::Number.as_index()]) + 1 > prev {
            numeral_value(last[Column::Number.as_index()]) + 1
        } else {
            prev
        }
    }
}

/// The contents of a freshly inserted row: today's date, the next number
/// in sequence, and every other field empty.
pub open spec fn new_row_model(rows: Seq<Seq<Seq<char>>>, date: Seq<char>) -> Seq<Seq<char>> {
    empty_record().update(Column::Date.as_index(), date).update(
        Column::Number.as_index(),
        dec_str(next_number(rows)),
    )
}

/// Relies on `chrono::Local::now` and `DateTime::format`: yields today's
/// date as `DD/MM/YY`. The result depends on the clock and the time zone,
/// so nothing is promised of it.
#[verifier::external_body]
fn today_string() -> String {
    chrono::Local::now().format("%d/%m/%y").to_string()
}

/// One open document: the store, the search state, the filtered view and
/// the unsaved-changes flag.
pub struct Document {
    pub store: RecordStore,
    pub engine: SearchEngine,
    pub view: FilteredView,
    pub dirty: bool,
}

impl Document {
    /// A document is well-formed when every row has one field per column
    /// and every view position addresses a row of the store.
    pub open spec fn wf(&self) -> bool {
        &&& self.store.wf()
        &&& self.view.valid_for(self.store@.len() as int)
    }

    /// Creates an empty document: no rows, no needle, nothing visible, no
    /// unsaved changes.
    pub fn new() -> (d: Document)
        ensures
            d.wf(),
            !d.dirty,
            d.store@ == Seq::<Seq<Seq<char>>>::empty(),
            d.engine@ == Seq::<char>::empty(),
            d.view.positions() == Seq::<int>::empty(),
    {
        Document {
            store: RecordStore::new(),
            engine: SearchEngine::new(),
            view: FilteredView::new(),
            dirty: false,
        }
    }

    /// Whether the document holds unsaved changes.
    pub fn is_dirty(&self) -> (r: bool)
        ensures
            r == self.dirty,
    {
        self.dirty
    }

    /// Sets the unsaved-changes flag.
    pub fn set_dirty(&mut self, dirty: bool)
        ensures
            final(self).dirty == dirty,
            final(self).store == old(self).store,
            final(self).engine == old(self).engine,
            final(self).view == old(self).view,
    {
        self.dirty = dirty;
    }

    /// Replaces the document's contents with the given records: each is
    /// padded to `SIZE` fields, the needle is reset, everything becomes
    /// visible, and the document is clean.
    pub fn load_rows(&mut self, rows: &Vec<Vec<String>>)
        ensures
            final(self).wf(),
            final(self).store@ == load_model(table_view(rows@)),
            final(self).engine@ == Seq::<char>::empty(),
            final(self).view.positions() == matching_indices(
                load_model(table_view(rows@)),
                Seq::<char>::empty(),
            ),
            !final(self).dirty,
    {
        let n = rows.len();
        let mut store = RecordStore::new();
        let mut i: usize = 0;
        while i < n
            invariant
                i <= n,
                n == rows@.len(),
                store.wf(),
                store@ == load_model(table_view(rows@.subrange(0, i as int))),
            decreases n - i,
        {
            let row = &rows[i];
            let rl = row.len();
            let mut values: Vec<String> = Vec::new();
            let mut c: usize = 0;
            while c < SIZE
                invariant
                    c <= SIZE,
                    rl == row@.len(),
                    values@.len() == c,
                    forall|j: int|
                        0 <= j < c ==> #[trigger] values@[j]@ == pad_record(strings_view(row@))[j],
                decreases SIZE - c,
            {
                if c < rl {
                    values.push(row[c].clone());
                } else {
                    values.push(String::new());
                }
                c = c + 1;
            }
            let ghost prev = store@;
            let h = store.append();
            store.set_all_fields(h, values);
            proof {
                assert(Seq::new(SIZE as nat, |j: int| values@[j]@) =~= pad_record(
                    strings_view(row@),
                ));
                assert(store@ =~= prev.push(pad_record(strings_view(rows@[i as int]@))));
                let tv_prev = table_view(rows@.subrange(0, i as int));
                let tv_next = table_view(rows@.subrange(0, i + 1));
                assert(tv_next =~= tv_prev.push(strings_view(rows@[i as int]@)));
                assert(load_model(tv_prev.push(strings_view(rows@[i as int]@))) =~= load_model(
                    tv_prev,
                ).push(pad_record(strings_view(rows@[i as int]@))));
            }
            i = i + 1;
        }
        proof {
            assert(table_view(rows@.subrange(0, n as int)) =~= table_view(rows@));
        }
        let engine = SearchEngine::new();
        let mut view = FilteredView::new();
        view.refresh(&store, &engine);
        self.store = store;
        self.engine = engine;
        self.view = view;
        self.dirty = false;
    }

    /// Loads the document from delimited-text bytes.
    pub fn load_bytes(&mut self, bytes: &[u8])
        ensures
            final(self).wf(),
            final(self).store@ == load_model(csv_records(bytes@)),
            final(self).engine@ == Seq::<char>::empty(),
            final(self).view.positions() == matching_indices(
                load_model(csv_records(bytes@)),
                Seq::<char>::empty(),
            ),
            !final(self).dirty,
    {
        let rows = parse_csv(bytes);
        self.load_rows(&rows);
    }

    /// Emits the store's non-blank rows in order, each with its `SIZE`
    /// fields, and marks the document clean.
    pub fn save_rows(&mut self) -> (out: Vec<Vec<String>>)
        requires
            old(self).wf(),
        ensures
            final(self).wf(),
            table_view(out@) == save_model(old(self).store@),
            forall|i: int| 0 <= i < out@.len() ==> #[trigger] out@[i]@.len() == SIZE,
            final(self).store == old(self).store,
            final(self).engine == old(self).engine,
            final(self).view == old(self).view,
            !final(self).dirty,
    {
        let n = self.store.len();
        let mut out: Vec<Vec<String>> = Vec::new();
        let mut i: usize = 0;
        while i < n
            invariant
                i <= n,
                n == self.store@.len(),
                self.store == old(self).store,
                self.engine == old(self).engine,
                self.view == old(self).view,
                self.dirty == old(self).dirty,
                self.store.wf(),
                table_view(out@) == save_model(self.store@.subrange(0, i as int)),
                forall|j: int| 0 <= j < out@.len() ==> #[trigger] out@[j]@.len() == SIZE,
            decreases n - i,
        {
            let h = RowHandle { index: i };
            let ghost prev = out@;
            proof {
                assert(self.store@.subrange(0, i + 1).drop_last() =~= self.store@.subrange(
                    0,
                    i as int,
                ));
                assert(self.store@.subrange(0, i + 1).last() == self.store@[i as int]);
            }
            match self.store.get_field(h, Column::People) {
                Some(p) => {
                    if !p.as_str().is_empty() {
                        let fields = self.store.row_fields(h);
                        out.push(fields);
                        proof {
                            assert(strings_view(out@[prev.len() as int]@) =~= self.store@[
                                i as int]);
                            assert(table_view(out@) =~= table_view(prev).push(
                                self.store@[i as int],
                            ));
                        }
                    }
                },
                None => {
                    proof {
                        assert(false);
                    }
                },
            }
            i = i + 1;
        }
        proof {
            assert(self.store@.subrange(0, n as int) =~= self.store@);
        }
        self.dirty = false;
        out
    }

    /// Saves the store as delimited-text bytes and marks the document
    /// clean.
    pub fn save_bytes(&mut self) -> (bytes: Vec<u8>)
        requires
            old(self).wf(),
        ensures
            final(self).wf(),
            bytes@ == csv_bytes(save_model(old(self).store@)),
            final(self).store == old(self).store,
            final(self).engine == old(self).engine,
            final(self).view == old(self).view,
            !final(self).dirty,
    {
        let rows = self.save_rows();
        encode_csv(&rows)
    }

    /// Captures a new needle (folded to lowercase) and refreshes the view:
    /// afterwards exactly the rows matching the needle are visible, in
    /// store order.
    pub fn search(&mut self, raw: &str)
        requires
            old(self).wf(),
        ensures
            final(self).wf(),
            final(self).engine@ == lower_of(raw@),
            final(self).view.positions() == matching_indices(old(self).store@, lower_of(raw@)),
            final(self).store == old(self).store,
            final(self).dirty == old(self).dirty,
    {
        self.engine.set_needle(raw);
        self.view.refresh(&self.store, &self.engine);
    }

    /// Applies an inline edit: resolves the view position to the
    /// underlying row, and overwrites the addressed field only when the
    /// new text differs from the current value. An edit that changes
    /// nothing leaves the whole document unchanged, the dirty flag
    /// included; an edit that changes the field marks the document dirty.
    pub fn update_column(&mut self, position: usize, col: Column, text: &str)
        requires
            old(self).wf(),
            position < old(self).view.positions().len(),
        ensures
            final(self).wf(),
            final(self).engine == old(self).engine,
            final(self).view == old(self).view,
            ({
                let idx = old(self).view.positions()[position as int];
                if text@ == old(self).store@[idx][col.as_index()] {
                    final(self).store == old(self).store && final(self).dirty == old(self).dirty
                } else {
                    final(self).store@ == old(self).store@.update(
                        idx,
                        old(self).store@[idx].update(col.as_index(), text@),
                    ) && final(self).dirty
                }
            }),
    {
        let h = self.view.to_store_handle(position);
        match self.store.get_field(h, col) {
            Some(current) => {
                if !str_eq(text, current.as_str()) {
                    self.store.set_field(h, col, text.to_owned());
                    self.dirty = true;
                }
            },
            None => {
                proof {
                    assert(false);
                }
            },
        }
    }

    /// Computes the number the next inserted row receives.
    fn compute_next_number(&self) -> (n: u64)
        ensures
            n == next_number(self.store@),
    {
        let len = self.store.len();
        let mut acc: i64 = 1;
        let mut i: usize = 0;
        while i < len
            invariant
                i <= len,
                len == self.store@.len(),
                acc == next_number(self.store@.subrange(0, i as int)),
                1 <= acc <= 2147483648,
            decreases len - i,
        {
            let h = RowHandle { index: i };
            proof {
                assert(self.store@.subrange(0, i + 1).drop_last() =~= self.store@.subrange(
                    0,
                    i as int,
                ));
                assert(self.store@.subrange(0, i + 1).last() == self.store@[i as int]);
            }
            match self.store.get_field(h, Column::Number) {
                Some(v) => {
                    let cs = chars_of(v.as_str());
                    match parse_i32(&cs) {
                        Some(x) => {
                            let cand: i64 = x as i64 + 1;
                            if cand > acc {
                                acc = cand;
                            }
                        },
                        None => {},
                    }
                },
                None => {},
            }
            i = i + 1;
        }
        proof {
            assert(self.store@.subrange(0, len as int) =~= self.store@);
        }
        acc as u64
    }

    /// Appends a fresh row carrying the given date, the next number in
    /// sequence, and empty text everywhere else, and marks the document
    /// dirty. The view is not refreshed: refreshes happen on search
    /// events and loads alone.
    pub fn insert_row_dated(&mut self, date: &str) -> (h: RowHandle)
        requires
            old(self).wf(),
        ensures
            final(self).wf(),
            h.index == old(self).store@.len(),
            final(self).store@ == old(self).store@.push(new_row_model(old(self).store@, date@)),
            final(self).dirty,
            final(self).engine == old(self).engine,
            final(self).view == old(self).view,
    {
        let number = u64_dec_string(self.compute_next_number());
        let mut values: Vec<String> = Vec::new();
        values.push(date.to_owned());
        values.push(number);
        values.push(String::new());
        values.push(String::new());
        values.push(String::new());
        values.push(String::new());
        let ghost prev = self.store@;
        let h = self.store.append();
        self.store.set_all_fields(h, values);
        proof {
            assert(Seq::new(SIZE as nat, |j: int| values@[j]@) =~= new_row_model(prev, date@));
            assert(self.store@ =~= prev.push(new_row_model(prev, date@)));
        }
        self.dirty = true;
        h
    }

    /// Appends a fresh row dated today: its Number field carries the next
    /// number in sequence, its remaining fields apart from the date are
    /// empty, and the document becomes dirty. What the date field holds
    /// depends on the clock, so nothing is promised of it.
    pub fn insert_row(&mut self) -> (h: RowHandle)
        requires
            old(self).wf(),
        ensures
            final(self).wf(),
            h.index == old(self).store@.len(),
            final(self).store@.len() == old(self).store@.len() + 1,
            final(self).store@.subrange(0, old(self).store@.len() as int) == old(self).store@,
            final(self).store@.last()[Column::Number.as_index()] == dec_str(
                next_number(old(self).store@),
            ),
            final(self).store@.last()[Column::People.as_index()] == Seq::<char>::empty(),
            final(self).store@.last()[Column::Signature.as_index()] == Seq::<char>::empty(),
            final(self).store@.last()[Column::Flags.as_index()] == Seq::<char>::empty(),
            final(self).store@.last()[Column::ID.as_index()] == Seq::<char>::empty(),
            final(self).store@.last().len() == SIZE,
            final(self).dirty,
            final(self).engine == old(self).engine,
            final(self).view == old(self).view,
    {
        let date = today_string();
        let h = self.insert_row_dated(date.as_str());
        proof {
            assert(self.store@.subrange(0, old(self).store@.len() as int) =~= old(self).store@);
        }
        h
    }
}

} // verus!
