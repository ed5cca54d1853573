//! Conversion between the store and the external delimited-record format:
//! the padding rule for short records on load, the blank-row omission rule
//! on save, and the trusted bridge to the delimited-text encoding itself.

use vstd::prelude::*;
use crate::column::Column;
use crate::column::SIZE;

verus! {

/// The field sequences of a list of string fields.
pub open spec fn strings_view(ss: Seq<String>) -> Seq<Seq<char>> {
    Seq::new(ss.len(), |j: int| ss[j]@)
}

/// The record sequences of a list of rows of string fields.
pub open spec fn table_view(rows: Seq<Vec<String>>) -> Seq<Seq<Seq<char>>> {
    Seq::new(rows.len(), |i: int| strings_view(rows[i]@))
}

/// A record brought to exactly `SIZE` fields: the first `SIZE` input
/// fields in order, missing trailing fields empty. This tolerates files
/// written by older revisions with fewer columns.
pub open spec fn pad_record(r: Seq<Seq<char>>) -> Seq<Seq<char>> {
    Seq::new(
        SIZE as nat,
        |i: int|
            if i < r.len() {
                r[i]
            } else {
                Seq::<char>::empty()
            },
    )
}

/// What loading a list of records produces: every record padded to `SIZE`
/// fields, in input order.
pub open spec fn load_model(rows: Seq<Seq<Seq<char>>>) -> Seq<Seq<Seq<char>>> {
    rows.map_values(|r: Seq<Seq<char>>| pad_record(r))
}

/// Whether a record counts as blank: its People field is empty or absent.
/// Blanking the People field is the convention for deleting a row; blank
/// rows are dropped when the store is saved.
pub open spec fn is_blank(r: Seq<Seq<char>>) -> bool {
    !(Column::People.as_index() < r.len() && r[Column::People.as_index()].len() > 0)
}

/// What saving a store produces: exactly its non-blank rows, in store
/// order, each with its fields unchanged.
pub open spec fn save_model(rows: Seq<Seq<Seq<char>>>) -> Seq<Seq<Seq<char>>>
    decreases rows.len(),
{
    if rows.len() == 0 {
        Seq::<Seq<Seq<char>>>::empty()
    } else {
        let prefix = save_model(rows.drop_last());
        if is_blank(rows.last()) {
            prefix
        } else {
            prefix.push(rows.last())
        }
    }
}

/// Loading pads: every loaded record has exactly `SIZE` fields, carries
/// the first `SIZE` input fields unchanged, and has empty text in every
/// field the input record did not supply.
pub proof fn lemma_load_pads(rows: Seq<Seq<Seq<char>>>)
    ensures
        load_model(rows).len() == rows.len(),
        forall|i: int| 0 <= i < rows.len() ==> #[trigger] load_model(rows)[i].len() == SIZE,
        forall|i: int, j: int|
            0 <= i < rows.len() && 0 <= j < SIZE && j < rows[i].len() ==> #[trigger] load_model(
                rows,
            )[i][j] == rows[i][j],
        forall|i: int, j: int|
            0 <= i < rows.len() && rows[i].len() <= j < SIZE ==> #[trigger] load_model(rows)[i][j]
                == Seq::<char>::empty(),
{
}

/// Saving omits blank rows: no record of the saved output has an empty
/// People field.
pub proof fn lemma_save_omits_blank_rows(rows: Seq<Seq<Seq<char>>>)
    ensures
        forall|k: int|
            0 <= k < save_model(rows).len() ==> !is_blank(#[trigger] save_model(rows)[k]),
    decreases rows.len(),
{
    if rows.len() > 0 {
        lemma_save_omits_blank_rows(rows.drop_last());
        let prefix = save_model(rows.drop_last());
        assert forall|k: int| 0 <= k < save_model(rows).len() implies !is_blank(
            #[trigger] save_model(rows)[k],
        ) by {
            if k < prefix.len() {
                assert(save_model(rows)[k] == prefix[k]);
            } else {
                assert(save_model(rows)[k] == rows.last());
            }
        }
    }
}

/// Every saved record is one of the store's records.
proof fn lemma_save_elements(rows: Seq<Seq<Seq<char>>>)
    ensures
        forall|k: int|
            0 <= k < save_model(rows).len() ==> rows.contains(#[trigger] save_model(rows)[k]),
    decreases rows.len(),
{
    if rows.len() > 0 {
        lemma_save_elements(rows.drop_last());
        assert forall|k: int| 0 <= k < save_model(rows).len() implies rows.contains(
            #[trigger] save_model(rows)[k],
        ) by {
            if k < save_model(rows.drop_last()).len() {
                let e = save_model(rows)[k];
                assert(rows.drop_last().contains(e));
                let i = choose|i: int| 0 <= i < rows.drop_last().len() && rows.drop_last()[i] == e;
                assert(rows[i] == e);
            } else {
                assert(rows[rows.len() - 1] == save_model(rows)[k]);
            }
        }
    }
}

/// Reloading a saved store changes nothing: the records a save emits all
/// have exactly `SIZE` fields, so the padding rule leaves them as they
/// are. Together with `lemma_save_omits_blank_rows` this is the
/// persistence round trip: saving a loaded store and loading the result
/// yields exactly the non-blank records of the original load, in order.
pub proof fn lemma_save_reload_stable(rows: Seq<Seq<Seq<char>>>)
    requires
        forall|i: int| 0 <= i < rows.len() ==> #[trigger] rows[i].len() == SIZE,
    ensures
        load_model(save_model(rows)) == save_model(rows),
{
    lemma_save_elements(rows);
    let saved = save_model(rows);
    assert forall|k: int| 0 <= k < saved.len() implies #[trigger] load_model(saved)[k]
        == saved[k] by {
        let e = saved[k];
        let i = choose|i: int| 0 <= i < rows.len() && rows[i] == e;
        assert(e.len() == SIZE);
        assert(pad_record(e) =~= e);
    }
    assert(load_model(saved) =~= saved);
}

/// The full round trip over the record-level format: saving a store that
/// was produced by loading, then loading what was saved, yields exactly
/// what the save emitted — the non-blank records, in order.
pub proof fn lemma_round_trip(rows: Seq<Seq<Seq<char>>>)
    ensures
        load_model(save_model(load_model(rows))) == save_model(load_model(rows)),
{
    lemma_load_pads(rows);
    lemma_save_reload_stable(load_model(rows));
}

/// The records the delimited-text reader yields from the given bytes, in
/// order, already restricted to the well-formed ones: the reader's
/// record-level errors are skipped. The answer depends on the bytes alone.
pub uninterp spec fn csv_records(bytes: Seq<u8>) -> Seq<Seq<Seq<char>>>;

/// The bytes the delimited-text writer emits for the given records, with
/// one line per record and quoting applied as needed. The answer depends
/// on the records alone.
pub uninterp spec fn csv_bytes(rows: Seq<Seq<Seq<char>>>) -> Seq<u8>;

/// Relies on `csv::ReaderBuilder` and `csv::Reader::records` with headers
/// off: parses delimited text into records of string fields, skipping
/// records the reader rejects.
#[verifier::external_body]
pub(crate) fn parse_csv(bytes: &[u8]) -> (rows: Vec<Vec<String>>)
    ensures
        table_view(rows@) == csv_records(bytes@),
{
    let mut rows: Vec<Vec<String>> = Vec::new();
    let mut reader = csv::ReaderBuilder::new().has_headers(false).from_reader(bytes);
    for record in reader.records() {
        if let Ok(record) = record {
            rows.push(record.iter().map(String::from).collect());
        }
    }
    rows
}

/// Relies on `csv::Writer::from_writer`, `write_record` and `into_inner`:
/// encodes records of equal width into delimited text. Writing into a
/// memory buffer cannot fail, so every call returns.
#[verifier::external_body]
pub(crate) fn encode_csv(rows: &Vec<Vec<String>>) -> (bytes: Vec<u8>)
    requires
        forall|i: int| 0 <= i < rows@.len() ==> #[trigger] rows@[i]@.len() == SIZE,
    ensures
        bytes@ == csv_bytes(table_view(rows@)),
{
    let mut writer = csv::Writer::from_writer(Vec::new());
    for row in rows {
        writer.write_record(row).expect("writing to a memory buffer cannot fail");
    }
    writer.into_inner().expect("writing to a memory buffer cannot fail")
}

} // verus!
