use tesserama::column::Column;
use tesserama::document::Document;

fn row(fields: &[&str]) -> Vec<String> {
    fields.iter().map(|f| f.to_string()).collect()
}

fn field_at(doc: &Document, view_pos: usize, col: Column) -> String {
    let h = doc.view.to_store_handle(view_pos);
    doc.store.get_field(h, col).unwrap()
}

#[test]
fn load_makes_every_row_visible() {
    let mut doc = Document::new();
    let rows = vec![
        row(&["01/01/20", "1", "Smith John", "", "", ""]),
        row(&["02/01/20", "2", "Jones Bob", "", "", ""]),
    ];
    doc.load_rows(&rows);
    assert_eq!(doc.store.len(), 2);
    assert_eq!(doc.view.count(), 2);
    assert!(!doc.is_dirty());
}

#[test]
fn load_pads_short_records_with_empty_fields() {
    let mut doc = Document::new();
    let rows = vec![row(&["02/01/20", "2", "Jones Bob"])];
    doc.load_rows(&rows);
    assert_eq!(field_at(&doc, 0, Column::Date), "02/01/20");
    assert_eq!(field_at(&doc, 0, Column::Number), "2");
    assert_eq!(field_at(&doc, 0, Column::People), "Jones Bob");
    assert_eq!(field_at(&doc, 0, Column::Signature), "");
    assert_eq!(field_at(&doc, 0, Column::Flags), "");
    assert_eq!(field_at(&doc, 0, Column::ID), "");
}

#[test]
fn numeric_needle_matches_number_exactly() {
    let mut doc = Document::new();
    let rows = vec![
        row(&["", "12", "A", "", "", ""]),
        row(&["", "7", "B", "", "", ""]),
        row(&["", "123", "C", "", "", ""]),
    ];
    doc.load_rows(&rows);
    doc.search("12");
    assert_eq!(doc.view.count(), 1);
    assert_eq!(field_at(&doc, 0, Column::Number), "12");
}

#[test]
fn signed_numeric_needle_still_matches_by_string() {
    let mut doc = Document::new();
    let rows = vec![row(&["", "12", "A", "", "", ""]), row(&["", "+12", "B", "", "", ""])];
    doc.load_rows(&rows);
    doc.search("+12");
    assert_eq!(doc.view.count(), 1);
    assert_eq!(field_at(&doc, 0, Column::People), "B");
}

#[test]
fn token_filter_is_order_independent_and_case_insensitive() {
    let mut doc = Document::new();
    let rows = vec![row(&["", "1", "Smith John, Robert", "", "", ""])];
    doc.load_rows(&rows);
    doc.search("Robert Smith");
    assert_eq!(doc.view.count(), 1);
    doc.search("Smith Robert");
    assert_eq!(doc.view.count(), 1);
    doc.search("smith");
    assert_eq!(doc.view.count(), 1);
    doc.search("Smithe");
    assert_eq!(doc.view.count(), 0);
}

#[test]
fn needle_casing_is_folded_before_matching() {
    let mut doc = Document::new();
    let rows = vec![row(&["", "1", "ABC", "", "", ""])];
    doc.load_rows(&rows);
    doc.search("abc");
    assert_eq!(doc.view.count(), 1);
    doc.search("aBc");
    assert_eq!(doc.view.count(), 1);
    doc.search("abd");
    assert_eq!(doc.view.count(), 0);
}

#[test]
fn signature_column_is_searched_too() {
    let mut doc = Document::new();
    let rows = vec![row(&["", "1", "x", "John Paul", "", ""])];
    doc.load_rows(&rows);
    doc.search("paul");
    assert_eq!(doc.view.count(), 1);
    doc.search("george");
    assert_eq!(doc.view.count(), 0);
}

#[test]
fn empty_and_blank_needles_match_every_row() {
    let mut doc = Document::new();
    let rows = vec![row(&["", "1", "A", "", "", ""]), row(&["", "2", "B", "", "", ""])];
    doc.load_rows(&rows);
    doc.search("");
    assert_eq!(doc.view.count(), 2);
    doc.search("   ");
    assert_eq!(doc.view.count(), 2);
}

#[test]
fn out_of_range_numeric_needle_falls_back_to_token_search() {
    let mut doc = Document::new();
    let rows = vec![
        row(&["", "2147483648", "A", "", "", ""]),
        row(&["", "1", "code 2147483648 here", "", "", ""]),
    ];
    doc.load_rows(&rows);
    // The value exceeds the integer range, so this is a name search: only
    // the People and Signature columns are inspected, not Number.
    doc.search("2147483648");
    assert_eq!(doc.view.count(), 1);
    assert_eq!(field_at(&doc, 0, Column::Number), "1");
}

#[test]
fn numeric_needle_never_searches_names() {
    let mut doc = Document::new();
    // A numeric-looking needle is a membership-number lookup, never a
    // name search, even when the digits occur in a name.
    let rows = vec![row(&["", "123", "crew of 12", "", "", ""])];
    doc.load_rows(&rows);
    doc.search("12");
    assert_eq!(doc.view.count(), 0);
}

#[test]
fn numeric_needle_compares_strings_not_values() {
    let mut doc = Document::new();
    let rows = vec![row(&["", "0012", "A", "", "", ""]), row(&["", "12", "B", "", "", ""])];
    doc.load_rows(&rows);
    doc.search("0012");
    assert_eq!(doc.view.count(), 1);
    assert_eq!(field_at(&doc, 0, Column::People), "A");
    doc.search("12");
    assert_eq!(doc.view.count(), 1);
    assert_eq!(field_at(&doc, 0, Column::People), "B");
}

#[test]
fn current_handles_follow_store_order() {
    let mut doc = Document::new();
    let rows = vec![
        row(&["", "1", "Ann Smith", "", "", ""]),
        row(&["", "2", "Bob Jones", "", "", ""]),
        row(&["", "3", "Cal Smith", "", "", ""]),
    ];
    doc.load_rows(&rows);
    doc.search("smith");
    let handles = doc.view.current_handles();
    assert_eq!(handles.len(), 2);
    assert_eq!(doc.store.get_field(handles[0], Column::Number).unwrap(), "1");
    assert_eq!(doc.store.get_field(handles[1], Column::Number).unwrap(), "3");
}

#[test]
fn edit_with_equal_text_keeps_document_clean() {
    let mut doc = Document::new();
    let rows = vec![row(&["01/01/20", "1", "Smith John", "", "", ""])];
    doc.load_rows(&rows);
    assert!(!doc.is_dirty());
    doc.update_column(0, Column::People, "Smith John");
    assert!(!doc.is_dirty());
    assert_eq!(field_at(&doc, 0, Column::People), "Smith John");
}

#[test]
fn edit_with_new_text_writes_and_marks_dirty() {
    let mut doc = Document::new();
    let rows = vec![row(&["01/01/20", "1", "Smith John", "", "", ""])];
    doc.load_rows(&rows);
    doc.update_column(0, Column::People, "Smith Jane");
    assert!(doc.is_dirty());
    assert_eq!(field_at(&doc, 0, Column::People), "Smith Jane");
}

#[test]
fn edit_goes_through_the_filtered_view() {
    let mut doc = Document::new();
    let rows = vec![
        row(&["", "1", "Smith John", "", "", ""]),
        row(&["", "2", "Jones Bob", "", "", ""]),
    ];
    doc.load_rows(&rows);
    doc.search("jones");
    assert_eq!(doc.view.count(), 1);
    // View position 0 addresses the second store row.
    doc.update_column(0, Column::Signature, "ok");
    let h = doc.store.handle(1).unwrap();
    assert_eq!(doc.store.get_field(h, Column::Signature).unwrap(), "ok");
}

#[test]
fn insert_numbers_past_the_largest_parsed_number() {
    let mut doc = Document::new();
    let rows = vec![
        row(&["", "1", "A", "", "", ""]),
        row(&["", "3", "B", "", "", ""]),
        row(&["", "x", "C", "", "", ""]),
    ];
    doc.load_rows(&rows);
    let h = doc.insert_row_dated("05/06/21");
    assert_eq!(doc.store.len(), 4);
    assert_eq!(doc.store.get_field(h, Column::Number).unwrap(), "4");
    assert_eq!(doc.store.get_field(h, Column::Date).unwrap(), "05/06/21");
    assert_eq!(doc.store.get_field(h, Column::People).unwrap(), "");
    assert_eq!(doc.store.get_field(h, Column::Signature).unwrap(), "");
    assert_eq!(doc.store.get_field(h, Column::Flags).unwrap(), "");
    assert_eq!(doc.store.get_field(h, Column::ID).unwrap(), "");
    assert!(doc.is_dirty());
}

#[test]
fn insert_into_empty_store_starts_at_one() {
    let mut doc = Document::new();
    let h = doc.insert_row_dated("05/06/21");
    assert_eq!(doc.store.get_field(h, Column::Number).unwrap(), "1");
}

#[test]
fn insert_ignores_negative_overflow_and_unparsed_numbers() {
    let mut doc = Document::new();
    let rows = vec![
        row(&["", "-5", "A", "", "", ""]),
        row(&["", "007", "B", "", "", ""]),
        row(&["", "2147483648", "C", "", "", ""]),
    ];
    doc.load_rows(&rows);
    // "-5" parses (next would be -4), "007" parses as 7, and the last value
    // is out of range, so the next number is 8.
    let h = doc.insert_row_dated("01/01/21");
    assert_eq!(doc.store.get_field(h, Column::Number).unwrap(), "8");
}

#[test]
fn insert_with_todays_date_fills_the_other_fields() {
    let mut doc = Document::new();
    let rows = vec![row(&["", "41", "A", "", "", ""])];
    doc.load_rows(&rows);
    let h = doc.insert_row();
    assert_eq!(doc.store.get_field(h, Column::Number).unwrap(), "42");
    assert_eq!(doc.store.get_field(h, Column::People).unwrap(), "");
    assert_eq!(doc.store.get_field(h, Column::Signature).unwrap(), "");
    assert_eq!(doc.store.get_field(h, Column::Flags).unwrap(), "");
    assert_eq!(doc.store.get_field(h, Column::ID).unwrap(), "");
    assert!(doc.is_dirty());
}

#[test]
fn insert_does_not_refresh_the_view() {
    let mut doc = Document::new();
    let rows = vec![row(&["", "1", "A", "", "", ""])];
    doc.load_rows(&rows);
    assert_eq!(doc.view.count(), 1);
    doc.insert_row_dated("01/01/21");
    assert_eq!(doc.view.count(), 1);
    assert_eq!(doc.store.len(), 2);
}

#[test]
fn dirty_lifecycle_follows_load_edit_save() {
    let mut doc = Document::new();
    let rows = vec![row(&["01/01/20", "1", "Smith John", "", "", ""])];
    doc.load_rows(&rows);
    assert!(!doc.is_dirty());
    doc.update_column(0, Column::Flags, "f");
    assert!(doc.is_dirty());
    let _ = doc.save_rows();
    assert!(!doc.is_dirty());
    doc.insert_row_dated("02/01/20");
    assert!(doc.is_dirty());
    doc.set_dirty(false);
    assert!(!doc.is_dirty());
    doc.set_dirty(true);
    assert!(doc.is_dirty());
}

#[test]
fn save_omits_rows_with_empty_people() {
    let mut doc = Document::new();
    let rows = vec![
        row(&["01/01/20", "1", "Smith John", "s", "f", "i"]),
        row(&["02/01/20", "2", "", "x", "y", "z"]),
        row(&["03/01/20", "3", "Jones Bob", "", "", ""]),
    ];
    doc.load_rows(&rows);
    let saved = doc.save_rows();
    assert_eq!(saved.len(), 2);
    assert_eq!(saved[0][2], "Smith John");
    assert_eq!(saved[1][2], "Jones Bob");
    for r in &saved {
        assert!(!r[2].is_empty());
    }
}

#[test]
fn blanking_people_then_saving_drops_the_row() {
    let mut doc = Document::new();
    let rows = vec![
        row(&["", "1", "A", "", "", ""]),
        row(&["", "2", "B", "", "", ""]),
    ];
    doc.load_rows(&rows);
    doc.update_column(1, Column::People, "");
    let saved = doc.save_rows();
    assert_eq!(saved.len(), 1);
    assert_eq!(saved[0][2], "A");
}
