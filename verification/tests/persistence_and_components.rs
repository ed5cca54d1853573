use tesserama::column::Column;
use tesserama::column::SIZE;
use tesserama::document::Document;
use tesserama::record::Record;
use tesserama::search::SearchEngine;
use tesserama::search::contains_chars;
use tesserama::search::tokens_contained;
use tesserama::store::RecordStore;
use tesserama::text::chars_of;
use tesserama::text::parse_i32;
use tesserama::text::str_eq;
use tesserama::text::u64_dec_string;

fn row(fields: &[&str]) -> Vec<String> {
    fields.iter().map(|f| f.to_string()).collect()
}

fn chars(s: &str) -> Vec<char> {
    s.chars().collect()
}

#[test]
fn round_trip_keeps_non_blank_rows_in_order() {
    let text = "01/01/20,1,Smith John,s,f,i\n02/01/20,2,Jones Bob,,,\n03/01/20,3,,x,y,z\n";
    let mut doc = Document::new();
    doc.load_bytes(text.as_bytes());
    assert_eq!(doc.store.len(), 3);
    assert!(!doc.is_dirty());

    let bytes = doc.save_bytes();
    let mut reloaded = Document::new();
    reloaded.load_bytes(&bytes);
    assert_eq!(reloaded.store.len(), 2);
    let h0 = reloaded.store.handle(0).unwrap();
    let h1 = reloaded.store.handle(1).unwrap();
    assert_eq!(reloaded.store.get_field(h0, Column::People).unwrap(), "Smith John");
    assert_eq!(reloaded.store.get_field(h0, Column::ID).unwrap(), "i");
    assert_eq!(reloaded.store.get_field(h1, Column::People).unwrap(), "Jones Bob");
    assert_eq!(reloaded.store.get_field(h1, Column::Signature).unwrap(), "");

    // Saving the reloaded store changes nothing further.
    let bytes_again = reloaded.save_bytes();
    assert_eq!(bytes, bytes_again);
}

#[test]
fn fields_with_commas_and_quotes_survive_the_byte_format() {
    let mut doc = Document::new();
    let rows = vec![row(&["01/01/20", "1", "Smith, John \"JJ\"", "", "", ""])];
    doc.load_rows(&rows);
    let bytes = doc.save_bytes();
    let mut reloaded = Document::new();
    reloaded.load_bytes(&bytes);
    assert_eq!(reloaded.store.len(), 1);
    let h = reloaded.store.handle(0).unwrap();
    assert_eq!(reloaded.store.get_field(h, Column::People).unwrap(), "Smith, John \"JJ\"");
}

#[test]
fn short_records_save_back_padded() {
    // A file from an older revision: every record has three fields.
    let text = "01/01/20,1,Smith John\n02/01/20,2,Jones Bob\n";
    let mut doc = Document::new();
    doc.load_bytes(text.as_bytes());
    assert_eq!(doc.store.len(), 2);
    let saved = doc.save_rows();
    assert_eq!(saved.len(), 2);
    assert_eq!(saved[0].len(), SIZE);
    assert_eq!(saved[0][0], "01/01/20");
    assert_eq!(saved[0][3], "");
    assert_eq!(saved[0][5], "");
    assert_eq!(saved[1][2], "Jones Bob");

    // Saving the padded store and loading it back changes nothing more.
    let bytes = doc.save_bytes();
    let mut reloaded = Document::new();
    reloaded.load_bytes(&bytes);
    assert_eq!(reloaded.save_rows(), saved);
}

#[test]
fn column_indices_round_trip() {
    let cols = [
        Column::Date,
        Column::Number,
        Column::People,
        Column::Signature,
        Column::Flags,
        Column::ID,
    ];
    for (i, c) in cols.iter().enumerate() {
        assert_eq!(c.index(), i);
        assert_eq!(Column::from_index(i).index(), i);
    }
    assert_eq!(SIZE, 6);
}

#[test]
fn store_append_and_iteration_follow_append_order() {
    let mut store = RecordStore::new();
    assert!(store.first_handle().is_none());
    let h0 = store.append();
    let h1 = store.append();
    store.set_field(h0, Column::People, "A".to_string());
    store.set_field(h1, Column::People, "B".to_string());

    let first = store.first_handle().unwrap();
    assert_eq!(store.get_field(first, Column::People).unwrap(), "A");
    let second = store.next(first).unwrap();
    assert_eq!(store.get_field(second, Column::People).unwrap(), "B");
    assert!(store.next(second).is_none());

    assert_eq!(store.path(second), 1);
    assert_eq!(store.handle(1).unwrap(), second);
    assert!(store.handle(2).is_none());
}

#[test]
fn set_all_fields_overwrites_the_whole_row() {
    let mut store = RecordStore::new();
    let h = store.append();
    store.set_all_fields(h, row(&["d", "n", "p", "s", "f", "i"]));
    assert_eq!(store.get_field(h, Column::Date).unwrap(), "d");
    assert_eq!(store.get_field(h, Column::Number).unwrap(), "n");
    assert_eq!(store.get_field(h, Column::ID).unwrap(), "i");
}

#[test]
fn reading_a_field_a_short_row_lacks_yields_nothing() {
    // No constructor of the crate makes a short row, but the read
    // contract tolerates one.
    let store = RecordStore {
        rows: vec![Record { fields: row(&["01/01/20", "5"]) }],
    };
    let h = store.handle(0).unwrap();
    assert_eq!(store.get_field(h, Column::Number).unwrap(), "5");
    assert!(store.get_field(h, Column::People).is_none());

    let engine = SearchEngine { needle: "5".to_string() };
    assert!(engine.matches(&store, h));
    let engine = SearchEngine { needle: "jones".to_string() };
    assert!(!engine.matches(&store, h));
}

#[test]
fn parse_accepts_exactly_the_i32_numerals() {
    assert_eq!(parse_i32(&chars("12")), Some(12));
    assert_eq!(parse_i32(&chars("007")), Some(7));
    assert_eq!(parse_i32(&chars("+12")), Some(12));
    assert_eq!(parse_i32(&chars("-12")), Some(-12));
    assert_eq!(parse_i32(&chars("2147483647")), Some(2147483647));
    assert_eq!(parse_i32(&chars("-2147483648")), Some(-2147483648));
    assert_eq!(parse_i32(&chars("2147483648")), None);
    assert_eq!(parse_i32(&chars("-2147483649")), None);
    assert_eq!(parse_i32(&chars("99999999999999999999")), None);
    assert_eq!(parse_i32(&chars("")), None);
    assert_eq!(parse_i32(&chars("+")), None);
    assert_eq!(parse_i32(&chars("-")), None);
    assert_eq!(parse_i32(&chars("12a")), None);
    assert_eq!(parse_i32(&chars(" 12")), None);
    assert_eq!(parse_i32(&chars("1 2")), None);
}

#[test]
fn decimal_formatting_matches_the_parsed_value() {
    assert_eq!(u64_dec_string(0), "0");
    assert_eq!(u64_dec_string(7), "7");
    assert_eq!(u64_dec_string(42), "42");
    assert_eq!(u64_dec_string(2147483648), "2147483648");
    assert_eq!(u64_dec_string(1234567890), "1234567890");
}

#[test]
fn substring_and_token_checks_behave_as_stated() {
    assert!(contains_chars(&chars("smith john"), &chars("ith")));
    assert!(contains_chars(&chars("smith john"), &chars("")));
    assert!(!contains_chars(&chars("smith"), &chars("smithe")));
    assert!(tokens_contained(&chars("john smith"), &chars("smith john, robert")));
    assert!(tokens_contained(&chars(""), &chars("anything")));
    assert!(tokens_contained(&chars("   "), &chars("")));
    assert!(!tokens_contained(&chars("john smythe"), &chars("smith john, robert")));
}

#[test]
fn character_extraction_and_comparison_agree() {
    assert_eq!(chars_of("héllo"), chars("héllo"));
    assert!(str_eq("héllo", "héllo"));
    assert!(!str_eq("hello", "hellos"));
    assert!(!str_eq("hello", "hellO"));
}
