use library_core::model::{Book, Date, Source, UpsertOutcome};
use library_core::storage::{
    book_from_row, decode_list, row_values, source_counts, upsert_outcome, StoredRow,
    AUTHOR_SEPARATOR, FORMAT_SEPARATOR,
};

fn sample_book() -> Book {
    Book {
        id: None,
        title: "Rust in Action".to_string(),
        authors: vec!["Jane Doe".to_string(), "John Roe".to_string()],
        isbn: Some("9781617294554".to_string()),
        source: Source::HumbleBundle,
        source_id: Some("rust-in-action".to_string()),
        formats: vec!["epub".to_string(), "pdf".to_string()],
        acquired_at: None,
        raw_json: Some("{}".to_string()),
        cover_url: None,
    }
}

fn stored(book: &Book, id: i64) -> StoredRow {
    let v = row_values(book);
    StoredRow {
        id,
        title: v.title,
        authors: Some(v.authors),
        isbn: v.isbn,
        source: v.source.to_string(),
        source_id: v.source_id,
        formats: Some(v.formats),
        acquired_at: v.acquired_at,
        raw_json: v.raw_json,
        cover_url: v.cover_url,
    }
}

#[test]
fn row_values_join_lists_and_normalise_the_title() {
    let v = row_values(&sample_book());
    assert_eq!(v.authors, "Jane Doe, John Roe");
    assert_eq!(v.formats, "epub,pdf");
    assert_eq!(v.source, "humble_bundle");
    assert_eq!(v.normalized_title, "rust in action");
}

#[test]
fn authors_and_formats_round_trip_through_a_row() {
    let book = sample_book();
    let back = book_from_row(stored(&book, 5)).unwrap();
    assert_eq!(back.id, Some(5));
    assert_eq!(back.title, book.title);
    assert_eq!(back.authors, book.authors);
    assert_eq!(back.formats, book.formats);
    assert_eq!(back.isbn, book.isbn);
    assert_eq!(back.source, book.source);
    assert_eq!(back.source_id, book.source_id);
    assert_eq!(back.raw_json, book.raw_json);
}

#[test]
fn empty_lists_are_stored_empty_and_read_back_empty() {
    let mut book = sample_book();
    book.authors = Vec::new();
    book.formats = Vec::new();
    let row = stored(&book, 1);
    assert_eq!(row.authors, Some(String::new()));
    let back = book_from_row(row).unwrap();
    assert!(back.authors.is_empty() && back.formats.is_empty());
}

#[test]
fn decode_list_splits_on_the_separator() {
    assert_eq!(decode_list(&None, AUTHOR_SEPARATOR), Vec::<String>::new());
    assert_eq!(decode_list(&Some(String::new()), FORMAT_SEPARATOR), Vec::<String>::new());
    assert_eq!(decode_list(&Some("a, b, c".to_string()), AUTHOR_SEPARATOR), vec!["a", "b", "c"]);
    assert_eq!(decode_list(&Some("a,,b".to_string()), FORMAT_SEPARATOR), vec!["a", "", "b"]);
    assert_eq!(decode_list(&Some("x, , y".to_string()), AUTHOR_SEPARATOR), vec!["x", "", "y"]);
}

#[test]
fn dates_are_written_and_read_as_iso_text() {
    let mut book = sample_book();
    book.acquired_at = Some(Date { year: 2024, month: 3, day: 9 });
    let row = stored(&book, 2);
    assert_eq!(row.acquired_at, Some("2024-03-09".to_string()));
    let back = book_from_row(row).unwrap();
    assert_eq!(back.acquired_at, Some(Date { year: 2024, month: 3, day: 9 }));
}

#[test]
fn unparsable_dates_read_as_no_date() {
    let mut row = stored(&sample_book(), 3);
    row.acquired_at = Some("yesterday".to_string());
    assert_eq!(book_from_row(row).unwrap().acquired_at, None);
}

#[test]
fn unknown_source_in_a_row_is_an_error() {
    let mut row = stored(&sample_book(), 4);
    row.source = "bookshop".to_string();
    let err = book_from_row(row).err().unwrap();
    assert_eq!(err.name, "bookshop");
    assert_eq!(
        err.message(),
        "unknown source 'bookshop' (expected one of: humble_bundle, packt, manning, kindle, manual)"
    );
}

#[test]
fn source_names_parse_back() {
    for s in [Source::HumbleBundle, Source::Packt, Source::Manning, Source::Kindle, Source::Manual] {
        assert_eq!(Source::from_name(s.as_str()), Ok(s));
        assert_eq!(s.as_str().parse::<Source>(), Ok(s));
    }
    assert!(Source::from_name("Packt").is_err());
}

#[test]
fn unknown_source_name_fails_to_parse() {
    let err = "bookshop".parse::<Source>().unwrap_err();
    assert_eq!(err.name, "bookshop");
}

#[test]
fn upsert_outcome_follows_the_existing_row() {
    assert_eq!(upsert_outcome(Some(3), 3), UpsertOutcome::Updated(3));
    assert_eq!(upsert_outcome(None, 8), UpsertOutcome::Inserted(8));
}

#[test]
fn per_source_counts_parse_their_names() {
    let rows = vec![("humble_bundle".to_string(), 2), ("packt".to_string(), 1)];
    assert_eq!(
        source_counts(&rows),
        Ok(vec![(Source::HumbleBundle, 2), (Source::Packt, 1)])
    );
    let bad = vec![("humble_bundle".to_string(), 2), ("shelf".to_string(), 1)];
    assert_eq!(source_counts(&bad).err().map(|e| e.name), Some("shelf".to_string()));
}
