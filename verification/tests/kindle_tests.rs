use library_core::dedup::normalize_title;
use library_core::sources::kindle::{books_from_table, parse_csv, KindleError};

#[test]
fn parses_rows_with_authors_and_formats() {
    let csv = "title,authors,isbn,formats\nProgramming Rust,Jim Blandy;Jason Orendorff,9781492052548,epub;mobi\n";
    let books = parse_csv(csv).unwrap();
    assert_eq!(books.len(), 1);
    assert_eq!(books[0].title, "Programming Rust");
    assert_eq!(books[0].authors, vec!["Jim Blandy".to_string(), "Jason Orendorff".to_string()]);
    assert_eq!(books[0].formats, vec!["epub".to_string(), "mobi".to_string()]);
    assert_eq!(books[0].isbn, Some("9781492052548".to_string()));
    assert_eq!(books[0].source_id, Some("9781492052548".to_string()));
}

#[test]
fn falls_back_to_normalized_title_as_source_id_without_isbn() {
    let csv = "title,authors,isbn,formats\nRust in Action,,,\n";
    let books = parse_csv(csv).unwrap();
    assert_eq!(books.len(), 1);
    assert!(books[0].isbn.is_none());
    assert!(books[0].authors.is_empty());
    assert_eq!(books[0].source_id, Some(normalize_title("Rust in Action")));
}

#[test]
fn missing_optional_columns_are_allowed() {
    let csv = "title\nMinimal Book\n";
    let books = parse_csv(csv).unwrap();
    assert_eq!(books.len(), 1);
    assert_eq!(books[0].title, "Minimal Book");
}

#[test]
fn cells_are_trimmed_lowercased_and_blank_pieces_dropped() {
    let csv = "formats,title,authors,isbn\n\" EPUB ; ;Pdf\",T,\" A ;; B \",\"  978  \"\n";
    let books = parse_csv(csv).unwrap();
    assert_eq!(books[0].formats, vec!["epub".to_string(), "pdf".to_string()]);
    assert_eq!(books[0].authors, vec!["A".to_string(), "B".to_string()]);
    assert_eq!(books[0].isbn, Some("978".to_string()));
}

#[test]
fn rows_need_a_title_column() {
    assert_eq!(parse_csv("authors\nSomeone\n").map(|b| b.len()), Err(KindleError::MissingTitle));
    assert_eq!(parse_csv("authors\n").map(|b| b.len()), Ok(0));
    assert_eq!(parse_csv("").map(|b| b.len()), Ok(0));
}

#[test]
fn repeated_columns_and_ragged_rows_are_refused() {
    assert_eq!(parse_csv("title,title\na,b\n").map(|b| b.len()), Err(KindleError::DuplicateColumn));
    assert!(matches!(parse_csv("title,isbn\na\n"), Err(KindleError::Csv(_))));
}

fn cells(v: &[&str]) -> Vec<String> {
    v.iter().map(|c| c.to_string()).collect()
}

#[test]
fn table_maps_each_record_to_a_book() {
    let headers = cells(&["formats", "title", "isbn"]);
    let rows = vec![
        cells(&[" EPUB ; ;PDF", "  The Rust Book (2023) ", ""]),
        cells(&["mobi", "Programming Rust", " 9781492052548 "]),
    ];
    let books = books_from_table(&headers, &rows).unwrap();
    assert_eq!(books.len(), 2);
    assert_eq!(books[0].title, "  The Rust Book (2023) ");
    assert_eq!(books[0].formats, vec!["epub".to_string(), "pdf".to_string()]);
    assert!(books[0].authors.is_empty());
    assert_eq!(books[0].isbn, None);
    assert_eq!(books[0].source_id, Some(normalize_title("  The Rust Book (2023) ")));
    assert_eq!(books[1].isbn, Some("9781492052548".to_string()));
    assert_eq!(books[1].source_id, Some("9781492052548".to_string()));
}

#[test]
fn table_header_errors_need_records() {
    let rows = vec![cells(&["x", "y"])];
    assert!(matches!(books_from_table(&cells(&["name", "isbn"]), &rows), Err(KindleError::MissingTitle)));
    assert!(matches!(books_from_table(&cells(&["title", "title"]), &rows), Err(KindleError::DuplicateColumn)));
    assert_eq!(books_from_table(&cells(&["name", "isbn"]), &vec![]).unwrap().len(), 0);
}
