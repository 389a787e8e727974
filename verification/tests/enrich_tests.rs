use library_core::enrich::{
    best_isbn, cover_lookup_outcome, cover_url_for_isbn, enriched_book, enrichment_plan, finish_with_cover,
    found_metadata_from_doc, is_isbn10, is_isbn13, isbn_cover_url, title_lookup_next,
    BookOutcome, EnrichPlan, EnrichSummary, FoundMetadata, LookupFailed, MetadataUpdate, TitleNext,
};
use library_core::model::{Book, Source};
use library_core::text::decimal_string;

fn book_missing(title: &str) -> Book {
    Book {
        id: Some(7),
        title: title.to_string(),
        authors: Vec::new(),
        isbn: None,
        source: Source::HumbleBundle,
        source_id: Some(title.to_string()),
        formats: Vec::new(),
        acquired_at: None,
        raw_json: None,
        cover_url: None,
    }
}

fn strings(v: &[&str]) -> Vec<String> {
    v.iter().map(|s| s.to_string()).collect()
}

#[test]
fn prefers_isbn13_over_isbn10() {
    assert_eq!(
        best_isbn(&["149205254X".to_string(), "9781492052548".to_string()]),
        Some("9781492052548".to_string())
    );
}

#[test]
fn falls_back_to_isbn10_when_no_isbn13_present() {
    assert_eq!(
        best_isbn(&["149205254X".to_string()]),
        Some("149205254X".to_string())
    );
}

#[test]
fn best_isbn_takes_the_first_of_each_kind_and_skips_other_shapes() {
    assert_eq!(
        best_isbn(&strings(&["12345", "0131103628", "9780131103627", "9781492052548"])),
        Some("9780131103627".to_string())
    );
    assert_eq!(best_isbn(&strings(&["12345", "abcdefghij"])), None);
    assert_eq!(best_isbn(&[]), None);
}

#[test]
fn isbn_shapes() {
    assert!(is_isbn13("9781492052548"));
    assert!(!is_isbn13("978149205254"));
    assert!(!is_isbn13("978149205254X"));
    assert!(is_isbn10("149205254X"));
    assert!(is_isbn10("149205254x"));
    assert!(is_isbn10("0131103628"));
    assert!(!is_isbn10("X492052541"));
    assert!(!is_isbn10("14920525"));
}

#[test]
fn non_ascii_candidates_are_not_isbn10() {
    assert!(!is_isbn10("12345678\u{e9}"));
    assert!(!is_isbn10("123456789\u{e9}"));
    assert!(!is_isbn10("\u{e9}12345678"));
    assert_eq!(
        best_isbn(&strings(&["12345678\u{e9}", "0131103628"])),
        Some("0131103628".to_string())
    );
}

#[test]
fn found_metadata_carries_authors_isbn_and_cover_by_id() {
    let found = found_metadata_from_doc(
        &strings(&["Jim Blandy", "Jason Orendorff"]),
        &strings(&["9781492052548", "149205254X"]),
        Some(12345),
    )
    .unwrap();
    assert_eq!(found.authors, strings(&["Jim Blandy", "Jason Orendorff"]));
    assert_eq!(found.isbn, Some("9781492052548".to_string()));
    assert_eq!(
        found.cover_url,
        Some("https://covers.openlibrary.org/b/id/12345-L.jpg".to_string())
    );
}

#[test]
fn found_metadata_without_cover_id_has_no_cover() {
    let found = found_metadata_from_doc(&strings(&["Jim Blandy"]), &strings(&["9781492052548"]), None).unwrap();
    assert_eq!(found.cover_url, None);
}

#[test]
fn found_metadata_with_nothing_usable_is_none() {
    assert!(found_metadata_from_doc(&Vec::new(), &strings(&["123"]), None).is_none());
}

#[test]
fn cover_urls_by_isbn_and_id() {
    assert_eq!(
        isbn_cover_url("9781492052548"),
        "https://covers.openlibrary.org/b/isbn/9781492052548-L.jpg"
    );
    assert_eq!(
        cover_url_for_isbn("9781492052548", true),
        Some("https://covers.openlibrary.org/b/isbn/9781492052548-L.jpg".to_string())
    );
    assert_eq!(cover_url_for_isbn("9781492052548", false), None);
    assert_eq!(decimal_string(0), "0");
    assert_eq!(decimal_string(1234567890), "1234567890");
}

#[test]
fn plan_skips_complete_or_unsaved_books() {
    let mut complete = book_missing("Complete Book");
    complete.authors = strings(&["Someone"]);
    complete.isbn = Some("9780000000000".to_string());
    complete.cover_url = Some("https://example.com/cover.jpg".to_string());
    assert!(matches!(enrichment_plan(&complete), EnrichPlan::Skip));

    let mut unsaved = book_missing("Unsaved");
    unsaved.id = None;
    assert!(matches!(enrichment_plan(&unsaved), EnrichPlan::Skip));
}

#[test]
fn plan_looks_up_cover_by_isbn_when_only_the_cover_is_missing() {
    let mut b = book_missing("Cover Only");
    b.authors = strings(&["Someone"]);
    b.isbn = Some("9780000000000".to_string());
    match enrichment_plan(&b) {
        EnrichPlan::CoverByIsbn { id, isbn } => {
            assert_eq!(id, 7);
            assert_eq!(isbn, "9780000000000");
        }
        _ => panic!("expected a cover lookup by ISBN"),
    }
}

#[test]
fn plan_searches_by_title_otherwise() {
    match enrichment_plan(&book_missing("Programming Rust")) {
        EnrichPlan::ByTitle { id, title } => {
            assert_eq!(id, 7);
            assert_eq!(title, "Programming Rust");
        }
        _ => panic!("expected a title search"),
    }
}

#[test]
fn title_search_then_cover_by_the_found_isbn() {
    let b = book_missing("Programming Rust");
    let found = FoundMetadata {
        authors: strings(&["Jim Blandy"]),
        isbn: Some("9781492052548".to_string()),
        cover_url: Some("https://covers.openlibrary.org/b/id/1-L.jpg".to_string()),
    };
    match title_lookup_next(&b, Ok(Some(found))) {
        TitleNext::CoverByIsbn { isbn, pending } => {
            assert_eq!(isbn, "9781492052548");
            let by_isbn = finish_with_cover(
                pending,
                Ok(Some("https://covers.openlibrary.org/b/isbn/9781492052548-L.jpg".to_string())),
            );
            match by_isbn {
                BookOutcome::Updated(u) => {
                    assert_eq!(u.authors, Some(strings(&["Jim Blandy"])));
                    assert_eq!(u.isbn, Some("9781492052548".to_string()));
                    assert_eq!(
                        u.cover_url,
                        Some("https://covers.openlibrary.org/b/isbn/9781492052548-L.jpg".to_string())
                    );
                }
                _ => panic!("expected an update"),
            }
        }
        _ => panic!("expected a cover lookup"),
    }
}

#[test]
fn failed_cover_lookup_keeps_the_search_cover() {
    let pending = MetadataUpdate {
        authors: None,
        isbn: None,
        cover_url: Some("https://covers.openlibrary.org/b/id/1-L.jpg".to_string()),
    };
    match finish_with_cover(pending, Err(LookupFailed)) {
        BookOutcome::Updated(u) => assert_eq!(
            u.cover_url,
            Some("https://covers.openlibrary.org/b/id/1-L.jpg".to_string())
        ),
        _ => panic!("expected an update"),
    }
}

#[test]
fn title_search_outcomes_without_metadata() {
    let b = book_missing("Anything");
    assert!(matches!(title_lookup_next(&b, Ok(None)), TitleNext::Done(BookOutcome::NotFound)));
    assert!(matches!(title_lookup_next(&b, Err(LookupFailed)), TitleNext::Done(BookOutcome::Failed)));
}

#[test]
fn existing_fields_are_never_overwritten() {
    let mut b = book_missing("Has Authors");
    b.authors = strings(&["Original Author"]);
    b.cover_url = Some("https://example.com/c.jpg".to_string());
    let found = FoundMetadata {
        authors: strings(&["Someone Else"]),
        isbn: Some("9781492052548".to_string()),
        cover_url: Some("https://covers.openlibrary.org/b/id/1-L.jpg".to_string()),
    };
    match title_lookup_next(&b, Ok(Some(found))) {
        TitleNext::Done(BookOutcome::Updated(u)) => {
            assert_eq!(u.authors, None);
            assert_eq!(u.isbn, Some("9781492052548".to_string()));
            assert_eq!(u.cover_url, None);
        }
        _ => panic!("expected an ISBN-only update"),
    }
}

#[test]
fn cover_only_lookup_outcomes() {
    assert!(matches!(cover_lookup_outcome(Ok(None)), BookOutcome::NotFound));
    assert!(matches!(cover_lookup_outcome(Err(LookupFailed)), BookOutcome::Failed));
    match cover_lookup_outcome(Ok(Some("u".to_string()))) {
        BookOutcome::Updated(u) => {
            assert_eq!(u.cover_url, Some("u".to_string()));
            assert_eq!(u.authors, None);
            assert_eq!(u.isbn, None);
        }
        _ => panic!("expected an update"),
    }
}

#[test]
fn summary_counts_each_book_once() {
    let mut s = EnrichSummary::new();
    s.record(&BookOutcome::NotFound);
    s.record(&BookOutcome::Failed);
    s.record(&BookOutcome::Updated(MetadataUpdate { authors: None, isbn: Some("1".to_string()), cover_url: None }));
    assert_eq!(s.checked, 3);
    assert_eq!(s.updated, 1);
    assert_eq!(s.not_found, 1);
    assert_eq!(s.errors, 1);
}

#[test]
fn enriched_book_changes_only_the_updated_fields() {
    let mut b = book_missing("Programming Rust");
    b.isbn = Some("9781492052548".to_string());
    b.formats = strings(&["epub"]);
    let update = MetadataUpdate {
        authors: Some(strings(&["Jim Blandy"])),
        isbn: None,
        cover_url: Some("https://covers.openlibrary.org/b/id/1-L.jpg".to_string()),
    };
    let a = enriched_book(&b, &update);
    assert_eq!(a.id, b.id);
    assert_eq!(a.title, b.title);
    assert_eq!(a.authors, strings(&["Jim Blandy"]));
    assert_eq!(a.isbn, Some("9781492052548".to_string()));
    assert_eq!(a.cover_url, Some("https://covers.openlibrary.org/b/id/1-L.jpg".to_string()));
    assert_eq!(a.formats, strings(&["epub"]));
    assert_eq!(a.source, b.source);
    assert_eq!(a.source_id, b.source_id);
}
