use library_core::model::Source;
use library_core::sources::manual::build_manual_book;

#[test]
fn builds_manual_entry_with_no_source_id() {
    let book = build_manual_book(
        "My Book".to_string(),
        vec!["Author One".to_string()],
        Some("1234567890".to_string()),
        vec!["pdf".to_string()],
        None,
    );
    assert_eq!(book.title, "My Book");
    assert!(matches!(book.source, Source::Manual));
    assert!(book.source_id.is_none());
}
