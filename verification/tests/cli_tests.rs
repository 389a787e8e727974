use library_core::cli::{
    books_for_listing, bundle_item_candidate, check_candidate, check_isbn, duplicate_note,
    import_report, importer_for, list_header, list_line, listing, pad_right, stats_line, stats_total,
    truncate, ImportError, ImportSource, Importer,
};
use library_core::config::Config;
use library_core::desktop::{check_open_url, desktop_importer, error_chain_message, ImportSummary};
use library_core::model::{Book, Source, UpsertOutcome};
use library_core::sources::humble::BundleItem;
use library_core::sources::Source as _;

fn book(id: Option<i64>, title: &str, source: Source) -> Book {
    Book {
        id,
        title: title.to_string(),
        authors: vec!["Jane Doe".to_string()],
        isbn: None,
        source,
        source_id: None,
        formats: vec!["epub".to_string(), "pdf".to_string()],
        acquired_at: None,
        raw_json: None,
        cover_url: None,
    }
}

#[test]
fn truncate_marks_cut_cells_with_an_ellipsis() {
    assert_eq!(truncate("short", 50), "short");
    assert_eq!(truncate("abcdef", 4), "abc\u{2026}");
    assert_eq!(truncate("abcd", 4), "abcd");
    assert_eq!(truncate("ab", 0), "\u{2026}");
}

#[test]
fn query_digits_become_an_isbn_only_at_isbn_lengths() {
    assert_eq!(check_isbn("978-1-4920-5254-8"), Some("9781492052548".to_string()));
    assert_eq!(check_isbn("1-4920-5254-X"), None);
    assert_eq!(check_isbn("0 13 110362 8"), Some("0131103628".to_string()));
    assert_eq!(check_isbn("Programming Rust"), None);
    let c = check_candidate("978-1-4920-5254-8");
    assert_eq!(c.title, "978-1-4920-5254-8");
    assert_eq!(c.isbn, Some("9781492052548".to_string()));
    assert_eq!(c.source, Source::Manual);
    assert!(c.id.is_none() && c.source_id.is_none());
}

#[test]
fn bundle_items_are_checked_without_isbn() {
    let c = bundle_item_candidate(&BundleItem { title: "T".to_string(), authors: vec!["A".to_string()] });
    assert_eq!(c.title, "T");
    assert_eq!(c.authors, vec!["A".to_string()]);
    assert!(c.isbn.is_none());
}

#[test]
fn listing_filters_by_source_in_order() {
    let books = vec![
        book(Some(1), "A", Source::Packt),
        book(Some(2), "B", Source::Manning),
        book(Some(3), "C", Source::Packt),
    ];
    let ids: Vec<Option<i64>> = books_for_listing(books.clone(), Some(Source::Packt)).iter().map(|b| b.id).collect();
    assert_eq!(ids, vec![Some(1), Some(3)]);
    assert_eq!(books_for_listing(books, None).len(), 3);
}

#[test]
fn table_lines_are_padded_and_noted() {
    assert_eq!(pad_right("ab", 4), "ab  ");
    assert_eq!(pad_right("abcdef", 4), "abcdef");
    let header = list_header();
    assert!(header.starts_with("ID     TITLE"));
    assert!(header.ends_with("AUTHORS              FORMATS"));
    let b = book(Some(42), "Programming Rust", Source::Packt);
    let others = vec![Source::HumbleBundle, Source::Kindle];
    let line = list_line(&b, Some(&others));
    assert_eq!(
        line,
        format!(
            "{:<6} {:<50} {:<14} {:<20} {}{}",
            "42", "Programming Rust", "packt", "Jane Doe", "epub,pdf", "  [also owned via: humble_bundle, kindle]"
        )
    );
    assert_eq!(duplicate_note(&vec![Source::Manual]), "  [also owned via: manual]");
    let unsaved = list_line(&book(None, "X", Source::Manual), None);
    assert!(unsaved.starts_with("       X"));
}

#[test]
fn reports_and_totals() {
    assert_eq!(import_report("packt", 3, 12), "packt: 3 new, 12 updated");
    let stats = vec![(Source::HumbleBundle, 2), (Source::Packt, 5)];
    assert_eq!(stats_total(&stats), 7);
    assert_eq!(stats_line("total", 7), format!("{:<14} {}", "total", 7));
    assert_eq!(stats_line("humble_bundle", -1), "humble_bundle  -1");
}

#[test]
fn cli_import_needs_the_source_credential() {
    let mut config = Config::default();
    assert!(matches!(
        importer_for(&ImportSource::Packt, &config),
        Err(ImportError::MissingCredential(m)) if m.contains("--packt-cookies")
    ));
    config.packt_cookies = Some("jar".to_string());
    match importer_for(&ImportSource::Packt, &config) {
        Ok(Importer::Packt(p)) => {
            assert_eq!(p.cookies, "jar");
            assert_eq!(p.name(), "packt");
        }
        _ => panic!("expected the Packt importer"),
    }
    match importer_for(&ImportSource::Kindle { file: "books.csv".to_string() }, &config) {
        Ok(Importer::Kindle(k)) => assert_eq!(k.path, "books.csv"),
        _ => panic!("expected the Kindle importer"),
    }
}

#[test]
fn desktop_import_requests() {
    let mut config = Config::default();
    config.humble_cookie = Some("sess".to_string());
    match desktop_importer("humble", &config, None) {
        Ok(Importer::Humble(h)) => {
            assert_eq!(h.cookie, "sess");
            assert_eq!(h.name(), "humble_bundle");
        }
        _ => panic!("expected the Humble importer"),
    }
    assert!(matches!(desktop_importer("kindle", &config, None), Err(ImportError::NoFile)));
    assert!(matches!(desktop_importer("manning", &config, None), Err(ImportError::MissingCredential(_))));
    assert!(matches!(
        desktop_importer("bookshop", &config, None),
        Err(ImportError::UnknownSource(s)) if s == "bookshop"
    ));
}

#[test]
fn only_web_links_are_opened() {
    assert!(check_open_url("https://www.humblebundle.com/books/x").is_ok());
    assert!(check_open_url("http://example.com").is_ok());
    assert_eq!(
        check_open_url("file:///etc/passwd"),
        Err("refusing to open a non-http(s) URL".to_string())
    );
}

#[test]
fn error_chains_render_on_one_line() {
    let messages = vec!["fetch failed".to_string(), "HTTP 403".to_string(), "body: denied".to_string()];
    assert_eq!(
        error_chain_message(&messages),
        "fetch failed -- caused by: HTTP 403 -- caused by: body: denied"
    );
    assert_eq!(error_chain_message(&Vec::new()), "");
}

#[test]
fn import_summary_tally() {
    let mut s = ImportSummary::new("packt".to_string());
    s.record(UpsertOutcome::Inserted(1));
    s.record(UpsertOutcome::Updated(2));
    s.record(UpsertOutcome::Inserted(3));
    s.warn("possible duplicate".to_string());
    assert_eq!((s.new_count, s.updated_count, s.warnings.len()), (2, 1, 1));
}

#[test]
fn listing_marks_use_the_whole_library_before_filtering() {
    let library = vec![
        book(Some(1), "Rust in Action", Source::Packt),
        book(Some(2), "Rust in Action", Source::HumbleBundle),
        book(Some(3), "Grokking Algorithms", Source::Manning),
        book(Some(4), "Grokking Algorithms", Source::Manning),
    ];
    let similar = vec![vec![false; 4]; 4];
    let packt = listing(library.clone(), &similar, Some(Source::Packt));
    assert_eq!(packt.len(), 1);
    assert_eq!(packt[0].book.id, Some(1));
    assert_eq!(packt[0].also_owned, Some(vec![Source::HumbleBundle]));

    let all = listing(library, &similar, None);
    let ids: Vec<Option<i64>> = all.iter().map(|e| e.book.id).collect();
    assert_eq!(ids, vec![Some(1), Some(2), Some(3), Some(4)]);
    assert_eq!(all[1].also_owned, Some(vec![Source::Packt]));
    assert_eq!(all[2].also_owned, None);
    assert_eq!(all[3].also_owned, None);
}
