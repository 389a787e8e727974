use library_core::dedup::{
    cross_source_duplicates, match_tier, normalize_isbn, normalize_title, screen_duplicates,
    select_matches, title_keys, MatchTier, TitleNormalizer,
};
use library_core::model::{Book, Source};

fn book(title: &str, isbn: Option<&str>, source: Source) -> Book {
    Book {
        id: Some(1),
        title: title.to_string(),
        authors: vec![],
        isbn: isbn.map(|s| s.to_string()),
        source,
        source_id: None,
        formats: vec![],
        acquired_at: None,
        raw_json: None,
        cover_url: None,
    }
}

/// The fuzzy verdicts a caller hands to `cross_source_duplicates`: Jaro-Winkler
/// similarity of the normalised titles at or above 0.90, for every pair i < j.
fn similar_pairs(books: &[Book]) -> Vec<Vec<bool>> {
    let keys = title_keys(books);
    let mut out = Vec::new();
    for i in 0..books.len() {
        let mut row = Vec::new();
        for j in 0..books.len() {
            row.push(i < j && strsim::jaro_winkler(&keys[i], &keys[j]) >= 0.90);
        }
        out.push(row);
    }
    out
}

#[test]
fn normalize_strips_article_edition_and_year() {
    assert_eq!(
        normalize_title("The Rust Programming Language, 2nd Edition (2023)"),
        normalize_title("Rust Programming Language")
    );
}

#[test]
fn normalize_strips_ordinal_edition_variants() {
    assert_eq!(
        normalize_title("Programming Rust, 3rd ed."),
        normalize_title("Programming Rust")
    );
}

#[test]
fn normalize_lowercases_and_collapses_punctuation() {
    assert_eq!(normalize_title("Rust: In Action!!"), "rust in action");
}

#[test]
fn normalize_strips_publisher_suffix() {
    assert_eq!(
        normalize_title("Zero To Production - Manning"),
        normalize_title("Zero To Production")
    );
}

#[test]
fn cross_source_duplicates_confirmed_different_isbn_skips_fuzzy_pass() {
    let books = vec![
        Book {
            id: Some(1),
            ..book(
                "Mastering Palo Alto Networks - Third Edition",
                Some("9781800000001"),
                Source::Packt,
            )
        },
        Book {
            id: Some(2),
            ..book(
                "Mastering Bootstrap 4 - Second Edition",
                Some("9781800000002"),
                Source::HumbleBundle,
            )
        },
    ];
    assert!(cross_source_duplicates(&books, &similar_pairs(&books)).is_empty());
}

#[test]
fn cross_source_duplicates_flags_matches_across_sources_only() {
    let books = vec![
        Book {
            id: Some(1),
            source: Source::Packt,
            ..book("Rust Web Programming", None, Source::Packt)
        },
        Book {
            id: Some(2),
            source: Source::HumbleBundle,
            ..book("Rust Web Programming", None, Source::HumbleBundle)
        },
        Book {
            id: Some(3),
            ..book("Completely Unrelated Title", None, Source::Manning)
        },
    ];
    let dupes = cross_source_duplicates(&books, &similar_pairs(&books));
    assert_eq!(dupes.get(&1), Some(&vec![Source::HumbleBundle]));
    assert_eq!(dupes.get(&2), Some(&vec![Source::Packt]));
    assert_eq!(dupes.get(&3), None);
}

#[test]
fn cross_source_duplicates_ignores_same_source_matches() {
    let books = vec![
        Book {
            id: Some(1),
            ..book("Programming Rust", None, Source::Manual)
        },
        Book {
            id: Some(2),
            ..book("Programming Rust", None, Source::Manual)
        },
    ];
    assert!(cross_source_duplicates(&books, &similar_pairs(&books)).is_empty());
}

#[test]
fn cross_source_duplicates_ignores_books_without_an_id() {
    let books = vec![
        Book {
            id: None,
            ..book("Programming Rust", None, Source::Packt)
        },
        Book {
            id: Some(2),
            ..book("Programming Rust", None, Source::HumbleBundle)
        },
    ];
    assert!(cross_source_duplicates(&books, &similar_pairs(&books)).is_empty());
}

#[test]
fn cross_source_marks_are_mutual_and_sorted_by_identifier() {
    let books = vec![
        Book { id: Some(10), ..book("Rust in Action", None, Source::Packt) },
        Book { id: Some(11), ..book("Rust in Action", None, Source::Kindle) },
        Book { id: Some(12), ..book("Rust in Action (2021)", None, Source::HumbleBundle) },
    ];
    let dupes = cross_source_duplicates(&books, &similar_pairs(&books));
    assert_eq!(dupes.get(&10), Some(&vec![Source::HumbleBundle, Source::Kindle]));
    assert_eq!(dupes.get(&11), Some(&vec![Source::HumbleBundle, Source::Packt]));
    assert_eq!(dupes.get(&12), Some(&vec![Source::Kindle, Source::Packt]));
}

#[test]
fn cross_source_uses_the_fuzzy_verdict_only_for_undecided_pairs() {
    let books = vec![
        Book { id: Some(1), ..book("Alpha", None, Source::Packt) },
        Book { id: Some(2), ..book("Beta", None, Source::Manning) },
    ];
    let said_similar = vec![vec![false, true], vec![false, false]];
    let dupes = cross_source_duplicates(&books, &said_similar);
    assert_eq!(dupes.get(&1), Some(&vec![Source::Manning]));
    let said_different = vec![vec![false, false], vec![false, false]];
    assert!(cross_source_duplicates(&books, &said_different).is_empty());
}

#[test]
fn normalize_isbn_keeps_only_digits() {
    assert_eq!(normalize_isbn("978-1-6172-9455-4"), "9781617294554");
    assert_eq!(normalize_isbn("ISBN 0 13 110362 8"), "0131103628");
    assert_eq!(normalize_isbn("no digits"), "");
}

#[test]
fn normalize_title_of_blank_title_is_empty() {
    assert_eq!(normalize_title("   "), "");
    assert_eq!(normalize_title("A Book"), "book");
}

#[test]
fn match_tier_decides_in_order() {
    let t = |s: &str| s.to_string();
    let i = |s: &str| Some(s.to_string());
    assert_eq!(match_tier(&t("x"), &i("1"), &t("y"), &i("1")), MatchTier::Isbn);
    assert_eq!(match_tier(&t("x"), &i("1"), &t("x"), &i("2")), MatchTier::ExactTitle);
    assert_eq!(match_tier(&t("x"), &i("1"), &t("y"), &i("2")), MatchTier::IsbnsDiffer);
    assert_eq!(match_tier(&t("x"), &None, &t("y"), &i("2")), MatchTier::Fuzzy);
    assert_eq!(match_tier(&t(""), &i(""), &t(""), &i("")), MatchTier::Fuzzy);
}

#[test]
fn screening_reports_isbn_and_exact_matches_and_fuzzy_only_when_allowed() {
    let existing = vec![
        book("Rust in Action", None, Source::HumbleBundle),
        book("Rust in Action", Some("9781617294554"), Source::Packt),
        book("Learning Python", Some("9780000000001"), Source::Manning),
        book("Programming Rust", None, Source::Kindle),
    ];
    let candidate = book("Rust in Action", Some("978-1-61729-455-4"), Source::Manual);
    let screening = screen_duplicates(&existing, &candidate);
    assert_eq!(screening.candidate_title_key, "rust in action");
    let tiers: Vec<MatchTier> = screening.entries.iter().map(|e| e.tier).collect();
    assert_eq!(
        tiers,
        vec![MatchTier::ExactTitle, MatchTier::Isbn, MatchTier::IsbnsDiffer, MatchTier::Fuzzy]
    );
    let passes = vec![true, true, true, false];
    assert_eq!(
        select_matches(&screening, &passes),
        vec![(0, MatchTier::ExactTitle), (1, MatchTier::Isbn)]
    );
    let passes = vec![false, false, true, true];
    assert_eq!(
        select_matches(&screening, &passes),
        vec![(0, MatchTier::ExactTitle), (1, MatchTier::Isbn), (3, MatchTier::Fuzzy)]
    );
}

/// The entries a candidate screening reports, with a 0.90 Jaro-Winkler verdict
/// for the fuzzy ones.
fn reported(existing: &[Book], candidate: &Book) -> Vec<(usize, MatchTier)> {
    let screening = screen_duplicates(existing, candidate);
    let passes: Vec<bool> = screening
        .entries
        .iter()
        .map(|e| strsim::jaro_winkler(&screening.candidate_title_key, &e.title_key) >= 0.90)
        .collect();
    select_matches(&screening, &passes)
}

#[test]
fn screening_reports_an_isbn_match() {
    let existing = vec![book("Rust in Action", Some("978-1-61729-455-4"), Source::HumbleBundle)];
    let candidate = book("Rust in Action (MEAP)", Some("9781617294554"), Source::Packt);
    assert_eq!(reported(&existing, &candidate), vec![(0, MatchTier::Isbn)]);
}

#[test]
fn screening_reports_an_exact_title_match() {
    let existing = vec![book("The Rust Programming Language, 2nd Edition", None, Source::HumbleBundle)];
    let candidate = book("Rust Programming Language", None, Source::Packt);
    assert_eq!(reported(&existing, &candidate), vec![(0, MatchTier::ExactTitle)]);
}

#[test]
fn screening_reports_a_close_title_and_not_a_distant_one() {
    let existing = vec![
        book("Programming Rust", None, Source::HumbleBundle),
        book("Learning Python", None, Source::HumbleBundle),
    ];
    let candidate = book("Programming Rus", None, Source::Packt);
    assert_eq!(reported(&existing, &candidate), vec![(0, MatchTier::Fuzzy)]);
}

#[test]
fn screening_lets_different_isbns_overrule_a_fuzzy_title() {
    let existing = vec![book("Mastering Palo Alto Networks - Third Edition", Some("9781800000001"), Source::Packt)];
    let candidate = book("Mastering Bootstrap 4 - Second Edition", Some("9781800000002"), Source::HumbleBundle);
    assert!(reported(&existing, &candidate).is_empty());
}

#[test]
fn screening_keeps_an_exact_title_despite_different_isbns() {
    let existing = vec![book("Zero To Production", Some("9781800000001"), Source::Packt)];
    let candidate = book("Zero To Production - Manning", Some("9781800000002"), Source::HumbleBundle);
    assert_eq!(reported(&existing, &candidate), vec![(0, MatchTier::ExactTitle)]);
}

#[test]
fn one_normalizer_serves_many_titles() {
    let normalizer = TitleNormalizer::new();
    for title in ["The Rust Programming Language, 2nd Edition (2023)", "Rust in Action - Manning", "A Byte of Python"] {
        assert_eq!(normalizer.normalize(title), normalize_title(title));
    }
    assert_eq!(normalizer.normalize("The Rust Programming Language, 2nd Edition (2023)"), "rust programming language");
}
