use library_core::sources::humble::{
    active_bundle_urls, books_from_order, bundle_contents, bundle_page_json, is_fiction_or_comic,
    listing_page_json, matches_excluded_bundle, normalize_format, validate_bundle_url,
    without_excluded_bundles, without_fiction, ActiveBundleCheck, BundleContents, BundleItem,
    BundlePage, BundleUrlError, Download, DownloadStruct, ListingPage, ListingProduct,
    OrderDetail, PageError, Subproduct, TierItem,
};
use serde_json::Value;

fn text(v: &Value, key: &str) -> String {
    v.get(key).and_then(Value::as_str).unwrap_or_default().to_string()
}

fn items<'a>(v: &'a Value, key: &str) -> Vec<&'a Value> {
    v.get(key).and_then(Value::as_array).map(|a| a.iter().collect()).unwrap_or_default()
}

/// Reads an order detail document into the library's order structure.
fn order_detail(json: &str) -> OrderDetail {
    let v: Value = serde_json::from_str(json).unwrap();
    OrderDetail {
        subproducts: items(&v, "subproducts")
            .into_iter()
            .map(|sp| Subproduct {
                human_name: text(sp, "human_name"),
                machine_name: text(sp, "machine_name"),
                downloads: items(sp, "downloads")
                    .into_iter()
                    .map(|d| Download {
                        platform: text(d, "platform"),
                        download_struct: items(d, "download_struct")
                            .into_iter()
                            .map(|ds| DownloadStruct { name: text(ds, "name") })
                            .collect(),
                    })
                    .collect(),
            })
            .collect(),
    }
}

/// Reads a bundle page's embedded data into the library's page structure.
fn bundle_page(json: &str) -> BundlePage {
    let v: Value = serde_json::from_str(json).unwrap();
    let data = &v["bundleData"];
    BundlePage {
        human_name: text(&data["basic_data"], "human_name"),
        tier_items: data["tier_item_data"]
            .as_object()
            .map(|m| {
                m.values()
                    .map(|item| TierItem {
                        human_name: text(item, "human_name"),
                        item_content_type: item
                            .get("item_content_type")
                            .and_then(Value::as_str)
                            .map(str::to_string),
                        developers: items(item, "developers")
                            .into_iter()
                            .map(|d| text(d, "developer-name"))
                            .collect(),
                    })
                    .collect()
            })
            .unwrap_or_default(),
    }
}

/// Reads the books listing's embedded data into the library's listing structure.
fn listing_page(json: &str) -> ListingPage {
    let v: Value = serde_json::from_str(json).unwrap();
    ListingPage {
        sections: items(&v["data"]["books"], "mosaic")
            .into_iter()
            .map(|section| {
                items(section, "products")
                    .into_iter()
                    .map(|p| ListingProduct { category: text(p, "category"), product_url: text(p, "product_url") })
                    .collect()
            })
            .collect(),
    }
}

fn parse_order_response(json: &str) -> Vec<library_core::model::Book> {
    books_from_order(&order_detail(json), json)
}

fn parse_bundle_page(html: &str) -> Result<BundleContents, PageError> {
    bundle_page_json(html).map(|json| bundle_contents(&bundle_page(&json)))
}

fn parse_active_bundle_urls(html: &str) -> Result<Vec<String>, PageError> {
    listing_page_json(html).map(|json| active_bundle_urls(&listing_page(&json)))
}

const ORDER_FIXTURE: &str = r#"
{
    "gamekey": "abc123",
    "product": { "human_name": "Rust Books Bundle", "machine_name": "rust_bundle", "category": "bundle" },
    "subproducts": [
        {
            "human_name": "Programming Rust",
            "machine_name": "programming_rust",
            "downloads": [
                {
                    "platform": "ebook",
                    "download_struct": [
                        { "name": "epub", "url": { "web": "https://dl.humble.com/programming_rust.epub" } },
                        { "name": "pdf (hd)", "url": { "web": "https://dl.humble.com/programming_rust.pdf" } }
                    ]
                }
            ]
        },
        {
            "human_name": "Some Game Soundtrack",
            "machine_name": "game_soundtrack",
            "downloads": [
                {
                    "platform": "android",
                    "download_struct": [
                        { "name": "apk", "url": { "web": "https://dl.humble.com/game.apk" } }
                    ]
                }
            ]
        },
        {
            "human_name": "Rust in Action",
            "machine_name": "rust_in_action",
            "downloads": [
                {
                    "platform": "ebook",
                    "download_struct": [
                        { "name": "pdf", "url": { "web": "https://dl.humble.com/ria.pdf" } },
                        { "name": "epub", "url": { "web": "https://dl.humble.com/ria.epub" } },
                        { "name": "mobi", "url": { "web": "https://dl.humble.com/ria.mobi" } }
                    ]
                },
                {
                    "platform": "android",
                    "download_struct": [
                        { "name": "apk", "url": { "web": "https://dl.humble.com/ria.apk" } }
                    ]
                }
            ]
        }
    ]
}
"#;

#[test]
fn parses_ebook_subproducts_and_skips_non_ebooks() {
    let books = parse_order_response(ORDER_FIXTURE);
    assert_eq!(books.len(), 2);
    assert!(books.iter().all(|b| b.title != "Some Game Soundtrack"));
}

#[test]
fn normalizes_format_variants() {
    let books = parse_order_response(ORDER_FIXTURE);
    let programming_rust = books.iter().find(|b| b.title == "Programming Rust").unwrap();
    assert_eq!(programming_rust.formats, vec!["epub".to_string(), "pdf".to_string()]);
}

#[test]
fn uses_machine_name_as_source_id() {
    let books = parse_order_response(ORDER_FIXTURE);
    let ria = books.iter().find(|b| b.title == "Rust in Action").unwrap();
    assert_eq!(ria.source_id, Some("rust_in_action".to_string()));
    assert_eq!(
        ria.formats,
        vec!["epub".to_string(), "mobi".to_string(), "pdf".to_string()]
    );
    assert!(ria.isbn.is_none());
    assert!(ria.authors.is_empty());
}

#[test]
fn order_books_keep_the_document_and_repeat_no_format() {
    let json = r#"{"subproducts":[{"human_name":"B","machine_name":"b","downloads":[
        {"platform":"ebook","download_struct":[{"name":"PDF"},{"name":"pdf (hd)"},{"name":" Epub "}]},
        {"platform":"ebook","download_struct":[{"name":"epub"}]}]}]}"#;
    let books = parse_order_response(json);
    assert_eq!(books.len(), 1);
    assert_eq!(books[0].formats, vec!["epub".to_string(), "pdf".to_string()]);
    assert_eq!(books[0].raw_json, Some(json.to_string()));
    assert_eq!(books[0].source, library_core::model::Source::HumbleBundle);
}

const BUNDLE_PAGE_FIXTURE: &str = r#"
<html><body>
<script id="webpack-bundle-page-data" type="application/json">
{
    "bundleData": {
        "machine_name": "rust_book_bundle",
        "basic_data": { "human_name": "Humble Tech Book Bundle: Rust" },
        "tier_item_data": {
            "programming_rust": {
                "human_name": "Programming Rust",
                "item_content_type": "ebook",
                "developers": [
                    { "developer-name": "Jim Blandy" },
                    { "developer-name": "Jason Orendorff" }
                ]
            },
            "rust_in_action": {
                "human_name": "Rust in Action",
                "item_content_type": "ebook",
                "developers": [{ "developer-name": "Tim McNamara" }]
            },
            "savethechildren": {
                "human_name": "Save the Children",
                "developers": []
            }
        }
    }
}
</script>
</body></html>
"#;

#[test]
fn parses_bundle_name_and_ebook_items_only() {
    let contents = parse_bundle_page(BUNDLE_PAGE_FIXTURE).unwrap();
    assert_eq!(contents.bundle_name, "Humble Tech Book Bundle: Rust");
    assert_eq!(contents.items.len(), 2);
    assert!(contents.items.iter().all(|i| i.title != "Save the Children"));
}

#[test]
fn bundle_items_sorted_by_title_with_authors() {
    let contents = parse_bundle_page(BUNDLE_PAGE_FIXTURE).unwrap();
    assert_eq!(
        contents.items[0],
        BundleItem {
            title: "Programming Rust".to_string(),
            authors: vec!["Jim Blandy".to_string(), "Jason Orendorff".to_string()],
        }
    );
    assert_eq!(
        contents.items[1],
        BundleItem {
            title: "Rust in Action".to_string(),
            authors: vec!["Tim McNamara".to_string()],
        }
    );
}

#[test]
fn non_bundle_page_errors_instead_of_panicking() {
    let result = parse_bundle_page("<html><body>not a bundle page</body></html>");
    assert!(result.is_err());
}

#[test]
fn missing_script_is_reported_as_such() {
    assert_eq!(
        bundle_page_json("<html><body>not a bundle page</body></html>"),
        Err(PageError::MissingScript)
    );
}

#[test]
fn accepts_humblebundle_dot_com_urls() {
    assert!(validate_bundle_url("https://www.humblebundle.com/books/some-bundle").is_ok());
    assert!(validate_bundle_url("https://humblebundle.com/books/some-bundle").is_ok());
}

#[test]
fn rejects_other_hosts_and_garbage() {
    assert!(validate_bundle_url("https://evil.example.com/books/some-bundle").is_err());
    assert!(validate_bundle_url("not a url").is_err());
}

#[test]
fn url_errors_tell_garbage_from_other_hosts() {
    assert_eq!(validate_bundle_url("not a url"), Err(BundleUrlError::NotAUrl));
    assert_eq!(
        validate_bundle_url("https://humblebundle.com.evil.example/x"),
        Err(BundleUrlError::NotHumbleBundle)
    );
    assert_eq!(
        validate_bundle_url("https://nothumblebundle.com/x"),
        Err(BundleUrlError::NotHumbleBundle)
    );
}

const LANDING_PAGE_FIXTURE: &str = r#"
<html><body>
<script id="landingPage-json-data" type="application/json">
{
    "data": {
        "books": {
            "mosaic": [
                {
                    "products": [
                        {
                            "category": "bundle",
                            "product_url": "/books/tech-career-library-in-age-ai-apress-books"
                        },
                        {
                            "category": "bundle",
                            "product_url": "/books/software-architecture-apress-books"
                        },
                        {
                            "category": "storefront",
                            "product_url": "/store/some-single-book"
                        }
                    ]
                },
                {
                    "products": [
                        {
                            "category": "bundle",
                            "product_url": "/books/tech-career-library-in-age-ai-apress-books"
                        }
                    ]
                }
            ]
        }
    }
}
</script>
</body></html>
"#;

#[test]
fn parses_bundle_urls_across_sections_deduped_and_sorted() {
    let urls = parse_active_bundle_urls(LANDING_PAGE_FIXTURE).unwrap();
    assert_eq!(
        urls,
        vec![
            "https://www.humblebundle.com/books/software-architecture-apress-books".to_string(),
            "https://www.humblebundle.com/books/tech-career-library-in-age-ai-apress-books".to_string(),
        ]
    );
}

#[test]
fn non_bundle_categories_excluded_from_listing() {
    let urls = parse_active_bundle_urls(LANDING_PAGE_FIXTURE).unwrap();
    assert!(urls.iter().all(|u| !u.contains("/store/")));
}

#[test]
fn non_listing_page_errors_instead_of_panicking() {
    let result = parse_active_bundle_urls("<html><body>not a listing page</body></html>");
    assert!(result.is_err());
}

#[test]
fn flags_comics_and_fiction_titles() {
    assert!(is_fiction_or_comic("Batman: The Long Halloween (Comics)"));
    assert!(is_fiction_or_comic("Saga, Vol. 1 (Graphic Novel)"));
    assert!(is_fiction_or_comic("Neuromancer: A Novel"));
    assert!(is_fiction_or_comic("The Fantasy & Science Fiction Megapack"));
    assert!(is_fiction_or_comic("Attack on Titan Manga Collection"));
    assert!(is_fiction_or_comic("Best Sci-Fi Short Story Collection"));
}

#[test]
fn leaves_technical_titles_alone() {
    assert!(!is_fiction_or_comic("Programming Rust"));
    assert!(!is_fiction_or_comic("Rust in Action"));
    assert!(!is_fiction_or_comic("Kubernetes Patterns"));
}

#[test]
fn single_word_keywords_match_whole_words_only() {
    assert!(!is_fiction_or_comic("Novelty Algorithms"));
    assert!(!is_fiction_or_comic("Sagas of Microservices"));
    assert!(is_fiction_or_comic("The Dune Saga"));
    assert!(is_fiction_or_comic("COMIC STRIPS"));
}

#[test]
fn matches_excluded_bundle_finds_case_insensitive_substring() {
    let terms = vec!["software".to_string(), "board game".to_string()];
    assert!(matches_excluded_bundle("Humble Software Bundle", &terms));
    assert!(matches_excluded_bundle("The Humble Board Game Design Bundle", &terms));
    assert!(!matches_excluded_bundle("Humble Tech Book Bundle: Rust", &terms));
}

#[test]
fn matches_excluded_bundle_ignores_blank_terms_and_empty_list() {
    assert!(!matches_excluded_bundle("Any Bundle Name", &[]));
    assert!(!matches_excluded_bundle("Any Bundle Name", &["   ".to_string(), "".to_string()]));
}

#[test]
fn format_keys() {
    assert_eq!(normalize_format("PDF (HD)"), "pdf");
    assert_eq!(normalize_format("  ePub  "), "epub");
    assert_eq!(normalize_format("(odd)"), "");
    assert_eq!(normalize_format("Kindle Format 8 (mobi)"), "kindle format 8");
}

#[test]
fn fiction_items_are_dropped_in_order() {
    let item = |t: &str| BundleItem { title: t.to_string(), authors: Vec::new() };
    let kept = without_fiction(vec![item("Rust in Action"), item("A Graphic Novel"), item("Kubernetes Patterns")]);
    assert_eq!(kept, vec![item("Rust in Action"), item("Kubernetes Patterns")]);
}

#[test]
fn excluded_bundles_are_dropped_but_failures_kept() {
    let contents = |name: &str| BundleContents { bundle_name: name.to_string(), items: Vec::new() };
    let checks = vec![
        ActiveBundleCheck { url: "a".to_string(), result: Ok(contents("Humble Software Bundle")) },
        ActiveBundleCheck { url: "b".to_string(), result: Err("timeout".to_string()) },
        ActiveBundleCheck { url: "c".to_string(), result: Ok(contents("Rust Books")) },
    ];
    let (kept, dropped) = without_excluded_bundles(checks, &["software".to_string()]);
    assert_eq!(dropped, 1);
    let urls: Vec<&str> = kept.iter().map(|c| c.url.as_str()).collect();
    assert_eq!(urls, vec!["b", "c"]);
}
