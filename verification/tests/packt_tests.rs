use library_core::model::Source as BookSource;
use library_core::sources::packt::{
    books_from_products_page, next_offset, truncate_body, xsrf_token, ProductEntry, ProductsPage,
    SimplifiedProduct,
};
use serde_json::Value;

fn opt_text(v: &Value, key: &str) -> Option<String> {
    v.get(key).and_then(Value::as_str).map(str::to_string)
}

/// Reads a products page document into the library's page structure.
fn products_page(json: &str) -> ProductsPage {
    let v: Value = serde_json::from_str(json).unwrap();
    ProductsPage {
        count: v.get("count").and_then(Value::as_i64),
        data: v["data"]
            .as_array()
            .unwrap()
            .iter()
            .map(|e| ProductEntry {
                product_id: opt_text(e, "productId"),
                product_name: opt_text(e, "productName").unwrap(),
                simplified_product: e.get("simplifiedProduct").map(|sp| SimplifiedProduct {
                    isbn13: opt_text(sp, "isbn13"),
                    small_image: opt_text(sp, "smallImage"),
                    cover_image: opt_text(sp, "coverImage"),
                }),
            })
            .collect(),
    }
}

fn parse_products_page(json: &str) -> (Option<i64>, Vec<library_core::model::Book>) {
    books_from_products_page(&products_page(json))
}

const PAGE_FIXTURE: &str = r#"
{
    "count": 2,
    "data": [
        { "productId": "abc-123", "productName": "Rust Web Programming" },
        { "productId": "def-456", "productName": "Hands-On Concurrency with Rust" }
    ]
}
"#;

#[test]
fn packt_parses_products_page() {
    let (count, books) = parse_products_page(PAGE_FIXTURE);
    assert_eq!(count, Some(2));
    assert_eq!(books.len(), 2);
    assert_eq!(books[0].title, "Rust Web Programming");
    assert_eq!(books[0].source_id, Some("abc-123".to_string()));
    assert!(matches!(books[0].source, BookSource::Packt));
    assert!(books[0].authors.is_empty());
    assert!(books[0].isbn.is_none());
    assert!(books[0].formats.is_empty());
}

#[test]
fn parses_real_world_entry_ignoring_unrelated_integer_id() {
    let json = r#"{
        "message": "success",
        "data": [{
            "id": 43312892,
            "userId": "a766ea59-1e92-4c56-9ac7-ae6ba4f82d93",
            "productId": "9781835466759",
            "productName": "Build Apps and Fine-Tune LLMs Using the OpenAI API",
            "simplifiedProduct": { "title": "irrelevant nested field" }
        }]
    }"#;
    let (count, books) = parse_products_page(json);
    assert_eq!(count, None);
    assert_eq!(books.len(), 1);
    assert_eq!(books[0].source_id, Some("9781835466759".to_string()));
    assert_eq!(books[0].title, "Build Apps and Fine-Tune LLMs Using the OpenAI API");
    assert_eq!(books[0].isbn, None);
}

#[test]
fn parses_isbn_from_simplified_product() {
    let json = r#"{
        "data": [{
            "productId": "9781835466759",
            "productName": "Build Apps and Fine-Tune LLMs Using the OpenAI API",
            "simplifiedProduct": { "isbn10": "", "isbn13": "9781835466759" }
        }]
    }"#;
    let (_, books) = parse_products_page(json);
    assert_eq!(books[0].isbn, Some("9781835466759".to_string()));
}

#[test]
fn parses_cover_url_preferring_full_size_image() {
    let json = r#"{
        "data": [{
            "productName": "Some Book",
            "simplifiedProduct": {
                "smallImage": "https://content.packt.com/V1/cover_small.jpg",
                "coverImage": "https://content.packt.com/V1/cover.jpg"
            }
        }]
    }"#;
    let (_, books) = parse_products_page(json);
    assert_eq!(books[0].cover_url, Some("https://content.packt.com/V1/cover.jpg".to_string()));
}

#[test]
fn falls_back_to_small_image_when_cover_image_missing() {
    let json = r#"{
        "data": [{
            "productName": "Some Book",
            "simplifiedProduct": { "smallImage": "https://content.packt.com/V1/cover_small.jpg" }
        }]
    }"#;
    let (_, books) = parse_products_page(json);
    assert_eq!(
        books[0].cover_url,
        Some("https://content.packt.com/V1/cover_small.jpg".to_string())
    );
}

#[test]
fn missing_simplified_product_leaves_cover_url_unset() {
    let json = r#"{"data": [{ "productName": "Some Book" }]}"#;
    let (_, books) = parse_products_page(json);
    assert_eq!(books[0].cover_url, None);
}

#[test]
fn empty_isbn13_treated_as_absent() {
    let json = r#"{
        "data": [{
            "productName": "Some Video Course",
            "simplifiedProduct": { "isbn13": "" }
        }]
    }"#;
    let (_, books) = parse_products_page(json);
    assert_eq!(books[0].isbn, None);
}

#[test]
fn missing_id_degrades_to_none_instead_of_failing() {
    let json = r#"{"count": 1, "data": [{ "productName": "Some Book" }]}"#;
    let (_, books) = parse_products_page(json);
    assert_eq!(books[0].source_id, None);
    assert_eq!(books[0].title, "Some Book");
}

#[test]
fn packt_empty_page_parses_cleanly() {
    let json = r#"{"count": 0, "data": []}"#;
    let (count, books) = parse_products_page(json);
    assert_eq!(count, Some(0));
    assert!(books.is_empty());
}

#[test]
fn empty_full_size_image_is_not_replaced_by_the_small_one() {
    let json = r#"{"data": [{ "productName": "B", "simplifiedProduct": { "coverImage": "", "smallImage": "s.jpg" } }]}"#;
    let (_, books) = parse_products_page(json);
    assert_eq!(books[0].cover_url, None);
}

#[test]
fn xsrf_token_extracts_from_jar() {
    assert_eq!(xsrf_token("packt_session=sess123; XSRF-TOKEN=tok456"), Some("tok456"));
    assert_eq!(xsrf_token("XSRF-TOKEN=tok456; packt_session=sess123"), Some("tok456"));
    assert_eq!(xsrf_token("packt_session=sess123"), None);
    assert_eq!(xsrf_token(""), None);
}

#[test]
fn xsrf_token_splits_at_the_first_equals_and_takes_the_first_entry() {
    assert_eq!(xsrf_token("  XSRF-TOKEN=a=b ;XSRF-TOKEN=c"), Some("a=b"));
    assert_eq!(xsrf_token("XSRF-TOKEN"), None);
    assert_eq!(xsrf_token("xsrf-token=lower"), None);
    assert_eq!(xsrf_token("XSRF-TOKEN="), Some(""));
}

#[test]
fn truncate_body_cuts_on_characters() {
    assert_eq!(truncate_body("short", 10), "short");
    assert_eq!(truncate_body("exactly", 7), "exactly");
    assert_eq!(truncate_body("héllo wörld", 5), "héllo...");
}

#[test]
fn paging_stops_on_short_pages_and_on_the_reported_total() {
    assert_eq!(next_offset(0, 100, None, 100), Some(100));
    assert_eq!(next_offset(100, 99, None, 199), None);
    assert_eq!(next_offset(0, 0, None, 0), None);
    assert_eq!(next_offset(0, 100, Some(100), 100), None);
    assert_eq!(next_offset(0, 100, Some(250), 100), Some(100));
}
