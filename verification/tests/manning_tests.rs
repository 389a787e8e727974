use library_core::sources::manning::{books_from_rows, parse_dashboard_html};
use library_core::html::RowFields;

const DASHBOARD_FIXTURE: &str = r#"
<html>
  <body>
    <table id="productTable">
      <tbody>
        <tr class="license-row" data-is-meap="false">
          <td class="product-title">Rust in Action</td>
          <td>
            <form class="download-form" name="downloadForm-rust-in-action"></form>
          </td>
        </tr>
        <tr class="license-row" data-is-meap="true">
          <td class="product-title">Zero To Production In Rust</td>
          <td>
            <form class="download-form" name="downloadForm-zero-to-production-in-rust"></form>
          </td>
        </tr>
      </tbody>
    </table>
  </body>
</html>
"#;

#[test]
fn parses_both_book_and_meap_rows() {
    let books = parse_dashboard_html(DASHBOARD_FIXTURE).unwrap();
    assert_eq!(books.len(), 2);
}

#[test]
fn extracts_title_and_source_id() {
    let books = parse_dashboard_html(DASHBOARD_FIXTURE).unwrap();
    let ria = books.iter().find(|b| b.title == "Rust in Action").unwrap();
    assert_eq!(ria.source_id, Some("rust-in-action".to_string()));

    let zero_to_prod = books.iter().find(|b| b.title == "Zero To Production In Rust").unwrap();
    assert_eq!(zero_to_prod.source_id, Some("zero-to-production-in-rust".to_string()));
}

#[test]
fn formats_are_left_empty() {
    let books = parse_dashboard_html(DASHBOARD_FIXTURE).unwrap();
    assert!(books.iter().all(|b| b.formats.is_empty()));
    assert!(books.iter().all(|b| b.authors.is_empty()));
    assert!(books.iter().all(|b| b.isbn.is_none()));
}

#[test]
fn meap_flag_is_kept_as_raw_data() {
    let books = parse_dashboard_html(DASHBOARD_FIXTURE).unwrap();
    assert_eq!(books[0].raw_json, Some("is_meap=false".to_string()));
    assert_eq!(books[1].raw_json, Some("is_meap=true".to_string()));
}

#[test]
fn rows_without_title_are_skipped_and_odd_form_names_give_no_id() {
    let row = |title: Option<&str>, flag: Option<&str>, form: Option<&str>| RowFields {
        title_text: title.map(str::to_string),
        flag: flag.map(str::to_string),
        form_name: form.map(str::to_string),
    };
    let books = books_from_rows(&vec![
        row(Some("   "), None, Some("downloadForm-x")),
        row(None, Some("1"), None),
        row(Some("  Kept Title \n"), Some("1"), Some("otherForm-y")),
    ]);
    assert_eq!(books.len(), 1);
    assert_eq!(books[0].title, "Kept Title");
    assert_eq!(books[0].source_id, None);
    assert_eq!(books[0].raw_json, Some("is_meap=true".to_string()));
}
