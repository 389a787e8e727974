//! Manning: the account dashboard has no JSON API, so owned books are read
//! from its HTML (one table row per licence).

use vstd::prelude::*;

use crate::html::{RowFields, RowFieldsView, selected_rows, select_rows, selector_valid};
use crate::model::{Book, BookView, Source as BookSource};
use crate::sources::Source;
use crate::sources::humble::PageError;
use crate::text::{chars_of, has_prefix, matches_at, skip_chars, str_eq, string_of, trim, trim_seq};

verus! {

/// Imports owned Manning books with the full manning.com cookie jar.
pub struct Manning {
    pub cookies: String,
}

impl Source for Manning {
    open spec fn kind(&self) -> BookSource {
        BookSource::Manning
    }

    fn name(&self) -> (r: &'static str) {
        "manning"
    }
}

/// Selector of one licence row of the dashboard table.
pub const ROW_SELECTOR: &'static str = "#productTable > tbody > tr.license-row";

/// Selector of the title cell inside a row.
pub const TITLE_SELECTOR: &'static str = ".product-title";

/// Selector of the download form inside a row.
pub const FORM_SELECTOR: &'static str = "form.download-form";

/// Row attribute marking an early-access (MEAP) book.
pub const MEAP_ATTRIBUTE: &'static str = "data-is-meap";

/// Form attribute carrying the book's slug.
pub const FORM_NAME_ATTRIBUTE: &'static str = "name";

/// Prefix of the download form's name before the book's slug.
pub const FORM_NAME_PREFIX: &'static str = "downloadForm-";

/// The trimmed title text of a row; empty when the row has no title cell.
pub open spec fn row_title(r: RowFieldsView) -> Seq<char> {
    match r.title_text {
        Some(t) => trim_seq(t),
        None => Seq::empty(),
    }
}

/// The row is flagged as early access (`true` or `1`).
pub open spec fn row_is_meap(r: RowFieldsView) -> bool {
    r.flag matches Some(v) && (v == "true"@ || v == "1"@)
}

/// The book's slug: the download form's name after its `downloadForm-`
/// prefix; none without such a form name.
pub open spec fn row_source_id(r: RowFieldsView) -> Option<Seq<char>> {
    match r.form_name {
        Some(n) => if has_prefix(n, FORM_NAME_PREFIX@) {
            Some(n.skip(FORM_NAME_PREFIX@.len() as int))
        } else {
            None
        },
        None => None,
    }
}

/// The raw data kept for a row: whether it is early access.
pub open spec fn meap_note(meap: bool) -> Seq<char> {
    if meap {
        "is_meap=true"@
    } else {
        "is_meap=false"@
    }
}

/// The book a row stands for; authors, ISBN, formats and cover are not on the
/// dashboard.
pub open spec fn row_book(r: RowFieldsView) -> BookView {
    BookView {
        id: None,
        title: row_title(r),
        authors: Seq::empty(),
        isbn: None,
        source: BookSource::Manning,
        source_id: row_source_id(r),
        formats: Seq::empty(),
        acquired_at: None,
        raw_json: Some(meap_note(row_is_meap(r))),
        cover_url: None,
    }
}

/// The books of the dashboard's rows, in order; rows with an empty title are
/// skipped.
pub open spec fn dashboard_books(rows: Seq<RowFieldsView>) -> Seq<BookView>
    decreases rows.len(),
{
    if rows.len() == 0 {
        Seq::empty()
    } else if row_title(rows.last()).len() == 0 {
        dashboard_books(rows.drop_last())
    } else {
        dashboard_books(rows.drop_last()).push(row_book(rows.last()))
    }
}

fn source_id_of(form_name: &Option<String>) -> (r: Option<String>)
    ensures
        r matches Some(s) ==> row_source_id(RowFieldsView { title_text: None, flag: None, form_name: crate::model::opt_view(*form_name) }) == Some(s@),
        r is None ==> row_source_id(RowFieldsView { title_text: None, flag: None, form_name: crate::model::opt_view(*form_name) }) is None,
{
    match form_name {
        Some(n) => {
            let chars = chars_of(n.as_str());
            let prefix = chars_of(FORM_NAME_PREFIX);
            if matches_at(&chars, &prefix, 0) {
                Some(string_of(skip_chars(&chars, prefix.len()).as_slice()))
            } else {
                None
            }
        },
        None => None,
    }
}

fn is_meap_flag(flag: &Option<String>) -> (r: bool)
    ensures
        r == (crate::model::opt_view(*flag) matches Some(v) && (v == "true"@ || v == "1"@)),
{
    match flag {
        Some(v) => str_eq(v.as_str(), "true") || str_eq(v.as_str(), "1"),
        None => false,
    }
}

/// The books of the dashboard's rows (see [`dashboard_books`]).
pub fn books_from_rows(rows: &Vec<RowFields>) -> (r: Vec<Book>)
    ensures
        r@.map_values(|b: Book| b@) == dashboard_books(rows@.map_values(|f: RowFields| f@)),
{
    let ghost rv = rows@.map_values(|f: RowFields| f@);
    let mut books: Vec<Book> = Vec::new();
    let mut i: usize = 0;
    while i < rows.len()
        invariant
            i <= rows@.len(),
            rv == rows@.map_values(|f: RowFields| f@),
            books@.map_values(|b: Book| b@) == dashboard_books(rv.take(i as int)),
        decreases rows@.len() - i,
    {
        let row = &rows[i];
        assert(rv.take(i + 1).drop_last() =~= rv.take(i as int));
        assert(rv[i as int] == row@);
        let title = match &row.title_text {
            Some(t) => string_of(trim(chars_of(t.as_str()).as_slice()).as_slice()),
            None => String::new(),
        };
        if title.as_str().is_empty() {
            i = i + 1;
            continue;
        }
        let meap = is_meap_flag(&row.flag);
        let note = if meap {
            "is_meap=true".to_owned()
        } else {
            "is_meap=false".to_owned()
        };
        let ghost before = books@.map_values(|b: Book| b@);
        let book = Book {
            id: None,
            title,
            authors: Vec::new(),
            isbn: None,
            source: BookSource::Manning,
            source_id: source_id_of(&row.form_name),
            formats: Vec::new(),
            acquired_at: None,
            raw_json: Some(note),
            cover_url: None,
        };
        books.push(book);
        assert(book@.authors =~= Seq::<Seq<char>>::empty());
        assert(book@.formats =~= Seq::<Seq<char>>::empty());
        assert(book@ == row_book(row@));
        assert(books@.map_values(|b: Book| b@) =~= before.push(row_book(rv[i as int])));
        i = i + 1;
    }
    assert(rv.take(i as int) =~= rv);
    books
}

/// Reads the owned books from the dashboard page: one per licence row with a
/// non-empty title. Fails only if a selector is rejected.
pub fn parse_dashboard_html(html: &str) -> (r: Result<Vec<Book>, PageError>)
    ensures
        r is Ok <==> (selector_valid(ROW_SELECTOR@) && selector_valid(TITLE_SELECTOR@) && selector_valid(FORM_SELECTOR@)),
        r is Err ==> r == Err::<Vec<Book>, PageError>(PageError::InvalidSelector),
        r matches Ok(books) ==> books@.map_values(|b: Book| b@) == dashboard_books(
            selected_rows(html@, ROW_SELECTOR@, TITLE_SELECTOR@, FORM_SELECTOR@, MEAP_ATTRIBUTE@, FORM_NAME_ATTRIBUTE@),
        ),
{
    match select_rows(html, ROW_SELECTOR, TITLE_SELECTOR, FORM_SELECTOR, MEAP_ATTRIBUTE, FORM_NAME_ATTRIBUTE) {
        Ok(rows) => Ok(books_from_rows(&rows)),
        Err(_) => Err(PageError::InvalidSelector),
    }
}

} // verus!
