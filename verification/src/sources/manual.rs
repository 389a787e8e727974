//! Books entered by hand.

use vstd::prelude::*;

use crate::model::{Book, BookView, Source as BookSource, opt_view, strings_view};

verus! {

/// A hand-entered book: no id yet, no source id (so storing it always adds a
/// new row), no date or raw data.
pub fn build_manual_book(
    title: String,
    authors: Vec<String>,
    isbn: Option<String>,
    formats: Vec<String>,
    cover_url: Option<String>,
) -> (r: Book)
    ensures
        r@ == (BookView {
            id: None,
            title: title@,
            authors: strings_view(authors@),
            isbn: opt_view(isbn),
            source: BookSource::Manual,
            source_id: None,
            formats: strings_view(formats@),
            acquired_at: None,
            raw_json: None,
            cover_url: opt_view(cover_url),
        }),
{
    Book {
        id: None,
        title,
        authors,
        isbn,
        source: BookSource::Manual,
        source_id: None,
        formats,
        acquired_at: None,
        raw_json: None,
        cover_url,
    }
}

} // verus!
