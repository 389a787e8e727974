//! Kindle: there is no usable API, so owned books come from a CSV file the
//! user prepares (columns `title,authors,isbn,formats`; authors and formats
//! `;`-separated; only `title` is required). The caller reads the file.

use vstd::prelude::*;

use crate::dedup::{TitleNormalizer, normalized_title};
use crate::model::{Book, BookView, Source as BookSource, strings_view};
use crate::sources::Source;
use crate::text::{str_eq, chars_of, lowercase_of, split_char, split_on_char, string_of, to_lowercase, trim, trim_seq};

verus! {

/// Imports books listed in a CSV file at `path`.
pub struct Kindle {
    pub path: String,
}

impl Source for Kindle {
    open spec fn kind(&self) -> BookSource {
        BookSource::Kindle
    }

    fn name(&self) -> (r: &'static str) {
        "kindle"
    }
}

#[verifier::external_type_specification]
#[verifier::external_body]
pub struct ExCsvError(csv::Error);

/// The header row and the records that `csv::Reader` (default settings: a
/// header row, `,` delimiter, every record as long as the header) reads from
/// `contents`; `None` when it reports an error.
pub uninterp spec fn csv_table(contents: Seq<char>) -> Option<(Seq<Seq<char>>, Seq<Seq<Seq<char>>>)>;

/// Reads `contents` with `csv::Reader::from_reader`: `Reader::headers`, then
/// every record of `Reader::records`. Claims: the outcome is named
/// `csv_table`; an error comes exactly when `csv_table` has none.
#[verifier::external_body]
fn read_csv(contents: &str) -> (r: Result<(Vec<String>, Vec<Vec<String>>), csv::Error>)
    ensures
        match r {
            Ok((h, rows)) => csv_table(contents@) == Some(
                (strings_view(h@), rows@.map_values(|row: Vec<String>| strings_view(row@))),
            ),
            Err(_) => csv_table(contents@) is None,
        },
{
    let mut reader = csv::Reader::from_reader(contents.as_bytes());
    let headers = reader.headers()?.iter().map(String::from).collect();
    let mut rows = Vec::new();
    for record in reader.records() {
        rows.push(record?.iter().map(String::from).collect());
    }
    Ok((headers, rows))
}

/// The text of a `csv::Error` (its `Display`).
#[verifier::external_body]
fn csv_error_text(e: &csv::Error) -> String {
    e.to_string()
}

/// Why a Kindle CSV file was refused.
#[derive(Debug, Clone, PartialEq, Eq)]
pub enum KindleError {
    /// The CSV reader reported an error (the text is its message).
    Csv(String),
    /// There are records but no `title` column.
    MissingTitle,
    /// A known column appears more than once.
    DuplicateColumn,
}

/// How many header cells are `name`.
pub open spec fn header_count(h: Seq<Seq<char>>, name: Seq<char>) -> nat
    decreases h.len(),
{
    if h.len() == 0 {
        0
    } else {
        header_count(h.drop_last(), name) + if h.last() == name { 1nat } else { 0nat }
    }
}

/// The position of the first header cell `name` (the header's length when
/// there is none).
pub open spec fn header_index(h: Seq<Seq<char>>, name: Seq<char>) -> int
    decreases h.len(),
{
    if h.len() == 0 {
        0
    } else if h[0] == name {
        0
    } else {
        1 + header_index(h.drop_first(), name)
    }
}

/// A record's cell in column `name`; empty when there is no such column.
pub open spec fn column_value(h: Seq<Seq<char>>, row: Seq<Seq<char>>, name: Seq<char>) -> Seq<char> {
    let i = header_index(h, name);
    if header_count(h, name) > 0 && 0 <= i < row.len() {
        row[i]
    } else {
        Seq::empty()
    }
}

/// The non-empty pieces, in order.
pub open spec fn keep_non_empty(ps: Seq<Seq<char>>) -> Seq<Seq<char>>
    decreases ps.len(),
{
    if ps.len() == 0 {
        Seq::empty()
    } else if ps.last().len() == 0 {
        keep_non_empty(ps.drop_last())
    } else {
        keep_non_empty(ps.drop_last()).push(ps.last())
    }
}

/// The authors of a `;`-separated cell: each trimmed, empty ones dropped.
pub open spec fn author_list(cell: Seq<char>) -> Seq<Seq<char>> {
    keep_non_empty(split_char(cell, ';').map_values(|p: Seq<char>| trim_seq(p)))
}

/// The formats of a `;`-separated cell: each trimmed and lowercased, empty
/// ones dropped.
pub open spec fn format_list(cell: Seq<char>) -> Seq<Seq<char>> {
    keep_non_empty(split_char(cell, ';').map_values(|p: Seq<char>| lowercase_of(trim_seq(p))))
}

/// The trimmed ISBN cell, unless blank.
pub open spec fn isbn_cell(cell: Seq<char>) -> Option<Seq<char>> {
    if trim_seq(cell).len() == 0 {
        None
    } else {
        Some(trim_seq(cell))
    }
}

/// The header allows every record to be read: exactly one `title` column, at
/// most one of each other known column.
pub open spec fn headers_usable(h: Seq<Seq<char>>) -> bool {
    &&& header_count(h, "title"@) == 1
    &&& header_count(h, "authors"@) <= 1
    &&& header_count(h, "isbn"@) <= 1
    &&& header_count(h, "formats"@) <= 1
}

/// The book of one record. Keyed on the ISBN when there is one, else on the
/// normalised title, so that importing the same file again updates rows.
pub open spec fn record_book(h: Seq<Seq<char>>, row: Seq<Seq<char>>) -> BookView {
    let title = column_value(h, row, "title"@);
    let isbn = isbn_cell(column_value(h, row, "isbn"@));
    BookView {
        id: None,
        title,
        authors: author_list(column_value(h, row, "authors"@)),
        isbn,
        source: BookSource::Kindle,
        source_id: Some(
            match isbn {
                Some(i) => i,
                None => normalized_title(title),
            },
        ),
        formats: format_list(column_value(h, row, "formats"@)),
        acquired_at: None,
        raw_json: None,
        cover_url: None,
    }
}

/// The outcome of reading a CSV file's text.
pub open spec fn csv_outcome(contents: Seq<char>) -> Option<Seq<BookView>> {
    match csv_table(contents) {
        None => None,
        Some((h, rows)) => table_books(h, rows),
    }
}

/// The books of a table with header row `h` and records `rows`, one per
/// record, in order; nothing when there are records and the headers are not
/// usable.
pub open spec fn table_books(h: Seq<Seq<char>>, rows: Seq<Seq<Seq<char>>>) -> Option<Seq<BookView>> {
    if rows.len() > 0 && !headers_usable(h) {
        None
    } else {
        Some(rows.map_values(|row: Seq<Seq<char>>| record_book(h, row)))
    }
}

/// The records of a table, each as its cells.
pub open spec fn rows_view(rows: Seq<Vec<String>>) -> Seq<Seq<Seq<char>>> {
    rows.map_values(|row: Vec<String>| strings_view(row@))
}

fn count_and_index(h: &Vec<String>, name: &str) -> (r: (usize, usize))
    ensures
        r.0 == header_count(strings_view(h@), name@),
        r.1 == header_index(strings_view(h@), name@),
{
    let ghost hv = strings_view(h@);
    let mut count: usize = 0;
    let mut index: usize = h.len();
    let mut i: usize = 0;
    assert(hv.skip(0) =~= hv);
    assert(hv.take(0) =~= Seq::<Seq<char>>::empty());
    while i < h.len()
        invariant
            i <= h@.len(),
            hv == strings_view(h@),
            count == header_count(hv.take(i as int), name@),
            count <= i,
            count == 0 ==> index == h@.len(),
            count > 0 ==> index < i,
            header_index(hv, name@) == if count > 0 { index as int } else { i + header_index(hv.skip(i as int), name@) },
        decreases h@.len() - i,
    {
        assert(hv.take(i + 1).drop_last() =~= hv.take(i as int));
        assert(hv.skip(i as int).drop_first() =~= hv.skip(i + 1));
        assert(hv.skip(i as int)[0] == h@[i as int]@);
        if str_eq(h[i].as_str(), name) {
            if count == 0 {
                index = i;
            }
            count = count + 1;
        }
        i = i + 1;
    }
    assert(hv.take(i as int) =~= hv);
    (count, index)
}

fn column_cell(row: &Vec<String>, count: usize, index: usize) -> (r: String)
    ensures
        r@ == (if count > 0 && index < row@.len() { row@[index as int]@ } else { Seq::<char>::empty() }),
{
    if count > 0 && index < row.len() {
        row[index].clone()
    } else {
        String::new()
    }
}

fn authors_from(cell: &str) -> (r: Vec<String>)
    ensures
        strings_view(r@) == author_list(cell@),
{
    let pieces = split_on_char(cell, ';');
    let ghost p = split_char(cell@, ';').map_values(|q: Seq<char>| trim_seq(q));
    let mut out: Vec<String> = Vec::new();
    let mut i: usize = 0;
    while i < pieces.len()
        invariant
            i <= pieces@.len(),
            pieces@.map_values(|q: String| q@) == split_char(cell@, ';'),
            p == split_char(cell@, ';').map_values(|q: Seq<char>| trim_seq(q)),
            strings_view(out@) == keep_non_empty(p.take(i as int)),
        decreases pieces@.len() - i,
    {
        let t = string_of(trim(chars_of(pieces[i].as_str()).as_slice()).as_slice());
        assert(p.take(i + 1).drop_last() =~= p.take(i as int));
        assert(p[i as int] == t@);
        if !t.as_str().is_empty() {
            let ghost before = strings_view(out@);
            out.push(t);
            assert(strings_view(out@) =~= before.push(p[i as int]));
        }
        i = i + 1;
    }
    assert(p.take(i as int) =~= p);
    out
}

fn formats_from(cell: &str) -> (r: Vec<String>)
    ensures
        strings_view(r@) == format_list(cell@),
{
    let pieces = split_on_char(cell, ';');
    let ghost p = split_char(cell@, ';').map_values(|q: Seq<char>| lowercase_of(trim_seq(q)));
    let mut out: Vec<String> = Vec::new();
    let mut i: usize = 0;
    while i < pieces.len()
        invariant
            i <= pieces@.len(),
            pieces@.map_values(|q: String| q@) == split_char(cell@, ';'),
            p == split_char(cell@, ';').map_values(|q: Seq<char>| lowercase_of(trim_seq(q))),
            strings_view(out@) == keep_non_empty(p.take(i as int)),
        decreases pieces@.len() - i,
    {
        let trimmed = string_of(trim(chars_of(pieces[i].as_str()).as_slice()).as_slice());
        let t = to_lowercase(trimmed.as_str());
        assert(p.take(i + 1).drop_last() =~= p.take(i as int));
        assert(p[i as int] == t@);
        if !t.as_str().is_empty() {
            let ghost before = strings_view(out@);
            out.push(t);
            assert(strings_view(out@) =~= before.push(p[i as int]));
        }
        i = i + 1;
    }
    assert(p.take(i as int) =~= p);
    out
}

fn isbn_from(cell: &str) -> (r: Option<String>)
    ensures
        crate::model::opt_view(r) == isbn_cell(cell@),
{
    let t = string_of(trim(chars_of(cell).as_slice()).as_slice());
    if t.as_str().is_empty() {
        None
    } else {
        Some(t)
    }
}

/// Reads the books of a Kindle CSV file's text: one per record, in order.
/// Fails when the CSV reader does, and -- only when there are records -- when
/// the `title` column is missing or a known column is repeated.
pub fn parse_csv(csv_contents: &str) -> (r: Result<Vec<Book>, KindleError>)
    ensures
        match r {
            Ok(books) => csv_outcome(csv_contents@) == Some(books@.map_values(|b: Book| b@)),
            Err(KindleError::Csv(_)) => csv_table(csv_contents@) is None,
            Err(KindleError::DuplicateColumn) => csv_table(csv_contents@) matches Some((h, rows)) && rows.len() > 0 && (
                header_count(h, "title"@) > 1 || header_count(h, "authors"@) > 1 || header_count(h, "isbn"@) > 1
                    || header_count(h, "formats"@) > 1),
            Err(KindleError::MissingTitle) => csv_table(csv_contents@) matches Some((h, rows)) && rows.len() > 0 && header_count(h, "title"@)
                == 0 && header_count(h, "authors"@) <= 1 && header_count(h, "isbn"@) <= 1 && header_count(h, "formats"@) <= 1,
        },
        r is Ok <==> csv_outcome(csv_contents@) is Some,
{
    match read_csv(csv_contents) {
        Ok((headers, rows)) => books_from_table(&headers, &rows),
        Err(e) => Err(KindleError::Csv(csv_error_text(&e))),
    }
}

/// The books of a CSV table (its header row and its records): one per
/// record, in order. Fails -- only when there are records -- when a known
/// column is repeated, else when the `title` column is missing.
pub fn books_from_table(headers: &Vec<String>, rows: &Vec<Vec<String>>) -> (r: Result<Vec<Book>, KindleError>)
    ensures
        match r {
            Ok(books) => table_books(strings_view(headers@), rows_view(rows@)) == Some(books@.map_values(|b: Book| b@)),
            Err(KindleError::Csv(_)) => false,
            Err(KindleError::DuplicateColumn) => rows@.len() > 0 && (
                header_count(strings_view(headers@), "title"@) > 1 || header_count(strings_view(headers@), "authors"@) > 1
                    || header_count(strings_view(headers@), "isbn"@) > 1 || header_count(strings_view(headers@), "formats"@) > 1),
            Err(KindleError::MissingTitle) => rows@.len() > 0 && header_count(strings_view(headers@), "title"@) == 0
                && header_count(strings_view(headers@), "authors"@) <= 1 && header_count(strings_view(headers@), "isbn"@) <= 1
                && header_count(strings_view(headers@), "formats"@) <= 1,
        },
        r is Ok <==> table_books(strings_view(headers@), rows_view(rows@)) is Some,
{
    let ghost hv = strings_view(headers@);
    let ghost rv = rows_view(rows@);
    let (tc, ti) = count_and_index(&headers, "title");
    let (ac, ai) = count_and_index(&headers, "authors");
    let (ic, ii) = count_and_index(&headers, "isbn");
    let (fc, fi) = count_and_index(&headers, "formats");
    if rows.len() > 0 && (tc > 1 || ac > 1 || ic > 1 || fc > 1) {
        return Err(KindleError::DuplicateColumn);
    }
    if rows.len() > 0 && tc == 0 {
        return Err(KindleError::MissingTitle);
    }
    let normalizer = TitleNormalizer::new();
    let mut books: Vec<Book> = Vec::new();
    let mut i: usize = 0;
    while i < rows.len()
        invariant
            i <= rows@.len(),
            rows@.len() > 0 ==> headers_usable(hv),
            hv == strings_view(headers@),
            rv == rows@.map_values(|row: Vec<String>| strings_view(row@)),
            tc == header_count(hv, "title"@) && ti == header_index(hv, "title"@),
            ac == header_count(hv, "authors"@) && ai == header_index(hv, "authors"@),
            ic == header_count(hv, "isbn"@) && ii == header_index(hv, "isbn"@),
            fc == header_count(hv, "formats"@) && fi == header_index(hv, "formats"@),
            books@.map_values(|b: Book| b@) == rv.take(i as int).map_values(|row: Seq<Seq<char>>| record_book(hv, row)),
        decreases rows@.len() - i,
    {
        let row = &rows[i];
        assert(rv[i as int] == strings_view(row@));
        let title = column_cell(row, tc, ti);
        let authors = authors_from(column_cell(row, ac, ai).as_str());
        let isbn = isbn_from(column_cell(row, ic, ii).as_str());
        let formats = formats_from(column_cell(row, fc, fi).as_str());
        let source_id = match &isbn {
            Some(s) => s.clone(),
            None => normalizer.normalize(title.as_str()),
        };
        let book = Book {
            id: None,
            title,
            authors,
            isbn,
            source: BookSource::Kindle,
            source_id: Some(source_id),
            formats,
            acquired_at: None,
            raw_json: None,
            cover_url: None,
        };
        assert(book@ == record_book(hv, rv[i as int]));
        let ghost before = books@.map_values(|b: Book| b@);
        books.push(book);
        assert(rv.take(i + 1) =~= rv.take(i as int).push(rv[i as int]));
        assert(rv.take(i + 1).map_values(|row: Seq<Seq<char>>| record_book(hv, row)) =~= rv.take(i as int).map_values(
            |row: Seq<Seq<char>>| record_book(hv, row),
        ).push(record_book(hv, rv[i as int])));
        assert(books@.map_values(|b: Book| b@) =~= before.push(record_book(hv, rv[i as int])));
        i = i + 1;
    }
    assert(rv.take(i as int) =~= rv);
    Ok(books)
}

} // verus!
