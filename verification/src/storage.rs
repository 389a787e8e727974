//! How a book is laid out in a storage row and read back: list fields joined
//! into one text column, the source by its identifier, the acquisition date
//! as ISO text. The database itself is run by the caller.

use chrono::Datelike;
use vstd::prelude::*;

use crate::dedup::{normalize_title, normalized_title};
use crate::model::{Book, BookView, Date, Source, UnknownSource, UpsertOutcome, copy_opt, opt_view, source_name, source_of_name, strings_view};
use crate::text::{contains_seq, digit_char, is_digit, join, joined, lemma_split_joined, split_on, split_pat, unbordered};

verus! {

/// Separator of the authors column.
pub const AUTHOR_SEPARATOR: &'static str = ", ";

/// Separator of the formats column.
pub const FORMAT_SEPARATOR: &'static str = ",";

/// Text layout of the acquisition date column.
pub const DATE_FORMAT: &'static str = "%Y-%m-%d";

/// The list a stored list column holds: nothing for a missing or empty
/// column, else the pieces between separators.
pub open spec fn stored_list(raw: Option<Seq<char>>, sep: Seq<char>) -> Seq<Seq<char>> {
    match raw {
        None => Seq::empty(),
        Some(s) => if s.len() == 0 {
            Seq::empty()
        } else {
            split_pat(s, sep)
        },
    }
}

/// Reads a stored list column back.
pub fn decode_list(raw: &Option<String>, sep: &str) -> (r: Vec<String>)
    requires
        sep@.len() > 0,
    ensures
        strings_view(r@) == stored_list(opt_view(*raw), sep@),
{
    match raw {
        Some(s) => if s.as_str().is_empty() {
            Vec::new()
        } else {
            split_on(s.as_str(), sep)
        },
        None => Vec::new(),
    }
}

/// A list written to a column is read back as it was, whenever none of its
/// items contains the column's separator and it is not the one-item list
/// holding an empty string (stored as an empty column, which reads back as
/// no items).
pub proof fn law_stored_list_round_trip(items: Seq<Seq<char>>, sep: Seq<char>)
    requires
        sep == AUTHOR_SEPARATOR@ || sep == FORMAT_SEPARATOR@,
        forall|i: int| 0 <= i < items.len() ==> !contains_seq(#[trigger] items[i], sep),
        !(items.len() == 1 && items[0].len() == 0),
    ensures
        stored_list(Some(joined(items, sep)), sep) == items,
{
    reveal_strlit(", ");
    reveal_strlit(",");
    assert(sep.len() > 0);
    assert(unbordered(sep)) by {
        assert forall|k: int| 0 < k < sep.len() implies #[trigger] sep.take(k) != sep.skip(sep.len() - k) by {
            assert(sep.take(k)[0] != sep.skip(sep.len() - k)[0]);
        }
    }
    if items.len() == 0 {
        assert(items =~= Seq::<Seq<char>>::empty());
    } else {
        lemma_split_joined(items, sep);
        if items.len() >= 2 {
            crate::text::lemma_joined_front(items, sep);
        }
    }
}

/// The day of `text` when `chrono::NaiveDate::parse_from_str` reads it with
/// `format`, as (year, month, day).
pub uninterp spec fn parsed_date(text: Seq<char>, format: Seq<char>) -> Option<(i32, u32, u32)>;

/// The text `chrono::NaiveDate`'s `Display` gives the day (year, month, day);
/// `None` when `NaiveDate::from_ymd_opt` refuses it as no real day.
pub uninterp spec fn displayed_date(year: i32, month: u32, day: u32) -> Option<Seq<char>>;

/// A leap year of the proleptic Gregorian calendar.
pub open spec fn leap_year(y: int) -> bool {
    (y % 4 == 0 && y % 100 != 0) || y % 400 == 0
}

/// The number of days of month `m` of year `y`.
pub open spec fn days_in_month(y: int, m: int) -> int {
    if m == 2 {
        if leap_year(y) {
            29
        } else {
            28
        }
    } else if m == 4 || m == 6 || m == 9 || m == 11 {
        30
    } else {
        31
    }
}

/// Month `m` of year `y` has a day `d`.
pub open spec fn calendar_day(y: int, m: int, d: int) -> bool {
    1 <= m <= 12 && 1 <= d <= days_in_month(y, m)
}

/// `YYYY-MM-DD` for a year of four digits at most.
pub open spec fn iso_date(y: int, m: int, d: int) -> Seq<char> {
    seq![
        digit_char((y / 1000) as nat),
        digit_char((y / 100 % 10) as nat),
        digit_char((y / 10 % 10) as nat),
        digit_char((y % 10) as nat),
        '-',
        digit_char((m / 10) as nat),
        digit_char((m % 10) as nat),
        '-',
        digit_char((d / 10) as nat),
        digit_char((d % 10) as nat),
    ]
}

/// The value of a decimal digit character.
pub open spec fn digit_value(c: char) -> int {
    c as int - '0' as int
}

/// The day a `YYYY-MM-DD` text (four, two and two ASCII digits) names, when
/// it is a calendar day.
pub open spec fn iso_day_of(t: Seq<char>) -> Option<Date> {
    if t.len() == 10 && is_digit(t[0]) && is_digit(t[1]) && is_digit(t[2]) && is_digit(t[3]) && t[4] == '-'
        && is_digit(t[5]) && is_digit(t[6]) && t[7] == '-' && is_digit(t[8]) && is_digit(t[9]) {
        let y = 1000 * digit_value(t[0]) + 100 * digit_value(t[1]) + 10 * digit_value(t[2]) + digit_value(t[3]);
        let m = 10 * digit_value(t[5]) + digit_value(t[6]);
        let d = 10 * digit_value(t[8]) + digit_value(t[9]);
        if calendar_day(y, m, d) {
            Some(Date { year: y as i32, month: m as u32, day: d as u32 })
        } else {
            None
        }
    } else {
        None
    }
}

/// Calls `chrono::NaiveDate::parse_from_str`; claims the result is named
/// `parsed_date`, and that with the format `%Y-%m-%d` a `YYYY-MM-DD` text of
/// a calendar day reads as that day (`%Y` takes up to four digits without a
/// sign, `%m` and `%d` up to two).
#[verifier::external_body]
fn parse_date(text: &str, format: &str) -> (r: Option<Date>)
    ensures
        match r {
            Some(d) => parsed_date(text@, format@) == Some((d.year, d.month, d.day)),
            None => parsed_date(text@, format@) is None,
        },
        format@ == DATE_FORMAT@ && iso_day_of(text@) is Some ==> r == iso_day_of(text@),
{
    match chrono::NaiveDate::parse_from_str(text, format) {
        Ok(d) => Some(Date { year: d.year(), month: d.month(), day: d.day() }),
        Err(_) => None,
    }
}

/// Calls `chrono::NaiveDate::from_ymd_opt` and formats the day with its
/// `Display`; claims the result is named `displayed_date`, and that for a
/// year from 0 to 9999 the day exists exactly when it is a calendar day and
/// is then shown as `YYYY-MM-DD`.
#[verifier::external_body]
fn date_text(d: Date) -> (r: Option<String>)
    ensures
        opt_view(r) == displayed_date(d.year, d.month, d.day),
        0 <= d.year <= 9999 ==> (r is Some <==> calendar_day(d.year as int, d.month as int, d.day as int)),
        0 <= d.year <= 9999 && calendar_day(d.year as int, d.month as int, d.day as int) ==> opt_view(r) == Some(
            iso_date(d.year as int, d.month as int, d.day as int),
        ),
{
    match chrono::NaiveDate::from_ymd_opt(d.year, d.month, d.day) {
        Some(nd) => Some(nd.to_string()),
        None => None,
    }
}

/// The acquisition date read from its column.
pub open spec fn stored_date(raw: Option<Seq<char>>) -> Option<Date> {
    match raw {
        Some(t) => if iso_day_of(t) is Some {
            iso_day_of(t)
        } else {
            match parsed_date(t, DATE_FORMAT@) {
                Some((y, m, d)) => Some(Date { year: y, month: m, day: d }),
                None => None,
            }
        },
        None => None,
    }
}

/// The acquisition date's column text.
pub open spec fn date_column(d: Option<Date>) -> Option<Seq<char>> {
    match d {
        Some(day) => if 0 <= day.year <= 9999 {
            if calendar_day(day.year as int, day.month as int, day.day as int) {
                Some(iso_date(day.year as int, day.month as int, day.day as int))
            } else {
                None
            }
        } else {
            displayed_date(day.year, day.month, day.day)
        },
        None => None,
    }
}

/// A date that is a calendar day of a year from 0 to 9999.
pub open spec fn four_digit_day(d: Date) -> bool {
    0 <= d.year <= 9999 && calendar_day(d.year as int, d.month as int, d.day as int)
}

/// The column values a book is stored with.
pub struct RowValues {
    pub title: String,
    pub normalized_title: String,
    pub authors: String,
    pub isbn: Option<String>,
    pub source: &'static str,
    pub source_id: Option<String>,
    pub formats: String,
    pub acquired_at: Option<String>,
    pub raw_json: Option<String>,
    pub cover_url: Option<String>,
}

/// The column values of `book`: its fields, the normalised title (indexed for
/// duplicate checks), the lists joined with their separators, the source by
/// its identifier and the date as ISO text.
pub fn row_values(book: &Book) -> (r: RowValues)
    ensures
        r.title@ == book@.title,
        r.normalized_title@ == normalized_title(book@.title),
        r.authors@ == joined(book@.authors, AUTHOR_SEPARATOR@),
        opt_view(r.isbn) == book@.isbn,
        r.source@ == source_name(book@.source),
        opt_view(r.source_id) == book@.source_id,
        r.formats@ == joined(book@.formats, FORMAT_SEPARATOR@),
        opt_view(r.acquired_at) == date_column(book@.acquired_at),
        opt_view(r.raw_json) == book@.raw_json,
        opt_view(r.cover_url) == book@.cover_url,
{
    RowValues {
        title: book.title.clone(),
        normalized_title: normalize_title(book.title.as_str()),
        authors: join(&book.authors, AUTHOR_SEPARATOR),
        isbn: copy_opt(&book.isbn),
        source: book.source.as_str(),
        source_id: copy_opt(&book.source_id),
        formats: join(&book.formats, FORMAT_SEPARATOR),
        acquired_at: match book.acquired_at {
            Some(d) => date_text(d),
            None => None,
        },
        raw_json: copy_opt(&book.raw_json),
        cover_url: copy_opt(&book.cover_url),
    }
}

/// A stored row, as read back.
pub struct StoredRow {
    pub id: i64,
    pub title: String,
    pub authors: Option<String>,
    pub isbn: Option<String>,
    pub source: String,
    pub source_id: Option<String>,
    pub formats: Option<String>,
    pub acquired_at: Option<String>,
    pub raw_json: Option<String>,
    pub cover_url: Option<String>,
}

/// The book a stored row holds, when its source column names a source.
pub open spec fn row_book(row: StoredRow) -> Option<BookView> {
    match source_of_name(row.source@) {
        Some(source) => Some(
            BookView {
                id: Some(row.id),
                title: row.title@,
                authors: stored_list(opt_view(row.authors), AUTHOR_SEPARATOR@),
                isbn: opt_view(row.isbn),
                source,
                source_id: opt_view(row.source_id),
                formats: stored_list(opt_view(row.formats), FORMAT_SEPARATOR@),
                acquired_at: stored_date(opt_view(row.acquired_at)),
                raw_json: opt_view(row.raw_json),
                cover_url: opt_view(row.cover_url),
            },
        ),
        None => None,
    }
}

/// Reads a book back from its row; fails when the source column names no
/// source. A date column that does not parse is read as no date.
pub fn book_from_row(row: StoredRow) -> (r: Result<Book, UnknownSource>)
    ensures
        match r {
            Ok(b) => row_book(row) == Some(b@),
            Err(e) => row_book(row) is None && e.name@ == row.source@,
        },
{
    proof {
        reveal_strlit(", ");
        reveal_strlit(",");
    }
    let source = match Source::from_name(row.source.as_str()) {
        Ok(s) => s,
        Err(e) => return Err(e),
    };
    let authors = decode_list(&row.authors, AUTHOR_SEPARATOR);
    let formats = decode_list(&row.formats, FORMAT_SEPARATOR);
    let acquired_at = match &row.acquired_at {
        Some(t) => parse_date(t.as_str(), DATE_FORMAT),
        None => None,
    };
    Ok(Book {
        id: Some(row.id),
        title: row.title,
        authors,
        isbn: row.isbn,
        source,
        source_id: row.source_id,
        formats,
        acquired_at,
        raw_json: row.raw_json,
        cover_url: row.cover_url,
    })
}

/// Whether storing a book created its row or refreshed one: a book keyed by a
/// source id that was already stored is an update of that row.
pub fn upsert_outcome(existing_id: Option<i64>, id: i64) -> (r: UpsertOutcome)
    ensures
        existing_id is Some ==> r == UpsertOutcome::Updated(id),
        existing_id is None ==> r == UpsertOutcome::Inserted(id),
{
    match existing_id {
        Some(_) => UpsertOutcome::Updated(id),
        None => UpsertOutcome::Inserted(id),
    }
}

/// Per-source counts read back from their rows, in order; fails at the first
/// name that is no source's identifier.
pub fn source_counts(rows: &Vec<(String, i64)>) -> (r: Result<Vec<(Source, i64)>, UnknownSource>)
    ensures
        match r {
            Ok(v) => v@.len() == rows@.len() && forall|i: int|
                0 <= i < rows@.len() ==> source_of_name((#[trigger] rows@[i]).0@) == Some(v@[i].0) && v@[i].1 == rows@[i].1,
            Err(e) => exists|i: int|
                0 <= i < rows@.len() && source_of_name((#[trigger] rows@[i]).0@) is None && e.name@ == rows@[i].0@,
        },
{
    let mut out: Vec<(Source, i64)> = Vec::new();
    let mut i: usize = 0;
    while i < rows.len()
        invariant
            i <= rows@.len(),
            out@.len() == i,
            forall|k: int| 0 <= k < i ==> source_of_name((#[trigger] rows@[k]).0@) == Some(out@[k].0) && out@[k].1 == rows@[k].1,
        decreases rows@.len() - i,
    {
        let (name, count) = &rows[i];
        match Source::from_name(name.as_str()) {
            Ok(s) => out.push((s, *count)),
            Err(e) => {
                assert(source_of_name(rows@[i as int].0@) is None);
                return Err(e);
            },
        }
        i = i + 1;
    }
    Ok(out)
}


/// What a read gives back of a write: a row holding the column values
/// `row_values` gives a book reads back as that book, with the row's id --
/// whenever its lists survive their separators (no author contains `, `, no
/// format contains `,`, neither list is one empty string) and its
/// acquisition date, if any, is a calendar day of a year from 0 to 9999.
pub proof fn law_row_round_trip(b: BookView, row: StoredRow)
    requires
        row.title@ == b.title,
        row.authors matches Some(a) && a@ == joined(b.authors, AUTHOR_SEPARATOR@),
        opt_view(row.isbn) == b.isbn,
        row.source@ == source_name(b.source),
        opt_view(row.source_id) == b.source_id,
        row.formats matches Some(f) && f@ == joined(b.formats, FORMAT_SEPARATOR@),
        b.acquired_at matches Some(d) ==> four_digit_day(d),
        opt_view(row.acquired_at) == date_column(b.acquired_at),
        opt_view(row.raw_json) == b.raw_json,
        opt_view(row.cover_url) == b.cover_url,
        forall|k: int| 0 <= k < b.authors.len() ==> !contains_seq(#[trigger] b.authors[k], AUTHOR_SEPARATOR@),
        !(b.authors.len() == 1 && b.authors[0].len() == 0),
        forall|k: int| 0 <= k < b.formats.len() ==> !contains_seq(#[trigger] b.formats[k], FORMAT_SEPARATOR@),
        !(b.formats.len() == 1 && b.formats[0].len() == 0),
    ensures
        row_book(row) == Some(
            BookView {
                id: Some(row.id),
                title: b.title,
                authors: b.authors,
                isbn: b.isbn,
                source: b.source,
                source_id: b.source_id,
                formats: b.formats,
                acquired_at: b.acquired_at,
                raw_json: b.raw_json,
                cover_url: b.cover_url,
            },
        ),
{
    crate::model::law_source_name_round_trip(b.source);
    if let Some(d) = b.acquired_at {
        law_iso_date_round_trip(d);
    }
    law_stored_list_round_trip(b.authors, AUTHOR_SEPARATOR@);
    law_stored_list_round_trip(b.formats, FORMAT_SEPARATOR@);
}


/// The `YYYY-MM-DD` text of a calendar day of a year from 0 to 9999 names
/// that day again.
pub proof fn law_iso_date_round_trip(d: Date)
    requires
        four_digit_day(d),
    ensures
        iso_day_of(iso_date(d.year as int, d.month as int, d.day as int)) == Some(d),
{
    let y = d.year as int;
    let m = d.month as int;
    let dd = d.day as int;
    let t = iso_date(y, m, dd);
    assert(0 <= y / 1000 < 10 && 0 <= y / 100 % 10 < 10 && 0 <= y / 10 % 10 < 10 && 0 <= y % 10 < 10);
    assert(0 <= m / 10 < 10 && 0 <= m % 10 < 10 && 0 <= dd / 10 < 10 && 0 <= dd % 10 < 10);
    assert(digit_value(t[0]) == y / 1000);
    assert(digit_value(t[1]) == y / 100 % 10);
    assert(digit_value(t[2]) == y / 10 % 10);
    assert(digit_value(t[3]) == y % 10);
    assert(digit_value(t[5]) == m / 10);
    assert(digit_value(t[6]) == m % 10);
    assert(digit_value(t[8]) == dd / 10);
    assert(digit_value(t[9]) == dd % 10);
    assert(1000 * (y / 1000) + 100 * (y / 100 % 10) + 10 * (y / 10 % 10) + y % 10 == y) by (nonlinear_arith)
        requires
            0 <= y <= 9999,
    ;
    assert(10 * (m / 10) + m % 10 == m) by (nonlinear_arith)
        requires
            0 <= m,
    ;
    assert(10 * (dd / 10) + dd % 10 == dd) by (nonlinear_arith)
        requires
            0 <= dd,
    ;
}

} // verus!
