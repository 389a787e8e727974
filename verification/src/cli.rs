//! The command-line front end: its commands, the query candidates it checks,
//! and the text of its listings and reports. Argument parsing, the database
//! and the network are run by the program around it.

use vstd::prelude::*;

use crate::config::Config;
use std::collections::HashMap;

use crate::dedup::{cross_source_duplicates, digits_of, normalize_isbn, owned_elsewhere, sources_in_order};
use crate::model::{Book, BookView, Source, copy_strings, opt_view, source_name, strings_view};
use crate::sources::humble::{BundleItem, Humble};
use crate::sources::kindle::Kindle;
use crate::sources::manning::Manning;
use crate::sources::packt::Packt;
use crate::text::{decimal, i64_string, join, joined, signed_decimal, string_of, take_chars, chars_of, usize_string};

verus! {

/// Global options and the command to run.
pub struct Cli {
    /// Database path override for this run.
    pub db: Option<String>,
    /// Print extra diagnostics.
    pub verbose: bool,
    pub command: Command,
}

/// What to do.
pub enum Command {
    /// Import books from a storefront.
    Import { source: ImportSource },
    /// Add a book by hand.
    Add {
        title: String,
        author: Vec<String>,
        isbn: Option<String>,
        format: Vec<String>,
        cover_url: Option<String>,
    },
    /// List books, optionally of one source.
    List { source: Option<String>, json: bool },
    /// Check whether a title or ISBN is already owned.
    Check { query: String },
    /// Check a bundle's books against the library.
    CheckBundle { url: String, exclude_fiction: bool },
    /// Check every bundle on sale.
    CheckBundles { exclude_fiction: bool },
    /// Per-source counts.
    Stats,
    /// Fill in missing metadata.
    Enrich,
    /// View or change settings.
    Config { action: ConfigAction },
    /// Delete a book by id.
    Remove { id: i64 },
}

/// Where to import from.
pub enum ImportSource {
    Humble,
    Packt,
    Manning,
    /// A CSV file.
    Kindle { file: String },
}

/// Settings changes.
pub enum ConfigAction {
    /// Store the given credentials.
    SetCredentials { humble_cookie: Option<String>, packt_cookies: Option<String>, manning_cookies: Option<String> },
    /// Add a bundle exclude term.
    BundleExcludeAdd { term: String },
    /// Remove a bundle exclude term.
    BundleExcludeRemove { term: String },
    /// List the bundle exclude terms.
    BundleExcludeList,
}

// ---------------------------------------------------------------------------
// Checking a query
// ---------------------------------------------------------------------------

/// The ISBN a query stands for: its digits, when there are exactly 10 or 13.
pub open spec fn query_isbn(query: Seq<char>) -> Option<Seq<char>> {
    let d = digits_of(query);
    if d.len() == 10 || d.len() == 13 {
        Some(d)
    } else {
        None
    }
}

/// The ISBN a title-or-ISBN query stands for (punctuation ignored).
pub fn check_isbn(query: &str) -> (r: Option<String>)
    ensures
        opt_view(r) == query_isbn(query@),
{
    let digits = normalize_isbn(query);
    let n = chars_of(digits.as_str()).len();
    if n == 10 || n == 13 {
        Some(digits)
    } else {
        None
    }
}

/// The hand-entry candidate a query is checked as.
pub open spec fn candidate_view(title: Seq<char>, authors: Seq<Seq<char>>, isbn: Option<Seq<char>>) -> BookView {
    BookView {
        id: None,
        title,
        authors,
        isbn,
        source: Source::Manual,
        source_id: None,
        formats: Seq::empty(),
        acquired_at: None,
        raw_json: None,
        cover_url: None,
    }
}

/// The book a title-or-ISBN query is checked as: the query as its title and,
/// when it holds 10 or 13 digits, those digits as its ISBN.
pub fn check_candidate(query: &str) -> (r: Book)
    ensures
        r@ == candidate_view(query@, Seq::empty(), query_isbn(query@)),
{
    let b = Book {
        id: None,
        title: query.to_owned(),
        authors: Vec::new(),
        isbn: check_isbn(query),
        source: Source::Manual,
        source_id: None,
        formats: Vec::new(),
        acquired_at: None,
        raw_json: None,
        cover_url: None,
    };
    assert(b@.authors =~= Seq::<Seq<char>>::empty());
    assert(b@.formats =~= Seq::<Seq<char>>::empty());
    b
}

/// The book a bundle item is checked as: its title and authors, no ISBN.
pub fn bundle_item_candidate(item: &BundleItem) -> (r: Book)
    ensures
        r@ == candidate_view(item@.title, item@.authors, None),
{
    let b = Book {
        id: None,
        title: item.title.clone(),
        authors: copy_strings(&item.authors),
        isbn: None,
        source: Source::Manual,
        source_id: None,
        formats: Vec::new(),
        acquired_at: None,
        raw_json: None,
        cover_url: None,
    };
    assert(b@.formats =~= Seq::<Seq<char>>::empty());
    b
}

// ---------------------------------------------------------------------------
// Listing
// ---------------------------------------------------------------------------

/// The books of the given source, in order; all of them without a filter.
pub open spec fn listed(books: Seq<Book>, filter: Option<Source>) -> Seq<Book>
    decreases books.len(),
{
    if books.len() == 0 {
        Seq::empty()
    } else if filter matches Some(s) && books.last().source != s {
        listed(books.drop_last(), filter)
    } else {
        listed(books.drop_last(), filter).push(books.last())
    }
}

/// Keeps the books of the filter's source, in order.
pub fn books_for_listing(books: Vec<Book>, filter: Option<Source>) -> (r: Vec<Book>)
    ensures
        r@ == listed(books@, filter),
{
    let ghost all = books@;
    let mut rest = books;
    let mut kept: Vec<Book> = Vec::new();
    let ghost mut done: int = 0;
    while rest.len() > 0
        invariant
            0 <= done <= all.len(),
            rest@ == all.skip(done),
            kept@ == listed(all.take(done), filter),
        decreases rest@.len(),
    {
        assert(done < all.len());
        let book = rest.remove(0);
        assert(all.take(done + 1).drop_last() =~= all.take(done));
        assert(all.skip(done)[0] == book);
        assert(rest@ =~= all.skip(done + 1));
        let keep = match filter {
            Some(s) => book.source == s,
            None => true,
        };
        if keep {
            kept.push(book);
        }
        proof {
            done = done + 1;
        }
    }
    assert(all.take(done) =~= all);
    kept
}

/// The other sources that a book with this id is marked as also owned via,
/// judged across the whole `library` (not just the listed part of it):
/// nothing for a book without an id or that no other source owns.
pub open spec fn also_owned_via(library: Seq<Book>, similar: Seq<Vec<bool>>, id: Option<i64>) -> Option<Seq<Source>> {
    match id {
        Some(i) => if exists|s: Source| owned_elsewhere(library, similar, i, s) {
            Some(sources_in_order(|s: Source| owned_elsewhere(library, similar, i, s)))
        } else {
            None
        },
        None => None,
    }
}

/// A book of a listing, with the other sources that also own it.
pub struct ListedBook {
    pub book: Book,
    pub also_owned: Option<Vec<Source>>,
}

/// The sources held, if any.
pub open spec fn held_sources(v: Option<Vec<Source>>) -> Option<Seq<Source>> {
    match v {
        Some(s) => Some(s@),
        None => None,
    }
}

fn copy_sources(v: &Vec<Source>) -> (r: Vec<Source>)
    ensures
        r@ == v@,
{
    let mut r: Vec<Source> = Vec::new();
    let mut i: usize = 0;
    while i < v.len()
        invariant
            i <= v@.len(),
            r@ == v@.take(i as int),
        decreases v@.len() - i,
    {
        r.push(v[i]);
        assert(v@.take(i + 1) =~= v@.take(i as int).push(v@[i as int]));
        i = i + 1;
    }
    assert(v@.take(i as int) =~= v@);
    r
}

/// The book listing: the books of the filter's source (all of them without a
/// filter), in order, each marked with the other sources that also own it.
/// The marks are found across the whole library before the filter applies, so
/// a book listed for one source is still marked when another source owns it.
/// `similar` is the fuzzy-title verdict for pairs of library positions, as
/// for [`cross_source_duplicates`].
pub fn listing(library: Vec<Book>, similar: &Vec<Vec<bool>>, filter: Option<Source>) -> (r: Vec<ListedBook>)
    ensures
        r@.len() == listed(library@, filter).len(),
        forall|k: int|
            0 <= k < r@.len() ==> (#[trigger] r@[k]).book == listed(library@, filter)[k]
                && held_sources(r@[k].also_owned) == also_owned_via(library@, similar@, listed(library@, filter)[k].id),
{
    broadcast use vstd::std_specs::hash::group_hash_axioms;
    let ghost lib = library@;
    let marks = cross_source_duplicates(library.as_slice(), similar);
    let books = books_for_listing(library, filter);
    let ghost shown = books@;
    let mut rest = books;
    let mut r: Vec<ListedBook> = Vec::new();
    let ghost mut done: int = 0;
    while rest.len() > 0
        invariant
            shown == listed(lib, filter),
            0 <= done <= shown.len(),
            rest@ == shown.skip(done),
            r@.len() == done,
            forall|id: i64|
                #[trigger] marks@.contains_key(id) <==> exists|s: Source| owned_elsewhere(lib, similar@, id, s),
            forall|id: i64|
                #[trigger] marks@.contains_key(id) ==> marks@[id]@ == sources_in_order(
                    |s: Source| owned_elsewhere(lib, similar@, id, s),
                ),
            forall|k: int|
                0 <= k < done ==> (#[trigger] r@[k]).book == shown[k]
                    && held_sources(r@[k].also_owned) == also_owned_via(lib, similar@, shown[k].id),
        decreases rest@.len(),
    {
        assert(shown.skip(done)[0] == rest@[0]);
        let book = rest.remove(0);
        assert(rest@ =~= shown.skip(done + 1));
        let also_owned = match book.id {
            Some(i) => match marks.get(&i) {
                Some(v) => Some(copy_sources(v)),
                None => None,
            },
            None => None,
        };
        r.push(ListedBook { book, also_owned });
        proof {
            done = done + 1;
        }
    }
    r
}

/// `n` spaces.
pub open spec fn spaces(n: nat) -> Seq<char> {
    Seq::new(n, |i: int| ' ')
}

/// `s` left-aligned in a field of `width` characters (`{:<width}`): padded
/// with spaces, never cut.
pub open spec fn padded(s: Seq<char>, width: nat) -> Seq<char> {
    if s.len() >= width {
        s
    } else {
        s + spaces((width - s.len()) as nat)
    }
}

/// Left-aligns `s` in a field of `width` characters.
pub fn pad_right(s: &str, width: usize) -> (r: String)
    ensures
        r@ == padded(s@, width as nat),
{
    let n = chars_of(s).len();
    let mut r = s.to_owned();
    if n >= width {
        return r;
    }
    let mut k: usize = n;
    while k < width
        invariant
            n <= k <= width,
            n == s@.len(),
            r@ == s@ + spaces((k - n) as nat),
        decreases width - k,
    {
        r.append(" ");
        proof {
            reveal_strlit(" ");
        }
        assert(s@ + spaces((k + 1 - n) as nat) =~= (s@ + spaces((k - n) as nat)) + " "@);
        k = k + 1;
    }
    r
}

/// At most `max` characters of `s`: cut to `max - 1` characters and an
/// ellipsis when longer.
pub open spec fn cell_text(s: Seq<char>, max: nat) -> Seq<char> {
    if s.len() <= max {
        s
    } else {
        s.take(if max == 0 { 0 } else { max - 1 }) + seq!['\u{2026}']
    }
}

/// Shortens `s` to at most `max` characters for a table cell, marking a cut
/// with an ellipsis.
pub fn truncate(s: &str, max: usize) -> (r: String)
    ensures
        r@ == cell_text(s@, max as nat),
{
    let chars = chars_of(s);
    if chars.len() <= max {
        return s.to_owned();
    }
    let keep = if max == 0 { 0 } else { max - 1 };
    let mut r = string_of(take_chars(&chars, keep).as_slice());
    r.append("\u{2026}");
    proof {
        reveal_strlit("\u{2026}");
    }
    assert(r@ =~= chars@.take(keep as int) + seq!['\u{2026}']);
    r
}

/// The identifiers of a list of sources.
pub open spec fn source_names(v: Seq<Source>) -> Seq<Seq<char>> {
    v.map_values(|s: Source| source_name(s))
}

/// The note after a listed book that other sources also own it.
pub open spec fn duplicate_note_text(sources: Seq<Source>) -> Seq<char> {
    "  [also owned via: "@ + joined(source_names(sources), ", "@) + "]"@
}

/// The note listing the other sources that own a book.
pub fn duplicate_note(sources: &Vec<Source>) -> (r: String)
    ensures
        r@ == duplicate_note_text(sources@),
{
    let mut names: Vec<String> = Vec::new();
    let mut i: usize = 0;
    while i < sources.len()
        invariant
            i <= sources@.len(),
            strings_view(names@) == source_names(sources@.take(i as int)),
        decreases sources@.len() - i,
    {
        let ghost before = strings_view(names@);
        names.push(sources[i].as_str().to_owned());
        assert(sources@.take(i + 1) =~= sources@.take(i as int).push(sources@[i as int]));
        assert(strings_view(names@) =~= before.push(source_name(sources@[i as int])));
        assert(source_names(sources@.take(i + 1)) =~= source_names(sources@.take(i as int)).push(source_name(sources@[i as int])));
        i = i + 1;
    }
    assert(sources@.take(i as int) =~= sources@);
    let mut r = String::new();
    r.append("  [also owned via: ");
    r.append(join(&names, ", ").as_str());
    r.append("]");
    r
}

/// The header line of the book table.
pub open spec fn list_header_text() -> Seq<char> {
    padded("ID"@, 6) + " "@ + padded("TITLE"@, 50) + " "@ + padded("SOURCE"@, 14) + " "@ + padded("AUTHORS"@, 20) + " FORMATS"@
}

/// The header line of the book table.
pub fn list_header() -> (r: String)
    ensures
        r@ == list_header_text(),
{
    let mut r = pad_right("ID", 6);
    r.append(" ");
    r.append(pad_right("TITLE", 50).as_str());
    r.append(" ");
    r.append(pad_right("SOURCE", 14).as_str());
    r.append(" ");
    r.append(pad_right("AUTHORS", 20).as_str());
    r.append(" FORMATS");
    r
}

/// The id cell: the id, or nothing for an unsaved book.
pub open spec fn id_text(id: Option<i64>) -> Seq<char> {
    match id {
        Some(i) => signed_decimal(i as int),
        None => Seq::empty(),
    }
}

/// One line of the book table: id, title (cut to 50), source, authors (cut
/// to 20), formats, and the note on other sources owning it.
pub open spec fn list_line_text(b: BookView, others: Option<Seq<Source>>) -> Seq<char> {
    padded(id_text(b.id), 6) + " "@ + padded(cell_text(b.title, 50), 50) + " "@ + padded(source_name(b.source), 14) + " "@
        + padded(cell_text(joined(b.authors, ", "@), 20), 20) + " "@ + joined(b.formats, ","@) + match others {
        Some(s) => duplicate_note_text(s),
        None => Seq::empty(),
    }
}

/// One line of the book table for `book`, with the other sources that own
/// it, if any.
pub fn list_line(book: &Book, others: Option<&Vec<Source>>) -> (r: String)
    ensures
        r@ == list_line_text(
            book@,
            match others {
                Some(s) => Some(s@),
                None => None,
            },
        ),
{
    let id = match book.id {
        Some(i) => i64_string(i),
        None => String::new(),
    };
    let mut r = pad_right(id.as_str(), 6);
    r.append(" ");
    r.append(pad_right(truncate(book.title.as_str(), 50).as_str(), 50).as_str());
    r.append(" ");
    r.append(pad_right(book.source.as_str(), 14).as_str());
    r.append(" ");
    r.append(pad_right(truncate(join(&book.authors, ", ").as_str(), 20).as_str(), 20).as_str());
    r.append(" ");
    r.append(join(&book.formats, ",").as_str());
    match others {
        Some(s) => r.append(duplicate_note(s).as_str()),
        None => {},
    }
    r
}

// ---------------------------------------------------------------------------
// Reports
// ---------------------------------------------------------------------------

/// The import report line.
pub open spec fn import_report_text(source: Seq<char>, new_count: nat, updated_count: nat) -> Seq<char> {
    source + ": "@ + decimal(new_count) + " new, "@ + decimal(updated_count) + " updated"@
}

/// The line reporting an import's counts.
pub fn import_report(source: &str, new_count: usize, updated_count: usize) -> (r: String)
    ensures
        r@ == import_report_text(source@, new_count as nat, updated_count as nat),
{
    let mut r = source.to_owned();
    r.append(": ");
    r.append(usize_string(new_count).as_str());
    r.append(" new, ");
    r.append(usize_string(updated_count).as_str());
    r.append(" updated");
    r
}

/// The sum of the counts.
pub open spec fn count_total(stats: Seq<(Source, i64)>) -> int
    decreases stats.len(),
{
    if stats.len() == 0 {
        0
    } else {
        count_total(stats.drop_last()) + stats.last().1
    }
}

/// The total of the per-source counts.
pub fn stats_total(stats: &Vec<(Source, i64)>) -> (r: i64)
    requires
        forall|k: int| 0 <= k <= stats@.len() ==> i64::MIN <= #[trigger] count_total(stats@.take(k)) <= i64::MAX,
    ensures
        r == count_total(stats@),
{
    let mut total: i64 = 0;
    let mut i: usize = 0;
    assert(stats@.take(0) =~= Seq::<(Source, i64)>::empty());
    while i < stats.len()
        invariant
            i <= stats@.len(),
            total == count_total(stats@.take(i as int)),
            forall|k: int| 0 <= k <= stats@.len() ==> i64::MIN <= #[trigger] count_total(stats@.take(k)) <= i64::MAX,
        decreases stats@.len() - i,
    {
        assert(stats@.take(i + 1).drop_last() =~= stats@.take(i as int));
        assert(i64::MIN <= count_total(stats@.take(i + 1)) <= i64::MAX);
        total = total + stats[i].1;
        i = i + 1;
    }
    assert(stats@.take(i as int) =~= stats@);
    total
}

/// One line of the counts table: the label in a 14-wide field, then the count.
pub fn stats_line(label: &str, count: i64) -> (r: String)
    ensures
        r@ == padded(label@, 14) + " "@ + signed_decimal(count as int),
{
    let mut r = pad_right(label, 14);
    r.append(" ");
    r.append(i64_string(count).as_str());
    r
}

// ---------------------------------------------------------------------------
// Choosing the importer
// ---------------------------------------------------------------------------

/// The importer to run, with its credential.
pub enum Importer {
    Humble(Humble),
    Packt(Packt),
    Manning(Manning),
    Kindle(Kindle),
}

/// Why an import cannot start.
#[derive(Debug, Clone, PartialEq, Eq)]
pub enum ImportError {
    /// The source's credential is not configured (the text says how to set it).
    MissingCredential(String),
    /// No CSV file was chosen.
    NoFile,
    /// The source name is not known.
    UnknownSource(String),
}

/// The importer for a command-line import: the source's credential must be
/// configured.
pub fn importer_for(source: &ImportSource, config: &Config) -> (r: Result<Importer, ImportError>)
    ensures
        match source {
            ImportSource::Humble => match config.humble_cookie {
                Some(c) => r matches Ok(Importer::Humble(h)) && h.cookie == c,
                None => r matches Err(ImportError::MissingCredential(m))
                    && m@ == "no Humble Bundle cookie configured. Run: library config set --humble-cookie <value>"@,
            },
            ImportSource::Packt => match config.packt_cookies {
                Some(c) => r matches Ok(Importer::Packt(p)) && p.cookies == c,
                None => r matches Err(ImportError::MissingCredential(m))
                    && m@ == "no Packt cookies configured. Run: library config set --packt-cookies <value>"@,
            },
            ImportSource::Manning => match config.manning_cookies {
                Some(c) => r matches Ok(Importer::Manning(m)) && m.cookies == c,
                None => r matches Err(ImportError::MissingCredential(m))
                    && m@ == "no Manning cookies configured. Run: library config set --manning-cookies <value>"@,
            },
            ImportSource::Kindle { file } => r matches Ok(Importer::Kindle(k)) && k.path == file,
        },
{
    match source {
        ImportSource::Humble => match &config.humble_cookie {
            Some(c) => Ok(Importer::Humble(Humble { cookie: c.clone() })),
            None => Err(ImportError::MissingCredential(
                "no Humble Bundle cookie configured. Run: library config set --humble-cookie <value>".to_owned(),
            )),
        },
        ImportSource::Packt => match &config.packt_cookies {
            Some(c) => Ok(Importer::Packt(Packt { cookies: c.clone() })),
            None => Err(ImportError::MissingCredential(
                "no Packt cookies configured. Run: library config set --packt-cookies <value>".to_owned(),
            )),
        },
        ImportSource::Manning => match &config.manning_cookies {
            Some(c) => Ok(Importer::Manning(Manning { cookies: c.clone() })),
            None => Err(ImportError::MissingCredential(
                "no Manning cookies configured. Run: library config set --manning-cookies <value>".to_owned(),
            )),
        },
        ImportSource::Kindle { file } => Ok(Importer::Kindle(Kindle { path: file.clone() })),
    }
}

} // verus!
