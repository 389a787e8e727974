//! Metadata enrichment: filling in missing authors, ISBN and cover art from
//! Open Library, deciding per book what to look up and what to write back.
//! Existing data is never overwritten. The lookups themselves (HTTP requests,
//! pacing) are performed by the caller, which hands each result back here.

use vstd::prelude::*;

use crate::model::{Book, BookView, copy_opt, copy_strings, opt_view, strings_view};
use crate::text::{chars_of, decimal, decimal_string, is_digit};

verus! {

/// What a lookup found for one book; any field may be empty.
#[derive(Debug, Clone, Default)]
pub struct FoundMetadata {
    pub authors: Vec<String>,
    pub isbn: Option<String>,
    pub cover_url: Option<String>,
}

/// The content of a [`FoundMetadata`].
pub struct FoundView {
    pub authors: Seq<Seq<char>>,
    pub isbn: Option<Seq<char>>,
    pub cover_url: Option<Seq<char>>,
}

impl View for FoundMetadata {
    type V = FoundView;

    open spec fn view(&self) -> FoundView {
        FoundView { authors: strings_view(self.authors@), isbn: opt_view(self.isbn), cover_url: opt_view(self.cover_url) }
    }
}

/// A lookup that failed (network or parse error), as opposed to one that
/// found nothing.
#[derive(Debug, Clone, Copy, PartialEq, Eq, Structural)]
pub struct LookupFailed;

/// Fields to write back to one book; absent fields are left untouched.
#[derive(Debug, Clone)]
pub struct MetadataUpdate {
    pub authors: Option<Vec<String>>,
    pub isbn: Option<String>,
    pub cover_url: Option<String>,
}

/// The content of a [`MetadataUpdate`].
pub struct UpdateView {
    pub authors: Option<Seq<Seq<char>>>,
    pub isbn: Option<Seq<char>>,
    pub cover_url: Option<Seq<char>>,
}

impl View for MetadataUpdate {
    type V = UpdateView;

    open spec fn view(&self) -> UpdateView {
        UpdateView {
            authors: match self.authors {
                Some(a) => Some(strings_view(a@)),
                None => None,
            },
            isbn: opt_view(self.isbn),
            cover_url: opt_view(self.cover_url),
        }
    }
}

/// How one book's enrichment ended.
pub enum BookOutcome {
    /// Some missing field was found: write these back.
    Updated(MetadataUpdate),
    /// Nothing usable was found.
    NotFound,
    /// The lookup itself failed.
    Failed,
}

/// The content of a [`BookOutcome`].
pub enum OutcomeView {
    Updated(UpdateView),
    NotFound,
    Failed,
}

impl View for BookOutcome {
    type V = OutcomeView;

    open spec fn view(&self) -> OutcomeView {
        match self {
            BookOutcome::Updated(u) => OutcomeView::Updated(u@),
            BookOutcome::NotFound => OutcomeView::NotFound,
            BookOutcome::Failed => OutcomeView::Failed,
        }
    }
}

/// The author list is missing.
pub open spec fn needs_authors(b: BookView) -> bool {
    b.authors.len() == 0
}

/// The ISBN is missing.
pub open spec fn needs_isbn(b: BookView) -> bool {
    b.isbn is None
}

/// The cover is missing.
pub open spec fn needs_cover(b: BookView) -> bool {
    b.cover_url is None
}

/// Something is missing.
pub open spec fn has_gap(b: BookView) -> bool {
    needs_authors(b) || needs_isbn(b) || needs_cover(b)
}

/// What to look up for one book.
pub enum EnrichPlan {
    /// Nothing is missing, or the book has no id to write back to.
    Skip,
    /// Only the cover is missing and the ISBN is known: look the cover up by
    /// ISBN directly, no title search.
    CoverByIsbn { id: i64, isbn: String },
    /// Search by title.
    ByTitle { id: i64, title: String },
}

/// Decides what to look up for a book.
pub fn enrichment_plan(book: &Book) -> (r: EnrichPlan)
    ensures
        (!has_gap(book@) || book@.id is None) <==> r is Skip,
        r matches EnrichPlan::CoverByIsbn { id, isbn } ==> {
            &&& book@.id == Some(id)
            &&& !needs_authors(book@) && !needs_isbn(book@) && needs_cover(book@)
            &&& book@.isbn == Some(isbn@)
        },
        r matches EnrichPlan::ByTitle { id, title } ==> {
            &&& book@.id == Some(id)
            &&& (needs_authors(book@) || needs_isbn(book@))
            &&& title@ == book@.title
        },
        (has_gap(book@) && book@.id is Some) ==> ((!needs_authors(book@) && !needs_isbn(book@)) <==> r is CoverByIsbn),
{
    let needs_authors = book.authors.len() == 0;
    let needs_isbn = book.isbn.is_none();
    let needs_cover = book.cover_url.is_none();
    if !needs_authors && !needs_isbn && !needs_cover {
        return EnrichPlan::Skip;
    }
    let id = match book.id {
        Some(id) => id,
        None => return EnrichPlan::Skip,
    };
    if !needs_authors && !needs_isbn && needs_cover {
        match &book.isbn {
            Some(isbn) => EnrichPlan::CoverByIsbn { id, isbn: isbn.clone() },
            None => EnrichPlan::Skip,
        }
    } else {
        EnrichPlan::ByTitle { id, title: book.title.clone() }
    }
}

/// An update that carries at least one field is written back; an empty one
/// counts as nothing found.
pub open spec fn finalize(u: UpdateView) -> OutcomeView {
    if u.authors is Some || u.isbn is Some || u.cover_url is Some {
        OutcomeView::Updated(u)
    } else {
        OutcomeView::NotFound
    }
}

fn finalize_update(u: MetadataUpdate) -> (r: BookOutcome)
    ensures
        r@ == finalize(u@),
{
    if u.authors.is_some() || u.isbn.is_some() || u.cover_url.is_some() {
        BookOutcome::Updated(u)
    } else {
        BookOutcome::NotFound
    }
}

/// The outcome of a cover-only lookup by ISBN.
pub open spec fn cover_only_outcome(found: Result<Option<Seq<char>>, LookupFailed>) -> OutcomeView {
    match found {
        Ok(Some(url)) => OutcomeView::Updated(UpdateView { authors: None, isbn: None, cover_url: Some(url) }),
        Ok(None) => OutcomeView::NotFound,
        Err(_) => OutcomeView::Failed,
    }
}

/// The characters of an optional lookup result.
pub open spec fn found_url(r: Result<Option<String>, LookupFailed>) -> Result<Option<Seq<char>>, LookupFailed> {
    match r {
        Ok(o) => Ok(opt_view(o)),
        Err(e) => Err(e),
    }
}

/// Interprets the result of a cover-only lookup by ISBN.
pub fn cover_lookup_outcome(found: Result<Option<String>, LookupFailed>) -> (r: BookOutcome)
    ensures
        r@ == cover_only_outcome(found_url(found)),
{
    match found {
        Ok(Some(url)) => BookOutcome::Updated(MetadataUpdate { authors: None, isbn: None, cover_url: Some(url) }),
        Ok(None) => BookOutcome::NotFound,
        Err(_) => BookOutcome::Failed,
    }
}

/// After a title search: the outcome, or a cover lookup by ISBN still to do.
pub enum TitleNext {
    Done(BookOutcome),
    /// Look the cover up by this ISBN; `pending` holds the authors/ISBN to
    /// write and, as its cover, the search result's own cover as a fallback.
    CoverByIsbn { isbn: String, pending: MetadataUpdate },
}

/// The content of a [`TitleNext`].
pub enum TitleNextView {
    Done(OutcomeView),
    CoverByIsbn { isbn: Seq<char>, pending: UpdateView },
}

impl View for TitleNext {
    type V = TitleNextView;

    open spec fn view(&self) -> TitleNextView {
        match self {
            TitleNext::Done(o) => TitleNextView::Done(o@),
            TitleNext::CoverByIsbn { isbn, pending } => TitleNextView::CoverByIsbn { isbn: isbn@, pending: pending@ },
        }
    }
}

/// The found authors, only when the book has none and something was found.
pub open spec fn proposed_authors(b: BookView, f: FoundView) -> Option<Seq<Seq<char>>> {
    if needs_authors(b) && f.authors.len() > 0 {
        Some(f.authors)
    } else {
        None
    }
}

/// The found ISBN, only when the book has none.
pub open spec fn proposed_isbn(b: BookView, f: FoundView) -> Option<Seq<char>> {
    if needs_isbn(b) {
        f.isbn
    } else {
        None
    }
}

/// The ISBN to look a missing cover up by: the book's own, else the one just
/// found; none when the cover is not missing.
pub open spec fn cover_isbn(b: BookView, f: FoundView) -> Option<Seq<char>> {
    if needs_cover(b) {
        match b.isbn {
            Some(i) => Some(i),
            None => proposed_isbn(b, f),
        }
    } else {
        None
    }
}

/// The step after a title search.
pub open spec fn title_step(b: BookView, found: Result<Option<FoundView>, LookupFailed>) -> TitleNextView {
    match found {
        Err(_) => TitleNextView::Done(OutcomeView::Failed),
        Ok(None) => TitleNextView::Done(OutcomeView::NotFound),
        Ok(Some(f)) => match cover_isbn(b, f) {
            Some(i) => TitleNextView::CoverByIsbn {
                isbn: i,
                pending: UpdateView { authors: proposed_authors(b, f), isbn: proposed_isbn(b, f), cover_url: f.cover_url },
            },
            None => TitleNextView::Done(finalize(UpdateView {
                authors: proposed_authors(b, f),
                isbn: proposed_isbn(b, f),
                cover_url: if needs_cover(b) { f.cover_url } else { None },
            })),
        },
    }
}

/// The content of a title search result.
pub open spec fn found_view(r: Result<Option<FoundMetadata>, LookupFailed>) -> Result<Option<FoundView>, LookupFailed> {
    match r {
        Ok(Some(f)) => Ok(Some(f@)),
        Ok(None) => Ok(None),
        Err(e) => Err(e),
    }
}

/// Interprets the result of a title search for `book`: which of the found
/// fields fill a gap, and whether the cover is still to be looked up by ISBN
/// (preferred over the search result's own cover whenever an ISBN is known).
pub fn title_lookup_next(book: &Book, found: Result<Option<FoundMetadata>, LookupFailed>) -> (r: TitleNext)
    ensures
        r@ == title_step(book@, found_view(found)),
{
    let f = match found {
        Err(_) => return TitleNext::Done(BookOutcome::Failed),
        Ok(None) => return TitleNext::Done(BookOutcome::NotFound),
        Ok(Some(f)) => f,
    };
    let needs_authors = book.authors.len() == 0;
    let needs_isbn = book.isbn.is_none();
    let needs_cover = book.cover_url.is_none();
    let authors = if needs_authors && f.authors.len() > 0 {
        Some(copy_strings(&f.authors))
    } else {
        None
    };
    let isbn = if needs_isbn {
        copy_opt(&f.isbn)
    } else {
        None
    };
    if needs_cover {
        let by_isbn = match &book.isbn {
            Some(i) => Some(i.clone()),
            None => copy_opt(&isbn),
        };
        match by_isbn {
            Some(i) => TitleNext::CoverByIsbn { isbn: i, pending: MetadataUpdate { authors, isbn, cover_url: f.cover_url } },
            None => TitleNext::Done(finalize_update(MetadataUpdate { authors, isbn, cover_url: f.cover_url })),
        }
    } else {
        TitleNext::Done(finalize_update(MetadataUpdate { authors, isbn, cover_url: None }))
    }
}

/// The outcome once the cover lookup by ISBN after a title search returned:
/// a cover found by ISBN wins; otherwise (nothing found, or the lookup failed)
/// the title search's own cover is kept.
pub open spec fn title_cover_outcome(pending: UpdateView, cover: Result<Option<Seq<char>>, LookupFailed>) -> OutcomeView {
    finalize(UpdateView {
        authors: pending.authors,
        isbn: pending.isbn,
        cover_url: match cover {
            Ok(Some(url)) => Some(url),
            _ => pending.cover_url,
        },
    })
}

/// Completes a title-search enrichment with the result of the cover lookup.
pub fn finish_with_cover(pending: MetadataUpdate, cover: Result<Option<String>, LookupFailed>) -> (r: BookOutcome)
    ensures
        r@ == title_cover_outcome(pending@, found_url(cover)),
{
    let cover_url = match cover {
        Ok(Some(url)) => Some(url),
        _ => pending.cover_url,
    };
    finalize_update(MetadataUpdate { authors: pending.authors, isbn: pending.isbn, cover_url })
}

/// Summary of an enrichment run.
#[derive(Debug, Clone, Copy, Default)]
pub struct EnrichSummary {
    /// Books with a gap that were looked up.
    pub checked: usize,
    /// Of those, how many got at least one field filled in.
    pub updated: usize,
    /// Of those, how many had no usable match.
    pub not_found: usize,
    /// Of those, how many lookups failed.
    pub errors: usize,
}

impl EnrichSummary {
    /// Every checked book is counted under exactly one outcome.
    pub open spec fn consistent(&self) -> bool {
        self.checked == self.updated + self.not_found + self.errors
    }

    /// A summary with nothing counted yet.
    pub fn new() -> (r: EnrichSummary)
        ensures
            r.checked == 0 && r.updated == 0 && r.not_found == 0 && r.errors == 0,
            r.consistent(),
    {
        EnrichSummary { checked: 0, updated: 0, not_found: 0, errors: 0 }
    }

    /// Counts one checked book under its outcome.
    pub fn record(&mut self, outcome: &BookOutcome)
        requires
            old(self).checked < usize::MAX,
            old(self).consistent(),
        ensures
            final(self).checked == old(self).checked + 1,
            final(self).updated == old(self).updated + (if outcome is Updated { 1usize } else { 0 }),
            final(self).not_found == old(self).not_found + (if outcome is NotFound { 1usize } else { 0 }),
            final(self).errors == old(self).errors + (if outcome is Failed { 1usize } else { 0 }),
            final(self).consistent(),
    {
        self.checked = self.checked + 1;
        match outcome {
            BookOutcome::Updated(_) => self.updated = self.updated + 1,
            BookOutcome::NotFound => self.not_found = self.not_found + 1,
            BookOutcome::Failed => self.errors = self.errors + 1,
        }
    }
}

/// An update writes only fields the book was missing.
pub open spec fn fills_only_gaps(b: BookView, u: UpdateView) -> bool {
    &&& u.authors is Some ==> needs_authors(b)
    &&& u.isbn is Some ==> needs_isbn(b)
    &&& u.cover_url is Some ==> needs_cover(b)
}

/// Enrichment never overwrites existing data: whatever the lookups return,
/// every update that results -- from a cover-only lookup (planned only when the
/// cover alone is missing), directly from a title search, or from a title
/// search followed by a cover lookup -- fills only fields the book was missing.
pub proof fn law_enrichment_fills_only_gaps(
    b: BookView,
    cover_only: Result<Option<Seq<char>>, LookupFailed>,
    found: Result<Option<FoundView>, LookupFailed>,
    cover_after: Result<Option<Seq<char>>, LookupFailed>,
)
    ensures
        (!needs_authors(b) && !needs_isbn(b) && needs_cover(b)) ==> (cover_only_outcome(cover_only) matches OutcomeView::Updated(u) ==> fills_only_gaps(b, u)),
        title_step(b, found) matches TitleNextView::Done(OutcomeView::Updated(u)) ==> fills_only_gaps(b, u),
        title_step(b, found) matches TitleNextView::CoverByIsbn { isbn, pending } ==> (title_cover_outcome(pending, cover_after) matches OutcomeView::Updated(u) ==> fills_only_gaps(b, u)),
{
}

/// A title search for a book that lacks a cover writes the search result's
/// own cover when no ISBN is known at all (neither the book's nor a found
/// one); otherwise it asks for the cover by that ISBN -- the book's own ISBN
/// first -- and keeps the search result's cover in hand as the fallback.
pub proof fn law_title_search_cover(b: BookView, f: FoundView)
    requires
        needs_cover(b),
    ensures
        (b.isbn is None && f.isbn is None) ==> (title_step(b, Ok(Some(f))) matches TitleNextView::Done(o) && (f.cover_url is Some
            ==> o == OutcomeView::Updated(UpdateView { authors: proposed_authors(b, f), isbn: None, cover_url: f.cover_url }))),
        b.isbn matches Some(i) ==> (title_step(b, Ok(Some(f))) matches TitleNextView::CoverByIsbn { isbn, pending } && isbn == i
            && pending.cover_url == f.cover_url && pending.isbn is None),
        (b.isbn is None && f.isbn is Some) ==> (title_step(b, Ok(Some(f))) matches TitleNextView::CoverByIsbn { isbn, pending }
            && Some(isbn) == f.isbn && pending.cover_url == f.cover_url && pending.isbn == f.isbn),
{
}

/// After a title search, the cover lookup by ISBN decides only the cover: a
/// cover it finds replaces the search result's, and when it finds nothing or
/// fails the update from the title search is written as it stands, its cover
/// included. Finding nothing and failing end alike.
pub proof fn law_cover_lookup_fallback(p: UpdateView, url: Seq<char>)
    ensures
        title_cover_outcome(p, Ok(None)) == title_cover_outcome(p, Err(LookupFailed)),
        p.cover_url is Some ==> title_cover_outcome(p, Ok(None)) == OutcomeView::Updated(p),
        title_cover_outcome(p, Ok(Some(url))) == OutcomeView::Updated(
            UpdateView { authors: p.authors, isbn: p.isbn, cover_url: Some(url) },
        ),
{
}

/// The book after `u` is written to it: each field the update carries
/// replaces the book's, every other field is kept.
pub open spec fn updated_book(b: BookView, u: UpdateView) -> BookView {
    BookView {
        id: b.id,
        title: b.title,
        authors: match u.authors {
            Some(a) => a,
            None => b.authors,
        },
        isbn: match u.isbn {
            Some(i) => Some(i),
            None => b.isbn,
        },
        source: b.source,
        source_id: b.source_id,
        formats: b.formats,
        acquired_at: b.acquired_at,
        raw_json: b.raw_json,
        cover_url: match u.cover_url {
            Some(c) => Some(c),
            None => b.cover_url,
        },
    }
}

/// `a` is `b` with at most its gaps filled: identity, title, source, formats,
/// acquisition date and raw record unchanged, and an author list, ISBN or
/// cover that `b` had kept as it was.
pub open spec fn keeps_existing_data(b: BookView, a: BookView) -> bool {
    &&& a.id == b.id
    &&& a.title == b.title
    &&& a.source == b.source
    &&& a.source_id == b.source_id
    &&& a.formats == b.formats
    &&& a.acquired_at == b.acquired_at
    &&& a.raw_json == b.raw_json
    &&& !needs_authors(b) ==> a.authors == b.authors
    &&& !needs_isbn(b) ==> a.isbn == b.isbn
    &&& !needs_cover(b) ==> a.cover_url == b.cover_url
}

/// The book as it stands once `update` is written to it.
pub fn enriched_book(book: &Book, update: &MetadataUpdate) -> (r: Book)
    ensures
        r@ == updated_book(book@, update@),
{
    Book {
        id: book.id,
        title: book.title.clone(),
        authors: match &update.authors {
            Some(a) => copy_strings(a),
            None => copy_strings(&book.authors),
        },
        isbn: match &update.isbn {
            Some(i) => Some(i.clone()),
            None => copy_opt(&book.isbn),
        },
        source: book.source,
        source_id: copy_opt(&book.source_id),
        formats: copy_strings(&book.formats),
        acquired_at: book.acquired_at,
        raw_json: copy_opt(&book.raw_json),
        cover_url: match &update.cover_url {
            Some(c) => Some(c.clone()),
            None => copy_opt(&book.cover_url),
        },
    }
}

/// Enrichment never overwrites existing data, stated of the book as stored
/// afterwards: whatever the lookups return, writing the update that results
/// (from a cover-only lookup, from a title search, or from a title search
/// followed by a cover lookup) leaves the book with only its gaps filled.
pub proof fn law_enriched_book_keeps_existing_data(
    b: BookView,
    cover_only: Result<Option<Seq<char>>, LookupFailed>,
    found: Result<Option<FoundView>, LookupFailed>,
    cover_after: Result<Option<Seq<char>>, LookupFailed>,
)
    ensures
        (!needs_authors(b) && !needs_isbn(b) && needs_cover(b)) ==> (cover_only_outcome(cover_only) matches OutcomeView::Updated(u)
            ==> keeps_existing_data(b, updated_book(b, u))),
        title_step(b, found) matches TitleNextView::Done(OutcomeView::Updated(u)) ==> keeps_existing_data(b, updated_book(b, u)),
        title_step(b, found) matches TitleNextView::CoverByIsbn { isbn, pending } ==> (title_cover_outcome(pending, cover_after)
            matches OutcomeView::Updated(u) ==> keeps_existing_data(b, updated_book(b, u))),
{
    law_enrichment_fills_only_gaps(b, cover_only, found, cover_after);
}

/// An ISBN-13 candidate: thirteen ASCII digits.
pub open spec fn isbn13_shaped(s: Seq<char>) -> bool {
    s.len() == 13 && forall|i: int| 0 <= i < s.len() ==> is_digit(#[trigger] s[i])
}

/// An ISBN-10 candidate: nine ASCII digits and a check character that is a
/// digit or `X`/`x` (the value ten).
pub open spec fn isbn10_shaped(s: Seq<char>) -> bool {
    &&& s.len() == 10
    &&& forall|i: int| 0 <= i < 9 ==> is_digit(#[trigger] s[i])
    &&& (is_digit(s[9]) || s[9] == 'X' || s[9] == 'x')
}

fn all_digits(chars: &Vec<char>, end: usize) -> (r: bool)
    requires
        end <= chars@.len(),
    ensures
        r == forall|i: int| 0 <= i < end ==> is_digit(#[trigger] chars@[i]),
{
    let mut i: usize = 0;
    while i < end
        invariant
            i <= end <= chars@.len(),
            forall|k: int| 0 <= k < i ==> is_digit(#[trigger] chars@[k]),
        decreases end - i,
    {
        let c = chars[i];
        if !('0' <= c && c <= '9') {
            return false;
        }
        i = i + 1;
    }
    true
}

/// Whether `s` is shaped like an ISBN-13.
pub fn is_isbn13(s: &str) -> (r: bool)
    ensures
        r == isbn13_shaped(s@),
{
    let chars = chars_of(s);
    chars.len() == 13 && all_digits(&chars, 13)
}

/// Whether `s` is shaped like an ISBN-10; any other string, whatever
/// characters it holds, is simply not one.
pub fn is_isbn10(s: &str) -> (r: bool)
    ensures
        r == isbn10_shaped(s@),
{
    let chars = chars_of(s);
    if chars.len() != 10 || !all_digits(&chars, 9) {
        return false;
    }
    let c = chars[9];
    ('0' <= c && c <= '9') || c == 'X' || c == 'x'
}


/// The first ISBN-13-shaped candidate.
pub open spec fn first_isbn13(c: Seq<Seq<char>>) -> Option<Seq<char>>
    decreases c.len(),
{
    if c.len() == 0 {
        None
    } else if isbn13_shaped(c[0]) {
        Some(c[0])
    } else {
        first_isbn13(c.drop_first())
    }
}

/// The first ISBN-10-shaped candidate.
pub open spec fn first_isbn10(c: Seq<Seq<char>>) -> Option<Seq<char>>
    decreases c.len(),
{
    if c.len() == 0 {
        None
    } else if isbn10_shaped(c[0]) {
        Some(c[0])
    } else {
        first_isbn10(c.drop_first())
    }
}

/// The preferred ISBN among an edition list: the first ISBN-13, else the first
/// ISBN-10.
pub open spec fn best_isbn_of(c: Seq<Seq<char>>) -> Option<Seq<char>> {
    match first_isbn13(c) {
        Some(i) => Some(i),
        None => first_isbn10(c),
    }
}

/// Prefers the first ISBN-13 among `candidates`, else the first ISBN-10.
pub fn best_isbn(candidates: &[String]) -> (r: Option<String>)
    ensures
        opt_view(r) == best_isbn_of(strings_view(candidates@)),
{
    let ghost cv = strings_view(candidates@);
    assert(cv.skip(0) =~= cv);
    let mut i: usize = 0;
    while i < candidates.len()
        invariant
            i <= candidates@.len(),
            cv == strings_view(candidates@),
            first_isbn13(cv) == first_isbn13(cv.skip(i as int)),
        decreases candidates@.len() - i,
    {
        assert(cv.skip(i as int).drop_first() =~= cv.skip(i + 1));
        assert(cv.skip(i as int)[0] == candidates@[i as int]@);
        if is_isbn13(candidates[i].as_str()) {
            return Some(candidates[i].clone());
        }
        i = i + 1;
    }
    assert(cv.skip(i as int).len() == 0);
    assert(cv.skip(0) =~= cv);
    let mut j: usize = 0;
    while j < candidates.len()
        invariant
            j <= candidates@.len(),
            cv == strings_view(candidates@),
            first_isbn13(cv) is None,
            first_isbn10(cv) == first_isbn10(cv.skip(j as int)),
        decreases candidates@.len() - j,
    {
        assert(cv.skip(j as int).drop_first() =~= cv.skip(j + 1));
        assert(cv.skip(j as int)[0] == candidates@[j as int]@);
        if is_isbn10(candidates[j].as_str()) {
            return Some(candidates[j].clone());
        }
        j = j + 1;
    }
    None
}

/// The Open Library cover image for an internal cover id.
pub open spec fn cover_id_url(id: nat) -> Seq<char> {
    "https://covers.openlibrary.org/b/id/"@ + decimal(id) + "-L.jpg"@
}

/// The Open Library cover image looked up directly by ISBN.
pub open spec fn isbn_cover_url_of(isbn: Seq<char>) -> Seq<char> {
    "https://covers.openlibrary.org/b/isbn/"@ + isbn + "-L.jpg"@
}

/// The large cover image URL for an Open Library cover id.
pub fn cover_id_url_for(id: u64) -> (r: String)
    ensures
        r@ == cover_id_url(id as nat),
{
    let mut r = String::new();
    r.append("https://covers.openlibrary.org/b/id/");
    r.append(decimal_string(id).as_str());
    r.append("-L.jpg");
    r
}

/// The covers-API URL for `isbn` (asked with `default=false`, so a missing
/// cover answers an error status instead of a placeholder image).
pub fn isbn_cover_url(isbn: &str) -> (r: String)
    ensures
        r@ == isbn_cover_url_of(isbn@),
{
    let mut r = String::new();
    r.append("https://covers.openlibrary.org/b/isbn/");
    r.append(isbn);
    r.append("-L.jpg");
    r
}

/// The cover found for `isbn`: its covers-API URL when the covers endpoint
/// answered with a success status, nothing otherwise.
pub fn cover_url_for_isbn(isbn: &str, answered_success: bool) -> (r: Option<String>)
    ensures
        answered_success ==> opt_view(r) == Some(isbn_cover_url_of(isbn@)),
        !answered_success ==> r is None,
{
    if answered_success {
        Some(isbn_cover_url(isbn))
    } else {
        None
    }
}

/// What the matched search result contributes: its authors, its preferred
/// ISBN and the cover for its cover id; nothing when all three are empty.
pub open spec fn found_from_doc(authors: Seq<Seq<char>>, isbns: Seq<Seq<char>>, cover_i: Option<u64>) -> Option<FoundView> {
    let isbn = best_isbn_of(isbns);
    let cover = match cover_i {
        Some(id) => Some(cover_id_url(id as nat)),
        None => None,
    };
    if authors.len() == 0 && isbn is None && cover is None {
        None
    } else {
        Some(FoundView { authors, isbn, cover_url: cover })
    }
}

/// Builds the lookup result from the best-matching search result's authors,
/// edition ISBNs and cover id.
pub fn found_metadata_from_doc(authors: &Vec<String>, isbns: &[String], cover_i: Option<u64>) -> (r: Option<FoundMetadata>)
    ensures
        match r {
            Some(f) => found_from_doc(strings_view(authors@), strings_view(isbns@), cover_i) == Some(f@),
            None => found_from_doc(strings_view(authors@), strings_view(isbns@), cover_i) is None,
        },
{
    let isbn = best_isbn(isbns);
    let cover_url = match cover_i {
        Some(id) => Some(cover_id_url_for(id)),
        None => None,
    };
    if authors.len() == 0 && isbn.is_none() && cover_url.is_none() {
        return None;
    }
    Some(FoundMetadata { authors: copy_strings(authors), isbn, cover_url })
}

} // verus!
