//! Title/ISBN normalisation and the tiered duplicate screening behind
//! "do I already own this?".
//!
//! Screening compares a candidate with each known book in tiers: an exact
//! (normalised) ISBN match, then an exact normalised-title match, then -- only
//! when the two books do not both carry known, different ISBNs -- a fuzzy
//! title comparison. The fuzzy score itself is a floating-point similarity
//! computed by the caller; this module decides which tier applies.

use std::collections::HashMap;

use vstd::prelude::*;

use crate::model::{Book, BookView, Source, opt_view};
use crate::pattern::{Pattern, regex_compiles, regex_replace_all_result, regex_replace_first_result};
use crate::text::{chars_of, is_digit, lowercase_of, string_of, to_lowercase, trim, trim_seq};

verus! {

/// A leading English article.
pub const LEADING_ARTICLE: &'static str = r"^(the|a|an)\s+";

/// Edition and printing markers ("2nd edition", "3rd ed.", "revised edition", ...).
pub const EDITION_MARKER: &'static str = r"\b(\d+(st|nd|rd|th)\s+edition|\d+(st|nd|rd|th)\s+ed\.?|revised edition|updated edition|new edition)\b";

/// A parenthesised year such as "(2023)".
pub const PARENTHETICAL_YEAR: &'static str = r"\(\s*(19|20)\d{2}\s*\)";

/// A trailing publisher name after a dash or colon.
pub const PUBLISHER_SUFFIX: &'static str = r"\s*[-:]\s*(o'reilly|packt|manning|apress|no starch press)\s*$";

/// Any character that is neither a word character nor whitespace.
pub const PUNCTUATION: &'static str = r"[^\w\s]";

/// A run of whitespace.
pub const WHITESPACE: &'static str = r"\s+";

/// Replaces every match of `pattern` (when it compiles; otherwise the text is
/// kept as it is).
pub open spec fn replaced_all(pattern: Seq<char>, s: Seq<char>, rep: Seq<char>) -> Seq<char> {
    if regex_compiles(pattern) {
        regex_replace_all_result(pattern, s, rep)
    } else {
        s
    }
}

/// Replaces the first match of `pattern` (when it compiles; otherwise the text
/// is kept as it is).
pub open spec fn replaced_first(pattern: Seq<char>, s: Seq<char>, rep: Seq<char>) -> Seq<char> {
    if regex_compiles(pattern) {
        regex_replace_first_result(pattern, s, rep)
    } else {
        s
    }
}

/// The normalised form of a title: lowercased; a leading article, edition
/// markers, parenthesised years and a trailing publisher name removed;
/// punctuation turned into spaces; whitespace runs collapsed to one space; and
/// trimmed.
pub open spec fn normalized_title(title: Seq<char>) -> Seq<char> {
    let lower = lowercase_of(title);
    let without_article = replaced_first(LEADING_ARTICLE@, lower, ""@);
    let without_edition = replaced_all(EDITION_MARKER@, without_article, ""@);
    let without_year = replaced_all(PARENTHETICAL_YEAR@, without_edition, ""@);
    let without_publisher = replaced_all(PUBLISHER_SUFFIX@, without_year, ""@);
    let without_punctuation = replaced_all(PUNCTUATION@, without_publisher, " "@);
    trim_seq(replaced_all(WHITESPACE@, trim_seq(without_punctuation), " "@))
}

/// The patterns used by title normalisation, compiled once so that a whole
/// library can be normalised without recompiling them per title.
pub struct TitleNormalizer {
    article: Option<Pattern>,
    edition: Option<Pattern>,
    year: Option<Pattern>,
    publisher: Option<Pattern>,
    punctuation: Option<Pattern>,
    whitespace: Option<Pattern>,
}

/// `p` is the compilation of `source`, or absent exactly when `source` does not
/// compile.
pub open spec fn compiled_from(p: Option<Pattern>, source: Seq<char>) -> bool {
    match p {
        Some(q) => q@ == source && regex_compiles(source),
        None => !regex_compiles(source),
    }
}

/// Applies `replace_all` with `p` when present.
fn apply_all(p: &Option<Pattern>, s: String, rep: &str, Ghost(source): Ghost<Seq<char>>) -> (r: String)
    requires
        compiled_from(*p, source),
    ensures
        r@ == replaced_all(source, s@, rep@),
{
    match p {
        Some(q) => q.replace_all(s.as_str(), rep),
        None => s,
    }
}

/// What compiling `source` gives: the pattern itself, or nothing when it
/// does not compile.
pub open spec fn compiled_source(source: Seq<char>) -> Option<Seq<char>> {
    if regex_compiles(source) {
        Some(source)
    } else {
        None
    }
}

/// The patterns a freshly made normaliser holds, in the order in which
/// normalisation applies them.
pub open spec fn normalizer_patterns() -> Seq<Option<Seq<char>>> {
    seq![
        compiled_source(LEADING_ARTICLE@),
        compiled_source(EDITION_MARKER@),
        compiled_source(PARENTHETICAL_YEAR@),
        compiled_source(PUBLISHER_SUFFIX@),
        compiled_source(PUNCTUATION@),
        compiled_source(WHITESPACE@),
    ]
}

/// The source of a pattern that is held, or nothing.
pub open spec fn held_source(p: Option<Pattern>) -> Option<Seq<char>> {
    match p {
        Some(q) => Some(q@),
        None => None,
    }
}

impl View for TitleNormalizer {
    type V = Seq<Option<Seq<char>>>;

    /// The sources of the patterns held, in the order normalisation applies
    /// them; nothing for one that did not compile.
    closed spec fn view(&self) -> Seq<Option<Seq<char>>> {
        seq![
            held_source(self.article),
            held_source(self.edition),
            held_source(self.year),
            held_source(self.publisher),
            held_source(self.punctuation),
            held_source(self.whitespace),
        ]
    }
}

impl TitleNormalizer {
    #[verifier::type_invariant]
    spec fn well_formed(self) -> bool {
        &&& compiled_from(self.article, LEADING_ARTICLE@)
        &&& compiled_from(self.edition, EDITION_MARKER@)
        &&& compiled_from(self.year, PARENTHETICAL_YEAR@)
        &&& compiled_from(self.publisher, PUBLISHER_SUFFIX@)
        &&& compiled_from(self.punctuation, PUNCTUATION@)
        &&& compiled_from(self.whitespace, WHITESPACE@)
    }

    /// Compiles the normalisation patterns.
    pub fn new() -> (r: TitleNormalizer)
        ensures
            r@ == normalizer_patterns(),
    {
        TitleNormalizer {
            article: Pattern::compile(LEADING_ARTICLE),
            edition: Pattern::compile(EDITION_MARKER),
            year: Pattern::compile(PARENTHETICAL_YEAR),
            publisher: Pattern::compile(PUBLISHER_SUFFIX),
            punctuation: Pattern::compile(PUNCTUATION),
            whitespace: Pattern::compile(WHITESPACE),
        }
    }

    /// The normalised form of `title` (see [`normalized_title`]).
    pub fn normalize(&self, title: &str) -> (r: String)
        ensures
            r@ == normalized_title(title@),
    {
        proof {
            use_type_invariant(self);
        }
        let lower = to_lowercase(title);
        let without_article = match &self.article {
            Some(q) => q.replace_first(lower.as_str(), ""),
            None => lower,
        };
        let without_edition = apply_all(&self.edition, without_article, "", Ghost(EDITION_MARKER@));
        let without_year = apply_all(&self.year, without_edition, "", Ghost(PARENTHETICAL_YEAR@));
        let without_publisher = apply_all(&self.publisher, without_year, "", Ghost(PUBLISHER_SUFFIX@));
        let without_punctuation = apply_all(&self.punctuation, without_publisher, " ", Ghost(PUNCTUATION@));
        let trimmed = string_of(trim(chars_of(without_punctuation.as_str()).as_slice()).as_slice());
        let collapsed = apply_all(&self.whitespace, trimmed, " ", Ghost(WHITESPACE@));
        string_of(trim(chars_of(collapsed.as_str()).as_slice()).as_slice())
    }
}

/// The normalised form of a title: lowercase, a leading article, edition and
/// printing markers, parenthesised years and a trailing publisher name
/// stripped, punctuation and whitespace collapsed. Good enough to match
/// "The Rust Programming Language, 2nd Edition (2023)" against
/// "Rust Programming Language".
pub fn normalize_title(title: &str) -> (r: String)
    ensures
        r@ == normalized_title(title@),
{
    TitleNormalizer::new().normalize(title)
}


/// The ASCII decimal digits of `s`, in order.
pub open spec fn digits_of(s: Seq<char>) -> Seq<char>
    decreases s.len(),
{
    if s.len() == 0 {
        s
    } else if is_digit(s.last()) {
        digits_of(s.drop_last()).push(s.last())
    } else {
        digits_of(s.drop_last())
    }
}

/// Keeps only the ASCII digits of an ISBN, so that "978-1-6172-9455-4" and
/// "9781617294554" compare equal.
pub fn normalize_isbn(isbn: &str) -> (r: String)
    ensures
        r@ == digits_of(isbn@),
{
    let chars = chars_of(isbn);
    let mut out: Vec<char> = Vec::new();
    let mut i: usize = 0;
    while i < chars.len()
        invariant
            i <= chars@.len(),
            chars@ == isbn@,
            out@ == digits_of(chars@.take(i as int)),
        decreases chars@.len() - i,
    {
        assert(chars@.take(i + 1).drop_last() =~= chars@.take(i as int));
        let c = chars[i];
        if '0' <= c && c <= '9' {
            out.push(c);
        }
        i = i + 1;
    }
    assert(chars@.take(chars@.len() as int) =~= chars@);
    string_of(out.as_slice())
}

/// The normalised ISBN of an optional ISBN.
pub open spec fn isbn_key(isbn: Option<Seq<char>>) -> Option<Seq<char>> {
    match isbn {
        Some(s) => Some(digits_of(s)),
        None => None,
    }
}

/// Both books carry the same, non-empty normalised ISBN.
pub open spec fn isbns_equal(a: Option<Seq<char>>, b: Option<Seq<char>>) -> bool {
    match (a, b) {
        (Some(x), Some(y)) => x.len() > 0 && x == y,
        _ => false,
    }
}

/// Both books carry a known normalised ISBN, and they differ: authoritative
/// evidence of two different books.
pub open spec fn isbns_differ(a: Option<Seq<char>>, b: Option<Seq<char>>) -> bool {
    match (a, b) {
        (Some(x), Some(y)) => x.len() > 0 && y.len() > 0 && x != y,
        _ => false,
    }
}

/// Which screening tier applies to a pair of books.
#[derive(Debug, Clone, Copy, PartialEq, Eq, Structural)]
pub enum MatchTier {
    /// Same normalised ISBN: reported with full confidence.
    Isbn,
    /// Same non-empty normalised title: reported with high confidence.
    ExactTitle,
    /// Both ISBNs known and different: never reported by a fuzzy title score.
    IsbnsDiffer,
    /// Only a fuzzy title score can decide.
    Fuzzy,
}

/// The tier for a pair, from each side's normalised title and normalised ISBN.
pub open spec fn tier_of(
    title_a: Seq<char>,
    isbn_a: Option<Seq<char>>,
    title_b: Seq<char>,
    isbn_b: Option<Seq<char>>,
) -> MatchTier {
    if isbns_equal(isbn_a, isbn_b) {
        MatchTier::Isbn
    } else if title_a.len() > 0 && title_a == title_b {
        MatchTier::ExactTitle
    } else if isbns_differ(isbn_a, isbn_b) {
        MatchTier::IsbnsDiffer
    } else {
        MatchTier::Fuzzy
    }
}

/// The tier for two books.
pub open spec fn tier_between(a: BookView, b: BookView) -> MatchTier {
    tier_of(normalized_title(a.title), isbn_key(a.isbn), normalized_title(b.title), isbn_key(b.isbn))
}

/// Decides the tier from normalised titles and normalised ISBNs.
pub fn match_tier(
    title_a: &String,
    isbn_a: &Option<String>,
    title_b: &String,
    isbn_b: &Option<String>,
) -> (r: MatchTier)
    ensures
        r == tier_of(title_a@, opt_view(*isbn_a), title_b@, opt_view(*isbn_b)),
{
    let isbns_equal = match (isbn_a, isbn_b) {
        (Some(x), Some(y)) => !x.as_str().is_empty() && *x == *y,
        _ => false,
    };
    if isbns_equal {
        return MatchTier::Isbn;
    }
    if !title_a.as_str().is_empty() && *title_a == *title_b {
        return MatchTier::ExactTitle;
    }
    let isbns_differ = match (isbn_a, isbn_b) {
        (Some(x), Some(y)) => !x.as_str().is_empty() && !y.as_str().is_empty() && !(*x == *y),
        _ => false,
    };
    if isbns_differ {
        MatchTier::IsbnsDiffer
    } else {
        MatchTier::Fuzzy
    }
}

/// A normalised ISBN, when there is one.
fn isbn_key_of(isbn: &Option<String>) -> (r: Option<String>)
    ensures
        opt_view(r) == isbn_key(opt_view(*isbn)),
{
    match isbn {
        Some(s) => Some(normalize_isbn(s.as_str())),
        None => None,
    }
}


/// One known book's screening outcome against a candidate: the tier that
/// applies and the book's normalised title (for the fuzzy comparison).
pub struct Screened {
    pub tier: MatchTier,
    pub title_key: String,
}

/// The screening of a candidate against a list of known books.
pub struct Screening {
    /// The candidate's normalised title.
    pub candidate_title_key: String,
    /// One entry per known book, in the same order.
    pub entries: Vec<Screened>,
}

/// Screens `candidate` against every book in `existing`: for each one, the tier
/// that decides whether it is reported (an ISBN match or an exact normalised
/// title match always is; a confirmed ISBN difference never is; otherwise only
/// a fuzzy title score at or above the threshold is).
pub fn screen_duplicates(existing: &[Book], candidate: &Book) -> (r: Screening)
    ensures
        r.candidate_title_key@ == normalized_title(candidate@.title),
        r.entries@.len() == existing@.len(),
        forall|i: int|
            0 <= i < existing@.len() ==> {
                &&& (#[trigger] r.entries@[i]).tier == tier_between(candidate@, existing@[i]@)
                &&& r.entries@[i].title_key@ == normalized_title(existing@[i]@.title)
            },
{
    let normalizer = TitleNormalizer::new();
    let candidate_title = normalizer.normalize(candidate.title.as_str());
    let candidate_isbn = isbn_key_of(&candidate.isbn);
    let mut entries: Vec<Screened> = Vec::new();
    let mut i: usize = 0;
    while i < existing.len()
        invariant
            i <= existing@.len(),
            candidate_title@ == normalized_title(candidate@.title),
            opt_view(candidate_isbn) == isbn_key(candidate@.isbn),
            entries@.len() == i,
            forall|k: int|
                0 <= k < i ==> {
                    &&& (#[trigger] entries@[k]).tier == tier_between(candidate@, existing@[k]@)
                    &&& entries@[k].title_key@ == normalized_title(existing@[k]@.title)
                },
        decreases existing@.len() - i,
    {
        let book = &existing[i];
        let title = normalizer.normalize(book.title.as_str());
        let isbn = isbn_key_of(&book.isbn);
        let tier = match_tier(&candidate_title, &candidate_isbn, &title, &isbn);
        entries.push(Screened { tier, title_key: title });
        i = i + 1;
    }
    Screening { candidate_title_key: candidate_title, entries }
}

/// Whether a screened book is reported: an ISBN or exact-title match always
/// is, a confirmed ISBN difference never is, otherwise the fuzzy verdict
/// decides.
pub open spec fn reported(tier: MatchTier, fuzzy_pass: bool) -> bool {
    match tier {
        MatchTier::Isbn => true,
        MatchTier::ExactTitle => true,
        MatchTier::IsbnsDiffer => false,
        MatchTier::Fuzzy => fuzzy_pass,
    }
}

/// The caller's fuzzy verdict for entry `i` (a missing verdict is "no").
pub open spec fn pass_at(passes: Seq<bool>, i: int) -> bool {
    0 <= i < passes.len() && passes[i]
}

/// The reported entries among the first `n`, in order, with their tiers.
pub open spec fn selected(entries: Seq<Screened>, passes: Seq<bool>, n: int) -> Seq<(int, MatchTier)>
    decreases n,
{
    if n <= 0 {
        Seq::empty()
    } else if reported(entries[n - 1].tier, pass_at(passes, n - 1)) {
        selected(entries, passes, n - 1).push((n - 1, entries[n - 1].tier))
    } else {
        selected(entries, passes, n - 1)
    }
}

/// The positions (with tiers) of the known books a screening reports, in
/// order, given the caller's fuzzy verdict for each (`fuzzy_pass[i]`: the
/// fuzzy title score of entry `i` reached the threshold).
pub fn select_matches(screening: &Screening, fuzzy_pass: &Vec<bool>) -> (r: Vec<(usize, MatchTier)>)
    ensures
        r@.map_values(|p: (usize, MatchTier)| (p.0 as int, p.1)) == selected(
            screening.entries@,
            fuzzy_pass@,
            screening.entries@.len() as int,
        ),
{
    let mut out: Vec<(usize, MatchTier)> = Vec::new();
    let mut i: usize = 0;
    while i < screening.entries.len()
        invariant
            i <= screening.entries@.len(),
            out@.map_values(|p: (usize, MatchTier)| (p.0 as int, p.1)) == selected(screening.entries@, fuzzy_pass@, i as int),
        decreases screening.entries@.len() - i,
    {
        let tier = screening.entries[i].tier;
        let pass = i < fuzzy_pass.len() && fuzzy_pass[i];
        let report = match tier {
            MatchTier::Isbn => true,
            MatchTier::ExactTitle => true,
            MatchTier::IsbnsDiffer => false,
            MatchTier::Fuzzy => pass,
        };
        if report {
            let ghost before = out@.map_values(|p: (usize, MatchTier)| (p.0 as int, p.1));
            out.push((i, tier));
            assert(out@.map_values(|p: (usize, MatchTier)| (p.0 as int, p.1)) =~= before.push((i as int, tier)));
        }
        i = i + 1;
    }
    out
}

/// Normalised titles of a list of books, in order (one set of compiled
/// patterns for the whole list).
pub fn title_keys(books: &[Book]) -> (r: Vec<String>)
    ensures
        r@.len() == books@.len(),
        forall|i: int| 0 <= i < books@.len() ==> (#[trigger] r@[i])@ == normalized_title(books@[i]@.title),
{
    let normalizer = TitleNormalizer::new();
    let mut r: Vec<String> = Vec::new();
    let mut i: usize = 0;
    while i < books.len()
        invariant
            i <= books@.len(),
            r@.len() == i,
            forall|k: int| 0 <= k < i ==> (#[trigger] r@[k])@ == normalized_title(books@[k]@.title),
        decreases books@.len() - i,
    {
        r.push(normalizer.normalize(books[i].title.as_str()));
        i = i + 1;
    }
    r
}

/// Sources in the order of their identifiers ("humble_bundle" < "kindle" <
/// "manning" < "manual" < "packt").
pub open spec fn source_rank(s: Source) -> int {
    match s {
        Source::HumbleBundle => 0,
        Source::Kindle => 1,
        Source::Manning => 2,
        Source::Manual => 3,
        Source::Packt => 4,
    }
}

/// The source at a rank.
pub open spec fn source_at_rank(r: int) -> Source {
    if r == 0 {
        Source::HumbleBundle
    } else if r == 1 {
        Source::Kindle
    } else if r == 2 {
        Source::Manning
    } else if r == 3 {
        Source::Manual
    } else {
        Source::Packt
    }
}

fn rank_of(s: Source) -> (r: usize)
    ensures
        r == source_rank(s),
{
    match s {
        Source::HumbleBundle => 0,
        Source::Kindle => 1,
        Source::Manning => 2,
        Source::Manual => 3,
        Source::Packt => 4,
    }
}

/// The sources accepted by `keep`, each once, ordered by identifier.
pub open spec fn sources_in_order(keep: spec_fn(Source) -> bool) -> Seq<Source> {
    (if keep(Source::HumbleBundle) { seq![Source::HumbleBundle] } else { Seq::empty() })
        + (if keep(Source::Kindle) { seq![Source::Kindle] } else { Seq::empty() })
        + (if keep(Source::Manning) { seq![Source::Manning] } else { Seq::empty() })
        + (if keep(Source::Manual) { seq![Source::Manual] } else { Seq::empty() })
        + (if keep(Source::Packt) { seq![Source::Packt] } else { Seq::empty() })
}

/// The caller's fuzzy verdict for the pair of books at positions `i` and `j`
/// (read only for `i < j`; absent entries count as "not similar").
pub open spec fn similar_at(similar: Seq<Vec<bool>>, i: int, j: int) -> bool {
    0 <= i < similar.len() && 0 <= j < similar[i]@.len() && similar[i]@[j]
}

/// The books at positions `i` and `j` are two different, persisted books from
/// different sources that screening links: same ISBN, same normalised title, or
/// -- unless their ISBNs are known to differ -- judged similar by the caller.
pub open spec fn linked(books: Seq<Book>, similar: Seq<Vec<bool>>, i: int, j: int) -> bool {
    let lo = if i < j { i } else { j };
    let hi = if i < j { j } else { i };
    &&& 0 <= i < books.len()
    &&& 0 <= j < books.len()
    &&& i != j
    &&& books[i]@.id is Some
    &&& books[j]@.id is Some
    &&& books[i]@.source != books[j]@.source
    &&& match tier_between(books[lo]@, books[hi]@) {
        MatchTier::Isbn => true,
        MatchTier::ExactTitle => true,
        MatchTier::IsbnsDiffer => false,
        MatchTier::Fuzzy => similar_at(similar, lo, hi),
    }
}

/// Some persisted book with id `id` is linked to a book from source `s`.
pub open spec fn owned_elsewhere(books: Seq<Book>, similar: Seq<Vec<bool>>, id: i64, s: Source) -> bool {
    exists|i: int, j: int|
        #![trigger books[i], books[j]]
        linked(books, similar, i, j) && books[i]@.id == Some(id) && books[j]@.source == s
}

/// Screening a pair gives the same tier whichever book is the candidate.
pub proof fn law_tier_symmetric(a: BookView, b: BookView)
    ensures
        tier_between(a, b) == tier_between(b, a),
{
}

/// ISBN evidence: the same normalised ISBN always decides a match; two known,
/// different ISBNs rule out a merely fuzzy title match, but not an exact
/// normalised-title match (editions of one title normalise alike).
pub proof fn law_isbn_evidence(a: BookView, b: BookView)
    ensures
        isbns_equal(isbn_key(a.isbn), isbn_key(b.isbn)) ==> tier_between(a, b) == MatchTier::Isbn,
        isbns_differ(isbn_key(a.isbn), isbn_key(b.isbn)) ==> tier_between(a, b) != MatchTier::Fuzzy,
        isbns_differ(isbn_key(a.isbn), isbn_key(b.isbn)) && normalized_title(a.title).len() > 0 && normalized_title(a.title)
            == normalized_title(b.title) ==> tier_between(a, b) == MatchTier::ExactTitle,
{
}

/// Whether two books are linked does not depend on which comes first.
pub proof fn law_linked_symmetric(books: Seq<Book>, similar: Seq<Vec<bool>>, i: int, j: int)
    ensures
        linked(books, similar, i, j) == linked(books, similar, j, i),
{
}

/// The cross-source marks are mutual: when two persisted books from different
/// sources are linked, each one's id is marked as owned via the other's source.
pub proof fn law_cross_source_mutual(books: Seq<Book>, similar: Seq<Vec<bool>>, i: int, j: int)
    requires
        linked(books, similar, i, j),
    ensures
        owned_elsewhere(books, similar, books[i]@.id->0, books[j]@.source),
        owned_elsewhere(books, similar, books[j]@.id->0, books[i]@.source),
{
    law_linked_symmetric(books, similar, i, j);
    assert(linked(books, similar, i, j) && books[i]@.id == Some(books[i]@.id->0) && books[j]@.source == books[j]@.source);
    assert(linked(books, similar, j, i) && books[j]@.id == Some(books[j]@.id->0) && books[i]@.source == books[i]@.source);
}

/// A book is never marked as owned via its own source, when ids belong to one
/// book each.
pub proof fn law_cross_source_other_sources_only(books: Seq<Book>, similar: Seq<Vec<bool>>, k: int, s: Source)
    requires
        0 <= k < books.len(),
        books[k]@.id is Some,
        forall|a: int, b: int|
            0 <= a < books.len() && 0 <= b < books.len() && (#[trigger] books[a]@.id) is Some && books[a]@.id == (
            #[trigger] books[b]@.id) ==> a == b,
        owned_elsewhere(books, similar, books[k]@.id->0, s),
    ensures
        s != books[k]@.source,
{
    let (i, j) = choose|i: int, j: int|
        #![trigger books[i], books[j]]
        linked(books, similar, i, j) && books[i]@.id == Some(books[k]@.id->0) && books[j]@.source == s;
    assert(books[i]@.id == books[k]@.id);
}

/// Books without an id take no part in cross-source marks.
pub proof fn law_cross_source_ignores_unsaved(books: Seq<Book>, similar: Seq<Vec<bool>>, i: int, j: int)
    requires
        0 <= j < books.len(),
        books[j]@.id is None,
    ensures
        !linked(books, similar, i, j),
        !linked(books, similar, j, i),
{
}


proof fn lemma_rank_roundtrip(s: Source, r: int)
    requires
        0 <= r < 5,
    ensures
        (source_rank(s) == r) <==> (s == source_at_rank(r)),
        0 <= source_rank(s) < 5,
        source_at_rank(source_rank(s)) == s,
{
}

proof fn lemma_sources_in_order_ext(a: spec_fn(Source) -> bool, b: spec_fn(Source) -> bool)
    requires
        forall|s: Source| #[trigger] a(s) == b(s),
    ensures
        sources_in_order(a) == sources_in_order(b),
{
    assert(a(Source::HumbleBundle) == b(Source::HumbleBundle));
    assert(a(Source::Kindle) == b(Source::Kindle));
    assert(a(Source::Manning) == b(Source::Manning));
    assert(a(Source::Manual) == b(Source::Manual));
    assert(a(Source::Packt) == b(Source::Packt));
}

/// The sources whose rank is flagged, each once, ordered by identifier.
fn flagged_sources(flags: &Vec<bool>) -> (r: Vec<Source>)
    requires
        flags@.len() == 5,
    ensures
        r@ == sources_in_order(|s: Source| flags@[source_rank(s)]),
{
    let mut r: Vec<Source> = Vec::new();
    if flags[0] {
        r.push(Source::HumbleBundle);
    }
    if flags[1] {
        r.push(Source::Kindle);
    }
    if flags[2] {
        r.push(Source::Manning);
    }
    if flags[3] {
        r.push(Source::Manual);
    }
    if flags[4] {
        r.push(Source::Packt);
    }
    assert(r@ =~= sources_in_order(|s: Source| flags@[source_rank(s)]));
    r
}

/// Decides `linked` from precomputed normalised titles and ISBNs.
fn is_linked(
    books: &[Book],
    similar: &Vec<Vec<bool>>,
    keys: &Vec<String>,
    isbns: &Vec<Option<String>>,
    i: usize,
    j: usize,
) -> (r: bool)
    requires
        i < books@.len(),
        j < books@.len(),
        keys@.len() == books@.len(),
        isbns@.len() == books@.len(),
        forall|k: int| 0 <= k < books@.len() ==> (#[trigger] keys@[k])@ == normalized_title(books@[k]@.title),
        forall|k: int| 0 <= k < books@.len() ==> opt_view(#[trigger] isbns@[k]) == isbn_key(books@[k]@.isbn),
    ensures
        r == linked(books@, similar@, i as int, j as int),
{
    if i == j || books[i].id.is_none() || books[j].id.is_none() || books[i].source == books[j].source {
        return false;
    }
    let lo = if i < j { i } else { j };
    let hi = if i < j { j } else { i };
    match match_tier(&keys[lo], &isbns[lo], &keys[hi], &isbns[hi]) {
        MatchTier::Isbn => true,
        MatchTier::ExactTitle => true,
        MatchTier::IsbnsDiffer => false,
        MatchTier::Fuzzy => lo < similar.len() && hi < similar[lo].len() && similar[lo][hi],
    }
}

/// For one id: whether any source links to it, and the linked sources in order,
/// from the per-book marks.
fn sources_owned_elsewhere(
    books: &[Book],
    similar: &Vec<Vec<bool>>,
    marks: &Vec<Vec<bool>>,
    id: i64,
) -> (r: (bool, Vec<Source>))
    requires
        marks@.len() == books@.len(),
        forall|k: int| 0 <= k < books@.len() ==> (#[trigger] marks@[k])@.len() == 5,
        forall|k: int, r: int|
            0 <= k < books@.len() && 0 <= r < 5 ==> ((#[trigger] marks@[k]@[r]) <==> exists|j: int|
                #![trigger books@[j]]
                linked(books@, similar@, k, j) && source_rank(books@[j]@.source) == r),
    ensures
        r.0 <==> exists|s: Source| owned_elsewhere(books@, similar@, id, s),
        r.1@ == sources_in_order(|s: Source| owned_elsewhere(books@, similar@, id, s)),
{
    let n = books.len();
    let mut combined: Vec<bool> = vec![false, false, false, false, false];
    let mut k: usize = 0;
    while k < n
        invariant
            k <= n,
            n == books@.len(),
            marks@.len() == n,
            forall|k2: int| 0 <= k2 < n ==> (#[trigger] marks@[k2])@.len() == 5,
            combined@.len() == 5,
            forall|r: int|
                0 <= r < 5 ==> ((#[trigger] combined@[r]) <==> exists|k2: int|
                    0 <= k2 < k && (#[trigger] books@[k2]).id == Some(id) && marks@[k2]@[r]),
        decreases n - k,
    {
        if books[k].id == Some(id) {
            let mut r: usize = 0;
            while r < 5
                invariant
                    k < n,
                    r <= 5,
                    n == books@.len(),
                    books@[k as int].id == Some(id),
                    marks@.len() == n,
                    marks@[k as int]@.len() == 5,
                    combined@.len() == 5,
                    forall|r2: int|
                        0 <= r2 < 5 ==> ((#[trigger] combined@[r2]) <==> (exists|k2: int|
                            0 <= k2 < k && (#[trigger] books@[k2]).id == Some(id) && marks@[k2]@[r2])
                            || (r2 < r && marks@[k as int]@[r2])),
                decreases 5 - r,
            {
                if marks[k][r] {
                    combined.set(r, true);
                }
                r = r + 1;
            }
        }
        proof {
            assert forall|r2: int|
                0 <= r2 < 5 implies ((#[trigger] combined@[r2]) <==> exists|k2: int|
                    0 <= k2 < k + 1 && (#[trigger] books@[k2]).id == Some(id) && marks@[k2]@[r2]) by {
                if books@[k as int].id == Some(id) && marks@[k as int]@[r2] {
                    assert(books@[k as int].id == Some(id));
                }
            }
        }
        k = k + 1;
    }
    proof {
        assert forall|r: int|
            0 <= r < 5 implies (#[trigger] combined@[r]) == owned_elsewhere(
                books@,
                similar@,
                id,
                source_at_rank(r),
            ) by {
            if combined@[r] {
                let k2 = choose|k2: int|
                    0 <= k2 < n && (#[trigger] books@[k2]).id == Some(id) && marks@[k2]@[r];
                let j = choose|j: int|
                    #![trigger books@[j]]
                    linked(books@, similar@, k2, j) && source_rank(books@[j]@.source) == r;
                lemma_rank_roundtrip(books@[j]@.source, r);
                assert(linked(books@, similar@, k2, j) && books@[k2]@.id == Some(id)
                    && books@[j]@.source == source_at_rank(r));
            }
            if owned_elsewhere(books@, similar@, id, source_at_rank(r)) {
                let (k2, j) = choose|k2: int, j: int|
                    #![trigger books@[k2], books@[j]]
                    linked(books@, similar@, k2, j) && books@[k2]@.id == Some(id)
                        && books@[j]@.source == source_at_rank(r);
                lemma_rank_roundtrip(books@[j]@.source, r);
                assert(marks@[k2]@[r]);
                assert(books@[k2].id == Some(id));
            }
        }
        assert forall|s: Source|
            #[trigger] combined@[source_rank(s)] == owned_elsewhere(books@, similar@, id, s) by {
            lemma_rank_roundtrip(s, source_rank(s));
        }
        lemma_sources_in_order_ext(
            |s: Source| combined@[source_rank(s)],
            |s: Source| owned_elsewhere(books@, similar@, id, s),
        );
    }
    let any = combined[0] || combined[1] || combined[2] || combined[3] || combined[4];
    proof {
        if any {
            let r = if combined@[0] { 0int } else if combined@[1] { 1int } else if combined@[2] { 2int } else if combined@[3] { 3int } else { 4int };
            assert(owned_elsewhere(books@, similar@, id, source_at_rank(r)));
        } else {
            assert forall|s: Source| !owned_elsewhere(books@, similar@, id, s) by {
                lemma_rank_roundtrip(s, source_rank(s));
                assert(!combined@[source_rank(s)]);
            }
        }
    }
    (any, flagged_sources(&combined))
}

/// For every persisted book, which *other* sources also appear to own the same
/// title: the ISBN / exact-title / fuzzy-title signal of duplicate screening,
/// computed across the whole library. `similar[i][j]` (for `i < j`) is the
/// caller's fuzzy-title verdict for the books at positions `i` and `j`; it is
/// only consulted when neither an ISBN nor an exact title decides and the two
/// ISBNs are not known to differ. Books without an id take no part at all.
/// Each id maps to the linked sources, once each, ordered by identifier; ids
/// with no such source are absent.
pub fn cross_source_duplicates(books: &[Book], similar: &Vec<Vec<bool>>) -> (r: HashMap<i64, Vec<Source>>)
    ensures
        forall|id: i64|
            #[trigger] r@.contains_key(id) <==> exists|s: Source| owned_elsewhere(books@, similar@, id, s),
        forall|id: i64|
            #[trigger] r@.contains_key(id) ==> r@[id]@ == sources_in_order(
                |s: Source| owned_elsewhere(books@, similar@, id, s),
            ),
{
    let n = books.len();
    let keys = title_keys(books);
    let mut isbns: Vec<Option<String>> = Vec::new();
    let mut i: usize = 0;
    while i < n
        invariant
            i <= n,
            n == books@.len(),
            isbns@.len() == i,
            forall|k: int| 0 <= k < i ==> opt_view(#[trigger] isbns@[k]) == isbn_key(books@[k]@.isbn),
        decreases n - i,
    {
        isbns.push(isbn_key_of(&books[i].isbn));
        i = i + 1;
    }
    // marks[i][r]: the book at i is linked to some book whose source has rank r.
    let mut marks: Vec<Vec<bool>> = Vec::new();
    let mut i: usize = 0;
    while i < n
        invariant
            i <= n,
            n == books@.len(),
            keys@.len() == n,
            isbns@.len() == n,
            forall|k: int| 0 <= k < n ==> (#[trigger] keys@[k])@ == normalized_title(books@[k]@.title),
            forall|k: int| 0 <= k < n ==> opt_view(#[trigger] isbns@[k]) == isbn_key(books@[k]@.isbn),
            marks@.len() == i,
            forall|k: int| 0 <= k < i ==> (#[trigger] marks@[k])@.len() == 5,
            forall|k: int, r: int|
                0 <= k < i && 0 <= r < 5 ==> ((#[trigger] marks@[k]@[r]) <==> exists|j: int|
                    #![trigger books@[j]]
                    linked(books@, similar@, k, j) && source_rank(books@[j]@.source) == r),
        decreases n - i,
    {
        let mut row: Vec<bool> = vec![false, false, false, false, false];
        let mut j: usize = 0;
        while j < n
            invariant
                i < n,
                j <= n,
                n == books@.len(),
                keys@.len() == n,
                isbns@.len() == n,
                forall|k: int| 0 <= k < n ==> (#[trigger] keys@[k])@ == normalized_title(books@[k]@.title),
                forall|k: int| 0 <= k < n ==> opt_view(#[trigger] isbns@[k]) == isbn_key(books@[k]@.isbn),
                row@.len() == 5,
                forall|r: int|
                    0 <= r < 5 ==> ((#[trigger] row@[r]) <==> exists|j2: int|
                        #![trigger books@[j2]]
                        0 <= j2 < j && linked(books@, similar@, i as int, j2) && source_rank(books@[j2]@.source) == r),
            decreases n - j,
        {
            let link = is_linked(books, similar, &keys, &isbns, i, j);
            if link {
                let rank = rank_of(books[j].source);
                row.set(rank, true);
            }
            proof {
                assert forall|r: int|
                    0 <= r < 5 implies ((#[trigger] row@[r]) <==> exists|j2: int|
                        #![trigger books@[j2]]
                        0 <= j2 < j + 1 && linked(books@, similar@, i as int, j2) && source_rank(books@[j2]@.source) == r) by {
                    if link && source_rank(books@[j as int]@.source) == r {
                        assert(linked(books@, similar@, i as int, j as int));
                    }
                }
            }
            j = j + 1;
        }
        proof {
            assert forall|r: int|
                0 <= r < 5 implies ((#[trigger] row@[r]) <==> exists|j2: int|
                    #![trigger books@[j2]]
                    linked(books@, similar@, i as int, j2) && source_rank(books@[j2]@.source) == r) by {
                if exists|j2: int|
                    #![trigger books@[j2]]
                    linked(books@, similar@, i as int, j2) && source_rank(books@[j2]@.source) == r {
                    let j2 = choose|j2: int|
                        #![trigger books@[j2]]
                        linked(books@, similar@, i as int, j2) && source_rank(books@[j2]@.source) == r;
                    assert(0 <= j2 < n);
                }
            }
        }
        marks.push(row);
        i = i + 1;
    }
    let mut result: HashMap<i64, Vec<Source>> = HashMap::new();
    let mut i: usize = 0;
    while i < n
        invariant
            i <= n,
            n == books@.len(),
            marks@.len() == n,
            forall|k: int| 0 <= k < n ==> (#[trigger] marks@[k])@.len() == 5,
            forall|k: int, r: int|
                0 <= k < n && 0 <= r < 5 ==> ((#[trigger] marks@[k]@[r]) <==> exists|j: int|
                    #![trigger books@[j]]
                    linked(books@, similar@, k, j) && source_rank(books@[j]@.source) == r),
            forall|id: i64|
                #[trigger] result@.contains_key(id) <==> (exists|s: Source| owned_elsewhere(books@, similar@, id, s))
                    && exists|k: int| 0 <= k < i && (#[trigger] books@[k]).id == Some(id),
            forall|id: i64|
                #[trigger] result@.contains_key(id) ==> result@[id]@ == sources_in_order(
                    |s: Source| owned_elsewhere(books@, similar@, id, s),
                ),
        decreases n - i,
    {
        match books[i].id {
            Some(id) => {
                let (any, list) = sources_owned_elsewhere(books, similar, &marks, id);
                if any {
                    result.insert(id, list);
                }
                proof {
                    assert(books@[i as int].id == Some(id));
                }
            },
            None => {},
        }
        i = i + 1;
    }
    proof {
        assert forall|id: i64|
            #[trigger] result@.contains_key(id) <== exists|s: Source| owned_elsewhere(books@, similar@, id, s) by {
            if exists|s: Source| owned_elsewhere(books@, similar@, id, s) {
                let s = choose|s: Source| owned_elsewhere(books@, similar@, id, s);
                let (k2, j) = choose|k2: int, j: int|
                    #![trigger books@[k2], books@[j]]
                    linked(books@, similar@, k2, j) && books@[k2]@.id == Some(id) && books@[j]@.source == s;
                assert(books@[k2].id == Some(id));
            }
        }
    }
    result
}

} // verus!
