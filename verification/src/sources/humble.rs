//! Humble Bundle: owned orders (from the order API's JSON), bundle landing
//! pages and the books storefront listing (JSON embedded in the pages), plus
//! the title and bundle-name screens used by "check before buying".
//!
//! The caller performs the HTTP requests and decodes the JSON documents into
//! the plain structures below; everything decided from them is here.

use vstd::prelude::*;

use crate::html::{SelectorInvalid, first_match_text, select_first_text, selector_valid};
use crate::model::{Book, BookView, Source as BookSource, copy_strings, opt_view, strings_view};
use crate::sources::Source;
use crate::text::{
    alphanumeric_char, chars_of, contains_chars, contains_seq, has_suffix, is_alphanumeric,
    before_first, lemma_before_first, lowercase_of, matches_at, occurs_at, seq_lt, sorted_set, sorted_unique, static_strs,
    str_eq, str_ends_with, string_of, take_chars, to_lowercase, trim, trim_seq,
};

verus! {

/// Imports owned Humble Bundle orders with the `_simpleauth_sess` session cookie.
pub struct Humble {
    pub cookie: String,
}

impl Source for Humble {
    open spec fn kind(&self) -> BookSource {
        BookSource::HumbleBundle
    }

    fn name(&self) -> (r: &'static str) {
        "humble_bundle"
    }
}

// ---------------------------------------------------------------------------
// Fiction / comic screening of titles
// ---------------------------------------------------------------------------

/// Title keywords that mark fiction or comics. The order pages carry no genre,
/// so the title text is all there is to go on; a best-effort heuristic.
pub open spec fn fiction_keywords() -> Seq<Seq<char>> {
    seq![
        "comic"@, "comics"@, "graphic novel"@, "manga"@, "novel"@, "trilogy"@, "saga"@,
        "chronicles"@, "fantasy"@, "science fiction"@, "sci-fi"@, "scifi"@, "thriller"@,
        "short stories"@,
    ]
}

fn fiction_or_comic_keywords() -> (r: Vec<&'static str>)
    ensures
        static_strs(r@) == fiction_keywords(),
{
    let r = vec![
        "comic", "comics", "graphic novel", "manga", "novel", "trilogy", "saga", "chronicles",
        "fantasy", "science fiction", "sci-fi", "scifi", "thriller", "short stories",
    ];
    assert(static_strs(r@) =~= fiction_keywords());
    r
}

/// Every character of `w` is alphanumeric.
pub open spec fn all_alphanumeric(w: Seq<char>) -> bool {
    forall|i: int| 0 <= i < w.len() ==> alphanumeric_char(#[trigger] w[i])
}

/// `w` occurs in `s` at `i` with no alphanumeric character right before or
/// right after it.
pub open spec fn word_at(s: Seq<char>, w: Seq<char>, i: int) -> bool {
    &&& occurs_at(s, w, i)
    &&& (i == 0 || !alphanumeric_char(s[i - 1]))
    &&& (i + w.len() == s.len() || !alphanumeric_char(s[i + w.len()]))
}

/// The non-empty, all-alphanumeric `w` is one of the words of `s` (its maximal
/// runs of alphanumeric characters).
pub open spec fn has_word(s: Seq<char>, w: Seq<char>) -> bool {
    w.len() > 0 && exists|i: int| word_at(s, w, i)
}

/// A keyword made only of alphanumeric characters must appear as a whole
/// word; any other keyword (a phrase) as a substring.
pub open spec fn keyword_hit(lower: Seq<char>, kw: Seq<char>) -> bool {
    if all_alphanumeric(kw) {
        has_word(lower, kw)
    } else {
        contains_seq(lower, kw)
    }
}

/// The lowercased title contains one of the fiction keywords.
pub open spec fn fiction_or_comic(title: Seq<char>) -> bool {
    exists|k: int| 0 <= k < fiction_keywords().len() && keyword_hit(lowercase_of(title), #[trigger] fiction_keywords()[k])
}

fn all_alphanumeric_chars(w: &Vec<char>) -> (r: bool)
    ensures
        r == all_alphanumeric(w@),
{
    let mut i: usize = 0;
    while i < w.len()
        invariant
            i <= w@.len(),
            forall|k: int| 0 <= k < i ==> alphanumeric_char(#[trigger] w@[k]),
        decreases w@.len() - i,
    {
        if !is_alphanumeric(w[i]) {
            return false;
        }
        i = i + 1;
    }
    true
}

fn word_at_chars(s: &Vec<char>, w: &Vec<char>, i: usize) -> (r: bool)
    ensures
        r == word_at(s@, w@, i as int),
{
    let n = s.len();
    if !matches_at(s, w, i) {
        return false;
    }
    if i > 0 && is_alphanumeric(s[i - 1]) {
        return false;
    }
    let end = i + w.len();
    !(end < n && is_alphanumeric(s[end]))
}

fn has_word_chars(s: &Vec<char>, w: &Vec<char>) -> (r: bool)
    ensures
        r == has_word(s@, w@),
{
    if w.len() == 0 {
        return false;
    }
    if w.len() > s.len() {
        assert forall|j: int| !word_at(s@, w@, j) by {}
        return false;
    }
    let last = s.len() - w.len();
    let mut i: usize = 0;
    loop
        invariant
            i <= last,
            last + w@.len() == s@.len(),
            w@.len() > 0,
            forall|j: int| 0 <= j < i ==> !word_at(s@, w@, j),
        decreases last - i,
    {
        if word_at_chars(s, w, i) {
            return true;
        }
        if i == last {
            assert forall|j: int| !word_at(s@, w@, j) by {
                if 0 <= j && j < i {
                }
            }
            return false;
        }
        i = i + 1;
    }
}

/// Best-effort check whether `title` reads as fiction or a comic, from its
/// title text alone: a keyword of a single word must appear as a whole word of
/// the lowercased title, a phrase anywhere in it.
pub fn is_fiction_or_comic(title: &str) -> (r: bool)
    ensures
        r == fiction_or_comic(title@),
{
    let lower = chars_of(to_lowercase(title).as_str());
    let keywords = fiction_or_comic_keywords();
    let ghost kws = fiction_keywords();
    let mut k: usize = 0;
    while k < keywords.len()
        invariant
            k <= keywords@.len(),
            static_strs(keywords@) == kws,
            kws == fiction_keywords(),
            lower@ == lowercase_of(title@),
            forall|j: int| 0 <= j < k ==> !keyword_hit(lower@, #[trigger] kws[j]),
        decreases keywords@.len() - k,
    {
        let kw = chars_of(keywords[k]);
        assert(kw@ == kws[k as int]);
        let hit = if all_alphanumeric_chars(&kw) {
            has_word_chars(&lower, &kw)
        } else {
            contains_chars(&lower, &kw)
        };
        if hit {
            return true;
        }
        k = k + 1;
    }
    false
}

// ---------------------------------------------------------------------------
// Excluded bundle names
// ---------------------------------------------------------------------------

/// The bundle name contains (ignoring case) one of the terms; a term that is
/// blank after trimming never matches.
pub open spec fn bundle_excluded(name: Seq<char>, terms: Seq<Seq<char>>) -> bool {
    exists|k: int|
        0 <= k < terms.len() && trim_seq(#[trigger] terms[k]).len() > 0 && contains_seq(
            lowercase_of(name),
            lowercase_of(terms[k]),
        )
}

/// Whether `bundle_name` contains any of `terms`, case-insensitively; blank
/// terms never match.
pub fn matches_excluded_bundle(bundle_name: &str, terms: &[String]) -> (r: bool)
    ensures
        r == bundle_excluded(bundle_name@, strings_view(terms@)),
{
    let lower = chars_of(to_lowercase(bundle_name).as_str());
    let ghost tv = strings_view(terms@);
    let mut k: usize = 0;
    while k < terms.len()
        invariant
            k <= terms@.len(),
            tv == strings_view(terms@),
            lower@ == lowercase_of(bundle_name@),
            forall|j: int|
                0 <= j < k ==> !(trim_seq(#[trigger] tv[j]).len() > 0 && contains_seq(
                    lower@,
                    lowercase_of(tv[j]),
                )),
        decreases terms@.len() - k,
    {
        let term = &terms[k];
        assert(tv[k as int] == term@);
        let blank = trim(chars_of(term.as_str()).as_slice()).len() == 0;
        if !blank && contains_chars(&lower, &chars_of(to_lowercase(term.as_str()).as_str())) {
            return true;
        }
        k = k + 1;
    }
    false
}

// ---------------------------------------------------------------------------
// Owned orders
// ---------------------------------------------------------------------------

/// A download format name reduced to its key: lowercased, cut at the first
/// `(` ("pdf (hd)" is "pdf"), trimmed.
pub open spec fn format_key(name: Seq<char>) -> Seq<char> {
    trim_seq(before_first(lowercase_of(name), '('))
}

/// Reduces a download format name to its key (see [`format_key`]).
pub fn normalize_format(name: &str) -> (r: String)
    ensures
        r@ == format_key(name@),
{
    let lower = chars_of(to_lowercase(name).as_str());
    let mut i: usize = 0;
    while i < lower.len() && lower[i] != '('
        invariant
            i <= lower@.len(),
            forall|j: int| 0 <= j < i ==> lower@[j] != '(',
        decreases lower@.len() - i,
    {
        i = i + 1;
    }
    proof {
        lemma_before_first(lower@, '(', i as int);
    }
    let prefix = take_chars(&lower, i);
    string_of(trim(prefix.as_slice()).as_slice())
}

/// One file of a download.
pub struct DownloadStruct {
    pub name: String,
}

/// One platform's downloads of a subproduct.
pub struct Download {
    pub platform: String,
    pub download_struct: Vec<DownloadStruct>,
}

/// One item of an order.
pub struct Subproduct {
    pub human_name: String,
    pub machine_name: String,
    pub downloads: Vec<Download>,
}

/// The part of an order's detail document that is read.
pub struct OrderDetail {
    pub subproducts: Vec<Subproduct>,
}

/// A download for the `ebook` platform.
pub open spec fn is_ebook_download(d: Download) -> bool {
    d.platform@ == "ebook"@
}

/// Some download of the subproduct is an ebook.
pub open spec fn is_ebook(sp: Subproduct) -> bool {
    exists|k: int| 0 <= k < sp.downloads@.len() && is_ebook_download(#[trigger] sp.downloads@[k])
}

/// The format keys of a download's files, in order.
pub open spec fn struct_keys(ds: Seq<DownloadStruct>) -> Seq<Seq<char>> {
    ds.map_values(|d: DownloadStruct| format_key(d.name@))
}

/// The format keys of every ebook download's files, in order.
pub open spec fn ebook_format_keys(downloads: Seq<Download>) -> Seq<Seq<char>>
    decreases downloads.len(),
{
    if downloads.len() == 0 {
        Seq::empty()
    } else if is_ebook_download(downloads.last()) {
        ebook_format_keys(downloads.drop_last()) + struct_keys(downloads.last().download_struct@)
    } else {
        ebook_format_keys(downloads.drop_last())
    }
}

/// The book an ebook subproduct stands for: its name as the title, its
/// machine name (not the order's key: one order holds many books) as the
/// source id, its distinct format keys sorted, the order document kept as
/// raw data; authors, ISBN and cover are not in the order API.
pub open spec fn subproduct_book(sp: Subproduct, json: Seq<char>) -> BookView {
    BookView {
        id: None,
        title: sp.human_name@,
        authors: Seq::empty(),
        isbn: None,
        source: BookSource::HumbleBundle,
        source_id: Some(sp.machine_name@),
        formats: sorted_set(ebook_format_keys(sp.downloads@)),
        acquired_at: None,
        raw_json: Some(json),
        cover_url: None,
    }
}

/// The books of an order: one per ebook subproduct, in order.
pub open spec fn order_books(sps: Seq<Subproduct>, json: Seq<char>) -> Seq<BookView>
    decreases sps.len(),
{
    if sps.len() == 0 {
        Seq::empty()
    } else if is_ebook(sps.last()) {
        order_books(sps.drop_last(), json).push(subproduct_book(sps.last(), json))
    } else {
        order_books(sps.drop_last(), json)
    }
}

fn has_ebook_download(sp: &Subproduct) -> (r: bool)
    ensures
        r == is_ebook(*sp),
{
    let mut k: usize = 0;
    while k < sp.downloads.len()
        invariant
            k <= sp.downloads@.len(),
            forall|j: int| 0 <= j < k ==> !is_ebook_download(#[trigger] sp.downloads@[j]),
        decreases sp.downloads@.len() - k,
    {
        if str_eq(sp.downloads[k].platform.as_str(), "ebook") {
            return true;
        }
        k = k + 1;
    }
    false
}

fn ebook_formats(sp: &Subproduct) -> (r: Vec<String>)
    ensures
        r@.map_values(|p: String| p@) == ebook_format_keys(sp.downloads@),
{
    let mut keys: Vec<String> = Vec::new();
    let mut k: usize = 0;
    while k < sp.downloads.len()
        invariant
            k <= sp.downloads@.len(),
            keys@.map_values(|p: String| p@) == ebook_format_keys(sp.downloads@.take(k as int)),
        decreases sp.downloads@.len() - k,
    {
        let d = &sp.downloads[k];
        assert(sp.downloads@.take(k + 1).drop_last() =~= sp.downloads@.take(k as int));
        if str_eq(d.platform.as_str(), "ebook") {
            let ghost start = keys@.map_values(|p: String| p@);
            let mut m: usize = 0;
            while m < d.download_struct.len()
                invariant
                    m <= d.download_struct@.len(),
                    keys@.map_values(|p: String| p@) == start + struct_keys(d.download_struct@.take(m as int)),
                decreases d.download_struct@.len() - m,
            {
                let ghost before = keys@.map_values(|p: String| p@);
                keys.push(normalize_format(d.download_struct[m].name.as_str()));
                assert(d.download_struct@.take(m + 1) =~= d.download_struct@.take(m as int).push(d.download_struct@[m as int]));
                assert(struct_keys(d.download_struct@.take(m + 1)) =~= struct_keys(d.download_struct@.take(m as int)).push(
                    format_key(d.download_struct@[m as int].name@),
                ));
                assert(keys@.map_values(|p: String| p@) =~= before.push(format_key(d.download_struct@[m as int].name@)));
                m = m + 1;
            }
            assert(d.download_struct@.take(m as int) =~= d.download_struct@);
        }
        k = k + 1;
    }
    assert(sp.downloads@.take(k as int) =~= sp.downloads@);
    keys
}

/// The books of one order's detail document: one per subproduct with an
/// ebook download, in order, each keeping `json` as its raw data.
pub fn books_from_order(detail: &OrderDetail, json: &str) -> (r: Vec<Book>)
    ensures
        r@.map_values(|b: Book| b@) == order_books(detail.subproducts@, json@),
{
    let mut books: Vec<Book> = Vec::new();
    let mut i: usize = 0;
    while i < detail.subproducts.len()
        invariant
            i <= detail.subproducts@.len(),
            books@.map_values(|b: Book| b@) == order_books(detail.subproducts@.take(i as int), json@),
        decreases detail.subproducts@.len() - i,
    {
        let sp = &detail.subproducts[i];
        assert(detail.subproducts@.take(i + 1).drop_last() =~= detail.subproducts@.take(i as int));
        if has_ebook_download(sp) {
            let ghost before = books@.map_values(|b: Book| b@);
            let formats = sorted_unique(&ebook_formats(sp));
            let book = Book {
                id: None,
                title: sp.human_name.clone(),
                authors: Vec::new(),
                isbn: None,
                source: BookSource::HumbleBundle,
                source_id: Some(sp.machine_name.clone()),
                formats,
                acquired_at: None,
                raw_json: Some(json.to_owned()),
                cover_url: None,
            };
            books.push(book);
            assert(book@.authors =~= Seq::<Seq<char>>::empty());
            assert(book@ == subproduct_book(*sp, json@));
            assert(books@.map_values(|b: Book| b@) =~= before.push(subproduct_book(*sp, json@)));
        }
        i = i + 1;
    }
    assert(detail.subproducts@.take(i as int) =~= detail.subproducts@);
    books
}


// ---------------------------------------------------------------------------
// Embedded page data
// ---------------------------------------------------------------------------

/// Selector of the script tag holding a bundle landing page's data.
pub const BUNDLE_PAGE_SCRIPT: &'static str = "script#webpack-bundle-page-data";

/// Selector of the script tag holding the books storefront listing's data.
pub const LISTING_PAGE_SCRIPT: &'static str = "script#landingPage-json-data";

/// Why a page's embedded data could not be found.
#[derive(Debug, Clone, Copy, PartialEq, Eq, Structural)]
pub enum PageError {
    /// The selector itself was rejected.
    InvalidSelector,
    /// The page has no such script tag: not the expected kind of page, or its
    /// layout changed.
    MissingScript,
}

/// The embedded data of `html` under `selector`, or why there is none.
pub open spec fn embedded_json(html: Seq<char>, selector: Seq<char>) -> Result<Seq<char>, PageError> {
    if !selector_valid(selector) {
        Err(PageError::InvalidSelector)
    } else {
        match first_match_text(html, selector) {
            Some(t) => Ok(t),
            None => Err(PageError::MissingScript),
        }
    }
}

fn script_text(html: &str, selector: &str) -> (r: Result<String, PageError>)
    ensures
        match r {
            Ok(t) => embedded_json(html@, selector@) == Ok::<Seq<char>, PageError>(t@),
            Err(e) => embedded_json(html@, selector@) == Err::<Seq<char>, PageError>(e),
        },
{
    match select_first_text(html, selector) {
        Err(SelectorInvalid) => Err(PageError::InvalidSelector),
        Ok(None) => Err(PageError::MissingScript),
        Ok(Some(t)) => Ok(t),
    }
}

/// The JSON a bundle landing page embeds in its
/// `script#webpack-bundle-page-data` tag.
pub fn bundle_page_json(html: &str) -> (r: Result<String, PageError>)
    ensures
        match r {
            Ok(t) => embedded_json(html@, BUNDLE_PAGE_SCRIPT@) == Ok::<Seq<char>, PageError>(t@),
            Err(e) => embedded_json(html@, BUNDLE_PAGE_SCRIPT@) == Err::<Seq<char>, PageError>(e),
        },
{
    script_text(html, BUNDLE_PAGE_SCRIPT)
}

/// The JSON the books storefront listing embeds in its
/// `script#landingPage-json-data` tag.
pub fn listing_page_json(html: &str) -> (r: Result<String, PageError>)
    ensures
        match r {
            Ok(t) => embedded_json(html@, LISTING_PAGE_SCRIPT@) == Ok::<Seq<char>, PageError>(t@),
            Err(e) => embedded_json(html@, LISTING_PAGE_SCRIPT@) == Err::<Seq<char>, PageError>(e),
        },
{
    script_text(html, LISTING_PAGE_SCRIPT)
}

// ---------------------------------------------------------------------------
// Bundle landing pages
// ---------------------------------------------------------------------------

/// One entry of a bundle page's tier list (books, and non-book fillers such
/// as a charity slider).
pub struct TierItem {
    pub human_name: String,
    pub item_content_type: Option<String>,
    /// The developers' (authors') names.
    pub developers: Vec<String>,
}

/// The part of a bundle page's data that is read.
pub struct BundlePage {
    pub human_name: String,
    /// The tier entries, in no particular order (a JSON object upstream).
    pub tier_items: Vec<TierItem>,
}

/// One ebook of a bundle.
#[derive(Debug, Clone, PartialEq, Eq)]
pub struct BundleItem {
    pub title: String,
    pub authors: Vec<String>,
}

/// The content of a [`BundleItem`].
pub struct BundleItemView {
    pub title: Seq<char>,
    pub authors: Seq<Seq<char>>,
}

impl View for BundleItem {
    type V = BundleItemView;

    open spec fn view(&self) -> BundleItemView {
        BundleItemView { title: self.title@, authors: strings_view(self.authors@) }
    }
}

/// A bundle's name and its ebooks, for checking against the library before
/// buying.
#[derive(Debug, Clone, PartialEq, Eq)]
pub struct BundleContents {
    pub bundle_name: String,
    pub items: Vec<BundleItem>,
}

/// The views of a list of bundle items.
pub open spec fn items_view(v: Seq<BundleItem>) -> Seq<BundleItemView> {
    v.map_values(|b: BundleItem| b@)
}

/// Real books carry the content type `ebook`.
pub open spec fn is_ebook_item(t: TierItem) -> bool {
    t.item_content_type matches Some(c) && c@ == "ebook"@
}

/// The ebooks among tier entries, as bundle items, in the entries' order.
pub open spec fn ebook_items(ts: Seq<TierItem>) -> Seq<BundleItemView>
    decreases ts.len(),
{
    if ts.len() == 0 {
        Seq::empty()
    } else if is_ebook_item(ts.last()) {
        ebook_items(ts.drop_last()).push(BundleItemView { title: ts.last().human_name@, authors: strings_view(ts.last().developers@) })
    } else {
        ebook_items(ts.drop_last())
    }
}

/// Titles never decrease along the list.
pub open spec fn titles_sorted(v: Seq<BundleItemView>) -> bool {
    forall|i: int, j: int| 0 <= i < j < v.len() ==> !seq_lt(#[trigger] v[j].title, #[trigger] v[i].title)
}

fn insert_by_title(v: &mut Vec<BundleItem>, item: BundleItem)
    requires
        titles_sorted(items_view(old(v)@)),
    ensures
        titles_sorted(items_view(final(v)@)),
        items_view(final(v)@).to_multiset() == items_view(old(v)@).to_multiset().insert(item@),
{
    let ghost before = items_view(v@);
    let mut p: usize = 0;
    while p < v.len() && !crate::text::str_lt(item.title.as_str(), v[p].title.as_str())
        invariant
            p <= v@.len(),
            before == items_view(v@),
            forall|k: int| 0 <= k < p ==> !seq_lt(item@.title, #[trigger] before[k].title),
        decreases v@.len() - p,
    {
        p = p + 1;
    }
    let ghost x = item@;
    v.insert(p, item);
    let ghost after = items_view(v@);
    assert(after =~= before.insert(p as int, x));
    assert forall|i: int, j: int| 0 <= i < j < after.len() implies !seq_lt(#[trigger] after[j].title, #[trigger] after[i].title) by {
        if j < p {
            assert(after[i] == before[i] && after[j] == before[j]);
        } else if j == p {
            assert(after[i] == before[i] && after[j] == x);
        } else if i < p {
            assert(after[i] == before[i] && after[j] == before[j - 1]);
        } else if i == p {
            assert(after[i] == x && after[j] == before[j - 1]);
            assert(seq_lt(x.title, before[p as int].title));
            if j - 1 == p {
                crate::text::lemma_lt_asymmetric(x.title, before[p as int].title);
            } else {
                assert(!seq_lt(before[j - 1].title, before[p as int].title));
                if seq_lt(before[j - 1].title, x.title) {
                    crate::text::lemma_lt_transitive(before[j - 1].title, x.title, before[p as int].title);
                }
            }
        } else {
            assert(after[i] == before[i - 1] && after[j] == before[j - 1]);
        }
    }
    proof {
        vstd::seq_lib::to_multiset_insert(before, p as int, x);
    }
}

/// A bundle's name and its ebooks (entries of content type `ebook`, with the
/// developers as authors), sorted by title.
pub fn bundle_contents(page: &BundlePage) -> (r: BundleContents)
    ensures
        r.bundle_name@ == page.human_name@,
        items_view(r.items@).to_multiset() == ebook_items(page.tier_items@).to_multiset(),
        titles_sorted(items_view(r.items@)),
{
    let mut items: Vec<BundleItem> = Vec::new();
    let mut i: usize = 0;
    assert(items_view(items@) =~= Seq::<BundleItemView>::empty());
    assert(page.tier_items@.take(0) =~= Seq::<TierItem>::empty());
    while i < page.tier_items.len()
        invariant
            i <= page.tier_items@.len(),
            titles_sorted(items_view(items@)),
            items_view(items@).to_multiset() == ebook_items(page.tier_items@.take(i as int)).to_multiset(),
        decreases page.tier_items@.len() - i,
    {
        let t = &page.tier_items[i];
        let ghost prev = page.tier_items@.take(i as int);
        assert(page.tier_items@.take(i + 1).drop_last() =~= prev);
        let is_book = match &t.item_content_type {
            Some(c) => str_eq(c.as_str(), "ebook"),
            None => false,
        };
        if is_book {
            let item = BundleItem { title: t.human_name.clone(), authors: copy_strings(&t.developers) };
            proof {
                vstd::seq_lib::to_multiset_build(ebook_items(prev), item@);
            }
            assert(item@ == BundleItemView { title: t.human_name@, authors: strings_view(t.developers@) });
            insert_by_title(&mut items, item);
        }
        i = i + 1;
    }
    assert(page.tier_items@.take(i as int) =~= page.tier_items@);
    BundleContents { bundle_name: page.human_name.clone(), items }
}

/// The items whose titles do not read as fiction or comics, in order.
pub open spec fn non_fiction(v: Seq<BundleItemView>) -> Seq<BundleItemView>
    decreases v.len(),
{
    if v.len() == 0 {
        Seq::empty()
    } else if fiction_or_comic(v.last().title) {
        non_fiction(v.drop_last())
    } else {
        non_fiction(v.drop_last()).push(v.last())
    }
}

/// Drops the items whose titles read as fiction or comics (see
/// [`is_fiction_or_comic`]), keeping the rest in order.
pub fn without_fiction(items: Vec<BundleItem>) -> (r: Vec<BundleItem>)
    ensures
        items_view(r@) == non_fiction(items_view(items@)),
{
    let ghost all = items_view(items@);
    let mut rest = items;
    let mut kept: Vec<BundleItem> = Vec::new();
    let ghost mut done: int = 0;
    while rest.len() > 0
        invariant
            0 <= done <= all.len(),
            items_view(rest@) == all.skip(done),
            items_view(kept@) == non_fiction(all.take(done)),
        decreases rest@.len(),
    {
        let ghost before = items_view(kept@);
        let ghost old_rest = rest@;
        assert(items_view(old_rest).len() == old_rest.len());
        assert(done < all.len());
        let item = rest.remove(0);
        assert(all.take(done + 1).drop_last() =~= all.take(done));
        assert(items_view(old_rest)[0] == item@);
        assert(all.skip(done)[0] == item@);
        assert(items_view(rest@) =~= items_view(old_rest).drop_first());
        assert(items_view(rest@) =~= all.skip(done + 1));
        if !is_fiction_or_comic(item.title.as_str()) {
            kept.push(item);
            assert(items_view(kept@) =~= before.push(all[done]));
        }
        proof {
            done = done + 1;
        }
    }
    assert(all.take(done) =~= all);
    kept
}

// ---------------------------------------------------------------------------
// The books storefront listing
// ---------------------------------------------------------------------------

/// The site every listed product path belongs to.
pub const SITE: &'static str = "https://www.humblebundle.com";

/// One product tile of the listing.
pub struct ListingProduct {
    pub category: String,
    pub product_url: String,
}

/// The part of the books listing's data that is read: its sections' products.
pub struct ListingPage {
    pub sections: Vec<Vec<ListingProduct>>,
}

/// The full URLs of the bundle products of one section, in order.
pub open spec fn section_bundle_urls(ps: Seq<ListingProduct>) -> Seq<Seq<char>>
    decreases ps.len(),
{
    if ps.len() == 0 {
        Seq::empty()
    } else if ps.last().category@ == "bundle"@ {
        section_bundle_urls(ps.drop_last()).push(SITE@ + ps.last().product_url@)
    } else {
        section_bundle_urls(ps.drop_last())
    }
}

/// The full URLs of the bundle products of every section, in order.
pub open spec fn listing_bundle_urls(sections: Seq<Vec<ListingProduct>>) -> Seq<Seq<char>>
    decreases sections.len(),
{
    if sections.len() == 0 {
        Seq::empty()
    } else {
        listing_bundle_urls(sections.drop_last()) + section_bundle_urls(sections.last()@)
    }
}

/// The full URL of every bundle on the books listing (products of category
/// `bundle`; single books sold on their own are left out), sorted, each once.
pub fn active_bundle_urls(page: &ListingPage) -> (r: Vec<String>)
    ensures
        r@.map_values(|p: String| p@) == sorted_set(listing_bundle_urls(page.sections@)),
{
    let mut urls: Vec<String> = Vec::new();
    let mut i: usize = 0;
    while i < page.sections.len()
        invariant
            i <= page.sections@.len(),
            urls@.map_values(|p: String| p@) == listing_bundle_urls(page.sections@.take(i as int)),
        decreases page.sections@.len() - i,
    {
        let section = &page.sections[i];
        assert(page.sections@.take(i + 1).drop_last() =~= page.sections@.take(i as int));
        let ghost start = urls@.map_values(|p: String| p@);
        let mut k: usize = 0;
        while k < section.len()
            invariant
                k <= section@.len(),
                urls@.map_values(|p: String| p@) == start + section_bundle_urls(section@.take(k as int)),
            decreases section@.len() - k,
        {
            let product = &section[k];
            assert(section@.take(k + 1).drop_last() =~= section@.take(k as int));
            if str_eq(product.category.as_str(), "bundle") {
                let ghost before = urls@.map_values(|p: String| p@);
                let mut url = String::new();
                url.append(SITE);
                url.append(product.product_url.as_str());
                urls.push(url);
                assert(urls@.map_values(|p: String| p@) =~= before.push(SITE@ + product.product_url@));
            }
            k = k + 1;
        }
        assert(section@.take(k as int) =~= section@);
        i = i + 1;
    }
    assert(page.sections@.take(i as int) =~= page.sections@);
    sorted_unique(&urls)
}

// ---------------------------------------------------------------------------
// Bundle page addresses
// ---------------------------------------------------------------------------

/// For a URL that `reqwest::Url::parse` accepts, its host as
/// `Url::host_str` reports it; `None` when parsing fails.
pub uninterp spec fn url_host(url: Seq<char>) -> Option<Option<Seq<char>>>;

/// Parses `url` with `reqwest::Url::parse` and reads `Url::host_str`.
/// Claims: the result is named `url_host`. The parser's error value is not
/// passed on (its type lives in a crate this library does not name).
#[verifier::external_body]
fn parse_url_host(url: &str) -> (r: Option<Option<String>>)
    ensures
        match r {
            None => url_host(url@) is None,
            Some(h) => url_host(url@) == Some(opt_view(h)),
        },
{
    match reqwest::Url::parse(url) {
        Ok(u) => Some(u.host_str().map(String::from)),
        Err(_) => None,
    }
}

/// `humblebundle.com` or one of its subdomains.
pub open spec fn humble_host(h: Seq<char>) -> bool {
    h == "humblebundle.com"@ || has_suffix(h, ".humblebundle.com"@)
}

/// Why a bundle page address was refused.
#[derive(Debug, Clone, Copy, PartialEq, Eq, Structural)]
pub enum BundleUrlError {
    /// Not a URL at all.
    NotAUrl,
    /// A URL, but not on humblebundle.com.
    NotHumbleBundle,
}

/// Accepts only URLs on humblebundle.com (or a subdomain), before any request
/// is made: the address comes straight from user input.
pub fn validate_bundle_url(url: &str) -> (r: Result<(), BundleUrlError>)
    ensures
        r == Err::<(), BundleUrlError>(BundleUrlError::NotAUrl) <==> url_host(url@) is None,
        r is Ok <==> (url_host(url@) matches Some(Some(h)) && humble_host(h)),
{
    match parse_url_host(url) {
        None => Err(BundleUrlError::NotAUrl),
        Some(None) => Err(BundleUrlError::NotHumbleBundle),
        Some(Some(h)) => {
            if str_eq(h.as_str(), "humblebundle.com") || str_ends_with(h.as_str(), ".humblebundle.com") {
                Ok(())
            } else {
                Err(BundleUrlError::NotHumbleBundle)
            }
        },
    }
}

// ---------------------------------------------------------------------------
// Checking every active bundle
// ---------------------------------------------------------------------------

/// One bundle's outcome in a batch check: its contents, or the message of
/// the error that bundle alone ran into.
pub struct ActiveBundleCheck {
    pub url: String,
    pub result: Result<BundleContents, String>,
}

/// The check is kept: it failed (errors are always shown), or its bundle name
/// matches none of the exclude terms.
pub open spec fn check_kept(c: ActiveBundleCheck, terms: Seq<Seq<char>>) -> bool {
    match c.result {
        Ok(contents) => !bundle_excluded(contents.bundle_name@, terms),
        Err(_) => true,
    }
}

/// The kept checks, in order.
pub open spec fn kept_checks(cs: Seq<ActiveBundleCheck>, terms: Seq<Seq<char>>) -> Seq<ActiveBundleCheck>
    decreases cs.len(),
{
    if cs.len() == 0 {
        Seq::empty()
    } else if check_kept(cs.last(), terms) {
        kept_checks(cs.drop_last(), terms).push(cs.last())
    } else {
        kept_checks(cs.drop_last(), terms)
    }
}

/// Drops the bundles whose names match an exclude term (failed checks are
/// kept), in order; also returns how many were dropped.
pub fn without_excluded_bundles(checks: Vec<ActiveBundleCheck>, terms: &[String]) -> (r: (Vec<ActiveBundleCheck>, usize))
    ensures
        r.0@ == kept_checks(checks@, strings_view(terms@)),
        r.1 + r.0@.len() == checks@.len(),
{
    let ghost all = checks@;
    let ghost tv = strings_view(terms@);
    let n = checks.len();
    let mut rest = checks;
    let mut kept: Vec<ActiveBundleCheck> = Vec::new();
    let mut dropped: usize = 0;
    let ghost mut done: int = 0;
    while rest.len() > 0
        invariant
            0 <= done <= all.len(),
            rest@ == all.skip(done),
            kept@ == kept_checks(all.take(done), tv),
            tv == strings_view(terms@),
            dropped + kept@.len() == done,
            all.len() == n,
        decreases rest@.len(),
    {
        let check = rest.remove(0);
        assert(all.take(done + 1).drop_last() =~= all.take(done));
        assert(all.skip(done)[0] == check);
        assert(rest@ =~= all.skip(done + 1));
        let keep = match &check.result {
            Ok(contents) => !matches_excluded_bundle(contents.bundle_name.as_str(), terms),
            Err(_) => true,
        };
        if keep {
            kept.push(check);
        } else {
            dropped = dropped + 1;
        }
        proof {
            done = done + 1;
        }
    }
    assert(all.take(done) =~= all);
    (kept, dropped)
}


/// A whole word of `s` is a keyword hit, whether the keyword is matched as a
/// word or as a phrase.
pub proof fn lemma_word_is_keyword_hit(s: Seq<char>, w: Seq<char>)
    requires
        has_word(s, w),
    ensures
        keyword_hit(s, w),
        contains_seq(s, w),
{
    let i = choose|i: int| word_at(s, w, i);
    assert(occurs_at(s, w, i));
}

/// The fiction screen's keywords: a title is screened as fiction or a comic
/// whenever its lowercased text has one of comic, comics, graphic novel,
/// manga, novel, trilogy, saga, chronicles, fantasy, science fiction, sci-fi,
/// scifi, thriller or short stories as a whole word (or words), and only when
/// it contains one of them.
pub proof fn law_fiction_keywords(t: Seq<char>)
    ensures
        has_word(lowercase_of(t), "comic"@) ==> fiction_or_comic(t),
        has_word(lowercase_of(t), "comics"@) ==> fiction_or_comic(t),
        has_word(lowercase_of(t), "graphic novel"@) ==> fiction_or_comic(t),
        has_word(lowercase_of(t), "manga"@) ==> fiction_or_comic(t),
        has_word(lowercase_of(t), "novel"@) ==> fiction_or_comic(t),
        has_word(lowercase_of(t), "trilogy"@) ==> fiction_or_comic(t),
        has_word(lowercase_of(t), "saga"@) ==> fiction_or_comic(t),
        has_word(lowercase_of(t), "chronicles"@) ==> fiction_or_comic(t),
        has_word(lowercase_of(t), "fantasy"@) ==> fiction_or_comic(t),
        has_word(lowercase_of(t), "science fiction"@) ==> fiction_or_comic(t),
        has_word(lowercase_of(t), "sci-fi"@) ==> fiction_or_comic(t),
        has_word(lowercase_of(t), "scifi"@) ==> fiction_or_comic(t),
        has_word(lowercase_of(t), "thriller"@) ==> fiction_or_comic(t),
        has_word(lowercase_of(t), "short stories"@) ==> fiction_or_comic(t),
        fiction_or_comic(t) ==> (contains_seq(lowercase_of(t), "comic"@) || contains_seq(lowercase_of(t), "comics"@) || contains_seq(lowercase_of(t), "graphic novel"@) || contains_seq(lowercase_of(t), "manga"@) || contains_seq(lowercase_of(t), "novel"@) || contains_seq(lowercase_of(t), "trilogy"@) || contains_seq(lowercase_of(t), "saga"@) || contains_seq(lowercase_of(t), "chronicles"@) || contains_seq(lowercase_of(t), "fantasy"@) || contains_seq(lowercase_of(t), "science fiction"@) || contains_seq(lowercase_of(t), "sci-fi"@) || contains_seq(lowercase_of(t), "scifi"@) || contains_seq(lowercase_of(t), "thriller"@) || contains_seq(lowercase_of(t), "short stories"@)),
{
    let l = lowercase_of(t);
    if has_word(l, "comic"@) {
        lemma_word_is_keyword_hit(l, "comic"@);
        assert(fiction_keywords()[0] == "comic"@);
    }
    if has_word(l, "comics"@) {
        lemma_word_is_keyword_hit(l, "comics"@);
        assert(fiction_keywords()[1] == "comics"@);
    }
    if has_word(l, "graphic novel"@) {
        lemma_word_is_keyword_hit(l, "graphic novel"@);
        assert(fiction_keywords()[2] == "graphic novel"@);
    }
    if has_word(l, "manga"@) {
        lemma_word_is_keyword_hit(l, "manga"@);
        assert(fiction_keywords()[3] == "manga"@);
    }
    if has_word(l, "novel"@) {
        lemma_word_is_keyword_hit(l, "novel"@);
        assert(fiction_keywords()[4] == "novel"@);
    }
    if has_word(l, "trilogy"@) {
        lemma_word_is_keyword_hit(l, "trilogy"@);
        assert(fiction_keywords()[5] == "trilogy"@);
    }
    if has_word(l, "saga"@) {
        lemma_word_is_keyword_hit(l, "saga"@);
        assert(fiction_keywords()[6] == "saga"@);
    }
    if has_word(l, "chronicles"@) {
        lemma_word_is_keyword_hit(l, "chronicles"@);
        assert(fiction_keywords()[7] == "chronicles"@);
    }
    if has_word(l, "fantasy"@) {
        lemma_word_is_keyword_hit(l, "fantasy"@);
        assert(fiction_keywords()[8] == "fantasy"@);
    }
    if has_word(l, "science fiction"@) {
        lemma_word_is_keyword_hit(l, "science fiction"@);
        assert(fiction_keywords()[9] == "science fiction"@);
    }
    if has_word(l, "sci-fi"@) {
        lemma_word_is_keyword_hit(l, "sci-fi"@);
        assert(fiction_keywords()[10] == "sci-fi"@);
    }
    if has_word(l, "scifi"@) {
        lemma_word_is_keyword_hit(l, "scifi"@);
        assert(fiction_keywords()[11] == "scifi"@);
    }
    if has_word(l, "thriller"@) {
        lemma_word_is_keyword_hit(l, "thriller"@);
        assert(fiction_keywords()[12] == "thriller"@);
    }
    if has_word(l, "short stories"@) {
        lemma_word_is_keyword_hit(l, "short stories"@);
        assert(fiction_keywords()[13] == "short stories"@);
    }
    if fiction_or_comic(t) {
        let k = choose|k: int| 0 <= k < fiction_keywords().len() && keyword_hit(l, #[trigger] fiction_keywords()[k]);
        let kw = fiction_keywords()[k];
        if all_alphanumeric(kw) {
            lemma_word_is_keyword_hit(l, kw);
        }
        assert(contains_seq(l, kw));
    }
}

/// Exclusion ignores the case of the terms as well as of the name: term lists
/// whose terms lowercase alike, one by one, and are blank alike exclude the
/// same bundles.
pub proof fn law_exclusion_ignores_term_case(name: Seq<char>, terms1: Seq<Seq<char>>, terms2: Seq<Seq<char>>)
    requires
        terms1.len() == terms2.len(),
        forall|k: int|
            0 <= k < terms1.len() ==> lowercase_of(#[trigger] terms1[k]) == lowercase_of(terms2[k]) && (trim_seq(terms1[k]).len()
                > 0 <==> trim_seq(terms2[k]).len() > 0),
    ensures
        bundle_excluded(name, terms1) == bundle_excluded(name, terms2),
{
    if bundle_excluded(name, terms1) {
        let k = choose|k: int|
            0 <= k < terms1.len() && trim_seq(#[trigger] terms1[k]).len() > 0 && contains_seq(lowercase_of(name), lowercase_of(terms1[k]));
        assert(trim_seq(terms2[k]).len() > 0 && contains_seq(lowercase_of(name), lowercase_of(terms2[k])));
    }
    if bundle_excluded(name, terms2) {
        let k = choose|k: int|
            0 <= k < terms2.len() && trim_seq(#[trigger] terms2[k]).len() > 0 && contains_seq(lowercase_of(name), lowercase_of(terms2[k]));
        assert(lowercase_of(terms1[k]) == lowercase_of(terms2[k]));
        assert(trim_seq(terms1[k]).len() > 0 && contains_seq(lowercase_of(name), lowercase_of(terms1[k])));
    }
}

/// The bundle item a tier entry stands for.
pub open spec fn entry_item(t: TierItem) -> BundleItemView {
    BundleItemView { title: t.human_name@, authors: strings_view(t.developers@) }
}

/// Every bundle item comes from a tier entry whose content type is exactly
/// `ebook`: an entry of any other type, or of none, never becomes an item.
pub proof fn law_bundle_items_are_ebooks(ts: Seq<TierItem>, i: int)
    requires
        0 <= i < ebook_items(ts).len(),
    ensures
        exists|k: int|
            0 <= k < ts.len() && opt_view((#[trigger] ts[k]).item_content_type) == Some("ebook"@) && ebook_items(ts)[i]
                == entry_item(ts[k]),
    decreases ts.len(),
{
    let prev = ebook_items(ts.drop_last());
    if is_ebook_item(ts.last()) && i == prev.len() {
        assert(ts[ts.len() - 1] == ts.last());
    } else {
        law_bundle_items_are_ebooks(ts.drop_last(), i);
        let k = choose|k: int|
            0 <= k < ts.drop_last().len() && opt_view((#[trigger] ts.drop_last()[k]).item_content_type) == Some("ebook"@)
                && prev[i] == entry_item(ts.drop_last()[k]);
        assert(ts[k] == ts.drop_last()[k]);
    }
}

/// Every tier entry whose content type is exactly `ebook` becomes a bundle
/// item.
pub proof fn law_ebook_entries_are_items(ts: Seq<TierItem>, k: int)
    requires
        0 <= k < ts.len(),
        opt_view(ts[k].item_content_type) == Some("ebook"@),
    ensures
        ebook_items(ts).contains(entry_item(ts[k])),
    decreases ts.len(),
{
    let prev = ebook_items(ts.drop_last());
    if k == ts.len() - 1 {
        assert(ebook_items(ts).last() == entry_item(ts[k]));
        assert(ebook_items(ts)[ebook_items(ts).len() - 1] == entry_item(ts[k]));
    } else {
        law_ebook_entries_are_items(ts.drop_last(), k);
        assert(ts.drop_last()[k] == ts[k]);
        let m = choose|m: int| 0 <= m < prev.len() && prev[m] == entry_item(ts[k]);
        if is_ebook_item(ts.last()) {
            assert(ebook_items(ts)[m] == prev[m]);
        } else {
            assert(ebook_items(ts)[m] == prev[m]);
        }
    }
}

/// Blank terms never exclude a bundle; in particular an empty list excludes
/// nothing.
pub proof fn law_blank_terms_never_exclude(name: Seq<char>, terms: Seq<Seq<char>>)
    requires
        forall|k: int| 0 <= k < terms.len() ==> trim_seq(#[trigger] terms[k]).len() == 0,
    ensures
        !bundle_excluded(name, terms),
{
}

/// Exclusion ignores case: bundle names that lowercase alike are excluded
/// alike.
pub proof fn law_exclusion_ignores_case(a: Seq<char>, b: Seq<char>, terms: Seq<Seq<char>>)
    requires
        lowercase_of(a) == lowercase_of(b),
    ensures
        bundle_excluded(a, terms) == bundle_excluded(b, terms),
{
}

/// The fiction screen ignores case: titles that lowercase alike are screened
/// alike.
pub proof fn law_fiction_check_ignores_case(a: Seq<char>, b: Seq<char>)
    requires
        lowercase_of(a) == lowercase_of(b),
    ensures
        fiction_or_comic(a) == fiction_or_comic(b),
{
}

/// A batch check never hides a bundle that failed to load, and drops exactly
/// the bundles whose names match an exclude term.
pub proof fn law_failed_checks_kept(checks: Seq<ActiveBundleCheck>, terms: Seq<Seq<char>>, k: int)
    requires
        0 <= k < checks.len(),
        checks[k].result is Err,
    ensures
        kept_checks(checks, terms).contains(checks[k]),
    decreases checks.len(),
{
    if k == checks.len() - 1 {
        let kept = kept_checks(checks, terms);
        assert(kept.last() == checks[k]);
        assert(kept[kept.len() - 1] == checks[k]);
    } else {
        law_failed_checks_kept(checks.drop_last(), terms, k);
        assert(checks.drop_last()[k] == checks[k]);
        let prev = kept_checks(checks.drop_last(), terms);
        let m = choose|m: int| 0 <= m < prev.len() && prev[m] == checks[k];
        if check_kept(checks.last(), terms) {
            assert(kept_checks(checks, terms)[m] == checks[k]);
        }
    }
}

} // verus!
