//! Packt: the owned-entitlements API, authenticated by the session cookie jar
//! whose `XSRF-TOKEN` value is echoed back in a request header. The caller
//! performs the paged requests and decodes each page; this module reads the
//! token out of the jar, turns a page into books and decides whether another
//! page is needed.

use vstd::prelude::*;
use vstd::string::StrSliceExecFns;

use crate::model::{Book, BookView, Source as BookSource, copy_opt, opt_view};
use crate::sources::Source;
use crate::text::{
    before_first, chars_of, is_whitespace, lemma_before_first, lemma_split_char_nonempty,
    lemma_split_char_prefix, lemma_split_char_step, lemma_trim_end_skip, lemma_trim_start_skip,
    matches_at, split_char, string_of, take_chars, trim_end_seq, trim_seq, trim_start_seq,
    whitespace_char,
};

verus! {

/// Imports owned Packt books with the subscription site's cookie jar
/// (`packt_session` and `XSRF-TOKEN` among them).
pub struct Packt {
    pub cookies: String,
}

impl Source for Packt {
    open spec fn kind(&self) -> BookSource {
        BookSource::Packt
    }

    fn name(&self) -> (r: &'static str) {
        "packt"
    }
}

/// The cookie whose value is the CSRF token the API expects echoed back.
pub const XSRF_COOKIE_NAME: &'static str = "XSRF-TOKEN";

/// Products asked for per page.
pub const PAGE_LIMIT: u32 = 100;

// ---------------------------------------------------------------------------
// The CSRF token
// ---------------------------------------------------------------------------

/// The value of one `name=value` jar entry (trimmed, split at its first `=`)
/// when its name is `XSRF-TOKEN`.
pub open spec fn xsrf_value(pair: Seq<char>) -> Option<Seq<char>> {
    let t = trim_seq(pair);
    let name = before_first(t, '=');
    if name.len() < t.len() && name == XSRF_COOKIE_NAME@ {
        Some(t.skip(name.len() as int + 1))
    } else {
        None
    }
}

/// The token of the first entry that carries one.
pub open spec fn first_xsrf(pairs: Seq<Seq<char>>) -> Option<Seq<char>>
    decreases pairs.len(),
{
    if pairs.len() == 0 {
        None
    } else if xsrf_value(pairs[0]) is Some {
        xsrf_value(pairs[0])
    } else {
        first_xsrf(pairs.drop_first())
    }
}

/// The `XSRF-TOKEN` value of a `name=value; name=value` jar.
pub open spec fn jar_xsrf(cookies: Seq<char>) -> Option<Seq<char>> {
    first_xsrf(split_char(cookies, ';'))
}

proof fn lemma_first_xsrf(pairs: Seq<Seq<char>>, m: int)
    requires
        0 <= m <= pairs.len(),
        forall|k: int| 0 <= k < m ==> xsrf_value(#[trigger] pairs[k]) is None,
    ensures
        m < pairs.len() && xsrf_value(pairs[m]) is Some ==> first_xsrf(pairs) == xsrf_value(pairs[m]),
        m == pairs.len() ==> first_xsrf(pairs) is None,
    decreases m,
{
    if m > 0 {
        assert forall|k: int| 0 <= k < m - 1 implies xsrf_value(#[trigger] pairs.drop_first()[k]) is None by {
            assert(pairs.drop_first()[k] == pairs[k + 1]);
        }
        lemma_first_xsrf(pairs.drop_first(), m - 1);
        assert(xsrf_value(pairs[0]) is None);
    }
}

/// Where the token of the entry `chars[start..end]` lies in `chars`, if that
/// entry is the `XSRF-TOKEN` one.
fn xsrf_bounds(chars: &Vec<char>, start: usize, end: usize) -> (r: Option<(usize, usize)>)
    requires
        start <= end <= chars@.len(),
    ensures
        match r {
            Some((a, b)) => a <= b <= chars@.len() && xsrf_value(chars@.subrange(start as int, end as int)) == Some(
                chars@.subrange(a as int, b as int),
            ),
            None => xsrf_value(chars@.subrange(start as int, end as int)) is None,
        },
{
    let ghost piece = chars@.subrange(start as int, end as int);
    let mut s = start;
    while s < end && is_whitespace(chars[s])
        invariant
            start <= s <= end <= chars@.len(),
            forall|k: int| start <= k < s ==> whitespace_char(#[trigger] chars@[k]),
        decreases end - s,
    {
        s = s + 1;
    }
    let mut e = end;
    while e > s && is_whitespace(chars[e - 1])
        invariant
            start <= s <= e <= end <= chars@.len(),
            forall|k: int| e <= k < end ==> whitespace_char(#[trigger] chars@[k]),
        decreases e,
    {
        e = e - 1;
    }
    proof {
        assert forall|k: int| 0 <= k < s - start implies whitespace_char(#[trigger] piece[k]) by {
            assert(piece[k] == chars@[start + k]);
        }
        lemma_trim_start_skip(piece, s - start);
        let rest = piece.subrange(s - start, piece.len() as int);
        assert(rest =~= chars@.subrange(s as int, end as int));
        if rest.len() > 0 {
            assert(rest[0] == chars@[s as int]);
        }
        assert(trim_start_seq(rest) == rest);
        assert forall|k: int| e - s <= k < rest.len() implies whitespace_char(#[trigger] rest[k]) by {
            assert(rest[k] == chars@[s + k]);
        }
        lemma_trim_end_skip(rest, e - s);
        let t = rest.subrange(0, e - s);
        assert(t =~= chars@.subrange(s as int, e as int));
        if t.len() > 0 {
            assert(t.last() == chars@[e - 1]);
        }
        assert(trim_end_seq(t) == t);
        assert(trim_seq(piece) == chars@.subrange(s as int, e as int));
    }
    let ghost t = chars@.subrange(s as int, e as int);
    let mut q = s;
    while q < e && chars[q] != '='
        invariant
            s <= q <= e <= chars@.len(),
            forall|k: int| s <= k < q ==> chars@[k] != '=',
        decreases e - q,
    {
        q = q + 1;
    }
    proof {
        assert forall|k: int| 0 <= k < q - s implies t[k] != '=' by {
            assert(t[k] == chars@[s + k]);
        }
        if q < e {
            assert(t[q - s] == chars@[q as int]);
        }
        lemma_before_first(t, '=', q - s);
    }
    if q == e {
        return None;
    }
    let name = chars_of(XSRF_COOKIE_NAME);
    if q - s != name.len() || !matches_at(chars, &name, s) {
        proof {
            if t.take(q - s) == XSRF_COOKIE_NAME@ {
                assert(chars@.subrange(s as int, s + name@.len()) =~= t.take(q - s));
            }
        }
        return None;
    }
    assert(t.take(q - s) =~= chars@.subrange(s as int, s + name@.len()));
    assert(t.skip(q - s + 1) =~= chars@.subrange(q + 1, e as int));
    Some((q + 1, e))
}

/// The `XSRF-TOKEN` cookie's value in a `name=value; name=value` jar: the
/// first entry (split at `;`, trimmed, split at its first `=`) named so.
pub fn xsrf_token<'a>(cookies: &'a str) -> (r: Option<&'a str>)
    ensures
        match r {
            Some(v) => jar_xsrf(cookies@) == Some(v@),
            None => jar_xsrf(cookies@) is None,
        },
{
    let chars = chars_of(cookies);
    let n = chars.len();
    let ghost full = split_char(chars@, ';');
    let mut start: usize = 0;
    let mut i: usize = 0;
    let ghost mut m: int = 0;
    assert(chars@.take(0) =~= Seq::<char>::empty());
    assert(chars@.take(n as int) =~= chars@);
    while i < n
        invariant
            start <= i <= n,
            0 <= m,
            n == chars@.len(),
            chars@ == cookies@,
            full == split_char(chars@, ';'),
            split_char(chars@.take(i as int), ';').len() == m + 1,
            split_char(chars@.take(i as int), ';').last() == chars@.subrange(start as int, i as int),
            forall|k: int| 0 <= k < m ==> xsrf_value(#[trigger] split_char(chars@.take(i as int), ';')[k]) is None,
        decreases n - i,
    {
        let ghost now = split_char(chars@.take(i as int), ';');
        proof {
            lemma_split_char_step(chars@, ';', i as int);
        }
        if chars[i] == ';' {
            let found = xsrf_bounds(&chars, start, i);
            proof {
                lemma_split_char_prefix(chars@, ';', i + 1, n as int);
                assert(chars@.take(n as int) =~= chars@);
                assert(split_char(chars@.take(n as int), ';') == full);
                let next = split_char(chars@.take(i + 1), ';');
                assert(full.len() >= next.len());
                assert(next == now.push(Seq::empty()));
                assert(full.take(next.len() - 1) == next.drop_last());
                assert(next.drop_last() =~= now);
                assert forall|k: int| 0 <= k <= m implies full[k] == now[k] by {
                    assert(full.take(next.len() - 1)[k] == full[k]);
                }
                assert forall|k: int| 0 <= k < m implies xsrf_value(#[trigger] full[k]) is None by {
                    assert(full[k] == now[k]);
                }
                lemma_first_xsrf(full, m);
            }
            match found {
                Some((a, b)) => {
                    return Some(cookies.substring_char(a, b));
                },
                None => {
                    proof {
                        let next = split_char(chars@.take(i + 1), ';');
                        assert forall|k: int| 0 <= k < m + 1 implies xsrf_value(#[trigger] next[k]) is None by {
                            assert(next[k] == now[k]);
                        }
                        assert(chars@.subrange(i + 1, i + 1) =~= Seq::<char>::empty());
                        m = m + 1;
                    }
                    start = i + 1;
                },
            }
        } else {
            proof {
                let next = split_char(chars@.take(i + 1), ';');
                assert(next.last() =~= chars@.subrange(start as int, i + 1));
                assert forall|k: int| 0 <= k < m implies xsrf_value(#[trigger] next[k]) is None by {
                    assert(next[k] == now[k]);
                }
            }
        }
        i = i + 1;
    }
    let found = xsrf_bounds(&chars, start, n);
    proof {
        assert(chars@.take(i as int) =~= chars@);
        assert(split_char(chars@.take(i as int), ';') == full);
        lemma_first_xsrf(full, m);
    }
    match found {
        Some((a, b)) => Some(cookies.substring_char(a, b)),
        None => {
            proof {
                lemma_first_xsrf(full, m + 1);
            }
            None
        },
    }
}

// ---------------------------------------------------------------------------
// Error bodies
// ---------------------------------------------------------------------------

/// At most `max` characters of `s`, with `...` appended when cut.
pub open spec fn truncated(s: Seq<char>, max: nat) -> Seq<char> {
    if s.len() <= max {
        s
    } else {
        s.take(max as int) + "..."@
    }
}

/// Shortens a response body to at most `max_chars` characters (on character
/// boundaries) for an error message, marking the cut with `...`.
pub fn truncate_body(s: &str, max_chars: usize) -> (r: String)
    ensures
        r@ == truncated(s@, max_chars as nat),
{
    let chars = chars_of(s);
    if chars.len() <= max_chars {
        return s.to_owned();
    }
    let mut out = string_of(take_chars(&chars, max_chars).as_slice());
    out.append("...");
    out
}

// ---------------------------------------------------------------------------
// Product pages
// ---------------------------------------------------------------------------

/// The catalogue fields of an owned product that are read.
pub struct SimplifiedProduct {
    pub isbn13: Option<String>,
    pub small_image: Option<String>,
    pub cover_image: Option<String>,
}

/// One owned product.
pub struct ProductEntry {
    /// Packt's product identifier (a string, often an ISBN-13).
    pub product_id: Option<String>,
    pub product_name: String,
    pub simplified_product: Option<SimplifiedProduct>,
}

/// One page of the owned-products listing.
pub struct ProductsPage {
    /// The total number of owned products, when the API reports it.
    pub count: Option<i64>,
    pub data: Vec<ProductEntry>,
}

/// A string that is present and not empty.
pub open spec fn non_empty(o: Option<Seq<char>>) -> Option<Seq<char>> {
    match o {
        Some(s) => if s.len() > 0 {
            Some(s)
        } else {
            None
        },
        None => None,
    }
}

/// The product's ISBN-13, when present and not empty.
pub open spec fn product_isbn(e: ProductEntry) -> Option<Seq<char>> {
    match e.simplified_product {
        Some(sp) => non_empty(opt_view(sp.isbn13)),
        None => None,
    }
}

/// The product's cover: the full-size image when present (else the small
/// one), unless that is empty.
pub open spec fn product_cover(e: ProductEntry) -> Option<Seq<char>> {
    match e.simplified_product {
        Some(sp) => non_empty(
            if sp.cover_image is Some {
                opt_view(sp.cover_image)
            } else {
                opt_view(sp.small_image)
            },
        ),
        None => None,
    }
}

/// The book an owned product stands for; authors and formats are not in the
/// listing.
pub open spec fn product_book(e: ProductEntry) -> BookView {
    BookView {
        id: None,
        title: e.product_name@,
        authors: Seq::empty(),
        isbn: product_isbn(e),
        source: BookSource::Packt,
        source_id: opt_view(e.product_id),
        formats: Seq::empty(),
        acquired_at: None,
        raw_json: None,
        cover_url: product_cover(e),
    }
}

fn non_empty_copy(o: &Option<String>) -> (r: Option<String>)
    ensures
        opt_view(r) == non_empty(opt_view(*o)),
{
    match o {
        Some(s) => if s.as_str().is_empty() {
            None
        } else {
            Some(s.clone())
        },
        None => None,
    }
}

fn product_to_book(e: &ProductEntry) -> (r: Book)
    ensures
        r@ == product_book(*e),
{
    let (isbn, cover_url) = match &e.simplified_product {
        Some(sp) => {
            let chosen = if sp.cover_image.is_some() {
                &sp.cover_image
            } else {
                &sp.small_image
            };
            (non_empty_copy(&sp.isbn13), non_empty_copy(chosen))
        },
        None => (None, None),
    };
    let book = Book {
        id: None,
        title: e.product_name.clone(),
        authors: Vec::new(),
        isbn,
        source: BookSource::Packt,
        source_id: copy_opt(&e.product_id),
        formats: Vec::new(),
        acquired_at: None,
        raw_json: None,
        cover_url,
    };
    assert(book@.authors =~= Seq::<Seq<char>>::empty());
    assert(book@.formats =~= Seq::<Seq<char>>::empty());
    book
}

/// The reported total and the books of one page, one per product, in order.
pub fn books_from_products_page(page: &ProductsPage) -> (r: (Option<i64>, Vec<Book>))
    ensures
        r.0 == page.count,
        r.1@.map_values(|b: Book| b@) == page.data@.map_values(|e: ProductEntry| product_book(e)),
{
    let mut books: Vec<Book> = Vec::new();
    let mut i: usize = 0;
    while i < page.data.len()
        invariant
            i <= page.data@.len(),
            books@.map_values(|b: Book| b@) == page.data@.take(i as int).map_values(|e: ProductEntry| product_book(e)),
        decreases page.data@.len() - i,
    {
        let ghost before = books@.map_values(|b: Book| b@);
        books.push(product_to_book(&page.data[i]));
        assert(page.data@.take(i + 1) =~= page.data@.take(i as int).push(page.data@[i as int]));
        assert(page.data@.take(i + 1).map_values(|e: ProductEntry| product_book(e)) =~= page.data@.take(i as int).map_values(
            |e: ProductEntry| product_book(e),
        ).push(product_book(page.data@[i as int])));
        assert(books@.map_values(|b: Book| b@) =~= page.data@.take(i + 1).map_values(|e: ProductEntry| product_book(e)));
        i = i + 1;
    }
    assert(page.data@.take(i as int) =~= page.data@);
    (page.count, books)
}

// ---------------------------------------------------------------------------
// Paging
// ---------------------------------------------------------------------------

/// Whether the listing is exhausted after a page: a short (or empty) page
/// always ends it; a reported total, once reached, ends it a page early.
pub open spec fn listing_done(page_len: u32, count: Option<i64>, total: int) -> bool {
    page_len == 0 || page_len < PAGE_LIMIT || (count matches Some(c) && total >= c)
}

/// After a page of `page_len` products at `offset`, with `total` products
/// gathered so far: the offset of the next page, or `None` when done.
pub fn next_offset(offset: u32, page_len: u32, count: Option<i64>, total: usize) -> (r: Option<u32>)
    requires
        offset + page_len <= u32::MAX,
        total <= i64::MAX,
    ensures
        listing_done(page_len, count, total as int) <==> r is None,
        r matches Some(o) ==> o == offset + page_len,
{
    let reached = match count {
        Some(c) => total as i64 >= c,
        None => false,
    };
    if page_len == 0 || page_len < PAGE_LIMIT || reached {
        None
    } else {
        Some(offset + page_len)
    }
}

} // verus!
