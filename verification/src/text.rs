//! Character-level string helpers shared by the rest of the library.

use vstd::prelude::*;

verus! {

/// Unicode lowercase mapping of a whole string, as `str::to_lowercase` computes it.
pub uninterp spec fn lowercase_of(s: Seq<char>) -> Seq<char>;

/// The Unicode `White_Space` property, which `char::is_whitespace` reports:
/// tab through carriage return, space, next line, no-break space, Ogham space
/// mark, the en quad through hair space, line and paragraph separators, narrow
/// no-break space, medium mathematical space and ideographic space.
pub open spec fn whitespace_char(c: char) -> bool {
    let u = c as u32;
    ||| 0x09 <= u <= 0x0D
    ||| u == 0x20
    ||| u == 0x85
    ||| u == 0xA0
    ||| u == 0x1680
    ||| 0x2000 <= u <= 0x200A
    ||| u == 0x2028
    ||| u == 0x2029
    ||| u == 0x202F
    ||| u == 0x205F
    ||| u == 0x3000
}

/// Calls `str::to_lowercase`; the result is the Unicode lowercase mapping of `s`,
/// named `lowercase_of`.
#[verifier::external_body]
pub(crate) fn to_lowercase(s: &str) -> (r: String)
    ensures
        r@ == lowercase_of(s@),
{
    s.to_lowercase()
}

/// Whether `c` has the Unicode `White_Space` property, as
/// `char::is_whitespace` answers.
pub fn is_whitespace(c: char) -> (b: bool)
    ensures
        b == whitespace_char(c),
{
    let u = c as u32;
    (0x09 <= u && u <= 0x0D) || u == 0x20 || u == 0x85 || u == 0xA0 || u == 0x1680
        || (0x2000 <= u && u <= 0x200A) || u == 0x2028 || u == 0x2029 || u == 0x202F
        || u == 0x205F || u == 0x3000
}

/// Calls `str::chars` and collects the characters; the result holds exactly the
/// characters of `s`, in order.
#[verifier::external_body]
pub(crate) fn chars_of(s: &str) -> (v: Vec<char>)
    ensures
        v@ == s@,
{
    s.chars().collect()
}

/// Collects characters into a `String` (`FromIterator<char>`); the string holds
/// exactly these characters, in order.
#[verifier::external_body]
pub(crate) fn string_of(v: &[char]) -> (s: String)
    ensures
        s@ == v@,
{
    v.iter().collect()
}

/// `c` is an ASCII decimal digit.
pub open spec fn is_digit(c: char) -> bool {
    '0' <= c && c <= '9'
}

/// `s` with every leading whitespace character removed.
pub open spec fn trim_start_seq(s: Seq<char>) -> Seq<char>
    decreases s.len(),
{
    if s.len() > 0 && whitespace_char(s[0]) {
        trim_start_seq(s.drop_first())
    } else {
        s
    }
}

/// `s` with every trailing whitespace character removed.
pub open spec fn trim_end_seq(s: Seq<char>) -> Seq<char>
    decreases s.len(),
{
    if s.len() > 0 && whitespace_char(s.last()) {
        trim_end_seq(s.drop_last())
    } else {
        s
    }
}

/// `s` with leading and trailing whitespace removed, as `str::trim` does.
pub open spec fn trim_seq(s: Seq<char>) -> Seq<char> {
    trim_end_seq(trim_start_seq(s))
}

/// Leading whitespace up to `i` does not change the start-trimmed text.
pub proof fn lemma_trim_start_skip(s: Seq<char>, i: int)
    requires
        0 <= i <= s.len(),
        forall|k: int| 0 <= k < i ==> whitespace_char(#[trigger] s[k]),
    ensures
        trim_start_seq(s) == trim_start_seq(s.subrange(i, s.len() as int)),
    decreases i,
{
    if i > 0 {
        assert(s.drop_first() == s.subrange(1, s.len() as int));
        lemma_trim_start_skip(s.drop_first(), i - 1);
        assert(s.drop_first().subrange(i - 1, s.drop_first().len() as int) =~= s.subrange(i, s.len() as int));
    } else {
        assert(s.subrange(0, s.len() as int) =~= s);
    }
}

/// Trailing whitespace from `j` on does not change the end-trimmed text.
pub proof fn lemma_trim_end_skip(s: Seq<char>, j: int)
    requires
        0 <= j <= s.len(),
        forall|k: int| j <= k < s.len() ==> whitespace_char(#[trigger] s[k]),
    ensures
        trim_end_seq(s) == trim_end_seq(s.subrange(0, j)),
    decreases s.len() - j,
{
    if j < s.len() {
        lemma_trim_end_skip(s.drop_last(), j);
        assert(s.drop_last().subrange(0, j) =~= s.subrange(0, j));
    } else {
        assert(s.subrange(0, j) =~= s);
    }
}

/// Removes leading and trailing whitespace (`str::trim`).
pub fn trim(s: &[char]) -> (r: Vec<char>)
    ensures
        r@ == trim_seq(s@),
{
    let n = s.len();
    let mut i: usize = 0;
    while i < n && is_whitespace(s[i])
        invariant
            i <= n,
            n == s@.len(),
            forall|k: int| 0 <= k < i ==> whitespace_char(#[trigger] s@[k]),
        decreases n - i,
    {
        i = i + 1;
    }
    proof {
        lemma_trim_start_skip(s@, i as int);
    }
    let ghost rest = s@.subrange(i as int, n as int);
    assert(rest.len() == 0 || !whitespace_char(rest[0]));
    assert(trim_start_seq(rest) == rest);
    let mut j: usize = n;
    while j > i && is_whitespace(s[j - 1])
        invariant
            i <= j <= n,
            n == s@.len(),
            forall|k: int| j <= k < n ==> whitespace_char(#[trigger] s@[k]),
        decreases j,
    {
        j = j - 1;
    }
    proof {
        lemma_trim_end_skip(rest, (j - i) as int);
        assert(rest.subrange(0, (j - i) as int) =~= s@.subrange(i as int, j as int));
        let t = s@.subrange(i as int, j as int);
        assert(t.len() == 0 || !whitespace_char(t.last()));
    }
    let mut r: Vec<char> = Vec::new();
    let mut k: usize = i;
    while k < j
        invariant
            i <= k <= j <= n,
            n == s@.len(),
            r@ =~= s@.subrange(i as int, k as int),
        decreases j - k,
    {
        r.push(s[k]);
        k = k + 1;
    }
    r
}


/// Calls `<str as PartialEq>::eq`; true exactly when both hold the same characters.
#[verifier::external_body]
pub(crate) fn str_eq(a: &str, b: &str) -> (r: bool)
    ensures
        r == (a@ == b@),
{
    a == b
}

/// The parts joined with `sep` between consecutive parts (`[T]::join`).
pub open spec fn joined(parts: Seq<Seq<char>>, sep: Seq<char>) -> Seq<char>
    decreases parts.len(),
{
    if parts.len() == 0 {
        Seq::empty()
    } else if parts.len() == 1 {
        parts[0]
    } else {
        joined(parts.drop_last(), sep) + sep + parts.last()
    }
}

/// Joins the strings with `sep` between consecutive ones.
pub fn join(parts: &Vec<String>, sep: &str) -> (r: String)
    ensures
        r@ == joined(parts@.map_values(|p: String| p@), sep@),
{
    let ghost views = parts@.map_values(|p: String| p@);
    let mut r = String::new();
    let mut i: usize = 0;
    while i < parts.len()
        invariant
            i <= parts@.len(),
            views == parts@.map_values(|p: String| p@),
            r@ == joined(views.take(i as int), sep@),
        decreases parts@.len() - i,
    {
        assert(views.take(i + 1).drop_last() =~= views.take(i as int));
        if i > 0 {
            r.append(sep);
        }
        r.append(parts[i].as_str());
        i = i + 1;
    }
    assert(views.take(parts@.len() as int) =~= views);
    r
}


/// The `Alphanumeric` test of a character, as `char::is_alphanumeric` reports it.
pub uninterp spec fn alphanumeric_char(c: char) -> bool;

/// Calls `char::is_alphanumeric`; the answer is named `alphanumeric_char`.
#[verifier::external_body]
pub(crate) fn is_alphanumeric(c: char) -> (b: bool)
    ensures
        b == alphanumeric_char(c),
{
    c.is_alphanumeric()
}

/// `pat` occurs in `s` starting at position `i`.
pub open spec fn occurs_at(s: Seq<char>, pat: Seq<char>, i: int) -> bool {
    0 <= i && i + pat.len() <= s.len() && s.subrange(i, i + pat.len()) == pat
}

/// `pat` occurs somewhere in `s` (`str::contains`; the empty pattern occurs
/// in every string).
pub open spec fn contains_seq(s: Seq<char>, pat: Seq<char>) -> bool {
    exists|i: int| occurs_at(s, pat, i)
}

/// `s` begins with `p`.
pub open spec fn has_prefix(s: Seq<char>, p: Seq<char>) -> bool {
    occurs_at(s, p, 0)
}

/// `s` ends with `p`.
pub open spec fn has_suffix(s: Seq<char>, p: Seq<char>) -> bool {
    occurs_at(s, p, s.len() - p.len())
}

/// Whether `pat` occurs in `s` at position `i`.
pub fn matches_at(s: &Vec<char>, pat: &Vec<char>, i: usize) -> (r: bool)
    ensures
        r == occurs_at(s@, pat@, i as int),
{
    if i > s.len() || pat.len() > s.len() - i {
        return false;
    }
    let mut k: usize = 0;
    while k < pat.len()
        invariant
            k <= pat@.len(),
            i + pat@.len() <= s@.len(),
            s@.len() <= usize::MAX,
            forall|j: int| 0 <= j < k ==> s@[i + j] == pat@[j],
        decreases pat@.len() - k,
    {
        if s[i + k] != pat[k] {
            assert(s@.subrange(i as int, i + pat@.len())[k as int] != pat@[k as int]);
            return false;
        }
        k = k + 1;
    }
    assert(s@.subrange(i as int, i + pat@.len()) =~= pat@);
    true
}

/// Whether `pat` occurs anywhere in `s`.
pub fn contains_chars(s: &Vec<char>, pat: &Vec<char>) -> (r: bool)
    ensures
        r == contains_seq(s@, pat@),
{
    if pat.len() > s.len() {
        assert forall|j: int| !occurs_at(s@, pat@, j) by {}
        return false;
    }
    let last = s.len() - pat.len();
    let mut i: usize = 0;
    loop
        invariant
            i <= last,
            last + pat@.len() == s@.len(),
            forall|j: int| 0 <= j < i ==> !occurs_at(s@, pat@, j),
        decreases last - i,
    {
        if matches_at(s, pat, i) {
            return true;
        }
        if i == last {
            assert forall|j: int| !occurs_at(s@, pat@, j) by {
                if 0 <= j && j < i {
                }
            }
            return false;
        }
        i = i + 1;
    }
}

/// Whether `s` contains `pat` (`str::contains`).
pub fn str_contains(s: &str, pat: &str) -> (r: bool)
    ensures
        r == contains_seq(s@, pat@),
{
    contains_chars(&chars_of(s), &chars_of(pat))
}

/// Whether `s` begins with `p` (`str::starts_with`).
pub fn str_starts_with(s: &str, p: &str) -> (r: bool)
    ensures
        r == has_prefix(s@, p@),
{
    matches_at(&chars_of(s), &chars_of(p), 0)
}

/// Whether `s` ends with `p` (`str::ends_with`).
pub fn str_ends_with(s: &str, p: &str) -> (r: bool)
    ensures
        r == has_suffix(s@, p@),
{
    let sc = chars_of(s);
    let pc = chars_of(p);
    if pc.len() > sc.len() {
        return false;
    }
    matches_at(&sc, &pc, sc.len() - pc.len())
}

/// Strict lexicographic order on character sequences, by code point (the
/// order `str`'s `Ord` gives: UTF-8 preserves code point order).
pub open spec fn seq_lt(a: Seq<char>, b: Seq<char>) -> bool
    decreases a.len(),
{
    if a.len() == 0 {
        b.len() > 0
    } else if b.len() == 0 {
        false
    } else if a[0] != b[0] {
        a[0] < b[0]
    } else {
        seq_lt(a.drop_first(), b.drop_first())
    }
}

/// No sequence precedes itself.
pub proof fn lemma_lt_irreflexive(a: Seq<char>)
    ensures
        !seq_lt(a, a),
    decreases a.len(),
{
    if a.len() > 0 {
        lemma_lt_irreflexive(a.drop_first());
    }
}

/// The order is transitive.
pub proof fn lemma_lt_transitive(a: Seq<char>, b: Seq<char>, c: Seq<char>)
    requires
        seq_lt(a, b),
        seq_lt(b, c),
    ensures
        seq_lt(a, c),
    decreases a.len(),
{
    if a.len() > 0 && b.len() > 0 && c.len() > 0 && a[0] == b[0] && b[0] == c[0] {
        lemma_lt_transitive(a.drop_first(), b.drop_first(), c.drop_first());
    }
}

/// Two different sequences are ordered one way or the other.
pub proof fn lemma_lt_total(a: Seq<char>, b: Seq<char>)
    ensures
        a == b || seq_lt(a, b) || seq_lt(b, a),
    decreases a.len(),
{
    if a.len() > 0 && b.len() > 0 && a[0] == b[0] {
        lemma_lt_total(a.drop_first(), b.drop_first());
        if a.drop_first() == b.drop_first() {
            assert(a =~= seq![a[0]] + a.drop_first());
            assert(b =~= seq![b[0]] + b.drop_first());
        }
    } else if a.len() == 0 && b.len() == 0 {
        assert(a =~= b);
    }
}

/// The order is asymmetric.
pub proof fn lemma_lt_asymmetric(a: Seq<char>, b: Seq<char>)
    requires
        seq_lt(a, b),
    ensures
        !seq_lt(b, a),
{
    if seq_lt(b, a) {
        lemma_lt_transitive(a, b, a);
        lemma_lt_irreflexive(a);
    }
}

proof fn lemma_lt_skip(a: Seq<char>, b: Seq<char>, k: int)
    requires
        0 <= k <= a.len(),
        k <= b.len(),
        a.take(k) == b.take(k),
    ensures
        seq_lt(a, b) == seq_lt(a.skip(k), b.skip(k)),
    decreases k,
{
    if k > 0 {
        assert(a[0] == a.take(k)[0]);
        assert(b[0] == b.take(k)[0]);
        assert(a.drop_first().take(k - 1) =~= a.take(k).drop_first());
        assert(b.drop_first().take(k - 1) =~= b.take(k).drop_first());
        lemma_lt_skip(a.drop_first(), b.drop_first(), k - 1);
        assert(a.drop_first().skip(k - 1) =~= a.skip(k));
        assert(b.drop_first().skip(k - 1) =~= b.skip(k));
    } else {
        assert(a.skip(0) =~= a);
        assert(b.skip(0) =~= b);
    }
}

/// Whether `a` precedes `b` in lexicographic order.
pub fn chars_lt(a: &Vec<char>, b: &Vec<char>) -> (r: bool)
    ensures
        r == seq_lt(a@, b@),
{
    let mut i: usize = 0;
    while i < a.len() && i < b.len() && a[i] == b[i]
        invariant
            i <= a@.len(),
            i <= b@.len(),
            a@.take(i as int) == b@.take(i as int),
        decreases a@.len() - i,
    {
        assert(a@.take(i + 1) =~= a@.take(i as int).push(a@[i as int]));
        assert(b@.take(i + 1) =~= b@.take(i as int).push(b@[i as int]));
        i = i + 1;
    }
    proof {
        lemma_lt_skip(a@, b@, i as int);
    }
    if i == a.len() {
        i < b.len()
    } else if i == b.len() {
        false
    } else {
        assert(a@.skip(i as int)[0] == a@[i as int]);
        assert(b@.skip(i as int)[0] == b@[i as int]);
        a[i] < b[i]
    }
}

/// Whether `a` precedes `b` in lexicographic order (`<` on strings).
pub fn str_lt(a: &str, b: &str) -> (r: bool)
    ensures
        r == seq_lt(a@, b@),
{
    chars_lt(&chars_of(a), &chars_of(b))
}

/// The pieces of `s` between occurrences of `sep`, in order, empty pieces
/// included (`str::split` with a character pattern).
pub open spec fn split_char(s: Seq<char>, sep: char) -> Seq<Seq<char>>
    decreases s.len(),
{
    if s.len() == 0 {
        seq![Seq::empty()]
    } else {
        let rest = split_char(s.drop_last(), sep);
        if s.last() == sep {
            rest.push(Seq::empty())
        } else {
            rest.update(rest.len() - 1, rest.last().push(s.last()))
        }
    }
}

/// Splitting always yields at least one piece.
pub proof fn lemma_split_char_nonempty(s: Seq<char>, sep: char)
    ensures
        split_char(s, sep).len() >= 1,
    decreases s.len(),
{
    if s.len() > 0 {
        lemma_split_char_nonempty(s.drop_last(), sep);
    }
}

/// Splits `s` at every `sep` (`str::split`).
pub fn split_on_char(s: &str, sep: char) -> (r: Vec<String>)
    ensures
        r@.map_values(|p: String| p@) == split_char(s@, sep),
{
    let chars = chars_of(s);
    let mut pieces: Vec<String> = Vec::new();
    let mut current: Vec<char> = Vec::new();
    let mut i: usize = 0;
    while i < chars.len()
        invariant
            i <= chars@.len(),
            chars@ == s@,
            pieces@.map_values(|p: String| p@).push(current@) == split_char(chars@.take(i as int), sep),
        decreases chars@.len() - i,
    {
        let ghost before = chars@.take(i as int);
        assert(chars@.take(i + 1).drop_last() =~= before);
        proof {
            lemma_split_char_nonempty(before, sep);
        }
        let c = chars[i];
        let ghost old_pieces = pieces@.map_values(|p: String| p@);
        let ghost old_current = current@;
        if c == sep {
            pieces.push(string_of(current.as_slice()));
            current = Vec::new();
            assert(pieces@.map_values(|p: String| p@) =~= old_pieces.push(old_current));
            assert(pieces@.map_values(|p: String| p@).push(current@) =~= old_pieces.push(old_current).push(Seq::empty()));
        } else {
            current.push(c);
            assert(pieces@.map_values(|p: String| p@).push(current@) =~= old_pieces.push(old_current).update(
                old_pieces.len() as int,
                old_current.push(c),
            ));
        }
        i = i + 1;
    }
    assert(chars@.take(chars@.len() as int) =~= chars@);
    pieces.push(string_of(current.as_slice()));
    pieces
}


/// Every element strictly precedes every later one (sorted, no repeats).
pub open spec fn strictly_sorted(v: Seq<Seq<char>>) -> bool {
    forall|i: int, j: int| 0 <= i < j < v.len() ==> seq_lt(#[trigger] v[i], #[trigger] v[j])
}

/// The distinct elements of `names`, in increasing order (what sorting and
/// then removing adjacent repeats gives).
pub open spec fn sorted_set(names: Seq<Seq<char>>) -> Seq<Seq<char>> {
    choose|v: Seq<Seq<char>>| strictly_sorted(v) && v.to_set() == names.to_set()
}

/// Two strictly sorted sequences with the same elements are equal.
pub proof fn lemma_sorted_set_unique(a: Seq<Seq<char>>, b: Seq<Seq<char>>)
    requires
        strictly_sorted(a),
        strictly_sorted(b),
        a.to_set() == b.to_set(),
    ensures
        a == b,
    decreases a.len(),
{
    if a.len() == 0 {
        if b.len() > 0 {
            assert(b.to_set().contains(b[0]));
        }
        assert(a =~= b);
    } else {
        assert(a.to_set().contains(a[0]));
        assert(b.len() > 0);
        assert(b.to_set().contains(b[0]));
        let j = choose|j: int| 0 <= j < b.len() && b[j] == a[0];
        let i = choose|i: int| 0 <= i < a.len() && a[i] == b[0];
        if j > 0 {
            assert(seq_lt(b[0], b[j]));
            if i > 0 {
                assert(seq_lt(a[0], a[i]));
                lemma_lt_asymmetric(a[0], b[0]);
            } else {
                lemma_lt_irreflexive(a[0]);
            }
        }
        assert(a[0] == b[0]);
        let ra = a.drop_first();
        let rb = b.drop_first();
        assert(strictly_sorted(ra)) by {
            assert forall|x: int, y: int| 0 <= x < y < ra.len() implies seq_lt(#[trigger] ra[x], #[trigger] ra[y]) by {
                assert(ra[x] == a[x + 1] && ra[y] == a[y + 1]);
            }
        }
        assert(strictly_sorted(rb)) by {
            assert forall|x: int, y: int| 0 <= x < y < rb.len() implies seq_lt(#[trigger] rb[x], #[trigger] rb[y]) by {
                assert(rb[x] == b[x + 1] && rb[y] == b[y + 1]);
            }
        }
        assert forall|e: Seq<char>| ra.to_set().contains(e) <==> rb.to_set().contains(e) by {
            if ra.to_set().contains(e) {
                let x = choose|x: int| 0 <= x < ra.len() && ra[x] == e;
                assert(a[x + 1] == e);
                assert(seq_lt(a[0], a[x + 1]));
                lemma_lt_irreflexive(e);
                assert(a.to_set().contains(e));
                let y = choose|y: int| 0 <= y < b.len() && b[y] == e;
                assert(y != 0);
                assert(rb[y - 1] == e);
            }
            if rb.to_set().contains(e) {
                let x = choose|x: int| 0 <= x < rb.len() && rb[x] == e;
                assert(b[x + 1] == e);
                assert(seq_lt(b[0], b[x + 1]));
                lemma_lt_irreflexive(e);
                assert(b.to_set().contains(e));
                let y = choose|y: int| 0 <= y < a.len() && a[y] == e;
                assert(y != 0);
                assert(ra[y - 1] == e);
            }
        }
        assert(ra.to_set() =~= rb.to_set());
        lemma_sorted_set_unique(ra, rb);
        assert(a =~= seq![a[0]] + ra);
        assert(b =~= seq![b[0]] + rb);
    }
}

/// A strictly sorted sequence with the elements of `names` is `sorted_set(names)`.
pub proof fn lemma_sorted_set_is(v: Seq<Seq<char>>, names: Seq<Seq<char>>)
    requires
        strictly_sorted(v),
        v.to_set() == names.to_set(),
    ensures
        sorted_set(names) == v,
{
    let w = sorted_set(names);
    assert(strictly_sorted(w) && w.to_set() == names.to_set());
    lemma_sorted_set_unique(v, w);
}

/// Adds `x` to a strictly sorted list of strings, unless already present.
pub fn insert_sorted_unique(v: &mut Vec<String>, x: String)
    requires
        strictly_sorted(old(v)@.map_values(|p: String| p@)),
    ensures
        strictly_sorted(final(v)@.map_values(|p: String| p@)),
        final(v)@.map_values(|p: String| p@).to_set() == old(v)@.map_values(|p: String| p@).to_set().insert(x@),
{
    let ghost before = v@.map_values(|p: String| p@);
    let mut p: usize = 0;
    while p < v.len() && str_lt(v[p].as_str(), x.as_str())
        invariant
            p <= v@.len(),
            before == v@.map_values(|q: String| q@),
            forall|k: int| 0 <= k < p ==> seq_lt(#[trigger] before[k], x@),
        decreases v@.len() - p,
    {
        p = p + 1;
    }
    if p < v.len() && v[p] == x {
        assert(before[p as int] == x@);
        assert(before.to_set().insert(x@) =~= before.to_set());
        return;
    }
    proof {
        if p < before.len() {
            lemma_lt_total(before[p as int], x@);
        }
    }
    v.insert(p, x);
    let ghost after = v@.map_values(|q: String| q@);
    assert(after =~= before.insert(p as int, x@));
    assert forall|i: int, j: int| 0 <= i < j < after.len() implies seq_lt(#[trigger] after[i], #[trigger] after[j]) by {
        if j < p {
            assert(after[i] == before[i] && after[j] == before[j]);
        } else if j == p {
            assert(after[i] == before[i] && after[j] == x@);
        } else if i < p {
            assert(after[i] == before[i] && after[j] == before[j - 1]);
            assert(seq_lt(before[i], x@));
            if p < j - 1 {
                assert(seq_lt(before[p as int], before[j - 1]));
                lemma_lt_transitive(x@, before[p as int], before[j - 1]);
            }
            lemma_lt_transitive(before[i], x@, before[j - 1]);
        } else if i == p {
            assert(after[i] == x@ && after[j] == before[j - 1]);
            if p < j - 1 {
                assert(seq_lt(before[p as int], before[j - 1]));
                lemma_lt_transitive(x@, before[p as int], before[j - 1]);
            }
        } else {
            assert(after[i] == before[i - 1] && after[j] == before[j - 1]);
        }
    }
    assert forall|e: Seq<char>| after.to_set().contains(e) <==> before.to_set().insert(x@).contains(e) by {
        if after.to_set().contains(e) {
            let k = choose|k: int| 0 <= k < after.len() && after[k] == e;
            if k < p {
                assert(before[k] == e);
            } else if k > p {
                assert(before[k - 1] == e);
            }
        }
        if before.to_set().contains(e) {
            let k = choose|k: int| 0 <= k < before.len() && before[k] == e;
            if k < p {
                assert(after[k] == e);
            } else {
                assert(after[k + 1] == e);
            }
        }
        if e == x@ {
            assert(after[p as int] == e);
        }
    }
    assert(after.to_set() =~= before.to_set().insert(x@));
}

/// The distinct strings of `v`, sorted (sort, then remove repeats).
pub fn sorted_unique(v: &Vec<String>) -> (r: Vec<String>)
    ensures
        r@.map_values(|p: String| p@) == sorted_set(v@.map_values(|p: String| p@)),
{
    let ghost names = v@.map_values(|p: String| p@);
    let mut r: Vec<String> = Vec::new();
    let mut i: usize = 0;
    assert(r@.map_values(|p: String| p@).to_set() =~= names.take(0).to_set());
    while i < v.len()
        invariant
            i <= v@.len(),
            names == v@.map_values(|p: String| p@),
            strictly_sorted(r@.map_values(|p: String| p@)),
            r@.map_values(|p: String| p@).to_set() == names.take(i as int).to_set(),
        decreases v@.len() - i,
    {
        insert_sorted_unique(&mut r, v[i].clone());
        assert(names.take(i + 1) =~= names.take(i as int).push(names[i as int]));
        proof {
            names.take(i as int).lemma_push_to_set_commute(names[i as int]);
        }
        i = i + 1;
    }
    proof {
        assert(names.take(v@.len() as int) =~= names);
        lemma_sorted_set_is(r@.map_values(|p: String| p@), names);
    }
    r
}


/// The first `n` characters of `v`.
pub fn take_chars(v: &Vec<char>, n: usize) -> (r: Vec<char>)
    requires
        n <= v@.len(),
    ensures
        r@ == v@.take(n as int),
{
    let mut r: Vec<char> = Vec::new();
    let mut i: usize = 0;
    while i < n
        invariant
            i <= n <= v@.len(),
            r@ == v@.take(i as int),
        decreases n - i,
    {
        r.push(v[i]);
        assert(v@.take(i + 1) =~= v@.take(i as int).push(v@[i as int]));
        i = i + 1;
    }
    r
}

/// The views of a list of static strings.
pub open spec fn static_strs(v: Seq<&'static str>) -> Seq<Seq<char>> {
    v.map_values(|x: &'static str| x@)
}


/// The characters of `v` after the first `n`.
pub fn skip_chars(v: &Vec<char>, n: usize) -> (r: Vec<char>)
    requires
        n <= v@.len(),
    ensures
        r@ == v@.skip(n as int),
{
    let mut r: Vec<char> = Vec::new();
    let mut i: usize = n;
    while i < v.len()
        invariant
            n <= i <= v@.len(),
            r@ == v@.subrange(n as int, i as int),
        decreases v@.len() - i,
    {
        r.push(v[i]);
        assert(v@.subrange(n as int, i + 1) =~= v@.subrange(n as int, i as int).push(v@[i as int]));
        i = i + 1;
    }
    assert(v@.subrange(n as int, v@.len() as int) =~= v@.skip(n as int));
    r
}

/// `s` up to (not including) the first `c`; all of `s` when there is none.
pub open spec fn before_first(s: Seq<char>, c: char) -> Seq<char>
    decreases s.len(),
{
    if s.len() == 0 || s[0] == c {
        Seq::empty()
    } else {
        seq![s[0]] + before_first(s.drop_first(), c)
    }
}

/// Where the first `c` is, and what comes before it.
pub proof fn lemma_before_first(s: Seq<char>, c: char, i: int)
    requires
        0 <= i <= s.len(),
        forall|j: int| 0 <= j < i ==> s[j] != c,
        i == s.len() || s[i] == c,
    ensures
        before_first(s, c) == s.take(i),
    decreases i,
{
    if i == 0 {
        assert(s.take(0) =~= Seq::<char>::empty());
    } else {
        lemma_before_first(s.drop_first(), c, i - 1);
        assert(s.take(i) =~= seq![s[0]] + s.drop_first().take(i - 1));
    }
}


/// Splitting a longer prefix of `s` only adds to the pieces already finished.
pub proof fn lemma_split_char_prefix(s: Seq<char>, sep: char, i: int, j: int)
    requires
        0 <= i <= j <= s.len(),
    ensures
        split_char(s.take(j), sep).len() >= split_char(s.take(i), sep).len(),
        split_char(s.take(j), sep).take(split_char(s.take(i), sep).len() - 1) == split_char(s.take(i), sep).drop_last(),
    decreases j - i,
{
    lemma_split_char_nonempty(s.take(i), sep);
    if j == i {
        assert(split_char(s.take(j), sep).take(split_char(s.take(i), sep).len() - 1) =~= split_char(s.take(i), sep).drop_last());
    } else {
        lemma_split_char_prefix(s, sep, i, j - 1);
        lemma_split_char_nonempty(s.take(j - 1), sep);
        assert(s.take(j).drop_last() =~= s.take(j - 1));
        let m = split_char(s.take(i), sep).len() - 1;
        let before = split_char(s.take(j - 1), sep);
        let after = split_char(s.take(j), sep);
        assert(after.take(m) =~= before.take(m));
    }
}

/// Splitting the first `i + 1` characters: a separator starts a new piece,
/// anything else extends the last one.
pub proof fn lemma_split_char_step(s: Seq<char>, sep: char, i: int)
    requires
        0 <= i < s.len(),
    ensures
        s[i] == sep ==> split_char(s.take(i + 1), sep) == split_char(s.take(i), sep).push(Seq::empty()),
        s[i] != sep ==> split_char(s.take(i + 1), sep) == split_char(s.take(i), sep).update(
            split_char(s.take(i), sep).len() - 1,
            split_char(s.take(i), sep).last().push(s[i]),
        ),
{
    assert(s.take(i + 1).drop_last() =~= s.take(i));
    assert(s.take(i + 1).last() == s[i]);
}


/// The pieces of `s` between the non-overlapping occurrences of the non-empty
/// `pat`, found from the left, empty pieces included (`str::split` with a
/// string pattern).
pub open spec fn split_pat(s: Seq<char>, pat: Seq<char>) -> Seq<Seq<char>>
    decreases s.len(),
{
    if pat.len() == 0 || s.len() < pat.len() {
        seq![s]
    } else if s.take(pat.len() as int) == pat {
        seq![Seq::<char>::empty()] + split_pat(s.skip(pat.len() as int), pat)
    } else {
        let r = split_pat(s.drop_first(), pat);
        r.update(0, seq![s[0]] + r[0])
    }
}

/// Splitting yields at least one piece.
pub proof fn lemma_split_pat_nonempty(s: Seq<char>, pat: Seq<char>)
    ensures
        split_pat(s, pat).len() >= 1,
    decreases s.len(),
{
    if pat.len() > 0 && s.len() >= pat.len() {
        if s.take(pat.len() as int) == pat {
            lemma_split_pat_nonempty(s.skip(pat.len() as int), pat);
        } else {
            lemma_split_pat_nonempty(s.drop_first(), pat);
        }
    }
}

/// Splits `s` at every occurrence of the non-empty `pat` (`str::split`).
pub fn split_on(s: &str, pat: &str) -> (r: Vec<String>)
    requires
        pat@.len() > 0,
    ensures
        r@.map_values(|p: String| p@) == split_pat(s@, pat@),
{
    let chars = chars_of(s);
    let pc = chars_of(pat);
    let n = chars.len();
    let plen = pc.len();
    let ghost sv = chars@;
    let ghost pv = pc@;
    let mut pieces: Vec<String> = Vec::new();
    let mut start: usize = 0;
    let mut i: usize = 0;
    proof {
        lemma_split_pat_nonempty(sv, pv);
        assert(sv.skip(0) =~= sv);
        assert(sv.subrange(0, 0) + split_pat(sv, pv)[0] =~= split_pat(sv, pv)[0]);
        assert(split_pat(sv, pv) =~= seq![sv.subrange(0, 0) + split_pat(sv, pv)[0]] + split_pat(sv, pv).drop_first());
    }
    while plen <= n - i
        invariant
            start <= i <= n,
            n == sv.len(),
            plen == pv.len(),
            plen > 0,
            sv == s@,
            pv == pat@,
            chars@ == sv,
            pc@ == pv,
            split_pat(sv, pv) == pieces@.map_values(|p: String| p@) + seq![sv.subrange(start as int, i as int) + split_pat(sv.skip(i as int), pv)[0]]
                + split_pat(sv.skip(i as int), pv).drop_first(),
        decreases n - i,
    {
        let ghost t = sv.skip(i as int);
        let ghost done = pieces@.map_values(|p: String| p@);
        assert(t.take(plen as int) =~= sv.subrange(i as int, i + plen));
        if matches_at(&chars, &pc, i) {
            let ghost rest = split_pat(sv.skip(i + plen), pv);
            assert(t.skip(plen as int) =~= sv.skip(i + plen));
            assert(split_pat(t, pv) == seq![Seq::<char>::empty()] + rest);
            proof {
                lemma_split_pat_nonempty(sv.skip(i + plen), pv);
            }
            pieces.push(string_of(take_chars(&skip_chars(&chars, start), i - start).as_slice()));
            assert(sv.skip(start as int).take(i - start) =~= sv.subrange(start as int, i as int));
            assert(pieces@.map_values(|p: String| p@) =~= done.push(sv.subrange(start as int, i as int)));
            i = i + plen;
            start = i;
            assert(sv.subrange(start as int, i as int) + rest[0] =~= rest[0]);
            assert(split_pat(sv, pv) =~= pieces@.map_values(|p: String| p@) + seq![sv.subrange(start as int, i as int) + rest[0]] + rest.drop_first());
        } else {
            let ghost rest = split_pat(sv.skip(i + 1), pv);
            assert(t.drop_first() =~= sv.skip(i + 1));
            assert(t[0] == sv[i as int]);
            proof {
                lemma_split_pat_nonempty(sv.skip(i + 1), pv);
            }
            assert(split_pat(t, pv) == rest.update(0, seq![sv[i as int]] + rest[0]));
            assert(sv.subrange(start as int, i as int) + (seq![sv[i as int]] + rest[0]) =~= sv.subrange(start as int, i + 1) + rest[0]);
            assert(split_pat(t, pv).drop_first() =~= rest.drop_first());
            i = i + 1;
        }
    }
    let ghost t = sv.skip(i as int);
    assert(split_pat(t, pv) == seq![t]);
    assert(sv.subrange(start as int, i as int) + t =~= sv.subrange(start as int, n as int));
    let ghost done = pieces@.map_values(|p: String| p@);
    pieces.push(string_of(skip_chars(&chars, start).as_slice()));
    assert(sv.skip(start as int) =~= sv.subrange(start as int, n as int));
    assert(pieces@.map_values(|p: String| p@) =~= done.push(sv.subrange(start as int, n as int)));
    assert(split_pat(t, pv).drop_first() =~= Seq::<Seq<char>>::empty());
    pieces
}


/// `joined`, unfolded from the front.
pub proof fn lemma_joined_front(parts: Seq<Seq<char>>, sep: Seq<char>)
    requires
        parts.len() >= 2,
    ensures
        joined(parts, sep) == parts[0] + sep + joined(parts.drop_first(), sep),
    decreases parts.len(),
{
    if parts.len() == 2 {
        assert(parts.drop_last().len() == 1);
        assert(parts.drop_first().len() == 1);
        assert(parts.drop_first()[0] == parts[1]);
        assert(parts.drop_last()[0] == parts[0]);
        assert(joined(parts.drop_last(), sep) == parts[0]);
        assert(joined(parts.drop_first(), sep) == parts[1]);
        assert(parts.last() == parts[1]);
    } else {
        lemma_joined_front(parts.drop_last(), sep);
        assert(parts.drop_first().drop_last() =~= parts.drop_last().drop_first());
        assert(parts.drop_first().last() == parts.last());
        assert(parts.drop_last()[0] == parts[0]);
        let a = parts[0];
        let mid = joined(parts.drop_last().drop_first(), sep);
        assert(joined(parts, sep) == (a + sep + mid) + sep + parts.last());
        assert(joined(parts.drop_first(), sep) == mid + sep + parts.last());
        assert((a + sep + mid) + sep + parts.last() =~= a + sep + (mid + sep + parts.last()));
    }
}

/// `pat` overlaps no shifted copy of itself: no proper prefix of it is also a
/// suffix of it (true of `,` and of `, `).
pub open spec fn unbordered(pat: Seq<char>) -> bool {
    forall|k: int| 0 < k < pat.len() ==> #[trigger] pat.take(k) != pat.skip(pat.len() - k)
}

/// A piece free of `pat`, followed by `pat`, is split off whole.
pub proof fn lemma_split_pat_head(x: Seq<char>, pat: Seq<char>, rest: Seq<char>)
    requires
        pat.len() > 0,
        unbordered(pat),
        !contains_seq(x, pat),
    ensures
        split_pat(x + pat + rest, pat) == seq![x] + split_pat(rest, pat),
    decreases x.len(),
{
    let w = x + pat + rest;
    let m = pat.len() as int;
    if x.len() == 0 {
        assert(w =~= pat + rest);
        assert(w.take(m) =~= pat);
        assert(w.skip(m) =~= rest);
        assert(x =~= Seq::<char>::empty());
    } else {
        assert(w.take(m) != pat) by {
            if w.take(m) == pat {
                if x.len() >= m {
                    assert(x.subrange(0, m) =~= w.take(m));
                    assert(occurs_at(x, pat, 0));
                } else {
                    let k = x.len() as int;
                    assert(pat.take(m - k) =~= w.take(m).skip(k));
                    assert(pat.skip(k) =~= w.take(m).skip(k));
                    assert(pat.take(m - k) == pat.skip(m - (m - k)));
                }
            }
        }
        let x1 = x.drop_first();
        assert(!contains_seq(x1, pat)) by {
            if contains_seq(x1, pat) {
                let p = choose|p: int| occurs_at(x1, pat, p);
                assert(x.subrange(p + 1, p + 1 + m) =~= x1.subrange(p, p + m));
                assert(occurs_at(x, pat, p + 1));
            }
        }
        lemma_split_pat_head(x1, pat, rest);
        assert(w.drop_first() =~= x1 + pat + rest);
        lemma_split_pat_nonempty(rest, pat);
        let r = split_pat(w.drop_first(), pat);
        assert(split_pat(w, pat) == r.update(0, seq![w[0]] + r[0]));
        assert(seq![w[0]] + x1 =~= x);
        assert(r.update(0, seq![w[0]] + r[0]) =~= seq![x] + split_pat(rest, pat));
    }
}

/// A piece free of `pat` is not split at all.
pub proof fn lemma_split_pat_whole(x: Seq<char>, pat: Seq<char>)
    requires
        pat.len() > 0,
        !contains_seq(x, pat),
    ensures
        split_pat(x, pat) == seq![x],
    decreases x.len(),
{
    let m = pat.len() as int;
    if x.len() >= m {
        assert(x.take(m) != pat) by {
            if x.take(m) == pat {
                assert(x.subrange(0, m) =~= x.take(m));
                assert(occurs_at(x, pat, 0));
            }
        }
        let x1 = x.drop_first();
        assert(!contains_seq(x1, pat)) by {
            if contains_seq(x1, pat) {
                let p = choose|p: int| occurs_at(x1, pat, p);
                assert(x.subrange(p + 1, p + 1 + m) =~= x1.subrange(p, p + m));
                assert(occurs_at(x, pat, p + 1));
            }
        }
        lemma_split_pat_whole(x1, pat);
        assert(seq![x[0]] + x1 =~= x);
        assert(split_pat(x1, pat).update(0, seq![x[0]] + split_pat(x1, pat)[0]) =~= seq![x]);
    }
}

/// Splitting what joining produced gives the parts back, when none of them
/// contains the (unbordered) separator.
pub proof fn lemma_split_joined(parts: Seq<Seq<char>>, pat: Seq<char>)
    requires
        parts.len() >= 1,
        pat.len() > 0,
        unbordered(pat),
        forall|i: int| 0 <= i < parts.len() ==> !contains_seq(#[trigger] parts[i], pat),
    ensures
        split_pat(joined(parts, pat), pat) == parts,
    decreases parts.len(),
{
    if parts.len() == 1 {
        lemma_split_pat_whole(parts[0], pat);
        assert(seq![parts[0]] =~= parts);
    } else {
        lemma_joined_front(parts, pat);
        let tail = parts.drop_first();
        assert forall|i: int| 0 <= i < tail.len() implies !contains_seq(#[trigger] tail[i], pat) by {
            assert(tail[i] == parts[i + 1]);
        }
        lemma_split_joined(tail, pat);
        lemma_split_pat_head(parts[0], pat, joined(tail, pat));
        assert(seq![parts[0]] + tail =~= parts);
    }
}

/// The decimal digit character for `d < 10`.
pub open spec fn digit_char(d: nat) -> char {
    (('0' as nat) + d) as char
}

/// The decimal representation of `n`, without leading zeros.
pub open spec fn decimal(n: nat) -> Seq<char>
    decreases n,
{
    if n < 10 {
        seq![digit_char(n)]
    } else {
        decimal(n / 10).push(digit_char(n % 10))
    }
}

/// The digit character of `d`.
pub fn digit_of(d: u64) -> (c: char)
    requires
        d < 10,
    ensures
        c == digit_char(d as nat),
{
    match d {
        0 => '0',
        1 => '1',
        2 => '2',
        3 => '3',
        4 => '4',
        5 => '5',
        6 => '6',
        7 => '7',
        8 => '8',
        _ => '9',
    }
}

/// The decimal digits of `n`.
pub fn decimal_chars(n: u64) -> (r: Vec<char>)
    ensures
        r@ == decimal(n as nat),
    decreases n,
{
    if n < 10 {
        let mut v: Vec<char> = Vec::new();
        v.push(digit_of(n));
        assert(v@ =~= seq![digit_char(n as nat)]);
        v
    } else {
        let mut v = decimal_chars(n / 10);
        v.push(digit_of(n % 10));
        v
    }
}

/// The decimal form of `n` (`u64`'s `Display`).
pub fn decimal_string(n: u64) -> (r: String)
    ensures
        r@ == decimal(n as nat),
{
    string_of(decimal_chars(n).as_slice())
}

/// The decimal form of a signed number: a `-` before the digits of its
/// magnitude when negative (`i64`'s `Display`).
pub open spec fn signed_decimal(n: int) -> Seq<char> {
    if n < 0 {
        seq!['-'] + decimal((-n) as nat)
    } else {
        decimal(n as nat)
    }
}

/// The decimal form of `n` (`i64`'s `Display`).
pub fn i64_string(n: i64) -> (r: String)
    ensures
        r@ == signed_decimal(n as int),
{
    if n < 0 {
        let wide: i128 = n as i128;
        let magnitude: u64 = (-wide) as u64;
        let mut r = String::new();
        r.append("-");
        proof {
            reveal_strlit("-");
        }
        assert(r@ =~= seq!['-']);
        r.append(decimal_string(magnitude).as_str());
        r
    } else {
        decimal_string(n as u64)
    }
}

/// The decimal form of `n` (`usize`'s `Display`).
pub fn usize_string(n: usize) -> (r: String)
    ensures
        r@ == decimal(n as nat),
{
    decimal_string(n as u64)
}

} // verus!
