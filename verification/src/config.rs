//! User settings: stored credentials, an optional database path override and
//! the bundle-name exclude list, with the rules for changing them.

use vstd::prelude::*;

use crate::model::opt_view;
use crate::text::{chars_of, string_of, trim, trim_seq};

verus! {

/// User settings. Persisting them is left to the caller.
#[derive(Debug, Clone)]
pub struct Config {
    pub humble_cookie: Option<String>,
    pub packt_cookies: Option<String>,
    pub manning_cookies: Option<String>,
    /// Database path override; when absent the platform data directory is used.
    pub db_path: Option<String>,
    /// Bundle-name terms whose bundles are skipped when checking every bundle
    /// on sale (see `humble::matches_excluded_bundle`).
    pub bundle_exclude_terms: Vec<String>,
}

impl Default for Config {
    /// No credentials, no database override, no exclude terms.
    fn default() -> (r: Config)
        ensures
            r.humble_cookie is None,
            r.packt_cookies is None,
            r.manning_cookies is None,
            r.db_path is None,
            r.bundle_exclude_terms@.len() == 0,
    {
        Config {
            humble_cookie: None,
            packt_cookies: None,
            manning_cookies: None,
            db_path: None,
            bundle_exclude_terms: Vec::new(),
        }
    }
}

/// The code of `c` after ASCII lowercasing (`char::to_ascii_lowercase`).
pub open spec fn ascii_lower(c: char) -> u32 {
    if 'A' <= c && c <= 'Z' {
        (c as u32 + 32) as u32
    } else {
        c as u32
    }
}

/// Equal up to ASCII case (`str::eq_ignore_ascii_case`).
pub open spec fn same_ignoring_ascii_case(a: Seq<char>, b: Seq<char>) -> bool {
    a.len() == b.len() && forall|i: int| 0 <= i < a.len() ==> ascii_lower(#[trigger] a[i]) == ascii_lower(b[i])
}

fn ascii_lower_code(c: char) -> (r: u32)
    ensures
        r == ascii_lower(c),
{
    if 'A' <= c && c <= 'Z' {
        c as u32 + 32
    } else {
        c as u32
    }
}

/// Compares two strings ignoring ASCII case.
pub fn eq_ignore_ascii_case(a: &str, b: &str) -> (r: bool)
    ensures
        r == same_ignoring_ascii_case(a@, b@),
{
    let x = chars_of(a);
    let y = chars_of(b);
    if x.len() != y.len() {
        return false;
    }
    let mut i: usize = 0;
    while i < x.len()
        invariant
            i <= x@.len(),
            x@ == a@,
            y@ == b@,
            x@.len() == y@.len(),
            forall|k: int| 0 <= k < i ==> ascii_lower(#[trigger] x@[k]) == ascii_lower(y@[k]),
        decreases x@.len() - i,
    {
        if ascii_lower_code(x[i]) != ascii_lower_code(y[i]) {
            return false;
        }
        i = i + 1;
    }
    true
}

/// Some term of the list equals `term` up to ASCII case.
pub open spec fn has_term(terms: Seq<String>, term: Seq<char>) -> bool {
    exists|i: int| 0 <= i < terms.len() && same_ignoring_ascii_case(#[trigger] terms[i]@, term)
}

/// The terms, in order, without those equal to `term` ignoring ASCII case.
pub open spec fn terms_without(terms: Seq<Seq<char>>, term: Seq<char>) -> Seq<Seq<char>>
    decreases terms.len(),
{
    if terms.len() == 0 {
        terms
    } else if same_ignoring_ascii_case(terms.last(), term) {
        terms_without(terms.drop_last(), term)
    } else {
        terms_without(terms.drop_last(), term).push(terms.last())
    }
}

/// Why a settings change was refused.
#[derive(Debug, Clone, Copy, PartialEq, Eq, Structural)]
pub enum ConfigError {
    /// An exclude term that is empty once trimmed.
    EmptyTerm,
    /// A credential change that names no credential at all.
    NothingToSet,
    /// A credential field name that is not known.
    UnknownField,
}

/// One of the stored credentials.
#[derive(Debug, Clone, Copy, PartialEq, Eq, Structural)]
pub enum CredentialField {
    HumbleCookie,
    PacktCookies,
    ManningCookies,
}

impl CredentialField {
    /// The field stored under a settings key (`humble_cookie`, `packt_cookies`,
    /// `manning_cookies`).
    pub fn from_key(key: &str) -> (r: Option<CredentialField>)
        ensures
            key@ == "humble_cookie"@ <==> r == Some(CredentialField::HumbleCookie),
            key@ == "packt_cookies"@ <==> r == Some(CredentialField::PacktCookies),
            key@ == "manning_cookies"@ <==> r == Some(CredentialField::ManningCookies),
    {
        proof {
            reveal_strlit("humble_cookie");
            reveal_strlit("packt_cookies");
            reveal_strlit("manning_cookies");
            assert("humble_cookie"@[0] != "packt_cookies"@[0]);
            assert("humble_cookie"@.len() != "manning_cookies"@.len());
            assert("packt_cookies"@.len() != "manning_cookies"@.len());
        }
        if crate::text::str_eq(key, "humble_cookie") {
            Some(CredentialField::HumbleCookie)
        } else if crate::text::str_eq(key, "packt_cookies") {
            Some(CredentialField::PacktCookies)
        } else if crate::text::str_eq(key, "manning_cookies") {
            Some(CredentialField::ManningCookies)
        } else {
            None
        }
    }

    /// The field a captured credential for a source identifier is stored in
    /// (`humble_bundle`, `packt`, `manning`).
    pub fn for_source(source: &str) -> (r: Option<CredentialField>)
        ensures
            source@ == "humble_bundle"@ <==> r == Some(CredentialField::HumbleCookie),
            source@ == "packt"@ <==> r == Some(CredentialField::PacktCookies),
            source@ == "manning"@ <==> r == Some(CredentialField::ManningCookies),
    {
        proof {
            reveal_strlit("humble_bundle");
            reveal_strlit("packt");
            reveal_strlit("manning");
            assert("humble_bundle"@.len() != "manning"@.len());
            assert("packt"@.len() != "manning"@.len());
            assert("humble_bundle"@.len() != "packt"@.len());
        }
        if crate::text::str_eq(source, "humble_bundle") {
            Some(CredentialField::HumbleCookie)
        } else if crate::text::str_eq(source, "packt") {
            Some(CredentialField::PacktCookies)
        } else if crate::text::str_eq(source, "manning") {
            Some(CredentialField::ManningCookies)
        } else {
            None
        }
    }

    /// The settings key of this field.
    pub fn key(&self) -> (r: &'static str)
        ensures
            r@ == match self {
                CredentialField::HumbleCookie => "humble_cookie"@,
                CredentialField::PacktCookies => "packt_cookies"@,
                CredentialField::ManningCookies => "manning_cookies"@,
            },
    {
        match self {
            CredentialField::HumbleCookie => "humble_cookie",
            CredentialField::PacktCookies => "packt_cookies",
            CredentialField::ManningCookies => "manning_cookies",
        }
    }
}

/// What the desktop settings page shows.
pub struct ConfigStatus {
    pub humble_cookie_set: bool,
    pub packt_cookies_set: bool,
    pub manning_cookies_set: bool,
    pub db_path: String,
    pub bundle_exclude_terms: Vec<String>,
}

impl Config {
    /// The stored value of a credential.
    pub open spec fn credential(&self, field: CredentialField) -> Option<String> {
        match field {
            CredentialField::HumbleCookie => self.humble_cookie,
            CredentialField::PacktCookies => self.packt_cookies,
            CredentialField::ManningCookies => self.manning_cookies,
        }
    }

    /// Stores `value` in one credential field; everything else is kept.
    pub fn set_credential(&mut self, field: CredentialField, value: String)
        ensures
            final(self).credential(field) == Some(value),
            forall|f: CredentialField| f != field ==> final(self).credential(f) == old(self).credential(f),
            final(self).db_path == old(self).db_path,
            final(self).bundle_exclude_terms == old(self).bundle_exclude_terms,
    {
        match field {
            CredentialField::HumbleCookie => self.humble_cookie = Some(value),
            CredentialField::PacktCookies => self.packt_cookies = Some(value),
            CredentialField::ManningCookies => self.manning_cookies = Some(value),
        }
    }

    /// Stores every credential that is given and returns the keys changed, in
    /// field order; refused (and nothing changed) when none is given.
    pub fn apply_credentials(
        &mut self,
        humble_cookie: Option<String>,
        packt_cookies: Option<String>,
        manning_cookies: Option<String>,
    ) -> (r: Result<Vec<&'static str>, ConfigError>)
        ensures
            (humble_cookie is None && packt_cookies is None && manning_cookies is None) <==> r is Err,
            r is Err ==> r == Err::<Vec<&'static str>, ConfigError>(ConfigError::NothingToSet)
                && *final(self) == *old(self),
            r is Ok ==> {
                &&& final(self).humble_cookie == (if humble_cookie is Some { humble_cookie } else { old(self).humble_cookie })
                &&& final(self).packt_cookies == (if packt_cookies is Some { packt_cookies } else { old(self).packt_cookies })
                &&& final(self).manning_cookies == (if manning_cookies is Some { manning_cookies } else { old(self).manning_cookies })
                &&& final(self).db_path == old(self).db_path
                &&& final(self).bundle_exclude_terms == old(self).bundle_exclude_terms
                &&& r matches Ok(changed) && changed@.map_values(|k: &'static str| k@) ==
                    (if humble_cookie is Some { seq!["humble_cookie"@] } else { Seq::empty() })
                    + (if packt_cookies is Some { seq!["packt_cookies"@] } else { Seq::empty() })
                    + (if manning_cookies is Some { seq!["manning_cookies"@] } else { Seq::empty() })
            },
    {
        if humble_cookie.is_none() && packt_cookies.is_none() && manning_cookies.is_none() {
            return Err(ConfigError::NothingToSet);
        }
        let mut changed: Vec<&'static str> = Vec::new();
        let ghost h = humble_cookie is Some;
        let ghost p = packt_cookies is Some;
        if let Some(v) = humble_cookie {
            self.humble_cookie = Some(v);
            changed.push("humble_cookie");
        }
        let ghost after_h = changed@.map_values(|k: &'static str| k@);
        assert(after_h =~= (if h { seq!["humble_cookie"@] } else { Seq::empty() }));
        if let Some(v) = packt_cookies {
            self.packt_cookies = Some(v);
            changed.push("packt_cookies");
        }
        let ghost after_p = changed@.map_values(|k: &'static str| k@);
        assert(after_p =~= after_h + (if p { seq!["packt_cookies"@] } else { Seq::empty() }));
        let ghost m = manning_cookies is Some;
        if let Some(v) = manning_cookies {
            self.manning_cookies = Some(v);
            changed.push("manning_cookies");
        }
        assert(changed@.map_values(|k: &'static str| k@) =~= after_p + (if m { seq!["manning_cookies"@] } else { Seq::empty() }));
        Ok(changed)
    }

    /// Adds a bundle exclude term (trimmed). Refused when the term is blank;
    /// a no-op (returning `false`) when an equal term, ignoring ASCII case, is
    /// already listed; otherwise appended (returning `true`).
    pub fn add_bundle_exclude_term(&mut self, term: &str) -> (r: Result<bool, ConfigError>)
        ensures
            trim_seq(term@).len() == 0 <==> r == Err::<bool, ConfigError>(ConfigError::EmptyTerm),
            r is Err ==> final(self).bundle_exclude_terms@ == old(self).bundle_exclude_terms@,
            r == Ok::<bool, ConfigError>(false) <==> (trim_seq(term@).len() > 0
                && has_term(old(self).bundle_exclude_terms@, trim_seq(term@))),
            r == Ok::<bool, ConfigError>(false) ==> final(self).bundle_exclude_terms@ == old(self).bundle_exclude_terms@,
            r == Ok::<bool, ConfigError>(true) ==> final(self).bundle_exclude_terms@.len() == old(self).bundle_exclude_terms@.len() + 1
                && final(self).bundle_exclude_terms@.drop_last() == old(self).bundle_exclude_terms@
                && final(self).bundle_exclude_terms@.last()@ == trim_seq(term@),
            final(self).humble_cookie == old(self).humble_cookie,
            final(self).packt_cookies == old(self).packt_cookies,
            final(self).manning_cookies == old(self).manning_cookies,
            final(self).db_path == old(self).db_path,
    {
        let trimmed = string_of(trim(chars_of(term).as_slice()).as_slice());
        if trimmed.as_str().is_empty() {
            return Err(ConfigError::EmptyTerm);
        }
        let mut i: usize = 0;
        while i < self.bundle_exclude_terms.len()
            invariant
                i <= self.bundle_exclude_terms@.len(),
                self.bundle_exclude_terms@ == old(self).bundle_exclude_terms@,
                trimmed@ == trim_seq(term@),
                trimmed@.len() > 0,
                forall|k: int| 0 <= k < i ==> !same_ignoring_ascii_case(
                    #[trigger] self.bundle_exclude_terms@[k]@,
                    trimmed@,
                ),
            decreases self.bundle_exclude_terms@.len() - i,
        {
            if eq_ignore_ascii_case(self.bundle_exclude_terms[i].as_str(), trimmed.as_str()) {
                return Ok(false);
            }
            i = i + 1;
        }
        self.bundle_exclude_terms.push(trimmed);
        Ok(true)
    }

    /// Removes every exclude term equal to the trimmed `term`, ignoring ASCII
    /// case, keeping the others in order; true when something was removed.
    pub fn remove_bundle_exclude_term(&mut self, term: &str) -> (r: bool)
        ensures
            final(self).bundle_exclude_terms@.map_values(|t: String| t@)
                == terms_without(old(self).bundle_exclude_terms@.map_values(|t: String| t@), trim_seq(term@)),
            r == has_term(old(self).bundle_exclude_terms@, trim_seq(term@)),
            final(self).humble_cookie == old(self).humble_cookie,
            final(self).packt_cookies == old(self).packt_cookies,
            final(self).manning_cookies == old(self).manning_cookies,
            final(self).db_path == old(self).db_path,
    {
        let trimmed = string_of(trim(chars_of(term).as_slice()).as_slice());
        let ghost before = self.bundle_exclude_terms@.map_values(|t: String| t@);
        let mut kept: Vec<String> = Vec::new();
        let mut removed = false;
        let mut i: usize = 0;
        while i < self.bundle_exclude_terms.len()
            invariant
                i <= self.bundle_exclude_terms@.len(),
                before == self.bundle_exclude_terms@.map_values(|t: String| t@),
                kept@.map_values(|t: String| t@) == terms_without(before.take(i as int), trimmed@),
                removed == exists|k: int| 0 <= k < i && same_ignoring_ascii_case(
                    #[trigger] self.bundle_exclude_terms@[k]@,
                    trimmed@,
                ),
            decreases self.bundle_exclude_terms@.len() - i,
        {
            assert(before.take(i + 1).drop_last() =~= before.take(i as int));
            let t = &self.bundle_exclude_terms[i];
            if eq_ignore_ascii_case(t.as_str(), trimmed.as_str()) {
                removed = true;
            } else {
                let ghost prev = kept@;
                kept.push(t.clone());
                assert(kept@.map_values(|t: String| t@) =~= prev.map_values(|t: String| t@).push(t@));
            }
            i = i + 1;
        }
        assert(before.take(before.len() as int) =~= before);
        self.bundle_exclude_terms = kept;
        removed
    }

    /// The settings summary shown by the desktop app, with the resolved
    /// database path supplied by the caller.
    pub fn status(&self, resolved_db_path: String) -> (r: ConfigStatus)
        ensures
            r.humble_cookie_set == self.humble_cookie is Some,
            r.packt_cookies_set == self.packt_cookies is Some,
            r.manning_cookies_set == self.manning_cookies is Some,
            r.db_path == resolved_db_path,
            r.bundle_exclude_terms@.map_values(|t: String| t@) == self.bundle_exclude_terms@.map_values(|t: String| t@),
    {
        let terms = crate::model::copy_strings(&self.bundle_exclude_terms);
        assert(terms@.map_values(|t: String| t@) =~= self.bundle_exclude_terms@.map_values(|t: String| t@));
        ConfigStatus {
            humble_cookie_set: self.humble_cookie.is_some(),
            packt_cookies_set: self.packt_cookies.is_some(),
            manning_cookies_set: self.manning_cookies.is_some(),
            db_path: resolved_db_path,
            bundle_exclude_terms: terms,
        }
    }
}


/// Every text equals itself ignoring ASCII case.
pub proof fn lemma_same_ignoring_case_reflexive(a: Seq<char>)
    ensures
        same_ignoring_ascii_case(a, a),
{
}

/// A term just appended is listed, so adding it again (in any ASCII case) is a
/// no-op.
pub proof fn law_added_term_listed(terms: Seq<String>, t: String)
    ensures
        has_term(terms.push(t), t@),
{
    lemma_same_ignoring_case_reflexive(t@);
    assert(terms.push(t)[terms.len() as int] == t);
}

/// After removing a term, no remaining term equals it ignoring ASCII case, and
/// every other term is kept, in order.
pub proof fn law_removed_term_gone(terms: Seq<Seq<char>>, term: Seq<char>)
    ensures
        forall|k: int| 0 <= k < terms_without(terms, term).len() ==> !same_ignoring_ascii_case(#[trigger] terms_without(terms, term)[k], term),
        forall|k: int| 0 <= k < terms.len() && !same_ignoring_ascii_case(#[trigger] terms[k], term) ==> terms_without(terms, term).contains(terms[k]),
    decreases terms.len(),
{
    if terms.len() > 0 {
        law_removed_term_gone(terms.drop_last(), term);
        let rest = terms_without(terms.drop_last(), term);
        assert forall|k: int| 0 <= k < terms.len() && !same_ignoring_ascii_case(#[trigger] terms[k], term) implies terms_without(terms, term).contains(terms[k]) by {
            if k < terms.len() - 1 {
                assert(terms.drop_last()[k] == terms[k]);
                let m = choose|m: int| 0 <= m < rest.len() && rest[m] == terms[k];
                if !same_ignoring_ascii_case(terms.last(), term) {
                    assert(terms_without(terms, term)[m] == terms[k]);
                }
            } else {
                assert(terms_without(terms, term).last() == terms[k]);
                assert(terms_without(terms, term)[terms_without(terms, term).len() - 1] == terms[k]);
            }
        }
    }
}

} // verus!
