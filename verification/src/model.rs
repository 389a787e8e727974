//! The library's data model: where a book came from and what is known of it.

use vstd::prelude::*;

use crate::text::str_eq;

verus! {

/// The storefront (or manual entry) a book record came from.
#[derive(Debug, Clone, Copy, PartialEq, Eq, Structural)]
pub enum Source {
    HumbleBundle,
    Packt,
    Manning,
    Kindle,
    Manual,
}

/// The stable identifier of each source.
pub open spec fn source_name(s: Source) -> Seq<char> {
    match s {
        Source::HumbleBundle => "humble_bundle"@,
        Source::Packt => "packt"@,
        Source::Manning => "manning"@,
        Source::Kindle => "kindle"@,
        Source::Manual => "manual"@,
    }
}

impl Source {
    /// The stable identifier used in storage and on the command line.
    pub fn as_str(&self) -> (r: &'static str)
        ensures
            r@ == source_name(*self),
    {
        match self {
            Source::HumbleBundle => "humble_bundle",
            Source::Packt => "packt",
            Source::Manning => "manning",
            Source::Kindle => "kindle",
            Source::Manual => "manual",
        }
    }
}

/// The source a stable identifier names.
pub open spec fn source_of_name(name: Seq<char>) -> Option<Source> {
    if name == "humble_bundle"@ {
        Some(Source::HumbleBundle)
    } else if name == "packt"@ {
        Some(Source::Packt)
    } else if name == "manning"@ {
        Some(Source::Manning)
    } else if name == "kindle"@ {
        Some(Source::Kindle)
    } else if name == "manual"@ {
        Some(Source::Manual)
    } else {
        None
    }
}

/// A name that is none of the sources' identifiers.
#[derive(Debug, Clone, PartialEq, Eq)]
pub struct UnknownSource {
    pub name: String,
}

impl UnknownSource {
    /// The error's text.
    pub fn message(&self) -> (r: String)
        ensures
            r@ == "unknown source '"@ + self.name@ + "' (expected one of: humble_bundle, packt, manning, kindle, manual)"@,
    {
        let mut r = String::new();
        r.append("unknown source '");
        r.append(self.name.as_str());
        r.append("' (expected one of: humble_bundle, packt, manning, kindle, manual)");
        r
    }
}

impl Source {
    /// The source whose identifier is `name`.
    pub fn from_name(name: &str) -> (r: Result<Source, UnknownSource>)
        ensures
            match r {
                Ok(s) => source_of_name(name@) == Some(s),
                Err(e) => source_of_name(name@) is None && e.name@ == name@,
            },
    {
        if str_eq(name, "humble_bundle") {
            Ok(Source::HumbleBundle)
        } else if str_eq(name, "packt") {
            Ok(Source::Packt)
        } else if str_eq(name, "manning") {
            Ok(Source::Manning)
        } else if str_eq(name, "kindle") {
            Ok(Source::Kindle)
        } else if str_eq(name, "manual") {
            Ok(Source::Manual)
        } else {
            Err(UnknownSource { name: name.to_owned() })
        }
    }
}

impl std::str::FromStr for Source {
    type Err = UnknownSource;

    fn from_str(s: &str) -> (r: Result<Source, UnknownSource>)
        ensures
            match r {
                Ok(src) => source_of_name(s@) == Some(src),
                Err(e) => source_of_name(s@) is None && e.name@ == s@,
            },
    {
        Source::from_name(s)
    }
}

/// Reading a source's identifier back gives the source.
pub proof fn law_source_name_round_trip(s: Source)
    ensures
        source_of_name(source_name(s)) == Some(s),
{
    reveal_strlit("humble_bundle");
    reveal_strlit("packt");
    reveal_strlit("manning");
    reveal_strlit("kindle");
    reveal_strlit("manual");
    assert("humble_bundle"@.len() == 13 && "packt"@.len() == 5 && "manning"@.len() == 7);
    assert("kindle"@.len() == 6 && "manual"@.len() == 6);
    assert("manual"@[0] != "kindle"@[0]);
}

/// Distinct sources have distinct identifiers.
pub proof fn law_source_names_distinct(a: Source, b: Source)
    ensures
        source_name(a) == source_name(b) ==> a == b,
{
    law_source_name_round_trip(a);
    law_source_name_round_trip(b);
}

/// A calendar date (year, month, day) as stored for a book's acquisition.
#[derive(Debug, Clone, Copy, PartialEq, Eq, Structural)]
pub struct Date {
    pub year: i32,
    pub month: u32,
    pub day: u32,
}

/// One owned book, from any source.
#[derive(Debug, Clone)]
pub struct Book {
    pub id: Option<i64>,
    pub title: String,
    pub authors: Vec<String>,
    pub isbn: Option<String>,
    pub source: Source,
    pub source_id: Option<String>,
    pub formats: Vec<String>,
    pub acquired_at: Option<Date>,
    pub raw_json: Option<String>,
    pub cover_url: Option<String>,
}

/// The mathematical content of a [`Book`].
pub struct BookView {
    pub id: Option<i64>,
    pub title: Seq<char>,
    pub authors: Seq<Seq<char>>,
    pub isbn: Option<Seq<char>>,
    pub source: Source,
    pub source_id: Option<Seq<char>>,
    pub formats: Seq<Seq<char>>,
    pub acquired_at: Option<Date>,
    pub raw_json: Option<Seq<char>>,
    pub cover_url: Option<Seq<char>>,
}

/// The characters of an optional string.
pub open spec fn opt_view(o: Option<String>) -> Option<Seq<char>> {
    match o {
        Some(s) => Some(s@),
        None => None,
    }
}

/// The characters of each string in a list.
pub open spec fn strings_view(v: Seq<String>) -> Seq<Seq<char>> {
    v.map_values(|s: String| s@)
}

impl View for Book {
    type V = BookView;

    open spec fn view(&self) -> BookView {
        BookView {
            id: self.id,
            title: self.title@,
            authors: strings_view(self.authors@),
            isbn: opt_view(self.isbn),
            source: self.source,
            source_id: opt_view(self.source_id),
            formats: strings_view(self.formats@),
            acquired_at: self.acquired_at,
            raw_json: opt_view(self.raw_json),
            cover_url: opt_view(self.cover_url),
        }
    }
}

/// Copies an optional string.
pub fn copy_opt(o: &Option<String>) -> (r: Option<String>)
    ensures
        opt_view(r) == opt_view(*o),
{
    match o {
        Some(s) => Some(s.clone()),
        None => None,
    }
}

/// Copies a list of strings.
pub fn copy_strings(v: &Vec<String>) -> (r: Vec<String>)
    ensures
        strings_view(r@) == strings_view(v@),
        r@.len() == v@.len(),
{
    let mut r: Vec<String> = Vec::new();
    let mut i: usize = 0;
    while i < v.len()
        invariant
            i <= v@.len(),
            r@.len() == i,
            forall|k: int| 0 <= k < i ==> (#[trigger] r@[k])@ == v@[k]@,
        decreases v@.len() - i,
    {
        r.push(v[i].clone());
        i = i + 1;
    }
    assert(strings_view(r@) =~= strings_view(v@));
    r
}

impl Book {
    /// A field-for-field copy of this book.
    pub fn duplicate(&self) -> (r: Book)
        ensures
            r@ == self@,
    {
        Book {
            id: self.id,
            title: self.title.clone(),
            authors: copy_strings(&self.authors),
            isbn: copy_opt(&self.isbn),
            source: self.source,
            source_id: copy_opt(&self.source_id),
            formats: copy_strings(&self.formats),
            acquired_at: self.acquired_at,
            raw_json: copy_opt(&self.raw_json),
            cover_url: copy_opt(&self.cover_url),
        }
    }
}

/// Whether storing a book created a new row or refreshed an existing one, with
/// the row's id.
#[derive(Debug, Clone, Copy, PartialEq, Eq, Structural)]
pub enum UpsertOutcome {
    Inserted(i64),
    Updated(i64),
}

} // verus!
