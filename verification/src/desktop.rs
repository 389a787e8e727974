//! The desktop front end's decisions: which importer a request names, the
//! running tally of an import, which links may be opened, and how an error
//! chain is shown. The window toolkit around them is run elsewhere.

use vstd::prelude::*;

use crate::cli::{ImportError, Importer};
use crate::config::Config;
use crate::model::{UpsertOutcome, strings_view};
use crate::sources::humble::Humble;
use crate::sources::kindle::Kindle;
use crate::sources::manning::Manning;
use crate::sources::packt::Packt;
use crate::text::{has_prefix, str_eq, str_starts_with};

verus! {

/// The outcome of one import run.
pub struct ImportSummary {
    pub source: String,
    pub new_count: i64,
    pub updated_count: i64,
    /// Possible duplicates from other sources, one line each.
    pub warnings: Vec<String>,
}

impl ImportSummary {
    /// Nothing counted yet.
    pub fn new(source: String) -> (r: ImportSummary)
        ensures
            r.source == source,
            r.new_count == 0 && r.updated_count == 0,
            r.warnings@.len() == 0,
    {
        ImportSummary { source, new_count: 0, updated_count: 0, warnings: Vec::new() }
    }

    /// Counts one stored book as new or updated.
    pub fn record(&mut self, outcome: UpsertOutcome)
        requires
            old(self).new_count < i64::MAX,
            old(self).updated_count < i64::MAX,
        ensures
            final(self).new_count == old(self).new_count + (if outcome is Inserted { 1int } else { 0 }),
            final(self).updated_count == old(self).updated_count + (if outcome is Updated { 1int } else { 0 }),
            final(self).source == old(self).source,
            final(self).warnings == old(self).warnings,
    {
        match outcome {
            UpsertOutcome::Inserted(_) => self.new_count = self.new_count + 1,
            UpsertOutcome::Updated(_) => self.updated_count = self.updated_count + 1,
        }
    }

    /// Adds a duplicate warning.
    pub fn warn(&mut self, text: String)
        ensures
            final(self).warnings@ == old(self).warnings@.push(text),
            final(self).new_count == old(self).new_count,
            final(self).updated_count == old(self).updated_count,
            final(self).source == old(self).source,
    {
        self.warnings.push(text);
    }
}

/// How an interactive sign-in ended.
pub struct CaptureResult {
    /// The window was closed (or timed out) before a credential was captured;
    /// nothing was saved.
    pub cancelled: bool,
}

/// An address a browser may be asked to open: `http://` or `https://` only,
/// never a local path.
pub open spec fn web_address(url: Seq<char>) -> bool {
    has_prefix(url, "http://"@) || has_prefix(url, "https://"@)
}

/// Refuses to open anything but a web address.
pub fn check_open_url(url: &str) -> (r: Result<(), String>)
    ensures
        r is Ok <==> web_address(url@),
        r matches Err(m) ==> m@ == "refusing to open a non-http(s) URL"@,
{
    if str_starts_with(url, "http://") || str_starts_with(url, "https://") {
        Ok(())
    } else {
        Err("refusing to open a non-http(s) URL".to_owned())
    }
}

/// The importer for a desktop import request (`humble`, `packt`, `manning`,
/// `kindle`): the source's credential must be configured, and a CSV file
/// chosen for Kindle.
pub fn desktop_importer(source: &str, config: &Config, file: Option<String>) -> (r: Result<Importer, ImportError>)
    ensures
        source@ == "humble"@ ==> match config.humble_cookie {
            Some(c) => r matches Ok(Importer::Humble(h)) && h.cookie == c,
            None => r matches Err(ImportError::MissingCredential(m)) && m@ == "no Humble Bundle cookie configured"@,
        },
        source@ == "packt"@ ==> match config.packt_cookies {
            Some(c) => r matches Ok(Importer::Packt(p)) && p.cookies == c,
            None => r matches Err(ImportError::MissingCredential(m)) && m@ == "no Packt cookies configured"@,
        },
        source@ == "manning"@ ==> match config.manning_cookies {
            Some(c) => r matches Ok(Importer::Manning(m)) && m.cookies == c,
            None => r matches Err(ImportError::MissingCredential(m)) && m@ == "no Manning cookies configured"@,
        },
        source@ == "kindle"@ ==> match file {
            Some(f) => r matches Ok(Importer::Kindle(k)) && k.path == f,
            None => r == Err::<Importer, ImportError>(ImportError::NoFile),
        },
        !(source@ == "humble"@ || source@ == "packt"@ || source@ == "manning"@ || source@ == "kindle"@) ==> (r matches Err(
            ImportError::UnknownSource(s),
        ) && s@ == source@),
{
    proof {
        reveal_strlit("humble");
        reveal_strlit("packt");
        reveal_strlit("manning");
        reveal_strlit("kindle");
        assert("humble"@.len() == 6 && "packt"@.len() == 5 && "manning"@.len() == 7 && "kindle"@.len() == 6);
        assert("humble"@[0] != "kindle"@[0]);
    }
    if str_eq(source, "humble") {
        match &config.humble_cookie {
            Some(c) => Ok(Importer::Humble(Humble { cookie: c.clone() })),
            None => Err(ImportError::MissingCredential("no Humble Bundle cookie configured".to_owned())),
        }
    } else if str_eq(source, "packt") {
        match &config.packt_cookies {
            Some(c) => Ok(Importer::Packt(Packt { cookies: c.clone() })),
            None => Err(ImportError::MissingCredential("no Packt cookies configured".to_owned())),
        }
    } else if str_eq(source, "manning") {
        match &config.manning_cookies {
            Some(c) => Ok(Importer::Manning(Manning { cookies: c.clone() })),
            None => Err(ImportError::MissingCredential("no Manning cookies configured".to_owned())),
        }
    } else if str_eq(source, "kindle") {
        match file {
            Some(f) => Ok(Importer::Kindle(Kindle { path: f })),
            None => Err(ImportError::NoFile),
        }
    } else {
        Err(ImportError::UnknownSource(source.to_owned()))
    }
}

/// An error chain in one line: the top message, then each cause after
/// ` -- caused by: `.
pub open spec fn chain_text(messages: Seq<Seq<char>>) -> Seq<char>
    decreases messages.len(),
{
    if messages.len() == 0 {
        Seq::empty()
    } else if messages.len() == 1 {
        messages[0]
    } else {
        chain_text(messages.drop_last()) + " -- caused by: "@ + messages.last()
    }
}

/// Renders an error and its causes (outermost first) on one line.
pub fn error_chain_message(messages: &Vec<String>) -> (r: String)
    ensures
        r@ == chain_text(strings_view(messages@)),
{
    let ghost mv = strings_view(messages@);
    let mut r = String::new();
    let mut i: usize = 0;
    while i < messages.len()
        invariant
            i <= messages@.len(),
            mv == strings_view(messages@),
            r@ == chain_text(mv.take(i as int)),
        decreases messages@.len() - i,
    {
        assert(mv.take(i + 1).drop_last() =~= mv.take(i as int));
        if i > 0 {
            r.append(" -- caused by: ");
        }
        r.append(messages[i].as_str());
        i = i + 1;
    }
    assert(mv.take(i as int) =~= mv);
    r
}

} // verus!
