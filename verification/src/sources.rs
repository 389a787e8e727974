//! The storefronts books are imported from: how each one's responses are
//! interpreted. Fetching (HTTP, files) is left to the caller, which hands the
//! decoded responses to these functions.

pub mod capture;
pub mod humble;
pub mod kindle;
pub mod manning;
pub mod manual;
pub mod packt;

use vstd::prelude::*;

use crate::model::{Source as BookSource, source_name};

verus! {

/// A storefront books are imported from.
pub trait Source {
    /// Which source this importer reads.
    spec fn kind(&self) -> BookSource;

    /// The source's stable identifier.
    fn name(&self) -> (r: &'static str)
        ensures
            r@ == source_name(self.kind()),
    ;
}

} // verus!
