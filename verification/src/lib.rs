//! Verified core of an ebook inventory: title normalisation and duplicate
//! screening, storefront response interpretation, credential capture and
//! metadata enrichment decisions.

pub mod cli;
pub mod config;
pub mod dedup;
pub mod desktop;
pub mod enrich;
pub mod html;
pub mod model;
pub mod pattern;
pub mod sources;
pub mod storage;
pub mod text;
