//! Crawl planning, markup extraction and store statements for a catalogue
//! of expiring domain names.

pub mod crawl;
pub mod domain;
pub mod error;
pub mod filter;
pub mod markup;
pub mod sql;
pub mod store;
pub mod text;
