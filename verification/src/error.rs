//! The failures that a crawl, a record or the store can report.

use vstd::prelude::*;

verus! {

/// Why a crawl ended without results.
#[derive(Clone, Copy, Debug, PartialEq, Eq, Structural)]
pub enum CrawlError {
    /// The browser session could not be opened or kept.
    SessionError,
    /// A control that the crawl has to use is not on the page.
    ElementNotFoundError,
    /// The pagination control shows no page number.
    PaginationParseError,
    /// The page is not the listing that the crawl target describes.
    UnexpectedPageStateError,
    /// The crawl target has no site description.
    UnsupportedTargetError,
}

/// A domain name that holds whitespace and so cannot become a record.
#[derive(Clone, Copy, Debug, PartialEq, Eq, Structural)]
pub struct InvalidRecordError {
    /// Position, counted in characters, of the first whitespace character.
    pub position: usize,
}

/// Why a filter could not be built from its textual entries.
#[derive(Clone, Copy, Debug, PartialEq, Eq, Structural)]
pub enum InvalidFilterError {
    /// The identifier is no unsigned 64-bit numeral.
    Id,
    /// The availability flag is no truth value.
    Available,
    /// The validity flag is no truth value.
    Valid,
    /// The page rank floor is no decimal numeral.
    PageRank,
    /// The moderation flag is no truth value.
    Censored,
}

/// Why the store could not serve a request.
#[derive(Clone, Copy, Debug, PartialEq, Eq, Structural)]
pub enum StoreError {
    /// The schema or the storage location could not be created.
    StorageInitError,
    /// A write or a bulk operation failed.
    StorageWriteError,
}

} // verus!
