//! The repository lister as a state machine: pages are requested
//! strictly in order, records accumulate, and a page shorter than the
//! requested page size ends the listing. A failed request also ends
//! it, keeping whatever was accumulated. The driver performs the HTTP
//! requests and feeds each outcome back in.

use vstd::prelude::*;
use crate::repo::Repo;
use crate::requests::{list_url, list_url_view};

verus! {

/// Page sizes accepted by the listing endpoint lie in `[1, 100]`;
/// anything else is clamped to the nearest accepted value.
pub open spec fn clamped_per_page(requested: int) -> int {
    if requested < 1 {
        1
    } else if requested > 100 {
        100
    } else {
        requested
    }
}

/// Clamp a requested page size into the range the API accepts.
pub fn clamp_per_page(requested: usize) -> (r: usize)
    ensures
        r == clamped_per_page(requested as int),
{
    if requested < 1 {
        1
    } else if requested > 100 {
        100
    } else {
        requested
    }
}

/// State of one sequential paginated listing.
pub struct Lister {
    /// Page size for every request, in `[1, 100]`.
    pub per_page: usize,
    /// Next page to request, 1-based.
    pub page: usize,
    /// Records accumulated so far, in arrival order.
    pub repos: Vec<Repo>,
    /// Whether the listing has ended.
    pub finished: bool,
}

impl Lister {
    /// Well-formedness of a listing state.
    pub open spec fn wf(self) -> bool {
        &&& 1 <= self.per_page <= 100
        &&& 1 <= self.page
    }

    /// Start a listing with the requested page size, clamped.
    pub fn new(requested_per_page: usize) -> (l: Lister)
        ensures
            l.wf(),
            l.per_page == clamped_per_page(requested_per_page as int),
            l.page == 1,
            l.repos@.len() == 0,
            !l.finished,
    {
        Lister { per_page: clamp_per_page(requested_per_page), page: 1, repos: Vec::new(), finished: false }
    }

    /// The URL of the next page request.
    pub fn next_url(&self) -> (r: String)
        requires
            !self.finished,
        ensures
            r@ == list_url_view(self.per_page as int, self.page as int),
    {
        list_url(self.per_page, self.page)
    }

    /// Record one returned page: its records are appended, and the
    /// listing ends exactly when the page is short — fewer records
    /// than requested — or page numbers are exhausted.
    pub fn on_page(&mut self, records: Vec<Repo>)
        requires
            old(self).wf(),
            !old(self).finished,
        ensures
            final(self).wf(),
            final(self).per_page == old(self).per_page,
            final(self).repos@ == old(self).repos@ + records@,
            final(self).finished == (records@.len() < old(self).per_page || old(self).page
                == usize::MAX),
            final(self).page == (if final(self).finished {
                old(self).page as int
            } else {
                old(self).page + 1
            }),
    {
        let short = records.len() < self.per_page;
        let mut recs = records;
        self.repos.append(&mut recs);
        if short || self.page == usize::MAX {
            self.finished = true;
        } else {
            self.page = self.page + 1;
        }
    }

    /// A failed page request ends the listing; the accumulated records
    /// stay and are surfaced as the partial result.
    pub fn on_error(&mut self)
        ensures
            *final(self) == (Lister { finished: true, ..*old(self) }),
    {
        self.finished = true;
    }
}

} // verus!
