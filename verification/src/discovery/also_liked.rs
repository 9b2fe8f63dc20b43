//! The "others also liked" discovery source: novels recommended next to
//! an evaluated novel are admitted to the frontier after a lightweight
//! pre-filter on status, rating and excluded tags.
//!
//! Fetching the recommendation payload and the related pages is the
//! driver's job; this module holds the admission rule.

use vstd::prelude::*;
use crate::models::{Criteria, Novel};
use crate::eval::filter::{
    check_status_allowed, check_tags_none_present, status_allowed, tags_none_present,
};

verus! {

/// The lightweight admission rule applied to each discovered novel
/// before it may enter the frontier: allowed status, minimum rating,
/// and no excluded tag. Page bounds and required tags are left to the
/// full pre-filter at evaluation time.
pub open spec fn spec_discovery_admits(c: Criteria, n: Novel) -> bool {
    &&& match c.min_rating_milli {
        Some(m) => n.rating_milli >= m,
        None => true,
    }
    &&& status_allowed(c.allowed_statuses, n.status)
    &&& tags_none_present(n.tags@, c.excluded_tags)
}

/// Check the discovery admission rule.
pub fn discovery_admits(criteria: &Criteria, novel: &Novel) -> (r: bool)
    ensures
        r == spec_discovery_admits(*criteria, *novel),
{
    match &criteria.min_rating_milli {
        Some(m) => {
            if novel.rating_milli < *m {
                return false;
            }
        },
        None => {},
    }
    if !check_status_allowed(&criteria.allowed_statuses, novel.status) {
        return false;
    }
    if !check_tags_none_present(&novel.tags, &criteria.excluded_tags) {
        return false;
    }
    true
}

/// Discovers new novels via the site's "others also liked"
/// recommendations, filtering each against its criteria before it is
/// handed on.
pub struct AlsoLikedDiscovery {
    /// Criteria used for the lightweight pre-filter of discoveries.
    criteria: Criteria,
}

impl AlsoLikedDiscovery {
    /// The criteria this source filters against.
    pub closed spec fn spec_criteria(self) -> Criteria {
        self.criteria
    }

    /// Create a new "also liked" discovery source.
    pub fn new(criteria: Criteria) -> (r: AlsoLikedDiscovery)
        ensures
            r.spec_criteria() == criteria,
    {
        AlsoLikedDiscovery { criteria }
    }

    /// Whether a discovered novel passes the lightweight admission rule.
    pub fn admits(&self, novel: &Novel) -> (r: bool)
        ensures
            r == spec_discovery_admits(self.spec_criteria(), *novel),
    {
        discovery_admits(&self.criteria, novel)
    }
}

} // verus!
