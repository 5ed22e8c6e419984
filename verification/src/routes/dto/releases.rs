//! The query and JSON shapes of the release listings.
use vstd::prelude::*;

use crate::domain::release::{Release, ReleaseKind, Version};

verus! {

/// The query of a release listing: the `rc` and `ms` flags, as given.
#[derive(Debug, Clone)]
pub struct ReleasesQuery {
    pub rc: Option<String>,
    pub ms: Option<String>,
}

/// A release as the API reports it.
#[derive(Debug, Clone)]
pub struct ReleaseRow {
    pub name: String,
    pub localized_name: String,
    pub kind: ReleaseKind,
    pub version: Version,
    pub url: String,
    pub date_time: String,
}

/// The row of a release: every field but the closed flag.
pub open spec fn release_row_of(r: Release) -> ReleaseRow {
    ReleaseRow {
        name: r.name,
        localized_name: r.localized_name,
        kind: r.kind,
        version: r.version,
        url: r.url,
        date_time: r.date_time,
    }
}

impl<'a> From<&'a Release> for ReleaseRow {
    fn from(value: &'a Release) -> (r: ReleaseRow) {
        ReleaseRow {
            name: value.name.clone(),
            localized_name: value.localized_name.clone(),
            kind: value.kind,
            version: value.version,
            url: value.url.clone(),
            date_time: value.date_time.clone(),
        }
    }
}

impl<'a> vstd::std_specs::convert::FromSpecImpl<&'a Release> for ReleaseRow {
    open spec fn obeys_from_spec() -> bool {
        true
    }

    open spec fn from_spec(value: &'a Release) -> ReleaseRow {
        release_row_of(*value)
    }
}

} // verus!
