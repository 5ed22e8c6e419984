//! The order of versions and releases, and its laws.
use vstd::prelude::*;

use std::cmp::Ordering;
use vstd::std_specs::cmp::PartialOrdSpecImpl;

use super::release::{
    release_equiv, release_lt, version_equiv, version_lt, Release, ReleaseKind, Version,
};

verus! {

/// The `Ordering` that a strict order and an equivalence give for `a` vs `b`.
pub open spec fn ordering_of(less: bool, equal: bool) -> Ordering {
    if less {
        Ordering::Less
    } else if equal {
        Ordering::Equal
    } else {
        Ordering::Greater
    }
}

fn cmp_i32(a: i32, b: i32) -> (o: Ordering)
    ensures
        o == ordering_of(a < b, a == b),
{
    if a < b {
        Ordering::Less
    } else if a == b {
        Ordering::Equal
    } else {
        Ordering::Greater
    }
}

impl Version {
    /// Compares two versions by their sort key.
    pub fn compare(&self, other: &Version) -> (o: Ordering)
        ensures
            o == ordering_of(version_lt(*self, *other), version_equiv(*self, *other)),
    {
        let p = self.parts();
        let q = other.parts();
        match cmp_i32(p.0, q.0) {
            Ordering::Equal => match cmp_i32(p.1, q.1) {
                Ordering::Equal => match cmp_i32(p.2, q.2) {
                    Ordering::Equal => cmp_i32(p.3, q.3),
                    o => o,
                },
                o => o,
            },
            o => o,
        }
    }
}

impl Release {
    /// Compares two releases: by version, then by kind rank.
    pub fn compare(&self, other: &Release) -> (o: Ordering)
        ensures
            o == ordering_of(release_lt(*self, *other), release_equiv(*self, *other)),
    {
        match self.version.compare(&other.version) {
            Ordering::Equal => cmp_i32(self.kind.rank(), other.kind.rank()),
            o => o,
        }
    }

    /// `self` sorts strictly after `other`.
    pub fn is_newer_than(&self, other: &Release) -> (r: bool)
        ensures
            r == release_lt(*other, *self),
    {
        match self.compare(other) {
            Ordering::Greater => true,
            _ => false,
        }
    }
}

impl PartialOrd for Version {
    fn partial_cmp(&self, other: &Version) -> (r: Option<Ordering>) {
        Some(self.compare(other))
    }
}

impl PartialOrdSpecImpl for Version {
    open spec fn obeys_partial_cmp_spec() -> bool {
        true
    }

    open spec fn partial_cmp_spec(&self, other: &Version) -> Option<Ordering> {
        Some(ordering_of(version_lt(*self, *other), version_equiv(*self, *other)))
    }
}

/// Versions are totally preordered: for any two, exactly one of "before",
/// "same place" and "after" holds.
pub proof fn law_version_order_total(a: Version, b: Version)
    ensures
        version_lt(a, b) || version_equiv(a, b) || version_lt(b, a),
        !(version_lt(a, b) && version_equiv(a, b)),
        !(version_lt(a, b) && version_lt(b, a)),
        !(version_equiv(a, b) && version_lt(b, a)),
{
}

/// The order of versions is transitive.
pub proof fn law_version_order_transitive(a: Version, b: Version, c: Version)
    requires
        version_lt(a, b),
        version_lt(b, c),
    ensures
        version_lt(a, c),
{
}

/// A final release sorts after every candidate of the same
/// `major.minor.patch` (except candidate number `i32::MAX`, which sorts at the
/// same place), and candidates sort by their number.
pub proof fn law_final_after_candidates(major: i32, minor: i32, patch: i32, n: i32, m: i32)
    ensures
        n < i32::MAX ==> version_lt(
            Version::Candidate { major, minor, patch, number: n },
            Version::Release { major, minor, patch },
        ),
        n < m ==> version_lt(
            Version::Candidate { major, minor, patch, number: n },
            Version::Candidate { major, minor, patch, number: m },
        ),
{
}

/// Releases are totally preordered: exactly one of "before", "same place"
/// and "after" holds.
pub proof fn law_release_order_total(a: Release, b: Release)
    ensures
        release_lt(a, b) || release_equiv(a, b) || release_lt(b, a),
        !(release_lt(a, b) && release_equiv(a, b)),
        !(release_lt(a, b) && release_lt(b, a)),
        !(release_equiv(a, b) && release_lt(b, a)),
{
}

/// The order of releases is transitive.
pub proof fn law_release_order_transitive(a: Release, b: Release, c: Release)
    requires
        release_lt(a, b),
        release_lt(b, c),
    ensures
        release_lt(a, c),
{
}

/// Between two releases of the same version, a production release sorts
/// after a milestone, which sorts after a candidate.
pub proof fn law_release_kind_tie_break(a: Release, b: Release)
    requires
        version_equiv(a.version, b.version),
    ensures
        release_lt(a, b) == (a.kind.rank_spec() < b.kind.rank_spec()),
{
}

/// The major, minor and patch numbers of a version.
pub open spec fn number_triple(v: Version) -> (int, int, int) {
    match v {
        Version::Release { major, minor, patch } => (major as int, minor as int, patch as int),
        Version::Candidate { major, minor, patch, .. } => (major as int, minor as int, patch as int),
    }
}

/// Versions are ordered by their major number, then their minor number, then
/// their patch number: at the first of these that differs, the smaller number
/// is the older version, whatever the numbers after it.  With all three
/// equal, a candidate is older than the final release (unless it is numbered
/// `i32::MAX`), two final releases are at the same place, and candidates are
/// ordered by their number.
pub proof fn law_version_order_by_numbers(a: Version, b: Version)
    ensures
        number_triple(a).0 < number_triple(b).0 ==> version_lt(a, b),
        number_triple(a).0 > number_triple(b).0 ==> !version_lt(a, b),
        number_triple(a).0 == number_triple(b).0 && number_triple(a).1 < number_triple(b).1
            ==> version_lt(a, b),
        number_triple(a).0 == number_triple(b).0 && number_triple(a).1 > number_triple(b).1
            ==> !version_lt(a, b),
        number_triple(a).0 == number_triple(b).0 && number_triple(a).1 == number_triple(b).1
            && number_triple(a).2 < number_triple(b).2 ==> version_lt(a, b),
        number_triple(a).0 == number_triple(b).0 && number_triple(a).1 == number_triple(b).1
            && number_triple(a).2 > number_triple(b).2 ==> !version_lt(a, b),
        number_triple(a) == number_triple(b) && a is Release && b is Release ==> !version_lt(
            a,
            b,
        ),
        number_triple(a) == number_triple(b) && b is Release ==> (version_lt(a, b) <==> (
        a matches Version::Candidate { number, .. } && number < i32::MAX)),
        number_triple(a) == number_triple(b) && a is Release ==> !version_lt(a, b),
        a is Candidate && b is Candidate && number_triple(a) == number_triple(b) ==> (version_lt(
            a,
            b,
        ) <==> a->Candidate_number < b->Candidate_number),
{
}

/// Releases are ordered by version: when one version is older than the other
/// the release order says the same, whatever the kinds; only releases at the
/// same version place are ordered by kind, a candidate before a milestone
/// before a production release.
pub proof fn law_release_order_refines_versions(a: Release, b: Release)
    ensures
        version_lt(a.version, b.version) ==> release_lt(a, b),
        version_lt(b.version, a.version) ==> !release_lt(a, b),
        !version_lt(a.version, b.version) && !version_lt(b.version, a.version) ==> (release_lt(
            a,
            b,
        ) <==> ((a.kind == ReleaseKind::Candidate && b.kind != ReleaseKind::Candidate) || (a.kind
            == ReleaseKind::Milestone && b.kind == ReleaseKind::Production))),
{
}

} // verus!
