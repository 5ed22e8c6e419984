//! Versions and releases of the repository's modules.
use vstd::prelude::*;

use crate::text::{int_decimal, push_char, push_i64_decimal};

pub use crate::clients::github::parse::parse_tag;

verus! {

/// What a release record stands for.
#[derive(Debug, Clone, Copy, PartialEq, Eq, Structural)]
pub enum ReleaseKind {
    /// A planned release (a GitHub milestone).
    Milestone,
    /// A final, published release.
    Production,
    /// A release candidate.
    Candidate,
}

impl ReleaseKind {
    /// Tie-break rank between releases of equal version: production wins over
    /// a milestone, which wins over a candidate.
    pub open spec fn rank_spec(self) -> int {
        match self {
            ReleaseKind::Production => 2,
            ReleaseKind::Milestone => 1,
            ReleaseKind::Candidate => 0,
        }
    }

    /// The tie-break rank of this kind.
    pub fn rank(self) -> (r: i32)
        ensures
            r == self.rank_spec(),
    {
        match self {
            ReleaseKind::Production => 2,
            ReleaseKind::Milestone => 1,
            ReleaseKind::Candidate => 0,
        }
    }
}

/// A module version: `major.minor.patch`, optionally a release candidate
/// `major.minor.patch-RCnumber`.
#[derive(Debug, Clone, Copy, PartialEq, Eq, Structural)]
pub enum Version {
    Release { major: i32, minor: i32, patch: i32 },
    Candidate { major: i32, minor: i32, patch: i32, number: i32 },
}

/// Lexicographic "less than" on quadruples of integers.
pub open spec fn lex_lt(p: (int, int, int, int), q: (int, int, int, int)) -> bool {
    ||| p.0 < q.0
    ||| p.0 == q.0 && p.1 < q.1
    ||| p.0 == q.0 && p.1 == q.1 && p.2 < q.2
    ||| p.0 == q.0 && p.1 == q.1 && p.2 == q.2 && p.3 < q.3
}

impl Version {
    /// The sort key of a version: a final release counts as candidate number
    /// `i32::MAX`, so it sorts after every candidate of the same triple.
    pub open spec fn key(self) -> (int, int, int, int) {
        match self {
            Version::Release { major, minor, patch } => (
                major as int,
                minor as int,
                patch as int,
                i32::MAX as int,
            ),
            Version::Candidate { major, minor, patch, number } => (
                major as int,
                minor as int,
                patch as int,
                number as int,
            ),
        }
    }

    /// The sort key of this version.
    pub fn parts(&self) -> (p: (i32, i32, i32, i32))
        ensures
            (p.0 as int, p.1 as int, p.2 as int, p.3 as int) == self.key(),
    {
        match *self {
            Version::Release { major, minor, patch } => (major, minor, patch, i32::MAX),
            Version::Candidate { major, minor, patch, number } => (major, minor, patch, number),
        }
    }

    /// The release kind a version denotes on its own.
    pub open spec fn kind_spec(self) -> ReleaseKind {
        match self {
            Version::Release { .. } => ReleaseKind::Production,
            Version::Candidate { .. } => ReleaseKind::Candidate,
        }
    }

    /// `Production` for a final release, `Candidate` for a release candidate.
    pub fn kind(&self) -> (k: ReleaseKind)
        ensures
            k == self.kind_spec(),
    {
        match self {
            Version::Release { .. } => ReleaseKind::Production,
            Version::Candidate { .. } => ReleaseKind::Candidate,
        }
    }

    /// The text of a version: `1.2.3`, or `1.2.3-RC7` for a candidate.
    pub open spec fn text(self) -> Seq<char> {
        match self {
            Version::Release { major, minor, patch } => int_decimal(major as int) + seq!['.']
                + int_decimal(minor as int) + seq!['.'] + int_decimal(patch as int),
            Version::Candidate { major, minor, patch, number } => int_decimal(major as int)
                + seq!['.'] + int_decimal(minor as int) + seq!['.'] + int_decimal(patch as int)
                + seq!['-', 'R', 'C'] + int_decimal(number as int),
        }
    }

    /// Appends the text of this version to `s`.
    pub fn push_text(&self, s: &mut String)
        ensures
            final(s)@ == old(s)@ + self.text(),
    {
        match *self {
            Version::Release { major, minor, patch } => {
                push_i64_decimal(s, major as i64);
                push_char(s, '.');
                push_i64_decimal(s, minor as i64);
                push_char(s, '.');
                push_i64_decimal(s, patch as i64);
            },
            Version::Candidate { major, minor, patch, number } => {
                push_i64_decimal(s, major as i64);
                push_char(s, '.');
                push_i64_decimal(s, minor as i64);
                push_char(s, '.');
                push_i64_decimal(s, patch as i64);
                push_char(s, '-');
                push_char(s, 'R');
                push_char(s, 'C');
                push_i64_decimal(s, number as i64);
            },
        }
        assert(final(s)@ =~= old(s)@ + self.text());
    }

    /// The text of this version, as its `Display` would print it.
    pub fn to_text(&self) -> (s: String)
        ensures
            s@ == self.text(),
    {
        let mut s = String::new();
        self.push_text(&mut s);
        assert(s@ =~= self.text());
        s
    }
}

/// `a` sorts strictly before `b`.
pub open spec fn version_lt(a: Version, b: Version) -> bool {
    lex_lt(a.key(), b.key())
}

/// `a` and `b` sort at the same place (a final release `x.y.z` and the
/// candidate `x.y.z-RC2147483647` do).
pub open spec fn version_equiv(a: Version, b: Version) -> bool {
    a.key() == b.key()
}

/// One release record of a module.
#[derive(Debug, Clone)]
pub struct Release {
    pub name: String,
    pub localized_name: String,
    pub kind: ReleaseKind,
    pub version: Version,
    pub url: String,
    pub date_time: String,
    /// Only meaningful for `kind == ReleaseKind::Milestone`.
    pub closed: bool,
}

/// `a` sorts strictly before `b`: by version, then by the kind's rank.
pub open spec fn release_lt(a: Release, b: Release) -> bool {
    ||| version_lt(a.version, b.version)
    ||| version_equiv(a.version, b.version) && a.kind.rank_spec() < b.kind.rank_spec()
}

/// `a` and `b` sort at the same place.
pub open spec fn release_equiv(a: Release, b: Release) -> bool {
    version_equiv(a.version, b.version) && a.kind.rank_spec() == b.kind.rank_spec()
}

impl Release {
    /// The text of a release: `name (localized name) version`.
    pub open spec fn text(self) -> Seq<char> {
        self.name@ + seq![' ', '('] + self.localized_name@ + seq![')', ' '] + self.version.text()
    }

    /// The text of this release, as its `Display` would print it.
    pub fn to_text(&self) -> (s: String)
        ensures
            s@ == self.text(),
    {
        let mut s = self.name.clone();
        push_char(&mut s, ' ');
        push_char(&mut s, '(');
        s.append(self.localized_name.as_str());
        push_char(&mut s, ')');
        push_char(&mut s, ' ');
        self.version.push_text(&mut s);
        assert(s@ =~= self.text());
        s
    }

    /// A field-by-field copy.
    pub fn duplicate(&self) -> (r: Release)
        ensures
            r == *self,
    {
        Release {
            name: self.name.clone(),
            localized_name: self.localized_name.clone(),
            kind: self.kind,
            version: self.version,
            url: self.url.clone(),
            date_time: self.date_time.clone(),
            closed: self.closed,
        }
    }
}

/// One version of a single module, as listed on the module's page.
#[derive(Debug, Clone)]
pub struct ModuleRelease {
    pub version: Version,
    pub url: String,
    pub date_time: String,
}

} // verus!
