//! What the release store keeps and gives back: the row of a release, the
//! queries that read releases, job status codes, and how store failures are
//! answered.
use vstd::prelude::*;

use crate::clients::github::client::{converts_milestone, converts_release, GitHubMilestone, GitHubRelease};
use crate::clients::github::parse::lemma_parsed_tag_non_negative;
use crate::domain::job::{Job, JobResult, JobStatus};
use crate::domain::release::{Release, ReleaseKind, Version};
use crate::text::{
    contains_spec, lacks_pair, lemma_contains_middle, lemma_lacks_pair_concat, lemma_pair_excludes,
    str_equal,
};

verus! {

/// Controls which persisted rows are returned by read queries.
#[derive(Debug, Clone, Copy, PartialEq, Eq, Structural)]
pub struct Include {
    pub candidates: bool,
    pub milestones: bool,
}

impl Include {
    /// Every kind of record.
    pub fn all() -> (r: Include)
        ensures
            r.candidates,
            r.milestones,
    {
        Include { candidates: true, milestones: true }
    }
}

/// A stored value that the store cannot read back.
#[derive(Debug, Clone)]
pub enum DecodeError {
    /// An unknown `version_kind`, or a candidate without a number.
    InvalidVersionKind(String),
    /// An unknown job status.
    InvalidJobStatus(String),
}

// ---------------------------------------------------------------------------
// Release rows
// ---------------------------------------------------------------------------
/// The columns of the `releases` table (the localized name lives in the
/// `modules` table).  A missing candidate number is stored as `-1`.
#[derive(Debug, Clone)]
pub struct StoredRelease {
    pub name: String,
    pub url: String,
    pub date_time: String,
    pub version_kind: String,
    pub major: i32,
    pub minor: i32,
    pub patch: i32,
    pub rc_number: i32,
    pub closed: bool,
}

/// How a kind is stored.
pub open spec fn kind_text(k: ReleaseKind) -> Seq<char> {
    match k {
        ReleaseKind::Milestone => "milestone"@,
        ReleaseKind::Production => "production"@,
        ReleaseKind::Candidate => "candidate"@,
    }
}

/// The stored text of a kind.
pub fn version_kind_db_str(kind: ReleaseKind) -> (r: &'static str)
    ensures
        r@ == kind_text(kind),
{
    match kind {
        ReleaseKind::Milestone => "milestone",
        ReleaseKind::Production => "production",
        ReleaseKind::Candidate => "candidate",
    }
}

/// The kind a release is stored under: a candidate version is always stored
/// as a candidate.
pub open spec fn stored_kind(r: Release) -> ReleaseKind {
    match r.version {
        Version::Candidate { .. } => ReleaseKind::Candidate,
        Version::Release { .. } => r.kind,
    }
}

/// The stored kind, numbers and candidate number of a release.
pub fn version_parts(r: &Release) -> (p: (ReleaseKind, i32, i32, i32, Option<i32>))
    ensures
        p.0 == stored_kind(*r),
        p == match r.version {
            Version::Release { major, minor, patch } => (r.kind, major, minor, patch, None),
            Version::Candidate { major, minor, patch, number } => (
                ReleaseKind::Candidate,
                major,
                minor,
                patch,
                Some(number),
            ),
        },
{
    let kind = r.kind;
    match r.version {
        Version::Release { major, minor, patch } => (kind, major, minor, patch, None),
        Version::Candidate { major, minor, patch, number } => (
            ReleaseKind::Candidate,
            major,
            minor,
            patch,
            Some(number),
        ),
    }
}

/// `row` is how `r` is stored: the closed flag is kept for milestones only.
pub open spec fn stores_as(r: Release, row: StoredRelease) -> bool {
    &&& row.name@ == r.name@
    &&& row.url@ == r.url@
    &&& row.date_time@ == r.date_time@
    &&& row.version_kind@ == kind_text(stored_kind(r))
    &&& row.closed == (r.kind == ReleaseKind::Milestone && r.closed)
    &&& match r.version {
        Version::Release { major, minor, patch } => row.major == major && row.minor == minor
            && row.patch == patch && row.rc_number == -1,
        Version::Candidate { major, minor, patch, number } => row.major == major && row.minor
            == minor && row.patch == patch && row.rc_number == number,
    }
}

/// The row that stores a release.
pub fn stored_release(r: &Release) -> (row: StoredRelease)
    ensures
        stores_as(*r, row),
{
    let (kind, major, minor, patch, rc) = version_parts(r);
    let closed = match r.kind {
        ReleaseKind::Milestone => r.closed,
        _ => false,
    };
    StoredRelease {
        name: r.name.clone(),
        url: r.url.clone(),
        date_time: r.date_time.clone(),
        version_kind: String::from_str(version_kind_db_str(kind)),
        major,
        minor,
        patch,
        rc_number: match rc {
            Some(n) => n,
            None => -1,
        },
        closed,
    }
}

/// `out` stores, in order, the releases of `releases` whose module is one of
/// `known`; the others are skipped.
pub open spec fn stores_known(releases: Seq<Release>, known: Seq<Seq<char>>, out: Seq<StoredRelease>) -> bool
    decreases releases.len(),
{
    if releases.len() == 0 {
        out.len() == 0
    } else if known.contains(releases.last().name@) {
        &&& out.len() > 0
        &&& stores_as(releases.last(), out.last())
        &&& stores_known(releases.drop_last(), known, out.drop_last())
    } else {
        stores_known(releases.drop_last(), known, out)
    }
}

fn is_known(name: &str, known: &Vec<String>) -> (r: bool)
    ensures
        r == known@.map_values(|s: String| s@).contains(name@),
{
    let ghost names = known@.map_values(|s: String| s@);
    let mut i: usize = 0;
    while i < known.len()
        invariant
            names == known@.map_values(|s: String| s@),
            i <= known@.len(),
            forall|j: int| 0 <= j < i ==> names[j] != name@,
        decreases known@.len() - i,
    {
        if str_equal(known[i].as_str(), name) {
            assert(names[i as int] == name@);
            return true;
        }
        i = i + 1;
    }
    false
}

/// The rows to write for a snapshot of releases: one per release of a known
/// module, in order.
pub fn releases_to_store(releases: &Vec<Release>, known_modules: &Vec<String>) -> (out: Vec<
    StoredRelease,
>)
    ensures
        stores_known(releases@, known_modules@.map_values(|s: String| s@), out@),
{
    let ghost known = known_modules@.map_values(|s: String| s@);
    let mut out: Vec<StoredRelease> = Vec::new();
    let mut i: usize = 0;
    while i < releases.len()
        invariant
            i <= releases@.len(),
            known == known_modules@.map_values(|s: String| s@),
            stores_known(releases@.take(i as int), known, out@),
        decreases releases@.len() - i,
    {
        let r = &releases[i];
        assert(releases@.take(i + 1).drop_last() =~= releases@.take(i as int));
        assert(releases@.take(i + 1).last() == *r);
        if is_known(r.name.as_str(), known_modules) {
            let ghost before = out@;
            out.push(stored_release(r));
            assert(out@.drop_last() =~= before);
        }
        i = i + 1;
    }
    assert(releases@.take(i as int) =~= releases@);
    out
}

/// The kind a stored text names; `release` is read as production.
pub open spec fn kind_from_text(s: Seq<char>) -> Option<ReleaseKind> {
    if s == "milestone"@ {
        Some(ReleaseKind::Milestone)
    } else if s == "production"@ || s == "release"@ {
        Some(ReleaseKind::Production)
    } else if s == "candidate"@ {
        Some(ReleaseKind::Candidate)
    } else {
        None
    }
}

/// The version a stored row holds (`rc` is the candidate number, when the
/// stored one is not negative).
pub open spec fn version_from_row_spec(kind: Seq<char>, major: i32, minor: i32, patch: i32, rc: Option<
    i32,
>) -> Option<Version> {
    if kind == "production"@ || kind == "milestone"@ || kind == "release"@ {
        Some(Version::Release { major, minor, patch })
    } else if kind == "candidate"@ {
        match rc {
            Some(number) => Some(Version::Candidate { major, minor, patch, number }),
            None => None,
        }
    } else {
        None
    }
}

/// Reads the version of a stored row.
pub fn version_from_row(kind: &str, major: i32, minor: i32, patch: i32, rc: Option<i32>) -> (r:
    Result<Version, DecodeError>)
    ensures
        match r {
            Ok(v) => version_from_row_spec(kind@, major, minor, patch, rc) == Some(v),
            Err(DecodeError::InvalidVersionKind(msg)) => {
                &&& version_from_row_spec(kind@, major, minor, patch, rc) is None
                &&& msg@ == if kind@ == "candidate"@ {
                    "candidate without rc_number"@
                } else {
                    kind@
                }
            },
            Err(_) => false,
        },
{
    if str_equal(kind, "production") || str_equal(kind, "milestone") || str_equal(kind, "release") {
        Ok(Version::Release { major, minor, patch })
    } else if str_equal(kind, "candidate") {
        match rc {
            Some(number) => Ok(Version::Candidate { major, minor, patch, number }),
            None => Err(
                DecodeError::InvalidVersionKind(String::from_str("candidate without rc_number")),
            ),
        }
    } else {
        Err(DecodeError::InvalidVersionKind(String::from_str(kind)))
    }
}

/// `r` is what the stored row reads as, with the module's localized name:
/// the closed flag only counts for milestones.
pub open spec fn reads_as(row: StoredRelease, localized_name: Seq<char>, r: Release) -> bool {
    let rc = if row.rc_number >= 0 {
        Some(row.rc_number)
    } else {
        None
    };
    &&& kind_from_text(row.version_kind@) == Some(r.kind)
    &&& version_from_row_spec(row.version_kind@, row.major, row.minor, row.patch, rc) == Some(
        r.version,
    )
    &&& r.name@ == row.name@
    &&& r.localized_name@ == localized_name
    &&& r.url@ == row.url@
    &&& r.date_time@ == row.date_time@
    &&& r.closed == (row.closed && r.kind == ReleaseKind::Milestone)
}

/// Whether a stored row can be read at all.
pub open spec fn row_readable(row: StoredRelease) -> bool {
    let rc = if row.rc_number >= 0 {
        Some(row.rc_number)
    } else {
        None
    };
    kind_from_text(row.version_kind@) is Some && version_from_row_spec(
        row.version_kind@,
        row.major,
        row.minor,
        row.patch,
        rc,
    ) is Some
}

/// Reads a stored row back into a release.
pub fn row_to_release(row: &StoredRelease, localized_name: &str) -> (r: Result<
    Release,
    DecodeError,
>)
    ensures
        r is Ok == row_readable(*row),
        r matches Ok(rel) ==> reads_as(*row, localized_name@, rel),
        r matches Err(e) ==> e is InvalidVersionKind,
{
    let k = row.version_kind.as_str();
    let kind = if str_equal(k, "milestone") {
        ReleaseKind::Milestone
    } else if str_equal(k, "production") || str_equal(k, "release") {
        ReleaseKind::Production
    } else if str_equal(k, "candidate") {
        ReleaseKind::Candidate
    } else {
        return Err(DecodeError::InvalidVersionKind(String::from_str(k)));
    };
    let rc = if row.rc_number >= 0 {
        Some(row.rc_number)
    } else {
        None
    };
    let version = match version_from_row(k, row.major, row.minor, row.patch, rc) {
        Ok(v) => v,
        Err(e) => {
            return Err(e);
        },
    };
    let closed = match kind {
        ReleaseKind::Milestone => row.closed,
        _ => false,
    };
    Ok(
        Release {
            name: row.name.clone(),
            localized_name: String::from_str(localized_name),
            kind,
            version,
            url: row.url.clone(),
            date_time: row.date_time.clone(),
            closed,
        },
    )
}

/// Reads stored rows, each with its module's localized name, back into
/// releases, in order; the first unreadable row fails the whole read.
pub fn rows_to_releases(rows: &Vec<(StoredRelease, String)>) -> (r: Result<Vec<Release>, DecodeError>)
    ensures
        r is Ok == (forall|i: int| 0 <= i < rows@.len() ==> row_readable(#[trigger] rows@[i].0)),
        r matches Ok(out) ==> {
            &&& out@.len() == rows@.len()
            &&& forall|i: int|
                0 <= i < rows@.len() ==> reads_as(rows@[i].0, rows@[i].1@, #[trigger] out@[i])
        },
        r matches Err(e) ==> e is InvalidVersionKind,
{
    let mut out: Vec<Release> = Vec::new();
    let mut i: usize = 0;
    while i < rows.len()
        invariant
            i <= rows@.len(),
            out@.len() == i,
            forall|k: int| 0 <= k < i ==> row_readable(#[trigger] rows@[k].0),
            forall|k: int| 0 <= k < i ==> reads_as(rows@[k].0, rows@[k].1@, #[trigger] out@[k]),
        decreases rows@.len() - i,
    {
        let (row, localized) = &rows[i];
        match row_to_release(row, localized.as_str()) {
            Ok(r) => {
                out.push(r);
            },
            Err(e) => {
                return Err(e);
            },
        }
        i = i + 1;
    }
    Ok(out)
}

/// A release whose kind agrees with its version (a candidate version exactly
/// for a candidate, with a non-negative number) and that is closed only when
/// it is a milestone.
pub open spec fn storable(r: Release) -> bool {
    &&& (r.kind == ReleaseKind::Candidate) == (r.version is Candidate)
    &&& (r.version matches Version::Candidate { number, .. } ==> number >= 0)
    &&& (r.closed ==> r.kind == ReleaseKind::Milestone)
}

/// The stored text of a kind reads back as that kind, and only the
/// candidate text asks for a candidate number.
proof fn lemma_kind_text_reads_back(k: ReleaseKind)
    ensures
        kind_from_text(kind_text(k)) == Some(k),
        (kind_text(k) == "candidate"@) == (k == ReleaseKind::Candidate),
        (kind_text(k) == "production"@ || kind_text(k) == "milestone"@ || kind_text(k)
            == "release"@) == (k != ReleaseKind::Candidate),
{
    reveal_strlit("milestone");
    reveal_strlit("production");
    reveal_strlit("release");
    reveal_strlit("candidate");
    let t = kind_text(k);
    assert(t[0] == kind_text(k)[0]);
    if t == "milestone"@ {
        assert(t[0] == 'm');
    }
    if t == "production"@ {
        assert(t[0] == 'p');
    }
    if t == "release"@ {
        assert(t[0] == 'r');
    }
    if t == "candidate"@ {
        assert(t[0] == 'c');
    }
}

/// Reading back the row a release is stored as gives the release back, with
/// the localized name of its module, for every storable release.
pub proof fn law_stored_release_reads_back(r: Release, row: StoredRelease, back: Release)
    requires
        storable(r),
        stores_as(r, row),
        reads_as(row, r.localized_name@, back),
    ensures
        back.name@ == r.name@,
        back.localized_name@ == r.localized_name@,
        back.kind == r.kind,
        back.version == r.version,
        back.url@ == r.url@,
        back.date_time@ == r.date_time@,
        back.closed == r.closed,
{
    lemma_kind_text_reads_back(stored_kind(r));
}

/// Every storable release's row can be read.
pub proof fn law_stored_release_readable(r: Release, row: StoredRelease)
    requires
        storable(r),
        stores_as(r, row),
    ensures
        row_readable(row),
{
    lemma_kind_text_reads_back(stored_kind(r));
}

/// A release converted from a GitHub release is stored and read back, with
/// its module's localized name, exactly as it was converted.
pub proof fn law_converted_release_reads_back(
    known: Map<Seq<char>, Seq<char>>,
    g: GitHubRelease,
    r: Release,
    row: StoredRelease,
    back: Release,
)
    requires
        converts_release(known, g, r),
        stores_as(r, row),
        reads_as(row, r.localized_name@, back),
    ensures
        back.name@ == r.name@,
        back.localized_name@ == r.localized_name@,
        back.kind == r.kind,
        back.version == r.version,
        back.url@ == r.url@,
        back.date_time@ == r.date_time@,
        back.closed == r.closed,
{
    lemma_parsed_tag_non_negative(g.tag_name@);
    law_stored_release_reads_back(r, row, back);
}

/// A release converted from a GitHub milestone that names a final version is
/// stored and read back, with its module's localized name, exactly as it was
/// converted: its closed state included.
pub proof fn law_converted_milestone_reads_back(
    known: Map<Seq<char>, Seq<char>>,
    m: GitHubMilestone,
    r: Release,
    row: StoredRelease,
    back: Release,
)
    requires
        converts_milestone(known, m, r),
        r.version is Release,
        stores_as(r, row),
        reads_as(row, r.localized_name@, back),
    ensures
        back.name@ == r.name@,
        back.localized_name@ == r.localized_name@,
        back.kind == r.kind,
        back.version == r.version,
        back.url@ == r.url@,
        back.date_time@ == r.date_time@,
        back.closed == r.closed,
{
    law_stored_release_reads_back(r, row, back);
}

// ---------------------------------------------------------------------------
// Queries
// ---------------------------------------------------------------------------
/// The part of the latest-releases query before the filters.
pub open spec fn all_releases_base() -> Seq<char> {
    "SELECT r.name, m.localized_name, r.url, r.date_time, r.version_kind, r.major, r.minor, r.patch, r.rc_number, r.closed\n               FROM releases r\n               INNER JOIN modules m ON m.name = r.name\n"@
}

/// The filters a listing adds: closed records left out, and candidates and
/// milestones left out unless asked for.  Asking for every kind adds none,
/// so every stored release comes back, closed milestones with their flag.
pub open spec fn inclusion_filters(wanted: Include) -> Seq<char> {
    if wanted.candidates && wanted.milestones {
        "            "@
    } else {
        "               WHERE NOT r.closed\n            "@ + if !wanted.candidates
            && !wanted.milestones {
            " AND "@ + "r.version_kind != 'candidate'"@ + " AND "@ + "r.version_kind != 'milestone'"@
        } else if !wanted.candidates {
            " AND "@ + "r.version_kind != 'candidate'"@
        } else {
            " AND "@ + "r.version_kind != 'milestone'"@
        }
    }
}

/// The query for the releases of the known modules, ordered by module name.
pub fn all_releases_query(wanted: &Include) -> (sql: String)
    ensures
        sql@ == all_releases_base() + inclusion_filters(*wanted) + " ORDER BY r.name ASC"@,
{
    let mut sql = String::from_str(
        "SELECT r.name, m.localized_name, r.url, r.date_time, r.version_kind, r.major, r.minor, r.patch, r.rc_number, r.closed\n               FROM releases r\n               INNER JOIN modules m ON m.name = r.name\n",
    );
    if wanted.candidates && wanted.milestones {
        sql.append("            ");
    } else {
        sql.append("               WHERE NOT r.closed\n            ");
        if !wanted.candidates && !wanted.milestones {
            sql.append(" AND ");
            sql.append("r.version_kind != 'candidate'");
            sql.append(" AND ");
            sql.append("r.version_kind != 'milestone'");
        } else if !wanted.candidates {
            sql.append(" AND ");
            sql.append("r.version_kind != 'candidate'");
        } else {
            sql.append(" AND ");
            sql.append("r.version_kind != 'milestone'");
        }
    }
    sql.append(" ORDER BY r.name ASC");
    assert(sql@ =~= all_releases_base() + inclusion_filters(*wanted) + " ORDER BY r.name ASC"@);
    sql
}

/// The part of one module's query before the filters (the module name is
/// its parameter).
pub open spec fn module_releases_base() -> Seq<char> {
    "SELECT r.name, m.localized_name, r.url, r.date_time, r.version_kind, r.major, r.minor, r.patch, r.rc_number, r.closed\n               FROM releases r\n               INNER JOIN modules m ON m.name = r.name\n               WHERE r.name = ?\n                 AND NOT r.closed\n            "@
}

/// The filters of one module's listing.
pub open spec fn module_inclusion_filters(wanted: Include) -> Seq<char> {
    (if !wanted.candidates {
        " AND r.version_kind != 'candidate'"@
    } else {
        Seq::empty()
    }) + (if !wanted.milestones {
        " AND r.version_kind != 'milestone'"@
    } else {
        Seq::empty()
    })
}

/// The query for one module's open releases, ordered by version numbers and
/// date.
pub fn releases_by_name_query(wanted: &Include) -> (sql: String)
    ensures
        sql@ == module_releases_base() + module_inclusion_filters(*wanted)
            + " ORDER BY r.major ASC, r.minor ASC, r.patch ASC, r.date_time ASC"@,
{
    let mut sql = String::from_str(
        "SELECT r.name, m.localized_name, r.url, r.date_time, r.version_kind, r.major, r.minor, r.patch, r.rc_number, r.closed\n               FROM releases r\n               INNER JOIN modules m ON m.name = r.name\n               WHERE r.name = ?\n                 AND NOT r.closed\n            ",
    );
    if !wanted.candidates {
        sql.append(" AND r.version_kind != 'candidate'");
    }
    if !wanted.milestones {
        sql.append(" AND r.version_kind != 'milestone'");
    }
    sql.append(" ORDER BY r.major ASC, r.minor ASC, r.patch ASC, r.date_time ASC");
    assert(sql@ =~= module_releases_base() + module_inclusion_filters(*wanted)
        + " ORDER BY r.major ASC, r.minor ASC, r.patch ASC, r.date_time ASC"@);
    sql
}

proof fn lemma_base_quote_pairs()
    ensures
        lacks_pair("SELECT r.name, m.localized_name, r.url, r.date_time, r.version_kind, r.major, r.minor, r.patch, r.rc_number, r.closed\n               FROM releases r\n               INNER JOIN modules m ON m.name = r.name\n"@, '\'', 'c'),
        lacks_pair("SELECT r.name, m.localized_name, r.url, r.date_time, r.version_kind, r.major, r.minor, r.patch, r.rc_number, r.closed\n               FROM releases r\n               INNER JOIN modules m ON m.name = r.name\n"@, '\'', 'm'),
{
    reveal_strlit("SELECT r.name, m.localized_name, r.url, r.date_time, r.version_kind, r.major, r.minor, r.patch, r.rc_number, r.closed\n               FROM releases r\n               INNER JOIN modules m ON m.name = r.name\n");
}

proof fn lemma_module_base_quote_pairs()
    ensures
        lacks_pair("SELECT r.name, m.localized_name, r.url, r.date_time, r.version_kind, r.major, r.minor, r.patch, r.rc_number, r.closed\n               FROM releases r\n               INNER JOIN modules m ON m.name = r.name\n               WHERE r.name = ?\n                 AND NOT r.closed\n            "@, '\'', 'c'),
        lacks_pair("SELECT r.name, m.localized_name, r.url, r.date_time, r.version_kind, r.major, r.minor, r.patch, r.rc_number, r.closed\n               FROM releases r\n               INNER JOIN modules m ON m.name = r.name\n               WHERE r.name = ?\n                 AND NOT r.closed\n            "@, '\'', 'm'),
{
    reveal_strlit("SELECT r.name, m.localized_name, r.url, r.date_time, r.version_kind, r.major, r.minor, r.patch, r.rc_number, r.closed\n               FROM releases r\n               INNER JOIN modules m ON m.name = r.name\n               WHERE r.name = ?\n                 AND NOT r.closed\n            ");
}

proof fn lemma_closed_filter_quote_pairs()
    ensures
        lacks_pair("               WHERE NOT r.closed\n            "@, '\'', 'c'),
        lacks_pair("               WHERE NOT r.closed\n            "@, '\'', 'm'),
{
    reveal_strlit("               WHERE NOT r.closed\n            ");
}

proof fn lemma_padding_quote_pairs()
    ensures
        lacks_pair("            "@, '\'', 'c'),
        lacks_pair("            "@, '\'', 'm'),
{
    reveal_strlit("            ");
}

proof fn lemma_and_quote_pairs()
    ensures
        lacks_pair(" AND "@, '\'', 'c'),
        lacks_pair(" AND "@, '\'', 'm'),
{
    reveal_strlit(" AND ");
}

proof fn lemma_name_order_quote_pairs()
    ensures
        lacks_pair(" ORDER BY r.name ASC"@, '\'', 'c'),
        lacks_pair(" ORDER BY r.name ASC"@, '\'', 'm'),
{
    reveal_strlit(" ORDER BY r.name ASC");
}

proof fn lemma_version_order_quote_pairs()
    ensures
        lacks_pair(" ORDER BY r.major ASC, r.minor ASC, r.patch ASC, r.date_time ASC"@, '\'', 'c'),
        lacks_pair(" ORDER BY r.major ASC, r.minor ASC, r.patch ASC, r.date_time ASC"@, '\'', 'm'),
{
    reveal_strlit(" ORDER BY r.major ASC, r.minor ASC, r.patch ASC, r.date_time ASC");
}

proof fn lemma_candidate_clause_quote_pairs()
    ensures
        lacks_pair("r.version_kind != 'candidate'"@, '\'', 'm'),
{
    reveal_strlit("r.version_kind != 'candidate'");
}

proof fn lemma_milestone_clause_quote_pairs()
    ensures
        lacks_pair("r.version_kind != 'milestone'"@, '\'', 'c'),
{
    reveal_strlit("r.version_kind != 'milestone'");
}

proof fn lemma_module_candidate_filter_quote_pairs()
    ensures
        lacks_pair(" AND r.version_kind != 'candidate'"@, '\'', 'm'),
{
    reveal_strlit(" AND r.version_kind != 'candidate'");
}

proof fn lemma_module_milestone_filter_quote_pairs()
    ensures
        lacks_pair(" AND r.version_kind != 'milestone'"@, '\'', 'c'),
{
    reveal_strlit(" AND r.version_kind != 'milestone'");
}

/// The pieces of the listing queries: a quote followed by `c` occurs only
/// in the candidate filter, and one followed by `m` only in the milestone
/// filter.
proof fn lemma_query_pieces()
    ensures
        lacks_pair("SELECT r.name, m.localized_name, r.url, r.date_time, r.version_kind, r.major, r.minor, r.patch, r.rc_number, r.closed\n               FROM releases r\n               INNER JOIN modules m ON m.name = r.name\n"@, '\'', 'c'),
        lacks_pair("SELECT r.name, m.localized_name, r.url, r.date_time, r.version_kind, r.major, r.minor, r.patch, r.rc_number, r.closed\n               FROM releases r\n               INNER JOIN modules m ON m.name = r.name\n"@, '\'', 'm'),
        lacks_pair("SELECT r.name, m.localized_name, r.url, r.date_time, r.version_kind, r.major, r.minor, r.patch, r.rc_number, r.closed\n               FROM releases r\n               INNER JOIN modules m ON m.name = r.name\n               WHERE r.name = ?\n                 AND NOT r.closed\n            "@, '\'', 'c'),
        lacks_pair("SELECT r.name, m.localized_name, r.url, r.date_time, r.version_kind, r.major, r.minor, r.patch, r.rc_number, r.closed\n               FROM releases r\n               INNER JOIN modules m ON m.name = r.name\n               WHERE r.name = ?\n                 AND NOT r.closed\n            "@, '\'', 'm'),
        lacks_pair("               WHERE NOT r.closed\n            "@, '\'', 'c'),
        lacks_pair("               WHERE NOT r.closed\n            "@, '\'', 'm'),
        lacks_pair("            "@, '\'', 'c'),
        lacks_pair("            "@, '\'', 'm'),
        lacks_pair(" AND "@, '\'', 'c'),
        lacks_pair(" AND "@, '\'', 'm'),
        lacks_pair(" ORDER BY r.name ASC"@, '\'', 'c'),
        lacks_pair(" ORDER BY r.name ASC"@, '\'', 'm'),
        lacks_pair(" ORDER BY r.major ASC, r.minor ASC, r.patch ASC, r.date_time ASC"@, '\'', 'c'),
        lacks_pair(" ORDER BY r.major ASC, r.minor ASC, r.patch ASC, r.date_time ASC"@, '\'', 'm'),
        lacks_pair("r.version_kind != 'candidate'"@, '\'', 'm'),
        lacks_pair("r.version_kind != 'milestone'"@, '\'', 'c'),
        lacks_pair(" AND r.version_kind != 'candidate'"@, '\'', 'm'),
        lacks_pair(" AND r.version_kind != 'milestone'"@, '\'', 'c'),
{
    lemma_base_quote_pairs();
    lemma_module_base_quote_pairs();
    lemma_closed_filter_quote_pairs();
    lemma_padding_quote_pairs();
    lemma_and_quote_pairs();
    lemma_name_order_quote_pairs();
    lemma_version_order_quote_pairs();
    lemma_candidate_clause_quote_pairs();
    lemma_milestone_clause_quote_pairs();
    lemma_module_candidate_filter_quote_pairs();
    lemma_module_milestone_filter_quote_pairs();
}

/// The latest-releases query leaves candidates out exactly when they are not
/// asked for, and milestones exactly when they are not asked for: it holds
/// the candidate filter `r.version_kind != 'candidate'` if and only if
/// candidates are off, and the milestone filter if and only if milestones are
/// off.
pub proof fn law_all_releases_query_filters(wanted: Include, sql: Seq<char>)
    requires
        sql == all_releases_base() + inclusion_filters(wanted) + " ORDER BY r.name ASC"@,
    ensures
        contains_spec(sql, "r.version_kind != 'candidate'"@) <==> !wanted.candidates,
        contains_spec(sql, "r.version_kind != 'milestone'"@) <==> !wanted.milestones,
{
    lemma_query_pieces();
    let base = all_releases_base();
    let pad = "            "@;
    let w = "               WHERE NOT r.closed\n            "@;
    let and = " AND "@;
    let cc = "r.version_kind != 'candidate'"@;
    let mc = "r.version_kind != 'milestone'"@;
    let o = " ORDER BY r.name ASC"@;
    reveal_strlit("SELECT r.name, m.localized_name, r.url, r.date_time, r.version_kind, r.major, r.minor, r.patch, r.rc_number, r.closed\n               FROM releases r\n               INNER JOIN modules m ON m.name = r.name\n");
    reveal_strlit("            ");
    reveal_strlit("               WHERE NOT r.closed\n            ");
    reveal_strlit(" AND ");
    reveal_strlit("r.version_kind != 'candidate'");
    reveal_strlit("r.version_kind != 'milestone'");
    reveal_strlit(" ORDER BY r.name ASC");
    if wanted.candidates && wanted.milestones {
        assert(sql == base + pad + o);
        lemma_lacks_pair_concat(base, pad, '\'', 'c');
        lemma_lacks_pair_concat(base + pad, o, '\'', 'c');
        lemma_lacks_pair_concat(base, pad, '\'', 'm');
        lemma_lacks_pair_concat(base + pad, o, '\'', 'm');
        lemma_pair_excludes(sql, cc, '\'', 'c', 18);
        lemma_pair_excludes(sql, mc, '\'', 'm', 18);
    } else if !wanted.candidates && !wanted.milestones {
        assert(sql == base + (w + (and + cc + and + mc)) + o);
        assert(sql =~= (base + w + and) + cc + (and + mc + o));
        lemma_contains_middle(base + w + and, cc, and + mc + o);
        assert(sql =~= (base + w + and + cc + and) + mc + o);
        lemma_contains_middle(base + w + and + cc + and, mc, o);
    } else if !wanted.candidates {
        assert(sql == base + (w + (and + cc)) + o);
        assert(sql =~= (base + w + and) + cc + o);
        lemma_contains_middle(base + w + and, cc, o);
        lemma_lacks_pair_concat(and, cc, '\'', 'm');
        lemma_lacks_pair_concat(w, and + cc, '\'', 'm');
        lemma_lacks_pair_concat(base, w + (and + cc), '\'', 'm');
        lemma_lacks_pair_concat(base + (w + (and + cc)), o, '\'', 'm');
        lemma_pair_excludes(sql, mc, '\'', 'm', 18);
    } else {
        assert(sql == base + (w + (and + mc)) + o);
        assert(sql =~= (base + w + and) + mc + o);
        lemma_contains_middle(base + w + and, mc, o);
        lemma_lacks_pair_concat(and, mc, '\'', 'c');
        lemma_lacks_pair_concat(w, and + mc, '\'', 'c');
        lemma_lacks_pair_concat(base, w + (and + mc), '\'', 'c');
        lemma_lacks_pair_concat(base + (w + (and + mc)), o, '\'', 'c');
        lemma_pair_excludes(sql, cc, '\'', 'c', 18);
    }
}

/// One module's query leaves candidates out exactly when they are not asked
/// for, and milestones exactly when they are not asked for: it holds
/// ` AND r.version_kind != 'candidate'` if and only if candidates are off,
/// and ` AND r.version_kind != 'milestone'` if and only if milestones are off.
pub proof fn law_releases_by_name_query_filters(wanted: Include, sql: Seq<char>)
    requires
        sql == module_releases_base() + module_inclusion_filters(wanted)
            + " ORDER BY r.major ASC, r.minor ASC, r.patch ASC, r.date_time ASC"@,
    ensures
        contains_spec(sql, " AND r.version_kind != 'candidate'"@) <==> !wanted.candidates,
        contains_spec(sql, " AND r.version_kind != 'milestone'"@) <==> !wanted.milestones,
{
    lemma_query_pieces();
    let base = module_releases_base();
    let cc = " AND r.version_kind != 'candidate'"@;
    let mc = " AND r.version_kind != 'milestone'"@;
    let o = " ORDER BY r.major ASC, r.minor ASC, r.patch ASC, r.date_time ASC"@;
    let e = Seq::<char>::empty();
    reveal_strlit("SELECT r.name, m.localized_name, r.url, r.date_time, r.version_kind, r.major, r.minor, r.patch, r.rc_number, r.closed\n               FROM releases r\n               INNER JOIN modules m ON m.name = r.name\n               WHERE r.name = ?\n                 AND NOT r.closed\n            ");
    reveal_strlit(" AND r.version_kind != 'candidate'");
    reveal_strlit(" AND r.version_kind != 'milestone'");
    reveal_strlit(" ORDER BY r.major ASC, r.minor ASC, r.patch ASC, r.date_time ASC");
    let c_part = if !wanted.candidates {
        cc
    } else {
        e
    };
    let m_part = if !wanted.milestones {
        mc
    } else {
        e
    };
    assert(sql == base + (c_part + m_part) + o);
    assert(lacks_pair(e, '\'', 'c') && lacks_pair(e, '\'', 'm'));
    if !wanted.candidates {
        assert(sql =~= base + cc + (m_part + o));
        lemma_contains_middle(base, cc, m_part + o);
    } else {
        lemma_lacks_pair_concat(c_part, m_part, '\'', 'c');
        lemma_lacks_pair_concat(base, c_part + m_part, '\'', 'c');
        lemma_lacks_pair_concat(base + (c_part + m_part), o, '\'', 'c');
        lemma_pair_excludes(sql, cc, '\'', 'c', 23);
    }
    if !wanted.milestones {
        assert(sql =~= (base + c_part) + mc + o);
        lemma_contains_middle(base + c_part, mc, o);
    } else {
        lemma_lacks_pair_concat(c_part, m_part, '\'', 'm');
        lemma_lacks_pair_concat(base, c_part + m_part, '\'', 'm');
        lemma_lacks_pair_concat(base + (c_part + m_part), o, '\'', 'm');
        lemma_pair_excludes(sql, mc, '\'', 'm', 23);
    }
}

// ---------------------------------------------------------------------------
// Job statuses
// ---------------------------------------------------------------------------
/// How a job status is stored.
pub open spec fn status_text(s: JobStatus) -> Seq<char> {
    match s {
        JobStatus::Pending => "pending"@,
        JobStatus::Running => "running"@,
        JobStatus::Succeeded => "ok"@,
        JobStatus::Failed => "failed"@,
    }
}

/// The stored text of a job status.
pub fn from_status(status: JobStatus) -> (r: &'static str)
    ensures
        r@ == status_text(status),
{
    match status {
        JobStatus::Pending => "pending",
        JobStatus::Running => "running",
        JobStatus::Succeeded => "ok",
        JobStatus::Failed => "failed",
    }
}

/// Reads a stored job status.
pub fn to_status(status: &str) -> (r: Result<JobStatus, DecodeError>)
    ensures
        match r {
            Ok(s) => status_text(s) == status@,
            Err(DecodeError::InvalidJobStatus(msg)) => msg@ == status@ && forall|s: JobStatus|
                status_text(s) != status@,
            Err(_) => false,
        },
{
    if str_equal(status, "pending") {
        Ok(JobStatus::Pending)
    } else if str_equal(status, "running") {
        Ok(JobStatus::Running)
    } else if str_equal(status, "ok") {
        Ok(JobStatus::Succeeded)
    } else if str_equal(status, "failed") {
        Ok(JobStatus::Failed)
    } else {
        Err(DecodeError::InvalidJobStatus(String::from_str(status)))
    }
}

/// Different statuses are stored as different texts.
pub proof fn law_status_text_distinct(a: JobStatus, b: JobStatus)
    ensures
        status_text(a) == status_text(b) ==> a == b,
{
    reveal_strlit("pending");
    reveal_strlit("running");
    reveal_strlit("ok");
    reveal_strlit("failed");
    if status_text(a) == status_text(b) {
        assert(status_text(a)[0] == status_text(b)[0]);
    }
}

/// Reading back a stored status gives the status back.
pub proof fn law_status_reads_back(s: JobStatus, t: JobStatus)
    requires
        status_text(t) == status_text(s),
    ensures
        t == s,
{
    law_status_text_distinct(s, t);
}

/// A job row read back: its status must be a known one.
pub fn job_result_from_row(
    id: String,
    status: &str,
    error_code: Option<String>,
    error_detail: Option<String>,
) -> (r: Result<JobResult, DecodeError>)
    ensures
        match r {
            Ok(j) => {
                &&& j.id == id
                &&& status_text(j.status) == status@
                &&& j.error_code == error_code
                &&& j.error_detail == error_detail
            },
            Err(DecodeError::InvalidJobStatus(msg)) => msg@ == status@ && forall|s: JobStatus|
                status_text(s) != status@,
            Err(_) => false,
        },
{
    match to_status(status) {
        Ok(s) => Ok(JobResult { id, status: s, error_code, error_detail }),
        Err(e) => Err(e),
    }
}

/// The details of a claimed job, as its detail tables hold them.
#[derive(Debug, Clone)]
pub struct CreateReleaseDetail {
    pub milestone: String,
    pub candidate: bool,
    pub description: Option<String>,
}

/// The job a claimed identifier stands for: a release creation when the
/// creation table has a row for it, else a release deletion when the
/// deletion table has one, else none.
pub fn claimed_job(id: String, create: Option<CreateReleaseDetail>, delete_tag: Option<String>) -> (r:
    Option<Job>)
    ensures
        match create {
            Some(d) => r == Some(
                Job::CreateRelease {
                    id,
                    milestone: d.milestone,
                    candidate: d.candidate,
                    description: d.description,
                },
            ),
            None => match delete_tag {
                Some(tag) => r == Some(Job::DeleteRelease { id, tag }),
                None => r is None,
            },
        },
{
    match create {
        Some(d) => Some(
            Job::CreateRelease {
                id,
                milestone: d.milestone,
                candidate: d.candidate,
                description: d.description,
            },
        ),
        None => match delete_tag {
            Some(tag) => Some(Job::DeleteRelease { id, tag }),
            None => None,
        },
    }
}

// ---------------------------------------------------------------------------
// Lookups
// ---------------------------------------------------------------------------
/// The query that lists modules, narrowed to one name when one is given.
pub fn modules_query(by_name: bool) -> (sql: &'static str)
    ensures
        sql@ == if by_name {
            "SELECT name, localized_name FROM modules WHERE name = ? ORDER BY name ASC"@
        } else {
            "SELECT name, localized_name FROM modules ORDER BY name ASC"@
        },
{
    if by_name {
        "SELECT name, localized_name FROM modules WHERE name = ? ORDER BY name ASC"
    } else {
        "SELECT name, localized_name FROM modules ORDER BY name ASC"
    }
}

/// The query that finds the release of a version, with its module's
/// localized name, and the values bound to it: the three numbers, and the
/// candidate number for a candidate.  A final version matches the production
/// or milestone record of its numbers.
pub fn release_by_version_query(v: &Version) -> (r: (&'static str, Vec<i32>))
    ensures
        match *v {
            Version::Release { major, minor, patch } => {
                &&& r.0@ == "SELECT r.name, m.localized_name, r.url, r.date_time, r.version_kind, r.major, r.minor, r.patch, r.rc_number, r.closed FROM releases r INNER JOIN modules m ON m.name = r.name WHERE r.version_kind <> 'candidate' AND r.major = ? AND r.minor = ? AND r.patch = ?"@
                &&& r.1@ == seq![major, minor, patch]
            },
            Version::Candidate { major, minor, patch, number } => {
                &&& r.0@ == "SELECT r.name, m.localized_name, r.url, r.date_time, r.version_kind, r.major, r.minor, r.patch, r.rc_number, r.closed FROM releases r INNER JOIN modules m ON m.name = r.name WHERE r.version_kind = 'candidate' AND r.major = ? AND r.minor = ? AND r.patch = ? AND r.rc_number = ?"@
                &&& r.1@ == seq![major, minor, patch, number]
            },
        },
{
    match *v {
        Version::Release { major, minor, patch } => {
            let params = vec![major, minor, patch];
            (
                "SELECT r.name, m.localized_name, r.url, r.date_time, r.version_kind, r.major, r.minor, r.patch, r.rc_number, r.closed FROM releases r INNER JOIN modules m ON m.name = r.name WHERE r.version_kind <> 'candidate' AND r.major = ? AND r.minor = ? AND r.patch = ?",
                params,
            )
        },
        Version::Candidate { major, minor, patch, number } => {
            let params = vec![major, minor, patch, number];
            (
                "SELECT r.name, m.localized_name, r.url, r.date_time, r.version_kind, r.major, r.minor, r.patch, r.rc_number, r.closed FROM releases r INNER JOIN modules m ON m.name = r.name WHERE r.version_kind = 'candidate' AND r.major = ? AND r.minor = ? AND r.patch = ? AND r.rc_number = ?",
                params,
            )
        },
    }
}

// ---------------------------------------------------------------------------
// Failures
// ---------------------------------------------------------------------------
/// What went wrong in the store, as far as the HTTP answer cares.
#[derive(Debug, Clone, Copy, PartialEq, Eq, Structural)]
pub enum StoreFailure {
    /// A stored value could not be read (a bad version kind or job status).
    InvalidData,
    /// The connection pool timed out or is closed, or its worker crashed.
    Unavailable,
    /// Any other database error.
    Database,
    /// The requested record does not exist.
    NotFound,
}

/// The HTTP status a store failure is answered with.
pub open spec fn store_failure_status_spec(f: StoreFailure) -> u16 {
    match f {
        StoreFailure::InvalidData => 500,
        StoreFailure::Unavailable => 503,
        StoreFailure::Database => 502,
        StoreFailure::NotFound => 400,
    }
}

/// The HTTP status for a store failure: 500 for unreadable data, 503 while
/// the database is unavailable, 502 for other database errors, 400 for a
/// record that does not exist.
pub fn store_failure_status(f: StoreFailure) -> (status: u16)
    ensures
        status == store_failure_status_spec(f),
{
    match f {
        StoreFailure::InvalidData => 500,
        StoreFailure::Unavailable => 503,
        StoreFailure::Database => 502,
        StoreFailure::NotFound => 400,
    }
}

} // verus!
