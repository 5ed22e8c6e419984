//! Collecting the releases of the repository page by page: first the
//! releases, then the milestones (all states), each until an empty page.
//! The caller fetches the page that `next_step` names and hands it back.
use vstd::prelude::*;

use crate::clients::github::client::{
    converts_milestone, converts_release, known_tag_module, Converter, GitHubMilestone,
    GitHubRelease,
};
use crate::domain::release::Release;
use crate::text::{concat, int_decimal, push_i64_decimal};

verus! {

/// The releases that a list of GitHub releases converts into, in order: the
/// records of unknown modules and unparsable tags are left out.
pub open spec fn converted_releases(
    known: Map<Seq<char>, Seq<char>>,
    items: Seq<GitHubRelease>,
    out: Seq<Release>,
) -> bool
    decreases items.len(),
{
    if items.len() == 0 {
        out.len() == 0
    } else if known_tag_module(known, items.last().tag_name@) {
        &&& out.len() > 0
        &&& converts_release(known, items.last(), out.last())
        &&& converted_releases(known, items.drop_last(), out.drop_last())
    } else {
        converted_releases(known, items.drop_last(), out)
    }
}

/// The releases that a list of GitHub milestones converts into, in order.
pub open spec fn converted_milestones(
    known: Map<Seq<char>, Seq<char>>,
    items: Seq<GitHubMilestone>,
    out: Seq<Release>,
) -> bool
    decreases items.len(),
{
    if items.len() == 0 {
        out.len() == 0
    } else if known_tag_module(known, items.last().title@) {
        &&& out.len() > 0
        &&& converts_milestone(known, items.last(), out.last())
        &&& converted_milestones(known, items.drop_last(), out.drop_last())
    } else {
        converted_milestones(known, items.drop_last(), out)
    }
}

/// Which list is being paged through.
#[derive(Debug, Clone, Copy, PartialEq, Eq, Structural)]
pub enum CollectPhase {
    Releases,
    Milestones,
    Done,
}

/// What to fetch next.
#[derive(Debug, Clone, Copy, PartialEq, Eq, Structural)]
pub enum FetchStep {
    /// The given page of releases.
    ReleasesPage(i32),
    /// The given page of milestones.
    MilestonesPage(i32),
    /// Nothing: all pages were read.
    Finished,
}

/// The state of collecting releases page by page.
#[derive(Debug)]
pub struct ReleaseCollector {
    pub phase: CollectPhase,
    pub page: i32,
    pub collected: Vec<Release>,
}

impl ReleaseCollector {
    /// Starts at the first page (page 0) of releases, with nothing collected.
    pub fn new() -> (c: ReleaseCollector)
        ensures
            c.phase == CollectPhase::Releases,
            c.page == 0,
            c.collected@.len() == 0,
    {
        ReleaseCollector { phase: CollectPhase::Releases, page: 0, collected: Vec::new() }
    }

    /// The page to fetch next.
    pub fn next_step(&self) -> (s: FetchStep)
        ensures
            s == match self.phase {
                CollectPhase::Releases => FetchStep::ReleasesPage(self.page),
                CollectPhase::Milestones => FetchStep::MilestonesPage(self.page),
                CollectPhase::Done => FetchStep::Finished,
            },
    {
        match self.phase {
            CollectPhase::Releases => FetchStep::ReleasesPage(self.page),
            CollectPhase::Milestones => FetchStep::MilestonesPage(self.page),
            CollectPhase::Done => FetchStep::Finished,
        }
    }

    /// Takes in a fetched page of releases: an empty page ends the releases
    /// and moves on to the first page of milestones; otherwise the page's
    /// releases of known modules are appended and the next page is due.
    pub fn accept_releases_page(&mut self, converter: &Converter, items: &Vec<GitHubRelease>)
        requires
            old(self).phase == CollectPhase::Releases,
            old(self).page < i32::MAX,
        ensures
            items@.len() == 0 ==> {
                &&& final(self).phase == CollectPhase::Milestones
                &&& final(self).page == 0
                &&& final(self).collected@ == old(self).collected@
            },
            items@.len() > 0 ==> {
                &&& final(self).phase == CollectPhase::Releases
                &&& final(self).page == old(self).page + 1
                &&& final(self).collected@.take(old(self).collected@.len() as int) == old(
                    self,
                ).collected@
                &&& converted_releases(
                    converter@,
                    items@,
                    final(self).collected@.skip(old(self).collected@.len() as int),
                )
            },
    {
        if items.len() == 0 {
            self.phase = CollectPhase::Milestones;
            self.page = 0;
            return;
        }
        let start = self.collected.len();
        let mut i: usize = 0;
        while i < items.len()
            invariant
                i <= items@.len(),
                start == old(self).collected@.len(),
                self.phase == old(self).phase,
                self.page == old(self).page,
                self.collected@.len() >= start,
                self.collected@.take(start as int) == old(self).collected@,
                converted_releases(
                    converter@,
                    items@.take(i as int),
                    self.collected@.skip(start as int),
                ),
            decreases items@.len() - i,
        {
            let ghost before = self.collected@;
            match converter.convert_release(&items[i]) {
                Some(r) => {
                    self.collected.push(r);
                    assert(self.collected@.skip(start as int).drop_last() =~= before.skip(
                        start as int,
                    ));
                },
                None => {},
            }
            assert(items@.take(i + 1).drop_last() =~= items@.take(i as int));
            assert(self.collected@.take(start as int) =~= before.take(start as int));
            i = i + 1;
        }
        assert(items@.take(i as int) =~= items@);
        self.page = self.page + 1;
    }

    /// Takes in a fetched page of milestones: an empty page ends the
    /// collecting; otherwise the page's milestones of known modules are
    /// appended and the next page is due.
    pub fn accept_milestones_page(&mut self, converter: &Converter, items: &Vec<GitHubMilestone>)
        requires
            old(self).phase == CollectPhase::Milestones,
            old(self).page < i32::MAX,
        ensures
            items@.len() == 0 ==> {
                &&& final(self).phase == CollectPhase::Done
                &&& final(self).page == old(self).page
                &&& final(self).collected@ == old(self).collected@
            },
            items@.len() > 0 ==> {
                &&& final(self).phase == CollectPhase::Milestones
                &&& final(self).page == old(self).page + 1
                &&& final(self).collected@.take(old(self).collected@.len() as int) == old(
                    self,
                ).collected@
                &&& converted_milestones(
                    converter@,
                    items@,
                    final(self).collected@.skip(old(self).collected@.len() as int),
                )
            },
    {
        if items.len() == 0 {
            self.phase = CollectPhase::Done;
            return;
        }
        let start = self.collected.len();
        let mut i: usize = 0;
        while i < items.len()
            invariant
                i <= items@.len(),
                start == old(self).collected@.len(),
                self.phase == old(self).phase,
                self.page == old(self).page,
                self.collected@.len() >= start,
                self.collected@.take(start as int) == old(self).collected@,
                converted_milestones(
                    converter@,
                    items@.take(i as int),
                    self.collected@.skip(start as int),
                ),
            decreases items@.len() - i,
        {
            let ghost before = self.collected@;
            match converter.convert_milestone(&items[i]) {
                Some(r) => {
                    self.collected.push(r);
                    assert(self.collected@.skip(start as int).drop_last() =~= before.skip(
                        start as int,
                    ));
                },
                None => {},
            }
            assert(items@.take(i + 1).drop_last() =~= items@.take(i as int));
            assert(self.collected@.take(start as int) =~= before.take(start as int));
            i = i + 1;
        }
        assert(items@.take(i as int) =~= items@);
        self.page = self.page + 1;
    }

    /// The releases collected so far.
    pub fn into_releases(self) -> (r: Vec<Release>)
        ensures
            r@ == self.collected@,
    {
        self.collected
    }
}

/// Converting two lists one after the other gives the conversion of the
/// joined list.
pub proof fn law_converted_releases_concat(
    known: Map<Seq<char>, Seq<char>>,
    a: Seq<GitHubRelease>,
    b: Seq<GitHubRelease>,
    ra: Seq<Release>,
    rb: Seq<Release>,
)
    requires
        converted_releases(known, a, ra),
        converted_releases(known, b, rb),
    ensures
        converted_releases(known, a + b, ra + rb),
    decreases b.len(),
{
    if b.len() == 0 {
        assert(a + b =~= a);
        assert(ra + rb =~= ra);
    } else {
        assert((a + b).drop_last() =~= a + b.drop_last());
        assert((a + b).last() == b.last());
        if known_tag_module(known, b.last().tag_name@) {
            law_converted_releases_concat(known, a, b.drop_last(), ra, rb.drop_last());
            assert((ra + rb).drop_last() =~= ra + rb.drop_last());
            assert((ra + rb).last() == rb.last());
        } else {
            law_converted_releases_concat(known, a, b.drop_last(), ra, rb);
        }
    }
}

/// Converting two lists of milestones one after the other gives the
/// conversion of the joined list.
pub proof fn law_converted_milestones_concat(
    known: Map<Seq<char>, Seq<char>>,
    a: Seq<GitHubMilestone>,
    b: Seq<GitHubMilestone>,
    ra: Seq<Release>,
    rb: Seq<Release>,
)
    requires
        converted_milestones(known, a, ra),
        converted_milestones(known, b, rb),
    ensures
        converted_milestones(known, a + b, ra + rb),
    decreases b.len(),
{
    if b.len() == 0 {
        assert(a + b =~= a);
        assert(ra + rb =~= ra);
    } else {
        assert((a + b).drop_last() =~= a + b.drop_last());
        assert((a + b).last() == b.last());
        if known_tag_module(known, b.last().title@) {
            law_converted_milestones_concat(known, a, b.drop_last(), ra, rb.drop_last());
            assert((ra + rb).drop_last() =~= ra + rb.drop_last());
            assert((ra + rb).last() == rb.last());
        } else {
            law_converted_milestones_concat(known, a, b.drop_last(), ra, rb);
        }
    }
}

// ---------------------------------------------------------------------------
// Requests
// ---------------------------------------------------------------------------
/// `s` without its trailing `/` characters.
pub open spec fn without_trailing_slashes(s: Seq<char>) -> Seq<char>
    decreases s.len(),
{
    if s.len() > 0 && s.last() == '/' {
        without_trailing_slashes(s.drop_last())
    } else {
        s
    }
}

/// The API base URL without trailing slashes (std's
/// `str::trim_end_matches('/')`).
pub fn normalize_base_url(base_url: &str) -> (r: String)
    ensures
        r@ == without_trailing_slashes(base_url@),
{
    let v = crate::text::chars_of(base_url);
    let mut end: usize = v.len();
    assert(v@.subrange(0, v@.len() as int) =~= base_url@);
    while end > 0 && v[end - 1] == '/'
        invariant
            v@ == base_url@,
            end <= v@.len(),
            without_trailing_slashes(v@.subrange(0, end as int)) == without_trailing_slashes(
                base_url@,
            ),
        decreases end,
    {
        assert(v@.subrange(0, end as int).drop_last() =~= v@.subrange(0, end - 1));
        end = end - 1;
    }
    crate::text::string_of_range(v.as_slice(), 0, end)
}

/// The path and query of a page of the repository's releases.
pub open spec fn releases_page_url_spec(base_url: Seq<char>, page: int) -> Seq<char> {
    base_url + "/repos/crystalservice/SET10-Loyalty/releases?per_page=100&page="@ + int_decimal(
        page,
    )
}

/// The path and query of a page of the repository's milestones.
pub open spec fn milestones_page_url_spec(base_url: Seq<char>, page: int) -> Seq<char> {
    base_url + "/repos/crystalservice/SET10-Loyalty/milestones?state=all&per_page=100&page="@
        + int_decimal(page)
}

/// The URL of a page (100 records) of the repository's releases.
pub fn releases_page_url(base_url: &str, page: i32) -> (r: String)
    ensures
        r@ == releases_page_url_spec(base_url@, page as int),
{
    let mut s = concat(base_url, "/repos/crystalservice/SET10-Loyalty/releases?per_page=100&page=");
    push_i64_decimal(&mut s, page as i64);
    s
}

/// The URL of a page (100 records) of the repository's milestones, in all
/// states.
pub fn milestones_page_url(base_url: &str, page: i32) -> (r: String)
    ensures
        r@ == milestones_page_url_spec(base_url@, page as int),
{
    let mut s = concat(
        base_url,
        "/repos/crystalservice/SET10-Loyalty/milestones?state=all&per_page=100&page=",
    );
    push_i64_decimal(&mut s, page as i64);
    s
}

/// The `Authorization` header value for a token.
pub fn bearer_authorization(token: &str) -> (r: String)
    ensures
        r@ == "Bearer "@ + token@,
{
    concat("Bearer ", token)
}

/// The status of a page response that is an error: anything but 200.
pub fn page_status_error(status: u16) -> (r: Option<u16>)
    ensures
        r == (if status == 200 {
            None
        } else {
            Some(status)
        }),
{
    if status == 200 {
        None
    } else {
        Some(status)
    }
}

} // verus!
