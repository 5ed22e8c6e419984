//! GitHub release and milestone records, their conversion into releases, and
//! the paging of the GitHub API.
use vstd::prelude::*;

use crate::clients::github::parse::{parse_tag, parsed_tag};
use crate::domain::release::{Release, ReleaseKind, Version};
use crate::text::{eq_ignore_ascii_case, eq_ignore_ascii_case_spec, str_equal};
use crate::time::{
    local_publish_text, parse_rfc3339_utc, publish_text_of, publish_text_shape, rfc3339_accepts,
    rfc3339_instant, shifted_date_time,
};

verus! {

/// A release as the GitHub API lists it.
#[derive(Debug, Clone)]
pub struct GitHubRelease {
    pub tag_name: String,
    pub html_url: String,
    pub created_at: String,
}

/// A milestone as the GitHub API lists it.
#[derive(Debug, Clone)]
pub struct GitHubMilestone {
    pub title: String,
    pub html_url: String,
    pub created_at: String,
    /// GitHub returns "open" / "closed".
    pub state: String,
}

/// The map that a list of `(name, localized name)` pairs describes: a later
/// pair for the same name replaces an earlier one.
pub open spec fn pairs_map(s: Seq<(Seq<char>, Seq<char>)>) -> Map<Seq<char>, Seq<char>>
    decreases s.len(),
{
    if s.len() == 0 {
        Map::empty()
    } else {
        pairs_map(s.drop_last()).insert(s.last().0, s.last().1)
    }
}

/// The character sequences of a list of string pairs.
pub open spec fn pair_views(v: Seq<(String, String)>) -> Seq<(Seq<char>, Seq<char>)> {
    v.map_values(|p: (String, String)| (p.0@, p.1@))
}

proof fn lemma_pairs_map_later_keys(s: Seq<(Seq<char>, Seq<char>)>, k: Seq<char>, i: int)
    requires
        0 <= i <= s.len(),
        forall|j: int| i <= j < s.len() ==> (#[trigger] s[j]).0 != k,
    ensures
        pairs_map(s).contains_key(k) == pairs_map(s.take(i)).contains_key(k),
        pairs_map(s).contains_key(k) ==> pairs_map(s)[k] == pairs_map(s.take(i))[k],
    decreases s.len(),
{
    if s.len() == i {
        assert(s.take(i) =~= s);
    } else {
        lemma_pairs_map_later_keys(s.drop_last(), k, i);
        assert(s.drop_last().take(i) =~= s.take(i));
    }
}

/// Converts GitHub records into releases of the known modules.
#[derive(Debug, Clone)]
pub struct Converter {
    known_modules: Vec<(String, String)>,
}

impl View for Converter {
    /// Module name to localized name.
    type V = Map<Seq<char>, Seq<char>>;

    closed spec fn view(&self) -> Map<Seq<char>, Seq<char>> {
        pairs_map(pair_views(self.known_modules@))
    }
}

/// How a release's shown date relates to GitHub's `created_at`: when chrono
/// cannot read it as RFC 3339 it is shown as it came; otherwise it is the
/// instant chrono reads, shifted by the machine zone's offset (some offset
/// within a day) and printed as `Jan 2, 2026 at 1:05 PM`.
pub open spec fn publish_time_fits(created_at: Seq<char>, shown: Seq<char>) -> bool {
    &&& !rfc3339_accepts(created_at) ==> shown == created_at
    &&& rfc3339_accepts(created_at) ==> publish_text_shape(shown)
    &&& rfc3339_accepts(created_at) ==> exists|off: i32|
        -86400 < off < 86400 && shown == #[trigger] publish_text_of(
            shifted_date_time(rfc3339_instant(created_at), off),
        )
}

/// The shown date of a GitHub timestamp: `Jan 2, 2026 at 1:05 PM` in the
/// machine's local time zone, or the text itself when it is not RFC 3339.
pub fn format_publish_time(created_at: &str) -> (r: String)
    ensures
        publish_time_fits(created_at@, r@),
{
    match parse_rfc3339_utc(created_at) {
        Some(utc) => {
            let (text, offset) = local_publish_text(&utc);
            assert(text@ == publish_text_of(shifted_date_time(rfc3339_instant(created_at@), offset)));
            text
        },
        None => String::from_str(created_at),
    }
}

/// The module a tag names, when the tag parses and the module is known.
pub open spec fn known_tag_module(known: Map<Seq<char>, Seq<char>>, tag: Seq<char>) -> bool {
    match parsed_tag(tag) {
        Some((module, _)) => known.contains_key(module),
        None => false,
    }
}

/// `r` is what a known GitHub release converts into (its shown date as
/// `publish_time_fits` allows).
pub open spec fn converts_release(
    known: Map<Seq<char>, Seq<char>>,
    ghr: GitHubRelease,
    r: Release,
) -> bool {
    &&& parsed_tag(ghr.tag_name@) == Some((r.name@, r.version))
    &&& known.contains_key(r.name@)
    &&& r.localized_name@ == known[r.name@]
    &&& r.kind == r.version.kind_spec()
    &&& r.url@ == ghr.html_url@
    &&& publish_time_fits(ghr.created_at@, r.date_time@)
    &&& !r.closed
}

/// `r` is what a known GitHub milestone converts into.
pub open spec fn converts_milestone(
    known: Map<Seq<char>, Seq<char>>,
    m: GitHubMilestone,
    r: Release,
) -> bool {
    &&& parsed_tag(m.title@) == Some((r.name@, r.version))
    &&& known.contains_key(r.name@)
    &&& r.localized_name@ == known[r.name@]
    &&& r.kind == ReleaseKind::Milestone
    &&& r.url@ == m.html_url@
    &&& publish_time_fits(m.created_at@, r.date_time@)
    &&& r.closed == eq_ignore_ascii_case_spec(m.state@, "closed"@)
}

impl Converter {
    /// A converter for the given `(name, localized name)` pairs; a later pair
    /// for the same name replaces an earlier one.
    pub fn new(known_modules: Vec<(String, String)>) -> (c: Converter)
        ensures
            c@ == pairs_map(pair_views(known_modules@)),
    {
        Converter { known_modules }
    }

    /// The localized name of a known module.
    pub fn localized_name(&self, name: &str) -> (r: Option<String>)
        ensures
            match r {
                Some(l) => self@.contains_key(name@) && l@ == self@[name@],
                None => !self@.contains_key(name@),
            },
    {
        let ghost s = pair_views(self.known_modules@);
        let mut i: usize = self.known_modules.len();
        while i > 0
            invariant
                s == pair_views(self.known_modules@),
                i <= self.known_modules@.len(),
                forall|j: int| i <= j < s.len() ==> (#[trigger] s[j]).0 != name@,
            decreases i,
        {
            i = i - 1;
            let entry = &self.known_modules[i];
            if str_equal(entry.0.as_str(), name) {
                proof {
                    lemma_pairs_map_later_keys(s, name@, i + 1);
                    assert(s.take(i + 1).drop_last() =~= s.take(i as int));
                    assert(s.take(i + 1).last() == s[i as int]);
                }
                return Some(entry.1.clone());
            }
            assert(s[i as int].0 != name@);
        }
        proof {
            lemma_pairs_map_later_keys(s, name@, 0);
            assert(s.take(0) =~= Seq::<(Seq<char>, Seq<char>)>::empty());
        }
        None
    }

    /// The release a GitHub release stands for; `None` when its tag does not
    /// parse or names an unknown module.
    pub fn convert_release(&self, ghr: &GitHubRelease) -> (r: Option<Release>)
        ensures
            r.is_some() == known_tag_module(self@, ghr.tag_name@),
            r matches Some(rel) ==> converts_release(self@, *ghr, rel),
    {
        let (module, version) = parse_tag(ghr.tag_name.as_str())?;
        let localized_name = self.localized_name(module.as_str())?;
        let kind = match version {
            Version::Release { .. } => ReleaseKind::Production,
            Version::Candidate { .. } => ReleaseKind::Candidate,
        };
        Some(
            Release {
                name: module,
                localized_name,
                kind,
                version,
                url: ghr.html_url.clone(),
                date_time: format_publish_time(ghr.created_at.as_str()),
                closed: false,
            },
        )
    }

    /// The release a GitHub milestone stands for; `None` when its title does
    /// not parse or names an unknown module.
    pub fn convert_milestone(&self, m: &GitHubMilestone) -> (r: Option<Release>)
        ensures
            r.is_some() == known_tag_module(self@, m.title@),
            r matches Some(rel) ==> converts_milestone(self@, *m, rel),
    {
        let (module, version) = parse_tag(m.title.as_str())?;
        let localized_name = self.localized_name(module.as_str())?;
        Some(
            Release {
                name: module,
                localized_name,
                kind: ReleaseKind::Milestone,
                version,
                url: m.html_url.clone(),
                date_time: format_publish_time(m.created_at.as_str()),
                closed: eq_ignore_ascii_case(m.state.as_str(), "closed"),
            },
        )
    }
}

} // verus!
