//! The logic of the release listings: query flags, the newest release of
//! every module, and one module's releases newest first.
use vstd::prelude::*;

use crate::domain::release::{
    release_lt, version_equiv, version_lt, ModuleRelease, Release, Version,
};
use crate::persistence::Include;
use crate::routes::dto::releases::{release_row_of, ReleaseRow};
use crate::routes::negotiate::{format_for, opt_text, response_format, ResponseFormat};
use crate::routes::render::{
    join_lines, module_release_csv_rows, module_release_html_rows, module_releases_csv,
    module_releases_table_html, release_csv_rows, release_html_rows, releases_csv,
    releases_table_html, table_text,
};
use crate::text::{
    eq_ignore_ascii_case, eq_ignore_ascii_case_spec, lemma_seq_lt_irreflexive,
    lemma_seq_lt_total, lemma_seq_lt_transitive, seq_lt, str_equal, str_less,
};

verus! {

/// A query flag is on exactly when it is given as `true`, in any letter
/// case.
pub open spec fn flag_on(s: Option<Seq<char>>) -> bool {
    match s {
        Some(v) => eq_ignore_ascii_case_spec(v, "true"@),
        None => false,
    }
}

/// Reads a query flag: `true` in any letter case is on, anything else or
/// nothing is off.
pub fn to_boolean(s: Option<&str>) -> (r: bool)
    ensures
        r == flag_on(
            match s {
                Some(v) => Some(v@),
                None => None,
            },
        ),
{
    match s {
        Some(v) => eq_ignore_ascii_case(v, "true"),
        None => false,
    }
}

/// Which records a listing includes: candidates when `rc` is on, milestones
/// when `ms` is on.
pub fn releases_query_include(use_rc: bool, use_ms: bool) -> (r: Include)
    ensures
        r.candidates == use_rc,
        r.milestones == use_ms,
{
    Include { candidates: use_rc, milestones: use_ms }
}

/// `all[k]` is the newest release of its module, and the first one in `all`
/// among the newest (a later release replaces the kept one only when it is
/// strictly newer).
pub open spec fn is_first_newest(all: Seq<Release>, k: int) -> bool {
    &&& 0 <= k < all.len()
    &&& forall|j: int|
        0 <= j < all.len() && (#[trigger] all[j]).name@ == all[k].name@ ==> !release_lt(
            all[k],
            all[j],
        )
    &&& forall|j: int|
        0 <= j < k && (#[trigger] all[j]).name@ == all[k].name@ ==> release_lt(all[j], all[k])
}

/// `out` lists the newest release of every module of `all`, one per module,
/// ordered by module name.
pub open spec fn is_latest_per_module(all: Seq<Release>, out: Seq<Release>) -> bool {
    &&& names_ascending(out)
    &&& all_first_newest(all, out)
    &&& every_module_listed(all, out)
}

/// The module names of `out` ascend strictly.
pub open spec fn names_ascending(out: Seq<Release>) -> bool {
    forall|i: int, j: int|
        0 <= i < j < out.len() ==> seq_lt(#[trigger] out[i].name@, #[trigger] out[j].name@)
}

/// The position in `all` of the first newest release of the module `name`.
pub open spec fn first_newest_of(all: Seq<Release>, name: Seq<char>) -> int {
    choose|k: int| is_first_newest(all, k) && all[k].name@ == name
}

/// Every release of `out` is the first newest one of its module in `all`.
pub open spec fn all_first_newest(all: Seq<Release>, out: Seq<Release>) -> bool {
    forall|i: int|
        0 <= i < out.len() ==> {
            &&& is_first_newest(all, first_newest_of(all, #[trigger] out[i].name@))
            &&& all[first_newest_of(all, out[i].name@)] == out[i]
        }
}

/// A module has one first newest release.
pub proof fn lemma_first_newest_unique(all: Seq<Release>, k1: int, k2: int)
    requires
        is_first_newest(all, k1),
        is_first_newest(all, k2),
        all[k1].name@ == all[k2].name@,
    ensures
        k1 == k2,
{
    if k1 < k2 {
        assert(release_lt(all[k1], all[k2]));
    } else if k2 < k1 {
        assert(release_lt(all[k2], all[k1]));
    }
}

/// Every module of `all` has a release in `out`.
pub open spec fn every_module_listed(all: Seq<Release>, out: Seq<Release>) -> bool {
    forall|k: int|
        0 <= k < all.len() ==> exists|i: int|
            0 <= i < out.len() && (#[trigger] out[i]).name@ == (#[trigger] all[k]).name@
}

proof fn lemma_all_first_newest(all: Seq<Release>, out: Seq<Release>, idx: Seq<int>)
    requires
        idx.len() == out.len(),
        forall|i: int|
            0 <= i < idx.len() ==> {
                &&& 0 <= #[trigger] idx[i] < all.len()
                &&& is_first_newest(all, idx[i])
                &&& all[idx[i]] == out[i]
            },
    ensures
        all_first_newest(all, out),
{
    assert forall|i: int| 0 <= i < out.len() implies {
        &&& is_first_newest(all, first_newest_of(all, #[trigger] out[i].name@))
        &&& all[first_newest_of(all, out[i].name@)] == out[i]
    } by {
        let k = idx[i];
        assert(is_first_newest(all, k) && all[k].name@ == out[i].name@);
        let k2 = first_newest_of(all, out[i].name@);
        lemma_first_newest_unique(all, k, k2);
    }
}

/// The newest release of every module, ordered by module name; among equally
/// new releases of a module the first one listed is kept.
pub fn latest_per_module(all: &Vec<Release>) -> (out: Vec<Release>)
    ensures
        is_latest_per_module(all@, out@),
{
    let mut out: Vec<Release> = Vec::new();
    let ghost mut idx: Seq<int> = Seq::empty();
    let mut n: usize = 0;
    while n < all.len()
        invariant
            n <= all@.len(),
            idx.len() == out@.len(),
            forall|i: int, j: int|
                0 <= i < j < out@.len() ==> seq_lt(#[trigger] out@[i].name@, #[trigger] out@[j].name@),
            forall|i: int|
                0 <= i < out@.len() ==> {
                    &&& 0 <= #[trigger] idx[i] < n
                    &&& out@[i] == all@[idx[i]]
                    &&& is_first_newest(all@.take(n as int), idx[i])
                },
            forall|k: int|
                0 <= k < n ==> exists|i: int|
                    0 <= i < out@.len() && (#[trigger] out@[i]).name@ == (#[trigger] all@[k]).name@,
        decreases all@.len() - n,
    {
        let r = &all[n];
        let ghost pre = all@.take(n as int);
        let ghost post = all@.take(n + 1);
        assert(post =~= pre.push(*r));
        let mut pos: usize = 0;
        while pos < out.len() && str_less(out[pos].name.as_str(), r.name.as_str())
            invariant
                pos <= out@.len(),
                forall|i: int| 0 <= i < pos ==> seq_lt(#[trigger] out@[i].name@, r.name@),
            decreases out@.len() - pos,
        {
            pos = pos + 1;
        }
        if pos < out.len() && str_equal(out[pos].name.as_str(), r.name.as_str()) {
            let ghost b = idx[pos as int];
            let ghost old_out = out@;
            if r.is_newer_than(&out[pos]) {
                out.set(pos, r.duplicate());
                proof {
                    idx = idx.update(pos as int, n as int);
                    assert forall|j: int|
                        0 <= j < post.len() && (#[trigger] post[j]).name@ == post[n as int].name@
                        implies !release_lt(post[n as int], post[j]) by {
                        if j < n {
                            assert(pre[j] == post[j]);
                            assert(!release_lt(pre[b], pre[j]));
                        }
                    }
                    assert forall|j: int|
                        0 <= j < n && (#[trigger] post[j]).name@ == post[n as int].name@
                        implies release_lt(post[j], post[n as int]) by {
                        assert(pre[j] == post[j]);
                        assert(!release_lt(pre[b], pre[j]));
                    }
                    assert(is_first_newest(post, n as int));
                }
            } else {
                proof {
                    assert(is_first_newest(post, b)) by {
                        assert forall|j: int|
                            0 <= j < post.len() && (#[trigger] post[j]).name@ == post[b].name@
                            implies !release_lt(post[b], post[j]) by {
                            if j < n {
                                assert(pre[j] == post[j]);
                            }
                        }
                        assert forall|j: int|
                            0 <= j < b && (#[trigger] post[j]).name@ == post[b].name@
                            implies release_lt(post[j], post[b]) by {
                            assert(pre[j] == post[j]);
                        }
                    }
                }
            }
            proof {
                assert forall|i: int| 0 <= i < out@.len() implies {
                    &&& 0 <= #[trigger] idx[i] < n + 1
                    &&& out@[i] == all@[idx[i]]
                    &&& is_first_newest(all@.take(n + 1), idx[i])
                } by {
                    if i != pos {
                        let k = idx[i];
                        assert(is_first_newest(pre, k));
                        assert(out@[i].name@ != r.name@) by {
                            if i < pos {
                                lemma_seq_lt_irreflexive(r.name@);
                            } else {
                                lemma_seq_lt_irreflexive(r.name@);
                            }
                        }
                        assert(pre[k] == post[k]);
                        assert forall|j: int|
                            0 <= j < post.len() && (#[trigger] post[j]).name@ == post[k].name@
                            implies !release_lt(post[k], post[j]) by {
                            if j < n {
                                assert(pre[j] == post[j]);
                            }
                        }
                        assert forall|j: int|
                            0 <= j < k && (#[trigger] post[j]).name@ == post[k].name@
                            implies release_lt(post[j], post[k]) by {
                            assert(pre[j] == post[j]);
                        }
                    }
                }
                assert forall|k: int| 0 <= k < n + 1 implies exists|i: int|
                    0 <= i < out@.len() && (#[trigger] out@[i]).name@ == (
                    #[trigger] all@[k]).name@ by {
                    assert(forall|i: int| 0 <= i < out@.len() ==> out@[i].name@ == old_out[i].name@);
                    if k == n {
                        assert(out@[pos as int].name@ == all@[k].name@);
                    } else {
                        let i0 = choose|i: int|
                            0 <= i < old_out.len() && (#[trigger] old_out[i]).name@ == (
                            #[trigger] all@[k]).name@;
                        assert(out@[i0].name@ == all@[k].name@);
                    }
                }
            }
        } else {
            let ghost old_out = out@;
            proof {
                if pos < out@.len() {
                    lemma_seq_lt_total(out@[pos as int].name@, r.name@);
                }
                // the name of r is not listed yet
                assert forall|i: int| 0 <= i < old_out.len() implies (#[trigger] old_out[i]).name@
                    != r.name@ && (i >= pos ==> seq_lt(r.name@, old_out[i].name@)) by {
                    if i < pos {
                        lemma_seq_lt_irreflexive(r.name@);
                    } else if i > pos {
                        lemma_seq_lt_transitive(r.name@, old_out[pos as int].name@, old_out[i].name@);
                        lemma_seq_lt_irreflexive(r.name@);
                    } else {
                        lemma_seq_lt_irreflexive(r.name@);
                    }
                }
            }
            out.insert(pos, r.duplicate());
            proof {
                idx = idx.insert(pos as int, n as int);
                assert forall|i: int, j: int|
                    0 <= i < j < out@.len() implies seq_lt(
                    #[trigger] out@[i].name@,
                    #[trigger] out@[j].name@,
                ) by {
                    if i < pos && j == pos {
                    } else if i < pos && j > pos {
                        assert(out@[j] == old_out[j - 1]);
                        lemma_seq_lt_transitive(out@[i].name@, r.name@, out@[j].name@);
                    } else if i == pos {
                        assert(out@[j] == old_out[j - 1]);
                    } else if i > pos {
                        assert(out@[i] == old_out[i - 1]);
                        assert(out@[j] == old_out[j - 1]);
                    }
                }
                // no earlier release has this name
                assert forall|j: int|
                    0 <= j < n implies (#[trigger] post[j]).name@ != r.name@ by {
                    assert(post[j] == all@[j]);
                    let i0 = choose|i: int|
                        0 <= i < old_out.len() && (#[trigger] old_out[i]).name@ == (
                        #[trigger] all@[j]).name@;
                    assert(old_out[i0].name@ != r.name@);
                }
                assert(is_first_newest(post, n as int)) by {
                    assert forall|j: int|
                        0 <= j < post.len() && (#[trigger] post[j]).name@ == post[n as int].name@
                        implies !release_lt(post[n as int], post[j]) by {
                        if j < n {
                            assert(post[j].name@ != r.name@);
                        }
                    }
                }
                assert forall|i: int| 0 <= i < out@.len() implies {
                    &&& 0 <= #[trigger] idx[i] < n + 1
                    &&& out@[i] == all@[idx[i]]
                    &&& is_first_newest(all@.take(n + 1), idx[i])
                } by {
                    if i != pos {
                        let io = if i < pos {
                            i
                        } else {
                            i - 1
                        };
                        assert(out@[i] == old_out[io]);
                        let k = idx[i];
                        assert(is_first_newest(pre, k));
                        assert(pre[k] == post[k]);
                        assert(old_out[io].name@ != r.name@);
                        assert forall|j: int|
                            0 <= j < post.len() && (#[trigger] post[j]).name@ == post[k].name@
                            implies !release_lt(post[k], post[j]) by {
                            if j < n {
                                assert(pre[j] == post[j]);
                            }
                        }
                        assert forall|j: int|
                            0 <= j < k && (#[trigger] post[j]).name@ == post[k].name@
                            implies release_lt(post[j], post[k]) by {
                            assert(pre[j] == post[j]);
                        }
                    }
                }
                assert forall|k: int| 0 <= k < n + 1 implies exists|i: int|
                    0 <= i < out@.len() && (#[trigger] out@[i]).name@ == (
                    #[trigger] all@[k]).name@ by {
                    if k == n {
                        assert(out@[pos as int].name@ == all@[k].name@);
                    } else {
                        let i0 = choose|i: int|
                            0 <= i < old_out.len() && (#[trigger] old_out[i]).name@ == (
                            #[trigger] all@[k]).name@;
                        if i0 < pos {
                            assert(out@[i0] == old_out[i0]);
                            assert(out@[i0].name@ == all@[k].name@);
                        } else {
                            assert(out@[i0 + 1] == old_out[i0]);
                            assert(out@[i0 + 1].name@ == all@[k].name@);
                        }
                    }
                }
            }
        }
        n = n + 1;
    }
    proof {
        assert(all@.take(n as int) =~= all@);
        assert(forall|i: int, j: int|
            0 <= i < j < out@.len() ==> seq_lt(#[trigger] out@[i].name@, #[trigger] out@[j].name@));
        assert(forall|k: int|
            0 <= k < all@.len() ==> exists|i: int|
                0 <= i < out@.len() && (#[trigger] out@[i]).name@ == (#[trigger] all@[k]).name@);
        assert(names_ascending(out@));
        assert forall|i: int| 0 <= i < idx.len() implies {
            &&& 0 <= #[trigger] idx[i] < all@.len()
            &&& is_first_newest(all@, idx[i])
            &&& all@[idx[i]] == out@[i]
        } by {
            assert(is_first_newest(all@.take(n as int), idx[i]));
        }
        lemma_all_first_newest(all@, out@, idx);
        assert(every_module_listed(all@, out@)) by {
            assert forall|k: int| 0 <= k < all@.len() implies exists|i: int|
                0 <= i < out@.len() && (#[trigger] out@[i]).name@ == (#[trigger] all@[k]).name@ by {
                let i0 = choose|i: int|
                0 <= i < out@.len() && (#[trigger] out@[i]).name@ == (#[trigger] all@[k]).name@;
                assert(0 <= i0 < out@.len() && out@[i0].name@ == all@[k].name@);
            }
        }
    }
    out
}

/// The latest-releases listing keeps, for every module, a release whose
/// version no release of that module outdoes.
pub proof fn law_latest_keeps_newest_version(all: Seq<Release>, out: Seq<Release>)
    requires
        is_latest_per_module(all, out),
    ensures
        forall|i: int, j: int|
            0 <= i < out.len() && 0 <= j < all.len() && (#[trigger] all[j]).name@ == (
            #[trigger] out[i]).name@ ==> !version_lt(out[i].version, all[j].version),
{
    assert forall|i: int, j: int|
        0 <= i < out.len() && 0 <= j < all.len() && (#[trigger] all[j]).name@ == (
        #[trigger] out[i]).name@ implies !version_lt(out[i].version, all[j].version) by {
        let k = first_newest_of(all, out[i].name@);
        assert(is_first_newest(all, k));
        assert(all[k] == out[i]);
        assert(!release_lt(all[k], all[j]));
    }
}

/// `out` is `input` reordered by `p` (`out[i] == input[p[i]]`), newest
/// version first, releases of equal version keeping their order.
pub open spec fn is_stable_newest_first(input: Seq<Release>, out: Seq<Release>, p: Seq<int>) -> bool {
    &&& p.len() == input.len()
    &&& out.len() == input.len()
    &&& forall|i: int| 0 <= i < p.len() ==> 0 <= #[trigger] p[i] < input.len() && out[i] == input[p[i]]
    &&& forall|i: int, j: int| 0 <= i < j < p.len() ==> #[trigger] p[i] != #[trigger] p[j]
    &&& forall|i: int, j: int|
        0 <= i < j < out.len() ==> !version_lt(#[trigger] out[i].version, #[trigger] out[j].version)
    &&& forall|i: int, j: int|
        0 <= i < j < out.len() && version_equiv(#[trigger] out[i].version, #[trigger] out[j].version)
            ==> p[i] < p[j]
}

/// `out` is `input` sorted newest version first by a stable sort.
pub open spec fn is_sorted_newest_first(input: Seq<Release>, out: Seq<Release>) -> bool {
    exists|p: Seq<int>| is_stable_newest_first(input, out, p)
}

fn older_than(a: &Version, b: &Version) -> (r: bool)
    ensures
        r == version_lt(*a, *b),
{
    let p = a.parts();
    let q = b.parts();
    p.0 < q.0 || (p.0 == q.0 && p.1 < q.1) || (p.0 == q.0 && p.1 == q.1 && p.2 < q.2) || (p.0
        == q.0 && p.1 == q.1 && p.2 == q.2 && p.3 < q.3)
}

/// The releases sorted newest version first; releases of equal version keep
/// their order (a stable sort).
pub fn sort_newest_first(input: &Vec<Release>) -> (out: Vec<Release>)
    ensures
        is_sorted_newest_first(input@, out@),
{
    let mut out: Vec<Release> = Vec::new();
    let ghost mut p: Seq<int> = Seq::empty();
    let mut n: usize = 0;
    while n < input.len()
        invariant
            n <= input@.len(),
            p.len() == n,
            out@.len() == n,
            forall|i: int| 0 <= i < p.len() ==> 0 <= #[trigger] p[i] < n && out@[i] == input@[p[i]],
            forall|i: int, j: int| 0 <= i < j < p.len() ==> #[trigger] p[i] != #[trigger] p[j],
            forall|i: int, j: int|
                0 <= i < j < out@.len() ==> !version_lt(
                    #[trigger] out@[i].version,
                    #[trigger] out@[j].version,
                ),
            forall|i: int, j: int|
                0 <= i < j < out@.len() && version_equiv(
                    #[trigger] out@[i].version,
                    #[trigger] out@[j].version,
                ) ==> p[i] < p[j],
        decreases input@.len() - n,
    {
        let r = &input[n];
        let mut pos: usize = 0;
        while pos < out.len() && !older_than(&out[pos].version, &r.version)
            invariant
                pos <= out@.len(),
                forall|i: int| 0 <= i < pos ==> !version_lt(#[trigger] out@[i].version, r.version),
            decreases out@.len() - pos,
        {
            pos = pos + 1;
        }
        let ghost old_out = out@;
        let ghost old_p = p;
        out.insert(pos, r.duplicate());
        proof {
            p = p.insert(pos as int, n as int);
            // everything from pos on in the old list is older than r
            assert forall|i: int| pos <= i < old_out.len() implies version_lt(
                #[trigger] old_out[i].version,
                r.version,
            ) by {
                if i > pos {
                    assert(!version_lt(old_out[pos as int].version, old_out[i].version));
                }
            }
            assert forall|i: int| 0 <= i < p.len() implies 0 <= #[trigger] p[i] < n + 1
                && out@[i] == input@[p[i]] by {
                if i < pos {
                    assert(p[i] == old_p[i]);
                } else if i > pos {
                    assert(p[i] == old_p[i - 1]);
                }
            }
            assert forall|i: int, j: int| 0 <= i < j < p.len() implies #[trigger] p[i]
                != #[trigger] p[j] by {
                if i < pos && j > pos {
                    assert(p[j] == old_p[j - 1]);
                } else if i > pos {
                    assert(p[i] == old_p[i - 1]);
                    assert(p[j] == old_p[j - 1]);
                } else if i == pos {
                    assert(p[j] == old_p[j - 1]);
                }
            }
            assert forall|i: int, j: int| 0 <= i < j < out@.len() implies !version_lt(
                #[trigger] out@[i].version,
                #[trigger] out@[j].version,
            ) by {
                if i < pos && j > pos {
                    assert(out@[j] == old_out[j - 1]);
                } else if i > pos {
                    assert(out@[i] == old_out[i - 1]);
                    assert(out@[j] == old_out[j - 1]);
                } else if i == pos {
                    assert(out@[j] == old_out[j - 1]);
                }
            }
            assert forall|i: int, j: int|
                0 <= i < j < out@.len() && version_equiv(
                    #[trigger] out@[i].version,
                    #[trigger] out@[j].version,
                ) implies p[i] < p[j] by {
                if i < pos && j > pos {
                    assert(out@[j] == old_out[j - 1]);
                    assert(p[j] == old_p[j - 1]);
                } else if i > pos {
                    assert(out@[i] == old_out[i - 1]);
                    assert(out@[j] == old_out[j - 1]);
                    assert(p[i] == old_p[i - 1]);
                    assert(p[j] == old_p[j - 1]);
                } else if i == pos {
                    assert(out@[j] == old_out[j - 1]);
                } else {
                    assert(p[i] == old_p[i]);
                }
            }
        }
        n = n + 1;
    }
    assert(is_stable_newest_first(input@, out@, p));
    out
}

/// The version, link and date of each release, in the same order.
pub open spec fn module_views_of(rs: Seq<Release>) -> Seq<ModuleRelease> {
    rs.map_values(|r: Release| ModuleRelease { version: r.version, url: r.url, date_time: r.date_time })
}

/// The version, link and date of each release, in the same order.
pub fn releases_as_module_views(releases: &[Release]) -> (out: Vec<ModuleRelease>)
    ensures
        out@ == module_views_of(releases@),
{
    let mut out: Vec<ModuleRelease> = Vec::new();
    let mut i: usize = 0;
    while i < releases.len()
        invariant
            i <= releases@.len(),
            out@.len() == i,
            forall|k: int|
                0 <= k < i ==> {
                    &&& (#[trigger] out@[k]).version == releases@[k].version
                    &&& out@[k].url == releases@[k].url
                    &&& out@[k].date_time == releases@[k].date_time
                },
        decreases releases@.len() - i,
    {
        let r = &releases[i];
        out.push(
            ModuleRelease {
                version: r.version,
                url: r.url.clone(),
                date_time: r.date_time.clone(),
            },
        );
        i = i + 1;
    }
    assert(out@ =~= module_views_of(releases@));
    out
}

/// The answer to a release listing, before it is written out.
#[derive(Debug, Clone)]
pub enum ReleasesBody {
    Html(String),
    Json(Vec<ReleaseRow>),
    Csv(String),
}

/// The API rows of the releases, in order.
pub open spec fn rows_of(rs: Seq<Release>) -> Seq<ReleaseRow> {
    rs.map_values(|r: Release| release_row_of(r))
}

/// The API rows of the releases, in order.
pub fn release_rows(releases: &[Release]) -> (rows: Vec<ReleaseRow>)
    ensures
        rows@ == rows_of(releases@),
{
    let mut rows: Vec<ReleaseRow> = Vec::new();
    let mut i: usize = 0;
    while i < releases.len()
        invariant
            i <= releases@.len(),
            rows@ == rows_of(releases@.take(i as int)),
        decreases releases@.len() - i,
    {
        let row = ReleaseRow::from(&releases[i]);
        rows.push(row);
        assert(releases@.take(i + 1) =~= releases@.take(i as int).push(releases@[i as int]));
        i = i + 1;
    }
    assert(releases@.take(i as int) =~= releases@);
    rows
}

/// `b` answers the latest-releases listing of `latest` in `format`; the HTML
/// links carry the listing's address and flags.
pub open spec fn latest_body_is(
    b: ReleasesBody,
    latest: Seq<Release>,
    format: ResponseFormat,
    base_url: Seq<char>,
    use_rc: bool,
    use_ms: bool,
) -> bool {
    match format {
        ResponseFormat::Html => b matches ReleasesBody::Html(s) && s@ == table_text(
            join_lines(release_html_rows(latest, base_url, use_rc, use_ms)),
        ),
        ResponseFormat::Json => b matches ReleasesBody::Json(rows) && rows@ == rows_of(latest),
        ResponseFormat::Csv => b matches ReleasesBody::Csv(s) && s@ == join_lines(
            release_csv_rows(latest),
        ) + seq!['\n'],
    }
}

/// The latest-releases listing: the newest release of every module, ordered
/// by module name, in the representation the `Accept` header asks for.
pub fn latest_listing(
    all: &Vec<Release>,
    accept: Option<&str>,
    base_url: &str,
    use_rc: bool,
    use_ms: bool,
) -> (r: (Vec<Release>, ReleasesBody))
    ensures
        is_latest_per_module(all@, r.0@),
        latest_body_is(r.1, r.0@, format_for(opt_text(accept)), base_url@, use_rc, use_ms),
{
    let latest = latest_per_module(all);
    let body = match response_format(accept) {
        ResponseFormat::Html => ReleasesBody::Html(
            releases_table_html(base_url, use_rc, use_ms, latest.as_slice()),
        ),
        ResponseFormat::Json => ReleasesBody::Json(release_rows(latest.as_slice())),
        ResponseFormat::Csv => ReleasesBody::Csv(releases_csv(latest.as_slice())),
    };
    (latest, body)
}

/// `b` answers one module's listing of `sorted` in `format`.
pub open spec fn module_body_is(b: ReleasesBody, sorted: Seq<Release>, format: ResponseFormat) -> bool {
    match format {
        ResponseFormat::Html => b matches ReleasesBody::Html(s) && s@ == table_text(
            join_lines(module_release_html_rows(module_views_of(sorted))),
        ),
        ResponseFormat::Json => b matches ReleasesBody::Json(rows) && rows@ == rows_of(sorted),
        ResponseFormat::Csv => b matches ReleasesBody::Csv(s) && s@ == join_lines(
            module_release_csv_rows(module_views_of(sorted)),
        ) + seq!['\n'],
    }
}

/// One module's listing: its releases newest version first, in the
/// representation the `Accept` header asks for.
pub fn module_listing(all: &Vec<Release>, accept: Option<&str>) -> (r: (Vec<Release>, ReleasesBody))
    ensures
        is_sorted_newest_first(all@, r.0@),
        module_body_is(r.1, r.0@, format_for(opt_text(accept))),
{
    let sorted = sort_newest_first(all);
    let body = match response_format(accept) {
        ResponseFormat::Html => {
            let views = releases_as_module_views(sorted.as_slice());
            ReleasesBody::Html(module_releases_table_html(views.as_slice()))
        },
        ResponseFormat::Json => ReleasesBody::Json(release_rows(sorted.as_slice())),
        ResponseFormat::Csv => {
            let views = releases_as_module_views(sorted.as_slice());
            ReleasesBody::Csv(module_releases_csv(views.as_slice()))
        },
    };
    (sorted, body)
}

} // verus!
