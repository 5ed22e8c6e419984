use std::cmp::Ordering;

use sls_releases::clients::github::parse::parse_tag;
use sls_releases::domain::release::{Release, ReleaseKind, Version};
use sls_releases::routes::dto::releases::ReleaseRow;
use sls_releases::routes::negotiate::{response_format, ResponseFormat};
use sls_releases::routes::releases::{
    latest_listing, latest_per_module, module_listing, releases_query_include,
    sort_newest_first, ReleasesBody,
};

fn rel(name: &str, kind: ReleaseKind, version: Version, url: &str) -> Release {
    Release {
        name: name.to_string(),
        localized_name: format!("{name} (loc)"),
        kind,
        version,
        url: url.to_string(),
        date_time: "d".to_string(),
        closed: false,
    }
}

fn release(major: i32, minor: i32, patch: i32) -> Version {
    Version::Release { major, minor, patch }
}

fn candidate(major: i32, minor: i32, patch: i32, number: i32) -> Version {
    Version::Candidate { major, minor, patch, number }
}

#[test]
fn parse_tag_takes_the_longest_module_name() {
    let (m, v) = parse_tag("sub-v2-v1.2.3").unwrap();
    assert_eq!(m, "sub-v2");
    assert_eq!(v, release(1, 2, 3));
}

#[test]
fn parse_tag_dots_stand_for_any_character() {
    let (m, v) = parse_tag("m-v1x2_3").unwrap();
    assert_eq!(m, "m");
    assert_eq!(v, release(1, 2, 3));
}

#[test]
fn parse_tag_rejects_malformed_tags() {
    assert_eq!(parse_tag("m-v1.2"), None);
    assert_eq!(parse_tag("m-v1.2.3-RC"), None);
    assert_eq!(parse_tag("m-v1.2.3-rc4"), None);
    assert_eq!(parse_tag("m-1.2.3"), None);
    assert_eq!(parse_tag("line\nbreak-v1.2.3"), None);
    assert_eq!(parse_tag(""), None);
}

#[test]
fn parse_tag_rejects_numbers_beyond_i32() {
    assert_eq!(parse_tag("m-v2147483648.0.0"), None);
    let (_, v) = parse_tag("m-v2147483647.0.0").unwrap();
    assert_eq!(v, release(2147483647, 0, 0));
}

#[test]
fn parse_tag_unicode_digits_match_but_do_not_parse() {
    // ARABIC-INDIC DIGIT THREE is a `\d` digit for the pattern, but not an
    // ASCII digit for the number parser.
    assert_eq!(parse_tag("m-v1.2.\u{0663}"), None);
    // A leading zero is read as part of the number.
    let (_, v) = parse_tag("m-v01.2.3-RC007").unwrap();
    assert_eq!(v, candidate(1, 2, 3, 7));
}

#[test]
fn parse_tag_round_trips_a_version_text() {
    for (module, v) in [
        ("accumulations", release(0, 10, 200)),
        ("a-b-c", candidate(3, 0, 1, 12)),
        ("x-v9.9.9", release(1, 2, 3)),
    ] {
        let tag = format!("{module}-v{}", v.to_text());
        let (m, back) = parse_tag(&tag).unwrap();
        assert_eq!(m, module);
        assert_eq!(back, v);
    }
}

#[test]
fn version_compare_orders_by_numbers_then_candidate() {
    assert_eq!(release(1, 2, 3).compare(&release(1, 2, 4)), Ordering::Less);
    assert_eq!(release(2, 0, 0).compare(&release(1, 9, 9)), Ordering::Greater);
    assert_eq!(candidate(1, 2, 3, 9).compare(&release(1, 2, 3)), Ordering::Less);
    assert_eq!(release(1, 2, 3).compare(&release(1, 2, 3)), Ordering::Equal);
    // a final release sorts with the candidate numbered i32::MAX
    assert_eq!(candidate(1, 2, 3, i32::MAX).compare(&release(1, 2, 3)), Ordering::Equal);
}

#[test]
fn release_ties_are_broken_by_kind() {
    let prod = rel("m", ReleaseKind::Production, release(1, 0, 0), "p");
    let ms = rel("m", ReleaseKind::Milestone, release(1, 0, 0), "ms");
    let newer_rc = rel("m", ReleaseKind::Candidate, candidate(1, 0, 1, 1), "rc");
    assert!(prod.is_newer_than(&ms));
    assert!(!ms.is_newer_than(&prod));
    assert!(newer_rc.is_newer_than(&prod));
    assert_eq!(prod.compare(&prod.duplicate()), Ordering::Equal);
}

#[test]
fn version_kind_and_parts() {
    assert_eq!(release(1, 2, 3).kind(), ReleaseKind::Production);
    assert_eq!(candidate(1, 2, 3, 4).kind(), ReleaseKind::Candidate);
    assert_eq!(release(1, 2, 3).parts(), (1, 2, 3, i32::MAX));
    assert_eq!(candidate(1, 2, 3, 4).parts(), (1, 2, 3, 4));
    assert_eq!(ReleaseKind::Production.rank(), 2);
    assert_eq!(ReleaseKind::Milestone.rank(), 1);
    assert_eq!(ReleaseKind::Candidate.rank(), 0);
    assert_eq!(candidate(-1, 0, 0, 2).to_text(), "-1.0.0-RC2");
}

#[test]
fn latest_per_module_keeps_the_newest_and_the_first_of_equals() {
    let all = vec![
        rel("b", ReleaseKind::Production, release(1, 0, 0), "b1"),
        rel("a", ReleaseKind::Candidate, candidate(2, 0, 0, 1), "a-rc"),
        rel("a", ReleaseKind::Production, release(1, 5, 0), "a15"),
        rel("b", ReleaseKind::Production, release(1, 0, 0), "b1-again"),
        rel("a", ReleaseKind::Production, release(1, 9, 9), "a199"),
    ];
    let latest = latest_per_module(&all);
    let got: Vec<(String, String)> =
        latest.iter().map(|r| (r.name.clone(), r.url.clone())).collect();
    assert_eq!(
        got,
        vec![
            ("a".to_string(), "a-rc".to_string()),
            ("b".to_string(), "b1".to_string()),
        ]
    );
    assert!(latest_per_module(&Vec::new()).is_empty());
}

#[test]
fn sort_newest_first_is_stable() {
    let all = vec![
        rel("m", ReleaseKind::Production, release(1, 0, 0), "first"),
        rel("m", ReleaseKind::Production, release(2, 0, 0), "two"),
        rel("m", ReleaseKind::Candidate, candidate(2, 0, 0, 3), "rc3"),
        rel("m", ReleaseKind::Milestone, release(1, 0, 0), "second"),
    ];
    let sorted = sort_newest_first(&all);
    let urls: Vec<&str> = sorted.iter().map(|r| r.url.as_str()).collect();
    assert_eq!(urls, vec!["two", "rc3", "first", "second"]);
}

#[test]
fn accept_header_picks_the_representation() {
    assert_eq!(response_format(None), ResponseFormat::Csv);
    assert_eq!(response_format(Some("text/plain")), ResponseFormat::Csv);
    assert_eq!(response_format(Some("text/html")), ResponseFormat::Html);
    assert_eq!(response_format(Some("application/json")), ResponseFormat::Json);
    assert_eq!(
        response_format(Some("application/json, text/html")),
        ResponseFormat::Html
    );
    // a substring match, as the service always did
    assert_eq!(response_format(Some("xhtmlx")), ResponseFormat::Html);
}

fn listing_input() -> Vec<Release> {
    vec![
        rel("b", ReleaseKind::Production, release(1, 0, 0), "ub"),
        rel("a", ReleaseKind::Production, release(1, 2, 3), "ua"),
        rel("a", ReleaseKind::Production, release(1, 1, 0), "ua-old"),
    ]
}

#[test]
fn latest_listing_as_csv() {
    let (latest, body) = latest_listing(&listing_input(), None, "/sls/releases", false, false);
    assert_eq!(latest.len(), 2);
    match body {
        ReleasesBody::Csv(s) => {
            assert_eq!(s, "a, a (loc), 1.2.3, ua\nb, b (loc), 1.0.0, ub\n");
        }
        _ => panic!("expected text"),
    }
    let (_, empty) = latest_listing(&Vec::new(), None, "/x", false, false);
    match empty {
        ReleasesBody::Csv(s) => assert_eq!(s, "\n"),
        _ => panic!("expected text"),
    }
}

#[test]
fn latest_listing_as_html_carries_the_flags() {
    let (_, body) = latest_listing(
        &listing_input(),
        Some("text/html"),
        "/sls/releases?rc=true",
        true,
        false,
    );
    match body {
        ReleasesBody::Html(s) => {
            assert!(s.starts_with("<table rules=\"all\"><tr>\n  <td><a href='/sls/releases?rc=true/a?rc=true&ms=false'>a</a></td>"));
            assert!(s.contains("<td><a href='ua'>1.2.3</a></td>\n</tr>\n<tr>"));
            assert!(s.ends_with("</tr></table>"));
        }
        _ => panic!("expected html"),
    }
}

#[test]
fn latest_listing_as_json_rows() {
    let (_, body) = latest_listing(&listing_input(), Some("application/json"), "/", false, false);
    match body {
        ReleasesBody::Json(rows) => {
            assert_eq!(rows.len(), 2);
            let ReleaseRow { name, localized_name, kind, version, url, date_time } = &rows[0];
            assert_eq!(name, "a");
            assert_eq!(localized_name, "a (loc)");
            assert_eq!(*kind, ReleaseKind::Production);
            assert_eq!(*version, release(1, 2, 3));
            assert_eq!(url, "ua");
            assert_eq!(date_time, "d");
        }
        _ => panic!("expected json"),
    }
}

#[test]
fn module_listing_orders_versions_descending() {
    let all = vec![
        rel("a", ReleaseKind::Production, release(1, 0, 0), "u100"),
        rel("a", ReleaseKind::Candidate, candidate(1, 1, 0, 2), "u110rc2"),
        rel("a", ReleaseKind::Production, release(1, 1, 0), "u110"),
    ];
    let (sorted, body) = module_listing(&all, None);
    assert_eq!(sorted.len(), 3);
    match body {
        ReleasesBody::Csv(s) => {
            assert_eq!(s, "1.1.0, d, u110\n1.1.0-RC2, d, u110rc2\n1.0.0, d, u100\n");
        }
        _ => panic!("expected text"),
    }
    let (_, html) = module_listing(&all, Some("text/html"));
    match html {
        ReleasesBody::Html(s) => {
            assert_eq!(
                s,
                "<table rules=\"all\"><tr>\n  <td><a href='u110'>1.1.0</a></td>\n  <td>d</td>\n</tr>\n<tr>\n  <td><a href='u110rc2'>1.1.0-RC2</a></td>\n  <td>d</td>\n</tr>\n<tr>\n  <td><a href='u100'>1.0.0</a></td>\n  <td>d</td>\n</tr></table>"
            );
        }
        _ => panic!("expected html"),
    }
    let (_, json) = module_listing(&all, Some("application/json"));
    match json {
        ReleasesBody::Json(rows) => {
            let urls: Vec<&str> = rows.iter().map(|r| r.url.as_str()).collect();
            assert_eq!(urls, vec!["u110", "u110rc2", "u100"]);
        }
        _ => panic!("expected json"),
    }
}

#[test]
fn query_flags_choose_what_is_listed() {
    let i = releases_query_include(true, false);
    assert!(i.candidates);
    assert!(!i.milestones);
    let i = releases_query_include(false, true);
    assert!(!i.candidates);
    assert!(i.milestones);
}

#[test]
fn release_text_names_module_and_version() {
    let r = rel("bonuses", ReleaseKind::Candidate, candidate(1, 2, 3, 4), "u");
    assert_eq!(r.to_text(), "bonuses (bonuses (loc)) 1.2.3-RC4");
}
