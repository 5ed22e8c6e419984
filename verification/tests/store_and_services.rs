use chrono::{FixedOffset, TimeZone, Utc};

use sls_releases::clients::github::client::{
    format_publish_time, Converter, GitHubMilestone, GitHubRelease,
};
use sls_releases::clients::github::paging::{
    bearer_authorization, milestones_page_url, normalize_base_url, page_status_error,
    releases_page_url, CollectPhase, FetchStep, ReleaseCollector,
};
use sls_releases::domain::job::{AnyJob, Job, JobStatus};
use sls_releases::domain::module::Module;
use sls_releases::domain::release::{Release, ReleaseKind, Version};
use sls_releases::jobs::{runner_step, NextJob, RunnerStep};
use sls_releases::persistence::{
    all_releases_query, claimed_job, from_status, job_result_from_row, modules_query,
    release_by_version_query, releases_by_name_query, releases_to_store, row_to_release,
    store_failure_status, stored_release, to_status, version_from_row, version_kind_db_str,
    version_parts, CreateReleaseDetail, DecodeError, Include, StoreFailure, StoredRelease,
};
use sls_releases::routes::dto::modules::Module as ModuleDto;
use sls_releases::routes::modules::{module_name_filter, modules_listing, ModulesBody};
use sls_releases::routes::transactions::{
    decode_long_11, decode_transaction_id, digit_index, invalid_transaction_message, lookup_transaction,
};
use sls_releases::routes::web::{asset_path, fallback_plan, file_headers, FallbackPlan};

fn converter() -> Converter {
    Converter::new(vec![
        ("bonuses".to_string(), "Бонусы".to_string()),
        ("gateway".to_string(), "Внешний API".to_string()),
        ("bonuses".to_string(), "Бонусы 2".to_string()),
    ])
}

#[test]
fn converter_knows_the_last_localized_name() {
    let c = converter();
    assert_eq!(c.localized_name("bonuses"), Some("Бонусы 2".to_string()));
    assert_eq!(c.localized_name("gateway"), Some("Внешний API".to_string()));
    assert_eq!(c.localized_name("coupons"), None);
}

#[test]
fn converter_converts_known_releases_only() {
    let c = converter();
    let ghr = GitHubRelease {
        tag_name: "gateway-v2.0.1-RC3".to_string(),
        html_url: "https://gh/r".to_string(),
        created_at: "not a date".to_string(),
    };
    let r = c.convert_release(&ghr).unwrap();
    assert_eq!(r.name, "gateway");
    assert_eq!(r.localized_name, "Внешний API");
    assert_eq!(r.kind, ReleaseKind::Candidate);
    assert_eq!(r.version, Version::Candidate { major: 2, minor: 0, patch: 1, number: 3 });
    assert_eq!(r.url, "https://gh/r");
    assert_eq!(r.date_time, "not a date");
    assert!(!r.closed);

    let unknown = GitHubRelease {
        tag_name: "coupons-v1.0.0".to_string(),
        html_url: "u".to_string(),
        created_at: "x".to_string(),
    };
    assert!(c.convert_release(&unknown).is_none());
    let bad = GitHubRelease {
        tag_name: "gateway-1.0.0".to_string(),
        html_url: "u".to_string(),
        created_at: "x".to_string(),
    };
    assert!(c.convert_release(&bad).is_none());
}

#[test]
fn converter_converts_milestones_with_their_state() {
    let c = converter();
    let m = GitHubMilestone {
        title: "bonuses-v1.2.0".to_string(),
        html_url: "https://gh/m".to_string(),
        created_at: "x".to_string(),
        state: "CLOSED".to_string(),
    };
    let r = c.convert_milestone(&m).unwrap();
    assert_eq!(r.kind, ReleaseKind::Milestone);
    assert!(r.closed);
    assert_eq!(r.localized_name, "Бонусы 2");
    let open = GitHubMilestone { state: "open".to_string(), ..m };
    assert!(!c.convert_milestone(&open).unwrap().closed);
}

#[test]
fn publish_time_of_an_rfc3339_date_is_rendered() {
    assert_eq!(format_publish_time("yesterday"), "yesterday");
    let shown = format_publish_time("2024-03-09T16:00:00Z");
    assert_ne!(shown, "2024-03-09T16:00:00Z");
    assert!(shown.contains(", 2024 at "), "{shown}");
    assert!(shown.ends_with("AM") || shown.ends_with("PM"), "{shown}");
}

#[test]
fn collector_pages_releases_then_milestones() {
    let c = converter();
    let mut col = ReleaseCollector::new();
    assert_eq!(col.next_step(), FetchStep::ReleasesPage(0));
    col.accept_releases_page(
        &c,
        &vec![
            GitHubRelease {
                tag_name: "bonuses-v1.0.0".to_string(),
                html_url: "r1".to_string(),
                created_at: "x".to_string(),
            },
            GitHubRelease {
                tag_name: "coupons-v1.0.0".to_string(),
                html_url: "r2".to_string(),
                created_at: "x".to_string(),
            },
        ],
    );
    assert_eq!(col.next_step(), FetchStep::ReleasesPage(1));
    col.accept_releases_page(&c, &Vec::new());
    assert_eq!(col.phase, CollectPhase::Milestones);
    assert_eq!(col.next_step(), FetchStep::MilestonesPage(0));
    col.accept_milestones_page(
        &c,
        &vec![GitHubMilestone {
            title: "gateway-v3.0.0".to_string(),
            html_url: "m1".to_string(),
            created_at: "x".to_string(),
            state: "open".to_string(),
        }],
    );
    assert_eq!(col.next_step(), FetchStep::MilestonesPage(1));
    col.accept_milestones_page(&c, &Vec::new());
    assert_eq!(col.next_step(), FetchStep::Finished);
    let urls: Vec<String> = col.into_releases().into_iter().map(|r| r.url).collect();
    assert_eq!(urls, vec!["r1".to_string(), "m1".to_string()]);
}

#[test]
fn github_request_parts() {
    assert_eq!(normalize_base_url("https://api.github.com///"), "https://api.github.com");
    assert_eq!(
        releases_page_url("https://api.github.com", 3),
        "https://api.github.com/repos/crystalservice/SET10-Loyalty/releases?per_page=100&page=3"
    );
    assert_eq!(
        milestones_page_url("http://h", 0),
        "http://h/repos/crystalservice/SET10-Loyalty/milestones?state=all&per_page=100&page=0"
    );
    assert_eq!(bearer_authorization("abc"), "Bearer abc");
    assert_eq!(page_status_error(200), None);
    assert_eq!(page_status_error(404), Some(404));
}

fn sample(kind: ReleaseKind, version: Version, closed: bool) -> Release {
    Release {
        name: "bonuses".to_string(),
        localized_name: "Бонусы".to_string(),
        kind,
        version,
        url: "u".to_string(),
        date_time: "d".to_string(),
        closed,
    }
}

#[test]
fn stored_release_reads_back() {
    for r in [
        sample(ReleaseKind::Production, Version::Release { major: 1, minor: 2, patch: 3 }, false),
        sample(
            ReleaseKind::Candidate,
            Version::Candidate { major: 1, minor: 2, patch: 3, number: 4 },
            false,
        ),
        sample(ReleaseKind::Milestone, Version::Release { major: 2, minor: 0, patch: 0 }, true),
    ] {
        let row = stored_release(&r);
        let back = row_to_release(&row, "Бонусы").unwrap();
        assert_eq!(back.name, r.name);
        assert_eq!(back.localized_name, r.localized_name);
        assert_eq!(back.kind, r.kind);
        assert_eq!(back.version, r.version);
        assert_eq!(back.url, r.url);
        assert_eq!(back.date_time, r.date_time);
        assert_eq!(back.closed, r.closed);
    }
}

#[test]
fn stored_row_columns() {
    let r = sample(ReleaseKind::Production, Version::Release { major: 1, minor: 2, patch: 3 }, true);
    let row = stored_release(&r);
    assert_eq!(row.version_kind, "production");
    assert_eq!((row.major, row.minor, row.patch, row.rc_number), (1, 2, 3, -1));
    // only a milestone keeps its closed flag
    assert!(!row.closed);
    assert_eq!(
        version_parts(&sample(
            ReleaseKind::Candidate,
            Version::Candidate { major: 1, minor: 0, patch: 0, number: 5 },
            false
        )),
        (ReleaseKind::Candidate, 1, 0, 0, Some(5))
    );
    assert_eq!(version_kind_db_str(ReleaseKind::Milestone), "milestone");
}

#[test]
fn releases_of_unknown_modules_are_not_stored() {
    let mut other = sample(ReleaseKind::Production, Version::Release { major: 1, minor: 0, patch: 0 }, false);
    other.name = "coupons".to_string();
    let rows = releases_to_store(
        &vec![
            other,
            sample(ReleaseKind::Production, Version::Release { major: 1, minor: 0, patch: 0 }, false),
        ],
        &vec!["bonuses".to_string()],
    );
    assert_eq!(rows.len(), 1);
    assert_eq!(rows[0].name, "bonuses");
}

#[test]
fn unreadable_rows_are_reported() {
    let row = StoredRelease {
        name: "m".to_string(),
        url: "u".to_string(),
        date_time: "d".to_string(),
        version_kind: "beta".to_string(),
        major: 1,
        minor: 0,
        patch: 0,
        rc_number: -1,
        closed: false,
    };
    match row_to_release(&row, "M") {
        Err(DecodeError::InvalidVersionKind(k)) => assert_eq!(k, "beta"),
        _ => panic!("expected an invalid kind"),
    }
    match version_from_row("candidate", 1, 0, 0, None) {
        Err(DecodeError::InvalidVersionKind(k)) => assert_eq!(k, "candidate without rc_number"),
        _ => panic!("expected a missing number"),
    }
    let legacy = StoredRelease { version_kind: "release".to_string(), closed: true, ..row };
    let back = row_to_release(&legacy, "M").unwrap();
    assert_eq!(back.kind, ReleaseKind::Production);
    assert!(!back.closed);
}

#[test]
fn release_queries_filter_by_the_flags() {
    let base = "SELECT r.name, m.localized_name, r.url, r.date_time, r.version_kind, r.major, r.minor, r.patch, r.rc_number, r.closed\n               FROM releases r\n               INNER JOIN modules m ON m.name = r.name\n               WHERE NOT r.closed\n            ";
    assert_eq!(
        all_releases_query(&Include { candidates: false, milestones: false }),
        format!("{base} AND r.version_kind != 'candidate' AND r.version_kind != 'milestone' ORDER BY r.name ASC")
    );
    assert_eq!(
        all_releases_query(&Include::all()),
        "SELECT r.name, m.localized_name, r.url, r.date_time, r.version_kind, r.major, r.minor, r.patch, r.rc_number, r.closed\n               FROM releases r\n               INNER JOIN modules m ON m.name = r.name\n             ORDER BY r.name ASC"
    );
    assert!(!all_releases_query(&Include::all()).contains("NOT r.closed"));
    assert_eq!(
        all_releases_query(&Include { candidates: true, milestones: false }),
        format!("{base} AND r.version_kind != 'milestone' ORDER BY r.name ASC")
    );
    let q = releases_by_name_query(&Include { candidates: true, milestones: false });
    assert!(q.contains("WHERE r.name = ?"));
    assert!(q.ends_with(
        " AND r.version_kind != 'milestone' ORDER BY r.major ASC, r.minor ASC, r.patch ASC, r.date_time ASC"
    ));
    assert_eq!(
        modules_query(true),
        "SELECT name, localized_name FROM modules WHERE name = ? ORDER BY name ASC"
    );
    assert_eq!(modules_query(false), "SELECT name, localized_name FROM modules ORDER BY name ASC");
    let (sql, params) =
        release_by_version_query(&Version::Candidate { major: 1, minor: 2, patch: 3, number: 4 });
    assert!(sql.contains("r.version_kind = 'candidate'"));
    assert!(sql.contains("AND r.rc_number = ?"));
    assert!(sql.contains("m.localized_name"));
    assert!(sql.contains("INNER JOIN modules m ON m.name = r.name"));
    assert_eq!(params, vec![1, 2, 3, 4]);
    let (sql, params) = release_by_version_query(&Version::Release { major: 5, minor: 6, patch: 7 });
    assert!(sql.contains("version_kind <> 'candidate'"));
    assert_eq!(params, vec![5, 6, 7]);
}

#[test]
fn job_status_texts_read_back() {
    for s in [JobStatus::Pending, JobStatus::Running, JobStatus::Succeeded, JobStatus::Failed] {
        assert_eq!(to_status(from_status(s)).unwrap(), s);
    }
    assert_eq!(from_status(JobStatus::Succeeded), "ok");
    match to_status("done") {
        Err(DecodeError::InvalidJobStatus(t)) => assert_eq!(t, "done"),
        _ => panic!("expected an invalid status"),
    }
    let j = job_result_from_row("j1".to_string(), "failed", Some("E".to_string()), None).unwrap();
    assert_eq!(j.id, "j1");
    assert_eq!(j.status, JobStatus::Failed);
    assert_eq!(j.error_code, Some("E".to_string()));
    assert!(job_result_from_row("j1".to_string(), "???", None, None).is_err());
}

#[test]
fn claimed_jobs_come_from_their_detail_table() {
    let create = claimed_job(
        "j1".to_string(),
        Some(CreateReleaseDetail {
            milestone: "bonuses-v1.0.0".to_string(),
            candidate: true,
            description: None,
        }),
        Some("ignored".to_string()),
    );
    match create {
        Some(Job::CreateRelease { id, milestone, candidate, description }) => {
            assert_eq!(id, "j1");
            assert_eq!(milestone, "bonuses-v1.0.0");
            assert!(candidate);
            assert_eq!(description, None);
        }
        _ => panic!("expected a creation"),
    }
    match claimed_job("j2".to_string(), None, Some("t".to_string())) {
        Some(Job::DeleteRelease { id, tag }) => {
            assert_eq!(id, "j2");
            assert_eq!(tag, "t");
        }
        _ => panic!("expected a deletion"),
    }
    assert!(claimed_job("j3".to_string(), None, None).is_none());
}

#[test]
fn runner_records_every_job_as_not_implemented() {
    let job = Job::DeleteRelease { id: "j9".to_string(), tag: "t".to_string() };
    assert_eq!(job.id(), "j9");
    match runner_step(NextJob::Claimed(job)) {
        RunnerStep::Record(r) => {
            assert_eq!(r.id, "j9");
            assert_eq!(r.status, JobStatus::Failed);
            assert_eq!(r.error_code.as_deref(), Some("NOT_IMPLEMENTED"));
            assert_eq!(r.error_detail.as_deref(), Some("Under construction"));
        }
        _ => panic!("expected a record"),
    }
    assert!(matches!(runner_step(NextJob::NoneWaiting), RunnerStep::Idle));
    match runner_step(NextJob::Failed("db down".to_string())) {
        RunnerStep::Report(m) => assert_eq!(m, "failed to get next job: db down"),
        _ => panic!("expected a report"),
    }
}

#[test]
fn store_failures_map_to_statuses() {
    assert_eq!(store_failure_status(StoreFailure::InvalidData), 500);
    assert_eq!(store_failure_status(StoreFailure::Unavailable), 503);
    assert_eq!(store_failure_status(StoreFailure::Database), 502);
    assert_eq!(store_failure_status(StoreFailure::NotFound), 400);
}

fn modules() -> Vec<Module> {
    vec![
        Module { name: "bonuses".to_string(), localized_name: "Бонусы".to_string() },
        Module { name: "coupons".to_string(), localized_name: "Купоны".to_string() },
    ]
}

#[test]
fn modules_listing_representations() {
    match modules_listing(&modules(), None) {
        ModulesBody::Csv(s) => assert_eq!(s, "bonuses, Бонусы\ncoupons, Купоны\n"),
        _ => panic!("expected text"),
    }
    match modules_listing(&modules(), Some("text/html")) {
        ModulesBody::Html(s) => assert_eq!(
            s,
            "<table rules=\"all\"><tr>\n  <td>bonuses</td>\n  <td>Бонусы</td>\n</tr>\n<tr>\n  <td>coupons</td>\n  <td>Купоны</td>\n</tr></table>"
        ),
        _ => panic!("expected html"),
    }
    match modules_listing(&modules(), Some("application/json")) {
        ModulesBody::Json(rows) => {
            let ModuleDto { name, localized_name } = &rows[1];
            assert_eq!(name, "coupons");
            assert_eq!(localized_name, "Купоны");
        }
        _ => panic!("expected json"),
    }
    assert_eq!(modules()[0].as_csv_row(), "bonuses, Бонусы");
    assert_eq!(
        modules()[0].as_html_row(),
        "<tr>\n  <td>bonuses</td>\n  <td>Бонусы</td>\n</tr>"
    );
}

#[test]
fn an_empty_module_name_does_not_filter() {
    assert_eq!(module_name_filter(&None), None);
    assert_eq!(module_name_filter(&Some(String::new())), None);
    assert_eq!(module_name_filter(&Some("bonuses".to_string())), Some("bonuses"));
}

fn encode_long(value: i64) -> String {
    const DIGITS: &[u8; 62] = b"0123456789ABCDEFGHIJKLMNOPQRSTUVWXYZabcdefghijklmnopqrstuvwxyz";
    let mut buf = [b'0'; 11];
    let mut v = value;
    if v < 0 {
        for i in (1..=10).rev() {
            buf[i] = DIGITS[(-(v % 62)) as usize];
            v /= 62;
        }
        buf[0] = DIGITS[(-(v - 31)) as usize];
    } else {
        for i in (1..=10).rev() {
            buf[i] = DIGITS[(v % 62) as usize];
            v /= 62;
        }
        buf[0] = DIGITS[v as usize];
    }
    String::from_utf8(buf.to_vec()).unwrap()
}

#[test]
fn transaction_ids_decode_both_signs() {
    for (a, b) in [(0i64, 1i64), (-5, 61), (i64::MAX, -i64::MAX), (-1710000000, 42)] {
        let id = format!("{}{}", encode_long(a), encode_long(b));
        assert_eq!(decode_transaction_id(&id), Some((a, b)));
    }
    assert_eq!(digit_index('0'), Some(0));
    assert_eq!(digit_index('Z'), Some(35));
    assert_eq!(digit_index('z'), Some(61));
    assert_eq!(digit_index('-'), None);
    assert_eq!(decode_transaction_id("abc"), None);
    assert_eq!(decode_transaction_id(&encode_long(7)), None);
    assert_eq!(decode_transaction_id("0000000000!00000000000"), None);
}

#[test]
fn transaction_lookup() {
    let seconds = 1710000000i64;
    let id = format!("{}{}", encode_long(123456789), encode_long(seconds));
    let offset = FixedOffset::east_opt(3 * 3600).unwrap();
    let t = lookup_transaction(&id, 3 * 3600).unwrap();
    assert_eq!(t.id, 123456789);
    let expected = Utc.timestamp_opt(seconds, 0).unwrap().with_timezone(&offset).naive_local();
    assert_eq!(t.created, expected);
    assert_eq!(format!("{:?}", t.created), "2024-03-09T19:00:00");
    let west = lookup_transaction(&id, -5 * 3600).unwrap();
    assert_eq!(format!("{:?}", west.created), "2024-03-09T11:00:00");
    let bad = lookup_transaction("oops", 0).unwrap_err();
    assert_eq!(bad, "Invalid transaction ID: 'oops'");
    assert_eq!(invalid_transaction_message("x"), "Invalid transaction ID: 'x'");
    // seconds beyond chrono's dates
    let far = format!("{}{}", encode_long(1), encode_long(i64::MAX));
    assert!(lookup_transaction(&far, 0).is_err());
}

#[test]
fn web_fallback_plans() {
    assert_eq!(asset_path("///assets/app.js"), "assets/app.js");
    assert!(matches!(fallback_plan("sls/releases", true), FallbackPlan::NotFound));
    match fallback_plan("", false) {
        FallbackPlan::Serve(p) => assert_eq!(p, "index.html"),
        _ => panic!("expected index"),
    }
    match fallback_plan("assets/app.js", true) {
        FallbackPlan::Serve(p) => assert_eq!(p, "assets/app.js"),
        _ => panic!("expected the file"),
    }
    match fallback_plan("modules/bonuses", false) {
        FallbackPlan::Serve(p) => assert_eq!(p, "index.html"),
        _ => panic!("expected index"),
    }
    assert!(matches!(fallback_plan("missing.png", false), FallbackPlan::NotFound));
}

#[test]
fn served_file_headers() {
    let h = file_headers("index.html");
    assert_eq!(h.content_type, "text/html");
    assert_eq!(h.cache_control, Some("no-cache"));
    let h = file_headers("assets/app.js");
    assert_eq!(h.cache_control, Some("public, max-age=31536000, immutable"));
    assert!(h.content_type.contains("javascript"));
    let h = file_headers("favicon.unknownext");
    assert_eq!(h.content_type, "application/octet-stream");
    assert_eq!(h.cache_control, None);
}

#[test]
fn rows_read_back_in_order_or_fail() {
    let good = stored_release(&sample(
        ReleaseKind::Production,
        Version::Release { major: 1, minor: 0, patch: 0 },
        false,
    ));
    let mut bad = good.clone();
    bad.version_kind = "nightly".to_string();
    let out = sls_releases::persistence::rows_to_releases(&vec![
        (good.clone(), "A".to_string()),
        (good.clone(), "B".to_string()),
    ])
    .unwrap();
    assert_eq!(out.len(), 2);
    assert_eq!(out[1].localized_name, "B");
    assert!(sls_releases::persistence::rows_to_releases(&vec![
        (good, "A".to_string()),
        (bad, "B".to_string()),
    ])
    .is_err());
}

#[test]
fn synced_records_read_back_with_closed_milestones() {
    let c = Converter::new(vec![
        ("a".to_string(), "A".to_string()),
        ("b".to_string(), "B".to_string()),
    ]);
    let mut col = ReleaseCollector::new();
    col.accept_releases_page(
        &c,
        &vec![
            GitHubRelease {
                tag_name: "a-v1.0.0".to_string(),
                html_url: "https://example/a100".to_string(),
                created_at: "2026-01-01T00:00:00Z".to_string(),
            },
            GitHubRelease {
                tag_name: "b-v2.1.3".to_string(),
                html_url: "https://example/b213".to_string(),
                created_at: "2026-01-02T00:00:00Z".to_string(),
            },
        ],
    );
    col.accept_releases_page(&c, &Vec::new());
    col.accept_milestones_page(
        &c,
        &vec![
            GitHubMilestone {
                title: "a-v1.2.0".to_string(),
                html_url: "https://example/m/a120".to_string(),
                created_at: "2026-02-01T00:00:00Z".to_string(),
                state: "open".to_string(),
            },
            GitHubMilestone {
                title: "b-v9.9.9".to_string(),
                html_url: "https://example/m/b999".to_string(),
                created_at: "2026-02-02T00:00:00Z".to_string(),
                state: "closed".to_string(),
            },
        ],
    );
    col.accept_milestones_page(&c, &Vec::new());
    let releases = col.into_releases();
    let rows = releases_to_store(&releases, &vec!["a".to_string(), "b".to_string()]);
    assert_eq!(rows.len(), 4);
    let read: Vec<(StoredRelease, String)> = rows
        .into_iter()
        .map(|r| {
            let loc = if r.name == "a" { "A" } else { "B" }.to_string();
            (r, loc)
        })
        .collect();
    let all = sls_releases::persistence::rows_to_releases(&read).unwrap();
    assert_eq!(all.len(), 4);
    let b_ms = all.iter().find(|r| r.url == "https://example/m/b999").unwrap();
    assert_eq!(b_ms.name, "b");
    assert_eq!(b_ms.localized_name, "B");
    assert_eq!(b_ms.kind, ReleaseKind::Milestone);
    assert_eq!(b_ms.version, Version::Release { major: 9, minor: 9, patch: 9 });
    assert!(!b_ms.date_time.is_empty());
    assert!(b_ms.closed);
    let a_prod = all.iter().find(|r| r.url == "https://example/a100").unwrap();
    assert_eq!(a_prod.kind, ReleaseKind::Production);
    assert!(!a_prod.date_time.is_empty());
    assert!(!a_prod.closed);
}

#[test]
fn a_group_of_the_wrong_length_decodes_to_nothing() {
    let group: Vec<char> = encode_long(42).chars().collect();
    assert_eq!(decode_long_11(&group), Some(42));
    assert_eq!(decode_long_11(&group[..10]), None);
    let mut longer = group.clone();
    longer.push('0');
    assert_eq!(decode_long_11(&longer), None);
    assert_eq!(decode_long_11(&[]), None);
    let negative: Vec<char> = encode_long(-42).chars().collect();
    assert_eq!(decode_long_11(&negative), Some(-42));
}

#[test]
fn timestamps_at_the_edges_of_chronos_range() {
    let id = |s: i64| format!("{}{}", encode_long(1), encode_long(s));
    assert!(lookup_transaction(&id(8_210_266_876_799), 0).is_ok());
    assert!(lookup_transaction(&id(8_210_266_876_800), 0).is_err());
    assert!(lookup_transaction(&id(-8_334_601_228_800), 0).is_ok());
    assert!(lookup_transaction(&id(-8_334_601_228_801), 0).is_err());
    // the shifted second must be in range as well
    assert!(lookup_transaction(&id(8_210_266_876_799), 1).is_err());
}
