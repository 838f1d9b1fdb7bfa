use slick_worker::audit::{get_lighthouse_version, LighthouseVersion};
use slick_worker::dispatch::{
    decode_work_request, get_next_run_id, plan_site_audit, AuditUnit, SiteAudit, SiteAuditAction,
    WorkRequest,
};
use slick_worker::error::WorkerError;
use slick_worker::lh_client::LighthouseClient;
use slick_worker::models::{
    build_page_score_parameters, AuditProfile, Cookie, Page, PageScoreParameters, ScoreParameters,
    Site, SiteScoreParameters,
};

fn page(id: &str, url: &str) -> Page {
    Page { id: id.to_string(), name: id.to_string(), url: url.to_string() }
}

fn profile(device: &str, version: &str, enabled: Option<bool>) -> AuditProfile {
    let mut p = AuditProfile::new(device.to_string(), version.to_string());
    p.enabled = enabled;
    p
}

fn site(pages: Vec<Page>, profiles: Vec<AuditProfile>, last_run_id: i32) -> Site {
    Site {
        id: "5f0000000000000000000001".to_string(),
        name: "example".to_string(),
        pages,
        audit_profiles: profiles,
        last_run_id,
        ..Default::default()
    }
}

fn page_request(version: Option<&str>) -> PageScoreParameters {
    PageScoreParameters {
        url: "https://example.com".to_string(),
        lighthouse_version: version.map(|v| v.to_string()),
        ..Default::default()
    }
}

#[test]
fn decode_site_request() {
    let p = ScoreParameters {
        site: Some(SiteScoreParameters { site_id: "abc".to_string(), cookie: None }),
        page: None,
    };
    match decode_work_request(p) {
        Ok(WorkRequest::Site(s)) => assert_eq!(s.site_id, "abc"),
        other => panic!("unexpected {:?}", other),
    }
}

#[test]
fn decode_page_request() {
    let p = ScoreParameters { site: None, page: Some(page_request(Some("6"))) };
    match decode_work_request(p) {
        Ok(WorkRequest::Page(r)) => assert_eq!(r.url, "https://example.com"),
        other => panic!("unexpected {:?}", other),
    }
}

#[test]
fn decode_rejects_both_forms() {
    let p = ScoreParameters {
        site: Some(SiteScoreParameters { site_id: "abc".to_string(), cookie: None }),
        page: Some(page_request(None)),
    };
    assert!(matches!(decode_work_request(p), Err(WorkerError::MalformedMessage)));
}

#[test]
fn decode_rejects_neither_form() {
    let p = ScoreParameters { site: None, page: None };
    assert!(matches!(decode_work_request(p), Err(WorkerError::MalformedMessage)));
}

#[test]
fn run_id_comes_from_incremented_site() {
    let s = site(vec![], vec![], 42);
    assert_eq!(get_next_run_id(&Some(s)), Ok(42));
    assert_eq!(get_next_run_id(&None), Err(WorkerError::SequencingFailure));
}

#[test]
fn version_tags_select_backends() {
    assert_eq!(get_lighthouse_version(&page_request(Some("5"))), LighthouseVersion::V5);
    assert_eq!(get_lighthouse_version(&page_request(Some("6"))), LighthouseVersion::V6);
    assert_eq!(get_lighthouse_version(&page_request(Some("7"))), LighthouseVersion::V7);
    assert_eq!(get_lighthouse_version(&page_request(Some("9"))), LighthouseVersion::V6);
    assert_eq!(get_lighthouse_version(&page_request(None)), LighthouseVersion::V6);
}

#[test]
fn audit_profile_name_joins_device_and_version() {
    let p = AuditProfile::new("mobile".to_string(), "6".to_string());
    assert_eq!(p.name, "mobile-6");
    assert_eq!(p.device, "mobile");
    assert_eq!(p.lighthouse_version, "6");
    assert!(p.is_enabled());
}

#[test]
fn request_carries_page_profile_and_cookie() {
    let pg = page("home", "https://example.com/");
    let mut pr = profile("desktop", "7", Some(true));
    pr.blocked_url_patterns = Some(vec!["*.ads.example".to_string()]);
    let cookie = Some(Cookie { name: "session".to_string(), value: "xyz".to_string() });
    let r = build_page_score_parameters(&pg, &pr, &cookie);
    assert_eq!(r.url, "https://example.com/");
    assert_eq!(r.device.as_deref(), Some("desktop"));
    assert_eq!(r.lighthouse_version.as_deref(), Some("7"));
    assert_eq!(r.blocked_url_patterns, Some(vec!["*.ads.example".to_string()]));
    assert_eq!(r.throttling, None);
    assert_eq!(r.attempts, None);
    let c = r.cookie.unwrap();
    assert_eq!((c.name.as_str(), c.value.as_str()), ("session", "xyz"));
}

#[test]
fn disabled_profile_is_skipped() {
    let s = site(
        vec![page("home", "https://example.com/")],
        vec![profile("mobile", "6", Some(false)), profile("desktop", "6", Some(true))],
        0,
    );
    let units = plan_site_audit(&s);
    assert_eq!(units, vec![AuditUnit { page_index: 0, profile_index: 1 }]);
}

#[test]
fn profile_without_flag_is_enabled() {
    let s = site(
        vec![page("a", "https://a.example/"), page("b", "https://b.example/")],
        vec![profile("mobile", "6", None), profile("desktop", "5", Some(false))],
        0,
    );
    let units = plan_site_audit(&s);
    assert_eq!(
        units,
        vec![
            AuditUnit { page_index: 0, profile_index: 0 },
            AuditUnit { page_index: 1, profile_index: 0 },
        ]
    );
}

fn two_by_two(last_run_id: i32) -> Site {
    site(
        vec![page("a", "https://a.example/"), page("b", "https://b.example/")],
        vec![profile("mobile", "6", Some(true)), profile("desktop", "5", None)],
        last_run_id,
    )
}

#[test]
fn scenario_site_request_runs_four_units_then_acknowledges() {
    let run_id = get_next_run_id(&Some(two_by_two(8))).unwrap();
    let mut audit = SiteAudit::new(two_by_two(8), None, run_id);
    let mut seen = Vec::new();
    loop {
        match audit.next_action() {
            SiteAuditAction::Audit(a) => {
                assert_eq!(a.run_id, 8);
                seen.push((a.page_index, a.profile_index, a.parameters.url.clone()));
                audit.record_success();
            }
            SiteAuditAction::Acknowledge => break,
            SiteAuditAction::Abandon(e) => panic!("abandoned: {:?}", e),
        }
    }
    assert_eq!(
        seen,
        vec![
            (0, 0, "https://a.example/".to_string()),
            (0, 1, "https://a.example/".to_string()),
            (1, 0, "https://b.example/".to_string()),
            (1, 1, "https://b.example/".to_string()),
        ]
    );
}

#[test]
fn scenario_failed_unit_is_never_acknowledged() {
    let mut audit = SiteAudit::new(two_by_two(8), None, 8);
    for _ in 0..2 {
        assert!(matches!(audit.next_action(), SiteAuditAction::Audit(_)));
        audit.record_success();
    }
    assert!(matches!(audit.next_action(), SiteAuditAction::Audit(_)));
    audit.record_failure(WorkerError::BackendUnavailable);
    for _ in 0..3 {
        assert!(matches!(
            audit.next_action(),
            SiteAuditAction::Abandon(WorkerError::BackendUnavailable)
        ));
    }
    // redelivery: the counter is incremented again and a new run id is used
    let redelivered_run_id = get_next_run_id(&Some(two_by_two(9))).unwrap();
    assert_ne!(redelivered_run_id, audit.run_id());
    let mut retry = SiteAudit::new(two_by_two(9), None, redelivered_run_id);
    match retry.next_action() {
        SiteAuditAction::Audit(a) => assert_eq!(a.run_id, 9),
        other => panic!("unexpected {:?}", other),
    }
    retry.record_success();
}

#[test]
fn site_without_pages_acknowledges_at_once() {
    let audit = SiteAudit::new(site(vec![], vec![profile("mobile", "6", None)], 1), None, 2);
    assert!(matches!(audit.next_action(), SiteAuditAction::Acknowledge));
}

#[test]
fn client_posts_to_report_endpoint() {
    let client = LighthouseClient::new(&"http://localhost:3000".to_string()).unwrap();
    assert_eq!(client.report_url().as_str(), "http://localhost:3000/report");
}

#[test]
fn client_rejects_relative_address() {
    assert!(LighthouseClient::new(&"localhost without scheme".to_string()).is_none());
}

#[test]
fn failed_persistence_abandons_first_unit() {
    let mut audit = SiteAudit::new(two_by_two(3), None, 3);
    assert!(matches!(audit.next_action(), SiteAuditAction::Audit(_)));
    audit.record_failure(WorkerError::PersistenceFailure);
    assert!(matches!(
        audit.next_action(),
        SiteAuditAction::Abandon(WorkerError::PersistenceFailure)
    ));
}

#[test]
fn site_audit_passes_cookie_to_every_unit() {
    let cookie = Some(Cookie { name: "sid".to_string(), value: "42".to_string() });
    let mut audit = SiteAudit::new(two_by_two(1), cookie, 1);
    let mut count = 0;
    while let SiteAuditAction::Audit(a) = audit.next_action() {
        let c = a.parameters.cookie.expect("cookie");
        assert_eq!((c.name.as_str(), c.value.as_str()), ("sid", "42"));
        count += 1;
        audit.record_success();
    }
    assert_eq!(count, 4);
    assert_eq!(audit.site().pages.len(), 2);
}
