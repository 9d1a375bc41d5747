use tubemin::identity::OidcUser;
use tubemin::keys::VerifiedApiKey;
use tubemin::web::{
    download_attempts, host_from_parts, metube_outcome, retry_step, RetryStep, normalize_optional_text, peertube_base,
    peertube_host_header, plan_enqueue, request_origin, shortcut_setup_url, shortcut_submit_url,
    submitter_from_lookup, SubmitError, Submitter, MAX_DOWNLOAD_RETRIES,
};

fn key() -> VerifiedApiKey {
    VerifiedApiKey {
        id: "key-1".into(),
        label: Some("laptop".into()),
        owner_sub: Some("user-1".into()),
        owner_display: Some("Walter Smith".into()),
    }
}

#[test]
fn download_retry_budget_is_three() {
    assert_eq!(MAX_DOWNLOAD_RETRIES, 3);
    assert_eq!(download_attempts(), 4);
}

#[test]
fn optional_text_is_trimmed_or_dropped() {
    assert_eq!(normalize_optional_text(Some("  shortcut ")), Some("shortcut".to_string()));
    assert_eq!(normalize_optional_text(Some("   ")), None);
    assert_eq!(normalize_optional_text(None), None);
}

#[test]
fn missing_source_defaults_to_extension() {
    let s = Submitter::from_api_key(key());
    let plan = plan_enqueue(None, "extension", true, false, &s).unwrap();
    assert_eq!(plan.source, "extension");
    assert!(!plan.is_direct);
    assert!(!plan.record_first);
    assert_eq!(plan.submitter_tag.as_deref(), Some("walter-smith"));
    let blank = plan_enqueue(Some("  "), "extension", true, false, &s).unwrap();
    assert_eq!(blank.source, "extension");
    let given = plan_enqueue(Some(" shortcut "), "extension", true, false, &s).unwrap();
    assert_eq!(given.source, "shortcut");
}

#[test]
fn web_submission_rejects_unsupported_url() {
    let s = Submitter { api_key_id: None, owner_sub: None, owner_display: None };
    let err = plan_enqueue(None, "web", false, false, &s).err().unwrap();
    assert_eq!(err, SubmitError::UnsupportedUrl);
    assert_eq!(err.status(), 422);
    let direct = plan_enqueue(None, "web", false, true, &s).unwrap();
    assert!(direct.is_direct);
    assert!(direct.record_first);
    assert_eq!(direct.submitter_tag, None);
}

#[test]
fn web_submission_creates_with_web_source() {
    let user = OidcUser { sub: Some("user-1".into()), email: "w@x".into(), username: Some("walter".into()) };
    let s = Submitter::from_user(&user);
    assert_eq!(s.api_key_id, None);
    assert_eq!(s.owner_sub.as_deref(), Some("user-1"));
    assert_eq!(s.owner_display.as_deref(), Some("walter"));
    let plan = plan_enqueue(None, "web", true, false, &s).unwrap();
    assert_eq!(plan.source, "web");
    assert_eq!(plan.submitter_tag.as_deref(), Some("walter"));
}

#[test]
fn key_lookup_outcomes() {
    let ok = submitter_from_lookup(Ok(Some(key()))).ok().unwrap();
    assert_eq!(ok.api_key_id.as_deref(), Some("key-1"));
    assert_eq!(ok.owner_display.as_deref(), Some("Walter Smith"));
    assert_eq!(submitter_from_lookup(Ok(None)).err(), Some(SubmitError::InvalidApiKey));
    assert_eq!(submitter_from_lookup(Err(())).err(), Some(SubmitError::Database));
}

#[test]
fn submit_error_statuses_and_messages() {
    assert_eq!(SubmitError::MissingApiKey.status(), 401);
    assert_eq!(SubmitError::InvalidApiKey.status(), 401);
    assert_eq!(SubmitError::Database.status(), 500);
    assert_eq!(SubmitError::MetubeUnavailable.status(), 503);
    assert_eq!(SubmitError::MissingApiKey.message(), "missing API key");
    assert_eq!(SubmitError::InvalidApiKey.message(), "invalid API key");
    assert_eq!(SubmitError::Database.message(), "db error");
    assert_eq!(SubmitError::MetubeUnavailable.message(), "metube unavailable");
    assert_eq!(
        SubmitError::UnsupportedUrl.message(),
        "URL not supported — must be from a site yt-dlp can download"
    );
}

#[test]
fn setup_exchange_returns_submit_url_and_shortcut_key() {
    let origin = request_origin(Some("https"), Some("tubemin.example.test")).unwrap();
    assert_eq!(origin, "https://tubemin.example.test");
    assert_eq!(shortcut_submit_url(&origin), "https://tubemin.example.test/api/submit");
    assert_eq!(
        shortcut_setup_url(&origin, "abc-def"),
        "https://tubemin.example.test/api/shortcut/setup/abc-def"
    );
}

#[test]
fn request_origin_takes_first_fields_and_defaults_to_http() {
    assert_eq!(
        request_origin(Some(" https , http"), Some("a.test, b.test")),
        Some("https://a.test".to_string())
    );
    assert_eq!(request_origin(None, Some("a.test")), Some("http://a.test".to_string()));
    assert_eq!(request_origin(Some(" "), Some("a.test")), Some("http://a.test".to_string()));
    assert_eq!(request_origin(Some("https"), None), None);
    assert_eq!(request_origin(Some("https"), Some(" , x")), None);
}

#[test]
fn peertube_base_needs_host() {
    assert_eq!(peertube_base(Some("https"), Some("tube.example.org")), "https://tube.example.org");
    assert_eq!(peertube_base(None, Some("tube.example.org")), "http://tube.example.org");
    assert_eq!(peertube_base(Some("https"), None), "");
}

#[test]
fn host_header_is_derived_from_url() {
    assert_eq!(peertube_host_header("http://peertube:9000", None), "peertube:9000");
    assert_eq!(peertube_host_header("https://tube.example.org/", None), "tube.example.org");
    assert_eq!(peertube_host_header("not a url", None), "not a url");
    assert_eq!(peertube_host_header("http://peertube:9000", Some("tube.example.org")), "tube.example.org");
}

#[test]
fn host_from_parts_formats_port() {
    assert_eq!(host_from_parts("u", Some(("h".to_string(), Some(8080)))), "h:8080");
    assert_eq!(host_from_parts("u", Some(("h".to_string(), None))), "h");
    assert_eq!(host_from_parts("u", None), "u");
}

#[test]
fn retries_stop_after_budget() {
    assert_eq!(retry_step(0, true), RetryStep::Done);
    assert_eq!(retry_step(0, false), RetryStep::Retry(1));
    assert_eq!(retry_step(2, false), RetryStep::Retry(3));
    assert_eq!(retry_step(3, false), RetryStep::GiveUp);
    let mut attempts = 0;
    let mut attempt = 0;
    loop {
        attempts += 1;
        match retry_step(attempt, false) {
            RetryStep::Retry(next) => attempt = next,
            _ => break,
        }
    }
    assert_eq!(attempts, download_attempts());
    assert_eq!(metube_outcome(true), Ok(()));
    assert_eq!(metube_outcome(false), Err(SubmitError::MetubeUnavailable));
}

#[test]
fn missing_api_key_returns_401() {
    assert_eq!(SubmitError::MissingApiKey.status(), 401);
    assert_eq!(SubmitError::MissingApiKey.message(), "missing API key");
}

#[test]
fn wrong_api_key_returns_401() {
    let err = submitter_from_lookup(Ok(None)).err().unwrap();
    assert_eq!(err, SubmitError::InvalidApiKey);
    assert_eq!(err.status(), 401);
}
