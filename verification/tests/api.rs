use tubemin::api::{
    password_login_user, password_matches, subtitle_pairs, user_from_claims, CleanupResponse,
    DeleteOrphansResponse,
    OrphanListResponse, Submission, SubmissionRow, SubmitRequest, SubmitResponse, SubtitleTrack,
    WebSubmitRequest,
};
use tubemin::listing::OrphanVideoRow;

#[test]
fn valid_submission_returns_queued() {
    assert_eq!(SubmitResponse::queued().status, "queued");
}

#[test]
fn web_submission_carries_only_url() {
    let r = SubmitRequest::from_web(WebSubmitRequest { url: "https://www.youtube.com/watch?v=dQw4w9WgXcQ".into() });
    assert_eq!(r.url, "https://www.youtube.com/watch?v=dQw4w9WgXcQ");
    assert!(r.source.is_none() && r.title.is_none() && r.subtitle_tracks.is_none());
}

#[test]
fn subtitle_pairs_follow_tracks() {
    let tracks = vec![
        SubtitleTrack { lang: "en".into(), src: "https://x.test/en.vtt".into() },
        SubtitleTrack { lang: "de".into(), src: "https://x.test/de.vtt".into() },
    ];
    assert_eq!(
        subtitle_pairs(Some(tracks)),
        vec![
            ("en".to_string(), "https://x.test/en.vtt".to_string()),
            ("de".to_string(), "https://x.test/de.vtt".to_string()),
        ]
    );
    assert!(subtitle_pairs(None).is_empty());
}

#[test]
fn password_login_compares_exactly() {
    assert!(password_matches("hunter2", Some("hunter2")));
    assert!(!password_matches("hunter", Some("hunter2")));
    assert!(password_matches("", None));
    assert!(!password_matches("x", None));
    let u = password_login_user();
    assert_eq!(u.email, "admin");
    assert_eq!(u.display_name(), "admin");
    assert_eq!(u.username.as_deref(), Some("admin"));
    assert_eq!(u.submitter_tag(), "admin");
    assert_eq!(u.sub, None);
}

#[test]
fn oidc_claims_make_a_user() {
    let u = user_from_claims("sub-1".into(), None, Some("walter".into()));
    assert_eq!(u.sub.as_deref(), Some("sub-1"));
    assert_eq!(u.email, "unknown");
    assert_eq!(u.display_name(), "walter");
    let v = user_from_claims("sub-2".into(), Some("a@b.c".into()), None);
    assert_eq!(v.display_name(), "a@b.c");
}

#[test]
fn response_totals_count_their_lists() {
    let rows = vec![OrphanVideoRow {
        uuid: "u".into(),
        title: "t".into(),
        thumbnail_path: None,
        preview_path: None,
        published_at: None,
    }];
    assert_eq!(OrphanListResponse::new(rows).total, 1);
    let c = CleanupResponse::new(5, vec!["a".into(), "b".into()]);
    assert_eq!(c.checked, 5);
    assert_eq!(c.deleted, 2);
}

#[test]
fn submission_row_keeps_listed_fields() {
    let s = Submission {
        id: "test-id".into(),
        url: "https://example.com/video".into(),
        source_url: None,
        source: Some("web".into()),
        title: Some("T".into()),
        filename: None,
        peertube_thumb: None,
        peertube_uuid: Some("uuid".into()),
        api_key_id: None,
        submitter_sub: None,
        submitter_display: None,
        submitter_tag: None,
        status: "pending".into(),
        is_direct: false,
        download_method: None,
        download_retries: 0,
        downloading_at: None,
        imported_at: None,
        transcoding_at: None,
        completed_at: None,
        submitted_at: "2024-01-01T00:00:00Z".into(),
        updated_at: "2024-01-02T00:00:00Z".into(),
    };
    let r = SubmissionRow::from_submission(s);
    assert_eq!(r.id, "test-id");
    assert_eq!(r.status, "pending");
    assert_eq!(r.title.as_deref(), Some("T"));
    assert_eq!(r.peertube_uuid.as_deref(), Some("uuid"));
    assert_eq!(r.updated_at, "2024-01-02T00:00:00Z");
}

#[test]
fn orphan_deletion_counts() {
    let mut r = DeleteOrphansResponse::new();
    r.record(true);
    r.record(false);
    r.record(true);
    assert_eq!(r.deleted, 2);
    assert_eq!(r.failed, 1);
}
