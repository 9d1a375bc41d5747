use tubemin::identity::{normalize_submitter_tag, owner_scope, submission_visible_to, OidcUser, OwnerScope};

#[test]
fn display_name_prefers_username() {
    let u = OidcUser {
        sub: None,
        email: "a@b.c".into(),
        username: Some("walter".into()),
    };
    assert_eq!(u.display_name(), "walter");
}

#[test]
fn display_name_falls_back_to_email() {
    let u = OidcUser {
        sub: None,
        email: "a@b.c".into(),
        username: None,
    };
    assert_eq!(u.display_name(), "a@b.c");
}

#[test]
fn submitter_tag_normalizes_username() {
    let u = OidcUser {
        sub: None,
        email: "a@b.c".into(),
        username: Some("Walter Smith".into()),
    };
    assert_eq!(u.submitter_tag(), "walter-smith");
}

#[test]
fn submitter_tag_falls_back_to_email_local_part_then_subject() {
    let by_email = OidcUser { sub: Some("sub-1".into()), email: "Jane.Doe@x.test".into(), username: None };
    assert_eq!(by_email.submitter_tag(), "jane-doe");
    let by_sub = OidcUser { sub: Some("Sub_42".into()), email: "@x.test".into(), username: None };
    assert_eq!(by_sub.submitter_tag(), "sub-42");
    let nothing = OidcUser { sub: None, email: "no-at-sign".into(), username: None };
    assert_eq!(nothing.submitter_tag(), "unknown");
}

#[test]
fn normalize_collapses_runs_and_trims_dashes() {
    assert_eq!(normalize_submitter_tag("  --Walter   Smith!!  "), "walter-smith");
    assert_eq!(normalize_submitter_tag("한국"), "unknown");
    assert_eq!(normalize_submitter_tag(""), "unknown");
    assert_eq!(normalize_submitter_tag("a.b_c"), "a-b-c");
}

#[test]
fn normalized_tag_is_a_fixed_point() {
    for raw in ["Walter Smith", "--x--y--", "ABC123", "", "é"] {
        let once = normalize_submitter_tag(raw);
        assert_eq!(normalize_submitter_tag(&once), once);
    }
}

#[test]
fn stable_subject_and_owner_display() {
    let u = OidcUser { sub: Some("s".into()), email: "e@x".into(), username: Some("walter".into()) };
    assert_eq!(u.stable_subject(), Some("s"));
    assert_eq!(u.owner_display(), "walter");
}

#[test]
fn owner_scope_prefers_subject() {
    match owner_scope(Some("user-1"), "Walter") {
        OwnerScope::Subject(s) => assert_eq!(s, "user-1"),
        OwnerScope::Display(_) => panic!("expected a subject scope"),
    }
    let d = owner_scope(None, "Walter");
    assert_eq!(d.bind_value(), "Walter");
    assert!(matches!(d, OwnerScope::Display(_)));
}

#[test]
fn submission_visibility_follows_subject() {
    let with_sub = OidcUser { sub: Some("user-1".into()), email: "w@x".into(), username: Some("Walter".into()) };
    assert!(submission_visible_to(Some("user-1"), Some("Other"), &with_sub));
    assert!(!submission_visible_to(Some("user-2"), Some("Walter"), &with_sub));
    assert!(!submission_visible_to(None, Some("Walter"), &with_sub));

    let legacy = OidcUser { sub: None, email: "w@x".into(), username: Some("Walter".into()) };
    assert!(submission_visible_to(None, Some("Walter"), &legacy));
    // Rows without a subject match a user without one, whatever the display.
    assert!(submission_visible_to(None, Some("Alice"), &legacy));
    assert!(!submission_visible_to(Some("user-1"), Some("Walter"), &legacy));
}
