use tubemin::handoff::{
    bearer_token_matches, claim_outcome, cleanup_gate, cleanup_scope, dedup, handoff_gate, handoff_item,
    is_handed_off, is_safe_filename, needs_cleanup, source_artifacts, stale_uuids, HandoffItem,
    HandoffItemState, HandoffRequest, HandoffRequestItem, HandoffResponse, InternalRejection,
};

fn strings(v: &[&str]) -> Vec<String> {
    v.iter().map(|s| s.to_string()).collect()
}

#[test]
fn handoff_accepts_only_plain_filenames() {
    assert!(is_safe_filename("episode.mp4"));
    assert!(!is_safe_filename("../episode.mp4"));
    assert!(!is_safe_filename("/tmp/episode.mp4"));
}

#[test]
fn unsafe_filename_edge_cases() {
    assert!(!is_safe_filename(""));
    assert!(!is_safe_filename(".."));
    assert!(!is_safe_filename("dir/"));
    assert!(is_safe_filename(".hidden"));
}

#[test]
fn source_artifacts_are_limited_to_matching_stem() {
    let entries = strings(&["/root/episode.en.vtt", "/root/other.en.vtt", "/root/episode.mp4"]);
    let paths = source_artifacts("/root", "episode.mp4", &entries);
    assert!(paths.contains(&"/root/episode.mp4".to_string()));
    assert!(paths.contains(&"/root/episode.en.vtt".to_string()));
    assert!(!paths.contains(&"/root/other.en.vtt".to_string()));
}

#[test]
fn source_artifacts_list_video_metadata_and_thumbnails() {
    let entries = strings(&["/root/episode.de.srt", "/root/episode.nfo", "/root/episodes.en.vtt"]);
    let paths = source_artifacts("/root", "episode.mp4", &entries);
    assert_eq!(
        paths,
        strings(&[
            "/root/episode.mp4",
            "/root/episode.info.json",
            "/root/episode.jpg",
            "/root/episode.jpeg",
            "/root/episode.png",
            "/root/episode.webp",
            "/root/episode.de.srt",
        ])
    );
}

#[test]
fn claim_reports_state_from_row_status() {
    let item = HandoffItem { peertube_uuid: Some("u".to_string()), filename: Some("a.mp4".to_string()) };
    let r = claim_outcome(&item, Some("imported"));
    assert_eq!(r.state, HandoffItemState::Claimed);
    assert_eq!(r.filename, "a.mp4");
    assert_eq!(claim_outcome(&item, Some("handed_off")).state, HandoffItemState::AlreadyClaimed);
    assert_eq!(claim_outcome(&item, None).state, HandoffItemState::NotFound);
    let bare = HandoffItem { peertube_uuid: Some("u".to_string()), filename: None };
    assert_eq!(claim_outcome(&bare, None).filename, "");
}

#[test]
fn claim_twice_is_already_claimed() {
    let item = HandoffItem { peertube_uuid: None, filename: Some("b.mp4".to_string()) };
    assert_eq!(claim_outcome(&item, Some("complete")).state, HandoffItemState::Claimed);
    assert_eq!(claim_outcome(&item, Some("handed_off")).state, HandoffItemState::AlreadyClaimed);
    assert!(is_handed_off(Some("handed_off")));
    assert!(!is_handed_off(Some("imported")));
    assert!(!is_handed_off(None));
}

#[test]
fn bearer_token_must_match_exactly() {
    assert!(bearer_token_matches(Some("Bearer s3cret"), "s3cret"));
    assert!(!bearer_token_matches(Some("bearer s3cret"), "s3cret"));
    assert!(!bearer_token_matches(Some("Bearer s3cret "), "s3cret"));
    assert!(!bearer_token_matches(None, "s3cret"));
}

#[test]
fn handoff_gate_checks_in_order() {
    let ok = HandoffRequest {
        items: vec![HandoffRequestItem { peertube_uuid: "u".to_string(), filename: Some("a.mp4".to_string()) }],
    };
    let bad = HandoffRequest {
        items: vec![
            HandoffRequestItem { peertube_uuid: "u".to_string(), filename: None },
            HandoffRequestItem { peertube_uuid: "v".to_string(), filename: Some("../a.mp4".to_string()) },
        ],
    };
    let empty = HandoffRequest { items: vec![] };
    assert_eq!(handoff_gate(None, Some("Bearer t"), &ok), Err(InternalRejection::Disabled));
    assert_eq!(handoff_gate(Some("t"), Some("Bearer x"), &ok), Err(InternalRejection::Unauthorized));
    assert_eq!(handoff_gate(Some("t"), Some("Bearer t"), &empty), Err(InternalRejection::NoItems));
    // File names are checked item by item, when the endpoint reaches them.
    assert_eq!(handoff_gate(Some("t"), Some("Bearer t"), &bad), Ok(()));
    assert_eq!(handoff_gate(Some("t"), Some("Bearer t"), &ok), Ok(()));
    let first = handoff_item(&bad.items[0]).unwrap();
    assert_eq!(first, HandoffItem { peertube_uuid: Some("u".to_string()), filename: None });
    assert_eq!(handoff_item(&bad.items[1]), Err(InternalRejection::UnsafeFilename));
    assert_eq!(
        handoff_item(&ok.items[0]),
        Ok(HandoffItem { peertube_uuid: Some("u".to_string()), filename: Some("a.mp4".to_string()) })
    );
}

#[test]
fn rejection_status_codes() {
    assert_eq!(InternalRejection::Disabled.status(), 404);
    assert_eq!(InternalRejection::Unauthorized.status(), 401);
    assert_eq!(InternalRejection::NoItems.status(), 400);
    assert_eq!(InternalRejection::UnsafeFilename.status(), 400);
}

#[test]
fn cleanup_gate_requires_configured_token() {
    assert_eq!(cleanup_gate(None, Some("Bearer t")), Err(InternalRejection::Disabled));
    assert_eq!(cleanup_gate(Some("t"), None), Err(InternalRejection::Unauthorized));
    assert_eq!(cleanup_gate(Some("t"), Some("Bearer t")), Ok(()));
}

#[test]
fn handoff_response_counts_items() {
    let mut r = HandoffResponse::new(3);
    assert!(r.record(HandoffItemState::Claimed));
    assert!(r.record(HandoffItemState::AlreadyClaimed));
    assert!(!r.record(HandoffItemState::NotFound));
    r.record_removed("/root/a.mp4".to_string());
    assert_eq!(r.checked, 3);
    assert_eq!(r.claimed, 1);
    assert_eq!(r.already_claimed, 1);
    assert_eq!(r.not_found, 1);
    assert_eq!(r.removed_files, strings(&["/root/a.mp4"]));
}

#[test]
fn dedup_keeps_first_occurrences() {
    assert_eq!(dedup(&strings(&["a", "b", "a", "c", "b"])), strings(&["a", "b", "c"]));
}

#[test]
fn cleanup_scope_prefers_candidates() {
    let stored = strings(&["s1", "s2", "s1"]);
    assert_eq!(cleanup_scope(None, &stored), strings(&["s1", "s2"]));
    let given = strings(&["c1", "c1"]);
    assert_eq!(cleanup_scope(Some(&given), &stored), strings(&["c1"]));
}

#[test]
fn stale_uuids_are_missing_from_inventory() {
    let scope = strings(&["uuid-keep", "uuid-remove"]);
    let current = strings(&["uuid-keep", "uuid-other"]);
    assert_eq!(stale_uuids(&scope, &current), strings(&["uuid-remove"]));
}

#[test]
fn handoff_tally_counts_each_item_once() {
    let states = vec![
        HandoffItemState::Claimed,
        HandoffItemState::NotFound,
        HandoffItemState::AlreadyClaimed,
        HandoffItemState::Claimed,
    ];
    let r = HandoffResponse::tally(&states);
    assert_eq!(r.checked, 4);
    assert_eq!(r.claimed, 2);
    assert_eq!(r.already_claimed, 1);
    assert_eq!(r.not_found, 1);
    assert!(r.removed_files.is_empty());
    assert!(needs_cleanup(HandoffItemState::Claimed));
    assert!(needs_cleanup(HandoffItemState::AlreadyClaimed));
    assert!(!needs_cleanup(HandoffItemState::NotFound));
    let empty = HandoffResponse::tally(&Vec::new());
    assert_eq!((empty.checked, empty.claimed, empty.already_claimed, empty.not_found), (0, 0, 0, 0));
}
