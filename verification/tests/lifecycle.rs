use tubemin::handoff::HandoffItem;
use tubemin::lifecycle::{handoff_match, import_target, HandoffRow, ImportRow, ImportTarget, OwnedDeletion};

fn row(id: &str, filename: Option<&str>, status: &str, is_direct: bool) -> ImportRow {
    ImportRow {
        id: id.into(),
        filename: filename.map(String::from),
        status: status.into(),
        is_direct,
    }
}

#[test]
fn import_prefers_submissions_that_named_the_file() {
    let rows = vec![
        row("old", None, "pending", false),
        row("a", Some("show.mp4"), "downloading", false),
        row("direct", Some("show.mp4"), "pending", true),
        row("done", Some("show.mp4"), "imported", false),
        row("b", Some("show.mp4"), "error", false),
    ];
    match import_target(&rows, "show.mp4") {
        ImportTarget::Named(ids) => assert_eq!(ids, vec!["a", "b"]),
        _ => panic!("the submissions naming the file take it"),
    }
}

#[test]
fn import_falls_back_to_oldest_waiting_submission() {
    let rows = vec![
        row("direct", None, "pending", true),
        row("failed", None, "error", false),
        row("first", None, "downloading", false),
        row("second", None, "pending", false),
        row("other", Some("other.mp4"), "pending", false),
    ];
    match import_target(&rows, "show.mp4") {
        ImportTarget::Oldest(id) => assert_eq!(id, "first"),
        _ => panic!("the oldest waiting submission takes the file"),
    }
    let none = vec![row("done", None, "imported", false)];
    assert!(matches!(import_target(&none, "show.mp4"), ImportTarget::Nothing));
}

fn hrow(id: &str, filename: Option<&str>, uuid: Option<&str>) -> HandoffRow {
    HandoffRow {
        id: id.into(),
        filename: filename.map(String::from),
        peertube_uuid: uuid.map(String::from),
        status: "imported".into(),
    }
}

#[test]
fn handoff_claims_newest_matching_submission() {
    let rows = vec![
        hrow("other-video", Some("show.mp4"), Some("u-2")),
        hrow("unknown-video", Some("show.mp4"), None),
        hrow("same-video", Some("show.mp4"), Some("u-1")),
    ];
    let by_name = HandoffItem { peertube_uuid: Some("u-1".into()), filename: Some("show.mp4".into()) };
    assert_eq!(handoff_match(&by_name, &rows), Some(1));
    let name_only = HandoffItem { peertube_uuid: None, filename: Some("show.mp4".into()) };
    assert_eq!(handoff_match(&name_only, &rows), Some(0));
    let by_uuid = HandoffItem { peertube_uuid: Some("u-1".into()), filename: None };
    assert_eq!(handoff_match(&by_uuid, &rows), Some(2));
    let missing = HandoffItem { peertube_uuid: Some("u-9".into()), filename: None };
    assert_eq!(handoff_match(&missing, &rows), None);
    let empty = HandoffItem { peertube_uuid: None, filename: None };
    assert_eq!(handoff_match(&empty, &rows), None);
}

#[test]
fn deletion_stops_at_first_unowned_id() {
    let mut d = OwnedDeletion::new();
    assert!(d.record(Some(Some("u-1".into()))));
    assert!(d.record(Some(None)));
    assert!(d.goes_on());
    assert_eq!(d.finish(), vec![Some("u-1".to_string()), None]);

    let mut refused = OwnedDeletion::new();
    assert!(refused.record(Some(Some("u-1".into()))));
    assert!(!refused.record(None));
    assert!(!refused.goes_on());
    assert!(!refused.record(Some(Some("u-2".into()))));
    assert!(refused.finish().is_empty());
}
