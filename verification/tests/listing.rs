use tubemin::identity::owner_scope;
use tubemin::listing::{
    contains_str, default_page, default_per_page, filter_orphans, like_pattern,
    normalize_list_query, page_offset, paged_query, status_counts, ListQuery, OrphanVideoRow,
};

fn row(uuid: &str) -> OrphanVideoRow {
    OrphanVideoRow {
        uuid: uuid.to_string(),
        title: format!("title {uuid}"),
        thumbnail_path: None,
        preview_path: None,
        published_at: None,
    }
}

#[test]
fn list_query_defaults() {
    assert_eq!(default_page(), 1);
    assert_eq!(default_per_page(), 24);
}

#[test]
fn list_query_is_clamped_and_trimmed() {
    let q = ListQuery { page: 0, per_page: 500, status: Some("all".into()), q: Some("  cats ".into()) };
    let n = normalize_list_query(&q);
    assert_eq!(n.page, 1);
    assert_eq!(n.per_page, 100);
    assert_eq!(n.status, None);
    assert_eq!(n.search.as_deref(), Some("cats"));

    let r = ListQuery { page: 3, per_page: 0, status: Some("error".into()), q: Some("   ".into()) };
    let m = normalize_list_query(&r);
    assert_eq!(m.page, 3);
    assert_eq!(m.per_page, 1);
    assert_eq!(m.status.as_deref(), Some("error"));
    assert_eq!(m.search, None);
}

#[test]
fn page_offsets() {
    assert_eq!(page_offset(1, 24), 0);
    assert_eq!(page_offset(3, 24), 48);
    assert_eq!(page_offset(0, 24), 0);
}

#[test]
fn like_pattern_wraps_search() {
    assert_eq!(like_pattern("cat"), "%cat%");
}

#[test]
fn list_submissions_owned_only_returns_matching_owner() {
    let scope = owner_scope(Some("user-1"), "Walter");
    let q = paged_query(&scope, None, None, 1, 24);
    assert_eq!(q.count_sql, "SELECT COUNT(*) FROM submissions WHERE submitter_sub = ?");
    assert_eq!(
        q.rows_sql,
        "SELECT * FROM submissions WHERE submitter_sub = ? ORDER BY submitted_at DESC LIMIT ? OFFSET ?"
    );
    assert_eq!(
        q.status_counts_sql,
        "SELECT status, COUNT(*) as count FROM submissions WHERE submitter_sub = ? GROUP BY status"
    );
    assert_eq!(q.binds, vec!["user-1".to_string()]);
    assert_eq!(q.limit, 24);
    assert_eq!(q.offset, 0);
}

#[test]
fn paged_query_with_display_owner_status_and_search() {
    let scope = owner_scope(None, "Walter");
    let q = paged_query(&scope, Some("error"), Some("cat"), 2, 10);
    assert_eq!(
        q.count_sql,
        "SELECT COUNT(*) FROM submissions WHERE submitter_sub IS NULL AND submitter_display = ? AND status = ? AND (title LIKE ? OR url LIKE ?)"
    );
    assert_eq!(
        q.binds,
        vec!["Walter".to_string(), "error".to_string(), "%cat%".to_string(), "%cat%".to_string()]
    );
    assert_eq!(q.limit, 10);
    assert_eq!(q.offset, 10);
}

#[test]
fn orphans_are_videos_no_submission_knows() {
    let known = vec!["b".to_string()];
    assert!(contains_str(&known, "b"));
    assert!(!contains_str(&known, "a"));
    let out = filter_orphans(vec![row("a"), row("b"), row("c")], &known);
    let uuids: Vec<&str> = out.iter().map(|r| r.uuid.as_str()).collect();
    assert_eq!(uuids, vec!["a", "c"]);
    assert_eq!(out[0].title, "title a");
}

#[test]
fn status_counts_add_all_total() {
    let rows = vec![("pending".to_string(), 2), ("error".to_string(), 1), ("complete".to_string(), 5)];
    assert_eq!(
        status_counts(rows),
        vec![
            ("pending".to_string(), 2),
            ("error".to_string(), 1),
            ("complete".to_string(), 5),
            ("all".to_string(), 8),
        ]
    );
    assert_eq!(status_counts(vec![]), vec![("all".to_string(), 0)]);
}
