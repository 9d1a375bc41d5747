use tubemin::media::{
    find_thumbnail_path, import_retry_needed, with_stored_title, format_description, mime_for, plan_upload, preview_path,
    thumbnail_candidates, upload_date_to_iso, VideoMeta,
};

#[test]
fn upload_date_converts_correctly() {
    assert_eq!(upload_date_to_iso("20240315"), Some("2024-03-15T00:00:00.000Z".into()));
    assert_eq!(upload_date_to_iso("bad"), None);
    assert_eq!(upload_date_to_iso(""), None);
}

#[test]
fn upload_date_rejects_non_digits() {
    assert_eq!(upload_date_to_iso("2024031a"), None);
    assert_eq!(upload_date_to_iso("202403150"), None);
}

#[test]
fn format_description_with_all_fields() {
    let meta = VideoMeta {
        uploader: Some("MyChan".into()),
        description: Some("Cool video".into()),
        ..Default::default()
    };
    let desc = format_description(&meta);
    assert!(desc.contains("Originally uploaded by: MyChan"));
    assert!(desc.contains("Cool video"));
}

#[test]
fn format_description_missing_uploader() {
    let meta = VideoMeta {
        description: Some("Just a description".into()),
        ..Default::default()
    };
    let desc = format_description(&meta);
    assert_eq!(desc, "Just a description");
}

#[test]
fn format_description_exact_layout() {
    let both = VideoMeta {
        uploader: Some("MyChan".into()),
        description: Some("Cool video".into()),
        ..Default::default()
    };
    assert_eq!(format_description(&both), "Originally uploaded by: MyChan\n\nCool video");
    let empty_desc = VideoMeta {
        uploader: Some("MyChan".into()),
        description: Some(String::new()),
        ..Default::default()
    };
    assert_eq!(format_description(&empty_desc), "Originally uploaded by: MyChan");
    assert_eq!(format_description(&VideoMeta::default()), "");
}

#[test]
fn thumbnail_candidates_in_preference_order() {
    assert_eq!(
        thumbnail_candidates("/import/show.mp4"),
        vec![
            "/import/show.jpg".to_string(),
            "/import/show.jpeg".to_string(),
            "/import/show.webp".to_string(),
            "/import/show.png".to_string(),
        ]
    );
}

#[test]
fn find_thumbnail_takes_first_existing_candidate() {
    let existing = vec!["/import/show.png".to_string(), "/import/show.webp".to_string()];
    assert_eq!(
        find_thumbnail_path("/import/show.mp4", &existing),
        Some("/import/show.webp".to_string())
    );
    assert_eq!(find_thumbnail_path("/import/other.mp4", &existing), None);
}

#[test]
fn mime_types_by_extension() {
    assert_eq!(mime_for("/a/b.mp4"), "video/mp4");
    assert_eq!(mime_for("/a/b.webm"), "video/webm");
    assert_eq!(mime_for("/a/b.mkv"), "video/x-matroska");
    assert_eq!(mime_for("/a/b.mov"), "video/quicktime");
    assert_eq!(mime_for("/a/b.avi"), "video/x-msvideo");
    assert_eq!(mime_for("/a/b.MP4"), "application/octet-stream");
    assert_eq!(mime_for("/a/b"), "application/octet-stream");
}

#[test]
fn plan_upload_uses_metadata_and_file_name() {
    let meta = VideoMeta {
        title: None,
        description: Some("Desc".into()),
        uploader: Some("Chan".into()),
        upload_date: Some("20230101".into()),
    };
    let p = plan_upload("/import/My Clip.webm", &meta);
    assert_eq!(p.filename, "My Clip.webm");
    assert_eq!(p.title, "My Clip");
    assert_eq!(p.mime, "video/webm");
    assert_eq!(p.description, Some("Originally uploaded by: Chan\n\nDesc".to_string()));
    assert_eq!(p.originally_published_at, Some("2023-01-01T00:00:00.000Z".to_string()));

    let titled = VideoMeta { title: Some("My Vid".into()), ..Default::default() };
    let q = plan_upload("/import/x.mp4", &titled);
    assert_eq!(q.title, "My Vid");
    assert_eq!(q.description, None);
    assert_eq!(q.originally_published_at, None);
}

#[test]
fn preview_path_names_static_image() {
    assert_eq!(preview_path("abc"), "/lazy-static/previews/abc.jpg");
}

#[test]
fn stored_title_fills_missing_title() {
    let meta = VideoMeta { uploader: Some("Chan".into()), ..Default::default() };
    let m = with_stored_title(meta, Some("Stored".into()));
    assert_eq!(m.title.as_deref(), Some("Stored"));
    assert_eq!(m.uploader.as_deref(), Some("Chan"));
    let titled = VideoMeta { title: Some("Own".into()), ..Default::default() };
    assert_eq!(with_stored_title(titled, Some("Stored".into())).title.as_deref(), Some("Own"));
}

#[test]
fn import_retry_only_without_peertube_video() {
    assert!(import_retry_needed(Some(("error".into(), None))));
    assert!(!import_retry_needed(Some(("imported".into(), Some("uuid".into())))));
    assert!(!import_retry_needed(None));
}
