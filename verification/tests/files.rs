use tubemin::files::{
    is_image_file, is_importable, is_subtitle_file, is_temp_file, is_video_file,
    should_handle_event, subtitle_sidecars, thumbnail_mime, SeenPaths, after_import, ImportAction,
};

#[test]
fn temp_file_detection() {
    assert!(is_temp_file("/downloads/video.part"));
    assert!(is_temp_file("/downloads/video.ytdl"));
    assert!(is_temp_file("/downloads/video.temp.webm"));
    assert!(is_temp_file("/downloads/video.temp.mp4"));
    assert!(is_temp_file("/downloads/video.f251.webm"));
    assert!(is_temp_file("/downloads/video.f399.mp4"));
    assert!(is_temp_file("/downloads/video.mp4.part-Frag12"));
    assert!(is_temp_file("/downloads/video.info.json"));
    assert!(!is_temp_file("/downloads/video.mp4"));
    assert!(!is_temp_file("/downloads/video.mkv"));
    assert!(!is_temp_file("/downloads/video.webm"));
}

#[test]
fn video_file_detection_rejects_sidecars() {
    assert!(is_video_file("/downloads/video.mp4"));
    assert!(is_video_file("/downloads/video.MKV"));
    assert!(!is_video_file("/downloads/video.danmaku.xml"));
    assert!(!is_video_file("/downloads/video.mp4.part"));
    assert!(!is_video_file("/downloads/video.info.json"));
}

#[test]
fn temp_file_edge_cases() {
    assert!(is_temp_file("/downloads/video.tmp"));
    assert!(is_temp_file("/downloads/video.f.mp4"));
    assert!(!is_temp_file("/downloads/video.f25a.mp4"));
    assert!(!is_temp_file("/downloads/video"));
}

#[test]
fn image_and_subtitle_classification() {
    assert!(is_image_file("/d/a.jpg"));
    assert!(is_image_file("/d/a.webp"));
    assert!(!is_image_file("/d/a.JPG"));
    assert!(is_subtitle_file("/d/a.en.vtt"));
    assert!(is_subtitle_file("/d/a.srt"));
    assert!(!is_subtitle_file("/d/a.xml"));
    assert_eq!(thumbnail_mime("/d/a.webp"), "image/webp");
    assert_eq!(thumbnail_mime("/d/a.png"), "image/jpeg");
}

#[test]
fn watcher_handles_only_new_finished_videos() {
    assert!(should_handle_event("/d/a.mp4", true, false));
    assert!(!should_handle_event("/d/a.mp4", true, true));
    assert!(!should_handle_event("/d/a.mp4", false, false));
    assert!(!should_handle_event("/d/a.f251.webm", true, false));
    assert!(!should_handle_event("/d/a.jpg", true, false));
    assert!(is_importable("/d/a.mkv", true));
    assert!(!is_importable("/d/a.danmaku.xml", true));
    assert!(!is_importable("/d/a.mkv", false));
}

#[test]
fn subtitle_sidecars_are_matched_by_stem() {
    let entries = vec![
        "/d/show.en.vtt".to_string(),
        "/d/show.mp4".to_string(),
        "/d/show.pt-BR.srt".to_string(),
        "/d/other.en.vtt".to_string(),
        "/d/show.vtt".to_string(),
    ];
    assert_eq!(
        subtitle_sidecars("/d/show.mp4", &entries),
        vec![
            ("en".to_string(), "/d/show.en.vtt".to_string()),
            ("pt-BR".to_string(), "/d/show.pt-BR.srt".to_string()),
        ]
    );
}

#[test]
fn seen_paths_insert_and_remove() {
    let mut seen = SeenPaths::new();
    assert!(!seen.contains("/d/a.mp4"));
    seen.insert("/d/a.mp4");
    seen.insert("/d/a.mp4");
    assert!(seen.contains("/d/a.mp4"));
    seen.remove("/d/a.mp4");
    assert!(!seen.contains("/d/a.mp4"));
}

#[test]
fn handed_off_import_is_discarded_with_its_sidecars() {
    let sidecars = vec![
        ("en".to_string(), "/import/show.en.vtt".to_string()),
        ("de".to_string(), "/import/show.de.srt".to_string()),
    ];
    match after_import(true, "/import/show.mp4", &sidecars) {
        ImportAction::Discard(paths) => assert_eq!(
            paths,
            vec!["/import/show.mp4", "/import/show.en.vtt", "/import/show.de.srt"]
        ),
        ImportAction::Upload => panic!("a handed-off video must not be uploaded"),
    }
    assert!(matches!(after_import(false, "/import/show.mp4", &sidecars), ImportAction::Upload));
    match after_import(true, "/import/solo.mp4", &Vec::new()) {
        ImportAction::Discard(paths) => assert_eq!(paths, vec!["/import/solo.mp4"]),
        ImportAction::Upload => panic!("a handed-off video must not be uploaded"),
    }
}
