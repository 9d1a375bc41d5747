use tubemin::download::{
    choose_dest, dest_candidate, extract_attr, parse_media_line, parse_subtitle_tracks, plan_download,
    resolve_track_uri, sanitize_name, sidecar_vtt_path,
};

#[test]
fn sanitize_keeps_unicode() {
    assert_eq!(sanitize_name("My Show S01E05 [1080p]"), "My Show S01E05 [1080p]");
    assert_eq!(sanitize_name("My Video (2024)"), "My Video (2024)");
    assert_eq!(sanitize_name("  hello  "), "hello");
    assert_eq!(sanitize_name("file/with\\bad:chars"), "file_with_bad_chars");
    assert_eq!(sanitize_name("한국 드라마 EP01"), "한국 드라마 EP01");
}

#[test]
fn sanitize_removes_null_byte() {
    assert_eq!(sanitize_name("hello\0world"), "hello_world");
}

#[test]
fn sanitize_replaces_every_reserved_character() {
    assert_eq!(sanitize_name("a*b?c\"d<e>f|g"), "a_b_c_d_e_f_g");
    assert_eq!(sanitize_name("\t tab \n"), "tab");
    assert_eq!(sanitize_name("   "), "");
}

#[test]
fn plan_download_detects_manifests_and_uses_title() {
    let p = plan_download("https://cdn.example.com/live/master.m3u8?token=abc", Some("My: Show"));
    assert_eq!(p.url_path, "https://cdn.example.com/live/master.m3u8");
    assert!(p.is_manifest);
    assert_eq!(p.base, "My_ Show");

    let d = plan_download("https://cdn.example.com/a/stream.mpd", None);
    assert!(d.is_manifest);
    assert_eq!(d.base, "stream");
}

#[test]
fn plan_download_falls_back_to_url_segment() {
    let p = plan_download("https://example.com/videos/clip.final.mp4?x=1", Some("  "));
    assert!(!p.is_manifest);
    assert_eq!(p.url_path, "https://example.com/videos/clip.final.mp4");
    assert_eq!(p.base, "clip");

    let q = plan_download("https://example.com/videos/clip.mp4", None);
    assert_eq!(q.base, "clip");
}

#[test]
fn dest_candidate_numbers_from_two() {
    assert_eq!(dest_candidate("/downloads", "show", ".mp4", 1), "/downloads/show.mp4");
    assert_eq!(dest_candidate("/downloads", "show", ".mp4", 2), "/downloads/show (2).mp4");
    assert_eq!(dest_candidate("/downloads/", "show", ".mp4", 13), "/downloads/show (13).mp4");
}

#[test]
fn sidecar_vtt_path_names_language() {
    assert_eq!(sidecar_vtt_path("/downloads", "show", "en"), "/downloads/show.en.vtt");
}

#[test]
fn extract_attr_reads_quoted_and_bare_values() {
    let line = "#EXT-X-MEDIA:TYPE=SUBTITLES,GROUP-ID=\"subs\",LANGUAGE=\"en\",URI=\"sub/en.m3u8\"";
    assert_eq!(extract_attr(line, "LANGUAGE"), Some("en".to_string()));
    assert_eq!(extract_attr(line, "URI"), Some("sub/en.m3u8".to_string()));
    assert_eq!(extract_attr(line, "TYPE"), Some("SUBTITLES".to_string()));
    assert_eq!(extract_attr(line, "NAME"), None);
    assert_eq!(extract_attr("URI=\"unterminated", "URI"), None);
    assert_eq!(extract_attr("A=1\r\n", "A"), Some("1".to_string()));
}

#[test]
fn media_line_defaults_language_to_und() {
    assert_eq!(
        parse_media_line("  #EXT-X-MEDIA:TYPE=SUBTITLES,URI=\"https://x.test/s.m3u8\"  "),
        Some(("und".to_string(), "https://x.test/s.m3u8".to_string()))
    );
    assert_eq!(parse_media_line("#EXT-X-MEDIA:TYPE=AUDIO,URI=\"a.m3u8\""), None);
    assert_eq!(parse_media_line("#EXT-X-MEDIA:TYPE=SUBTITLES,LANGUAGE=\"fr\""), None);
}

#[test]
fn resolve_track_uri_keeps_absolute_urls() {
    assert_eq!(
        resolve_track_uri("https://a.test/x.m3u8", None),
        Some("https://a.test/x.m3u8".to_string())
    );
    assert_eq!(
        resolve_track_uri("x.m3u8", Some("https://b.test/x.m3u8".to_string())),
        Some("https://b.test/x.m3u8".to_string())
    );
    assert_eq!(resolve_track_uri("x.m3u8", None), None);
}

#[test]
fn subtitle_tracks_resolve_relative_uris() {
    let playlist = "#EXTM3U\n\
#EXT-X-MEDIA:TYPE=SUBTITLES,GROUP-ID=\"subs\",LANGUAGE=\"en\",URI=\"sub/en.m3u8\"\r\n\
#EXT-X-MEDIA:TYPE=SUBTITLES,LANGUAGE=\"de\",URI=\"https://other.test/de.m3u8\"\n\
#EXT-X-MEDIA:TYPE=AUDIO,LANGUAGE=\"en\",URI=\"audio.m3u8\"\n\
#EXT-X-STREAM-INF:BANDWIDTH=1000\n\
video.m3u8";
    let tracks = parse_subtitle_tracks(playlist, "https://cdn.example.com/path/master.m3u8");
    assert_eq!(
        tracks,
        vec![
            ("en".to_string(), "https://cdn.example.com/path/sub/en.m3u8".to_string()),
            ("de".to_string(), "https://other.test/de.m3u8".to_string()),
        ]
    );
}

#[test]
fn subtitle_tracks_skip_unresolvable_relative_uris() {
    let playlist = "#EXT-X-MEDIA:TYPE=SUBTITLES,LANGUAGE=\"en\",URI=\"sub/en.m3u8\"";
    assert!(parse_subtitle_tracks(playlist, "not a url").is_empty());
}

#[test]
fn destination_is_first_free_candidate() {
    let none: Vec<String> = Vec::new();
    assert_eq!(choose_dest("/downloads", "show", ".mp4", &none), "/downloads/show.mp4");
    let taken = vec![
        "/downloads/show.mp4".to_string(),
        "/downloads/other.mp4".to_string(),
        "/downloads/show (2).mp4".to_string(),
    ];
    assert_eq!(choose_dest("/downloads", "show", ".mp4", &taken), "/downloads/show (3).mp4");
    let gap = vec!["/downloads/show.mp4".to_string(), "/downloads/show (3).mp4".to_string()];
    assert_eq!(choose_dest("/downloads", "show", ".mp4", &gap), "/downloads/show (2).mp4");
}
