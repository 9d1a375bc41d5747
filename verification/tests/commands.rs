use tubemin::commands::{
    ffmpeg_duration_field, ffmpeg_out_time_us, ffmpeg_headers, ffmpeg_hls_args, ffmpeg_subtitle_args, ffmpeg_thumbnail_args, partial_path,
    push_tail, stderr_tail, thumbnail_path, ytdlp_args, ytdlp_scratch, STDERR_TAIL_LINES,
};

fn strings(v: &[&str]) -> Vec<String> {
    v.iter().map(|s| s.to_string()).collect()
}

const UA: &str = "Mozilla/5.0 (Windows NT 10.0; Win64; x64) AppleWebKit/537.36";

#[test]
fn ffmpeg_headers_lines() {
    assert_eq!(ffmpeg_headers(None, None), format!("User-Agent: {UA}\r\n"));
    assert_eq!(
        ffmpeg_headers(Some("https://site.test/"), Some("a=b")),
        format!("User-Agent: {UA}\r\nReferer: https://site.test/\r\nCookie: a=b\r\n")
    );
}

#[test]
fn ytdlp_arguments() {
    let args = ytdlp_args("https://cdn.test/m.m3u8", Some("https://site.test/"), Some("a=b"), "/tmp/w/x.mp4");
    let mut want = strings(&[
        "--concurrent-fragments",
        "8",
        "--user-agent",
        UA,
        "--no-playlist",
        "--force-overwrites",
        "--no-cache-dir",
        "--socket-timeout",
        "30",
        "--retries",
        "5",
        "--fragment-retries",
        "5",
        "--remux-video",
        "mp4",
        "--newline",
        "--progress-template",
        "download:tubemin-frag %(progress.fragment_index)s %(progress.fragment_count)s",
    ]);
    want.extend(strings(&[
        "--referer",
        "https://site.test/",
        "--add-headers",
        "Cookie:a=b",
        "-o",
        "/tmp/w/x.mp4",
        "https://cdn.test/m.m3u8",
    ]));
    assert_eq!(args, want);
    let plain = ytdlp_args("u", None, None, "p");
    assert_eq!(plain[plain.len() - 3..].to_vec(), strings(&["-o", "p", "u"]));
    assert_eq!(plain.len(), 21);
}

#[test]
fn ytdlp_scratch_dir_is_named_after_stem() {
    let s = ytdlp_scratch("/tmp", "/downloads/My Show.mp4");
    assert_eq!(s.work_dir, "/tmp/tubemin-ytdlp/My Show");
    assert_eq!(s.part, "/tmp/tubemin-ytdlp/My Show/My Show.mp4");
}

#[test]
fn ffmpeg_argument_lists() {
    assert_eq!(
        ffmpeg_hls_args("H", "U", "P"),
        strings(&[
            "-y", "-headers", "H", "-i", "U", "-map", "0:V?", "-map", "0:a?", "-c", "copy", "-f",
            "mp4", "-progress", "pipe:1", "P",
        ])
    );
    assert_eq!(
        ffmpeg_subtitle_args("H", "U", "O"),
        strings(&["-y", "-headers", "H", "-i", "U", "-f", "webvtt", "O"])
    );
    assert_eq!(
        ffmpeg_thumbnail_args("S", "T"),
        strings(&["-y", "-ss", "5", "-i", "S", "-vframes", "1", "-q:v", "2", "-update", "1", "T"])
    );
}

#[test]
fn sibling_paths() {
    assert_eq!(thumbnail_path("/downloads/show.mp4"), "/downloads/show.jpg");
    assert_eq!(partial_path("/downloads/show.mp4"), "/downloads/show.tmp");
    assert_eq!(partial_path("/downloads/show"), "/downloads/show.tmp");
}

#[test]
fn stderr_tail_keeps_last_ten_lines() {
    assert_eq!(STDERR_TAIL_LINES, 10);
    let lines: Vec<String> = (0..15).map(|i| format!("line {i}")).collect();
    let tail = stderr_tail(&lines);
    assert_eq!(tail, lines[5..].to_vec());
    let short = strings(&["a", "b"]);
    assert_eq!(stderr_tail(&short), short);

    let mut t: Vec<String> = (0..10).map(|i| i.to_string()).collect();
    push_tail(&mut t, "new".to_string());
    assert_eq!(t.len(), 10);
    assert_eq!(t[0], "1");
    assert_eq!(t[9], "new");
}

#[test]
fn ffmpeg_progress_lines() {
    assert_eq!(ffmpeg_out_time_us("out_time_us=1500000"), Some(1_500_000));
    assert_eq!(ffmpeg_out_time_us("out_time_us= 42 "), Some(42));
    assert_eq!(ffmpeg_out_time_us("out_time_us=N/A"), None);
    assert_eq!(ffmpeg_out_time_us("out_time_ms=10"), None);
    assert_eq!(ffmpeg_out_time_us("out_time_us=18446744073709551616"), None);
    assert_eq!(
        ffmpeg_duration_field("  Duration: 00:01:02.50, start: 0.000000, bitrate: 128 kb/s"),
        Some("00:01:02.50".to_string())
    );
    assert_eq!(ffmpeg_duration_field("Duration: N/A"), Some("N/A".to_string()));
    assert_eq!(ffmpeg_duration_field("Stream #0:0: Video: h264"), None);
}
