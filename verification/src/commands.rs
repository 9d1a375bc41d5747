//! Command lines and request headers of the external downloaders (yt-dlp
//! and ffmpeg) and the bookkeeping of their output.
use vstd::prelude::*;
use crate::paths::{file_name_spec, file_stem_spec, file_name, file_stem, join, join_spec, with_extension, with_extension_spec};
use crate::text::{
    append_str, chars_of, find, find_char, occurs_at, first_index_of, first_occurrence, has_prefix, opt_str_view,
    starts_with, string_from_chars, sub_vec, trim_class, trim_spec,
};
use crate::config::{parse_u64, parse_unsigned_spec};

verus! {

broadcast use vstd::string::group_string_axioms;

/// Browser identity sent to media CDNs.
pub open spec fn user_agent() -> Seq<char> {
    "Mozilla/5.0 (Windows NT 10.0; Win64; x64) AppleWebKit/537.36"@
}

pub open spec fn strings_view(v: Seq<String>) -> Seq<Seq<char>> {
    v.map_values(|s: String| s@)
}

fn push_arg(args: &mut Vec<String>, s: &str)
    ensures
        strings_view(final(args)@) == strings_view(old(args)@).push(s@),
{
    let ghost before = strings_view(args@);
    let a = s.to_owned();
    args.push(a);
    assert(strings_view(args@) =~= before.push(s@));
}

/// The ffmpeg `-headers` value: the user agent, then the referer and cookie
/// when given, each line ending in CRLF.
pub open spec fn ffmpeg_headers_spec(referer: Option<Seq<char>>, cookies: Option<Seq<char>>) -> Seq<
    char,
> {
    "User-Agent: "@ + user_agent() + "\r\n"@ + (match referer {
        Some(r) => "Referer: "@ + r + "\r\n"@,
        None => Seq::empty(),
    }) + (match cookies {
        Some(c) => "Cookie: "@ + c + "\r\n"@,
        None => Seq::empty(),
    })
}

pub fn ffmpeg_headers(referer: Option<&str>, cookies: Option<&str>) -> (r: String)
    ensures
        r@ == ffmpeg_headers_spec(opt_str_view(referer), opt_str_view(cookies)),
{
    let mut v = chars_of("User-Agent: ");
    append_str(&mut v, "Mozilla/5.0 (Windows NT 10.0; Win64; x64) AppleWebKit/537.36");
    append_str(&mut v, "\r\n");
    match referer {
        Some(r) => {
            append_str(&mut v, "Referer: ");
            append_str(&mut v, r);
            append_str(&mut v, "\r\n");
        },
        None => {},
    }
    match cookies {
        Some(c) => {
            append_str(&mut v, "Cookie: ");
            append_str(&mut v, c);
            append_str(&mut v, "\r\n");
        },
        None => {},
    }
    string_from_chars(&v)
}

/// Fixed yt-dlp options: concurrent fragments, timeouts and retries, MP4
/// remuxing, and a machine-readable fragment progress line.
pub open spec fn ytdlp_fixed_args() -> Seq<Seq<char>> {
    seq![
        "--concurrent-fragments"@,
        "8"@,
        "--user-agent"@,
        user_agent(),
        "--no-playlist"@,
        "--force-overwrites"@,
        "--no-cache-dir"@,
        "--socket-timeout"@,
        "30"@,
        "--retries"@,
        "5"@,
        "--fragment-retries"@,
        "5"@,
        "--remux-video"@,
        "mp4"@,
        "--newline"@,
        "--progress-template"@,
        "download:tubemin-frag %(progress.fragment_index)s %(progress.fragment_count)s"@,
    ]
}

/// yt-dlp arguments for an HLS download into `part`.
pub open spec fn ytdlp_args_spec(
    url: Seq<char>,
    referer: Option<Seq<char>>,
    cookies: Option<Seq<char>>,
    part: Seq<char>,
) -> Seq<Seq<char>> {
    ytdlp_fixed_args() + (match referer {
        Some(r) => seq!["--referer"@, r],
        None => Seq::empty(),
    }) + (match cookies {
        Some(c) => seq!["--add-headers"@, "Cookie:"@ + c],
        None => Seq::empty(),
    }) + seq!["-o"@, part, url]
}

pub fn ytdlp_args(url: &str, referer: Option<&str>, cookies: Option<&str>, part: &str) -> (r: Vec<String>)
    ensures
        strings_view(r@) == ytdlp_args_spec(url@, opt_str_view(referer), opt_str_view(cookies), part@),
{
    let mut a: Vec<String> = Vec::new();
    push_arg(&mut a, "--concurrent-fragments");
    push_arg(&mut a, "8");
    push_arg(&mut a, "--user-agent");
    push_arg(&mut a, "Mozilla/5.0 (Windows NT 10.0; Win64; x64) AppleWebKit/537.36");
    push_arg(&mut a, "--no-playlist");
    push_arg(&mut a, "--force-overwrites");
    push_arg(&mut a, "--no-cache-dir");
    push_arg(&mut a, "--socket-timeout");
    push_arg(&mut a, "30");
    push_arg(&mut a, "--retries");
    push_arg(&mut a, "5");
    push_arg(&mut a, "--fragment-retries");
    push_arg(&mut a, "5");
    push_arg(&mut a, "--remux-video");
    push_arg(&mut a, "mp4");
    push_arg(&mut a, "--newline");
    push_arg(&mut a, "--progress-template");
    push_arg(
        &mut a,
        "download:tubemin-frag %(progress.fragment_index)s %(progress.fragment_count)s",
    );
    assert(strings_view(a@) =~= ytdlp_fixed_args());
    let ghost fixed = strings_view(a@);
    match referer {
        Some(r) => {
            push_arg(&mut a, "--referer");
            push_arg(&mut a, r);
        },
        None => {},
    }
    let ghost with_ref = strings_view(a@);
    match cookies {
        Some(c) => {
            push_arg(&mut a, "--add-headers");
            let mut h = chars_of("Cookie:");
            append_str(&mut h, c);
            let hs = string_from_chars(&h);
            push_arg(&mut a, hs.as_str());
        },
        None => {},
    }
    push_arg(&mut a, "-o");
    push_arg(&mut a, part);
    push_arg(&mut a, url);
    assert(strings_view(a@) =~= ytdlp_args_spec(
        url@,
        opt_str_view(referer),
        opt_str_view(cookies),
        part@,
    ));
    a
}

/// Scratch locations of a yt-dlp download of `dest`: the work directory
/// `{tmp}/tubemin-ytdlp/{stem}` and the file written in it.
pub struct YtdlpScratch {
    pub work_dir: String,
    pub part: String,
}

pub open spec fn ytdlp_work_dir_spec(temp_dir: Seq<char>, dest: Seq<char>) -> Seq<char> {
    join_spec(
        join_spec(temp_dir, "tubemin-ytdlp"@),
        match file_stem_spec(dest) {
            Some(s) => s,
            None => "video"@,
        },
    )
}

pub fn ytdlp_scratch(temp_dir: &str, dest: &str) -> (r: YtdlpScratch)
    ensures
        r.work_dir@ == ytdlp_work_dir_spec(temp_dir@, dest@),
        r.part@ == join_spec(
            ytdlp_work_dir_spec(temp_dir@, dest@),
            match file_name_spec(dest@) {
                Some(n) => n,
                None => Seq::empty(),
            },
        ),
{
    let root = join(temp_dir, "tubemin-ytdlp");
    let stem = match file_stem(dest) {
        Some(s) => s,
        None => "video".to_owned(),
    };
    let work_dir = join(root.as_str(), stem.as_str());
    let name = match file_name(dest) {
        Some(n) => n,
        None => String::new(),
    };
    let part = join(work_dir.as_str(), name.as_str());
    YtdlpScratch { work_dir, part }
}

/// ffmpeg arguments that copy an HLS stream's video and audio into an MP4
/// at `part`, reporting progress on standard output.
pub open spec fn ffmpeg_hls_args_spec(headers: Seq<char>, url: Seq<char>, part: Seq<char>) -> Seq<
    Seq<char>,
> {
    seq![
        "-y"@,
        "-headers"@,
        headers,
        "-i"@,
        url,
        "-map"@,
        "0:V?"@,
        "-map"@,
        "0:a?"@,
        "-c"@,
        "copy"@,
        "-f"@,
        "mp4"@,
        "-progress"@,
        "pipe:1"@,
        part,
    ]
}

pub fn ffmpeg_hls_args(headers: &str, url: &str, part: &str) -> (r: Vec<String>)
    ensures
        strings_view(r@) == ffmpeg_hls_args_spec(headers@, url@, part@),
{
    let mut a: Vec<String> = Vec::new();
    push_arg(&mut a, "-y");
    push_arg(&mut a, "-headers");
    push_arg(&mut a, headers);
    push_arg(&mut a, "-i");
    push_arg(&mut a, url);
    push_arg(&mut a, "-map");
    push_arg(&mut a, "0:V?");
    push_arg(&mut a, "-map");
    push_arg(&mut a, "0:a?");
    push_arg(&mut a, "-c");
    push_arg(&mut a, "copy");
    push_arg(&mut a, "-f");
    push_arg(&mut a, "mp4");
    push_arg(&mut a, "-progress");
    push_arg(&mut a, "pipe:1");
    push_arg(&mut a, part);
    assert(strings_view(a@) =~= ffmpeg_hls_args_spec(headers@, url@, part@));
    a
}

/// ffmpeg arguments that convert one subtitle playlist to WebVTT at `out`.
pub open spec fn ffmpeg_subtitle_args_spec(headers: Seq<char>, url: Seq<char>, out: Seq<char>) -> Seq<
    Seq<char>,
> {
    seq!["-y"@, "-headers"@, headers, "-i"@, url, "-f"@, "webvtt"@, out]
}

pub fn ffmpeg_subtitle_args(headers: &str, url: &str, out: &str) -> (r: Vec<String>)
    ensures
        strings_view(r@) == ffmpeg_subtitle_args_spec(headers@, url@, out@),
{
    let mut a: Vec<String> = Vec::new();
    push_arg(&mut a, "-y");
    push_arg(&mut a, "-headers");
    push_arg(&mut a, headers);
    push_arg(&mut a, "-i");
    push_arg(&mut a, url);
    push_arg(&mut a, "-f");
    push_arg(&mut a, "webvtt");
    push_arg(&mut a, out);
    assert(strings_view(a@) =~= ffmpeg_subtitle_args_spec(headers@, url@, out@));
    a
}

/// The thumbnail of a download: a JPEG named after the final file.
pub fn thumbnail_path(dest: &str) -> (r: String)
    ensures
        r@ == with_extension_spec(dest@, "jpg"@),
{
    with_extension(dest, "jpg")
}

/// The name a download is written under until it is complete.
pub fn partial_path(dest: &str) -> (r: String)
    ensures
        r@ == with_extension_spec(dest@, "tmp"@),
{
    with_extension(dest, "tmp")
}

/// ffmpeg arguments that grab one frame five seconds into `src` as the
/// JPEG thumbnail `thumb`.
pub open spec fn ffmpeg_thumbnail_args_spec(src: Seq<char>, thumb: Seq<char>) -> Seq<Seq<char>> {
    seq!["-y"@, "-ss"@, "5"@, "-i"@, src, "-vframes"@, "1"@, "-q:v"@, "2"@, "-update"@, "1"@, thumb]
}

pub fn ffmpeg_thumbnail_args(src: &str, thumb: &str) -> (r: Vec<String>)
    ensures
        strings_view(r@) == ffmpeg_thumbnail_args_spec(src@, thumb@),
{
    let mut a: Vec<String> = Vec::new();
    push_arg(&mut a, "-y");
    push_arg(&mut a, "-ss");
    push_arg(&mut a, "5");
    push_arg(&mut a, "-i");
    push_arg(&mut a, src);
    push_arg(&mut a, "-vframes");
    push_arg(&mut a, "1");
    push_arg(&mut a, "-q:v");
    push_arg(&mut a, "2");
    push_arg(&mut a, "-update");
    push_arg(&mut a, "1");
    push_arg(&mut a, thumb);
    assert(strings_view(a@) =~= ffmpeg_thumbnail_args_spec(src@, thumb@));
    a
}

// ---------------------------------------------------------------------------
// Error output of a failed downloader
// ---------------------------------------------------------------------------

/// How many lines of a downloader's error output are kept.
pub const STDERR_TAIL_LINES: usize = 10;

/// Adds a line of error output, dropping the oldest line when
/// `STDERR_TAIL_LINES` are already kept.
pub fn push_tail(tail: &mut Vec<String>, line: String)
    ensures
        final(tail)@ == (if old(tail)@.len() >= STDERR_TAIL_LINES {
            old(tail)@.drop_first()
        } else {
            old(tail)@
        }).push(line),
{
    if tail.len() >= STDERR_TAIL_LINES {
        tail.remove(0);
    }
    tail.push(line);
}

/// The last `STDERR_TAIL_LINES` lines, or all of them when there are fewer.
pub open spec fn last_lines(lines: Seq<String>) -> Seq<String> {
    if lines.len() > STDERR_TAIL_LINES {
        lines.skip(lines.len() - STDERR_TAIL_LINES)
    } else {
        lines
    }
}

/// Feeding lines one by one through `push_tail` keeps exactly the last
/// `STDERR_TAIL_LINES` of them.
pub proof fn lemma_tail_keeps_last_lines(lines: Seq<String>, line: String)
    ensures
        (if last_lines(lines).len() >= STDERR_TAIL_LINES {
            last_lines(lines).drop_first()
        } else {
            last_lines(lines)
        }).push(line) == last_lines(lines.push(line)),
{
    let t = last_lines(lines);
    let n = lines.len();
    if n > STDERR_TAIL_LINES {
        assert(t.drop_first().push(line) =~= lines.push(line).skip(n + 1 - STDERR_TAIL_LINES));
    } else if n == STDERR_TAIL_LINES {
        assert(t.drop_first().push(line) =~= lines.push(line).skip(1));
    } else {
        assert(t.push(line) =~= lines.push(line));
    }
}

/// The tail kept of a whole error output.
pub fn stderr_tail(lines: &Vec<String>) -> (r: Vec<String>)
    ensures
        r@ == last_lines(lines@),
{
    let mut tail: Vec<String> = Vec::new();
    let mut i: usize = 0;
    assert(lines@.take(0) =~= Seq::<String>::empty());
    while i < lines.len()
        invariant
            i <= lines.len(),
            tail@ == last_lines(lines@.take(i as int)),
        decreases lines.len() - i,
    {
        let line = lines[i].clone();
        proof {
            lemma_tail_keeps_last_lines(lines@.take(i as int), line);
            assert(lines@.take(i as int).push(line) =~= lines@.take(i + 1));
        }
        push_tail(&mut tail, line);
        i = i + 1;
    }
    assert(lines@.take(lines.len() as int) =~= lines@);
    tail
}

// ---------------------------------------------------------------------------
// ffmpeg progress output
// ---------------------------------------------------------------------------

/// The microseconds written so far, from an ffmpeg `-progress` line
/// `out_time_us=<n>`.
pub open spec fn out_time_us_spec(line: Seq<char>) -> Option<nat> {
    if has_prefix(line, "out_time_us="@) {
        parse_unsigned_spec(trim_spec(line.skip(12)), u64::MAX as nat)
    } else {
        None
    }
}

pub fn ffmpeg_out_time_us(line: &str) -> (r: Option<u64>)
    ensures
        r matches Some(v) ==> out_time_us_spec(line@) == Some(v as nat),
        r is None ==> out_time_us_spec(line@) is None,
{
    proof {
        reveal_strlit("out_time_us=");
    }
    let v = chars_of(line);
    if !starts_with(&v, "out_time_us=") {
        return None;
    }
    let rest = sub_vec(&v, 12, v.len());
    assert(rest@ =~= line@.skip(12));
    let t = trim_class(&rest, false);
    let ts = string_from_chars(&t);
    parse_u64(ts.as_str())
}

/// The duration field of an ffmpeg log line: the text after `Duration:` (up
/// to a further `Duration:`), trimmed, up to its first comma, trimmed again.
pub open spec fn duration_field_spec(line: Seq<char>) -> Option<Seq<char>> {
    match first_occurrence(line, "Duration:"@) {
        Some(i) => {
            let after = line.skip(i + 9);
            let seg = match first_occurrence(after, "Duration:"@) {
                Some(j) => after.take(j),
                None => after,
            };
            let t = trim_spec(seg);
            let f = match first_index_of(t, ',') {
                Some(k) => t.take(k),
                None => t,
            };
            Some(trim_spec(f))
        },
        None => None,
    }
}

pub fn ffmpeg_duration_field(line: &str) -> (r: Option<String>)
    ensures
        r matches Some(f) ==> duration_field_spec(line@) == Some(f@),
        r is None ==> duration_field_spec(line@) is None,
{
    proof {
        reveal_strlit("Duration:");
    }
    let v = chars_of(line);
    let pat = chars_of("Duration:");
    let found = find(&v, &pat);
    let start = match found {
        Some(i) => {
            assert(occurs_at(v@, pat@, i as int));
            assert(i + pat@.len() <= v@.len());
            assert(v@.len() == v.len());
            assert(pat@.len() == pat.len());
            i + pat.len()
        },
        None => return None,
    };
    assert(pat@.len() == 9);
    let after = sub_vec(&v, start, v.len());
    assert(after@ =~= line@.skip(start as int));
    let seg = match find(&after, &pat) {
        Some(j) => {
            let s = sub_vec(&after, 0, j);
            assert(s@ =~= after@.take(j as int));
            s
        },
        None => after,
    };
    let t = trim_class(&seg, false);
    let f = match find_char(&t, ',') {
        Some(k) => {
            let s = sub_vec(&t, 0, k);
            assert(s@ =~= t@.take(k as int));
            s
        },
        None => t,
    };
    let r = trim_class(&f, false);
    Some(string_from_chars(&r))
}

} // verus!
