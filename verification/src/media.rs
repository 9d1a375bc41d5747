//! Video metadata written by yt-dlp and the PeerTube upload built from it:
//! description text, original publication date, thumbnail choice, MIME type
//! and video title.
use vstd::prelude::*;
use crate::paths::{extension_chars, extension_spec, file_name, file_name_spec, file_stem, file_stem_spec, with_extension, with_extension_spec};
use crate::text::{append_chars, append_str, char_is_ascii_digit, chars_eq_str, chars_of, is_ascii_digit, opt_string_view, string_from_chars, sub_vec};

verus! {

broadcast use vstd::string::group_string_axioms;

/// The fields of a yt-dlp `.info.json` file that the upload uses.
pub struct VideoMeta {
    pub title: Option<String>,
    pub description: Option<String>,
    pub uploader: Option<String>,
    /// yt-dlp format: `YYYYMMDD`.
    pub upload_date: Option<String>,
}

impl Default for VideoMeta {
    fn default() -> (r: VideoMeta)
        ensures
            r.title is None,
            r.description is None,
            r.uploader is None,
            r.upload_date is None,
    {
        VideoMeta { title: None, description: None, uploader: None, upload_date: None }
    }
}

/// The upload description: `Originally uploaded by: {uploader}` and the
/// non-empty description, separated by a blank line.
pub open spec fn description_spec(uploader: Option<Seq<char>>, description: Option<Seq<char>>) -> Seq<
    char,
> {
    let credit = match uploader {
        Some(u) => Some("Originally uploaded by: "@ + u),
        None => None,
    };
    let desc = match description {
        Some(d) => if d.len() > 0 {
            Some(d)
        } else {
            None
        },
        None => None,
    };
    match (credit, desc) {
        (Some(c), Some(d)) => c + "\n\n"@ + d,
        (Some(c), None) => c,
        (None, Some(d)) => d,
        (None, None) => Seq::empty(),
    }
}

/// Builds the PeerTube description from the uploader credit and the original
/// description.
pub fn format_description(meta: &VideoMeta) -> (r: String)
    ensures
        r@ == description_spec(opt_string_view(meta.uploader), opt_string_view(meta.description)),
{
    let mut out: Vec<char> = Vec::new();
    let mut has_credit = false;
    match &meta.uploader {
        Some(u) => {
            append_str(&mut out, "Originally uploaded by: ");
            append_str(&mut out, u.as_str());
            has_credit = true;
        },
        None => {},
    }
    match &meta.description {
        Some(d) => {
            let dv = chars_of(d.as_str());
            if dv.len() > 0 {
                if has_credit {
                    append_str(&mut out, "\n\n");
                }
                append_chars(&mut out, &dv);
            }
        },
        None => {},
    }
    proof {
        assert(Seq::<char>::empty() + "Originally uploaded by: "@ =~= "Originally uploaded by: "@);
        if meta.uploader is None {
            assert(out@ =~= description_spec(
                opt_string_view(meta.uploader),
                opt_string_view(meta.description),
            ));
        }
    }
    string_from_chars(&out)
}

/// `YYYYMMDD` (exactly eight ASCII digits) as an ISO 8601 midnight UTC
/// timestamp `YYYY-MM-DDT00:00:00.000Z`.
pub open spec fn iso_date_spec(date: Seq<char>) -> Option<Seq<char>> {
    if date.len() == 8 && forall|i: int| 0 <= i < 8 ==> is_ascii_digit(#[trigger] date[i]) {
        Some(
            date.take(4) + "-"@ + date.subrange(4, 6) + "-"@ + date.subrange(6, 8)
                + "T00:00:00.000Z"@,
        )
    } else {
        None
    }
}

/// Converts yt-dlp's `upload_date` to the ISO 8601 form PeerTube expects.
pub fn upload_date_to_iso(date: &str) -> (r: Option<String>)
    ensures
        r matches Some(s) ==> iso_date_spec(date@) == Some(s@),
        r is None ==> iso_date_spec(date@) is None,
{
    let d = chars_of(date);
    if d.len() != 8 {
        return None;
    }
    let mut i: usize = 0;
    while i < 8
        invariant
            d.len() == 8,
            d@ == date@,
            i <= 8,
            forall|k: int| 0 <= k < i ==> is_ascii_digit(#[trigger] d@[k]),
        decreases 8 - i,
    {
        if !char_is_ascii_digit(d[i]) {
            assert(!is_ascii_digit(date@[i as int]));
            assert(iso_date_spec(date@) is None);
            return None;
        }
        i = i + 1;
    }
    let mut out = sub_vec(&d, 0, 4);
    append_str(&mut out, "-");
    let mm = sub_vec(&d, 4, 6);
    append_chars(&mut out, &mm);
    append_str(&mut out, "-");
    let dd = sub_vec(&d, 6, 8);
    append_chars(&mut out, &dd);
    append_str(&mut out, "T00:00:00.000Z");
    assert(d@.subrange(0, 4) =~= d@.take(4));
    Some(string_from_chars(&out))
}

/// Thumbnail extensions, in order of preference.
pub open spec fn thumb_exts() -> Seq<Seq<char>> {
    seq!["jpg"@, "jpeg"@, "webp"@, "png"@]
}

/// The paths where a thumbnail of `video` may lie, in order of preference.
pub open spec fn thumbnail_candidates_spec(video: Seq<char>) -> Seq<Seq<char>> {
    thumb_exts().map_values(|e: Seq<char>| with_extension_spec(video, e))
}

/// The video path with each thumbnail extension (`jpg`, `jpeg`, `webp`,
/// `png`), in that order.
pub fn thumbnail_candidates(video_path: &str) -> (r: Vec<String>)
    ensures
        r@.map_values(|s: String| s@) == thumbnail_candidates_spec(video_path@),
{
    let mut r: Vec<String> = Vec::new();
    r.push(with_extension(video_path, "jpg"));
    r.push(with_extension(video_path, "jpeg"));
    r.push(with_extension(video_path, "webp"));
    r.push(with_extension(video_path, "png"));
    assert(r@.map_values(|s: String| s@) =~= thumbnail_candidates_spec(video_path@));
    r
}

/// The first candidate in `candidates` that is among `existing`.
pub open spec fn first_present(candidates: Seq<Seq<char>>, existing: Set<Seq<char>>) -> Option<
    Seq<char>,
>
    decreases candidates.len(),
{
    if candidates.len() == 0 {
        None
    } else if existing.contains(candidates[0]) {
        Some(candidates[0])
    } else {
        first_present(candidates.drop_first(), existing)
    }
}

fn contains_string(set: &Vec<String>, s: &String) -> (r: bool)
    ensures
        r == set@.map_values(|x: String| x@).contains(s@),
{
    let mut i: usize = 0;
    while i < set.len()
        invariant
            i <= set.len(),
            forall|k: int| 0 <= k < i ==> set@[k]@ != s@,
        decreases set.len() - i,
    {
        if set[i] == *s {
            assert(set@.map_values(|x: String| x@)[i as int] == s@);
            return true;
        }
        i = i + 1;
    }
    proof {
        let m = set@.map_values(|x: String| x@);
        if m.contains(s@) {
            let k = choose|k: int| 0 <= k < m.len() && m[k] == s@;
            assert(set@[k]@ == s@);
        }
    }
    false
}

/// The thumbnail of `video_path`: the first of its candidate paths (`jpg`,
/// `jpeg`, `webp`, `png`) that is among the paths known to exist.
pub fn find_thumbnail_path(video_path: &str, existing: &Vec<String>) -> (r: Option<String>)
    ensures
        opt_string_view(r) == first_present(
            thumbnail_candidates_spec(video_path@),
            existing@.map_values(|s: String| s@).to_set(),
        ),
{
    let c = thumbnail_candidates(video_path);
    let ghost ex = existing@.map_values(|s: String| s@).to_set();
    let ghost cv = c@.map_values(|s: String| s@);
    let mut i: usize = 0;
    assert(cv.skip(0) =~= cv);
    while i < c.len()
        invariant
            i <= c.len(),
            cv == c@.map_values(|s: String| s@),
            cv == thumbnail_candidates_spec(video_path@),
            ex == existing@.map_values(|s: String| s@).to_set(),
            first_present(cv, ex) == first_present(cv.skip(i as int), ex),
        decreases c.len() - i,
    {
        let hit = contains_string(existing, &c[i]);
        proof {
            let t = cv.skip(i as int);
            assert(t[0] == c@[i as int]@);
            assert(t.drop_first() =~= cv.skip(i + 1));
        }
        if hit {
            let r = c[i].clone();
            proof {
                let t = cv.skip(i as int);
                assert(ex.contains(cv[i as int]));
                assert(t[0] == cv[i as int]);
                assert(first_present(t, ex) == Some(t[0]));
                assert(r@ == cv[i as int]);
            }
            return Some(r);
        }
        i = i + 1;
    }
    proof {
        assert(cv.skip(c.len() as int) =~= Seq::<Seq<char>>::empty());
    }
    None
}

/// The MIME type sent for an uploaded video, by exact extension.
pub open spec fn mime_spec(p: Seq<char>) -> Seq<char> {
    match extension_spec(p) {
        Some(e) => if e == "mp4"@ {
            "video/mp4"@
        } else if e == "webm"@ {
            "video/webm"@
        } else if e == "mkv"@ {
            "video/x-matroska"@
        } else if e == "mov"@ {
            "video/quicktime"@
        } else if e == "avi"@ {
            "video/x-msvideo"@
        } else {
            "application/octet-stream"@
        },
        None => "application/octet-stream"@,
    }
}

/// MIME type of a video file by its extension; `application/octet-stream`
/// for anything unknown.
pub fn mime_for(path: &str) -> (r: &'static str)
    ensures
        r@ == mime_spec(path@),
{
    let p = chars_of(path);
    match extension_chars(&p) {
        Some(e) => if chars_eq_str(&e, "mp4") {
            "video/mp4"
        } else if chars_eq_str(&e, "webm") {
            "video/webm"
        } else if chars_eq_str(&e, "mkv") {
            "video/x-matroska"
        } else if chars_eq_str(&e, "mov") {
            "video/quicktime"
        } else if chars_eq_str(&e, "avi") {
            "video/x-msvideo"
        } else {
            "application/octet-stream"
        },
        None => "application/octet-stream",
    }
}

/// What a video upload sends besides the file itself.
pub struct UploadPlan {
    /// File name of the uploaded part.
    pub filename: String,
    /// Video title.
    pub title: String,
    pub mime: String,
    /// Description, sent only when not empty.
    pub description: Option<String>,
    /// ISO 8601 original publication date, when the metadata has a valid one.
    pub originally_published_at: Option<String>,
}

/// File name sent for the upload: the path's file name, or `video`.
pub open spec fn upload_filename_spec(path: Seq<char>) -> Seq<char> {
    match file_name_spec(path) {
        Some(n) => n,
        None => "video"@,
    }
}

/// Title of the upload: the metadata title, else the stem of the file name,
/// else the file name.
pub open spec fn upload_title_spec(meta_title: Option<Seq<char>>, path: Seq<char>) -> Seq<char> {
    match meta_title {
        Some(t) => t,
        None => match file_stem_spec(upload_filename_spec(path)) {
            Some(s) => s,
            None => upload_filename_spec(path),
        },
    }
}

/// The title, file name, MIME type, description and publication date of
/// the upload of `file_path` with metadata `meta`.
pub fn plan_upload(file_path: &str, meta: &VideoMeta) -> (r: UploadPlan)
    ensures
        r.filename@ == upload_filename_spec(file_path@),
        r.title@ == upload_title_spec(opt_string_view(meta.title), file_path@),
        r.mime@ == mime_spec(file_path@),
        opt_string_view(r.description) == {
            let d = description_spec(
                opt_string_view(meta.uploader),
                opt_string_view(meta.description),
            );
            if d.len() > 0 {
                Some(d)
            } else {
                None
            }
        },
        opt_string_view(r.originally_published_at) == match meta.upload_date {
            Some(d) => iso_date_spec(d@),
            None => None,
        },
{
    let filename = match file_name(file_path) {
        Some(n) => n,
        None => "video".to_owned(),
    };
    let title = match &meta.title {
        Some(t) => t.clone(),
        None => match file_stem(filename.as_str()) {
            Some(s) => s,
            None => filename.clone(),
        },
    };
    let mime = mime_for(file_path).to_owned();
    let d = format_description(meta);
    let dv = chars_of(d.as_str());
    let description = if dv.len() > 0 {
        Some(d)
    } else {
        None
    };
    let originally_published_at = match &meta.upload_date {
        Some(u) => upload_date_to_iso(u.as_str()),
        None => None,
    };
    UploadPlan { filename, title, mime, description, originally_published_at }
}

/// The preview image path PeerTube serves for an uploaded video.
pub open spec fn preview_path_spec(uuid: Seq<char>) -> Seq<char> {
    "/lazy-static/previews/"@ + uuid + ".jpg"@
}

pub fn preview_path(uuid: &str) -> (r: String)
    ensures
        r@ == preview_path_spec(uuid@),
{
    let mut out = chars_of("/lazy-static/previews/");
    append_str(&mut out, uuid);
    append_str(&mut out, ".jpg");
    string_from_chars(&out)
}

/// The metadata with the stored title filled in when the metadata has none
/// (direct downloads have no `.info.json`).
pub fn with_stored_title(meta: VideoMeta, stored: Option<String>) -> (r: VideoMeta)
    ensures
        r.title == (match meta.title {
            Some(t) => Some(t),
            None => stored,
        }),
        r.description == meta.description,
        r.uploader == meta.uploader,
        r.upload_date == meta.upload_date,
{
    match meta.title {
        Some(_) => meta,
        None => VideoMeta { title: stored, ..meta },
    }
}

/// A video left in the import directory is uploaded again when its newest
/// `imported` or `error` submission (`status`, `peertube_uuid`) exists and
/// has no PeerTube video yet.
pub fn import_retry_needed(row: Option<(String, Option<String>)>) -> (r: bool)
    ensures
        r == (row matches Some((_, u)) && u is None),
{
    match row {
        Some((_, None)) => true,
        _ => false,
    }
}

} // verus!
