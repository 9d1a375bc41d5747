//! Classification of the files that downloaders leave in the downloads
//! directory: finished videos, in-progress fragments, thumbnails and subtitle
//! sidecars, and the bookkeeping of which paths the watcher is handling.
use vstd::prelude::*;
use crate::paths::{extension_chars, extension_spec, file_name_chars, file_name_spec, file_stem_chars, file_stem_spec};
use crate::text::{
    append_chars, ascii_lower_seq, chars_eq_str, chars_of, ends_with, has_prefix, has_suffix,
    is_ascii_digit, last_index_of, occurs_at_exec, rfind_char, starts_with, string_from_chars,
    sub_vec, to_ascii_lower, char_is_ascii_digit,
};

verus! {

broadcast use vstd::string::group_string_axioms;

pub open spec fn ext_or_empty(p: Seq<char>) -> Seq<char> {
    match extension_spec(p) {
        Some(e) => e,
        None => Seq::empty(),
    }
}

pub open spec fn is_subtitle_ext(e: Seq<char>) -> bool {
    e == "vtt"@ || e == "srt"@ || e == "ass"@ || e == "ssa"@ || e == "sub"@
}

pub open spec fn is_image_ext(e: Seq<char>) -> bool {
    e == "jpg"@ || e == "jpeg"@ || e == "webp"@ || e == "png"@
}

pub open spec fn is_video_ext(e: Seq<char>) -> bool {
    let l = ascii_lower_seq(e);
    l == "mp4"@ || l == "webm"@ || l == "mkv"@ || l == "mov"@ || l == "avi"@
}

/// The path has an extension and it names a subtitle format.
pub open spec fn is_subtitle_path(p: Seq<char>) -> bool {
    match extension_spec(p) {
        Some(e) => is_subtitle_ext(e),
        None => false,
    }
}

/// The path has an extension and it names an image format.
pub open spec fn is_image_path(p: Seq<char>) -> bool {
    match extension_spec(p) {
        Some(e) => is_image_ext(e),
        None => false,
    }
}

/// The path has an extension that names, in any ASCII case, a video format
/// PeerTube accepts.
pub open spec fn is_video_path(p: Seq<char>) -> bool {
    match extension_spec(p) {
        Some(e) => is_video_ext(e),
        None => false,
    }
}

/// `f` followed by ASCII digits only: a yt-dlp format fragment id.
pub open spec fn is_fragment_id(e: Seq<char>) -> bool {
    e.len() > 0 && e[0] == 'f' && forall|k: int| 1 <= k < e.len() ==> is_ascii_digit(#[trigger] e[k])
}

/// A file that a downloader is still writing: a partial, a fragment, a
/// metadata file, or an in-progress `.temp.` file.
pub open spec fn is_temp_path(p: Seq<char>) -> bool {
    let ext = ext_or_empty(p);
    let stem = match file_stem_spec(p) {
        Some(s) => s,
        None => Seq::empty(),
    };
    ||| ext == "part"@
    ||| ext == "ytdl"@
    ||| ext == "tmp"@
    ||| ext == "json"@
    ||| has_prefix(ext, "part-"@)
    ||| has_suffix(stem, ".temp"@)
    ||| match extension_spec(stem) {
        Some(se) => is_fragment_id(se),
        None => false,
    }
}

fn ext_chars_or_empty(v: &Vec<char>) -> (r: Vec<char>)
    ensures
        r@ == ext_or_empty(v@),
{
    match extension_chars(v) {
        Some(e) => e,
        None => Vec::new(),
    }
}

/// Whether the path is a subtitle sidecar (`vtt`, `srt`, `ass`, `ssa`, `sub`).
pub fn is_subtitle_file(path: &str) -> (b: bool)
    ensures
        b == is_subtitle_path(path@),
{
    let p = chars_of(path);
    match extension_chars(&p) {
        Some(e) => chars_eq_str(&e, "vtt") || chars_eq_str(&e, "srt") || chars_eq_str(&e, "ass")
            || chars_eq_str(&e, "ssa") || chars_eq_str(&e, "sub"),
        None => false,
    }
}

/// Whether the path is a thumbnail image (`jpg`, `jpeg`, `webp`, `png`).
pub fn is_image_file(path: &str) -> (b: bool)
    ensures
        b == is_image_path(path@),
{
    let p = chars_of(path);
    match extension_chars(&p) {
        Some(e) => chars_eq_str(&e, "jpg") || chars_eq_str(&e, "jpeg") || chars_eq_str(&e, "webp")
            || chars_eq_str(&e, "png"),
        None => false,
    }
}

/// Whether PeerTube can receive the file as a video upload: its extension is
/// `mp4`, `webm`, `mkv`, `mov` or `avi` in any ASCII case.
pub fn is_video_file(path: &str) -> (b: bool)
    ensures
        b == is_video_path(path@),
        b <==> (extension_spec(path@) matches Some(e) && {
            let l = ascii_lower_seq(e);
            l == "mp4"@ || l == "webm"@ || l == "mkv"@ || l == "mov"@ || l == "avi"@
        }),
{
    let p = chars_of(path);
    match extension_chars(&p) {
        Some(e) => {
            let l = to_ascii_lower(&e);
            chars_eq_str(&l, "mp4") || chars_eq_str(&l, "webm") || chars_eq_str(&l, "mkv")
                || chars_eq_str(&l, "mov") || chars_eq_str(&l, "avi")
        },
        None => false,
    }
}

fn is_fragment_id_exec(e: &Vec<char>) -> (b: bool)
    ensures
        b == is_fragment_id(e@),
{
    if e.len() == 0 || e[0] != 'f' {
        return false;
    }
    let mut k: usize = 1;
    while k < e.len()
        invariant
            1 <= k <= e.len(),
            forall|j: int| 1 <= j < k ==> is_ascii_digit(#[trigger] e@[j]),
        decreases e.len() - k,
    {
        if !char_is_ascii_digit(e[k]) {
            return false;
        }
        k = k + 1;
    }
    true
}

/// Whether a downloader is still writing the file (or it is a metadata
/// file): extensions `part`, `ytdl`, `tmp`, `json`, `part-*`; a stem ending in
/// `.temp`; or a stem whose own extension is a format fragment id such as
/// `f251`.
pub fn is_temp_file(path: &str) -> (b: bool)
    ensures
        b == is_temp_path(path@),
{
    let p = chars_of(path);
    let ext = ext_chars_or_empty(&p);
    if chars_eq_str(&ext, "part") || chars_eq_str(&ext, "ytdl") || chars_eq_str(&ext, "tmp")
        || chars_eq_str(&ext, "json") {
        return true;
    }
    if starts_with(&ext, "part-") {
        return true;
    }
    let stem = match file_stem_chars(&p) {
        Some(s) => s,
        None => Vec::new(),
    };
    if ends_with(&stem, ".temp") {
        return true;
    }
    match extension_chars(&stem) {
        Some(se) => is_fragment_id_exec(&se),
        None => false,
    }
}

/// MIME type of a thumbnail: `image/webp` for a `webp` extension, otherwise
/// `image/jpeg`.
pub open spec fn thumbnail_mime_spec(p: Seq<char>) -> Seq<char> {
    if extension_spec(p) == Some("webp"@) {
        "image/webp"@
    } else {
        "image/jpeg"@
    }
}

pub fn thumbnail_mime(thumb_path: &str) -> (r: String)
    ensures
        r@ == thumbnail_mime_spec(thumb_path@),
{
    let p = chars_of(thumb_path);
    let webp = match extension_chars(&p) {
        Some(e) => chars_eq_str(&e, "webp"),
        None => false,
    };
    if webp {
        "image/webp".to_owned()
    } else {
        "image/jpeg".to_owned()
    }
}

/// A finished download in a video format is imported: every path that is
/// not a temp file and whose extension, ASCII-lowercased, is `mp4`, `webm`,
/// `mkv`, `mov` or `avi` is a video, and the watcher handles an event for it
/// (when it is a regular file not already being handled) and may import it.
pub proof fn lemma_finished_videos_are_imported(p: Seq<char>, e: Seq<char>)
    requires
        extension_spec(p) == Some(e),
        ascii_lower_seq(e) == "mp4"@ || ascii_lower_seq(e) == "webm"@ || ascii_lower_seq(e)
            == "mkv"@ || ascii_lower_seq(e) == "mov"@ || ascii_lower_seq(e) == "avi"@,
        !is_temp_path(p),
    ensures
        is_video_path(p),
        importable(p, true),
        handles_event(p, true, false),
{
    reveal_strlit("mp4");
    reveal_strlit("webm");
    reveal_strlit("mkv");
    reveal_strlit("mov");
    reveal_strlit("avi");
    reveal_strlit("vtt");
    reveal_strlit("srt");
    reveal_strlit("ass");
    reveal_strlit("ssa");
    reveal_strlit("sub");
    reveal_strlit("jpg");
    reveal_strlit("jpeg");
    reveal_strlit("webp");
    reveal_strlit("png");
    let l = ascii_lower_seq(e);
    if is_image_ext(e) || is_subtitle_ext(e) {
        assert forall|k: int| 0 <= k < e.len() implies #[trigger] l[k] == e[k] by {
            assert(l[k] == crate::text::ascii_lower(e[k]));
            assert(!crate::text::is_ascii_upper(e[k]));
        }
        assert(l =~= e);
        assert(l[0] == e[0] && l[1] == e[1] && l[2] == e[2]);
        if l.len() == 4 {
            assert(l[3] == e[3]);
        }
        if l == "mp4"@ {
            assert(l[0] == 'm' && l[1] == 'p' && l[2] == '4');
        } else if l == "webm"@ {
            assert(l[0] == 'w' && l[3] == 'm');
        } else if l == "mkv"@ {
            assert(l[0] == 'm');
        } else if l == "mov"@ {
            assert(l[0] == 'm');
        } else {
            assert(l[0] == 'a' && l[1] == 'v');
        }
        if e == "jpg"@ {
            assert(e[0] == 'j');
        } else if e == "jpeg"@ {
            assert(e[0] == 'j');
        } else if e == "webp"@ {
            assert(e[3] == 'p');
        } else if e == "png"@ {
            assert(e[0] == 'p');
        } else if e == "vtt"@ {
            assert(e[0] == 'v');
        } else if e == "srt"@ {
            assert(e[0] == 's');
        } else if e == "ass"@ {
            assert(e[1] == 's');
        } else if e == "ssa"@ {
            assert(e[0] == 's');
        } else {
            assert(e[0] == 's');
        }
    }
}

/// The watcher only takes finished videos: an event it handles, and a file
/// it imports, is a regular file that is not a temp file and whose
/// extension, ASCII-lowercased, is `mp4`, `webm`, `mkv`, `mov` or `avi`; a
/// handled event is not already being handled, nor an image or a subtitle.
pub proof fn lemma_watcher_takes_only_finished_videos(p: Seq<char>, is_file: bool, seen: bool)
    ensures
        handles_event(p, is_file, seen) ==> !seen && importable(p, is_file) && !is_image_path(p)
            && !is_subtitle_path(p),
        importable(p, is_file) ==> is_file && !is_temp_path(p) && (extension_spec(p) matches Some(e)
            && {
            let l = ascii_lower_seq(e);
            l == "mp4"@ || l == "webm"@ || l == "mkv"@ || l == "mov"@ || l == "avi"@
        }),
{
}

/// Files a downloader is still writing are temp files, whatever else they
/// look like: partials (`.part`, `.part-N`), yt-dlp's `.ytdl`, `.tmp` and
/// `.json` files, `*.temp.*` files and format fragments such as
/// `video.f251.webm`.
pub proof fn lemma_unfinished_downloads_are_temp(p: Seq<char>)
    ensures
        extension_spec(p) matches Some(e) && (e == "part"@ || e == "ytdl"@ || e == "tmp"@ || e
            == "json"@ || has_prefix(e, "part-"@)) ==> is_temp_path(p),
        file_stem_spec(p) matches Some(stem) && has_suffix(stem, ".temp"@) ==> is_temp_path(p),
        file_stem_spec(p) matches Some(stem) && extension_spec(stem) matches Some(f) && f.len() > 0
            && f[0] == 'f' && (forall|k: int| 1 <= k < f.len() ==> is_ascii_digit(#[trigger] f[k]))
            ==> is_temp_path(p),
{
}

/// A watcher event is handled when it names an existing regular file that is
/// a finished video (not a temp file, image or subtitle) and that is not
/// already being handled.
pub open spec fn handles_event(p: Seq<char>, is_file: bool, seen: bool) -> bool {
    is_file && !is_temp_path(p) && !is_image_path(p) && !is_subtitle_path(p) && is_video_path(p)
        && !seen
}

/// A file may be moved into the import directory only when it is an existing
/// regular file, a video, and not a temp file.
pub open spec fn importable(p: Seq<char>, is_file: bool) -> bool {
    is_file && !is_temp_path(p) && is_video_path(p)
}

pub fn should_handle_event(path: &str, is_file: bool, seen: bool) -> (b: bool)
    ensures
        b == handles_event(path@, is_file, seen),
{
    is_file && !is_temp_file(path) && !is_image_file(path) && !is_subtitle_file(path)
        && is_video_file(path) && !seen
}

pub fn is_importable(path: &str, is_file: bool) -> (b: bool)
    ensures
        b == importable(path@, is_file),
{
    is_file && !is_temp_file(path) && is_video_file(path)
}

/// Sidecar language of `entry` for a video with stem `stem`: the entry is a
/// subtitle file named `{stem}.{lang}.{ext}` with a non-empty `lang`.
pub open spec fn sidecar_lang_spec(stem: Seq<char>, entry: Seq<char>) -> Option<Seq<char>> {
    if !is_subtitle_path(entry) {
        None
    } else {
        match file_name_spec(entry) {
            Some(name) => {
                let prefix = stem.push('.');
                if !has_prefix(name, prefix) {
                    None
                } else {
                    let rest = name.skip(prefix.len() as int);
                    match last_index_of(rest, '.') {
                        Some(dot) => if dot > 0 {
                            Some(rest.take(dot))
                        } else {
                            None
                        },
                        None => None,
                    }
                }
            },
            None => None,
        }
    }
}

/// Sidecars of a video among directory entries, as `(lang, path)` pairs in
/// entry order.
pub open spec fn sidecars_spec(stem: Seq<char>, entries: Seq<Seq<char>>) -> Seq<
    (Seq<char>, Seq<char>),
>
    decreases entries.len(),
{
    if entries.len() == 0 {
        Seq::empty()
    } else {
        let prev = sidecars_spec(stem, entries.drop_last());
        match sidecar_lang_spec(stem, entries.last()) {
            Some(l) => prev.push((l, entries.last())),
            None => prev,
        }
    }
}

/// A subtitle sidecar as the watcher reports it for a video with stem
/// `stem`: its extension is `vtt`, `srt`, `ass`, `ssa` or `sub`, its language
/// is not empty, and its file name starts with the stem and a dot.
pub open spec fn is_reported_sidecar(stem: Seq<char>, lang: Seq<char>, path: Seq<char>) -> bool {
    &&& extension_spec(path) matches Some(e) && (e == "vtt"@ || e == "srt"@ || e == "ass"@ || e
        == "ssa"@ || e == "sub"@)
    &&& lang.len() > 0
    &&& file_name_spec(path) matches Some(name) && has_prefix(name, stem.push('.'))
}

/// Every sidecar reported for a video is a subtitle file among the
/// directory entries, named after the video, with a language: metadata,
/// thumbnails and other files next to the video are never reported.
pub proof fn lemma_sidecars_are_subtitles(stem: Seq<char>, entries: Seq<Seq<char>>)
    ensures
        forall|i: int|
            0 <= i < sidecars_spec(stem, entries).len() ==> is_reported_sidecar(
                stem,
                (#[trigger] sidecars_spec(stem, entries)[i]).0,
                sidecars_spec(stem, entries)[i].1,
            ) && entries.contains(sidecars_spec(stem, entries)[i].1),
    decreases entries.len(),
{
    reveal_strlit("vtt");
    reveal_strlit("srt");
    reveal_strlit("ass");
    reveal_strlit("ssa");
    reveal_strlit("sub");
    if entries.len() > 0 {
        let prev_entries = entries.drop_last();
        lemma_sidecars_are_subtitles(stem, prev_entries);
        let prev = sidecars_spec(stem, prev_entries);
        let cur = sidecars_spec(stem, entries);
        assert forall|i: int| 0 <= i < cur.len() implies is_reported_sidecar(
            stem,
            (#[trigger] cur[i]).0,
            cur[i].1,
        ) && entries.contains(cur[i].1) by {
            if i < prev.len() {
                assert(cur[i] == prev[i]);
                let k = choose|k: int| 0 <= k < prev_entries.len() && prev_entries[k] == prev[i].1;
                assert(entries[k] == prev_entries[k]);
            } else {
                let last = entries.last();
                assert(entries[entries.len() - 1] == last);
                match sidecar_lang_spec(stem, last) {
                    Some(l) => {
                        assert(cur[i] == (l, last));
                        let name = file_name_spec(last)->0;
                        let rest = name.skip(stem.push('.').len() as int);
                        let dot = last_index_of(rest, '.')->0;
                        assert(l == rest.take(dot));
                        assert(l.len() > 0);
                    },
                    None => {},
                }
            }
        }
    }
}

pub open spec fn subtitle_sidecars_spec(video: Seq<char>, entries: Seq<Seq<char>>) -> Seq<
    (Seq<char>, Seq<char>),
> {
    match file_stem_spec(video) {
        Some(stem) => sidecars_spec(stem, entries),
        None => Seq::empty(),
    }
}

fn sidecar_lang(stem: &Vec<char>, entry: &str) -> (r: Option<Vec<char>>)
    ensures
        r matches Some(l) ==> sidecar_lang_spec(stem@, entry@) == Some(l@),
        r is None ==> sidecar_lang_spec(stem@, entry@) is None,
{
    if !is_subtitle_file(entry) {
        return None;
    }
    let e = chars_of(entry);
    let name = match file_name_chars(&e) {
        Some(n) => n,
        None => return None,
    };
    let mut prefix: Vec<char> = Vec::new();
    append_chars(&mut prefix, stem);
    prefix.push('.');
    if !occurs_at_exec(&name, &prefix, 0) {
        return None;
    }
    let rest = sub_vec(&name, prefix.len(), name.len());
    assert(rest@ =~= name@.skip(prefix.len() as int));
    match rfind_char(&rest, '.') {
        Some(dot) => if dot > 0 {
            let l = sub_vec(&rest, 0, dot);
            assert(l@ =~= rest@.take(dot as int));
            Some(l)
        } else {
            None
        },
        None => None,
    }
}

/// Subtitle sidecars of `video_path` among the entries of its directory, as
/// `(lang, path)` pairs: subtitle files named `{stem}.{lang}.{ext}`.
pub fn subtitle_sidecars(video_path: &str, entries: &Vec<String>) -> (r: Vec<(String, String)>)
    ensures
        forall|i: int|
            0 <= i < r@.len() ==> (file_stem_spec(video_path@) matches Some(stem)
                && is_reported_sidecar(stem, (#[trigger] r@[i]).0@, r@[i].1@) && entries@.map_values(
                |e: String| e@,
            ).contains(r@[i].1@)),
        r@.len() == subtitle_sidecars_spec(video_path@, entries@.map_values(|e: String| e@)).len(),
        forall|i: int|
            0 <= i < r@.len() ==> (#[trigger] r@[i]).0@ == subtitle_sidecars_spec(
                video_path@,
                entries@.map_values(|e: String| e@),
            )[i].0 && r@[i].1@ == subtitle_sidecars_spec(
                video_path@,
                entries@.map_values(|e: String| e@),
            )[i].1,
{
    let ghost ev = entries@.map_values(|e: String| e@);
    let v = chars_of(video_path);
    let stem = match file_stem_chars(&v) {
        Some(s) => s,
        None => {
            return Vec::new();
        },
    };
    let mut r: Vec<(String, String)> = Vec::new();
    let mut i: usize = 0;
    while i < entries.len()
        invariant
            i <= entries.len(),
            ev == entries@.map_values(|e: String| e@),
            file_stem_spec(video_path@) == Some(stem@),
            r@.len() == sidecars_spec(stem@, ev.take(i as int)).len(),
            forall|k: int|
                0 <= k < r@.len() ==> (#[trigger] r@[k]).0@ == sidecars_spec(
                    stem@,
                    ev.take(i as int),
                )[k].0 && r@[k].1@ == sidecars_spec(stem@, ev.take(i as int))[k].1,
        decreases entries.len() - i,
    {
        let entry = &entries[i];
        let ghost prev = sidecars_spec(stem@, ev.take(i as int));
        assert(ev.take(i + 1).drop_last() =~= ev.take(i as int));
        assert(ev.take(i + 1).last() == entry@);
        match sidecar_lang(&stem, entry.as_str()) {
            Some(l) => {
                let ls = string_from_chars(&l);
                let p = entry.clone();
                r.push((ls, p));
            },
            None => {},
        }
        i = i + 1;
    }
    assert(ev.take(entries.len() as int) =~= ev);
    proof {
        lemma_sidecars_are_subtitles(stem@, ev);
        let sp = sidecars_spec(stem@, ev);
        assert forall|i: int| 0 <= i < r@.len() implies (file_stem_spec(video_path@) matches Some(
            st,
        ) && is_reported_sidecar(st, (#[trigger] r@[i]).0@, r@[i].1@) && ev.contains(r@[i].1@)) by {
            assert(r@[i].0@ == sp[i].0 && r@[i].1@ == sp[i].1);
        }
    }
    r
}

/// What the watcher does with a video once it has been moved into the import
/// directory.
pub enum ImportAction {
    /// Upload it to PeerTube.
    Upload,
    /// Skip the upload and remove these files: the moved video, then its
    /// subtitle sidecars.
    Discard(Vec<String>),
}

/// The paths removed for a video whose submission was handed off: the moved
/// video itself, then each sidecar's path in order.
pub open spec fn discarded_paths(dest: Seq<char>, sidecars: Seq<(String, String)>) -> Seq<Seq<char>> {
    seq![dest] + sidecars.map_values(|s: (String, String)| s.1@)
}

/// The decision after a video was imported: a handed-off submission is not
/// uploaded, and its video and subtitle sidecars are removed; any other is
/// uploaded.
pub fn after_import(handed_off: bool, dest: &str, sidecars: &Vec<(String, String)>) -> (r: ImportAction)
    ensures
        !handed_off <==> r is Upload,
        r matches ImportAction::Discard(paths) ==> paths@.map_values(|p: String| p@)
            == discarded_paths(dest@, sidecars@),
{
    if !handed_off {
        return ImportAction::Upload;
    }
    let mut paths: Vec<String> = Vec::new();
    paths.push(dest.to_string());
    let ghost sv = sidecars@.map_values(|s: (String, String)| s.1@);
    let mut i: usize = 0;
    while i < sidecars.len()
        invariant
            i <= sidecars.len(),
            sv == sidecars@.map_values(|s: (String, String)| s.1@),
            paths@.map_values(|p: String| p@) == seq![dest@] + sv.take(i as int),
        decreases sidecars.len() - i,
    {
        let ghost before = paths@.map_values(|p: String| p@);
        let p = sidecars[i].1.clone();
        paths.push(p);
        proof {
            assert(paths@.map_values(|p: String| p@) =~= before.push(sv[i as int]));
            assert(sv.take(i + 1) =~= sv.take(i as int).push(sv[i as int]));
            assert(seq![dest@] + sv.take(i + 1) =~= (seq![dest@] + sv.take(i as int)).push(
                sv[i as int],
            ));
        }
        i = i + 1;
    }
    assert(sv.take(sidecars.len() as int) =~= sv);
    ImportAction::Discard(paths)
}

// ---------------------------------------------------------------------------
// Paths the watcher is handling
// ---------------------------------------------------------------------------

/// The set of paths the watcher has started handling and not yet moved away.
pub struct SeenPaths {
    paths: Vec<String>,
}

impl SeenPaths {
    pub closed spec fn view(&self) -> Set<Seq<char>> {
        self.paths@.map_values(|p: String| p@).to_set()
    }

    /// No path is held twice.
    #[verifier::type_invariant]
    spec fn wf(&self) -> bool {
        self.paths@.map_values(|p: String| p@).no_duplicates()
    }

    pub fn new() -> (r: SeenPaths)
        ensures
            r.view() == Set::<Seq<char>>::empty(),
    {
        let r = SeenPaths { paths: Vec::new() };
        assert(r.paths@.map_values(|p: String| p@) =~= Seq::<Seq<char>>::empty());
        assert(r.view() =~= Set::<Seq<char>>::empty());
        r
    }

    fn index_of(&self, path: &str) -> (r: Option<usize>)
        ensures
            r matches Some(i) ==> i < self.paths@.len() && self.paths@[i as int]@ == path@,
            r is None ==> forall|k: int| 0 <= k < self.paths@.len() ==> self.paths@[k]@ != path@,
    {
        let target = chars_of(path);
        let mut i: usize = 0;
        while i < self.paths.len()
            invariant
                i <= self.paths@.len(),
                target@ == path@,
                forall|k: int| 0 <= k < i ==> self.paths@[k]@ != path@,
            decreases self.paths.len() - i,
        {
            let c = chars_of(self.paths[i].as_str());
            if crate::text::chars_eq(&c, &target) {
                return Some(i);
            }
            i = i + 1;
        }
        None
    }

    pub fn contains(&self, path: &str) -> (b: bool)
        ensures
            b == self.view().contains(path@),
    {
        let r = self.index_of(path);
        proof {
            let m = self.paths@.map_values(|p: String| p@);
            if r is Some {
                assert(m[r->0 as int] == path@);
            } else {
                if m.contains(path@) {
                    let k = choose|k: int| 0 <= k < m.len() && m[k] == path@;
                    assert(self.paths@[k]@ == path@);
                }
            }
        }
        r.is_some()
    }

    /// Adds `path`; a path already present is not added twice.
    pub fn insert(&mut self, path: &str)
        ensures
            final(self).view() == old(self).view().insert(path@),
    {
        proof {
            use_type_invariant(&*self);
        }
        let ghost m0 = self.paths@.map_values(|p: String| p@);
        if self.contains(path) {
            assert(self.view() =~= self.view().insert(path@));
            return;
        }
        let mut paths: Vec<String> = Vec::new();
        std::mem::swap(&mut paths, &mut self.paths);
        paths.push(path.to_owned());
        proof {
            let m = paths@.map_values(|p: String| p@);
            assert(m =~= m0.push(path@));
            assert(!m0.contains(path@));
            assert forall|x: Seq<char>| m.to_set().contains(x) == m0.to_set().insert(
                path@,
            ).contains(x) by {
                if m.contains(x) {
                    let k = choose|k: int| 0 <= k < m.len() && m[k] == x;
                    if k < m0.len() {
                        assert(m0[k] == x);
                    }
                }
                if m0.contains(x) {
                    let k = choose|k: int| 0 <= k < m0.len() && m0[k] == x;
                    assert(m[k] == x);
                }
                if x == path@ {
                    assert(m[m0.len() as int] == x);
                }
            }
            assert(m.to_set() =~= m0.to_set().insert(path@));
            assert forall|a: int, b: int| 0 <= a < m.len() && 0 <= b < m.len() && a != b implies m[a]
                != m[b] by {
                if a == m0.len() {
                    assert(m0.contains(m[b]));
                } else if b == m0.len() {
                    assert(m0.contains(m[a]));
                } else {
                    assert(m[a] == m0[a] && m[b] == m0[b]);
                }
            }
        }
        self.paths = paths;
    }

    /// Removes `path`, if present.
    pub fn remove(&mut self, path: &str)
        ensures
            final(self).view() == old(self).view().remove(path@),
    {
        proof {
            use_type_invariant(&*self);
        }
        let ghost m0 = self.paths@.map_values(|p: String| p@);
        match self.index_of(path) {
            Some(i) => {
                let mut paths: Vec<String> = Vec::new();
                std::mem::swap(&mut paths, &mut self.paths);
                paths.remove(i);
                proof {
                    let m = paths@.map_values(|p: String| p@);
                    assert(m =~= m0.remove(i as int));
                    assert forall|a: int, b: int| 0 <= a < m.len() && 0 <= b < m.len() && a != b implies m[a]
                        != m[b] by {
                        let a0 = if a < i { a } else { a + 1 };
                        let b0 = if b < i { b } else { b + 1 };
                        assert(m[a] == m0[a0] && m[b] == m0[b0]);
                    }
                    assert forall|x: Seq<char>| m.to_set().contains(x) == m0.to_set().remove(
                        path@,
                    ).contains(x) by {
                        if m.contains(x) {
                            let k = choose|k: int| 0 <= k < m.len() && m[k] == x;
                            if k < i {
                                assert(m0[k] == x);
                                assert(m0[i as int] == path@);
                            } else {
                                assert(m0[k + 1] == x);
                                assert(m0[i as int] == path@);
                            }
                        }
                        if m0.contains(x) && x != path@ {
                            let k = choose|k: int| 0 <= k < m0.len() && m0[k] == x;
                            if k < i {
                                assert(m[k] == x);
                            } else {
                                assert(k != i);
                                assert(m[k - 1] == x);
                            }
                        }
                    }
                    assert(m.to_set() =~= m0.to_set().remove(path@));
                }
                self.paths = paths;
            },
            None => {
                proof {
                    if m0.contains(path@) {
                        let k = choose|k: int| 0 <= k < m0.len() && m0[k] == path@;
                        assert(self.paths@[k]@ == path@);
                    }
                    assert(self.view() =~= self.view().remove(path@));
                }
            },
        }
    }
}

} // verus!
