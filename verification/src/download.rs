//! Planning of direct media downloads: file naming, HLS detection, subtitle
//! track discovery in HLS master playlists, and the command lines and headers
//! handed to the downloaders.
use vstd::prelude::*;
use vstd::set_lib::{lemma_int_range, lemma_len_subset, set_int_range};
use crate::paths::{file_name_spec, file_stem_spec, join, join_spec, with_extension, with_extension_spec};
use crate::text::{
    append_chars, append_str, chars_eq_str, chars_of, decimal, ends_with, find, find_char,
    first_index_of, first_occurrence, has_prefix, has_suffix, last_index_of, owned,
    push_decimal, rfind_char, starts_with, string_from_chars, sub_vec, trim_class, trim_spec,
    contains, contains_seq, opt_str_view, opt_string_view, is_white_space, lemma_trim_keeps,
};

verus! {

broadcast use vstd::string::group_string_axioms;

// ---------------------------------------------------------------------------
// File names
// ---------------------------------------------------------------------------

/// Characters that cannot appear in a file name on common filesystems.
pub open spec fn is_bad_name_char(c: char) -> bool {
    c == '/' || c == '\\' || c == ':' || c == '*' || c == '?' || c == '"' || c == '<' || c == '>'
        || c == '|' || c == '\0'
}

pub open spec fn sanitize_char(c: char) -> char {
    if is_bad_name_char(c) {
        '_'
    } else {
        c
    }
}

/// Every forbidden character replaced by `_`, then surrounding whitespace
/// trimmed.
pub open spec fn sanitize_name_spec(s: Seq<char>) -> Seq<char> {
    trim_spec(s.map_values(|c: char| sanitize_char(c)))
}

/// Makes a title usable as a file name: replaces `/ \ : * ? " < > |` and NUL
/// by `_` and trims surrounding whitespace. Other characters, Unicode
/// included, are kept.
pub fn sanitize_name(s: &str) -> (r: String)
    ensures
        r@ == sanitize_name_spec(s@),
{
    let v = chars_of(s);
    let mut m: Vec<char> = Vec::new();
    let mut i: usize = 0;
    while i < v.len()
        invariant
            i <= v.len(),
            m@ == v@.take(i as int).map_values(|c: char| sanitize_char(c)),
        decreases v.len() - i,
    {
        let c = v[i];
        let d = if c == '/' || c == '\\' || c == ':' || c == '*' || c == '?' || c == '"' || c
            == '<' || c == '>' || c == '|' || c == '\0' {
            '_'
        } else {
            c
        };
        m.push(d);
        i = i + 1;
        assert(v@.take(i as int).map_values(|c: char| sanitize_char(c)) =~= v@.take(
            i - 1 as int,
        ).map_values(|c: char| sanitize_char(c)).push(sanitize_char(c)));
    }
    assert(v@.take(v.len() as int) =~= v@);
    let t = trim_class(&m, false);
    string_from_chars(&t)
}

/// A sanitized name holds none of the forbidden characters and has no
/// whitespace at either end.
pub proof fn lemma_sanitized_name_is_clean(s: Seq<char>)
    ensures
        forall|i: int|
            0 <= i < sanitize_name_spec(s).len() ==> !is_bad_name_char(
                #[trigger] sanitize_name_spec(s)[i],
            ),
        sanitize_name_spec(s).len() > 0 ==> !is_white_space(sanitize_name_spec(s)[0])
            && !is_white_space(sanitize_name_spec(s).last()),
{
    let m = s.map_values(|c: char| sanitize_char(c));
    let p = |c: char| !is_bad_name_char(c);
    assert forall|k: int| 0 <= k < m.len() implies p(#[trigger] m[k]) by {
        assert(m[k] == sanitize_char(s[k]));
    }
    lemma_trim_keeps(m, false, p);
}

/// The part of a URL before its query string.
pub open spec fn url_path_spec(url: Seq<char>) -> Seq<char> {
    match first_index_of(url, '?') {
        Some(i) => url.take(i),
        None => url,
    }
}

/// HLS and DASH manifests are fetched by a segment downloader; anything else
/// is fetched as a single file.
pub open spec fn is_manifest_spec(url_path: Seq<char>) -> bool {
    has_suffix(url_path, ".m3u8"@) || has_suffix(url_path, ".mpd"@)
}

/// The last path segment of a URL path, up to its first `.`.
pub open spec fn url_base_name_spec(url_path: Seq<char>) -> Seq<char> {
    let seg = match last_index_of(url_path, '/') {
        Some(i) => url_path.skip(i + 1),
        None => url_path,
    };
    match first_index_of(seg, '.') {
        Some(i) => seg.take(i),
        None => seg,
    }
}

/// File base name: the sanitized title when that is not empty, otherwise the
/// name of the last URL path segment.
pub open spec fn base_name_spec(url: Seq<char>, title: Option<Seq<char>>) -> Seq<char> {
    match title {
        Some(t) => if sanitize_name_spec(t).len() > 0 {
            sanitize_name_spec(t)
        } else {
            url_base_name_spec(url_path_spec(url))
        },
        None => url_base_name_spec(url_path_spec(url)),
    }
}

/// How a direct media URL is downloaded and under which base name.
pub struct DownloadPlan {
    /// The URL without its query string.
    pub url_path: String,
    /// Whether the URL names an HLS (`.m3u8`) or DASH (`.mpd`) manifest.
    pub is_manifest: bool,
    /// The file base name, without extension.
    pub base: String,
}

fn url_base_name(url_path: &Vec<char>) -> (r: Vec<char>)
    ensures
        r@ == url_base_name_spec(url_path@),
{
    let seg = match rfind_char(url_path, '/') {
        Some(i) => {
            let s = sub_vec(url_path, i + 1, url_path.len());
            assert(s@ =~= url_path@.skip(i + 1));
            s
        },
        None => sub_vec(url_path, 0, url_path.len()),
    };
    assert(url_path@.subrange(0, url_path.len() as int) =~= url_path@);
    match find_char(&seg, '.') {
        Some(i) => {
            let r = sub_vec(&seg, 0, i);
            assert(r@ =~= seg@.take(i as int));
            r
        },
        None => seg,
    }
}

/// Decides how `url` is downloaded and names the result after `title` when
/// it gives a usable name.
pub fn plan_download(url: &str, title: Option<&str>) -> (r: DownloadPlan)
    ensures
        r.url_path@ == url_path_spec(url@),
        r.is_manifest == is_manifest_spec(url_path_spec(url@)),
        r.base@ == base_name_spec(url@, opt_str_view(title)),
        title matches Some(t) ==> (sanitize_name_spec(t@).len() > 0 ==> r.base@ == sanitize_name_spec(
            t@,
        )),
        (title is None || (title matches Some(t) && sanitize_name_spec(t@).len() == 0)) ==> r.base@
            == url_base_name_spec(url_path_spec(url@)),
        forall|k: int| 0 <= k < r.base@.len() ==> #[trigger] r.base@[k] != '/',
{
    let u = chars_of(url);
    let path = match find_char(&u, '?') {
        Some(i) => {
            let p = sub_vec(&u, 0, i);
            assert(p@ =~= u@.take(i as int));
            p
        },
        None => {
            let p = sub_vec(&u, 0, u.len());
            assert(p@ =~= u@);
            p
        },
    };
    let is_manifest = ends_with(&path, ".m3u8") || ends_with(&path, ".mpd");
    let base = match title {
        Some(t) => {
            let s = sanitize_name(t);
            let sc = chars_of(s.as_str());
            if sc.len() > 0 {
                s
            } else {
                let b = url_base_name(&path);
                string_from_chars(&b)
            }
        },
        None => {
            let b = url_base_name(&path);
            string_from_chars(&b)
        },
    };
    proof {
        lemma_url_base_is_one_segment(path@);
        if let Some(t) = title {
            lemma_sanitized_name_is_clean(t@);
        }
    }
    DownloadPlan { url_path: string_from_chars(&path), is_manifest, base }
}

/// A character that occurs in `s` has a last occurrence.
proof fn lemma_last_occurrence_exists(s: Seq<char>, c: char, k: int)
    requires
        0 <= k < s.len(),
        s[k] == c,
    ensures
        last_index_of(s, c) is Some,
    decreases s.len() - k,
{
    if forall|j: int| k < j < s.len() ==> s[j] != c {
        assert(0 <= k < s.len() && s[k] == c && forall|j: int| k < j < s.len() ==> s[j] != c);
    } else {
        let j = choose|j: int| k < j < s.len() && s[j] == c;
        lemma_last_occurrence_exists(s, c, j);
    }
}

/// The name taken from a URL is one path segment: it holds no `/`.
pub proof fn lemma_url_base_is_one_segment(url_path: Seq<char>)
    ensures
        forall|k: int|
            0 <= k < url_base_name_spec(url_path).len() ==> #[trigger] url_base_name_spec(
                url_path,
            )[k] != '/',
{
    let seg = match last_index_of(url_path, '/') {
        Some(i) => url_path.skip(i + 1),
        None => url_path,
    };
    assert forall|k: int| 0 <= k < seg.len() implies #[trigger] seg[k] != '/' by {
        match last_index_of(url_path, '/') {
            Some(i) => {
                assert(seg[k] == url_path[i + 1 + k]);
            },
            None => {
                if seg[k] == '/' {
                    lemma_last_occurrence_exists(url_path, '/', k);
                }
            },
        }
    }
    let b = url_base_name_spec(url_path);
    assert forall|k: int| 0 <= k < b.len() implies #[trigger] b[k] != '/' by {
        assert(b[k] == seg[k]);
    }
}

/// A usable title names the download, whatever the URL: when the sanitized
/// title is not empty, two downloads with that title get the same base name,
/// the sanitized title, be they manifests or single files.
pub proof fn lemma_title_names_download(url: Seq<char>, other_url: Seq<char>, title: Seq<char>)
    requires
        sanitize_name_spec(title).len() > 0,
    ensures
        base_name_spec(url, Some(title)) == sanitize_name_spec(title),
        base_name_spec(url, Some(title)) == base_name_spec(other_url, Some(title)),
{
}

/// The `n`-th candidate file name: `{base}{ext}` first, then
/// `{base} (n){ext}` from 2 on.
pub open spec fn dest_name_spec(base: Seq<char>, ext: Seq<char>, n: nat) -> Seq<char> {
    if n < 2 {
        base + ext
    } else {
        base + " ("@ + decimal(n) + ")"@ + ext
    }
}

/// The `n`-th candidate destination in `dir` for a download named `base`:
/// `dir/{base}{ext}` for `n < 2`, else `dir/{base} (n){ext}`. The downloader
/// takes the first candidate, counting up from 1, that does not exist yet.
pub fn dest_candidate(dir: &str, base: &str, ext: &str, n: u32) -> (r: String)
    ensures
        r@ == join_spec(dir@, dest_name_spec(base@, ext@, n as nat)),
{
    let mut name = chars_of(base);
    if n >= 2 {
        append_str(&mut name, " (");
        push_decimal(&mut name, n as u64);
        append_str(&mut name, ")");
    }
    append_str(&mut name, ext);
    let s = string_from_chars(&name);
    join(dir, s.as_str())
}

proof fn lemma_join_injective(d: Seq<char>, a: Seq<char>, b: Seq<char>)
    requires
        a != b,
        (a.len() > 0 && a[0] == '/') == (b.len() > 0 && b[0] == '/'),
    ensures
        join_spec(d, a) != join_spec(d, b),
{
    if !(a.len() > 0 && a[0] == '/') {
        let p = if d.len() > 0 && d.last() != '/' {
            d + seq!['/']
        } else {
            d
        };
        assert(join_spec(d, a) == p + a);
        assert(join_spec(d, b) == p + b);
        if p + a == p + b {
            assert(a =~= (p + a).skip(p.len() as int));
            assert(b =~= (p + b).skip(p.len() as int));
        }
    }
}

/// The `n`-th candidate destination as a path.
pub open spec fn dest_path_spec(dir: Seq<char>, base: Seq<char>, ext: Seq<char>, n: nat) -> Seq<char> {
    join_spec(dir, dest_name_spec(base, ext, n))
}

/// The position of `s` among `names`, if it is there.
fn position_of(names: &Vec<String>, s: &str) -> (r: Option<usize>)
    ensures
        r matches Some(j) ==> j < names.len() && names@[j as int]@ == s@,
        r is None ==> !names@.map_values(|e: String| e@).contains(s@),
{
    let target = chars_of(s);
    let mut i: usize = 0;
    while i < names.len()
        invariant
            i <= names.len(),
            target@ == s@,
            forall|k: int| 0 <= k < i ==> names@[k]@ != s@,
        decreases names.len() - i,
    {
        let c = chars_of(names[i].as_str());
        if crate::text::chars_eq(&c, &target) {
            return Some(i);
        }
        i = i + 1;
    }
    proof {
        let ev = names@.map_values(|e: String| e@);
        if ev.contains(s@) {
            let k = choose|k: int| 0 <= k < ev.len() && ev[k] == s@;
            assert(names@[k]@ == s@);
        }
    }
    None
}

/// The destination a download is written to: the first candidate in `dir`,
/// counting up from 1, that is not among the `existing` paths.
pub fn choose_dest(dir: &str, base: &str, ext: &str, existing: &Vec<String>) -> (r: String)
    requires
        existing.len() < u32::MAX,
    ensures
        exists|n: nat|
            1 <= n && r@ == #[trigger] dest_path_spec(dir@, base@, ext@, n)
                && !existing@.map_values(|e: String| e@).contains(r@) && forall|m: nat|
                1 <= m < n ==> existing@.map_values(|e: String| e@).contains(
                    #[trigger] dest_path_spec(dir@, base@, ext@, m),
                ),
{
    let ghost ev = existing@.map_values(|e: String| e@);
    let ghost mut hit: Set<int> = Set::empty();
    let mut n: u32 = 1;
    loop
        invariant
            1 <= n <= existing.len() + 1,
            existing.len() < u32::MAX,
            ev == existing@.map_values(|e: String| e@),
            forall|m: nat| 1 <= m < n ==> ev.contains(#[trigger] dest_path_spec(dir@, base@, ext@, m)),
            hit.finite(),
            hit.len() == n - 1,
            hit.subset_of(set_int_range(0, ev.len() as int)),
            forall|j: int|
                #![trigger hit.contains(j)]
                hit.contains(j) ==> exists|m: nat|
                    1 <= m < n && ev[j] == #[trigger] dest_path_spec(dir@, base@, ext@, m),
        decreases existing.len() + 1 - n,
    {
        let c = dest_candidate(dir, base, ext, n);
        match position_of(existing, c.as_str()) {
            None => {
                assert(dest_path_spec(dir@, base@, ext@, n as nat) == c@);
                return c;
            },
            Some(j) => {
                proof {
                    assert(ev[j as int] == c@);
                    if hit.contains(j as int) {
                        let m = choose|m: nat|
                            1 <= m < n && ev[j as int] == #[trigger] dest_path_spec(
                                dir@,
                                base@,
                                ext@,
                                m,
                            );
                        lemma_dest_candidates_distinct(dir@, base@, ext@, m, n as nat);
                    }
                    let old_hit = hit;
                    hit = hit.insert(j as int);
                    lemma_int_range(0, ev.len() as int);
                    lemma_len_subset(hit, set_int_range(0, ev.len() as int));
                    assert(dest_path_spec(dir@, base@, ext@, n as nat) == c@);
                    assert forall|k: int| #![trigger hit.contains(k)] hit.contains(k) implies exists|m: nat|
                        1 <= m < n + 1 && ev[k] == #[trigger] dest_path_spec(dir@, base@, ext@, m) by {
                        if k == j as int {
                            assert(ev[k] == dest_path_spec(dir@, base@, ext@, n as nat));
                        } else {
                            assert(old_hit.contains(k));
                        }
                    }
                    assert forall|m: nat| 1 <= m < n + 1 implies ev.contains(
                        #[trigger] dest_path_spec(dir@, base@, ext@, m),
                    ) by {
                        if m == n {
                            assert(ev[j as int] == dest_path_spec(dir@, base@, ext@, m));
                        }
                    }
                }
                n = n + 1;
            },
        }
    }
}

/// The candidate destinations of a download are pairwise distinct, so
/// counting up from 1 never offers the same path twice.
pub proof fn lemma_dest_candidates_distinct(dir: Seq<char>, base: Seq<char>, ext: Seq<char>, m: nat, n: nat)
    requires
        1 <= m < n,
    ensures
        join_spec(dir, dest_name_spec(base, ext, m)) != join_spec(dir, dest_name_spec(base, ext, n)),
{
    reveal_strlit(" (");
    reveal_strlit(")");
    let a = dest_name_spec(base, ext, m);
    let b = dest_name_spec(base, ext, n);
    crate::text::lemma_decimal_len(m);
    crate::text::lemma_decimal_len(n);
    let dn = decimal(n);
    assert(b == base + " ("@ + dn + ")"@ + ext);
    if m == 1 {
        assert(a.len() < b.len());
    } else {
        let dm = decimal(m);
        assert(a == base + " ("@ + dm + ")"@ + ext);
        if a == b {
            let k = base.len() + 2;
            assert(dm.len() == dn.len());
            assert(dm =~= a.subrange(k as int, (k + dm.len()) as int));
            assert(dn =~= b.subrange(k as int, (k + dn.len()) as int));
            crate::text::lemma_decimal_injective(m, n);
        }
    }
    assert(a != b);
    if base.len() > 0 {
        assert(a[0] == base[0]);
        assert(b[0] == base[0]);
        lemma_join_injective(dir, a, b);
    } else if m >= 2 {
        assert(a[0] == ' ');
        assert(b[0] == ' ');
        lemma_join_injective(dir, a, b);
    } else {
        assert(a =~= ext);
        assert(b[0] == ' ');
        if ext.len() > 0 && ext[0] == '/' {
            assert(join_spec(dir, a) == ext);
            assert(join_spec(dir, b).len() >= b.len());
        } else {
            lemma_join_injective(dir, a, b);
        }
    }
}

/// Path of a sidecar subtitle written next to a download:
/// `dir/{stem}.{lang}.vtt`.
pub open spec fn sidecar_vtt_spec(dir: Seq<char>, stem: Seq<char>, lang: Seq<char>) -> Seq<char> {
    join_spec(dir, stem + "."@ + lang + ".vtt"@)
}

pub fn sidecar_vtt_path(dir: &str, stem: &str, lang: &str) -> (r: String)
    ensures
        r@ == sidecar_vtt_spec(dir@, stem@, lang@),
{
    let mut name = chars_of(stem);
    append_str(&mut name, ".");
    append_str(&mut name, lang);
    append_str(&mut name, ".vtt");
    let s = string_from_chars(&name);
    join(dir, s.as_str())
}

// ---------------------------------------------------------------------------
// HLS master playlist parsing
// ---------------------------------------------------------------------------

pub open spec fn is_attr_stop(c: char) -> bool {
    c == ',' || c == '\r' || c == '\n'
}

/// Index of the first `,`, CR or LF in `s`, or its length.
pub open spec fn attr_end(s: Seq<char>) -> int {
    if exists|i: int|
        0 <= i < s.len() && is_attr_stop(s[i]) && forall|j: int| 0 <= j < i ==> !is_attr_stop(s[j]) {
        choose|i: int|
            0 <= i < s.len() && is_attr_stop(s[i]) && forall|j: int|
                0 <= j < i ==> !is_attr_stop(s[j])
    } else {
        s.len() as int
    }
}

/// Value of attribute `key` in an `#EXT-X-...` tag line: after the first
/// `key=`, either a double-quoted string (which must be closed) or the text
/// up to the next `,`, CR or LF.
pub open spec fn extract_attr_spec(line: Seq<char>, key: Seq<char>) -> Option<Seq<char>> {
    let pat = key + "="@;
    match first_occurrence(line, pat) {
        None => None,
        Some(i) => {
            let rest = line.skip(i + pat.len());
            if rest.len() > 0 && rest[0] == '"' {
                match first_index_of(rest.skip(1), '"') {
                    Some(e) => Some(rest.subrange(1, e + 1)),
                    None => None,
                }
            } else {
                Some(rest.take(attr_end(rest)))
            }
        },
    }
}

fn attr_end_exec(s: &Vec<char>) -> (r: usize)
    ensures
        r == attr_end(s@),
        r <= s.len(),
{
    let mut i: usize = 0;
    while i < s.len()
        invariant
            i <= s.len(),
            forall|j: int| 0 <= j < i ==> !is_attr_stop(#[trigger] s@[j]),
        decreases s.len() - i,
    {
        let c = s[i];
        if c == ',' || c == '\r' || c == '\n' {
            proof {
                assert(is_attr_stop(s@[i as int]));
                let e = attr_end(s@);
                if e < i {
                    assert(is_attr_stop(s@[e]));
                } else if e > i {
                }
            }
            return i;
        }
        i = i + 1;
    }
    i
}

/// The value of attribute `key` in a playlist tag line.
pub fn extract_attr(line: &str, key: &str) -> (r: Option<String>)
    ensures
        r matches Some(v) ==> extract_attr_spec(line@, key@) == Some(v@),
        r is None ==> extract_attr_spec(line@, key@) is None,
{
    let l = chars_of(line);
    let mut pat = chars_of(key);
    append_str(&mut pat, "=");
    let start = match find(&l, &pat) {
        Some(i) => {
            assert(pat.len() == pat@.len() && l.len() == l@.len());
            assert(i + pat@.len() <= l@.len());
            i + pat.len()
        },
        None => return None,
    };
    let rest = sub_vec(&l, start, l.len());
    assert(rest@ =~= l@.skip(start as int));
    if rest.len() > 0 && rest[0] == '"' {
        let inner = sub_vec(&rest, 1, rest.len());
        assert(inner@ =~= rest@.skip(1));
        match find_char(&inner, '"') {
            Some(e) => {
                let v = sub_vec(&rest, 1, e + 1);
                Some(string_from_chars(&v))
            },
            None => None,
        }
    } else {
        let e = attr_end_exec(&rest);
        let v = sub_vec(&rest, 0, e);
        assert(v@ =~= rest@.take(e as int));
        Some(string_from_chars(&v))
    }
}

/// `text` cut at every LF.
pub open spec fn split_lines(s: Seq<char>) -> Seq<Seq<char>>
    decreases s.len(),
{
    match first_index_of(s, '\n') {
        Some(i) => {
            proof {
                lemma_first_index_of_bounds(s, '\n');
            }
            seq![s.take(i)] + split_lines(s.skip(i + 1))
        },
        None => seq![s],
    }
}

pub proof fn lemma_first_index_of_bounds(s: Seq<char>, c: char)
    ensures
        first_index_of(s, c) matches Some(i) ==> 0 <= i < s.len() && s[i] == c,
{
}

/// Whether a URI is absolute (`http://` or `https://`).
pub open spec fn is_absolute_uri(u: Seq<char>) -> bool {
    has_prefix(u, "http://"@) || has_prefix(u, "https://"@)
}

/// A subtitle media tag: the trimmed line starts with `#EXT-X-MEDIA` and
/// contains `TYPE=SUBTITLES`; its language (default `und`) and its `URI`,
/// which must be present.
pub open spec fn media_line_spec(line: Seq<char>) -> Option<(Seq<char>, Seq<char>)> {
    let t = trim_spec(line);
    if !has_prefix(t, "#EXT-X-MEDIA"@) || !contains_seq(t, "TYPE=SUBTITLES"@) {
        None
    } else {
        let lang = match extract_attr_spec(t, "LANGUAGE"@) {
            Some(l) => l,
            None => "und"@,
        };
        match extract_attr_spec(t, "URI"@) {
            Some(u) => Some((lang, u)),
            None => None,
        }
    }
}

/// Absolute URL of a track URI: absolute URIs are kept, relative ones take
/// the resolution against the playlist URL (`joined`), when there is one.
pub open spec fn resolve_uri_spec(uri: Seq<char>, joined: Option<Seq<char>>) -> Option<Seq<char>> {
    if is_absolute_uri(uri) {
        Some(uri)
    } else {
        joined
    }
}

/// The name of the result of resolving `rel` against the URL `base` with the
/// `url` crate (`Url::parse(base)` then `Url::join(rel)`, printed back as a
/// string); `None` where either step fails.
pub uninterp spec fn url_joined(base: Seq<char>, rel: Seq<char>) -> Option<Seq<char>>;

/// Resolves `rel` against `base`.
///
/// Trusted: calls `reqwest::Url::parse` (the `url` crate's `Url::parse`) and
/// `Url::join`, and prints the result with `to_string`. The contract only
/// says that the result is the named function of the two arguments; it says
/// nothing of how URLs are resolved.
#[verifier::external_body]
fn url_join(base: &str, rel: &str) -> (r: Option<String>)
    ensures
        r matches Some(s) ==> url_joined(base@, rel@) == Some(s@),
        r is None ==> url_joined(base@, rel@) is None,
{
    reqwest::Url::parse(base).ok().and_then(|b| b.join(rel).ok()).map(|u| u.to_string())
}

/// Track of one playlist line, resolved against the playlist URL.
pub open spec fn line_track_spec(master: Seq<char>, line: Seq<char>) -> Option<(Seq<char>, Seq<char>)> {
    match media_line_spec(line) {
        Some((lang, uri)) => match resolve_uri_spec(uri, url_joined(master, uri)) {
            Some(u) => Some((lang, u)),
            None => None,
        },
        None => None,
    }
}

/// Subtitle tracks of the lines, in order.
pub open spec fn tracks_spec(master: Seq<char>, lines: Seq<Seq<char>>) -> Seq<(Seq<char>, Seq<char>)>
    decreases lines.len(),
{
    if lines.len() == 0 {
        Seq::empty()
    } else {
        let rest = tracks_spec(master, lines.drop_first());
        match line_track_spec(master, lines[0]) {
            Some(t) => seq![t] + rest,
            None => rest,
        }
    }
}

pub open spec fn pair_view(p: (String, String)) -> (Seq<char>, Seq<char>) {
    (p.0@, p.1@)
}

/// Language and URI of a subtitle media tag line, if it is one.
#[verifier::rlimit(40)]
pub fn parse_media_line(line: &str) -> (r: Option<(String, String)>)
    ensures
        r matches Some(p) ==> media_line_spec(line@) == Some(pair_view(p)),
        r is None ==> media_line_spec(line@) is None,
{
    let v = chars_of(line);
    let tv = trim_class(&v, false);
    let t = string_from_chars(&tv);
    if !starts_with(&tv, "#EXT-X-MEDIA") || !contains(&tv, "TYPE=SUBTITLES") {
        return None;
    }
    let lang = match extract_attr(t.as_str(), "LANGUAGE") {
        Some(l) => l,
        None => "und".to_owned(),
    };
    match extract_attr(t.as_str(), "URI") {
        Some(u) => Some((lang, u)),
        None => None,
    }
}

/// Absolute URL of a track URI given the resolution of the URI against the
/// playlist URL.
pub fn resolve_track_uri(uri: &str, joined: Option<String>) -> (r: Option<String>)
    ensures
        r matches Some(s) ==> resolve_uri_spec(uri@, opt_string_view(joined)) == Some(s@),
        r is None ==> resolve_uri_spec(uri@, opt_string_view(joined)) is None,
{
    let u = chars_of(uri);
    if starts_with(&u, "http://") || starts_with(&u, "https://") {
        Some(owned(uri))
    } else {
        joined
    }
}

fn line_track(master: &str, line: &Vec<char>) -> (r: Option<(String, String)>)
    ensures
        r matches Some(p) ==> line_track_spec(master@, line@) == Some(pair_view(p)),
        r is None ==> line_track_spec(master@, line@) is None,
{
    let l = string_from_chars(line);
    match parse_media_line(l.as_str()) {
        Some((lang, uri)) => {
            let u = chars_of(uri.as_str());
            let absolute = starts_with(&u, "http://") || starts_with(&u, "https://");
            let joined = if absolute {
                None
            } else {
                url_join(master, uri.as_str())
            };
            match resolve_track_uri(uri.as_str(), joined) {
                Some(a) => Some((lang, a)),
                None => None,
            }
        },
        None => None,
    }
}

/// `(language, absolute URL)` of every subtitle track that an HLS master
/// playlist declares with `#EXT-X-MEDIA:TYPE=SUBTITLES`, in playlist order.
/// Tracks whose URI is missing, or relative and not resolvable against
/// `master_url`, are skipped.
pub fn parse_subtitle_tracks(text: &str, master_url: &str) -> (r: Vec<(String, String)>)
    ensures
        r@.map_values(|p: (String, String)| pair_view(p)) == tracks_spec(
            master_url@,
            split_lines(text@),
        ),
{
    let all = chars_of(text);
    let mut rest = sub_vec(&all, 0, all.len());
    assert(rest@ =~= text@);
    let mut out: Vec<(String, String)> = Vec::new();
    loop
        invariant
            out@.map_values(|p: (String, String)| pair_view(p)) + tracks_spec(
                master_url@,
                split_lines(rest@),
            ) == tracks_spec(master_url@, split_lines(text@)),
        decreases rest.len(),
    {
        let ghost before = out@.map_values(|p: (String, String)| pair_view(p));
        match find_char(&rest, '\n') {
            Some(i) => {
                let line = sub_vec(&rest, 0, i);
                let next = sub_vec(&rest, i + 1, rest.len());
                proof {
                    assert(line@ =~= rest@.take(i as int));
                    assert(next@ =~= rest@.skip(i + 1));
                    let ls = split_lines(rest@);
                    assert(ls =~= seq![line@] + split_lines(next@));
                    assert(ls[0] == line@);
                    assert(ls.drop_first() =~= split_lines(next@));
                }
                match line_track(master_url, &line) {
                    Some(t) => {
                        out.push(t);
                        proof {
                            let after = out@.map_values(|p: (String, String)| pair_view(p));
                            assert(after =~= before.push(pair_view(t)));
                            let tl = tracks_spec(master_url@, split_lines(next@));
                            assert(before.push(pair_view(t)) + tl =~= before + (seq![pair_view(t)]
                                + tl));
                        }
                    },
                    None => {},
                }
                rest = next;
            },
            None => {
                proof {
                    let ls = split_lines(rest@);
                    assert(ls =~= seq![rest@]);
                    assert(ls.drop_first() =~= Seq::<Seq<char>>::empty());
                    assert(tracks_spec(master_url@, Seq::<Seq<char>>::empty()) =~= Seq::empty());
                }
                match line_track(master_url, &rest) {
                    Some(t) => {
                        out.push(t);
                        proof {
                            let after = out@.map_values(|p: (String, String)| pair_view(p));
                            assert(after =~= before.push(pair_view(t)));
                            assert(before.push(pair_view(t)) =~= before + seq![pair_view(t)]);
                        }
                    },
                    None => {
                        assert(before + Seq::<(Seq<char>, Seq<char>)>::empty() =~= before);
                    },
                }
                return out;
            },
        }
    }
}

} // verus!
