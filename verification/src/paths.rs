//! Unix path arithmetic on character sequences, following the documented
//! behaviour of `std::path::Path` (`file_name`, `file_stem`, `extension`,
//! `with_extension`) and `PathBuf::push` (`join`).
use vstd::prelude::*;
use crate::text::{append_chars, chars_eq, chars_of, last_index_of, rfind_char, string_from_chars, sub_vec};

verus! {

broadcast use vstd::string::group_string_axioms;

/// Whether the last character of `p` ends a trailing separator or a trailing
/// `.` component, which `Path::components` skips when looking for the final
/// component.
pub open spec fn ends_in_skippable(p: Seq<char>) -> bool {
    p.len() > 0 && (p.last() == '/' || (p.last() == '.' && (p.len() == 1 || p[p.len() - 2]
        == '/')))
}

/// `p` without trailing separators and trailing `.` components.
pub open spec fn strip_tail(p: Seq<char>) -> Seq<char>
    decreases p.len(),
{
    if ends_in_skippable(p) {
        strip_tail(p.drop_last())
    } else {
        p
    }
}

/// Start index of the last segment of `q`: one past its last `/`, or 0.
pub open spec fn segment_start(q: Seq<char>) -> int {
    match last_index_of(q, '/') {
        Some(i) => i + 1,
        None => 0,
    }
}

/// The final component of `p` as the characters that form it.
pub open spec fn last_segment(p: Seq<char>) -> Seq<char> {
    let q = strip_tail(p);
    q.subrange(segment_start(q), q.len() as int)
}

pub open spec fn dot_dot() -> Seq<char> {
    seq!['.', '.']
}

/// `Path::file_name`: the final component, unless there is none or it is `..`.
pub open spec fn file_name_spec(p: Seq<char>) -> Option<Seq<char>> {
    let n = last_segment(p);
    if n.len() == 0 || n == dot_dot() {
        None
    } else {
        Some(n)
    }
}

/// Index of the `.` that separates stem and extension in a file name: the
/// last `.`, unless it is the first character.
pub open spec fn ext_dot(name: Seq<char>) -> Option<int> {
    match last_index_of(name, '.') {
        Some(i) => if i > 0 {
            Some(i)
        } else {
            None
        },
        None => None,
    }
}

/// The stem of a file name: everything before the extension dot, or the
/// whole name.
pub open spec fn stem_of(name: Seq<char>) -> Seq<char> {
    match ext_dot(name) {
        Some(i) => name.take(i),
        None => name,
    }
}

/// The extension of a file name: everything after the extension dot.
pub open spec fn ext_of(name: Seq<char>) -> Option<Seq<char>> {
    match ext_dot(name) {
        Some(i) => Some(name.skip(i + 1)),
        None => None,
    }
}

/// `Path::file_stem`.
pub open spec fn file_stem_spec(p: Seq<char>) -> Option<Seq<char>> {
    match file_name_spec(p) {
        Some(n) => Some(stem_of(n)),
        None => None,
    }
}

/// `Path::extension`.
pub open spec fn extension_spec(p: Seq<char>) -> Option<Seq<char>> {
    match file_name_spec(p) {
        Some(n) => ext_of(n),
        None => None,
    }
}

/// `Path::with_extension`: the path cut right after the file stem, followed
/// by `.` and the new extension when that is not empty; unchanged when there
/// is no file name.
pub open spec fn with_extension_spec(p: Seq<char>, ext: Seq<char>) -> Seq<char> {
    match file_name_spec(p) {
        Some(n) => {
            let cut = p.take(segment_start(strip_tail(p)) + stem_of(n).len());
            if ext.len() == 0 {
                cut
            } else {
                cut + seq!['.'] + ext
            }
        },
        None => p,
    }
}

/// `Path::join` (`PathBuf::push`): an absolute `rel` replaces `base`;
/// otherwise `rel` is appended, with a `/` in between when `base` is not
/// empty and does not already end in one.
pub open spec fn join_spec(base: Seq<char>, rel: Seq<char>) -> Seq<char> {
    if rel.len() > 0 && rel[0] == '/' {
        rel
    } else if base.len() > 0 && base.last() != '/' {
        base + seq!['/'] + rel
    } else {
        base + rel
    }
}

/// Length of `strip_tail(p)`, which is a prefix of `p`.
fn stripped_len(p: &Vec<char>) -> (j: usize)
    ensures
        j <= p.len(),
        strip_tail(p@) == p@.take(j as int),
{
    let mut j = p.len();
    proof {
        assert(p@.take(j as int) =~= p@);
    }
    while j > 0 && (p[j - 1] == '/' || (p[j - 1] == '.' && (j == 1 || p[j - 2] == '/')))
        invariant
            j <= p.len(),
            strip_tail(p@) == strip_tail(p@.take(j as int)),
        decreases j,
    {
        proof {
            let t = p@.take(j as int);
            assert(t.last() == p@[j - 1]);
            if j > 1 {
                assert(t[t.len() - 2] == p@[j - 2]);
            }
            assert(ends_in_skippable(t));
            assert(t.drop_last() =~= p@.take(j - 1));
        }
        j = j - 1;
    }
    proof {
        let t = p@.take(j as int);
        if j > 0 {
            assert(t.last() == p@[j - 1]);
            if j > 1 {
                assert(t[t.len() - 2] == p@[j - 2]);
            }
        }
        assert(!ends_in_skippable(t));
    }
    j
}

/// Start and end of the final component of `p`, when `p` has a file name.
pub fn file_name_range(p: &Vec<char>) -> (r: Option<(usize, usize)>)
    ensures
        r is None ==> file_name_spec(p@) is None,
        r matches Some((s, e)) ==> {
            &&& s <= e <= p.len()
            &&& file_name_spec(p@) == Some(p@.subrange(s as int, e as int))
            &&& s == segment_start(strip_tail(p@))
        },
{
    let j = stripped_len(p);
    let q = sub_vec(p, 0, j);
    assert(q@ =~= strip_tail(p@));
    let s: usize = match rfind_char(&q, '/') {
        Some(i) => i + 1,
        None => 0,
    };
    assert(last_segment(p@) =~= p@.subrange(s as int, j as int));
    if s == j {
        return None;
    }
    let name = sub_vec(p, s, j);
    let dd = chars_of("..");
    proof {
        reveal_strlit("..");
        assert(dd@ =~= dot_dot());
    }
    if chars_eq(&name, &dd) {
        return None;
    }
    Some((s, j))
}

/// Position of the extension dot in `name`, if any.
pub fn ext_dot_exec(name: &Vec<char>) -> (r: Option<usize>)
    ensures
        r is None ==> ext_dot(name@) is None,
        r matches Some(i) ==> ext_dot(name@) == Some(i as int) && 0 < i < name.len(),
{
    match rfind_char(name, '.') {
        Some(i) => if i > 0 {
            Some(i)
        } else {
            None
        },
        None => None,
    }
}

/// `Path::file_name` on characters.
pub fn file_name_chars(p: &Vec<char>) -> (r: Option<Vec<char>>)
    ensures
        r matches Some(n) ==> file_name_spec(p@) == Some(n@),
        r is None ==> file_name_spec(p@) is None,
{
    match file_name_range(p) {
        Some((s, e)) => Some(sub_vec(p, s, e)),
        None => None,
    }
}

/// `Path::file_stem` on characters.
pub fn file_stem_chars(p: &Vec<char>) -> (r: Option<Vec<char>>)
    ensures
        r matches Some(n) ==> file_stem_spec(p@) == Some(n@),
        r is None ==> file_stem_spec(p@) is None,
{
    match file_name_chars(p) {
        Some(n) => match ext_dot_exec(&n) {
            Some(i) => Some(sub_vec(&n, 0, i)),
            None => Some(n),
        },
        None => None,
    }
}

/// `Path::extension` on characters.
pub fn extension_chars(p: &Vec<char>) -> (r: Option<Vec<char>>)
    ensures
        r matches Some(n) ==> extension_spec(p@) == Some(n@),
        r is None ==> extension_spec(p@) is None,
{
    match file_name_chars(p) {
        Some(n) => match ext_dot_exec(&n) {
            Some(i) => {
                let e = sub_vec(&n, i + 1, n.len());
                assert(e@ =~= n@.skip(i + 1));
                Some(e)
            },
            None => None,
        },
        None => None,
    }
}

/// `Path::with_extension` on characters.
pub fn with_extension_chars(p: &Vec<char>, ext: &str) -> (r: Vec<char>)
    ensures
        r@ == with_extension_spec(p@, ext@),
{
    match file_name_range(p) {
        Some((s, e)) => {
            let name = sub_vec(p, s, e);
            let stem_len = match ext_dot_exec(&name) {
                Some(i) => i,
                None => name.len(),
            };
            assert(stem_of(name@).len() == stem_len);
            let mut r = sub_vec(p, 0, s + stem_len);
            assert(r@ =~= p@.take(s + stem_len));
            let x = chars_of(ext);
            if x.len() > 0 {
                r.push('.');
                append_chars(&mut r, &x);
            }
            r
        },
        None => {
            let mut r: Vec<char> = Vec::new();
            append_chars(&mut r, p);
            assert(r@ =~= p@);
            r
        },
    }
}

/// `Path::join` on characters.
pub fn join_chars(base: &Vec<char>, rel: &Vec<char>) -> (r: Vec<char>)
    ensures
        r@ == join_spec(base@, rel@),
{
    let mut r: Vec<char> = Vec::new();
    if rel.len() > 0 && rel[0] == '/' {
        append_chars(&mut r, rel);
        assert(r@ =~= rel@);
        return r;
    }
    append_chars(&mut r, base);
    if base.len() > 0 && base[base.len() - 1] != '/' {
        r.push('/');
    }
    append_chars(&mut r, rel);
    r
}

/// `Path::file_name` of a path string.
pub fn file_name(path: &str) -> (r: Option<String>)
    ensures
        r matches Some(n) ==> file_name_spec(path@) == Some(n@),
        r is None ==> file_name_spec(path@) is None,
{
    let p = chars_of(path);
    match file_name_chars(&p) {
        Some(n) => Some(string_from_chars(&n)),
        None => None,
    }
}

/// `Path::file_stem` of a path string.
pub fn file_stem(path: &str) -> (r: Option<String>)
    ensures
        r matches Some(n) ==> file_stem_spec(path@) == Some(n@),
        r is None ==> file_stem_spec(path@) is None,
{
    let p = chars_of(path);
    match file_stem_chars(&p) {
        Some(n) => Some(string_from_chars(&n)),
        None => None,
    }
}

/// `Path::extension` of a path string.
pub fn extension(path: &str) -> (r: Option<String>)
    ensures
        r matches Some(n) ==> extension_spec(path@) == Some(n@),
        r is None ==> extension_spec(path@) is None,
{
    let p = chars_of(path);
    match extension_chars(&p) {
        Some(n) => Some(string_from_chars(&n)),
        None => None,
    }
}

/// `Path::with_extension` of a path string.
pub fn with_extension(path: &str, ext: &str) -> (r: String)
    ensures
        r@ == with_extension_spec(path@, ext@),
{
    let p = chars_of(path);
    let r = with_extension_chars(&p, ext);
    string_from_chars(&r)
}

/// `Path::join` of two path strings.
pub fn join(base: &str, rel: &str) -> (r: String)
    ensures
        r@ == join_spec(base@, rel@),
{
    let b = chars_of(base);
    let x = chars_of(rel);
    let r = join_chars(&b, &x);
    string_from_chars(&r)
}

} // verus!
