//! Character-level text handling shared by the rest of the library: turning
//! strings into character sequences and back, ASCII classification, Unicode
//! whitespace, trimming and substring search.
use vstd::prelude::*;

verus! {

broadcast use vstd::string::group_string_axioms;

/// The characters of an optional string slice.
pub open spec fn opt_str_view(o: Option<&str>) -> Option<Seq<char>> {
    match o {
        Some(s) => Some(s@),
        None => None,
    }
}

/// The characters of an optional string.
pub open spec fn opt_string_view(o: Option<String>) -> Option<Seq<char>> {
    match o {
        Some(s) => Some(s@),
        None => None,
    }
}

// ---------------------------------------------------------------------------
// Character classes
// ---------------------------------------------------------------------------

pub open spec fn is_ascii_digit(c: char) -> bool {
    '0' <= c && c <= '9'
}

pub open spec fn is_ascii_upper(c: char) -> bool {
    'A' <= c && c <= 'Z'
}

pub open spec fn is_ascii_lower(c: char) -> bool {
    'a' <= c && c <= 'z'
}

pub open spec fn is_ascii_alnum(c: char) -> bool {
    is_ascii_digit(c) || is_ascii_upper(c) || is_ascii_lower(c)
}

/// ASCII lowercase mapping: `A`..`Z` become `a`..`z`, every other character
/// is left alone.
pub open spec fn ascii_lower(c: char) -> char {
    if is_ascii_upper(c) {
        ((c as u8) + 32) as char
    } else {
        c
    }
}

pub open spec fn ascii_lower_seq(s: Seq<char>) -> Seq<char> {
    s.map_values(|c: char| ascii_lower(c))
}

/// The Unicode `White_Space` property: U+0009..U+000D, U+0020, U+0085,
/// U+00A0, U+1680, U+2000..U+200A, U+2028, U+2029, U+202F, U+205F, U+3000.
pub open spec fn is_white_space(c: char) -> bool {
    let u = c as u32;
    ||| 0x09 <= u && u <= 0x0d
    ||| u == 0x20
    ||| u == 0x85
    ||| u == 0xa0
    ||| u == 0x1680
    ||| 0x2000 <= u && u <= 0x200a
    ||| u == 0x2028
    ||| u == 0x2029
    ||| u == 0x202f
    ||| u == 0x205f
    ||| u == 0x3000
}

pub fn char_is_ascii_digit(c: char) -> (b: bool)
    ensures
        b == is_ascii_digit(c),
{
    '0' <= c && c <= '9'
}

pub fn char_is_ascii_alnum(c: char) -> (b: bool)
    ensures
        b == is_ascii_alnum(c),
{
    ('0' <= c && c <= '9') || ('A' <= c && c <= 'Z') || ('a' <= c && c <= 'z')
}

pub fn char_to_ascii_lower(c: char) -> (r: char)
    ensures
        r == ascii_lower(c),
{
    if 'A' <= c && c <= 'Z' {
        ((c as u8) + 32) as char
    } else {
        c
    }
}

pub fn char_is_white_space(c: char) -> (b: bool)
    ensures
        b == is_white_space(c),
{
    let u = c as u32;
    (0x09 <= u && u <= 0x0d) || u == 0x20 || u == 0x85 || u == 0xa0 || u == 0x1680 || (0x2000
        <= u && u <= 0x200a) || u == 0x2028 || u == 0x2029 || u == 0x202f || u == 0x205f || u
        == 0x3000
}

// ---------------------------------------------------------------------------
// Conversions between strings and character vectors
// ---------------------------------------------------------------------------

/// The characters of `s`, in order.
pub fn chars_of(s: &str) -> (v: Vec<char>)
    ensures
        v@ == s@,
{
    let mut v: Vec<char> = Vec::new();
    for c in it: s.chars()
        invariant
            v@ == it.seq().take(it.index()),
    {
        v.push(c);
    }
    v
}

/// Appends `c` to `s`.
///
/// Trusted: calls `String::push`, which the standard library documents as
/// appending the given `char` to the end of the string.
#[verifier::external_body]
fn push_char(s: &mut String, c: char)
    ensures
        final(s)@ == old(s)@.push(c),
{
    s.push(c)
}

/// The `String` of the characters of `v`, in order.
pub fn string_from_chars(v: &Vec<char>) -> (s: String)
    ensures
        s@ == v@,
{
    let mut s = String::new();
    let mut i: usize = 0;
    while i < v.len()
        invariant
            i <= v.len(),
            s@ == v@.take(i as int),
        decreases v.len() - i,
    {
        push_char(&mut s, v[i]);
        assert(v@.take(i + 1) =~= v@.take(i as int).push(v@[i as int]));
        i = i + 1;
    }
    assert(v@.take(v.len() as int) =~= v@);
    s
}

/// A copy of an optional string.
pub fn clone_opt_string(o: &Option<String>) -> (r: Option<String>)
    ensures
        opt_string_view(r) == opt_string_view(*o),
{
    match o {
        Some(s) => Some(s.clone()),
        None => None,
    }
}

/// An owned copy of `s`.
pub fn owned(s: &str) -> (r: String)
    ensures
        r@ == s@,
{
    s.to_owned()
}

/// `v[from..to]` as a new vector.
pub fn sub_vec(v: &Vec<char>, from: usize, to: usize) -> (r: Vec<char>)
    requires
        from <= to <= v.len(),
    ensures
        r@ == v@.subrange(from as int, to as int),
{
    let mut r: Vec<char> = Vec::new();
    let mut i = from;
    while i < to
        invariant
            from <= i <= to <= v.len(),
            r@ == v@.subrange(from as int, i as int),
        decreases to - i,
    {
        r.push(v[i]);
        i = i + 1;
    }
    r
}

/// Appends all of `src` to `dst`.
pub fn append_chars(dst: &mut Vec<char>, src: &Vec<char>)
    ensures
        final(dst)@ == old(dst)@ + src@,
{
    let mut i: usize = 0;
    let ghost start = dst@;
    while i < src.len()
        invariant
            i <= src.len(),
            dst@ == start + src@.take(i as int),
        decreases src.len() - i,
    {
        dst.push(src[i]);
        i = i + 1;
    }
    assert(src@.take(src.len() as int) =~= src@);
}

/// Appends the characters of `s` to `dst`.
pub fn append_str(dst: &mut Vec<char>, s: &str)
    ensures
        final(dst)@ == old(dst)@ + s@,
{
    let v = chars_of(s);
    append_chars(dst, &v);
}

// ---------------------------------------------------------------------------
// Comparison and search
// ---------------------------------------------------------------------------

pub fn chars_eq(a: &Vec<char>, b: &Vec<char>) -> (r: bool)
    ensures
        r == (a@ == b@),
{
    if a.len() != b.len() {
        return false;
    }
    let mut i: usize = 0;
    while i < a.len()
        invariant
            a.len() == b.len(),
            i <= a.len(),
            forall|k: int| 0 <= k < i ==> a@[k] == b@[k],
        decreases a.len() - i,
    {
        if a[i] != b[i] {
            return false;
        }
        i = i + 1;
    }
    assert(a@ =~= b@);
    true
}

/// Whether the characters of `v` spell out `s`.
pub fn chars_eq_str(v: &Vec<char>, s: &str) -> (r: bool)
    ensures
        r == (v@ == s@),
{
    let w = chars_of(s);
    chars_eq(v, &w)
}

/// `pat` occurs in `s` starting at index `i`.
pub open spec fn occurs_at(s: Seq<char>, pat: Seq<char>, i: int) -> bool {
    0 <= i && i + pat.len() <= s.len() && s.subrange(i, i + pat.len()) == pat
}

pub open spec fn has_prefix(s: Seq<char>, pat: Seq<char>) -> bool {
    occurs_at(s, pat, 0)
}

pub open spec fn has_suffix(s: Seq<char>, pat: Seq<char>) -> bool {
    occurs_at(s, pat, s.len() - pat.len())
}

pub open spec fn contains_seq(s: Seq<char>, pat: Seq<char>) -> bool {
    exists|i: int| occurs_at(s, pat, i)
}

/// Whether `pat` occurs in `v` at index `i`.
pub fn occurs_at_exec(v: &Vec<char>, pat: &Vec<char>, i: usize) -> (r: bool)
    ensures
        r == occurs_at(v@, pat@, i as int),
{
    if i > v.len() || pat.len() > v.len() - i {
        return false;
    }
    let mut k: usize = 0;
    while k < pat.len()
        invariant
            i + pat.len() <= v.len(),
            k <= pat.len(),
            forall|j: int| 0 <= j < k ==> v@[i + j] == pat@[j],
        decreases pat.len() - k,
    {
        if v[i + k] != pat[k] {
            assert(v@.subrange(i as int, i + pat.len())[k as int] != pat@[k as int]);
            return false;
        }
        k = k + 1;
    }
    assert(v@.subrange(i as int, i + pat.len()) =~= pat@);
    true
}

pub fn starts_with(v: &Vec<char>, pat: &str) -> (r: bool)
    ensures
        r == has_prefix(v@, pat@),
{
    let p = chars_of(pat);
    occurs_at_exec(v, &p, 0)
}

pub fn ends_with(v: &Vec<char>, pat: &str) -> (r: bool)
    ensures
        r == has_suffix(v@, pat@),
{
    let p = chars_of(pat);
    if p.len() > v.len() {
        return false;
    }
    occurs_at_exec(v, &p, v.len() - p.len())
}

/// Index of the first occurrence of `pat` in `s`, if any.
pub open spec fn first_occurrence(s: Seq<char>, pat: Seq<char>) -> Option<int> {
    if exists|i: int| occurs_at(s, pat, i) && forall|j: int| 0 <= j < i ==> !occurs_at(s, pat, j) {
        Some(
            choose|i: int|
                occurs_at(s, pat, i) && forall|j: int| 0 <= j < i ==> !occurs_at(s, pat, j),
        )
    } else {
        None
    }
}

pub proof fn lemma_first_occurrence_bounds(s: Seq<char>, pat: Seq<char>)
    ensures
        first_occurrence(s, pat) matches Some(i) ==> occurs_at(s, pat, i),
{
}

/// Index of the first occurrence of `pat` in `v`.
pub fn find(v: &Vec<char>, pat: &Vec<char>) -> (r: Option<usize>)
    ensures
        r matches Some(i) ==> occurs_at(v@, pat@, i as int) && forall|j: int|
            0 <= j < i ==> !occurs_at(v@, pat@, j),
        r is None ==> !contains_seq(v@, pat@),
        r matches Some(i) ==> first_occurrence(v@, pat@) == Some(i as int),
        r is None ==> first_occurrence(v@, pat@) is None,
{
    let mut i: usize = 0;
    loop
        invariant
            i <= v.len(),
            forall|j: int| 0 <= j < i ==> !occurs_at(v@, pat@, j),
        ensures
            forall|j: int| 0 <= j <= v.len() ==> !occurs_at(v@, pat@, j),
        decreases v.len() - i,
    {
        if occurs_at_exec(v, pat, i) {
            proof {
                let f = first_occurrence(v@, pat@);
                assert(contains_seq(v@, pat@));
                let c = f->0;
                assert(occurs_at(v@, pat@, c));
                if c < i {
                } else if c > i {
                    assert(!occurs_at(v@, pat@, i as int));
                }
            }
            return Some(i);
        }
        if i == v.len() {
            break;
        }
        i = i + 1;
    }
    proof {
        assert forall|j: int| !occurs_at(v@, pat@, j) by {
            if 0 <= j <= v.len() {
            }
        }
    }
    None
}

/// Whether `pat` occurs anywhere in `v`.
pub fn contains(v: &Vec<char>, pat: &str) -> (r: bool)
    ensures
        r == contains_seq(v@, pat@),
{
    let p = chars_of(pat);
    find(v, &p).is_some()
}

/// Index of the last occurrence of `c` in `s`, if any.
pub open spec fn last_index_of(s: Seq<char>, c: char) -> Option<int> {
    if exists|i: int|
        0 <= i < s.len() && s[i] == c && forall|j: int| i < j < s.len() ==> s[j] != c {
        Some(
            choose|i: int|
                0 <= i < s.len() && s[i] == c && forall|j: int| i < j < s.len() ==> s[j] != c,
        )
    } else {
        None
    }
}

/// Index of the first occurrence of `c` in `s`, if any.
pub open spec fn first_index_of(s: Seq<char>, c: char) -> Option<int> {
    if exists|i: int| 0 <= i < s.len() && s[i] == c && forall|j: int| 0 <= j < i ==> s[j] != c {
        Some(
            choose|i: int| 0 <= i < s.len() && s[i] == c && forall|j: int| 0 <= j < i ==> s[j] != c,
        )
    } else {
        None
    }
}

pub fn rfind_char(v: &Vec<char>, c: char) -> (r: Option<usize>)
    ensures
        r matches Some(i) ==> i < v.len() && v@[i as int] == c && forall|j: int|
            i < j < v.len() ==> v@[j] != c,
        r is None ==> forall|j: int| 0 <= j < v.len() ==> v@[j] != c,
        r matches Some(i) ==> last_index_of(v@, c) == Some(i as int),
        r is None ==> last_index_of(v@, c) is None,
{
    let mut i = v.len();
    while i > 0
        invariant
            i <= v.len(),
            forall|j: int| i <= j < v.len() ==> v@[j] != c,
        decreases i,
    {
        if v[i - 1] == c {
            proof {
                let w = (i - 1) as int;
                let l = last_index_of(v@, c);
                assert(0 <= w < v.len() && v@[w] == c);
                let x = l->0;
                if x < w {
                } else if x > w {
                }
            }
            return Some(i - 1);
        }
        i = i - 1;
    }
    None
}

pub fn find_char(v: &Vec<char>, c: char) -> (r: Option<usize>)
    ensures
        r matches Some(i) ==> i < v.len() && v@[i as int] == c && forall|j: int|
            0 <= j < i ==> v@[j] != c,
        r is None ==> forall|j: int| 0 <= j < v.len() ==> v@[j] != c,
        r matches Some(i) ==> first_index_of(v@, c) == Some(i as int),
        r is None ==> first_index_of(v@, c) is None,
{
    let mut i: usize = 0;
    while i < v.len()
        invariant
            i <= v.len(),
            forall|j: int| 0 <= j < i ==> v@[j] != c,
        decreases v.len() - i,
    {
        if v[i] == c {
            proof {
                let l = first_index_of(v@, c);
                let x = l->0;
                if x < i {
                } else if x > i {
                }
            }
            return Some(i);
        }
        i = i + 1;
    }
    None
}

/// ASCII lowercase of every character.
pub fn to_ascii_lower(v: &Vec<char>) -> (r: Vec<char>)
    ensures
        r@ == ascii_lower_seq(v@),
{
    let mut r: Vec<char> = Vec::new();
    let mut i: usize = 0;
    while i < v.len()
        invariant
            i <= v.len(),
            r@ == ascii_lower_seq(v@.take(i as int)),
        decreases v.len() - i,
    {
        r.push(char_to_ascii_lower(v[i]));
        i = i + 1;
        assert(ascii_lower_seq(v@.take(i as int)) =~= ascii_lower_seq(v@.take(i - 1 as int)).push(
            ascii_lower(v@[i - 1]),
        ));
    }
    assert(v@.take(v.len() as int) =~= v@);
    r
}

// ---------------------------------------------------------------------------
// Decimal numbers
// ---------------------------------------------------------------------------

/// The ASCII digit for `d < 10`.
pub open spec fn digit_char(d: nat) -> char {
    ((d + 48) as u8) as char
}

/// The decimal representation of `n`, without sign or leading zeros.
pub open spec fn decimal(n: nat) -> Seq<char>
    decreases n,
{
    if n < 10 {
        seq![digit_char(n)]
    } else {
        decimal(n / 10).push(digit_char(n % 10))
    }
}

pub proof fn lemma_decimal_len(n: nat)
    ensures
        decimal(n).len() >= 1,
        n >= 10 ==> decimal(n).len() >= 2,
    decreases n,
{
    if n >= 10 {
        lemma_decimal_len(n / 10);
    }
}

proof fn lemma_digit_char_injective(a: nat, b: nat)
    requires
        a < 10,
        b < 10,
        digit_char(a) == digit_char(b),
    ensures
        a == b,
{
    assert((a + 48) as u8 == a + 48);
    assert((b + 48) as u8 == b + 48);
    assert(((a + 48) as u8) as char as int == a + 48);
    assert(((b + 48) as u8) as char as int == b + 48);
}

/// Different numbers have different decimal representations.
pub proof fn lemma_decimal_injective(m: nat, n: nat)
    requires
        decimal(m) == decimal(n),
    ensures
        m == n,
    decreases m + n,
{
    lemma_decimal_len(m);
    lemma_decimal_len(n);
    if m < 10 && n < 10 {
        assert(decimal(m)[0] == digit_char(m));
        assert(decimal(n)[0] == digit_char(n));
        lemma_digit_char_injective(m, n);
    } else if m >= 10 && n >= 10 {
        let dm = decimal(m);
        let dn = decimal(n);
        assert(dm.last() == digit_char(m % 10));
        assert(dn.last() == digit_char(n % 10));
        lemma_digit_char_injective(m % 10, n % 10);
        assert(dm.drop_last() =~= decimal(m / 10));
        assert(dn.drop_last() =~= decimal(n / 10));
        lemma_decimal_injective(m / 10, n / 10);
    } else {
        assert(decimal(m).len() != decimal(n).len());
    }
}

/// Appends the decimal representation of `n`.
pub fn push_decimal(out: &mut Vec<char>, n: u64)
    ensures
        final(out)@ == old(out)@ + decimal(n as nat),
    decreases n,
{
    if n >= 10 {
        push_decimal(out, n / 10);
    }
    let d = (n % 10) as u8;
    out.push((d + 48) as char);
}

// ---------------------------------------------------------------------------
// Trimming
// ---------------------------------------------------------------------------

/// The predicate a trim removes: Unicode whitespace, or the `-` character.
pub open spec fn trimmed_class(dash: bool, c: char) -> bool {
    if dash {
        c == '-'
    } else {
        is_white_space(c)
    }
}

/// `s` without its leading characters of the class.
pub open spec fn strip_front(s: Seq<char>, dash: bool) -> Seq<char>
    decreases s.len(),
{
    if s.len() > 0 && trimmed_class(dash, s[0]) {
        strip_front(s.drop_first(), dash)
    } else {
        s
    }
}

/// `s` without its trailing characters of the class.
pub open spec fn strip_back(s: Seq<char>, dash: bool) -> Seq<char>
    decreases s.len(),
{
    if s.len() > 0 && trimmed_class(dash, s.last()) {
        strip_back(s.drop_last(), dash)
    } else {
        s
    }
}

/// `str::trim`: leading and trailing Unicode whitespace removed.
pub open spec fn trim_spec(s: Seq<char>) -> Seq<char> {
    strip_back(strip_front(s, false), false)
}

/// `str::trim_matches('-')`: leading and trailing dashes removed.
pub open spec fn trim_dashes_spec(s: Seq<char>) -> Seq<char> {
    strip_back(strip_front(s, true), true)
}

proof fn lemma_strip_front_at(s: Seq<char>, dash: bool, i: int)
    requires
        0 <= i <= s.len(),
        forall|k: int| 0 <= k < i ==> trimmed_class(dash, #[trigger] s[k]),
        i == s.len() || !trimmed_class(dash, s[i]),
    ensures
        strip_front(s, dash) == s.skip(i),
    decreases i,
{
    if i == 0 {
        assert(s.skip(0) =~= s);
    } else {
        let t = s.drop_first();
        assert forall|k: int| 0 <= k < i - 1 implies trimmed_class(dash, #[trigger] t[k]) by {
            assert(t[k] == s[k + 1]);
        }
        lemma_strip_front_at(t, dash, i - 1);
        assert(t.skip(i - 1) =~= s.skip(i));
    }
}

proof fn lemma_strip_back_at(s: Seq<char>, dash: bool, j: int)
    requires
        0 <= j <= s.len(),
        forall|k: int| j <= k < s.len() ==> trimmed_class(dash, #[trigger] s[k]),
        j == 0 || !trimmed_class(dash, s[j - 1]),
    ensures
        strip_back(s, dash) == s.take(j),
    decreases s.len() - j,
{
    if j == s.len() {
        assert(s.take(j) =~= s);
    } else {
        let t = s.drop_last();
        assert forall|k: int| j <= k < t.len() implies trimmed_class(dash, #[trigger] t[k]) by {
            assert(t[k] == s[k]);
        }
        lemma_strip_back_at(t, dash, j);
        assert(t.take(j) =~= s.take(j));
    }
}

/// Trimming keeps only characters of `s`: a property of every character of
/// `s` holds of every character of the trimmed sequence, whose ends are
/// outside the trimmed class.
pub proof fn lemma_trim_keeps(s: Seq<char>, dash: bool, p: spec_fn(char) -> bool)
    requires
        forall|k: int| 0 <= k < s.len() ==> p(#[trigger] s[k]),
    ensures
        forall|i: int|
            0 <= i < strip_back(strip_front(s, dash), dash).len() ==> p(
                #[trigger] strip_back(strip_front(s, dash), dash)[i],
            ),
        strip_back(strip_front(s, dash), dash).len() > 0 ==> !trimmed_class(
            dash,
            strip_back(strip_front(s, dash), dash)[0],
        ) && !trimmed_class(dash, strip_back(strip_front(s, dash), dash).last()),
{
    lemma_strip_front_keeps(s, dash, p);
    let f = strip_front(s, dash);
    lemma_strip_back_keeps(f, dash, p);
}

proof fn lemma_strip_front_keeps(s: Seq<char>, dash: bool, p: spec_fn(char) -> bool)
    requires
        forall|k: int| 0 <= k < s.len() ==> p(#[trigger] s[k]),
    ensures
        forall|i: int| 0 <= i < strip_front(s, dash).len() ==> p(#[trigger] strip_front(s, dash)[i]),
        strip_front(s, dash).len() > 0 ==> !trimmed_class(dash, strip_front(s, dash)[0]),
    decreases s.len(),
{
    if s.len() > 0 && trimmed_class(dash, s[0]) {
        let t = s.drop_first();
        assert forall|k: int| 0 <= k < t.len() implies p(#[trigger] t[k]) by {
            assert(t[k] == s[k + 1]);
        }
        lemma_strip_front_keeps(t, dash, p);
    }
}

proof fn lemma_strip_back_keeps(s: Seq<char>, dash: bool, p: spec_fn(char) -> bool)
    requires
        forall|k: int| 0 <= k < s.len() ==> p(#[trigger] s[k]),
        s.len() > 0 ==> !trimmed_class(dash, s[0]),
    ensures
        forall|i: int| 0 <= i < strip_back(s, dash).len() ==> p(#[trigger] strip_back(s, dash)[i]),
        strip_back(s, dash).len() > 0 ==> !trimmed_class(dash, strip_back(s, dash)[0])
            && !trimmed_class(dash, strip_back(s, dash).last()),
    decreases s.len(),
{
    if s.len() > 0 && trimmed_class(dash, s.last()) {
        let t = s.drop_last();
        assert forall|k: int| 0 <= k < t.len() implies p(#[trigger] t[k]) by {
            assert(t[k] == s[k]);
        }
        if t.len() > 0 {
            assert(t[0] == s[0]);
        }
        lemma_strip_back_keeps(t, dash, p);
    }
}

fn in_trimmed_class(dash: bool, c: char) -> (b: bool)
    ensures
        b == trimmed_class(dash, c),
{
    if dash {
        c == '-'
    } else {
        char_is_white_space(c)
    }
}

/// `v` without its leading and trailing characters of the class.
pub fn trim_class(v: &Vec<char>, dash: bool) -> (r: Vec<char>)
    ensures
        r@ == strip_back(strip_front(v@, dash), dash),
{
    let n = v.len();
    let mut i: usize = 0;
    while i < n && in_trimmed_class(dash, v[i])
        invariant
            n == v.len(),
            i <= n,
            forall|k: int| 0 <= k < i ==> trimmed_class(dash, #[trigger] v@[k]),
        decreases n - i,
    {
        i = i + 1;
    }
    proof {
        lemma_strip_front_at(v@, dash, i as int);
    }
    let mut j: usize = n;
    while j > i && in_trimmed_class(dash, v[j - 1])
        invariant
            n == v.len(),
            i <= j <= n,
            forall|k: int| j <= k < n ==> trimmed_class(dash, #[trigger] v@[k]),
        decreases j,
    {
        j = j - 1;
    }
    proof {
        let t = v@.skip(i as int);
        assert forall|k: int| j - i <= k < t.len() implies trimmed_class(dash, #[trigger] t[k]) by {
            assert(t[k] == v@[k + i]);
        }
        if j > i {
            assert(t[j - i - 1] == v@[j - 1]);
        }
        lemma_strip_back_at(t, dash, j - i);
        assert(t.take(j - i) =~= v@.subrange(i as int, j as int));
    }
    sub_vec(v, i, j)
}

/// `str::trim`: `s` without leading and trailing Unicode whitespace.
pub fn trim(s: &str) -> (r: String)
    ensures
        r@ == trim_spec(s@),
{
    let v = chars_of(s);
    let t = trim_class(&v, false);
    string_from_chars(&t)
}

} // verus!
