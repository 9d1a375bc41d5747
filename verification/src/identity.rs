//! Who a user is: the signed-in user, the display name shown for them, the
//! normalized submitter tag attached to their uploads, and which rows they
//! own.
use vstd::prelude::*;
use crate::text::{
    ascii_lower, char_is_ascii_alnum, char_to_ascii_lower, chars_of, first_index_of, find_char,
    is_ascii_alnum, is_ascii_digit, is_ascii_lower, opt_str_view, opt_string_view,
    string_from_chars, strip_back, strip_front, sub_vec, trim_class, trim_dashes_spec,
    trimmed_class,
};

verus! {

broadcast use vstd::string::group_string_axioms;

// ---------------------------------------------------------------------------
// Submitter tags
// ---------------------------------------------------------------------------

/// Left-to-right tag mapping: ASCII letters and digits are lowercased, every
/// run of other characters becomes a single `-`. `after_dash` says whether
/// the output so far ends in a `-` produced by this mapping.
pub open spec fn collapse(s: Seq<char>, after_dash: bool) -> Seq<char>
    decreases s.len(),
{
    if s.len() == 0 {
        Seq::empty()
    } else if is_ascii_alnum(s[0]) {
        seq![ascii_lower(s[0])] + collapse(s.drop_first(), false)
    } else if after_dash {
        collapse(s.drop_first(), true)
    } else {
        seq!['-'] + collapse(s.drop_first(), true)
    }
}

/// Submitter tag of a raw name: the collapsed mapping with leading and
/// trailing dashes removed, or `unknown` when nothing is left.
pub open spec fn tag_spec(s: Seq<char>) -> Seq<char> {
    let t = trim_dashes_spec(collapse(s, false));
    if t.len() == 0 {
        "unknown"@
    } else {
        t
    }
}

/// Characters a tag may contain.
pub open spec fn is_tag_char(c: char) -> bool {
    is_ascii_lower(c) || is_ascii_digit(c) || c == '-'
}

/// The shape of a normalized tag: lowercase ASCII letters, digits and single
/// dashes, with no dash at either end.
pub open spec fn is_normalized_tag(t: Seq<char>) -> bool {
    &&& t.len() > 0
    &&& forall|i: int| 0 <= i < t.len() ==> is_tag_char(#[trigger] t[i])
    &&& t[0] != '-'
    &&& t.last() != '-'
    &&& forall|i: int| 0 <= i < t.len() - 1 ==> !(#[trigger] t[i] == '-' && t[i + 1] == '-')
}

fn collapse_exec(v: &Vec<char>) -> (r: Vec<char>)
    ensures
        r@ == collapse(v@, false),
{
    let mut out: Vec<char> = Vec::new();
    let mut after_dash = false;
    let mut i: usize = 0;
    proof {
        assert(v@.skip(0) =~= v@);
        assert(out@ + collapse(v@, false) =~= collapse(v@, false));
    }
    while i < v.len()
        invariant
            i <= v.len(),
            out@ + collapse(v@.skip(i as int), after_dash) == collapse(v@, false),
        decreases v.len() - i,
    {
        let ghost before = out@;
        let ghost ad = after_dash;
        let c = v[i];
        proof {
            let s = v@.skip(i as int);
            assert(s[0] == c);
            assert(s.drop_first() =~= v@.skip(i + 1));
        }
        if char_is_ascii_alnum(c) {
            out.push(char_to_ascii_lower(c));
            after_dash = false;
            proof {
                let rest = collapse(v@.skip(i + 1), false);
                assert(before.push(ascii_lower(c)) + rest =~= before + (seq![ascii_lower(c)]
                    + rest));
            }
        } else if after_dash {
        } else {
            out.push('-');
            after_dash = true;
            proof {
                let rest = collapse(v@.skip(i + 1), true);
                assert(before.push('-') + rest =~= before + (seq!['-'] + rest));
            }
        }
        i = i + 1;
    }
    proof {
        assert(v@.skip(v.len() as int) =~= Seq::<char>::empty());
        assert(out@ + Seq::<char>::empty() =~= out@);
    }
    out
}

/// Normalizes a display name into a tag: ASCII letters and digits are
/// lowercased, each run of other characters becomes one `-`, dashes at either
/// end are dropped, and an empty result becomes `unknown`.
pub fn normalize_submitter_tag(value: &str) -> (r: String)
    ensures
        r@ == tag_spec(value@),
{
    let v = chars_of(value);
    let c = collapse_exec(&v);
    let t = trim_class(&c, true);
    if t.len() == 0 {
        "unknown".to_owned()
    } else {
        string_from_chars(&t)
    }
}

// Laws of the tag normalization.

proof fn lemma_collapse_shape(s: Seq<char>, after_dash: bool)
    ensures
        forall|i: int|
            0 <= i < collapse(s, after_dash).len() ==> is_tag_char(
                #[trigger] collapse(s, after_dash)[i],
            ),
        forall|i: int|
            0 <= i < collapse(s, after_dash).len() - 1 ==> !(#[trigger] collapse(
                s,
                after_dash,
            )[i] == '-' && collapse(s, after_dash)[i + 1] == '-'),
        after_dash && collapse(s, after_dash).len() > 0 ==> collapse(s, after_dash)[0] != '-',
    decreases s.len(),
{
    if s.len() > 0 {
        let rest = s.drop_first();
        if is_ascii_alnum(s[0]) {
            lemma_collapse_shape(rest, false);
            let c = collapse(s, after_dash);
            let r = collapse(rest, false);
            assert(c =~= seq![ascii_lower(s[0])] + r);
            assert forall|i: int| 0 <= i < c.len() implies is_tag_char(#[trigger] c[i]) by {
                if i > 0 {
                    assert(c[i] == r[i - 1]);
                }
            }
            assert forall|i: int| 0 <= i < c.len() - 1 implies !(#[trigger] c[i] == '-' && c[i
                + 1] == '-') by {
                if i > 0 {
                    assert(c[i] == r[i - 1]);
                    assert(c[i + 1] == r[i]);
                }
            }
        } else if after_dash {
            lemma_collapse_shape(rest, true);
        } else {
            lemma_collapse_shape(rest, true);
            let c = collapse(s, after_dash);
            let r = collapse(rest, true);
            assert(c =~= seq!['-'] + r);
            assert forall|i: int| 0 <= i < c.len() implies is_tag_char(#[trigger] c[i]) by {
                if i > 0 {
                    assert(c[i] == r[i - 1]);
                }
            }
            assert forall|i: int| 0 <= i < c.len() - 1 implies !(#[trigger] c[i] == '-' && c[i
                + 1] == '-') by {
                if i > 0 {
                    assert(c[i] == r[i - 1]);
                    assert(c[i + 1] == r[i]);
                }
            }
        }
    }
}

proof fn lemma_strip_front_is_suffix(s: Seq<char>, dash: bool)
    ensures
        exists|k: int| 0 <= k <= s.len() && strip_front(s, dash) == s.skip(k),
        strip_front(s, dash).len() > 0 ==> !trimmed_class(dash, strip_front(s, dash)[0]),
    decreases s.len(),
{
    if s.len() > 0 && trimmed_class(dash, s[0]) {
        lemma_strip_front_is_suffix(s.drop_first(), dash);
        let k = choose|k: int|
            0 <= k <= s.drop_first().len() && strip_front(s.drop_first(), dash)
                == s.drop_first().skip(k);
        assert(s.drop_first().skip(k) =~= s.skip(k + 1));
    } else {
        assert(s.skip(0) =~= s);
    }
}

proof fn lemma_strip_back_is_prefix(s: Seq<char>, dash: bool)
    ensures
        exists|k: int| 0 <= k <= s.len() && strip_back(s, dash) == s.take(k),
        strip_back(s, dash).len() > 0 ==> !trimmed_class(dash, strip_back(s, dash).last()),
    decreases s.len(),
{
    if s.len() > 0 && trimmed_class(dash, s.last()) {
        lemma_strip_back_is_prefix(s.drop_last(), dash);
        let k = choose|k: int|
            0 <= k <= s.drop_last().len() && strip_back(s.drop_last(), dash)
                == s.drop_last().take(k);
        assert(s.drop_last().take(k) =~= s.take(k));
    } else {
        assert(s.take(s.len() as int) =~= s);
    }
}

/// Every tag produced by `normalize_submitter_tag` is non-empty, made of
/// lowercase ASCII letters, digits and single dashes, and starts and ends
/// with a letter or digit.
pub proof fn lemma_tag_is_normalized(s: Seq<char>)
    ensures
        is_normalized_tag(tag_spec(s)),
{
    let c = collapse(s, false);
    lemma_collapse_shape(s, false);
    lemma_strip_front_is_suffix(c, true);
    let f = strip_front(c, true);
    let k1 = choose|k: int| 0 <= k <= c.len() && f == c.skip(k);
    lemma_strip_back_is_prefix(f, true);
    let t = strip_back(f, true);
    let k2 = choose|k: int| 0 <= k <= f.len() && t == f.take(k);
    assert(t == trim_dashes_spec(c));
    if t.len() == 0 {
        reveal_strlit("unknown");
        let u = tag_spec(s);
        assert(u == "unknown"@);
        assert(forall|i: int| 0 <= i < u.len() ==> is_tag_char(#[trigger] u[i]));
    } else {
        assert forall|i: int| 0 <= i < t.len() implies is_tag_char(#[trigger] t[i]) by {
            assert(t[i] == c[i + k1]);
        }
        assert forall|i: int| 0 <= i < t.len() - 1 implies !(#[trigger] t[i] == '-' && t[i + 1]
            == '-') by {
            assert(t[i] == c[i + k1]);
            assert(t[i + 1] == c[i + 1 + k1]);
        }
        assert(t[0] == f[0]);
    }
}

proof fn lemma_collapse_of_tag(t: Seq<char>, after_dash: bool)
    requires
        forall|i: int| 0 <= i < t.len() ==> is_tag_char(#[trigger] t[i]),
        forall|i: int| 0 <= i < t.len() - 1 ==> !(#[trigger] t[i] == '-' && t[i + 1] == '-'),
        after_dash && t.len() > 0 ==> t[0] != '-',
    ensures
        collapse(t, after_dash) == t,
    decreases t.len(),
{
    if t.len() > 0 {
        let rest = t.drop_first();
        assert forall|i: int| 0 <= i < rest.len() implies is_tag_char(#[trigger] rest[i]) by {
            assert(rest[i] == t[i + 1]);
        }
        assert forall|i: int| 0 <= i < rest.len() - 1 implies !(#[trigger] rest[i] == '-'
            && rest[i + 1] == '-') by {
            assert(rest[i] == t[i + 1]);
            assert(rest[i + 1] == t[i + 2]);
        }
        assert(is_tag_char(t[0]));
        if is_ascii_alnum(t[0]) {
            lemma_collapse_of_tag(rest, false);
            assert(ascii_lower(t[0]) == t[0]);
            assert(seq![t[0]] + rest =~= t);
        } else {
            assert(t[0] == '-');
            assert(!after_dash);
            if rest.len() > 0 {
                assert(!(t[0] == '-' && t[1] == '-'));
                assert(rest[0] == t[1]);
            }
            lemma_collapse_of_tag(rest, true);
            assert(seq!['-'] + rest =~= t);
        }
    }
}

/// Normalizing a tag again leaves it unchanged.
pub proof fn lemma_tag_idempotent(s: Seq<char>)
    ensures
        tag_spec(tag_spec(s)) == tag_spec(s),
{
    let t = tag_spec(s);
    lemma_tag_is_normalized(s);
    lemma_collapse_of_tag(t, false);
    assert(strip_front(t, true) == t);
    assert(strip_back(t, true) == t);
}

// ---------------------------------------------------------------------------
// Signed-in users
// ---------------------------------------------------------------------------

/// A signed-in user as stored in the session.
pub struct OidcUser {
    /// The identity provider's stable subject identifier, when known.
    pub sub: Option<String>,
    pub email: String,
    /// The provider's preferred user name, when known.
    pub username: Option<String>,
}

/// The local part of an e-mail address: everything before its first `@`,
/// provided there is an `@` and the part is not empty.
pub open spec fn email_local_spec(email: Seq<char>) -> Option<Seq<char>> {
    match first_index_of(email, '@') {
        Some(i) => if i > 0 {
            Some(email.take(i))
        } else {
            None
        },
        None => None,
    }
}

impl OidcUser {
    pub open spec fn display_spec(&self) -> Seq<char> {
        match self.username {
            Some(u) => u@,
            None => self.email@,
        }
    }

    /// The raw name a submitter tag is made from: the user name, else the
    /// e-mail local part, else the subject, else `unknown`.
    pub open spec fn tag_source_spec(&self) -> Seq<char> {
        match self.username {
            Some(u) => u@,
            None => match email_local_spec(self.email@) {
                Some(l) => l,
                None => match self.sub {
                    Some(s) => s@,
                    None => "unknown"@,
                },
            },
        }
    }

    /// Name shown in the UI: the preferred user name when present, else the
    /// e-mail address.
    pub fn display_name(&self) -> (r: &str)
        ensures
            r@ == self.display_spec(),
    {
        match &self.username {
            Some(u) => u.as_str(),
            None => self.email.as_str(),
        }
    }

    /// The provider's subject, which identifies the user across name changes.
    pub fn stable_subject(&self) -> (r: Option<&str>)
        ensures
            opt_str_view(r) == opt_string_view(self.sub),
    {
        match &self.sub {
            Some(s) => Some(s.as_str()),
            None => None,
        }
    }

    /// The name recorded as owner of what the user creates: the display name.
    pub fn owner_display(&self) -> (r: &str)
        ensures
            r@ == self.display_spec(),
    {
        self.display_name()
    }

    /// The user's normalized submitter tag.
    pub fn submitter_tag(&self) -> (r: String)
        ensures
            r@ == tag_spec(self.tag_source_spec()),
    {
        match &self.username {
            Some(u) => normalize_submitter_tag(u.as_str()),
            None => {
                let e = chars_of(self.email.as_str());
                match find_char(&e, '@') {
                    Some(i) if i > 0 => {
                        let l = sub_vec(&e, 0, i);
                        assert(l@ =~= e@.take(i as int));
                        let ls = string_from_chars(&l);
                        normalize_submitter_tag(ls.as_str())
                    },
                    _ => match &self.sub {
                        Some(s) => normalize_submitter_tag(s.as_str()),
                        None => normalize_submitter_tag("unknown"),
                    },
                }
            },
        }
    }
}

// ---------------------------------------------------------------------------
// Ownership
// ---------------------------------------------------------------------------

/// How rows are matched to their owner: by the provider subject when the
/// owner has one, otherwise by display name among rows without a subject.
pub enum OwnerScope {
    Subject(String),
    Display(String),
}

impl OwnerScope {
    /// Whether a row with these owner columns belongs to the scope.
    pub open spec fn owns(&self, row_sub: Option<Seq<char>>, row_display: Option<Seq<char>>) -> bool {
        match self {
            OwnerScope::Subject(s) => row_sub == Some(s@),
            OwnerScope::Display(d) => row_sub is None && row_display == Some(d@),
        }
    }

    /// The value bound to the scope's query parameter.
    pub fn bind_value(&self) -> (r: &str)
        ensures
            r@ == match self {
                OwnerScope::Subject(s) => s@,
                OwnerScope::Display(d) => d@,
            },
    {
        match self {
            OwnerScope::Subject(s) => s.as_str(),
            OwnerScope::Display(d) => d.as_str(),
        }
    }
}

/// The ownership scope of an owner with an optional subject and a display
/// name.
pub fn owner_scope(owner_sub: Option<&str>, owner_display: &str) -> (r: OwnerScope)
    ensures
        match owner_sub {
            Some(s) => r matches OwnerScope::Subject(x) && x@ == s@,
            None => r matches OwnerScope::Display(x) && x@ == owner_display@,
        },
{
    match owner_sub {
        Some(s) => OwnerScope::Subject(s.to_owned()),
        None => OwnerScope::Display(owner_display.to_owned()),
    }
}

/// Whether the status of a submission is shown to `user`: its submitter
/// subject equals the user's subject (both absent counts as equal), or
/// neither has a subject and the submitter display is the user's display
/// name.
pub open spec fn visible_spec(
    row_sub: Option<Seq<char>>,
    row_display: Option<Seq<char>>,
    user: OidcUser,
) -> bool {
    row_sub == opt_string_view(user.sub) || (row_sub is None && user.sub is None && row_display
        == Some(user.display_spec()))
}

fn opt_str_eq(a: Option<&str>, b: Option<&str>) -> (r: bool)
    ensures
        r == (opt_str_view(a) == opt_str_view(b)),
{
    match (a, b) {
        (Some(x), Some(y)) => {
            let xv = chars_of(x);
            crate::text::chars_eq_str(&xv, y)
        },
        (None, None) => true,
        _ => false,
    }
}

/// Whether `user` may see the status of a submission with these submitter
/// columns.
pub fn submission_visible_to(row_sub: Option<&str>, row_display: Option<&str>, user: &OidcUser) -> (r: bool)
    ensures
        r == visible_spec(opt_str_view(row_sub), opt_str_view(row_display), *user),
{
    let user_sub = user.stable_subject();
    if opt_str_eq(row_sub, user_sub) {
        return true;
    }
    row_sub.is_none() && user_sub.is_none() && opt_str_eq(row_display, Some(user.owner_display()))
}

/// A user with a subject sees exactly the submissions recorded under that
/// subject.
pub proof fn lemma_subject_users_see_own_rows(
    row_sub: Option<Seq<char>>,
    row_display: Option<Seq<char>>,
    user: OidcUser,
)
    requires
        user.sub is Some,
    ensures
        visible_spec(row_sub, row_display, user) <==> row_sub == Some(user.sub->0@),
{
}

} // verus!
