//! Decisions of the HTTP handlers: accepting a submission, who submitted it,
//! and the public URLs built from request headers.
use vstd::prelude::*;
use crate::identity::{normalize_submitter_tag, tag_spec, OidcUser};
use crate::keys::VerifiedApiKey;
use crate::text::{
    append_str, chars_of, find_char, first_index_of, opt_str_view, opt_string_view,
    string_from_chars, sub_vec, trim_class, trim_spec,
};

verus! {

broadcast use vstd::string::group_string_axioms;

/// How many times a failed download or MeTube submission is retried.
pub const MAX_DOWNLOAD_RETRIES: usize = 3;

/// Trimmed text, or `None` when it is absent or blank.
pub open spec fn optional_text_spec(value: Option<Seq<char>>) -> Option<Seq<char>> {
    match value {
        Some(v) => if trim_spec(v).len() > 0 {
            Some(trim_spec(v))
        } else {
            None
        },
        None => None,
    }
}

pub fn normalize_optional_text(value: Option<&str>) -> (r: Option<String>)
    ensures
        opt_string_view(r) == optional_text_spec(opt_str_view(value)),
{
    match value {
        Some(v) => {
            let c = chars_of(v);
            let t = trim_class(&c, false);
            if t.len() > 0 {
                Some(string_from_chars(&t))
            } else {
                None
            }
        },
        None => None,
    }
}

/// Who is submitting: an API key (browser extension, shortcut) or a
/// signed-in web user.
pub struct Submitter {
    pub api_key_id: Option<String>,
    pub owner_sub: Option<String>,
    pub owner_display: Option<String>,
}

impl Submitter {
    /// The submitter behind a verified API key: the key and its owner.
    pub fn from_api_key(key: VerifiedApiKey) -> (r: Submitter)
        ensures
            opt_string_view(r.api_key_id) == Some(key.id@),
            opt_string_view(r.owner_sub) == opt_string_view(key.owner_sub),
            opt_string_view(r.owner_display) == opt_string_view(key.owner_display),
    {
        Submitter { api_key_id: Some(key.id), owner_sub: key.owner_sub, owner_display: key.owner_display }
    }

    /// A signed-in user: no key, the user's subject and display name.
    pub fn from_user(user: &OidcUser) -> (r: Submitter)
        ensures
            r.api_key_id is None,
            opt_string_view(r.owner_sub) == opt_string_view(user.sub),
            opt_string_view(r.owner_display) == Some(user.display_spec()),
    {
        let sub = match user.stable_subject() {
            Some(s) => Some(s.to_owned()),
            None => None,
        };
        Submitter { api_key_id: None, owner_sub: sub, owner_display: Some(user.owner_display().to_owned()) }
    }
}

/// Why a submission is refused.
#[derive(Debug, Clone, Copy, PartialEq, Eq, Structural)]
pub enum SubmitError {
    /// No `X-API-Key` header (401).
    MissingApiKey,
    /// The key matches no stored key (401).
    InvalidApiKey,
    /// Neither a site yt-dlp supports nor a direct media URL (422).
    UnsupportedUrl,
    /// The submission could not be read or recorded (500).
    Database,
    /// MeTube refused the URL on every attempt (503).
    MetubeUnavailable,
}

impl SubmitError {
    pub open spec fn status_spec(&self) -> u16 {
        match self {
            SubmitError::MissingApiKey => 401,
            SubmitError::InvalidApiKey => 401,
            SubmitError::UnsupportedUrl => 422,
            SubmitError::Database => 500,
            SubmitError::MetubeUnavailable => 503,
        }
    }

    pub open spec fn message_spec(&self) -> Seq<char> {
        match self {
            SubmitError::MissingApiKey => "missing API key"@,
            SubmitError::InvalidApiKey => "invalid API key"@,
            SubmitError::UnsupportedUrl => "URL not supported — must be from a site yt-dlp can download"@,
            SubmitError::Database => "db error"@,
            SubmitError::MetubeUnavailable => "metube unavailable"@,
        }
    }

    /// HTTP status code of the refusal.
    pub fn status(&self) -> (r: u16)
        ensures
            r == self.status_spec(),
    {
        match self {
            SubmitError::MissingApiKey => 401,
            SubmitError::InvalidApiKey => 401,
            SubmitError::UnsupportedUrl => 422,
            SubmitError::Database => 500,
            SubmitError::MetubeUnavailable => 503,
        }
    }

    /// The error message of the refusal.
    pub fn message(&self) -> (r: &'static str)
        ensures
            r@ == self.message_spec(),
    {
        match self {
            SubmitError::MissingApiKey => "missing API key",
            SubmitError::InvalidApiKey => "invalid API key",
            SubmitError::UnsupportedUrl => "URL not supported — must be from a site yt-dlp can download",
            SubmitError::Database => "db error",
            SubmitError::MetubeUnavailable => "metube unavailable",
        }
    }
}

/// What a verified-key lookup means for a submission: the submitter, an
/// invalid key, or a database failure.
pub fn submitter_from_lookup(lookup: Result<Option<VerifiedApiKey>, ()>) -> (r: Result<Submitter, SubmitError>)
    ensures
        match lookup {
            Ok(Some(k)) => r matches Ok(s) && opt_string_view(s.api_key_id) == Some(k.id@)
                && opt_string_view(s.owner_sub) == opt_string_view(k.owner_sub) && opt_string_view(
                s.owner_display,
            ) == opt_string_view(k.owner_display),
            Ok(None) => r == Err::<Submitter, SubmitError>(SubmitError::InvalidApiKey),
            Err(_) => r == Err::<Submitter, SubmitError>(SubmitError::Database),
        },
{
    match lookup {
        Ok(Some(k)) => Ok(Submitter::from_api_key(k)),
        Ok(None) => Err(SubmitError::InvalidApiKey),
        Err(_) => Err(SubmitError::Database),
    }
}

/// How an accepted submission is recorded and downloaded.
pub struct EnqueuePlan {
    /// Where the submission came from: the given source, else the default.
    pub source: String,
    /// Downloaded directly (media URL) rather than through MeTube.
    pub is_direct: bool,
    /// Tag of the submitter, when the submitter has a display name.
    pub submitter_tag: Option<String>,
    /// Recorded before the download starts. A direct download is recorded
    /// first, since its progress is kept under the record; a MeTube
    /// submission is recorded only once MeTube has accepted it, so an
    /// unreachable MeTube leaves no record.
    pub record_first: bool,
}

/// Accepts a URL that yt-dlp supports or that names media directly;
/// `supported` and `direct` are the verdicts of the URL checks.
pub fn plan_enqueue(
    source: Option<&str>,
    default_source: &str,
    supported: bool,
    direct: bool,
    submitter: &Submitter,
) -> (r: Result<EnqueuePlan, SubmitError>)
    ensures
        r is Err <==> (!supported && !direct),
        r matches Err(e) ==> e == SubmitError::UnsupportedUrl,
        r matches Ok(p) ==> {
            &&& p.source@ == match optional_text_spec(opt_str_view(source)) {
                Some(s) => s,
                None => default_source@,
            }
            &&& p.is_direct == direct
            &&& p.record_first == direct
            &&& opt_string_view(p.submitter_tag) == match submitter.owner_display {
                Some(d) => Some(tag_spec(d@)),
                None => None,
            }
        },
{
    let src = match normalize_optional_text(source) {
        Some(s) => s,
        None => default_source.to_owned(),
    };
    if !supported && !direct {
        return Err(SubmitError::UnsupportedUrl);
    }
    let submitter_tag = match &submitter.owner_display {
        Some(d) => Some(normalize_submitter_tag(d.as_str())),
        None => None,
    };
    Ok(EnqueuePlan { source: src, is_direct: direct, submitter_tag, record_first: direct })
}

/// Number of download or MeTube submission attempts: the first one and the
/// retries.
pub fn download_attempts() -> (r: usize)
    ensures
        r == MAX_DOWNLOAD_RETRIES + 1,
{
    MAX_DOWNLOAD_RETRIES + 1
}

/// The next step of a retried download or MeTube submission after attempt
/// number `attempt` (counting from 0).
#[derive(Debug, Clone, Copy, PartialEq, Eq, Structural)]
pub enum RetryStep {
    /// The attempt succeeded.
    Done,
    /// Try again; the number of the next attempt.
    Retry(usize),
    /// Every attempt failed.
    GiveUp,
}

/// Stops on success, retries a failure while retries are left, and gives up
/// after the attempt numbered `MAX_DOWNLOAD_RETRIES`.
pub fn retry_step(attempt: usize, succeeded: bool) -> (r: RetryStep)
    requires
        attempt <= MAX_DOWNLOAD_RETRIES,
    ensures
        succeeded ==> r == RetryStep::Done,
        !succeeded && attempt < MAX_DOWNLOAD_RETRIES ==> r == RetryStep::Retry((attempt + 1) as usize),
        !succeeded && attempt == MAX_DOWNLOAD_RETRIES ==> r == RetryStep::GiveUp,
{
    if succeeded {
        RetryStep::Done
    } else if attempt < MAX_DOWNLOAD_RETRIES {
        RetryStep::Retry(attempt + 1)
    } else {
        RetryStep::GiveUp
    }
}

/// The answer to a MeTube submission after the attempts: accepted (the
/// submission is then recorded and queued), or MeTube is unavailable (nothing
/// is recorded).
pub fn metube_outcome(submitted: bool) -> (r: Result<(), SubmitError>)
    ensures
        submitted ==> r is Ok,
        !submitted ==> r == Err::<(), SubmitError>(SubmitError::MetubeUnavailable),
{
    if submitted {
        Ok(())
    } else {
        Err(SubmitError::MetubeUnavailable)
    }
}

// ---------------------------------------------------------------------------
// URLs from request headers
// ---------------------------------------------------------------------------

/// The first comma-separated field of a header value, trimmed, if not empty.
pub open spec fn first_field_spec(v: Seq<char>) -> Option<Seq<char>> {
    let f = match first_index_of(v, ',') {
        Some(i) => v.take(i),
        None => v,
    };
    if trim_spec(f).len() > 0 {
        Some(trim_spec(f))
    } else {
        None
    }
}

fn first_field(v: &str) -> (r: Option<Vec<char>>)
    ensures
        r matches Some(f) ==> first_field_spec(v@) == Some(f@),
        r is None ==> first_field_spec(v@) is None,
{
    let c = chars_of(v);
    let f = match find_char(&c, ',') {
        Some(i) => {
            let f = sub_vec(&c, 0, i);
            assert(f@ =~= c@.take(i as int));
            f
        },
        None => c,
    };
    let t = trim_class(&f, false);
    if t.len() > 0 {
        Some(t)
    } else {
        None
    }
}

/// The origin clients reached the server at: the forwarded scheme (default
/// `http`) and the forwarded or direct host, each taken from the first
/// comma-separated field of its header.
pub open spec fn request_origin_spec(forwarded_proto: Option<Seq<char>>, host: Option<Seq<char>>) -> Option<
    Seq<char>,
> {
    let scheme = match forwarded_proto {
        Some(p) => match first_field_spec(p) {
            Some(s) => s,
            None => "http"@,
        },
        None => "http"@,
    };
    match host {
        Some(h) => match first_field_spec(h) {
            Some(hh) => Some(scheme + "://"@ + hh),
            None => None,
        },
        None => None,
    }
}

/// The request's public origin, from `X-Forwarded-Proto` and the host
/// header value (`X-Forwarded-Host`, else `Host`); `None` without a host.
pub fn request_origin(forwarded_proto: Option<&str>, host: Option<&str>) -> (r: Option<String>)
    ensures
        opt_string_view(r) == request_origin_spec(opt_str_view(forwarded_proto), opt_str_view(host)),
{
    let scheme = match forwarded_proto {
        Some(p) => match first_field(p) {
            Some(s) => s,
            None => chars_of("http"),
        },
        None => chars_of("http"),
    };
    let h = match host {
        Some(h) => match first_field(h) {
            Some(hh) => hh,
            None => return None,
        },
        None => return None,
    };
    let mut out = scheme;
    append_str(&mut out, "://");
    crate::text::append_chars(&mut out, &h);
    Some(string_from_chars(&out))
}

/// The submit endpoint a shortcut posts to.
pub fn shortcut_submit_url(origin: &str) -> (r: String)
    ensures
        r@ == origin@ + "/api/submit"@,
{
    let mut v = chars_of(origin);
    append_str(&mut v, "/api/submit");
    string_from_chars(&v)
}

/// The setup URL a shortcut exchanges for its key: the public setup
/// endpoint for `token`.
pub fn shortcut_setup_url(origin: &str, token: &str) -> (r: String)
    ensures
        r@ == origin@ + "/api/shortcut/setup/"@ + token@,
{
    let mut v = chars_of(origin);
    append_str(&mut v, "/api/shortcut/setup/");
    append_str(&mut v, token);
    string_from_chars(&v)
}

/// Base URL of PeerTube links: the request scheme (`X-Forwarded-Proto`, else
/// `http`) with the public PeerTube host; empty when the host is not set.
pub open spec fn peertube_base_spec(forwarded_proto: Option<Seq<char>>, peertube_host: Option<Seq<char>>) -> Seq<
    char,
> {
    match peertube_host {
        Some(h) => (match forwarded_proto {
            Some(p) => p,
            None => "http"@,
        }) + "://"@ + h,
        None => Seq::empty(),
    }
}

pub fn peertube_base(forwarded_proto: Option<&str>, peertube_host: Option<&str>) -> (r: String)
    ensures
        r@ == peertube_base_spec(opt_str_view(forwarded_proto), opt_str_view(peertube_host)),
{
    match peertube_host {
        Some(h) => {
            let mut v = match forwarded_proto {
                Some(p) => chars_of(p),
                None => chars_of("http"),
            };
            append_str(&mut v, "://");
            append_str(&mut v, h);
            string_from_chars(&v)
        },
        None => String::new(),
    }
}

/// The host PeerTube checks requests against: the configured host, else
/// the host of the PeerTube URL with its port, else the URL itself.
pub open spec fn peertube_host_header_spec(url: Seq<char>, host_override: Option<Seq<char>>) -> Seq<
    char,
> {
    match host_override {
        Some(h) => h,
        None => derive_host_spec(url, url_host_port(url)),
    }
}

/// The name of what `reqwest::Url` parses out of a URL string: its host
/// (`Url::host_str`) and port (`Url::port`), or `None` when the string does
/// not parse or has no host.
pub uninterp spec fn url_host_port(url: Seq<char>) -> Option<(Seq<char>, Option<u16>)>;

/// Host and explicit port of a URL.
///
/// Trusted: parses with `reqwest::Url` (the `url` crate) and reads
/// `host_str` and `port`. The contract only names the result as a function
/// of the string; it says nothing of URL syntax.
#[verifier::external_body]
fn parse_host_port(url: &str) -> (r: Option<(String, Option<u16>)>)
    ensures
        match r {
            Some((h, p)) => url_host_port(url@) == Some((h@, p)),
            None => url_host_port(url@) is None,
        },
{
    match url.parse::<reqwest::Url>() {
        Ok(u) => u.host_str().map(|h| (h.to_string(), u.port())),
        Err(_) => None,
    }
}

/// `host:port` or `host` from the parsed URL, else the URL itself.
pub open spec fn derive_host_spec(url: Seq<char>, parsed: Option<(Seq<char>, Option<u16>)>) -> Seq<
    char,
> {
    match parsed {
        Some((h, Some(p))) => h + ":"@ + crate::text::decimal(p as nat),
        Some((h, None)) => h,
        None => url,
    }
}

/// The `Host` value for a URL, given what parsing it yields.
pub fn host_from_parts(url: &str, parsed: Option<(String, Option<u16>)>) -> (r: String)
    ensures
        r@ == derive_host_spec(
            url@,
            match parsed {
                Some((h, p)) => Some((h@, p)),
                None => None,
            },
        ),
{
    match parsed {
        Some((h, Some(p))) => {
            let mut v = chars_of(h.as_str());
            append_str(&mut v, ":");
            crate::text::push_decimal(&mut v, p as u64);
            string_from_chars(&v)
        },
        Some((h, None)) => h,
        None => url.to_owned(),
    }
}

/// The `Host` header sent to PeerTube: the configured public host, or one
/// derived from the PeerTube URL.
pub fn peertube_host_header(url: &str, host_override: Option<&str>) -> (r: String)
    ensures
        r@ == peertube_host_header_spec(url@, opt_str_view(host_override)),
{
    match host_override {
        Some(h) => h.to_owned(),
        None => {
            let parsed = parse_host_port(url);
            host_from_parts(url, parsed)
        },
    }
}

} // verus!
