//! Records and request/response bodies of the HTTP API, with the small
//! rules that build them.
use vstd::prelude::*;
use crate::identity::OidcUser;
use crate::listing::OrphanVideoRow;
use crate::text::{chars_of, chars_eq_str, opt_str_view, opt_string_view};

verus! {

broadcast use vstd::string::group_string_axioms;

/// A submission record.
pub struct Submission {
    pub id: String,
    pub url: String,
    pub source_url: Option<String>,
    pub source: Option<String>,
    pub title: Option<String>,
    pub filename: Option<String>,
    pub peertube_thumb: Option<String>,
    pub peertube_uuid: Option<String>,
    pub api_key_id: Option<String>,
    pub submitter_sub: Option<String>,
    pub submitter_display: Option<String>,
    pub submitter_tag: Option<String>,
    pub status: String,
    pub is_direct: bool,
    pub download_method: Option<String>,
    pub download_retries: i64,
    pub downloading_at: Option<String>,
    pub imported_at: Option<String>,
    pub transcoding_at: Option<String>,
    pub completed_at: Option<String>,
    pub submitted_at: String,
    pub updated_at: String,
}

/// A submission as the listing endpoint returns it.
pub struct SubmissionRow {
    pub id: String,
    pub url: String,
    pub source_url: Option<String>,
    pub title: Option<String>,
    pub filename: Option<String>,
    pub peertube_thumb: Option<String>,
    pub peertube_uuid: Option<String>,
    pub status: String,
    pub submitted_at: String,
    pub updated_at: String,
}

impl SubmissionRow {
    /// The listed fields of a submission.
    pub fn from_submission(s: Submission) -> (r: SubmissionRow)
        ensures
            r.id == s.id && r.url == s.url && r.source_url == s.source_url && r.title == s.title
                && r.filename == s.filename && r.peertube_thumb == s.peertube_thumb
                && r.peertube_uuid == s.peertube_uuid && r.status == s.status && r.submitted_at
                == s.submitted_at && r.updated_at == s.updated_at,
    {
        SubmissionRow {
            id: s.id,
            url: s.url,
            source_url: s.source_url,
            title: s.title,
            filename: s.filename,
            peertube_thumb: s.peertube_thumb,
            peertube_uuid: s.peertube_uuid,
            status: s.status,
            submitted_at: s.submitted_at,
            updated_at: s.updated_at,
        }
    }
}

/// One page of the listing, with the total of matching rows and the count
/// of the owner's rows per status (`all` holding their sum).
pub struct ListResponse {
    pub submissions: Vec<SubmissionRow>,
    pub total: i64,
    pub page: u32,
    pub per_page: u32,
    pub counts: Vec<(String, i64)>,
}

pub struct DeleteRequest {
    pub ids: Vec<String>,
}

pub struct CheckSubmissionParams {
    pub url: String,
}

pub struct CheckUrlParams {
    pub url: String,
}

pub struct OrphanListResponse {
    pub videos: Vec<OrphanVideoRow>,
    pub total: usize,
}

impl OrphanListResponse {
    /// A response listing `videos`, with their number as the total.
    pub fn new(videos: Vec<OrphanVideoRow>) -> (r: OrphanListResponse)
        ensures
            r.videos == videos,
            r.total == videos@.len(),
    {
        let total = videos.len();
        OrphanListResponse { videos, total }
    }
}

pub struct DeleteOrphansRequest {
    pub uuids: Vec<String>,
}

pub struct DeleteOrphansResponse {
    pub deleted: usize,
    pub failed: usize,
}

impl DeleteOrphansResponse {
    /// Nothing deleted or failed yet.
    pub fn new() -> (r: DeleteOrphansResponse)
        ensures
            r.deleted == 0 && r.failed == 0,
    {
        DeleteOrphansResponse { deleted: 0, failed: 0 }
    }

    /// Counts one video: deleted, or failed (its tags could not be read, it
    /// is not the user's, or the deletion failed).
    pub fn record(&mut self, deleted: bool)
        requires
            old(self).deleted + old(self).failed < usize::MAX,
        ensures
            final(self).deleted == old(self).deleted + (if deleted { 1int } else { 0 }),
            final(self).failed == old(self).failed + (if deleted { 0int } else { 1 }),
    {
        if deleted {
            self.deleted = self.deleted + 1;
        } else {
            self.failed = self.failed + 1;
        }
    }
}

pub struct CleanupRequest {
    /// When present, only these PeerTube videos are reconciled; absent means
    /// a full reconciliation.
    pub peertube_uuids: Option<Vec<String>>,
}

pub struct CleanupResponse {
    pub checked: usize,
    pub deleted: usize,
    pub deleted_submission_ids: Vec<String>,
}

impl CleanupResponse {
    /// The report of a reconciliation that looked at `checked` records and
    /// deleted the submissions `deleted_submission_ids`.
    pub fn new(checked: usize, deleted_submission_ids: Vec<String>) -> (r: CleanupResponse)
        ensures
            r.checked == checked,
            r.deleted == deleted_submission_ids@.len(),
            r.deleted_submission_ids == deleted_submission_ids,
    {
        let deleted = deleted_submission_ids.len();
        CleanupResponse { checked, deleted, deleted_submission_ids }
    }
}

pub struct NewKeyQuery {
    pub new_key: Option<String>,
}

/// A subtitle `<track>` the extension found on the page.
pub struct SubtitleTrack {
    pub lang: String,
    pub src: String,
}

/// A submission from the extension or a shortcut.
pub struct SubmitRequest {
    pub url: String,
    pub referer: Option<String>,
    pub source_url: Option<String>,
    pub source: Option<String>,
    pub title: Option<String>,
    pub cookies: Option<String>,
    pub subtitle_tracks: Option<Vec<SubtitleTrack>>,
}

/// A submission from the dashboard's dialog: only a URL.
pub struct WebSubmitRequest {
    pub url: String,
}

impl SubmitRequest {
    /// A dashboard submission carries nothing besides its URL.
    pub fn from_web(web: WebSubmitRequest) -> (r: SubmitRequest)
        ensures
            r.url == web.url,
            r.referer is None && r.source_url is None && r.source is None && r.title is None
                && r.cookies is None && r.subtitle_tracks is None,
    {
        SubmitRequest {
            url: web.url,
            referer: None,
            source_url: None,
            source: None,
            title: None,
            cookies: None,
            subtitle_tracks: None,
        }
    }
}

/// The `(lang, url)` pairs of the submitted subtitle tracks, none when absent.
pub fn subtitle_pairs(tracks: Option<Vec<SubtitleTrack>>) -> (r: Vec<(String, String)>)
    ensures
        match tracks {
            Some(t) => r@.len() == t@.len() && forall|i: int|
                0 <= i < t@.len() ==> (#[trigger] r@[i]).0 == t@[i].lang && r@[i].1 == t@[i].src,
            None => r@.len() == 0,
        },
{
    match tracks {
        Some(t) => {
            let mut out: Vec<(String, String)> = Vec::new();
            let mut i: usize = 0;
            while i < t.len()
                invariant
                    i <= t.len(),
                    out@.len() == i,
                    forall|k: int|
                        0 <= k < i ==> (#[trigger] out@[k]).0 == t@[k].lang && out@[k].1
                            == t@[k].src,
                decreases t.len() - i,
            {
                let lang = t[i].lang.clone();
                let src = t[i].src.clone();
                out.push((lang, src));
                i = i + 1;
            }
            out
        },
        None => Vec::new(),
    }
}

pub struct SubmitResponse {
    pub status: String,
}

impl SubmitResponse {
    /// The answer to an accepted submission.
    pub fn queued() -> (r: SubmitResponse)
        ensures
            r.status@ == "queued"@,
    {
        SubmitResponse { status: "queued".to_owned() }
    }
}

/// Query parameters of the identity provider's redirect back.
pub struct CallbackParams {
    pub code: String,
    pub state: String,
}

/// The signed-in user of a request that requires one.
pub struct RequireAuth(pub OidcUser);

/// The password login form.
pub struct LoginForm {
    pub password: String,
}

/// The password login accepts exactly the configured admin password (an
/// unset password reads as empty).
pub fn password_matches(submitted: &str, admin_password: Option<&str>) -> (r: bool)
    ensures
        r == (submitted@ == match opt_str_view(admin_password) {
            Some(p) => p,
            None => Seq::<char>::empty(),
        }),
{
    let s = chars_of(submitted);
    match admin_password {
        Some(p) => {
            let r = chars_eq_str(&s, p);
            assert(opt_str_view(admin_password) == Some(p@));
            r
        },
        None => {
            assert(s@.len() == 0 ==> s@ =~= Seq::<char>::empty());
            s.len() == 0
        },
    }
}

/// The user a password login signs in: the admin, with `admin` as both its
/// e-mail and its user name.
pub fn password_login_user() -> (r: OidcUser)
    ensures
        r.email@ == "admin"@,
        r.sub is None,
        opt_string_view(r.username) == Some("admin"@),
{
    OidcUser { sub: None, email: "admin".to_owned(), username: Some("admin".to_owned()) }
}

/// The user an OIDC login signs in: the token's subject, its e-mail (or
/// `unknown`) and its preferred user name.
pub fn user_from_claims(subject: String, email: Option<String>, preferred_username: Option<String>) -> (r: OidcUser)
    ensures
        opt_string_view(r.sub) == Some(subject@),
        r.email@ == match email {
            Some(e) => e@,
            None => "unknown"@,
        },
        opt_string_view(r.username) == opt_string_view(preferred_username),
{
    let email = match email {
        Some(e) => e,
        None => "unknown".to_owned(),
    };
    OidcUser { sub: Some(subject), email, username: preferred_username }
}

} // verus!
