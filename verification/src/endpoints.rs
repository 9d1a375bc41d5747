//! The HTTP endpoints of MeTube and PeerTube that the service calls, and the
//! request values it sends them.
use vstd::prelude::*;
use crate::text::{append_str, chars_of, decimal, push_decimal, string_from_chars};
use crate::listing::{contains_str, uuid_set};

verus! {

broadcast use vstd::string::group_string_axioms;

fn concat2(a: &str, b: &str) -> (r: String)
    ensures
        r@ == a@ + b@,
{
    let mut v = chars_of(a);
    append_str(&mut v, b);
    string_from_chars(&v)
}

fn concat3(a: &str, b: &str, c: &str) -> (r: String)
    ensures
        r@ == a@ + b@ + c@,
{
    let mut v = chars_of(a);
    append_str(&mut v, b);
    append_str(&mut v, c);
    string_from_chars(&v)
}

// ---------------------------------------------------------------------------
// MeTube
// ---------------------------------------------------------------------------

/// MeTube's queue and history listing.
pub fn metube_history_url(base: &str) -> (r: String)
    ensures
        r@ == base@ + "/history"@,
{
    concat2(base, "/history")
}

/// MeTube's endpoint for adding a download.
pub fn metube_add_url(base: &str) -> (r: String)
    ensures
        r@ == base@ + "/add"@,
{
    concat2(base, "/add")
}

/// The body of a MeTube add request.
pub struct MetubeAdd {
    pub url: String,
    /// The folder MeTube saves into.
    pub folder: String,
    pub auto_start: bool,
}

/// Asks MeTube to download `url` into `/downloads` and start at once.
pub fn metube_add_body(url: &str) -> (r: MetubeAdd)
    ensures
        r.url@ == url@,
        r.folder@ == "/downloads"@,
        r.auto_start,
{
    MetubeAdd { url: url.to_owned(), folder: "/downloads".to_owned(), auto_start: true }
}

/// An HTTP status in the success class (200 to 299).
pub fn is_success_status(code: u16) -> (r: bool)
    ensures
        r == (200 <= code <= 299),
{
    200 <= code && code <= 299
}

// ---------------------------------------------------------------------------
// PeerTube
// ---------------------------------------------------------------------------

/// The local OAuth client of a PeerTube instance.
pub fn peertube_oauth_clients_url(base: &str) -> (r: String)
    ensures
        r@ == base@ + "/api/v1/oauth-clients/local"@,
{
    concat2(base, "/api/v1/oauth-clients/local")
}

/// The token endpoint of a PeerTube instance.
pub fn peertube_token_url(base: &str) -> (r: String)
    ensures
        r@ == base@ + "/api/v1/users/token"@,
{
    concat2(base, "/api/v1/users/token")
}

/// The user search for one account name.
pub fn peertube_user_search_url(base: &str, username: &str) -> (r: String)
    ensures
        r@ == base@ + "/api/v1/users?search="@ + username@ + "&count=1"@,
{
    let mut v = chars_of(base);
    append_str(&mut v, "/api/v1/users?search=");
    append_str(&mut v, username);
    append_str(&mut v, "&count=1");
    string_from_chars(&v)
}

/// The user administration endpoint.
pub fn peertube_users_url(base: &str) -> (r: String)
    ensures
        r@ == base@ + "/api/v1/users"@,
{
    concat2(base, "/api/v1/users")
}

/// The channels of an account.
pub fn peertube_channels_url(base: &str, username: &str) -> (r: String)
    ensures
        r@ == base@ + "/api/v1/accounts/"@ + username@ + "/video-channels"@,
{
    let mut v = chars_of(base);
    append_str(&mut v, "/api/v1/accounts/");
    append_str(&mut v, username);
    append_str(&mut v, "/video-channels");
    string_from_chars(&v)
}

/// The video upload endpoint.
pub fn peertube_upload_url(base: &str) -> (r: String)
    ensures
        r@ == base@ + "/api/v1/videos/upload"@,
{
    concat2(base, "/api/v1/videos/upload")
}

/// One video of a PeerTube instance.
pub fn peertube_video_url(base: &str, uuid: &str) -> (r: String)
    ensures
        r@ == base@ + "/api/v1/videos/"@ + uuid@,
{
    concat3(base, "/api/v1/videos/", uuid)
}

/// The caption of one language of a video.
pub fn peertube_caption_url(base: &str, uuid: &str, lang: &str) -> (r: String)
    ensures
        r@ == base@ + "/api/v1/videos/"@ + uuid@ + "/captions/"@ + lang@,
{
    let mut v = chars_of(base);
    append_str(&mut v, "/api/v1/videos/");
    append_str(&mut v, uuid);
    append_str(&mut v, "/captions/");
    append_str(&mut v, lang);
    string_from_chars(&v)
}

/// One page of the videos of an account: `count` videos from position
/// `start`.
pub fn peertube_account_videos_url(base: &str, username: &str, start: u64, count: u64) -> (r: String)
    ensures
        r@ == base@ + "/api/v1/accounts/"@ + username@ + "/videos?start="@ + decimal(start as nat)
            + "&count="@ + decimal(count as nat),
{
    let mut v = chars_of(base);
    append_str(&mut v, "/api/v1/accounts/");
    append_str(&mut v, username);
    append_str(&mut v, "/videos?start=");
    push_decimal(&mut v, start);
    append_str(&mut v, "&count=");
    push_decimal(&mut v, count);
    string_from_chars(&v)
}

/// Where the next page of a paged listing starts, after a page read from
/// `start` returned `fetched` of the `count` asked for, out of `total`;
/// `None` when that page was the last: it came back short, or the total is
/// reached.
pub fn next_page_start(start: u64, fetched: u64, total: u64, count: u64) -> (r: Option<u64>)
    ensures
        r == (if fetched < count || start + fetched >= total {
            None
        } else {
            Some((start + fetched) as u64)
        }),
{
    if fetched < count {
        return None;
    }
    match start.checked_add(fetched) {
        Some(next) => if next >= total {
            None
        } else {
            Some(next)
        },
        None => None,
    }
}

pub open spec fn pair_seq(p: (String, String)) -> (Seq<char>, Seq<char>) {
    (p.0@, p.1@)
}

/// The form of a password-grant token request.
pub open spec fn token_form_spec(
    client_id: Seq<char>,
    client_secret: Seq<char>,
    username: Seq<char>,
    password: Seq<char>,
) -> Seq<(Seq<char>, Seq<char>)> {
    seq![
        ("client_id"@, client_id),
        ("client_secret"@, client_secret),
        ("grant_type"@, "password"@),
        ("response_type"@, "code"@),
        ("username"@, username),
        ("password"@, password),
    ]
}

/// The fields of a token request for `username` through the OAuth client.
pub fn token_form(client_id: &str, client_secret: &str, username: &str, password: &str) -> (r: Vec<(String, String)>)
    ensures
        r@.map_values(|p: (String, String)| pair_seq(p)) == token_form_spec(
            client_id@,
            client_secret@,
            username@,
            password@,
        ),
{
    let mut r: Vec<(String, String)> = Vec::new();
    r.push(("client_id".to_owned(), client_id.to_owned()));
    r.push(("client_secret".to_owned(), client_secret.to_owned()));
    r.push(("grant_type".to_owned(), "password".to_owned()));
    r.push(("response_type".to_owned(), "code".to_owned()));
    r.push(("username".to_owned(), username.to_owned()));
    r.push(("password".to_owned(), password.to_owned()));
    assert(r@.map_values(|p: (String, String)| pair_seq(p)) =~= token_form_spec(
        client_id@,
        client_secret@,
        username@,
        password@,
    ));
    r
}

/// The channel uploads go to: the account's first channel.
pub fn first_channel_id(channel_ids: &Vec<i64>) -> (r: Option<i64>)
    ensures
        channel_ids@.len() == 0 ==> r is None,
        channel_ids@.len() > 0 ==> r == Some(channel_ids@[0]),
{
    if channel_ids.len() == 0 {
        None
    } else {
        Some(channel_ids[0])
    }
}

/// Whether a user search found the bot account itself (not merely a name
/// containing it).
pub fn bot_account_exists(found_usernames: &Vec<String>, bot_username: &str) -> (r: bool)
    ensures
        r == uuid_set(found_usernames@).contains(bot_username@),
{
    contains_str(found_usernames, bot_username)
}

/// The account the service creates for uploading.
pub struct NewBotUser {
    pub username: String,
    pub password: String,
    pub email: String,
    /// PeerTube role; 0 is an ordinary user.
    pub role: u8,
    /// Total upload quota in bytes; -1 is unlimited.
    pub video_quota: i64,
    /// Daily upload quota in bytes; -1 is unlimited.
    pub video_quota_daily: i64,
}

/// An ordinary user with unlimited quotas.
pub fn new_bot_user(username: &str, password: &str, email: &str) -> (r: NewBotUser)
    ensures
        r.username@ == username@,
        r.password@ == password@,
        r.email@ == email@,
        r.role == 0,
        r.video_quota == -1,
        r.video_quota_daily == -1,
{
    NewBotUser {
        username: username.to_owned(),
        password: password.to_owned(),
        email: email.to_owned(),
        role: 0,
        video_quota: -1,
        video_quota_daily: -1,
    }
}

} // verus!
