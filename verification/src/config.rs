//! Service configuration: how the environment variables become a `Config`,
//! which combinations are refused, and the derived PeerTube settings.
use vstd::prelude::*;
use crate::text::{
    append_chars, append_str, ascii_lower_seq, chars_eq, chars_eq_str, chars_of, find_char,
    first_index_of, is_ascii_digit, opt_string_view, string_from_chars, sub_vec,
};

verus! {

broadcast use vstd::string::group_string_axioms;

#[derive(PartialEq, Eq, Structural, Clone, Copy, Debug)]
pub enum AuthMode {
    Oidc,
    Password,
}

/// The service configuration.
pub struct Config {
    pub api_port: u16,
    pub metube_url: String,
    pub downloads_dir: String,
    pub peertube_import_dir: String,
    pub database_url: String,
    pub auth_mode: AuthMode,
    pub admin_password: Option<String>,
    pub oidc_issuer_url: Option<String>,
    pub oidc_client_id: Option<String>,
    pub oidc_client_secret: Option<String>,
    pub oidc_redirect_url: Option<String>,
    pub peertube_url: Option<String>,
    pub peertube_host: Option<String>,
    pub peertube_username: Option<String>,
    pub peertube_password: Option<String>,
    pub peertube_admin_email: Option<String>,
    pub peertube_admin_username: Option<String>,
    pub peertube_admin_password: Option<String>,
    pub peertube_video_privacy: u8,
}

/// The environment variables the configuration reads; `None` for a variable
/// that is unset (or not valid Unicode).
pub struct EnvVars {
    pub auth_mode: Option<String>,
    pub admin_password: Option<String>,
    pub oidc_issuer_url: Option<String>,
    pub oidc_client_id: Option<String>,
    pub oidc_client_secret: Option<String>,
    pub oidc_redirect_url: Option<String>,
    pub api_port: Option<String>,
    pub metube_url: Option<String>,
    pub downloads_dir: Option<String>,
    pub peertube_import_dir: Option<String>,
    pub database_url: Option<String>,
    pub peertube_url: Option<String>,
    pub peertube_host: Option<String>,
    pub peertube_username: Option<String>,
    pub peertube_password: Option<String>,
    pub peertube_admin_email: Option<String>,
    pub peertube_admin_username: Option<String>,
    pub peertube_admin_password: Option<String>,
    pub peertube_video_privacy: Option<String>,
}

/// Why the environment does not make a valid configuration.
#[derive(PartialEq, Eq, Structural, Clone, Copy, Debug)]
pub enum ConfigError {
    AdminPasswordMissing,
    OidcIssuerUrlMissing,
    OidcClientIdMissing,
    OidcClientSecretMissing,
    OidcRedirectUrlMissing,
    InvalidApiPort,
    DatabaseUrlMissing,
}

impl ConfigError {
    /// The message reported for the error.
    pub fn message(&self) -> (r: &'static str)
        ensures
            r@ == self.message_spec(),
    {
        match self {
            ConfigError::AdminPasswordMissing => "ADMIN_PASSWORD must be set when AUTH_MODE=password",
            ConfigError::OidcIssuerUrlMissing => "OIDC_ISSUER_URL required when AUTH_MODE=oidc",
            ConfigError::OidcClientIdMissing => "OIDC_CLIENT_ID required when AUTH_MODE=oidc",
            ConfigError::OidcClientSecretMissing => "OIDC_CLIENT_SECRET required when AUTH_MODE=oidc",
            ConfigError::OidcRedirectUrlMissing => "OIDC_REDIRECT_URL required when AUTH_MODE=oidc",
            ConfigError::InvalidApiPort => "API_PORT is not a valid port number",
            ConfigError::DatabaseUrlMissing => "DATABASE_URL must be set",
        }
    }

    pub open spec fn message_spec(&self) -> Seq<char> {
        match self {
            ConfigError::AdminPasswordMissing => "ADMIN_PASSWORD must be set when AUTH_MODE=password"@,
            ConfigError::OidcIssuerUrlMissing => "OIDC_ISSUER_URL required when AUTH_MODE=oidc"@,
            ConfigError::OidcClientIdMissing => "OIDC_CLIENT_ID required when AUTH_MODE=oidc"@,
            ConfigError::OidcClientSecretMissing => "OIDC_CLIENT_SECRET required when AUTH_MODE=oidc"@,
            ConfigError::OidcRedirectUrlMissing => "OIDC_REDIRECT_URL required when AUTH_MODE=oidc"@,
            ConfigError::InvalidApiPort => "API_PORT is not a valid port number"@,
            ConfigError::DatabaseUrlMissing => "DATABASE_URL must be set"@,
        }
    }
}

// ---------------------------------------------------------------------------
// Unsigned decimal parsing (`u16::from_str`, `u8::from_str`)
// ---------------------------------------------------------------------------

/// Value of a string of ASCII digits.
pub open spec fn digits_value(s: Seq<char>) -> nat
    decreases s.len(),
{
    if s.len() == 0 {
        0
    } else {
        digits_value(s.drop_last()) * 10 + ((s.last() as u32) - 48) as nat
    }
}

/// The digits part of an unsigned number: without a leading `+`.
pub open spec fn unsigned_digits(s: Seq<char>) -> Seq<char> {
    if s.len() > 0 && s[0] == '+' {
        s.drop_first()
    } else {
        s
    }
}

/// `from_str` for an unsigned integer type with maximum `max`: an optional
/// `+`, then one or more ASCII digits whose value does not exceed `max`.
pub open spec fn parse_unsigned_spec(s: Seq<char>, max: nat) -> Option<nat> {
    let d = unsigned_digits(s);
    if d.len() > 0 && (forall|i: int| 0 <= i < d.len() ==> is_ascii_digit(#[trigger] d[i]))
        && digits_value(d) <= max {
        Some(digits_value(d))
    } else {
        None
    }
}

proof fn lemma_digits_value_grows(d: Seq<char>, i: int)
    requires
        0 <= i <= d.len(),
        forall|k: int| 0 <= k < d.len() ==> is_ascii_digit(#[trigger] d[k]),
    ensures
        digits_value(d.take(i)) <= digits_value(d),
    decreases d.len() - i,
{
    if i < d.len() {
        lemma_digits_value_grows(d, i + 1);
        assert(d.take(i + 1).drop_last() =~= d.take(i));
        assert(d.take(i + 1).last() == d[i]);
    } else {
        assert(d.take(i) =~= d);
    }
}

/// Parses an unsigned decimal no larger than `max`.
fn parse_unsigned(s: &str, max: u32) -> (r: Option<u32>)
    requires
        max <= 65535,
    ensures
        r matches Some(v) ==> parse_unsigned_spec(s@, max as nat) == Some(v as nat),
        r is None ==> parse_unsigned_spec(s@, max as nat) is None,
{
    let v = chars_of(s);
    let start: usize = if v.len() > 0 && v[0] == '+' {
        1
    } else {
        0
    };
    let d = sub_vec(&v, start, v.len());
    proof {
        if start == 1 {
            assert(d@ =~= s@.drop_first());
        } else {
            assert(d@ =~= s@);
        }
    }
    if d.len() == 0 {
        return None;
    }
    let mut value: u32 = 0;
    let mut i: usize = 0;
    while i < d.len()
        invariant
            i <= d.len(),
            max <= 65535,
            value <= max,
            d@ == unsigned_digits(s@),
            d@.len() > 0,
            value as nat == digits_value(d@.take(i as int)),
            forall|k: int| 0 <= k < i ==> is_ascii_digit(#[trigger] d@[k]),
        decreases d.len() - i,
    {
        let c = d[i];
        if !('0' <= c && c <= '9') {
            assert(!is_ascii_digit(d@[i as int]));
            assert(parse_unsigned_spec(s@, max as nat) is None);
            return None;
        }
        let digit = (c as u32) - 48;
        proof {
            assert(d@.take(i + 1).drop_last() =~= d@.take(i as int));
            assert(d@.take(i + 1).last() == c);
        }
        let next: u64 = (value as u64) * 10 + (digit as u64);
        if next > max as u64 {
            proof {
                let w = d@.take(i + 1);
                assert(digits_value(w) == value * 10 + digit);
                if forall|k: int| 0 <= k < d@.len() ==> is_ascii_digit(#[trigger] d@[k]) {
                    lemma_digits_value_grows(d@, i + 1);
                }
            }
            return None;
        }
        value = next as u32;
        i = i + 1;
    }
    assert(d@.take(d.len() as int) =~= d@);
    Some(value)
}

/// `u64::from_str`: an optional `+`, then one or more ASCII digits whose
/// value fits in a `u64`.
pub fn parse_u64(s: &str) -> (r: Option<u64>)
    ensures
        r matches Some(v) ==> parse_unsigned_spec(s@, u64::MAX as nat) == Some(v as nat),
        r is None ==> parse_unsigned_spec(s@, u64::MAX as nat) is None,
{
    let v = chars_of(s);
    let start: usize = if v.len() > 0 && v[0] == '+' {
        1
    } else {
        0
    };
    let d = sub_vec(&v, start, v.len());
    proof {
        if start == 1 {
            assert(d@ =~= s@.drop_first());
        } else {
            assert(d@ =~= s@);
        }
    }
    if d.len() == 0 {
        return None;
    }
    let mut value: u64 = 0;
    let mut i: usize = 0;
    while i < d.len()
        invariant
            i <= d.len(),
            d@ == unsigned_digits(s@),
            d@.len() > 0,
            value as nat == digits_value(d@.take(i as int)),
            forall|k: int| 0 <= k < i ==> is_ascii_digit(#[trigger] d@[k]),
        decreases d.len() - i,
    {
        let c = d[i];
        if !('0' <= c && c <= '9') {
            assert(!is_ascii_digit(d@[i as int]));
            return None;
        }
        let digit = (c as u32) - 48;
        proof {
            assert(d@.take(i + 1).drop_last() =~= d@.take(i as int));
            assert(d@.take(i + 1).last() == c);
        }
        let next: u128 = (value as u128) * 10 + (digit as u128);
        if next > u64::MAX as u128 {
            proof {
                let w = d@.take(i + 1);
                assert(digits_value(w) == value * 10 + digit);
                if forall|k: int| 0 <= k < d@.len() ==> is_ascii_digit(#[trigger] d@[k]) {
                    lemma_digits_value_grows(d@, i + 1);
                }
            }
            return None;
        }
        value = next as u64;
        i = i + 1;
    }
    assert(d@.take(d.len() as int) =~= d@);
    Some(value)
}

// ---------------------------------------------------------------------------
// Building the configuration
// ---------------------------------------------------------------------------

/// The name of the result of `str::to_lowercase` (Unicode lowercase
/// mapping) on a string.
pub uninterp spec fn lowercased(s: Seq<char>) -> Seq<char>;

pub open spec fn is_ascii_seq(s: Seq<char>) -> bool {
    forall|i: int| 0 <= i < s.len() ==> (#[trigger] s[i] as u32) < 128
}

/// Unicode lowercase of `s`.
///
/// Trusted: calls `str::to_lowercase`. The contract says the result is the
/// named function of `s`, and that on ASCII input it is the ASCII lowercase
/// mapping (the Unicode lowercase of an ASCII letter is the ASCII lowercase
/// letter, and other ASCII characters have no lowercase mapping); it says
/// nothing of the mapping of other characters.
#[verifier::external_body]
fn to_lowercase(s: &str) -> (r: String)
    ensures
        r@ == lowercased(s@),
        is_ascii_seq(s@) ==> r@ == ascii_lower_seq(s@),
{
    s.to_lowercase()
}

/// The lowercase of `s`: the ASCII lowercase mapping on ASCII text, the
/// Unicode mapping of `str::to_lowercase` on any other.
pub open spec fn lower_spec(s: Seq<char>) -> Seq<char> {
    if is_ascii_seq(s) {
        ascii_lower_seq(s)
    } else {
        lowercased(s)
    }
}

pub open spec fn or_default(v: Option<String>, d: Seq<char>) -> Seq<char> {
    match v {
        Some(s) => s@,
        None => d,
    }
}

/// Password mode when the (lowercased) `AUTH_MODE` is `password`, else OIDC.
pub open spec fn auth_mode_spec(vars: EnvVars) -> AuthMode {
    if lower_spec(or_default(vars.auth_mode, "oidc"@)) == "password"@ {
        AuthMode::Password
    } else {
        AuthMode::Oidc
    }
}

/// The first reason, in the order they are checked, why the variables do
/// not make a configuration.
pub open spec fn config_error_spec(vars: EnvVars) -> Option<ConfigError> {
    let mode = auth_mode_spec(vars);
    if mode == AuthMode::Password && vars.admin_password is None {
        Some(ConfigError::AdminPasswordMissing)
    } else if mode == AuthMode::Oidc && vars.oidc_issuer_url is None {
        Some(ConfigError::OidcIssuerUrlMissing)
    } else if mode == AuthMode::Oidc && vars.oidc_client_id is None {
        Some(ConfigError::OidcClientIdMissing)
    } else if mode == AuthMode::Oidc && vars.oidc_client_secret is None {
        Some(ConfigError::OidcClientSecretMissing)
    } else if mode == AuthMode::Oidc && vars.oidc_redirect_url is None {
        Some(ConfigError::OidcRedirectUrlMissing)
    } else if parse_unsigned_spec(or_default(vars.api_port, "3000"@), 65535) is None {
        Some(ConfigError::InvalidApiPort)
    } else if vars.database_url is None {
        Some(ConfigError::DatabaseUrlMissing)
    } else {
        None
    }
}

/// The configuration the variables make when there is no error: given values,
/// or the documented defaults.
pub open spec fn config_matches(c: Config, vars: EnvVars) -> bool {
    &&& c.auth_mode == auth_mode_spec(vars)
    &&& c.api_port as nat == parse_unsigned_spec(or_default(vars.api_port, "3000"@), 65535)->0
    &&& c.metube_url@ == or_default(vars.metube_url, "http://metube:8081"@)
    &&& c.downloads_dir@ == or_default(vars.downloads_dir, "/downloads"@)
    &&& c.peertube_import_dir@ == or_default(vars.peertube_import_dir, "/peertube-import"@)
    &&& Some(c.database_url@) == opt_string_view(vars.database_url)
    &&& opt_string_view(c.admin_password) == opt_string_view(vars.admin_password)
    &&& opt_string_view(c.oidc_issuer_url) == opt_string_view(vars.oidc_issuer_url)
    &&& opt_string_view(c.oidc_client_id) == opt_string_view(vars.oidc_client_id)
    &&& opt_string_view(c.oidc_client_secret) == opt_string_view(vars.oidc_client_secret)
    &&& opt_string_view(c.oidc_redirect_url) == opt_string_view(vars.oidc_redirect_url)
    &&& opt_string_view(c.peertube_url) == opt_string_view(vars.peertube_url)
    &&& opt_string_view(c.peertube_host) == opt_string_view(vars.peertube_host)
    &&& opt_string_view(c.peertube_username) == opt_string_view(vars.peertube_username)
    &&& opt_string_view(c.peertube_password) == opt_string_view(vars.peertube_password)
    &&& opt_string_view(c.peertube_admin_email) == opt_string_view(vars.peertube_admin_email)
    &&& opt_string_view(c.peertube_admin_username) == Some(
        or_default(vars.peertube_admin_username, "root"@),
    )
    &&& opt_string_view(c.peertube_admin_password) == opt_string_view(
        vars.peertube_admin_password,
    )
    &&& c.peertube_video_privacy as nat == match vars.peertube_video_privacy {
        Some(p) => match parse_unsigned_spec(p@, 255) {
            Some(v) => v,
            None => 4,
        },
        None => 4,
    }
}

fn value_or(o: &Option<String>, d: &str) -> (r: String)
    ensures
        r@ == or_default(*o, d@),
{
    match o {
        Some(s) => s.clone(),
        None => d.to_owned(),
    }
}

/// The auth mode named by an already lowercased `AUTH_MODE` value: password
/// mode for `password`, OIDC for anything else.
pub fn auth_mode_of_lowered(lowered: &str) -> (r: AuthMode)
    ensures
        r == (if lowered@ == "password"@ {
            AuthMode::Password
        } else {
            AuthMode::Oidc
        }),
{
    let lv = chars_of(lowered);
    if chars_eq_str(&lv, "password") {
        AuthMode::Password
    } else {
        AuthMode::Oidc
    }
}

impl Config {
    /// Builds the configuration from the environment variables: the auth mode
    /// (`AUTH_MODE`, default `oidc`, case-insensitive), the variables each
    /// mode requires, the port (default 3000) and the database URL, which are
    /// checked in that order, then defaults for everything optional.
    pub fn from_vars(vars: &EnvVars) -> (r: Result<Config, ConfigError>)
        ensures
            r matches Err(e) ==> config_error_spec(*vars) == Some(e),
            r is Ok <==> config_error_spec(*vars) is None,
            r matches Ok(c) ==> config_matches(c, *vars),
    {
        let mode_raw = value_or(&vars.auth_mode, "oidc");
        let lowered = to_lowercase(mode_raw.as_str());
        let auth_mode = auth_mode_of_lowered(lowered.as_str());
        if auth_mode == AuthMode::Password && vars.admin_password.is_none() {
            return Err(ConfigError::AdminPasswordMissing);
        }
        if auth_mode == AuthMode::Oidc {
            if vars.oidc_issuer_url.is_none() {
                return Err(ConfigError::OidcIssuerUrlMissing);
            }
            if vars.oidc_client_id.is_none() {
                return Err(ConfigError::OidcClientIdMissing);
            }
            if vars.oidc_client_secret.is_none() {
                return Err(ConfigError::OidcClientSecretMissing);
            }
            if vars.oidc_redirect_url.is_none() {
                return Err(ConfigError::OidcRedirectUrlMissing);
            }
        }
        let port_raw = value_or(&vars.api_port, "3000");
        let api_port = match parse_unsigned(port_raw.as_str(), 65535) {
            Some(p) => p as u16,
            None => return Err(ConfigError::InvalidApiPort),
        };
        let database_url = match &vars.database_url {
            Some(d) => d.clone(),
            None => return Err(ConfigError::DatabaseUrlMissing),
        };
        let privacy: u8 = match &vars.peertube_video_privacy {
            Some(p) => match parse_unsigned(p.as_str(), 255) {
                Some(v) => v as u8,
                None => 4,
            },
            None => 4,
        };
        Ok(
            Config {
                api_port,
                metube_url: value_or(&vars.metube_url, "http://metube:8081"),
                downloads_dir: value_or(&vars.downloads_dir, "/downloads"),
                peertube_import_dir: value_or(&vars.peertube_import_dir, "/peertube-import"),
                database_url,
                auth_mode,
                admin_password: crate::text::clone_opt_string(&vars.admin_password),
                oidc_issuer_url: crate::text::clone_opt_string(&vars.oidc_issuer_url),
                oidc_client_id: crate::text::clone_opt_string(&vars.oidc_client_id),
                oidc_client_secret: crate::text::clone_opt_string(&vars.oidc_client_secret),
                oidc_redirect_url: crate::text::clone_opt_string(&vars.oidc_redirect_url),
                peertube_url: crate::text::clone_opt_string(&vars.peertube_url),
                peertube_host: crate::text::clone_opt_string(&vars.peertube_host),
                peertube_username: crate::text::clone_opt_string(&vars.peertube_username),
                peertube_password: crate::text::clone_opt_string(&vars.peertube_password),
                peertube_admin_email: crate::text::clone_opt_string(&vars.peertube_admin_email),
                peertube_admin_username: Some(value_or(&vars.peertube_admin_username, "root")),
                peertube_admin_password: crate::text::clone_opt_string(&vars.peertube_admin_password),
                peertube_video_privacy: privacy,
            },
        )
    }
}

/// In password mode a configuration always has an admin password; in OIDC
/// mode it always has the issuer, client id, client secret and redirect URL.
pub proof fn lemma_mode_requirements(vars: EnvVars)
    requires
        config_error_spec(vars) is None,
    ensures
        auth_mode_spec(vars) == AuthMode::Password ==> vars.admin_password is Some,
        auth_mode_spec(vars) == AuthMode::Oidc ==> vars.oidc_issuer_url is Some
            && vars.oidc_client_id is Some && vars.oidc_client_secret is Some
            && vars.oidc_redirect_url is Some,
        vars.database_url is Some,
{
}

// ---------------------------------------------------------------------------
// PeerTube accounts
// ---------------------------------------------------------------------------

/// E-mail address of the upload bot: the bot name at the domain of the
/// admin e-mail (the text between its first and second `@`), or at
/// `peertube.example` when there is no admin e-mail or it has no `@`.
pub open spec fn bot_email_spec(bot_user: Seq<char>, admin_email: Option<Seq<char>>) -> Seq<char> {
    match admin_email {
        Some(e) => match first_index_of(e, '@') {
            Some(i) => {
                let rest = e.skip(i + 1);
                let domain = match first_index_of(rest, '@') {
                    Some(j) => rest.take(j),
                    None => rest,
                };
                bot_user + "@"@ + domain
            },
            None => bot_user + "@peertube.example"@,
        },
        None => bot_user + "@peertube.example"@,
    }
}

pub fn bot_email(bot_user: &str, admin_email: Option<&str>) -> (r: String)
    ensures
        r@ == bot_email_spec(bot_user@, crate::text::opt_str_view(admin_email)),
{
    let mut out = chars_of(bot_user);
    let domain: Option<Vec<char>> = match admin_email {
        Some(e) => {
            let ev = chars_of(e);
            match find_char(&ev, '@') {
                Some(i) => {
                    let rest = sub_vec(&ev, i + 1, ev.len());
                    assert(rest@ =~= ev@.skip(i + 1));
                    match find_char(&rest, '@') {
                        Some(j) => {
                            let d = sub_vec(&rest, 0, j);
                            assert(d@ =~= rest@.take(j as int));
                            Some(d)
                        },
                        None => Some(rest),
                    }
                },
                None => None,
            }
        },
        None => None,
    };
    match domain {
        Some(d) => {
            append_str(&mut out, "@");
            append_chars(&mut out, &d);
        },
        None => {
            append_str(&mut out, "@peertube.example");
        },
    }
    string_from_chars(&out)
}

/// Settings of the PeerTube upload account.
pub struct PeerTubeConfig {
    pub url: String,
    pub host: Option<String>,
    pub username: String,
    pub password: String,
    pub privacy: u8,
}

/// Uploads are enabled exactly when the PeerTube URL, bot user name and bot
/// password are all configured.
pub fn peertube_upload_config(config: &Config) -> (r: Option<PeerTubeConfig>)
    ensures
        r is Some <==> (config.peertube_url is Some && config.peertube_username is Some
            && config.peertube_password is Some),
        r matches Some(p) ==> {
            &&& p.url@ == config.peertube_url->0@
            &&& p.username@ == config.peertube_username->0@
            &&& p.password@ == config.peertube_password->0@
            &&& opt_string_view(p.host) == opt_string_view(config.peertube_host)
            &&& p.privacy == config.peertube_video_privacy
        },
{
    match (&config.peertube_url, &config.peertube_username, &config.peertube_password) {
        (Some(url), Some(user), Some(pass)) => Some(
            PeerTubeConfig {
                url: url.clone(),
                host: crate::text::clone_opt_string(&config.peertube_host),
                username: user.clone(),
                password: pass.clone(),
                privacy: config.peertube_video_privacy,
            },
        ),
        _ => None,
    }
}

/// What provisioning the upload bot account needs.
pub struct BotProvisioning {
    pub url: String,
    pub host: String,
    pub admin_username: String,
    pub admin_password: String,
    pub bot_username: String,
    pub bot_password: String,
    pub bot_email: String,
}

/// The bot account is provisioned when the PeerTube URL and host, the admin
/// credentials and the bot credentials are all configured and the admin and
/// bot are different accounts.
pub fn bot_provisioning(config: &Config) -> (r: Option<BotProvisioning>)
    ensures
        r is Some <==> {
            &&& config.peertube_url is Some
            &&& config.peertube_host is Some
            &&& config.peertube_admin_username is Some
            &&& config.peertube_admin_password is Some
            &&& config.peertube_username is Some
            &&& config.peertube_password is Some
            &&& config.peertube_admin_username->0@ != config.peertube_username->0@
        },
        r matches Some(b) ==> {
            &&& b.url@ == config.peertube_url->0@
            &&& b.host@ == config.peertube_host->0@
            &&& b.admin_username@ == config.peertube_admin_username->0@
            &&& b.admin_password@ == config.peertube_admin_password->0@
            &&& b.bot_username@ == config.peertube_username->0@
            &&& b.bot_password@ == config.peertube_password->0@
            &&& b.bot_email@ == bot_email_spec(
                config.peertube_username->0@,
                opt_string_view(config.peertube_admin_email),
            )
        },
{
    match (
        &config.peertube_url,
        &config.peertube_host,
        &config.peertube_admin_username,
        &config.peertube_admin_password,
        &config.peertube_username,
        &config.peertube_password,
    ) {
        (Some(url), Some(host), Some(admin_user), Some(admin_pass), Some(bot_user), Some(bot_pass)) => {
            if *admin_user == *bot_user {
                return None;
            }
            let admin_email: Option<&str> = match &config.peertube_admin_email {
                Some(e) => Some(e.as_str()),
                None => None,
            };
            let email = bot_email(bot_user.as_str(), admin_email);
            Some(
                BotProvisioning {
                    url: url.clone(),
                    host: host.clone(),
                    admin_username: admin_user.clone(),
                    admin_password: admin_pass.clone(),
                    bot_username: bot_user.clone(),
                    bot_password: bot_pass.clone(),
                    bot_email: email,
                },
            )
        },
        _ => None,
    }
}

} // verus!
