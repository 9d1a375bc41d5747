use tubemin::config::{
    auth_mode_of_lowered, parse_u64, bot_email, bot_provisioning, peertube_upload_config, AuthMode, Config, ConfigError, EnvVars,
};

fn s(v: &str) -> Option<String> {
    Some(v.to_string())
}

/// Only `DATABASE_URL` set, as the original tests' base environment.
fn base_vars() -> EnvVars {
    EnvVars {
        auth_mode: None,
        admin_password: None,
        oidc_issuer_url: None,
        oidc_client_id: None,
        oidc_client_secret: None,
        oidc_redirect_url: None,
        api_port: None,
        metube_url: None,
        downloads_dir: None,
        peertube_import_dir: None,
        database_url: s("sqlite:///tmp/test.db"),
        peertube_url: None,
        peertube_host: None,
        peertube_username: None,
        peertube_password: None,
        peertube_admin_email: None,
        peertube_admin_username: None,
        peertube_admin_password: None,
        peertube_video_privacy: None,
    }
}

fn oidc_vars() -> EnvVars {
    let mut v = base_vars();
    v.auth_mode = s("oidc");
    v.oidc_issuer_url = s("https://auth.example.com");
    v.oidc_client_id = s("tubemin");
    v.oidc_client_secret = s("secret");
    v.oidc_redirect_url = s("https://tubemin.example.com/auth/callback");
    v
}

#[test]
fn oidc_mode_loads_defaults() {
    let config = Config::from_vars(&oidc_vars()).unwrap();
    assert_eq!(config.api_port, 3000);
    assert_eq!(config.metube_url, "http://metube:8081");
    assert_eq!(config.downloads_dir, "/downloads");
    assert!(matches!(config.auth_mode, AuthMode::Oidc));
    assert_eq!(config.peertube_import_dir, "/peertube-import");
    assert_eq!(config.peertube_admin_username.as_deref(), Some("root"));
}

#[test]
fn password_mode_requires_admin_password() {
    let mut v = base_vars();
    v.auth_mode = s("password");
    assert!(Config::from_vars(&v).is_err());
    assert_eq!(Config::from_vars(&v).err(), Some(ConfigError::AdminPasswordMissing));
}

#[test]
fn password_mode_succeeds_with_password() {
    let mut v = base_vars();
    v.auth_mode = s("password");
    v.admin_password = s("hunter2");
    let config = Config::from_vars(&v).unwrap();
    assert!(matches!(config.auth_mode, AuthMode::Password));
    assert_eq!(config.admin_password.as_deref(), Some("hunter2"));
    assert!(config.oidc_issuer_url.is_none());
}

#[test]
fn auth_mode_is_case_insensitive() {
    let mut v = base_vars();
    v.auth_mode = s("PASSWORD");
    v.admin_password = s("x");
    assert!(matches!(Config::from_vars(&v).unwrap().auth_mode, AuthMode::Password));
    let mut w = oidc_vars();
    w.auth_mode = s("something-else");
    assert!(matches!(Config::from_vars(&w).unwrap().auth_mode, AuthMode::Oidc));
}

#[test]
fn default_video_privacy_is_internal() {
    let config = Config::from_vars(&oidc_vars()).unwrap();
    assert_eq!(config.peertube_video_privacy, 4);
}

#[test]
fn custom_video_privacy_is_read() {
    let mut v = oidc_vars();
    v.peertube_video_privacy = s("1");
    let config = Config::from_vars(&v).unwrap();
    assert_eq!(config.peertube_video_privacy, 1);
}

#[test]
fn invalid_video_privacy_falls_back_to_internal() {
    let mut v = oidc_vars();
    v.peertube_video_privacy = s("300");
    assert_eq!(Config::from_vars(&v).unwrap().peertube_video_privacy, 4);
    v.peertube_video_privacy = s("-1");
    assert_eq!(Config::from_vars(&v).unwrap().peertube_video_privacy, 4);
}

#[test]
fn oidc_mode_reports_first_missing_setting() {
    let mut v = oidc_vars();
    v.oidc_client_id = None;
    v.oidc_redirect_url = None;
    assert_eq!(Config::from_vars(&v).err(), Some(ConfigError::OidcClientIdMissing));
    let mut w = oidc_vars();
    w.oidc_issuer_url = None;
    assert_eq!(Config::from_vars(&w).err(), Some(ConfigError::OidcIssuerUrlMissing));
    let mut x = oidc_vars();
    x.oidc_client_secret = None;
    assert_eq!(Config::from_vars(&x).err(), Some(ConfigError::OidcClientSecretMissing));
    let mut y = oidc_vars();
    y.oidc_redirect_url = None;
    assert_eq!(Config::from_vars(&y).err(), Some(ConfigError::OidcRedirectUrlMissing));
}

#[test]
fn api_port_and_database_url_are_checked() {
    let mut v = oidc_vars();
    v.api_port = s("8080");
    assert_eq!(Config::from_vars(&v).unwrap().api_port, 8080);
    v.api_port = s("70000");
    assert_eq!(Config::from_vars(&v).err(), Some(ConfigError::InvalidApiPort));
    v.api_port = s("+80");
    assert_eq!(Config::from_vars(&v).unwrap().api_port, 80);
    v.api_port = s("");
    assert_eq!(Config::from_vars(&v).err(), Some(ConfigError::InvalidApiPort));
    let mut w = oidc_vars();
    w.database_url = None;
    assert_eq!(Config::from_vars(&w).err(), Some(ConfigError::DatabaseUrlMissing));
}

#[test]
fn config_error_messages() {
    assert_eq!(
        ConfigError::AdminPasswordMissing.message(),
        "ADMIN_PASSWORD must be set when AUTH_MODE=password"
    );
    assert_eq!(ConfigError::OidcIssuerUrlMissing.message(), "OIDC_ISSUER_URL required when AUTH_MODE=oidc");
}

#[test]
fn bot_email_uses_admin_domain() {
    assert_eq!(bot_email("bot", Some("admin@tube.example.org")), "bot@tube.example.org");
    assert_eq!(bot_email("bot", Some("no-at-sign")), "bot@peertube.example");
    assert_eq!(bot_email("bot", None), "bot@peertube.example");
    assert_eq!(bot_email("bot", Some("a@b@c")), "bot@b");
}

#[test]
fn upload_and_provisioning_need_full_settings() {
    let mut v = oidc_vars();
    v.peertube_url = s("http://peertube:9000");
    v.peertube_host = s("tube.example.org");
    v.peertube_username = s("uploader");
    v.peertube_password = s("pw");
    v.peertube_admin_password = s("adminpw");
    v.peertube_admin_email = s("admin@tube.example.org");
    let config = Config::from_vars(&v).unwrap();
    let up = peertube_upload_config(&config).unwrap();
    assert_eq!(up.url, "http://peertube:9000");
    assert_eq!(up.username, "uploader");
    assert_eq!(up.privacy, 4);
    let bot = bot_provisioning(&config).unwrap();
    assert_eq!(bot.admin_username, "root");
    assert_eq!(bot.bot_email, "uploader@tube.example.org");

    let mut same = v;
    same.peertube_username = s("root");
    let c2 = Config::from_vars(&same).unwrap();
    assert!(bot_provisioning(&c2).is_none());

    let c3 = Config::from_vars(&oidc_vars()).unwrap();
    assert!(peertube_upload_config(&c3).is_none());
}

#[test]
fn u64_parsing_follows_from_str() {
    assert_eq!(parse_u64("0"), Some(0));
    assert_eq!(parse_u64("+7"), Some(7));
    assert_eq!(parse_u64("18446744073709551615"), Some(u64::MAX));
    assert_eq!(parse_u64("18446744073709551616"), None);
    assert_eq!(parse_u64(""), None);
    assert_eq!(parse_u64("+"), None);
    assert_eq!(parse_u64("-1"), None);
    assert_eq!(parse_u64(" 1"), None);
}

#[test]
fn lowered_auth_mode_selects_password_only_for_password() {
    assert_eq!(auth_mode_of_lowered("password"), AuthMode::Password);
    assert_eq!(auth_mode_of_lowered("oidc"), AuthMode::Oidc);
    assert_eq!(auth_mode_of_lowered("PASSWORD"), AuthMode::Oidc);
    assert_eq!(auth_mode_of_lowered(""), AuthMode::Oidc);
}
