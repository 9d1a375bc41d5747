use tubemin::endpoints::{
    bot_account_exists, first_channel_id, next_page_start, is_success_status, metube_add_body, metube_add_url,
    metube_history_url, new_bot_user, peertube_account_videos_url, peertube_caption_url, peertube_channels_url, peertube_oauth_clients_url,
    peertube_token_url, peertube_upload_url, peertube_user_search_url, peertube_users_url,
    peertube_video_url, token_form,
};

#[test]
fn posts_to_metube_add() {
    assert_eq!(metube_add_url("http://metube:8081"), "http://metube:8081/add");
    let body = metube_add_body("https://example.com/video");
    assert_eq!(body.url, "https://example.com/video");
    assert_eq!(body.folder, "/downloads");
    assert!(body.auto_start);
    assert_eq!(metube_history_url("http://metube:8081"), "http://metube:8081/history");
}

#[test]
fn success_statuses() {
    assert!(is_success_status(200));
    assert!(is_success_status(204));
    assert!(!is_success_status(199));
    assert!(!is_success_status(300));
    assert!(!is_success_status(500));
}

#[test]
fn peertube_api_urls() {
    let b = "http://peertube:9000";
    assert_eq!(peertube_oauth_clients_url(b), "http://peertube:9000/api/v1/oauth-clients/local");
    assert_eq!(peertube_token_url(b), "http://peertube:9000/api/v1/users/token");
    assert_eq!(peertube_user_search_url(b, "bot"), "http://peertube:9000/api/v1/users?search=bot&count=1");
    assert_eq!(peertube_users_url(b), "http://peertube:9000/api/v1/users");
    assert_eq!(peertube_channels_url(b, "bot"), "http://peertube:9000/api/v1/accounts/bot/video-channels");
    assert_eq!(peertube_upload_url(b), "http://peertube:9000/api/v1/videos/upload");
    assert_eq!(peertube_video_url(b, "u-1"), "http://peertube:9000/api/v1/videos/u-1");
    assert_eq!(peertube_caption_url(b, "u-1", "en"), "http://peertube:9000/api/v1/videos/u-1/captions/en");
    assert_eq!(
        peertube_account_videos_url(b, "bot", 100, 50),
        "http://peertube:9000/api/v1/accounts/bot/videos?start=100&count=50"
    );
}

#[test]
fn token_request_fields() {
    let f = token_form("cid", "csecret", "bot", "pw");
    let want: Vec<(String, String)> = [
        ("client_id", "cid"),
        ("client_secret", "csecret"),
        ("grant_type", "password"),
        ("response_type", "code"),
        ("username", "bot"),
        ("password", "pw"),
    ]
    .iter()
    .map(|(a, b)| (a.to_string(), b.to_string()))
    .collect();
    assert_eq!(f, want);
}

#[test]
fn channel_and_account_lookup() {
    assert_eq!(first_channel_id(&vec![7, 9]), Some(7));
    assert_eq!(first_channel_id(&vec![]), None);
    let found = vec!["bot2".to_string(), "bot".to_string()];
    assert!(bot_account_exists(&found, "bot"));
    assert!(!bot_account_exists(&vec!["bot2".to_string()], "bot"));
    let u = new_bot_user("bot", "pw", "bot@x.test");
    assert_eq!(u.role, 0);
    assert_eq!(u.video_quota, -1);
    assert_eq!(u.video_quota_daily, -1);
    assert_eq!(u.email, "bot@x.test");
}

#[test]
fn paging_stops_at_short_page_or_total() {
    assert_eq!(next_page_start(0, 100, 250, 100), Some(100));
    assert_eq!(next_page_start(200, 50, 250, 100), None);
    assert_eq!(next_page_start(100, 100, 200, 100), None);
    assert_eq!(next_page_start(u64::MAX, 100, u64::MAX, 100), None);
}
