use tubemin::queue::{
    classify_frame, event_action, event_effect, extract_items, is_open_packet, is_probe_answer,
    open_packet_sid, poll_updates, sid_result, socket_event_action, HandshakeError,
    SocketEventAction,
    polling_handshake_url, replace_all, transcoding_action, websocket_url, EventEffect,
    PollUpdate, QueueItem, QueueState, RawQueueEntry, SocketFrame, TranscodingAction,
};

fn item(url: &str, title: Option<&str>) -> QueueItem {
    QueueItem { url: url.to_string(), title: title.map(|t| t.to_string()) }
}

fn entry(url: Option<&str>, title: Option<&str>, has_error: bool) -> RawQueueEntry {
    RawQueueEntry { url: url.map(|u| u.to_string()), title: title.map(|t| t.to_string()), has_error }
}

#[test]
fn extract_items_keeps_entries_with_urls() {
    let entries = vec![
        entry(Some("a"), Some("A"), false),
        entry(None, Some("no url"), true),
        entry(Some("b"), None, true),
    ];
    assert_eq!(
        extract_items(entries, false),
        vec![item("a", Some("A")), item("b", None)]
    );
    let errored = vec![entry(Some("a"), Some("A"), false), entry(Some("b"), None, true)];
    assert_eq!(extract_items(errored, true), vec![item("b", None)]);
}

#[test]
fn poll_updates_follow_queue_state() {
    let state = QueueState {
        active: vec![item("a", Some("Title A")), item("b", None)],
        pending: vec![item("c", Some("Title C"))],
        errored: vec![item("a", Some("Old A")), item("d", Some("Title D")), item("e", None)],
    };
    assert_eq!(
        poll_updates(&state),
        vec![
            PollUpdate::MarkDownloading("a".into()),
            PollUpdate::MarkDownloading("b".into()),
            PollUpdate::UpdateTitle("a".into(), "Title A".into()),
            PollUpdate::UpdateTitle("c".into(), "Title C".into()),
            PollUpdate::MarkError("d".into()),
            PollUpdate::UpdateTitle("d".into(), "Title D".into()),
            PollUpdate::MarkError("e".into()),
        ]
    );
}

#[test]
fn resubmitted_urls_are_not_marked_error() {
    let state = QueueState {
        active: vec![],
        pending: vec![item("x", None)],
        errored: vec![item("x", None)],
    };
    assert!(!poll_updates(&state).contains(&PollUpdate::MarkError("x".into())));
}

#[test]
fn transcoding_state_one_is_published() {
    assert_eq!(transcoding_action(1), TranscodingAction::MarkComplete);
    assert_eq!(transcoding_action(2), TranscodingAction::MarkTranscoding);
    assert_eq!(transcoding_action(0), TranscodingAction::MarkTranscoding);
}

#[test]
fn socket_urls() {
    assert_eq!(
        polling_handshake_url("http://metube:8081"),
        "http://metube:8081/socket.io/?EIO=4&transport=polling"
    );
    assert_eq!(
        websocket_url("http://metube:8081", "abc"),
        "ws://metube:8081/socket.io/?EIO=4&transport=websocket&sid=abc"
    );
    assert_eq!(
        websocket_url("https://metube.example", "s1"),
        "wss://metube.example/socket.io/?EIO=4&transport=websocket&sid=s1"
    );
}

#[test]
fn replace_all_is_left_to_right() {
    let v: Vec<char> = "aaaa".chars().collect();
    let r: String = replace_all(&v, "aa", "b").into_iter().collect();
    assert_eq!(r, "bb");
    let w: Vec<char> = "xhttp://y".chars().collect();
    let s: String = replace_all(&w, "http://", "ws://").into_iter().collect();
    assert_eq!(s, "xws://y");
}

#[test]
fn socket_frames() {
    assert!(is_open_packet("0{\"sid\":\"abc\"}"));
    assert!(!is_open_packet("40"));
    assert!(!is_open_packet(""));
    assert_eq!(classify_frame("2"), SocketFrame::Ping);
    assert_eq!(
        classify_frame("42[\"updated\",{}]"),
        SocketFrame::Event("[\"updated\",{}]".into())
    );
    assert_eq!(classify_frame("40"), SocketFrame::Other);
    assert_eq!(classify_frame("22"), SocketFrame::Other);
}

#[test]
fn event_effects() {
    assert_eq!(event_effect(Some("added")), EventEffect::UpdateProgress);
    assert_eq!(event_effect(Some("updated")), EventEffect::UpdateProgress);
    assert_eq!(event_effect(Some("completed")), EventEffect::ClearProgress);
    assert_eq!(event_effect(Some("error")), EventEffect::ClearProgress);
    assert_eq!(event_effect(Some("cleared")), EventEffect::Ignore);
    assert_eq!(event_effect(None), EventEffect::Ignore);
}

fn action_string(a: SocketEventAction) -> String {
    match a {
        SocketEventAction::UpdateProgress(u) => format!("update {u}"),
        SocketEventAction::ClearProgress(u) => format!("clear {u}"),
        SocketEventAction::Ignore => "ignore".to_string(),
    }
}

#[test]
fn handshake_reads_session_id() {
    assert_eq!(
        open_packet_sid("0{\"sid\":\"abc123\",\"upgrades\":[\"websocket\"],\"pingInterval\":25000}"),
        Ok("abc123".to_string())
    );
    assert_eq!(open_packet_sid("0{\"upgrades\":[]}"), Err(HandshakeError::NoSid));
    assert_eq!(open_packet_sid("0not json"), Err(HandshakeError::NoSid));
    assert_eq!(open_packet_sid("40"), Err(HandshakeError::NotOpenPacket));
    assert_eq!(open_packet_sid(""), Err(HandshakeError::NotOpenPacket));
    assert_eq!(sid_result(Some("s".to_string())), Ok("s".to_string()));
    assert_eq!(sid_result(None), Err(HandshakeError::NoSid));
}

#[test]
fn probe_answer_is_exact() {
    assert!(is_probe_answer("3probe"));
    assert!(!is_probe_answer("3"));
    assert!(!is_probe_answer("3probe "));
}

#[test]
fn socket_events_become_actions() {
    assert_eq!(
        action_string(socket_event_action("[\"updated\",{\"url\":\"https://x.test/v\",\"percent\":42.5}]")),
        "update https://x.test/v"
    );
    assert_eq!(
        action_string(socket_event_action("[\"completed\",{\"url\":\"https://x.test/v\"}]")),
        "clear https://x.test/v"
    );
    assert_eq!(action_string(socket_event_action("[\"added\",{}]")), "ignore");
    assert_eq!(action_string(socket_event_action("[\"cleared\",{\"url\":\"u\"}]")), "ignore");
    assert_eq!(action_string(socket_event_action("not json")), "ignore");
    assert_eq!(action_string(event_action(Some("error".to_string()), Some("u".to_string()))), "clear u");
    assert_eq!(action_string(event_action(Some("added".to_string()), Some("u".to_string()))), "update u");
    assert_eq!(action_string(event_action(None, Some("u".to_string()))), "ignore");
    assert_eq!(action_string(event_action(Some("updated".to_string()), None)), "ignore");
    assert_eq!(action_string(socket_event_action("{\"0\":\"updated\",\"1\":{\"url\":\"u\"}}")), "ignore");
}
