use rebels::audio::connection::{
    append_refused, build_request, check_scheme, check_status, stream_request, ConnectAction, ConnectError, ConnectOutcome,
    StreamRequest, CHUNK_QUEUE_LEN, STREAMING_TIMEOUT_MILLIS,
};
use rebels::audio::music_player::MusicPlayerEvent;
use rebels::audio::playback::{AudioCommand, Playback};
use rebels::audio::stream::{check_url, Stream, StreamCheck, StreamUrl};

fn stream(url: &str) -> Stream {
    Stream {
        name: "Radio".to_string(),
        url_string: url.to_string(),
    }
}

#[test]
fn urls_are_parsed_and_normalized() {
    let url: StreamUrl = stream(" HTTP://Radio.Example.COM:80/a/../live").url().unwrap();
    assert_eq!(url.scheme, "http");
    assert_eq!(url.text, "http://radio.example.com/live");
}

#[test]
fn bad_urls_are_refused_with_their_error() {
    assert_eq!(
        stream("radio.example.com/live").url().unwrap_err().message(),
        "relative URL without a base"
    );
    assert_eq!(stream("http://").url().unwrap_err().message(), "empty host");
    assert_eq!(
        stream("http://example.com:port/").url().unwrap_err().message(),
        "invalid port number"
    );
}

#[test]
fn stations_are_judged_by_their_url() {
    assert!(matches!(stream("https://example.com").check(), StreamCheck::Playable));
    assert!(matches!(
        stream("FTP://example.com/x").check(),
        StreamCheck::UnsupportedScheme { url } if url.text == "ftp://example.com/x"
    ));
    assert!(matches!(
        stream("nonsense").check(),
        StreamCheck::Invalid { error } if error.message() == "relative URL without a base"
    ));
}

#[test]
fn parsed_urls_are_judged_by_their_scheme() {
    for (scheme, playable) in [("http", true), ("https", true), ("httpss", false), ("HTTP", false), ("", false)] {
        let url: StreamUrl = StreamUrl {
            scheme: scheme.to_string(),
            text: "x".to_string(),
        };
        assert_eq!(url.is_supported(), playable);
        assert_eq!(matches!(check_url(Ok(url)), StreamCheck::Playable), playable);
    }
}

#[test]
fn a_request_says_who_asks_for_what() {
    let url: StreamUrl = stream("https://Example.com/live").url().unwrap();
    let request: StreamRequest = stream_request(&url).unwrap();
    assert_eq!(request.method, "GET");
    assert_eq!(request.uri, "https://example.com/live");
    let headers: Vec<(&str, &str)> = request
        .headers
        .iter()
        .map(|header| (header.name.as_str(), header.value.as_str()))
        .collect();
    assert_eq!(
        headers,
        vec![
            ("user-agent", "rebels-in-the-sky"),
            ("accept", "*/*"),
            ("icy-metadata", "0")
        ]
    );
}

#[test]
fn other_schemes_are_not_requested() {
    let url: StreamUrl = stream("rtsp://example.com/live").url().unwrap();
    let error: ConnectError = stream_request(&url).unwrap_err();
    assert_eq!(error.message(), "Unsupported radio stream URL scheme: rtsp");
    let error: ConnectError = check_scheme(&url).unwrap_err();
    assert_eq!(error.message(), "Unsupported radio stream URL scheme: rtsp");
    let url: StreamUrl = stream("http://example.com/live").url().unwrap();
    assert!(check_scheme(&url).is_ok());
}

#[test]
fn only_success_is_a_stream() {
    assert!(check_status(200).is_ok());
    assert!(check_status(299).is_ok());
    for (code, message) in [
        (199, "Radio stream returned HTTP status 199 <unknown status code>"),
        (300, "Radio stream returned HTTP status 300 Multiple Choices"),
        (404, "Radio stream returned HTTP status 404 Not Found"),
        (100, "Radio stream returned HTTP status 100 Continue"),
        (999, "Radio stream returned HTTP status 999 <unknown status code>"),
    ] {
        assert_eq!(check_status(code).unwrap_err().message(), message);
    }
}

#[test]
fn transport_errors_keep_their_text() {
    let error: ConnectError = ConnectError::Transport {
        message: "connection reset".to_string(),
    };
    assert_eq!(error.message(), "connection reset");
}

#[test]
fn a_connected_stream_is_handed_on_while_buffering() {
    let mut playback: Playback = Playback::new();
    playback.connect_started();
    assert!(playback.is_buffering);
    let action: ConnectAction = playback.connect_finished(3, ConnectOutcome::Connected);
    assert!(matches!(
        action,
        ConnectAction::Send { command: AudioCommand::Append { generation: 3 } }
    ));
    assert!(playback.is_buffering);
}

#[test]
fn a_failed_connection_is_reported() {
    let mut playback: Playback = Playback::new();
    playback.connect_started();
    let action: ConnectAction = playback.connect_finished(
        3,
        ConnectOutcome::Failed {
            message: "no route".to_string(),
        },
    );
    assert!(matches!(
        action,
        ConnectAction::Report { event: MusicPlayerEvent::StreamErr { error_message } }
            if error_message == "Unable to start audio stream: no route"
    ));
    assert!(!playback.is_buffering);
}

#[test]
fn a_slow_connection_is_reported() {
    let mut playback: Playback = Playback::new();
    playback.connect_started();
    let action: ConnectAction = playback.connect_finished(3, ConnectOutcome::TimedOut);
    assert!(matches!(
        action,
        ConnectAction::Report { event: MusicPlayerEvent::StreamErr { error_message } }
            if error_message == "Audio streaming timed out"
    ));
    assert!(!playback.is_buffering);
    assert_eq!(STREAMING_TIMEOUT_MILLIS, 2_000);
    assert_eq!(CHUNK_QUEUE_LEN, 16);
}

#[test]
fn a_lost_audio_thread_is_reported() {
    assert!(matches!(
        append_refused("SendError"),
        MusicPlayerEvent::StreamErr { error_message }
            if error_message == "Audio thread receiver dropped: SendError"
    ));
}

#[test]
fn urls_that_no_request_can_name_are_refused() {
    let mut text: String = "http://example.com/".to_string();
    text.push_str(&"a".repeat(70_000));
    let url: StreamUrl = stream(&text).url().unwrap();
    assert_eq!(url.text, text);
    let error: ConnectError = stream_request(&url).unwrap_err();
    assert!(matches!(error, ConnectError::InvalidUri { .. }));
    assert_eq!(error.message(), "uri too long");
}

#[test]
fn a_request_is_built_from_a_checked_url() {
    let url: StreamUrl = stream("http://example.com/live").url().unwrap();
    let request: StreamRequest = build_request(&url, Ok(())).unwrap();
    assert_eq!(request.uri, "http://example.com/live");
    let error: ConnectError = build_request(&url, Err("no".to_string())).unwrap_err();
    assert_eq!(error.message(), "no");
    let url: StreamUrl = stream("ftp://example.com/live").url().unwrap();
    let error: ConnectError = build_request(&url, Err("no".to_string())).unwrap_err();
    assert_eq!(error.message(), "Unsupported radio stream URL scheme: ftp");
}
