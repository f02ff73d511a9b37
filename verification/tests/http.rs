use yt::http::{check_http_errors, innertube_request, innertube_url, playlist_url, watch_url};
use yt::{JsonValue, TranscriptError};

#[test]
fn success_statuses_pass() {
    assert!(check_http_errors(200, "vid").is_ok());
    assert!(check_http_errors(204, "vid").is_ok());
    assert!(check_http_errors(299, "vid").is_ok());
}

#[test]
fn too_many_requests_means_blocked() {
    assert!(matches!(check_http_errors(429, "vid"), Err(TranscriptError::IpBlocked(v)) if v == "vid"));
}

#[test]
fn failed_status_messages() {
    match check_http_errors(404, "vid") {
        Err(TranscriptError::HttpError(m)) => assert_eq!(m, "HTTP 404 Not Found: Not Found"),
        other => panic!("unexpected: {:?}", other),
    }
    match check_http_errors(599, "vid") {
        Err(TranscriptError::HttpError(m)) => assert_eq!(m, "HTTP 599 <unknown status code>: Unknown error"),
        other => panic!("unexpected: {:?}", other),
    }
    match check_http_errors(301, "vid") {
        Err(TranscriptError::HttpError(m)) => assert_eq!(m, "HTTP 301 Moved Permanently: Moved Permanently"),
        other => panic!("unexpected: {:?}", other),
    }
}

#[test]
fn request_addresses() {
    assert_eq!(watch_url("dQw4w9WgXcQ"), "https://www.youtube.com/watch?v=dQw4w9WgXcQ");
    assert_eq!(playlist_url("PL1"), "https://www.youtube.com/playlist?list=PL1");
    assert_eq!(innertube_url("KEY"), "https://www.youtube.com/youtubei/v1/player?key=KEY");
}

#[test]
fn innertube_body() {
    let body = innertube_request("dQw4w9WgXcQ");
    match body {
        JsonValue::Object(members) => {
            assert_eq!(members.len(), 2);
            assert_eq!(members[0].0, "context");
            assert_eq!(members[1].0, "videoId");
            assert!(matches!(&members[1].1, JsonValue::String(v) if v == "dQw4w9WgXcQ"));
        }
        other => panic!("unexpected: {:?}", other),
    }
}
