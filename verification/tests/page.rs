use yt::page::{
    after_first_page, after_retry_page, consent_required, create_consent_cookie,
    extract_innertube_api_key, playlist_video_ids, PageStep,
};
use yt::TranscriptError;

#[test]
fn api_key_found() {
    let html = r#"<script>ytcfg.set({"INNERTUBE_API_KEY": "AIzaSyA-key_123","OTHER":1});</script>"#;
    assert_eq!(extract_innertube_api_key(html, "vid").unwrap(), "AIzaSyA-key_123");
}

#[test]
fn api_key_missing_or_blocked() {
    assert!(matches!(
        extract_innertube_api_key("<html></html>", "vid"),
        Err(TranscriptError::YouTubeDataUnparsable(v)) if v == "vid"
    ));
    assert!(matches!(
        extract_innertube_api_key(r#"<div class="g-recaptcha"></div>"INNERTUBE_API_KEY":"k""#, "vid"),
        Err(TranscriptError::IpBlocked(_))
    ));
}

const CONSENT: &str = r#"<form action="https://consent.youtube.com/s"><input name="v" value="cb.20210328-17-p0.en+FX+123"></form>"#;

#[test]
fn consent_pages() {
    assert!(consent_required(CONSENT));
    assert!(!consent_required("<html>video</html>"));
    assert!(create_consent_cookie(CONSENT, "vid").is_ok());
    assert!(matches!(
        create_consent_cookie(r#"<form action="https://consent.youtube.com/s"></form>"#, "vid"),
        Err(TranscriptError::FailedToCreateConsentCookie(v)) if v == "vid"
    ));
    assert!(matches!(after_first_page(CONSENT, "vid"), Ok(PageStep::Retry)));
    assert!(matches!(after_first_page("<html>video</html>", "vid"), Ok(PageStep::Done)));
    assert!(after_retry_page("<html>video</html>", "vid").is_ok());
    assert!(matches!(after_retry_page(CONSENT, "vid"), Err(TranscriptError::FailedToCreateConsentCookie(_))));
}

#[test]
fn playlist_ids_deduplicated_in_order() {
    let html = r#"{"videoId":"aaaaaaaaaaa"},{"videoId":"bbbbbbbbbbb"},{"videoId":"aaaaaaaaaaa"},{"videoId":"short"}"#;
    assert_eq!(
        playlist_video_ids(html, "PL1").unwrap(),
        vec!["aaaaaaaaaaa".to_string(), "bbbbbbbbbbb".to_string()]
    );
}

#[test]
fn playlist_ids_from_watch_links() {
    let html = r#"<a href="/watch?v=ccccccccccc&list=PL1">x</a><a href="/watch?v=ccccccccccc">y</a><a href="/watch?v=ddddddddddd">"#;
    assert_eq!(
        playlist_video_ids(html, "PL1").unwrap(),
        vec!["ccccccccccc".to_string(), "ddddddddddd".to_string()]
    );
}

#[test]
fn empty_playlist() {
    match playlist_video_ids("<html></html>", "PL1") {
        Err(TranscriptError::YouTubeDataUnparsable(m)) => assert_eq!(m, "No videos found in playlist: PL1"),
        other => panic!("unexpected: {:?}", other),
    }
}
