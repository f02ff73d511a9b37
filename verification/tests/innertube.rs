use yt::innertube::{assert_playability, extract_captions_json, extract_video_title};
use yt::{JsonValue, TranscriptError};

fn s(v: &str) -> JsonValue {
    JsonValue::String(v.to_string())
}

fn obj(members: Vec<(&str, JsonValue)>) -> JsonValue {
    JsonValue::Object(members.into_iter().map(|(k, v)| (k.to_string(), v)).collect())
}

fn runs(text: &str) -> JsonValue {
    obj(vec![("runs", JsonValue::Array(vec![obj(vec![("text", s(text))])]))])
}

fn track(code: &str, name: &str, kind: Option<&str>, translatable: bool, url: &str) -> JsonValue {
    let mut members = vec![
        ("baseUrl", s(url)),
        ("name", runs(name)),
        ("languageCode", s(code)),
        ("isTranslatable", JsonValue::Bool(translatable)),
    ];
    if let Some(k) = kind {
        members.push(("kind", s(k)));
    }
    obj(members)
}

fn player_response(tracks: Vec<JsonValue>) -> JsonValue {
    obj(vec![
        ("playabilityStatus", obj(vec![("status", s("OK"))])),
        (
            "captions",
            obj(vec![(
                "playerCaptionsTracklistRenderer",
                obj(vec![
                    ("captionTracks", JsonValue::Array(tracks)),
                    (
                        "translationLanguages",
                        JsonValue::Array(vec![
                            obj(vec![("languageCode", s("it")), ("languageName", runs("Italian"))]),
                            obj(vec![("languageCode", s("xx"))]),
                            obj(vec![("languageCode", s("ja")), ("languageName", runs("Japanese"))]),
                        ]),
                    ),
                ]),
            )]),
        ),
        ("videoDetails", obj(vec![("title", s("A video")), ("lengthSeconds", JsonValue::Number("212".to_string()))])),
    ])
}

#[test]
fn captions_are_sorted_by_kind() {
    let data = player_response(vec![
        track("en", "English", None, true, "https://x/api?v=1&fmt=srv3&lang=en"),
        track("en", "English (auto-generated)", Some("asr"), true, "https://x/asr"),
        track("de", "German", Some("standard"), false, "https://x/de"),
        obj(vec![("languageCode", s("fr"))]),
    ]);
    let list = extract_captions_json("vid", &data).unwrap();
    assert_eq!(list.video_id, "vid");
    assert_eq!(list.title.as_deref(), Some("A video"));
    let codes: Vec<&str> = list.translation_languages.iter().map(|t| t.language_code.as_str()).collect();
    assert_eq!(codes, vec!["it", "ja"]);
    assert_eq!(list.manually_created.len(), 2);
    assert_eq!(list.generated.len(), 1);
    let en = &list.manually_created[0];
    assert_eq!(en.language, "English");
    assert_eq!(en.base_url, "https://x/api?v=1&lang=en");
    assert_eq!(en.translation_languages.len(), 2);
    let de = &list.manually_created[1];
    assert!(!de.is_translatable);
    assert!(de.translation_languages.is_empty());
    assert!(list.generated[0].is_generated);
}

#[test]
fn later_track_replaces_earlier_in_same_language() {
    let data = player_response(vec![
        track("en", "First", None, false, "https://x/1"),
        track("en", "Second", None, false, "https://x/2"),
    ]);
    let list = extract_captions_json("vid", &data).unwrap();
    assert_eq!(list.manually_created.len(), 1);
    assert_eq!(list.manually_created[0].language, "Second");
}

#[test]
fn language_name_defaults_to_code() {
    let data = player_response(vec![obj(vec![("languageCode", s("pt")), ("baseUrl", s("https://x/pt"))])]);
    let list = extract_captions_json("vid", &data).unwrap();
    assert_eq!(list.manually_created[0].language, "pt");
    assert!(!list.manually_created[0].is_translatable);
}

#[test]
fn no_captions_means_disabled() {
    let data = obj(vec![("playabilityStatus", obj(vec![("status", s("OK"))]))]);
    assert!(matches!(extract_captions_json("vid", &data), Err(TranscriptError::TranscriptsDisabled(v)) if v == "vid"));
    let empty = player_response(vec![]);
    assert!(matches!(extract_captions_json("vid", &empty), Err(TranscriptError::TranscriptsDisabled(_))));
}

fn status(status: &str, reason: Option<&str>) -> JsonValue {
    let mut ps = vec![("status", s(status))];
    if let Some(r) = reason {
        ps.push(("reason", s(r)));
    }
    obj(vec![("playabilityStatus", obj(ps))])
}

#[test]
fn playability_errors() {
    assert!(assert_playability("vid", &obj(vec![])).is_ok());
    assert!(assert_playability("vid", &status("OK", Some("whatever"))).is_ok());
    assert!(matches!(
        assert_playability("vid", &status("LOGIN_REQUIRED", Some("Sign in to confirm you're not a bot. This helps"))),
        Err(TranscriptError::RequestBlocked(v)) if v == "vid"
    ));
    assert!(matches!(
        assert_playability("vid", &status("LOGIN_REQUIRED", Some("This video may be inappropriate for some users."))),
        Err(TranscriptError::AgeRestricted(_))
    ));
    assert!(matches!(
        assert_playability("vid", &status("ERROR", Some("This video is unavailable"))),
        Err(TranscriptError::VideoUnavailable(_))
    ));
    assert!(matches!(
        assert_playability("https://youtu.be/x", &status("ERROR", Some("Video unavailable"))),
        Err(TranscriptError::InvalidVideoId(v)) if v == "https://youtu.be/x"
    ));
    assert!(matches!(
        assert_playability("vid", &status("LOGIN_REQUIRED", None)),
        Err(TranscriptError::VideoUnplayable(v, r)) if v == "vid" && r.is_empty()
    ));
    assert!(matches!(
        assert_playability("vid", &obj(vec![("playabilityStatus", obj(vec![]))])),
        Err(TranscriptError::VideoUnplayable(_, _))
    ));
    assert!(matches!(
        assert_playability("vid", &status("UNPLAYABLE", Some("Private video"))),
        Err(TranscriptError::VideoUnplayable(_, r)) if r == "Private video"
    ));
}

#[test]
fn video_titles() {
    let data = player_response(vec![]);
    assert_eq!(extract_video_title("vid", &data).unwrap(), "A video");
    assert!(matches!(
        extract_video_title("vid", &status("OK", None)),
        Err(TranscriptError::YouTubeDataUnparsable(v)) if v == "vid"
    ));
    let no_title = obj(vec![("videoDetails", obj(vec![("title", JsonValue::Null)]))]);
    assert!(matches!(extract_video_title("vid", &no_title), Err(TranscriptError::YouTubeDataUnparsable(_))));
}
