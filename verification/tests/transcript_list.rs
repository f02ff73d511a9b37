use yt::{TranscriptError, TranscriptInfo, TranscriptList, TranslationLanguage};

fn info(code: &str, language: &str, generated: bool, translatable: bool, url: &str) -> TranscriptInfo {
    TranscriptInfo {
        language_code: code.to_string(),
        language: language.to_string(),
        is_generated: generated,
        is_translatable: translatable,
        base_url: url.to_string(),
        translation_languages: vec![],
    }
}

#[test]
fn test_transcript_list_find_transcript() {
    let manually_created = vec![info("en", "English", false, true, "https://example.com/en")];
    let generated = vec![info("es", "Spanish", true, false, "https://example.com/es")];

    let list = TranscriptList {
        video_id: "test".to_string(),
        title: None,
        manually_created,
        generated,
        translation_languages: vec![],
    };

    // Should find manually created first
    assert_eq!(list.find_transcript(&["en"]).unwrap().language_code, "en");
    // Should find generated if manually created not available
    assert_eq!(list.find_transcript(&["es"]).unwrap().language_code, "es");
    // Should prefer manually created over generated
    assert_eq!(list.find_transcript(&["en", "es"]).unwrap().language_code, "en");
    // Should error if not found
    assert!(list.find_transcript(&["fr"]).is_err());
}

#[test]
fn test_transcript_list_find_manually_created() {
    let manually_created = vec![info("en", "English", false, true, "https://example.com/en")];

    let list = TranscriptList {
        video_id: "test".to_string(),
        title: None,
        manually_created,
        generated: vec![],
        translation_languages: vec![],
    };

    assert_eq!(list.find_manually_created(&["en"]).unwrap().language_code, "en");
    assert!(list.find_manually_created(&["es"]).is_err());
}

#[test]
fn test_transcript_list_find_generated() {
    let generated = vec![info("es", "Spanish", true, false, "https://example.com/es")];

    let list = TranscriptList {
        video_id: "test".to_string(),
        title: None,
        manually_created: vec![],
        generated,
        translation_languages: vec![],
    };

    assert_eq!(list.find_generated(&["es"]).unwrap().language_code, "es");
    assert!(list.find_generated(&["en"]).is_err());
}

fn both_kinds() -> TranscriptList {
    TranscriptList {
        video_id: "vid".to_string(),
        title: Some("Title".to_string()),
        manually_created: vec![
            info("de", "German", false, true, "https://example.com/de"),
            info("en", "English", false, true, "https://example.com/en"),
        ],
        generated: vec![
            info("en", "English (auto)", true, false, "https://example.com/en-asr"),
            info("fr", "French (auto)", true, false, "https://example.com/fr-asr"),
        ],
        translation_languages: vec![TranslationLanguage {
            language: "Italian".to_string(),
            language_code: "it".to_string(),
        }],
    }
}

#[test]
fn find_transcript_prefers_manual_for_same_code() {
    let list = both_kinds();
    let found = list.find_transcript(&["en"]).unwrap();
    assert!(!found.is_generated);
    assert_eq!(found.base_url, "https://example.com/en");
}

#[test]
fn find_transcript_follows_code_order() {
    let list = both_kinds();
    // the first code that has a transcript wins, even a generated one
    let found = list.find_transcript(&["xx", "fr", "de"]).unwrap();
    assert_eq!(found.language_code, "fr");
    assert!(found.is_generated);
}

#[test]
fn find_generated_ignores_manual() {
    let list = both_kinds();
    assert_eq!(list.find_generated(&["en"]).unwrap().base_url, "https://example.com/en-asr");
    assert!(list.find_generated(&["de"]).is_err());
}

#[test]
fn no_transcript_found_error_names_video_and_codes() {
    let list = both_kinds();
    match list.find_transcript(&["xx", "yy"]) {
        Err(TranscriptError::NoTranscriptFound(video, codes)) => {
            assert_eq!(video, "vid");
            assert_eq!(codes, vec!["xx".to_string(), "yy".to_string()]);
        }
        other => panic!("unexpected: {:?}", other),
    }
    match list.find_manually_created(&[]) {
        Err(TranscriptError::NoTranscriptFound(video, codes)) => {
            assert_eq!(video, "vid");
            assert!(codes.is_empty());
        }
        other => panic!("unexpected: {:?}", other),
    }
}

#[test]
fn found_iff_either_kind_found() {
    let list = both_kinds();
    for codes in [vec!["en"], vec!["de"], vec!["fr"], vec!["zz"], vec!["zz", "de"]] {
        let any = list.find_transcript(&codes).is_ok();
        let manual = list.find_manually_created(&codes).is_ok();
        let generated = list.find_generated(&codes).is_ok();
        assert_eq!(any, manual || generated);
    }
}

#[test]
fn all_transcripts_lists_manual_then_generated() {
    let list = both_kinds();
    let all = list.all_transcripts();
    let urls: Vec<&str> = all.iter().map(|t| t.base_url.as_str()).collect();
    assert_eq!(
        urls,
        vec![
            "https://example.com/de",
            "https://example.com/en",
            "https://example.com/en-asr",
            "https://example.com/fr-asr"
        ]
    );
}

#[test]
fn default_language_is_english() {
    assert_eq!(yt::transcript::languages_or_default(None), vec!["en"]);
    assert_eq!(yt::transcript::languages_or_default(Some(vec!["de", "fr"])), vec!["de", "fr"]);
}
